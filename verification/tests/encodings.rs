use ginger_calls::buffer::{pad_to_field_size, push_u64, read_field_element_from_buffer, BufferTooLong};
use ginger_calls::calls::{Call, Computation, Reply, Step, Waiting};
use ginger_calls::element::ElementCall;
use ginger_calls::field::{read_field_element_from_u64, FieldElement, FIELD_SIZE};
use ginger_calls::transfer::BackwardTransfer;

fn read_bytes(computation: &ElementCall) -> Vec<u8> {
    match computation.call() {
        Call::ReadFieldElement(bytes) => bytes,
        other => panic!("unexpected call {:?}", other),
    }
}

#[test]
fn field_size_is_ninety_six_bytes() {
    assert_eq!(FIELD_SIZE, 96);
    assert_eq!(FIELD_SIZE, 12 * 8);
}

#[test]
fn from_u64_puts_the_number_in_the_lowest_limb() {
    assert_eq!(read_field_element_from_u64(7).limbs, [7, 0, 0, 0, 0, 0, 0, 0, 0, 0, 0, 0]);
    assert_eq!(
        read_field_element_from_u64(u64::MAX).limbs,
        [u64::MAX, 0, 0, 0, 0, 0, 0, 0, 0, 0, 0, 0]
    );
}

#[test]
fn from_u64_tells_numbers_apart() {
    assert_ne!(read_field_element_from_u64(0), read_field_element_from_u64(1));
    assert_ne!(read_field_element_from_u64(1), read_field_element_from_u64(1 << 63));
}

#[test]
fn padding_keeps_the_front_and_adds_zeros() {
    let padded = pad_to_field_size(&[1, 2, 3]);
    assert_eq!(padded.len(), FIELD_SIZE);
    assert_eq!(padded[..3], [1, 2, 3]);
    assert!(padded[3..].iter().all(|byte| *byte == 0));
}

#[test]
fn padding_an_empty_buffer_gives_zeros() {
    assert_eq!(pad_to_field_size(&[]), vec![0u8; 96]);
}

#[test]
fn padding_leaves_a_full_buffer() {
    let full: Vec<u8> = (0..96).collect();
    assert_eq!(pad_to_field_size(&full), full);
}

#[test]
fn padding_tells_buffers_of_one_length_apart() {
    assert_ne!(pad_to_field_size(&[1, 0]), pad_to_field_size(&[0, 1]));
    // Of different length, they may agree.
    assert_eq!(pad_to_field_size(&[1]), pad_to_field_size(&[1, 0]));
}

#[test]
fn reading_a_short_buffer_reads_the_padded_one() {
    let computation = read_field_element_from_buffer(&[9; 32]).unwrap();
    let mut expected = vec![9u8; 32];
    expected.resize(96, 0);
    assert_eq!(read_bytes(&computation), expected);
}

#[test]
fn reading_a_full_buffer_reads_it_as_it_is() {
    let computation = read_field_element_from_buffer(&[5; 96]).unwrap();
    assert_eq!(read_bytes(&computation), vec![5u8; 96]);
}

#[test]
fn reading_a_long_buffer_is_an_error() {
    assert_eq!(read_field_element_from_buffer(&[0; 97]), Err(BufferTooLong { len: 97 }));
    assert_eq!(read_field_element_from_buffer(&[0; 200]), Err(BufferTooLong { len: 200 }));
}

#[test]
fn numbers_are_written_little_endian() {
    let mut buffer = vec![0xffu8];
    push_u64(&mut buffer, 0x0102_0304_0506_0708);
    assert_eq!(buffer, vec![0xff, 8, 7, 6, 5, 4, 3, 2, 1]);
    let mut buffer = vec![];
    push_u64(&mut buffer, u64::MAX);
    assert_eq!(buffer, u64::MAX.to_le_bytes().to_vec());
}

#[test]
fn new_transfer_holds_its_arguments() {
    let transfer = BackwardTransfer::new([3; 32], 14);
    assert_eq!(transfer.pk_dest, [3; 32]);
    assert_eq!(transfer.amount, 14);
}

#[test]
fn default_transfer_moves_nothing() {
    assert_eq!(BackwardTransfer::default(), BackwardTransfer::new([0; 32], 0));
}

#[test]
fn transfer_is_encoded_as_destination_amount_and_zeros() {
    let mut pk_dest = [0u8; 32];
    for i in 0..32 {
        pk_dest[i] = 100 + i as u8;
    }
    let buffer = read_bytes(&BackwardTransfer::new(pk_dest, 258).to_field_element());
    assert_eq!(buffer.len(), 96);
    assert_eq!(buffer[..32], pk_dest);
    assert_eq!(buffer[32..40], [2, 1, 0, 0, 0, 0, 0, 0]);
    assert_eq!(buffer[40..], [0u8; 56]);
}

#[test]
fn transfer_is_read_like_its_bytes() {
    let transfer = BackwardTransfer::new([7; 32], 0x0102_0304_0506_0708);
    let mut bytes = vec![7u8; 32];
    bytes.extend_from_slice(&[8, 7, 6, 5, 4, 3, 2, 1]);
    assert_eq!(transfer.to_field_element(), read_field_element_from_buffer(&bytes).unwrap());
}

#[test]
fn default_transfer_is_encoded_as_zeros() {
    assert_eq!(BackwardTransfer::default().encode(), vec![0u8; 96]);
}

#[test]
fn different_transfers_have_different_encodings() {
    let transfer = BackwardTransfer::new([1; 32], 5);
    assert_ne!(transfer.encode(), BackwardTransfer::new([1; 32], 6).encode());
    assert_ne!(transfer.encode(), BackwardTransfer::new([2; 32], 5).encode());
    assert_eq!(transfer.encode(), BackwardTransfer::new([1; 32], 5).encode());
}

#[test]
fn an_element_call_gives_the_element_that_comes_back() {
    let element: FieldElement = read_field_element_from_u64(3);
    let computation = read_field_element_from_buffer(&[1]).unwrap();
    assert_eq!(computation.resume(Reply::<u8>::Element(element)), Step::Done(element));
}

#[test]
fn an_element_call_fails_with_the_back_end() {
    let computation = read_field_element_from_buffer(&[1]).unwrap();
    assert_eq!(computation.resume(Reply::Failed("short")), Step::Failed("short"));
}

#[test]
fn an_element_call_keeps_waiting_after_a_verdict() {
    let computation = read_field_element_from_buffer(&[1]).unwrap();
    let same = read_field_element_from_buffer(&[1]).unwrap();
    assert_eq!(computation.resume(Reply::<u8>::Verdict(true)), Step::Pending(same));
}
