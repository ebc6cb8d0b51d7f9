//! Byte buffers that field elements are read from.

use crate::calls::{Call, Waiting};
use crate::element::ElementCall;
use crate::field::FIELD_SIZE;
use vstd::arithmetic::power::pow;
use vstd::prelude::*;

verus! {

/// `count` zero bytes.
pub open spec fn zeros(count: nat) -> Seq<u8> {
    Seq::new(count, |i: int| 0u8)
}

/// A buffer of at most [`FIELD_SIZE`] bytes, filled up with zeros to that size.
pub open spec fn padded(buffer: Seq<u8>) -> Seq<u8>
    recommends
        buffer.len() <= FIELD_SIZE,
{
    buffer + zeros((FIELD_SIZE - buffer.len()) as nat)
}

/// The `len` lowest base-256 digits of `n`, least significant first.
pub open spec fn le_bytes(n: nat, len: nat) -> Seq<u8>
    decreases len,
{
    if len == 0 {
        Seq::empty()
    } else {
        seq![(n % 256) as u8] + le_bytes(n / 256, (len - 1) as nat)
    }
}

/// The integer that bytes denote, least significant first.
pub open spec fn le_value(bytes: Seq<u8>) -> nat
    decreases bytes.len(),
{
    if bytes.len() == 0 {
        0
    } else {
        bytes[0] as nat + 256 * le_value(bytes.drop_first())
    }
}

/// There are as many zeros as were asked for.
pub proof fn law_zeros(count: nat)
    ensures
        zeros(count).len() == count,
        forall|i: int| 0 <= i < count ==> #[trigger] zeros(count)[i] == 0,
{
}

/// The digit in each place is the integer, shifted down to that place and reduced.
pub proof fn law_le_bytes_digits(n: nat, len: nat, i: nat)
    requires
        i < len,
    ensures
        le_bytes(n, len).len() == len,
        le_bytes(n, len)[i as int] as int == (n as int / pow(256, i)) % 256,
    decreases len,
{
    reveal(pow);
    law_le_bytes_len(n, len);
    if i > 0 {
        let m = pow(256, (i - 1) as nat);
        law_le_bytes_digits(n / 256, (len - 1) as nat, (i - 1) as nat);
        assert(le_bytes(n, len)[i as int] == le_bytes(n / 256, (len - 1) as nat)[i - 1]);
        vstd::arithmetic::power::lemma_pow_positive(256, (i - 1) as nat);
        vstd::arithmetic::div_mod::lemma_div_denominator(n as int, 256, m);
    }
}

/// No bytes denote zero, and a byte behind others counts for as much more as
/// there are bytes before it.
pub proof fn law_le_value_digits(bytes: Seq<u8>, last: u8)
    ensures
        le_value(Seq::empty()) == 0,
        le_value(bytes.push(last)) == le_value(bytes) + pow(256, bytes.len()) * last,
{
    assert(bytes.push(last) =~= bytes + seq![last]);
    law_le_value_append(bytes, seq![last]);
    assert(seq![last].drop_first() =~= Seq::<u8>::empty());
    reveal_with_fuel(le_value, 2);
}

/// There are as many digits as were asked for.
pub proof fn law_le_bytes_len(n: nat, len: nat)
    ensures
        le_bytes(n, len).len() == len,
    decreases len,
{
    if len > 0 {
        law_le_bytes_len(n / 256, (len - 1) as nat);
    }
}

/// The eight digits of a 64-bit integer denote that integer.
pub proof fn law_le_bytes_value(n: u64)
    ensures
        le_value(le_bytes(n as nat, 8)) == n,
{
    lemma_le_bytes_value(n as nat, 8);
    reveal_with_fuel(pow, 9);
    assert(pow(256, 8) == 0x1_0000_0000_0000_0000);
    vstd::arithmetic::div_mod::lemma_small_mod(n as nat, 0x1_0000_0000_0000_0000nat);
}

/// The digits denote the integer, reduced to what that many digits can hold.
proof fn lemma_le_bytes_value(n: nat, len: nat)
    ensures
        le_value(le_bytes(n, len)) == n as int % pow(256, len),
    decreases len,
{
    reveal(pow);
    if len > 0 {
        let rest = le_bytes(n / 256, (len - 1) as nat);
        lemma_le_bytes_value(n / 256, (len - 1) as nat);
        assert(le_bytes(n, len).drop_first() =~= rest);
        let m = pow(256, (len - 1) as nat);
        vstd::arithmetic::power::lemma_pow_positive(256, (len - 1) as nat);
        vstd::arithmetic::div_mod::lemma_breakdown(n as int, 256, m);
    }
}

/// Bytes that follow count for as much more as there are bytes before them.
pub proof fn law_le_value_append(a: Seq<u8>, b: Seq<u8>)
    ensures
        le_value(a + b) == le_value(a) + pow(256, a.len()) * le_value(b),
    decreases a.len(),
{
    reveal(pow);
    if a.len() == 0 {
        assert(a + b =~= b);
    } else {
        assert((a + b).drop_first() =~= a.drop_first() + b);
        law_le_value_append(a.drop_first(), b);
        let m = pow(256, (a.len() - 1) as nat);
        let v = le_value(b);
        assert(256 * (m * v) == (256 * m) * v) by (nonlinear_arith);
    }
}

/// Bytes denote less than the next power of 256.
pub proof fn law_le_value_bound(bytes: Seq<u8>)
    ensures
        le_value(bytes) < pow(256, bytes.len()),
    decreases bytes.len(),
{
    reveal(pow);
    if bytes.len() > 0 {
        law_le_value_bound(bytes.drop_first());
    }
}

/// Buffers of one length are told apart by what they denote.
pub proof fn law_le_value_injective(a: Seq<u8>, b: Seq<u8>)
    requires
        a.len() == b.len(),
        le_value(a) == le_value(b),
    ensures
        a == b,
    decreases a.len(),
{
    if a.len() > 0 {
        law_le_value_injective(a.drop_first(), b.drop_first());
        assert(a =~= seq![a[0]] + a.drop_first());
        assert(b =~= seq![b[0]] + b.drop_first());
    } else {
        assert(a =~= b);
    }
}

proof fn lemma_zeros_value(count: nat)
    ensures
        le_value(zeros(count)) == 0,
    decreases count,
{
    if count > 0 {
        assert(zeros(count).drop_first() =~= zeros((count - 1) as nat));
        lemma_zeros_value((count - 1) as nat);
    }
}

/// Padding does not change what a buffer denotes.
pub proof fn law_padded_value(buffer: Seq<u8>)
    requires
        buffer.len() <= FIELD_SIZE,
    ensures
        le_value(padded(buffer)) == le_value(buffer),
{
    let count = (FIELD_SIZE - buffer.len()) as nat;
    law_le_value_append(buffer, zeros(count));
    lemma_zeros_value(count);
    assert(pow(256, buffer.len()) * 0 == 0) by (nonlinear_arith);
}

/// Padding keeps the buffer in front, puts zeros behind it, and reaches [`FIELD_SIZE`].
pub proof fn law_padded_layout(buffer: Seq<u8>)
    requires
        buffer.len() <= FIELD_SIZE,
    ensures
        padded(buffer).len() == FIELD_SIZE,
        padded(buffer).take(buffer.len() as int) == buffer,
        forall|i: int| buffer.len() <= i < FIELD_SIZE ==> #[trigger] padded(buffer)[i] == 0,
{
    assert(padded(buffer).take(buffer.len() as int) =~= buffer);
}

/// A buffer that already has [`FIELD_SIZE`] bytes is left as it is.
pub proof fn law_padded_full(buffer: Seq<u8>)
    requires
        buffer.len() == FIELD_SIZE,
    ensures
        padded(buffer) == buffer,
{
    assert(padded(buffer) =~= buffer);
}

/// Buffers of one length are told apart after padding.
pub proof fn law_padded_injective(a: Seq<u8>, b: Seq<u8>)
    requires
        a.len() == b.len() <= FIELD_SIZE,
        padded(a) == padded(b),
    ensures
        a == b,
{
    law_padded_layout(a);
    law_padded_layout(b);
}

/// A buffer is too long to be read as one field element.
#[derive(Clone, Copy, Debug, PartialEq, Eq)]
pub struct BufferTooLong {
    /// Number of bytes in the buffer.
    pub len: usize,
}

/// Copies a buffer and fills it up with zeros to [`FIELD_SIZE`] bytes.
pub fn pad_to_field_size(buffer: &[u8]) -> (result: Vec<u8>)
    requires
        buffer@.len() <= FIELD_SIZE,
    ensures
        result@ == padded(buffer@),
        result@.len() == 96,
        forall|i: int|
            0 <= i < 96 ==> #[trigger] result@[i] == (if i < buffer@.len() {
                buffer@[i]
            } else {
                0
            }),
{
    let mut result: Vec<u8> = Vec::new();
    result.extend_from_slice(buffer);
    assert(result@ =~= buffer@);
    let mut i: usize = buffer.len();
    while i < FIELD_SIZE
        invariant
            buffer@.len() <= i <= FIELD_SIZE,
            result@ == buffer@ + zeros((i - buffer@.len()) as nat),
        decreases FIELD_SIZE - i,
    {
        result.push(0u8);
        i = i + 1;
        assert(result@ =~= buffer@ + zeros((i - buffer@.len()) as nat));
    }
    result
}

/// Appends the eight little-endian bytes of a 64-bit integer.
pub fn push_u64(buffer: &mut Vec<u8>, num: u64)
    ensures
        final(buffer)@ == old(buffer)@ + le_bytes(num as nat, 8),
        final(buffer)@.len() == old(buffer)@.len() + 8,
        final(buffer)@.take(old(buffer)@.len() as int) == old(buffer)@,
        forall|i: int|
            0 <= i < 8 ==> (#[trigger] final(buffer)@[old(buffer)@.len() + i]) as int == (num as int
                / pow(256, i as nat)) % 256,
{
    let mut rest: u64 = num;
    let mut left: usize = 8;
    while left > 0
        invariant
            left <= 8,
            old(buffer)@ + le_bytes(num as nat, 8) == buffer@ + le_bytes(rest as nat, left as nat),
        decreases left,
    {
        let ghost before = buffer@;
        let ghost digits = le_bytes(rest as nat, left as nat);
        buffer.push((rest % 256) as u8);
        rest = rest / 256;
        left = left - 1;
        assert(before + digits =~= buffer@ + le_bytes(rest as nat, left as nat));
    }
    assert(buffer@ + le_bytes(rest as nat, 0) =~= buffer@);
    proof {
        law_le_bytes_len(num as nat, 8);
        assert(buffer@.take(old(buffer)@.len() as int) =~= old(buffer)@);
        assert forall|i: int| 0 <= i < 8 implies (#[trigger] buffer@[old(buffer)@.len() + i]) as int
            == (num as int / pow(256, i as nat)) % 256 by {
            law_le_bytes_digits(num as nat, 8, i as nat);
            assert(buffer@[old(buffer)@.len() + i] == le_bytes(num as nat, 8)[i]);
        }
    }
}

/// Reads a buffer as a field element.
///
/// A buffer of more than [`FIELD_SIZE`] bytes is an error. A shorter one is
/// padded with zeros, and the back end decodes the result.
pub fn read_field_element_from_buffer(buffer: &[u8]) -> (result: Result<ElementCall, BufferTooLong>)
    ensures
        buffer@.len() > FIELD_SIZE ==> result == Err::<ElementCall, BufferTooLong>(
            BufferTooLong { len: buffer@.len() as usize },
        ),
        buffer@.len() <= FIELD_SIZE ==> (result matches Ok(read) && read.valid()
            && read.reads(padded(buffer@))),
        buffer@.len() <= 96 ==> (result matches Ok(ElementCall { work: Call::ReadFieldElement(bytes) })
            && bytes@.len() == 96 && forall|i: int|
            0 <= i < 96 ==> #[trigger] bytes@[i] == (if i < buffer@.len() {
                buffer@[i]
            } else {
                0
            })),
        buffer@.len() > 96 ==> result is Err,
{
    if buffer.len() > FIELD_SIZE {
        return Err(BufferTooLong { len: buffer.len() });
    }
    Ok(ElementCall { work: Call::ReadFieldElement(pad_to_field_size(buffer)) })
}

} // verus!
