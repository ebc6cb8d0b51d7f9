use std::cell::RefCell;

use ginger_calls::buffer::{pad_to_field_size, read_field_element_from_buffer};
use ginger_calls::calls::{drive, Call, Computation, Reply, Step, Waiting};
use ginger_calls::field::{read_field_element_from_u64, FieldElement};
use ginger_calls::hashes::{
    compute_pks_threshold_hash, compute_poseidon_hash, compute_wcert_sysdata_hash,
};
use ginger_calls::message::compute_msg_to_sign;
use ginger_calls::public_inputs::{
    get_public_inputs_for_naive_threshold_sig_proof, public_inputs_for_msg,
};
use ginger_calls::schnorr::{collect_x_coordinates, SchnorrPk, SchnorrSig};
use ginger_calls::threshold_proof::{
    create_naive_threshold_sig_proof, CircuitInput, Preparation,
};
use ginger_calls::transfer::BackwardTransfer;

const END: [u8; 32] = [17; 32];
const PREV: [u8; 32] = [29; 32];

fn number(n: u64) -> FieldElement {
    read_field_element_from_u64(n)
}

fn mix(seed: u64, elements: &[FieldElement]) -> FieldElement {
    let mut state = seed;
    for element in elements {
        for limb in element.limbs.iter() {
            state = (state ^ *limb).wrapping_mul(0x100_0000_01b3).rotate_left(17);
        }
        state = state.wrapping_add(0x9e37_79b9_7f4a_7c15);
    }
    number(state)
}

fn decode(bytes: &[u8]) -> Result<FieldElement, &'static str> {
    if bytes.len() < 96 {
        return Err("short buffer");
    }
    let mut limbs = [0u64; 12];
    for i in 0..12 {
        let mut chunk = [0u8; 8];
        chunk.copy_from_slice(&bytes[8 * i..8 * i + 8]);
        limbs[i] = u64::from_le_bytes(chunk);
    }
    Ok(FieldElement { limbs })
}

fn hash(elements: &[FieldElement]) -> FieldElement {
    mix(1, elements)
}

fn root(leaves: &[FieldElement]) -> FieldElement {
    mix(2, leaves)
}

fn sign(msg: FieldElement, pk: &SchnorrPk) -> SchnorrSig {
    SchnorrSig { e: mix(3, &[msg, pk.x, pk.y]), s: number(0) }
}

/// Stands for a signature whose check cannot be carried out.
const BROKEN: u64 = 999;

fn verify(msg: FieldElement, pk: &SchnorrPk, sig: &SchnorrSig) -> Result<bool, &'static str> {
    if sig.s == number(BROKEN) {
        return Err("broken signature");
    }
    Ok(*sig == sign(msg, pk))
}

fn perform(call: Call) -> Reply<&'static str> {
    match call {
        Call::ReadFieldElement(bytes) => match decode(&bytes) {
            Ok(element) => Reply::Element(element),
            Err(error) => Reply::Failed(error),
        },
        Call::PoseidonHash(input) => Reply::Element(hash(&input)),
        Call::MerkleRoot(leaves) => Reply::Element(root(&leaves)),
        Call::VerifySignature(msg, pk, sig) => match verify(msg, &pk, &sig) {
            Ok(verdict) => Reply::Verdict(verdict),
            Err(error) => Reply::Failed(error),
        },
    }
}

/// Runs a computation and notes its calls.
fn trace<C: Computation<&'static str>>(computation: C) -> (Result<C::Output, &'static str>, Vec<Call>) {
    let calls = RefCell::new(vec![]);
    let result = drive(computation, |call: Call| {
        let note = match &call {
            Call::ReadFieldElement(bytes) => Call::ReadFieldElement(bytes.clone()),
            Call::PoseidonHash(input) => Call::PoseidonHash(input.clone()),
            Call::MerkleRoot(leaves) => Call::MerkleRoot(leaves.clone()),
            Call::VerifySignature(msg, pk, sig) => Call::VerifySignature(*msg, *pk, *sig),
        };
        calls.borrow_mut().push(note);
        perform(call)
    });
    (result, calls.into_inner())
}

/// Runs a computation with a back end whose `n`-th call fails, counted from zero.
fn fail_at<C: Computation<&'static str>>(computation: C, n: usize) -> Option<&'static str> {
    let count = RefCell::new(0);
    let result = drive(computation, |call: Call| {
        let now = *count.borrow();
        *count.borrow_mut() += 1;
        if now == n {
            Reply::Failed("down")
        } else {
            perform(call)
        }
    });
    result.err()
}

fn block_hash(bytes: &[u8; 32]) -> FieldElement {
    decode(&pad_to_field_size(bytes)).unwrap()
}

fn leaf(transfer: &BackwardTransfer) -> FieldElement {
    let mut bytes = transfer.pk_dest.to_vec();
    bytes.extend_from_slice(&transfer.amount.to_le_bytes());
    bytes.resize(96, 0);
    decode(&bytes).unwrap()
}

fn expected_msg(
    end: &[u8; 32],
    prev: &[u8; 32],
    list: &[BackwardTransfer],
) -> (FieldElement, FieldElement) {
    let mr_bt = root(&list.iter().map(leaf).collect::<Vec<_>>());
    (mr_bt, hash(&[mr_bt, block_hash(prev), block_hash(end)]))
}

fn key(n: u64) -> SchnorrPk {
    SchnorrPk { x: number(1000 + n), y: number(2000 + n), infinity: false }
}

fn keys(n: u64) -> Vec<SchnorrPk> {
    (0..n).map(key).collect()
}

fn null_sig() -> SchnorrSig {
    SchnorrSig { e: number(0), s: number(0) }
}

fn ready(preparation: Preparation) -> CircuitInput {
    match preparation {
        Preparation::Ready(input) => input,
        other => panic!("not ready: {:?}", other),
    }
}

fn transfers() -> Vec<BackwardTransfer> {
    vec![BackwardTransfer::new([1; 32], 10), BackwardTransfer::new([2; 32], 20)]
}

#[test]
fn x_coordinates_are_collected_in_order() {
    assert_eq!(collect_x_coordinates(&keys(3)), vec![number(1000), number(1001), number(1002)]);
    assert_eq!(collect_x_coordinates(&[]), vec![]);
}

#[test]
fn poseidon_hash_is_asked_for_the_input() {
    let input = [number(4), number(5)];
    let (result, calls) = trace(compute_poseidon_hash(&input));
    assert_eq!(result, Ok(hash(&input)));
    assert_eq!(calls, vec![Call::PoseidonHash(input.to_vec())]);
}

#[test]
fn message_is_the_hash_of_root_and_block_hashes() {
    let list = transfers();
    let (result, _) = trace(compute_msg_to_sign(&END, &PREV, &list));
    assert_eq!(result, Ok(expected_msg(&END, &PREV, &list)));
}

#[test]
fn message_makes_its_calls_in_order() {
    let list = transfers();
    let (result, calls) = trace(compute_msg_to_sign(&END, &PREV, &list));
    let (mr_bt, _) = result.unwrap();
    assert_eq!(
        calls,
        vec![
            Call::ReadFieldElement(pad_to_field_size(&END)),
            Call::ReadFieldElement(pad_to_field_size(&PREV)),
            Call::ReadFieldElement(list[0].encode()),
            Call::ReadFieldElement(list[1].encode()),
            Call::MerkleRoot(vec![leaf(&list[0]), leaf(&list[1])]),
            Call::PoseidonHash(vec![mr_bt, block_hash(&PREV), block_hash(&END)]),
        ]
    );
}

#[test]
fn message_without_transfers_takes_the_root_of_nothing() {
    let (result, calls) = trace(compute_msg_to_sign(&END, &PREV, &[]));
    assert_eq!(result, Ok(expected_msg(&END, &PREV, &[])));
    assert_eq!(calls.len(), 4);
    assert_eq!(calls[2], Call::MerkleRoot(vec![]));
}

#[test]
fn message_fails_with_any_of_its_calls() {
    let list = transfers();
    for n in 0..6 {
        assert_eq!(fail_at(compute_msg_to_sign(&END, &PREV, &list), n), Some("down"));
    }
    assert_eq!(fail_at(compute_msg_to_sign(&END, &PREV, &list), 6), None);
}

#[test]
fn message_changes_with_either_block_hash() {
    let list = transfers();
    let (base, _) = trace(compute_msg_to_sign(&END, &PREV, &list));
    let (other_end, _) = trace(compute_msg_to_sign(&[18; 32], &PREV, &list));
    let (other_prev, _) = trace(compute_msg_to_sign(&END, &[30; 32], &list));
    let (swapped, _) = trace(compute_msg_to_sign(&PREV, &END, &list));
    assert_ne!(base, other_end);
    assert_ne!(base, other_prev);
    assert_ne!(base, swapped);
}

#[test]
fn message_changes_with_any_transfer() {
    let list = transfers();
    let (base, _) = trace(compute_msg_to_sign(&END, &PREV, &list));
    let mut other_key = list.clone();
    other_key[1].pk_dest[31] ^= 1;
    let (changed, _) = trace(compute_msg_to_sign(&END, &PREV, &other_key));
    assert_ne!(base, changed);
    let mut other_amount = list.clone();
    other_amount[0].amount += 1;
    let (changed, _) = trace(compute_msg_to_sign(&END, &PREV, &other_amount));
    assert_ne!(base, changed);
    let swapped = vec![list[1].clone(), list[0].clone()];
    let (changed, _) = trace(compute_msg_to_sign(&END, &PREV, &swapped));
    assert_ne!(base, changed);
    let (shorter, _) = trace(compute_msg_to_sign(&END, &PREV, &list[..1]));
    assert_ne!(base, shorter);
}

#[test]
fn transfer_of_nothing_to_key_one_is_the_element_one() {
    let mut pk_dest = [0u8; 32];
    pk_dest[0] = 1;
    let (element, _) = trace(BackwardTransfer::new(pk_dest, 0).to_field_element());
    assert_eq!(element, Ok(number(1)));
}

#[test]
fn transfer_element_is_destination_plus_shifted_amount() {
    let mut pk_dest = [0u8; 32];
    pk_dest[0] = 5;
    pk_dest[31] = 0x80;
    let (element, _) = trace(BackwardTransfer::new(pk_dest, 9).to_field_element());
    let limbs = [5, 0, 0, 1 << 63, 9, 0, 0, 0, 0, 0, 0, 0];
    assert_eq!(element, Ok(FieldElement { limbs }));
}

#[test]
fn different_transfers_give_different_elements() {
    let element = |pk: u8, amount: u64| {
        trace(BackwardTransfer::new([pk; 32], amount).to_field_element()).0.unwrap()
    };
    assert_ne!(element(1, 5), element(1, 6));
    assert_ne!(element(1, 5), element(2, 5));
}

#[test]
fn eight_bytes_and_the_number_give_one_element() {
    for n in [0u64, 1, 255, 256, 0x0102_0304_0506_0708, u64::MAX] {
        let computation = read_field_element_from_buffer(&n.to_le_bytes()).unwrap();
        assert_eq!(trace(computation).0, Ok(number(n)));
    }
}

#[test]
fn message_keeps_waiting_after_a_verdict() {
    let computation = compute_msg_to_sign(&END, &PREV, &[]);
    let same = compute_msg_to_sign(&END, &PREV, &[]);
    assert_eq!(computation.resume(Reply::<u8>::Verdict(false)), Step::Pending(same));
}

#[test]
fn certificate_hash_is_of_quality_and_message() {
    let msg = number(50);
    let (result, calls) = trace(compute_wcert_sysdata_hash(&msg, 3));
    assert_eq!(result, Ok(hash(&[number(3), msg])));
    assert_eq!(calls, vec![Call::PoseidonHash(vec![number(3), msg])]);
}

#[test]
fn key_hash_is_of_key_hash_and_threshold() {
    let pks = keys(3);
    let (result, calls) = trace(compute_pks_threshold_hash(&pks, 2));
    let pks_hash = hash(&[number(1000), number(1001), number(1002)]);
    assert_eq!(result, Ok(hash(&[pks_hash, number(2)])));
    assert_eq!(
        calls,
        vec![
            Call::PoseidonHash(vec![number(1000), number(1001), number(1002)]),
            Call::PoseidonHash(vec![pks_hash, number(2)]),
        ]
    );
}

#[test]
fn key_hash_fails_with_either_call() {
    let pks = keys(3);
    assert_eq!(fail_at(compute_pks_threshold_hash(&pks, 2), 0), Some("down"));
    assert_eq!(fail_at(compute_pks_threshold_hash(&pks, 2), 1), Some("down"));
    assert_eq!(fail_at(compute_pks_threshold_hash(&pks, 2), 2), None);
}

#[test]
fn key_hash_looks_at_first_coordinates_only() {
    let pks = keys(2);
    let mut others = keys(2);
    others[0].y = number(5);
    others[1].infinity = true;
    assert_eq!(
        trace(compute_pks_threshold_hash(&pks, 1)).0,
        trace(compute_pks_threshold_hash(&others, 1)).0
    );
}

#[test]
fn public_inputs_are_the_two_hashes() {
    let pks = keys(3);
    let list = transfers();
    let (inputs, calls) =
        trace(get_public_inputs_for_naive_threshold_sig_proof(&pks, 2, &END, &PREV, &list, 3));
    let (_, msg) = expected_msg(&END, &PREV, &list);
    let wcert = trace(compute_wcert_sysdata_hash(&msg, 3)).0.unwrap();
    let pks_hash = trace(compute_pks_threshold_hash(&pks, 2)).0.unwrap();
    assert_eq!(inputs, Ok((wcert, pks_hash)));
    assert_eq!(calls.len(), 9);
    assert_eq!(trace(public_inputs_for_msg(&pks, 2, &msg, 3)).0, Ok((wcert, pks_hash)));
}

#[test]
fn public_inputs_fail_with_any_call() {
    let pks = keys(3);
    let list = transfers();
    for n in 0..9 {
        assert_eq!(
            fail_at(
                get_public_inputs_for_naive_threshold_sig_proof(&pks, 2, &END, &PREV, &list, 3),
                n
            ),
            Some("down")
        );
    }
}

#[test]
fn public_inputs_change_with_threshold_and_count() {
    let pks = keys(3);
    let list = transfers();
    let of = |threshold: u64, valid: u64| {
        trace(get_public_inputs_for_naive_threshold_sig_proof(
            &pks, threshold, &END, &PREV, &list, valid,
        ))
        .0
        .unwrap()
    };
    let base = of(2, 2);
    assert_ne!(base.0, of(2, 1).0);
    assert_eq!(base.1, of(2, 1).1);
    assert_ne!(base.1, of(1, 2).1);
    assert_eq!(base.0, of(1, 2).0);
}

/// Three keys, threshold two, and the second signature missing.
#[test]
fn sample_proof_input_matches_the_public_inputs() {
    let list = vec![BackwardTransfer::default(); 10];
    let threshold: u64 = 2;
    let pks = keys(3);
    let (_, msg) = trace(compute_msg_to_sign(&END, &PREV, &list)).0.unwrap();
    let sigs = vec![Some(sign(msg, &pks[0])), None, Some(sign(msg, &pks[2]))];

    let (result, _) = trace(create_naive_threshold_sig_proof(
        &pks, sigs.clone(), &END, &PREV, &list, threshold, null_sig(),
    ));
    let input = ready(result.unwrap());

    assert_eq!(input.pks, &pks[..]);
    assert_eq!(input.sigs, vec![sigs[0], Some(null_sig()), sigs[2]]);
    assert_eq!(input.threshold, number(2));
    assert_eq!(input.b, number(0));
    assert_eq!(input.end_epoch_mc_b_hash, block_hash(&END));
    assert_eq!(input.prev_end_epoch_mc_b_hash, block_hash(&PREV));
    assert_eq!(input.mr_bt, root(&[number(0); 10]));
    assert_eq!(input.max_pks, 3);

    let (wcert_sysdata_hash, pks_threshold_hash) =
        trace(get_public_inputs_for_naive_threshold_sig_proof(
            &pks, threshold, &END, &PREV, &list, 2,
        ))
        .0
        .unwrap();
    assert_eq!(input.wcert_sysdata_hash, wcert_sysdata_hash);
    assert_eq!(input.pks_threshold_hash, pks_threshold_hash);

    let (wrong_wcert_sysdata_hash, wrong_pks_threshold_hash) =
        trace(get_public_inputs_for_naive_threshold_sig_proof(&pks, 1, &END, &PREV, &list, 1))
            .0
            .unwrap();
    assert_ne!(input.wcert_sysdata_hash, wrong_wcert_sysdata_hash);
    assert_ne!(input.pks_threshold_hash, wrong_pks_threshold_hash);
}

#[test]
fn proof_input_is_consistent() {
    let list = transfers();
    let pks = keys(4);
    let (_, msg) = expected_msg(&END, &PREV, &list);
    let sigs = pks.iter().map(|pk| Some(sign(msg, pk))).collect();
    let input = ready(
        trace(create_naive_threshold_sig_proof(&pks, sigs, &END, &PREV, &list, 1, null_sig()))
            .0
            .unwrap(),
    );
    assert_eq!(input.b, number(3));
    let msg = hash(&[input.mr_bt, input.prev_end_epoch_mc_b_hash, input.end_epoch_mc_b_hash]);
    assert_eq!(input.wcert_sysdata_hash, hash(&[number(4), msg]));
    let pks_hash = hash(&collect_x_coordinates(input.pks));
    assert_eq!(input.pks_threshold_hash, hash(&[pks_hash, input.threshold]));
}

#[test]
fn proof_makes_its_calls_in_order() {
    let pks = keys(3);
    let (mr_bt, msg) = expected_msg(&END, &PREV, &[]);
    let first = sign(msg, &pks[0]);
    let wrong = sign(number(1), &pks[2]);
    let sigs = vec![Some(first), None, Some(wrong)];
    let (result, calls) =
        trace(create_naive_threshold_sig_proof(&pks, sigs, &END, &PREV, &[], 1, null_sig()));
    let input = ready(result.unwrap());
    let pks_hash = hash(&collect_x_coordinates(&pks));
    assert_eq!(
        calls,
        vec![
            Call::ReadFieldElement(pad_to_field_size(&END)),
            Call::ReadFieldElement(pad_to_field_size(&PREV)),
            Call::MerkleRoot(vec![]),
            Call::PoseidonHash(vec![mr_bt, block_hash(&PREV), block_hash(&END)]),
            Call::VerifySignature(msg, pks[0], first),
            Call::VerifySignature(msg, pks[2], wrong),
            Call::PoseidonHash(vec![number(1), msg]),
            Call::PoseidonHash(collect_x_coordinates(&pks)),
            Call::PoseidonHash(vec![pks_hash, number(1)]),
            Call::ReadFieldElement(pad_to_field_size(&END)),
            Call::ReadFieldElement(pad_to_field_size(&PREV)),
        ]
    );
    // A signature that is given stays, valid or not.
    assert_eq!(input.sigs, vec![Some(first), Some(null_sig()), Some(wrong)]);
    assert_eq!(input.b, number(0));
}

#[test]
fn proof_fails_with_any_call() {
    let pks = keys(2);
    let (_, msg) = expected_msg(&END, &PREV, &[]);
    for n in 0..10 {
        let sigs = vec![Some(sign(msg, &pks[0])), None];
        let computation =
            create_naive_threshold_sig_proof(&pks, sigs, &END, &PREV, &[], 1, null_sig());
        assert_eq!(fail_at(computation, n), Some("down"));
    }
    let sigs = vec![Some(sign(msg, &pks[0])), None];
    let computation = create_naive_threshold_sig_proof(&pks, sigs, &END, &PREV, &[], 1, null_sig());
    assert_eq!(fail_at(computation, 10), None);
}

#[test]
fn proof_fails_with_the_first_broken_signature() {
    let pks = keys(3);
    let (_, msg) = expected_msg(&END, &PREV, &[]);
    let broken = SchnorrSig { e: number(1), s: number(BROKEN) };
    let sigs = vec![Some(sign(msg, &pks[0])), Some(broken), Some(sign(msg, &pks[2]))];
    let (result, calls) =
        trace(create_naive_threshold_sig_proof(&pks, sigs, &END, &PREV, &[], 1, null_sig()));
    assert_eq!(result, Err("broken signature"));
    assert_eq!(calls.last(), Some(&Call::VerifySignature(msg, pks[1], broken)));
}

#[test]
fn too_few_signatures_end_below_the_threshold() {
    let pks = keys(3);
    let (_, msg) = expected_msg(&END, &PREV, &[]);
    let sigs = vec![Some(sign(msg, &pks[0])), None, Some(sign(msg, &pks[0]))];
    let (result, calls) =
        trace(create_naive_threshold_sig_proof(&pks, sigs, &END, &PREV, &[], 2, null_sig()));
    assert_eq!(result, Ok(Preparation::BelowThreshold { valid_sigs: 1 }));
    assert_eq!(calls.len(), 6);
}

#[test]
fn no_signature_at_all_meets_the_threshold_zero() {
    let pks = keys(2);
    let computation =
        create_naive_threshold_sig_proof(&pks, vec![None, None], &END, &PREV, &[], 0, null_sig());
    let (result, calls) = trace(computation);
    let input = ready(result.unwrap());
    assert_eq!(input.sigs, vec![Some(null_sig()), Some(null_sig())]);
    assert_eq!(input.b, number(0));
    assert_eq!(calls.len(), 9);
    let computation =
        create_naive_threshold_sig_proof(&pks, vec![None, None], &END, &PREV, &[], 1, null_sig());
    assert_eq!(trace(computation).0, Ok(Preparation::BelowThreshold { valid_sigs: 0 }));
}

#[test]
fn no_keys_at_all() {
    let computation =
        create_naive_threshold_sig_proof(&[], vec![], &END, &PREV, &[], 0, null_sig());
    let input = ready(trace(computation).0.unwrap());
    assert_eq!(input.max_pks, 0);
    assert_eq!(input.sigs, vec![]);
}

#[test]
fn a_reply_of_the_wrong_sort_changes_nothing() {
    let pks = keys(1);
    let (_, msg) = expected_msg(&END, &PREV, &[]);
    let start = || {
        create_naive_threshold_sig_proof(
            &pks, vec![Some(sign(msg, &pks[0]))], &END, &PREV, &[], 1, null_sig(),
        )
    };
    let mut current = start();
    let mut other = start();
    let mut replies = 0;
    loop {
        let wrong: Reply<&'static str> = match current.call() {
            Call::VerifySignature(..) => Reply::Element(number(8)),
            _ => Reply::Verdict(true),
        };
        current = match current.resume(wrong) {
            Step::Pending(same) => same,
            step => panic!("unexpected {:?}", step),
        };
        assert_eq!(current, other);
        let call = current.call();
        let reply = perform(other.call());
        match (current.resume(perform(call)), other.resume(reply)) {
            (Step::Pending(a), Step::Pending(b)) => {
                current = a;
                other = b;
                replies += 1;
            }
            (Step::Done(a), Step::Done(b)) => {
                assert_eq!(a, b);
                break;
            }
            steps => panic!("unexpected {:?}", steps),
        }
    }
    assert_eq!(replies, 9);
}
