//! What holds of messages, public inputs and proofs taken together.

use crate::buffer::padded;
use crate::calls::Backend;
use crate::field::{field_from_u64, law_field_from_u64_injective, law_field_from_u64_value};
use crate::field::FieldElement;
use crate::hashes::{pks_threshold_hash, wcert_sysdata_hash};
use crate::message::{msg_to_sign, read_from};
use crate::public_inputs::public_inputs;
use crate::schnorr::{x_coordinates, SchnorrPk, SchnorrSig};
use crate::threshold_proof::{filled, prepared, tally_from};
use crate::threshold_proof::{CircuitInputValue, PreparationValue, ProofArguments};
use crate::transfer::{encodings, BackwardTransfer};
use vstd::prelude::*;

verus! {

/// Every element of the sequence is canonical.
pub open spec fn all_canonical(elements: Seq<FieldElement>) -> bool {
    forall|i: int| 0 <= i < elements.len() ==> (#[trigger] elements[i]).canonical()
}

/// Every element that the back end gives is canonical.
pub open spec fn gives_canonical<E>(backend: Backend<E>) -> bool {
    &&& forall|bytes: Seq<u8>|
        #[trigger] (backend.read)(bytes) matches Ok(element) ==> element.canonical()
    &&& forall|input: Seq<FieldElement>|
        #[trigger] (backend.hash)(input) matches Ok(element) ==> element.canonical()
    &&& forall|leaves: Seq<FieldElement>|
        #[trigger] (backend.root)(leaves) matches Ok(element) ==> element.canonical()
}

/// Two different inputs have the same hash. Both consist of canonical
/// elements, so they do not merely differ in how they represent one input.
pub open spec fn hash_collision<E>(
    backend: Backend<E>,
    x: Seq<FieldElement>,
    y: Seq<FieldElement>,
) -> bool {
    &&& x != y
    &&& all_canonical(x)
    &&& all_canonical(y)
    &&& (backend.hash)(x) is Ok
    &&& (backend.hash)(x) == (backend.hash)(y)
}

/// Every buffer can be read, and gives the element in its place.
pub open spec fn read_as<E>(
    backend: Backend<E>,
    buffers: Seq<Seq<u8>>,
    elements: Seq<FieldElement>,
) -> bool {
    &&& elements.len() == buffers.len()
    &&& forall|i: int|
        0 <= i < buffers.len() ==> (backend.read)(#[trigger] buffers[i]) == Ok::<FieldElement, E>(
            elements[i],
        )
}

proof fn lemma_read_from<E>(
    backend: Backend<E>,
    buffers: Seq<Seq<u8>>,
    i: int,
    elements: Seq<FieldElement>,
)
    requires
        0 <= i <= buffers.len(),
        elements.len() == i,
        forall|k: int|
            0 <= k < i ==> (backend.read)(#[trigger] buffers[k]) == Ok::<FieldElement, E>(
                elements[k],
            ),
    ensures
        read_from(backend, buffers, i, elements) matches Ok(all) ==> read_as(backend, buffers, all),
        read_from(backend, buffers, i, elements) matches Err(error) ==> exists|k: int|
            {
                &&& 0 <= k < buffers.len()
                &&& (backend.read)(#[trigger] buffers[k]) == Err::<FieldElement, E>(error)
                &&& forall|m: int|
                    0 <= m < k ==> (backend.read)(#[trigger] buffers[m]) is Ok
            },
    decreases buffers.len() - i,
{
    if i < buffers.len() {
        match (backend.read)(buffers[i]) {
            Ok(element) => {
                lemma_read_from(backend, buffers, i + 1, elements.push(element));
            },
            Err(error) => {
                assert((backend.read)(buffers[i]) == Err::<FieldElement, E>(error));
            },
        }
    }
}

/// Reading a list of buffers gives one element for each, in order, when all of
/// them can be read, and otherwise the failure of the first that cannot.
pub proof fn law_read_all<E>(backend: Backend<E>, buffers: Seq<Seq<u8>>)
    ensures
        read_from(backend, buffers, 0, Seq::empty()) matches Ok(all) ==> read_as(
            backend,
            buffers,
            all,
        ),
        read_from(backend, buffers, 0, Seq::empty()) matches Err(error) ==> exists|k: int|
            {
                &&& 0 <= k < buffers.len()
                &&& (backend.read)(#[trigger] buffers[k]) == Err::<FieldElement, E>(error)
                &&& forall|m: int|
                    0 <= m < k ==> (backend.read)(#[trigger] buffers[m]) is Ok
            },
{
    lemma_read_from(backend, buffers, 0, Seq::empty());
}

/// The message is `H(mr_bt, prev, end)`, where `mr_bt` is the Merkle root of the
/// elements of the transfers, in order, and `prev` and `end` are the block hashes.
pub proof fn law_msg_structure<E>(
    backend: Backend<E>,
    end_epoch_mc_b_hash: Seq<u8>,
    prev_end_epoch_mc_b_hash: Seq<u8>,
    bt_list: Seq<BackwardTransfer>,
    mr_bt: FieldElement,
    msg: FieldElement,
)
    requires
        msg_to_sign(backend, end_epoch_mc_b_hash, prev_end_epoch_mc_b_hash, bt_list) == Ok::<
            (FieldElement, FieldElement),
            E,
        >((mr_bt, msg)),
    ensures
        (backend.read)(padded(end_epoch_mc_b_hash)) matches Ok(end) && ((backend.read)(
            padded(prev_end_epoch_mc_b_hash),
        ) matches Ok(prev) && (backend.hash)(seq![mr_bt, prev, end]) == Ok::<FieldElement, E>(msg)),
        exists|leaves: Seq<FieldElement>|
            {
                &&& #[trigger] read_as(backend, encodings(bt_list), leaves)
                &&& (backend.root)(leaves) == Ok::<FieldElement, E>(mr_bt)
            },
{
    law_read_all(backend, encodings(bt_list));
    let leaves = read_from(backend, encodings(bt_list), 0, Seq::empty())->Ok_0;
    assert(read_as(backend, encodings(bt_list), leaves));
}

/// What a message is the hash of: the Merkle root, the hash of the earlier block
/// and that of the later one.
pub open spec fn msg_preimage<E>(
    backend: Backend<E>,
    end_epoch_mc_b_hash: Seq<u8>,
    prev_end_epoch_mc_b_hash: Seq<u8>,
    mr_bt: FieldElement,
) -> Seq<FieldElement> {
    seq![
        mr_bt,
        (backend.read)(padded(prev_end_epoch_mc_b_hash))->Ok_0,
        (backend.read)(padded(end_epoch_mc_b_hash))->Ok_0,
    ]
}

/// Where two runs give one message, they have the same Merkle root and the same
/// block hashes, or what the two messages are the hashes of is a collision.
pub proof fn law_msg_binding<E>(
    backend: Backend<E>,
    end1: Seq<u8>,
    prev1: Seq<u8>,
    bt_list1: Seq<BackwardTransfer>,
    mr_bt1: FieldElement,
    end2: Seq<u8>,
    prev2: Seq<u8>,
    bt_list2: Seq<BackwardTransfer>,
    mr_bt2: FieldElement,
    msg: FieldElement,
)
    requires
        gives_canonical(backend),
        msg_to_sign(backend, end1, prev1, bt_list1) == Ok::<(FieldElement, FieldElement), E>(
            (mr_bt1, msg),
        ),
        msg_to_sign(backend, end2, prev2, bt_list2) == Ok::<(FieldElement, FieldElement), E>(
            (mr_bt2, msg),
        ),
    ensures
        ({
            &&& mr_bt1 == mr_bt2
            &&& (backend.read)(padded(prev1)) == (backend.read)(padded(prev2))
            &&& (backend.read)(padded(end1)) == (backend.read)(padded(end2))
        }) || hash_collision(
            backend,
            msg_preimage(backend, end1, prev1, mr_bt1),
            msg_preimage(backend, end2, prev2, mr_bt2),
        ),
{
    let x = msg_preimage(backend, end1, prev1, mr_bt1);
    let y = msg_preimage(backend, end2, prev2, mr_bt2);
    if x == y {
        assert(x[0] == y[0] && x[1] == y[1] && x[2] == y[2]);
    } else {
        assert(hash_collision(backend, x, y));
    }
}

/// Keys are hashed by their first coordinates: lists that agree in those have
/// the same hash.
pub proof fn law_pks_hash_by_x<E>(
    backend: Backend<E>,
    pks1: Seq<SchnorrPk>,
    pks2: Seq<SchnorrPk>,
    threshold: u64,
)
    requires
        pks1.len() == pks2.len(),
        forall|i: int| 0 <= i < pks1.len() ==> (#[trigger] pks1[i]).x == pks2[i].x,
    ensures
        pks_threshold_hash(backend, pks1, threshold) == pks_threshold_hash(
            backend,
            pks2,
            threshold,
        ),
{
    assert(x_coordinates(pks1) =~= x_coordinates(pks2));
}

/// The public inputs are there exactly when the message and both hashes are, and
/// are those two hashes.
pub proof fn law_public_inputs_parts<E>(
    backend: Backend<E>,
    pks: Seq<SchnorrPk>,
    threshold: u64,
    end_epoch_mc_b_hash: Seq<u8>,
    prev_end_epoch_mc_b_hash: Seq<u8>,
    bt_list: Seq<BackwardTransfer>,
    valid_sigs: u64,
    wcert: FieldElement,
    pks_hash: FieldElement,
)
    ensures
        public_inputs(
            backend,
            pks,
            threshold,
            end_epoch_mc_b_hash,
            prev_end_epoch_mc_b_hash,
            bt_list,
            valid_sigs,
        ) == Ok::<(FieldElement, FieldElement), E>((wcert, pks_hash)) <==> (msg_to_sign(
            backend,
            end_epoch_mc_b_hash,
            prev_end_epoch_mc_b_hash,
            bt_list,
        ) matches Ok((_, msg)) && wcert_sysdata_hash(backend, msg, valid_sigs) == Ok::<
            FieldElement,
            E,
        >(wcert) && pks_threshold_hash(backend, pks, threshold) == Ok::<FieldElement, E>(
            pks_hash,
        )),
{
}

/// Public inputs that do not change with the threshold show a collision of the
/// hash, between the key hash with one threshold and with the other. Those that
/// do not change with the number of valid signatures show one between the message
/// with one quality and with the other.
pub proof fn law_public_inputs_binding<E>(
    backend: Backend<E>,
    pks: Seq<SchnorrPk>,
    end_epoch_mc_b_hash: Seq<u8>,
    prev_end_epoch_mc_b_hash: Seq<u8>,
    bt_list: Seq<BackwardTransfer>,
    threshold1: u64,
    valid_sigs1: u64,
    threshold2: u64,
    valid_sigs2: u64,
)
    requires
        gives_canonical(backend),
        public_inputs(
            backend,
            pks,
            threshold1,
            end_epoch_mc_b_hash,
            prev_end_epoch_mc_b_hash,
            bt_list,
            valid_sigs1,
        ) is Ok,
        public_inputs(
            backend,
            pks,
            threshold1,
            end_epoch_mc_b_hash,
            prev_end_epoch_mc_b_hash,
            bt_list,
            valid_sigs1,
        ) == public_inputs(
            backend,
            pks,
            threshold2,
            end_epoch_mc_b_hash,
            prev_end_epoch_mc_b_hash,
            bt_list,
            valid_sigs2,
        ),
    ensures
        threshold1 != threshold2 ==> ({
            let keys = (backend.hash)(x_coordinates(pks))->Ok_0;
            hash_collision(
                backend,
                seq![keys, field_from_u64(threshold1)],
                seq![keys, field_from_u64(threshold2)],
            )
        }),
        valid_sigs1 != valid_sigs2 ==> ({
            let msg = (msg_to_sign(
                backend,
                end_epoch_mc_b_hash,
                prev_end_epoch_mc_b_hash,
                bt_list,
            )->Ok_0).1;
            hash_collision(
                backend,
                seq![field_from_u64(valid_sigs1), msg],
                seq![field_from_u64(valid_sigs2), msg],
            )
        }),
{
    let msg = (msg_to_sign(
        backend,
        end_epoch_mc_b_hash,
        prev_end_epoch_mc_b_hash,
        bt_list,
    )->Ok_0).1;
    let keys = (backend.hash)(x_coordinates(pks))->Ok_0;
    law_field_from_u64_value(threshold1);
    law_field_from_u64_value(threshold2);
    law_field_from_u64_value(valid_sigs1);
    law_field_from_u64_value(valid_sigs2);
    if threshold1 != threshold2 {
        let x = seq![keys, field_from_u64(threshold1)];
        let y = seq![keys, field_from_u64(threshold2)];
        if x == y {
            assert(x[1] == y[1]);
            law_field_from_u64_injective(threshold1, threshold2);
        }
        assert(hash_collision(backend, x, y));
    }
    if valid_sigs1 != valid_sigs2 {
        let x = seq![field_from_u64(valid_sigs1), msg];
        let y = seq![field_from_u64(valid_sigs2), msg];
        if x == y {
            assert(x[0] == y[0]);
            law_field_from_u64_injective(valid_sigs1, valid_sigs2);
        }
        assert(hash_collision(backend, x, y));
    }
}

/// The positions of the valid signatures among the first `n`.
pub open spec fn valid_positions<E>(
    backend: Backend<E>,
    msg: FieldElement,
    pks: Seq<SchnorrPk>,
    sigs: Seq<Option<SchnorrSig>>,
    n: int,
) -> Set<int> {
    Set::new(
        |i: int|
            0 <= i < n && (sigs[i] matches Some(sig) && (backend.verify)(msg, pks[i], sig) == Ok::<
                bool,
                E,
            >(true)),
    )
}

proof fn lemma_tally_from<E>(
    backend: Backend<E>,
    msg: FieldElement,
    pks: Seq<SchnorrPk>,
    sigs: Seq<Option<SchnorrSig>>,
    i: int,
    valid: nat,
)
    requires
        0 <= i <= sigs.len(),
        valid_positions(backend, msg, pks, sigs, i).finite(),
        valid == valid_positions(backend, msg, pks, sigs, i).len(),
        valid <= i,
    ensures
        tally_from(backend, msg, pks, sigs, i, valid) matches Ok(total) ==> {
            &&& valid_positions(backend, msg, pks, sigs, sigs.len() as int).finite()
            &&& total == valid_positions(backend, msg, pks, sigs, sigs.len() as int).len()
            &&& total <= sigs.len()
        },
    decreases sigs.len() - i,
{
    if i < sigs.len() {
        let here = valid_positions(backend, msg, pks, sigs, i);
        let next = valid_positions(backend, msg, pks, sigs, i + 1);
        match sigs[i] {
            None => {
                assert(next =~= here);
                lemma_tally_from(backend, msg, pks, sigs, i + 1, valid);
            },
            Some(sig) => {
                match (backend.verify)(msg, pks[i], sig) {
                    Ok(verdict) => {
                        if verdict {
                            assert(next =~= here.insert(i));
                            lemma_tally_from(backend, msg, pks, sigs, i + 1, valid + 1);
                        } else {
                            assert(next =~= here);
                            lemma_tally_from(backend, msg, pks, sigs, i + 1, valid);
                        }
                    },
                    Err(_) => {},
                }
            },
        }
    }
}

/// The count is the number of positions where a signature is given and valid,
/// and at most the number of positions.
pub proof fn law_tally_counts_valid<E>(
    backend: Backend<E>,
    msg: FieldElement,
    pks: Seq<SchnorrPk>,
    sigs: Seq<Option<SchnorrSig>>,
)
    ensures
        tally_from(backend, msg, pks, sigs, 0, 0) matches Ok(total) ==> {
            &&& valid_positions(backend, msg, pks, sigs, sigs.len() as int).finite()
            &&& total == valid_positions(backend, msg, pks, sigs, sigs.len() as int).len()
            &&& total <= sigs.len()
        },
{
    assert(valid_positions(backend, msg, pks, sigs, 0) =~= Set::<int>::empty());
    lemma_tally_from(backend, msg, pks, sigs, 0, 0);
}

/// The checks of all given signatures before the `k`-th come to a verdict.
pub open spec fn checked_before<E>(
    backend: Backend<E>,
    msg: FieldElement,
    pks: Seq<SchnorrPk>,
    sigs: Seq<Option<SchnorrSig>>,
    k: int,
) -> bool {
    forall|m: int|
        0 <= m < k ==> ((#[trigger] sigs[m]) matches Some(sig) ==> (backend.verify)(
            msg,
            pks[m],
            sig,
        ) is Ok)
}

proof fn lemma_tally_fails<E>(
    backend: Backend<E>,
    msg: FieldElement,
    pks: Seq<SchnorrPk>,
    sigs: Seq<Option<SchnorrSig>>,
    i: int,
    valid: nat,
)
    requires
        0 <= i <= sigs.len(),
        checked_before(backend, msg, pks, sigs, i),
    ensures
        tally_from(backend, msg, pks, sigs, i, valid) is Ok ==> checked_before(
            backend,
            msg,
            pks,
            sigs,
            sigs.len() as int,
        ),
        tally_from(backend, msg, pks, sigs, i, valid) matches Err(error) ==> exists|k: int|
            {
                &&& 0 <= k < sigs.len()
                &&& #[trigger] checked_before(backend, msg, pks, sigs, k)
                &&& sigs[k] matches Some(sig) && (backend.verify)(msg, pks[k], sig) == Err::<
                    bool,
                    E,
                >(error)
            },
    decreases sigs.len() - i,
{
    if i < sigs.len() {
        match sigs[i] {
            None => {
                lemma_tally_fails(backend, msg, pks, sigs, i + 1, valid);
            },
            Some(sig) => {
                match (backend.verify)(msg, pks[i], sig) {
                    Ok(verdict) => {
                        let counted = if verdict {
                            valid + 1
                        } else {
                            valid
                        };
                        lemma_tally_fails(backend, msg, pks, sigs, i + 1, counted);
                    },
                    Err(_) => {
                        assert(checked_before(backend, msg, pks, sigs, i));
                    },
                }
            },
        }
    }
}

/// There is a count when every given signature can be checked, and otherwise the
/// failure of the first check that fails.
pub proof fn law_tally_failure<E>(
    backend: Backend<E>,
    msg: FieldElement,
    pks: Seq<SchnorrPk>,
    sigs: Seq<Option<SchnorrSig>>,
)
    ensures
        tally_from(backend, msg, pks, sigs, 0, 0) is Ok ==> checked_before(
            backend,
            msg,
            pks,
            sigs,
            sigs.len() as int,
        ),
        tally_from(backend, msg, pks, sigs, 0, 0) matches Err(error) ==> exists|k: int|
            {
                &&& 0 <= k < sigs.len()
                &&& #[trigger] checked_before(backend, msg, pks, sigs, k)
                &&& sigs[k] matches Some(sig) && (backend.verify)(msg, pks[k], sig) == Err::<
                    bool,
                    E,
                >(error)
            },
{
    lemma_tally_fails(backend, msg, pks, sigs, 0, 0);
}

/// Filling in the null signature leaves none missing and keeps those that are given.
pub proof fn law_filled(sigs: Seq<Option<SchnorrSig>>, null_sig: SchnorrSig)
    ensures
        filled(sigs, null_sig).len() == sigs.len(),
        forall|i: int|
            0 <= i < sigs.len() ==> #[trigger] filled(sigs, null_sig)[i] == Some(
                match sigs[i] {
                    Some(given) => given,
                    None => null_sig,
                },
            ),
{
}

/// A preparation ends below the threshold exactly when the message is there and
/// the valid signatures on it are counted and too few.
pub proof fn law_below_threshold<E>(
    backend: Backend<E>,
    arguments: ProofArguments,
    bt_list: Seq<BackwardTransfer>,
    valid: nat,
)
    ensures
        prepared(backend, arguments, bt_list) == Ok::<PreparationValue, E>(
            PreparationValue::BelowThreshold { valid_sigs: valid },
        ) <==> valid < arguments.threshold && (msg_to_sign(
            backend,
            arguments.end_epoch_mc_b_hash,
            arguments.prev_end_epoch_mc_b_hash,
            bt_list,
        ) matches Ok((_, msg)) && tally_from(
            backend,
            msg,
            arguments.pks,
            arguments.sigs,
            0,
            0,
        ) == Ok::<nat, E>(valid)),
{
}

/// The hashes in a circuit input are the public inputs for the same arguments
/// and the number of valid signatures.
pub proof fn law_circuit_public_inputs<E>(
    backend: Backend<E>,
    arguments: ProofArguments,
    bt_list: Seq<BackwardTransfer>,
    input: CircuitInputValue,
)
    requires
        prepared(backend, arguments, bt_list) == Ok::<PreparationValue, E>(
            PreparationValue::Ready(input),
        ),
    ensures
        msg_to_sign(
            backend,
            arguments.end_epoch_mc_b_hash,
            arguments.prev_end_epoch_mc_b_hash,
            bt_list,
        ) matches Ok((_, msg)) && (tally_from(backend, msg, arguments.pks, arguments.sigs, 0, 0)
            matches Ok(valid) && public_inputs(
            backend,
            arguments.pks,
            arguments.threshold,
            arguments.end_epoch_mc_b_hash,
            arguments.prev_end_epoch_mc_b_hash,
            bt_list,
            valid as u64,
        ) == Ok::<(FieldElement, FieldElement), E>(
            (input.wcert_sysdata_hash, input.pks_threshold_hash),
        )),
{
}

/// A circuit input satisfies what the circuit checks.
///
/// With `quality` the number of valid signatures, which is the sum of threshold
/// and surplus: the key hash is `H(H(pks), threshold)`, the certificate hash is
/// `H(quality, msg)`, and `msg` is `H(mr_bt, prev, end)`.
pub proof fn law_circuit_input_consistent<E>(
    backend: Backend<E>,
    arguments: ProofArguments,
    bt_list: Seq<BackwardTransfer>,
    input: CircuitInputValue,
)
    requires
        arguments.pks.len() == arguments.sigs.len() <= u64::MAX,
        prepared(backend, arguments, bt_list) == Ok::<PreparationValue, E>(
            PreparationValue::Ready(input),
        ),
    ensures
        input.pks == arguments.pks,
        input.sigs == filled(arguments.sigs, arguments.null_sig),
        input.max_pks == arguments.pks.len(),
        input.threshold.value() == arguments.threshold,
        input.threshold.value() + input.b.value() <= input.max_pks,
        pks_threshold_hash(backend, input.pks, arguments.threshold) == Ok::<FieldElement, E>(
            input.pks_threshold_hash,
        ),
        (backend.hash)(seq![input.mr_bt, input.prev_end_epoch_mc_b_hash, input.end_epoch_mc_b_hash])
            matches Ok(msg) && {
            &&& tally_from(backend, msg, arguments.pks, arguments.sigs, 0, 0) == Ok::<nat, E>(
                input.threshold.value() + input.b.value(),
            )
            &&& wcert_sysdata_hash(
                backend,
                msg,
                (input.threshold.value() + input.b.value()) as u64,
            ) == Ok::<FieldElement, E>(input.wcert_sysdata_hash)
        },
{
    let msg = (msg_to_sign(
        backend,
        arguments.end_epoch_mc_b_hash,
        arguments.prev_end_epoch_mc_b_hash,
        bt_list,
    )->Ok_0).1;
    law_tally_counts_valid(backend, msg, arguments.pks, arguments.sigs);
    let valid = tally_from(backend, msg, arguments.pks, arguments.sigs, 0, 0)->Ok_0;
    law_field_from_u64_value(arguments.threshold);
    law_field_from_u64_value((valid - arguments.threshold) as u64);
}

/// Where the back end gives canonical elements, so do the message, the public
/// inputs and the circuit input.
pub proof fn law_results_canonical<E>(
    backend: Backend<E>,
    arguments: ProofArguments,
    bt_list: Seq<BackwardTransfer>,
    valid_sigs: u64,
)
    requires
        gives_canonical(backend),
    ensures
        msg_to_sign(
            backend,
            arguments.end_epoch_mc_b_hash,
            arguments.prev_end_epoch_mc_b_hash,
            bt_list,
        ) matches Ok((mr_bt, msg)) ==> mr_bt.canonical() && msg.canonical(),
        public_inputs(
            backend,
            arguments.pks,
            arguments.threshold,
            arguments.end_epoch_mc_b_hash,
            arguments.prev_end_epoch_mc_b_hash,
            bt_list,
            valid_sigs,
        ) matches Ok((wcert, pks_hash)) ==> wcert.canonical() && pks_hash.canonical(),
        prepared(backend, arguments, bt_list) matches Ok(PreparationValue::Ready(input)) ==> {
            &&& input.threshold.canonical()
            &&& input.b.canonical()
            &&& input.end_epoch_mc_b_hash.canonical()
            &&& input.prev_end_epoch_mc_b_hash.canonical()
            &&& input.mr_bt.canonical()
            &&& input.pks_threshold_hash.canonical()
            &&& input.wcert_sysdata_hash.canonical()
        },
{
    law_field_from_u64_value(arguments.threshold);
    if let Ok(PreparationValue::Ready(input)) = prepared(backend, arguments, bt_list) {
        let msg = (msg_to_sign(
            backend,
            arguments.end_epoch_mc_b_hash,
            arguments.prev_end_epoch_mc_b_hash,
            bt_list,
        )->Ok_0).1;
        let valid = tally_from(backend, msg, arguments.pks, arguments.sigs, 0, 0)->Ok_0;
        law_field_from_u64_value((valid - arguments.threshold) as u64);
    }
}

/// All work of the back end succeeds.
pub open spec fn never_fails<E>(backend: Backend<E>) -> bool {
    &&& forall|bytes: Seq<u8>| #[trigger] (backend.read)(bytes) is Ok
    &&& forall|input: Seq<FieldElement>| #[trigger] (backend.hash)(input) is Ok
    &&& forall|leaves: Seq<FieldElement>| #[trigger] (backend.root)(leaves) is Ok
    &&& forall|msg: FieldElement, pk: SchnorrPk, sig: SchnorrSig| #[trigger]
        (backend.verify)(msg, pk, sig) is Ok
}

/// Where the back end does not fail, there are a message, public inputs and a
/// preparation, and the preparation is ready exactly when the valid signatures
/// on the message reach the threshold.
pub proof fn law_no_failure<E>(
    backend: Backend<E>,
    arguments: ProofArguments,
    bt_list: Seq<BackwardTransfer>,
    valid_sigs: u64,
)
    requires
        never_fails(backend),
    ensures
        public_inputs(
            backend,
            arguments.pks,
            arguments.threshold,
            arguments.end_epoch_mc_b_hash,
            arguments.prev_end_epoch_mc_b_hash,
            bt_list,
            valid_sigs,
        ) is Ok,
        msg_to_sign(
            backend,
            arguments.end_epoch_mc_b_hash,
            arguments.prev_end_epoch_mc_b_hash,
            bt_list,
        ) matches Ok((_, msg)) && (prepared(backend, arguments, bt_list) matches Ok(preparation) && (
        preparation is Ready <==> valid_positions(
            backend,
            msg,
            arguments.pks,
            arguments.sigs,
            arguments.sigs.len() as int,
        ).len() >= arguments.threshold)),
{
    law_read_all(backend, encodings(bt_list));
    let msg = (msg_to_sign(
        backend,
        arguments.end_epoch_mc_b_hash,
        arguments.prev_end_epoch_mc_b_hash,
        bt_list,
    )->Ok_0).1;
    law_tally_failure(backend, msg, arguments.pks, arguments.sigs);
    law_tally_counts_valid(backend, msg, arguments.pks, arguments.sigs);
}

} // verus!
