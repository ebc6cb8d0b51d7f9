//! What the preparation of a proof leads to, signature by signature and field by field.

use crate::calls::{Backend, Call, Computation, Reply, Request, Step, Waiting};
use crate::element::ElementCall;
use crate::field::{field_from_u64, FieldElement};
use crate::key_laws::{law_pks_hash_binding, lemma_are_coordinates, lemma_is_number};
use crate::laws::{all_canonical, checked_before, gives_canonical, hash_collision};
use crate::laws::{law_circuit_input_consistent, law_filled, law_tally_counts_valid};
use crate::laws::{law_tally_failure, valid_positions};
use crate::message::{msg_to_sign, MsgStage, MsgToSign};
use crate::message_laws::lemma_is_padding;
use crate::public_inputs::{InputsStage, PublicInputs};
use crate::schnorr::{SchnorrPk, SchnorrSig};
use crate::threshold_proof::{first_given, prepared, tally_from};
use crate::threshold_proof::{CircuitInputValue, PreparationValue, ProofArguments, ProofData};
use crate::threshold_proof::{NaiveThresholdSigProof, Preparation, ProofStage};
use crate::transfer::BackwardTransfer;
use vstd::prelude::*;

verus! {

/// Where every given signature can be checked, the count is the number of places
/// in which a signature is given and found valid for the message and the key in
/// the same place.
pub proof fn law_count_of_valid<E>(
    backend: Backend<E>,
    msg: FieldElement,
    pks: Seq<SchnorrPk>,
    sigs: Seq<Option<SchnorrSig>>,
    valid: Set<int>,
)
    requires
        forall|k: int|
            0 <= k < sigs.len() ==> (#[trigger] sigs[k] matches Some(sig) ==> (backend.verify)(
                msg,
                pks[k],
                sig,
            ) is Ok),
        forall|k: int| #[trigger]
            valid.contains(k) <==> 0 <= k < sigs.len() && (sigs[k] matches Some(sig)
                && (backend.verify)(msg, pks[k], sig) == Ok::<bool, E>(true)),
    ensures
        valid.finite(),
        valid.len() <= sigs.len(),
        tally_from(backend, msg, pks, sigs, 0, 0) == Ok::<nat, E>(valid.len()),
{
    assert(valid =~= valid_positions(backend, msg, pks, sigs, sigs.len() as int));
    law_tally_counts_valid(backend, msg, pks, sigs);
    law_tally_failure(backend, msg, pks, sigs);
    if let Err(error) = tally_from(backend, msg, pks, sigs, 0, 0) {
        let k = choose|k: int|
            {
                &&& 0 <= k < sigs.len()
                &&& #[trigger] checked_before(backend, msg, pks, sigs, k)
                &&& sigs[k] matches Some(sig) && (backend.verify)(msg, pks[k], sig) == Err::<
                    bool,
                    E,
                >(error)
            };
        assert(sigs[k] is Some);
    }
}

/// The first check that fails gives the failure of the count.
pub proof fn law_count_stops<E>(
    backend: Backend<E>,
    msg: FieldElement,
    pks: Seq<SchnorrPk>,
    sigs: Seq<Option<SchnorrSig>>,
    k: int,
    error: E,
)
    requires
        0 <= k < sigs.len(),
        forall|m: int|
            0 <= m < k ==> (#[trigger] sigs[m] matches Some(sig) ==> (backend.verify)(
                msg,
                pks[m],
                sig,
            ) is Ok),
        sigs[k] matches Some(sig) && (backend.verify)(msg, pks[k], sig) == Err::<bool, E>(error),
    ensures
        tally_from(backend, msg, pks, sigs, 0, 0) == Err::<nat, E>(error),
{
    law_tally_failure(backend, msg, pks, sigs);
    match tally_from(backend, msg, pks, sigs, 0, 0) {
        Ok(_) => {
            assert(sigs[k] is Some);
        },
        Err(found) => {
            let first = choose|first: int|
                {
                    &&& 0 <= first < sigs.len()
                    &&& #[trigger] checked_before(backend, msg, pks, sigs, first)
                    &&& sigs[first] matches Some(sig) && (backend.verify)(msg, pks[first], sig)
                        == Err::<bool, E>(found)
                };
            assert(sigs[first] is Some && sigs[k] is Some);
        },
    }
}

/// What a preparation leads to, once there is a message and every given signature
/// can be checked.
///
/// With fewer valid signatures than the threshold, it says how many there are.
/// Otherwise the three hashes are taken in order, the first that fails is the
/// failure of the whole, and the circuit input holds: the keys; in each place the
/// signature that was given or the null signature; the threshold; the number of
/// valid signatures less the threshold; the block hashes; the Merkle root; the two
/// public inputs; and the number of keys.
pub proof fn law_prepared_of_elements<E>(
    backend: Backend<E>,
    arguments: ProofArguments,
    bt_list: Seq<BackwardTransfer>,
    end_bytes: Seq<u8>,
    prev_bytes: Seq<u8>,
    end: FieldElement,
    prev: FieldElement,
    mr_bt: FieldElement,
    msg: FieldElement,
    valid: Set<int>,
    quality: FieldElement,
    xs: Seq<FieldElement>,
    threshold: FieldElement,
    surplus: FieldElement,
)
    requires
        arguments.pks.len() == arguments.sigs.len() <= u64::MAX,
        arguments.end_epoch_mc_b_hash.len() <= 96,
        arguments.prev_end_epoch_mc_b_hash.len() <= 96,
        end_bytes.len() == 96,
        forall|i: int|
            0 <= i < 96 ==> #[trigger] end_bytes[i] == (if i
                < arguments.end_epoch_mc_b_hash.len() {
                arguments.end_epoch_mc_b_hash[i]
            } else {
                0
            }),
        prev_bytes.len() == 96,
        forall|i: int|
            0 <= i < 96 ==> #[trigger] prev_bytes[i] == (if i
                < arguments.prev_end_epoch_mc_b_hash.len() {
                arguments.prev_end_epoch_mc_b_hash[i]
            } else {
                0
            }),
        (backend.read)(end_bytes) == Ok::<FieldElement, E>(end),
        (backend.read)(prev_bytes) == Ok::<FieldElement, E>(prev),
        msg_to_sign(
            backend,
            arguments.end_epoch_mc_b_hash,
            arguments.prev_end_epoch_mc_b_hash,
            bt_list,
        ) == Ok::<(FieldElement, FieldElement), E>((mr_bt, msg)),
        forall|k: int|
            0 <= k < arguments.sigs.len() ==> (#[trigger] arguments.sigs[k] matches Some(sig)
                ==> (backend.verify)(msg, arguments.pks[k], sig) is Ok),
        forall|k: int| #[trigger]
            valid.contains(k) <==> 0 <= k < arguments.sigs.len() && (
            arguments.sigs[k] matches Some(sig) && (backend.verify)(msg, arguments.pks[k], sig)
                == Ok::<bool, E>(true)),
        quality.limbs@[0] == valid.len(),
        forall|i: int| 1 <= i < 12 ==> #[trigger] quality.limbs@[i] == 0,
        xs.len() == arguments.pks.len(),
        forall|i: int| 0 <= i < xs.len() ==> #[trigger] xs[i] == arguments.pks[i].x,
        threshold.limbs@[0] == arguments.threshold,
        forall|i: int| 1 <= i < 12 ==> #[trigger] threshold.limbs@[i] == 0,
        arguments.threshold <= valid.len() ==> surplus.limbs@[0] == valid.len()
            - arguments.threshold,
        forall|i: int| 1 <= i < 12 ==> #[trigger] surplus.limbs@[i] == 0,
    ensures
        valid.len() < arguments.threshold ==> prepared(backend, arguments, bt_list) == Ok::<
            PreparationValue,
            E,
        >(PreparationValue::BelowThreshold { valid_sigs: valid.len() }),
        valid.len() >= arguments.threshold ==> match (backend.hash)(seq![quality, msg]) {
            Err(error) => prepared(backend, arguments, bt_list) == Err::<PreparationValue, E>(
                error,
            ),
            Ok(wcert) => match (backend.hash)(xs) {
                Err(error) => prepared(backend, arguments, bt_list) == Err::<PreparationValue, E>(
                    error,
                ),
                Ok(pks_hash) => match (backend.hash)(seq![pks_hash, threshold]) {
                    Err(error) => prepared(backend, arguments, bt_list) == Err::<
                        PreparationValue,
                        E,
                    >(error),
                    Ok(keys) => prepared(backend, arguments, bt_list) matches Ok(
                        PreparationValue::Ready(input),
                    ) && input.pks == arguments.pks && input.sigs.len() == arguments.sigs.len() && (
                    forall|i: int|
                        0 <= i < input.sigs.len() ==> #[trigger] input.sigs[i] == (
                        if arguments.sigs[i] is Some {
                            arguments.sigs[i]
                        } else {
                            Some(arguments.null_sig)
                        })) && input.threshold == threshold && input.b == surplus
                        && input.end_epoch_mc_b_hash == end && input.prev_end_epoch_mc_b_hash
                        == prev && input.mr_bt == mr_bt && input.pks_threshold_hash == keys
                        && input.wcert_sysdata_hash == wcert && input.max_pks
                        == arguments.pks.len(),
                },
            },
        },
{
    lemma_is_padding(arguments.end_epoch_mc_b_hash, end_bytes);
    lemma_is_padding(arguments.prev_end_epoch_mc_b_hash, prev_bytes);
    law_count_of_valid(backend, msg, arguments.pks, arguments.sigs, valid);
    lemma_is_number(quality, valid.len() as u64);
    lemma_is_number(threshold, arguments.threshold);
    lemma_are_coordinates(arguments.pks, xs);
    if arguments.threshold <= valid.len() {
        lemma_is_number(surplus, (valid.len() - arguments.threshold) as u64);
    }
    law_filled(arguments.sigs, arguments.null_sig);
}

/// A preparation without a message fails as the message does, and one in which a
/// given signature cannot be checked fails as the first such check does.
pub proof fn law_prepared_failures<E>(
    backend: Backend<E>,
    arguments: ProofArguments,
    bt_list: Seq<BackwardTransfer>,
    k: int,
    error: E,
)
    ensures
        msg_to_sign(
            backend,
            arguments.end_epoch_mc_b_hash,
            arguments.prev_end_epoch_mc_b_hash,
            bt_list,
        ) == Err::<(FieldElement, FieldElement), E>(error) ==> prepared(backend, arguments, bt_list)
            == Err::<PreparationValue, E>(error),
        msg_to_sign(
            backend,
            arguments.end_epoch_mc_b_hash,
            arguments.prev_end_epoch_mc_b_hash,
            bt_list,
        ) matches Ok((_, msg)) ==> ({
            &&& 0 <= k < arguments.sigs.len()
            &&& forall|m: int|
                0 <= m < k ==> (#[trigger] arguments.sigs[m] matches Some(sig) ==> (backend.verify)(
                    msg,
                    arguments.pks[m],
                    sig,
                ) is Ok)
            &&& arguments.sigs[k] matches Some(sig)
            &&& (backend.verify)(msg, arguments.pks[k], sig) == Err::<bool, E>(error)
        } ==> prepared(backend, arguments, bt_list) == Err::<PreparationValue, E>(error)),
{
    if let Ok((_, msg)) = msg_to_sign(
        backend,
        arguments.end_epoch_mc_b_hash,
        arguments.prev_end_epoch_mc_b_hash,
        bt_list,
    ) {
        if 0 <= k < arguments.sigs.len() && (forall|m: int|
            0 <= m < k ==> (#[trigger] arguments.sigs[m] matches Some(sig) ==> (backend.verify)(
                msg,
                arguments.pks[m],
                sig,
            ) is Ok)) && (arguments.sigs[k] matches Some(sig) && (backend.verify)(
            msg,
            arguments.pks[k],
            sig,
        ) == Err::<bool, E>(error)) {
            law_count_stops(backend, msg, arguments.pks, arguments.sigs, k, error);
        }
    }
}

/// Circuit inputs with one key hash belong to one threshold and to keys whose
/// first coordinates agree in every place, or show a collision, between the two
/// lists of coordinates or between the two hashes of keys with their thresholds.
pub proof fn law_circuit_inputs_bind_keys<E>(
    backend: Backend<E>,
    arguments1: ProofArguments,
    bt_list1: Seq<BackwardTransfer>,
    input1: CircuitInputValue,
    xs1: Seq<FieldElement>,
    arguments2: ProofArguments,
    bt_list2: Seq<BackwardTransfer>,
    input2: CircuitInputValue,
    xs2: Seq<FieldElement>,
)
    requires
        gives_canonical(backend),
        arguments1.pks.len() == arguments1.sigs.len() <= u64::MAX,
        arguments2.pks.len() == arguments2.sigs.len() <= u64::MAX,
        prepared(backend, arguments1, bt_list1) == Ok::<PreparationValue, E>(
            PreparationValue::Ready(input1),
        ),
        prepared(backend, arguments2, bt_list2) == Ok::<PreparationValue, E>(
            PreparationValue::Ready(input2),
        ),
        input1.pks_threshold_hash == input2.pks_threshold_hash,
        xs1.len() == arguments1.pks.len(),
        forall|i: int| 0 <= i < xs1.len() ==> #[trigger] xs1[i] == arguments1.pks[i].x,
        all_canonical(xs1),
        xs2.len() == arguments2.pks.len(),
        forall|i: int| 0 <= i < xs2.len() ==> #[trigger] xs2[i] == arguments2.pks[i].x,
        all_canonical(xs2),
    ensures
        input1.pks == arguments1.pks,
        input2.pks == arguments2.pks,
        ({
            &&& arguments1.threshold == arguments2.threshold
            &&& input1.pks.len() == input2.pks.len()
            &&& forall|i: int|
                0 <= i < input1.pks.len() ==> (#[trigger] input1.pks[i]).x == input2.pks[i].x
        }) || hash_collision(backend, xs1, xs2) || hash_collision(
            backend,
            seq![(backend.hash)(xs1)->Ok_0, field_from_u64(arguments1.threshold)],
            seq![(backend.hash)(xs2)->Ok_0, field_from_u64(arguments2.threshold)],
        ),
{
    law_circuit_input_consistent(backend, arguments1, bt_list1, input1);
    law_circuit_input_consistent(backend, arguments2, bt_list2, input2);
    law_pks_hash_binding(
        backend,
        arguments1.pks,
        arguments1.threshold,
        xs1,
        arguments2.pks,
        arguments2.threshold,
        xs2,
    );
}

/// The content of a preparation is that of its fields, each under its own name.
pub proof fn law_preparation_content(output: Preparation)
    ensures
        NaiveThresholdSigProof::value_of(output) == output@,
        output matches Preparation::Ready(input) ==> (output@ matches PreparationValue::Ready(value)
            && value.pks == input.pks@ && value.sigs == input.sigs@ && value.threshold
            == input.threshold && value.b == input.b && value.end_epoch_mc_b_hash
            == input.end_epoch_mc_b_hash && value.prev_end_epoch_mc_b_hash
            == input.prev_end_epoch_mc_b_hash && value.mr_bt == input.mr_bt
            && value.pks_threshold_hash == input.pks_threshold_hash && value.wcert_sysdata_hash
            == input.wcert_sysdata_hash && value.max_pks == input.max_pks),
        output matches Preparation::BelowThreshold { valid_sigs } ==> (
        output@ matches PreparationValue::BelowThreshold { valid_sigs: count } && count
            == valid_sigs),
{
}

/// The arguments that a proof is made from are its fields, each under its own name.
pub proof fn law_proof_arguments(data: ProofData)
    ensures
        data@.pks == data.pks@,
        data@.sigs == data.sigs@,
        data@.end_epoch_mc_b_hash == data.end_epoch_mc_b_hash@,
        data@.prev_end_epoch_mc_b_hash == data.prev_end_epoch_mc_b_hash@,
        data@.threshold == data.threshold,
        data@.null_sig == data.null_sig,
{
}

/// A preparation, from its first stage, leads to what the preparation for the keys,
/// signatures, threshold, null signature, block hashes and transfers that it holds
/// leads to.
pub proof fn law_proof_start<E>(computation: NaiveThresholdSigProof, backend: Backend<E>)
    ensures
        computation.stage matches ProofStage::Msg(msg) ==> (msg.stage is ReadEnd
            && msg.end_epoch_mc_b_hash@ == computation.data.end_epoch_mc_b_hash@
            && msg.prev_end_epoch_mc_b_hash@ == computation.data.prev_end_epoch_mc_b_hash@
            ==> computation.outcome(backend) == prepared(
            backend,
            (ProofArguments {
                pks: computation.data.pks@,
                sigs: computation.data.sigs@,
                end_epoch_mc_b_hash: computation.data.end_epoch_mc_b_hash@,
                prev_end_epoch_mc_b_hash: computation.data.prev_end_epoch_mc_b_hash@,
                threshold: computation.data.threshold,
                null_sig: computation.data.null_sig,
            }),
            msg.bt_list@,
        )),
{
    law_proof_arguments(computation.data);
}

/// What each stage asks for: the work of the message, the check of the signature
/// in a place against the message and the key in the same place, the work of the
/// public inputs, and the block hashes, the later one first.
pub proof fn law_proof_requests(computation: NaiveThresholdSigProof)
    requires
        computation.valid(),
    ensures
        computation.stage matches ProofStage::Msg(msg) ==> computation.request() == msg.request(),
        computation.stage matches ProofStage::Verify { msg, i, .. } ==> i
            < computation.data.sigs@.len() && (computation.data.sigs@[i as int] matches Some(sig)
            && computation.request() == Request::Verify(msg, computation.data.pks@[i as int], sig)),
        computation.stage matches ProofStage::Inputs { computation: inputs, .. }
            ==> computation.request() == inputs.request(),
        computation.stage is ReadEnd ==> (computation.request() matches Request::Read(bytes)
            && bytes.len() == 96 && forall|i: int|
            0 <= i < 96 ==> #[trigger] bytes[i] == (if i < 32 {
                computation.data.end_epoch_mc_b_hash@[i]
            } else {
                0
            })),
        computation.stage is ReadPrev ==> (computation.request() matches Request::Read(bytes)
            && bytes.len() == 96 && forall|i: int|
            0 <= i < 96 ==> #[trigger] bytes[i] == (if i < 32 {
                computation.data.prev_end_epoch_mc_b_hash@[i]
            } else {
                0
            })),
{
}

proof fn lemma_first_given(sigs: Seq<Option<SchnorrSig>>, i: int, j: int)
    requires
        0 <= i <= j <= sigs.len(),
        forall|m: int| i <= m < j ==> #[trigger] sigs[m] is None,
        j < sigs.len() ==> sigs[j] is Some,
    ensures
        first_given(sigs, i) == j,
    decreases j - i,
{
    if i < j {
        assert(sigs[i] is None);
        lemma_first_given(sigs, i + 1, j);
    }
}

/// Where a verdict leads: a valid signature is counted, an invalid one is not, and
/// the next signature that is given is checked. After the last one the count is
/// compared with the threshold. Nothing that the preparation holds is changed.
pub proof fn law_proof_verdict<'a, E>(
    computation: NaiveThresholdSigProof<'a>,
    mr_bt: FieldElement,
    msg: FieldElement,
    i: usize,
    valid: u64,
    verdict: bool,
    j: int,
    step: Step<NaiveThresholdSigProof<'a>, Preparation<'a>, E>,
)
    requires
        computation.valid(),
        computation.stage == (ProofStage::Verify { mr_bt, msg, i, valid }),
        computation.advances(Reply::<E>::Verdict(verdict), step),
        i < j <= computation.data.sigs@.len(),
        forall|m: int| i < m < j ==> #[trigger] computation.data.sigs@[m] is None,
        j < computation.data.sigs@.len() ==> computation.data.sigs@[j] is Some,
    ensures
        ({
            let count: int = if verdict {
                valid + 1
            } else {
                valid as int
            };
            if j < computation.data.sigs@.len() {
                step matches Step::Pending(next) && next.data == computation.data && (
                next.stage matches ProofStage::Verify { mr_bt: r, msg: m, i: place, valid: c } && r
                    == mr_bt && m == msg && place == j && c == count)
            } else if count < computation.data.threshold {
                step matches Step::Done(Preparation::BelowThreshold { valid_sigs }) && valid_sigs
                    == count
            } else {
                step matches Step::Pending(next) && next.data == computation.data && (
                next.stage matches ProofStage::Inputs { mr_bt: r, valid: c, computation: inputs }
                    && r == mr_bt && c == count && inputs.pks@ == computation.data.pks@
                    && inputs.threshold == computation.data.threshold && inputs.valid_sigs == count
                    && (inputs.stage matches InputsStage::Wcert(ElementCall {
                    work: Call::PoseidonHash(elements),
                }) && elements@.len() == 2 && elements@[0].limbs@[0] == count && (forall|k: int|
                    1 <= k < 12 ==> #[trigger] elements@[0].limbs@[k] == 0) && elements@[1] == msg))
            }
        }),
{
    assert(j <= computation.data.sigs.len());
    lemma_first_given(computation.data.sigs@, i + 1, j);
}

/// While the message is computed, an element leads where it leads that computation.
/// With the message, the first signature that is given is checked; where none is
/// given, a count of zero is compared with the threshold. Nothing that the
/// preparation holds is changed.
pub proof fn law_proof_message<'a, E>(
    computation: NaiveThresholdSigProof<'a>,
    working: MsgToSign<'a>,
    element: FieldElement,
    j: int,
    step: Step<NaiveThresholdSigProof<'a>, Preparation<'a>, E>,
)
    requires
        computation.valid(),
        computation.stage == ProofStage::Msg(working),
        computation.advances(Reply::<E>::Element(element), step),
        0 <= j <= computation.data.sigs@.len(),
        forall|m: int| 0 <= m < j ==> #[trigger] computation.data.sigs@[m] is None,
        j < computation.data.sigs@.len() ==> computation.data.sigs@[j] is Some,
    ensures
        !(working.stage is Hash) ==> (step matches Step::Pending(next) && next.data
            == computation.data && (next.stage matches ProofStage::Msg(further)
            && working.advances(Reply::<E>::Element(element), Step::Pending(further)))),
        working.stage matches MsgStage::Hash { mr_bt, .. } ==> if j
            < computation.data.sigs@.len() {
            step matches Step::Pending(next) && next.data == computation.data && (
            next.stage matches ProofStage::Verify { mr_bt: r, msg: m, i: place, valid: c } && r
                == mr_bt && m == element && place == j && c == 0)
        } else if 0 < computation.data.threshold {
            step matches Step::Done(Preparation::BelowThreshold { valid_sigs }) && valid_sigs == 0
        } else {
            step matches Step::Pending(next) && next.data == computation.data && (
            next.stage matches ProofStage::Inputs { mr_bt: r, valid: c, computation: inputs } && r
                == mr_bt && c == 0 && inputs.pks@ == computation.data.pks@ && inputs.threshold
                == computation.data.threshold && inputs.valid_sigs == 0 && (
            inputs.stage matches InputsStage::Wcert(ElementCall {
                work: Call::PoseidonHash(elements),
            }) && elements@.len() == 2 && (forall|k: int|
                0 <= k < 12 ==> #[trigger] elements@[0].limbs@[k] == 0) && elements@[1] == element))
        },
{
    assert(j <= computation.data.sigs.len());
    lemma_first_given(computation.data.sigs@, 0, j);
}

/// While the public inputs are computed, an element leads where it leads that
/// computation. With the pair, the block hashes are read. Nothing that the
/// preparation holds is changed.
pub proof fn law_proof_inputs<'a, E>(
    computation: NaiveThresholdSigProof<'a>,
    mr_bt: FieldElement,
    valid: u64,
    working: PublicInputs<'a>,
    element: FieldElement,
    step: Step<NaiveThresholdSigProof<'a>, Preparation<'a>, E>,
)
    requires
        computation.stage == (ProofStage::Inputs { mr_bt, valid, computation: working }),
        computation.advances(Reply::<E>::Element(element), step),
    ensures
        step matches Step::Pending(next) && next.data == computation.data && match next.stage {
            ProofStage::Inputs { mr_bt: r, valid: c, computation: further } => r == mr_bt && c
                == valid && working.advances(Reply::<E>::Element(element), Step::Pending(further)),
            ProofStage::ReadEnd { mr_bt: r, valid: c, inputs } => r == mr_bt && c == valid
                && working.advances(Reply::<E>::Element(element), Step::Done(inputs)),
            _ => false,
        },
{
}

/// Where the block hashes lead, once the public inputs are there: the later one is
/// kept, and with the earlier one the circuit input is complete.
pub proof fn law_proof_block_hashes<'a, E>(
    computation: NaiveThresholdSigProof<'a>,
    element: FieldElement,
    step: Step<NaiveThresholdSigProof<'a>, Preparation<'a>, E>,
)
    requires
        computation.valid(),
        computation.advances(Reply::<E>::Element(element), step),
    ensures
        computation.stage matches ProofStage::ReadEnd { mr_bt, valid, inputs } ==> (
        step matches Step::Pending(next) && next.data == computation.data && next.stage == (
        ProofStage::ReadPrev { mr_bt, valid, inputs, end: element })),
        computation.stage matches ProofStage::ReadPrev { mr_bt, valid, inputs, end } ==> (
        step matches Step::Done(Preparation::Ready(input)) && input.pks@ == computation.data.pks@
            && input.sigs@.len() == computation.data.sigs@.len() && (forall|i: int|
            0 <= i < input.sigs@.len() ==> #[trigger] input.sigs@[i] == (
            if computation.data.sigs@[i] is Some {
                computation.data.sigs@[i]
            } else {
                Some(computation.data.null_sig)
            })) && input.threshold.limbs@[0] == computation.data.threshold && (forall|i: int|
            1 <= i < 12 ==> #[trigger] input.threshold.limbs@[i] == 0) && input.b.limbs@[0] == valid
            - computation.data.threshold && (forall|i: int|
            1 <= i < 12 ==> #[trigger] input.b.limbs@[i] == 0) && input.end_epoch_mc_b_hash == end
            && input.prev_end_epoch_mc_b_hash == element && input.mr_bt == mr_bt
            && input.pks_threshold_hash == inputs.1 && input.wcert_sysdata_hash == inputs.0
            && input.max_pks == computation.data.pks@.len()),
{
    if let ProofStage::ReadPrev { .. } = computation.stage {
        if let Step::Done(output) = step {
            law_preparation_content(output);
        }
        law_filled(computation.data.sigs@, computation.data.null_sig);
    }
}

} // verus!
