//! What the hashes of keys, thresholds and certificates are made of, element by element.

use crate::calls::{Backend, Call, Computation, Reply, Request, Step, Waiting};
use crate::element::ElementCall;
use crate::field::{field_from_u64, law_field_from_u64_limbs, law_field_from_u64_value};
use crate::field::FieldElement;
use crate::hashes::{pks_threshold_hash, wcert_sysdata_hash, PksStage, PksThresholdHash};
use crate::laws::{all_canonical, gives_canonical, hash_collision};
use crate::message::{msg_to_sign, MsgToSign};
use crate::public_inputs::{public_inputs, InputsStage, PublicInputs};
use crate::schnorr::{law_x_coordinates, x_coordinates, SchnorrPk};
use crate::transfer::BackwardTransfer;
use vstd::prelude::*;

verus! {

/// An element whose lowest limb is a number and whose other limbs are zero is the
/// element of that number.
pub(crate) proof fn lemma_is_number(element: FieldElement, num: u64)
    requires
        element.limbs@[0] == num,
        forall|i: int| 1 <= i < 12 ==> #[trigger] element.limbs@[i] == 0,
    ensures
        element == field_from_u64(num),
{
    law_field_from_u64_limbs(num);
    assert(element.limbs =~= field_from_u64(num).limbs);
}

/// Elements that are the first coordinates of the keys, place by place, are all of them.
pub(crate) proof fn lemma_are_coordinates(pks: Seq<SchnorrPk>, xs: Seq<FieldElement>)
    requires
        xs.len() == pks.len(),
        forall|i: int| 0 <= i < pks.len() ==> #[trigger] xs[i] == pks[i].x,
    ensures
        xs == x_coordinates(pks),
{
    law_x_coordinates(pks);
    assert(xs =~= x_coordinates(pks));
}

/// The certificate hash is the hash of two elements: the number of valid
/// signatures, then the message.
pub proof fn law_wcert_of_elements<E>(
    backend: Backend<E>,
    msg: FieldElement,
    valid_sigs: u64,
    quality: FieldElement,
)
    requires
        quality.limbs@[0] == valid_sigs,
        forall|i: int| 1 <= i < 12 ==> #[trigger] quality.limbs@[i] == 0,
    ensures
        wcert_sysdata_hash(backend, msg, valid_sigs) == (backend.hash)(seq![quality, msg]),
{
    lemma_is_number(quality, valid_sigs);
}

/// The key hash is the hash of the first coordinates of the keys, place by place,
/// hashed again with the threshold behind it.
pub proof fn law_pks_hash_of_elements<E>(
    backend: Backend<E>,
    pks: Seq<SchnorrPk>,
    threshold: u64,
    xs: Seq<FieldElement>,
    threshold_element: FieldElement,
)
    requires
        xs.len() == pks.len(),
        forall|i: int| 0 <= i < pks.len() ==> #[trigger] xs[i] == pks[i].x,
        threshold_element.limbs@[0] == threshold,
        forall|i: int| 1 <= i < 12 ==> #[trigger] threshold_element.limbs@[i] == 0,
    ensures
        pks_threshold_hash(backend, pks, threshold) == (match (backend.hash)(xs) {
            Err(error) => Err::<FieldElement, E>(error),
            Ok(pks_hash) => (backend.hash)(seq![pks_hash, threshold_element]),
        }),
{
    lemma_are_coordinates(pks, xs);
    lemma_is_number(threshold_element, threshold);
}

/// A key hash binds the keys and the threshold: where two lists of keys and two
/// thresholds have one hash, the thresholds are equal, the lists have one length
/// and their first coordinates agree in every place. Otherwise there is a
/// collision, between the two lists of coordinates or between the two hashes of
/// keys with their thresholds.
pub proof fn law_pks_hash_binding<E>(
    backend: Backend<E>,
    pks1: Seq<SchnorrPk>,
    threshold1: u64,
    xs1: Seq<FieldElement>,
    pks2: Seq<SchnorrPk>,
    threshold2: u64,
    xs2: Seq<FieldElement>,
)
    requires
        gives_canonical(backend),
        xs1.len() == pks1.len(),
        forall|i: int| 0 <= i < pks1.len() ==> #[trigger] xs1[i] == pks1[i].x,
        all_canonical(xs1),
        xs2.len() == pks2.len(),
        forall|i: int| 0 <= i < pks2.len() ==> #[trigger] xs2[i] == pks2[i].x,
        all_canonical(xs2),
        pks_threshold_hash(backend, pks1, threshold1) is Ok,
        pks_threshold_hash(backend, pks1, threshold1) == pks_threshold_hash(
            backend,
            pks2,
            threshold2,
        ),
    ensures
        ({
            &&& threshold1 == threshold2
            &&& pks1.len() == pks2.len()
            &&& forall|i: int| 0 <= i < pks1.len() ==> (#[trigger] pks1[i]).x == pks2[i].x
        }) || hash_collision(backend, xs1, xs2) || hash_collision(
            backend,
            seq![(backend.hash)(xs1)->Ok_0, field_from_u64(threshold1)],
            seq![(backend.hash)(xs2)->Ok_0, field_from_u64(threshold2)],
        ),
{
    law_field_from_u64_limbs(threshold1);
    law_field_from_u64_limbs(threshold2);
    law_field_from_u64_value(threshold1);
    law_field_from_u64_value(threshold2);
    law_pks_hash_of_elements(backend, pks1, threshold1, xs1, field_from_u64(threshold1));
    law_pks_hash_of_elements(backend, pks2, threshold2, xs2, field_from_u64(threshold2));
    let a = seq![(backend.hash)(xs1)->Ok_0, field_from_u64(threshold1)];
    let b = seq![(backend.hash)(xs2)->Ok_0, field_from_u64(threshold2)];
    if a == b {
        assert(a[0] == b[0] && a[1] == b[1]);
        assert(field_from_u64(threshold1).value() == field_from_u64(threshold2).value());
        if xs1 == xs2 {
            assert forall|i: int| 0 <= i < pks1.len() implies (#[trigger] pks1[i]).x
                == pks2[i].x by {
                assert(xs1[i] == xs2[i]);
            }
        } else {
            assert(hash_collision(backend, xs1, xs2));
        }
    } else {
        assert(hash_collision(backend, a, b));
    }
}

/// A certificate hash binds the message and the number of valid signatures, or
/// what the two hashes are taken of is a collision.
pub proof fn law_wcert_binding<E>(
    backend: Backend<E>,
    msg1: FieldElement,
    valid_sigs1: u64,
    msg2: FieldElement,
    valid_sigs2: u64,
)
    requires
        msg1.canonical(),
        msg2.canonical(),
        wcert_sysdata_hash(backend, msg1, valid_sigs1) is Ok,
        wcert_sysdata_hash(backend, msg1, valid_sigs1) == wcert_sysdata_hash(
            backend,
            msg2,
            valid_sigs2,
        ),
    ensures
        (msg1 == msg2 && valid_sigs1 == valid_sigs2) || hash_collision(
            backend,
            seq![field_from_u64(valid_sigs1), msg1],
            seq![field_from_u64(valid_sigs2), msg2],
        ),
{
    law_field_from_u64_value(valid_sigs1);
    law_field_from_u64_value(valid_sigs2);
    let a = seq![field_from_u64(valid_sigs1), msg1];
    let b = seq![field_from_u64(valid_sigs2), msg2];
    if a == b {
        assert(a[0] == b[0] && a[1] == b[1]);
        assert(field_from_u64(valid_sigs1).value() == field_from_u64(valid_sigs2).value());
    } else {
        assert(hash_collision(backend, a, b));
    }
}

/// The public inputs, once there is a message: first the hash of the number of
/// valid signatures and the message, then the hash of the hashed first coordinates
/// of the keys and the threshold. A failure is that of the first hash that fails,
/// and without a message it is the failure of the message.
pub proof fn law_public_inputs_of_elements<E>(
    backend: Backend<E>,
    pks: Seq<SchnorrPk>,
    threshold: u64,
    end_epoch_mc_b_hash: Seq<u8>,
    prev_end_epoch_mc_b_hash: Seq<u8>,
    bt_list: Seq<BackwardTransfer>,
    valid_sigs: u64,
    quality: FieldElement,
    xs: Seq<FieldElement>,
    threshold_element: FieldElement,
)
    requires
        quality.limbs@[0] == valid_sigs,
        forall|i: int| 1 <= i < 12 ==> #[trigger] quality.limbs@[i] == 0,
        xs.len() == pks.len(),
        forall|i: int| 0 <= i < pks.len() ==> #[trigger] xs[i] == pks[i].x,
        threshold_element.limbs@[0] == threshold,
        forall|i: int| 1 <= i < 12 ==> #[trigger] threshold_element.limbs@[i] == 0,
    ensures
        public_inputs(
            backend,
            pks,
            threshold,
            end_epoch_mc_b_hash,
            prev_end_epoch_mc_b_hash,
            bt_list,
            valid_sigs,
        ) == (match msg_to_sign(backend, end_epoch_mc_b_hash, prev_end_epoch_mc_b_hash, bt_list) {
            Err(error) => Err::<(FieldElement, FieldElement), E>(error),
            Ok((_, msg)) => match (backend.hash)(seq![quality, msg]) {
                Err(error) => Err(error),
                Ok(wcert) => match (backend.hash)(xs) {
                    Err(error) => Err(error),
                    Ok(pks_hash) => match (backend.hash)(seq![pks_hash, threshold_element]) {
                        Err(error) => Err(error),
                        Ok(keys) => Ok((wcert, keys)),
                    },
                },
            },
        }),
{
    lemma_is_number(quality, valid_sigs);
    lemma_are_coordinates(pks, xs);
    lemma_is_number(threshold_element, threshold);
}

/// Public inputs that agree in their second component belong to one threshold and
/// to keys whose first coordinates agree in every place, or show a collision,
/// between the two lists of coordinates or between the two hashes of keys with
/// their thresholds. This holds whatever the blocks, the transfers and the numbers
/// of valid signatures are.
pub proof fn law_public_inputs_bind_keys<E>(
    backend: Backend<E>,
    pks1: Seq<SchnorrPk>,
    threshold1: u64,
    end1: Seq<u8>,
    prev1: Seq<u8>,
    bt_list1: Seq<BackwardTransfer>,
    valid_sigs1: u64,
    inputs1: (FieldElement, FieldElement),
    xs1: Seq<FieldElement>,
    pks2: Seq<SchnorrPk>,
    threshold2: u64,
    end2: Seq<u8>,
    prev2: Seq<u8>,
    bt_list2: Seq<BackwardTransfer>,
    valid_sigs2: u64,
    inputs2: (FieldElement, FieldElement),
    xs2: Seq<FieldElement>,
)
    requires
        gives_canonical(backend),
        xs1.len() == pks1.len(),
        forall|i: int| 0 <= i < pks1.len() ==> #[trigger] xs1[i] == pks1[i].x,
        all_canonical(xs1),
        xs2.len() == pks2.len(),
        forall|i: int| 0 <= i < pks2.len() ==> #[trigger] xs2[i] == pks2[i].x,
        all_canonical(xs2),
        public_inputs(backend, pks1, threshold1, end1, prev1, bt_list1, valid_sigs1) == Ok::<
            (FieldElement, FieldElement),
            E,
        >(inputs1),
        public_inputs(backend, pks2, threshold2, end2, prev2, bt_list2, valid_sigs2) == Ok::<
            (FieldElement, FieldElement),
            E,
        >(inputs2),
        inputs1.1 == inputs2.1,
    ensures
        ({
            &&& threshold1 == threshold2
            &&& pks1.len() == pks2.len()
            &&& forall|i: int| 0 <= i < pks1.len() ==> (#[trigger] pks1[i]).x == pks2[i].x
        }) || hash_collision(backend, xs1, xs2) || hash_collision(
            backend,
            seq![(backend.hash)(xs1)->Ok_0, field_from_u64(threshold1)],
            seq![(backend.hash)(xs2)->Ok_0, field_from_u64(threshold2)],
        ),
{
    law_pks_hash_binding(backend, pks1, threshold1, xs1, pks2, threshold2, xs2);
}

/// The computation of the key hash: what comes of it and what it asks for in each
/// stage, and that the element that it ends with is taken as it is.
pub proof fn law_pks_stages<E>(
    computation: PksThresholdHash,
    backend: Backend<E>,
    xs: Seq<FieldElement>,
    threshold_element: FieldElement,
    output: FieldElement,
)
    requires
        xs.len() == computation.pks@.len(),
        forall|i: int|
            0 <= i < computation.pks@.len() ==> #[trigger] xs[i] == computation.pks@[i].x,
        threshold_element.limbs@[0] == computation.threshold,
        forall|i: int| 1 <= i < 12 ==> #[trigger] threshold_element.limbs@[i] == 0,
    ensures
        PksThresholdHash::value_of(output) == output,
        computation.stage is HashKeys ==> computation.outcome(backend) == (match (backend.hash)(
            xs,
        ) {
            Err(error) => Err::<FieldElement, E>(error),
            Ok(pks_hash) => (backend.hash)(seq![pks_hash, threshold_element]),
        }) && computation.request() == Request::Hash(xs),
        computation.stage matches PksStage::HashThreshold { pks_hash } ==> computation.outcome(
            backend,
        ) == (backend.hash)(seq![pks_hash, threshold_element]) && computation.request()
            == Request::Hash(seq![pks_hash, threshold_element]),
{
    lemma_are_coordinates(computation.pks@, xs);
    lemma_is_number(threshold_element, computation.threshold);
}

/// Where an element leads the computation of the key hash: the hash of the keys is
/// kept, with keys and threshold, and the second hash is the result.
pub proof fn law_pks_steps<'a, E>(
    computation: PksThresholdHash<'a>,
    element: FieldElement,
    step: Step<PksThresholdHash<'a>, FieldElement, E>,
)
    requires
        computation.advances(Reply::<E>::Element(element), step),
    ensures
        computation.stage is HashKeys ==> (step matches Step::Pending(next) && next.pks
            == computation.pks && next.threshold == computation.threshold && next.stage == (
        PksStage::HashThreshold { pks_hash: element })),
        computation.stage is HashThreshold ==> step == Step::<
            PksThresholdHash<'a>,
            FieldElement,
            E,
        >::Done(element),
{
}

/// What comes of the computation of the public inputs, from the message on, from
/// the certificate hash on and from the key hash on, and that the pair that it
/// ends with is taken as it is.
pub proof fn law_public_inputs_stages<E>(
    computation: PublicInputs,
    backend: Backend<E>,
    xs: Seq<FieldElement>,
    threshold_element: FieldElement,
    output: (FieldElement, FieldElement),
)
    requires
        xs.len() == computation.pks@.len(),
        forall|i: int|
            0 <= i < computation.pks@.len() ==> #[trigger] xs[i] == computation.pks@[i].x,
        threshold_element.limbs@[0] == computation.threshold,
        forall|i: int| 1 <= i < 12 ==> #[trigger] threshold_element.limbs@[i] == 0,
    ensures
        PublicInputs::value_of(output) == output,
        computation.stage matches InputsStage::Msg(msg) ==> (msg.stage is ReadEnd
            ==> computation.outcome(backend) == public_inputs(
            backend,
            computation.pks@,
            computation.threshold,
            msg.end_epoch_mc_b_hash@,
            msg.prev_end_epoch_mc_b_hash@,
            msg.bt_list@,
            computation.valid_sigs,
        )) && computation.request() == msg.request(),
        computation.stage matches InputsStage::Wcert(ElementCall {
            work: Call::PoseidonHash(elements),
        }) ==> computation.outcome(backend) == (match (backend.hash)(elements@) {
            Err(error) => Err::<(FieldElement, FieldElement), E>(error),
            Ok(wcert) => match (backend.hash)(xs) {
                Err(error) => Err(error),
                Ok(pks_hash) => match (backend.hash)(seq![pks_hash, threshold_element]) {
                    Err(error) => Err(error),
                    Ok(keys) => Ok((wcert, keys)),
                },
            },
        }) && computation.request() == Request::Hash(elements@),
        computation.stage matches InputsStage::Pks { wcert_sysdata_hash, computation: keys }
            ==> computation.outcome(backend) == (match keys.outcome(backend) {
            Err(error) => Err::<(FieldElement, FieldElement), E>(error),
            Ok(hash) => Ok((wcert_sysdata_hash, hash)),
        }) && computation.request() == keys.request(),
{
    lemma_are_coordinates(computation.pks@, xs);
    lemma_is_number(threshold_element, computation.threshold);
}

/// Where an element leads the computation of the public inputs once the message is
/// known: from the certificate hash to the first stage of the key hash, for the
/// same keys and threshold, and from the last stage of the key hash to the pair.
pub proof fn law_public_inputs_steps<'a, E>(
    computation: PublicInputs<'a>,
    element: FieldElement,
    step: Step<PublicInputs<'a>, (FieldElement, FieldElement), E>,
)
    requires
        computation.valid(),
        computation.advances(Reply::<E>::Element(element), step),
    ensures
        computation.stage is Wcert ==> (step matches Step::Pending(next) && next.pks
            == computation.pks && next.threshold == computation.threshold && next.valid_sigs
            == computation.valid_sigs && (
        next.stage matches InputsStage::Pks { wcert_sysdata_hash, computation: keys }
            && wcert_sysdata_hash == element && keys.pks@ == computation.pks@ && keys.threshold
            == computation.threshold && keys.stage is HashKeys)),
        computation.stage matches InputsStage::Pks { wcert_sysdata_hash, computation: keys } ==> (
        keys.stage is HashThreshold ==> step == Step::<
            PublicInputs<'a>,
            (FieldElement, FieldElement),
            E,
        >::Done((wcert_sysdata_hash, element))),
        computation.stage matches InputsStage::Pks { wcert_sysdata_hash, computation: keys } ==> (
        keys.stage is HashKeys ==> (step matches Step::Pending(next) && (
        next.stage matches InputsStage::Pks { wcert_sysdata_hash: w, computation: k } && w
            == wcert_sysdata_hash && k.pks == keys.pks && k.threshold == keys.threshold && k.stage
            == (PksStage::HashThreshold { pks_hash: element })))),
{
}

/// While the message is computed, an element leads where it leads that computation,
/// and the keys, the threshold and the number of valid signatures are kept.
pub proof fn law_public_inputs_before_msg<'a, E>(
    computation: PublicInputs<'a>,
    msg: MsgToSign<'a>,
    element: FieldElement,
    step: Step<PublicInputs<'a>, (FieldElement, FieldElement), E>,
)
    requires
        computation.stage == InputsStage::Msg(msg),
        !(msg.stage is Hash),
        computation.advances(Reply::<E>::Element(element), step),
    ensures
        step matches Step::Pending(next) && next.pks == computation.pks && next.threshold
            == computation.threshold && next.valid_sigs == computation.valid_sigs && (
        next.stage matches InputsStage::Msg(further) && msg.advances(
            Reply::<E>::Element(element),
            Step::Pending(further),
        )),
{
}

/// Where the last element of the message leads: to the certificate hash, for the
/// number of valid signatures and that element, with keys and threshold kept.
pub proof fn law_public_inputs_after_msg<'a, E>(
    computation: PublicInputs<'a>,
    msg: MsgToSign<'a>,
    element: FieldElement,
    step: Step<PublicInputs<'a>, (FieldElement, FieldElement), E>,
)
    requires
        computation.stage == InputsStage::Msg(msg),
        msg.stage is Hash,
        computation.advances(Reply::<E>::Element(element), step),
    ensures
        step matches Step::Pending(next) && next.pks@ == computation.pks@ && next.threshold
            == computation.threshold && next.valid_sigs == computation.valid_sigs && (
        next.stage matches InputsStage::Wcert(ElementCall { work: Call::PoseidonHash(elements) })
            && elements@.len() == 2 && elements@[0].limbs@[0] == computation.valid_sigs && (forall|
            i: int,
        |
            1 <= i < 12 ==> #[trigger] elements@[0].limbs@[i] == 0) && elements@[1] == element),
{
}

} // verus!
