//! The public inputs that a threshold-signature proof is verified with.

use crate::calls::{Backend, Call, Computation, Reply, Request, Step, Waiting};
use crate::element::ElementCall;
use crate::field::{field_from_u64, FieldElement};
use crate::hashes::{compute_pks_threshold_hash, compute_wcert_sysdata_hash};
use crate::hashes::{pks_threshold_hash, wcert_sysdata_hash, PksThresholdHash};
use crate::message::{compute_msg_to_sign, msg_to_sign, MsgToSign};
use crate::schnorr::SchnorrPk;
use crate::transfer::BackwardTransfer;
use vstd::prelude::*;

verus! {

/// The hash of keys and threshold, behind a certificate hash that is there already.
pub open spec fn inputs_after_wcert<E>(
    backend: Backend<E>,
    wcert: FieldElement,
    pks: Seq<SchnorrPk>,
    threshold: u64,
) -> Result<(FieldElement, FieldElement), E> {
    match pks_threshold_hash(backend, pks, threshold) {
        Ok(pks_hash) => Ok((wcert, pks_hash)),
        Err(error) => Err(error),
    }
}

/// The public inputs of a proof about the given message.
pub open spec fn inputs_for_msg<E>(
    backend: Backend<E>,
    msg: FieldElement,
    valid_sigs: u64,
    pks: Seq<SchnorrPk>,
    threshold: u64,
) -> Result<(FieldElement, FieldElement), E> {
    match wcert_sysdata_hash(backend, msg, valid_sigs) {
        Ok(wcert) => inputs_after_wcert(backend, wcert, pks, threshold),
        Err(error) => Err(error),
    }
}

/// The pair of the certificate hash and the key and threshold hash. The message
/// is computed first, then the two hashes in that order, and the first failure
/// is the failure of the whole.
pub open spec fn public_inputs<E>(
    backend: Backend<E>,
    pks: Seq<SchnorrPk>,
    threshold: u64,
    end_epoch_mc_b_hash: Seq<u8>,
    prev_end_epoch_mc_b_hash: Seq<u8>,
    bt_list: Seq<BackwardTransfer>,
    valid_sigs: u64,
) -> Result<(FieldElement, FieldElement), E> {
    match msg_to_sign(backend, end_epoch_mc_b_hash, prev_end_epoch_mc_b_hash, bt_list) {
        Ok((_, msg)) => inputs_for_msg(backend, msg, valid_sigs, pks, threshold),
        Err(error) => Err(error),
    }
}

/// How far the computation of the public inputs has come.
#[derive(Debug, PartialEq, Eq)]
pub enum InputsStage<'a> {
    /// Computing the message.
    Msg(MsgToSign<'a>),
    /// Computing the certificate hash.
    Wcert(ElementCall),
    /// Computing the key and threshold hash.
    Pks { wcert_sysdata_hash: FieldElement, computation: PksThresholdHash<'a> },
}

/// The computation of the public inputs. It gives the certificate hash and the
/// key and threshold hash.
#[derive(Debug, PartialEq, Eq)]
pub struct PublicInputs<'a> {
    pub pks: &'a [SchnorrPk],
    pub threshold: u64,
    pub valid_sigs: u64,
    pub stage: InputsStage<'a>,
}

/// Starts the computation of the public inputs.
pub fn get_public_inputs_for_naive_threshold_sig_proof<'a>(
    pks: &'a [SchnorrPk],
    threshold: u64,
    end_epoch_mc_b_hash: &'a [u8; 32],
    prev_end_epoch_mc_b_hash: &'a [u8; 32],
    bt_list: &'a [BackwardTransfer],
    valid_sigs: u64,
) -> (computation: PublicInputs<'a>)
    ensures
        computation.valid(),
        computation.starts(
            pks@,
            threshold,
            end_epoch_mc_b_hash@,
            prev_end_epoch_mc_b_hash@,
            bt_list@,
            valid_sigs,
        ),
        computation.pks == pks,
        computation.threshold == threshold,
        computation.valid_sigs == valid_sigs,
        computation.stage matches InputsStage::Msg(msg) && msg.end_epoch_mc_b_hash
            == end_epoch_mc_b_hash && msg.prev_end_epoch_mc_b_hash == prev_end_epoch_mc_b_hash
            && msg.bt_list == bt_list && msg.stage is ReadEnd,
{
    PublicInputs {
        pks,
        threshold,
        valid_sigs,
        stage: InputsStage::Msg(
            compute_msg_to_sign(end_epoch_mc_b_hash, prev_end_epoch_mc_b_hash, bt_list),
        ),
    }
}

/// Starts the computation of the public inputs where the message is known.
pub fn public_inputs_for_msg<'a>(
    pks: &'a [SchnorrPk],
    threshold: u64,
    msg: &FieldElement,
    valid_sigs: u64,
) -> (computation: PublicInputs<'a>)
    ensures
        computation.valid(),
        computation.starts_from_msg(pks@, threshold, *msg, valid_sigs),
        computation.pks == pks,
        computation.threshold == threshold,
        computation.valid_sigs == valid_sigs,
        computation.stage matches InputsStage::Wcert(ElementCall {
            work: Call::PoseidonHash(elements),
        }) && elements@.len() == 2 && elements@[0].limbs@[0] == valid_sigs && (forall|i: int|
            1 <= i < 12 ==> #[trigger] elements@[0].limbs@[i] == 0) && elements@[1] == *msg,
{
    PublicInputs {
        pks,
        threshold,
        valid_sigs,
        stage: InputsStage::Wcert(compute_wcert_sysdata_hash(msg, valid_sigs)),
    }
}

impl<'a> PublicInputs<'a> {
    /// The computation is at the certificate hash, with these arguments.
    pub open spec fn starts_from_msg(
        self,
        pks: Seq<SchnorrPk>,
        threshold: u64,
        msg: FieldElement,
        valid_sigs: u64,
    ) -> bool {
        &&& self.pks@ == pks
        &&& self.threshold == threshold
        &&& self.valid_sigs == valid_sigs
        &&& self.stage matches InputsStage::Wcert(wcert) && wcert.hashes(
            seq![field_from_u64(valid_sigs), msg],
        )
    }

    /// The computation is at the start of the key and threshold hash.
    pub open spec fn at_keys(
        self,
        pks: Seq<SchnorrPk>,
        threshold: u64,
        wcert: FieldElement,
    ) -> bool {
        self.stage matches InputsStage::Pks { wcert_sysdata_hash, computation }
            && wcert_sysdata_hash == wcert && computation.starts(pks, threshold)
    }

    /// The computation is at the start, with these arguments.
    pub open spec fn starts(
        self,
        pks: Seq<SchnorrPk>,
        threshold: u64,
        end_epoch_mc_b_hash: Seq<u8>,
        prev_end_epoch_mc_b_hash: Seq<u8>,
        bt_list: Seq<BackwardTransfer>,
        valid_sigs: u64,
    ) -> bool {
        &&& self.pks@ == pks
        &&& self.threshold == threshold
        &&& self.valid_sigs == valid_sigs
        &&& self.stage matches InputsStage::Msg(msg) && msg.starts(
            end_epoch_mc_b_hash,
            prev_end_epoch_mc_b_hash,
            bt_list,
        )
    }
}

/// The computation that [`get_public_inputs_for_naive_threshold_sig_proof`]
/// starts gives the public inputs.
pub proof fn law_public_inputs_computation<E>(
    computation: PublicInputs,
    pks: Seq<SchnorrPk>,
    threshold: u64,
    end_epoch_mc_b_hash: Seq<u8>,
    prev_end_epoch_mc_b_hash: Seq<u8>,
    bt_list: Seq<BackwardTransfer>,
    valid_sigs: u64,
    backend: Backend<E>,
)
    requires
        computation.starts(
            pks,
            threshold,
            end_epoch_mc_b_hash,
            prev_end_epoch_mc_b_hash,
            bt_list,
            valid_sigs,
        ),
    ensures
        computation.outcome(backend) == public_inputs(
            backend,
            pks,
            threshold,
            end_epoch_mc_b_hash,
            prev_end_epoch_mc_b_hash,
            bt_list,
            valid_sigs,
        ),
{
}

impl<'a> Waiting for PublicInputs<'a> {
    type Output = (FieldElement, FieldElement);

    type Value = (FieldElement, FieldElement);

    open spec fn valid(self) -> bool {
        match self.stage {
            InputsStage::Msg(computation) => computation.valid(),
            InputsStage::Wcert(computation) => computation.valid(),
            InputsStage::Pks { computation, .. } => computation.valid(),
        }
    }

    open spec fn request(self) -> Request {
        match self.stage {
            InputsStage::Msg(computation) => computation.request(),
            InputsStage::Wcert(computation) => computation.request(),
            InputsStage::Pks { computation, .. } => computation.request(),
        }
    }

    open spec fn remaining(self) -> nat {
        match self.stage {
            InputsStage::Msg(computation) => computation.remaining() + 3,
            InputsStage::Wcert(computation) => computation.remaining() + 2,
            InputsStage::Pks { computation, .. } => computation.remaining(),
        }
    }

    open spec fn value_of(output: (FieldElement, FieldElement)) -> (FieldElement, FieldElement) {
        output
    }

    fn call(&self) -> (call: Call) {
        match &self.stage {
            InputsStage::Msg(computation) => computation.call(),
            InputsStage::Wcert(computation) => computation.call(),
            InputsStage::Pks { computation, .. } => computation.call(),
        }
    }
}

impl<'a, E> Computation<E> for PublicInputs<'a> {
    open spec fn outcome(self, backend: Backend<E>) -> Result<(FieldElement, FieldElement), E> {
        match self.stage {
            InputsStage::Msg(computation) => match computation.outcome(backend) {
                Ok((_, msg)) => inputs_for_msg(
                    backend,
                    msg,
                    self.valid_sigs,
                    self.pks@,
                    self.threshold,
                ),
                Err(error) => Err(error),
            },
            InputsStage::Wcert(computation) => match computation.outcome(backend) {
                Ok(wcert) => inputs_after_wcert(backend, wcert, self.pks@, self.threshold),
                Err(error) => Err(error),
            },
            InputsStage::Pks { wcert_sysdata_hash, computation } => match computation.outcome(
                backend,
            ) {
                Ok(pks_hash) => Ok((wcert_sysdata_hash, pks_hash)),
                Err(error) => Err(error),
            },
        }
    }

    open spec fn advances(
        self,
        reply: Reply<E>,
        step: Step<Self, (FieldElement, FieldElement), E>,
    ) -> bool {
        match self.stage {
            InputsStage::Msg(computation) => exists|inner: Step<
                MsgToSign<'a>,
                (FieldElement, FieldElement),
                E,
            >|
                {
                    &&& #[trigger] computation.advances(reply, inner)
                    &&& match inner {
                        Step::Pending(next) => step == Step::<Self, (FieldElement, FieldElement), E>::Pending(
                            PublicInputs { stage: InputsStage::Msg(next), ..self },
                        ),
                        Step::Done((_, msg)) => step matches Step::Pending(next)
                            && next.starts_from_msg(
                            self.pks@,
                            self.threshold,
                            msg,
                            self.valid_sigs,
                        ),
                        Step::Failed(_) => false,
                    }
                },
            InputsStage::Wcert(computation) => exists|inner: Step<ElementCall, FieldElement, E>|
                {
                    &&& #[trigger] computation.advances(reply, inner)
                    &&& match inner {
                        Step::Done(wcert) => step matches Step::Pending(next) && next.at_keys(
                            self.pks@,
                            self.threshold,
                            wcert,
                        ) && next.pks == self.pks && next.threshold == self.threshold
                            && next.valid_sigs == self.valid_sigs,
                        _ => false,
                    }
                },
            InputsStage::Pks { wcert_sysdata_hash, computation } => exists|
                inner: Step<PksThresholdHash<'a>, FieldElement, E>,
            |
                {
                    &&& #[trigger] computation.advances(reply, inner)
                    &&& match inner {
                        Step::Pending(next) => step == Step::<Self, (FieldElement, FieldElement), E>::Pending(
                            PublicInputs {
                                stage: InputsStage::Pks { wcert_sysdata_hash, computation: next },
                                ..self
                            },
                        ),
                        Step::Done(pks_hash) => step == Step::<Self, (FieldElement, FieldElement), E>::Done(
                            (wcert_sysdata_hash, pks_hash),
                        ),
                        Step::Failed(_) => false,
                    }
                },
        }
    }

    fn resume(self, reply: Reply<E>) -> (step: Step<Self, (FieldElement, FieldElement), E>) {
        let PublicInputs { pks, threshold, valid_sigs, stage } = self;
        let next = match stage {
            InputsStage::Msg(computation) => match computation.resume(reply) {
                Step::Pending(computation) => InputsStage::Msg(computation),
                Step::Done((_, msg)) => InputsStage::Wcert(
                    compute_wcert_sysdata_hash(&msg, valid_sigs),
                ),
                Step::Failed(error) => return Step::Failed(error),
            },
            InputsStage::Wcert(computation) => match computation.resume(reply) {
                Step::Pending(computation) => InputsStage::Wcert(computation),
                Step::Done(wcert_sysdata_hash) => InputsStage::Pks {
                    wcert_sysdata_hash,
                    computation: compute_pks_threshold_hash(pks, threshold),
                },
                Step::Failed(error) => return Step::Failed(error),
            },
            InputsStage::Pks { wcert_sysdata_hash, computation } => match computation.resume(reply) {
                Step::Pending(computation) => InputsStage::Pks { wcert_sysdata_hash, computation },
                Step::Done(pks_threshold_hash) => return Step::Done(
                    (wcert_sysdata_hash, pks_threshold_hash),
                ),
                Step::Failed(error) => return Step::Failed(error),
            },
        };
        Step::Pending(PublicInputs { pks, threshold, valid_sigs, stage: next })
    }
}

} // verus!
