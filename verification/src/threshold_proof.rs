//! What a threshold-signature proof is made from.

use crate::buffer::{pad_to_field_size, padded};
use crate::calls::{Backend, Call, Computation, Reply, Request, Step, Waiting};
use crate::field::{field_from_u64, read_field_element_from_u64, FieldElement};
use crate::message::{compute_msg_to_sign, msg_to_sign, MsgToSign};
use crate::public_inputs::{inputs_for_msg, public_inputs_for_msg, PublicInputs};
use crate::schnorr::{SchnorrPk, SchnorrSig};
use crate::transfer::BackwardTransfer;
use vstd::prelude::*;

verus! {

/// Everything that the threshold-signature circuit is built from.
#[derive(Debug, PartialEq, Eq)]
pub struct CircuitInput<'a> {
    pub pks: &'a [SchnorrPk],
    /// One signature for every key: the given one, or the null signature.
    pub sigs: Vec<Option<SchnorrSig>>,
    pub threshold: FieldElement,
    /// By how much the number of valid signatures exceeds the threshold.
    pub b: FieldElement,
    pub end_epoch_mc_b_hash: FieldElement,
    pub prev_end_epoch_mc_b_hash: FieldElement,
    pub mr_bt: FieldElement,
    pub pks_threshold_hash: FieldElement,
    pub wcert_sysdata_hash: FieldElement,
    pub max_pks: usize,
}

/// What the preparation of a proof leads to.
#[derive(Debug, PartialEq, Eq)]
pub enum Preparation<'a> {
    /// There are enough valid signatures for a proof.
    Ready(CircuitInput<'a>),
    /// There are fewer valid signatures than the threshold asks for.
    BelowThreshold { valid_sigs: u64 },
}

/// The mathematical content of a [`CircuitInput`].
pub struct CircuitInputValue {
    pub pks: Seq<SchnorrPk>,
    pub sigs: Seq<Option<SchnorrSig>>,
    pub threshold: FieldElement,
    pub b: FieldElement,
    pub end_epoch_mc_b_hash: FieldElement,
    pub prev_end_epoch_mc_b_hash: FieldElement,
    pub mr_bt: FieldElement,
    pub pks_threshold_hash: FieldElement,
    pub wcert_sysdata_hash: FieldElement,
    pub max_pks: nat,
}

/// The mathematical content of a [`Preparation`].
pub enum PreparationValue {
    Ready(CircuitInputValue),
    BelowThreshold { valid_sigs: nat },
}

impl<'a> View for CircuitInput<'a> {
    type V = CircuitInputValue;

    open spec fn view(&self) -> CircuitInputValue {
        CircuitInputValue {
            pks: self.pks@,
            sigs: self.sigs@,
            threshold: self.threshold,
            b: self.b,
            end_epoch_mc_b_hash: self.end_epoch_mc_b_hash,
            prev_end_epoch_mc_b_hash: self.prev_end_epoch_mc_b_hash,
            mr_bt: self.mr_bt,
            pks_threshold_hash: self.pks_threshold_hash,
            wcert_sysdata_hash: self.wcert_sysdata_hash,
            max_pks: self.max_pks as nat,
        }
    }
}

impl<'a> View for Preparation<'a> {
    type V = PreparationValue;

    open spec fn view(&self) -> PreparationValue {
        match *self {
            Preparation::Ready(input) => PreparationValue::Ready(input@),
            Preparation::BelowThreshold { valid_sigs } => PreparationValue::BelowThreshold {
                valid_sigs: valid_sigs as nat,
            },
        }
    }
}

/// The arguments of a proof, apart from the transfers.
pub struct ProofArguments {
    pub pks: Seq<SchnorrPk>,
    pub sigs: Seq<Option<SchnorrSig>>,
    pub end_epoch_mc_b_hash: Seq<u8>,
    pub prev_end_epoch_mc_b_hash: Seq<u8>,
    pub threshold: u64,
    pub null_sig: SchnorrSig,
}

/// Adds the number of valid signatures from the `i`-th on to `valid`. Missing
/// signatures are passed over, the others are checked in order, and the first
/// failure of a check is the failure of the whole.
pub open spec fn tally_from<E>(
    backend: Backend<E>,
    msg: FieldElement,
    pks: Seq<SchnorrPk>,
    sigs: Seq<Option<SchnorrSig>>,
    i: int,
    valid: nat,
) -> Result<nat, E>
    decreases sigs.len() - i,
{
    if i >= sigs.len() {
        Ok(valid)
    } else {
        match sigs[i] {
            None => tally_from(backend, msg, pks, sigs, i + 1, valid),
            Some(sig) => match (backend.verify)(msg, pks[i], sig) {
                Ok(verdict) => tally_from(
                    backend,
                    msg,
                    pks,
                    sigs,
                    i + 1,
                    if verdict {
                        valid + 1
                    } else {
                        valid
                    },
                ),
                Err(error) => Err(error),
            },
        }
    }
}

/// The signatures, with the null signature in place of every missing one.
pub open spec fn filled(sigs: Seq<Option<SchnorrSig>>, null_sig: SchnorrSig) -> Seq<
    Option<SchnorrSig>,
> {
    sigs.map_values(
        |sig: Option<SchnorrSig>|
            match sig {
                Some(given) => Some(given),
                None => Some(null_sig),
            },
    )
}

/// The circuit input that belongs to a count of valid signatures, a pair of
/// public inputs and the block hashes.
pub open spec fn circuit_input_value(
    arguments: ProofArguments,
    mr_bt: FieldElement,
    valid: nat,
    inputs: (FieldElement, FieldElement),
    end: FieldElement,
    prev: FieldElement,
) -> CircuitInputValue {
    CircuitInputValue {
        pks: arguments.pks,
        sigs: filled(arguments.sigs, arguments.null_sig),
        threshold: field_from_u64(arguments.threshold),
        b: field_from_u64((valid - arguments.threshold) as u64),
        end_epoch_mc_b_hash: end,
        prev_end_epoch_mc_b_hash: prev,
        mr_bt,
        pks_threshold_hash: inputs.1,
        wcert_sysdata_hash: inputs.0,
        max_pks: arguments.pks.len(),
    }
}

/// The circuit input, once all but the hash of the earlier block is there.
pub open spec fn prepared_after_end<E>(
    backend: Backend<E>,
    arguments: ProofArguments,
    mr_bt: FieldElement,
    valid: nat,
    inputs: (FieldElement, FieldElement),
    end: FieldElement,
) -> Result<PreparationValue, E> {
    match (backend.read)(padded(arguments.prev_end_epoch_mc_b_hash)) {
        Ok(prev) => Ok(
            PreparationValue::Ready(
                circuit_input_value(arguments, mr_bt, valid, inputs, end, prev),
            ),
        ),
        Err(error) => Err(error),
    }
}

/// The circuit input, once all but the block hashes is there.
pub open spec fn prepared_after_inputs<E>(
    backend: Backend<E>,
    arguments: ProofArguments,
    mr_bt: FieldElement,
    valid: nat,
    inputs: (FieldElement, FieldElement),
) -> Result<PreparationValue, E> {
    match (backend.read)(padded(arguments.end_epoch_mc_b_hash)) {
        Ok(end) => prepared_after_end(backend, arguments, mr_bt, valid, inputs, end),
        Err(error) => Err(error),
    }
}

/// What the preparation leads to, once the valid signatures are counted.
pub open spec fn prepared_after_tally<E>(
    backend: Backend<E>,
    arguments: ProofArguments,
    mr_bt: FieldElement,
    msg: FieldElement,
    valid: nat,
) -> Result<PreparationValue, E> {
    if valid < arguments.threshold {
        Ok(PreparationValue::BelowThreshold { valid_sigs: valid })
    } else {
        match inputs_for_msg(backend, msg, valid as u64, arguments.pks, arguments.threshold) {
            Ok(inputs) => prepared_after_inputs(backend, arguments, mr_bt, valid, inputs),
            Err(error) => Err(error),
        }
    }
}

/// What the preparation leads to, once the message is known and the signatures
/// before the `i`-th are counted.
pub open spec fn prepared_after_msg<E>(
    backend: Backend<E>,
    arguments: ProofArguments,
    mr_bt: FieldElement,
    msg: FieldElement,
    i: int,
    valid: nat,
) -> Result<PreparationValue, E> {
    match tally_from(backend, msg, arguments.pks, arguments.sigs, i, valid) {
        Ok(total) => prepared_after_tally(backend, arguments, mr_bt, msg, total),
        Err(error) => Err(error),
    }
}

/// What the preparation of a proof leads to.
///
/// The message is computed, the signatures on it are checked and counted, and
/// the public inputs are computed for that count. The first failure is the
/// failure of the whole.
pub open spec fn prepared<E>(
    backend: Backend<E>,
    arguments: ProofArguments,
    bt_list: Seq<BackwardTransfer>,
) -> Result<PreparationValue, E> {
    match msg_to_sign(
        backend,
        arguments.end_epoch_mc_b_hash,
        arguments.prev_end_epoch_mc_b_hash,
        bt_list,
    ) {
        Ok((mr_bt, msg)) => prepared_after_msg(backend, arguments, mr_bt, msg, 0, 0),
        Err(error) => Err(error),
    }
}

/// How far the preparation of a proof has come.
#[derive(Debug, PartialEq, Eq)]
pub enum ProofStage<'a> {
    /// Computing the message.
    Msg(MsgToSign<'a>),
    /// Checking the `i`-th signature, after `valid` valid ones.
    Verify { mr_bt: FieldElement, msg: FieldElement, i: usize, valid: u64 },
    /// Computing the public inputs.
    Inputs { mr_bt: FieldElement, valid: u64, computation: PublicInputs<'a> },
    /// Reading the hash of the last block of this epoch.
    ReadEnd { mr_bt: FieldElement, valid: u64, inputs: (FieldElement, FieldElement) },
    /// Reading the hash of the last block of the epoch before.
    ReadPrev {
        mr_bt: FieldElement,
        valid: u64,
        inputs: (FieldElement, FieldElement),
        end: FieldElement,
    },
}

/// What a proof is made from, apart from the transfers.
#[derive(Debug, PartialEq, Eq)]
pub struct ProofData<'a> {
    pub pks: &'a [SchnorrPk],
    pub sigs: Vec<Option<SchnorrSig>>,
    pub end_epoch_mc_b_hash: &'a [u8; 32],
    pub prev_end_epoch_mc_b_hash: &'a [u8; 32],
    pub threshold: u64,
    pub null_sig: SchnorrSig,
}

impl<'a> View for ProofData<'a> {
    type V = ProofArguments;

    open spec fn view(&self) -> ProofArguments {
        ProofArguments {
            pks: self.pks@,
            sigs: self.sigs@,
            end_epoch_mc_b_hash: self.end_epoch_mc_b_hash@,
            prev_end_epoch_mc_b_hash: self.prev_end_epoch_mc_b_hash@,
            threshold: self.threshold,
            null_sig: self.null_sig,
        }
    }
}

/// The preparation of a threshold-signature proof.
#[derive(Debug, PartialEq, Eq)]
pub struct NaiveThresholdSigProof<'a> {
    pub data: ProofData<'a>,
    pub stage: ProofStage<'a>,
}

impl<'a> NaiveThresholdSigProof<'a> {
    /// The computation is at the start, with these arguments.
    pub open spec fn starts(
        self,
        arguments: ProofArguments,
        bt_list: Seq<BackwardTransfer>,
    ) -> bool {
        &&& self.data@ == arguments
        &&& self.stage matches ProofStage::Msg(msg) && msg.starts(
            arguments.end_epoch_mc_b_hash,
            arguments.prev_end_epoch_mc_b_hash,
            bt_list,
        )
    }
}

/// Starts the preparation of a threshold-signature proof: there is one signature
/// or none for each key, and `null_sig` stands in for the missing ones.
pub fn create_naive_threshold_sig_proof<'a>(
    pks: &'a [SchnorrPk],
    sigs: Vec<Option<SchnorrSig>>,
    end_epoch_mc_b_hash: &'a [u8; 32],
    prev_end_epoch_mc_b_hash: &'a [u8; 32],
    bt_list: &'a [BackwardTransfer],
    threshold: u64,
    null_sig: SchnorrSig,
) -> (computation: NaiveThresholdSigProof<'a>)
    requires
        sigs@.len() == pks@.len(),
    ensures
        computation.valid(),
        computation.starts(
            (ProofArguments {
                pks: pks@,
                sigs: sigs@,
                end_epoch_mc_b_hash: end_epoch_mc_b_hash@,
                prev_end_epoch_mc_b_hash: prev_end_epoch_mc_b_hash@,
                threshold,
                null_sig,
            }),
            bt_list@,
        ),
        computation.data.pks == pks,
        computation.data.sigs == sigs,
        computation.data.end_epoch_mc_b_hash == end_epoch_mc_b_hash,
        computation.data.prev_end_epoch_mc_b_hash == prev_end_epoch_mc_b_hash,
        computation.data.threshold == threshold,
        computation.data.null_sig == null_sig,
        computation.stage matches ProofStage::Msg(msg) && msg.end_epoch_mc_b_hash
            == end_epoch_mc_b_hash && msg.prev_end_epoch_mc_b_hash == prev_end_epoch_mc_b_hash
            && msg.bt_list == bt_list && msg.stage is ReadEnd,
{
    let msg = compute_msg_to_sign(end_epoch_mc_b_hash, prev_end_epoch_mc_b_hash, bt_list);
    let data = ProofData {
        pks,
        sigs,
        end_epoch_mc_b_hash,
        prev_end_epoch_mc_b_hash,
        threshold,
        null_sig,
    };
    NaiveThresholdSigProof { data, stage: ProofStage::Msg(msg) }
}

/// The computation that [`create_naive_threshold_sig_proof`] starts leads to
/// what the preparation of the proof leads to.
pub proof fn law_proof_computation<E>(
    computation: NaiveThresholdSigProof,
    arguments: ProofArguments,
    bt_list: Seq<BackwardTransfer>,
    backend: Backend<E>,
)
    requires
        computation.starts(arguments, bt_list),
    ensures
        computation.outcome(backend) == prepared(backend, arguments, bt_list),
{
}

/// The position of the first signature that is there, from the `i`-th on, or the
/// number of signatures.
pub open spec fn first_given(sigs: Seq<Option<SchnorrSig>>, i: int) -> int
    decreases sigs.len() - i,
{
    if i >= sigs.len() {
        sigs.len() as int
    } else if sigs[i] is Some {
        i
    } else {
        first_given(sigs, i + 1)
    }
}

/// Finds the first signature that is there, from the `i`-th on.
fn next_signature(sigs: &Vec<Option<SchnorrSig>>, i: usize) -> (j: usize)
    requires
        i <= sigs@.len(),
    ensures
        j == first_given(sigs@, i as int),
        i <= j <= sigs@.len(),
        forall|k: int| i <= k < j ==> #[trigger] sigs@[k] is None,
        j < sigs@.len() ==> sigs@[j as int] is Some,
{
    let mut j: usize = i;
    while j < sigs.len() && sigs[j].is_none()
        invariant
            i <= j <= sigs@.len(),
            first_given(sigs@, i as int) == first_given(sigs@, j as int),
            forall|k: int| i <= k < j ==> #[trigger] sigs@[k] is None,
        decreases sigs.len() - j,
    {
        j = j + 1;
    }
    j
}

/// Passing over missing signatures does not change the count.
proof fn lemma_tally_skips_missing<E>(
    backend: Backend<E>,
    msg: FieldElement,
    pks: Seq<SchnorrPk>,
    sigs: Seq<Option<SchnorrSig>>,
    i: int,
    j: int,
    valid: nat,
)
    requires
        i <= j <= sigs.len(),
        forall|k: int| i <= k < j ==> #[trigger] sigs[k] is None,
        0 <= i,
    ensures
        tally_from(backend, msg, pks, sigs, i, valid) == tally_from(
            backend,
            msg,
            pks,
            sigs,
            j,
            valid,
        ),
    decreases j - i,
{
    if i < j {
        assert(sigs[i] is None);
        lemma_tally_skips_missing(backend, msg, pks, sigs, i + 1, j, valid);
    }
}

/// Puts the null signature in place of every missing one.
fn fill_missing(sigs: &Vec<Option<SchnorrSig>>, null_sig: SchnorrSig) -> (result: Vec<
    Option<SchnorrSig>,
>)
    ensures
        result@ == filled(sigs@, null_sig),
        result@.len() == sigs@.len(),
        forall|i: int|
            0 <= i < sigs@.len() ==> #[trigger] result@[i] == (if sigs@[i] is Some {
                sigs@[i]
            } else {
                Some(null_sig)
            }),
{
    let mut result: Vec<Option<SchnorrSig>> = Vec::new();
    let mut i: usize = 0;
    while i < sigs.len()
        invariant
            i <= sigs@.len(),
            result@ == filled(sigs@.take(i as int), null_sig),
        decreases sigs.len() - i,
    {
        match sigs[i] {
            Some(sig) => result.push(Some(sig)),
            None => result.push(Some(null_sig)),
        }
        i = i + 1;
        assert(result@ =~= filled(sigs@.take(i as int), null_sig));
    }
    assert(sigs@.take(i as int) =~= sigs@);
    result
}

/// The count of valid signatures after one more verdict.
pub open spec fn counted(valid: u64, verdict: bool) -> u64 {
    if verdict {
        (valid + 1) as u64
    } else {
        valid
    }
}

impl<'a> ProofData<'a> {
    /// Where the preparation stands when the signatures before the `i`-th are
    /// counted: at the next signature that is there, below the threshold, or at
    /// the public inputs.
    pub open spec fn settles<E>(
        self,
        mr_bt: FieldElement,
        msg: FieldElement,
        i: int,
        valid: u64,
        step: Step<NaiveThresholdSigProof<'a>, Preparation<'a>, E>,
    ) -> bool {
        let j = first_given(self.sigs@, i);
        if j < self.sigs@.len() {
            step matches Step::Pending(next) && next.data == self && next.stage == (
            ProofStage::Verify { mr_bt, msg, i: j as usize, valid })
        } else if valid < self.threshold {
            step matches Step::Done(output) && output == (Preparation::BelowThreshold {
                valid_sigs: valid,
            })
        } else {
            step matches Step::Pending(next) && next.data == self && (next.stage matches ProofStage::Inputs {
                mr_bt: root,
                valid: count,
                computation,
            } && root == mr_bt && count == valid && computation.starts_from_msg(
                self.pks@,
                self.threshold,
                msg,
                valid,
            ))
        }
    }

    /// Goes on to the next signature that is there, from the `i`-th on. After
    /// the last one the count is compared with the threshold.
    fn after_signature<E>(
        self,
        mr_bt: FieldElement,
        msg: FieldElement,
        i: usize,
        valid: u64,
    ) -> (step: Step<NaiveThresholdSigProof<'a>, Preparation<'a>, E>)
        requires
            self.pks@.len() == self.sigs@.len(),
            i <= self.sigs@.len(),
            valid <= i,
        ensures
            !(step is Failed),
            self.settles(mr_bt, msg, i as int, valid, step),
            step matches Step::Pending(next) ==> next.valid() && next.remaining()
                <= self.sigs@.len() - i + 5,
            forall|backend: Backend<E>|
                #![trigger prepared_after_msg(backend, self@, mr_bt, msg, i as int, valid as nat)]
                prepared_after_msg(backend, self@, mr_bt, msg, i as int, valid as nat)
                    == (match step {
                    Step::Pending(next) => next.outcome(backend),
                    Step::Done(output) => Ok(output@),
                    Step::Failed(error) => Err(error),
                }),
    {
        let j: usize = next_signature(&self.sigs, i);
        assert forall|backend: Backend<E>|
            #![trigger prepared_after_msg(backend, self@, mr_bt, msg, i as int, valid as nat)]
            prepared_after_msg(backend, self@, mr_bt, msg, i as int, valid as nat)
                == prepared_after_msg(
                backend,
                self@,
                mr_bt,
                msg,
                j as int,
                valid as nat,
            ) by {
            lemma_tally_skips_missing(
                backend,
                msg,
                self.pks@,
                self.sigs@,
                i as int,
                j as int,
                valid as nat,
            );
        }
        if j < self.sigs.len() {
            return Step::Pending(
                NaiveThresholdSigProof {
                    data: self,
                    stage: ProofStage::Verify { mr_bt, msg, i: j, valid },
                },
            );
        }
        if valid < self.threshold {
            return Step::Done(Preparation::BelowThreshold { valid_sigs: valid });
        }
        let computation = public_inputs_for_msg(self.pks, self.threshold, &msg, valid);
        Step::Pending(
            NaiveThresholdSigProof {
                data: self,
                stage: ProofStage::Inputs { mr_bt, valid, computation },
            },
        )
    }

    /// Counts the verdict on the `i`-th signature and goes on to the next one.
    fn after_verdict<E>(
        self,
        mr_bt: FieldElement,
        msg: FieldElement,
        i: usize,
        valid: u64,
        verdict: bool,
    ) -> (step: Step<NaiveThresholdSigProof<'a>, Preparation<'a>, E>)
        requires
            self.pks@.len() == self.sigs@.len(),
            i < self.sigs@.len(),
            self.sigs@[i as int] is Some,
            valid <= i,
        ensures
            !(step is Failed),
            self.settles(mr_bt, msg, i + 1, counted(valid, verdict), step),
            step matches Step::Pending(next) ==> next.valid() && next.remaining()
                < self.sigs@.len() - i + 5,
            forall|backend: Backend<E>|
                #![trigger prepared_after_msg(backend, self@, mr_bt, msg, i as int, valid as nat)]
                (backend.verify)(msg, self.pks@[i as int], self.sigs@[i as int]->0) == Ok::<bool, E>(
                    verdict,
                ) ==> prepared_after_msg(backend, self@, mr_bt, msg, i as int, valid as nat) == (
                match step {
                    Step::Pending(next) => next.outcome(backend),
                    Step::Done(output) => Ok(output@),
                    Step::Failed(error) => Err(error),
                }),
    {
        assert(i < self.sigs.len());
        let total: u64 = if verdict {
            valid + 1
        } else {
            valid
        };
        assert forall|backend: Backend<E>|
            #![trigger prepared_after_msg(backend, self@, mr_bt, msg, i as int, valid as nat)]
            (backend.verify)(msg, self.pks@[i as int], self.sigs@[i as int]->0) == Ok::<bool, E>(
                verdict,
            ) implies prepared_after_msg(backend, self@, mr_bt, msg, i as int, valid as nat)
            == prepared_after_msg(
            backend,
            self@,
            mr_bt,
            msg,
            (i + 1) as int,
            total as nat,
        ) by {}
        self.after_signature(mr_bt, msg, i + 1, total)
    }

    /// Puts the circuit input together.
    fn circuit_input(
        self,
        mr_bt: FieldElement,
        valid: u64,
        inputs: (FieldElement, FieldElement),
        end: FieldElement,
        prev: FieldElement,
    ) -> (input: CircuitInput<'a>)
        requires
            self.threshold <= valid,
        ensures
            input@ == circuit_input_value(self@, mr_bt, valid as nat, inputs, end, prev),
    {
        let sigs = fill_missing(&self.sigs, self.null_sig);
        CircuitInput {
            pks: self.pks,
            sigs,
            threshold: read_field_element_from_u64(self.threshold),
            b: read_field_element_from_u64(valid - self.threshold),
            end_epoch_mc_b_hash: end,
            prev_end_epoch_mc_b_hash: prev,
            mr_bt,
            pks_threshold_hash: inputs.1,
            wcert_sysdata_hash: inputs.0,
            max_pks: self.pks.len(),
        }
    }
}

impl<'a> Waiting for NaiveThresholdSigProof<'a> {
    type Output = Preparation<'a>;

    type Value = PreparationValue;

    open spec fn valid(self) -> bool {
        &&& self.data.pks@.len() == self.data.sigs@.len()
        &&& match self.stage {
            ProofStage::Msg(computation) => computation.valid(),
            ProofStage::Verify { i, valid, .. } => i < self.data.sigs@.len() && self.data.sigs@[i as int] is Some
                && valid <= i,
            ProofStage::Inputs { valid, computation, .. } => computation.valid() && self.data.threshold
                <= valid,
            ProofStage::ReadEnd { valid, .. } => self.data.threshold <= valid,
            ProofStage::ReadPrev { valid, .. } => self.data.threshold <= valid,
        }
    }

    open spec fn request(self) -> Request {
        match self.stage {
            ProofStage::Msg(computation) => computation.request(),
            ProofStage::Verify { msg, i, .. } => Request::Verify(
                msg,
                self.data.pks@[i as int],
                self.data.sigs@[i as int]->0,
            ),
            ProofStage::Inputs { computation, .. } => computation.request(),
            ProofStage::ReadEnd { .. } => Request::Read(padded(self.data.end_epoch_mc_b_hash@)),
            ProofStage::ReadPrev { .. } => Request::Read(padded(self.data.prev_end_epoch_mc_b_hash@)),
        }
    }

    open spec fn remaining(self) -> nat {
        match self.stage {
            ProofStage::Msg(computation) => computation.remaining() + self.data.sigs@.len() + 5,
            ProofStage::Verify { i, .. } => (self.data.sigs@.len() - i + 5) as nat,
            ProofStage::Inputs { computation, .. } => computation.remaining() + 2,
            ProofStage::ReadEnd { .. } => 2,
            ProofStage::ReadPrev { .. } => 1,
        }
    }

    open spec fn value_of(output: Preparation<'a>) -> PreparationValue {
        output@
    }

    fn call(&self) -> (call: Call) {
        match &self.stage {
            ProofStage::Msg(computation) => computation.call(),
            ProofStage::Verify { msg, i, .. } => Call::VerifySignature(
                *msg,
                self.data.pks[*i],
                self.data.sigs[*i].unwrap(),
            ),
            ProofStage::Inputs { computation, .. } => computation.call(),
            ProofStage::ReadEnd { .. } => Call::ReadFieldElement(
                pad_to_field_size(self.data.end_epoch_mc_b_hash),
            ),
            ProofStage::ReadPrev { .. } => Call::ReadFieldElement(
                pad_to_field_size(self.data.prev_end_epoch_mc_b_hash),
            ),
        }
    }
}

impl<'a, E> Computation<E> for NaiveThresholdSigProof<'a> {
    open spec fn outcome(self, backend: Backend<E>) -> Result<PreparationValue, E> {
        match self.stage {
            ProofStage::Msg(computation) => match computation.outcome(backend) {
                Ok((mr_bt, msg)) => prepared_after_msg(backend, self.data@, mr_bt, msg, 0, 0),
                Err(error) => Err(error),
            },
            ProofStage::Verify { mr_bt, msg, i, valid } => prepared_after_msg(
                backend,
                self.data@,
                mr_bt,
                msg,
                i as int,
                valid as nat,
            ),
            ProofStage::Inputs { mr_bt, valid, computation } => match computation.outcome(backend) {
                Ok(inputs) => prepared_after_inputs(
                    backend,
                    self.data@,
                    mr_bt,
                    valid as nat,
                    inputs,
                ),
                Err(error) => Err(error),
            },
            ProofStage::ReadEnd { mr_bt, valid, inputs } => prepared_after_inputs(
                backend,
                self.data@,
                mr_bt,
                valid as nat,
                inputs,
            ),
            ProofStage::ReadPrev { mr_bt, valid, inputs, end } => prepared_after_end(
                backend,
                self.data@,
                mr_bt,
                valid as nat,
                inputs,
                end,
            ),
        }
    }

    open spec fn advances(self, reply: Reply<E>, step: Step<Self, Preparation<'a>, E>) -> bool {
        match self.stage {
            ProofStage::Msg(computation) => exists|inner: Step<
                MsgToSign<'a>,
                (FieldElement, FieldElement),
                E,
            >|
                {
                    &&& #[trigger] computation.advances(reply, inner)
                    &&& match inner {
                        Step::Pending(next) => step == Step::<Self, Preparation<'a>, E>::Pending(
                            NaiveThresholdSigProof { stage: ProofStage::Msg(next), ..self },
                        ),
                        Step::Done((mr_bt, msg)) => self.data.settles(mr_bt, msg, 0, 0, step),
                        Step::Failed(_) => false,
                    }
                },
            ProofStage::Verify { mr_bt, msg, i, valid } => reply matches Reply::Verdict(verdict)
                ==> self.data.settles(mr_bt, msg, i + 1, counted(valid, verdict), step),
            ProofStage::Inputs { mr_bt, valid, computation } => exists|
                inner: Step<PublicInputs<'a>, (FieldElement, FieldElement), E>,
            |
                {
                    &&& #[trigger] computation.advances(reply, inner)
                    &&& match inner {
                        Step::Pending(next) => step == Step::<Self, Preparation<'a>, E>::Pending(
                            NaiveThresholdSigProof {
                                stage: ProofStage::Inputs { mr_bt, valid, computation: next },
                                ..self
                            },
                        ),
                        Step::Done(inputs) => step == Step::<Self, Preparation<'a>, E>::Pending(
                            NaiveThresholdSigProof {
                                stage: ProofStage::ReadEnd { mr_bt, valid, inputs },
                                ..self
                            },
                        ),
                        Step::Failed(_) => false,
                    }
                },
            ProofStage::ReadEnd { mr_bt, valid, inputs } => reply matches Reply::Element(end)
                ==> step == Step::<Self, Preparation<'a>, E>::Pending(
                NaiveThresholdSigProof {
                    stage: ProofStage::ReadPrev { mr_bt, valid, inputs, end },
                    ..self
                },
            ),
            ProofStage::ReadPrev { mr_bt, valid, inputs, end } => reply matches Reply::Element(prev)
                ==> (step matches Step::Done(output) && output@ == PreparationValue::Ready(
                circuit_input_value(self.data@, mr_bt, valid as nat, inputs, end, prev),
            )),
        }
    }

    fn resume(self, reply: Reply<E>) -> (step: Step<Self, Preparation<'a>, E>) {
        let NaiveThresholdSigProof { data, stage } = self;
        match stage {
            ProofStage::Msg(computation) => match computation.resume(reply) {
                Step::Pending(computation) => Step::Pending(
                    NaiveThresholdSigProof { data, stage: ProofStage::Msg(computation) },
                ),
                Step::Done((mr_bt, msg)) => data.after_signature(mr_bt, msg, 0, 0),
                Step::Failed(error) => Step::Failed(error),
            },
            ProofStage::Verify { mr_bt, msg, i, valid } => match reply {
                Reply::Verdict(verdict) => data.after_verdict(mr_bt, msg, i, valid, verdict),
                Reply::Element(_) => Step::Pending(
                    NaiveThresholdSigProof {
                        data,
                        stage: ProofStage::Verify { mr_bt, msg, i, valid },
                    },
                ),
                Reply::Failed(error) => Step::Failed(error),
            },
            ProofStage::Inputs { mr_bt, valid, computation } => match computation.resume(reply) {
                Step::Pending(computation) => Step::Pending(
                    NaiveThresholdSigProof {
                        data,
                        stage: ProofStage::Inputs { mr_bt, valid, computation },
                    },
                ),
                Step::Done(inputs) => Step::Pending(
                    NaiveThresholdSigProof {
                        data,
                        stage: ProofStage::ReadEnd { mr_bt, valid, inputs },
                    },
                ),
                Step::Failed(error) => Step::Failed(error),
            },
            ProofStage::ReadEnd { mr_bt, valid, inputs } => match reply {
                Reply::Element(end) => Step::Pending(
                    NaiveThresholdSigProof {
                        data,
                        stage: ProofStage::ReadPrev { mr_bt, valid, inputs, end },
                    },
                ),
                Reply::Verdict(_) => Step::Pending(
                    NaiveThresholdSigProof {
                        data,
                        stage: ProofStage::ReadEnd { mr_bt, valid, inputs },
                    },
                ),
                Reply::Failed(error) => Step::Failed(error),
            },
            ProofStage::ReadPrev { mr_bt, valid, inputs, end } => match reply {
                Reply::Element(prev) => Step::Done(
                    Preparation::Ready(data.circuit_input(mr_bt, valid, inputs, end, prev)),
                ),
                Reply::Verdict(_) => Step::Pending(
                    NaiveThresholdSigProof {
                        data,
                        stage: ProofStage::ReadPrev { mr_bt, valid, inputs, end },
                    },
                ),
                Reply::Failed(error) => Step::Failed(error),
            },
        }
    }
}

} // verus!
