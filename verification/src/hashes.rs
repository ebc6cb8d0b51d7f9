//! The hashes that a certificate is checked against.

use crate::calls::{Backend, Call, Computation, Reply, Request, Step, Waiting};
use crate::element::ElementCall;
use crate::field::{field_from_u64, read_field_element_from_u64, FieldElement};
use crate::schnorr::{collect_x_coordinates, x_coordinates, SchnorrPk};
use vstd::prelude::*;

verus! {

/// `H(quality, msg)`, where the quality is the number of valid signatures.
pub open spec fn wcert_sysdata_hash<E>(
    backend: Backend<E>,
    msg: FieldElement,
    valid_sigs: u64,
) -> Result<FieldElement, E> {
    (backend.hash)(seq![field_from_u64(valid_sigs), msg])
}

/// `H(pks_hash, threshold)`.
pub open spec fn hash_with_threshold<E>(
    backend: Backend<E>,
    pks_hash: FieldElement,
    threshold: u64,
) -> Result<FieldElement, E> {
    (backend.hash)(seq![pks_hash, field_from_u64(threshold)])
}

/// `H(H(pks), threshold)`, the constant that a sidechain is declared with. The
/// keys are hashed by their first coordinates, in order.
pub open spec fn pks_threshold_hash<E>(
    backend: Backend<E>,
    pks: Seq<SchnorrPk>,
    threshold: u64,
) -> Result<FieldElement, E> {
    match (backend.hash)(x_coordinates(pks)) {
        Ok(pks_hash) => hash_with_threshold(backend, pks_hash, threshold),
        Err(error) => Err(error),
    }
}

/// Has the back end hash the elements.
pub fn compute_poseidon_hash(input: &[FieldElement]) -> (computation: ElementCall)
    ensures
        computation.valid(),
        computation.hashes(input@),
        computation.work matches Call::PoseidonHash(elements) && elements@ == input@,
{
    let mut copy: Vec<FieldElement> = Vec::new();
    copy.extend_from_slice(input);
    assert(copy@ =~= input@);
    ElementCall { work: Call::PoseidonHash(copy) }
}

/// Starts the computation of the hash of a certificate's quality and message.
pub fn compute_wcert_sysdata_hash(msg: &FieldElement, valid_sigs: u64) -> (computation: ElementCall)
    ensures
        computation.valid(),
        computation.hashes(seq![field_from_u64(valid_sigs), *msg]),
        computation.work matches Call::PoseidonHash(elements) && elements@.len() == 2
            && elements@[0].limbs@[0] == valid_sigs && (forall|i: int|
            1 <= i < 12 ==> #[trigger] elements@[0].limbs@[i] == 0) && elements@[1] == *msg,
{
    let quality = read_field_element_from_u64(valid_sigs);
    let input: [FieldElement; 2] = [quality, *msg];
    assert(input@ =~= seq![quality, *msg]);
    compute_poseidon_hash(&input)
}

/// The computation that [`compute_wcert_sysdata_hash`] starts gives that hash.
pub proof fn law_wcert_computation<E>(
    computation: ElementCall,
    msg: FieldElement,
    valid_sigs: u64,
    backend: Backend<E>,
)
    requires
        computation.hashes(seq![field_from_u64(valid_sigs), msg]),
    ensures
        computation.outcome(backend) == wcert_sysdata_hash(backend, msg, valid_sigs),
{
}

/// How far the computation of the key and threshold hash has come.
#[derive(Debug, PartialEq, Eq)]
pub enum PksStage {
    /// Hashing the keys.
    HashKeys,
    /// Hashing the hash of the keys with the threshold.
    HashThreshold { pks_hash: FieldElement },
}

/// The computation of the hash of keys and threshold.
#[derive(Debug, PartialEq, Eq)]
pub struct PksThresholdHash<'a> {
    pub pks: &'a [SchnorrPk],
    pub threshold: u64,
    pub stage: PksStage,
}

/// Starts the computation of `H(H(pks), threshold)`.
pub fn compute_pks_threshold_hash<'a>(pks: &'a [SchnorrPk], threshold: u64) -> (computation:
    PksThresholdHash<'a>)
    ensures
        computation.valid(),
        computation.starts(pks@, threshold),
        computation.pks == pks,
        computation.threshold == threshold,
        computation.stage is HashKeys,
{
    PksThresholdHash { pks, threshold, stage: PksStage::HashKeys }
}

impl<'a> PksThresholdHash<'a> {
    /// The computation is at the start, with these arguments.
    pub open spec fn starts(self, pks: Seq<SchnorrPk>, threshold: u64) -> bool {
        &&& self.pks@ == pks
        &&& self.threshold == threshold
        &&& self.stage is HashKeys
    }
}

/// The computation that [`compute_pks_threshold_hash`] starts gives that hash.
pub proof fn law_pks_computation<E>(
    computation: PksThresholdHash,
    pks: Seq<SchnorrPk>,
    threshold: u64,
    backend: Backend<E>,
)
    requires
        computation.starts(pks, threshold),
    ensures
        computation.outcome(backend) == pks_threshold_hash(backend, pks, threshold),
{
}

impl<'a> Waiting for PksThresholdHash<'a> {
    type Output = FieldElement;

    type Value = FieldElement;

    open spec fn valid(self) -> bool {
        true
    }

    open spec fn request(self) -> Request {
        match self.stage {
            PksStage::HashKeys => Request::Hash(x_coordinates(self.pks@)),
            PksStage::HashThreshold { pks_hash } => Request::Hash(
                seq![pks_hash, field_from_u64(self.threshold)],
            ),
        }
    }

    open spec fn remaining(self) -> nat {
        match self.stage {
            PksStage::HashKeys => 2,
            PksStage::HashThreshold { .. } => 1,
        }
    }

    open spec fn value_of(output: FieldElement) -> FieldElement {
        output
    }

    fn call(&self) -> (call: Call) {
        match &self.stage {
            PksStage::HashKeys => Call::PoseidonHash(collect_x_coordinates(self.pks)),
            PksStage::HashThreshold { pks_hash } => {
                let threshold = read_field_element_from_u64(self.threshold);
                let input: Vec<FieldElement> = vec![*pks_hash, threshold];
                assert(input@ =~= seq![*pks_hash, threshold]);
                Call::PoseidonHash(input)
            },
        }
    }
}

impl<'a, E> Computation<E> for PksThresholdHash<'a> {
    open spec fn outcome(self, backend: Backend<E>) -> Result<FieldElement, E> {
        match self.stage {
            PksStage::HashKeys => pks_threshold_hash(backend, self.pks@, self.threshold),
            PksStage::HashThreshold { pks_hash } => hash_with_threshold(
                backend,
                pks_hash,
                self.threshold,
            ),
        }
    }

    open spec fn advances(self, reply: Reply<E>, step: Step<Self, FieldElement, E>) -> bool {
        reply matches Reply::Element(element) ==> step == (match self.stage {
            PksStage::HashKeys => Step::<Self, FieldElement, E>::Pending(
                PksThresholdHash { stage: PksStage::HashThreshold { pks_hash: element }, ..self },
            ),
            PksStage::HashThreshold { .. } => Step::<Self, FieldElement, E>::Done(element),
        })
    }

    fn resume(self, reply: Reply<E>) -> (step: Step<Self, FieldElement, E>) {
        let element = match reply {
            Reply::Element(element) => element,
            Reply::Verdict(_) => return Step::Pending(self),
            Reply::Failed(error) => return Step::Failed(error),
        };
        match self.stage {
            PksStage::HashKeys => Step::Pending(
                PksThresholdHash {
                    pks: self.pks,
                    threshold: self.threshold,
                    stage: PksStage::HashThreshold { pks_hash: element },
                },
            ),
            PksStage::HashThreshold { .. } => Step::Done(element),
        }
    }
}

} // verus!
