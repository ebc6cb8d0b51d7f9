//! The computation of a single call that gives an element.

use crate::calls::{Backend, Call, Computation, Reply, Request, Step, Waiting};
use crate::field::FieldElement;
use vstd::prelude::*;

verus! {

/// A computation that makes one call and gives the element that comes back.
#[derive(Debug, PartialEq, Eq)]
pub struct ElementCall {
    pub work: Call,
}

impl ElementCall {
    /// The computation has the back end decode an element from these bytes.
    pub open spec fn reads(self, bytes: Seq<u8>) -> bool {
        self.work@ == Request::Read(bytes)
    }

    /// The computation has the back end hash these elements.
    pub open spec fn hashes(self, input: Seq<FieldElement>) -> bool {
        self.work@ == Request::Hash(input)
    }
}

/// What a back end gives for a request whose reply is an element.
pub open spec fn element_of<E>(backend: Backend<E>, request: Request) -> Result<FieldElement, E> {
    match request {
        Request::Read(bytes) => (backend.read)(bytes),
        Request::Hash(input) => (backend.hash)(input),
        Request::Root(leaves) => (backend.root)(leaves),
        Request::Verify(..) => arbitrary(),
    }
}

impl Waiting for ElementCall {
    type Output = FieldElement;

    type Value = FieldElement;

    open spec fn valid(self) -> bool {
        !(self.work is VerifySignature)
    }

    open spec fn request(self) -> Request {
        self.work@
    }

    open spec fn remaining(self) -> nat {
        1
    }

    open spec fn value_of(output: FieldElement) -> FieldElement {
        output
    }

    fn call(&self) -> (call: Call) {
        match &self.work {
            Call::ReadFieldElement(bytes) => Call::ReadFieldElement(bytes.clone()),
            Call::PoseidonHash(input) => Call::PoseidonHash(input.clone()),
            Call::MerkleRoot(leaves) => Call::MerkleRoot(leaves.clone()),
            Call::VerifySignature(msg, pk, sig) => Call::VerifySignature(*msg, *pk, *sig),
        }
    }
}

impl<E> Computation<E> for ElementCall {
    open spec fn outcome(self, backend: Backend<E>) -> Result<FieldElement, E> {
        element_of(backend, self.work@)
    }

    open spec fn advances(self, reply: Reply<E>, step: Step<Self, FieldElement, E>) -> bool {
        reply matches Reply::Element(element) ==> step == Step::<Self, FieldElement, E>::Done(
            element,
        )
    }

    fn resume(self, reply: Reply<E>) -> (step: Step<Self, FieldElement, E>) {
        match reply {
            Reply::Element(element) => Step::Done(element),
            Reply::Verdict(_) => Step::Pending(self),
            Reply::Failed(error) => Step::Failed(error),
        }
    }
}

/// A computation of one call gives what the back end gives for that call.
pub proof fn law_element_call<E>(computation: ElementCall, backend: Backend<E>)
    ensures
        forall|bytes: Seq<u8>| #[trigger]
            computation.reads(bytes) ==> computation.outcome(backend) == (backend.read)(bytes),
        forall|input: Seq<FieldElement>| #[trigger]
            computation.hashes(input) ==> computation.outcome(backend) == (backend.hash)(input),
{
}

/// A computation of one call asks for that call, gives what the back end gives
/// for its content, and hands that element on unchanged.
pub proof fn law_element_outcome<E>(
    computation: ElementCall,
    element: FieldElement,
    step: Step<ElementCall, FieldElement, E>,
    backend: Backend<E>,
)
    ensures
        computation.work matches Call::ReadFieldElement(bytes) ==> computation.request()
            == Request::Read(bytes@) && computation.outcome(backend) == (backend.read)(bytes@),
        computation.work matches Call::PoseidonHash(input) ==> computation.request()
            == Request::Hash(input@) && computation.outcome(backend) == (backend.hash)(input@),
        computation.work matches Call::MerkleRoot(leaves) ==> computation.request()
            == Request::Root(leaves@) && computation.outcome(backend) == (backend.root)(leaves@),
        computation.valid() <==> !(computation.work is VerifySignature),
        ElementCall::value_of(element) == element,
        computation.advances(Reply::<E>::Element(element), step) <==> step == Step::<
            ElementCall,
            FieldElement,
            E,
        >::Done(element),
{
}

/// A computation is said to read bytes, or to hash elements, exactly when that is
/// the call it makes.
pub proof fn law_element_work(computation: ElementCall, bytes: Seq<u8>, input: Seq<FieldElement>)
    ensures
        computation.reads(bytes) <==> (computation.work matches Call::ReadFieldElement(given)
            && given@ == bytes),
        computation.hashes(input) <==> (computation.work matches Call::PoseidonHash(given)
            && given@ == input),
{
}

} // verus!
