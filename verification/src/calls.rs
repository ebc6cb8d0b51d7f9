//! Computations that alternate between this library and a cryptographic back end.
//!
//! Hashing, Merkle trees, curve arithmetic and the decoding of field elements
//! are done by a back end outside this library. A computation of this library
//! never calls it. It names the next [`Call`] to make, and continues when it is
//! resumed with the [`Reply`].

use crate::field::FieldElement;
use crate::schnorr::{SchnorrPk, SchnorrSig};
use vstd::prelude::*;

verus! {

/// One piece of work for the back end.
#[derive(Debug, PartialEq, Eq)]
pub enum Call {
    /// Decode a field element from these bytes.
    ReadFieldElement(Vec<u8>),
    /// Compute the Poseidon hash of these elements.
    PoseidonHash(Vec<FieldElement>),
    /// Build the Merkle tree with these leaves and take its root.
    MerkleRoot(Vec<FieldElement>),
    /// Check a Schnorr signature on a message of one element.
    VerifySignature(FieldElement, SchnorrPk, SchnorrSig),
}

/// What the back end gives back.
#[derive(Debug, PartialEq, Eq)]
pub enum Reply<E> {
    /// The element that was read, the hash, or the root.
    Element(FieldElement),
    /// Whether the signature is valid.
    Verdict(bool),
    /// The work failed.
    Failed(E),
}

/// The mathematical content of a [`Call`].
pub enum Request {
    Read(Seq<u8>),
    Hash(Seq<FieldElement>),
    Root(Seq<FieldElement>),
    Verify(FieldElement, SchnorrPk, SchnorrSig),
}

impl View for Call {
    type V = Request;

    open spec fn view(&self) -> Request {
        match *self {
            Call::ReadFieldElement(bytes) => Request::Read(bytes@),
            Call::PoseidonHash(input) => Request::Hash(input@),
            Call::MerkleRoot(leaves) => Request::Root(leaves@),
            Call::VerifySignature(msg, pk, sig) => Request::Verify(msg, pk, sig),
        }
    }
}

impl Request {
    /// Whether a reply is of the sort that this request asks for. A failure always is.
    pub open spec fn accepts<E>(self, reply: Reply<E>) -> bool {
        match reply {
            Reply::Element(_) => !(self is Verify),
            Reply::Verdict(_) => self is Verify,
            Reply::Failed(_) => true,
        }
    }
}

/// A back end as a mathematical object: what each piece of work gives.
///
/// Contracts quantify over every back end, so they hold whatever the hash, the
/// tree, the signature scheme and the decoder are.
pub struct Backend<E> {
    pub read: spec_fn(Seq<u8>) -> Result<FieldElement, E>,
    pub hash: spec_fn(Seq<FieldElement>) -> Result<FieldElement, E>,
    pub root: spec_fn(Seq<FieldElement>) -> Result<FieldElement, E>,
    pub verify: spec_fn(FieldElement, SchnorrPk, SchnorrSig) -> Result<bool, E>,
}

/// The reply that carries a result of work that gives an element.
pub open spec fn element_reply<E>(result: Result<FieldElement, E>) -> Reply<E> {
    match result {
        Ok(element) => Reply::Element(element),
        Err(error) => Reply::Failed(error),
    }
}

/// The reply that carries a result of work that gives a verdict.
pub open spec fn verdict_reply<E>(result: Result<bool, E>) -> Reply<E> {
    match result {
        Ok(verdict) => Reply::Verdict(verdict),
        Err(error) => Reply::Failed(error),
    }
}

impl<E> Backend<E> {
    /// The reply of this back end to a request.
    pub open spec fn reply(self, request: Request) -> Reply<E> {
        match request {
            Request::Read(bytes) => element_reply((self.read)(bytes)),
            Request::Hash(input) => element_reply((self.hash)(input)),
            Request::Root(leaves) => element_reply((self.root)(leaves)),
            Request::Verify(msg, pk, sig) => verdict_reply((self.verify)(msg, pk, sig)),
        }
    }
}

/// A call is seen as what it asks for, with the bytes, elements, key and signature
/// that it carries, all of them and in order.
pub proof fn law_call_content(call: Call)
    ensures
        call matches Call::ReadFieldElement(bytes) ==> call@ == Request::Read(bytes@),
        call matches Call::PoseidonHash(input) ==> call@ == Request::Hash(input@),
        call matches Call::MerkleRoot(leaves) ==> call@ == Request::Root(leaves@),
        call matches Call::VerifySignature(msg, pk, sig) ==> call@ == Request::Verify(msg, pk, sig),
{
}

/// A back end replies with what its decoder, hash, tree or signature check gives
/// for the content of the request.
pub proof fn law_backend_replies<E>(backend: Backend<E>, request: Request)
    ensures
        request matches Request::Read(bytes) ==> match (backend.read)(bytes) {
            Ok(element) => backend.reply(request) == Reply::<E>::Element(element),
            Err(error) => backend.reply(request) == Reply::<E>::Failed(error),
        },
        request matches Request::Hash(input) ==> match (backend.hash)(input) {
            Ok(element) => backend.reply(request) == Reply::<E>::Element(element),
            Err(error) => backend.reply(request) == Reply::<E>::Failed(error),
        },
        request matches Request::Root(leaves) ==> match (backend.root)(leaves) {
            Ok(element) => backend.reply(request) == Reply::<E>::Element(element),
            Err(error) => backend.reply(request) == Reply::<E>::Failed(error),
        },
        request matches Request::Verify(msg, pk, sig) ==> match (backend.verify)(msg, pk, sig) {
            Ok(verdict) => backend.reply(request) == Reply::<E>::Verdict(verdict),
            Err(error) => backend.reply(request) == Reply::<E>::Failed(error),
        },
{
}

/// Reads, hashes and roots are answered by elements, signature checks by
/// verdicts, and everything may be answered by a failure. So every reply of a
/// back end is of the sort that was asked for.
pub proof fn law_accepted_replies<E>(
    backend: Backend<E>,
    request: Request,
    element: FieldElement,
    verdict: bool,
    error: E,
)
    ensures
        request.accepts(Reply::<E>::Element(element)) <==> (request is Read || request is Hash
            || request is Root),
        request.accepts(Reply::<E>::Verdict(verdict)) <==> request is Verify,
        request.accepts(Reply::<E>::Failed(error)),
        request.accepts(backend.reply(request)),
{
}

/// Where a computation stands after a reply.
#[derive(Debug, PartialEq, Eq)]
pub enum Step<C, T, E> {
    /// More work is needed.
    Pending(C),
    /// The computation has its result.
    Done(T),
    /// The back end failed, and the computation with it.
    Failed(E),
}

/// A computation that is waiting for the back end.
pub trait Waiting: Sized {
    /// What the computation produces.
    type Output;

    /// The mathematical content of the output.
    type Value;

    /// The state is one that the computation can be in.
    spec fn valid(self) -> bool;

    /// The work that the computation is waiting for.
    spec fn request(self) -> Request;

    /// A measure of the work that is left. It goes down with every reply.
    spec fn remaining(self) -> nat;

    /// The mathematical content of an output.
    spec fn value_of(output: Self::Output) -> Self::Value;

    /// The work that the computation is waiting for.
    fn call(&self) -> (call: Call)
        requires
            self.valid(),
        ensures
            call@ == self.request(),
    ;
}

/// A computation that goes on when the back end replies, `E` being the errors of the back end.
pub trait Computation<E>: Waiting {
    /// What comes of the computation when this back end does the rest of the work.
    spec fn outcome(self, backend: Backend<E>) -> Result<Self::Value, E>;

    /// Where a reply of the right sort, other than a failure, brings the computation.
    spec fn advances(self, reply: Reply<E>, step: Step<Self, Self::Output, E>) -> bool;

    /// Continues with the reply to [`Waiting::call`].
    ///
    /// A reply of the wrong sort leaves the computation as it is. A failure ends
    /// it with the same error, and nothing else makes it fail. Any other reply
    /// brings it nearer to its end, and keeps what comes of it with every back
    /// end that would have given this reply.
    fn resume(self, reply: Reply<E>) -> (step: Step<Self, Self::Output, E>)
        requires
            self.valid(),
        ensures
            !self.request().accepts(reply) ==> step == Step::<Self, Self::Output, E>::Pending(self),
            step matches Step::Pending(next) ==> next.valid() && (self.request().accepts(reply)
                ==> next.remaining() < self.remaining()),
            reply matches Reply::Failed(error) ==> step == Step::<Self, Self::Output, E>::Failed(
                error,
            ),
            step is Failed ==> reply is Failed,
            self.request().accepts(reply) && !(reply is Failed) ==> self.advances(reply, step),
            forall|backend: Backend<E>| #[trigger]
                backend.reply(self.request()) == reply ==> self.outcome(backend) == (match step {
                    Step::Pending(next) => next.outcome(backend),
                    Step::Done(output) => Ok(Self::value_of(output)),
                    Step::Failed(error) => Err(error),
                }),
    ;
}

/// What a result of [`drive`] says about the outcome of the computation.
pub open spec fn result_value<C: Waiting, E>(result: Result<C::Output, E>) -> Result<
    C::Value,
    E,
> {
    match result {
        Ok(output) => Ok(C::value_of(output)),
        Err(error) => Err(error),
    }
}

/// `perform` only ever gives the replies of `backend`.
pub open spec fn behaves_as<E, F: Fn(Call) -> Reply<E>>(perform: F, backend: Backend<E>) -> bool {
    forall|call: Call, reply: Reply<E>| #[trigger]
        perform.ensures((call,), reply) ==> reply == backend.reply(call@)
}

/// A run that gives an output has the content of that output for its outcome, and
/// a run that gives an error has that error.
pub proof fn law_result_value<C: Waiting, E>(output: C::Output, error: E)
    ensures
        result_value::<C, E>(Ok(output)) == Ok::<C::Value, E>(C::value_of(output)),
        result_value::<C, E>(Err(error)) == Err::<C::Value, E>(error),
{
}

/// A function behaves as a back end exactly when each of its replies is the one
/// that the back end gives.
pub proof fn law_behaves_as<E, F: Fn(Call) -> Reply<E>>(perform: F, backend: Backend<E>)
    ensures
        behaves_as(perform, backend) <==> (forall|call: Call, reply: Reply<E>| #[trigger]
            perform.ensures((call,), reply) ==> reply == backend.reply(call@)),
{
}

/// Runs a computation to its end, with `perform` doing the work.
///
/// Whatever back end `perform` behaves as, the result is what comes of the
/// computation with that back end. An error is always one that `perform` gave.
pub fn drive<C: Computation<E>, E, F: Fn(Call) -> Reply<E>>(computation: C, perform: F) -> (result:
    Result<C::Output, E>)
    requires
        computation.valid(),
        forall|call: Call| perform.requires((call,)),
        forall|call: Call, reply: Reply<E>| #[trigger]
            perform.ensures((call,), reply) ==> call@.accepts(reply),
    ensures
        forall|backend: Backend<E>| #[trigger]
            behaves_as(perform, backend) ==> result_value::<C, E>(result) == computation.outcome(
                backend,
            ),
        forall|backend: Backend<E>| #[trigger]
            behaves_as(perform, backend) ==> match result {
                Ok(output) => computation.outcome(backend) == Ok::<C::Value, E>(
                    C::value_of(output),
                ),
                Err(error) => computation.outcome(backend) == Err::<C::Value, E>(error),
            },
        result matches Err(error) ==> exists|call: Call| #[trigger]
            perform.ensures((call,), Reply::Failed(error)),
{
    let mut current: C = computation;
    loop
        invariant
            current.valid(),
            forall|call: Call| perform.requires((call,)),
            forall|call: Call, reply: Reply<E>| #[trigger]
                perform.ensures((call,), reply) ==> call@.accepts(reply),
            forall|backend: Backend<E>| #[trigger]
                behaves_as(perform, backend) ==> current.outcome(backend) == computation.outcome(
                    backend,
                ),
        decreases current.remaining(),
    {
        let ghost before = current;
        let call = current.call();
        let reply = perform(call);
        assert forall|backend: Backend<E>| #[trigger] behaves_as(perform, backend) implies backend.reply(
            before.request(),
        ) == reply by {}
        match current.resume(reply) {
            Step::Pending(next) => {
                current = next;
            },
            Step::Done(output) => {
                return Ok(output);
            },
            Step::Failed(error) => {
                return Err(error);
            },
        }
    }
}

} // verus!
