//! The message that the certificate signers sign.

use crate::buffer::{pad_to_field_size, padded};
use crate::calls::{Backend, Call, Computation, Reply, Request, Step, Waiting};
use crate::field::FieldElement;
use crate::transfer::{encodings, BackwardTransfer};
use vstd::prelude::*;

verus! {

/// Reads the buffers from the `i`-th on, in order, and appends what is read to
/// `elements`. The first failure is the failure of the whole.
pub open spec fn read_from<E>(
    backend: Backend<E>,
    buffers: Seq<Seq<u8>>,
    i: int,
    elements: Seq<FieldElement>,
) -> Result<Seq<FieldElement>, E>
    decreases buffers.len() - i,
{
    if i >= buffers.len() {
        Ok(elements)
    } else {
        match (backend.read)(buffers[i]) {
            Ok(element) => read_from(backend, buffers, i + 1, elements.push(element)),
            Err(error) => Err(error),
        }
    }
}

/// The Merkle root of the leaves and the hash of that root with the block hashes.
pub open spec fn commit<E>(
    backend: Backend<E>,
    end: FieldElement,
    prev: FieldElement,
    leaves: Seq<FieldElement>,
) -> Result<(FieldElement, FieldElement), E> {
    match (backend.root)(leaves) {
        Ok(mr_bt) => commit_root(backend, end, prev, mr_bt),
        Err(error) => Err(error),
    }
}

/// A Merkle root and its hash with the block hashes, the earlier block first.
pub open spec fn commit_root<E>(
    backend: Backend<E>,
    end: FieldElement,
    prev: FieldElement,
    mr_bt: FieldElement,
) -> Result<(FieldElement, FieldElement), E> {
    match (backend.hash)(seq![mr_bt, prev, end]) {
        Ok(msg) => Ok((mr_bt, msg)),
        Err(error) => Err(error),
    }
}

/// The Merkle root of the transfers from the `i`-th on, behind the leaves that
/// are there already, and the message to sign.
pub open spec fn commit_transfers<E>(
    backend: Backend<E>,
    end: FieldElement,
    prev: FieldElement,
    bt_list: Seq<BackwardTransfer>,
    i: int,
    leaves: Seq<FieldElement>,
) -> Result<(FieldElement, FieldElement), E> {
    match read_from(backend, encodings(bt_list), i, leaves) {
        Ok(all) => commit(backend, end, prev, all),
        Err(error) => Err(error),
    }
}

/// The root and the message, once the hash of the last block has been read.
pub open spec fn msg_after_end<E>(
    backend: Backend<E>,
    end: FieldElement,
    prev_end_epoch_mc_b_hash: Seq<u8>,
    bt_list: Seq<BackwardTransfer>,
) -> Result<(FieldElement, FieldElement), E> {
    match (backend.read)(padded(prev_end_epoch_mc_b_hash)) {
        Ok(prev) => commit_transfers(backend, end, prev, bt_list, 0, Seq::empty()),
        Err(error) => Err(error),
    }
}

/// The pair of `MR(bt_list)` and `H(MR(bt_list), H(b[i-1]), H(b[i]))`, where
/// `b[i-1]` and `b[i]` are the last main-chain blocks of two successive epochs.
///
/// The hash of the later block is read first, that of the earlier one next,
/// then the transfers in order. The first failure is the failure of the whole.
pub open spec fn msg_to_sign<E>(
    backend: Backend<E>,
    end_epoch_mc_b_hash: Seq<u8>,
    prev_end_epoch_mc_b_hash: Seq<u8>,
    bt_list: Seq<BackwardTransfer>,
) -> Result<(FieldElement, FieldElement), E> {
    match (backend.read)(padded(end_epoch_mc_b_hash)) {
        Ok(end) => msg_after_end(backend, end, prev_end_epoch_mc_b_hash, bt_list),
        Err(error) => Err(error),
    }
}

/// How far the computation of the message has come.
#[derive(Debug, PartialEq, Eq)]
pub enum MsgStage {
    /// Reading the hash of the last block of this epoch.
    ReadEnd,
    /// Reading the hash of the last block of the epoch before.
    ReadPrev { end: FieldElement },
    /// Reading the transfers, of which `leaves` have been read.
    ReadTransfers { end: FieldElement, prev: FieldElement, leaves: Vec<FieldElement> },
    /// Computing the Merkle root of the transfers.
    Root { end: FieldElement, prev: FieldElement, leaves: Vec<FieldElement> },
    /// Computing the message.
    Hash { end: FieldElement, prev: FieldElement, mr_bt: FieldElement },
}

impl MsgStage {
    /// The transfers are being read, and these elements have been read so far.
    pub open spec fn is_reading(
        self,
        end: FieldElement,
        prev: FieldElement,
        read: Seq<FieldElement>,
    ) -> bool {
        self matches MsgStage::ReadTransfers { end: e, prev: p, leaves } && e == end && p == prev
            && leaves@ == read
    }

    /// The Merkle root of these elements is being computed.
    pub open spec fn is_at_root(
        self,
        end: FieldElement,
        prev: FieldElement,
        all: Seq<FieldElement>,
    ) -> bool {
        self matches MsgStage::Root { end: e, prev: p, leaves } && e == end && p == prev && leaves@
            == all
    }

    /// The element that comes back, with `count` transfers to read, leads to that stage.
    pub open spec fn leads_to(self, element: FieldElement, count: nat, next: MsgStage) -> bool {
        match self {
            MsgStage::ReadEnd => next == MsgStage::ReadPrev { end: element },
            MsgStage::ReadPrev { end } => if count > 0 {
                next.is_reading(end, element, Seq::empty())
            } else {
                next.is_at_root(end, element, Seq::empty())
            },
            MsgStage::ReadTransfers { end, prev, leaves } => if leaves@.len() + 1 < count {
                next.is_reading(end, prev, leaves@.push(element))
            } else {
                next.is_at_root(end, prev, leaves@.push(element))
            },
            MsgStage::Root { end, prev, .. } => next == (MsgStage::Hash { end, prev, mr_bt: element }),
            MsgStage::Hash { .. } => false,
        }
    }
}

/// The computation of the message to sign. It gives the Merkle root of the
/// transfers and the message.
#[derive(Debug, PartialEq, Eq)]
pub struct MsgToSign<'a> {
    pub end_epoch_mc_b_hash: &'a [u8; 32],
    pub prev_end_epoch_mc_b_hash: &'a [u8; 32],
    pub bt_list: &'a [BackwardTransfer],
    pub stage: MsgStage,
}

/// Starts the computation of the message to sign.
pub fn compute_msg_to_sign<'a>(
    end_epoch_mc_b_hash: &'a [u8; 32],
    prev_end_epoch_mc_b_hash: &'a [u8; 32],
    bt_list: &'a [BackwardTransfer],
) -> (computation: MsgToSign<'a>)
    ensures
        computation.valid(),
        computation.starts(end_epoch_mc_b_hash@, prev_end_epoch_mc_b_hash@, bt_list@),
        computation.end_epoch_mc_b_hash == end_epoch_mc_b_hash,
        computation.prev_end_epoch_mc_b_hash == prev_end_epoch_mc_b_hash,
        computation.bt_list == bt_list,
        computation.stage is ReadEnd,
{
    MsgToSign { end_epoch_mc_b_hash, prev_end_epoch_mc_b_hash, bt_list, stage: MsgStage::ReadEnd }
}

impl<'a> MsgToSign<'a> {
    /// The computation is at the start, with these arguments.
    pub open spec fn starts(
        self,
        end_epoch_mc_b_hash: Seq<u8>,
        prev_end_epoch_mc_b_hash: Seq<u8>,
        bt_list: Seq<BackwardTransfer>,
    ) -> bool {
        &&& self.end_epoch_mc_b_hash@ == end_epoch_mc_b_hash
        &&& self.prev_end_epoch_mc_b_hash@ == prev_end_epoch_mc_b_hash
        &&& self.bt_list@ == bt_list
        &&& self.stage is ReadEnd
    }
}

/// The computation that [`compute_msg_to_sign`] starts gives the message to sign.
pub proof fn law_msg_computation<E>(
    computation: MsgToSign,
    end_epoch_mc_b_hash: Seq<u8>,
    prev_end_epoch_mc_b_hash: Seq<u8>,
    bt_list: Seq<BackwardTransfer>,
    backend: Backend<E>,
)
    requires
        computation.starts(end_epoch_mc_b_hash, prev_end_epoch_mc_b_hash, bt_list),
    ensures
        computation.outcome(backend) == msg_to_sign(
            backend,
            end_epoch_mc_b_hash,
            prev_end_epoch_mc_b_hash,
            bt_list,
        ),
{
}

impl<'a> Waiting for MsgToSign<'a> {
    type Output = (FieldElement, FieldElement);

    type Value = (FieldElement, FieldElement);

    open spec fn valid(self) -> bool {
        self.stage matches MsgStage::ReadTransfers { leaves, .. } ==> leaves@.len()
            < self.bt_list@.len()
    }

    open spec fn request(self) -> Request {
        match self.stage {
            MsgStage::ReadEnd => Request::Read(padded(self.end_epoch_mc_b_hash@)),
            MsgStage::ReadPrev { .. } => Request::Read(padded(self.prev_end_epoch_mc_b_hash@)),
            MsgStage::ReadTransfers { leaves, .. } => Request::Read(
                self.bt_list@[leaves@.len() as int].encoding(),
            ),
            MsgStage::Root { leaves, .. } => Request::Root(leaves@),
            MsgStage::Hash { end, prev, mr_bt } => Request::Hash(seq![mr_bt, prev, end]),
        }
    }

    open spec fn remaining(self) -> nat {
        match self.stage {
            MsgStage::ReadEnd => self.bt_list@.len() + 4,
            MsgStage::ReadPrev { .. } => self.bt_list@.len() + 3,
            MsgStage::ReadTransfers { leaves, .. } => (self.bt_list@.len() - leaves@.len()
                + 2) as nat,
            MsgStage::Root { .. } => 2,
            MsgStage::Hash { .. } => 1,
        }
    }

    open spec fn value_of(output: (FieldElement, FieldElement)) -> (FieldElement, FieldElement) {
        output
    }

    fn call(&self) -> (call: Call) {
        match &self.stage {
            MsgStage::ReadEnd => Call::ReadFieldElement(
                pad_to_field_size(self.end_epoch_mc_b_hash),
            ),
            MsgStage::ReadPrev { .. } => Call::ReadFieldElement(
                pad_to_field_size(self.prev_end_epoch_mc_b_hash),
            ),
            MsgStage::ReadTransfers { leaves, .. } => Call::ReadFieldElement(
                self.bt_list[leaves.len()].encode(),
            ),
            MsgStage::Root { leaves, .. } => {
                let copy = leaves.clone();
                assert(copy@ =~= leaves@);
                Call::MerkleRoot(copy)
            },
            MsgStage::Hash { end, prev, mr_bt } => {
                let input: Vec<FieldElement> = vec![*mr_bt, *prev, *end];
                assert(input@ =~= seq![*mr_bt, *prev, *end]);
                Call::PoseidonHash(input)
            },
        }
    }
}

impl<'a, E> Computation<E> for MsgToSign<'a> {
    open spec fn outcome(self, backend: Backend<E>) -> Result<(FieldElement, FieldElement), E> {
        match self.stage {
            MsgStage::ReadEnd => msg_to_sign(
                backend,
                self.end_epoch_mc_b_hash@,
                self.prev_end_epoch_mc_b_hash@,
                self.bt_list@,
            ),
            MsgStage::ReadPrev { end } => msg_after_end(
                backend,
                end,
                self.prev_end_epoch_mc_b_hash@,
                self.bt_list@,
            ),
            MsgStage::ReadTransfers { end, prev, leaves } => commit_transfers(
                backend,
                end,
                prev,
                self.bt_list@,
                leaves@.len() as int,
                leaves@,
            ),
            MsgStage::Root { end, prev, leaves } => commit(backend, end, prev, leaves@),
            MsgStage::Hash { end, prev, mr_bt } => commit_root(backend, end, prev, mr_bt),
        }
    }

    open spec fn advances(
        self,
        reply: Reply<E>,
        step: Step<Self, (FieldElement, FieldElement), E>,
    ) -> bool {
        reply matches Reply::Element(element) ==> match self.stage {
            MsgStage::Hash { mr_bt, .. } => step == Step::<Self, (FieldElement, FieldElement), E>::Done(
                (mr_bt, element),
            ),
            _ => step matches Step::Pending(next) && {
                &&& next.end_epoch_mc_b_hash == self.end_epoch_mc_b_hash
                &&& next.prev_end_epoch_mc_b_hash == self.prev_end_epoch_mc_b_hash
                &&& next.bt_list == self.bt_list
                &&& self.stage.leads_to(element, self.bt_list@.len(), next.stage)
            },
        }
    }

    fn resume(self, reply: Reply<E>) -> (step: Step<Self, (FieldElement, FieldElement), E>) {
        let element = match reply {
            Reply::Element(element) => element,
            Reply::Verdict(_) => return Step::Pending(self),
            Reply::Failed(error) => return Step::Failed(error),
        };
        proof {
            reveal_with_fuel(read_from, 2);
        }
        let MsgToSign { end_epoch_mc_b_hash, prev_end_epoch_mc_b_hash, bt_list, stage } = self;
        let next = match stage {
            MsgStage::ReadEnd => MsgStage::ReadPrev { end: element },
            MsgStage::ReadPrev { end } => {
                let leaves: Vec<FieldElement> = Vec::new();
                if bt_list.len() > 0 {
                    MsgStage::ReadTransfers { end, prev: element, leaves }
                } else {
                    MsgStage::Root { end, prev: element, leaves }
                }
            },
            MsgStage::ReadTransfers { end, prev, leaves } => {
                let mut leaves = leaves;
                leaves.push(element);
                if leaves.len() < bt_list.len() {
                    MsgStage::ReadTransfers { end, prev, leaves }
                } else {
                    MsgStage::Root { end, prev, leaves }
                }
            },
            MsgStage::Root { end, prev, .. } => MsgStage::Hash { end, prev, mr_bt: element },
            MsgStage::Hash { mr_bt, .. } => return Step::Done((mr_bt, element)),
        };
        Step::Pending(
            MsgToSign { end_epoch_mc_b_hash, prev_end_epoch_mc_b_hash, bt_list, stage: next },
        )
    }
}

} // verus!
