//! What a message is made of, byte by byte and element by element.

use crate::buffer::{le_value, padded};
use crate::calls::{Backend, Computation, Reply, Request, Step, Waiting};
use crate::decoder::{decodes_le, law_transfer_value};
use crate::field::FieldElement;
use crate::message::{msg_to_sign, read_from, MsgStage, MsgToSign};
use crate::transfer::{encodings, law_encoding_bytes, law_encodings, BackwardTransfer};
use vstd::arithmetic::power::pow;
use vstd::prelude::*;

verus! {

/// Bytes that begin with a buffer and go on with zeros are its padding.
pub(crate) proof fn lemma_is_padding(buffer: Seq<u8>, bytes: Seq<u8>)
    requires
        buffer.len() <= 96,
        bytes.len() == 96,
        forall|i: int|
            0 <= i < 96 ==> #[trigger] bytes[i] == (if i < buffer.len() {
                buffer[i]
            } else {
                0
            }),
    ensures
        bytes == padded(buffer),
{
    assert(bytes =~= padded(buffer));
}

/// Buffers that hold destination, amount and zeros are the encodings.
proof fn lemma_are_encodings(bt_list: Seq<BackwardTransfer>, buffers: Seq<Seq<u8>>)
    requires
        buffers.len() == bt_list.len(),
        forall|k: int| 0 <= k < bt_list.len() ==> (#[trigger] buffers[k]).len() == 96,
        forall|k: int, i: int|
            0 <= k < bt_list.len() && 0 <= i < 96 ==> (#[trigger] buffers[k][i]) as int == (if i
                < 32 {
                bt_list[k].pk_dest@[i] as int
            } else if i < 40 {
                (bt_list[k].amount as int / pow(256, (i - 32) as nat)) % 256
            } else {
                0
            }),
    ensures
        buffers == encodings(bt_list),
{
    law_encodings(bt_list);
    assert forall|k: int| 0 <= k < bt_list.len() implies #[trigger] buffers[k] == encodings(
        bt_list,
    )[k] by {
        law_encoding_bytes(bt_list[k]);
        assert(buffers[k] =~= bt_list[k].encoding());
    }
    assert(buffers =~= encodings(bt_list));
}

proof fn lemma_read_rest<E>(
    backend: Backend<E>,
    buffers: Seq<Seq<u8>>,
    i: int,
    read: Seq<FieldElement>,
    all: Seq<FieldElement>,
)
    requires
        0 <= i <= buffers.len(),
        all.len() == buffers.len(),
        read == all.take(i),
        forall|k: int|
            i <= k < buffers.len() ==> (backend.read)(#[trigger] buffers[k]) == Ok::<
                FieldElement,
                E,
            >(all[k]),
    ensures
        read_from(backend, buffers, i, read) == Ok::<Seq<FieldElement>, E>(all),
    decreases buffers.len() - i,
{
    if i < buffers.len() {
        assert((backend.read)(buffers[i]) == Ok::<FieldElement, E>(all[i]));
        assert(read.push(all[i]) =~= all.take(i + 1));
        lemma_read_rest(backend, buffers, i + 1, all.take(i + 1), all);
    } else {
        assert(all.take(i) =~= all);
    }
}

proof fn lemma_read_stops<E>(
    backend: Backend<E>,
    buffers: Seq<Seq<u8>>,
    i: int,
    read: Seq<FieldElement>,
    k: int,
    error: E,
)
    requires
        0 <= i <= k < buffers.len(),
        forall|m: int| i <= m < k ==> (backend.read)(#[trigger] buffers[m]) is Ok,
        (backend.read)(buffers[k]) == Err::<FieldElement, E>(error),
    ensures
        read_from(backend, buffers, i, read) == Err::<Seq<FieldElement>, E>(error),
    decreases k - i,
{
    if i < k {
        assert((backend.read)(buffers[i]) is Ok);
        let element = (backend.read)(buffers[i])->Ok_0;
        lemma_read_stops(backend, buffers, i + 1, read.push(element), k, error);
    }
}

/// Where everything can be read, the result is the Merkle root of the elements of
/// the transfers, one for each and in order, with the hash of that root, the
/// earlier block and the later one; or the failure of the root or of the hash.
///
/// The buffers are written out byte by byte: those of the block hashes are the
/// hash and zeros, and that of each transfer is the destination, the base-256
/// digits of the amount from the lowest up, and zeros.
pub proof fn law_msg_of_elements<E>(
    backend: Backend<E>,
    end_epoch_mc_b_hash: Seq<u8>,
    prev_end_epoch_mc_b_hash: Seq<u8>,
    bt_list: Seq<BackwardTransfer>,
    end_bytes: Seq<u8>,
    prev_bytes: Seq<u8>,
    buffers: Seq<Seq<u8>>,
    end: FieldElement,
    prev: FieldElement,
    leaves: Seq<FieldElement>,
)
    requires
        end_epoch_mc_b_hash.len() <= 96,
        prev_end_epoch_mc_b_hash.len() <= 96,
        end_bytes.len() == 96,
        forall|i: int|
            0 <= i < 96 ==> #[trigger] end_bytes[i] == (if i < end_epoch_mc_b_hash.len() {
                end_epoch_mc_b_hash[i]
            } else {
                0
            }),
        prev_bytes.len() == 96,
        forall|i: int|
            0 <= i < 96 ==> #[trigger] prev_bytes[i] == (if i < prev_end_epoch_mc_b_hash.len() {
                prev_end_epoch_mc_b_hash[i]
            } else {
                0
            }),
        buffers.len() == bt_list.len(),
        forall|k: int| 0 <= k < bt_list.len() ==> (#[trigger] buffers[k]).len() == 96,
        forall|k: int, i: int|
            0 <= k < bt_list.len() && 0 <= i < 96 ==> (#[trigger] buffers[k][i]) as int == (if i
                < 32 {
                bt_list[k].pk_dest@[i] as int
            } else if i < 40 {
                (bt_list[k].amount as int / pow(256, (i - 32) as nat)) % 256
            } else {
                0
            }),
        (backend.read)(end_bytes) == Ok::<FieldElement, E>(end),
        (backend.read)(prev_bytes) == Ok::<FieldElement, E>(prev),
        leaves.len() == bt_list.len(),
        forall|k: int|
            0 <= k < bt_list.len() ==> (backend.read)(#[trigger] buffers[k]) == Ok::<
                FieldElement,
                E,
            >(leaves[k]),
    ensures
        msg_to_sign(backend, end_epoch_mc_b_hash, prev_end_epoch_mc_b_hash, bt_list) == (
        match (backend.root)(leaves) {
            Err(error) => Err::<(FieldElement, FieldElement), E>(error),
            Ok(mr_bt) => match (backend.hash)(seq![mr_bt, prev, end]) {
                Err(error) => Err(error),
                Ok(msg) => Ok((mr_bt, msg)),
            },
        }),
{
    lemma_is_padding(end_epoch_mc_b_hash, end_bytes);
    lemma_is_padding(prev_end_epoch_mc_b_hash, prev_bytes);
    lemma_are_encodings(bt_list, buffers);
    assert(leaves.take(0) =~= Seq::<FieldElement>::empty());
    lemma_read_rest(backend, buffers, 0, Seq::empty(), leaves);
}

/// The first buffer that cannot be read gives the failure of the whole. The later
/// block comes first, then the earlier one, then the transfers in order.
pub proof fn law_msg_unreadable<E>(
    backend: Backend<E>,
    end_epoch_mc_b_hash: Seq<u8>,
    prev_end_epoch_mc_b_hash: Seq<u8>,
    bt_list: Seq<BackwardTransfer>,
    end_bytes: Seq<u8>,
    prev_bytes: Seq<u8>,
    buffers: Seq<Seq<u8>>,
    k: int,
    error: E,
)
    requires
        end_epoch_mc_b_hash.len() <= 96,
        prev_end_epoch_mc_b_hash.len() <= 96,
        end_bytes.len() == 96,
        forall|i: int|
            0 <= i < 96 ==> #[trigger] end_bytes[i] == (if i < end_epoch_mc_b_hash.len() {
                end_epoch_mc_b_hash[i]
            } else {
                0
            }),
        prev_bytes.len() == 96,
        forall|i: int|
            0 <= i < 96 ==> #[trigger] prev_bytes[i] == (if i < prev_end_epoch_mc_b_hash.len() {
                prev_end_epoch_mc_b_hash[i]
            } else {
                0
            }),
        buffers.len() == bt_list.len(),
        forall|m: int| 0 <= m < bt_list.len() ==> (#[trigger] buffers[m]).len() == 96,
        forall|m: int, i: int|
            0 <= m < bt_list.len() && 0 <= i < 96 ==> (#[trigger] buffers[m][i]) as int == (if i
                < 32 {
                bt_list[m].pk_dest@[i] as int
            } else if i < 40 {
                (bt_list[m].amount as int / pow(256, (i - 32) as nat)) % 256
            } else {
                0
            }),
    ensures
        (backend.read)(end_bytes) == Err::<FieldElement, E>(error) ==> msg_to_sign(
            backend,
            end_epoch_mc_b_hash,
            prev_end_epoch_mc_b_hash,
            bt_list,
        ) == Err::<(FieldElement, FieldElement), E>(error),
        (backend.read)(end_bytes) is Ok && (backend.read)(prev_bytes) == Err::<FieldElement, E>(
            error,
        ) ==> msg_to_sign(backend, end_epoch_mc_b_hash, prev_end_epoch_mc_b_hash, bt_list) == Err::<
            (FieldElement, FieldElement),
            E,
        >(error),
        ({
            &&& (backend.read)(end_bytes) is Ok
            &&& (backend.read)(prev_bytes) is Ok
            &&& 0 <= k < bt_list.len()
            &&& forall|m: int| 0 <= m < k ==> (backend.read)(#[trigger] buffers[m]) is Ok
            &&& (backend.read)(buffers[k]) == Err::<FieldElement, E>(error)
        }) ==> msg_to_sign(backend, end_epoch_mc_b_hash, prev_end_epoch_mc_b_hash, bt_list)
            == Err::<(FieldElement, FieldElement), E>(error),
{
    lemma_is_padding(end_epoch_mc_b_hash, end_bytes);
    lemma_is_padding(prev_end_epoch_mc_b_hash, prev_bytes);
    lemma_are_encodings(bt_list, buffers);
    if 0 <= k < bt_list.len() && (forall|m: int|
        0 <= m < k ==> (backend.read)(#[trigger] buffers[m]) is Ok) && (backend.read)(buffers[k])
        == Err::<FieldElement, E>(error) {
        lemma_read_stops(backend, buffers, 0, Seq::empty(), k, error);
    }
}

/// Behind a root that was computed stands one element for each transfer, in
/// order, and each is what the back end reads from the destination, the amount
/// and zeros. A decoder that reads bytes as a number finds there the destination
/// plus the amount shifted past it.
pub proof fn law_msg_leaves<E>(
    backend: Backend<E>,
    end_epoch_mc_b_hash: Seq<u8>,
    prev_end_epoch_mc_b_hash: Seq<u8>,
    bt_list: Seq<BackwardTransfer>,
    mr_bt: FieldElement,
    msg: FieldElement,
) -> (leaves: Seq<FieldElement>)
    requires
        msg_to_sign(backend, end_epoch_mc_b_hash, prev_end_epoch_mc_b_hash, bt_list) == Ok::<
            (FieldElement, FieldElement),
            E,
        >((mr_bt, msg)),
    ensures
        leaves.len() == bt_list.len(),
        (backend.root)(leaves) == Ok::<FieldElement, E>(mr_bt),
        forall|k: int, bytes: Seq<u8>|
            0 <= k < bt_list.len() && bytes.len() == 96 && (forall|i: int|
                0 <= i < 96 ==> (#[trigger] bytes[i]) as int == (if i < 32 {
                    bt_list[k].pk_dest@[i] as int
                } else if i < 40 {
                    (bt_list[k].amount as int / pow(256, (i - 32) as nat)) % 256
                } else {
                    0
                })) ==> #[trigger] (backend.read)(bytes) == Ok::<FieldElement, E>(
                #[trigger] leaves[k],
            ),
        decodes_le(backend) ==> forall|k: int|
            0 <= k < bt_list.len() ==> (#[trigger] leaves[k]).value() == le_value(
                bt_list[k].pk_dest@,
            ) + pow(256, 32) * bt_list[k].amount,
{
    let buffers = encodings(bt_list);
    crate::laws::law_read_all(backend, buffers);
    law_encodings(bt_list);
    let leaves = read_from(backend, buffers, 0, Seq::empty())->Ok_0;
    assert forall|k: int| 0 <= k < bt_list.len() implies (backend.read)(bt_list[k].encoding())
        == Ok::<FieldElement, E>(#[trigger] leaves[k]) by {
        assert(buffers[k] == bt_list[k].encoding());
    }
    assert forall|k: int, bytes: Seq<u8>|
        0 <= k < bt_list.len() && bytes.len() == 96 && (forall|i: int|
            0 <= i < 96 ==> (#[trigger] bytes[i]) as int == (if i < 32 {
                bt_list[k].pk_dest@[i] as int
            } else if i < 40 {
                (bt_list[k].amount as int / pow(256, (i - 32) as nat)) % 256
            } else {
                0
            })) implies #[trigger] (backend.read)(bytes) == Ok::<FieldElement, E>(
        #[trigger] leaves[k],
    ) by {
        law_encoding_bytes(bt_list[k]);
        assert(bytes =~= bt_list[k].encoding());
    }
    if decodes_le(backend) {
        assert forall|k: int| 0 <= k < bt_list.len() implies (#[trigger] leaves[k]).value()
            == le_value(bt_list[k].pk_dest@) + pow(256, 32) * bt_list[k].amount by {
            law_transfer_value(backend, bt_list[k]);
        }
    }
    leaves
}

/// The computation of a message, from its first stage, gives the message for the
/// block hashes and the transfers that it holds, and the pair that it ends with
/// is taken as it is.
pub proof fn law_msg_start<E>(
    computation: MsgToSign,
    backend: Backend<E>,
    output: (FieldElement, FieldElement),
)
    ensures
        computation.stage is ReadEnd ==> computation.outcome(backend) == msg_to_sign(
            backend,
            computation.end_epoch_mc_b_hash@,
            computation.prev_end_epoch_mc_b_hash@,
            computation.bt_list@,
        ),
        MsgToSign::value_of(output) == output,
{
}

/// A computation that holds the elements that are read, or the root, leads to the
/// hash of the root, the earlier block and the later one.
pub proof fn law_msg_later_stages<E>(
    computation: MsgToSign,
    backend: Backend<E>,
    buffers: Seq<Seq<u8>>,
    all: Seq<FieldElement>,
)
    requires
        computation.valid(),
        buffers.len() == computation.bt_list@.len(),
        forall|k: int|
            0 <= k < computation.bt_list@.len() ==> (#[trigger] buffers[k]).len() == 96,
        forall|k: int, i: int|
            0 <= k < computation.bt_list@.len() && 0 <= i < 96 ==> (#[trigger] buffers[k][i]) as int
                == (if i < 32 {
                computation.bt_list@[k].pk_dest@[i] as int
            } else if i < 40 {
                (computation.bt_list@[k].amount as int / pow(256, (i - 32) as nat)) % 256
            } else {
                0
            }),
        all.len() == computation.bt_list@.len(),
    ensures
        computation.stage matches MsgStage::ReadTransfers { end, prev, leaves } ==> (leaves@
            == all.take(leaves@.len() as int) && (forall|k: int|
            leaves@.len() <= k < all.len() ==> (backend.read)(#[trigger] buffers[k]) == Ok::<
                FieldElement,
                E,
            >(all[k])) ==> computation.outcome(backend) == (match (backend.root)(all) {
            Err(error) => Err::<(FieldElement, FieldElement), E>(error),
            Ok(mr_bt) => match (backend.hash)(seq![mr_bt, prev, end]) {
                Err(error) => Err(error),
                Ok(msg) => Ok((mr_bt, msg)),
            },
        })),
        computation.stage matches MsgStage::Root { end, prev, leaves } ==> computation.outcome(
            backend,
        ) == (match (backend.root)(leaves@) {
            Err(error) => Err::<(FieldElement, FieldElement), E>(error),
            Ok(mr_bt) => match (backend.hash)(seq![mr_bt, prev, end]) {
                Err(error) => Err(error),
                Ok(msg) => Ok((mr_bt, msg)),
            },
        }),
        computation.stage matches MsgStage::Hash { end, prev, mr_bt } ==> computation.outcome(
            backend,
        ) == (match (backend.hash)(seq![mr_bt, prev, end]) {
            Err(error) => Err::<(FieldElement, FieldElement), E>(error),
            Ok(msg) => Ok((mr_bt, msg)),
        }),
{
    lemma_are_encodings(computation.bt_list@, buffers);
    if let MsgStage::ReadTransfers { end, prev, leaves } = computation.stage {
        let i = leaves@.len() as int;
        if leaves@ == all.take(i) && (forall|k: int|
            i <= k < all.len() ==> (backend.read)(#[trigger] buffers[k]) == Ok::<FieldElement, E>(
                all[k],
            )) {
            lemma_read_rest(backend, buffers, i, leaves@, all);
        }
    }
}

/// A computation that has read the later block fails as the reading of the earlier
/// one does, or as that of the first transfer that cannot be read, and otherwise
/// leads to the hash of the root, the earlier block and the later one.
pub proof fn law_msg_after_end<E>(
    computation: MsgToSign,
    backend: Backend<E>,
    end: FieldElement,
    prev_bytes: Seq<u8>,
    buffers: Seq<Seq<u8>>,
    all: Seq<FieldElement>,
    k: int,
    error: E,
)
    requires
        computation.stage == (MsgStage::ReadPrev { end }),
        prev_bytes.len() == 96,
        forall|i: int|
            0 <= i < 96 ==> #[trigger] prev_bytes[i] == (if i < 32 {
                computation.prev_end_epoch_mc_b_hash@[i]
            } else {
                0
            }),
        buffers.len() == computation.bt_list@.len(),
        forall|m: int|
            0 <= m < computation.bt_list@.len() ==> (#[trigger] buffers[m]).len() == 96,
        forall|m: int, i: int|
            0 <= m < computation.bt_list@.len() && 0 <= i < 96 ==> (#[trigger] buffers[m][i]) as int
                == (if i < 32 {
                computation.bt_list@[m].pk_dest@[i] as int
            } else if i < 40 {
                (computation.bt_list@[m].amount as int / pow(256, (i - 32) as nat)) % 256
            } else {
                0
            }),
        all.len() == computation.bt_list@.len(),
    ensures
        (backend.read)(prev_bytes) == Err::<FieldElement, E>(error) ==> computation.outcome(backend)
            == Err::<(FieldElement, FieldElement), E>(error),
        (backend.read)(prev_bytes) is Ok && 0 <= k < buffers.len() && (forall|m: int|
            0 <= m < k ==> (backend.read)(#[trigger] buffers[m]) is Ok) && (backend.read)(
            buffers[k],
        ) == Err::<FieldElement, E>(error) ==> computation.outcome(backend) == Err::<
            (FieldElement, FieldElement),
            E,
        >(error),
        (backend.read)(prev_bytes) matches Ok(prev) ==> ((forall|m: int|
            0 <= m < all.len() ==> (backend.read)(#[trigger] buffers[m]) == Ok::<FieldElement, E>(
                all[m],
            )) ==> computation.outcome(backend) == (match (backend.root)(all) {
            Err(failure) => Err::<(FieldElement, FieldElement), E>(failure),
            Ok(mr_bt) => match (backend.hash)(seq![mr_bt, prev, end]) {
                Err(failure) => Err(failure),
                Ok(msg) => Ok((mr_bt, msg)),
            },
        })),
{
    lemma_is_padding(computation.prev_end_epoch_mc_b_hash@, prev_bytes);
    lemma_are_encodings(computation.bt_list@, buffers);
    if 0 <= k < buffers.len() && (forall|m: int|
        0 <= m < k ==> (backend.read)(#[trigger] buffers[m]) is Ok) && (backend.read)(buffers[k])
        == Err::<FieldElement, E>(error) {
        lemma_read_stops(backend, buffers, 0, Seq::empty(), k, error);
    }
    if forall|m: int|
        0 <= m < all.len() ==> (backend.read)(#[trigger] buffers[m]) == Ok::<FieldElement, E>(
            all[m],
        ) {
        assert(all.take(0) =~= Seq::<FieldElement>::empty());
        lemma_read_rest(backend, buffers, 0, Seq::empty(), all);
    }
}

/// What each stage asks for: the later block, the earlier one, the first transfer
/// that has not been read, the root of what has been read, and the hash.
pub proof fn law_msg_requests(computation: MsgToSign)
    requires
        computation.valid(),
    ensures
        computation.stage is ReadEnd ==> (computation.request() matches Request::Read(bytes)
            && bytes.len() == 96 && forall|i: int|
            0 <= i < 96 ==> #[trigger] bytes[i] == (if i < 32 {
                computation.end_epoch_mc_b_hash@[i]
            } else {
                0
            })),
        computation.stage is ReadPrev ==> (computation.request() matches Request::Read(bytes)
            && bytes.len() == 96 && forall|i: int|
            0 <= i < 96 ==> #[trigger] bytes[i] == (if i < 32 {
                computation.prev_end_epoch_mc_b_hash@[i]
            } else {
                0
            })),
        computation.stage matches MsgStage::ReadTransfers { leaves, .. } ==> leaves@.len()
            < computation.bt_list@.len() && (computation.request() matches Request::Read(bytes)
            && bytes.len() == 96 && forall|i: int|
            0 <= i < 96 ==> (#[trigger] bytes[i]) as int == (if i < 32 {
                computation.bt_list@[leaves@.len() as int].pk_dest@[i] as int
            } else if i < 40 {
                (computation.bt_list@[leaves@.len() as int].amount as int / pow(
                    256,
                    (i - 32) as nat,
                )) % 256
            } else {
                0
            })),
        computation.stage matches MsgStage::Root { leaves, .. } ==> computation.request()
            == Request::Root(leaves@),
        computation.stage matches MsgStage::Hash { end, prev, mr_bt } ==> computation.request()
            == Request::Hash(seq![mr_bt, prev, end]),
{
    if let MsgStage::ReadTransfers { leaves, .. } = computation.stage {
        law_encoding_bytes(computation.bt_list@[leaves@.len() as int]);
    }
}

/// Where an element leads: it is kept in its place, behind those that were read
/// before it, and nothing that the computation holds is changed or lost.
pub proof fn law_msg_steps<'a, E>(
    computation: MsgToSign<'a>,
    element: FieldElement,
    step: Step<MsgToSign<'a>, (FieldElement, FieldElement), E>,
)
    requires
        computation.advances(Reply::<E>::Element(element), step),
    ensures
        computation.stage matches MsgStage::Hash { mr_bt, .. } ==> step == Step::<
            MsgToSign<'a>,
            (FieldElement, FieldElement),
            E,
        >::Done((mr_bt, element)),
        !(computation.stage is Hash) ==> (step matches Step::Pending(next)
            && next.end_epoch_mc_b_hash == computation.end_epoch_mc_b_hash
            && next.prev_end_epoch_mc_b_hash == computation.prev_end_epoch_mc_b_hash && next.bt_list
            == computation.bt_list && match computation.stage {
            MsgStage::ReadEnd => next.stage == (MsgStage::ReadPrev { end: element }),
            MsgStage::ReadPrev { end } => if computation.bt_list@.len() == 0 {
                next.stage matches MsgStage::Root { end: e, prev: p, leaves: l } && e == end && p
                    == element && l@.len() == 0
            } else {
                next.stage matches MsgStage::ReadTransfers { end: e, prev: p, leaves: l } && e
                    == end && p == element && l@.len() == 0
            },
            MsgStage::ReadTransfers { end, prev, leaves } => if leaves@.len() + 1
                < computation.bt_list@.len() {
                next.stage matches MsgStage::ReadTransfers { end: e, prev: p, leaves: l } && e
                    == end && p == prev && l@ == leaves@.push(element)
            } else {
                next.stage matches MsgStage::Root { end: e, prev: p, leaves: l } && e == end && p
                    == prev && l@ == leaves@.push(element)
            },
            MsgStage::Root { end, prev, .. } => next.stage == (MsgStage::Hash {
                end,
                prev,
                mr_bt: element,
            }),
            MsgStage::Hash { .. } => true,
        }),
{
}

} // verus!
