//! What holds with a back end that decodes field elements as integers.

use crate::buffer::{law_le_bytes_len, law_le_bytes_value, law_le_value_bound, law_padded_layout};
use crate::buffer::{law_le_value_injective, law_padded_value, le_bytes, le_value, padded};
use crate::calls::{Backend, Computation};
use crate::element::ElementCall;
use crate::field::{field_from_u64, field_modulus, law_field_from_u64_value, law_value_injective};
use crate::field::{FieldElement, FIELD_SIZE};
use crate::laws::{gives_canonical, hash_collision, law_msg_binding, law_msg_structure, law_read_all};
use crate::laws::{msg_preimage, read_as};
use crate::message::{commit, msg_to_sign, read_from};
use crate::transfer::{encodings, law_encoding_injective, law_encoding_layout, law_encoding_value};
use crate::transfer::BackwardTransfer;
use vstd::arithmetic::power::pow;
use vstd::prelude::*;

verus! {

/// The back end decodes the little-endian encoding of every integer below the
/// modulus to the element with that value.
pub open spec fn decodes_le<E>(backend: Backend<E>) -> bool {
    forall|bytes: Seq<u8>|
        bytes.len() == FIELD_SIZE && le_value(bytes) < field_modulus() ==> (
        #[trigger] (backend.read)(bytes) matches Ok(element) && element.value() == le_value(bytes))
}

/// The back end decodes different encodings to different elements.
pub open spec fn decodes_injectively<E>(backend: Backend<E>) -> bool {
    forall|a: Seq<u8>, b: Seq<u8>|
        #![trigger (backend.read)(a), (backend.read)(b)]
        a.len() == FIELD_SIZE && b.len() == FIELD_SIZE && (backend.read)(a) is Ok && (backend.read)(
            a,
        ) == (backend.read)(b) ==> a == b
}

/// Two different lists of leaves have the same Merkle root.
pub open spec fn root_collision<E>(
    backend: Backend<E>,
    x: Seq<FieldElement>,
    y: Seq<FieldElement>,
) -> bool {
    &&& x != y
    &&& (backend.root)(x) is Ok
    &&& (backend.root)(x) == (backend.root)(y)
}

/// The elements that the buffers are decoded to.
pub open spec fn decoded<E>(backend: Backend<E>, buffers: Seq<Seq<u8>>) -> Seq<FieldElement> {
    buffers.map_values(|bytes: Seq<u8>| (backend.read)(bytes)->Ok_0)
}

/// Up to forty bytes denote less than the modulus.
proof fn lemma_short_below_modulus(bytes: Seq<u8>)
    requires
        bytes.len() <= 40,
    ensures
        le_value(bytes) < field_modulus(),
{
    law_le_value_bound(bytes);
    vstd::arithmetic::power::lemma_pow_increases(256, bytes.len(), 40);
    lemma_pow_below_modulus();
}

proof fn lemma_pow_below_modulus()
    ensures
        pow(256, 40) < field_modulus(),
{
    reveal_with_fuel(pow, 41);
}

/// A short buffer that denotes an integer below the modulus is decoded, after
/// padding, to the element with that value.
pub proof fn law_short_buffer_value<E>(backend: Backend<E>, bytes: Seq<u8>)
    requires
        decodes_le(backend),
        bytes.len() <= FIELD_SIZE,
        le_value(bytes) < field_modulus(),
    ensures
        (backend.read)(padded(bytes)) matches Ok(element) && element.value() == le_value(bytes)
            && element.canonical(),
{
    law_padded_layout(bytes);
    law_padded_value(bytes);
}

/// The eight little-endian bytes of a number are decoded, after padding, to the
/// element that the number is converted to directly.
pub proof fn law_u64_conversions_agree<E>(backend: Backend<E>, n: u64, bytes: Seq<u8>)
    requires
        decodes_le(backend),
        bytes == le_bytes(n as nat, 8),
    ensures
        (backend.read)(padded(bytes)) == Ok::<FieldElement, E>(field_from_u64(n)),
        forall|computation: ElementCall| #[trigger]
            computation.reads(padded(bytes)) ==> computation.outcome(backend) == Ok::<
                FieldElement,
                E,
            >(field_from_u64(n)),
{
    law_le_bytes_len(n as nat, 8);
    law_le_bytes_value(n);
    lemma_short_below_modulus(bytes);
    law_short_buffer_value(backend, bytes);
    law_field_from_u64_value(n);
    law_value_injective((backend.read)(padded(bytes))->Ok_0, field_from_u64(n));
}

/// A transfer is decoded to the element whose value is the destination plus the
/// amount, shifted past it.
pub proof fn law_transfer_value<E>(backend: Backend<E>, transfer: BackwardTransfer)
    requires
        decodes_le(backend),
    ensures
        (backend.read)(transfer.encoding()) matches Ok(element) && element.canonical()
            && element.value() == le_value(transfer.pk_dest@) + pow(256, 32) * transfer.amount,
{
    law_encoding_layout(transfer);
    law_encoding_value(transfer);
    lemma_pow_below_modulus();
}

/// Different transfers are decoded to different elements.
pub proof fn law_transfers_distinct<E>(
    backend: Backend<E>,
    a: BackwardTransfer,
    b: BackwardTransfer,
)
    requires
        decodes_le(backend) || decodes_injectively(backend),
        (backend.read)(a.encoding()) is Ok,
        a != b,
    ensures
        (backend.read)(a.encoding()) != (backend.read)(b.encoding()),
{
    law_encoding_layout(a);
    law_encoding_layout(b);
    if (backend.read)(a.encoding()) == (backend.read)(b.encoding()) {
        if decodes_le(backend) {
            law_encoding_value(a);
            law_encoding_value(b);
            lemma_pow_below_modulus();
            law_le_value_injective(a.encoding(), b.encoding());
        }
        law_encoding_injective(a, b);
    }
}

/// Lists of transfers that differ have different leaves.
pub proof fn law_leaves_distinct<E>(
    backend: Backend<E>,
    bt_list1: Seq<BackwardTransfer>,
    bt_list2: Seq<BackwardTransfer>,
    leaves1: Seq<FieldElement>,
    leaves2: Seq<FieldElement>,
)
    requires
        decodes_le(backend) || decodes_injectively(backend),
        read_as(backend, encodings(bt_list1), leaves1),
        read_as(backend, encodings(bt_list2), leaves2),
        bt_list1 != bt_list2,
    ensures
        leaves1 != leaves2,
{
    if leaves1 == leaves2 {
        assert forall|i: int| 0 <= i < bt_list1.len() implies bt_list1[i] == bt_list2[i] by {
            assert(encodings(bt_list1)[i] == bt_list1[i].encoding());
            assert(encodings(bt_list2)[i] == bt_list2[i].encoding());
            assert((backend.read)(encodings(bt_list1)[i]) == Ok::<FieldElement, E>(leaves1[i]));
            assert((backend.read)(encodings(bt_list2)[i]) == Ok::<FieldElement, E>(leaves2[i]));
            if bt_list1[i] != bt_list2[i] {
                law_transfers_distinct(backend, bt_list1[i], bt_list2[i]);
            }
        }
        assert(bt_list1 =~= bt_list2);
    }
}

/// Where all buffers can be read, the elements are those that they are decoded to.
proof fn lemma_read_as_decoded<E>(
    backend: Backend<E>,
    buffers: Seq<Seq<u8>>,
    elements: Seq<FieldElement>,
)
    requires
        read_as(backend, buffers, elements),
    ensures
        elements == decoded(backend, buffers),
{
    assert forall|i: int| 0 <= i < buffers.len() implies elements[i] == decoded(
        backend,
        buffers,
    )[i] by {
        assert((backend.read)(buffers[i]) == Ok::<FieldElement, E>(elements[i]));
    }
    assert(elements =~= decoded(backend, buffers));
}

/// The message commits to the transfers: where two runs with different lists
/// give one message, what the messages are the hashes of is a collision of the
/// hash, or the leaves of the two lists are one of the Merkle root.
pub proof fn law_msg_commits_to_transfers<E>(
    backend: Backend<E>,
    end1: Seq<u8>,
    prev1: Seq<u8>,
    bt_list1: Seq<BackwardTransfer>,
    mr_bt1: FieldElement,
    end2: Seq<u8>,
    prev2: Seq<u8>,
    bt_list2: Seq<BackwardTransfer>,
    mr_bt2: FieldElement,
    msg: FieldElement,
)
    requires
        gives_canonical(backend),
        decodes_le(backend) || decodes_injectively(backend),
        bt_list1 != bt_list2,
        msg_to_sign(backend, end1, prev1, bt_list1) == Ok::<(FieldElement, FieldElement), E>(
            (mr_bt1, msg),
        ),
        msg_to_sign(backend, end2, prev2, bt_list2) == Ok::<(FieldElement, FieldElement), E>(
            (mr_bt2, msg),
        ),
    ensures
        hash_collision(
            backend,
            msg_preimage(backend, end1, prev1, mr_bt1),
            msg_preimage(backend, end2, prev2, mr_bt2),
        ) || root_collision(
            backend,
            decoded(backend, encodings(bt_list1)),
            decoded(backend, encodings(bt_list2)),
        ),
{
    law_msg_binding(
        backend,
        end1,
        prev1,
        bt_list1,
        mr_bt1,
        end2,
        prev2,
        bt_list2,
        mr_bt2,
        msg,
    );
    law_msg_structure(backend, end1, prev1, bt_list1, mr_bt1, msg);
    law_msg_structure(backend, end2, prev2, bt_list2, mr_bt2, msg);
    let leaves1 = choose|leaves: Seq<FieldElement>|
        #[trigger] read_as(backend, encodings(bt_list1), leaves) && (backend.root)(leaves) == Ok::<
            FieldElement,
            E,
        >(mr_bt1);
    let leaves2 = choose|leaves: Seq<FieldElement>|
        #[trigger] read_as(backend, encodings(bt_list2), leaves) && (backend.root)(leaves) == Ok::<
            FieldElement,
            E,
        >(mr_bt2);
    lemma_read_as_decoded(backend, encodings(bt_list1), leaves1);
    lemma_read_as_decoded(backend, encodings(bt_list2), leaves2);
    law_leaves_distinct(backend, bt_list1, bt_list2, leaves1, leaves2);
    if mr_bt1 == mr_bt2 {
        assert(root_collision(backend, leaves1, leaves2));
    }
}

/// Block hashes and transfers can always be decoded, so the message fails
/// exactly when the Merkle root of the leaves or the hash fails.
pub proof fn law_msg_failure<E>(
    backend: Backend<E>,
    end_epoch_mc_b_hash: Seq<u8>,
    prev_end_epoch_mc_b_hash: Seq<u8>,
    bt_list: Seq<BackwardTransfer>,
)
    requires
        decodes_le(backend),
        end_epoch_mc_b_hash.len() == 32,
        prev_end_epoch_mc_b_hash.len() == 32,
    ensures
        read_as(backend, encodings(bt_list), decoded(backend, encodings(bt_list))),
        (backend.read)(padded(end_epoch_mc_b_hash)) matches Ok(end) && ((backend.read)(
            padded(prev_end_epoch_mc_b_hash),
        ) matches Ok(prev) && {
            let outcome = msg_to_sign(
                backend,
                end_epoch_mc_b_hash,
                prev_end_epoch_mc_b_hash,
                bt_list,
            );
            let root = (backend.root)(decoded(backend, encodings(bt_list)));
            &&& outcome == commit(backend, end, prev, decoded(backend, encodings(bt_list)))
            &&& outcome is Err <==> root is Err || (root matches Ok(mr_bt) && (backend.hash)(
                seq![mr_bt, prev, end],
            ) is Err)
        }),
{
    lemma_short_below_modulus(end_epoch_mc_b_hash);
    lemma_short_below_modulus(prev_end_epoch_mc_b_hash);
    law_short_buffer_value(backend, end_epoch_mc_b_hash);
    law_short_buffer_value(backend, prev_end_epoch_mc_b_hash);
    let buffers = encodings(bt_list);
    let leaves = decoded(backend, buffers);
    assert forall|i: int| 0 <= i < buffers.len() implies (backend.read)(#[trigger] buffers[i])
        == Ok::<FieldElement, E>(leaves[i]) by {
        assert(buffers[i] == bt_list[i].encoding());
        law_transfer_value(backend, bt_list[i]);
    }
    law_read_all(backend, buffers);
    let all = read_from(backend, buffers, 0, Seq::empty())->Ok_0;
    lemma_read_as_decoded(backend, buffers, all);
}

} // verus!
