//! Backward transfers: payments from a sidechain back to the main chain.

use crate::buffer::{law_le_bytes_digits, law_le_bytes_len, law_le_bytes_value};
use crate::buffer::{law_le_value_append, law_le_value_bound, law_padded_value};
use crate::buffer::{le_bytes, le_value, pad_to_field_size, padded, push_u64, zeros};
use crate::calls::{Call, Waiting};
use crate::element::ElementCall;
use crate::field::FIELD_SIZE;
use vstd::arithmetic::power::pow;
use vstd::prelude::*;

verus! {

/// A payment of `amount` to the main-chain key `pk_dest`.
#[derive(Clone, Debug, PartialEq, Eq)]
pub struct BackwardTransfer {
    pub pk_dest: [u8; 32],
    pub amount: u64,
}

impl BackwardTransfer {
    /// The bytes that the field element of the transfer is decoded from: the
    /// destination, the little-endian amount, and zeros up to [`FIELD_SIZE`].
    pub open spec fn encoding(self) -> Seq<u8> {
        padded(self.pk_dest@ + le_bytes(self.amount as nat, 8))
    }

    /// A transfer of `amount` to `pk_dest`.
    pub fn new(pk_dest: [u8; 32], amount: u64) -> (transfer: Self)
        ensures
            transfer == (BackwardTransfer { pk_dest, amount }),
    {
        BackwardTransfer { pk_dest, amount }
    }

    /// The buffer that the field element of the transfer is decoded from.
    pub fn encode(&self) -> (buffer: Vec<u8>)
        ensures
            buffer@ == self.encoding(),
            buffer@.len() == 96,
            forall|i: int|
                0 <= i < 96 ==> (#[trigger] buffer@[i]) as int == (if i < 32 {
                    self.pk_dest@[i] as int
                } else if i < 40 {
                    (self.amount as int / pow(256, (i - 32) as nat)) % 256
                } else {
                    0
                }),
    {
        let mut buffer: Vec<u8> = Vec::new();
        buffer.extend_from_slice(&self.pk_dest);
        assert(buffer@ =~= self.pk_dest@);
        push_u64(&mut buffer, self.amount);
        proof {
            law_le_bytes_len(self.amount as nat, 8);
            law_encoding_bytes(*self);
        }
        pad_to_field_size(buffer.as_slice())
    }

    /// Has the back end decode the field element of the transfer.
    pub fn to_field_element(&self) -> (read: ElementCall)
        ensures
            read.valid(),
            read.reads(padded(self.pk_dest@ + le_bytes(self.amount as nat, 8))),
            read.work matches Call::ReadFieldElement(bytes) && bytes@.len() == 96 && forall|i: int|
                0 <= i < 96 ==> (#[trigger] bytes@[i]) as int == (if i < 32 {
                    self.pk_dest@[i] as int
                } else if i < 40 {
                    (self.amount as int / pow(256, (i - 32) as nat)) % 256
                } else {
                    0
                }),
    {
        ElementCall { work: Call::ReadFieldElement(self.encode()) }
    }
}

impl Default for BackwardTransfer {
    /// The transfer of nothing to the all-zero key.
    fn default() -> (transfer: Self)
        ensures
            transfer.pk_dest@ == zeros(32),
            transfer.amount == 0,
            forall|i: int| 0 <= i < 32 ==> #[trigger] transfer.pk_dest@[i] == 0,
    {
        let transfer = BackwardTransfer { pk_dest: [0u8; 32], amount: 0 };
        assert(transfer.pk_dest@ =~= zeros(32));
        transfer
    }
}

/// The encodings of transfers, in order.
pub open spec fn encodings(transfers: Seq<BackwardTransfer>) -> Seq<Seq<u8>> {
    transfers.map_values(|transfer: BackwardTransfer| transfer.encoding())
}

/// There is one encoding for every transfer, and the one in each place is that
/// of the transfer in the same place.
pub proof fn law_encodings(transfers: Seq<BackwardTransfer>)
    ensures
        encodings(transfers).len() == transfers.len(),
        forall|i: int|
            0 <= i < transfers.len() ==> #[trigger] encodings(transfers)[i]
                == transfers[i].encoding(),
{
}

/// The bytes of an encoding, one by one: those of the destination, the base-256
/// digits of the amount from the lowest up, and zeros.
pub proof fn law_encoding_bytes(transfer: BackwardTransfer)
    ensures
        transfer.encoding().len() == 96,
        forall|i: int|
            0 <= i < 96 ==> (#[trigger] transfer.encoding()[i]) as int == (if i < 32 {
                transfer.pk_dest@[i] as int
            } else if i < 40 {
                (transfer.amount as int / pow(256, (i - 32) as nat)) % 256
            } else {
                0
            }),
{
    let digits = le_bytes(transfer.amount as nat, 8);
    law_le_bytes_len(transfer.amount as nat, 8);
    assert forall|i: int| 32 <= i < 40 implies (#[trigger] transfer.encoding()[i]) as int == (
    transfer.amount as int / pow(256, (i - 32) as nat)) % 256 by {
        law_le_bytes_digits(transfer.amount as nat, 8, (i - 32) as nat);
        assert(transfer.encoding()[i] == digits[i - 32]);
    }
}

/// An encoding has [`FIELD_SIZE`] bytes: the destination, the amount, and zeros.
pub proof fn law_encoding_layout(transfer: BackwardTransfer)
    ensures
        transfer.encoding().len() == FIELD_SIZE,
        transfer.encoding().take(32) == transfer.pk_dest@,
        le_value(transfer.encoding().subrange(32, 40)) == transfer.amount,
        transfer.encoding().skip(40) == zeros((FIELD_SIZE - 40) as nat),
{
    let encoding = transfer.encoding();
    let digits = le_bytes(transfer.amount as nat, 8);
    law_le_bytes_len(transfer.amount as nat, 8);
    law_le_bytes_value(transfer.amount);
    assert(encoding.take(32) =~= transfer.pk_dest@);
    assert(encoding.subrange(32, 40) =~= digits);
    assert(encoding.skip(40) =~= zeros((FIELD_SIZE - 40) as nat));
}

/// Transfers with the same encoding are the same.
pub proof fn law_encoding_injective(a: BackwardTransfer, b: BackwardTransfer)
    requires
        a.encoding() == b.encoding(),
    ensures
        a == b,
{
    law_encoding_layout(a);
    law_encoding_layout(b);
    assert(a.pk_dest =~= b.pk_dest);
}

/// An encoding denotes the destination plus the amount, shifted past it.
pub proof fn law_encoding_value(transfer: BackwardTransfer)
    ensures
        le_value(transfer.encoding()) == le_value(transfer.pk_dest@) + pow(256, 32)
            * transfer.amount,
        le_value(transfer.encoding()) < pow(256, 40),
{
    let digits = le_bytes(transfer.amount as nat, 8);
    law_le_bytes_len(transfer.amount as nat, 8);
    law_le_bytes_value(transfer.amount);
    law_padded_value(transfer.pk_dest@ + digits);
    law_le_value_append(transfer.pk_dest@, digits);
    law_le_value_bound(transfer.pk_dest@ + digits);
}

} // verus!
