//! Field elements as plain values, and the byte buffers they are read from.

use vstd::prelude::*;

verus! {

/// Number of bytes in the encoding of one field element.
pub const FIELD_SIZE: usize = 96;

/// The order of the MNT4-753 scalar field, a prime of 753 bits.
pub open spec fn field_modulus() -> nat {
    0x1c4c62d92c41110229022eee2cdadb7f997505b8fafed5eb7e8f96c97d87307fdb925e8a0ed8d99d124d9a15af79db26c5c28c859a99b3eebca9429212636b9dff97634993aa4d6c381bc3f0057974ea099170fa13a4fd90776e240000001nat
}

/// An element of the MNT4-753 scalar field, held as a representative: twelve
/// 64-bit limbs, least significant first. Below [`field_modulus`] there is one
/// representative for each element.
#[derive(Clone, Copy, Debug, PartialEq, Eq)]
pub struct FieldElement {
    pub limbs: [u64; 12],
}

/// The integer that a sequence of 64-bit limbs denotes, least significant first.
pub open spec fn limbs_value(limbs: Seq<u64>) -> nat
    decreases limbs.len(),
{
    if limbs.len() == 0 {
        0
    } else {
        limbs[0] as nat + 0x1_0000_0000_0000_0000nat * limbs_value(limbs.drop_first())
    }
}

impl FieldElement {
    /// The integer that represents the element.
    pub open spec fn value(self) -> nat {
        limbs_value(self.limbs@)
    }

    /// The representative is the one below the modulus.
    pub open spec fn canonical(self) -> bool {
        self.value() < field_modulus()
    }
}

proof fn lemma_limbs_value_injective(a: Seq<u64>, b: Seq<u64>)
    requires
        a.len() == b.len(),
        limbs_value(a) == limbs_value(b),
    ensures
        a == b,
    decreases a.len(),
{
    if a.len() > 0 {
        lemma_limbs_value_injective(a.drop_first(), b.drop_first());
        assert(a =~= seq![a[0]] + a.drop_first());
        assert(b =~= seq![b[0]] + b.drop_first());
    } else {
        assert(a =~= b);
    }
}

/// Elements are told apart by their values.
pub proof fn law_value_injective(a: FieldElement, b: FieldElement)
    requires
        a.value() == b.value(),
    ensures
        a == b,
{
    lemma_limbs_value_injective(a.limbs@, b.limbs@);
    assert(a.limbs =~= b.limbs);
}

/// The limbs are the digits of the value in base 2^64, and an element is canonical
/// exactly when its value is below the order of the field.
pub proof fn law_element_value(element: FieldElement)
    ensures
        element.value() == element.limbs@[0]
            + 0x1_0000_0000_0000_0000 * element.limbs@[1]
            + 0x1_0000_0000_0000_0000_0000_0000_0000_0000 * element.limbs@[2]
            + 0x1_0000_0000_0000_0000_0000_0000_0000_0000_0000_0000_0000_0000 * element.limbs@[3]
            + 0x1_0000_0000_0000_0000_0000_0000_0000_0000_0000_0000_0000_0000_0000_0000_0000_0000 * element.limbs@[4]
            + 0x1_0000_0000_0000_0000_0000_0000_0000_0000_0000_0000_0000_0000_0000_0000_0000_0000_0000_0000_0000_0000 * element.limbs@[5]
            + 0x1_0000_0000_0000_0000_0000_0000_0000_0000_0000_0000_0000_0000_0000_0000_0000_0000_0000_0000_0000_0000_0000_0000_0000_0000 * element.limbs@[6]
            + 0x1_0000_0000_0000_0000_0000_0000_0000_0000_0000_0000_0000_0000_0000_0000_0000_0000_0000_0000_0000_0000_0000_0000_0000_0000_0000_0000_0000_0000 * element.limbs@[7]
            + 0x1_0000_0000_0000_0000_0000_0000_0000_0000_0000_0000_0000_0000_0000_0000_0000_0000_0000_0000_0000_0000_0000_0000_0000_0000_0000_0000_0000_0000_0000_0000_0000_0000 * element.limbs@[8]
            + 0x1_0000_0000_0000_0000_0000_0000_0000_0000_0000_0000_0000_0000_0000_0000_0000_0000_0000_0000_0000_0000_0000_0000_0000_0000_0000_0000_0000_0000_0000_0000_0000_0000_0000_0000_0000_0000 * element.limbs@[9]
            + 0x1_0000_0000_0000_0000_0000_0000_0000_0000_0000_0000_0000_0000_0000_0000_0000_0000_0000_0000_0000_0000_0000_0000_0000_0000_0000_0000_0000_0000_0000_0000_0000_0000_0000_0000_0000_0000_0000_0000_0000_0000 * element.limbs@[10]
            + 0x1_0000_0000_0000_0000_0000_0000_0000_0000_0000_0000_0000_0000_0000_0000_0000_0000_0000_0000_0000_0000_0000_0000_0000_0000_0000_0000_0000_0000_0000_0000_0000_0000_0000_0000_0000_0000_0000_0000_0000_0000_0000_0000_0000_0000 * element.limbs@[11],
        element.canonical() <==> element.value()
            < 41898490967918953402344214791240637128170709919953949071783502921025352812571106773058893763790338921418070971888458477323173057491593855069696241854796396165721416325350064441470418137846398469611935719059908164220784476160001nat,
{
    reveal_with_fuel(limbs_value, 13);
}

/// The element represented by a 64-bit integer.
pub open spec fn field_from_u64(num: u64) -> FieldElement {
    FieldElement { limbs: [num, 0, 0, 0, 0, 0, 0, 0, 0, 0, 0, 0] }
}

/// The lowest limb is the integer, and the others are zero.
pub proof fn law_field_from_u64_limbs(num: u64)
    ensures
        field_from_u64(num).limbs@[0] == num,
        forall|i: int| 1 <= i < 12 ==> #[trigger] field_from_u64(num).limbs@[i] == 0,
{
}

/// A 64-bit integer is its own representative, and a canonical one.
pub proof fn law_field_from_u64_value(num: u64)
    ensures
        field_from_u64(num).value() == num,
        field_from_u64(num).canonical(),
{
    reveal_with_fuel(limbs_value, 13);
}

/// Different 64-bit integers give different elements.
pub proof fn law_field_from_u64_injective(a: u64, b: u64)
    requires
        field_from_u64(a) == field_from_u64(b),
    ensures
        a == b,
{
    law_field_from_u64_value(a);
    law_field_from_u64_value(b);
}

/// The field element whose value is `num`.
pub fn read_field_element_from_u64(num: u64) -> (element: FieldElement)
    ensures
        element == field_from_u64(num),
        element.value() == num,
        element.canonical(),
        element.limbs@[0] == num,
        forall|i: int| 1 <= i < 12 ==> #[trigger] element.limbs@[i] == 0,
{
    proof {
        law_field_from_u64_value(num);
    }
    FieldElement { limbs: [num, 0, 0, 0, 0, 0, 0, 0, 0, 0, 0, 0] }
}

} // verus!
