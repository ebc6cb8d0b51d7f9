//! Schnorr keys and signatures as plain values.

use crate::field::FieldElement;
use vstd::prelude::*;

verus! {

/// A Schnorr public key: a point of the MNT6-753 curve in affine coordinates.
#[derive(Clone, Copy, Debug, PartialEq, Eq)]
pub struct SchnorrPk {
    pub x: FieldElement,
    pub y: FieldElement,
    pub infinity: bool,
}

/// A Schnorr signature.
#[derive(Clone, Copy, Debug, PartialEq, Eq)]
pub struct SchnorrSig {
    pub e: FieldElement,
    pub s: FieldElement,
}

/// The first coordinates of the keys, in order.
pub open spec fn x_coordinates(pks: Seq<SchnorrPk>) -> Seq<FieldElement> {
    pks.map_values(|pk: SchnorrPk| pk.x)
}

/// There is one coordinate for every key, and the one in each place is that of
/// the key in the same place.
pub proof fn law_x_coordinates(pks: Seq<SchnorrPk>)
    ensures
        x_coordinates(pks).len() == pks.len(),
        forall|i: int| 0 <= i < pks.len() ==> #[trigger] x_coordinates(pks)[i] == pks[i].x,
{
}

/// Collects the first coordinate of every key.
pub fn collect_x_coordinates(pks: &[SchnorrPk]) -> (xs: Vec<FieldElement>)
    ensures
        xs@ == x_coordinates(pks@),
        xs@.len() == pks@.len(),
        forall|i: int| 0 <= i < pks@.len() ==> #[trigger] xs@[i] == pks@[i].x,
{
    let mut xs: Vec<FieldElement> = Vec::new();
    let mut i: usize = 0;
    while i < pks.len()
        invariant
            i <= pks.len(),
            xs@ == x_coordinates(pks@.take(i as int)),
        decreases pks.len() - i,
    {
        xs.push(pks[i].x);
        i = i + 1;
        assert(xs@ =~= x_coordinates(pks@.take(i as int)));
    }
    assert(pks@.take(i as int) =~= pks@);
    xs
}

} // verus!
