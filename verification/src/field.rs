//! The Goldilocks prime field, modelled by canonical residues.

use vstd::prelude::*;

verus! {

/// The prime order of the field: `2^64 - 2^32 + 1`.
pub const ORDER: u64 = 0xFFFF_FFFF_0000_0001;

/// The field order as a mathematical integer.
pub open spec fn order() -> int {
    0xFFFF_FFFF_0000_0001
}

/// Sum of two residues in the field.
pub open spec fn field_add(a: int, b: int) -> int {
    (a + b) % order()
}

/// Product of two residues in the field.
pub open spec fn field_mul(a: int, b: int) -> int {
    (a * b) % order()
}

/// The residue that a raw 64-bit value maps to.
pub open spec fn to_field(raw: int) -> int {
    raw % order()
}

/// An element of the field, held as its canonical residue.
#[derive(Clone, Copy, Debug, PartialEq, Eq)]
pub struct FieldElement {
    residue: u64,
}

impl FieldElement {
    #[verifier::type_invariant]
    spec fn canonical(self) -> bool {
        self.residue < ORDER
    }

    /// The residue as an integer in `[0, order())`.
    pub closed spec fn value(self) -> int {
        self.residue as int
    }

    /// An element is determined by its value.
    pub proof fn lemma_value_determines(self, other: Self)
        ensures
            self.value() == other.value() <==> self == other,
    {
    }

    /// The additive identity.
    pub fn zero() -> (r: Self)
        ensures
            r.value() == 0,
    {
        FieldElement { residue: 0 }
    }

    /// Maps a raw 64-bit value into the field by reduction modulo the order.
    pub fn from_raw(raw: u64) -> (r: Self)
        ensures
            r.value() == to_field(raw as int),
    {
        FieldElement { residue: raw % ORDER }
    }

    /// The element with the given residue, if the residue is canonical.
    pub fn from_canonical(residue: u64) -> (r: Option<Self>)
        ensures
            residue < ORDER ==> r.is_some() && r.unwrap().value() == residue as int,
            residue >= ORDER ==> r.is_none(),
    {
        if residue < ORDER {
            Some(FieldElement { residue })
        } else {
            None
        }
    }

    /// The canonical residue.
    pub fn to_canonical(&self) -> (r: u64)
        ensures
            r as int == self.value(),
            r < ORDER,
    {
        proof {
            use_type_invariant(self);
        }
        self.residue
    }

    /// Field addition.
    pub fn add(self, rhs: Self) -> (r: Self)
        ensures
            r.value() == field_add(self.value(), rhs.value()),
    {
        proof {
            use_type_invariant(self);
            use_type_invariant(rhs);
        }
        let sum: u128 = self.residue as u128 + rhs.residue as u128;
        FieldElement { residue: (sum % (ORDER as u128)) as u64 }
    }

    /// Field multiplication.
    pub fn mul(self, rhs: Self) -> (r: Self)
        ensures
            r.value() == field_mul(self.value(), rhs.value()),
    {
        proof {
            use_type_invariant(self);
            use_type_invariant(rhs);
        }
        let a: u128 = self.residue as u128;
        let b: u128 = rhs.residue as u128;
        assert(a * b <= 0xFFFF_FFFF_FFFF_FFFF_FFFF_FFFF_FFFF_FFFF) by (nonlinear_arith)
            requires
                a <= 0xFFFF_FFFF_FFFF_FFFF,
                b <= 0xFFFF_FFFF_FFFF_FFFF,
        ;
        FieldElement { residue: ((a * b) % (ORDER as u128)) as u64 }
    }

    /// Exact equality of two elements.
    pub fn equals(&self, other: &Self) -> (r: bool)
        ensures
            r == (self.value() == other.value()),
    {
        self.residue == other.residue
    }
}

} // verus!
