use vstd::prelude::*;

verus! {

/// One of the symmetries of the cube.
#[derive(Clone, Copy, PartialEq, Eq, PartialOrd, Ord, Hash, Debug)]
pub struct Transform(pub u8);

impl From<SubGroupTransform> for Transform {
    fn from(value: SubGroupTransform) -> (r: Self) {
        Self(value.0)
    }
}

impl vstd::std_specs::convert::FromSpecImpl<SubGroupTransform> for Transform {
    open spec fn obeys_from_spec() -> bool {
        true
    }

    open spec fn from_spec(v: SubGroupTransform) -> Self {
        Transform(v.0)
    }
}

/// One of the 16 symmetries that keep the U-D axis: bit 0 mirrors left-right, bits 1 and 2
/// count quarter turns about the U axis, bit 3 turns the cube over about the F axis.
#[derive(Clone, Copy, PartialEq, Eq, PartialOrd, Ord, Hash, Debug)]
pub struct SubGroupTransform(pub u8);

/// Entry `16 a + b` is the transform that conjugating by `a` and then by `b` amounts to.
pub const TRANSFORM_COMPOSE_LOOKUP: [u8; 256] = [
    0, 1, 2, 3, 4, 5, 6, 7, 8, 9, 10, 11, 12, 13, 14, 15,
    1, 0, 7, 6, 5, 4, 3, 2, 9, 8, 15, 14, 13, 12, 11, 10,
    2, 3, 4, 5, 6, 7, 0, 1, 14, 15, 8, 9, 10, 11, 12, 13,
    3, 2, 1, 0, 7, 6, 5, 4, 15, 14, 13, 12, 11, 10, 9, 8,
    4, 5, 6, 7, 0, 1, 2, 3, 12, 13, 14, 15, 8, 9, 10, 11,
    5, 4, 3, 2, 1, 0, 7, 6, 13, 12, 11, 10, 9, 8, 15, 14,
    6, 7, 0, 1, 2, 3, 4, 5, 10, 11, 12, 13, 14, 15, 8, 9,
    7, 6, 5, 4, 3, 2, 1, 0, 11, 10, 9, 8, 15, 14, 13, 12,
    8, 9, 10, 11, 12, 13, 14, 15, 0, 1, 2, 3, 4, 5, 6, 7,
    9, 8, 15, 14, 13, 12, 11, 10, 1, 0, 7, 6, 5, 4, 3, 2,
    10, 11, 12, 13, 14, 15, 8, 9, 6, 7, 0, 1, 2, 3, 4, 5,
    11, 10, 9, 8, 15, 14, 13, 12, 7, 6, 5, 4, 3, 2, 1, 0,
    12, 13, 14, 15, 8, 9, 10, 11, 4, 5, 6, 7, 0, 1, 2, 3,
    13, 12, 11, 10, 9, 8, 15, 14, 5, 4, 3, 2, 1, 0, 7, 6,
    14, 15, 8, 9, 10, 11, 12, 13, 2, 3, 4, 5, 6, 7, 0, 1,
    15, 14, 13, 12, 11, 10, 9, 8, 3, 2, 1, 0, 7, 6, 5, 4,
];

/// Entry `a` is the transform that undoes conjugation by `a`.
pub const TRANSFORM_INVERT_LOOKUP: [u8; 16] = [0, 1, 6, 3, 4, 5, 2, 7, 8, 9, 10, 15, 12, 13, 14, 11];

impl SubGroupTransform {
    /// The fifteen transforms other than the identity, in increasing order.
    pub fn nontrivial_iter() -> (r: Vec<Self>)
        ensures
            r@.len() == 15,
            forall|i: int| 0 <= i < 15 ==> r@[i].0 == i + 1,
    {
        let mut v: Vec<SubGroupTransform> = Vec::new();
        let mut i: u8 = 1;
        while i < 16
            invariant
                1 <= i <= 16,
                v@.len() == i - 1,
                forall|k: int| 0 <= k < i - 1 ==> v@[k].0 == k + 1,
            decreases 16 - i,
        {
            v.push(SubGroupTransform(i));
            i += 1;
        }
        v
    }

    /// All sixteen transforms, in increasing order.
    pub fn all_iter() -> (r: Vec<Self>)
        ensures
            r@.len() == 16,
            forall|i: int| 0 <= i < 16 ==> r@[i].0 == i,
    {
        let mut v: Vec<SubGroupTransform> = Vec::new();
        let mut i: u8 = 0;
        while i < 16
            invariant
                i <= 16,
                v@.len() == i,
                forall|k: int| 0 <= k < i ==> v@[k].0 == k,
            decreases 16 - i,
        {
            v.push(SubGroupTransform(i));
            i += 1;
        }
        v
    }

    /// The transform that conjugating by `self` and then by `other` amounts to.
    pub fn then_apply(self, other: Self) -> (r: Self)
        requires
            self.0 < 16,
            other.0 < 16,
        ensures
            r.0 == TRANSFORM_COMPOSE_LOOKUP@[self.0 * 16 + other.0],
            r.0 < 16,
    {
        proof {
            lemma_tables_in_range();
        }
        proof {
            let a = self.0;
            assert(a << 4u8 == a * 16) by (bit_vector)
                requires
                    a < 16,
            ;
        }
        let i = (self.0 << 4) + other.0;
        Self(TRANSFORM_COMPOSE_LOOKUP[i as usize])
    }

    /// The transform that undoes conjugation by `self`.
    pub fn inverse(self) -> (r: Self)
        requires
            self.0 < 16,
        ensures
            r.0 == TRANSFORM_INVERT_LOOKUP@[self.0 as int],
            r.0 < 16,
    {
        proof {
            lemma_tables_in_range();
        }
        Self(TRANSFORM_INVERT_LOOKUP[self.0 as usize])
    }
}

pub proof fn lemma_tables_in_range()
    ensures
        forall|i: int| 0 <= i < 256 ==> TRANSFORM_COMPOSE_LOOKUP@[i] < 16,
        forall|i: int| 0 <= i < 16 ==> TRANSFORM_INVERT_LOOKUP@[i] < 16,
{
}

/// The identity transform is neutral for composition, and each transform composed with its
/// inverse, in either order, is the identity.
pub proof fn law_transform_group(t: u8)
    requires
        t < 16,
    ensures
        TRANSFORM_COMPOSE_LOOKUP@[t as int] == t,
        TRANSFORM_COMPOSE_LOOKUP@[t * 16] == t,
        TRANSFORM_COMPOSE_LOOKUP@[t * 16 + TRANSFORM_INVERT_LOOKUP@[t as int]] == 0,
        TRANSFORM_COMPOSE_LOOKUP@[TRANSFORM_INVERT_LOOKUP@[t as int] * 16 + t] == 0,
{
}

} // verus!
