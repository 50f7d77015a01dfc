use vstd::prelude::*;
use crate::repr_cubie::{
    conj_prefix_state, conj_state, conj_suffix_state, law_then_associative, law_then_identity,
    lemma_constants_wf, lemma_then_wf, mirror_corners, s_f2_state, s_lr2_state, s_u4_state,
    solved_state, state_then, state_wf, CubeState,
};

verus! {

/// Each generating symmetry undone: the left-right mirror and the half turn about F are
/// their own inverses, and quarter turns about U cancel in fours.
proof fn lemma_symmetry_pairs()
    ensures
        state_then(s_lr2_state(), s_lr2_state()) == solved_state(),
        state_then(s_f2_state(), s_f2_state()) == solved_state(),
        state_then(s_u4_state(1), s_u4_state(3)) == solved_state(),
        state_then(s_u4_state(2), s_u4_state(2)) == solved_state(),
        state_then(s_u4_state(3), s_u4_state(1)) == solved_state(),
{
    let a = state_then(s_lr2_state(), s_lr2_state());
    assert(a.corner_perm =~= solved_state().corner_perm);
    assert(a.edge_perm =~= solved_state().edge_perm);
    assert(a.corner_orient =~= solved_state().corner_orient);
    assert(a.edge_orient =~= solved_state().edge_orient);
    let b = state_then(s_f2_state(), s_f2_state());
    assert(b.corner_perm =~= solved_state().corner_perm);
    assert(b.edge_perm =~= solved_state().edge_perm);
    assert(b.corner_orient =~= solved_state().corner_orient);
    assert(b.edge_orient =~= solved_state().edge_orient);
    let c = state_then(s_u4_state(1), s_u4_state(3));
    assert(c.corner_perm =~= solved_state().corner_perm);
    assert(c.edge_perm =~= solved_state().edge_perm);
    assert(c.corner_orient =~= solved_state().corner_orient);
    assert(c.edge_orient =~= solved_state().edge_orient);
    let d = state_then(s_u4_state(2), s_u4_state(2));
    assert(d.corner_perm =~= solved_state().corner_perm);
    assert(d.edge_perm =~= solved_state().edge_perm);
    assert(d.corner_orient =~= solved_state().corner_orient);
    assert(d.edge_orient =~= solved_state().edge_orient);
    let e = state_then(s_u4_state(3), s_u4_state(1));
    assert(e.corner_perm =~= solved_state().corner_perm);
    assert(e.edge_perm =~= solved_state().edge_perm);
    assert(e.corner_orient =~= solved_state().corner_orient);
    assert(e.edge_orient =~= solved_state().edge_orient);
}

/// The left-right mirror when bit 0 of `t` is set.
pub open spec fn lr_part(t: u8) -> CubeState {
    if t % 2 == 1 {
        s_lr2_state()
    } else {
        solved_state()
    }
}

/// The quarter turns about U counted by bits 1 and 2 of `t`.
pub open spec fn u_forward(t: u8) -> CubeState {
    if (t / 2) % 4 == 0 {
        solved_state()
    } else {
        s_u4_state(((t / 2) % 4) as int)
    }
}

/// The quarter turns about U that undo `u_forward`.
pub open spec fn u_backward(t: u8) -> CubeState {
    if (t / 2) % 4 == 0 {
        solved_state()
    } else {
        s_u4_state(4 - (t / 2) % 4)
    }
}

/// The half turn about F when bit 3 of `t` is set.
pub open spec fn f_part(t: u8) -> CubeState {
    if (t / 8) % 2 == 1 {
        s_f2_state()
    } else {
        solved_state()
    }
}

/// The symmetries applied after the cube in a conjugation by `t`, before any mirroring of
/// the twists.
pub open spec fn conj_tail_state(t: u8) -> CubeState {
    state_then(state_then(f_part(t), u_forward(t)), lr_part(t))
}

proof fn lemma_parts_wf(t: u8)
    ensures
        state_wf(lr_part(t)),
        state_wf(u_forward(t)),
        state_wf(u_backward(t)),
        state_wf(f_part(t)),
        state_wf(solved_state()),
{
    lemma_constants_wf();
}

/// The prefix of a conjugation is the mirror, then the backward U turns, then the F half turn.
pub proof fn lemma_prefix_parts(t: u8)
    ensures
        conj_prefix_state(t) == state_then(state_then(lr_part(t), u_backward(t)), f_part(t)),
        state_wf(conj_prefix_state(t)),
{
    lemma_parts_wf(t);
    law_then_identity(lr_part(t));
    law_then_identity(s_lr2_state());
    let w1 = lr_part(t);
    law_then_identity(w1);
    lemma_then_wf(w1, u_backward(t));
    let w2 = state_then(w1, u_backward(t));
    law_then_identity(w2);
    lemma_then_wf(w2, f_part(t));
}

/// The suffix of a conjugation follows the cube by the tail and then mirrors the twists when
/// bit 0 of `t` is set.
pub proof fn lemma_suffix_parts(w: CubeState, t: u8)
    requires
        state_wf(w),
    ensures
        conj_suffix_state(w, t) == (if t % 2 == 1 {
            mirror_corners(state_then(w, conj_tail_state(t)))
        } else {
            state_then(w, conj_tail_state(t))
        }),
        state_wf(conj_tail_state(t)),
{
    lemma_parts_wf(t);
    law_then_identity(w);
    law_then_identity(f_part(t));
    lemma_then_wf(f_part(t), u_forward(t));
    let fu = state_then(f_part(t), u_forward(t));
    lemma_then_wf(fu, lr_part(t));
    law_then_identity(fu);
    // w followed by the F part
    lemma_then_wf(w, f_part(t));
    let w5 = state_then(w, f_part(t));
    law_then_identity(w5);
    // then the U turns
    law_then_associative(w, f_part(t), u_forward(t));
    lemma_then_wf(w5, u_forward(t));
    let w6 = state_then(w5, u_forward(t));
    law_then_identity(w6);
    // then the mirror
    law_then_associative(w, fu, lr_part(t));
}

/// The tail undoes the prefix.
proof fn lemma_tail_undoes_prefix(t: u8)
    ensures
        state_then(conj_tail_state(t), conj_prefix_state(t)) == solved_state(),
{
    lemma_parts_wf(t);
    lemma_prefix_parts(t);
    lemma_symmetry_pairs();
    let x = lr_part(t);
    let y = u_backward(t);
    let y2 = u_forward(t);
    let z = f_part(t);
    let id = solved_state();
    law_then_identity(x);
    law_then_identity(y);
    law_then_identity(y2);
    law_then_identity(z);
    assert(state_then(x, x) == id);
    assert(state_then(y2, y) == id);
    assert(state_then(z, z) == id);
    lemma_then_wf(z, y2);
    let zy = state_then(z, y2);
    lemma_then_wf(x, y);
    let xy = state_then(x, y);
    lemma_then_wf(xy, z);
    lemma_then_wf(y, z);
    let yz = state_then(y, z);
    lemma_then_wf(x, yz);
    lemma_then_wf(x, x);
    // ((z y2) x) ((x y) z) = (z y2) (x ((x y) z))
    law_then_associative(zy, x, state_then(xy, z));
    // (x y) z = x (y z)
    law_then_associative(x, y, z);
    // x (x (y z)) = (x x) (y z) = y z
    law_then_associative(x, x, yz);
    // (z y2) (y z) = z (y2 (y z)) = z ((y2 y) z) = z z
    law_then_associative(z, y2, yz);
    law_then_associative(y2, y, z);
}

/// Mirroring the twists of both cubes mirrors the twists of their composition.
pub proof fn lemma_mirror_then(x: CubeState, y: CubeState)
    requires
        state_wf(x),
        state_wf(y),
    ensures
        state_wf(mirror_corners(x)),
        state_then(mirror_corners(x), mirror_corners(y)) == mirror_corners(state_then(x, y)),
{
    let l = state_then(mirror_corners(x), mirror_corners(y));
    let r = mirror_corners(state_then(x, y));
    assert forall|i: int| 0 <= i < 8 implies l.corner_orient[i] == r.corner_orient[i] by {
        let j = y.corner_perm[i] as int;
        assert(0 <= j < 8);
        assert((x.corner_orient[j] as int) < 3);
        assert((y.corner_orient[i] as int) < 3);
    }
    assert(l.corner_orient =~= r.corner_orient);
    assert(l =~= r);
}

/// Conjugating by a subgroup symmetry respects composition: the conjugate of `a` followed by
/// `b` is the conjugate of `a` followed by the conjugate of `b`.
pub proof fn law_conjugation_homomorphism(a: CubeState, b: CubeState, t: u8)
    requires
        state_wf(a),
        state_wf(b),
    ensures
        conj_state(state_then(a, b), t) == state_then(conj_state(a, t), conj_state(b, t)),
{
    lemma_prefix_parts(t);
    lemma_tail_undoes_prefix(t);
    let p = conj_prefix_state(t);
    let tail = conj_tail_state(t);
    lemma_parts_wf(t);
    lemma_then_wf(a, b);
    let ab = state_then(a, b);
    lemma_then_wf(p, a);
    lemma_then_wf(p, b);
    lemma_then_wf(p, ab);
    let pa = state_then(p, a);
    let pb = state_then(p, b);
    let pab = state_then(p, ab);
    lemma_suffix_parts(pa, t);
    lemma_suffix_parts(pb, t);
    lemma_suffix_parts(pab, t);
    lemma_then_wf(pa, tail);
    lemma_then_wf(pb, tail);
    lemma_then_wf(pab, tail);
    let x = state_then(pa, tail);
    let y = state_then(pb, tail);
    // x y = (p a tail) (p b tail) = p a (tail p) b tail = p a b tail
    lemma_then_wf(tail, p);
    law_then_associative(pa, tail, y);
    law_then_associative(tail, pb, tail);
    law_then_associative(tail, p, b);
    law_then_identity(b);
    lemma_then_wf(b, tail);
    law_then_associative(pa, b, tail);
    law_then_associative(p, a, b);
    if t % 2 == 1 {
        lemma_mirror_then(x, y);
    }
}

/// Conjugating by the identity transform changes nothing.
pub proof fn law_conjugation_identity(c: CubeState)
    requires
        state_wf(c),
    ensures
        conj_state(c, 0) == c,
{
    lemma_prefix_parts(0);
    lemma_parts_wf(0);
    law_then_identity(c);
    law_then_identity(solved_state());
    lemma_suffix_parts(state_then(conj_prefix_state(0), c), 0);
}

} // verus!
