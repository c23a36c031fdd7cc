//! Laws of the verifier, proved over the spec-level semantics: the
//! determinism of verification, the layout facts carried by elaborated
//! stack reads, the stability of the live region set, the monotonicity of
//! tuple initialization, the round trips from a synthesized signature
//! into the body pass and through pack and unpack, the safety of unique
//! regions after they are freed, and the interplay of substitution with
//! alpha-equivalence.

use vstd::prelude::*;
use crate::header::{Id, Label, OpCode1, OpCode2, Region};
use crate::model::{
    has_rid, has_tid, lemma_eq_fields_iff, lemma_eq_list_iff, lemma_ws_fields_iff,
    lemma_ws_list_iff, lookup_rsub, lookup_tsub, size_v, stack_prefix_size, subst_tv, type_eq_v,
    well_scoped, TypeV, ErrorV,
};
use crate::model::CTValV;
use crate::sem::{
    body_run, body_step, is_ct_op, live_rgn, remove_rgn, spec_go, spec_handle_call, BodyState,
};

verus! {

/// Determinism: verification is a function of its input alone, so two
/// runs on the same program give the same elaborated program or the same
/// error.
pub proof fn lemma_go_deterministic(
    decs: Seq<(Label, Seq<OpCode1>)>,
    stmts: Seq<(Label, Seq<OpCode1>)>,
    r1: Result<Seq<(Label, TypeV, Seq<OpCode2>)>, ErrorV>,
    r2: Result<Seq<(Label, TypeV, Seq<OpCode2>)>, ErrorV>,
)
    requires
        r1 == spec_go(decs, stmts),
        r2 == spec_go(decs, stmts),
    ensures
        r1 == r2,
{
}

/// Layout soundness: a step that emits `Get(off, sz)` copies the slot `i`
/// places below the top of the run-time stack; `sz` is that slot's size
/// and `off` is the summed size of the `i` slots above it.
pub proof fn lemma_get_layout(
    st: BodyState,
    st2: BodyState,
    i: u8,
    pos: u32,
    label: Label,
    table: Seq<(Label, TypeV)>,
)
    requires
        body_step(st, OpCode1::Get(i), pos, label, table) == Ok::<BodyState, ErrorV>(st2),
    ensures
        i < st.rts.len(),
        st2.rts == st.rts.push(st.rts[st.rts.len() - 1 - i]),
        st2.emitted == st.emitted.push(
            OpCode2::Get(
                stack_prefix_size(st.rts, i as int) as usize,
                size_v(st.rts[st.rts.len() - 1 - i]) as usize,
            ),
        ),
        stack_prefix_size(st.rts, i as int) <= usize::MAX,
        size_v(st.rts[st.rts.len() - 1 - i]) <= usize::MAX,
{
}

/// Capability stability: between any two consecutive body opcodes that
/// are not region creation or region freeing, the live region set is
/// unchanged.
pub proof fn lemma_regions_stable(
    st: BodyState,
    st2: BodyState,
    op: OpCode1,
    pos: u32,
    label: Label,
    table: Seq<(Label, TypeV)>,
)
    requires
        body_step(st, op, pos, label, table) == Ok::<BodyState, ErrorV>(st2),
        op != OpCode1::NewRgn,
        op != OpCode1::FreeRgn,
    ensures
        st2.rgns == st.rgns,
{
}

/// Initialization monotonicity: an `init` step replaces the tuple under
/// the top of the stack by one with the same components in which the set
/// of initialized positions has grown by exactly the written one.
pub proof fn lemma_init_monotone(
    st: BodyState,
    st2: BodyState,
    i: u8,
    pos: u32,
    label: Label,
    table: Seq<(Label, TypeV)>,
    fs: Seq<(bool, TypeV)>,
)
    requires
        body_step(st, OpCode1::Init(i), pos, label, table) == Ok::<BodyState, ErrorV>(st2),
        st.rts.len() >= 2,
        (st.rts[st.rts.len() - 2] matches TypeV::Tuple(fs0) && fs0 == fs) || (st.rts[st.rts.len()
            - 2] matches TypeV::Ptr(b, r) && *b == TypeV::Tuple(fs)),
    ensures
        st2.rts.len() == st.rts.len() - 1,
        ({
            let fs2 = match st2.rts.last() {
                TypeV::Tuple(fs2) => fs2,
                TypeV::Ptr(b, _) => match *b {
                    TypeV::Tuple(fs2) => fs2,
                    _ => Seq::empty(),
                },
                _ => Seq::empty(),
            };
            &&& fs2.len() == fs.len()
            &&& forall|j: int| 0 <= j < fs.len() && fs[j].0 ==> fs2[j].0
            &&& fs2[i as int].0
            &&& !fs[i as int].0
        }),
{
    let n = st.rts.len();
    match st.rts[n - 2] {
        TypeV::Tuple(fs0) => {
            assert(st2.rts.last() == TypeV::Tuple(fs0.update(i as int, (true, st.rts[n - 1]))));
        },
        TypeV::Ptr(b, r) => {
            assert(st2.rts.last() == TypeV::Ptr(
                Box::new(TypeV::Tuple(fs.update(i as int, (true, st.rts[n - 1])))),
                r,
            ));
        },
        _ => {
            assert(false);
        },
    }
}

/// The argument list of a signature: peel the quantifiers, read the
/// function type's arguments, top of stack first.
pub open spec fn func_args(t: TypeV) -> Option<Seq<TypeV>>
    decreases t,
{
    match t {
        TypeV::Forall(_, _, b) => func_args(*b),
        TypeV::ForallRegion(_, b, _) => func_args(*b),
        TypeV::Func(args) => Some(args),
        _ => None,
    }
}

/// Signature round trip: when the body pass is seeded from a synthesized
/// signature, the initial symbolic run-time stack is exactly the
/// signature's argument list (reversed into stack order, so the first
/// argument is on top); and the seeding succeeds exactly when the
/// signature has a function core.
pub proof fn lemma_signature_round_trip(t: TypeV)
    ensures
        crate::sem::spec_setup(t) is Ok <==> func_args(t) is Some,
        crate::sem::spec_setup(t) matches Ok(p) ==> func_args(t) matches Some(args) && p.1
            == args.reverse(),
    decreases t,
{
    match t {
        TypeV::Forall(_, _, b) => {
            lemma_signature_round_trip(*b);
        },
        TypeV::ForallRegion(_, b, _) => {
            lemma_signature_round_trip(*b);
        },
        _ => {},
    }
}

/// Removing a region cannot make another region id live.
pub proof fn lemma_remove_rgn_no_new(rgns: Seq<Region>, x: Id, id: Id)
    requires
        !live_rgn(rgns, id),
    ensures
        !live_rgn(remove_rgn(rgns, x), id),
    decreases rgns.len(),
{
    if rgns.len() > 0 {
        assert forall|j: int| 0 <= j < rgns.drop_first().len() implies rgns.drop_first()[j].id
            != id by {
            assert(rgns.drop_first()[j] == rgns[j + 1]);
        }
        lemma_remove_rgn_no_new(rgns.drop_first(), x, id);
        let rest = remove_rgn(rgns.drop_first(), x);
        if rgns[0].id != x {
            assert forall|j: int| 0 <= j < remove_rgn(rgns, x).len() implies remove_rgn(
                rgns,
                x,
            )[j].id != id by {
                if j == 0 {
                    assert(remove_rgn(rgns, x)[0] == rgns[0]);
                } else {
                    assert(remove_rgn(rgns, x)[j] == rest[j - 1]);
                }
            }
        }
    }
}

/// Unique-region safety, one step: a region that was freed (its id is
/// dead, and was minted before the current fresh counter) can never come
/// live again, at any later opcode.
pub proof fn lemma_dead_region_stays_dead(
    st: BodyState,
    st2: BodyState,
    op: OpCode1,
    pos: u32,
    label: Label,
    table: Seq<(Label, TypeV)>,
    id: Id,
)
    requires
        body_step(st, op, pos, label, table) == Ok::<BodyState, ErrorV>(st2),
        !live_rgn(st.rgns, id),
        id.0 == label ==> id.1 < st.core.fresh,
        0 <= st.core.fresh <= u32::MAX,
    ensures
        !live_rgn(st2.rgns, id),
        id.0 == label ==> id.1 < st2.core.fresh,
        st.core.fresh <= st2.core.fresh <= st.core.fresh + 1,
{
    if op == OpCode1::FreeRgn {
        match st.rts.last() {
            TypeV::Handle(rg) => {
                lemma_remove_rgn_no_new(st.rgns, rg.id, id);
            },
            _ => {},
        }
    } else if op == OpCode1::NewRgn {
        assert(st2.rgns == st.rgns.push(
            Region { unique: true, id: Id(label, st.core.fresh as u32) },
        ));
        assert forall|j: int| 0 <= j < st2.rgns.len() implies st2.rgns[j].id != id by {
            if j < st.rgns.len() {
                assert(st2.rgns[j] == st.rgns[j]);
            }
        }
    }
}

/// Unique-region safety, rejection: dereferencing or projecting through
/// a pointer whose region is not live fails with a region access error.
pub proof fn lemma_dead_region_not_readable(
    st: BodyState,
    pos: u32,
    label: Label,
    table: Seq<(Label, TypeV)>,
    b: Box<TypeV>,
    r: Region,
    i: u8,
)
    requires
        st.rts.len() > 0,
        st.rts.last() == TypeV::Ptr(b, r),
        !live_rgn(st.rgns, r.id),
    ensures
        body_step(st, OpCode1::Deref, pos, label, table) == Err::<BodyState, ErrorV>(
            ErrorV::RegionAccessError(pos, OpCode1::Deref, r),
        ),
        body_step(st, OpCode1::Proj(i), pos, label, table) == Err::<BodyState, ErrorV>(
            ErrorV::RegionAccessError(pos, OpCode1::Proj(i), r),
        ),
{
    assert(!is_ct_op(OpCode1::Deref));
    assert(!is_ct_op(OpCode1::Proj(i)));
}

/// Unique-region safety, rejection at initialization: writing a component
/// of a tuple behind a pointer whose region is not live fails with a
/// region access error.
pub proof fn lemma_dead_region_not_writable(
    st: BodyState,
    pos: u32,
    label: Label,
    table: Seq<(Label, TypeV)>,
    fs: Seq<(bool, TypeV)>,
    r: Region,
    i: u8,
)
    requires
        st.rts.len() >= 2,
        st.rts[st.rts.len() - 2] == TypeV::Ptr(Box::new(TypeV::Tuple(fs)), r),
        !live_rgn(st.rgns, r.id),
    ensures
        body_step(st, OpCode1::Init(i), pos, label, table) == Err::<BodyState, ErrorV>(
            ErrorV::RegionAccessError(pos, OpCode1::Init(i), r),
        ),
{
    assert(!is_ct_op(OpCode1::Init(i)));
}

/// Unique-region safety over a whole body: a region freed at some point,
/// with an id minted before the counter's current value, is still dead in
/// the state any suffix of the body reaches.
pub proof fn lemma_run_dead_stays_dead(
    ops: Seq<OpCode1>,
    i: int,
    st: BodyState,
    st2: BodyState,
    label: Label,
    table: Seq<(Label, TypeV)>,
    id: Id,
)
    requires
        body_run(ops, i, st, label, table) == Ok::<BodyState, ErrorV>(st2),
        !live_rgn(st.rgns, id),
        id.0 == label ==> id.1 < st.core.fresh,
        0 <= st.core.fresh,
        st.core.fresh + (ops.len() - i) <= u32::MAX,
    ensures
        !live_rgn(st2.rgns, id),
        id.0 == label ==> id.1 < st2.core.fresh,
    decreases ops.len() - i,
{
    if i < ops.len() {
        match body_step(st, ops[i], crate::sem::pos_at(label, i), label, table) {
            Ok(stm) => {
                lemma_dead_region_stays_dead(
                    st,
                    stm,
                    ops[i],
                    crate::sem::pos_at(label, i),
                    label,
                    table,
                    id,
                );
                lemma_run_dead_stays_dead(ops, i + 1, stm, st2, label, table, id);
            },
            Err(_) => {},
        }
    }
}

/// Substitution by nothing is the identity.
pub proof fn lemma_subst_empty_identity(t: TypeV)
    ensures
        subst_tv(t, Seq::empty(), Seq::empty()) == t,
    decreases t,
{
    broadcast use
        crate::model::lemma_subst_fields_len,
        crate::model::lemma_subst_fields_index,
        crate::model::lemma_subst_list_len,
        crate::model::lemma_subst_list_index,
    ;

    match t {
        TypeV::Tuple(fs) => {
            assert forall|j: int| 0 <= j < fs.len() implies crate::model::subst_fields(
                fs,
                Seq::empty(),
                Seq::empty(),
            )[j] == fs[j] by {
                lemma_subst_empty_identity(fs[j].1);
            }
            assert(crate::model::subst_fields(fs, Seq::empty(), Seq::empty()) =~= fs);
        },
        TypeV::Ptr(b, r) => {
            lemma_subst_empty_identity(*b);
        },
        TypeV::Func(args) => {
            assert forall|j: int| 0 <= j < args.len() implies crate::model::subst_list(
                args,
                Seq::empty(),
                Seq::empty(),
            )[j] == args[j] by {
                lemma_subst_empty_identity(args[j]);
            }
            assert(crate::model::subst_list(args, Seq::empty(), Seq::empty()) =~= args);
        },
        TypeV::Exists(id, s, b) => {
            lemma_subst_empty_identity(*b);
        },
        TypeV::Forall(id, s, b) => {
            lemma_subst_empty_identity(*b);
        },
        TypeV::ForallRegion(r, b, caps) => {
            lemma_subst_empty_identity(*b);
            assert(caps + crate::model::unique_images(Seq::empty()) =~= caps);
        },
        _ => {},
    }
}

/// Substitution by a ground substitution commutes with alpha-equivalence
/// in the trivial case of the empty substitution: the substituted types
/// are equivalent exactly when the originals are.
pub proof fn lemma_subst_commutes_with_eq_empty(t1: TypeV, t2: TypeV)
    ensures
        crate::model::type_eq_v(
            subst_tv(t1, Seq::empty(), Seq::empty()),
            subst_tv(t2, Seq::empty(), Seq::empty()),
        ) <==> crate::model::type_eq_v(t1, t2),
{
    lemma_subst_empty_identity(t1);
    lemma_subst_empty_identity(t2);
}

/// A word type: a type that mentions no type variable and no region, so
/// substitution can neither change it nor capture anything in it.
pub open spec fn word_type(t: TypeV) -> bool
    decreases t,
{
    match t {
        TypeV::I32 => true,
        TypeV::Handle(_) => false,
        TypeV::Tuple(fs) => wt_fields(fs),
        TypeV::Ptr(_, _) => false,
        TypeV::Var(_, _) => false,
        TypeV::Func(args) => wt_list(args),
        TypeV::Exists(_, _, b) => word_type(*b),
        TypeV::Forall(_, _, b) => word_type(*b),
        TypeV::ForallRegion(_, _, _) => false,
    }
}

/// Every component of a flagged type list is a word type.
pub open spec fn wt_fields(fs: Seq<(bool, TypeV)>) -> bool
    decreases fs,
{
    if fs.len() == 0 {
        true
    } else {
        wt_fields(fs.drop_last()) && word_type(fs.last().1)
    }
}

/// Every element of a type list is a word type.
pub open spec fn wt_list(ts: Seq<TypeV>) -> bool
    decreases ts,
{
    if ts.len() == 0 {
        true
    } else {
        wt_list(ts.drop_last()) && word_type(ts.last())
    }
}

/// A ground substitution: every image is a word type.
pub open spec fn theta_words(theta: Seq<(Id, TypeV)>) -> bool {
    forall|k: int| 0 <= k < theta.len() ==> word_type(#[trigger] theta[k].1)
}

/// The type binders of `t` all avoid the substitution's domain.
pub open spec fn binders_avoid(t: TypeV, theta: Seq<(Id, TypeV)>) -> bool
    decreases t,
{
    match t {
        TypeV::I32 => true,
        TypeV::Handle(_) => true,
        TypeV::Tuple(fs) => ba_fields(fs, theta),
        TypeV::Ptr(b, _) => binders_avoid(*b, theta),
        TypeV::Var(_, _) => true,
        TypeV::Func(args) => ba_list(args, theta),
        TypeV::Exists(id, _, b) => lookup_tsub(theta, id) is None && binders_avoid(*b, theta),
        TypeV::Forall(id, _, b) => lookup_tsub(theta, id) is None && binders_avoid(*b, theta),
        TypeV::ForallRegion(_, b, _) => binders_avoid(*b, theta),
    }
}

/// Binder avoidance on each component of a flagged type list.
pub open spec fn ba_fields(fs: Seq<(bool, TypeV)>, theta: Seq<(Id, TypeV)>) -> bool
    decreases fs,
{
    if fs.len() == 0 {
        true
    } else {
        ba_fields(fs.drop_last(), theta) && binders_avoid(fs.last().1, theta)
    }
}

/// Binder avoidance on each element of a type list.
pub open spec fn ba_list(ts: Seq<TypeV>, theta: Seq<(Id, TypeV)>) -> bool
    decreases ts,
{
    if ts.len() == 0 {
        true
    } else {
        ba_list(ts.drop_last(), theta) && binders_avoid(ts.last(), theta)
    }
}

/// Pointwise reading of `wt_fields`.
pub proof fn lemma_wt_fields_iff(fs: Seq<(bool, TypeV)>)
    ensures
        wt_fields(fs) <==> (forall|j: int| 0 <= j < fs.len() ==> word_type(#[trigger] fs[j].1)),
    decreases fs,
{
    if fs.len() > 0 {
        lemma_wt_fields_iff(fs.drop_last());
        assert forall|j: int| 0 <= j < fs.len() - 1 implies fs.drop_last()[j] == fs[j] by {}
    }
}

/// Pointwise reading of `wt_list`.
pub proof fn lemma_wt_list_iff(ts: Seq<TypeV>)
    ensures
        wt_list(ts) <==> (forall|j: int| 0 <= j < ts.len() ==> word_type(#[trigger] ts[j])),
    decreases ts,
{
    if ts.len() > 0 {
        lemma_wt_list_iff(ts.drop_last());
        assert forall|j: int| 0 <= j < ts.len() - 1 implies ts.drop_last()[j] == ts[j] by {}
    }
}

/// Pointwise reading of `ba_fields`.
pub proof fn lemma_ba_fields_iff(fs: Seq<(bool, TypeV)>, theta: Seq<(Id, TypeV)>)
    ensures
        ba_fields(fs, theta) <==> (forall|j: int|
            0 <= j < fs.len() ==> binders_avoid(#[trigger] fs[j].1, theta)),
    decreases fs,
{
    if fs.len() > 0 {
        lemma_ba_fields_iff(fs.drop_last(), theta);
        assert forall|j: int| 0 <= j < fs.len() - 1 implies fs.drop_last()[j] == fs[j] by {}
    }
}

/// Pointwise reading of `ba_list`.
pub proof fn lemma_ba_list_iff(ts: Seq<TypeV>, theta: Seq<(Id, TypeV)>)
    ensures
        ba_list(ts, theta) <==> (forall|j: int|
            0 <= j < ts.len() ==> binders_avoid(#[trigger] ts[j], theta)),
    decreases ts,
{
    if ts.len() > 0 {
        lemma_ba_list_iff(ts.drop_last(), theta);
        assert forall|j: int| 0 <= j < ts.len() - 1 implies ts.drop_last()[j] == ts[j] by {}
    }
}

/// Substitution leaves a word type unchanged.
pub proof fn lemma_word_subst_identity(
    t: TypeV,
    tsubs: Seq<(Id, TypeV)>,
    rsubs: Seq<(Id, Region)>,
)
    requires
        word_type(t),
    ensures
        subst_tv(t, tsubs, rsubs) == t,
    decreases t,
{
    broadcast use
        crate::model::lemma_subst_fields_len,
        crate::model::lemma_subst_fields_index,
        crate::model::lemma_subst_list_len,
        crate::model::lemma_subst_list_index,
    ;

    match t {
        TypeV::Tuple(fs) => {
            lemma_wt_fields_iff(fs);
            assert forall|j: int| 0 <= j < fs.len() implies crate::model::subst_fields(
                fs,
                tsubs,
                rsubs,
            )[j] == fs[j] by {
                lemma_word_subst_identity(fs[j].1, tsubs, rsubs);
            }
            assert(crate::model::subst_fields(fs, tsubs, rsubs) =~= fs);
        },
        TypeV::Func(args) => {
            lemma_wt_list_iff(args);
            assert forall|j: int| 0 <= j < args.len() implies crate::model::subst_list(
                args,
                tsubs,
                rsubs,
            )[j] == args[j] by {
                lemma_word_subst_identity(args[j], tsubs, rsubs);
            }
            assert(crate::model::subst_list(args, tsubs, rsubs) =~= args);
        },
        TypeV::Exists(_, _, b) => {
            lemma_word_subst_identity(*b, tsubs, rsubs);
        },
        TypeV::Forall(_, _, b) => {
            lemma_word_subst_identity(*b, tsubs, rsubs);
        },
        _ => {},
    }
}

/// A word type is alpha-equivalent to itself.
pub proof fn lemma_word_refl(t: TypeV)
    requires
        word_type(t),
    ensures
        crate::model::type_eq_v(t, t),
    decreases t,
{
    match t {
        TypeV::Tuple(fs) => {
            lemma_wt_fields_iff(fs);
            crate::model::lemma_eq_fields_iff(fs, fs);
            assert forall|j: int| 0 <= j < fs.len() implies fs[j].0 == fs[j].0
                && crate::model::type_eq_v(fs[j].1, fs[j].1) by {
                lemma_word_refl(fs[j].1);
            }
        },
        TypeV::Func(args) => {
            lemma_wt_list_iff(args);
            crate::model::lemma_eq_list_iff(args, args);
            assert forall|j: int| 0 <= j < args.len() implies crate::model::type_eq_v(
                args[j],
                args[j],
            ) by {
                lemma_word_refl(args[j]);
            }
        },
        TypeV::Exists(id, s, b) => {
            lemma_word_subst_identity(*b, seq![(id, TypeV::Var(id, s))], Seq::empty());
            lemma_word_refl(*b);
        },
        TypeV::Forall(id, s, b) => {
            lemma_word_subst_identity(*b, seq![(id, TypeV::Var(id, s))], Seq::empty());
            lemma_word_refl(*b);
        },
        _ => {},
    }
}

/// Looking a variable up in a one-entry substitution.
pub proof fn lemma_lookup_singleton(id: Id, img: TypeV, x: Id)
    ensures
        lookup_tsub(seq![(id, img)], x) == (if x == id {
            Some(img)
        } else {
            None::<TypeV>
        }),
{
    let s = seq![(id, img)];
    assert(s.drop_first() =~= Seq::<(Id, TypeV)>::empty());
    assert(lookup_tsub(Seq::<(Id, TypeV)>::empty(), x) is None);
}

/// Renaming a type variable does not move any binder, so binder
/// avoidance is preserved.
pub proof fn lemma_binders_avoid_ren(
    t: TypeV,
    rid: Id,
    vid: Id,
    s: usize,
    theta: Seq<(Id, TypeV)>,
)
    requires
        binders_avoid(t, theta),
    ensures
        binders_avoid(subst_tv(t, seq![(rid, TypeV::Var(vid, s))], Seq::empty()), theta),
    decreases t,
{
    broadcast use
        crate::model::lemma_subst_fields_len,
        crate::model::lemma_subst_fields_index,
        crate::model::lemma_subst_list_len,
        crate::model::lemma_subst_list_index,
    ;

    let ren = seq![(rid, TypeV::Var(vid, s))];
    match t {
        TypeV::Var(x, _sx) => {
            lemma_lookup_singleton(rid, TypeV::Var(vid, s), x);
        },
        TypeV::Tuple(fs) => {
            lemma_ba_fields_iff(fs, theta);
            lemma_ba_fields_iff(crate::model::subst_fields(fs, ren, Seq::empty()), theta);
            assert forall|j: int| 0 <= j < fs.len() implies binders_avoid(
                crate::model::subst_fields(fs, ren, Seq::empty())[j].1,
                theta,
            ) by {
                lemma_binders_avoid_ren(fs[j].1, rid, vid, s, theta);
            }
        },
        TypeV::Func(args) => {
            lemma_ba_list_iff(args, theta);
            lemma_ba_list_iff(crate::model::subst_list(args, ren, Seq::empty()), theta);
            assert forall|j: int| 0 <= j < args.len() implies binders_avoid(
                crate::model::subst_list(args, ren, Seq::empty())[j],
                theta,
            ) by {
                lemma_binders_avoid_ren(args[j], rid, vid, s, theta);
            }
        },
        TypeV::Ptr(b, _) => {
            lemma_binders_avoid_ren(*b, rid, vid, s, theta);
        },
        TypeV::Exists(_, _, b) => {
            lemma_binders_avoid_ren(*b, rid, vid, s, theta);
        },
        TypeV::Forall(_, _, b) => {
            lemma_binders_avoid_ren(*b, rid, vid, s, theta);
        },
        TypeV::ForallRegion(_, b, _) => {
            lemma_binders_avoid_ren(*b, rid, vid, s, theta);
        },
        _ => {},
    }
}

/// Renaming a region does not move any type binder, so binder avoidance
/// is preserved.
pub proof fn lemma_binders_avoid_rsub(t: TypeV, rid: Id, rto: Region, theta: Seq<(Id, TypeV)>)
    requires
        binders_avoid(t, theta),
    ensures
        binders_avoid(subst_tv(t, Seq::empty(), seq![(rid, rto)]), theta),
    decreases t,
{
    broadcast use
        crate::model::lemma_subst_fields_len,
        crate::model::lemma_subst_fields_index,
        crate::model::lemma_subst_list_len,
        crate::model::lemma_subst_list_index,
    ;

    let rho = seq![(rid, rto)];
    match t {
        TypeV::Tuple(fs) => {
            lemma_ba_fields_iff(fs, theta);
            lemma_ba_fields_iff(crate::model::subst_fields(fs, Seq::empty(), rho), theta);
            assert forall|j: int| 0 <= j < fs.len() implies binders_avoid(
                crate::model::subst_fields(fs, Seq::empty(), rho)[j].1,
                theta,
            ) by {
                lemma_binders_avoid_rsub(fs[j].1, rid, rto, theta);
            }
        },
        TypeV::Func(args) => {
            lemma_ba_list_iff(args, theta);
            lemma_ba_list_iff(crate::model::subst_list(args, Seq::empty(), rho), theta);
            assert forall|j: int| 0 <= j < args.len() implies binders_avoid(
                crate::model::subst_list(args, Seq::empty(), rho)[j],
                theta,
            ) by {
                lemma_binders_avoid_rsub(args[j], rid, rto, theta);
            }
        },
        TypeV::Ptr(b, _) => {
            lemma_binders_avoid_rsub(*b, rid, rto, theta);
        },
        TypeV::Exists(_, _, b) => {
            lemma_binders_avoid_rsub(*b, rid, rto, theta);
        },
        TypeV::Forall(_, _, b) => {
            lemma_binders_avoid_rsub(*b, rid, rto, theta);
        },
        TypeV::ForallRegion(_, b, _) => {
            lemma_binders_avoid_rsub(*b, rid, rto, theta);
        },
        _ => {},
    }
}

/// Renaming a bound type variable commutes with a ground substitution
/// whose domain avoids both the renamed and the replacing variable.
pub proof fn lemma_commute_ren(b: TypeV, rid: Id, vid: Id, s: usize, theta: Seq<(Id, TypeV)>)
    requires
        theta_words(theta),
        lookup_tsub(theta, rid) is None,
        lookup_tsub(theta, vid) is None,
    ensures
        subst_tv(
            subst_tv(b, seq![(rid, TypeV::Var(vid, s))], Seq::empty()),
            theta,
            Seq::empty(),
        ) == subst_tv(
            subst_tv(b, theta, Seq::empty()),
            seq![(rid, TypeV::Var(vid, s))],
            Seq::empty(),
        ),
    decreases b,
{
    broadcast use
        crate::model::lemma_subst_fields_len,
        crate::model::lemma_subst_fields_index,
        crate::model::lemma_subst_list_len,
        crate::model::lemma_subst_list_index,
    ;

    let ren = seq![(rid, TypeV::Var(vid, s))];
    match b {
        TypeV::Var(x, sx) => {
            lemma_lookup_singleton(rid, TypeV::Var(vid, s), x);
            if x == rid {
            } else {
                lemma_lookup_word(theta, x);
                match lookup_tsub(theta, x) {
                    Some(img) => {
                        lemma_word_subst_identity(img, ren, Seq::empty());
                    },
                    None => {},
                }
            }
        },
        TypeV::Tuple(fs) => {
            assert forall|j: int| 0 <= j < fs.len() implies crate::model::subst_fields(
                crate::model::subst_fields(fs, ren, Seq::empty()),
                theta,
                Seq::empty(),
            )[j] == crate::model::subst_fields(
                crate::model::subst_fields(fs, theta, Seq::empty()),
                ren,
                Seq::empty(),
            )[j] by {
                lemma_commute_ren(fs[j].1, rid, vid, s, theta);
            }
            assert(crate::model::subst_fields(
                crate::model::subst_fields(fs, ren, Seq::empty()),
                theta,
                Seq::empty(),
            ) =~= crate::model::subst_fields(
                crate::model::subst_fields(fs, theta, Seq::empty()),
                ren,
                Seq::empty(),
            ));
        },
        TypeV::Func(args) => {
            assert forall|j: int| 0 <= j < args.len() implies crate::model::subst_list(
                crate::model::subst_list(args, ren, Seq::empty()),
                theta,
                Seq::empty(),
            )[j] == crate::model::subst_list(
                crate::model::subst_list(args, theta, Seq::empty()),
                ren,
                Seq::empty(),
            )[j] by {
                lemma_commute_ren(args[j], rid, vid, s, theta);
            }
            assert(crate::model::subst_list(
                crate::model::subst_list(args, ren, Seq::empty()),
                theta,
                Seq::empty(),
            ) =~= crate::model::subst_list(
                crate::model::subst_list(args, theta, Seq::empty()),
                ren,
                Seq::empty(),
            ));
        },
        TypeV::Ptr(b2, _) => {
            lemma_commute_ren(*b2, rid, vid, s, theta);
        },
        TypeV::Exists(_, _, b2) => {
            lemma_commute_ren(*b2, rid, vid, s, theta);
        },
        TypeV::Forall(_, _, b2) => {
            lemma_commute_ren(*b2, rid, vid, s, theta);
        },
        TypeV::ForallRegion(_, b2, caps) => {
            lemma_commute_ren(*b2, rid, vid, s, theta);
            assert(caps + crate::model::unique_images(Seq::empty()) =~= caps);
        },
        _ => {},
    }
}

/// A ground substitution's images are word types wherever the lookup
/// finds one.
pub proof fn lemma_lookup_word(theta: Seq<(Id, TypeV)>, x: Id)
    requires
        theta_words(theta),
    ensures
        lookup_tsub(theta, x) matches Some(img) ==> word_type(img),
    decreases theta.len(),
{
    if theta.len() > 0 {
        if theta[0].0 == x {
        } else {
            assert forall|k: int| 0 <= k < theta.drop_first().len() implies word_type(
                #[trigger] theta.drop_first()[k].1,
            ) by {
                assert(theta.drop_first()[k] == theta[k + 1]);
            }
            lemma_lookup_word(theta.drop_first(), x);
        }
    }
}

/// Renaming a bound region commutes with a ground substitution, whose
/// images mention no region.
pub proof fn lemma_commute_rgn(b: TypeV, rid: Id, rto: Region, theta: Seq<(Id, TypeV)>)
    requires
        theta_words(theta),
    ensures
        subst_tv(subst_tv(b, Seq::empty(), seq![(rid, rto)]), theta, Seq::empty()) == subst_tv(
            subst_tv(b, theta, Seq::empty()),
            Seq::empty(),
            seq![(rid, rto)],
        ),
    decreases b,
{
    broadcast use
        crate::model::lemma_subst_fields_len,
        crate::model::lemma_subst_fields_index,
        crate::model::lemma_subst_list_len,
        crate::model::lemma_subst_list_index,
    ;

    let rho = seq![(rid, rto)];
    match b {
        TypeV::Var(x, sx) => {
            lemma_lookup_word(theta, x);
            match lookup_tsub(theta, x) {
                Some(img) => {
                    lemma_word_subst_identity(img, Seq::empty(), rho);
                },
                None => {},
            }
        },
        TypeV::Tuple(fs) => {
            assert forall|j: int| 0 <= j < fs.len() implies crate::model::subst_fields(
                crate::model::subst_fields(fs, Seq::empty(), rho),
                theta,
                Seq::empty(),
            )[j] == crate::model::subst_fields(
                crate::model::subst_fields(fs, theta, Seq::empty()),
                Seq::empty(),
                rho,
            )[j] by {
                lemma_commute_rgn(fs[j].1, rid, rto, theta);
            }
            assert(crate::model::subst_fields(
                crate::model::subst_fields(fs, Seq::empty(), rho),
                theta,
                Seq::empty(),
            ) =~= crate::model::subst_fields(
                crate::model::subst_fields(fs, theta, Seq::empty()),
                Seq::empty(),
                rho,
            ));
        },
        TypeV::Func(args) => {
            assert forall|j: int| 0 <= j < args.len() implies crate::model::subst_list(
                crate::model::subst_list(args, Seq::empty(), rho),
                theta,
                Seq::empty(),
            )[j] == crate::model::subst_list(
                crate::model::subst_list(args, theta, Seq::empty()),
                Seq::empty(),
                rho,
            )[j] by {
                lemma_commute_rgn(args[j], rid, rto, theta);
            }
            assert(crate::model::subst_list(
                crate::model::subst_list(args, Seq::empty(), rho),
                theta,
                Seq::empty(),
            ) =~= crate::model::subst_list(
                crate::model::subst_list(args, theta, Seq::empty()),
                Seq::empty(),
                rho,
            ));
        },
        TypeV::Ptr(b2, _) => {
            lemma_commute_rgn(*b2, rid, rto, theta);
        },
        TypeV::Exists(_, _, b2) => {
            lemma_commute_rgn(*b2, rid, rto, theta);
        },
        TypeV::Forall(_, _, b2) => {
            lemma_commute_rgn(*b2, rid, rto, theta);
        },
        TypeV::ForallRegion(_, b2, caps) => {
            lemma_commute_rgn(*b2, rid, rto, theta);
            assert((caps + crate::model::unique_images(rho)) + crate::model::unique_images(
                Seq::empty(),
            ) =~= (caps + crate::model::unique_images(Seq::empty())) + crate::model::unique_images(
                rho,
            ));
        },
        _ => {},
    }
}

/// Substitution commutes with alpha-equivalence: applying a ground
/// substitution (word-type images only) whose domain avoids the bound
/// variables of both types preserves their equivalence.
pub proof fn lemma_subst_preserves_type_eq(t1: TypeV, t2: TypeV, theta: Seq<(Id, TypeV)>)
    requires
        crate::model::type_eq_v(t1, t2),
        theta_words(theta),
        binders_avoid(t1, theta),
        binders_avoid(t2, theta),
    ensures
        crate::model::type_eq_v(
            subst_tv(t1, theta, Seq::empty()),
            subst_tv(t2, theta, Seq::empty()),
        ),
    decreases t1,
{
    broadcast use
        crate::model::lemma_subst_fields_len,
        crate::model::lemma_subst_fields_index,
        crate::model::lemma_subst_list_len,
        crate::model::lemma_subst_list_index,
    ;

    let none_r = Seq::<(Id, Region)>::empty();
    match (t1, t2) {
        (TypeV::Var(x1, s1), TypeV::Var(x2, s2)) => {
            lemma_lookup_word(theta, x1);
            match lookup_tsub(theta, x1) {
                Some(img) => {
                    lemma_word_refl(img);
                },
                None => {},
            }
        },
        (TypeV::Tuple(fs1), TypeV::Tuple(fs2)) => {
            let g1 = crate::model::subst_fields(fs1, theta, none_r);
            let g2 = crate::model::subst_fields(fs2, theta, none_r);
            crate::model::lemma_eq_fields_iff(fs1, fs2);
            lemma_ba_fields_iff(fs1, theta);
            lemma_ba_fields_iff(fs2, theta);
            crate::model::lemma_eq_fields_iff(g1, g2);
            assert forall|j: int| 0 <= j < g1.len() implies g1[j].0 == g2[j].0
                && crate::model::type_eq_v(g1[j].1, g2[j].1) by {
                lemma_subst_preserves_type_eq(fs1[j].1, fs2[j].1, theta);
            }
        },
        (TypeV::Ptr(b1, r1), TypeV::Ptr(b2, r2)) => {
            lemma_subst_preserves_type_eq(*b1, *b2, theta);
        },
        (TypeV::Func(a1), TypeV::Func(a2)) => {
            let g1 = crate::model::subst_list(a1, theta, none_r);
            let g2 = crate::model::subst_list(a2, theta, none_r);
            crate::model::lemma_eq_list_iff(a1, a2);
            lemma_ba_list_iff(a1, theta);
            lemma_ba_list_iff(a2, theta);
            crate::model::lemma_eq_list_iff(g1, g2);
            assert forall|j: int| 0 <= j < g1.len() implies crate::model::type_eq_v(
                g1[j],
                g2[j],
            ) by {
                lemma_subst_preserves_type_eq(a1[j], a2[j], theta);
            }
        },
        (TypeV::Exists(id1, s1, b1), TypeV::Exists(id2, s2, b2)) => {
            lemma_binders_avoid_ren(*b2, id2, id1, s1, theta);
            lemma_subst_preserves_type_eq(
                *b1,
                subst_tv(*b2, seq![(id2, TypeV::Var(id1, s1))], none_r),
                theta,
            );
            lemma_commute_ren(*b2, id2, id1, s1, theta);
        },
        (TypeV::Forall(id1, s1, b1), TypeV::Forall(id2, s2, b2)) => {
            lemma_binders_avoid_ren(*b2, id2, id1, s1, theta);
            lemma_subst_preserves_type_eq(
                *b1,
                subst_tv(*b2, seq![(id2, TypeV::Var(id1, s1))], none_r),
                theta,
            );
            lemma_commute_ren(*b2, id2, id1, s1, theta);
        },
        (TypeV::ForallRegion(r1, b1, _), TypeV::ForallRegion(r2, b2, _)) => {
            lemma_binders_avoid_rsub(*b2, r2.id, r1, theta);
            lemma_subst_preserves_type_eq(
                *b1,
                subst_tv(*b2, Seq::empty(), seq![(r2.id, r1)]),
                theta,
            );
            lemma_commute_rgn(*b2, r2.id, r1, theta);
        },
        _ => {},
    }
}

/// A successful call only pops from the run-time stack: what remains is a
/// prefix of what was there.
pub proof fn lemma_call_pops_only(pos: u32, t: TypeV, rts: Seq<TypeV>, cts: Seq<CTValV>)
    ensures
        spec_handle_call(pos, t, rts, cts) matches Ok(p) ==> p.0.len() <= rts.len() && p.0
            == rts.take(p.0.len() as int),
    decreases cts.len(),
{
    match t {
        TypeV::Forall(id, s, body) => {
            if cts.len() > 0 {
                match cts.last() {
                    CTValV::Type(targ) => {
                        lemma_call_pops_only(
                            pos,
                            subst_tv(*body, seq![(id, targ)], Seq::empty()),
                            rts,
                            cts.drop_last(),
                        );
                    },
                    _ => {},
                }
            }
        },
        TypeV::ForallRegion(var, body, _) => {
            if cts.len() > 0 {
                match cts.last() {
                    CTValV::Region(rarg) => {
                        lemma_call_pops_only(
                            pos,
                            subst_tv(*body, Seq::empty(), seq![(var.id, rarg)]),
                            rts,
                            cts.drop_last(),
                        );
                    },
                    _ => {},
                }
            }
        },
        TypeV::Func(args) => {
            if args.len() <= rts.len() {
                assert(rts.subrange(0, rts.len() - args.len()) =~= rts.take(
                    rts.len() - args.len(),
                ));
            }
        },
        _ => {},
    }
}

/// How many slots at the top of the run-time stack an opcode may replace:
/// `init` consumes the value and the tuple, the other memory and
/// instantiation opcodes replace the top slot, and everything else only
/// pushes, pops or leaves the stack alone.
pub open spec fn rts_frame(op: OpCode1) -> int {
    match op {
        OpCode1::Init(_) => 2,
        OpCode1::Malloc => 1,
        OpCode1::Proj(_) => 1,
        OpCode1::Deref => 1,
        OpCode1::App => 1,
        OpCode1::Pack => 1,
        _ => 0,
    }
}

/// Initialization monotonicity, the remaining half: every opcode reads
/// and writes only the top of the run-time stack, so any tuple lying
/// below the slots an opcode touches keeps its type bit for bit — in
/// particular its initialization flags. Together with
/// `lemma_init_monotone`, which shows the one touched tuple only gains
/// flags, no opcode ever clears an initialization flag.
pub proof fn lemma_deep_slots_unchanged(
    st: BodyState,
    st2: BodyState,
    op: OpCode1,
    pos: u32,
    label: Label,
    table: Seq<(Label, TypeV)>,
)
    requires
        body_step(st, op, pos, label, table) == Ok::<BodyState, ErrorV>(st2),
    ensures
        forall|j: int|
            0 <= j < st2.rts.len() && j < st.rts.len() - rts_frame(op) ==> st2.rts[j]
                == st.rts[j],
{
    if op == OpCode1::Call {
        lemma_call_pops_only(pos, st.rts.last(), st.rts.drop_last(), st.core.cts);
    }
}

/// Substitution preserves initialization flags: instantiating a tuple's
/// components leaves every flag where it was.
pub proof fn lemma_subst_preserves_flags(
    fs: Seq<(bool, TypeV)>,
    tsubs: Seq<(Id, TypeV)>,
    rsubs: Seq<(Id, Region)>,
)
    ensures
        crate::model::subst_fields(fs, tsubs, rsubs).len() == fs.len(),
        forall|j: int|
            0 <= j < fs.len() ==> (#[trigger] crate::model::subst_fields(fs, tsubs, rsubs)[j]).0
                == fs[j].0,
{
    broadcast use crate::model::lemma_subst_fields_len, crate::model::lemma_subst_fields_index;

}

/// Pack/unpack round trip: sealing a value into an existential package
/// and opening the package's type again exposes the body, and the packed
/// value's type is exactly the body instantiated at the hidden witness.
pub proof fn lemma_pack_unpack_round_trip(
    st: BodyState,
    st2: BodyState,
    st3: BodyState,
    pos: u32,
    pos2: u32,
    label: Label,
    table: Seq<(Label, TypeV)>,
    hidden: TypeV,
    id: Id,
    s: usize,
    ex_body: Box<TypeV>,
)
    requires
        st.core.cts.len() >= 2,
        st.core.cts.last() == CTValV::Type(hidden),
        st.core.cts[st.core.cts.len() - 2] == CTValV::Type(TypeV::Exists(id, s, ex_body)),
        body_step(st, OpCode1::Pack, pos, label, table) == Ok::<BodyState, ErrorV>(st2),
        st2.core.cts.len() >= 1,
        st2.core.cts.last() == CTValV::Type(TypeV::Exists(id, s, ex_body)),
        body_step(st2, OpCode1::Unpack, pos2, label, table) == Ok::<BodyState, ErrorV>(st3),
    ensures
        st.rts.len() >= 1,
        st2.rts == st.rts.drop_last().push(TypeV::Exists(id, s, ex_body)),
        crate::model::type_eq_v(
            st.rts.last(),
            subst_tv(*ex_body, seq![(id, hidden)], Seq::empty()),
        ),
        st3.core.cts == st2.core.cts.drop_last().push(CTValV::Type(*ex_body)),
        st3.rts == st2.rts,
{
}

/// The pair-in-a-unique-region body without duplicating the handle:
/// `malloc` consumes the only handle and `halt` pops the projected
/// integer, so the final `free-region` finds the run-time stack empty.
#[verifier::rlimit(100)]
pub proof fn lemma_pair_free_after_halt_is_empty_stack()
    ensures
        ({
            let ops = seq![
                OpCode1::Func(0),
                OpCode1::NewRgn,
                OpCode1::CTGet(0),
                OpCode1::I32,
                OpCode1::I32,
                OpCode1::Tuple(2),
                OpCode1::Ptr,
                OpCode1::Malloc,
                OpCode1::Lit(1),
                OpCode1::Init(0),
                OpCode1::Lit(2),
                OpCode1::Init(1),
                OpCode1::Proj(0),
                OpCode1::Halt,
                OpCode1::FreeRgn,
            ];
            let table = seq![(0u32, TypeV::Func(Seq::<TypeV>::empty()))];
            crate::sem::spec_definition_pass(0, ops, table, 1) == Err::<
                (TypeV, Seq<OpCode2>),
                ErrorV,
            >(ErrorV::TypeErrorEmptyStack(14, OpCode1::FreeRgn))
        }),
{
    reveal_with_fuel(crate::sem::body_run, 17);
    reveal_with_fuel(crate::sem::pop_flagged, 4);
    reveal_with_fuel(crate::sem::pop_types, 2);
    reveal_with_fuel(crate::sem::lookup_sig, 3);
    reveal_with_fuel(crate::sem::spec_setup, 2);
    reveal_with_fuel(crate::sem::rgns_of, 2);
    reveal_with_fuel(crate::model::sum_sizes, 4);
    reveal_with_fuel(crate::model::sum_sizes_prefix, 4);
    reveal_with_fuel(crate::model::stack_prefix_size, 3);
    reveal_with_fuel(crate::model::type_eq_v, 2);
    reveal_with_fuel(crate::sem::find_rgn, 2);
    assert(Seq::<TypeV>::empty().reverse() =~= Seq::<TypeV>::empty());
}

/// Looking a region up in a one-entry substitution.
pub proof fn lemma_lookup_rsub_singleton(id: Id, r: Region, x: Id)
    ensures
        lookup_rsub(seq![(id, r)], x) == (if x == id {
            Some(r)
        } else {
            None::<Region>
        }),
{
    let s = seq![(id, r)];
    assert(s.drop_first() =~= Seq::<(Id, Region)>::empty());
    assert(lookup_rsub(Seq::<(Id, Region)>::empty(), x) is None);
}

/// No region binder in the type binds a unique region. The design keeps
/// unique regions out of polymorphic capture, so the types the passes
/// quantify over regions are of this shape.
pub open spec fn no_unique_binders(t: TypeV) -> bool
    decreases t,
{
    match t {
        TypeV::I32 => true,
        TypeV::Handle(_) => true,
        TypeV::Tuple(fs) => nub_fields(fs),
        TypeV::Ptr(b, _) => no_unique_binders(*b),
        TypeV::Var(_, _) => true,
        TypeV::Func(args) => nub_list(args),
        TypeV::Exists(_, _, b) => no_unique_binders(*b),
        TypeV::Forall(_, _, b) => no_unique_binders(*b),
        TypeV::ForallRegion(r, b, _) => !r.unique && no_unique_binders(*b),
    }
}

/// `no_unique_binders` on each component of a flagged type list.
pub open spec fn nub_fields(fs: Seq<(bool, TypeV)>) -> bool
    decreases fs,
{
    if fs.len() == 0 {
        true
    } else {
        nub_fields(fs.drop_last()) && no_unique_binders(fs.last().1)
    }
}

/// `no_unique_binders` on each element of a type list.
pub open spec fn nub_list(ts: Seq<TypeV>) -> bool
    decreases ts,
{
    if ts.len() == 0 {
        true
    } else {
        nub_list(ts.drop_last()) && no_unique_binders(ts.last())
    }
}

/// Pointwise reading of `nub_fields`.
pub proof fn lemma_nub_fields_iff(fs: Seq<(bool, TypeV)>)
    ensures
        nub_fields(fs) <==> (forall|j: int|
            0 <= j < fs.len() ==> no_unique_binders(#[trigger] fs[j].1)),
    decreases fs,
{
    if fs.len() > 0 {
        lemma_nub_fields_iff(fs.drop_last());
        assert forall|j: int| 0 <= j < fs.len() - 1 implies fs.drop_last()[j] == fs[j] by {}
    }
}

/// Pointwise reading of `nub_list`.
pub proof fn lemma_nub_list_iff(ts: Seq<TypeV>)
    ensures
        nub_list(ts) <==> (forall|j: int| 0 <= j < ts.len() ==> no_unique_binders(#[trigger] ts[j])),
    decreases ts,
{
    if ts.len() > 0 {
        lemma_nub_list_iff(ts.drop_last());
        assert forall|j: int| 0 <= j < ts.len() - 1 implies ts.drop_last()[j] == ts[j] by {}
    }
}

/// Substituting a well-scoped type's own variable for itself, at its
/// binder's size, changes nothing: the renaming type equality performs at
/// a type binder is the identity there.
pub proof fn lemma_ws_subst_tid_self(
    t: TypeV,
    tenv: Seq<(Id, usize)>,
    renv: Seq<Region>,
    id: Id,
    s: usize,
)
    requires
        well_scoped(t, tenv, renv),
        tenv.contains((id, s)),
        forall|s2: usize| tenv.contains((id, s2)) ==> s2 == s,
    ensures
        subst_tv(t, seq![(id, TypeV::Var(id, s))], Seq::empty()) == t,
    decreases t,
{
    broadcast use
        crate::model::lemma_subst_fields_len,
        crate::model::lemma_subst_fields_index,
        crate::model::lemma_subst_list_len,
        crate::model::lemma_subst_list_index,
    ;

    let ren = seq![(id, TypeV::Var(id, s))];
    match t {
        TypeV::Var(x, sx) => {
            lemma_lookup_singleton(id, TypeV::Var(id, s), x);
        },
        TypeV::Tuple(fs) => {
            lemma_ws_fields_iff(fs, tenv, renv);
            assert forall|j: int| 0 <= j < fs.len() implies crate::model::subst_fields(
                fs,
                ren,
                Seq::empty(),
            )[j] == fs[j] by {
                lemma_ws_subst_tid_self(fs[j].1, tenv, renv, id, s);
            }
            assert(crate::model::subst_fields(fs, ren, Seq::empty()) =~= fs);
        },
        TypeV::Func(args) => {
            lemma_ws_list_iff(args, tenv, renv);
            assert forall|j: int| 0 <= j < args.len() implies crate::model::subst_list(
                args,
                ren,
                Seq::empty(),
            )[j] == args[j] by {
                lemma_ws_subst_tid_self(args[j], tenv, renv, id, s);
            }
            assert(crate::model::subst_list(args, ren, Seq::empty()) =~= args);
        },
        TypeV::Ptr(b, _) => {
            lemma_ws_subst_tid_self(*b, tenv, renv, id, s);
        },
        TypeV::Exists(id2, s2, b) => {
            let tenv2 = tenv.push((id2, s2));
            assert(tenv2.contains((id, s))) by {
                let k = choose|k: int| 0 <= k < tenv.len() && tenv[k] == (id, s);
                assert(tenv2[k] == (id, s));
            }
            assert forall|s3: usize| tenv2.contains((id, s3)) implies s3 == s by {
                let k = choose|k: int| 0 <= k < tenv2.len() && tenv2[k] == (id, s3);
                if k < tenv.len() {
                    assert(tenv.contains((id, s3)));
                }
            }
            lemma_ws_subst_tid_self(*b, tenv2, renv, id, s);
        },
        TypeV::Forall(id2, s2, b) => {
            let tenv2 = tenv.push((id2, s2));
            assert(tenv2.contains((id, s))) by {
                let k = choose|k: int| 0 <= k < tenv.len() && tenv[k] == (id, s);
                assert(tenv2[k] == (id, s));
            }
            assert forall|s3: usize| tenv2.contains((id, s3)) implies s3 == s by {
                let k = choose|k: int| 0 <= k < tenv2.len() && tenv2[k] == (id, s3);
                if k < tenv.len() {
                    assert(tenv.contains((id, s3)));
                }
            }
            lemma_ws_subst_tid_self(*b, tenv2, renv, id, s);
        },
        TypeV::ForallRegion(r0, b, caps) => {
            lemma_ws_subst_tid_self(*b, tenv, renv.push(r0), id, s);
            assert(caps + crate::model::unique_images(Seq::empty()) =~= caps);
        },
        _ => {},
    }
}

/// Substituting a well-scoped type's own region for itself changes
/// nothing, when the region is not unique: the renaming type equality
/// performs at a region binder is the identity there.
pub proof fn lemma_ws_subst_rid_self(t: TypeV, tenv: Seq<(Id, usize)>, renv: Seq<Region>, r: Region)
    requires
        well_scoped(t, tenv, renv),
        renv.contains(r),
        forall|r2: Region| renv.contains(r2) && r2.id == r.id ==> r2 == r,
        !r.unique,
    ensures
        subst_tv(t, Seq::empty(), seq![(r.id, r)]) == t,
    decreases t,
{
    broadcast use
        crate::model::lemma_subst_fields_len,
        crate::model::lemma_subst_fields_index,
        crate::model::lemma_subst_list_len,
        crate::model::lemma_subst_list_index,
    ;

    let rho = seq![(r.id, r)];
    match t {
        TypeV::Handle(r2) => {
            lemma_lookup_rsub_singleton(r.id, r, r2.id);
        },
        TypeV::Var(x, sx) => {
        },
        TypeV::Tuple(fs) => {
            lemma_ws_fields_iff(fs, tenv, renv);
            assert forall|j: int| 0 <= j < fs.len() implies crate::model::subst_fields(
                fs,
                Seq::empty(),
                rho,
            )[j] == fs[j] by {
                lemma_ws_subst_rid_self(fs[j].1, tenv, renv, r);
            }
            assert(crate::model::subst_fields(fs, Seq::empty(), rho) =~= fs);
        },
        TypeV::Func(args) => {
            lemma_ws_list_iff(args, tenv, renv);
            assert forall|j: int| 0 <= j < args.len() implies crate::model::subst_list(
                args,
                Seq::empty(),
                rho,
            )[j] == args[j] by {
                lemma_ws_subst_rid_self(args[j], tenv, renv, r);
            }
            assert(crate::model::subst_list(args, Seq::empty(), rho) =~= args);
        },
        TypeV::Ptr(b, r2) => {
            lemma_lookup_rsub_singleton(r.id, r, r2.id);
            lemma_ws_subst_rid_self(*b, tenv, renv, r);
        },
        TypeV::Exists(id2, s2, b) => {
            lemma_ws_subst_rid_self(*b, tenv.push((id2, s2)), renv, r);
        },
        TypeV::Forall(id2, s2, b) => {
            lemma_ws_subst_rid_self(*b, tenv.push((id2, s2)), renv, r);
        },
        TypeV::ForallRegion(r0, b, caps) => {
            let renv2 = renv.push(r0);
            assert(renv2.contains(r)) by {
                let k = choose|k: int| 0 <= k < renv.len() && renv[k] == r;
                assert(renv2[k] == r);
            }
            assert forall|r2: Region| renv2.contains(r2) && r2.id == r.id implies r2 == r by {
                let k = choose|k: int| 0 <= k < renv2.len() && renv2[k] == r2;
                if k < renv.len() {
                    assert(renv.contains(r2));
                } else {
                    assert(r2 == r0);
                }
            }
            lemma_ws_subst_rid_self(*b, tenv, renv2, r);
            assert(crate::model::unique_images(rho) =~= Seq::<Region>::empty()) by {
                assert(rho.drop_first() =~= Seq::<(Id, Region)>::empty());
                assert(crate::model::unique_images(Seq::<(Id, Region)>::empty())
                    =~= Seq::<Region>::empty());
            }
            assert(caps + crate::model::unique_images(rho) =~= caps);
        },
        _ => {},
    }
}

/// Reflexivity of type equality: on well-scoped types whose region
/// binders range over ordinary (non-unique) regions — the shape the
/// design gives polymorphic signatures, since unique regions must not be
/// captured — every type equals itself.
pub proof fn lemma_type_eq_refl(t: TypeV, tenv: Seq<(Id, usize)>, renv: Seq<Region>)
    requires
        well_scoped(t, tenv, renv),
        no_unique_binders(t),
    ensures
        type_eq_v(t, t),
    decreases t,
{
    match t {
        TypeV::Tuple(fs) => {
            lemma_ws_fields_iff(fs, tenv, renv);
            lemma_nub_fields_iff(fs);
            lemma_eq_fields_iff(fs, fs);
            assert forall|j: int| 0 <= j < fs.len() implies fs[j].0 == fs[j].0 && type_eq_v(
                fs[j].1,
                fs[j].1,
            ) by {
                lemma_type_eq_refl(fs[j].1, tenv, renv);
            }
        },
        TypeV::Func(args) => {
            lemma_ws_list_iff(args, tenv, renv);
            lemma_nub_list_iff(args);
            lemma_eq_list_iff(args, args);
            assert forall|j: int| 0 <= j < args.len() implies type_eq_v(args[j], args[j]) by {
                lemma_type_eq_refl(args[j], tenv, renv);
            }
        },
        TypeV::Ptr(b, _) => {
            lemma_type_eq_refl(*b, tenv, renv);
        },
        TypeV::Exists(id, s, b) => {
            let tenv2 = tenv.push((id, s));
            assert(tenv2.contains((id, s))) by {
                assert(tenv2[tenv.len() as int] == (id, s));
            }
            assert forall|s3: usize| tenv2.contains((id, s3)) implies s3 == s by {
                let k = choose|k: int| 0 <= k < tenv2.len() && tenv2[k] == (id, s3);
                if k < tenv.len() {
                    assert(tenv[k].0 == id);
                }
            }
            lemma_ws_subst_tid_self(*b, tenv2, renv, id, s);
            lemma_type_eq_refl(*b, tenv2, renv);
        },
        TypeV::Forall(id, s, b) => {
            let tenv2 = tenv.push((id, s));
            assert(tenv2.contains((id, s))) by {
                assert(tenv2[tenv.len() as int] == (id, s));
            }
            assert forall|s3: usize| tenv2.contains((id, s3)) implies s3 == s by {
                let k = choose|k: int| 0 <= k < tenv2.len() && tenv2[k] == (id, s3);
                if k < tenv.len() {
                    assert(tenv[k].0 == id);
                }
            }
            lemma_ws_subst_tid_self(*b, tenv2, renv, id, s);
            lemma_type_eq_refl(*b, tenv2, renv);
        },
        TypeV::ForallRegion(r0, b, _) => {
            let renv2 = renv.push(r0);
            assert(renv2.contains(r0)) by {
                assert(renv2[renv.len() as int] == r0);
            }
            assert forall|r2: Region| renv2.contains(r2) && r2.id == r0.id implies r2 == r0 by {
                let k = choose|k: int| 0 <= k < renv2.len() && renv2[k] == r2;
                if k < renv.len() {
                    assert(renv[k].id == r2.id);
                }
            }
            lemma_ws_subst_rid_self(*b, tenv, renv2, r0);
            lemma_type_eq_refl(*b, tenv, renv2);
        },
        _ => {},
    }
}

/// A type without quantifiers of any form.
pub open spec fn quantifier_free(t: TypeV) -> bool
    decreases t,
{
    match t {
        TypeV::I32 => true,
        TypeV::Handle(_) => true,
        TypeV::Tuple(fs) => qf_fields(fs),
        TypeV::Ptr(b, _) => quantifier_free(*b),
        TypeV::Var(_, _) => true,
        TypeV::Func(args) => qf_list(args),
        TypeV::Exists(_, _, _) => false,
        TypeV::Forall(_, _, _) => false,
        TypeV::ForallRegion(_, _, _) => false,
    }
}

/// `quantifier_free` on each component of a flagged type list.
pub open spec fn qf_fields(fs: Seq<(bool, TypeV)>) -> bool
    decreases fs,
{
    if fs.len() == 0 {
        true
    } else {
        qf_fields(fs.drop_last()) && quantifier_free(fs.last().1)
    }
}

/// `quantifier_free` on each element of a type list.
pub open spec fn qf_list(ts: Seq<TypeV>) -> bool
    decreases ts,
{
    if ts.len() == 0 {
        true
    } else {
        qf_list(ts.drop_last()) && quantifier_free(ts.last())
    }
}

/// Pointwise reading of `qf_fields`.
pub proof fn lemma_qf_fields_iff(fs: Seq<(bool, TypeV)>)
    ensures
        qf_fields(fs) <==> (forall|j: int| 0 <= j < fs.len() ==> quantifier_free(#[trigger] fs[j].1)),
    decreases fs,
{
    if fs.len() > 0 {
        lemma_qf_fields_iff(fs.drop_last());
        assert forall|j: int| 0 <= j < fs.len() - 1 implies fs.drop_last()[j] == fs[j] by {}
    }
}

/// Pointwise reading of `qf_list`.
pub proof fn lemma_qf_list_iff(ts: Seq<TypeV>)
    ensures
        qf_list(ts) <==> (forall|j: int| 0 <= j < ts.len() ==> quantifier_free(#[trigger] ts[j])),
    decreases ts,
{
    if ts.len() > 0 {
        lemma_qf_list_iff(ts.drop_last());
        assert forall|j: int| 0 <= j < ts.len() - 1 implies ts.drop_last()[j] == ts[j] by {}
    }
}

/// Symmetry of type equality on quantifier-free types. With quantifiers
/// the relation is not symmetric in general: the renaming it performs can
/// capture a name of one side that the other binds elsewhere, so symmetry
/// needs the two types' bound names to avoid each other's names.
pub proof fn lemma_type_eq_sym_quantifier_free(a: TypeV, b: TypeV)
    requires
        quantifier_free(a),
        quantifier_free(b),
    ensures
        type_eq_v(a, b) == type_eq_v(b, a),
    decreases a,
{
    match (a, b) {
        (TypeV::Tuple(fs1), TypeV::Tuple(fs2)) => {
            lemma_qf_fields_iff(fs1);
            lemma_qf_fields_iff(fs2);
            if fs1.len() == fs2.len() {
                lemma_eq_fields_iff(fs1, fs2);
                lemma_eq_fields_iff(fs2, fs1);
                assert forall|j: int| 0 <= j < fs1.len() implies type_eq_v(fs1[j].1, fs2[j].1)
                    == type_eq_v(fs2[j].1, fs1[j].1) by {
                    lemma_type_eq_sym_quantifier_free(fs1[j].1, fs2[j].1);
                }
            }
        },
        (TypeV::Func(a1), TypeV::Func(a2)) => {
            lemma_qf_list_iff(a1);
            lemma_qf_list_iff(a2);
            if a1.len() == a2.len() {
                lemma_eq_list_iff(a1, a2);
                lemma_eq_list_iff(a2, a1);
                assert forall|j: int| 0 <= j < a1.len() implies type_eq_v(a1[j], a2[j])
                    == type_eq_v(a2[j], a1[j]) by {
                    lemma_type_eq_sym_quantifier_free(a1[j], a2[j]);
                }
            }
        },
        (TypeV::Ptr(b1, r1), TypeV::Ptr(b2, r2)) => {
            lemma_type_eq_sym_quantifier_free(*b1, *b2);
        },
        _ => {},
    }
}

/// Synthesized signatures are well scoped by construction, so a
/// signature whose region binders range over ordinary regions equals
/// itself.
pub proof fn lemma_signature_self_equal(label: Label, ops: Seq<OpCode1>, fresh0: int, t: TypeV)
    requires
        crate::sem::spec_type_pass(label, ops, fresh0) matches Ok(p) && p.0 == t,
        no_unique_binders(t),
    ensures
        type_eq_v(t, t),
{
    lemma_type_eq_refl(t, Seq::empty(), Seq::empty());
}

} // verus!
