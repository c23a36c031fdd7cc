//! Mathematical model of the verifier's data: spec-level twins of the
//! recursive type representation, views from the executable types onto
//! them, the size (layout) function, capture-free variable substitution,
//! and alpha-equivalence of types.

use vstd::prelude::*;
use crate::header::{CTStackVal, Error, Id, Kind, Label, OpCode1, Region, Type};

verus! {

/// Spec-level twin of `Type`, with sequences for the list-shaped fields.
pub enum TypeV {
    I32,
    Handle(Region),
    Tuple(Seq<(bool, TypeV)>),
    Ptr(Box<TypeV>, Region),
    Var(Id, usize),
    Func(Seq<TypeV>),
    Exists(Id, usize, Box<TypeV>),
    Forall(Id, usize, Box<TypeV>),
    ForallRegion(Region, Box<TypeV>, Seq<Region>),
}

/// Spec-level twin of `CTStackVal`.
pub enum CTValV {
    Region(Region),
    Size(usize),
    Type(TypeV),
}

/// Spec-level twin of `Error`; type payloads are `TypeV`, lengths and
/// sizes are mathematical integers.
pub enum ErrorV {
    SyntaxErrorUnexpectedOp(u32, OpCode1),
    TypeErrorEmptyCTStack(u32, OpCode1),
    KindError(u32, OpCode1, Kind, CTValV),
    KindErrorBadApp(u32, OpCode1, CTValV),
    TypeErrorEmptyStack(u32, OpCode1),
    TypeErrorForallExpected(u32, OpCode1, TypeV),
    TypeErrorForallRegionExpected(u32, OpCode1, TypeV),
    SizeError(u32, OpCode1, int, int),
    SizeOverflow(u32, OpCode1),
    RegionAccessError(u32, OpCode1, Region),
    RegionError(u32, OpCode1, Region, Region),
    TypeErrorExistentialExpected(u32, OpCode1, TypeV),
    TypeErrorGetOutOfRange(u32, u8, int),
    TypeErrorInitOutOfRange(u32, u8, int),
    TypeErrorProjOutOfRange(u32, u8, int),
    TypeErrorCTGetOutOfRange(u32, u8, int),
    TypeErrorInitTypeMismatch(u32, TypeV, TypeV),
    TypeErrorDoubleInit(u32, OpCode1, u8),
    TypeErrorUninitializedRead(u32, OpCode1, u8),
    TypeErrorTupleExpected(u32, OpCode1, TypeV),
    TypeErrorRegionHandleExpected(u32, OpCode1, TypeV),
    TypeErrorMallocNonTuple(u32, OpCode1, TypeV),
    TypeErrorPtrExpected(u32, OpCode1, TypeV),
    TypeError(u32, OpCode1, TypeV, TypeV),
    TypeErrorFunctionExpected(u32, OpCode1, TypeV),
    TypeErrorNotEnoughRuntimeArgs(u32, int, int),
    TypeErrorCallArgTypesMismatch(u32, Seq<TypeV>, Seq<TypeV>),
    TypeErrorSpecificTypeVarExpected(u32, OpCode1, Id, Id),
    TypeErrorTypeVarExpected(u32, OpCode1, Id, TypeV),
    TypeErrorEmptyQuantificationStack(u32, OpCode1),
    TypeErrorNonEmptyQuantificationStack(Label),
    UniquenessError(u32, OpCode1, Region),
    TypeErrorMainHasArgs,
    TypeErrorBadSignature(Label),
    TypeErrorMissingSignature(Label),
}

/// View of a `Type` as a `TypeV`.
pub open spec fn tv(t: Type) -> TypeV
    decreases t,
{
    match t {
        Type::I32 => TypeV::I32,
        Type::Handle(r) => TypeV::Handle(r),
        Type::Tuple(ts) => TypeV::Tuple(tvf(ts@)),
        Type::Ptr(b, r) => TypeV::Ptr(Box::new(tv(*b)), r),
        Type::Var(id, s) => TypeV::Var(id, s),
        Type::Func(ts) => TypeV::Func(tvs(ts@)),
        Type::Exists(id, s, b) => TypeV::Exists(id, s, Box::new(tv(*b))),
        Type::Forall(id, s, b) => TypeV::Forall(id, s, Box::new(tv(*b))),
        Type::ForallRegion(r, b, caps) => TypeV::ForallRegion(r, Box::new(tv(*b)), caps@),
    }
}

/// Elementwise view of a sequence of flagged types.
pub open spec fn tvf(s: Seq<(bool, Type)>) -> Seq<(bool, TypeV)>
    decreases s,
{
    if s.len() == 0 {
        Seq::empty()
    } else {
        tvf(s.drop_last()).push((s.last().0, tv(s.last().1)))
    }
}

/// Elementwise view of a sequence of types.
pub open spec fn tvs(s: Seq<Type>) -> Seq<TypeV>
    decreases s,
{
    if s.len() == 0 {
        Seq::empty()
    } else {
        tvs(s.drop_last()).push(tv(s.last()))
    }
}

pub broadcast proof fn lemma_tvf_len(s: Seq<(bool, Type)>)
    ensures
        (#[trigger] tvf(s)).len() == s.len(),
    decreases s,
{
    if s.len() > 0 {
        lemma_tvf_len(s.drop_last());
    }
}

pub broadcast proof fn lemma_tvf_index(s: Seq<(bool, Type)>, i: int)
    requires
        0 <= i < s.len(),
    ensures
        (#[trigger] tvf(s)[i]) == (s[i].0, tv(s[i].1)),
    decreases s,
{
    lemma_tvf_len(s);
    if i < s.len() - 1 {
        lemma_tvf_index(s.drop_last(), i);
    }
}

pub broadcast proof fn lemma_tvs_len(s: Seq<Type>)
    ensures
        (#[trigger] tvs(s)).len() == s.len(),
    decreases s,
{
    if s.len() > 0 {
        lemma_tvs_len(s.drop_last());
    }
}

pub broadcast proof fn lemma_tvs_index(s: Seq<Type>, i: int)
    requires
        0 <= i < s.len(),
    ensures
        (#[trigger] tvs(s)[i]) == tv(s[i]),
    decreases s,
{
    lemma_tvs_len(s);
    if i < s.len() - 1 {
        lemma_tvs_index(s.drop_last(), i);
    }
}

impl View for Type {
    type V = TypeV;

    open spec fn view(&self) -> TypeV {
        tv(*self)
    }
}

/// View of a `CTStackVal` as a `CTValV`.
pub open spec fn cv(c: CTStackVal) -> CTValV {
    match c {
        CTStackVal::Region(r) => CTValV::Region(r),
        CTStackVal::Size(s) => CTValV::Size(s),
        CTStackVal::Type(t) => CTValV::Type(tv(t)),
    }
}

/// Elementwise view of a sequence of compile-time stack values.
pub open spec fn cvs(s: Seq<CTStackVal>) -> Seq<CTValV> {
    Seq::new(s.len(), |i: int| cv(s[i]))
}

impl View for CTStackVal {
    type V = CTValV;

    open spec fn view(&self) -> CTValV {
        cv(*self)
    }
}

/// Elementwise view of a type substitution.
pub open spec fn sv(s: Seq<(Id, Type)>) -> Seq<(Id, TypeV)> {
    Seq::new(s.len(), |i: int| (s[i].0, tv(s[i].1)))
}

/// View of an `Error` as an `ErrorV`.
pub open spec fn ev(e: Error) -> ErrorV {
    match e {
        Error::SyntaxErrorUnexpectedOp(p, op) => ErrorV::SyntaxErrorUnexpectedOp(p, op),
        Error::TypeErrorEmptyCTStack(p, op) => ErrorV::TypeErrorEmptyCTStack(p, op),
        Error::KindError(p, op, k, c) => ErrorV::KindError(p, op, k, cv(c)),
        Error::KindErrorBadApp(p, op, c) => ErrorV::KindErrorBadApp(p, op, cv(c)),
        Error::TypeErrorEmptyStack(p, op) => ErrorV::TypeErrorEmptyStack(p, op),
        Error::TypeErrorForallExpected(p, op, t) => ErrorV::TypeErrorForallExpected(p, op, tv(t)),
        Error::TypeErrorForallRegionExpected(p, op, t) => ErrorV::TypeErrorForallRegionExpected(
            p,
            op,
            tv(t),
        ),
        Error::SizeError(p, op, a, b) => ErrorV::SizeError(p, op, a as int, b as int),
        Error::SizeOverflow(p, op) => ErrorV::SizeOverflow(p, op),
        Error::RegionAccessError(p, op, r) => ErrorV::RegionAccessError(p, op, r),
        Error::RegionError(p, op, r1, r2) => ErrorV::RegionError(p, op, r1, r2),
        Error::TypeErrorExistentialExpected(p, op, t) => ErrorV::TypeErrorExistentialExpected(
            p,
            op,
            tv(t),
        ),
        Error::TypeErrorGetOutOfRange(p, i, n) => ErrorV::TypeErrorGetOutOfRange(p, i, n as int),
        Error::TypeErrorInitOutOfRange(p, i, n) => ErrorV::TypeErrorInitOutOfRange(p, i, n as int),
        Error::TypeErrorProjOutOfRange(p, i, n) => ErrorV::TypeErrorProjOutOfRange(p, i, n as int),
        Error::TypeErrorCTGetOutOfRange(p, i, n) => ErrorV::TypeErrorCTGetOutOfRange(
            p,
            i,
            n as int,
        ),
        Error::TypeErrorInitTypeMismatch(p, t1, t2) => ErrorV::TypeErrorInitTypeMismatch(
            p,
            tv(t1),
            tv(t2),
        ),
        Error::TypeErrorDoubleInit(p, op, i) => ErrorV::TypeErrorDoubleInit(p, op, i),
        Error::TypeErrorUninitializedRead(p, op, i) => ErrorV::TypeErrorUninitializedRead(
            p,
            op,
            i,
        ),
        Error::TypeErrorTupleExpected(p, op, t) => ErrorV::TypeErrorTupleExpected(p, op, tv(t)),
        Error::TypeErrorRegionHandleExpected(p, op, t) => ErrorV::TypeErrorRegionHandleExpected(
            p,
            op,
            tv(t),
        ),
        Error::TypeErrorMallocNonTuple(p, op, t) => ErrorV::TypeErrorMallocNonTuple(p, op, tv(t)),
        Error::TypeErrorPtrExpected(p, op, t) => ErrorV::TypeErrorPtrExpected(p, op, tv(t)),
        Error::TypeError(p, op, t1, t2) => ErrorV::TypeError(p, op, tv(t1), tv(t2)),
        Error::TypeErrorFunctionExpected(p, op, t) => ErrorV::TypeErrorFunctionExpected(
            p,
            op,
            tv(t),
        ),
        Error::TypeErrorNotEnoughRuntimeArgs(p, a, b) => ErrorV::TypeErrorNotEnoughRuntimeArgs(
            p,
            a as int,
            b as int,
        ),
        Error::TypeErrorCallArgTypesMismatch(p, ts1, ts2) => ErrorV::TypeErrorCallArgTypesMismatch(
            p,
            tvs(ts1@),
            tvs(ts2@),
        ),
        Error::TypeErrorSpecificTypeVarExpected(p, op, i1, i2) => ErrorV::TypeErrorSpecificTypeVarExpected(
            p,
            op,
            i1,
            i2,
        ),
        Error::TypeErrorTypeVarExpected(p, op, i, t) => ErrorV::TypeErrorTypeVarExpected(
            p,
            op,
            i,
            tv(t),
        ),
        Error::TypeErrorEmptyQuantificationStack(p, op) => ErrorV::TypeErrorEmptyQuantificationStack(
            p,
            op,
        ),
        Error::TypeErrorNonEmptyQuantificationStack(l) => ErrorV::TypeErrorNonEmptyQuantificationStack(
            l,
        ),
        Error::UniquenessError(p, op, r) => ErrorV::UniquenessError(p, op, r),
        Error::TypeErrorMainHasArgs => ErrorV::TypeErrorMainHasArgs,
        Error::TypeErrorBadSignature(l) => ErrorV::TypeErrorBadSignature(l),
        Error::TypeErrorMissingSignature(l) => ErrorV::TypeErrorMissingSignature(l),
    }
}

impl View for Error {
    type V = ErrorV;

    open spec fn view(&self) -> ErrorV {
        ev(*self)
    }
}

/// The machine-word footprint of a type. Scalars, handles, pointers and
/// function values are one word; a variable reports the size carried by
/// its binder; a tuple is the sum of its components; a quantified type has
/// the size of its body.
pub open spec fn size_v(t: TypeV) -> nat
    decreases t,
{
    match t {
        TypeV::I32 => 1,
        TypeV::Handle(_) => 1,
        TypeV::Tuple(fs) => sum_sizes(fs),
        TypeV::Ptr(_, _) => 1,
        TypeV::Var(_, s) => s as nat,
        TypeV::Func(_) => 1,
        TypeV::Exists(_, _, b) => size_v(*b),
        TypeV::Forall(_, _, b) => size_v(*b),
        TypeV::ForallRegion(_, b, _) => size_v(*b),
    }
}

/// Sum of the sizes of a tuple's components.
pub open spec fn sum_sizes(fs: Seq<(bool, TypeV)>) -> nat
    decreases fs,
{
    if fs.len() == 0 {
        0
    } else {
        sum_sizes(fs.drop_last()) + size_v(fs.last().1)
    }
}

/// Sum of the sizes of the first `i` components of a tuple: the offset of
/// component `i`.
pub open spec fn sum_sizes_prefix(fs: Seq<(bool, TypeV)>, i: int) -> nat
    decreases i,
{
    if i <= 0 {
        0
    } else {
        sum_sizes_prefix(fs, i - 1) + size_v(fs[i - 1].1)
    }
}

/// Prefix sums only read the components before their bound.
pub proof fn lemma_sum_sizes_prefix_agree(fs1: Seq<(bool, TypeV)>, fs2: Seq<(bool, TypeV)>, i: int)
    requires
        forall|j: int| 0 <= j < i ==> fs1[j] == fs2[j],
    ensures
        sum_sizes_prefix(fs1, i) == sum_sizes_prefix(fs2, i),
    decreases i,
{
    if i > 0 {
        lemma_sum_sizes_prefix_agree(fs1, fs2, i - 1);
    }
}

/// The total size of a tuple is the prefix sum over all its components.
pub proof fn lemma_sum_sizes_is_prefix(fs: Seq<(bool, TypeV)>)
    ensures
        sum_sizes(fs) == sum_sizes_prefix(fs, fs.len() as int),
    decreases fs,
{
    if fs.len() > 0 {
        lemma_sum_sizes_is_prefix(fs.drop_last());
        lemma_sum_sizes_prefix_agree(fs.drop_last(), fs, fs.len() - 1);
    }
}

/// Prefix sums are monotone in the bound.
pub proof fn lemma_sum_sizes_prefix_mono(fs: Seq<(bool, TypeV)>, i: int, j: int)
    requires
        i <= j,
    ensures
        sum_sizes_prefix(fs, i) <= sum_sizes_prefix(fs, j),
    decreases j,
{
    if i < j && j > 0 {
        lemma_sum_sizes_prefix_mono(fs, i, j - 1);
    }
}

/// Tuples with the same component types, flags aside, have the same
/// prefix sums.
pub proof fn lemma_sum_sizes_components(fs1: Seq<(bool, TypeV)>, fs2: Seq<(bool, TypeV)>)
    requires
        fs1.len() == fs2.len(),
        forall|i: int| 0 <= i < fs1.len() ==> fs1[i].1 == fs2[i].1,
    ensures
        sum_sizes(fs1) == sum_sizes(fs2),
    decreases fs1,
{
    if fs1.len() > 0 {
        assert forall|i: int| 0 <= i < fs1.len() - 1 implies fs1.drop_last()[i].1
            == fs2.drop_last()[i].1 by {}
        lemma_sum_sizes_components(fs1.drop_last(), fs2.drop_last());
    }
}

/// The offset of the slot `i` places below the top of a run-time stack of
/// types: the summed sizes of the `i` slots above it.
pub open spec fn stack_prefix_size(rts: Seq<TypeV>, i: int) -> nat
    decreases i,
{
    if i <= 0 {
        0
    } else {
        stack_prefix_size(rts, i - 1) + size_v(rts[rts.len() - i])
    }
}

/// Stack prefix sums are monotone in the bound.
pub proof fn lemma_stack_prefix_mono(rts: Seq<TypeV>, i: int, j: int)
    requires
        i <= j,
    ensures
        stack_prefix_size(rts, i) <= stack_prefix_size(rts, j),
    decreases j,
{
    if i < j && j > 0 {
        lemma_stack_prefix_mono(rts, i, j - 1);
    }
}

/// Look a type substitution up, first binding wins.
pub open spec fn lookup_tsub(subs: Seq<(Id, TypeV)>, id: Id) -> Option<TypeV>
    decreases subs.len(),
{
    if subs.len() == 0 {
        None
    } else if subs[0].0 == id {
        Some(subs[0].1)
    } else {
        lookup_tsub(subs.drop_first(), id)
    }
}

/// Look a region substitution up, first binding wins.
pub open spec fn lookup_rsub(subs: Seq<(Id, Region)>, id: Id) -> Option<Region>
    decreases subs.len(),
{
    if subs.len() == 0 {
        None
    } else if subs[0].0 == id {
        Some(subs[0].1)
    } else {
        lookup_rsub(subs.drop_first(), id)
    }
}

/// Substitution on a region: replace it when its `Id` is bound, keep it
/// otherwise.
pub open spec fn subst_rv(r: Region, rsubs: Seq<(Id, Region)>) -> Region {
    match lookup_rsub(rsubs, r.id) {
        Some(r2) => r2,
        None => r,
    }
}

/// The unique regions among a region substitution's images, in order:
/// instantiating a region quantifier records these as captured.
pub open spec fn unique_images(rsubs: Seq<(Id, Region)>) -> Seq<Region>
    decreases rsubs.len(),
{
    if rsubs.len() == 0 {
        Seq::empty()
    } else if rsubs[0].1.unique {
        seq![rsubs[0].1] + unique_images(rsubs.drop_first())
    } else {
        unique_images(rsubs.drop_first())
    }
}

/// Capture-free substitution of type and region variables in a type.
/// Bound names are globally unique by construction, so no renaming is
/// needed; initialization flags are preserved.
pub open spec fn subst_tv(t: TypeV, tsubs: Seq<(Id, TypeV)>, rsubs: Seq<(Id, Region)>) -> TypeV
    decreases t,
{
    match t {
        TypeV::I32 => TypeV::I32,
        TypeV::Handle(r) => TypeV::Handle(subst_rv(r, rsubs)),
        TypeV::Tuple(fs) => TypeV::Tuple(subst_fields(fs, tsubs, rsubs)),
        TypeV::Ptr(b, r) => TypeV::Ptr(Box::new(subst_tv(*b, tsubs, rsubs)), subst_rv(r, rsubs)),
        TypeV::Var(id, s) => match lookup_tsub(tsubs, id) {
            Some(n) => n,
            None => TypeV::Var(id, s),
        },
        TypeV::Func(args) => TypeV::Func(subst_list(args, tsubs, rsubs)),
        TypeV::Exists(id, s, b) => TypeV::Exists(id, s, Box::new(subst_tv(*b, tsubs, rsubs))),
        TypeV::Forall(id, s, b) => TypeV::Forall(id, s, Box::new(subst_tv(*b, tsubs, rsubs))),
        TypeV::ForallRegion(r, b, caps) => TypeV::ForallRegion(
            r,
            Box::new(subst_tv(*b, tsubs, rsubs)),
            caps + unique_images(rsubs),
        ),
    }
}

/// Substitution on each component of a flagged type list.
pub open spec fn subst_fields(
    fs: Seq<(bool, TypeV)>,
    tsubs: Seq<(Id, TypeV)>,
    rsubs: Seq<(Id, Region)>,
) -> Seq<(bool, TypeV)>
    decreases fs,
{
    if fs.len() == 0 {
        Seq::empty()
    } else {
        subst_fields(fs.drop_last(), tsubs, rsubs).push(
            (fs.last().0, subst_tv(fs.last().1, tsubs, rsubs)),
        )
    }
}

/// Substitution on each element of a type list.
pub open spec fn subst_list(
    ts: Seq<TypeV>,
    tsubs: Seq<(Id, TypeV)>,
    rsubs: Seq<(Id, Region)>,
) -> Seq<TypeV>
    decreases ts,
{
    if ts.len() == 0 {
        Seq::empty()
    } else {
        subst_list(ts.drop_last(), tsubs, rsubs).push(subst_tv(ts.last(), tsubs, rsubs))
    }
}

pub broadcast proof fn lemma_subst_fields_len(
    fs: Seq<(bool, TypeV)>,
    tsubs: Seq<(Id, TypeV)>,
    rsubs: Seq<(Id, Region)>,
)
    ensures
        (#[trigger] subst_fields(fs, tsubs, rsubs)).len() == fs.len(),
    decreases fs,
{
    if fs.len() > 0 {
        lemma_subst_fields_len(fs.drop_last(), tsubs, rsubs);
    }
}

pub broadcast proof fn lemma_subst_fields_index(
    fs: Seq<(bool, TypeV)>,
    tsubs: Seq<(Id, TypeV)>,
    rsubs: Seq<(Id, Region)>,
    i: int,
)
    requires
        0 <= i < fs.len(),
    ensures
        (#[trigger] subst_fields(fs, tsubs, rsubs)[i]) == (
            fs[i].0,
            subst_tv(fs[i].1, tsubs, rsubs),
        ),
    decreases fs,
{
    lemma_subst_fields_len(fs, tsubs, rsubs);
    if i < fs.len() - 1 {
        lemma_subst_fields_index(fs.drop_last(), tsubs, rsubs, i);
    }
}

pub broadcast proof fn lemma_subst_list_len(
    ts: Seq<TypeV>,
    tsubs: Seq<(Id, TypeV)>,
    rsubs: Seq<(Id, Region)>,
)
    ensures
        (#[trigger] subst_list(ts, tsubs, rsubs)).len() == ts.len(),
    decreases ts,
{
    if ts.len() > 0 {
        lemma_subst_list_len(ts.drop_last(), tsubs, rsubs);
    }
}

pub broadcast proof fn lemma_subst_list_index(
    ts: Seq<TypeV>,
    tsubs: Seq<(Id, TypeV)>,
    rsubs: Seq<(Id, Region)>,
    i: int,
)
    requires
        0 <= i < ts.len(),
    ensures
        (#[trigger] subst_list(ts, tsubs, rsubs)[i]) == subst_tv(ts[i], tsubs, rsubs),
    decreases ts,
{
    lemma_subst_list_len(ts, tsubs, rsubs);
    if i < ts.len() - 1 {
        lemma_subst_list_index(ts.drop_last(), tsubs, rsubs, i);
    }
}

/// Whether the type-variable environment binds this identifier.
pub open spec fn has_tid(tenv: Seq<(Id, usize)>, id: Id) -> bool {
    exists|k: int| 0 <= k < tenv.len() && tenv[k].0 == id
}

/// Whether the region environment binds this region identifier.
pub open spec fn has_rid(renv: Seq<Region>, id: Id) -> bool {
    exists|k: int| 0 <= k < renv.len() && renv[k].id == id
}

/// Well-scopedness of a type under environments of enclosing binders:
/// every variable occurrence is bound, and with the size its binder
/// declared; every region mention is exactly an enclosing region binder;
/// and no binder rebinds a name already in scope. Synthesized signatures
/// are well scoped in empty environments, and the freshness discipline of
/// the passes maintains this shape.
pub open spec fn well_scoped(t: TypeV, tenv: Seq<(Id, usize)>, renv: Seq<Region>) -> bool
    decreases t,
{
    match t {
        TypeV::I32 => true,
        TypeV::Handle(r) => renv.contains(r),
        TypeV::Tuple(fs) => ws_fields(fs, tenv, renv),
        TypeV::Ptr(b, r) => renv.contains(r) && well_scoped(*b, tenv, renv),
        TypeV::Var(id, s) => tenv.contains((id, s)),
        TypeV::Func(args) => ws_list(args, tenv, renv),
        TypeV::Exists(id, s, b) => !has_tid(tenv, id) && well_scoped(
            *b,
            tenv.push((id, s)),
            renv,
        ),
        TypeV::Forall(id, s, b) => !has_tid(tenv, id) && well_scoped(
            *b,
            tenv.push((id, s)),
            renv,
        ),
        TypeV::ForallRegion(r, b, _) => !has_rid(renv, r.id) && well_scoped(
            *b,
            tenv,
            renv.push(r),
        ),
    }
}

/// Well-scopedness of each component of a flagged type list.
pub open spec fn ws_fields(fs: Seq<(bool, TypeV)>, tenv: Seq<(Id, usize)>, renv: Seq<Region>) -> bool
    decreases fs,
{
    if fs.len() == 0 {
        true
    } else {
        ws_fields(fs.drop_last(), tenv, renv) && well_scoped(fs.last().1, tenv, renv)
    }
}

/// Well-scopedness of each element of a type list.
pub open spec fn ws_list(ts: Seq<TypeV>, tenv: Seq<(Id, usize)>, renv: Seq<Region>) -> bool
    decreases ts,
{
    if ts.len() == 0 {
        true
    } else {
        ws_list(ts.drop_last(), tenv, renv) && well_scoped(ts.last(), tenv, renv)
    }
}

/// Pointwise reading of `ws_fields`.
pub proof fn lemma_ws_fields_iff(fs: Seq<(bool, TypeV)>, tenv: Seq<(Id, usize)>, renv: Seq<Region>)
    ensures
        ws_fields(fs, tenv, renv) <==> (forall|j: int|
            0 <= j < fs.len() ==> well_scoped(#[trigger] fs[j].1, tenv, renv)),
    decreases fs,
{
    if fs.len() > 0 {
        lemma_ws_fields_iff(fs.drop_last(), tenv, renv);
        assert forall|j: int| 0 <= j < fs.len() - 1 implies fs.drop_last()[j] == fs[j] by {}
    }
}

/// Pointwise reading of `ws_list`.
pub proof fn lemma_ws_list_iff(ts: Seq<TypeV>, tenv: Seq<(Id, usize)>, renv: Seq<Region>)
    ensures
        ws_list(ts, tenv, renv) <==> (forall|j: int|
            0 <= j < ts.len() ==> well_scoped(#[trigger] ts[j], tenv, renv)),
    decreases ts,
{
    if ts.len() > 0 {
        lemma_ws_list_iff(ts.drop_last(), tenv, renv);
        assert forall|j: int| 0 <= j < ts.len() - 1 implies ts.drop_last()[j] == ts[j] by {}
    }
}

/// Type equality up to renaming of the second type's bound variables onto
/// the first's, as the verifier decides it. Initialization flags, regions,
/// declared sizes and argument lists must agree; a quantifier's bound
/// variable on the right is renamed to the left's and the bodies compared.
/// On the well-scoped types the passes build — every variable carrying its
/// binder's size, no name bound twice, bound names globally fresh — this
/// renaming is capture-free and the relation is alpha-equivalence (the
/// reflexivity and symmetry laws make the needed discipline exact); on
/// arbitrary values it is the bare algorithm.
pub open spec fn type_eq_v(t1: TypeV, t2: TypeV) -> bool
    decreases t1,
{
    match (t1, t2) {
        (TypeV::I32, TypeV::I32) => true,
        (TypeV::Handle(r1), TypeV::Handle(r2)) => r1 == r2,
        (TypeV::Tuple(fs1), TypeV::Tuple(fs2)) => fs1.len() == fs2.len() && eq_fields(fs1, fs2),
        (TypeV::Ptr(b1, r1), TypeV::Ptr(b2, r2)) => r1 == r2 && type_eq_v(*b1, *b2),
        (TypeV::Var(id1, s1), TypeV::Var(id2, s2)) => id1 == id2 && s1 == s2,
        (TypeV::Func(a1), TypeV::Func(a2)) => a1.len() == a2.len() && eq_list(a1, a2),
        (TypeV::Exists(id1, s1, b1), TypeV::Exists(id2, s2, b2)) => s1 == s2 && type_eq_v(
            *b1,
            subst_tv(*b2, seq![(id2, TypeV::Var(id1, s1))], Seq::empty()),
        ),
        (TypeV::Forall(id1, s1, b1), TypeV::Forall(id2, s2, b2)) => s1 == s2 && type_eq_v(
            *b1,
            subst_tv(*b2, seq![(id2, TypeV::Var(id1, s1))], Seq::empty()),
        ),
        (TypeV::ForallRegion(r1, b1, _), TypeV::ForallRegion(r2, b2, _)) => type_eq_v(
            *b1,
            subst_tv(*b2, Seq::empty(), seq![(r2.id, r1)]),
        ),
        _ => false,
    }
}

/// Componentwise alpha-equivalence of flagged type lists.
pub open spec fn eq_fields(fs1: Seq<(bool, TypeV)>, fs2: Seq<(bool, TypeV)>) -> bool
    decreases fs1,
{
    if fs1.len() == 0 || fs2.len() == 0 {
        true
    } else {
        eq_fields(fs1.drop_last(), fs2.drop_last()) && fs1.last().0 == fs2.last().0 && type_eq_v(
            fs1.last().1,
            fs2.last().1,
        )
    }
}

/// Elementwise alpha-equivalence of type lists.
pub open spec fn eq_list(ts1: Seq<TypeV>, ts2: Seq<TypeV>) -> bool
    decreases ts1,
{
    if ts1.len() == 0 || ts2.len() == 0 {
        true
    } else {
        eq_list(ts1.drop_last(), ts2.drop_last()) && type_eq_v(ts1.last(), ts2.last())
    }
}

/// On lists of equal length, componentwise equivalence of flagged types is
/// the pointwise statement.
pub proof fn lemma_eq_fields_iff(fs1: Seq<(bool, TypeV)>, fs2: Seq<(bool, TypeV)>)
    requires
        fs1.len() == fs2.len(),
    ensures
        eq_fields(fs1, fs2) <==> (forall|i: int|
            0 <= i < fs1.len() ==> fs1[i].0 == fs2[i].0 && type_eq_v(fs1[i].1, fs2[i].1)),
    decreases fs1,
{
    if fs1.len() > 0 {
        lemma_eq_fields_iff(fs1.drop_last(), fs2.drop_last());
        assert(fs1.last() == fs1[fs1.len() - 1]);
        assert forall|i: int| 0 <= i < fs1.len() - 1 implies fs1.drop_last()[i] == fs1[i]
            && fs2.drop_last()[i] == fs2[i] by {}
    }
}

/// On lists of equal length, elementwise equivalence of types is the
/// pointwise statement.
pub proof fn lemma_eq_list_iff(ts1: Seq<TypeV>, ts2: Seq<TypeV>)
    requires
        ts1.len() == ts2.len(),
    ensures
        eq_list(ts1, ts2) <==> (forall|i: int| 0 <= i < ts1.len() ==> type_eq_v(ts1[i], ts2[i])),
    decreases ts1,
{
    if ts1.len() > 0 {
        lemma_eq_list_iff(ts1.drop_last(), ts2.drop_last());
        assert forall|i: int| 0 <= i < ts1.len() - 1 implies ts1.drop_last()[i] == ts1[i]
            && ts2.drop_last()[i] == ts2[i] by {}
    }
}

} // verus!
