//! The mathematical semantics of the two verification passes: a spec-level
//! interpreter over the compile-time stack, the quantification stack, the
//! symbolic run-time stack and the live region set. The executable passes
//! are proved to return exactly what these functions describe.

use vstd::prelude::*;
use crate::header::{ForwardDec, Id, Kind, Label, OpCode1, OpCode2, Quantification, Region, Stmt1, Stmt2};
use crate::model::{
    size_v, stack_prefix_size, subst_tv, sum_sizes, sum_sizes_prefix, tv, type_eq_v, CTValV,
    ErrorV, TypeV,
};

verus! {

/// The state shared by both passes: the compile-time stack, the open
/// quantifier frames, the fresh-variable counter, and the pending
/// uniqueness mark for the next minted region.
pub struct CtCore {
    pub cts: Seq<CTValV>,
    pub quants: Seq<Quantification>,
    pub fresh: int,
    pub uniq: bool,
}

/// The body pass state: the shared core, the symbolic run-time stack, the
/// live region list, and the elaborated opcodes emitted so far.
pub struct BodyState {
    pub core: CtCore,
    pub rts: Seq<TypeV>,
    pub rgns: Seq<Region>,
    pub emitted: Seq<OpCode2>,
}

/// The source position of the i-th opcode of the function at `label`.
pub open spec fn pos_at(label: Label, i: int) -> u32 {
    ((label + i) as u32)
}

/// The empty core a pass starts from.
pub open spec fn init_core(fresh0: int) -> CtCore {
    CtCore { cts: Seq::empty(), quants: Seq::empty(), fresh: fresh0, uniq: false }
}

/// The constructor opcodes, interpreted identically by both passes.
pub open spec fn is_ct_op(op: OpCode1) -> bool {
    match op {
        OpCode1::Unique => true,
        OpCode1::Handle => true,
        OpCode1::I32 => true,
        OpCode1::Tuple(_) => true,
        OpCode1::Exist => true,
        OpCode1::All => true,
        OpCode1::Rgn => true,
        OpCode1::End => true,
        OpCode1::Func(_) => true,
        OpCode1::CTGet(_) => true,
        OpCode1::Size(_) => true,
        OpCode1::Ptr => true,
        _ => false,
    }
}

/// Pop `n` types off the compile-time stack, collecting them in pop order
/// after `acc`; fail on a wrong kind or an empty stack.
pub open spec fn pop_types(
    cts: Seq<CTValV>,
    n: int,
    acc: Seq<TypeV>,
    pos: u32,
    op: OpCode1,
) -> Result<(Seq<TypeV>, Seq<CTValV>), ErrorV>
    decreases n,
{
    if n <= 0 {
        Ok((acc, cts))
    } else if cts.len() == 0 {
        Err(ErrorV::TypeErrorEmptyCTStack(pos, op))
    } else {
        match cts.last() {
            CTValV::Type(t) => pop_types(cts.drop_last(), n - 1, acc.push(t), pos, op),
            cval => Err(ErrorV::KindError(pos, op, Kind::Type, cval)),
        }
    }
}

/// Pop `n` types off the compile-time stack, collecting them in pop order
/// as initialized tuple components after `acc`.
pub open spec fn pop_flagged(
    cts: Seq<CTValV>,
    n: int,
    acc: Seq<(bool, TypeV)>,
    pos: u32,
    op: OpCode1,
) -> Result<(Seq<(bool, TypeV)>, Seq<CTValV>), ErrorV>
    decreases n,
{
    if n <= 0 {
        Ok((acc, cts))
    } else if cts.len() == 0 {
        Err(ErrorV::TypeErrorEmptyCTStack(pos, op))
    } else {
        match cts.last() {
            CTValV::Type(t) => pop_flagged(cts.drop_last(), n - 1, acc.push((true, t)), pos, op),
            cval => Err(ErrorV::KindError(pos, op, Kind::Type, cval)),
        }
    }
}

/// One constructor opcode's effect on the shared core.
pub open spec fn ct_step(c: CtCore, op: OpCode1, pos: u32, label: Label) -> Result<
    CtCore,
    ErrorV,
> {
    match op {
        OpCode1::Unique => Ok(CtCore { uniq: true, ..c }),
        OpCode1::Handle => if c.cts.len() == 0 {
            Err(ErrorV::TypeErrorEmptyCTStack(pos, op))
        } else {
            match c.cts.last() {
                CTValV::Region(r) => Ok(
                    CtCore {
                        cts: c.cts.drop_last().push(CTValV::Type(TypeV::Handle(r))),
                        ..c
                    },
                ),
                cval => Err(ErrorV::KindError(pos, op, Kind::Region, cval)),
            }
        },
        OpCode1::I32 => Ok(CtCore { cts: c.cts.push(CTValV::Type(TypeV::I32)), ..c }),
        OpCode1::Tuple(n) => match pop_flagged(c.cts, n as int, Seq::empty(), pos, op) {
            Ok((fs, rest)) => Ok(
                CtCore { cts: rest.push(CTValV::Type(TypeV::Tuple(fs))), ..c },
            ),
            Err(e) => Err(e),
        },
        OpCode1::Exist => if c.cts.len() == 0 {
            Err(ErrorV::TypeErrorEmptyCTStack(pos, op))
        } else {
            match c.cts.last() {
                CTValV::Size(s) => Ok(
                    CtCore {
                        cts: c.cts.drop_last().push(
                            CTValV::Type(TypeV::Var(Id(label, c.fresh as u32), s)),
                        ),
                        quants: c.quants.push(
                            Quantification::Exist(Id(label, c.fresh as u32), s),
                        ),
                        fresh: c.fresh + 1,
                        ..c
                    },
                ),
                cval => Err(ErrorV::KindError(pos, op, Kind::Size, cval)),
            }
        },
        OpCode1::All => if c.cts.len() == 0 {
            Err(ErrorV::TypeErrorEmptyCTStack(pos, op))
        } else {
            match c.cts.last() {
                CTValV::Size(s) => Ok(
                    CtCore {
                        cts: c.cts.drop_last().push(
                            CTValV::Type(TypeV::Var(Id(label, c.fresh as u32), s)),
                        ),
                        quants: c.quants.push(
                            Quantification::Forall(Id(label, c.fresh as u32), s),
                        ),
                        fresh: c.fresh + 1,
                        ..c
                    },
                ),
                cval => Err(ErrorV::KindError(pos, op, Kind::Size, cval)),
            }
        },
        OpCode1::Rgn => Ok(
            CtCore {
                cts: c.cts.push(
                    CTValV::Region(Region { unique: c.uniq, id: Id(label, c.fresh as u32) }),
                ),
                quants: c.quants.push(
                    Quantification::Region(
                        Region { unique: c.uniq, id: Id(label, c.fresh as u32) },
                    ),
                ),
                fresh: c.fresh + 1,
                uniq: false,
            },
        ),
        OpCode1::End => if c.quants.len() == 0 {
            Err(ErrorV::TypeErrorEmptyQuantificationStack(pos, op))
        } else {
            match c.quants.last() {
                Quantification::Exist(id, s) => ct_close_binder(c, op, pos, id, s, true),
                Quantification::Forall(id, s) => ct_close_binder(c, op, pos, id, s, false),
                Quantification::Region(r) => ct_close_region(c, op, pos, r),
            }
        },
        OpCode1::Func(n) => match pop_types(c.cts, n as int, Seq::empty(), pos, op) {
            Ok((ts, rest)) => Ok(CtCore { cts: rest.push(CTValV::Type(TypeV::Func(ts))), ..c }),
            Err(e) => Err(e),
        },
        OpCode1::CTGet(i) => if (i as int) < c.cts.len() {
            Ok(CtCore { cts: c.cts.push(c.cts[c.cts.len() - 1 - i]), ..c })
        } else {
            Err(ErrorV::TypeErrorCTGetOutOfRange(pos, i, c.cts.len() as int))
        },
        OpCode1::Size(s) => Ok(CtCore { cts: c.cts.push(CTValV::Size(s as usize)), ..c }),
        OpCode1::Ptr => if c.cts.len() == 0 {
            Err(ErrorV::TypeErrorEmptyCTStack(pos, op))
        } else {
            match c.cts.last() {
                CTValV::Type(t) => if c.cts.len() == 1 {
                    Err(ErrorV::TypeErrorEmptyCTStack(pos, op))
                } else {
                    match c.cts.drop_last().last() {
                        CTValV::Region(r) => Ok(
                            CtCore {
                                cts: c.cts.drop_last().drop_last().push(
                                    CTValV::Type(TypeV::Ptr(Box::new(t), r)),
                                ),
                                ..c
                            },
                        ),
                        cval => Err(ErrorV::KindError(pos, op, Kind::Region, cval)),
                    }
                },
                cval => Err(ErrorV::KindError(pos, op, Kind::Type, cval)),
            }
        },
        _ => Err(ErrorV::SyntaxErrorUnexpectedOp(pos, op)),
    }
}

/// Close an open type binder frame: pop the body type, check that the next
/// slot is exactly the frame's variable, and push the quantified type.
pub open spec fn ct_close_binder(
    c: CtCore,
    op: OpCode1,
    pos: u32,
    id: Id,
    s: usize,
    is_exists: bool,
) -> Result<CtCore, ErrorV> {
    if c.cts.len() == 0 {
        Err(ErrorV::TypeErrorEmptyCTStack(pos, op))
    } else {
        match c.cts.last() {
            CTValV::Type(t) => if c.cts.len() == 1 {
                Err(ErrorV::TypeErrorEmptyCTStack(pos, op))
            } else {
                match c.cts.drop_last().last() {
                    CTValV::Type(TypeV::Var(id2, s2)) => if id2 == id {
                        Ok(
                            CtCore {
                                cts: c.cts.drop_last().drop_last().push(
                                    CTValV::Type(
                                        if is_exists {
                                            TypeV::Exists(id, s, Box::new(t))
                                        } else {
                                            TypeV::Forall(id, s, Box::new(t))
                                        },
                                    ),
                                ),
                                quants: c.quants.drop_last(),
                                ..c
                            },
                        )
                    } else {
                        Err(ErrorV::TypeErrorSpecificTypeVarExpected(pos, op, id, id2))
                    },
                    CTValV::Type(t2) => Err(ErrorV::TypeErrorTypeVarExpected(pos, op, id, t2)),
                    cval => Err(ErrorV::KindError(pos, op, Kind::Type, cval)),
                }
            },
            cval => Err(ErrorV::KindError(pos, op, Kind::Type, cval)),
        }
    }
}

/// Close an open region binder frame: pop the body type, check that the
/// next slot is exactly the frame's region, and push the quantified type
/// with an empty captured-region list.
pub open spec fn ct_close_region(c: CtCore, op: OpCode1, pos: u32, r: Region) -> Result<
    CtCore,
    ErrorV,
> {
    if c.cts.len() == 0 {
        Err(ErrorV::TypeErrorEmptyCTStack(pos, op))
    } else {
        match c.cts.last() {
            CTValV::Type(t) => if c.cts.len() == 1 {
                Err(ErrorV::TypeErrorEmptyCTStack(pos, op))
            } else {
                match c.cts.drop_last().last() {
                    CTValV::Region(r2) => if r2.id == r.id {
                        Ok(
                            CtCore {
                                cts: c.cts.drop_last().drop_last().push(
                                    CTValV::Type(
                                        TypeV::ForallRegion(r, Box::new(t), Seq::empty()),
                                    ),
                                ),
                                quants: c.quants.drop_last(),
                                ..c
                            },
                        )
                    } else {
                        Err(ErrorV::RegionError(pos, op, r, r2))
                    },
                    cval => Err(ErrorV::KindError(pos, op, Kind::Region, cval)),
                }
            },
            cval => Err(ErrorV::KindError(pos, op, Kind::Type, cval)),
        }
    }
}

/// Run the signature pass over `ops[i..]` from core `c`: constructor
/// opcodes step the core, anything else is rejected.
pub open spec fn sig_run(ops: Seq<OpCode1>, i: int, c: CtCore, label: Label) -> Result<
    CtCore,
    ErrorV,
>
    decreases ops.len() - i,
{
    if i >= ops.len() {
        Ok(c)
    } else if is_ct_op(ops[i]) {
        match ct_step(c, ops[i], pos_at(label, i), label) {
            Ok(c2) => sig_run(ops, i + 1, c2, label),
            Err(e) => Err(e),
        }
    } else {
        Err(ErrorV::SyntaxErrorUnexpectedOp(pos_at(label, i), ops[i]))
    }
}

/// A well-shaped signature: a function type, possibly wrapped in
/// universal type or region quantifiers.
pub open spec fn sig_shape(t: TypeV) -> bool
    decreases t,
{
    match t {
        TypeV::Forall(_, _, b) => sig_shape(*b),
        TypeV::ForallRegion(_, b, _) => sig_shape(*b),
        TypeV::Func(_) => true,
        _ => false,
    }
}

/// The signature pass: run the constructor opcodes from an empty core.
/// The compile-time stack must end holding exactly one type, every
/// quantifier frame must be closed, and that type must be a well-scoped
/// function type under its quantifier wrappers — no free variable and no
/// free region mention survives into a signature. Returns the signature
/// and the final fresh counter.
pub open spec fn spec_type_pass(label: Label, ops: Seq<OpCode1>, fresh0: int) -> Result<
    (TypeV, int),
    ErrorV,
> {
    match sig_run(ops, 0, init_core(fresh0), label) {
        Ok(c) => if c.cts.len() == 1 && c.quants.len() == 0 {
            match c.cts[0] {
                CTValV::Type(t) => if sig_shape(t) && crate::model::well_scoped(
                    t,
                    Seq::empty(),
                    Seq::empty(),
                ) {
                    Ok((t, c.fresh))
                } else {
                    Err(ErrorV::TypeErrorBadSignature(label))
                },
                _ => Err(ErrorV::TypeErrorBadSignature(label)),
            }
        } else {
            Err(ErrorV::TypeErrorBadSignature(label))
        },
        Err(e) => Err(e),
    }
}

/// Whether a region with this `Id` is in the live region list.
pub open spec fn live_rgn(rgns: Seq<Region>, id: Id) -> bool {
    exists|j: int| 0 <= j < rgns.len() && rgns[j].id == id
}

/// The first region in the list with this `Id`.
pub open spec fn find_rgn(rgns: Seq<Region>, id: Id) -> Option<Region>
    decreases rgns.len(),
{
    if rgns.len() == 0 {
        None
    } else if rgns[0].id == id {
        Some(rgns[0])
    } else {
        find_rgn(rgns.drop_first(), id)
    }
}

/// The region list with every region of this `Id` removed.
pub open spec fn remove_rgn(rgns: Seq<Region>, id: Id) -> Seq<Region>
    decreases rgns.len(),
{
    if rgns.len() == 0 {
        Seq::empty()
    } else if rgns[0].id == id {
        remove_rgn(rgns.drop_first(), id)
    } else {
        seq![rgns[0]] + remove_rgn(rgns.drop_first(), id)
    }
}

/// The regions on a compile-time stack, bottom first: the regions a
/// function is quantified over.
pub open spec fn rgns_of(cts: Seq<CTValV>) -> Seq<Region>
    decreases cts.len(),
{
    if cts.len() == 0 {
        Seq::empty()
    } else {
        (match cts[0] {
            CTValV::Region(r) => seq![r],
            _ => Seq::<Region>::empty(),
        }) + rgns_of(cts.drop_first())
    }
}

/// A tuple's components with every initialization flag cleared.
pub open spec fn clear_flags(fs: Seq<(bool, TypeV)>) -> Seq<(bool, TypeV)> {
    Seq::new(fs.len(), |i: int| (false, fs[i].1))
}

/// The `get` opcode: copy the i-th-from-top run-time slot onto the top and
/// emit its offset and size.
pub open spec fn spec_get(st: BodyState, i: u8, pos: u32, op: OpCode1) -> Result<
    BodyState,
    ErrorV,
> {
    let n = st.rts.len();
    if n == 0 {
        Err(ErrorV::TypeErrorEmptyStack(pos, op))
    } else if n - 1 < i as int {
        Err(ErrorV::TypeErrorGetOutOfRange(pos, i, n as int))
    } else {
        let off = stack_prefix_size(st.rts, i as int);
        let t = st.rts[n - 1 - i];
        let sz = size_v(t);
        if off > usize::MAX || sz > usize::MAX {
            Err(ErrorV::SizeOverflow(pos, op))
        } else {
            Ok(
                BodyState {
                    rts: st.rts.push(t),
                    emitted: st.emitted.push(OpCode2::Get(off as usize, sz as usize)),
                    ..st
                },
            )
        }
    }
}

/// The `init` opcode: pop a value and a tuple (direct or behind a
/// pointer), check the component is yet uninitialized and of the value's
/// type, and push the updated tuple.
pub open spec fn spec_init(st: BodyState, i: u8, pos: u32, op: OpCode1) -> Result<
    BodyState,
    ErrorV,
> {
    let n = st.rts.len();
    if n <= 1 {
        Err(ErrorV::TypeErrorEmptyStack(pos, op))
    } else {
        let actual = st.rts[n - 1];
        let rest = st.rts.drop_last().drop_last();
        match st.rts[n - 2] {
            TypeV::Tuple(fs) => if i as int >= fs.len() {
                Err(ErrorV::TypeErrorInitOutOfRange(pos, i, fs.len() as int))
            } else if fs[i as int].0 {
                Err(ErrorV::TypeErrorDoubleInit(pos, op, i))
            } else if !type_eq_v(fs[i as int].1, actual) {
                Err(ErrorV::TypeErrorInitTypeMismatch(pos, fs[i as int].1, actual))
            } else {
                let off = sum_sizes_prefix(fs, i as int);
                let total = sum_sizes(fs);
                let asz = size_v(actual);
                if total > usize::MAX || asz > usize::MAX {
                    Err(ErrorV::SizeOverflow(pos, op))
                } else {
                    Ok(
                        BodyState {
                            rts: rest.push(TypeV::Tuple(fs.update(i as int, (true, actual)))),
                            emitted: st.emitted.push(
                                OpCode2::Init(off as usize, asz as usize, total as usize),
                            ),
                            ..st
                        },
                    )
                }
            },
            TypeV::Ptr(b, r) => match *b {
                TypeV::Tuple(fs) => if !live_rgn(st.rgns, r.id) {
                    Err(ErrorV::RegionAccessError(pos, op, r))
                } else if i as int >= fs.len() {
                    Err(ErrorV::TypeErrorInitOutOfRange(pos, i, fs.len() as int))
                } else if fs[i as int].0 {
                    Err(ErrorV::TypeErrorDoubleInit(pos, op, i))
                } else if !type_eq_v(fs[i as int].1, actual) {
                    Err(ErrorV::TypeErrorInitTypeMismatch(pos, fs[i as int].1, actual))
                } else {
                    let off = sum_sizes_prefix(fs, i as int);
                    let asz = size_v(actual);
                    if off > usize::MAX || asz > usize::MAX {
                        Err(ErrorV::SizeOverflow(pos, op))
                    } else {
                        Ok(
                            BodyState {
                                rts: rest.push(
                                    TypeV::Ptr(
                                        Box::new(TypeV::Tuple(fs.update(i as int, (true, actual)))),
                                        r,
                                    ),
                                ),
                                emitted: st.emitted.push(
                                    OpCode2::InitIP(off as usize, asz as usize),
                                ),
                                ..st
                            },
                        )
                    }
                },
                t => Err(ErrorV::TypeErrorTupleExpected(pos, op, t)),
            },
            t => Err(ErrorV::TypeErrorTupleExpected(pos, op, t)),
        }
    }
}

/// The `malloc` opcode: allocate the tuple type on the compile-time stack,
/// in a region (consuming the matching handle) or on the stack, with all
/// components uninitialized.
pub open spec fn spec_malloc(st: BodyState, pos: u32, op: OpCode1) -> Result<BodyState, ErrorV> {
    if st.core.cts.len() == 0 {
        Err(ErrorV::TypeErrorEmptyCTStack(pos, op))
    } else {
        let cts2 = st.core.cts.drop_last();
        match st.core.cts.last() {
            CTValV::Type(TypeV::Ptr(b, r)) => if st.rts.len() == 0 {
                Err(ErrorV::TypeErrorEmptyStack(pos, op))
            } else {
                match st.rts.last() {
                    TypeV::Handle(r2) => if r.id != r2.id {
                        Err(ErrorV::RegionError(pos, op, r, r2))
                    } else if !live_rgn(st.rgns, r.id) {
                        Err(ErrorV::RegionAccessError(pos, op, r))
                    } else {
                        let sz = size_v(*b);
                        if sz > usize::MAX {
                            Err(ErrorV::SizeOverflow(pos, op))
                        } else {
                            match *b {
                                TypeV::Tuple(fs) => Ok(
                                    BodyState {
                                        core: CtCore { cts: cts2, ..st.core },
                                        rts: st.rts.drop_last().push(
                                            TypeV::Ptr(Box::new(TypeV::Tuple(clear_flags(fs))), r),
                                        ),
                                        emitted: st.emitted.push(OpCode2::Malloc(sz as usize)),
                                        ..st
                                    },
                                ),
                                t => Err(ErrorV::TypeErrorMallocNonTuple(pos, op, t)),
                            }
                        }
                    },
                    t => Err(ErrorV::TypeErrorRegionHandleExpected(pos, op, t)),
                }
            },
            CTValV::Type(TypeV::Tuple(fs)) => {
                let sz = sum_sizes(fs);
                if sz > usize::MAX {
                    Err(ErrorV::SizeOverflow(pos, op))
                } else {
                    Ok(
                        BodyState {
                            core: CtCore { cts: cts2, ..st.core },
                            rts: st.rts.push(TypeV::Tuple(clear_flags(fs))),
                            emitted: st.emitted.push(OpCode2::Alloca(sz as usize)),
                            ..st
                        },
                    )
                }
            },
            cval => Err(ErrorV::KindError(pos, op, Kind::Type, cval)),
        }
    }
}

/// The `proj` opcode: pop a tuple (direct or behind a pointer), check the
/// component is initialized, and push its type.
pub open spec fn spec_proj(st: BodyState, i: u8, pos: u32, op: OpCode1) -> Result<
    BodyState,
    ErrorV,
> {
    if st.rts.len() == 0 {
        Err(ErrorV::TypeErrorEmptyStack(pos, op))
    } else {
        let rest = st.rts.drop_last();
        match st.rts.last() {
            TypeV::Tuple(fs) => {
                let total = sum_sizes(fs);
                if total > usize::MAX {
                    Err(ErrorV::SizeOverflow(pos, op))
                } else if i as int >= fs.len() {
                    Err(ErrorV::TypeErrorProjOutOfRange(pos, i, fs.len() as int))
                } else if !fs[i as int].0 {
                    Err(ErrorV::TypeErrorUninitializedRead(pos, op, i))
                } else {
                    let off = sum_sizes_prefix(fs, i as int);
                    let sz = size_v(fs[i as int].1);
                    Ok(
                        BodyState {
                            rts: rest.push(fs[i as int].1),
                            emitted: st.emitted.push(
                                OpCode2::Proj(off as usize, sz as usize, total as usize),
                            ),
                            ..st
                        },
                    )
                }
            },
            TypeV::Ptr(b, r) => if !live_rgn(st.rgns, r.id) {
                Err(ErrorV::RegionAccessError(pos, op, r))
            } else {
                match *b {
                    TypeV::Tuple(fs) => {
                        let total = sum_sizes(fs);
                        if total > usize::MAX {
                            Err(ErrorV::SizeOverflow(pos, op))
                        } else if i as int >= fs.len() {
                            Err(ErrorV::TypeErrorProjOutOfRange(pos, i, fs.len() as int))
                        } else if !fs[i as int].0 {
                            Err(ErrorV::TypeErrorUninitializedRead(pos, op, i))
                        } else {
                            let off = sum_sizes_prefix(fs, i as int);
                            let sz = size_v(fs[i as int].1);
                            Ok(
                                BodyState {
                                    rts: rest.push(fs[i as int].1),
                                    emitted: st.emitted.push(
                                        OpCode2::ProjIP(off as usize, sz as usize, total as usize),
                                    ),
                                    ..st
                                },
                            )
                        }
                    },
                    t => Err(ErrorV::TypeErrorTupleExpected(pos, op, t)),
                }
            },
            t => Err(ErrorV::TypeErrorTupleExpected(pos, op, t)),
        }
    }
}

/// The argument types a call finds on the run-time stack, in pop order.
pub open spec fn present_args(rts: Seq<TypeV>, n: int) -> Seq<TypeV> {
    Seq::new(n as nat, |k: int| rts[rts.len() - 1 - k])
}

/// Peel quantifiers off a called value's type, instantiating each from
/// the compile-time stack, then check the argument types on the run-time
/// stack against the function type. Returns the remaining stacks.
pub open spec fn spec_handle_call(
    pos: u32,
    t: TypeV,
    rts: Seq<TypeV>,
    cts: Seq<CTValV>,
) -> Result<(Seq<TypeV>, Seq<CTValV>), ErrorV>
    decreases cts.len(),
{
    match t {
        TypeV::Func(args) => if args.len() > rts.len() {
            Err(ErrorV::TypeErrorNotEnoughRuntimeArgs(pos, args.len() as int, rts.len() as int))
        } else {
            let present = present_args(rts, args.len() as int);
            if forall|k: int| 0 <= k < args.len() ==> type_eq_v(present[k], args[k]) {
                Ok((rts.subrange(0, rts.len() - args.len()), cts))
            } else {
                Err(ErrorV::TypeErrorCallArgTypesMismatch(pos, args, present))
            }
        },
        TypeV::Forall(var, s, body) => if cts.len() == 0 {
            Err(ErrorV::TypeErrorEmptyCTStack(pos, OpCode1::Call))
        } else {
            match cts.last() {
                CTValV::Type(targ) => {
                    let tsz = size_v(targ);
                    if tsz > usize::MAX {
                        Err(ErrorV::SizeOverflow(pos, OpCode1::Call))
                    } else if tsz != s as nat {
                        Err(ErrorV::SizeError(pos, OpCode1::Call, s as int, tsz as int))
                    } else {
                        spec_handle_call(
                            pos,
                            subst_tv(*body, seq![(var, targ)], Seq::empty()),
                            rts,
                            cts.drop_last(),
                        )
                    }
                },
                cval => Err(ErrorV::KindError(pos, OpCode1::Call, Kind::Type, cval)),
            }
        },
        TypeV::ForallRegion(var, body, captured) => if cts.len() == 0 {
            Err(ErrorV::TypeErrorEmptyCTStack(pos, OpCode1::Call))
        } else {
            match cts.last() {
                CTValV::Region(rarg) => if var.unique && live_rgn(captured, rarg.id) {
                    Err(ErrorV::RegionAccessError(pos, OpCode1::Call, rarg))
                } else {
                    spec_handle_call(
                        pos,
                        subst_tv(*body, Seq::empty(), seq![(var.id, rarg)]),
                        rts,
                        cts.drop_last(),
                    )
                },
                cval => Err(ErrorV::KindError(pos, OpCode1::Call, Kind::Region, cval)),
            }
        },
        _ => Err(ErrorV::TypeErrorFunctionExpected(pos, OpCode1::Call, t)),
    }
}

/// The `app` opcode: instantiate the quantified type on top of the
/// run-time stack with the top compile-time slot.
pub open spec fn spec_app(st: BodyState, pos: u32, op: OpCode1) -> Result<BodyState, ErrorV> {
    if st.core.cts.len() == 0 {
        Err(ErrorV::TypeErrorEmptyCTStack(pos, op))
    } else {
        let cts2 = st.core.cts.drop_last();
        match st.core.cts.last() {
            CTValV::Type(targ) => if st.rts.len() == 0 {
                Err(ErrorV::TypeErrorEmptyCTStack(pos, op))
            } else {
                match st.rts.last() {
                    TypeV::Forall(id, s, body) => {
                        let tsz = size_v(targ);
                        if tsz > usize::MAX {
                            Err(ErrorV::SizeOverflow(pos, op))
                        } else if s as nat != tsz {
                            Err(ErrorV::SizeError(pos, op, s as int, tsz as int))
                        } else {
                            Ok(
                                BodyState {
                                    core: CtCore { cts: cts2, ..st.core },
                                    rts: st.rts.drop_last().push(
                                        subst_tv(*body, seq![(id, targ)], Seq::empty()),
                                    ),
                                    ..st
                                },
                            )
                        }
                    },
                    t => Err(ErrorV::TypeErrorForallExpected(pos, op, t)),
                }
            },
            CTValV::Region(rarg) => if st.rts.len() == 0 {
                Err(ErrorV::TypeErrorEmptyCTStack(pos, op))
            } else {
                match st.rts.last() {
                    TypeV::ForallRegion(r, body, captured) => if r.unique && live_rgn(
                        captured,
                        rarg.id,
                    ) {
                        Err(ErrorV::RegionAccessError(pos, op, rarg))
                    } else {
                        Ok(
                            BodyState {
                                core: CtCore { cts: cts2, ..st.core },
                                rts: st.rts.drop_last().push(
                                    subst_tv(*body, Seq::empty(), seq![(r.id, rarg)]),
                                ),
                                ..st
                            },
                        )
                    },
                    t => Err(ErrorV::TypeErrorForallRegionExpected(pos, op, t)),
                }
            },
            cval => Err(ErrorV::KindErrorBadApp(pos, op, cval)),
        }
    }
}

/// The `pack` opcode: seal the top run-time value, whose type must be the
/// existential's body at the hidden witness type, into the existential
/// package.
pub open spec fn spec_pack(st: BodyState, pos: u32, op: OpCode1) -> Result<BodyState, ErrorV> {
    if st.rts.len() == 0 {
        Err(ErrorV::TypeErrorEmptyStack(pos, op))
    } else {
        let th = st.rts.last();
        if st.core.cts.len() == 0 {
            Err(ErrorV::TypeErrorEmptyCTStack(pos, op))
        } else {
            match st.core.cts.last() {
                CTValV::Type(hidden) => {
                    let cts2 = st.core.cts.drop_last();
                    if cts2.len() == 0 {
                        Err(ErrorV::TypeErrorEmptyCTStack(pos, op))
                    } else {
                        match cts2.last() {
                            CTValV::Type(TypeV::Exists(id, s, ex_body)) => {
                                let unpacked = subst_tv(
                                    *ex_body,
                                    seq![(id, hidden)],
                                    Seq::empty(),
                                );
                                if !type_eq_v(th, unpacked) {
                                    Err(ErrorV::TypeError(pos, op, unpacked, th))
                                } else {
                                    let thsz = size_v(th);
                                    if thsz > usize::MAX {
                                        Err(ErrorV::SizeOverflow(pos, op))
                                    } else if s as nat != thsz {
                                        Err(ErrorV::SizeError(pos, op, s as int, thsz as int))
                                    } else {
                                        Ok(
                                            BodyState {
                                                core: CtCore {
                                                    cts: cts2.drop_last(),
                                                    ..st.core
                                                },
                                                rts: st.rts.drop_last().push(
                                                    TypeV::Exists(id, s, ex_body),
                                                ),
                                                ..st
                                            },
                                        )
                                    }
                                }
                            },
                            CTValV::Type(t) => Err(
                                ErrorV::TypeErrorExistentialExpected(pos, op, t),
                            ),
                            cval => Err(ErrorV::KindError(pos, op, Kind::Type, cval)),
                        }
                    }
                },
                cval => Err(ErrorV::KindError(pos, op, Kind::Type, cval)),
            }
        }
    }
}

/// The `free-region` opcode: pop a handle whose region is live and unique,
/// and remove the region from the live set.
pub open spec fn spec_free(st: BodyState, pos: u32, op: OpCode1) -> Result<BodyState, ErrorV> {
    if st.rts.len() == 0 {
        Err(ErrorV::TypeErrorEmptyStack(pos, op))
    } else {
        match st.rts.last() {
            TypeV::Handle(r) => match find_rgn(st.rgns, r.id) {
                Some(r2) => if r2.unique {
                    Ok(
                        BodyState {
                            rts: st.rts.drop_last(),
                            rgns: remove_rgn(st.rgns, r.id),
                            emitted: st.emitted.push(OpCode2::FreeRgn),
                            ..st
                        },
                    )
                } else {
                    Err(ErrorV::UniquenessError(pos, op, r))
                },
                None => Err(ErrorV::RegionAccessError(pos, op, r)),
            },
            t => Err(ErrorV::TypeErrorRegionHandleExpected(pos, op, t)),
        }
    }
}

/// Look the signature table up by label; the most recent entry wins.
pub open spec fn lookup_sig(table: Seq<(Label, TypeV)>, l: Label) -> Option<TypeV>
    decreases table.len(),
{
    if table.len() == 0 {
        None
    } else if table.last().0 == l {
        Some(table.last().1)
    } else {
        lookup_sig(table.drop_last(), l)
    }
}

/// One body opcode's effect on the body state.
pub open spec fn body_step(
    st: BodyState,
    op: OpCode1,
    pos: u32,
    label: Label,
    table: Seq<(Label, TypeV)>,
) -> Result<BodyState, ErrorV> {
    if is_ct_op(op) {
        match ct_step(st.core, op, pos, label) {
            Ok(c2) => Ok(BodyState { core: c2, ..st }),
            Err(e) => Err(e),
        }
    } else {
        match op {
            OpCode1::App => spec_app(st, pos, op),
            OpCode1::Unpack => if st.core.cts.len() == 0 {
                Err(ErrorV::TypeErrorEmptyCTStack(pos, op))
            } else {
                match st.core.cts.last() {
                    CTValV::Type(TypeV::Exists(_, _, b)) => Ok(
                        BodyState {
                            core: CtCore {
                                cts: st.core.cts.drop_last().push(CTValV::Type(*b)),
                                ..st.core
                            },
                            ..st
                        },
                    ),
                    CTValV::Type(t) => Err(ErrorV::TypeErrorExistentialExpected(pos, op, t)),
                    cval => Err(ErrorV::KindError(pos, op, Kind::Type, cval)),
                }
            },
            OpCode1::Get(i) => spec_get(st, i, pos, op),
            OpCode1::Init(i) => spec_init(st, i, pos, op),
            OpCode1::Malloc => spec_malloc(st, pos, op),
            OpCode1::Proj(i) => spec_proj(st, i, pos, op),
            OpCode1::Call => if st.rts.len() == 0 {
                Err(ErrorV::TypeErrorEmptyStack(pos, op))
            } else {
                match spec_handle_call(pos, st.rts.last(), st.rts.drop_last(), st.core.cts) {
                    Ok((rts2, cts2)) => Ok(
                        BodyState {
                            core: CtCore { cts: cts2, ..st.core },
                            rts: rts2,
                            emitted: st.emitted.push(OpCode2::Call),
                            ..st
                        },
                    ),
                    Err(e) => Err(e),
                }
            },
            OpCode1::Print => if st.rts.len() == 0 {
                Err(ErrorV::TypeErrorEmptyStack(pos, op))
            } else {
                match st.rts.last() {
                    TypeV::I32 => Ok(
                        BodyState {
                            rts: st.rts.drop_last(),
                            emitted: st.emitted.push(OpCode2::Print),
                            ..st
                        },
                    ),
                    t => Err(ErrorV::TypeError(pos, op, TypeV::I32, t)),
                }
            },
            OpCode1::Lit(l) => Ok(
                BodyState {
                    rts: st.rts.push(TypeV::I32),
                    emitted: st.emitted.push(OpCode2::Lit(l)),
                    ..st
                },
            ),
            OpCode1::GlobalFunc(l) => match lookup_sig(table, l) {
                Some(t) => Ok(
                    BodyState {
                        rts: st.rts.push(t),
                        emitted: st.emitted.push(OpCode2::GlobalFunc(l)),
                        ..st
                    },
                ),
                None => Err(ErrorV::TypeErrorMissingSignature(l)),
            },
            OpCode1::Halt => if st.rts.len() == 0 {
                Err(ErrorV::TypeErrorEmptyStack(pos, op))
            } else {
                match st.rts.last() {
                    TypeV::I32 => Ok(
                        BodyState {
                            rts: st.rts.drop_last(),
                            emitted: st.emitted.push(OpCode2::Halt),
                            ..st
                        },
                    ),
                    t => Err(ErrorV::TypeError(pos, op, TypeV::I32, t)),
                }
            },
            OpCode1::Pack => spec_pack(st, pos, op),
            OpCode1::NewRgn => Ok(
                BodyState {
                    core: CtCore {
                        cts: st.core.cts.push(
                            CTValV::Region(
                                Region { unique: true, id: Id(label, st.core.fresh as u32) },
                            ),
                        ),
                        fresh: st.core.fresh + 1,
                        ..st.core
                    },
                    rts: st.rts.push(
                        TypeV::Handle(Region { unique: true, id: Id(label, st.core.fresh as u32) }),
                    ),
                    rgns: st.rgns.push(
                        Region { unique: true, id: Id(label, st.core.fresh as u32) },
                    ),
                    emitted: st.emitted.push(OpCode2::NewRgn),
                },
            ),
            OpCode1::FreeRgn => spec_free(st, pos, op),
            OpCode1::Deref => if st.rts.len() == 0 {
                Err(ErrorV::TypeErrorEmptyStack(pos, op))
            } else {
                match st.rts.last() {
                    TypeV::Ptr(b, r) => if !live_rgn(st.rgns, r.id) {
                        Err(ErrorV::RegionAccessError(pos, op, r))
                    } else {
                        let sz = size_v(*b);
                        if sz > usize::MAX {
                            Err(ErrorV::SizeOverflow(pos, op))
                        } else {
                            Ok(
                                BodyState {
                                    rts: st.rts.drop_last().push(*b),
                                    emitted: st.emitted.push(OpCode2::Deref(sz as usize)),
                                    ..st
                                },
                            )
                        }
                    },
                    t => Err(ErrorV::TypeErrorPtrExpected(pos, op, t)),
                }
            },
            _ => Err(ErrorV::SyntaxErrorUnexpectedOp(pos, op)),
        }
    }
}

/// Run the body pass over `ops[i..]` from state `st`.
pub open spec fn body_run(
    ops: Seq<OpCode1>,
    i: int,
    st: BodyState,
    label: Label,
    table: Seq<(Label, TypeV)>,
) -> Result<BodyState, ErrorV>
    decreases ops.len() - i,
{
    if i >= ops.len() {
        Ok(st)
    } else {
        match body_step(st, ops[i], pos_at(label, i), label, table) {
            Ok(st2) => body_run(ops, i + 1, st2, label, table),
            Err(e) => Err(e),
        }
    }
}

/// Unwind a signature into the initial compile-time stack (innermost
/// binder last, so on top after reversal) and the initial run-time stack
/// (the function type's argument list, reversed).
pub open spec fn spec_setup(t: TypeV) -> Result<(Seq<CTValV>, Seq<TypeV>), ()>
    decreases t,
{
    match t {
        TypeV::Forall(id, s, b) => match spec_setup(*b) {
            Ok((cts, ps)) => Ok((cts.push(CTValV::Type(TypeV::Var(id, s))), ps)),
            Err(e) => Err(e),
        },
        TypeV::ForallRegion(r, b, _) => match spec_setup(*b) {
            Ok((cts, ps)) => Ok((cts.push(CTValV::Region(r)), ps)),
            Err(e) => Err(e),
        },
        TypeV::Func(ps) => Ok((Seq::empty(), ps.reverse())),
        _ => Err(()),
    }
}

/// The body pass of one function: look its signature up, seed the stacks
/// from it, run the body, and require every quantifier frame closed.
/// Returns the signature and the elaborated opcode stream.
pub open spec fn spec_definition_pass(
    label: Label,
    ops: Seq<OpCode1>,
    table: Seq<(Label, TypeV)>,
    fresh0: int,
) -> Result<(TypeV, Seq<OpCode2>), ErrorV> {
    match lookup_sig(table, label) {
        None => Err(ErrorV::TypeErrorMissingSignature(label)),
        Some(myt) => match spec_setup(myt) {
            Err(_) => Err(ErrorV::TypeErrorBadSignature(label)),
            Ok((cts_raw, params)) => {
                let cts0 = cts_raw.reverse();
                let st0 = BodyState {
                    core: CtCore {
                        cts: cts0,
                        quants: Seq::empty(),
                        fresh: fresh0,
                        uniq: false,
                    },
                    rts: params,
                    rgns: rgns_of(cts0),
                    emitted: Seq::empty(),
                };
                match body_run(ops, 0, st0, label, table) {
                    Ok(st) => if st.core.quants.len() > 0 {
                        Err(ErrorV::TypeErrorNonEmptyQuantificationStack(label))
                    } else {
                        Ok((myt, st.emitted))
                    },
                    Err(e) => Err(e),
                }
            },
        },
    }
}

/// Elementwise view of the signature table.
pub open spec fn tbv(s: Seq<(Label, crate::header::Type)>) -> Seq<(Label, TypeV)> {
    Seq::new(s.len(), |i: int| (s[i].0, tv(s[i].1)))
}

/// View of a forward declaration.
pub open spec fn fd_view(d: ForwardDec) -> (Label, Seq<OpCode1>) {
    match d {
        ForwardDec::Func(l, ops) => (l, ops@),
    }
}

/// View of an unverified statement.
pub open spec fn s1_view(s: Stmt1) -> (Label, Seq<OpCode1>) {
    match s {
        Stmt1::Func(l, ops) => (l, ops@),
    }
}

/// View of a verified statement.
pub open spec fn s2_view(s: Stmt2) -> (Label, TypeV, Seq<OpCode2>) {
    match s {
        Stmt2::Func(l, t, ops) => (l, tv(t), ops@),
    }
}

/// Elementwise view of the forward declarations.
pub open spec fn fds_view(v: Seq<ForwardDec>) -> Seq<(Label, Seq<OpCode1>)> {
    Seq::new(v.len(), |i: int| fd_view(v[i]))
}

/// Elementwise view of the unverified statements.
pub open spec fn s1s_view(v: Seq<Stmt1>) -> Seq<(Label, Seq<OpCode1>)> {
    Seq::new(v.len(), |i: int| s1_view(v[i]))
}

/// Elementwise view of the verified statements.
pub open spec fn s2s_view(v: Seq<Stmt2>) -> Seq<(Label, TypeV, Seq<OpCode2>)> {
    Seq::new(v.len(), |i: int| s2_view(v[i]))
}

/// The signature pass over every declaration, from declaration `i` on,
/// growing the signature table and the per-label final fresh counters.
pub open spec fn run_decs(
    decs: Seq<(Label, Seq<OpCode1>)>,
    i: int,
    table: Seq<(Label, TypeV)>,
    ctrs: Seq<(Label, int)>,
) -> Result<(Seq<(Label, TypeV)>, Seq<(Label, int)>), ErrorV>
    decreases decs.len() - i,
{
    if i >= decs.len() {
        Ok((table, ctrs))
    } else {
        match spec_type_pass(decs[i].0, decs[i].1, 0) {
            Ok((t, f)) => run_decs(
                decs,
                i + 1,
                table.push((decs[i].0, t)),
                ctrs.push((decs[i].0, f)),
            ),
            Err(e) => Err(e),
        }
    }
}

/// Look the fresh-counter table up by label; the most recent entry wins,
/// and a label without an entry starts at zero.
pub open spec fn lookup_ctr(ctrs: Seq<(Label, int)>, l: Label) -> int
    decreases ctrs.len(),
{
    if ctrs.len() == 0 {
        0
    } else if ctrs.last().0 == l {
        ctrs.last().1
    } else {
        lookup_ctr(ctrs.drop_last(), l)
    }
}

/// The body pass over every statement, from statement `i` on.
pub open spec fn run_stmts(
    stmts: Seq<(Label, Seq<OpCode1>)>,
    i: int,
    table: Seq<(Label, TypeV)>,
    ctrs: Seq<(Label, int)>,
    acc: Seq<(Label, TypeV, Seq<OpCode2>)>,
) -> Result<Seq<(Label, TypeV, Seq<OpCode2>)>, ErrorV>
    decreases stmts.len() - i,
{
    if i >= stmts.len() {
        Ok(acc)
    } else {
        match spec_definition_pass(stmts[i].0, stmts[i].1, table, lookup_ctr(ctrs, stmts[i].0)) {
            Ok((t, em)) => run_stmts(stmts, i + 1, table, ctrs, acc.push((stmts[i].0, t, em))),
            Err(e) => Err(e),
        }
    }
}

/// The whole verification: synthesize every signature, verify every body,
/// then require the entry function to take no arguments.
pub open spec fn spec_go(
    decs: Seq<(Label, Seq<OpCode1>)>,
    stmts: Seq<(Label, Seq<OpCode1>)>,
) -> Result<Seq<(Label, TypeV, Seq<OpCode2>)>, ErrorV> {
    match run_decs(decs, 0, Seq::empty(), Seq::empty()) {
        Err(e) => Err(e),
        Ok((table, ctrs)) => match run_stmts(stmts, 0, table, ctrs, Seq::empty()) {
            Err(e) => Err(e),
            Ok(out) => if out.len() > 0 {
                match out[0].1 {
                    TypeV::Func(ps) => if ps.len() != 0 {
                        Err(ErrorV::TypeErrorMainHasArgs)
                    } else {
                        Ok(out)
                    },
                    _ => Err(ErrorV::TypeErrorMainHasArgs),
                }
            } else {
                Ok(out)
            },
        },
    }
}

} // verus!
