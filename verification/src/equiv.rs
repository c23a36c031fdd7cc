//! Executable structural operations on types: deep copies, the layout
//! size computation, capture-free substitution, and alpha-equivalence.

use vstd::prelude::*;
use crate::header::{CTStackVal, Id, Region, Type};
use crate::model::{
    lemma_eq_fields_iff, lemma_eq_list_iff, lemma_sum_sizes_is_prefix,
    lemma_sum_sizes_prefix_mono, lemma_tvf_index, lemma_tvf_len, lemma_tvs_index, lemma_tvs_len,
    lookup_rsub, lookup_tsub, size_v, subst_fields, subst_list, subst_rv, subst_tv, sum_sizes,
    sum_sizes_prefix, sv, tv, tvf, tvs, type_eq_v, unique_images, TypeV,
};

verus! {

broadcast use lemma_tvf_len, lemma_tvf_index, lemma_tvs_len, lemma_tvs_index;

/// A component's size is at most the whole tuple's size.
pub proof fn lemma_component_le_sum(fs: Seq<(bool, TypeV)>, i: int)
    requires
        0 <= i < fs.len(),
    ensures
        sum_sizes_prefix(fs, i) + size_v(fs[i].1) <= sum_sizes(fs),
{
    lemma_sum_sizes_is_prefix(fs);
    lemma_sum_sizes_prefix_mono(fs, i + 1, fs.len() as int);
}

/// Copy a vector of regions.
pub fn copy_regions(v: &Vec<Region>) -> (r: Vec<Region>)
    ensures
        r@ == v@,
{
    let mut out: Vec<Region> = Vec::new();
    let mut i: usize = 0;
    while i < v.len()
        invariant
            i <= v.len(),
            out@ == v@.take(i as int),
        decreases v.len() - i,
    {
        out.push(v[i]);
        proof {
            assert(out@ =~= v@.take(i + 1));
        }
        i = i + 1;
    }
    proof {
        assert(out@ =~= v@);
    }
    out
}

impl Type {
    /// Structure-preserving copy; the copy has the same view.
    #[verifier::loop_isolation(false)]
    pub fn duplicate(&self) -> (r: Type)
        ensures
            r@ == self@,
        decreases self,
    {
        match self {
            Type::I32 => Type::I32,
            Type::Handle(r0) => Type::Handle(*r0),
            Type::Tuple(ts) => {
                let mut out: Vec<(bool, Type)> = Vec::new();
                let mut i: usize = 0;
                while i < ts.len()
                    invariant
                        i <= ts.len(),
                        out@.len() == i,
                        forall|j: int|
                            0 <= j < i ==> out@[j].0 == ts@[j].0 && tv(out@[j].1) == tv(ts@[j].1),
                    decreases ts.len() - i,
                {
                    out.push((ts[i].0, ts[i].1.duplicate()));
                    i = i + 1;
                }
                proof {
                    assert(tvf(out@) =~= tvf(ts@));
                }
                Type::Tuple(out)
            },
            Type::Ptr(b, r0) => Type::Ptr(Box::new((&**b).duplicate()), *r0),
            Type::Var(id, s) => Type::Var(*id, *s),
            Type::Func(ts) => {
                let mut out: Vec<Type> = Vec::new();
                let mut i: usize = 0;
                while i < ts.len()
                    invariant
                        i <= ts.len(),
                        out@.len() == i,
                        forall|j: int| 0 <= j < i ==> tv(out@[j]) == tv(ts@[j]),
                    decreases ts.len() - i,
                {
                    out.push(ts[i].duplicate());
                    i = i + 1;
                }
                proof {
                    assert(tvs(out@) =~= tvs(ts@));
                }
                Type::Func(out)
            },
            Type::Exists(id, s, b) => Type::Exists(*id, *s, Box::new((&**b).duplicate())),
            Type::Forall(id, s, b) => Type::Forall(*id, *s, Box::new((&**b).duplicate())),
            Type::ForallRegion(r0, b, caps) => Type::ForallRegion(
                *r0,
                Box::new((&**b).duplicate()),
                copy_regions(caps),
            ),
        }
    }
}

impl CTStackVal {
    /// Structure-preserving copy; the copy has the same view.
    pub fn duplicate(&self) -> (r: CTStackVal)
        ensures
            r@ == self@,
    {
        match self {
            CTStackVal::Region(r0) => CTStackVal::Region(*r0),
            CTStackVal::Size(s) => CTStackVal::Size(*s),
            CTStackVal::Type(t) => CTStackVal::Type(t.duplicate()),
        }
    }
}

/// Copy a vector of types elementwise.
pub fn dup_types(v: &Vec<Type>) -> (r: Vec<Type>)
    ensures
        tvs(r@) == tvs(v@),
{
    let mut out: Vec<Type> = Vec::new();
    let mut i: usize = 0;
    while i < v.len()
        invariant
            i <= v.len(),
            out@.len() == i,
            forall|j: int| 0 <= j < i ==> tv(out@[j]) == tv(v@[j]),
        decreases v.len() - i,
    {
        out.push(v[i].duplicate());
        i = i + 1;
    }
    proof {
        assert(tvs(out@) =~= tvs(v@));
    }
    out
}

/// The machine-word footprint of a type, or `None` where it does not fit
/// in a machine word's range.
#[verifier::loop_isolation(false)]
pub fn type_size(t: &Type) -> (r: Option<usize>)
    ensures
        match r {
            Some(s) => s as nat == size_v(t@),
            None => size_v(t@) > usize::MAX,
        },
    decreases t,
{
    match t {
        Type::I32 => Some(1),
        Type::Handle(_) => Some(1),
        Type::Ptr(_, _) => Some(1),
        Type::Var(_, s) => Some(*s),
        Type::Func(_) => Some(1),
        Type::Exists(_, _, b) => type_size(&**b),
        Type::Forall(_, _, b) => type_size(&**b),
        Type::ForallRegion(_, b, _) => type_size(&**b),
        Type::Tuple(ts) => {
            let ghost fs = tvf(ts@);
            let mut total: usize = 0;
            let mut i: usize = 0;
            while i < ts.len()
                invariant
                    i <= ts.len(),
                    fs == tvf(ts@),
                    fs.len() == ts@.len(),
                    total as nat == sum_sizes_prefix(fs, i as int),
                decreases ts.len() - i,
            {
                proof {
                    assert(fs[i as int] == (ts@[i as int].0, tv(ts@[i as int].1)));
                }
                match type_size(&ts[i].1) {
                    None => {
                        proof {
                            lemma_component_le_sum(fs, i as int);
                            lemma_sum_sizes_is_prefix(fs);
                        }
                        return None;
                    },
                    Some(s) => {
                        if s > usize::MAX - total {
                            proof {
                                lemma_component_le_sum(fs, i as int);
                                lemma_sum_sizes_is_prefix(fs);
                            }
                            return None;
                        }
                        total = total + s;
                    },
                }
                i = i + 1;
            }
            proof {
                lemma_sum_sizes_is_prefix(fs);
            }
            Some(total)
        },
    }
}

/// Substitution on a compile-time region value: the replacement if the
/// region's `Id` is bound, the region itself otherwise.
pub fn substitute_r(r: &Region, rsubs: &Vec<(Id, Region)>) -> (res: Region)
    ensures
        res == subst_rv(*r, rsubs@),
{
    let mut i: usize = 0;
    proof {
        assert(rsubs@.skip(0) =~= rsubs@);
    }
    while i < rsubs.len()
        invariant
            i <= rsubs.len(),
            lookup_rsub(rsubs@, r.id) == lookup_rsub(rsubs@.skip(i as int), r.id),
        decreases rsubs.len() - i,
    {
        proof {
            assert(rsubs@.skip(i as int).drop_first() =~= rsubs@.skip(i as int + 1));
        }
        if rsubs[i].0 == r.id {
            return rsubs[i].1;
        }
        i = i + 1;
    }
    *r
}

/// Look up and copy the replacement a type substitution gives a variable.
fn lookup_dup(tsubs: &Vec<(Id, Type)>, id: Id) -> (r: Option<Type>)
    ensures
        match r {
            Some(t) => lookup_tsub(sv(tsubs@), id) == Some(t@),
            None => lookup_tsub(sv(tsubs@), id) is None,
        },
{
    let mut i: usize = 0;
    proof {
        assert(sv(tsubs@).skip(0) =~= sv(tsubs@));
    }
    while i < tsubs.len()
        invariant
            i <= tsubs.len(),
            lookup_tsub(sv(tsubs@), id) == lookup_tsub(sv(tsubs@).skip(i as int), id),
        decreases tsubs.len() - i,
    {
        proof {
            assert(sv(tsubs@).skip(i as int).drop_first() =~= sv(tsubs@).skip(i as int + 1));
        }
        if tsubs[i].0 == id {
            return Some(tsubs[i].1.duplicate());
        }
        i = i + 1;
    }
    None
}

/// Perform variable substitutions within a type, building a new type; the
/// original is not modified. Substitution is capture-free because bound
/// names are globally unique, and initialization flags are preserved.
#[verifier::loop_isolation(false)]
pub fn substitute_t(typ: &Type, tsubs: &Vec<(Id, Type)>, rsubs: &Vec<(Id, Region)>) -> (r: Type)
    ensures
        r@ == subst_tv(typ@, sv(tsubs@), rsubs@),
    decreases typ,
{
    broadcast use
        crate::model::lemma_subst_fields_len,
        crate::model::lemma_subst_fields_index,
        crate::model::lemma_subst_list_len,
        crate::model::lemma_subst_list_index,
    ;

    match typ {
        Type::I32 => Type::I32,
        Type::Handle(r0) => Type::Handle(substitute_r(r0, rsubs)),
        Type::Tuple(ts) => {
            let mut out: Vec<(bool, Type)> = Vec::new();
            let mut i: usize = 0;
            while i < ts.len()
                invariant
                    i <= ts.len(),
                    out@.len() == i,
                    forall|j: int|
                        0 <= j < i ==> out@[j].0 == ts@[j].0 && tv(out@[j].1) == subst_tv(
                            tv(ts@[j].1),
                            sv(tsubs@),
                            rsubs@,
                        ),
                decreases ts.len() - i,
            {
                out.push((ts[i].0, substitute_t(&ts[i].1, tsubs, rsubs)));
                i = i + 1;
            }
            proof {
                assert(tvf(out@) =~= subst_fields(tvf(ts@), sv(tsubs@), rsubs@));
            }
            Type::Tuple(out)
        },
        Type::Ptr(b, r0) => Type::Ptr(
            Box::new(substitute_t(&**b, tsubs, rsubs)),
            substitute_r(r0, rsubs),
        ),
        Type::Var(id, s) => match lookup_dup(tsubs, *id) {
            Some(t) => t,
            None => Type::Var(*id, *s),
        },
        Type::Func(ts) => {
            let mut out: Vec<Type> = Vec::new();
            let mut i: usize = 0;
            while i < ts.len()
                invariant
                    i <= ts.len(),
                    out@.len() == i,
                    forall|j: int|
                        0 <= j < i ==> tv(out@[j]) == subst_tv(tv(ts@[j]), sv(tsubs@), rsubs@),
                decreases ts.len() - i,
            {
                out.push(substitute_t(&ts[i], tsubs, rsubs));
                i = i + 1;
            }
            proof {
                assert(tvs(out@) =~= subst_list(tvs(ts@), sv(tsubs@), rsubs@));
            }
            Type::Func(out)
        },
        Type::Exists(id, s, b) => Type::Exists(
            *id,
            *s,
            Box::new(substitute_t(&**b, tsubs, rsubs)),
        ),
        Type::Forall(id, s, b) => Type::Forall(
            *id,
            *s,
            Box::new(substitute_t(&**b, tsubs, rsubs)),
        ),
        Type::ForallRegion(r0, b, caps) => {
            let mut out = copy_regions(caps);
            let mut i: usize = 0;
            proof {
                assert(rsubs@.skip(0) =~= rsubs@);
            }
            while i < rsubs.len()
                invariant
                    i <= rsubs.len(),
                    out@ + unique_images(rsubs@.skip(i as int)) == caps@ + unique_images(rsubs@),
                decreases rsubs.len() - i,
            {
                proof {
                    assert(rsubs@.skip(i as int).drop_first() =~= rsubs@.skip(i as int + 1));
                }
                if rsubs[i].1.unique {
                    proof {
                        assert(out@ + (seq![rsubs@[i as int].1] + unique_images(
                            rsubs@.skip(i as int + 1),
                        )) =~= out@.push(rsubs@[i as int].1) + unique_images(
                            rsubs@.skip(i as int + 1),
                        ));
                    }
                    out.push(rsubs[i].1);
                }
                i = i + 1;
            }
            proof {
                assert(rsubs@.skip(rsubs@.len() as int) =~= Seq::<(Id, Region)>::empty());
                assert(out@ + Seq::<Region>::empty() =~= out@);
                assert(rsubs@.skip(0) =~= rsubs@);
            }
            Type::ForallRegion(*r0, Box::new(substitute_t(&**b, tsubs, rsubs)), out)
        },
    }
}

/// Decide type equality up to renaming of bound variables, for
/// typechecking: alpha-equivalence on the well-scoped types the passes
/// build.
#[verifier::loop_isolation(false)]
pub fn type_eq(type1: &Type, type2: &Type) -> (b: bool)
    ensures
        b == type_eq_v(type1@, type2@),
    decreases type1,
{
    match (type1, type2) {
        (Type::I32, Type::I32) => true,
        (Type::Handle(r1), Type::Handle(r2)) => r1 == r2,
        (Type::Tuple(ts1), Type::Tuple(ts2)) => {
            if ts1.len() != ts2.len() {
                proof {
                    assert(tvf(ts1@).len() == ts1@.len());
                    assert(tvf(ts2@).len() == ts2@.len());
                }
                return false;
            }
            let mut i: usize = 0;
            while i < ts1.len()
                invariant
                    i <= ts1.len(),
                    ts1@.len() == ts2@.len(),
                    forall|j: int|
                        0 <= j < i ==> ts1@[j].0 == ts2@[j].0 && type_eq_v(
                            tv(ts1@[j].1),
                            tv(ts2@[j].1),
                        ),
                decreases ts1.len() - i,
            {
                let component_differs = if ts1[i].0 != ts2[i].0 {
                    true
                } else {
                    !type_eq(&ts1[i].1, &ts2[i].1)
                };
                if component_differs {
                    proof {
                        lemma_eq_fields_iff(tvf(ts1@), tvf(ts2@));
                        assert(tvf(ts1@)[i as int] == (ts1@[i as int].0, tv(ts1@[i as int].1)));
                        assert(tvf(ts2@)[i as int] == (ts2@[i as int].0, tv(ts2@[i as int].1)));
                    }
                    return false;
                }
                i = i + 1;
            }
            proof {
                lemma_eq_fields_iff(tvf(ts1@), tvf(ts2@));
                assert forall|j: int| 0 <= j < tvf(ts1@).len() implies tvf(ts1@)[j].0 == tvf(
                    ts2@,
                )[j].0 && type_eq_v(tvf(ts1@)[j].1, tvf(ts2@)[j].1) by {
                    assert(tvf(ts1@)[j] == (ts1@[j].0, tv(ts1@[j].1)));
                    assert(tvf(ts2@)[j] == (ts2@[j].0, tv(ts2@[j].1)));
                }
            }
            true
        },
        (Type::Ptr(b1, r1), Type::Ptr(b2, r2)) => {
            if r1 == r2 {
                type_eq(&**b1, &**b2)
            } else {
                false
            }
        },
        (Type::Var(id1, s1), Type::Var(id2, s2)) => id1 == id2 && s1 == s2,
        (Type::Func(a1), Type::Func(a2)) => {
            if a1.len() != a2.len() {
                proof {
                    assert(tvs(a1@).len() == a1@.len());
                    assert(tvs(a2@).len() == a2@.len());
                }
                return false;
            }
            let mut i: usize = 0;
            while i < a1.len()
                invariant
                    i <= a1.len(),
                    a1@.len() == a2@.len(),
                    forall|j: int| 0 <= j < i ==> type_eq_v(tv(a1@[j]), tv(a2@[j])),
                decreases a1.len() - i,
            {
                if !type_eq(&a1[i], &a2[i]) {
                    proof {
                        lemma_eq_list_iff(tvs(a1@), tvs(a2@));
                        assert(tvs(a1@)[i as int] == tv(a1@[i as int]));
                        assert(tvs(a2@)[i as int] == tv(a2@[i as int]));
                    }
                    return false;
                }
                i = i + 1;
            }
            proof {
                lemma_eq_list_iff(tvs(a1@), tvs(a2@));
                assert forall|j: int| 0 <= j < tvs(a1@).len() implies type_eq_v(
                    tvs(a1@)[j],
                    tvs(a2@)[j],
                ) by {
                    assert(tvs(a1@)[j] == tv(a1@[j]));
                    assert(tvs(a2@)[j] == tv(a2@[j]));
                }
            }
            true
        },
        (Type::Exists(id1, s1, b1), Type::Exists(id2, s2, b2)) => {
            if *s1 != *s2 {
                return false;
            }
            let sub: Vec<(Id, Type)> = vec![(*id2, Type::Var(*id1, *s1))];
            let empty_r: Vec<(Id, Region)> = Vec::new();
            let b2s = substitute_t(&**b2, &sub, &empty_r);
            proof {
                assert(sv(sub@) =~= seq![(*id2, TypeV::Var(*id1, *s1))]);
                assert(empty_r@ =~= Seq::<(Id, Region)>::empty());
            }
            type_eq(&**b1, &b2s)
        },
        (Type::Forall(id1, s1, b1), Type::Forall(id2, s2, b2)) => {
            if *s1 != *s2 {
                return false;
            }
            let sub: Vec<(Id, Type)> = vec![(*id2, Type::Var(*id1, *s1))];
            let empty_r: Vec<(Id, Region)> = Vec::new();
            let b2s = substitute_t(&**b2, &sub, &empty_r);
            proof {
                assert(sv(sub@) =~= seq![(*id2, TypeV::Var(*id1, *s1))]);
                assert(empty_r@ =~= Seq::<(Id, Region)>::empty());
            }
            type_eq(&**b1, &b2s)
        },
        (Type::ForallRegion(r1, b1, _), Type::ForallRegion(r2, b2, _)) => {
            let empty_t: Vec<(Id, Type)> = Vec::new();
            let sub_r: Vec<(Id, Region)> = vec![(r2.id, *r1)];
            let b2s = substitute_t(&**b2, &empty_t, &sub_r);
            proof {
                assert(sv(empty_t@) =~= Seq::<(Id, TypeV)>::empty());
                assert(sub_r@ =~= seq![(r2.id, *r1)]);
            }
            type_eq(&**b1, &b2s)
        },
        _ => false,
    }
}

} // verus!
