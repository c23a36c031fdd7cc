//! Unit tests of the structural operations on types, the interning
//! pools, the pretty-printing helpers, and the single passes.

use captal::equiv::{substitute_r, substitute_t, type_eq, type_size};
use captal::header::{
    Capability, CapabilityPool, CTStackVal, ForwardDec, Id, Kind, OpCode1, Region, Type,
    TypeListPool, TypePool, TypeRef, get_kind_str, get_op_str, pretty_kind,
};
use captal::verify::{definition_pass, type_pass};

fn rgn(unique: bool, a: u32, b: u32) -> Region {
    Region { unique, id: Id(a, b) }
}

#[test]
fn type_eq_is_alpha_equivalence() {
    // Two universal types that differ only in the bound variable's name.
    let t1 = Type::Forall(Id(0, 0), 1, Box::new(Type::Var(Id(0, 0), 1)));
    let t2 = Type::Forall(Id(0, 7), 1, Box::new(Type::Var(Id(0, 7), 1)));
    assert!(type_eq(&t1, &t2));
    // Different declared sizes are not equivalent.
    let t3 = Type::Forall(Id(0, 7), 2, Box::new(Type::Var(Id(0, 7), 2)));
    assert!(!type_eq(&t1, &t3));
    // Free variables compare by identifier.
    assert!(type_eq(&Type::Var(Id(1, 2), 1), &Type::Var(Id(1, 2), 1)));
    assert!(!type_eq(&Type::Var(Id(1, 2), 1), &Type::Var(Id(1, 3), 1)));
    // Initialization flags are part of the type.
    let u1 = Type::Tuple(vec![(true, Type::I32)]);
    let u2 = Type::Tuple(vec![(false, Type::I32)]);
    assert!(!type_eq(&u1, &u2));
    // Argument lists must agree in length.
    let f1 = Type::Func(vec![Type::I32]);
    let f2 = Type::Func(vec![Type::I32, Type::I32]);
    assert!(!type_eq(&f1, &f2));
}

#[test]
fn substitution_replaces_bound_variables() {
    let tsubs = vec![(Id(0, 0), Type::I32)];
    let rsubs: Vec<(Id, Region)> = Vec::new();
    let t = Type::Tuple(vec![(true, Type::Var(Id(0, 0), 1)), (false, Type::Var(Id(0, 1), 1))]);
    let out = substitute_t(&t, &tsubs, &rsubs);
    assert!(matches!(
        &out,
        Type::Tuple(fs)
            if matches!(fs[0], (true, Type::I32)) && matches!(fs[1], (false, Type::Var(Id(0, 1), 1)))
    ));
}

#[test]
fn substitution_on_regions() {
    let rsubs = vec![(Id(0, 0), rgn(true, 2, 2))];
    assert_eq!(substitute_r(&rgn(false, 0, 0), &rsubs), rgn(true, 2, 2));
    assert_eq!(substitute_r(&rgn(false, 0, 1), &rsubs), rgn(false, 0, 1));
}

#[test]
fn substitution_commutes_with_equality_on_ground_images() {
    // With a ground substitution, equivalent types stay equivalent.
    let theta = vec![(Id(0, 0), Type::I32), (Id(0, 1), Type::I32)];
    let none: Vec<(Id, Region)> = Vec::new();
    let t1 = Type::Func(vec![Type::Var(Id(0, 0), 1)]);
    let t2 = Type::Func(vec![Type::Var(Id(0, 0), 1)]);
    assert!(type_eq(&t1, &t2));
    assert!(type_eq(&substitute_t(&t1, &theta, &none), &substitute_t(&t2, &theta, &none)));
    // The reverse implication fails when the substitution merges two
    // distinct variables: the images are equal, the originals are not.
    let v1 = Type::Var(Id(0, 0), 1);
    let v2 = Type::Var(Id(0, 1), 1);
    assert!(!type_eq(&v1, &v2));
    assert!(type_eq(&substitute_t(&v1, &theta, &none), &substitute_t(&v2, &theta, &none)));
}

#[test]
fn sizes_of_types() {
    assert_eq!(type_size(&Type::I32), Some(1));
    assert_eq!(type_size(&Type::Handle(rgn(true, 0, 0))), Some(1));
    let pair = Type::Tuple(vec![(true, Type::I32), (true, Type::I32)]);
    assert_eq!(type_size(&pair), Some(2));
    let nested = Type::Tuple(vec![(true, pair), (false, Type::I32)]);
    assert_eq!(type_size(&nested), Some(3));
    assert_eq!(type_size(&Type::Ptr(Box::new(nested), rgn(true, 0, 0))), Some(1));
    assert_eq!(type_size(&Type::Var(Id(0, 0), 7)), Some(7));
    assert_eq!(type_size(&Type::Func(vec![Type::I32])), Some(1));
    assert_eq!(type_size(&Type::Exists(Id(0, 0), 1, Box::new(Type::Var(Id(0, 0), 1)))), Some(1));
}

#[test]
fn type_pass_synthesizes_a_signature() {
    let d = ForwardDec::Func(4, vec![OpCode1::I32, OpCode1::I32, OpCode1::Func(2)]);
    let (label, sig, ctr) = type_pass(&d, 0).unwrap();
    assert_eq!(label, 4);
    assert_eq!(ctr, 0);
    assert!(matches!(&sig, Type::Func(args) if args.len() == 2));
}

#[test]
fn type_pass_is_alpha_invariant_in_the_counter() {
    // Starting the fresh-variable counter elsewhere renames every bound
    // variable; the synthesized signatures stay alpha-equivalent.
    let ops = vec![
        OpCode1::Size(1),
        OpCode1::All,
        OpCode1::CTGet(0),
        OpCode1::Func(1),
        OpCode1::End,
    ];
    let d = ForwardDec::Func(2, ops);
    let (_, sig1, _) = type_pass(&d, 0).unwrap();
    let (_, sig2, _) = type_pass(&d, 40).unwrap();
    assert!(type_eq(&sig1, &sig2));
}

#[test]
fn definition_pass_elaborates_a_body() {
    let table = vec![(6, Type::Func(vec![]))];
    let s = captal::header::Stmt1::Func(6, vec![OpCode1::Lit(1), OpCode1::Halt]);
    let out = definition_pass(&s, &table, 0).unwrap();
    let captal::header::Stmt2::Func(l, _, ops) = &out;
    assert_eq!(*l, 6);
    assert_eq!(ops, &vec![captal::header::OpCode2::Lit(1), captal::header::OpCode2::Halt]);
}

#[test]
fn capability_pool_round_trip() {
    let mut pool = CapabilityPool(Vec::new());
    let caps = vec![Capability::Owned(rgn(true, 0, 0)), Capability::CapVar(Id(1, 1))];
    let r = pool.add(caps.clone());
    assert_eq!(pool.get(r), &caps);
    let r2 = pool.add(vec![Capability::NotOwned(rgn(false, 2, 0))]);
    assert_ne!(r, r2);
    assert_eq!(pool.get(r2).len(), 1);
}

#[test]
fn type_pool_round_trip() {
    let mut pool = TypePool(Vec::new());
    let r1 = pool.add(Type::I32);
    let r2 = pool.add(Type::Handle(rgn(true, 0, 0)));
    assert!(matches!(pool.get(r1), Type::I32));
    assert!(matches!(pool.get(r2), Type::Handle(_)));
}

#[test]
fn type_list_pool_round_trip() {
    let mut types = TypePool(Vec::new());
    let a = types.add(Type::I32);
    let b = types.add(Type::I32);
    let mut lists = TypeListPool(Vec::new());
    let l = lists.add(vec![a, b]);
    assert_eq!(lists.get(l), &vec![TypeRef(0), TypeRef(1)]);
}

#[test]
fn opcode_mnemonics() {
    assert_eq!(get_op_str(0x00), "req");
    assert_eq!(get_op_str(0x08), "handle");
    assert_eq!(get_op_str(0x0A), "END_FUNC");
    assert_eq!(get_op_str(0x10), "emos");
    assert_eq!(get_op_str(0x17), "malloc");
    assert_eq!(get_op_str(0x1A), "call");
}

#[test]
fn kind_names() {
    assert_eq!(pretty_kind(Kind::Region), "region");
    assert_eq!(pretty_kind(Kind::Type), "type");
    assert_eq!(pretty_kind(Kind::Size), "size");
    assert_eq!(pretty_kind(Kind::Capability), "capability");
    assert_eq!(get_kind_str(CTStackVal::Region(rgn(true, 0, 0))), "region");
    assert_eq!(get_kind_str(CTStackVal::Size(1)), "size");
    assert_eq!(get_kind_str(CTStackVal::Type(Type::I32)), "type");
}

#[test]
fn type_eq_discipline_boundaries() {
    // Within the well-scoped discipline (each variable carrying its
    // binder's size) equality is reflexive.
    let good = Type::Forall(Id(0, 0), 1, Box::new(Type::Var(Id(0, 0), 1)));
    assert!(type_eq(&good, &good));
    // A variable occurrence carrying a size other than its binder's is
    // outside the discipline, and such a value does not equal itself:
    // the renaming replaces the occurrence with the binder's size.
    let skewed = Type::Forall(Id(0, 0), 1, Box::new(Type::Var(Id(0, 0), 2)));
    assert!(!type_eq(&skewed, &skewed));
    // A free variable colliding with the other side's binder is captured
    // by the renaming, so equality holds in one direction only; the
    // right-hand type is not well scoped (its variable is free).
    let y = Id(0, 7);
    let x = Id(0, 8);
    let a = Type::Forall(y, 1, Box::new(Type::Var(y, 1)));
    let b = Type::Forall(x, 1, Box::new(Type::Var(y, 1)));
    assert!(type_eq(&a, &b));
    assert!(!type_eq(&b, &a));
}
