//! Data model of the bytecode verifier: source and elaborated opcodes,
//! statements, identifiers, regions, capabilities, types, compile-time
//! stack values, interning pools, errors, and the pretty-printing helpers
//! used by diagnostics.

use vstd::prelude::*;

verus! {

/// A function label: the stable integer identifier of a function statement,
/// also used as the owner component of fresh variable identifiers.
pub type Label = u32;

/// A variable identifier: the pair of the owning function's label and a
/// per-function counter, so names are globally unique without a global
/// allocator.
#[derive(Clone, Copy, Debug, PartialEq, Eq, Structural)]
pub struct Id(pub Label, pub u32);

/// A region: an abstract memory arena, identified by a variable `Id` and
/// carrying its uniqueness bit. Unique regions can be freed; non-unique
/// regions cannot.
#[derive(Clone, Copy, Debug, PartialEq, Eq, Structural)]
pub struct Region {
    pub unique: bool,
    pub id: Id,
}

/// The kind of a compile-time stack slot, as expected by constructor
/// opcodes.
#[derive(Clone, Copy, Debug, PartialEq, Eq, Structural)]
pub enum Kind {
    Region,
    Type,
    Size,
    Capability,
}

/// Source opcodes: the constructor opcodes that build types, regions and
/// sizes on the compile-time stack, and the body opcodes checked against
/// the symbolic run-time stack.
#[derive(Clone, Copy, Debug, PartialEq, Eq, Structural)]
pub enum OpCode1 {
    /// Mark the next minted region variable as unique.
    Unique,
    /// Pop a region, push the type of its run-time handle.
    Handle,
    /// Push the 32-bit scalar type.
    I32,
    /// Pop n types, push a tuple type whose components are all initialized.
    Tuple(u8),
    /// Pop a size, mint a fresh type variable, open an existential frame.
    Exist,
    /// Pop a size, mint a fresh type variable, open a universal frame.
    All,
    /// Mint a fresh region variable, open a region frame.
    Rgn,
    /// Close the innermost quantifier frame.
    End,
    /// Instantiate a quantified run-time value with the top compile-time slot.
    App,
    /// Pop n types and build a function type over them.
    Func(u8),
    /// Copy the i-th-from-top compile-time slot onto the top.
    CTGet(u8),
    /// Marker separating forward declarations; invalid inside a function.
    Lced,
    /// Pop an existential type, push its body.
    Unpack,
    /// Copy the i-th-from-top run-time slot onto the top.
    Get(u8),
    /// Initialize component i of the tuple under the top value.
    Init(u8),
    /// Allocate a tuple, in a region or on the stack.
    Malloc,
    /// Project component i out of a tuple.
    Proj(u8),
    /// Call the function value on top of the run-time stack.
    Call,
    /// Print the integer on top of the run-time stack.
    Print,
    /// Push an integer literal.
    Lit(i32),
    /// Push the signature of the named function.
    GlobalFunc(Label),
    /// Stop execution; consumes the integer on top of the run-time stack.
    Halt,
    /// Seal the top run-time value into an existential package.
    Pack,
    /// Push a size literal.
    Size(u8),
    /// Mint a fresh unique region and push its handle.
    NewRgn,
    /// Free the unique region whose handle is on top of the run-time stack.
    FreeRgn,
    /// Pop a type and a region, push a pointer type into that region.
    Ptr,
    /// Replace the pointer on top of the run-time stack by its pointee.
    Deref,
}

/// Elaborated opcodes: the body opcodes after layout resolution, with
/// offsets, sizes and (where applicable) total sizes as explicit operands.
#[derive(Clone, Copy, Debug, PartialEq, Eq, Structural)]
pub enum OpCode2 {
    /// offset, size
    Get(usize, usize),
    /// offset, size, total tuple size
    Init(usize, usize, usize),
    /// offset, size (in-place, through a pointer)
    InitIP(usize, usize),
    /// allocation size, in a region
    Malloc(usize),
    /// allocation size, on the stack
    Alloca(usize),
    /// offset, size, total tuple size
    Proj(usize, usize, usize),
    /// offset, size, total tuple size (through a pointer)
    ProjIP(usize, usize, usize),
    Call,
    Print,
    Lit(i32),
    GlobalFunc(Label),
    Halt,
    NewRgn,
    FreeRgn,
    /// pointee size
    Deref(usize),
}

/// A forward declaration: the label and the opcode prefix from which the
/// function's type signature is synthesized.
#[derive(Debug)]
pub enum ForwardDec {
    Func(Label, Vec<OpCode1>),
}

/// An unverified function statement: the label and the full opcode list.
#[derive(Debug)]
pub enum Stmt1 {
    Func(Label, Vec<OpCode1>),
}

/// A verified function statement: the label, the synthesized signature,
/// and the elaborated opcode stream.
#[derive(Debug)]
pub enum Stmt2 {
    Func(Label, Type, Vec<OpCode2>),
}

/// Types of run-time values and compile-time type constructors.
#[derive(Debug)]
pub enum Type {
    /// 32-bit scalar.
    I32,
    /// Run-time handle to a region: holding it proves the region is live.
    Handle(Region),
    /// Tuple of components, each carrying its initialization flag.
    Tuple(Vec<(bool, Type)>),
    /// Pointer to a value allocated in a region.
    Ptr(Box<Type>, Region),
    /// Type variable, carrying the size its binder declared.
    Var(Id, usize),
    /// Function consuming the listed argument types off the run-time stack,
    /// listed top of stack first.
    Func(Vec<Type>),
    /// Existential quantification over a type variable of the given size.
    Exists(Id, usize, Box<Type>),
    /// Universal quantification over a type variable of the given size.
    Forall(Id, usize, Box<Type>),
    /// Universal quantification over a region variable, with the list of
    /// unique regions captured by instantiations so far.
    ForallRegion(Region, Box<Type>, Vec<Region>),
}

/// A capability: the static proof that a region is live, owned or merely
/// readable, or a capability variable, possibly bounded.
#[derive(Clone, Copy, Debug, PartialEq, Eq, Structural)]
pub enum Capability {
    Owned(Region),
    NotOwned(Region),
    CapVar(Id),
    CapVarBounded(Id, CapabilityRef),
}

/// A value on the compile-time stack: a region, a size, or a type.
#[derive(Debug)]
pub enum CTStackVal {
    Region(Region),
    Size(usize),
    Type(Type),
}

/// An open quantifier frame: an existential or universal type binder or a
/// region binder, awaiting its closing opcode.
#[derive(Clone, Copy, Debug, PartialEq, Eq, Structural)]
pub enum Quantification {
    Exist(Id, usize),
    Forall(Id, usize),
    Region(Region),
}

/// Failures of verification. Each carries the source position (byte offset
/// from the function label) and the offending opcode, type or types.
#[derive(Debug)]
pub enum Error {
    /// The opcode is not valid at this point of this pass.
    SyntaxErrorUnexpectedOp(u32, OpCode1),
    /// A constructor opcode found the compile-time stack empty.
    TypeErrorEmptyCTStack(u32, OpCode1),
    /// A compile-time slot had the wrong kind; carries the expected kind.
    KindError(u32, OpCode1, Kind, CTStackVal),
    /// An instantiation argument was neither a type nor a region.
    KindErrorBadApp(u32, OpCode1, CTStackVal),
    /// A body opcode found the run-time stack empty.
    TypeErrorEmptyStack(u32, OpCode1),
    /// Instantiation expected a universally quantified type.
    TypeErrorForallExpected(u32, OpCode1, Type),
    /// Instantiation expected a region-quantified type.
    TypeErrorForallRegionExpected(u32, OpCode1, Type),
    /// A declared size disagrees with a computed size: expected, found.
    SizeError(u32, OpCode1, usize, usize),
    /// A size or offset does not fit in a machine word.
    SizeOverflow(u32, OpCode1),
    /// The region is not in the live region set.
    RegionAccessError(u32, OpCode1, Region),
    /// Two regions that had to agree did not: expected, found.
    RegionError(u32, OpCode1, Region, Region),
    /// An opcode expected an existential type.
    TypeErrorExistentialExpected(u32, OpCode1, Type),
    /// Run-time stack index out of range: index, stack depth.
    TypeErrorGetOutOfRange(u32, u8, usize),
    /// Tuple component index out of range at initialization: index, arity.
    TypeErrorInitOutOfRange(u32, u8, usize),
    /// Tuple component index out of range at projection: index, arity.
    TypeErrorProjOutOfRange(u32, u8, usize),
    /// Compile-time stack index out of range: index, stack depth.
    TypeErrorCTGetOutOfRange(u32, u8, usize),
    /// The initializing value does not match the component type: expected,
    /// found.
    TypeErrorInitTypeMismatch(u32, Type, Type),
    /// The component was already initialized.
    TypeErrorDoubleInit(u32, OpCode1, u8),
    /// Projection of a component that was never initialized.
    TypeErrorUninitializedRead(u32, OpCode1, u8),
    /// A tuple type was expected.
    TypeErrorTupleExpected(u32, OpCode1, Type),
    /// A region handle type was expected on the run-time stack.
    TypeErrorRegionHandleExpected(u32, OpCode1, Type),
    /// Allocation of a non-tuple type.
    TypeErrorMallocNonTuple(u32, OpCode1, Type),
    /// A pointer type was expected on the run-time stack.
    TypeErrorPtrExpected(u32, OpCode1, Type),
    /// Two types that had to be alpha-equivalent were not: expected, found.
    TypeError(u32, OpCode1, Type, Type),
    /// A function type was expected at a call.
    TypeErrorFunctionExpected(u32, OpCode1, Type),
    /// The run-time stack ran out while popping call arguments: needed,
    /// present.
    TypeErrorNotEnoughRuntimeArgs(u32, usize, usize),
    /// Call argument types do not match the function type: needed, present.
    TypeErrorCallArgTypesMismatch(u32, Vec<Type>, Vec<Type>),
    /// A quantifier closed over the wrong variable: expected, found.
    TypeErrorSpecificTypeVarExpected(u32, OpCode1, Id, Id),
    /// A quantifier closed over something that is not a type variable.
    TypeErrorTypeVarExpected(u32, OpCode1, Id, Type),
    /// A closing opcode found no open quantifier frame.
    TypeErrorEmptyQuantificationStack(u32, OpCode1),
    /// A function ended with open quantifier frames; carries the label.
    TypeErrorNonEmptyQuantificationStack(Label),
    /// Freeing a region that is not unique.
    UniquenessError(u32, OpCode1, Region),
    /// The entry function takes arguments.
    TypeErrorMainHasArgs,
    /// The signature prefix did not leave exactly one well-shaped type;
    /// carries the label.
    TypeErrorBadSignature(Label),
    /// No signature was synthesized for this label.
    TypeErrorMissingSignature(Label),
}

/// Interned storage for capability sets, addressed by `CapabilityRef`.
pub struct CapabilityPool(pub Vec<Vec<Capability>>);

/// Opaque handle into a `CapabilityPool`.
#[derive(Clone, Copy, Debug, PartialEq, Eq, Structural)]
pub struct CapabilityRef(pub u32);

impl CapabilityPool {
    /// Fetch the capability set a handle refers to.
    pub fn get(&self, r: CapabilityRef) -> (c: &Vec<Capability>)
        requires
            r.0 < self.0.len(),
        ensures
            c == self.0@[r.0 as int],
    {
        let CapabilityRef(i) = r;
        &self.0[i as usize]
    }

    /// Intern a capability set; the returned handle refers to it.
    pub fn add(&mut self, cap: Vec<Capability>) -> (r: CapabilityRef)
        requires
            old(self).0.len() <= u32::MAX,
        ensures
            final(self).0@ == old(self).0@.push(cap),
            r.0 == old(self).0.len(),
    {
        let idx = self.0.len();
        self.0.push(cap);
        CapabilityRef(idx as u32)
    }
}

/// Interned storage for types, addressed by `TypeRef`.
pub struct TypePool(pub Vec<Type>);

/// Opaque handle into a `TypePool`.
#[derive(Clone, Copy, Debug, PartialEq, Eq, Structural)]
pub struct TypeRef(pub u32);

impl TypePool {
    /// Fetch the type a handle refers to.
    pub fn get(&self, r: TypeRef) -> (t: &Type)
        requires
            r.0 < self.0.len(),
        ensures
            t == self.0@[r.0 as int],
    {
        let TypeRef(i) = r;
        &self.0[i as usize]
    }

    /// Intern a type; the returned handle refers to it.
    pub fn add(&mut self, t: Type) -> (r: TypeRef)
        requires
            old(self).0.len() <= u32::MAX,
        ensures
            final(self).0@ == old(self).0@.push(t),
            r.0 == old(self).0.len(),
    {
        let idx = self.0.len();
        self.0.push(t);
        TypeRef(idx as u32)
    }
}

/// Interned storage for type lists, addressed by `TypeListRef`.
pub struct TypeListPool(pub Vec<Vec<TypeRef>>);

/// Opaque handle into a `TypeListPool`.
#[derive(Clone, Copy, Debug, PartialEq, Eq, Structural)]
pub struct TypeListRef(pub u32);

impl TypeListPool {
    /// Fetch the type list a handle refers to.
    pub fn get(&self, r: TypeListRef) -> (ts: &Vec<TypeRef>)
        requires
            r.0 < self.0.len(),
        ensures
            ts == self.0@[r.0 as int],
    {
        let TypeListRef(i) = r;
        &self.0[i as usize]
    }

    /// Intern a type list; the returned handle refers to it.
    pub fn add(&mut self, ts: Vec<TypeRef>) -> (r: TypeListRef)
        requires
            old(self).0.len() <= u32::MAX,
        ensures
            final(self).0@ == old(self).0@.push(ts),
            r.0 == old(self).0.len(),
    {
        let idx = self.0.len();
        self.0.push(ts);
        TypeListRef(idx as u32)
    }
}

/// The pretty name of a compile-time stack value's kind.
pub open spec fn kind_str_of(ctval: CTStackVal) -> Seq<char> {
    match ctval {
        CTStackVal::Region(_) => "region"@,
        CTStackVal::Size(_) => "size"@,
        CTStackVal::Type(_) => "type"@,
    }
}

/// Pretty-print the kind of a compile-time stack value.
pub fn get_kind_str(ctval: CTStackVal) -> (s: String)
    ensures
        s@ == kind_str_of(ctval),
{
    match ctval {
        CTStackVal::Region(_) => "region".to_owned(),
        CTStackVal::Size(_) => "size".to_owned(),
        CTStackVal::Type(_) => "type".to_owned(),
    }
}

/// Whether a byte is an assigned opcode byte of the on-disk encoding.
pub open spec fn is_op_byte(byte: u8) -> bool {
    byte <= 0x1A
}

/// The mnemonic assigned to an opcode byte of the on-disk encoding.
pub open spec fn op_str_of(byte: u8) -> Seq<char> {
    if byte == 0x00 { "req"@ }
    else if byte == 0x01 { "region"@ }
    else if byte == 0x02 { "heap"@ }
    else if byte == 0x03 { "cap"@ }
    else if byte == 0x04 { "cap_le"@ }
    else if byte == 0x05 { "own"@ }
    else if byte == 0x06 { "read"@ }
    else if byte == 0x07 { "both"@ }
    else if byte == 0x08 { "handle"@ }
    else if byte == 0x09 { "i32"@ }
    else if byte == 0x0A { "END_FUNC"@ }
    else if byte == 0x0B { "mut"@ }
    else if byte == 0x0C { "tuple"@ }
    else if byte == 0x0D { "arr"@ }
    else if byte == 0x0E { "all"@ }
    else if byte == 0x0F { "some"@ }
    else if byte == 0x10 { "emos"@ }
    else if byte == 0x11 { "func"@ }
    else if byte == 0x12 { "ct_get"@ }
    else if byte == 0x13 { "ct_pop"@ }
    else if byte == 0x14 { "unpack"@ }
    else if byte == 0x15 { "get"@ }
    else if byte == 0x16 { "init"@ }
    else if byte == 0x17 { "malloc"@ }
    else if byte == 0x18 { "proj"@ }
    else if byte == 0x19 { "clean"@ }
    else { "call"@ }
}

/// Pretty-print the mnemonic of an assigned opcode byte.
pub fn get_op_str(byte: u8) -> (s: String)
    requires
        is_op_byte(byte),
    ensures
        s@ == op_str_of(byte),
{
    if byte == 0x00 { "req".to_owned() }
    else if byte == 0x01 { "region".to_owned() }
    else if byte == 0x02 { "heap".to_owned() }
    else if byte == 0x03 { "cap".to_owned() }
    else if byte == 0x04 { "cap_le".to_owned() }
    else if byte == 0x05 { "own".to_owned() }
    else if byte == 0x06 { "read".to_owned() }
    else if byte == 0x07 { "both".to_owned() }
    else if byte == 0x08 { "handle".to_owned() }
    else if byte == 0x09 { "i32".to_owned() }
    else if byte == 0x0A { "END_FUNC".to_owned() }
    else if byte == 0x0B { "mut".to_owned() }
    else if byte == 0x0C { "tuple".to_owned() }
    else if byte == 0x0D { "arr".to_owned() }
    else if byte == 0x0E { "all".to_owned() }
    else if byte == 0x0F { "some".to_owned() }
    else if byte == 0x10 { "emos".to_owned() }
    else if byte == 0x11 { "func".to_owned() }
    else if byte == 0x12 { "ct_get".to_owned() }
    else if byte == 0x13 { "ct_pop".to_owned() }
    else if byte == 0x14 { "unpack".to_owned() }
    else if byte == 0x15 { "get".to_owned() }
    else if byte == 0x16 { "init".to_owned() }
    else if byte == 0x17 { "malloc".to_owned() }
    else if byte == 0x18 { "proj".to_owned() }
    else if byte == 0x19 { "clean".to_owned() }
    else { "call".to_owned() }
}

/// The pretty name of a kind.
pub open spec fn kind_name_of(k: Kind) -> Seq<char> {
    match k {
        Kind::Region => "region"@,
        Kind::Type => "type"@,
        Kind::Size => "size"@,
        Kind::Capability => "capability"@,
    }
}

/// Pretty-print a kind.
pub fn pretty_kind(k: Kind) -> (s: String)
    ensures
        s@ == kind_name_of(k),
{
    match k {
        Kind::Region => "region".to_owned(),
        Kind::Type => "type".to_owned(),
        Kind::Size => "size".to_owned(),
        Kind::Capability => "capability".to_owned(),
    }
}

} // verus!
