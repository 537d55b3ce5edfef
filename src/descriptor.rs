use vstd::prelude::*;

verus! {

broadcast use {vstd::seq::group_seq_axioms, vstd::std_specs::vec::group_vec_axioms};

// The opcodes of a descriptor stream, one per descriptor form.
pub const I8: u32 = 0;
pub const U8: u32 = 1;
pub const I16: u32 = 2;
pub const U16: u32 = 3;
pub const I32: u32 = 4;
pub const U32: u32 = 5;
pub const I64: u32 = 6;
pub const U64: u32 = 7;
pub const F32: u32 = 8;
pub const F64: u32 = 9;
pub const BOOLEAN: u32 = 10;
pub const FUNCTION: u32 = 11;
pub const CLOSURE: u32 = 12;
pub const STRING: u32 = 13;
pub const REF: u32 = 14;
pub const REFMUT: u32 = 15;
pub const SLICE: u32 = 16;
pub const VECTOR: u32 = 17;
pub const ANYREF: u32 = 18;
pub const ENUM: u32 = 19;
pub const RUST_STRUCT: u32 = 20;
pub const CHAR: u32 = 21;
pub const OPTIONAL: u32 = 22;
pub const UNIT: u32 = 23;
pub const CLAMPED: u32 = 24;

/// One ABI-level type, as decoded from a descriptor stream.
#[derive(Debug)]
pub enum Descriptor {
    I8,
    U8,
    ClampedU8,
    I16,
    U16,
    I32,
    U32,
    I64,
    U64,
    F32,
    F64,
    Boolean,
    Function(Box<Function>),
    Closure(Box<Closure>),
    Ref(Box<Descriptor>),
    RefMut(Box<Descriptor>),
    Slice(Box<Descriptor>),
    Vector(Box<Descriptor>),
    String,
    Anyref,
    Enum { hole: u32 },
    RustStruct(String),
    Char,
    Option(Box<Descriptor>),
    Unit,
}

/// The signature of a boundary function: its arguments, its return value,
/// and the index of the call shim that translates between the two sides.
#[derive(Debug)]
pub struct Function {
    pub arguments: Vec<Descriptor>,
    pub shim_idx: u32,
    pub ret: Descriptor,
}

/// A closure signature: a function plus its destructor and mutability.
#[derive(Debug)]
pub struct Closure {
    pub shim_idx: u32,
    pub dtor_idx: u32,
    pub function: Function,
    pub mutable: bool,
}

/// The element classes of contiguous-sequence descriptors.
#[derive(Clone, Copy, PartialEq, Eq, Structural, Debug)]
pub enum VectorKind {
    I8,
    U8,
    ClampedU8,
    I16,
    U16,
    I32,
    U32,
    I64,
    U64,
    F32,
    F64,
    String,
    Anyref,
}

/// What is known of a numeric descriptor.
#[derive(Debug)]
pub struct Number {
    u32: bool,
}

/// Why a descriptor stream could not be decoded.
#[derive(Clone, Copy, PartialEq, Eq, Structural, Debug)]
pub enum DecodeError {
    /// The stream ended where another opcode was needed.
    Truncated,
    /// An opcode outside the descriptor grammar.
    UnknownOpcode(u32),
    /// A struct name held a value that is no Unicode scalar value.
    InvalidChar(u32),
    /// A closure's signature did not start with the function opcode.
    ClosureWithoutFunction(u32),
    /// Opcodes were left after the top-level descriptor.
    TrailingData,
}

// ---------------------------------------------------------------------------
// Mathematical model

/// Mathematical model of a descriptor.
pub enum Ty {
    I8,
    U8,
    ClampedU8,
    I16,
    U16,
    I32,
    U32,
    I64,
    U64,
    F32,
    F64,
    Boolean,
    Function(FnTy),
    Closure { shim_idx: u32, dtor_idx: u32, function: FnTy, mutable: bool },
    Ref(Box<Ty>),
    RefMut(Box<Ty>),
    Slice(Box<Ty>),
    Vector(Box<Ty>),
    String,
    Anyref,
    Enum(u32),
    RustStruct(Seq<char>),
    Char,
    Option(Box<Ty>),
    Unit,
}

/// Mathematical model of a function signature.
pub struct FnTy {
    pub arguments: Seq<Ty>,
    pub shim_idx: u32,
    pub ret: Box<Ty>,
}

/// The models of a list of argument descriptors.
pub open spec fn args_view(s: Seq<Descriptor>) -> Seq<Ty>
    decreases s, 0nat,
{
    if s.len() == 0 {
        Seq::empty()
    } else {
        args_view(s.drop_last()).push(s.last().view_ty())
    }
}

impl Descriptor {
    /// The model of this descriptor.
    pub open spec fn view_ty(&self) -> Ty
        decreases self, 0nat,
    {
        match self {
            Descriptor::I8 => Ty::I8,
            Descriptor::U8 => Ty::U8,
            Descriptor::ClampedU8 => Ty::ClampedU8,
            Descriptor::I16 => Ty::I16,
            Descriptor::U16 => Ty::U16,
            Descriptor::I32 => Ty::I32,
            Descriptor::U32 => Ty::U32,
            Descriptor::I64 => Ty::I64,
            Descriptor::U64 => Ty::U64,
            Descriptor::F32 => Ty::F32,
            Descriptor::F64 => Ty::F64,
            Descriptor::Boolean => Ty::Boolean,
            Descriptor::Function(f) => Ty::Function(f.view_fn()),
            Descriptor::Closure(c) => Ty::Closure {
                shim_idx: c.shim_idx,
                dtor_idx: c.dtor_idx,
                function: c.function.view_fn(),
                mutable: c.mutable,
            },
            Descriptor::Ref(d) => Ty::Ref(Box::new(d.view_ty())),
            Descriptor::RefMut(d) => Ty::RefMut(Box::new(d.view_ty())),
            Descriptor::Slice(d) => Ty::Slice(Box::new(d.view_ty())),
            Descriptor::Vector(d) => Ty::Vector(Box::new(d.view_ty())),
            Descriptor::String => Ty::String,
            Descriptor::Anyref => Ty::Anyref,
            Descriptor::Enum { hole } => Ty::Enum(*hole),
            Descriptor::RustStruct(s) => Ty::RustStruct(s@),
            Descriptor::Char => Ty::Char,
            Descriptor::Option(d) => Ty::Option(Box::new(d.view_ty())),
            Descriptor::Unit => Ty::Unit,
        }
    }
}

impl Function {
    /// The model of this signature.
    pub open spec fn view_fn(&self) -> FnTy
        decreases self, 0nat,
    {
        FnTy {
            arguments: args_view(self.arguments@),
            shim_idx: self.shim_idx,
            ret: Box::new(self.ret.view_ty()),
        }
    }
}

impl View for Descriptor {
    type V = Ty;

    open spec fn view(&self) -> Ty {
        self.view_ty()
    }
}

impl View for Function {
    type V = FnTy;

    open spec fn view(&self) -> FnTy {
        self.view_fn()
    }
}

impl Closure {
    /// The model of this closure as a descriptor.
    pub open spec fn view_ty(&self) -> Ty {
        Ty::Closure {
            shim_idx: self.shim_idx,
            dtor_idx: self.dtor_idx,
            function: self.function@,
            mutable: self.mutable,
        }
    }
}

/// Values that `char::from_u32` accepts: Unicode scalar values.
pub open spec fn is_scalar_value(v: u32) -> bool {
    v <= 0x10FFFF && !(0xD800 <= v && v <= 0xDFFF)
}

/// The character whose code point is `v`.
pub open spec fn char_of(v: u32) -> char {
    v as char
}

// ---------------------------------------------------------------------------
// Grammar of descriptor streams

/// Decodes one descriptor starting at `pos`; on success, yields it and the
/// position after it. `clamped` is set by a preceding clamped opcode.
pub open spec fn parse(data: Seq<u32>, pos: int, clamped: bool) -> Result<(Ty, int), DecodeError>
    decreases data.len() - pos, 0nat, 0nat,
{
    if pos < 0 || pos >= data.len() {
        Err(DecodeError::Truncated)
    } else {
        let op = data[pos];
        let next = pos + 1;
        if op == I8 {
            Ok((Ty::I8, next))
        } else if op == I16 {
            Ok((Ty::I16, next))
        } else if op == I32 {
            Ok((Ty::I32, next))
        } else if op == I64 {
            Ok((Ty::I64, next))
        } else if op == U8 {
            Ok((if clamped { Ty::ClampedU8 } else { Ty::U8 }, next))
        } else if op == U16 {
            Ok((Ty::U16, next))
        } else if op == U32 {
            Ok((Ty::U32, next))
        } else if op == U64 {
            Ok((Ty::U64, next))
        } else if op == F32 {
            Ok((Ty::F32, next))
        } else if op == F64 {
            Ok((Ty::F64, next))
        } else if op == BOOLEAN {
            Ok((Ty::Boolean, next))
        } else if op == FUNCTION {
            match parse_function(data, next) {
                Ok((f, p)) => Ok((Ty::Function(f), p)),
                Err(e) => Err(e),
            }
        } else if op == CLOSURE {
            parse_closure(data, next)
        } else if op == REF || op == REFMUT || op == SLICE || op == VECTOR || op == OPTIONAL {
            match parse(data, next, clamped) {
                Ok((t, p)) => Ok((wrap(op, t), p)),
                Err(e) => Err(e),
            }
        } else if op == STRING {
            Ok((Ty::String, next))
        } else if op == ANYREF {
            Ok((Ty::Anyref, next))
        } else if op == ENUM {
            if next >= data.len() {
                Err(DecodeError::Truncated)
            } else {
                Ok((Ty::Enum(data[next]), next + 1))
            }
        } else if op == RUST_STRUCT {
            if next >= data.len() {
                Err(DecodeError::Truncated)
            } else {
                match parse_chars(data, next + 1, data[next] as nat) {
                    Ok((s, p)) => Ok((Ty::RustStruct(s), p)),
                    Err(e) => Err(e),
                }
            }
        } else if op == CHAR {
            Ok((Ty::Char, next))
        } else if op == UNIT {
            Ok((Ty::Unit, next))
        } else if op == CLAMPED {
            parse(data, next, true)
        } else {
            Err(DecodeError::UnknownOpcode(op))
        }
    }
}

/// The descriptor that a one-operand opcode builds around `t`.
pub open spec fn wrap(op: u32, t: Ty) -> Ty {
    if op == REF {
        Ty::Ref(Box::new(t))
    } else if op == REFMUT {
        Ty::RefMut(Box::new(t))
    } else if op == SLICE {
        Ty::Slice(Box::new(t))
    } else if op == VECTOR {
        Ty::Vector(Box::new(t))
    } else {
        Ty::Option(Box::new(t))
    }
}

/// Decodes `n` code points forming a struct name.
pub open spec fn parse_chars(data: Seq<u32>, pos: int, n: nat) -> Result<(Seq<char>, int), DecodeError>
    decreases n,
{
    if n == 0 {
        Ok((Seq::empty(), pos))
    } else {
        match parse_chars(data, pos, (n - 1) as nat) {
            Err(e) => Err(e),
            Ok((s, p)) => if p < 0 || p >= data.len() {
                Err(DecodeError::Truncated)
            } else if !is_scalar_value(data[p]) {
                Err(DecodeError::InvalidChar(data[p]))
            } else {
                Ok((s.push(char_of(data[p])), p + 1))
            },
        }
    }
}

/// Decodes a function signature: shim index, argument count, arguments and
/// return type.
pub open spec fn parse_function(data: Seq<u32>, pos: int) -> Result<(FnTy, int), DecodeError>
    decreases data.len() - pos, 2nat, 0nat,
{
    if pos < 0 || pos + 1 >= data.len() {
        Err(DecodeError::Truncated)
    } else {
        match parse_list(data, pos + 2, data[pos + 1] as nat) {
            Err(e) => Err(e),
            Ok((args, p)) => if p <= pos + 1 || p > data.len() {
                Err(DecodeError::Truncated)
            } else {
                match parse(data, p, false) {
                    Err(e) => Err(e),
                    Ok((ret, q)) => Ok((FnTy { arguments: args, shim_idx: data[pos], ret: Box::new(ret) }, q)),
                }
            },
        }
    }
}

/// Decodes a closure signature: shim index, destructor index, mutability
/// marker, then a function signature behind the function opcode.
pub open spec fn parse_closure(data: Seq<u32>, pos: int) -> Result<(Ty, int), DecodeError>
    decreases data.len() - pos, 2nat, 0nat,
{
    if pos < 0 || pos + 3 >= data.len() {
        Err(DecodeError::Truncated)
    } else if data[pos + 3] != FUNCTION {
        Err(DecodeError::ClosureWithoutFunction(data[pos + 3]))
    } else {
        match parse_function(data, pos + 4) {
            Err(e) => Err(e),
            Ok((f, p)) => Ok((
                Ty::Closure {
                    shim_idx: data[pos],
                    dtor_idx: data[pos + 1],
                    function: f,
                    mutable: data[pos + 2] == REFMUT,
                },
                p,
            )),
        }
    }
}

/// Decodes `n` descriptors in a row.
pub open spec fn parse_list(data: Seq<u32>, pos: int, n: nat) -> Result<(Seq<Ty>, int), DecodeError>
    decreases data.len() - pos, 1nat, n,
{
    if n == 0 {
        Ok((Seq::empty(), pos))
    } else {
        match parse(data, pos, false) {
            Err(e) => Err(e),
            Ok((t, p)) => if p <= pos || p > data.len() {
                Err(DecodeError::Truncated)
            } else {
                match parse_list(data, p, (n - 1) as nat) {
                    Err(e) => Err(e),
                    Ok((ts, q)) => Ok((seq![t] + ts, q)),
                }
            },
        }
    }
}

/// The result of decoding a whole stream: one descriptor that uses every
/// opcode.
pub open spec fn decoded(data: Seq<u32>) -> Result<Ty, DecodeError> {
    match parse(data, 0, false) {
        Err(e) => Err(e),
        Ok((t, p)) => if p == data.len() {
            Ok(t)
        } else {
            Err(DecodeError::TrailingData)
        },
    }
}


/// The model of a decoding result.
pub open spec fn view_result(r: Result<Descriptor, DecodeError>) -> Result<Ty, DecodeError> {
    match r {
        Ok(d) => Ok(d@),
        Err(e) => Err(e),
    }
}

/// `ts` put in front of the list that `r` decoded.
pub open spec fn prepend(ts: Seq<Ty>, r: Result<(Seq<Ty>, int), DecodeError>) -> Result<(Seq<Ty>, int), DecodeError> {
    match r {
        Ok((rest, p)) => Ok((ts + rest, p)),
        Err(e) => Err(e),
    }
}

/// The model of an argument list is the list of the arguments' models.
pub proof fn lemma_args_view_index(s: Seq<Descriptor>)
    ensures
        args_view(s).len() == s.len(),
        forall|i: int| 0 <= i < s.len() ==> #[trigger] args_view(s)[i] == s[i]@,
    decreases s.len(),
{
    if s.len() > 0 {
        lemma_args_view_index(s.drop_last());
    }
}

proof fn lemma_args_view_push(v: Seq<Descriptor>, d: Descriptor)
    ensures
        args_view(v.push(d)) == args_view(v).push(d@),
{
    assert(v.push(d).drop_last() =~= v);
}

proof fn lemma_parse_chars_err(data: Seq<u32>, pos: int, k: nat, m: nat)
    requires
        k <= m,
        parse_chars(data, pos, k) is Err,
    ensures
        parse_chars(data, pos, m) == parse_chars(data, pos, k),
    decreases m - k,
{
    if k < m {
        lemma_parse_chars_err(data, pos, k, (m - 1) as nat);
    }
}

/// `e` starts with the opcodes of `d`.
pub open spec fn extends(d: Seq<u32>, e: Seq<u32>) -> bool {
    &&& d.len() <= e.len()
    &&& forall|i: int| 0 <= i < d.len() ==> d[i] == e[i]
}

proof fn lemma_chars_stable(d: Seq<u32>, e: Seq<u32>, pos: int, n: nat)
    requires
        parse_chars(d, pos, n) is Ok,
        extends(d, e),
    ensures
        parse_chars(e, pos, n) == parse_chars(d, pos, n),
        parse_chars(d, pos, n)->Ok_0.1 == pos + n,
    decreases n,
{
    if n > 0 {
        lemma_chars_stable(d, e, pos, (n - 1) as nat);
    }
}

proof fn lemma_parse_stable(d: Seq<u32>, e: Seq<u32>, pos: int, clamped: bool)
    requires
        parse(d, pos, clamped) is Ok,
        extends(d, e),
    ensures
        parse(e, pos, clamped) == parse(d, pos, clamped),
        0 <= pos < parse(d, pos, clamped)->Ok_0.1 <= d.len(),
    decreases d.len() - pos, 0nat, 0nat,
{
    let op = d[pos];
    let next = pos + 1;
    if op == FUNCTION {
        lemma_function_stable(d, e, next);
    } else if op == CLOSURE {
        lemma_closure_stable(d, e, next);
    } else if op == REF || op == REFMUT || op == SLICE || op == VECTOR || op == OPTIONAL {
        lemma_parse_stable(d, e, next, clamped);
    } else if op == RUST_STRUCT {
        lemma_chars_stable(d, e, next + 1, d[next] as nat);
    } else if op == CLAMPED {
        lemma_parse_stable(d, e, next, true);
    }
}

proof fn lemma_function_stable(d: Seq<u32>, e: Seq<u32>, pos: int)
    requires
        parse_function(d, pos) is Ok,
        extends(d, e),
    ensures
        parse_function(e, pos) == parse_function(d, pos),
        0 <= pos < parse_function(d, pos)->Ok_0.1 <= d.len(),
    decreases d.len() - pos, 2nat, 0nat,
{
    let n = d[pos + 1] as nat;
    let q = parse_list(d, pos + 2, n)->Ok_0.1;
    lemma_parse_stable(d, e, q, false);
    lemma_list_stable(d, e, pos + 2, n);
}

proof fn lemma_closure_stable(d: Seq<u32>, e: Seq<u32>, pos: int)
    requires
        parse_closure(d, pos) is Ok,
        extends(d, e),
    ensures
        parse_closure(e, pos) == parse_closure(d, pos),
        0 <= pos < parse_closure(d, pos)->Ok_0.1 <= d.len(),
    decreases d.len() - pos, 2nat, 0nat,
{
    lemma_function_stable(d, e, pos + 4);
}

proof fn lemma_list_stable(d: Seq<u32>, e: Seq<u32>, pos: int, n: nat)
    requires
        parse_list(d, pos, n) is Ok,
        extends(d, e),
        0 <= pos <= d.len(),
    ensures
        parse_list(e, pos, n) == parse_list(d, pos, n),
        pos <= parse_list(d, pos, n)->Ok_0.1 <= d.len(),
    decreases d.len() - pos, 1nat, n,
{
    if n > 0 {
        let q = parse(d, pos, false)->Ok_0.1;
        lemma_list_stable(d, e, q, (n - 1) as nat);
        lemma_parse_stable(d, e, pos, false);
    }
}

/// A stream that decodes to one descriptor fails to decode once it is cut
/// short, and fails with `TrailingData` once anything is appended to it.
pub proof fn lemma_decode_is_exact(data: Seq<u32>, k: int, extra: Seq<u32>)
    requires
        decoded(data) is Ok,
        0 <= k < data.len(),
        extra.len() > 0,
    ensures
        decoded(data.subrange(0, k)) is Err,
        decoded(data + extra) == Err::<Ty, DecodeError>(DecodeError::TrailingData),
{
    let longer = data + extra;
    lemma_parse_stable(data, longer, 0, false);
    let short = data.subrange(0, k);
    if parse(short, 0, false) is Ok {
        lemma_parse_stable(short, data, 0, false);
    }
}

/// The ABI predicates agree with each other: every value takes one, two or
/// four slots; four exactly for an optional 64-bit integer; and a value
/// returned through a pointer takes two slots unless it is an optional
/// reference to a host value.
pub proof fn lemma_abi_counts_consistent(t: Ty)
    ensures
        t.abi_arg_count() == 1 || t.abi_arg_count() == 2 || t.abi_arg_count() == 4,
        t.abi_arg_count() == 4 <==> (t matches Ty::Option(i) && i.get_64() is Some),
        t.abi_returned_through_pointer() && !(t matches Ty::Option(i) && i.is_ref_anyref())
            ==> t.abi_arg_count() >= 2,
        t.stack_closure() is Some ==> !t.abi_returned_through_pointer() && t.abi_arg_count() == 2,
        t.is_wasm_native() ==> !t.abi_returned_through_pointer() && t.abi_arg_count() == 1,
        t.get_64() is Some ==> t.abi_returned_through_pointer() && t.abi_arg_count() == 2,
        forall|before: usize, after: usize| #[trigger] return_count_correct(t, before, after)
            ==> after >= before && after - before <= 1,
        forall|before: usize, after: usize| #[trigger] arg_count_correct(t, before, after)
            ==> after - before == t.abi_arg_count(),
{
}

// ---------------------------------------------------------------------------
// Executable decoder

/// Relies on `char::from_u32`: `Some` exactly for Unicode scalar values,
/// holding the character with that code point.
#[verifier::external_body]
fn char_from_u32(v: u32) -> (r: Option<char>)
    ensures
        r is Some <==> is_scalar_value(v),
        r matches Some(c) ==> c as u32 == v,
{
    std::char::from_u32(v)
}

/// Relies on `String::push`: appends one character.
#[verifier::external_body]
pub(crate) fn push_char(s: &mut String, c: char)
    ensures
        final(s)@ == old(s)@.push(c),
{
    s.push(c)
}

/// Reads the opcode at `pos`.
fn get(data: &[u32], pos: usize) -> (r: Result<u32, DecodeError>)
    ensures
        pos < data@.len() ==> r == Ok::<u32, DecodeError>(data@[pos as int]),
        pos >= data@.len() ==> r == Err::<u32, DecodeError>(DecodeError::Truncated),
        data@.len() <= usize::MAX,
{
    if pos < data.len() {
        Ok(data[pos])
    } else {
        Err(DecodeError::Truncated)
    }
}

impl Descriptor {
    /// Decodes a whole descriptor stream, which must hold exactly one
    /// descriptor.
    pub fn decode(data: &[u32]) -> (r: Result<Descriptor, DecodeError>)
        ensures
            view_result(r) == decoded(data@),
    {
        match Descriptor::_decode(data, 0, false) {
            Err(e) => Err(e),
            Ok((d, p)) => if p == data.len() {
                Ok(d)
            } else {
                Err(DecodeError::TrailingData)
            },
        }
    }

    /// Decodes one descriptor at `pos`, yielding it and the position after it.
    fn _decode(data: &[u32], pos: usize, clamped: bool) -> (r: Result<(Descriptor, usize), DecodeError>)
        requires
            pos <= data@.len(),
        ensures
            match parse(data@, pos as int, clamped) {
                Ok((t, p)) => r matches Ok((d, q)) && d@ == t && q == p,
                Err(e) => r matches Err(e2) && e2 == e,
            },
            r matches Ok((_, q)) ==> pos < q <= data@.len(),
        decreases data@.len() - pos,
    {
        let op = match get(data, pos) {
            Ok(op) => op,
            Err(e) => return Err(e),
        };
        let next = pos + 1;
        if op == I8 {
            Ok((Descriptor::I8, next))
        } else if op == I16 {
            Ok((Descriptor::I16, next))
        } else if op == I32 {
            Ok((Descriptor::I32, next))
        } else if op == I64 {
            Ok((Descriptor::I64, next))
        } else if op == U8 {
            if clamped {
                Ok((Descriptor::ClampedU8, next))
            } else {
                Ok((Descriptor::U8, next))
            }
        } else if op == U16 {
            Ok((Descriptor::U16, next))
        } else if op == U32 {
            Ok((Descriptor::U32, next))
        } else if op == U64 {
            Ok((Descriptor::U64, next))
        } else if op == F32 {
            Ok((Descriptor::F32, next))
        } else if op == F64 {
            Ok((Descriptor::F64, next))
        } else if op == BOOLEAN {
            Ok((Descriptor::Boolean, next))
        } else if op == FUNCTION {
            match Function::decode(data, next) {
                Ok((f, p)) => Ok((Descriptor::Function(Box::new(f)), p)),
                Err(e) => Err(e),
            }
        } else if op == CLOSURE {
            match Closure::decode(data, next) {
                Ok((c, p)) => Ok((Descriptor::Closure(Box::new(c)), p)),
                Err(e) => Err(e),
            }
        } else if op == REF || op == REFMUT || op == SLICE || op == VECTOR || op == OPTIONAL {
            match Descriptor::_decode(data, next, clamped) {
                Err(e) => Err(e),
                Ok((d, p)) => {
                    let b = Box::new(d);
                    let w = if op == REF {
                        Descriptor::Ref(b)
                    } else if op == REFMUT {
                        Descriptor::RefMut(b)
                    } else if op == SLICE {
                        Descriptor::Slice(b)
                    } else if op == VECTOR {
                        Descriptor::Vector(b)
                    } else {
                        Descriptor::Option(b)
                    };
                    Ok((w, p))
                },
            }
        } else if op == STRING {
            Ok((Descriptor::String, next))
        } else if op == ANYREF {
            Ok((Descriptor::Anyref, next))
        } else if op == ENUM {
            match get(data, next) {
                Ok(hole) => Ok((Descriptor::Enum { hole }, next + 1)),
                Err(e) => Err(e),
            }
        } else if op == RUST_STRUCT {
            let n = match get(data, next) {
                Ok(n) => n,
                Err(e) => return Err(e),
            };
            let start = next + 1;
            let mut name = String::new();
            let mut p = start;
            let mut i: u32 = 0;
            while i < n
                invariant
                    i <= n,
                    start <= p <= data@.len(),
                    start == pos + 2,
                    pos + 1 < data@.len(),
                    data@[pos as int] == RUST_STRUCT,
                    data@[pos + 1] == n,
                    parse_chars(data@, start as int, i as nat) == Ok::<(Seq<char>, int), DecodeError>((name@, p as int)),
                decreases n - i,
            {
                let v = match get(data, p) {
                    Ok(v) => v,
                    Err(e) => {
                        proof {
                            assert(parse_chars(data@, start as int, (i + 1) as nat) == Err::<(Seq<char>, int), DecodeError>(DecodeError::Truncated));
                            lemma_parse_chars_err(data@, start as int, (i + 1) as nat, n as nat);
                        }
                        return Err(e);
                    },
                };
                match char_from_u32(v) {
                    Some(c) => {
                        proof {
                            vstd::utf8::char_u32_cast(c, v);
                            assert(parse_chars(data@, start as int, (i + 1) as nat) == Ok::<(Seq<char>, int), DecodeError>((name@.push(c), p + 1)));
                        }
                        push_char(&mut name, c);
                    },
                    None => {
                        proof {
                            assert(parse_chars(data@, start as int, (i + 1) as nat) == Err::<(Seq<char>, int), DecodeError>(DecodeError::InvalidChar(v)));
                            lemma_parse_chars_err(data@, start as int, (i + 1) as nat, n as nat);
                        }
                        return Err(DecodeError::InvalidChar(v));
                    },
                }
                p = p + 1;
                i = i + 1;
            }
            Ok((Descriptor::RustStruct(name), p))
        } else if op == CHAR {
            Ok((Descriptor::Char, next))
        } else if op == UNIT {
            Ok((Descriptor::Unit, next))
        } else if op == CLAMPED {
            Descriptor::_decode(data, next, true)
        } else {
            Err(DecodeError::UnknownOpcode(op))
        }
    }
}

impl Function {
    /// Decodes a function signature at `pos`.
    fn decode(data: &[u32], pos: usize) -> (r: Result<(Function, usize), DecodeError>)
        requires
            pos <= data@.len(),
        ensures
            match parse_function(data@, pos as int) {
                Ok((f, p)) => r matches Ok((g, q)) && g@ == f && q == p,
                Err(e) => r matches Err(e2) && e2 == e,
            },
            r matches Ok((_, q)) ==> pos < q <= data@.len(),
        decreases data@.len() - pos,
    {
        let shim_idx = match get(data, pos) {
            Ok(v) => v,
            Err(e) => return Err(e),
        };
        let n = match get(data, pos + 1) {
            Ok(v) => v,
            Err(e) => return Err(e),
        };
        let start = pos + 2;
        let mut arguments: Vec<Descriptor> = Vec::new();
        let mut p = start;
        let mut i: u32 = 0;
        while i < n
            invariant
                i <= n,
                start <= p <= data@.len(),
                start == pos + 2,
                n == data@[pos + 1],
                parse_list(data@, start as int, n as nat) == prepend(
                    args_view(arguments@),
                    parse_list(data@, p as int, (n - i) as nat),
                ),
            decreases n - i,
        {
            match Descriptor::_decode(data, p, false) {
                Err(e) => {
                    return Err(e);
                },
                Ok((d, q)) => {
                    proof {
                        let tail = parse_list(data@, q as int, (n - i - 1) as nat);
                        lemma_args_view_push(arguments@, d);
                        match tail {
                            Ok((ts, _)) => {
                                assert(args_view(arguments@) + (seq![d@] + ts) =~= args_view(arguments@).push(d@) + ts);
                            },
                            Err(_) => {},
                        }
                    }
                    arguments.push(d);
                    p = q;
                    i = i + 1;
                },
            }
        }
        proof {
            assert(args_view(arguments@) + Seq::<Ty>::empty() =~= args_view(arguments@));
        }
        match Descriptor::_decode(data, p, false) {
            Err(e) => Err(e),
            Ok((ret, q)) => Ok((Function { arguments, shim_idx, ret }, q)),
        }
    }
}

impl Closure {
    /// Decodes a closure signature at `pos`.
    fn decode(data: &[u32], pos: usize) -> (r: Result<(Closure, usize), DecodeError>)
        requires
            pos <= data@.len(),
        ensures
            match parse_closure(data@, pos as int) {
                Ok((t, p)) => r matches Ok((c, q)) && c.view_ty() == t && q == p,
                Err(e) => r matches Err(e2) && e2 == e,
            },
            r matches Ok((_, q)) ==> pos < q <= data@.len(),
        decreases data@.len() - pos,
    {
        let shim_idx = match get(data, pos) {
            Ok(v) => v,
            Err(e) => return Err(e),
        };
        let dtor_idx = match get(data, pos + 1) {
            Ok(v) => v,
            Err(e) => return Err(e),
        };
        let marker = match get(data, pos + 2) {
            Ok(v) => v,
            Err(e) => return Err(e),
        };
        let op = match get(data, pos + 3) {
            Ok(v) => v,
            Err(e) => return Err(e),
        };
        if op != FUNCTION {
            return Err(DecodeError::ClosureWithoutFunction(op));
        }
        match Function::decode(data, pos + 4) {
            Err(e) => Err(e),
            Ok((function, q)) => Ok((Closure { shim_idx, dtor_idx, function, mutable: marker == REFMUT }, q)),
        }
    }
}

// ---------------------------------------------------------------------------
// ABI facts

/// The vector class of a sequence element type.
pub open spec fn elem_kind(t: Ty) -> Option<VectorKind> {
    match t {
        Ty::I8 => Some(VectorKind::I8),
        Ty::I16 => Some(VectorKind::I16),
        Ty::I32 => Some(VectorKind::I32),
        Ty::I64 => Some(VectorKind::I64),
        Ty::U8 => Some(VectorKind::U8),
        Ty::ClampedU8 => Some(VectorKind::ClampedU8),
        Ty::U16 => Some(VectorKind::U16),
        Ty::U32 => Some(VectorKind::U32),
        Ty::U64 => Some(VectorKind::U64),
        Ty::F32 => Some(VectorKind::F32),
        Ty::F64 => Some(VectorKind::F64),
        Ty::Anyref => Some(VectorKind::Anyref),
        _ => None,
    }
}

impl Ty {
    /// `Some(is_u32)` for the types passed as plain numbers.
    pub open spec fn number(self) -> Option<bool> {
        match self {
            Ty::I8 | Ty::U8 | Ty::I16 | Ty::U16 | Ty::I32 | Ty::F32 | Ty::F64 | Ty::Enum(_) => Some(false),
            Ty::U32 => Some(true),
            _ => None,
        }
    }

    pub open spec fn is_wasm_native(self) -> bool {
        self is I32 || self is U32 || self is F32 || self is F64
    }

    pub open spec fn is_abi_as_u32(self) -> bool {
        self is I8 || self is U8 || self is I16 || self is U16
    }

    /// `Some(signed)` for the 64-bit integers.
    pub open spec fn get_64(self) -> Option<bool> {
        match self {
            Ty::I64 => Some(true),
            Ty::U64 => Some(false),
            _ => None,
        }
    }

    pub open spec fn is_anyref(self) -> bool {
        self is Anyref
    }

    pub open spec fn is_ref_anyref(self) -> bool {
        self matches Ty::Ref(d) && *d is Anyref
    }

    pub open spec fn vector_kind(self) -> Option<VectorKind> {
        match self {
            Ty::String => Some(VectorKind::String),
            Ty::Vector(d) => elem_kind(*d),
            Ty::Slice(d) => elem_kind(*d),
            Ty::Ref(d) => match *d {
                Ty::Slice(e) => elem_kind(*e),
                Ty::String => Some(VectorKind::String),
                _ => None,
            },
            Ty::RefMut(d) => match *d {
                Ty::Slice(e) => elem_kind(*e),
                _ => None,
            },
            _ => None,
        }
    }

    /// The struct name, seen through at most one reference.
    pub open spec fn rust_struct(self) -> Option<Seq<char>> {
        let inner = match self {
            Ty::Ref(d) => *d,
            Ty::RefMut(d) => *d,
            _ => self,
        };
        match inner {
            Ty::RustStruct(s) => Some(s),
            _ => None,
        }
    }

    /// A function behind a reference, with whether the reference is mutable.
    pub open spec fn stack_closure(self) -> Option<(FnTy, bool)> {
        match self {
            Ty::Ref(d) => match *d {
                Ty::Function(f) => Some((f, false)),
                _ => None,
            },
            Ty::RefMut(d) => match *d {
                Ty::Function(f) => Some((f, true)),
                _ => None,
            },
            _ => None,
        }
    }

    pub open spec fn is_by_ref(self) -> bool {
        self is Ref || self is RefMut
    }

    pub open spec fn is_mut_ref(self) -> bool {
        self is RefMut
    }

    /// Whether an optional of this type is returned as a native value with a
    /// separate validity signal rather than through a pointer.
    pub open spec fn option_returned_directly(self) -> bool {
        self is Anyref || self is RustStruct || self is Enum || self is Char || self is Boolean
            || self is I8 || self is U8 || self is I16 || self is U16
    }

    pub open spec fn abi_returned_through_pointer(self) -> bool {
        ||| self.vector_kind() is Some
        ||| self.get_64() is Some
        ||| (self matches Ty::Option(inner) && !inner.option_returned_directly())
    }

    pub open spec fn abi_arg_count(self) -> nat {
        if self matches Ty::Option(inner) && inner.get_64() is Some {
            4
        } else if self matches Ty::Option(inner) && inner.is_ref_anyref() {
            1
        } else if self.stack_closure() is Some {
            2
        } else if self.abi_returned_through_pointer() {
            2
        } else {
            1
        }
    }
}

/// Why a shim generator's value count disagrees with the predicted one.
#[derive(Clone, Copy, PartialEq, Eq, Structural, Debug)]
pub enum AbiMismatch {
    /// The return slot count does not match `abi_returned_through_pointer`.
    Return,
    /// The argument slot count does not match `abi_arg_count`.
    Arguments,
}

/// Whether a return value moved the count of values from `before` to
/// `after` as predicted: one more value exactly when it is returned through
/// a pointer.
pub open spec fn return_count_correct(t: Ty, before: usize, after: usize) -> bool {
    after == before + if t.abi_returned_through_pointer() { 1int } else { 0int }
}

/// Whether an argument moved the count of values from `before` to `after` by
/// its predicted count.
pub open spec fn arg_count_correct(t: Ty, before: usize, after: usize) -> bool {
    after == before + t.abi_arg_count()
}

impl Descriptor {
    /// Extracts the function signature of a function descriptor.
    pub fn unwrap_function(self) -> (r: Function)
        requires
            self@ is Function,
        ensures
            self@ == Ty::Function(r@),
    {
        match self {
            Descriptor::Function(f) => *f,
            _ => {
                proof {
                    assert(false);
                }
                Function { arguments: Vec::new(), shim_idx: 0, ret: Descriptor::Unit }
            },
        }
    }

    /// Returns `Some` if this type is a number, and the returned `Number`
    /// tells which kind of number it is.
    pub fn number(&self) -> (r: Option<Number>)
        ensures
            r is Some <==> self@.number() is Some,
            r matches Some(n) ==> n.is_u32_spec() == self@.number()->0,
    {
        match self {
            Descriptor::I8 | Descriptor::U8 | Descriptor::I16 | Descriptor::U16 | Descriptor::I32
            | Descriptor::F32 | Descriptor::F64 | Descriptor::Enum { .. } => Some(Number { u32: false }),
            Descriptor::U32 => Some(Number { u32: true }),
            _ => None,
        }
    }

    /// Whether the value crosses the boundary unboxed, as a native number.
    pub fn is_wasm_native(&self) -> (r: bool)
        ensures
            r == self@.is_wasm_native(),
    {
        match self {
            Descriptor::I32 | Descriptor::U32 | Descriptor::F32 | Descriptor::F64 => true,
            _ => false,
        }
    }

    /// Whether the value is a narrow integer widened to 32 bits.
    pub fn is_abi_as_u32(&self) -> (r: bool)
        ensures
            r == self@.is_abi_as_u32(),
    {
        match self {
            Descriptor::I8 | Descriptor::U8 | Descriptor::I16 | Descriptor::U16 => true,
            _ => false,
        }
    }

    /// `Some(signed)` for the 64-bit integers.
    pub fn get_64(&self) -> (r: Option<bool>)
        ensures
            r == self@.get_64(),
    {
        match self {
            Descriptor::I64 => Some(true),
            Descriptor::U64 => Some(false),
            _ => None,
        }
    }

    /// Whether this is a shared reference to a host value.
    pub fn is_ref_anyref(&self) -> (r: bool)
        ensures
            r == self@.is_ref_anyref(),
    {
        match self {
            Descriptor::Ref(s) => s.is_anyref(),
            _ => false,
        }
    }

    /// Extracts the closure signature of a closure descriptor.
    pub fn unwrap_closure(self) -> (r: Closure)
        requires
            self@ is Closure,
        ensures
            self@ == r.view_ty(),
    {
        match self {
            Descriptor::Closure(c) => *c,
            _ => {
                proof {
                    assert(false);
                }
                Closure {
                    shim_idx: 0,
                    dtor_idx: 0,
                    function: Function { arguments: Vec::new(), shim_idx: 0, ret: Descriptor::Unit },
                    mutable: false,
                }
            },
        }
    }

    /// Whether this is a host value.
    pub fn is_anyref(&self) -> (r: bool)
        ensures
            r == self@.is_anyref(),
    {
        match self {
            Descriptor::Anyref => true,
            _ => false,
        }
    }

    fn elem_kind(&self) -> (r: Option<VectorKind>)
        ensures
            r == elem_kind(self@),
    {
        match self {
            Descriptor::I8 => Some(VectorKind::I8),
            Descriptor::I16 => Some(VectorKind::I16),
            Descriptor::I32 => Some(VectorKind::I32),
            Descriptor::I64 => Some(VectorKind::I64),
            Descriptor::U8 => Some(VectorKind::U8),
            Descriptor::ClampedU8 => Some(VectorKind::ClampedU8),
            Descriptor::U16 => Some(VectorKind::U16),
            Descriptor::U32 => Some(VectorKind::U32),
            Descriptor::U64 => Some(VectorKind::U64),
            Descriptor::F32 => Some(VectorKind::F32),
            Descriptor::F64 => Some(VectorKind::F64),
            Descriptor::Anyref => Some(VectorKind::Anyref),
            _ => None,
        }
    }

    /// The class of a contiguous sequence, seen through one reference.
    pub fn vector_kind(&self) -> (r: Option<VectorKind>)
        ensures
            r == self@.vector_kind(),
    {
        proof {
            reveal_with_fuel(Descriptor::view_ty, 3);
        }
        match self {
            Descriptor::String => Some(VectorKind::String),
            Descriptor::Vector(d) => d.elem_kind(),
            Descriptor::Slice(d) => d.elem_kind(),
            Descriptor::Ref(d) => match &**d {
                Descriptor::Slice(e) => e.elem_kind(),
                Descriptor::String => Some(VectorKind::String),
                _ => None,
            },
            Descriptor::RefMut(d) => match &**d {
                Descriptor::Slice(e) => e.elem_kind(),
                _ => None,
            },
            _ => None,
        }
    }

    /// The name of an opaque struct, seen through at most one reference.
    pub fn rust_struct(&self) -> (r: Option<&str>)
        ensures
            r is Some <==> self@.rust_struct() is Some,
            r matches Some(s) ==> s@ == self@.rust_struct()->0,
    {
        proof {
            reveal_with_fuel(Descriptor::view_ty, 3);
        }
        let inner: &Descriptor = match self {
            Descriptor::Ref(d) => &**d,
            Descriptor::RefMut(d) => &**d,
            _ => self,
        };
        match inner {
            Descriptor::RustStruct(s) => Some(s.as_str()),
            _ => None,
        }
    }

    /// A function behind a reference, with whether the reference is mutable.
    pub fn stack_closure(&self) -> (r: Option<(&Function, bool)>)
        ensures
            r is Some <==> self@.stack_closure() is Some,
            r matches Some((f, m)) ==> self@.stack_closure() == Some((f@, m)),
    {
        proof {
            reveal_with_fuel(Descriptor::view_ty, 3);
        }
        let (inner, mutable): (&Descriptor, bool) = match self {
            Descriptor::Ref(d) => (&**d, false),
            Descriptor::RefMut(d) => (&**d, true),
            _ => return None,
        };
        match inner {
            Descriptor::Function(f) => Some((&**f, mutable)),
            _ => None,
        }
    }

    /// Whether this is a reference of either kind.
    pub fn is_by_ref(&self) -> (r: bool)
        ensures
            r == self@.is_by_ref(),
    {
        match self {
            Descriptor::Ref(_) | Descriptor::RefMut(_) => true,
            _ => false,
        }
    }

    /// Whether this is a mutable reference.
    pub fn is_mut_ref(&self) -> (r: bool)
        ensures
            r == self@.is_mut_ref(),
    {
        match self {
            Descriptor::RefMut(_) => true,
            _ => false,
        }
    }

    /// Whether a value of this type is returned through a pointer to
    /// memory rather than as a native value.
    pub fn abi_returned_through_pointer(&self) -> (r: bool)
        ensures
            r == self@.abi_returned_through_pointer(),
    {
        proof {
            reveal_with_fuel(Descriptor::view_ty, 3);
        }
        if self.vector_kind().is_some() {
            return true;
        }
        if self.get_64().is_some() {
            return true;
        }
        match self {
            Descriptor::Option(inner) => match &**inner {
                Descriptor::Anyref | Descriptor::RustStruct(_) | Descriptor::Enum { .. }
                | Descriptor::Char | Descriptor::Boolean | Descriptor::I8 | Descriptor::U8
                | Descriptor::I16 | Descriptor::U16 => false,
                _ => true,
            },
            _ => false,
        }
    }

    /// The number of native values that pass one argument of this type.
    pub fn abi_arg_count(&self) -> (r: usize)
        ensures
            r == self@.abi_arg_count(),
    {
        if let Descriptor::Option(inner) = self {
            if inner.get_64().is_some() {
                return 4;
            }
            if inner.is_ref_anyref() {
                return 1;
            }
        }
        if self.stack_closure().is_some() {
            return 2;
        }
        if self.abi_returned_through_pointer() {
            2
        } else {
            1
        }
    }

    /// Checks a return value's change of the value count against
    /// `abi_returned_through_pointer`.
    pub fn assert_abi_return_correct(&self, before: usize, after: usize) -> (r: Result<(), AbiMismatch>)
        ensures
            r is Ok <==> return_count_correct(self@, before, after),
            r is Err ==> r == Err::<(), AbiMismatch>(AbiMismatch::Return),
    {
        let through_pointer = self.abi_returned_through_pointer();
        if before != after {
            if after > before && after - before == 1 && through_pointer {
                Ok(())
            } else {
                Err(AbiMismatch::Return)
            }
        } else if through_pointer {
            Err(AbiMismatch::Return)
        } else {
            Ok(())
        }
    }

    /// Checks an argument's change of the value count against
    /// `abi_arg_count`.
    pub fn assert_abi_arg_correct(&self, before: usize, after: usize) -> (r: Result<(), AbiMismatch>)
        ensures
            r is Ok <==> arg_count_correct(self@, before, after),
            r is Err ==> r == Err::<(), AbiMismatch>(AbiMismatch::Arguments),
    {
        let count = self.abi_arg_count();
        if after >= before && after - before == count {
            Ok(())
        } else {
            Err(AbiMismatch::Arguments)
        }
    }
}

impl Descriptor {
    /// A copy of this descriptor.
    pub fn duplicate(&self) -> (r: Descriptor)
        ensures
            r@ == self@,
        decreases self,
    {
        match self {
            Descriptor::I8 => Descriptor::I8,
            Descriptor::U8 => Descriptor::U8,
            Descriptor::ClampedU8 => Descriptor::ClampedU8,
            Descriptor::I16 => Descriptor::I16,
            Descriptor::U16 => Descriptor::U16,
            Descriptor::I32 => Descriptor::I32,
            Descriptor::U32 => Descriptor::U32,
            Descriptor::I64 => Descriptor::I64,
            Descriptor::U64 => Descriptor::U64,
            Descriptor::F32 => Descriptor::F32,
            Descriptor::F64 => Descriptor::F64,
            Descriptor::Boolean => Descriptor::Boolean,
            Descriptor::Function(f) => Descriptor::Function(Box::new(f.duplicate())),
            Descriptor::Closure(c) => Descriptor::Closure(Box::new(Closure {
                shim_idx: c.shim_idx,
                dtor_idx: c.dtor_idx,
                function: c.function.duplicate(),
                mutable: c.mutable,
            })),
            Descriptor::Ref(d) => Descriptor::Ref(Box::new(d.duplicate())),
            Descriptor::RefMut(d) => Descriptor::RefMut(Box::new(d.duplicate())),
            Descriptor::Slice(d) => Descriptor::Slice(Box::new(d.duplicate())),
            Descriptor::Vector(d) => Descriptor::Vector(Box::new(d.duplicate())),
            Descriptor::String => Descriptor::String,
            Descriptor::Anyref => Descriptor::Anyref,
            Descriptor::Enum { hole } => Descriptor::Enum { hole: *hole },
            Descriptor::RustStruct(s) => Descriptor::RustStruct(s.clone()),
            Descriptor::Char => Descriptor::Char,
            Descriptor::Option(d) => Descriptor::Option(Box::new(d.duplicate())),
            Descriptor::Unit => Descriptor::Unit,
        }
    }
}

impl Function {
    /// A copy of this signature.
    pub fn duplicate(&self) -> (r: Function)
        ensures
            r@ == self@,
        decreases self,
    {
        let mut arguments: Vec<Descriptor> = Vec::new();
        let mut i: usize = 0;
        while i < self.arguments.len()
            invariant
                i <= self.arguments@.len(),
                args_view(arguments@) == args_view(self.arguments@.subrange(0, i as int)),
            decreases self.arguments@.len() - i,
        {
            proof {
                assert(decreases_to!(self => self.arguments));
                assert(decreases_to!(self.arguments => self.arguments[i as int]));
            }
            let d = self.arguments[i].duplicate();
            proof {
                lemma_args_view_push(arguments@, d);
                let next = self.arguments@.subrange(0, i + 1);
                assert(next.drop_last() =~= self.arguments@.subrange(0, i as int));
            }
            arguments.push(d);
            i = i + 1;
        }
        proof {
            assert(self.arguments@.subrange(0, self.arguments@.len() as int) =~= self.arguments@);
        }
        Function { arguments, shim_idx: self.shim_idx, ret: self.ret.duplicate() }
    }
}

impl VectorKind {
    /// The host array type of this kind.
    pub open spec fn js_ty_spec(self) -> Seq<char> {
        match self {
            VectorKind::String => "string"@,
            VectorKind::I8 => "Int8Array"@,
            VectorKind::U8 => "Uint8Array"@,
            VectorKind::ClampedU8 => "Uint8ClampedArray"@,
            VectorKind::I16 => "Int16Array"@,
            VectorKind::U16 => "Uint16Array"@,
            VectorKind::I32 => "Int32Array"@,
            VectorKind::U32 => "Uint32Array"@,
            VectorKind::I64 => "BigInt64Array"@,
            VectorKind::U64 => "BigUint64Array"@,
            VectorKind::F32 => "Float32Array"@,
            VectorKind::F64 => "Float64Array"@,
            VectorKind::Anyref => "any[]"@,
        }
    }

    /// The element size in bytes of this kind.
    pub open spec fn size_spec(self) -> nat {
        match self {
            VectorKind::String | VectorKind::I8 | VectorKind::U8 | VectorKind::ClampedU8 => 1,
            VectorKind::I16 | VectorKind::U16 => 2,
            VectorKind::I32 | VectorKind::U32 | VectorKind::F32 | VectorKind::Anyref => 4,
            VectorKind::I64 | VectorKind::U64 | VectorKind::F64 => 8,
        }
    }

    /// The host array type that holds this kind of sequence.
    pub fn js_ty(&self) -> (r: &str)
        ensures
            r@ == self.js_ty_spec(),
    {
        match self {
            VectorKind::String => "string",
            VectorKind::I8 => "Int8Array",
            VectorKind::U8 => "Uint8Array",
            VectorKind::ClampedU8 => "Uint8ClampedArray",
            VectorKind::I16 => "Int16Array",
            VectorKind::U16 => "Uint16Array",
            VectorKind::I32 => "Int32Array",
            VectorKind::U32 => "Uint32Array",
            VectorKind::I64 => "BigInt64Array",
            VectorKind::U64 => "BigUint64Array",
            VectorKind::F32 => "Float32Array",
            VectorKind::F64 => "Float64Array",
            VectorKind::Anyref => "any[]",
        }
    }

    /// The size in bytes of one element.
    pub fn size(&self) -> (r: usize)
        ensures
            r == self.size_spec(),
    {
        match self {
            VectorKind::String => 1,
            VectorKind::I8 => 1,
            VectorKind::U8 => 1,
            VectorKind::ClampedU8 => 1,
            VectorKind::I16 => 2,
            VectorKind::U16 => 2,
            VectorKind::I32 => 4,
            VectorKind::U32 => 4,
            VectorKind::I64 => 8,
            VectorKind::U64 => 8,
            VectorKind::F32 => 4,
            VectorKind::F64 => 8,
            VectorKind::Anyref => 4,
        }
    }
}

impl Number {
    pub closed spec fn is_u32_spec(&self) -> bool {
        self.u32
    }

    /// Whether the number is an unsigned 32-bit integer.
    pub fn is_u32(&self) -> (r: bool)
        ensures
            r == self.is_u32_spec(),
    {
        self.u32
    }
}

} // verus!
