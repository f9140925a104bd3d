//! Values at emission time, and the instructions that produce them.
use vstd::prelude::*;
use crate::decl::{kind_of_name, ClassDecl, NativeKind};
use crate::tree::InternalError;

verus! {

/// A storage kind of the backend.
#[derive(PartialEq, Eq, Structural, Clone, Copy, Debug)]
pub enum Ty {
    Void,
    I8,
    I64,
    Ptr,
    FnPtr,
    PtrPtr,
}

/// The memory layout that an allocation is sized and typed for.
#[derive(PartialEq, Eq, Structural, Clone, Copy, Debug)]
pub enum Layout {
    /// The layout of the fields of a class.
    Class(usize),
    /// An array of `1` elements of kind `0`.
    Array(Ty, u64),
}

/// An operand of an instruction.
#[derive(PartialEq, Eq, Structural, Clone, Copy, Debug)]
pub enum Operand {
    /// The value of the instruction at this position.
    Reg(usize),
    /// The address of the declared external function with this handle.
    Func(usize),
    /// A null pointer of this kind.
    Null(Ty),
}

/// The signature of an external function.
pub struct FnSig {
    pub params: Vec<Ty>,
    pub ret: Ty,
    /// The returned pointer aliases nothing else.
    pub noalias_ret: bool,
}

/// An external runtime routine declared in the module.
pub struct ExternalFn {
    pub name: String,
    pub sig: FnSig,
}

/// An instruction of the emitted stream.
pub enum Instr {
    /// The byte size of a layout, as a 64-bit integer.
    SizeOf(Layout),
    Call { func: usize, args: Vec<Operand> },
    /// The pointer `src` seen as a pointer to `layout`.
    Cast { src: usize, layout: Layout },
    /// The address of field `index` of the aggregate at `base`.
    FieldPtr { base: usize, index: usize },
    Load { ptr: usize },
    Store { ptr: usize, value: Operand },
}

/// A value during emission, tagged with the class it represents.
#[derive(PartialEq, Eq, Structural, Clone, Copy, Debug)]
pub enum Value {
    Int(usize),
    Char(usize),
    String(usize),
    /// An unboxed aggregate at the address in the register, of the class.
    Struct(usize, usize),
    /// A boxed instance at the address in the register, of the class.
    Class(usize, usize),
    Void,
}

/// The kind of class `c` of `table`.
pub open spec fn class_kind(table: Seq<ClassDecl>, c: usize) -> NativeKind {
    kind_of_name(table[c as int].name@)
}

/// A value names classes of `table`, and an unboxed aggregate is of a struct class.
pub open spec fn value_wf(table: Seq<ClassDecl>, v: Value) -> bool {
    match v {
        Value::Struct(_, c) => c < table.len() && class_kind(table, c) == NativeKind::Struct,
        Value::Class(_, c) => c < table.len(),
        _ => true,
    }
}

/// The value that a raw register holds when it is loaded as class `c`.
pub open spec fn to_value_spec(table: Seq<ClassDecl>, raw: usize, c: usize) -> Result<
    Value,
    InternalError,
> {
    match class_kind(table, c) {
        NativeKind::Int => Ok(Value::Int(raw)),
        NativeKind::Char => Ok(Value::Char(raw)),
        NativeKind::Str => Ok(Value::String(raw)),
        NativeKind::Void => Ok(Value::Void),
        NativeKind::Struct => Ok(Value::Struct(raw, c)),
        NativeKind::Other => Err(InternalError::Unsupported),
    }
}

/// The storage kind of a native class.
pub open spec fn native_ty(table: Seq<ClassDecl>, c: usize) -> Result<Ty, InternalError> {
    match class_kind(table, c) {
        NativeKind::Int => Ok(Ty::I64),
        NativeKind::Str => Ok(Ty::Ptr),
        NativeKind::Char => Ok(Ty::I8),
        _ => Err(InternalError::Unsupported),
    }
}

/// How boxing the first `k` fields of an unboxed aggregate of class `c` ends:
/// every field is loaded as its declared class and boxed as that class.
pub open spec fn fields_outcome(table: Seq<ClassDecl>, c: usize, k: nat) -> Result<(), InternalError>
    decreases c, k,
{
    if k == 0 || c >= table.len() || k > table[c as int].fields@.len() {
        Ok(())
    } else {
        match fields_outcome(table, c, (k - 1) as nat) {
            Err(e) => Err(e),
            Ok(()) => {
                let fc = table[c as int].fields@[k - 1].class;
                match class_kind(table, fc) {
                    NativeKind::Int | NativeKind::Char | NativeKind::Str => Ok(()),
                    NativeKind::Void => Err(InternalError::WrapVoid),
                    NativeKind::Other => Err(InternalError::Unsupported),
                    NativeKind::Struct => if fc < c {
                        fields_outcome(table, fc, table[fc as int].fields@.len())
                    } else {
                        Ok(())
                    },
                }
            },
        }
    }
}

/// How boxing `v` as class `expected` ends.
pub open spec fn wrap_outcome(table: Seq<ClassDecl>, v: Value, expected: usize) -> Result<
    (),
    InternalError,
> {
    match v {
        Value::Int(_) => if class_kind(table, expected) == NativeKind::Int {
            Ok(())
        } else {
            Err(InternalError::ClassMismatch)
        },
        Value::Char(_) => if class_kind(table, expected) == NativeKind::Char {
            Ok(())
        } else {
            Err(InternalError::ClassMismatch)
        },
        Value::String(_) => if class_kind(table, expected) == NativeKind::Str {
            Ok(())
        } else {
            Err(InternalError::ClassMismatch)
        },
        Value::Struct(_, c) => if c == expected {
            fields_outcome(table, c, table[c as int].fields@.len())
        } else {
            Err(InternalError::ClassMismatch)
        },
        Value::Class(_, c) => if c == expected {
            Ok(())
        } else {
            Err(InternalError::ClassMismatch)
        },
        Value::Void => Err(InternalError::WrapVoid),
    }
}

/// An instruction as contracts see it.
pub enum IView {
    SizeOf(Layout),
    Call(usize, Seq<Operand>),
    Cast(usize, Layout),
    FieldPtr(usize, usize),
    Load(usize),
    Store(usize, Operand),
}

impl Instr {
    pub open spec fn view(&self) -> IView {
        match self {
            Instr::SizeOf(l) => IView::SizeOf(*l),
            Instr::Call { func, args } => IView::Call(*func, args@),
            Instr::Cast { src, layout } => IView::Cast(*src, *layout),
            Instr::FieldPtr { base, index } => IView::FieldPtr(*base, *index),
            Instr::Load { ptr } => IView::Load(*ptr),
            Instr::Store { ptr, value } => IView::Store(*ptr, *value),
        }
    }
}

/// An instruction stream as contracts see it.
pub open spec fn stream(s: Seq<Instr>) -> Seq<IView> {
    s.map_values(|i: Instr| i@)
}

/// A runtime declaration as contracts see it.
pub struct ExtView {
    pub name: Seq<char>,
    pub params: Seq<Ty>,
    pub ret: Ty,
    pub noalias: bool,
}

impl ExternalFn {
    pub open spec fn view(&self) -> ExtView {
        ExtView {
            name: self.name@,
            params: self.sig.params@,
            ret: self.sig.ret,
            noalias: self.sig.noalias_ret,
        }
    }
}

/// The declarations as contracts see them.
pub open spec fn decls(s: Seq<ExternalFn>) -> Seq<ExtView> {
    s.map_values(|e: ExternalFn| e@)
}

/// The handles of the collector's three routines.
pub struct Runtime {
    pub malloc: usize,
    pub finalizer: usize,
    pub register: usize,
}

/// The arguments of a finalizer registration for the block at `ptr`: the
/// runtime's finalizer and no client data.
pub open spec fn finalizer_args(ptr: usize, finalizer: usize) -> Seq<Operand> {
    seq![
        Operand::Reg(ptr),
        Operand::Func(finalizer),
        Operand::Null(Ty::Ptr),
        Operand::Null(Ty::FnPtr),
        Operand::Null(Ty::PtrPtr),
    ]
}

/// An allocation for `layout` emitted at position `base`: the size, the call
/// of the allocator, the finalizer registration of the block and the cast of
/// the block to the layout, which is the new object (at `base + 3`).
pub open spec fn alloc_seq(rt: Runtime, base: int, layout: Layout) -> Seq<IView> {
    seq![
        IView::SizeOf(layout),
        IView::Call(rt.malloc, seq![Operand::Reg(base as usize)]),
        IView::Call(rt.register, finalizer_args((base + 1) as usize, rt.finalizer)),
        IView::Cast((base + 1) as usize, layout),
    ]
}

/// Boxing the scalar in register `x` as class `c`, emitted at `base`: one
/// allocation and one store of `x` into field 0 of the new object.
pub open spec fn scalar_seq(rt: Runtime, base: int, x: usize, c: usize) -> Seq<IView> {
    alloc_seq(rt, base, Layout::Class(c)) + seq![
        IView::FieldPtr((base + 3) as usize, 0),
        IView::Store((base + 4) as usize, Operand::Reg(x)),
    ]
}

/// Boxing the unboxed struct at `p`, of class `c`, emitted at `base`: one
/// allocation, then every field in order.
pub open spec fn struct_seq(table: Seq<ClassDecl>, rt: Runtime, base: int, p: usize, c: usize) -> Seq<
    IView,
>
    decreases c, table[c as int].fields@.len() + 1,
{
    if c < table.len() {
        alloc_seq(rt, base, Layout::Class(c)) + fields_seq(
            table,
            rt,
            base + 4,
            p,
            (base + 3) as usize,
            c,
            table[c as int].fields@.len(),
        )
    } else {
        Seq::empty()
    }
}

/// The first `k` fields of the struct at `p`, of class `c`, boxed into the
/// object at `w`, emitted at `base`. Field `i` is loaded from field `i` of the
/// source, boxed as its declared class (the box is the object 6 places after
/// the field's first instruction) and stored into field `i` of `w`.
pub open spec fn fields_seq(
    table: Seq<ClassDecl>,
    rt: Runtime,
    base: int,
    p: usize,
    w: usize,
    c: usize,
    k: nat,
) -> Seq<IView>
    decreases c, k,
{
    if k == 0 || c >= table.len() || k > table[c as int].fields@.len() {
        Seq::empty()
    } else {
        let prev = fields_seq(table, rt, base, p, w, c, (k - 1) as nat);
        let b = base + prev.len();
        let fc = table[c as int].fields@[k - 1].class;
        let head = seq![
            IView::FieldPtr(p, (k - 1) as usize),
            IView::Load(b as usize),
            IView::FieldPtr(w, (k - 1) as usize),
        ];
        let inner = match class_kind(table, fc) {
            NativeKind::Int | NativeKind::Char | NativeKind::Str => scalar_seq(
                rt,
                b + 3,
                (b + 1) as usize,
                fc,
            ),
            NativeKind::Struct => if fc < c {
                struct_seq(table, rt, b + 3, (b + 1) as usize, fc)
            } else {
                Seq::empty()
            },
            _ => Seq::empty(),
        };
        prev + head + inner + seq![IView::Store((b + 2) as usize, Operand::Reg((b + 6) as usize))]
    }
}

/// What boxing `v` as class `expected` emits at `base` when it succeeds.
pub open spec fn wrap_seq(table: Seq<ClassDecl>, rt: Runtime, base: int, v: Value, expected: usize) -> Seq<
    IView,
> {
    match v {
        Value::Int(x) | Value::Char(x) | Value::String(x) => scalar_seq(rt, base, x, expected),
        Value::Struct(p, c) => struct_seq(table, rt, base, p, c),
        _ => Seq::empty(),
    }
}

/// Boxing `v` as `expected` fails before anything is emitted: the value is
/// `Void` or is not of the expected class.
pub open spec fn fails_at_once(table: Seq<ClassDecl>, v: Value, expected: usize) -> bool {
    match v {
        Value::Int(_) => class_kind(table, expected) != NativeKind::Int,
        Value::Char(_) => class_kind(table, expected) != NativeKind::Char,
        Value::String(_) => class_kind(table, expected) != NativeKind::Str,
        Value::Struct(_, c) => c != expected,
        Value::Class(_, c) => c != expected,
        Value::Void => true,
    }
}

/// The registers that `v` names are below `n`.
pub open spec fn regs_below(v: Value, n: int) -> bool {
    match v {
        Value::Int(x) | Value::Char(x) | Value::String(x) => x < n,
        Value::Struct(p, _) | Value::Class(p, _) => p < n,
        Value::Void => true,
    }
}

/// The measure under which boxing recurses into nested unboxed structs.
pub open spec fn value_rank(v: Value) -> int {
    match v {
        Value::Struct(_, c) => c + 1,
        _ => 0,
    }
}

} // verus!
