//! The syntax tree that analysis annotates in place. Every resolution cell is
//! an `Option` of a class handle, filled at most once.
//!
//! A method body is an arena of expressions: a node refers to its operands by
//! their index, and operands come before the nodes that use them, so that the
//! arena order is the order in which the body is analysed.
use vstd::prelude::*;

verus! {

/// A type written in the source: its name (absent for a synthesized receiver)
/// and the class it resolves to.
pub struct TypeAnn {
    pub name: Option<String>,
    pub def: Option<usize>,
}

/// A parameter: its name (absent for a receiver), its type and its position.
pub struct Param {
    pub name: Option<String>,
    pub tpe: TypeAnn,
    pub index: usize,
}

/// An instantiation `C.new(args)`; the class name may be left to inference.
pub struct NewInstance {
    pub name: Option<String>,
    pub args: Vec<usize>,
    pub def: Option<usize>,
}

/// An expression. `def` is the node's resolution cell.
pub enum Expr {
    /// A variable; `def` is the declared class of what it is bound to.
    Identifier { name: String, def: Option<usize> },
    /// `parent.name`; `def` is the declared class of the field.
    MemberAccess { parent: usize, name: String, def: Option<usize> },
    NewInstance(NewInstance),
    Int(i64),
    String(String),
    Char(char),
    NativeInt(i64),
    NativeString(String),
    NativeChar(char),
    /// `invoker.name(args)`; `def` is the declared return class of the callee.
    Invoke { invoker: usize, name: String, args: Vec<usize>, def: Option<usize> },
    /// `name = value`; `def` is the class of the assigned value.
    Assignment { name: String, value: usize, def: Option<usize> },
}

/// A method: its parameters, its return type and its body.
pub struct Method {
    pub name: String,
    pub params: Vec<Param>,
    pub return_type: TypeAnn,
    pub exprs: Vec<Expr>,
}

/// An error that means the analysis or emission contract was broken, not that
/// the source program is wrong.
#[derive(PartialEq, Eq, Structural, Clone, Copy, Debug)]
pub enum InternalError {
    /// A resolution cell read after analysis is still empty.
    Unresolved,
    /// A value is not of the class it is stored as.
    ClassMismatch,
    /// A class has no run-time representation of the kind asked for.
    Unsupported,
    /// A `Void` value was to be boxed.
    WrapVoid,
}

} // verus!
