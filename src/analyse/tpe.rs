//! Resolution of a type annotation, and the static class of an analysed expression.
use vstd::prelude::*;
use crate::scope::{lookup_class, CtxView, Scope};
use crate::tree::{Expr, InternalError, TypeAnn};

verus! {

/// The resolution cell of `t` after resolving it in `sc`.
pub open spec fn resolved(t: TypeAnn, sc: Seq<CtxView>) -> Option<usize> {
    if t.def is Some {
        t.def
    } else if t.name is Some {
        lookup_class(sc, t.name->0@)
    } else {
        None
    }
}

/// Resolves `tpe` in `scope`; a cell that is already set is left as it is.
pub fn apply(tpe: &mut TypeAnn, scope: &Scope)
    ensures
        final(tpe).name == old(tpe).name,
        final(tpe).def == resolved(*old(tpe), scope@),
{
    if tpe.def.is_none() {
        match &tpe.name {
            Some(n) => {
                tpe.def = scope.find_class(n);
            },
            None => {},
        }
    }
}

/// Resolving twice gives the cell that resolving once gave.
pub proof fn lemma_resolve_idempotent(t: TypeAnn, sc: Seq<CtxView>)
    ensures
        resolved(TypeAnn { name: t.name, def: resolved(t, sc) }, sc) == resolved(t, sc),
{
}

/// The static class of an analysed expression, where the scope gives the
/// builtin classes of literals.
pub open spec fn static_class(e: Expr, sc: Seq<CtxView>) -> Result<usize, InternalError> {
    let cell = match e {
        Expr::Identifier { def, .. } => def,
        Expr::MemberAccess { def, .. } => def,
        Expr::NewInstance(i) => i.def,
        Expr::Int(_) => lookup_class(sc, "Int"@),
        Expr::String(_) => lookup_class(sc, "String"@),
        Expr::Char(_) => lookup_class(sc, "Char"@),
        Expr::NativeInt(_) => lookup_class(sc, "Native__Int"@),
        Expr::NativeString(_) => lookup_class(sc, "Native__String"@),
        Expr::NativeChar(_) => lookup_class(sc, "Native__Char"@),
        Expr::Invoke { def, .. } => def,
        Expr::Assignment { def, .. } => def,
    };
    match cell {
        Some(c) => Ok(c),
        None => Err(InternalError::Unresolved),
    }
}

fn builtin(scope: &Scope, name: &str) -> (r: Result<usize, InternalError>)
    ensures
        r == match lookup_class(scope@, name@) {
            Some(c) => Ok::<usize, InternalError>(c),
            None => Err(InternalError::Unresolved),
        },
{
    match scope.find_class(&name.to_owned()) {
        Some(c) => Ok(c),
        None => Err(InternalError::Unresolved),
    }
}

fn cell(def: Option<usize>) -> (r: Result<usize, InternalError>)
    ensures
        r == match def {
            Some(c) => Ok::<usize, InternalError>(c),
            None => Err(InternalError::Unresolved),
        },
{
    match def {
        Some(c) => Ok(c),
        None => Err(InternalError::Unresolved),
    }
}

/// The static class of an expression once its method has been analysed.
pub trait GetType {
    spec fn type_spec(&self, scope: Seq<CtxView>) -> Result<usize, InternalError>;

    /// An empty cell here is an internal error.
    fn get_type(&self, scope: &Scope) -> (r: Result<usize, InternalError>)
        ensures
            r == self.type_spec(scope@),
    ;
}

impl GetType for Expr {
    open spec fn type_spec(&self, scope: Seq<CtxView>) -> Result<usize, InternalError> {
        static_class(*self, scope)
    }

    fn get_type(&self, scope: &Scope) -> (r: Result<usize, InternalError>) {
        match self {
            Expr::Identifier { def, .. } => cell(*def),
            Expr::MemberAccess { def, .. } => cell(*def),
            Expr::NewInstance(i) => cell(i.def),
            Expr::Int(_) => builtin(scope, "Int"),
            Expr::String(_) => builtin(scope, "String"),
            Expr::Char(_) => builtin(scope, "Char"),
            Expr::NativeInt(_) => builtin(scope, "Native__Int"),
            Expr::NativeString(_) => builtin(scope, "Native__String"),
            Expr::NativeChar(_) => builtin(scope, "Native__Char"),
            Expr::Invoke { def, .. } => cell(*def),
            Expr::Assignment { def, .. } => cell(*def),
        }
    }
}

/// An integer literal has the boxed `Int` class and a native one `Native__Int`,
/// whatever its value.
pub proof fn lemma_literal_types(a: i64, b: i64, sc: Seq<CtxView>)
    ensures
        static_class(Expr::Int(a), sc) == static_class(Expr::Int(b), sc),
        static_class(Expr::NativeInt(a), sc) == static_class(Expr::NativeInt(b), sc),
        lookup_class(sc, "Int"@) is Some ==> static_class(Expr::Int(a), sc) == Ok::<
            usize,
            InternalError,
        >(lookup_class(sc, "Int"@)->0),
        lookup_class(sc, "Native__Int"@) is Some ==> static_class(Expr::NativeInt(a), sc) == Ok::<
            usize,
            InternalError,
        >(lookup_class(sc, "Native__Int"@)->0),
{
}

} // verus!
