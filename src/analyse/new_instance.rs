//! Resolution of an instantiation's class.
use vstd::prelude::*;
use crate::scope::{lookup_class, CtxView, Scope};
use crate::tree::NewInstance;

verus! {

/// The resolution cell of `n` after resolving it in `sc`: an explicit class
/// name is looked up; without one the cell waits for inference.
pub open spec fn instance_class(n: NewInstance, sc: Seq<CtxView>) -> Option<usize> {
    if n.def is Some {
        n.def
    } else if n.name is Some {
        lookup_class(sc, n.name->0@)
    } else {
        None
    }
}

/// Resolves the class of `new_instance`. Its arguments are nodes of the same
/// body, analysed in their own turn.
pub fn apply(new_instance: &mut NewInstance, scope: &Scope)
    ensures
        final(new_instance).name == old(new_instance).name,
        final(new_instance).args == old(new_instance).args,
        final(new_instance).def == instance_class(*old(new_instance), scope@),
{
    if new_instance.def.is_none() {
        match &new_instance.name {
            Some(name) => {
                new_instance.def = scope.find_class(name);
            },
            None => {},
        }
    }
}

} // verus!
