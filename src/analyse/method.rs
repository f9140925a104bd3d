//! Analysis of one method.
use vstd::prelude::*;
use crate::analyse::expr::{analyse_body, analysed_upto};
use crate::analyse::tpe::{self, resolved};
use crate::decl::ClassTable;
use crate::scope::{empty_ctx, lookup_class, with_var, CtxView, Scope};
use crate::tree::{Method, Param, TypeAnn};

verus! {

/// The implicit receiver of a method of class `class`.
pub open spec fn receiver(class: usize) -> Param {
    Param { name: None, tpe: TypeAnn { name: None, def: Some(class) }, index: 0 }
}

/// The parameter list once the receiver, if any, is put in front.
pub open spec fn with_receiver(params: Seq<Param>, parent_class: Option<usize>) -> Seq<Param> {
    match parent_class {
        Some(c) => seq![receiver(c)].add(params),
        None => params,
    }
}

/// `p` analysed at position `k`: its type resolved in `sc`.
pub open spec fn analysed_param(p: Param, k: int, sc: Seq<CtxView>) -> Param {
    Param {
        name: p.name,
        tpe: TypeAnn { name: p.tpe.name, def: resolved(p.tpe, sc) },
        index: k as usize,
    }
}

/// `sc` after binding each named parameter of `ps` whose type is resolved.
pub open spec fn bind_params(sc: Seq<CtxView>, ps: Seq<Param>) -> Seq<CtxView>
    decreases ps.len(),
{
    if ps.len() == 0 {
        sc
    } else {
        let s = bind_params(sc, ps.drop_last());
        let p = ps.last();
        if p.name is Some && p.tpe.def is Some {
            with_var(s, p.name->0@, p.tpe.def->0)
        } else {
            s
        }
    }
}

proof fn lemma_class_lookup_with_var(sc: Seq<CtxView>, name: Seq<char>, class: usize)
    requires
        sc.len() > 0,
    ensures
        forall|q: Seq<char>| #[trigger]
            lookup_class(with_var(sc, name, class), q) == lookup_class(sc, q),
{
    assert(with_var(sc, name, class).drop_last() =~= sc.drop_last());
}

proof fn lemma_class_lookup_push_empty(sc: Seq<CtxView>)
    ensures
        forall|q: Seq<char>| #[trigger] lookup_class(sc.push(empty_ctx()), q) == lookup_class(sc, q),
{
    assert(sc.push(empty_ctx()).drop_last() =~= sc);
}

/// Gives each parameter its position, resolves its type and binds its name in
/// the innermost context.
pub fn analyse_params(params: &mut Vec<Param>, scope: &mut Scope)
    requires
        old(scope)@.len() > 0,
    ensures
        final(params)@.len() == old(params)@.len(),
        forall|k: int|
            0 <= k < old(params)@.len() ==> #[trigger] final(params)@[k] == analysed_param(
                old(params)@[k],
                k,
                old(scope)@,
            ),
        final(scope)@ == bind_params(old(scope)@, final(params)@),
        final(scope)@.len() == old(scope)@.len(),
        final(scope)@.drop_last() == old(scope)@.drop_last(),
        forall|q: Seq<char>| #[trigger] lookup_class(final(scope)@, q) == lookup_class(old(scope)@, q),
{
    let mut ps: Vec<Param> = Vec::new();
    std::mem::swap(&mut ps, params);
    let ghost all = ps@;
    let n = ps.len();
    let mut out: Vec<Param> = Vec::new();
    let mut k: usize = 0;
    assert(out@ =~= Seq::<Param>::empty());
    while k < n
        invariant
            n == all.len(),
            k <= n,
            old(scope)@.len() > 0,
            ps@ == all.subrange(k as int, n as int),
            out@.len() == k,
            forall|j: int| 0 <= j < k ==> #[trigger] out@[j] == analysed_param(all[j], j, old(scope)@),
            scope@ == bind_params(old(scope)@, out@),
            scope@.len() == old(scope)@.len(),
            scope@.drop_last() == old(scope)@.drop_last(),
            forall|q: Seq<char>| #[trigger] lookup_class(scope@, q) == lookup_class(old(scope)@, q),
        decreases n - k,
    {
        let p = ps.remove(0);
        assert(p == all[k as int]);
        assert(ps@ =~= all.subrange(k + 1, n as int));
        let Param { name, tpe, index: _ } = p;
        let mut tpe = tpe;
        tpe::apply(&mut tpe, scope);
        let ghost before = scope@;
        match (&name, tpe.def) {
            (Some(nm), Some(c)) => {
                proof {
                    lemma_class_lookup_with_var(scope@, nm@, c);
                    assert(with_var(before, nm@, c).drop_last() =~= before.drop_last());
                }
                scope.bind_var(nm.clone(), c);
            },
            _ => {},
        }
        let ghost prev = out@;
        out.push(Param { name, tpe, index: k });
        assert(out@.drop_last() =~= prev);
        k = k + 1;
    }
    *params = out;
}

/// Analyses `method`: opens its context, puts the receiver of `parent_class`
/// in front of its parameters, analyses them, its return type and its body in
/// order, and closes the context again.
pub fn apply(
    method: &mut Method,
    parent_class: Option<usize>,
    table: &ClassTable,
    scope: &mut Scope,
)
    ensures
        final(method).name == old(method).name,
        final(method).params@.len() == with_receiver(old(method).params@, parent_class).len(),
        forall|k: int|
            0 <= k < final(method).params@.len() ==> #[trigger] final(method).params@[k]
                == analysed_param(with_receiver(old(method).params@, parent_class)[k], k, old(scope)@),
        final(method).return_type == (TypeAnn {
            name: old(method).return_type.name,
            def: resolved(old(method).return_type, old(scope)@),
        }),
        final(method).exprs@ == analysed_upto(
            table@,
            bind_params(old(scope)@.push(empty_ctx()), final(method).params@),
            old(method).exprs@,
            old(method).exprs@.len(),
        ).0,
        final(scope)@ == old(scope)@,
{
    scope.enter_method();
    proof {
        lemma_class_lookup_push_empty(old(scope)@);
    }
    match parent_class {
        Some(c) => {
            let ghost ps = method.params@;
            method.params.insert(
                0,
                Param { name: None, tpe: TypeAnn { name: None, def: Some(c) }, index: 0 },
            );
            assert(method.params@ =~= with_receiver(ps, parent_class));
        },
        None => {},
    }
    analyse_params(&mut method.params, scope);
    tpe::apply(&mut method.return_type, scope);
    analyse_body(table, &mut method.exprs, scope);
    scope.leave();
    assert(scope@ =~= old(scope)@);
}

/// With a receiver the explicit parameters move one place up, behind the
/// receiver at position 0; without one they keep their positions.
pub proof fn lemma_receiver_injection(params: Seq<Param>, parent_class: Option<usize>)
    ensures
        parent_class is Some ==> {
            &&& with_receiver(params, parent_class).len() == params.len() + 1
            &&& with_receiver(params, parent_class)[0] == receiver(parent_class->0)
            &&& forall|k: int|
                0 <= k < params.len() ==> #[trigger] with_receiver(params, parent_class)[k + 1]
                    == params[k]
        },
        parent_class is None ==> with_receiver(params, parent_class) == params,
{
}

} // verus!
