//! Analysis of a method body, node by node in arena order.
use vstd::prelude::*;
use crate::analyse::new_instance::{self, instance_class};
use crate::analyse::tpe::{static_class, GetType};
use crate::decl::{ClassDecl, ClassTable, Field, MethodSig};
use crate::scope::{lookup, lookup_var, with_var, CtxView, Scope};
use crate::tree::{Expr, NewInstance};

verus! {

pub open spec fn fields_view(c: ClassDecl) -> Seq<(Seq<char>, usize)> {
    c.fields@.map_values(|f: Field| (f.name@, f.class))
}

pub open spec fn methods_view(c: ClassDecl) -> Seq<(Seq<char>, usize)> {
    c.methods@.map_values(|m: MethodSig| (m.name@, m.return_class))
}

/// The class of the operand at `operand`, where it was analysed before node `i`
/// and names a class of `table`.
pub open spec fn operand_class(
    table: Seq<ClassDecl>,
    sc: Seq<CtxView>,
    nodes: Seq<Expr>,
    i: int,
    operand: usize,
) -> Option<usize> {
    if operand < i {
        match static_class(nodes[operand as int], sc) {
            Ok(c) => if c < table.len() {
                Some(c)
            } else {
                None
            },
            Err(_) => None,
        }
    } else {
        None
    }
}

/// Node `i` once analysed in `sc`, and the scope after it.
pub open spec fn node_step(table: Seq<ClassDecl>, sc: Seq<CtxView>, nodes: Seq<Expr>, i: int) -> (
    Expr,
    Seq<CtxView>,
) {
    match nodes[i] {
        Expr::Identifier { name, def } => (
            Expr::Identifier {
                name,
                def: if def is Some {
                    def
                } else {
                    lookup_var(sc, name@)
                },
            },
            sc,
        ),
        Expr::MemberAccess { parent, name, def } => (
            Expr::MemberAccess {
                parent,
                name,
                def: if def is Some {
                    def
                } else {
                    match operand_class(table, sc, nodes, i, parent) {
                        Some(c) => lookup(fields_view(table[c as int]), name@),
                        None => None,
                    }
                },
            },
            sc,
        ),
        Expr::NewInstance(n) => (
            Expr::NewInstance(NewInstance { name: n.name, args: n.args, def: instance_class(n, sc) }),
            sc,
        ),
        Expr::Invoke { invoker, name, args, def } => (
            Expr::Invoke {
                invoker,
                name,
                args,
                def: if def is Some {
                    def
                } else {
                    match operand_class(table, sc, nodes, i, invoker) {
                        Some(c) => lookup(methods_view(table[c as int]), name@),
                        None => None,
                    }
                },
            },
            sc,
        ),
        Expr::Assignment { name, value, def } => {
            let d = if def is Some {
                def
            } else if value < i {
                match static_class(nodes[value as int], sc) {
                    Ok(c) => Some(c),
                    Err(_) => None,
                }
            } else {
                None
            };
            (
                Expr::Assignment { name, value, def: d },
                if d is Some {
                    with_var(sc, name@, d->0)
                } else {
                    sc
                },
            )
        },
        other => (other, sc),
    }
}

/// The first `k` nodes analysed in order, starting in `sc`: the nodes and the
/// scope after them.
pub open spec fn analysed_upto(table: Seq<ClassDecl>, sc: Seq<CtxView>, nodes: Seq<Expr>, k: nat) -> (
    Seq<Expr>,
    Seq<CtxView>,
)
    decreases k,
{
    if k == 0 {
        (nodes, sc)
    } else {
        let prev = analysed_upto(table, sc, nodes, (k - 1) as nat);
        let step = node_step(table, prev.1, prev.0, k - 1);
        (prev.0.update(k - 1, step.0), step.1)
    }
}

fn find_binding_field(c: &ClassDecl, name: &String) -> (r: Option<usize>)
    ensures
        r == lookup(fields_view(*c), name@),
{
    let mut i: usize = c.fields.len();
    assert(c.fields@.subrange(0, i as int) =~= c.fields@);
    while i > 0
        invariant
            i <= c.fields@.len(),
            lookup(fields_view(*c), name@) == lookup(
                c.fields@.subrange(0, i as int).map_values(|f: Field| (f.name@, f.class)),
                name@,
            ),
        decreases i,
    {
        assert(c.fields@.subrange(0, i as int).map_values(|f: Field| (f.name@, f.class)).drop_last()
            =~= c.fields@.subrange(0, i - 1).map_values(|f: Field| (f.name@, f.class)));
        if c.fields[i - 1].name == *name {
            return Some(c.fields[i - 1].class);
        }
        i = i - 1;
    }
    None
}

fn find_binding_method(c: &ClassDecl, name: &String) -> (r: Option<usize>)
    ensures
        r == lookup(methods_view(*c), name@),
{
    let mut i: usize = c.methods.len();
    assert(c.methods@.subrange(0, i as int) =~= c.methods@);
    while i > 0
        invariant
            i <= c.methods@.len(),
            lookup(methods_view(*c), name@) == lookup(
                c.methods@.subrange(0, i as int).map_values(
                    |m: MethodSig| (m.name@, m.return_class),
                ),
                name@,
            ),
        decreases i,
    {
        assert(c.methods@.subrange(0, i as int).map_values(
            |m: MethodSig| (m.name@, m.return_class),
        ).drop_last() =~= c.methods@.subrange(0, i - 1).map_values(
            |m: MethodSig| (m.name@, m.return_class),
        ));
        if c.methods[i - 1].name == *name {
            return Some(c.methods[i - 1].return_class);
        }
        i = i - 1;
    }
    None
}

fn operand(table: &ClassTable, scope: &Scope, nodes: &Vec<Expr>, i: usize, op: usize) -> (r: Option<
    usize,
>)
    requires
        i <= nodes@.len(),
    ensures
        r == operand_class(table@, scope@, nodes@, i as int, op),
{
    if op < i {
        match nodes[op].get_type(scope) {
            Ok(c) => if c < table.len() {
                Some(c)
            } else {
                None
            },
            Err(_) => None,
        }
    } else {
        None
    }
}

/// Analyses node `i` of `nodes`, whose operands before it are analysed.
pub fn analyse_node(table: &ClassTable, nodes: &mut Vec<Expr>, i: usize, scope: &mut Scope)
    requires
        i < old(nodes)@.len(),
        old(scope)@.len() > 0,
    ensures
        final(nodes)@ == old(nodes)@.update(
            i as int,
            node_step(table@, old(scope)@, old(nodes)@, i as int).0,
        ),
        final(scope)@ == node_step(table@, old(scope)@, old(nodes)@, i as int).1,
{
    let ghost before = nodes@;
    let e = nodes.remove(i);
    assert(forall|k: int| 0 <= k < i ==> nodes@[k] == before[k]);
    let ghost rest = nodes@;
    let ghost prefix = before.subrange(0, i as int);
    assert(nodes@.subrange(0, i as int) =~= prefix);
    let new_e = match e {
        Expr::Identifier { name, def } => {
            let d = if def.is_some() {
                def
            } else {
                scope.find_var(&name)
            };
            Expr::Identifier { name, def: d }
        },
        Expr::MemberAccess { parent, name, def } => {
            let d = if def.is_some() {
                def
            } else {
                let oc = operand(table, scope, nodes, i, parent);
                proof {
                    if parent < i {
                        assert(nodes@[parent as int] == before[parent as int]);
                    }
                }
                match oc {
                    Some(c) => find_binding_field(table.get(c), &name),
                    None => None,
                }
            };
            Expr::MemberAccess { parent, name, def: d }
        },
        Expr::NewInstance(n) => {
            let mut n = n;
            new_instance::apply(&mut n, scope);
            Expr::NewInstance(n)
        },
        Expr::Invoke { invoker, name, args, def } => {
            let d = if def.is_some() {
                def
            } else {
                let oc = operand(table, scope, nodes, i, invoker);
                proof {
                    if invoker < i {
                        assert(nodes@[invoker as int] == before[invoker as int]);
                    }
                }
                match oc {
                    Some(c) => find_binding_method(table.get(c), &name),
                    None => None,
                }
            };
            Expr::Invoke { invoker, name, args, def: d }
        },
        Expr::Assignment { name, value, def } => {
            let d = if def.is_some() {
                def
            } else if value < i {
                assert(nodes@[value as int] == before[value as int]);
                match nodes[value].get_type(scope) {
                    Ok(c) => Some(c),
                    Err(_) => None,
                }
            } else {
                None
            };
            match d {
                Some(c) => {
                    scope.bind_var(name.clone(), c);
                },
                None => {},
            }
            Expr::Assignment { name, value, def: d }
        },
        other => other,
    };
    nodes.insert(i, new_e);
    assert(nodes@ =~= before.update(i as int, node_step(table@, old(scope)@, before, i as int).0));
}

/// Analyses every node of `nodes` in order.
pub fn analyse_body(table: &ClassTable, nodes: &mut Vec<Expr>, scope: &mut Scope)
    requires
        old(scope)@.len() > 0,
    ensures
        final(scope)@.len() == old(scope)@.len(),
        final(scope)@.drop_last() == old(scope)@.drop_last(),
        (final(nodes)@, final(scope)@) == analysed_upto(
            table@,
            old(scope)@,
            old(nodes)@,
            old(nodes)@.len(),
        ),
{
    let n = nodes.len();
    let mut i: usize = 0;
    while i < n
        invariant
            i <= n,
            n == old(nodes)@.len(),
            (nodes@, scope@) == analysed_upto(table@, old(scope)@, old(nodes)@, i as nat),
            old(scope)@.len() > 0,
            scope@.len() == old(scope)@.len(),
            scope@.drop_last() == old(scope)@.drop_last(),
        decreases n - i,
    {
        proof {
            lemma_upto_len(table@, old(scope)@, old(nodes)@, i as nat);
        }
        analyse_node(table, nodes, i, scope);
        proof {
            lemma_step_depth(table@, analysed_upto(table@, old(scope)@, old(nodes)@, i as nat).1,
                analysed_upto(table@, old(scope)@, old(nodes)@, i as nat).0, i as int);
        }
        i = i + 1;
    }
}

proof fn lemma_upto_len(table: Seq<ClassDecl>, sc: Seq<CtxView>, nodes: Seq<Expr>, k: nat)
    requires
        k <= nodes.len(),
    ensures
        analysed_upto(table, sc, nodes, k).0.len() == nodes.len(),
    decreases k,
{
    if k > 0 {
        lemma_upto_len(table, sc, nodes, (k - 1) as nat);
    }
}

proof fn lemma_step_depth(table: Seq<ClassDecl>, sc: Seq<CtxView>, nodes: Seq<Expr>, i: int)
    requires
        0 <= i < nodes.len(),
        sc.len() > 0,
    ensures
        node_step(table, sc, nodes, i).1.len() == sc.len(),
        node_step(table, sc, nodes, i).1.drop_last() == sc.drop_last(),
{
    assert(with_var(sc, Seq::empty(), 0).drop_last() =~= sc.drop_last());
    match nodes[i] {
        Expr::Assignment { name, value, def } => {
            let s = node_step(table, sc, nodes, i).1;
            assert(s.drop_last() =~= sc.drop_last());
        },
        _ => {},
    }
}

} // verus!
