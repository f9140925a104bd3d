//! The lexical-context stack through which names are resolved.
use vstd::prelude::*;
use crate::decl::{ClassDecl, ClassTable, Field};

verus! {

/// A name bound to a class handle.
pub struct Binding {
    pub name: String,
    pub class: usize,
}

/// One lexical context: the classes and the variables it makes visible.
pub struct Context {
    pub classes: Vec<Binding>,
    pub vars: Vec<Binding>,
}

/// A context as the contracts see it: names with class handles, in binding order.
pub struct CtxView {
    pub classes: Seq<(Seq<char>, usize)>,
    pub vars: Seq<(Seq<char>, usize)>,
}

pub open spec fn bindings_view(bs: Seq<Binding>) -> Seq<(Seq<char>, usize)> {
    bs.map_values(|b: Binding| (b.name@, b.class))
}

impl Context {
    pub open spec fn view(&self) -> CtxView {
        CtxView { classes: bindings_view(self.classes@), vars: bindings_view(self.vars@) }
    }
}

/// The latest binding of `name` in `bs`.
pub open spec fn lookup(bs: Seq<(Seq<char>, usize)>, name: Seq<char>) -> Option<usize>
    decreases bs.len(),
{
    if bs.len() == 0 {
        None
    } else if bs.last().0 == name {
        Some(bs.last().1)
    } else {
        lookup(bs.drop_last(), name)
    }
}

/// The class that `name` denotes in `ctxs`, innermost context first.
pub open spec fn lookup_class(ctxs: Seq<CtxView>, name: Seq<char>) -> Option<usize>
    decreases ctxs.len(),
{
    if ctxs.len() == 0 {
        None
    } else if lookup(ctxs.last().classes, name) is Some {
        lookup(ctxs.last().classes, name)
    } else {
        lookup_class(ctxs.drop_last(), name)
    }
}

/// The declared class of the variable `name` in `ctxs`, innermost context first.
pub open spec fn lookup_var(ctxs: Seq<CtxView>, name: Seq<char>) -> Option<usize>
    decreases ctxs.len(),
{
    if ctxs.len() == 0 {
        None
    } else if lookup(ctxs.last().vars, name) is Some {
        lookup(ctxs.last().vars, name)
    } else {
        lookup_var(ctxs.drop_last(), name)
    }
}

/// `ctxs` with `name` bound to `class` among the variables of its innermost context.
pub open spec fn with_var(ctxs: Seq<CtxView>, name: Seq<char>, class: usize) -> Seq<CtxView> {
    ctxs.update(
        ctxs.len() - 1,
        CtxView { classes: ctxs.last().classes, vars: ctxs.last().vars.push((name, class)) },
    )
}

/// A context that binds nothing.
pub open spec fn empty_ctx() -> CtxView {
    CtxView { classes: Seq::empty(), vars: Seq::empty() }
}

/// The stack of lexical contexts.
pub struct Scope {
    contexts: Vec<Context>,
}

fn find_in(bs: &Vec<Binding>, name: &String) -> (r: Option<usize>)
    ensures
        r == lookup(bindings_view(bs@), name@),
{
    let mut i: usize = bs.len();
    assert(bs@.subrange(0, i as int) =~= bs@);
    while i > 0
        invariant
            i <= bs@.len(),
            lookup(bindings_view(bs@), name@) == lookup(
                bindings_view(bs@.subrange(0, i as int)),
                name@,
            ),
        decreases i,
    {
        let b = &bs[i - 1];
        assert(bindings_view(bs@.subrange(0, i as int)).drop_last() =~= bindings_view(
            bs@.subrange(0, i - 1),
        ));
        if b.name == *name {
            return Some(b.class);
        }
        i = i - 1;
    }
    None
}

impl Scope {
    pub closed spec fn view(&self) -> Seq<CtxView> {
        self.contexts@.map_values(|c: Context| c@)
    }

    /// A scope of one context that makes every class of `table` visible by name.
    pub fn new(table: &ClassTable) -> (r: Scope)
        ensures
            r@.len() == 1,
            r@[0].vars.len() == 0,
            r@[0].classes == table@.map(|h: int, c: ClassDecl| (c.name@, h as usize)),
    {
        let mut classes: Vec<Binding> = Vec::new();
        let n = table.len();
        let mut h: usize = 0;
        while h < n
            invariant
                n == table@.len(),
                h <= n,
                classes@.len() == h,
                forall|k: int|
                    0 <= k < h ==> #[trigger] classes@[k].name@ == table@[k].name@
                        && classes@[k].class == k,
            decreases n - h,
        {
            let name = table.get(h).name.clone();
            classes.push(Binding { name, class: h });
            h = h + 1;
        }
        assert(bindings_view(classes@) =~= table@.map(|h: int, c: ClassDecl| (c.name@, h as usize)));
        let vars: Vec<Binding> = Vec::new();
        assert(bindings_view(vars@) =~= Seq::empty());
        let mut contexts: Vec<Context> = Vec::new();
        contexts.push(Context { classes, vars });
        let r = Scope { contexts };
        r
    }

    /// The number of open contexts.
    pub fn depth(&self) -> (r: usize)
        ensures
            r == self@.len(),
    {
        self.contexts.len()
    }

    /// The class that `name` denotes here; `None` when no context makes it visible.
    pub fn find_class(&self, name: &String) -> (r: Option<usize>)
        ensures
            r == lookup_class(self@, name@),
    {
        let mut i: usize = self.contexts.len();
        assert(self@.subrange(0, i as int) =~= self@);
        while i > 0
            invariant
                i <= self@.len(),
                lookup_class(self@, name@) == lookup_class(self@.subrange(0, i as int), name@),
            decreases i,
        {
            assert(self@.subrange(0, i as int).drop_last() =~= self@.subrange(0, i - 1));
            let found = find_in(&self.contexts[i - 1].classes, name);
            if found.is_some() {
                return found;
            }
            i = i - 1;
        }
        None
    }

    /// The declared class of the variable `name` here; `None` when it is not bound.
    pub fn find_var(&self, name: &String) -> (r: Option<usize>)
        ensures
            r == lookup_var(self@, name@),
    {
        let mut i: usize = self.contexts.len();
        assert(self@.subrange(0, i as int) =~= self@);
        while i > 0
            invariant
                i <= self@.len(),
                lookup_var(self@, name@) == lookup_var(self@.subrange(0, i as int), name@),
            decreases i,
        {
            assert(self@.subrange(0, i as int).drop_last() =~= self@.subrange(0, i - 1));
            let found = find_in(&self.contexts[i - 1].vars, name);
            if found.is_some() {
                return found;
            }
            i = i - 1;
        }
        None
    }

    /// Opens the context of a method; its parameters are bound into it afterwards.
    pub fn enter_method(&mut self)
        ensures
            final(self)@ == old(self)@.push(empty_ctx()),
    {
        let classes: Vec<Binding> = Vec::new();
        let vars: Vec<Binding> = Vec::new();
        let ctx = Context { classes, vars };
        assert(ctx@.classes =~= Seq::empty());
        assert(ctx@.vars =~= Seq::empty());
        self.contexts.push(ctx);
        assert(self@ =~= old(self)@.push(empty_ctx()));
    }

    /// Opens the context of a class of `table`: its fields become visible as variables.
    pub fn enter_class(&mut self, table: &ClassTable, class: usize)
        requires
            class < table@.len(),
        ensures
            final(self)@ == old(self)@.push(
                CtxView {
                    classes: Seq::empty(),
                    vars: table@[class as int].fields@.map_values(|f: Field| (f.name@, f.class)),
                },
            ),
    {
        let decl = table.get(class);
        let mut vars: Vec<Binding> = Vec::new();
        let mut f: usize = 0;
        while f < decl.fields.len()
            invariant
                f <= decl.fields@.len(),
                vars@.len() == f,
                forall|g: int|
                    0 <= g < f ==> #[trigger] vars@[g].name@ == decl.fields@[g].name@
                        && vars@[g].class == decl.fields@[g].class,
            decreases decl.fields@.len() - f,
        {
            let name = decl.fields[f].name.clone();
            vars.push(Binding { name, class: decl.fields[f].class });
            f = f + 1;
        }
        let classes: Vec<Binding> = Vec::new();
        let ctx = Context { classes, vars };
        assert(ctx@.classes =~= Seq::empty());
        assert(ctx@.vars =~= decl.fields@.map_values(|x: Field| (x.name@, x.class)));
        self.contexts.push(ctx);
        assert(self@ =~= old(self)@.push(
            CtxView {
                classes: Seq::empty(),
                vars: table@[class as int].fields@.map_values(|x: Field| (x.name@, x.class)),
            },
        ));
    }

    /// Closes the innermost context.
    pub fn leave(&mut self)
        requires
            old(self)@.len() > 0,
        ensures
            final(self)@ == old(self)@.drop_last(),
    {
        self.contexts.pop();
        assert(self@ =~= old(self)@.drop_last());
    }

    /// Binds the variable `name`, of class `class`, in the innermost context.
    pub fn bind_var(&mut self, name: String, class: usize)
        requires
            old(self)@.len() > 0,
        ensures
            final(self)@ == with_var(old(self)@, name@, class),
    {
        let ghost n = name@;
        let mut ctx = self.contexts.pop().unwrap();
        ctx.vars.push(Binding { name, class });
        self.contexts.push(ctx);
        assert(bindings_view(ctx.vars@) =~= old(self)@.last().vars.push((n, class)));
        assert(self@ =~= with_var(old(self)@, n, class));
    }
}

} // verus!
