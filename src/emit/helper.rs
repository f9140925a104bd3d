//! The emitter's helpers: collector-backed allocation, runtime declarations,
//! and conversion between native values and boxed instances.
use vstd::prelude::*;
use crate::decl::{kind_of, refs_below, ClassDecl, ClassTable, NativeKind};
use crate::emit::value::{
    alloc_seq, class_kind, decls, fails_at_once, fields_outcome, fields_seq, finalizer_args,
    native_ty, regs_below, scalar_seq, stream, struct_seq, to_value_spec, value_rank, value_wf,
    wrap_outcome, wrap_seq, ExtView, ExternalFn, FnSig, IView, Instr, Layout, Operand, Runtime,
    Ty, Value,
};
use crate::scope::lookup;
use crate::tree::InternalError;

verus! {

/// `b` is `a` with possibly more items after it.
pub open spec fn extends<T>(a: Seq<T>, b: Seq<T>) -> bool {
    a.len() <= b.len() && b.subrange(0, a.len() as int) == a
}

proof fn lemma_extends_concat<T>(a: Seq<T>, b: Seq<T>)
    ensures
        extends(a, a + b),
{
    assert((a + b).subrange(0, a.len() as int) =~= a);
}

proof fn lemma_extends_trans<T>(a: Seq<T>, b: Seq<T>, c: Seq<T>)
    requires
        extends(a, b),
        extends(b, c),
    ensures
        extends(a, c),
{
    assert forall|k: int| 0 <= k < a.len() implies c[k] == a[k] by {
        assert(c[k] == c.subrange(0, b.len() as int)[k]);
        assert(b[k] == b.subrange(0, a.len() as int)[k]);
    }
    assert(c.subrange(0, a.len() as int) =~= a);
}

proof fn lemma_outcome_err(table: Seq<ClassDecl>, c: usize, k: nat, k2: nat)
    requires
        c < table.len(),
        k <= k2 <= table[c as int].fields@.len(),
        fields_outcome(table, c, k) is Err,
    ensures
        fields_outcome(table, c, k2) == fields_outcome(table, c, k),
    decreases k2 - k,
{
    if k2 > k {
        lemma_outcome_err(table, c, k, (k2 - 1) as nat);
    }
}

/// Each declared name with its handle.
pub open spec fn ext_names(exts: Seq<ExtView>) -> Seq<(Seq<char>, usize)> {
    exts.map(|i: int, e: ExtView| (e.name, i as usize))
}

/// The handle of the routine called `name`, if it is declared.
pub open spec fn ext_index(exts: Seq<ExtView>, name: Seq<char>) -> Option<usize> {
    lookup(ext_names(exts), name)
}

/// The declarations after asking for `d`: an existing declaration of its name
/// is reused, else `d` is added.
pub open spec fn declare(exts: Seq<ExtView>, d: ExtView) -> Seq<ExtView> {
    if ext_index(exts, d.name) is Some {
        exts
    } else {
        exts.push(d)
    }
}

/// The handle that asking for `d` returns.
pub open spec fn handle(exts: Seq<ExtView>, d: ExtView) -> usize {
    match ext_index(exts, d.name) {
        Some(i) => i,
        None => exts.len() as usize,
    }
}

/// The allocator: one 64-bit size in, a pointer that aliases nothing out.
pub open spec fn malloc_decl() -> ExtView {
    ExtView { name: "GC_malloc"@, params: seq![Ty::I64], ret: Ty::Ptr, noalias: true }
}

/// The finalizer that every block is registered with.
pub open spec fn finalizer_decl() -> ExtView {
    ExtView { name: "GC_finalizer"@, params: seq![Ty::Ptr, Ty::Ptr], ret: Ty::Void, noalias: false }
}

/// The collector's finalizer registration.
pub open spec fn register_decl() -> ExtView {
    ExtView {
        name: "GC_register_finalizer"@,
        params: seq![Ty::Ptr, Ty::FnPtr, Ty::Ptr, Ty::FnPtr, Ty::PtrPtr],
        ret: Ty::Void,
        noalias: false,
    }
}

/// A routine of no arguments and no result.
pub open spec fn nullary_decl(name: Seq<char>) -> ExtView {
    ExtView { name, params: Seq::empty(), ret: Ty::Void, noalias: false }
}

/// The declarations once the routines that registering a finalizer needs are there.
pub open spec fn with_finalizer(exts: Seq<ExtView>) -> Seq<ExtView> {
    declare(declare(exts, finalizer_decl()), register_decl())
}

/// The declarations once the routines that allocating needs are there.
pub open spec fn with_collector(exts: Seq<ExtView>) -> Seq<ExtView> {
    with_finalizer(declare(exts, malloc_decl()))
}

/// The finalizer routines are declared, or there is room to declare them.
pub open spec fn room_for_finalizer(exts: Seq<ExtView>) -> bool {
    exts.len() + 2 <= usize::MAX || (ext_index(exts, "GC_finalizer"@) is Some && ext_index(
        exts,
        "GC_register_finalizer"@,
    ) is Some)
}

/// The collector's routines are declared, or there is room to declare them.
pub open spec fn room_for_collector(exts: Seq<ExtView>) -> bool {
    exts.len() + 3 <= usize::MAX || (ext_index(exts, "GC_malloc"@) is Some && ext_index(
        exts,
        "GC_finalizer"@,
    ) is Some && ext_index(exts, "GC_register_finalizer"@) is Some)
}

/// The handles of the collector's routines in `exts`.
pub open spec fn runtime_of(exts: Seq<ExtView>) -> Runtime {
    Runtime {
        malloc: ext_index(exts, "GC_malloc"@)->0,
        finalizer: ext_index(exts, "GC_finalizer"@)->0,
        register: ext_index(exts, "GC_register_finalizer"@)->0,
    }
}

proof fn lemma_lookup_found(bs: Seq<(Seq<char>, usize)>, name: Seq<char>)
    ensures
        lookup(bs, name) is Some ==> exists|j: int|
            0 <= j < bs.len() && #[trigger] bs[j] == (name, lookup(bs, name)->0),
    decreases bs.len(),
{
    if bs.len() > 0 && bs.last().0 != name {
        lemma_lookup_found(bs.drop_last(), name);
        if lookup(bs, name) is Some {
            let j = choose|j: int|
                0 <= j < bs.drop_last().len() && #[trigger] bs.drop_last()[j] == (
                    name,
                    lookup(bs, name)->0,
                );
            assert(bs[j] == bs.drop_last()[j]);
        }
    }
}

proof fn lemma_declare(exts: Seq<ExtView>, d: ExtView)
    requires
        exts.len() <= usize::MAX,
    ensures
        ext_index(declare(exts, d), d.name) == Some(handle(exts, d)),
        handle(exts, d) < declare(exts, d).len(),
        declare(exts, d)[handle(exts, d) as int].name == d.name,
        extends(exts, declare(exts, d)),
        forall|q: Seq<char>|
            ext_index(exts, q) is Some ==> #[trigger] ext_index(declare(exts, d), q) == ext_index(
                exts,
                q,
            ),
{
    let m = ext_names(exts);
    lemma_lookup_found(m, d.name);
    assert(exts.subrange(0, exts.len() as int) =~= exts);
    if ext_index(exts, d.name) is Some {
        let j = choose|j: int| 0 <= j < m.len() && #[trigger] m[j] == (d.name, lookup(m, d.name)->0);
        assert(m[j].1 == j);
    } else {
        let m2 = ext_names(exts.push(d));
        assert(m2.drop_last() =~= m);
        assert(exts.push(d).subrange(0, exts.len() as int) =~= exts);
        assert forall|q: Seq<char>| ext_index(exts, q) is Some implies #[trigger] ext_index(
            exts.push(d),
            q,
        ) == ext_index(exts, q) by {
            if q == d.name {
            }
        }
    }
}

/// Asking twice for the same runtime routine gives the same handle and
/// declares nothing the second time.
pub proof fn lemma_declare_idempotent(exts: Seq<ExtView>, d: ExtView, d2: ExtView)
    requires
        exts.len() < usize::MAX,
        d2.name == d.name,
    ensures
        declare(declare(exts, d), d2) == declare(exts, d),
        handle(declare(exts, d), d2) == handle(exts, d),
{
    lemma_declare(exts, d);
}

proof fn lemma_with_finalizer(exts: Seq<ExtView>)
    requires
        room_for_finalizer(exts),
    ensures
        ext_index(with_finalizer(exts), "GC_finalizer"@) is Some,
        ext_index(with_finalizer(exts), "GC_register_finalizer"@) is Some,
        forall|q: Seq<char>|
            ext_index(exts, q) is Some ==> #[trigger] ext_index(with_finalizer(exts), q) == ext_index(
                exts,
                q,
            ),
        with_finalizer(exts).len() <= exts.len() + 2,
{
    reveal_strlit("GC_finalizer");
    reveal_strlit("GC_register_finalizer");
    if exts.len() + 2 > usize::MAX {
        return;
    }
    lemma_declare(exts, finalizer_decl());
    lemma_declare(declare(exts, finalizer_decl()), register_decl());
}

proof fn lemma_with_collector(exts: Seq<ExtView>)
    requires
        room_for_collector(exts),
    ensures
        with_collector(with_collector(exts)) == with_collector(exts),
        ext_index(with_collector(exts), "GC_malloc"@) is Some,
        ext_index(with_collector(exts), "GC_finalizer"@) is Some,
        ext_index(with_collector(exts), "GC_register_finalizer"@) is Some,
        with_collector(exts).len() <= exts.len() + 3,
        room_for_collector(with_collector(exts)),
{
    reveal_strlit("GC_malloc");
    reveal_strlit("GC_finalizer");
    reveal_strlit("GC_register_finalizer");
    if exts.len() + 3 > usize::MAX {
        return;
    }
    lemma_declare(exts, malloc_decl());
    let e1 = declare(exts, malloc_decl());
    lemma_with_finalizer(e1);
    let e3 = with_collector(exts);
    assert(ext_index(e3, malloc_decl().name) is Some);
    assert(declare(e3, malloc_decl()) == e3);
    assert(declare(e3, finalizer_decl()) == e3);
    assert(declare(e3, register_decl()) == e3);
}

proof fn lemma_stream_push(s: Seq<Instr>, i: Instr)
    ensures
        stream(s.push(i)) == stream(s).push(i@),
{
    assert(stream(s.push(i)) =~= stream(s).push(i@));
}

/// Loading a native integer as `Native__Int` and boxing it again emits one
/// allocation of a `Native__Int` instance and one store, of that integer, into
/// its field 0, and nothing else: the field reads back as the integer.
pub proof fn lemma_wrap_unwrap_round_trip(table: Seq<ClassDecl>, rt: Runtime, base: int, x: usize, c: usize)
    requires
        c < table.len(),
        table[c as int].name@ == "Native__Int"@,
    ensures
        to_value_spec(table, x, c) == Ok::<Value, InternalError>(Value::Int(x)),
        wrap_outcome(table, Value::Int(x), c) is Ok,
        wrap_seq(table, rt, base, to_value_spec(table, x, c)->Ok_0, c) == alloc_seq(
            rt,
            base,
            Layout::Class(c),
        ) + seq![
            IView::FieldPtr((base + 3) as usize, 0),
            IView::Store((base + 4) as usize, Operand::Reg(x)),
        ],
{
    reveal_strlit("Native__Int");
}

/// Boxing an unboxed struct with N fields emits one allocation of its class,
/// then, for each field in order, a load of that field of the source, the box
/// of the loaded value made as the field's own declared class (recursively
/// for a nested struct), and one store of that box into the same field of the
/// new instance.
pub proof fn lemma_struct_boxing(table: Seq<ClassDecl>, rt: Runtime, base: int, p: usize, c: usize)
    requires
        crate::decl::table_wf(table),
        c < table.len(),
        class_kind(table, c) == NativeKind::Struct,
    ensures
        wrap_seq(table, rt, base, Value::Struct(p, c), c) == alloc_seq(rt, base, Layout::Class(c))
            + fields_seq(table, rt, base + 4, p, (base + 3) as usize, c, table[c as int].fields@.len()),
        forall|k: int|
            #![trigger fields_seq(table, rt, base + 4, p, (base + 3) as usize, c, (k + 1) as nat)]
            0 <= k < table[c as int].fields@.len() && class_kind(table, table[c as int].fields@[k].class)
                != NativeKind::Void && class_kind(table, table[c as int].fields@[k].class)
                != NativeKind::Other ==> {
                let w = (base + 3) as usize;
                let prev = fields_seq(table, rt, base + 4, p, w, c, k as nat);
                let b = base + 4 + prev.len();
                let fc = table[c as int].fields@[k].class;
                fields_seq(table, rt, base + 4, p, w, c, (k + 1) as nat) == prev + seq![
                    IView::FieldPtr(p, k as usize),
                    IView::Load(b as usize),
                    IView::FieldPtr(w, k as usize),
                ] + wrap_seq(table, rt, b + 3, to_value_spec(table, (b + 1) as usize, fc)->Ok_0, fc)
                    + seq![IView::Store((b + 2) as usize, Operand::Reg((b + 6) as usize))]
            },
{
    assert(refs_below(table[c as int], c as int));
}

/// The emitter of one module: the class table, the runtime routines declared
/// so far, and the instructions emitted so far.
pub struct Emitter {
    pub table: ClassTable,
    pub externals: Vec<ExternalFn>,
    pub instrs: Vec<Instr>,
}

impl Emitter {
    /// An emitter over `table` that has declared and emitted nothing.
    pub fn new(table: ClassTable) -> (r: Emitter)
        ensures
            r.table@ == table@,
            r.externals@.len() == 0,
            r.instrs@.len() == 0,
    {
        Emitter { table, externals: Vec::new(), instrs: Vec::new() }
    }

    fn emit(&mut self, i: Instr) -> (r: usize)
        ensures
            r == old(self).instrs@.len(),
            final(self).instrs@ == old(self).instrs@.push(i),
            stream(final(self).instrs@) == stream(old(self).instrs@).push(i@),
            final(self).table == old(self).table,
            final(self).externals == old(self).externals,
    {
        let r = self.instrs.len();
        proof {
            lemma_stream_push(self.instrs@, i);
        }
        self.instrs.push(i);
        r
    }

    /// The runtime routine called `name`, declared with `sig` unless a routine
    /// of that name is declared already.
    pub fn get_external_func(&mut self, name: String, sig: FnSig) -> (r: usize)
        ensures
            decls(final(self).externals@) == declare(
                decls(old(self).externals@),
                ExternalFn { name, sig }@,
            ),
            r == handle(decls(old(self).externals@), ExternalFn { name, sig }@),
            final(self).table == old(self).table,
            final(self).instrs == old(self).instrs,
    {
        let ghost d = ExternalFn { name, sig }@;
        let ghost exts = decls(self.externals@);
        let ghost m = ext_names(exts);
        let mut i: usize = self.externals.len();
        assert(m.subrange(0, i as int) =~= m);
        assert(forall|k: int| 0 <= k < m.len() ==> #[trigger] m[k] == (exts[k].name, k as usize));
        while i > 0
            invariant
                i <= self.externals@.len(),
                exts == decls(self.externals@),
                self.externals@ == old(self).externals@,
                m.len() == exts.len(),
                m == ext_names(exts),
                d.name == name@,
                forall|k: int| 0 <= k < m.len() ==> #[trigger] m[k] == (exts[k].name, k as usize),
                lookup(m, d.name) == lookup(m.subrange(0, i as int), d.name),
            decreases i,
        {
            assert(m.subrange(0, i as int).drop_last() =~= m.subrange(0, i - 1));
            if self.externals[i - 1].name == name {
                assert(exts[i - 1] == self.externals@[i - 1]@);
                assert(m[i - 1] == (d.name, (i - 1) as usize));
                assert(m.subrange(0, i as int).last() == (d.name, (i - 1) as usize));
                return i - 1;
            }
            i = i - 1;
        }
        let r = self.externals.len();
        self.externals.push(ExternalFn { name, sig });
        assert(decls(self.externals@) =~= exts.push(d));
        r
    }

    /// Registers the collector's finalizer hook for the block at `ptr`,
    /// declaring the finalizer and the registration routine where they are not.
    pub fn gc_register_finalizer(&mut self, ptr: usize)
        requires
            room_for_finalizer(decls(old(self).externals@)),
        ensures
            final(self).table == old(self).table,
            decls(final(self).externals@) == with_finalizer(decls(old(self).externals@)),
            stream(final(self).instrs@) == stream(old(self).instrs@).push(
                IView::Call(
                    ext_index(decls(final(self).externals@), "GC_register_finalizer"@)->0,
                    finalizer_args(ptr, ext_index(decls(final(self).externals@), "GC_finalizer"@)->0),
                ),
            ),
    {
        let ghost e0 = decls(self.externals@);
        proof {
            reveal_strlit("GC_finalizer");
            reveal_strlit("GC_register_finalizer");
            lemma_with_finalizer(e0);
            if e0.len() + 2 <= usize::MAX {
                lemma_declare(e0, finalizer_decl());
                lemma_declare(declare(e0, finalizer_decl()), register_decl());
            }
        }
        let mut fparams: Vec<Ty> = Vec::new();
        fparams.push(Ty::Ptr);
        fparams.push(Ty::Ptr);
        let fsig = FnSig { params: fparams, ret: Ty::Void, noalias_ret: false };
        assert(fsig.params@ =~= finalizer_decl().params);
        let fin = self.get_external_func("GC_finalizer".to_owned(), fsig);
        let mut params: Vec<Ty> = Vec::new();
        params.push(Ty::Ptr);
        params.push(Ty::FnPtr);
        params.push(Ty::Ptr);
        params.push(Ty::FnPtr);
        params.push(Ty::PtrPtr);
        let rsig = FnSig { params, ret: Ty::Void, noalias_ret: false };
        assert(rsig.params@ =~= register_decl().params);
        let reg = self.get_external_func("GC_register_finalizer".to_owned(), rsig);
        let mut args: Vec<Operand> = Vec::new();
        args.push(Operand::Reg(ptr));
        args.push(Operand::Func(fin));
        args.push(Operand::Null(Ty::Ptr));
        args.push(Operand::Null(Ty::FnPtr));
        args.push(Operand::Null(Ty::PtrPtr));
        assert(args@ =~= finalizer_args(ptr, fin));
        self.emit(Instr::Call { func: reg, args });
    }

    /// Allocates a collector-managed block for `layout`: it declares the
    /// allocator, asks it for the layout's size, registers the finalizer hook
    /// for the block and casts it to the layout.
    fn allocate(&mut self, layout: Layout) -> (r: usize)
        requires
            room_for_collector(decls(old(self).externals@)),
        ensures
            final(self).table == old(self).table,
            decls(final(self).externals@) == with_collector(decls(old(self).externals@)),
            stream(final(self).instrs@) == stream(old(self).instrs@) + alloc_seq(
                runtime_of(decls(final(self).externals@)),
                old(self).instrs@.len() as int,
                layout,
            ),
            r == old(self).instrs@.len() + 3,
    {
        let ghost e0 = decls(self.externals@);
        proof {
            reveal_strlit("GC_malloc");
            reveal_strlit("GC_finalizer");
            reveal_strlit("GC_register_finalizer");
            if e0.len() + 3 <= usize::MAX {
                lemma_declare(e0, malloc_decl());
            }
            lemma_with_finalizer(declare(e0, malloc_decl()));
        }
        let mut params: Vec<Ty> = Vec::new();
        params.push(Ty::I64);
        let sig = FnSig { params, ret: Ty::Ptr, noalias_ret: true };
        assert(sig.params@ =~= malloc_decl().params);
        let m = self.get_external_func("GC_malloc".to_owned(), sig);
        let ghost s0 = stream(old(self).instrs@);
        let size = self.emit(Instr::SizeOf(layout));
        let mut args: Vec<Operand> = Vec::new();
        args.push(Operand::Reg(size));
        assert(args@ =~= seq![Operand::Reg(size)]);
        let p = self.emit(Instr::Call { func: m, args });
        self.gc_register_finalizer(p);
        let r = self.emit(Instr::Cast { src: p, layout });
        proof {
            let rt = runtime_of(decls(self.externals@));
            assert(rt.malloc == m);
            assert(stream(self.instrs@) =~= s0 + alloc_seq(rt, s0.len() as int, layout));
        }
        r
    }

    /// Allocates a boxed instance of class `class`.
    pub fn malloc(&mut self, class: usize) -> (r: usize)
        requires
            room_for_collector(decls(old(self).externals@)),
        ensures
            final(self).table == old(self).table,
            decls(final(self).externals@) == with_collector(decls(old(self).externals@)),
            stream(final(self).instrs@) == stream(old(self).instrs@) + alloc_seq(
                runtime_of(decls(final(self).externals@)),
                old(self).instrs@.len() as int,
                Layout::Class(class),
            ),
            r == old(self).instrs@.len() + 3,
    {
        self.allocate(Layout::Class(class))
    }

    /// Allocates an array of `len` elements of kind `elem`.
    pub fn malloc_array(&mut self, elem: Ty, len: u64) -> (r: usize)
        requires
            room_for_collector(decls(old(self).externals@)),
        ensures
            final(self).table == old(self).table,
            decls(final(self).externals@) == with_collector(decls(old(self).externals@)),
            stream(final(self).instrs@) == stream(old(self).instrs@) + alloc_seq(
                runtime_of(decls(final(self).externals@)),
                old(self).instrs@.len() as int,
                Layout::Array(elem, len),
            ),
            r == old(self).instrs@.len() + 3,
    {
        self.allocate(Layout::Array(elem, len))
    }

    fn call_runtime(&mut self, name: String)
        ensures
            final(self).table == old(self).table,
            decls(final(self).externals@) == declare(decls(old(self).externals@), nullary_decl(name@)),
            stream(final(self).instrs@) == stream(old(self).instrs@).push(
                IView::Call(handle(decls(old(self).externals@), nullary_decl(name@)), Seq::empty()),
            ),
    {
        let sig = FnSig { params: Vec::new(), ret: Ty::Void, noalias_ret: false };
        assert(ExternalFn { name, sig }@ == nullary_decl(name@));
        let f = self.get_external_func(name, sig);
        let args: Vec<Operand> = Vec::new();
        assert(args@ =~= Seq::<Operand>::empty());
        self.emit(Instr::Call { func: f, args });
    }

    /// Emits the collector's initialisation, declaring `GC_init` where it is not.
    pub fn gc_init(&mut self)
        ensures
            final(self).table == old(self).table,
            decls(final(self).externals@) == declare(decls(old(self).externals@), nullary_decl("GC_init"@)),
            stream(final(self).instrs@) == stream(old(self).instrs@).push(
                IView::Call(handle(decls(old(self).externals@), nullary_decl("GC_init"@)), Seq::empty()),
            ),
    {
        self.call_runtime("GC_init".to_owned());
    }

    /// Emits a forced collection, declaring `GC_gcollect` where it is not.
    pub fn gc_collect(&mut self)
        ensures
            final(self).table == old(self).table,
            decls(final(self).externals@) == declare(
                decls(old(self).externals@),
                nullary_decl("GC_gcollect"@),
            ),
            stream(final(self).instrs@) == stream(old(self).instrs@).push(
                IView::Call(
                    handle(decls(old(self).externals@), nullary_decl("GC_gcollect"@)),
                    Seq::empty(),
                ),
            ),
    {
        self.call_runtime("GC_gcollect".to_owned());
    }

    /// The value that the raw register `raw` holds when loaded as class `class`.
    pub fn to_value(&self, raw: usize, class: usize) -> (r: Result<Value, InternalError>)
        requires
            class < self.table@.len(),
        ensures
            r == to_value_spec(self.table@, raw, class),
    {
        match kind_of(&self.table.get(class).name) {
            NativeKind::Int => Ok(Value::Int(raw)),
            NativeKind::Char => Ok(Value::Char(raw)),
            NativeKind::Str => Ok(Value::String(raw)),
            NativeKind::Void => Ok(Value::Void),
            NativeKind::Struct => Ok(Value::Struct(raw, class)),
            NativeKind::Other => Err(InternalError::Unsupported),
        }
    }

    /// Loads the pointer stored in `slot` as a boxed instance of class `class`.
    pub fn read_ptr(&mut self, slot: usize, class: usize) -> (r: Value)
        ensures
            final(self).table == old(self).table,
            final(self).externals == old(self).externals,
            stream(final(self).instrs@) == stream(old(self).instrs@).push(IView::Load(slot)),
            r == Value::Class(old(self).instrs@.len() as usize, class),
    {
        let v = self.emit(Instr::Load { ptr: slot });
        Value::Class(v, class)
    }

    /// The storage kind of a native class.
    pub fn get_type_for_native(&self, class: usize) -> (r: Result<Ty, InternalError>)
        requires
            class < self.table@.len(),
        ensures
            r == native_ty(self.table@, class),
    {
        match kind_of(&self.table.get(class).name) {
            NativeKind::Int => Ok(Ty::I64),
            NativeKind::Str => Ok(Ty::Ptr),
            NativeKind::Char => Ok(Ty::I8),
            _ => Err(InternalError::Unsupported),
        }
    }


    /// Boxes `value` as an instance of class `expected`. A native scalar goes
    /// into the one field of a fresh instance of its wrapper class; an unboxed
    /// struct is copied field by field into a fresh instance, each field loaded
    /// from the source and boxed as its own declared class; a boxed instance is
    /// handed back as it is. A value of the wrong class, or `Void`, is refused
    /// before anything is emitted.
    #[verifier::rlimit(60)]
    pub fn wrap_with_class(&mut self, value: Value, expected: usize) -> (r: Result<usize, InternalError>)
        requires
            old(self).table.wf(),
            value_wf(old(self).table@, value),
            expected < old(self).table@.len(),
            regs_below(value, old(self).instrs@.len() as int),
            room_for_collector(decls(old(self).externals@)),
        ensures
            final(self).table == old(self).table,
            r is Ok <==> wrap_outcome(old(self).table@, value, expected) is Ok,
            r matches Err(e) ==> wrap_outcome(old(self).table@, value, expected) == Err::<
                (),
                InternalError,
            >(e),
            decls(final(self).externals@) == (if fails_at_once(old(self).table@, value, expected)
                || value is Class {
                decls(old(self).externals@)
            } else {
                with_collector(decls(old(self).externals@))
            }),
            fails_at_once(old(self).table@, value, expected) ==> final(self).instrs@ == old(
                self,
            ).instrs@,
            extends(stream(old(self).instrs@), stream(final(self).instrs@)),
            r matches Ok(w) ==> stream(final(self).instrs@) == stream(old(self).instrs@) + wrap_seq(
                old(self).table@,
                runtime_of(decls(final(self).externals@)),
                old(self).instrs@.len() as int,
                value,
                expected,
            ),
            r matches Ok(w) ==> w == match value {
                Value::Class(p, _) => p,
                _ => (old(self).instrs@.len() + 3) as usize,
            },
        decreases value_rank(value),
    {
        let ghost s0 = stream(self.instrs@);
        proof {
            lemma_extends_concat(s0, Seq::empty());
            assert(s0 + Seq::<IView>::empty() =~= s0);
            lemma_with_collector(decls(self.externals@));
        }
        match value {
            Value::Int(x) | Value::Char(x) | Value::String(x) => {
                let want = match value {
                    Value::Int(_) => NativeKind::Int,
                    Value::Char(_) => NativeKind::Char,
                    _ => NativeKind::Str,
                };
                if kind_of(&self.table.get(expected).name) != want {
                    return Err(InternalError::ClassMismatch);
                }
                let w = self.malloc(expected);
                let g = self.emit(Instr::FieldPtr { base: w, index: 0 });
                self.emit(Instr::Store { ptr: g, value: Operand::Reg(x) });
                proof {
                    let sq = scalar_seq(runtime_of(decls(self.externals@)), s0.len() as int, x, expected);
                    assert(stream(self.instrs@) =~= s0 + sq);
                    lemma_extends_concat(s0, sq);
                }
                Ok(w)
            },
            Value::Struct(p, c) => {
                if c != expected {
                    return Err(InternalError::ClassMismatch);
                }
                let ghost table = self.table@;
                let ghost n0 = self.instrs@.len() as int;
                let w = self.malloc(c);
                let ghost ex1 = decls(self.externals@);
                let ghost rt = runtime_of(ex1);
                proof {
                    assert(refs_below(table[c as int], c as int));
                    assert(stream(self.instrs@) =~= s0 + alloc_seq(rt, n0, Layout::Class(c)) + fields_seq(
                        table,
                        rt,
                        n0 + 4,
                        p,
                        w,
                        c,
                        0,
                    ));
                }
                let nf = self.table.get(c).fields.len();
                let mut i: usize = 0;
                while i < nf
                    invariant
                        self.table == old(self).table,
                        table == self.table@,
                        self.table.wf(),
                        c < table.len(),
                        class_kind(table, c) == NativeKind::Struct,
                        refs_below(table[c as int], c as int),
                        c == expected,
                        value == Value::Struct(p, c),
                        nf == table[c as int].fields@.len(),
                        i <= nf,
                        n0 == old(self).instrs@.len(),
                        s0 == stream(old(self).instrs@),
                        s0.len() == n0,
                        p < n0,
                        w == n0 + 3,
                        decls(self.externals@) == ex1,
                        ex1 == with_collector(decls(old(self).externals@)),
                        with_collector(ex1) == ex1,
                        room_for_collector(ex1),
                        rt == runtime_of(ex1),
                        stream(self.instrs@) == s0 + alloc_seq(rt, n0, Layout::Class(c)) + fields_seq(
                            table,
                            rt,
                            n0 + 4,
                            p,
                            w,
                            c,
                            i as nat,
                        ),
                        fields_outcome(table, c, i as nat) is Ok,
                    decreases nf - i,
                {
                    let fc = self.table.get(c).fields[i].class;
                    let ghost cur = stream(self.instrs@);
                    let ghost b = self.instrs@.len() as int;
                    let sf = self.emit(Instr::FieldPtr { base: p, index: i });
                    let v = self.emit(Instr::Load { ptr: sf });
                    let dst = self.emit(Instr::FieldPtr { base: w, index: i });
                    let ghost head = seq![
                        IView::FieldPtr(p, i),
                        IView::Load(b as usize),
                        IView::FieldPtr(w, i),
                    ];
                    proof {
                        assert(stream(self.instrs@) =~= cur + head);
                        assert(b == n0 + 4 + fields_seq(table, rt, n0 + 4, p, w, c, i as nat).len());
                        assert(fields_outcome(table, c, (i + 1) as nat) == match class_kind(table, fc) {
                            NativeKind::Int | NativeKind::Char | NativeKind::Str => Ok(()),
                            NativeKind::Void => Err(InternalError::WrapVoid),
                            NativeKind::Other => Err(InternalError::Unsupported),
                            NativeKind::Struct => fields_outcome(table, fc, table[fc as int].fields@.len()),
                        });
                    }
                    let fv = match self.to_value(v, fc) {
                        Ok(fv) => fv,
                        Err(e) => {
                            proof {
                                lemma_outcome_err(table, c, (i + 1) as nat, nf as nat);
                                assert(stream(self.instrs@) =~= s0 + (alloc_seq(rt, n0, Layout::Class(c))
                                    + fields_seq(table, rt, n0 + 4, p, w, c, i as nat) + head));
                                lemma_extends_concat(s0, alloc_seq(rt, n0, Layout::Class(c))
                                    + fields_seq(table, rt, n0 + 4, p, w, c, i as nat) + head);
                            }
                            return Err(e);
                        },
                    };
                    let ghost mid = stream(self.instrs@);
                    proof {
                        assert(mid =~= s0 + (alloc_seq(rt, n0, Layout::Class(c)) + fields_seq(
                            table,
                            rt,
                            n0 + 4,
                            p,
                            w,
                            c,
                            i as nat,
                        ) + head));
                        lemma_extends_concat(s0, alloc_seq(rt, n0, Layout::Class(c)) + fields_seq(
                            table,
                            rt,
                            n0 + 4,
                            p,
                            w,
                            c,
                            i as nat,
                        ) + head);
                    }
                    let bw = match self.wrap_with_class(fv, fc) {
                        Ok(bw) => bw,
                        Err(e) => {
                            proof {
                                lemma_outcome_err(table, c, (i + 1) as nat, nf as nat);
                                lemma_extends_trans(s0, mid, stream(self.instrs@));
                            }
                            return Err(e);
                        },
                    };
                    let ghost inner = wrap_seq(table, rt, b + 3, fv, fc);
                    self.emit(Instr::Store { ptr: dst, value: Operand::Reg(bw) });
                    proof {
                        assert(inner == match class_kind(table, fc) {
                            NativeKind::Int | NativeKind::Char | NativeKind::Str => scalar_seq(
                                rt,
                                b + 3,
                                (b + 1) as usize,
                                fc,
                            ),
                            NativeKind::Struct => if fc < c {
                                struct_seq(table, rt, b + 3, (b + 1) as usize, fc)
                            } else {
                                Seq::empty()
                            },
                            _ => Seq::empty(),
                        });
                        assert(fields_seq(table, rt, n0 + 4, p, w, c, (i + 1) as nat) == fields_seq(
                            table,
                            rt,
                            n0 + 4,
                            p,
                            w,
                            c,
                            i as nat,
                        ) + head + inner + seq![IView::Store((b + 2) as usize, Operand::Reg((b + 6) as usize))]);
                        assert(stream(self.instrs@) =~= s0 + alloc_seq(rt, n0, Layout::Class(c)) + fields_seq(
                            table,
                            rt,
                            n0 + 4,
                            p,
                            w,
                            c,
                            (i + 1) as nat,
                        ));
                    }
                    i = i + 1;
                }
                proof {
                    let body = alloc_seq(rt, n0, Layout::Class(c)) + fields_seq(
                        table,
                        rt,
                        n0 + 4,
                        p,
                        w,
                        c,
                        nf as nat,
                    );
                    assert(struct_seq(table, rt, n0, p, c) == body);
                    assert(stream(self.instrs@) =~= s0 + body);
                    lemma_extends_concat(s0, body);
                }
                Ok(w)
            },
            Value::Class(p, c) => {
                if c != expected {
                    return Err(InternalError::ClassMismatch);
                }
                Ok(p)
            },
            Value::Void => Err(InternalError::WrapVoid),
        }
    }
}

} // verus!
