//! The program-wide declaration table: every class exists once, and every
//! reference to a class is a handle (its index in the table).
use vstd::prelude::*;

verus! {

/// How a class is represented at run time, decided by its name.
#[derive(PartialEq, Eq, Structural, Clone, Copy, Debug)]
pub enum NativeKind {
    Int,
    Char,
    Str,
    Void,
    Struct,
    Other,
}

/// Does `s` start with `prefix`?
pub open spec fn has_prefix(s: Seq<char>, prefix: Seq<char>) -> bool {
    prefix.len() <= s.len() && s.subrange(0, prefix.len() as int) == prefix
}

/// The representation that a class name denotes.
pub open spec fn kind_of_name(n: Seq<char>) -> NativeKind {
    if n == "Native__Int"@ {
        NativeKind::Int
    } else if n == "Native__Char"@ {
        NativeKind::Char
    } else if n == "Native__String"@ {
        NativeKind::Str
    } else if n == "Native__Void"@ {
        NativeKind::Void
    } else if has_prefix(n, "Native__Struct__"@) {
        NativeKind::Struct
    } else {
        NativeKind::Other
    }
}

/// Is `a` the same text as `b`?
pub fn text_eq(a: &String, b: &str) -> (r: bool)
    ensures
        r == (a@ == b@),
{
    *a == b.to_owned()
}

/// Does `s` start with `prefix`?
pub fn starts_with(s: &String, prefix: &str) -> (r: bool)
    ensures
        r == has_prefix(s@, prefix@),
{
    let t = s.as_str();
    let n = t.unicode_len();
    let m = prefix.unicode_len();
    if m > n {
        return false;
    }
    let mut i: usize = 0;
    while i < m
        invariant
            m == prefix@.len(),
            n == t@.len(),
            t@ == s@,
            m <= n,
            i <= m,
            forall|j: int| 0 <= j < i ==> s@[j] == prefix@[j],
        decreases m - i,
    {
        if t.get_char(i) != prefix.get_char(i) {
            assert(s@.subrange(0, m as int)[i as int] != prefix@[i as int]);
            return false;
        }
        i = i + 1;
    }
    assert(s@.subrange(0, m as int) =~= prefix@);
    true
}

/// The representation of the class called `name`.
pub fn kind_of(name: &String) -> (r: NativeKind)
    ensures
        r == kind_of_name(name@),
{
    if text_eq(name, "Native__Int") {
        NativeKind::Int
    } else if text_eq(name, "Native__Char") {
        NativeKind::Char
    } else if text_eq(name, "Native__String") {
        NativeKind::Str
    } else if text_eq(name, "Native__Void") {
        NativeKind::Void
    } else if starts_with(name, "Native__Struct__") {
        NativeKind::Struct
    } else {
        NativeKind::Other
    }
}

/// A field of a class: its name and the handle of its declared class.
pub struct Field {
    pub name: String,
    pub class: usize,
}

/// A method of a class, as far as resolution needs it.
pub struct MethodSig {
    pub name: String,
    pub return_class: usize,
}

/// A class: its name, its fields in order, and its methods.
pub struct ClassDecl {
    pub name: String,
    pub fields: Vec<Field>,
    pub methods: Vec<MethodSig>,
}

/// Every class handle that `c` mentions is below `bound`.
pub open spec fn refs_below(c: ClassDecl, bound: int) -> bool {
    &&& forall|f: int| 0 <= f < c.fields@.len() ==> #[trigger] c.fields@[f].class < bound
    &&& forall|m: int| 0 <= m < c.methods@.len() ==> #[trigger] c.methods@[m].return_class < bound
}

/// A sequence of classes forms a table: handles point into it, and an unboxed
/// struct holds only classes declared before it. Callers therefore list the
/// classes that an unboxed struct contains ahead of it (a topological order);
/// this is also what rules out a struct that contains itself, which no finite
/// aggregate can. Boxed classes may refer to any class, themselves included.
pub open spec fn table_wf(cs: Seq<ClassDecl>) -> bool {
    forall|h: int|
        0 <= h < cs.len() ==> {
            &&& refs_below(#[trigger] cs[h], cs.len() as int)
            &&& kind_of_name(cs[h].name@) == NativeKind::Struct ==> refs_below(cs[h], h)
        }
}

/// The declaration table.
pub struct ClassTable {
    classes: Vec<ClassDecl>,
}

impl ClassTable {
    pub closed spec fn view(&self) -> Seq<ClassDecl> {
        self.classes@
    }

    pub open spec fn wf(&self) -> bool {
        table_wf(self@)
    }

    /// The table made of `classes`, where they form one (see `table_wf`: an
    /// unboxed struct must come after the classes of its fields).
    pub fn from_classes(classes: Vec<ClassDecl>) -> (r: Option<ClassTable>)
        ensures
            r is Some <==> table_wf(classes@),
            r is Some ==> r->0@ == classes@,
    {
        let n = classes.len();
        let mut h: usize = 0;
        while h < n
            invariant
                n == classes@.len(),
                h <= n,
                forall|k: int|
                    0 <= k < h ==> {
                        &&& refs_below(#[trigger] classes@[k], n as int)
                        &&& kind_of_name(classes@[k].name@) == NativeKind::Struct ==> refs_below(
                            classes@[k],
                            k,
                        )
                    },
            decreases n - h,
        {
            let c = &classes[h];
            let limit = if kind_of(&c.name) == NativeKind::Struct {
                h
            } else {
                n
            };
            let mut f: usize = 0;
            while f < c.fields.len()
                invariant
                    h < n,
                    n == classes@.len(),
                    *c == classes@[h as int],
                    limit == (if kind_of_name(c.name@) == NativeKind::Struct {
                        h
                    } else {
                        n
                    }),
                    forall|k: int|
                        0 <= k < h ==> {
                            &&& refs_below(#[trigger] classes@[k], n as int)
                            &&& kind_of_name(classes@[k].name@) == NativeKind::Struct
                                ==> refs_below(classes@[k], k)
                        },
                    forall|g: int| 0 <= g < f ==> #[trigger] c.fields@[g].class < limit,
                decreases c.fields@.len() - f,
            {
                if c.fields[f].class >= limit {
                    assert(!refs_below(classes@[h as int], limit as int));
                    return None;
                }
                f = f + 1;
            }
            let mut m: usize = 0;
            while m < c.methods.len()
                invariant
                    h < n,
                    n == classes@.len(),
                    *c == classes@[h as int],
                    limit == (if kind_of_name(c.name@) == NativeKind::Struct {
                        h
                    } else {
                        n
                    }),
                    forall|k: int|
                        0 <= k < h ==> {
                            &&& refs_below(#[trigger] classes@[k], n as int)
                            &&& kind_of_name(classes@[k].name@) == NativeKind::Struct
                                ==> refs_below(classes@[k], k)
                        },
                    forall|g: int| 0 <= g < c.fields@.len() ==> #[trigger] c.fields@[g].class < limit,
                    forall|g: int| 0 <= g < m ==> #[trigger] c.methods@[g].return_class < limit,
                decreases c.methods@.len() - m,
            {
                if c.methods[m].return_class >= limit {
                    assert(!refs_below(classes@[h as int], limit as int));
                    return None;
                }
                m = m + 1;
            }
            h = h + 1;
        }
        Some(ClassTable { classes })
    }

    pub fn len(&self) -> (r: usize)
        ensures
            r == self@.len(),
    {
        self.classes.len()
    }

    pub fn get(&self, h: usize) -> (r: &ClassDecl)
        requires
            h < self@.len(),
        ensures
            *r == self@[h as int],
    {
        &self.classes[h]
    }
}

} // verus!
