use lilit::analyse::expr::analyse_body;
use lilit::analyse::method;
use lilit::analyse::new_instance;
use lilit::analyse::tpe::{self, GetType};
use lilit::decl::{kind_of, ClassDecl, ClassTable, Field, MethodSig, NativeKind};
use lilit::scope::Scope;
use lilit::token::{Span, Token};
use lilit::tree::{Expr, InternalError, Method, NewInstance, Param, TypeAnn};

fn class(name: &str, fields: Vec<(&str, usize)>, methods: Vec<(&str, usize)>) -> ClassDecl {
    ClassDecl {
        name: name.to_string(),
        fields: fields
            .into_iter()
            .map(|(n, c)| Field { name: n.to_string(), class: c })
            .collect(),
        methods: methods
            .into_iter()
            .map(|(n, c)| MethodSig { name: n.to_string(), return_class: c })
            .collect(),
    }
}

const NATIVE_INT: usize = 0;
const INT: usize = 1;
const STRING: usize = 2;
const CHAR: usize = 3;
const NATIVE_STRING: usize = 4;
const NATIVE_CHAR: usize = 5;
const POINT: usize = 6;

fn table() -> ClassTable {
    ClassTable::from_classes(vec![
        class("Native__Int", vec![], vec![]),
        class("Int", vec![("underlying", NATIVE_INT)], vec![]),
        class("String", vec![], vec![]),
        class("Char", vec![], vec![]),
        class("Native__String", vec![], vec![]),
        class("Native__Char", vec![], vec![]),
        class(
            "Point",
            vec![("x", NATIVE_INT), ("y", NATIVE_INT)],
            vec![("move", POINT), ("norm", INT)],
        ),
    ])
    .unwrap()
}

fn ann(name: &str) -> TypeAnn {
    TypeAnn { name: Some(name.to_string()), def: None }
}

fn param(name: &str, tpe: &str) -> Param {
    Param { name: Some(name.to_string()), tpe: ann(tpe), index: 0 }
}

fn method(params: Vec<Param>, exprs: Vec<Expr>) -> Method {
    Method { name: "move".to_string(), params, return_type: ann("Point"), exprs }
}

#[test]
fn point_move_scenario() {
    let table = table();
    let mut scope = Scope::new(&table);
    let mut m = method(
        vec![param("dx", "Native__Int")],
        vec![
            Expr::Int(1),
            Expr::Int(2),
            Expr::NewInstance(NewInstance {
                name: Some("Point".to_string()),
                args: vec![0, 1],
                def: None,
            }),
        ],
    );
    method::apply(&mut m, Some(POINT), &table, &mut scope);
    assert_eq!(m.params.len(), 2);
    assert!(m.params[0].name.is_none());
    assert_eq!(m.params[0].tpe.def, Some(POINT));
    assert_eq!(m.params[0].index, 0);
    assert_eq!(m.params[1].name.as_deref(), Some("dx"));
    assert_eq!(m.params[1].tpe.def, Some(NATIVE_INT));
    assert_eq!(m.params[1].index, 1);
    assert_eq!(m.return_type.def, Some(POINT));
    assert_eq!(m.exprs[2].get_type(&scope), Ok(POINT));
}

#[test]
fn receiver_injection_shifts_indices() {
    let table = table();
    let mut scope = Scope::new(&table);
    let mut m = method(vec![param("p0", "Int"), param("p1", "Char")], vec![]);
    method::apply(&mut m, Some(POINT), &table, &mut scope);
    let got: Vec<(Option<String>, Option<usize>, usize)> = m
        .params
        .iter()
        .map(|p| (p.name.clone(), p.tpe.def, p.index))
        .collect();
    assert_eq!(
        got,
        vec![
            (None, Some(POINT), 0),
            (Some("p0".to_string()), Some(INT), 1),
            (Some("p1".to_string()), Some(CHAR), 2),
        ]
    );
}

#[test]
fn free_method_keeps_indices() {
    let table = table();
    let mut scope = Scope::new(&table);
    let mut m = method(vec![param("p0", "Int"), param("p1", "Char")], vec![]);
    method::apply(&mut m, None, &table, &mut scope);
    let got: Vec<(Option<String>, usize)> =
        m.params.iter().map(|p| (p.name.clone(), p.index)).collect();
    assert_eq!(
        got,
        vec![(Some("p0".to_string()), 0), (Some("p1".to_string()), 1)]
    );
}

#[test]
fn scope_depth_is_balanced() {
    let table = table();
    let mut scope = Scope::new(&table);
    scope.enter_class(&table, POINT);
    let before = scope.depth();
    let mut m = method(
        vec![param("dx", "Native__Int")],
        vec![Expr::Identifier { name: "dx".to_string(), def: None }],
    );
    method::apply(&mut m, Some(POINT), &table, &mut scope);
    assert_eq!(scope.depth(), before);
    assert_eq!(before, 2);
    // the method's parameters are no longer visible
    assert_eq!(scope.find_var(&"dx".to_string()), None);
    assert_eq!(scope.find_var(&"x".to_string()), Some(NATIVE_INT));
}

#[test]
fn resolution_is_idempotent() {
    let table = table();
    let scope = Scope::new(&table);
    let mut t = ann("Point");
    tpe::apply(&mut t, &scope);
    let first = t.def;
    tpe::apply(&mut t, &scope);
    assert_eq!(first, Some(POINT));
    assert_eq!(t.def, first);
}

#[test]
fn resolved_cell_is_never_rewritten() {
    let table = table();
    let scope = Scope::new(&table);
    let mut t = TypeAnn { name: Some("Point".to_string()), def: Some(INT) };
    tpe::apply(&mut t, &scope);
    assert_eq!(t.def, Some(INT));
}

#[test]
fn unknown_type_stays_unresolved() {
    let table = table();
    let scope = Scope::new(&table);
    let mut t = ann("Nowhere");
    tpe::apply(&mut t, &scope);
    assert_eq!(t.def, None);
}

#[test]
fn literal_types_are_fixed() {
    let table = table();
    let scope = Scope::new(&table);
    assert_eq!(Expr::Int(7).get_type(&scope), Ok(INT));
    assert_eq!(Expr::Int(-3).get_type(&scope), Ok(INT));
    assert_eq!(Expr::NativeInt(7).get_type(&scope), Ok(NATIVE_INT));
    assert_eq!(Expr::String("s".to_string()).get_type(&scope), Ok(STRING));
    assert_eq!(Expr::Char('c').get_type(&scope), Ok(CHAR));
    assert_eq!(Expr::NativeString("s".to_string()).get_type(&scope), Ok(NATIVE_STRING));
    assert_eq!(Expr::NativeChar('c').get_type(&scope), Ok(NATIVE_CHAR));
}

#[test]
fn empty_cell_is_an_internal_error() {
    let table = table();
    let scope = Scope::new(&table);
    let e = Expr::Identifier { name: "nobody".to_string(), def: None };
    assert_eq!(e.get_type(&scope), Err(InternalError::Unresolved));
}

#[test]
fn instantiation_without_name_waits() {
    let table = table();
    let scope = Scope::new(&table);
    let mut n = NewInstance { name: None, args: vec![], def: None };
    new_instance::apply(&mut n, &scope);
    assert_eq!(n.def, None);
    let mut n = NewInstance { name: Some("Point".to_string()), args: vec![3], def: None };
    new_instance::apply(&mut n, &scope);
    assert_eq!(n.def, Some(POINT));
    assert_eq!(n.args, vec![3]);
}

#[test]
fn body_resolves_members_invocations_and_assignments() {
    let table = table();
    let mut scope = Scope::new(&table);
    scope.enter_method();
    scope.bind_var("p".to_string(), POINT);
    let mut nodes = vec![
        Expr::Identifier { name: "p".to_string(), def: None },
        Expr::MemberAccess { parent: 0, name: "x".to_string(), def: None },
        Expr::Invoke { invoker: 0, name: "norm".to_string(), args: vec![], def: None },
        Expr::Assignment { name: "n".to_string(), value: 2, def: None },
        Expr::Identifier { name: "n".to_string(), def: None },
        Expr::MemberAccess { parent: 0, name: "z".to_string(), def: None },
    ];
    analyse_body(&table, &mut nodes, &mut scope);
    let types: Vec<Result<usize, InternalError>> =
        nodes.iter().map(|e| e.get_type(&scope)).collect();
    assert_eq!(
        types,
        vec![
            Ok(POINT),
            Ok(NATIVE_INT),
            Ok(INT),
            Ok(INT),
            Ok(INT),
            Err(InternalError::Unresolved),
        ]
    );
    assert_eq!(scope.depth(), 2);
}

#[test]
fn inner_binding_shadows_outer() {
    let table = table();
    let mut scope = Scope::new(&table);
    scope.enter_method();
    scope.bind_var("v".to_string(), INT);
    scope.enter_method();
    scope.bind_var("v".to_string(), CHAR);
    assert_eq!(scope.find_var(&"v".to_string()), Some(CHAR));
    scope.leave();
    assert_eq!(scope.find_var(&"v".to_string()), Some(INT));
    assert_eq!(scope.find_class(&"Char".to_string()), Some(CHAR));
    assert_eq!(scope.find_class(&"Missing".to_string()), None);
}

#[test]
fn table_rejects_dangling_and_self_containing_structs() {
    assert!(ClassTable::from_classes(vec![class("A", vec![("f", 1)], vec![])]).is_none());
    assert!(ClassTable::from_classes(vec![class("A", vec![], vec![("m", 3)])]).is_none());
    assert!(ClassTable::from_classes(vec![class(
        "Native__Struct__Loop",
        vec![("me", 0)],
        vec![]
    )])
    .is_none());
    // a boxed class may refer to itself
    assert!(ClassTable::from_classes(vec![class("Node", vec![("next", 0)], vec![])]).is_some());
}

#[test]
fn class_kinds_follow_names() {
    assert_eq!(kind_of(&"Native__Int".to_string()), NativeKind::Int);
    assert_eq!(kind_of(&"Native__Char".to_string()), NativeKind::Char);
    assert_eq!(kind_of(&"Native__String".to_string()), NativeKind::Str);
    assert_eq!(kind_of(&"Native__Void".to_string()), NativeKind::Void);
    assert_eq!(kind_of(&"Native__Struct__Pair".to_string()), NativeKind::Struct);
    assert_eq!(kind_of(&"Native__Struct_".to_string()), NativeKind::Other);
    assert_eq!(kind_of(&"Point".to_string()), NativeKind::Other);
    assert_eq!(kind_of(&"".to_string()), NativeKind::Other);
}

#[test]
fn token_span_is_carried() {
    let t = Token::Keyword(Span { line: 3, col: 9, fragment: "def".to_string() });
    let s = t.span();
    assert_eq!((s.line, s.col, s.fragment.as_str()), (3, 9, "def"));
    let t = Token::Symbol(Span { line: 1, col: 2, fragment: "(".to_string() });
    assert_eq!(t.span().fragment, "(");
}
