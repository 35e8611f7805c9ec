use uno_lang::uno_parser::{self, Func, Identifier, UnoType};

#[test]
fn test_newline() {
    let code = r#"fn h8(class u32, text u32) u32 {
        }"#;

    assert_eq!(
        uno_parser::func(code).expect("should parse without errors"),
        Func {
            name: Identifier("h8".to_owned()),
            arg_types: vec![UnoType::U32, UnoType::U32],
            arguments: vec![Identifier("class".into()), Identifier("text".into())],
            return_types: vec![UnoType::U32],
            insrs: vec![]
        }
    );
}

#[test]
fn uno_atoms_test() {
    assert!(uno_parser::id("1abd").is_err(), "should not match non-ident");
    assert!(
        uno_parser::id("$a").is_err(),
        "this grammar revision has no dollar sign in identifiers"
    );
    assert_eq!(uno_parser::id("h8").expect("should match ident"), Identifier("h8".to_owned()));
    assert!(uno_parser::type_("u3").is_err(), "should not match non-type");
    assert_eq!(uno_parser::type_("u32").expect("should match u32"), UnoType::U32);
    let (name, ty) = uno_parser::arg(" class u32 ").expect("should match one argument");
    assert_eq!(name, Identifier("class".to_owned()));
    assert_eq!(ty, UnoType::U32);
    let tys = uno_parser::types("u32, u32").expect("should match type list");
    assert_eq!(tys, vec![UnoType::U32, UnoType::U32]);
}

#[test]
fn uno_func_shapes_test() {
    // No arguments and no return types.
    let f = uno_parser::func("fn f() {\n}").expect("empty header");
    assert_eq!(f.name, Identifier("f".to_owned()));
    assert_eq!(f.arg_types, vec![]);
    assert_eq!(f.arguments, vec![]);
    assert_eq!(f.return_types, vec![]);
    assert_eq!(f.insrs, vec![]);
    // The opening brace must be followed directly by a newline.
    assert!(
        uno_parser::func("fn f() { }").is_err(),
        "the brace must be followed by a newline"
    );
}
