use uno_lang::ast::{Expression, Func, Statement, UType};
use uno_lang::expr_parser;

#[test]
fn str_const_test() {
    assert_eq!(
        expr_parser::str_const("\"\"").expect("should parse empty string"),
        Expression::StrConst("".to_owned())
    );
    assert_eq!(
        expr_parser::str_const("\"hi\"").expect("should parse non-empty string"),
        Expression::StrConst("hi".to_owned())
    );
}

#[test]
fn n_const_test() {
    assert!(
        expr_parser::n_const("hello").is_err(),
        "should not match if input is not a numerical constant"
    );
    // decimal
    assert_eq!(
        expr_parser::n_const("01235").expect("should capture decimal number"),
        Expression::NConst("01235".to_owned())
    );
    assert_eq!(
        expr_parser::n_const("1_235_000").expect("should capture decimal number with separator"),
        Expression::NConst("1_235_000".to_owned())
    );
    // hexadecimal
    assert_eq!(
        expr_parser::n_const("0x12_3456_789abc_defAB_CDEF")
            .expect("should capture hexadecimal number"),
        Expression::NConst("0x12_3456_789abc_defAB_CDEF".to_owned())
    );
    // binary
    assert_eq!(
        expr_parser::n_const("0b011_111").expect("should capture binary number"),
        Expression::NConst("0b011_111".to_owned())
    );
    assert!(
        expr_parser::n_const("0b0121_111").is_err(),
        "should not match malformed binary number"
    );
}

#[test]
fn ident_test() {
    assert!(
        expr_parser::ident("1abd").is_err(),
        "should not match non-ident string"
    );
    assert_eq!(
        expr_parser::ident("$askd12").expect("should match ident"),
        "$askd12"
    );
}

#[test]
fn type_test() {
    assert!(
        expr_parser::type_("i1").is_err(),
        "should not match non-type content"
    );
    assert_eq!(
        expr_parser::type_("i64").expect("should match i64 type"),
        UType::I64
    );
}

#[test]
fn func_test() {
    assert!(
        expr_parser::func("fn () {}\n").is_err(),
        "should not match a non-func expression"
    );

    assert_eq!(
        expr_parser::func("fn main() {}\n")
            .expect("should match function with empty body and no return type"),
        Func {
            name: "main".to_owned(),
            args: vec![],
            ret: UType::Nothing,
            body: vec![]
        }
    );
    assert_eq!(
        expr_parser::func("fn main()       i64    {\n\n\t\t}\n")
            .expect("should match function with empty body"),
        Func {
            name: "main".to_owned(),
            args: vec![],
            ret: UType::I64,
            body: vec![]
        }
    );
    assert_eq!(
        expr_parser::func("fn main() i64 {\nreturn 12\n}\n")
            .expect("should match function with return"),
        Func {
            name: "main".to_owned(),
            args: vec![],
            ret: UType::I64,
            body: vec![Statement::Return(Some(Expression::NConst("12".to_owned())))]
        }
    );
}

#[test]
fn func_call_test() {
    assert_eq!(
        expr_parser::func_call("hello(1, \"world\", some_id)").expect("should match function call"),
        Expression::FuncCall {
            fn_name: "hello".to_owned(),
            args: vec![
                Expression::NConst("1".to_owned()),
                Expression::StrConst("world".to_owned()),
                Expression::Ident("some_id".to_owned())
            ]
        }
    );
    assert_eq!(
        expr_parser::expr("hello(1, \"world\")").expect("should match function call expression"),
        Expression::FuncCall {
            fn_name: "hello".to_owned(),
            args: vec![
                Expression::NConst("1".to_owned()),
                Expression::StrConst("world".to_owned())
            ]
        }
    );
    assert_eq!(
        expr_parser::func_call("hello(\"world\")").expect("should match function call"),
        Expression::FuncCall {
            fn_name: "hello".to_owned(),
            args: vec![Expression::StrConst("world".to_owned())]
        }
    );
    // A call expression starts with the callee name itself; a whole return
    // statement is not a call.
    assert!(
        expr_parser::func_call("return hello(\"world\")\n").is_err(),
        "should not match a return statement as a call"
    );
}

#[test]
fn empty_numeric_atom_test() {
    // At the atom level the decimal alternative accepts the empty run.
    assert_eq!(
        expr_parser::n_const("").expect("should capture empty decimal number"),
        Expression::NConst("".to_owned())
    );
    // A bare radix prefix is a legal (empty-digit) literal of its radix.
    assert_eq!(
        expr_parser::n_const("0x").expect("should capture bare hex prefix"),
        Expression::NConst("0x".to_owned())
    );
    // As an expression, the empty numeric match is rejected.
    assert!(
        expr_parser::expr("").is_err(),
        "empty input is not an expression"
    );
}

#[test]
fn n_const_radix_rules_test() {
    assert!(
        expr_parser::n_const_dec("0x12").is_err(),
        "the lookahead bars a decimal from a radix prefix"
    );
    assert_eq!(
        expr_parser::n_const_dec("00_1").expect("should capture decimal"),
        Expression::NConst("00_1".to_owned())
    );
    assert_eq!(
        expr_parser::n_const_hex("0xfF_1").expect("should capture hex"),
        Expression::NConst("0xfF_1".to_owned())
    );
    assert!(
        expr_parser::n_const_hex("0b11").is_err(),
        "hex requires the 0x prefix"
    );
    assert_eq!(
        expr_parser::n_const_bin("0b0_1").expect("should capture binary"),
        Expression::NConst("0b0_1".to_owned())
    );
    assert!(
        expr_parser::n_const_bin("0b2").is_err(),
        "2 is not a binary digit"
    );
    assert!(
        expr_parser::n_const("0xg").is_err(),
        "a malformed hex literal does not degrade to decimal"
    );
}

#[test]
fn ident_expr_priority_test() {
    // An underscore-led name is claimed by the decimal alternative first.
    assert_eq!(
        expr_parser::expr("_12").expect("underscores are decimal characters"),
        Expression::NConst("_12".to_owned())
    );
    assert_eq!(
        expr_parser::ident_expr("_12").expect("the bare identifier rule still takes it"),
        Expression::Ident("_12".to_owned())
    );
    assert_eq!(
        expr_parser::expr("\"0x1\"").expect("a quoted literal is a string"),
        Expression::StrConst("0x1".to_owned())
    );
    assert_eq!(
        expr_parser::expr("hello").expect("a bare name is an identifier"),
        Expression::Ident("hello".to_owned())
    );
}

#[test]
fn return_forms_test() {
    // Bare return and value return, inside a declaration body.
    assert_eq!(
        expr_parser::func("fn f() {\nreturn\n}\n").expect("bare return"),
        Func {
            name: "f".to_owned(),
            args: vec![],
            ret: UType::Nothing,
            body: vec![Statement::Return(None)]
        }
    );
    assert_eq!(
        expr_parser::func("fn f() {\nreturn hi(2)\n}\n").expect("value return"),
        Func {
            name: "f".to_owned(),
            args: vec![],
            ret: UType::Nothing,
            body: vec![Statement::Return(Some(Expression::FuncCall {
                fn_name: "hi".to_owned(),
                args: vec![Expression::NConst("2".to_owned())]
            }))]
        }
    );
    // A return statement is terminated by a newline.
    assert!(
        expr_parser::func("fn f() {\nreturn 1}\n").is_err(),
        "a return must end with a newline"
    );
}

#[test]
fn func_args_test() {
    assert_eq!(
        expr_parser::func("fn main(argc i64, argv i64) i64 {\nreturn 0\n}\n")
            .expect("should match function with arguments"),
        Func {
            name: "main".to_owned(),
            args: vec![
                ("argc".to_owned(), UType::I64),
                ("argv".to_owned(), UType::I64)
            ],
            ret: UType::I64,
            body: vec![Statement::Return(Some(Expression::NConst("0".to_owned())))]
        }
    );
    assert!(
        expr_parser::func("fn main(argc) {}\n").is_err(),
        "an argument needs a type"
    );
}

#[test]
fn statements_module_test() {
    let code = "\n    fn main(argc i64, argv i64) i64 {\n        return 0\n    }\n";
    let module = expr_parser::statements(code).expect("should parse a whole source unit");
    assert_eq!(
        module,
        vec![Statement::FuncDecl(Func {
            name: "main".to_owned(),
            args: vec![
                ("argc".to_owned(), UType::I64),
                ("argv".to_owned(), UType::I64)
            ],
            ret: UType::I64,
            body: vec![Statement::Return(Some(Expression::NConst("0".to_owned())))]
        })]
    );
    // Blank lines at the top level are dropped.
    assert_eq!(
        expr_parser::statements("\n\n\t\n").expect("blank lines form an empty unit"),
        vec![]
    );
    // All-or-nothing: trailing content fails the whole parse.
    assert!(
        expr_parser::statements("fn f() {}\nxyz").is_err(),
        "unmatched trailing content is a failure"
    );
}

#[test]
fn call_argument_shapes_test() {
    // Zero arguments, and no trailing comma.
    assert_eq!(
        expr_parser::func_call("f()").expect("empty argument list"),
        Expression::FuncCall {
            fn_name: "f".to_owned(),
            args: vec![]
        }
    );
    assert!(
        expr_parser::func_call("f(1,)").is_err(),
        "trailing commas are not permitted"
    );
    // Nested calls keep their order.
    assert_eq!(
        expr_parser::expr("g(h(1), 2)").expect("nested call"),
        Expression::FuncCall {
            fn_name: "g".to_owned(),
            args: vec![
                Expression::FuncCall {
                    fn_name: "h".to_owned(),
                    args: vec![Expression::NConst("1".to_owned())]
                },
                Expression::NConst("2".to_owned())
            ]
        }
    );
}
