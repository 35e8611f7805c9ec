use uno_lang::expr_parser;
use uno_lang::serialize::{expr_to_source, func_to_source, module_to_source};

#[test]
fn roundtrip_expr_test() {
    let parsed = expr_parser::expr("hello(1, \"world\", some_id, 0x1_f, 0b01)")
        .expect("should parse the call");
    let printed = expr_to_source(&parsed);
    assert_eq!(printed, "hello(1, \"world\", some_id, 0x1_f, 0b01)");
    let reparsed = expr_parser::expr(&printed).expect("should re-parse its own output");
    assert_eq!(reparsed, parsed);
}

#[test]
fn roundtrip_func_test() {
    // Whitespace is normalized; the tree is preserved.
    let parsed = expr_parser::func("fn main(argc i64,  argv i64)    i64    {\n\n  return f(argc)\n\n}\n")
        .expect("should parse the declaration");
    let printed = func_to_source(&parsed);
    assert_eq!(printed, "fn main(argc i64, argv i64) i64 {\nreturn f(argc)\n}\n");
    let reparsed = expr_parser::func(&printed).expect("should re-parse its own output");
    assert_eq!(reparsed, parsed);
}

#[test]
fn roundtrip_module_test() {
    let code = "\nfn one() {\nreturn\n}\n fn two() i64 {\nreturn one()\n}\n";
    let parsed = expr_parser::statements(code).expect("should parse the unit");
    let printed = module_to_source(&parsed);
    let reparsed = expr_parser::statements(&printed).expect("should re-parse its own output");
    assert_eq!(reparsed, parsed);
    // Serializing a second time is the identity on the text as well.
    assert_eq!(module_to_source(&reparsed), printed);
}

#[test]
fn roundtrip_nested_func_test() {
    let code = "fn outer() i64 {\nfn inner(x i64) {\nreturn\n}\nreturn g(\"s\", 2)\n}\n";
    let parsed = expr_parser::func(code).expect("should parse nested declarations");
    let printed = func_to_source(&parsed);
    assert_eq!(printed, code);
    let reparsed = expr_parser::func(&printed).expect("should re-parse its own output");
    assert_eq!(reparsed, parsed);
}
