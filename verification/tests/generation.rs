use dyn_bindgen::Config;
use dyn_bindgen::Error;
use dyn_bindgen::bundle::Bundle;
use dyn_bindgen::bundle::LoadingStrategy;
use dyn_bindgen::generate_from_source;

fn foreign_kw() -> String {
    String::from("ext") + "ern"
}

fn add_sub_decls() -> String {
    let kw = foreign_kw();
    format!(
        "{kw} \"C\" {{\n\
             pub fn add(a: i32, b: i32) -> i32;\n\
             pub fn sub(a: i32, b: i32) -> i32;\n\
         }}\n"
    )
}

fn count(haystack: &str, needle: &str) -> usize {
    haystack.matches(needle).count()
}

#[test]
fn each_function_gets_one_type_one_slot_and_a_wrapper_pair() {
    let config = Config { loading_strategy: LoadingStrategy::Manual, use_rust_fmt: false };
    let text = generate_from_source(&add_sub_decls(), &config).unwrap();

    for name in ["add", "sub"] {
        assert_eq!(count(&text, &format!("type {name}_fn = unsafe ")), 1);
        assert_eq!(count(&text, &format!("static mut {name}_ptr: *const {name}_fn")), 1);
        assert_eq!(count(&text, &format!("\"C\" fn {name}(a: i32, b: i32) -> i32")), 2);
    }
    assert_eq!(count(&text, "#[cfg(debug_assertions)]"), 2);
    assert_eq!(count(&text, "#[cfg(not(debug_assertions))]"), 2);
}

#[test]
fn checked_wrapper_names_the_function_in_its_failure_message() {
    let config = Config { loading_strategy: LoadingStrategy::Manual, use_rust_fmt: false };
    let text = generate_from_source(&add_sub_decls(), &config).unwrap();
    assert!(text.contains("attempt to call 'add' but it has not been loaded from it's library."));
    assert!(text.contains("attempt to call 'sub' but it has not been loaded from it's library."));
}

#[test]
fn each_declared_function_gets_an_independent_resolution_entry() {
    // One resolution statement per declared name, each tolerating failure on
    // its own, so a symbol missing from the library only disables that one
    // function.
    let kw = foreign_kw();
    let code = format!(
        "{kw} \"C\" {{\n\
             pub fn add(a: i32, b: i32) -> i32;\n\
             pub fn not_in_library() -> i32;\n\
         }}\n"
    );
    let config = Config { loading_strategy: LoadingStrategy::Manual, use_rust_fmt: false };
    let text = generate_from_source(&code, &config).unwrap();
    assert_eq!(count(&text, "match lib.get::<crate::add_fn>(\"add\".as_bytes())"), 1);
    assert_eq!(
        count(
            &text,
            "match lib.get::<crate::not_in_library_fn>(\"not_in_library\".as_bytes())"
        ),
        1
    );
    assert_eq!(count(&text, "Err(_e) => {}"), 2);
}

#[test]
fn manual_strategy_exposes_a_path_loader() {
    let config = Config { loading_strategy: LoadingStrategy::Manual, use_rust_fmt: false };
    let text = generate_from_source(&add_sub_decls(), &config).unwrap();
    assert!(text.contains("pub use glue::*;"));
    assert!(text.contains("pub unsafe fn load<P: AsRef<std::path::Path>>(library: P)"));
    assert!(!text.contains("fn load_bundle()"));
    assert!(!text.contains("IMPLICIT_DYN_BINDGEN_LOADER"));
}

#[test]
fn manual_bundle_strategy_exposes_a_zero_argument_loader() {
    let config = Config {
        loading_strategy: LoadingStrategy::ManuallyLoadedBundle(Bundle::RawBytes(vec![1, 2, 3])),
        use_rust_fmt: false,
    };
    let text = generate_from_source(&add_sub_decls(), &config).unwrap();
    assert!(text.contains("pub use glue::*;"));
    assert!(text.contains("pub unsafe fn load_bundle()"));
    assert!(text.contains("const BUNDLE_BYTES: &[u8] = &[1, 2, 3];"));
    assert!(!text.contains("IMPLICIT_DYN_BINDGEN_LOADER"));
}

#[test]
fn implicit_bundle_strategy_exposes_no_callable_loader() {
    let config = Config {
        loading_strategy: LoadingStrategy::ImplicitlyLoadedBundle(Bundle::RawBytes(vec![9])),
        use_rust_fmt: false,
    };
    let text = generate_from_source(&add_sub_decls(), &config).unwrap();
    assert!(text.contains("IMPLICIT_DYN_BINDGEN_LOADER"));
    assert!(text.contains(".init_array"));
    assert!(text.contains("__DATA,__mod_init_func"));
    assert!(text.contains(".CRT$XCU"));
    assert!(!text.contains("pub use glue::*;"));
    assert!(!text.contains("pub unsafe fn load"));
}

#[test]
fn embedded_bundle_is_named_by_its_content_hash() {
    let payload: Vec<u8> = vec![0, 1, 255];
    let expected_hash = hex::encode(*md5::compute(payload.as_slice()));
    let bundle = Bundle::RawBytes(payload);
    let (constant, hash) = bundle.create_bundle_constant().unwrap();
    assert_eq!(constant, "0, 1, 255");
    assert_eq!(hash, expected_hash);

    let config = Config {
        loading_strategy: LoadingStrategy::ManuallyLoadedBundle(bundle),
        use_rust_fmt: false,
    };
    let text = generate_from_source(&add_sub_decls(), &config).unwrap();
    assert!(text.contains(&format!("path.push(\"bundle.{expected_hash}.module\");")));
}

#[test]
fn empty_payload_hash_matches_the_known_digest() {
    let bundle = Bundle::RawBytes(Vec::new());
    let (constant, hash) = bundle.create_bundle_constant().unwrap();
    assert_eq!(constant, "");
    assert_eq!(hash, "d41d8cd98f00b204e9800998ecf8427e");
}

#[test]
fn file_backed_bundle_must_be_read_by_the_caller_first() {
    let bundle = Bundle::File(String::from("/nowhere/libm.so"));
    assert!(matches!(bundle.create_bundle_constant(), Err(Error::BundleFileUnread)));

    let config = Config {
        loading_strategy: LoadingStrategy::ImplicitlyLoadedBundle(Bundle::File(String::from(
            "x.so",
        ))),
        use_rust_fmt: false,
    };
    let r = generate_from_source(&add_sub_decls(), &config);
    assert!(matches!(r, Err(Error::BundleFileUnread)));
}

#[test]
fn pass_through_items_precede_function_artifacts() {
    let kw = foreign_kw();
    let code = format!(
        "pub const K: u32 = 1;\n\
         {kw} \"C\" {{ pub fn touch(); }}\n"
    );
    let config = Config { loading_strategy: LoadingStrategy::Manual, use_rust_fmt: false };
    let text = generate_from_source(&code, &config).unwrap();
    let const_at = text.find("pub const K: u32 = 1;").unwrap();
    let type_at = text.find("type touch_fn").unwrap();
    assert!(const_at < type_at);
}

#[test]
fn generation_is_deterministic_for_equal_inputs() {
    let code = add_sub_decls();
    let first = generate_from_source(
        &code,
        &Config { loading_strategy: LoadingStrategy::Manual, use_rust_fmt: false },
    )
    .unwrap();
    let second = generate_from_source(
        &code,
        &Config { loading_strategy: LoadingStrategy::Manual, use_rust_fmt: true },
    )
    .unwrap();
    assert_eq!(first, second);
}

#[test]
fn test_dyn_bindings() {
    let kw = foreign_kw();
    // The declarations that the header `add.h` with contents
    // `int add(int a, int b);int sub(int a, int b);` turns into, bound
    // against an embedded 32-byte bundle, loaded implicitly before entry.
    let decls = format!(
        "{kw} \"C\" {{\n\
             pub fn add(a: ::std::os::raw::c_int, b: ::std::os::raw::c_int) -> ::std::os::raw::c_int;\n\
             pub fn sub(a: ::std::os::raw::c_int, b: ::std::os::raw::c_int) -> ::std::os::raw::c_int;\n\
         }}\n"
    );
    let bundle = Bundle::RawBytes(vec![0u8; 32]);
    let config = Config {
        loading_strategy: LoadingStrategy::ImplicitlyLoadedBundle(bundle),
        use_rust_fmt: true,
    };
    let generated = generate_from_source(&decls, &config).unwrap();

    println!("{}", generated);
}
