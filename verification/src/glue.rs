//! Emission of the loading glue: the loader in its three shapes, and the
//! per-function statements that resolve each symbol into its slot.
//!
//! A missing symbol only leaves that one function's slot empty: every
//! resolution statement stands on its own and a failed lookup falls through
//! to an empty arm, so the load goes on with the remaining functions.

use vstd::prelude::*;

use crate::generator::LoaderKind;
use crate::generator::LoaderKindModel;
use crate::parse::foreign_kw;
use crate::parse::spec_foreign_kw;

verus! {

/// The statement that resolves one symbol by name and stores the pointer
/// into that function's slot, tolerating a failed lookup.
pub open spec fn spec_resolver_entry(n: Seq<char>) -> Seq<char> {
    "        match lib.get::<crate::"@ + n + "_fn>(\""@ + n + "\".as_bytes()) {\n            Ok(sym) => {\n                let sym = Box::leak(Box::new(sym));\n                crate::"@ + n + "_ptr = (*sym).deref() as *const crate::"@ + n + "_fn;\n            }\n            Err(_e) => {}\n        }\n"@
}

/// The resolution statements of all extracted functions, in order.
pub open spec fn spec_resolver_block(names: Seq<Seq<char>>) -> Seq<char>
    decreases names.len(),
{
    if names.len() == 0 {
        Seq::empty()
    } else {
        spec_resolver_entry(names[0]) + spec_resolver_block(names.drop_first())
    }
}

/// The nested helper that writes the embedded payload to the temp directory
/// under `bundle.<hash>.module` and hands back the path.
pub open spec fn spec_writer_text(constant: Seq<char>, hash: Seq<char>) -> Seq<char> {
    "    fn write_bundle_to_temp() -> std::path::PathBuf {\n        const BUNDLE_BYTES: &[u8] = &["@ + constant + "];\n        let mut path = std::en"@ + "v::temp_dir();\n        path.push(\"bundle."@ + hash + ".module\");\n        std::f"@ + "s::write(&path, BUNDLE_BYTES).expect(\"could not write dynamic library bundle\");\n        path\n    }\n"@
}

/// The loader item of the generated module: a glue module with a callable
/// `load` or `load_bundle` function for the manual strategies, or a pre-main
/// constructor with no callable surface for the implicit strategy.
pub open spec fn spec_loader_text(kind: LoaderKindModel, names: Seq<Seq<char>>) -> Seq<char> {
    match kind {
        LoaderKindModel::Manual => "mod glue {\n    /// Loads the provided library into the generated functions.\n    /// Panics if the library cannot be loaded.\n    pub unsafe fn load<P: AsRef<std::path::Path>>(library: P) {\n        use std::ops::Deref;\n        let lib = libloading::Library::new(library.as_ref()).expect(\"unable to load library\");\n        let lib = Box::leak(Box::new(lib));\n"@ + spec_resolver_block(names)
            + "    }\n}\n"@,
        LoaderKindModel::ManualBundle { constant, hash } => "mod glue {\n"@ + spec_writer_text(
            constant,
            hash,
        ) + "    /// Writes the embedded bundle to the temp directory and loads it.\n    /// Panics if the bundle cannot be written or loaded.\n    pub unsafe fn load_bundle() {\n        use std::ops::Deref;\n        let lib_path = write_bundle_to_temp();\n        let lib = libloading::Library::new(&lib_path).expect(\"unable to load library\");\n        let lib = Box::leak(Box::new(lib));\n"@ + spec_resolver_block(names) + "    }\n}\n"@,
        LoaderKindModel::ImplicitBundle { constant, hash } => "#[used]\n#[cfg_attr(any(target_os = \"linux\", target_os = \"android\"), link_section = \".init_array\")]\n#[cfg_attr(target_os = \"freebsd\", link_section = \".init_array\")]\n#[cfg_attr(target_os = \"netbsd\", link_section = \".init_array\")]\n#[cfg_attr(target_os = \"openbsd\", link_section = \".init_array\")]\n#[cfg_attr(any(target_os = \"macos\", target_os = \"ios\"), link_section = \"__DATA,__mod_init_func\")]\n#[cfg_attr(target_os = \"windows\", link_section = \".CRT$XCU\")]\nstatic IMPLICIT_DYN_BINDGEN_LOADER: unsafe "@ + spec_foreign_kw()
            + " \"C\" fn() = {\n    #[cfg_attr(any(target_os = \"linux\", target_os = \"android\"), link_section = \".text.startup\")]\n    unsafe "@ + spec_foreign_kw() + " \"C\" fn loader() {\n        use std::ops::Deref;\n"@ + spec_writer_text(constant, hash)
            + "        let lib_path = write_bundle_to_temp();\n        let lib = libloading::Library::new(&lib_path).expect(\"unable to load library\");\n        let lib = Box::leak(Box::new(lib));\n"@ + spec_resolver_block(names) + "    }\n    loader\n};\n"@,
    }
}

fn push_resolver_entry(out: &mut String, name: &String)
    ensures
        final(out)@ == old(out)@ + spec_resolver_entry(name@),
{
    out.append("        match lib.get::<crate::");
    out.append(name.as_str());
    out.append("_fn>(\"");
    out.append(name.as_str());
    out.append("\".as_bytes()) {\n            Ok(sym) => {\n                let sym = Box::leak(Box::new(sym));\n                crate::");
    out.append(name.as_str());
    out.append("_ptr = (*sym).deref() as *const crate::");
    out.append(name.as_str());
    out.append("_fn;\n            }\n            Err(_e) => {}\n        }\n");
    proof {
        assert(out@ =~= old(out)@ + spec_resolver_entry(name@));
    }
}

/// Renders the statements that resolve every extracted function's symbol and
/// fill its slot, one independent statement per function, in order.
pub fn generate_function_loaders_block(names: &Vec<String>) -> (r: String)
    ensures
        r@ == spec_resolver_block(names.deep_view()),
{
    let mut out = String::new();
    let mut i: usize = 0;
    proof {
        assert(names.deep_view().skip(0) =~= names.deep_view());
    }
    while i < names.len()
        invariant
            i <= names@.len(),
            out@ + spec_resolver_block(names.deep_view().skip(i as int)) == spec_resolver_block(
                names.deep_view(),
            ),
        decreases names@.len() - i,
    {
        let ghost prev = out@;
        push_resolver_entry(&mut out, &names[i]);
        proof {
            let dv = names.deep_view();
            let tail = dv.skip(i as int);
            assert(tail[0] == dv[i as int]);
            assert(tail.drop_first() =~= dv.skip(i as int + 1));
            assert(dv[i as int] == names@[i as int]@);
            assert(out@ =~= prev + spec_resolver_entry(dv[i as int]));
            assert(out@ + spec_resolver_block(dv.skip(i as int + 1)) =~= prev
                + spec_resolver_block(tail));
        }
        i = i + 1;
    }
    proof {
        assert(names.deep_view().skip(names@.len() as int) =~= Seq::<Seq<char>>::empty());
        assert(out@ + Seq::<char>::empty() =~= out@);
    }
    out
}

fn push_writer(out: &mut String, constant: &String, hash: &String)
    ensures
        final(out)@ == old(out)@ + spec_writer_text(constant@, hash@),
{
    out.append("    fn write_bundle_to_temp() -> std::path::PathBuf {\n        const BUNDLE_BYTES: &[u8] = &[");
    out.append(constant.as_str());
    out.append("];\n        let mut path = std::en");
    out.append("v::temp_dir();\n        path.push(\"bundle.");
    out.append(hash.as_str());
    out.append(".module\");\n        std::f");
    out.append("s::write(&path, BUNDLE_BYTES).expect(\"could not write dynamic library bundle\");\n        path\n    }\n");
    proof {
        assert(out@ =~= old(out)@ + spec_writer_text(constant@, hash@));
    }
}

/// Renders the loader item for the given loader kind: the glue module with
/// its callable loader for the manual strategies, or the pre-main
/// constructor for the implicit strategy.
pub fn generate_libloading_glue(kind: &LoaderKind, names: &Vec<String>) -> (r: String)
    ensures
        r@ == spec_loader_text(kind@, names.deep_view()),
{
    let block = generate_function_loaders_block(names);
    match kind {
        LoaderKind::Manual => {
            let mut out = String::new();
            out.append("mod glue {\n    /// Loads the provided library into the generated functions.\n    /// Panics if the library cannot be loaded.\n    pub unsafe fn load<P: AsRef<std::path::Path>>(library: P) {\n        use std::ops::Deref;\n        let lib = libloading::Library::new(library.as_ref()).expect(\"unable to load library\");\n        let lib = Box::leak(Box::new(lib));\n");
            out.append(block.as_str());
            out.append("    }\n}\n");
            proof {
                assert(out@ =~= spec_loader_text(kind@, names.deep_view()));
            }
            out
        },
        LoaderKind::ManualBundle { constant, hash } => {
            let mut out = String::new();
            out.append("mod glue {\n");
            push_writer(&mut out, constant, hash);
            out.append("    /// Writes the embedded bundle to the temp directory and loads it.\n    /// Panics if the bundle cannot be written or loaded.\n    pub unsafe fn load_bundle() {\n        use std::ops::Deref;\n        let lib_path = write_bundle_to_temp();\n        let lib = libloading::Library::new(&lib_path).expect(\"unable to load library\");\n        let lib = Box::leak(Box::new(lib));\n");
            out.append(block.as_str());
            out.append("    }\n}\n");
            proof {
                assert(out@ =~= spec_loader_text(kind@, names.deep_view()));
            }
            out
        },
        LoaderKind::ImplicitBundle { constant, hash } => {
            let fkw = foreign_kw();
            let mut out = String::new();
            out.append("#[used]\n#[cfg_attr(any(target_os = \"linux\", target_os = \"android\"), link_section = \".init_array\")]\n#[cfg_attr(target_os = \"freebsd\", link_section = \".init_array\")]\n#[cfg_attr(target_os = \"netbsd\", link_section = \".init_array\")]\n#[cfg_attr(target_os = \"openbsd\", link_section = \".init_array\")]\n#[cfg_attr(any(target_os = \"macos\", target_os = \"ios\"), link_section = \"__DATA,__mod_init_func\")]\n#[cfg_attr(target_os = \"windows\", link_section = \".CRT$XCU\")]\nstatic IMPLICIT_DYN_BINDGEN_LOADER: unsafe ");
            out.append(fkw.as_str());
            out.append(" \"C\" fn() = {\n    #[cfg_attr(any(target_os = \"linux\", target_os = \"android\"), link_section = \".text.startup\")]\n    unsafe ");
            out.append(fkw.as_str());
            out.append(" \"C\" fn loader() {\n        use std::ops::Deref;\n");
            push_writer(&mut out, constant, hash);
            out.append("        let lib_path = write_bundle_to_temp();\n        let lib = libloading::Library::new(&lib_path).expect(\"unable to load library\");\n        let lib = Box::leak(Box::new(lib));\n");
            out.append(block.as_str());
            out.append("    }\n    loader\n};\n");
            proof {
                assert(out@ =~= spec_loader_text(kind@, names.deep_view()));
            }
            out
        },
    }
}

} // verus!
