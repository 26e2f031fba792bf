//! Generation of bindings to a dynamically loaded library.
//!
//! Given the text of a set of foreign declarations (as produced by a header
//! front end), the library extracts every foreign function signature together
//! with the constant, struct and type-alias items, and emits a self-contained
//! module in which each foreign function is reached through a lazily resolved
//! global pointer slot instead of a static link.

pub mod bundle;
pub mod generator;
pub mod glue;
pub mod lex;
pub mod parse;

use vstd::prelude::*;

verus! {

/// How a generation run is configured: the loading strategy decides the shape
/// of the emitted loader, and `use_rust_fmt` asks the caller's tooling to
/// pretty-print the emitted text (it has no effect on what the text means).
#[derive(Debug, Clone)]
pub struct Config {
    pub loading_strategy: bundle::LoadingStrategy,
    pub use_rust_fmt: bool,
}

/// Everything that can go wrong during a generation run.
#[derive(Debug, PartialEq, Eq, Structural)]
pub enum Error {
    /// The declaration text could not be parsed under the declaration grammar.
    Malformed,
    /// The chosen strategy embeds a file-backed bundle whose bytes have not
    /// been read; the caller must supply the payload as raw bytes.
    BundleFileUnread,
}

/// The emitted text of a generation run: the rendered module of the
/// extraction result under the chosen strategy. Meaningful when the
/// declaration text parses and the strategy does not embed a file-backed
/// bundle.
pub open spec fn spec_generated_text(code: Seq<char>, st: bundle::StrategyModel) -> Seq<char> {
    generator::spec_render_items(
        generator::spec_module(st, parse::spec_parse(code).unwrap()),
    )
}

/// Generates the bindings module for a declaration text.
///
/// The text is extracted under the declaration grammar and the module is
/// emitted for the configured strategy. Fails with [`Error::Malformed`]
/// exactly when the text does not parse, and with [`Error::BundleFileUnread`]
/// exactly when the text parses but the strategy embeds a file-backed bundle
/// whose bytes were never supplied. The emitted text depends only on the
/// declaration text and the strategy; the pretty-print flag never changes it.
pub fn generate_from_source(code: &str, config: &Config) -> (r: Result<String, Error>)
    ensures
        match r {
            Ok(t) => parse::spec_parse(code@) is Some && !generator::strategy_file_backed(
                config.loading_strategy@,
            ) && t@ == spec_generated_text(code@, config.loading_strategy@),
            Err(e) => (e == Error::Malformed && parse::spec_parse(code@) is None) || (e
                == Error::BundleFileUnread && parse::spec_parse(code@) is Some
                && generator::strategy_file_backed(config.loading_strategy@)),
        },
{
    let parsed = match parse::parse(code) {
        Ok(p) => p,
        Err(e) => {
            return Err(e);
        },
    };
    let module = match generator::generate_bindings_module(&config.loading_strategy, &parsed) {
        Ok(m) => m,
        Err(e) => {
            return Err(e);
        },
    };
    Ok(module.render())
}

/// Generation is deterministic: two runs from the same declaration text and
/// the same strategy emit the same text, whatever the pretty-print setting
/// of either run — pretty-printing never reaches the emitted content.
pub proof fn lemma_generation_deterministic(
    code: Seq<char>,
    st: bundle::StrategyModel,
    r1: Seq<char>,
    r2: Seq<char>,
)
    requires
        r1 == spec_generated_text(code, st),
        r2 == spec_generated_text(code, st),
    ensures
        r1 == r2,
{
}

} // verus!
