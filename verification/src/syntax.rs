//! Parsing Rust source text with `syn`, and the token text of what was
//! parsed.

use quote::ToTokens;
use vstd::prelude::*;

verus! {

/// A Rust source file as `syn` parses it.
#[verifier::external_type_specification]
#[verifier::external_body]
pub struct ExSynFile(syn::File);

/// The error `syn` reports for text it cannot parse.
#[verifier::external_type_specification]
#[verifier::external_body]
pub struct ExSynError(syn::Error);

/// Whether `syn::parse_file` accepts `content` as a Rust source file.
pub uninterp spec fn syn_accepts(content: Seq<char>) -> bool;

/// The text of the token stream of the file that `syn::parse_file` reads
/// from `content`, printed by `to_string`.
pub uninterp spec fn syn_token_text(content: Seq<char>) -> Seq<char>;

/// A file that `syn` parsed, together with the text it was parsed from.
pub struct ParsedFile {
    file: syn::File,
    source: Ghost<Seq<char>>,
}

impl View for ParsedFile {
    /// The source text the file was parsed from.
    type V = Seq<char>;

    closed spec fn view(&self) -> Seq<char> {
        self.source@
    }
}

/// `syn::parse_file`: parses a whole Rust source file. The contract claims
/// that it succeeds exactly on the texts that `syn_accepts`, which, being
/// a function of the text alone, is all the claim says; which texts those
/// are is left to `syn`'s grammar and not stated.
#[verifier::external_body]
pub(crate) fn parse_file(content: &str) -> (r: Result<ParsedFile, syn::Error>)
    ensures
        r is Ok <==> syn_accepts(content@),
        r matches Ok(f) ==> f@ == content@,
{
    match syn::parse_file(content) {
        Ok(file) => Ok(ParsedFile { file, source: Ghost(content@) }),
        Err(e) => Err(e),
    }
}

/// `ToTokens::to_token_stream` on a parsed file, printed with `to_string`.
/// The contract claims only that the text depends on nothing but the
/// source the file was parsed from; what the text is is not stated.
#[verifier::external_body]
pub(crate) fn token_text(file: &ParsedFile) -> (s: String)
    ensures
        s@ == syn_token_text(file@),
{
    file.file.to_token_stream().to_string()
}

} // verus!
