//! The generated source as a token stream.
//!
//! The generator's own result is plain source text; these functions hand it
//! on in the token-stream form that a macro expansion wants.

use vstd::prelude::*;

use crate::gen_entity::{entity_code_spec, secs_impl_entity};
use crate::gen_system::{
    arg_names_of, parsed_signature, secs_system, sig_extras, wrapper_code_spec,
};
use crate::parse::{spec_parse_component_list, spec_parse_system_attributes};

verus! {

#[verifier::external_type_specification]
#[verifier::external_body]
pub struct ExTokenStream(proc_macro2::TokenStream);

/// Whether source text lexes as a token stream.
pub uninterp spec fn source_lexes(code: Seq<char>) -> bool;

/// Relies on proc-macro2's `FromStr` for `TokenStream`: turns source text
/// into a token stream, failing exactly when the text does not lex.
/// Whether it lexes is a function of the text alone, decided by
/// proc-macro2's own lexer: this library runs outside a macro expansion,
/// so no host compiler is consulted.
#[verifier::external_body]
fn lex_source(code: &str) -> (r: Option<proc_macro2::TokenStream>)
    ensures
        r is Some <==> source_lexes(code@),
{
    match code.parse() {
        Ok(t) => Some(t),
        Err(_) => None,
    }
}

/// The entity declaration for a component list, as a token stream.
pub fn entity_tokens(input: &str) -> (r: Option<proc_macro2::TokenStream>)
    ensures
        r is Some <==> (spec_parse_component_list(input@) matches Some(names) && source_lexes(
            entity_code_spec(names),
        )),
{
    match secs_impl_entity(input) {
        Err(_) => None,
        Ok(code) => lex_source(code.as_str()),
    }
}

/// A system's source followed by its dispatch wrapper, as a token stream.
pub fn system_tokens(attr: &str, fn_source: &str) -> (r: Option<proc_macro2::TokenStream>)
    ensures
        r is Some <==> (spec_parse_system_attributes(attr@) matches Some(attrs)
            && parsed_signature(fn_source@) matches Some(sig) && arg_names_of(
            sig_extras(sig),
        ) is Some && source_lexes(fn_source@ + "\n"@ + wrapper_code_spec(attrs, sig))),
{
    match secs_system(attr, fn_source) {
        Err(_) => None,
        Ok(code) => lex_source(code.as_str()),
    }
}

} // verus!
