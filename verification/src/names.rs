//! Synthesis of the names that the generated code declares.
//!
//! A component type name is turned into a snake-case field name; the
//! accessor, mutable accessor and presence predicate carry the `mut_` and
//! `has_` prefixes of that field name, and a system's dispatch wrapper
//! carries the `sys_` prefix of the system's own name.

use vstd::prelude::*;
use vstd::string::StringExecFns;

verus! {

/// What the snake-case conversion returns for a given character sequence.
pub uninterp spec fn snake_of(s: Seq<char>) -> Seq<char>;

/// Relies on inflector's `cases::snakecase::to_snake_case`: the result is a
/// function of the input characters alone, and an empty input gives an
/// empty result.
#[verifier::external_body]
fn to_snake_case(s: &str) -> (r: String)
    ensures
        r@ == snake_of(s@),
        s@.len() == 0 ==> r@.len() == 0,
{
    inflector::cases::snakecase::to_snake_case(s)
}

/// The generated field name of a component: its snake-case form.
pub open spec fn field_name_spec(comp: Seq<char>) -> Seq<char> {
    snake_of(comp)
}

/// The generated mutable accessor name of a component.
pub open spec fn mut_name_spec(comp: Seq<char>) -> Seq<char> {
    "mut_"@ + snake_of(comp)
}

/// The generated presence predicate name of a component.
pub open spec fn pred_name_spec(comp: Seq<char>) -> Seq<char> {
    "has_"@ + snake_of(comp)
}

/// The generated dispatch wrapper name of a system.
pub open spec fn sys_name_spec(name: Seq<char>) -> Seq<char> {
    "sys_"@ + name
}

/// Field name of the component named `comp`.
pub fn field_name(comp: &str) -> (r: String)
    ensures
        r@ == field_name_spec(comp@),
{
    to_snake_case(comp)
}

/// Mutable accessor name of the component named `comp`.
pub fn mut_name(comp: &str) -> (r: String)
    ensures
        r@ == mut_name_spec(comp@),
{
    let mut s: String = "mut_".to_owned();
    let f = to_snake_case(comp);
    s.append(f.as_str());
    s
}

/// Presence predicate name of the component named `comp`.
pub fn pred_name(comp: &str) -> (r: String)
    ensures
        r@ == pred_name_spec(comp@),
{
    let mut s: String = "has_".to_owned();
    let f = to_snake_case(comp);
    s.append(f.as_str());
    s
}

/// Dispatch wrapper name of the system named `name`.
pub fn sys_fn_name(name: &str) -> (r: String)
    ensures
        r@ == sys_name_spec(name@),
{
    let mut s: String = "sys_".to_owned();
    s.append(name);
    s
}

} // verus!
