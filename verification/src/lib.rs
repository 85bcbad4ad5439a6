//! A tiny entity-component-system code generator, together with a verified
//! instance of the kind of code it emits.
//!
//! The generator turns a list of component type names into the source text of
//! an entity struct with one optional slot per component, plus accessor and
//! presence-predicate methods; and it turns a per-function list of component
//! requirements into the source text of a dispatch wrapper that runs the
//! function over exactly the entities owning every requested component.

pub mod entity;
pub mod gen_entity;
pub mod gen_system;
pub mod lexer;
pub mod names;
pub mod parse;
pub mod systems;
pub mod tokens;
