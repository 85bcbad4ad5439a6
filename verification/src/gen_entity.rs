//! Emission of the entity declaration.
//!
//! From a list of component type names, the generator emits the source text
//! of a struct with one optional slot per component, and of accessor,
//! mutable accessor and presence predicate methods for each slot.

use vstd::prelude::*;
use vstd::string::StringExecFns;

use crate::lexer::lex_from;
use crate::names::{
    field_name, field_name_spec, mut_name, mut_name_spec, pred_name, pred_name_spec,
};
use crate::parse::{parse_component_list, spec_parse_component_list, ParseError};

verus! {

/// The field declaration emitted for one component.
pub open spec fn field_decl_spec(comp: Seq<char>) -> Seq<char> {
    "    "@ + field_name_spec(comp) + ": Option<"@ + comp + ">,\n"@
}

/// The accessor method emitted for one component.
pub open spec fn accessor_spec(comp: Seq<char>) -> Seq<char> {
    "    pub fn "@ + field_name_spec(comp) + "(&self) -> &"@ + comp + " { self."@
        + field_name_spec(comp) + ".as_ref().unwrap() }\n"@
}

/// The mutable accessor method emitted for one component.
pub open spec fn mut_accessor_spec(comp: Seq<char>) -> Seq<char> {
    "    pub fn "@ + mut_name_spec(comp) + "(&mut self) -> &mut "@ + comp + " { self."@
        + field_name_spec(comp) + ".as_mut().unwrap() }\n"@
}

/// The presence predicate method emitted for one component.
pub open spec fn pred_method_spec(comp: Seq<char>) -> Seq<char> {
    "    pub fn "@ + pred_name_spec(comp) + "(&self) -> bool { self."@ + field_name_spec(comp)
        + ".is_some() }\n"@
}

/// All field declarations, in component order.
pub open spec fn fields_code(comps: Seq<Seq<char>>) -> Seq<char>
    decreases comps.len(),
{
    if comps.len() == 0 {
        Seq::empty()
    } else {
        field_decl_spec(comps[0]) + fields_code(comps.skip(1))
    }
}

/// All accessor methods, in component order.
pub open spec fn accessors_code(comps: Seq<Seq<char>>) -> Seq<char>
    decreases comps.len(),
{
    if comps.len() == 0 {
        Seq::empty()
    } else {
        accessor_spec(comps[0]) + accessors_code(comps.skip(1))
    }
}

/// All mutable accessor methods, in component order.
pub open spec fn mut_accessors_code(comps: Seq<Seq<char>>) -> Seq<char>
    decreases comps.len(),
{
    if comps.len() == 0 {
        Seq::empty()
    } else {
        mut_accessor_spec(comps[0]) + mut_accessors_code(comps.skip(1))
    }
}

/// All presence predicate methods, in component order.
pub open spec fn preds_code(comps: Seq<Seq<char>>) -> Seq<char>
    decreases comps.len(),
{
    if comps.len() == 0 {
        Seq::empty()
    } else {
        pred_method_spec(comps[0]) + preds_code(comps.skip(1))
    }
}

/// The whole entity declaration emitted for a component list.
pub open spec fn entity_code_spec(comps: Seq<Seq<char>>) -> Seq<char> {
    "#[derive(Default, Debug)]\nstruct Entity {\n"@ + fields_code(comps)
        + "}\n\nimpl Entity {\n"@ + accessors_code(comps) + mut_accessors_code(comps)
        + preds_code(comps) + "}\n"@
}

fn fields_section(comps: &Vec<String>) -> (r: String)
    ensures
        r@ == fields_code(comps.deep_view()),
{
    let ghost dv = comps.deep_view();
    let n = comps.len();
    let mut out = String::new();
    let mut i: usize = 0;
    proof {
        assert(dv.skip(0) =~= dv);
        assert(out@ + fields_code(dv) =~= fields_code(dv));
    }
    loop
        invariant
            i <= n,
            n == comps@.len(),
            dv == comps.deep_view(),
            out@ + fields_code(dv.skip(i as int)) == fields_code(dv),
        decreases n - i,
    {
        if i == n {
            proof {
                assert(dv.skip(i as int) =~= Seq::<Seq<char>>::empty());
                assert(out@ + fields_code(Seq::<Seq<char>>::empty()) =~= out@);
            }
            return out;
        }
        let comp = &comps[i];
        assert(dv[i as int] == comps@[i as int]@);
        let fname = field_name(comp.as_str());
        let ghost before = out@;
        out.append("    ");
        out.append(fname.as_str());
        out.append(": Option<");
        out.append(comp.as_str());
        out.append(">,\n");
        proof {
            assert(out@ =~= before + field_decl_spec(dv[i as int]));
            assert(dv.skip(i as int).skip(1) =~= dv.skip(i + 1));
            assert(dv.skip(i as int)[0] == dv[i as int]);
            assert((before + field_decl_spec(dv[i as int])) + fields_code(dv.skip(i + 1)) =~= before
                + (field_decl_spec(dv[i as int]) + fields_code(dv.skip(i + 1))));
        }
        i = i + 1;
    }
}

fn accessors_section(comps: &Vec<String>) -> (r: String)
    ensures
        r@ == accessors_code(comps.deep_view()),
{
    let ghost dv = comps.deep_view();
    let n = comps.len();
    let mut out = String::new();
    let mut i: usize = 0;
    proof {
        assert(dv.skip(0) =~= dv);
        assert(out@ + accessors_code(dv) =~= accessors_code(dv));
    }
    loop
        invariant
            i <= n,
            n == comps@.len(),
            dv == comps.deep_view(),
            out@ + accessors_code(dv.skip(i as int)) == accessors_code(dv),
        decreases n - i,
    {
        if i == n {
            proof {
                assert(dv.skip(i as int) =~= Seq::<Seq<char>>::empty());
                assert(out@ + accessors_code(Seq::<Seq<char>>::empty()) =~= out@);
            }
            return out;
        }
        let comp = &comps[i];
        assert(dv[i as int] == comps@[i as int]@);
        let fname = field_name(comp.as_str());
        let ghost before = out@;
        out.append("    pub fn ");
        out.append(fname.as_str());
        out.append("(&self) -> &");
        out.append(comp.as_str());
        out.append(" { self.");
        out.append(fname.as_str());
        out.append(".as_ref().unwrap() }\n");
        proof {
            assert(out@ =~= before + accessor_spec(dv[i as int]));
            assert(dv.skip(i as int).skip(1) =~= dv.skip(i + 1));
            assert(dv.skip(i as int)[0] == dv[i as int]);
            assert((before + accessor_spec(dv[i as int])) + accessors_code(dv.skip(i + 1)) =~= before
                + (accessor_spec(dv[i as int]) + accessors_code(dv.skip(i + 1))));
        }
        i = i + 1;
    }
}

fn mut_accessors_section(comps: &Vec<String>) -> (r: String)
    ensures
        r@ == mut_accessors_code(comps.deep_view()),
{
    let ghost dv = comps.deep_view();
    let n = comps.len();
    let mut out = String::new();
    let mut i: usize = 0;
    proof {
        assert(dv.skip(0) =~= dv);
        assert(out@ + mut_accessors_code(dv) =~= mut_accessors_code(dv));
    }
    loop
        invariant
            i <= n,
            n == comps@.len(),
            dv == comps.deep_view(),
            out@ + mut_accessors_code(dv.skip(i as int)) == mut_accessors_code(dv),
        decreases n - i,
    {
        if i == n {
            proof {
                assert(dv.skip(i as int) =~= Seq::<Seq<char>>::empty());
                assert(out@ + mut_accessors_code(Seq::<Seq<char>>::empty()) =~= out@);
            }
            return out;
        }
        let comp = &comps[i];
        assert(dv[i as int] == comps@[i as int]@);
        let fname = field_name(comp.as_str());
        let mname = mut_name(comp.as_str());
        let ghost before = out@;
        out.append("    pub fn ");
        out.append(mname.as_str());
        out.append("(&mut self) -> &mut ");
        out.append(comp.as_str());
        out.append(" { self.");
        out.append(fname.as_str());
        out.append(".as_mut().unwrap() }\n");
        proof {
            assert(out@ =~= before + mut_accessor_spec(dv[i as int]));
            assert(dv.skip(i as int).skip(1) =~= dv.skip(i + 1));
            assert(dv.skip(i as int)[0] == dv[i as int]);
            assert((before + mut_accessor_spec(dv[i as int])) + mut_accessors_code(
                dv.skip(i + 1),
            ) =~= before + (mut_accessor_spec(dv[i as int]) + mut_accessors_code(dv.skip(i + 1))));
        }
        i = i + 1;
    }
}

fn preds_section(comps: &Vec<String>) -> (r: String)
    ensures
        r@ == preds_code(comps.deep_view()),
{
    let ghost dv = comps.deep_view();
    let n = comps.len();
    let mut out = String::new();
    let mut i: usize = 0;
    proof {
        assert(dv.skip(0) =~= dv);
        assert(out@ + preds_code(dv) =~= preds_code(dv));
    }
    loop
        invariant
            i <= n,
            n == comps@.len(),
            dv == comps.deep_view(),
            out@ + preds_code(dv.skip(i as int)) == preds_code(dv),
        decreases n - i,
    {
        if i == n {
            proof {
                assert(dv.skip(i as int) =~= Seq::<Seq<char>>::empty());
                assert(out@ + preds_code(Seq::<Seq<char>>::empty()) =~= out@);
            }
            return out;
        }
        let comp = &comps[i];
        assert(dv[i as int] == comps@[i as int]@);
        let fname = field_name(comp.as_str());
        let pname = pred_name(comp.as_str());
        let ghost before = out@;
        out.append("    pub fn ");
        out.append(pname.as_str());
        out.append("(&self) -> bool { self.");
        out.append(fname.as_str());
        out.append(".is_some() }\n");
        proof {
            assert(out@ =~= before + pred_method_spec(dv[i as int]));
            assert(dv.skip(i as int).skip(1) =~= dv.skip(i + 1));
            assert(dv.skip(i as int)[0] == dv[i as int]);
            assert((before + pred_method_spec(dv[i as int])) + preds_code(dv.skip(i + 1)) =~= before
                + (pred_method_spec(dv[i as int]) + preds_code(dv.skip(i + 1))));
        }
        i = i + 1;
    }
}

/// Emits the entity declaration for the given component type names.
pub fn entity_source(comps: &Vec<String>) -> (r: String)
    ensures
        r@ == entity_code_spec(comps.deep_view()),
{
    let mut out: String = "#[derive(Default, Debug)]\nstruct Entity {\n".to_owned();
    let fs = fields_section(comps);
    out.append(fs.as_str());
    out.append("}\n\nimpl Entity {\n");
    let acc = accessors_section(comps);
    out.append(acc.as_str());
    let ma = mut_accessors_section(comps);
    out.append(ma.as_str());
    let ps = preds_section(comps);
    out.append(ps.as_str());
    out.append("}\n");
    proof {
        assert(out@ =~= entity_code_spec(comps.deep_view()));
    }
    out
}

/// Parses a component list and emits the entity declaration it asks for.
pub fn secs_impl_entity(input: &str) -> (r: Result<String, ParseError>)
    ensures
        match r {
            Ok(code) => spec_parse_component_list(input@) matches Some(names) && code@
                == entity_code_spec(names),
            Err(e) => spec_parse_component_list(input@) is None && ((e == ParseError::Lex)
                <==> lex_from(input@) is None),
        },
{
    match parse_component_list(input) {
        Err(e) => Err(e),
        Ok(names) => Ok(entity_source(&names)),
    }
}

} // verus!
