//! Emission of a system's dispatch wrapper.
//!
//! From a function's signature facts and its parsed component requirements,
//! the generator emits the source text of a wrapper that walks an entity
//! collection and calls the function on exactly the entities owning every
//! requested component, mutably when any requirement asks for mutable
//! access.

use vstd::prelude::*;
use vstd::string::StringExecFns;

use crate::lexer::{
    ident_char, ident_len, ident_start_char, is_ident_char, is_ident_start_char, is_ws_char,
    lemma_ident_len_run, lex_from, ws_char,
};
use crate::names::{pred_name, pred_name_spec, sys_fn_name, sys_name_spec};
use crate::parse::{
    parse_system_attributes, spec_parse_system_attributes, ComponentAttribute, ParseError,
    SpecAttr,
};

verus! {

/// The signature facts of a system function that the wrapper needs: its
/// name, the text of its generic parameters, the text of its where clause,
/// and the text of each of its parameters, the entity parameter first.
pub struct SigInfo {
    pub name: String,
    pub generics: String,
    pub where_clause: Option<String>,
    pub inputs: Vec<String>,
}

/// The mathematical form of the signature facts.
pub struct SigView {
    pub name: Seq<char>,
    pub generics: Seq<char>,
    pub where_clause: Option<Seq<char>>,
    pub inputs: Seq<Seq<char>>,
}

impl View for SigInfo {
    type V = SigView;

    open spec fn view(&self) -> SigView {
        SigView {
            name: self.name@,
            generics: self.generics@,
            where_clause: match self.where_clause {
                Some(w) => Some(w@),
                None => None,
            },
            inputs: self.inputs.deep_view(),
        }
    }
}

/// `s` without its leading whitespace.
pub open spec fn skip_ws_seq(s: Seq<char>) -> Seq<char>
    decreases s.len(),
{
    if s.len() > 0 && is_ws_char(s[0]) {
        skip_ws_seq(s.skip(1))
    } else {
        s
    }
}

/// `skip_ws_seq` drops exactly a run of whitespace that is either closed by
/// a non-whitespace character or reaches the end.
proof fn lemma_skip_ws_run(s: Seq<char>, k: int)
    requires
        0 <= k <= s.len(),
        forall|j: int| 0 <= j < k ==> is_ws_char(#[trigger] s[j]),
        k == s.len() || !is_ws_char(s[k]),
    ensures
        skip_ws_seq(s) == s.skip(k),
    decreases k,
{
    if k == 0 {
        assert(s.skip(0) =~= s);
    } else {
        assert(is_ws_char(s[0]));
        assert(forall|j: int| 0 <= j < k - 1 ==> is_ws_char(#[trigger] s.skip(1)[j]));
        lemma_skip_ws_run(s.skip(1), k - 1);
        assert(s.skip(1).skip(k - 1) =~= s.skip(k));
    }
}

/// The identifier that opens `s`, after optional whitespace.
pub open spec fn leading_ident(s: Seq<char>) -> Option<Seq<char>> {
    let t = skip_ws_seq(s);
    if t.len() > 0 && is_ident_start_char(t[0]) {
        Some(t.take(ident_len(t) as int))
    } else {
        None
    }
}

/// Finds the identifier that opens `s`, after optional whitespace.
fn leading_ident_exec(s: &str) -> (r: Option<String>)
    ensures
        match r {
            Some(name) => leading_ident(s@) == Some(name@),
            None => leading_ident(s@) is None,
        },
{
    let n = s.unicode_len();
    let mut i: usize = 0;
    loop
        invariant
            i <= n,
            n == s@.len(),
            forall|j: int| 0 <= j < i ==> is_ws_char(#[trigger] s@[j]),
        ensures
            i <= n,
            forall|j: int| 0 <= j < i ==> is_ws_char(#[trigger] s@[j]),
            i == n || !is_ws_char(s@[i as int]),
        decreases n - i,
    {
        if i == n {
            break ;
        }
        if ws_char(s.get_char(i)) {
            i = i + 1;
        } else {
            break ;
        }
    }
    proof {
        lemma_skip_ws_run(s@, i as int);
    }
    let ghost t = s@.skip(i as int);
    if i == n {
        assert(t.len() == 0);
        return None;
    }
    assert(t[0] == s@[i as int]);
    let c = s.get_char(i);
    if !ident_start_char(c) {
        return None;
    }
    let start = i;
    i = i + 1;
    loop
        invariant
            start < i <= n,
            n == s@.len(),
            forall|j: int| start <= j < i ==> is_ident_char(#[trigger] s@[j]),
        ensures
            start < i <= n,
            forall|j: int| start <= j < i ==> is_ident_char(#[trigger] s@[j]),
            i == n || !is_ident_char(s@[i as int]),
        decreases n - i,
    {
        if i == n {
            break ;
        }
        if ident_char(s.get_char(i)) {
            i = i + 1;
        } else {
            break ;
        }
    }
    proof {
        assert(forall|j: int| 0 <= j < i - start ==> is_ident_char(#[trigger] t[j]));
        assert(i - start == t.len() || !is_ident_char(t[i - start]));
        lemma_ident_len_run(t, i - start);
        assert(t.take(i - start) =~= s@.subrange(start as int, i as int));
    }
    let text = s.substring_char(start, i);
    Some(text.to_owned())
}

/// The parameters a wrapper forwards: every input after the entity
/// parameter.
pub open spec fn sig_extras(sig: SigView) -> Seq<Seq<char>> {
    if sig.inputs.len() == 0 {
        Seq::empty()
    } else {
        sig.inputs.skip(1)
    }
}

/// The forwarded argument names: the identifier that opens each forwarded
/// parameter's text, or `None` if one opens with no identifier.
pub open spec fn arg_names_of(extras: Seq<Seq<char>>) -> Option<Seq<Seq<char>>>
    decreases extras.len(),
{
    if extras.len() == 0 {
        Some(Seq::empty())
    } else {
        match leading_ident(extras[0]) {
            None => None,
            Some(nm) => match arg_names_of(extras.skip(1)) {
                None => None,
                Some(r) => Some(seq![nm] + r),
            },
        }
    }
}

/// The forwarded argument names where they exist, or nothing.
pub open spec fn arg_names_or_empty(extras: Seq<Seq<char>>) -> Seq<Seq<char>> {
    match arg_names_of(extras) {
        Some(n) => n,
        None => Seq::empty(),
    }
}

/// Finds the forwarded argument names of a system's inputs.
fn extra_arg_names(inputs: &Vec<String>) -> (r: Option<Vec<String>>)
    ensures
        match r {
            Some(ns) => arg_names_of(
                if inputs.deep_view().len() == 0 {
                    Seq::empty()
                } else {
                    inputs.deep_view().skip(1)
                },
            ) == Some(ns.deep_view()),
            None => arg_names_of(
                if inputs.deep_view().len() == 0 {
                    Seq::empty()
                } else {
                    inputs.deep_view().skip(1)
                },
            ) is None,
        },
{
    let ghost dv = inputs.deep_view();
    let n = inputs.len();
    let mut names: Vec<String> = Vec::new();
    if n == 0 {
        proof {
            assert(names.deep_view() =~= Seq::<Seq<char>>::empty());
        }
        return Some(names);
    }
    let ghost ex = dv.skip(1);
    let mut i: usize = 1;
    proof {
        assert(ex.skip(0) =~= ex);
        if let Some(t) = arg_names_of(ex) {
            assert(names.deep_view() + t =~= t);
        }
    }
    loop
        invariant
            1 <= i <= n,
            n == inputs@.len(),
            dv == inputs.deep_view(),
            ex == dv.skip(1),
            match arg_names_of(ex.skip(i - 1)) {
                Some(rest) => arg_names_of(ex) == Some(names.deep_view() + rest),
                None => arg_names_of(ex) is None,
            },
        decreases n - i,
    {
        let ghost suffix = ex.skip(i - 1);
        if i == n {
            proof {
                assert(suffix =~= Seq::<Seq<char>>::empty());
                assert(names.deep_view() + Seq::<Seq<char>>::empty() =~= names.deep_view());
            }
            return Some(names);
        }
        assert(suffix[0] == ex[i - 1]);
        assert(ex[i - 1] == dv[i as int]);
        assert(dv[i as int] == inputs@[i as int]@);
        let arg = &inputs[i];
        match leading_ident_exec(arg.as_str()) {
            None => {
                return None;
            },
            Some(nm) => {
                let ghost old_names = names.deep_view();
                names.push(nm);
                proof {
                    assert(suffix.skip(1) =~= ex.skip(i as int));
                    let nmv = leading_ident(dv[i as int]) -> Some_0;
                    assert(names.deep_view() =~= old_names + seq![nmv]);
                    if let Some(rest) = arg_names_of(ex.skip(i as int)) {
                        assert((old_names + seq![nmv]) + rest =~= old_names + (seq![nmv] + rest));
                    }
                }
                i = i + 1;
            },
        }
    }
}

/// Whether any requirement asks for mutable access.
pub open spec fn has_mut_attr(attrs: Seq<SpecAttr>) -> bool {
    exists|k: int| 0 <= k < attrs.len() && attrs[k].is_mutable
}

/// Decides whether any requirement asks for mutable access.
fn any_mut(attrs: &Vec<ComponentAttribute>) -> (r: bool)
    ensures
        r == has_mut_attr(attrs.deep_view()),
{
    let ghost dv = attrs.deep_view();
    let n = attrs.len();
    let mut i: usize = 0;
    loop
        invariant
            i <= n,
            n == attrs@.len(),
            dv == attrs.deep_view(),
            forall|k: int| 0 <= k < i ==> !(#[trigger] dv[k]).is_mutable,
        decreases n - i,
    {
        if i == n {
            return false;
        }
        if attrs[i].is_mutable {
            assert(dv[i as int].is_mutable);
            return true;
        }
        assert(!dv[i as int].is_mutable);
        i = i + 1;
    }
}

/// The presence test emitted for one requirement.
pub open spec fn pred_call_spec(a: SpecAttr) -> Seq<char> {
    "entity."@ + pred_name_spec(a.name) + "()"@
}

/// The presence tests emitted after the first, each preceded by `&&`.
pub open spec fn preds_rest(attrs: Seq<SpecAttr>) -> Seq<char>
    decreases attrs.len(),
{
    if attrs.len() == 0 {
        Seq::empty()
    } else {
        " && "@ + pred_call_spec(attrs[0]) + preds_rest(attrs.skip(1))
    }
}

/// The filter expression emitted for the requirements: their presence tests
/// joined by `&&`.
pub open spec fn preds_expr(attrs: Seq<SpecAttr>) -> Seq<char> {
    if attrs.len() == 0 {
        Seq::empty()
    } else {
        pred_call_spec(attrs[0]) + preds_rest(attrs.skip(1))
    }
}

fn preds_expr_exec(attrs: &Vec<ComponentAttribute>) -> (r: String)
    ensures
        r@ == preds_expr(attrs.deep_view()),
{
    let ghost dv = attrs.deep_view();
    let n = attrs.len();
    let mut out = String::new();
    if n == 0 {
        return out;
    }
    assert(dv[0] == attrs@[0]@);
    out.append("entity.");
    let p0 = pred_name(attrs[0].name.as_str());
    out.append(p0.as_str());
    out.append("()");
    proof {
        assert(out@ =~= pred_call_spec(dv[0]));
    }
    let mut i: usize = 1;
    proof {
        assert(dv.skip(1).skip(0) =~= dv.skip(1));
    }
    loop
        invariant
            1 <= i <= n,
            n == attrs@.len(),
            dv == attrs.deep_view(),
            out@ + preds_rest(dv.skip(i as int)) == preds_expr(dv),
        decreases n - i,
    {
        if i == n {
            proof {
                assert(dv.skip(i as int) =~= Seq::<SpecAttr>::empty());
                assert(out@ + preds_rest(Seq::<SpecAttr>::empty()) =~= out@);
            }
            return out;
        }
        assert(dv[i as int] == attrs@[i as int]@);
        let ghost before = out@;
        out.append(" && ");
        out.append("entity.");
        let p = pred_name(attrs[i].name.as_str());
        out.append(p.as_str());
        out.append("()");
        proof {
            assert(out@ =~= before + (" && "@ + pred_call_spec(dv[i as int])));
            assert(dv.skip(i as int).skip(1) =~= dv.skip(i + 1));
            assert(dv.skip(i as int)[0] == dv[i as int]);
            assert((before + (" && "@ + pred_call_spec(dv[i as int]))) + preds_rest(
                dv.skip(i + 1),
            ) =~= before + ((" && "@ + pred_call_spec(dv[i as int])) + preds_rest(dv.skip(i + 1))));
        }
        i = i + 1;
    }
}

/// Texts joined by writing each after a comma and a space.
pub open spec fn cat_pre_comma(items: Seq<Seq<char>>) -> Seq<char>
    decreases items.len(),
{
    if items.len() == 0 {
        Seq::empty()
    } else {
        ", "@ + items[0] + cat_pre_comma(items.skip(1))
    }
}

fn pre_comma_section(items: &Vec<String>, start: usize) -> (r: String)
    requires
        start <= items@.len(),
    ensures
        r@ == cat_pre_comma(items.deep_view().skip(start as int)),
{
    let ghost dv = items.deep_view();
    let n = items.len();
    let mut out = String::new();
    let mut i: usize = start;
    proof {
        assert(out@ + cat_pre_comma(dv.skip(start as int)) =~= cat_pre_comma(
            dv.skip(start as int),
        ));
    }
    loop
        invariant
            start <= i <= n,
            n == items@.len(),
            dv == items.deep_view(),
            out@ + cat_pre_comma(dv.skip(i as int)) == cat_pre_comma(dv.skip(start as int)),
        decreases n - i,
    {
        if i == n {
            proof {
                assert(dv.skip(i as int) =~= Seq::<Seq<char>>::empty());
                assert(out@ + cat_pre_comma(Seq::<Seq<char>>::empty()) =~= out@);
            }
            return out;
        }
        assert(dv[i as int] == items@[i as int]@);
        let ghost before = out@;
        out.append(", ");
        out.append(items[i].as_str());
        proof {
            assert(out@ =~= before + (", "@ + dv[i as int]));
            assert(dv.skip(i as int).skip(1) =~= dv.skip(i + 1));
            assert(dv.skip(i as int)[0] == dv[i as int]);
            assert((before + (", "@ + dv[i as int])) + cat_pre_comma(dv.skip(i + 1)) =~= before + ((
            ", "@ + dv[i as int]) + cat_pre_comma(dv.skip(i + 1))));
        }
        i = i + 1;
    }
}

/// The generic parameter list as it stands in the wrapper's header.
pub open spec fn generics_prefix_spec(g: Seq<char>) -> Seq<char> {
    if g.len() == 0 {
        Seq::empty()
    } else {
        "<"@ + g + ">"@
    }
}

/// The where clause as it stands in the wrapper's header.
pub open spec fn where_text_spec(w: Option<Seq<char>>) -> Seq<char> {
    match w {
        None => Seq::empty(),
        Some(t) => " "@ + t,
    }
}

/// The whole dispatch wrapper emitted for a system.
pub open spec fn wrapper_code_spec(attrs: Seq<SpecAttr>, sig: SigView) -> Seq<char> {
    let m = has_mut_attr(attrs);
    "fn "@ + sys_name_spec(sig.name) + generics_prefix_spec(sig.generics) + "(entities: "@ + (
    if m {
        "&mut Entities"@
    } else {
        "&Entities"@
    }) + cat_pre_comma(sig_extras(sig)) + ")"@ + where_text_spec(sig.where_clause)
        + " {\n    for entity in entities."@ + (if m {
        "iter_mut"@
    } else {
        "iter"@
    }) + "().filter(|entity| "@ + preds_expr(attrs) + ") {\n        "@ + sig.name + "(entity"@
        + cat_pre_comma(arg_names_or_empty(sig_extras(sig))) + ")\n    }\n}\n"@
}

/// Emits the dispatch wrapper for the given requirements and signature
/// facts; rejects a signature whose forwarded parameters do not open with
/// identifiers.  At least one requirement is demanded, as the requirement
/// grammar guarantees: with none, the emitted filter would be empty.
#[verifier::rlimit(100)]
pub fn system_wrapper_source(attrs: &Vec<ComponentAttribute>, sig: &SigInfo) -> (r: Result<
    String,
    ParseError,
>)
    requires
        attrs@.len() >= 1,
    ensures
        match r {
            Ok(code) => arg_names_of(sig_extras(sig@)) is Some && code@ == wrapper_code_spec(
                attrs.deep_view(),
                sig@,
            ),
            Err(e) => e == ParseError::Syntax && arg_names_of(sig_extras(sig@)) is None,
        },
{
    let names = match extra_arg_names(&sig.inputs) {
        None => {
            return Err(ParseError::Syntax);
        },
        Some(ns) => ns,
    };
    let m = any_mut(attrs);
    let mut out: String = "fn ".to_owned();
    let sn = sys_fn_name(sig.name.as_str());
    out.append(sn.as_str());
    if !sig.generics.as_str().is_empty() {
        out.append("<");
        out.append(sig.generics.as_str());
        out.append(">");
    }
    out.append("(entities: ");
    if m {
        out.append("&mut Entities");
    } else {
        out.append("&Entities");
    }
    if sig.inputs.len() > 0 {
        let ex = pre_comma_section(&sig.inputs, 1);
        out.append(ex.as_str());
    } else {
        proof {
            assert(cat_pre_comma(sig_extras(sig@)) =~= Seq::<char>::empty());
        }
    }
    out.append(")");
    match &sig.where_clause {
        Some(w) => {
            out.append(" ");
            out.append(w.as_str());
        },
        None => {},
    }
    out.append(" {\n    for entity in entities.");
    if m {
        out.append("iter_mut");
    } else {
        out.append("iter");
    }
    out.append("().filter(|entity| ");
    let pe = preds_expr_exec(attrs);
    out.append(pe.as_str());
    out.append(") {\n        ");
    out.append(sig.name.as_str());
    out.append("(entity");
    let ar = pre_comma_section(&names, 0);
    out.append(ar.as_str());
    out.append(")\n    }\n}\n");
    proof {
        assert(names.deep_view() =~= arg_names_or_empty(sig_extras(sig@)));
        assert(names.deep_view().skip(0) =~= names.deep_view());
        assert(out@ =~= wrapper_code_spec(attrs.deep_view(), sig@));
    }
    Ok(out)
}

/// What parsing the source text of a function item returns: its signature
/// facts, or nothing where the text is not a function item.
pub uninterp spec fn parsed_signature(src: Seq<char>) -> Option<SigView>;

/// Relies on syn's `parse_str::<ItemFn>` and quote's `ToTokens`: parses the
/// source text of a function item and hands back its name, the printed text
/// of its generic parameters and where clause, and the printed text of each
/// of its parameters, in order.  The result is a function of the source
/// text alone: this library runs outside a macro expansion, so proc-macro2's
/// own lexer, not a host compiler, underlies the parse.
#[verifier::external_body]
fn parse_fn_source(src: &str) -> (r: Option<SigInfo>)
    ensures
        match r {
            Some(s) => parsed_signature(src@) == Some(s@),
            None => parsed_signature(src@) is None,
        },
{
    let f: syn::ItemFn = match syn::parse_str(src) {
        Ok(f) => f,
        Err(_) => return None,
    };
    let name = f.sig.ident.to_string();
    let generics = quote::ToTokens::to_token_stream(&f.sig.generics.params).to_string();
    let where_clause = match &f.sig.generics.where_clause {
        Some(w) => Some(quote::ToTokens::to_token_stream(w).to_string()),
        None => None,
    };
    let inputs = f.sig.inputs.iter().map(
        |a| quote::ToTokens::to_token_stream(a).to_string(),
    ).collect();
    Some(SigInfo { name, generics, where_clause, inputs })
}

/// Parses a system's requirements and its function's source text, and
/// emits that source followed by its dispatch wrapper.
pub fn secs_system(attr: &str, fn_source: &str) -> (r: Result<String, ParseError>)
    ensures
        match r {
            Ok(code) => {
                &&& spec_parse_system_attributes(attr@) matches Some(attrs)
                &&& parsed_signature(fn_source@) matches Some(sig)
                &&& arg_names_of(sig_extras(sig)) is Some
                &&& code@ == fn_source@ + "\n"@ + wrapper_code_spec(attrs, sig)
            },
            Err(e) => {
                &&& (spec_parse_system_attributes(attr@) is None || parsed_signature(
                    fn_source@,
                ) is None || arg_names_of(
                    sig_extras(parsed_signature(fn_source@)->Some_0),
                ) is None)
                &&& ((e == ParseError::Lex) <==> lex_from(attr@) is None)
            },
        },
{
    let attrs = match parse_system_attributes(attr) {
        Err(e) => {
            return Err(e);
        },
        Ok(a) => a,
    };
    proof {
        if let Some(t) = lex_from(attr@) {
            crate::parse::lemma_parse_attrs_nonempty(t);
        }
        assert(attrs@.len() == attrs.deep_view().len());
    }
    let sig = match parse_fn_source(fn_source) {
        None => {
            return Err(ParseError::Syntax);
        },
        Some(s) => s,
    };
    let wrapper = match system_wrapper_source(&attrs, &sig) {
        Err(_) => {
            return Err(ParseError::Syntax);
        },
        Ok(w) => w,
    };
    let mut out: String = fn_source.to_owned();
    out.append("\n");
    out.append(wrapper.as_str());
    proof {
        assert(out@ =~= fn_source@ + "\n"@ + wrapper_code_spec(attrs.deep_view(), sig@));
        assert(spec_parse_system_attributes(attr@)->Some_0 == attrs.deep_view());
        assert(parsed_signature(fn_source@)->Some_0 == sig@);
    }
    Ok(out)
}

} // verus!
