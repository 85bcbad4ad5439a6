//! The generator's two input grammars.
//!
//! An entity declaration lists component type names separated by commas, with
//! an optional trailing comma; the list may be empty.  A system declaration
//! lists one or more component requirements, each an identifier optionally
//! preceded by the keyword `mut`; no trailing comma is accepted.  No keyword
//! of the host language, and no lone underscore, is a component name.

use vstd::prelude::*;
use vstd::string::StringExecFns;

use crate::lexer::{lex, lex_from, SpecTok, Token};

verus! {

/// Why an input was rejected: a character that fits no token, or a token
/// sequence outside the grammar.
#[derive(Debug, Clone, Copy, PartialEq, Eq, Structural)]
pub enum ParseError {
    Lex,
    Syntax,
}

/// One component requirement of a system: the component's type name and
/// whether the system asks for mutable access.
#[derive(Debug, Clone, PartialEq, Eq)]
pub struct ComponentAttribute {
    pub name: String,
    pub is_mutable: bool,
}

/// The mathematical form of a component requirement.
pub struct SpecAttr {
    pub name: Seq<char>,
    pub is_mutable: bool,
}

impl View for ComponentAttribute {
    type V = SpecAttr;

    open spec fn view(&self) -> SpecAttr {
        SpecAttr { name: self.name@, is_mutable: self.is_mutable }
    }
}

impl DeepView for ComponentAttribute {
    type V = SpecAttr;

    open spec fn deep_view(&self) -> SpecAttr {
        self.view()
    }
}

/// The words the host language reserves: they are lexed as identifier
/// tokens, but no component may carry one as its name.  The list is that of
/// the host language's keywords, with the lone underscore.
pub open spec fn is_keyword(s: Seq<char>) -> bool {
    ||| s == "_"@
    ||| s == "abstract"@
    ||| s == "as"@
    ||| s == "become"@
    ||| s == "box"@
    ||| s == "break"@
    ||| s == "const"@
    ||| s == "continue"@
    ||| s == "crate"@
    ||| s == "do"@
    ||| s == "else"@
    ||| s == "enum"@
    ||| s == "ext"@ + "ern"@
    ||| s == "false"@
    ||| s == "final"@
    ||| s == "fn"@
    ||| s == "for"@
    ||| s == "if"@
    ||| s == "impl"@
    ||| s == "in"@
    ||| s == "let"@
    ||| s == "loop"@
    ||| s == "macro"@
    ||| s == "match"@
    ||| s == "mod"@
    ||| s == "move"@
    ||| s == "mut"@
    ||| s == "override"@
    ||| s == "priv"@
    ||| s == "pub"@
    ||| s == "ref"@
    ||| s == "return"@
    ||| s == "Self"@
    ||| s == "self"@
    ||| s == "static"@
    ||| s == "struct"@
    ||| s == "super"@
    ||| s == "trait"@
    ||| s == "true"@
    ||| s == "type"@
    ||| s == "typeof"@
    ||| s == "unsafe"@
    ||| s == "unsized"@
    ||| s == "use"@
    ||| s == "virtual"@
    ||| s == "where"@
    ||| s == "while"@
    ||| s == "yield"@
}

/// Component list grammar over tokens: idents separated by commas, optional
/// trailing comma, possibly empty; a keyword is not a name.
pub open spec fn parse_components_toks(toks: Seq<SpecTok>) -> Option<Seq<Seq<char>>>
    decreases toks.len(),
{
    if toks.len() == 0 {
        Some(Seq::empty())
    } else {
        match toks[0] {
            SpecTok::Comma => None,
            SpecTok::Ident(name) => {
                if is_keyword(name) {
                    None
                } else if toks.len() == 1 {
                    Some(seq![name])
                } else {
                    match toks[1] {
                        SpecTok::Ident(_) => None,
                        SpecTok::Comma => match parse_components_toks(toks.skip(2)) {
                            None => None,
                            Some(rest) => Some(seq![name] + rest),
                        },
                    }
                }
            },
        }
    }
}

/// System requirement grammar over tokens: one or more entries, each an
/// optional `mut` followed by an ident that is no keyword, separated by
/// commas; no trailing comma, nothing after the last entry.
pub open spec fn parse_attrs_toks(toks: Seq<SpecTok>) -> Option<Seq<SpecAttr>>
    decreases toks.len(),
{
    if toks.len() == 0 {
        None
    } else {
        let is_mut = toks[0] == SpecTok::Ident("mut"@);
        let rest = if is_mut {
            toks.skip(1)
        } else {
            toks
        };
        if rest.len() == 0 {
            None
        } else {
            match rest[0] {
                SpecTok::Comma => None,
                SpecTok::Ident(name) => {
                    if is_keyword(name) {
                        None
                    } else if rest.len() == 1 {
                        Some(seq![SpecAttr { name, is_mutable: is_mut }])
                    } else {
                        match rest[1] {
                            SpecTok::Ident(_) => None,
                            SpecTok::Comma => match parse_attrs_toks(rest.skip(2)) {
                                None => None,
                                Some(tail) => Some(
                                    seq![SpecAttr { name, is_mutable: is_mut }] + tail,
                                ),
                            },
                        }
                    }
                },
            }
        }
    }
}

/// The system requirement grammar never accepts an empty list.
pub proof fn lemma_parse_attrs_nonempty(toks: Seq<SpecTok>)
    ensures
        parse_attrs_toks(toks) matches Some(r) ==> r.len() >= 1,
{
    if let Some(r) = parse_attrs_toks(toks) {
        assert(r.len() >= 1);
    }
}

/// What a component list input means: its tokens parsed by the component
/// list grammar.
pub open spec fn spec_parse_component_list(s: Seq<char>) -> Option<Seq<Seq<char>>> {
    match lex_from(s) {
        Some(t) => parse_components_toks(t),
        None => None,
    }
}

/// What a system requirement input means: its tokens parsed by the system
/// requirement grammar.
pub open spec fn spec_parse_system_attributes(s: Seq<char>) -> Option<Seq<SpecAttr>> {
    match lex_from(s) {
        Some(t) => parse_attrs_toks(t),
        None => None,
    }
}

/// Whether `name` is the keyword `mut`.
fn is_mut_kw(name: &String) -> (r: bool)
    ensures
        r == (name@ == "mut"@),
{
    let kw: String = "mut".to_owned();
    *name == kw
}

/// Whether `name` reads as `lit`.
fn eq_lit(name: &String, lit: &str) -> (r: bool)
    ensures
        r == (name@ == lit@),
{
    let kw: String = lit.to_owned();
    *name == kw
}

/// Whether `name` is the linkage keyword, whose text the comparison builds
/// from two halves.
fn eq_linkage_kw(name: &String) -> (r: bool)
    ensures
        r == (name@ == "ext"@ + "ern"@),
{
    let mut kw: String = "ext".to_owned();
    kw.append("ern");
    *name == kw
}

/// Decides `is_keyword`.
fn is_keyword_str(name: &String) -> (r: bool)
    ensures
        r == is_keyword(name@),
{
    eq_lit(name, "_") || eq_lit(name, "abstract") || eq_lit(name, "as") || eq_lit(name, "become")
        || eq_lit(name, "box") || eq_lit(name, "break") || eq_lit(name, "const") || eq_lit(
        name,
        "continue",
    ) || eq_lit(name, "crate") || eq_lit(name, "do") || eq_lit(name, "else") || eq_lit(
        name,
        "enum",
    ) || eq_linkage_kw(name) || eq_lit(name, "false") || eq_lit(name, "final") || eq_lit(
        name,
        "fn",
    ) || eq_lit(name, "for") || eq_lit(name, "if") || eq_lit(name, "impl") || eq_lit(name, "in")
        || eq_lit(name, "let") || eq_lit(name, "loop") || eq_lit(name, "macro") || eq_lit(
        name,
        "match",
    ) || eq_lit(name, "mod") || eq_lit(name, "move") || eq_lit(name, "mut") || eq_lit(
        name,
        "override",
    ) || eq_lit(name, "priv") || eq_lit(name, "pub") || eq_lit(name, "ref") || eq_lit(
        name,
        "return",
    ) || eq_lit(name, "Self") || eq_lit(name, "self") || eq_lit(name, "static") || eq_lit(
        name,
        "struct",
    ) || eq_lit(name, "super") || eq_lit(name, "trait") || eq_lit(name, "true") || eq_lit(
        name,
        "type",
    ) || eq_lit(name, "typeof") || eq_lit(name, "unsafe") || eq_lit(name, "unsized") || eq_lit(
        name,
        "use",
    ) || eq_lit(name, "virtual") || eq_lit(name, "where") || eq_lit(name, "while") || eq_lit(
        name,
        "yield",
    )
}

/// Parses a token sequence as a component list.
fn parse_component_tokens(toks: &Vec<Token>) -> (r: Option<Vec<String>>)
    ensures
        match r {
            Some(names) => parse_components_toks(toks.deep_view()) == Some(names.deep_view()),
            None => parse_components_toks(toks.deep_view()) is None,
        },
{
    let ghost dv = toks.deep_view();
    let n = toks.len();
    let mut i: usize = 0;
    let mut names: Vec<String> = Vec::new();
    proof {
        assert(dv.skip(0) =~= dv);
        if let Some(t) = parse_components_toks(dv) {
            assert(names.deep_view() + t =~= t);
        }
    }
    loop
        invariant
            i <= n,
            n == toks@.len(),
            dv == toks.deep_view(),
            match parse_components_toks(dv.skip(i as int)) {
                Some(rest) => parse_components_toks(dv) == Some(names.deep_view() + rest),
                None => parse_components_toks(dv) is None,
            },
        decreases n - i,
    {
        let ghost suffix = dv.skip(i as int);
        if i == n {
            assert(suffix =~= Seq::<SpecTok>::empty());
            assert(names.deep_view() + Seq::<Seq<char>>::empty() =~= names.deep_view());
            return Some(names);
        }
        assert(suffix[0] == dv[i as int]);
        match &toks[i] {
            Token::Comma => {
                return None;
            },
            Token::Ident(name) => {
                assert(dv[i as int] == SpecTok::Ident(name@));
                if is_keyword_str(name) {
                    return None;
                }
                if i + 1 == n {
                    assert(suffix.len() == 1);
                    let ghost old_names = names.deep_view();
                    names.push(name.clone());
                    assert(names.deep_view() =~= old_names + seq![name@]);
                    return Some(names);
                }
                assert(suffix[1] == dv[i + 1]);
                match &toks[i + 1] {
                    Token::Ident(_) => {
                        return None;
                    },
                    Token::Comma => {
                        let ghost old_names = names.deep_view();
                        names.push(name.clone());
                        proof {
                            assert(names.deep_view() =~= old_names + seq![name@]);
                            assert(suffix.skip(2) =~= dv.skip(i + 2));
                            if let Some(rest) = parse_components_toks(dv.skip(i + 2)) {
                                assert((old_names + seq![name@]) + rest =~= old_names + (seq![
                                    name@,
                                ] + rest));
                            }
                        }
                        i = i + 2;
                    },
                }
            },
        }
    }
}

/// Parses a token sequence as a system requirement list.
fn parse_attr_tokens(toks: &Vec<Token>) -> (r: Option<Vec<ComponentAttribute>>)
    ensures
        match r {
            Some(attrs) => parse_attrs_toks(toks.deep_view()) == Some(attrs.deep_view()),
            None => parse_attrs_toks(toks.deep_view()) is None,
        },
{
    let ghost dv = toks.deep_view();
    let n = toks.len();
    let mut i: usize = 0;
    let mut attrs: Vec<ComponentAttribute> = Vec::new();
    proof {
        assert(dv.skip(0) =~= dv);
        if let Some(t) = parse_attrs_toks(dv) {
            assert(attrs.deep_view() + t =~= t);
        }
    }
    loop
        invariant
            i <= n,
            n == toks@.len(),
            dv == toks.deep_view(),
            match parse_attrs_toks(dv.skip(i as int)) {
                Some(rest) => parse_attrs_toks(dv) == Some(attrs.deep_view() + rest),
                None => parse_attrs_toks(dv) is None,
            },
        decreases n - i,
    {
        let ghost suffix = dv.skip(i as int);
        if i == n {
            return None;
        }
        assert(suffix[0] == dv[i as int]);
        let is_mut: bool = match &toks[i] {
            Token::Ident(name) => {
                assert(dv[i as int] == SpecTok::Ident(name@));
                is_mut_kw(name)
            },
            Token::Comma => false,
        };
        let j = if is_mut {
            i + 1
        } else {
            i
        };
        let ghost rest = if is_mut {
            suffix.skip(1)
        } else {
            suffix
        };
        proof {
            assert(rest =~= dv.skip(j as int));
        }
        if j == n {
            return None;
        }
        assert(rest[0] == dv[j as int]);
        match &toks[j] {
            Token::Comma => {
                return None;
            },
            Token::Ident(name) => {
                assert(dv[j as int] == SpecTok::Ident(name@));
                if is_keyword_str(name) {
                    return None;
                }
                let attr = ComponentAttribute { name: name.clone(), is_mutable: is_mut };
                assert(attr@ == (SpecAttr { name: name@, is_mutable: is_mut }));
                if j + 1 == n {
                    assert(rest.len() == 1);
                    let ghost old_attrs = attrs.deep_view();
                    attrs.push(attr);
                    assert(attrs.deep_view() =~= old_attrs + seq![
                        SpecAttr { name: name@, is_mutable: is_mut },
                    ]);
                    return Some(attrs);
                }
                assert(rest[1] == dv[j + 1]);
                match &toks[j + 1] {
                    Token::Ident(_) => {
                        return None;
                    },
                    Token::Comma => {
                        let ghost old_attrs = attrs.deep_view();
                        attrs.push(attr);
                        proof {
                            assert(attrs.deep_view() =~= old_attrs + seq![
                                SpecAttr { name: name@, is_mutable: is_mut },
                            ]);
                            assert(rest.skip(2) =~= dv.skip(j + 2));
                            if let Some(tail) = parse_attrs_toks(dv.skip(j + 2)) {
                                assert((old_attrs + seq![
                                    SpecAttr { name: name@, is_mutable: is_mut },
                                ]) + tail =~= old_attrs + (seq![
                                    SpecAttr { name: name@, is_mutable: is_mut },
                                ] + tail));
                            }
                        }
                        i = j + 2;
                    },
                }
            },
        }
    }
}

/// Parses the argument text of an entity declaration into its component type
/// names.
pub fn parse_component_list(input: &str) -> (r: Result<Vec<String>, ParseError>)
    ensures
        match r {
            Ok(names) => spec_parse_component_list(input@) == Some(names.deep_view()),
            Err(e) => spec_parse_component_list(input@) is None && ((e == ParseError::Lex)
                <==> lex_from(input@) is None),
        },
{
    match lex(input) {
        None => Err(ParseError::Lex),
        Some(toks) => match parse_component_tokens(&toks) {
            None => Err(ParseError::Syntax),
            Some(names) => Ok(names),
        },
    }
}

/// Parses the argument text of a system declaration into its component
/// requirements.
pub fn parse_system_attributes(input: &str) -> (r: Result<Vec<ComponentAttribute>, ParseError>)
    ensures
        match r {
            Ok(attrs) => spec_parse_system_attributes(input@) == Some(attrs.deep_view()),
            Err(e) => spec_parse_system_attributes(input@) is None && ((e == ParseError::Lex)
                <==> lex_from(input@) is None),
        },
{
    match lex(input) {
        None => Err(ParseError::Lex),
        Some(toks) => match parse_attr_tokens(&toks) {
            None => Err(ParseError::Syntax),
            Some(attrs) => Ok(attrs),
        },
    }
}

} // verus!
