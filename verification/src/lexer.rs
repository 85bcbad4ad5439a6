//! Tokens of the generator's input grammars, and the lexer that produces them.
//!
//! Both input grammars — the component list of an entity declaration and the
//! component requirements of a system — are written with only two kinds of
//! token: identifiers and commas, separated by optional whitespace.
//! Identifiers follow the host language's lexer: an underscore or a Unicode
//! XID_Start character, then Unicode XID_Continue characters; whitespace is
//! the four ASCII blank characters.  Raw identifiers are not accepted.

use vstd::prelude::*;

verus! {

/// Whitespace accepted between tokens.
pub open spec fn is_ws_char(c: char) -> bool {
    c == ' ' || c == '\t' || c == '\n' || c == '\r'
}

/// Whether `c` has the Unicode XID_Start property.
pub uninterp spec fn is_xid_start_char(c: char) -> bool;

/// Whether `c` has the Unicode XID_Continue property.
pub uninterp spec fn is_xid_continue_char(c: char) -> bool;

/// Relies on unicode-ident's `is_xid_start`: whether `c` has the Unicode
/// XID_Start property, a fixed property of the character alone.
#[verifier::external_body]
fn xid_start(c: char) -> (r: bool)
    ensures
        r == is_xid_start_char(c),
{
    unicode_ident::is_xid_start(c)
}

/// Relies on unicode-ident's `is_xid_continue`: whether `c` has the Unicode
/// XID_Continue property, a fixed property of the character alone.
#[verifier::external_body]
fn xid_continue(c: char) -> (r: bool)
    ensures
        r == is_xid_continue_char(c),
{
    unicode_ident::is_xid_continue(c)
}

/// A character that may open an identifier: an underscore or one with the
/// XID_Start property.
pub open spec fn is_ident_start_char(c: char) -> bool {
    c == '_' || is_xid_start_char(c)
}

/// A character that may continue an identifier: one that may open one, or
/// one with the XID_Continue property.
pub open spec fn is_ident_char(c: char) -> bool {
    is_ident_start_char(c) || is_xid_continue_char(c)
}

/// Executable mirror of `is_ws_char`.
pub fn ws_char(c: char) -> (r: bool)
    ensures
        r == is_ws_char(c),
{
    c == ' ' || c == '\t' || c == '\n' || c == '\r'
}

/// Executable mirror of `is_ident_start_char`.
pub fn ident_start_char(c: char) -> (r: bool)
    ensures
        r == is_ident_start_char(c),
{
    c == '_' || xid_start(c)
}

/// Executable mirror of `is_ident_char`.
pub fn ident_char(c: char) -> (r: bool)
    ensures
        r == is_ident_char(c),
{
    ident_start_char(c) || xid_continue(c)
}

/// One token of the input grammars.
pub enum Token {
    Ident(String),
    Comma,
}

/// The mathematical form of a token.
pub enum SpecTok {
    Ident(Seq<char>),
    Comma,
}

impl View for Token {
    type V = SpecTok;

    open spec fn view(&self) -> SpecTok {
        match self {
            Token::Ident(s) => SpecTok::Ident(s@),
            Token::Comma => SpecTok::Comma,
        }
    }
}

impl DeepView for Token {
    type V = SpecTok;

    open spec fn deep_view(&self) -> SpecTok {
        self.view()
    }
}

/// Length of the longest identifier-character prefix of `s`.
pub open spec fn ident_len(s: Seq<char>) -> nat
    decreases s.len(),
{
    if s.len() > 0 && is_ident_char(s[0]) {
        (1 + ident_len(s.skip(1))) as nat
    } else {
        0
    }
}

/// An identifier run never outgrows its sequence.
pub proof fn lemma_ident_len_le(s: Seq<char>)
    ensures
        ident_len(s) <= s.len(),
    decreases s.len(),
{
    if s.len() > 0 && is_ident_char(s[0]) {
        lemma_ident_len_le(s.skip(1));
    }
}

/// `ident_len` is exactly the length of a run of identifier characters that
/// is either closed by a non-identifier character or reaches the end.
pub proof fn lemma_ident_len_run(s: Seq<char>, k: int)
    requires
        0 <= k <= s.len(),
        forall|j: int| 0 <= j < k ==> is_ident_char(#[trigger] s[j]),
        k == s.len() || !is_ident_char(s[k]),
    ensures
        ident_len(s) == k,
    decreases k,
{
    if k == 0 {
    } else {
        assert(is_ident_char(s[0]));
        assert(forall|j: int| 0 <= j < k - 1 ==> is_ident_char(#[trigger] s.skip(1)[j]));
        lemma_ident_len_run(s.skip(1), k - 1);
    }
}

/// The token sequence of `s`, or `None` if `s` holds a character that fits
/// no token.
pub open spec fn lex_from(s: Seq<char>) -> Option<Seq<SpecTok>>
    decreases s.len(),
{
    if s.len() == 0 {
        Some(Seq::empty())
    } else if is_ws_char(s[0]) {
        lex_from(s.skip(1))
    } else if s[0] == ',' {
        match lex_from(s.skip(1)) {
            Some(t) => Some(seq![SpecTok::Comma] + t),
            None => None,
        }
    } else if is_ident_start_char(s[0]) {
        proof {
            lemma_ident_len_le(s);
        }
        match lex_from(s.skip(ident_len(s) as int)) {
            Some(t) => Some(seq![SpecTok::Ident(s.take(ident_len(s) as int))] + t),
            None => None,
        }
    } else {
        None
    }
}

/// Lexes `input` into tokens; `None` exactly when some character of `input`
/// fits no token.
pub fn lex(input: &str) -> (r: Option<Vec<Token>>)
    ensures
        match r {
            Some(toks) => lex_from(input@) == Some(toks.deep_view()),
            None => lex_from(input@) is None,
        },
{
    let n = input.unicode_len();
    let mut i: usize = 0;
    let mut toks: Vec<Token> = Vec::new();
    proof {
        assert(input@.skip(0) =~= input@);
        if let Some(t) = lex_from(input@) {
            assert(toks.deep_view() + t =~= t);
        }
    }
    loop
        invariant
            i <= n,
            n == input@.len(),
            match lex_from(input@.skip(i as int)) {
                Some(t) => lex_from(input@) == Some(toks.deep_view() + t),
                None => lex_from(input@) is None,
            },
        decreases n - i,
    {
        if i == n {
            assert(input@.skip(i as int) =~= Seq::<char>::empty());
            assert(toks.deep_view() + Seq::<SpecTok>::empty() =~= toks.deep_view());
            return Some(toks);
        }
        let ghost suffix = input@.skip(i as int);
        assert(suffix[0] == input@[i as int]);
        let c = input.get_char(i);
        if ws_char(c) {
            assert(suffix.skip(1) =~= input@.skip(i + 1));
            i = i + 1;
        } else if c == ',' {
            let ghost old_toks = toks.deep_view();
            toks.push(Token::Comma);
            assert(toks.deep_view() =~= old_toks + seq![SpecTok::Comma]);
            assert(suffix.skip(1) =~= input@.skip(i + 1));
            proof {
                if let Some(t) = lex_from(input@.skip(i + 1)) {
                    assert((old_toks + seq![SpecTok::Comma]) + t =~= old_toks + (seq![
                        SpecTok::Comma,
                    ] + t));
                }
            }
            i = i + 1;
        } else if ident_start_char(c) {
            let start = i;
            i = i + 1;
            loop
                invariant
                    start < i <= n,
                    n == input@.len(),
                    is_ident_start_char(input@[start as int]),
                    forall|j: int| start <= j < i ==> is_ident_char(#[trigger] input@[j]),
                ensures
                    start < i <= n,
                    forall|j: int| start <= j < i ==> is_ident_char(#[trigger] input@[j]),
                    i == n || !is_ident_char(input@[i as int]),
                decreases n - i,
            {
                if i == n {
                    break ;
                }
                let c2 = input.get_char(i);
                if ident_char(c2) {
                    i = i + 1;
                } else {
                    break ;
                }
            }
            proof {
                assert(forall|j: int|
                    0 <= j < i - start ==> is_ident_char(#[trigger] suffix[j]));
                assert(i - start == suffix.len() || !is_ident_char(suffix[i - start]));
                lemma_ident_len_run(suffix, i - start);
                assert(suffix.take(i - start) =~= input@.subrange(start as int, i as int));
                assert(suffix.skip(i - start) =~= input@.skip(i as int));
            }
            let text = input.substring_char(start, i);
            let ghost old_toks = toks.deep_view();
            let owned: String = text.to_owned();
            toks.push(Token::Ident(owned));
            proof {
                assert(toks.deep_view() =~= old_toks + seq![
                    SpecTok::Ident(input@.subrange(start as int, i as int)),
                ]);
                if let Some(t) = lex_from(input@.skip(i as int)) {
                    assert((old_toks + seq![
                        SpecTok::Ident(input@.subrange(start as int, i as int)),
                    ]) + t =~= old_toks + (seq![
                        SpecTok::Ident(input@.subrange(start as int, i as int)),
                    ] + t));
                }
            }
        } else {
            assert(lex_from(suffix) is None);
            return None;
        }
    }
}

} // verus!
