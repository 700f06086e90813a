//! What the Rust grammar says of a piece of text, as `syn` decides it.
use vstd::prelude::*;

use syn::parse::Parser;

use crate::tokens::{Delim, Tok, is_punct, toks_view};

verus! {

/// The message of `syn`'s error when the whole of `text` is not one Rust type; `None` when
/// it is one.
pub uninterp spec fn type_error(text: Seq<char>) -> Option<Seq<char>>;

/// Whether `syn` parses the whole of `text` as one Rust type.
pub open spec fn is_rust_type(text: Seq<char>) -> bool {
    type_error(text) is None
}

/// What a type slot holding `text` reports when it is no type: `syn`'s message.
pub open spec fn type_message(text: Seq<char>) -> Seq<char> {
    match type_error(text) {
        Some(m) => m,
        None => "expected type"@,
    }
}

/// The message of `syn`'s error when the whole of `text` is not one bound of a type
/// parameter; `None` when it is one.
pub uninterp spec fn bound_error(text: Seq<char>) -> Option<Seq<char>>;

/// Whether `syn` parses the whole of `text` as one bound of a type parameter.
pub open spec fn is_rust_bound(text: Seq<char>) -> bool {
    bound_error(text) is None
}

/// What a list of bounds reports where no bound can be read from `text`: `syn`'s message.
pub open spec fn bound_message(text: Seq<char>) -> Seq<char> {
    match bound_error(text) {
        Some(m) => m,
        None => "expected a bound"@,
    }
}

/// The message of `syn`'s error when `text` is not a list of attribute contents (`Meta`s)
/// separated by commas, a trailing comma allowed; `None` when it is one.
pub uninterp spec fn metas_error(text: Seq<char>) -> Option<Seq<char>>;

/// Whether `syn` parses the whole of `text` as an identifier (a keyword is none).
pub uninterp spec fn is_rust_ident(text: Seq<char>) -> bool;

/// The value of the string literal written as `text`, or `None` if `text` is not one.
pub uninterp spec fn str_literal_value(text: Seq<char>) -> Option<Seq<char>>;

/// What the integer literal written as `text` denotes as a `usize`.
pub uninterp spec fn int_literal_value(text: Seq<char>) -> IntLiteral;

/// `s` in lower case, as `str::to_lowercase` writes it.
pub uninterp spec fn lowercase(s: Seq<char>) -> Seq<char>;

/// An integer literal, read as a `usize`.
#[derive(Clone, Copy, Debug, PartialEq, Eq, Structural)]
pub enum IntLiteral {
    /// The text is no integer literal.
    NotInteger,
    /// An integer literal whose value is no `usize`: too large for one, or negative.
    TooLarge,
    /// An integer literal and its value.
    Value(usize),
}

/// Calls `syn::parse_str::<syn::Type>`: the message of its error when the text is not
/// exactly one Rust type.
#[verifier::external_body]
pub fn parse_type_error(text: &str) -> (r: Option<String>)
    ensures
        match type_error(text@) {
            None => r is None,
            Some(m) => r matches Some(x) && x@ == m,
        },
{
    match syn::parse_str::<syn::Type>(text) {
        Ok(_) => None,
        Err(e) => Some(e.to_string()),
    }
}

/// Calls `syn::parse_str::<syn::TypeParamBound>`: the message of its error when the text
/// is not exactly one bound of a type parameter.
#[verifier::external_body]
pub fn parse_bound_error(text: &str) -> (r: Option<String>)
    ensures
        match bound_error(text@) {
            None => r is None,
            Some(m) => r matches Some(x) && x@ == m,
        },
{
    match syn::parse_str::<syn::TypeParamBound>(text) {
        Ok(_) => None,
        Err(e) => Some(e.to_string()),
    }
}

/// Calls `Punctuated::<syn::Meta, syn::token::Comma>::parse_terminated` on the text, through
/// `Parser::parse_str`: the message of its error when the text is not a list of attribute
/// contents separated by commas.
#[verifier::external_body]
pub fn parse_metas_error(text: &str) -> (r: Option<String>)
    ensures
        match metas_error(text@) {
            None => r is None,
            Some(m) => r matches Some(x) && x@ == m,
        },
{
    match syn::punctuated::Punctuated::<syn::Meta, syn::token::Comma>::parse_terminated.parse_str(text) {
        Ok(_) => None,
        Err(e) => Some(e.to_string()),
    }
}

/// Calls `syn::parse_str::<syn::Ident>`: whether the text is exactly one identifier that is
/// no keyword.
#[verifier::external_body]
pub fn parses_as_ident(text: &str) -> (r: bool)
    ensures
        r == is_rust_ident(text@),
{
    syn::parse_str::<syn::Ident>(text).is_ok()
}

/// Calls `syn::parse_str::<syn::LitStr>` and `LitStr::value`: the value of a string
/// literal, escapes resolved.
#[verifier::external_body]
pub fn read_str_literal(text: &str) -> (r: Option<String>)
    ensures
        r.is_some() == str_literal_value(text@).is_some(),
        r matches Some(v) ==> str_literal_value(text@) == Some(v@),
{
    match syn::parse_str::<syn::LitStr>(text) {
        Ok(lit) => Some(lit.value()),
        Err(_) => None,
    }
}

/// Calls `syn::parse_str::<syn::LitInt>` and `LitInt::base10_parse::<usize>`: the value of
/// an integer literal, its suffix ignored.
#[verifier::external_body]
pub fn read_int_literal(text: &str) -> (r: IntLiteral)
    ensures
        r == int_literal_value(text@),
{
    match syn::parse_str::<syn::LitInt>(text) {
        Err(_) => IntLiteral::NotInteger,
        Ok(lit) => match lit.base10_parse::<usize>() {
            Ok(v) => IntLiteral::Value(v),
            Err(_) => IntLiteral::TooLarge,
        },
    }
}

/// Calls `str::to_lowercase`.
#[verifier::external_body]
pub fn to_lowercase(s: &str) -> (r: String)
    ensures
        r@ == lowercase(s@),
{
    s.to_lowercase()
}

/// Calls `String::push`, which appends one character.
#[verifier::external_body]
pub fn push_char(s: &mut String, c: char)
    ensures
        final(s)@ == old(s)@.push(c),
{
    s.push(c)
}

/// The closing character of a delimiter, and its opening one.
pub open spec fn open_char(d: Delim) -> Option<char> {
    match d {
        Delim::Paren => Some('('),
        Delim::Brace => Some('{'),
        Delim::Bracket => Some('['),
        Delim::Invisible => None,
    }
}

pub open spec fn close_char(d: Delim) -> Option<char> {
    match d {
        Delim::Paren => Some(')'),
        Delim::Brace => Some('}'),
        Delim::Bracket => Some(']'),
        Delim::Invisible => None,
    }
}

pub open spec fn opt_char(c: Option<char>) -> Seq<char> {
    match c {
        Some(c) => seq![c],
        None => Seq::empty(),
    }
}

/// Some token of the list, not inside a group, is a `+`.
pub open spec fn has_plus(s: Seq<Tok>) -> bool {
    exists|i: int| 0 <= i < s.len() && is_punct(#[trigger] s[i], '+')
}

/// The delimiters a group is written between. An invisible group keeps its tokens together
/// as one type: where they hold a `+`, as in `dyn A + B`, it is written in parentheses, so
/// that `&` before it still takes the whole of it.
pub open spec fn written_delims(delim: Delim, body: Seq<Tok>) -> (Option<char>, Option<char>) {
    if delim == Delim::Invisible && has_plus(body) {
        (Some('('), Some(')'))
    } else {
        (open_char(delim), close_char(delim))
    }
}

/// The source text of one token tree: identifiers and literals as written, punctuation
/// joined to the next token when it was, groups between their delimiters, a space after
/// everything else.
pub open spec fn tok_text(t: Tok) -> Seq<char>
    decreases t,
{
    match t {
        Tok::Ident { text, .. } => text@ + seq![' '],
        Tok::Lit { text, .. } => text@ + seq![' '],
        Tok::Punct { ch, joint, .. } => if joint { seq![ch] } else { seq![ch, ' '] },
        Tok::Group { delim, body, .. } => {
            proof {
                assert(decreases_to!(body => body@)) by {
                    broadcast use vstd::std_specs::vec::axiom_vec_decreases_to_view;
                }
            }
            let (o, c) = written_delims(delim, body@);
            opt_char(o) + toks_text(body@) + opt_char(c) + seq![' ']
        },
    }
}

/// Whether some token of `ts`, not inside a group, is a `+`.
fn holds_plus(ts: &Vec<Tok>) -> (r: bool)
    ensures
        r == has_plus(ts@),
{
    let mut i: usize = 0;
    while i < ts.len()
        invariant
            i <= ts.len(),
            forall|j: int| 0 <= j < i ==> !is_punct(#[trigger] ts@[j], '+'),
        decreases ts.len() - i,
    {
        if crate::tokens::tok_is_punct(&ts[i], '+') {
            return true;
        }
        i += 1;
    }
    false
}

/// The source text of a sequence of token trees.
pub open spec fn toks_text(s: Seq<Tok>) -> Seq<char>
    decreases s,
{
    if s.len() == 0 {
        Seq::empty()
    } else {
        toks_text(s.drop_last()) + tok_text(s.last())
    }
}

fn push_delim(out: &mut String, c: Option<char>)
    ensures
        final(out)@ == old(out)@ + opt_char(c),
{
    match c {
        Some(c) => push_char(out, c),
        None => {
            assert(old(out)@ + opt_char(c) =~= old(out)@);
        },
    }
}

fn open_of(d: Delim) -> (r: Option<char>)
    ensures
        r == open_char(d),
{
    match d {
        Delim::Paren => Some('('),
        Delim::Brace => Some('{'),
        Delim::Bracket => Some('['),
        Delim::Invisible => None,
    }
}

fn close_of(d: Delim) -> (r: Option<char>)
    ensures
        r == close_char(d),
{
    match d {
        Delim::Paren => Some(')'),
        Delim::Brace => Some('}'),
        Delim::Bracket => Some(']'),
        Delim::Invisible => None,
    }
}

/// Appends the source text of one token tree.
pub fn write_tok(out: &mut String, t: &Tok)
    ensures
        final(out)@ == old(out)@ + tok_text(*t),
    decreases t,
{
    match t {
        Tok::Ident { text, .. } => {
            out.append(text.as_str());
            push_char(out, ' ');
        },
        Tok::Lit { text, .. } => {
            out.append(text.as_str());
            push_char(out, ' ');
        },
        Tok::Punct { ch, joint, .. } => {
            push_char(out, *ch);
            if !*joint {
                push_char(out, ' ');
            }
        },
        Tok::Group { delim, body, .. } => {
            let ghost start = out@;
            let (o, c) = if *delim == Delim::Invisible && holds_plus(body) {
                (Some('('), Some(')'))
            } else {
                (open_of(*delim), close_of(*delim))
            };
            push_delim(out, o);
            write_toks(out, body, 0, body.len());
            proof {
                assert(body@.subrange(0, body@.len() as int) =~= body@);
            }
            push_delim(out, c);
            push_char(out, ' ');
        },
    }
    assert(final(out)@ =~= old(out)@ + tok_text(*t));
}

/// Appends the source text of `ts[lo..hi]`.
pub fn write_toks(out: &mut String, ts: &Vec<Tok>, lo: usize, hi: usize)
    requires
        lo <= hi <= ts.len(),
    ensures
        final(out)@ == old(out)@ + toks_text(ts@.subrange(lo as int, hi as int)),
    decreases ts, 0nat,
{
    let mut i = lo;
    while i < hi
        invariant
            lo <= i <= hi <= ts.len(),
            out@ == old(out)@ + toks_text(ts@.subrange(lo as int, i as int)),
        decreases hi - i,
    {
        proof {
            assert(decreases_to!(ts => ts@[i as int])) by {
                broadcast use vstd::std_specs::vec::axiom_vec_index_decreases;
            }
        }
        write_tok(out, &ts[i]);
        proof {
            let s = ts@.subrange(lo as int, i + 1);
            assert(s.drop_last() =~= ts@.subrange(lo as int, i as int));
        }
        i += 1;
    }
}

/// The source text of `ts[lo..hi]`.
pub fn text_of(ts: &Vec<Tok>, lo: usize, hi: usize) -> (r: String)
    requires
        lo <= hi <= ts.len(),
    ensures
        r@ == toks_text(ts@.subrange(lo as int, hi as int)),
{
    let mut out = String::new();
    write_toks(&mut out, ts, lo, hi);
    out
}

/// Whether `ts[lo..hi]` is exactly one Rust type.
pub fn is_type_toks(ts: &Vec<Tok>, lo: usize, hi: usize) -> (r: bool)
    requires
        lo <= hi <= ts.len(),
    ensures
        r == is_rust_type(toks_text(ts@.subrange(lo as int, hi as int))),
{
    type_error_of(ts, lo, hi).is_none()
}

/// What `ts[lo..hi]` reports as a type slot when it is no type, `None` when it is one.
pub fn type_error_of(ts: &Vec<Tok>, lo: usize, hi: usize) -> (r: Option<String>)
    requires
        lo <= hi <= ts.len(),
    ensures
        r is None <==> is_rust_type(toks_text(ts@.subrange(lo as int, hi as int))),
        r matches Some(m) ==> m@ == type_message(toks_text(ts@.subrange(lo as int, hi as int))),
{
    let text = text_of(ts, lo, hi);
    parse_type_error(text.as_str())
}

/// The two grammars whose pieces the library asks `syn` about.
#[derive(Clone, Copy, PartialEq, Eq, Structural)]
pub enum Grammar {
    /// A type.
    Type,
    /// A bound of a type parameter, such as `Send` or `'a`.
    Bound,
}

/// Whether `syn` parses the whole of `text` as one piece of grammar `g`.
pub open spec fn parses_as(g: Grammar, text: Seq<char>) -> bool {
    match g {
        Grammar::Type => is_rust_type(text),
        Grammar::Bound => is_rust_bound(text),
    }
}

/// Where the longest run `ts[lo..k]` that is exactly one piece of grammar `g` ends, for
/// `lo < k <= hi`: what a parser reads before it looks for what follows. `lo` when no run
/// is one.
pub open spec fn prefix_end(ts: Seq<Tok>, lo: int, hi: int, g: Grammar) -> int
    decreases hi - lo,
{
    if hi <= lo {
        lo
    } else if parses_as(g, toks_text(ts.subrange(lo, hi))) {
        hi
    } else {
        prefix_end(ts, lo, hi - 1, g)
    }
}

/// The longest run stays within `lo..hi`, and falls short of `hi` when `ts[lo..hi]` is no
/// piece of the grammar.
pub proof fn lemma_prefix_end(ts: Seq<Tok>, lo: int, hi: int, g: Grammar)
    requires
        lo <= hi,
    ensures
        lo <= prefix_end(ts, lo, hi, g) <= hi,
        lo < hi && !parses_as(g, toks_text(ts.subrange(lo, hi))) ==> prefix_end(ts, lo, hi, g) < hi,
    decreases hi - lo,
{
    if hi > lo {
        lemma_prefix_end(ts, lo, hi - 1, g);
    }
}

/// Whether `ts[lo..hi]` is exactly one piece of grammar `g`.
pub fn parses_toks(ts: &Vec<Tok>, lo: usize, hi: usize, g: Grammar) -> (r: bool)
    requires
        lo <= hi <= ts.len(),
    ensures
        r == parses_as(g, toks_text(ts@.subrange(lo as int, hi as int))),
{
    match g {
        Grammar::Type => is_type_toks(ts, lo, hi),
        Grammar::Bound => {
            let text = text_of(ts, lo, hi);
            parse_bound_error(text.as_str()).is_none()
        },
    }
}

/// The end of the longest run `ts[lo..k]` that is exactly one piece of grammar `g` (`lo` if
/// none is).
pub fn longest_prefix(ts: &Vec<Tok>, lo: usize, hi: usize, g: Grammar) -> (r: usize)
    requires
        lo <= hi <= ts.len(),
    ensures
        r == prefix_end(ts@, lo as int, hi as int, g),
{
    let mut k = hi;
    while k > lo
        invariant
            lo <= k <= hi <= ts.len(),
            prefix_end(ts@, lo as int, hi as int, g) == prefix_end(ts@, lo as int, k as int, g),
        decreases k - lo,
    {
        if parses_toks(ts, lo, k, g) {
            return k;
        }
        k -= 1;
    }
    lo
}

/// The index just past the token after `ts[..e]`: a parser that fails at the end of a run
/// sees the token that follows it.
pub open spec fn with_next(ts: Seq<Tok>, e: int) -> int {
    if e < ts.len() {
        e + 1
    } else {
        e
    }
}

/// The index just past the token after `ts[..e]`.
pub fn with_next_exec(ts: &Vec<Tok>, e: usize) -> (r: usize)
    requires
        e <= ts.len(),
    ensures
        r == with_next(ts@, e as int),
        e <= r <= ts.len(),
{
    if e < ts.len() {
        e + 1
    } else {
        e
    }
}

/// What a type slot reports where no type can be read at `ts[lo..]`: `syn`'s message for
/// the text of `ts[lo..hi]`.
pub fn type_message_of(ts: &Vec<Tok>, lo: usize, hi: usize) -> (r: String)
    requires
        lo <= hi <= ts.len(),
    ensures
        r@ == type_message(toks_text(ts@.subrange(lo as int, hi as int))),
{
    match type_error_of(ts, lo, hi) {
        Some(m) => m,
        None => String::from_str("expected type"),
    }
}

/// What a list of bounds reports where no bound can be read at `ts[lo..]`: `syn`'s message
/// for the text of `ts[lo..hi]`.
pub fn bound_message_of(ts: &Vec<Tok>, lo: usize, hi: usize) -> (r: String)
    requires
        lo <= hi <= ts.len(),
    ensures
        r@ == bound_message(toks_text(ts@.subrange(lo as int, hi as int))),
{
    let text = text_of(ts, lo, hi);
    match parse_bound_error(text.as_str()) {
        Some(m) => m,
        None => String::from_str("expected a bound"),
    }
}

} // verus!

verus! {

/// Token lists with the same views have the same text.
pub proof fn lemma_toks_text_view(a: Seq<Tok>, b: Seq<Tok>)
    requires
        toks_view(a) == toks_view(b),
    ensures
        toks_text(a) == toks_text(b),
    decreases a,
{
    crate::tokens::lemma_toks_view(a);
    crate::tokens::lemma_toks_view(b);
    if a.len() > 0 {
        assert(toks_view(a.drop_last()) =~= toks_view(a).drop_last());
        assert(toks_view(b.drop_last()) =~= toks_view(b).drop_last());
        lemma_toks_text_view(a.drop_last(), b.drop_last());
        assert(toks_view(a)[a.len() - 1] == toks_view(b)[b.len() - 1]);
        lemma_tok_text_view(a.last(), b.last());
    }
}

/// Tokens with the same view have the same text.
pub proof fn lemma_tok_text_view(a: Tok, b: Tok)
    requires
        crate::tokens::tok_view(a) == crate::tokens::tok_view(b),
    ensures
        tok_text(a) == tok_text(b),
    decreases a,
{
    match (a, b) {
        (Tok::Group { body: x, .. }, Tok::Group { body: y, .. }) => {
            assert(decreases_to!(a => x@)) by {
                broadcast use vstd::std_specs::vec::axiom_vec_decreases_to_view;
            }
            lemma_toks_text_view(x@, y@);
            crate::tokens::lemma_toks_same(x@, y@);
            assert forall|i: int| 0 <= i < x@.len() implies is_punct(#[trigger] x@[i], '+') == is_punct(
                y@[i],
                '+',
            ) by {
                crate::tokens::lemma_tok_same(x@[i], y@[i]);
            }
            if has_plus(x@) {
                let i = choose|i: int| 0 <= i < x@.len() && is_punct(#[trigger] x@[i], '+');
                assert(is_punct(y@[i], '+'));
            }
            if has_plus(y@) {
                let i = choose|i: int| 0 <= i < y@.len() && is_punct(#[trigger] y@[i], '+');
                assert(is_punct(x@[i], '+'));
            }
        },
        _ => {},
    }
}

} // verus!
