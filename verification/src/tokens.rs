//! The token trees the macro reads and writes.
use vstd::prelude::*;

verus! {

/// The delimiter of a token group.
#[derive(Clone, Copy, Debug, PartialEq, Eq, Structural)]
pub enum Delim {
    Paren,
    Brace,
    Bracket,
    Invisible,
}

/// A token tree, as handed to the macro. `span` identifies the token's source location.
#[derive(Debug)]
pub enum Tok {
    Ident { text: String, span: u64 },
    Punct { ch: char, joint: bool, span: u64 },
    Lit { text: String, span: u64 },
    Group { delim: Delim, body: Vec<Tok>, span: u64 },
}

/// The mathematical value of a token tree.
pub enum TokV {
    Ident(Seq<char>, u64),
    Punct(char, bool, u64),
    Lit(Seq<char>, u64),
    Group(Delim, Seq<TokV>, u64),
}

pub open spec fn tok_view(t: Tok) -> TokV
    decreases t,
{
    match t {
        Tok::Ident { text, span } => TokV::Ident(text@, span),
        Tok::Punct { ch, joint, span } => TokV::Punct(ch, joint, span),
        Tok::Lit { text, span } => TokV::Lit(text@, span),
        Tok::Group { delim, body, span } => {
            proof {
                assert(decreases_to!(body => body@)) by {
                    broadcast use vstd::std_specs::vec::axiom_vec_decreases_to_view;
                }
            }
            TokV::Group(delim, toks_view(body@), span)
        }
    }
}

pub open spec fn toks_view(s: Seq<Tok>) -> Seq<TokV>
    decreases s,
{
    if s.len() == 0 {
        Seq::empty()
    } else {
        toks_view(s.drop_last()).push(tok_view(s.last()))
    }
}

pub proof fn lemma_toks_view(s: Seq<Tok>)
    ensures
        toks_view(s).len() == s.len(),
        forall|i: int| 0 <= i < s.len() ==> #[trigger] toks_view(s)[i] == tok_view(s[i]),
    decreases s.len(),
{
    if s.len() > 0 {
        lemma_toks_view(s.drop_last());
    }
}

impl View for Tok {
    type V = TokV;

    open spec fn view(&self) -> TokV {
        tok_view(*self)
    }
}

} // verus!

verus! {

/// Where a token came from: `span` of an identifier, punctuation, literal or group.
pub open spec fn span_of(t: Tok) -> u64 {
    match t {
        Tok::Ident { span, .. } => span,
        Tok::Punct { span, .. } => span,
        Tok::Lit { span, .. } => span,
        Tok::Group { span, .. } => span,
    }
}

/// `t` is the identifier `s`.
pub open spec fn is_ident(t: Tok, s: Seq<char>) -> bool {
    t matches Tok::Ident { text, .. } && text@ == s
}

/// `t` is the punctuation character `c`, with any spacing.
pub open spec fn is_punct(t: Tok, c: char) -> bool {
    t matches Tok::Punct { ch, .. } && ch == c
}

/// `t` is the punctuation character `c`, joined to the token after it.
pub open spec fn is_joint_punct(t: Tok, c: char) -> bool {
    t matches Tok::Punct { ch, joint, .. } && ch == c && joint
}

/// `t` is a group delimited by `d`.
pub open spec fn is_group(t: Tok, d: Delim) -> bool {
    t matches Tok::Group { delim, .. } && delim == d
}

/// The tokens inside a group; empty for any other token.
pub open spec fn group_body(t: Tok) -> Seq<Tok> {
    match t {
        Tok::Group { body, .. } => body@,
        _ => Seq::empty(),
    }
}

/// The name an identifier stands for: its text without the `r#` of a raw identifier.
pub open spec fn unraw(s: Seq<char>) -> Seq<char> {
    if s.len() >= 2 && s[0] == 'r' && s[1] == '#' {
        s.subrange(2, s.len() as int)
    } else {
        s
    }
}

/// The text of an identifier without the `r#` of a raw identifier.
pub fn unraw_str(s: &str) -> (r: String)
    ensures
        r@ == unraw(s@),
{
    let n = s.unicode_len();
    if n >= 2 && s.get_char(0) == 'r' && s.get_char(1) == '#' {
        String::from_str(s.substring_char(2, n))
    } else {
        String::from_str(s)
    }
}

/// Compares a string with a string slice.
pub fn text_eq(a: &String, b: &str) -> (r: bool)
    ensures
        r == (a@ == b@),
{
    let owned = String::from_str(b);
    *a == owned
}

/// Whether `t` is the identifier `s`.
pub fn tok_is_ident(t: &Tok, s: &str) -> (r: bool)
    ensures
        r == is_ident(*t, s@),
{
    match t {
        Tok::Ident { text, .. } => text_eq(text, s),
        _ => false,
    }
}

/// Whether `t` is the punctuation character `c`.
pub fn tok_is_punct(t: &Tok, c: char) -> (r: bool)
    ensures
        r == is_punct(*t, c),
{
    match t {
        Tok::Punct { ch, .. } => *ch == c,
        _ => false,
    }
}

/// Whether `t` is the punctuation character `c` joined to the next token.
pub fn tok_is_joint_punct(t: &Tok, c: char) -> (r: bool)
    ensures
        r == is_joint_punct(*t, c),
{
    match t {
        Tok::Punct { ch, joint, .. } => *ch == c && *joint,
        _ => false,
    }
}

/// Whether `t` is a group delimited by `d`.
pub fn tok_is_group(t: &Tok, d: Delim) -> (r: bool)
    ensures
        r == is_group(*t, d),
{
    match t {
        Tok::Group { delim, .. } => *delim == d,
        _ => false,
    }
}

/// The span of a token.
pub fn tok_span(t: &Tok) -> (r: u64)
    ensures
        r == span_of(*t),
{
    match t {
        Tok::Ident { span, .. } => *span,
        Tok::Punct { span, .. } => *span,
        Tok::Lit { span, .. } => *span,
        Tok::Group { span, .. } => *span,
    }
}

/// A deep copy of a token tree.
pub fn copy_tok(t: &Tok) -> (r: Tok)
    ensures
        r@ == t@,
    decreases t,
{
    match t {
        Tok::Ident { text, span } => Tok::Ident { text: text.clone(), span: *span },
        Tok::Punct { ch, joint, span } => Tok::Punct { ch: *ch, joint: *joint, span: *span },
        Tok::Lit { text, span } => Tok::Lit { text: text.clone(), span: *span },
        Tok::Group { delim, body, span } => {
            let copied = copy_toks(body, 0, body.len());
            proof {
                assert(body@.subrange(0, body@.len() as int) =~= body@);
            }
            Tok::Group { delim: *delim, body: copied, span: *span }
        },
    }
}

/// A deep copy of the tokens `ts[lo..hi]`.
pub fn copy_toks(ts: &Vec<Tok>, lo: usize, hi: usize) -> (r: Vec<Tok>)
    requires
        lo <= hi <= ts.len(),
    ensures
        toks_view(r@) == toks_view(ts@.subrange(lo as int, hi as int)),
    decreases ts, 0nat,
{
    let mut out: Vec<Tok> = Vec::new();
    let mut i = lo;
    while i < hi
        invariant
            lo <= i <= hi <= ts.len(),
            toks_view(out@) == toks_view(ts@.subrange(lo as int, i as int)),
        decreases hi - i,
    {
        proof {
            assert(decreases_to!(ts => ts@[i as int])) by {
                broadcast use vstd::std_specs::vec::axiom_vec_index_decreases;
            }
        }
        let c = copy_tok(&ts[i]);
        let ghost before = out@;
        out.push(c);
        proof {
            assert(out@.drop_last() =~= before);
            assert(ts@.subrange(lo as int, i + 1).drop_last() =~= ts@.subrange(lo as int, i as int));
        }
        i += 1;
    }
    out
}

} // verus!

verus! {

/// Whether the token at `j` changes the nesting of angle brackets: `<` opens, a `>` that is
/// not the tail of `->` closes.
pub open spec fn angle_delta(ts: Seq<Tok>, j: int) -> int {
    if is_punct(ts[j], '<') {
        1
    } else if is_punct(ts[j], '>') && !(j > 0 && is_joint_punct(ts[j - 1], '-')) {
        -1
    } else {
        0
    }
}

/// The nesting of angle brackets just before `i`, counted from `lo`.
pub open spec fn angle_depth(ts: Seq<Tok>, lo: int, i: int) -> int
    decreases i - lo,
{
    if i <= lo {
        0
    } else {
        angle_depth(ts, lo, i - 1) + angle_delta(ts, i - 1)
    }
}

/// `ts[j]` is one of the separators `a`, `b`, outside any angle brackets opened from `lo`.
pub open spec fn is_top_sep(ts: Seq<Tok>, lo: int, j: int, a: char, b: char) -> bool {
    angle_depth(ts, lo, j) == 0 && (is_punct(ts[j], a) || is_punct(ts[j], b))
}

/// The first top-level separator `a` or `b` in `ts[lo..hi]`, or `hi`.
pub open spec fn first_top_sep(ts: Seq<Tok>, lo: int, hi: int, a: char, b: char) -> int
    decreases hi - lo,
{
    first_top_sep_from(ts, lo, lo, hi, a, b)
}

pub open spec fn first_top_sep_from(ts: Seq<Tok>, lo: int, i: int, hi: int, a: char, b: char) -> int
    decreases hi - i,
{
    if i >= hi {
        hi
    } else if is_top_sep(ts, lo, i, a, b) {
        i
    } else {
        first_top_sep_from(ts, lo, i + 1, hi, a, b)
    }
}

/// Finds the first separator `a` or `b` of `ts[lo..hi]` that is not inside angle brackets
/// opened in that range; `hi` if there is none.
pub fn find_top(ts: &Vec<Tok>, lo: usize, hi: usize, a: char, b: char) -> (r: usize)
    requires
        lo <= hi <= ts.len(),
    ensures
        r == first_top_sep(ts@, lo as int, hi as int, a, b),
        lo <= r <= hi,
        r < hi ==> is_top_sep(ts@, lo as int, r as int, a, b),
        forall|j: int| lo <= j < r ==> !is_top_sep(ts@, lo as int, j, a, b),
{
    let mut i = lo;
    let mut opens: usize = 0;
    let mut closes: usize = 0;
    while i < hi
        invariant
            lo <= i <= hi <= ts.len(),
            opens + closes <= i - lo,
            angle_depth(ts@, lo as int, i as int) == opens - closes,
            forall|j: int| lo <= j < i ==> !is_top_sep(ts@, lo as int, j, a, b),
            first_top_sep(ts@, lo as int, hi as int, a, b) == first_top_sep_from(
                ts@,
                lo as int,
                i as int,
                hi as int,
                a,
                b,
            ),
        decreases hi - i,
    {
        let depth_zero = opens == closes;
        if depth_zero && (tok_is_punct(&ts[i], a) || tok_is_punct(&ts[i], b)) {
            return i;
        }
        if tok_is_punct(&ts[i], '<') {
            opens += 1;
        } else if tok_is_punct(&ts[i], '>') && !(i > 0 && tok_is_joint_punct(&ts[i - 1], '-')) {
            closes += 1;
        }
        i += 1;
    }
    i
}

/// The first token of `ts[lo..hi]` and its span, or `end` when the range is empty: where
/// an error about that range is reported.
pub open spec fn span_at(ts: Seq<Tok>, i: int, hi: int, end: u64) -> u64 {
    if i < hi {
        span_of(ts[i])
    } else {
        end
    }
}

/// A parser's message for an error where the tokens it reads have run out.
pub open spec fn at_end(m: Seq<char>) -> Seq<char> {
    "unexpected end of input, "@ + m
}

/// An error a parser raises at `ts[i]` of `ts[..hi]`: there, with message `m`; at `end`, and
/// saying that the tokens ran out, when the range is empty.
pub open spec fn err_at(ts: Seq<Tok>, i: int, hi: int, end: u64, m: Seq<char>) -> (u64, Seq<char>) {
    if i < hi {
        (span_of(ts[i]), m)
    } else {
        (end, at_end(m))
    }
}

pub fn span_at_exec(ts: &Vec<Tok>, i: usize, hi: usize, end: u64) -> (r: u64)
    requires
        hi <= ts.len(),
    ensures
        r == span_at(ts@, i as int, hi as int, end),
{
    if i < hi {
        tok_span(&ts[i])
    } else {
        end
    }
}

} // verus!

verus! {

/// Tokens with the same view answer every question about them alike.
pub proof fn lemma_tok_same(t1: Tok, t2: Tok)
    requires
        tok_view(t1) == tok_view(t2),
    ensures
        span_of(t1) == span_of(t2),
        t1 is Ident <==> t2 is Ident,
        t1 is Lit <==> t2 is Lit,
        t1 is Group <==> t2 is Group,
        forall|s: Seq<char>| #[trigger] is_ident(t1, s) == is_ident(t2, s),
        forall|c: char| #[trigger] is_punct(t1, c) == is_punct(t2, c),
        forall|c: char| #[trigger] is_joint_punct(t1, c) == is_joint_punct(t2, c),
        forall|d: Delim| #[trigger] is_group(t1, d) == is_group(t2, d),
        toks_view(group_body(t1)) == toks_view(group_body(t2)),
        t1 matches Tok::Ident { text: a, .. } ==> t2 matches Tok::Ident { text: b, .. } && a@ == b@,
        t1 matches Tok::Lit { text: a, .. } ==> t2 matches Tok::Lit { text: b, .. } && a@ == b@,
        t1 matches Tok::Group { delim: a, .. } ==> t2 matches Tok::Group { delim: b, .. } && a == b,
{
    match (t1, t2) {
        (Tok::Group { body: b1, .. }, Tok::Group { body: b2, .. }) => {},
        _ => {},
    }
}

/// Token lists with the same view hold tokens with the same views, in the same places.
pub proof fn lemma_toks_same(s1: Seq<Tok>, s2: Seq<Tok>)
    requires
        toks_view(s1) == toks_view(s2),
    ensures
        s1.len() == s2.len(),
        forall|i: int| 0 <= i < s1.len() ==> tok_view(#[trigger] s1[i]) == tok_view(s2[i]),
{
    lemma_toks_view(s1);
    lemma_toks_view(s2);
    assert(s1.len() == s2.len());
    assert forall|i: int| 0 <= i < s1.len() implies tok_view(#[trigger] s1[i]) == tok_view(s2[i]) by {
        assert(toks_view(s1)[i] == tok_view(s1[i]));
        assert(toks_view(s2)[i] == tok_view(s2[i]));
    }
}

} // verus!
