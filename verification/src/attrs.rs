//! The attributes the macro reads: doc comments, symbols, opaque layouts.
use vstd::prelude::*;

use crate::out::Error;
use crate::syntax::{
    IntLiteral, int_literal_value, read_int_literal, read_str_literal, str_literal_value,
};
use crate::tokens::{
    Delim, Tok, TokV, copy_tok, copy_toks, group_body, is_group, is_ident, is_punct, span_at,
    span_at_exec, span_of, tok_is_group, tok_is_ident, tok_is_punct, tok_span, tok_view, toks_view,
};

verus! {

/// An outer attribute `#[...]`: the `#` and the bracketed group, as written.
#[derive(Debug)]
pub struct Attr {
    pub pound: Tok,
    pub group: Tok,
}

impl Attr {
    /// The tokens between the brackets, read through an invisible group that holds all of
    /// them, as a `#[$m:meta]` of `macro_rules!` leaves one.
    pub open spec fn body(self) -> Seq<Tok> {
        let b = group_body(self.group);
        if b.len() == 1 && b[0] matches Tok::Group { delim: Delim::Invisible, .. } {
            group_body(b[0])
        } else {
            b
        }
    }

    /// Where errors about the attribute are reported: its `#`.
    pub open spec fn span(self) -> u64 {
        span_of(self.pound)
    }

    /// The attribute's path is the single identifier `name`.
    pub open spec fn path_is(self, name: Seq<char>) -> bool {
        let b = self.body();
        &&& b.len() >= 1
        &&& is_ident(b[0], name)
        &&& (b.len() == 1 || !is_punct(b[1], ':'))
    }

    /// The view of the attribute's tokens.
    pub open spec fn toks(self) -> (TokV, TokV) {
        (tok_view(self.pound), tok_view(self.group))
    }
}

/// The tokens between the attribute's brackets, as `Attr::body` reads them, and the span of
/// its bracketed group; `None` when that is no group.
pub fn attr_body(a: &Attr) -> (r: Option<(&Vec<Tok>, u64)>)
    ensures
        r is Some <==> a.group is Group,
        r matches Some((b, gspan)) ==> b@ == a.body() && gspan == span_of(a.group),
{
    match &a.group {
        Tok::Group { body, span, .. } => {
            if body.len() == 1 {
                if let Tok::Group { delim: Delim::Invisible, body: held, .. } = &body[0] {
                    return Some((held, *span));
                }
            }
            Some((body, *span))
        },
        _ => None,
    }
}

/// Whether the attribute's path is the single identifier `name`.
pub fn attr_path_is(a: &Attr, name: &str) -> (r: bool)
    ensures
        r == a.path_is(name@),
{
    match attr_body(a) {
        Some((body, _)) => {
            body.len() >= 1 && tok_is_ident(&body[0], name) && (body.len() == 1 || !tok_is_punct(
                &body[1],
                ':',
            ))
        },
        None => false,
    }
}

/// Attributes whose bracketed groups read alike have bodies that read alike.
pub proof fn lemma_body_same(a: Attr, b: Attr)
    requires
        tok_view(a.group) == tok_view(b.group),
    ensures
        toks_view(a.body()) == toks_view(b.body()),
{
    crate::tokens::lemma_tok_same(a.group, b.group);
    let x = group_body(a.group);
    let y = group_body(b.group);
    crate::tokens::lemma_toks_same(x, y);
    if x.len() == 1 {
        crate::tokens::lemma_tok_same(x[0], y[0]);
    }
}

/// A copy of an attribute.
pub fn copy_attr(a: &Attr) -> (r: Attr)
    ensures
        r.toks() == a.toks(),
        r.body() == a.body() || toks_view(r.body()) == toks_view(a.body()),
        r.span() == a.span(),
{
    let r = Attr { pound: copy_tok(&a.pound), group: copy_tok(&a.group) };
    proof {
        assert(span_of(r.pound) == span_of(a.pound)) by {
            assert(tok_view(r.pound) == tok_view(a.pound));
        }
        assert(toks_view(r.body()) == toks_view(a.body())) by {
            assert(tok_view(r.group) == tok_view(a.group));
            lemma_body_same(r, *a);
        }
    }
    r
}

/// The attributes `ts[lo..p]`, each a `#` followed by a bracketed group, are `attrs`.
pub open spec fn attrs_at(ts: Seq<Tok>, lo: int, p: int, attrs: Seq<Attr>) -> bool {
    &&& lo <= p
    &&& p - lo == 2 * attrs.len()
    &&& forall|k: int|
        0 <= k < attrs.len() ==> {
            &&& is_punct(ts[lo + 2 * k], '#')
            &&& is_group(ts[lo + 2 * k + 1], Delim::Bracket)
            &&& tok_view(#[trigger] attrs[k].pound) == tok_view(ts[lo + 2 * k])
            &&& tok_view(attrs[k].group) == tok_view(ts[lo + 2 * k + 1])
        }
}

/// Nothing at `p` starts an outer attribute.
pub open spec fn no_attr_at(ts: Seq<Tok>, p: int, hi: int) -> bool {
    p >= hi || !is_punct(ts[p], '#') || (p + 1 < hi && is_punct(ts[p + 1], '!'))
}

/// Where the outer attributes from `p` on end in `ts[..hi]`, or the error for a `#` that
/// is followed by neither a bracketed group nor `!`.
pub open spec fn outer_attrs_end(ts: Seq<Tok>, p: int, hi: int, end: u64) -> Result<int, (u64, Seq<char>)>
    decreases hi - p,
{
    if 0 <= p < hi && is_punct(ts[p], '#') && !(p + 1 < hi && is_punct(ts[p + 1], '!')) {
        if p + 1 >= hi || !is_group(ts[p + 1], Delim::Bracket) {
            Err(crate::tokens::err_at(ts, p + 1, hi, end, "expected square brackets"@))
        } else {
            outer_attrs_end(ts, p + 2, hi, end)
        }
    } else {
        Ok(p)
    }
}

/// Parses the outer attributes at the start of `ts[lo..hi]`: each `#` must be followed by a
/// bracketed group, or by `!` (an inner attribute, which ends the list). `end` is the span
/// reported when the range ends too early.
pub fn parse_outer_attrs(ts: &Vec<Tok>, lo: usize, hi: usize, end: u64) -> (r: Result<
    (Vec<Attr>, usize),
    Error,
>)
    requires
        lo <= hi <= ts.len(),
    ensures
        r matches Ok((attrs, p)) ==> p <= hi && attrs_at(ts@, lo as int, p as int, attrs@)
            && no_attr_at(ts@, p as int, hi as int),
        match outer_attrs_end(ts@, lo as int, hi as int, end) {
            Ok(q) => r matches Ok((_, p)) && p == q,
            Err(e) => r matches Err(x) && x@ == e,
        },
{
    let mut attrs: Vec<Attr> = Vec::new();
    let mut p = lo;
    while p < hi && tok_is_punct(&ts[p], '#') && !(p + 1 < hi && tok_is_punct(&ts[p + 1], '!'))
        invariant
            lo <= p <= hi <= ts.len(),
            attrs_at(ts@, lo as int, p as int, attrs@),
            outer_attrs_end(ts@, lo as int, hi as int, end) == outer_attrs_end(
                ts@,
                p as int,
                hi as int,
                end,
            ),
        decreases hi - p,
    {
        if p + 1 >= hi || !tok_is_group(&ts[p + 1], Delim::Bracket) {
            return Err(crate::out::error_at(ts, p + 1, hi, end, "expected square brackets"));
        }
        let a = Attr { pound: copy_tok(&ts[p]), group: copy_tok(&ts[p + 1]) };
        let ghost before = attrs@;
        attrs.push(a);
        proof {
            assert forall|k: int| 0 <= k < attrs@.len() implies {
                &&& is_punct(ts@[lo + 2 * k], '#')
                &&& is_group(ts@[lo + 2 * k + 1], Delim::Bracket)
                &&& tok_view(#[trigger] attrs@[k].pound) == tok_view(ts@[lo + 2 * k])
                &&& tok_view(attrs@[k].group) == tok_view(ts@[lo + 2 * k + 1])
            } by {
                if k < before.len() {
                    assert(attrs@[k] == before[k]);
                }
            }
        }
        p += 2;
    }
    Ok((attrs, p))
}

/// A string given by a `#[name = "..."]` attribute: its value and where it was written.
#[derive(Debug)]
pub struct Sym {
    pub value: String,
    pub span: u64,
}

impl View for Sym {
    type V = (Seq<char>, u64);

    open spec fn view(&self) -> (Seq<char>, u64) {
        (self.value@, self.span)
    }
}

pub fn copy_sym(s: &Sym) -> (r: Sym)
    ensures
        r@ == s@,
{
    Sym { value: s.value.clone(), span: s.span }
}

/// The message for an attribute that is not `#[name = "..."]`.
pub open spec fn name_value_help(name: Seq<char>) -> Seq<char> {
    "expected `#["@ + name + " = \"...\"]`"@
}

/// What `#[name = "..."]` gives: the string's value and span, or the error.
pub open spec fn str_attr_value(a: Attr, name: Seq<char>) -> Result<(Seq<char>, u64), (u64, Seq<char>)> {
    let b = a.body();
    if b.len() >= 2 && is_punct(b[1], '=') {
        match (if b.len() == 3 { Some(b[2]) } else { None }) {
            Some(Tok::Lit { text, span }) if str_literal_value(text@) is Some => Ok(
                (str_literal_value(text@)->0, span),
            ),
            _ => Err(
                (span_at(b, 2, b.len() as int, span_of(a.group)), "expected a string literal"@),
            ),
        }
    } else {
        Err((a.span(), name_value_help(name)))
    }
}

/// Parses the string literal of a `#[name = "..."]` attribute.
pub fn parse_str_attr(a: &Attr, name: &str) -> (r: Result<Sym, Error>)
    ensures
        match str_attr_value(*a, name@) {
            Ok(v) => r matches Ok(s) && s@ == v,
            Err(e) => r matches Err(x) && x@ == e,
        },
{
    let (body, gspan) = match attr_body(a) {
        Some(x) => x,
        None => {
            let mut m = String::from_str("expected `#[");
            m.append(name);
            m.append(" = \"...\"]`");
            return Err(Error { span: tok_span(&a.pound), message: m });
        },
    };
    if body.len() >= 2 && tok_is_punct(&body[1], '=') {
        if body.len() == 3 {
            if let Tok::Lit { text, span } = &body[2] {
                if let Some(v) = read_str_literal(text.as_str()) {
                    return Ok(Sym { value: v, span: *span });
                }
            }
        }
        let span = span_at_exec(body, 2, body.len(), gspan);
        Err(Error::new(span, "expected a string literal"))
    } else {
        let mut m = String::from_str("expected `#[");
        m.append(name);
        m.append(" = \"...\"]`");
        Err(Error { span: tok_span(&a.pound), message: m })
    }
}

/// `n` is a power of two.
pub open spec fn is_pow2(n: nat) -> bool
    decreases n,
{
    if n == 1 {
        true
    } else if n == 0 || n % 2 == 1 {
        false
    } else {
        is_pow2(n / 2)
    }
}

/// Whether `n` is a power of two.
pub fn is_power_of_two(n: usize) -> (r: bool)
    ensures
        r == is_pow2(n as nat),
{
    let mut m = n;
    while m > 1 && m % 2 == 0
        invariant
            is_pow2(n as nat) == is_pow2(m as nat),
        decreases m,
    {
        m = m / 2;
    }
    m == 1
}

/// The least multiple of `align` that is at least `size`.
pub open spec fn next_multiple(size: nat, align: nat) -> nat
    recommends
        align > 0,
{
    if size % align == 0 {
        size
    } else {
        (size - size % align + align) as nat
    }
}

/// `size` rounded up to a multiple of `align`, if that fits in a `usize`.
pub fn checked_next_multiple(size: usize, align: usize) -> (r: Option<usize>)
    requires
        align > 0,
    ensures
        r matches Some(p) ==> p == next_multiple(size as nat, align as nat),
        r is None ==> next_multiple(size as nat, align as nat) > usize::MAX,
{
    let rem = size % align;
    assert(rem <= size) by {
        vstd::arithmetic::div_mod::lemma_mod_pos_bound(size as int, align as int);
        vstd::arithmetic::div_mod::lemma_fundamental_div_mod(size as int, align as int);
        vstd::arithmetic::mul::lemma_mul_nonnegative(align as int, size as int / align as int);
    }
    if rem == 0 {
        Some(size)
    } else {
        (size - rem).checked_add(align)
    }
}

/// `m` is a multiple of `align`.
pub open spec fn multiple_of(m: nat, align: nat) -> bool {
    m % align == 0
}

/// The rounded size is a multiple of the alignment, at least the size, and less than the
/// size plus the alignment: the least such multiple.
pub proof fn lemma_next_multiple(size: nat, align: nat)
    requires
        align > 0,
    ensures
        next_multiple(size, align) % align == 0,
        size <= next_multiple(size, align) < size + align,
        forall|m: nat| #[trigger] multiple_of(m, align) && size <= m ==> next_multiple(size, align) <= m,
{
    let a = align as int;
    let q = size as int / a;
    let r = size as int % a;
    vstd::arithmetic::div_mod::lemma_fundamental_div_mod(size as int, a);
    vstd::arithmetic::div_mod::lemma_mod_pos_bound(size as int, a);
    let p = next_multiple(size, align);
    if r == 0 {
        assert(p == size);
    } else {
        assert(p == a * q + a);
        vstd::arithmetic::mul::lemma_mul_is_distributive_add(a, q, 1);
        vstd::arithmetic::mul::lemma_mul_is_commutative(a, q + 1);
        vstd::arithmetic::div_mod::lemma_mod_multiples_basic(q + 1, a);
    }
    assert forall|m: nat| #[trigger] multiple_of(m, align) && size <= m implies p <= m by {
        if r != 0 && m < p {
            let k = m as int / a;
            vstd::arithmetic::div_mod::lemma_fundamental_div_mod(m as int, a);
            assert(m as int == a * k);
            vstd::arithmetic::mul::lemma_mul_is_distributive_add(a, q, 1);
            if k <= q {
                vstd::arithmetic::mul::lemma_mul_inequality(k, q, a);
                vstd::arithmetic::mul::lemma_mul_is_commutative(a, k);
                vstd::arithmetic::mul::lemma_mul_is_commutative(a, q);
            } else {
                vstd::arithmetic::mul::lemma_mul_inequality(q + 1, k, a);
                vstd::arithmetic::mul::lemma_mul_is_commutative(a, k);
                vstd::arithmetic::mul::lemma_mul_is_commutative(a, q + 1);
            }
        }
    }
}

/// One `#[opaque(size = N, align = M)]` attribute, possibly wrapped in a `cfg_attr`.
#[derive(Debug)]
pub struct OpaqueLayout {
    /// The `cfg_attr` predicate, verbatim; `None` for a plain `#[opaque]`.
    pub cfg: Option<Vec<Tok>>,
    /// The declared alignment, as written.
    pub align: Tok,
    /// Its value.
    pub align_value: usize,
    /// The declared size.
    pub size: usize,
    /// The declared size rounded up to a multiple of the alignment: the opaque struct's
    /// storage, which then covers the whole struct.
    pub padded_size: usize,
    /// Where the size was written.
    pub size_span: u64,
}

/// The message for a malformed `#[opaque(...)]`.
pub open spec fn opaque_help() -> Seq<char> {
    "expected `#[opaque(size = N, align = M)]`"@
}

/// `body[i..i + 3]` is the entry `key = literal`, the literal's value being `v`.
pub open spec fn entry_at(body: Seq<Tok>, i: int, key: Seq<char>, v: IntLiteral) -> bool {
    &&& 0 <= i && i + 2 < body.len()
    &&& is_ident(body[i], key)
    &&& is_punct(body[i + 1], '=')
    &&& body[i + 2] matches Tok::Lit { text, .. } && int_literal_value(text@) == v
}

/// `l` stands for the entries `size = N` and `align = M` of `body`: its storage is `N`
/// rounded up to a multiple of `M`.
pub open spec fn layout_written(body: Seq<Tok>, l: OpaqueLayout) -> bool {
    exists|i: int, j: int|
        #![trigger entry_at(body, i, "size"@, IntLiteral::Value(l.size)), entry_at(body, j, "align"@, IntLiteral::Value(l.align_value))]
        entry_at(body, i, "size"@, IntLiteral::Value(l.size)) && entry_at(
            body,
            j,
            "align"@,
            IntLiteral::Value(l.align_value),
        ) && tok_view(l.align) == tok_view(body[j + 2]) && l.size_span == span_of(body[i + 2])
}

/// A layout is sound: its alignment is a power of two, written as a literal of that value,
/// and its storage is its size rounded up to a multiple of the alignment.
pub open spec fn layout_ok(l: OpaqueLayout) -> bool {
    &&& is_pow2(l.align_value as nat)
    &&& l.padded_size == next_multiple(l.size as nat, l.align_value as nat)
    &&& l.align matches Tok::Lit { text, .. } && int_literal_value(text@) == IntLiteral::Value(
        l.align_value,
    )
}

/// An entry `key = literal` found at `at`: where, the literal's value, the literal's span.
pub type Entry = (int, IntLiteral, u64);

/// The literal value of the entry at `i`, `NotInteger` when no literal is there.
pub open spec fn entry_value(body: Seq<Tok>, i: int) -> IntLiteral {
    match body[i + 2] {
        Tok::Lit { text, .. } => int_literal_value(text@),
        _ => IntLiteral::NotInteger,
    }
}

/// Reads the entries of `#[opaque(...)]` from `i` on, `size` and `align` being the last
/// entries of each key read so far: the last ones of the whole list, or the first error.
pub open spec fn opaque_entries(
    body: Seq<Tok>,
    i: int,
    list_span: u64,
    size: Option<Entry>,
    align: Option<Entry>,
) -> Result<(Option<Entry>, Option<Entry>), (u64, Seq<char>)>
    decreases body.len() - i,
{
    let n = body.len();
    if i < 0 || i >= n {
        Ok((size, align))
    } else if !(body[i] is Ident) {
        Err((span_of(body[i]), "expected identifier"@))
    } else if i + 1 >= n || !is_punct(body[i + 1], '=') {
        Err(crate::tokens::err_at(body, i + 1, n as int, list_span, "expected `=`"@))
    } else if i + 2 >= n {
        Err((list_span, crate::tokens::at_end("expected integer literal"@)))
    } else if entry_value(body, i) == IntLiteral::NotInteger {
        Err((span_of(body[i + 2]), "expected integer literal"@))
    } else if !is_ident(body[i], "size"@) && !is_ident(body[i], "align"@) {
        Err((span_of(body[i]), "expected `size` or `align`"@))
    } else if i + 3 < n && !is_punct(body[i + 3], ',') {
        Err((span_of(body[i + 3]), "expected `,`"@))
    } else {
        let e = Some((i, entry_value(body, i), span_of(body[i + 2])));
        let next = if i + 3 < n {
            i + 4
        } else {
            i + 3
        };
        if is_ident(body[i], "size"@) {
            opaque_entries(body, next, list_span, e, align)
        } else {
            opaque_entries(body, next, list_span, size, e)
        }
    }
}

/// What `#[opaque(...)]`'s arguments `body` declare: the entries of the size and of the
/// alignment, their values, and the storage, the size rounded up to a multiple of the
/// alignment; or the first error.
pub open spec fn opaque_args(body: Seq<Tok>, list_span: u64) -> Result<
    (int, usize, int, usize, nat),
    (u64, Seq<char>),
> {
    match opaque_entries(body, 0, list_span, None, None) {
        Err(e) => Err(e),
        Ok((Some((sa, sv, ss)), Some((aa, av, asp)))) => match av {
            IntLiteral::Value(a) => if !is_pow2(a as nat) {
                Err((asp, "invalid alignment value: not a power of two"@))
            } else {
                match sv {
                    IntLiteral::Value(z) => if next_multiple(z as nat, a as nat) > usize::MAX {
                        Err((ss, "size rounded up to a multiple of the alignment overflows `usize`"@))
                    } else {
                        Ok((sa, z, aa, a, next_multiple(z as nat, a as nat)))
                    },
                    _ => Err((ss, "number too large to fit in target type"@)),
                }
            },
            _ => Err((asp, "number too large to fit in target type"@)),
        },
        Ok(_) => Err((list_span, opaque_help())),
    }
}

pub open spec fn entry_of(e: Option<(usize, IntLiteral, u64)>) -> Option<Entry> {
    match e {
        Some((k, v, sp)) => Some((k as int, v, sp)),
        None => None,
    }
}

/// Parses the `size = N, align = M` arguments of an `#[opaque(...)]` attribute (the tokens
/// `body` of the group spanned `list_span`), written directly or under the `cfg_attr`
/// predicate `cfg`.
pub fn parse_opaque_args(body: &Vec<Tok>, list_span: u64, cfg: Option<Vec<Tok>>) -> (r: Result<
    OpaqueLayout,
    Error,
>)
    ensures
        r matches Ok(l) ==> is_pow2(l.align_value as nat),
        r matches Ok(l) ==> l.padded_size % l.align_value == 0,
        r matches Ok(l) ==> l.cfg == cfg,
        r matches Ok(l) ==> layout_written(body@, l),
        r matches Ok(l) ==> layout_ok(l),
        match opaque_args(body@, list_span) {
            Ok((sa, z, aa, a, p)) => r matches Ok(l) && l.size == z && l.align_value == a
                && l.padded_size == p && tok_view(l.align) == tok_view(body@[aa + 2]) && l.size_span
                == span_of(body@[sa + 2]),
            Err(e) => r matches Err(x) && x@ == e,
        },
{
    let n = body.len();
    let mut size: Option<(usize, IntLiteral, u64)> = None;
    let mut align: Option<(usize, IntLiteral, u64)> = None;
    let mut i: usize = 0;
    while i < n
        invariant
            i <= n == body.len(),
            size matches Some((k, v, sp)) ==> entry_at(body@, k as int, "size"@, v) && sp
                == span_of(body@[k + 2]),
            align matches Some((k, v, sp)) ==> entry_at(body@, k as int, "align"@, v) && sp
                == span_of(body@[k + 2]),
            opaque_entries(body@, 0, list_span, None, None) == opaque_entries(
                body@,
                i as int,
                list_span,
                entry_of(size),
                entry_of(align),
            ),
        decreases n - i,
    {
        let key = &body[i];
        if !matches!(key, Tok::Ident { .. }) {
            return Err(Error::new(tok_span(key), "expected identifier"));
        }
        if i + 1 >= n || !tok_is_punct(&body[i + 1], '=') {
            return Err(crate::out::error_at(body, i + 1, n, list_span, "expected `=`"));
        }
        if i + 2 >= n {
            return Err(Error::new_at_end(list_span, "expected integer literal"));
        }
        let value = match &body[i + 2] {
            Tok::Lit { text, .. } => read_int_literal(text.as_str()),
            _ => IntLiteral::NotInteger,
        };
        if value == IntLiteral::NotInteger {
            return Err(Error::new(tok_span(&body[i + 2]), "expected integer literal"));
        }
        let vspan = tok_span(&body[i + 2]);
        if tok_is_ident(key, "size") {
            size = Some((i, value, vspan));
        } else if tok_is_ident(key, "align") {
            align = Some((i, value, vspan));
        } else {
            return Err(Error::new(tok_span(key), "expected `size` or `align`"));
        }
        i += 3;
        if i < n {
            if !tok_is_punct(&body[i], ',') {
                return Err(Error::new(tok_span(&body[i]), "expected `,`"));
            }
            i += 1;
        }
    }
    let (size_at, size_lit, size_span, align_at, align_lit, align_span) = match (size, align) {
        (Some((sk, sv, ss)), Some((ak, av, asp))) => (sk, sv, ss, ak, av, asp),
        _ => {
            return Err(Error::new(list_span, "expected `#[opaque(size = N, align = M)]`"));
        },
    };
    let align_value = match align_lit {
        IntLiteral::Value(v) => v,
        _ => {
            return Err(Error::new(align_span, "number too large to fit in target type"));
        },
    };
    if !is_power_of_two(align_value) {
        return Err(Error::new(align_span, "invalid alignment value: not a power of two"));
    }
    let size_value = match size_lit {
        IntLiteral::Value(v) => v,
        _ => {
            return Err(Error::new(size_span, "number too large to fit in target type"));
        },
    };
    let padded = match checked_next_multiple(size_value, align_value) {
        Some(p) => p,
        None => {
            return Err(
                Error::new(
                    size_span,
                    "size rounded up to a multiple of the alignment overflows `usize`",
                ),
            );
        },
    };
    proof {
        lemma_next_multiple(size_value as nat, align_value as nat);
    }
    let align_tok = copy_tok(&body[align_at + 2]);
    let l = OpaqueLayout {
        cfg,
        align: align_tok,
        align_value,
        size: size_value,
        padded_size: padded,
        size_span,
    };
    proof {
        assert(entry_at(body@, size_at as int, "size"@, IntLiteral::Value(size_value)));
        assert(entry_at(body@, align_at as int, "align"@, IntLiteral::Value(align_value)));
        assert(tok_view(l.align) == tok_view(body@[align_at + 2]));
        assert(l.padded_size == next_multiple(size_value as nat, l.align_value as nat));
        assert(l.size_span == span_of(body@[size_at + 2]));
        assert(entry_at(body@, size_at as int, "size"@, IntLiteral::Value(l.size)));
        assert(entry_at(body@, align_at as int, "align"@, IntLiteral::Value(l.align_value)));
        assert(layout_written(body@, l));
        assert(layout_ok(l));
    }
    Ok(l)
}

} // verus!

verus! {

/// What an item's attributes say.
#[derive(Debug)]
pub struct SplitAttrs {
    pub docs: Vec<Attr>,
    pub symbol: Option<Sym>,
    pub drop_symbol: Option<Sym>,
    pub clone_symbol: Option<Sym>,
    /// The `#[opaque]` attributes in source order.
    pub opaque: Vec<OpaqueLayout>,
}

/// The views of the doc comments among `attrs`, in order.
pub open spec fn doc_attrs(attrs: Seq<Attr>) -> Seq<(TokV, TokV)>
    decreases attrs.len(),
{
    if attrs.len() == 0 {
        Seq::empty()
    } else if attrs.last().path_is("doc"@) {
        doc_attrs(attrs.drop_last()).push(attrs.last().toks())
    } else {
        doc_attrs(attrs.drop_last())
    }
}

/// The views of a list of attributes.
pub open spec fn attrs_toks(attrs: Seq<Attr>) -> Seq<(TokV, TokV)> {
    attrs.map_values(|a: Attr| a.toks())
}

/// Only the last layout of a list may be unconditional: the first one whose predicate
/// holds wins, so anything after an unconditional one could never apply.
pub open spec fn layouts_wf(ls: Seq<OpaqueLayout>) -> bool {
    forall|i: int| 0 <= i < ls.len() - 1 ==> (#[trigger] ls[i]).cfg is Some
}

/// Some attribute of `attrs` has the path `name`.
pub open spec fn has_attr(attrs: Seq<Attr>, name: Seq<char>) -> bool {
    exists|k: int| 0 <= k < attrs.len() && (#[trigger] attrs[k]).path_is(name)
}

/// The symbol read from the `#[name = "..."]` attribute among `attrs`, when there is one.
pub open spec fn sym_from(attrs: Seq<Attr>, name: Seq<char>, s: Option<Sym>) -> bool {
    &&& s is Some <==> has_attr(attrs, name)
    &&& s matches Some(v) ==> exists|k: int|
        0 <= k < attrs.len() && (#[trigger] attrs[k]).path_is(name) && str_attr_value(
            attrs[k],
            name,
        ) == Ok::<(Seq<char>, u64), (u64, Seq<char>)>(v@)
}

/// The value and span of the first `#[name = "..."]` among `attrs` that reads as one.
pub open spec fn first_sym(attrs: Seq<Attr>, name: Seq<char>) -> Option<(Seq<char>, u64)>
    decreases attrs.len(),
{
    if attrs.len() == 0 {
        None
    } else {
        match first_sym(attrs.drop_last(), name) {
            Some(v) => Some(v),
            None => if attrs.last().path_is(name) {
                match str_attr_value(attrs.last(), name) {
                    Ok(v) => Some(v),
                    Err(_) => None,
                }
            } else {
                None
            },
        }
    }
}

pub open spec fn sym_view(s: Option<Sym>) -> Option<(Seq<char>, u64)> {
    match s {
        Some(v) => Some(v@),
        None => None,
    }
}

/// The attributes an item of the trait may carry.
pub open spec fn item_attr_known(a: Attr) -> bool {
    ||| a.path_is("doc"@)
    ||| a.path_is("symbol"@)
    ||| a.path_is("drop_symbol"@)
    ||| a.path_is("clone_symbol"@)
    ||| a.path_is("opaque"@)
    ||| a.path_is("cfg_attr"@)
}

pub open spec fn cfg_attr_help() -> Seq<char> {
    "expected `#[cfg_attr(predicate, opaque(size = N, align = M))]`"@
}

/// The names of the attributes an item may carry are pairwise different, so an attribute
/// has at most one of them as its path.
proof fn lemma_item_attr_names_differ()
    ensures
        "doc"@ != "symbol"@,
        "doc"@ != "drop_symbol"@,
        "doc"@ != "clone_symbol"@,
        "symbol"@ != "drop_symbol"@,
        "symbol"@ != "clone_symbol"@,
        "drop_symbol"@ != "clone_symbol"@,
        "opaque"@ != "symbol"@,
        "opaque"@ != "drop_symbol"@,
        "opaque"@ != "clone_symbol"@,
        "cfg_attr"@ != "symbol"@,
        "cfg_attr"@ != "drop_symbol"@,
        "cfg_attr"@ != "clone_symbol"@,
        "opaque"@ != "doc"@,
        "cfg_attr"@ != "doc"@,
        "opaque"@ != "cfg_attr"@,
{
    reveal_strlit("doc");
    reveal_strlit("symbol");
    reveal_strlit("drop_symbol");
    reveal_strlit("clone_symbol");
    reveal_strlit("opaque");
    reveal_strlit("cfg_attr");
    assert("doc"@.len() == 3);
    assert("symbol"@.len() == 6 && "opaque"@.len() == 6);
    assert("symbol"@[0] != "opaque"@[0]);
    assert("drop_symbol"@.len() == 11);
    assert("clone_symbol"@.len() == 12);
    assert("cfg_attr"@.len() == 8);
}

/// Extending a list by an attribute of another path keeps what it says of `name`.
proof fn lemma_sym_from_other(pre: Seq<Attr>, a: Attr, name: Seq<char>, s: Option<Sym>)
    requires
        sym_from(pre, name, s),
        !a.path_is(name),
    ensures
        sym_from(pre.push(a), name, s),
{
    let post = pre.push(a);
    if has_attr(post, name) {
        let k = choose|k: int| 0 <= k < post.len() && (#[trigger] post[k]).path_is(name);
        assert(k < pre.len());
        assert(pre[k] == post[k]);
    }
    if has_attr(pre, name) {
        let k = choose|k: int| 0 <= k < pre.len() && (#[trigger] pre[k]).path_is(name);
        assert(pre[k] == post[k]);
    }
    if let Some(v) = s {
        let k = choose|k: int|
            0 <= k < pre.len() && (#[trigger] pre[k]).path_is(name) && str_attr_value(pre[k], name)
                == Ok::<(Seq<char>, u64), (u64, Seq<char>)>(v@);
        assert(pre[k] == post[k]);
    }
}

/// The first attribute of path `name` gives the symbol.
proof fn lemma_sym_from_first(pre: Seq<Attr>, a: Attr, name: Seq<char>, v: Sym)
    requires
        sym_from(pre, name, None),
        a.path_is(name),
        str_attr_value(a, name) == Ok::<(Seq<char>, u64), (u64, Seq<char>)>(v@),
    ensures
        sym_from(pre.push(a), name, Some(v)),
{
    let post = pre.push(a);
    assert(post[pre.len() as int] == a);
}

fn duplicate(span: u64, what: &str) -> (r: Error)
    ensures
        r@ == (span, "duplicate `#["@ + what@ + "]` attribute"@),
{
    let mut m = String::from_str("duplicate `#[");
    m.append(what);
    m.append("]` attribute");
    Error { span, message: m }
}

/// Whether some layout of `ls` is unconditional.
fn has_unconditional(ls: &Vec<OpaqueLayout>) -> (r: bool)
    ensures
        r == exists|i: int| 0 <= i < ls.len() && (#[trigger] ls@[i]).cfg is None,
{
    let mut i: usize = 0;
    while i < ls.len()
        invariant
            i <= ls.len(),
            forall|j: int| 0 <= j < i ==> (#[trigger] ls@[j]).cfg is Some,
        decreases ls.len() - i,
    {
        if ls[i].cfg.is_none() {
            return true;
        }
        i += 1;
    }
    false
}

/// Where a layout comes from: the `cfg_attr` predicate's tokens (`None` for a plain
/// `#[opaque]`), the arguments of the `opaque(...)` list and the span of the list's name.
pub type LayoutSrc = (Option<Seq<TokV>>, Seq<Tok>, u64);

/// The layout `l` is the one its source declares.
pub open spec fn layout_from(l: OpaqueLayout, src: LayoutSrc) -> bool {
    &&& opaque_args(src.1, src.2) matches Ok((sa, z, aa, a, p)) && {
        &&& l.size == z
        &&& l.align_value == a
        &&& l.padded_size == p
        &&& tok_view(l.align) == tok_view(src.1[aa + 2])
        &&& l.size_span == span_of(src.1[sa + 2])
    }
    &&& match l.cfg {
        Some(c) => src.0 == Some(toks_view(c@)),
        None => src.0 is None,
    }
}

/// The index of the first comma of `s` from `k` on, or `s.len()`.
pub open spec fn first_comma(s: Seq<Tok>, k: int) -> int
    decreases s.len() - k,
{
    if k < 0 || k >= s.len() {
        s.len() as int
    } else if is_punct(s[k], ',') {
        k
    } else {
        first_comma(s, k + 1)
    }
}

/// The comma-separated attributes of a `cfg_attr` from `i` on, as index ranges, a trailing
/// comma allowed; or the error for an empty one.
pub open spec fn cfg_metas(inner: Seq<Tok>, i: int) -> Result<Seq<(int, int)>, (u64, Seq<char>)>
    decreases inner.len() - i,
{
    if i < 0 || i >= inner.len() {
        Ok(Seq::empty())
    } else if is_punct(inner[i], ',') {
        Err((span_of(inner[i]), "expected identifier"@))
    } else {
        let e = first_comma(inner, i);
        let next = if e < inner.len() {
            e + 1
        } else {
            e
        };
        if next <= i || next > inner.len() {
            Ok(Seq::empty())
        } else {
            match cfg_metas(inner, next) {
                Ok(rest) => Ok(seq![(i, e)] + rest),
                Err(x) => Err(x),
            }
        }
    }
}

/// The argument list of `inner[m.0..m.1]` if it is `opaque(...)`.
pub open spec fn meta_list(inner: Seq<Tok>, m: (int, int)) -> Option<Seq<Tok>> {
    if m.1 - m.0 == 2 && 0 <= m.0 && m.1 <= inner.len() && is_ident(inner[m.0], "opaque"@) {
        match inner[m.0 + 1] {
            Tok::Group { body, delim, .. } => if delim != Delim::Invisible {
                Some(body@)
            } else {
                None
            },
            _ => None,
        }
    } else {
        None
    }
}

pub open spec fn only_opaque_help() -> Seq<char> {
    "only `opaque(size = N, align = M)` may be placed under `cfg_attr`"@
}

pub open spec fn duplicate_help(what: Seq<char>) -> Seq<char> {
    "duplicate `#["@ + what + "]` attribute"@
}

pub open spec fn cfg_parens_help() -> Seq<char> {
    "expected attribute arguments in parentheses: #[cfg_attr(...)]"@
}

/// What `#[cfg_attr(predicate, opaque(size = N, align = M))]` declares, or the first error:
/// exactly one `opaque(...)` may stand under the predicate.
pub open spec fn cfg_attr_src(a: Attr, uncond: bool) -> Result<LayoutSrc, (u64, Seq<char>)> {
    let body = a.body();
    if body.len() != 2 {
        Err((a.span(), cfg_parens_help()))
    } else {
        match body[1] {
            Tok::Group { body: inner, delim, span: gspan } => if delim == Delim::Invisible {
                Err((a.span(), cfg_parens_help()))
            } else {
                let inner = inner@;
                let n = inner.len() as int;
                let k = first_comma(inner, 0);
                let metas = crate::syntax::toks_text(inner.subrange(k + 1, n));
                if k == 0 || k == n {
                    Err(crate::tokens::err_at(inner, k, n, gspan, cfg_attr_help()))
                } else if crate::syntax::metas_error(metas) is Some {
                    Err((span_at(inner, k + 1, n, gspan), crate::syntax::metas_error(metas)->0))
                } else {
                    cfg_tail(a, inner, k, cfg_metas(inner, k + 1), uncond)
                }
            },
            _ => Err((a.span(), cfg_parens_help())),
        }
    }
}

/// The rest of a `cfg_attr`, once its predicate `inner[..k]` and the attributes under it
/// have been read.
pub open spec fn cfg_tail(
    a: Attr,
    inner: Seq<Tok>,
    k: int,
    metas: Result<Seq<(int, int)>, (u64, Seq<char>)>,
    uncond: bool,
) -> Result<LayoutSrc, (u64, Seq<char>)> {
    match metas {
        Err(e) => Err(e),
        Ok(ms) => if ms.len() == 0 {
            Err((a.span(), cfg_attr_help()))
        } else {
            let span0 = span_of(inner[ms[0].0]);
            match meta_list(inner, ms[0]) {
                None => Err((span0, only_opaque_help())),
                Some(list) => if uncond {
                    Err((span0, never_applies_help()))
                } else {
                    match opaque_args(list, span0) {
                    Err(e) => Err(e),
                    Ok(_) => if ms.len() >= 2 {
                        let span1 = span_of(inner[ms[1].0]);
                        if meta_list(inner, ms[1]) is None {
                            Err((span1, only_opaque_help()))
                        } else {
                            Err((span1, duplicate_help("opaque"@)))
                        }
                    } else {
                        Ok((Some(toks_view(inner.subrange(0, k))), list, span0))
                    },
                    }
                },
            }
        },
    }
}

/// The argument list of `inner[s..e]` if it is `opaque(...)`.
fn meta_list_exec(inner: &Vec<Tok>, s: usize, e: usize) -> (r: Option<&Vec<Tok>>)
    requires
        s <= e <= inner.len(),
    ensures
        match meta_list(inner@, (s as int, e as int)) {
            Some(l) => r matches Some(v) && v@ == l,
            None => r is None,
        },
{
    if e - s == 2 && tok_is_ident(&inner[s], "opaque") {
        match &inner[s + 1] {
            Tok::Group { body, delim, .. } => if *delim != Delim::Invisible {
                Some(body)
            } else {
                None
            },
            _ => None,
        }
    } else {
        None
    }
}

pub open spec fn pairs_int(v: Seq<(usize, usize)>) -> Seq<(int, int)> {
    v.map_values(|p: (usize, usize)| (p.0 as int, p.1 as int))
}

/// Some layout of `ls` is unconditional.
pub open spec fn has_uncond(ls: Seq<OpaqueLayout>) -> bool {
    exists|i: int| 0 <= i < ls.len() && (#[trigger] ls[i]).cfg is None
}

/// Reads `#[cfg_attr(predicate, opaque(size = N, align = M))]`, adding its layout, which
/// can't come after an unconditional one.
fn parse_cfg_attr(a: &Attr, opaque: &mut Vec<OpaqueLayout>) -> (r: Result<(), Error>)
    requires
        a.path_is("cfg_attr"@),
    ensures
        r is Ok ==> !has_uncond(old(opaque)@),
        match cfg_attr_src(*a, has_uncond(old(opaque)@)) {
            Ok(src) => r is Ok && final(opaque)@.len() == old(opaque)@.len() + 1
                && final(opaque)@.drop_last() == old(opaque)@
                && layout_from(final(opaque)@.last(), src),
            Err(e) => r matches Err(x) && x@ == e,
        },
        r is Ok ==> final(opaque)@.last().cfg is Some && layout_ok(final(opaque)@.last()),
{
    let ghost uncond = has_uncond(old(opaque)@);
    let pound_span = tok_span(&a.pound);
    let body = match attr_body(a) {
        Some((body, _)) => body,
        None => {
            return Err(Error::new(pound_span, "expected square brackets"));
        },
    };
    if body.len() != 2 {
        return Err(
            Error::new(
                pound_span,
                "expected attribute arguments in parentheses: #[cfg_attr(...)]",
            ),
        );
    }
    let (inner, gspan) = match &body[1] {
        Tok::Group { body, span, delim } if *delim != Delim::Invisible => (body, *span),
        _ => {
            return Err(
                Error::new(
                    pound_span,
                    "expected attribute arguments in parentheses: #[cfg_attr(...)]",
                ),
            );
        },
    };
    let n = inner.len();
    // The predicate: the token trees up to the first comma.
    let mut k: usize = 0;
    while k < n && !tok_is_punct(&inner[k], ',')
        invariant
            k <= n == inner.len(),
            first_comma(inner@, 0) == first_comma(inner@, k as int),
        decreases n - k,
    {
        k += 1;
    }
    if k == 0 || k == n {
        return Err(
            crate::out::error_at(
                inner,
                k,
                n,
                gspan,
                "expected `#[cfg_attr(predicate, opaque(size = N, align = M))]`",
            ),
        );
    }
    // `syn` reads all the attributes under the predicate before any is looked at.
    let metas_text = crate::syntax::text_of(inner, k + 1, n);
    if let Some(m) = crate::syntax::parse_metas_error(metas_text.as_str()) {
        return Err(Error { span: span_at_exec(inner, k + 1, n, gspan), message: m });
    }
    let cfg = copy_toks(inner, 0, k);
    proof {
        assert(cfg_attr_src(*a, uncond) == cfg_tail(*a, inner@, k as int, cfg_metas(inner@, k + 1), uncond));
    }
    // The attributes under the predicate, separated by commas, a trailing one allowed.
    let mut metas: Vec<(usize, usize)> = Vec::new();
    let mut i = k + 1;
    while i < n
        invariant
            k < i <= n == inner.len(),
            cfg_attr_src(*a, uncond) == cfg_tail(*a, inner@, k as int, cfg_metas(inner@, k + 1), uncond),
            uncond == has_uncond(old(opaque)@),
            forall|j: int| 0 <= j < metas@.len() ==> {
                let (s, e) = #[trigger] metas@[j];
                s < e <= n
            },
            cfg_metas(inner@, k + 1) == match cfg_metas(inner@, i as int) {
                Ok(rest) => Ok(pairs_int(metas@) + rest),
                Err(x) => Err(x),
            },
        decreases n - i,
    {
        if tok_is_punct(&inner[i], ',') {
            proof {
                assert(cfg_metas(inner@, i as int) is Err);
            }
            return Err(Error::new(tok_span(&inner[i]), "expected identifier"));
        }
        let start = i;
        while i < n && !tok_is_punct(&inner[i], ',')
            invariant
                start <= i <= n == inner.len(),
                first_comma(inner@, start as int) == first_comma(inner@, i as int),
            decreases n - i,
        {
            i += 1;
        }
        let ghost before = metas@;
        metas.push((start, i));
        if i < n {
            i += 1;
        }
        proof {
            assert(pairs_int(metas@) =~= pairs_int(before) + seq![(start as int, first_comma(inner@, start as int))]);
            let rest = cfg_metas(inner@, i as int);
            if let Ok(r2) = rest {
                assert(pairs_int(metas@) + r2 =~= pairs_int(before) + (seq![(start as int, first_comma(inner@, start as int))] + r2));
            }
        }
    }
    proof {
        assert(cfg_metas(inner@, i as int) == Ok::<Seq<(int, int)>, (u64, Seq<char>)>(Seq::empty()));
        assert(pairs_int(metas@) + Seq::<(int, int)>::empty() =~= pairs_int(metas@));
    }
    if metas.len() == 0 {
        return Err(
            Error::new(pound_span, "expected `#[cfg_attr(predicate, opaque(size = N, align = M))]`"),
        );
    }
    let (s, e) = metas[0];
    let meta_span = tok_span(&inner[s]);
    let list = match meta_list_exec(inner, s, e) {
        Some(l) => l,
        None => {
            return Err(
                Error::new(
                    meta_span,
                    "only `opaque(size = N, align = M)` may be placed under `cfg_attr`",
                ),
            );
        },
    };
    if has_unconditional(opaque) {
        // The first `#[opaque]` whose predicate holds wins, so anything after an
        // unconditional one can never apply.
        return Err(
            Error::new(
                meta_span,
                "this `#[opaque]` can never apply: the unconditional `#[opaque]` attribute above it always applies first; move it above",
            ),
        );
    }
    let cfg_copy = copy_toks(&cfg, 0, cfg.len());
    proof {
        assert(cfg@.subrange(0, cfg@.len() as int) =~= cfg@);
        assert(pairs_int(metas@)[0] == (s as int, e as int));
        assert(cfg_metas(inner@, k + 1) == Ok::<Seq<(int, int)>, (u64, Seq<char>)>(pairs_int(metas@)));
    }
    let layout = parse_opaque_args(list, meta_span, Some(cfg_copy))?;
    if metas.len() >= 2 {
        // Only one `opaque(...)` may stand under a predicate.
        let (s, e) = metas[1];
        proof {
            assert(pairs_int(metas@)[1] == (s as int, e as int));
        }
        let span = tok_span(&inner[s]);
        if meta_list_exec(inner, s, e).is_none() {
            return Err(
                Error::new(span, "only `opaque(size = N, align = M)` may be placed under `cfg_attr`"),
            );
        }
        return Err(duplicate(span, "opaque"));
    }
    proof {
        crate::tokens::lemma_toks_view(cfg@);
        crate::tokens::lemma_toks_view(inner@.subrange(0, k as int));
        assert(toks_view(cfg@) =~= toks_view(inner@.subrange(0, k as int)));
        assert(layout_from(layout, (Some(toks_view(inner@.subrange(0, k as int))), list@, meta_span)));
    }
    opaque.push(layout);
    proof {
        assert(final(opaque)@.drop_last() =~= old(opaque)@);
    }
    Ok(())
}

/// The arguments of `#[opaque(...)]` and the span of its name, when it has a list.
pub open spec fn opaque_list(a: Attr) -> Option<(Seq<Tok>, u64)> {
    let body = a.body();
    if body.len() == 2 {
        match body[1] {
            Tok::Group { body: inner, delim, .. } => if delim != Delim::Invisible {
                Some((inner@, span_of(body[0])))
            } else {
                None
            },
            _ => None,
        }
    } else {
        None
    }
}

pub open spec fn unexpected_item_attr_help() -> Seq<char> {
    "unexpected attribute; expected doc comments, `#[symbol = \"...\"]`, `#[drop_symbol = \"...\"]`, `#[clone_symbol = \"...\"]`, `#[opaque(size = N, align = M)]` or `#[cfg_attr(predicate, opaque(size = N, align = M))]`"@
}

pub open spec fn never_applies_help() -> Seq<char> {
    "this `#[opaque]` can never apply: the unconditional `#[opaque]` attribute above it always applies first; move it above"@
}

/// A symbol attribute `name`, once `seen` tells whether one came before.
pub open spec fn sym_attr_step(a: Attr, name: Seq<char>, seen: bool) -> Option<(u64, Seq<char>)> {
    if seen {
        Some((a.span(), duplicate_help(name)))
    } else {
        match str_attr_value(a, name) {
            Err(e) => Some(e),
            Ok(_) => None,
        }
    }
}

/// Reads an item's attributes from `i` on, knowing whether a `symbol`, `drop_symbol`,
/// `clone_symbol` or unconditional `opaque` came before: the sources of the layouts they
/// declare, in order, or the first error.
pub open spec fn item_attrs_from(
    attrs: Seq<Attr>,
    i: int,
    sym: bool,
    drop: bool,
    clone: bool,
    uncond: bool,
) -> Result<Seq<LayoutSrc>, (u64, Seq<char>)>
    decreases attrs.len() - i,
{
    if i < 0 || i >= attrs.len() {
        Ok(Seq::empty())
    } else {
        let a = attrs[i];
        if a.path_is("doc"@) {
            item_attrs_from(attrs, i + 1, sym, drop, clone, uncond)
        } else if a.path_is("symbol"@) {
            match sym_attr_step(a, "symbol"@, sym) {
                Some(e) => Err(e),
                None => item_attrs_from(attrs, i + 1, true, drop, clone, uncond),
            }
        } else if a.path_is("drop_symbol"@) {
            match sym_attr_step(a, "drop_symbol"@, drop) {
                Some(e) => Err(e),
                None => item_attrs_from(attrs, i + 1, sym, true, clone, uncond),
            }
        } else if a.path_is("clone_symbol"@) {
            match sym_attr_step(a, "clone_symbol"@, clone) {
                Some(e) => Err(e),
                None => item_attrs_from(attrs, i + 1, sym, drop, true, uncond),
            }
        } else if a.path_is("opaque"@) {
            if uncond {
                Err((a.span(), duplicate_help("opaque"@)))
            } else {
                match opaque_list(a) {
                    None => Err((a.span(), "expected attribute arguments in parentheses: #[opaque(...)]"@)),
                    Some((list, lspan)) => match opaque_args(list, lspan) {
                        Err(e) => Err(e),
                        Ok(_) => match item_attrs_from(attrs, i + 1, sym, drop, clone, true) {
                            Ok(rest) => Ok(seq![(None::<Seq<TokV>>, list, lspan)] + rest),
                            Err(e) => Err(e),
                        },
                    },
                }
            }
        } else if a.path_is("cfg_attr"@) {
            match cfg_attr_src(a, uncond) {
                Err(e) => Err(e),
                Ok(src) => match item_attrs_from(attrs, i + 1, sym, drop, clone, uncond) {
                    Ok(rest) => Ok(seq![src] + rest),
                    Err(e) => Err(e),
                },
            }
        } else {
            Err((a.span(), unexpected_item_attr_help()))
        }
    }
}

/// The sources of an item's layouts, or the first error of its attributes.
pub open spec fn item_attrs(attrs: Seq<Attr>) -> Result<Seq<LayoutSrc>, (u64, Seq<char>)> {
    item_attrs_from(attrs, 0, false, false, false, false)
}

/// The layouts `ls` are those the sources declare.
pub open spec fn layouts_from(ls: Seq<OpaqueLayout>, srcs: Seq<LayoutSrc>) -> bool {
    &&& ls.len() == srcs.len()
    &&& forall|k: int| 0 <= k < ls.len() ==> layout_from(#[trigger] ls[k], srcs[k])
}

/// Splits an item's attributes into doc comments, the optional `#[symbol = "..."]`,
/// `#[drop_symbol = "..."]` and `#[clone_symbol = "..."]`, and the
/// `#[opaque(size = N, align = M)]` attributes, each optionally under a `cfg_attr`.
#[verifier::rlimit(60)]
pub fn split_attrs(attrs: &Vec<Attr>) -> (r: Result<SplitAttrs, Error>)
    ensures
        r matches Ok(s) ==> {
            &&& forall|k: int| 0 <= k < attrs@.len() ==> item_attr_known(#[trigger] attrs@[k])
            &&& attrs_toks(s.docs@) == doc_attrs(attrs@)
            &&& sym_from(attrs@, "symbol"@, s.symbol)
            &&& sym_from(attrs@, "drop_symbol"@, s.drop_symbol)
            &&& sym_from(attrs@, "clone_symbol"@, s.clone_symbol)
            &&& layouts_wf(s.opaque@)
            &&& forall|k: int| 0 <= k < s.opaque@.len() ==> layout_ok(#[trigger] s.opaque@[k])
            &&& (s.opaque@.len() == 0 <==> !has_attr(attrs@, "opaque"@) && !has_attr(
                attrs@,
                "cfg_attr"@,
            ))
        },
        match item_attrs(attrs@) {
            Ok(srcs) => r matches Ok(s) && layouts_from(s.opaque@, srcs),
            Err(e) => r matches Err(x) && x@ == e,
        },
        (exists|i: int, j: int|
            0 <= i < j < attrs@.len() && (#[trigger] attrs@[i]).path_is("opaque"@) && ((
            #[trigger] attrs@[j]).path_is("opaque"@) || attrs@[j].path_is("cfg_attr"@))) ==> r is Err,
        r matches Ok(s) ==> sym_view(s.symbol) == first_sym(attrs@, "symbol"@) && sym_view(
            s.drop_symbol,
        ) == first_sym(attrs@, "drop_symbol"@) && sym_view(s.clone_symbol) == first_sym(
            attrs@,
            "clone_symbol"@,
        ),
{
    let mut docs: Vec<Attr> = Vec::new();
    let mut symbol: Option<Sym> = None;
    let mut drop_symbol: Option<Sym> = None;
    let mut clone_symbol: Option<Sym> = None;
    proof {
        if exists|i: int, j: int|
            0 <= i < j < attrs@.len() && (#[trigger] attrs@[i]).path_is("opaque"@) && ((
            #[trigger] attrs@[j]).path_is("opaque"@) || attrs@[j].path_is("cfg_attr"@)) {
            let (i, j) = choose|i: int, j: int|
                0 <= i < j < attrs@.len() && (#[trigger] attrs@[i]).path_is("opaque"@) && ((
                #[trigger] attrs@[j]).path_is("opaque"@) || attrs@[j].path_is("cfg_attr"@));
            lemma_layout_after_uncond(attrs@, 0, false, false, false, false, j);
        }
    }
    let mut opaque: Vec<OpaqueLayout> = Vec::new();
    let mut i: usize = 0;
    let ghost mut srcs: Seq<LayoutSrc> = Seq::empty();
    proof {
        assert(item_attrs(attrs@) == match item_attrs(attrs@) {
            Ok(rest) => Ok(Seq::<LayoutSrc>::empty() + rest),
            Err(e) => Err(e),
        }) by {
            if let Ok(rest) = item_attrs(attrs@) {
                assert(Seq::<LayoutSrc>::empty() + rest =~= rest);
            }
        }
    }
    while i < attrs.len()
        invariant
            i <= attrs.len(),
            forall|k: int| 0 <= k < i ==> item_attr_known(#[trigger] attrs@[k]),
            attrs_toks(docs@) == doc_attrs(attrs@.subrange(0, i as int)),
            sym_from(attrs@.subrange(0, i as int), "symbol"@, symbol),
            sym_from(attrs@.subrange(0, i as int), "drop_symbol"@, drop_symbol),
            sym_from(attrs@.subrange(0, i as int), "clone_symbol"@, clone_symbol),
            layouts_wf(opaque@),
            forall|k: int| 0 <= k < opaque@.len() ==> layout_ok(#[trigger] opaque@[k]),
            opaque@.len() == 0 <==> !has_attr(attrs@.subrange(0, i as int), "opaque"@)
                && !has_attr(attrs@.subrange(0, i as int), "cfg_attr"@),
            layouts_from(opaque@, srcs),
            sym_view(symbol) == first_sym(attrs@.subrange(0, i as int), "symbol"@),
            sym_view(drop_symbol) == first_sym(attrs@.subrange(0, i as int), "drop_symbol"@),
            sym_view(clone_symbol) == first_sym(attrs@.subrange(0, i as int), "clone_symbol"@),
            (exists|k: int| 0 <= k < opaque@.len() && (#[trigger] opaque@[k]).cfg is None) ==> opaque@.last().cfg is None,
            item_attrs(attrs@) == match item_attrs_from(
                attrs@,
                i as int,
                symbol is Some,
                drop_symbol is Some,
                clone_symbol is Some,
                exists|k: int| 0 <= k < opaque@.len() && (#[trigger] opaque@[k]).cfg is None,
            ) {
                Ok(rest) => Ok(srcs + rest),
                Err(e) => Err(e),
            },
        decreases attrs.len() - i,
    {
        let a = &attrs[i];
        let ghost pre = attrs@.subrange(0, i as int);
        let ghost post = attrs@.subrange(0, i + 1);
        proof {
            lemma_item_attr_names_differ();
            assert(post =~= pre.push(*a));
            if !a.path_is("symbol"@) {
                lemma_sym_from_other(pre, *a, "symbol"@, symbol);
            }
            if !a.path_is("drop_symbol"@) {
                lemma_sym_from_other(pre, *a, "drop_symbol"@, drop_symbol);
            }
            if !a.path_is("clone_symbol"@) {
                lemma_sym_from_other(pre, *a, "clone_symbol"@, clone_symbol);
            }
            assert(post.drop_last() =~= pre);
            assert(post.last() == *a);
            assert(first_sym(post, "symbol"@) == (match first_sym(pre, "symbol"@) {
                Some(v) => Some(v),
                None => if a.path_is("symbol"@) {
                    match str_attr_value(*a, "symbol"@) {
                        Ok(v) => Some(v),
                        Err(_) => None,
                    }
                } else {
                    None
                },
            }));
            assert(first_sym(post, "drop_symbol"@) == (match first_sym(pre, "drop_symbol"@) {
                Some(v) => Some(v),
                None => if a.path_is("drop_symbol"@) {
                    match str_attr_value(*a, "drop_symbol"@) {
                        Ok(v) => Some(v),
                        Err(_) => None,
                    }
                } else {
                    None
                },
            }));
            assert(first_sym(post, "clone_symbol"@) == (match first_sym(pre, "clone_symbol"@) {
                Some(v) => Some(v),
                None => if a.path_is("clone_symbol"@) {
                    match str_attr_value(*a, "clone_symbol"@) {
                        Ok(v) => Some(v),
                        Err(_) => None,
                    }
                } else {
                    None
                },
            }));
            assert forall|name: Seq<char>| #[trigger] has_attr(post, name) <==> has_attr(pre, name)
                || a.path_is(name) by {
                if has_attr(post, name) {
                    let k = choose|k: int| 0 <= k < post.len() && (#[trigger] post[k]).path_is(name);
                    if k < pre.len() {
                        assert(pre[k] == post[k]);
                    }
                }
                if has_attr(pre, name) {
                    let k = choose|k: int| 0 <= k < pre.len() && (#[trigger] pre[k]).path_is(name);
                    assert(pre[k] == post[k]);
                }
                if a.path_is(name) {
                    assert(post[i as int] == *a);
                }
            }
        }
        if attr_path_is(a, "doc") {
            let ghost before = docs@;
            docs.push(copy_attr(a));
            proof {
                assert(attrs_toks(docs@) =~= attrs_toks(before).push(a.toks()));
            }
        } else if attr_path_is(a, "symbol") {
            if symbol.is_some() {
                return Err(duplicate(tok_span(&a.pound), "symbol"));
            }
            let s = parse_str_attr(a, "symbol")?;
            proof {
                lemma_sym_from_first(pre, *a, "symbol"@, s);
            }
            symbol = Some(s);
        } else if attr_path_is(a, "drop_symbol") {
            if drop_symbol.is_some() {
                return Err(duplicate(tok_span(&a.pound), "drop_symbol"));
            }
            let s = parse_str_attr(a, "drop_symbol")?;
            proof {
                lemma_sym_from_first(pre, *a, "drop_symbol"@, s);
            }
            drop_symbol = Some(s);
        } else if attr_path_is(a, "clone_symbol") {
            if clone_symbol.is_some() {
                return Err(duplicate(tok_span(&a.pound), "clone_symbol"));
            }
            let s = parse_str_attr(a, "clone_symbol")?;
            proof {
                lemma_sym_from_first(pre, *a, "clone_symbol"@, s);
            }
            clone_symbol = Some(s);
        } else if attr_path_is(a, "opaque") {
            if has_unconditional(&opaque) {
                return Err(duplicate(tok_span(&a.pound), "opaque"));
            }
            let (list, list_span) = match attr_body(a) {
                Some((body, _)) => {
                    if body.len() == 2 {
                        match &body[1] {
                            Tok::Group { body: inner, delim, .. } if *delim != Delim::Invisible => (
                                Some(inner),
                                tok_span(&body[0]),
                            ),
                            _ => (None, 0),
                        }
                    } else {
                        (None, 0)
                    }
                },
                None => (None, 0),
            };
            let list = match list {
                Some(l) => l,
                None => {
                    return Err(
                        Error::new(
                            tok_span(&a.pound),
                            "expected attribute arguments in parentheses: #[opaque(...)]",
                        ),
                    );
                },
            };
            let layout = parse_opaque_args(list, list_span, None)?;
            let ghost before = opaque@;
            let ghost src: LayoutSrc = (None, list@, list_span);
            opaque.push(layout);
            proof {
                assert(opaque_list(*a) == Some((list@, list_span)));
                assert(layout_from(layout, src));
                let old_srcs = srcs;
                srcs = srcs.push(src);
                assert(opaque@[opaque@.len() - 1].cfg is None);
                assert forall|k: int| 0 <= k < opaque@.len() implies layout_from(
                    #[trigger] opaque@[k],
                    srcs[k],
                ) by {
                    if k < before.len() {
                        assert(opaque@[k] == before[k]);
                    }
                }
                if let Ok(rest) = item_attrs_from(
                    attrs@,
                    i + 1,
                    symbol is Some,
                    drop_symbol is Some,
                    clone_symbol is Some,
                    true,
                ) {
                    assert(old_srcs + (seq![src] + rest) =~= srcs + rest);
                }
            }
        } else if attr_path_is(a, "cfg_attr") {
            let ghost before = opaque@;
            parse_cfg_attr(a, &mut opaque)?;
            proof {
                let src = cfg_attr_src(*a, false)->Ok_0;
                let old_srcs = srcs;
                srcs = srcs.push(src);
                assert forall|k: int| 0 <= k < opaque@.len() implies layout_from(
                    #[trigger] opaque@[k],
                    srcs[k],
                ) && layout_ok(opaque@[k]) && (k < opaque@.len() - 1 ==> opaque@[k].cfg is Some) by {
                    if k < before.len() {
                        assert(opaque@[k] == before[k]);
                    }
                }
                assert(!exists|k: int| 0 <= k < opaque@.len() && (#[trigger] opaque@[k]).cfg is None) by {
                    if exists|k: int| 0 <= k < opaque@.len() && (#[trigger] opaque@[k]).cfg is None {
                        let k = choose|k: int| 0 <= k < opaque@.len() && (#[trigger] opaque@[k]).cfg is None;
                        if k < before.len() {
                            assert(opaque@[k] == before[k]);
                        }
                    }
                }
                if let Ok(rest) = item_attrs_from(
                    attrs@,
                    i + 1,
                    symbol is Some,
                    drop_symbol is Some,
                    clone_symbol is Some,
                    false,
                ) {
                    assert(old_srcs + (seq![src] + rest) =~= srcs + rest);
                }
            }
        } else {
            return Err(
                Error::new(
                    tok_span(&a.pound),
                    "unexpected attribute; expected doc comments, `#[symbol = \"...\"]`, `#[drop_symbol = \"...\"]`, `#[clone_symbol = \"...\"]`, `#[opaque(size = N, align = M)]` or `#[cfg_attr(predicate, opaque(size = N, align = M))]`",
                ),
            );
        }
        i += 1;
    }
    proof {
        assert(attrs@.subrange(0, attrs@.len() as int) =~= attrs@);
    }
    Ok(SplitAttrs { docs, symbol, drop_symbol, clone_symbol, opaque })
}

} // verus!

verus! {

/// Reads the trait's attributes from `i` on, knowing whether a `symbol_prefix` came
/// before: the first error, if any.
pub open spec fn trait_attrs_from(attrs: Seq<Attr>, i: int, seen: bool) -> Option<(u64, Seq<char>)>
    decreases attrs.len() - i,
{
    if i < 0 || i >= attrs.len() {
        None
    } else {
        let a = attrs[i];
        if a.path_is("doc"@) {
            trait_attrs_from(attrs, i + 1, seen)
        } else if a.path_is("symbol_prefix"@) {
            match sym_attr_step(a, "symbol_prefix"@, seen) {
                Some(e) => Some(e),
                None => trait_attrs_from(attrs, i + 1, true),
            }
        } else {
            Some((a.span(), "unexpected attribute; expected doc comments or `#[symbol_prefix = \"...\"]`"@))
        }
    }
}

/// Splits the trait's attributes into doc comments and an optional
/// `#[symbol_prefix = "..."]`.
pub fn split_trait_attrs(attrs: &Vec<Attr>) -> (r: Result<(Vec<Attr>, Option<Sym>), Error>)
    ensures
        r matches Ok((docs, prefix)) ==> {
            &&& forall|k: int|
                0 <= k < attrs@.len() ==> (#[trigger] attrs@[k]).path_is("doc"@) || attrs@[k].path_is(
                    "symbol_prefix"@,
                )
            &&& attrs_toks(docs@) == doc_attrs(attrs@)
            &&& sym_from(attrs@, "symbol_prefix"@, prefix)
        },
        match trait_attrs_from(attrs@, 0, false) {
            None => r is Ok,
            Some(e) => r matches Err(x) && x@ == e,
        },
        r matches Ok((_, prefix)) ==> sym_view(prefix) == first_sym(attrs@, "symbol_prefix"@),
{
    let mut docs: Vec<Attr> = Vec::new();
    let mut prefix: Option<Sym> = None;
    let mut i: usize = 0;
    while i < attrs.len()
        invariant
            i <= attrs.len(),
            forall|k: int|
                0 <= k < i ==> (#[trigger] attrs@[k]).path_is("doc"@) || attrs@[k].path_is(
                    "symbol_prefix"@,
                ),
            attrs_toks(docs@) == doc_attrs(attrs@.subrange(0, i as int)),
            sym_from(attrs@.subrange(0, i as int), "symbol_prefix"@, prefix),
            trait_attrs_from(attrs@, 0, false) == trait_attrs_from(attrs@, i as int, prefix is Some),
            sym_view(prefix) == first_sym(attrs@.subrange(0, i as int), "symbol_prefix"@),
        decreases attrs.len() - i,
    {
        let a = &attrs[i];
        let ghost pre = attrs@.subrange(0, i as int);
        let ghost post = attrs@.subrange(0, i + 1);
        proof {
            assert(post =~= pre.push(*a));
            assert(post.drop_last() =~= pre);
            assert(post.last() == *a);
            reveal_strlit("doc");
            reveal_strlit("symbol_prefix");
            assert("doc"@.len() != "symbol_prefix"@.len());
            if !a.path_is("symbol_prefix"@) {
                lemma_sym_from_other(pre, *a, "symbol_prefix"@, prefix);
            }
        }
        if attr_path_is(a, "doc") {
            let ghost before = docs@;
            docs.push(copy_attr(a));
            proof {
                assert(attrs_toks(docs@) =~= attrs_toks(before).push(a.toks()));
            }
        } else if attr_path_is(a, "symbol_prefix") {
            if prefix.is_some() {
                return Err(duplicate(tok_span(&a.pound), "symbol_prefix"));
            }
            let s = parse_str_attr(a, "symbol_prefix")?;
            proof {
                lemma_sym_from_first(pre, *a, "symbol_prefix"@, s);
            }
            prefix = Some(s);
        } else {
            return Err(
                Error::new(
                    tok_span(&a.pound),
                    "unexpected attribute; expected doc comments or `#[symbol_prefix = \"...\"]`",
                ),
            );
        }
        i += 1;
    }
    proof {
        assert(attrs@.subrange(0, attrs@.len() as int) =~= attrs@);
    }
    Ok((docs, prefix))
}

/// The error for the first attribute from `i` on that is no doc comment, if any.
pub open spec fn non_doc_err(attrs: Seq<Attr>, i: int) -> Option<(u64, Seq<char>)>
    decreases attrs.len() - i,
{
    if i < 0 || i >= attrs.len() {
        None
    } else if attrs[i].path_is("doc"@) {
        non_doc_err(attrs, i + 1)
    } else {
        Some((attrs[i].span(), "only doc comments are allowed here"@))
    }
}

/// Accepts the attributes only if they are all doc comments.
pub fn only_docs(attrs: Vec<Attr>) -> (r: Result<Vec<Attr>, Error>)
    ensures
        match non_doc_err(attrs@, 0) {
            None => r is Ok,
            Some(e) => r matches Err(x) && x@ == e,
        },
        r is Ok <==> forall|k: int| 0 <= k < attrs@.len() ==> (#[trigger] attrs@[k]).path_is("doc"@),
        r matches Ok(v) ==> v@ == attrs@,
        r matches Err(e) ==> e@.1 == "only doc comments are allowed here"@ && exists|k: int|
            0 <= k < attrs@.len() && !(#[trigger] attrs@[k]).path_is("doc"@) && e@.0
                == attrs@[k].span() && forall|j: int| 0 <= j < k ==> (#[trigger] attrs@[j]).path_is(
                "doc"@,
            ),
{
    let mut i: usize = 0;
    while i < attrs.len()
        invariant
            i <= attrs.len(),
            forall|j: int| 0 <= j < i ==> (#[trigger] attrs@[j]).path_is("doc"@),
            non_doc_err(attrs@, 0) == non_doc_err(attrs@, i as int),
        decreases attrs.len() - i,
    {
        if !attr_path_is(&attrs[i], "doc") {
            return Err(Error::new(tok_span(&attrs[i].pound), "only doc comments are allowed here"));
        }
        i += 1;
    }
    Ok(attrs)
}

} // verus!

verus! {

/// Attribute lists whose attributes have the same views, one for one.
pub open spec fn attrs_same(x: Seq<Attr>, y: Seq<Attr>) -> bool {
    &&& x.len() == y.len()
    &&& forall|k: int| 0 <= k < x.len() ==> (#[trigger] x[k]).toks() == y[k].toks()
}

/// Layout sources alike but for the copy of the tokens they hold.
pub open spec fn src_same(a: LayoutSrc, b: LayoutSrc) -> bool {
    a.0 == b.0 && toks_view(a.1) == toks_view(b.1) && a.2 == b.2
}

pub open spec fn srcs_same(a: Seq<LayoutSrc>, b: Seq<LayoutSrc>) -> bool {
    a.len() == b.len() && forall|k: int| 0 <= k < a.len() ==> src_same(#[trigger] a[k], b[k])
}

/// Ranges of a list of views are views of the ranges.
pub proof fn lemma_toks_subrange_same(s1: Seq<Tok>, s2: Seq<Tok>, a: int, b: int)
    requires
        toks_view(s1) == toks_view(s2),
        0 <= a <= b <= s1.len(),
    ensures
        toks_view(s1.subrange(a, b)) == toks_view(s2.subrange(a, b)),
{
    crate::tokens::lemma_toks_same(s1, s2);
    let x = s1.subrange(a, b);
    let y = s2.subrange(a, b);
    crate::tokens::lemma_toks_view(x);
    crate::tokens::lemma_toks_view(y);
    assert forall|i: int| 0 <= i < x.len() implies toks_view(x)[i] == toks_view(y)[i] by {
        assert(x[i] == s1[a + i]);
        assert(y[i] == s2[a + i]);
    }
    assert(toks_view(x) =~= toks_view(y));
}

proof fn lemma_entries_same(
    b1: Seq<Tok>,
    b2: Seq<Tok>,
    i: int,
    sp: u64,
    size: Option<Entry>,
    align: Option<Entry>,
)
    requires
        toks_view(b1) == toks_view(b2),
    ensures
        opaque_entries(b1, i, sp, size, align) == opaque_entries(b2, i, sp, size, align),
    decreases b1.len() - i,
{
    crate::tokens::lemma_toks_same(b1, b2);
    let n = b1.len();
    if 0 <= i < n {
        crate::tokens::lemma_tok_same(b1[i], b2[i]);
        if i + 1 < n {
            crate::tokens::lemma_tok_same(b1[i + 1], b2[i + 1]);
        }
        if i + 3 < n {
            crate::tokens::lemma_tok_same(b1[i + 3], b2[i + 3]);
        }
        if i + 2 < n {
            crate::tokens::lemma_tok_same(b1[i + 2], b2[i + 2]);
            assert(entry_value(b1, i) == entry_value(b2, i));
            let e = Some((i, entry_value(b1, i), span_of(b1[i + 2])));
            let next = if i + 3 < n {
                i + 4
            } else {
                i + 3
            };
            lemma_entries_same(b1, b2, next, sp, e, align);
            lemma_entries_same(b1, b2, next, sp, size, e);
        }
    }
}

proof fn lemma_opaque_args_same(b1: Seq<Tok>, b2: Seq<Tok>, sp: u64)
    requires
        toks_view(b1) == toks_view(b2),
    ensures
        opaque_args(b1, sp) == opaque_args(b2, sp),
{
    lemma_entries_same(b1, b2, 0, sp, None, None);
}

/// A layout declared by one source is declared by any source alike.
pub proof fn lemma_layout_from_same(l: OpaqueLayout, s1: LayoutSrc, s2: LayoutSrc)
    requires
        src_same(s1, s2),
    ensures
        layout_from(l, s1) == layout_from(l, s2),
{
    lemma_opaque_args_same(s1.1, s2.1, s1.2);
    crate::tokens::lemma_toks_same(s1.1, s2.1);
    if let Ok((sa, z, aa, a, p)) = opaque_args(s1.1, s1.2) {
        lemma_opaque_entries_range(s1.1, 0, s1.2, None, None);
    }
}

/// The entries read are entries of the list.
proof fn lemma_opaque_entries_range(
    b: Seq<Tok>,
    i: int,
    sp: u64,
    size: Option<Entry>,
    align: Option<Entry>,
)
    requires
        size matches Some(e) ==> 0 <= e.0 && e.0 + 2 < b.len(),
        align matches Some(e) ==> 0 <= e.0 && e.0 + 2 < b.len(),
    ensures
        opaque_entries(b, i, sp, size, align) matches Ok((s, a)) ==> (s matches Some(e) ==> 0 <= e.0
            && e.0 + 2 < b.len()) && (a matches Some(e) ==> 0 <= e.0 && e.0 + 2 < b.len()),
    decreases b.len() - i,
{
    let n = b.len();
    if 0 <= i < n && i + 2 < n {
        let e = Some((i, entry_value(b, i), span_of(b[i + 2])));
        let next = if i + 3 < n {
            i + 4
        } else {
            i + 3
        };
        lemma_opaque_entries_range(b, next, sp, e, align);
        lemma_opaque_entries_range(b, next, sp, size, e);
    }
}

proof fn lemma_first_comma_same(s1: Seq<Tok>, s2: Seq<Tok>, k: int)
    requires
        toks_view(s1) == toks_view(s2),
    ensures
        first_comma(s1, k) == first_comma(s2, k),
        k <= first_comma(s1, k) <= s1.len() || first_comma(s1, k) == s1.len(),
    decreases s1.len() - k,
{
    crate::tokens::lemma_toks_same(s1, s2);
    if 0 <= k < s1.len() {
        crate::tokens::lemma_tok_same(s1[k], s2[k]);
        lemma_first_comma_same(s1, s2, k + 1);
    }
}

proof fn lemma_cfg_metas_same(s1: Seq<Tok>, s2: Seq<Tok>, i: int)
    requires
        toks_view(s1) == toks_view(s2),
    ensures
        cfg_metas(s1, i) == cfg_metas(s2, i),
        cfg_metas(s1, i) matches Ok(ms) ==> forall|j: int|
            0 <= j < ms.len() ==> 0 <= (#[trigger] ms[j]).0 < ms[j].1 <= s1.len(),
    decreases s1.len() - i,
{
    crate::tokens::lemma_toks_same(s1, s2);
    if 0 <= i < s1.len() {
        crate::tokens::lemma_tok_same(s1[i], s2[i]);
        lemma_first_comma_same(s1, s2, i);
        lemma_first_comma_same(s1, s2, i + 1);
        let e = first_comma(s1, i);
        let next = if e < s1.len() {
            e + 1
        } else {
            e
        };
        if i < next <= s1.len() {
            lemma_cfg_metas_same(s1, s2, next);
            if !is_punct(s1[i], ',') && cfg_metas(s1, next) is Ok {
                let rest = cfg_metas(s1, next)->Ok_0;
                assert(e == first_comma(s1, i + 1));
                let ms = seq![(i, e)] + rest;
                assert(ms[0] == (i, e));
                assert forall|j: int| 0 <= j < ms.len() implies 0 <= (#[trigger] ms[j]).0 < ms[j].1
                    <= s1.len() by {
                    if j > 0 {
                        assert(ms[j] == rest[j - 1]);
                    }
                }
            }
        }
    }
}

proof fn lemma_meta_list_same(s1: Seq<Tok>, s2: Seq<Tok>, m: (int, int))
    requires
        toks_view(s1) == toks_view(s2),
    ensures
        meta_list(s1, m) is Some <==> meta_list(s2, m) is Some,
        meta_list(s1, m) is Some ==> toks_view(meta_list(s1, m)->0) == toks_view(meta_list(s2, m)->0),
{
    crate::tokens::lemma_toks_same(s1, s2);
    if m.1 - m.0 == 2 && 0 <= m.0 && m.1 <= s1.len() {
        crate::tokens::lemma_tok_same(s1[m.0], s2[m.0]);
        crate::tokens::lemma_tok_same(s1[m.0 + 1], s2[m.0 + 1]);
    }
}

proof fn lemma_cfg_attr_src_same(a1: Attr, a2: Attr, uncond: bool)
    requires
        a1.toks() == a2.toks(),
    ensures
        match (cfg_attr_src(a1, uncond), cfg_attr_src(a2, uncond)) {
            (Ok(x), Ok(y)) => src_same(x, y),
            (Err(e), Err(f)) => e == f,
            _ => false,
        },
{
    crate::tokens::lemma_tok_same(a1.pound, a2.pound);
    crate::tokens::lemma_tok_same(a1.group, a2.group);
    let b1 = a1.body();
    let b2 = a2.body();
    lemma_body_same(a1, a2);
    crate::tokens::lemma_toks_same(b1, b2);
    if b1.len() == 2 {
        crate::tokens::lemma_tok_same(b1[1], b2[1]);
        if let (Tok::Group { body: i1, delim: d1, span: g1 }, Tok::Group { body: i2, .. }) = (b1[1], b2[1]) {
            let s1 = i1@;
            let s2 = i2@;
            assert(toks_view(s1) == toks_view(s2));
            crate::tokens::lemma_toks_same(s1, s2);
            lemma_first_comma_same(s1, s2, 0);
            let k = first_comma(s1, 0);
            if 0 <= k < s1.len() {
                crate::tokens::lemma_tok_same(s1[k], s2[k]);
            }
            if k != 0 && k != s1.len() {
                lemma_toks_subrange_same(s1, s2, k + 1, s1.len() as int);
                crate::syntax::lemma_toks_text_view(
                    s1.subrange(k + 1, s1.len() as int),
                    s2.subrange(k + 1, s2.len() as int),
                );
                if k + 1 < s1.len() {
                    crate::tokens::lemma_tok_same(s1[k + 1], s2[k + 1]);
                }
                lemma_cfg_metas_same(s1, s2, k + 1);
                if let Ok(ms) = cfg_metas(s1, k + 1) {
                    if ms.len() > 0 {
                        crate::tokens::lemma_tok_same(s1[ms[0].0], s2[ms[0].0]);
                        lemma_meta_list_same(s1, s2, ms[0]);
                        if let Some(l1) = meta_list(s1, ms[0]) {
                            lemma_opaque_args_same(l1, meta_list(s2, ms[0])->0, span_of(s1[ms[0].0]));
                        }
                        if ms.len() >= 2 {
                            crate::tokens::lemma_tok_same(s1[ms[1].0], s2[ms[1].0]);
                            lemma_meta_list_same(s1, s2, ms[1]);
                        }
                        lemma_toks_subrange_same(s1, s2, 0, k);
                    }
                }
            }
        }
    }
}

proof fn lemma_str_attr_value_same(a1: Attr, a2: Attr, name: Seq<char>)
    requires
        a1.toks() == a2.toks(),
    ensures
        str_attr_value(a1, name) == str_attr_value(a2, name),
        a1.path_is(name) == a2.path_is(name),
        a1.span() == a2.span(),
{
    crate::tokens::lemma_tok_same(a1.pound, a2.pound);
    crate::tokens::lemma_tok_same(a1.group, a2.group);
    let b1 = a1.body();
    let b2 = a2.body();
    lemma_body_same(a1, a2);
    crate::tokens::lemma_toks_same(b1, b2);
    if b1.len() >= 1 {
        crate::tokens::lemma_tok_same(b1[0], b2[0]);
    }
    if b1.len() >= 2 {
        crate::tokens::lemma_tok_same(b1[1], b2[1]);
    }
    if b1.len() >= 3 {
        crate::tokens::lemma_tok_same(b1[2], b2[2]);
    }
}

proof fn lemma_opaque_list_same(a1: Attr, a2: Attr)
    requires
        a1.toks() == a2.toks(),
    ensures
        opaque_list(a1) is Some <==> opaque_list(a2) is Some,
        opaque_list(a1) matches Some((l1, s1)) ==> opaque_list(a2) matches Some((l2, s2)) && s1 == s2
            && toks_view(l1) == toks_view(l2),
{
    crate::tokens::lemma_tok_same(a1.group, a2.group);
    let b1 = a1.body();
    let b2 = a2.body();
    lemma_body_same(a1, a2);
    crate::tokens::lemma_toks_same(b1, b2);
    if b1.len() == 2 {
        crate::tokens::lemma_tok_same(b1[0], b2[0]);
        crate::tokens::lemma_tok_same(b1[1], b2[1]);
    }
}

/// Reading attributes alike gives the same errors, and layouts from sources alike.
pub proof fn lemma_item_attrs_same(
    x: Seq<Attr>,
    y: Seq<Attr>,
    i: int,
    sym: bool,
    drop: bool,
    clone: bool,
    uncond: bool,
)
    requires
        attrs_same(x, y),
    ensures
        match (item_attrs_from(x, i, sym, drop, clone, uncond), item_attrs_from(y, i, sym, drop, clone, uncond)) {
            (Ok(a), Ok(b)) => srcs_same(a, b),
            (Err(e), Err(f)) => e == f,
            _ => false,
        },
    decreases x.len() - i,
{
    if 0 <= i < x.len() {
        let a1 = x[i];
        let a2 = y[i];
        assert(a1.toks() == a2.toks());
        lemma_str_attr_value_same(a1, a2, "doc"@);
        lemma_str_attr_value_same(a1, a2, "symbol"@);
        lemma_str_attr_value_same(a1, a2, "drop_symbol"@);
        lemma_str_attr_value_same(a1, a2, "clone_symbol"@);
        lemma_str_attr_value_same(a1, a2, "opaque"@);
        lemma_str_attr_value_same(a1, a2, "cfg_attr"@);
        if a1.path_is("doc"@) {
            lemma_item_attrs_same(x, y, i + 1, sym, drop, clone, uncond);
        } else if a1.path_is("symbol"@) {
            lemma_item_attrs_same(x, y, i + 1, true, drop, clone, uncond);
        } else if a1.path_is("drop_symbol"@) {
            lemma_item_attrs_same(x, y, i + 1, sym, true, clone, uncond);
        } else if a1.path_is("clone_symbol"@) {
            lemma_item_attrs_same(x, y, i + 1, sym, drop, true, uncond);
        } else if a1.path_is("opaque"@) {
            lemma_opaque_list_same(a1, a2);
            lemma_item_attrs_same(x, y, i + 1, sym, drop, clone, true);
            lemma_item_attrs_opaque_step(x, y, i, sym, drop, clone);
        } else if a1.path_is("cfg_attr"@) {
            lemma_cfg_attr_src_same(a1, a2, uncond);
            lemma_item_attrs_same(x, y, i + 1, sym, drop, clone, uncond);
            if let (Ok(src1), Ok(src2)) = (cfg_attr_src(a1, uncond), cfg_attr_src(a2, uncond)) {
                if let (Ok(r1), Ok(r2)) = (
                    item_attrs_from(x, i + 1, sym, drop, clone, uncond),
                    item_attrs_from(y, i + 1, sym, drop, clone, uncond),
                ) {
                    lemma_srcs_cons_same(src1, src2, r1, r2);
                }
            }
        }
    }
}

proof fn lemma_srcs_cons_same(s1: LayoutSrc, s2: LayoutSrc, r1: Seq<LayoutSrc>, r2: Seq<LayoutSrc>)
    requires
        src_same(s1, s2),
        srcs_same(r1, r2),
    ensures
        srcs_same(seq![s1] + r1, seq![s2] + r2),
{
    let c1 = seq![s1] + r1;
    let c2 = seq![s2] + r2;
    assert forall|k: int| 0 <= k < c1.len() implies src_same(#[trigger] c1[k], c2[k]) by {
        if k > 0 {
            assert(c1[k] == r1[k - 1]);
            assert(c2[k] == r2[k - 1]);
        }
    }
}

proof fn lemma_item_attrs_opaque_step(x: Seq<Attr>, y: Seq<Attr>, i: int, sym: bool, drop: bool, clone: bool)
    requires
        attrs_same(x, y),
        0 <= i < x.len(),
        opaque_list(x[i]) is Some <==> opaque_list(y[i]) is Some,
        opaque_list(x[i]) matches Some((l1, s1)) ==> opaque_list(y[i]) matches Some((l2, s2)) && s1
            == s2 && toks_view(l1) == toks_view(l2),
        match (item_attrs_from(x, i + 1, sym, drop, clone, true), item_attrs_from(y, i + 1, sym, drop, clone, true)) {
            (Ok(a), Ok(b)) => srcs_same(a, b),
            (Err(e), Err(f)) => e == f,
            _ => false,
        },
    ensures
        match (opaque_list(x[i]), opaque_list(y[i])) {
            (Some((l1, s1)), Some((l2, _))) => opaque_args(l1, s1) == opaque_args(l2, s1) && match (
                item_attrs_from(x, i + 1, sym, drop, clone, true),
                item_attrs_from(y, i + 1, sym, drop, clone, true),
            ) {
                (Ok(r1), Ok(r2)) => srcs_same(
                    seq![(None::<Seq<TokV>>, l1, s1)] + r1,
                    seq![(None::<Seq<TokV>>, l2, s1)] + r2,
                ),
                _ => true,
            },
            _ => true,
        },
{
    if let (Some((l1, s1)), Some((l2, _))) = (opaque_list(x[i]), opaque_list(y[i])) {
        lemma_opaque_args_same(l1, l2, s1);
        if let (Ok(r1), Ok(r2)) = (
            item_attrs_from(x, i + 1, sym, drop, clone, true),
            item_attrs_from(y, i + 1, sym, drop, clone, true),
        ) {
            lemma_srcs_cons_same((None::<Seq<TokV>>, l1, s1), (None::<Seq<TokV>>, l2, s1), r1, r2);
        }
    }
}

/// Attributes alike name the same symbols.
pub proof fn lemma_first_sym_same(x: Seq<Attr>, y: Seq<Attr>, name: Seq<char>)
    requires
        attrs_same(x, y),
    ensures
        first_sym(x, name) == first_sym(y, name),
    decreases x.len(),
{
    if x.len() > 0 {
        assert(attrs_same(x.drop_last(), y.drop_last())) by {
            assert forall|k: int| 0 <= k < x.drop_last().len() implies (#[trigger] x.drop_last()[k]).toks()
                == y.drop_last()[k].toks() by {
                assert(x[k].toks() == y[k].toks());
            }
        }
        lemma_first_sym_same(x.drop_last(), y.drop_last(), name);
        assert(x.last().toks() == y.last().toks()) by {
            assert(x[x.len() - 1].toks() == y[x.len() - 1].toks());
        }
        lemma_str_attr_value_same(x.last(), y.last(), name);
    }
}

/// Trait attributes alike give the same error.
pub proof fn lemma_trait_attrs_same(x: Seq<Attr>, y: Seq<Attr>, i: int, seen: bool)
    requires
        attrs_same(x, y),
    ensures
        trait_attrs_from(x, i, seen) == trait_attrs_from(y, i, seen),
    decreases x.len() - i,
{
    if 0 <= i < x.len() {
        assert(x[i].toks() == y[i].toks());
        lemma_str_attr_value_same(x[i], y[i], "doc"@);
        lemma_str_attr_value_same(x[i], y[i], "symbol_prefix"@);
        lemma_trait_attrs_same(x, y, i + 1, seen);
        lemma_trait_attrs_same(x, y, i + 1, true);
    }
}

} // verus!

verus! {

/// Attributes alike hold the same doc comments.
pub proof fn lemma_doc_attrs_same(x: Seq<Attr>, y: Seq<Attr>)
    requires
        attrs_same(x, y),
    ensures
        doc_attrs(x) == doc_attrs(y),
    decreases x.len(),
{
    if x.len() > 0 {
        assert(attrs_same(x.drop_last(), y.drop_last())) by {
            assert forall|k: int| 0 <= k < x.drop_last().len() implies (#[trigger] x.drop_last()[k]).toks()
                == y.drop_last()[k].toks() by {
                assert(x[k].toks() == y[k].toks());
            }
        }
        lemma_doc_attrs_same(x.drop_last(), y.drop_last());
        assert(x.last().toks() == y.last().toks()) by {
            assert(x[x.len() - 1].toks() == y[x.len() - 1].toks());
        }
        lemma_str_attr_value_same(x.last(), y.last(), "doc"@);
    }
}

/// The attributes `ts[lo..lo + 2n]`, each a `#` and its bracketed group, as written.
pub open spec fn attrs_of(ts: Seq<Tok>, lo: int, n: int) -> Seq<Attr> {
    Seq::new(n as nat, |k: int| Attr { pound: ts[lo + 2 * k], group: ts[lo + 2 * k + 1] })
}

/// Attributes read from `ts[lo..p]` are those written there.
pub proof fn lemma_attrs_at_same(ts: Seq<Tok>, lo: int, p: int, attrs: Seq<Attr>)
    requires
        attrs_at(ts, lo, p, attrs),
    ensures
        attrs_same(attrs, attrs_of(ts, lo, (p - lo) / 2)),
{
    let y = attrs_of(ts, lo, (p - lo) / 2);
    assert forall|k: int| 0 <= k < attrs.len() implies (#[trigger] attrs[k]).toks() == y[k].toks() by {
        assert(tok_view(attrs[k].pound) == tok_view(ts[lo + 2 * k]));
    }
}

} // verus!

verus! {

/// Attributes alike hold their first non-doc attribute in the same place.
pub proof fn lemma_non_doc_same(x: Seq<Attr>, y: Seq<Attr>, i: int)
    requires
        attrs_same(x, y),
    ensures
        non_doc_err(x, i) == non_doc_err(y, i),
    decreases x.len() - i,
{
    if 0 <= i < x.len() {
        assert(x[i].toks() == y[i].toks());
        lemma_str_attr_value_same(x[i], y[i], "doc"@);
        lemma_non_doc_same(x, y, i + 1);
    }
}

} // verus!

verus! {

/// A `cfg_attr` read after an unconditional layout is an error, whatever it holds.
proof fn lemma_cfg_attr_after_uncond(a: Attr)
    ensures
        cfg_attr_src(a, true) is Err,
{
}

/// Reading from `k` on, with an unconditional layout read before or among `attrs[k..j]`,
/// fails if `attrs[j]` is another `#[opaque]` or a `cfg_attr`.
proof fn lemma_layout_after_uncond(
    attrs: Seq<Attr>,
    k: int,
    sym: bool,
    drop: bool,
    clone: bool,
    uncond: bool,
    j: int,
)
    requires
        0 <= k <= j < attrs.len(),
        attrs[j].path_is("opaque"@) || attrs[j].path_is("cfg_attr"@),
        uncond || exists|i: int| k <= i < j && (#[trigger] attrs[i]).path_is("opaque"@),
    ensures
        item_attrs_from(attrs, k, sym, drop, clone, uncond) is Err,
    decreases j - k,
{
    lemma_item_attr_names_differ();
    let a = attrs[k];
    lemma_cfg_attr_after_uncond(a);
    if k < j {
        if !a.path_is("opaque"@) && !uncond {
            let i = choose|i: int| k <= i < j && (#[trigger] attrs[i]).path_is("opaque"@);
            assert(i != k);
            assert(exists|i: int| k + 1 <= i < j && (#[trigger] attrs[i]).path_is("opaque"@));
        }
        if !a.path_is("opaque"@) || uncond {
            lemma_layout_after_uncond(attrs, k + 1, sym, drop, clone, uncond, j);
            lemma_layout_after_uncond(attrs, k + 1, true, drop, clone, uncond, j);
            lemma_layout_after_uncond(attrs, k + 1, sym, true, clone, uncond, j);
            lemma_layout_after_uncond(attrs, k + 1, sym, drop, true, uncond, j);
        }
        if a.path_is("opaque"@) || uncond {
            lemma_layout_after_uncond(attrs, k + 1, sym, drop, clone, true, j);
        }
        if a.path_is("cfg_attr"@) && !uncond {
            lemma_layout_after_uncond(attrs, k + 1, sym, drop, clone, false, j);
        }
    } else {
        assert(uncond);
    }
}

} // verus!
