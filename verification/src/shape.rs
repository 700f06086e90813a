//! How a method uses each type slot, as far as opaque associated types are concerned.
use vstd::prelude::*;

use crate::input::{UnitraitInput, name_of};
use crate::out::Error;
use crate::syntax::is_type_toks;
use crate::tokens::{
    Delim, Tok, TokV, copy_toks, find_top, first_top_sep, is_ident, is_joint_punct, is_punct,
    span_of, text_eq, tok_is_ident, tok_is_joint_punct, tok_is_punct, tok_span, toks_view,
};

verus! {

/// How an opaque associated type is used at a leaf of a [`Shape`].
#[derive(Clone, Copy, Debug, PartialEq, Eq, Structural)]
pub enum Mode {
    /// `Self::Name`.
    Value,
    /// `&Self::Name`.
    Ref,
    /// `&mut Self::Name`.
    RefMut,
    /// `Pin<&Self::Name>`.
    PinRef,
    /// `Pin<&mut Self::Name>`.
    PinRefMut,
}

/// How a method uses a type slot (one parameter, or the return type).
///
/// A composite is only built when an opaque associated type appears somewhere inside it; a
/// type with no `Self` in it is `Plain`, however it is spelled.
#[derive(Debug)]
pub enum Shape {
    /// A type containing no `Self`, passed through verbatim.
    Plain(Vec<Tok>),
    /// An opaque associated type, by value or borrowed: its index among the trait's
    /// opaque types, how it is used, and where.
    Opaque { index: usize, mode: Mode, span: u64 },
    /// `Option<T>`, with an opaque associated type somewhere in `T`.
    Option(u64, Box<Shape>),
    /// `Result<T, E>`, with an opaque associated type somewhere in `T` or `E`.
    Result(u64, Box<Shape>, Box<Shape>),
    /// A tuple, with an opaque associated type somewhere in an element.
    Tuple(u64, Vec<Shape>),
    /// `[T; N]`, with an opaque associated type somewhere in `T`. The length is kept as
    /// written.
    Array(u64, Box<Shape>, Vec<Tok>),
}

/// Every opaque leaf of the shape refers to one of the `n` opaque types.
pub open spec fn shape_valid(s: Shape, n: nat) -> bool
    decreases s,
{
    match s {
        Shape::Plain(_) => true,
        Shape::Opaque { index, .. } => index < n,
        Shape::Option(_, inner) => shape_valid(*inner, n),
        Shape::Result(_, ok, err) => shape_valid(*ok, n) && shape_valid(*err, n),
        Shape::Tuple(_, elems) => {
            proof {
                assert(decreases_to!(elems => elems@)) by {
                    broadcast use vstd::std_specs::vec::axiom_vec_decreases_to_view;
                }
            }
            shapes_valid(elems@, n)
        },
        Shape::Array(_, elem, _) => shape_valid(*elem, n),
    }
}

pub open spec fn shapes_valid(s: Seq<Shape>, n: nat) -> bool
    decreases s,
{
    if s.len() == 0 {
        true
    } else {
        shapes_valid(s.drop_last(), n) && shape_valid(s.last(), n)
    }
}

/// Some opaque associated type is a leaf of the shape.
pub open spec fn has_opaque(s: Shape) -> bool
    decreases s,
{
    match s {
        Shape::Plain(_) => false,
        Shape::Opaque { .. } => true,
        Shape::Option(_, inner) => has_opaque(*inner),
        Shape::Result(_, ok, err) => has_opaque(*ok) || has_opaque(*err),
        Shape::Tuple(_, elems) => {
            proof {
                assert(decreases_to!(elems => elems@)) by {
                    broadcast use vstd::std_specs::vec::axiom_vec_decreases_to_view;
                }
            }
            any_opaque(elems@)
        },
        Shape::Array(_, elem, _) => has_opaque(*elem),
    }
}

pub open spec fn any_opaque(s: Seq<Shape>) -> bool
    decreases s,
{
    if s.len() == 0 {
        false
    } else {
        any_opaque(s.drop_last()) || has_opaque(s.last())
    }
}

/// Every composite node of the shape (`Option`, `Result`, tuple, array) has an opaque
/// associated type among its leaves: a composite is only built around one.
pub open spec fn built_around_opaque(s: Shape) -> bool
    decreases s,
{
    match s {
        Shape::Plain(_) => true,
        Shape::Opaque { .. } => true,
        Shape::Option(_, inner) => has_opaque(*inner) && built_around_opaque(*inner),
        Shape::Result(_, ok, err) => (has_opaque(*ok) || has_opaque(*err)) && built_around_opaque(*ok)
            && built_around_opaque(*err),
        Shape::Tuple(_, elems) => {
            proof {
                assert(decreases_to!(elems => elems@)) by {
                    broadcast use vstd::std_specs::vec::axiom_vec_decreases_to_view;
                }
            }
            any_opaque(elems@) && all_built_around_opaque(elems@)
        },
        Shape::Array(_, elem, _) => has_opaque(*elem) && built_around_opaque(*elem),
    }
}

pub open spec fn all_built_around_opaque(s: Seq<Shape>) -> bool
    decreases s,
{
    if s.len() == 0 {
        true
    } else {
        all_built_around_opaque(s.drop_last()) && built_around_opaque(s.last())
    }
}

/// The shape borrows no opaque type: every leaf is used by value.
pub open spec fn no_borrow(s: Shape) -> bool
    decreases s,
{
    match s {
        Shape::Plain(_) => true,
        Shape::Opaque { mode, .. } => mode == Mode::Value,
        Shape::Option(_, inner) => no_borrow(*inner),
        Shape::Result(_, ok, err) => no_borrow(*ok) && no_borrow(*err),
        Shape::Tuple(_, elems) => {
            proof {
                assert(decreases_to!(elems => elems@)) by {
                    broadcast use vstd::std_specs::vec::axiom_vec_decreases_to_view;
                }
            }
            none_borrow(elems@)
        },
        Shape::Array(_, elem, _) => no_borrow(*elem),
    }
}

pub open spec fn none_borrow(s: Seq<Shape>) -> bool
    decreases s,
{
    if s.len() == 0 {
        true
    } else {
        none_borrow(s.drop_last()) && no_borrow(s.last())
    }
}

/// Where the first borrowed opaque associated type of a shape is used.
pub open spec fn first_borrow(s: Shape) -> Option<u64>
    decreases s,
{
    match s {
        Shape::Plain(_) => None,
        Shape::Opaque { mode, span, .. } => if mode == Mode::Value {
            None
        } else {
            Some(span)
        },
        Shape::Option(_, inner) => first_borrow(*inner),
        Shape::Result(_, ok, err) => match first_borrow(*ok) {
            Some(x) => Some(x),
            None => first_borrow(*err),
        },
        Shape::Tuple(_, elems) => {
            proof {
                assert(decreases_to!(elems => elems@)) by {
                    broadcast use vstd::std_specs::vec::axiom_vec_decreases_to_view;
                }
            }
            first_borrow_in(elems@)
        },
        Shape::Array(_, elem, _) => first_borrow(*elem),
    }
}

pub open spec fn first_borrow_in(s: Seq<Shape>) -> Option<u64>
    decreases s,
{
    if s.len() == 0 {
        None
    } else {
        match first_borrow_in(s.drop_last()) {
            Some(x) => Some(x),
            None => first_borrow(s.last()),
        }
    }
}

/// Where the first borrowed opaque associated type of a shape's value is used.
pub open spec fn first_borrow_v(s: ShapeV) -> Option<u64>
    decreases s,
{
    match s {
        ShapeV::Plain(_) => None,
        ShapeV::Opaque(_, mode, span) => if mode == Mode::Value {
            None
        } else {
            Some(span)
        },
        ShapeV::Option(_, inner) => first_borrow_v(*inner),
        ShapeV::Result(_, ok, err) => match first_borrow_v(*ok) {
            Some(x) => Some(x),
            None => first_borrow_v(*err),
        },
        ShapeV::Tuple(_, elems) => first_borrow_vs(elems),
        ShapeV::Array(_, elem, _) => first_borrow_v(*elem),
    }
}

pub open spec fn first_borrow_vs(s: Seq<ShapeV>) -> Option<u64>
    decreases s,
{
    if s.len() == 0 {
        None
    } else {
        match first_borrow_vs(s.drop_last()) {
            Some(x) => Some(x),
            None => first_borrow_v(s.last()),
        }
    }
}

/// A shape's first borrow is its value's.
pub proof fn lemma_first_borrow_v(s: Shape)
    ensures
        first_borrow(s) == first_borrow_v(shape_v(s)),
    decreases s,
{
    match s {
        Shape::Option(_, inner) => lemma_first_borrow_v(*inner),
        Shape::Result(_, ok, err) => {
            lemma_first_borrow_v(*ok);
            lemma_first_borrow_v(*err);
        },
        Shape::Tuple(_, elems) => {
            assert(decreases_to!(elems => elems@)) by {
                broadcast use vstd::std_specs::vec::axiom_vec_decreases_to_view;
            }
            lemma_first_borrow_vs(elems@);
        },
        Shape::Array(_, elem, _) => lemma_first_borrow_v(*elem),
        _ => {},
    }
}

proof fn lemma_first_borrow_vs(s: Seq<Shape>)
    ensures
        first_borrow_in(s) == first_borrow_vs(shapes_v(s)),
    decreases s,
{
    if s.len() > 0 {
        lemma_first_borrow_vs(s.drop_last());
        lemma_first_borrow_v(s.last());
        assert(shapes_v(s).drop_last() =~= shapes_v(s.drop_last()));
    }
}

impl Shape {
    /// The span of the first borrowed opaque associated type (`&`, `&mut` or `Pin`) in the
    /// shape. A borrow can't be returned: the implementation's value is smaller than the
    /// opaque struct in general, so a reference to it can't be read as one to the opaque
    /// struct, and there'd be nothing to tie its lifetime to anyway.
    pub fn find_borrow(&self) -> (r: Option<u64>)
        ensures
            r is None <==> no_borrow(*self),
            r == first_borrow(*self),
        decreases self,
    {
        match self {
            Shape::Plain(_) => None,
            Shape::Opaque { mode, span, .. } => {
                match mode {
                    Mode::Value => None,
                    _ => Some(*span),
                }
            },
            Shape::Option(_, inner) => inner.find_borrow(),
            Shape::Array(_, inner, _) => inner.find_borrow(),
            Shape::Result(_, ok, err) => {
                match ok.find_borrow() {
                    Some(s) => Some(s),
                    None => err.find_borrow(),
                }
            },
            Shape::Tuple(_, elems) => {
                proof {
                    assert(elems@.subrange(0, elems@.len() as int) =~= elems@);
                }
                find_borrow_in(elems, elems.len())
            },
        }
    }
}

/// The first borrow among `elems[..k]`.
fn find_borrow_in(elems: &Vec<Shape>, k: usize) -> (r: Option<u64>)
    requires
        k <= elems.len(),
    ensures
        r is None <==> none_borrow(elems@.subrange(0, k as int)),
        r == first_borrow_in(elems@.subrange(0, k as int)),
    decreases elems, k,
{
    if k == 0 {
        None
    } else {
        proof {
            assert(decreases_to!(elems => elems@[k - 1])) by {
                broadcast use vstd::std_specs::vec::axiom_vec_index_decreases;
            }
            assert(elems@.subrange(0, k as int).drop_last() =~= elems@.subrange(0, k - 1));
        }
        match find_borrow_in(elems, k - 1) {
            Some(s) => Some(s),
            None => elems[k - 1].find_borrow(),
        }
    }
}

} // verus!

verus! {

/// Where the first `Self` of a token tree is.
pub open spec fn first_self_tok(t: Tok) -> Option<u64>
    decreases t,
{
    match t {
        Tok::Ident { text, span } => if text@ == "Self"@ {
            Some(span)
        } else {
            None
        },
        Tok::Group { body, .. } => {
            proof {
                assert(decreases_to!(body => body@)) by {
                    broadcast use vstd::std_specs::vec::axiom_vec_decreases_to_view;
                }
            }
            first_self(body@)
        },
        _ => None,
    }
}

/// Where the first `Self` anywhere in a list of token trees is.
pub open spec fn first_self(s: Seq<Tok>) -> Option<u64>
    decreases s,
{
    if s.len() == 0 {
        None
    } else {
        match first_self(s.drop_last()) {
            Some(x) => Some(x),
            None => first_self_tok(s.last()),
        }
    }
}

/// Returns the span of the first `Self` token anywhere in `ts[lo..hi]`, if any.
pub fn find_self(ts: &Vec<Tok>, lo: usize, hi: usize) -> (r: Option<u64>)
    requires
        lo <= hi <= ts.len(),
    ensures
        r == first_self(ts@.subrange(lo as int, hi as int)),
    decreases ts, 0nat,
{
    let mut i = lo;
    let mut found: Option<u64> = None;
    proof {
        assert(ts@.subrange(lo as int, lo as int) =~= Seq::<Tok>::empty());
    }
    while i < hi && found.is_none()
        invariant
            lo <= i <= hi <= ts.len(),
            found == first_self(ts@.subrange(lo as int, i as int)),
            found is Some ==> found == first_self(ts@.subrange(lo as int, hi as int)),
        decreases hi - i,
    {
        proof {
            assert(decreases_to!(ts => ts@[i as int])) by {
                broadcast use vstd::std_specs::vec::axiom_vec_index_decreases;
            }
            assert(ts@.subrange(lo as int, i + 1).drop_last() =~= ts@.subrange(lo as int, i as int));
        }
        found = find_self_tok(&ts[i]);
        i += 1;
        proof {
            if found is Some {
                lemma_first_self_prefix(ts@.subrange(lo as int, hi as int), (i - lo) as int);
                assert(ts@.subrange(lo as int, hi as int).subrange(0, (i - lo) as int) =~= ts@.subrange(
                    lo as int,
                    i as int,
                ));
            }
        }
    }
    proof {
        if found is None {
            assert(i == hi);
        }
    }
    found
}

/// A `Self` found in a prefix is the first one of the whole list.
proof fn lemma_first_self_prefix(s: Seq<Tok>, k: int)
    requires
        0 <= k <= s.len(),
        first_self(s.subrange(0, k)) is Some,
    ensures
        first_self(s) == first_self(s.subrange(0, k)),
    decreases s.len() - k,
{
    if k < s.len() {
        assert(s.subrange(0, k + 1).drop_last() =~= s.subrange(0, k));
        lemma_first_self_prefix(s, k + 1);
    } else {
        assert(s.subrange(0, k) =~= s);
    }
}

fn find_self_tok(t: &Tok) -> (r: Option<u64>)
    ensures
        r == first_self_tok(*t),
    decreases t,
{
    match t {
        Tok::Ident { text, span } => {
            if text_eq(text, "Self") {
                Some(*span)
            } else {
                None
            }
        },
        Tok::Group { body, .. } => {
            proof {
                assert(body@.subrange(0, body@.len() as int) =~= body@);
            }
            find_self(body, 0, body.len())
        },
        _ => None,
    }
}

/// `ts[lo..hi]` is exactly `Self::Name`.
pub open spec fn is_self_assoc(ts: Seq<Tok>, lo: int, hi: int) -> bool {
    &&& hi - lo == 4
    &&& is_ident(ts[lo], "Self"@)
    &&& is_punct(ts[lo + 1], ':')
    &&& is_punct(ts[lo + 2], ':')
    &&& ts[lo + 3] is Ident
}

/// The associated type name's token if `ts[lo..hi]` is exactly `Self::Name`.
pub fn as_self_assoc(ts: &Vec<Tok>, lo: usize, hi: usize) -> (r: Option<usize>)
    requires
        lo <= hi <= ts.len(),
    ensures
        r is Some <==> is_self_assoc(ts@, lo as int, hi as int),
        r matches Some(k) ==> k == lo + 3,
{
    if hi - lo == 4 && tok_is_ident(&ts[lo], "Self") && tok_is_punct(&ts[lo + 1], ':')
        && tok_is_punct(&ts[lo + 2], ':') && matches!(ts[lo + 3], Tok::Ident { .. }) {
        Some(lo + 3)
    } else {
        None
    }
}

/// Where the `>` closing the angle brackets open to `depth` stands, scanning `ts[j..hi]`.
pub open spec fn close_pos(ts: Seq<Tok>, j: int, hi: int, depth: int) -> Option<int>
    decreases hi - j,
{
    if j < 0 || j >= hi {
        None
    } else if is_punct(ts[j], '<') {
        close_pos(ts, j + 1, hi, depth + 1)
    } else if is_punct(ts[j], '>') && !(j > 0 && is_joint_punct(ts[j - 1], '-')) {
        if depth == 1 {
            Some(j)
        } else {
            close_pos(ts, j + 1, hi, depth - 1)
        }
    } else {
        close_pos(ts, j + 1, hi, depth)
    }
}

/// Whether the `>` closing the `<` at `k` is the last token of `ts[k..hi]`.
fn closes_at_end(ts: &Vec<Tok>, k: usize, hi: usize) -> (r: bool)
    requires
        k < hi <= ts.len(),
    ensures
        r ==> k + 1 < hi,
        r == (close_pos(ts@, k + 1, hi as int, 1) == Some(hi - 1)),
{
    let mut depth: usize = 1;
    let mut j = k + 1;
    while j < hi
        invariant
            k < j <= hi <= ts.len(),
            depth >= 1,
            depth <= j - k,
            close_pos(ts@, k + 1, hi as int, 1) == close_pos(ts@, j as int, hi as int, depth as int),
        decreases hi - j,
    {
        if tok_is_punct(&ts[j], '<') {
            depth += 1;
        } else if tok_is_punct(&ts[j], '>') && !tok_is_joint_punct(&ts[j - 1], '-') {
            depth -= 1;
            if depth == 0 {
                return j + 1 == hi;
            }
        }
        j += 1;
    }
    false
}

/// The top-level comma-separated ranges of `ts[s..ih]` (a trailing comma allowed), if each
/// is a type.
pub open spec fn generic_args(ts: Seq<Tok>, s: int, ih: int) -> Option<Seq<(int, int)>>
    decreases ih - s,
{
    if s >= ih {
        Some(Seq::empty())
    } else {
        let e = first_top_sep(ts, s, ih, ',', ',');
        if !(s <= e <= ih) || e == s || !crate::syntax::is_rust_type(
            crate::syntax::toks_text(ts.subrange(s, e)),
        ) {
            None
        } else {
            let next = if e < ih {
                e + 1
            } else {
                ih
            };
            match generic_args(ts, next, ih) {
                Some(rest) => Some(seq![(s, e)] + rest),
                None => None,
            }
        }
    }
}

/// The ranges of the type arguments if `ts[lo..hi]` is exactly `NAME<...>` (or
/// `NAME::<...>`) for the bare name `name` and every argument is a type; `NAME` alone has
/// none.
pub open spec fn bare_generic(ts: Seq<Tok>, lo: int, hi: int, name: Seq<char>) -> Option<Seq<(int, int)>> {
    if hi <= lo || !is_ident(ts[lo], name) {
        None
    } else if hi - lo == 1 {
        Some(Seq::empty())
    } else {
        let k = if hi - (lo + 1) >= 2 && is_punct(ts[lo + 1], ':') && is_punct(ts[lo + 2], ':') {
            lo + 3
        } else {
            lo + 1
        };
        if k >= hi || !is_punct(ts[k], '<') || close_pos(ts, k + 1, hi, 1) != Some(hi - 1) {
            None
        } else {
            generic_args(ts, k + 1, hi - 1)
        }
    }
}

/// The ranges of the type arguments if `ts[lo..hi]` is exactly `NAME<...>` (or `NAME::<...>`)
/// for the bare name `name` and every argument is a type. `NAME` alone yields no arguments.
pub fn as_bare_generic(ts: &Vec<Tok>, lo: usize, hi: usize, name: &str) -> (r: Option<Vec<(usize, usize)>>)
    requires
        lo <= hi <= ts.len(),
    ensures
        r is Some ==> hi > lo && is_ident(ts@[lo as int], name@),
        r matches Some(args) ==> forall|k: int|
            0 <= k < args@.len() ==> {
                let (s, e) = #[trigger] args@[k];
                lo < s < e < hi
            },
        match bare_generic(ts@, lo as int, hi as int, name@) {
            Some(a) => r matches Some(args) && crate::attrs::pairs_int(args@) == a,
            None => r is None,
        },
{
    if hi <= lo || !tok_is_ident(&ts[lo], name) {
        return None;
    }
    if hi - lo == 1 {
        return Some(Vec::new());
    }
    let mut k = lo + 1;
    if hi - k >= 2 && tok_is_punct(&ts[k], ':') && tok_is_punct(&ts[k + 1], ':') {
        k = k + 2;
    }
    if k >= hi || !tok_is_punct(&ts[k], '<') || !closes_at_end(ts, k, hi) {
        return None;
    }
    // The arguments are between `<` at `k` and `>` at `hi - 1`.
    let inner_lo = k + 1;
    let inner_hi = hi - 1;
    let mut args: Vec<(usize, usize)> = Vec::new();
    let mut s = inner_lo;
    proof {
        if let Some(a) = generic_args(ts@, inner_lo as int, inner_hi as int) {
            assert(crate::attrs::pairs_int(args@) + a =~= a);
        }
    }
    while s < inner_hi
        invariant
            lo < k < inner_lo <= s <= inner_hi < hi <= ts.len(),
            forall|j: int|
                0 <= j < args@.len() ==> {
                    let (a, b) = #[trigger] args@[j];
                    lo < a < b < hi
                },
            bare_generic(ts@, lo as int, hi as int, name@) == match generic_args(
                ts@,
                s as int,
                inner_hi as int,
            ) {
                Some(rest) => Some(crate::attrs::pairs_int(args@) + rest),
                None => None,
            },
        decreases inner_hi - s,
    {
        let e = find_top(ts, s, inner_hi, ',', ',');
        if e == s || !is_type_toks(ts, s, e) {
            return None;
        }
        let ghost before = args@;
        args.push((s, e));
        proof {
            assert(crate::attrs::pairs_int(args@) =~= crate::attrs::pairs_int(before) + seq![(s as int, e as int)]);
            let next: int = if e < inner_hi { e + 1 } else { inner_hi as int };
            if let Some(rest) = generic_args(ts@, next, inner_hi as int) {
                assert(crate::attrs::pairs_int(before) + (seq![(s as int, e as int)] + rest) =~= crate::attrs::pairs_int(args@) + rest);
            }
        }
        s = if e < inner_hi {
            e + 1
        } else {
            inner_hi
        };
    }
    proof {
        assert(crate::attrs::pairs_int(args@) + Seq::<(int, int)>::empty() =~= crate::attrs::pairs_int(args@));
    }
    Some(args)
}

/// Whether `ts[j..]` starts with the path separator `::`.
fn is_path_sep(ts: &Vec<Tok>, j: usize, hi: usize) -> (r: bool)
    requires
        j < hi <= ts.len(),
    ensures
        r ==> hi - j >= 2,
        r == path_sep(ts@, j as int, hi as int),
{
    hi - j >= 2 && tok_is_joint_punct(&ts[j], ':') && tok_is_punct(&ts[j + 1], ':')
}

/// `ts[j..hi]` starts with the path separator `::`.
pub open spec fn path_sep(ts: Seq<Tok>, j: int, hi: int) -> bool {
    hi - j >= 2 && is_joint_punct(ts[j], ':') && is_punct(ts[j + 1], ':')
}

/// Scans a path from `j`, at angle-bracket depth `depth`: the number of segments seen (two
/// meaning two or more) and where the last one starts.
pub open spec fn path_scan(ts: Seq<Tok>, j: int, hi: int, depth: int, segments: int, last: int) -> (int, int)
    decreases hi - j,
{
    if j < 0 || j >= hi {
        (segments, last)
    } else if depth == 0 && path_sep(ts, j, hi) {
        if hi - j > 2 {
            path_scan(
                ts,
                j + 2,
                hi,
                depth,
                if segments < 2 {
                    segments + 1
                } else {
                    2
                },
                j + 2,
            )
        } else {
            path_scan(ts, j + 2, hi, depth, segments, last)
        }
    } else if is_punct(ts[j], '<') {
        path_scan(ts, j + 1, hi, depth + 1, segments, last)
    } else if is_punct(ts[j], '>') && !(j > 0 && is_joint_punct(ts[j - 1], '-')) {
        path_scan(ts, j + 1, hi, depth - 1, segments, last)
    } else {
        path_scan(ts, j + 1, hi, depth, segments, last)
    }
}

/// The last segment's name if `ts[lo..hi]` is a path of two or more segments not starting
/// with `Self`.
pub open spec fn qualified_last(ts: Seq<Tok>, lo: int, hi: int) -> Option<Seq<char>> {
    if hi <= lo || is_punct(ts[lo], '<') {
        None
    } else {
        let start = if path_sep(ts, lo, hi) {
            lo + 2
        } else {
            lo
        };
        if start >= hi || is_ident(ts[start], "Self"@) {
            None
        } else {
            let (segments, last) = path_scan(ts, start, hi, 0, 1, start);
            if segments < 2 {
                None
            } else {
                match ts[last] {
                    Tok::Ident { text, .. } => Some(text@),
                    _ => None,
                }
            }
        }
    }
}

/// The last segment's name if `ts[lo..hi]` is a path of two or more segments not starting
/// with `Self`, such as `core::option::Option<T>`.
pub fn as_qualified_path(ts: &Vec<Tok>, lo: usize, hi: usize) -> (r: Option<String>)
    requires
        lo <= hi <= ts.len(),
    ensures
        match qualified_last(ts@, lo as int, hi as int) {
            Some(t) => r matches Some(x) && x@ == t,
            None => r is None,
        },
{
    if hi <= lo || tok_is_punct(&ts[lo], '<') {
        return None;
    }
    let mut start = lo;
    if is_path_sep(ts, lo, hi) {
        start = lo + 2;
    }
    if start >= hi || tok_is_ident(&ts[start], "Self") {
        return None;
    }
    // Find the start of each segment: separators outside angle brackets.
    let mut opens: usize = 0;
    let mut closes: usize = 0;
    let mut segments: usize = 1;
    let mut last = start;
    let mut j = start;
    while j < hi
        invariant
            start <= j <= hi <= ts.len(),
            start <= last < hi,
            opens + closes <= j,
            1 <= segments <= 2,
            path_scan(ts@, start as int, hi as int, 0, 1, start as int) == path_scan(
                ts@,
                j as int,
                hi as int,
                opens - closes,
                segments as int,
                last as int,
            ),
        decreases hi - j,
    {
        if opens == closes && is_path_sep(ts, j, hi) {
            if hi - j > 2 {
                segments = if segments < 2 {
                    segments + 1
                } else {
                    2
                };
                last = j + 2;
            }
            j += 2;
        } else {
            if tok_is_punct(&ts[j], '<') {
                opens += 1;
            } else if tok_is_punct(&ts[j], '>') && !(j > 0 && tok_is_joint_punct(&ts[j - 1], '-')) {
                closes += 1;
            }
            j += 1;
        }
    }
    if segments < 2 {
        return None;
    }
    match &ts[last] {
        Tok::Ident { text, .. } => Some(text.clone()),
        _ => None,
    }
}

} // verus!

verus! {

pub open spec fn nested_help() -> Seq<char> {
    "`Self::Name` may only be used by value, as `&Self::Name`, `&mut Self::Name`, `Pin<&Self::Name>` or `Pin<&mut Self::Name>`, or nested by value inside `Option`, `Result`, tuples and arrays: other uses cannot be bridged across the extern symbol"@
}

fn tok_is_group_exec(t: &Tok, d: Delim) -> (r: bool)
    ensures
        r == crate::tokens::is_group(*t, d),
{
    crate::tokens::tok_is_group(t, d)
}

/// The ranges of `ts[s..hi]` between top-level commas, and whether the list ends with one.
pub open spec fn commas_from(ts: Seq<Tok>, s: int, hi: int) -> (Seq<(int, int)>, bool)
    decreases hi - s,
{
    if s >= hi {
        (Seq::empty(), false)
    } else {
        let e = first_top_sep(ts, s, hi, ',', ',');
        if !(s <= e <= hi) || e == hi {
            (seq![(s, e)], false)
        } else if e + 1 == hi {
            (seq![(s, e)], true)
        } else {
            let (rest, t) = commas_from(ts, e + 1, hi);
            (seq![(s, e)] + rest, t)
        }
    }
}

/// Splits `ts[lo..hi]` at its top-level commas. Returns the element ranges and whether the
/// list ends with a comma.
pub fn split_commas(ts: &Vec<Tok>, lo: usize, hi: usize) -> (r: (Vec<(usize, usize)>, bool))
    requires
        lo <= hi <= ts.len(),
    ensures
        crate::attrs::pairs_int(r.0@) == commas_from(ts@, lo as int, hi as int).0,
        r.1 == commas_from(ts@, lo as int, hi as int).1,
        forall|k: int|
            0 <= k < r.0@.len() ==> {
                let (s, e) = #[trigger] r.0@[k];
                lo <= s <= e <= hi
            },
        r.0@.len() == 1 && !r.1 ==> r.0@[0] == (lo, hi),
{
    let mut out: Vec<(usize, usize)> = Vec::new();
    let mut trailing = false;
    let mut s = lo;
    while s < hi
        invariant
            lo <= s <= hi <= ts.len(),
            out@.len() == 0 ==> s == lo && !trailing,
            out@.len() >= 1 ==> out@[0].0 == lo,
            out@.len() >= 1 ==> (out@[0].1 == hi || out@.len() >= 2 || trailing || s < hi),
            forall|k: int|
                0 <= k < out@.len() ==> {
                    let (a, b) = #[trigger] out@[k];
                    lo <= a <= b <= hi
                },
            s < hi ==> !trailing,
            commas_from(ts@, lo as int, hi as int).0 == crate::attrs::pairs_int(out@) + commas_from(
                ts@,
                s as int,
                hi as int,
            ).0,
            commas_from(ts@, lo as int, hi as int).1 == if s < hi {
                commas_from(ts@, s as int, hi as int).1
            } else {
                trailing
            },
        decreases hi - s,
    {
        let e = find_top(ts, s, hi, ',', ',');
        let ghost before = out@;
        let ghost s0 = s as int;
        out.push((s, e));
        if e < hi {
            s = e + 1;
            if s == hi {
                trailing = true;
            }
        } else {
            s = hi;
        }
        proof {
            assert(crate::attrs::pairs_int(out@) =~= crate::attrs::pairs_int(before) + seq![(s0, e as int)]);
            if s < hi {
                let rest = commas_from(ts@, s as int, hi as int).0;
                assert(crate::attrs::pairs_int(before) + (seq![(s0, e as int)] + rest) =~= crate::attrs::pairs_int(out@) + rest);
            } else {
                assert(crate::attrs::pairs_int(before) + seq![(s0, e as int)] =~= crate::attrs::pairs_int(out@) + Seq::<(int, int)>::empty());
            }
        }
    }
    proof {
        assert(crate::attrs::pairs_int(out@) + Seq::<(int, int)>::empty() =~= crate::attrs::pairs_int(out@));
    }
    (out, trailing)
}

/// The first opaque associated type from `i` on named `name`.
pub open spec fn lookup_from(u: UnitraitInput, name: Seq<char>, i: int) -> Option<usize>
    decreases u.opaques@.len() - i,
{
    if i < 0 || i >= u.opaques@.len() {
        None
    } else if name_of(u.opaques@[i].assoc) == name {
        Some(i as usize)
    } else {
        lookup_from(u, name, i + 1)
    }
}

/// The index of the opaque associated type named like `t`, or the error naming it.
pub open spec fn lookup_spec(u: UnitraitInput, t: Tok) -> Result<usize, (u64, Seq<char>)> {
    match lookup_from(u, name_of(t), 0) {
        Some(i) => Ok(i),
        None => Err(
            (
                span_of(t),
                "the trait has no opaque associated type named `"@ + name_of(t) + "`"@,
            ),
        ),
    }
}

/// The mathematical value of a [`Shape`].
pub enum ShapeV {
    Plain(Seq<TokV>),
    Opaque(usize, Mode, u64),
    Option(u64, Box<ShapeV>),
    Result(u64, Box<ShapeV>, Box<ShapeV>),
    Tuple(u64, Seq<ShapeV>),
    Array(u64, Box<ShapeV>, Seq<TokV>),
}

/// The value of a shape.
pub open spec fn shape_v(s: Shape) -> ShapeV
    decreases s,
{
    match s {
        Shape::Plain(v) => ShapeV::Plain(toks_view(v@)),
        Shape::Opaque { index, mode, span } => ShapeV::Opaque(index, mode, span),
        Shape::Option(sp, inner) => ShapeV::Option(sp, Box::new(shape_v(*inner))),
        Shape::Result(sp, ok, err) => ShapeV::Result(sp, Box::new(shape_v(*ok)), Box::new(shape_v(*err))),
        Shape::Tuple(sp, elems) => {
            proof {
                assert(decreases_to!(elems => elems@)) by {
                    broadcast use vstd::std_specs::vec::axiom_vec_decreases_to_view;
                }
            }
            ShapeV::Tuple(sp, shapes_v(elems@))
        },
        Shape::Array(sp, elem, len) => ShapeV::Array(sp, Box::new(shape_v(*elem)), toks_view(len@)),
    }
}

pub open spec fn shapes_v(s: Seq<Shape>) -> Seq<ShapeV>
    decreases s,
{
    if s.len() == 0 {
        Seq::empty()
    } else {
        shapes_v(s.drop_last()).push(shape_v(s.last()))
    }
}

pub open spec fn lifetime_help() -> Seq<char> {
    "explicit lifetimes on references to opaque associated types are not supported"@
}

pub open spec fn borrowed_composite_help() -> Seq<char> {
    "only `Self::Name` itself may be borrowed: references to `Option`s, `Result`s, tuples, arrays or slices containing opaque associated types are not supported; pass them by value instead"@
}

pub open spec fn pin_help() -> Seq<char> {
    "`Pin` may only be used with an opaque associated type as `Pin<&Self::Name>` or `Pin<&mut Self::Name>`"@
}

pub open spec fn option_help() -> Seq<char> {
    "`Option` takes exactly one type argument: around an opaque associated type it always means `core::option::Option`"@
}

pub open spec fn result_help() -> Seq<char> {
    "`Result` must be written with both of its type arguments: around an opaque associated type it always means `core::result::Result`"@
}

/// The module of `core` that a bare `Option`, `Result` or `Pin` names.
pub open spec fn core_module(last: Seq<char>) -> Option<Seq<char>> {
    if last == "Option"@ {
        Some("option"@)
    } else if last == "Result"@ {
        Some("result"@)
    } else if last == "Pin"@ {
        Some("pin"@)
    } else {
        None
    }
}

/// Every shape of the list is plain.
pub open spec fn all_plain(v: Seq<ShapeV>) -> bool {
    forall|i: int| 0 <= i < v.len() ==> (#[trigger] v[i]) is Plain
}

/// An opaque associated type named like `t`, used as `mode`.
pub open spec fn leaf_spec(u: UnitraitInput, t: Tok, mode: Mode, span: u64) -> Result<ShapeV, (u64, Seq<char>)> {
    match lookup_spec(u, t) {
        Ok(i) => Ok(ShapeV::Opaque(i, mode, span)),
        Err(e) => Err(e),
    }
}

/// How the type `ts[lo..hi]` is used, as far as opaque associated types are concerned; or
/// why it can't be bridged.
pub open spec fn classify_spec(u: UnitraitInput, ts: Seq<Tok>, lo: int, hi: int) -> Result<ShapeV, (u64, Seq<char>)>
    decreases ts, hi - lo, 0int,
{
    if !(0 <= lo <= hi <= ts.len()) {
        Ok(ShapeV::Plain(Seq::empty()))
    } else {
        match first_self(ts.subrange(lo, hi)) {
            None => Ok(ShapeV::Plain(toks_view(ts.subrange(lo, hi)))),
            Some(self_span) => if lo == hi {
                Ok(ShapeV::Plain(Seq::empty()))
            } else {
                let ty_span = span_of(ts[lo]);
                if is_self_assoc(ts, lo, hi) {
                    leaf_spec(u, ts[lo + 3], Mode::Value, ty_span)
                } else if hi - lo == 1 && ts[lo] is Group && !crate::tokens::is_group(ts[lo], Delim::Brace) {
                    match ts[lo] {
                        Tok::Group { delim, body, .. } => {
                            proof {
                                assert(decreases_to!(body => body@)) by {
                                    broadcast use vstd::std_specs::vec::axiom_vec_decreases_to_view;
                                }
                            }
                            let b = body@;
                            let n = b.len() as int;
                            if delim == Delim::Paren {
                                let (elems, trailing) = commas_from(b, 0, n);
                                if elems.len() == 1 && !trailing {
                                    classify_spec(u, b, 0, n)
                                } else {
                                    match classify_elems(u, b, elems, 0) {
                                        Ok(v) => if all_plain(v) {
                                            Err((self_span, nested_help()))
                                        } else {
                                            Ok(ShapeV::Tuple(ty_span, v))
                                        },
                                        Err(e) => Err(e),
                                    }
                                }
                            } else if delim == Delim::Bracket {
                                let e = first_top_sep(b, 0, n, ';', ';');
                                if e == n {
                                    Err((self_span, nested_help()))
                                } else if !(0 <= e < n) {
                                    Ok(ShapeV::Plain(Seq::empty()))
                                } else {
                                    match classify_spec(u, b, 0, e) {
                                        Ok(el) => if el is Plain {
                                            Err((self_span, nested_help()))
                                        } else {
                                            Ok(
                                                ShapeV::Array(
                                                    ty_span,
                                                    Box::new(el),
                                                    toks_view(b.subrange(e + 1, n)),
                                                ),
                                            )
                                        },
                                        Err(x) => Err(x),
                                    }
                                }
                            } else {
                                classify_spec(u, b, 0, n)
                            }
                        },
                        _ => Ok(ShapeV::Plain(Seq::empty())),
                    }
                } else if is_punct(ts[lo], '&') {
                    let i0 = lo + 1;
                    let lt = i0 < hi && hi - i0 >= 2 && is_punct(ts[i0], '\'') && ts[i0 + 1] is Ident;
                    let i1 = if lt {
                        i0 + 2
                    } else {
                        i0
                    };
                    let mutable = i1 < hi && is_ident(ts[i1], "mut"@);
                    let i2 = if mutable {
                        i1 + 1
                    } else {
                        i1
                    };
                    if is_self_assoc(ts, i2, hi) {
                        if lt {
                            Err((span_of(ts[i0]), lifetime_help()))
                        } else {
                            leaf_spec(
                                u,
                                ts[i2 + 3],
                                if mutable {
                                    Mode::RefMut
                                } else {
                                    Mode::Ref
                                },
                                ty_span,
                            )
                        }
                    } else if (hi - i2 == 1 && (crate::tokens::is_group(ts[i2], Delim::Paren)
                        || crate::tokens::is_group(ts[i2], Delim::Bracket))) || bare_generic(
                        ts,
                        i2,
                        hi,
                        "Option"@,
                    ) is Some || bare_generic(ts, i2, hi, "Result"@) is Some {
                        Err((ty_span, borrowed_composite_help()))
                    } else {
                        Err((self_span, nested_help()))
                    }
                } else if bare_generic(ts, lo, hi, "Pin"@) is Some {
                    let args = bare_generic(ts, lo, hi, "Pin"@)->0;
                    if args.len() != 1 {
                        Err((ty_span, pin_help()))
                    } else {
                        let (s, e) = args[0];
                        if !is_punct(ts[s], '&') {
                            Err((span_of(ts[s]), pin_help()))
                        } else {
                            let i = s + 1;
                            if i < e && e - i >= 2 && is_punct(ts[i], '\'') && ts[i + 1] is Ident {
                                Err((span_of(ts[i]), lifetime_help()))
                            } else {
                                let mutable = i < e && is_ident(ts[i], "mut"@);
                                let i2 = if mutable {
                                    i + 1
                                } else {
                                    i
                                };
                                if is_self_assoc(ts, i2, e) {
                                    leaf_spec(
                                        u,
                                        ts[i2 + 3],
                                        if mutable {
                                            Mode::PinRefMut
                                        } else {
                                            Mode::PinRef
                                        },
                                        ty_span,
                                    )
                                } else {
                                    Err((crate::tokens::span_at(ts, i2, e, span_of(ts[s])), pin_help()))
                                }
                            }
                        }
                    }
                } else if bare_generic(ts, lo, hi, "Option"@) is Some {
                    let args = bare_generic(ts, lo, hi, "Option"@)->0;
                    if args.len() != 1 {
                        Err((ty_span, option_help()))
                    } else {
                        let (s, e) = args[0];
                        if !(lo < s <= e < hi) {
                            Ok(ShapeV::Plain(Seq::empty()))
                        } else {
                            match classify_spec(u, ts, s, e) {
                                Ok(inner) => if inner is Plain {
                                    Err((self_span, nested_help()))
                                } else {
                                    Ok(ShapeV::Option(ty_span, Box::new(inner)))
                                },
                                Err(x) => Err(x),
                            }
                        }
                    }
                } else if bare_generic(ts, lo, hi, "Result"@) is Some {
                    let args = bare_generic(ts, lo, hi, "Result"@)->0;
                    if args.len() != 2 {
                        Err((ty_span, result_help()))
                    } else {
                        let (s1, e1) = args[0];
                        let (s2, e2) = args[1];
                        if !(lo < s1 <= e1 < hi && lo < s2 <= e2 < hi) {
                            Ok(ShapeV::Plain(Seq::empty()))
                        } else {
                            match classify_spec(u, ts, s1, e1) {
                                Err(x) => Err(x),
                                Ok(ok) => match classify_spec(u, ts, s2, e2) {
                                    Err(x) => Err(x),
                                    Ok(err) => if ok is Plain && err is Plain {
                                        Err((self_span, nested_help()))
                                    } else {
                                        Ok(ShapeV::Result(ty_span, Box::new(ok), Box::new(err)))
                                    },
                                },
                            }
                        }
                    }
                } else {
                    match qualified_last(ts, lo, hi) {
                        Some(last) => match core_module(last) {
                            Some(module) => Err(
                                (
                                    ty_span,
                                    "write `"@ + last
                                        + "` by its bare name: around an opaque associated type it always means `core::"@
                                        + module + "::"@ + last + "`"@,
                                ),
                            ),
                            None => Err((self_span, nested_help())),
                        },
                        None => Err((self_span, nested_help())),
                    }
                }
            },
        }
    }
}

/// The shapes of the elements `elems[i..]` of a tuple `b`, or the first error.
pub open spec fn classify_elems(u: UnitraitInput, b: Seq<Tok>, elems: Seq<(int, int)>, i: int) -> Result<Seq<ShapeV>, (u64, Seq<char>)>
    decreases b, b.len() + 1, elems.len() - i,
{
    if i < 0 || i >= elems.len() {
        Ok(Seq::empty())
    } else {
        let (s, e) = elems[i];
        if !(0 <= s <= e <= b.len()) {
            Ok(Seq::empty())
        } else {
            match classify_spec(u, b, s, e) {
                Err(x) => Err(x),
                Ok(sh) => match classify_elems(u, b, elems, i + 1) {
                    Ok(rest) => Ok(seq![sh] + rest),
                    Err(x) => Err(x),
                },
            }
        }
    }
}

impl UnitraitInput {
    /// The index of the opaque associated type named like the identifier `assoc`.
    pub fn lookup(&self, assoc: &Tok) -> (r: Result<usize, Error>)
        ensures
            match lookup_spec(*self, *assoc) {
                Ok(i) => r == Ok::<usize, Error>(i),
                Err(e) => r matches Err(x) && x@ == e,
            },
            r matches Ok(i) ==> i < self.opaques@.len() && name_of(self.opaques@[i as int].assoc)
                == name_of(*assoc),
            r is Err <==> forall|i: int|
                0 <= i < self.opaques@.len() ==> name_of((#[trigger] self.opaques@[i]).assoc)
                    != name_of(*assoc),
    {
        let (text, span) = match assoc {
            Tok::Ident { text, span } => (text.clone(), *span),
            _ => (String::new(), crate::tokens::tok_span(assoc)),
        };
        let mut i: usize = 0;
        while i < self.opaques.len()
            invariant
                i <= self.opaques.len(),
                text@ == name_of(*assoc),
                forall|j: int| 0 <= j < i ==> name_of((#[trigger] self.opaques@[j]).assoc) != text@,
                lookup_from(*self, text@, 0) == lookup_from(*self, text@, i as int),
                span == span_of(*assoc),
            decreases self.opaques.len() - i,
        {
            let same = match &self.opaques[i].assoc {
                Tok::Ident { text: t, .. } => *t == text,
                _ => {
                    proof {
                        reveal_strlit("");
                        assert(""@ =~= Seq::<char>::empty());
                    }
                    text_eq(&text, "")
                },
            };
            if same {
                proof {
                    assert(name_of(self.opaques@[i as int].assoc) == name_of(*assoc));
                }
                return Ok(i);
            }
            i += 1;
        }
        let mut m = String::from_str("the trait has no opaque associated type named `");
        m.append(text.as_str());
        m.append("`");
        Err(Error { span, message: m })
    }

    fn leaf(&self, ts: &Vec<Tok>, k: usize, mode: Mode, span: u64) -> (r: Result<Shape, Error>)
        requires
            k < ts.len(),
        ensures
            r matches Ok(s) ==> shape_valid(s, self.opaques@.len()) && !(s is Plain),
            match leaf_spec(*self, ts@[k as int], mode, span) {
                Ok(v) => r matches Ok(s) && shape_v(s) == v,
                Err(e) => r matches Err(x) && x@ == e,
            },
    {
        let index = self.lookup(&ts[k])?;
        Ok(Shape::Opaque { index, mode, span })
    }

    /// Classifies the type `ts[lo..hi]`, a parameter or the return type of a method.
    #[verifier::rlimit(100)]
    pub fn classify(&self, ts: &Vec<Tok>, lo: usize, hi: usize) -> (r: Result<Shape, Error>)
        requires
            lo <= hi <= ts.len(),
        ensures
            r matches Ok(s) ==> shape_valid(s, self.opaques@.len()),
            r matches Ok(s) ==> (s is Plain <==> first_self(ts@.subrange(lo as int, hi as int)) is None),
            r matches Ok(Shape::Plain(v)) ==> toks_view(v@) == toks_view(ts@.subrange(lo as int, hi as int)),
            match classify_spec(*self, ts@, lo as int, hi as int) {
                Ok(v) => r matches Ok(s) && shape_v(s) == v,
                Err(e) => r matches Err(x) && x@ == e,
            },
            r matches Ok(s) ==> (s is Plain || has_opaque(s)) && built_around_opaque(s),
        decreases ts, hi - lo,
    {
        // Whatever it's spelled like, a type without `Self` is passed through verbatim, so
        // `Option`, `Result` and `Pin` mean whatever they mean in scope there.
        let self_span = match find_self(ts, lo, hi) {
            None => {
                return Ok(Shape::Plain(copy_toks(ts, lo, hi)));
            },
            Some(s) => s,
        };
        proof {
            if lo == hi {
                assert(ts@.subrange(lo as int, hi as int) =~= Seq::<Tok>::empty());
            }
        }
        assert(lo < hi);
        let ty_span = tok_span(&ts[lo]);
        if let Some(k) = as_self_assoc(ts, lo, hi) {
            return self.leaf(ts, k, Mode::Value, ty_span);
        }
        if hi - lo == 1 {
            if let Tok::Group { delim, body, .. } = &ts[lo] {
                proof {
                    assert(decreases_to!(ts => ts@[lo as int])) by {
                        broadcast use vstd::std_specs::vec::axiom_vec_index_decreases;
                    }
                    assert(ts@.subrange(lo as int, hi as int) =~= seq![ts@[lo as int]]);
                    assert(seq![ts@[lo as int]].drop_last() =~= Seq::<Tok>::empty());
                    let single = seq![ts@[lo as int]];
                    assert(single.drop_last() =~= Seq::<Tok>::empty());
                    assert(first_self(single.drop_last()) is None);
                    assert(single.last() == ts@[lo as int]);
                    assert(first_self(single) == first_self_tok(ts@[lo as int]));
                    assert(first_self_tok(ts@[lo as int]) == first_self(body@));
                    assert(first_self(body@) is Some);
                    assert(decreases_to!(ts => body));
                    assert(body@.subrange(0, body@.len() as int) =~= body@);
                }
                let n = body.len();
                match delim {
                    Delim::Invisible => {
                        return self.classify(body, 0, n);
                    },
                    Delim::Paren => {
                        let (elems, trailing) = split_commas(body, 0, n);
                        if elems.len() == 1 && !trailing {
                            // A parenthesized type is seen through.
                            return self.classify(body, 0, n);
                        }
                        let mut shapes: Vec<Shape> = Vec::new();
                        let mut i: usize = 0;
                        let mut any = false;
                        let ghost es = crate::attrs::pairs_int(elems@);
                        proof {
                            if let Ok(v) = classify_elems(*self, body@, es, 0) {
                                assert(shapes_v(shapes@) + v =~= v);
                            }
                            assert(classify_spec(*self, ts@, lo as int, hi as int) == match classify_elems(
                                *self,
                                body@,
                                es,
                                0,
                            ) {
                                Ok(v) => if all_plain(v) {
                                    Err((self_span, nested_help()))
                                } else {
                                    Ok(ShapeV::Tuple(ty_span, v))
                                },
                                Err(e) => Err(e),
                            });
                        }
                        while i < elems.len()
                            invariant
                                i <= elems.len(),
                                n == body.len(),
                                forall|k: int|
                                    0 <= k < elems@.len() ==> {
                                        let (s, e) = #[trigger] elems@[k];
                                        0 <= s <= e <= n
                                    },
                                shapes_valid(shapes@, self.opaques@.len()),
                                decreases_to!(ts => body),
                                es == crate::attrs::pairs_int(elems@),
                                classify_spec(*self, ts@, lo as int, hi as int) == match classify_elems(
                                    *self,
                                    body@,
                                    es,
                                    0,
                                ) {
                                    Ok(v) => if all_plain(v) {
                                        Err((self_span, nested_help()))
                                    } else {
                                        Ok(ShapeV::Tuple(ty_span, v))
                                    },
                                    Err(e) => Err(e),
                                },
                                classify_elems(*self, body@, es, 0) == match classify_elems(
                                    *self,
                                    body@,
                                    es,
                                    i as int,
                                ) {
                                    Ok(rest) => Ok(shapes_v(shapes@) + rest),
                                    Err(x) => Err(x),
                                },
                                any == !all_plain(shapes_v(shapes@)),
                                any ==> any_opaque(shapes@),
                                all_built_around_opaque(shapes@),
                                shapes_v(shapes@).len() == shapes@.len(),
                            decreases elems.len() - i,
                        {
                            let (s, e) = elems[i];
                            proof {
                                assert(es[i as int] == (s as int, e as int));
                            }
                            let sh = self.classify(body, s, e)?;
                            let plain = matches!(sh, Shape::Plain(_));
                            let ghost before = shapes@;
                            let ghost any_before = any;
                            shapes.push(sh);
                            any = any || !plain;
                            proof {
                                assert(shapes@.drop_last() =~= before);
                                assert(shapes@.last() == sh);
                                assert(shapes_v(shapes@) == shapes_v(before).push(shape_v(sh)));
                                let vb = shapes_v(before);
                                let va = shapes_v(shapes@);
                                assert(all_plain(va) == (all_plain(vb) && plain)) by {
                                    if all_plain(va) {
                                        assert forall|k: int| 0 <= k < vb.len() implies (#[trigger] vb[k]) is Plain by {
                                            assert(va[k] == vb[k]);
                                        }
                                        assert(va[vb.len() as int] == shape_v(sh));
                                    }
                                    if all_plain(vb) && plain {
                                        assert forall|k: int| 0 <= k < va.len() implies (#[trigger] va[k]) is Plain by {
                                            if k < vb.len() {
                                                assert(va[k] == vb[k]);
                                            }
                                        }
                                    }
                                }
                                if let Ok(rest) = classify_elems(*self, body@, es, i + 1) {
                                    assert(shapes_v(before) + (seq![shape_v(sh)] + rest) =~= shapes_v(shapes@) + rest);
                                }
                            }
                            i += 1;
                        }
                        proof {
                            assert(shapes_v(shapes@) + Seq::<ShapeV>::empty() =~= shapes_v(shapes@));
                        }
                        if !any {
                            return Err(
                                Error::new(
                                    self_span,
                                    "`Self::Name` may only be used by value, as `&Self::Name`, `&mut Self::Name`, `Pin<&Self::Name>` or `Pin<&mut Self::Name>`, or nested by value inside `Option`, `Result`, tuples and arrays: other uses cannot be bridged across the extern symbol",
                                ),
                            );
                        }
                        return Ok(Shape::Tuple(ty_span, shapes));
                    },
                    Delim::Bracket => {
                        let e = find_top(body, 0, n, ';', ';');
                        if e == n {
                            return Err(
                                Error::new(
                                    self_span,
                                    "`Self::Name` may only be used by value, as `&Self::Name`, `&mut Self::Name`, `Pin<&Self::Name>` or `Pin<&mut Self::Name>`, or nested by value inside `Option`, `Result`, tuples and arrays: other uses cannot be bridged across the extern symbol",
                                ),
                            );
                        }
                        let elem = self.classify(body, 0, e)?;
                        if matches!(elem, Shape::Plain(_)) {
                            // Only the length names `Self`: no opaque type to bridge.
                            return Err(
                                Error::new(
                                    self_span,
                                    "`Self::Name` may only be used by value, as `&Self::Name`, `&mut Self::Name`, `Pin<&Self::Name>` or `Pin<&mut Self::Name>`, or nested by value inside `Option`, `Result`, tuples and arrays: other uses cannot be bridged across the extern symbol",
                                ),
                            );
                        }
                        let len = copy_toks(body, e + 1, n);
                        return Ok(Shape::Array(ty_span, Box::new(elem), len));
                    },
                    Delim::Brace => {},
                }
            }
        }
        if tok_is_punct(&ts[lo], '&') {
            // A reference: `&`, an optional lifetime, an optional `mut`, the referent.
            let mut i = lo + 1;
            let mut lifetime: Option<u64> = None;
            if i < hi && hi - i >= 2 && tok_is_punct(&ts[i], '\'') && matches!(ts[i + 1], Tok::Ident { .. }) {
                lifetime = Some(tok_span(&ts[i]));
                i = i + 2;
            }
            let mut mutable = false;
            if i < hi && tok_is_ident(&ts[i], "mut") {
                mutable = true;
                i = i + 1;
            }
            let k = match as_self_assoc(ts, i, hi) {
                Some(k) => k,
                None => {
                    // A composite that could be passed by value gets the pointed advice;
                    // anything else the general one.
                    let composite = (hi - i == 1 && (tok_is_group_exec(&ts[i], Delim::Paren)
                        || tok_is_group_exec(&ts[i], Delim::Bracket))) || as_bare_generic(
                        ts,
                        i,
                        hi,
                        "Option",
                    ).is_some() || as_bare_generic(ts, i, hi, "Result").is_some();
                    if composite {
                        return Err(
                            Error::new(
                                ty_span,
                                "only `Self::Name` itself may be borrowed: references to `Option`s, `Result`s, tuples, arrays or slices containing opaque associated types are not supported; pass them by value instead",
                            ),
                        );
                    }
                    return Err(
                        Error::new(
                            self_span,
                            "`Self::Name` may only be used by value, as `&Self::Name`, `&mut Self::Name`, `Pin<&Self::Name>` or `Pin<&mut Self::Name>`, or nested by value inside `Option`, `Result`, tuples and arrays: other uses cannot be bridged across the extern symbol",
                        ),
                    );
                },
            };
            if let Some(lt) = lifetime {
                return Err(
                    Error::new(
                        lt,
                        "explicit lifetimes on references to opaque associated types are not supported",
                    ),
                );
            }
            let mode = if mutable {
                Mode::RefMut
            } else {
                Mode::Ref
            };
            return self.leaf(ts, k, mode, ty_span);
        }
        if let Some(args) = as_bare_generic(ts, lo, hi, "Pin") {
            if args.len() != 1 {
                return Err(Error::new(ty_span, "`Pin` may only be used with an opaque associated type as `Pin<&Self::Name>` or `Pin<&mut Self::Name>`"));
            }
            let (s, e) = args[0];
            if !tok_is_punct(&ts[s], '&') {
                return Err(Error::new(tok_span(&ts[s]), "`Pin` may only be used with an opaque associated type as `Pin<&Self::Name>` or `Pin<&mut Self::Name>`"));
            }
            let mut i = s + 1;
            if i < e && e - i >= 2 && tok_is_punct(&ts[i], '\'') && matches!(ts[i + 1], Tok::Ident { .. }) {
                return Err(
                    Error::new(
                        tok_span(&ts[i]),
                        "explicit lifetimes on references to opaque associated types are not supported",
                    ),
                );
            }
            let mut mutable = false;
            if i < e && tok_is_ident(&ts[i], "mut") {
                mutable = true;
                i = i + 1;
            }
            let k = match as_self_assoc(ts, i, e) {
                Some(k) => k,
                None => {
                    let span = crate::tokens::span_at_exec(ts, i, e, tok_span(&ts[s]));
                    return Err(Error::new(span, "`Pin` may only be used with an opaque associated type as `Pin<&Self::Name>` or `Pin<&mut Self::Name>`"));
                },
            };
            let mode = if mutable {
                Mode::PinRefMut
            } else {
                Mode::PinRef
            };
            return self.leaf(ts, k, mode, ty_span);
        }
        if let Some(args) = as_bare_generic(ts, lo, hi, "Option") {
            if args.len() != 1 {
                return Err(
                    Error::new(
                        ty_span,
                        "`Option` takes exactly one type argument: around an opaque associated type it always means `core::option::Option`",
                    ),
                );
            }
            let (s, e) = args[0];
            let inner = self.classify(ts, s, e)?;
            if matches!(inner, Shape::Plain(_)) {
                return Err(
                    Error::new(
                        self_span,
                        "`Self::Name` may only be used by value, as `&Self::Name`, `&mut Self::Name`, `Pin<&Self::Name>` or `Pin<&mut Self::Name>`, or nested by value inside `Option`, `Result`, tuples and arrays: other uses cannot be bridged across the extern symbol",
                    ),
                );
            }
            return Ok(Shape::Option(ty_span, Box::new(inner)));
        }
        if let Some(args) = as_bare_generic(ts, lo, hi, "Result") {
            if args.len() != 2 {
                return Err(
                    Error::new(
                        ty_span,
                        "`Result` must be written with both of its type arguments: around an opaque associated type it always means `core::result::Result`",
                    ),
                );
            }
            let (s, e) = args[0];
            let ok = self.classify(ts, s, e)?;
            let (s, e) = args[1];
            let err = self.classify(ts, s, e)?;
            if matches!(ok, Shape::Plain(_)) && matches!(err, Shape::Plain(_)) {
                return Err(
                    Error::new(
                        self_span,
                        "`Self::Name` may only be used by value, as `&Self::Name`, `&mut Self::Name`, `Pin<&Self::Name>` or `Pin<&mut Self::Name>`, or nested by value inside `Option`, `Result`, tuples and arrays: other uses cannot be bridged across the extern symbol",
                    ),
                );
            }
            return Ok(Shape::Result(ty_span, Box::new(ok), Box::new(err)));
        }
        if let Some(last) = as_qualified_path(ts, lo, hi) {
            let module = if text_eq(&last, "Option") {
                Some("option")
            } else if text_eq(&last, "Result") {
                Some("result")
            } else if text_eq(&last, "Pin") {
                Some("pin")
            } else {
                None
            };
            if let Some(module) = module {
                let mut m = String::from_str("write `");
                m.append(last.as_str());
                m.append("` by its bare name: around an opaque associated type it always means `core::");
                m.append(module);
                m.append("::");
                m.append(last.as_str());
                m.append("`");
                return Err(Error { span: ty_span, message: m });
            }
        }
        Err(
            Error::new(
                self_span,
                "`Self::Name` may only be used by value, as `&Self::Name`, `&mut Self::Name`, `Pin<&Self::Name>` or `Pin<&mut Self::Name>`, or nested by value inside `Option`, `Result`, tuples and arrays: other uses cannot be bridged across the extern symbol",
            ),
        )
    }
}

} // verus!

verus! {

/// Every shape of a valid list is valid.
pub proof fn lemma_shapes_valid(s: Seq<Shape>, n: nat)
    requires
        shapes_valid(s, n),
    ensures
        forall|i: int| 0 <= i < s.len() ==> shape_valid(#[trigger] s[i], n),
    decreases s.len(),
{
    if s.len() > 0 {
        lemma_shapes_valid(s.drop_last(), n);
        assert forall|i: int| 0 <= i < s.len() implies shape_valid(#[trigger] s[i], n) by {
            if i < s.len() - 1 {
                assert(s.drop_last()[i] == s[i]);
            }
        }
    }
}

} // verus!

verus! {

/// No shape of a borrow-free list borrows.
pub proof fn lemma_none_borrow(s: Seq<Shape>)
    requires
        none_borrow(s),
    ensures
        forall|i: int| 0 <= i < s.len() ==> no_borrow(#[trigger] s[i]),
    decreases s.len(),
{
    if s.len() > 0 {
        lemma_none_borrow(s.drop_last());
        assert forall|i: int| 0 <= i < s.len() implies no_borrow(#[trigger] s[i]) by {
            if i < s.len() - 1 {
                assert(s.drop_last()[i] == s[i]);
            }
        }
    }
}

} // verus!
