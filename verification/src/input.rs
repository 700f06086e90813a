//! The macro's input: a trait, its dispatch type and its implementation macro.
use vstd::prelude::*;

use crate::attrs::{
    Attr, OpaqueLayout, SplitAttrs, Sym, attrs_at, attrs_toks, doc_attrs, layouts_wf, only_docs,
    parse_outer_attrs, split_attrs, split_trait_attrs, sym_from,
};
use crate::bounds::{Bounds, ident_text, parse_bounds};
use crate::marker::Marker;
use crate::out::Error;
use crate::syntax::{is_rust_ident, is_rust_type, parses_as_ident};
use crate::tokens::{
    Delim, Tok, copy_tok, copy_toks, find_top, is_ident, is_punct, span_at, span_at_exec, span_of,
    text_eq, tok_is_ident, tok_is_joint_punct, tok_is_punct, tok_span, tok_view, toks_view, unraw,
    unraw_str,
};

verus! {

/// An opaque associated type declaration.
pub struct OpaqueDecl {
    /// The attributes written on the declaration.
    pub attrs: Ghost<Seq<Attr>>,
    pub docs: Vec<Attr>,
    pub vis: Vec<Tok>,
    /// The associated type's name, e.g. `Context`.
    pub assoc: Tok,
    /// The generated opaque struct's name: dispatch type name + associated type name.
    pub opaque: String,
    /// The `#[opaque(size = N, align = M)]` attributes, in source order. Non-empty; at most
    /// the last one is unconditional.
    pub layouts: Vec<OpaqueLayout>,
    /// The marker traits declared as bounds. `Drop` is not one of them: it is recorded by
    /// `drop_symbol` instead.
    pub bounds: Vec<Marker>,
    /// The symbol of the function dropping the value in place: present exactly when the
    /// declaration has a `Drop` bound.
    pub drop_symbol: Option<Sym>,
    /// The symbol of the function cloning the value: present exactly when the declaration
    /// has a `Clone` bound.
    pub clone_symbol: Option<Sym>,
}

/// One parameter of a method: its name and its type, as written.
#[derive(Debug)]
pub struct Arg {
    pub name: Tok,
    pub ty: Vec<Tok>,
}

/// A method of the trait.
pub struct Method {
    /// The attributes written on the method.
    pub attrs: Ghost<Seq<Attr>>,
    pub docs: Vec<Attr>,
    /// The `unsafe` keyword, if written.
    pub unsafety: Option<Tok>,
    pub name: Tok,
    pub symbol: Sym,
    pub args: Vec<Arg>,
    pub ret: Option<Vec<Tok>>,
}

/// The whole input of the macro.
pub struct UnitraitInput {
    /// The attributes written on the trait.
    pub trait_attrs: Ghost<Seq<Attr>>,
    pub trait_docs: Vec<Attr>,
    /// The trait's `#[symbol_prefix = "..."]`, from which symbols are derived.
    pub symbol_prefix: Option<Sym>,
    pub vis: Vec<Tok>,
    pub name: Tok,
    pub opaques: Vec<OpaqueDecl>,
    pub methods: Vec<Method>,
    /// Attributes written on the `struct` line, applied verbatim to the dispatch type.
    pub dispatch_attrs: Vec<Attr>,
    /// The dispatch type's visibility, which its inherent methods share.
    pub dispatch_vis: Vec<Tok>,
    /// The dispatch type's name.
    pub dispatch: Tok,
    pub mac_docs: Vec<Attr>,
    pub mac_name: Tok,
    pub path: Vec<Tok>,
}

/// The text of an identifier token.
pub open spec fn name_of(t: Tok) -> Seq<char> {
    ident_text(t)
}

/// An opaque declaration is well formed: it has a layout, at most its last layout is
/// unconditional, its bounds hold no marker twice, `Copy` excludes `Drop` and `Clone`, and
/// it has a clone symbol exactly when it has a `Clone` bound.
pub open spec fn opaque_wf(o: OpaqueDecl) -> bool {
    &&& o.layouts@.len() > 0
    &&& layouts_wf(o.layouts@)
    &&& forall|k: int| 0 <= k < o.layouts@.len() ==> crate::attrs::layout_ok(#[trigger] o.layouts@[k])
    &&& o.assoc is Ident
    &&& (o.clone_symbol is Some <==> o.bounds@.contains(Marker::Clone))
    &&& (o.drop_symbol is Some ==> !o.bounds@.contains(Marker::Copy))
    &&& (o.clone_symbol is Some ==> !o.bounds@.contains(Marker::Copy))
    &&& forall|i: int, j: int|
        0 <= i < j < o.bounds@.len() ==> o.bounds@[i] != o.bounds@[j]
}

/// A method is well formed: its name and its parameters' names are identifiers, and every
/// parameter and the return type are Rust types.
pub open spec fn method_wf(m: Method) -> bool {
    &&& m.name is Ident
    &&& forall|k: int|
        0 <= k < m.args@.len() ==> (#[trigger] m.args@[k]).name is Ident && is_rust_type(
            crate::syntax::toks_text(m.args@[k].ty@),
        )
    &&& m.ret matches Some(t) ==> is_rust_type(crate::syntax::toks_text(t@))
}

/// What every parsed input satisfies.
pub open spec fn input_wf(u: UnitraitInput) -> bool {
    &&& u.name is Ident
    &&& u.dispatch is Ident
    &&& u.mac_name is Ident
    &&& name_of(u.dispatch) != name_of(u.name)
    &&& u.path@.len() > 0
    &&& forall|i: int| 0 <= i < u.opaques@.len() ==> opaque_wf(#[trigger] u.opaques@[i])
    &&& forall|i: int|
        0 <= i < u.opaques@.len() ==> (#[trigger] u.opaques@[i]).opaque@ == unraw(
            name_of(u.dispatch),
        ) + unraw(name_of(u.opaques@[i].assoc))
    &&& forall|i: int, j: int|
        0 <= i < j < u.opaques@.len() ==> name_of((#[trigger] u.opaques@[i]).assoc) != name_of(
            (#[trigger] u.opaques@[j]).assoc,
        )
    &&& forall|i: int| 0 <= i < u.methods@.len() ==> method_wf(#[trigger] u.methods@[i])
    &&& forall|k: int| 0 <= k < u.mac_docs@.len() ==> (#[trigger] u.mac_docs@[k]).path_is("doc"@)
    &&& symbols_wf(u)
}

/// Every symbol comes from its attribute when one is written, and is otherwise derived
/// from the trait's prefix; and each item's doc comments are those among its attributes.
pub open spec fn symbols_wf(u: UnitraitInput) -> bool {
    &&& attrs_toks(u.trait_docs@) == doc_attrs(u.trait_attrs@)
    &&& sym_from(u.trait_attrs@, "symbol_prefix"@, u.symbol_prefix)
    &&& forall|i: int| 0 <= i < u.opaques@.len() ==> opaque_symbols_wf(#[trigger] u.opaques@[i], u.symbol_prefix)
    &&& forall|i: int| 0 <= i < u.methods@.len() ==> method_symbols_wf(#[trigger] u.methods@[i], u.symbol_prefix)
}

pub open spec fn opaque_symbols_wf(o: OpaqueDecl, prefix: Option<Sym>) -> bool {
    &&& attrs_toks(o.docs@) == doc_attrs(o.attrs@)
    &&& assoc_sym_source(o.attrs@, "drop_symbol"@, prefix, name_of(o.assoc), "drop"@, o.drop_symbol)
    &&& assoc_sym_source(o.attrs@, "clone_symbol"@, prefix, name_of(o.assoc), "clone"@, o.clone_symbol)
}

pub open spec fn method_symbols_wf(m: Method, prefix: Option<Sym>) -> bool {
    &&& attrs_toks(m.docs@) == doc_attrs(m.attrs@)
    &&& method_sym_source(m.attrs@, prefix, name_of(m.name), m.symbol)
}

/// Where the token at `p` of `ts[..hi]` is, or `end` past the end.
fn here(ts: &Vec<Tok>, p: usize, hi: usize, end: u64) -> (r: u64)
    requires
        hi <= ts.len(),
    ensures
        r == span_at(ts@, p as int, hi as int, end),
{
    span_at_exec(ts, p, hi, end)
}

/// Requires the punctuation `c` at `p`.
fn expect_punct(ts: &Vec<Tok>, p: usize, hi: usize, end: u64, c: char, msg: &str) -> (r: Result<
    usize,
    Error,
>)
    requires
        hi <= ts.len(),
    ensures
        r matches Ok(q) ==> q == p + 1 && p < hi && is_punct(ts@[p as int], c),
        r is Ok <==> p < hi && is_punct(ts@[p as int], c),
        r matches Err(e) ==> e@ == crate::tokens::err_at(ts@, p as int, hi as int, end, msg@),
{
    if p < hi && tok_is_punct(&ts[p], c) {
        Ok(p + 1)
    } else {
        Err(crate::out::error_at(ts, p, hi, end, msg))
    }
}

/// Requires the keyword `kw` at `p`.
fn expect_keyword(ts: &Vec<Tok>, p: usize, hi: usize, end: u64, kw: &str, msg: &str) -> (r: Result<
    usize,
    Error,
>)
    requires
        hi <= ts.len(),
    ensures
        r matches Ok(q) ==> q == p + 1 && p < hi && is_ident(ts@[p as int], kw@),
        r is Ok <==> p < hi && is_ident(ts@[p as int], kw@),
        r matches Err(e) ==> e@ == crate::tokens::err_at(ts@, p as int, hi as int, end, msg@),
{
    if p < hi && tok_is_ident(&ts[p], kw) {
        Ok(p + 1)
    } else {
        Err(crate::out::error_at(ts, p, hi, end, msg))
    }
}

/// The identifier at `p` of `ts[..hi]`, if it is one and no keyword; else the error.
pub open spec fn ident_at(ts: Seq<Tok>, p: int, hi: int, end: u64) -> Option<(u64, Seq<char>)> {
    if 0 <= p < hi && ts[p] is Ident {
        if is_rust_ident(ident_text(ts[p])) {
            None
        } else {
            Some((span_of(ts[p]), "expected identifier, found keyword `"@ + ident_text(ts[p]) + "`"@))
        }
    } else {
        Some(crate::tokens::err_at(ts, p, hi, end, "expected identifier"@))
    }
}

/// Parses an identifier that is no keyword.
pub fn parse_ident(ts: &Vec<Tok>, p: usize, hi: usize, end: u64) -> (r: Result<Tok, Error>)
    requires
        hi <= ts.len(),
    ensures
        r matches Ok(t) ==> p < hi && tok_view(t) == tok_view(ts@[p as int]) && t is Ident
            && is_rust_ident(name_of(t)),
        match ident_at(ts@, p as int, hi as int, end) {
            None => r is Ok,
            Some(e) => r matches Err(x) && x@ == e,
        },
{
    if p < hi {
        if let Tok::Ident { text, span } = &ts[p] {
            if parses_as_ident(text.as_str()) {
                return Ok(Tok::Ident { text: text.clone(), span: *span });
            }
            let mut m = String::from_str("expected identifier, found keyword `");
            m.append(text.as_str());
            m.append("`");
            return Err(Error { span: *span, message: m });
        }
    }
    Err(crate::out::error_at(ts, p, hi, end, "expected identifier"))
}

/// `crate`, `self` or `super` alone: the body of a group restricting `pub` to that module.
pub open spec fn names_module(b: Seq<Tok>) -> bool {
    b.len() == 1 && (is_ident(b[0], "crate"@) || is_ident(b[0], "self"@) || is_ident(b[0], "super"@))
}

/// A segment of the module path of `pub(in path)`: an identifier that is no keyword, or
/// `super`, `self`, `Self` or `crate`.
pub open spec fn mod_segment(t: Tok) -> bool {
    &&& t is Ident
    &&& is_rust_ident(ident_text(t)) || ident_text(t) == "super"@ || ident_text(t) == "self"@
        || ident_text(t) == "Self"@ || ident_text(t) == "crate"@
}

/// `b[i..]` starts with `::`.
pub open spec fn path_sep_at(b: Seq<Tok>, i: int) -> bool {
    0 <= i && i + 1 < b.len() && crate::tokens::is_joint_punct(b[i], ':') && is_punct(b[i + 1], ':')
}

/// The module path from `b[i..]` on, `after_sep` when a `::` was just read: where it ends,
/// or the error. `gspan` is reported when the group ends too early.
pub open spec fn mod_path_from(b: Seq<Tok>, i: int, after_sep: bool, gspan: u64) -> Result<int, (u64, Seq<char>)>
    decreases b.len() - i,
{
    if 0 <= i < b.len() && mod_segment(b[i]) {
        if path_sep_at(b, i + 1) {
            mod_path_from(b, i + 3, true, gspan)
        } else {
            Ok(i + 1)
        }
    } else if after_sep {
        Err(crate::tokens::err_at(b, i, b.len() as int, gspan, "expected path segment after `::`"@))
    } else {
        Err(ident_at(b, i, b.len() as int, gspan)->0)
    }
}

/// The path of `pub(in path)`, whose group body is `b`, after `in` and an optional leading
/// `::`: where it ends, or the error.
pub open spec fn restriction_path(b: Seq<Tok>, gspan: u64) -> Result<int, (u64, Seq<char>)> {
    mod_path_from(
        b,
        if path_sep_at(b, 1) {
            3
        } else {
            1
        },
        false,
        gspan,
    )
}

/// The visibility that starts with the `pub` at `p`: `pub`, `pub(crate)`, `pub(self)`,
/// `pub(super)` or `pub(in path)`. Where it ends, or the error in its path. A group after
/// `pub` that is none of these is left where it is.
pub open spec fn pub_at(ts: Seq<Tok>, p: int, hi: int) -> Result<int, (u64, Seq<char>)> {
    if p + 1 < hi && ts[p + 1] is Group {
        match ts[p + 1] {
            Tok::Group { delim: Delim::Paren, body, span } => if names_module(body@) {
                Ok(p + 2)
            } else if body@.len() >= 1 && is_ident(body@[0], "in"@) {
                match restriction_path(body@, span) {
                    Ok(_) => Ok(p + 2),
                    Err(e) => Err(e),
                }
            } else {
                Ok(p + 1)
            },
            _ => Ok(p + 1),
        }
    } else {
        Ok(p + 1)
    }
}

/// An invisible group holding a whole visibility, or nothing, as a `$vis` fragment of
/// `macro_rules!` leaves one: it is read as what it holds.
pub open spec fn vis_group(t: Tok) -> bool {
    t matches Tok::Group { delim: Delim::Invisible, body, .. } && (body@.len() == 0 || (is_ident(
        body@[0],
        "pub"@,
    ) && pub_at(body@, 0, body@.len() as int) == Ok::<int, (u64, Seq<char>)>(body@.len() as int)))
}

/// Where the optional visibility at `p` of `ts[..hi]` ends, or the error in it.
pub open spec fn vis_at(ts: Seq<Tok>, p: int, hi: int) -> Result<int, (u64, Seq<char>)> {
    if 0 <= p < hi && is_ident(ts[p], "pub"@) {
        pub_at(ts, p, hi)
    } else if 0 <= p < hi && vis_group(ts[p]) {
        Ok(p + 1)
    } else {
        Ok(p)
    }
}

/// The token left inside `pub(in path ...)` at `p` after its path: the parser reports it
/// only once all the rest has been read.
pub open spec fn vis_junk(ts: Seq<Tok>, p: int, hi: int) -> Option<u64> {
    if 0 <= p < hi && is_ident(ts[p], "pub"@) && p + 1 < hi && ts[p + 1] is Group {
        match ts[p + 1] {
            Tok::Group { delim: Delim::Paren, body, span } => if !names_module(body@) && body@.len()
                >= 1 && is_ident(body@[0], "in"@) {
                match restriction_path(body@, span) {
                    Ok(e) => if e < body@.len() {
                        Some(span_of(body@[e]))
                    } else {
                        None
                    },
                    Err(_) => None,
                }
            } else {
                None
            },
            _ => None,
        }
    } else {
        None
    }
}

/// A visibility is written: tokens that are not just an empty invisible group.
pub open spec fn vis_written(v: Seq<Tok>) -> bool {
    v.len() > 0 && !(v[0] matches Tok::Group { delim: Delim::Invisible, body, .. } && body@.len() == 0)
}

/// Where a written visibility is reported: its `pub`.
pub open spec fn vis_span(v: Seq<Tok>) -> u64 {
    match v[0] {
        Tok::Group { delim: Delim::Invisible, body, span } => if body@.len() > 0 {
            span_of(body@[0])
        } else {
            span
        },
        t => span_of(t),
    }
}

/// Where a written visibility is reported, if one is written.
fn written_vis_span(v: &Vec<Tok>) -> (r: Option<u64>)
    ensures
        r is Some <==> vis_written(v@),
        r matches Some(s) ==> s == vis_span(v@),
{
    if v.len() == 0 {
        return None;
    }
    match &v[0] {
        Tok::Group { delim: Delim::Invisible, body, span } => if body.len() == 0 {
            None
        } else {
            Some(tok_span(&body[0]))
        },
        t => Some(tok_span(t)),
    }
}

fn names_module_exec(b: &Vec<Tok>) -> (r: bool)
    ensures
        r == names_module(b@),
{
    b.len() == 1 && (tok_is_ident(&b[0], "crate") || tok_is_ident(&b[0], "self") || tok_is_ident(
        &b[0],
        "super",
    ))
}

fn mod_segment_exec(t: &Tok) -> (r: bool)
    ensures
        r == mod_segment(*t),
{
    match t {
        Tok::Ident { text, .. } => parses_as_ident(text.as_str()) || text_eq(text, "super") || text_eq(
            text,
            "self",
        ) || text_eq(text, "Self") || text_eq(text, "crate"),
        _ => false,
    }
}

fn path_sep_exec(b: &Vec<Tok>, i: usize) -> (r: bool)
    ensures
        r == path_sep_at(b@, i as int),
{
    i < b.len() && b.len() - i > 1 && tok_is_joint_punct(&b[i], ':') && tok_is_punct(&b[i + 1], ':')
}

/// Reads the path of `pub(in path)` in the group body `b` spanned `gspan`.
fn parse_restriction_path(b: &Vec<Tok>, gspan: u64) -> (r: Result<usize, Error>)
    ensures
        match restriction_path(b@, gspan) {
            Ok(e) => r matches Ok(x) && x == e,
            Err(e) => r matches Err(x) && x@ == e,
        },
        r matches Ok(x) ==> x <= b@.len(),
{
    let n = b.len();
    let mut i: usize = if path_sep_exec(b, 1) {
        3
    } else {
        1
    };
    let mut after_sep = false;
    while i < n && mod_segment_exec(&b[i])
        invariant
            n == b.len(),
            restriction_path(b@, gspan) == mod_path_from(b@, i as int, after_sep, gspan),
        decreases n - i,
    {
        if path_sep_exec(b, i + 1) {
            i = i + 3;
            after_sep = true;
        } else {
            return Ok(i + 1);
        }
    }
    if after_sep {
        Err(crate::out::error_at(b, i, n, gspan, "expected path segment after `::`"))
    } else {
        match parse_ident(b, i, n, gspan) {
            Err(e) => Err(e),
            Ok(_) => {
                proof {
                    assert(false);
                }
                Err(Error::new(here(b, i, n, gspan), "expected identifier"))
            },
        }
    }
}

/// Reads the visibility starting with the `pub` at `p`: where it ends, and the span of a
/// token left over inside `pub(in path ...)`.
fn parse_pub(ts: &Vec<Tok>, p: usize, hi: usize) -> (r: Result<(usize, Option<u64>), Error>)
    requires
        p < hi <= ts.len(),
    ensures
        match pub_at(ts@, p as int, hi as int) {
            Ok(q) => r matches Ok((x, j)) && x == q && (is_ident(ts@[p as int], "pub"@) ==> j
                == vis_junk(ts@, p as int, hi as int)),
            Err(e) => r matches Err(x) && x@ == e,
        },
        r matches Ok((x, _)) ==> p < x <= hi,
{
    if p + 1 < hi {
        if let Tok::Group { delim: Delim::Paren, body, span } = &ts[p + 1] {
            if names_module_exec(body) {
                return Ok((p + 2, None));
            }
            if body.len() >= 1 && tok_is_ident(&body[0], "in") {
                let e = parse_restriction_path(body, *span)?;
                let junk = if e < body.len() {
                    Some(tok_span(&body[e]))
                } else {
                    None
                };
                return Ok((p + 2, junk));
            }
        }
    }
    Ok((p + 1, None))
}

/// Parses an optional visibility: `pub`, or `pub(crate)`, `pub(self)`, `pub(super)`,
/// `pub(in path)`, or an invisible group holding one or nothing. Returns its tokens (empty
/// when none is written), where it ends, and the span of a token left over inside
/// `pub(in path ...)`.
pub fn parse_vis(ts: &Vec<Tok>, p: usize, hi: usize) -> (r: Result<(Vec<Tok>, usize, Option<u64>), Error>)
    requires
        p <= hi <= ts.len(),
    ensures
        match vis_at(ts@, p as int, hi as int) {
            Ok(q) => r matches Ok((v, x, j)) && x == q && p <= x <= hi && toks_view(v@) == toks_view(
                ts@.subrange(p as int, x as int),
            ) && j == vis_junk(ts@, p as int, hi as int),
            Err(e) => r matches Err(x) && x@ == e,
        },
{
    let q = if p < hi && tok_is_ident(&ts[p], "pub") {
        let (q, junk) = parse_pub(ts, p, hi)?;
        return Ok((copy_toks(ts, p, q), q, junk));
    } else if p < hi {
        match &ts[p] {
            Tok::Group { delim: Delim::Invisible, body, .. } => {
                let k = body.len();
                let held = k == 0 || (tok_is_ident(&body[0], "pub") && match parse_pub(body, 0, k) {
                    Ok((e, _)) => e == k,
                    Err(_) => false,
                });
                if held {
                    p + 1
                } else {
                    p
                }
            },
            _ => p,
        }
    } else {
        p
    };
    proof {
        assert(vis_junk(ts@, p as int, hi as int) is None);
    }
    Ok((copy_toks(ts, p, q), q, None))
}

/// The symbol for an opaque associated type's `drop` or `clone` function, derived from the
/// trait's `#[symbol_prefix = "..."]`: `PREFIX_Name_what`.
pub open spec fn derived_assoc_symbol(prefix: Seq<char>, assoc: Seq<char>, what: Seq<char>) -> Seq<
    char,
> {
    prefix + "_"@ + assoc + "_"@ + what
}

/// The symbol for a method, derived from the trait's prefix: `PREFIX_name`.
pub open spec fn derived_method_symbol(prefix: Seq<char>, name: Seq<char>) -> Seq<char> {
    prefix + "_"@ + name
}

/// The symbol for an opaque associated type's `drop` or `clone` function, derived from the
/// prefix. Fails with `missing`, spanned at the bound that requires the symbol, without one.
pub fn assoc_symbol(prefix: &Option<Sym>, assoc: &String, what: &str, span: u64, missing: &str) -> (r:
    Result<Sym, Error>)
    ensures
        prefix is None <==> r is Err,
        r matches Err(e) ==> e@ == (span, missing@),
        r matches Ok(s) ==> s@ == (
            derived_assoc_symbol(prefix->0.value@, assoc@, what@),
            span,
        ),
{
    match prefix {
        Some(p) => {
            let mut v = p.value.clone();
            v.append("_");
            v.append(assoc.as_str());
            v.append("_");
            v.append(what);
            Ok(Sym { value: v, span })
        },
        None => Err(Error::new(span, missing)),
    }
}

} // verus!

verus! {

/// The symbol of an opaque type's `drop` (or `clone`) function, `what`, comes from the
/// attribute `attr` when written, and is otherwise derived from the prefix.
pub open spec fn assoc_sym_source(
    attrs: Seq<Attr>,
    attr: Seq<char>,
    prefix: Option<Sym>,
    assoc: Seq<char>,
    what: Seq<char>,
    s: Option<Sym>,
) -> bool {
    s matches Some(v) ==> if crate::attrs::has_attr(attrs, attr) {
        sym_from(attrs, attr, s)
    } else {
        prefix matches Some(p) && v@.0 == derived_assoc_symbol(p.value@, assoc, what)
    }
}

/// Where the parts of an opaque associated type declaration stand, and what they say: the
/// name's index, the markers and where `Drop` and `Clone` were written, the sources of the
/// layouts, and the index just past the `;`.
pub struct OpaqueAt {
    pub assoc: int,
    pub markers: Seq<Marker>,
    pub drop: Option<u64>,
    pub clone: Option<u64>,
    pub srcs: Seq<crate::attrs::LayoutSrc>,
    pub end: int,
}

pub open spec fn drop_symbol_help() -> Seq<char> {
    "an opaque associated type with a `Drop` bound requires a `#[drop_symbol = \"...\"]` attribute naming the extern symbol for dropping the value in place, or a `#[symbol_prefix = \"...\"]` attribute on the trait to derive one"@
}

pub open spec fn clone_symbol_help() -> Seq<char> {
    "an opaque associated type with a `Clone` bound requires a `#[clone_symbol = \"...\"]` attribute naming the extern symbol for cloning the value, or a `#[symbol_prefix = \"...\"]` attribute on the trait to derive one"@
}

pub open spec fn no_drop_help() -> Seq<char> {
    "an opaque associated type without a `Drop` bound has no drop glue, so it must not have a `#[drop_symbol = \"...\"]` attribute; add a `Drop` bound to give it one"@
}

pub open spec fn no_clone_help() -> Seq<char> {
    "an opaque associated type without a `Clone` bound can't be cloned, so it must not have a `#[clone_symbol = \"...\"]` attribute; add a `Clone` bound to give it one"@
}

/// A bound and its symbol attribute must agree: the error, if they don't.
pub open spec fn bound_sym_check(
    bound: Option<u64>,
    attr: Option<(Seq<char>, u64)>,
    prefix: Option<(Seq<char>, u64)>,
    missing: Seq<char>,
    unwanted: Seq<char>,
) -> Option<(u64, Seq<char>)> {
    match (bound, attr) {
        (Some(span), None) => if prefix is None {
            Some((span, missing))
        } else {
            None
        },
        (None, Some(s)) => Some((s.1, unwanted)),
        _ => None,
    }
}

/// The opaque associated type declaration whose `type` keyword is at `p` of `ts[..hi]`,
/// with the attributes `attrs`, after the declarations named `seen`: where its parts stand
/// and what they say, or the first error.
pub open spec fn opaque_item(
    ts: Seq<Tok>,
    p: int,
    hi: int,
    end: u64,
    attrs: Seq<Attr>,
    seen: Seq<Seq<char>>,
    prefix: Option<(Seq<char>, u64)>,
) -> Result<OpaqueAt, (u64, Seq<char>)> {
    if ident_at(ts, p + 1, hi, end) is Some {
        Err(ident_at(ts, p + 1, hi, end)->0)
    } else {
        let assoc = ident_text(ts[p + 1]);
        let aspan = span_of(ts[p + 1]);
        let c = p + 2;
        let has_bounds = c < hi && is_punct(ts[c], ':');
        let q = crate::tokens::first_top_sep(ts, c + 1, hi, ';', '=');
        let bounds = if has_bounds {
            crate::bounds::bounds_of(ts, c + 1, q, span_at(ts, q, hi, end))
        } else {
            Ok((Seq::empty(), None, None, c))
        };
        match bounds {
            Err(e) => Err(e),
            Ok((markers, drop, clone, c2)) => if c2 < hi && is_punct(ts[c2], '=') {
                Err(
                    (
                        span_of(ts[c2]),
                        "the opaque type's name is derived automatically as the dispatch type's name followed by `"@
                            + assoc + "`; remove the `= ...`"@,
                    ),
                )
            } else if !(c2 < hi && is_punct(ts[c2], ';')) {
                Err(crate::tokens::err_at(ts, c2, hi, end, "expected `;`"@))
            } else {
                match crate::attrs::item_attrs(attrs) {
                    Err(x) => Err(x),
                    Ok(srcs) => if crate::attrs::first_sym(attrs, "symbol"@) is Some {
                        Err(
                            (
                                (crate::attrs::first_sym(attrs, "symbol"@)->0).1,
                                "opaque associated types name their drop symbol with `#[drop_symbol = \"...\"]`; `#[symbol = \"...\"]` is only allowed on methods"@,
                            ),
                        )
                    } else if bound_sym_check(
                        drop,
                        crate::attrs::first_sym(attrs, "drop_symbol"@),
                        prefix,
                        drop_symbol_help(),
                        no_drop_help(),
                    ) is Some {
                        Err(
                            bound_sym_check(
                                drop,
                                crate::attrs::first_sym(attrs, "drop_symbol"@),
                                prefix,
                                drop_symbol_help(),
                                no_drop_help(),
                            )->0,
                        )
                    } else if bound_sym_check(
                        clone,
                        crate::attrs::first_sym(attrs, "clone_symbol"@),
                        prefix,
                        clone_symbol_help(),
                        no_clone_help(),
                    ) is Some {
                        Err(
                            bound_sym_check(
                                clone,
                                crate::attrs::first_sym(attrs, "clone_symbol"@),
                                prefix,
                                clone_symbol_help(),
                                no_clone_help(),
                            )->0,
                        )
                    } else if srcs.len() == 0 {
                        Err(
                            (
                                aspan,
                                "opaque associated types require an `#[opaque(size = N, align = M)]` attribute"@,
                            ),
                        )
                    } else if seen.contains(assoc) {
                        Err((aspan, "duplicate associated type"@))
                    } else {
                        Ok(OpaqueAt { assoc: p + 1, markers, drop, clone, srcs, end: c2 + 1 })
                    },
                }
            },
        }
    }
}

/// An opaque type's `drop` (or `clone`) symbol: from its attribute, or derived from the
/// trait's prefix and spanned at the bound.
pub open spec fn assoc_symbol_of(
    attr: Option<(Seq<char>, u64)>,
    bound: Option<u64>,
    prefix: Option<(Seq<char>, u64)>,
    assoc: Seq<char>,
    what: Seq<char>,
) -> Option<(Seq<char>, u64)> {
    match bound {
        None => None,
        Some(span) => match attr {
            Some(v) => Some(v),
            None => Some((derived_assoc_symbol((prefix->0).0, assoc, what), span)),
        },
    }
}

/// The declaration `o` is the one whose parts stand at `at` in `ts`.
pub open spec fn opaque_is(
    ts: Seq<Tok>,
    o: OpaqueDecl,
    at: OpaqueAt,
    attrs: Seq<Attr>,
    prefix: Option<(Seq<char>, u64)>,
) -> bool {
    &&& tok_view(o.assoc) == tok_view(ts[at.assoc])
    &&& o.bounds@ == at.markers
    &&& crate::attrs::layouts_from(o.layouts@, at.srcs)
    &&& crate::attrs::sym_view(o.drop_symbol) == assoc_symbol_of(
        crate::attrs::first_sym(attrs, "drop_symbol"@),
        at.drop,
        prefix,
        name_of(o.assoc),
        "drop"@,
    )
    &&& crate::attrs::sym_view(o.clone_symbol) == assoc_symbol_of(
        crate::attrs::first_sym(attrs, "clone_symbol"@),
        at.clone,
        prefix,
        name_of(o.assoc),
        "clone"@,
    )
}

/// The names of opaque declarations.
pub open spec fn assoc_names(os: Seq<OpaqueDecl>) -> Seq<Seq<char>> {
    os.map_values(|o: OpaqueDecl| name_of(o.assoc))
}

/// Parses the rest of an opaque associated type declaration, from its `type` keyword at
/// `p` to its `;`, given its attributes and visibility. `seen` are the declarations before
/// it, `prefix` the trait's symbol prefix.
pub fn parse_opaque_item(
    ts: &Vec<Tok>,
    p: usize,
    hi: usize,
    end: u64,
    attrs: &Vec<Attr>,
    vis: Vec<Tok>,
    seen: &Vec<OpaqueDecl>,
    prefix: &Option<Sym>,
) -> (r: Result<(OpaqueDecl, usize), Error>)
    requires
        p < hi <= ts.len(),
        is_ident(ts@[p as int], "type"@),
        forall|i: int| 0 <= i < seen@.len() ==> (#[trigger] seen@[i]).assoc is Ident,
    ensures
        r matches Ok((o, q)) ==> {
            &&& p < q <= hi
            &&& opaque_wf(o)
            &&& forall|i: int| 0 <= i < seen@.len() ==> name_of((#[trigger] seen@[i]).assoc) != name_of(o.assoc)
            &&& tok_view(o.assoc) == tok_view(ts@[p + 1])
            &&& attrs_toks(o.docs@) == doc_attrs(attrs@)
            &&& toks_view(o.vis@) == toks_view(vis@)
            &&& assoc_sym_source(attrs@, "drop_symbol"@, *prefix, name_of(o.assoc), "drop"@, o.drop_symbol)
            &&& assoc_sym_source(attrs@, "clone_symbol"@, *prefix, name_of(o.assoc), "clone"@, o.clone_symbol)
            &&& o.attrs@ == attrs@
            &&& opaque_symbols_wf(o, *prefix)
        },
        match opaque_item(ts@, p as int, hi as int, end, attrs@, assoc_names(seen@), crate::attrs::sym_view(*prefix)) {
            Ok(at) => r matches Ok((o, q)) && q == at.end && opaque_is(ts@, o, at, attrs@, crate::attrs::sym_view(*prefix)),
            Err(e) => r matches Err(x) && x@ == e,
        },
{
    let assoc = parse_ident(ts, p + 1, hi, end)?;
    let assoc_text = match &assoc {
        Tok::Ident { text, .. } => text.clone(),
        _ => String::new(),
    };
    let assoc_span = tok_span(&assoc);
    let mut c = p + 2;
    let bounds = if c < hi && tok_is_punct(&ts[c], ':') {
        let q = find_top(ts, c + 1, hi, ';', '=');
        let (b, stop) = parse_bounds(ts, c + 1, q, here(ts, q, hi, end))?;
        c = stop;
        b
    } else {
        Bounds { markers: Vec::new(), drop_bound: None, clone_bound: None }
    };
    if c < hi && tok_is_punct(&ts[c], '=') {
        let mut m = String::from_str(
            "the opaque type's name is derived automatically as the dispatch type's name followed by `",
        );
        m.append(assoc_text.as_str());
        m.append("`; remove the `= ...`");
        return Err(Error { span: tok_span(&ts[c]), message: m });
    }
    let c = expect_punct(ts, c, hi, end, ';', "expected `;`")?;
    let SplitAttrs { docs, symbol, drop_symbol, clone_symbol, opaque: layouts } = split_attrs(
        attrs,
    )?;
    if let Some(symbol) = symbol {
        return Err(
            Error::new(
                symbol.span,
                "opaque associated types name their drop symbol with `#[drop_symbol = \"...\"]`; `#[symbol = \"...\"]` is only allowed on methods",
            ),
        );
    }
    // The `Drop` bound decides whether the opaque struct has drop glue; the attribute only
    // names the symbol to drop through. The two must agree.
    let drop_symbol = match (bounds.drop_bound, drop_symbol) {
        (Some(_), Some(s)) => Some(s),
        (None, None) => None,
        (Some(span), None) => Some(
            assoc_symbol(
                prefix,
                &assoc_text,
                "drop",
                span,
                "an opaque associated type with a `Drop` bound requires a `#[drop_symbol = \"...\"]` attribute naming the extern symbol for dropping the value in place, or a `#[symbol_prefix = \"...\"]` attribute on the trait to derive one",
            )?,
        ),
        (None, Some(s)) => {
            return Err(
                Error::new(
                    s.span,
                    "an opaque associated type without a `Drop` bound has no drop glue, so it must not have a `#[drop_symbol = \"...\"]` attribute; add a `Drop` bound to give it one",
                ),
            );
        },
    };
    // Same for `Clone`: the bound decides, the attribute names the symbol.
    let clone_symbol = match (bounds.clone_bound, clone_symbol) {
        (Some(_), Some(s)) => Some(s),
        (None, None) => None,
        (Some(span), None) => Some(
            assoc_symbol(
                prefix,
                &assoc_text,
                "clone",
                span,
                "an opaque associated type with a `Clone` bound requires a `#[clone_symbol = \"...\"]` attribute naming the extern symbol for cloning the value, or a `#[symbol_prefix = \"...\"]` attribute on the trait to derive one",
            )?,
        ),
        (None, Some(s)) => {
            return Err(
                Error::new(
                    s.span,
                    "an opaque associated type without a `Clone` bound can't be cloned, so it must not have a `#[clone_symbol = \"...\"]` attribute; add a `Clone` bound to give it one",
                ),
            );
        },
    };
    if layouts.len() == 0 {
        return Err(
            Error::new(
                assoc_span,
                "opaque associated types require an `#[opaque(size = N, align = M)]` attribute",
            ),
        );
    }
    proof {
        assert(assoc_names(seen@).contains(assoc_text@) ==> opaque_item(
            ts@,
            p as int,
            hi as int,
            end,
            attrs@,
            assoc_names(seen@),
            crate::attrs::sym_view(*prefix),
        ) == Err::<OpaqueAt, (u64, Seq<char>)>((assoc_span, "duplicate associated type"@)));
    }
    let mut i: usize = 0;
    while i < seen.len()
        invariant
            i <= seen.len(),
            forall|j: int| 0 <= j < i ==> name_of((#[trigger] seen@[j]).assoc) != assoc_text@,
            forall|j: int| 0 <= j < seen@.len() ==> (#[trigger] seen@[j]).assoc is Ident,
            assoc_names(seen@).contains(assoc_text@) ==> opaque_item(
                ts@,
                p as int,
                hi as int,
                end,
                attrs@,
                assoc_names(seen@),
                crate::attrs::sym_view(*prefix),
            ) == Err::<OpaqueAt, (u64, Seq<char>)>((assoc_span, "duplicate associated type"@)),
        decreases seen.len() - i,
    {
        let same = match &seen[i].assoc {
            Tok::Ident { text, .. } => text_eq(text, assoc_text.as_str()),
            _ => false,
        };
        if same {
            proof {
                assert(assoc_names(seen@)[i as int] == name_of(seen@[i as int].assoc));
                assert(assoc_names(seen@).contains(assoc_text@));
            }
            return Err(Error::new(assoc_span, "duplicate associated type"));
        }
        i += 1;
    }
    proof {
        assert(!assoc_names(seen@).contains(assoc_text@)) by {
            if assoc_names(seen@).contains(assoc_text@) {
                let j = choose|j: int| 0 <= j < assoc_names(seen@).len() && assoc_names(seen@)[j] == assoc_text@;
                assert(name_of(seen@[j].assoc) != assoc_text@);
            }
        }
    }
    let o = OpaqueDecl {
        attrs: Ghost(attrs@),
        docs,
        vis,
        assoc,
        // Named after the dispatch type, which is parsed after the trait body.
        opaque: assoc_text,
        layouts,
        bounds: bounds.markers,
        drop_symbol,
        clone_symbol,
    };
    Ok((o, c))
}

} // verus!

verus! {

/// The method's symbol comes from its `#[symbol = "..."]` when written, and is otherwise
/// derived from the trait's prefix.
pub open spec fn method_sym_source(attrs: Seq<Attr>, prefix: Option<Sym>, name: Seq<char>, s: Sym) -> bool {
    if crate::attrs::has_attr(attrs, "symbol"@) {
        sym_from(attrs, "symbol"@, Some(s))
    } else {
        prefix matches Some(p) && s@.0 == derived_method_symbol(p.value@, name)
    }
}

/// `body[a..]` starts with a `self` parameter: `self`, `&self` or `&mut self`.
pub open spec fn starts_self(body: Seq<Tok>, a: int) -> bool {
    let n = body.len();
    ||| is_ident(body[a], "self"@)
    ||| is_punct(body[a], '&') && ((n - a > 1 && is_ident(body[a + 1], "self"@)) || (n - a > 2
        && is_ident(body[a + 1], "mut"@) && is_ident(body[a + 2], "self"@)))
}

pub open spec fn self_param_help() -> Seq<char> {
    "unitrait methods must not have a `self` parameter; store state in `static`s or in an opaque associated type"@
}

/// The parameters `name: Type, ...` of `body[a..]` (a trailing comma allowed), each as the
/// index of its name and the range of its type; or the first error.
pub open spec fn args_from(body: Seq<Tok>, a: int, gspan: u64) -> Result<Seq<(int, int, int)>, (u64, Seq<char>)>
    decreases body.len() - a,
{
    let n = body.len() as int;
    if a < 0 || a >= n {
        Ok(Seq::empty())
    } else if starts_self(body, a) {
        Err((span_of(body[a]), self_param_help()))
    } else if ident_at(body, a, n, gspan) is Some {
        Err(ident_at(body, a, n, gspan)->0)
    } else if !(a + 1 < n && is_punct(body[a + 1], ':')) {
        Err(crate::tokens::err_at(body, a + 1, n, gspan, "expected `:`"@))
    } else {
        let t = a + 2;
        let e = crate::tokens::first_top_sep(body, t, n, ',', ',');
        if !(t <= e <= n) {
            Ok(Seq::empty())
        } else if e == t || !is_rust_type(crate::syntax::toks_text(body.subrange(t, e))) {
            let k = crate::syntax::prefix_end(body, t, e, crate::syntax::Grammar::Type);
            if k > t {
                Err((span_of(body[k]), "expected `,`"@))
            } else {
                Err((span_at(body, t, n, gspan), crate::syntax::type_message(crate::syntax::toks_text(body.subrange(t, crate::syntax::with_next(body, e))))))
            }
        } else {
            let next = if e < n {
                e + 1
            } else {
                n
            };
            match args_from(body, next, gspan) {
                Ok(rest) => Ok(seq![(a, t, e)] + rest),
                Err(x) => Err(x),
            }
        }
    }
}

/// The parameters are those the ranges `at` of `body` hold.
pub open spec fn args_at(body: Seq<Tok>, args: Seq<Arg>, at: Seq<(int, int, int)>) -> bool {
    &&& args.len() == at.len()
    &&& forall|k: int|
        0 <= k < args.len() ==> {
            &&& 0 <= (#[trigger] at[k]).0 < at[k].1 <= at[k].2 <= body.len()
            &&& tok_view(args[k].name) == tok_view(body[at[k].0])
            &&& toks_view(args[k].ty@) == toks_view(body.subrange(at[k].1, at[k].2))
        }
}

/// Whether `body[a..]` starts with a `self` parameter: `self`, `&self` or `&mut self`.
fn starts_with_self(body: &Vec<Tok>, a: usize) -> (r: bool)
    requires
        a < body.len(),
    ensures
        r == starts_self(body@, a as int),
{
    let n = body.len();
    tok_is_ident(&body[a], "self") || (tok_is_punct(&body[a], '&') && ((n - a > 1 && tok_is_ident(
        &body[a + 1],
        "self",
    )) || (n - a > 2 && tok_is_ident(&body[a + 1], "mut") && tok_is_ident(&body[a + 2], "self"))))
}

/// Parses the parameters `name: Type, ...` of a method, the tokens of the parenthesized
/// group spanned `gspan`.
fn parse_args(body: &Vec<Tok>, gspan: u64) -> (r: Result<Vec<Arg>, Error>)
    ensures
        r matches Ok(args) ==> forall|k: int|
            0 <= k < args@.len() ==> (#[trigger] args@[k]).name is Ident && is_rust_type(
                crate::syntax::toks_text(args@[k].ty@),
            ),
        match args_from(body@, 0, gspan) {
            Ok(at) => r matches Ok(args) && args_at(body@, args@, at),
            Err(e) => r matches Err(x) && x@ == e,
        },
{
    let n = body.len();
    let mut args: Vec<Arg> = Vec::new();
    let mut a: usize = 0;
    let ghost mut done: Seq<(int, int, int)> = Seq::empty();
    proof {
        if let Ok(rest) = args_from(body@, 0, gspan) {
            assert(done + rest =~= rest);
        }
    }
    while a < n
        invariant
            a <= n == body.len(),
            forall|k: int|
                0 <= k < args@.len() ==> (#[trigger] args@[k]).name is Ident && is_rust_type(
                    crate::syntax::toks_text(args@[k].ty@),
                ),
            args_at(body@, args@, done),
            args_from(body@, 0, gspan) == match args_from(body@, a as int, gspan) {
                Ok(rest) => Ok(done + rest),
                Err(x) => Err(x),
            },
        decreases n - a,
    {
        if starts_with_self(body, a) {
            return Err(
                Error::new(
                    tok_span(&body[a]),
                    "unitrait methods must not have a `self` parameter; store state in `static`s or in an opaque associated type",
                ),
            );
        }
        let name = parse_ident(body, a, n, gspan)?;
        let t = expect_punct(body, a + 1, n, gspan, ':', "expected `:`")?;
        let e = find_top(body, t, n, ',', ',');
        if crate::syntax::type_error_of(body, t, e).is_some() {
            let k = crate::syntax::longest_prefix(body, t, e, crate::syntax::Grammar::Type);
            proof {
                crate::syntax::lemma_prefix_end(body@, t as int, e as int, crate::syntax::Grammar::Type);
            }
            if k > t {
                return Err(Error::new(tok_span(&body[k]), "expected `,`"));
            }
            let m = crate::syntax::type_message_of(body, t, crate::syntax::with_next_exec(body, e));
            return Err(Error { span: here(body, t, n, gspan), message: m });
        }
        if e == t {
            let m = crate::syntax::type_message_of(body, t, crate::syntax::with_next_exec(body, e));
            return Err(Error { span: here(body, t, n, gspan), message: m });
        }
        let ty = copy_toks(body, t, e);
        proof {
            crate::syntax::lemma_toks_text_view(ty@, body@.subrange(t as int, e as int));
        }
        let ghost before = args@;
        args.push(Arg { name, ty });
        proof {
            let old_done = done;
            done = done.push((a as int, t as int, e as int));
            assert forall|k: int| 0 <= k < args@.len() implies {
                &&& 0 <= (#[trigger] done[k]).0 < done[k].1 <= done[k].2 <= body@.len()
                &&& tok_view(args@[k].name) == tok_view(body@[done[k].0])
                &&& toks_view(args@[k].ty@) == toks_view(body@.subrange(done[k].1, done[k].2))
            } by {
                if k < before.len() {
                    assert(args@[k] == before[k]);
                    assert(done[k] == old_done[k]);
                }
            }
            let next: int = if e < n { e + 1 } else { n as int };
            if let Ok(rest) = args_from(body@, next, gspan) {
                assert(old_done + (seq![(a as int, t as int, e as int)] + rest) =~= done + rest);
            }
        }
        a = if e < n {
            e + 1
        } else {
            n
        };
    }
    proof {
        assert(done + Seq::<(int, int, int)>::empty() =~= done);
    }
    Ok(args)
}

/// Where the parts of a method declaration stand: `unsafe` (if written), the name, the
/// parenthesized parameters and their ranges inside it, the return type's range (if
/// written), and the index just past the `;`.
pub struct MethodAt {
    pub unsafety: Option<int>,
    pub name: int,
    pub params: int,
    pub args: Seq<(int, int, int)>,
    pub ret: Option<(int, int)>,
    pub end: int,
}

pub open spec fn method_vis_help() -> Seq<char> {
    "unitrait methods must not have a visibility; they are as visible as the dispatch type, so set the visibility on the `struct` line instead"@
}

pub open spec fn method_symbol_help() -> Seq<char> {
    "unitrait methods require a `#[symbol = \"...\"]` attribute, or a `#[symbol_prefix = \"...\"]` attribute on the trait to derive one from the method name"@
}

/// The method's symbol: from its `#[symbol = "..."]`, or derived from the trait's prefix
/// and spanned at the method's name.
pub open spec fn method_symbol_of(attrs: Seq<Attr>, prefix: Option<(Seq<char>, u64)>, name: Tok) -> (Seq<char>, u64) {
    match crate::attrs::first_sym(attrs, "symbol"@) {
        Some(v) => v,
        None => (derived_method_symbol((prefix->0).0, name_of(name)), span_of(name)),
    }
}

/// The method declaration at `p` of `ts[..hi]`, with the attributes `attrs` and the
/// visibility `vis` written before it: where its parts stand, or the first error.
pub open spec fn method_item(
    ts: Seq<Tok>,
    p: int,
    hi: int,
    end: u64,
    attrs: Seq<Attr>,
    vis: Seq<Tok>,
    prefix: Option<(Seq<char>, u64)>,
) -> Result<MethodAt, (u64, Seq<char>)> {
    let unsafety = 0 <= p < hi && is_ident(ts[p], "unsafe"@);
    let c = if unsafety {
        p + 1
    } else {
        p
    };
    if vis_written(vis) {
        Err((vis_span(vis), method_vis_help()))
    } else if !(0 <= c < hi && is_ident(ts[c], "fn"@)) {
        Err(crate::tokens::err_at(ts, c, hi, end, "expected `fn`"@))
    } else if ident_at(ts, c + 1, hi, end) is Some {
        Err(ident_at(ts, c + 1, hi, end)->0)
    } else if c + 2 >= hi {
        Err((end, crate::tokens::at_end("expected parentheses"@)))
    } else {
        let g = c + 2;
        match ts[g] {
            Tok::Group { delim: Delim::Paren, body, span: gspan } => match args_from(body@, 0, gspan) {
                Err(e) => Err(e),
                Ok(args) => {
                    let c3 = g + 1;
                    let has_ret = c3 < hi && hi - c3 > 1 && crate::tokens::is_joint_punct(ts[c3], '-')
                        && is_punct(ts[c3 + 1], '>');
                    let t = c3 + 2;
                    let e = crate::tokens::first_top_sep(ts, t, hi, ';', ';');
                    let k = crate::syntax::prefix_end(ts, t, e, crate::syntax::Grammar::Type);
                    if has_ret && (e == t || !is_rust_type(crate::syntax::toks_text(ts.subrange(t, e)))) {
                        if k > t {
                            Err((span_of(ts[k]), "expected `;`"@))
                        } else {
                            Err((span_at(ts, t, hi, end), crate::syntax::type_message(crate::syntax::toks_text(ts.subrange(t, crate::syntax::with_next(ts, e))))))
                        }
                    } else {
                        let semi = if has_ret {
                            e
                        } else {
                            c3
                        };
                        if !(semi < hi && is_punct(ts[semi], ';')) {
                            Err(crate::tokens::err_at(ts, semi, hi, end, "expected `;`"@))
                        } else {
                            match crate::attrs::item_attrs(attrs) {
                                Err(x) => Err(x),
                                Ok(srcs) => if srcs.len() > 0 {
                                    Err(
                                        (
                                            span_of(ts[c + 1]),
                                            "`#[opaque]` is only allowed on associated type declarations"@,
                                        ),
                                    )
                                } else if crate::attrs::first_sym(attrs, "drop_symbol"@) is Some {
                                    Err(
                                        (
                                            (crate::attrs::first_sym(attrs, "drop_symbol"@)->0).1,
                                            "`#[drop_symbol]` is only allowed on opaque associated type declarations"@,
                                        ),
                                    )
                                } else if crate::attrs::first_sym(attrs, "clone_symbol"@) is Some {
                                    Err(
                                        (
                                            (crate::attrs::first_sym(attrs, "clone_symbol"@)->0).1,
                                            "`#[clone_symbol]` is only allowed on opaque associated type declarations"@,
                                        ),
                                    )
                                } else if crate::attrs::first_sym(attrs, "symbol"@) is None && prefix is None {
                                    Err((span_of(ts[c + 1]), method_symbol_help()))
                                } else {
                                    Ok(
                                        MethodAt {
                                            unsafety: if unsafety {
                                                Some(p)
                                            } else {
                                                None
                                            },
                                            name: c + 1,
                                            params: g,
                                            args,
                                            ret: if has_ret {
                                                Some((t, e))
                                            } else {
                                                None
                                            },
                                            end: semi + 1,
                                        },
                                    )
                                },
                            }
                        }
                    }
                },
            },
            _ => Err((span_of(ts[g]), "expected parentheses"@)),
        }
    }
}

/// The method `m` is the one whose parts stand at `at` in `ts`.
pub open spec fn method_is(ts: Seq<Tok>, m: Method, at: MethodAt) -> bool {
    &&& match at.unsafety {
        Some(u) => m.unsafety matches Some(t) && tok_view(t) == tok_view(ts[u]),
        None => m.unsafety is None,
    }
    &&& tok_view(m.name) == tok_view(ts[at.name])
    &&& args_at(crate::tokens::group_body(ts[at.params]), m.args@, at.args)
    &&& match at.ret {
        Some((t, e)) => m.ret matches Some(r) && toks_view(r@) == toks_view(ts.subrange(t, e)),
        None => m.ret is None,
    }
}

/// Parses a method declaration from `p` (after its attributes) to its `;`.
pub fn parse_method_item(
    ts: &Vec<Tok>,
    p: usize,
    hi: usize,
    end: u64,
    attrs: &Vec<Attr>,
    vis: Vec<Tok>,
    prefix: &Option<Sym>,
) -> (r: Result<(Method, usize), Error>)
    requires
        p <= hi <= ts.len(),
    ensures
        r matches Ok((m, q)) ==> {
            &&& p < q <= hi
            &&& !vis_written(vis@)
            &&& method_wf(m)
            &&& attrs_toks(m.docs@) == doc_attrs(attrs@)
            &&& method_sym_source(attrs@, *prefix, name_of(m.name), m.symbol)
            &&& m.attrs@ == attrs@
            &&& method_symbols_wf(m, *prefix)
            &&& !crate::attrs::has_attr(attrs@, "opaque"@)
            &&& !crate::attrs::has_attr(attrs@, "cfg_attr"@)
            &&& !crate::attrs::has_attr(attrs@, "drop_symbol"@)
            &&& !crate::attrs::has_attr(attrs@, "clone_symbol"@)
        },
        match method_item(ts@, p as int, hi as int, end, attrs@, vis@, crate::attrs::sym_view(*prefix)) {
            Ok(at) => r matches Ok((m, q)) && q == at.end && method_is(ts@, m, at) && m.symbol@
                == method_symbol_of(attrs@, crate::attrs::sym_view(*prefix), m.name),
            Err(e) => r matches Err(x) && x@ == e,
        },
{
    if let Some(span) = written_vis_span(&vis) {
        return Err(
            Error::new(
                span,
                "unitrait methods must not have a visibility; they are as visible as the dispatch type, so set the visibility on the `struct` line instead",
            ),
        );
    }
    let mut c = p;
    let unsafety = if c < hi && tok_is_ident(&ts[c], "unsafe") {
        c += 1;
        Some(copy_tok(&ts[c - 1]))
    } else {
        None
    };
    let c = expect_keyword(ts, c, hi, end, "fn", "expected `fn`")?;
    let name = parse_ident(ts, c, hi, end)?;
    let c = c + 1;
    let (args_body, gspan) = if c < hi {
        match &ts[c] {
            Tok::Group { delim: Delim::Paren, body, span } => (body, *span),
            _ => {
                return Err(Error::new(tok_span(&ts[c]), "expected parentheses"));
            },
        }
    } else {
        return Err(Error::new_at_end(end, "expected parentheses"));
    };
    let args = parse_args(args_body, gspan)?;
    let mut c = c + 1;
    let ret = if c < hi && hi - c > 1 && tok_is_joint_punct(&ts[c], '-') && tok_is_punct(&ts[c + 1], '>') {
        let t = c + 2;
        let e = find_top(ts, t, hi, ';', ';');
        if crate::syntax::type_error_of(ts, t, e).is_some() {
            let k = crate::syntax::longest_prefix(ts, t, e, crate::syntax::Grammar::Type);
            proof {
                crate::syntax::lemma_prefix_end(ts@, t as int, e as int, crate::syntax::Grammar::Type);
            }
            if k > t {
                return Err(Error::new(tok_span(&ts[k]), "expected `;`"));
            }
            let m = crate::syntax::type_message_of(ts, t, crate::syntax::with_next_exec(ts, e));
            return Err(Error { span: here(ts, t, hi, end), message: m });
        }
        if e == t {
            let m = crate::syntax::type_message_of(ts, t, crate::syntax::with_next_exec(ts, e));
            return Err(Error { span: here(ts, t, hi, end), message: m });
        }
        let ty = copy_toks(ts, t, e);
        proof {
            crate::syntax::lemma_toks_text_view(ty@, ts@.subrange(t as int, e as int));
        }
        c = e;
        Some(ty)
    } else {
        None
    };
    let c = expect_punct(ts, c, hi, end, ';', "expected `;`")?;
    let SplitAttrs { docs, symbol, drop_symbol, clone_symbol, opaque } = split_attrs(attrs)?;
    let name_span = tok_span(&name);
    if opaque.len() > 0 {
        return Err(
            Error::new(name_span, "`#[opaque]` is only allowed on associated type declarations"),
        );
    }
    if let Some(s) = drop_symbol {
        return Err(
            Error::new(
                s.span,
                "`#[drop_symbol]` is only allowed on opaque associated type declarations",
            ),
        );
    }
    if let Some(s) = clone_symbol {
        return Err(
            Error::new(
                s.span,
                "`#[clone_symbol]` is only allowed on opaque associated type declarations",
            ),
        );
    }
    let symbol = match symbol {
        Some(s) => s,
        None => match prefix {
            Some(pre) => {
                let mut v = pre.value.clone();
                v.append("_");
                match &name {
                    Tok::Ident { text, .. } => v.append(text.as_str()),
                    _ => {},
                }
                Sym { value: v, span: name_span }
            },
            None => {
                return Err(
                    Error::new(
                        name_span,
                        "unitrait methods require a `#[symbol = \"...\"]` attribute, or a `#[symbol_prefix = \"...\"]` attribute on the trait to derive one from the method name",
                    ),
                );
            },
        },
    };
    Ok((Method { attrs: Ghost(attrs@), docs, unsafety, name, symbol, args, ret }, c))
}

} // verus!

verus! {

/// An item of the trait: where its attributes start and how many there are, where its
/// visibility starts, and where its parts stand.
pub struct ItemAt<T> {
    pub attrs: int,
    pub n_attrs: int,
    pub vis: int,
    pub at: T,
}

/// The items of the trait's body from `c` on, after declarations named `seen`: the opaque
/// declarations and the methods, in order, or the first error.
pub open spec fn items_from(
    body: Seq<Tok>,
    c: int,
    gspan: u64,
    prefix: Option<(Seq<char>, u64)>,
    seen: Seq<Seq<char>>,
) -> Result<(Seq<ItemAt<OpaqueAt>>, Seq<ItemAt<MethodAt>>), (u64, Seq<char>)>
    decreases body.len() - c,
{
    let n = body.len() as int;
    if c < 0 || c >= n {
        Ok((Seq::empty(), Seq::empty()))
    } else {
        match crate::attrs::outer_attrs_end(body, c, n, gspan) {
            Err(e) => Err(e),
            Ok(a) => {
                let k = (a - c) / 2;
                let attrs = crate::attrs::attrs_of(body, c, k);
                match vis_at(body, a, n) {
                Err(e) => Err(e),
                Ok(v) => if v < n && is_ident(body[v], "type"@) {
                    match opaque_item(body, v, n, gspan, attrs, seen, prefix) {
                        Err(e) => Err(e),
                        Ok(o) => if !(c < o.end <= n) {
                            Ok((Seq::empty(), Seq::empty()))
                        } else {
                            match items_from(body, o.end, gspan, prefix, seen.push(ident_text(body[o.assoc]))) {
                                Err(e) => Err(e),
                                Ok((os, ms)) => Ok(
                                    (seq![ItemAt { attrs: c, n_attrs: k, vis: a, at: o }] + os, ms),
                                ),
                            }
                        },
                    }
                } else {
                    match method_item(body, v, n, gspan, attrs, body.subrange(a, v), prefix) {
                        Err(e) => Err(e),
                        Ok(m) => if !(c < m.end <= n) {
                            Ok((Seq::empty(), Seq::empty()))
                        } else {
                            match items_from(body, m.end, gspan, prefix, seen) {
                                Err(e) => Err(e),
                                Ok((os, ms)) => Ok(
                                    (os, seq![ItemAt { attrs: c, n_attrs: k, vis: a, at: m }] + ms),
                                ),
                            }
                        },
                    }
                },
                }
            },
        }
    }
}

/// The declaration `o` is the item `it` of `body`: its parts, its attributes and its
/// visibility are those written there.
pub open spec fn opaque_item_is(body: Seq<Tok>, o: OpaqueDecl, it: ItemAt<OpaqueAt>, prefix: Option<(Seq<char>, u64)>) -> bool {
    let attrs = crate::attrs::attrs_of(body, it.attrs, it.n_attrs);
    &&& opaque_is(body, o, it.at, attrs, prefix)
    &&& attrs_toks(o.docs@) == doc_attrs(attrs)
    &&& toks_view(o.vis@) == toks_view(body.subrange(it.vis, it.at.assoc - 1))
}

/// The method `m` is the item `it` of `body`.
pub open spec fn method_item_is(body: Seq<Tok>, m: Method, it: ItemAt<MethodAt>, prefix: Option<(Seq<char>, u64)>) -> bool {
    let attrs = crate::attrs::attrs_of(body, it.attrs, it.n_attrs);
    &&& method_is(body, m, it.at)
    &&& attrs_toks(m.docs@) == doc_attrs(attrs)
    &&& m.symbol@ == method_symbol_of(attrs, prefix, m.name)
}

/// Parses the items of the trait, the tokens of its braced body spanned `gspan`.
#[verifier::rlimit(80)]
fn parse_trait_body(body: &Vec<Tok>, gspan: u64, prefix: &Option<Sym>) -> (r: Result<
    (Vec<OpaqueDecl>, Vec<Method>, Option<u64>),
    Error,
>)
    ensures
        r matches Ok((opaques, methods, _)) ==> {
            &&& forall|i: int| 0 <= i < opaques@.len() ==> opaque_wf(#[trigger] opaques@[i])
            &&& forall|i: int, j: int|
                0 <= i < j < opaques@.len() ==> name_of((#[trigger] opaques@[i]).assoc) != name_of(
                    (#[trigger] opaques@[j]).assoc,
                )
            &&& forall|i: int| 0 <= i < methods@.len() ==> method_wf(#[trigger] methods@[i])
            &&& forall|i: int| 0 <= i < opaques@.len() ==> opaque_symbols_wf(#[trigger] opaques@[i], *prefix)
            &&& forall|i: int| 0 <= i < methods@.len() ==> method_symbols_wf(#[trigger] methods@[i], *prefix)
        },
        match items_from(body@, 0, gspan, crate::attrs::sym_view(*prefix), Seq::empty()) {
            Ok((os, ms)) => r matches Ok((opaques, methods, junk)) && items_are(body@, opaques@, methods@, os, ms, crate::attrs::sym_view(*prefix))
                && junk == items_junk(body@, os),
            Err(e) => r matches Err(x) && x@ == e,
        },
{
    let n = body.len();
    let mut opaques: Vec<OpaqueDecl> = Vec::new();
    let mut methods: Vec<Method> = Vec::new();
    let mut c: usize = 0;
    let ghost mut dos: Seq<ItemAt<OpaqueAt>> = Seq::empty();
    let ghost mut dms: Seq<ItemAt<MethodAt>> = Seq::empty();
    let mut junk: Option<u64> = None;
    proof {
        assert(assoc_names(opaques@) =~= Seq::<Seq<char>>::empty());
        if let Ok((os, ms)) = items_from(body@, 0, gspan, crate::attrs::sym_view(*prefix), Seq::empty()) {
            assert(dos + os =~= os);
            assert(dms + ms =~= ms);
        }
    }
    while c < n
        invariant
            c <= n == body.len(),
            forall|i: int| 0 <= i < opaques@.len() ==> opaque_wf(#[trigger] opaques@[i]),
            forall|i: int, j: int|
                0 <= i < j < opaques@.len() ==> name_of((#[trigger] opaques@[i]).assoc) != name_of(
                    (#[trigger] opaques@[j]).assoc,
                ),
            forall|i: int| 0 <= i < methods@.len() ==> method_wf(#[trigger] methods@[i]),
            forall|i: int| 0 <= i < opaques@.len() ==> opaque_symbols_wf(#[trigger] opaques@[i], *prefix),
            forall|i: int| 0 <= i < methods@.len() ==> method_symbols_wf(#[trigger] methods@[i], *prefix),
            items_are(body@, opaques@, methods@, dos, dms, crate::attrs::sym_view(*prefix)),
            junk == items_junk(body@, dos),
            items_from(body@, 0, gspan, crate::attrs::sym_view(*prefix), Seq::empty()) == match items_from(
                body@,
                c as int,
                gspan,
                crate::attrs::sym_view(*prefix),
                assoc_names(opaques@),
            ) {
                Ok((os, ms)) => Ok((dos + os, dms + ms)),
                Err(e) => Err(e),
            },
        decreases n - c,
    {
        let (attrs, a) = parse_outer_attrs(body, c, n, gspan)?;
        let (ivis, v, ivis_junk) = parse_vis(body, a, n)?;
        let ghost tattrs = crate::attrs::attrs_of(body@, c as int, (a - c) / 2);
        proof {
            crate::attrs::lemma_attrs_at_same(body@, c as int, a as int, attrs@);
            crate::attrs::lemma_doc_attrs_same(attrs@, tattrs);
        }
        if v < n && tok_is_ident(&body[v], "type") {
            let ghost names = assoc_names(opaques@);
            proof {
                lemma_opaque_item_same(body@, v as int, n as int, gspan, attrs@, tattrs, names, crate::attrs::sym_view(*prefix));
            }
            let (o, q) = parse_opaque_item(body, v, n, gspan, &attrs, ivis, &opaques, prefix)?;
            let ghost before = opaques@;
            opaques.push(o);
            if junk.is_none() {
                junk = ivis_junk;
            }
            proof {
                assert forall|i: int, j: int|
                    0 <= i < j < opaques@.len() implies name_of((#[trigger] opaques@[i]).assoc)
                    != name_of((#[trigger] opaques@[j]).assoc) by {
                    if j < before.len() {
                        assert(opaques@[i] == before[i] && opaques@[j] == before[j]);
                    } else {
                        assert(opaques@[i] == before[i]);
                    }
                }
                let at_copy = opaque_item(body@, v as int, n as int, gspan, attrs@, names, crate::attrs::sym_view(*prefix))->Ok_0;
                let at = opaque_item(body@, v as int, n as int, gspan, tattrs, names, crate::attrs::sym_view(*prefix))->Ok_0;
                lemma_opaque_is_same(body@, o, at_copy, at, attrs@, tattrs, crate::attrs::sym_view(*prefix));
                let it = ItemAt { attrs: c as int, n_attrs: (a - c) / 2, vis: a as int, at };
                crate::tokens::lemma_tok_same(o.assoc, body@[at.assoc]);
                assert(assoc_names(opaques@) =~= names.push(ident_text(body@[at.assoc])));
                let old_dos = dos;
                dos = dos.push(it);
                assert(dos.drop_last() =~= old_dos);
                assert(opaque_item_is(body@, o, it, crate::attrs::sym_view(*prefix)));
                assert forall|i: int| 0 <= i < opaques@.len() implies opaque_item_is(
                    body@,
                    #[trigger] opaques@[i],
                    dos[i],
                    crate::attrs::sym_view(*prefix),
                ) by {
                    if i < before.len() {
                        assert(opaques@[i] == before[i]);
                    }
                }
                if let Ok((os, ms)) = items_from(body@, q as int, gspan, crate::attrs::sym_view(*prefix), assoc_names(opaques@)) {
                    assert(old_dos + (seq![it] + os) =~= dos + os);
                }
            }
            c = q;
        } else {
            proof {
                lemma_method_item_same(
                    body@,
                    v as int,
                    n as int,
                    gspan,
                    attrs@,
                    tattrs,
                    ivis@,
                    body@.subrange(a as int, v as int),
                    crate::attrs::sym_view(*prefix),
                );
            }
            let (m, q) = parse_method_item(body, v, n, gspan, &attrs, ivis, prefix)?;
            let ghost before = methods@;
            methods.push(m);
            proof {
                let at = method_item(body@, v as int, n as int, gspan, tattrs, body@.subrange(a as int, v as int), crate::attrs::sym_view(*prefix))->Ok_0;
                let it = ItemAt { attrs: c as int, n_attrs: (a - c) / 2, vis: a as int, at };
                let old_dms = dms;
                dms = dms.push(it);
                assert(method_item_is(body@, m, it, crate::attrs::sym_view(*prefix)));
                assert forall|i: int| 0 <= i < methods@.len() implies method_item_is(
                    body@,
                    #[trigger] methods@[i],
                    dms[i],
                    crate::attrs::sym_view(*prefix),
                ) by {
                    if i < before.len() {
                        assert(methods@[i] == before[i]);
                    }
                }
                if let Ok((os, ms)) = items_from(body@, q as int, gspan, crate::attrs::sym_view(*prefix), assoc_names(opaques@)) {
                    assert(old_dms + (seq![it] + ms) =~= dms + ms);
                }
            }
            c = q;
        }
    }
    proof {
        assert(dos + Seq::<ItemAt<OpaqueAt>>::empty() =~= dos);
        assert(dms + Seq::<ItemAt<MethodAt>>::empty() =~= dms);
    }
    Ok((opaques, methods, junk))
}

/// The declarations and methods are the items `os` and `ms` of `body`.
pub open spec fn items_are(
    body: Seq<Tok>,
    opaques: Seq<OpaqueDecl>,
    methods: Seq<Method>,
    os: Seq<ItemAt<OpaqueAt>>,
    ms: Seq<ItemAt<MethodAt>>,
    prefix: Option<(Seq<char>, u64)>,
) -> bool {
    &&& opaques.len() == os.len()
    &&& methods.len() == ms.len()
    &&& forall|i: int| 0 <= i < opaques.len() ==> opaque_item_is(body, #[trigger] opaques[i], os[i], prefix)
    &&& forall|i: int| 0 <= i < methods.len() ==> method_item_is(body, #[trigger] methods[i], ms[i], prefix)
}

/// Where the parts of a parsed input were written in the tokens `ts`: the trait's
/// attributes first; its name after `trait`; the dispatch type's name after `struct`, its
/// visibility before it and a `;` after it; and at the end `macro NAME(path = PATH);`.
pub open spec fn input_layout(ts: Seq<Tok>, u: UnitraitInput) -> bool {
    let n = ts.len();
    &&& attrs_at(ts, 0, 2 * u.trait_attrs@.len() as int, u.trait_attrs@)
    &&& exists|p: int|
        0 <= p && p + 1 < n && #[trigger] is_ident(ts[p], "trait"@) && tok_view(u.name) == tok_view(
            ts[p + 1],
        )
    &&& exists|p: int|
        0 <= p && p + 2 < n && #[trigger] is_ident(ts[p], "struct"@) && tok_view(u.dispatch)
            == tok_view(ts[p + 1]) && is_punct(ts[p + 2], ';') && toks_view(u.dispatch_vis@)
            == toks_view(ts.subrange(p - u.dispatch_vis@.len(), p))
    &&& n >= 4
    &&& is_ident(ts[n - 4], "macro"@)
    &&& tok_view(u.mac_name) == tok_view(ts[n - 3])
    &&& is_punct(ts[n - 1], ';')
    &&& ts[n - 2] matches Tok::Group { delim: Delim::Paren, body, .. } && {
        &&& body@.len() >= 3
        &&& is_ident(body@[0], "path"@)
        &&& is_punct(body@[1], '=')
        &&& toks_view(u.path@) == toks_view(body@.subrange(2, body@.len() as int))
    }
}

/// Where the parts of the macro's input stand: the index of `trait` (the trait's
/// attributes and visibility come before it), the trait's items, the dispatch type's
/// attributes, the index of `struct`, the implementation macro's doc comments and the
/// index of `macro`.
pub struct InputAt {
    pub trait_kw: int,
    pub items: (Seq<ItemAt<OpaqueAt>>, Seq<ItemAt<MethodAt>>),
    pub dispatch_attrs: int,
    pub struct_kw: int,
    pub mac_attrs: int,
    pub macro_kw: int,
}

pub open spec fn dispatch_help() -> Seq<char> {
    "expected `struct NAME;`, naming the dispatch type callers use to reach the global implementation"@
}

/// The tail of the input from the implementation macro's doc comments at `p5` on.
pub open spec fn macro_line_at(ts: Seq<Tok>, p5: int) -> Result<int, (u64, Seq<char>)> {
    let hi = ts.len() as int;
    match crate::attrs::outer_attrs_end(ts, p5, hi, 0) {
        Err(e) => Err(e),
        Ok(p6) => match crate::attrs::non_doc_err(crate::attrs::attrs_of(ts, p5, (p6 - p5) / 2), 0) {
            Some(e) => Err(e),
            None => if !(0 <= p6 < hi && is_ident(ts[p6], "macro"@)) {
                Err(crate::tokens::err_at(ts, p6, hi, 0, "expected `macro`"@))
            } else if ident_at(ts, p6 + 1, hi, 0) is Some {
                Err(ident_at(ts, p6 + 1, hi, 0)->0)
            } else if p6 + 2 >= hi {
                Err((0, crate::tokens::at_end("expected parentheses"@)))
            } else {
                match ts[p6 + 2] {
                    Tok::Group { delim: Delim::Paren, body: margs, span: mspan } => {
                        let a = margs@;
                        let m = a.len() as int;
                        if ident_at(a, 0, m, mspan) is Some {
                            Err(ident_at(a, 0, m, mspan)->0)
                        } else if !is_ident(a[0], "path"@) {
                            Err((span_of(a[0]), "expected `path = ...`"@))
                        } else if !(1 < m && is_punct(a[1], '=')) {
                            Err(crate::tokens::err_at(a, 1, m, mspan, "expected `=`"@))
                        } else if 2 >= m {
                            Err((mspan, crate::tokens::at_end("expected a path starting with `$crate`"@)))
                        } else if !(p6 + 3 < hi && is_punct(ts[p6 + 3], ';')) {
                            Err(crate::tokens::err_at(ts, p6 + 3, hi, 0, "expected `;`"@))
                        } else {
                            Ok(p6)
                        }
                    },
                    _ => Err((span_of(ts[p6 + 2]), "expected parentheses"@)),
                }
            },
        },
    }
}

/// The dispatch type's line and what follows it, from `p2` on, after a trait named `name`.
pub open spec fn dispatch_line_at(ts: Seq<Tok>, p2: int, name: Seq<char>) -> Result<(int, int), (u64, Seq<char>)> {
    let hi = ts.len() as int;
    match crate::attrs::outer_attrs_end(ts, p2, hi, 0) {
        Err(e) => Err(e),
        Ok(p3) => match vis_at(ts, p3, hi) {
            Err(e) => Err(e),
            Ok(p4) => if !(0 <= p4 < hi && is_ident(ts[p4], "struct"@)) {
                Err(crate::tokens::err_at(ts, p4, hi, 0, dispatch_help()))
            } else if ident_at(ts, p4 + 1, hi, 0) is Some {
                Err(ident_at(ts, p4 + 1, hi, 0)->0)
            } else if !(p4 + 2 < hi && is_punct(ts[p4 + 2], ';')) {
                Err(crate::tokens::err_at(ts, p4 + 2, hi, 0, "expected `;`"@))
            } else if ident_text(ts[p4 + 1]) == name {
                Err((span_of(ts[p4 + 1]), "the dispatch type can't have the same name as the trait"@))
            } else {
                match macro_line_at(ts, p4 + 3) {
                    Err(e) => Err(e),
                    Ok(p6) => Ok((p4, p6)),
                }
            },
        },
    }
}

/// The first token left over inside a `pub(in path ...)` of the opaque declarations `os`.
pub open spec fn items_junk(body: Seq<Tok>, os: Seq<ItemAt<OpaqueAt>>) -> Option<u64>
    decreases os.len(),
{
    if os.len() == 0 {
        None
    } else {
        match items_junk(body, os.drop_last()) {
            Some(s) => Some(s),
            None => vis_junk(body, os.last().vis, body.len() as int),
        }
    }
}

/// The first token left over inside a `pub(in path ...)` of the input: the trait's, an
/// opaque declaration's, or the dispatch type's.
pub open spec fn input_junk(ts: Seq<Tok>, at: InputAt) -> Option<u64> {
    let hi = ts.len() as int;
    let p0 = crate::attrs::outer_attrs_end(ts, 0, hi, 0)->Ok_0;
    let p3 = crate::attrs::outer_attrs_end(ts, at.dispatch_attrs, hi, 0)->Ok_0;
    match vis_junk(ts, p0, hi) {
        Some(s) => Some(s),
        None => match items_junk(crate::tokens::group_body(ts[at.trait_kw + 2]), at.items.0) {
            Some(s) => Some(s),
            None => vis_junk(ts, p3, hi),
        },
    }
}

/// Where the parts of the macro's input `ts` stand, or the first error in it. A token left
/// over inside a `pub(in path ...)`, and then one after the input's end, are reported only
/// once all the rest has been read.
pub open spec fn input_at(ts: Seq<Tok>) -> Result<InputAt, (u64, Seq<char>)> {
    match input_parts_at(ts) {
        Err(e) => Err(e),
        Ok(at) => match input_junk(ts, at) {
            Some(s) => Err((s, "unexpected token, expected `)`"@)),
            None => if at.macro_kw + 4 < ts.len() {
                Err((span_of(ts[at.macro_kw + 4]), "unexpected token"@))
            } else {
                Ok(at)
            },
        },
    }
}

/// Where the parts of the macro's input `ts` stand, or the first error in them.
pub open spec fn input_parts_at(ts: Seq<Tok>) -> Result<InputAt, (u64, Seq<char>)> {
    let hi = ts.len() as int;
    match crate::attrs::outer_attrs_end(ts, 0, hi, 0) {
        Err(e) => Err(e),
        Ok(p0) => {
            let tattrs = crate::attrs::attrs_of(ts, 0, p0 / 2);
            match crate::attrs::trait_attrs_from(tattrs, 0, false) {
                Some(e) => Err(e),
                None => {
                    let prefix = crate::attrs::first_sym(tattrs, "symbol_prefix"@);
                    match vis_at(ts, p0, hi) {
                    Err(e) => Err(e),
                    Ok(p1) => if !(0 <= p1 < hi && is_ident(ts[p1], "trait"@)) {
                        Err(crate::tokens::err_at(ts, p1, hi, 0, "expected `trait`"@))
                    } else if ident_at(ts, p1 + 1, hi, 0) is Some {
                        Err(ident_at(ts, p1 + 1, hi, 0)->0)
                    } else if p1 + 2 >= hi {
                        Err((0, crate::tokens::at_end("expected curly braces"@)))
                    } else {
                        match ts[p1 + 2] {
                            Tok::Group { delim: Delim::Brace, body, span: gspan } => match items_from(
                                body@,
                                0,
                                gspan,
                                prefix,
                                Seq::empty(),
                            ) {
                                Err(e) => Err(e),
                                Ok(items) => match dispatch_line_at(ts, p1 + 3, ident_text(ts[p1 + 1])) {
                                    Err(e) => Err(e),
                                    Ok((p4, p6)) => Ok(
                                        InputAt {
                                            trait_kw: p1,
                                            items,
                                            dispatch_attrs: p1 + 3,
                                            struct_kw: p4,
                                            mac_attrs: p4 + 3,
                                            macro_kw: p6,
                                        },
                                    ),
                                },
                            },
                            _ => Err((span_of(ts[p1 + 2]), "expected curly braces"@)),
                        }
                    },
                    }
                },
            }
        },
    }
}

/// The parsed input `u` is the one whose parts stand at `at` in `ts`: every part of it is
/// what is written there.
pub open spec fn input_is(ts: Seq<Tok>, u: UnitraitInput, at: InputAt) -> bool {
    let hi = ts.len() as int;
    let p0 = crate::attrs::outer_attrs_end(ts, 0, hi, 0)->Ok_0;
    let tattrs = crate::attrs::attrs_of(ts, 0, p0 / 2);
    let p3 = crate::attrs::outer_attrs_end(ts, at.dispatch_attrs, hi, 0)->Ok_0;
    let body = crate::tokens::group_body(ts[at.trait_kw + 2]);
    let margs = crate::tokens::group_body(ts[at.macro_kw + 2]);
    &&& attrs_toks(u.trait_docs@) == doc_attrs(tattrs)
    &&& crate::attrs::sym_view(u.symbol_prefix) == crate::attrs::first_sym(tattrs, "symbol_prefix"@)
    &&& toks_view(u.vis@) == toks_view(ts.subrange(p0, at.trait_kw))
    &&& tok_view(u.name) == tok_view(ts[at.trait_kw + 1])
    &&& items_are(body, u.opaques@, u.methods@, at.items.0, at.items.1, crate::attrs::sym_view(u.symbol_prefix))
    &&& attrs_toks(u.dispatch_attrs@) == attrs_toks(
        crate::attrs::attrs_of(ts, at.dispatch_attrs, (p3 - at.dispatch_attrs) / 2),
    )
    &&& toks_view(u.dispatch_vis@) == toks_view(ts.subrange(p3, at.struct_kw))
    &&& tok_view(u.dispatch) == tok_view(ts[at.struct_kw + 1])
    &&& attrs_toks(u.mac_docs@) == attrs_toks(
        crate::attrs::attrs_of(ts, at.mac_attrs, (at.macro_kw - at.mac_attrs) / 2),
    )
    &&& tok_view(u.mac_name) == tok_view(ts[at.macro_kw + 1])
    &&& toks_view(u.path@) == toks_view(margs.subrange(2, margs.len() as int))
}

impl UnitraitInput {
    /// Parses the macro's input:
    ///
    /// ```text
    /// [doc comments] [#[symbol_prefix = "..."]] VIS trait NAME { ITEMS }
    /// [attributes] VIS struct DISPATCH;
    /// [doc comments] macro MAC(path = PATH);
    /// ```
    #[verifier::rlimit(60)]
    pub fn parse(ts: &Vec<Tok>) -> (r: Result<UnitraitInput, Error>)
        ensures
            r matches Ok(u) ==> input_wf(u),
            r matches Ok(u) ==> input_layout(ts@, u),
            match input_at(ts@) {
                Ok(at) => r matches Ok(u) && input_is(ts@, u, at),
                Err(e) => r matches Err(x) && x@ == e,
            },
    {
        let hi = ts.len();
        let end: u64 = 0;
        let (attrs, p) = parse_outer_attrs(ts, 0, hi, end)?;
        let ghost p0 = p as int;
        let ghost tattrs = crate::attrs::attrs_of(ts@, 0, p0 / 2);
        proof {
            crate::attrs::lemma_attrs_at_same(ts@, 0, p0, attrs@);
            crate::attrs::lemma_trait_attrs_same(attrs@, tattrs, 0, false);
            crate::attrs::lemma_first_sym_same(attrs@, tattrs, "symbol_prefix"@);
            crate::attrs::lemma_doc_attrs_same(attrs@, tattrs);
        }
        let (trait_docs, symbol_prefix) = split_trait_attrs(&attrs)?;
        let ghost prefix = crate::attrs::sym_view(symbol_prefix);
        let (vis, p, trait_junk) = parse_vis(ts, p, hi)?;
        let ghost trait_at = p as int;
        let p = expect_keyword(ts, p, hi, end, "trait", "expected `trait`")?;
        let name = parse_ident(ts, p, hi, end)?;
        let p = p + 1;
        let (body, gspan) = if p < hi {
            match &ts[p] {
                Tok::Group { delim: Delim::Brace, body, span } => (body, *span),
                _ => {
                    return Err(Error::new(tok_span(&ts[p]), "expected curly braces"));
                },
            }
        } else {
            return Err(Error::new_at_end(end, "expected curly braces"));
        };
        let p = p + 1;
        let (mut opaques, methods, items_junk_span) = parse_trait_body(body, gspan, &symbol_prefix)?;
        let ghost items = items_from(body@, 0, gspan, prefix, Seq::empty())->Ok_0;
        let ghost p2 = p as int;
        proof {
            assert(crate::tokens::group_body(ts@[trait_at + 2]) == body@);
            assert(input_parts_at(ts@) == match dispatch_line_at(ts@, p2, ident_text(ts@[trait_at + 1])) {
                Err(e) => Err(e),
                Ok((p4, p6)) => Ok::<InputAt, (u64, Seq<char>)>(
                    InputAt {
                        trait_kw: trait_at,
                        items,
                        dispatch_attrs: p2,
                        struct_kw: p4,
                        mac_attrs: p4 + 3,
                        macro_kw: p6,
                    },
                ),
            });
        }

        let (dispatch_attrs, p) = parse_outer_attrs(ts, p, hi, end)?;
        let ghost vis_at = p as int;
        let (dispatch_vis, p, dispatch_junk) = parse_vis(ts, p, hi)?;
        let ghost struct_at = p as int;
        proof {
            crate::tokens::lemma_toks_view(dispatch_vis@);
            crate::tokens::lemma_toks_view(ts@.subrange(vis_at, struct_at));
        }
        if !(p < hi && tok_is_ident(&ts[p], "struct")) {
            return Err(
                crate::out::error_at(
                    ts,
                    p,
                    hi,
                    end,
                    "expected `struct NAME;`, naming the dispatch type callers use to reach the global implementation",
                ),
            );
        }
        let p = p + 1;
        let dispatch = parse_ident(ts, p, hi, end)?;
        let p = expect_punct(ts, p + 1, hi, end, ';', "expected `;`")?;
        let (dispatch_text, dispatch_span) = match &dispatch {
            Tok::Ident { text, span } => (text.clone(), *span),
            _ => (String::new(), 0),
        };
        let same = match &name {
            Tok::Ident { text, .. } => text_eq(text, dispatch_text.as_str()),
            _ => false,
        };
        if same {
            return Err(
                Error::new(dispatch_span, "the dispatch type can't have the same name as the trait"),
            );
        }
        let ghost p5 = p as int;
        proof {
            crate::tokens::lemma_tok_same(name, ts@[trait_at + 1]);
            crate::tokens::lemma_tok_same(dispatch, ts@[struct_at + 1]);
            assert(input_parts_at(ts@) == match macro_line_at(ts@, p5) {
                Err(e) => Err(e),
                Ok(p6) => Ok::<InputAt, (u64, Seq<char>)>(
                    InputAt {
                        trait_kw: trait_at,
                        items,
                        dispatch_attrs: p2,
                        struct_kw: struct_at,
                        mac_attrs: p5,
                        macro_kw: p6,
                    },
                ),
            });
        }
        // The opaque structs are named after the dispatch type.
        let mut i: usize = 0;
        while i < opaques.len()
            invariant
                i <= opaques.len(),
                input_parts_at(ts@) == match macro_line_at(ts@, p5) {
                    Err(e) => Err(e),
                    Ok(p6) => Ok::<InputAt, (u64, Seq<char>)>(
                        InputAt {
                            trait_kw: trait_at,
                            items,
                            dispatch_attrs: p2,
                            struct_kw: struct_at,
                            mac_attrs: p5,
                            macro_kw: p6,
                        },
                    ),
                },
                items_are(body@, opaques@, methods@, items.0, items.1, prefix),
                forall|k: int| 0 <= k < opaques@.len() ==> opaque_wf(#[trigger] opaques@[k]),
                forall|k: int, j: int|
                    0 <= k < j < opaques@.len() ==> name_of((#[trigger] opaques@[k]).assoc)
                        != name_of((#[trigger] opaques@[j]).assoc),
                forall|k: int|
                    0 <= k < i ==> (#[trigger] opaques@[k]).opaque@ == unraw(dispatch_text@)
                        + unraw(name_of(opaques@[k].assoc)),
                forall|k: int|
                    0 <= k < opaques@.len() ==> opaque_symbols_wf(#[trigger] opaques@[k], symbol_prefix),
            decreases opaques.len() - i,
        {
            let mut full = unraw_str(dispatch_text.as_str());
            match &opaques[i].assoc {
                Tok::Ident { text, .. } => full.append(unraw_str(text.as_str()).as_str()),
                _ => {},
            }
            let ghost before = opaques@;
            opaques[i].opaque = full;
            proof {
                assert forall|k: int, j: int|
                    0 <= k < j < opaques@.len() implies name_of((#[trigger] opaques@[k]).assoc)
                    != name_of((#[trigger] opaques@[j]).assoc) by {
                    assert(opaques@[k].assoc == before[k].assoc);
                    assert(opaques@[j].assoc == before[j].assoc);
                }
                assert forall|k: int| 0 <= k < opaques@.len() implies opaque_wf(#[trigger] opaques@[k]) by {
                    assert(opaque_wf(before[k]));
                }
                assert forall|k: int| 0 <= k < opaques@.len() implies opaque_symbols_wf(#[trigger] opaques@[k], symbol_prefix) by {
                    assert(opaque_symbols_wf(before[k], symbol_prefix));
                }
                assert forall|k: int| 0 <= k < opaques@.len() implies opaque_item_is(
                    body@,
                    #[trigger] opaques@[k],
                    items.0[k],
                    prefix,
                ) by {
                    assert(opaque_item_is(body@, before[k], items.0[k], prefix));
                }
            }
            i += 1;
        }

        let (mac_attrs, p) = parse_outer_attrs(ts, p, hi, end)?;
        let ghost mattrs = crate::attrs::attrs_of(ts@, p5, (p - p5) / 2);
        proof {
            crate::attrs::lemma_attrs_at_same(ts@, p5, p as int, mac_attrs@);
            crate::attrs::lemma_non_doc_same(mac_attrs@, mattrs, 0);
            assert(attrs_toks(mac_attrs@) =~= attrs_toks(mattrs));
        }
        let mac_docs = only_docs(mac_attrs)?;
        let ghost macro_at = p as int;
        let p = expect_keyword(ts, p, hi, end, "macro", "expected `macro`")?;
        let mac_name = parse_ident(ts, p, hi, end)?;
        let p = p + 1;
        let (margs, mspan) = if p < hi {
            match &ts[p] {
                Tok::Group { delim: Delim::Paren, body, span } => (body, *span),
                _ => {
                    return Err(Error::new(tok_span(&ts[p]), "expected parentheses"));
                },
            }
        } else {
            return Err(Error::new_at_end(end, "expected parentheses"));
        };
        let m = margs.len();
        let path_kw = parse_ident(margs, 0, m, mspan)?;
        if !tok_is_ident(&path_kw, "path") {
            return Err(Error::new(tok_span(&path_kw), "expected `path = ...`"));
        }
        let q = expect_punct(margs, 1, m, mspan, '=', "expected `=`")?;
        if q >= m {
            return Err(Error::new_at_end(mspan, "expected a path starting with `$crate`"));
        }
        let path = copy_toks(margs, q, m);
        let p = expect_punct(ts, p + 1, hi, end, ';', "expected `;`")?;
        let junk = match trait_junk {
            Some(s) => Some(s),
            None => match items_junk_span {
                Some(s) => Some(s),
                None => dispatch_junk,
            },
        };
        if let Some(s) = junk {
            return Err(Error::new(s, "unexpected token, expected `)`"));
        }
        if p < hi {
            return Err(Error::new(tok_span(&ts[p]), "unexpected token"));
        }
        let u = UnitraitInput {
            trait_attrs: Ghost(attrs@),
            trait_docs,
            symbol_prefix,
            vis,
            name,
            opaques,
            methods,
            dispatch_attrs,
            dispatch_vis,
            dispatch,
            mac_docs,
            mac_name,
            path,
        };
        proof {
            crate::tokens::lemma_toks_view(u.path@);
            crate::tokens::lemma_toks_view(margs@.subrange(q as int, m as int));
            assert(macro_at == hi - 4);
            assert(is_ident(ts@[trait_at], "trait"@));
            assert(is_ident(ts@[struct_at], "struct"@));
            assert(tok_view(path_kw) == tok_view(margs@[0]));
            assert(is_ident(margs@[0], "path"@));
            let at = InputAt {
                trait_kw: trait_at,
                items,
                dispatch_attrs: p2,
                struct_kw: struct_at,
                mac_attrs: p5,
                macro_kw: macro_at,
            };
            assert(macro_line_at(ts@, p5) == Ok::<int, (u64, Seq<char>)>(macro_at));
            assert(input_parts_at(ts@) == Ok::<InputAt, (u64, Seq<char>)>(at));
            assert(input_at(ts@) == Ok::<InputAt, (u64, Seq<char>)>(at));
            assert(crate::attrs::outer_attrs_end(ts@, 0, hi as int, 0)->Ok_0 == p0);
            assert(attrs_toks(u.trait_docs@) == doc_attrs(tattrs));
            assert(crate::attrs::sym_view(u.symbol_prefix) == crate::attrs::first_sym(tattrs, "symbol_prefix"@));
            assert(toks_view(u.vis@) == toks_view(ts@.subrange(p0, at.trait_kw)));
            assert(tok_view(u.name) == tok_view(ts@[at.trait_kw + 1]));
            assert(items_are(crate::tokens::group_body(ts@[at.trait_kw + 2]), u.opaques@, u.methods@, at.items.0, at.items.1, crate::attrs::sym_view(u.symbol_prefix)));
            assert(crate::attrs::outer_attrs_end(ts@, p2, hi as int, 0)->Ok_0 == vis_at);
            crate::attrs::lemma_attrs_at_same(ts@, p2, vis_at, dispatch_attrs@);
            assert(attrs_toks(u.dispatch_attrs@) =~= attrs_toks(crate::attrs::attrs_of(ts@, p2, (vis_at - p2) / 2)));
            assert(toks_view(u.dispatch_vis@) == toks_view(ts@.subrange(vis_at, at.struct_kw)));
            assert(tok_view(u.dispatch) == tok_view(ts@[at.struct_kw + 1]));
            assert(attrs_toks(u.mac_docs@) == attrs_toks(crate::attrs::attrs_of(ts@, at.mac_attrs, (at.macro_kw - at.mac_attrs) / 2)));
            assert(tok_view(u.mac_name) == tok_view(ts@[at.macro_kw + 1]));
            assert(crate::tokens::group_body(ts@[at.macro_kw + 2]) == margs@);
            assert(toks_view(u.path@) == toks_view(margs@.subrange(2, margs@.len() as int)));
            assert(input_layout(ts@, u));
        }
        Ok(u)
    }
}

} // verus!

verus! {

/// Declarations read alike but for the copies of the tokens of their layouts.
pub open spec fn opaque_at_same(a: OpaqueAt, b: OpaqueAt) -> bool {
    &&& a.assoc == b.assoc
    &&& a.markers == b.markers
    &&& a.drop == b.drop
    &&& a.clone == b.clone
    &&& crate::attrs::srcs_same(a.srcs, b.srcs)
    &&& a.end == b.end
}

/// A method reads the same under attributes and a visibility alike.
pub proof fn lemma_method_item_same(
    ts: Seq<Tok>,
    p: int,
    hi: int,
    end: u64,
    x: Seq<Attr>,
    y: Seq<Attr>,
    v1: Seq<Tok>,
    v2: Seq<Tok>,
    prefix: Option<(Seq<char>, u64)>,
)
    requires
        crate::attrs::attrs_same(x, y),
        toks_view(v1) == toks_view(v2),
    ensures
        method_item(ts, p, hi, end, x, v1, prefix) == method_item(ts, p, hi, end, y, v2, prefix),
        method_symbol_of(x, prefix, ts[p]) == method_symbol_of(y, prefix, ts[p]),
        forall|t: Tok| method_symbol_of(x, prefix, t) == method_symbol_of(y, prefix, t),
{
    crate::attrs::lemma_item_attrs_same(x, y, 0, false, false, false, false);
    crate::attrs::lemma_first_sym_same(x, y, "symbol"@);
    crate::attrs::lemma_first_sym_same(x, y, "drop_symbol"@);
    crate::attrs::lemma_first_sym_same(x, y, "clone_symbol"@);
    crate::tokens::lemma_toks_same(v1, v2);
    if v1.len() > 0 {
        crate::tokens::lemma_tok_same(v1[0], v2[0]);
        let b1 = crate::tokens::group_body(v1[0]);
        let b2 = crate::tokens::group_body(v2[0]);
        crate::tokens::lemma_toks_same(b1, b2);
        if b1.len() > 0 {
            crate::tokens::lemma_tok_same(b1[0], b2[0]);
        }
        assert(vis_written(v1) == vis_written(v2));
        assert(vis_span(v1) == vis_span(v2));
    }
}

/// A declaration reads alike under attributes alike.
pub proof fn lemma_opaque_item_same(
    ts: Seq<Tok>,
    p: int,
    hi: int,
    end: u64,
    x: Seq<Attr>,
    y: Seq<Attr>,
    seen: Seq<Seq<char>>,
    prefix: Option<(Seq<char>, u64)>,
)
    requires
        crate::attrs::attrs_same(x, y),
    ensures
        match (opaque_item(ts, p, hi, end, x, seen, prefix), opaque_item(ts, p, hi, end, y, seen, prefix)) {
            (Ok(a), Ok(b)) => opaque_at_same(a, b),
            (Err(e), Err(f)) => e == f,
            _ => false,
        },
{
    crate::attrs::lemma_item_attrs_same(x, y, 0, false, false, false, false);
    crate::attrs::lemma_first_sym_same(x, y, "symbol"@);
    crate::attrs::lemma_first_sym_same(x, y, "drop_symbol"@);
    crate::attrs::lemma_first_sym_same(x, y, "clone_symbol"@);
}

/// What holds of a declaration read under some attributes holds under attributes alike.
pub proof fn lemma_opaque_is_same(
    ts: Seq<Tok>,
    o: OpaqueDecl,
    a: OpaqueAt,
    b: OpaqueAt,
    x: Seq<Attr>,
    y: Seq<Attr>,
    prefix: Option<(Seq<char>, u64)>,
)
    requires
        opaque_is(ts, o, a, x, prefix),
        opaque_at_same(a, b),
        crate::attrs::attrs_same(x, y),
    ensures
        opaque_is(ts, o, b, y, prefix),
{
    crate::attrs::lemma_first_sym_same(x, y, "drop_symbol"@);
    crate::attrs::lemma_first_sym_same(x, y, "clone_symbol"@);
    assert forall|k: int| 0 <= k < o.layouts@.len() implies crate::attrs::layout_from(
        #[trigger] o.layouts@[k],
        b.srcs[k],
    ) by {
        assert(crate::attrs::layout_from(o.layouts@[k], a.srcs[k]));
        assert(crate::attrs::src_same(a.srcs[k], b.srcs[k]));
        crate::attrs::lemma_layout_from_same(o.layouts@[k], a.srcs[k], b.srcs[k]);
    }
}

} // verus!
