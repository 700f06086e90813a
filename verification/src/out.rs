//! The token trees the macro emits, and its errors.
use vstd::prelude::*;

use crate::tokens::{Delim, Tok, TokV, tok_view};

verus! {

/// An emitted token tree. `span` says where the compiler should report problems with it; a
/// span the input never used stands for the macro's call site.
#[derive(Debug)]
pub enum Out {
    /// Fixed source text, made of whole token trees.
    Text(&'static str, u64),
    /// A token of the input, emitted as it was written.
    Tok(Tok),
    /// An identifier the macro makes up.
    Ident(String, u64),
    /// A string literal with the given value.
    Str(String, u64),
    /// An unsuffixed integer literal.
    Int(usize, u64),
    /// A delimited group.
    Group(Delim, Vec<Out>, u64),
}

/// The mathematical value of an emitted token tree.
pub enum OutV {
    Text(Seq<char>, u64),
    Tok(TokV),
    Ident(Seq<char>, u64),
    Str(Seq<char>, u64),
    Int(usize, u64),
    Group(Delim, Seq<OutV>, u64),
}

pub open spec fn out_view(o: Out) -> OutV
    decreases o,
{
    match o {
        Out::Text(s, span) => OutV::Text(s@, span),
        Out::Tok(t) => OutV::Tok(tok_view(t)),
        Out::Ident(s, span) => OutV::Ident(s@, span),
        Out::Str(s, span) => OutV::Str(s@, span),
        Out::Int(n, span) => OutV::Int(n, span),
        Out::Group(d, body, span) => {
            proof {
                assert(decreases_to!(body => body@)) by {
                    broadcast use vstd::std_specs::vec::axiom_vec_decreases_to_view;
                }
            }
            OutV::Group(d, outs_view(body@), span)
        },
    }
}

pub open spec fn outs_view(s: Seq<Out>) -> Seq<OutV>
    decreases s,
{
    if s.len() == 0 {
        Seq::empty()
    } else {
        outs_view(s.drop_last()).push(out_view(s.last()))
    }
}

impl View for Out {
    type V = OutV;

    open spec fn view(&self) -> OutV {
        out_view(*self)
    }
}

/// Input tokens, emitted as written.
pub open spec fn toks_out(v: Seq<TokV>) -> Seq<OutV> {
    v.map_values(|t: TokV| OutV::Tok(t))
}

/// Fixed source text reported at `span`.
pub open spec fn text_v(s: Seq<char>, span: u64) -> OutV {
    OutV::Text(s, span)
}

pub proof fn lemma_outs_view_push(s: Seq<Out>, o: Out)
    ensures
        outs_view(s.push(o)) == outs_view(s).push(out_view(o)),
{
    assert(s.push(o).drop_last() =~= s);
}

/// Appends one token tree.
pub fn emit(out: &mut Vec<Out>, o: Out)
    ensures
        outs_view(final(out)@) == outs_view(old(out)@).push(out_view(o)),
{
    proof {
        lemma_outs_view_push(out@, o);
    }
    out.push(o);
}

/// A list of one token tree.
pub fn single(o: Out) -> (r: Vec<Out>)
    ensures
        outs_view(r@) == seq![out_view(o)],
{
    let mut r: Vec<Out> = Vec::new();
    emit(&mut r, o);
    assert(outs_view(r@) =~= seq![out_view(o)]);
    r
}

/// Appends fixed source text.
pub fn emit_text(out: &mut Vec<Out>, s: &'static str, span: u64)
    ensures
        outs_view(final(out)@) == outs_view(old(out)@).push(OutV::Text(s@, span)),
{
    emit(out, Out::Text(s, span));
}

/// Appends a group around the tree list `body`.
pub fn emit_group(out: &mut Vec<Out>, d: Delim, body: Vec<Out>, span: u64)
    ensures
        outs_view(final(out)@) == outs_view(old(out)@).push(OutV::Group(d, outs_view(body@), span)),
{
    emit(out, Out::Group(d, body, span));
}

/// Appends every tree of `more`, in order.
pub fn emit_all(out: &mut Vec<Out>, more: Vec<Out>)
    ensures
        outs_view(final(out)@) == outs_view(old(out)@) + outs_view(more@),
{
    let mut more = more;
    let ghost all = more@;
    let mut rev: Vec<Out> = Vec::new();
    // Reverse once, then pop to keep the order without cloning.
    while more.len() > 0
        invariant
            all == more@ + rev@.reverse(),
        decreases more.len(),
    {
        let o = more.pop().unwrap();
        let ghost m = more@;
        rev.push(o);
        proof {
            assert(all =~= more@ + rev@.reverse());
        }
    }
    let ghost start = out@;
    while rev.len() > 0
        invariant
            all == out@.subrange(start.len() as int, out@.len() as int) + rev@.reverse(),
            out@.subrange(0, start.len() as int) == start,
            start.len() <= out@.len(),
        decreases rev.len(),
    {
        let o = rev.pop().unwrap();
        out.push(o);
        proof {
            assert(all =~= out@.subrange(start.len() as int, out@.len() as int) + rev@.reverse());
            assert(out@.subrange(0, start.len() as int) =~= start);
        }
    }
    proof {
        assert(out@ =~= start + all);
        lemma_outs_view_concat(start, all);
    }
}

pub proof fn lemma_outs_view_concat(a: Seq<Out>, b: Seq<Out>)
    ensures
        outs_view(a + b) == outs_view(a) + outs_view(b),
    decreases b.len(),
{
    if b.len() == 0 {
        assert(a + b =~= a);
        assert(outs_view(b) =~= Seq::<OutV>::empty());
        assert(outs_view(a) + outs_view(b) =~= outs_view(a));
    } else {
        lemma_outs_view_concat(a, b.drop_last());
        assert((a + b).drop_last() =~= a + b.drop_last());
        assert((a + b).last() == b.last());
        assert(outs_view(a) + outs_view(b) =~= (outs_view(a) + outs_view(b.drop_last())).push(out_view(b.last())));
    }
}

/// An error, with where to report it.
#[derive(Debug)]
pub struct Error {
    pub span: u64,
    pub message: String,
}

/// The value of an error: where, and what.
pub open spec fn err(span: u64, message: Seq<char>) -> (u64, Seq<char>) {
    (span, message)
}

impl View for Error {
    type V = (u64, Seq<char>);

    open spec fn view(&self) -> (u64, Seq<char>) {
        (self.span, self.message@)
    }
}

/// The error a parser raises at `ts[i]` of `ts[..hi]`, or at `end` when the range is empty.
pub fn error_at(ts: &Vec<Tok>, i: usize, hi: usize, end: u64, m: &str) -> (r: Error)
    requires
        hi <= ts.len(),
    ensures
        r@ == crate::tokens::err_at(ts@, i as int, hi as int, end, m@),
{
    if i < hi {
        Error::new(crate::tokens::tok_span(&ts[i]), m)
    } else {
        Error::new_at_end(end, m)
    }
}

impl Error {
    /// An error with a fixed message.
    pub fn new(span: u64, message: &str) -> (r: Error)
        ensures
            r@ == (span, message@),
    {
        Error { span, message: String::from_str(message) }
    }

    /// An error at `span` saying that the tokens ran out where `message` was expected.
    pub fn new_at_end(span: u64, message: &str) -> (r: Error)
        ensures
            r@ == (span, crate::tokens::at_end(message@)),
    {
        let mut m = String::from_str("unexpected end of input, ");
        m.append(message);
        Error { span, message: m }
    }
}

} // verus!
