//! Spelling a classified type slot on either side of the extern symbol.
use vstd::prelude::*;

use crate::input::UnitraitInput;
use crate::bounds::ident_text;
use crate::out::{
    Out, OutV, emit, emit_all, emit_group, emit_text, out_view, outs_view, text_v, toks_out,
};
use crate::shape::{Mode, Shape};
use crate::tokens::{Delim, Tok, copy_tok, tok_view, toks_view};

verus! {

/// An emitted token made of fixed source text, at the call site.
pub fn txt(s: &'static str) -> (r: Out)
    ensures
        r == Out::Text(s, 0),
{
    Out::Text(s, 0)
}

/// Fixed source text reported at `span`.
pub fn txt_at(s: &'static str, span: u64) -> (r: Out)
    ensures
        r == Out::Text(s, span),
{
    Out::Text(s, span)
}

/// A group at the call site.
pub fn grp(d: Delim, body: Vec<Out>) -> (r: Out)
    ensures
        out_view(r) == OutV::Group(d, outs_view(body@), 0),
{
    Out::Group(d, body, 0)
}

/// A copy of an input token, to emit.
pub fn tok(t: &Tok) -> (r: Out)
    ensures
        out_view(r) == OutV::Tok(tok_view(*t)),
{
    Out::Tok(copy_tok(t))
}

/// Emits copies of the input tokens `ts`.
pub fn emit_toks(out: &mut Vec<Out>, ts: &Vec<Tok>)
    ensures
        outs_view(final(out)@) == outs_view(old(out)@) + toks_out(toks_view(ts@)),
{
    let ghost start = outs_view(out@);
    proof {
        crate::tokens::lemma_toks_view(ts@);
    }
    let mut i: usize = 0;
    while i < ts.len()
        invariant
            i <= ts.len(),
            toks_view(ts@).len() == ts@.len(),
            forall|k: int| 0 <= k < ts@.len() ==> #[trigger] toks_view(ts@)[k] == tok_view(ts@[k]),
            outs_view(out@) == start + toks_out(toks_view(ts@)).take(i as int),
        decreases ts.len() - i,
    {
        emit(out, tok(&ts[i]));
        proof {
            assert(toks_out(toks_view(ts@)).take(i + 1) =~= toks_out(toks_view(ts@)).take(
                i as int,
            ).push(OutV::Tok(tok_view(ts@[i as int]))));
        }
        i += 1;
    }
    proof {
        assert(toks_out(toks_view(ts@)).take(ts@.len() as int) =~= toks_out(toks_view(ts@)));
    }
}

/// The text of an identifier token.
pub fn ident_string(t: &Tok) -> (r: String)
    ensures
        r@ == ident_text(*t),
{
    match t {
        Tok::Ident { text, .. } => text.clone(),
        _ => String::new(),
    }
}

/// How an opaque leaf of a shape is spelled.
pub enum Leaf<'a> {
    /// In the trait declaration: `Self::Name`.
    Trait,
    /// On the defining crate's side: the opaque struct by its bare name.
    Caller,
    /// In the implementation macro: the opaque struct through the user-supplied path.
    Impl,
    /// The implementation's own associated type: `<TIMPL as TRAIT>::Name`.
    Real(&'a Vec<Out>, &'a Vec<Out>),
}

/// Emits a copy of a list of emitted tokens.
pub fn copy_outs(v: &Vec<Out>) -> (r: Vec<Out>)
    ensures
        outs_view(r@) == outs_view(v@),
{
    let mut r: Vec<Out> = Vec::new();
    let mut i: usize = 0;
    while i < v.len()
        invariant
            i <= v.len(),
            outs_view(r@) == outs_view(v@.take(i as int)),
        decreases v.len() - i,
    {
        let c = copy_out(&v[i]);
        let ghost before = r@;
        r.push(c);
        proof {
            crate::out::lemma_outs_view_push(before, c);
            crate::out::lemma_outs_view_push(v@.take(i as int), v@[i as int]);
            assert(v@.take(i + 1) =~= v@.take(i as int).push(v@[i as int]));
        }
        i += 1;
    }
    proof {
        assert(v@.take(v@.len() as int) =~= v@);
    }
    r
}

/// A deep copy of an emitted token tree.
pub fn copy_out(o: &Out) -> (r: Out)
    ensures
        out_view(r) == out_view(*o),
    decreases o,
{
    match o {
        Out::Text(s, span) => Out::Text(s, *span),
        Out::Tok(t) => Out::Tok(copy_tok(t)),
        Out::Ident(s, span) => Out::Ident(s.clone(), *span),
        Out::Str(s, span) => Out::Str(s.clone(), *span),
        Out::Int(n, span) => Out::Int(*n, *span),
        Out::Group(d, body, span) => {
            let mut r: Vec<Out> = Vec::new();
            let mut i: usize = 0;
            while i < body.len()
                invariant
                    i <= body.len(),
                    decreases_to!(o => body),
                    outs_view(r@) == outs_view(body@.take(i as int)),
                decreases body.len() - i,
            {
                proof {
                    assert(decreases_to!(body => body@[i as int])) by {
                        broadcast use vstd::std_specs::vec::axiom_vec_index_decreases;
                    }
                }
                let c = copy_out(&body[i]);
                let ghost before = r@;
                r.push(c);
                proof {
                    crate::out::lemma_outs_view_push(before, c);
                    crate::out::lemma_outs_view_push(body@.take(i as int), body@[i as int]);
                    assert(body@.take(i + 1) =~= body@.take(i as int).push(body@[i as int]));
                }
                i += 1;
            }
            proof {
                assert(body@.take(body@.len() as int) =~= body@);
            }
            Out::Group(*d, r, *span)
        },
    }
}

/// How the `i`-th opaque leaf of a shape is spelled, reported at `span`.
pub open spec fn leaf_view(u: UnitraitInput, leaf: Leaf, i: int, span: u64) -> Seq<OutV> {
    match leaf {
        Leaf::Trait => seq![
            text_v("Self::"@, span),
            OutV::Ident(ident_text(u.opaques@[i].assoc), span),
        ],
        Leaf::Caller => seq![OutV::Ident(u.opaques@[i].opaque@, span)],
        Leaf::Impl => toks_out(toks_view(u.path@)) + seq![
            text_v("::"@, span),
            OutV::Ident(u.opaques@[i].opaque@, span),
        ],
        Leaf::Real(timpl, trait_qpath) => seq![text_v("<"@, 0)] + outs_view(timpl@) + seq![
            text_v("as"@, 0),
        ] + outs_view(trait_qpath@) + seq![
            text_v(">::"@, 0),
            OutV::Ident(ident_text(u.opaques@[i].assoc), 0),
        ],
    }
}

/// The spelling of a shape: each opaque leaf as `leaf` says, wrapped in `&`, `&mut` or
/// `::core::pin::Pin<..>` as its mode says; `Option` and `Result` around opaque types by
/// their absolute `core` paths; tuples and arrays rebuilt around their elements; plain
/// types as written.
pub open spec fn shape_view(u: UnitraitInput, s: Shape, leaf: Leaf) -> Seq<OutV>
    decreases s,
{
    match s {
        Shape::Plain(ty) => toks_out(toks_view(ty@)),
        Shape::Opaque { index, mode, span } => {
            let l = leaf_view(u, leaf, index as int, span);
            match mode {
                Mode::Value => l,
                Mode::Ref => seq![text_v("&"@, span)] + l,
                Mode::RefMut => seq![text_v("&mut"@, span)] + l,
                Mode::PinRef => seq![text_v("::core::pin::Pin<&"@, span)] + l + seq![
                    text_v(">"@, span),
                ],
                Mode::PinRefMut => seq![text_v("::core::pin::Pin<&mut"@, span)] + l + seq![
                    text_v(">"@, span),
                ],
            }
        },
        Shape::Option(span, inner) => seq![text_v("::core::option::Option<"@, span)] + shape_view(
            u,
            *inner,
            leaf,
        ) + seq![text_v(">"@, span)],
        Shape::Result(span, ok, err) => seq![text_v("::core::result::Result<"@, span)]
            + shape_view(u, *ok, leaf) + seq![text_v(","@, span)] + shape_view(u, *err, leaf)
            + seq![text_v(">"@, span)],
        Shape::Tuple(span, elems) => {
            proof {
                assert(decreases_to!(elems => elems@)) by {
                    broadcast use vstd::std_specs::vec::axiom_vec_decreases_to_view;
                }
            }
            seq![OutV::Group(Delim::Paren, elems_view(u, elems@, leaf, span), span)]
        },
        Shape::Array(span, elem, len) => seq![
            OutV::Group(
                Delim::Bracket,
                shape_view(u, *elem, leaf) + seq![text_v(";"@, span)] + toks_out(toks_view(len@)),
                span,
            ),
        ],
    }
}

/// The elements of a tuple, each followed by a comma reported at `span`.
pub open spec fn elems_view(u: UnitraitInput, s: Seq<Shape>, leaf: Leaf, span: u64) -> Seq<OutV>
    decreases s,
{
    if s.len() == 0 {
        Seq::empty()
    } else {
        elems_view(u, s.drop_last(), leaf, span) + shape_view(u, s.last(), leaf) + seq![
            text_v(","@, span),
        ]
    }
}

impl UnitraitInput {
    /// The opaque struct of the `i`-th opaque type, as an identifier reported at `span`.
    pub fn opaque_ident(&self, i: usize, span: u64) -> (r: Out)
        requires
            i < self.opaques@.len(),
        ensures
            out_view(r) == OutV::Ident(self.opaques@[i as int].opaque@, span),
    {
        Out::Ident(self.opaques[i].opaque.clone(), span)
    }

    /// The associated type's name of the `i`-th opaque type, reported at `span`.
    pub fn assoc_ident(&self, i: usize, span: u64) -> (r: Out)
        requires
            i < self.opaques@.len(),
        ensures
            out_view(r) == OutV::Ident(ident_text(self.opaques@[i as int].assoc), span),
    {
        Out::Ident(ident_string(&self.opaques[i].assoc), span)
    }

    /// Emits the spelling of the `i`-th opaque leaf.
    fn emit_leaf(&self, out: &mut Vec<Out>, leaf: &Leaf, i: usize, span: u64)
        requires
            i < self.opaques@.len(),
        ensures
            outs_view(final(out)@) == outs_view(old(out)@) + leaf_view(*self, *leaf, i as int, span),
    {
        match leaf {
            Leaf::Trait => {
                emit_text(out, "Self::", span);
                emit(out, self.assoc_ident(i, span));
            },
            Leaf::Caller => {
                emit(out, self.opaque_ident(i, span));
            },
            Leaf::Impl => {
                emit_toks(out, &self.path);
                emit_text(out, "::", span);
                emit(out, self.opaque_ident(i, span));
            },
            Leaf::Real(timpl, trait_qpath) => {
                let mut inner = copy_outs(timpl);
                emit_text(&mut inner, "as", 0);
                emit_all(&mut inner, copy_outs(trait_qpath));
                emit_text(out, "<", 0);
                emit_all(out, inner);
                emit_text(out, ">::", 0);
                emit(out, self.assoc_ident(i, 0));
            },
        }
        assert(outs_view(out@) =~= outs_view(old(out)@) + leaf_view(*self, *leaf, i as int, span));
    }

    /// Renders the shape as a type, spelling each opaque leaf as `leaf` says, wrapped in
    /// `&`, `&mut` or `Pin` as the leaf's mode says.
    ///
    /// `Option`, `Result` and `Pin` are always spelled by their absolute `core` paths, so a
    /// type of the same name in scope in either the defining or the implementing crate
    /// can't change what the generated code means. Plain types are emitted verbatim.
    pub fn render(&self, out: &mut Vec<Out>, shape: &Shape, leaf: &Leaf)
        requires
            crate::shape::shape_valid(*shape, self.opaques@.len()),
        ensures
            outs_view(final(out)@) == outs_view(old(out)@) + shape_view(*self, *shape, *leaf),
        decreases shape,
    {
        match shape {
            Shape::Plain(ty) => {
                emit_toks(out, ty);
                assert(outs_view(out@) =~= outs_view(old(out)@) + shape_view(*self, *shape, *leaf));
            },
            Shape::Opaque { index, mode, span } => {
                let span = *span;
                match mode {
                    Mode::Value => self.emit_leaf(out, leaf, *index, span),
                    Mode::Ref => {
                        emit_text(out, "&", span);
                        self.emit_leaf(out, leaf, *index, span);
                    },
                    Mode::RefMut => {
                        emit_text(out, "&mut", span);
                        self.emit_leaf(out, leaf, *index, span);
                    },
                    Mode::PinRef => {
                        emit_text(out, "::core::pin::Pin<&", span);
                        self.emit_leaf(out, leaf, *index, span);
                        emit_text(out, ">", span);
                    },
                    Mode::PinRefMut => {
                        emit_text(out, "::core::pin::Pin<&mut", span);
                        self.emit_leaf(out, leaf, *index, span);
                        emit_text(out, ">", span);
                    },
                }
                assert(outs_view(out@) =~= outs_view(old(out)@) + shape_view(*self, *shape, *leaf));
            },
            Shape::Option(span, inner) => {
                emit_text(out, "::core::option::Option<", *span);
                self.render(out, inner, leaf);
                emit_text(out, ">", *span);
                assert(outs_view(out@) =~= outs_view(old(out)@) + shape_view(*self, *shape, *leaf));
            },
            Shape::Result(span, ok, err) => {
                emit_text(out, "::core::result::Result<", *span);
                self.render(out, ok, leaf);
                emit_text(out, ",", *span);
                self.render(out, err, leaf);
                emit_text(out, ">", *span);
                assert(outs_view(out@) =~= outs_view(old(out)@) + shape_view(*self, *shape, *leaf));
            },
            Shape::Tuple(span, elems) => {
                let mut body: Vec<Out> = Vec::new();
                let mut i: usize = 0;
                while i < elems.len()
                    invariant
                        i <= elems.len(),
                        decreases_to!(shape => elems),
                        crate::shape::shapes_valid(elems@, self.opaques@.len()),
                        outs_view(body@) == elems_view(*self, elems@.take(i as int), *leaf, *span),
                    decreases elems.len() - i,
                {
                    proof {
                        assert(decreases_to!(elems => elems@[i as int])) by {
                            broadcast use vstd::std_specs::vec::axiom_vec_index_decreases;
                        }
                        crate::shape::lemma_shapes_valid(elems@, self.opaques@.len());
                    }
                    self.render(&mut body, &elems[i], leaf);
                    emit_text(&mut body, ",", *span);
                    proof {
                        let t = elems@.take(i + 1);
                        assert(t.drop_last() =~= elems@.take(i as int));
                        assert(t.last() == elems@[i as int]);
                    }
                    i += 1;
                }
                proof {
                    assert(elems@.take(elems@.len() as int) =~= elems@);
                }
                emit_group(out, Delim::Paren, body, *span);
                assert(outs_view(out@) =~= outs_view(old(out)@) + shape_view(*self, *shape, *leaf));
            },
            Shape::Array(span, elem, len) => {
                let mut body: Vec<Out> = Vec::new();
                self.render(&mut body, elem, leaf);
                emit_text(&mut body, ";", *span);
                emit_toks(&mut body, len);
                assert(outs_view(body@) =~= shape_view(*self, **elem, *leaf) + seq![
                    text_v(";"@, *span),
                ] + toks_out(toks_view(len@)));
                emit_group(out, Delim::Bracket, body, *span);
                assert(outs_view(out@) =~= outs_view(old(out)@) + shape_view(*self, *shape, *leaf));
            },
        }
    }

    /// The type of a slot in the trait declaration.
    pub fn trait_ty(&self, shape: &Shape) -> (r: Vec<Out>)
        requires
            crate::shape::shape_valid(*shape, self.opaques@.len()),
        ensures
            outs_view(r@) == shape_view(*self, *shape, Leaf::Trait),
    {
        let mut out: Vec<Out> = Vec::new();
        self.render(&mut out, shape, &Leaf::Trait);
        assert(outs_view(out@) =~= shape_view(*self, *shape, Leaf::Trait));
        out
    }

    /// The type of a slot in the dispatch methods and extern declarations (defining-crate
    /// side: opaque structs by bare name).
    pub fn caller_ty(&self, shape: &Shape) -> (r: Vec<Out>)
        requires
            crate::shape::shape_valid(*shape, self.opaques@.len()),
        ensures
            outs_view(r@) == shape_view(*self, *shape, Leaf::Caller),
    {
        let mut out: Vec<Out> = Vec::new();
        self.render(&mut out, shape, &Leaf::Caller);
        assert(outs_view(out@) =~= shape_view(*self, *shape, Leaf::Caller));
        out
    }

    /// Same as `caller_ty`, but naming the opaque structs through the user-supplied path
    /// (implementation-macro side).
    pub fn impl_ty(&self, shape: &Shape) -> (r: Vec<Out>)
        requires
            crate::shape::shape_valid(*shape, self.opaques@.len()),
        ensures
            outs_view(r@) == shape_view(*self, *shape, Leaf::Impl),
    {
        let mut out: Vec<Out> = Vec::new();
        self.render(&mut out, shape, &Leaf::Impl);
        assert(outs_view(out@) =~= shape_view(*self, *shape, Leaf::Impl));
        out
    }
}

} // verus!
