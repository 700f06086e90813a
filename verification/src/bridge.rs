//! The implementation-side conversions between opaque structs and the implementation's
//! associated types.
use vstd::prelude::*;

use crate::bounds::ident_text;
use crate::input::UnitraitInput;
use crate::out::{
    Out, OutV, emit, emit_all, emit_group, emit_text, outs_view, single, text_v, toks_out,
};
use crate::render::{Leaf, copy_outs, grp, shape_view, txt};
use crate::tokens::toks_view;
use crate::shape::{Mode, Shape, no_borrow, shape_valid};
use crate::tokens::Delim;

verus! {

/// Which way a conversion goes.
#[derive(Clone, Copy, Debug, PartialEq, Eq, Structural)]
pub enum Dir {
    /// Opaque struct to the implementation's associated type: parameters.
    Unwrap,
    /// The implementation's associated type to opaque struct: return values.
    Wrap,
}

/// Generates the implementation-side shims' conversions between opaque structs and the
/// implementation's associated types, following a [`Shape`] structurally: leaves are cast
/// (by value, through the bytes; borrowed, through the pointer), and `Option`, `Result`,
/// tuples and arrays are taken apart and rebuilt around the converted leaves.
pub struct Bridge<'a> {
    pub input: &'a UnitraitInput,
    /// The implementor's type, through which the real associated types are reached.
    pub timpl: Vec<Out>,
    pub trait_qpath: Vec<Out>,
}

impl<'a> Bridge<'a> {
    /// The implementation's associated type at index `i`: `<TIMPL as TRAIT>::Name`.
    pub fn real_ty(&self, i: usize) -> (r: Vec<Out>)
        requires
            i < self.input.opaques@.len(),
        ensures
            outs_view(r@) == real_view(*self, i as int),
    {
        let mut out: Vec<Out> = Vec::new();
        emit_text(&mut out, "<", 0);
        emit_all(&mut out, copy_outs(&self.timpl));
        emit_text(&mut out, "as", 0);
        emit_all(&mut out, copy_outs(&self.trait_qpath));
        emit_text(&mut out, ">::", 0);
        emit(&mut out, self.input.assoc_ident(i, 0));
        assert(outs_view(out@) =~= real_view(*self, i as int));
        out
    }

    /// The opaque struct at index `i`, through the user-supplied path.
    pub fn qopaque(&self, i: usize) -> (r: Vec<Out>)
        requires
            i < self.input.opaques@.len(),
        ensures
            outs_view(r@) == qopaque_view(*self, i as int),
    {
        let mut out: Vec<Out> = Vec::new();
        crate::render::emit_toks(&mut out, &self.input.path);
        emit_text(&mut out, "::", 0);
        emit(&mut out, self.input.opaque_ident(i, 0));
        assert(outs_view(out@) =~= qopaque_view(*self, i as int));
        out
    }

    /// An expression converting `expr`, of the shape's opaque-side type when unwrapping or
    /// its real type when wrapping, to the other. Wrapping a borrowed opaque type is never
    /// asked for: borrows are rejected in return position before any code is generated.
    pub fn convert(&self, shape: &Shape, expr: Vec<Out>, dir: Dir) -> (r: Vec<Out>)
        requires
            shape_valid(*shape, self.input.opaques@.len()),
            dir == Dir::Wrap ==> no_borrow(*shape),
        ensures
            outs_view(r@) == convert_view(*self, *shape, outs_view(expr@), dir),
        decreases shape,
    {
        let ghost e = outs_view(expr@);
        match shape {
            Shape::Plain(_) => expr,
            Shape::Opaque { index, mode, .. } => self.convert_leaf(*index, *mode, expr, dir),
            Shape::Option(_, inner) => {
                let conv = self.convert(inner, single(txt("__unitrait_v")), dir);
                let mut arms: Vec<Out> = Vec::new();
                emit_text(&mut arms, "::core::option::Option::Some(__unitrait_v) => ::core::option::Option::Some", 0);
                emit_group(&mut arms, Delim::Paren, conv, 0);
                emit_text(&mut arms, ", ::core::option::Option::None => ::core::option::Option::None,", 0);
                assert(outs_view(arms@) =~= seq![
                    t0(
                        "::core::option::Option::Some(__unitrait_v) => ::core::option::Option::Some"@,
                    ),
                    paren_v(convert_view(*self, **inner, seq![t0("__unitrait_v"@)], dir)),
                    t0(", ::core::option::Option::None => ::core::option::Option::None,"@),
                ]);
                let mut out: Vec<Out> = Vec::new();
                emit_text(&mut out, "match", 0);
                emit_all(&mut out, expr);
                emit_group(&mut out, Delim::Brace, arms, 0);
                assert(outs_view(out@) =~= convert_view(*self, *shape, e, dir));
                out
            },
            Shape::Result(_, ok, err) => {
                let okc = self.convert(ok, single(txt("__unitrait_v")), dir);
                let errc = self.convert(err, single(txt("__unitrait_v")), dir);
                let mut arms: Vec<Out> = Vec::new();
                emit_text(&mut arms, "::core::result::Result::Ok(__unitrait_v) => ::core::result::Result::Ok", 0);
                emit_group(&mut arms, Delim::Paren, okc, 0);
                emit_text(&mut arms, ", ::core::result::Result::Err(__unitrait_v) => ::core::result::Result::Err", 0);
                emit_group(&mut arms, Delim::Paren, errc, 0);
                emit_text(&mut arms, ",", 0);
                assert(outs_view(arms@) =~= seq![
                    t0(
                        "::core::result::Result::Ok(__unitrait_v) => ::core::result::Result::Ok"@,
                    ),
                    paren_v(convert_view(*self, **ok, seq![t0("__unitrait_v"@)], dir)),
                    t0(
                        ", ::core::result::Result::Err(__unitrait_v) => ::core::result::Result::Err"@,
                    ),
                    paren_v(convert_view(*self, **err, seq![t0("__unitrait_v"@)], dir)),
                    t0(","@),
                ]);
                let mut out: Vec<Out> = Vec::new();
                emit_text(&mut out, "match", 0);
                emit_all(&mut out, expr);
                emit_group(&mut out, Delim::Brace, arms, 0);
                assert(outs_view(out@) =~= convert_view(*self, *shape, e, dir));
                out
            },
            Shape::Tuple(_, elems) => {
                let mut names: Vec<Out> = Vec::new();
                let mut convs: Vec<Out> = Vec::new();
                let mut i: usize = 0;
                proof {
                    crate::shape::lemma_shapes_valid(elems@, self.input.opaques@.len());
                    if dir == Dir::Wrap {
                        crate::shape::lemma_none_borrow(elems@);
                    }
                }
                while i < elems.len()
                    invariant
                        i <= elems.len(),
                        decreases_to!(shape => elems),
                        forall|k: int|
                            0 <= k < elems@.len() ==> shape_valid(
                                #[trigger] elems@[k],
                                self.input.opaques@.len(),
                            ),
                        dir == Dir::Wrap ==> forall|k: int|
                            0 <= k < elems@.len() ==> no_borrow(#[trigger] elems@[k]),
                        outs_view(names@) == tuple_names_view(i as nat),
                        outs_view(convs@) == tuple_convs_view(*self, elems@.take(i as int), dir),
                    decreases elems.len() - i,
                {
                    proof {
                        assert(decreases_to!(elems => elems@[i as int])) by {
                            broadcast use vstd::std_specs::vec::axiom_vec_index_decreases;
                        }
                    }
                    let name = tuple_name(i);
                    let conv = self.convert(&elems[i], single(Out::Ident(name.clone(), 0)), dir);
                    emit(&mut names, Out::Ident(name, 0));
                    emit_text(&mut names, ",", 0);
                    emit_all(&mut convs, conv);
                    emit_text(&mut convs, ",", 0);
                    proof {
                        let t = elems@.take(i + 1);
                        assert(t.drop_last() =~= elems@.take(i as int));
                        assert(t.last() == elems@[i as int]);
                        assert(outs_view(names@) =~= tuple_names_view((i + 1) as nat));
                        assert(outs_view(convs@) =~= tuple_convs_view(*self, t, dir));
                    }
                    i += 1;
                }
                proof {
                    assert(elems@.take(elems@.len() as int) =~= elems@);
                }
                let mut block: Vec<Out> = Vec::new();
                emit_text(&mut block, "let", 0);
                emit_group(&mut block, Delim::Paren, names, 0);
                emit_text(&mut block, "=", 0);
                emit_all(&mut block, expr);
                emit_text(&mut block, ";", 0);
                emit_group(&mut block, Delim::Paren, convs, 0);
                assert(outs_view(block@) =~= seq![
                    t0("let"@),
                    paren_v(tuple_names_view(elems@.len())),
                    t0("="@),
                ] + e + seq![t0(";"@), paren_v(tuple_convs_view(*self, elems@, dir))]);
                let r = single(grp(Delim::Brace, block));
                assert(outs_view(r@) =~= convert_view(*self, *shape, e, dir));
                r
            },
            Shape::Array(_, elem, len) => {
                // Spelled out so that a `map` method from some trait in scope can't be
                // picked instead of the inherent one.
                let mut source: Vec<Out> = Vec::new();
                match dir {
                    Dir::Unwrap => self.input.render(&mut source, elem, &Leaf::Impl),
                    Dir::Wrap => self.input.render(
                        &mut source,
                        elem,
                        &Leaf::Real(&self.timpl, &self.trait_qpath),
                    ),
                }
                emit_text(&mut source, ";", 0);
                crate::render::emit_toks(&mut source, len);
                let ghost src = match dir {
                    Dir::Unwrap => shape_view(*self.input, **elem, Leaf::Impl),
                    Dir::Wrap => shape_view(
                        *self.input,
                        **elem,
                        Leaf::Real(&self.timpl, &self.trait_qpath),
                    ),
                };
                assert(outs_view(source@) =~= src + seq![t0(";"@)] + toks_out(toks_view(len@)));
                let conv = self.convert(elem, single(txt("__unitrait_v")), dir);
                let mut ty: Vec<Out> = Vec::new();
                emit_group(&mut ty, Delim::Bracket, source, 0);
                let mut args: Vec<Out> = Vec::new();
                emit_all(&mut args, expr);
                emit_text(&mut args, ", |__unitrait_v|", 0);
                emit_all(&mut args, conv);
                assert(outs_view(args@) =~= e + seq![t0(", |__unitrait_v|"@)] + convert_view(
                    *self,
                    **elem,
                    seq![t0("__unitrait_v"@)],
                    dir,
                ));
                let mut out: Vec<Out> = Vec::new();
                emit_text(&mut out, "<", 0);
                emit_all(&mut out, ty);
                emit_text(&mut out, ">::map", 0);
                emit_group(&mut out, Delim::Paren, args, 0);
                assert(outs_view(out@) =~= convert_view(*self, *shape, e, dir));
                out
            },
        }
    }

    /// Converts one leaf.
    pub fn convert_leaf(&self, index: usize, mode: Mode, expr: Vec<Out>, dir: Dir) -> (r: Vec<Out>)
        requires
            index < self.input.opaques@.len(),
            dir == Dir::Wrap ==> mode == Mode::Value,
        ensures
            outs_view(r@) == convert_leaf_view(*self, index as int, mode, outs_view(expr@), dir),
    {
        let real_ty = self.real_ty(index);
        let qopaque = self.qopaque(index);
        let ghost r = real_view(*self, index as int);
        let ghost q = qopaque_view(*self, index as int);
        let ghost e = outs_view(expr@);
        let mut block: Vec<Out> = Vec::new();
        match (dir, mode) {
            // SAFETY (all five unwraps): opaque values always hold an initialized value of
            // the implementation's associated type (they can only be obtained from methods
            // returning one), and size and alignment are checked at compile time. The
            // by-value case takes ownership, so the opaque's own Drop must not run:
            // ManuallyDrop suppresses it and the value is moved out by reading it as the
            // real type.
            (Dir::Unwrap, Mode::Value) => {
                emit_text(&mut block, "let __unitrait_v = ::core::mem::ManuallyDrop::new", 0);
                emit_group(&mut block, Delim::Paren, expr, 0);
                emit_text(&mut block, "; unsafe", 0);
                let mut cast: Vec<Out> = Vec::new();
                emit_text(&mut cast, "&__unitrait_v as *const ::core::mem::ManuallyDrop<", 0);
                emit_all(&mut cast, qopaque);
                emit_text(&mut cast, "> as *const", 0);
                emit_all(&mut cast, real_ty);
                assert(outs_view(cast@) =~= seq![
                    t0("&__unitrait_v as *const ::core::mem::ManuallyDrop<"@),
                ] + q + seq![t0("> as *const"@)] + r);
                let mut body: Vec<Out> = Vec::new();
                emit_group(&mut body, Delim::Paren, cast, 0);
                emit_text(&mut body, ".read()", 0);
                assert(outs_view(body@) =~= seq![
                    paren_v(
                        seq![t0("&__unitrait_v as *const ::core::mem::ManuallyDrop<"@)] + q
                            + seq![t0("> as *const"@)] + r,
                    ),
                    t0(".read()"@),
                ]);
                emit_group(&mut block, Delim::Brace, body, 0);
            },
            (Dir::Unwrap, Mode::Ref) => {
                emit_text(&mut block, "let __unitrait_v: &", 0);
                emit_all(&mut block, copy_outs(&qopaque));
                emit_text(&mut block, "=", 0);
                emit_all(&mut block, expr);
                emit_text(&mut block, "; unsafe", 0);
                let mut cast: Vec<Out> = Vec::new();
                emit_text(&mut cast, "__unitrait_v as *const", 0);
                emit_all(&mut cast, qopaque);
                emit_text(&mut cast, "as *const", 0);
                emit_all(&mut cast, real_ty);
                assert(outs_view(cast@) =~= seq![t0("__unitrait_v as *const"@)] + q + seq![
                    t0("as *const"@),
                ] + r);
                let mut body: Vec<Out> = Vec::new();
                emit_text(&mut body, "&*", 0);
                emit_group(&mut body, Delim::Paren, cast, 0);
                assert(outs_view(body@) =~= seq![
                    t0("&*"@),
                    paren_v(seq![t0("__unitrait_v as *const"@)] + q + seq![t0("as *const"@)] + r),
                ]);
                emit_group(&mut block, Delim::Brace, body, 0);
            },
            (Dir::Unwrap, Mode::RefMut) => {
                emit_text(&mut block, "let __unitrait_v: &mut", 0);
                emit_all(&mut block, copy_outs(&qopaque));
                emit_text(&mut block, "=", 0);
                emit_all(&mut block, expr);
                emit_text(&mut block, "; unsafe", 0);
                let mut cast: Vec<Out> = Vec::new();
                emit_text(&mut cast, "__unitrait_v as *mut", 0);
                emit_all(&mut cast, qopaque);
                emit_text(&mut cast, "as *mut", 0);
                emit_all(&mut cast, real_ty);
                assert(outs_view(cast@) =~= seq![t0("__unitrait_v as *mut"@)] + q + seq![
                    t0("as *mut"@),
                ] + r);
                let mut body: Vec<Out> = Vec::new();
                emit_text(&mut body, "&mut *", 0);
                emit_group(&mut body, Delim::Paren, cast, 0);
                assert(outs_view(body@) =~= seq![
                    t0("&mut *"@),
                    paren_v(seq![t0("__unitrait_v as *mut"@)] + q + seq![t0("as *mut"@)] + r),
                ]);
                emit_group(&mut block, Delim::Brace, body, 0);
            },
            // SAFETY (both pinned unwraps): as above, plus the implementation's value lives
            // at the very address the caller pinned, and the opaque struct is `Unpin` only
            // if the associated type is, so the caller could only have built this `Pin` by
            // pinning the opaque value (or with `new_unchecked`, upholding the same
            // contract). Re-pinning the value in place therefore keeps the pinning
            // guarantee the caller already granted.
            (Dir::Unwrap, Mode::PinRef) => {
                emit_text(&mut block, "let __unitrait_v: ::core::pin::Pin<&", 0);
                emit_all(&mut block, copy_outs(&qopaque));
                emit_text(&mut block, "> =", 0);
                emit_all(&mut block, expr);
                emit_text(&mut block, "; unsafe", 0);
                let mut body: Vec<Out> = Vec::new();
                emit_text(&mut body, "let __unitrait_v: &", 0);
                emit_all(&mut body, copy_outs(&qopaque));
                emit_text(&mut body, "= ::core::pin::Pin::get_ref(__unitrait_v); ::core::pin::Pin::new_unchecked", 0);
                let mut cast: Vec<Out> = Vec::new();
                emit_text(&mut cast, "__unitrait_v as *const", 0);
                emit_all(&mut cast, qopaque);
                emit_text(&mut cast, "as *const", 0);
                emit_all(&mut cast, real_ty);
                assert(outs_view(cast@) =~= seq![t0("__unitrait_v as *const"@)] + q + seq![
                    t0("as *const"@),
                ] + r);
                let mut arg: Vec<Out> = Vec::new();
                emit_text(&mut arg, "&*", 0);
                emit_group(&mut arg, Delim::Paren, cast, 0);
                assert(outs_view(arg@) =~= seq![
                    t0("&*"@),
                    paren_v(seq![t0("__unitrait_v as *const"@)] + q + seq![t0("as *const"@)] + r),
                ]);
                emit_group(&mut body, Delim::Paren, arg, 0);
                assert(outs_view(body@) =~= seq![t0("let __unitrait_v: &"@)] + q + seq![
                    t0(
                        "= ::core::pin::Pin::get_ref(__unitrait_v); ::core::pin::Pin::new_unchecked"@,
                    ),
                    paren_v(
                        seq![
                            t0("&*"@),
                            paren_v(
                                seq![t0("__unitrait_v as *const"@)] + q + seq![t0("as *const"@)]
                                    + r,
                            ),
                        ],
                    ),
                ]);
                emit_group(&mut block, Delim::Brace, body, 0);
            },
            (Dir::Unwrap, Mode::PinRefMut) => {
                emit_text(&mut block, "let __unitrait_v: ::core::pin::Pin<&mut", 0);
                emit_all(&mut block, copy_outs(&qopaque));
                emit_text(&mut block, "> =", 0);
                emit_all(&mut block, expr);
                emit_text(&mut block, "; unsafe", 0);
                let mut body: Vec<Out> = Vec::new();
                emit_text(&mut body, "let __unitrait_v: &mut", 0);
                emit_all(&mut body, copy_outs(&qopaque));
                emit_text(&mut body, "= ::core::pin::Pin::get_unchecked_mut(__unitrait_v); ::core::pin::Pin::new_unchecked", 0);
                let mut cast: Vec<Out> = Vec::new();
                emit_text(&mut cast, "__unitrait_v as *mut", 0);
                emit_all(&mut cast, qopaque);
                emit_text(&mut cast, "as *mut", 0);
                emit_all(&mut cast, real_ty);
                assert(outs_view(cast@) =~= seq![t0("__unitrait_v as *mut"@)] + q + seq![
                    t0("as *mut"@),
                ] + r);
                let mut arg: Vec<Out> = Vec::new();
                emit_text(&mut arg, "&mut *", 0);
                emit_group(&mut arg, Delim::Paren, cast, 0);
                assert(outs_view(arg@) =~= seq![
                    t0("&mut *"@),
                    paren_v(seq![t0("__unitrait_v as *mut"@)] + q + seq![t0("as *mut"@)] + r),
                ]);
                emit_group(&mut body, Delim::Paren, arg, 0);
                assert(outs_view(body@) =~= seq![t0("let __unitrait_v: &mut"@)] + q + seq![
                    t0(
                        "= ::core::pin::Pin::get_unchecked_mut(__unitrait_v); ::core::pin::Pin::new_unchecked"@,
                    ),
                    paren_v(
                        seq![
                            t0("&mut *"@),
                            paren_v(
                                seq![t0("__unitrait_v as *mut"@)] + q + seq![t0("as *mut"@)] + r,
                            ),
                        ],
                    ),
                ]);
                emit_group(&mut block, Delim::Brace, body, 0);
            },
            // SAFETY: size and alignment are checked at compile time, so the write stays in
            // bounds and is aligned; the opaque struct's only field is uninit-tolerant
            // bytes, so `assume_init` is fine.
            _ => {
                emit_text(&mut block, "let __unitrait_v:", 0);
                emit_all(&mut block, copy_outs(&real_ty));
                emit_text(&mut block, "=", 0);
                emit_all(&mut block, expr);
                emit_text(&mut block, "; let mut __unitrait_out = ::core::mem::MaybeUninit::<", 0);
                emit_all(&mut block, qopaque);
                emit_text(&mut block, ">::uninit(); unsafe", 0);
                let mut cast: Vec<Out> = Vec::new();
                emit_text(&mut cast, "__unitrait_out.as_mut_ptr() as *mut", 0);
                emit_all(&mut cast, real_ty);
                assert(outs_view(cast@) =~= seq![t0("__unitrait_out.as_mut_ptr() as *mut"@)] + r);
                let mut body: Vec<Out> = Vec::new();
                emit_group(&mut body, Delim::Paren, cast, 0);
                emit_text(&mut body, ".write(__unitrait_v); __unitrait_out.assume_init()", 0);
                assert(outs_view(body@) =~= seq![
                    paren_v(seq![t0("__unitrait_out.as_mut_ptr() as *mut"@)] + r),
                    t0(".write(__unitrait_v); __unitrait_out.assume_init()"@),
                ]);
                emit_group(&mut block, Delim::Brace, body, 0);
            },
        }
        assert(outs_view(block@) =~= convert_leaf_block(*self, index as int, mode, e, dir));
        let r = single(grp(Delim::Brace, block));
        assert(outs_view(r@) =~= convert_leaf_view(*self, index as int, mode, e, dir));
        r
    }
}

/// `__unitrait_t{i}`.
pub open spec fn tuple_name_view(i: nat) -> Seq<char> {
    "__unitrait_t"@ + decimal(i)
}

/// The implementation's associated type at index `i`: `<TIMPL as TRAIT>::Name`.
pub open spec fn real_view(b: Bridge, i: int) -> Seq<OutV> {
    seq![text_v("<"@, 0)] + outs_view(b.timpl@) + seq![text_v("as"@, 0)] + outs_view(
        b.trait_qpath@,
    ) + seq![text_v(">::"@, 0), OutV::Ident(ident_text(b.input.opaques@[i].assoc), 0)]
}

/// The opaque struct at index `i`, through the user-supplied path: `PATH::Opaque`.
pub open spec fn qopaque_view(b: Bridge, i: int) -> Seq<OutV> {
    toks_out(toks_view(b.input.path@)) + seq![
        text_v("::"@, 0),
        OutV::Ident(b.input.opaques@[i].opaque@, 0),
    ]
}

/// A block at the call site.
pub open spec fn block_v(body: Seq<OutV>) -> OutV {
    OutV::Group(Delim::Brace, body, 0)
}

pub open spec fn paren_v(body: Seq<OutV>) -> OutV {
    OutV::Group(Delim::Paren, body, 0)
}

pub open spec fn t0(s: Seq<char>) -> OutV {
    text_v(s, 0)
}

/// The conversion of one leaf: the expression `expr` of the opaque struct `Q` read as the
/// implementation's type `R` (by value through the bytes, borrowed through the pointer,
/// pinned in place), or a value of `R` written into a fresh `Q`.
pub open spec fn convert_leaf_view(b: Bridge, i: int, mode: Mode, expr: Seq<OutV>, dir: Dir) -> Seq<
    OutV,
> {
    seq![block_v(convert_leaf_block(b, i, mode, expr, dir))]
}

/// The statements of [`convert_leaf_view`]'s block.
pub open spec fn convert_leaf_block(b: Bridge, i: int, mode: Mode, expr: Seq<OutV>, dir: Dir) -> Seq<
    OutV,
> {
    let r = real_view(b, i);
    let q = qopaque_view(b, i);
    match (dir, mode) {
        (Dir::Unwrap, Mode::Value) => seq![
            t0("let __unitrait_v = ::core::mem::ManuallyDrop::new"@),
            paren_v(expr),
            t0("; unsafe"@),
            block_v(
                seq![
                    paren_v(
                        seq![t0("&__unitrait_v as *const ::core::mem::ManuallyDrop<"@)] + q
                            + seq![t0("> as *const"@)] + r,
                    ),
                    t0(".read()"@),
                ],
            ),
        ],
        (Dir::Unwrap, Mode::Ref) => seq![t0("let __unitrait_v: &"@)] + q + seq![t0("="@)] + expr
            + seq![
            t0("; unsafe"@),
            block_v(
                seq![
                    t0("&*"@),
                    paren_v(
                        seq![t0("__unitrait_v as *const"@)] + q + seq![t0("as *const"@)] + r,
                    ),
                ],
            ),
        ],
        (Dir::Unwrap, Mode::RefMut) => seq![t0("let __unitrait_v: &mut"@)] + q + seq![t0("="@)]
            + expr + seq![
            t0("; unsafe"@),
            block_v(
                seq![
                    t0("&mut *"@),
                    paren_v(seq![t0("__unitrait_v as *mut"@)] + q + seq![t0("as *mut"@)] + r),
                ],
            ),
        ],
        (Dir::Unwrap, Mode::PinRef) => seq![t0("let __unitrait_v: ::core::pin::Pin<&"@)] + q
            + seq![t0("> ="@)] + expr + seq![
            t0("; unsafe"@),
            block_v(
                seq![t0("let __unitrait_v: &"@)] + q + seq![
                    t0(
                        "= ::core::pin::Pin::get_ref(__unitrait_v); ::core::pin::Pin::new_unchecked"@,
                    ),
                    paren_v(
                        seq![
                            t0("&*"@),
                            paren_v(
                                seq![t0("__unitrait_v as *const"@)] + q + seq![t0("as *const"@)]
                                    + r,
                            ),
                        ],
                    ),
                ],
            ),
        ],
        (Dir::Unwrap, Mode::PinRefMut) => seq![t0("let __unitrait_v: ::core::pin::Pin<&mut"@)]
            + q + seq![t0("> ="@)] + expr + seq![
            t0("; unsafe"@),
            block_v(
                seq![t0("let __unitrait_v: &mut"@)] + q + seq![
                    t0(
                        "= ::core::pin::Pin::get_unchecked_mut(__unitrait_v); ::core::pin::Pin::new_unchecked"@,
                    ),
                    paren_v(
                        seq![
                            t0("&mut *"@),
                            paren_v(
                                seq![t0("__unitrait_v as *mut"@)] + q + seq![t0("as *mut"@)] + r,
                            ),
                        ],
                    ),
                ],
            ),
        ],
        _ => seq![t0("let __unitrait_v:"@)] + r + seq![t0("="@)] + expr + seq![
            t0("; let mut __unitrait_out = ::core::mem::MaybeUninit::<"@),
        ] + q + seq![
            t0(">::uninit(); unsafe"@),
            block_v(
                seq![
                    paren_v(seq![t0("__unitrait_out.as_mut_ptr() as *mut"@)] + r),
                    t0(".write(__unitrait_v); __unitrait_out.assume_init()"@),
                ],
            ),
        ],
    }
}

/// The conversion of `expr` following the shape: leaves converted, `Option`s and `Result`s
/// matched and rebuilt, tuples taken apart and rebuilt, arrays mapped; plain types left as
/// they are.
pub open spec fn convert_view(b: Bridge, s: Shape, expr: Seq<OutV>, dir: Dir) -> Seq<OutV>
    decreases s,
{
    match s {
        Shape::Plain(_) => expr,
        Shape::Opaque { index, mode, .. } => convert_leaf_view(b, index as int, mode, expr, dir),
        Shape::Option(_, inner) => seq![t0("match"@)] + expr + seq![
            block_v(
                seq![
                    t0(
                        "::core::option::Option::Some(__unitrait_v) => ::core::option::Option::Some"@,
                    ),
                    paren_v(convert_view(b, *inner, seq![t0("__unitrait_v"@)], dir)),
                    t0(", ::core::option::Option::None => ::core::option::Option::None,"@),
                ],
            ),
        ],
        Shape::Result(_, ok, err) => seq![t0("match"@)] + expr + seq![
            block_v(
                seq![
                    t0(
                        "::core::result::Result::Ok(__unitrait_v) => ::core::result::Result::Ok"@,
                    ),
                    paren_v(convert_view(b, *ok, seq![t0("__unitrait_v"@)], dir)),
                    t0(
                        ", ::core::result::Result::Err(__unitrait_v) => ::core::result::Result::Err"@,
                    ),
                    paren_v(convert_view(b, *err, seq![t0("__unitrait_v"@)], dir)),
                    t0(","@),
                ],
            ),
        ],
        Shape::Tuple(_, elems) => {
            proof {
                assert(decreases_to!(elems => elems@)) by {
                    broadcast use vstd::std_specs::vec::axiom_vec_decreases_to_view;
                }
            }
            seq![
                block_v(
                    seq![t0("let"@), paren_v(tuple_names_view(elems@.len())), t0("="@)] + expr
                        + seq![t0(";"@), paren_v(tuple_convs_view(b, elems@, dir))],
                ),
            ]
        },
        Shape::Array(_, elem, len) => {
            let source = match dir {
                Dir::Unwrap => shape_view(*b.input, *elem, Leaf::Impl),
                Dir::Wrap => shape_view(*b.input, *elem, Leaf::Real(&b.timpl, &b.trait_qpath)),
            };
            seq![
                t0("<"@),
                OutV::Group(
                    Delim::Bracket,
                    source + seq![t0(";"@)] + toks_out(toks_view(len@)),
                    0,
                ),
                t0(">::map"@),
                paren_v(
                    expr + seq![t0(", |__unitrait_v|"@)] + convert_view(
                        b,
                        *elem,
                        seq![t0("__unitrait_v"@)],
                        dir,
                    ),
                ),
            ]
        },
    }
}

/// `__unitrait_t0, __unitrait_t1, ...,` for a tuple of `n` elements.
pub open spec fn tuple_names_view(n: nat) -> Seq<OutV>
    decreases n,
{
    if n == 0 {
        Seq::empty()
    } else {
        tuple_names_view((n - 1) as nat) + seq![
            OutV::Ident(tuple_name_view((n - 1) as nat), 0),
            t0(","@),
        ]
    }
}

/// The conversions of the elements of a tuple, the `k`-th from `__unitrait_t{k}`, each
/// followed by a comma.
pub open spec fn tuple_convs_view(b: Bridge, s: Seq<Shape>, dir: Dir) -> Seq<OutV>
    decreases s,
{
    if s.len() == 0 {
        Seq::empty()
    } else {
        tuple_convs_view(b, s.drop_last(), dir) + convert_view(
            b,
            s.last(),
            seq![OutV::Ident(tuple_name_view((s.len() - 1) as nat), 0)],
            dir,
        ) + seq![t0(","@)]
    }
}

/// `__unitrait_t{i}`, the name of a tuple element while a tuple is taken apart.
pub fn tuple_name(i: usize) -> (r: String)
    ensures
        r@ == tuple_name_view(i as nat),
{
    let mut s = String::from_str("__unitrait_t");
    append_decimal(&mut s, i);
    s
}

/// The decimal digits of `n`.
pub open spec fn decimal(n: nat) -> Seq<char>
    decreases n,
{
    if n < 10 {
        seq![digit_char(n)]
    } else {
        decimal(n / 10) + seq![digit_char(n % 10)]
    }
}

pub open spec fn digit_char(d: nat) -> char {
    if d == 0 { '0' } else if d == 1 { '1' } else if d == 2 { '2' } else if d == 3 { '3' }
    else if d == 4 { '4' } else if d == 5 { '5' } else if d == 6 { '6' } else if d == 7 { '7' }
    else if d == 8 { '8' } else { '9' }
}

fn digit(d: usize) -> (r: char)
    requires
        d < 10,
    ensures
        r == digit_char(d as nat),
{
    if d == 0 { '0' } else if d == 1 { '1' } else if d == 2 { '2' } else if d == 3 { '3' }
    else if d == 4 { '4' } else if d == 5 { '5' } else if d == 6 { '6' } else if d == 7 { '7' }
    else if d == 8 { '8' } else { '9' }
}

/// Appends the decimal digits of `n`.
pub fn append_decimal(s: &mut String, n: usize)
    ensures
        final(s)@ == old(s)@ + decimal(n as nat),
    decreases n,
{
    if n < 10 {
        crate::syntax::push_char(s, digit(n));
    } else {
        append_decimal(s, n / 10);
        crate::syntax::push_char(s, digit(n % 10));
        assert(final(s)@ =~= old(s)@ + decimal(n as nat));
    }
}

} // verus!
