//! What holds of every parsed input and every expansion.
use vstd::prelude::*;

use crate::attrs::{
    Attr, Sym, has_attr, is_pow2, layout_ok, lemma_next_multiple, multiple_of, str_attr_value,
};
use crate::input::{
    Method, OpaqueDecl, UnitraitInput, derived_assoc_symbol, derived_method_symbol, input_wf,
    name_of, opaque_wf,
};
use crate::marker::Marker;
use crate::bridge::{
    Bridge, Dir, convert_leaf_view, convert_view, qopaque_view, real_view, tuple_convs_view,
    tuple_name_view, tuple_names_view,
};
use crate::out::{OutV, outs_view, text_v, toks_out};
use crate::render::{Leaf, elems_view, leaf_view, shape_view};
use crate::shape::{Mode, Shape};
use crate::template::{
    MethodShapes, all_arg_ids_view, all_checks_view, all_params_view, arg_ids_view, assert_view,
    attrs_view, binding_v, bounds_view, bridge_of, checks_view, clone_export_view,
    clone_helper_view, convs_view, defining_view, dispatch_assocs_view, dispatch_impl_method_view,
    dispatch_impl_methods_view, dispatch_method_view, dispatch_methods_view, drop_export_view,
    drop_helper_view, drop_impl_view, expansion_view, export_attr_view, extern_block_view, group,
    guarded_view, impl_call_view, implementing_view, inline_fn_view, layout_arms_view,
    macro_body_view, marker_impl_view, marker_impls_view, marker_path_view, method_export_view,
    method_exports_view, method_helper_view, method_helpers_view, no_layout_arm, no_layout_message,
    opaque_def_view, opaque_exports_view, opaque_helpers_view, opaque_name_v, opaque_struct_view,
    opaque_structs_view, params_view, ret_view, shim_impl_view, shim_name_v, shims_v,
    struct_def_view, sym_v, t, tok_v, trait_method_view, trait_methods_view, trait_opaques_view,
    unsafety_view,
};
use crate::tokens::{Delim, toks_view, unraw};

verus! {

/// A method's extern symbol is the one its `#[symbol = "..."]` attribute names; without one,
/// it is the trait's `#[symbol_prefix = "..."]`, an underscore and the method's name.
pub proof fn lemma_method_symbol(u: UnitraitInput, j: int)
    requires
        input_wf(u),
        0 <= j < u.methods@.len(),
    ensures
        ({
            let m = u.methods@[j];
            &&& has_attr(m.attrs@, "symbol"@) ==> exists|k: int|
                0 <= k < m.attrs@.len() && (#[trigger] m.attrs@[k]).path_is("symbol"@)
                    && str_attr_value(m.attrs@[k], "symbol"@) == Ok::<
                    (Seq<char>, u64),
                    (u64, Seq<char>),
                >(m.symbol@)
            &&& !has_attr(m.attrs@, "symbol"@) ==> (u.symbol_prefix matches Some(p)
                && m.symbol.value@ == derived_method_symbol(p.value@, name_of(m.name)))
        }),
{
    assert(crate::input::method_symbols_wf(u.methods@[j], u.symbol_prefix));
}

/// An opaque type's drop symbol is the one its `#[drop_symbol = "..."]` names; without
/// one, it is the trait's prefix, `_`, the associated type's name as written, and `_drop`.
/// Likewise for the clone symbol, with `#[clone_symbol = "..."]` and `_clone`.
pub proof fn lemma_opaque_symbols(u: UnitraitInput, i: int)
    requires
        input_wf(u),
        0 <= i < u.opaques@.len(),
    ensures
        ({
            let o = u.opaques@[i];
            &&& o.drop_symbol matches Some(s) ==> if has_attr(o.attrs@, "drop_symbol"@) {
                exists|k: int|
                    0 <= k < o.attrs@.len() && (#[trigger] o.attrs@[k]).path_is("drop_symbol"@)
                        && str_attr_value(o.attrs@[k], "drop_symbol"@) == Ok::<
                        (Seq<char>, u64),
                        (u64, Seq<char>),
                    >(s@)
            } else {
                (u.symbol_prefix matches Some(p) && s.value@ == derived_assoc_symbol(
                    p.value@,
                    name_of(o.assoc),
                    "drop"@,
                ))
            }
            &&& o.clone_symbol matches Some(s) ==> if has_attr(o.attrs@, "clone_symbol"@) {
                exists|k: int|
                    0 <= k < o.attrs@.len() && (#[trigger] o.attrs@[k]).path_is("clone_symbol"@)
                        && str_attr_value(o.attrs@[k], "clone_symbol"@) == Ok::<
                        (Seq<char>, u64),
                        (u64, Seq<char>),
                    >(s@)
            } else {
                (u.symbol_prefix matches Some(p) && s.value@ == derived_assoc_symbol(
                    p.value@,
                    name_of(o.assoc),
                    "clone"@,
                ))
            }
        }),
{
    assert(crate::input::opaque_symbols_wf(u.opaques@[i], u.symbol_prefix));
}

/// Each opaque struct is named by the dispatch type's name followed by its associated
/// type's name, both without the `r#` of a raw identifier, so two opaque types of one
/// trait whose associated types stand for different names never share a struct name.
pub proof fn lemma_opaque_names(u: UnitraitInput, i: int, j: int)
    requires
        input_wf(u),
        0 <= i < u.opaques@.len(),
        0 <= j < u.opaques@.len(),
        unraw(name_of(u.opaques@[i].assoc)) != unraw(name_of(u.opaques@[j].assoc)),
    ensures
        u.opaques@[i].opaque@ == unraw(name_of(u.dispatch)) + unraw(name_of(u.opaques@[i].assoc)),
        u.opaques@[i].opaque@ != u.opaques@[j].opaque@,
{
    let d = unraw(name_of(u.dispatch));
    let a = unraw(name_of(u.opaques@[i].assoc));
    let b = unraw(name_of(u.opaques@[j].assoc));
    if d + a == d + b {
        assert((d + a).subrange(d.len() as int, (d + a).len() as int) =~= a);
        assert((d + b).subrange(d.len() as int, (d + b).len() as int) =~= b);
    }
}

/// Every layout of an opaque type has a power-of-two alignment, and its storage, the
/// opaque struct's `[u8; N]`, is the least multiple of the alignment that holds the
/// declared size: so the struct's size is the storage, with no padding of its own.
pub proof fn lemma_opaque_layout(u: UnitraitInput, i: int, k: int)
    requires
        input_wf(u),
        0 <= i < u.opaques@.len(),
        0 <= k < u.opaques@[i].layouts@.len(),
    ensures
        ({
            let l = u.opaques@[i].layouts@[k];
            &&& is_pow2(l.align_value as nat)
            &&& l.align_value > 0
            &&& l.padded_size % l.align_value == 0
            &&& l.size <= l.padded_size < l.size + l.align_value
            &&& forall|m: nat|
                #[trigger] multiple_of(m, l.align_value as nat) && l.size <= m ==> l.padded_size
                    <= m
        }),
{
    assert(opaque_wf(u.opaques@[i]));
    let l = u.opaques@[i].layouts@[k];
    assert(layout_ok(l));
    lemma_pow2_positive(l.align_value as nat);
    lemma_next_multiple(l.size as nat, l.align_value as nat);
}

/// A power of two is positive.
pub proof fn lemma_pow2_positive(n: nat)
    requires
        is_pow2(n),
    ensures
        n > 0,
{
}

/// `Copy` excludes both `Drop` and `Clone`: a `Copy` opaque type has neither a drop symbol
/// nor a clone symbol, so its opaque struct gets no `Drop` impl and clones by copying.
pub proof fn lemma_copy_excludes_symbols(u: UnitraitInput, i: int)
    requires
        input_wf(u),
        0 <= i < u.opaques@.len(),
        u.opaques@[i].bounds@.contains(Marker::Copy),
    ensures
        u.opaques@[i].drop_symbol is None,
        u.opaques@[i].clone_symbol is None,
        crate::template::drop_impl_view(u.opaques@[i]) == Seq::<crate::out::OutV>::empty(),
{
    assert(opaque_wf(u.opaques@[i]));
}

} // verus!

verus! {

/// The string of a group `d` holding exactly `KEY "string"`, such as the `[link_name =
/// "..."]` of an attribute or the `(export_name = "...")` of an unsafe attribute.
pub open spec fn keyed(o: OutV, d: Delim, key: Seq<char>) -> Option<Seq<char>> {
    match o {
        OutV::Group(d2, body, _) => if d2 == d && body.len() == 2 && (body[0] matches OutV::Text(
            k,
            _,
        ) && k == key) && body[1] is Str {
            Some(body[1]->Str_0)
        } else {
            None
        },
        _ => None,
    }
}

/// Every such string in the token trees `v`, at any depth, in order.
pub open spec fn names_in(v: Seq<OutV>, d: Delim, key: Seq<char>) -> Seq<Seq<char>>
    decreases v,
{
    if v.len() == 0 {
        Seq::empty()
    } else {
        names_in(v.drop_last(), d, key) + names_of(v.last(), d, key)
    }
}

pub open spec fn names_of(o: OutV, d: Delim, key: Seq<char>) -> Seq<Seq<char>>
    decreases o,
{
    match keyed(o, d, key) {
        Some(s) => seq![s],
        None => match o {
            OutV::Group(_, body, _) => names_in(body, d, key),
            _ => Seq::empty(),
        },
    }
}

/// The symbols the token trees link to: the strings of their `#[link_name = "..."]`.
pub open spec fn link_names(v: Seq<OutV>) -> Seq<Seq<char>> {
    names_in(v, Delim::Bracket, "link_name ="@)
}

/// The symbols the token trees export: the strings of their
/// `#[unsafe(export_name = "...")]`.
pub open spec fn export_names(v: Seq<OutV>) -> Seq<Seq<char>> {
    names_in(v, Delim::Paren, "export_name ="@)
}

pub broadcast proof fn lemma_names_push(v: Seq<OutV>, o: OutV, d: Delim, key: Seq<char>)
    ensures
        #[trigger] names_in(v.push(o), d, key) == names_in(v, d, key) + names_of(o, d, key),
{
    assert(v.push(o).drop_last() =~= v);
}

pub broadcast proof fn lemma_names_empty(d: Delim, key: Seq<char>)
    ensures
        #[trigger] names_in(Seq::<OutV>::empty(), d, key) == Seq::<Seq<char>>::empty(),
{
}

pub broadcast proof fn lemma_names_cat(a: Seq<OutV>, b: Seq<OutV>, d: Delim, key: Seq<char>)
    ensures
        #[trigger] names_in(a + b, d, key) == names_in(a, d, key) + names_in(b, d, key),
    decreases b.len(),
{
    if b.len() == 0 {
        assert(a + b =~= a);
        assert(names_in(a, d, key) + names_in(b, d, key) =~= names_in(a, d, key));
    } else {
        lemma_names_cat(a, b.drop_last(), d, key);
        assert((a + b).drop_last() =~= a + b.drop_last());
        assert((a + b).last() == b.last());
        assert(names_in(a, d, key) + names_in(b, d, key) =~= names_in(a, d, key) + names_in(
            b.drop_last(),
            d,
            key,
        ) + names_of(b.last(), d, key));
    }
}

pub broadcast group group_names {
    lemma_names_push,
    lemma_names_empty,
    lemma_names_cat,
}

} // verus!

verus! {

/// No string literal anywhere in the token trees `v`.
pub open spec fn no_str(v: Seq<OutV>) -> bool
    decreases v,
{
    v.len() == 0 || (no_str(v.drop_last()) && no_str_of(v.last()))
}

pub open spec fn no_str_of(o: OutV) -> bool
    decreases o,
{
    match o {
        OutV::Str(..) => false,
        OutV::Group(_, body, _) => no_str(body),
        _ => true,
    }
}

pub broadcast proof fn lemma_no_str_push(v: Seq<OutV>, o: OutV)
    ensures
        #[trigger] no_str(v.push(o)) == (no_str(v) && no_str_of(o)),
{
    assert(v.push(o).drop_last() =~= v);
}

pub broadcast proof fn lemma_no_str_empty()
    ensures
        #[trigger] no_str(Seq::<OutV>::empty()),
{
}

pub broadcast proof fn lemma_no_str_cat(a: Seq<OutV>, b: Seq<OutV>)
    ensures
        #[trigger] no_str(a + b) == (no_str(a) && no_str(b)),
    decreases b.len(),
{
    if b.len() == 0 {
        assert(a + b =~= a);
    } else {
        lemma_no_str_cat(a, b.drop_last());
        assert((a + b).drop_last() =~= a + b.drop_last());
        assert((a + b).last() == b.last());
    }
}

/// Without string literals there is nothing to link to or export.
pub proof fn lemma_no_str_quiet(v: Seq<OutV>, d: Delim, key: Seq<char>)
    requires
        no_str(v),
    ensures
        names_in(v, d, key) == Seq::<Seq<char>>::empty(),
    decreases v,
{
    if v.len() > 0 {
        lemma_no_str_quiet(v.drop_last(), d, key);
        let o = v.last();
        assert(no_str_of(o));
        match o {
            OutV::Group(_, body, _) => {
                assert(no_str(body));
                if body.len() == 2 {
                    assert(no_str_of(body.last()));
                    assert(body.last() == body[1]);
                    assert(!(body[1] is Str));
                }
                assert(keyed(o, d, key) is None);
                lemma_no_str_quiet(body, d, key);
                assert(names_of(o, d, key) =~= Seq::<Seq<char>>::empty());
            },
            OutV::Str(..) => {},
            _ => {
                assert(names_of(o, d, key) =~= Seq::<Seq<char>>::empty());
            },
        }
        assert(names_in(v, d, key) =~= Seq::<Seq<char>>::empty());
    }
}

pub broadcast group group_no_str {
    lemma_no_str_push,
    lemma_no_str_empty,
    lemma_no_str_cat,
    lemma_no_str_index,
}

/// Input tokens hold no string literal of the macro's own.
pub proof fn lemma_toks_out_no_str(v: Seq<crate::tokens::TokV>)
    ensures
        no_str(crate::out::toks_out(v)),
    decreases v.len(),
{
    broadcast use group_no_str;

    if v.len() > 0 {
        lemma_toks_out_no_str(v.drop_last());
        assert(crate::out::toks_out(v) =~= crate::out::toks_out(v.drop_last()).push(
            OutV::Tok(v.last()),
        ));
    }
}

} // verus!

verus! {

/// The spellings of types hold no string literal.
pub proof fn lemma_shape_no_str(u: UnitraitInput, s: Shape, leaf: Leaf)
    requires
        leaf matches Leaf::Real(t, q) ==> no_str(outs_view(t@)) && no_str(outs_view(q@)),
    ensures
        no_str(shape_view(u, s, leaf)),
    decreases s,
{
    broadcast use group_no_str;

    match s {
        Shape::Plain(ty) => {
            lemma_toks_out_no_str(toks_view(ty@));
            assert(no_str(shape_view(u, s, leaf)));
        },
        Shape::Opaque { index, mode, span } => {
            lemma_leaf_no_str(u, leaf, index as int, span);
            assert(no_str(shape_view(u, s, leaf)));
        },
        Shape::Option(_, inner) => {
            lemma_shape_no_str(u, *inner, leaf);
            assert(no_str(shape_view(u, s, leaf)));
        },
        Shape::Result(_, ok, err) => {
            lemma_shape_no_str(u, *ok, leaf);
            lemma_shape_no_str(u, *err, leaf);
            assert(no_str(shape_view(u, s, leaf)));
        },
        Shape::Tuple(span, elems) => {
            assert(decreases_to!(elems => elems@)) by {
                broadcast use vstd::std_specs::vec::axiom_vec_decreases_to_view;
            }
            lemma_elems_no_str(u, elems@, leaf, span);
            assert(no_str_of(OutV::Group(Delim::Paren, elems_view(u, elems@, leaf, span), span)));
            assert(no_str(shape_view(u, s, leaf)));
        },
        Shape::Array(span, elem, len) => {
            lemma_shape_no_str(u, *elem, leaf);
            lemma_toks_out_no_str(toks_view(len@));
            assert(no_str(shape_view(u, *elem, leaf) + seq![text_v(";"@, span)] + crate::out::toks_out(toks_view(len@))));
            assert(no_str(shape_view(u, s, leaf)));
        },
    }
}

pub proof fn lemma_elems_no_str(u: UnitraitInput, s: Seq<Shape>, leaf: Leaf, span: u64)
    requires
        leaf matches Leaf::Real(t, q) ==> no_str(outs_view(t@)) && no_str(outs_view(q@)),
    ensures
        no_str(elems_view(u, s, leaf, span)),
    decreases s,
{
    broadcast use group_no_str;

    if s.len() > 0 {
        lemma_elems_no_str(u, s.drop_last(), leaf, span);
        lemma_shape_no_str(u, s.last(), leaf);
    }
}

pub proof fn lemma_leaf_no_str(u: UnitraitInput, leaf: Leaf, i: int, span: u64)
    requires
        leaf matches Leaf::Real(t, q) ==> no_str(outs_view(t@)) && no_str(outs_view(q@)),
    ensures
        no_str(leaf_view(u, leaf, i, span)),
{
    broadcast use group_no_str;

    lemma_toks_out_no_str(toks_view(u.path@));
}

/// The bridge's spellings hold no string literal.
pub open spec fn bridge_quiet(b: Bridge) -> bool {
    no_str(outs_view(b.timpl@)) && no_str(outs_view(b.trait_qpath@))
}

pub proof fn lemma_bridge_quiet(b: Bridge, u: UnitraitInput)
    requires
        bridge_of(b, u),
    ensures
        bridge_quiet(b),
{
    broadcast use group_no_str;

    lemma_toks_out_no_str(toks_view(u.path@));
}

/// The conversions hold no string literal.
pub proof fn lemma_convert_no_str(b: Bridge, s: Shape, expr: Seq<OutV>, dir: Dir)
    requires
        bridge_quiet(b),
        no_str(expr),
    ensures
        no_str(convert_view(b, s, expr, dir)),
    decreases s,
{
    broadcast use group_no_str;

    match s {
        Shape::Plain(_) => {},
        Shape::Opaque { index, mode, .. } => {
            lemma_toks_out_no_str(toks_view(b.input.path@));
            lemma_convert_leaf_no_str(b, index as int, mode, expr, dir);
            assert(no_str(convert_view(b, s, expr, dir)));
        },
        Shape::Option(_, inner) => {
            lemma_convert_no_str(b, *inner, seq![text_v("__unitrait_v"@, 0)], dir);
            let c = convert_view(b, *inner, seq![text_v("__unitrait_v"@, 0)], dir);
            assert(no_str(seq![
                text_v("::core::option::Option::Some(__unitrait_v) => ::core::option::Option::Some"@, 0),
                OutV::Group(Delim::Paren, c, 0),
                text_v(", ::core::option::Option::None => ::core::option::Option::None,"@, 0),
            ]));
            assert(no_str(convert_view(b, s, expr, dir)));
        },
        Shape::Result(_, ok, err) => {
            lemma_convert_no_str(b, *ok, seq![text_v("__unitrait_v"@, 0)], dir);
            lemma_convert_no_str(b, *err, seq![text_v("__unitrait_v"@, 0)], dir);
            let okc = convert_view(b, *ok, seq![text_v("__unitrait_v"@, 0)], dir);
            let errc = convert_view(b, *err, seq![text_v("__unitrait_v"@, 0)], dir);
            assert(no_str(seq![
                text_v("::core::result::Result::Ok(__unitrait_v) => ::core::result::Result::Ok"@, 0),
                OutV::Group(Delim::Paren, okc, 0),
                text_v(", ::core::result::Result::Err(__unitrait_v) => ::core::result::Result::Err"@, 0),
                OutV::Group(Delim::Paren, errc, 0),
                text_v(","@, 0),
            ]));
        },
        Shape::Tuple(_, elems) => {
            assert(decreases_to!(elems => elems@)) by {
                broadcast use vstd::std_specs::vec::axiom_vec_decreases_to_view;
            }
            lemma_tuple_names_no_str(elems@.len());
            lemma_tuple_convs_no_str(b, elems@, dir);
            let block = seq![
                text_v("let"@, 0),
                OutV::Group(Delim::Paren, tuple_names_view(elems@.len()), 0),
                text_v("="@, 0),
            ] + expr + seq![
                text_v(";"@, 0),
                OutV::Group(Delim::Paren, tuple_convs_view(b, elems@, dir), 0),
            ];
            assert(no_str(block));
            assert(no_str(convert_view(b, s, expr, dir)));
        },
        Shape::Array(_, elem, len) => {
            lemma_shape_no_str(*b.input, *elem, Leaf::Impl);
            lemma_shape_no_str(*b.input, *elem, Leaf::Real(&b.timpl, &b.trait_qpath));
            lemma_toks_out_no_str(toks_view(len@));
            lemma_convert_no_str(b, *elem, seq![text_v("__unitrait_v"@, 0)], dir);
            let source = match dir {
                Dir::Unwrap => shape_view(*b.input, *elem, Leaf::Impl),
                Dir::Wrap => shape_view(*b.input, *elem, Leaf::Real(&b.timpl, &b.trait_qpath)),
            };
            assert(no_str(source + seq![text_v(";"@, 0)] + crate::out::toks_out(toks_view(len@))));
            assert(no_str(expr + seq![text_v(", |__unitrait_v|"@, 0)] + convert_view(
                b,
                *elem,
                seq![text_v("__unitrait_v"@, 0)],
                dir,
            )));
            assert(no_str(convert_view(b, s, expr, dir)));
        },
    }
}

pub proof fn lemma_convert_leaf_no_str(b: Bridge, i: int, mode: Mode, expr: Seq<OutV>, dir: Dir)
    requires
        bridge_quiet(b),
        no_str(expr),
    ensures
        no_str(convert_leaf_view(b, i, mode, expr, dir)),
{
    broadcast use group_no_str;

    lemma_toks_out_no_str(toks_view(b.input.path@));
    let r = real_view(b, i);
    let q = qopaque_view(b, i);
    assert(no_str(r));
    assert(no_str(q));
    let t = |s: Seq<char>| text_v(s, 0);
    let p = |v: Seq<OutV>| OutV::Group(Delim::Paren, v, 0);
    let k = |v: Seq<OutV>| OutV::Group(Delim::Brace, v, 0);
    match (dir, mode) {
        (Dir::Unwrap, Mode::Value) => {
            let c = seq![t("&__unitrait_v as *const ::core::mem::ManuallyDrop<"@)] + q + seq![
                t("> as *const"@),
            ] + r;
            assert(no_str(c));
            assert(no_str(seq![p(c), t(".read()"@)]));
        },
        (Dir::Unwrap, Mode::Ref) => {
            let c = seq![t("__unitrait_v as *const"@)] + q + seq![t("as *const"@)] + r;
            assert(no_str(c));
            assert(no_str(seq![t("&*"@), p(c)]));
        },
        (Dir::Unwrap, Mode::RefMut) => {
            let c = seq![t("__unitrait_v as *mut"@)] + q + seq![t("as *mut"@)] + r;
            assert(no_str(c));
            assert(no_str(seq![t("&mut *"@), p(c)]));
        },
        (Dir::Unwrap, Mode::PinRef) => {
            let c = seq![t("__unitrait_v as *const"@)] + q + seq![t("as *const"@)] + r;
            assert(no_str(c));
            assert(no_str(seq![t("&*"@), p(c)]));
            let body = seq![t("let __unitrait_v: &"@)] + q + seq![
                t("= ::core::pin::Pin::get_ref(__unitrait_v); ::core::pin::Pin::new_unchecked"@),
                p(seq![t("&*"@), p(c)]),
            ];
            assert(no_str(body));
        },
        (Dir::Unwrap, Mode::PinRefMut) => {
            let c = seq![t("__unitrait_v as *mut"@)] + q + seq![t("as *mut"@)] + r;
            assert(no_str(c));
            assert(no_str(seq![t("&mut *"@), p(c)]));
            let body = seq![t("let __unitrait_v: &mut"@)] + q + seq![
                t(
                    "= ::core::pin::Pin::get_unchecked_mut(__unitrait_v); ::core::pin::Pin::new_unchecked"@,
                ),
                p(seq![t("&mut *"@), p(c)]),
            ];
            assert(no_str(body));
        },
        _ => {
            let c = seq![t("__unitrait_out.as_mut_ptr() as *mut"@)] + r;
            assert(no_str(c));
            assert(no_str(seq![p(c), t(".write(__unitrait_v); __unitrait_out.assume_init()"@)]));
        },
    }
    assert(no_str(crate::bridge::convert_leaf_block(b, i, mode, expr, dir)));
}

pub proof fn lemma_tuple_names_no_str(n: nat)
    ensures
        no_str(tuple_names_view(n)),
    decreases n,
{
    broadcast use group_no_str;

    if n > 0 {
        lemma_tuple_names_no_str((n - 1) as nat);
    }
}

pub proof fn lemma_tuple_convs_no_str(b: Bridge, s: Seq<Shape>, dir: Dir)
    requires
        bridge_quiet(b),
    ensures
        no_str(tuple_convs_view(b, s, dir)),
    decreases s,
{
    broadcast use group_no_str;

    if s.len() > 0 {
        lemma_tuple_convs_no_str(b, s.drop_last(), dir);
        lemma_convert_no_str(
            b,
            s.last(),
            seq![OutV::Ident(tuple_name_view((s.len() - 1) as nat), 0)],
            dir,
        );
    }
}

} // verus!

verus! {

pub broadcast proof fn lemma_no_str_index(v: Seq<OutV>)
    ensures
        #[trigger] no_str(v) <==> forall|i: int| 0 <= i < v.len() ==> no_str_of(#[trigger] v[i]),
    decreases v.len(),
{
    if v.len() > 0 {
        lemma_no_str_index(v.drop_last());
        if no_str(v) {
            assert forall|i: int| 0 <= i < v.len() implies no_str_of(#[trigger] v[i]) by {
                if i < v.len() - 1 {
                    assert(v.drop_last()[i] == v[i]);
                }
            }
        }
        if forall|i: int| 0 <= i < v.len() ==> no_str_of(#[trigger] v[i]) {
            assert forall|i: int| 0 <= i < v.drop_last().len() implies no_str_of(#[trigger] v.drop_last()[i]) by {
                assert(v.drop_last()[i] == v[i]);
            }
            assert(no_str_of(v[v.len() - 1]));
        }
    }
}

} // verus!

verus! {

/// The strings of the first `n` trees of `v`, counted by index.
pub open spec fn names_upto(v: Seq<OutV>, n: nat, d: Delim, key: Seq<char>) -> Seq<Seq<char>>
    decreases n,
{
    if n == 0 || n > v.len() {
        Seq::empty()
    } else {
        names_upto(v, (n - 1) as nat, d, key) + names_of(v[n - 1], d, key)
    }
}

proof fn lemma_names_upto_agree(v: Seq<OutV>, w: Seq<OutV>, n: nat, d: Delim, key: Seq<char>)
    requires
        n <= v.len(),
        n <= w.len(),
        forall|i: int| 0 <= i < n ==> v[i] == w[i],
    ensures
        names_upto(v, n, d, key) == names_upto(w, n, d, key),
    decreases n,
{
    if n > 0 {
        lemma_names_upto_agree(v, w, (n - 1) as nat, d, key);
    }
}

/// The strings of a list of trees, counted by index: how a written-out list is read.
pub proof fn lemma_names_index(v: Seq<OutV>, d: Delim, key: Seq<char>)
    ensures
        names_in(v, d, key) == names_upto(v, v.len(), d, key),
    decreases v.len(),
{
    if v.len() > 0 {
        lemma_names_index(v.drop_last(), d, key);
        lemma_names_upto_agree(v, v.drop_last(), (v.len() - 1) as nat, d, key);
    }
}

/// The link symbol of an extern block is its `#[link_name]`, and it exports nothing.
pub proof fn lemma_extern_block_names(s: Seq<char>, sp: u64, safe: bool, params: Seq<OutV>, ret: Seq<OutV>)
    requires
        no_str(params),
        no_str(ret),
    ensures
        link_names(extern_block_view(OutV::Str(s, sp), safe, params, ret)) == seq![s],
        export_names(extern_block_view(OutV::Str(s, sp), safe, params, ret)) == Seq::<Seq<char>>::empty(),
{
    broadcast use group_names, group_no_str;

    let sym = OutV::Str(s, sp);
    let link = seq![t("link_name ="@), sym];
    let head = seq![t("#"@), group(Delim::Bracket, link)];
    let safety = if safe {
        seq![t("safe"@)]
    } else {
        Seq::empty()
    };
    let mid = seq![t("fn extern_fn"@), group(Delim::Paren, params)];
    let end = seq![t(";"@)];
    let body = head + safety + mid + ret + end;
    assert(no_str(safety));
    assert(no_str(mid));
    assert(no_str(end));
    lemma_no_str_quiet(safety, Delim::Bracket, "link_name ="@);
    lemma_no_str_quiet(safety, Delim::Paren, "export_name ="@);
    lemma_no_str_quiet(mid, Delim::Bracket, "link_name ="@);
    lemma_no_str_quiet(mid, Delim::Paren, "export_name ="@);
    lemma_no_str_quiet(ret, Delim::Bracket, "link_name ="@);
    lemma_no_str_quiet(ret, Delim::Paren, "export_name ="@);
    lemma_no_str_quiet(end, Delim::Bracket, "link_name ="@);
    lemma_no_str_quiet(end, Delim::Paren, "export_name ="@);
    reveal_with_fuel(names_upto, 3);
    lemma_names_index(link, Delim::Paren, "export_name ="@);
    lemma_names_index(head, Delim::Bracket, "link_name ="@);
    lemma_names_index(head, Delim::Paren, "export_name ="@);
    assert(names_in(head, Delim::Bracket, "link_name ="@) =~= seq![s]);
    assert(names_in(head, Delim::Paren, "export_name ="@) =~= Seq::<Seq<char>>::empty());
    assert(names_in(body, Delim::Bracket, "link_name ="@) =~= seq![s]);
    assert(names_in(body, Delim::Paren, "export_name ="@) =~= Seq::<Seq<char>>::empty());
    assert(names_of(group(Delim::Brace, body), Delim::Bracket, "link_name ="@) == names_in(body, Delim::Bracket, "link_name ="@));
    assert(names_of(group(Delim::Brace, body), Delim::Paren, "export_name ="@) == names_in(body, Delim::Paren, "export_name ="@));
    assert(names_of(t("unsafe extern \"Rust\""@), Delim::Bracket, "link_name ="@) =~= Seq::<Seq<char>>::empty());
    assert(names_of(t("unsafe extern \"Rust\""@), Delim::Paren, "export_name ="@) =~= Seq::<Seq<char>>::empty());
    let whole = extern_block_view(sym, safe, params, ret);
    assert(whole == seq![t("unsafe extern \"Rust\""@), group(Delim::Brace, body)]);
    lemma_names_index(whole, Delim::Bracket, "link_name ="@);
    lemma_names_index(whole, Delim::Paren, "export_name ="@);
    assert(link_names(whole) =~= seq![s]);
    assert(export_names(whole) =~= Seq::<Seq<char>>::empty());
}

} // verus!

verus! {

/// Doc comments and attributes are input tokens: no string literal of the macro's own.
pub proof fn lemma_attrs_no_str(a: Seq<Attr>)
    ensures
        no_str(attrs_view(a)),
    decreases a.len(),
{
    broadcast use group_no_str;

    if a.len() > 0 {
        lemma_attrs_no_str(a.drop_last());
    }
}

pub proof fn lemma_params_no_str(u: UnitraitInput, m: Method, s: MethodShapes, leaf: Leaf, n: nat)
    requires
        leaf matches Leaf::Real(x, q) ==> no_str(outs_view(x@)) && no_str(outs_view(q@)),
    ensures
        no_str(params_view(u, m, s, leaf, n)),
    decreases n,
{
    broadcast use group_no_str;

    if n > 0 {
        lemma_params_no_str(u, m, s, leaf, (n - 1) as nat);
        lemma_shape_no_str(u, s.args@[n - 1], leaf);
    }
}

pub proof fn lemma_ret_no_str(u: UnitraitInput, s: MethodShapes, leaf: Leaf)
    requires
        leaf matches Leaf::Real(x, q) ==> no_str(outs_view(x@)) && no_str(outs_view(q@)),
    ensures
        no_str(ret_view(u, s, leaf)),
{
    broadcast use group_no_str;

    if let Some(r) = s.ret {
        lemma_shape_no_str(u, r, leaf);
    }
}

pub proof fn lemma_arg_ids_no_str(m: Method, n: nat)
    ensures
        no_str(arg_ids_view(m, n)),
    decreases n,
{
    broadcast use group_no_str;

    if n > 0 {
        lemma_arg_ids_no_str(m, (n - 1) as nat);
    }
}

pub proof fn lemma_bounds_no_str(ms: Seq<Marker>, n: nat)
    ensures
        no_str(bounds_view(ms, n)),
    decreases n,
{
    broadcast use group_no_str;

    if n > 0 {
        lemma_bounds_no_str(ms, (n - 1) as nat);
    }
}

/// The trait's items hold no string literal of the macro's own.
pub proof fn lemma_trait_items_no_str(u: UnitraitInput, ms: Seq<MethodShapes>)
    ensures
        no_str(trait_opaques_view(u, u.opaques@.len())),
        no_str(trait_methods_view(u, ms, u.methods@.len())),
{
    lemma_trait_opaques_no_str(u, u.opaques@.len());
    lemma_trait_methods_no_str(u, ms, u.methods@.len());
}

proof fn lemma_trait_opaques_no_str(u: UnitraitInput, n: nat)
    ensures
        no_str(trait_opaques_view(u, n)),
    decreases n,
{
    broadcast use group_no_str;

    if n > 0 {
        lemma_trait_opaques_no_str(u, (n - 1) as nat);
        let o = u.opaques@[n - 1];
        lemma_attrs_no_str(o.docs@);
        lemma_bounds_no_str(o.bounds@, o.bounds@.len());
    }
}

proof fn lemma_trait_methods_no_str(u: UnitraitInput, ms: Seq<MethodShapes>, n: nat)
    ensures
        no_str(trait_methods_view(u, ms, n)),
    decreases n,
{
    broadcast use group_no_str;

    if n > 0 {
        lemma_trait_methods_no_str(u, ms, (n - 1) as nat);
        let m = u.methods@[n - 1];
        let s = ms[n - 1];
        lemma_attrs_no_str(m.docs@);
        lemma_params_no_str(u, m, s, Leaf::Trait, m.args@.len());
        lemma_ret_no_str(u, s, Leaf::Trait);
        assert(no_str(unsafety_view(m)));
        assert(no_str(trait_method_view(u, m, s)));
    }
}

/// The dispatch type's impl of the trait holds no string literal of the macro's own.
pub proof fn lemma_dispatch_impl_no_str(u: UnitraitInput, ms: Seq<MethodShapes>, n: nat)
    ensures
        no_str(dispatch_impl_methods_view(u, ms, n)),
        no_str(dispatch_assocs_view(u, u.opaques@.len())),
    decreases n,
{
    broadcast use group_no_str;

    lemma_dispatch_assocs_no_str(u, u.opaques@.len());
    if n > 0 {
        lemma_dispatch_impl_no_str(u, ms, (n - 1) as nat);
        let m = u.methods@[n - 1];
        let s = ms[n - 1];
        lemma_params_no_str(u, m, s, Leaf::Caller, m.args@.len());
        lemma_ret_no_str(u, s, Leaf::Caller);
        lemma_arg_ids_no_str(m, m.args@.len());
        assert(no_str(unsafety_view(m)));
        let call = seq![
            t("<"@),
            tok_v(u.dispatch),
            t(">::"@),
            tok_v(m.name),
            group(Delim::Paren, all_arg_ids_view(m)),
        ];
        assert(no_str(call));
        assert(no_str(seq![t("unsafe"@), group(Delim::Brace, call)]));
        assert(no_str(guarded_view(m, call)));
        assert(no_str(dispatch_impl_method_view(u, m, s)));
    }
}

proof fn lemma_dispatch_assocs_no_str(u: UnitraitInput, n: nat)
    ensures
        no_str(dispatch_assocs_view(u, n)),
    decreases n,
{
    broadcast use group_no_str;

    if n > 0 {
        lemma_dispatch_assocs_no_str(u, (n - 1) as nat);
    }
}

} // verus!

verus! {

/// The clone symbol of an opaque type, if it has one.
pub open spec fn clone_links(o: OpaqueDecl) -> Seq<Seq<char>> {
    match o.clone_symbol {
        Some(s) => seq![s.value@],
        None => Seq::empty(),
    }
}

/// The drop symbol of an opaque type, if it has one.
pub open spec fn drop_links(o: OpaqueDecl) -> Seq<Seq<char>> {
    match o.drop_symbol {
        Some(s) => seq![s.value@],
        None => Seq::empty(),
    }
}

/// The symbols the impls of the first `n` markers link to.
pub open spec fn marker_links(o: OpaqueDecl, n: nat) -> Seq<Seq<char>>
    decreases n,
{
    if n == 0 {
        Seq::empty()
    } else {
        marker_links(o, (n - 1) as nat) + if o.bounds@[n - 1] == Marker::Clone {
            clone_links(o)
        } else {
            Seq::empty()
        }
    }
}

/// The symbols the opaque structs of the first `n` opaque types link to: each one's clone
/// symbol, then its drop symbol.
pub open spec fn opaques_links(u: UnitraitInput, n: nat) -> Seq<Seq<char>>
    decreases n,
{
    if n == 0 {
        Seq::empty()
    } else {
        opaques_links(u, (n - 1) as nat) + clone_links(u.opaques@[n - 1]) + drop_links(
            u.opaques@[n - 1],
        )
    }
}

/// The symbols the implementation macro exports for the first `n` opaque types: each one's
/// drop symbol, then its clone symbol.
pub open spec fn opaques_exports(u: UnitraitInput, n: nat) -> Seq<Seq<char>>
    decreases n,
{
    if n == 0 {
        Seq::empty()
    } else {
        opaques_exports(u, (n - 1) as nat) + drop_links(u.opaques@[n - 1]) + clone_links(
            u.opaques@[n - 1],
        )
    }
}

/// The symbols of the first `n` methods.
pub open spec fn method_symbols(u: UnitraitInput, n: nat) -> Seq<Seq<char>>
    decreases n,
{
    if n == 0 {
        Seq::empty()
    } else {
        method_symbols(u, (n - 1) as nat) + seq![u.methods@[n - 1].symbol.value@]
    }
}

pub open spec fn quiet(v: Seq<OutV>) -> bool {
    &&& link_names(v) == Seq::<Seq<char>>::empty()
    &&& export_names(v) == Seq::<Seq<char>>::empty()
}

pub proof fn lemma_no_str_is_quiet(v: Seq<OutV>)
    requires
        no_str(v),
    ensures
        quiet(v),
{
    lemma_no_str_quiet(v, Delim::Bracket, "link_name ="@);
    lemma_no_str_quiet(v, Delim::Paren, "export_name ="@);
}

pub proof fn lemma_struct_def_no_str(o: OpaqueDecl, align: OutV, padded: OutV)
    requires
        no_str_of(align),
        no_str_of(padded),
    ensures
        no_str(struct_def_view(o, align, padded)),
{
    broadcast use group_no_str;

    lemma_attrs_no_str(o.docs@);
    lemma_toks_out_no_str(toks_view(o.vis@));
    assert(no_str(seq![align]));
    assert(no_str_of(group(Delim::Paren, seq![align])));
    let inner = seq![t("C, align"@), group(Delim::Paren, seq![align])];
    assert(no_str(inner));
    assert(no_str_of(group(Delim::Paren, inner)));
    let repr = seq![t("repr"@), group(Delim::Paren, inner)];
    assert(no_str(repr));
    assert(no_str_of(group(Delim::Bracket, repr)));
    let arr = seq![t("u8;"@), padded];
    assert(no_str(arr));
    assert(no_str_of(group(Delim::Bracket, arr)));
    let fields = seq![
        t("_data: ::core::mem::MaybeUninit<"@),
        group(Delim::Bracket, arr),
        t(">,"@),
        t(
            "_not_auto: ::core::marker::PhantomData<(*mut (), ::core::marker::PhantomPinned, &'static mut (), ::core::cell::UnsafeCell<()>,)>,"@,
        ),
    ];
    assert(no_str(fields));
    assert(no_str_of(group(Delim::Brace, fields)));
    assert(no_str(seq![t("#"@), group(Delim::Bracket, repr)]));
    assert(no_str(seq![t("struct"@), crate::template::opaque_name_v(o), group(Delim::Brace, fields)]));
}

proof fn lemma_layout_arms_no_str(o: OpaqueDecl, n: nat)
    ensures
        no_str(layout_arms_view(o, n)),
    decreases n,
{
    broadcast use group_no_str;

    if n > 0 {
        lemma_layout_arms_no_str(o, (n - 1) as nat);
        let l = o.layouts@[n - 1];
        lemma_struct_def_no_str(o, tok_v(l.align), OutV::Int(l.padded_size, l.size_span));
        if let Some(cfg) = l.cfg {
            lemma_toks_out_no_str(toks_view(cfg@));
        }
    }
}

/// An opaque struct's definition links to nothing and exports nothing.
pub proof fn lemma_opaque_def_quiet(o: OpaqueDecl)
    ensures
        quiet(opaque_def_view(o)),
{
    broadcast use group_no_str, group_names;

    let n = o.layouts@.len();
    if n == 1 && o.layouts@[0].cfg is None {
        let l = o.layouts@[0];
        lemma_struct_def_no_str(o, tok_v(l.align), OutV::Int(l.padded_size, l.size_span));
        lemma_no_str_is_quiet(opaque_def_view(o));
    } else {
        lemma_layout_arms_no_str(o, n);
        lemma_no_str_is_quiet(layout_arms_view(o, n));
        if o.layouts@[n - 1].cfg is Some {
            let span = crate::tokens::span_of(o.assoc);
            let sd = struct_def_view(o, OutV::Int(1, span), OutV::Int(0, span));
            lemma_struct_def_no_str(o, OutV::Int(1, span), OutV::Int(0, span));
            lemma_no_str_is_quiet(sd);
            let msg = seq![OutV::Str(no_layout_message(o), span)];
            let err = OutV::Group(Delim::Paren, msg, span);
            let head = seq![text_v("::core::compile_error!"@, span), err, text_v(";"@, span)];
            reveal_with_fuel(names_upto, 4);
            lemma_names_index(msg, Delim::Bracket, "link_name ="@);
            lemma_names_index(msg, Delim::Paren, "export_name ="@);
            assert(names_of(err, Delim::Bracket, "link_name ="@) =~= Seq::<Seq<char>>::empty());
            assert(names_of(err, Delim::Paren, "export_name ="@) =~= Seq::<Seq<char>>::empty());
            lemma_names_index(head, Delim::Bracket, "link_name ="@);
            lemma_names_index(head, Delim::Paren, "export_name ="@);
            assert(quiet(head));
            let body = head + sd;
            assert(quiet(body));
            let arm = no_layout_arm(o);
            assert(arm == seq![t("_ =>"@), group(Delim::Brace, body)]);
            lemma_names_index(arm, Delim::Bracket, "link_name ="@);
            lemma_names_index(arm, Delim::Paren, "export_name ="@);
            assert(names_of(group(Delim::Brace, body), Delim::Bracket, "link_name ="@) == names_in(body, Delim::Bracket, "link_name ="@));
            assert(names_of(group(Delim::Brace, body), Delim::Paren, "export_name ="@) == names_in(body, Delim::Paren, "export_name ="@));
            assert(quiet(arm));
            let all = layout_arms_view(o, n) + arm;
            assert(quiet(all));
            let v = opaque_def_view(o);
            assert(v == seq![t("::core::cfg_select!"@), group(Delim::Brace, all)]);
            lemma_names_index(v, Delim::Bracket, "link_name ="@);
            lemma_names_index(v, Delim::Paren, "export_name ="@);
            assert(names_of(group(Delim::Brace, all), Delim::Bracket, "link_name ="@) == names_in(all, Delim::Bracket, "link_name ="@));
            assert(names_of(group(Delim::Brace, all), Delim::Paren, "export_name ="@) == names_in(all, Delim::Paren, "export_name ="@));
            assert(quiet(v));
        } else {
            let all = layout_arms_view(o, n) + Seq::<OutV>::empty();
            assert(all =~= layout_arms_view(o, n));
            assert(no_str(opaque_def_view(o)));
            lemma_no_str_is_quiet(opaque_def_view(o));
        }
    }
}

} // verus!

verus! {

/// A method written by the macro links to and exports what its body does.
pub proof fn lemma_inline_fn_names(head: Seq<char>, params: Seq<OutV>, ret: Seq<OutV>, body: Seq<OutV>)
    requires
        no_str(params),
        no_str(ret),
    ensures
        link_names(inline_fn_view(head, params, ret, body)) == link_names(body),
        export_names(inline_fn_view(head, params, ret, body)) == export_names(body),
{
    broadcast use group_no_str, group_names;

    let a = seq![t("#[inline] fn"@), t(head), group(Delim::Paren, params)];
    assert(no_str(a));
    lemma_no_str_is_quiet(a);
    lemma_no_str_is_quiet(ret);
    let b = seq![group(Delim::Brace, body)];
    assert(names_in(b, Delim::Bracket, "link_name ="@) == names_in(body, Delim::Bracket, "link_name ="@));
    assert(names_in(b, Delim::Paren, "export_name ="@) == names_in(body, Delim::Paren, "export_name ="@));
    assert(inline_fn_view(head, params, ret, body) == a + ret + b);
}

pub proof fn lemma_marker_path_no_str(m: Marker)
    ensures
        no_str(marker_path_view(m)),
{
    broadcast use group_no_str;

}

/// The impl of a marker links to the clone symbol when the marker is `Clone`, and to
/// nothing otherwise; it exports nothing.
pub proof fn lemma_marker_impl_names(o: OpaqueDecl, m: Marker)
    requires
        m == Marker::Clone ==> o.clone_symbol is Some,
    ensures
        link_names(marker_impl_view(o, m)) == (if m == Marker::Clone {
            clone_links(o)
        } else {
            Seq::<Seq<char>>::empty()
        }),
        export_names(marker_impl_view(o, m)) == Seq::<Seq<char>>::empty(),
{
    broadcast use group_no_str, group_names;

    lemma_marker_path_no_str(m);
    let name = opaque_name_v(o);
    match m {
        Marker::Clone => {
            let s = o.clone_symbol->0;
            let eb = extern_block_view(
                sym_v(s),
                true,
                seq![t("this: &"@), name],
                seq![t("->"@), name],
            );
            assert(no_str(seq![t("this: &"@), name]));
            assert(no_str(seq![t("->"@), name]));
            lemma_extern_block_names(s.value@, s.span, true, seq![t("this: &"@), name], seq![t("->"@), name]);
            let fb = eb + seq![t("extern_fn(self)"@)];
            assert(no_str(seq![t("extern_fn(self)"@)]));
            lemma_no_str_is_quiet(seq![t("extern_fn(self)"@)]);
            assert(link_names(fb) =~= seq![s.value@]);
            assert(export_names(fb) =~= Seq::<Seq<char>>::empty());
            assert(no_str(seq![t("&self"@)]));
            assert(no_str(seq![t("-> Self"@)]));
            lemma_inline_fn_names("clone"@, seq![t("&self"@)], seq![t("-> Self"@)], fb);
            let f = inline_fn_view("clone"@, seq![t("&self"@)], seq![t("-> Self"@)], fb);
            let tail = seq![t("for"@), name, group(Delim::Brace, f)];
            reveal_with_fuel(names_upto, 4);
            lemma_names_index(tail, Delim::Bracket, "link_name ="@);
            lemma_names_index(tail, Delim::Paren, "export_name ="@);
            assert(names_of(group(Delim::Brace, f), Delim::Bracket, "link_name ="@) == link_names(f));
            assert(names_of(group(Delim::Brace, f), Delim::Paren, "export_name ="@) == export_names(f));
            assert(link_names(tail) =~= seq![s.value@]);
            assert(export_names(tail) =~= Seq::<Seq<char>>::empty());
            let head = seq![t("impl"@)] + marker_path_view(m);
            lemma_no_str_is_quiet(head);
            assert(marker_impl_view(o, m) == head + tail);
            assert(link_names(marker_impl_view(o, m)) =~= clone_links(o));
        },
        Marker::Copy => {
            let f = inline_fn_view("clone"@, seq![t("&self"@)], seq![t("-> Self"@)], seq![t("*self"@)]);
            assert(no_str(seq![t("&self"@)]));
            assert(no_str(seq![t("-> Self"@)]));
            assert(no_str(seq![t("*self"@)]));
            assert(no_str(seq![group(Delim::Brace, seq![t("*self"@)])]));
            assert(no_str(f));
            assert(no_str(seq![group(Delim::Brace, Seq::<OutV>::empty())]));
            assert(no_str(marker_impl_view(o, m)));
            lemma_no_str_is_quiet(marker_impl_view(o, m));
        },
        _ => {
            assert(no_str(seq![group(Delim::Brace, Seq::<OutV>::empty())]));
            assert(no_str(marker_impl_view(o, m)));
            lemma_no_str_is_quiet(marker_impl_view(o, m));
        },
    }
}

/// The `Drop` impl links to the drop symbol, if there is one.
pub proof fn lemma_drop_impl_names(o: OpaqueDecl)
    ensures
        link_names(drop_impl_view(o)) == drop_links(o),
        export_names(drop_impl_view(o)) == Seq::<Seq<char>>::empty(),
{
    broadcast use group_no_str, group_names;

    match o.drop_symbol {
        None => {},
        Some(s) => {
            let name = opaque_name_v(o);
            assert(no_str(seq![t("this: &mut"@), name]));
            lemma_extern_block_names(s.value@, s.span, true, seq![t("this: &mut"@), name], Seq::empty());
            let eb = extern_block_view(sym_v(s), true, seq![t("this: &mut"@), name], Seq::empty());
            let fb = eb + seq![t("extern_fn(self)"@)];
            lemma_no_str_is_quiet(seq![t("extern_fn(self)"@)]);
            assert(link_names(fb) =~= seq![s.value@]);
            assert(export_names(fb) =~= Seq::<Seq<char>>::empty());
            assert(no_str(seq![t("&mut self"@)]));
            lemma_inline_fn_names("drop"@, seq![t("&mut self"@)], Seq::empty(), fb);
            let f = inline_fn_view("drop"@, seq![t("&mut self"@)], Seq::empty(), fb);
            let v = drop_impl_view(o);
            assert(v == seq![t("impl ::core::ops::Drop for"@), name, group(Delim::Brace, f)]);
            reveal_with_fuel(names_upto, 4);
            lemma_names_index(v, Delim::Bracket, "link_name ="@);
            lemma_names_index(v, Delim::Paren, "export_name ="@);
            assert(names_of(group(Delim::Brace, f), Delim::Bracket, "link_name ="@) == link_names(f));
            assert(names_of(group(Delim::Brace, f), Delim::Paren, "export_name ="@) == export_names(f));
            assert(link_names(v) =~= drop_links(o));
            assert(export_names(v) =~= Seq::<Seq<char>>::empty());
        },
    }
}

} // verus!

verus! {

proof fn lemma_marker_impls_names(o: OpaqueDecl, n: nat)
    requires
        opaque_wf(o),
        n <= o.bounds@.len(),
    ensures
        link_names(marker_impls_view(o, n)) == marker_links(o, n),
        export_names(marker_impls_view(o, n)) == Seq::<Seq<char>>::empty(),
    decreases n,
{
    broadcast use group_names;

    if n > 0 {
        lemma_marker_impls_names(o, (n - 1) as nat);
        let m = o.bounds@[n - 1];
        if m == Marker::Clone {
            assert(o.bounds@.contains(Marker::Clone));
        }
        lemma_marker_impl_names(o, m);
        assert(link_names(marker_impls_view(o, n)) =~= marker_links(o, n));
        assert(export_names(marker_impls_view(o, n)) =~= Seq::<Seq<char>>::empty());
    }
}

/// The impls of the markers link to the clone symbol once, exactly when there is one:
/// `Clone` is declared at most once, and declared exactly when there is a clone symbol.
proof fn lemma_marker_links_wf(o: OpaqueDecl, n: nat)
    requires
        opaque_wf(o),
        n <= o.bounds@.len(),
    ensures
        marker_links(o, n) == (if o.bounds@.take(n as int).contains(Marker::Clone) {
            clone_links(o)
        } else {
            Seq::<Seq<char>>::empty()
        }),
    decreases n,
{
    if n > 0 {
        lemma_marker_links_wf(o, (n - 1) as nat);
        let pre = o.bounds@.take(n - 1);
        let cur = o.bounds@.take(n as int);
        assert(cur =~= pre.push(o.bounds@[n - 1]));
        if o.bounds@[n - 1] == Marker::Clone {
            if pre.contains(Marker::Clone) {
                let k = choose|k: int| 0 <= k < pre.len() && pre[k] == Marker::Clone;
                assert(o.bounds@[k] == o.bounds@[n - 1]);
            }
            assert(cur[n - 1] == Marker::Clone);
            assert(cur.contains(Marker::Clone));
            assert(marker_links(o, n) =~= clone_links(o));
        } else {
            if cur.contains(Marker::Clone) {
                let k = choose|k: int| 0 <= k < cur.len() && cur[k] == Marker::Clone;
                assert(pre[k] == Marker::Clone);
            }
            if pre.contains(Marker::Clone) {
                let k = choose|k: int| 0 <= k < pre.len() && pre[k] == Marker::Clone;
                assert(cur[k] == Marker::Clone);
            }
            assert(marker_links(o, n) =~= marker_links(o, (n - 1) as nat));
        }
    }
}

/// The opaque struct of one opaque type links to its clone symbol and then its drop
/// symbol, and exports nothing.
pub proof fn lemma_opaque_struct_names(o: OpaqueDecl)
    requires
        opaque_wf(o),
    ensures
        link_names(opaque_struct_view(o)) == clone_links(o) + drop_links(o),
        export_names(opaque_struct_view(o)) == Seq::<Seq<char>>::empty(),
{
    broadcast use group_names;

    lemma_opaque_def_quiet(o);
    lemma_marker_impls_names(o, o.bounds@.len());
    lemma_marker_links_wf(o, o.bounds@.len());
    assert(o.bounds@.take(o.bounds@.len() as int) =~= o.bounds@);
    if o.clone_symbol is None {
        assert(clone_links(o) =~= Seq::<Seq<char>>::empty());
    }
    lemma_drop_impl_names(o);
    assert(link_names(opaque_struct_view(o)) =~= clone_links(o) + drop_links(o));
    assert(export_names(opaque_struct_view(o)) =~= Seq::<Seq<char>>::empty());
}

proof fn lemma_opaque_structs_names(u: UnitraitInput, n: nat)
    requires
        input_wf(u),
        n <= u.opaques@.len(),
    ensures
        link_names(opaque_structs_view(u, n)) == opaques_links(u, n),
        export_names(opaque_structs_view(u, n)) == Seq::<Seq<char>>::empty(),
    decreases n,
{
    broadcast use group_names;

    if n > 0 {
        lemma_opaque_structs_names(u, (n - 1) as nat);
        assert(opaque_wf(u.opaques@[n - 1]));
        lemma_opaque_struct_names(u.opaques@[n - 1]);
        assert(link_names(opaque_structs_view(u, n)) =~= opaques_links(u, n));
        assert(export_names(opaque_structs_view(u, n)) =~= Seq::<Seq<char>>::empty());
    }
}

} // verus!

verus! {

/// A dispatch method links to its method's symbol, and exports nothing.
proof fn lemma_dispatch_method_names(u: UnitraitInput, m: Method, s: MethodShapes)
    ensures
        link_names(dispatch_method_view(u, m, s)) == seq![m.symbol.value@],
        export_names(dispatch_method_view(u, m, s)) == Seq::<Seq<char>>::empty(),
{
    broadcast use group_no_str, group_names;

    let params = all_params_view(u, m, s, Leaf::Caller);
    let ret = ret_view(u, s, Leaf::Caller);
    lemma_params_no_str(u, m, s, Leaf::Caller, m.args@.len());
    lemma_ret_no_str(u, s, Leaf::Caller);
    lemma_arg_ids_no_str(m, m.args@.len());
    lemma_attrs_no_str(m.docs@);
    lemma_toks_out_no_str(toks_view(u.dispatch_vis@));
    let raw = seq![t("extern_fn"@), group(Delim::Paren, all_arg_ids_view(m))];
    assert(no_str(raw));
    assert(no_str(seq![t("unsafe"@), group(Delim::Brace, raw)]));
    let call = guarded_view(m, raw);
    assert(no_str(call));
    lemma_no_str_is_quiet(call);
    lemma_extern_block_names(m.symbol.value@, m.symbol.span, m.unsafety is None, params, ret);
    let body = extern_block_view(sym_v(m.symbol), m.unsafety is None, params, ret) + call;
    assert(link_names(body) =~= seq![m.symbol.value@]);
    assert(export_names(body) =~= Seq::<Seq<char>>::empty());
    let head = attrs_view(m.docs@) + seq![t("#[inline]"@)] + toks_out(toks_view(u.dispatch_vis@))
        + unsafety_view(m) + seq![t("fn"@), tok_v(m.name), group(Delim::Paren, params)] + ret;
    assert(no_str(head));
    lemma_no_str_is_quiet(head);
    let tail = seq![group(Delim::Brace, body)];
    assert(names_in(tail, Delim::Bracket, "link_name ="@) == link_names(body));
    assert(names_in(tail, Delim::Paren, "export_name ="@) == export_names(body));
    assert(dispatch_method_view(u, m, s) == head + tail);
    assert(link_names(dispatch_method_view(u, m, s)) =~= seq![m.symbol.value@]);
    assert(export_names(dispatch_method_view(u, m, s)) =~= Seq::<Seq<char>>::empty());
}

proof fn lemma_dispatch_methods_names(u: UnitraitInput, ms: Seq<MethodShapes>, n: nat)
    requires
        n <= u.methods@.len(),
    ensures
        link_names(dispatch_methods_view(u, ms, n)) == method_symbols(u, n),
        export_names(dispatch_methods_view(u, ms, n)) == Seq::<Seq<char>>::empty(),
    decreases n,
{
    broadcast use group_names;

    if n > 0 {
        lemma_dispatch_methods_names(u, ms, (n - 1) as nat);
        lemma_dispatch_method_names(u, u.methods@[n - 1], ms[n - 1]);
        assert(link_names(dispatch_methods_view(u, ms, n)) =~= method_symbols(u, n));
        assert(export_names(dispatch_methods_view(u, ms, n)) =~= Seq::<Seq<char>>::empty());
    }
}

proof fn lemma_trait_part_quiet(u: UnitraitInput, ms: Seq<MethodShapes>)
    ensures
        quiet(attrs_view(u.trait_docs@) + toks_out(toks_view(u.vis@)) + seq![
            t("trait"@),
            tok_v(u.name),
            group(
                Delim::Brace,
                trait_opaques_view(u, u.opaques@.len()) + trait_methods_view(u, ms, u.methods@.len()),
            ),
        ] + attrs_view(u.dispatch_attrs@) + toks_out(toks_view(u.dispatch_vis@))),
{
    broadcast use group_no_str;

    lemma_trait_items_no_str(u, ms);
    lemma_attrs_no_str(u.trait_docs@);
    lemma_attrs_no_str(u.dispatch_attrs@);
    lemma_toks_out_no_str(toks_view(u.vis@));
    lemma_toks_out_no_str(toks_view(u.dispatch_vis@));
    let ti = trait_opaques_view(u, u.opaques@.len()) + trait_methods_view(u, ms, u.methods@.len());
    assert(no_str(ti));
    assert(no_str_of(group(Delim::Brace, ti)));
    let g = seq![t("trait"@), tok_v(u.name), group(Delim::Brace, ti)];
    assert(no_str(g));
    let a = attrs_view(u.trait_docs@) + toks_out(toks_view(u.vis@)) + g + attrs_view(
        u.dispatch_attrs@,
    ) + toks_out(toks_view(u.dispatch_vis@));
    assert(no_str(a));
    lemma_no_str_is_quiet(a);
}

proof fn lemma_dispatch_part_names(u: UnitraitInput, ms: Seq<MethodShapes>)
    ensures
        ({
            let nm = u.methods@.len();
            let b = seq![
                t("struct"@),
                tok_v(u.dispatch),
                t(";"@),
                t("impl"@),
                tok_v(u.dispatch),
                group(Delim::Brace, dispatch_methods_view(u, ms, nm)),
                t("impl"@),
                tok_v(u.name),
                t("for"@),
                tok_v(u.dispatch),
                group(
                    Delim::Brace,
                    dispatch_assocs_view(u, u.opaques@.len()) + dispatch_impl_methods_view(u, ms, nm),
                ),
            ];
            &&& link_names(b) == method_symbols(u, nm)
            &&& export_names(b) == Seq::<Seq<char>>::empty()
        }),
{
    broadcast use group_no_str, group_names;

    let no = u.opaques@.len();
    let nm = u.methods@.len();
    lemma_dispatch_methods_names(u, ms, nm);
    lemma_dispatch_impl_no_str(u, ms, nm);
    let di = dispatch_assocs_view(u, no) + dispatch_impl_methods_view(u, ms, nm);
    let dm = dispatch_methods_view(u, ms, nm);
    assert(no_str(di));
    let b1 = seq![t("struct"@), tok_v(u.dispatch), t(";"@), t("impl"@), tok_v(u.dispatch)];
    let b2 = seq![group(Delim::Brace, dm)];
    let b3 = seq![t("impl"@), tok_v(u.name), t("for"@), tok_v(u.dispatch), group(Delim::Brace, di)];
    assert(no_str(b1));
    assert(no_str_of(group(Delim::Brace, di)));
    assert(no_str(b3));
    lemma_no_str_is_quiet(b1);
    lemma_no_str_is_quiet(b3);
    assert(names_in(b2, Delim::Bracket, "link_name ="@) == link_names(dm));
    assert(names_in(b2, Delim::Paren, "export_name ="@) == export_names(dm));
    let b = seq![
        t("struct"@),
        tok_v(u.dispatch),
        t(";"@),
        t("impl"@),
        tok_v(u.dispatch),
        group(Delim::Brace, dm),
        t("impl"@),
        tok_v(u.name),
        t("for"@),
        tok_v(u.dispatch),
        group(Delim::Brace, di),
    ];
    assert(b =~= b1 + b2 + b3);
    assert(link_names(b) =~= method_symbols(u, nm));
    assert(export_names(b) =~= Seq::<Seq<char>>::empty());
}

/// The defining crate's items link to every opaque type's clone and drop symbols and to
/// every method's symbol, and export nothing.
pub proof fn lemma_defining_names(u: UnitraitInput, ms: Seq<MethodShapes>)
    requires
        input_wf(u),
    ensures
        link_names(defining_view(u, ms)) == opaques_links(u, u.opaques@.len()) + method_symbols(
            u,
            u.methods@.len(),
        ),
        export_names(defining_view(u, ms)) == Seq::<Seq<char>>::empty(),
{
    broadcast use group_names;

    let no = u.opaques@.len();
    let nm = u.methods@.len();
    lemma_opaque_structs_names(u, no);
    lemma_trait_part_quiet(u, ms);
    lemma_dispatch_part_names(u, ms);
    assert(link_names(defining_view(u, ms)) =~= opaques_links(u, no) + method_symbols(u, nm));
    assert(export_names(defining_view(u, ms)) =~= Seq::<Seq<char>>::empty());
}

} // verus!

verus! {

proof fn lemma_real_q_no_str(b: Bridge, i: int)
    requires
        bridge_quiet(b),
    ensures
        no_str(real_view(b, i)),
        no_str(qopaque_view(b, i)),
{
    broadcast use group_no_str;

    lemma_toks_out_no_str(toks_view(b.input.path@));
}

proof fn lemma_checks_no_str(b: Bridge, n: nat)
    requires
        bridge_quiet(b),
    ensures
        no_str(all_checks_view(b, n)),
    decreases n,
{
    broadcast use group_no_str;

    if n > 0 {
        lemma_checks_no_str(b, (n - 1) as nat);
        let i = n - 1;
        lemma_real_q_no_str(b, i);
        let r = real_view(b, i);
        let q = qopaque_view(b, i);
        let sa = seq![t("::core::mem::size_of::<"@)] + r + seq![t(">() <= ::core::mem::size_of::<"@)]
            + q + seq![
            t(
                ">(), \"unitrait: the implementation's associated type is larger than its declared opaque size\","@,
            ),
        ];
        let aa = seq![t("::core::mem::align_of::<"@)] + r + seq![
            t(">() <= ::core::mem::align_of::<"@),
        ] + q + seq![
            t(
                ">(), \"unitrait: the implementation's associated type requires stricter alignment than its declared opaque alignment\","@,
            ),
        ];
        let na = seq![t("!::core::mem::needs_drop::<"@)] + r + seq![
            t(
                ">(), \"unitrait: the implementation's associated type needs drop, but the opaque associated type has no `Drop` bound\","@,
            ),
        ];
        assert(no_str(sa));
        assert(no_str(aa));
        assert(no_str(na));
        assert(no_str(assert_view(sa)));
        assert(no_str(assert_view(aa)));
        assert(no_str(assert_view(na)));
        assert(no_str(checks_view(b, i)));
    }
}

proof fn lemma_opaque_helpers_no_str(b: Bridge, n: nat)
    requires
        bridge_quiet(b),
    ensures
        no_str(opaque_helpers_view(b, n)),
    decreases n,
{
    broadcast use group_no_str;

    if n > 0 {
        lemma_opaque_helpers_no_str(b, (n - 1) as nat);
        let i = n - 1;
        lemma_real_q_no_str(b, i);
        let r = real_view(b, i);
        let q = qopaque_view(b, i);
        let o = b.input.opaques@[i];
        if o.drop_symbol is Some {
            let c = seq![t("this as *mut"@)] + q + seq![t("as *mut"@)] + r;
            assert(no_str(c));
            let inner = seq![t("::core::ptr::drop_in_place"@), group(Delim::Paren, c), t(";"@)];
            assert(no_str(inner));
            let body = seq![t("unsafe"@), group(Delim::Brace, inner)];
            assert(no_str(body));
            assert(no_str(seq![t("this: &mut"@)] + q));
            assert(no_str(drop_helper_view(b, i)));
        }
        if o.clone_symbol is Some {
            let c1 = seq![t("this as *const"@)] + q + seq![t("as *const"@)] + r;
            let c2 = seq![t("__unitrait_out.as_mut_ptr() as *mut"@)] + r;
            assert(no_str(c1));
            assert(no_str(c2));
            let inner = seq![
                t("let this = &*"@),
                group(Delim::Paren, c1),
                t("; let __unitrait_cloned:"@),
            ] + r + seq![
                t(
                    "= ::core::clone::Clone::clone(this); let mut __unitrait_out = ::core::mem::MaybeUninit::<"@,
                ),
            ] + q + seq![
                t(">::uninit();"@),
                group(Delim::Paren, c2),
                t(".write(__unitrait_cloned); __unitrait_out.assume_init()"@),
            ];
            assert(no_str(inner));
            assert(no_str(seq![t("unsafe"@), group(Delim::Brace, inner)]));
            assert(no_str(seq![t("this: &"@)] + q));
            assert(no_str(clone_helper_view(b, i)));
        }
    }
}

proof fn lemma_convs_no_str(b: Bridge, m: Method, s: MethodShapes, n: nat)
    requires
        bridge_quiet(b),
    ensures
        no_str(convs_view(b, m, s, n)),
    decreases n,
{
    broadcast use group_no_str;

    if n > 0 {
        lemma_convs_no_str(b, m, s, (n - 1) as nat);
        let k = n - 1;
        match s.args@[k] {
            Shape::Plain(_) => {},
            _ => {
                assert(no_str(seq![tok_v(m.args@[k].name)]));
                lemma_convert_no_str(b, s.args@[k], seq![tok_v(m.args@[k].name)], Dir::Unwrap);
            },
        }
    }
}

proof fn lemma_method_helpers_no_str(b: Bridge, ms: Seq<MethodShapes>, n: nat)
    requires
        bridge_quiet(b),
    ensures
        no_str(method_helpers_view(b, ms, n)),
    decreases n,
{
    broadcast use group_no_str;

    if n > 0 {
        lemma_method_helpers_no_str(b, ms, (n - 1) as nat);
        let m = b.input.methods@[n - 1];
        let s = ms[n - 1];
        let u = *b.input;
        lemma_params_no_str(u, m, s, Leaf::Impl, m.args@.len());
        lemma_ret_no_str(u, s, Leaf::Impl);
        lemma_convs_no_str(b, m, s, m.args@.len());
        lemma_arg_ids_no_str(m, m.args@.len());
        let raw = seq![t("<"@)] + outs_view(b.timpl@) + seq![t("as"@)] + outs_view(b.trait_qpath@)
            + seq![t(">::"@), tok_v(m.name), group(Delim::Paren, all_arg_ids_view(m))];
        assert(no_str(raw));
        assert(no_str(seq![t("unsafe"@), group(Delim::Brace, raw)]));
        let call = impl_call_view(b, m);
        assert(no_str(call));
        if let Some(r) = s.ret {
            lemma_convert_no_str(b, r, call, Dir::Wrap);
        }
        let body = match s.ret {
            None => call,
            Some(r) => convert_view(b, r, call, Dir::Wrap),
        };
        assert(no_str(convs_view(b, m, s, m.args@.len()) + body));
        assert(no_str(method_helper_view(b, m, s)));
    }
}

/// The body of the shims' impl links to nothing and exports nothing.
proof fn lemma_shim_impl_quiet(b: Bridge, ms: Seq<MethodShapes>)
    requires
        bridge_quiet(b),
    ensures
        no_str(shim_impl_view(b, ms)),
{
    broadcast use group_no_str;

    lemma_checks_no_str(b, b.input.opaques@.len());
    lemma_opaque_helpers_no_str(b, b.input.opaques@.len());
    lemma_method_helpers_no_str(b, ms, b.input.methods@.len());
}

} // verus!

verus! {

/// `#[unsafe(export_name = SYMBOL)]` exports the symbol, and links to nothing.
proof fn lemma_export_attr_names(s: Sym)
    ensures
        link_names(export_attr_view(s)) == Seq::<Seq<char>>::empty(),
        export_names(export_attr_view(s)) == seq![s.value@],
{
    broadcast use group_names;

    let kv = seq![t("export_name ="@), sym_v(s)];
    let inner = seq![t("unsafe"@), group(Delim::Paren, kv)];
    let v = export_attr_view(s);
    reveal_with_fuel(names_upto, 3);
    lemma_names_index(kv, Delim::Bracket, "link_name ="@);
    lemma_names_index(inner, Delim::Bracket, "link_name ="@);
    lemma_names_index(inner, Delim::Paren, "export_name ="@);
    lemma_names_index(v, Delim::Bracket, "link_name ="@);
    lemma_names_index(v, Delim::Paren, "export_name ="@);
    assert(names_of(group(Delim::Paren, kv), Delim::Bracket, "link_name ="@) =~= Seq::<Seq<char>>::empty());
    assert(names_of(group(Delim::Paren, kv), Delim::Paren, "export_name ="@) =~= seq![s.value@]);
    assert(names_in(inner, Delim::Bracket, "link_name ="@) =~= Seq::<Seq<char>>::empty());
    assert(names_in(inner, Delim::Paren, "export_name ="@) =~= seq![s.value@]);
    assert(names_of(group(Delim::Bracket, inner), Delim::Bracket, "link_name ="@) =~= Seq::<Seq<char>>::empty());
    assert(names_of(group(Delim::Bracket, inner), Delim::Paren, "export_name ="@) =~= seq![s.value@]);
    assert(link_names(v) =~= Seq::<Seq<char>>::empty());
    assert(export_names(v) =~= seq![s.value@]);
}

proof fn lemma_opaque_exports_names(b: Bridge, n: nat)
    requires
        bridge_quiet(b),
        n <= b.input.opaques@.len(),
    ensures
        link_names(opaque_exports_view(b, n)) == Seq::<Seq<char>>::empty(),
        export_names(opaque_exports_view(b, n)) == opaques_exports(*b.input, n),
    decreases n,
{
    broadcast use group_no_str, group_names;

    if n > 0 {
        lemma_opaque_exports_names(b, (n - 1) as nat);
        let i = n - 1;
        let o = b.input.opaques@[i];
        lemma_real_q_no_str(b, i);
        let q = qopaque_view(b, i);
        match o.drop_symbol {
            None => {},
            Some(s) => {
                let name = shim_name_v("__unitrait_drop_"@, o);
                lemma_export_attr_names(s);
                let rest = seq![
                    t("fn"@),
                    name,
                    group(Delim::Paren, seq![t("this: &mut"@)] + q),
                    group(Delim::Brace, seq![shims_v(), t("::"@), name, t("(this)"@)]),
                ];
                assert(no_str(seq![t("this: &mut"@)] + q));
                assert(no_str(seq![shims_v(), t("::"@), name, t("(this)"@)]));
                assert(no_str(rest));
                lemma_no_str_is_quiet(rest);
                assert(drop_export_view(b, i) == export_attr_view(s) + rest);
            },
        }
        match o.clone_symbol {
            None => {},
            Some(s) => {
                let name = shim_name_v("__unitrait_clone_"@, o);
                lemma_export_attr_names(s);
                let rest = seq![t("fn"@), name, group(Delim::Paren, seq![t("this: &"@)] + q)]
                    + seq![t("->"@)] + q + seq![
                    group(Delim::Brace, seq![shims_v(), t("::"@), name, t("(this)"@)]),
                ];
                assert(no_str(seq![t("this: &"@)] + q));
                assert(no_str(seq![shims_v(), t("::"@), name, t("(this)"@)]));
                assert(no_str(rest));
                lemma_no_str_is_quiet(rest);
                assert(clone_export_view(b, i) == export_attr_view(s) + rest);
            },
        }
        assert(link_names(opaque_exports_view(b, n)) =~= Seq::<Seq<char>>::empty());
        assert(export_names(opaque_exports_view(b, n)) =~= opaques_exports(*b.input, n));
    }
}

proof fn lemma_method_exports_names(b: Bridge, ms: Seq<MethodShapes>, n: nat)
    requires
        bridge_quiet(b),
        n <= b.input.methods@.len(),
    ensures
        link_names(method_exports_view(b, ms, n)) == Seq::<Seq<char>>::empty(),
        export_names(method_exports_view(b, ms, n)) == method_symbols(*b.input, n),
    decreases n,
{
    broadcast use group_no_str, group_names;

    if n > 0 {
        lemma_method_exports_names(b, ms, (n - 1) as nat);
        let u = *b.input;
        let m = u.methods@[n - 1];
        let s = ms[n - 1];
        lemma_params_no_str(u, m, s, Leaf::Impl, m.args@.len());
        lemma_ret_no_str(u, s, Leaf::Impl);
        lemma_arg_ids_no_str(m, m.args@.len());
        lemma_export_attr_names(m.symbol);
        let fwd = seq![shims_v(), t("::"@), tok_v(m.name), group(Delim::Paren, all_arg_ids_view(m))];
        assert(no_str(fwd));
        let rest = seq![
            t("fn"@),
            tok_v(m.name),
            group(Delim::Paren, all_params_view(u, m, s, Leaf::Impl)),
        ] + ret_view(u, s, Leaf::Impl) + seq![group(Delim::Brace, fwd)];
        assert(no_str(rest));
        lemma_no_str_is_quiet(rest);
        assert(method_export_view(b, m, s) == export_attr_view(m.symbol) + rest);
        assert(link_names(method_exports_view(b, ms, n)) =~= Seq::<Seq<char>>::empty());
        assert(export_names(method_exports_view(b, ms, n)) =~= method_symbols(u, n));
    }
}

} // verus!

verus! {

/// A brace group links to and exports what its body does.
proof fn lemma_brace_names(body: Seq<OutV>)
    ensures
        names_of(group(Delim::Brace, body), Delim::Bracket, "link_name ="@) == link_names(body),
        names_of(group(Delim::Brace, body), Delim::Paren, "export_name ="@) == export_names(body),
{
}

proof fn lemma_macro_head_quiet(b: Bridge, ms: Seq<MethodShapes>)
    requires
        bridge_quiet(b),
    ensures
        quiet(
            seq![t("#[allow(unused_imports)] use"@)] + toks_out(toks_view(b.input.path@)) + seq![
                t(
                    "::*; struct __UnitraitShims<__B>(::core::marker::PhantomData<__B>); impl<__B:"@,
                ),
            ] + toks_out(toks_view(b.input.path@)) + seq![
                t("::"@),
                binding_v(*b.input),
                t("> __UnitraitShims<__B>"@),
                group(Delim::Brace, shim_impl_view(b, ms)),
                t("const _: () ="@),
                shims_v(),
                t("::CHECKS;"@),
            ],
        ),
{
    broadcast use group_no_str;

    let u = *b.input;
    lemma_shim_impl_quiet(b, ms);
    lemma_toks_out_no_str(toks_view(u.path@));
    let path = toks_out(toks_view(u.path@));
    assert(no_str_of(group(Delim::Brace, shim_impl_view(b, ms))));
    let tail = seq![
        t("::"@),
        binding_v(u),
        t("> __UnitraitShims<__B>"@),
        group(Delim::Brace, shim_impl_view(b, ms)),
        t("const _: () ="@),
        shims_v(),
        t("::CHECKS;"@),
    ];
    assert(no_str(tail));
    let head = seq![t("#[allow(unused_imports)] use"@)] + path + seq![
        t(
            "::*; struct __UnitraitShims<__B>(::core::marker::PhantomData<__B>); impl<__B:"@,
        ),
    ] + path + tail;
    assert(no_str(head));
    lemma_no_str_is_quiet(head);
}

/// The body of the implementation macro's inner `const` exports every opaque type's drop
/// and clone symbols and every method's symbol, and links to nothing.
proof fn lemma_macro_inner_names(b: Bridge, ms: Seq<MethodShapes>)
    requires
        bridge_quiet(b),
    ensures
        ({
            let u = *b.input;
            let path = toks_out(toks_view(u.path@));
            let inner = seq![t("#[allow(unused_imports)] use"@)] + path + seq![
                t(
                    "::*; struct __UnitraitShims<__B>(::core::marker::PhantomData<__B>); impl<__B:"@,
                ),
            ] + path + seq![
                t("::"@),
                binding_v(u),
                t("> __UnitraitShims<__B>"@),
                group(Delim::Brace, shim_impl_view(b, ms)),
                t("const _: () ="@),
                shims_v(),
                t("::CHECKS;"@),
            ] + opaque_exports_view(b, u.opaques@.len()) + method_exports_view(b, ms, u.methods@.len());
            &&& link_names(inner) == Seq::<Seq<char>>::empty()
            &&& export_names(inner) == opaques_exports(u, u.opaques@.len()) + method_symbols(
                u,
                u.methods@.len(),
            )
        }),
{
    broadcast use group_names;

    let u = *b.input;
    let no = u.opaques@.len();
    let nm = u.methods@.len();
    lemma_opaque_exports_names(b, no);
    lemma_method_exports_names(b, ms, nm);
    lemma_macro_head_quiet(b, ms);
    let path = toks_out(toks_view(u.path@));
    let head = seq![t("#[allow(unused_imports)] use"@)] + path + seq![
        t(
            "::*; struct __UnitraitShims<__B>(::core::marker::PhantomData<__B>); impl<__B:"@,
        ),
    ] + path + seq![
        t("::"@),
        binding_v(u),
        t("> __UnitraitShims<__B>"@),
        group(Delim::Brace, shim_impl_view(b, ms)),
        t("const _: () ="@),
        shims_v(),
        t("::CHECKS;"@),
    ];
    let inner = head + opaque_exports_view(b, no) + method_exports_view(b, ms, nm);
    assert(link_names(inner) =~= Seq::<Seq<char>>::empty());
    assert(export_names(inner) =~= opaques_exports(u, no) + method_symbols(u, nm));
}

/// The implementation macro's body exports every opaque type's drop and clone symbols and
/// every method's symbol, and links to nothing.
proof fn lemma_macro_body_names(b: Bridge, ms: Seq<MethodShapes>)
    requires
        bridge_quiet(b),
    ensures
        link_names(macro_body_view(b, ms)) == Seq::<Seq<char>>::empty(),
        export_names(macro_body_view(b, ms)) == opaques_exports(*b.input, b.input.opaques@.len())
            + method_symbols(*b.input, b.input.methods@.len()),
{
    let u = *b.input;
    let no = u.opaques@.len();
    let nm = u.methods@.len();
    lemma_macro_inner_names(b, ms);
    lemma_toks_out_no_str(toks_view(u.path@));
    let path = toks_out(toks_view(u.path@));
    let inner = seq![t("#[allow(unused_imports)] use"@)] + path + seq![
        t(
            "::*; struct __UnitraitShims<__B>(::core::marker::PhantomData<__B>); impl<__B:"@,
        ),
    ] + path + seq![
        t("::"@),
        binding_v(u),
        t("> __UnitraitShims<__B>"@),
        group(Delim::Brace, shim_impl_view(b, ms)),
        t("const _: () ="@),
        shims_v(),
        t("::CHECKS;"@),
    ] + opaque_exports_view(b, no) + method_exports_view(b, ms, nm);
    let ty = seq![t("type Type ="@), t("$t"@), t(";"@)];
    let pre = seq![t("struct __UnitraitTag; impl"@)] + path + seq![
        t("::"@),
        binding_v(u),
        t("for __UnitraitTag"@),
        group(Delim::Brace, ty),
        t("const _: () ="@),
    ];
    assert(no_str(pre)) by {
        broadcast use group_no_str;

        assert(no_str(ty));
        assert(no_str_of(group(Delim::Brace, ty)));
    }
    lemma_no_str_is_quiet(pre);
    lemma_brace_names(inner);
    let outer = pre + seq![group(Delim::Brace, inner)] + seq![t(";"@)];
    assert(link_names(outer) =~= Seq::<Seq<char>>::empty()) by {
        broadcast use group_names;
    }
    assert(export_names(outer) =~= opaques_exports(u, no) + method_symbols(u, nm)) by {
        broadcast use group_names;
    }
    lemma_brace_names(outer);
    let outer_lit = seq![t("struct __UnitraitTag; impl"@)] + path + seq![
        t("::"@),
        binding_v(u),
        t("for __UnitraitTag"@),
        group(Delim::Brace, ty),
        t("const _: () ="@),
        group(Delim::Brace, inner),
        t(";"@),
    ];
    assert(outer =~= outer_lit);
    assert(macro_body_view(b, ms) == seq![t("const _: () ="@), group(Delim::Brace, outer_lit), t(";"@)]);
    let whole = seq![t("const _: () ="@)] + seq![group(Delim::Brace, outer)] + seq![t(";"@)];
    assert(macro_body_view(b, ms) =~= whole);
    assert(link_names(whole) =~= Seq::<Seq<char>>::empty()) by {
        broadcast use group_names;
    }
    assert(export_names(whole) =~= opaques_exports(u, no) + method_symbols(u, nm)) by {
        broadcast use group_names;
    }
}

/// The implementing side exports what the macro body does, and links to nothing.
proof fn lemma_implementing_names(b: Bridge, ms: Seq<MethodShapes>)
    requires
        bridge_quiet(b),
    ensures
        link_names(implementing_view(b, ms)) == Seq::<Seq<char>>::empty(),
        export_names(implementing_view(b, ms)) == opaques_exports(*b.input, b.input.opaques@.len())
            + method_symbols(*b.input, b.input.methods@.len()),
{
    broadcast use group_no_str, group_names;

    let u = *b.input;
    let no = u.opaques@.len();
    let nm = u.methods@.len();
    lemma_macro_body_names(b, ms);
    lemma_toks_out_no_str(toks_view(u.vis@));
    lemma_attrs_no_str(u.mac_docs@);
    let body = macro_body_view(b, ms);
    let pat = seq![t("$t"@), t(":ty"@)];
    assert(no_str(pat));
    assert(no_str_of(group(Delim::Paren, pat)));
    let r1 = seq![group(Delim::Paren, pat), t("=>"@)];
    assert(no_str(r1));
    lemma_no_str_is_quiet(r1);
    lemma_brace_names(body);
    let rules = r1 + seq![group(Delim::Brace, body)] + seq![t(";"@)];
    assert(link_names(rules) =~= Seq::<Seq<char>>::empty());
    assert(export_names(rules) =~= opaques_exports(u, no) + method_symbols(u, nm));
    let pre = seq![
        t(
            "#[doc = \" Implementation detail of the implementation macro: binds the implementor's type.\"] #[doc(hidden)]"@,
        ),
    ] + toks_out(toks_view(u.vis@)) + seq![
        t("trait"@),
        binding_v(u),
        group(Delim::Brace, seq![t("type Type:"@), tok_v(u.name), t(";"@)]),
    ] + attrs_view(u.mac_docs@) + seq![t("#[macro_export] macro_rules!"@), tok_v(u.mac_name)];
    let ty = seq![t("type Type:"@), tok_v(u.name), t(";"@)];
    assert(no_str(ty));
    assert(no_str_of(group(Delim::Brace, ty)));
    assert(no_str(seq![t("trait"@), binding_v(u), group(Delim::Brace, ty)]));
    assert(no_str(pre));
    lemma_no_str_is_quiet(pre);
    lemma_brace_names(rules);
    let rules_lit = seq![
        group(Delim::Paren, pat),
        t("=>"@),
        group(Delim::Brace, body),
        t(";"@),
    ];
    assert(rules =~= rules_lit);
    let whole = pre + seq![group(Delim::Brace, rules)];
    assert(implementing_view(b, ms) =~= whole);
    assert(link_names(whole) =~= Seq::<Seq<char>>::empty());
    assert(export_names(whole) =~= opaques_exports(u, no) + method_symbols(u, nm));
}

} // verus!

verus! {

proof fn lemma_opaques_links_exports(u: UnitraitInput, n: nat)
    ensures
        opaques_links(u, n).to_multiset() == opaques_exports(u, n).to_multiset(),
    decreases n,
{
    broadcast use vstd::seq_lib::lemma_multiset_commutative, vstd::multiset::group_multiset_axioms;

    if n > 0 {
        lemma_opaques_links_exports(u, (n - 1) as nat);
        let o = u.opaques@[n - 1];
        let l = opaques_links(u, (n - 1) as nat);
        let e = opaques_exports(u, (n - 1) as nat);
        assert((l + clone_links(o) + drop_links(o)).to_multiset() =~= l.to_multiset().add(
            clone_links(o).to_multiset(),
        ).add(drop_links(o).to_multiset()));
        assert((e + drop_links(o) + clone_links(o)).to_multiset() =~= e.to_multiset().add(
            drop_links(o).to_multiset(),
        ).add(clone_links(o).to_multiset()));
    }
}

/// The two sides of an expansion meet: the items of the defining crate link to exactly the
/// symbols that the implementation macro exports, each as many times, and neither side links
/// to or exports anything else.
pub proof fn lemma_expansion_symbols_meet(b: Bridge, u: UnitraitInput, ms: Seq<MethodShapes>)
    requires
        input_wf(u),
        bridge_of(b, u),
    ensures
        link_names(defining_view(u, ms)).to_multiset() == export_names(
            implementing_view(b, ms),
        ).to_multiset(),
        export_names(defining_view(u, ms)) == Seq::<Seq<char>>::empty(),
        link_names(implementing_view(b, ms)) == Seq::<Seq<char>>::empty(),
        link_names(expansion_view(b, ms)).to_multiset() == export_names(
            expansion_view(b, ms),
        ).to_multiset(),
{
    broadcast use group_names, vstd::seq_lib::lemma_multiset_commutative;

    let no = u.opaques@.len();
    let nm = u.methods@.len();
    lemma_bridge_quiet(b, u);
    lemma_defining_names(u, ms);
    lemma_implementing_names(b, ms);
    lemma_opaques_links_exports(u, no);
    assert(link_names(expansion_view(b, ms)) =~= link_names(defining_view(u, ms)));
    assert(export_names(expansion_view(b, ms)) =~= export_names(implementing_view(b, ms)));
}

} // verus!

verus! {

/// An opaque type of a parsed input has a drop symbol exactly when a `Drop` bound was
/// written on it, and a clone symbol exactly when a `Clone` bound was; `at` is where the
/// parts of the input `ts` stand.
pub proof fn lemma_symbols_follow_bounds(
    ts: Seq<crate::tokens::Tok>,
    u: UnitraitInput,
    at: crate::input::InputAt,
    i: int,
)
    requires
        crate::input::input_at(ts) == Ok::<crate::input::InputAt, (u64, Seq<char>)>(at),
        crate::input::input_is(ts, u, at),
        0 <= i < u.opaques@.len(),
    ensures
        u.opaques@[i].drop_symbol is Some <==> at.items.0[i].at.drop is Some,
        u.opaques@[i].clone_symbol is Some <==> at.items.0[i].at.clone is Some,
{
    let body = crate::tokens::group_body(ts[at.trait_kw + 2]);
    assert(crate::input::opaque_item_is(
        body,
        u.opaques@[i],
        at.items.0[i],
        crate::attrs::sym_view(u.symbol_prefix),
    ));
}

} // verus!

verus! {

/// `piece` stands somewhere in `out`, as consecutive token trees.
pub open spec fn occurs(out: Seq<OutV>, piece: Seq<OutV>) -> bool {
    exists|k: int|
        0 <= k && k + piece.len() <= out.len() && #[trigger] out.subrange(k, k + piece.len()) == piece
}

/// What stands around token trees keeps every piece of them.
pub proof fn lemma_occurs_around(x: Seq<OutV>, piece: Seq<OutV>, a: Seq<OutV>, b: Seq<OutV>)
    requires
        occurs(x, piece),
    ensures
        occurs(a + x + b, piece),
{
    let k = choose|k: int|
        0 <= k && k + piece.len() <= x.len() && #[trigger] x.subrange(k, k + piece.len()) == piece;
    let y = a + x + b;
    let k2 = a.len() + k;
    assert(y.subrange(k2, k2 + piece.len()) =~= x.subrange(k, k + piece.len()));
}

/// A piece of a piece is a piece.
pub proof fn lemma_occurs_trans(x: Seq<OutV>, y: Seq<OutV>, p: Seq<OutV>)
    requires
        occurs(x, y),
        occurs(y, p),
    ensures
        occurs(x, p),
{
    let k = choose|k: int| 0 <= k && k + y.len() <= x.len() && #[trigger] x.subrange(k, k + y.len()) == y;
    let l = choose|l: int| 0 <= l && l + p.len() <= y.len() && #[trigger] y.subrange(l, l + p.len()) == p;
    assert(x.subrange(k + l, k + l + p.len()) =~= y.subrange(l, l + p.len()));
}

/// Token trees hold what they start with.
pub proof fn lemma_occurs_start(x: Seq<OutV>, p: Seq<OutV>, rest: Seq<OutV>)
    requires
        x == p + rest,
    ensures
        occurs(x, p),
{
    assert(x.subrange(0, 0 + p.len() as int) =~= p);
}

/// The opaque struct of the declaration `o`, by name.
pub open spec fn struct_name(o: OpaqueDecl) -> OutV {
    OutV::Ident(o.opaque@, crate::tokens::span_of(o.assoc))
}

/// `impl ::core::MODULE::Name for STRUCT`, `unsafe` for `Send` and `Sync`: how the impl of
/// the marker trait `m` on the opaque struct `name` begins.
pub open spec fn marker_impl_head(m: Marker, name: OutV) -> Seq<OutV> {
    seq![
        t(
            if m == Marker::Send || m == Marker::Sync {
                "unsafe impl"@
            } else {
                "impl"@
            },
        ),
        t("::core::"@),
        t(crate::marker::marker_module(m)),
        t("::"@),
        t(crate::marker::marker_name(m)),
        t("for"@),
        name,
    ]
}

/// `impl ::core::ops::Drop for STRUCT`: how the `Drop` impl of the opaque struct `name`
/// begins.
pub open spec fn drop_impl_head(name: OutV) -> Seq<OutV> {
    seq![t("impl ::core::ops::Drop for"@), name]
}

/// An impl's head followed by its braced body.
pub open spec fn with_body(head: Seq<OutV>, body: Seq<OutV>) -> Seq<OutV> {
    head.push(group(Delim::Brace, body))
}

proof fn lemma_marker_impls_hold(o: OpaqueDecl, n: nat, j: int)
    requires
        0 <= j < n <= o.bounds@.len(),
    ensures
        occurs(marker_impls_view(o, n), marker_impl_view(o, o.bounds@[j])),
    decreases n,
{
    let x = marker_impls_view(o, (n - 1) as nat);
    let y = marker_impl_view(o, o.bounds@[n - 1]);
    assert(marker_impls_view(o, n) == x + y);
    if j == n - 1 {
        lemma_occurs_start(y, y, Seq::empty());
        lemma_occurs_around(y, y, x, Seq::empty());
        assert(x + y + Seq::<OutV>::empty() =~= x + y);
    } else {
        lemma_marker_impls_hold(o, (n - 1) as nat, j);
        lemma_occurs_around(x, marker_impl_view(o, o.bounds@[j]), Seq::empty(), y);
        assert(Seq::<OutV>::empty() + x + y =~= x + y);
    }
}

proof fn lemma_opaque_structs_hold(u: UnitraitInput, n: nat, i: int)
    requires
        0 <= i < n <= u.opaques@.len(),
    ensures
        occurs(opaque_structs_view(u, n), opaque_struct_view(u.opaques@[i])),
    decreases n,
{
    let x = opaque_structs_view(u, (n - 1) as nat);
    let y = opaque_struct_view(u.opaques@[n - 1]);
    assert(opaque_structs_view(u, n) == x + y);
    if i == n - 1 {
        lemma_occurs_start(y, y, Seq::empty());
        lemma_occurs_around(y, y, x, Seq::empty());
        assert(x + y + Seq::<OutV>::empty() =~= x + y);
    } else {
        lemma_opaque_structs_hold(u, (n - 1) as nat, i);
        lemma_occurs_around(x, opaque_struct_view(u.opaques@[i]), Seq::empty(), y);
        assert(Seq::<OutV>::empty() + x + y =~= x + y);
    }
}

/// Whatever stands in an opaque struct's items stands in the expansion.
proof fn lemma_struct_in_expansion(b: Bridge, ms: Seq<MethodShapes>, i: int, p: Seq<OutV>)
    requires
        0 <= i < b.input.opaques@.len(),
        occurs(opaque_struct_view(b.input.opaques@[i]), p),
    ensures
        occurs(expansion_view(b, ms), p),
{
    let u = *b.input;
    let no = u.opaques@.len();
    lemma_opaque_structs_hold(u, no, i);
    lemma_occurs_trans(opaque_structs_view(u, no), opaque_struct_view(u.opaques@[i]), p);
    let d = defining_view(u, ms);
    let rest = d.subrange(opaque_structs_view(u, no).len() as int, d.len() as int);
    assert(d =~= opaque_structs_view(u, no) + rest);
    lemma_occurs_around(opaque_structs_view(u, no), p, Seq::empty(), rest + implementing_view(b, ms));
    assert(Seq::<OutV>::empty() + opaque_structs_view(u, no) + (rest + implementing_view(b, ms))
        =~= expansion_view(b, ms));
}

/// Every marker declared on an opaque type is implemented on its opaque struct: the
/// defining crate's items hold `impl ::core::MODULE::Name for STRUCT { }`, `unsafe` for
/// `Send` and `Sync`, with an empty body for every marker but `Clone`. An opaque type with a
/// drop symbol has `impl ::core::ops::Drop for STRUCT { ... }`.
pub proof fn lemma_declared_markers_implemented(b: Bridge, ms: Seq<MethodShapes>, i: int, j: int)
    requires
        0 <= i < b.input.opaques@.len(),
        0 <= j < b.input.opaques@[i].bounds@.len(),
    ensures
        exists|body: Seq<OutV>|
            #[trigger] occurs(
                expansion_view(b, ms),
                with_body(
                    marker_impl_head(b.input.opaques@[i].bounds@[j], struct_name(b.input.opaques@[i])),
                    body,
                ),
            ) && (b.input.opaques@[i].bounds@[j] != Marker::Clone ==> body.len() == 0),
        b.input.opaques@[i].drop_symbol is Some ==> exists|body: Seq<OutV>|
            #[trigger] occurs(
                expansion_view(b, ms),
                with_body(drop_impl_head(struct_name(b.input.opaques@[i])), body),
            ),
{
    let o = b.input.opaques@[i];
    let m = o.bounds@[j];
    let name = struct_name(o);
    let mi = marker_impl_view(o, m);
    let body = match m {
        Marker::Clone => inline_fn_view(
            "clone"@,
            seq![t("&self"@)],
            seq![t("-> Self"@)],
            extern_block_view(
                sym_v(o.clone_symbol->0),
                true,
                seq![t("this: &"@), name],
                seq![t("->"@), name],
            ) + seq![t("extern_fn(self)"@)],
        ),
        _ => Seq::empty(),
    };
    let head = with_body(marker_impl_head(m, name), body);
    assert(mi =~= head + mi.subrange(head.len() as int, mi.len() as int));
    lemma_occurs_start(mi, head, mi.subrange(head.len() as int, mi.len() as int));
    lemma_marker_impls_hold(o, o.bounds@.len(), j);
    lemma_occurs_trans(marker_impls_view(o, o.bounds@.len()), mi, head);
    let os = opaque_struct_view(o);
    lemma_occurs_around(marker_impls_view(o, o.bounds@.len()), head, opaque_def_view(o), drop_impl_view(o));
    lemma_struct_in_expansion(b, ms, i, head);
    assert(occurs(expansion_view(b, ms), head));
    if let Some(s) = o.drop_symbol {
        let dbody = inline_fn_view(
            "drop"@,
            seq![t("&mut self"@)],
            Seq::empty(),
            extern_block_view(sym_v(s), true, seq![t("this: &mut"@), name], Seq::empty())
                + seq![t("extern_fn(self)"@)],
        );
        let dh = with_body(drop_impl_head(name), dbody);
        assert(drop_impl_view(o) =~= dh);
        lemma_occurs_start(dh, dh, Seq::empty());
        assert(dh + Seq::<OutV>::empty() =~= dh);
        lemma_occurs_around(dh, dh, opaque_def_view(o) + marker_impls_view(o, o.bounds@.len()), Seq::empty());
        assert(opaque_def_view(o) + marker_impls_view(o, o.bounds@.len()) + dh + Seq::<OutV>::empty() =~= os);
        lemma_struct_in_expansion(b, ms, i, dh);
        assert(occurs(expansion_view(b, ms), dh));
    }
    assert(occurs(expansion_view(b, ms), with_body(marker_impl_head(m, name), body)));
}

} // verus!

verus! {

/// The values a `Result` conversion rebuilds, inside `Ok(..)` and inside `Err(..)`: the
/// payloads of the arms of the `match` it ends with.
pub open spec fn result_payloads(v: Seq<OutV>) -> (OutV, OutV) {
    match v.last() {
        OutV::Group(_, arms, _) => (arms[1], arms[3]),
        _ => (v.last(), v.last()),
    }
}

/// Converting a shape that holds an opaque type is never passing the value through.
pub proof fn lemma_conversion_not_identity(b: Bridge, s: Shape, d: Dir)
    requires
        !(s is Plain),
    ensures
        convert_view(b, s, seq![text_v("__unitrait_v"@, 0)], d) != seq![text_v("__unitrait_v"@, 0)],
{
    let v = seq![text_v("__unitrait_v"@, 0)];
    let c = convert_view(b, s, v, d);
    match s {
        Shape::Opaque { index, mode, .. } => {
            assert(c[0] is Group);
        },
        Shape::Tuple(..) => {
            assert(c[0] is Group);
        },
        Shape::Array(..) => {
            assert(c.len() == 4);
        },
        _ => {
            assert(c.len() == 3);
        },
    }
}

/// Both sides of a `Result` are converted alike, in the same direction: the value rebuilt
/// inside `Err(..)` is the conversion of the error's shape, as the one inside `Ok(..)` is of
/// the success's, so swapping the two shapes swaps the two payloads; and an error side that
/// holds an opaque type is never passed through unconverted.
pub proof fn lemma_result_sides_convert_alike(
    b: Bridge,
    sp: u64,
    ok: Shape,
    err: Shape,
    e: Seq<OutV>,
    d: Dir,
)
    ensures
        result_payloads(convert_view(b, Shape::Result(sp, Box::new(ok), Box::new(err)), e, d)).0
            == OutV::Group(Delim::Paren, convert_view(b, ok, seq![text_v("__unitrait_v"@, 0)], d), 0),
        result_payloads(convert_view(b, Shape::Result(sp, Box::new(ok), Box::new(err)), e, d)).1
            == OutV::Group(Delim::Paren, convert_view(b, err, seq![text_v("__unitrait_v"@, 0)], d), 0),
        result_payloads(convert_view(b, Shape::Result(sp, Box::new(ok), Box::new(err)), e, d)).1
            == result_payloads(convert_view(b, Shape::Result(sp, Box::new(err), Box::new(ok)), e, d)).0,
        !(err is Plain) ==> result_payloads(
            convert_view(b, Shape::Result(sp, Box::new(ok), Box::new(err)), e, d),
        ).1 != OutV::Group(Delim::Paren, seq![text_v("__unitrait_v"@, 0)], 0),
{
    if !(err is Plain) {
        lemma_conversion_not_identity(b, err, d);
    }
}

} // verus!

verus! {

/// Attributes, token tree by token tree, from the token views of each `#` and bracketed
/// group, as written.
pub open spec fn written_attrs(a: Seq<(crate::tokens::TokV, crate::tokens::TokV)>) -> Seq<OutV>
    decreases a.len(),
{
    if a.len() == 0 {
        Seq::empty()
    } else {
        written_attrs(a.drop_last()) + seq![OutV::Tok(a.last().0), OutV::Tok(a.last().1)]
    }
}

/// A method's `unsafe`, as written, if it is.
pub open spec fn written_unsafety(m: Method) -> Seq<OutV> {
    match m.unsafety {
        Some(x) => seq![OutV::Tok(crate::tokens::tok_view(x))],
        None => Seq::empty(),
    }
}

/// What a method of the trait starts with: its doc comments as written, its `unsafe` and
/// `fn`, and its name.
pub open spec fn method_start(m: Method) -> Seq<OutV> {
    written_attrs(crate::attrs::attrs_toks(m.docs@)) + written_unsafety(m) + seq![
        t("fn"@),
        OutV::Tok(crate::tokens::tok_view(m.name)),
    ]
}

proof fn lemma_attrs_view_written(a: Seq<Attr>)
    ensures
        attrs_view(a) == written_attrs(crate::attrs::attrs_toks(a)),
    decreases a.len(),
{
    if a.len() > 0 {
        assert(crate::attrs::attrs_toks(a.drop_last()) =~= crate::attrs::attrs_toks(a).drop_last());
        lemma_attrs_view_written(a.drop_last());
    }
}

proof fn lemma_trait_methods_hold(u: UnitraitInput, ms: Seq<MethodShapes>, n: nat, j: int)
    requires
        0 <= j < n <= u.methods@.len(),
    ensures
        occurs(trait_methods_view(u, ms, n), trait_method_view(u, u.methods@[j], ms[j])),
    decreases n,
{
    let x = trait_methods_view(u, ms, (n - 1) as nat);
    let y = trait_method_view(u, u.methods@[n - 1], ms[n - 1]);
    assert(trait_methods_view(u, ms, n) == x + y);
    if j == n - 1 {
        lemma_occurs_start(y, y, Seq::empty());
        lemma_occurs_around(y, y, x, Seq::empty());
        assert(x + y + Seq::<OutV>::empty() =~= x + y);
    } else {
        lemma_trait_methods_hold(u, ms, (n - 1) as nat, j);
        lemma_occurs_around(x, trait_method_view(u, u.methods@[j], ms[j]), Seq::empty(), y);
        assert(Seq::<OutV>::empty() + x + y =~= x + y);
    }
}

/// Each method of the generated trait carries the doc comments written on it in the input,
/// right before its `unsafe` (if written), `fn` and name: the trait, named as written, holds
/// that run of token trees for every method.
pub proof fn lemma_trait_methods_keep_docs(b: Bridge, ms: Seq<MethodShapes>, j: int)
    requires
        0 <= j < b.input.methods@.len(),
    ensures
        exists|k: int, body: Seq<OutV>|
            #![trigger expansion_view(b, ms)[k], occurs(body, method_start(b.input.methods@[j]))]
            0 <= k && k + 2 < expansion_view(b, ms).len() && expansion_view(b, ms)[k] == t("trait"@)
                && expansion_view(b, ms)[k + 1] == OutV::Tok(crate::tokens::tok_view(b.input.name))
                && expansion_view(b, ms)[k + 2] == group(Delim::Brace, body) && occurs(
                body,
                method_start(b.input.methods@[j]),
            ),
{
    let u = *b.input;
    let m = u.methods@[j];
    let no = u.opaques@.len();
    let nm = u.methods@.len();
    let mv = trait_method_view(u, m, ms[j]);
    let start = method_start(m);
    lemma_attrs_view_written(m.docs@);
    assert(mv =~= start + mv.subrange(start.len() as int, mv.len() as int));
    lemma_occurs_start(mv, start, mv.subrange(start.len() as int, mv.len() as int));
    lemma_trait_methods_hold(u, ms, nm, j);
    lemma_occurs_trans(trait_methods_view(u, ms, nm), mv, start);
    let body = trait_opaques_view(u, no) + trait_methods_view(u, ms, nm);
    lemma_occurs_around(trait_methods_view(u, ms, nm), start, trait_opaques_view(u, no), Seq::empty());
    assert(trait_opaques_view(u, no) + trait_methods_view(u, ms, nm) + Seq::<OutV>::empty() =~= body);
    let pre = opaque_structs_view(u, no) + attrs_view(u.trait_docs@) + toks_out(toks_view(u.vis@));
    let k = pre.len() as int;
    let ex = expansion_view(b, ms);
    assert(ex[k] == t("trait"@));
    assert(ex[k + 1] == OutV::Tok(crate::tokens::tok_view(u.name)));
    assert(ex[k + 2] == group(Delim::Brace, body));
    assert(occurs(body, method_start(m)));
}

} // verus!

verus! {

/// The payload of the `i`-th token tree among the arms of the `match` a conversion ends
/// with: for an `Option`, `Some(..)`'s at index 1.
pub open spec fn arm_payload(v: Seq<OutV>, i: int) -> OutV {
    match v.last() {
        OutV::Group(_, arms, _) => arms[i],
        _ => v.last(),
    }
}

/// The items rebuilt into a tuple: what the parenthesized group closing the conversion's
/// block holds.
pub open spec fn tuple_rebuilt(v: Seq<OutV>) -> Seq<OutV> {
    match v[0] {
        OutV::Group(_, stmts, _) => match stmts.last() {
            OutV::Group(_, items, _) => items,
            _ => Seq::empty(),
        },
        _ => Seq::empty(),
    }
}

/// What the closure of an array conversion's `map` is handed: the parenthesized group the
/// conversion ends with.
pub open spec fn map_argument(v: Seq<OutV>) -> Seq<OutV> {
    match v.last() {
        OutV::Group(_, items, _) => items,
        _ => Seq::empty(),
    }
}

proof fn lemma_tuple_convs_hold(b: Bridge, s: Seq<Shape>, d: Dir, i: int)
    requires
        0 <= i < s.len(),
    ensures
        occurs(
            tuple_convs_view(b, s, d),
            convert_view(b, s[i], seq![OutV::Ident(tuple_name_view(i as nat), 0)], d) + seq![
                text_v(","@, 0),
            ],
        ),
    decreases s.len(),
{
    let n = s.len();
    let x = tuple_convs_view(b, s.drop_last(), d);
    let y = convert_view(b, s.last(), seq![OutV::Ident(tuple_name_view((n - 1) as nat), 0)], d)
        + seq![text_v(","@, 0)];
    assert(tuple_convs_view(b, s, d) =~= x + y);
    if i == n - 1 {
        lemma_occurs_start(y, y, Seq::empty());
        assert(y + Seq::<OutV>::empty() =~= y);
        lemma_occurs_around(y, y, x, Seq::empty());
        assert(x + y + Seq::<OutV>::empty() =~= x + y);
    } else {
        assert(s.drop_last()[i] == s[i]);
        lemma_tuple_convs_hold(b, s.drop_last(), d, i);
        let p = convert_view(b, s[i], seq![OutV::Ident(tuple_name_view(i as nat), 0)], d) + seq![
            text_v(","@, 0),
        ];
        lemma_occurs_around(x, p, Seq::empty(), y);
        assert(Seq::<OutV>::empty() + x + y =~= x + y);
    }
}

/// `Option`s, tuples and arrays convert what they hold by the conversion of its shape, in
/// the same direction: the value rebuilt inside `Some(..)` is the conversion of the inner
/// shape; a tuple is rebuilt from the conversion of each element, in order; an array is
/// mapped through the conversion of its element. What holds an opaque type is never passed
/// through unconverted.
pub proof fn lemma_wrappers_convert_their_contents(
    b: Bridge,
    sp: u64,
    inner: Shape,
    elems: Vec<Shape>,
    len: Vec<crate::tokens::Tok>,
    e: Seq<OutV>,
    d: Dir,
    i: int,
)
    ensures
        arm_payload(convert_view(b, Shape::Option(sp, Box::new(inner)), e, d), 1) == OutV::Group(
            Delim::Paren,
            convert_view(b, inner, seq![text_v("__unitrait_v"@, 0)], d),
            0,
        ),
        !(inner is Plain) ==> arm_payload(convert_view(b, Shape::Option(sp, Box::new(inner)), e, d), 1)
            != OutV::Group(Delim::Paren, seq![text_v("__unitrait_v"@, 0)], 0),
        0 <= i < elems@.len() ==> occurs(
            tuple_rebuilt(convert_view(b, Shape::Tuple(sp, elems), e, d)),
            convert_view(b, elems@[i], seq![OutV::Ident(tuple_name_view(i as nat), 0)], d) + seq![
                text_v(","@, 0),
            ],
        ),
        ({
            let arg = map_argument(convert_view(b, Shape::Array(sp, Box::new(inner), len), e, d));
            let c = convert_view(b, inner, seq![text_v("__unitrait_v"@, 0)], d);
            &&& c.len() <= arg.len()
            &&& arg.subrange(arg.len() - c.len(), arg.len() as int) == c
        }),
        !(inner is Plain) ==> convert_view(b, inner, seq![text_v("__unitrait_v"@, 0)], d) != seq![
            text_v("__unitrait_v"@, 0),
        ],
{
    if !(inner is Plain) {
        lemma_conversion_not_identity(b, inner, d);
    }
    if 0 <= i < elems@.len() {
        lemma_tuple_convs_hold(b, elems@, d, i);
    }
    let arg = map_argument(convert_view(b, Shape::Array(sp, Box::new(inner), len), e, d));
    let c = convert_view(b, inner, seq![text_v("__unitrait_v"@, 0)], d);
    assert(arg =~= e + seq![text_v(", |__unitrait_v|"@, 0)] + c);
    assert(arg.subrange(arg.len() - c.len(), arg.len() as int) =~= c);
}

} // verus!

verus! {

/// `: ::core::MODULE::Name + ...` for the first `n` markers of `ms`: the bounds a declared
/// associated type is written with.
pub open spec fn declared_bounds(ms: Seq<Marker>, n: nat) -> Seq<OutV>
    decreases n,
{
    if n == 0 {
        Seq::empty()
    } else {
        declared_bounds(ms, (n - 1) as nat) + seq![
            t(
                if n == 1 {
                    ":"@
                } else {
                    "+"@
                },
            ),
            t("::core::"@),
            t(crate::marker::marker_module(ms[n - 1])),
            t("::"@),
            t(crate::marker::marker_name(ms[n - 1])),
        ]
    }
}

/// How an opaque associated type is declared in the trait: its doc comments as written,
/// `type`, its name, its markers as bounds in the order written, and `;`.
pub open spec fn assoc_declaration(o: OpaqueDecl) -> Seq<OutV> {
    written_attrs(crate::attrs::attrs_toks(o.docs@)) + seq![
        t("type"@),
        OutV::Tok(crate::tokens::tok_view(o.assoc)),
    ] + declared_bounds(o.bounds@, o.bounds@.len()) + seq![t(";"@)]
}

/// What a method of the dispatch type starts with: its doc comments as written, `#[inline]`,
/// the dispatch type's visibility, its `unsafe` and `fn`, and its name.
pub open spec fn dispatch_method_start(u: UnitraitInput, m: Method) -> Seq<OutV> {
    written_attrs(crate::attrs::attrs_toks(m.docs@)) + seq![t("#[inline]"@)] + toks_out(
        toks_view(u.dispatch_vis@),
    ) + written_unsafety(m) + seq![t("fn"@), OutV::Tok(crate::tokens::tok_view(m.name))]
}

proof fn lemma_bounds_declared(ms: Seq<Marker>, n: nat)
    requires
        n <= ms.len(),
    ensures
        bounds_view(ms, n) == declared_bounds(ms, n),
    decreases n,
{
    if n > 0 {
        lemma_bounds_declared(ms, (n - 1) as nat);
        assert(bounds_view(ms, n) =~= declared_bounds(ms, n));
    }
}

proof fn lemma_trait_opaques_hold(u: UnitraitInput, n: nat, i: int)
    requires
        0 <= i < n <= u.opaques@.len(),
    ensures
        occurs(trait_opaques_view(u, n), crate::template::trait_opaque_view(u.opaques@[i])),
    decreases n,
{
    let x = trait_opaques_view(u, (n - 1) as nat);
    let y = crate::template::trait_opaque_view(u.opaques@[n - 1]);
    assert(trait_opaques_view(u, n) == x + y);
    if i == n - 1 {
        lemma_occurs_start(y, y, Seq::empty());
        lemma_occurs_around(y, y, x, Seq::empty());
        assert(x + y + Seq::<OutV>::empty() =~= x + y);
    } else {
        lemma_trait_opaques_hold(u, (n - 1) as nat, i);
        lemma_occurs_around(x, crate::template::trait_opaque_view(u.opaques@[i]), Seq::empty(), y);
        assert(Seq::<OutV>::empty() + x + y =~= x + y);
    }
}

proof fn lemma_dispatch_methods_hold(u: UnitraitInput, ms: Seq<MethodShapes>, n: nat, j: int)
    requires
        0 <= j < n <= u.methods@.len(),
    ensures
        occurs(dispatch_methods_view(u, ms, n), dispatch_method_view(u, u.methods@[j], ms[j])),
    decreases n,
{
    let x = dispatch_methods_view(u, ms, (n - 1) as nat);
    let y = dispatch_method_view(u, u.methods@[n - 1], ms[n - 1]);
    assert(dispatch_methods_view(u, ms, n) == x + y);
    if j == n - 1 {
        lemma_occurs_start(y, y, Seq::empty());
        lemma_occurs_around(y, y, x, Seq::empty());
        assert(x + y + Seq::<OutV>::empty() =~= x + y);
    } else {
        lemma_dispatch_methods_hold(u, ms, (n - 1) as nat, j);
        lemma_occurs_around(x, dispatch_method_view(u, u.methods@[j], ms[j]), Seq::empty(), y);
        assert(Seq::<OutV>::empty() + x + y =~= x + y);
    }
}

/// The trait is generated with its items as written: each opaque associated type is
/// declared with its doc comments, its name and its markers as bounds, in order.
pub proof fn lemma_trait_declares_assoc_types(b: Bridge, ms: Seq<MethodShapes>, i: int)
    requires
        0 <= i < b.input.opaques@.len(),
    ensures
        exists|k: int, body: Seq<OutV>|
            #![trigger expansion_view(b, ms)[k], occurs(body, assoc_declaration(b.input.opaques@[i]))]
            0 <= k && k + 2 < expansion_view(b, ms).len() && expansion_view(b, ms)[k] == t("trait"@)
                && expansion_view(b, ms)[k + 1] == OutV::Tok(crate::tokens::tok_view(b.input.name))
                && expansion_view(b, ms)[k + 2] == group(Delim::Brace, body) && occurs(
                body,
                assoc_declaration(b.input.opaques@[i]),
            ),
{
    let u = *b.input;
    let o = u.opaques@[i];
    let no = u.opaques@.len();
    let nm = u.methods@.len();
    lemma_attrs_view_written(o.docs@);
    lemma_bounds_declared(o.bounds@, o.bounds@.len());
    let decl = assoc_declaration(o);
    assert(crate::template::trait_opaque_view(o) =~= decl);
    lemma_trait_opaques_hold(u, no, i);
    let body = trait_opaques_view(u, no) + trait_methods_view(u, ms, nm);
    lemma_occurs_around(trait_opaques_view(u, no), decl, Seq::empty(), trait_methods_view(u, ms, nm));
    assert(Seq::<OutV>::empty() + trait_opaques_view(u, no) + trait_methods_view(u, ms, nm) =~= body);
    let pre = opaque_structs_view(u, no) + attrs_view(u.trait_docs@) + toks_out(toks_view(u.vis@));
    let k = pre.len() as int;
    let ex = expansion_view(b, ms);
    assert(ex[k] == t("trait"@));
    assert(ex[k + 1] == OutV::Tok(crate::tokens::tok_view(u.name)));
    assert(ex[k + 2] == group(Delim::Brace, body));
    assert(occurs(body, decl));
}

/// Each method of the dispatch type carries the doc comments written on the method, then
/// `#[inline]`, the dispatch type's visibility, its `unsafe` (if written), `fn` and name:
/// the inherent impl of the dispatch type, named as written, holds that run for every
/// method.
pub proof fn lemma_dispatch_methods_keep_docs(b: Bridge, ms: Seq<MethodShapes>, j: int)
    requires
        0 <= j < b.input.methods@.len(),
    ensures
        exists|k: int, body: Seq<OutV>|
            #![trigger expansion_view(b, ms)[k], occurs(body, dispatch_method_start(*b.input, b.input.methods@[j]))]
            0 <= k && k + 2 < expansion_view(b, ms).len() && expansion_view(b, ms)[k] == t("impl"@)
                && expansion_view(b, ms)[k + 1] == OutV::Tok(crate::tokens::tok_view(b.input.dispatch))
                && expansion_view(b, ms)[k + 2] == group(Delim::Brace, body) && occurs(
                body,
                dispatch_method_start(*b.input, b.input.methods@[j]),
            ),
{
    let u = *b.input;
    let m = u.methods@[j];
    let no = u.opaques@.len();
    let nm = u.methods@.len();
    let mv = dispatch_method_view(u, m, ms[j]);
    let start = dispatch_method_start(u, m);
    lemma_attrs_view_written(m.docs@);
    assert(mv =~= start + mv.subrange(start.len() as int, mv.len() as int));
    lemma_occurs_start(mv, start, mv.subrange(start.len() as int, mv.len() as int));
    lemma_dispatch_methods_hold(u, ms, nm, j);
    lemma_occurs_trans(dispatch_methods_view(u, ms, nm), mv, start);
    let body = dispatch_methods_view(u, ms, nm);
    let pre = opaque_structs_view(u, no) + attrs_view(u.trait_docs@) + toks_out(toks_view(u.vis@))
        + seq![
        t("trait"@),
        tok_v(u.name),
        group(Delim::Brace, trait_opaques_view(u, no) + trait_methods_view(u, ms, nm)),
    ] + attrs_view(u.dispatch_attrs@) + toks_out(toks_view(u.dispatch_vis@)) + seq![
        t("struct"@),
        tok_v(u.dispatch),
        t(";"@),
    ];
    let k = pre.len() as int;
    let ex = expansion_view(b, ms);
    assert(ex[k] == t("impl"@));
    assert(ex[k + 1] == OutV::Tok(crate::tokens::tok_view(u.dispatch)));
    assert(ex[k + 2] == group(Delim::Brace, body));
    assert(occurs(body, start));
}

} // verus!

verus! {

/// The token tree that starts a `Drop` impl of an opaque struct.
pub open spec fn drop_head() -> OutV {
    t("impl ::core::ops::Drop for"@)
}

/// No token tree of `s`, at its top level, is `x`.
pub open spec fn lacks(s: Seq<OutV>, x: OutV) -> bool {
    forall|k: int| 0 <= k < s.len() ==> s[k] != x
}

proof fn lemma_lacks_concat(a: Seq<OutV>, b: Seq<OutV>, x: OutV)
    requires
        lacks(a, x),
        lacks(b, x),
    ensures
        lacks(a + b, x),
{
    assert forall|k: int| 0 <= k < (a + b).len() implies (a + b)[k] != x by {
        if k < a.len() {
            assert((a + b)[k] == a[k]);
        } else {
            assert((a + b)[k] == b[k - a.len()]);
        }
    }
}

proof fn lemma_attrs_lack(a: Seq<Attr>)
    ensures
        lacks(attrs_view(a), drop_head()),
    decreases a.len(),
{
    if a.len() > 0 {
        lemma_attrs_lack(a.drop_last());
        lemma_lacks_concat(
            attrs_view(a.drop_last()),
            seq![tok_v(a.last().pound), tok_v(a.last().group)],
            drop_head(),
        );
    }
}

/// The fixed text the opaque struct's items are made of is never the head of a `Drop` impl.
proof fn lemma_texts_differ(m: Marker)
    ensures
        t("impl"@) != drop_head(),
        t("unsafe impl"@) != drop_head(),
        t("::core::"@) != drop_head(),
        t("::"@) != drop_head(),
        t("for"@) != drop_head(),
        t("#"@) != drop_head(),
        t("struct"@) != drop_head(),
        t("::core::cfg_select!"@) != drop_head(),
        t("impl ::core::clone::Clone for"@) != drop_head(),
        t(crate::marker::marker_module(m)) != drop_head(),
        t(crate::marker::marker_name(m)) != drop_head(),
{
    reveal_strlit("impl ::core::ops::Drop for");
    reveal_strlit("impl");
    reveal_strlit("unsafe impl");
    reveal_strlit("::core::");
    reveal_strlit("::");
    reveal_strlit("for");
    reveal_strlit("#");
    reveal_strlit("struct");
    reveal_strlit("::core::cfg_select!");
    reveal_strlit("impl ::core::clone::Clone for");
    reveal_strlit("marker");
    reveal_strlit("panic");
    reveal_strlit("clone");
    reveal_strlit("Send");
    reveal_strlit("Sync");
    reveal_strlit("Unpin");
    reveal_strlit("UnwindSafe");
    reveal_strlit("RefUnwindSafe");
    reveal_strlit("Copy");
    reveal_strlit("Clone");
    assert("impl ::core::ops::Drop for"@.len() == 26);
    assert("impl ::core::clone::Clone for"@[13] != "impl ::core::ops::Drop for"@[13]);
}

proof fn lemma_marker_impl_lacks(o: OpaqueDecl, m: Marker)
    ensures
        lacks(marker_impl_view(o, m), drop_head()),
{
    lemma_texts_differ(m);
    let v = marker_impl_view(o, m);
    assert forall|k: int| 0 <= k < v.len() implies v[k] != drop_head() by {
        assert(v[k] != drop_head());
    }
}

proof fn lemma_marker_impls_lack(o: OpaqueDecl, n: nat)
    requires
        n <= o.bounds@.len(),
    ensures
        lacks(marker_impls_view(o, n), drop_head()),
    decreases n,
{
    if n > 0 {
        lemma_marker_impls_lack(o, (n - 1) as nat);
        lemma_marker_impl_lacks(o, o.bounds@[n - 1]);
        lemma_lacks_concat(
            marker_impls_view(o, (n - 1) as nat),
            marker_impl_view(o, o.bounds@[n - 1]),
            drop_head(),
        );
    }
}

proof fn lemma_opaque_def_lacks(o: OpaqueDecl)
    requires
        o.layouts@.len() > 0,
    ensures
        lacks(opaque_def_view(o), drop_head()),
{
    lemma_texts_differ(Marker::Send);
    let n = o.layouts@.len();
    if n == 1 && o.layouts@[0].cfg is None {
        let l = o.layouts@[0];
        let v = opaque_def_view(o);
        lemma_attrs_lack(o.docs@);
        let mid = seq![t("#"@), v[attrs_view(o.docs@).len() as int + 1]];
        let vis = toks_out(toks_view(o.vis@));
        let tail = seq![t("struct"@), opaque_name_v(o), v[v.len() - 1]];
        assert(v =~= attrs_view(o.docs@) + mid + vis + tail);
        lemma_lacks_concat(attrs_view(o.docs@), mid, drop_head());
        lemma_lacks_concat(attrs_view(o.docs@) + mid, vis, drop_head());
        lemma_lacks_concat(attrs_view(o.docs@) + mid + vis, tail, drop_head());
    }
}

/// An opaque type without a drop symbol, which is one without a `Drop` bound, gets no
/// `Drop` impl: no token tree of its opaque struct's items starts one. With a drop symbol,
/// its items end with `impl ::core::ops::Drop for STRUCT { ... }`.
pub proof fn lemma_drop_impl_only_with_drop_symbol(o: OpaqueDecl)
    requires
        opaque_wf(o),
    ensures
        o.drop_symbol is None ==> lacks(opaque_struct_view(o), drop_head()),
        o.drop_symbol is Some ==> exists|body: Seq<OutV>|
            #[trigger] with_body(drop_impl_head(struct_name(o)), body) == opaque_struct_view(o).subrange(
                opaque_struct_view(o).len() - 3,
                opaque_struct_view(o).len() as int,
            ),
{
    lemma_opaque_def_lacks(o);
    lemma_marker_impls_lack(o, o.bounds@.len());
    lemma_lacks_concat(opaque_def_view(o), marker_impls_view(o, o.bounds@.len()), drop_head());
    let pre = opaque_def_view(o) + marker_impls_view(o, o.bounds@.len());
    if o.drop_symbol is None {
        assert(opaque_struct_view(o) =~= pre + Seq::<OutV>::empty());
    } else {
        let d = drop_impl_view(o);
        let os = opaque_struct_view(o);
        assert(os =~= pre + d);
        let body = match d[2] {
            OutV::Group(_, b, _) => b,
            _ => Seq::empty(),
        };
        assert(with_body(drop_impl_head(struct_name(o)), body) =~= os.subrange(os.len() - 3, os.len() as int));
    }
}

} // verus!

verus! {

proof fn lemma_marker_names_apart(m: Marker, x: Marker)
    ensures
        t(crate::marker::marker_name(m)) != t("impl"@),
        t(crate::marker::marker_name(m)) != t("unsafe impl"@),
        t(crate::marker::marker_name(m)) != t("::core::"@),
        t(crate::marker::marker_name(m)) != t("::"@),
        t(crate::marker::marker_name(m)) != t("for"@),
        t(crate::marker::marker_name(m)) != t("#"@),
        t(crate::marker::marker_name(m)) != t("struct"@),
        t(crate::marker::marker_name(m)) != t("::core::cfg_select!"@),
        t(crate::marker::marker_name(m)) != t("impl ::core::clone::Clone for"@),
        t(crate::marker::marker_name(m)) != drop_head(),
        t(crate::marker::marker_name(m)) != t(crate::marker::marker_module(x)),
        m != x ==> t(crate::marker::marker_name(m)) != t(crate::marker::marker_name(x)),
{
    reveal_strlit("impl ::core::ops::Drop for");
    reveal_strlit("impl");
    reveal_strlit("unsafe impl");
    reveal_strlit("::core::");
    reveal_strlit("::");
    reveal_strlit("for");
    reveal_strlit("#");
    reveal_strlit("struct");
    reveal_strlit("::core::cfg_select!");
    reveal_strlit("impl ::core::clone::Clone for");
    reveal_strlit("marker");
    reveal_strlit("panic");
    reveal_strlit("clone");
    reveal_strlit("Send");
    reveal_strlit("Sync");
    reveal_strlit("Unpin");
    reveal_strlit("UnwindSafe");
    reveal_strlit("RefUnwindSafe");
    reveal_strlit("Copy");
    reveal_strlit("Clone");
    let n = crate::marker::marker_name(m);
    assert(n[0] != 'i' && n[0] != ':' && n[0] != 'f' && n[0] != '#' && n[0] != 's' && n[0] != 'u');
    assert(n[0] != 'm' && n[0] != 'p' && n[0] != 'c');
    if m != x {
        let y = crate::marker::marker_name(x);
        assert(n != y) by {
            if n.len() == y.len() {
                if n[1] == y[1] {
                    assert(n[0] != y[0] || n[2] != y[2]);
                }
            }
        }
    }
}

/// A marker's name stands at the top level of the impls of the first `n` declared markers
/// exactly when it is among them.
proof fn lemma_marker_names_in_impls(o: OpaqueDecl, n: nat, m: Marker)
    requires
        n <= o.bounds@.len(),
    ensures
        lacks(marker_impls_view(o, n), t(crate::marker::marker_name(m))) <==> !o.bounds@.take(
            n as int,
        ).contains(m),
    decreases n,
{
    let name = t(crate::marker::marker_name(m));
    if n == 0 {
        assert(o.bounds@.take(0) =~= Seq::<Marker>::empty());
    } else {
        lemma_marker_names_in_impls(o, (n - 1) as nat, m);
        let x = o.bounds@[n - 1];
        let a = marker_impls_view(o, (n - 1) as nat);
        let v = marker_impl_view(o, x);
        lemma_marker_names_apart(m, x);
        assert(o.bounds@.take(n as int) =~= o.bounds@.take(n - 1).push(x));
        if m == x {
            assert(v[4] == name);
            assert((a + v)[a.len() + 4int] == name);
            assert(o.bounds@.take(n as int).contains(m)) by {
                assert(o.bounds@.take(n as int)[n - 1] == m);
            }
        } else {
            assert(lacks(v, name)) by {
                assert forall|k: int| 0 <= k < v.len() implies v[k] != name by {
                    assert(v[k] != name);
                }
            }
            if lacks(a, name) {
                lemma_lacks_concat(a, v, name);
                assert(!o.bounds@.take(n as int).contains(m)) by {
                    if o.bounds@.take(n as int).contains(m) {
                        let k = choose|k: int| 0 <= k < n && #[trigger] o.bounds@.take(n as int)[k] == m;
                        assert(o.bounds@.take(n - 1)[k] == m);
                    }
                }
            } else {
                let k = choose|k: int| 0 <= k < a.len() && #[trigger] a[k] == name;
                assert((a + v)[k] == name);
                let j = choose|j: int| 0 <= j < n - 1 && #[trigger] o.bounds@.take(n - 1)[j] == m;
                assert(o.bounds@.take(n as int)[j] == m);
            }
        }
    }
}

/// The marker traits named among an opaque struct's items are exactly the markers declared
/// on its associated type: an undeclared marker gets no impl, and a declared one gets one.
pub proof fn lemma_only_declared_markers_implemented(o: OpaqueDecl, m: Marker)
    requires
        opaque_wf(o),
    ensures
        lacks(opaque_struct_view(o), t(crate::marker::marker_name(m))) <==> !o.bounds@.contains(m),
{
    let name = t(crate::marker::marker_name(m));
    lemma_marker_names_in_impls(o, o.bounds@.len(), m);
    assert(o.bounds@.take(o.bounds@.len() as int) =~= o.bounds@);
    lemma_marker_names_apart(m, Marker::Send);
    let d = opaque_def_view(o);
    let mi = marker_impls_view(o, o.bounds@.len());
    let dr = drop_impl_view(o);
    assert(lacks(d, name)) by {
        let n = o.layouts@.len();
        if n == 1 && o.layouts@[0].cfg is None {
            assert forall|k: int| 0 <= k < d.len() implies d[k] != name by {
                let ad = attrs_view(o.docs@);
                let vis = toks_out(toks_view(o.vis@));
                if k < ad.len() {
                    lemma_attrs_tok(o.docs@, k);
                } else if ad.len() + 2 <= k < ad.len() + 2 + vis.len() {
                    assert(d[k] == vis[k - ad.len() - 2]);
                }
            }
        }
    }
    assert(lacks(dr, name));
    let os = opaque_struct_view(o);
    assert(os =~= d + mi + dr);
    if lacks(mi, name) {
        lemma_lacks_concat(d, mi, name);
        lemma_lacks_concat(d + mi, dr, name);
    } else {
        let k = choose|k: int| 0 <= k < mi.len() && #[trigger] mi[k] == name;
        assert(os[d.len() + k] == name);
    }
}

/// Every token tree of emitted attributes is an input token.
proof fn lemma_attrs_tok(a: Seq<Attr>, k: int)
    requires
        0 <= k < attrs_view(a).len(),
    ensures
        attrs_view(a)[k] is Tok,
    decreases a.len(),
{
    if a.len() > 0 {
        let p = attrs_view(a.drop_last());
        if k < p.len() {
            lemma_attrs_tok(a.drop_last(), k);
            assert(attrs_view(a)[k] == p[k]);
        }
    }
}

} // verus!
