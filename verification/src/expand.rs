//! Expanding the macro: the trait, the dispatch type, the opaque structs, and the
//! implementation macro.
use vstd::prelude::*;

use crate::attrs::{Attr, Sym};
use crate::bridge::{Bridge, Dir, qopaque_view, real_view};
use crate::input::{Method, OpaqueDecl, UnitraitInput, input_at, input_is, input_wf, opaque_wf};
use crate::marker::Marker;
use crate::out::{
    Error, Out, OutV, emit, emit_all, emit_group, emit_text, out_view, outs_view, single, text_v,
};
use crate::render::{Leaf, copy_outs, emit_toks, ident_string, tok, txt};
use crate::shape::{Shape, ShapeV, classify_spec, first_borrow_v, no_borrow, shape_valid};
use crate::template::{
    MethodShapes, all_arg_ids_view, all_checks_view, all_params_view, all_shapes, arg_ids_view,
    assert_view, attrs_view, binding_v, bounds_view, bridge_of, checks_view, classified,
    clone_export_view, clone_helper_view, convs_view, defining_view, dispatch_assoc_view,
    dispatch_assocs_view, dispatch_impl_method_view, dispatch_impl_methods_view,
    dispatch_method_view, dispatch_methods_view, drop_export_view, drop_helper_view,
    drop_impl_view, expansion_view, export_attr_view, extern_block_view, group, guarded_view,
    impl_call_view, implementing_view, inline_fn_view, layout_arms_view, macro_body_view,
    marker_impl_view, marker_impls_view, marker_path_view, method_export_view, method_exports_view,
    method_helper_view, method_helpers_view, no_layout_arm, no_layout_message, opaque_def_view,
    opaque_exports_view, opaque_helpers_view, opaque_name_v, opaque_struct_view,
    opaque_structs_view, params_view, ret_view, shapes_of, shim_impl_view, shim_name_v, shims_v,
    struct_def_view, sym_v, t, timpl_view, tok_v, trait_method_view, trait_methods_view,
    trait_opaque_view, trait_opaques_view, trait_qpath_view, unsafety_view,
};
use crate::tokens::{Delim, Tok, tok_span};

verus! {

/// Emits the doc comments or attributes, as written.
fn emit_attrs(out: &mut Vec<Out>, attrs: &Vec<Attr>)
    ensures
        outs_view(final(out)@) == outs_view(old(out)@) + attrs_view(attrs@),
{
    let ghost start = outs_view(out@);
    let mut i: usize = 0;
    while i < attrs.len()
        invariant
            i <= attrs.len(),
            outs_view(out@) == start + attrs_view(attrs@.take(i as int)),
        decreases attrs.len() - i,
    {
        emit(out, tok(&attrs[i].pound));
        emit(out, tok(&attrs[i].group));
        proof {
            let s = attrs@.take(i + 1);
            assert(s.drop_last() =~= attrs@.take(i as int));
            assert(outs_view(out@) =~= start + attrs_view(s));
        }
        i += 1;
    }
    assert(attrs@.take(attrs@.len() as int) =~= attrs@);
}

/// Emits the absolute path of a marker's `core` trait.
pub fn emit_marker_path(out: &mut Vec<Out>, m: Marker)
    ensures
        outs_view(final(out)@) == outs_view(old(out)@) + marker_path_view(m),
{
    emit_text(out, "::core::", 0);
    emit_text(out, m.module(), 0);
    emit_text(out, "::", 0);
    emit_text(out, m.name(), 0);
    assert(outs_view(out@) =~= outs_view(old(out)@) + marker_path_view(m));
}

/// A string literal holding a symbol, reported where the symbol was written.
fn sym_lit(s: &Sym) -> (r: Out)
    ensures
        out_view(r) == sym_v(*s),
{
    Out::Str(s.value.clone(), s.span)
}

/// `unsafe extern "Rust" { #[link_name = SYMBOL] [safe] fn extern_fn(PARAMS) [-> RET]; }`
fn emit_extern_block(out: &mut Vec<Out>, symbol: Out, safe: bool, params: Vec<Out>, ret: Vec<Out>)
    ensures
        outs_view(final(out)@) == outs_view(old(out)@) + extern_block_view(
            out_view(symbol),
            safe,
            outs_view(params@),
            outs_view(ret@),
        ),
{
    let ghost sv = out_view(symbol);
    let ghost pv = outs_view(params@);
    let ghost rv = outs_view(ret@);
    let mut link: Vec<Out> = Vec::new();
    emit_text(&mut link, "link_name =", 0);
    emit(&mut link, symbol);
    assert(outs_view(link@) =~= seq![t("link_name ="@), sv]);
    let mut body: Vec<Out> = Vec::new();
    emit_text(&mut body, "#", 0);
    emit_group(&mut body, Delim::Bracket, link, 0);
    if safe {
        emit_text(&mut body, "safe", 0);
    }
    emit_text(&mut body, "fn extern_fn", 0);
    emit_group(&mut body, Delim::Paren, params, 0);
    emit_all(&mut body, ret);
    emit_text(&mut body, ";", 0);
    let ghost head = seq![t("#"@), group(Delim::Bracket, seq![t("link_name ="@), sv])];
    let ghost safety = if safe {
        seq![t("safe"@)]
    } else {
        Seq::empty()
    };
    assert(outs_view(body@) =~= head + safety + seq![t("fn extern_fn"@), group(Delim::Paren, pv)]
        + rv + seq![t(";"@)]);
    emit_text(out, "unsafe extern \"Rust\"", 0);
    emit_group(out, Delim::Brace, body, 0);
    assert(outs_view(out@) =~= outs_view(old(out)@) + extern_block_view(sv, safe, pv, rv));
}

/// `#[inline] fn HEAD(PARAMS) RET { BODY }`: an `#[inline]` method.
fn emit_inline_fn(out: &mut Vec<Out>, head: &'static str, params: Vec<Out>, ret: Vec<Out>, body: Vec<Out>)
    ensures
        outs_view(final(out)@) == outs_view(old(out)@) + inline_fn_view(
            head@,
            outs_view(params@),
            outs_view(ret@),
            outs_view(body@),
        ),
{
    let ghost v = inline_fn_view(head@, outs_view(params@), outs_view(ret@), outs_view(body@));
    emit_text(out, "#[inline] fn", 0);
    emit_text(out, head, 0);
    emit_group(out, Delim::Paren, params, 0);
    emit_all(out, ret);
    emit_group(out, Delim::Brace, body, 0);
    assert(outs_view(out@) =~= outs_view(old(out)@) + v);
}

/// A list of one fixed text.
fn text_list(s: &'static str) -> (r: Vec<Out>)
    ensures
        outs_view(r@) == seq![t(s@)],
{
    single(txt(s))
}

/// The struct definition of an opaque type for one layout.
fn struct_def(o: &OpaqueDecl, align: Out, padded_size: Out) -> (r: Vec<Out>)
    ensures
        outs_view(r@) == struct_def_view(*o, out_view(align), out_view(padded_size)),
{
    let ghost av = out_view(align);
    let ghost pv = out_view(padded_size);
    let mut out: Vec<Out> = Vec::new();
    emit_attrs(&mut out, &o.docs);
    let mut repr: Vec<Out> = Vec::new();
    emit_text(&mut repr, "C, align", 0);
    emit_group(&mut repr, Delim::Paren, single(align), 0);
    assert(outs_view(repr@) =~= seq![t("C, align"@), group(Delim::Paren, seq![av])]);
    let mut attr: Vec<Out> = Vec::new();
    emit_text(&mut attr, "repr", 0);
    emit_group(&mut attr, Delim::Paren, repr, 0);
    assert(outs_view(attr@) =~= seq![
        t("repr"@),
        group(Delim::Paren, seq![t("C, align"@), group(Delim::Paren, seq![av])]),
    ]);
    emit_text(&mut out, "#", 0);
    emit_group(&mut out, Delim::Bracket, attr, 0);
    emit_toks(&mut out, &o.vis);
    emit_text(&mut out, "struct", 0);
    emit(&mut out, Out::Ident(o.opaque.clone(), tok_span(&o.assoc)));
    let mut fields: Vec<Out> = Vec::new();
    // Covers the whole struct: the storage is a multiple of the alignment.
    emit_text(&mut fields, "_data: ::core::mem::MaybeUninit<", 0);
    let mut arr: Vec<Out> = Vec::new();
    emit_text(&mut arr, "u8;", 0);
    emit(&mut arr, padded_size);
    assert(outs_view(arr@) =~= seq![t("u8;"@), pv]);
    emit_group(&mut fields, Delim::Bracket, arr, 0);
    emit_text(&mut fields, ">,", 0);
    // The opaque struct's auto traits must match those of the implementation's associated
    // type, which the defining crate doesn't know. This zero-sized marker implements none of
    // them, so they're all opted into explicitly, guarded by the corresponding bound on the
    // associated type.
    emit_text(
        &mut fields,
        "_not_auto: ::core::marker::PhantomData<(*mut (), ::core::marker::PhantomPinned, &'static mut (), ::core::cell::UnsafeCell<()>,)>,",
        0,
    );
    assert(outs_view(fields@) =~= seq![
        t("_data: ::core::mem::MaybeUninit<"@),
        group(Delim::Bracket, seq![t("u8;"@), pv]),
        t(">,"@),
        t(
            "_not_auto: ::core::marker::PhantomData<(*mut (), ::core::marker::PhantomPinned, &'static mut (), ::core::cell::UnsafeCell<()>,)>,"@,
        ),
    ]);
    emit_group(&mut out, Delim::Brace, fields, 0);
    assert(outs_view(out@) =~= struct_def_view(*o, av, pv));
    out
}

/// The definition of an opaque struct, under `cfg_select!` when its layout depends on
/// `cfg`s.
fn opaque_def(o: &OpaqueDecl) -> (r: Vec<Out>)
    requires
        opaque_wf(*o),
    ensures
        outs_view(r@) == opaque_def_view(*o),
{
    let assoc_span = tok_span(&o.assoc);
    let n = o.layouts.len();
    if n == 1 && o.layouts[0].cfg.is_none() {
        let l = &o.layouts[0];
        return struct_def(o, tok(&l.align), Out::Int(l.padded_size, l.size_span));
    }
    // One `cfg_select!` arm per `#[opaque]`, in source order: the first predicate that
    // holds wins, and the unconditional one, if any, is last and becomes the wildcard arm.
    let mut arms: Vec<Out> = Vec::new();
    let mut i: usize = 0;
    while i < n
        invariant
            i <= n == o.layouts.len(),
            outs_view(arms@) == layout_arms_view(*o, i as nat),
        decreases n - i,
    {
        let l = &o.layouts[i];
        let body = struct_def(o, tok(&l.align), Out::Int(l.padded_size, l.size_span));
        match &l.cfg {
            Some(cfg) => emit_toks(&mut arms, cfg),
            None => emit_text(&mut arms, "_", 0),
        }
        emit_text(&mut arms, "=>", 0);
        emit_group(&mut arms, Delim::Brace, body, 0);
        assert(outs_view(arms@) =~= layout_arms_view(*o, (i + 1) as nat));
        i += 1;
    }
    // Without an unconditional `#[opaque]`, no predicate holding is an error. The struct is
    // still defined, with a dummy layout, so the error is the only one reported.
    if o.layouts[n - 1].cfg.is_some() {
        let mut msg = String::from_str("no `#[opaque]` attribute applies to `");
        msg.append(ident_string(&o.assoc).as_str());
        msg.append(
            "`: none of its `cfg_attr` predicates hold, and it has no unconditional `#[opaque(size = N, align = M)]` fallback",
        );
        assert(msg@ =~= no_layout_message(*o));
        let mut body: Vec<Out> = Vec::new();
        emit_text(&mut body, "::core::compile_error!", assoc_span);
        emit_group(&mut body, Delim::Paren, single(Out::Str(msg, assoc_span)), assoc_span);
        emit_text(&mut body, ";", assoc_span);
        emit_all(&mut body, struct_def(o, Out::Int(1, assoc_span), Out::Int(0, assoc_span)));
        let ghost bv = seq![
            text_v("::core::compile_error!"@, assoc_span),
            OutV::Group(Delim::Paren, seq![OutV::Str(no_layout_message(*o), assoc_span)], assoc_span),
            text_v(";"@, assoc_span),
        ] + struct_def_view(*o, OutV::Int(1, assoc_span), OutV::Int(0, assoc_span));
        assert(outs_view(body@) =~= bv);
        let ghost before = outs_view(arms@);
        emit_text(&mut arms, "_ =>", 0);
        emit_group(&mut arms, Delim::Brace, body, 0);
        assert(outs_view(arms@) =~= before + no_layout_arm(*o));
    } else {
        assert(outs_view(arms@) =~= layout_arms_view(*o, n as nat) + Seq::<OutV>::empty());
    }
    let mut out: Vec<Out> = Vec::new();
    emit_text(&mut out, "::core::cfg_select!", 0);
    emit_group(&mut out, Delim::Brace, arms, 0);
    assert(outs_view(out@) =~= opaque_def_view(*o));
    out
}

/// The impl of one declared marker on the opaque struct.
fn marker_impl(o: &OpaqueDecl, b: Marker) -> (r: Vec<Out>)
    requires
        b == Marker::Clone ==> o.clone_symbol is Some,
    ensures
        outs_view(r@) == marker_impl_view(*o, b),
{
    let assoc_span = tok_span(&o.assoc);
    let ghost name = opaque_name_v(*o);
    let mut out: Vec<Out> = Vec::new();
    match b {
        // SAFETY: an opaque value holds a value of the implementation's associated type,
        // which the trait bound requires to be `Send`/`Sync`.
        Marker::Send | Marker::Sync => {
            emit_text(&mut out, "unsafe impl", 0);
            emit_marker_path(&mut out, b);
            emit_text(&mut out, "for", 0);
            emit(&mut out, Out::Ident(o.opaque.clone(), assoc_span));
            emit_group(&mut out, Delim::Brace, Vec::new(), 0);
        },
        // `Copy` and `Drop` are mutually exclusive bounds, so no `Drop` impl is emitted for
        // the opaque struct, and duplicating its bytes duplicates a value the implementation
        // itself declared trivially copyable.
        Marker::Copy => {
            emit_text(&mut out, "impl", 0);
            emit_marker_path(&mut out, b);
            emit_text(&mut out, "for", 0);
            emit(&mut out, Out::Ident(o.opaque.clone(), assoc_span));
            emit_group(&mut out, Delim::Brace, Vec::new(), 0);
            emit_text(&mut out, "impl ::core::clone::Clone for", 0);
            emit(&mut out, Out::Ident(o.opaque.clone(), assoc_span));
            let mut body: Vec<Out> = Vec::new();
            emit_inline_fn(
                &mut body,
                "clone",
                text_list("&self"),
                text_list("-> Self"),
                text_list("*self"),
            );
            assert(outs_view(body@) =~= inline_fn_view(
                "clone"@,
                seq![t("&self"@)],
                seq![t("-> Self"@)],
                seq![t("*self"@)],
            ));
            emit_group(&mut out, Delim::Brace, body, 0);
        },
        // A `Clone` opaque value can only be duplicated by the implementation, which knows
        // the real type, so `clone` dispatches through a symbol like any method.
        // `clone_from` is left to its default, which goes through it.
        Marker::Clone => {
            let symbol = match &o.clone_symbol {
                Some(s) => sym_lit(s),
                None => sym_lit(&Sym { value: String::new(), span: 0 }),
            };
            emit_text(&mut out, "impl", 0);
            emit_marker_path(&mut out, b);
            emit_text(&mut out, "for", 0);
            emit(&mut out, Out::Ident(o.opaque.clone(), assoc_span));
            let mut params: Vec<Out> = Vec::new();
            emit_text(&mut params, "this: &", 0);
            emit(&mut params, Out::Ident(o.opaque.clone(), assoc_span));
            let mut ret: Vec<Out> = Vec::new();
            emit_text(&mut ret, "->", 0);
            emit(&mut ret, Out::Ident(o.opaque.clone(), assoc_span));
            assert(outs_view(params@) =~= seq![t("this: &"@), name]);
            assert(outs_view(ret@) =~= seq![t("->"@), name]);
            let mut fbody: Vec<Out> = Vec::new();
            emit_extern_block(&mut fbody, symbol, true, params, ret);
            emit_text(&mut fbody, "extern_fn(self)", 0);
            let ghost fv = extern_block_view(
                sym_v(o.clone_symbol->0),
                true,
                seq![t("this: &"@), name],
                seq![t("->"@), name],
            ) + seq![t("extern_fn(self)"@)];
            assert(outs_view(fbody@) =~= fv);
            let mut body: Vec<Out> = Vec::new();
            emit_inline_fn(&mut body, "clone", text_list("&self"), text_list("-> Self"), fbody);
            emit_group(&mut out, Delim::Brace, body, 0);
        },
        _ => {
            emit_text(&mut out, "impl", 0);
            emit_marker_path(&mut out, b);
            emit_text(&mut out, "for", 0);
            emit(&mut out, Out::Ident(o.opaque.clone(), assoc_span));
            emit_group(&mut out, Delim::Brace, Vec::new(), 0);
        },
    }
    assert(outs_view(out@) =~= marker_impl_view(*o, b));
    out
}

/// The `Drop` impl of an opaque struct with a drop symbol.
fn drop_impl(o: &OpaqueDecl) -> (r: Vec<Out>)
    ensures
        outs_view(r@) == drop_impl_view(*o),
{
    let mut out: Vec<Out> = Vec::new();
    if let Some(drop_symbol) = &o.drop_symbol {
        let assoc_span = tok_span(&o.assoc);
        let ghost name = opaque_name_v(*o);
        emit_text(&mut out, "impl ::core::ops::Drop for", 0);
        emit(&mut out, Out::Ident(o.opaque.clone(), assoc_span));
        let mut params: Vec<Out> = Vec::new();
        emit_text(&mut params, "this: &mut", 0);
        emit(&mut params, Out::Ident(o.opaque.clone(), assoc_span));
        assert(outs_view(params@) =~= seq![t("this: &mut"@), name]);
        let mut fbody: Vec<Out> = Vec::new();
        emit_extern_block(&mut fbody, sym_lit(drop_symbol), true, params, Vec::new());
        emit_text(&mut fbody, "extern_fn(self)", 0);
        assert(outs_view(fbody@) =~= extern_block_view(
            sym_v(*drop_symbol),
            true,
            seq![t("this: &mut"@), name],
            Seq::empty(),
        ) + seq![t("extern_fn(self)"@)]);
        let mut body: Vec<Out> = Vec::new();
        emit_inline_fn(&mut body, "drop", text_list("&mut self"), Vec::new(), fbody);
        emit_group(&mut out, Delim::Brace, body, 0);
        assert(outs_view(out@) =~= drop_impl_view(*o));
    }
    out
}

/// The opaque struct of one opaque type, with its marker and `Drop` impls.
fn opaque_struct(o: &OpaqueDecl) -> (r: Vec<Out>)
    requires
        opaque_wf(*o),
    ensures
        outs_view(r@) == opaque_struct_view(*o),
{
    // The struct definition. Everything else about the opaque type is layout-independent
    // and emitted once, outside any `cfg_select!`.
    let mut out = opaque_def(o);
    // One impl per declared bound. The trait requires the implementation's associated type
    // to implement it, and an opaque value is just an implementation value in disguise, so
    // the two agree by construction; the bounds that aren't declared stay unimplemented
    // thanks to the marker field.
    let mut i: usize = 0;
    while i < o.bounds.len()
        invariant
            i <= o.bounds.len(),
            opaque_wf(*o),
            outs_view(out@) == opaque_def_view(*o) + marker_impls_view(*o, i as nat),
        decreases o.bounds.len() - i,
    {
        let b = o.bounds[i];
        proof {
            if b == Marker::Clone {
                assert(o.bounds@.contains(Marker::Clone));
            }
        }
        emit_all(&mut out, marker_impl(o, b));
        assert(outs_view(out@) =~= opaque_def_view(*o) + marker_impls_view(*o, (i + 1) as nat));
        i += 1;
    }
    emit_all(&mut out, drop_impl(o));
    assert(outs_view(out@) =~= opaque_struct_view(*o));
    out
}

} // verus!

verus! {

/// What classifying the whole type `ty` gives.
pub open spec fn classify_all(u: UnitraitInput, ty: Seq<Tok>) -> Result<ShapeV, (u64, Seq<char>)> {
    classify_spec(u, ty, 0, ty.len() as int)
}

/// The first error classifying the parameters `m.args[k..]`.
pub open spec fn args_err(u: UnitraitInput, m: Method, k: int) -> Option<(u64, Seq<char>)>
    decreases m.args@.len() - k,
{
    if k < 0 || k >= m.args@.len() {
        None
    } else {
        match classify_all(u, m.args@[k].ty@) {
            Err(e) => Some(e),
            Ok(_) => args_err(u, m, k + 1),
        }
    }
}

/// The first error classifying the slots of `m`: its parameters, then its return type.
pub open spec fn method_err(u: UnitraitInput, m: Method) -> Option<(u64, Seq<char>)> {
    match args_err(u, m, 0) {
        Some(e) => Some(e),
        None => match m.ret {
            Some(t) => match classify_all(u, t@) {
                Err(e) => Some(e),
                Ok(_) => None,
            },
            None => None,
        },
    }
}

/// The first error classifying the slots of the methods `u.methods[j..]`.
pub open spec fn slots_err(u: UnitraitInput, j: int) -> Option<(u64, Seq<char>)>
    decreases u.methods@.len() - j,
{
    if j < 0 || j >= u.methods@.len() {
        None
    } else {
        match method_err(u, u.methods@[j]) {
            Some(e) => Some(e),
            None => slots_err(u, j + 1),
        }
    }
}

pub open spec fn borrowed_return_help() -> Seq<char> {
    "references to opaque associated types are not supported in return position"@
}

/// The first borrowed opaque type returned by the methods `u.methods[j..]`.
pub open spec fn ret_borrow_err(u: UnitraitInput, j: int) -> Option<(u64, Seq<char>)>
    decreases u.methods@.len() - j,
{
    if j < 0 || j >= u.methods@.len() {
        None
    } else {
        match u.methods@[j].ret {
            Some(t) => match classify_all(u, t@) {
                Ok(v) => match first_borrow_v(v) {
                    Some(span) => Some((span, borrowed_return_help())),
                    None => ret_borrow_err(u, j + 1),
                },
                Err(_) => ret_borrow_err(u, j + 1),
            },
            None => ret_borrow_err(u, j + 1),
        }
    }
}

/// Why the input can't be expanded: the first slot that can't be classified, or else the
/// first borrowed opaque type returned.
pub open spec fn expand_err(u: UnitraitInput) -> Option<(u64, Seq<char>)> {
    match slots_err(u, 0) {
        Some(e) => Some(e),
        None => ret_borrow_err(u, 0),
    }
}

/// Classifies a whole type.
fn classify_ty(input: &UnitraitInput, ty: &Vec<Tok>) -> (r: Result<Shape, Error>)
    ensures
        r matches Ok(s) ==> classified(*input, ty@, s),
        match classify_all(*input, ty@) {
            Ok(_) => r is Ok,
            Err(e) => r matches Err(x) && x@ == e,
        },
{
    let r = input.classify(ty, 0, ty.len());
    assert(ty@.subrange(0, ty@.len() as int) =~= ty@);
    r
}

/// Classifies the parameters and the return type of a method, in that order.
fn classify_method(input: &UnitraitInput, m: &Method) -> (r: Result<MethodShapes, Error>)
    ensures
        r matches Ok(s) ==> {
            &&& s.args@.len() == m.args@.len()
            &&& forall|k: int|
                0 <= k < m.args@.len() ==> classified(*input, m.args@[k].ty@, #[trigger] s.args@[k])
            &&& (s.ret is Some <==> m.ret is Some)
            &&& (s.ret matches Some(r) ==> classified(*input, m.ret->0@, r))
        },
        match method_err(*input, *m) {
            None => r is Ok,
            Some(e) => r matches Err(x) && x@ == e,
        },
{
    let mut args: Vec<Shape> = Vec::new();
    let mut k: usize = 0;
    while k < m.args.len()
        invariant
            k <= m.args.len(),
            args@.len() == k,
            forall|j: int| 0 <= j < k ==> classified(*input, m.args@[j].ty@, #[trigger] args@[j]),
            args_err(*input, *m, 0) == args_err(*input, *m, k as int),
        decreases m.args.len() - k,
    {
        let s = classify_ty(input, &m.args[k].ty)?;
        args.push(s);
        k += 1;
    }
    let ret = match &m.ret {
        None => None,
        Some(ty) => Some(classify_ty(input, ty)?),
    };
    Ok(MethodShapes { args, ret })
}

/// Classifies every slot of every method: the types that mention no opaque type pass
/// through, those that do are taken apart. A method returning a borrowed opaque type is
/// rejected, after every slot of every method has been classified.
pub fn classify_methods(input: &UnitraitInput) -> (r: Result<Vec<MethodShapes>, Error>)
    ensures
        r matches Ok(ms) ==> all_shapes(*input, ms@),
        match expand_err(*input) {
            None => r is Ok,
            Some(e) => r matches Err(x) && x@ == e,
        },
{
    let mut ms: Vec<MethodShapes> = Vec::new();
    let mut j: usize = 0;
    while j < input.methods.len()
        invariant
            j <= input.methods.len(),
            ms@.len() == j,
            forall|i: int|
                0 <= i < j ==> {
                    &&& (#[trigger] ms@[i]).args@.len() == input.methods@[i].args@.len()
                    &&& forall|k: int|
                        0 <= k < input.methods@[i].args@.len() ==> classified(
                            *input,
                            input.methods@[i].args@[k].ty@,
                            #[trigger] ms@[i].args@[k],
                        )
                    &&& (ms@[i].ret is Some <==> input.methods@[i].ret is Some)
                    &&& (ms@[i].ret matches Some(r) ==> classified(
                        *input,
                        input.methods@[i].ret->0@,
                        r,
                    ))
                },
            slots_err(*input, 0) == slots_err(*input, j as int),
        decreases input.methods.len() - j,
    {
        let s = classify_method(input, &input.methods[j])?;
        ms.push(s);
        j += 1;
    }
    let mut j: usize = 0;
    while j < ms.len()
        invariant
            j <= ms.len(),
            forall|i: int| 0 <= i < j ==> ((#[trigger] ms@[i]).ret matches Some(r) ==> no_borrow(r)),
            ms@.len() == input.methods@.len(),
            forall|i: int|
                0 <= i < ms@.len() ==> ((#[trigger] ms@[i]).ret is Some <==> input.methods@[i].ret is Some),
            forall|i: int|
                0 <= i < ms@.len() ==> ((#[trigger] ms@[i]).ret matches Some(r) ==> classified(
                    *input,
                    input.methods@[i].ret->0@,
                    r,
                )),
            slots_err(*input, 0) is None,
            expand_err(*input) == ret_borrow_err(*input, j as int),
        decreases ms.len() - j,
    {
        proof {
            assert(ms@[j as int].ret is Some <==> input.methods@[j as int].ret is Some);
            if let Some(r) = ms@[j as int].ret {
                crate::shape::lemma_first_borrow_v(r);
                assert(classify_all(*input, input.methods@[j as int].ret->0@) == Ok::<ShapeV, (u64, Seq<char>)>(crate::shape::shape_v(r)));
            }
        }
        if let Some(ret) = &ms[j].ret {
            if let Some(span) = ret.find_borrow() {
                return Err(
                    Error::new(
                        span,
                        "references to opaque associated types are not supported in return position",
                    ),
                );
            }
        }
        j += 1;
    }
    Ok(ms)
}

/// `name: TYPE, ...` for the parameters of a method, spelled by `leaf`.
fn params_of(input: &UnitraitInput, m: &Method, s: &MethodShapes, leaf: &Leaf) -> (r: Vec<Out>)
    requires
        shapes_of(*input, *m, *s),
    ensures
        outs_view(r@) == all_params_view(*input, *m, *s, *leaf),
{
    let mut out: Vec<Out> = Vec::new();
    let mut k: usize = 0;
    while k < m.args.len()
        invariant
            k <= m.args.len(),
            shapes_of(*input, *m, *s),
            outs_view(out@) == params_view(*input, *m, *s, *leaf, k as nat),
        decreases m.args.len() - k,
    {
        let ghost before = outs_view(out@);
        if k > 0 {
            emit_text(&mut out, ",", 0);
        }
        emit(&mut out, tok(&m.args[k].name));
        emit_text(&mut out, ":", 0);
        assert(classified(*input, m.args@[k as int].ty@, s.args@[k as int]));
        input.render(&mut out, &s.args[k], leaf);
        assert(outs_view(out@) =~= params_view(*input, *m, *s, *leaf, (k + 1) as nat));
        k += 1;
    }
    out
}

/// `-> TYPE` for the return type of a method, spelled by `leaf`; nothing without one.
fn ret_of(input: &UnitraitInput, s: &MethodShapes, leaf: &Leaf) -> (r: Vec<Out>)
    requires
        s.ret matches Some(r) ==> shape_valid(r, input.opaques@.len()),
    ensures
        outs_view(r@) == ret_view(*input, *s, *leaf),
{
    let mut out: Vec<Out> = Vec::new();
    match &s.ret {
        None => {},
        Some(shape) => {
            emit_text(&mut out, "->", 0);
            input.render(&mut out, shape, leaf);
        },
    }
    assert(outs_view(out@) =~= ret_view(*input, *s, *leaf));
    out
}

/// The names of a method's parameters, separated by commas.
fn arg_ids(m: &Method) -> (r: Vec<Out>)
    ensures
        outs_view(r@) == all_arg_ids_view(*m),
{
    let mut out: Vec<Out> = Vec::new();
    let mut k: usize = 0;
    while k < m.args.len()
        invariant
            k <= m.args.len(),
            outs_view(out@) == arg_ids_view(*m, k as nat),
        decreases m.args.len() - k,
    {
        if k > 0 {
            emit_text(&mut out, ",", 0);
        }
        emit(&mut out, tok(&m.args[k].name));
        assert(outs_view(out@) =~= arg_ids_view(*m, (k + 1) as nat));
        k += 1;
    }
    out
}

/// `unsafe { CALL }` for an unsafe method, `CALL` otherwise.
fn guarded_call(m: &Method, call: Vec<Out>) -> (r: Vec<Out>)
    ensures
        outs_view(r@) == guarded_view(*m, outs_view(call@)),
{
    if m.unsafety.is_some() {
        let ghost cv = outs_view(call@);
        let mut out: Vec<Out> = Vec::new();
        emit_text(&mut out, "unsafe", 0);
        emit_group(&mut out, Delim::Brace, call, 0);
        assert(outs_view(out@) =~= guarded_view(*m, cv));
        out
    } else {
        call
    }
}

/// `unsafe` for an unsafe method, as written.
fn emit_unsafety(out: &mut Vec<Out>, m: &Method)
    ensures
        outs_view(final(out)@) == outs_view(old(out)@) + unsafety_view(*m),
{
    if let Some(u) = &m.unsafety {
        emit(out, tok(u));
    }
    assert(outs_view(out@) =~= outs_view(old(out)@) + unsafety_view(*m));
}

/// The declaration of an opaque associated type in the trait.
fn trait_opaque(o: &OpaqueDecl) -> (r: Vec<Out>)
    ensures
        outs_view(r@) == trait_opaque_view(*o),
{
    let mut out: Vec<Out> = Vec::new();
    emit_attrs(&mut out, &o.docs);
    emit_text(&mut out, "type", 0);
    emit(&mut out, tok(&o.assoc));
    let ghost start = outs_view(out@);
    let mut k: usize = 0;
    while k < o.bounds.len()
        invariant
            k <= o.bounds.len(),
            outs_view(out@) == start + bounds_view(o.bounds@, k as nat),
        decreases o.bounds.len() - k,
    {
        if k == 0 {
            emit_text(&mut out, ":", 0);
        } else {
            emit_text(&mut out, "+", 0);
        }
        emit_marker_path(&mut out, o.bounds[k]);
        assert(outs_view(out@) =~= start + bounds_view(o.bounds@, (k + 1) as nat));
        k += 1;
    }
    emit_text(&mut out, ";", 0);
    assert(outs_view(out@) =~= trait_opaque_view(*o));
    out
}

/// A method of the trait.
fn trait_method(input: &UnitraitInput, m: &Method, s: &MethodShapes) -> (r: Vec<Out>)
    requires
        shapes_of(*input, *m, *s),
    ensures
        outs_view(r@) == trait_method_view(*input, *m, *s),
{
    let params = params_of(input, m, s, &Leaf::Trait);
    let ret = ret_of(input, s, &Leaf::Trait);
    let mut out: Vec<Out> = Vec::new();
    emit_attrs(&mut out, &m.docs);
    emit_unsafety(&mut out, m);
    emit_text(&mut out, "fn", 0);
    emit(&mut out, tok(&m.name));
    emit_group(&mut out, Delim::Paren, params, 0);
    emit_all(&mut out, ret);
    emit_text(&mut out, ";", 0);
    assert(outs_view(out@) =~= trait_method_view(*input, *m, *s));
    out
}

/// A method of the dispatch type: it calls the global implementation through the extern
/// symbol.
fn dispatch_method(input: &UnitraitInput, m: &Method, s: &MethodShapes) -> (r: Vec<Out>)
    requires
        shapes_of(*input, *m, *s),
    ensures
        outs_view(r@) == dispatch_method_view(*input, *m, *s),
{
    let params = params_of(input, m, s, &Leaf::Caller);
    let ret = ret_of(input, s, &Leaf::Caller);
    let ghost pv = outs_view(params@);
    let ghost rv = outs_view(ret@);
    let mut call: Vec<Out> = Vec::new();
    emit_text(&mut call, "extern_fn", 0);
    emit_group(&mut call, Delim::Paren, arg_ids(m), 0);
    assert(outs_view(call@) =~= seq![t("extern_fn"@), group(Delim::Paren, all_arg_ids_view(*m))]);
    let call = guarded_call(m, call);
    let mut body: Vec<Out> = Vec::new();
    emit_extern_block(
        &mut body,
        sym_lit(&m.symbol),
        m.unsafety.is_none(),
        copy_outs(&params),
        copy_outs(&ret),
    );
    emit_all(&mut body, call);
    let mut out: Vec<Out> = Vec::new();
    emit_attrs(&mut out, &m.docs);
    emit_text(&mut out, "#[inline]", 0);
    emit_toks(&mut out, &input.dispatch_vis);
    emit_unsafety(&mut out, m);
    emit_text(&mut out, "fn", 0);
    emit(&mut out, tok(&m.name));
    emit_group(&mut out, Delim::Paren, params, 0);
    emit_all(&mut out, ret);
    emit_group(&mut out, Delim::Brace, body, 0);
    assert(outs_view(out@) =~= dispatch_method_view(*input, *m, *s));
    out
}

/// A method of the dispatch type's impl of the trait: it forwards to the inherent method of
/// the same name, which takes precedence over the trait's in path resolution.
fn dispatch_impl_method(input: &UnitraitInput, m: &Method, s: &MethodShapes) -> (r: Vec<Out>)
    requires
        shapes_of(*input, *m, *s),
    ensures
        outs_view(r@) == dispatch_impl_method_view(*input, *m, *s),
{
    let params = params_of(input, m, s, &Leaf::Caller);
    let ret = ret_of(input, s, &Leaf::Caller);
    let mut call: Vec<Out> = Vec::new();
    emit_text(&mut call, "<", 0);
    emit(&mut call, tok(&input.dispatch));
    emit_text(&mut call, ">::", 0);
    emit(&mut call, tok(&m.name));
    emit_group(&mut call, Delim::Paren, arg_ids(m), 0);
    assert(outs_view(call@) =~= seq![
        t("<"@),
        tok_v(input.dispatch),
        t(">::"@),
        tok_v(m.name),
        group(Delim::Paren, all_arg_ids_view(*m)),
    ]);
    let call = guarded_call(m, call);
    let mut out: Vec<Out> = Vec::new();
    emit_text(&mut out, "#[inline]", 0);
    emit_unsafety(&mut out, m);
    emit_text(&mut out, "fn", 0);
    emit(&mut out, tok(&m.name));
    emit_group(&mut out, Delim::Paren, params, 0);
    emit_all(&mut out, ret);
    emit_group(&mut out, Delim::Brace, call, 0);
    assert(outs_view(out@) =~= dispatch_impl_method_view(*input, *m, *s));
    out
}

/// `type Name = Opaque;` in the dispatch type's impl of the trait.
fn dispatch_assoc(o: &OpaqueDecl) -> (r: Vec<Out>)
    ensures
        outs_view(r@) == dispatch_assoc_view(*o),
{
    let mut out: Vec<Out> = Vec::new();
    emit_text(&mut out, "type", 0);
    emit(&mut out, tok(&o.assoc));
    emit_text(&mut out, "=", 0);
    emit(&mut out, Out::Ident(o.opaque.clone(), tok_span(&o.assoc)));
    emit_text(&mut out, ";", 0);
    assert(outs_view(out@) =~= dispatch_assoc_view(*o));
    out
}

} // verus!

verus! {

/// `::core::assert!(ARGS);`
fn emit_assert(out: &mut Vec<Out>, args: Vec<Out>)
    ensures
        outs_view(final(out)@) == outs_view(old(out)@) + assert_view(outs_view(args@)),
{
    let ghost av = outs_view(args@);
    emit_text(out, "::core::assert!", 0);
    emit_group(out, Delim::Paren, args, 0);
    emit_text(out, ";", 0);
    assert(outs_view(out@) =~= outs_view(old(out)@) + assert_view(av));
}

/// The compile-time checks of the implementation's type for the `i`-th opaque type. The
/// declared size and alignment may depend on `cfg`s of the defining crate, so the checks
/// read them off the opaque struct instead.
fn checks(b: &Bridge, i: usize) -> (r: Vec<Out>)
    requires
        i < b.input.opaques@.len(),
    ensures
        outs_view(r@) == checks_view(*b, i as int),
{
    let real_ty = b.real_ty(i);
    let qopaque = b.qopaque(i);
    let ghost r = real_view(*b, i as int);
    let ghost q = qopaque_view(*b, i as int);
    let mut out: Vec<Out> = Vec::new();
    let mut size_args: Vec<Out> = Vec::new();
    emit_text(&mut size_args, "::core::mem::size_of::<", 0);
    emit_all(&mut size_args, copy_outs(&real_ty));
    emit_text(&mut size_args, ">() <= ::core::mem::size_of::<", 0);
    emit_all(&mut size_args, copy_outs(&qopaque));
    emit_text(
        &mut size_args,
        ">(), \"unitrait: the implementation's associated type is larger than its declared opaque size\",",
        0,
    );
    assert(outs_view(size_args@) =~= seq![t("::core::mem::size_of::<"@)] + r + seq![
        t(">() <= ::core::mem::size_of::<"@),
    ] + q + seq![
        t(
            ">(), \"unitrait: the implementation's associated type is larger than its declared opaque size\","@,
        ),
    ]);
    emit_assert(&mut out, size_args);
    let mut align_args: Vec<Out> = Vec::new();
    emit_text(&mut align_args, "::core::mem::align_of::<", 0);
    emit_all(&mut align_args, copy_outs(&real_ty));
    emit_text(&mut align_args, ">() <= ::core::mem::align_of::<", 0);
    emit_all(&mut align_args, copy_outs(&qopaque));
    emit_text(
        &mut align_args,
        ">(), \"unitrait: the implementation's associated type requires stricter alignment than its declared opaque alignment\",",
        0,
    );
    assert(outs_view(align_args@) =~= seq![t("::core::mem::align_of::<"@)] + r + seq![
        t(">() <= ::core::mem::align_of::<"@),
    ] + q + seq![
        t(
            ">(), \"unitrait: the implementation's associated type requires stricter alignment than its declared opaque alignment\","@,
        ),
    ]);
    emit_assert(&mut out, align_args);
    // Without a `Drop` bound the opaque struct has no `Drop` impl and its bytes are plain
    // `MaybeUninit`, so nothing would ever drop the implementation's value. Requiring the
    // associated type to have no drop glue at all makes that a no-op rather than a leak.
    if b.input.opaques[i].drop_symbol.is_none() {
        let mut args: Vec<Out> = Vec::new();
        emit_text(&mut args, "!::core::mem::needs_drop::<", 0);
        emit_all(&mut args, copy_outs(&real_ty));
        emit_text(
            &mut args,
            ">(), \"unitrait: the implementation's associated type needs drop, but the opaque associated type has no `Drop` bound\",",
            0,
        );
        assert(outs_view(args@) =~= seq![t("!::core::mem::needs_drop::<"@)] + r + seq![
            t(
                ">(), \"unitrait: the implementation's associated type needs drop, but the opaque associated type has no `Drop` bound\","@,
            ),
        ]);
        emit_assert(&mut out, args);
    }
    assert(outs_view(out@) =~= checks_view(*b, i as int));
    out
}

/// `#[unsafe(export_name = SYMBOL)]`
fn emit_export_attr(out: &mut Vec<Out>, symbol: &Sym)
    ensures
        outs_view(final(out)@) == outs_view(old(out)@) + export_attr_view(*symbol),
{
    let mut export_name: Vec<Out> = Vec::new();
    emit_text(&mut export_name, "export_name =", 0);
    emit(&mut export_name, sym_lit(symbol));
    assert(outs_view(export_name@) =~= seq![t("export_name ="@), sym_v(*symbol)]);
    let mut unsafe_attr: Vec<Out> = Vec::new();
    emit_text(&mut unsafe_attr, "unsafe", 0);
    emit_group(&mut unsafe_attr, Delim::Paren, export_name, 0);
    assert(outs_view(unsafe_attr@) =~= seq![
        t("unsafe"@),
        group(Delim::Paren, seq![t("export_name ="@), sym_v(*symbol)]),
    ]);
    emit_text(out, "#", 0);
    emit_group(out, Delim::Bracket, unsafe_attr, 0);
    assert(outs_view(out@) =~= outs_view(old(out)@) + export_attr_view(*symbol));
}

/// The name of a drop or clone shim: the prefix and the associated type in lower case.
fn shim_name(prefix: &str, o: &OpaqueDecl) -> (r: String)
    ensures
        r@ == prefix@ + crate::syntax::lowercase(crate::bounds::ident_text(o.assoc)),
{
    let lower = crate::syntax::to_lowercase(ident_string(&o.assoc).as_str());
    let mut name = String::from_str(prefix);
    name.append(lower.as_str());
    name
}

/// The helper and the export dropping the `i`-th opaque type's value, if it has a drop
/// symbol.
fn drop_shims(b: &Bridge, i: usize) -> (r: (Vec<Out>, Vec<Out>))
    requires
        i < b.input.opaques@.len(),
    ensures
        outs_view(r.0@) == drop_helper_view(*b, i as int),
        outs_view(r.1@) == drop_export_view(*b, i as int),
{
    let o = &b.input.opaques[i];
    let mut helper: Vec<Out> = Vec::new();
    let mut export: Vec<Out> = Vec::new();
    if let Some(drop_symbol) = &o.drop_symbol {
        let real_ty = b.real_ty(i);
        let qopaque = b.qopaque(i);
        let ghost r = real_view(*b, i as int);
        let ghost q = qopaque_view(*b, i as int);
        let name = shim_name("__unitrait_drop_", o);
        let mut params: Vec<Out> = Vec::new();
        emit_text(&mut params, "this: &mut", 0);
        emit_all(&mut params, copy_outs(&qopaque));
        let mut arg: Vec<Out> = Vec::new();
        emit_text(&mut arg, "this as *mut", 0);
        emit_all(&mut arg, qopaque);
        emit_text(&mut arg, "as *mut", 0);
        emit_all(&mut arg, real_ty);
        assert(outs_view(arg@) =~= seq![t("this as *mut"@)] + q + seq![t("as *mut"@)] + r);
        assert(outs_view(params@) =~= seq![t("this: &mut"@)] + q);
        let mut cast: Vec<Out> = Vec::new();
        emit_text(&mut cast, "::core::ptr::drop_in_place", 0);
        emit_group(&mut cast, Delim::Paren, arg, 0);
        emit_text(&mut cast, ";", 0);
        assert(outs_view(cast@) =~= seq![
            t("::core::ptr::drop_in_place"@),
            group(Delim::Paren, seq![t("this as *mut"@)] + q + seq![t("as *mut"@)] + r),
            t(";"@),
        ]);
        let mut body: Vec<Out> = Vec::new();
        emit_text(&mut body, "unsafe", 0);
        emit_group(&mut body, Delim::Brace, cast, 0);
        assert(outs_view(body@) =~= seq![
            t("unsafe"@),
            group(
                Delim::Brace,
                seq![
                    t("::core::ptr::drop_in_place"@),
                    group(Delim::Paren, seq![t("this as *mut"@)] + q + seq![t("as *mut"@)] + r),
                    t(";"@),
                ],
            ),
        ]);
        emit_text(&mut helper, "#[inline(always)] fn", 0);
        emit(&mut helper, Out::Ident(name.clone(), 0));
        emit_group(&mut helper, Delim::Paren, copy_outs(&params), 0);
        emit_group(&mut helper, Delim::Brace, body, 0);
        assert(outs_view(helper@) =~= drop_helper_view(*b, i as int));
        emit_export_attr(&mut export, drop_symbol);
        emit_text(&mut export, "fn", 0);
        emit(&mut export, Out::Ident(name.clone(), 0));
        emit_group(&mut export, Delim::Paren, params, 0);
        let mut fwd: Vec<Out> = Vec::new();
        emit_text(&mut fwd, "__UnitraitShims::<__UnitraitTag>", 0);
        emit_text(&mut fwd, "::", 0);
        emit(&mut fwd, Out::Ident(name, 0));
        emit_text(&mut fwd, "(this)", 0);
        assert(outs_view(fwd@) =~= seq![
            shims_v(),
            t("::"@),
            shim_name_v("__unitrait_drop_"@, *o),
            t("(this)"@),
        ]);
        emit_group(&mut export, Delim::Brace, fwd, 0);
        assert(outs_view(export@) =~= drop_export_view(*b, i as int));
    }
    (helper, export)
}

/// The helper and the export cloning the `i`-th opaque type's value, if it has a clone
/// symbol.
fn clone_shims(b: &Bridge, i: usize) -> (r: (Vec<Out>, Vec<Out>))
    requires
        i < b.input.opaques@.len(),
    ensures
        outs_view(r.0@) == clone_helper_view(*b, i as int),
        outs_view(r.1@) == clone_export_view(*b, i as int),
{
    let o = &b.input.opaques[i];
    let mut helper: Vec<Out> = Vec::new();
    let mut export: Vec<Out> = Vec::new();
    if let Some(clone_symbol) = &o.clone_symbol {
        let real_ty = b.real_ty(i);
        let qopaque = b.qopaque(i);
        let ghost r = real_view(*b, i as int);
        let ghost q = qopaque_view(*b, i as int);
        let name = shim_name("__unitrait_clone_", o);
        let mut params: Vec<Out> = Vec::new();
        emit_text(&mut params, "this: &", 0);
        emit_all(&mut params, copy_outs(&qopaque));
        let mut ret: Vec<Out> = Vec::new();
        emit_text(&mut ret, "->", 0);
        emit_all(&mut ret, copy_outs(&qopaque));
        let mut cast: Vec<Out> = Vec::new();
        emit_text(&mut cast, "this as *const", 0);
        emit_all(&mut cast, copy_outs(&qopaque));
        emit_text(&mut cast, "as *const", 0);
        emit_all(&mut cast, copy_outs(&real_ty));
        let mut wcast: Vec<Out> = Vec::new();
        emit_text(&mut wcast, "__unitrait_out.as_mut_ptr() as *mut", 0);
        emit_all(&mut wcast, copy_outs(&real_ty));
        assert(outs_view(cast@) =~= seq![t("this as *const"@)] + q + seq![t("as *const"@)] + r);
        assert(outs_view(params@) =~= seq![t("this: &"@)] + q);
        assert(outs_view(ret@) =~= seq![t("->"@)] + q);
        assert(outs_view(wcast@) =~= seq![t("__unitrait_out.as_mut_ptr() as *mut"@)] + r);
        let mut inner: Vec<Out> = Vec::new();
        emit_text(&mut inner, "let this = &*", 0);
        emit_group(&mut inner, Delim::Paren, cast, 0);
        emit_text(&mut inner, "; let __unitrait_cloned:", 0);
        emit_all(&mut inner, copy_outs(&real_ty));
        emit_text(
            &mut inner,
            "= ::core::clone::Clone::clone(this); let mut __unitrait_out = ::core::mem::MaybeUninit::<",
            0,
        );
        emit_all(&mut inner, qopaque);
        emit_text(&mut inner, ">::uninit();", 0);
        emit_group(&mut inner, Delim::Paren, wcast, 0);
        emit_text(&mut inner, ".write(__unitrait_cloned); __unitrait_out.assume_init()", 0);
        let ghost iv = seq![
            t("let this = &*"@),
            group(Delim::Paren, seq![t("this as *const"@)] + q + seq![t("as *const"@)] + r),
            t("; let __unitrait_cloned:"@),
        ] + r + seq![
            t(
                "= ::core::clone::Clone::clone(this); let mut __unitrait_out = ::core::mem::MaybeUninit::<"@,
            ),
        ] + q + seq![
            t(">::uninit();"@),
            group(Delim::Paren, seq![t("__unitrait_out.as_mut_ptr() as *mut"@)] + r),
            t(".write(__unitrait_cloned); __unitrait_out.assume_init()"@),
        ];
        assert(outs_view(inner@) =~= iv);
        let mut body: Vec<Out> = Vec::new();
        emit_text(&mut body, "unsafe", 0);
        emit_group(&mut body, Delim::Brace, inner, 0);
        assert(outs_view(body@) =~= seq![t("unsafe"@), group(Delim::Brace, iv)]);
        emit_text(&mut helper, "#[inline(always)] fn", 0);
        emit(&mut helper, Out::Ident(name.clone(), 0));
        emit_group(&mut helper, Delim::Paren, copy_outs(&params), 0);
        emit_all(&mut helper, copy_outs(&ret));
        emit_group(&mut helper, Delim::Brace, body, 0);
        assert(outs_view(helper@) =~= clone_helper_view(*b, i as int));
        emit_export_attr(&mut export, clone_symbol);
        emit_text(&mut export, "fn", 0);
        emit(&mut export, Out::Ident(name.clone(), 0));
        emit_group(&mut export, Delim::Paren, params, 0);
        emit_all(&mut export, ret);
        let mut fwd: Vec<Out> = Vec::new();
        emit_text(&mut fwd, "__UnitraitShims::<__UnitraitTag>", 0);
        emit_text(&mut fwd, "::", 0);
        emit(&mut fwd, Out::Ident(name, 0));
        emit_text(&mut fwd, "(this)", 0);
        assert(outs_view(fwd@) =~= seq![
            shims_v(),
            t("::"@),
            shim_name_v("__unitrait_clone_"@, *o),
            t("(this)"@),
        ]);
        emit_group(&mut export, Delim::Brace, fwd, 0);
        assert(outs_view(export@) =~= clone_export_view(*b, i as int));
    }
    (helper, export)
}

} // verus!

verus! {

/// The call of the implementation's method, `<TIMPL as PATH::Trait>::name(args)`.
fn impl_call(b: &Bridge, m: &Method) -> (r: Vec<Out>)
    ensures
        outs_view(r@) == impl_call_view(*b, *m),
{
    let mut call: Vec<Out> = Vec::new();
    emit_text(&mut call, "<", 0);
    emit_all(&mut call, copy_outs(&b.timpl));
    emit_text(&mut call, "as", 0);
    emit_all(&mut call, copy_outs(&b.trait_qpath));
    emit_text(&mut call, ">::", 0);
    emit(&mut call, tok(&m.name));
    emit_group(&mut call, Delim::Paren, arg_ids(m), 0);
    assert(outs_view(call@) =~= seq![t("<"@)] + outs_view(b.timpl@) + seq![t("as"@)]
        + outs_view(b.trait_qpath@) + seq![
        t(">::"@),
        tok_v(m.name),
        group(Delim::Paren, all_arg_ids_view(*m)),
    ]);
    guarded_call(m, call)
}

/// The helper calling the implementation's method: the parameters that mention opaque types
/// converted to the implementation's types, the result converted back.
fn method_helper(b: &Bridge, m: &Method, s: &MethodShapes) -> (r: Vec<Out>)
    requires
        shapes_of(*b.input, *m, *s),
    ensures
        outs_view(r@) == method_helper_view(*b, *m, *s),
{
    let input = b.input;
    let params = params_of(input, m, s, &Leaf::Impl);
    let mut convs: Vec<Out> = Vec::new();
    let mut k: usize = 0;
    while k < m.args.len()
        invariant
            k <= m.args.len(),
            shapes_of(*b.input, *m, *s),
            input == b.input,
            outs_view(convs@) == convs_view(*b, *m, *s, k as nat),
        decreases m.args.len() - k,
    {
        assert(classified(*input, m.args@[k as int].ty@, s.args@[k as int]));
        match &s.args[k] {
            Shape::Plain(_) => {},
            shape => {
                let conv = b.convert(shape, single(tok(&m.args[k].name)), Dir::Unwrap);
                emit_text(&mut convs, "let", 0);
                emit(&mut convs, tok(&m.args[k].name));
                emit_text(&mut convs, "=", 0);
                emit_all(&mut convs, conv);
                emit_text(&mut convs, ";", 0);
            },
        }
        assert(outs_view(convs@) =~= convs_view(*b, *m, *s, (k + 1) as nat));
        k += 1;
    }
    let call = impl_call(b, m);
    let ret = ret_of(input, s, &Leaf::Impl);
    let body = match &s.ret {
        None => call,
        Some(shape) => b.convert(shape, call, Dir::Wrap),
    };
    let mut hbody: Vec<Out> = Vec::new();
    emit_all(&mut hbody, convs);
    emit_all(&mut hbody, body);
    let mut out: Vec<Out> = Vec::new();
    emit_text(&mut out, "#[inline(always)] fn", 0);
    emit(&mut out, tok(&m.name));
    emit_group(&mut out, Delim::Paren, params, 0);
    emit_all(&mut out, ret);
    emit_group(&mut out, Delim::Brace, hbody, 0);
    assert(outs_view(out@) =~= method_helper_view(*b, *m, *s));
    out
}

/// The function the implementation macro exports under the method's symbol.
fn method_export(b: &Bridge, m: &Method, s: &MethodShapes) -> (r: Vec<Out>)
    requires
        shapes_of(*b.input, *m, *s),
    ensures
        outs_view(r@) == method_export_view(*b, *m, *s),
{
    let input = b.input;
    let params = params_of(input, m, s, &Leaf::Impl);
    let ret = ret_of(input, s, &Leaf::Impl);
    let mut fwd: Vec<Out> = Vec::new();
    emit_text(&mut fwd, "__UnitraitShims::<__UnitraitTag>", 0);
    emit_text(&mut fwd, "::", 0);
    emit(&mut fwd, tok(&m.name));
    emit_group(&mut fwd, Delim::Paren, arg_ids(m), 0);
    assert(outs_view(fwd@) =~= seq![
        shims_v(),
        t("::"@),
        tok_v(m.name),
        group(Delim::Paren, all_arg_ids_view(*m)),
    ]);
    let mut out: Vec<Out> = Vec::new();
    emit_export_attr(&mut out, &m.symbol);
    emit_text(&mut out, "fn", 0);
    emit(&mut out, tok(&m.name));
    emit_group(&mut out, Delim::Paren, params, 0);
    emit_all(&mut out, ret);
    emit_group(&mut out, Delim::Brace, fwd, 0);
    assert(outs_view(out@) =~= method_export_view(*b, *m, *s));
    out
}

} // verus!

verus! {

/// The opaque structs and their trait impls (defining-crate side).
fn opaque_structs_of(input: &UnitraitInput) -> (r: Vec<Out>)
    requires
        input_wf(*input),
    ensures
        outs_view(r@) == opaque_structs_view(*input, input.opaques@.len()),
{
    let no = input.opaques.len();
    let mut out: Vec<Out> = Vec::new();
    let mut i: usize = 0;
    while i < no
        invariant
            i <= no == input.opaques@.len(),
            input_wf(*input),
            outs_view(out@) == opaque_structs_view(*input, i as nat),
        decreases no - i,
    {
        assert(opaque_wf(input.opaques@[i as int]));
        emit_all(&mut out, opaque_struct(&input.opaques[i]));
        i += 1;
    }
    out
}

/// The items of the trait: its opaque types, then its methods.
fn trait_items_of(input: &UnitraitInput, ms: &Vec<MethodShapes>) -> (r: Vec<Out>)
    requires
        all_shapes(*input, ms@),
    ensures
        outs_view(r@) == trait_opaques_view(*input, input.opaques@.len()) + trait_methods_view(
            *input,
            ms@,
            input.methods@.len(),
        ),
{
    let no = input.opaques.len();
    let nm = input.methods.len();
    let mut out: Vec<Out> = Vec::new();
    let mut i: usize = 0;
    while i < no
        invariant
            i <= no == input.opaques@.len(),
            outs_view(out@) == trait_opaques_view(*input, i as nat),
        decreases no - i,
    {
        emit_all(&mut out, trait_opaque(&input.opaques[i]));
        i += 1;
    }
    let mut j: usize = 0;
    while j < nm
        invariant
            j <= nm == input.methods@.len(),
            no == input.opaques@.len(),
            all_shapes(*input, ms@),
            outs_view(out@) == trait_opaques_view(*input, no as nat) + trait_methods_view(
                *input,
                ms@,
                j as nat,
            ),
        decreases nm - j,
    {
        assert(shapes_of(*input, input.methods@[j as int], ms@[j as int]));
        emit_all(&mut out, trait_method(input, &input.methods[j], &ms[j]));
        assert(outs_view(out@) =~= trait_opaques_view(*input, no as nat) + trait_methods_view(
            *input,
            ms@,
            (j + 1) as nat,
        ));
        j += 1;
    }
    out
}

/// The dispatch type's inherent methods (defining-crate side): one per trait method,
/// calling the global implementation through its extern symbol.
fn dispatch_methods_of(input: &UnitraitInput, ms: &Vec<MethodShapes>) -> (r: Vec<Out>)
    requires
        all_shapes(*input, ms@),
    ensures
        outs_view(r@) == dispatch_methods_view(*input, ms@, input.methods@.len()),
{
    let nm = input.methods.len();
    let mut out: Vec<Out> = Vec::new();
    let mut j: usize = 0;
    while j < nm
        invariant
            j <= nm == input.methods@.len(),
            all_shapes(*input, ms@),
            outs_view(out@) == dispatch_methods_view(*input, ms@, j as nat),
        decreases nm - j,
    {
        assert(shapes_of(*input, input.methods@[j as int], ms@[j as int]));
        emit_all(&mut out, dispatch_method(input, &input.methods[j], &ms[j]));
        j += 1;
    }
    out
}

/// The dispatch type's impl of the trait (defining-crate side): each opaque associated type
/// is its opaque struct, and each method forwards to the inherent method of the same name.
/// That makes the dispatch type usable wherever an implementation of the trait is expected.
fn dispatch_impl_of(input: &UnitraitInput, ms: &Vec<MethodShapes>) -> (r: Vec<Out>)
    requires
        all_shapes(*input, ms@),
    ensures
        outs_view(r@) == dispatch_assocs_view(*input, input.opaques@.len())
            + dispatch_impl_methods_view(*input, ms@, input.methods@.len()),
{
    let no = input.opaques.len();
    let nm = input.methods.len();
    let mut out: Vec<Out> = Vec::new();
    let mut i: usize = 0;
    while i < no
        invariant
            i <= no == input.opaques@.len(),
            outs_view(out@) == dispatch_assocs_view(*input, i as nat),
        decreases no - i,
    {
        emit_all(&mut out, dispatch_assoc(&input.opaques[i]));
        i += 1;
    }
    let mut j: usize = 0;
    while j < nm
        invariant
            j <= nm == input.methods@.len(),
            no == input.opaques@.len(),
            all_shapes(*input, ms@),
            outs_view(out@) == dispatch_assocs_view(*input, no as nat) + dispatch_impl_methods_view(
                *input,
                ms@,
                j as nat,
            ),
        decreases nm - j,
    {
        assert(shapes_of(*input, input.methods@[j as int], ms@[j as int]));
        emit_all(&mut out, dispatch_impl_method(input, &input.methods[j], &ms[j]));
        assert(outs_view(out@) =~= dispatch_assocs_view(*input, no as nat)
            + dispatch_impl_methods_view(*input, ms@, (j + 1) as nat));
        j += 1;
    }
    out
}

/// The name of the hidden trait binding the implementor's type.
fn binding_of(input: &UnitraitInput) -> (r: Out)
    ensures
        out_view(r) == binding_v(*input),
{
    let mut binding_text = String::from_str("__");
    binding_text.append(crate::tokens::unraw_str(ident_string(&input.dispatch).as_str()).as_str());
    binding_text.append("Implementation");
    Out::Ident(binding_text, tok_span(&input.dispatch))
}

/// The bridge to the implementation's types: the implementor's type as the shims name it,
/// `<__B as PATH::__{Dispatch}Implementation>::Type`, generic over `__B`, the type bound
/// through the hidden trait; and the trait as the implementation macro names it.
fn bridge_of_input(input: &UnitraitInput) -> (r: Bridge)
    ensures
        bridge_of(r, *input),
{
    let mut timpl: Vec<Out> = Vec::new();
    emit_text(&mut timpl, "<__B as", 0);
    emit_toks(&mut timpl, &input.path);
    emit_text(&mut timpl, "::", 0);
    emit(&mut timpl, binding_of(input));
    emit_text(&mut timpl, ">::Type", 0);
    assert(outs_view(timpl@) =~= timpl_view(*input));
    let mut trait_qpath: Vec<Out> = Vec::new();
    emit_toks(&mut trait_qpath, &input.path);
    emit_text(&mut trait_qpath, "::", 0);
    emit(&mut trait_qpath, tok(&input.name));
    assert(outs_view(trait_qpath@) =~= trait_qpath_view(*input));
    Bridge { input, timpl, trait_qpath }
}

/// The implementation-macro side. Everything that names the implementor's type is a
/// generic helper on `__UnitraitShims<__B>`, bounded on the binding trait: the checks are
/// compile-time assertions, the helpers go in the helper's `impl`, the exports are the
/// extern symbols.
fn shim_parts(b: &Bridge, ms: &Vec<MethodShapes>) -> (r: (Vec<Out>, Vec<Out>, Vec<Out>))
    requires
        all_shapes(*b.input, ms@),
    ensures
        outs_view(r.0@) == all_checks_view(*b, b.input.opaques@.len()),
        outs_view(r.1@) == opaque_helpers_view(*b, b.input.opaques@.len()) + method_helpers_view(
            *b,
            ms@,
            b.input.methods@.len(),
        ),
        outs_view(r.2@) == opaque_exports_view(*b, b.input.opaques@.len()) + method_exports_view(
            *b,
            ms@,
            b.input.methods@.len(),
        ),
{
    let input = b.input;
    let no = input.opaques.len();
    let nm = input.methods.len();
    let mut checks_out: Vec<Out> = Vec::new();
    let mut helpers: Vec<Out> = Vec::new();
    let mut exports: Vec<Out> = Vec::new();
    let mut i: usize = 0;
    while i < no
        invariant
            i <= no == b.input.opaques@.len(),
            outs_view(checks_out@) == all_checks_view(*b, i as nat),
            outs_view(helpers@) == opaque_helpers_view(*b, i as nat),
            outs_view(exports@) == opaque_exports_view(*b, i as nat),
        decreases no - i,
    {
        emit_all(&mut checks_out, checks(b, i));
        let (dh, de) = drop_shims(b, i);
        let (ch, ce) = clone_shims(b, i);
        emit_all(&mut helpers, dh);
        emit_all(&mut helpers, ch);
        emit_all(&mut exports, de);
        emit_all(&mut exports, ce);
        assert(outs_view(helpers@) =~= opaque_helpers_view(*b, (i + 1) as nat));
        assert(outs_view(exports@) =~= opaque_exports_view(*b, (i + 1) as nat));
        i += 1;
    }
    let mut j: usize = 0;
    while j < nm
        invariant
            j <= nm == b.input.methods@.len(),
            no == b.input.opaques@.len(),
            input == b.input,
            all_shapes(*b.input, ms@),
            outs_view(helpers@) == opaque_helpers_view(*b, no as nat) + method_helpers_view(
                *b,
                ms@,
                j as nat,
            ),
            outs_view(exports@) == opaque_exports_view(*b, no as nat) + method_exports_view(
                *b,
                ms@,
                j as nat,
            ),
        decreases nm - j,
    {
        assert(shapes_of(*input, input.methods@[j as int], ms@[j as int]));
        emit_all(&mut helpers, method_helper(b, &input.methods[j], &ms[j]));
        emit_all(&mut exports, method_export(b, &input.methods[j], &ms[j]));
        assert(outs_view(helpers@) =~= opaque_helpers_view(*b, no as nat) + method_helpers_view(
            *b,
            ms@,
            (j + 1) as nat,
        ));
        assert(outs_view(exports@) =~= opaque_exports_view(*b, no as nat) + method_exports_view(
            *b,
            ms@,
            (j + 1) as nat,
        ));
        j += 1;
    }
    (checks_out, helpers, exports)
}

/// The body of the implementation macro's rule. The implementor's type is resolved in the
/// caller's scope, before the glob import of the defining module can shadow it; binding it
/// through the hidden trait also checks that it implements the unitrait, at the caller's
/// token.
#[verifier::rlimit(40)]
fn macro_body(b: &Bridge, ms: &Vec<MethodShapes>) -> (r: Vec<Out>)
    requires
        all_shapes(*b.input, ms@),
    ensures
        outs_view(r@) == macro_body_view(*b, ms@),
{
    let input = b.input;
    let (checks_out, helpers, exports) = shim_parts(b, ms);
    let mut shim_impl: Vec<Out> = Vec::new();
    emit_text(&mut shim_impl, "const CHECKS: () =", 0);
    emit_group(&mut shim_impl, Delim::Brace, checks_out, 0);
    emit_text(&mut shim_impl, ";", 0);
    emit_all(&mut shim_impl, helpers);
    assert(outs_view(shim_impl@) =~= shim_impl_view(*b, ms@));
    let mut inner: Vec<Out> = Vec::new();
    // Method signatures are pasted verbatim, so the types they name must resolve here as
    // they do in the defining module.
    emit_text(&mut inner, "#[allow(unused_imports)] use", 0);
    emit_toks(&mut inner, &input.path);
    emit_text(&mut inner, "::*; struct __UnitraitShims<__B>(::core::marker::PhantomData<__B>); impl<__B:", 0);
    emit_toks(&mut inner, &input.path);
    emit_text(&mut inner, "::", 0);
    emit(&mut inner, binding_of(input));
    emit_text(&mut inner, "> __UnitraitShims<__B>", 0);
    emit_group(&mut inner, Delim::Brace, shim_impl, 0);
    emit_text(&mut inner, "const _: () =", 0);
    emit_text(&mut inner, "__UnitraitShims::<__UnitraitTag>", 0);
    emit_text(&mut inner, "::CHECKS;", 0);
    emit_all(&mut inner, exports);
    let ghost path = crate::out::toks_out(crate::tokens::toks_view(input.path@));
    let ghost inner_v = seq![t("#[allow(unused_imports)] use"@)] + path + seq![
        t(
            "::*; struct __UnitraitShims<__B>(::core::marker::PhantomData<__B>); impl<__B:"@,
        ),
    ] + path + seq![
        t("::"@),
        binding_v(*input),
        t("> __UnitraitShims<__B>"@),
        group(Delim::Brace, shim_impl_view(*b, ms@)),
        t("const _: () ="@),
        shims_v(),
        t("::CHECKS;"@),
    ] + opaque_exports_view(*b, input.opaques@.len()) + method_exports_view(
        *b,
        ms@,
        input.methods@.len(),
    );
    assert(outs_view(inner@) =~= inner_v);
    let mut tag_body: Vec<Out> = Vec::new();
    emit_text(&mut tag_body, "type Type =", 0);
    emit_text(&mut tag_body, "$t", 0);
    emit_text(&mut tag_body, ";", 0);
    assert(outs_view(tag_body@) =~= seq![t("type Type ="@), t("$t"@), t(";"@)]);
    let mut outer: Vec<Out> = Vec::new();
    emit_text(&mut outer, "struct __UnitraitTag; impl", 0);
    emit_toks(&mut outer, &input.path);
    emit_text(&mut outer, "::", 0);
    emit(&mut outer, binding_of(input));
    emit_text(&mut outer, "for __UnitraitTag", 0);
    emit_group(&mut outer, Delim::Brace, tag_body, 0);
    emit_text(&mut outer, "const _: () =", 0);
    emit_group(&mut outer, Delim::Brace, inner, 0);
    emit_text(&mut outer, ";", 0);
    let ghost outer_v = seq![t("struct __UnitraitTag; impl"@)] + path + seq![
        t("::"@),
        binding_v(*input),
        t("for __UnitraitTag"@),
        group(Delim::Brace, seq![t("type Type ="@), t("$t"@), t(";"@)]),
        t("const _: () ="@),
        group(Delim::Brace, inner_v),
        t(";"@),
    ];
    assert(outs_view(outer@) =~= outer_v);
    let mut arm: Vec<Out> = Vec::new();
    emit_text(&mut arm, "const _: () =", 0);
    emit_group(&mut arm, Delim::Brace, outer, 0);
    emit_text(&mut arm, ";", 0);
    assert(outs_view(arm@) =~= macro_body_view(*b, ms@));
    arm
}

/// The defining crate's items.
fn defining_items(input: &UnitraitInput, ms: &Vec<MethodShapes>) -> (r: Vec<Out>)
    requires
        input_wf(*input),
        all_shapes(*input, ms@),
    ensures
        outs_view(r@) == defining_view(*input, ms@),
{
    let opaque_structs = opaque_structs_of(input);
    let trait_items = trait_items_of(input, ms);
    let dispatch_methods = dispatch_methods_of(input, ms);
    let dispatch_impl = dispatch_impl_of(input, ms);
    let mut out: Vec<Out> = Vec::new();
    emit_all(&mut out, opaque_structs);
    emit_attrs(&mut out, &input.trait_docs);
    emit_toks(&mut out, &input.vis);
    emit_text(&mut out, "trait", 0);
    emit(&mut out, tok(&input.name));
    emit_group(&mut out, Delim::Brace, trait_items, 0);
    emit_attrs(&mut out, &input.dispatch_attrs);
    emit_toks(&mut out, &input.dispatch_vis);
    emit_text(&mut out, "struct", 0);
    emit(&mut out, tok(&input.dispatch));
    emit_text(&mut out, ";", 0);
    emit_text(&mut out, "impl", 0);
    emit(&mut out, tok(&input.dispatch));
    emit_group(&mut out, Delim::Brace, dispatch_methods, 0);
    emit_text(&mut out, "impl", 0);
    emit(&mut out, tok(&input.name));
    emit_text(&mut out, "for", 0);
    emit(&mut out, tok(&input.dispatch));
    emit_group(&mut out, Delim::Brace, dispatch_impl, 0);
    assert(outs_view(out@) =~= defining_view(*input, ms@));
    out
}

/// The hidden binding trait and the implementation macro.
fn implementing_items(b: &Bridge, ms: &Vec<MethodShapes>) -> (r: Vec<Out>)
    requires
        all_shapes(*b.input, ms@),
    ensures
        outs_view(r@) == implementing_view(*b, ms@),
{
    let input = b.input;
    let arm = macro_body(b, ms);
    let mut pattern: Vec<Out> = Vec::new();
    emit_text(&mut pattern, "$t", 0);
    emit_text(&mut pattern, ":ty", 0);
    assert(outs_view(pattern@) =~= seq![t("$t"@), t(":ty"@)]);
    let mut rules: Vec<Out> = Vec::new();
    emit_group(&mut rules, Delim::Paren, pattern, 0);
    emit_text(&mut rules, "=>", 0);
    emit_group(&mut rules, Delim::Brace, arm, 0);
    emit_text(&mut rules, ";", 0);
    assert(outs_view(rules@) =~= seq![
        group(Delim::Paren, seq![t("$t"@), t(":ty"@)]),
        t("=>"@),
        group(Delim::Brace, macro_body_view(*b, ms@)),
        t(";"@),
    ]);
    let mut binding_body: Vec<Out> = Vec::new();
    emit_text(&mut binding_body, "type Type:", 0);
    emit(&mut binding_body, tok(&input.name));
    emit_text(&mut binding_body, ";", 0);
    assert(outs_view(binding_body@) =~= seq![t("type Type:"@), tok_v(input.name), t(";"@)]);
    let mut out: Vec<Out> = Vec::new();
    emit_text(
        &mut out,
        "#[doc = \" Implementation detail of the implementation macro: binds the implementor's type.\"] #[doc(hidden)]",
        0,
    );
    emit_toks(&mut out, &input.vis);
    emit_text(&mut out, "trait", 0);
    emit(&mut out, binding_of(input));
    emit_group(&mut out, Delim::Brace, binding_body, 0);
    emit_attrs(&mut out, &input.mac_docs);
    emit_text(&mut out, "#[macro_export] macro_rules!", 0);
    emit(&mut out, tok(&input.mac_name));
    emit_group(&mut out, Delim::Brace, rules, 0);
    assert(outs_view(out@) =~= implementing_view(*b, ms@));
    out
}

/// The generated items for a well-formed input whose methods have the shapes `ms`.
pub fn generate(input: &UnitraitInput, ms: &Vec<MethodShapes>) -> (r: Vec<Out>)
    requires
        input_wf(*input),
        all_shapes(*input, ms@),
    ensures
        exists|b: Bridge| #[trigger] bridge_of(b, *input) && outs_view(r@) == expansion_view(b, ms@),
{
    let bridge = bridge_of_input(input);
    let mut out = defining_items(input, ms);
    emit_all(&mut out, implementing_items(&bridge, ms));
    assert(outs_view(out@) == expansion_view(bridge, ms@));
    out
}

/// Expands the macro's input into the generated items, or reports the first type that
/// can't be bridged across the extern symbols.
pub fn expand(input: &UnitraitInput) -> (r: Result<Vec<Out>, Error>)
    requires
        input_wf(*input),
    ensures
        r matches Ok(out) ==> exists|b: Bridge, ms: Seq<MethodShapes>|
            #[trigger] bridge_of(b, *input) && #[trigger] all_shapes(*input, ms) && outs_view(out@)
                == expansion_view(b, ms),
        match expand_err(*input) {
            None => r is Ok,
            Some(e) => r matches Err(x) && x@ == e,
        },
{
    let ms = classify_methods(input)?;
    let out = generate(input, &ms);
    proof {
        let b = choose|b: Bridge| #[trigger] bridge_of(b, *input) && outs_view(out@) == expansion_view(b, ms@);
        assert(bridge_of(b, *input) && all_shapes(*input, ms@) && outs_view(out@) == expansion_view(b, ms@));
    }
    Ok(out)
}

/// The items reporting an error: `::core::compile_error! { "message" }`, at its span.
pub open spec fn error_view(e: (u64, Seq<char>)) -> Seq<OutV> {
    seq![
        text_v("::core::compile_error!"@, e.0),
        OutV::Group(Delim::Brace, seq![OutV::Str(e.1, e.0)], e.0),
    ]
}

/// The items reporting an error: `::core::compile_error! { "message" }`, at its span.
pub fn error_tokens(e: &Error) -> (r: Vec<Out>)
    ensures
        outs_view(r@) == error_view(e@),
{
    let mut out: Vec<Out> = Vec::new();
    emit_text(&mut out, "::core::compile_error!", e.span);
    emit_group(&mut out, Delim::Brace, single(Out::Str(e.message.clone(), e.span)), e.span);
    assert(outs_view(out@) =~= error_view(e@));
    out
}

/// The items the macro gives for the parsed input `u`: the error for the first slot that
/// can't be bridged, or else the expansion, with the shapes of `u`'s methods.
pub open spec fn expanded(u: UnitraitInput, out: Seq<OutV>) -> bool {
    match expand_err(u) {
        Some(e) => out == error_view(e),
        None => exists|b: Bridge, ms: Seq<MethodShapes>|
            #[trigger] bridge_of(b, u) && #[trigger] all_shapes(u, ms) && out == expansion_view(b, ms),
    }
}

/// The macro: parses the input and expands it, or reports the first error found.
pub fn unitrait(input: &Vec<Tok>) -> (r: Vec<Out>)
    ensures
        match input_at(input@) {
            Err(e) => outs_view(r@) == error_view(e),
            Ok(at) => exists|u: UnitraitInput|
                #[trigger] input_is(input@, u, at) && input_wf(u) && expanded(u, outs_view(r@)),
        },
{
    match UnitraitInput::parse(input) {
        Ok(u) => match expand(&u) {
            Ok(out) => out,
            Err(e) => error_tokens(&e),
        },
        Err(e) => error_tokens(&e),
    }
}

} // verus!
