//! The items the macro generates, stated as token trees: the opaque structs, the trait, the
//! dispatch type, and the implementation macro with its shims.
use vstd::prelude::*;

use crate::attrs::{Attr, OpaqueLayout, Sym};
use crate::bounds::ident_text;
use crate::bridge::{Bridge, Dir, convert_view, qopaque_view, real_view};
use crate::input::{Method, OpaqueDecl, UnitraitInput};
use crate::marker::{Marker, marker_module, marker_name};
use crate::out::{OutV, text_v, toks_out};
use crate::render::{Leaf, shape_view};
use crate::shape::{Shape, first_self, no_borrow, shape_valid};
use crate::syntax::{lowercase};
use crate::tokens::{Delim, Tok, tok_view, toks_view};

verus! {

/// Fixed source text at the call site.
pub open spec fn t(s: Seq<char>) -> OutV {
    text_v(s, 0)
}

pub open spec fn group(d: Delim, body: Seq<OutV>) -> OutV {
    OutV::Group(d, body, 0)
}

/// An input token, emitted as written.
pub open spec fn tok_v(x: Tok) -> OutV {
    OutV::Tok(tok_view(x))
}

/// A symbol, as a string literal reported where the symbol was written.
pub open spec fn sym_v(s: Sym) -> OutV {
    OutV::Str(s.value@, s.span)
}

/// The shapes of a method's parameters and return type.
pub struct MethodShapes {
    pub args: Vec<Shape>,
    pub ret: Option<Shape>,
}

/// `s` is what classifying the type `ts` gives: a valid shape whose composites are built
/// only around opaque types, plain exactly when `ts` mentions no `Self`, and then `ts`
/// itself.
pub open spec fn classified(u: UnitraitInput, ts: Seq<Tok>, s: Shape) -> bool {
    &&& crate::shape::classify_spec(u, ts, 0, ts.len() as int) == Ok::<
        crate::shape::ShapeV,
        (u64, Seq<char>),
    >(crate::shape::shape_v(s))
    &&& shape_valid(s, u.opaques@.len())
    &&& crate::shape::built_around_opaque(s)
    &&& (s is Plain <==> first_self(ts) is None)
    &&& (s matches Shape::Plain(v) ==> toks_view(v@) == toks_view(ts))
}

/// The shapes of a method's slots, as classified, with no borrowed opaque type returned.
pub open spec fn shapes_of(u: UnitraitInput, m: Method, s: MethodShapes) -> bool {
    &&& s.args@.len() == m.args@.len()
    &&& forall|k: int|
        0 <= k < m.args@.len() ==> classified(u, m.args@[k].ty@, #[trigger] s.args@[k])
    &&& (s.ret is Some <==> m.ret is Some)
    &&& (s.ret matches Some(r) ==> classified(u, m.ret->0@, r) && no_borrow(r))
}

/// The shapes of every method, in order.
pub open spec fn all_shapes(u: UnitraitInput, ms: Seq<MethodShapes>) -> bool {
    &&& ms.len() == u.methods@.len()
    &&& forall|j: int| 0 <= j < ms.len() ==> shapes_of(u, u.methods@[j], #[trigger] ms[j])
}

/// Attributes as written.
pub open spec fn attrs_view(a: Seq<Attr>) -> Seq<OutV>
    decreases a.len(),
{
    if a.len() == 0 {
        Seq::empty()
    } else {
        attrs_view(a.drop_last()) + seq![tok_v(a.last().pound), tok_v(a.last().group)]
    }
}

/// `::core::MODULE::Name`, the absolute path of a marker's trait.
pub open spec fn marker_path_view(m: Marker) -> Seq<OutV> {
    seq![t("::core::"@), t(marker_module(m)), t("::"@), t(marker_name(m))]
}

/// `unsafe extern "Rust" { #[link_name = SYMBOL] [safe] fn extern_fn(PARAMS) RET; }`
pub open spec fn extern_block_view(symbol: OutV, safe: bool, params: Seq<OutV>, ret: Seq<OutV>) -> Seq<
    OutV,
> {
    let head = seq![t("#"@), group(Delim::Bracket, seq![t("link_name ="@), symbol])];
    let safety = if safe {
        seq![t("safe"@)]
    } else {
        Seq::empty()
    };
    let body = head + safety + seq![t("fn extern_fn"@), group(Delim::Paren, params)] + ret + seq![
        t(";"@),
    ];
    seq![t("unsafe extern \"Rust\""@), group(Delim::Brace, body)]
}

/// `#[inline] fn HEAD(PARAMS) RET { BODY }`
pub open spec fn inline_fn_view(head: Seq<char>, params: Seq<OutV>, ret: Seq<OutV>, body: Seq<OutV>) -> Seq<
    OutV,
> {
    seq![t("#[inline] fn"@), t(head), group(Delim::Paren, params)] + ret + seq![
        group(Delim::Brace, body),
    ]
}

/// The opaque struct's name, reported where its associated type was declared.
pub open spec fn opaque_name_v(o: OpaqueDecl) -> OutV {
    OutV::Ident(o.opaque@, crate::tokens::span_of(o.assoc))
}

/// The struct definition of an opaque type for one layout: `repr(C)` with the alignment,
/// storage of the padded size, and a marker implementing no auto trait.
pub open spec fn struct_def_view(o: OpaqueDecl, align: OutV, padded_size: OutV) -> Seq<OutV> {
    let repr = seq![t("repr"@), group(Delim::Paren, seq![t("C, align"@), group(Delim::Paren, seq![align])])];
    let fields = seq![
        t("_data: ::core::mem::MaybeUninit<"@),
        group(Delim::Bracket, seq![t("u8;"@), padded_size]),
        t(">,"@),
        t(
            "_not_auto: ::core::marker::PhantomData<(*mut (), ::core::marker::PhantomPinned, &'static mut (), ::core::cell::UnsafeCell<()>,)>,"@,
        ),
    ];
    attrs_view(o.docs@) + seq![t("#"@), group(Delim::Bracket, repr)] + toks_out(toks_view(o.vis@))
        + seq![t("struct"@), opaque_name_v(o), group(Delim::Brace, fields)]
}

/// The struct definition for a declared layout.
pub open spec fn layout_def_view(o: OpaqueDecl, l: OpaqueLayout) -> Seq<OutV> {
    struct_def_view(o, tok_v(l.align), OutV::Int(l.padded_size, l.size_span))
}

/// The `cfg_select!` arms of the first `n` layouts: `PREDICATE => { STRUCT }`, or
/// `_ => { STRUCT }` for the unconditional one.
pub open spec fn layout_arms_view(o: OpaqueDecl, n: nat) -> Seq<OutV>
    decreases n,
{
    if n == 0 {
        Seq::empty()
    } else {
        let l = o.layouts@[n - 1];
        let pred = match l.cfg {
            Some(cfg) => toks_out(toks_view(cfg@)),
            None => seq![t("_"@)],
        };
        layout_arms_view(o, (n - 1) as nat) + pred + seq![
            t("=>"@),
            group(Delim::Brace, layout_def_view(o, l)),
        ]
    }
}

/// The message when no layout of a conditional opaque type applies.
pub open spec fn no_layout_message(o: OpaqueDecl) -> Seq<char> {
    "no `#[opaque]` attribute applies to `"@ + ident_text(o.assoc)
        + "`: none of its `cfg_attr` predicates hold, and it has no unconditional `#[opaque(size = N, align = M)]` fallback"@
}

/// The fallback arm when every layout is conditional: a compile error, and the struct with
/// a dummy layout so that the error is the only one reported.
pub open spec fn no_layout_arm(o: OpaqueDecl) -> Seq<OutV> {
    let span = crate::tokens::span_of(o.assoc);
    seq![
        t("_ =>"@),
        group(
            Delim::Brace,
            seq![
                text_v("::core::compile_error!"@, span),
                OutV::Group(Delim::Paren, seq![OutV::Str(no_layout_message(o), span)], span),
                text_v(";"@, span),
            ] + struct_def_view(o, OutV::Int(1, span), OutV::Int(0, span)),
        ),
    ]
}

/// The definition of an opaque struct: directly for a single unconditional layout, and
/// otherwise through `cfg_select!`, in source order.
pub open spec fn opaque_def_view(o: OpaqueDecl) -> Seq<OutV> {
    let n = o.layouts@.len();
    if n == 1 && o.layouts@[0].cfg is None {
        layout_def_view(o, o.layouts@[0])
    } else {
        let fallback = if o.layouts@[n - 1].cfg is Some {
            no_layout_arm(o)
        } else {
            Seq::empty()
        };
        seq![
            t("::core::cfg_select!"@),
            group(Delim::Brace, layout_arms_view(o, n) + fallback),
        ]
    }
}

/// The impl of one declared marker on the opaque struct.
pub open spec fn marker_impl_view(o: OpaqueDecl, m: Marker) -> Seq<OutV> {
    let name = opaque_name_v(o);
    match m {
        Marker::Send | Marker::Sync => seq![t("unsafe impl"@)] + marker_path_view(m) + seq![
            t("for"@),
            name,
            group(Delim::Brace, Seq::empty()),
        ],
        Marker::Copy => seq![t("impl"@)] + marker_path_view(m) + seq![
            t("for"@),
            name,
            group(Delim::Brace, Seq::empty()),
            t("impl ::core::clone::Clone for"@),
            name,
            group(
                Delim::Brace,
                inline_fn_view("clone"@, seq![t("&self"@)], seq![t("-> Self"@)], seq![t("*self"@)]),
            ),
        ],
        Marker::Clone => seq![t("impl"@)] + marker_path_view(m) + seq![
            t("for"@),
            name,
            group(
                Delim::Brace,
                inline_fn_view(
                    "clone"@,
                    seq![t("&self"@)],
                    seq![t("-> Self"@)],
                    extern_block_view(
                        sym_v(o.clone_symbol->0),
                        true,
                        seq![t("this: &"@), name],
                        seq![t("->"@), name],
                    ) + seq![t("extern_fn(self)"@)],
                ),
            ),
        ],
        _ => seq![t("impl"@)] + marker_path_view(m) + seq![
            t("for"@),
            name,
            group(Delim::Brace, Seq::empty()),
        ],
    }
}

/// The impls of the first `n` declared markers.
pub open spec fn marker_impls_view(o: OpaqueDecl, n: nat) -> Seq<OutV>
    decreases n,
{
    if n == 0 {
        Seq::empty()
    } else {
        marker_impls_view(o, (n - 1) as nat) + marker_impl_view(o, o.bounds@[n - 1])
    }
}

/// The `Drop` impl of an opaque struct with a drop symbol: it drops through the symbol.
pub open spec fn drop_impl_view(o: OpaqueDecl) -> Seq<OutV> {
    match o.drop_symbol {
        None => Seq::empty(),
        Some(s) => seq![
            t("impl ::core::ops::Drop for"@),
            opaque_name_v(o),
            group(
                Delim::Brace,
                inline_fn_view(
                    "drop"@,
                    seq![t("&mut self"@)],
                    Seq::empty(),
                    extern_block_view(sym_v(s), true, seq![t("this: &mut"@), opaque_name_v(o)], Seq::empty())
                        + seq![t("extern_fn(self)"@)],
                ),
            ),
        ],
    }
}

/// Everything about one opaque type on the defining side.
pub open spec fn opaque_struct_view(o: OpaqueDecl) -> Seq<OutV> {
    opaque_def_view(o) + marker_impls_view(o, o.bounds@.len()) + drop_impl_view(o)
}

/// The opaque structs of the first `n` opaque types.
pub open spec fn opaque_structs_view(u: UnitraitInput, n: nat) -> Seq<OutV>
    decreases n,
{
    if n == 0 {
        Seq::empty()
    } else {
        opaque_structs_view(u, (n - 1) as nat) + opaque_struct_view(u.opaques@[n - 1])
    }
}

/// `: ::core::marker::Send + ...` for the first `n` markers of an opaque type.
pub open spec fn bounds_view(ms: Seq<Marker>, n: nat) -> Seq<OutV>
    decreases n,
{
    if n == 0 {
        Seq::empty()
    } else {
        bounds_view(ms, (n - 1) as nat) + seq![
            if n == 1 {
                t(":"@)
            } else {
                t("+"@)
            },
        ] + marker_path_view(ms[n - 1])
    }
}

/// `unsafe`, when the method is.
pub open spec fn unsafety_view(m: Method) -> Seq<OutV> {
    match m.unsafety {
        Some(x) => seq![tok_v(x)],
        None => Seq::empty(),
    }
}

/// `name: TYPE, ...` for the first `n` parameters of a method, each type spelled by `leaf`.
pub open spec fn params_view(u: UnitraitInput, m: Method, s: MethodShapes, leaf: Leaf, n: nat) -> Seq<
    OutV,
>
    decreases n,
{
    if n == 0 {
        Seq::empty()
    } else {
        params_view(u, m, s, leaf, (n - 1) as nat) + (if n > 1 {
            seq![t(","@)]
        } else {
            Seq::empty()
        }) + seq![tok_v(m.args@[n - 1].name), t(":"@)] + shape_view(u, s.args@[n - 1], leaf)
    }
}

/// All the parameters of a method.
pub open spec fn all_params_view(u: UnitraitInput, m: Method, s: MethodShapes, leaf: Leaf) -> Seq<OutV> {
    params_view(u, m, s, leaf, m.args@.len())
}

/// `-> TYPE`, or nothing.
pub open spec fn ret_view(u: UnitraitInput, s: MethodShapes, leaf: Leaf) -> Seq<OutV> {
    match s.ret {
        Some(r) => seq![t("->"@)] + shape_view(u, r, leaf),
        None => Seq::empty(),
    }
}

/// The names of the first `n` parameters, separated by commas.
pub open spec fn arg_ids_view(m: Method, n: nat) -> Seq<OutV>
    decreases n,
{
    if n == 0 {
        Seq::empty()
    } else {
        arg_ids_view(m, (n - 1) as nat) + (if n > 1 {
            seq![t(","@)]
        } else {
            Seq::empty()
        }) + seq![tok_v(m.args@[n - 1].name)]
    }
}

pub open spec fn all_arg_ids_view(m: Method) -> Seq<OutV> {
    arg_ids_view(m, m.args@.len())
}

/// `unsafe { CALL }` for an unsafe method, `CALL` otherwise.
pub open spec fn guarded_view(m: Method, call: Seq<OutV>) -> Seq<OutV> {
    if m.unsafety is Some {
        seq![t("unsafe"@), group(Delim::Brace, call)]
    } else {
        call
    }
}

/// The declaration of an opaque associated type in the trait, with its markers as bounds.
pub open spec fn trait_opaque_view(o: OpaqueDecl) -> Seq<OutV> {
    attrs_view(o.docs@) + seq![t("type"@), tok_v(o.assoc)] + bounds_view(o.bounds@, o.bounds@.len())
        + seq![t(";"@)]
}

pub open spec fn trait_opaques_view(u: UnitraitInput, n: nat) -> Seq<OutV>
    decreases n,
{
    if n == 0 {
        Seq::empty()
    } else {
        trait_opaques_view(u, (n - 1) as nat) + trait_opaque_view(u.opaques@[n - 1])
    }
}

/// A method of the trait: `Self::Name` kept, wrappers around it spelled absolutely.
pub open spec fn trait_method_view(u: UnitraitInput, m: Method, s: MethodShapes) -> Seq<OutV> {
    attrs_view(m.docs@) + unsafety_view(m) + seq![
        t("fn"@),
        tok_v(m.name),
        group(Delim::Paren, all_params_view(u, m, s, Leaf::Trait)),
    ] + ret_view(u, s, Leaf::Trait) + seq![t(";"@)]
}

pub open spec fn trait_methods_view(u: UnitraitInput, ms: Seq<MethodShapes>, n: nat) -> Seq<OutV>
    decreases n,
{
    if n == 0 {
        Seq::empty()
    } else {
        trait_methods_view(u, ms, (n - 1) as nat) + trait_method_view(
            u,
            u.methods@[n - 1],
            ms[n - 1],
        )
    }
}

/// The dispatch type's method: it calls the extern function named by the method's symbol,
/// with the method's own parameters and return type, the opaque types spelled as the
/// opaque structs.
pub open spec fn dispatch_method_view(u: UnitraitInput, m: Method, s: MethodShapes) -> Seq<OutV> {
    let params = all_params_view(u, m, s, Leaf::Caller);
    let ret = ret_view(u, s, Leaf::Caller);
    let call = guarded_view(
        m,
        seq![t("extern_fn"@), group(Delim::Paren, all_arg_ids_view(m))],
    );
    attrs_view(m.docs@) + seq![t("#[inline]"@)] + toks_out(toks_view(u.dispatch_vis@))
        + unsafety_view(m) + seq![t("fn"@), tok_v(m.name), group(Delim::Paren, params)] + ret
        + seq![
        group(
            Delim::Brace,
            extern_block_view(sym_v(m.symbol), m.unsafety is None, params, ret) + call,
        ),
    ]
}

pub open spec fn dispatch_methods_view(u: UnitraitInput, ms: Seq<MethodShapes>, n: nat) -> Seq<OutV>
    decreases n,
{
    if n == 0 {
        Seq::empty()
    } else {
        dispatch_methods_view(u, ms, (n - 1) as nat) + dispatch_method_view(
            u,
            u.methods@[n - 1],
            ms[n - 1],
        )
    }
}

/// `type Name = Opaque;` in the dispatch type's impl of the trait.
pub open spec fn dispatch_assoc_view(o: OpaqueDecl) -> Seq<OutV> {
    seq![t("type"@), tok_v(o.assoc), t("="@), opaque_name_v(o), t(";"@)]
}

pub open spec fn dispatch_assocs_view(u: UnitraitInput, n: nat) -> Seq<OutV>
    decreases n,
{
    if n == 0 {
        Seq::empty()
    } else {
        dispatch_assocs_view(u, (n - 1) as nat) + dispatch_assoc_view(u.opaques@[n - 1])
    }
}

/// A method of the dispatch type's impl of the trait: it forwards to the inherent method.
pub open spec fn dispatch_impl_method_view(u: UnitraitInput, m: Method, s: MethodShapes) -> Seq<OutV> {
    let call = guarded_view(
        m,
        seq![
            t("<"@),
            tok_v(u.dispatch),
            t(">::"@),
            tok_v(m.name),
            group(Delim::Paren, all_arg_ids_view(m)),
        ],
    );
    seq![t("#[inline]"@)] + unsafety_view(m) + seq![
        t("fn"@),
        tok_v(m.name),
        group(Delim::Paren, all_params_view(u, m, s, Leaf::Caller)),
    ] + ret_view(u, s, Leaf::Caller) + seq![group(Delim::Brace, call)]
}

pub open spec fn dispatch_impl_methods_view(u: UnitraitInput, ms: Seq<MethodShapes>, n: nat) -> Seq<
    OutV,
>
    decreases n,
{
    if n == 0 {
        Seq::empty()
    } else {
        dispatch_impl_methods_view(u, ms, (n - 1) as nat) + dispatch_impl_method_view(
            u,
            u.methods@[n - 1],
            ms[n - 1],
        )
    }
}

/// The name of the hidden trait binding the implementor's type: `__{Dispatch}Implementation`.
pub open spec fn binding_v(u: UnitraitInput) -> OutV {
    OutV::Ident(
        "__"@ + crate::tokens::unraw(ident_text(u.dispatch)) + "Implementation"@,
        crate::tokens::span_of(u.dispatch),
    )
}

/// `<__B as PATH::__{Dispatch}Implementation>::Type`, the implementor's type in the shims.
pub open spec fn timpl_view(u: UnitraitInput) -> Seq<OutV> {
    seq![t("<__B as"@)] + toks_out(toks_view(u.path@)) + seq![t("::"@), binding_v(u), t(">::Type"@)]
}

/// `PATH::Trait`, the trait as the implementation macro names it.
pub open spec fn trait_qpath_view(u: UnitraitInput) -> Seq<OutV> {
    toks_out(toks_view(u.path@)) + seq![t("::"@), tok_v(u.name)]
}

/// The bridge of the expansion is made of those.
pub open spec fn bridge_of(b: Bridge, u: UnitraitInput) -> bool {
    &&& *b.input == u
    &&& crate::out::outs_view(b.timpl@) == timpl_view(u)
    &&& crate::out::outs_view(b.trait_qpath@) == trait_qpath_view(u)
}

pub open spec fn shims_v() -> OutV {
    t("__UnitraitShims::<__UnitraitTag>"@)
}

/// `::core::assert!(ARGS);`
pub open spec fn assert_view(args: Seq<OutV>) -> Seq<OutV> {
    seq![t("::core::assert!"@), group(Delim::Paren, args), t(";"@)]
}

/// The compile-time checks of the implementation's type for the `i`-th opaque type: no
/// larger and no more aligned than the opaque struct, and without drop glue when the opaque
/// type has no `Drop` bound.
pub open spec fn checks_view(b: Bridge, i: int) -> Seq<OutV> {
    let r = real_view(b, i);
    let q = qopaque_view(b, i);
    let size = assert_view(
        seq![t("::core::mem::size_of::<"@)] + r + seq![t(">() <= ::core::mem::size_of::<"@)] + q
            + seq![
            t(
                ">(), \"unitrait: the implementation's associated type is larger than its declared opaque size\","@,
            ),
        ],
    );
    let align = assert_view(
        seq![t("::core::mem::align_of::<"@)] + r + seq![t(">() <= ::core::mem::align_of::<"@)] + q
            + seq![
            t(
                ">(), \"unitrait: the implementation's associated type requires stricter alignment than its declared opaque alignment\","@,
            ),
        ],
    );
    let no_drop = if b.input.opaques@[i].drop_symbol is None {
        assert_view(
            seq![t("!::core::mem::needs_drop::<"@)] + r + seq![
                t(
                    ">(), \"unitrait: the implementation's associated type needs drop, but the opaque associated type has no `Drop` bound\","@,
                ),
            ],
        )
    } else {
        Seq::empty()
    };
    size + align + no_drop
}

pub open spec fn all_checks_view(b: Bridge, n: nat) -> Seq<OutV>
    decreases n,
{
    if n == 0 {
        Seq::empty()
    } else {
        all_checks_view(b, (n - 1) as nat) + checks_view(b, n - 1)
    }
}

/// `#[unsafe(export_name = SYMBOL)]`
pub open spec fn export_attr_view(symbol: Sym) -> Seq<OutV> {
    seq![
        t("#"@),
        group(
            Delim::Bracket,
            seq![t("unsafe"@), group(Delim::Paren, seq![t("export_name ="@), sym_v(symbol)])],
        ),
    ]
}

/// `__unitrait_drop_name` / `__unitrait_clone_name`, after the associated type.
pub open spec fn shim_name_v(prefix: Seq<char>, o: OpaqueDecl) -> OutV {
    OutV::Ident(prefix + lowercase(ident_text(o.assoc)), 0)
}

/// The helper dropping the implementation's value in place, for an opaque type with a drop
/// symbol.
pub open spec fn drop_helper_view(b: Bridge, i: int) -> Seq<OutV> {
    let o = b.input.opaques@[i];
    let q = qopaque_view(b, i);
    match o.drop_symbol {
        None => Seq::empty(),
        Some(_) => seq![
            t("#[inline(always)] fn"@),
            shim_name_v("__unitrait_drop_"@, o),
            group(Delim::Paren, seq![t("this: &mut"@)] + q),
            group(
                Delim::Brace,
                seq![
                    t("unsafe"@),
                    group(
                        Delim::Brace,
                        seq![
                            t("::core::ptr::drop_in_place"@),
                            group(Delim::Paren, seq![t("this as *mut"@)] + q + seq![t("as *mut"@)] + real_view(b, i)),
                            t(";"@),
                        ],
                    ),
                ],
            ),
        ],
    }
}

/// The exported function dropping through the helper, named by the drop symbol.
pub open spec fn drop_export_view(b: Bridge, i: int) -> Seq<OutV> {
    let o = b.input.opaques@[i];
    let name = shim_name_v("__unitrait_drop_"@, o);
    match o.drop_symbol {
        None => Seq::empty(),
        Some(s) => export_attr_view(s) + seq![
            t("fn"@),
            name,
            group(Delim::Paren, seq![t("this: &mut"@)] + qopaque_view(b, i)),
            group(Delim::Brace, seq![shims_v(), t("::"@), name, t("(this)"@)]),
        ],
    }
}

/// The helper cloning the implementation's value into a fresh opaque struct, for an opaque
/// type with a clone symbol.
pub open spec fn clone_helper_view(b: Bridge, i: int) -> Seq<OutV> {
    let o = b.input.opaques@[i];
    let q = qopaque_view(b, i);
    let r = real_view(b, i);
    let inner = seq![
        t("let this = &*"@),
        group(Delim::Paren, seq![t("this as *const"@)] + q + seq![t("as *const"@)] + r),
        t("; let __unitrait_cloned:"@),
    ] + r + seq![
        t(
            "= ::core::clone::Clone::clone(this); let mut __unitrait_out = ::core::mem::MaybeUninit::<"@,
        ),
    ] + q + seq![
        t(">::uninit();"@),
        group(Delim::Paren, seq![t("__unitrait_out.as_mut_ptr() as *mut"@)] + r),
        t(".write(__unitrait_cloned); __unitrait_out.assume_init()"@),
    ];
    match o.clone_symbol {
        None => Seq::empty(),
        Some(_) => seq![
            t("#[inline(always)] fn"@),
            shim_name_v("__unitrait_clone_"@, o),
            group(Delim::Paren, seq![t("this: &"@)] + q),
        ] + seq![t("->"@)] + q + seq![
            group(Delim::Brace, seq![t("unsafe"@), group(Delim::Brace, inner)]),
        ],
    }
}

/// The exported function cloning through the helper, named by the clone symbol.
pub open spec fn clone_export_view(b: Bridge, i: int) -> Seq<OutV> {
    let o = b.input.opaques@[i];
    let name = shim_name_v("__unitrait_clone_"@, o);
    let q = qopaque_view(b, i);
    match o.clone_symbol {
        None => Seq::empty(),
        Some(s) => export_attr_view(s) + seq![
            t("fn"@),
            name,
            group(Delim::Paren, seq![t("this: &"@)] + q),
        ] + seq![t("->"@)] + q + seq![
            group(Delim::Brace, seq![shims_v(), t("::"@), name, t("(this)"@)]),
        ],
    }
}

pub open spec fn opaque_helpers_view(b: Bridge, n: nat) -> Seq<OutV>
    decreases n,
{
    if n == 0 {
        Seq::empty()
    } else {
        opaque_helpers_view(b, (n - 1) as nat) + drop_helper_view(b, n - 1) + clone_helper_view(
            b,
            n - 1,
        )
    }
}

pub open spec fn opaque_exports_view(b: Bridge, n: nat) -> Seq<OutV>
    decreases n,
{
    if n == 0 {
        Seq::empty()
    } else {
        opaque_exports_view(b, (n - 1) as nat) + drop_export_view(b, n - 1) + clone_export_view(
            b,
            n - 1,
        )
    }
}

/// `let name = CONVERSION;` for the first `n` parameters that mention an opaque type.
pub open spec fn convs_view(b: Bridge, m: Method, s: MethodShapes, n: nat) -> Seq<OutV>
    decreases n,
{
    if n == 0 {
        Seq::empty()
    } else {
        let k = n - 1;
        let this = match s.args@[k] {
            Shape::Plain(_) => Seq::empty(),
            _ => seq![t("let"@), tok_v(m.args@[k].name), t("="@)] + convert_view(
                b,
                s.args@[k],
                seq![tok_v(m.args@[k].name)],
                Dir::Unwrap,
            ) + seq![t(";"@)],
        };
        convs_view(b, m, s, (n - 1) as nat) + this
    }
}

/// The call of the implementation's method: `<TIMPL as PATH::Trait>::name(args)`.
pub open spec fn impl_call_view(b: Bridge, m: Method) -> Seq<OutV> {
    guarded_view(
        m,
        seq![t("<"@)] + crate::out::outs_view(b.timpl@) + seq![t("as"@)] + crate::out::outs_view(
            b.trait_qpath@,
        ) + seq![t(">::"@), tok_v(m.name), group(Delim::Paren, all_arg_ids_view(m))],
    )
}

/// The helper calling the implementation: the parameters converted to the implementation's
/// types, the result converted back.
pub open spec fn method_helper_view(b: Bridge, m: Method, s: MethodShapes) -> Seq<OutV> {
    let u = *b.input;
    let body = match s.ret {
        None => impl_call_view(b, m),
        Some(r) => convert_view(b, r, impl_call_view(b, m), Dir::Wrap),
    };
    seq![
        t("#[inline(always)] fn"@),
        tok_v(m.name),
        group(Delim::Paren, all_params_view(u, m, s, Leaf::Impl)),
    ] + ret_view(u, s, Leaf::Impl) + seq![
        group(Delim::Brace, convs_view(b, m, s, m.args@.len()) + body),
    ]
}

/// The function exported under the method's symbol, forwarding to the helper.
pub open spec fn method_export_view(b: Bridge, m: Method, s: MethodShapes) -> Seq<OutV> {
    let u = *b.input;
    export_attr_view(m.symbol) + seq![
        t("fn"@),
        tok_v(m.name),
        group(Delim::Paren, all_params_view(u, m, s, Leaf::Impl)),
    ] + ret_view(u, s, Leaf::Impl) + seq![
        group(
            Delim::Brace,
            seq![shims_v(), t("::"@), tok_v(m.name), group(Delim::Paren, all_arg_ids_view(m))],
        ),
    ]
}

pub open spec fn method_helpers_view(b: Bridge, ms: Seq<MethodShapes>, n: nat) -> Seq<OutV>
    decreases n,
{
    if n == 0 {
        Seq::empty()
    } else {
        method_helpers_view(b, ms, (n - 1) as nat) + method_helper_view(
            b,
            b.input.methods@[n - 1],
            ms[n - 1],
        )
    }
}

pub open spec fn method_exports_view(b: Bridge, ms: Seq<MethodShapes>, n: nat) -> Seq<OutV>
    decreases n,
{
    if n == 0 {
        Seq::empty()
    } else {
        method_exports_view(b, ms, (n - 1) as nat) + method_export_view(
            b,
            b.input.methods@[n - 1],
            ms[n - 1],
        )
    }
}

/// The body of the hidden impl of the shims: the checks, then the helpers.
pub open spec fn shim_impl_view(b: Bridge, ms: Seq<MethodShapes>) -> Seq<OutV> {
    let u = *b.input;
    seq![
        t("const CHECKS: () ="@),
        group(Delim::Brace, all_checks_view(b, u.opaques@.len())),
        t(";"@),
    ] + opaque_helpers_view(b, u.opaques@.len()) + method_helpers_view(b, ms, u.methods@.len())
}

/// The body of the implementation macro's single rule.
pub open spec fn macro_body_view(b: Bridge, ms: Seq<MethodShapes>) -> Seq<OutV> {
    let u = *b.input;
    let path = toks_out(toks_view(u.path@));
    let inner = seq![t("#[allow(unused_imports)] use"@)] + path + seq![
        t(
            "::*; struct __UnitraitShims<__B>(::core::marker::PhantomData<__B>); impl<__B:"@,
        ),
    ] + path + seq![
        t("::"@),
        binding_v(u),
        t("> __UnitraitShims<__B>"@),
        group(Delim::Brace, shim_impl_view(b, ms)),
        t("const _: () ="@),
        shims_v(),
        t("::CHECKS;"@),
    ] + opaque_exports_view(b, u.opaques@.len()) + method_exports_view(b, ms, u.methods@.len());
    let outer = seq![t("struct __UnitraitTag; impl"@)] + path + seq![
        t("::"@),
        binding_v(u),
        t("for __UnitraitTag"@),
        group(Delim::Brace, seq![t("type Type ="@), t("$t"@), t(";"@)]),
        t("const _: () ="@),
        group(Delim::Brace, inner),
        t(";"@),
    ];
    seq![t("const _: () ="@), group(Delim::Brace, outer), t(";"@)]
}

/// The defining crate's items: the opaque structs, with their marker, `Drop` and `Clone`
/// impls; the trait, its opaque types declared with their markers as bounds; the dispatch
/// type, its methods calling the extern symbols, and its impl of the trait.
pub open spec fn defining_view(u: UnitraitInput, ms: Seq<MethodShapes>) -> Seq<OutV> {
    let no = u.opaques@.len();
    let nm = u.methods@.len();
    opaque_structs_view(u, no) + attrs_view(u.trait_docs@) + toks_out(toks_view(u.vis@)) + seq![
        t("trait"@),
        tok_v(u.name),
        group(Delim::Brace, trait_opaques_view(u, no) + trait_methods_view(u, ms, nm)),
    ] + attrs_view(u.dispatch_attrs@) + toks_out(toks_view(u.dispatch_vis@)) + seq![
        t("struct"@),
        tok_v(u.dispatch),
        t(";"@),
        t("impl"@),
        tok_v(u.dispatch),
        group(Delim::Brace, dispatch_methods_view(u, ms, nm)),
        t("impl"@),
        tok_v(u.name),
        t("for"@),
        tok_v(u.dispatch),
        group(Delim::Brace, dispatch_assocs_view(u, no) + dispatch_impl_methods_view(u, ms, nm)),
    ]
}

/// The hidden trait binding the implementor's type, and the implementation macro, which
/// checks the implementation's types and exports every symbol.
pub open spec fn implementing_view(b: Bridge, ms: Seq<MethodShapes>) -> Seq<OutV> {
    let u = *b.input;
    let rules = seq![
        group(Delim::Paren, seq![t("$t"@), t(":ty"@)]),
        t("=>"@),
        group(Delim::Brace, macro_body_view(b, ms)),
        t(";"@),
    ];
    seq![
        t(
            "#[doc = \" Implementation detail of the implementation macro: binds the implementor's type.\"] #[doc(hidden)]"@,
        ),
    ] + toks_out(toks_view(u.vis@)) + seq![
        t("trait"@),
        binding_v(u),
        group(Delim::Brace, seq![t("type Type:"@), tok_v(u.name), t(";"@)]),
    ] + attrs_view(u.mac_docs@) + seq![
        t("#[macro_export] macro_rules!"@),
        tok_v(u.mac_name),
        group(Delim::Brace, rules),
    ]
}

/// Everything the macro generates for a parsed input whose methods have the shapes `ms`,
/// with the bridge `b` to the implementation's types.
pub open spec fn expansion_view(b: Bridge, ms: Seq<MethodShapes>) -> Seq<OutV> {
    defining_view(*b.input, ms) + implementing_view(b, ms)
}

} // verus!
