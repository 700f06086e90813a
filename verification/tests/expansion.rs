//! The macro run on whole inputs: what it generates, and what it rejects.

use proc_macro2::{Delimiter, Spacing, TokenStream, TokenTree};
use unitrait::expand::unitrait;
use unitrait::input::UnitraitInput;
use unitrait::out::Out;
use unitrait::tokens::{Delim, Tok};

/// Lexes source text into the library's token trees, numbering the spans from 1.
fn lex(src: &str) -> Vec<Tok> {
    let ts: TokenStream = src.parse().expect("test input lexes");
    let mut next: u64 = 1;
    to_toks(ts, &mut next)
}

fn to_toks(ts: TokenStream, next: &mut u64) -> Vec<Tok> {
    let mut out = Vec::new();
    for tt in ts {
        let span = *next;
        *next += 1;
        out.push(match tt {
            TokenTree::Ident(i) => Tok::Ident { text: i.to_string(), span },
            TokenTree::Punct(p) => Tok::Punct {
                ch: p.as_char(),
                joint: p.spacing() == Spacing::Joint,
                span,
            },
            TokenTree::Literal(l) => Tok::Lit { text: l.to_string(), span },
            TokenTree::Group(g) => {
                let delim = match g.delimiter() {
                    Delimiter::Parenthesis => Delim::Paren,
                    Delimiter::Brace => Delim::Brace,
                    Delimiter::Bracket => Delim::Bracket,
                    Delimiter::None => Delim::Invisible,
                };
                let body = to_toks(g.stream(), next);
                Tok::Group { delim, body, span }
            }
        });
    }
    out
}

fn open_close(d: Delim) -> (&'static str, &'static str) {
    match d {
        Delim::Paren => ("(", ")"),
        Delim::Brace => ("{", "}"),
        Delim::Bracket => ("[", "]"),
        Delim::Invisible => ("", ""),
    }
}

fn write_tok(t: &Tok, s: &mut String) {
    match t {
        Tok::Ident { text, .. } | Tok::Lit { text, .. } => {
            s.push_str(text);
            s.push(' ');
        }
        Tok::Punct { ch, joint, .. } => {
            s.push(*ch);
            if !joint {
                s.push(' ');
            }
        }
        Tok::Group { delim, body, .. } => {
            let (o, c) = open_close(*delim);
            s.push_str(o);
            for t in body {
                write_tok(t, s);
            }
            s.push_str(c);
            s.push(' ');
        }
    }
}

fn write_outs(outs: &[Out], s: &mut String) {
    for o in outs {
        match o {
            Out::Text(text, _) => {
                s.push_str(text);
                s.push(' ');
            }
            Out::Tok(t) => write_tok(t, s),
            Out::Ident(text, _) => {
                s.push_str(text);
                s.push(' ');
            }
            Out::Str(value, _) => {
                s.push_str(&proc_macro2::Literal::string(value).to_string());
                s.push(' ');
            }
            Out::Int(n, _) => {
                s.push_str(&n.to_string());
                s.push(' ');
            }
            Out::Group(d, body, _) => {
                let (o, c) = open_close(*d);
                s.push_str(o);
                write_outs(body, s);
                s.push_str(c);
                s.push(' ');
            }
        }
    }
}

/// Runs the macro on `src` and returns the generated source text, which must parse as a
/// sequence of Rust items.
fn expand(src: &str) -> String {
    let out = unitrait(&lex(src));
    let mut text = String::new();
    write_outs(&out, &mut text);
    if let Err(e) = syn::parse_file(&text) {
        panic!("the expansion is not a list of items ({e}):\n{text}");
    }
    text
}

fn compact(s: &str) -> String {
    s.chars().filter(|c| !c.is_whitespace()).collect()
}

fn has(text: &str, piece: &str) -> bool {
    compact(text).contains(&compact(piece))
}

fn count(text: &str, piece: &str) -> usize {
    compact(text).matches(&compact(piece)).count()
}

fn assert_has(text: &str, piece: &str) {
    assert!(has(text, piece), "missing `{piece}`");
}

fn assert_lacks(text: &str, piece: &str) {
    assert!(!has(text, piece), "unexpected `{piece}`");
}

/// The message of the error the macro reports for `src`.
fn error_of(src: &str) -> String {
    match UnitraitInput::parse(&lex(src)) {
        Err(e) => e.message,
        Ok(input) => match unitrait::expand::expand(&input) {
            Err(e) => e.message,
            Ok(_) => panic!("no error for:\n{src}"),
        },
    }
}

/// A method dispatches through `symbol`: the dispatch type's method calls the extern
/// function of that name, and the implementation macro exports a function of that name
/// forwarding to the implementation's method.
fn assert_dispatches(text: &str, dispatch: &str, name: &str, symbol: &str) {
    assert_has(text, &format!("#[link_name = \"{symbol}\"]"));
    assert_has(text, &format!("#[unsafe(export_name = \"{symbol}\")] fn {name}"));
    assert_has(text, &format!("__UnitraitShims::<__UnitraitTag>::{name}"));
    assert_has(
        text,
        &format!("<<__B as $crate::__{dispatch}Implementation>::Type as $crate::"),
    );
}

const BASIC: &str = r#"
    /// A test driver.
    pub trait Driver {
        /// Returns the current level.
        #[symbol = "_unitrait_test_level"]
        fn level() -> u32;

        /// Sets the current level.
        #[symbol = "_unitrait_test_set_level"]
        fn set_level(level: u32, doubled: bool);

        /// No args, no return value.
        #[symbol = "_unitrait_test_poke"]
        fn poke();

        /// Returns a static item.
        ///
        /// # Safety
        ///
        /// May be called at most once.
        #[symbol = "_unitrait_test_item"]
        unsafe fn item(marker: &u8) -> &'static mut Item;
    }

    /// The global test driver.
    pub struct Frob;

    /// Set the global test driver.
    macro test_driver_impl(path = $crate);
"#;

#[test]
fn test_dispatch_type_dispatches_to_impl() {
    let text = expand(BASIC);
    // The trait, as written.
    assert_has(text.as_str(), "pub trait Driver {");
    assert_has(&text, "fn level() -> u32;");
    assert_has(&text, "fn set_level(level: u32, doubled: bool);");
    assert_has(&text, "fn poke();");
    assert_has(&text, "unsafe fn item(marker: &u8) -> &'static mut Item;");
    // The dispatch type and its methods, each calling its symbol.
    assert_has(&text, "pub struct Frob;");
    assert_has(
        &text,
        "#[inline] pub fn level() -> u32 { unsafe extern \"Rust\" { #[link_name = \"_unitrait_test_level\"] safe fn extern_fn() -> u32; } extern_fn() }",
    );
    assert_has(
        &text,
        "#[inline] pub fn set_level(level: u32, doubled: bool) { unsafe extern \"Rust\" { #[link_name = \"_unitrait_test_set_level\"] safe fn extern_fn(level: u32, doubled: bool); } extern_fn(level, doubled) }",
    );
    assert_has(
        &text,
        "#[inline] pub fn poke() { unsafe extern \"Rust\" { #[link_name = \"_unitrait_test_poke\"] safe fn extern_fn(); } extern_fn() }",
    );
    assert_has(
        &text,
        "#[inline] pub unsafe fn item(marker: &u8) -> &'static mut Item { unsafe extern \"Rust\" { #[link_name = \"_unitrait_test_item\"] fn extern_fn(marker: &u8) -> &'static mut Item; } unsafe { extern_fn(marker) } }",
    );
    // The implementation macro exports each symbol, forwarding to the implementation.
    for (name, symbol) in [
        ("level", "_unitrait_test_level"),
        ("set_level", "_unitrait_test_set_level"),
        ("poke", "_unitrait_test_poke"),
        ("item", "_unitrait_test_item"),
    ] {
        assert_dispatches(&text, "Frob", name, symbol);
    }
    assert_has(
        &text,
        "#[inline(always)] fn set_level(level: u32, doubled: bool) { <<__B as $crate::__FrobImplementation>::Type as $crate::Driver>::set_level(level, doubled) }",
    );
    assert_has(
        &text,
        "#[inline(always)] fn item(marker: &u8) -> &'static mut Item { unsafe { <<__B as $crate::__FrobImplementation>::Type as $crate::Driver>::item(marker) } }",
    );
    assert_has(&text, "#[macro_export] macro_rules! test_driver_impl { ($t:ty) => {");
    assert_has(&text, "impl $crate::__FrobImplementation for __UnitraitTag { type Type = $t; }");
    assert_has(&text, "impl Driver for Frob {");
    assert_has(&text, "#[inline] fn level() -> u32 { <Frob>::level() }");
    assert_has(&text, "#[inline] unsafe fn item(marker: &u8) -> &'static mut Item { unsafe { <Frob>::item(marker) } }");
}

const BUFFERS: &str = r#"
    /// A test trait handing out cloneable opaque buffers.
    pub trait BuffersDriver {
        /// A growable buffer. Cloning one clones the implementation's value.
        #[opaque(size = 32, align = 8)]
        #[drop_symbol = "_unitrait_test_buf_drop"]
        #[clone_symbol = "_unitrait_test_buf_clone"]
        pub type Buf: Clone + Drop;

        /// A cloneable handle with no drop glue.
        #[opaque(size = 8, align = 4)]
        #[clone_symbol = "_unitrait_test_tag_clone"]
        pub type Tag: Clone;

        #[symbol = "_unitrait_test_buf_new"]
        fn buf_new(first: u32) -> Self::Buf;

        #[symbol = "_unitrait_test_buf_push"]
        fn buf_push(b: &mut Self::Buf, v: u32);

        #[symbol = "_unitrait_test_buf_sum"]
        fn buf_sum(b: &Self::Buf) -> u32;

        #[symbol = "_unitrait_test_buf_len"]
        fn buf_len(b: &Self::Buf) -> usize;

        #[symbol = "_unitrait_test_tag_new"]
        fn tag_new(v: u32) -> Self::Tag;

        #[symbol = "_unitrait_test_tag_get"]
        fn tag_get(t: &Self::Tag) -> u32;
    }

    pub struct Buffers;

    /// Set the global buffer implementation.
    macro test_buffers_impl(path = $crate);
"#;

/// The opaque struct `name` clones through `symbol`, on both sides.
fn assert_clones_through(text: &str, name: &str, assoc_lower: &str, symbol: &str) {
    assert_has(
        text,
        &format!(
            "impl ::core::clone::Clone for {name} {{ #[inline] fn clone(&self) -> Self {{ unsafe extern \"Rust\" {{ #[link_name = \"{symbol}\"] safe fn extern_fn(this: &{name}) -> {name}; }} extern_fn(self) }} }}"
        ),
    );
    assert_has(
        text,
        &format!(
            "#[unsafe(export_name = \"{symbol}\")] fn __unitrait_clone_{assoc_lower}(this: &$crate::{name}) -> $crate::{name} {{ __UnitraitShims::<__UnitraitTag>::__unitrait_clone_{assoc_lower}(this) }}"
        ),
    );
    assert_has(text, "= ::core::clone::Clone::clone(this);");
}

/// The opaque struct `name` drops through `symbol`, on both sides.
fn assert_drops_through(text: &str, name: &str, assoc_lower: &str, symbol: &str) {
    assert_has(
        text,
        &format!(
            "impl ::core::ops::Drop for {name} {{ #[inline] fn drop(&mut self) {{ unsafe extern \"Rust\" {{ #[link_name = \"{symbol}\"] safe fn extern_fn(this: &mut {name}); }} extern_fn(self) }} }}"
        ),
    );
    assert_has(
        text,
        &format!(
            "#[unsafe(export_name = \"{symbol}\")] fn __unitrait_drop_{assoc_lower}(this: &mut $crate::{name}) {{ __UnitraitShims::<__UnitraitTag>::__unitrait_drop_{assoc_lower}(this) }}"
        ),
    );
    assert_has(text, &format!("::core::ptr::drop_in_place(this as *mut $crate::{name} as *mut"));
}

#[test]
fn test_clone_goes_through_the_implementation() {
    let text = expand(BUFFERS);
    // `clone` goes through the implementation's symbol, not a copy of the bytes.
    assert_clones_through(&text, "BuffersBuf", "buf", "_unitrait_test_buf_clone");
    assert_lacks(&text, "impl ::core::marker::Copy for BuffersBuf");
    for (name, symbol) in [
        ("buf_new", "_unitrait_test_buf_new"),
        ("buf_push", "_unitrait_test_buf_push"),
        ("buf_sum", "_unitrait_test_buf_sum"),
        ("buf_len", "_unitrait_test_buf_len"),
    ] {
        assert_dispatches(&text, "Buffers", name, symbol);
    }
    assert_has(&text, "pub fn buf_push(b: &mut BuffersBuf, v: u32)");
    assert_has(&text, "pub fn buf_sum(b: &BuffersBuf) -> u32");
    // The trait requires the implementation's type to be `Clone`.
    assert_has(&text, "type Buf: ::core::clone::Clone;");
}

#[test]
fn test_clone_from_goes_through_clone() {
    let text = expand(BUFFERS);
    // Only `clone` is written: `clone_from` keeps its default, `*self = source.clone()`,
    // which clones through the symbol and drops the old value through the drop symbol.
    assert_lacks(&text, "clone_from");
    assert_clones_through(&text, "BuffersBuf", "buf", "_unitrait_test_buf_clone");
    assert_drops_through(&text, "BuffersBuf", "buf", "_unitrait_test_buf_drop");
}

#[test]
fn test_clones_are_dropped() {
    let text = expand(BUFFERS);
    // A clone is an opaque struct like any other: it is dropped through the drop symbol.
    assert_drops_through(&text, "BuffersBuf", "buf", "_unitrait_test_buf_drop");
    assert_eq!(count(&text, "impl ::core::ops::Drop for BuffersBuf"), 1);
    // A `Drop` bound reserves a symbol, so there's no drop-glue check for `Buf`.
    assert_lacks(&text, "::core::mem::needs_drop::<<<__B as $crate::__BuffersImplementation>::Type as $crate::BuffersDriver>::Buf>");
}

#[test]
fn test_clone_without_drop() {
    let text = expand(BUFFERS);
    assert_clones_through(&text, "BuffersTag", "tag", "_unitrait_test_tag_clone");
    // No `Drop` bound: no drop glue, and the implementation's type must need none.
    assert_lacks(&text, "impl ::core::ops::Drop for BuffersTag");
    assert_lacks(&text, "__unitrait_drop_tag");
    assert_has(
        &text,
        "::core::assert!(!::core::mem::needs_drop::<<<__B as $crate::__BuffersImplementation>::Type as $crate::BuffersDriver>::Tag>(),",
    );
    assert_dispatches(&text, "Buffers", "tag_new", "_unitrait_test_tag_new");
    assert_dispatches(&text, "Buffers", "tag_get", "_unitrait_test_tag_get");
}

const TOKENS: &str = r#"
    /// A test trait handing out copyable opaque tokens.
    pub trait TokensDriver {
        /// An opaque token. `Copy`, so it can't have a `Drop` bound and is never dropped.
        #[opaque(size = 8, align = 4)]
        pub type Token: Copy;

        /// A `Copy` token that is also `Send` and `Sync`.
        #[opaque(size = 4, align = 4)]
        pub type Small: Copy + Send + Sync;

        #[symbol = "_unitrait_test_token_new"]
        fn token_new(v: u32) -> Self::Token;

        #[symbol = "_unitrait_test_token_get"]
        fn token_get(t: Self::Token) -> u32;

        #[symbol = "_unitrait_test_token_peek"]
        fn token_peek(t: &Self::Token) -> u32;

        #[symbol = "_unitrait_test_small_new"]
        fn small_new(v: u32) -> Self::Small;

        #[symbol = "_unitrait_test_small_get"]
        fn small_get(t: Self::Small) -> u32;
    }

    pub struct Tokens;

    /// Set the global token implementation.
    macro test_tokens_impl(path = $crate);
"#;

#[test]
fn test_copy_opaque_has_no_drop_glue() {
    let text = expand(TOKENS);
    assert_lacks(&text, "impl ::core::ops::Drop for TokensToken");
    assert_lacks(&text, "impl ::core::ops::Drop for TokensSmall");
    assert_has(
        &text,
        "!::core::mem::needs_drop::<<<__B as $crate::__TokensImplementation>::Type as $crate::TokensDriver>::Token>()",
    );
    assert_has(
        &text,
        "!::core::mem::needs_drop::<<<__B as $crate::__TokensImplementation>::Type as $crate::TokensDriver>::Small>()",
    );
}

#[test]
fn test_copy_opaque_round_trips() {
    let text = expand(TOKENS);
    // `Copy`, and `Clone` by copying the bytes.
    assert_has(&text, "impl ::core::marker::Copy for TokensToken {}");
    assert_has(
        &text,
        "impl ::core::clone::Clone for TokensToken { #[inline] fn clone(&self) -> Self { *self } }",
    );
    // The value goes in through the bytes and comes back out through them.
    assert_has(
        &text,
        "fn token_new(v: u32) -> $crate::TokensToken { { let __unitrait_v: <<__B as $crate::__TokensImplementation>::Type as $crate::TokensDriver>::Token = <<__B as $crate::__TokensImplementation>::Type as $crate::TokensDriver>::token_new(v); let mut __unitrait_out = ::core::mem::MaybeUninit::<$crate::TokensToken>::uninit();",
    );
    assert_has(
        &text,
        "fn token_get(t: $crate::TokensToken) -> u32 { let t = { let __unitrait_v = ::core::mem::ManuallyDrop::new(t); unsafe { (&__unitrait_v as *const ::core::mem::ManuallyDrop<$crate::TokensToken> as *const <<__B as $crate::__TokensImplementation>::Type as $crate::TokensDriver>::Token).read() } };",
    );
    assert_has(
        &text,
        "fn token_peek(t: &$crate::TokensToken) -> u32 { let t = { let __unitrait_v: &$crate::TokensToken = t; unsafe { &*(__unitrait_v as *const $crate::TokensToken as *const <<__B as $crate::__TokensImplementation>::Type as $crate::TokensDriver>::Token) } };",
    );
    for (name, symbol) in [
        ("token_new", "_unitrait_test_token_new"),
        ("token_get", "_unitrait_test_token_get"),
        ("token_peek", "_unitrait_test_token_peek"),
    ] {
        assert_dispatches(&text, "Tokens", name, symbol);
    }
    assert_has(&text, "pub fn token_get(t: TokensToken) -> u32");
}

#[test]
fn test_copy_opaque_layout() {
    let text = expand(TOKENS);
    assert_has(
        &text,
        "#[repr(C, align(4))] pub struct TokensToken { _data: ::core::mem::MaybeUninit<[u8; 8]>,",
    );
    assert_has(
        &text,
        "#[repr(C, align(4))] pub struct TokensSmall { _data: ::core::mem::MaybeUninit<[u8; 4]>,",
    );
    assert_has(&text, "unsafe impl ::core::marker::Send for TokensSmall {}");
    assert_has(&text, "unsafe impl ::core::marker::Sync for TokensSmall {}");
    assert_has(&text, "type Small: ::core::marker::Copy + ::core::marker::Send + ::core::marker::Sync;");
    assert_dispatches(&text, "Tokens", "small_new", "_unitrait_test_small_new");
    assert_dispatches(&text, "Tokens", "small_get", "_unitrait_test_small_get");
    // The implementation's type is checked against the opaque struct's layout.
    assert_has(
        &text,
        "::core::assert!(::core::mem::size_of::<<<__B as $crate::__TokensImplementation>::Type as $crate::TokensDriver>::Token>() <= ::core::mem::size_of::<$crate::TokensToken>(),",
    );
    assert_has(
        &text,
        "::core::assert!(::core::mem::align_of::<<<__B as $crate::__TokensImplementation>::Type as $crate::TokensDriver>::Token>() <= ::core::mem::align_of::<$crate::TokensToken>(),",
    );
}

#[test]
fn test_implementor_named_like_dispatch_type() {
    let text = expand(
        r#"
        /// A test trait.
        pub trait CounterDriver {
            /// An opaque type, so the opaque shims resolve the implementor's type too.
            #[opaque(size = 4, align = 4)]
            pub type State: Copy;

            #[symbol = "_unitrait_test_named_like_dispatch_create"]
            fn create(v: u32) -> Self::State;

            #[symbol = "_unitrait_test_named_like_dispatch_get"]
            fn get(s: Self::State) -> u32;
        }

        /// The dispatch type, named `Counter`.
        pub struct Counter;

        macro test_counter_impl(path = $crate);
    "#,
    );
    // The implementor's type is bound in the caller's scope, outside the glob import that
    // could shadow it with the dispatch type.
    let bound = compact(&text)
        .find(&compact("type Type = $t;"))
        .expect("the implementor's type is bound");
    let glob = compact(&text)
        .find(&compact("use $crate::*;"))
        .expect("the shims import the defining module");
    assert!(bound < glob);
    assert_has(&text, "struct __UnitraitTag; impl $crate::__CounterImplementation for __UnitraitTag { type Type = $t; } const _: () = { #[allow(unused_imports)] use $crate::*;");
    assert_dispatches(&text, "Counter", "create", "_unitrait_test_named_like_dispatch_create");
    assert_dispatches(&text, "Counter", "get", "_unitrait_test_named_like_dispatch_get");
    assert_has(&text, "pub struct CounterState");
}

#[test]
fn test_interleaved_item_order() {
    let text = expand(
        r#"
        /// A counter whose opaque type is declared after the methods that use it.
        pub trait CounterDriver {
            /// Returns a fresh counter.
            #[symbol = "_unitrait_test_order_new"]
            fn counter_new() -> Self::State;

            /// Increments the counter and returns the new value.
            #[symbol = "_unitrait_test_order_bump"]
            fn counter_bump(state: &mut Self::State) -> u32;

            /// Opaque storage for the counter state.
            #[opaque(size = 8, align = 4)]
            #[drop_symbol = "_unitrait_test_order_drop"]
            pub type State: Drop;

            /// Reads the counter without modifying it.
            #[symbol = "_unitrait_test_order_get"]
            fn counter_get(state: &Self::State) -> u32;
        }

        pub struct Counter;

        /// Set the global counter implementation.
        macro test_counter_impl(path = $crate);
    "#,
    );
    assert_has(&text, "fn counter_new() -> Self::State;");
    assert_has(&text, "fn counter_bump(state: &mut Self::State) -> u32;");
    assert_has(&text, "pub fn counter_new() -> CounterState");
    assert_has(&text, "pub fn counter_bump(state: &mut CounterState) -> u32");
    assert_has(&text, "pub fn counter_get(state: &CounterState) -> u32");
    assert_has(&text, "type State = CounterState;");
    assert_drops_through(&text, "CounterState", "state", "_unitrait_test_order_drop");
    for (name, symbol) in [
        ("counter_new", "_unitrait_test_order_new"),
        ("counter_bump", "_unitrait_test_order_bump"),
        ("counter_get", "_unitrait_test_order_get"),
    ] {
        assert_dispatches(&text, "Counter", name, symbol);
    }
}

const REGISTRY: &str = r#"
    /// A test trait handing out move-only handles that need no cleanup.
    pub trait RegistryDriver {
        /// An opaque handle. It has no `Drop` bound, so dropping one does nothing and the
        /// implementation's type must need no dropping. It isn't `Copy` either, so it's
        /// still move-only.
        #[opaque(size = 8, align = 8)]
        pub type Handle;

        #[symbol = "_unitrait_test_registry_open"]
        fn registry_open(id: u32) -> Self::Handle;

        #[symbol = "_unitrait_test_registry_id"]
        fn registry_id(h: &Self::Handle) -> u32;

        #[symbol = "_unitrait_test_registry_close"]
        fn registry_close(h: Self::Handle) -> u32;
    }

    pub struct Registry;

    /// Set the global registry implementation.
    macro test_registry_impl(path = $crate);
"#;

#[test]
fn test_no_drop_glue() {
    let text = expand(REGISTRY);
    assert_lacks(&text, "impl ::core::ops::Drop for RegistryHandle");
    assert_lacks(&text, "impl ::core::marker::Copy for RegistryHandle");
    assert_lacks(&text, "impl ::core::clone::Clone for RegistryHandle");
    assert_has(
        &text,
        "::core::assert!(!::core::mem::needs_drop::<<<__B as $crate::__RegistryImplementation>::Type as $crate::RegistryDriver>::Handle>(), \"unitrait: the implementation's associated type needs drop, but the opaque associated type has no `Drop` bound\",);",
    );
    assert_has(&text, "type Handle;");
}

#[test]
fn test_round_trip() {
    let text = expand(REGISTRY);
    assert_has(
        &text,
        "#[repr(C, align(8))] pub struct RegistryHandle { _data: ::core::mem::MaybeUninit<[u8; 8]>,",
    );
    for (name, symbol) in [
        ("registry_open", "_unitrait_test_registry_open"),
        ("registry_id", "_unitrait_test_registry_id"),
        ("registry_close", "_unitrait_test_registry_close"),
    ] {
        assert_dispatches(&text, "Registry", name, symbol);
    }
    // Closing moves the value out of the opaque struct without running any drop.
    assert_has(&text, "let h = { let __unitrait_v = ::core::mem::ManuallyDrop::new(h);");
}

const NESTED: &str = r#"
    /// A test trait passing opaque values around inside composites.
    pub trait NestedDriver {
        /// Opaque state with drop glue, smaller and less aligned than declared.
        #[opaque(size = 32, align = 8)]
        #[drop_symbol = "_unitrait_test_nested_ctx_drop"]
        pub type Context: Drop;

        /// A copyable handle.
        #[opaque(size = 8, align = 4)]
        pub type Handle: Copy;

        /// A cloneable value, cloned by the implementation.
        #[opaque(size = 32, align = 8)]
        #[drop_symbol = "_unitrait_test_nested_shared_drop"]
        #[clone_symbol = "_unitrait_test_nested_shared_clone"]
        pub type Shared: Clone + Drop;

        #[symbol = "_unitrait_test_nested_ctx_new"]
        fn ctx_new(v: u32) -> Self::Context;

        #[symbol = "_unitrait_test_nested_ctx_get"]
        fn ctx_get(ctx: &Self::Context) -> u32;

        #[symbol = "_unitrait_test_nested_handle_new"]
        fn handle_new(v: u32) -> Self::Handle;

        // `Option`.

        #[symbol = "_unitrait_test_nested_opt_new"]
        fn opt_new(v: Option<u32>) -> Option<Self::Context>;

        #[symbol = "_unitrait_test_nested_opt_get"]
        fn opt_get(ctx: Option<&Self::Context>) -> Option<u32>;

        /// Adds one; returns whether there was a value.
        #[symbol = "_unitrait_test_nested_opt_bump"]
        fn opt_bump(ctx: Option<&mut Self::Context>) -> bool;

        /// Consumes the value, dropping it on the implementation side.
        #[symbol = "_unitrait_test_nested_opt_take"]
        fn opt_take(ctx: Option<Self::Context>) -> Option<u32>;

        /// Records the address the state was pinned at the first time, checks it after.
        #[symbol = "_unitrait_test_nested_opt_pin"]
        fn opt_pin(ctx: Option<Pin<&mut Self::Context>>) -> Option<u32>;

        // `Result`.

        #[symbol = "_unitrait_test_nested_res_new"]
        fn res_new(v: u32, ok: bool) -> Result<Self::Context, u32>;

        #[symbol = "_unitrait_test_nested_res_err_new"]
        fn res_err_new(v: u32, ok: bool) -> Result<u32, Self::Context>;

        #[symbol = "_unitrait_test_nested_res_both"]
        fn res_both(r: Result<Self::Context, Self::Handle>) -> u32;

        #[symbol = "_unitrait_test_nested_res_refs"]
        fn res_refs(r: Result<&Self::Context, &mut Self::Context>) -> u32;

        // Tuples.

        #[symbol = "_unitrait_test_nested_pair_new"]
        fn pair_new(a: u32, b: u32) -> (Self::Context, Self::Handle);

        #[symbol = "_unitrait_test_nested_pair_get"]
        fn pair_get(p: (&Self::Context, Self::Handle)) -> (u32, u32);

        /// Passes the context through, in and out, next to a plain value.
        #[symbol = "_unitrait_test_nested_pair_swap"]
        fn pair_swap(p: (Self::Context, u32)) -> (u32, Self::Context);

        #[symbol = "_unitrait_test_nested_single"]
        fn single(p: (Self::Context,)) -> (Self::Context,);

        /// Adds the value to both contexts.
        #[symbol = "_unitrait_test_nested_triple_mut"]
        fn triple_mut(p: (&mut Self::Context, &mut Self::Context, u32));

        // Arrays.

        #[symbol = "_unitrait_test_nested_arr_new"]
        fn arr_new(base: u32) -> [Self::Context; 3];

        #[symbol = "_unitrait_test_nested_arr_sum"]
        fn arr_sum(a: [Self::Context; 3]) -> u32;

        #[symbol = "_unitrait_test_nested_arr_refs"]
        fn arr_refs(a: [&Self::Context; 2]) -> u32;

        #[symbol = "_unitrait_test_nested_arr_handles"]
        fn arr_handles(h: [Self::Handle; HANDLES]) -> u32;

        #[symbol = "_unitrait_test_nested_arr_empty"]
        fn arr_empty(a: [Self::Context; 0]) -> usize;

        // Nesting.

        /// `None`, `Some(Ok)` or `Some(Err)` depending on `v % 3`.
        #[symbol = "_unitrait_test_nested_deep_new"]
        fn deep_new(v: u32) -> Option<Result<(Self::Context, u32), Self::Handle>>;

        #[symbol = "_unitrait_test_nested_deep_get"]
        fn deep_get(v: Option<Result<(Self::Context, u32), Self::Handle>>) -> u32;

        #[symbol = "_unitrait_test_nested_opts_arr_new"]
        fn opts_arr_new(a: u32, b: Option<u32>) -> [Option<Self::Context>; 2];

        #[symbol = "_unitrait_test_nested_opts_arr_sum"]
        fn opts_arr_sum(a: [Option<Self::Context>; 2]) -> u32;

        /// Adds the value to the context, if both are there; returns the new value.
        #[symbol = "_unitrait_test_nested_nested_refs"]
        fn nested_refs(v: Option<(u32, Option<&mut Self::Context>)>) -> u32;

        /// Bumps the second, if there; returns the sum.
        #[symbol = "_unitrait_test_nested_tuple_pins"]
        fn tuple_pins(p: (Pin<&Self::Context>, Option<Pin<&mut Self::Context>>)) -> u32;

        /// Parenthesized types are seen through.
        #[symbol = "_unitrait_test_nested_parens"]
        fn parens(p: ((Self::Context), Option<(Self::Handle)>)) -> (u32, u32);

        // `Clone`.

        #[symbol = "_unitrait_test_nested_shared_new"]
        fn shared_new(v: u32) -> Option<Self::Shared>;

        #[symbol = "_unitrait_test_nested_shared_get"]
        fn shared_get(s: Option<&Self::Shared>) -> u32;
    }

    pub struct Nested;

    /// Set the global implementation.
    macro test_nested_impl(path = $crate);
"#;

/// `<TIMPL as TRAIT>::NAME` for the nested test trait.
const REAL: &str = "<<__B as $crate::__NestedImplementation>::Type as $crate::NestedDriver>::";

fn real_of(assoc: &str) -> String {
    format!("{REAL}{assoc}")
}

#[test]
fn test_option() {
    let text = expand(NESTED);
    // Around an opaque type, `Option` is `core`'s, on every side.
    assert_has(&text, "fn opt_new(v: Option<u32>) -> ::core::option::Option<Self::Context>;");
    assert_has(&text, "pub fn opt_new(v: Option<u32>) -> ::core::option::Option<NestedContext>");
    assert_has(&text, "fn opt_new(v: Option<u32>) -> ::core::option::Option<$crate::NestedContext>");
    assert_has(&text, "pub fn opt_get(ctx: ::core::option::Option<&NestedContext>) -> Option<u32>");
    assert_has(&text, "pub fn opt_bump(ctx: ::core::option::Option<&mut NestedContext>) -> bool");
    assert_has(&text, "pub fn opt_take(ctx: ::core::option::Option<NestedContext>) -> Option<u32>");
    // The implementation side takes the `Option` apart and rebuilds it around the value.
    assert_has(
        &text,
        "let ctx = match ctx { ::core::option::Option::Some(__unitrait_v) => ::core::option::Option::Some({ let __unitrait_v = ::core::mem::ManuallyDrop::new(__unitrait_v);",
    );
    assert_has(
        &text,
        &format!(
            "match {REAL}opt_new(v) {{ ::core::option::Option::Some(__unitrait_v) => ::core::option::Option::Some({{ let __unitrait_v: {} = __unitrait_v;",
            real_of("Context")
        ),
    );
    assert_has(&text, "::core::option::Option::None => ::core::option::Option::None,");
    for (name, symbol) in [
        ("opt_new", "_unitrait_test_nested_opt_new"),
        ("opt_get", "_unitrait_test_nested_opt_get"),
        ("opt_bump", "_unitrait_test_nested_opt_bump"),
        ("opt_take", "_unitrait_test_nested_opt_take"),
    ] {
        assert_dispatches(&text, "Nested", name, symbol);
    }
    assert_drops_through(&text, "NestedContext", "context", "_unitrait_test_nested_ctx_drop");
}

#[test]
fn test_option_pin() {
    let text = expand(NESTED);
    assert_has(
        &text,
        "fn opt_pin(ctx: ::core::option::Option<::core::pin::Pin<&mut Self::Context>>) -> Option<u32>;",
    );
    assert_has(
        &text,
        "pub fn opt_pin(ctx: ::core::option::Option<::core::pin::Pin<&mut NestedContext>>) -> Option<u32>",
    );
    // The implementation gets its value pinned at the address the caller pinned.
    assert_has(
        &text,
        &format!(
            "::core::option::Option::Some({{ let __unitrait_v: ::core::pin::Pin<&mut $crate::NestedContext> = __unitrait_v; unsafe {{ let __unitrait_v: &mut $crate::NestedContext = ::core::pin::Pin::get_unchecked_mut(__unitrait_v); ::core::pin::Pin::new_unchecked(&mut *(__unitrait_v as *mut $crate::NestedContext as *mut {})) }} }})",
            real_of("Context")
        ),
    );
    assert_dispatches(&text, "Nested", "opt_pin", "_unitrait_test_nested_opt_pin");
    // Not `Unpin`: the opaque struct implements no auto trait it wasn't given.
    assert_lacks(&text, "impl ::core::marker::Unpin for NestedContext");
    assert_has(&text, "::core::marker::PhantomPinned");
}

#[test]
fn test_result() {
    let text = expand(NESTED);
    assert_has(&text, "fn res_new(v: u32, ok: bool) -> ::core::result::Result<Self::Context, u32>;");
    assert_has(&text, "fn res_err_new(v: u32, ok: bool) -> ::core::result::Result<u32, Self::Context>;");
    assert_has(
        &text,
        "pub fn res_both(r: ::core::result::Result<NestedContext, NestedHandle>) -> u32",
    );
    assert_has(
        &text,
        "pub fn res_refs(r: ::core::result::Result<&NestedContext, &mut NestedContext>) -> u32",
    );
    assert_has(
        &text,
        "let r = match r { ::core::result::Result::Ok(__unitrait_v) => ::core::result::Result::Ok({ let __unitrait_v: &$crate::NestedContext = __unitrait_v;",
    );
    assert_has(
        &text,
        "::core::result::Result::Err(__unitrait_v) => ::core::result::Result::Err({ let __unitrait_v: &mut $crate::NestedContext = __unitrait_v;",
    );
    // A plain side of a `Result` is passed through as it is.
    assert_has(
        &text,
        &format!("match {REAL}res_err_new(v, ok) {{ ::core::result::Result::Ok(__unitrait_v) => ::core::result::Result::Ok(__unitrait_v),"),
    );
    for (name, symbol) in [
        ("res_new", "_unitrait_test_nested_res_new"),
        ("res_err_new", "_unitrait_test_nested_res_err_new"),
        ("res_both", "_unitrait_test_nested_res_both"),
        ("res_refs", "_unitrait_test_nested_res_refs"),
    ] {
        assert_dispatches(&text, "Nested", name, symbol);
    }
}

#[test]
fn test_tuples() {
    let text = expand(NESTED);
    assert_has(&text, "fn pair_new(a: u32, b: u32) -> (Self::Context, Self::Handle,);");
    assert_has(&text, "pub fn pair_get(p: (&NestedContext, NestedHandle,)) -> (u32, u32)");
    assert_has(&text, "pub fn single(p: (NestedContext,)) -> (NestedContext,)");
    assert_has(
        &text,
        "pub fn triple_mut(p: (&mut NestedContext, &mut NestedContext, u32,))",
    );
    // Parentheses around a type are seen through.
    assert_has(
        &text,
        "pub fn parens(p: (NestedContext, ::core::option::Option<NestedHandle>,)) -> (u32, u32)",
    );
    // Taken apart element by element and rebuilt.
    assert_has(&text, "let p = { let (__unitrait_t0, __unitrait_t1,) = p; (");
    assert_has(&text, "let (__unitrait_t0, __unitrait_t1, __unitrait_t2,) = p;");
    assert_has(&text, ", __unitrait_t2,) } ;");
    for (name, symbol) in [
        ("pair_new", "_unitrait_test_nested_pair_new"),
        ("pair_get", "_unitrait_test_nested_pair_get"),
        ("pair_swap", "_unitrait_test_nested_pair_swap"),
        ("single", "_unitrait_test_nested_single"),
        ("triple_mut", "_unitrait_test_nested_triple_mut"),
        ("parens", "_unitrait_test_nested_parens"),
    ] {
        assert_dispatches(&text, "Nested", name, symbol);
    }
}

#[test]
fn test_arrays() {
    let text = expand(NESTED);
    assert_has(&text, "fn arr_new(base: u32) -> [Self::Context; 3];");
    assert_has(&text, "pub fn arr_sum(a: [NestedContext; 3]) -> u32");
    assert_has(&text, "pub fn arr_refs(a: [&NestedContext; 2]) -> u32");
    // The length is kept as written, a name from the defining crate included.
    assert_has(&text, "pub fn arr_handles(h: [NestedHandle; HANDLES]) -> u32");
    assert_has(&text, "pub fn arr_empty(a: [NestedContext; 0]) -> usize");
    // Converted element by element through the inherent `map`.
    assert_has(&text, "let a = <[$crate::NestedContext; 3]>::map(a, |__unitrait_v|");
    assert_has(&text, "let a = <[&$crate::NestedContext; 2]>::map(a, |__unitrait_v|");
    assert_has(&text, "let h = <[$crate::NestedHandle; HANDLES]>::map(h, |__unitrait_v|");
    assert_has(&text, &format!("<[{}; 3]>::map({REAL}arr_new(base), |__unitrait_v|", real_of("Context")));
    for (name, symbol) in [
        ("arr_new", "_unitrait_test_nested_arr_new"),
        ("arr_sum", "_unitrait_test_nested_arr_sum"),
        ("arr_refs", "_unitrait_test_nested_arr_refs"),
        ("arr_handles", "_unitrait_test_nested_arr_handles"),
        ("arr_empty", "_unitrait_test_nested_arr_empty"),
    ] {
        assert_dispatches(&text, "Nested", name, symbol);
    }
}

#[test]
fn test_nesting() {
    let text = expand(NESTED);
    assert_has(
        &text,
        "fn deep_new(v: u32) -> ::core::option::Option<::core::result::Result<(Self::Context, u32,), Self::Handle>>;",
    );
    assert_has(
        &text,
        "pub fn deep_get(v: ::core::option::Option<::core::result::Result<(NestedContext, u32,), NestedHandle>>) -> u32",
    );
    assert_has(
        &text,
        "pub fn opts_arr_new(a: u32, b: Option<u32>) -> [::core::option::Option<NestedContext>; 2]",
    );
    assert_has(
        &text,
        "pub fn nested_refs(v: ::core::option::Option<(u32, ::core::option::Option<&mut NestedContext>,)>) -> u32",
    );
    assert_has(
        &text,
        "pub fn tuple_pins(p: (::core::pin::Pin<&NestedContext>, ::core::option::Option<::core::pin::Pin<&mut NestedContext>>,)) -> u32",
    );
    assert_has(
        &text,
        "let v = match v { ::core::option::Option::Some(__unitrait_v) => ::core::option::Option::Some(match __unitrait_v { ::core::result::Result::Ok(__unitrait_v) => ::core::result::Result::Ok({ let (__unitrait_t0, __unitrait_t1,) = __unitrait_v;",
    );
    assert_has(
        &text,
        "<[::core::option::Option<$crate::NestedContext>; 2]>::map(a, |__unitrait_v| match __unitrait_v {",
    );
    for (name, symbol) in [
        ("deep_new", "_unitrait_test_nested_deep_new"),
        ("deep_get", "_unitrait_test_nested_deep_get"),
        ("opts_arr_new", "_unitrait_test_nested_opts_arr_new"),
        ("opts_arr_sum", "_unitrait_test_nested_opts_arr_sum"),
        ("nested_refs", "_unitrait_test_nested_nested_refs"),
        ("tuple_pins", "_unitrait_test_nested_tuple_pins"),
    ] {
        assert_dispatches(&text, "Nested", name, symbol);
    }
}

#[test]
fn test_clone_inside_option() {
    let text = expand(NESTED);
    assert_has(&text, "pub fn shared_new(v: u32) -> ::core::option::Option<NestedShared>");
    assert_has(&text, "pub fn shared_get(s: ::core::option::Option<&NestedShared>) -> u32");
    assert_clones_through(&text, "NestedShared", "shared", "_unitrait_test_nested_shared_clone");
    assert_drops_through(&text, "NestedShared", "shared", "_unitrait_test_nested_shared_drop");
    assert_dispatches(&text, "Nested", "shared_new", "_unitrait_test_nested_shared_new");
    assert_dispatches(&text, "Nested", "shared_get", "_unitrait_test_nested_shared_get");
}

const SHADOWED: &str = r#"
    /// A test trait defined with `Option` and `Result` shadowed.
    pub trait ShadowedDriver {
        #[opaque(size = 16, align = 8)]
        #[drop_symbol = "_unitrait_test_nested_shadow_drop"]
        pub type Context: Drop;

        /// `core::option::Option`, whatever `Option` is in scope.
        #[symbol = "_unitrait_test_nested_shadow_new"]
        fn shadow_new(v: u32) -> Option<Self::Context>;

        /// Both: the outer `Option` is around an opaque type, so it is `core`'s; the
        /// inner one isn't, so it's the local struct.
        #[symbol = "_unitrait_test_nested_shadow_get"]
        fn shadow_get(ctx: Option<&Self::Context>, plain: Option<u32>) -> Result<u32, Self::Context>;

        /// No opaque type: the local `Option` and `Result`, passed through verbatim.
        #[symbol = "_unitrait_test_nested_shadow_plain"]
        fn shadow_plain(v: Option<u32>) -> Result<u32, u32>;
    }

    pub struct Shadowed;

    /// Set the global implementation.
    macro test_nested_shadow_impl(path = $crate);
"#;

#[test]
fn test_shadowed_wrappers_mean_the_core_types_around_opaque_types() {
    let text = expand(SHADOWED);
    assert_has(&text, "fn shadow_new(v: u32) -> ::core::option::Option<Self::Context>;");
    assert_has(
        &text,
        "fn shadow_get(ctx: ::core::option::Option<&Self::Context>, plain: Option<u32>) -> ::core::result::Result<u32, Self::Context>;",
    );
    assert_has(&text, "pub fn shadow_new(v: u32) -> ::core::option::Option<ShadowedContext>");
    assert_has(
        &text,
        "pub fn shadow_get(ctx: ::core::option::Option<&ShadowedContext>, plain: Option<u32>) -> ::core::result::Result<u32, ShadowedContext>",
    );
    assert_dispatches(&text, "Shadowed", "shadow_new", "_unitrait_test_nested_shadow_new");
    assert_dispatches(&text, "Shadowed", "shadow_get", "_unitrait_test_nested_shadow_get");
}

#[test]
fn test_shadowed_wrappers_are_passed_through_without_opaque_types() {
    let text = expand(SHADOWED);
    assert_has(&text, "fn shadow_plain(v: Option<u32>) -> Result<u32, u32>;");
    assert_has(&text, "pub fn shadow_plain(v: Option<u32>) -> Result<u32, u32>");
    assert_has(
        &text,
        "fn shadow_plain(v: Option<u32>) -> Result<u32, u32> { <<__B as $crate::__ShadowedImplementation>::Type as $crate::ShadowedDriver>::shadow_plain(v) }",
    );
    assert_dispatches(&text, "Shadowed", "shadow_plain", "_unitrait_test_nested_shadow_plain");
}

#[test]
fn test_same_method_names_dispatch_separately() {
    let sum32 = expand(
        r#"
        /// A 32-bit checksum.
        #[symbol_prefix = "_unitrait_test_same_names_sum32"]
        pub trait Sum32Driver {
            /// Opaque checksum state.
            #[opaque(size = 8, align = 4)]
            pub type Context: Copy;

            /// Returns a fresh state.
            fn init() -> Self::Context;

            /// Absorbs `data`.
            fn update(ctx: &mut Self::Context, data: &[u8]);

            /// Returns the checksum.
            fn finalize(ctx: Self::Context) -> u32;
        }

        /// The global 32-bit checksum.
        pub struct Sum32;

        macro test_sum32_impl(path = $crate);
    "#,
    );
    let sum64 = expand(
        r#"
        /// A 64-bit checksum.
        #[symbol_prefix = "_unitrait_test_same_names_sum64"]
        pub trait Sum64Driver {
            /// Opaque checksum state.
            #[opaque(size = 16, align = 8)]
            pub type Context: Copy;

            /// Returns a fresh state.
            fn init() -> Self::Context;

            /// Absorbs `data`.
            fn update(ctx: &mut Self::Context, data: &[u8]);

            /// Returns the checksum.
            fn finalize(ctx: Self::Context) -> u64;
        }

        /// The global 64-bit checksum.
        pub struct Sum64;

        macro test_sum64_impl(path = $crate);
    "#,
    );
    // The same method names, on different dispatch types and through different symbols.
    for name in ["init", "update", "finalize"] {
        assert_dispatches(&sum32, "Sum32", name, &format!("_unitrait_test_same_names_sum32_{name}"));
        assert_dispatches(&sum64, "Sum64", name, &format!("_unitrait_test_same_names_sum64_{name}"));
        assert_lacks(&sum32, &format!("_unitrait_test_same_names_sum64_{name}"));
    }
    assert_has(&sum32, "impl Sum32 {");
    assert_has(&sum64, "impl Sum64 {");
    // The same associated type name, as two opaque structs of their own sizes.
    assert_has(
        &sum32,
        "#[repr(C, align(4))] pub struct Sum32Context { _data: ::core::mem::MaybeUninit<[u8; 8]>,",
    );
    assert_has(
        &sum64,
        "#[repr(C, align(8))] pub struct Sum64Context { _data: ::core::mem::MaybeUninit<[u8; 16]>,",
    );
    assert_has(&sum32, "pub fn finalize(ctx: Sum32Context) -> u32");
    assert_has(&sum64, "pub fn finalize(ctx: Sum64Context) -> u64");
}

const PREFIXED: &str = r#"
    /// A test trait deriving its symbol names from a prefix.
    #[symbol_prefix = "_unitrait_test_prefixed"]
    pub trait PrefixedDriver {
        /// Symbols `_unitrait_test_prefixed_Context_drop` and `..._Context_clone`.
        #[opaque(size = 32, align = 8)]
        pub type Context: Clone + Drop;

        /// A `Copy` opaque type needs no symbols of its own.
        #[opaque(size = 4, align = 4)]
        pub type Token: Copy;

        /// Symbol `_unitrait_test_prefixed_ctx_new`.
        #[symbol = "_unitrait_test_prefixed_ctx_new"]
        fn ctx_new(v: u32) -> Self::Context;

        /// Derived symbol.
        fn ctx_get(ctx: &Self::Context) -> u32;

        /// An explicit override, not `_unitrait_test_prefixed_ctx_token`.
        #[symbol = "_unitrait_test_prefixed_override"]
        fn ctx_token(ctx: &Self::Context) -> Self::Token;

        /// Derived symbol on an `unsafe` method.
        unsafe fn token_get(t: Self::Token) -> u32;
    }

    pub struct Prefixed;

    /// Set the global prefixed implementation.
    macro test_prefixed_impl(path = $crate);
"#;

#[test]
fn test_derived_symbols_dispatch() {
    let text = expand(PREFIXED);
    assert_dispatches(&text, "Prefixed", "ctx_new", "_unitrait_test_prefixed_ctx_new");
    assert_dispatches(&text, "Prefixed", "ctx_get", "_unitrait_test_prefixed_ctx_get");
    assert_dispatches(&text, "Prefixed", "ctx_token", "_unitrait_test_prefixed_override");
    assert_lacks(&text, "link_name = \"_unitrait_test_prefixed_ctx_token\"");
    assert_lacks(&text, "export_name = \"_unitrait_test_prefixed_ctx_token\"");
    assert_dispatches(&text, "Prefixed", "token_get", "_unitrait_test_prefixed_token_get");
    // The `unsafe` method's extern function is declared `unsafe`, not `safe`.
    assert_has(
        &text,
        "#[inline] pub unsafe fn token_get(t: PrefixedToken) -> u32 { unsafe extern \"Rust\" { #[link_name = \"_unitrait_test_prefixed_token_get\"] fn extern_fn(t: PrefixedToken) -> u32; } unsafe { extern_fn(t) } }",
    );
    assert_has(
        &text,
        "safe fn extern_fn(ctx: &PrefixedContext) -> u32;",
    );
    // Nothing about the prefix survives but the names it produces.
    assert_lacks(&text, "#[symbol_prefix");
}

#[test]
fn test_derived_drop_and_clone_symbols() {
    let text = expand(PREFIXED);
    assert_drops_through(&text, "PrefixedContext", "context", "_unitrait_test_prefixed_Context_drop");
    assert_clones_through(&text, "PrefixedContext", "context", "_unitrait_test_prefixed_Context_clone");
    // A `Copy` type reserves no symbol.
    assert_lacks(&text, "_unitrait_test_prefixed_Token_drop");
    assert_lacks(&text, "_unitrait_test_prefixed_Token_clone");
}

/// The strings of every group `d` holding exactly `KEY "string"`, at any depth.
fn keyed_strings(outs: &[Out], d: Delim, key: &str, found: &mut Vec<String>) {
    for o in outs {
        if let Out::Group(gd, body, _) = o {
            let keyed = *gd == d
                && body.len() == 2
                && matches!(&body[0], Out::Text(k, _) if *k == key);
            match (&body.get(1), keyed) {
                (Some(Out::Str(v, _)), true) => found.push(v.clone()),
                _ => keyed_strings(body, d, key, found),
            }
        }
    }
}

#[test]
fn test_every_linked_symbol_is_exported() {
    for src in [BASIC, BUFFERS, TOKENS, NESTED, PREFIXED] {
        let out = unitrait(&lex(src));
        let mut links = Vec::new();
        let mut exports = Vec::new();
        keyed_strings(&out, Delim::Bracket, "link_name =", &mut links);
        keyed_strings(&out, Delim::Paren, "export_name =", &mut exports);
        assert!(!links.is_empty());
        links.sort();
        exports.sort();
        assert_eq!(links, exports);
    }
}

/// The `cfg_select!` arm `PRED => { struct }` of an opaque struct named `name`.
fn arm(pred: &str, name: &str, align: usize, storage: usize) -> String {
    format!(
        "{pred} => {{ #[repr(C, align({align}))] pub struct {name} {{ _data: ::core::mem::MaybeUninit<[u8; {storage}]>, _not_auto: ::core::marker::PhantomData<(*mut (), ::core::marker::PhantomPinned, &'static mut (), ::core::cell::UnsafeCell<()>,)>, }} }}"
    )
}

/// The definition of an opaque struct with a single unconditional layout.
fn plain_struct(name: &str, align: usize, storage: usize) -> String {
    format!(
        "#[repr(C, align({align}))] pub struct {name} {{ _data: ::core::mem::MaybeUninit<[u8; {storage}]>,"
    )
}

const CFG_CONTEXT: &str = r#"
    /// A cfg-gated accumulator with caller-allocated state.
    pub trait CfgAccumulatorDriver {
        #[cfg_attr(test, opaque(size = 32, align = 8))]
        #[cfg_attr(not(test), opaque(size = 64, align = 16))]
        #[drop_symbol = "_unitrait_test_cfg_acc_drop"]
        pub type Context: Drop;

        /// Returns a fresh accumulator seeded with `seed`.
        #[symbol = "_unitrait_test_cfg_acc_init"]
        fn cfg_acc_init(seed: u64) -> Self::Context;

        /// Returns the accumulated value.
        #[symbol = "_unitrait_test_cfg_acc_get"]
        fn cfg_acc_get(ctx: &mut Self::Context) -> u64;
    }

    pub struct CfgAccumulator;

    /// Set the global cfg accumulator implementation.
    macro test_cfg_accumulator_impl(path = $crate);
"#;

#[test]
fn test_cfg_attr_context_size() {
    let text = expand(CFG_CONTEXT);
    // The first arm whose predicate holds is selected: under `cfg(test)`, 32 bytes aligned
    // to 8; no unconditional layout, so no arm applying is an error.
    assert_has(
        &text,
        &format!(
            "::core::cfg_select! {{ {} {} _ => {{ ::core::compile_error!",
            arm("test", "CfgAccumulatorContext", 8, 32),
            arm("not(test)", "CfgAccumulatorContext", 16, 64),
        ),
    );
}

#[test]
fn test_cfg_attr_context_dispatch() {
    let text = expand(CFG_CONTEXT);
    assert_dispatches(&text, "CfgAccumulator", "cfg_acc_init", "_unitrait_test_cfg_acc_init");
    assert_dispatches(&text, "CfgAccumulator", "cfg_acc_get", "_unitrait_test_cfg_acc_get");
    assert_has(&text, "pub fn cfg_acc_init(seed: u64) -> CfgAccumulatorContext");
    assert_has(&text, "pub fn cfg_acc_get(ctx: &mut CfgAccumulatorContext) -> u64");
}

#[test]
fn test_cfg_attr_context_drop() {
    let text = expand(CFG_CONTEXT);
    assert_drops_through(&text, "CfgAccumulatorContext", "context", "_unitrait_test_cfg_acc_drop");
}

const LAYOUTS: &str = r#"
    /// A test trait whose opaque layouts depend on `cfg`s.
    #[symbol_prefix = "_unitrait_test_cfg_attr"]
    pub trait LayoutsDriver {
        #[cfg_attr(any(), opaque(size = 5, align = 1))]
        #[cfg_attr(all(), opaque(size = 6, align = 1))]
        #[cfg_attr(all(), opaque(size = 9, align = 1))]
        #[opaque(size = 7, align = 1)]
        pub type First: Copy;

        #[cfg_attr(any(), opaque(size = 5, align = 1))]
        #[cfg_attr(not(test), opaque(size = 6, align = 1))]
        #[opaque(size = 7, align = 1)]
        pub type Fallback: Copy;

        #[cfg_attr(target_os = "none", opaque(size = 1, align = 1))]
        #[cfg_attr(test, opaque(size = 5, align = 4))]
        pub type NoFallback: Copy;

        fn first() -> Self::First;
        fn fallback() -> Self::Fallback;
        fn no_fallback() -> Self::NoFallback;
        fn no_fallback_get(v: &Self::NoFallback) -> u64;
    }

    pub struct Layouts;

    /// Set the global implementation.
    macro layouts_impl(path = $crate);
"#;

#[test]
fn test_cfg_attr_layouts() {
    let text = expand(LAYOUTS);
    // The arms keep the attributes' order, so the first predicate that holds wins, over
    // the unconditional fallback too.
    assert_has(
        &text,
        &format!(
            "::core::cfg_select! {{ {} {} {} {} }}",
            arm("any()", "LayoutsFirst", 1, 5),
            arm("all()", "LayoutsFirst", 1, 6),
            arm("all()", "LayoutsFirst", 1, 9),
            arm("_", "LayoutsFirst", 1, 7),
        ),
    );
    assert_has(
        &text,
        &format!(
            "::core::cfg_select! {{ {} {} {} }}",
            arm("any()", "LayoutsFallback", 1, 5),
            arm("not(test)", "LayoutsFallback", 1, 6),
            arm("_", "LayoutsFallback", 1, 7),
        ),
    );
    // `size = 5, align = 4` is stored in 8 bytes.
    assert_has(
        &text,
        &format!(
            "::core::cfg_select! {{ {} {} _ => {{ ::core::compile_error!",
            arm("target_os = \"none\"", "LayoutsNoFallback", 1, 1),
            arm("test", "LayoutsNoFallback", 4, 8),
        ),
    );
}

#[test]
fn test_cfg_attr_dispatch() {
    let text = expand(LAYOUTS);
    for name in ["first", "fallback", "no_fallback", "no_fallback_get"] {
        assert_dispatches(&text, "Layouts", name, &format!("_unitrait_test_cfg_attr_{name}"));
    }
    assert_has(&text, "pub fn no_fallback_get(v: &LayoutsNoFallback) -> u64");
}

const MARKED: &str = r#"
    /// A test trait declaring opaque types with various marker bounds.
    pub trait MarkedDriver {
        #[opaque(size = 8, align = 8)]
        #[drop_symbol = "_unitrait_test_marked_bare_drop"]
        pub type Bare: Drop;

        #[opaque(size = 16, align = 8)]
        pub type All: Send + Sync + Unpin + UnwindSafe + RefUnwindSafe;

        #[opaque(size = 8, align = 8)]
        #[drop_symbol = "_unitrait_test_marked_owned_drop"]
        pub type Owned: Send + Drop;

        #[symbol = "_unitrait_test_marked_bare_new"]
        fn bare_new() -> Self::Bare;

        #[symbol = "_unitrait_test_marked_all_new"]
        fn all_new(v: u32) -> Self::All;

        #[symbol = "_unitrait_test_marked_all_get"]
        fn all_get(ctx: &Self::All) -> u32;

        #[symbol = "_unitrait_test_marked_owned_new"]
        fn owned_new(v: u32) -> Self::Owned;

        #[symbol = "_unitrait_test_marked_owned_get"]
        fn owned_get(ctx: &Self::Owned) -> u32;
    }

    pub struct Marked;

    /// Set the global implementation.
    macro test_marked_impl(path = $crate);
"#;

#[test]
fn test_bounds_do_not_change_layout() {
    let text = expand(MARKED);
    assert_has(&text, &plain_struct("MarkedBare", 8, 8));
    assert_has(&text, &plain_struct("MarkedAll", 8, 16));
    assert_has(&text, &plain_struct("MarkedOwned", 8, 8));
}

#[test]
fn test_bare_opaque_still_works_locally() {
    let text = expand(MARKED);
    assert_dispatches(&text, "Marked", "bare_new", "_unitrait_test_marked_bare_new");
    assert_dispatches(&text, "Marked", "all_new", "_unitrait_test_marked_all_new");
    assert_dispatches(&text, "Marked", "all_get", "_unitrait_test_marked_all_get");
    assert_drops_through(&text, "MarkedBare", "bare", "_unitrait_test_marked_bare_drop");
    // No bounds: no marker impl on the bare opaque struct.
    assert_lacks(&text, "for MarkedBare {}");
    assert_has(&text, "unsafe impl ::core::marker::Send for MarkedAll {}");
}

const CODEC: &str = r#"
    /// A toy byte-shifting codec.
    pub trait CodecDriver {
        #[opaque(size = 16, align = 8)]
        #[drop_symbol = "_unitrait_test_codec_encoder_drop"]
        pub type Encoder: Drop;

        #[opaque(size = 16, align = 8)]
        #[drop_symbol = "_unitrait_test_codec_decoder_drop"]
        pub type Decoder: Drop;

        #[symbol = "_unitrait_test_codec_encoder_new"]
        fn encoder_new(shift: u8) -> Self::Encoder;

        #[symbol = "_unitrait_test_codec_decoder_for"]
        fn decoder_for(enc: &Self::Encoder) -> Self::Decoder;

        #[symbol = "_unitrait_test_codec_encode"]
        fn encode(data: &mut [u8], enc: &mut Self::Encoder);

        #[symbol = "_unitrait_test_codec_decode_last"]
        fn decode_last(data: &mut [u8], dec: Self::Decoder) -> u32;

        #[symbol = "_unitrait_test_codec_encoded"]
        fn encoded(enc: &Self::Encoder) -> u32;
    }

    pub struct Codec;

    /// Set the global codec implementation.
    macro codec_impl(path = $crate);
"#;

#[test]
fn test_multiple_opaque_types() {
    let text = expand(CODEC);
    for (name, symbol) in [
        ("encoder_new", "_unitrait_test_codec_encoder_new"),
        ("decoder_for", "_unitrait_test_codec_decoder_for"),
        ("encode", "_unitrait_test_codec_encode"),
        ("decode_last", "_unitrait_test_codec_decode_last"),
        ("encoded", "_unitrait_test_codec_encoded"),
    ] {
        assert_dispatches(&text, "Codec", name, symbol);
    }
    // Opaque parameters in any position, by value and by reference.
    assert_has(&text, "pub fn encode(data: &mut [u8], enc: &mut CodecEncoder)");
    assert_has(&text, "pub fn decode_last(data: &mut [u8], dec: CodecDecoder) -> u32");
    assert_drops_through(&text, "CodecEncoder", "encoder", "_unitrait_test_codec_encoder_drop");
    assert_drops_through(&text, "CodecDecoder", "decoder", "_unitrait_test_codec_decoder_drop");
}

const SHADOW: &str = r#"
    /// A test trait defined with every relevant name shadowed.
    pub trait ShadowedDriver {
        #[opaque(size = 16, align = 8)]
        #[drop_symbol = "_unitrait_test_shadow_ctx_drop"]
        pub type Context: Send + Sync + Unpin + UnwindSafe + RefUnwindSafe + Drop;

        #[opaque(size = 4, align = 4)]
        pub type Token: Copy;

        #[symbol = "_unitrait_test_shadow_new"]
        fn shadow_new(v: u32) -> Self::Context;

        #[symbol = "_unitrait_test_shadow_bump"]
        fn shadow_bump(ctx: Pin<&mut Self::Context>) -> u32;

        #[symbol = "_unitrait_test_shadow_get"]
        fn shadow_get(ctx: Pin<&Self::Context>) -> u32;

        #[symbol = "_unitrait_test_shadow_token"]
        fn shadow_token(v: u32) -> Self::Token;

        #[symbol = "_unitrait_test_shadow_token_get"]
        fn shadow_token_get(t: Self::Token) -> u32;
    }

    pub struct Shadowed;

    /// Set the global implementation.
    macro test_shadow_impl(path = $crate);
"#;

#[test]
fn test_shadowed_names_still_dispatch() {
    let text = expand(SHADOW);
    for (name, symbol) in [
        ("shadow_new", "_unitrait_test_shadow_new"),
        ("shadow_bump", "_unitrait_test_shadow_bump"),
        ("shadow_get", "_unitrait_test_shadow_get"),
        ("shadow_token", "_unitrait_test_shadow_token"),
        ("shadow_token_get", "_unitrait_test_shadow_token_get"),
    ] {
        assert_dispatches(&text, "Shadowed", name, symbol);
    }
    // `Pin` around an opaque type is always `core`'s, whatever is in scope.
    assert_has(&text, "fn shadow_bump(ctx: ::core::pin::Pin<&mut Self::Context>) -> u32;");
    assert_has(&text, "pub fn shadow_get(ctx: ::core::pin::Pin<&ShadowedContext>) -> u32");
    assert_lacks(&text, "ctx: Pin<");
}

#[test]
fn test_shadowed_opaque_layout() {
    let text = expand(SHADOW);
    assert_has(&text, &plain_struct("ShadowedContext", 8, 16));
    assert_has(&text, &plain_struct("ShadowedToken", 4, 4));
    // Every bound is spelled by its absolute path.
    assert_has(&text, "unsafe impl ::core::marker::Send for ShadowedContext {}");
    assert_has(&text, "impl ::core::panic::RefUnwindSafe for ShadowedContext {}");
}

#[test]
fn test_array_length_alone_is_no_opaque_use() {
    // `Self` only in an array's length: no opaque type to bridge, so no composite is built.
    let src = r#"
        pub trait LenDriver {
            #[opaque(size = 8, align = 8)]
            pub type Context;
            #[symbol = "_unitrait_test_len"]
            fn len(v: [u8; Self::N]) -> u32;
        }
        pub struct Len;
        macro len_impl(path = $crate);
    "#;
    assert_eq!(
        error_of(src),
        "`Self::Name` may only be used by value, as `&Self::Name`, `&mut Self::Name`, `Pin<&Self::Name>` or `Pin<&mut Self::Name>`, or nested by value inside `Option`, `Result`, tuples and arrays: other uses cannot be bridged across the extern symbol"
    );
}

#[test]
fn test_invisible_group_with_bounds_is_one_type() {
    // `&$t` with `$t = dyn A + B` arrives as `&` and an invisible group: one type.
    let mut ts = lex("pub trait GDriver { #[symbol = \"_unitrait_test_g\"] fn g(x: &u8); } pub struct G; macro g_impl(path = $crate);");
    if let Tok::Group { body, .. } = &mut ts[3] {
        if let Tok::Group { body: args, .. } = &mut body[4] {
            // Replace `u8` with an invisible group holding `dyn Send + Sync`.
            let inner = lex("dyn Send + Sync");
            args[3] = Tok::Group { delim: Delim::Invisible, body: inner, span: 999 };
        }
    }
    let input = UnitraitInput::parse(&ts).expect("a reference to a grouped trait object is a type");
    assert_eq!(input.methods.len(), 1);
}

const CONTEXT: &str = r#"
    /// A test accumulator with caller-allocated state.
    pub trait AccumulatorDriver {
        /// Opaque storage for the accumulator state.
        #[opaque(size = 32, align = 8)]
        #[drop_symbol = "_unitrait_test_acc_drop"]
        pub type Context: Drop;

        /// Returns a fresh accumulator seeded with `seed`.
        #[symbol = "_unitrait_test_acc_init"]
        fn acc_init(seed: u64) -> Self::Context;

        /// Adds every byte of `data` to the accumulator.
        #[symbol = "_unitrait_test_acc_update"]
        fn acc_update(ctx: &mut Self::Context, data: &[u8]);

        /// Returns the accumulated value.
        #[symbol = "_unitrait_test_acc_get"]
        fn acc_get(ctx: &mut Self::Context) -> u64;
    }

    pub struct Accumulator;

    /// Set the global accumulator implementation.
    macro test_accumulator_impl(path = $crate);
"#;

#[test]
fn test_context_dispatch() {
    let text = expand(CONTEXT);
    // 32 bytes aligned to 8: the opaque struct's size and alignment are the declared ones.
    assert_has(&text, &plain_struct("AccumulatorContext", 8, 32));
    for (name, symbol) in [
        ("acc_init", "_unitrait_test_acc_init"),
        ("acc_update", "_unitrait_test_acc_update"),
        ("acc_get", "_unitrait_test_acc_get"),
    ] {
        assert_dispatches(&text, "Accumulator", name, symbol);
    }
    assert_has(&text, "pub fn acc_init(seed: u64) -> AccumulatorContext");
    assert_has(&text, "pub fn acc_update(ctx: &mut AccumulatorContext, data: &[u8])");
    assert_has(&text, "pub fn acc_get(ctx: &mut AccumulatorContext) -> u64");
    // The implementation's state is checked to fit the declared layout.
    assert_has(&text, "::core::mem::size_of::<<<__B as $crate::__AccumulatorImplementation>::Type as $crate::AccumulatorDriver>::Context>()");
}

#[test]
fn test_context_drop() {
    let text = expand(CONTEXT);
    assert_drops_through(&text, "AccumulatorContext", "context", "_unitrait_test_acc_drop");
}

const ANCHORED: &str = r#"
    /// A test trait whose state must not move once started.
    pub trait AnchoredDriver {
        /// Opaque storage for the implementation's state.
        #[opaque(size = 32, align = 8)]
        #[drop_symbol = "_unitrait_test_anchored_drop"]
        pub type State: Drop;

        #[symbol = "_unitrait_test_anchored_new"]
        fn anchored_new(v: u32) -> Self::State;

        /// Records the address the state was pinned at.
        #[symbol = "_unitrait_test_anchored_start"]
        fn anchored_start(state: Pin<&mut Self::State>);

        /// Bumps the value, checking the state hasn't moved since `anchored_start`.
        #[symbol = "_unitrait_test_anchored_bump"]
        fn anchored_bump(state: Pin<&mut Self::State>) -> u32;

        /// Reads the value through a pinned shared reference.
        #[symbol = "_unitrait_test_anchored_get"]
        fn anchored_get(state: Pin<&Self::State>) -> u32;
    }

    pub struct Anchored;

    /// Set the global implementation.
    macro test_anchored_impl(path = $crate);
"#;

#[test]
fn test_pinned_state_keeps_its_address() {
    let text = expand(ANCHORED);
    assert_has(&text, "fn anchored_start(state: ::core::pin::Pin<&mut Self::State>);");
    assert_has(&text, "pub fn anchored_start(state: ::core::pin::Pin<&mut AnchoredState>)");
    assert_has(&text, "pub fn anchored_bump(state: ::core::pin::Pin<&mut AnchoredState>) -> u32");
    // The implementation gets its value re-pinned at the very address the caller pinned.
    assert_has(
        &text,
        "let __unitrait_v: ::core::pin::Pin<&mut $crate::AnchoredState> = state; unsafe { let __unitrait_v: &mut $crate::AnchoredState = ::core::pin::Pin::get_unchecked_mut(__unitrait_v); ::core::pin::Pin::new_unchecked(&mut *(__unitrait_v as *mut $crate::AnchoredState as *mut <<__B as $crate::__AnchoredImplementation>::Type as $crate::AnchoredDriver>::State)) }",
    );
    for (name, symbol) in [
        ("anchored_new", "_unitrait_test_anchored_new"),
        ("anchored_start", "_unitrait_test_anchored_start"),
        ("anchored_bump", "_unitrait_test_anchored_bump"),
    ] {
        assert_dispatches(&text, "Anchored", name, symbol);
    }
    // Pinned values are dropped in place, through the implementation.
    assert_drops_through(&text, "AnchoredState", "state", "_unitrait_test_anchored_drop");
    // Not `Unpin`: a `Pin` of it can only be built by really pinning it.
    assert_lacks(&text, "impl ::core::marker::Unpin for AnchoredState");
}

#[test]
fn test_pinning_on_the_heap() {
    let text = expand(ANCHORED);
    assert_has(&text, "fn anchored_get(state: ::core::pin::Pin<&Self::State>) -> u32;");
    assert_has(&text, "pub fn anchored_get(state: ::core::pin::Pin<&AnchoredState>) -> u32");
    assert_has(
        &text,
        "let __unitrait_v: ::core::pin::Pin<&$crate::AnchoredState> = state; unsafe { let __unitrait_v: &$crate::AnchoredState = ::core::pin::Pin::get_ref(__unitrait_v); ::core::pin::Pin::new_unchecked(&*(__unitrait_v as *const $crate::AnchoredState as *const <<__B as $crate::__AnchoredImplementation>::Type as $crate::AnchoredDriver>::State)) }",
    );
    assert_dispatches(&text, "Anchored", "anchored_get", "_unitrait_test_anchored_get");
}

const RAW_NAMES: &str = r#"
    pub trait r#Driver {
        #[opaque(size = 8, align = 8)]
        pub type r#type;

        #[symbol = "_unitrait_test_raw_new"]
        fn raw_new() -> Self::r#type;
    }

    pub struct r#Raw;

    macro test_raw_impl(path = $crate);
"#;

#[test]
fn test_raw_identifiers_lose_their_prefix_in_derived_names() {
    let text = expand(RAW_NAMES);
    // The opaque struct and the binding trait are named from the names the raw identifiers
    // stand for.
    assert_has(&text, &plain_struct("Rawtype", 8, 8));
    assert_has(&text, "pub fn raw_new() -> Rawtype");
    assert_has(&text, "impl $crate::__RawImplementation for __UnitraitTag");
    assert_lacks(&text, "r#Rawr#type");
    assert_lacks(&text, "__r#Raw");
}
