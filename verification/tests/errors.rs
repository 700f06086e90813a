//! What the macro rejects, and with which message.

use proc_macro2::{Delimiter, Spacing, TokenStream, TokenTree};
use syn::parse::Parser;
use unitrait::expand::{expand, unitrait};
use unitrait::input::UnitraitInput;
use unitrait::out::Out;
use unitrait::tokens::{Delim, Tok};

fn to_toks(ts: TokenStream, next: &mut u64) -> Vec<Tok> {
    let mut out = Vec::new();
    for tt in ts {
        let span = *next;
        *next += 1;
        out.push(match tt {
            TokenTree::Ident(i) => Tok::Ident { text: i.to_string(), span },
            TokenTree::Punct(p) => Tok::Punct {
                ch: p.as_char(),
                joint: p.spacing() == Spacing::Joint,
                span,
            },
            TokenTree::Literal(l) => Tok::Lit { text: l.to_string(), span },
            TokenTree::Group(g) => {
                let delim = match g.delimiter() {
                    Delimiter::Parenthesis => Delim::Paren,
                    Delimiter::Brace => Delim::Brace,
                    Delimiter::Bracket => Delim::Bracket,
                    Delimiter::None => Delim::Invisible,
                };
                let body = to_toks(g.stream(), next);
                Tok::Group { delim, body, span }
            }
        });
    }
    out
}

fn lex(src: &str) -> Vec<Tok> {
    let ts: TokenStream = src.parse().expect("test input lexes");
    let mut next: u64 = 1;
    to_toks(ts, &mut next)
}

/// A whole input around the given trait items.
fn with_items(items: &str) -> String {
    format!(
        "pub trait FooDriver {{ {items} }} pub struct Foo; macro foo_impl(path = $crate);"
    )
}

/// The message of the error the macro reports for `src`.
fn error_of(src: &str) -> String {
    match UnitraitInput::parse(&lex(src)) {
        Err(e) => e.message,
        Ok(input) => match expand(&input) {
            Err(e) => e.message,
            Ok(_) => panic!("no error for: {src}"),
        },
    }
}

fn assert_error(src: &str, message: &str) {
    assert_eq!(error_of(src), message);
}

const METHOD: &str = "#[symbol = \"_ui_foo\"] fn foo() -> u32;";

const BOUND_HELP: &str = "only `Send`, `Sync`, `Unpin`, `UnwindSafe`, `RefUnwindSafe`, `Copy`, `Clone` and `Drop` are allowed as bounds on an opaque associated type, written by their bare names";
const NESTED_HELP: &str = "`Self::Name` may only be used by value, as `&Self::Name`, `&mut Self::Name`, `Pin<&Self::Name>` or `Pin<&mut Self::Name>`, or nested by value inside `Option`, `Result`, tuples and arrays: other uses cannot be bridged across the extern symbol";
const BORROW_HELP: &str = "only `Self::Name` itself may be borrowed: references to `Option`s, `Result`s, tuples, arrays or slices containing opaque associated types are not supported; pass them by value instead";
const LIFETIME_HELP: &str = "explicit lifetimes on references to opaque associated types are not supported";
const PIN_HELP: &str = "`Pin` may only be used with an opaque associated type as `Pin<&Self::Name>` or `Pin<&mut Self::Name>`";
const CFG_ATTR_HELP: &str = "expected `#[cfg_attr(predicate, opaque(size = N, align = M))]`";

/// A declaration of the opaque type `Context` with the given attributes and bounds, and a
/// method using it.
fn opaque_items(attrs: &str, bounds: &str) -> String {
    with_items(&format!(
        "{attrs} pub type Context{bounds}; #[symbol = \"_ui_new\"] fn new() -> Self::Context;"
    ))
}

#[test]
fn test_error_attribute_on_trait() {
    assert_error(
        &format!("#[derive(Debug)] {}", with_items(METHOD)),
        "unexpected attribute; expected doc comments or `#[symbol_prefix = \"...\"]`",
    );
}

#[test]
fn test_error_attribute_on_macro() {
    assert_error(
        &format!("pub trait FooDriver {{ {METHOD} }} pub struct Foo; #[macro_export] macro foo_impl(path = $crate);"),
        "only doc comments are allowed here",
    );
}

#[test]
fn test_error_attribute_on_method() {
    assert_error(
        &with_items("#[inline] #[symbol = \"_ui_foo\"] fn foo() -> u32;"),
        "unexpected attribute; expected doc comments, `#[symbol = \"...\"]`, `#[drop_symbol = \"...\"]`, `#[clone_symbol = \"...\"]`, `#[opaque(size = N, align = M)]` or `#[cfg_attr(predicate, opaque(size = N, align = M))]`",
    );
}

#[test]
fn test_error_method_missing_symbol() {
    assert_error(
        &with_items("fn foo() -> u32;"),
        "unitrait methods require a `#[symbol = \"...\"]` attribute, or a `#[symbol_prefix = \"...\"]` attribute on the trait to derive one from the method name",
    );
}

#[test]
fn test_error_duplicate_symbol_attr() {
    assert_error(
        &with_items("#[symbol = \"_a\"] #[symbol = \"_b\"] fn foo() -> u32;"),
        "duplicate `#[symbol]` attribute",
    );
}

#[test]
fn test_error_symbol_not_name_value() {
    assert_error(
        &with_items("#[symbol(\"_a\")] fn foo() -> u32;"),
        "expected `#[symbol = \"...\"]`",
    );
}

#[test]
fn test_error_symbol_not_string() {
    assert_error(&with_items("#[symbol = 5] fn foo() -> u32;"), "expected a string literal");
}

#[test]
fn test_error_self_parameter() {
    let msg = "unitrait methods must not have a `self` parameter; store state in `static`s or in an opaque associated type";
    assert_error(&with_items("#[symbol = \"_a\"] fn foo(self);"), msg);
    assert_error(&with_items("#[symbol = \"_a\"] fn foo(&self);"), msg);
    assert_error(&with_items("#[symbol = \"_a\"] fn foo(&mut self, x: u32);"), msg);
}

#[test]
fn test_error_method_visibility() {
    assert_error(
        &with_items("#[symbol = \"_a\"] pub fn foo();"),
        "unitrait methods must not have a visibility; they are as visible as the dispatch type, so set the visibility on the `struct` line instead",
    );
}

#[test]
fn test_error_type_with_equals() {
    assert_error(
        &with_items("#[opaque(size = 8, align = 4)] pub type Context = u32;"),
        "the opaque type's name is derived automatically as the dispatch type's name followed by `Context`; remove the `= ...`",
    );
}

#[test]
fn test_error_opaque_missing_attr() {
    assert_error(
        &opaque_items("", ""),
        "opaque associated types require an `#[opaque(size = N, align = M)]` attribute",
    );
}

#[test]
fn test_error_opaque_missing_align() {
    assert_error(
        &opaque_items("#[opaque(size = 8)]", ""),
        "expected `#[opaque(size = N, align = M)]`",
    );
}

#[test]
fn test_error_opaque_unknown_key() {
    assert_error(
        &opaque_items("#[opaque(size = 8, align = 4, pack = 1)]", ""),
        "expected `size` or `align`",
    );
}

#[test]
fn test_error_align_not_power_of_two() {
    assert_error(
        &opaque_items("#[opaque(size = 8, align = 3)]", ""),
        "invalid alignment value: not a power of two",
    );
    assert_error(
        &opaque_items("#[opaque(size = 8, align = 0)]", ""),
        "invalid alignment value: not a power of two",
    );
}

#[test]
fn test_error_padded_size_overflows() {
    assert_error(
        &opaque_items("#[opaque(size = 18446744073709551615, align = 8)]", ""),
        "size rounded up to a multiple of the alignment overflows `usize`",
    );
}

#[test]
fn test_error_duplicate_opaque_attr() {
    assert_error(
        &opaque_items("#[opaque(size = 8, align = 4)] #[opaque(size = 8, align = 4)]", ""),
        "duplicate `#[opaque]` attribute",
    );
}

#[test]
fn test_error_duplicate_assoc_type() {
    assert_error(
        &with_items(
            "#[opaque(size = 8, align = 4)] pub type Context; #[opaque(size = 16, align = 8)] pub type Context;",
        ),
        "duplicate associated type",
    );
}

#[test]
fn test_error_opaque_on_method() {
    assert_error(
        &with_items("#[opaque(size = 8, align = 4)] #[symbol = \"_a\"] fn foo();"),
        "`#[opaque]` is only allowed on associated type declarations",
    );
    assert_error(
        &with_items("#[cfg_attr(test, opaque(size = 8, align = 4))] #[symbol = \"_a\"] fn foo();"),
        "`#[opaque]` is only allowed on associated type declarations",
    );
}

#[test]
fn test_error_symbol_attrs_in_the_wrong_place() {
    assert_error(
        &opaque_items("#[opaque(size = 8, align = 4)] #[symbol = \"_a\"]", ""),
        "opaque associated types name their drop symbol with `#[drop_symbol = \"...\"]`; `#[symbol = \"...\"]` is only allowed on methods",
    );
    assert_error(
        &with_items("#[drop_symbol = \"_a\"] #[symbol = \"_b\"] fn foo();"),
        "`#[drop_symbol]` is only allowed on opaque associated type declarations",
    );
    assert_error(
        &with_items("#[clone_symbol = \"_a\"] #[symbol = \"_b\"] fn foo();"),
        "`#[clone_symbol]` is only allowed on opaque associated type declarations",
    );
}

#[test]
fn test_error_unknown_assoc_type() {
    assert_error(
        &with_items("#[symbol = \"_a\"] fn foo() -> Self::Missing;"),
        "the trait has no opaque associated type named `Missing`",
    );
}

#[test]
fn test_error_nested_self() {
    assert_error(
        &opaque_items("#[opaque(size = 8, align = 4)]", "").replace(
            "fn new() -> Self::Context;",
            "fn new() -> Box<Self::Context>;",
        ),
        NESTED_HELP,
    );
    assert_error(
        &opaque_items("#[opaque(size = 8, align = 4)]", "").replace(
            "fn new() -> Self::Context;",
            "fn new(v: Vec<Self::Context>);",
        ),
        NESTED_HELP,
    );
}

#[test]
fn test_error_borrowed_composite() {
    for ty in ["&Option<Self::Context>", "&[Self::Context]", "&mut [Self::Context; 4]", "&(Self::Context, u32)"] {
        assert_error(
            &opaque_items("#[opaque(size = 8, align = 4)]", "")
                .replace("fn new() -> Self::Context;", &format!("fn new(c: {ty});")),
            BORROW_HELP,
        );
    }
}

#[test]
fn test_error_opaque_ref_return() {
    assert_error(
        &opaque_items("#[opaque(size = 8, align = 4)]", "")
            .replace("fn new() -> Self::Context;", "fn new() -> Option<&Self::Context>;"),
        "references to opaque associated types are not supported in return position",
    );
}

#[test]
fn test_error_opaque_ref_lifetime() {
    assert_error(
        &opaque_items("#[opaque(size = 8, align = 4)]", "")
            .replace("fn new() -> Self::Context;", "fn new(c: &'static Self::Context);"),
        LIFETIME_HELP,
    );
    assert_error(
        &opaque_items("#[opaque(size = 8, align = 4)]", "")
            .replace("fn new() -> Self::Context;", "fn new(c: Pin<&'static mut Self::Context>);"),
        LIFETIME_HELP,
    );
}

#[test]
fn test_error_pin_misuse() {
    for ty in ["Pin<Self::Context>", "Pin<&Option<Self::Context>>", "Pin<&Self::Context, u32>"] {
        assert_error(
            &opaque_items("#[opaque(size = 8, align = 4)]", "")
                .replace("fn new() -> Self::Context;", &format!("fn new(c: {ty});")),
            PIN_HELP,
        );
    }
}

#[test]
fn test_error_wrapper_arguments() {
    assert_error(
        &opaque_items("#[opaque(size = 8, align = 4)]", "")
            .replace("fn new() -> Self::Context;", "fn new(c: Option<Self::Context, u32>);"),
        "`Option` takes exactly one type argument: around an opaque associated type it always means `core::option::Option`",
    );
    assert_error(
        &opaque_items("#[opaque(size = 8, align = 4)]", "")
            .replace("fn new() -> Self::Context;", "fn new(c: Result<Self::Context>);"),
        "`Result` must be written with both of its type arguments: around an opaque associated type it always means `core::result::Result`",
    );
}

#[test]
fn test_error_qualified_wrapper() {
    assert_error(
        &opaque_items("#[opaque(size = 8, align = 4)]", "")
            .replace("fn new() -> Self::Context;", "fn new(c: core::option::Option<Self::Context>);"),
        "write `Option` by its bare name: around an opaque associated type it always means `core::option::Option`",
    );
    assert_error(
        &opaque_items("#[opaque(size = 8, align = 4)]", "")
            .replace("fn new() -> Self::Context;", "fn new(c: ::core::pin::Pin<&Self::Context>);"),
        "write `Pin` by its bare name: around an opaque associated type it always means `core::pin::Pin`",
    );
}

#[test]
fn test_error_bad_path_keyword() {
    assert_error(
        &format!("pub trait FooDriver {{ {METHOD} }} pub struct Foo; macro foo_impl(paths = $crate);"),
        "expected `path = ...`",
    );
}

#[test]
fn test_error_empty_path() {
    assert_error(
        &format!("pub trait FooDriver {{ {METHOD} }} pub struct Foo; macro foo_impl(path = );"),
        "unexpected end of input, expected a path starting with `$crate`",
    );
}

#[test]
fn test_error_missing_struct_line() {
    assert_error(
        &format!("pub trait FooDriver {{ {METHOD} }} macro foo_impl(path = $crate);"),
        "expected `struct NAME;`, naming the dispatch type callers use to reach the global implementation",
    );
}

#[test]
fn test_error_dispatch_named_like_trait() {
    assert_error(
        &format!("pub trait Foo {{ {METHOD} }} pub struct Foo; macro foo_impl(path = $crate);"),
        "the dispatch type can't have the same name as the trait",
    );
}

#[test]
fn test_error_bounds() {
    assert_error(
        &opaque_items("#[opaque(size = 8, align = 4)]", ": Send + Sync + Send"),
        "duplicate `Send` bound",
    );
    assert_error(
        &opaque_items("#[opaque(size = 8, align = 4)] #[drop_symbol = \"_d\"]", ": Drop + Drop"),
        "duplicate `Drop` bound",
    );
    for bounds in [": 'static + Drop", ": core::marker::Send", ": ?Sized", ": Debug", ": Send<u8>", ": ::Send"] {
        assert_error(&opaque_items("#[opaque(size = 8, align = 4)]", bounds), BOUND_HELP);
    }
}

#[test]
fn test_error_exclusive_bounds() {
    assert_error(
        &opaque_items("#[opaque(size = 8, align = 4)]", ": Copy + Drop"),
        "`Copy` and `Drop` are mutually exclusive: a `Copy` type never has drop glue",
    );
    assert_error(
        &opaque_items("#[opaque(size = 8, align = 4)] #[clone_symbol = \"_c\"]", ": Copy + Clone"),
        "`Copy` and `Clone` are mutually exclusive: a `Copy` opaque type already implements `Clone` by copying its bytes",
    );
}

#[test]
fn test_error_symbols_and_bounds_disagree() {
    assert_error(
        &opaque_items("#[opaque(size = 8, align = 4)]", ": Drop"),
        "an opaque associated type with a `Drop` bound requires a `#[drop_symbol = \"...\"]` attribute naming the extern symbol for dropping the value in place, or a `#[symbol_prefix = \"...\"]` attribute on the trait to derive one",
    );
    assert_error(
        &opaque_items("#[opaque(size = 8, align = 4)] #[drop_symbol = \"_d\"]", ""),
        "an opaque associated type without a `Drop` bound has no drop glue, so it must not have a `#[drop_symbol = \"...\"]` attribute; add a `Drop` bound to give it one",
    );
    assert_error(
        &opaque_items("#[opaque(size = 8, align = 4)]", ": Clone"),
        "an opaque associated type with a `Clone` bound requires a `#[clone_symbol = \"...\"]` attribute naming the extern symbol for cloning the value, or a `#[symbol_prefix = \"...\"]` attribute on the trait to derive one",
    );
    assert_error(
        &opaque_items("#[opaque(size = 8, align = 4)] #[clone_symbol = \"_c\"]", ""),
        "an opaque associated type without a `Clone` bound can't be cloned, so it must not have a `#[clone_symbol = \"...\"]` attribute; add a `Clone` bound to give it one",
    );
}

#[test]
fn test_error_duplicate_symbol_attrs() {
    assert_error(
        &format!("#[symbol_prefix = \"_a\"] #[symbol_prefix = \"_b\"] {}", with_items(METHOD)),
        "duplicate `#[symbol_prefix]` attribute",
    );
    assert_error(
        &opaque_items("#[opaque(size = 8, align = 4)] #[drop_symbol = \"_a\"] #[drop_symbol = \"_b\"]", ": Drop"),
        "duplicate `#[drop_symbol]` attribute",
    );
    assert_error(
        &opaque_items("#[opaque(size = 8, align = 4)] #[clone_symbol = \"_a\"] #[clone_symbol = \"_b\"]", ": Clone"),
        "duplicate `#[clone_symbol]` attribute",
    );
}

#[test]
fn test_error_cfg_attr_misuse() {
    assert_error(
        &opaque_items("#[opaque(size = 8, align = 4)] #[cfg_attr(all(), opaque(size = 16, align = 8))]", ""),
        "this `#[opaque]` can never apply: the unconditional `#[opaque]` attribute above it always applies first; move it above",
    );
    assert_error(
        &opaque_items("#[cfg_attr(test, symbol = \"_a\")]", ""),
        "only `opaque(size = N, align = M)` may be placed under `cfg_attr`",
    );
    // The predicate alone: the arguments end where a `,` was expected.
    assert_error(&opaque_items("#[cfg_attr(test)]", ""), &format!("unexpected end of input, {CFG_ATTR_HELP}"));
    assert_error(&opaque_items("#[cfg_attr(test,)]", ""), CFG_ATTR_HELP);
    assert_error(
        &opaque_items("#[cfg_attr(test, opaque(size = 8, align = 4), opaque(size = 8, align = 4))]", ""),
        "duplicate `#[opaque]` attribute",
    );
}

#[test]
fn test_error_keyword_as_name() {
    assert_error(
        &format!("pub trait FooDriver {{ {METHOD} }} pub struct fn; macro foo_impl(path = $crate);"),
        "expected identifier, found keyword `fn`",
    );
}

#[test]
fn test_errors_become_compile_errors() {
    let out = unitrait(&lex(&with_items("fn foo() -> u32;")));
    assert_eq!(out.len(), 2);
    assert!(matches!(&out[0], Out::Text(t, _) if *t == "::core::compile_error!"));
    match &out[1] {
        Out::Group(Delim::Brace, body, _) => {
            assert_eq!(body.len(), 1);
            assert!(matches!(&body[0], Out::Str(m, _) if m.starts_with("unitrait methods require")));
        }
        _ => panic!("expected the message in braces"),
    }
}

#[test]
fn test_error_spans_point_at_the_culprit() {
    // The missing symbol is reported at the method's name.
    let toks = lex(&with_items("fn foo() -> u32;"));
    let name_span = match &toks[3] {
        Tok::Group { body, .. } => match &body[1] {
            Tok::Ident { text, span } if text == "foo" => *span,
            _ => panic!("the method's name"),
        },
        _ => panic!("the trait's body"),
    };
    match UnitraitInput::parse(&toks) {
        Err(e) => assert_eq!(e.span, name_span),
        Ok(_) => panic!("a method without a symbol is rejected"),
    }
}

#[test]
fn test_error_opaque_argument_syntax() {
    assert_error(&opaque_items("#[opaque(size 8, align = 4)]", ""), "expected `=`");
    assert_error(&opaque_items("#[opaque(size = x, align = 4)]", ""), "expected integer literal");
    assert_error(&opaque_items("#[opaque(size = , align = 4)]", ""), "expected integer literal");
    assert_error(&opaque_items("#[opaque(size = 8 align = 4)]", ""), "expected `,`");
    assert_error(&opaque_items("#[opaque(= 8, align = 4)]", ""), "expected identifier");
    assert_error(
        &opaque_items("#[opaque(size = 8, align = 99999999999999999999999)]", ""),
        "number too large to fit in target type",
    );
    // A trailing comma is allowed, and the last entry of a key wins.
    let src = opaque_items("#[opaque(size = 8, size = 16, align = 4,)]", "");
    let input = UnitraitInput::parse(&lex(&src)).expect("parses");
    assert_eq!(input.opaques[0].layouts[0].size, 16);
    assert_eq!(input.opaques[0].layouts[0].padded_size, 16);
}

#[test]
fn test_error_first_error_wins() {
    // The item error comes before the later line's.
    assert_error(
        "pub trait FooDriver { fn foo() -> u32; } pub struct FooDriver; macro foo_impl(path = $crate);",
        "unitrait methods require a `#[symbol = \"...\"]` attribute, or a `#[symbol_prefix = \"...\"]` attribute on the trait to derive one from the method name",
    );
    // A trailing token after the macro line.
    assert_error(
        &format!("pub trait FooDriver {{ {METHOD} }} pub struct Foo; macro foo_impl(path = $crate); x"),
        "unexpected token",
    );
}

#[test]
fn test_error_cfg_attr_after_unconditional_reads_its_contents_first() {
    // What stands under the predicate is checked before its place is.
    assert_error(
        &opaque_items("#[opaque(size = 8, align = 4)] #[cfg_attr(all(), symbol = \"_a\")]", ""),
        "only `opaque(size = N, align = M)` may be placed under `cfg_attr`",
    );
    assert_error(
        &opaque_items("#[opaque(size = 8, align = 4)] #[cfg_attr(all())]", ""),
        &format!("unexpected end of input, {CFG_ATTR_HELP}"),
    );
    // And the misplaced layout is reported at its `opaque`, not at the `#`.
    let src = opaque_items("#[opaque(size = 8, align = 4)] #[cfg_attr(all(), opaque(size = 16, align = 8))]", "");
    let toks = lex(&src);
    let e = match UnitraitInput::parse(&toks) {
        Err(e) => e,
        Ok(_) => panic!("no error"),
    };
    // Tokens: `pub trait FooDriver {` then, inside the braces, `#` and `[opaque(...)]`,
    // `#` and `[cfg_attr(all(), opaque(...))]`: the span of `opaque` inside the latter.
    let Tok::Group { body, .. } = &toks[3] else { panic!("trait body") };
    let Tok::Group { body: attr, .. } = &body[3] else { panic!("attribute") };
    let Tok::Group { body: args, .. } = &attr[1] else { panic!("arguments") };
    let Tok::Ident { span, .. } = &args[3] else { panic!("opaque") };
    assert_eq!(e.span, *span);
}

#[test]
fn test_error_malformed_type_reports_syns_message() {
    // Where no type can be read at all, `syn`'s own message, as it reads the slot and the
    // token after it.
    let message = |text: &str| match syn::parse_str::<syn::Type>(text) {
        Err(e) => e.to_string(),
        Ok(_) => panic!("not a type"),
    };
    assert_error(&with_items("#[symbol = \"_ui_foo\"] fn foo(x: + u8);"), &message("+ u8"));
    assert_error(&with_items("#[symbol = \"_ui_foo\"] fn foo() -> + u8;"), &message("+ u8 ;"));
    assert_error(&with_items("#[symbol = \"_ui_foo\"] fn foo(x: , y: u8);"), &message(","));
}

#[test]
fn test_error_type_followed_by_more_tokens() {
    // A type is read, and then the separator is expected where it is not.
    assert_error(&with_items("#[symbol = \"_ui_foo\"] fn foo(x: u8 u8);"), "expected `,`");
    assert_error(&with_items("#[symbol = \"_ui_foo\"] fn foo(x: Vec<u8> u8, y: u8);"), "expected `,`");
    assert_error(&with_items("#[symbol = \"_ui_foo\"] fn foo() -> u8 u8;"), "expected `;`");
    // The error points at the token after the type.
    let toks = lex(&with_items("#[symbol = \"_ui_foo\"] fn foo(x: u8 u16);"));
    let Tok::Group { body, .. } = &toks[3] else { panic!("trait body") };
    let Tok::Group { body: args, .. } = &body[4] else { panic!("parameters") };
    let Tok::Ident { span, .. } = &args[3] else { panic!("u16") };
    match UnitraitInput::parse(&toks) {
        Err(e) => assert_eq!(e.span, *span),
        Ok(_) => panic!("no error"),
    }
}

#[test]
fn test_error_bound_list_syntax() {
    let message = |text: &str| match syn::parse_str::<syn::TypeParamBound>(text) {
        Err(e) => e.to_string(),
        Ok(_) => panic!("not a bound"),
    };
    // Two bounds without `+` between them: the list ends after the first.
    assert_error(&opaque_items("#[opaque(size = 8, align = 4)]", ": Send Sync"), "expected `;`");
    // No bound after the `:` or after a `+`: `syn`'s message.
    assert_error(&opaque_items("#[opaque(size = 8, align = 4)]", ":"), &message(";"));
    assert_error(&opaque_items("#[opaque(size = 8, align = 4)]", ": Send +"), &message(";"));
    // The whole list is read before any bound is looked at.
    assert_error(&opaque_items("#[opaque(size = 8, align = 4)]", ": Debug + Send Sync"), BOUND_HELP);
    assert_error(&opaque_items("#[opaque(size = 8, align = 4)]", ": Debug + +"), &message("+"));
    // A bare name in parentheses is that name.
    let src = opaque_items("#[opaque(size = 8, align = 4)]", ": (Send) + Sync");
    let input = UnitraitInput::parse(&lex(&src)).expect("parses");
    assert_eq!(input.opaques[0].bounds.len(), 2);
}

#[test]
fn test_error_restricted_visibility_path() {
    let src = |vis: &str| {
        format!("{vis} trait FooDriver {{ {METHOD} }} pub struct Foo; macro foo_impl(path = $crate);")
    };
    // Where the group ends too early, the message says so.
    assert_error(&src("pub(in)"), "unexpected end of input, expected identifier");
    assert_error(&src("pub(in 1)"), "expected identifier");
    assert_error(&src("pub(in fn)"), "expected identifier, found keyword `fn`");
    assert_error(&src("pub(in crate::)"), "unexpected end of input, expected path segment after `::`");
    assert_error(&src("pub(in ::)"), "unexpected end of input, expected identifier");
    // A path is read as far as it goes; what is left in the group is reported once the
    // rest of the input has been read, and only if nothing else is wrong.
    assert_error(&src("pub(in crate::a b)"), "unexpected token, expected `)`");
    assert_error(
        "pub(in crate::a b) trait FooDriver { fn foo() -> u32; } pub struct Foo; macro foo_impl(path = $crate);",
        "unitrait methods require a `#[symbol = \"...\"]` attribute, or a `#[symbol_prefix = \"...\"]` attribute on the trait to derive one from the method name",
    );
    // Before the token after the input's end.
    assert_error(&format!("{} x", src("pub(in crate::a b)")), "unexpected token, expected `)`");
    // The same on the dispatch type's line and on a declaration.
    assert_error(
        &format!("pub trait FooDriver {{ {METHOD} }} pub(in super b) struct Foo; macro foo_impl(path = $crate);"),
        "unexpected token, expected `)`",
    );
    assert_error(
        &with_items(&format!("#[opaque(size = 8, align = 4)] pub(in self::x y) type Context; {METHOD}")),
        "unexpected token, expected `)`",
    );
    // Any of these paths is accepted.
    for vis in ["pub(in crate)", "pub(in ::a::b)", "pub(in self::Self)", "pub(in super::super)", "pub(crate)"] {
        UnitraitInput::parse(&lex(&src(vis))).expect("a restricted visibility");
    }
}

/// The tokens of `before`, an invisible group holding `held`, then `after`, as a
/// `macro_rules!` expansion of a `$vis` fragment leaves them.
fn lex_with_group(before: &str, held: &str, after: &str) -> Vec<Tok> {
    let mut ts: TokenStream = before.parse().expect("lexes");
    let inner: TokenStream = held.parse().expect("lexes");
    ts.extend([TokenTree::Group(proc_macro2::Group::new(Delimiter::None, inner))]);
    ts.extend(after.parse::<TokenStream>().expect("lexes"));
    let mut next: u64 = 1;
    to_toks(ts, &mut next)
}

/// A whole input whose trait body holds `before`, an invisible group holding `held`, then
/// `after`.
fn lex_body_with_group(before: &str, held: &str, after: &str) -> Vec<Tok> {
    let mut body: TokenStream = before.parse().expect("lexes");
    let inner: TokenStream = held.parse().expect("lexes");
    body.extend([TokenTree::Group(proc_macro2::Group::new(Delimiter::None, inner))]);
    body.extend(after.parse::<TokenStream>().expect("lexes"));
    let mut ts: TokenStream = "pub trait FooDriver".parse().expect("lexes");
    ts.extend([TokenTree::Group(proc_macro2::Group::new(Delimiter::Brace, body))]);
    ts.extend("pub struct Foo; macro foo_impl(path = $crate);".parse::<TokenStream>().expect("lexes"));
    let mut next: u64 = 1;
    to_toks(ts, &mut next)
}

#[test]
fn test_visibility_in_an_invisible_group() {
    let rest = "struct Foo; macro foo_impl(path = $crate);";
    let body = format!("trait FooDriver {{ {METHOD} }}");
    // The trait's visibility, and the dispatch type's.
    let u = UnitraitInput::parse(&lex_with_group("", "pub(crate)", &format!("{body} pub {rest}")))
        .expect("a visibility in a group");
    assert_eq!(u.vis.len(), 1);
    let u = UnitraitInput::parse(&lex_with_group(&format!("pub {body}"), "", rest)).expect("no visibility");
    assert_eq!(u.dispatch_vis.len(), 1);
    // An empty group before a method is no visibility; `pub` in one is.
    let u = UnitraitInput::parse(&lex_body_with_group(
        "#[symbol = \"_ui_foo\"] fn foo() -> u32; #[symbol = \"_ui_bar\"]",
        "",
        "fn bar();",
    ))
    .expect("an empty visibility");
    assert_eq!(u.methods.len(), 2);
    match UnitraitInput::parse(&lex_body_with_group("#[symbol = \"_ui_bar\"]", "pub", "fn bar();")) {
        Err(e) => assert_eq!(
            e.message,
            "unitrait methods must not have a visibility; they are as visible as the dispatch type, so set the visibility on the `struct` line instead"
        ),
        Ok(_) => panic!("a method with a visibility"),
    }
}

/// A whole input whose trait body holds `before`, an attribute whose brackets hold an
/// invisible group holding `held` (as `#[$m:meta]` leaves one), then `after`.
fn lex_body_with_attr(before: &str, held: &str, after: &str) -> Vec<Tok> {
    let mut body: TokenStream = before.parse().expect("lexes");
    let inner: TokenStream = held.parse().expect("lexes");
    let group = TokenTree::Group(proc_macro2::Group::new(Delimiter::None, inner));
    body.extend("#".parse::<TokenStream>().expect("lexes"));
    body.extend([TokenTree::Group(proc_macro2::Group::new(Delimiter::Bracket, group.into()))]);
    body.extend(after.parse::<TokenStream>().expect("lexes"));
    let mut ts: TokenStream = "pub trait FooDriver".parse().expect("lexes");
    ts.extend([TokenTree::Group(proc_macro2::Group::new(Delimiter::Brace, body))]);
    ts.extend("pub struct Foo; macro foo_impl(path = $crate);".parse::<TokenStream>().expect("lexes"));
    let mut next: u64 = 1;
    to_toks(ts, &mut next)
}

#[test]
fn test_attributes_in_an_invisible_group() {
    let u = UnitraitInput::parse(&lex_body_with_attr("", "symbol = \"_ui_held\"", "fn foo() -> u32;"))
        .expect("a symbol in a group");
    assert_eq!(u.methods[0].symbol.value, "_ui_held");
    let u = UnitraitInput::parse(&lex_body_with_attr(
        "",
        "opaque(size = 12, align = 4)",
        "pub type Context; #[symbol = \"_ui_new\"] fn new() -> Self::Context;",
    ))
    .expect("a layout in a group");
    assert_eq!(u.opaques[0].layouts[0].padded_size, 12);
    let u = UnitraitInput::parse(&lex_body_with_attr("", "doc = \"held\"", METHOD)).expect("a doc comment in a group");
    assert_eq!(u.methods[0].docs.len(), 1);
    match UnitraitInput::parse(&lex_body_with_attr("", "symbol = 1", "fn foo() -> u32;")) {
        Err(e) => assert_eq!(e.message, "expected a string literal"),
        Ok(_) => panic!("a symbol that is no string"),
    }
}

#[test]
fn test_error_end_of_input() {
    // Where the tokens run out, the parser says so.
    assert_error("pub trait FooDriver", "unexpected end of input, expected curly braces");
    assert_error(
        &format!("pub trait FooDriver {{ {METHOD} }}"),
        "unexpected end of input, expected `struct NAME;`, naming the dispatch type callers use to reach the global implementation",
    );
    assert_error(&with_items("#[symbol = \"_ui_foo\"] fn foo() -> u32"), "unexpected end of input, expected `;`");
    assert_error(&with_items("#[symbol = \"_ui_foo\"] fn"), "unexpected end of input, expected identifier");
    assert_error(&opaque_items("#[opaque(size =)]", ""), "unexpected end of input, expected integer literal");
    assert_error(&opaque_items("#[opaque(size)]", ""), "unexpected end of input, expected `=`");
    // Not where a token stands.
    assert_error(&with_items("#[symbol = \"_ui_foo\"] fn foo() -> u32 fn"), "expected `;`");
}

#[test]
fn test_error_cfg_attr_reads_every_entry_first() {
    let message = |text: &str| {
        match syn::punctuated::Punctuated::<syn::Meta, syn::token::Comma>::parse_terminated.parse_str(text) {
            Err(e) => e.to_string(),
            Ok(_) => panic!("well formed"),
        }
    };
    // A malformed entry is reported before an earlier entry that is not allowed there.
    assert_error(&opaque_items("#[cfg_attr(test, symbol = \"_a\", 1)]", ""), &message("symbol = \"_a\", 1"));
    assert_error(
        &opaque_items("#[cfg_attr(test, opaque(size = 8, align = 4) x)]", ""),
        &message("opaque(size = 8, align = 4) x"),
    );
    // Well-formed entries are then looked at in order.
    assert_error(
        &opaque_items("#[cfg_attr(test, symbol = \"_a\", opaque(size = 8, align = 4))]", ""),
        "only `opaque(size = N, align = M)` may be placed under `cfg_attr`",
    );
}
