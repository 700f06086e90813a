//! The library's smaller pieces, on concrete values.

use unitrait::attrs::{checked_next_multiple, is_power_of_two};
use unitrait::bridge::{append_decimal, tuple_name};
use unitrait::marker::Marker;
use unitrait::tokens::{find_top, Delim, Tok};

const MARKERS: [(Marker, &str, &str); 7] = [
    (Marker::Send, "Send", "marker"),
    (Marker::Sync, "Sync", "marker"),
    (Marker::Unpin, "Unpin", "marker"),
    (Marker::UnwindSafe, "UnwindSafe", "panic"),
    (Marker::RefUnwindSafe, "RefUnwindSafe", "panic"),
    (Marker::Copy, "Copy", "marker"),
    (Marker::Clone, "Clone", "clone"),
];

#[test]
fn test_marker_names_round_trip() {
    for (m, name, module) in MARKERS {
        assert_eq!(m.name(), name);
        assert_eq!(m.module(), module);
        assert_eq!(Marker::from_ident(&name.to_string()), Some(m));
    }
    for other in ["Drop", "send", "Sized", "", "core::marker::Send"] {
        assert_eq!(Marker::from_ident(&other.to_string()), None);
    }
}

#[test]
fn test_powers_of_two() {
    for n in [1usize, 2, 4, 8, 16, 4096, 1 << 40] {
        assert!(is_power_of_two(n), "{n}");
    }
    for n in [0usize, 3, 5, 6, 12, 4095, usize::MAX] {
        assert!(!is_power_of_two(n), "{n}");
    }
}

#[test]
fn test_padded_sizes() {
    assert_eq!(checked_next_multiple(32, 8), Some(32));
    assert_eq!(checked_next_multiple(30, 8), Some(32));
    assert_eq!(checked_next_multiple(1, 16), Some(16));
    assert_eq!(checked_next_multiple(0, 4), Some(0));
    assert_eq!(checked_next_multiple(17, 1), Some(17));
    assert_eq!(checked_next_multiple(usize::MAX, 1), Some(usize::MAX));
    assert_eq!(checked_next_multiple(usize::MAX, 8), None);
    assert_eq!(checked_next_multiple(usize::MAX - 6, 8), None);
    assert_eq!(checked_next_multiple(usize::MAX - 7, 8), Some(usize::MAX - 7));
}

#[test]
fn test_decimal_names() {
    assert_eq!(tuple_name(0), "__unitrait_t0");
    assert_eq!(tuple_name(7), "__unitrait_t7");
    assert_eq!(tuple_name(12), "__unitrait_t12");
    let mut s = String::from("n=");
    append_decimal(&mut s, 1_000_507);
    assert_eq!(s, "n=1000507");
    let mut s = String::new();
    append_decimal(&mut s, usize::MAX);
    assert_eq!(s, usize::MAX.to_string());
}

fn punct(ch: char, joint: bool) -> Tok {
    Tok::Punct { ch, joint, span: 0 }
}

fn ident(text: &str) -> Tok {
    Tok::Ident { text: text.to_string(), span: 0 }
}

#[test]
fn test_separators_outside_angle_brackets() {
    // `Result<u32, u8>, x -> y` : the comma inside the brackets doesn't count.
    let ts = vec![
        ident("Result"),
        punct('<', false),
        ident("u32"),
        punct(',', false),
        ident("u8"),
        punct('>', false),
        punct(',', false),
        ident("x"),
    ];
    assert_eq!(find_top(&ts, 0, ts.len(), ',', ';'), 6);
    assert_eq!(find_top(&ts, 2, 5, ',', ';'), 3);
    assert_eq!(find_top(&ts, 7, ts.len(), ',', ';'), 8);
    // The `>` of `->` closes nothing.
    let ts = vec![
        ident("Fn"),
        punct('<', false),
        punct('-', true),
        punct('>', false),
        punct(',', false),
        punct('>', false),
        punct(';', false),
    ];
    assert_eq!(find_top(&ts, 0, ts.len(), ',', ';'), 6);
    // A group is one token, whatever it holds.
    let ts = vec![
        Tok::Group { delim: Delim::Paren, body: vec![punct(',', false)], span: 0 },
        punct(';', false),
    ];
    assert_eq!(find_top(&ts, 0, ts.len(), ',', ';'), 1);
}
