//! The marker traits an opaque associated type may declare as bounds.
use vstd::prelude::*;

verus! {

/// A marker trait that may be declared as a bound on an opaque associated type.
#[derive(Clone, Copy, Debug, PartialEq, Eq, Structural)]
pub enum Marker {
    Send,
    Sync,
    Unpin,
    UnwindSafe,
    RefUnwindSafe,
    Copy,
    Clone,
}

/// The bare name a marker is written by.
pub open spec fn marker_name(m: Marker) -> Seq<char> {
    match m {
        Marker::Send => "Send"@,
        Marker::Sync => "Sync"@,
        Marker::Unpin => "Unpin"@,
        Marker::UnwindSafe => "UnwindSafe"@,
        Marker::RefUnwindSafe => "RefUnwindSafe"@,
        Marker::Copy => "Copy"@,
        Marker::Clone => "Clone"@,
    }
}

/// The marker written by the bare name `s`, if any.
pub open spec fn marker_named(s: Seq<char>) -> Option<Marker> {
    if s == "Send"@ {
        Some(Marker::Send)
    } else if s == "Sync"@ {
        Some(Marker::Sync)
    } else if s == "Unpin"@ {
        Some(Marker::Unpin)
    } else if s == "UnwindSafe"@ {
        Some(Marker::UnwindSafe)
    } else if s == "RefUnwindSafe"@ {
        Some(Marker::RefUnwindSafe)
    } else if s == "Copy"@ {
        Some(Marker::Copy)
    } else if s == "Clone"@ {
        Some(Marker::Clone)
    } else {
        None
    }
}

/// The absolute path of the `core` trait a marker means, as the segments after `::core::`.
pub open spec fn marker_module(m: Marker) -> Seq<char> {
    match m {
        Marker::UnwindSafe | Marker::RefUnwindSafe => "panic"@,
        Marker::Clone => "clone"@,
        _ => "marker"@,
    }
}

impl Marker {
    /// The marker written by the bare name `text`, if any.
    pub fn from_ident(text: &String) -> (r: Option<Marker>)
        ensures
            r == marker_named(text@),
    {
        if crate::tokens::text_eq(text, "Send") {
            Some(Marker::Send)
        } else if crate::tokens::text_eq(text, "Sync") {
            Some(Marker::Sync)
        } else if crate::tokens::text_eq(text, "Unpin") {
            Some(Marker::Unpin)
        } else if crate::tokens::text_eq(text, "UnwindSafe") {
            Some(Marker::UnwindSafe)
        } else if crate::tokens::text_eq(text, "RefUnwindSafe") {
            Some(Marker::RefUnwindSafe)
        } else if crate::tokens::text_eq(text, "Copy") {
            Some(Marker::Copy)
        } else if crate::tokens::text_eq(text, "Clone") {
            Some(Marker::Clone)
        } else {
            None
        }
    }

    /// The bare name the marker is written by.
    pub fn name(self) -> (r: &'static str)
        ensures
            r@ == marker_name(self),
    {
        match self {
            Marker::Send => "Send",
            Marker::Sync => "Sync",
            Marker::Unpin => "Unpin",
            Marker::UnwindSafe => "UnwindSafe",
            Marker::RefUnwindSafe => "RefUnwindSafe",
            Marker::Copy => "Copy",
            Marker::Clone => "Clone",
        }
    }

    /// The module of `core` that defines the marker's trait.
    pub fn module(self) -> (r: &'static str)
        ensures
            r@ == marker_module(self),
    {
        match self {
            Marker::UnwindSafe | Marker::RefUnwindSafe => "panic",
            Marker::Clone => "clone",
            _ => "marker",
        }
    }
}

/// The names of the markers are told apart, so each marker is read back from its name.
pub proof fn lemma_marker_name_roundtrip(m: Marker)
    ensures
        marker_named(marker_name(m)) == Some(m),
{
    reveal_strlit("Send");
    reveal_strlit("Sync");
    reveal_strlit("Unpin");
    reveal_strlit("UnwindSafe");
    reveal_strlit("RefUnwindSafe");
    reveal_strlit("Copy");
    reveal_strlit("Clone");
    assert("Sync"@ != "Send"@) by { assert("Sync"@[1] != "Send"@[1]); }
    assert("Copy"@ != "Send"@) by { assert("Copy"@[0] != "Send"@[0]); }
    assert("Copy"@ != "Sync"@) by { assert("Copy"@[0] != "Sync"@[0]); }
    assert("Clone"@ != "Unpin"@) by { assert("Clone"@[0] != "Unpin"@[0]); }
    assert("Send"@.len() == 4 && "Sync"@.len() == 4 && "Copy"@.len() == 4);
    assert("Unpin"@.len() == 5 && "Clone"@.len() == 5);
    assert("UnwindSafe"@.len() == 10 && "RefUnwindSafe"@.len() == 13);
}

} // verus!
