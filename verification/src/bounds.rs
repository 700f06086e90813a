//! The `: Send + Sync + Drop` bounds of an opaque associated type.
use vstd::prelude::*;

use crate::marker::{Marker, marker_name, marker_named};
use crate::out::Error;
use crate::syntax::{
    Grammar, bound_message, bound_message_of, lemma_prefix_end, longest_prefix, prefix_end, toks_text,
    with_next, with_next_exec,
};
use crate::tokens::{Delim, Tok, find_top, span_at, span_at_exec, span_of, tok_span};

verus! {

/// The parsed bounds of an opaque associated type declaration.
#[derive(Debug)]
pub struct Bounds {
    /// The marker traits, emitted both as bounds on the associated type and as `impl`s on
    /// the opaque struct.
    pub markers: Vec<Marker>,
    /// Where the `Drop` bound was written, if it was. Unlike the markers it is not a trait
    /// bound: it declares that the opaque struct has drop glue.
    pub drop_bound: Option<u64>,
    /// Where the `Clone` marker was written, if it was.
    pub clone_bound: Option<u64>,
}

pub open spec fn bound_help() -> Seq<char> {
    "only `Send`, `Sync`, `Unpin`, `UnwindSafe`, `RefUnwindSafe`, `Copy`, `Clone` and `Drop` are allowed as bounds on an opaque associated type, written by their bare names"@
}

/// The text of the identifier `t`; empty for any other token.
pub open spec fn ident_text(t: Tok) -> Seq<char> {
    match t {
        Tok::Ident { text, .. } => text@,
        _ => Seq::empty(),
    }
}

/// `Copy` excludes both `Drop` and `Clone`.
pub open spec fn bounds_exclusive(b: Bounds) -> bool {
    &&& b.drop_bound is Some ==> !b.markers@.contains(Marker::Copy)
    &&& b.clone_bound is Some ==> !b.markers@.contains(Marker::Copy)
}

proof fn lemma_names_differ()
    ensures
        "Drop"@ != "Send"@,
        "Drop"@ != "Sync"@,
        "Drop"@ != "Unpin"@,
        "Drop"@ != "UnwindSafe"@,
        "Drop"@ != "RefUnwindSafe"@,
        "Drop"@ != "Copy"@,
        "Drop"@ != "Clone"@,
        marker_named("Drop"@) is None,
        marker_named("Clone"@) == Some(Marker::Clone),
{
    reveal_strlit("Drop");
    reveal_strlit("Send");
    reveal_strlit("Sync");
    reveal_strlit("Unpin");
    reveal_strlit("UnwindSafe");
    reveal_strlit("RefUnwindSafe");
    reveal_strlit("Copy");
    reveal_strlit("Clone");
    assert("Drop"@[0] != "Send"@[0]);
    assert("Drop"@[0] != "Sync"@[0]);
    assert("Drop"@[0] != "Copy"@[0]);
    assert("Drop"@.len() == 4 && "Clone"@.len() == 5 && "Unpin"@.len() == 5);
    assert("UnwindSafe"@.len() == 10 && "RefUnwindSafe"@.len() == 13);
    crate::marker::lemma_marker_name_roundtrip(Marker::Clone);
}

/// Whether the markers contain `m`.
fn has_marker(ms: &Vec<Marker>, m: Marker) -> (r: bool)
    ensures
        r == ms@.contains(m),
{
    let mut i: usize = 0;
    while i < ms.len()
        invariant
            i <= ms.len(),
            forall|j: int| 0 <= j < i ==> ms@[j] != m,
        decreases ms.len() - i,
    {
        if ms[i] == m {
            return true;
        }
        i += 1;
    }
    false
}

/// The bounds from `start` on, read as a non-empty list separated by `+` up to `hi`: the
/// range of each bound and where the list stops (at the first token after a bound that is
/// no `+`); or the first error, where no bound can be read.
pub open spec fn bound_list(ts: Seq<Tok>, start: int, hi: int, end: u64) -> Result<
    (Seq<(int, int)>, int),
    (u64, Seq<char>),
>
    decreases hi - start,
{
    let e = crate::tokens::first_top_sep(ts, start, hi, '+', '+');
    let k = prefix_end(ts, start, e, Grammar::Bound);
    if !(0 <= start <= e <= hi) {
        Ok((Seq::empty(), start))
    } else if k == start {
        Err((span_at(ts, start, hi, end), bound_message(toks_text(ts.subrange(start, with_next(ts, e))))))
    } else if k == e && e < hi {
        match bound_list(ts, e + 1, hi, end) {
            Ok((rest, stop)) => Ok((seq![(start, k)] + rest, stop)),
            Err(x) => Err(x),
        }
    } else {
        Ok((seq![(start, k)], k))
    }
}

/// The identifier a bound `ts[s..k]` is written as, when it is a bare name: `Name`, or
/// `(Name)`.
pub open spec fn bare_bound(ts: Seq<Tok>, s: int, k: int) -> Option<Tok> {
    if k - s != 1 {
        None
    } else {
        match ts[s] {
            Tok::Ident { .. } => Some(ts[s]),
            Tok::Group { delim: Delim::Paren, body, .. } => if body@.len() == 1 && body@[0] is Ident {
                Some(body@[0])
            } else {
                None
            },
            _ => None,
        }
    }
}

/// What the bounds `segs[i..]` of `ts` add to the markers, `Drop` and `Clone` read so far:
/// all of them, or the first error.
pub open spec fn bounds_from(
    ts: Seq<Tok>,
    segs: Seq<(int, int)>,
    i: int,
    markers: Seq<Marker>,
    drop: Option<u64>,
    clone: Option<u64>,
) -> Result<(Seq<Marker>, Option<u64>, Option<u64>), (u64, Seq<char>)>
    decreases segs.len() - i,
{
    if i < 0 || i >= segs.len() {
        Ok((markers, drop, clone))
    } else {
        let s = segs[i].0;
        let k = segs[i].1;
        match bare_bound(ts, s, k) {
            None => Err((span_of(ts[s]), bound_help())),
            Some(id) => {
                let name = ident_text(id);
                let span = span_of(id);
                if name == "Drop"@ {
                    if drop is Some {
                        Err((span, "duplicate `Drop` bound"@))
                    } else {
                        bounds_from(ts, segs, i + 1, markers, Some(span), clone)
                    }
                } else {
                    match marker_named(name) {
                        None => Err((span, bound_help())),
                        Some(m) => if markers.contains(m) {
                            Err((span, "duplicate `"@ + marker_name(m) + "` bound"@))
                        } else {
                            bounds_from(
                                ts,
                                segs,
                                i + 1,
                                markers.push(m),
                                drop,
                                if m == Marker::Clone {
                                    Some(span)
                                } else {
                                    clone
                                },
                            )
                        },
                    }
                }
            },
        }
    }
}

/// What the bounds from `lo` on declare: the markers, where `Drop` and `Clone` were
/// written, and where the list stops; or the first error. `syn` reads the whole list before
/// any bound is looked at.
pub open spec fn bounds_of(ts: Seq<Tok>, lo: int, hi: int, end: u64) -> Result<
    (Seq<Marker>, Option<u64>, Option<u64>, int),
    (u64, Seq<char>),
> {
    match bound_list(ts, lo, hi, end) {
        Err(e) => Err(e),
        Ok((segs, stop)) => match bounds_from(ts, segs, 0, Seq::empty(), None, None) {
            Err(e) => Err(e),
            Ok((ms, d, c)) => if d is Some && ms.contains(Marker::Copy) {
                Err(
                    (
                        d->0,
                        "`Copy` and `Drop` are mutually exclusive: a `Copy` type never has drop glue"@,
                    ),
                )
            } else if c is Some && ms.contains(Marker::Copy) {
                Err(
                    (
                        c->0,
                        "`Copy` and `Clone` are mutually exclusive: a `Copy` opaque type already implements `Clone` by copying its bytes"@,
                    ),
                )
            } else {
                Ok((ms, d, c, stop))
            },
        },
    }
}

/// The text and span of the identifier of a bound written as a bare name, `Name` or
/// `(Name)`.
fn bare_bound_of(ts: &Vec<Tok>, s: usize, k: usize) -> (r: Option<(&String, u64)>)
    requires
        s < k <= ts.len(),
    ensures
        match bare_bound(ts@, s as int, k as int) {
            Some(t) => r matches Some((x, sp)) && x@ == ident_text(t) && sp == span_of(t),
            None => r is None,
        },
{
    if k - s != 1 {
        return None;
    }
    match &ts[s] {
        Tok::Ident { text, span } => Some((text, *span)),
        Tok::Group { delim: Delim::Paren, body, .. } => if body.len() == 1 {
            match &body[0] {
                Tok::Ident { text, span } => Some((text, *span)),
                _ => None,
            }
        } else {
            None
        },
        _ => None,
    }
}

/// Reads the list of bounds from `lo` on, as `bound_list` does.
fn read_bound_list(ts: &Vec<Tok>, lo: usize, hi: usize, end: u64) -> (r: Result<
    (Vec<(usize, usize)>, usize),
    Error,
>)
    requires
        lo <= hi <= ts.len(),
    ensures
        match bound_list(ts@, lo as int, hi as int, end) {
            Ok((segs, stop)) => r matches Ok((v, s)) && s == stop && v@.len() == segs.len() && (
            forall|i: int|
                0 <= i < segs.len() ==> (#[trigger] segs[i]).0 == v@[i].0 && segs[i].1 == v@[i].1)
                && lo < stop <= hi && (forall|i: int| 0 <= i < segs.len() ==> lo <= (#[trigger] segs[i]).0 < segs[i].1 <= hi),
            Err(e) => r matches Err(x) && x@ == e,
        },
{
    let mut segs: Vec<(usize, usize)> = Vec::new();
    let mut start = lo;
    let ghost mut done: Seq<(int, int)> = Seq::empty();
    proof {
        if let Ok((rest, stop)) = bound_list(ts@, lo as int, hi as int, end) {
            assert(done + rest =~= rest);
        }
    }
    loop
        invariant
            lo <= start <= hi <= ts.len(),
            segs@.len() == done.len(),
            forall|i: int| 0 <= i < done.len() ==> (#[trigger] done[i]).0 == segs@[i].0 && done[i].1 == segs@[i].1,
            forall|i: int| 0 <= i < done.len() ==> lo <= (#[trigger] done[i]).0 < done[i].1 < start,
            bound_list(ts@, lo as int, hi as int, end) == match bound_list(ts@, start as int, hi as int, end) {
                Ok((rest, stop)) => Ok((done + rest, stop)),
                Err(x) => Err(x),
            },
        decreases hi - start,
    {
        let e = find_top(ts, start, hi, '+', '+');
        let k = longest_prefix(ts, start, e, Grammar::Bound);
        proof {
            lemma_prefix_end(ts@, start as int, e as int, Grammar::Bound);
        }
        if k == start {
            let m = bound_message_of(ts, start, with_next_exec(ts, e));
            return Err(Error { span: span_at_exec(ts, start, hi, end), message: m });
        }
        segs.push((start, k));
        proof {
            let old_done = done;
            done = done.push((start as int, k as int));
            if k == e && e < hi {
                if let Ok((rest, stop)) = bound_list(ts@, e + 1, hi as int, end) {
                    assert(old_done + (seq![(start as int, k as int)] + rest) =~= done + rest);
                }
            } else {
                assert(old_done + seq![(start as int, k as int)] =~= done);
            }
        }
        if k == e && e < hi {
            start = e + 1;
        } else {
            proof {
                assert forall|i: int| 0 <= i < done.len() implies lo <= (#[trigger] done[i]).0 < done[i].1
                    <= hi by {}
            }
            return Ok((segs, k));
        }
    }
}

/// Whether `ms` holds `Clone` exactly when `clone` is some, and no marker twice.
pub open spec fn markers_ok(ms: Seq<Marker>, clone: Option<u64>) -> bool {
    &&& clone is Some <==> ms.contains(Marker::Clone)
    &&& forall|i: int, j: int| 0 <= i < j < ms.len() ==> ms[i] != ms[j]
}

/// Parses the bounds from `lo` on (after the `:`) of an opaque associated type declaration,
/// up to `hi`: the bounds and where their list stops. `end` is where an error about an empty
/// list is reported.
pub fn parse_bounds(ts: &Vec<Tok>, lo: usize, hi: usize, end: u64) -> (r: Result<(Bounds, usize), Error>)
    requires
        lo <= hi <= ts.len(),
    ensures
        r matches Ok((b, stop)) ==> {
            &&& lo < stop <= hi
            &&& markers_ok(b.markers@, b.clone_bound)
            &&& bounds_exclusive(b)
        },
        match bounds_of(ts@, lo as int, hi as int, end) {
            Ok((ms, d, c, stop)) => r matches Ok((b, s)) && b.markers@ == ms && b.drop_bound == d
                && b.clone_bound == c && s == stop,
            Err(e) => r matches Err(x) && x@ == e,
        },
{
    let (segs, stop) = read_bound_list(ts, lo, hi, end)?;
    let ghost gsegs: Seq<(int, int)> = bound_list(ts@, lo as int, hi as int, end)->Ok_0.0;
    let mut markers: Vec<Marker> = Vec::new();
    let mut drop_bound: Option<u64> = None;
    let mut clone_bound: Option<u64> = None;
    proof {
        lemma_names_differ();
    }
    let mut i: usize = 0;
    while i < segs.len()
        invariant
            i <= segs@.len() == gsegs.len(),
            forall|j: int| 0 <= j < gsegs.len() ==> (#[trigger] gsegs[j]).0 == segs@[j].0 && gsegs[j].1 == segs@[j].1,
            forall|j: int| 0 <= j < gsegs.len() ==> lo <= (#[trigger] gsegs[j]).0 < gsegs[j].1 <= hi,
            hi <= ts.len(),
            bound_list(ts@, lo as int, hi as int, end) == Ok::<(Seq<(int, int)>, int), (u64, Seq<char>)>(
                (gsegs, stop as int),
            ),
            markers_ok(markers@, clone_bound),
            marker_named("Drop"@) is None,
            marker_named("Clone"@) == Some(Marker::Clone),
            bounds_from(ts@, gsegs, 0, Seq::empty(), None, None) == bounds_from(
                ts@,
                gsegs,
                i as int,
                markers@,
                drop_bound,
                clone_bound,
            ),
        decreases segs.len() - i,
    {
        let (s, k) = segs[i];
        assert(gsegs[i as int].0 == s && gsegs[i as int].1 == k);
        let (name, span) = match bare_bound_of(ts, s, k) {
            Some(x) => x,
            None => {
                return Err(
                    Error::new(
                        tok_span(&ts[s]),
                        "only `Send`, `Sync`, `Unpin`, `UnwindSafe`, `RefUnwindSafe`, `Copy`, `Clone` and `Drop` are allowed as bounds on an opaque associated type, written by their bare names",
                    ),
                );
            },
        };
        if crate::tokens::text_eq(name, "Drop") {
            if drop_bound.is_some() {
                return Err(Error::new(span, "duplicate `Drop` bound"));
            }
            drop_bound = Some(span);
        } else {
            let marker = match Marker::from_ident(name) {
                Some(m) => m,
                None => {
                    return Err(
                        Error::new(
                            span,
                            "only `Send`, `Sync`, `Unpin`, `UnwindSafe`, `RefUnwindSafe`, `Copy`, `Clone` and `Drop` are allowed as bounds on an opaque associated type, written by their bare names",
                        ),
                    );
                },
            };
            if has_marker(&markers, marker) {
                let mut m = String::from_str("duplicate `");
                m.append(marker.name());
                m.append("` bound");
                return Err(Error { span, message: m });
            }
            let ghost before = markers@;
            if marker == Marker::Clone {
                clone_bound = Some(span);
            }
            markers.push(marker);
            proof {
                assert(markers@.contains(Marker::Clone) <==> before.contains(Marker::Clone)
                    || marker == Marker::Clone) by {
                    if before.contains(Marker::Clone) {
                        let j = choose|j: int| 0 <= j < before.len() && #[trigger] before[j] == Marker::Clone;
                        assert(markers@[j] == Marker::Clone);
                    }
                    if marker == Marker::Clone {
                        assert(markers@[before.len() as int] == Marker::Clone);
                    }
                    if markers@.contains(Marker::Clone) {
                        let j = choose|j: int| 0 <= j < markers@.len() && #[trigger] markers@[j] == Marker::Clone;
                        if j < before.len() {
                            assert(before[j] == Marker::Clone);
                        }
                    }
                }
                assert forall|a: int, b: int| 0 <= a < b < markers@.len() implies markers@[a] != markers@[b] by {
                    if b == before.len() {
                        assert(markers@[a] == before[a]);
                    }
                }
            }
        }
        i += 1;
    }
    if let Some(span) = drop_bound {
        if has_marker(&markers, Marker::Copy) {
            return Err(
                Error::new(
                    span,
                    "`Copy` and `Drop` are mutually exclusive: a `Copy` type never has drop glue",
                ),
            );
        }
    }
    if let Some(span) = clone_bound {
        if has_marker(&markers, Marker::Copy) {
            return Err(
                Error::new(
                    span,
                    "`Copy` and `Clone` are mutually exclusive: a `Copy` opaque type already implements `Clone` by copying its bytes",
                ),
            );
        }
    }
    Ok((Bounds { markers, drop_bound, clone_bound }, stop))
}

} // verus!
