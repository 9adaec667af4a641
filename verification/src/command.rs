//! Interpretation of transcript text into directional control events.
//!
//! Matching is a case-sensitive substring search against four fixed
//! keywords; a transcript may match several keywords and yields one event
//! per matched keyword.  Unrecognized text yields no events.  Transcripts
//! are examined as UTF-8 bytes, so the keywords are spelled here as their
//! ASCII byte values.

use vstd::prelude::*;

verus! {

/// One discrete directional adjustment of an entity's velocity,
/// derived from a transcript.
#[derive(Clone, Copy, Debug, PartialEq, Eq, Structural)]
pub enum ControlEvent {
    MoveUp,
    MoveDown,
    MoveLeft,
    MoveRight,
}

/// The keyword "up" as UTF-8 bytes.
pub open spec fn kw_up() -> Seq<u8> {
    seq![117u8, 112u8]
}

/// The keyword "down" as UTF-8 bytes.
pub open spec fn kw_down() -> Seq<u8> {
    seq![100u8, 111u8, 119u8, 110u8]
}

/// The keyword "left" as UTF-8 bytes.
pub open spec fn kw_left() -> Seq<u8> {
    seq![108u8, 101u8, 102u8, 116u8]
}

/// The keyword "right" as UTF-8 bytes.
pub open spec fn kw_right() -> Seq<u8> {
    seq![114u8, 105u8, 103u8, 104u8, 116u8]
}

/// `pat` occurs in `text` starting at position `i`.
pub open spec fn is_match_at(text: Seq<u8>, pat: Seq<u8>, i: int) -> bool {
    &&& 0 <= i
    &&& i + pat.len() <= text.len()
    &&& forall|j: int| 0 <= j < pat.len() ==> text[i + j] == pat[j]
}

/// `pat` occurs somewhere in `text` as a contiguous substring.
pub open spec fn contains_seq(text: Seq<u8>, pat: Seq<u8>) -> bool {
    exists|i: int| is_match_at(text, pat, i)
}

/// The control events produced by one transcript: one event per matched
/// keyword, in the fixed order up, down, left, right.
pub open spec fn events_of(text: Seq<u8>) -> Seq<ControlEvent> {
    (if contains_seq(text, kw_up()) {
        seq![ControlEvent::MoveUp]
    } else {
        Seq::<ControlEvent>::empty()
    }) + (if contains_seq(text, kw_down()) {
        seq![ControlEvent::MoveDown]
    } else {
        Seq::<ControlEvent>::empty()
    }) + (if contains_seq(text, kw_left()) {
        seq![ControlEvent::MoveLeft]
    } else {
        Seq::<ControlEvent>::empty()
    }) + (if contains_seq(text, kw_right()) {
        seq![ControlEvent::MoveRight]
    } else {
        Seq::<ControlEvent>::empty()
    })
}

/// `pat` occurs in `text` starting at position `i` (case-sensitive).
fn match_at(text: &[u8], pat: &[u8], i: usize) -> (r: bool)
    requires
        i + pat@.len() <= text@.len(),
    ensures
        r == is_match_at(text@, pat@, i as int),
{
    let n: usize = text.len();
    let mut j: usize = 0;
    while j < pat.len()
        invariant
            n == text@.len(),
            i + pat@.len() <= text@.len(),
            j <= pat@.len(),
            forall|q: int| 0 <= q < j ==> text@[i + q] == pat@[q],
        decreases pat@.len() - j,
    {
        if text[i + j] != pat[j] {
            proof {
                assert(text@[i + j as int] != pat@[j as int]);
            }
            return false;
        }
        j = j + 1;
    }
    true
}

/// Case-sensitive contiguous substring search.
pub fn contains_sub(text: &[u8], pat: &[u8]) -> (r: bool)
    ensures
        r == contains_seq(text@, pat@),
{
    if pat.len() > text.len() {
        proof {
            assert(forall|i: int| !is_match_at(text@, pat@, i));
        }
        return false;
    }
    let mut i: usize = 0;
    while i <= text.len() - pat.len()
        invariant
            pat@.len() <= text@.len(),
            i <= text@.len() - pat@.len() + 1,
            forall|p: int| 0 <= p < i ==> !is_match_at(text@, pat@, p),
        decreases text@.len() - pat@.len() + 1 - i,
    {
        if match_at(text, pat, i) {
            return true;
        }
        i = i + 1;
    }
    proof {
        assert(forall|p: int| is_match_at(text@, pat@, p) ==> 0 <= p < i);
    }
    false
}

/// Maps one transcript, given as UTF-8 bytes, to its control events by
/// case-sensitive keyword match: "up", "down", "left" and "right" each
/// contribute one event when they occur in the text.
pub fn interpret(text: &[u8]) -> (r: Vec<ControlEvent>)
    ensures
        r@ == events_of(text@),
{
    let up: Vec<u8> = vec![117u8, 112u8];
    let down: Vec<u8> = vec![100u8, 111u8, 119u8, 110u8];
    let left: Vec<u8> = vec![108u8, 101u8, 102u8, 116u8];
    let right: Vec<u8> = vec![114u8, 105u8, 103u8, 104u8, 116u8];
    proof {
        assert(up@ =~= kw_up());
        assert(down@ =~= kw_down());
        assert(left@ =~= kw_left());
        assert(right@ =~= kw_right());
    }
    let mut r: Vec<ControlEvent> = Vec::new();
    if contains_sub(text, up.as_slice()) {
        r.push(ControlEvent::MoveUp);
    }
    if contains_sub(text, down.as_slice()) {
        r.push(ControlEvent::MoveDown);
    }
    if contains_sub(text, left.as_slice()) {
        r.push(ControlEvent::MoveLeft);
    }
    if contains_sub(text, right.as_slice()) {
        r.push(ControlEvent::MoveRight);
    }
    proof {
        assert(r@ =~= events_of(text@));
    }
    r
}

} // verus!
