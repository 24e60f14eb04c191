//! Removal of a speaker label that a model adds to its own answer.
//!
//! Smaller models copy the `Name:` shape they see for their peers. The room
//! adds the label itself, so a self-added one is removed before the message is
//! stored and is withheld from the live token stream as well.

use vstd::prelude::*;

use crate::text::{
    chars_of, first_non_ws, lemma_ltrim_append, lemma_ltrim_is_suffix, ltrim, seq_starts_with,
    starts_with, string_from, trim, trim_chars, vec_slice,
};

verus! {

/// Whether the text, after leading whitespace, opens with the label.
pub open spec fn has_label(text: Seq<char>, label: Seq<char>) -> bool {
    starts_with(ltrim(text), label)
}

/// What follows the label.
pub open spec fn after_label(text: Seq<char>, label: Seq<char>) -> Seq<char> {
    ltrim(text).skip(label.len() as int)
}

/// The text a client is streamed: without a self-added label and the
/// whitespace that follows it, and otherwise unchanged.
pub open spec fn streamed_text(text: Seq<char>, label: Seq<char>) -> Seq<char> {
    if has_label(text, label) {
        ltrim(after_label(text, label))
    } else {
        text
    }
}

/// The content stored for an answer: trimmed, without a self-added label.
pub open spec fn stored_text(text: Seq<char>, label: Seq<char>) -> Seq<char> {
    if has_label(text, label) {
        trim(after_label(text, label))
    } else {
        trim(text)
    }
}

/// The label a model would add for the named agent.
pub open spec fn label_for(name: Seq<char>) -> Seq<char> {
    name.push(':')
}

/// The label a model would add for the named agent.
pub fn label_of(name: &str) -> (label: Vec<char>)
    ensures
        label@ == label_for(name@),
{
    let mut label = chars_of(name);
    label.push(':');
    label
}

/// An answer trimmed, with a self-added label removed.
pub fn strip_own_label(text: &str, label: &[char]) -> (content: String)
    ensures
        content@ == stored_text(text@, label@),
{
    let chars = chars_of(text);
    let lt = first_non_ws(chars.as_slice());
    let tail = vec_slice(chars.as_slice(), lt, chars.len());
    assert(tail@ =~= ltrim(text@));
    if seq_starts_with(tail.as_slice(), label) {
        let after = vec_slice(tail.as_slice(), label.len(), tail.len());
        assert(after@ =~= after_label(text@, label@));
        string_from(trim_chars(after.as_slice()).as_slice())
    } else {
        string_from(trim_chars(chars.as_slice()).as_slice())
    }
}

/// Whether the text received so far could still turn out to be the label:
/// after leading whitespace it is a proper beginning of it.
pub open spec fn could_be_label(text: Seq<char>, label: Seq<char>) -> bool {
    &&& ltrim(text).len() < label.len()
    &&& label.take(ltrim(text).len() as int) == ltrim(text)
}

/// What a client has been shown live once `text` has arrived: nothing while
/// the text could still be the label, and the streamed text after that.
pub open spec fn live_text(text: Seq<char>, label: Seq<char>) -> Seq<char> {
    if could_be_label(text, label) {
        Seq::empty()
    } else {
        streamed_text(text, label)
    }
}

/// Neither text is a prefix of the other.
pub open spec fn disagree(x: Seq<char>, label: Seq<char>) -> bool {
    let m = if x.len() < label.len() {
        x.len()
    } else {
        label.len()
    };
    x.take(m as int) != label.take(m as int)
}

/// The streamed text, trimmed, is exactly the stored content: a client that
/// renders the deltas shows what the transcript keeps.
pub proof fn lemma_stream_matches_store(text: Seq<char>, label: Seq<char>)
    ensures
        trim(streamed_text(text, label)) == stored_text(text, label),
{
    if has_label(text, label) {
        let a = after_label(text, label);
        lemma_ltrim_is_suffix(a);
        lemma_ltrim_is_suffix(ltrim(a));
        assert(ltrim(ltrim(a)) == ltrim(a)) by {
            if ltrim(a).len() > 0 {
                assert(ltrim(ltrim(a)) == ltrim(a).skip(0));
            }
        }
    }
}

/// Where the filter stands in the answer.
pub enum FilterState {
    /// Everything so far could still turn out to be the label.
    Holding(Vec<char>),
    /// The label was found; whitespace after it is being dropped.
    Skipping,
    /// The decision is made; text passes through.
    Passing,
}

/// Withholds a self-added `Name:` label from a stream of deltas.
pub struct LabelFilter {
    label: Vec<char>,
    state: FilterState,
    seen: Ghost<Seq<char>>,
    sent: Ghost<Seq<char>>,
}

impl LabelFilter {
    /// The label being watched for.
    pub closed spec fn label(&self) -> Seq<char> {
        self.label@
    }

    /// Everything pushed so far.
    pub closed spec fn seen(&self) -> Seq<char> {
        self.seen@
    }

    /// Everything handed out so far.
    pub closed spec fn sent(&self) -> Seq<char> {
        self.sent@
    }

    #[verifier::type_invariant]
    closed spec fn wf(&self) -> bool {
        let seen = self.seen@;
        let label = self.label@;
        &&& label.len() > 0
        &&& self.sent@ == live_text(seen, label)
        &&& match self.state {
            FilterState::Holding(buf) => {
                &&& buf@ == seen
                &&& self.sent@.len() == 0
                &&& ltrim(seen).len() < label.len()
                &&& label.take(ltrim(seen).len() as int) == ltrim(seen)
            },
            FilterState::Skipping => {
                &&& has_label(seen, label)
                &&& ltrim(after_label(seen, label)).len() == 0
                &&& self.sent@.len() == 0
            },
            FilterState::Passing => {
                &&& self.sent@ == streamed_text(seen, label)
                &&& ltrim(seen).len() > 0
                &&& has_label(seen, label) ==> ltrim(after_label(seen, label)).len() > 0
                &&& !has_label(seen, label) ==> disagree(ltrim(seen), label)
            },
        }
    }

    /// A filter for the label `name:`.
    pub fn new(name: &str) -> (f: Self)
        ensures
            f.label() == label_for(name@),
            f.seen().len() == 0,
            f.sent().len() == 0,
            f.sent() == live_text(f.seen(), f.label()),
    {
        let label = label_of(name);
        assert(ltrim(Seq::<char>::empty()) == Seq::<char>::empty());
        assert(label@.take(0) =~= Seq::<char>::empty());
        let f = LabelFilter {
            label,
            state: FilterState::Holding(Vec::new()),
            seen: Ghost(Seq::empty()),
            sent: Ghost(Seq::empty()),
        };
        f
    }

    /// Takes one delta and returns the part of it that may be shown now.
    pub fn push(self, delta: &str) -> (r: (Self, String))
        ensures
            r.0.label() == self.label(),
            r.0.seen() == self.seen() + delta@,
            r.0.sent() == self.sent() + r.1@,
            r.0.sent() == live_text(r.0.seen(), r.0.label()),
    {
        proof {
            use_type_invariant(&self);
        }
        let d = chars_of(delta);
        let ghost label = self.label@;
        let ghost before = self.seen@;
        let ghost sent = self.sent@;
        let next_seen: Ghost<Seq<char>> = Ghost(self.seen@ + delta@);
        match &self.state {
            FilterState::Holding(buf) => {
                let mut grown = vec_slice(buf.as_slice(), 0, buf.len());
                let mut i: usize = 0;
                while i < d.len()
                    invariant
                        i <= d@.len(),
                        grown@ == before + d@.take(i as int),
                    decreases d@.len() - i,
                {
                    grown.push(d[i]);
                    assert(d@.take(i + 1) =~= d@.take(i as int).push(d@[i as int]));
                    assert(before + d@.take(i + 1) =~= (before + d@.take(i as int)).push(d@[i as int]));
                    i = i + 1;
                }
                assert(d@.take(d@.len() as int) =~= d@);
                let ghost g = grown@;
                let (state, out) = decide(grown, &self.label);
                proof {
                    match state {
                        FilterState::Holding(_) => {
                            assert(out@ =~= live_text(g, label));
                        },
                        _ => {
                            lemma_settled(g, label);
                            assert(out@ =~= live_text(g, label));
                        },
                    }
                }
                let sent: Ghost<Seq<char>> = Ghost(out@);
                (LabelFilter { label: self.label, state, seen: next_seen, sent }, out)
            },
            FilterState::Skipping => {
                let j = first_non_ws(d.as_slice());
                let rest = vec_slice(d.as_slice(), j, d.len());
                proof {
                    lemma_ltrim_is_suffix(before);
                    lemma_ltrim_append(before, d@);
                    let lt = ltrim(before);
                    assert(ltrim(before + d@) == lt + d@);
                    assert((lt + d@).take(label.len() as int) =~= lt.take(label.len() as int));
                    assert((lt + d@).skip(label.len() as int) =~= lt.skip(label.len() as int) + d@);
                    lemma_ltrim_append(after_label(before, label), d@);
                    assert(rest@ =~= d@.skip(j as int));
                }
                let out = string_from(rest.as_slice());
                let state = if j < d.len() {
                    FilterState::Passing
                } else {
                    FilterState::Skipping
                };
                assert(sent + out@ =~= out@);
                let now_sent: Ghost<Seq<char>> = Ghost(out@);
                (LabelFilter { label: self.label, state, seen: next_seen, sent: now_sent }, out)
            },
            FilterState::Passing => {
                proof {
                    lemma_ltrim_append(before, d@);
                    let lt = ltrim(before);
                    let n = before + d@;
                    assert(ltrim(n) == lt + d@);
                    if has_label(before, label) {
                        assert((lt + d@).take(label.len() as int) =~= lt.take(label.len() as int));
                        assert((lt + d@).skip(label.len() as int) =~= lt.skip(label.len() as int)
                            + d@);
                        lemma_ltrim_append(after_label(before, label), d@);
                    } else {
                        lemma_disagree_grows(lt, d@, label);
                    }
                    lemma_settled(n, label);
                }
                let now_sent: Ghost<Seq<char>> = Ghost(sent + delta@);
                (
                    LabelFilter {
                        label: self.label,
                        state: FilterState::Passing,
                        seen: next_seen,
                        sent: now_sent,
                    },
                    delta.to_owned(),
                )
            },
        }
    }

    /// Ends the stream and returns whatever was still held back.
    pub fn finish(self) -> (out: String)
        ensures
            self.sent() + out@ == streamed_text(self.seen(), self.label()),
    {
        proof {
            use_type_invariant(&self);
        }
        match self.state {
            FilterState::Holding(buf) => {
                assert(self.sent@ + buf@ =~= buf@);
                string_from(buf.as_slice())
            },
            _ => {
                assert(self.sent@ + Seq::<char>::empty() =~= self.sent@);
                String::new()
            },
        }
    }
}

/// A text that opens with the label, or disagrees with it, can no longer be
/// the label.
proof fn lemma_settled(seen: Seq<char>, label: Seq<char>)
    requires
        has_label(seen, label) || disagree(ltrim(seen), label),
    ensures
        !could_be_label(seen, label),
{
    let t = ltrim(seen);
    if !has_label(seen, label) && t.len() < label.len() {
        assert(t.take(t.len() as int) =~= t);
    }
}

/// A text that disagrees with the label keeps disagreeing as it grows.
proof fn lemma_disagree_grows(x: Seq<char>, d: Seq<char>, label: Seq<char>)
    requires
        disagree(x, label),
    ensures
        disagree(x + d, label),
        !starts_with(x + d, label),
{
    let m = if x.len() < label.len() {
        x.len()
    } else {
        label.len()
    };
    let y = x + d;
    let m2 = if y.len() < label.len() {
        y.len()
    } else {
        label.len()
    };
    assert(y.take(m as int) =~= x.take(m as int));
    if y.take(m2 as int) == label.take(m2 as int) {
        assert(y.take(m2 as int).take(m as int) =~= y.take(m as int));
        assert(label.take(m2 as int).take(m as int) =~= label.take(m as int));
    }
    assert(disagree(y, label));
    if starts_with(y, label) {
        assert(m2 == label.len());
        assert(label.take(label.len() as int) =~= label);
        assert(y.take(m2 as int) == label.take(m2 as int));
    }
}

/// Decides, for a held-back text, whether it is the label, may still become
/// it, or cannot.
fn decide(buf: Vec<char>, label: &Vec<char>) -> (r: (FilterState, String))
    requires
        label@.len() > 0,
    ensures
        ({
            let seen = buf@;
            let out = r.1@;
            match r.0 {
                FilterState::Holding(b) => {
                    &&& b@ == seen
                    &&& out.len() == 0
                    &&& ltrim(seen).len() < label@.len()
                    &&& label@.take(ltrim(seen).len() as int) == ltrim(seen)
                },
                FilterState::Skipping => {
                    &&& has_label(seen, label@)
                    &&& ltrim(after_label(seen, label@)).len() == 0
                    &&& out.len() == 0
                },
                FilterState::Passing => {
                    &&& out == streamed_text(seen, label@)
                    &&& ltrim(seen).len() > 0
                    &&& has_label(seen, label@) ==> ltrim(after_label(seen, label@)).len() > 0
                    &&& !has_label(seen, label@) ==> disagree(ltrim(seen), label@)
                },
            }
        }),
{
    let lt = first_non_ws(buf.as_slice());
    let tail = vec_slice(buf.as_slice(), lt, buf.len());
    proof {
        assert(tail@ =~= buf@.skip(lt as int));
        assert(ltrim(buf@) == tail@);
    }
    if tail.len() < label.len() {
        if seq_starts_with(label.as_slice(), tail.as_slice()) {
            assert(label@.take(tail@.len() as int) == tail@);
            (FilterState::Holding(buf), String::new())
        } else {
            proof {
                if tail@.len() == 0 {
                    assert(label@.take(0) =~= tail@);
                }
                assert(tail@.take(tail@.len() as int) =~= tail@);
                assert(disagree(tail@, label@));
                assert(!has_label(buf@, label@));
            }
            let out = string_from(buf.as_slice());
            (FilterState::Passing, out)
        }
    } else if seq_starts_with(tail.as_slice(), label.as_slice()) {
        let after = vec_slice(tail.as_slice(), label.len(), tail.len());
        assert(after@ =~= after_label(buf@, label@));
        let j = first_non_ws(after.as_slice());
        let rest = vec_slice(after.as_slice(), j, after.len());
        assert(rest@ =~= after@.skip(j as int));
        let out = string_from(rest.as_slice());
        assert(has_label(buf@, label@));
        assert(ltrim(after@) == rest@);
        if j < after.len() {
            (FilterState::Passing, out)
        } else {
            (FilterState::Skipping, out)
        }
    } else {
        proof {
            assert(label@.take(label@.len() as int) =~= label@);
            assert(disagree(tail@, label@));
            assert(!has_label(buf@, label@));
        }
        let out = string_from(buf.as_slice());
        (FilterState::Passing, out)
    }
}

} // verus!
