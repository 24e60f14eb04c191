//! Reading a closing vote, and the moderator's choice of speaker.
//!
//! Models drift from the requested format, so anything unparseable falls back
//! to something usable rather than dropping the answer.

use vstd::prelude::*;

use crate::model::Agent;
use crate::platform::{lowercase, to_lowercase};
use crate::text::{
    chars_of, contains, is_ws, lemma_ltrim_append, ltrim, rtrim, starts_with, str_contains,
    str_starts_with, string_from, trim, trim_chars, vec_slice,
};

verus! {

/// Drops the characters that satisfy `p` from the front.
pub open spec fn ltrim_where(s: Seq<char>, p: spec_fn(char) -> bool) -> Seq<char>
    decreases s.len(),
{
    if s.len() > 0 && p(s[0]) {
        ltrim_where(s.drop_first(), p)
    } else {
        s
    }
}

/// Drops the characters that satisfy `p` from the back.
pub open spec fn rtrim_where(s: Seq<char>, p: spec_fn(char) -> bool) -> Seq<char>
    decreases s.len(),
{
    if s.len() > 0 && p(s.last()) {
        rtrim_where(s.drop_last(), p)
    } else {
        s
    }
}

/// Markdown bullets and emphasis in front of a line.
pub open spec fn is_decoration(c: char) -> bool {
    c == '*' || c == '-' || c == '#' || c == ' '
}

/// Emphasis and code marks around a value.
pub open spec fn is_mark(c: char) -> bool {
    c == '*' || c == '`'
}

/// The lines of a text split so far, and the line still being read.
pub open spec fn lines_state(s: Seq<char>) -> (Seq<Seq<char>>, Seq<char>)
    decreases s.len(),
{
    if s.len() == 0 {
        (seq![], seq![])
    } else {
        let (done, cur) = lines_state(s.drop_last());
        if s.last() == '\n' {
            (done.push(strip_cr(cur)), seq![])
        } else {
            (done, cur.push(s.last()))
        }
    }
}

/// A line without the carriage return of a `\r\n` ending.
pub open spec fn strip_cr(line: Seq<char>) -> Seq<char> {
    if line.len() > 0 && line.last() == '\r' {
        line.drop_last()
    } else {
        line
    }
}

/// `str::lines`: the text split at `\n` or `\r\n`, where a final line ending
/// does not open an extra empty line.
pub open spec fn lines_of(s: Seq<char>) -> Seq<Seq<char>> {
    let (done, cur) = lines_state(s);
    if cur.len() > 0 {
        done.push(cur)
    } else {
        done
    }
}

/// `str::lines`, collected.
pub fn lines(s: &str) -> (v: Vec<String>)
    ensures
        v@.map_values(|l: String| l@) == lines_of(s@),
{
    let chars = chars_of(s);
    let mut done: Vec<String> = Vec::new();
    let mut cur: Vec<char> = Vec::new();
    let mut i: usize = 0;
    while i < chars.len()
        invariant
            i <= chars@.len(),
            chars@ == s@,
            (done@.map_values(|l: String| l@), cur@) == lines_state(s@.take(i as int)),
        decreases chars@.len() - i,
    {
        assert(s@.take(i + 1).drop_last() =~= s@.take(i as int));
        let c = chars[i];
        if c == '\n' {
            let n = cur.len();
            let line = if n > 0 && cur[n - 1] == '\r' {
                vec_slice(cur.as_slice(), 0, n - 1)
            } else {
                vec_slice(cur.as_slice(), 0, n)
            };
            assert(cur@.subrange(0, n as int) =~= cur@);
            assert(cur@.subrange(0, n - 1) =~= cur@.drop_last());
            let text = string_from(line.as_slice());
            let ghost before = done@;
            done.push(text);
            assert(done@.map_values(|l: String| l@) =~= before.map_values(|l: String| l@).push(
                strip_cr(cur@),
            ));
            cur = Vec::new();
        } else {
            cur.push(c);
        }
        i = i + 1;
    }
    assert(s@.take(chars@.len() as int) =~= s@);
    if cur.len() > 0 {
        let ghost before = done@;
        done.push(string_from(cur.as_slice()));
        assert(done@.map_values(|l: String| l@) =~= before.map_values(|l: String| l@).push(cur@));
    }
    done
}

/// The value after a label: trimmed, then freed of emphasis and code marks,
/// then trimmed again.
pub open spec fn label_value(rest: Seq<char>) -> Seq<char> {
    trim(rtrim_where(ltrim_where(trim(rest), |c: char| is_mark(c)), |c: char| is_mark(c)))
}

/// What follows `label` on a line whose lower-cased form is `lowered`, if the
/// lower-cased line opens with the label.
pub open spec fn labelled(line: Seq<char>, lowered: Seq<char>, label: Seq<char>) -> Option<
    Seq<char>,
> {
    if starts_with(lowered, label) {
        Some(
            label_value(
                if label.len() <= line.len() {
                    line.skip(label.len() as int)
                } else {
                    Seq::empty()
                },
            ),
        )
    } else {
        None
    }
}

/// Removes leading characters matching the decoration set.
fn skip_decoration(v: &[char]) -> (r: Vec<char>)
    ensures
        r@ == ltrim_where(v@, |c: char| is_decoration(c)),
{
    let mut i: usize = 0;
    assert(v@.skip(0) =~= v@);
    while i < v.len() && (v[i] == '*' || v[i] == '-' || v[i] == '#' || v[i] == ' ')
        invariant
            i <= v@.len(),
            ltrim_where(v@, |c: char| is_decoration(c)) == ltrim_where(
                v@.skip(i as int),
                |c: char| is_decoration(c),
            ),
        decreases v@.len() - i,
    {
        assert(v@.skip(i as int).drop_first() =~= v@.skip(i + 1));
        i = i + 1;
    }
    assert(v@.skip(i as int) =~= v@.subrange(i as int, v@.len() as int));
    vec_slice(v, i, v.len())
}

/// Removes emphasis and code marks at both ends.
fn strip_marks(v: &[char]) -> (r: Vec<char>)
    ensures
        r@ == rtrim_where(ltrim_where(v@, |c: char| is_mark(c)), |c: char| is_mark(c)),
{
    let mut i: usize = 0;
    assert(v@.skip(0) =~= v@);
    while i < v.len() && (v[i] == '*' || v[i] == '`')
        invariant
            i <= v@.len(),
            ltrim_where(v@, |c: char| is_mark(c)) == ltrim_where(
                v@.skip(i as int),
                |c: char| is_mark(c),
            ),
        decreases v@.len() - i,
    {
        assert(v@.skip(i as int).drop_first() =~= v@.skip(i + 1));
        i = i + 1;
    }
    let ghost front = v@.skip(i as int);
    let mut j: usize = v.len();
    while j > i && (v[j - 1] == '*' || v[j - 1] == '`')
        invariant
            i <= j <= v@.len(),
            front == v@.skip(i as int),
            rtrim_where(front, |c: char| is_mark(c)) == rtrim_where(
                v@.subrange(i as int, j as int),
                |c: char| is_mark(c),
            ),
        decreases j,
    {
        assert(v@.subrange(i as int, j as int).drop_last() =~= v@.subrange(i as int, j - 1));
        j = j - 1;
    }
    assert(front =~= v@.subrange(i as int, v@.len() as int));
    vec_slice(v, i, j)
}

/// What follows `label` on `line`, given the line's lower-cased form.
pub fn label_rest(line: &str, lowered: &str, label: &str) -> (r: Option<String>)
    ensures
        match labelled(line@, lowered@, label@) {
            Some(v) => r matches Some(s) && s@ == v,
            None => r is None,
        },
{
    if !str_starts_with(lowered, label) {
        return None;
    }
    let chars = chars_of(line);
    let n = chars_of(label).len();
    let rest = if n <= chars.len() {
        vec_slice(chars.as_slice(), n, chars.len())
    } else {
        Vec::new()
    };
    assert(n <= line@.len() ==> rest@ =~= line@.skip(n as int));
    let t = trim_chars(rest.as_slice());
    let m = strip_marks(t.as_slice());
    let v = trim_chars(m.as_slice());
    Some(string_from(v.as_slice()))
}

/// What follows `label` on `line`, if the line opens with the label in any
/// letter case.
pub fn strip_label(line: &str, label: &str) -> (r: Option<String>)
    ensures
        match labelled(line@, lowercase(line@), label@) {
            Some(v) => r matches Some(s) && s@ == v,
            None => r is None,
        },
{
    let lowered = to_lowercase(line);
    label_rest(line, lowered.as_str(), label)
}

/// A line with surrounding whitespace and leading decoration removed.
pub open spec fn undecorated(line: Seq<char>) -> Seq<char> {
    ltrim_where(trim(line), |c: char| is_decoration(c))
}

/// The choice and rationale found in a run of lines; later lines win.
pub open spec fn vote_fold(lines: Seq<Seq<char>>) -> (Seq<char>, Seq<char>)
    decreases lines.len(),
{
    if lines.len() == 0 {
        (seq![], seq![])
    } else {
        let (choice, why) = vote_fold(lines.drop_last());
        let t = undecorated(lines.last());
        match labelled(t, lowercase(t), "vote:"@) {
            Some(v) => (v, why),
            None => match labelled(t, lowercase(t), "why:"@) {
                Some(v) => (choice, v),
                None => (choice, why),
            },
        }
    }
}

/// The `VOTE:` / `WHY:` pair of a closing statement; without a usable
/// `VOTE:` line the first line, trimmed, stands as the choice.
pub open spec fn vote_of(content: Seq<char>) -> (Seq<char>, Seq<char>) {
    let ls = lines_of(content);
    let (choice, why) = vote_fold(ls);
    if choice.len() == 0 {
        (
            if ls.len() > 0 {
                trim(ls[0])
            } else {
                seq![]
            },
            why,
        )
    } else {
        (choice, why)
    }
}

/// The first line of a text is the text before its first line break: `k`
/// is where that break stands, or the length when there is none.
proof fn lemma_first_line(s: Seq<char>, k: int)
    requires
        0 <= k <= s.len(),
        k == s.len() || s[k] == '\n',
        forall|j: int| 0 <= j < k ==> s[j] != '\n',
    ensures
        k < s.len() ==> lines_state(s).0.len() >= 1 && lines_state(s).0[0] == strip_cr(s.take(k)),
        k == s.len() ==> lines_state(s).0.len() == 0 && lines_state(s).1 == s,
    decreases s.len(),
{
    if s.len() > 0 {
        let r = s.drop_last();
        if k < s.len() - 1 {
            lemma_first_line(r, k);
            assert(r.take(k) =~= s.take(k));
        } else if k == s.len() - 1 {
            lemma_first_line(r, r.len() as int);
            assert(r =~= s.take(k));
        } else {
            assert forall|j: int| 0 <= j < r.len() implies r[j] != '\n' by {
                assert(r[j] == s[j]);
            }
            lemma_first_line(r, r.len() as int);
            assert(r.push(s.last()) =~= s);
        }
    }
}

/// Trimming ignores a carriage return at the end of a line.
proof fn lemma_trim_strip_cr(line: Seq<char>)
    ensures
        trim(strip_cr(line)) == trim(line),
{
    if line.len() > 0 && line.last() == '\r' {
        let a = line.drop_last();
        assert(a + seq!['\r'] =~= line);
        lemma_ltrim_append(a, seq!['\r']);
        assert(is_ws('\r'));
        assert(ltrim(seq!['\r']) == ltrim(seq!['\r'].drop_first()));
        assert(seq!['\r'].drop_first() =~= Seq::<char>::empty());
        if ltrim(a).len() > 0 {
            assert((ltrim(a) + seq!['\r']).drop_last() =~= ltrim(a));
        } else {
            assert(ltrim(Seq::<char>::empty()) == Seq::<char>::empty());
            assert(rtrim(ltrim(a)) == ltrim(a));
        }
    }
}

/// Without a usable `VOTE:` line, the choice is the first line of the
/// answer, trimmed: the text before its first line break (`k`), or the whole
/// answer when it has none. Later lines never stand in for it.
pub proof fn lemma_vote_falls_back_to_the_first_line(content: Seq<char>, k: int)
    requires
        0 <= k <= content.len(),
        k == content.len() || content[k] == '\n',
        forall|j: int| 0 <= j < k ==> content[j] != '\n',
        vote_fold(lines_of(content)).0.len() == 0,
    ensures
        vote_of(content).0 == trim(content.take(k)),
{
    lemma_first_line(content, k);
    if k < content.len() {
        lemma_trim_strip_cr(content.take(k));
    } else if content.len() == 0 {
        assert(content.take(k) =~= Seq::<char>::empty());
        assert(ltrim(Seq::<char>::empty()) == Seq::<char>::empty());
        assert(rtrim(Seq::<char>::empty()) == Seq::<char>::empty());
    } else {
        assert(content.take(k) =~= content);
    }
}

/// Whether a text has no characters at all.
fn is_empty_text(s: &str) -> (b: bool)
    ensures
        b == (s@.len() == 0),
{
    chars_of(s).len() == 0
}

/// Extracts the `VOTE:` / `WHY:` pair from a closing statement.
pub fn parse_vote(content: &str) -> (r: (String, String))
    ensures
        (r.0@, r.1@) == vote_of(content@),
        vote_fold(lines_of(content@)).0.len() == 0 ==> forall|k: int|
            0 <= k <= content@.len() && (k == content@.len() || content@[k] == '\n') && (forall|
                j: int,
            |
                0 <= j < k ==> content@[j] != '\n') ==> r.0@ == trim(#[trigger] content@.take(k)),
{
    proof {
        if vote_fold(lines_of(content@)).0.len() == 0 {
            assert forall|k: int|
                0 <= k <= content@.len() && (k == content@.len() || content@[k] == '\n') && (forall|
                    j: int,
                |
                    0 <= j < k ==> content@[j] != '\n') implies vote_of(content@).0 == trim(
                #[trigger] content@.take(k),
            ) by {
                lemma_vote_falls_back_to_the_first_line(content@, k);
            }
        }
    }
    let ls = lines(content);
    let ghost views = ls@.map_values(|l: String| l@);
    let mut choice = String::new();
    let mut why = String::new();
    let mut i: usize = 0;
    while i < ls.len()
        invariant
            i <= ls@.len(),
            views == ls@.map_values(|l: String| l@),
            views == lines_of(content@),
            (choice@, why@) == vote_fold(views.take(i as int)),
        decreases ls@.len() - i,
    {
        assert(views.take(i + 1).drop_last() =~= views.take(i as int));
        assert(views.take(i + 1).last() == ls@[i as int]@);
        let line = chars_of(ls[i].as_str());
        let t = skip_decoration(trim_chars(line.as_slice()).as_slice());
        let t = string_from(t.as_slice());
        if let Some(rest) = strip_label(t.as_str(), "vote:") {
            choice = rest;
        } else if let Some(rest) = strip_label(t.as_str(), "why:") {
            why = rest;
        }
        i = i + 1;
    }
    assert(views.take(ls@.len() as int) =~= views);
    if is_empty_text(choice.as_str()) {
        if ls.len() > 0 {
            let first = chars_of(ls[0].as_str());
            choice = string_from(trim_chars(first.as_slice()).as_slice());
        }
    }
    (choice, why)
}

/// The first candidate whose lower-cased name occurs in the lower-cased
/// answer, if any.
pub open spec fn first_named(answer: Seq<char>, names: Seq<Seq<char>>) -> Option<int> {
    if exists|i: int| 0 <= i < names.len() && contains(answer, #[trigger] names[i]) {
        Some(
            choose|i: int|
                0 <= i < names.len() && contains(answer, #[trigger] names[i]) && forall|j: int|
                    0 <= j < i ==> !contains(answer, #[trigger] names[j]),
        )
    } else {
        None
    }
}

/// The moderator's pick, given the lower-cased answer and candidate names:
/// the first candidate named, or else the one whose turn it would be in
/// rotation.
pub open spec fn picked(answer: Seq<char>, names: Seq<Seq<char>>, round: u32) -> int {
    match first_named(answer, names) {
        Some(i) => i,
        None => ((round - 1) as int) % (names.len() as int),
    }
}

/// Picks the next speaker from the lower-cased moderator answer and the
/// lower-cased candidate names.
pub fn pick_from_answer(answer: &str, names: &Vec<String>, round: u32) -> (i: usize)
    requires
        names@.len() > 0,
        round >= 1,
    ensures
        i < names@.len(),
        i == picked(answer@, names@.map_values(|n: String| n@), round),
{
    let ghost views = names@.map_values(|n: String| n@);
    let mut k: usize = 0;
    while k < names.len()
        invariant
            k <= names@.len(),
            views == names@.map_values(|n: String| n@),
            forall|j: int| 0 <= j < k ==> !contains(answer@, #[trigger] views[j]),
        decreases names@.len() - k,
    {
        if str_contains(answer, names[k].as_str()) {
            proof {
                assert(contains(answer@, views[k as int]));
                let c = choose|i: int|
                    0 <= i < views.len() && contains(answer@, #[trigger] views[i]) && forall|j: int|
                        0 <= j < i ==> !contains(answer@, #[trigger] views[j]);
                assert(c == k) by {
                    if c < k {
                        assert(!contains(answer@, views[c]));
                    } else if c > k {
                        assert(!contains(answer@, views[k as int]));
                    }
                }
            }
            return k;
        }
        k = k + 1;
    }
    ((round - 1) as usize) % names.len()
}

/// The lower-cased names of the candidates.
pub open spec fn lowered_names(candidates: Seq<Agent>) -> Seq<Seq<char>> {
    candidates.map_values(|a: Agent| lowercase(a.name@))
}

/// Asks which candidate a moderator's answer names, ignoring letter case.
pub fn choose_speaker(answer: &str, candidates: &Vec<Agent>, round: u32) -> (i: usize)
    requires
        candidates@.len() > 0,
        round >= 1,
    ensures
        i < candidates@.len(),
        i == picked(lowercase(answer@), lowered_names(candidates@), round),
{
    let lowered = to_lowercase(answer);
    let mut names: Vec<String> = Vec::new();
    let mut k: usize = 0;
    while k < candidates.len()
        invariant
            k <= candidates@.len(),
            names@.map_values(|n: String| n@) == lowered_names(candidates@.take(k as int)),
        decreases candidates@.len() - k,
    {
        assert(candidates@.take(k + 1) =~= candidates@.take(k as int).push(candidates@[k as int]));
        let name = to_lowercase(candidates[k].name.as_str());
        let ghost before = names@;
        names.push(name);
        assert(names@.map_values(|n: String| n@) =~= before.map_values(|n: String| n@).push(name@));
        assert(lowered_names(candidates@.take(k + 1)) =~= lowered_names(candidates@.take(k as int)).push(
            lowercase(candidates@[k as int].name@),
        ));
        k = k + 1;
    }
    assert(candidates@.take(candidates@.len() as int) =~= candidates@);
    pick_from_answer(lowered.as_str(), &names, round)
}

} // verus!
