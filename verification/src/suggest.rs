//! Suggestions for misspelt names: the Levenshtein edit distance, the
//! labels and variables close to a name, and the texts that list them.
use vstd::prelude::*;
use crate::numbers::{decimal, usize_to_string};
use crate::symbols::{Label, Variable};
use crate::text::{chars_of, push_char};

verus! {

pub open spec fn min3(a: int, b: int, c: int) -> int {
    if a <= b && a <= c {
        a
    } else if b <= c {
        b
    } else {
        c
    }
}

/// The edit distance between `a[..i]` and `b[..j]`: the least number of
/// insertions, deletions and substitutions of one character that turn one
/// into the other.
pub open spec fn lev(a: Seq<char>, b: Seq<char>, i: int, j: int) -> int
    decreases i + j,
{
    if i <= 0 {
        if j <= 0 { 0 } else { j }
    } else if j <= 0 {
        i
    } else {
        min3(
            lev(a, b, i - 1, j) + 1,
            lev(a, b, i, j - 1) + 1,
            lev(a, b, i - 1, j - 1) + if a[i - 1] == b[j - 1] { 0int } else { 1int },
        )
    }
}

/// The edit distance between `a` and `b`.
pub open spec fn distance(a: Seq<char>, b: Seq<char>) -> int {
    lev(a, b, a.len() as int, b.len() as int)
}

proof fn lemma_lev_bounds(a: Seq<char>, b: Seq<char>, i: int, j: int)
    requires
        0 <= i,
        0 <= j,
    ensures
        0 <= lev(a, b, i, j) <= i + j,
    decreases i + j,
{
    if i > 0 && j > 0 {
        lemma_lev_bounds(a, b, i - 1, j);
        lemma_lev_bounds(a, b, i, j - 1);
        lemma_lev_bounds(a, b, i - 1, j - 1);
    }
}

/// The edit distance between `a` and `b` (see `distance`).
pub fn levenshtein_distance(a: &[char], b: &[char]) -> (d: usize)
    requires
        a@.len() + b@.len() < usize::MAX,
    ensures
        d == distance(a@, b@),
{
    let n = b.len();
    let mut prev: Vec<usize> = Vec::new();
    let mut j: usize = 0;
    while j <= n
        invariant
            j <= n + 1,
            n == b@.len(),
            a@.len() + b@.len() < usize::MAX,
            prev@.len() == j,
            forall|k: int| 0 <= k < j ==> prev@[k] == lev(a@, b@, 0, k),
        decreases n + 1 - j,
    {
        prev.push(j);
        j = j + 1;
    }
    let mut i: usize = 1;
    while i <= a.len()
        invariant
            1 <= i <= a@.len() + 1,
            n == b@.len(),
            a@.len() + b@.len() < usize::MAX,
            prev@.len() == n + 1,
            forall|k: int| 0 <= k <= n ==> prev@[k] == lev(a@, b@, i - 1, k),
        decreases a@.len() + 1 - i,
    {
        let mut cur: Vec<usize> = Vec::new();
        cur.push(i);
        let mut k: usize = 1;
        while k <= n
            invariant
                1 <= i <= a@.len(),
                1 <= k <= n + 1,
                n == b@.len(),
                a@.len() + b@.len() < usize::MAX,
                prev@.len() == n + 1,
                forall|m: int| 0 <= m <= n ==> prev@[m] == lev(a@, b@, i - 1, m),
                cur@.len() == k,
                forall|m: int| 0 <= m < k ==> cur@[m] == lev(a@, b@, i as int, m),
            decreases n + 1 - k,
        {
            proof {
                lemma_lev_bounds(a@, b@, i - 1, k as int);
                lemma_lev_bounds(a@, b@, i as int, k - 1);
                lemma_lev_bounds(a@, b@, i - 1, k - 1);
            }
            let del = prev[k] + 1;
            let ins = cur[k - 1] + 1;
            let sub = prev[k - 1] + if a[i - 1] == b[k - 1] {
                0
            } else {
                1
            };
            let best = if del <= ins && del <= sub {
                del
            } else if ins <= sub {
                ins
            } else {
                sub
            };
            cur.push(best);
            k = k + 1;
        }
        prev = cur;
        i = i + 1;
    }
    prev[n]
}

/// The labels within edit distance `k` of `name`, in table order, as
/// (line, name) pairs.
pub open spec fn close_labels(ls: Seq<Label>, name: Seq<char>, k: int) -> Seq<(usize, Seq<char>)> {
    ls.filter_map(
        |l: Label|
            if distance(name, l.name@) <= k {
                Some((l.line, l.name@))
            } else {
                None
            },
    )
}

/// The variables within edit distance `k` of `name`, in table order, as
/// (line, name) pairs.
pub open spec fn close_variables(vs: Seq<Variable>, name: Seq<char>, k: int) -> Seq<
    (usize, Seq<char>),
> {
    vs.filter_map(
        |v: Variable|
            if distance(name, v.name@) <= k {
                Some((v.line, v.name@))
            } else {
                None
            },
    )
}

/// Finds the labels close to `name` (see `close_labels`).
pub fn find_closest_matches(labels: &Vec<Label>, name: &[char], k: usize) -> (r: Vec<(usize, String)>)
    requires
        name@.len() <= usize::MAX / 2,
        forall|i: int| 0 <= i < labels@.len() ==> (#[trigger] labels@[i]).name@.len() <= usize::MAX / 2,
    ensures
        r@.map_values(|p: (usize, String)| (p.0, p.1@)) == close_labels(labels@, name@, k as int),
{
    let mut r: Vec<(usize, String)> = Vec::new();
    let mut i: usize = 0;
    while i < labels.len()
        invariant
            i <= labels@.len(),
            name@.len() <= usize::MAX / 2,
            forall|j: int| 0 <= j < labels@.len() ==> (#[trigger] labels@[j]).name@.len() <= usize::MAX / 2,
            r@.map_values(|p: (usize, String)| (p.0, p.1@)) == close_labels(labels@.take(i as int), name@, k as int),
        decreases labels@.len() - i,
    {
        let other = chars_of(labels[i].name.as_str());
        let d = levenshtein_distance(name, other.as_slice());
        let ghost before = r@;
        if d <= k {
            r.push((labels[i].line, labels[i].name.clone()));
        }
        proof {
            assert(labels@.take(i + 1).drop_last() =~= labels@.take(i as int));
            assert(labels@.take(i + 1).last() == labels@[i as int]);
            assert(r@.map_values(|p: (usize, String)| (p.0, p.1@)) =~= close_labels(labels@.take(i + 1), name@, k as int));
        }
        i = i + 1;
    }
    assert(labels@.take(labels@.len() as int) =~= labels@);
    r
}

/// Finds the variables close to `name` (see `close_variables`).
pub fn find_closest_matches_i32(variables: &Vec<Variable>, name: &[char], k: usize) -> (r: Vec<(usize, String)>)
    requires
        name@.len() <= usize::MAX / 2,
        forall|i: int| 0 <= i < variables@.len() ==> (#[trigger] variables@[i]).name@.len() <= usize::MAX / 2,
    ensures
        r@.map_values(|p: (usize, String)| (p.0, p.1@)) == close_variables(variables@, name@, k as int),
{
    let mut r: Vec<(usize, String)> = Vec::new();
    let mut i: usize = 0;
    while i < variables.len()
        invariant
            i <= variables@.len(),
            name@.len() <= usize::MAX / 2,
            forall|j: int| 0 <= j < variables@.len() ==> (#[trigger] variables@[j]).name@.len() <= usize::MAX / 2,
            r@.map_values(|p: (usize, String)| (p.0, p.1@)) == close_variables(variables@.take(i as int), name@, k as int),
        decreases variables@.len() - i,
    {
        let other = chars_of(variables[i].name.as_str());
        let d = levenshtein_distance(name, other.as_slice());
        if d <= k {
            r.push((variables[i].line, variables[i].name.clone()));
        }
        proof {
            assert(variables@.take(i + 1).drop_last() =~= variables@.take(i as int));
            assert(variables@.take(i + 1).last() == variables@[i as int]);
            assert(r@.map_values(|p: (usize, String)| (p.0, p.1@)) =~= close_variables(variables@.take(i + 1), name@, k as int));
        }
        i = i + 1;
    }
    assert(variables@.take(variables@.len() as int) =~= variables@);
    r
}

/// `name:line` for each match (lines counted from 1), joined by ", ".
pub open spec fn listing(ms: Seq<(usize, Seq<char>)>) -> Seq<char>
    decreases ms.len(),
{
    if ms.len() == 0 {
        Seq::empty()
    } else {
        let item = ms.last().1 + ":"@ + decimal(ms.last().0 + 1);
        if ms.len() == 1 {
            item
        } else {
            listing(ms.drop_last()) + ", "@ + item
        }
    }
}

/// The source lines (counted from 1) of the matches.
pub open spec fn match_lines(ms: Seq<(usize, Seq<char>)>) -> Seq<usize> {
    ms.map_values(|m: (usize, Seq<char>)| (m.0 + 1) as usize)
}

/// Appends `text` to `s`.
pub fn append_text(s: &mut String, text: &str)
    ensures
        final(s)@ == old(s)@ + text@,
{
    let cs = chars_of(text);
    let mut i: usize = 0;
    let ghost s0 = s@;
    while i < cs.len()
        invariant
            i <= cs@.len(),
            cs@ == text@,
            s@ == s0 + cs@.take(i as int),
        decreases cs@.len() - i,
    {
        push_char(s, cs[i]);
        i = i + 1;
        assert(s@ =~= s0 + cs@.take(i as int));
    }
    assert(cs@.take(cs@.len() as int) =~= cs@);
}

/// Lists matches as `listing` does, and gives their lines (counted from 1).
pub fn list_matches(ms: &Vec<(usize, String)>) -> (r: (String, Vec<usize>))
    requires
        forall|i: int| 0 <= i < ms@.len() ==> (#[trigger] ms@[i]).0 < usize::MAX,
    ensures
        r.0@ == listing(ms@.map_values(|p: (usize, String)| (p.0, p.1@))),
        r.1@ == match_lines(ms@.map_values(|p: (usize, String)| (p.0, p.1@))),
{
    let ghost view = ms@.map_values(|p: (usize, String)| (p.0, p.1@));
    let mut text = String::new();
    let mut lines: Vec<usize> = Vec::new();
    let mut i: usize = 0;
    while i < ms.len()
        invariant
            i <= ms@.len(),
            view == ms@.map_values(|p: (usize, String)| (p.0, p.1@)),
            forall|j: int| 0 <= j < ms@.len() ==> (#[trigger] ms@[j]).0 < usize::MAX,
            text@ == listing(view.take(i as int)),
            lines@ == match_lines(view.take(i as int)),
        decreases ms@.len() - i,
    {
        let ghost t = view.take(i + 1);
        assert(t.drop_last() =~= view.take(i as int));
        assert(t.last() == view[i as int]);
        if i > 0 {
            append_text(&mut text, ", ");
        }
        let name = ms[i].1.as_str();
        append_text(&mut text, name);
        append_text(&mut text, ":");
        let n = usize_to_string(ms[i].0 + 1);
        append_text(&mut text, n.as_str());
        lines.push(ms[i].0 + 1);
        i = i + 1;
        proof {
            if i == 1 {
                assert(view.take(0).len() == 0);
            }
            assert(text@ =~= listing(t));
            assert(lines@ =~= match_lines(t));
        }
    }
    assert(view.take(ms@.len() as int) =~= view);
    (text, lines)
}

} // verus!
