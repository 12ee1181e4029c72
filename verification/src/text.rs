//! Character-sequence utilities: substring search, leftmost non-overlapping
//! replacement, and `{{name}}` placeholder substitution over raw settings
//! text. Everything here is pure string logic with exact contracts.

use vstd::prelude::*;

verus! {

/// `pat` occurs in `s` at position `i`.
pub open spec fn matches_at(s: Seq<char>, pat: Seq<char>, i: int) -> bool {
    0 <= i && i + pat.len() <= s.len() && s.subrange(i, i + pat.len() as int) == pat
}

/// The least position `>= from` at which `pat` occurs in `s`, if any.
pub open spec fn first_match_from(s: Seq<char>, pat: Seq<char>, from: int) -> Option<int>
    decreases s.len() - from,
{
    if from < 0 || from + pat.len() > s.len() {
        None
    } else if pat.len() == 0 {
        Some(from)
    } else if matches_at(s, pat, from) {
        Some(from)
    } else {
        first_match_from(s, pat, from + 1)
    }
}

/// `pat` occurs somewhere in `s`.
pub open spec fn contains_seq(s: Seq<char>, pat: Seq<char>) -> bool {
    first_match_from(s, pat, 0) is Some
}

/// `s` with every non-overlapping occurrence of `pat`, scanning from the
/// left, replaced by `to`. An empty pattern replaces nothing.
pub open spec fn replace_all(s: Seq<char>, pat: Seq<char>, to: Seq<char>) -> Seq<char>
    decreases s.len(),
    via replace_all_decreases
{
    if pat.len() == 0 {
        s
    } else {
        match first_match_from(s, pat, 0) {
            None => s,
            Some(i) => s.subrange(0, i) + to + replace_all(
                s.subrange(i + pat.len() as int, s.len() as int),
                pat,
                to,
            ),
        }
    }
}

#[via_fn]
proof fn replace_all_decreases(s: Seq<char>, pat: Seq<char>, to: Seq<char>) {
    if pat.len() > 0 && first_match_from(s, pat, 0) is Some {
        lemma_first_match_from_some(s, pat, 0);
    }
}

/// The match position returned by `first_match_from` is at or after `from`,
/// is a real match, and is the least such position.
pub proof fn lemma_first_match_from_some(s: Seq<char>, pat: Seq<char>, from: int)
    requires
        pat.len() >= 1,
        first_match_from(s, pat, from) is Some,
    ensures
        from <= first_match_from(s, pat, from)->0,
        matches_at(s, pat, first_match_from(s, pat, from)->0),
        forall|j: int|
            from <= j < first_match_from(s, pat, from)->0 ==> !matches_at(s, pat, j),
    decreases s.len() - from,
{
    if from < 0 || from + pat.len() > s.len() {
        // no result in this case, contradicting the requires
    } else if matches_at(s, pat, from) {
    } else {
        lemma_first_match_from_some(s, pat, from + 1);
    }
}

/// When `first_match_from` finds nothing, no position at or after `from`
/// matches.
pub proof fn lemma_first_match_from_none(s: Seq<char>, pat: Seq<char>, from: int)
    requires
        pat.len() >= 1,
        from >= 0,
        first_match_from(s, pat, from) is None,
    ensures
        forall|j: int| j >= from ==> !matches_at(s, pat, j),
    decreases s.len() - from,
{
    if from + pat.len() > s.len() {
        assert forall|j: int| j >= from implies !matches_at(s, pat, j) by {
            assert(j + pat.len() > s.len());
        }
    } else {
        lemma_first_match_from_none(s, pat, from + 1);
    }
}

/// A match inside the tail `s.skip(1)` is a match inside `s`, one position
/// later, and conversely.
proof fn lemma_matches_at_skip1(s: Seq<char>, pat: Seq<char>, j: int)
    requires
        s.len() >= 1,
        j >= 1,
    ensures
        matches_at(s, pat, j) == matches_at(s.skip(1), pat, j - 1),
{
    if 0 <= j && j + pat.len() <= s.len() {
        assert(s.skip(1).subrange(j - 1, j - 1 + pat.len() as int) =~= s.subrange(
            j,
            j + pat.len() as int,
        ));
    }
}

/// Searching `s` from a positive position is searching the tail `s.skip(1)`
/// from one position earlier.
proof fn lemma_first_match_from_skip1(s: Seq<char>, pat: Seq<char>, from: int)
    requires
        pat.len() >= 1,
        s.len() >= 1,
        from >= 1,
    ensures
        first_match_from(s, pat, from) == match first_match_from(s.skip(1), pat, from - 1) {
            Option::None => Option::<int>::None,
            Option::Some(i) => Option::Some(i + 1),
        },
    decreases s.len() - from,
{
    lemma_matches_at_skip1(s, pat, from);
    if from < 0 || from + pat.len() > s.len() {
    } else if matches_at(s, pat, from) {
    } else {
        lemma_first_match_from_skip1(s, pat, from + 1);
    }
}

/// Unfolding `replace_all` when the pattern matches at the head: the
/// replacement is emitted and scanning continues past the match.
pub proof fn lemma_replace_all_match_head(s: Seq<char>, pat: Seq<char>, to: Seq<char>)
    requires
        pat.len() >= 1,
        matches_at(s, pat, 0),
    ensures
        replace_all(s, pat, to) == to + replace_all(s.skip(pat.len() as int), pat, to),
{
    assert(first_match_from(s, pat, 0) == Some(0int));
    assert(s.subrange(0, 0) =~= Seq::<char>::empty());
    assert(s.subrange(pat.len() as int, s.len() as int) =~= s.skip(pat.len() as int));
    assert(s.subrange(0, 0) + to + replace_all(s.skip(pat.len() as int), pat, to) =~= to
        + replace_all(s.skip(pat.len() as int), pat, to));
}

/// Unfolding `replace_all` when the head does not start a match: the head
/// character is kept and scanning continues on the tail.
pub proof fn lemma_replace_all_no_match_head(s: Seq<char>, pat: Seq<char>, to: Seq<char>)
    requires
        pat.len() >= 1,
        s.len() >= 1,
        !matches_at(s, pat, 0),
    ensures
        replace_all(s, pat, to) == seq![s[0]] + replace_all(s.skip(1), pat, to),
{
    if pat.len() > s.len() {
        assert(first_match_from(s, pat, 0) is None);
        assert(first_match_from(s.skip(1), pat, 0) is None);
        assert(seq![s[0]] + s.skip(1) =~= s);
    } else {
        lemma_first_match_from_skip1(s, pat, 1);
        match first_match_from(s.skip(1), pat, 0) {
            Option::None => {
                assert(first_match_from(s, pat, 0) is None);
                assert(seq![s[0]] + s.skip(1) =~= s);
            },
            Option::Some(i) => {
                lemma_first_match_from_some(s.skip(1), pat, 0);
                assert(first_match_from(s, pat, 0) == Some(i + 1));
                let p = pat.len() as int;
                assert(s.subrange(0, i + 1) =~= seq![s[0]] + s.skip(1).subrange(0, i));
                assert(s.subrange(i + 1 + p, s.len() as int) =~= s.skip(1).subrange(
                    i + p,
                    s.len() - 1,
                ));
                assert(s.subrange(0, i + 1) + to + replace_all(
                    s.subrange(i + 1 + p, s.len() as int),
                    pat,
                    to,
                ) =~= seq![s[0]] + (s.skip(1).subrange(0, i) + to + replace_all(
                    s.skip(1).subrange(i + p, s.len() - 1),
                    pat,
                    to,
                )));
            },
        }
    }
}

/// Whether `pat` occurs at position `i` of `s`, by direct comparison.
fn match_at(s: &Vec<char>, pat: &Vec<char>, i: usize) -> (r: bool)
    requires
        i + pat@.len() <= s@.len(),
    ensures
        r == matches_at(s@, pat@, i as int),
{
    let slen = s.len();
    let mut j: usize = 0;
    while j < pat.len()
        invariant
            j <= pat@.len(),
            i + pat@.len() <= s@.len(),
            s@.len() == slen,
            forall|k: int| 0 <= k < j ==> s@[i + k] == pat@[k],
        decreases pat@.len() - j,
    {
        if s[i + j] != pat[j] {
            proof {
                if matches_at(s@, pat@, i as int) {
                    assert(s@.subrange(i as int, i + pat@.len() as int)[j as int] == s@[i + j]);
                }
            }
            return false;
        }
        j += 1;
    }
    proof {
        assert(s@.subrange(i as int, i + pat@.len() as int) =~= pat@);
    }
    true
}

/// The least position at or after `from` where `pat` occurs in `s`.
pub fn find_first_from(s: &Vec<char>, pat: &Vec<char>, from: usize) -> (r: Option<usize>)
    requires
        pat@.len() >= 1,
    ensures
        match r {
            Some(i) => first_match_from(s@, pat@, from as int) == Some(i as int),
            None => first_match_from(s@, pat@, from as int) is None,
        },
{
    if pat.len() > s.len() {
        return None;
    }
    let bound = s.len() - pat.len();
    let mut i = from;
    while i <= bound
        invariant
            from <= i,
            pat@.len() >= 1,
            pat@.len() <= s@.len(),
            s@.len() <= usize::MAX,
            bound == s@.len() - pat@.len(),
            first_match_from(s@, pat@, from as int) == first_match_from(s@, pat@, i as int),
        decreases s@.len() - i,
    {
        if match_at(s, pat, i) {
            return Some(i);
        }
        i += 1;
    }
    None
}

/// `pat` occurs somewhere in `s`.
pub fn contains_chars(s: &Vec<char>, pat: &Vec<char>) -> (r: bool)
    requires
        pat@.len() >= 1,
    ensures
        r == contains_seq(s@, pat@),
{
    match find_first_from(s, pat, 0) {
        Some(_) => true,
        None => false,
    }
}

/// `s` with every non-overlapping occurrence of `pat` replaced by `to`,
/// scanning from the left.
pub fn replace_all_chars(s: &Vec<char>, pat: &Vec<char>, to: &Vec<char>) -> (r: Vec<char>)
    requires
        pat@.len() >= 1,
    ensures
        r@ == replace_all(s@, pat@, to@),
{
    let mut out: Vec<char> = Vec::new();
    let mut i: usize = 0;
    let slen = s.len();
    proof {
        assert(s@.skip(0) =~= s@);
        assert(Seq::<char>::empty() + replace_all(s@, pat@, to@) =~= replace_all(s@, pat@, to@));
    }
    while i < s.len()
        invariant
            i <= s@.len(),
            s@.len() == slen,
            pat@.len() >= 1,
            replace_all(s@, pat@, to@) == out@ + replace_all(s@.skip(i as int), pat@, to@),
        decreases s@.len() - i,
    {
        let ghost tail = s@.skip(i as int);
        let can = s.len() - i >= pat.len();
        let m = if can {
            match_at(s, pat, i)
        } else {
            false
        };
        proof {
            assert(tail.len() == s@.len() - i);
            if i + pat@.len() <= s@.len() {
                assert(tail.subrange(0, pat@.len() as int) =~= s@.subrange(
                    i as int,
                    i + pat@.len() as int,
                ));
            }
            assert(m == matches_at(tail, pat@, 0));
        }
        if m {
            let ghost out0 = out@;
            out.extend_from_slice(to.as_slice());
            i += pat.len();
            proof {
                lemma_replace_all_match_head(tail, pat@, to@);
                assert(tail.skip(pat@.len() as int) =~= s@.skip(i as int));
                assert(out0 + (to@ + replace_all(s@.skip(i as int), pat@, to@)) =~= out@
                    + replace_all(s@.skip(i as int), pat@, to@));
            }
        } else {
            let ghost out0 = out@;
            out.push(s[i]);
            i += 1;
            proof {
                lemma_replace_all_no_match_head(tail, pat@, to@);
                assert(tail.skip(1) =~= s@.skip(i as int));
                assert(out0 + (seq![tail[0]] + replace_all(tail.skip(1), pat@, to@)) =~= out@
                    + replace_all(s@.skip(i as int), pat@, to@));
            }
        }
    }
    proof {
        assert(s@.skip(i as int) =~= Seq::<char>::empty());
        assert(replace_all(Seq::<char>::empty(), pat@, to@) == Seq::<char>::empty());
        assert(out@ + Seq::<char>::empty() =~= out@);
    }
    out
}

/// The `{{name}}` placeholder for a runtime variable.
pub open spec fn placeholder_of(name: Seq<char>) -> Seq<char> {
    seq!['{', '{'] + name + seq!['}', '}']
}

/// `content` after substituting each variable in turn: for each `(name,
/// value)` pair, every occurrence of `{{name}}` is replaced by the value.
pub open spec fn substituted(content: Seq<char>, vars: Seq<(Seq<char>, Seq<char>)>) -> Seq<char>
    decreases vars.len(),
{
    if vars.len() == 0 {
        content
    } else {
        substituted(replace_all(content, placeholder_of(vars[0].0), vars[0].1), vars.drop_first())
    }
}

/// Substituting one more variable at the end applies its replacement last.
pub proof fn lemma_substituted_snoc(
    content: Seq<char>,
    vars: Seq<(Seq<char>, Seq<char>)>,
    x: (Seq<char>, Seq<char>),
)
    ensures
        substituted(content, vars.push(x)) == replace_all(
            substituted(content, vars),
            placeholder_of(x.0),
            x.1,
        ),
    decreases vars.len(),
{
    if vars.len() == 0 {
        assert(vars.push(x)[0] == x);
        assert(vars.push(x).drop_first() =~= Seq::<(Seq<char>, Seq<char>)>::empty());
        let one = replace_all(content, placeholder_of(x.0), x.1);
        assert(substituted(content, vars.push(x)) == substituted(
            one,
            Seq::<(Seq<char>, Seq<char>)>::empty(),
        ));
        assert(substituted(one, Seq::<(Seq<char>, Seq<char>)>::empty()) == one);
        assert(substituted(content, vars) == content);
    } else {
        assert(vars.push(x)[0] == vars[0]);
        assert(vars.push(x).drop_first() =~= vars.drop_first().push(x));
        let one = replace_all(content, placeholder_of(vars[0].0), vars[0].1);
        lemma_substituted_snoc(one, vars.drop_first(), x);
        assert(substituted(content, vars.push(x)) == substituted(
            one,
            vars.drop_first().push(x),
        ));
        assert(substituted(content, vars) == substituted(one, vars.drop_first()));
    }
}

/// Relies on `String: FromIterator<char>`: collecting characters yields a
/// string holding exactly those characters.
#[verifier::external_body]
pub fn chars_to_string(v: &Vec<char>) -> (r: String)
    ensures
        r@ == v@,
{
    v.iter().collect()
}

/// The characters of a string, in order.
pub fn str_chars(s: &str) -> (r: Vec<char>)
    ensures
        r@ == s@,
{
    broadcast use vstd::string::axiom_spec_iter;

    let mut r: Vec<char> = Vec::new();
    for c in it: s.chars()
        invariant
            it.seq() == s@,
            r@.len() == it.index(),
            forall|k: int| 0 <= k < r@.len() ==> r@[k] == it.seq()[k],
    {
        r.push(c);
    }
    proof {
        assert(r@ =~= s@);
    }
    r
}

} // verus!
