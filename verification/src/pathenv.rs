//! Editing of the persistent PATH environment value: a `;`-separated list
//! of segments, to which the install's `bin` directory is added once and
//! from which it is removed again.
//!
//! Membership is tested as literal substring containment of the segment,
//! case-sensitively; removal filters out the segments exactly equal to it.

use vstd::prelude::*;
use vstd::string::{StrSliceExecFns, StringExecFns};
use crate::strings::str_eq;

verus! {

/// The segments of `s` from position `cur` on, `start` being the beginning
/// of the segment currently being scanned.
pub open spec fn split_from(s: Seq<char>, start: int, cur: int) -> Seq<Seq<char>>
    recommends
        0 <= start <= cur <= s.len(),
    decreases s.len() - cur,
{
    if cur >= s.len() {
        seq![s.subrange(start, s.len() as int)]
    } else if s[cur] == ';' {
        seq![s.subrange(start, cur)] + split_from(s, cur + 1, cur + 1)
    } else {
        split_from(s, start, cur + 1)
    }
}

/// The `;`-separated segments of a PATH value. An empty value has one empty
/// segment.
pub open spec fn path_segments(s: Seq<char>) -> Seq<Seq<char>> {
    split_from(s, 0, 0)
}

/// The PATH value whose segments are `segs`, joined with `;`.
pub open spec fn join_segments(segs: Seq<Seq<char>>) -> Seq<char>
    decreases segs.len(),
{
    if segs.len() == 0 {
        Seq::empty()
    } else if segs.len() == 1 {
        segs[0]
    } else {
        segs[0] + seq![';'] + join_segments(segs.drop_first())
    }
}

/// Whether `sub` occurs somewhere in `s` as a contiguous run of characters.
pub open spec fn is_substring(s: Seq<char>, sub: Seq<char>) -> bool {
    exists|i: int| 0 <= i <= s.len() - sub.len() && #[trigger] s.subrange(i, i + sub.len()) == sub
}

/// The predicate that keeps every segment other than `segment`.
pub open spec fn keeps(segment: Seq<char>) -> spec_fn(Seq<char>) -> bool {
    |seg: Seq<char>| seg != segment
}

/// The PATH value after appending `segment`.
pub open spec fn added_path(env: Seq<char>, segment: Seq<char>) -> Seq<char> {
    env + seq![';'] + segment
}

/// The PATH value after filtering out every segment equal to `segment`.
pub open spec fn removed_path(env: Seq<char>, segment: Seq<char>) -> Seq<char> {
    join_segments(path_segments(env).filter(keeps(segment)))
}

proof fn lemma_split_from_nonempty(s: Seq<char>, start: int, cur: int)
    requires
        0 <= start <= cur <= s.len(),
    ensures
        split_from(s, start, cur).len() >= 1,
    decreases s.len() - cur,
{
    if cur < s.len() && s[cur] != ';' {
        lemma_split_from_nonempty(s, start, cur + 1);
    }
}

proof fn lemma_join_split_from(s: Seq<char>, start: int, cur: int)
    requires
        0 <= start <= cur <= s.len(),
        forall|k: int| start <= k < cur ==> s[k] != ';',
    ensures
        join_segments(split_from(s, start, cur)) == s.subrange(start, s.len() as int),
    decreases s.len() - cur,
{
    if cur >= s.len() {
    } else if s[cur] == ';' {
        lemma_join_split_from(s, cur + 1, cur + 1);
        lemma_split_from_nonempty(s, cur + 1, cur + 1);
        let rest = split_from(s, cur + 1, cur + 1);
        let whole = seq![s.subrange(start, cur)] + rest;
        assert(whole.len() >= 2);
        assert(whole[0] == s.subrange(start, cur));
        assert(whole.drop_first() =~= rest);
        assert(join_segments(whole) == s.subrange(start, cur) + seq![';'] + join_segments(rest));
        assert(s.subrange(start, cur) + seq![';'] + s.subrange(cur + 1, s.len() as int)
            =~= s.subrange(start, s.len() as int));
    } else {
        lemma_join_split_from(s, start, cur + 1);
    }
}

/// Law: splitting a PATH value into segments and joining them again gives
/// back the same value.
pub proof fn lemma_join_of_segments(s: Seq<char>)
    ensures
        join_segments(path_segments(s)) == s,
{
    lemma_join_split_from(s, 0, 0);
    assert(s.subrange(0, s.len() as int) =~= s);
}

proof fn lemma_split_from_no_sep(s: Seq<char>, start: int, cur: int)
    requires
        0 <= start <= cur <= s.len(),
        forall|k: int| cur <= k < s.len() ==> s[k] != ';',
    ensures
        split_from(s, start, cur) == seq![s.subrange(start, s.len() as int)],
    decreases s.len() - cur,
{
    if cur < s.len() {
        lemma_split_from_no_sep(s, start, cur + 1);
    }
}

proof fn lemma_split_from_append(t: Seq<char>, a: Seq<char>, x: Seq<char>, start: int, cur: int)
    requires
        t == a + seq![';'] + x,
        !x.contains(';'),
        0 <= start <= cur <= a.len(),
    ensures
        split_from(t, start, cur) == split_from(a, start, cur).push(x),
    decreases a.len() - cur,
{
    assert(t.len() == a.len() + 1 + x.len());
    assert(t[a.len() as int] == ';');
    assert(forall|k: int| 0 <= k < a.len() ==> t[k] == a[k]);
    assert(forall|k: int| a.len() + 1 <= k < t.len() ==> t[k] == x[k - a.len() - 1]);
    if cur == a.len() {
        assert(forall|k: int| a.len() + 1 <= k < t.len() ==> t[k] != ';') by {
            assert(forall|j: int| 0 <= j < x.len() ==> x[j] != ';');
        }
        lemma_split_from_no_sep(t, a.len() as int + 1, a.len() as int + 1);
        assert(t.subrange(a.len() as int + 1, t.len() as int) =~= x);
        assert(split_from(t, start, cur) == seq![t.subrange(start, cur)] + seq![x]);
        assert(t.subrange(start, cur) =~= a.subrange(start, cur));
        assert(split_from(a, start, cur) == seq![a.subrange(start, a.len() as int)]);
        assert(a.subrange(start, a.len() as int) == a.subrange(start, cur));
        assert(seq![t.subrange(start, cur)] + seq![x] =~= split_from(a, start, cur).push(x));
    } else {
        assert(t[cur] == a[cur]);
        if t[cur] == ';' {
            lemma_split_from_append(t, a, x, cur + 1, cur + 1);
            assert(t.subrange(start, cur) =~= a.subrange(start, cur));
            assert(seq![t.subrange(start, cur)] + split_from(a, cur + 1, cur + 1).push(x)
                =~= (seq![a.subrange(start, cur)] + split_from(a, cur + 1, cur + 1)).push(x));
        } else {
            lemma_split_from_append(t, a, x, start, cur + 1);
        }
    }
}

/// Law: appending a `;`-free segment to a PATH value appends exactly one
/// segment to its segment list.
pub proof fn lemma_segments_of_added(env: Seq<char>, segment: Seq<char>)
    requires
        !segment.contains(';'),
    ensures
        path_segments(added_path(env, segment)) == path_segments(env).push(segment),
{
    lemma_split_from_append(added_path(env, segment), env, segment, 0, 0);
}

proof fn lemma_segment_is_substring(s: Seq<char>, start: int, cur: int, k: int)
    requires
        0 <= start <= cur <= s.len(),
        0 <= k < split_from(s, start, cur).len(),
    ensures
        is_substring(s, split_from(s, start, cur)[k]),
    decreases s.len() - cur,
{
    if cur >= s.len() {
        let seg = s.subrange(start, s.len() as int);
        assert(s.subrange(start, start + seg.len()) == seg);
    } else if s[cur] == ';' {
        if k == 0 {
            let seg = s.subrange(start, cur);
            assert(split_from(s, start, cur)[0] == seg);
            assert(s.subrange(start, start + seg.len()) == seg);
        } else {
            lemma_segment_is_substring(s, cur + 1, cur + 1, k - 1);
            assert(split_from(s, start, cur)[k] == split_from(s, cur + 1, cur + 1)[k - 1]);
        }
    } else {
        lemma_segment_is_substring(s, start, cur + 1, k);
    }
}

/// Law: a value that is not a substring of a PATH value equals none of its
/// segments.
pub proof fn lemma_absent_value_is_no_segment(env: Seq<char>, segment: Seq<char>)
    requires
        !is_substring(env, segment),
    ensures
        forall|k: int|
            0 <= k < path_segments(env).len() ==> path_segments(env)[k] != segment,
{
    assert forall|k: int|
        0 <= k < path_segments(env).len() implies path_segments(env)[k] != segment by {
        lemma_segment_is_substring(env, 0, 0, k);
    }
}

proof fn lemma_filter_all_kept(segs: Seq<Seq<char>>, pred: spec_fn(Seq<char>) -> bool)
    requires
        forall|k: int| 0 <= k < segs.len() ==> pred(segs[k]),
    ensures
        segs.filter(pred) == segs,
    decreases segs.len(),
{
    reveal(Seq::filter);
    if segs.len() > 0 {
        assert(forall|k: int|
            0 <= k < segs.drop_last().len() ==> pred(#[trigger] segs.drop_last()[k]));
        lemma_filter_all_kept(segs.drop_last(), pred);
        assert(segs.last() == segs[segs.len() - 1]);
        assert(pred(segs.last()));
        assert(segs.filter(pred) == segs.drop_last().filter(pred).push(segs.last()));
        assert(segs.drop_last().push(segs.last()) =~= segs);
    }
}

/// Law: adding a segment that is not yet contained in a PATH value and then
/// removing it again restores the original value exactly.
pub proof fn lemma_add_then_remove(env: Seq<char>, segment: Seq<char>)
    requires
        !is_substring(env, segment),
        !segment.contains(';'),
    ensures
        removed_path(added_path(env, segment), segment) == env,
{
    reveal(Seq::filter);
    lemma_segments_of_added(env, segment);
    let segs = path_segments(env);
    let pushed = segs.push(segment);
    assert(pushed.drop_last() =~= segs);
    assert(pushed.last() == segment);
    assert(!keeps(segment)(pushed.last()));
    assert(pushed.len() > 0);
    assert(pushed.filter(keeps(segment)) == pushed.drop_last().filter(keeps(segment)));
    lemma_absent_value_is_no_segment(env, segment);
    assert(forall|k: int| 0 <= k < segs.len() ==> keeps(segment)(segs[k]));
    lemma_filter_all_kept(segs, keeps(segment));
    lemma_join_of_segments(env);
}

/// Law: right after an add the segment is contained in the value, so a
/// second add against an unchanged value writes nothing.
pub proof fn lemma_added_segment_is_present(env: Seq<char>, segment: Seq<char>)
    ensures
        is_substring(added_path(env, segment), segment),
{
    let t = added_path(env, segment);
    let i = env.len() as int + 1;
    assert(t.subrange(i, i + segment.len() as int) =~= segment);
}

/// Law: removing a value that no segment of a PATH value equals leaves the
/// value unchanged.
pub proof fn lemma_remove_absent(env: Seq<char>, segment: Seq<char>)
    requires
        forall|k: int|
            0 <= k < path_segments(env).len() ==> path_segments(env)[k] != segment,
    ensures
        removed_path(env, segment) == env,
{
    assert(forall|k: int|
        0 <= k < path_segments(env).len() ==> keeps(segment)(path_segments(env)[k]));
    lemma_filter_all_kept(path_segments(env), keeps(segment));
    lemma_join_of_segments(env);
}

/// Whether `sub` occurs in `s` as a literal, case-sensitive substring.
pub fn str_contains(s: &str, sub: &str) -> (r: bool)
    ensures
        r == is_substring(s@, sub@),
{
    let n = s.unicode_len();
    let m = sub.unicode_len();
    if m > n {
        return false;
    }
    if m == 0 {
        proof {
            assert(s@.subrange(0, 0 + sub@.len() as int) =~= sub@);
        }
        return true;
    }
    let mut i: usize = 0;
    while i <= n - m
        invariant
            n == s@.len(),
            m == sub@.len(),
            1 <= m <= n,
            i <= n - m + 1,
            forall|p: int| 0 <= p < i ==> #[trigger] s@.subrange(p, p + sub@.len()) != sub@,
        decreases n - m + 1 - i,
    {
        let mut j: usize = 0;
        let mut matched: bool = true;
        while j < m
            invariant
                n == s@.len(),
                m == sub@.len(),
                i + m <= n,
                j <= m,
                matched ==> forall|q: int| 0 <= q < j ==> s@[i + q] == sub@[q],
                !matched ==> s@.subrange(i as int, i + sub@.len()) != sub@,
            decreases m - j,
        {
            if s.get_char(i + j) != sub.get_char(j) {
                proof {
                    assert(s@.subrange(i as int, i + sub@.len())[j as int] == s@[i + j]);
                }
                matched = false;
                j = m;
            } else {
                j = j + 1;
            }
        }
        if matched {
            proof {
                assert(s@.subrange(i as int, i + sub@.len()) =~= sub@);
            }
            return true;
        }
        i = i + 1;
    }
    proof {
        assert forall|p: int|
            0 <= p <= s@.len() - sub@.len() implies #[trigger] s@.subrange(p, p + sub@.len())
            != sub@ by {
            assert(p < i);
        }
    }
    false
}

/// Splits a PATH value into its `;`-separated segments.
pub fn split_path(s: &str) -> (r: Vec<String>)
    ensures
        r@.map_values(|seg: String| seg@) == path_segments(s@),
{
    let n = s.unicode_len();
    let mut result: Vec<String> = Vec::new();
    let mut start: usize = 0;
    let mut cur: usize = 0;
    while cur < n
        invariant
            start <= cur <= n,
            n == s@.len(),
            path_segments(s@) == result@.map_values(|seg: String| seg@) + split_from(
                s@,
                start as int,
                cur as int,
            ),
        decreases n - cur,
    {
        if s.get_char(cur) == ';' {
            let seg = s.substring_char(start, cur);
            let ghost old_mapped = result@.map_values(|seg: String| seg@);
            result.push(String::from_str(seg));
            proof {
                assert(result@.map_values(|seg: String| seg@) =~= old_mapped.push(
                    s@.subrange(start as int, cur as int),
                ));
                assert(old_mapped + split_from(s@, start as int, cur as int) =~= old_mapped.push(
                    s@.subrange(start as int, cur as int),
                ) + split_from(s@, cur as int + 1, cur as int + 1));
            }
            start = cur + 1;
            cur = cur + 1;
        } else {
            cur = cur + 1;
        }
    }
    let seg = s.substring_char(start, n);
    let ghost old_mapped = result@.map_values(|seg: String| seg@);
    result.push(String::from_str(seg));
    proof {
        assert(result@.map_values(|seg: String| seg@) =~= old_mapped.push(
            s@.subrange(start as int, n as int),
        ));
        assert(old_mapped + split_from(s@, start as int, n as int) =~= old_mapped.push(
            s@.subrange(start as int, n as int),
        ));
    }
    result
}

proof fn lemma_join_push(segs: Seq<Seq<char>>, x: Seq<char>)
    requires
        segs.len() >= 1,
    ensures
        join_segments(segs.push(x)) == join_segments(segs) + seq![';'] + x,
    decreases segs.len(),
{
    let whole = segs.push(x);
    if segs.len() == 1 {
        assert(whole.len() == 2);
        assert(whole.drop_first() =~= seq![x]);
        assert(join_segments(whole) == whole[0] + seq![';'] + join_segments(seq![x]));
        assert(join_segments(seq![x]) == x);
    } else {
        lemma_join_push(segs.drop_first(), x);
        assert(whole.drop_first() =~= segs.drop_first().push(x));
        assert(join_segments(whole) == whole[0] + seq![';'] + join_segments(
            segs.drop_first().push(x),
        ));
        assert(segs[0] + seq![';'] + (join_segments(segs.drop_first()) + seq![';'] + x)
            =~= (segs[0] + seq![';'] + join_segments(segs.drop_first())) + seq![';'] + x);
    }
}

/// Joins segments into a PATH value with `;` between them.
pub fn join_path(segs: &Vec<String>) -> (r: String)
    ensures
        r@ == join_segments(segs@.map_values(|seg: String| seg@)),
{
    let ghost mapped = segs@.map_values(|seg: String| seg@);
    if segs.len() == 0 {
        return String::new();
    }
    let mut out = segs[0].clone();
    let mut i: usize = 1;
    proof {
        assert(mapped.subrange(0, 1) =~= seq![mapped[0]]);
        assert(join_segments(seq![mapped[0]]) == mapped[0]);
    }
    while i < segs.len()
        invariant
            1 <= i <= segs@.len(),
            mapped == segs@.map_values(|seg: String| seg@),
            mapped.len() == segs@.len(),
            out@ == join_segments(mapped.subrange(0, i as int)),
        decreases segs@.len() - i,
    {
        out.append(";");
        out.append(segs[i].as_str());
        proof {
            reveal_strlit(";");
            assert(";"@ =~= seq![';']);
            let prefix = mapped.subrange(0, i as int);
            lemma_join_push(prefix, mapped[i as int]);
            assert(prefix.push(mapped[i as int]) =~= mapped.subrange(0, i as int + 1));
        }
        i = i + 1;
    }
    proof {
        assert(mapped.subrange(0, mapped.len() as int) =~= mapped);
    }
    out
}

/// Adds `segment` to a PATH value, the way the installer records the `bin`
/// directory: when the segment is already contained (as a literal
/// substring) nothing is to be written and the result is `None`; otherwise
/// the result is the value to persist, the old value with `;` and the
/// segment appended.
pub fn add_env_var(env_path: &str, segment: &str) -> (r: Option<String>)
    ensures
        r is Some <==> !is_substring(env_path@, segment@),
        match r {
            Some(new) => new@ == added_path(env_path@, segment@),
            None => true,
        },
{
    if str_contains(env_path, segment) {
        return None;
    }
    let mut segs = split_path(env_path);
    let ghost old_mapped = segs@.map_values(|seg: String| seg@);
    segs.push(String::from_str(segment));
    let joined = join_path(&segs);
    proof {
        assert(segs@.map_values(|seg: String| seg@) =~= old_mapped.push(segment@));
        lemma_split_from_nonempty(env_path@, 0, 0);
        lemma_join_push(old_mapped, segment@);
        lemma_join_of_segments(env_path@);
    }
    Some(joined)
}

/// Removes `segment` from a PATH value, the way the uninstaller drops the
/// `bin` directory: when the segment is not contained (as a literal
/// substring) nothing is to be written and the result is `None`; otherwise
/// the result is the value to persist, the old segments with every one
/// equal to `segment` filtered out, rejoined with `;`.
pub fn remove_env_var(env_path: &str, segment: &str) -> (r: Option<String>)
    ensures
        r is Some <==> is_substring(env_path@, segment@),
        match r {
            Some(new) => new@ == removed_path(env_path@, segment@),
            None => true,
        },
{
    if !str_contains(env_path, segment) {
        return None;
    }
    let segs = split_path(env_path);
    let ghost mapped = segs@.map_values(|seg: String| seg@);
    let mut kept: Vec<String> = Vec::new();
    let mut i: usize = 0;
    proof {
        reveal(Seq::filter);
        assert(mapped.subrange(0, 0).filter(keeps(segment@)) =~= Seq::<Seq<char>>::empty());
        assert(kept@.map_values(|seg: String| seg@) =~= Seq::<Seq<char>>::empty());
    }
    while i < segs.len()
        invariant
            i <= segs@.len(),
            mapped == segs@.map_values(|seg: String| seg@),
            mapped.len() == segs@.len(),
            kept@.map_values(|seg: String| seg@) == mapped.subrange(0, i as int).filter(
                keeps(segment@),
            ),
        decreases segs@.len() - i,
    {
        let ghost prefix = mapped.subrange(0, i as int);
        let ghost extended = mapped.subrange(0, i as int + 1);
        proof {
            reveal(Seq::filter);
            assert(extended.drop_last() =~= prefix);
            assert(extended.last() == mapped[i as int]);
            assert(mapped[i as int] == segs@[i as int]@);
            assert(extended.len() > 0);
            assert(extended.filter(keeps(segment@)) == if keeps(segment@)(extended.last()) {
                prefix.filter(keeps(segment@)).push(extended.last())
            } else {
                prefix.filter(keeps(segment@))
            });
        }
        if !str_eq(segs[i].as_str(), segment) {
            let ghost old_kept = kept@.map_values(|seg: String| seg@);
            let item = segs[i].clone();
            kept.push(item);
            proof {
                assert(kept@.map_values(|seg: String| seg@) =~= old_kept.push(mapped[i as int]));
            }
        }
        i = i + 1;
    }
    proof {
        assert(mapped.subrange(0, mapped.len() as int) =~= mapped);
    }
    Some(join_path(&kept))
}

} // verus!
