use vstd::prelude::*;
use crate::ranking::{is_stable_order, ordered_before, sort_order, stable_sort_order};
use crate::text::{chars_of, string_from_chars};

verus! {

/// Lexicographic order of character sequences, as `str`'s `<` orders text.
pub open spec fn text_less(a: Seq<char>, b: Seq<char>) -> bool
    decreases a.len(),
{
    if a.len() == 0 {
        b.len() > 0
    } else if b.len() == 0 {
        false
    } else if a[0] != b[0] {
        a[0] < b[0]
    } else {
        text_less(a.drop_first(), b.drop_first())
    }
}

proof fn lemma_text_less_irreflexive(a: Seq<char>)
    ensures
        !text_less(a, a),
    decreases a.len(),
{
    if a.len() > 0 {
        lemma_text_less_irreflexive(a.drop_first());
    }
}

proof fn lemma_text_less_trichotomy(a: Seq<char>, b: Seq<char>)
    ensures
        text_less(a, b) || text_less(b, a) || a == b,
        !(text_less(a, b) && text_less(b, a)),
    decreases a.len(),
{
    if a.len() > 0 && b.len() > 0 && a[0] == b[0] {
        lemma_text_less_trichotomy(a.drop_first(), b.drop_first());
        if a.drop_first() == b.drop_first() {
            assert(a =~= seq![a[0]] + a.drop_first());
            assert(b =~= seq![b[0]] + b.drop_first());
        }
    } else if a.len() == 0 && b.len() == 0 {
        assert(a =~= b);
    }
}

proof fn lemma_text_less_transitive(a: Seq<char>, b: Seq<char>, c: Seq<char>)
    requires
        text_less(a, b),
        text_less(b, c),
    ensures
        text_less(a, c),
    decreases a.len(),
{
    if a.len() > 0 && b.len() > 0 && c.len() > 0 && a[0] == b[0] && b[0] == c[0] {
        lemma_text_less_transitive(a.drop_first(), b.drop_first(), c.drop_first());
    }
}

/// Whether `a` comes before `b` in lexicographic order.
pub fn chars_less(a: &Vec<char>, b: &Vec<char>) -> (r: bool)
    ensures
        r == text_less(a@, b@),
{
    let mut i: usize = 0;
    assert(a@.skip(0) =~= a@);
    assert(b@.skip(0) =~= b@);
    while i < a.len() && i < b.len() && a[i] == b[i]
        invariant
            i <= a@.len(),
            i <= b@.len(),
            text_less(a@.skip(i as int), b@.skip(i as int)) == text_less(a@, b@),
        decreases a@.len() - i,
    {
        assert(a@.skip(i as int).drop_first() =~= a@.skip(i + 1));
        assert(b@.skip(i as int).drop_first() =~= b@.skip(i + 1));
        i = i + 1;
    }
    if i == a.len() {
        i < b.len()
    } else if i == b.len() {
        false
    } else {
        a[i] < b[i]
    }
}

/// `i` holds the latest text of `texts`: none comes after it, and every
/// earlier one comes before it.
pub open spec fn is_first_latest(texts: Seq<Seq<char>>, i: int) -> bool {
    &&& 0 <= i < texts.len()
    &&& forall|j: int| 0 <= j < texts.len() ==> !text_less(texts[i], #[trigger] texts[j])
    &&& forall|j: int| 0 <= j < i ==> text_less(#[trigger] texts[j], texts[i])
}

/// The index of the first of the lexicographically latest texts (as a
/// descending stable sort puts first); `None` when there are none.
pub fn first_latest(texts: &Vec<String>) -> (r: Option<usize>)
    ensures
        match r {
            Some(i) => is_first_latest(texts@.map_values(|s: String| s@), i as int),
            None => texts@.len() == 0,
        },
{
    let ghost ts = texts@.map_values(|s: String| s@);
    if texts.len() == 0 {
        return None;
    }
    let mut best: usize = 0;
    let mut best_chars = chars_of(texts[0].as_str());
    let mut i: usize = 1;
    proof {
        lemma_text_less_irreflexive(ts[0]);
    }
    while i < texts.len()
        invariant
            ts == texts@.map_values(|s: String| s@),
            1 <= i <= texts@.len(),
            best < i,
            best_chars@ == ts[best as int],
            forall|j: int| 0 <= j < i ==> !text_less(ts[best as int], #[trigger] ts[j]),
            forall|j: int| 0 <= j < best ==> text_less(#[trigger] ts[j], ts[best as int]),
        decreases texts@.len() - i,
    {
        let cur = chars_of(texts[i].as_str());
        assert(cur@ == ts[i as int]);
        if chars_less(&best_chars, &cur) {
            proof {
                assert forall|j: int| 0 <= j < i + 1 implies !text_less(cur@, #[trigger] ts[j]) by {
                    if j < i {
                        lemma_text_less_trichotomy(ts[best as int], ts[j]);
                        if text_less(cur@, ts[j]) {
                            if ts[j] == ts[best as int] {
                                lemma_text_less_trichotomy(ts[best as int], cur@);
                            } else {
                                lemma_text_less_transitive(ts[j], ts[best as int], cur@);
                                lemma_text_less_trichotomy(ts[j], cur@);
                            }
                        }
                    } else {
                        lemma_text_less_irreflexive(cur@);
                    }
                }
                assert forall|j: int| 0 <= j < i implies text_less(#[trigger] ts[j], cur@) by {
                    lemma_text_less_trichotomy(ts[best as int], ts[j]);
                    if ts[j] != ts[best as int] {
                        lemma_text_less_transitive(ts[j], ts[best as int], cur@);
                    }
                }
            }
            best = i;
            best_chars = cur;
        }
        i = i + 1;
    }
    Some(best)
}

/// How many texts come strictly before `t`.
pub open spec fn count_before(texts: Seq<Seq<char>>, t: Seq<char>) -> int
    decreases texts.len(),
{
    if texts.len() == 0 {
        0
    } else {
        count_before(texts.drop_last(), t) + if text_less(texts.last(), t) {
            1int
        } else {
            0
        }
    }
}

/// The rank of each text: how many texts come strictly before it.
pub open spec fn text_ranks(texts: Seq<Seq<char>>) -> Seq<i128> {
    Seq::new(texts.len(), |i: int| count_before(texts, texts[i]) as i128)
}

proof fn lemma_count_before_bounds(texts: Seq<Seq<char>>, t: Seq<char>)
    ensures
        0 <= count_before(texts, t) <= texts.len(),
    decreases texts.len(),
{
    if texts.len() > 0 {
        lemma_count_before_bounds(texts.drop_last(), t);
    }
}

proof fn lemma_count_before_monotone(texts: Seq<Seq<char>>, a: Seq<char>, b: Seq<char>)
    requires
        text_less(a, b),
    ensures
        count_before(texts, a) <= count_before(texts, b),
        texts.contains(a) ==> count_before(texts, a) < count_before(texts, b),
    decreases texts.len(),
{
    if texts.len() > 0 {
        lemma_count_before_monotone(texts.drop_last(), a, b);
        if text_less(texts.last(), a) {
            lemma_text_less_transitive(texts.last(), a, b);
        }
        if texts.contains(a) {
            let k = choose|k: int| 0 <= k < texts.len() && texts[k] == a;
            if k < texts.len() - 1 {
                assert(texts.drop_last()[k] == a);
                assert(texts.drop_last().contains(a));
            } else {
                lemma_text_less_irreflexive(a);
            }
        }
    }
}

/// The indices of `texts` in stable ascending lexicographic order.
pub fn sort_by_text(texts: &Vec<String>) -> (order: Vec<usize>)
    ensures
        is_stable_order(text_ranks(texts@.map_values(|s: String| s@)), order@),
        order@ == sort_order(text_ranks(texts@.map_values(|s: String| s@))),
{
    let ghost ts = texts@.map_values(|s: String| s@);
    let mut chars: Vec<Vec<char>> = Vec::new();
    let mut i: usize = 0;
    while i < texts.len()
        invariant
            ts == texts@.map_values(|s: String| s@),
            i <= texts@.len(),
            chars@.len() == i,
            forall|j: int| 0 <= j < i ==> (#[trigger] chars@[j])@ == ts[j],
        decreases texts@.len() - i,
    {
        chars.push(chars_of(texts[i].as_str()));
        i = i + 1;
    }
    let mut keys: Vec<i128> = Vec::new();
    let mut i: usize = 0;
    while i < chars.len()
        invariant
            ts == texts@.map_values(|s: String| s@),
            chars@.len() == ts.len(),
            forall|j: int| 0 <= j < ts.len() ==> (#[trigger] chars@[j])@ == ts[j],
            i <= chars@.len(),
            keys@.len() == i,
            forall|j: int| 0 <= j < i ==> #[trigger] keys@[j] == count_before(ts, ts[j]) as i128,
        decreases chars@.len() - i,
    {
        let mut count: i128 = 0;
        let mut j: usize = 0;
        assert(ts.take(0) =~= Seq::<Seq<char>>::empty());
        while j < chars.len()
            invariant
                chars@.len() == ts.len(),
                forall|m: int| 0 <= m < ts.len() ==> (#[trigger] chars@[m])@ == ts[m],
                i < chars@.len(),
                j <= chars@.len(),
                count == count_before(ts.take(j as int), ts[i as int]),
                count <= j,
            decreases chars@.len() - j,
        {
            assert(ts.take(j + 1).drop_last() =~= ts.take(j as int));
            if chars_less(&chars[j], &chars[i]) {
                count = count + 1;
            }
            j = j + 1;
        }
        assert(ts.take(ts.len() as int) =~= ts);
        keys.push(count);
        i = i + 1;
    }
    assert(keys@ =~= text_ranks(ts));
    stable_sort_order(&keys)
}

/// In a stable order by rank, texts never decrease.
pub proof fn lemma_text_order_ascends(texts: Seq<Seq<char>>, order: Seq<usize>, i: int, j: int)
    requires
        is_stable_order(text_ranks(texts), order),
        0 <= i < j < order.len(),
        texts.len() <= i128::MAX,
    ensures
        !text_less(texts[order[j] as int], texts[order[i] as int]),
{
    let a = texts[order[i] as int];
    let b = texts[order[j] as int];
    assert(ordered_before(text_ranks(texts), order[i] as int, order[j] as int));
    lemma_count_before_bounds(texts, a);
    lemma_count_before_bounds(texts, b);
    assert(text_ranks(texts)[order[i] as int] == count_before(texts, a) as i128);
    assert(text_ranks(texts)[order[j] as int] == count_before(texts, b) as i128);
    if text_less(b, a) {
        assert(texts[order[j] as int] == b);
        assert(texts.contains(b));
        lemma_count_before_monotone(texts, b, a);
        lemma_count_before_bounds(texts, a);
        lemma_count_before_bounds(texts, b);
    }
}

/// The distance between two instants.
pub open spec fn distance(a: int, b: int) -> int {
    if a >= b {
        a - b
    } else {
        b - a
    }
}

/// The index of the first instant closest to `t`.
pub fn closest_index(times: &Vec<i64>, t: i64) -> (r: usize)
    requires
        times@.len() > 0,
        forall|i: int| 0 <= i < times@.len() ==> -i64::MAX <= #[trigger] times@[i] - t <= i64::MAX,
    ensures
        r < times@.len(),
        forall|j: int| 0 <= j < times@.len() ==> distance(times@[r as int] as int, t as int) <= distance(#[trigger] times@[j] as int, t as int),
        forall|j: int| 0 <= j < r ==> distance(times@[r as int] as int, t as int) < distance(#[trigger] times@[j] as int, t as int),
{
    let mut best: usize = 0;
    let d0 = times[0] - t;
    let mut best_d: i64 = if d0 >= 0 { d0 } else { -d0 };
    let mut i: usize = 1;
    while i < times.len()
        invariant
            times@.len() > 0,
            forall|k: int| 0 <= k < times@.len() ==> -i64::MAX <= #[trigger] times@[k] - t <= i64::MAX,
            1 <= i <= times@.len(),
            best < i,
            best_d == distance(times@[best as int] as int, t as int),
            forall|j: int| 0 <= j < i ==> best_d <= distance(#[trigger] times@[j] as int, t as int),
            forall|j: int| 0 <= j < best ==> best_d < distance(#[trigger] times@[j] as int, t as int),
        decreases times@.len() - i,
    {
        let d = times[i] - t;
        let dd: i64 = if d >= 0 { d } else { -d };
        if dd < best_d {
            best = i;
            best_d = dd;
        }
        i = i + 1;
    }
    best
}

/// The minutes and seconds of a lap time "M:S": exactly one ':' in a
/// non-empty text.
pub open spec fn lap_time_parts(t: Seq<char>) -> Option<(Seq<char>, Seq<char>)> {
    if t.len() > 0 && exists|k: int| 0 <= k < t.len() && t[k] == ':' && forall|m: int|
        0 <= m < t.len() && m != k ==> t[m] != ':' {
        let k = choose|k: int| 0 <= k < t.len() && t[k] == ':';
        Some((t.take(k), t.skip(k + 1)))
    } else {
        None
    }
}

/// Splits a lap time "M:S" at its only ':'; `None` for an empty text or one
/// with no ':' or several.
pub fn split_lap_time(t: &str) -> (r: Option<(String, String)>)
    ensures
        match r {
            Some((m, s)) => lap_time_parts(t@) == Some((m@, s@)),
            None => lap_time_parts(t@) is None,
        },
{
    let cs = chars_of(t);
    if cs.len() == 0 {
        return None;
    }
    let mut colon: Option<usize> = None;
    let mut i: usize = 0;
    while i < cs.len()
        invariant
            i <= cs@.len(),
            cs@ == t@,
            match colon {
                Some(k) => k < i && cs@[k as int] == ':' && forall|m: int| 0 <= m < i && m != k ==> cs@[m] != ':',
                None => forall|m: int| 0 <= m < i ==> cs@[m] != ':',
            },
        decreases cs@.len() - i,
    {
        if cs[i] == ':' {
            match colon {
                Some(k) => {
                    proof {
                        assert forall|k2: int| 0 <= k2 < cs@.len() && cs@[k2] == ':' implies exists|m: int|
                            0 <= m < cs@.len() && m != k2 && cs@[m] == ':' by {
                            if k2 == k {
                                assert(cs@[i as int] == ':');
                            } else {
                                assert(cs@[k as int] == ':');
                            }
                        }
                    }
                    return None;
                },
                None => {
                    colon = Some(i);
                },
            }
        }
        i = i + 1;
    }
    match colon {
        Some(k) => {
            let ghost kk = k as int;
            assert(cs@[kk] == ':' && forall|m: int| 0 <= m < cs@.len() && m != kk ==> cs@[m] != ':');
            let ghost c = choose|c: int| 0 <= c < t@.len() && t@[c] == ':';
            assert(c == kk);
            let mut before: Vec<char> = Vec::new();
            let mut j: usize = 0;
            while j < k
                invariant
                    j <= k < cs@.len(),
                    before@ == cs@.take(j as int),
                decreases k - j,
            {
                before.push(cs[j]);
                j = j + 1;
                assert(before@ =~= cs@.take(j as int));
            }
            let mut after: Vec<char> = Vec::new();
            let mut j: usize = k + 1;
            while j < cs.len()
                invariant
                    k + 1 <= j <= cs@.len(),
                    after@ == cs@.subrange(k + 1, j as int),
                decreases cs@.len() - j,
            {
                after.push(cs[j]);
                j = j + 1;
                assert(after@ =~= cs@.subrange(k + 1, j as int));
            }
            assert(after@ =~= cs@.skip(k + 1));
            Some((string_from_chars(&before), string_from_chars(&after)))
        },
        None => None,
    }
}

} // verus!
