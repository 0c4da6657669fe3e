use vstd::prelude::*;
use vstd::string::StrSliceExecFns;
use crate::path::{chars_of, is_normal, path_segments, segments};
use crate::types::views;

verus! {

/// What `str::to_lowercase` makes of a string.
pub uninterp spec fn lower_of(s: Seq<char>) -> Seq<char>;

/// Relies on `str::to_lowercase`: the result depends on the characters alone, and an empty
/// string stays empty.
#[verifier::external_body]
pub(crate) fn to_lower(s: &str) -> (r: String)
    ensures
        r@ == lower_of(s@),
        s@.len() == 0 ==> r@.len() == 0,
{
    s.to_lowercase()
}

/// `needle` occurs in `hay` at position `i`.
pub open spec fn occurs_at(hay: Seq<char>, needle: Seq<char>, i: int) -> bool {
    0 <= i && i + needle.len() <= hay.len() && hay.subrange(i, i + needle.len()) == needle
}

pub open spec fn has_substring(hay: Seq<char>, needle: Seq<char>) -> bool {
    exists|i: int| occurs_at(hay, needle, i)
}

/// A path matches a lower-cased pattern when its lower-cased text, or that of one of its normal
/// segments, contains the pattern.
pub open spec fn matches_pattern(path: Seq<char>, pat: Seq<char>) -> bool {
    has_substring(lower_of(path), pat) || exists|k: int|
        0 <= k < segments(path).len() && is_normal(#[trigger] segments(path)[k]) && has_substring(
            lower_of(segments(path)[k]),
            pat,
        )
}

/// Whether `needle` occurs in `hay`.
pub fn contains_str(hay: &str, needle: &str) -> (r: bool)
    ensures
        r == has_substring(hay@, needle@),
{
    let h = chars_of(hay);
    let nd = chars_of(needle);
    if nd.len() > h.len() {
        return false;
    }
    if nd.len() == 0 {
        assert(hay@.subrange(0, 0) =~= needle@);
        assert(occurs_at(hay@, needle@, 0));
        return true;
    }
    let hl = h.len();
    let end = hl - nd.len() + 1;
    let mut i: usize = 0;
    while i < end
        invariant
            h@ == hay@,
            nd@ == needle@,
            1 <= nd@.len() <= h@.len(),
            end == h@.len() - nd@.len() + 1,
            hl == h@.len(),
            i <= end,
            forall|j: int| 0 <= j < i ==> !occurs_at(hay@, needle@, j),
        decreases end - i,
    {
        let mut k: usize = 0;
        let mut same = true;
        while k < nd.len()
            invariant
                h@ == hay@,
                nd@ == needle@,
                1 <= nd@.len() <= h@.len(),
                end == h@.len() - nd@.len() + 1,
                i < end,
                hl == h@.len(),
                k <= nd@.len(),
                same == forall|m: int| 0 <= m < k ==> h@[i + m] == nd@[m],
            decreases nd@.len() - k,
        {
            if h[i + k] != nd[k] {
                same = false;
            }
            k += 1;
        }
        if same {
            assert(hay@.subrange(i as int, i + needle@.len()) =~= needle@);
            assert(occurs_at(hay@, needle@, i as int));
            return true;
        }
        assert(!occurs_at(hay@, needle@, i as int)) by {
            let m = choose|m: int| 0 <= m < nd@.len() && h@[i + m] != nd@[m];
            assert(hay@.subrange(i as int, i + needle@.len())[m] == h@[i + m]);
        }
        i += 1;
    }
    false
}

/// Whether a path matches a pattern that is already lower-cased: a case-insensitive substring of
/// the whole path or of one of its segments.
pub fn path_matches(path: &str, pattern_lower: &str) -> (r: bool)
    ensures
        r == matches_pattern(path@, pattern_lower@),
{
    let whole = to_lower(path);
    if contains_str(whole.as_str(), pattern_lower) {
        return true;
    }
    let segs = path_segments(path);
    let mut k: usize = 0;
    while k < segs.len()
        invariant
            k <= segs@.len(),
            views(segs@) == segments(path@),
            forall|j: int|
                0 <= j < k ==> !(is_normal(#[trigger] segments(path@)[j]) && has_substring(
                    lower_of(segments(path@)[j]),
                    pattern_lower@,
                )),
        decreases segs@.len() - k,
    {
        assert(segments(path@)[k as int] == segs@[k as int]@);
        let seg = segs[k].as_str();
        let normal = !(seg.unicode_len() == 2 && seg.get_char(0) == '.' && seg.get_char(1) == '.');
        assert(normal == is_normal(seg@)) by {
            if seg@.len() == 2 && seg@[0] == '.' && seg@[1] == '.' {
                assert(seg@ =~= seq!['.', '.']);
            }
        }
        if normal {
            let low = to_lower(seg);
            if contains_str(low.as_str(), pattern_lower) {
                return true;
            }
        }
        k += 1;
    }
    false
}

/// The frecency pass: walking the candidates in frecency order, keep each match until `limit`
/// are kept.
pub open spec fn phase_one(f: Seq<Seq<char>>, pat: Seq<char>, limit: int) -> Seq<Seq<char>>
    decreases f.len(),
{
    if f.len() == 0 {
        seq![]
    } else {
        let prev = phase_one(f.drop_last(), pat, limit);
        if prev.len() < limit && matches_pattern(f.last(), pat) {
            prev.push(f.last())
        } else {
            prev
        }
    }
}

/// The fallback pass: walking the catalog in its order, append each match not yet selected
/// until `limit` are selected.
pub open spec fn phase_two(sel: Seq<Seq<char>>, cat: Seq<Seq<char>>, pat: Seq<char>, limit: int) -> Seq<
    Seq<char>,
>
    decreases cat.len(),
{
    if cat.len() == 0 {
        sel
    } else {
        let prev = phase_two(sel, cat.drop_last(), pat, limit);
        if prev.len() < limit && matches_pattern(cat.last(), pat) && !prev.contains(cat.last()) {
            prev.push(cat.last())
        } else {
            prev
        }
    }
}

/// How many frecent candidates the first pass looks at: ten per wanted result, at most 500.
pub open spec fn frecent_cap(limit: int) -> int {
    if limit * 10 < 500 {
        limit * 10
    } else {
        500
    }
}

pub open spec fn min(a: int, b: int) -> int {
    if a < b {
        a
    } else {
        b
    }
}

/// The ranked answer to a query. With an empty pattern: the first `limit` frecent paths.
/// Otherwise: the first pass over at most `frecent_cap(limit)` frecent paths, completed by the
/// fallback pass over the catalog.
pub open spec fn query_result(
    pattern: Seq<char>,
    limit: int,
    frecent: Seq<Seq<char>>,
    catalog: Seq<Seq<char>>,
) -> Seq<Seq<char>> {
    if pattern.len() == 0 {
        frecent.take(min(limit, frecent.len() as int))
    } else {
        let pat = lower_of(pattern);
        phase_two(
            phase_one(frecent.take(min(frecent_cap(limit), frecent.len() as int)), pat, limit),
            catalog,
            pat,
            limit,
        )
    }
}

fn contains_string(v: &Vec<String>, x: &String) -> (r: bool)
    ensures
        r == views(v@).contains(x@),
{
    let mut i: usize = 0;
    while i < v.len()
        invariant
            i <= v@.len(),
            forall|j: int| 0 <= j < i ==> #[trigger] views(v@)[j] != x@,
        decreases v@.len() - i,
    {
        if v[i].eq(x) {
            assert(views(v@)[i as int] == x@);
            return true;
        }
        i += 1;
    }
    false
}

/// Answer a ranked query. `frecent` holds the known projects with a positive score, best first
/// (score descending, then path); `catalog` holds the projects to fall back on, in the order of
/// the store's substring search (shorter paths first, then alphabetical).
pub fn query(pattern: &str, limit: usize, frecent: &Vec<String>, catalog: &Vec<String>) -> (r: Vec<
    String,
>)
    ensures
        views(r@) == query_result(pattern@, limit as int, views(frecent@), views(catalog@)),
{
    if pattern.unicode_len() == 0 {
        let n = if limit < frecent.len() {
            limit
        } else {
            frecent.len()
        };
        let mut out: Vec<String> = Vec::new();
        let mut i: usize = 0;
        while i < n
            invariant
                n <= frecent@.len(),
                n == min(limit as int, frecent@.len() as int),
                i <= n,
                views(out@) == views(frecent@).take(i as int),
            decreases n - i,
        {
            let ghost before = out@;
            out.push(frecent[i].clone());
            assert(views(out@) =~= views(frecent@).take(i as int + 1)) by {
                assert(views(out@) =~= views(before).push(frecent@[i as int]@));
            }
            i += 1;
        }
        return out;
    }
    let pat = to_lower(pattern);
    let cap: usize = if limit < 50 {
        limit * 10
    } else {
        500
    };
    let n = if cap < frecent.len() {
        cap
    } else {
        frecent.len()
    };
    let ghost f = views(frecent@).take(n as int);
    let mut out: Vec<String> = Vec::new();
    let mut i: usize = 0;
    while i < n
        invariant
            n <= frecent@.len(),
            f == views(frecent@).take(n as int),
            i <= n,
            views(out@) == phase_one(f.take(i as int), pat@, limit as int),
        decreases n - i,
    {
        assert(f.take(i as int + 1).drop_last() =~= f.take(i as int));
        assert(f.take(i as int + 1).last() == frecent@[i as int]@);
        if out.len() < limit && path_matches(frecent[i].as_str(), pat.as_str()) {
            let ghost before = out@;
            out.push(frecent[i].clone());
            assert(views(out@) =~= views(before).push(frecent@[i as int]@));
        }
        i += 1;
    }
    assert(f.take(n as int) =~= f);
    let ghost sel = views(out@);
    let ghost cat = views(catalog@);
    let mut j: usize = 0;
    while j < catalog.len()
        invariant
            j <= catalog@.len(),
            cat == views(catalog@),
            views(out@) == phase_two(sel, cat.take(j as int), pat@, limit as int),
        decreases catalog@.len() - j,
    {
        assert(cat.take(j as int + 1).drop_last() =~= cat.take(j as int));
        assert(cat.take(j as int + 1).last() == catalog@[j as int]@);
        if out.len() < limit && path_matches(catalog[j].as_str(), pat.as_str()) && !contains_string(
            &out,
            &catalog[j],
        ) {
            let ghost before = out@;
            out.push(catalog[j].clone());
            assert(views(out@) =~= views(before).push(catalog@[j as int]@));
        }
        j += 1;
    }
    assert(cat.take(j as int) =~= cat);
    proof {
        assert(frecent_cap(limit as int) == cap);
    }
    out
}

/// The distinct catalog paths that match a lower-cased pattern.
pub open spec fn matching_paths(cat: Seq<Seq<char>>, pat: Seq<char>) -> Set<Seq<char>> {
    cat.to_set().filter(|c: Seq<char>| matches_pattern(c, pat))
}

proof fn lemma_phase_one_len(f: Seq<Seq<char>>, pat: Seq<char>, limit: int)
    requires
        limit >= 0,
    ensures
        phase_one(f, pat, limit).len() <= limit,
        forall|i: int|
            0 <= i < phase_one(f, pat, limit).len() ==> matches_pattern(
                #[trigger] phase_one(f, pat, limit)[i],
                pat,
            ),
    decreases f.len(),
{
    if f.len() > 0 {
        lemma_phase_one_len(f.drop_last(), pat, limit);
    }
}

proof fn lemma_phase_two(sel: Seq<Seq<char>>, cat: Seq<Seq<char>>, pat: Seq<char>, limit: int)
    ensures
        phase_two(sel, cat, pat, limit).len() >= sel.len(),
        sel.len() <= limit ==> phase_two(sel, cat, pat, limit).len() <= limit,
        forall|i: int|
            0 <= i < sel.len() ==> #[trigger] phase_two(sel, cat, pat, limit)[i] == sel[i],
        forall|i: int|
            sel.len() <= i < phase_two(sel, cat, pat, limit).len() ==> matches_pattern(
                #[trigger] phase_two(sel, cat, pat, limit)[i],
                pat,
            ),
        forall|c: Seq<char>|
            cat.contains(c) && matches_pattern(c, pat) ==> phase_two(sel, cat, pat, limit).len()
                >= limit || phase_two(sel, cat, pat, limit).contains(c),
    decreases cat.len(),
{
    if cat.len() > 0 {
        lemma_phase_two(sel, cat.drop_last(), pat, limit);
        let prev = phase_two(sel, cat.drop_last(), pat, limit);
        let r = phase_two(sel, cat, pat, limit);
        assert forall|c: Seq<char>| cat.contains(c) && matches_pattern(c, pat) implies r.len()
            >= limit || r.contains(c) by {
            let k = choose|k: int| 0 <= k < cat.len() && cat[k] == c;
            if k < cat.len() - 1 {
                assert(cat.drop_last()[k] == c);
                if prev.contains(c) {
                    let j = choose|j: int| 0 <= j < prev.len() && prev[j] == c;
                    assert(r[j] == c);
                }
            } else {
                if !(prev.len() >= limit) && !prev.contains(c) {
                    assert(r[r.len() - 1] == c);
                }
            }
        }
    }
}

/// A query with a non-empty pattern returns at most `limit` paths, each matching the pattern,
/// and never fewer than `limit` or the number of distinct catalog paths that match, whichever is
/// smaller, whatever the frecent candidates were.
pub proof fn lemma_query_complete(
    pattern: Seq<char>,
    limit: usize,
    frecent: Seq<Seq<char>>,
    catalog: Seq<Seq<char>>,
)
    requires
        pattern.len() > 0,
    ensures
        query_result(pattern, limit as int, frecent, catalog).len() <= limit,
        forall|i: int|
            0 <= i < query_result(pattern, limit as int, frecent, catalog).len() ==> matches_pattern(
                #[trigger] query_result(pattern, limit as int, frecent, catalog)[i],
                lower_of(pattern),
            ),
        query_result(pattern, limit as int, frecent, catalog).len() >= min(
            limit as int,
            matching_paths(catalog, lower_of(pattern)).len() as int,
        ),
{
    let pat = lower_of(pattern);
    let one = phase_one(frecent.take(min(frecent_cap(limit as int), frecent.len() as int)), pat, limit as int);
    lemma_phase_one_len(frecent.take(min(frecent_cap(limit as int), frecent.len() as int)), pat, limit as int);
    lemma_phase_two(one, catalog, pat, limit as int);
    let r = query_result(pattern, limit as int, frecent, catalog);
    assert(r == phase_two(one, catalog, pat, limit as int));
    assert forall|i: int| 0 <= i < r.len() implies matches_pattern(#[trigger] r[i], pat) by {
        if i < one.len() {
            assert(r[i] == one[i]);
        }
    }
    if r.len() < limit {
        let m = matching_paths(catalog, pat);
        assert(m.subset_of(r.to_set())) by {
            assert forall|c: Seq<char>| m.contains(c) implies r.to_set().contains(c) by {
                assert(catalog.contains(c));
            }
        }
        r.lemma_cardinality_of_set();
        vstd::seq_lib::seq_to_set_is_finite(r);
        vstd::set_lib::lemma_len_subset(m, r.to_set());
    }
}

} // verus!
