use vstd::prelude::*;
use vstd::string::StringExecFns;
use vstd::string::StrSliceExecFns;
use crate::path::{is_normal, path_segments, segments, string_from_chars};
use crate::types::views;

verus! {

/// Characters with a meaning in a regular expression, which must be escaped to stand for themselves.
pub open spec fn is_meta(c: char) -> bool {
    c == '\\' || c == '.' || c == '+' || c == '*' || c == '?' || c == '(' || c == ')' || c == '|'
        || c == '[' || c == ']' || c == '{' || c == '}' || c == '^' || c == '$' || c == '#' || c
        == '&' || c == '-' || c == '~'
}

/// What one character of a glob pattern becomes in the regular expression.
pub open spec fn glob_piece(c: char) -> Seq<char> {
    if c == '*' {
        seq!['.', '*']
    } else if c == '?' {
        seq!['.']
    } else if is_meta(c) {
        seq!['\\', c]
    } else {
        seq![c]
    }
}

pub open spec fn glob_body(p: Seq<char>) -> Seq<char>
    decreases p.len(),
{
    if p.len() == 0 {
        seq![]
    } else {
        glob_body(p.drop_last()) + glob_piece(p.last())
    }
}

/// The anchored regular expression a glob pattern stands for.
pub open spec fn glob_regex(p: Seq<char>) -> Seq<char> {
    seq!['^'] + glob_body(p) + seq!['$']
}

pub open spec fn has_wildcard(p: Seq<char>) -> bool {
    p.contains('*') || p.contains('?')
}

/// Whether `regex::Regex::new` accepts a pattern.
pub uninterp spec fn regex_compiles(re: Seq<char>) -> bool;

/// Whether a compiled pattern finds a match in a text.
pub uninterp spec fn regex_finds(re: Seq<char>, text: Seq<char>) -> bool;

/// One pattern excludes a name: it equals the name, or it holds a wildcard and its regular
/// expression compiles and matches the name.
pub open spec fn pattern_excludes(p: Seq<char>, name: Seq<char>) -> bool {
    name == p || (has_wildcard(p) && regex_compiles(glob_regex(p)) && regex_finds(
        glob_regex(p),
        name,
    ))
}

pub open spec fn excluded_by(name: Seq<char>, pats: Seq<Seq<char>>) -> bool {
    exists|i: int| 0 <= i < pats.len() && pattern_excludes(#[trigger] pats[i], name)
}

/// Some normal segment of the path is excluded.
pub open spec fn path_excluded(path: Seq<char>, pats: Seq<Seq<char>>) -> bool {
    exists|k: int|
        0 <= k < segments(path).len() && is_normal(#[trigger] segments(path)[k]) && excluded_by(
            segments(path)[k],
            pats,
        )
}

/// Relies on `regex::Regex::new` (does the pattern compile) and `Regex::is_match` (does it
/// match somewhere in the text).
#[verifier::external_body]
pub(crate) fn regex_match(re: &str, text: &str) -> (r: Option<bool>)
    ensures
        r == (if regex_compiles(re@) {
            Some(regex_finds(re@, text@))
        } else {
            None
        }),
{
    regex::Regex::new(re).ok().map(|x| x.is_match(text))
}

fn is_meta_char(c: char) -> (r: bool)
    ensures
        r == is_meta(c),
{
    c == '\\' || c == '.' || c == '+' || c == '*' || c == '?' || c == '(' || c == ')' || c == '|'
        || c == '[' || c == ']' || c == '{' || c == '}' || c == '^' || c == '$' || c == '#' || c
        == '&' || c == '-' || c == '~'
}

/// Turn a glob pattern into an anchored regular expression: meta characters are escaped,
/// `*` matches any run and `?` any single character.
pub fn glob_to_regex(pattern: &str) -> (r: String)
    ensures
        r@ == glob_regex(pattern@),
{
    let n = pattern.unicode_len();
    let mut out: Vec<char> = Vec::new();
    out.push('^');
    let mut i: usize = 0;
    while i < n
        invariant
            n == pattern@.len(),
            i <= n,
            out@ == seq!['^'] + glob_body(pattern@.take(i as int)),
        decreases n - i,
    {
        let c = pattern.get_char(i);
        assert(pattern@.take(i as int + 1).drop_last() == pattern@.take(i as int));
        let ghost before = out@;
        if c == '*' {
            out.push('.');
            out.push('*');
        } else if c == '?' {
            out.push('.');
        } else if is_meta_char(c) {
            out.push('\\');
            out.push(c);
        } else {
            out.push(c);
        }
        assert(out@ =~= before + glob_piece(c));
        i += 1;
    }
    assert(pattern@.take(n as int) =~= pattern@);
    out.push('$');
    string_from_chars(&out)
}

fn has_wildcard_exec(p: &str) -> (r: bool)
    ensures
        r == has_wildcard(p@),
{
    let n = p.unicode_len();
    let mut i: usize = 0;
    while i < n
        invariant
            n == p@.len(),
            i <= n,
            forall|j: int| 0 <= j < i ==> p@[j] != '*' && p@[j] != '?',
        decreases n - i,
    {
        let c = p.get_char(i);
        if c == '*' || c == '?' {
            assert(p@[i as int] == c);
            return true;
        }
        i += 1;
    }
    false
}

/// The decision that follows the regular-expression call: a name is excluded by a pattern when
/// the two are equal, or when the pattern holds a wildcard and the match succeeded. A failed
/// compilation (`None`) counts as no match.
pub fn decide_exclusion(name: &str, pattern: &str, regex_outcome: Option<bool>) -> (r: bool)
    ensures
        r == (name@ == pattern@ || (has_wildcard(pattern@) && regex_outcome == Some(true))),
{
    if String::from_str(name) == String::from_str(pattern) {
        return true;
    }
    if has_wildcard_exec(pattern) {
        match regex_outcome {
            Some(b) => b,
            None => false,
        }
    } else {
        false
    }
}

/// Whether one pattern excludes a directory name.
pub fn pattern_excludes_name(name: &str, pattern: &str) -> (r: bool)
    ensures
        r == pattern_excludes(pattern@, name@),
{
    if String::from_str(name) == String::from_str(pattern) {
        return true;
    }
    if has_wildcard_exec(pattern) {
        let re = glob_to_regex(pattern);
        let outcome = regex_match(re.as_str(), name);
        decide_exclusion(name, pattern, outcome)
    } else {
        false
    }
}

/// Whether any pattern excludes a directory name (exact equality, or a `*`/`?` glob matched
/// case-sensitively against the whole name).
pub fn should_exclude_dir(dir_name: &str, exclude_patterns: &[String]) -> (r: bool)
    ensures
        r == excluded_by(dir_name@, views(exclude_patterns@)),
{
    let mut i: usize = 0;
    while i < exclude_patterns.len()
        invariant
            i <= exclude_patterns@.len(),
            forall|j: int|
                0 <= j < i ==> !pattern_excludes(#[trigger] views(exclude_patterns@)[j], dir_name@),
        decreases exclude_patterns@.len() - i,
    {
        if pattern_excludes_name(dir_name, exclude_patterns[i].as_str()) {
            assert(views(exclude_patterns@)[i as int] == exclude_patterns@[i as int]@);
            return true;
        }
        i += 1;
    }
    false
}

/// Whether a candidate project path lies at or under an excluded directory: some normal segment
/// of it is excluded by name.
pub fn should_skip_project(path: &str, exclude_patterns: &[String]) -> (r: bool)
    ensures
        r == path_excluded(path@, views(exclude_patterns@)),
{
    let segs = path_segments(path);
    let mut k: usize = 0;
    while k < segs.len()
        invariant
            k <= segs@.len(),
            views(segs@) == segments(path@),
            forall|j: int|
                0 <= j < k ==> !(is_normal(#[trigger] segments(path@)[j]) && excluded_by(
                    segments(path@)[j],
                    views(exclude_patterns@),
                )),
        decreases segs@.len() - k,
    {
        assert(segments(path@)[k as int] == segs@[k as int]@);
        let seg = segs[k].as_str();
        let normal = !(seg.unicode_len() == 2 && seg.get_char(0) == '.' && seg.get_char(1) == '.');
        assert(normal == is_normal(seg@)) by {
            if seg@.len() == 2 && seg@[0] == '.' && seg@[1] == '.' {
                assert(seg@ =~= seq!['.', '.']);
            }
        }
        if normal && should_exclude_dir(seg, exclude_patterns) {
            return true;
        }
        k += 1;
    }
    false
}

} // verus!
