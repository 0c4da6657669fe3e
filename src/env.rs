use vstd::prelude::*;
use vstd::string::StringExecFns;
use vstd::string::StrSliceExecFns;
use crate::config::{ConfigManager, TuiConfig};
use crate::path::{chars_of, string_from_chars};
use crate::scanner::{char_is_whitespace, is_white_space};
use crate::types::{views, ScanConfig};

verus! {

/// Without its leading whitespace.
pub open spec fn trim_front(s: Seq<char>) -> Seq<char>
    decreases s.len(),
{
    if s.len() > 0 && is_white_space(s[0]) {
        trim_front(s.drop_first())
    } else {
        s
    }
}

/// Without its trailing whitespace.
pub open spec fn trim_back(s: Seq<char>) -> Seq<char>
    decreases s.len(),
{
    if s.len() > 0 && is_white_space(s.last()) {
        trim_back(s.drop_last())
    } else {
        s
    }
}

/// Without leading and trailing whitespace.
pub open spec fn trim(s: Seq<char>) -> Seq<char> {
    trim_back(trim_front(s))
}

/// The pieces between commas, empty ones included.
pub open spec fn comma_state(s: Seq<char>) -> (Seq<Seq<char>>, Seq<char>)
    decreases s.len(),
{
    if s.len() == 0 {
        (seq![], seq![])
    } else {
        let prev = comma_state(s.drop_last());
        if s.last() == ',' {
            (prev.0.push(prev.1), seq![])
        } else {
            (prev.0, prev.1.push(s.last()))
        }
    }
}

pub open spec fn comma_pieces(s: Seq<char>) -> Seq<Seq<char>> {
    comma_state(s).0.push(comma_state(s).1)
}

/// Each piece trimmed, empty ones dropped.
pub open spec fn trimmed_non_empty(p: Seq<Seq<char>>) -> Seq<Seq<char>>
    decreases p.len(),
{
    if p.len() == 0 {
        seq![]
    } else if trim(p.last()).len() == 0 {
        trimmed_non_empty(p.drop_last())
    } else {
        trimmed_non_empty(p.drop_last()).push(trim(p.last()))
    }
}

/// A comma-separated setting: the trimmed, non-empty pieces of the trimmed value.
pub open spec fn env_list(s: Seq<char>) -> Seq<Seq<char>> {
    if trim(s).len() == 0 {
        seq![]
    } else {
        trimmed_non_empty(comma_pieces(trim(s)))
    }
}

pub open spec fn all_digits(s: Seq<char>) -> bool {
    forall|i: int| 0 <= i < s.len() ==> '0' <= #[trigger] s[i] <= '9'
}

pub open spec fn digits_value(s: Seq<char>) -> nat
    decreases s.len(),
{
    if s.len() == 0 {
        0
    } else {
        digits_value(s.drop_last()) * 10 + ((s.last() as u32) - 48) as nat
    }
}

/// How `usize::from_str` reads a string: an optional `+`, then one or more ASCII digits whose
/// value fits.
pub open spec fn parse_usize(s: Seq<char>) -> Option<usize> {
    let body = if s.len() > 0 && s[0] == '+' {
        s.drop_first()
    } else {
        s
    };
    if body.len() > 0 && all_digits(body) && digits_value(body) <= usize::MAX {
        Some(digits_value(body) as usize)
    } else {
        None
    }
}

/// How `bool::from_str` reads a string: exactly `true` or `false`.
pub open spec fn parse_bool(s: Seq<char>) -> Option<bool> {
    if s == seq!['t', 'r', 'u', 'e'] {
        Some(true)
    } else if s == seq!['f', 'a', 'l', 's', 'e'] {
        Some(false)
    } else {
        None
    }
}

fn trim_chars(s: &Vec<char>) -> (r: Vec<char>)
    ensures
        r@ == trim(s@),
{
    let n = s.len();
    let mut i: usize = 0;
    assert(s@.skip(0) =~= s@);
    while i < n && char_is_whitespace(s[i])
        invariant
            n == s@.len(),
            i <= n,
            trim_front(s@) == trim_front(s@.skip(i as int)),
        decreases n - i,
    {
        assert(s@.skip(i as int).drop_first() =~= s@.skip(i as int + 1));
        i += 1;
    }
    assert(trim_front(s@.skip(i as int)) == s@.skip(i as int));
    let mut j: usize = n;
    while j > i && char_is_whitespace(s[j - 1])
        invariant
            n == s@.len(),
            i <= j <= n,
            trim_back(s@.skip(i as int)) == trim_back(s@.subrange(i as int, j as int)),
        decreases j,
    {
        assert(s@.subrange(i as int, j as int).drop_last() =~= s@.subrange(i as int, j - 1));
        j -= 1;
    }
    assert(s@.skip(i as int) =~= s@.subrange(i as int, n as int));
    let mut out: Vec<char> = Vec::new();
    let mut k: usize = i;
    while k < j
        invariant
            i <= k <= j,
            j <= n,
            n == s@.len(),
            out@ == s@.subrange(i as int, k as int),
        decreases j - k,
    {
        out.push(s[k]);
        assert(out@ =~= s@.subrange(i as int, k + 1));
        k += 1;
    }
    out
}

/// The string without leading and trailing whitespace.
pub fn trim_str(s: &str) -> (r: String)
    ensures
        r@ == trim(s@),
{
    let c = chars_of(s);
    let t = trim_chars(&c);
    string_from_chars(&t)
}

/// The trimmed, non-empty pieces of a comma-separated value.
pub fn split_list(s: &str) -> (r: Vec<String>)
    ensures
        views(r@) == env_list(s@),
{
    let c = chars_of(s);
    let t = trim_chars(&c);
    if t.len() == 0 {
        return Vec::new();
    }
    let mut out: Vec<String> = Vec::new();
    let mut cur: Vec<char> = Vec::new();
    let ghost mut done: Seq<Seq<char>> = seq![];
    let mut i: usize = 0;
    while i < t.len()
        invariant
            i <= t@.len(),
            (done, cur@) == comma_state(t@.take(i as int)),
            views(out@) == trimmed_non_empty(done),
        decreases t@.len() - i,
    {
        assert(t@.take(i as int + 1).drop_last() =~= t@.take(i as int));
        if t[i] == ',' {
            let piece = trim_chars(&cur);
            let ghost old_done = done;
            proof {
                done = done.push(cur@);
                assert(done.drop_last() =~= old_done);
            }
            if piece.len() > 0 {
                let ghost before = out@;
                out.push(string_from_chars(&piece));
                assert(views(out@) =~= views(before).push(piece@));
            }
            cur = Vec::new();
        } else {
            cur.push(t[i]);
        }
        i += 1;
    }
    assert(t@.take(i as int) =~= t@);
    let piece = trim_chars(&cur);
    if piece.len() > 0 {
        let ghost before = out@;
        out.push(string_from_chars(&piece));
        assert(views(out@) =~= views(before).push(piece@));
    }
    assert(done.push(cur@).drop_last() =~= done);
    out
}

proof fn lemma_digits_grow(s: Seq<char>, i: int)
    requires
        all_digits(s),
        0 <= i <= s.len(),
    ensures
        digits_value(s.take(i)) <= digits_value(s),
    decreases s.len() - i,
{
    if i < s.len() {
        lemma_digits_grow(s, i + 1);
        assert(s.take(i + 1).drop_last() =~= s.take(i));
    } else {
        assert(s.take(i) =~= s);
    }
}

/// Read an unsigned number as `usize::from_str` does.
pub fn parse_usize_str(s: &str) -> (r: Option<usize>)
    ensures
        r == parse_usize(s@),
{
    let c = chars_of(s);
    let start: usize = if c.len() > 0 && c[0] == '+' {
        1
    } else {
        0
    };
    let ghost body = if s@.len() > 0 && s@[0] == '+' {
        s@.drop_first()
    } else {
        s@
    };
    assert(body =~= c@.skip(start as int));
    if start >= c.len() {
        return None;
    }
    let mut acc: usize = 0;
    let mut i: usize = start;
    while i < c.len()
        invariant
            start <= i <= c@.len(),
            c@ == s@,
            body == (if s@.len() > 0 && s@[0] == '+' {
                s@.drop_first()
            } else {
                s@
            }),
            body == c@.skip(start as int),
            body.len() > 0,
            all_digits(body.take(i - start)),
            acc as nat == digits_value(body.take(i - start)),
        decreases c@.len() - i,
    {
        let ghost k = i - start;
        assert(body.take(k + 1).drop_last() =~= body.take(k));
        assert(body.take(k + 1).last() == c@[i as int]);
        let ch = c[i];
        if ch < '0' || ch > '9' {
            assert(!all_digits(body)) by {
                assert(body[k] == ch);
            }
            return None;
        }
        let d = (ch as u32 - 48) as usize;
        if acc > (usize::MAX - d) / 10 {
            proof {
                assert(acc * 10 + d > usize::MAX) by (nonlinear_arith)
                    requires
                        acc > (usize::MAX - d) / 10,
                        d <= 9,
                ;
                if all_digits(body) {
                    lemma_digits_grow(body, k + 1);
                }
            }
            return None;
        }
        proof {
            assert(acc * 10 + d <= usize::MAX) by (nonlinear_arith)
                requires
                    acc <= (usize::MAX - d) / 10,
                    d <= 9,
            ;
        }
        acc = acc * 10 + d;
        assert(all_digits(body.take(k + 1))) by {
            assert forall|j: int| 0 <= j < k + 1 implies '0' <= #[trigger] body.take(k + 1)[j] <= '9' by {
                if j < k {
                    assert(body.take(k + 1)[j] == body.take(k)[j]);
                }
            }
        }
        i += 1;
    }
    assert(body.take(c@.len() - start) =~= body);
    Some(acc)
}

/// Read a flag as `bool::from_str` does.
pub fn parse_bool_str(s: &str) -> (r: Option<bool>)
    ensures
        r == parse_bool(s@),
{
    let c = chars_of(s);
    if c.len() == 4 && c[0] == 't' && c[1] == 'r' && c[2] == 'u' && c[3] == 'e' {
        assert(c@ =~= seq!['t', 'r', 'u', 'e']);
        Some(true)
    } else if c.len() == 5 && c[0] == 'f' && c[1] == 'a' && c[2] == 'l' && c[3] == 's' && c[4]
        == 'e' {
        assert(c@ =~= seq!['f', 'a', 'l', 's', 'e']);
        Some(false)
    } else {
        None
    }
}

/// The raw values of the environment variables that override a scan configuration, each
/// `None` when unset.
#[derive(Clone, Debug)]
pub struct EnvOverrides {
    pub max_depth: Option<String>,
    pub exclude_patterns: Option<String>,
    pub project_indicators: Option<String>,
    pub follow_symlinks: Option<String>,
}

impl ConfigManager {
    /// Apply environment overrides: a depth or flag that parses (after trimming) replaces the
    /// setting; a list replaces it when it has at least one non-blank entry.
    pub fn load_from_env(config: &mut ScanConfig, env: &EnvOverrides)
        ensures
            final(config).max_depth == (match env.max_depth {
                Some(v) => match parse_usize(trim(v@)) {
                    Some(d) => Some(d),
                    None => old(config).max_depth,
                },
                None => old(config).max_depth,
            }),
            views(final(config).exclude_patterns@) == (match env.exclude_patterns {
                Some(v) => if env_list(v@).len() > 0 {
                    env_list(v@)
                } else {
                    views(old(config).exclude_patterns@)
                },
                None => views(old(config).exclude_patterns@),
            }),
            views(final(config).project_indicators@) == (match env.project_indicators {
                Some(v) => if env_list(v@).len() > 0 {
                    env_list(v@)
                } else {
                    views(old(config).project_indicators@)
                },
                None => views(old(config).project_indicators@),
            }),
            final(config).follow_symlinks == (match env.follow_symlinks {
                Some(v) => match parse_bool(trim(v@)) {
                    Some(b) => b,
                    None => old(config).follow_symlinks,
                },
                None => old(config).follow_symlinks,
            }),
    {
        if let Some(v) = &env.max_depth {
            let t = trim_str(v.as_str());
            if let Some(d) = parse_usize_str(t.as_str()) {
                config.max_depth = Some(d);
            }
        }
        if let Some(v) = &env.exclude_patterns {
            let list = split_list(v.as_str());
            if list.len() > 0 {
                config.exclude_patterns = list;
            }
        }
        if let Some(v) = &env.project_indicators {
            let list = split_list(v.as_str());
            if list.len() > 0 {
                config.project_indicators = list;
            }
        }
        if let Some(v) = &env.follow_symlinks {
            let t = trim_str(v.as_str());
            if let Some(b) = parse_bool_str(t.as_str()) {
                config.follow_symlinks = b;
            }
        }
    }
}

impl TuiConfig {
    /// Apply environment overrides: the scan paths given (already reduced to those that
    /// exist), a display limit that parses, and the detail flag (false unless it reads `true`).
    pub fn load_from_env(
        &mut self,
        scan_paths: Option<Vec<String>>,
        max_display: Option<String>,
        show_details: Option<String>,
    )
        ensures
            views(final(self).scan_paths@) == (match scan_paths {
                Some(p) => views(p@),
                None => views(old(self).scan_paths@),
            }),
            final(self).max_display_projects == (match max_display {
                Some(v) => match parse_usize(v@) {
                    Some(n) => Some(n),
                    None => old(self).max_display_projects,
                },
                None => old(self).max_display_projects,
            }),
            final(self).show_details == (match show_details {
                Some(v) => parse_bool(v@) == Some(true),
                None => old(self).show_details,
            }),
    {
        if let Some(p) = scan_paths {
            self.scan_paths = p;
        }
        if let Some(v) = max_display {
            if let Some(n) = parse_usize_str(v.as_str()) {
                self.max_display_projects = Some(n);
            }
        }
        if let Some(v) = show_details {
            self.show_details = match parse_bool_str(v.as_str()) {
                Some(b) => b,
                None => false,
            };
        }
    }
}

} // verus!
