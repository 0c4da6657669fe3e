use vstd::prelude::*;
use vstd::string::StrSliceExecFns;
use crate::exclude::{glob_regex, glob_to_regex, has_wildcard, regex_compiles, regex_match};
use crate::types::{
    default_exclude_patterns, default_project_indicators, views, ScanConfig, ScanResult,
};
use crate::walker::{pending_view, Walk};

verus! {

/// Why a scan configuration was refused.
#[derive(Clone, Copy, Debug, PartialEq, Eq, Structural)]
pub enum ConfigError {
    /// `max_depth` is zero.
    ZeroDepth,
    /// `max_depth` is above the largest accepted bound.
    DepthTooLarge,
    /// An exclude pattern is the empty string.
    EmptyPattern,
    /// An exclude pattern holds only whitespace.
    BlankPattern,
    /// A glob pattern does not become a valid regular expression.
    InvalidPattern,
    /// A project indicator is empty or holds only whitespace.
    BlankIndicator,
}

/// Why a scan could not start.
#[derive(Clone, Debug)]
pub enum ScanFailure {
    /// The root does not exist.
    PathNotFound(String),
    /// The root is not a directory.
    NotADirectory(String),
    /// The configuration was refused.
    InvalidConfig(ConfigError),
}

/// The Unicode `White_Space` property.
pub open spec fn is_white_space(c: char) -> bool {
    ('\u{9}' <= c <= '\u{d}') || c == ' ' || c == '\u{85}' || c == '\u{a0}' || c == '\u{1680}' || (
    '\u{2000}' <= c <= '\u{200a}') || c == '\u{2028}' || c == '\u{2029}' || c == '\u{202f}' || c
        == '\u{205f}' || c == '\u{3000}'
}

/// Nothing is left of the string once whitespace is trimmed.
pub open spec fn is_blank(s: Seq<char>) -> bool {
    forall|i: int| 0 <= i < s.len() ==> is_white_space(#[trigger] s[i])
}

/// Relies on `char::is_whitespace`, documented as the Unicode `White_Space` property.
#[verifier::external_body]
pub(crate) fn char_is_whitespace(c: char) -> (r: bool)
    ensures
        r == is_white_space(c),
{
    c.is_whitespace()
}

/// Whether the string holds only whitespace (trimming it leaves nothing).
pub fn is_blank_str(s: &str) -> (r: bool)
    ensures
        r == is_blank(s@),
{
    let n = s.unicode_len();
    let mut i: usize = 0;
    while i < n
        invariant
            n == s@.len(),
            i <= n,
            forall|j: int| 0 <= j < i ==> is_white_space(#[trigger] s@[j]),
        decreases n - i,
    {
        if !char_is_whitespace(s.get_char(i)) {
            return false;
        }
        i += 1;
    }
    true
}

/// What is wrong with one exclude pattern, if anything.
pub open spec fn pattern_problem(p: Seq<char>) -> Option<ConfigError> {
    if p.len() == 0 {
        Some(ConfigError::EmptyPattern)
    } else if is_blank(p) {
        Some(ConfigError::BlankPattern)
    } else if has_wildcard(p) && !regex_compiles(glob_regex(p)) {
        Some(ConfigError::InvalidPattern)
    } else {
        None
    }
}

/// The problem of the first pattern that has one.
pub open spec fn first_pattern_problem(pats: Seq<Seq<char>>) -> Option<ConfigError>
    decreases pats.len(),
{
    if pats.len() == 0 {
        None
    } else if pattern_problem(pats[0]) is Some {
        pattern_problem(pats[0])
    } else {
        first_pattern_problem(pats.drop_first())
    }
}

/// The verdict on a scan configuration: a zero depth first, then the first bad pattern.
pub open spec fn scan_config_verdict(c: ScanConfig) -> Result<(), ConfigError> {
    if c.max_depth == Some(0usize) {
        Err(ConfigError::ZeroDepth)
    } else {
        match first_pattern_problem(views(c.exclude_patterns@)) {
            Some(e) => Err(e),
            None => Ok(()),
        }
    }
}

fn check_pattern(p: &str) -> (r: Option<ConfigError>)
    ensures
        r == pattern_problem(p@),
{
    if p.unicode_len() == 0 {
        return Some(ConfigError::EmptyPattern);
    }
    if is_blank_str(p) {
        return Some(ConfigError::BlankPattern);
    }
    let n = p.unicode_len();
    let mut wild = false;
    let mut i: usize = 0;
    while i < n
        invariant
            n == p@.len(),
            i <= n,
            wild == exists|j: int| 0 <= j < i && (p@[j] == '*' || p@[j] == '?'),
        decreases n - i,
    {
        let c = p.get_char(i);
        if c == '*' || c == '?' {
            wild = true;
        }
        i += 1;
    }
    assert(wild == has_wildcard(p@)) by {
        if wild {
            let j = choose|j: int| 0 <= j < n && (p@[j] == '*' || p@[j] == '?');
            if p@[j] == '*' {
                assert(p@.contains('*'));
            } else {
                assert(p@.contains('?'));
            }
        }
    }
    if wild {
        let re = glob_to_regex(p);
        if regex_match(re.as_str(), "").is_none() {
            return Some(ConfigError::InvalidPattern);
        }
    }
    None
}

/// Check a scan configuration: `max_depth` may not be zero, and each exclude pattern must be
/// non-empty, not only whitespace, and (if it has a wildcard) become a valid regular
/// expression.
pub fn validate_scan_config(config: &ScanConfig) -> (r: Result<(), ConfigError>)
    ensures
        r == scan_config_verdict(*config),
{
    if let Some(d) = config.max_depth {
        if d == 0 {
            return Err(ConfigError::ZeroDepth);
        }
    }
    assert(config.max_depth != Some(0usize));
    let pats = &config.exclude_patterns;
    let mut i: usize = 0;
    assert(views(pats@).skip(0) =~= views(pats@));
    while i < pats.len()
        invariant
            i <= pats@.len(),
            pats@ == config.exclude_patterns@,
            config.max_depth != Some(0usize),
            first_pattern_problem(views(pats@)) == first_pattern_problem(
                views(pats@).skip(i as int),
            ),
        decreases pats@.len() - i,
    {
        let ghost rest = views(pats@).skip(i as int);
        assert(rest[0] == pats@[i as int]@);
        assert(rest.drop_first() =~= views(pats@).skip(i as int + 1));
        match check_pattern(pats[i].as_str()) {
            Some(e) => {
                assert(first_pattern_problem(rest) == Some(e));
                assert(first_pattern_problem(views(config.exclude_patterns@)) == Some(e));
                assert(scan_config_verdict(*config) == Err::<(), ConfigError>(e));
                return Err(e);
            },
            None => {},
        }
        i += 1;
    }
    assert(views(pats@).skip(i as int) =~= seq![]);
    Ok(())
}

/// Whether a root may be scanned, given what the file system says of it.
pub fn validate_scan_path(path: &String, exists: bool, is_dir: bool) -> (r: Result<(), ScanFailure>)
    ensures
        !exists ==> (r matches Err(ScanFailure::PathNotFound(p)) && p@ == path@),
        exists && !is_dir ==> (r matches Err(ScanFailure::NotADirectory(p)) && p@ == path@),
        exists && is_dir ==> r is Ok,
{
    if !exists {
        Err(ScanFailure::PathNotFound(path.clone()))
    } else if !is_dir {
        Err(ScanFailure::NotADirectory(path.clone()))
    } else {
        Ok(())
    }
}

/// Two configurations that agree on every setting.
pub open spec fn same_config(a: ScanConfig, b: ScanConfig) -> bool {
    &&& a.max_depth == b.max_depth
    &&& views(a.exclude_patterns@) == views(b.exclude_patterns@)
    &&& views(a.project_indicators@) == views(b.project_indicators@)
    &&& a.follow_symlinks == b.follow_symlinks
}

fn clone_strings(v: &Vec<String>) -> (r: Vec<String>)
    ensures
        views(r@) == views(v@),
{
    let mut out: Vec<String> = Vec::new();
    let mut i: usize = 0;
    while i < v.len()
        invariant
            i <= v@.len(),
            views(out@) == views(v@).take(i as int),
        decreases v@.len() - i,
    {
        let ghost before = out@;
        out.push(v[i].clone());
        assert(views(out@) =~= views(v@).take(i as int + 1)) by {
            assert(views(out@) =~= views(before).push(v@[i as int]@));
        }
        i += 1;
    }
    assert(views(v@).take(i as int) =~= views(v@));
    out
}

/// A copy of a configuration.
pub fn clone_config(c: &ScanConfig) -> (r: ScanConfig)
    ensures
        same_config(r, *c),
{
    ScanConfig {
        max_depth: c.max_depth,
        exclude_patterns: clone_strings(&c.exclude_patterns),
        project_indicators: clone_strings(&c.project_indicators),
        follow_symlinks: c.follow_symlinks,
    }
}

/// A scanner bound to one validated configuration.
pub struct ProjectScanner {
    config: ScanConfig,
}

impl ProjectScanner {
    pub closed spec fn scan_config(&self) -> ScanConfig {
        self.config
    }

    /// A scanner with the default configuration.
    pub fn new() -> (r: Result<ProjectScanner, ScanFailure>)
        ensures
            r matches Ok(s) && s.scan_config().max_depth == Some(10usize) && views(
                s.scan_config().exclude_patterns@,
            ) == default_exclude_patterns() && views(s.scan_config().project_indicators@)
                == default_project_indicators() && !s.scan_config().follow_symlinks,
    {
        Ok(ProjectScanner { config: ScanConfig::default() })
    }

    /// A scanner with the given configuration, refused when the configuration is not valid.
    pub fn with_config(config: ScanConfig) -> (r: Result<ProjectScanner, ScanFailure>)
        ensures
            scan_config_verdict(config) is Ok ==> (r matches Ok(s) && s.scan_config() == config),
            scan_config_verdict(config) matches Err(e) ==> (r matches Err(
                ScanFailure::InvalidConfig(f),
            ) && f == e),
    {
        match validate_scan_config(&config) {
            Ok(()) => Ok(ProjectScanner { config }),
            Err(e) => Err(ScanFailure::InvalidConfig(e)),
        }
    }

    /// The configuration in use.
    pub fn config(&self) -> (r: &ScanConfig)
        ensures
            *r == self.scan_config(),
    {
        &self.config
    }

    /// Replace the configuration.
    pub fn set_config(&mut self, config: ScanConfig)
        ensures
            final(self).scan_config() == config,
    {
        self.config = config;
    }

    /// Start walking the (absolute) root with this scanner's configuration.
    pub fn start(&self, root_path: String, now: i64) -> (r: Walk)
        ensures
            r.wf(),
            same_config(r.config, self.scan_config()),
            r.root_path == root_path,
            r.now == now,
            pending_view(r.pending@) == seq![(root_path@, 0int)],
            r.projects@.len() == 0,
            r.excluded_dirs@.len() == 0,
            r.errors@.len() == 0,
            r.dirs_scanned == 0,
    {
        Walk::new(root_path, clone_config(&self.config), now)
    }
}

/// Whether some root of a batch failed.
pub open spec fn any_failed(outcomes: Seq<Result<ScanResult, ScanFailure>>) -> bool {
    exists|i: int| 0 <= i < outcomes.len() && (#[trigger] outcomes[i]) is Err
}

/// Join the outcomes of a batch: the first failure fails the whole batch and no result is
/// returned; otherwise every result, in the order of the roots.
pub fn collect_batch(outcomes: Vec<Result<ScanResult, ScanFailure>>) -> (r: Result<
    Vec<ScanResult>,
    ScanFailure,
>)
    ensures
        any_failed(outcomes@) <==> r is Err,
        r matches Err(e) ==> exists|i: int|
            0 <= i < outcomes@.len() && outcomes@[i] == Err::<ScanResult, ScanFailure>(e) && forall|
                j: int,
            |
                0 <= j < i ==> (#[trigger] outcomes@[j]) is Ok,
        r matches Ok(v) ==> v@.len() == outcomes@.len() && forall|i: int|
            0 <= i < v@.len() ==> outcomes@[i] == Ok::<ScanResult, ScanFailure>(#[trigger] v@[i]),
{
    let mut results: Vec<ScanResult> = Vec::new();
    let ghost all = outcomes@;
    let total = outcomes.len();
    let mut rest = outcomes;
    let mut i: usize = 0;
    while rest.len() > 0
        invariant
            i + rest@.len() == all.len(),
            total == all.len(),
            all == outcomes@,
            rest@ == all.skip(i as int),
            results@.len() == i,
            forall|j: int| 0 <= j < i ==> (#[trigger] all[j]) is Ok,
            forall|j: int| 0 <= j < i ==> all[j] == Ok::<ScanResult, ScanFailure>(#[trigger] results@[j]),
        decreases rest@.len(),
    {
        let item = rest.remove(0);
        assert(item == all[i as int]);
        assert(rest@ =~= all.skip(i as int + 1));
        match item {
            Ok(res) => {
                results.push(res);
            },
            Err(e) => {
                assert(outcomes@[i as int] == Err::<ScanResult, ScanFailure>(e));
                assert(outcomes@[i as int] is Err);
                assert(any_failed(outcomes@));
                assert(forall|j: int| 0 <= j < i ==> (#[trigger] outcomes@[j]) is Ok);
                return Err(e);
            },
        }
        i += 1;
    }
    assert(!any_failed(all));
    Ok(results)
}

/// The roots that still need a scan: those not scanned within the freshness window, in order.
pub open spec fn stale_roots(roots: Seq<Seq<char>>, fresh: Seq<bool>) -> Seq<Seq<char>>
    decreases roots.len(),
{
    if roots.len() == 0 || fresh.len() == 0 {
        seq![]
    } else {
        let prev = stale_roots(roots.drop_last(), fresh.drop_last());
        if fresh.last() {
            prev
        } else {
            prev.push(roots.last())
        }
    }
}

/// Keep the roots whose freshness flag is false (not scanned recently).
pub fn select_stale_roots(roots: &[String], fresh: &[bool]) -> (r: Vec<String>)
    requires
        roots@.len() == fresh@.len(),
    ensures
        views(r@) == stale_roots(views(roots@), fresh@),
{
    let mut out: Vec<String> = Vec::new();
    let mut i: usize = 0;
    while i < roots.len()
        invariant
            roots@.len() == fresh@.len(),
            i <= roots@.len(),
            views(out@) == stale_roots(views(roots@).take(i as int), fresh@.take(i as int)),
        decreases roots@.len() - i,
    {
        assert(views(roots@).take(i as int + 1).drop_last() =~= views(roots@).take(i as int));
        assert(fresh@.take(i as int + 1).drop_last() =~= fresh@.take(i as int));
        if !fresh[i] {
            let ghost before = out@;
            out.push(roots[i].clone());
            assert(views(out@) =~= views(before).push(roots@[i as int]@));
        }
        i += 1;
    }
    assert(views(roots@).take(i as int) =~= views(roots@));
    assert(fresh@.take(i as int) =~= fresh@);
    out
}

} // verus!
