use vstd::prelude::*;
use crate::scanner::{is_blank, is_blank_str, ConfigError};
use crate::types::{default_exclude_patterns, default_project_indicators, views, ScanConfig};

verus! {

/// Settings read from a configuration file; each one that is present overrides the default.
#[derive(Clone, Debug)]
pub struct ConfigFile {
    pub max_depth: Option<usize>,
    pub exclude_patterns: Option<Vec<String>>,
    pub project_indicators: Option<Vec<String>>,
    pub follow_symlinks: Option<bool>,
}

/// Loads, merges and checks scan configurations.
pub struct ConfigManager;

/// The largest accepted `max_depth`.
pub const MAX_DEPTH_LIMIT: usize = 1000;

/// The entries that are not blank, in order.
pub open spec fn non_blank(v: Seq<Seq<char>>) -> Seq<Seq<char>>
    decreases v.len(),
{
    if v.len() == 0 {
        seq![]
    } else if is_blank(v.last()) {
        non_blank(v.drop_last())
    } else {
        non_blank(v.drop_last()).push(v.last())
    }
}

pub open spec fn first_blank(v: Seq<Seq<char>>) -> bool {
    exists|i: int| 0 <= i < v.len() && is_blank(#[trigger] v[i])
}

/// The verdict on a configuration: the depth bound first, then blank patterns, then blank
/// indicators.
pub open spec fn verdict_of(
    max_depth: Option<usize>,
    pats: Seq<Seq<char>>,
    inds: Seq<Seq<char>>,
) -> Result<(), ConfigError> {
    if max_depth == Some(0usize) {
        Err(ConfigError::ZeroDepth)
    } else if max_depth matches Some(d) && d > MAX_DEPTH_LIMIT {
        Err(ConfigError::DepthTooLarge)
    } else if first_blank(pats) {
        Err(ConfigError::BlankPattern)
    } else if first_blank(inds) {
        Err(ConfigError::BlankIndicator)
    } else {
        Ok(())
    }
}

pub open spec fn config_verdict(c: ScanConfig) -> Result<(), ConfigError> {
    verdict_of(c.max_depth, views(c.exclude_patterns@), views(c.project_indicators@))
}

/// A list from a file, with blank entries dropped, or the default list.
pub open spec fn list_or(v: Option<Vec<String>>, default: Seq<Seq<char>>) -> Seq<Seq<char>> {
    match v {
        Some(l) => non_blank(views(l@)),
        None => default,
    }
}

/// The depth bound a file sets, or the default of 10.
pub open spec fn depth_or_default(f: Option<ConfigFile>) -> Option<usize> {
    match f {
        Some(c) => match c.max_depth {
            Some(d) => Some(d),
            None => Some(10usize),
        },
        None => Some(10usize),
    }
}

pub open spec fn patterns_or_default(f: Option<ConfigFile>) -> Seq<Seq<char>> {
    match f {
        Some(c) => list_or(c.exclude_patterns, default_exclude_patterns()),
        None => default_exclude_patterns(),
    }
}

pub open spec fn indicators_or_default(f: Option<ConfigFile>) -> Seq<Seq<char>> {
    match f {
        Some(c) => list_or(c.project_indicators, default_project_indicators()),
        None => default_project_indicators(),
    }
}

pub open spec fn follow_or_default(f: Option<ConfigFile>) -> bool {
    match f {
        Some(c) => match c.follow_symlinks {
            Some(b) => b,
            None => false,
        },
        None => false,
    }
}

fn any_blank(v: &Vec<String>) -> (r: bool)
    ensures
        r == first_blank(views(v@)),
{
    let mut i: usize = 0;
    while i < v.len()
        invariant
            i <= v@.len(),
            forall|j: int| 0 <= j < i ==> !is_blank(#[trigger] views(v@)[j]),
        decreases v@.len() - i,
    {
        if is_blank_str(v[i].as_str()) {
            assert(is_blank(views(v@)[i as int]));
            return true;
        }
        i += 1;
    }
    false
}

fn keep_non_blank(v: Vec<String>) -> (r: Vec<String>)
    ensures
        views(r@) == non_blank(views(v@)),
{
    let mut out: Vec<String> = Vec::new();
    let mut i: usize = 0;
    while i < v.len()
        invariant
            i <= v@.len(),
            views(out@) == non_blank(views(v@).take(i as int)),
        decreases v@.len() - i,
    {
        assert(views(v@).take(i as int + 1).drop_last() =~= views(v@).take(i as int));
        assert(views(v@).take(i as int + 1).last() == v@[i as int]@);
        if !is_blank_str(v[i].as_str()) {
            let ghost before = out@;
            out.push(v[i].clone());
            assert(views(out@) =~= views(before).push(v@[i as int]@));
        }
        i += 1;
    }
    assert(views(v@).take(i as int) =~= views(v@));
    out
}

proof fn lemma_defaults_not_blank()
    ensures
        !first_blank(default_exclude_patterns()),
        !first_blank(default_project_indicators()),
{
    reveal_strlit(".gemspec");
    reveal_strlit(".git");
    reveal_strlit("Cargo.toml");
    reveal_strlit("Gemfile");
    reveal_strlit("__pycache__");
    reveal_strlit("build");
    reveal_strlit("devenv.nix");
    reveal_strlit("dist");
    reveal_strlit("go.mod");
    reveal_strlit("node_modules");
    reveal_strlit("package.json");
    reveal_strlit("pom.xml");
    reveal_strlit("pyproject.toml");
    reveal_strlit("requirements.txt");
    reveal_strlit("target");
    reveal_strlit("vendor");
    let d = default_exclude_patterns();
    let p = default_project_indicators();
    assert forall|i: int| 0 <= i < d.len() implies !is_blank(#[trigger] d[i]) by {
            if i == 0 {
                assert(d[0] == "node_modules"@);
                assert(d[0][0] == 'n');
            } else if i == 1 {
                assert(d[1] == "vendor"@);
                assert(d[1][0] == 'v');
            } else if i == 2 {
                assert(d[2] == ".git"@);
                assert(d[2][0] == '.');
            } else if i == 3 {
                assert(d[3] == "__pycache__"@);
                assert(d[3][0] == '_');
            } else if i == 4 {
                assert(d[4] == "target"@);
                assert(d[4][0] == 't');
            } else if i == 5 {
                assert(d[5] == "build"@);
                assert(d[5][0] == 'b');
            } else if i == 6 {
                assert(d[6] == "dist"@);
                assert(d[6][0] == 'd');
            }
    }
    assert forall|i: int| 0 <= i < p.len() implies !is_blank(#[trigger] p[i]) by {
            if i == 0 {
                assert(p[0] == ".git"@);
                assert(p[0][0] == '.');
            } else if i == 1 {
                assert(p[1] == "package.json"@);
                assert(p[1][0] == 'p');
            } else if i == 2 {
                assert(p[2] == "Gemfile"@);
                assert(p[2][0] == 'G');
            } else if i == 3 {
                assert(p[3] == ".gemspec"@);
                assert(p[3][0] == '.');
            } else if i == 4 {
                assert(p[4] == "Cargo.toml"@);
                assert(p[4][0] == 'C');
            } else if i == 5 {
                assert(p[5] == "pyproject.toml"@);
                assert(p[5][0] == 'p');
            } else if i == 6 {
                assert(p[6] == "requirements.txt"@);
                assert(p[6][0] == 'r');
            } else if i == 7 {
                assert(p[7] == "go.mod"@);
                assert(p[7][0] == 'g');
            } else if i == 8 {
                assert(p[8] == "pom.xml"@);
                assert(p[8][0] == 'p');
            } else if i == 9 {
                assert(p[9] == "devenv.nix"@);
                assert(p[9][0] == 'd');
            }
    }
}

impl ConfigManager {
    /// Check a configuration: `max_depth`, if set, lies in 1..=1000, and no exclude pattern or
    /// indicator is empty or only whitespace.
    pub fn validate_config(config: &ScanConfig) -> (r: Result<(), ConfigError>)
        ensures
            r == config_verdict(*config),
    {
        if let Some(d) = config.max_depth {
            if d == 0 {
                return Err(ConfigError::ZeroDepth);
            }
            if d > MAX_DEPTH_LIMIT {
                return Err(ConfigError::DepthTooLarge);
            }
        }
        if any_blank(&config.exclude_patterns) {
            return Err(ConfigError::BlankPattern);
        }
        if any_blank(&config.project_indicators) {
            return Err(ConfigError::BlankIndicator);
        }
        Ok(())
    }

    /// Apply the settings a configuration file holds: each present one replaces the current
    /// value; blank entries of the two lists are dropped.
    pub fn merge_config_file(config: &mut ScanConfig, file_config: ConfigFile)
        ensures
            final(config).max_depth == (match file_config.max_depth {
                Some(d) => Some(d),
                None => old(config).max_depth,
            }),
            views(final(config).exclude_patterns@) == (match file_config.exclude_patterns {
                Some(v) => non_blank(views(v@)),
                None => views(old(config).exclude_patterns@),
            }),
            views(final(config).project_indicators@) == (match file_config.project_indicators {
                Some(v) => non_blank(views(v@)),
                None => views(old(config).project_indicators@),
            }),
            final(config).follow_symlinks == (match file_config.follow_symlinks {
                Some(b) => b,
                None => old(config).follow_symlinks,
            }),
    {
        if let Some(d) = file_config.max_depth {
            config.max_depth = Some(d);
        }
        if let Some(v) = file_config.exclude_patterns {
            config.exclude_patterns = keep_non_blank(v);
        }
        if let Some(v) = file_config.project_indicators {
            config.project_indicators = keep_non_blank(v);
        }
        if let Some(b) = file_config.follow_symlinks {
            config.follow_symlinks = b;
        }
    }

    /// The configuration that a file (if one was found) makes of the defaults, checked.
    pub fn load_from_file_config(file_config: Option<ConfigFile>) -> (r: Result<ScanConfig, ConfigError>)
        ensures
            file_config is None ==> r is Ok,
            match verdict_of(
                depth_or_default(file_config),
                patterns_or_default(file_config),
                indicators_or_default(file_config),
            ) {
                Ok(()) => r matches Ok(c) && c.max_depth == depth_or_default(file_config) && views(
                    c.exclude_patterns@,
                ) == patterns_or_default(file_config) && views(c.project_indicators@)
                    == indicators_or_default(file_config) && c.follow_symlinks == follow_or_default(
                    file_config,
                ),
                Err(e) => r == Err::<ScanConfig, ConfigError>(e),
            },
    {
        let mut config = ScanConfig::default();
        proof {
            lemma_defaults_not_blank();
        }
        if let Some(f) = file_config {
            Self::merge_config_file(&mut config, f);
        }
        match Self::validate_config(&config) {
            Ok(()) => Ok(config),
            Err(e) => Err(e),
        }
    }
}

/// Settings of the terminal interface.
#[derive(Clone, Debug)]
pub struct TuiConfig {
    /// Paths to scan for projects.
    pub scan_paths: Vec<String>,
    /// How many projects to show at most.
    pub max_display_projects: Option<usize>,
    /// Whether project details show by default.
    pub show_details: bool,
}

impl TuiConfig {
    /// Take in settings from another source: its scan paths if it has any, its display limit if
    /// set, and its detail setting.
    pub fn merge(&mut self, other: TuiConfig)
        ensures
            views(final(self).scan_paths@) == (if other.scan_paths@.len() > 0 {
                views(other.scan_paths@)
            } else {
                views(old(self).scan_paths@)
            }),
            final(self).max_display_projects == (if other.max_display_projects is Some {
                other.max_display_projects
            } else {
                old(self).max_display_projects
            }),
            final(self).show_details == other.show_details,
    {
        if other.scan_paths.len() > 0 {
            self.scan_paths = other.scan_paths;
        }
        if other.max_display_projects.is_some() {
            self.max_display_projects = other.max_display_projects;
        }
        self.show_details = other.show_details;
    }

    /// Apply the overrides given on the command line: each one that is set wins.
    pub fn apply_overrides(&mut self, max_display: Option<usize>, show_details: Option<bool>)
        ensures
            final(self).scan_paths == old(self).scan_paths,
            final(self).max_display_projects == (if max_display is Some {
                max_display
            } else {
                old(self).max_display_projects
            }),
            final(self).show_details == (match show_details {
                Some(b) => b,
                None => old(self).show_details,
            }),
    {
        if let Some(m) = max_display {
            self.max_display_projects = Some(m);
        }
        if let Some(b) = show_details {
            self.show_details = b;
        }
    }
}

} // verus!
