use vstd::prelude::*;
use vstd::string::StringExecFns;
use vstd::string::StrSliceExecFns;
use crate::exclude::{excluded_by, path_excluded, should_exclude_dir, should_skip_project};
use crate::path::starts_with_dot;
use crate::scanner::same_config;
use crate::types::{
    classify, indicator_of_name, views, Project, ProjectIndicator, ProjectType, ScanConfig, ScanError,
    ScanErrorType, ScanResult,
};

verus! {

/// One entry of a directory listing, as the file system reported it.
#[derive(Clone, Debug)]
pub struct DirEntryInfo {
    pub name: String,
    /// The entry is a directory (or, when links are followed, a link to one).
    pub is_dir: bool,
}

/// A directory waiting to be listed, with its depth below the root.
#[derive(Clone, Debug)]
pub struct PendingDir {
    pub path: String,
    pub depth: usize,
}

/// What the walk does with a child entry of a listed directory.
#[derive(Clone, Copy, Debug, PartialEq, Eq, Structural)]
pub enum ChildAction {
    Skip,
    Exclude,
    Descend,
}

pub open spec fn entry_names(l: Seq<DirEntryInfo>) -> Seq<Seq<char>> {
    l.map_values(|e: DirEntryInfo| e.name@)
}

/// The configured indicator names present among the listed names, in configuration order.
pub open spec fn present(inds: Seq<Seq<char>>, names: Seq<Seq<char>>) -> Seq<Seq<char>>
    decreases inds.len(),
{
    if inds.len() == 0 {
        seq![]
    } else {
        let p = present(inds.drop_last(), names);
        if names.contains(inds.last()) {
            p.push(inds.last())
        } else {
            p
        }
    }
}

/// `ind` is the indicator that `name` stands for: one of the fixed set, or else `Custom(name)`.
pub open spec fn indicator_for(name: Seq<char>, ind: ProjectIndicator) -> bool {
    match indicator_of_name(name) {
        Some(k) => ind == k,
        None => ind is Custom && ind->Custom_0@ == name,
    }
}

pub open spec fn labels(inds: Seq<ProjectIndicator>) -> Seq<Seq<char>> {
    inds.map_values(|i: ProjectIndicator| i.label())
}

/// Every indicator is the one its name stands for.
pub open spec fn canonical(inds: Seq<ProjectIndicator>) -> bool {
    forall|i: int| 0 <= i < inds.len() ==> indicator_for(#[trigger] inds[i].label(), inds[i])
}

/// The precedence table read off indicator names.
pub open spec fn classify_names(n: Seq<Seq<char>>) -> ProjectType {
    if n.contains("Cargo.toml"@) {
        ProjectType::Rust
    } else if n.contains("package.json"@) {
        ProjectType::NodeJs
    } else if n.contains("Gemfile"@) || n.contains(".gemspec"@) {
        ProjectType::Ruby
    } else if n.contains("pyproject.toml"@) || n.contains("requirements.txt"@) {
        ProjectType::Python
    } else if n.contains("go.mod"@) {
        ProjectType::Go
    } else if n.contains("pom.xml"@) {
        ProjectType::Java
    } else if n.contains(".git"@) {
        ProjectType::Git
    } else if n.contains("devenv.nix"@) {
        ProjectType::Nix
    } else {
        ProjectType::Unknown
    }
}

/// A path joined with a name: a separator goes between them unless the path is empty or already
/// ends in one.
pub open spec fn join(parent: Seq<char>, name: Seq<char>) -> Seq<char> {
    if parent.len() == 0 || parent.last() == '/' {
        parent + name
    } else {
        parent + seq!['/'] + name
    }
}

/// Files are skipped; so are directories deeper than the bound. A directory that a pattern
/// excludes, or whose name is hidden without being a configured indicator, is excluded; any
/// other is descended into.
pub open spec fn child_action(
    max_depth: Option<usize>,
    pats: Seq<Seq<char>>,
    inds: Seq<Seq<char>>,
    child_depth: int,
    name: Seq<char>,
    is_dir: bool,
) -> ChildAction {
    if !is_dir {
        ChildAction::Skip
    } else if max_depth is Some && child_depth > max_depth->0 {
        ChildAction::Skip
    } else if excluded_by(name, pats) || (starts_with_dot(name) && !inds.contains(name)) {
        ChildAction::Exclude
    } else {
        ChildAction::Descend
    }
}

/// Paths of the children that get action `act`, in listing order.
pub open spec fn children_with(
    cfg: ScanConfig,
    parent: Seq<char>,
    child_depth: int,
    l: Seq<DirEntryInfo>,
    act: ChildAction,
) -> Seq<Seq<char>>
    decreases l.len(),
{
    if l.len() == 0 {
        seq![]
    } else {
        let prev = children_with(cfg, parent, child_depth, l.drop_last(), act);
        if child_action(
            cfg.max_depth,
            views(cfg.exclude_patterns@),
            views(cfg.project_indicators@),
            child_depth,
            l.last().name@,
            l.last().is_dir,
        ) == act {
            prev.push(join(parent, l.last().name@))
        } else {
            prev
        }
    }
}

pub open spec fn pending_view(p: Seq<PendingDir>) -> Seq<(Seq<char>, int)> {
    p.map_values(|d: PendingDir| (d.path@, d.depth as int))
}

pub open spec fn at_depth(paths: Seq<Seq<char>>, depth: int) -> Seq<(Seq<char>, int)> {
    paths.map_values(|c: Seq<char>| (c, depth))
}

/// A project as plain values: path, type, indicator names and scan time.
pub open spec fn project_view(p: Project) -> (Seq<char>, ProjectType, Seq<Seq<char>>, i64) {
    (p.path@, p.project_type, labels(p.indicators@), p.last_scanned)
}

pub open spec fn projects_view(ps: Seq<Project>) -> Seq<(Seq<char>, ProjectType, Seq<Seq<char>>, i64)> {
    ps.map_values(|p: Project| project_view(p))
}

/// What visiting a directory adds to the projects: one record when some indicator is present
/// and no segment of the path is excluded.
pub open spec fn visit_projects(cfg: ScanConfig, dir: Seq<char>, l: Seq<DirEntryInfo>, now: i64) -> Seq<
    (Seq<char>, ProjectType, Seq<Seq<char>>, i64),
> {
    let found = present(views(cfg.project_indicators@), entry_names(l));
    if found.len() > 0 && !path_excluded(dir, views(cfg.exclude_patterns@)) {
        seq![(dir, classify_names(found), found, now)]
    } else {
        seq![]
    }
}

proof fn lemma_present_in_names(inds: Seq<Seq<char>>, names: Seq<Seq<char>>)
    ensures
        forall|i: int| 0 <= i < present(inds, names).len() ==> names.contains(
            #[trigger] present(inds, names)[i],
        ),
        forall|i: int| 0 <= i < present(inds, names).len() ==> inds.contains(
            #[trigger] present(inds, names)[i],
        ),
        forall|x: Seq<char>| inds.contains(x) && names.contains(x) ==> present(inds, names).contains(x),
    decreases inds.len(),
{
    if inds.len() > 0 {
        lemma_present_in_names(inds.drop_last(), names);
        let p = present(inds.drop_last(), names);
        assert forall|x: Seq<char>| inds.contains(x) && names.contains(x) implies present(
            inds,
            names,
        ).contains(x) by {
            let k = choose|k: int| 0 <= k < inds.len() && inds[k] == x;
            if k < inds.len() - 1 {
                assert(inds.drop_last()[k] == x);
                assert(inds.drop_last().contains(x));
                let j = choose|j: int| 0 <= j < p.len() && p[j] == x;
                if names.contains(inds.last()) {
                    assert(present(inds, names)[j] == x);
                }
            } else {
                assert(present(inds, names).last() == x);
            }
        }
        assert forall|i: int| 0 <= i < present(inds, names).len() implies inds.contains(
            #[trigger] present(inds, names)[i],
        ) by {
            if i < p.len() {
                let k = choose|k: int| 0 <= k < inds.drop_last().len() && inds.drop_last()[k] == p[i];
                assert(inds[k] == p[i]);
            } else {
                assert(inds[inds.len() - 1] == inds.last());
            }
        }
    }
}

proof fn lemma_name_round_trip(k: ProjectIndicator)
    requires
        !k.is_custom(),
    ensures
        indicator_of_name(k.label()) == Some(k),
{
    reveal_strlit(".git");
    reveal_strlit("package.json");
    reveal_strlit("Gemfile");
    reveal_strlit(".gemspec");
    reveal_strlit("Cargo.toml");
    reveal_strlit("pyproject.toml");
    reveal_strlit("requirements.txt");
    reveal_strlit("go.mod");
    reveal_strlit("pom.xml");
    reveal_strlit("devenv.nix");
    let names = seq![
        ".git"@,
        "package.json"@,
        "Gemfile"@,
        ".gemspec"@,
        "Cargo.toml"@,
        "pyproject.toml"@,
        "requirements.txt"@,
        "go.mod"@,
        "pom.xml"@,
        "devenv.nix"@,
    ];
    assert forall|a: int, b: int| 0 <= a < b < 10 implies #[trigger] names[a] != #[trigger] names[b] by {
        if names[a].len() == names[b].len() {
            assert(names[a][0] != names[b][0] || names[a][1] != names[b][1]);
        }
    }
    assert(names[0] == ".git"@);
    assert(names[1] == "package.json"@);
    assert(names[2] == "Gemfile"@);
    assert(names[3] == ".gemspec"@);
    assert(names[4] == "Cargo.toml"@);
    assert(names[5] == "pyproject.toml"@);
    assert(names[6] == "requirements.txt"@);
    assert(names[7] == "go.mod"@);
    assert(names[8] == "pom.xml"@);
    assert(names[9] == "devenv.nix"@);
}

proof fn lemma_canonical_classify(inds: Seq<ProjectIndicator>)
    requires
        canonical(inds),
    ensures
        classify(inds) == classify_names(labels(inds)),
{
    let n = labels(inds);
    assert forall|k: ProjectIndicator| !(k is Custom) implies (inds.contains(k) <==> n.contains(
        k.label(),
    )) by {
        lemma_name_round_trip(k);
        if inds.contains(k) {
            let i = choose|i: int| 0 <= i < inds.len() && inds[i] == k;
            assert(n[i] == k.label());
        }
        if n.contains(k.label()) {
            let i = choose|i: int| 0 <= i < n.len() && n[i] == k.label();
            assert(indicator_for(inds[i].label(), inds[i]));
            assert(inds[i].label() == k.label());
            assert(inds[i] == k);
        }
    }
    assert(ProjectIndicator::CargoToml.label() == "Cargo.toml"@);
    assert(ProjectIndicator::PackageJson.label() == "package.json"@);
    assert(ProjectIndicator::Gemfile.label() == "Gemfile"@);
    assert(ProjectIndicator::Gemspec.label() == ".gemspec"@);
    assert(ProjectIndicator::PyprojectToml.label() == "pyproject.toml"@);
    assert(ProjectIndicator::RequirementsTxt.label() == "requirements.txt"@);
    assert(ProjectIndicator::GoMod.label() == "go.mod"@);
    assert(ProjectIndicator::PomXml.label() == "pom.xml"@);
    assert(ProjectIndicator::GitDirectory.label() == ".git"@);
    assert(ProjectIndicator::DevenvNix.label() == "devenv.nix"@);
}

/// The indicator a configured name stands for.
pub fn indicator_from_name(name: &String) -> (r: ProjectIndicator)
    ensures
        indicator_for(name@, r),
        r.label() == name@,
{
    match ProjectIndicator::from_path_name(name.as_str()) {
        Some(k) => k,
        None => ProjectIndicator::Custom(name.clone()),
    }
}

fn contains_name(names: &[String], x: &String) -> (r: bool)
    ensures
        r == views(names@).contains(x@),
{
    let mut i: usize = 0;
    while i < names.len()
        invariant
            i <= names@.len(),
            forall|j: int| 0 <= j < i ==> #[trigger] views(names@)[j] != x@,
        decreases names@.len() - i,
    {
        if names[i].eq(x) {
            assert(views(names@)[i as int] == x@);
            return true;
        }
        i += 1;
    }
    false
}

/// The indicators among the names of a directory listing: each configured indicator that is
/// present, in configuration order, as the indicator its name stands for.
pub fn has_project_indicator(names: &[String], indicators: &[String]) -> (r: Vec<ProjectIndicator>)
    ensures
        labels(r@) == present(views(indicators@), views(names@)),
        canonical(r@),
{
    let mut out: Vec<ProjectIndicator> = Vec::new();
    let mut i: usize = 0;
    while i < indicators.len()
        invariant
            i <= indicators@.len(),
            labels(out@) == present(views(indicators@).take(i as int), views(names@)),
            canonical(out@),
        decreases indicators@.len() - i,
    {
        assert(views(indicators@).take(i as int + 1).drop_last() == views(indicators@).take(
            i as int,
        ));
        if contains_name(names, &indicators[i]) {
            let ind = indicator_from_name(&indicators[i]);
            let ghost before = out@;
            out.push(ind);
            assert(labels(out@) =~= labels(before).push(ind.label()));
        }
        i += 1;
    }
    assert(views(indicators@).take(indicators@.len() as int) =~= views(indicators@));
    out
}

/// The path of a child entry: the parent, a separator unless the parent ends in one, the name.
pub fn join_path(parent: &String, name: &String) -> (r: String)
    ensures
        r@ == join(parent@, name@),
{
    let mut s = parent.clone();
    let n = parent.as_str().unicode_len();
    if n == 0 || parent.as_str().get_char(n - 1) == '/' {
        s.append(name.as_str());
    } else {
        s.append("/");
        proof {
            reveal_strlit("/");
        }
        s.append(name.as_str());
    }
    s
}

fn is_hidden_name(name: &String) -> (r: bool)
    ensures
        r == starts_with_dot(name@),
{
    name.as_str().unicode_len() > 0 && name.as_str().get_char(0) == '.'
}

/// Decide what happens to a child entry found at `child_depth`.
pub fn decide_child(config: &ScanConfig, child_depth: usize, entry: &DirEntryInfo) -> (r: ChildAction)
    ensures
        r == child_action(
            config.max_depth,
            views(config.exclude_patterns@),
            views(config.project_indicators@),
            child_depth as int,
            entry.name@,
            entry.is_dir,
        ),
{
    if !entry.is_dir {
        return ChildAction::Skip;
    }
    match config.max_depth {
        Some(m) => {
            if child_depth > m {
                return ChildAction::Skip;
            }
        },
        None => {},
    }
    if should_exclude_dir(entry.name.as_str(), config.exclude_patterns.as_slice()) {
        ChildAction::Exclude
    } else if is_hidden_name(&entry.name) && !contains_name(
        config.project_indicators.as_slice(),
        &entry.name,
    ) {
        ChildAction::Exclude
    } else {
        ChildAction::Descend
    }
}

/// The state of a walk over one root: the directories still to list and what has been found.
///
/// The file system is read by the caller: it takes the next directory with `next_dir`, lists
/// it, and hands the listing to `visit` (or an error to `record_error`), until no directory is
/// left; `finish` then gives the result.
pub struct Walk {
    pub config: ScanConfig,
    pub root_path: String,
    pub now: i64,
    pub pending: Vec<PendingDir>,
    pub projects: Vec<Project>,
    pub excluded_dirs: Vec<String>,
    pub errors: Vec<ScanError>,
    pub dirs_scanned: usize,
}

impl Walk {
    /// No directory waits deeper than the bound, and every indicator recorded is canonical.
    pub open spec fn wf(&self) -> bool {
        &&& forall|i: int|
            0 <= i < self.pending@.len() ==> (self.config.max_depth is Some ==> (
            #[trigger] self.pending@[i]).depth <= self.config.max_depth->0)
        &&& forall|i: int|
            0 <= i < self.projects@.len() ==> canonical((#[trigger] self.projects@[i]).indicators@)
    }

    /// Start a walk at `root_path` (already absolute); `now` stamps the projects found.
    pub fn new(root_path: String, config: ScanConfig, now: i64) -> (r: Walk)
        ensures
            r.wf(),
            r.config == config,
            r.root_path == root_path,
            r.now == now,
            pending_view(r.pending@) == seq![(root_path@, 0int)],
            r.projects@.len() == 0,
            r.excluded_dirs@.len() == 0,
            r.errors@.len() == 0,
            r.dirs_scanned == 0,
    {
        let first = PendingDir { path: root_path.clone(), depth: 0 };
        let pending = vec![first];
        assert(pending_view(pending@) =~= seq![(root_path@, 0int)]);
        Walk {
            config,
            root_path,
            now,
            pending,
            projects: Vec::new(),
            excluded_dirs: Vec::new(),
            errors: Vec::new(),
            dirs_scanned: 0,
        }
    }

    /// Take the next directory to list (the most recently found one), if any is left.
    pub fn next_dir(&mut self) -> (r: Option<PendingDir>)
        requires
            old(self).wf(),
        ensures
            final(self).wf(),
            old(self).pending@.len() == 0 ==> r is None && *final(self) == *old(self),
            old(self).pending@.len() > 0 ==> r == Some(old(self).pending@.last())
                && final(self).pending@ == old(self).pending@.drop_last()
                && final(self).config == old(self).config
                && final(self).root_path == old(self).root_path
                && final(self).now == old(self).now
                && final(self).projects == old(self).projects
                && final(self).excluded_dirs == old(self).excluded_dirs
                && final(self).errors == old(self).errors
                && final(self).dirs_scanned == old(self).dirs_scanned,
    {
        if self.pending.len() == 0 {
            None
        } else {
            self.pending.pop()
        }
    }

    /// Record a non-fatal error met while listing `path`; the walk goes on.
    pub fn record_error(&mut self, path: String, error_type: ScanErrorType, message: String)
        requires
            old(self).wf(),
        ensures
            final(self).wf(),
            final(self).errors@ == old(self).errors@.push(
                ScanError { path, error_type, message },
            ),
            final(self).config == old(self).config,
            final(self).pending == old(self).pending,
            final(self).projects == old(self).projects,
            final(self).excluded_dirs == old(self).excluded_dirs,
            final(self).dirs_scanned == old(self).dirs_scanned,
    {
        self.errors.push(ScanError { path, error_type, message });
    }

    /// Take in the listing of directory `dir`: record it as a project if some configured
    /// indicator is among its entries and no segment of its path is excluded; record the child
    /// directories that are excluded; queue the others within the depth bound.
    pub fn visit(&mut self, dir: &PendingDir, listing: &[DirEntryInfo])
        requires
            old(self).wf(),
            old(self).dirs_scanned < usize::MAX,
            dir.depth < usize::MAX,
        ensures
            final(self).wf(),
            final(self).config == old(self).config,
            final(self).root_path == old(self).root_path,
            final(self).now == old(self).now,
            final(self).errors == old(self).errors,
            final(self).dirs_scanned == old(self).dirs_scanned + 1,
            projects_view(final(self).projects@) == projects_view(old(self).projects@)
                + visit_projects(old(self).config, dir.path@, listing@, old(self).now),
            views(final(self).excluded_dirs@) == views(old(self).excluded_dirs@) + children_with(
                old(self).config,
                dir.path@,
                dir.depth + 1,
                listing@,
                ChildAction::Exclude,
            ),
            pending_view(final(self).pending@) == pending_view(old(self).pending@) + at_depth(
                children_with(
                    old(self).config,
                    dir.path@,
                    dir.depth + 1,
                    listing@,
                    ChildAction::Descend,
                ),
                dir.depth + 1,
            ),
    {
        self.dirs_scanned = self.dirs_scanned + 1;
        let mut names: Vec<String> = Vec::new();
        let mut i: usize = 0;
        while i < listing.len()
            invariant
                i <= listing@.len(),
                views(names@) == entry_names(listing@).take(i as int),
            decreases listing@.len() - i,
        {
            let ghost before = names@;
            names.push(listing[i].name.clone());
            assert(views(names@) =~= entry_names(listing@).take(i as int + 1)) by {
                assert(views(names@) =~= views(before).push(listing@[i as int].name@));
            }
            i += 1;
        }
        assert(entry_names(listing@).take(listing@.len() as int) =~= entry_names(listing@));
        let found = has_project_indicator(names.as_slice(), self.config.project_indicators.as_slice());
        let ghost pv = projects_view(self.projects@);
        if found.len() > 0 && !should_skip_project(
            dir.path.as_str(),
            self.config.exclude_patterns.as_slice(),
        ) {
            let project_type = ProjectType::from_indicators(found.as_slice());
            proof {
                lemma_canonical_classify(found@);
            }
            let p = Project {
                path: dir.path.clone(),
                project_type,
                indicators: found,
                last_scanned: self.now,
            };
            self.projects.push(p);
            assert(projects_view(self.projects@) =~= pv + visit_projects(
                self.config,
                dir.path@,
                listing@,
                self.now,
            ));
        } else {
            assert(visit_projects(self.config, dir.path@, listing@, self.now) =~= seq![]);
            assert(projects_view(self.projects@) =~= pv + seq![]);
        }
        let child_depth = dir.depth + 1;
        let ghost ev = views(self.excluded_dirs@);
        let ghost pd = pending_view(self.pending@);
        let mut k: usize = 0;
        while k < listing.len()
            invariant
                k <= listing@.len(),
                child_depth == dir.depth + 1,
                self.wf(),
                self.config == old(self).config,
                self.root_path == old(self).root_path,
                self.now == old(self).now,
                self.errors == old(self).errors,
                self.dirs_scanned == old(self).dirs_scanned + 1,
                projects_view(self.projects@) == projects_view(old(self).projects@)
                    + visit_projects(old(self).config, dir.path@, listing@, old(self).now),
                ev == views(old(self).excluded_dirs@),
                pd == pending_view(old(self).pending@),
                views(self.excluded_dirs@) == ev + children_with(
                    self.config,
                    dir.path@,
                    child_depth as int,
                    listing@.take(k as int),
                    ChildAction::Exclude,
                ),
                pending_view(self.pending@) == pd + at_depth(
                    children_with(
                        self.config,
                        dir.path@,
                        child_depth as int,
                        listing@.take(k as int),
                        ChildAction::Descend,
                    ),
                    child_depth as int,
                ),
            decreases listing@.len() - k,
        {
            assert(listing@.take(k as int + 1).drop_last() =~= listing@.take(k as int));
            assert(listing@.take(k as int + 1).last() == listing@[k as int]);
            let act = decide_child(&self.config, child_depth, &listing[k]);
            let ghost ex_before = self.excluded_dirs@;
            let ghost pe_before = self.pending@;
            let ghost cd = children_with(
                self.config,
                dir.path@,
                child_depth as int,
                listing@.take(k as int),
                ChildAction::Descend,
            );
            match act {
                ChildAction::Exclude => {
                    let p = join_path(&dir.path, &listing[k].name);
                    self.excluded_dirs.push(p);
                    assert(views(self.excluded_dirs@) =~= views(ex_before).push(p@));
                },
                ChildAction::Descend => {
                    let p = join_path(&dir.path, &listing[k].name);
                    self.pending.push(PendingDir { path: p, depth: child_depth });
                    assert(pending_view(self.pending@) =~= pending_view(pe_before).push(
                        (p@, child_depth as int),
                    ));
                    assert(at_depth(cd.push(p@), child_depth as int) =~= at_depth(
                        cd,
                        child_depth as int,
                    ).push((p@, child_depth as int)));
                },
                ChildAction::Skip => {},
            }
            k += 1;
        }
        assert(listing@.take(listing@.len() as int) =~= listing@);
    }

    /// The result of the walk, once every directory has been listed.
    pub fn finish(self, scan_duration_ms: u64) -> (r: ScanResult)
        ensures
            r.root_path == self.root_path,
            r.projects == self.projects,
            r.excluded_dirs == self.excluded_dirs,
            r.errors == self.errors,
            r.dirs_scanned == self.dirs_scanned,
            r.scan_duration_ms == scan_duration_ms,
    {
        ScanResult {
            root_path: self.root_path,
            projects: self.projects,
            excluded_dirs: self.excluded_dirs,
            errors: self.errors,
            dirs_scanned: self.dirs_scanned,
            scan_duration_ms,
        }
    }
}

/// A listing as plain values: each entry's name and whether it is a directory.
pub open spec fn listing_view(l: Seq<DirEntryInfo>) -> Seq<(Seq<char>, bool)> {
    l.map_values(|e: DirEntryInfo| (e.name@, e.is_dir))
}

proof fn lemma_children_agree(
    a: ScanConfig,
    b: ScanConfig,
    dir: Seq<char>,
    child_depth: int,
    la: Seq<DirEntryInfo>,
    lb: Seq<DirEntryInfo>,
    act: ChildAction,
)
    requires
        same_config(a, b),
        listing_view(la) == listing_view(lb),
    ensures
        children_with(a, dir, child_depth, la, act) == children_with(b, dir, child_depth, lb, act),
    decreases la.len(),
{
    assert(la.len() == listing_view(la).len());
    assert(lb.len() == listing_view(lb).len());
    if la.len() > 0 {
        assert(listing_view(la.drop_last()) =~= listing_view(lb.drop_last())) by {
            assert forall|i: int| 0 <= i < la.len() - 1 implies listing_view(la.drop_last())[i]
                == listing_view(lb.drop_last())[i] by {
                assert(listing_view(la)[i] == listing_view(lb)[i]);
            }
        }
        assert(listing_view(la)[la.len() - 1] == listing_view(lb)[lb.len() - 1]);
        lemma_children_agree(a, b, dir, child_depth, la.drop_last(), lb.drop_last(), act);
    }
}

/// Rescanning an unchanged tree finds the same projects: what one visit adds (the project
/// record, the excluded children, the queued children) depends only on the settings, the
/// directory and the names and kinds of its entries. Two walks that agree before a visit
/// therefore agree after it, and so after every step of the same tree.
pub proof fn lemma_visit_deterministic(
    a: ScanConfig,
    b: ScanConfig,
    dir: Seq<char>,
    depth: int,
    la: Seq<DirEntryInfo>,
    lb: Seq<DirEntryInfo>,
    now: i64,
)
    requires
        same_config(a, b),
        listing_view(la) == listing_view(lb),
    ensures
        visit_projects(a, dir, la, now) == visit_projects(b, dir, lb, now),
        children_with(a, dir, depth + 1, la, ChildAction::Exclude) == children_with(
            b,
            dir,
            depth + 1,
            lb,
            ChildAction::Exclude,
        ),
        children_with(a, dir, depth + 1, la, ChildAction::Descend) == children_with(
            b,
            dir,
            depth + 1,
            lb,
            ChildAction::Descend,
        ),
{
    assert(entry_names(la) =~= entry_names(lb)) by {
        assert(la.len() == listing_view(la).len());
        assert(lb.len() == listing_view(lb).len());
        assert forall|i: int| 0 <= i < la.len() implies entry_names(la)[i] == entry_names(lb)[i] by {
            assert(listing_view(la)[i] == listing_view(lb)[i]);
        }
    }
    lemma_children_agree(a, b, dir, depth + 1, la, lb, ChildAction::Exclude);
    lemma_children_agree(a, b, dir, depth + 1, la, lb, ChildAction::Descend);
}

/// A directory whose listing holds `Cargo.toml`, `package.json` and `.git`, all configured as
/// indicators, is recorded (unless its path is excluded) as a Rust project that keeps all three
/// indicators.
pub proof fn lemma_rust_precedence(cfg: ScanConfig, dir: Seq<char>, l: Seq<DirEntryInfo>, now: i64)
    requires
        views(cfg.project_indicators@).contains("Cargo.toml"@),
        views(cfg.project_indicators@).contains("package.json"@),
        views(cfg.project_indicators@).contains(".git"@),
        entry_names(l).contains("Cargo.toml"@),
        entry_names(l).contains("package.json"@),
        entry_names(l).contains(".git"@),
        !path_excluded(dir, views(cfg.exclude_patterns@)),
    ensures
        visit_projects(cfg, dir, l, now).len() == 1,
        visit_projects(cfg, dir, l, now)[0].0 == dir,
        visit_projects(cfg, dir, l, now)[0].1 == ProjectType::Rust,
        visit_projects(cfg, dir, l, now)[0].2.contains("Cargo.toml"@),
        visit_projects(cfg, dir, l, now)[0].2.contains("package.json"@),
        visit_projects(cfg, dir, l, now)[0].2.contains(".git"@),
{
    lemma_present_in_names(views(cfg.project_indicators@), entry_names(l));
}

proof fn lemma_join_injective(parent: Seq<char>, a: Seq<char>, b: Seq<char>)
    requires
        join(parent, a) == join(parent, b),
    ensures
        a == b,
{
    let q = if parent.len() == 0 || parent.last() == '/' {
        parent
    } else {
        parent + seq!['/']
    };
    assert(join(parent, a) == q + a);
    assert(join(parent, b) == q + b);
    assert(a =~= (q + a).skip(q.len() as int));
    assert(b =~= (q + b).skip(q.len() as int));
}

proof fn lemma_never_queued(
    cfg: ScanConfig,
    dir: Seq<char>,
    child_depth: int,
    l: Seq<DirEntryInfo>,
    name: Seq<char>,
)
    requires
        excluded_by(name, views(cfg.exclude_patterns@)),
    ensures
        !children_with(cfg, dir, child_depth, l, ChildAction::Descend).contains(join(dir, name)),
    decreases l.len(),
{
    if l.len() > 0 {
        lemma_never_queued(cfg, dir, child_depth, l.drop_last(), name);
        let prev = children_with(cfg, dir, child_depth, l.drop_last(), ChildAction::Descend);
        let all = children_with(cfg, dir, child_depth, l, ChildAction::Descend);
        if all.contains(join(dir, name)) {
            let k = choose|k: int| 0 <= k < all.len() && all[k] == join(dir, name);
            if all.len() > prev.len() {
                if k == prev.len() {
                    lemma_join_injective(dir, l.last().name@, name);
                } else {
                    assert(prev[k] == all[k]);
                }
            } else {
                assert(prev[k] == all[k]);
            }
        }
    }
}

/// A child directory that an exclude pattern names is excluded and its path is never queued,
/// so nothing beneath it is entered; and no directory whose path has an excluded segment is
/// recorded as a project.
pub proof fn lemma_excluded_never_entered(
    cfg: ScanConfig,
    child_depth: int,
    name: Seq<char>,
    dir: Seq<char>,
    l: Seq<DirEntryInfo>,
    now: i64,
)
    requires
        excluded_by(name, views(cfg.exclude_patterns@)),
        cfg.max_depth is Some ==> child_depth <= cfg.max_depth->0,
    ensures
        child_action(
            cfg.max_depth,
            views(cfg.exclude_patterns@),
            views(cfg.project_indicators@),
            child_depth,
            name,
            true,
        ) == ChildAction::Exclude,
        !children_with(cfg, dir, child_depth, l, ChildAction::Descend).contains(join(dir, name)),
        path_excluded(dir, views(cfg.exclude_patterns@)) ==> visit_projects(cfg, dir, l, now)
            == Seq::<(Seq<char>, ProjectType, Seq<Seq<char>>, i64)>::empty(),
{
    lemma_never_queued(cfg, dir, child_depth, l, name);
}

/// A hidden child directory is excluded unless its name is a configured indicator; one whose
/// name is a configured indicator and that no pattern excludes is entered. A directory whose
/// only indicator present is `.git` is recorded as a Git project.
pub proof fn lemma_hidden_dirs(
    cfg: ScanConfig,
    child_depth: int,
    name: Seq<char>,
    dir: Seq<char>,
    l: Seq<DirEntryInfo>,
    now: i64,
)
    requires
        starts_with_dot(name),
        cfg.max_depth is Some ==> child_depth <= cfg.max_depth->0,
    ensures
        !views(cfg.project_indicators@).contains(name) ==> child_action(
            cfg.max_depth,
            views(cfg.exclude_patterns@),
            views(cfg.project_indicators@),
            child_depth,
            name,
            true,
        ) == ChildAction::Exclude,
        views(cfg.project_indicators@).contains(name) && !excluded_by(
            name,
            views(cfg.exclude_patterns@),
        ) ==> child_action(
            cfg.max_depth,
            views(cfg.exclude_patterns@),
            views(cfg.project_indicators@),
            child_depth,
            name,
            true,
        ) == ChildAction::Descend,
        present(views(cfg.project_indicators@), entry_names(l)) == seq![".git"@] && !path_excluded(
            dir,
            views(cfg.exclude_patterns@),
        ) ==> visit_projects(cfg, dir, l, now) == seq![(dir, ProjectType::Git, seq![".git"@], now)],
{
    reveal_strlit(".git");
    reveal_strlit("package.json");
    reveal_strlit("Gemfile");
    reveal_strlit(".gemspec");
    reveal_strlit("Cargo.toml");
    reveal_strlit("pyproject.toml");
    reveal_strlit("requirements.txt");
    reveal_strlit("go.mod");
    reveal_strlit("pom.xml");
    reveal_strlit("devenv.nix");
    let g = seq![".git"@];
    assert(g.contains(".git"@)) by {
        assert(g[0] == ".git"@);
    }
    assert forall|x: Seq<char>| x != ".git"@ implies !g.contains(x) by {}
    assert(".git"@ != "Cargo.toml"@ && ".git"@ != "package.json"@ && ".git"@ != "Gemfile"@
        && ".git"@ != ".gemspec"@ && ".git"@ != "pyproject.toml"@ && ".git"@ != "requirements.txt"@
        && ".git"@ != "go.mod"@ && ".git"@ != "pom.xml"@) by {
        assert(".git"@.len() == 4);
        assert(".git"@[1] == 'g');
        assert("go.mod"@.len() == 6);
    }
}

/// Nothing deeper than the depth bound is entered or reported: a child beyond the bound is
/// skipped, and every queued directory lies within the bound.
pub proof fn lemma_depth_bound(w: Walk, child_depth: int, name: Seq<char>, is_dir: bool)
    requires
        w.wf(),
        w.config.max_depth is Some,
        child_depth > w.config.max_depth->0,
    ensures
        child_action(
            w.config.max_depth,
            views(w.config.exclude_patterns@),
            views(w.config.project_indicators@),
            child_depth,
            name,
            is_dir,
        ) == ChildAction::Skip,
        forall|i: int|
            0 <= i < w.pending@.len() ==> (#[trigger] w.pending@[i]).depth <= w.config.max_depth->0,
{
}

} // verus!
