use vstd::prelude::*;
use vstd::string::StringExecFns;

verus! {

/// Ecosystem a project root is classified into.
#[derive(Clone, Copy, Debug, PartialEq, Eq, Structural, Hash, PartialOrd, Ord)]
pub enum ProjectType {
    Git,
    NodeJs,
    Ruby,
    Rust,
    Python,
    Go,
    Java,
    Nix,
    Unknown,
}

/// A file or directory name whose presence marks a project root.
#[derive(Clone, Debug, Hash)]
pub enum ProjectIndicator {
    GitDirectory,
    PackageJson,
    Gemfile,
    Gemspec,
    CargoToml,
    PyprojectToml,
    RequirementsTxt,
    GoMod,
    PomXml,
    DevenvNix,
    Custom(String),
}

impl ProjectIndicator {
    pub open spec fn is_custom(&self) -> bool {
        self is Custom
    }

    /// Two indicators denote the same marker.
    pub open spec fn same(&self, o: &ProjectIndicator) -> bool {
        match (self, o) {
            (ProjectIndicator::Custom(a), ProjectIndicator::Custom(b)) => a@ == b@,
            _ => *self == *o,
        }
    }
}

impl PartialEq for ProjectIndicator {
    fn eq(&self, o: &ProjectIndicator) -> (r: bool)
        ensures
            r == self.same(o),
    {
        match (self, o) {
            (ProjectIndicator::Custom(a), ProjectIndicator::Custom(b)) => a.eq(b),
            (ProjectIndicator::GitDirectory, ProjectIndicator::GitDirectory) => true,
            (ProjectIndicator::PackageJson, ProjectIndicator::PackageJson) => true,
            (ProjectIndicator::Gemfile, ProjectIndicator::Gemfile) => true,
            (ProjectIndicator::Gemspec, ProjectIndicator::Gemspec) => true,
            (ProjectIndicator::CargoToml, ProjectIndicator::CargoToml) => true,
            (ProjectIndicator::PyprojectToml, ProjectIndicator::PyprojectToml) => true,
            (ProjectIndicator::RequirementsTxt, ProjectIndicator::RequirementsTxt) => true,
            (ProjectIndicator::GoMod, ProjectIndicator::GoMod) => true,
            (ProjectIndicator::PomXml, ProjectIndicator::PomXml) => true,
            (ProjectIndicator::DevenvNix, ProjectIndicator::DevenvNix) => true,
            _ => false,
        }
    }
}

impl vstd::std_specs::cmp::PartialEqSpecImpl for ProjectIndicator {
    open spec fn obeys_eq_spec() -> bool {
        true
    }

    open spec fn eq_spec(&self, o: &ProjectIndicator) -> bool {
        self.same(o)
    }
}

impl Eq for ProjectIndicator {}

/// The indicator that a literal file or directory name stands for, if it is one of the fixed set.
pub open spec fn indicator_of_name(name: Seq<char>) -> Option<ProjectIndicator> {
    if name == ".git"@ {
        Some(ProjectIndicator::GitDirectory)
    } else if name == "package.json"@ {
        Some(ProjectIndicator::PackageJson)
    } else if name == "Gemfile"@ {
        Some(ProjectIndicator::Gemfile)
    } else if name == ".gemspec"@ {
        Some(ProjectIndicator::Gemspec)
    } else if name == "Cargo.toml"@ {
        Some(ProjectIndicator::CargoToml)
    } else if name == "pyproject.toml"@ {
        Some(ProjectIndicator::PyprojectToml)
    } else if name == "requirements.txt"@ {
        Some(ProjectIndicator::RequirementsTxt)
    } else if name == "go.mod"@ {
        Some(ProjectIndicator::GoMod)
    } else if name == "pom.xml"@ {
        Some(ProjectIndicator::PomXml)
    } else if name == "devenv.nix"@ {
        Some(ProjectIndicator::DevenvNix)
    } else {
        None
    }
}

/// The fixed precedence table: the first rule that the indicator list meets decides the type.
pub open spec fn classify(inds: Seq<ProjectIndicator>) -> ProjectType {
    if inds.contains(ProjectIndicator::CargoToml) {
        ProjectType::Rust
    } else if inds.contains(ProjectIndicator::PackageJson) {
        ProjectType::NodeJs
    } else if inds.contains(ProjectIndicator::Gemfile) || inds.contains(ProjectIndicator::Gemspec) {
        ProjectType::Ruby
    } else if inds.contains(ProjectIndicator::PyprojectToml) || inds.contains(
        ProjectIndicator::RequirementsTxt,
    ) {
        ProjectType::Python
    } else if inds.contains(ProjectIndicator::GoMod) {
        ProjectType::Go
    } else if inds.contains(ProjectIndicator::PomXml) {
        ProjectType::Java
    } else if inds.contains(ProjectIndicator::GitDirectory) {
        ProjectType::Git
    } else if inds.contains(ProjectIndicator::DevenvNix) {
        ProjectType::Nix
    } else {
        ProjectType::Unknown
    }
}

fn contains_marker(inds: &[ProjectIndicator], target: &ProjectIndicator) -> (r: bool)
    requires
        !target.is_custom(),
    ensures
        r == inds@.contains(*target),
{
    let mut i: usize = 0;
    while i < inds.len()
        invariant
            i <= inds@.len(),
            !target.is_custom(),
            forall|j: int| 0 <= j < i ==> inds@[j] != *target,
        decreases inds@.len() - i,
    {
        if inds[i].eq(target) {
            assert(inds@[i as int] == *target);
            return true;
        }
        i += 1;
    }
    false
}

impl ProjectType {
    /// Classify by the fixed precedence table, whatever order the indicators come in.
    pub fn from_indicators(indicators: &[ProjectIndicator]) -> (r: ProjectType)
        ensures
            r == classify(indicators@),
    {
        if contains_marker(indicators, &ProjectIndicator::CargoToml) {
            ProjectType::Rust
        } else if contains_marker(indicators, &ProjectIndicator::PackageJson) {
            ProjectType::NodeJs
        } else if contains_marker(indicators, &ProjectIndicator::Gemfile) || contains_marker(
            indicators,
            &ProjectIndicator::Gemspec,
        ) {
            ProjectType::Ruby
        } else if contains_marker(indicators, &ProjectIndicator::PyprojectToml) || contains_marker(
            indicators,
            &ProjectIndicator::RequirementsTxt,
        ) {
            ProjectType::Python
        } else if contains_marker(indicators, &ProjectIndicator::GoMod) {
            ProjectType::Go
        } else if contains_marker(indicators, &ProjectIndicator::PomXml) {
            ProjectType::Java
        } else if contains_marker(indicators, &ProjectIndicator::GitDirectory) {
            ProjectType::Git
        } else if contains_marker(indicators, &ProjectIndicator::DevenvNix) {
            ProjectType::Nix
        } else {
            ProjectType::Unknown
        }
    }

    pub open spec fn label(self) -> Seq<char> {
        match self {
            ProjectType::Git => "Git"@,
            ProjectType::NodeJs => "Node.js"@,
            ProjectType::Ruby => "Ruby"@,
            ProjectType::Rust => "Rust"@,
            ProjectType::Python => "Python"@,
            ProjectType::Go => "Go"@,
            ProjectType::Java => "Java"@,
            ProjectType::Nix => "Nix"@,
            ProjectType::Unknown => "Unknown"@,
        }
    }

    /// Human-readable name of the type.
    pub fn to_string(&self) -> (r: String)
        ensures
            r@ == self.label(),
    {
        match self {
            ProjectType::Git => String::from_str("Git"),
            ProjectType::NodeJs => String::from_str("Node.js"),
            ProjectType::Ruby => String::from_str("Ruby"),
            ProjectType::Rust => String::from_str("Rust"),
            ProjectType::Python => String::from_str("Python"),
            ProjectType::Go => String::from_str("Go"),
            ProjectType::Java => String::from_str("Java"),
            ProjectType::Nix => String::from_str("Nix"),
            ProjectType::Unknown => String::from_str("Unknown"),
        }
    }
}

impl ProjectIndicator {
    /// Map a literal file or directory name to its indicator, or `None` if it is not in the fixed set.
    pub fn from_path_name(name: &str) -> (r: Option<ProjectIndicator>)
        ensures
            r == indicator_of_name(name@),
    {
        let n = String::from_str(name);
        if n == String::from_str(".git") {
            Some(ProjectIndicator::GitDirectory)
        } else if n == String::from_str("package.json") {
            Some(ProjectIndicator::PackageJson)
        } else if n == String::from_str("Gemfile") {
            Some(ProjectIndicator::Gemfile)
        } else if n == String::from_str(".gemspec") {
            Some(ProjectIndicator::Gemspec)
        } else if n == String::from_str("Cargo.toml") {
            Some(ProjectIndicator::CargoToml)
        } else if n == String::from_str("pyproject.toml") {
            Some(ProjectIndicator::PyprojectToml)
        } else if n == String::from_str("requirements.txt") {
            Some(ProjectIndicator::RequirementsTxt)
        } else if n == String::from_str("go.mod") {
            Some(ProjectIndicator::GoMod)
        } else if n == String::from_str("pom.xml") {
            Some(ProjectIndicator::PomXml)
        } else if n == String::from_str("devenv.nix") {
            Some(ProjectIndicator::DevenvNix)
        } else {
            None
        }
    }

    /// The name an indicator is written as on disk.
    pub open spec fn label(&self) -> Seq<char> {
        match self {
            ProjectIndicator::GitDirectory => ".git"@,
            ProjectIndicator::PackageJson => "package.json"@,
            ProjectIndicator::Gemfile => "Gemfile"@,
            ProjectIndicator::Gemspec => ".gemspec"@,
            ProjectIndicator::CargoToml => "Cargo.toml"@,
            ProjectIndicator::PyprojectToml => "pyproject.toml"@,
            ProjectIndicator::RequirementsTxt => "requirements.txt"@,
            ProjectIndicator::GoMod => "go.mod"@,
            ProjectIndicator::PomXml => "pom.xml"@,
            ProjectIndicator::DevenvNix => "devenv.nix"@,
            ProjectIndicator::Custom(name) => name@,
        }
    }

    /// The name an indicator is written as on disk.
    pub fn to_string(&self) -> (r: String)
        ensures
            r@ == self.label(),
    {
        match self {
            ProjectIndicator::GitDirectory => String::from_str(".git"),
            ProjectIndicator::PackageJson => String::from_str("package.json"),
            ProjectIndicator::Gemfile => String::from_str("Gemfile"),
            ProjectIndicator::Gemspec => String::from_str(".gemspec"),
            ProjectIndicator::CargoToml => String::from_str("Cargo.toml"),
            ProjectIndicator::PyprojectToml => String::from_str("pyproject.toml"),
            ProjectIndicator::RequirementsTxt => String::from_str("requirements.txt"),
            ProjectIndicator::GoMod => String::from_str("go.mod"),
            ProjectIndicator::PomXml => String::from_str("pom.xml"),
            ProjectIndicator::DevenvNix => String::from_str("devenv.nix"),
            ProjectIndicator::Custom(name) => name.clone(),
        }
    }
}

/// Kind of a non-fatal error met while walking a tree.
#[derive(Clone, Copy, Debug, PartialEq, Eq, Structural)]
pub enum ScanErrorType {
    PermissionDenied,
    PathNotFound,
    IoError,
    Other,
}

impl ScanErrorType {
    pub open spec fn label(self) -> Seq<char> {
        match self {
            ScanErrorType::PermissionDenied => "Permission Denied"@,
            ScanErrorType::PathNotFound => "Path Not Found"@,
            ScanErrorType::IoError => "IO Error"@,
            ScanErrorType::Other => "Other Error"@,
        }
    }

    /// Human-readable name of the error kind.
    pub fn to_string(&self) -> (r: String)
        ensures
            r@ == self.label(),
    {
        match self {
            ScanErrorType::PermissionDenied => String::from_str("Permission Denied"),
            ScanErrorType::PathNotFound => String::from_str("Path Not Found"),
            ScanErrorType::IoError => String::from_str("IO Error"),
            ScanErrorType::Other => String::from_str("Other Error"),
        }
    }
}

/// A non-fatal error: where it happened, its kind and a message.
#[derive(Clone, Debug)]
pub struct ScanError {
    pub path: String,
    pub error_type: ScanErrorType,
    pub message: String,
}

impl ScanError {
    /// `path: message (kind)`.
    pub fn to_string(&self) -> (r: String)
        ensures
            r@ == self.path@ + ": "@ + self.message@ + " ("@ + self.error_type.label() + ")"@,
    {
        let mut s = self.path.clone();
        s.append(": ");
        s.append(self.message.as_str());
        s.append(" (");
        let k = self.error_type.to_string();
        s.append(k.as_str());
        s.append(")");
        s
    }
}

/// A discovered project root.
#[derive(Clone, Debug)]
pub struct Project {
    /// Absolute path of the project directory.
    pub path: String,
    pub project_type: ProjectType,
    /// Every indicator found in the directory.
    pub indicators: Vec<ProjectIndicator>,
    /// When the project was last scanned, in seconds since the Unix epoch.
    pub last_scanned: i64,
}

/// Outcome of scanning one root.
#[derive(Clone, Debug)]
pub struct ScanResult {
    pub root_path: String,
    pub projects: Vec<Project>,
    pub excluded_dirs: Vec<String>,
    pub errors: Vec<ScanError>,
    /// Number of directories visited.
    pub dirs_scanned: usize,
    pub scan_duration_ms: u64,
}

/// Settings of one scan.
#[derive(Clone, Debug)]
pub struct ScanConfig {
    pub max_depth: Option<usize>,
    pub exclude_patterns: Vec<String>,
    pub project_indicators: Vec<String>,
    pub follow_symlinks: bool,
}

/// The views of a list of strings.
pub open spec fn views(v: Seq<String>) -> Seq<Seq<char>> {
    v.map_values(|s: String| s@)
}

pub open spec fn default_exclude_patterns() -> Seq<Seq<char>> {
    seq!["node_modules"@, "vendor"@, ".git"@, "__pycache__"@, "target"@, "build"@, "dist"@]
}

pub open spec fn default_project_indicators() -> Seq<Seq<char>> {
    seq![
        ".git"@,
        "package.json"@,
        "Gemfile"@,
        ".gemspec"@,
        "Cargo.toml"@,
        "pyproject.toml"@,
        "requirements.txt"@,
        "go.mod"@,
        "pom.xml"@,
        "devenv.nix"@,
    ]
}

impl Default for ScanConfig {
    fn default() -> (r: ScanConfig)
        ensures
            r.max_depth == Some(10usize),
            views(r.exclude_patterns@) == default_exclude_patterns(),
            views(r.project_indicators@) == default_project_indicators(),
            !r.follow_symlinks,
    {
        let exclude_patterns = vec![
            String::from_str("node_modules"),
            String::from_str("vendor"),
            String::from_str(".git"),
            String::from_str("__pycache__"),
            String::from_str("target"),
            String::from_str("build"),
            String::from_str("dist"),
        ];
        let project_indicators = vec![
            String::from_str(".git"),
            String::from_str("package.json"),
            String::from_str("Gemfile"),
            String::from_str(".gemspec"),
            String::from_str("Cargo.toml"),
            String::from_str("pyproject.toml"),
            String::from_str("requirements.txt"),
            String::from_str("go.mod"),
            String::from_str("pom.xml"),
            String::from_str("devenv.nix"),
        ];
        assert(views(exclude_patterns@) =~= default_exclude_patterns());
        assert(views(project_indicators@) =~= default_project_indicators());
        ScanConfig { max_depth: Some(10), exclude_patterns, project_indicators, follow_symlinks: false }
    }
}

} // verus!
