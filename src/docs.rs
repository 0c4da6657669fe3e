use vstd::prelude::*;
use vstd::string::StringExecFns;
use vstd::string::StrSliceExecFns;

verus! {

/// Settings of documentation generation.
#[derive(Clone, Debug)]
pub struct DocsConfig {
    pub output_dir: String,
    pub template_dir: Option<String>,
    pub include_readmes: bool,
    pub include_statistics: bool,
    pub include_project_details: bool,
    pub syntax_highlight: bool,
    pub theme: String,
}

impl Default for DocsConfig {
    fn default() -> (r: DocsConfig)
        ensures
            r.output_dir@ == "docs"@,
            r.template_dir is None,
            r.include_readmes,
            r.include_statistics,
            r.include_project_details,
            r.syntax_highlight,
            r.theme@ == "base16-ocean.dark"@,
    {
        DocsConfig {
            output_dir: String::from_str("docs"),
            template_dir: None,
            include_readmes: true,
            include_statistics: true,
            include_project_details: true,
            syntax_highlight: true,
            theme: String::from_str("base16-ocean.dark"),
        }
    }
}

/// Why a documentation configuration was refused.
#[derive(Clone, Copy, Debug, PartialEq, Eq, Structural)]
pub enum DocsConfigError {
    /// The output directory is empty.
    EmptyOutputDir,
    /// The template directory does not exist.
    MissingTemplateDir,
}

/// Check a documentation configuration, given whether its template directory (if one is set)
/// exists: the output directory must be non-empty, and a set template directory must exist.
pub fn validate_config(config: &DocsConfig, template_dir_exists: bool) -> (r: Result<
    (),
    DocsConfigError,
>)
    ensures
        r == (if config.output_dir@.len() == 0 {
            Err(DocsConfigError::EmptyOutputDir)
        } else if config.template_dir is Some && !template_dir_exists {
            Err(DocsConfigError::MissingTemplateDir)
        } else {
            Ok(())
        }),
{
    if config.output_dir.as_str().unicode_len() == 0 {
        return Err(DocsConfigError::EmptyOutputDir);
    }
    if config.template_dir.is_some() && !template_dir_exists {
        return Err(DocsConfigError::MissingTemplateDir);
    }
    Ok(())
}

} // verus!
