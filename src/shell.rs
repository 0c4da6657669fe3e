use vstd::prelude::*;
use vstd::string::StringExecFns;
use crate::query::{lower_of, to_lower};

verus! {

/// A shell that completion scripts can be generated for.
#[derive(Clone, Copy, Debug, PartialEq, Eq, Structural)]
pub enum ShellType {
    Bash,
    Zsh,
    Fish,
}

/// The shell a lower-case name stands for.
pub open spec fn shell_of(name: Seq<char>) -> Option<ShellType> {
    if name == "bash"@ {
        Some(ShellType::Bash)
    } else if name == "zsh"@ {
        Some(ShellType::Zsh)
    } else if name == "fish"@ {
        Some(ShellType::Fish)
    } else {
        None
    }
}

impl ShellType {
    /// The shell a name stands for, whatever its case.
    pub fn from_str(s: &str) -> (r: Option<ShellType>)
        ensures
            r == shell_of(lower_of(s@)),
    {
        let lower = to_lower(s);
        Self::from_lowercase(lower.as_str())
    }

    /// The shell an already lower-cased name stands for.
    pub fn from_lowercase(name: &str) -> (r: Option<ShellType>)
        ensures
            r == shell_of(name@),
    {
        let n = String::from_str(name);
        if n == String::from_str("bash") {
            Some(ShellType::Bash)
        } else if n == String::from_str("zsh") {
            Some(ShellType::Zsh)
        } else if n == String::from_str("fish") {
            Some(ShellType::Fish)
        } else {
            None
        }
    }

    pub open spec fn label(self) -> Seq<char> {
        match self {
            ShellType::Bash => "bash"@,
            ShellType::Zsh => "zsh"@,
            ShellType::Fish => "fish"@,
        }
    }

    /// The shell's name.
    pub fn to_string(&self) -> (r: String)
        ensures
            r@ == self.label(),
    {
        match self {
            ShellType::Bash => String::from_str("bash"),
            ShellType::Zsh => String::from_str("zsh"),
            ShellType::Fish => String::from_str("fish"),
        }
    }
}

/// Completion script for bash.
pub const BASH_COMPLETIONS: &'static str = r#"# Bash completion for dprojc shell integration

# Main directory changer function
dpc-cd() {
    local result
    result=$(dpc shell query "$@" 2>/dev/null | head -n 1)
    if [ -n "$result" ] && [ -d "$result" ]; then
        cd "$result" || return 1
        dpc shell record "$result" &>/dev/null &
        echo "Changed to: $result"
    else
        echo "No matching project found for: $*" >&2
        return 1
    fi
}

# Shorter alias
alias j='dpc-cd'

# Completion function
_dpc_cd_completions() {
    local cur
    cur="${COMP_WORDS[COMP_CWORD]}"

    # Get completions from dpc
    local completions
    completions=$(dpc shell complete "$cur" 2>/dev/null)

    COMPREPLY=( $(compgen -W "$completions" -- "$cur") )
}

# Register completions
complete -F _dpc_cd_completions dpc-cd
complete -F _dpc_cd_completions j

# Interactive directory selector
dpc-select() {
    local result
    result=$(dpc tui 2>/dev/null)
    if [ -n "$result" ] && [ -d "$result" ]; then
        cd "$result" || return 1
        dpc shell record "$result" &>/dev/null &
        echo "Changed to: $result"
    fi
}

alias ji='dpc-select'
"#;

/// Completion script for zsh.
pub const ZSH_COMPLETIONS: &'static str = r#"# Zsh completion for dprojc shell integration

# Main directory changer function
dpc-cd() {
    local result
    result=$(dpc shell query "$@" 2>/dev/null | head -n 1)
    if [[ -n "$result" ]] && [[ -d "$result" ]]; then
        cd "$result" || return 1
        dpc shell record "$result" &>/dev/null &
        echo "Changed to: $result"
    else
        echo "No matching project found for: $*" >&2
        return 1
    fi
}

# Shorter alias
alias j='dpc-cd'

# Completion function
_dpc_cd_completions() {
    local -a completions
    local cur="${words[CURRENT]}"

    # Get completions from dpc
    completions=(${(f)"$(dpc shell complete "$cur" 2>/dev/null)"})

    _describe 'projects' completions
}

# Register completions
compdef _dpc_cd_completions dpc-cd
compdef _dpc_cd_completions j

# Interactive directory selector
dpc-select() {
    local result
    result=$(dpc tui 2>/dev/null)
    if [[ -n "$result" ]] && [[ -d "$result" ]]; then
        cd "$result" || return 1
        dpc shell record "$result" &>/dev/null &
        echo "Changed to: $result"
    fi
}

alias ji='dpc-select'

# Hook to record directory changes (auto-track project roots)
autoload -U add-zsh-hook
_dpc_record_pwd() {
    # Record if we're in a cataloged project root
    # This runs in the background and exits silently if not a project
    dpc shell record "$PWD" &>/dev/null &
}
add-zsh-hook chpwd _dpc_record_pwd
"#;

/// Completion script for fish.
pub const FISH_COMPLETIONS: &'static str = r#"# Fish completion for dprojc shell integration

# Main directory changer function
function dpc-cd
    set -l result (dpc shell query $argv 2>/dev/null | head -n 1)
    if test -n "$result" -a -d "$result"
        cd "$result"; or return 1
        dpc shell record "$result" &>/dev/null &
        echo "Changed to: $result"
    else
        echo "No matching project found for: $argv" >&2
        return 1
    end
end

# Shorter alias
alias j='dpc-cd'

# Completion function
complete -c dpc-cd -f -a '(dpc shell complete (commandline -ct) 2>/dev/null)'
complete -c j -f -a '(dpc shell complete (commandline -ct) 2>/dev/null)'

# Interactive directory selector
function dpc-select
    set -l result (dpc tui 2>/dev/null)
    if test -n "$result" -a -d "$result"
        cd "$result"; or return 1
        dpc shell record "$result" &>/dev/null &
        echo "Changed to: $result"
    end
end

alias ji='dpc-select'

# Hook to record directory changes (auto-track project roots)
function _dpc_record_pwd --on-variable PWD
    # Record if we're in a cataloged project root
    # This runs in the background and exits silently if not a project
    dpc shell record "$PWD" &>/dev/null &
end
"#;

pub open spec fn script_for(shell: ShellType) -> Seq<char> {
    match shell {
        ShellType::Bash => BASH_COMPLETIONS@,
        ShellType::Zsh => ZSH_COMPLETIONS@,
        ShellType::Fish => FISH_COMPLETIONS@,
    }
}

/// The completion script for a shell.
pub fn generate_completions(shell: ShellType) -> (r: String)
    ensures
        r@ == script_for(shell),
{
    match shell {
        ShellType::Bash => generate_bash_completions(),
        ShellType::Zsh => generate_zsh_completions(),
        ShellType::Fish => generate_fish_completions(),
    }
}

/// The bash completion script.
pub fn generate_bash_completions() -> (r: String)
    ensures
        r@ == BASH_COMPLETIONS@,
{
    String::from_str(BASH_COMPLETIONS)
}

/// The zsh completion script.
pub fn generate_zsh_completions() -> (r: String)
    ensures
        r@ == ZSH_COMPLETIONS@,
{
    String::from_str(ZSH_COMPLETIONS)
}

/// The fish completion script.
pub fn generate_fish_completions() -> (r: String)
    ensures
        r@ == FISH_COMPLETIONS@,
{
    String::from_str(FISH_COMPLETIONS)
}

} // verus!
