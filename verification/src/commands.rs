//! The static classification of sub-commands: which argument categories
//! (feature flags, target flag) each sub-command of the underlying tool
//! accepts.

use vstd::prelude::*;

verus! {

/// Which argument categories a sub-command accepts.
pub struct CommandMeta {
    pub has_target: bool,
    pub has_features: bool,
}

/// The sub-commands that accept both `--target` and feature flags.
pub open spec fn spec_full_cmd(s: Seq<char>) -> bool {
    ||| s == "check"@
    ||| s == "c"@
    ||| s == "build"@
    ||| s == "b"@
    ||| s == "test"@
    ||| s == "t"@
    ||| s == "run"@
    ||| s == "r"@
    ||| s == "rustc"@
    ||| s == "clippy"@
}

/// The sub-commands that accept feature flags.
pub open spec fn spec_features_cmd(s: Seq<char>) -> bool {
    spec_full_cmd(s) || s == "metadata"@
}

impl CommandMeta {
    /// Whether any category is accepted, i.e. whether a preset could
    /// contribute arguments to this sub-command at all.
    pub fn needs_config(&self) -> (r: bool)
        ensures
            r == (self.has_target || self.has_features),
    {
        self.has_target || self.has_features
    }
}

/// Character-by-character string equality, so that contracts can speak of
/// the character sequences of the compared strings.
pub fn str_eq(a: &str, b: &str) -> (r: bool)
    ensures
        r == (a@ == b@),
{
    let la = a.unicode_len();
    let lb = b.unicode_len();
    if la != lb {
        return false;
    }
    let mut i: usize = 0;
    while i < la
        invariant
            la == a@.len(),
            la == b@.len(),
            i <= la,
            forall|j: int| 0 <= j < i ==> a@[j] == b@[j],
        decreases la - i,
    {
        if a.get_char(i) != b.get_char(i) {
            return false;
        }
        i = i + 1;
    }
    proof {
        assert(a@ =~= b@);
    }
    true
}

/// The fixed lookup table from sub-command name to accepted categories.
pub fn command_meta(command: &str) -> (r: CommandMeta)
    ensures
        r.has_target == spec_full_cmd(command@),
        r.has_features == spec_features_cmd(command@),
{
    let full = str_eq(command, "check") || str_eq(command, "c") || str_eq(command, "build")
        || str_eq(command, "b") || str_eq(command, "test") || str_eq(command, "t")
        || str_eq(command, "run") || str_eq(command, "r") || str_eq(command, "rustc")
        || str_eq(command, "clippy");
    if full {
        CommandMeta { has_target: true, has_features: true }
    } else if str_eq(command, "metadata") {
        CommandMeta { has_target: false, has_features: true }
    } else {
        CommandMeta { has_target: false, has_features: false }
    }
}

} // verus!
