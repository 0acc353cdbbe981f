//! Selection of the viewer command for the rendered result.
//!
//! The command template is chosen from the display mode; `{}` in it stands
//! for the result file.  Spawning the viewer is the shell's task, done as a
//! plain subprocess with an argument vector, never through a shell.

use vstd::prelude::*;

verus! {

use crate::config::Config;
use crate::flags::Flags;
use crate::normalize::{replace_all, spec_replace_all};
use crate::utils::{bytes_of, copy_bytes, str_bytes};

/// How the rendered result is shown after a successful exchange.
#[derive(Clone, Copy, Debug, PartialEq, Eq, Structural)]
pub enum DisplayMode {
    /// The default plain-text rendering.
    Defualt,
    /// The raw file.
    Raw,
    /// The viewer named in the configuration.
    Config,
    /// No display at all.
    Hidden,
    /// The command given on the command line.
    Custom,
}

impl DisplayMode {
    /// The viewer command template for this mode, with `{}` standing for
    /// the result file; `None` when nothing is to be shown.
    pub fn cmd(&self, config: &Config, flags: &Flags) -> (r: Option<Vec<u8>>)
        requires
            self is Custom ==> flags.custom_command is Some,
        ensures
            self is Raw ==> (r matches Some(c) && c@ == str_bytes("cat {}")),
            self is Defualt ==> (r matches Some(c) && c@ == str_bytes("pandoc -t plain {}")),
            self is Config ==> crate::session::opt_doc_view(r) == crate::session::opt_doc_view(
                config.default_viewer,
            ),
            self is Custom ==> crate::session::opt_doc_view(r) == crate::session::opt_doc_view(
                flags.custom_command,
            ),
            self is Hidden ==> r is None,
    {
        match self {
            DisplayMode::Raw => Some(bytes_of("cat {}")),
            DisplayMode::Defualt => Some(bytes_of("pandoc -t plain {}")),
            DisplayMode::Config => match &config.default_viewer {
                Some(cmd) => Some(copy_bytes(cmd)),
                None => None,
            },
            DisplayMode::Custom => match &flags.custom_command {
                Some(cmd) => Some(copy_bytes(cmd)),
                None => None,
            },
            DisplayMode::Hidden => None,
        }
    }
}

/// Substitutes the result file into a viewer command template: every `{}`
/// becomes the path.
pub fn apply_template(cmd: &Vec<u8>, path: &Vec<u8>) -> (r: Vec<u8>)
    ensures
        r@ == spec_replace_all(cmd@, seq![123u8, 125], path@),
{
    let mut pat: Vec<u8> = Vec::new();
    pat.push(123);
    pat.push(125);
    proof {
        assert(pat@ =~= seq![123u8, 125]);
    }
    replace_all(cmd, &pat, path)
}

} // verus!
