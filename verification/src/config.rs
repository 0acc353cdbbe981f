//! The resolved configuration value, threaded through every call that
//! needs it.
//!
//! The on-disk configuration format is an external collaborator: the
//! unverified shell reads and writes the file and hands the library this
//! plain value.  The compute part of interactive creation — trimming the
//! answers and deciding which optional fields are set — lives here.

use vstd::prelude::*;

verus! {

use crate::utils::{copy_bytes, spec_trim, trim_bytes};

/// The configuration the shell resolves at startup: the API credential, an
/// optional base directory for sessions, an optional default session name,
/// and an optional result viewer command.
pub struct Config {
    pub api: Vec<u8>,
    pub basedir: Option<Vec<u8>>,
    pub default_session: Option<Vec<u8>>,
    pub default_viewer: Option<Vec<u8>>,
}

/// A trimmed interactive answer, with an empty answer meaning "not set".
pub open spec fn spec_optional_answer(raw: Seq<u8>) -> Option<Seq<u8>> {
    if spec_trim(raw).len() == 0 {
        None
    } else {
        Some(spec_trim(raw))
    }
}

impl Config {
    /// Builds a configuration from the four raw interactive answers.  Every
    /// answer is trimmed; an empty optional answer leaves its field unset;
    /// an empty API key is refused, and the caller prompts again.
    pub fn from_answers(
        api: &Vec<u8>,
        basedir: &Vec<u8>,
        default_session: &Vec<u8>,
        default_viewer: &Vec<u8>,
    ) -> (r: Option<Config>)
        ensures
            spec_trim(api@).len() == 0 ==> r is None,
            spec_trim(api@).len() > 0 ==> (r matches Some(c) && c.api@ == spec_trim(api@)
                && crate::session::opt_doc_view(c.basedir) == spec_optional_answer(basedir@)
                && crate::session::opt_doc_view(c.default_session) == spec_optional_answer(
                default_session@,
            ) && crate::session::opt_doc_view(c.default_viewer) == spec_optional_answer(
                default_viewer@,
            )),
    {
        let api_t = trim_bytes(api);
        if api_t.len() == 0 {
            return None;
        }
        let basedir_t = trim_bytes(basedir);
        let session_t = trim_bytes(default_session);
        let viewer_t = trim_bytes(default_viewer);
        Some(
            Config {
                api: api_t,
                basedir: if basedir_t.len() == 0 {
                    None
                } else {
                    Some(basedir_t)
                },
                default_session: if session_t.len() == 0 {
                    None
                } else {
                    Some(session_t)
                },
                default_viewer: if viewer_t.len() == 0 {
                    None
                } else {
                    Some(viewer_t)
                },
            },
        )
    }

    /// The base directory sessions live under: the configured one, or the
    /// working directory.
    pub fn base_directory(&self) -> (r: Vec<u8>)
        ensures
            r@ == spec_base_directory(self),
    {
        match &self.basedir {
            Some(dir) => copy_bytes(dir),
            None => {
                let mut v: Vec<u8> = Vec::new();
                v.push(46);
                proof {
                    assert(v@ =~= seq![46u8]);
                }
                v
            },
        }
    }
}

/// The base directory sessions live under.
pub open spec fn spec_base_directory(c: &Config) -> Seq<u8> {
    match c.basedir {
        Some(dir) => dir@,
        None => seq![46u8],
    }
}

/// The session name used when none is given on the command line.
pub open spec fn spec_default_session(c: &Config) -> Seq<u8> {
    match c.default_session {
        Some(s) => s@,
        None => Seq::empty(),
    }
}

} // verus!
