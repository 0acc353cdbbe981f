//! The resolved command-line flags, and the pure part of their parsing.
//!
//! The shell collects the raw arguments and performs the file work the
//! flags call for (reading an image, creating the session, deleting one);
//! the scan itself — which flag wins, where the session lives, which files
//! receive the response and the result — is decided here, and
//! [`spec_scan`] states the whole left-to-right fold exactly.

use vstd::prelude::*;

verus! {

use crate::attach::base64_of;
use crate::config::{Config, spec_base_directory, spec_default_session};
use crate::display::DisplayMode;
use crate::json::is_hex_lower;
use crate::session::{opt_doc_view, resolve, spec_session_root};
use crate::utils::{
    bytes_eq_str,
    bytes_of,
    copy_bytes,
    remove_whitespace,
    spec_remove_whitespace,
    str_bytes,
};

/// Everything one invocation resolved from its command line.
pub struct Flags {
    pub query: Option<Vec<u8>>,
    pub image: Option<Vec<u8>>,
    pub image_path: Option<Vec<u8>>,
    pub responsefile: Option<Vec<u8>>,
    pub resultfile: Option<Vec<u8>>,
    pub resulttext: Option<Vec<u8>>,
    pub custom_command: Option<Vec<u8>>,
    pub savedir: Vec<u8>,
    pub display_mode: DisplayMode,
    pub temp: bool,
    pub imghash: Option<Vec<u8>>,
    pub delete: bool,
}

impl Flags {
    /// The flags before any argument is seen.
    pub fn default() -> (r: Self)
        ensures
            r.query is None,
            r.image is None,
            r.image_path is None,
            r.responsefile is None,
            r.resultfile is None,
            r.resulttext is None,
            r.custom_command is None,
            r.savedir@ == Seq::<u8>::empty(),
            r.display_mode is Defualt,
            !r.temp,
            r.imghash is None,
            !r.delete,
    {
        Self {
            query: None,
            display_mode: DisplayMode::Defualt,
            image: None,
            image_path: None,
            responsefile: None,
            custom_command: None,
            savedir: Vec::new(),
            resultfile: None,
            resulttext: None,
            imghash: None,
            temp: false,
            delete: false,
        }
    }
}

/// The state of the argument scan.
pub struct ArgScan {
    pub query: Option<Seq<u8>>,
    pub image_path: Option<Seq<u8>>,
    pub custom_command: Option<Seq<u8>>,
    pub display_mode: DisplayMode,
    pub temp: bool,
    pub delete: bool,
    pub session: Seq<u8>,
    pub output: Seq<u8>,
}

/// The scan state before any argument: the session name defaults from the
/// configuration, and a configured viewer selects the `Config` display.
pub open spec fn spec_scan_init(config: &Config) -> ArgScan {
    ArgScan {
        query: None,
        image_path: None,
        custom_command: None,
        display_mode: if config.default_viewer is Some {
            DisplayMode::Config
        } else {
            DisplayMode::Defualt
        },
        temp: false,
        delete: false,
        session: spec_default_session(config),
        output: Seq::empty(),
    }
}

/// The flags that take the following argument as their value.
pub open spec fn spec_needs_value(a: Seq<u8>) -> bool {
    a == str_bytes("--output") || a == str_bytes("--prompt") || a == str_bytes("--image") || a
        == str_bytes("--open-with") || a == str_bytes("--session") || a == str_bytes("--custom")
}

/// One step of the scan: argument `i` read against the state so far.  A
/// later flag overrides an earlier one; an argument that is no flag is
/// ignored; a value-taking flag with nothing after it fails the scan.
pub open spec fn spec_scan_step(st: ArgScan, args: Seq<Seq<u8>>, i: int) -> Option<ArgScan> {
    let a = args[i];
    if spec_needs_value(a) && i + 1 >= args.len() {
        None
    } else if a == str_bytes("--output") {
        Some(ArgScan { output: args[i + 1], ..st })
    } else if a == str_bytes("--no-display") {
        Some(ArgScan { display_mode: DisplayMode::Hidden, ..st })
    } else if a == str_bytes("--prompt") {
        Some(ArgScan { query: Some(args[i + 1]), ..st })
    } else if a == str_bytes("--raw") {
        Some(ArgScan { display_mode: DisplayMode::Raw, ..st })
    } else if a == str_bytes("--image") {
        Some(ArgScan { image_path: Some(args[i + 1]), ..st })
    } else if a == str_bytes("--temp") {
        Some(ArgScan { temp: true, ..st })
    } else if a == str_bytes("--open-with") {
        Some(
            ArgScan {
                display_mode: DisplayMode::Custom,
                custom_command: Some(args[i + 1]),
                ..st
            },
        )
    } else if a == str_bytes("--session") {
        Some(ArgScan { session: args[i + 1], ..st })
    } else if a == str_bytes("--custom") {
        Some(
            ArgScan {
                display_mode: DisplayMode::Custom,
                custom_command: Some(args[i + 1]),
                ..st
            },
        )
    } else if a == str_bytes("--delete") {
        Some(ArgScan { delete: true, ..st })
    } else {
        Some(st)
    }
}

/// The scan state after the first `n` arguments.
pub open spec fn spec_scan(args: Seq<Seq<u8>>, n: int, st: ArgScan) -> Option<ArgScan>
    decreases n,
    when n >= 0
{
    if n <= 0 {
        Some(st)
    } else {
        match spec_scan(args, n - 1, st) {
            Some(prev) => spec_scan_step(prev, args, n - 1),
            None => None,
        }
    }
}

proof fn lemma_flag_literals()
    ensures
        str_bytes("--output").len() == 8,
        str_bytes("--no-display").len() == 12,
        str_bytes("--prompt").len() == 8,
        str_bytes("--raw").len() == 5,
        str_bytes("--image").len() == 7,
        str_bytes("--temp").len() == 6,
        str_bytes("--open-with").len() == 11,
        str_bytes("--session").len() == 9,
        str_bytes("--custom").len() == 8,
        str_bytes("--delete").len() == 8,
{
    reveal_strlit("--output");
    vstd::string::is_ascii_spec_bytes("--output");
    reveal_strlit("--no-display");
    vstd::string::is_ascii_spec_bytes("--no-display");
    reveal_strlit("--prompt");
    vstd::string::is_ascii_spec_bytes("--prompt");
    reveal_strlit("--raw");
    vstd::string::is_ascii_spec_bytes("--raw");
    reveal_strlit("--image");
    vstd::string::is_ascii_spec_bytes("--image");
    reveal_strlit("--temp");
    vstd::string::is_ascii_spec_bytes("--temp");
    reveal_strlit("--open-with");
    vstd::string::is_ascii_spec_bytes("--open-with");
    reveal_strlit("--session");
    vstd::string::is_ascii_spec_bytes("--session");
    reveal_strlit("--custom");
    vstd::string::is_ascii_spec_bytes("--custom");
    reveal_strlit("--delete");
    vstd::string::is_ascii_spec_bytes("--delete");
}

proof fn lemma_scan_none_propagates(args: Seq<Seq<u8>>, k: int, n: int, st: ArgScan)
    requires
        0 <= k <= n,
        spec_scan(args, k, st) is None,
    ensures
        spec_scan(args, n, st) is None,
    decreases n - k,
{
    if n > k {
        lemma_scan_none_propagates(args, k, n - 1, st);
    }
}

/// The views of the raw arguments.
pub open spec fn spec_args_view(args: Seq<Vec<u8>>) -> Seq<Seq<u8>> {
    args.map_values(|v: Vec<u8>| v@)
}

/// The scan of a whole command line.
pub open spec fn spec_scan_all(config: &Config, args: Seq<Vec<u8>>) -> Option<ArgScan> {
    spec_scan(spec_args_view(args), args.len() as int, spec_scan_init(config))
}

/// What the parse resolved: the flags, the sanitized session name for
/// messages, and whether configuration creation was requested.
pub struct ParsedArgs {
    pub flags: Flags,
    pub session_name: Vec<u8>,
    pub wants_config: bool,
}

/// The exec mirror of [`ArgScan`].
struct ScanAcc {
    query: Option<Vec<u8>>,
    image_path: Option<Vec<u8>>,
    custom_command: Option<Vec<u8>>,
    display_mode: DisplayMode,
    temp: bool,
    delete: bool,
    session: Vec<u8>,
    output: Vec<u8>,
}

impl View for ScanAcc {
    type V = ArgScan;

    closed spec fn view(&self) -> ArgScan {
        ArgScan {
            query: opt_doc_view(self.query),
            image_path: opt_doc_view(self.image_path),
            custom_command: opt_doc_view(self.custom_command),
            display_mode: self.display_mode,
            temp: self.temp,
            delete: self.delete,
            session: self.session@,
            output: self.output@,
        }
    }
}

/// Resolves the command line against the configuration.
///
/// `None` when no argument was given beyond the program name, or when a
/// value-taking flag stands last with nothing after it.  Otherwise the
/// returned flags are exactly the fold [`spec_scan_all`] of the arguments,
/// with the session root, the response file and the result file resolved
/// from it; the attachment fields stay unset until an image is ingested.
pub fn parse(config: &Config, args: &Vec<Vec<u8>>) -> (r: Option<ParsedArgs>)
    ensures
        r is Some <==> args@.len() > 1 && spec_scan_all(config, args@) is Some,
        r matches Some(p) ==> spec_scan_all(config, args@) matches Some(st) && {
            let root = spec_session_root(spec_base_directory(config), st.session);
            &&& p.wants_config == (spec_args_view(args@)[1] == str_bytes("config"))
            &&& opt_doc_view(p.flags.query) == st.query
            &&& opt_doc_view(p.flags.image_path) == st.image_path
            &&& opt_doc_view(p.flags.custom_command) == st.custom_command
            &&& p.flags.display_mode == st.display_mode
            &&& p.flags.temp == st.temp
            &&& p.flags.delete == st.delete
            &&& p.flags.image is None
            &&& p.flags.imghash is None
            &&& p.flags.resulttext is None
            &&& p.flags.savedir@ == root
            &&& p.session_name@ == spec_remove_whitespace(st.session)
            &&& opt_doc_view(p.flags.responsefile) == Some(
                if st.temp {
                    str_bytes("response.json")
                } else {
                    root + str_bytes("/response.json")
                },
            )
            &&& opt_doc_view(p.flags.resultfile) == Some(
                if st.output.len() > 0 {
                    st.output
                } else if st.temp {
                    str_bytes("result.md")
                } else {
                    root + str_bytes("/result.md")
                },
            )
        },
{
    if args.len() <= 1 {
        return None;
    }
    let ghost argsv = spec_args_view(args@);
    let wants_config = bytes_eq_str(&args[1], "config");
    let mut acc = ScanAcc {
        query: None,
        image_path: None,
        custom_command: None,
        display_mode: match &config.default_viewer {
            Some(_) => DisplayMode::Config,
            None => DisplayMode::Defualt,
        },
        temp: false,
        delete: false,
        session: match &config.default_session {
            Some(s) => copy_bytes(s),
            None => Vec::new(),
        },
        output: Vec::new(),
    };
    proof {
        assert(acc@ == spec_scan_init(config));
        assert(forall|j: int| 0 <= j < args@.len() ==> argsv[j] == (#[trigger] args@[j])@);
    }
    let mut i: usize = 0;
    while i < args.len()
        invariant
            i <= args@.len(),
            argsv == spec_args_view(args@),
            argsv.len() == args@.len(),
            forall|j: int| 0 <= j < args@.len() ==> argsv[j] == (#[trigger] args@[j])@,
            spec_scan(argsv, i as int, spec_scan_init(config)) == Some(acc@),
        decreases args@.len() - i,
    {
        let arg = &args[i];
        let ghost st = acc@;
        if bytes_eq_str(arg, "--output") {
            if i + 1 >= args.len() {
                proof {
                    lemma_scan_none_propagates(argsv, i + 1, argsv.len() as int, spec_scan_init(config));
                }
                return None;
            }
            acc.output = copy_bytes(&args[i + 1]);
        } else if bytes_eq_str(arg, "--no-display") {
            acc.display_mode = DisplayMode::Hidden;
        } else if bytes_eq_str(arg, "--prompt") {
            if i + 1 >= args.len() {
                proof {
                    lemma_scan_none_propagates(argsv, i + 1, argsv.len() as int, spec_scan_init(config));
                }
                return None;
            }
            acc.query = Some(copy_bytes(&args[i + 1]));
        } else if bytes_eq_str(arg, "--raw") {
            acc.display_mode = DisplayMode::Raw;
        } else if bytes_eq_str(arg, "--image") {
            if i + 1 >= args.len() {
                proof {
                    lemma_scan_none_propagates(argsv, i + 1, argsv.len() as int, spec_scan_init(config));
                }
                return None;
            }
            acc.image_path = Some(copy_bytes(&args[i + 1]));
        } else if bytes_eq_str(arg, "--temp") {
            acc.temp = true;
        } else if bytes_eq_str(arg, "--open-with") {
            if i + 1 >= args.len() {
                proof {
                    lemma_scan_none_propagates(argsv, i + 1, argsv.len() as int, spec_scan_init(config));
                }
                return None;
            }
            acc.display_mode = DisplayMode::Custom;
            acc.custom_command = Some(copy_bytes(&args[i + 1]));
        } else if bytes_eq_str(arg, "--session") {
            if i + 1 >= args.len() {
                proof {
                    lemma_scan_none_propagates(argsv, i + 1, argsv.len() as int, spec_scan_init(config));
                }
                return None;
            }
            acc.session = copy_bytes(&args[i + 1]);
        } else if bytes_eq_str(arg, "--custom") {
            if i + 1 >= args.len() {
                proof {
                    lemma_scan_none_propagates(argsv, i + 1, argsv.len() as int, spec_scan_init(config));
                }
                return None;
            }
            acc.display_mode = DisplayMode::Custom;
            acc.custom_command = Some(copy_bytes(&args[i + 1]));
        } else if bytes_eq_str(arg, "--delete") {
            acc.delete = true;
        }
        proof {
            lemma_flag_literals();
            assert(spec_scan_step(st, argsv, i as int) == Some(acc@));
        }
        i = i + 1;
    }
    let root = resolve(&config.base_directory(), &acc.session);
    let session_name = remove_whitespace(&acc.session);
    let responsefile = if acc.temp {
        bytes_of("response.json")
    } else {
        let mut v = copy_bytes(&root);
        crate::utils::append_str(&mut v, "/response.json");
        v
    };
    let resultfile = if acc.output.len() > 0 {
        copy_bytes(&acc.output)
    } else if acc.temp {
        bytes_of("result.md")
    } else {
        let mut v = copy_bytes(&root);
        crate::utils::append_str(&mut v, "/result.md");
        v
    };
    let flags = Flags {
        query: acc.query,
        image: None,
        image_path: acc.image_path,
        responsefile: Some(responsefile),
        resultfile: Some(resultfile),
        resulttext: None,
        custom_command: acc.custom_command,
        savedir: root,
        display_mode: acc.display_mode,
        temp: acc.temp,
        imghash: None,
        delete: acc.delete,
    };
    Some(ParsedArgs { flags, session_name, wants_config })
}

/// Records an ingested attachment on the flags: the encoded payload and the
/// fresh content address, leaving every other field as it was.
pub fn attach_image(flags: &mut Flags, filebinary: &Vec<u8>)
    ensures
        final(flags).image matches Some(e) && e@ == base64_of(filebinary@),
        final(flags).imghash matches Some(h) && h@.len() == 64 && (forall|i: int|
            0 <= i < h@.len() ==> is_hex_lower(h@[i])) && crate::attach::is_seeded_digest(h@),
        final(flags).query == old(flags).query,
        final(flags).image_path == old(flags).image_path,
        final(flags).responsefile == old(flags).responsefile,
        final(flags).resultfile == old(flags).resultfile,
        final(flags).resulttext == old(flags).resulttext,
        final(flags).custom_command == old(flags).custom_command,
        final(flags).savedir == old(flags).savedir,
        final(flags).display_mode == old(flags).display_mode,
        final(flags).temp == old(flags).temp,
        final(flags).delete == old(flags).delete,
{
    let (hash, encoded) = crate::attach::read_image(filebinary);
    flags.image = Some(encoded);
    flags.imghash = Some(hash);
}

} // verus!
