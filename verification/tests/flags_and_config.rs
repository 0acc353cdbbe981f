//! Command-line resolution, configuration building, viewer selection.

use terminator::config::Config;
use terminator::display::{apply_template, DisplayMode};
use terminator::flags::{parse, Flags};
use terminator::utils::is_executable_extension;

fn b(s: &str) -> Vec<u8> {
    s.as_bytes().to_vec()
}

fn s(v: Vec<u8>) -> String {
    String::from_utf8(v).unwrap()
}

fn args(list: &[&str]) -> Vec<Vec<u8>> {
    list.iter().map(|a| a.as_bytes().to_vec()).collect()
}

fn bare_config() -> Config {
    Config { api: b("k"), basedir: None, default_session: None, default_viewer: None }
}

#[test]
fn default_flags_are_all_unset() {
    let f = Flags::default();
    assert!(f.query.is_none());
    assert!(f.image.is_none());
    assert!(f.image_path.is_none());
    assert!(f.responsefile.is_none());
    assert!(f.resultfile.is_none());
    assert!(f.resulttext.is_none());
    assert!(f.custom_command.is_none());
    assert!(f.savedir.is_empty());
    assert_eq!(f.display_mode, DisplayMode::Defualt);
    assert!(!f.temp);
    assert!(f.imghash.is_none());
    assert!(!f.delete);
}

#[test]
fn parse_resolves_prompt_and_session() {
    let config = bare_config();
    let parsed = parse(&config, &args(&["prog", "--prompt", "hello", "--session", "my sess"]))
        .expect("a well-formed command line parses");
    assert_eq!(parsed.flags.query, Some(b("hello")));
    assert_eq!(s(parsed.flags.savedir), "./mysess");
    assert_eq!(s(parsed.session_name), "mysess");
    assert_eq!(parsed.flags.responsefile, Some(b("./mysess/response.json")));
    assert_eq!(parsed.flags.resultfile, Some(b("./mysess/result.md")));
    assert!(!parsed.wants_config);
    assert!(!parsed.flags.delete);
}

#[test]
fn parse_uses_configured_defaults() {
    let config = Config {
        api: b("k"),
        basedir: Some(b("/data")),
        default_session: Some(b("work log")),
        default_viewer: Some(b("less {}")),
    };
    let parsed = parse(&config, &args(&["prog", "--prompt", "q"])).unwrap();
    assert_eq!(s(parsed.flags.savedir), "/data/worklog");
    assert_eq!(parsed.flags.display_mode, DisplayMode::Config);
}

#[test]
fn later_flags_override_earlier_ones() {
    let config = bare_config();
    let parsed = parse(
        &config,
        &args(&["prog", "--raw", "--prompt", "a", "--prompt", "z", "--no-display"]),
    )
    .unwrap();
    assert_eq!(parsed.flags.query, Some(b("z")));
    assert_eq!(parsed.flags.display_mode, DisplayMode::Hidden);
}

#[test]
fn output_overrides_the_result_file() {
    let config = bare_config();
    let parsed = parse(&config, &args(&["prog", "--prompt", "q", "--output", "notes.md"]))
        .unwrap();
    assert_eq!(parsed.flags.resultfile, Some(b("notes.md")));
}

#[test]
fn temp_keeps_artifacts_in_the_working_directory() {
    let config = bare_config();
    let parsed = parse(&config, &args(&["prog", "--prompt", "q", "--temp"])).unwrap();
    assert!(parsed.flags.temp);
    assert_eq!(parsed.flags.responsefile, Some(b("response.json")));
    assert_eq!(parsed.flags.resultfile, Some(b("result.md")));
}

#[test]
fn custom_viewer_and_delete_are_recorded() {
    let config = bare_config();
    let parsed = parse(
        &config,
        &args(&["prog", "--prompt", "q", "--open-with", "bat {}", "--delete"]),
    )
    .unwrap();
    assert_eq!(parsed.flags.display_mode, DisplayMode::Custom);
    assert_eq!(parsed.flags.custom_command, Some(b("bat {}")));
    assert!(parsed.flags.delete);
}

#[test]
fn config_subcommand_is_reported() {
    let config = bare_config();
    let parsed = parse(&config, &args(&["prog", "config"])).unwrap();
    assert!(parsed.wants_config);
}

#[test]
fn bare_or_truncated_command_lines_are_refused() {
    let config = bare_config();
    assert!(parse(&config, &args(&["prog"])).is_none());
    assert!(parse(&config, &args(&["prog", "--prompt"])).is_none());
    assert!(parse(&config, &args(&["prog", "--prompt", "q", "--session"])).is_none());
}

#[test]
fn from_answers_trims_and_refuses_an_empty_key() {
    assert!(Config::from_answers(&b("  \n"), &b(""), &b(""), &b("")).is_none());
    let c = Config::from_answers(&b(" key \n"), &b(" /data \n"), &b("\n"), &b("less {}\n"))
        .unwrap();
    assert_eq!(s(c.api), "key");
    assert_eq!(c.basedir, Some(b("/data")));
    assert!(c.default_session.is_none());
    assert_eq!(c.default_viewer, Some(b("less {}")));
}

#[test]
fn viewer_command_follows_the_display_mode() {
    let config = Config {
        api: b("k"),
        basedir: None,
        default_session: None,
        default_viewer: Some(b("glow {}")),
    };
    let mut flags = Flags::default();
    assert_eq!(
        DisplayMode::Raw.cmd(&config, &flags).map(s),
        Some(String::from("cat {}"))
    );
    assert_eq!(
        DisplayMode::Defualt.cmd(&config, &flags).map(s),
        Some(String::from("pandoc -t plain {}"))
    );
    assert_eq!(
        DisplayMode::Config.cmd(&config, &flags).map(s),
        Some(String::from("glow {}"))
    );
    assert_eq!(DisplayMode::Hidden.cmd(&config, &flags), None);
    flags.custom_command = Some(b("bat {}"));
    assert_eq!(
        DisplayMode::Custom.cmd(&config, &flags).map(s),
        Some(String::from("bat {}"))
    );
}

#[test]
fn template_substitution_fills_in_the_result_file() {
    let out = apply_template(&b("pandoc -t plain {}"), &b("./demo/result.md"));
    assert_eq!(s(out), "pandoc -t plain ./demo/result.md");
}

#[test]
fn attaching_an_image_sets_only_the_attachment_fields() {
    let mut flags = Flags::default();
    flags.query = Some(b("q"));
    terminator::flags::attach_image(&mut flags, &b("hello"));
    assert_eq!(flags.image, Some(b("aGVsbG8=")));
    assert_eq!(flags.imghash.as_ref().map(|h| h.len()), Some(64));
    assert_eq!(flags.query, Some(b("q")));
    assert!(flags.image_path.is_none());
}

#[test]
fn executable_extensions_follow_the_fixed_list() {
    assert!(is_executable_extension(&b("exe")));
    assert!(is_executable_extension(&b("ps1")));
    assert!(is_executable_extension(&b("com")));
    assert!(!is_executable_extension(&b("txt")));
    assert!(!is_executable_extension(&b("EXE")));
}
