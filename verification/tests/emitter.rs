use cg_clif_daemon::emitter::server_emitter;
use cg_clif_daemon::emitter::ColorConfig;
use cg_clif_daemon::emitter::EmitterKind;
use cg_clif_daemon::emitter::EmitterOptions;
use cg_clif_daemon::emitter::ErrorOutputType;
use cg_clif_daemon::emitter::HumanReadableErrorType;
use cg_clif_daemon::emitter::OutputTheme;
use cg_clif_daemon::emitter::TerminalUrl;

fn options() -> EmitterOptions {
    EmitterOptions {
        error_format: ErrorOutputType::HumanReadable {
            kind: HumanReadableErrorType { short: false, unicode: false },
            color_config: ColorConfig::Auto,
        },
        terminal_urls: TerminalUrl::No,
        is_nightly_build: true,
        link_only: false,
        macro_backtrace: false,
        track_diagnostics: false,
        ui_testing: false,
        diagnostic_width: None,
        ignored_directories: Vec::new(),
    }
}

fn terminal_url(
    setting: TerminalUrl,
    colorterm: Option<&str>,
    term: Option<&str>,
    is_nightly_build: bool,
) -> TerminalUrl {
    let options = EmitterOptions { terminal_urls: setting, is_nightly_build, ..options() };
    server_emitter(&options, colorterm, term).terminal_url
}

#[test]
fn links_need_a_capable_terminal_and_a_nightly_build() {
    let auto = |colorterm, term, nightly| terminal_url(TerminalUrl::Auto, colorterm, term, nightly);
    assert_eq!(auto(Some("truecolor"), Some("xterm-256color"), true), TerminalUrl::Yes);
    assert_eq!(auto(Some("truecolor"), Some("xterm-256color"), false), TerminalUrl::No);
    assert_eq!(auto(Some("24bit"), Some("xterm-256color"), true), TerminalUrl::No);
    assert_eq!(auto(Some("truecolor"), Some("xterm"), true), TerminalUrl::No);
    assert_eq!(auto(None, Some("xterm-256color"), true), TerminalUrl::No);
    assert_eq!(auto(Some("truecolor"), None, true), TerminalUrl::No);
}

#[test]
fn explicit_link_settings_hold() {
    let capable = (Some("truecolor"), Some("xterm-256color"));
    assert_eq!(terminal_url(TerminalUrl::No, capable.0, capable.1, true), TerminalUrl::No);
    assert_eq!(terminal_url(TerminalUrl::Yes, None, None, false), TerminalUrl::Yes);
}

#[test]
fn diagnostics_for_people_have_a_theme() {
    for (short, unicode) in [(false, false), (false, true), (true, false), (true, true)] {
        let error_format = ErrorOutputType::HumanReadable {
            kind: HumanReadableErrorType { short, unicode },
            color_config: ColorConfig::Never,
        };
        let plan = server_emitter(&EmitterOptions { error_format, ..options() }, None, None);
        let theme = if unicode { OutputTheme::Unicode } else { OutputTheme::Ascii };
        assert_eq!(plan.kind, EmitterKind::HumanReadable { short, theme });
    }
}

#[test]
fn diagnostics_for_programs_are_json() {
    let json_rendered = HumanReadableErrorType { short: true, unicode: false };
    let error_format = ErrorOutputType::Json {
        pretty: true,
        json_rendered,
        color_config: ColorConfig::Always,
    };
    let plan = server_emitter(&EmitterOptions { error_format, ..options() }, None, None);
    assert_eq!(
        plan.kind,
        EmitterKind::Json { pretty: true, json_rendered, color_config: ColorConfig::Always },
    );
}

#[test]
fn only_linking_leaves_the_source_out() {
    let linking = EmitterOptions { link_only: true, ..options() };
    assert!(!server_emitter(&linking, None, None).with_source_map);
    assert!(server_emitter(&options(), None, None).with_source_map);
}

#[test]
fn other_options_are_passed_on() {
    let plan = server_emitter(
        &EmitterOptions {
            macro_backtrace: true,
            track_diagnostics: false,
            ui_testing: true,
            diagnostic_width: Some(80),
            ignored_directories: vec!["a".to_string(), "b".to_string()],
            ..options()
        },
        None,
        None,
    );
    assert!(plan.macro_backtrace);
    assert!(!plan.track_diagnostics);
    assert!(plan.ui_testing);
    assert_eq!(plan.diagnostic_width, Some(80));
    assert_eq!(plan.ignored_directories, ["a", "b"]);
}
