//! How the daemon presents the diagnostics of a session to its client.

use crate::text::same_text;
use crate::text::texts;
use vstd::prelude::*;

verus! {

/// Whether diagnostics link to the documentation of their error codes.
#[derive(Clone, Copy, PartialEq, Eq, Structural, Debug)]
pub enum TerminalUrl {
    No,
    Yes,
    /// Only in a terminal that is known to show links.
    Auto,
}

/// Whether diagnostics are coloured.
#[derive(Clone, Copy, PartialEq, Eq, Structural, Debug)]
pub enum ColorConfig {
    Auto,
    Always,
    Never,
}

/// How a diagnostic for people is laid out.
#[derive(Clone, Copy, PartialEq, Eq, Structural, Debug)]
pub struct HumanReadableErrorType {
    pub short: bool,
    pub unicode: bool,
}

/// Who diagnostics are for.
#[derive(Clone, Copy, PartialEq, Eq, Structural, Debug)]
pub enum ErrorOutputType {
    /// People.
    HumanReadable { kind: HumanReadableErrorType, color_config: ColorConfig },
    /// Programs.
    Json { pretty: bool, json_rendered: HumanReadableErrorType, color_config: ColorConfig },
}

/// The characters that a diagnostic is drawn with.
#[derive(Clone, Copy, PartialEq, Eq, Structural, Debug)]
pub enum OutputTheme {
    Ascii,
    Unicode,
}

/// The options of a session that have a bearing on its diagnostics.
pub struct EmitterOptions {
    pub error_format: ErrorOutputType,
    pub terminal_urls: TerminalUrl,
    /// The compiler is a nightly build.
    pub is_nightly_build: bool,
    /// The session only links, so there is no source to quote.
    pub link_only: bool,
    pub macro_backtrace: bool,
    pub track_diagnostics: bool,
    pub ui_testing: bool,
    pub diagnostic_width: Option<usize>,
    /// No source in these directories is quoted.
    pub ignored_directories: Vec<String>,
}

/// Which emitter is used.
#[derive(Clone, Copy, PartialEq, Eq, Structural, Debug)]
pub enum EmitterKind {
    /// One for people, which always writes its colours out.
    HumanReadable { short: bool, theme: OutputTheme },
    /// One for programs, which writes through a buffer.
    Json { pretty: bool, json_rendered: HumanReadableErrorType, color_config: ColorConfig },
}

/// The emitter of a session, and how it is set up.
pub struct EmitterPlan {
    pub kind: EmitterKind,
    /// The emitter quotes the source.
    pub with_source_map: bool,
    pub terminal_url: TerminalUrl,
    pub macro_backtrace: bool,
    pub track_diagnostics: bool,
    pub ui_testing: bool,
    pub diagnostic_width: Option<usize>,
    pub ignored_directories: Vec<String>,
}

/// `value` is set, and set to `wanted`.
pub open spec fn is_set_to(value: Option<&str>, wanted: &str) -> bool {
    match value {
        Some(value) => value@ == wanted@,
        None => false,
    }
}

/// Whether to link, given what `COLORTERM` and `TERM` are set to.
pub open spec fn resolved_terminal_url(
    setting: TerminalUrl,
    colorterm: Option<&str>,
    term: Option<&str>,
    is_nightly_build: bool,
) -> TerminalUrl {
    match setting {
        TerminalUrl::Auto => if is_set_to(colorterm, "truecolor") && is_set_to(
            term,
            "xterm-256color",
        ) && is_nightly_build {
            TerminalUrl::Yes
        } else {
            TerminalUrl::No
        },
        _ => setting,
    }
}

/// The emitter for `error_format`.
pub open spec fn emitter_kind(error_format: ErrorOutputType) -> EmitterKind {
    match error_format {
        ErrorOutputType::HumanReadable { kind, color_config: _ } => EmitterKind::HumanReadable {
            short: kind.short,
            theme: if kind.unicode {
                OutputTheme::Unicode
            } else {
                OutputTheme::Ascii
            },
        },
        ErrorOutputType::Json { pretty, json_rendered, color_config } => EmitterKind::Json {
            pretty,
            json_rendered,
            color_config,
        },
    }
}

/// Whether `value` is set to `wanted`.
fn set_to(value: Option<&str>, wanted: &str) -> (yes: bool)
    ensures
        yes == is_set_to(value, wanted),
{
    match value {
        Some(value) => same_text(value, wanted),
        None => false,
    }
}

/// The emitter of a session with these options, for a client, given what `COLORTERM` and `TERM`
/// are set to.
pub fn server_emitter(options: &EmitterOptions, colorterm: Option<&str>, term: Option<&str>) -> (plan:
    EmitterPlan)
    ensures
        plan.kind == emitter_kind(options.error_format),
        plan.with_source_map == !options.link_only,
        plan.terminal_url == resolved_terminal_url(
            options.terminal_urls,
            colorterm,
            term,
            options.is_nightly_build,
        ),
        plan.macro_backtrace == options.macro_backtrace,
        plan.track_diagnostics == options.track_diagnostics,
        plan.ui_testing == options.ui_testing,
        plan.diagnostic_width == options.diagnostic_width,
        texts(plan.ignored_directories@) == texts(options.ignored_directories@),
{
    let terminal_url = match options.terminal_urls {
        TerminalUrl::Auto => if set_to(colorterm, "truecolor") && set_to(term, "xterm-256color")
            && options.is_nightly_build {
            TerminalUrl::Yes
        } else {
            TerminalUrl::No
        },
        setting => setting,
    };
    let kind = match options.error_format {
        ErrorOutputType::HumanReadable { kind, color_config: _ } => EmitterKind::HumanReadable {
            short: kind.short,
            theme: if kind.unicode {
                OutputTheme::Unicode
            } else {
                OutputTheme::Ascii
            },
        },
        ErrorOutputType::Json { pretty, json_rendered, color_config } => EmitterKind::Json {
            pretty,
            json_rendered,
            color_config,
        },
    };
    let ignored_directories = options.ignored_directories.clone();
    assert(texts(ignored_directories@) =~= texts(options.ignored_directories@));
    EmitterPlan {
        kind,
        with_source_map: !options.link_only,
        terminal_url,
        macro_backtrace: options.macro_backtrace,
        track_diagnostics: options.track_diagnostics,
        ui_testing: options.ui_testing,
        diagnostic_width: options.diagnostic_width,
        ignored_directories,
    }
}

/// Whether to link is always settled: no emitter is left to find out about the terminal of the
/// daemon, which the client does not see.
pub proof fn terminal_url_is_settled(
    setting: TerminalUrl,
    colorterm: Option<&str>,
    term: Option<&str>,
    is_nightly_build: bool,
)
    ensures
        resolved_terminal_url(setting, colorterm, term, is_nightly_build) != TerminalUrl::Auto,
{
}

/// An emitter is one for programs just if the error format is, and then it has all three settings of
/// the format.  It is one for people just if the format is, and then it is as short as the format
/// says, and draws with Unicode characters just if the format says so.
pub proof fn the_format_decides_the_emitter(
    format: ErrorOutputType,
    pretty: bool,
    json_rendered: HumanReadableErrorType,
    color_config: ColorConfig,
    kind: HumanReadableErrorType,
)
    ensures
        emitter_kind(format) is Json <==> format is Json,
        emitter_kind(format) is HumanReadable <==> format is HumanReadable,
        emitter_kind(format) == (EmitterKind::Json { pretty, json_rendered, color_config })
            <==> format == (ErrorOutputType::Json { pretty, json_rendered, color_config }),
        format == (ErrorOutputType::HumanReadable { kind, color_config }) ==> {
            &&& emitter_kind(format)->short == kind.short
            &&& emitter_kind(format)->theme == OutputTheme::Unicode <==> kind.unicode
            &&& emitter_kind(format)->theme == OutputTheme::Ascii <==> !kind.unicode
        },
{
}

/// Diagnostics link just if that is asked for, or if it is left to the terminal, both variables say
/// that the terminal is capable of it, and the compiler is a nightly build.
pub proof fn when_diagnostics_link(
    setting: TerminalUrl,
    colorterm: Option<&str>,
    term: Option<&str>,
    is_nightly_build: bool,
)
    ensures
        resolved_terminal_url(setting, colorterm, term, is_nightly_build) == TerminalUrl::Yes <==> {
            ||| setting == TerminalUrl::Yes
            ||| setting == TerminalUrl::Auto && is_nightly_build && colorterm is Some
                && colorterm->0@ == "truecolor"@ && term is Some && term->0@ == "xterm-256color"@
        },
        resolved_terminal_url(setting, colorterm, term, is_nightly_build) != TerminalUrl::Yes
            ==> resolved_terminal_url(setting, colorterm, term, is_nightly_build)
            == TerminalUrl::No,
{
}

} // verus!
