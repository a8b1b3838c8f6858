//! How the command-line tool writes its log lines: a coloured, bold tag for
//! the level, a space, then the message.

use vstd::prelude::*;
use vstd::string::*;
use owo_colors::OwoColorize;

verus! {

/// The levels a log record can have.
#[derive(PartialEq, Eq, Structural, Clone, Copy, Debug)]
pub enum LogLevel {
    Error,
    Warn,
    Info,
    Debug,
    Trace,
}

/// Text in an ANSI foreground colour, then back to the default colour.
pub open spec fn ansi_fg(code: Seq<char>, s: Seq<char>) -> Seq<char> {
    "\x1b["@ + code + "m"@ + s + "\x1b[39m"@
}

/// Text in bold, then all attributes reset.
pub open spec fn ansi_bold(s: Seq<char>) -> Seq<char> {
    "\x1b[1m"@ + s + "\x1b[0m"@
}

/// `OwoColorize::yellow`, written out through `Display`.
#[verifier::external_body]
fn yellow(s: &str) -> (r: String)
    ensures
        r@ == ansi_fg("33"@, s@),
{
    s.yellow().to_string()
}

/// `OwoColorize::red`, written out through `Display`.
#[verifier::external_body]
fn red(s: &str) -> (r: String)
    ensures
        r@ == ansi_fg("31"@, s@),
{
    s.red().to_string()
}

/// `OwoColorize::bright_blue`, written out through `Display`.
#[verifier::external_body]
fn bright_blue(s: &str) -> (r: String)
    ensures
        r@ == ansi_fg("94"@, s@),
{
    s.bright_blue().to_string()
}

/// `OwoColorize::bright_purple` (ANSI bright magenta), written out through
/// `Display`.
#[verifier::external_body]
fn bright_purple(s: &str) -> (r: String)
    ensures
        r@ == ansi_fg("95"@, s@),
{
    s.bright_purple().to_string()
}

/// `OwoColorize::bold`, written out through `Display`.
#[verifier::external_body]
fn bold(s: &str) -> (r: String)
    ensures
        r@ == ansi_bold(s@),
{
    s.bold().to_string()
}

/// The tag of each level, with its colour code.
pub open spec fn header_view(level: LogLevel) -> Seq<char> {
    match level {
        LogLevel::Warn => ansi_bold(ansi_fg("33"@, "[warn]"@)),
        LogLevel::Error => ansi_bold(ansi_fg("31"@, "[error]"@)),
        LogLevel::Info => ansi_bold(ansi_fg("94"@, "[info]"@)),
        LogLevel::Debug => ansi_bold(ansi_fg("95"@, "[debug]"@)),
        LogLevel::Trace => ansi_bold(ansi_fg("95"@, "[debug]"@)),
    }
}

/// The coloured, bold tag of a level: yellow `[warn]`, red `[error]`,
/// bright blue `[info]`, bright purple `[debug]` for debug and trace.
pub fn log_header(level: LogLevel) -> (r: String)
    ensures
        r@ == header_view(level),
{
    let coloured = match level {
        LogLevel::Warn => yellow("[warn]"),
        LogLevel::Error => red("[error]"),
        LogLevel::Info => bright_blue("[info]"),
        LogLevel::Debug => bright_purple("[debug]"),
        LogLevel::Trace => bright_purple("[debug]"),
    };
    bold(coloured.as_str())
}

/// A log line: the level's tag, a space, the message.
pub fn log_line(level: LogLevel, message: &str) -> (r: String)
    ensures
        r@ == header_view(level) + " "@ + message@,
{
    log_header(level).concat(" ").concat(message)
}

/// The most detailed level that is logged: everything in a debug build,
/// information and above otherwise.
pub fn max_level(debug_build: bool) -> (r: LogLevel)
    ensures
        r == (if debug_build {
            LogLevel::Trace
        } else {
            LogLevel::Info
        }),
{
    if debug_build {
        LogLevel::Trace
    } else {
        LogLevel::Info
    }
}

} // verus!
