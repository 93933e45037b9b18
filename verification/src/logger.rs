//! How the logger of a process is set up from its command line.

use vstd::prelude::*;
use vstd::string::StringExecFns;

verus! {

/// The settings of a logger.
#[derive(Debug, Clone, PartialEq, Eq)]
pub struct LoggerSettings {
    /// The filter that applies where the environment gives none.
    pub filter: String,
    /// Whether the output is coloured.
    pub ansi: bool,
    /// Whether each line names the source file.
    pub with_file: bool,
    /// Whether each line names the line in the source file.
    pub with_line_number: bool,
}

/// The level to log at: `debug` wins over `verbose`, and without either
/// only warnings are logged.
pub open spec fn spec_logger_level(verbose: bool, debug: bool) -> Seq<char> {
    if debug {
        "debug"@
    } else if verbose {
        "info"@
    } else {
        "warn"@
    }
}

/// The filter for a level: the level for each component, then the level
/// for everything else.
pub open spec fn spec_logger_filter(level: Seq<char>) -> Seq<char> {
    "tunasync="@ + level + ",tunasynctl="@ + level + ",tracing_subscriber="@ + level
        + ",rustls="@ + level + ","@ + level
}

pub fn logger_level(verbose: bool, debug: bool) -> (level: &'static str)
    ensures
        level@ == spec_logger_level(verbose, debug),
{
    if debug {
        "debug"
    } else if verbose {
        "info"
    } else {
        "warn"
    }
}

pub fn logger_filter(level: &str) -> (filter: String)
    ensures
        filter@ == spec_logger_filter(level@),
{
    String::from_str("tunasync=").concat(level).concat(",tunasynctl=").concat(level).concat(
        ",tracing_subscriber=",
    ).concat(level).concat(",rustls=").concat(level).concat(",").concat(level)
}

/// The settings of the logger: colours are left out under systemd, and
/// source positions are shown only when debugging.
pub fn logger_settings(verbose: bool, debug: bool, with_systemd: bool) -> (settings: LoggerSettings)
    ensures
        settings.filter@ == spec_logger_filter(spec_logger_level(verbose, debug)),
        settings.ansi == !with_systemd,
        settings.with_file == debug,
        settings.with_line_number == debug,
{
    LoggerSettings {
        filter: logger_filter(logger_level(verbose, debug)),
        ansi: !with_systemd,
        with_file: debug,
        with_line_number: debug,
    }
}

} // verus!
