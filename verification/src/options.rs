use vstd::prelude::*;

verus! {

/// Format of the output.
#[derive(Debug, Clone, Copy, PartialEq, Eq, Structural)]
pub enum Format {
    Sbxml,
    Tab,
    Eval,
}

impl Default for Format {
    fn default() -> (r: Format)
        ensures
            r == Format::Sbxml,
    {
        Format::Sbxml
    }
}

/// Whether output can be written in `format`: the XML format is not
/// supported; every other format is written as tab-separated text.
pub fn output_format_supported(format: Format) -> (r: bool)
    ensures
        r == (format != Format::Sbxml),
{
    match format {
        Format::Sbxml => false,
        _ => true,
    }
}

/// Verbosity of the log output, from the quietest to the noisiest.
#[derive(Debug, Clone, Copy, PartialEq, Eq, Structural)]
pub enum LogLevel {
    Error,
    Warn,
    Info,
    Debug,
    Trace,
}

/// Position of a level on the scale from quietest (0) to noisiest (4).
pub open spec fn level_rank(level: LogLevel) -> nat {
    match level {
        LogLevel::Error => 0,
        LogLevel::Warn => 1,
        LogLevel::Info => 2,
        LogLevel::Debug => 3,
        LogLevel::Trace => 4,
    }
}

/// The level selected by `verbose` repetitions of the `-v` flag.
pub open spec fn level_for(verbose: u8) -> LogLevel {
    if verbose == 0 {
        LogLevel::Error
    } else if verbose == 1 {
        LogLevel::Warn
    } else if verbose == 2 {
        LogLevel::Info
    } else if verbose == 3 {
        LogLevel::Debug
    } else {
        LogLevel::Trace
    }
}

/// Maps the count of `-v` flags to the log level that is configured.
pub fn verbosity_level(verbose: u8) -> (level: LogLevel)
    ensures
        level == level_for(verbose),
{
    match verbose {
        0 => LogLevel::Error,
        1 => LogLevel::Warn,
        2 => LogLevel::Info,
        3 => LogLevel::Debug,
        _ => LogLevel::Trace,
    }
}

/// More `-v` flags never make the log quieter.
pub proof fn lemma_verbosity_monotone(a: u8, b: u8)
    requires
        a <= b,
    ensures
        level_rank(level_for(a)) <= level_rank(level_for(b)),
{
}

} // verus!
