//! How the node logs.

use crate::cli::{ColorChoice, Output};
use vstd::prelude::*;
use vstd::string::*;

verus! {

/// A filter that is always in force: the code generator logs too much.
pub const BASE_FILTER: &'static str = "cranelift=error";

/// Severity of a log record.
#[derive(Clone, Copy, Debug, PartialEq, Eq, Structural)]
pub enum Level {
    /// Least severe.
    Trace,
    /// For developers.
    Debug,
    /// For the user.
    Info,
    /// Something is wrong.
    Warn,
    /// Most severe.
    Error,
}

/// A step in setting up the log filters. Where two of them concern the same record, the later one
/// is in force.
pub enum Directive {
    /// Adds a filter, in the syntax of log filters.
    Filter(String),
    /// Lets through what is at least as severe as this.
    Level(Level),
}

/// A step in setting up the log filters, by its characters.
pub enum DirectiveView {
    /// Adds a filter.
    Filter(Seq<char>),
    /// Lets through what is at least as severe as this.
    Level(Level),
}

impl View for Directive {
    type V = DirectiveView;

    open spec fn view(&self) -> DirectiveView {
        match self {
            Directive::Filter(filter) => DirectiveView::Filter(filter@),
            Directive::Level(level) => DirectiveView::Level(*level),
        }
    }
}

/// Steps in setting up the log filters, by their characters.
pub open spec fn directives_view(directives: Seq<Directive>) -> Seq<DirectiveView> {
    Seq::new(directives.len(), |i: int| directives[i]@)
}

/// How log records are written.
#[derive(Clone, Copy, Debug, PartialEq, Eq, Structural)]
pub enum Format {
    /// As text, coloured or not.
    Text(ColorChoice),
    /// As JSON objects, one per line, never coloured.
    Json,
}

/// How to set up the logging of the node.
pub struct LoggerSetup {
    /// Steps in setting up the filters, in order.
    pub directives: Vec<Directive>,
    /// How records are written.
    pub format: Format,
}

/// The steps in setting up the log filters for an output. With the informant, the filters that
/// the user gave are left aside.
pub open spec fn directives_for(output: Output, filters: Seq<String>) -> Seq<DirectiveView> {
    if output == Output::Informant {
        seq![DirectiveView::Filter(BASE_FILTER@), DirectiveView::Level(Level::Info)]
    } else {
        seq![DirectiveView::Filter(BASE_FILTER@), DirectiveView::Level(Level::Debug)] + Seq::new(
            filters.len(),
            |i: int| DirectiveView::Filter(filters[i]@),
        )
    }
}

/// Determines how to set up the logging of the node. Returns `None` if the node logs nothing.
pub fn logger_setup(output: Output, filters: &Vec<String>, color: ColorChoice) -> (r: Option<
    LoggerSetup,
>)
    requires
        output != Output::Auto,
    ensures
        r is None <==> output == Output::Silent,
        r matches Some(setup) ==> {
            &&& directives_view(setup.directives@) == directives_for(output, filters@)
            &&& setup.format == if output == Output::LogsJson {
                Format::Json
            } else {
                Format::Text(color)
            }
        },
{
    if let Output::Silent = output {
        return None;
    }
    let mut directives: Vec<Directive> = Vec::new();
    directives.push(Directive::Filter(BASE_FILTER.to_owned()));
    if let Output::Informant = output {
        directives.push(Directive::Level(Level::Info));
    } else {
        directives.push(Directive::Level(Level::Debug));
        let mut i: usize = 0;
        while i < filters.len()
            invariant
                i <= filters@.len(),
                output != Output::Informant,
                directives_view(directives@) =~= directives_for(output, filters@).take(2 + i),
            decreases filters@.len() - i,
        {
            let ghost before = directives@;
            directives.push(Directive::Filter(filters[i].clone()));
            assert(directives_view(directives@) =~= directives_view(before).push(
                DirectiveView::Filter(filters@[i as int]@),
            ));
            i += 1;
        }
    }
    assert(directives_view(directives@) =~= directives_for(output, filters@));
    let format = if let Output::LogsJson = output {
        Format::Json
    } else {
        Format::Text(color)
    };
    Some(LoggerSetup { directives, format })
}

/// Name of a severity in a JSON log record.
pub open spec fn level_name_of(level: Level) -> Seq<char> {
    match level {
        Level::Trace => "trace"@,
        Level::Debug => "debug"@,
        Level::Info => "info"@,
        Level::Warn => "warn"@,
        Level::Error => "error"@,
    }
}

/// Name of a severity in a JSON log record.
pub fn level_name(level: Level) -> (r: &'static str)
    ensures
        r@ == level_name_of(level),
{
    match level {
        Level::Trace => "trace",
        Level::Debug => "debug",
        Level::Info => "info",
        Level::Warn => "warn",
        Level::Error => "error",
    }
}

/// A log record that is written as JSON.
pub struct LogRecord {
    /// Number of milliseconds since the Unix epoch.
    pub timestamp: u128,
    /// Part of the program that logged the record.
    pub target: String,
    /// Name of the severity.
    pub level: &'static str,
    /// The message.
    pub message: String,
}

/// Puts together a log record that is written as JSON. The time is zero if the clock is set before
/// the Unix epoch.
pub fn log_record(
    millis_since_epoch: Option<u128>,
    target: String,
    level: Level,
    message: String,
) -> (r: LogRecord)
    ensures
        r.timestamp == match millis_since_epoch {
            Some(millis) => millis,
            None => 0u128,
        },
        r.target == target,
        r.level@ == level_name_of(level),
        r.message == message,
{
    LogRecord {
        timestamp: match millis_since_epoch {
            Some(millis) => millis,
            None => 0,
        },
        target,
        level: level_name(level),
        message,
    }
}

/// The line that is written for a log record, out of the JSON of the record.
pub fn log_line(json: Vec<u8>) -> (r: Vec<u8>)
    ensures
        r@ == json@.push(10u8),
{
    let mut line = json;
    line.push(10u8);
    line
}

/// No two severities have the same name.
pub proof fn level_names_are_distinct(a: Level, b: Level)
    requires
        level_name_of(a) == level_name_of(b),
    ensures
        a == b,
{
    reveal_strlit("trace");
    reveal_strlit("debug");
    reveal_strlit("info");
    reveal_strlit("warn");
    reveal_strlit("error");
    assert("trace"@[0] == 't' && "debug"@[0] == 'd' && "info"@[0] == 'i' && "warn"@[0] == 'w'
        && "error"@[0] == 'e');
    assert(level_name_of(a)[0] == level_name_of(b)[0]);
}

/// Whatever the output, the filter on the code generator comes first, and then the level: that of
/// information with the informant, and that of debugging otherwise. The filters that the user gave
/// come behind them, all of them and in order, but with the informant they are left aside.
pub proof fn filters_are_set_up_in_this_order(output: Output, filters: Seq<String>, i: int)
    ensures
        ({
            let directives = directives_for(output, filters);
            &&& directives.len() >= 2
            &&& directives[0] == DirectiveView::Filter("cranelift=error"@)
            &&& directives[1] == DirectiveView::Level(
                if output == Output::Informant {
                    Level::Info
                } else {
                    Level::Debug
                },
            )
            &&& output == Output::Informant ==> directives.len() == 2
            &&& output != Output::Informant ==> {
                &&& directives.len() == 2 + filters.len()
                &&& 0 <= i < filters.len() ==> directives[2 + i] == DirectiveView::Filter(
                    filters[i]@,
                )
            }
        }),
{
}

/// Directives are told by their characters, in order.
pub proof fn directives_are_kept(directives: Seq<Directive>, i: int)
    ensures
        directives_view(directives).len() == directives.len(),
        0 <= i < directives.len() ==> match directives[i] {
            Directive::Filter(filter) => directives_view(directives)[i] == DirectiveView::Filter(
                filter@,
            ),
            Directive::Level(level) => directives_view(directives)[i] == DirectiveView::Level(
                level,
            ),
        },
{
}

/// The names of the severities.
pub proof fn level_names_are_these()
    ensures
        level_name_of(Level::Trace) == seq!['t', 'r', 'a', 'c', 'e'],
        level_name_of(Level::Debug) == seq!['d', 'e', 'b', 'u', 'g'],
        level_name_of(Level::Info) == seq!['i', 'n', 'f', 'o'],
        level_name_of(Level::Warn) == seq!['w', 'a', 'r', 'n'],
        level_name_of(Level::Error) == seq!['e', 'r', 'r', 'o', 'r'],
{
    reveal_strlit("trace");
    reveal_strlit("debug");
    reveal_strlit("info");
    reveal_strlit("warn");
    reveal_strlit("error");
    assert(level_name_of(Level::Trace) =~= seq!['t', 'r', 'a', 'c', 'e']);
    assert(level_name_of(Level::Debug) =~= seq!['d', 'e', 'b', 'u', 'g']);
    assert(level_name_of(Level::Info) =~= seq!['i', 'n', 'f', 'o']);
    assert(level_name_of(Level::Warn) =~= seq!['w', 'a', 'r', 'n']);
    assert(level_name_of(Level::Error) =~= seq!['e', 'r', 'r', 'o', 'r']);
}

} // verus!
