//! What the user asks of the node, as far as decisions depend on it.

use vstd::prelude::*;

verus! {

/// What the node prints.
#[derive(Clone, Copy, Debug, PartialEq, Eq, Structural)]
pub enum Output {
    /// Nothing.
    Silent,
    /// The informant on a terminal where no log filter is given, logs otherwise.
    Auto,
    /// A line of text that overwrites itself.
    Informant,
    /// One line of text per event.
    Logs,
    /// One JSON object per event.
    LogsJson,
}

/// Whether the output is coloured.
#[derive(Clone, Copy, Debug, PartialEq, Eq, Structural)]
pub enum ColorChoice {
    /// Always.
    Always,
    /// Never.
    Never,
}

/// The output that `output` stands for.
pub open spec fn resolved_output(output: Output, terminal: bool, has_filters: bool) -> Output {
    if output != Output::Auto {
        output
    } else if terminal && !has_filters {
        Output::Informant
    } else {
        Output::Logs
    }
}

/// Determines the actual output, by replacing `Auto` with what suits the terminal and the log
/// filters that were given.
pub fn resolve_output(output: Output, terminal: bool, has_filters: bool) -> (r: Output)
    ensures
        r == resolved_output(output, terminal, has_filters),
        r != Output::Auto,
        output != Output::Auto ==> r == output,
        output == Output::Auto && terminal && !has_filters ==> r == Output::Informant,
        output == Output::Auto && (!terminal || has_filters) ==> r == Output::Logs,
{
    if let Output::Auto = output {
        if terminal && !has_filters {
            Output::Informant
        } else {
            Output::Logs
        }
    } else {
        output
    }
}

/// An output that the user chose is kept, whatever the terminal and the filters. Where none was
/// chosen, the informant is printed on a terminal if no filter was given, and logs otherwise.
pub proof fn only_auto_is_replaced(output: Output, terminal: bool, has_filters: bool)
    ensures
        output != Output::Auto ==> resolved_output(output, terminal, has_filters) == output,
        resolved_output(Output::Auto, terminal, has_filters) == Output::Informant <==> terminal
            && !has_filters,
        resolved_output(Output::Auto, terminal, has_filters) == Output::Logs <==> !terminal
            || has_filters,
{
}

} // verus!
