//! Tool invocations and how their outcomes are reported back.
use vstd::prelude::*;
use crate::text::{append, owned};

verus! {

/// One structured tool invocation taken from a model reply.
#[derive(Debug, Clone, PartialEq, Eq)]
pub struct ParsedToolCall {
    pub name: String,
    /// The argument object, as JSON text.
    pub arguments: String,
}

impl View for ParsedToolCall {
    type V = (Seq<char>, Seq<char>);

    open spec fn view(&self) -> (Seq<char>, Seq<char>) {
        (self.name@, self.arguments@)
    }
}

/// What came of looking a tool up and running it.
#[derive(Debug, Clone, PartialEq, Eq)]
pub enum ToolOutcome {
    /// No tool of that name is registered.
    Unknown,
    /// The tool ran and reported a result.
    Completed { success: bool, output: String, error: Option<String> },
    /// Running the tool failed with a runtime error.
    Failed { error: String },
}

/// Whether an outcome counts as a success.
pub open spec fn outcome_success(o: ToolOutcome) -> bool {
    match o {
        ToolOutcome::Completed { success, .. } => success,
        _ => false,
    }
}

/// The text reported for a tool outcome.
pub open spec fn outcome_text(name: Seq<char>, o: ToolOutcome) -> Seq<char> {
    match o {
        ToolOutcome::Unknown => "Unknown tool: "@ + name,
        ToolOutcome::Completed { success, output, error } => if success {
            output@
        } else {
            "Error: "@ + match error {
                Some(e) => e@,
                None => output@,
            }
        },
        ToolOutcome::Failed { error } => "Error executing "@ + name + ": "@ + error@,
    }
}

/// Normalises the outcome of running tool `name` into a success flag and
/// the text reported to the model and the listener.
pub fn normalize_outcome(name: &str, outcome: &ToolOutcome) -> (r: (bool, String))
    ensures
        r.0 == outcome_success(*outcome),
        r.1@ == outcome_text(name@, *outcome),
{
    match outcome {
        ToolOutcome::Unknown => {
            let mut s = owned("Unknown tool: ");
            append(&mut s, name);
            (false, s)
        },
        ToolOutcome::Completed { success, output, error } => {
            if *success {
                (true, output.clone())
            } else {
                let mut s = owned("Error: ");
                match error {
                    Some(e) => append(&mut s, e.as_str()),
                    None => append(&mut s, output.as_str()),
                }
                (false, s)
            }
        },
        ToolOutcome::Failed { error } => {
            let mut s = owned("Error executing ");
            append(&mut s, name);
            append(&mut s, ": ");
            append(&mut s, error.as_str());
            (false, s)
        },
    }
}

/// The block that carries one tool's output back to the model.
pub open spec fn result_block(name: Seq<char>, output: Seq<char>) -> Seq<char> {
    "<tool_result name=\""@ + name + "\">\n"@ + output + "\n</tool_result>\n"@
}

/// Formats one tool's output as a `<tool_result>` block, ending in a newline.
pub fn tool_result_block(name: &str, output: &str) -> (r: String)
    ensures
        r@ == result_block(name@, output@),
{
    let mut s = owned("<tool_result name=\"");
    append(&mut s, name);
    append(&mut s, "\">\n");
    append(&mut s, output);
    append(&mut s, "\n</tool_result>\n");
    s
}

} // verus!
