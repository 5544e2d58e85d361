//! The failures that an invocation can end in.

use vstd::prelude::*;
use vstd::string::StringExecFns;

verus! {

/// Why an invocation was given up. Each variant carries the text that
/// describes the failure.
#[derive(Debug)]
pub enum GraphVizError {
    LLVMInit(String),
    ModuleParsing(String),
    GraphConstruction(String),
    Visualization(String),
    /// The durable location could not be read or written.
    IO(String),
    /// The durable content stands for no graph.
    Decode(String),
}

impl GraphVizError {
    /// The words that introduce a failure of this kind.
    pub open spec fn heading(&self) -> Seq<char> {
        match self {
            GraphVizError::LLVMInit(_) => "LLVM initialization error: "@,
            GraphVizError::ModuleParsing(_) => "Failed to parse LLVM module: "@,
            GraphVizError::GraphConstruction(_) => "Graph construction error: "@,
            GraphVizError::Visualization(_) => "Visualization error: "@,
            GraphVizError::IO(_) => "IO error: "@,
            GraphVizError::Decode(_) => "Decode error: "@,
        }
    }

    /// The text that the failure carries.
    pub open spec fn detail(&self) -> Seq<char> {
        match self {
            GraphVizError::LLVMInit(text) => text@,
            GraphVizError::ModuleParsing(text) => text@,
            GraphVizError::GraphConstruction(text) => text@,
            GraphVizError::Visualization(text) => text@,
            GraphVizError::IO(text) => text@,
            GraphVizError::Decode(text) => text@,
        }
    }

    /// The failure in words: its heading, then its text.
    pub fn message(&self) -> (text: String)
        ensures
            text@ == self.heading() + self.detail(),
    {
        match self {
            GraphVizError::LLVMInit(detail) => headed("LLVM initialization error: ", detail),
            GraphVizError::ModuleParsing(detail) => headed("Failed to parse LLVM module: ", detail),
            GraphVizError::GraphConstruction(detail) => headed(
                "Graph construction error: ",
                detail,
            ),
            GraphVizError::Visualization(detail) => headed("Visualization error: ", detail),
            GraphVizError::IO(detail) => headed("IO error: ", detail),
            GraphVizError::Decode(detail) => headed("Decode error: ", detail),
        }
    }
}

/// A heading followed by a text.
fn headed(heading: &str, detail: &String) -> (text: String)
    ensures
        text@ == heading@ + detail@,
{
    heading.to_owned().concat(detail.as_str())
}

} // verus!
