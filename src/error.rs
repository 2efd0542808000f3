//! The ways in which loading a story or taking a step in it can fail.
use vstd::prelude::*;
use yaml_rust::scanner::ScanError;

verus! {

/// Why a call did not do its work. None of these ends the session: each is
/// handed back to the caller, who decides whether to show or log it.
#[derive(Debug)]
pub enum Error {
    /// The story file could not be opened or read.
    Io(String),
    /// The document is not well-formed YAML.
    Yaml(ScanError),
    /// The document's top level is not a mapping.
    MalformedDocument,
    /// The input names no choice of the current node.
    ChoiceNotFound,
    /// The current node names no node of the story.
    CurrentNodeInvalid,
    /// The document declares no `start` node.
    NoStartingNodeFound,
}

} // verus!
