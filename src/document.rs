//! The tagged tree that a story document parses into, and the call into the
//! YAML parser that produces it.
use vstd::prelude::*;
use yaml_rust::scanner::ScanError;
use yaml_rust::{Yaml, YamlLoader};

verus! {

/// One value of a parsed document: a mapping of key/value pairs in document
/// order, a sequence, a string scalar, or any other scalar (number, boolean,
/// null, alias), whose content the story format never reads.
#[derive(Debug)]
pub enum Doc {
    Mapping(Vec<(Doc, Doc)>),
    Sequence(Vec<Doc>),
    Scalar(String),
    Other,
}

#[verifier::external_type_specification]
#[verifier::external_body]
pub struct ExScanError(ScanError);

#[verifier::external_type_specification]
#[verifier::external_body]
pub struct ExYaml(Yaml);

/// The documents that the YAML parser reads from a text, or the error with
/// which it rejects the text.
pub uninterp spec fn yaml_documents(text: Seq<char>) -> Result<Seq<Doc>, ScanError>;

/// The documents of a parse outcome as a sequence.
pub open spec fn parsed_view(r: Result<Vec<Doc>, ScanError>) -> Result<Seq<Doc>, ScanError> {
    match r {
        Ok(docs) => Ok(docs@),
        Err(e) => Err(e),
    }
}

/// Relies on `yaml_rust::Yaml`'s variants: a hash becomes a mapping with its
/// pairs in insertion order, an array a sequence, a string a string scalar.
#[verifier::external_body]
fn doc_from_yaml(y: Yaml) -> Doc {
    match y {
        Yaml::Hash(h) => Doc::Mapping(
            h.into_iter().map(|(k, v)| (doc_from_yaml(k), doc_from_yaml(v))).collect(),
        ),
        Yaml::Array(a) => Doc::Sequence(a.into_iter().map(doc_from_yaml).collect()),
        Yaml::String(s) => Doc::Scalar(s),
        _ => Doc::Other,
    }
}

/// Relies on `yaml_rust::YamlLoader::load_from_str`: the documents of the text
/// in order, or the scanner's error; the outcome depends on the text alone.
#[verifier::external_body]
pub(crate) fn parse_documents(text: &str) -> (r: Result<Vec<Doc>, ScanError>)
    ensures
        parsed_view(r) == yaml_documents(text@),
{
    YamlLoader::load_from_str(text).map(|docs| docs.into_iter().map(doc_from_yaml).collect())
}

} // verus!
