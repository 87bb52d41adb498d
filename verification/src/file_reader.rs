//! Readers turn what was found at a path into a map of top-level keys: one
//! reader per file format.

use crate::config_map::{merged, ConfigMap};
use crate::error::{ConfigError, ErrorView};
use crate::json::{entries_json, json_document, parse_json, parse_yaml, yaml_document, Json};
use crate::source::FilePath;
use serde_json::Value;
use vstd::prelude::*;

verus! {

/// What came of opening a file and reading it to its end: the bytes, or the
/// operating system's words on why not.
pub type FileContents = Result<Vec<u8>, String>;

/// A file's contents with the bytes and the text as sequences.
pub open spec fn contents_view(contents: FileContents) -> Result<Seq<u8>, Seq<char>> {
    match contents {
        Ok(bytes) => Ok(bytes@),
        Err(detail) => Err(detail@),
    }
}

/// What a result of a map or an error says, over views.
pub open spec fn map_result_view(r: Result<ConfigMap, ConfigError>) -> Result<
    Map<Seq<char>, Json>,
    ErrorView,
> {
    match r {
        Ok(m) => Ok(m@),
        Err(e) => Err(e@),
    }
}

/// What a reader makes of a file, given what its parser made of the bytes:
/// a file that could not be read is a read error with the path and the
/// detail, a text that does not parse is a parse error, and a parsed text
/// gives its entries, the later of two with one key.
pub open spec fn read_outcome(
    path: Seq<char>,
    contents: Result<Seq<u8>, Seq<char>>,
    document: spec_fn(Seq<u8>) -> Result<Seq<(Seq<char>, Json)>, Seq<char>>,
) -> Result<Map<Seq<char>, Json>, ErrorView> {
    match contents {
        Err(detail) => Err(ErrorView::FileReadError(path, detail)),
        Ok(bytes) => match document(bytes) {
            Ok(entries) => Ok(merged(Map::empty(), entries)),
            Err(text) => Err(ErrorView::ParseError(text)),
        },
    }
}

/// The map or the error that a parser's result stands for: either every
/// entry, or a parse error with the parser's text.
pub fn config_from_parsed(parsed: Result<Vec<(String, Value)>, String>) -> (r: Result<
    ConfigMap,
    ConfigError,
>)
    ensures
        match parsed {
            Ok(entries) => r is Ok && r->Ok_0.wf() && r->Ok_0@ == merged(
                Map::empty(),
                entries_json(entries@),
            ),
            Err(text) => r is Err && r->Err_0@ == ErrorView::ParseError(text@),
        },
{
    match parsed {
        Ok(entries) => {
            let mut map = ConfigMap::new();
            map.merge_entries(&entries);
            Ok(map)
        },
        Err(text) => Err(ConfigError::ParseError(text)),
    }
}

/// The capability of turning a file of one format into a map.
pub trait Reader {
    /// What this reader makes of the contents found at a path.
    spec fn outcome(&self, path: Seq<char>, contents: Result<Seq<u8>, Seq<char>>) -> Result<
        Map<Seq<char>, Json>,
        ErrorView,
    >;

    /// Reads a whole file: all of its top-level keys, or an error and nothing.
    fn read(&self, path: &str, contents: &FileContents) -> (r: Result<ConfigMap, ConfigError>)
        ensures
            map_result_view(r) == self.outcome(path@, contents_view(*contents)),
            r is Ok ==> r->Ok_0.wf(),
    ;
}

/// Reads YAML files.
pub struct YamlConfigReader;

/// Reads JSON files.
pub struct JsonConfigReader;

impl Reader for YamlConfigReader {
    open spec fn outcome(&self, path: Seq<char>, contents: Result<Seq<u8>, Seq<char>>) -> Result<
        Map<Seq<char>, Json>,
        ErrorView,
    > {
        read_outcome(path, contents, |bytes: Seq<u8>| yaml_document(bytes))
    }

    fn read(&self, path: &str, contents: &FileContents) -> (r: Result<ConfigMap, ConfigError>) {
        match contents {
            Err(detail) => Err(ConfigError::FileReadError(FilePath::new(path), detail.clone())),
            Ok(bytes) => config_from_parsed(parse_yaml(bytes.as_slice())),
        }
    }
}

impl Reader for JsonConfigReader {
    open spec fn outcome(&self, path: Seq<char>, contents: Result<Seq<u8>, Seq<char>>) -> Result<
        Map<Seq<char>, Json>,
        ErrorView,
    > {
        read_outcome(path, contents, |bytes: Seq<u8>| json_document(bytes))
    }

    fn read(&self, path: &str, contents: &FileContents) -> (r: Result<ConfigMap, ConfigError>) {
        match contents {
            Err(detail) => Err(ConfigError::FileReadError(FilePath::new(path), detail.clone())),
            Ok(bytes) => config_from_parsed(parse_json(bytes.as_slice())),
        }
    }
}

} // verus!
