//! Where configuration comes from: file paths, the file type a path implies,
//! and the kinds of source a caller can declare.

use vstd::prelude::*;
use vstd::string::*;

verus! {

/// The path of a configuration file.
#[derive(Debug, Clone, PartialEq, Eq, Hash)]
pub struct FilePath(String);

/// The format a path's suffix stands for.
#[derive(Debug, Clone, PartialEq, Eq)]
pub enum FileType {
    Json,
    Yaml,
    Unsupported(FilePath),
}

/// A declared origin of configuration data.
#[derive(Debug, Clone, PartialEq, Eq, Hash)]
pub enum ConfigSource {
    File(FilePath),
    Environment,
    CommandLine(Vec<String>),
}

/// What a `FileType` is, with the path as its characters.
pub enum FileTypeView {
    Json,
    Yaml,
    Unsupported(Seq<char>),
}

/// What a `ConfigSource` is; two sources are the same source exactly when
/// their views are equal.
pub enum SourceView {
    File(Seq<char>),
    Environment,
    CommandLine(Seq<Seq<char>>),
}

/// `suffix` is the tail of `text`.
pub open spec fn has_suffix(text: Seq<char>, suffix: Seq<char>) -> bool {
    suffix.len() <= text.len() && text.subrange(text.len() - suffix.len(), text.len() as int)
        == suffix
}

/// The file type that a path stands for: decided by the suffix alone,
/// `.yaml` before `.json`.
pub open spec fn file_type_of(path: Seq<char>) -> FileTypeView {
    if has_suffix(path, ".yaml"@) {
        FileTypeView::Yaml
    } else if has_suffix(path, ".json"@) {
        FileTypeView::Json
    } else {
        FileTypeView::Unsupported(path)
    }
}

/// `str::ends_with` with a string pattern: true exactly when the pattern is
/// the tail of the text.
#[verifier::external_body]
fn str_ends_with(text: &str, suffix: &str) -> (r: bool)
    ensures
        r == has_suffix(text@, suffix@),
{
    text.ends_with(suffix)
}

/// `str == str` of std: true exactly when both hold the same characters.
#[verifier::external_body]
pub(crate) fn str_eq(a: &str, b: &str) -> (r: bool)
    ensures
        r == (a@ == b@),
{
    a == b
}

impl View for FilePath {
    type V = Seq<char>;

    closed spec fn view(&self) -> Seq<char> {
        self.0@
    }
}

impl View for FileType {
    type V = FileTypeView;

    open spec fn view(&self) -> FileTypeView {
        match *self {
            FileType::Json => FileTypeView::Json,
            FileType::Yaml => FileTypeView::Yaml,
            FileType::Unsupported(p) => FileTypeView::Unsupported(p@),
        }
    }
}

/// The characters of each string of a list.
pub open spec fn strings_view(items: Seq<String>) -> Seq<Seq<char>> {
    Seq::new(items.len(), |i: int| items[i]@)
}

impl View for ConfigSource {
    type V = SourceView;

    open spec fn view(&self) -> SourceView {
        match *self {
            ConfigSource::File(p) => SourceView::File(p@),
            ConfigSource::Environment => SourceView::Environment,
            ConfigSource::CommandLine(args) => SourceView::CommandLine(strings_view(args@)),
        }
    }
}

impl FilePath {
    /// A path made of the characters of `name`.
    pub fn new(name: &str) -> (r: FilePath)
        ensures
            r@ == name@,
    {
        FilePath(name.to_owned())
    }

    /// The path as text.
    pub fn as_str(&self) -> (r: &str)
        ensures
            r@ == self@,
    {
        self.0.as_str()
    }

    /// A path with the same characters.
    pub fn duplicate(&self) -> (r: FilePath)
        ensures
            r@ == self@,
    {
        FilePath(self.0.clone())
    }

    /// The file type that the suffix stands for. Nothing is read or opened.
    pub fn file_type(&self) -> (r: FileType)
        ensures
            r@ == file_type_of(self@),
    {
        if str_ends_with(self.0.as_str(), ".yaml") {
            FileType::Yaml
        } else if str_ends_with(self.0.as_str(), ".json") {
            FileType::Json
        } else {
            FileType::Unsupported(self.duplicate())
        }
    }
}

/// Two argument lists hold the same strings in the same order.
fn same_strings(a: &Vec<String>, b: &Vec<String>) -> (r: bool)
    ensures
        r == (strings_view(a@) == strings_view(b@)),
{
    if a.len() != b.len() {
        assert(strings_view(a@).len() != strings_view(b@).len());
        return false;
    }
    let mut i: usize = 0;
    while i < a.len()
        invariant
            i <= a.len(),
            a.len() == b.len(),
            forall|j: int| 0 <= j < i ==> a@[j]@ == b@[j]@,
        decreases a.len() - i,
    {
        if !str_eq(a[i].as_str(), b[i].as_str()) {
            assert(strings_view(a@)[i as int] != strings_view(b@)[i as int]);
            return false;
        }
        i = i + 1;
    }
    assert(strings_view(a@) =~= strings_view(b@));
    true
}

impl ConfigSource {
    /// Whether two declarations name the same source: files by their path,
    /// command lines by their whole argument list.
    pub fn same_source(&self, other: &ConfigSource) -> (r: bool)
        ensures
            r == (self@ == other@),
    {
        match (self, other) {
            (ConfigSource::File(p), ConfigSource::File(q)) => str_eq(p.as_str(), q.as_str()),
            (ConfigSource::Environment, ConfigSource::Environment) => true,
            (ConfigSource::CommandLine(a), ConfigSource::CommandLine(b)) => same_strings(a, b),
            _ => false,
        }
    }

    /// A source with the same view.
    pub fn duplicate(&self) -> (r: ConfigSource)
        ensures
            r@ == self@,
    {
        match self {
            ConfigSource::File(p) => ConfigSource::File(p.duplicate()),
            ConfigSource::Environment => ConfigSource::Environment,
            ConfigSource::CommandLine(args) => {
                let mut copy: Vec<String> = Vec::new();
                let mut i: usize = 0;
                while i < args.len()
                    invariant
                        i <= args.len(),
                        copy.len() == i,
                        forall|j: int| 0 <= j < i ==> copy@[j]@ == args@[j]@,
                    decreases args.len() - i,
                {
                    copy.push(args[i].clone());
                    i = i + 1;
                }
                assert(strings_view(copy@) =~= strings_view(args@));
                ConfigSource::CommandLine(copy)
            }
        }
    }
}

} // verus!
