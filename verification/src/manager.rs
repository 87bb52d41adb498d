//! Building a configuration from declared sources, and reading it.

use crate::config_map::{lemma_merged_entry, merged, ConfigMap};
use crate::error::{ConfigError, ErrorView};
use crate::file_reader::{
    contents_view, map_result_view, FileContents, JsonConfigReader, Reader, YamlConfigReader,
};
use crate::json::{
    decode_value, json_bool, json_document, json_i64, json_items, json_number, json_of, json_str,
    json_u64, number_of, object_of, yaml_document, Json,
};
use crate::source::{file_type_of, ConfigSource, FilePath, FileType, FileTypeView, SourceView};
use serde::de::DeserializeOwned;
use serde_json::{Number, Value};
use vstd::prelude::*;
use vstd::string::*;

verus! {

/// The views of a list of sources.
pub open spec fn sources_view(sources: Seq<ConfigSource>) -> Seq<SourceView> {
    Seq::new(sources.len(), |i: int| sources[i]@)
}

/// The views of a list of file contents.
pub open spec fn reads_view(reads: Seq<FileContents>) -> Seq<Result<Seq<u8>, Seq<char>>> {
    Seq::new(reads.len(), |i: int| contents_view(reads[i]))
}

/// What one source contributes, given what was found at its path. A file is
/// read by the reader of its type and a path of no known type is a read
/// error that reads nothing; the other kinds of source are not supported.
pub open spec fn source_outcome(source: SourceView, contents: Result<Seq<u8>, Seq<char>>) -> Result<
    Map<Seq<char>, Json>,
    ErrorView,
> {
    match source {
        SourceView::File(path) => match file_type_of(path) {
            FileTypeView::Json => JsonConfigReader.outcome(path, contents),
            FileTypeView::Yaml => YamlConfigReader.outcome(path, contents),
            FileTypeView::Unsupported(p) => Err(ErrorView::FileReadError(p, "Unsupported"@)),
        },
        _ => Err(ErrorView::FeatureNotSupported(source)),
    }
}

/// The merge of the first `n` sources in their order: a later source
/// overrides an earlier one key by key, and the first source that fails
/// fails the whole.
pub open spec fn loaded(
    sources: Seq<SourceView>,
    reads: Seq<Result<Seq<u8>, Seq<char>>>,
    n: nat,
) -> Result<Map<Seq<char>, Json>, ErrorView>
    decreases n,
{
    if n == 0 {
        Ok(Map::empty())
    } else {
        match loaded(sources, reads, (n - 1) as nat) {
            Err(e) => Err(e),
            Ok(acc) => match source_outcome(sources[n - 1], reads[n - 1]) {
                Err(e) => Err(e),
                Ok(m) => Ok(acc.union_prefer_right(m)),
            },
        }
    }
}

/// What a build yields: nothing without sources, else the merge of all.
pub open spec fn built(sources: Seq<SourceView>, reads: Seq<Result<Seq<u8>, Seq<char>>>) -> Result<
    Map<Seq<char>, Json>,
    ErrorView,
> {
    if sources.len() == 0 {
        Err(ErrorView::EmptySources)
    } else {
        loaded(sources, reads, sources.len())
    }
}

/// The sources after one more was declared: a source that is already there
/// changes nothing, a new one goes to the end.
pub open spec fn with_source(sources: Seq<SourceView>, source: SourceView) -> Seq<SourceView> {
    if sources.contains(source) {
        sources
    } else {
        sources.push(source)
    }
}

/// Whether a source is read from a file: it is a file whose type is
/// supported. Of any other source nothing is opened.
pub open spec fn read_from_file(source: SourceView) -> bool {
    match source {
        SourceView::File(path) => !(file_type_of(path) is Unsupported),
        _ => false,
    }
}

/// Whether the contents of a file are needed to read the source.
pub fn needs_file(source: &ConfigSource) -> (r: bool)
    ensures
        r == read_from_file(source@),
{
    match source {
        ConfigSource::File(path) => match path.file_type() {
            FileType::Unsupported(_) => false,
            _ => true,
        },
        _ => false,
    }
}

/// What a source that is not read from a file contributes does not depend
/// on any contents.
pub proof fn lemma_unread_source(
    source: SourceView,
    a: Result<Seq<u8>, Seq<char>>,
    b: Result<Seq<u8>, Seq<char>>,
)
    requires
        !read_from_file(source),
    ensures
        source_outcome(source, a) == source_outcome(source, b),
        source_outcome(source, a) is Err,
{
}

/// Reads one source from what was found at its path.
pub fn load_source(source: &ConfigSource, contents: &FileContents) -> (r: Result<
    ConfigMap,
    ConfigError,
>)
    ensures
        map_result_view(r) == source_outcome(source@, contents_view(*contents)),
        r is Ok ==> r->Ok_0.wf(),
{
    match source {
        ConfigSource::File(path) => match path.file_type() {
            FileType::Json => JsonConfigReader.read(path.as_str(), contents),
            FileType::Yaml => YamlConfigReader.read(path.as_str(), contents),
            FileType::Unsupported(p) => Err(
                ConfigError::FileReadError(p, String::from_str("Unsupported")),
            ),
        },
        _ => Err(ConfigError::FeatureNotSupported(source.duplicate())),
    }
}

/// Collects declared sources and builds a `ConfigManager` from them.
pub struct ConfigManagerBuilder {
    sources: Vec<ConfigSource>,
}

impl View for ConfigManagerBuilder {
    type V = Seq<SourceView>;

    closed spec fn view(&self) -> Seq<SourceView> {
        sources_view(self.sources@)
    }
}

impl ConfigManagerBuilder {
    /// No source is declared twice.
    pub closed spec fn wf(&self) -> bool {
        self@.no_duplicates()
    }

    /// A builder with no source.
    pub fn new() -> (r: ConfigManagerBuilder)
        ensures
            r.wf(),
            r@ == Seq::<SourceView>::empty(),
    {
        let r = ConfigManagerBuilder { sources: Vec::new() };
        assert(r@ =~= Seq::<SourceView>::empty());
        r
    }

    /// The declared sources, in the order in which they are read.
    pub fn sources(&self) -> (r: &Vec<ConfigSource>)
        ensures
            sources_view(r@) == self@,
    {
        &self.sources
    }

    /// Declares a source. Declaring a source again changes nothing.
    pub fn add_source(&mut self, src: ConfigSource) -> (r: &mut Self)
        requires
            old(self).wf(),
        ensures
            r.wf(),
            r@ == with_source(old(self)@, src@),
            *final(self) == *final(r),
    {
        let ghost before = self@;
        let mut i: usize = 0;
        while i < self.sources.len()
            invariant
                i <= self.sources@.len(),
                self@ == before,
                before == old(self)@,
                self.wf(),
                forall|j: int| 0 <= j < i ==> before[j] != src@,
            decreases self.sources@.len() - i,
        {
            if self.sources[i].same_source(&src) {
                assert(before[i as int] == src@);
                return self;
            }
            i = i + 1;
        }
        self.sources.push(src);
        proof {
            assert(!before.contains(src@));
            assert(self@ =~= before.push(src@));
        }
        self
    }

    /// Reads every source in order and merges what they hold.
    fn load_sources(&self, reads: &Vec<FileContents>) -> (r: Result<ConfigMap, ConfigError>)
        requires
            reads@.len() == self@.len(),
        ensures
            map_result_view(r) == loaded(self@, reads_view(reads@), self@.len()),
            r is Ok ==> r->Ok_0.wf(),
    {
        let mut acc = ConfigMap::new();
        let mut i: usize = 0;
        while i < self.sources.len()
            invariant
                i <= self.sources@.len(),
                reads@.len() == self.sources@.len(),
                acc.wf(),
                loaded(self@, reads_view(reads@), i as nat) == Ok::<Map<Seq<char>, Json>, ErrorView>(
                    acc@,
                ),
            decreases self.sources@.len() - i,
        {
            match load_source(&self.sources[i], &reads[i]) {
                Ok(m) => {
                    acc.extend(&m);
                },
                Err(e) => {
                    proof {
                        lemma_failure_stays(self@, reads_view(reads@), (i + 1) as nat, self@.len());
                    }
                    return Err(e);
                },
            }
            i = i + 1;
        }
        Ok(acc)
    }

    /// Builds the manager from the declared sources and from what was found
    /// at each of them: `reads` holds, at the place of each source, the
    /// contents of its file. Nothing is built from no source, and one source
    /// that fails leaves no configuration at all.
    pub fn build(self, reads: &Vec<FileContents>) -> (r: Result<ConfigManager, ConfigError>)
        requires
            self.wf(),
            reads@.len() == self@.len(),
        ensures
            manager_result_view(r) == built(self@, reads_view(reads@)),
            self@.len() == 0 ==> r is Err && r->Err_0@ == ErrorView::EmptySources,
            r is Ok ==> r->Ok_0.wf() && r->Ok_0.declared() == self@,
    {
        if self.sources.len() == 0 {
            return Err(ConfigError::EmptySources);
        }
        match self.load_sources(reads) {
            Ok(configs) => Ok(ConfigManager::new(configs, self.sources)),
            Err(e) => Err(e),
        }
    }
}

impl Default for ConfigManagerBuilder {
    /// A builder that reads the environment and then `config.yaml`.
    fn default() -> (r: ConfigManagerBuilder)
        ensures
            r.wf(),
            r@ == seq![SourceView::Environment, SourceView::File("config.yaml"@)],
    {
        let mut r = ConfigManagerBuilder::new();
        r.add_source(ConfigSource::Environment);
        r.add_source(ConfigSource::File(FilePath::new("config.yaml")));
        assert(r@ =~= seq![SourceView::Environment, SourceView::File("config.yaml"@)]);
        r
    }
}

/// Once a source has failed, reading further sources changes nothing.
pub proof fn lemma_failure_stays(
    sources: Seq<SourceView>,
    reads: Seq<Result<Seq<u8>, Seq<char>>>,
    n: nat,
    m: nat,
)
    requires
        n <= m,
        loaded(sources, reads, n) is Err,
    ensures
        loaded(sources, reads, m) == loaded(sources, reads, n),
    decreases m,
{
    if n < m {
        lemma_failure_stays(sources, reads, n, (m - 1) as nat);
    }
}

/// Declaring a source a second time changes nothing: the list is the one
/// that a single declaration gives, and it names the source once.
pub proof fn lemma_declared_once(sources: Seq<SourceView>, source: SourceView)
    requires
        sources.no_duplicates(),
    ensures
        with_source(with_source(sources, source), source) == with_source(sources, source),
        with_source(sources, source).no_duplicates(),
        with_source(sources, source).contains(source),
{
    let once = with_source(sources, source);
    if !sources.contains(source) {
        assert(once[sources.len() as int] == source);
        assert forall|i: int, j: int| 0 <= i < once.len() && 0 <= j < once.len() && i != j implies once[i] != once[j] by {
            if i < sources.len() {
                assert(sources.contains(once[i]));
            }
            if j < sources.len() {
                assert(sources.contains(once[j]));
            }
        }
    }
}

/// A build in which a file of a supported type could not be read, and every
/// source before it was read, fails with a read error that holds the file's
/// path and the detail of the failure.
pub proof fn lemma_unreadable_file_fails(
    sources: Seq<SourceView>,
    reads: Seq<Result<Seq<u8>, Seq<char>>>,
    i: int,
    path: Seq<char>,
    detail: Seq<char>,
)
    requires
        0 <= i < sources.len(),
        loaded(sources, reads, i as nat) is Ok,
        sources[i] == SourceView::File(path),
        !(file_type_of(path) is Unsupported),
        reads[i] == Err::<Seq<u8>, Seq<char>>(detail),
    ensures
        built(sources, reads) == Err::<Map<Seq<char>, Json>, ErrorView>(
            ErrorView::FileReadError(path, detail),
        ),
{
    assert(loaded(sources, reads, (i + 1) as nat) == Err::<Map<Seq<char>, Json>, ErrorView>(
        ErrorView::FileReadError(path, detail),
    ));
    lemma_failure_stays(sources, reads, (i + 1) as nat, sources.len());
}

/// What a file holds is what the getters give back. Where the one declared
/// source is a file of a supported type whose text parses into `entries`,
/// the build succeeds, and at the key of each entry that no later entry
/// overrides the manager holds that entry's value, so a getter there gives
/// what it makes of that value.
pub proof fn lemma_round_trip<T>(
    path: Seq<char>,
    bytes: Seq<u8>,
    entries: Seq<(Seq<char>, Json)>,
    i: int,
    pick: spec_fn(Json) -> Option<T>,
)
    requires
        0 <= i < entries.len(),
        forall|j: int| i < j < entries.len() ==> entries[j].0 != entries[i].0,
    ensures
        ({
            let parsed = Ok::<Seq<(Seq<char>, Json)>, Seq<char>>(entries);
            let result = built(
                seq![SourceView::File(path)],
                seq![Ok::<Seq<u8>, Seq<char>>(bytes)],
            );
            (file_type_of(path) is Json && json_document(bytes) == parsed || file_type_of(path)
                is Yaml && yaml_document(bytes) == parsed) ==> {
                &&& result is Ok
                &&& result->Ok_0.contains_key(entries[i].0)
                &&& result->Ok_0[entries[i].0] == entries[i].1
                &&& picked(result->Ok_0, entries[i].0, pick) == pick(entries[i].1)
            }
        }),
{
    let sources = seq![SourceView::File(path)];
    let reads = seq![Ok::<Seq<u8>, Seq<char>>(bytes)];
    let parsed = Ok::<Seq<(Seq<char>, Json)>, Seq<char>>(entries);
    if file_type_of(path) is Json && json_document(bytes) == parsed || file_type_of(path) is Yaml
        && yaml_document(bytes) == parsed {
        let empty = Map::<Seq<char>, Json>::empty();
        let m = merged(empty, entries);
        lemma_merged_entry(empty, entries, i);
        assert(source_outcome(sources[0], reads[0]) == Ok::<Map<Seq<char>, Json>, ErrorView>(m));
        assert(loaded(sources, reads, 0) == Ok::<Map<Seq<char>, Json>, ErrorView>(empty));
        assert(loaded(sources, reads, 1) == Ok::<Map<Seq<char>, Json>, ErrorView>(
            empty.union_prefer_right(m),
        ));
        assert(empty.union_prefer_right(m) =~= m);
    }
}

/// A load that succeeds has read every source, and every key of every
/// source is in what it gives.
pub proof fn lemma_every_key_present(
    sources: Seq<SourceView>,
    reads: Seq<Result<Seq<u8>, Seq<char>>>,
    n: nat,
    i: int,
    key: Seq<char>,
)
    requires
        loaded(sources, reads, n) is Ok,
        0 <= i < n,
    ensures
        source_outcome(sources[i], reads[i]) is Ok,
        source_outcome(sources[i], reads[i])->Ok_0.contains_key(key) ==> loaded(
            sources,
            reads,
            n,
        )->Ok_0.contains_key(key),
    decreases n,
{
    if i < n - 1 {
        lemma_every_key_present(sources, reads, (n - 1) as nat, i, key);
    }
}

/// A later source overrides an earlier one key by key: after one more source
/// was read, a key that it holds has its value, and any other key has the
/// value it had.
pub proof fn lemma_later_source_wins(
    sources: Seq<SourceView>,
    reads: Seq<Result<Seq<u8>, Seq<char>>>,
    n: nat,
    key: Seq<char>,
)
    requires
        n > 0,
        loaded(sources, reads, n) is Ok,
    ensures
        loaded(sources, reads, (n - 1) as nat) is Ok,
        source_outcome(sources[n - 1], reads[n - 1]) is Ok,
        ({
            let before = loaded(sources, reads, (n - 1) as nat)->Ok_0;
            let last = source_outcome(sources[n - 1], reads[n - 1])->Ok_0;
            let after = loaded(sources, reads, n)->Ok_0;
            &&& after.contains_key(key) <==> before.contains_key(key) || last.contains_key(key)
            &&& last.contains_key(key) ==> after[key] == last[key]
            &&& !last.contains_key(key) && before.contains_key(key) ==> after[key] == before[key]
        }),
{
}

/// What a result of a manager or an error says, over views.
pub open spec fn manager_result_view(r: Result<ConfigManager, ConfigError>) -> Result<
    Map<Seq<char>, Json>,
    ErrorView,
> {
    match r {
        Ok(m) => Ok(m@),
        Err(e) => Err(e@),
    }
}

/// The value at a key as a getter sees it: what `pick` makes of the value
/// that stands there, and `None` where none stands there.
pub open spec fn picked<T>(m: Map<Seq<char>, Json>, key: Seq<char>, pick: spec_fn(Json) -> Option<T>) -> Option<T> {
    if m.contains_key(key) {
        pick(m[key])
    } else {
        None
    }
}

/// The merged configuration with the sources it was declared with.
#[derive(Debug)]
pub struct ConfigManager {
    configs: ConfigMap,
    sources: Vec<ConfigSource>,
}

impl View for ConfigManager {
    type V = Map<Seq<char>, Json>;

    closed spec fn view(&self) -> Map<Seq<char>, Json> {
        self.configs@
    }
}

impl ConfigManager {
    /// The store is well formed.
    pub closed spec fn wf(&self) -> bool {
        self.configs.wf()
    }

    /// The sources that the manager was declared with, in order.
    pub closed spec fn declared(&self) -> Seq<SourceView> {
        sources_view(self.sources@)
    }

    /// The keys in the order in which they first came in.
    pub closed spec fn key_order(&self) -> Seq<Seq<char>> {
        self.configs.key_order()
    }

    /// The order of the keys lists each key of the configuration once, so
    /// that `values` hands out each value once.
    pub proof fn lemma_key_order(&self)
        requires
            self.wf(),
        ensures
            self.key_order().no_duplicates(),
            forall|k: Seq<char>| self.key_order().contains(k) <==> self@.contains_key(k),
    {
        self.configs.lemma_key_order();
    }

    /// A manager over a merged map and the sources it came from.
    pub fn new(configs: ConfigMap, sources: Vec<ConfigSource>) -> (r: ConfigManager)
        requires
            configs.wf(),
        ensures
            r.wf(),
            r@ == configs@,
            r.declared() == sources_view(sources@),
            r.key_order() == configs.key_order(),
    {
        ConfigManager { configs, sources }
    }

    /// The declared sources.
    pub fn sources(&self) -> (r: &Vec<ConfigSource>)
        ensures
            sources_view(r@) == self.declared(),
    {
        &self.sources
    }

    /// The text at a key as an owned string, where a string stands there.
    pub fn get_string(&self, key: &str) -> (r: Option<String>)
        requires
            self.wf(),
        ensures
            match r {
                Some(s) => picked(self@, key@, |j: Json| json_str(j)) == Some(s@),
                None => picked(self@, key@, |j: Json| json_str(j)) is None,
            },
    {
        match self.get_str(key) {
            Some(s) => Some(s.to_owned()),
            None => None,
        }
    }

    /// The text at a key, where a string stands there.
    pub fn get_str(&self, key: &str) -> (r: Option<&str>)
        requires
            self.wf(),
        ensures
            match r {
                Some(s) => picked(self@, key@, |j: Json| json_str(j)) == Some(s@),
                None => picked(self@, key@, |j: Json| json_str(j)) is None,
            },
    {
        match self.configs.get(key) {
            Some(v) => v.as_str(),
            None => None,
        }
    }

    /// The truth value at a key, where a boolean stands there.
    pub fn get_bool(&self, key: &str) -> (r: Option<bool>)
        requires
            self.wf(),
        ensures
            r == picked(self@, key@, |j: Json| json_bool(j)),
    {
        match self.configs.get(key) {
            Some(v) => v.as_bool(),
            None => None,
        }
    }

    /// The integer at a key, where an integer that fits in `i64` stands there.
    pub fn get_i64(&self, key: &str) -> (r: Option<i64>)
        requires
            self.wf(),
        ensures
            r == picked(self@, key@, |j: Json| json_i64(j)),
    {
        match self.configs.get(key) {
            Some(v) => v.as_i64(),
            None => None,
        }
    }

    /// The integer at a key, where an integer that fits in `u64` stands there.
    pub fn get_u64(&self, key: &str) -> (r: Option<u64>)
        requires
            self.wf(),
        ensures
            r == picked(self@, key@, |j: Json| json_u64(j)),
    {
        match self.configs.get(key) {
            Some(v) => v.as_u64(),
            None => None,
        }
    }

    /// The number at a key, where a number stands there.
    pub fn get_number(&self, key: &str) -> (r: Option<&Number>)
        requires
            self.wf(),
        ensures
            match r {
                Some(n) => picked(self@, key@, |j: Json| json_number(j)) == Some(number_of(*n)),
                None => picked(self@, key@, |j: Json| json_number(j)) is None,
            },
    {
        match self.configs.get(key) {
            Some(v) => v.as_number(),
            None => None,
        }
    }

    /// The value at a key, or an error that names the key.
    pub fn try_get(&self, key: &str) -> (r: Result<&Value, ConfigError>)
        requires
            self.wf(),
        ensures
            match r {
                Ok(v) => self@.contains_key(key@) && json_of(*v) == self@[key@],
                Err(e) => !self@.contains_key(key@) && e@ == ErrorView::NullValue(key@),
            },
    {
        match self.configs.get(key) {
            Some(v) => Ok(v),
            None => Err(ConfigError::NullValue(key.to_owned())),
        }
    }

    /// The entries of the object at a key, where an object stands there.
    pub fn get_object(&self, key: &str) -> (r: Option<&serde_json::Map<String, Value>>)
        requires
            self.wf(),
        ensures
            match r {
                Some(entries) => self@.contains_key(key@) && self@[key@] == Json::Object(
                    object_of(*entries),
                ),
                None => !(self@.contains_key(key@) && self@[key@] is Object),
            },
    {
        match self.configs.get(key) {
            Some(v) => v.as_object(),
            None => None,
        }
    }

    /// The key as it is stored together with the value at it.
    pub fn get_key_value(&self, key: &str) -> (r: Option<(&String, &Value)>)
        requires
            self.wf(),
        ensures
            match r {
                Some((k, v)) => k@ == key@ && self@.contains_key(key@) && json_of(*v)
                    == self@[key@],
                None => !self@.contains_key(key@),
            },
    {
        self.configs.get_key_value(key)
    }

    /// Every value, in the order of the keys.
    pub fn values(&self) -> (r: Vec<&Value>)
        requires
            self.wf(),
        ensures
            r@.len() == self.key_order().len(),
            forall|i: int|
                0 <= i < r@.len() ==> json_of(*#[trigger] r@[i]) == self@[self.key_order()[i]],
    {
        self.configs.values()
    }

    /// The value at a key, to be changed in place. What the caller leaves
    /// there is what the manager holds at the key afterwards.
    pub fn get_mut(&mut self, key: &str) -> (r: Option<&mut Value>)
        requires
            old(self).wf(),
        ensures
            final(self).wf(),
            final(self).key_order() == old(self).key_order(),
            final(self).declared() == old(self).declared(),
            r is Some <==> old(self)@.contains_key(key@),
            r is Some ==> json_of(*r->Some_0) == old(self)@[key@],
            r is Some ==> final(self)@ == old(self)@.insert(key@, json_of(*final(r->Some_0))),
            r is None ==> final(self)@ == old(self)@,
    {
        self.configs.get_mut(key)
    }

    /// Takes the value at a key out and leaves `Null` in its place. The key
    /// must be there.
    pub fn take(&mut self, key: &str) -> (r: Value)
        requires
            old(self).wf(),
            old(self)@.contains_key(key@),
        ensures
            final(self).wf(),
            json_of(r) == old(self)@[key@],
            final(self)@ == old(self)@.insert(key@, Json::Null),
            final(self).key_order() == old(self).key_order(),
            final(self).declared() == old(self).declared(),
    {
        self.configs.take(key)
    }

    /// Whether a value stands at the key.
    pub fn contains_key(&self, key: &str) -> (r: bool)
        ensures
            r == self@.contains_key(key@),
    {
        self.configs.contains_key(key)
    }

    /// The elements of the array at a key, each decoded into `T`: all of
    /// them or none. Where no array stands at the key there is none, and an
    /// empty array gives an empty list.
    pub fn get_vec<T: DeserializeOwned>(&self, key: &str) -> (r: Option<Vec<T>>)
        requires
            self.wf(),
        ensures
            r is Some ==> self@.contains_key(key@) && self@[key@] is Array && r->Some_0@.len()
                == self@[key@]->Array_0.len(),
            !(self@.contains_key(key@) && self@[key@] is Array) ==> r is None,
            self@.contains_key(key@) && self@[key@] == Json::Array(Seq::empty()) ==> r is Some,
    {
        let items = match self.configs.get(key) {
            Some(v) => match v.as_array() {
                Some(items) => items,
                None => {
                    return None;
                },
            },
            None => {
                return None;
            },
        };
        assert(json_items(items@).len() == items@.len());
        let mut out: Option<Vec<T>> = Some(Vec::new());
        let mut i: usize = 0;
        while i < items.len()
            invariant
                i <= items@.len(),
                out is Some,
                out->Some_0@.len() == i,
                self@.contains_key(key@),
                self@[key@] == Json::Array(json_items(items@)),
            decreases items@.len() - i,
        {
            assert(json_items(items@).len() == items@.len());
            out = collect_step(out, decode_value::<T>(&items[i]));
            if out.is_none() {
                return None;
            }
            i = i + 1;
        }
        out
    }

    /// The value at a key decoded into `T`: a missing key is an error that
    /// names the key, a value of another shape is a parse error.
    pub fn get_struct<T: DeserializeOwned>(&self, key: &str) -> (r: Result<T, ConfigError>)
        requires
            self.wf(),
        ensures
            !self@.contains_key(key@) ==> r is Err && r->Err_0@ == ErrorView::KeyNotFoundError(
                key@,
            ),
            self@.contains_key(key@) ==> r is Ok || r->Err_0@ is ParseError,
    {
        match self.configs.get(key) {
            Some(v) => decoded_struct(decode_value::<T>(v)),
            None => Err(ConfigError::KeyNotFoundError(key.to_owned())),
        }
    }

    /// The whole configuration, as one object, decoded into `T`.
    pub fn parse<T: DeserializeOwned>(&self) -> (r: Result<T, ConfigError>)
        requires
            self.wf(),
        ensures
            r is Ok || r->Err_0@ is ParseError,
    {
        let whole = self.configs.to_value();
        decoded_struct(decode_value::<T>(&whole))
    }

    /// Whether a watch can be started: the first declared source, if there
    /// is one, is a file.
    pub fn can_watch(&self) -> (r: bool)
        ensures
            r == watchable(self.declared()),
    {
        if self.sources.len() == 0 {
            true
        } else {
            match &self.sources[0] {
                ConfigSource::File(_) => true,
                _ => false,
            }
        }
    }

    /// The file that a watch observes: the first declared source. Without
    /// sources nothing is observed.
    pub fn watch_target(&self) -> (r: Option<&FilePath>)
        requires
            watchable(self.declared()),
        ensures
            match r {
                Some(path) => self.declared().len() > 0 && self.declared()[0] == SourceView::File(
                    path@,
                ),
                None => self.declared().len() == 0,
            },
    {
        if self.sources.len() == 0 {
            None
        } else {
            match &self.sources[0] {
                ConfigSource::File(path) => Some(path),
                _ => None,
            }
        }
    }
}

/// A list of sources that a watch can start on: empty, or led by a file.
pub open spec fn watchable(sources: Seq<SourceView>) -> bool {
    sources.len() == 0 || sources[0] is File
}

/// One more decoded element for a list that is all or nothing: the list
/// grows by an element that decoded, and is lost for good by one that did
/// not.
pub fn collect_step<T>(acc: Option<Vec<T>>, decoded: Result<T, String>) -> (r: Option<Vec<T>>)
    ensures
        match (acc, decoded) {
            (Some(items), Ok(item)) => r is Some && r->Some_0@ == items@.push(item),
            _ => r is None,
        },
{
    match (acc, decoded) {
        (Some(items), Ok(item)) => {
            let mut items = items;
            items.push(item);
            Some(items)
        },
        _ => None,
    }
}

/// What a decoding attempt means to a caller: the decoded value, or a parse
/// error with the decoder's words.
pub fn decoded_struct<T>(decoded: Result<T, String>) -> (r: Result<T, ConfigError>)
    ensures
        match decoded {
            Ok(value) => r == Ok::<T, ConfigError>(value),
            Err(text) => r is Err && r->Err_0@ == ErrorView::ParseError(text@),
        },
{
    match decoded {
        Ok(value) => Ok(value),
        Err(text) => Err(ConfigError::ParseError(text)),
    }
}

} // verus!
