use vstd::prelude::*;

verus! {

/// A TOML value as the configuration reads it: a string, a boolean, or
/// anything else.
pub enum TomlScalar {
    Text(String),
    Flag(bool),
    Other,
}

/// The mathematical form of a [`TomlScalar`].
pub enum ScalarView {
    Text(Seq<char>),
    Flag(bool),
    Other,
}

impl View for TomlScalar {
    type V = ScalarView;

    open spec fn view(&self) -> ScalarView {
        match self {
            TomlScalar::Text(s) => ScalarView::Text(s@),
            TomlScalar::Flag(b) => ScalarView::Flag(*b),
            TomlScalar::Other => ScalarView::Other,
        }
    }
}

/// The key/value pairs of a TOML table, in the order the table yields them.
pub struct TomlTable {
    pub entries: Vec<(String, TomlScalar)>,
}

pub type TableView = Seq<(Seq<char>, ScalarView)>;

pub type DocumentView = Seq<(Seq<char>, Option<TableView>)>;

impl View for TomlTable {
    type V = TableView;

    open spec fn view(&self) -> TableView {
        self.entries@.map_values(|p: (String, TomlScalar)| (p.0@, p.1@))
    }
}

/// The top level of a TOML document: each key with its table, or `None` where
/// the value under the key is not a table.
pub struct TomlDocument {
    pub tables: Vec<(String, Option<TomlTable>)>,
}

pub open spec fn table_view(t: Option<TomlTable>) -> Option<TableView> {
    match t {
        Some(t) => Some(t@),
        None => None,
    }
}

impl View for TomlDocument {
    type V = DocumentView;

    open spec fn view(&self) -> DocumentView {
        self.tables@.map_values(|p: (String, Option<TomlTable>)| (p.0@, table_view(p.1)))
    }
}

/// The top-level keys and two-level values of the TOML document that `content`
/// holds, or `None` where `content` is not a TOML document whose top is a table.
pub uninterp spec fn toml_document(content: Seq<char>) -> Option<DocumentView>;

/// No key occurs twice in `entries`.
pub open spec fn keys_distinct<V>(entries: Seq<(Seq<char>, V)>) -> bool {
    forall|i: int, j: int|
        0 <= i < j < entries.len() ==> #[trigger] entries[i].0 != #[trigger] entries[j].0
}

/// No key occurs twice at the top level of `d`, nor in any of its tables.
pub open spec fn document_keys_distinct(d: DocumentView) -> bool {
    &&& keys_distinct(d)
    &&& forall|i: int|
        0 <= i < d.len() ==> match (#[trigger] d[i]).1 {
            Some(t) => keys_distinct(t),
            None => true,
        }
}

/// Parses `content` with `toml::Value`'s `FromStr` (`toml::from_str`) and keeps,
/// for each top-level key, either its table (each key with its value reduced to a
/// string, a boolean or "other") or the mark that it is not a table.
/// The contract claims that the result is the name `toml_document` of `content`
/// (the parse is a function of the text alone), and that the keys of every table
/// are distinct, as those of the map that backs a `toml::Table` are.
#[verifier::external_body]
pub(crate) fn parse_toml(content: &str) -> (doc: Option<TomlDocument>)
    ensures
        doc matches Some(d) ==> toml_document(content@) == Some(d@),
        doc is None ==> toml_document(content@) is None,
        doc matches Some(d) ==> document_keys_distinct(d@),
{
    let value: toml::Value = content.parse().ok()?;
    let scalar = |v: &toml::Value| match v {
        toml::Value::String(s) => TomlScalar::Text(s.clone()),
        toml::Value::Boolean(b) => TomlScalar::Flag(*b),
        _ => TomlScalar::Other,
    };
    let table = |t: &toml::Table| TomlTable { entries: t.iter().map(|(k, v)| (k.clone(), scalar(v))).collect() };
    let tables = value.as_table()?.iter().map(|(k, v)| (k.clone(), v.as_table().map(table))).collect();
    Some(TomlDocument { tables })
}

/// The value under the first occurrence of `key`, if any.
pub open spec fn lookup<V>(entries: Seq<(Seq<char>, V)>, key: Seq<char>) -> Option<V> {
    if exists|i: int| 0 <= i < entries.len() && entries[i].0 == key {
        let i = choose|i: int|
            0 <= i < entries.len() && entries[i].0 == key && forall|j: int|
                0 <= j < i ==> entries[j].0 != key;
        Some(entries[i].1)
    } else {
        None
    }
}

pub proof fn lemma_lookup_first<V>(entries: Seq<(Seq<char>, V)>, key: Seq<char>, i: int)
    requires
        0 <= i < entries.len(),
        entries[i].0 == key,
        forall|j: int| 0 <= j < i ==> entries[j].0 != key,
    ensures
        lookup(entries, key) == Some(entries[i].1),
{
    let k = choose|k: int|
        0 <= k < entries.len() && entries[k].0 == key && forall|j: int|
            0 <= j < k ==> entries[j].0 != key;
    assert(0 <= k < entries.len() && entries[k].0 == key && forall|j: int|
        0 <= j < k ==> entries[j].0 != key);
    if k < i {
        assert(entries[k].0 != key);
    }
    if i < k {
        assert(entries[i].0 != key);
    }
}

/// Index of the first entry of `entries` whose key is `key`.
pub(crate) fn find_key<V>(entries: &Vec<(String, V)>, key: &str) -> (r: Option<usize>)
    ensures
        r matches Some(i) ==> i < entries@.len() && entries@[i as int].0@ == key@ && forall|j: int|
            0 <= j < i ==> entries@[j].0@ != key@,
        r is None ==> forall|j: int| 0 <= j < entries@.len() ==> entries@[j].0@ != key@,
{
    let wanted = String::from_str(key);
    let mut i: usize = 0;
    while i < entries.len()
        invariant
            0 <= i <= entries@.len(),
            wanted@ == key@,
            forall|j: int| 0 <= j < i ==> entries@[j].0@ != key@,
        decreases entries@.len() - i,
    {
        if entries[i].0 == wanted {
            return Some(i);
        }
        i = i + 1;
    }
    None
}

impl TomlTable {
    /// The value under `key` in this table.
    pub fn get(&self, key: &str) -> (r: Option<&TomlScalar>)
        ensures
            match r {
                Some(v) => lookup(self@, key@) == Some(v@),
                None => lookup(self@, key@) is None,
            },
    {
        match find_key(&self.entries, key) {
            Some(i) => {
                proof {
                    assert(self@[i as int].0 == key@);
                    assert forall|j: int| 0 <= j < i implies self@[j].0 != key@ by {
                        assert(self@[j].0 == self.entries@[j].0@);
                    }
                    lemma_lookup_first(self@, key@, i as int);
                }
                Some(&self.entries[i].1)
            },
            None => {
                proof {
                    assert forall|j: int| 0 <= j < self@.len() implies self@[j].0 != key@ by {
                        assert(self@[j].0 == self.entries@[j].0@);
                    }
                }
                None
            },
        }
    }
}

impl TomlDocument {
    /// The table under `key` at the top level of this document; `None` when the
    /// key is absent or its value is not a table.
    pub fn table(&self, key: &str) -> (r: Option<&TomlTable>)
        ensures
            match r {
                Some(t) => lookup(self@, key@) == Some(Some(t@)),
                None => !(lookup(self@, key@) matches Some(Some(_))),
            },
    {
        match find_key(&self.tables, key) {
            Some(i) => {
                proof {
                    assert(self@[i as int].0 == key@);
                    assert forall|j: int| 0 <= j < i implies self@[j].0 != key@ by {
                        assert(self@[j].0 == self.tables@[j].0@);
                    }
                    lemma_lookup_first(self@, key@, i as int);
                }
                match &self.tables[i].1 {
                    Some(t) => Some(t),
                    None => None,
                }
            },
            None => {
                proof {
                    assert forall|j: int| 0 <= j < self@.len() implies self@[j].0 != key@ by {
                        assert(self@[j].0 == self.tables@[j].0@);
                    }
                }
                None
            },
        }
    }
}

} // verus!
