//! The workspace version, read from the workspace manifest.
use vstd::prelude::*;
use vstd::string::*;
use crate::build_system::BuildError;

verus! {

/// A parsed TOML value.
#[verifier::external_type_specification]
#[verifier::external_body]
pub struct ExTomlValue(toml::Value);

/// A TOML value as this library reads it: strings and tables are kept,
/// with each table's entries in the parser's order; every other kind of
/// value (numbers, booleans, dates, arrays) is `Other`.
pub enum TomlItem {
    Str(String),
    Table(Vec<(String, TomlItem)>),
    Other,
}

/// The mathematical form of a `TomlItem`.
pub enum TomlTree {
    Str(Seq<char>),
    Table(Seq<(Seq<char>, TomlTree)>),
    Other,
}

/// The tree of an item.
pub open spec fn item_tree(x: TomlItem) -> TomlTree
    decreases x, 0int,
{
    match x {
        TomlItem::Str(s) => TomlTree::Str(s@),
        TomlItem::Table(es) => TomlTree::Table(entries_tree(es@, es@.len() as int)),
        TomlItem::Other => TomlTree::Other,
    }
}

/// The trees of the first `n` entries of a table.
pub open spec fn entries_tree(es: Seq<(String, TomlItem)>, n: int) -> Seq<(Seq<char>, TomlTree)>
    decreases es, n,
{
    if n <= 0 || n > es.len() {
        Seq::empty()
    } else {
        entries_tree(es, n - 1).push((es[n - 1].0@, item_tree(es[n - 1].1)))
    }
}

impl View for TomlItem {
    type V = TomlTree;

    open spec fn view(&self) -> TomlTree {
        item_tree(*self)
    }
}

/// The value of the first entry named `key` at or after position `i`.
pub open spec fn entry_from(es: Seq<(Seq<char>, TomlTree)>, key: Seq<char>, i: int) -> Option<TomlTree>
    decreases es.len() - i,
{
    if i < 0 || i >= es.len() {
        None
    } else if es[i].0 == key {
        Some(es[i].1)
    } else {
        entry_from(es, key, i + 1)
    }
}

/// The value under `key` when `t` is a table holding it.
pub open spec fn tree_get(t: TomlTree, key: Seq<char>) -> Option<TomlTree> {
    match t {
        TomlTree::Table(es) => entry_from(es, key, 0),
        _ => None,
    }
}

/// The `workspace.package.version` string of a manifest, or "unknown"
/// when that key is missing or does not hold a string.
pub open spec fn workspace_version(doc: TomlTree) -> Seq<char> {
    match tree_get(doc, "workspace"@) {
        Some(w) => match tree_get(w, "package"@) {
            Some(p) => match tree_get(p, "version"@) {
                Some(TomlTree::Str(v)) => v,
                _ => "unknown"@,
            },
            None => "unknown"@,
        },
        None => "unknown"@,
    }
}

/// Names what `toml::from_str` makes of `content`: the document it
/// parses, as a tree, or the text its error displays.
pub uninterp spec fn toml_outcome(content: Seq<char>) -> Result<TomlTree, Seq<char>>;

/// Parses a TOML document with `toml::from_str` into a `toml::Value` and
/// hands it over as a `TomlItem`; a parse error is given as its displayed
/// text. Both outcomes are tied to the content by `toml_outcome`.
#[verifier::external_body]
fn toml_parse(content: &str) -> (r: Result<TomlItem, String>)
    ensures
        r is Ok ==> (toml_outcome(content@) is Ok && toml_outcome(content@)->Ok_0 == r->Ok_0@),
        r is Err ==> (toml_outcome(content@) is Err && toml_outcome(content@)->Err_0 == r->Err_0@),
{
    match toml::from_str::<toml::Value>(content) {
        Ok(v) => Ok(toml_item(&v)),
        Err(e) => Err(e.to_string()),
    }
}

/// Copies a `toml::Value` into a `TomlItem`, node for node, walking each
/// table with `toml::map::Map::iter`; only `toml_parse` uses it, and its
/// result is described there.
#[verifier::external_body]
fn toml_item(v: &toml::Value) -> TomlItem {
    match v {
        toml::Value::String(s) => TomlItem::Str(s.clone()),
        toml::Value::Table(t) => TomlItem::Table(t.iter().map(|(k, x)| (k.clone(), toml_item(x))).collect()),
        _ => TomlItem::Other,
    }
}

/// The entries of a table, viewed, are the views of its entries.
pub proof fn lemma_entries_tree(es: Seq<(String, TomlItem)>, n: int)
    requires
        0 <= n <= es.len(),
    ensures
        entries_tree(es, n).len() == n,
        forall|i: int| 0 <= i < n ==> #[trigger] entries_tree(es, n)[i] == (es[i].0@, item_tree(es[i].1)),
    decreases n,
{
    if n > 0 {
        lemma_entries_tree(es, n - 1);
    }
}

/// Whether two texts are equal.
fn same_text(a: &str, b: &str) -> (r: bool)
    ensures
        r == (a@ == b@),
{
    let n = a.unicode_len();
    if n != b.unicode_len() {
        return false;
    }
    let mut i: usize = 0;
    while i < n
        invariant
            n == a@.len(),
            n == b@.len(),
            i <= n,
            forall|j: int| 0 <= j < i ==> a@[j] == b@[j],
        decreases n - i,
    {
        if a.get_char(i) != b.get_char(i) {
            return false;
        }
        i = i + 1;
    }
    assert(a@ =~= b@);
    true
}

/// The value under `key` when `item` is a table holding it (the first
/// such entry).
pub fn table_entry<'a>(item: &'a TomlItem, key: &str) -> (r: Option<&'a TomlItem>)
    ensures
        r matches Some(x) ==> tree_get(item@, key@) == Some(x@),
        r is None ==> tree_get(item@, key@) is None,
{
    match item {
        TomlItem::Table(es) => {
            let ghost view = entries_tree(es@, es@.len() as int);
            proof { lemma_entries_tree(es@, es@.len() as int); }
            let mut i: usize = 0;
            while i < es.len()
                invariant
                    i <= es.len(),
                    view == entries_tree(es@, es@.len() as int),
                    item@ == TomlTree::Table(view),
                    view.len() == es@.len(),
                    forall|j: int| 0 <= j < es@.len() ==> #[trigger] view[j] == (es@[j].0@, item_tree(es@[j].1)),
                    entry_from(view, key@, 0) == entry_from(view, key@, i as int),
                decreases es.len() - i,
            {
                let found = same_text(es[i].0.as_str(), key);
                assert(view[i as int] == (es@[i as int].0@, item_tree(es@[i as int].1)));
                if found {
                    return Some(&es[i].1);
                }
                i = i + 1;
            }
            None
        },
        _ => None,
    }
}

/// The `workspace.package.version` string of a parsed manifest, or
/// "unknown".
pub fn manifest_version(doc: &TomlItem) -> (r: String)
    ensures
        r@ == workspace_version(doc@),
{
    let version = match table_entry(doc, "workspace") {
        Some(w) => match table_entry(w, "package") {
            Some(p) => match table_entry(p, "version") {
                Some(v) => match v {
                    TomlItem::Str(s) => Some(s.clone()),
                    _ => None,
                },
                None => None,
            },
            None => None,
        },
        None => None,
    };
    version_or_unknown(version)
}

/// The version found, or "unknown".
pub fn version_or_unknown(v: Option<String>) -> (r: String)
    ensures
        v matches Some(s) ==> r@ == s@,
        v is None ==> r@ == "unknown"@,
{
    match v {
        Some(s) => s,
        None => String::from_str("unknown"),
    }
}

/// The `workspace.package.version` string of a workspace manifest, or
/// "unknown" when it has none; an error, with the parser's message, when
/// the manifest is not TOML.
pub fn version_from_manifest(content: &str) -> (r: Result<String, BuildError>)
    ensures
        toml_outcome(content@) is Ok <==> r is Ok,
        toml_outcome(content@) matches Ok(doc) ==> (r matches Ok(v) && v@ == workspace_version(doc)),
        toml_outcome(content@) matches Err(m) ==> (r matches Err(BuildError::ManifestParse(t)) && t@ == m),
{
    match toml_parse(content) {
        Ok(doc) => Ok(manifest_version(&doc)),
        Err(e) => Err(BuildError::ManifestParse(e)),
    }
}

} // verus!
