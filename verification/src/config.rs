//! Configuration ingestion: a TOML text becomes a validated `Config`.
//!
//! The pipeline has two halves. A small trusted boundary parses the raw text
//! into a generic document model (`DocItem` / `DocValue`): an ordered tree of
//! tables, arrays and scalar leaves with no domain knowledge. Everything after
//! that is verified: the builder separates the optional `recall` settings
//! table from the page tables, validates every entry's shape, and produces the
//! domain model, or an error that names the offending section, page and entry.

use crate::app::{
    ColorValue, Config, Entry, Page, DEFAULT_PRIMARY_COLOR, DEFAULT_SECONDARY_COLOR,
};
use vstd::prelude::*;
use vstd::string::StringExecFns;

verus! {

/// One key/value pair of a table in the generic document.
#[derive(Debug)]
pub struct DocItem {
    /// The key under which the value was written.
    pub key: String,
    /// The value itself.
    pub value: DocValue,
}

/// A generic hierarchical document value: what the parser hands over, before
/// any domain validation. Scalars the domain never reads (floats, booleans,
/// datetimes) are all folded into `Other`.
#[derive(Debug)]
pub enum DocValue {
    /// An integer leaf.
    Int(i64),
    /// A string leaf.
    Text(String),
    /// An array of values, in source order.
    List(Vec<DocValue>),
    /// A nested table: key/value pairs in source order.
    Table(Vec<DocItem>),
    /// A leaf of a kind the domain gives no meaning to.
    Other,
}

/// Malformed document syntax, with the parser's reason.
#[derive(Debug)]
pub struct ParseError {
    /// A human-readable description of the syntax error.
    pub message: String,
}

/// The document parses but violates the domain shape. Every variant that
/// concerns a page entry names the page and the entry identifier.
#[derive(Debug)]
pub enum ConfigError {
    /// The global settings section is not a table.
    GlobalNotTable,
    /// The primary color setting is not an integer in 0..=255.
    InvalidPrimaryColor,
    /// The highlight color setting is not an integer in 0..=255.
    InvalidHighlightColor,
    /// A page section is not a table. Carries the page name.
    PageNotTable(String),
    /// A page entry is not a table. Carries the page name and entry name.
    EntryNotTable(String, String),
    /// A page entry has no content field. Carries the page and entry names.
    MissingContent(String, String),
    /// A page entry's content is not an array of strings.
    InvalidContent(String, String),
    /// A page entry has no description field.
    MissingDescription(String, String),
    /// A page entry's description is not a string.
    InvalidDescription(String, String),
}

/// Everything that can go wrong between raw text and a `Config`.
#[derive(Debug)]
pub enum StartupError {
    /// The document could not be parsed at all.
    Parse(ParseError),
    /// The document parsed but its shape is invalid.
    Config(ConfigError),
}

/// Global options: the two optional color settings of the `recall` table.
#[derive(Debug)]
pub struct RecallToml {
    /// ANSI color index used for the interface and text.
    pub primary_color: Option<u8>,
    /// ANSI color index used for highlighting.
    pub highlight_color: Option<u8>,
}

/// A single entry within a page: the shortcut keys and a description.
#[derive(Debug)]
pub struct EntryToml {
    /// List of keybindings (e.g. `["Ctrl", "Shift", "C"]`).
    pub content: Vec<String>,
    /// Description of what the entry does.
    pub description: String,
}

/// A page holds named entries, in source order.
pub type PageToml = Vec<(String, EntryToml)>;

/// The validated intermediate form of the whole document: optional global
/// settings plus the named pages, in source order.
#[derive(Debug)]
pub struct ConfigToml {
    /// Optional global settings.
    pub recall: Option<RecallToml>,
    /// Named pages, in source order.
    pub pages: Vec<(String, PageToml)>,
}

// ---------------------------------------------------------------------------
// Spec-level reading of the generic document
// ---------------------------------------------------------------------------

/// No two items of a table share a key.
pub open spec fn keys_distinct(items: Seq<DocItem>) -> bool {
    forall|i: int, j: int| 0 <= i < j < items.len() ==> items[i].key@ != items[j].key@
}

/// Key uniqueness as the TOML grammar guarantees it, to the depth the domain
/// reads: the top level and every table directly below it.
pub open spec fn doc_keys_unique(items: Seq<DocItem>) -> bool {
    &&& keys_distinct(items)
    &&& forall|i: int|
        0 <= i < items.len() && (#[trigger] items[i]).value is Table ==> keys_distinct(
            (items[i].value)->Table_0@,
        )
}

/// First-match lookup of `key`, starting at position `i`.
pub open spec fn lookup_from(items: Seq<DocItem>, key: Seq<char>, i: int) -> Option<DocValue>
    decreases items.len() - i,
{
    if i < 0 || i >= items.len() {
        None
    } else if items[i].key@ == key {
        Some(items[i].value)
    } else {
        lookup_from(items, key, i + 1)
    }
}

/// First-match lookup of `key` in a table.
pub open spec fn lookup(items: Seq<DocItem>, key: Seq<char>) -> Option<DocValue> {
    lookup_from(items, key, 0)
}

/// Every element of the sequence is a string leaf.
pub open spec fn is_text_seq(vs: Seq<DocValue>) -> bool {
    forall|i: int| 0 <= i < vs.len() ==> vs[i] is Text
}

/// The character sequences of a sequence of string leaves.
pub open spec fn text_views(vs: Seq<DocValue>) -> Seq<Seq<char>> {
    vs.map_values(|v: DocValue| (v->Text_0)@)
}

/// The verdict on one page entry's shape, in the order the checks are made.
#[derive(Clone, Copy, Debug, PartialEq, Eq, Structural)]
pub enum EntryCheck {
    /// The entry is well shaped.
    Good,
    /// The entry is not a table.
    NotTable,
    /// The entry has no content field.
    MissingContent,
    /// The content field is not an array of strings.
    BadContent,
    /// The entry has no description field.
    MissingDescription,
    /// The description field is not a string.
    BadDescription,
}

/// How one page entry's value fares against the required shape: a table with
/// a content field (an array of strings) and a description field (a string).
pub open spec fn entry_check(v: DocValue) -> EntryCheck {
    match v {
        DocValue::Table(items) => match lookup(items@, "content"@) {
            None => EntryCheck::MissingContent,
            Some(c) => if !(c is List && is_text_seq(c->List_0@)) {
                EntryCheck::BadContent
            } else {
                match lookup(items@, "description"@) {
                    None => EntryCheck::MissingDescription,
                    Some(d) => if !(d is Text) {
                        EntryCheck::BadDescription
                    } else {
                        EntryCheck::Good
                    },
                }
            },
        },
        _ => EntryCheck::NotTable,
    }
}

/// The shortcut tokens of a well-shaped entry value.
pub open spec fn entry_content_views(v: DocValue) -> Seq<Seq<char>> {
    text_views((lookup(v->Table_0@, "content"@)->Some_0)->List_0@)
}

/// The description of a well-shaped entry value.
pub open spec fn entry_description_view(v: DocValue) -> Seq<char> {
    (lookup(v->Table_0@, "description"@)->Some_0)->Text_0@
}

/// The typed entry carries exactly what the document value holds.
pub open spec fn entry_toml_matches(et: EntryToml, v: DocValue) -> bool {
    &&& et.content.deep_view() == entry_content_views(v)
    &&& et.description@ == entry_description_view(v)
}

/// A page value is a table whose every entry is well shaped.
pub open spec fn page_good(v: DocValue) -> bool {
    &&& v is Table
    &&& forall|i: int|
        0 <= i < v->Table_0@.len() ==> entry_check((#[trigger] v->Table_0@[i]).value)
            == EntryCheck::Good
}

/// The typed page lists exactly the entries of the page table, in order.
pub open spec fn page_toml_matches(pt: Seq<(String, EntryToml)>, v: DocValue) -> bool {
    &&& v is Table
    &&& pt.len() == v->Table_0@.len()
    &&& forall|i: int|
        0 <= i < pt.len() ==> (#[trigger] pt[i]).0@ == v->Table_0@[i].key@ && entry_toml_matches(
            pt[i].1,
            v->Table_0@[i].value,
        )
}

/// The verdict on one optional color setting.
#[derive(Clone, Copy, Debug, PartialEq, Eq, Structural)]
pub enum ColorFieldCheck {
    /// The setting is not present.
    Absent,
    /// The setting is an integer in 0..=255; carries the index.
    Good(u8),
    /// The setting is present but not an integer in 0..=255.
    Bad,
}

/// How one color setting of the global table fares: absent is fine, an
/// integer in 0..=255 is an indexed color, anything else is rejected.
pub open spec fn color_field_check(items: Seq<DocItem>, key: Seq<char>) -> ColorFieldCheck {
    match lookup(items, key) {
        None => ColorFieldCheck::Absent,
        Some(v) => match v {
            DocValue::Int(i) => if 0 <= i <= 255 {
                ColorFieldCheck::Good(i as u8)
            } else {
                ColorFieldCheck::Bad
            },
            _ => ColorFieldCheck::Bad,
        },
    }
}

/// The color index the check produced, if any.
pub open spec fn spec_color_option(c: ColorFieldCheck) -> Option<u8> {
    match c {
        ColorFieldCheck::Good(b) => Some(b),
        _ => None,
    }
}

/// The verdict on the global settings table, in the order the checks are made.
#[derive(Clone, Copy, Debug, PartialEq, Eq, Structural)]
pub enum RecallCheck {
    /// The settings are well shaped.
    Good,
    /// The settings value is not a table.
    NotTable,
    /// The primary color setting is invalid.
    BadPrimary,
    /// The highlight color setting is invalid.
    BadHighlight,
}

/// How the global settings value fares: it must be a table, and each color
/// setting present must be an integer in 0..=255.
pub open spec fn recall_check(v: DocValue) -> RecallCheck {
    match v {
        DocValue::Table(items) => if color_field_check(items@, "primary_color"@)
            is Bad {
            RecallCheck::BadPrimary
        } else if color_field_check(items@, "highlight_color"@) is Bad {
            RecallCheck::BadHighlight
        } else {
            RecallCheck::Good
        },
        _ => RecallCheck::NotTable,
    }
}

/// The typed settings carry exactly the color indices of the settings table.
pub open spec fn recall_toml_matches(rt: RecallToml, v: DocValue) -> bool {
    &&& recall_check(v) == RecallCheck::Good
    &&& rt.primary_color == spec_color_option(color_field_check(v->Table_0@, "primary_color"@))
    &&& rt.highlight_color == spec_color_option(
        color_field_check(v->Table_0@, "highlight_color"@),
    )
}

/// Whether one top-level item is acceptable: the reserved `recall` key must
/// hold well-shaped global settings, every other key a well-shaped page.
pub open spec fn item_good(it: DocItem) -> bool {
    if it.key@ == "recall"@ {
        recall_check(it.value) == RecallCheck::Good
    } else {
        page_good(it.value)
    }
}

/// Which error a bad entry value produces, with the page and entry names.
pub open spec fn entry_error_names(e: ConfigError, page: Seq<char>, key: Seq<char>, v: DocValue) -> bool {
    match entry_check(v) {
        EntryCheck::Good => false,
        EntryCheck::NotTable => e matches ConfigError::EntryNotTable(p, k) && p@ == page && k@
            == key,
        EntryCheck::MissingContent => e matches ConfigError::MissingContent(p, k) && p@ == page
            && k@ == key,
        EntryCheck::BadContent => e matches ConfigError::InvalidContent(p, k) && p@ == page && k@
            == key,
        EntryCheck::MissingDescription => e matches ConfigError::MissingDescription(p, k) && p@
            == page && k@ == key,
        EntryCheck::BadDescription => e matches ConfigError::InvalidDescription(p, k) && p@ == page
            && k@ == key,
    }
}

/// Which error a bad page value produces: either the page is not a table, or
/// the error names the first bad entry of the page, in source order.
pub open spec fn page_error_names(e: ConfigError, page: Seq<char>, v: DocValue) -> bool {
    match v {
        DocValue::Table(items) => exists|i: int|
            0 <= i < items@.len() && entry_check((#[trigger] items@[i]).value) != EntryCheck::Good
                && (forall|j: int|
                0 <= j < i ==> entry_check((#[trigger] items@[j]).value) == EntryCheck::Good)
                && entry_error_names(e, page, items@[i].key@, items@[i].value),
        _ => e matches ConfigError::PageNotTable(p) && p@ == page,
    }
}

/// Which error a bad top-level item produces.
pub open spec fn error_names_item(e: ConfigError, it: DocItem) -> bool {
    if it.key@ == "recall"@ {
        match recall_check(it.value) {
            RecallCheck::Good => false,
            RecallCheck::NotTable => e is GlobalNotTable,
            RecallCheck::BadPrimary => e is InvalidPrimaryColor,
            RecallCheck::BadHighlight => e is InvalidHighlightColor,
        }
    } else {
        page_error_names(e, it.key@, it.value)
    }
}

/// The top-level items that are pages: everything but the reserved key, in
/// source order.
pub open spec fn page_items(items: Seq<DocItem>) -> Seq<DocItem>
    decreases items.len(),
{
    if items.len() == 0 {
        Seq::empty()
    } else {
        let rest = page_items(items.drop_last());
        if items.last().key@ == "recall"@ {
            rest
        } else {
            rest.push(items.last())
        }
    }
}

/// The typed document carries exactly the settings and pages of the generic
/// document.
pub open spec fn config_toml_matches(ct: ConfigToml, doc: Seq<DocItem>) -> bool {
    &&& match lookup(doc, "recall"@) {
        None => ct.recall is None,
        Some(v) => ct.recall matches Some(rt) && recall_toml_matches(rt, v),
    }
    &&& pages_toml_match(ct.pages@, page_items(doc))
}

/// The typed pages list exactly the page items, in order.
pub open spec fn pages_toml_match(ps: Seq<(String, PageToml)>, items: Seq<DocItem>) -> bool {
    &&& ps.len() == items.len()
    &&& forall|i: int|
        0 <= i < ps.len() ==> (#[trigger] ps[i]).0@ == items[i].key@ && page_toml_matches(
            ps[i].1@,
            items[i].value,
        )
}

// ---------------------------------------------------------------------------
// The trusted parsing boundary
// ---------------------------------------------------------------------------

/// What the TOML parser makes of a document text: the top-level table as a
/// generic document, in source order, or the syntax error message. Parsing
/// depends on the text alone, so the result bears a name.
pub uninterp spec fn parsed_doc(text: Seq<char>) -> Result<Seq<DocItem>, Seq<char>>;

/// The parser's value type, declared so that the conversion below may take it;
/// it stays opaque, and only the trusted conversion ever looks inside one.
#[verifier::external_type_specification]
#[verifier::external_body]
pub struct ExTomlValue(toml::Value);

/// Relies on `toml::Value`: each variant of the parsed tree is carried over
/// to the document model one for one (strings, integers, arrays and tables in
/// source order; floats, booleans and datetimes become `Other`).
#[verifier::external_body]
fn doc_value_of(v: toml::Value) -> DocValue {
    match v {
        toml::Value::String(s) => DocValue::Text(s),
        toml::Value::Integer(i) => DocValue::Int(i),
        toml::Value::Array(a) => DocValue::List(a.into_iter().map(doc_value_of).collect()),
        toml::Value::Table(t) => DocValue::Table(
            t.into_iter().map(|(k, w)| DocItem { key: k, value: doc_value_of(w) }).collect(),
        ),
        _ => DocValue::Other,
    }
}

/// Relies on `toml::from_str::<toml::Table>`: it parses the text into the
/// top-level table with key order preserved, rejecting syntactically
/// malformed documents, and — because the TOML grammar forbids a key defined
/// twice in one table — never yields duplicate keys in any table.
#[verifier::external_body]
fn parse_toml(text: &str) -> (r: Result<Vec<DocItem>, String>)
    ensures
        match r {
            Ok(d) => parsed_doc(text@) matches Ok(m) && m == d@ && doc_keys_unique(d@),
            Err(e) => parsed_doc(text@) matches Err(m) && m == e@,
        },
{
    match toml::from_str::<toml::Table>(text) {
        Ok(t) => Ok(
            t.into_iter().map(|(k, v)| DocItem { key: k, value: doc_value_of(v) }).collect(),
        ),
        Err(e) => Err(e.to_string()),
    }
}

// ---------------------------------------------------------------------------
// Verified lookup
// ---------------------------------------------------------------------------

/// First-match lookup of `key` in a table, as the spec-level `lookup` says.
fn lookup_value<'a>(items: &'a Vec<DocItem>, key: &String) -> (r: Option<&'a DocValue>)
    ensures
        match r {
            Some(v) => lookup(items@, key@) == Some(*v),
            None => lookup(items@, key@) is None,
        },
{
    let mut i: usize = 0;
    while i < items.len()
        invariant
            0 <= i <= items@.len(),
            lookup(items@, key@) == lookup_from(items@, key@, i as int),
        decreases items@.len() - i,
    {
        if items[i].key == *key {
            return Some(&items[i].value);
        }
        i = i + 1;
    }
    None
}

// ---------------------------------------------------------------------------
// Verified validation
// ---------------------------------------------------------------------------

/// Validates one page entry: it must be a table with a content field holding
/// an array of strings and a description field holding a string. On failure
/// the error names the page and the entry.
#[verifier::loop_isolation(false)]
pub fn check_entry(page: &String, key: &String, v: &DocValue) -> (r: Result<EntryToml, ConfigError>)
    ensures
        match r {
            Ok(et) => entry_check(*v) == EntryCheck::Good && entry_toml_matches(et, *v),
            Err(e) => entry_check(*v) != EntryCheck::Good && entry_error_names(e, page@, key@, *v),
        },
{
    let items = match v {
        DocValue::Table(items) => items,
        _ => {
            return Err(ConfigError::EntryNotTable(page.clone(), key.clone()));
        },
    };
    let content_key = String::from_str("content");
    let cv = match lookup_value(items, &content_key) {
        Some(cv) => cv,
        None => {
            return Err(ConfigError::MissingContent(page.clone(), key.clone()));
        },
    };
    let list = match cv {
        DocValue::List(list) => list,
        _ => {
            return Err(ConfigError::InvalidContent(page.clone(), key.clone()));
        },
    };
    let mut content: Vec<String> = Vec::new();
    let mut i: usize = 0;
    while i < list.len()
        invariant
            0 <= i <= list@.len(),
            content@.len() == i,
            forall|k: int| 0 <= k < i ==> list@[k] is Text,
            forall|k: int| 0 <= k < i ==> (#[trigger] content@[k])@ == (list@[k]->Text_0)@,
        decreases list@.len() - i,
    {
        match &list[i] {
            DocValue::Text(s) => {
                content.push(s.clone());
            },
            _ => {
                proof {
                    assert(!(list@[i as int] is Text));
                    assert(!is_text_seq(list@));
                }
                return Err(ConfigError::InvalidContent(page.clone(), key.clone()));
            },
        }
        i = i + 1;
    }
    proof {
        assert(is_text_seq(list@));
        assert forall|k: int|
            0 <= k < list@.len() implies content.deep_view()[k] == text_views(list@)[k] by {
            assert(content.deep_view()[k] == content@[k]@);
        }
        assert(content.deep_view() =~= text_views(list@));
    }
    let desc_key = String::from_str("description");
    let dv = match lookup_value(items, &desc_key) {
        Some(dv) => dv,
        None => {
            return Err(ConfigError::MissingDescription(page.clone(), key.clone()));
        },
    };
    let description = match dv {
        DocValue::Text(s) => s.clone(),
        _ => {
            return Err(ConfigError::InvalidDescription(page.clone(), key.clone()));
        },
    };
    Ok(EntryToml { content, description })
}

/// Validates one page: it must be a table whose every entry passes
/// `check_entry`. On failure the error is the first bad entry's, in source
/// order.
#[verifier::loop_isolation(false)]
pub fn check_page(page: &String, v: &DocValue) -> (r: Result<PageToml, ConfigError>)
    ensures
        match r {
            Ok(pt) => page_good(*v) && page_toml_matches(pt@, *v),
            Err(e) => !page_good(*v) && page_error_names(e, page@, *v),
        },
{
    let items = match v {
        DocValue::Table(items) => items,
        _ => {
            return Err(ConfigError::PageNotTable(page.clone()));
        },
    };
    let mut entries: PageToml = Vec::new();
    let mut i: usize = 0;
    while i < items.len()
        invariant
            0 <= i <= items@.len(),
            *v == DocValue::Table(*items),
            forall|j: int|
                0 <= j < i ==> entry_check((#[trigger] items@[j]).value) == EntryCheck::Good,
            entries@.len() == i,
            forall|j: int|
                0 <= j < i ==> (#[trigger] entries@[j]).0@ == items@[j].key@ && entry_toml_matches(
                    entries@[j].1,
                    items@[j].value,
                ),
        decreases items@.len() - i,
    {
        match check_entry(page, &items[i].key, &items[i].value) {
            Ok(et) => {
                entries.push((items[i].key.clone(), et));
            },
            Err(e) => {
                return Err(e);
            },
        }
        i = i + 1;
    }
    Ok(entries)
}

/// Validates one optional color setting of the global table: absent is fine,
/// an integer in 0..=255 becomes the index, anything else is rejected.
fn check_color_field(items: &Vec<DocItem>, key: &String) -> (r: Result<Option<u8>, ()>)
    ensures
        match r {
            Ok(c) => !(color_field_check(items@, key@) is Bad) && c == spec_color_option(
                color_field_check(items@, key@),
            ),
            Err(_) => color_field_check(items@, key@) is Bad,
        },
{
    match lookup_value(items, key) {
        None => Ok(None),
        Some(v) => match v {
            DocValue::Int(i) => {
                if 0 <= *i && *i <= 255 {
                    Ok(Some(*i as u8))
                } else {
                    Err(())
                }
            },
            _ => Err(()),
        },
    }
}

/// Validates the global settings section: it must be a table, and each color
/// setting present must be an integer in 0..=255.
pub fn check_recall(v: &DocValue) -> (r: Result<RecallToml, ConfigError>)
    ensures
        match r {
            Ok(rt) => recall_check(*v) == RecallCheck::Good && recall_toml_matches(rt, *v),
            Err(e) => recall_check(*v) != RecallCheck::Good && match recall_check(*v) {
                RecallCheck::Good => false,
                RecallCheck::NotTable => e is GlobalNotTable,
                RecallCheck::BadPrimary => e is InvalidPrimaryColor,
                RecallCheck::BadHighlight => e is InvalidHighlightColor,
            },
        },
{
    let items = match v {
        DocValue::Table(items) => items,
        _ => {
            return Err(ConfigError::GlobalNotTable);
        },
    };
    let primary_key = String::from_str("primary_color");
    let primary_color = match check_color_field(items, &primary_key) {
        Ok(c) => c,
        Err(_) => {
            return Err(ConfigError::InvalidPrimaryColor);
        },
    };
    let highlight_key = String::from_str("highlight_color");
    let highlight_color = match check_color_field(items, &highlight_key) {
        Ok(c) => c,
        Err(_) => {
            return Err(ConfigError::InvalidHighlightColor);
        },
    };
    Ok(RecallToml { primary_color, highlight_color })
}

// ---------------------------------------------------------------------------
// Lemmas about lookup and the page items
// ---------------------------------------------------------------------------

/// Appending an item leaves every earlier match of `lookup_from` in place.
proof fn lemma_lookup_from_push(items: Seq<DocItem>, it: DocItem, key: Seq<char>, i: int)
    requires
        0 <= i <= items.len(),
    ensures
        lookup_from(items.push(it), key, i) == if lookup_from(items, key, i) is Some {
            lookup_from(items, key, i)
        } else if it.key@ == key {
            Some(it.value)
        } else {
            None::<DocValue>
        },
    decreases items.len() - i,
{
    let p = items.push(it);
    if i == items.len() {
        assert(p[i] == it);
    } else {
        assert(p[i] == items[i]);
        if !(items[i].key@ == key) {
            lemma_lookup_from_push(items, it, key, i + 1);
        }
    }
}

/// Appending an item changes a table's lookup only where the key was absent.
proof fn lemma_lookup_push(items: Seq<DocItem>, it: DocItem, key: Seq<char>)
    ensures
        lookup(items.push(it), key) == if lookup(items, key) is Some {
            lookup(items, key)
        } else if it.key@ == key {
            Some(it.value)
        } else {
            None::<DocValue>
        },
{
    lemma_lookup_from_push(items, it, key, 0);
}

/// A key that appears nowhere is never found.
proof fn lemma_lookup_from_none(items: Seq<DocItem>, key: Seq<char>, i: int)
    requires
        forall|k: int| 0 <= k < items.len() ==> (#[trigger] items[k]).key@ != key,
        0 <= i,
    ensures
        lookup_from(items, key, i) is None,
    decreases items.len() - i,
{
    if i < items.len() {
        lemma_lookup_from_none(items, key, i + 1);
    }
}

/// The page items of a sequence extended by one: the reserved key adds
/// nothing, any other key adds the item at the end.
proof fn lemma_page_items_push(items: Seq<DocItem>, it: DocItem)
    ensures
        page_items(items.push(it)) == if it.key@ == "recall"@ {
            page_items(items)
        } else {
            page_items(items).push(it)
        },
{
    let p = items.push(it);
    assert(p.drop_last() =~= items);
    assert(p.last() == it);
}

/// Every page item comes from the document, and distinct document keys give
/// distinct page keys.
proof fn lemma_page_items_props(items: Seq<DocItem>)
    ensures
        forall|i: int|
            0 <= i < page_items(items).len() ==> items.contains(#[trigger] page_items(items)[i]),
        keys_distinct(items) ==> keys_distinct(page_items(items)),
    decreases items.len(),
{
    if items.len() == 0 {
    } else {
        let d = items.drop_last();
        let last = items.last();
        lemma_page_items_props(d);
        assert(keys_distinct(items) ==> keys_distinct(d));
        assert forall|i: int|
            0 <= i < page_items(d).len() implies items.contains(#[trigger] page_items(d)[i]) by {
            assert(d.contains(page_items(d)[i]));
            let m = choose|m: int| 0 <= m < d.len() && d[m] == page_items(d)[i];
            assert(items[m] == page_items(d)[i]);
        }
        if last.key@ == "recall"@ {
            assert(page_items(items) == page_items(d));
        } else {
            let q = page_items(d).push(last);
            assert(page_items(items) == q);
            assert(items.contains(last)) by {
                assert(items[items.len() - 1] == last);
            }
            if keys_distinct(items) {
                assert forall|i: int, j: int|
                    0 <= i < j < q.len() implies q[i].key@ != q[j].key@ by {
                    if j < q.len() - 1 {
                        assert(q[i] == page_items(d)[i] && q[j] == page_items(d)[j]);
                    } else {
                        assert(q[j] == last);
                        assert(d.contains(page_items(d)[i]));
                        let m = choose|m: int| 0 <= m < d.len() && d[m] == page_items(d)[i];
                        assert(items[m] == q[i] && items[items.len() - 1] == last);
                    }
                }
            }
        }
    }
}

// ---------------------------------------------------------------------------
// Building the domain model
// ---------------------------------------------------------------------------

/// Validates the whole generic document: the reserved `recall` key becomes
/// the global settings, every other top-level key a page, in source order.
/// On failure the error is the first bad item's, in source order.
#[verifier::loop_isolation(false)]
pub fn build_config_toml(doc: Vec<DocItem>) -> (r: Result<ConfigToml, ConfigError>)
    ensures
        match r {
            Ok(ct) => (forall|i: int| 0 <= i < doc@.len() ==> item_good(#[trigger] doc@[i]))
                && config_toml_matches(ct, doc@),
            Err(e) => exists|i: int|
                #![auto]
                0 <= i < doc@.len() && !item_good(doc@[i]) && (forall|j: int|
                    0 <= j < i ==> item_good(doc@[j]))
                    && error_names_item(e, doc@[i]),
        },
{
    let recall_key = String::from_str("recall");
    let mut recall: Option<RecallToml> = None;
    let mut pages: Vec<(String, PageToml)> = Vec::new();
    let mut i: usize = 0;
    while i < doc.len()
        invariant
            0 <= i <= doc@.len(),
            forall|j: int| 0 <= j < i ==> item_good(#[trigger] doc@[j]),
            match lookup(doc@.subrange(0, i as int), "recall"@) {
                None => recall is None,
                Some(v) => recall matches Some(rt) && recall_toml_matches(rt, v),
            },
            pages_toml_match(pages@, page_items(doc@.subrange(0, i as int))),
        decreases doc@.len() - i,
    {
        let ghost pre = doc@.subrange(0, i as int);
        proof {
            assert(doc@.subrange(0, (i + 1) as int) =~= pre.push(doc@[i as int]));
            lemma_lookup_push(pre, doc@[i as int], "recall"@);
            lemma_page_items_push(pre, doc@[i as int]);
        }
        let item = &doc[i];
        if item.key == recall_key {
            match check_recall(&item.value) {
                Ok(rt) => {
                    if recall.is_none() {
                        recall = Some(rt);
                    }
                },
                Err(e) => {
                    return Err(e);
                },
            }
        } else {
            match check_page(&item.key, &item.value) {
                Ok(pt) => {
                    pages.push((item.key.clone(), pt));
                },
                Err(e) => {
                    return Err(e);
                },
            }
        }
        i = i + 1;
    }
    proof {
        assert(doc@.subrange(0, doc@.len() as int) =~= doc@);
    }
    Ok(ConfigToml { recall, pages })
}

/// Converts an entry definition into an `Entry`: the identifier key becomes
/// the name, content and description are carried over unchanged.
pub fn build_entry(name: String, entry: EntryToml) -> (e: Entry)
    ensures
        e.name == name,
        e.content == entry.content,
        e.description == entry.description,
{
    Entry { name, content: entry.content, description: entry.description }
}

/// Converts a page definition into a `Page`, entry order preserved.
#[verifier::loop_isolation(false)]
pub fn build_page(name: String, page: PageToml) -> (p: Page)
    ensures
        p.name == name,
        p.entries@.len() == page@.len(),
        forall|i: int|
            0 <= i < page@.len() ==> (#[trigger] p.entries@[i]).name == page@[i].0
                && p.entries@[i].content == page@[i].1.content && p.entries@[i].description
                == page@[i].1.description,
{
    let ghost orig = page@;
    let mut rest = page;
    let mut entries: Vec<Entry> = Vec::new();
    while rest.len() > 0
        invariant
            entries@.len() + rest@.len() == orig.len(),
            rest@ == orig.subrange(entries@.len() as int, orig.len() as int),
            forall|i: int|
                0 <= i < entries@.len() ==> (#[trigger] entries@[i]).name == orig[i].0
                    && entries@[i].content == orig[i].1.content && entries@[i].description
                    == orig[i].1.description,
        decreases rest@.len(),
    {
        let ghost k = entries@.len() as int;
        proof {
            assert(rest@[0] == orig[k]);
            assert(rest@.remove(0) =~= orig.subrange(k + 1, orig.len() as int));
        }
        let (entry_name, et) = rest.remove(0);
        entries.push(build_entry(entry_name, et));
    }
    Page { name, entries }
}

// ---------------------------------------------------------------------------
// The whole pipeline: text to Config
// ---------------------------------------------------------------------------

/// The color an optional setting verdict yields, given the default.
pub open spec fn spec_color(field: ColorFieldCheck, default: ColorValue) -> ColorValue {
    match field {
        ColorFieldCheck::Good(c) => ColorValue::Indexed(c),
        _ => default,
    }
}

/// The primary color a document yields: the setting of the `recall` table if
/// present, the default otherwise.
pub open spec fn spec_primary_color(doc: Seq<DocItem>) -> ColorValue {
    match lookup(doc, "recall"@) {
        None => DEFAULT_PRIMARY_COLOR,
        Some(v) => spec_color(
            color_field_check(v->Table_0@, "primary_color"@),
            DEFAULT_PRIMARY_COLOR,
        ),
    }
}

/// The highlight color a document yields: the setting of the `recall` table
/// if present, the default otherwise.
pub open spec fn spec_highlight_color(doc: Seq<DocItem>) -> ColorValue {
    match lookup(doc, "recall"@) {
        None => DEFAULT_SECONDARY_COLOR,
        Some(v) => spec_color(
            color_field_check(v->Table_0@, "highlight_color"@),
            DEFAULT_SECONDARY_COLOR,
        ),
    }
}

/// An `Entry` carries exactly what one entry of a page table holds.
pub open spec fn entry_corresponds(e: Entry, it: DocItem) -> bool {
    &&& e.name@ == it.key@
    &&& e.content.deep_view() == entry_content_views(it.value)
    &&& e.description@ == entry_description_view(it.value)
}

/// A `Page` carries exactly the entries of one page table, in order.
pub open spec fn page_corresponds(p: Page, it: DocItem) -> bool {
    &&& p.name@ == it.key@
    &&& it.value is Table
    &&& p.entries@.len() == it.value->Table_0@.len()
    &&& forall|j: int|
        0 <= j < p.entries@.len() ==> entry_corresponds(
            #[trigger] p.entries@[j],
            it.value->Table_0@[j],
        )
}

/// The pages carry exactly the page items, in order.
pub open spec fn pages_correspond(pages: Seq<Page>, items: Seq<DocItem>) -> bool {
    &&& pages.len() == items.len()
    &&& forall|i: int| 0 <= i < pages.len() ==> page_corresponds(#[trigger] pages[i], items[i])
}

/// Everything a successful read promises of the configuration it built from
/// a document: the theme colors and the pages, entry by entry.
pub open spec fn config_matches_doc(c: Config, doc: Seq<DocItem>) -> bool {
    &&& c.primary_color == spec_primary_color(doc)
    &&& c.highlight_color == spec_highlight_color(doc)
    &&& pages_correspond(c.pages@, page_items(doc))
}

/// Missing global-settings section: a configuration built from a document
/// without the reserved `recall` key carries exactly the default theme
/// colors.
pub proof fn lemma_missing_global_settings_defaults(c: Config, doc: Seq<DocItem>)
    requires
        config_matches_doc(c, doc),
        forall|i: int| 0 <= i < doc.len() ==> (#[trigger] doc[i]).key@ != "recall"@,
    ensures
        c.primary_color == DEFAULT_PRIMARY_COLOR,
        c.highlight_color == DEFAULT_SECONDARY_COLOR,
{
    lemma_lookup_from_none(doc, "recall"@, 0);
}

/// A configuration whose pages correspond to the page items of a document
/// with unique keys is well formed: page names are unique, and so are the
/// entry names within each page.
proof fn lemma_config_wf(c: Config, doc: Seq<DocItem>)
    requires
        doc_keys_unique(doc),
        pages_correspond(c.pages@, page_items(doc)),
    ensures
        c.wf(),
{
    lemma_page_items_props(doc);
    let ps = page_items(doc);
    assert forall|i: int, j: int|
        0 <= i < j < c.pages@.len() implies c.pages@[i].name@ != c.pages@[j].name@ by {
        assert(page_corresponds(c.pages@[i], ps[i]));
        assert(page_corresponds(c.pages@[j], ps[j]));
    }
    assert forall|i: int| 0 <= i < c.pages@.len() implies (#[trigger] c.pages@[i]).wf() by {
        let p = c.pages@[i];
        let pi = ps[i];
        assert(page_corresponds(p, pi));
        assert(doc.contains(pi));
        let m = choose|m: int| 0 <= m < doc.len() && doc[m] == pi;
        assert(keys_distinct(pi.value->Table_0@));
        assert forall|a: int, b: int|
            0 <= a < b < p.entries@.len() implies p.entries@[a].name@ != p.entries@[b].name@ by {
            assert(entry_corresponds(p.entries@[a], pi.value->Table_0@[a]));
            assert(entry_corresponds(p.entries@[b], pi.value->Table_0@[b]));
        }
    }
}

/// Reads a configuration from document text: parses it, validates it and
/// builds the domain model. The result is fully determined by the text: the
/// parse error is passed on as such, a shape violation is reported against
/// the first offending section, and a success carries exactly the theme and
/// the pages that the document defines, in source order.
#[verifier::loop_isolation(false)]
pub fn read_from_config(text: &str) -> (r: Result<Config, StartupError>)
    ensures
        match parsed_doc(text@) {
            Err(m) => r matches Err(StartupError::Parse(p)) && p.message@ == m,
            Ok(doc) => match r {
                Ok(c) => {
                    &&& forall|i: int| 0 <= i < doc.len() ==> item_good(#[trigger] doc[i])
                    &&& config_matches_doc(c, doc)
                    &&& c.wf()
                },
                Err(StartupError::Config(e)) => exists|i: int|
                    #![auto]
                    0 <= i < doc.len() && !item_good(doc[i]) && (forall|j: int|
                        0 <= j < i ==> item_good(doc[j])) && error_names_item(e, doc[i]),
                Err(StartupError::Parse(_)) => false,
            },
        },
{
    let doc = match parse_toml(text) {
        Ok(d) => d,
        Err(message) => {
            return Err(StartupError::Parse(ParseError { message }));
        },
    };
    let ghost gdoc = doc@;
    let ct = match build_config_toml(doc) {
        Ok(ct) => ct,
        Err(e) => {
            return Err(StartupError::Config(e));
        },
    };
    let primary_color = match &ct.recall {
        Some(rt) => match rt.primary_color {
            Some(c) => ColorValue::Indexed(c),
            None => DEFAULT_PRIMARY_COLOR,
        },
        None => DEFAULT_PRIMARY_COLOR,
    };
    let highlight_color = match &ct.recall {
        Some(rt) => match rt.highlight_color {
            Some(c) => ColorValue::Indexed(c),
            None => DEFAULT_SECONDARY_COLOR,
        },
        None => DEFAULT_SECONDARY_COLOR,
    };
    let mut pages: Vec<Page> = Vec::new();
    let mut ps = ct.pages;
    let ghost gpages = ps@;
    while ps.len() > 0
        invariant
            pages@.len() + ps@.len() == gpages.len(),
            ps@ == gpages.subrange(pages@.len() as int, gpages.len() as int),
            forall|i: int|
                0 <= i < pages@.len() ==> (#[trigger] pages@[i]).name == gpages[i].0
                    && pages@[i].entries@.len() == gpages[i].1@.len() && (forall|j: int|
                    0 <= j < gpages[i].1@.len() ==> (#[trigger] pages@[i].entries@[j]).name
                        == gpages[i].1@[j].0 && pages@[i].entries@[j].content
                        == gpages[i].1@[j].1.content && pages@[i].entries@[j].description
                        == gpages[i].1@[j].1.description),
        decreases ps@.len(),
    {
        let ghost k = pages@.len() as int;
        proof {
            assert(ps@[0] == gpages[k]);
            assert(ps@.remove(0) =~= gpages.subrange(k + 1, gpages.len() as int));
        }
        let (nm, pt) = ps.remove(0);
        pages.push(build_page(nm, pt));
    }
    let c = Config { primary_color, highlight_color, pages };
    proof {
        let ws = page_items(gdoc);
        assert forall|i: int| 0 <= i < c.pages@.len() implies page_corresponds(
            #[trigger] c.pages@[i],
            ws[i],
        ) by {
            assert((gpages[i].0)@ == ws[i].key@ && page_toml_matches(gpages[i].1@, ws[i].value));
        }
        assert(pages_correspond(c.pages@, ws));
        lemma_config_wf(c, gdoc);
    }
    Ok(c)
}

// ---------------------------------------------------------------------------
// Serializing the example configuration
// ---------------------------------------------------------------------------

/// A piece of text wrapped in double quotes.
pub open spec fn quoted(s: Seq<char>) -> Seq<char> {
    "\""@ + s + "\""@
}

/// The shortcut tokens, each quoted, joined with commas.
pub open spec fn joined_tokens(c: Seq<Seq<char>>) -> Seq<char>
    decreases c.len(),
{
    if c.len() == 0 {
        Seq::empty()
    } else if c.len() == 1 {
        quoted(c[0])
    } else {
        joined_tokens(c.drop_last()) + ","@ + quoted(c.last())
    }
}

/// One serialized entry: an inline table with the content array and the
/// quoted description.
pub open spec fn entry_line_text(e: Entry) -> Seq<char> {
    e.name@ + " = {content = ["@ + joined_tokens(e.content.deep_view()) + "], description = \""@
        + e.description@ + "\"}\n"@
}

/// The fixed head of the example document: the global settings with the two
/// default-equivalent ANSI indices written out.
pub open spec fn init_header_text() -> Seq<char> {
    "# Global settings for recall\n"@ + "[recall]\n"@
        + "# Colors are u8-encoded numbers as per the ANSI Color Table\n"@ + "primary_color = 15\n"@
        + "highlight_color = 14\n"@ + "\n"@
}

/// The hint above the first page.
pub open spec fn subtable_hint_text() -> Seq<char> {
    "# Each subtable defines a new page\n"@ + "# The name of the page is the name of the subtable\n"@
}

/// The hint above the first entry with shortcut tokens.
pub open spec fn content_hint_text() -> Seq<char> {
    "# \"Content\" takes an array of strings used as keys needed for a shortcut\n"@
}

/// The hint above the first entry with a description.
pub open spec fn description_hint_text() -> Seq<char> {
    "# \"Description\" takes a string used as a description for this entry\n"@
}

/// The hint below the first page without entries.
pub open spec fn empty_table_hint_text() -> Seq<char> {
    "# Empty tables are also allowed (but useless)\n"@
}

/// Some entry before position `j` has shortcut tokens.
pub open spec fn some_content(es: Seq<Entry>, j: int) -> bool {
    exists|k: int| 0 <= k < j && (#[trigger] es[k]).content@.len() > 0
}

/// Some entry before position `j` has a description.
pub open spec fn some_description(es: Seq<Entry>, j: int) -> bool {
    exists|k: int| 0 <= k < j && (#[trigger] es[k]).description@.len() > 0
}

/// What one entry adds to the output, given whether the two entry hints
/// were already given: at most one hint of each kind, then the entry line.
pub open spec fn entry_emission(e: Entry, ch: bool, dh: bool) -> Seq<char> {
    (if e.content@.len() > 0 && !ch {
        content_hint_text()
    } else {
        Seq::empty()
    }) + (if e.description@.len() > 0 && !dh {
        description_hint_text()
    } else {
        Seq::empty()
    }) + entry_line_text(e)
}

/// The serialized entries of one page from position `i` on, given whether
/// the two entry hints were already given: each entry may first trigger a
/// hint, exactly once in the whole document.
pub open spec fn entries_text(es: Seq<Entry>, i: int, ch: bool, dh: bool) -> Seq<char>
    decreases es.len() - i,
{
    if i < 0 || i >= es.len() {
        Seq::empty()
    } else {
        entry_emission(es[i], ch, dh) + entries_text(
            es,
            i + 1,
            ch || es[i].content@.len() > 0,
            dh || es[i].description@.len() > 0,
        )
    }
}

/// The serialized pages from position `i` on, given which hints were already
/// given: the subtable hint above the first page, the entry hints threaded
/// through all entries, the empty-table hint below the first empty page.
pub open spec fn pages_text(ps: Seq<Page>, i: int, ch: bool, dh: bool, eh: bool) -> Seq<char>
    decreases ps.len() - i,
{
    if i < 0 || i >= ps.len() {
        Seq::empty()
    } else {
        let p = ps[i];
        let sub: Seq<char> = if i == 0 {
            subtable_hint_text()
        } else {
            Seq::empty()
        };
        let head = "["@ + p.name@ + "]\n"@;
        let body = entries_text(p.entries@, 0, ch, dh);
        let empty_hint: Seq<char> = if p.entries@.len() == 0 && !eh {
            empty_table_hint_text()
        } else {
            Seq::empty()
        };
        sub + head + body + empty_hint + "\n"@ + pages_text(
            ps,
            i + 1,
            ch || some_content(p.entries@, p.entries@.len() as int),
            dh || some_description(p.entries@, p.entries@.len() as int),
            eh || p.entries@.len() == 0,
        )
    }
}

/// The full example-config text for a configuration: the fixed global
/// settings head, then every page with its entries, annotated with each
/// usage hint exactly once.
pub open spec fn spec_serialize_init(c: Config) -> Seq<char> {
    init_header_text() + pages_text(c.pages@, 0, false, false, false)
}

/// Tracks whether a specific hint has already been given, to prevent
/// duplicate comments in the generated output.
enum Hint {
    /// The hint has already been written into the output.
    AlreadyOutput,
    /// The hint has not yet been written into the output.
    NotYetOutput,
}

/// Whether a hint was given.
spec fn hint_done(h: Hint) -> bool {
    h is AlreadyOutput
}

/// One serialized entry line, as `entry_line_text` says.
#[verifier::loop_isolation(false)]
fn entry_line_string(e: &Entry) -> (s: String)
    ensures
        s@ == entry_line_text(*e),
{
    let mut joined = String::new();
    let mut k: usize = 0;
    while k < e.content.len()
        invariant
            0 <= k <= e.content@.len(),
            joined@ == joined_tokens(e.content.deep_view().subrange(0, k as int)),
        decreases e.content@.len() - k,
    {
        let ghost prev = e.content.deep_view().subrange(0, k as int);
        let ghost cur = e.content.deep_view().subrange(0, (k + 1) as int);
        if k > 0 {
            joined.append(",");
        }
        joined.append("\"");
        joined.append(e.content[k].as_str());
        joined.append("\"");
        proof {
            assert(cur.drop_last() =~= prev);
            assert(cur.last() == e.content.deep_view()[k as int]);
            assert(e.content.deep_view()[k as int] == e.content@[k as int]@);
            if k == 0 {
                assert(joined@ =~= quoted(cur[0]));
            } else {
                assert(joined@ =~= joined_tokens(prev) + ","@ + quoted(cur.last()));
            }
        }
        k = k + 1;
    }
    proof {
        assert(e.content.deep_view().subrange(0, e.content@.len() as int) =~= e.content.deep_view());
    }
    let mut s = String::new();
    s.append(e.name.as_str());
    s.append(" = {content = [");
    s.append(joined.as_str());
    s.append("], description = \"");
    s.append(e.description.as_str());
    s.append("\"}\n");
    proof {
        assert(s@ =~= entry_line_text(*e));
    }
    s
}

/// Sequence concatenation associates; stated once for the text equations
/// below.
proof fn lemma_assoc(a: Seq<char>, b: Seq<char>, c: Seq<char>)
    ensures
        (a + b) + c == a + (b + c),
{
    assert((a + b) + c =~= a + (b + c));
}

/// Peeling one written chunk off the front of the remaining text.
proof fn lemma_peel(full: Seq<char>, before: Seq<char>, after: Seq<char>, chunk: Seq<char>, rest: Seq<char>)
    requires
        full == before + (chunk + rest),
        after == before + chunk,
    ensures
        full == after + rest,
{
    lemma_assoc(before, chunk, rest);
}

/// Regrouping one page's serialized parts around its entry text.
proof fn lemma_regroup(a: Seq<char>, b: Seq<char>, c: Seq<char>, d: Seq<char>, e: Seq<char>)
    ensures
        a + b + c + d + e == a + (b + (c + d + e)),
{
    assert(a + b + c + d + e =~= a + (b + (c + d + e)));
}

/// An empty prefix adds nothing.
proof fn lemma_empty_prefix(rest: Seq<char>)
    ensures
        Seq::<char>::empty() + rest == rest,
{
    assert(Seq::<char>::empty() + rest =~= rest);
}

/// Whether some entry stands before `j + 1` is settled by the entries before
/// `j` and the entry at `j` alone.
proof fn lemma_some_entry_step(es: Seq<Entry>, j: int)
    requires
        0 <= j < es.len(),
    ensures
        some_content(es, j + 1) == (some_content(es, j) || es[j].content@.len() > 0),
        some_description(es, j + 1) == (some_description(es, j) || es[j].description@.len() > 0),
{
    if some_content(es, j + 1) {
        let k = choose|k: int| 0 <= k < j + 1 && (#[trigger] es[k]).content@.len() > 0;
        if k < j {
            assert(some_content(es, j));
        }
    }
    if some_content(es, j) {
        let k = choose|k: int| 0 <= k < j && (#[trigger] es[k]).content@.len() > 0;
        assert(0 <= k < j + 1 && es[k].content@.len() > 0);
    }
    if es[j].content@.len() > 0 {
        assert(some_content(es, j + 1));
    }
    if some_description(es, j + 1) {
        let k = choose|k: int| 0 <= k < j + 1 && (#[trigger] es[k]).description@.len() > 0;
        if k < j {
            assert(some_description(es, j));
        }
    }
    if some_description(es, j) {
        let k = choose|k: int| 0 <= k < j && (#[trigger] es[k]).description@.len() > 0;
        assert(0 <= k < j + 1 && es[k].description@.len() > 0);
    }
    if es[j].description@.len() > 0 {
        assert(some_description(es, j + 1));
    }
}

/// Writes the fixed global-settings head of the example document.
fn emit_header(out: &mut String)
    ensures
        final(out)@ == old(out)@ + init_header_text(),
{
    let ghost out0 = out@;
    out.append("# Global settings for recall\n");
    out.append("[recall]\n");
    out.append("# Colors are u8-encoded numbers as per the ANSI Color Table\n");
    out.append("primary_color = 15\n");
    out.append("highlight_color = 14\n");
    out.append("\n");
    proof {
        assert(out@ =~= out0 + init_header_text());
    }
}

/// Writes one page's opening: the subtable hint above the first page, then
/// the page header line.
fn emit_page_head(out: &mut String, name: &String, first: bool)
    ensures
        final(out)@ == old(out)@ + ((if first {
            subtable_hint_text()
        } else {
            Seq::<char>::empty()
        }) + ("["@ + name@ + "]\n"@)),
{
    let ghost out0 = out@;
    if first {
        out.append("# Each subtable defines a new page\n");
        out.append("# The name of the page is the name of the subtable\n");
    }
    out.append("[");
    out.append(name.as_str());
    out.append("]\n");
    proof {
        if first {
            assert(out@ =~= out0 + (subtable_hint_text() + ("["@ + name@ + "]\n"@)));
        } else {
            assert(out@ =~= out0 + (Seq::<char>::empty() + ("["@ + name@ + "]\n"@)));
        }
    }
}

/// Writes one page's closing: the empty-table hint below the first page
/// without entries, then the blank separator line.
fn emit_page_end(out: &mut String, empty_page: bool, empty_hint: &mut Hint)
    ensures
        final(out)@ == old(out)@ + ((if empty_page && !hint_done(*old(empty_hint)) {
            empty_table_hint_text()
        } else {
            Seq::<char>::empty()
        }) + "\n"@),
        hint_done(*final(empty_hint)) == (hint_done(*old(empty_hint)) || empty_page),
{
    let ghost out0 = out@;
    let ghost h: Seq<char> = if empty_page && !hint_done(*empty_hint) {
        empty_table_hint_text()
    } else {
        Seq::empty()
    };
    if empty_page {
        if let Hint::NotYetOutput = *empty_hint {
            out.append("# Empty tables are also allowed (but useless)\n");
            *empty_hint = Hint::AlreadyOutput;
        }
    }
    out.append("\n");
    proof {
        assert(out@ =~= out0 + (h + "\n"@));
    }
}

/// Writes one entry: its hints, where they are still owed, then its line.
fn emit_entry(out: &mut String, entry: &Entry, content_hint: &mut Hint, desc_hint: &mut Hint)
    ensures
        final(out)@ == old(out)@ + entry_emission(
            *entry,
            hint_done(*old(content_hint)),
            hint_done(*old(desc_hint)),
        ),
        hint_done(*final(content_hint)) == (hint_done(*old(content_hint)) || entry.content@.len()
            > 0),
        hint_done(*final(desc_hint)) == (hint_done(*old(desc_hint)) || entry.description@.len()
            > 0),
{
    let ghost h1: Seq<char> = if entry.content@.len() > 0 && !hint_done(*content_hint) {
        content_hint_text()
    } else {
        Seq::empty()
    };
    let ghost h2: Seq<char> = if entry.description@.len() > 0 && !hint_done(*desc_hint) {
        description_hint_text()
    } else {
        Seq::empty()
    };
    let ghost out0 = out@;
    if entry.content.len() > 0 {
        if let Hint::NotYetOutput = *content_hint {
            out.append(
                "# \"Content\" takes an array of strings used as keys needed for a shortcut\n",
            );
            *content_hint = Hint::AlreadyOutput;
        }
    }
    proof {
        assert(out@ =~= out0 + h1);
    }
    let ghost out1 = out@;
    if !entry.description.as_str().is_empty() {
        if let Hint::NotYetOutput = *desc_hint {
            out.append(
                "# \"Description\" takes a string used as a description for this entry\n",
            );
            *desc_hint = Hint::AlreadyOutput;
        }
    }
    proof {
        assert(out@ =~= out1 + h2);
    }
    let line = entry_line_string(entry);
    out.append(line.as_str());
    proof {
        assert(out@ =~= out0 + (h1 + h2 + entry_line_text(*entry)));
    }
}

/// Serializes a configuration into the example TOML text, annotated with
/// usage hints: exactly the text that `spec_serialize_init` describes.
#[verifier::loop_isolation(false)]
#[verifier::rlimit(100)]
pub fn serialize_init_config(config: &Config) -> (s: String)
    ensures
        s@ == spec_serialize_init(*config),
{
    let ghost ps = config.pages@;
    let ghost full = spec_serialize_init(*config);
    let mut out = String::new();

    let mut content_array_hint = Hint::NotYetOutput;
    let mut description_hint = Hint::NotYetOutput;
    let mut empty_table_hint = Hint::NotYetOutput;

    emit_header(&mut out);
    proof {
        lemma_empty_prefix(init_header_text());
    }

    let ghost mut gch: bool = false;
    let ghost mut gdh: bool = false;
    let ghost mut geh: bool = false;
    let mut i: usize = 0;
    while i < config.pages.len()
        invariant
            0 <= i <= ps.len(),
            hint_done(content_array_hint) == gch,
            hint_done(description_hint) == gdh,
            hint_done(empty_table_hint) == geh,
            full == out@ + pages_text(ps, i as int, gch, gdh, geh),
        decreases ps.len() - i,
    {
        let page = &config.pages[i];
        let ghost es = page.entries@;
        let ghost sub: Seq<char> = if i == 0 {
            subtable_hint_text()
        } else {
            Seq::empty()
        };
        let ghost head = "["@ + page.name@ + "]\n"@;
        let ghost empty_hint: Seq<char> = if es.len() == 0 && !geh {
            empty_table_hint_text()
        } else {
            Seq::empty()
        };
        let ghost tail = pages_text(
            ps,
            i as int + 1,
            gch || some_content(es, es.len() as int),
            gdh || some_description(es, es.len() as int),
            geh || es.len() == 0,
        );
        let ghost body = entries_text(es, 0, gch, gdh);
        let ghost rest1 = empty_hint + "\n"@ + tail;

        let ghost out0 = out@;
        emit_page_head(&mut out, &page.name, i == 0);
        proof {
            assert(pages_text(ps, i as int, gch, gdh, geh) == sub + head + body + empty_hint
                + "\n"@ + tail);
            lemma_regroup(sub + head, body, empty_hint, "\n"@, tail);
            lemma_peel(full, out0, out@, sub + head, body + rest1);
        }

        let ghost mut ech: bool = gch;
        let ghost mut edh: bool = gdh;
        let mut j: usize = 0;
        while j < page.entries.len()
            invariant
                0 <= j <= es.len(),
                hint_done(content_array_hint) == ech,
                hint_done(description_hint) == edh,
                ech == (gch || some_content(es, j as int)),
                edh == (gdh || some_description(es, j as int)),
                full == out@ + (entries_text(es, j as int, ech, edh) + rest1),
            decreases es.len() - j,
        {
            let entry = &page.entries[j];
            let ghost out1 = out@;
            let ghost emission = entry_emission(*entry, ech, edh);
            let ghost etext_next = entries_text(
                es,
                j as int + 1,
                ech || entry.content@.len() > 0,
                edh || entry.description@.len() > 0,
            );
            emit_entry(&mut out, entry, &mut content_array_hint, &mut description_hint);
            proof {
                assert(entries_text(es, j as int, ech, edh) == emission + etext_next);
                lemma_assoc(emission, etext_next, rest1);
                lemma_peel(full, out1, out@, emission, etext_next + rest1);
                lemma_some_entry_step(es, j as int);
                ech = ech || entry.content@.len() > 0;
                edh = edh || entry.description@.len() > 0;
            }
            j = j + 1;
        }

        let ghost out3 = out@;
        emit_page_end(&mut out, page.entries.len() == 0, &mut empty_table_hint);
        proof {
            assert(entries_text(es, es.len() as int, ech, edh) == Seq::<char>::empty());
            lemma_empty_prefix(rest1);
            lemma_peel(full, out3, out@, empty_hint + "\n"@, tail);
            gch = gch || some_content(es, es.len() as int);
            gdh = gdh || some_description(es, es.len() as int);
            geh = geh || es.len() == 0;
        }
        i = i + 1;
    }
    proof {
        assert(pages_text(ps, ps.len() as int, gch, gdh, geh) == Seq::<char>::empty());
        assert(full =~= out@);
    }
    out
}

} // verus!
