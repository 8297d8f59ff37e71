//! TOML text, read and printed by `toml`.
use vstd::prelude::*;

use crate::document::{Document, DocumentView};
use crate::text::{chars_of, same};

verus! {

/// What comes of reading or printing TOML text: a document or text, or the text of an error.
pub enum ParsedToml {
    Document(DocumentView),
    Refused(Seq<char>),
}

/// What comes of printing TOML text.
pub enum PrintedToml {
    Text(Seq<char>),
    Refused(Seq<char>),
}

/// A value to store under a name.
pub enum Setting {
    Text(String),
    Flag(bool),
}

impl Setting {
    /// The value as a part of a document.
    pub open spec fn view(&self) -> DocumentView {
        match self {
            Setting::Text(text) => DocumentView::Text(text@),
            Setting::Flag(flag) => DocumentView::Bool(*flag),
        }
    }
}

/// How many names lead to a table that `toml` reads, and how many arrays and tables it follows in
/// the value of one name: it stops at the next.
pub const MAX_NESTING: usize = 79;

/// The name by which `toml` tells a date from a table: it is looked for where a table begins.
pub open spec fn date_name() -> Seq<char> {
    "$__toml_private_datetime"@
}

/// An array that `toml` prints as tables of their own: it has items, and all of them are tables.
pub open spec fn lists_tables(items: Seq<DocumentView>) -> bool {
    items.len() > 0 && forall|i: int| 0 <= i < items.len() ==> (#[trigger] items[i]) is Object
}

/// A value that `toml` prints behind its name, before the tables that have headers of their own.
pub open spec fn behind_name(value: DocumentView) -> bool {
    match value {
        DocumentView::Object(_) => false,
        DocumentView::Array(items) => !lists_tables(items),
        _ => true,
    }
}

/// A table that `toml` prints in one line, in the order of the names, begins with the name of a date.
pub open spec fn line_begins_with_date(fields: Map<Seq<char>, DocumentView>) -> bool {
    fields.dom().contains(date_name()) && forall|name: Seq<char>| #[trigger]
        fields.dom().contains(name) ==> crate::order::at_or_before(date_name(), name)
}

/// A field of a table with a header is printed no later than another: those behind their names come
/// first, and otherwise the order of the names holds.
pub open spec fn no_later(
    fields: Map<Seq<char>, DocumentView>,
    name: Seq<char>,
    other: Seq<char>,
) -> bool {
    if behind_name(fields[name]) == behind_name(fields[other]) {
        crate::order::at_or_before(name, other)
    } else {
        behind_name(fields[name])
    }
}

/// A table that `toml` prints under a header begins with the name of a date.
pub open spec fn begins_with_date(fields: Map<Seq<char>, DocumentView>) -> bool {
    fields.dom().contains(date_name()) && forall|name: Seq<char>| #[trigger]
        fields.dom().contains(name) ==> no_later(fields, date_name(), name)
}

/// A value that `toml` prints behind its name nests at most `depth` arrays and tables, and none of
/// the tables begins with the name of a date.
pub open spec fn inline_storable(value: DocumentView, depth: nat) -> bool
    decreases depth,
{
    match value {
        DocumentView::Array(items) => depth > 0 && forall|i: int|
            0 <= i < items.len() ==> inline_storable(#[trigger] items[i], (depth - 1) as nat),
        DocumentView::Object(fields) => {
            &&& depth > 0
            &&& !line_begins_with_date(fields)
            &&& forall|name: Seq<char>|
                fields.dom().contains(name) ==> inline_storable(
                    #[trigger] fields[name],
                    (depth - 1) as nat,
                )
        },
        _ => true,
    }
}

/// A field of a table to which at most `names` more names lead.
pub open spec fn field_storable(value: DocumentView, names: nat) -> bool
    decreases names, 0nat,
{
    match value {
        DocumentView::Object(_) => names > 0 && table_storable(value, (names - 1) as nat),
        DocumentView::Array(items) if lists_tables(items) => names > 0 && forall|i: int|
            0 <= i < items.len() ==> table_storable(#[trigger] items[i], (names - 1) as nat),
        _ => inline_storable(value, MAX_NESTING as nat),
    }
}

/// A table under which at most `names` names lead to another, and none of whose tables begins with
/// the name of a date.
pub open spec fn table_storable(table: DocumentView, names: nat) -> bool
    decreases names, 1nat,
{
    table matches DocumentView::Object(fields) && !begins_with_date(fields) && forall|
        name: Seq<char>,
    |
        fields.dom().contains(name) ==> field_storable(#[trigger] fields[name], names)
}

/// A document that `toml` reads back from what it prints of it: nothing in it is nested deeper than
/// `toml` follows, and no table begins with the name of a date.
pub open spec fn storable(document: DocumentView) -> bool {
    table_storable(document, MAX_NESTING as nat)
}

/// How many equal quotes in a row `toml` cannot count in a text that it prints.
pub const QUOTES: usize = 256;

/// Too many quotes to be counted begin at a place of a text.
pub open spec fn run_at(text: Seq<char>, quote: char, at: int) -> bool {
    0 <= at && at + QUOTES <= text.len() && forall|i: int|
        at <= i < at + QUOTES ==> #[trigger] text[i] == quote
}

/// A text has no more of one quote in a row than `toml` can count.
pub open spec fn countable(text: Seq<char>) -> bool {
    &&& forall|at: int| !(#[trigger] run_at(text, '\'', at))
    &&& forall|at: int| !(#[trigger] run_at(text, '"', at))
}

/// `toml` can count the quotes in each text of a document, down to `depth` arrays and tables.
pub open spec fn counted(document: DocumentView, depth: nat) -> bool
    decreases depth,
{
    match document {
        DocumentView::Text(text) => countable(text),
        DocumentView::Array(items) => depth == 0 || (forall|i: int|
            0 <= i < items.len() ==> counted(#[trigger] items[i], (depth - 1) as nat)),
        DocumentView::Object(fields) => depth == 0 || (forall|name: Seq<char>|
            fields.dom().contains(name) ==> counted(#[trigger] fields[name], (depth - 1) as nat)),
        _ => true,
    }
}

/// A document that `toml` can print: it can count the quotes in each of its texts.
pub open spec fn printable(document: DocumentView) -> bool {
    forall|depth: nat| #[trigger] counted(document, depth)
}

/// `toml`'s own document type.
#[verifier::external_type_specification]
#[verifier::external_body]
pub struct ExTomlValue(toml::Value);

/// What a `toml::Value` holds.
pub uninterp spec fn kept(value: toml::Value) -> DocumentView;

/// What `toml::from_str` makes of `text` as a `toml::Value`.
pub uninterp spec fn parsed_toml(text: Seq<char>) -> ParsedToml;

/// What `toml::from_str` makes of `text` as a `toml::Table`.
pub uninterp spec fn parsed_table(text: Seq<char>) -> ParsedToml;

/// What `toml::to_string_pretty` makes of a table.
pub uninterp spec fn printed_toml(document: DocumentView) -> PrintedToml;

/// Calls `toml::from_str` for a `toml::Value`. What comes back depends on the text alone; a refusal
/// is handed on as the error's text.
#[verifier::external_body]
fn value_from_str(text: &str) -> (r: Result<toml::Value, String>)
    ensures
        r matches Ok(value) ==> parsed_toml(text@) == ParsedToml::Document(kept(value)),
        r matches Err(message) ==> parsed_toml(text@) == ParsedToml::Refused(message@),
{
    toml::from_str::<toml::Value>(text).map_err(|error| error.to_string())
}

/// Calls `toml::from_str` for a `toml::Table`. What comes back depends on the text alone; a refusal
/// is handed on as the error's text.
#[verifier::external_body]
pub(crate) fn table_from_str(text: &str) -> (r: Result<toml::Value, String>)
    ensures
        r matches Ok(table) ==> kept(table) is Object,
        r matches Ok(table) ==> parsed_table(text@) == ParsedToml::Document(kept(table)),
        r matches Err(message) ==> parsed_table(text@) == ParsedToml::Refused(message@),
{
    toml::from_str::<toml::Table>(text).map(toml::Value::Table).map_err(|error| error.to_string())
}

/// Calls `toml::Table::new`, which makes a table without entries.
#[verifier::external_body]
pub(crate) fn new_table() -> (r: toml::Value)
    ensures
        kept(r) == DocumentView::Object(Map::empty()),
{
    toml::Value::Table(toml::Table::new())
}

/// Calls `toml::Table::insert`, which stores `value` under `name`, in place of what was there, and
/// leaves every other entry as it is.
#[verifier::external_body]
pub(crate) fn insert(table: &mut toml::Value, name: &str, value: Setting)
    requires
        kept(*old(table)) is Object,
    ensures
        kept(*final(table)) == DocumentView::Object(
            kept(*old(table))->Object_0.insert(name@, value@),
        ),
{
    let value = match value {
        Setting::Text(text) => toml::Value::String(text),
        Setting::Flag(flag) => toml::Value::Boolean(flag),
    };
    if let toml::Value::Table(table) = table {
        table.insert(name.to_owned(), value);
    }
}

/// Takes a `toml::Value` apart into a [`Document`], variant by variant; a float and a date become
/// the text that they print as. The document stays the same.
#[verifier::external_body]
pub(crate) fn from_value(value: &toml::Value) -> (r: Document)
    ensures
        r@ == kept(*value),
{
    match value {
        toml::Value::String(text) => Document::Text(text.clone()),
        toml::Value::Integer(value) => Document::Signed(*value),
        toml::Value::Boolean(value) => Document::Bool(*value),
        toml::Value::Float(_) | toml::Value::Datetime(_) => Document::Other(value.to_string()),
        toml::Value::Array(items) => Document::Array(items.iter().map(from_value).collect()),
        toml::Value::Table(table) => {
            Document::Object(table.iter().map(|(name, value)| (name.clone(), from_value(value))).collect())
        },
    }
}

/// Calls `toml::to_string_pretty` on a table. What comes back depends on what the table holds
/// alone. Text that it prints is read back by `toml::from_str` as the same document where nothing in
/// it is nested deeper than `toml::from_str` follows and no table begins with the name by which
/// `toml::from_str` tells a date from a table. It counts the equal quotes in a row of a text in a
/// byte, so that it may not be called where there are too many.
#[verifier::external_body]
pub(crate) fn to_string_pretty(table: &toml::Value) -> (r: Result<String, String>)
    requires
        kept(*table) is Object,
        printable(kept(*table)),
    ensures
        r matches Ok(text) ==> printed_toml(kept(*table)) == PrintedToml::Text(text@),
        r matches Err(message) ==> printed_toml(kept(*table)) == PrintedToml::Refused(message@),
        r matches Ok(text) ==> storable(kept(*table)) ==> parsed_toml(text@)
            == ParsedToml::Document(kept(*table)),
{
    toml::to_string_pretty(table).map_err(|error| error.to_string())
}

/// An array is counted no further than its items.
proof fn lemma_item_counted(items: Seq<DocumentView>, i: int, depth: nat)
    requires
        0 <= i < items.len(),
        !counted(items[i], depth),
    ensures
        !counted(DocumentView::Array(items), depth + 1),
{
    let more: nat = depth + 1;
    let array = DocumentView::Array(items);
    if counted(array, more) {
        assert(array->Array_0 == items);
        assert(forall|j: int|
            0 <= j < items.len() ==> counted(#[trigger] items[j], (more - 1) as nat));
        assert(counted(items[i], depth));
    }
}

/// A table is counted no further than its fields.
proof fn lemma_field_counted(fields: Map<Seq<char>, DocumentView>, name: Seq<char>, depth: nat)
    requires
        fields.dom().contains(name),
        !counted(fields[name], depth),
    ensures
        !counted(DocumentView::Object(fields), depth + 1),
{
    let more: nat = depth + 1;
    let table = DocumentView::Object(fields);
    if counted(table, more) {
        assert(table->Object_0 == fields);
        assert(forall|other: Seq<char>|
            fields.dom().contains(other) ==> counted(#[trigger] fields[other], (more - 1) as nat));
        assert(counted(fields[name], depth));
    }
}

/// Whether a text has no more of a quote in a row than `toml` can count.
fn runs_short(text: &str, quote: char) -> (r: bool)
    ensures
        r == (forall|at: int| !(#[trigger] run_at(text@, quote, at))),
{
    let chars = chars_of(text);
    let mut run: usize = 0;
    let mut i: usize = 0;
    while i < chars.len()
        invariant
            chars@ == text@,
            i <= chars.len(),
            run <= i,
            run < QUOTES,
            forall|j: int| i - run <= j < i ==> #[trigger] text@[j] == quote,
            run < i ==> text@[i - run - 1] != quote,
            forall|at: int| at + QUOTES <= i ==> !(#[trigger] run_at(text@, quote, at)),
        decreases chars.len() - i,
    {
        let ghost before = run;
        if chars[i] == quote {
            run = run + 1;
            if run >= QUOTES {
                assert(run_at(text@, quote, i + 1 - QUOTES));
                return false;
            }
        } else {
            run = 0;
        }
        proof {
            assert forall|at: int| at + QUOTES <= i + 1 implies !(#[trigger] run_at(
                text@,
                quote,
                at,
            )) by {
                if at + QUOTES == i + 1 && run_at(text@, quote, at) {
                    assert(text@[i as int] == quote);
                    assert(text@[i - before - 1] == quote);
                }
            }
        }
        i = i + 1;
    }
    true
}

/// Whether a later field has the name of the one at a place.
fn replaced(fields: &Vec<(String, Document)>, at: usize) -> (r: bool)
    requires
        at < fields.len(),
    ensures
        r == exists|j: int|
            at < j < fields@.len() && (#[trigger] fields@[j]).0@ == fields@[at as int].0@,
{
    let mut j: usize = at + 1;
    while j < fields.len()
        invariant
            at < j <= fields.len(),
            forall|k: int| at < k < j ==> (#[trigger] fields@[k]).0@ != fields@[at as int].0@,
        decreases fields.len() - j,
    {
        if same(fields[j].0.as_str(), fields[at].0.as_str()) {
            assert(fields@[j as int].0@ == fields@[at as int].0@);
            return true;
        }
        j = j + 1;
    }
    false
}

/// Whether `toml` can print a document.
pub(crate) fn can_print(document: &Document) -> (r: bool)
    ensures
        r == printable(document@),
    decreases document,
{
    match document {
        Document::Text(text) => {
            let short = runs_short(text.as_str(), '\'') && runs_short(text.as_str(), '"');
            proof {
                assert(counted(document@, 0) == countable(text@));
                assert(forall|depth: nat| #[trigger] counted(document@, depth) == countable(text@));
            }
            short
        },
        Document::Array(items) => {
            proof {
                crate::document::lemma_item_views(items@);
            }
            let mut i: usize = 0;
            while i < items.len()
                invariant
                    i <= items.len(),
                    document is Array,
                    document->Array_0 == *items,
                    document@ == DocumentView::Array(crate::document::item_views(items@)),
                    crate::document::item_views(items@).len() == items@.len(),
                    forall|j: int|
                        0 <= j < items@.len() ==> #[trigger] crate::document::item_views(items@)[j]
                            == items@[j].view(),
                    forall|j: int| 0 <= j < i ==> printable((#[trigger] items@[j]).view()),
                decreases items.len() - i,
            {
                if !can_print(&items[i]) {
                    proof {
                        let item = items@[i as int].view();
                        let depth = choose|depth: nat| !(#[trigger] counted(item, depth));
                        lemma_item_counted(
                            crate::document::item_views(items@),
                            i as int,
                            depth,
                        );
                    }
                    return false;
                }
                i = i + 1;
            }
            proof {
                assert forall|depth: nat| #[trigger] counted(document@, depth) by {
                    if depth > 0 {
                        let views = crate::document::item_views(items@);
                        assert forall|j: int| 0 <= j < views.len() implies counted(
                            #[trigger] views[j],
                            (depth - 1) as nat,
                        ) by {
                            assert(printable(items@[j].view()));
                        }
                    }
                }
            }
            true
        },
        Document::Object(fields) => {
            let ghost views = crate::document::field_views(fields@);
            let mut i: usize = 0;
            while i < fields.len()
                invariant
                    i <= fields.len(),
                    document is Object,
                    document->Object_0 == *fields,
                    document@ == DocumentView::Object(views),
                    views == crate::document::field_views(fields@),
                    forall|j: int|
                        0 <= j < i ==> (exists|k: int|
                            j < k < fields@.len() && (#[trigger] fields@[k]).0@ == fields@[j].0@)
                            || printable((#[trigger] fields@[j]).1.view()),
                decreases fields.len() - i,
            {
                if !replaced(fields, i) && !can_print(&fields[i].1) {
                    proof {
                        crate::document::lemma_field_views_after(fields@, i as int);
                        let name = fields@[i as int].0@;
                        let depth = choose|depth: nat|
                            !(#[trigger] counted(fields@[i as int].1.view(), depth));
                        lemma_field_counted(views, name, depth);
                    }
                    return false;
                }
                i = i + 1;
            }
            proof {
                assert forall|depth: nat| #[trigger] counted(document@, depth) by {
                    if depth > 0 {
                        assert forall|name: Seq<char>| views.dom().contains(name) implies counted(
                            #[trigger] views[name],
                            (depth - 1) as nat,
                        ) by {
                            let at = crate::document::lemma_field_found(fields@, name);
                            assert(printable(fields@[at].1.view()));
                        }
                    }
                }
            }
            true
        },
        _ => true,
    }
}

/// Reads a TOML document.
pub fn parse_toml(text: &str) -> (r: Result<Document, String>)
    ensures
        parsed_toml(text@) == (match r {
            Ok(document) => ParsedToml::Document(document@),
            Err(message) => ParsedToml::Refused(message@),
        }),
{
    match value_from_str(text) {
        Ok(value) => Ok(from_value(&value)),
        Err(message) => Err(message),
    }
}

} // verus!
