//! Documents as plain values: what JSON messages and TOML settings hold.
//!
//! Text is read and printed by the format's own crate; everything the library decides about a
//! document is decided on [`Document`].
use vstd::prelude::*;

use crate::text::same;

verus! {

/// A document.
///
/// A number that is no integer, and a date, are kept as the text that they print as.
#[derive(Debug)]
pub enum Document {
    Null,
    Bool(bool),
    Unsigned(u64),
    Signed(i64),
    Other(String),
    Text(String),
    Array(Vec<Document>),
    Object(Vec<(String, Document)>),
}

/// What a [`Document`] document says: a later field replaces an earlier one of the same name.
pub enum DocumentView {
    Null,
    Bool(bool),
    Number(int),
    Other(Seq<char>),
    Text(Seq<char>),
    Array(Seq<DocumentView>),
    Object(Map<Seq<char>, DocumentView>),
}

impl DocumentView {
    /// The document nests at most `depth` arrays and objects, and its numbers are integers of 64
    /// bits.
    pub open spec fn integral(self, depth: nat) -> bool
        decreases depth,
    {
        match self {
            DocumentView::Other(_) => false,
            DocumentView::Number(value) => i64::MIN <= value <= u64::MAX,
            DocumentView::Array(items) => depth > 0 && forall|i: int|
                0 <= i < items.len() ==> (#[trigger] items[i]).integral((depth - 1) as nat),
            DocumentView::Object(fields) => depth > 0 && forall|name: Seq<char>|
                fields.dom().contains(name) ==> (#[trigger] fields[name]).integral(
                    (depth - 1) as nat,
                ),
            _ => true,
        }
    }

    /// An array of text values.
    pub open spec fn texts(texts: Seq<Seq<char>>) -> DocumentView {
        DocumentView::Array(Seq::new(texts.len(), |i: int| DocumentView::Text(texts[i])))
    }

    /// A text value, or null where there is none.
    pub open spec fn text_or_null(text: Option<Seq<char>>) -> DocumentView {
        match text {
            Some(text) => DocumentView::Text(text),
            None => DocumentView::Null,
        }
    }

    /// The field `name`, where the document is an object that has one.
    pub open spec fn field(self, name: Seq<char>) -> Option<DocumentView> {
        match self {
            DocumentView::Object(fields) if fields.dom().contains(name) => Some(fields[name]),
            _ => None,
        }
    }

    /// The text in field `name`.
    pub open spec fn text_at(self, name: Seq<char>) -> Option<Seq<char>> {
        match self.field(name) {
            Some(DocumentView::Text(text)) => Some(text),
            _ => None,
        }
    }

    /// The boolean in field `name`.
    pub open spec fn bool_at(self, name: Seq<char>) -> Option<bool> {
        match self.field(name) {
            Some(DocumentView::Bool(value)) => Some(value),
            _ => None,
        }
    }

    /// The integer in field `name`, where it fits `u64`.
    pub open spec fn u64_at(self, name: Seq<char>) -> Option<u64> {
        match self.field(name) {
            Some(DocumentView::Number(value)) if 0 <= value <= u64::MAX => Some(value as u64),
            _ => None,
        }
    }

    /// The integer in field `name`, where it fits `i64`.
    pub open spec fn i64_at(self, name: Seq<char>) -> Option<i64> {
        match self.field(name) {
            Some(DocumentView::Number(value)) if i64::MIN <= value <= i64::MAX => Some(value as i64),
            _ => None,
        }
    }
}

/// The views of `items`, in order.
pub open spec fn item_views(items: Seq<Document>) -> Seq<DocumentView>
    decreases items,
{
    if items.len() == 0 {
        Seq::empty()
    } else {
        item_views(items.drop_last()).push(items.last().view())
    }
}

/// The fields of an object, a later one in place of an earlier one of the same name.
pub open spec fn field_views(fields: Seq<(String, Document)>) -> Map<Seq<char>, DocumentView>
    decreases fields,
{
    if fields.len() == 0 {
        Map::empty()
    } else {
        field_views(fields.drop_last()).insert(fields.last().0@, fields.last().1.view())
    }
}

impl Document {
    /// What the document says.
    pub open spec fn view(&self) -> DocumentView
        decreases self,
    {
        match self {
            Document::Null => DocumentView::Null,
            Document::Bool(value) => DocumentView::Bool(*value),
            Document::Unsigned(value) => DocumentView::Number(*value as int),
            Document::Signed(value) => DocumentView::Number(*value as int),
            Document::Other(text) => DocumentView::Other(text@),
            Document::Text(text) => DocumentView::Text(text@),
            Document::Array(items) => DocumentView::Array(item_views(items@)),
            Document::Object(fields) => DocumentView::Object(field_views(fields@)),
        }
    }

    /// The document nests at most `depth` arrays and objects and holds no [`Document::Other`].
    pub open spec fn plain(&self, depth: nat) -> bool
        decreases depth,
    {
        match self {
            Document::Other(_) => false,
            Document::Array(items) => depth > 0 && forall|i: int|
                0 <= i < items@.len() ==> (#[trigger] items@[i]).plain((depth - 1) as nat),
            Document::Object(fields) => depth > 0 && forall|i: int|
                0 <= i < fields@.len() ==> (#[trigger] fields@[i]).1.plain((depth - 1) as nat),
            _ => true,
        }
    }
}

/// `items` seen one by one.
pub proof fn lemma_item_views(items: Seq<Document>)
    ensures
        item_views(items).len() == items.len(),
        forall|i: int| 0 <= i < items.len() ==> #[trigger] item_views(items)[i] == items[i].view(),
    decreases items.len(),
{
    if items.len() > 0 {
        lemma_item_views(items.drop_last());
    }
}

/// A bound on the nesting may be larger than it has to be.
pub proof fn lemma_plain_more(document: Document, depth: nat, more: nat)
    requires
        document.plain(depth),
        depth <= more,
    ensures
        document.plain(more),
    decreases depth,
{
    match document {
        Document::Array(items) => {
            assert forall|i: int| 0 <= i < items@.len() implies (#[trigger] items@[i]).plain(
                (more - 1) as nat,
            ) by {
                lemma_plain_more(items@[i], (depth - 1) as nat, (more - 1) as nat);
            }
        },
        Document::Object(fields) => {
            assert forall|i: int| 0 <= i < fields@.len() implies (#[trigger] fields@[i]).1.plain(
                (more - 1) as nat,
            ) by {
                lemma_plain_more(fields@[i].1, (depth - 1) as nat, (more - 1) as nat);
            }
        },
        _ => {},
    }
}

/// What the parts of a document keep to, its view keeps to.
pub proof fn lemma_plain_integral(document: Document, depth: nat)
    requires
        document.plain(depth),
    ensures
        document@.integral(depth),
    decreases depth, 0nat, 0nat,
{
    match document {
        Document::Array(items) => {
            lemma_item_views(items@);
            assert forall|i: int| 0 <= i < items@.len() implies (#[trigger] item_views(
                items@,
            )[i]).integral((depth - 1) as nat) by {
                assert(items@[i].plain((depth - 1) as nat));
                lemma_plain_integral(items@[i], (depth - 1) as nat);
            }
            let views = item_views(items@);
            assert(document@ == DocumentView::Array(views));
            assert(forall|i: int| 0 <= i < views.len() ==> (#[trigger] views[i]).integral((depth - 1) as nat));
            assert(DocumentView::Array(views).integral(depth));
        },
        Document::Object(fields) => {
            lemma_fields_integral(fields@, (depth - 1) as nat);
            let views = field_views(fields@);
            assert(forall|name: Seq<char>|
                views.dom().contains(name) ==> (#[trigger] views[name]).integral(
                    (depth - 1) as nat,
                ));
            assert(DocumentView::Object(views).integral(depth));
        },
        _ => {},
    }
}

/// What each field keeps to, the object's fields keep to.
proof fn lemma_fields_integral(fields: Seq<(String, Document)>, depth: nat)
    requires
        forall|i: int| 0 <= i < fields.len() ==> (#[trigger] fields[i]).1.plain(depth),
    ensures
        forall|name: Seq<char>|
            field_views(fields).dom().contains(name) ==> (#[trigger] field_views(
                fields,
            )[name]).integral(depth),
    decreases depth, fields.len(), 1nat,
{
    if fields.len() > 0 {
        assert(fields[fields.len() - 1].1.plain(depth));
        lemma_plain_integral(fields.last().1, depth);
        let rest = fields.drop_last();
        assert forall|i: int| 0 <= i < rest.len() implies (#[trigger] rest[i]).1.plain(depth) by {
            assert(rest[i] == fields[i]);
        }
        lemma_fields_integral(rest, depth);
        let views = field_views(fields);
        assert(views == field_views(rest).insert(fields.last().0@, fields.last().1@));
        assert forall|name: Seq<char>| views.dom().contains(name) implies (#[trigger] views[name]).integral(depth) by {
            if name == fields.last().0@ {
                assert(views[name] == fields.last().1@);
            } else {
                assert(field_views(rest).dom().contains(name));
                assert(views[name] == field_views(rest)[name]);
            }
        }
    }
}

/// A lookup sees the last field of a name.
pub proof fn lemma_field_views_after(fields: Seq<(String, Document)>, at: int)
    requires
        0 <= at < fields.len(),
        forall|j: int| at < j < fields.len() ==> (#[trigger] fields[j]).0@ != fields[at].0@,
    ensures
        field_views(fields).dom().contains(fields[at].0@),
        field_views(fields)[fields[at].0@] == fields[at].1.view(),
    decreases fields.len(),
{
    if at + 1 < fields.len() {
        assert(fields[fields.len() - 1].0@ != fields[at].0@);
        lemma_field_views_after(fields.drop_last(), at);
    }
}

/// What a lookup sees is the last field of a name.
pub proof fn lemma_field_found(fields: Seq<(String, Document)>, name: Seq<char>) -> (at: int)
    requires
        field_views(fields).dom().contains(name),
    ensures
        0 <= at < fields.len(),
        fields[at].0@ == name,
        forall|j: int| at < j < fields.len() ==> (#[trigger] fields[j]).0@ != name,
        field_views(fields)[name] == fields[at].1.view(),
    decreases fields.len(),
{
    if fields.last().0@ == name {
        fields.len() - 1
    } else {
        let rest = fields.drop_last();
        let at = lemma_field_found(rest, name);
        assert(fields[at] == rest[at]);
        assert forall|j: int| at < j < fields.len() implies (#[trigger] fields[j]).0@ != name by {
            if j < rest.len() {
                assert(rest[j] == fields[j]);
            }
        }
        at
    }
}

/// A name that no field has is not found.
proof fn lemma_field_views_none(fields: Seq<(String, Document)>, name: Seq<char>)
    requires
        forall|j: int| 0 <= j < fields.len() ==> (#[trigger] fields[j]).0@ != name,
    ensures
        !field_views(fields).dom().contains(name),
    decreases fields.len(),
{
    if fields.len() > 0 {
        assert(fields[fields.len() - 1].0@ != name);
        lemma_field_views_none(fields.drop_last(), name);
    }
}

impl Document {
    /// An object without fields.
    pub fn object() -> (r: Document)
        ensures
            r@ == DocumentView::Object(Map::empty()),
            forall|depth: nat| depth > 0 ==> #[trigger] r.plain(depth),
    {
        Document::Object(Vec::new())
    }

    /// A text value.
    pub fn text(text: &str) -> (r: Document)
        ensures
            r@ == DocumentView::Text(text@),
            forall|depth: nat| #[trigger] r.plain(depth),
    {
        Document::Text(text.to_owned())
    }

    /// A text value, or null where there is none.
    pub fn text_or_null(text: &Option<String>) -> (r: Document)
        ensures
            r@ == DocumentView::text_or_null(crate::text::view_of(*text)),
            forall|depth: nat| #[trigger] r.plain(depth),
    {
        match text {
            Some(text) => Document::text(text.as_str()),
            None => Document::Null,
        }
    }

    /// An array of text values.
    pub fn texts(texts: &Vec<String>) -> (r: Document)
        ensures
            r@ == DocumentView::texts(crate::text::views(texts@)),
            forall|depth: nat| depth > 0 ==> #[trigger] r.plain(depth),
    {
        let mut items: Vec<Document> = Vec::new();
        let mut i: usize = 0;
        while i < texts.len()
            invariant
                i <= texts.len(),
                items.len() == i,
                forall|j: int| 0 <= j < i ==> (#[trigger] items@[j])@ == DocumentView::Text(texts@[j]@),
                forall|j: int, depth: nat| 0 <= j < i ==> #[trigger] items@[j].plain(depth),
            decreases texts.len() - i,
        {
            items.push(Document::text(texts[i].as_str()));
            i = i + 1;
        }
        proof {
            lemma_item_views(items@);
            assert(DocumentView::Array(item_views(items@)) == DocumentView::texts(crate::text::views(texts@))) by {
                assert(item_views(items@) =~= Seq::new(
                    crate::text::views(texts@).len(),
                    |i: int| DocumentView::Text(crate::text::views(texts@)[i]),
                ));
            }
        }
        let r = Document::Array(items);
        assert forall|depth: nat| depth > 0 implies #[trigger] r.plain(depth) by {
            assert(forall|j: int| 0 <= j < items@.len() ==> (#[trigger] items@[j]).plain((depth - 1) as nat));
        }
        r
    }

    /// The object with the field `name` set to `value`.
    pub fn with(self, name: &str, value: Document) -> (r: Document)
        requires
            self is Object,
        ensures
            r is Object,
            r@ == DocumentView::Object(self@->Object_0.insert(name@, value@)),
            forall|depth: nat| depth > 0 && self.plain(depth) && value.plain((depth - 1) as nat)
                ==> #[trigger] r.plain(depth),
    {
        match self {
            Document::Object(mut fields) => {
                let ghost before = fields@;
                fields.push((name.to_owned(), value));
                proof {
                    assert(fields@.drop_last() =~= before);
                }
                Document::Object(fields)
            },
            other => other,
        }
    }

    /// The value of the field `name`, where the document is an object that has one.
    pub fn get(&self, name: &str) -> (r: Option<&Document>)
        ensures
            self@.field(name@) == (match r {
                Some(value) => Some(value@),
                None => None,
            }),
    {
        match self {
            Document::Object(fields) => {
                let mut i: usize = fields.len();
                while i > 0
                    invariant
                        i <= fields.len(),
                        forall|j: int| i <= j < fields.len() ==> (#[trigger] fields@[j]).0@ != name@,
                        self@ == DocumentView::Object(field_views(fields@)),
                    decreases i,
                {
                    i = i - 1;
                    if same(fields[i].0.as_str(), name) {
                        proof {
                            lemma_field_views_after(fields@, i as int);
                        }
                        return Some(&fields[i].1);
                    }
                }
                proof {
                    lemma_field_views_none(fields@, name@);
                }
                None
            },
            _ => None,
        }
    }

    /// The text in the field `name`.
    pub fn text_at(&self, name: &str) -> (r: Option<&str>)
        ensures
            self@.text_at(name@) == (match r {
                Some(text) => Some(text@),
                None => None,
            }),
    {
        match self.get(name) {
            Some(Document::Text(text)) => Some(text.as_str()),
            _ => None,
        }
    }

    /// The boolean in the field `name`.
    pub fn bool_at(&self, name: &str) -> (r: Option<bool>)
        ensures
            r == self@.bool_at(name@),
    {
        match self.get(name) {
            Some(Document::Bool(value)) => Some(*value),
            _ => None,
        }
    }

    /// The integer in the field `name`, where it fits `u64`.
    pub fn u64_at(&self, name: &str) -> (r: Option<u64>)
        ensures
            r == self@.u64_at(name@),
    {
        match self.get(name) {
            Some(Document::Unsigned(value)) => Some(*value),
            Some(Document::Signed(value)) => if *value >= 0 {
                Some(*value as u64)
            } else {
                None
            },
            _ => None,
        }
    }

    /// The integer in the field `name`, where it fits `i64`.
    pub fn i64_at(&self, name: &str) -> (r: Option<i64>)
        ensures
            r == self@.i64_at(name@),
    {
        match self.get(name) {
            Some(Document::Unsigned(value)) => if *value <= i64::MAX as u64 {
                Some(*value as i64)
            } else {
                None
            },
            Some(Document::Signed(value)) => Some(*value),
            _ => None,
        }
    }
}

/// What a field holds is read as what it is, and as nothing else; a number only where it fits.
pub proof fn lemma_fields_read(document: DocumentView, name: Seq<char>, value: int, text: Seq<char>, flag: bool)
    ensures
        document.field(name) == Some(DocumentView::Text(text)) ==> document.text_at(name) == Some(
            text,
        ) && document.bool_at(name) is None && document.u64_at(name) is None && document.i64_at(name)
            is None,
        document.field(name) == Some(DocumentView::Bool(flag)) ==> document.bool_at(name) == Some(
            flag,
        ) && document.text_at(name) is None && document.u64_at(name) is None && document.i64_at(name)
            is None,
        document.field(name) == Some(DocumentView::Number(value)) ==> {
            &&& document.text_at(name) is None && document.bool_at(name) is None
            &&& document.u64_at(name) is Some <==> 0 <= value <= 0xffff_ffff_ffff_ffff
            &&& document.i64_at(name) is Some <==> -0x8000_0000_0000_0000 <= value
                <= 0x7fff_ffff_ffff_ffff
            &&& document.u64_at(name) matches Some(number) ==> number == value
            &&& document.i64_at(name) matches Some(number) ==> number == value
        },
        document.field(name) is None || document.field(name) == Some(DocumentView::Null)
            ==> document.text_at(name) is None && document.bool_at(name) is None && document.u64_at(
            name,
        ) is None && document.i64_at(name) is None,
{
}

} // verus!
