//! The item stream of a report and the two renderings of it.

use crate::text::{render_signed, signed_decimal};
use vstd::prelude::*;
use vstd::string::*;

verus! {

/// One item of a report: the start or end of an object, or a field of it.
#[derive(Debug)]
pub enum ItemType {
    NewObject(),
    Int(String, i32),
    Str(String, String),
    EndObject(),
}

pub type ItemTypeVec = Vec<ItemType>;

/// What an item holds, as the renderings read it.
pub ghost enum Item {
    NewObject,
    Int(Seq<char>, int),
    Str(Seq<char>, Seq<char>),
    EndObject,
}

impl View for ItemType {
    type V = Item;

    open spec fn view(&self) -> Item {
        match self {
            ItemType::NewObject() => Item::NewObject,
            ItemType::Int(key, value) => Item::Int(key@, *value as int),
            ItemType::Str(key, value) => Item::Str(key@, value@),
            ItemType::EndObject() => Item::EndObject,
        }
    }
}

/// The items of a stream, each by what it holds.
pub open spec fn views(items: Seq<ItemType>) -> Seq<Item> {
    Seq::new(items.len(), |i: int| items[i]@)
}

/// Whether the item is a field, that is neither the start nor the end of an
/// object.
pub open spec fn is_field(item: Item) -> bool {
    item is Int || item is Str
}

/// Whether a separator is due before item `i`: something stands before it, and
/// that is not the start of an object.
pub open spec fn separator_due(items: Seq<Item>, i: int) -> bool {
    i > 0 && !(items[i - 1] is NewObject)
}

/// The separator between two fields, and between two objects.
pub open spec fn separator() -> Seq<char> {
    seq![',', ' ']
}

/// The plain text of one item: `key: value` for a field, a line end for the end
/// of an object, nothing for its start.
pub open spec fn plain_item(item: Item) -> Seq<char> {
    match item {
        Item::NewObject => Seq::empty(),
        Item::Int(key, value) => key + seq![':', ' '] + signed_decimal(value),
        Item::Str(key, value) => key + seq![':', ' '] + value,
        Item::EndObject => seq!['\n'],
    }
}

/// What item `i` adds to the plain text: its separator, where it is a field and
/// one is due, and its own text.
pub open spec fn plain_piece(items: Seq<Item>, i: int) -> Seq<char> {
    if is_field(items[i]) && separator_due(items, i) {
        separator() + plain_item(items[i])
    } else {
        plain_item(items[i])
    }
}

/// The plain text of the first `n` items.
pub open spec fn plain_prefix(items: Seq<Item>, n: nat) -> Seq<char>
    decreases n,
{
    if n == 0 {
        Seq::empty()
    } else {
        plain_prefix(items, (n - 1) as nat) + plain_piece(items, n - 1)
    }
}

/// The plain text of a stream: one line for each object, its fields separated
/// by a comma and a space.
pub open spec fn plain_text(items: Seq<Item>) -> Seq<char> {
    plain_prefix(items, items.len())
}

/// The JSON-like text of one item: a brace for the start and the end of an
/// object, `"key": value` for a number, `"key": "value"` for a string.
pub open spec fn json_item(item: Item) -> Seq<char> {
    match item {
        Item::NewObject => seq!['{'],
        Item::Int(key, value) => seq!['"'] + key + seq!['"', ':', ' '] + signed_decimal(value),
        Item::Str(key, value) => seq!['"'] + key + seq!['"', ':', ' ', '"'] + value + seq!['"'],
        Item::EndObject => seq!['}'],
    }
}

/// What item `i` adds to the JSON-like text: its separator, where one is due and
/// the item does not end an object, and its own text.
pub open spec fn json_piece(items: Seq<Item>, i: int) -> Seq<char> {
    if !(items[i] is EndObject) && separator_due(items, i) {
        separator() + json_item(items[i])
    } else {
        json_item(items[i])
    }
}

/// The JSON-like text of the first `n` items, without the brackets around it.
pub open spec fn json_prefix(items: Seq<Item>, n: nat) -> Seq<char>
    decreases n,
{
    if n == 0 {
        Seq::empty()
    } else {
        json_prefix(items, (n - 1) as nat) + json_piece(items, n - 1)
    }
}

/// The JSON-like text of a stream: the objects in square brackets, separated by
/// a comma and a space, and so the fields of each object in its braces.
pub open spec fn json_text(items: Seq<Item>) -> Seq<char> {
    seq!['['] + json_prefix(items, items.len()) + seq![']']
}

/// A rendering of the item stream of a report.
pub trait ReportFormatter {
    /// The text that this formatter gives for a stream.
    spec fn rendering(&self, items: Seq<Item>) -> Seq<char>;

    fn format(&self, m: &ItemTypeVec) -> (out: String)
        ensures
            out@ == self.rendering(views(m@)),
    ;
}

pub struct PlainTextFormatter {}

impl ReportFormatter for PlainTextFormatter {
    open spec fn rendering(&self, items: Seq<Item>) -> Seq<char> {
        plain_text(items)
    }

    fn format(&self, m: &ItemTypeVec) -> (out: String) {
        let mut result = String::new();
        let mut add_comma = false;
        let mut idx: usize = 0;
        let ghost items = views(m@);
        while idx < m.len()
            invariant
                idx <= m.len(),
                items == views(m@),
                idx < m.len() ==> add_comma == separator_due(items, idx as int),
                result@ == plain_prefix(items, idx as nat),
            decreases m.len() - idx,
        {
            let ghost before = result@;
            let item = &m[idx];
            proof {
                reveal_strlit(", ");
                reveal_strlit(": ");
                reveal_strlit("\n");
                assert(items[idx as int] == item@);
            }
            match item {
                ItemType::NewObject() | ItemType::EndObject() => (),
                _ => {
                    if add_comma {
                        result.append(", ");
                    }
                },
            }
            let ghost mid = result@;
            assert(mid == if is_field(item@) && add_comma {
                before + separator()
            } else {
                before
            }) by {
                assert(", "@ =~= separator());
            }
            match item {
                ItemType::Int(key, i) => {
                    result.append(key.as_str());
                    result.append(": ");
                    let digits = render_signed(*i as i64);
                    result.append(digits.as_str());
                    assert(result@ =~= mid + plain_item(item@));
                },
                ItemType::Str(key, s) => {
                    result.append(key.as_str());
                    result.append(": ");
                    result.append(s.as_str());
                    assert(result@ =~= mid + plain_item(item@));
                },
                ItemType::EndObject() => {
                    result.append("\n");
                    assert(result@ =~= mid + plain_item(item@));
                },
                ItemType::NewObject() => {
                    assert(result@ =~= mid + plain_item(item@));
                },
            }
            assert(result@ =~= before + plain_piece(items, idx as int));
            add_comma = idx != m.len() - 1;
            if let ItemType::NewObject() = item {
                add_comma = false;
            }
            idx = idx + 1;
        }
        result
    }
}

pub struct JsonFormatter {}

impl ReportFormatter for JsonFormatter {
    open spec fn rendering(&self, items: Seq<Item>) -> Seq<char> {
        json_text(items)
    }

    fn format(&self, m: &ItemTypeVec) -> (out: String) {
        let mut result = String::new();
        result.append("[");
        let mut add_comma = false;
        let mut idx: usize = 0;
        let ghost items = views(m@);
        proof {
            reveal_strlit("[");
            assert(result@ =~= seq!['[']);
        }
        while idx < m.len()
            invariant
                idx <= m.len(),
                items == views(m@),
                idx < m.len() ==> add_comma == separator_due(items, idx as int),
                result@ == seq!['['] + json_prefix(items, idx as nat),
            decreases m.len() - idx,
        {
            let ghost before = result@;
            let item = &m[idx];
            proof {
                reveal_strlit(", ");
                reveal_strlit("{");
                reveal_strlit("}");
                reveal_strlit("\"");
                reveal_strlit("\": ");
                reveal_strlit("\": \"");
                assert(items[idx as int] == item@);
            }
            if let ItemType::EndObject() = item {
            } else if add_comma {
                result.append(", ");
            }
            let ghost mid = result@;
            assert(mid == if !(item@ is EndObject) && add_comma {
                before + separator()
            } else {
                before
            }) by {
                assert(", "@ =~= separator());
            }
            match item {
                ItemType::Int(key, i) => {
                    result.append("\"");
                    result.append(key.as_str());
                    result.append("\": ");
                    let digits = render_signed(*i as i64);
                    result.append(digits.as_str());
                    assert(result@ =~= mid + json_item(item@));
                },
                ItemType::Str(key, s) => {
                    result.append("\"");
                    result.append(key.as_str());
                    result.append("\": \"");
                    result.append(s.as_str());
                    result.append("\"");
                    assert(result@ =~= mid + json_item(item@));
                },
                ItemType::NewObject() => {
                    result.append("{");
                    assert(result@ =~= mid + json_item(item@));
                },
                ItemType::EndObject() => {
                    result.append("}");
                    assert(result@ =~= mid + json_item(item@));
                },
            }
            assert(result@ =~= before + json_piece(items, idx as int));
            assert(result@ =~= seq!['['] + json_prefix(items, (idx + 1) as nat));
            add_comma = idx != m.len() - 1;
            if let ItemType::NewObject() = item {
                add_comma = false;
            }
            idx = idx + 1;
        }
        result.append("]");
        proof {
            reveal_strlit("]");
            assert(result@ =~= json_text(items));
        }
        result
    }
}

/// The items of the fields of an object whose values are all strings, each
/// field a key and its value.
pub open spec fn field_items(fields: Seq<(Seq<char>, Seq<char>)>) -> Seq<Item> {
    Seq::new(fields.len(), |i: int| Item::Str(fields[i].0, fields[i].1))
}

/// The items of a whole object: its start, its fields, its end.
pub open spec fn object_items(fields: Seq<(Seq<char>, Seq<char>)>) -> Seq<Item> {
    seq![Item::NewObject] + field_items(fields) + seq![Item::EndObject]
}

/// The items of `objects`, one whole object after the other.
pub open spec fn objects_items(objects: Seq<Seq<(Seq<char>, Seq<char>)>>) -> Seq<Item>
    decreases objects.len(),
{
    if objects.len() == 0 {
        Seq::empty()
    } else {
        objects_items(objects.drop_last()) + object_items(objects.last())
    }
}

/// The fields as `"key": "value"`, with a comma and a space between one and the
/// next.
pub open spec fn json_fields(fields: Seq<(Seq<char>, Seq<char>)>) -> Seq<char>
    decreases fields.len(),
{
    if fields.len() == 0 {
        Seq::empty()
    } else if fields.len() == 1 {
        json_item(Item::Str(fields[0].0, fields[0].1))
    } else {
        json_fields(fields.drop_last()) + separator() + json_item(
            Item::Str(fields.last().0, fields.last().1),
        )
    }
}

/// An object in braces.
pub open spec fn json_object(fields: Seq<(Seq<char>, Seq<char>)>) -> Seq<char> {
    seq!['{'] + json_fields(fields) + seq!['}']
}

/// The objects, each in its braces, with a comma and a space between one and
/// the next.
pub open spec fn json_objects(objects: Seq<Seq<(Seq<char>, Seq<char>)>>) -> Seq<char>
    decreases objects.len(),
{
    if objects.len() == 0 {
        Seq::empty()
    } else if objects.len() == 1 {
        json_object(objects[0])
    } else {
        json_objects(objects.drop_last()) + separator() + json_object(objects.last())
    }
}

/// The items of two lists of objects, one after the other, are the items of
/// the one list and then those of the other.
pub proof fn lemma_objects_items_concat(
    a: Seq<Seq<(Seq<char>, Seq<char>)>>,
    b: Seq<Seq<(Seq<char>, Seq<char>)>>,
)
    ensures
        objects_items(a + b) == objects_items(a) + objects_items(b),
    decreases b.len(),
{
    if b.len() == 0 {
        assert(a + b =~= a);
        assert(objects_items(a) + objects_items(b) =~= objects_items(a));
    } else {
        lemma_objects_items_concat(a, b.drop_last());
        assert((a + b).drop_last() =~= a + b.drop_last());
        assert((a + b).last() == b.last());
        assert(objects_items(a) + objects_items(b.drop_last()) + object_items(b.last())
            =~= objects_items(a) + (objects_items(b.drop_last()) + object_items(b.last())));
    }
}

/// The JSON-like text of the first `n` items is that of any stream that begins
/// with the same `n` items.
pub proof fn lemma_json_prefix_local(x: Seq<Item>, y: Seq<Item>, n: nat)
    requires
        n <= x.len(),
        n <= y.len(),
        forall|i: int| 0 <= i < n ==> x[i] == y[i],
    ensures
        json_prefix(x, n) == json_prefix(y, n),
    decreases n,
{
    if n > 0 {
        lemma_json_prefix_local(x, y, (n - 1) as nat);
        assert(json_piece(x, n - 1) == json_piece(y, n - 1));
    }
}

/// After the start of an object that stands at place `at`, the fields add their
/// keys and values, with a comma and a space between them.
proof fn lemma_json_fields(items: Seq<Item>, at: int, fields: Seq<(Seq<char>, Seq<char>)>)
    requires
        0 <= at,
        at + 1 + fields.len() <= items.len(),
        items[at] is NewObject,
        forall|i: int|
            0 <= i < fields.len() ==> #[trigger] items[at + 1 + i] == Item::Str(
                fields[i].0,
                fields[i].1,
            ),
    ensures
        json_prefix(items, (at + 1 + fields.len()) as nat) == json_prefix(items, (at + 1) as nat)
            + json_fields(fields),
    decreases fields.len(),
{
    let k = fields.len() as int;
    let start = json_prefix(items, (at + 1) as nat);
    if k == 0 {
        assert(start + Seq::<char>::empty() =~= start);
    } else {
        let rest = fields.drop_last();
        assert forall|i: int| 0 <= i < rest.len() implies #[trigger] items[at + 1 + i] == Item::Str(
            rest[i].0,
            rest[i].1,
        ) by {
            assert(rest[i] == fields[i]);
        }
        lemma_json_fields(items, at, rest);
        let here = at + k;
        assert(items[here] == Item::Str(fields.last().0, fields.last().1)) by {
            assert(items[at + 1 + (k - 1)] == Item::Str(fields[k - 1].0, fields[k - 1].1));
        }
        let text = json_item(Item::Str(fields.last().0, fields.last().1));
        if k == 1 {
            assert(json_piece(items, here) == text);
            assert(json_fields(rest) =~= Seq::<char>::empty());
            assert(start + json_fields(rest) + text =~= start + text);
        } else {
            assert(items[here - 1] == Item::Str(fields[k - 2].0, fields[k - 2].1)) by {
                assert(items[at + 1 + (k - 2)] == Item::Str(fields[k - 2].0, fields[k - 2].1));
            }
            assert(json_piece(items, here) == separator() + text);
            assert(start + json_fields(rest) + (separator() + text) =~= start + (json_fields(rest)
                + separator() + text));
        }
    }
}

/// A whole object that follows a stream adds itself in braces, after a comma
/// and a space unless the stream is empty. The stream must not end with the
/// start of an object.
pub proof fn lemma_json_object_added(before: Seq<Item>, fields: Seq<(Seq<char>, Seq<char>)>)
    requires
        before.len() > 0 ==> !(before.last() is NewObject),
    ensures
        json_prefix(
            before + object_items(fields),
            (before + object_items(fields)).len(),
        ) == json_prefix(before, before.len()) + (if before.len() > 0 {
            separator()
        } else {
            Seq::empty()
        }) + json_object(fields),
{
    let items = before + object_items(fields);
    let at = before.len() as int;
    let count = fields.len() as int;
    assert(items.len() == at + count + 2);
    assert(items[at] is NewObject);
    assert forall|i: int| 0 <= i < count implies #[trigger] items[at + 1 + i] == Item::Str(
        fields[i].0,
        fields[i].1,
    ) by {
        assert(object_items(fields)[1 + i] == field_items(fields)[i]);
    }
    assert(items[at + 1 + count] is EndObject) by {
        assert(object_items(fields)[1 + count] == Item::EndObject);
    }
    lemma_json_prefix_local(items, before, before.len());
    let lead = if before.len() > 0 {
        separator()
    } else {
        Seq::<char>::empty()
    };
    assert(json_piece(items, at) == lead + seq!['{']) by {
        if at > 0 {
            assert(items[at - 1] == before.last());
        } else {
            assert(Seq::<char>::empty() + seq!['{'] =~= seq!['{']);
        }
    }
    lemma_json_fields(items, at, fields);
    assert(json_piece(items, at + 1 + count) == seq!['}']);
    let start = json_prefix(before, before.len());
    assert(json_prefix(items, (at + 1) as nat) == start + (lead + seq!['{']));
    assert(json_prefix(items, (at + 1 + count) as nat) == start + (lead + seq!['{']) + json_fields(
        fields,
    ));
    assert(json_prefix(items, (at + 2 + count) as nat) == json_prefix(
        items,
        (at + 1 + count) as nat,
    ) + seq!['}']);
    assert(start + (lead + seq!['{']) + json_fields(fields) + seq!['}'] =~= start + lead
        + json_object(fields));
}

/// A stream of whole objects whose values are strings is rendered as a list:
/// in square brackets the objects, each in its braces with its fields as
/// `"key": "value"`, and a comma and a space between two objects and between
/// two fields. So the list has as many objects as the stream, and each object
/// its keys in the order of the stream.
pub proof fn lemma_json_shape(objects: Seq<Seq<(Seq<char>, Seq<char>)>>)
    ensures
        json_text(objects_items(objects)) == seq!['['] + json_objects(objects) + seq![']'],
{
    lemma_json_objects(objects);
}

/// The objects of a stream of whole objects are rendered each in its braces,
/// with a comma and a space between them.
proof fn lemma_json_objects(objects: Seq<Seq<(Seq<char>, Seq<char>)>>)
    ensures
        json_prefix(objects_items(objects), objects_items(objects).len()) == json_objects(objects),
        objects.len() == 0 ==> objects_items(objects).len() == 0,
        objects.len() > 0 ==> objects_items(objects).len() > 0 && objects_items(objects).last()
            is EndObject,
    decreases objects.len(),
{
    if objects.len() > 0 {
        let rest = objects.drop_last();
        lemma_json_objects(rest);
        let before = objects_items(rest);
        let fields = objects.last();
        lemma_json_object_added(before, fields);
        let items = objects_items(objects);
        assert(items == before + object_items(fields));
        assert(object_items(fields).len() == fields.len() + 2);
        assert(items.last() == object_items(fields)[fields.len() as int + 1]);
        if objects.len() == 1 {
            assert(Seq::<char>::empty() + Seq::<char>::empty() + json_object(fields)
                =~= json_object(fields));
        }
    }
}

/// The fields as `key: value`, with a comma and a space between one and the
/// next.
pub open spec fn plain_fields(fields: Seq<(Seq<char>, Seq<char>)>) -> Seq<char>
    decreases fields.len(),
{
    if fields.len() == 0 {
        Seq::empty()
    } else if fields.len() == 1 {
        plain_item(Item::Str(fields[0].0, fields[0].1))
    } else {
        plain_fields(fields.drop_last()) + separator() + plain_item(
            Item::Str(fields.last().0, fields.last().1),
        )
    }
}

/// An object as a line: its fields and a line end.
pub open spec fn plain_line(fields: Seq<(Seq<char>, Seq<char>)>) -> Seq<char> {
    plain_fields(fields) + seq!['\n']
}

/// The objects, each as its line, one line after the other.
pub open spec fn plain_lines(objects: Seq<Seq<(Seq<char>, Seq<char>)>>) -> Seq<char>
    decreases objects.len(),
{
    if objects.len() == 0 {
        Seq::empty()
    } else {
        plain_lines(objects.drop_last()) + plain_line(objects.last())
    }
}

/// The plain text of the first `n` items is that of any stream that begins
/// with the same `n` items.
pub proof fn lemma_plain_prefix_local(x: Seq<Item>, y: Seq<Item>, n: nat)
    requires
        n <= x.len(),
        n <= y.len(),
        forall|i: int| 0 <= i < n ==> x[i] == y[i],
    ensures
        plain_prefix(x, n) == plain_prefix(y, n),
    decreases n,
{
    if n > 0 {
        lemma_plain_prefix_local(x, y, (n - 1) as nat);
        assert(plain_piece(x, n - 1) == plain_piece(y, n - 1));
    }
}

/// After the start of an object that stands at place `at`, the fields add their
/// keys and values, with a comma and a space between them.
proof fn lemma_plain_fields(items: Seq<Item>, at: int, fields: Seq<(Seq<char>, Seq<char>)>)
    requires
        0 <= at,
        at + 1 + fields.len() <= items.len(),
        items[at] is NewObject,
        forall|i: int|
            0 <= i < fields.len() ==> #[trigger] items[at + 1 + i] == Item::Str(
                fields[i].0,
                fields[i].1,
            ),
    ensures
        plain_prefix(items, (at + 1 + fields.len()) as nat) == plain_prefix(
            items,
            (at + 1) as nat,
        ) + plain_fields(fields),
    decreases fields.len(),
{
    let k = fields.len() as int;
    let start = plain_prefix(items, (at + 1) as nat);
    if k == 0 {
        assert(start + Seq::<char>::empty() =~= start);
    } else {
        let rest = fields.drop_last();
        assert forall|i: int| 0 <= i < rest.len() implies #[trigger] items[at + 1 + i] == Item::Str(
            rest[i].0,
            rest[i].1,
        ) by {
            assert(rest[i] == fields[i]);
        }
        lemma_plain_fields(items, at, rest);
        let here = at + k;
        assert(items[here] == Item::Str(fields.last().0, fields.last().1)) by {
            assert(items[at + 1 + (k - 1)] == Item::Str(fields[k - 1].0, fields[k - 1].1));
        }
        let text = plain_item(Item::Str(fields.last().0, fields.last().1));
        if k == 1 {
            assert(plain_piece(items, here) == text);
            assert(plain_fields(rest) =~= Seq::<char>::empty());
            assert(start + plain_fields(rest) + text =~= start + text);
        } else {
            assert(items[here - 1] == Item::Str(fields[k - 2].0, fields[k - 2].1)) by {
                assert(items[at + 1 + (k - 2)] == Item::Str(fields[k - 2].0, fields[k - 2].1));
            }
            assert(plain_piece(items, here) == separator() + text);
            assert(start + plain_fields(rest) + (separator() + text) =~= start + (plain_fields(rest)
                + separator() + text));
        }
    }
}

/// A whole object that follows a stream adds itself as a line, whatever the
/// stream holds.
pub proof fn lemma_plain_object_added(before: Seq<Item>, fields: Seq<(Seq<char>, Seq<char>)>)
    ensures
        plain_prefix(
            before + object_items(fields),
            (before + object_items(fields)).len(),
        ) == plain_prefix(before, before.len()) + plain_line(fields),
{
    let items = before + object_items(fields);
    let at = before.len() as int;
    let count = fields.len() as int;
    assert(items.len() == at + count + 2);
    assert(items[at] is NewObject);
    assert forall|i: int| 0 <= i < count implies #[trigger] items[at + 1 + i] == Item::Str(
        fields[i].0,
        fields[i].1,
    ) by {
        assert(object_items(fields)[1 + i] == field_items(fields)[i]);
    }
    assert(items[at + 1 + count] is EndObject) by {
        assert(object_items(fields)[1 + count] == Item::EndObject);
    }
    lemma_plain_prefix_local(items, before, before.len());
    let start = plain_prefix(before, before.len());
    assert(plain_piece(items, at) =~= Seq::<char>::empty());
    assert(plain_prefix(items, (at + 1) as nat) =~= start);
    lemma_plain_fields(items, at, fields);
    assert(plain_piece(items, at + 1 + count) == seq!['\n']);
    assert(plain_prefix(items, (at + 2 + count) as nat) == plain_prefix(
        items,
        (at + 1 + count) as nat,
    ) + seq!['\n']);
    assert(start + plain_fields(fields) + seq!['\n'] =~= start + plain_line(fields));
}

/// A stream of whole objects whose values are strings is rendered in plain
/// text as one line for each object: its fields as `key: value` with a comma
/// and a space between two of them, and a line end. So the text has as many
/// lines as the stream has objects, in the order of the stream.
pub proof fn lemma_plain_shape(objects: Seq<Seq<(Seq<char>, Seq<char>)>>)
    ensures
        plain_text(objects_items(objects)) == plain_lines(objects),
    decreases objects.len(),
{
    if objects.len() > 0 {
        lemma_plain_shape(objects.drop_last());
        lemma_plain_object_added(objects_items(objects.drop_last()), objects.last());
    }
}

} // verus!
