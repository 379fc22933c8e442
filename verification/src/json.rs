//! JSON values, as far as their shape and their encoding matter.

use crate::text::{a_separator_stands_between_neighbours, join_texts, joined, texts};
use vstd::prelude::*;

verus! {

/// A JSON value.
#[derive(Debug)]
pub enum Json {
    Null,
    Bool(bool),
    /// A number, in the notation it was written in.
    Number(String),
    Text(String),
    Array(Vec<Json>),
    Object(Vec<Field>),
}

/// A member of a JSON object.
#[derive(Debug)]
pub struct Field {
    pub name: String,
    pub value: Json,
}

/// What `serde_json::to_string` writes for a text: the text in quotes, escaped.
pub uninterp spec fn quoted(s: Seq<char>) -> Seq<char>;

/// `serde_json::to_string` of a text. Which characters are escaped, and how, is left to the
/// crate; what is claimed is that the result depends on the text alone.
#[verifier::external_body]
fn quote(s: &str) -> (q: String)
    ensures
        q@ == quoted(s@),
{
    serde_json::to_string(s).unwrap_or_default()
}

/// The compact encoding of a value: its parts without white space between them.
pub open spec fn encoding(value: Json) -> Seq<char>
    decreases value,
{
    match value {
        Json::Null => "null"@,
        Json::Bool(b) => if b {
            "true"@
        } else {
            "false"@
        },
        Json::Number(n) => n@,
        Json::Text(s) => quoted(s@),
        Json::Array(items) => "["@ + joined(item_encodings(items@), ","@) + "]"@,
        Json::Object(fields) => "{"@ + joined(field_encodings(fields@), ","@) + "}"@,
    }
}

/// The encodings of the items of an array.
pub open spec fn item_encodings(items: Seq<Json>) -> Seq<Seq<char>>
    decreases items,
{
    if items.len() == 0 {
        seq![]
    } else {
        item_encodings(items.drop_last()).push(encoding(items.last()))
    }
}

/// The encodings of the members of an object, each under its quoted name.
pub open spec fn field_encodings(fields: Seq<Field>) -> Seq<Seq<char>>
    decreases fields,
{
    if fields.len() == 0 {
        seq![]
    } else {
        field_encodings(fields.drop_last()).push(
            quoted(fields.last().name@) + ":"@ + encoding(fields.last().value),
        )
    }
}

/// The compact encoding of a value.
pub fn encode(value: &Json) -> (s: String)
    ensures
        s@ == encoding(*value),
    decreases value,
{
    match value {
        Json::Null => "null".to_owned(),
        Json::Bool(b) => if *b {
            "true".to_owned()
        } else {
            "false".to_owned()
        },
        Json::Number(n) => n.clone(),
        Json::Text(text) => quote(text.as_str()),
        Json::Array(items) => {
            let mut parts: Vec<String> = Vec::new();
            let mut i: usize = 0;
            assert(texts(parts@) =~= item_encodings(items@.take(0)));
            while i < items.len()
                invariant
                    i <= items.len(),
                    *value == Json::Array(*items),
                    texts(parts@) == item_encodings(items@.take(i as int)),
                decreases items.len() - i,
            {
                let ghost before = parts@;
                assert(decreases_to!(*value => value->Array_0));
                assert(decreases_to!(*items => items@));
                assert(decreases_to!(items@ => items@[i as int]));
                parts.push(encode(&items[i]));
                proof {
                    let more = items@.take(i + 1);
                    assert(more.drop_last() =~= items@.take(i as int));
                    assert(more.last() == items@[i as int]);
                    assert(texts(parts@) =~= texts(before).push(encoding(items@[i as int])));
                }
                i = i + 1;
            }
            assert(items@.take(i as int) =~= items@);
            let mut s = "[".to_owned();
            s.append(join_texts(&parts, ",").as_str());
            s.append("]");
            s
        },
        Json::Object(fields) => {
            let mut parts: Vec<String> = Vec::new();
            let mut i: usize = 0;
            assert(texts(parts@) =~= field_encodings(fields@.take(0)));
            while i < fields.len()
                invariant
                    i <= fields.len(),
                    *value == Json::Object(*fields),
                    texts(parts@) == field_encodings(fields@.take(i as int)),
                decreases fields.len() - i,
            {
                let ghost before = parts@;
                assert(decreases_to!(*value => value->Object_0));
                assert(decreases_to!(*fields => fields@));
                assert(decreases_to!(fields@ => fields@[i as int]));
                assert(decreases_to!(fields@[i as int] => fields@[i as int].value));
                let mut part = quote(fields[i].name.as_str());
                part.append(":");
                part.append(encode(&fields[i].value).as_str());
                let ghost written = part@;
                parts.push(part);
                proof {
                    let more = fields@.take(i + 1);
                    assert(more.drop_last() =~= fields@.take(i as int));
                    assert(more.last() == fields@[i as int]);
                    assert(texts(parts@) =~= texts(before).push(written));
                }
                i = i + 1;
            }
            assert(fields@.take(i as int) =~= fields@);
            let mut s = "{".to_owned();
            s.append(join_texts(&parts, ",").as_str());
            s.append("}");
            s
        },
    }
}

pub open spec fn larger(a: nat, b: nat) -> nat {
    if a >= b {
        a
    } else {
        b
    }
}

/// Nesting depth of a value: a scalar is 1, `[1]` is 2, `[[1]]` is 3.
pub open spec fn depth(value: Json) -> nat
    decreases value,
{
    match value {
        Json::Array(items) => 1 + items_depth(items@),
        Json::Object(fields) => 1 + fields_depth(fields@),
        _ => 1,
    }
}

/// The depth of the deepest item.
pub open spec fn items_depth(items: Seq<Json>) -> nat
    decreases items,
{
    if items.len() == 0 {
        0
    } else {
        larger(items_depth(items.drop_last()), depth(items.last()))
    }
}

/// The depth of the deepest member.
pub open spec fn fields_depth(fields: Seq<Field>) -> nat
    decreases fields,
{
    if fields.len() == 0 {
        0
    } else {
        larger(fields_depth(fields.drop_last()), depth(fields.last().value))
    }
}

/// How many values a value consists of, itself included.
spec fn size(value: Json) -> nat
    decreases value,
{
    match value {
        Json::Array(items) => 1 + items_size(items@),
        Json::Object(fields) => 1 + fields_size(fields@),
        _ => 1,
    }
}

spec fn items_size(items: Seq<Json>) -> nat
    decreases items,
{
    if items.len() == 0 {
        0
    } else {
        items_size(items.drop_last()) + size(items.last())
    }
}

spec fn fields_size(fields: Seq<Field>) -> nat
    decreases fields,
{
    if fields.len() == 0 {
        0
    } else {
        fields_size(fields.drop_last()) + size(fields.last().value)
    }
}

/// The depth a value reaches from a level where its parents are `above` deep.
spec fn reach(node: (&Json, usize)) -> nat {
    (node.1 as nat + depth(*node.0) - 1) as nat
}

/// The deepest reach on a stack of values still to visit.
spec fn stack_reach(stack: Seq<(&Json, usize)>) -> nat
    decreases stack.len(),
{
    if stack.len() == 0 {
        0
    } else {
        larger(stack_reach(stack.drop_last()), reach(stack.last()))
    }
}

spec fn stack_size(stack: Seq<(&Json, usize)>) -> nat
    decreases stack.len(),
{
    if stack.len() == 0 {
        0
    } else {
        stack_size(stack.drop_last()) + size(*stack.last().0)
    }
}

proof fn values_count(value: Json)
    ensures
        size(value) > 0,
        depth(value) > 0,
{
}

/// `n` capped at the largest length there is.
pub open spec fn capped(n: nat) -> nat {
    if n <= usize::MAX {
        n
    } else {
        usize::MAX as nat
    }
}

proof fn stack_push(stack: Seq<(&Json, usize)>, node: (&Json, usize))
    ensures
        stack_reach(stack.push(node)) == larger(stack_reach(stack), reach(node)),
        stack_size(stack.push(node)) == stack_size(stack) + size(*node.0),
{
    assert(stack.push(node).drop_last() =~= stack);
}

/// Nesting depth of a JSON value, capped at the largest length there is.
///
/// The walk keeps its own stack: the value comes from outside and may be nested far deeper
/// than this program's.
pub fn json_depth(value: &Json) -> (d: usize)
    ensures
        d == capped(depth(*value)),
{
    let mut deepest: usize = 0;
    let mut stack: Vec<(&Json, usize)> = Vec::new();
    stack.push((value, 1));
    proof {
        stack_push(Seq::empty(), (value, 1));
        assert(stack@ =~= Seq::<(&Json, usize)>::empty().push((value, 1usize)));
    }
    while stack.len() > 0
        invariant
            capped(larger(deepest as nat, stack_reach(stack@))) == capped(depth(*value)),
            forall|i: int| 0 <= i < stack@.len() ==> (#[trigger] stack@[i]).1 > 0,
        decreases stack_size(stack@),
    {
        let ghost before = stack@;
        let (node, level) = stack.pop().unwrap();
        assert(before.last() == (node, level));
        assert(before[before.len() - 1].1 > 0);
        let ghost rest = stack@;
        assert(rest =~= before.drop_last());
        let ghost floor = larger(deepest as nat, stack_reach(rest));
        proof {
            values_count(*node);
        }
        if level > deepest {
            deepest = level;
        }
        let below: usize = level.saturating_add(1);
        match node {
            Json::Array(items) => {
                let mut i: usize = 0;
                while i < items.len()
                    invariant
                        i <= items.len(),
                        below == capped(level as nat + 1),
                        level > 0,
                        forall|i: int| 0 <= i < stack@.len() ==> (#[trigger] stack@[i]).1 > 0,
                        stack_size(stack@) == stack_size(rest) + items_size(items@.take(i as int)),
                        capped(larger(level as nat, stack_reach(stack@))) == capped(
                            larger(
                                larger(level as nat, stack_reach(rest)),
                                level as nat + items_depth(items@.take(i as int)),
                            ),
                        ),
                    decreases items.len() - i,
                {
                    let ghost s0 = stack@;
                    stack.push((&items[i], below));
                    proof {
                        stack_push(s0, (&items@[i as int], below));
                        let more = items@.take(i + 1);
                        assert(more.drop_last() =~= items@.take(i as int));
                        assert(more.last() == items@[i as int]);
                        values_count(items@[i as int]);
                    }
                    i = i + 1;
                }
                assert(items@.take(items.len() as int) =~= items@);
            },
            Json::Object(fields) => {
                let mut i: usize = 0;
                while i < fields.len()
                    invariant
                        i <= fields.len(),
                        below == capped(level as nat + 1),
                        level > 0,
                        forall|i: int| 0 <= i < stack@.len() ==> (#[trigger] stack@[i]).1 > 0,
                        stack_size(stack@) == stack_size(rest) + fields_size(
                            fields@.take(i as int),
                        ),
                        capped(larger(level as nat, stack_reach(stack@))) == capped(
                            larger(
                                larger(level as nat, stack_reach(rest)),
                                level as nat + fields_depth(fields@.take(i as int)),
                            ),
                        ),
                    decreases fields.len() - i,
                {
                    let ghost s0 = stack@;
                    stack.push((&fields[i].value, below));
                    proof {
                        stack_push(s0, (&fields@[i as int].value, below));
                        let more = fields@.take(i + 1);
                        assert(more.drop_last() =~= fields@.take(i as int));
                        assert(more.last() == fields@[i as int]);
                        values_count(fields@[i as int].value);
                    }
                    i = i + 1;
                }
                assert(fields@.take(fields.len() as int) =~= fields@);
            },
            _ => {},
        }
    }
    deepest
}

/// A nested value is one level deeper than the deepest of its parts: a scalar is one level deep,
/// as is an empty array or object, every part is less deep than the whole, and one part is just
/// one level less.
pub proof fn a_value_is_one_level_deeper_than_its_parts(value: Json, i: int)
    ensures
        match value {
            Json::Array(items) => {
                &&& items@.len() == 0 ==> depth(value) == 1
                &&& 0 <= i < items@.len() ==> depth(items@[i]) < depth(value)
                &&& items@.len() > 0 ==> exists|k: int|
                    0 <= k < items@.len() && depth(#[trigger] items@[k]) + 1 == depth(value)
            },
            Json::Object(fields) => {
                &&& fields@.len() == 0 ==> depth(value) == 1
                &&& 0 <= i < fields@.len() ==> depth(fields@[i].value) < depth(value)
                &&& fields@.len() > 0 ==> exists|k: int|
                    0 <= k < fields@.len() && depth((#[trigger] fields@[k]).value) + 1 == depth(
                        value,
                    )
            },
            _ => depth(value) == 1,
        },
{
    match value {
        Json::Array(items) => {
            the_deepest_item(items@, i);
        },
        Json::Object(fields) => {
            the_deepest_field(fields@, i);
        },
        _ => {},
    }
}

proof fn the_deepest_item(items: Seq<Json>, i: int)
    ensures
        0 <= i < items.len() ==> depth(items[i]) <= items_depth(items),
        items.len() > 0 ==> exists|k: int|
            0 <= k < items.len() && depth(#[trigger] items[k]) == items_depth(items),
    decreases items.len(),
{
    if items.len() > 0 {
        let front = items.drop_last();
        let last = items.len() - 1;
        the_deepest_item(front, i);
        if 0 <= i < front.len() {
            assert(front[i] == items[i]);
        }
        values_count(items[last]);
        if items_depth(front) >= depth(items.last()) && front.len() > 0 {
            let k = choose|k: int|
                0 <= k < front.len() && depth(#[trigger] front[k]) == items_depth(front);
            assert(depth(items[k]) == items_depth(items));
        } else {
            assert(depth(items[last]) == items_depth(items));
        }
    }
}

proof fn the_deepest_field(fields: Seq<Field>, i: int)
    ensures
        0 <= i < fields.len() ==> depth(fields[i].value) <= fields_depth(fields),
        fields.len() > 0 ==> exists|k: int|
            0 <= k < fields.len() && depth((#[trigger] fields[k]).value) == fields_depth(fields),
    decreases fields.len(),
{
    if fields.len() > 0 {
        let front = fields.drop_last();
        let last = fields.len() - 1;
        the_deepest_field(front, i);
        if 0 <= i < front.len() {
            assert(front[i] == fields[i]);
        }
        values_count(fields[last].value);
        if fields_depth(front) >= depth(fields.last().value) && front.len() > 0 {
            let k = choose|k: int|
                0 <= k < front.len() && depth((#[trigger] front[k]).value) == fields_depth(front);
            assert(depth(fields[k].value) == fields_depth(fields));
        } else {
            assert(depth(fields[last].value) == fields_depth(fields));
        }
    }
}

/// An array is encoded as its items in order, each encoded as it is on its own, with a comma
/// between two neighbours and brackets around: one item more goes behind the others, in front of
/// the closing bracket. An object is encoded in the same way, in braces, each member as its
/// quoted name, a colon and its value.
pub proof fn a_part_is_encoded_in_its_place(
    items: Vec<Json>,
    more_items: Vec<Json>,
    item: Json,
    fields: Vec<Field>,
    more_fields: Vec<Field>,
    field: Field,
)
    requires
        more_items@ == items@.push(item),
        more_fields@ == fields@.push(field),
    ensures
        items@.len() == 0 ==> encoding(Json::Array(items)) == seq!['[', ']'],
        encoding(Json::Array(more_items)) == encoding(Json::Array(items)).drop_last() + (
        if items@.len() == 0 {
            seq![]
        } else {
            seq![',']
        }) + encoding(item) + seq![']'],
        fields@.len() == 0 ==> encoding(Json::Object(fields)) == seq!['{', '}'],
        encoding(Json::Object(more_fields)) == encoding(Json::Object(fields)).drop_last() + (
        if fields@.len() == 0 {
            seq![]
        } else {
            seq![',']
        }) + quoted(field.name@) + seq![':'] + encoding(field.value) + seq!['}'],
{
    reveal_strlit("[");
    reveal_strlit("]");
    reveal_strlit("{");
    reveal_strlit("}");
    reveal_strlit(",");
    reveal_strlit(":");
    assert(more_items@.drop_last() =~= items@);
    assert(more_items@.last() == item);
    assert(more_fields@.drop_last() =~= fields@);
    assert(more_fields@.last() == field);
    let parts = item_encodings(items@);
    let inner = joined(parts, ","@);
    item_encodings_len(items@);
    assert(item_encodings(more_items@) == parts.push(encoding(item)));
    a_separator_stands_between_neighbours(parts, encoding(item), ","@);
    assert(encoding(Json::Array(items)) =~= seq!['['] + inner + seq![']']);
    assert(encoding(Json::Array(items)).drop_last() =~= seq!['['] + inner);
    let entry = quoted(field.name@) + ":"@ + encoding(field.value);
    let named = field_encodings(fields@);
    let within = joined(named, ","@);
    field_encodings_len(fields@);
    assert(field_encodings(more_fields@) == named.push(entry));
    a_separator_stands_between_neighbours(named, entry, ","@);
    assert(encoding(Json::Object(fields)) =~= seq!['{'] + within + seq!['}']);
    assert(encoding(Json::Object(fields)).drop_last() =~= seq!['{'] + within);
    assert(encoding(Json::Array(more_items)) =~= encoding(Json::Array(items)).drop_last() + (
    if items@.len() == 0 {
        seq![]
    } else {
        seq![',']
    }) + encoding(item) + seq![']']);
    assert(encoding(Json::Object(more_fields)) =~= encoding(Json::Object(fields)).drop_last() + (
    if fields@.len() == 0 {
        seq![]
    } else {
        seq![',']
    }) + quoted(field.name@) + seq![':'] + encoding(field.value) + seq!['}']);
}

proof fn item_encodings_len(items: Seq<Json>)
    ensures
        item_encodings(items).len() == items.len(),
    decreases items.len(),
{
    if items.len() > 0 {
        item_encodings_len(items.drop_last());
    }
}

proof fn field_encodings_len(fields: Seq<Field>)
    ensures
        field_encodings(fields).len() == fields.len(),
    decreases fields.len(),
{
    if fields.len() > 0 {
        field_encodings_len(fields.drop_last());
    }
}

/// A scalar is encoded as itself: a number in the notation it was written in, a text in quotes,
/// and the three words as they are.
pub proof fn a_scalar_is_encoded_as_itself(n: String, s: String)
    ensures
        encoding(Json::Number(n)) == n@,
        encoding(Json::Text(s)) == quoted(s@),
        encoding(Json::Null) == seq!['n', 'u', 'l', 'l'],
        encoding(Json::Bool(true)) == seq!['t', 'r', 'u', 'e'],
        encoding(Json::Bool(false)) == seq!['f', 'a', 'l', 's', 'e'],
{
    reveal_strlit("null");
    reveal_strlit("true");
    reveal_strlit("false");
    assert(encoding(Json::Null) =~= seq!['n', 'u', 'l', 'l']);
    assert(encoding(Json::Bool(true)) =~= seq!['t', 'r', 'u', 'e']);
    assert(encoding(Json::Bool(false)) =~= seq!['f', 'a', 'l', 's', 'e']);
}

} // verus!
