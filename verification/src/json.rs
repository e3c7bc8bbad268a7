//! JSON values as the library reads and builds them, and their exchange with `serde_json`.
use crate::text::{opt_text, same_text, texts};
use vstd::prelude::*;

verus! {

/// A JSON value.
///
/// A number that is not an integer of 64 bits keeps its text. Where a name occurs twice among
/// the fields of an object, the later field counts.
#[derive(Debug, PartialEq)]
pub enum Json {
    Null,
    Bool(bool),
    Unsigned(u64),
    Signed(i64),
    Fraction(String),
    Text(String),
    List(Vec<Json>),
    Object(Vec<(String, Json)>),
}

/// What a JSON value is, apart from how it is held: an object is a map from names to values.
pub enum JsonView {
    Null,
    Bool(bool),
    Integer(int),
    Fraction(Seq<char>),
    Text(Seq<char>),
    List(Seq<JsonView>),
    Object(Map<Seq<char>, JsonView>),
}

/// What `json` is.
pub open spec fn json_view(json: Json) -> JsonView
    decreases json,
{
    match json {
        Json::Null => JsonView::Null,
        Json::Bool(value) => JsonView::Bool(value),
        Json::Unsigned(value) => JsonView::Integer(value as int),
        Json::Signed(value) => JsonView::Integer(value as int),
        Json::Fraction(text) => fraction_view(text@),
        Json::Text(text) => JsonView::Text(text@),
        Json::List(items) => JsonView::List(list_view(items@)),
        Json::Object(fields) => JsonView::Object(object_view(fields@)),
    }
}

/// What `items` are, one by one.
pub open spec fn list_view(items: Seq<Json>) -> Seq<JsonView>
    decreases items,
{
    if items.len() == 0 {
        Seq::empty()
    } else {
        list_view(items.drop_last()).push(json_view(items.last()))
    }
}

/// The map that holds `fields`, the later of two fields of one name winning.
pub open spec fn object_view(fields: Seq<(String, Json)>) -> Map<Seq<char>, JsonView>
    decreases fields,
{
    if fields.len() == 0 {
        Map::empty()
    } else {
        object_view(fields.drop_last()).insert(fields.last().0@, json_view(fields.last().1))
    }
}

impl View for Json {
    type V = JsonView;

    open spec fn view(&self) -> JsonView {
        json_view(*self)
    }
}

/// The type `serde_json::Value`.
#[verifier::external_type_specification]
#[verifier::external_body]
pub struct ExValue(serde_json::Value);

/// What a `serde_json::Value` holds.
pub uninterp spec fn json_of(value: serde_json::Value) -> JsonView;

/// The text that a `serde_json::Number` prints that was made from the float that `text` spells,
/// as `serde_json::Number::from_f64` makes it: none where `text` spells no finite float.
pub uninterp spec fn float_text(text: Seq<char>) -> Option<Seq<char>>;

/// What a value holds that was made from the float that `text` spells.
pub open spec fn fraction_view(text: Seq<char>) -> JsonView {
    match float_text(text) {
        Some(printed) => JsonView::Fraction(printed),
        None => JsonView::Null,
    }
}

/// What `items` hold, one by one.
pub open spec fn values_view(items: Seq<serde_json::Value>) -> Seq<JsonView> {
    items.map_values(|item: serde_json::Value| json_of(item))
}

/// The map that holds `fields`, the later of two fields of one name winning.
pub open spec fn members_view(fields: Seq<(String, serde_json::Value)>) -> Map<Seq<char>, JsonView>
    decreases fields.len(),
{
    if fields.len() == 0 {
        Map::empty()
    } else {
        members_view(fields.drop_last()).insert(fields.last().0@, json_of(fields.last().1))
    }
}

/// No name occurs twice among `fields`.
pub open spec fn distinct_names(fields: Seq<(String, serde_json::Value)>) -> bool {
    forall|i: int, j: int| 0 <= i < j < fields.len() ==> fields[i].0@ != fields[j].0@
}

/// The outermost layer of a `serde_json::Value`.
pub enum JsonNode {
    Null,
    Bool(bool),
    Unsigned(u64),
    Signed(i64),
    Fraction(String),
    Text(String),
    List(Vec<serde_json::Value>),
    Object(Vec<(String, serde_json::Value)>),
}

/// What a value holds whose outermost layer is `node`.
pub open spec fn node_view(node: JsonNode) -> JsonView {
    match node {
        JsonNode::Null => JsonView::Null,
        JsonNode::Bool(flag) => JsonView::Bool(flag),
        JsonNode::Unsigned(number) => JsonView::Integer(number as int),
        JsonNode::Signed(number) => JsonView::Integer(number as int),
        JsonNode::Fraction(text) => fraction_view(text@),
        JsonNode::Text(text) => JsonView::Text(text@),
        JsonNode::List(items) => JsonView::List(values_view(items@)),
        JsonNode::Object(fields) => JsonView::Object(members_view(fields@)),
    }
}

/// Makes the `serde_json::Value` of the variant that `node` tells: an integer through
/// `Value::from`, a float through `serde_json::Number::from_f64` (null where the text spells no
/// finite float), an object by collecting its fields into a `serde_json::Map`, which has each of
/// them as long as no name occurs twice. The value then holds what `node` says.
#[verifier::external_body]
fn node_value(node: JsonNode) -> (value: serde_json::Value)
    requires
        node matches JsonNode::Object(fields) ==> distinct_names(fields@),
    ensures
        json_of(value) == node_view(node),
        node matches JsonNode::Fraction(text) ==> json_of(value) == (match float_text(text@) {
            Some(printed) => JsonView::Fraction(printed),
            None => JsonView::Null,
        }),
{
    match node {
        JsonNode::Null => serde_json::Value::Null,
        JsonNode::Bool(flag) => serde_json::Value::Bool(flag),
        JsonNode::Unsigned(number) => serde_json::Value::from(number),
        JsonNode::Signed(number) => serde_json::Value::from(number),
        JsonNode::Fraction(text) => text.parse().ok().and_then(
            serde_json::Number::from_f64,
        ).map_or(serde_json::Value::Null, serde_json::Value::Number),
        JsonNode::Text(text) => serde_json::Value::String(text),
        JsonNode::List(items) => serde_json::Value::Array(items),
        JsonNode::Object(fields) => serde_json::Value::Object(fields.into_iter().collect()),
    }
}

/// Takes a `serde_json::Value` apart by its variant: an integer as `as_u64` or `as_i64` gives
/// it, a float as the text that `serde_json::Number` prints, which spells that float again, an
/// object as the fields of its map, each name once. The parts hold what the value held.
#[verifier::external_body]
fn value_node(value: serde_json::Value) -> (node: JsonNode)
    ensures
        node_view(node) == json_of(value),
        node matches JsonNode::Object(fields) ==> distinct_names(fields@),
{
    match value {
        serde_json::Value::Null => JsonNode::Null,
        serde_json::Value::Bool(flag) => JsonNode::Bool(flag),
        serde_json::Value::Number(number) => match (number.as_u64(), number.as_i64()) {
            (Some(integer), _) => JsonNode::Unsigned(integer),
            (None, Some(integer)) => JsonNode::Signed(integer),
            (None, None) => JsonNode::Fraction(number.to_string()),
        },
        serde_json::Value::String(text) => JsonNode::Text(text),
        serde_json::Value::Array(items) => JsonNode::List(items),
        serde_json::Value::Object(fields) => JsonNode::Object(fields.into_iter().collect()),
    }
}

/// The `serde_json::Value` that holds `json`.
pub fn to_value(json: &Json) -> (value: serde_json::Value)
    ensures
        json_of(value) == json@,
    decreases json,
{
    match json {
        Json::Null => node_value(JsonNode::Null),
        Json::Bool(flag) => node_value(JsonNode::Bool(*flag)),
        Json::Unsigned(number) => node_value(JsonNode::Unsigned(*number)),
        Json::Signed(number) => node_value(JsonNode::Signed(*number)),
        Json::Fraction(text) => node_value(JsonNode::Fraction(text.clone())),
        Json::Text(text) => node_value(JsonNode::Text(text.clone())),
        Json::List(items) => {
            let mut values: Vec<serde_json::Value> = Vec::new();
            for i in 0..items.len()
                invariant
                    json == Json::List(*items),
                    list_view(items@.take(i as int)) =~= values_view(values@),
            {
                proof {
                    assert(decreases_to!(json => json->List_0));
                    assert(decreases_to!(items => items@));
                    assert(decreases_to!(items@ => items@[i as int]));
                    assert(items@.take(i + 1).drop_last() =~= items@.take(i as int));
                }
                values.push(to_value(&items[i]));
            }
            assert(items@.take(items@.len() as int) =~= items@);
            node_value(JsonNode::List(values))
        },
        Json::Object(fields) => {
            let members = without_overridden(to_members(fields));
            node_value(JsonNode::Object(members))
        },
    }
}

/// The names of `fields`, each with the `serde_json::Value` that holds its value.
pub fn to_members(fields: &Vec<(String, Json)>) -> (members: Vec<(String, serde_json::Value)>)
    ensures
        members@.len() == fields@.len(),
        forall|i: int|
            0 <= i < fields@.len() ==> (#[trigger] members@[i]).0@ == fields@[i].0@ && json_of(
                members@[i].1,
            ) == fields@[i].1@,
        members_view(members@) == object_view(fields@),
    decreases fields,
{
    let mut members: Vec<(String, serde_json::Value)> = Vec::new();
    for i in 0..fields.len()
        invariant
            members@.len() == i,
            forall|k: int|
                0 <= k < i ==> (#[trigger] members@[k]).0@ == fields@[k].0@ && json_of(members@[k].1)
                    == fields@[k].1@,
            members_view(members@) == object_view(fields@.take(i as int)),
    {
        proof {
            assert(decreases_to!(fields => fields@));
            assert(decreases_to!(fields@ => fields@[i as int]));
            assert(decreases_to!(fields@[i as int] => fields@[i as int].1));
            assert(fields@.take(i + 1).drop_last() =~= fields@.take(i as int));
        }
        let ghost before = members@;
        members.push((fields[i].0.clone(), to_value(&fields[i].1)));
        assert(members@.drop_last() =~= before);
    }
    assert(fields@.take(fields@.len() as int) =~= fields@);
    members
}

proof fn lemma_members_view_lacks(fields: Seq<(String, serde_json::Value)>, name: Seq<char>)
    requires
        forall|i: int| 0 <= i < fields.len() ==> (#[trigger] fields[i]).0@ != name,
    ensures
        !members_view(fields).contains_key(name),
    decreases fields.len(),
{
    if fields.len() > 0 {
        assert forall|i: int| 0 <= i < fields.drop_last().len() implies (
        #[trigger] fields.drop_last()[i]).0@ != name by {
            assert(fields.drop_last()[i] == fields[i]);
        }
        lemma_members_view_lacks(fields.drop_last(), name);
        assert(fields[fields.len() - 1].0@ != name);
    }
}

proof fn lemma_members_view_without(fields: Seq<(String, serde_json::Value)>, at: int)
    requires
        distinct_names(fields),
        0 <= at < fields.len(),
    ensures
        members_view(fields.remove(at)) == members_view(fields).remove(fields[at].0@),
    decreases fields.len(),
{
    let before = fields.drop_last();
    if at == fields.len() - 1 {
        assert(fields.remove(at) =~= before);
        lemma_members_view_lacks(before, fields[at].0@);
    } else {
        lemma_members_view_without(before, at);
        assert(fields.remove(at).drop_last() =~= before.remove(at));
        assert(fields.remove(at).last() == fields.last());
        assert(fields[at].0@ != fields[fields.len() - 1].0@);
    }
    assert(members_view(fields.remove(at)) =~= members_view(fields).remove(fields[at].0@));
}

/// The place of the member of a name, if there is one.
fn member_at(members: &Vec<(String, serde_json::Value)>, name: &str) -> (at: Option<usize>)
    ensures
        match at {
            Some(at) => at < members@.len() && members@[at as int].0@ == name@,
            None => forall|i: int| 0 <= i < members@.len() ==> (#[trigger] members@[i]).0@ != name@,
        },
{
    for i in 0..members.len()
        invariant
            forall|k: int| 0 <= k < i ==> (#[trigger] members@[k]).0@ != name@,
    {
        if same_text(members[i].0.as_str(), name) {
            return Some(i);
        }
    }
    None
}

/// `members` without those that a later one of the same name overrides.
fn without_overridden(members: Vec<(String, serde_json::Value)>) -> (kept: Vec<
    (String, serde_json::Value),
>)
    ensures
        distinct_names(kept@),
        members_view(kept@) == members_view(members@),
{
    let ghost all = members@;
    let mut kept: Vec<(String, serde_json::Value)> = Vec::new();
    for member in it: members
        invariant
            it.seq() == all,
            distinct_names(kept@),
            members_view(kept@) == members_view(all.take(it.index() as int)),
    {
        let ghost i = it.index() as int;
        let ghost before = kept@;
        if let Some(at) = member_at(&kept, member.0.as_str()) {
            kept.remove(at);
            proof {
                lemma_members_view_without(before, at as int);
            }
        }
        let ghost others = kept@;
        kept.push(member);
        proof {
            assert(kept@.drop_last() =~= others);
            assert(all.take(i + 1).drop_last() =~= all.take(i));
            assert(members_view(kept@) =~= members_view(all.take(i + 1)));
        }
    }
    assert(all.take(all.len() as int) =~= all);
    kept
}

proof fn lemma_members_view(fields: Seq<(String, serde_json::Value)>, i: int)
    requires
        distinct_names(fields),
        0 <= i < fields.len(),
    ensures
        members_view(fields).dom().finite(),
        members_view(fields).contains_key(fields[i].0@),
        members_view(fields)[fields[i].0@] == json_of(fields[i].1),
    decreases fields.len(),
{
    lemma_members_view_finite(fields);
    if i < fields.len() - 1 {
        lemma_members_view(fields.drop_last(), i);
    }
}

proof fn lemma_members_view_finite(fields: Seq<(String, serde_json::Value)>)
    ensures
        members_view(fields).dom().finite(),
    decreases fields.len(),
{
    if fields.len() > 0 {
        lemma_members_view_finite(fields.drop_last());
    }
}

/// What a `serde_json::Value` holds, as a `Json`.
pub fn from_value(value: serde_json::Value) -> (json: Json)
    ensures
        json@ == json_of(value),
    decreases json_of(value),
{
    match value_node(value) {
        JsonNode::Null => Json::Null,
        JsonNode::Bool(flag) => Json::Bool(flag),
        JsonNode::Unsigned(number) => Json::Unsigned(number),
        JsonNode::Signed(number) => Json::Signed(number),
        JsonNode::Fraction(text) => Json::Fraction(text),
        JsonNode::Text(text) => Json::Text(text),
        JsonNode::List(items) => {
            let ghost all = items@;
            let mut read: Vec<Json> = Vec::new();
            for item in it: items
                invariant
                    json_of(value) == JsonView::List(values_view(all)),
                    it.seq() == all,
                    list_view(read@) =~= values_view(all).take(it.index() as int),
            {
                proof {
                    assert(values_view(all)[it.index() as int] == json_of(item));
                    assert(decreases_to!(json_of(value) => json_of(value)->List_0));
                    assert(decreases_to!(values_view(all) => values_view(all)[it.index() as int]));
                }
                let ghost before = read@;
                read.push(from_value(item));
                assert(read@.drop_last() =~= before);
            }
            assert(values_view(all).take(all.len() as int) =~= values_view(all));
            Json::List(read)
        },
        JsonNode::Object(fields) => {
            let ghost all = fields@;
            let mut read: Vec<(String, Json)> = Vec::new();
            for field in it: fields
                invariant
                    json_of(value) == JsonView::Object(members_view(all)),
                    distinct_names(all),
                    it.seq() == all,
                    object_view(read@) == members_view(all.take(it.index() as int)),
            {
                let ghost i = it.index() as int;
                proof {
                    lemma_members_view(all, i);
                    assert(decreases_to!(json_of(value) => json_of(value)->Object_0));
                    assert(decreases_to!(members_view(all) => members_view(all)[all[i].0@]));
                    assert(all.take(i + 1).drop_last() =~= all.take(i));
                }
                let (name, inner) = field;
                let ghost before = read@;
                read.push((name, from_value(inner)));
                assert(read@.drop_last() =~= before);
            }
            assert(all.take(all.len() as int) =~= all);
            Json::Object(read)
        },
    }
}

/// Whether a value holds no fraction, and no more than `depth` lists and objects inside each other:
/// such a value is read back out of its text.
pub open spec fn is_plain(json: JsonView, depth: nat) -> bool
    decreases depth,
{
    match json {
        JsonView::Fraction(_) => false,
        JsonView::List(items) => depth > 0 && forall|i: int|
            0 <= i < items.len() ==> is_plain(#[trigger] items[i], (depth - 1) as nat),
        JsonView::Object(fields) => depth > 0 && forall|name: Seq<char>| #[trigger]
            fields.contains_key(name) ==> is_plain(fields[name], (depth - 1) as nat),
        _ => true,
    }
}

/// Whether a value holds no other values, and is no fraction.
pub open spec fn is_leaf(json: JsonView) -> bool {
    json is Null || json is Bool || json is Integer || json is Text
}

pub proof fn lemma_flat_is_plain(fields: Map<Seq<char>, JsonView>)
    requires
        forall|name: Seq<char>| #[trigger] fields.contains_key(name) ==> is_leaf(fields[name]),
    ensures
        is_plain(JsonView::Object(fields), 100),
{
    assert forall|name: Seq<char>| #[trigger] fields.contains_key(name) implies is_plain(
        fields[name],
        99,
    ) by {
        assert(is_leaf(fields[name]));
    }
}

/// What is read where a value is read back.
pub open spec fn read_back(json: JsonView) -> Result<JsonView, Seq<char>> {
    Ok(json)
}

/// The text that `serde_json::to_string` writes for a value.
pub uninterp spec fn compact_text(json: JsonView) -> Seq<char>;

/// Calls `serde_json::to_string`, whose text depends on what the value holds alone: the fields
/// of an object come in the order of their names. It does not fail, since a `serde_json::Value`
/// has text names only. `serde_json::from_str` reads the value back out of the text, unless it
/// is nested beyond the depth that `from_str` goes to, which is above a hundred; of fractions
/// this is left open, since `from_str` may read a float that is off in the last place.
#[verifier::external_body]
fn value_to_string(value: &serde_json::Value) -> (text: String)
    ensures
        text@ == compact_text(json_of(*value)),
        is_plain(json_of(*value), 100) ==> parsed_json(text@) == read_back(json_of(*value)),
{
    serde_json::to_string(value).unwrap_or_default()
}

/// The text that `serde_json::to_string_pretty` writes for a value.
pub uninterp spec fn pretty_text(json: JsonView) -> Seq<char>;

/// Calls `serde_json::to_string_pretty`, whose text depends on what the value holds alone, as that
/// of `serde_json::to_string` does. It does not fail either.
#[verifier::external_body]
fn value_to_string_pretty(value: &serde_json::Value) -> (text: String)
    ensures
        text@ == pretty_text(json_of(*value)),
{
    serde_json::to_string_pretty(value).unwrap_or_default()
}

/// The text that `serde_json` writes for a map whose entries are `fields`, in that order.
pub uninterp spec fn ordered_text(fields: Seq<(Seq<char>, JsonView)>) -> Seq<char>;

/// What `members` hold, one by one.
pub open spec fn members_seq(members: Seq<(String, serde_json::Value)>) -> Seq<
    (Seq<char>, JsonView),
> {
    members.map_values(|member: (String, serde_json::Value)| (member.0@, json_of(member.1)))
}

/// Calls `collect_map` of `serde_json::Serializer`, which writes the entries that it is given
/// as one object, in their order, each as `serde_json::to_string` would write it. What is said
/// there of `serde_json::from_str` holds here where no name occurs twice.
#[verifier::external_body]
fn members_to_string(members: &Vec<(String, serde_json::Value)>) -> (text: String)
    ensures
        text@ == ordered_text(members_seq(members@)),
        distinct_names(members@) && is_plain(JsonView::Object(members_view(members@)), 100)
            ==> parsed_json(text@) == read_back(JsonView::Object(members_view(members@))),
{
    let mut bytes = Vec::new();
    let entries = members.iter().map(|member| (&member.0, &member.1));
    match serde::Serializer::collect_map(&mut serde_json::Serializer::new(&mut bytes), entries) {
        Ok(_) => String::from_utf8(bytes).unwrap_or_default(),
        Err(_) => String::new(),
    }
}

/// What `serde_json::from_str` reads out of a text: the value, or the text of its error.
pub uninterp spec fn parsed_json(text: Seq<char>) -> Result<JsonView, Seq<char>>;

/// Calls `serde_json::from_str` for a `serde_json::Value`, which depends on the text alone. An
/// error is given as the text that it prints.
#[verifier::external_body]
fn value_from_str(text: &str) -> (value: Result<serde_json::Value, String>)
    ensures
        match value {
            Ok(value) => parsed_json(text@) == Ok::<JsonView, Seq<char>>(json_of(value)),
            Err(message) => parsed_json(text@) == Err::<JsonView, Seq<char>>(message@),
        },
{
    serde_json::from_str::<serde_json::Value>(text).map_err(|error| error.to_string())
}

/// Reads one JSON value out of `text`.
pub fn parse_json(text: &str) -> (json: Result<Json, String>)
    ensures
        match json {
            Ok(json) => parsed_json(text@) == Ok::<JsonView, Seq<char>>(json@),
            Err(message) => parsed_json(text@) == Err::<JsonView, Seq<char>>(message@),
        },
{
    match value_from_str(text) {
        Ok(value) => Ok(from_value(value)),
        Err(message) => Err(message),
    }
}

/// The names and values of `fields`, one by one.
pub open spec fn fields_seq(fields: Seq<(String, Json)>) -> Seq<(Seq<char>, JsonView)> {
    fields.map_values(|field: (String, Json)| (field.0@, field.1@))
}

/// No name occurs twice among `fields`.
pub open spec fn distinct_fields(fields: Seq<(Seq<char>, JsonView)>) -> bool {
    forall|i: int, j: int| 0 <= i < j < fields.len() ==> fields[i].0 != fields[j].0
}

/// The text of an object whose fields stand in the order of `fields`.
pub fn object_text(fields: &Vec<(String, Json)>) -> (text: String)
    ensures
        text@ == ordered_text(fields_seq(fields@)),
        distinct_fields(fields_seq(fields@)) && is_plain(
            JsonView::Object(object_view(fields@)),
            100,
        ) ==> parsed_json(text@) == read_back(JsonView::Object(object_view(fields@))),
{
    let members = to_members(fields);
    proof {
        if distinct_fields(fields_seq(fields@)) {
            assert forall|i: int, j: int| 0 <= i < j < members@.len() implies members@[i].0@
                != members@[j].0@ by {
                assert(fields_seq(fields@)[i].0 != fields_seq(fields@)[j].0);
            }
        }
    }
    assert(members_seq(members@) =~= fields_seq(fields@));
    members_to_string(&members)
}

/// The fields of an object that has none yet.
pub fn no_fields() -> (fields: Vec<(String, Json)>)
    ensures
        object_view(fields@) == Map::<Seq<char>, JsonView>::empty(),
        fields_seq(fields@) == Seq::<(Seq<char>, JsonView)>::empty(),
{
    let fields: Vec<(String, Json)> = Vec::new();
    assert(fields_seq(fields@) =~= Seq::empty());
    fields
}

/// Adds a field to those of an object.
pub fn put(fields: &mut Vec<(String, Json)>, name: &str, value: Json)
    ensures
        object_view(final(fields)@) == object_view(old(fields)@).insert(name@, value@),
        fields_seq(final(fields)@) == fields_seq(old(fields)@).push((name@, value@)),
{
    let ghost before = fields@;
    fields.push((name.to_string(), value));
    assert(fields@.drop_last() =~= before);
    assert(fields_seq(fields@) =~= fields_seq(before).push((name@, value@)));
}

/// A value that is text.
pub fn text_json(text: &str) -> (json: Json)
    ensures
        json@ == JsonView::Text(text@),
{
    Json::Text(text.to_string())
}

/// Text where there is some, and null where there is none.
pub open spec fn opt_text_view(text: Option<Seq<char>>) -> JsonView {
    match text {
        Some(text) => JsonView::Text(text),
        None => JsonView::Null,
    }
}

pub fn opt_text_json(text: &Option<String>) -> (json: Json)
    ensures
        json@ == opt_text_view(opt_text(*text)),
{
    match text {
        Some(text) => text_json(text.as_str()),
        None => Json::Null,
    }
}

/// A list of texts.
pub open spec fn texts_view(texts: Seq<Seq<char>>) -> JsonView {
    JsonView::List(texts.map_values(|text: Seq<char>| JsonView::Text(text)))
}

pub fn texts_json(strings: &[String]) -> (json: Json)
    ensures
        json@ == texts_view(texts(strings@)),
{
    let mut items: Vec<Json> = Vec::new();
    let ghost wanted = texts(strings@).map_values(|text: Seq<char>| JsonView::Text(text));
    for i in 0..strings.len()
        invariant
            wanted == texts(strings@).map_values(|text: Seq<char>| JsonView::Text(text)),
            list_view(items@) =~= wanted.take(i as int),
    {
        let ghost before = items@;
        items.push(text_json(strings[i].as_str()));
        assert(items@.drop_last() =~= before);
    }
    assert(wanted.take(strings@.len() as int) =~= wanted);
    Json::List(items)
}

/// The text that a value is, if it is text.
pub open spec fn text_of(json: JsonView) -> Option<Seq<char>> {
    match json {
        JsonView::Text(text) => Some(text),
        _ => None,
    }
}

/// The integer that a value is, if it is one of the range of `i64`.
pub open spec fn i64_of(json: JsonView) -> Option<int> {
    match json {
        JsonView::Integer(number) if i64::MIN <= number <= i64::MAX => Some(number),
        _ => None,
    }
}

/// The field `key` of a value, if it is an object that has one.
pub open spec fn field_of(json: JsonView, key: Seq<char>) -> Option<JsonView> {
    match json {
        JsonView::Object(fields) => if fields.contains_key(key) {
            Some(fields[key])
        } else {
            None
        },
        _ => None,
    }
}

impl Json {
    /// The text of this value on one line.
    pub fn compact(&self) -> (text: String)
        ensures
            text@ == compact_text(self@),
            is_plain(self@, 100) ==> parsed_json(text@) == read_back(self@),
    {
        value_to_string(&to_value(self))
    }

    /// The text of this value on indented lines.
    pub fn pretty(&self) -> (text: String)
        ensures
            text@ == pretty_text(self@),
    {
        value_to_string_pretty(&to_value(self))
    }

    /// The field `key`, if this is an object that has one.
    pub fn get(&self, key: &str) -> (found: Option<&Json>)
        ensures
            match found {
                Some(value) => field_of(self@, key@) == Some(value@),
                None => field_of(self@, key@) is None,
            },
    {
        match self {
            Json::Object(fields) => {
                let mut n: usize = fields.len();
                assert(fields@.take(n as int) =~= fields@);
                while n > 0
                    invariant
                        n <= fields@.len(),
                        *self == Json::Object(*fields),
                        field_of(self@, key@) == field_of(
                            JsonView::Object(object_view(fields@.take(n as int))),
                            key@,
                        ),
                    decreases n,
                {
                    n = n - 1;
                    proof {
                        assert(fields@.take(n + 1).drop_last() =~= fields@.take(n as int));
                    }
                    if same_text(fields[n].0.as_str(), key) {
                        return Some(&fields[n].1);
                    }
                }
                None
            },
            _ => None,
        }
    }

    /// The text, if this value is one.
    pub fn as_str(&self) -> (text: Option<&str>)
        ensures
            match text {
                Some(text) => text_of(self@) == Some(text@),
                None => text_of(self@) is None,
            },
    {
        match self {
            Json::Text(text) => Some(text.as_str()),
            _ => None,
        }
    }

    /// The integer, if this value is one of the range of `i64`.
    pub fn as_i64(&self) -> (number: Option<i64>)
        ensures
            match number {
                Some(number) => i64_of(self@) == Some(number as int),
                None => i64_of(self@) is None,
            },
    {
        match self {
            Json::Unsigned(number) => if *number <= 0x7fff_ffff_ffff_ffff {
                Some(*number as i64)
            } else {
                None
            },
            Json::Signed(number) => Some(*number),
            _ => None,
        }
    }
}

// Laws.

/// A value is what it was made of.
pub proof fn values_are_what_they_are_made_of(
    flag: bool,
    unsigned: u64,
    signed: i64,
    text: String,
    items: Vec<Json>,
    i: int,
)
    ensures
        Json::Null@ == JsonView::Null,
        Json::Bool(flag)@ == JsonView::Bool(flag),
        Json::Unsigned(unsigned)@ == JsonView::Integer(unsigned as int),
        Json::Signed(signed)@ == JsonView::Integer(signed as int),
        Json::Text(text)@ == JsonView::Text(text@),
        Json::List(items)@ matches JsonView::List(views) && views.len() == items@.len() && (0 <= i
            < views.len() ==> views[i] == items@[i]@),
{
    lemma_list_view(items@, i);
}

proof fn lemma_list_view(items: Seq<Json>, i: int)
    ensures
        list_view(items).len() == items.len(),
        0 <= i < items.len() ==> list_view(items)[i] == items[i]@,
    decreases items.len(),
{
    if items.len() > 0 {
        lemma_list_view(items.drop_last(), i);
    }
}

/// An object has each of its fields under its name, the last one where several have one name.
pub proof fn objects_have_their_fields(fields: Seq<(String, Json)>, name: String, value: Json)
    ensures
        object_view(Seq::empty()) == Map::<Seq<char>, JsonView>::empty(),
        object_view(fields.push((name, value))) == object_view(fields).insert(name@, value@),
{
    assert(fields.push((name, value)).drop_last() =~= fields);
}

/// What is read out of a value is what it holds: its text, its integer where that is one of the
/// range of `i64`, or the field of the name that is asked for. Nothing is read out of others.
pub proof fn values_are_read_by_what_they_hold(
    text: Seq<char>,
    number: int,
    fields: Map<Seq<char>, JsonView>,
    key: Seq<char>,
    other: JsonView,
)
    ensures
        text_of(JsonView::Text(text)) == Some(text),
        other !is Text ==> text_of(other) is None,
        -0x8000_0000_0000_0000 <= number <= 0x7fff_ffff_ffff_ffff ==> i64_of(
            JsonView::Integer(number),
        ) == Some(number),
        !(-0x8000_0000_0000_0000 <= number <= 0x7fff_ffff_ffff_ffff) ==> i64_of(
            JsonView::Integer(number),
        ) is None,
        other !is Integer ==> i64_of(other) is None,
        fields.contains_key(key) ==> field_of(JsonView::Object(fields), key) == Some(fields[key]),
        !fields.contains_key(key) ==> field_of(JsonView::Object(fields), key) is None,
        other !is Object ==> field_of(other, key) is None,
{
}

/// Texts are listed one by one and in their order, and text that is not there is null.
pub proof fn texts_are_held_as_they_are(texts: Seq<Seq<char>>, i: int, text: Seq<char>)
    ensures
        texts_view(texts) matches JsonView::List(items) && items.len() == texts.len() && (0 <= i
            < items.len() ==> items[i] == JsonView::Text(texts[i])),
        opt_text_view(Some(text)) == JsonView::Text(text),
        opt_text_view(None) == JsonView::Null,
{
}

} // verus!
