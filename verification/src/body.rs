//! Assembly of the request body from the data items, in the order given.
//!
//! A form body is a list of pairs with distinct keys, a JSON body is a JSON
//! object. In both a later item replaces an earlier one of the same key.

use vstd::prelude::*;
use vstd::string::*;
use serde_json::Value;
use crate::cli::pairs_view;
use crate::error::{BuildError, BuildFailure};
use crate::item::{body_fields, items_view, ItemView, RequestItemType};
use crate::json::{
    json_entries, json_error_message, json_error_text, json_from_str, json_map_insert,
    json_object, json_object_value, json_parse, json_string, json_string_value, new_json_map,
    no_members,
};
use crate::options::ContentType;

verus! {

/// A key and its value, over character sequences.
pub type PairView = (Seq<char>, Seq<char>);

/// The position of the first pair with the given key, or `pairs.len()` when
/// no pair has it.
pub open spec fn key_index(pairs: Seq<PairView>, key: Seq<char>) -> int
    decreases pairs.len(),
{
    if pairs.len() == 0 {
        0
    } else if pairs[0].0 == key {
        0
    } else {
        1 + key_index(pairs.drop_first(), key)
    }
}

/// The value that a list of pairs gives to a key.
pub open spec fn lookup(pairs: Seq<PairView>, key: Seq<char>) -> Option<Seq<char>> {
    let i = key_index(pairs, key);
    if i < pairs.len() {
        Some(pairs[i].1)
    } else {
        None
    }
}

/// The pairs after `key` is set to `value`: a pair with that key is replaced
/// where it stands, otherwise the new pair comes last.
pub open spec fn put(pairs: Seq<PairView>, key: Seq<char>, value: Seq<char>) -> Seq<PairView> {
    let i = key_index(pairs, key);
    if i < pairs.len() {
        pairs.update(i, (key, value))
    } else {
        pairs.push((key, value))
    }
}

/// Whether no key occurs twice.
pub open spec fn distinct_keys(pairs: Seq<PairView>) -> bool {
    forall|i: int, j: int| 0 <= i < j < pairs.len() ==> (#[trigger] pairs[i]).0 != (#[trigger] pairs[j]).0
}

/// The form body of a list of items: each item sets its key to its raw value,
/// whatever its kind.
pub open spec fn form_pairs(data: Seq<ItemView>) -> Seq<PairView>
    decreases data.len(),
{
    if data.len() == 0 {
        Seq::empty()
    } else {
        put(form_pairs(data.drop_last()), data.last().1, data.last().2)
    }
}

/// The form body of a list of items where a form takes string fields only:
/// the first JSON field fails, with its key.
pub open spec fn strict_form_pairs(data: Seq<ItemView>) -> Result<Seq<PairView>, BuildFailure>
    decreases data.len(),
{
    if data.len() == 0 {
        Ok(Seq::empty())
    } else {
        match strict_form_pairs(data.drop_last()) {
            Err(e) => Err(e),
            Ok(pairs) => if data.last().0 == RequestItemType::RawJson {
                Err(BuildFailure::RawJsonInForm { key: data.last().1 })
            } else {
                Ok(put(pairs, data.last().1, data.last().2))
            },
        }
    }
}

/// The JSON value of one field: a JSON field is parsed, and fails with the
/// parser's message where its text is no JSON; a string field is a JSON string.
pub open spec fn field_value(kind: RequestItemType, raw: Seq<char>) -> Result<Value, Seq<char>> {
    if kind == RequestItemType::RawJson {
        match json_parse(raw) {
            Ok(value) => Ok(value),
            Err(error) => Err(json_error_text(error)),
        }
    } else {
        Ok(json_string(raw))
    }
}

/// The members of the JSON body of a list of fields: each field sets its key
/// to its value, and the first field that is no JSON fails, with its key.
pub open spec fn json_members(data: Seq<ItemView>) -> Result<Map<Seq<char>, Value>, BuildFailure>
    decreases data.len(),
{
    if data.len() == 0 {
        Ok(no_members())
    } else {
        match json_members(data.drop_last()) {
            Err(e) => Err(e),
            Ok(members) => match field_value(data.last().0, data.last().2) {
                Ok(value) => Ok(members.insert(data.last().1, value)),
                Err(message) => Err(
                    BuildFailure::JsonFragment { key: data.last().1, message: message },
                ),
            },
        }
    }
}

/// The JSON body of a list of fields.
pub open spec fn json_body(data: Seq<ItemView>) -> Result<Value, BuildFailure> {
    match json_members(data) {
        Ok(members) => Ok(json_object(members)),
        Err(e) => Err(e),
    }
}

/// `key_index` is in range, no pair before it has the key, and the pair at it
/// has the key unless it is the length.
pub proof fn lemma_key_index(pairs: Seq<PairView>, key: Seq<char>)
    ensures
        0 <= key_index(pairs, key) <= pairs.len(),
        forall|j: int| 0 <= j < key_index(pairs, key) ==> (#[trigger] pairs[j]).0 != key,
        key_index(pairs, key) < pairs.len() ==> pairs[key_index(pairs, key)].0 == key,
    decreases pairs.len(),
{
    if pairs.len() > 0 && pairs[0].0 != key {
        let rest = pairs.drop_first();
        lemma_key_index(rest, key);
        assert forall|j: int| 0 <= j < key_index(pairs, key) implies (#[trigger] pairs[j]).0
            != key by {
            if j > 0 {
                assert(pairs[j] == rest[j - 1]);
            }
        }
        if key_index(pairs, key) < pairs.len() {
            assert(pairs[key_index(pairs, key)] == rest[key_index(rest, key)]);
        }
    }
}

/// A position with no pair of the key before it that either holds the key or
/// is the length is the key's index.
pub proof fn lemma_key_index_is(pairs: Seq<PairView>, key: Seq<char>, i: int)
    requires
        0 <= i <= pairs.len(),
        forall|j: int| 0 <= j < i ==> (#[trigger] pairs[j]).0 != key,
        i < pairs.len() ==> pairs[i].0 == key,
    ensures
        key_index(pairs, key) == i,
{
    lemma_key_index(pairs, key);
    let f = key_index(pairs, key);
    if f < i {
        assert(pairs[f].0 != key);
    } else if i < f {
        assert(pairs[i].0 != key);
    }
}

/// The last item with the given key, if there is one.
pub open spec fn last_item(data: Seq<ItemView>, key: Seq<char>) -> Option<ItemView>
    decreases data.len(),
{
    if data.len() == 0 {
        None
    } else if data.last().1 == key {
        Some(data.last())
    } else {
        last_item(data.drop_last(), key)
    }
}

/// After `put`, the key that was set has the new value, and every other key
/// has the value it had.
pub proof fn lemma_put_lookup(pairs: Seq<PairView>, key: Seq<char>, value: Seq<char>, other: Seq<char>)
    ensures
        lookup(put(pairs, key, value), other) == if other == key {
            Some(value)
        } else {
            lookup(pairs, other)
        },
{
    let after = put(pairs, key, value);
    lemma_key_index(pairs, key);
    lemma_key_index(pairs, other);
    let i = key_index(pairs, key);
    let j = key_index(pairs, other);
    if other == key {
        assert forall|k: int| 0 <= k < i implies (#[trigger] after[k]).0 != key by {
            assert(after[k] == pairs[k]);
        }
        lemma_key_index_is(after, key, i);
    } else {
        assert forall|k: int| 0 <= k < j implies (#[trigger] after[k]).0 != other by {
            if k != i {
                assert(after[k] == pairs[k]);
            }
        }
        if j < pairs.len() {
            assert(after[j] == pairs[j]);
        }
        if j == pairs.len() && i < pairs.len() {
            assert(after.len() == pairs.len());
        }
        lemma_key_index_is(after, other, if j < pairs.len() { j } else { after.len() as int });
    }
}

/// `put` keeps the keys distinct.
pub proof fn lemma_put_distinct(pairs: Seq<PairView>, key: Seq<char>, value: Seq<char>)
    requires
        distinct_keys(pairs),
    ensures
        distinct_keys(put(pairs, key, value)),
{
    let after = put(pairs, key, value);
    lemma_key_index(pairs, key);
    let i = key_index(pairs, key);
    assert forall|a: int, b: int| 0 <= a < b < after.len() implies (#[trigger] after[a]).0 != (
    #[trigger] after[b]).0 by {
        if i < pairs.len() {
            assert(after[a].0 == pairs[a].0);
            assert(after[b].0 == pairs[b].0);
        } else if b < pairs.len() {
            assert(after[a] == pairs[a]);
            assert(after[b] == pairs[b]);
        } else {
            assert(after[a] == pairs[a]);
        }
    }
}

/// No key occurs twice in a form body.
pub proof fn lemma_form_keys_distinct(data: Seq<ItemView>)
    ensures
        distinct_keys(form_pairs(data)),
    decreases data.len(),
{
    if data.len() > 0 {
        lemma_form_keys_distinct(data.drop_last());
        lemma_put_distinct(form_pairs(data.drop_last()), data.last().1, data.last().2);
    }
}

/// Last write wins in a form body: a key has a value exactly if some item has
/// that key, and the value is the raw value of the last such item.
pub proof fn lemma_form_last_write_wins(data: Seq<ItemView>, key: Seq<char>)
    ensures
        lookup(form_pairs(data), key) == match last_item(data, key) {
            Some(item) => Some(item.2),
            None => None,
        },
    decreases data.len(),
{
    if data.len() > 0 {
        lemma_form_last_write_wins(data.drop_last(), key);
        lemma_put_lookup(form_pairs(data.drop_last()), data.last().1, data.last().2, key);
    }
}

/// Whether no item is a JSON field.
pub open spec fn no_json_fields(data: Seq<ItemView>) -> bool {
    forall|i: int| 0 <= i < data.len() ==> (#[trigger] data[i]).0 != RequestItemType::RawJson
}

/// The two ways to build a form differ on JSON fields alone: without one, both
/// give the same pairs, and with one, the strict way fails.
pub proof fn lemma_strict_form_agrees(data: Seq<ItemView>)
    ensures
        match strict_form_pairs(data) {
            Ok(pairs) => no_json_fields(data) && pairs == form_pairs(data),
            Err(_) => !no_json_fields(data),
        },
    decreases data.len(),
{
    if data.len() > 0 {
        let front = data.drop_last();
        lemma_strict_form_agrees(front);
        match strict_form_pairs(front) {
            Ok(_) => {
                if data.last().0 == RequestItemType::RawJson {
                    assert(data[data.len() - 1].0 == RequestItemType::RawJson);
                } else {
                    assert forall|i: int| 0 <= i < data.len() implies (#[trigger] data[i]).0
                        != RequestItemType::RawJson by {
                        if i < front.len() {
                            assert(data[i] == front[i]);
                        }
                    }
                }
            },
            Err(_) => {
                let i = choose|i: int|
                    0 <= i < front.len() && (#[trigger] front[i]).0 == RequestItemType::RawJson;
                assert(data[i] == front[i]);
            },
        }
    }
}

/// Last write wins in a JSON body: a key is a member exactly if some field
/// has that key, and its value is that of the last such field.
pub proof fn lemma_json_last_write_wins(data: Seq<ItemView>, key: Seq<char>)
    requires
        json_members(data) is Ok,
    ensures
        ({
            let members = json_members(data)->Ok_0;
            match last_item(data, key) {
                Some(item) => {
                    &&& members.contains_key(key)
                    &&& field_value(item.0, item.2) matches Ok(value) && value == members[key]
                },
                None => !members.contains_key(key),
            }
        }),
    decreases data.len(),
{
    if data.len() > 0 {
        lemma_json_last_write_wins(data.drop_last(), key);
    }
}

/// Sets `key` to `value` in a list of pairs.
fn put_pair(pairs: &mut Vec<(String, String)>, key: String, value: String)
    ensures
        pairs_view(final(pairs)@) == put(pairs_view(old(pairs)@), key@, value@),
{
    let ghost before = pairs_view(pairs@);
    let n: usize = pairs.len();
    let mut i: usize = 0;
    while i < n
        invariant
            i <= n,
            n == pairs.len(),
            *pairs == *old(pairs),
            before == pairs_view(pairs@),
            forall|j: int| 0 <= j < i ==> (#[trigger] before[j]).0 != key@,
        decreases n - i,
    {
        if pairs[i].0 == key {
            proof {
                lemma_key_index_is(before, key@, i as int);
            }
            pairs.set(i, (key, value));
            assert(pairs_view(pairs@) =~= before.update(i as int, (key@, value@)));
            return ;
        }
        i += 1;
    }
    proof {
        lemma_key_index_is(before, key@, n as int);
    }
    pairs.push((key, value));
    assert(pairs_view(pairs@) =~= before.push((key@, value@)));
}

/// The form body of the data items. Every item sets its key to its raw value;
/// a JSON field contributes its source text as it stands.
pub fn build_form(args: &Vec<(RequestItemType, String, String)>) -> (r: Result<
    Vec<(String, String)>,
    BuildError,
>)
    ensures
        r matches Ok(pairs) && pairs_view(pairs@) == form_pairs(items_view(args@)),
        r matches Ok(pairs) && distinct_keys(pairs_view(pairs@)),
{
    let ghost data = items_view(args@);
    let mut pairs: Vec<(String, String)> = Vec::new();
    let n: usize = args.len();
    let mut i: usize = 0;
    assert(pairs_view(pairs@) =~= Seq::empty());
    assert(data.take(0) =~= Seq::empty());
    while i < n
        invariant
            i <= n,
            n == args.len(),
            data == items_view(args@),
            pairs_view(pairs@) == form_pairs(data.take(i as int)),
        decreases n - i,
    {
        let key = args[i].1.clone();
        let value = args[i].2.clone();
        proof {
            assert(data.take(i + 1).drop_last() =~= data.take(i as int));
            assert(data.take(i + 1).last() == data[i as int]);
        }
        put_pair(&mut pairs, key, value);
        i += 1;
    }
    proof {
        assert(data.take(n as int) =~= data);
        lemma_form_keys_distinct(data);
    }
    Ok(pairs)
}

/// A build that has failed after some of the items fails in the same way on
/// all of them.
pub proof fn lemma_strict_form_fails_early(data: Seq<ItemView>, upto: int)
    requires
        0 <= upto <= data.len(),
        strict_form_pairs(data.take(upto)) is Err,
    ensures
        strict_form_pairs(data) == strict_form_pairs(data.take(upto)),
    decreases data.len() - upto,
{
    if upto < data.len() {
        assert(data.take(upto + 1).drop_last() =~= data.take(upto));
        lemma_strict_form_fails_early(data, upto + 1);
    } else {
        assert(data.take(upto) =~= data);
    }
}

/// A JSON body that has failed after some of the fields fails in the same way
/// on all of them.
pub proof fn lemma_json_fails_early(data: Seq<ItemView>, upto: int)
    requires
        0 <= upto <= data.len(),
        json_members(data.take(upto)) is Err,
    ensures
        json_members(data) == json_members(data.take(upto)),
    decreases data.len() - upto,
{
    if upto < data.len() {
        assert(data.take(upto + 1).drop_last() =~= data.take(upto));
        lemma_json_fails_early(data, upto + 1);
    } else {
        assert(data.take(upto) =~= data);
    }
}

/// The form body of the data items where a form takes string fields only.
/// The first JSON field is rejected, and the error holds its key.
pub fn build_form_strict(args: &Vec<(RequestItemType, String, String)>) -> (r: Result<
    Vec<(String, String)>,
    BuildError,
>)
    ensures
        match r {
            Ok(pairs) => {
                &&& strict_form_pairs(items_view(args@)) matches Ok(meant) && meant == pairs_view(
                    pairs@,
                )
                &&& distinct_keys(pairs_view(pairs@))
            },
            Err(e) => strict_form_pairs(items_view(args@)) matches Err(failure) && failure == e@,
        },
{
    let ghost data = items_view(args@);
    let mut pairs: Vec<(String, String)> = Vec::new();
    let n: usize = args.len();
    let mut i: usize = 0;
    assert(pairs_view(pairs@) =~= Seq::empty());
    assert(data.take(0) =~= Seq::empty());
    while i < n
        invariant
            i <= n,
            n == args.len(),
            data == items_view(args@),
            strict_form_pairs(data.take(i as int)) matches Ok(meant) && meant == pairs_view(
                pairs@,
            ),
        decreases n - i,
    {
        let key = args[i].1.clone();
        proof {
            assert(data.take(i + 1).drop_last() =~= data.take(i as int));
            assert(data.take(i + 1).last() == data[i as int]);
        }
        match args[i].0 {
            RequestItemType::RawJson => {
                proof {
                    lemma_strict_form_fails_early(data, i + 1);
                }
                return Err(BuildError::RawJsonInForm { key });
            },
            _ => {},
        }
        let value = args[i].2.clone();
        put_pair(&mut pairs, key, value);
        i += 1;
    }
    proof {
        assert(data.take(n as int) =~= data);
        lemma_strict_form_agrees(data);
        lemma_form_keys_distinct(data);
    }
    Ok(pairs)
}

/// The JSON body of the data items: an object in which each field sets its
/// key to its value. A string field is a JSON string. A JSON field is parsed;
/// the first one whose text is no JSON is rejected, and the error holds its
/// key and the parser's message.
pub fn build_json(args: &Vec<(RequestItemType, String, String)>) -> (r: Result<Value, BuildError>)
    requires
        body_fields(items_view(args@)),
    ensures
        match r {
            Ok(value) => json_body(items_view(args@)) matches Ok(meant) && meant == value,
            Err(e) => json_body(items_view(args@)) matches Err(failure) && failure == e@,
        },
{
    let ghost data = items_view(args@);
    let mut map = new_json_map();
    let n: usize = args.len();
    let mut i: usize = 0;
    assert(data.take(0) =~= Seq::empty());
    while i < n
        invariant
            i <= n,
            n == args.len(),
            data == items_view(args@),
            json_members(data.take(i as int)) matches Ok(meant) && meant == json_entries(map),
        decreases n - i,
    {
        let key = args[i].1.clone();
        proof {
            assert(data.take(i + 1).drop_last() =~= data.take(i as int));
            assert(data.take(i + 1).last() == data[i as int]);
        }
        let value = match args[i].0 {
            RequestItemType::RawJson => match json_from_str(args[i].2.as_str()) {
                Ok(value) => value,
                Err(error) => {
                    let message = json_error_message(&error);
                    proof {
                        lemma_json_fails_early(data, i + 1);
                    }
                    return Err(BuildError::JsonFragment { key, message });
                },
            },
            _ => json_string_value(args[i].2.clone()),
        };
        json_map_insert(&mut map, key, value);
        i += 1;
    }
    assert(data.take(n as int) =~= data);
    Ok(json_object_value(map))
}

/// An assembled request body.
#[derive(Debug)]
pub enum Body {
    /// The pairs of a form, with distinct keys.
    Form(Vec<(String, String)>),
    /// A JSON object.
    Json(Value),
    /// A multipart body. Its parts are not assembled here.
    Multipart,
}

/// A request body over mathematical values.
pub enum BodyView {
    Form(Seq<PairView>),
    Json(Value),
    Multipart,
}

impl View for Body {
    type V = BodyView;

    open spec fn view(&self) -> BodyView {
        match self {
            Body::Form(pairs) => BodyView::Form(pairs_view(pairs@)),
            Body::Json(value) => BodyView::Json(*value),
            Body::Multipart => BodyView::Multipart,
        }
    }
}

/// The body of a list of fields in the given encoding. A form takes a JSON
/// field as its source text.
pub open spec fn body_of(data: Seq<ItemView>, format: ContentType) -> Result<
    BodyView,
    BuildFailure,
> {
    match format {
        ContentType::Form => Ok(BodyView::Form(form_pairs(data))),
        ContentType::Json => match json_body(data) {
            Ok(value) => Ok(BodyView::Json(value)),
            Err(e) => Err(e),
        },
        ContentType::Multipart => Ok(BodyView::Multipart),
    }
}

/// Assembles the body of the request in the given encoding.
pub fn build(data: &Vec<(RequestItemType, String, String)>, format: ContentType) -> (r: Result<
    Body,
    BuildError,
>)
    requires
        format == ContentType::Json ==> body_fields(items_view(data@)),
    ensures
        match r {
            Ok(body) => body_of(items_view(data@), format) matches Ok(meant) && meant == body@,
            Err(e) => body_of(items_view(data@), format) matches Err(failure) && failure == e@,
        },
{
    match format {
        ContentType::Form => match build_form(data) {
            Ok(pairs) => Ok(Body::Form(pairs)),
            Err(e) => Err(e),
        },
        ContentType::Json => match build_json(data) {
            Ok(value) => Ok(Body::Json(value)),
            Err(e) => Err(e),
        },
        ContentType::Multipart => Ok(Body::Multipart),
    }
}

} // verus!
