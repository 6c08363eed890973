//! JSON values, as the protocol reads and writes them.
//!
//! The values are those of the `serde_json` crate, which also turns text
//! into a value. What a value holds is told here as a `JsonView`, and each
//! operation of the crate that is used says what it does in these terms.
use vstd::prelude::*;

verus! {

#[verifier::external_type_specification]
#[verifier::external_body]
pub struct ExJsonValue(serde_json::Value);

#[verifier::external_type_specification]
#[verifier::external_body]
#[verifier::reject_recursive_types(K)]
#[verifier::reject_recursive_types(V)]
pub struct ExJsonMap<K, V>(serde_json::Map<K, V>);

#[verifier::external_type_specification]
#[verifier::external_body]
pub struct ExJsonError(serde_json::Error);

/// What a JSON value holds.
pub enum JsonView {
    Null,
    Bool(bool),
    /// A whole number.
    Number(int),
    /// A number that is not held as a whole number.
    Real,
    Text(Seq<char>),
    List(Seq<JsonView>),
    /// The members of an object by their names.
    Object(Map<Seq<char>, JsonView>),
}

/// What a value holds.
pub uninterp spec fn value_view(value: serde_json::Value) -> JsonView;

/// The members that a map holds, by their names.
pub uninterp spec fn map_view(map: serde_json::Map<String, serde_json::Value>) -> Map<
    Seq<char>,
    JsonView,
>;

/// The value that a text is the JSON notation of, where it is one.
pub uninterp spec fn parsed(text: Seq<char>) -> Option<JsonView>;

/// No members at all.
pub open spec fn no_members() -> Map<Seq<char>, JsonView> {
    Map::empty()
}

/// What each value of a run holds, in order.
pub open spec fn item_views(items: Seq<serde_json::Value>) -> Seq<JsonView> {
    Seq::new(items.len(), |i: int| value_view(items[i]))
}

/// The text of each item, or nothing where an item is no text.
pub open spec fn all_texts(items: Seq<JsonView>) -> Option<Seq<Seq<char>>>
    decreases items.len(),
{
    if items.len() == 0 {
        Some(Seq::empty())
    } else {
        match (all_texts(items.drop_last()), items.last()) {
            (Some(texts), JsonView::Text(text)) => Some(texts.push(text)),
            _ => None,
        }
    }
}

impl JsonView {
    /// The member of an object with the given name; nothing for a value
    /// that is no object or has no such member.
    pub open spec fn member(self, name: Seq<char>) -> Option<JsonView> {
        match self {
            JsonView::Object(members) => if members.contains_key(name) {
                Some(members[name])
            } else {
                None
            },
            _ => None,
        }
    }

    /// The text, of a value that is text.
    pub open spec fn as_text(self) -> Option<Seq<char>> {
        match self {
            JsonView::Text(text) => Some(text),
            _ => None,
        }
    }

    /// The number, of a value that is a whole number from 0 to the largest
    /// `u64`.
    pub open spec fn as_u64(self) -> Option<u64> {
        match self {
            JsonView::Number(n) => if 0 <= n <= u64::MAX {
                Some(n as u64)
            } else {
                None
            },
            _ => None,
        }
    }

    /// The number, of a value that is a whole number from 0 to the largest
    /// `usize`.
    pub open spec fn as_count(self) -> Option<usize> {
        match self {
            JsonView::Number(n) => if 0 <= n <= usize::MAX {
                Some(n as usize)
            } else {
                None
            },
            _ => None,
        }
    }

    /// The texts, of a value that is a list of text.
    pub open spec fn as_texts(self) -> Option<Seq<Seq<char>>> {
        match self {
            JsonView::List(items) => all_texts(items),
            _ => None,
        }
    }
}

/// `Value::as_str` gives the text of a value that is a string, and nothing
/// for any other value.
pub assume_specification[ serde_json::Value::as_str ](value: &serde_json::Value) -> (text: Option<
    &str,
>)
    ensures
        match text {
            Some(t) => value_view(*value) == JsonView::Text(t@),
            None => !(value_view(*value) is Text),
        },
;

/// `Value::as_u64` gives the number of a value that is held as a whole
/// number and is not negative, and nothing for any other value.
pub assume_specification[ serde_json::Value::as_u64 ](value: &serde_json::Value) -> (number:
    Option<u64>)
    ensures
        number == value_view(*value).as_u64(),
;

/// `Value::as_array` gives the items of a value that is an array, and
/// nothing for any other value.
pub assume_specification[ serde_json::Value::as_array ](value: &serde_json::Value) -> (items:
    Option<&Vec<serde_json::Value>>)
    ensures
        match items {
            Some(list) => value_view(*value) == JsonView::List(item_views(list@)),
            None => !(value_view(*value) is List),
        },
;

/// A map without members.
///
/// Trusted: this is `serde_json::Map::new`, which makes an empty map.
#[verifier::external_body]
pub(crate) fn new_members() -> (made: serde_json::Map<String, serde_json::Value>)
    ensures
        map_view(made) == no_members(),
{
    serde_json::Map::new()
}

/// Puts a member into a map.
///
/// Trusted: this is `serde_json::Map::insert`, which puts the member into
/// the map, in place of the one of the same name where there is one.
#[verifier::external_body]
pub(crate) fn put_member(
    members: &mut serde_json::Map<String, serde_json::Value>,
    name: &str,
    value: serde_json::Value,
)
    ensures
        map_view(*final(members)) == map_view(*old(members)).insert(name@, value_view(value)),
{
    members.insert(name.to_owned(), value);
}

/// Reads a value from its JSON notation.
///
/// Trusted: this is `serde_json::from_str` for a `Value`, which gives the
/// value that the text denotes, or an error for text that is no JSON. The
/// outcome depends on the text alone.
#[verifier::external_body]
pub(crate) fn parse_value(text: &str) -> (result: Result<serde_json::Value, serde_json::Error>)
    ensures
        match result {
            Ok(value) => parsed(text@) == Some(value_view(value)),
            Err(_) => parsed(text@) is None,
        },
{
    serde_json::from_str(text)
}

/// Says in words what is wrong with a text that is no JSON.
///
/// Trusted: this is `to_string` on a `serde_json::Error`, which writes the
/// error out as its `Display` does.
#[verifier::external_body]
pub(crate) fn error_text(error: &serde_json::Error) -> (text: String) {
    error.to_string()
}

/// The member of an object with the given name.
///
/// Trusted: this is `Value::get` with a string, which gives the member of
/// that name of a value that is an object, and nothing for a value that is
/// no object or has no such member.
#[verifier::external_body]
pub(crate) fn member<'a>(value: &'a serde_json::Value, name: &str) -> (found: Option<
    &'a serde_json::Value,
>)
    ensures
        match found {
            Some(held) => value_view(*value).member(name@) == Some(value_view(*held)),
            None => value_view(*value).member(name@) is None,
        },
{
    value.get(name)
}

/// A value that is the given text.
///
/// Trusted: this is the variant `Value::String`.
#[verifier::external_body]
pub(crate) fn text_value(text: String) -> (value: serde_json::Value)
    ensures
        value_view(value) == JsonView::Text(text@),
{
    serde_json::Value::String(text)
}

/// A value that is the given number.
///
/// Trusted: this is `Value::from` for a `u64`, which makes a number that
/// is held as a whole number.
#[verifier::external_body]
pub(crate) fn count_value(number: u64) -> (value: serde_json::Value)
    ensures
        value_view(value) == JsonView::Number(number as int),
{
    serde_json::Value::from(number)
}

/// A value that is the given number.
///
/// Trusted: this is `Value::from` for an `i64`, which makes a number that
/// is held as a whole number.
#[verifier::external_body]
pub(crate) fn int_value(number: i64) -> (value: serde_json::Value)
    ensures
        value_view(value) == JsonView::Number(number as int),
{
    serde_json::Value::from(number)
}

/// A value that is a list of the given items.
///
/// Trusted: this is the variant `Value::Array`.
#[verifier::external_body]
pub(crate) fn list_value(items: Vec<serde_json::Value>) -> (value: serde_json::Value)
    ensures
        value_view(value) == JsonView::List(item_views(items@)),
{
    serde_json::Value::Array(items)
}

/// A value that is an object with the members of the map.
///
/// Trusted: this is the variant `Value::Object`.
#[verifier::external_body]
pub(crate) fn object_value(map: serde_json::Map<String, serde_json::Value>) -> (value:
    serde_json::Value)
    ensures
        value_view(value) == JsonView::Object(map_view(map)),
{
    serde_json::Value::Object(map)
}

/// The text that a value is, where it is text.
pub fn as_text(value: &serde_json::Value) -> (text: Option<String>)
    ensures
        match text {
            Some(t) => value_view(*value).as_text() == Some(t@),
            None => value_view(*value).as_text() is None,
        },
{
    match value.as_str() {
        Some(text) => Some(text.to_owned()),
        None => None,
    }
}

/// The count that a value is, where it is a whole number from 0 to the
/// largest `usize`.
pub fn as_count(value: &serde_json::Value) -> (count: Option<usize>)
    ensures
        count == value_view(*value).as_count(),
{
    match value.as_u64() {
        Some(number) => {
            if number <= usize::MAX as u64 {
                Some(number as usize)
            } else {
                None
            }
        },
        None => None,
    }
}

/// The texts that a value is, where it is a list of text.
pub fn as_texts(value: &serde_json::Value) -> (texts: Option<Vec<String>>)
    ensures
        match texts {
            Some(t) => value_view(*value).as_texts() == Some(crate::text::texts(t@)),
            None => value_view(*value).as_texts() is None,
        },
{
    match value.as_array() {
        Some(items) => {
            let ghost all = item_views(items@);
            let mut texts: Vec<String> = Vec::new();
            assert(crate::text::texts(texts@) =~= Seq::<Seq<char>>::empty());
            assert(all.take(0) =~= Seq::<JsonView>::empty());
            let mut i: usize = 0;
            while i < items.len()
                invariant
                    i <= items.len(),
                    all == item_views(items@),
                    value_view(*value) == JsonView::List(all),
                    all_texts(all.take(i as int)) == Some(crate::text::texts(texts@)),
                decreases items.len() - i,
            {
                let ghost before = all.take(i as int);
                let ghost after = all.take(i + 1);
                assert(after.drop_last() =~= before);
                assert(after.last() == value_view(items@[i as int]));
                match items[i].as_str() {
                    Some(text) => {
                        let ghost old_texts = crate::text::texts(texts@);
                        texts.push(text.to_owned());
                        assert(crate::text::texts(texts@) =~= old_texts.push(text@));
                    },
                    None => {
                        proof {
                            assert(!(after.last() is Text));
                            assert(all_texts(after) is None);
                            lemma_all_texts_prefix(all, i + 1);
                        }
                        return None;
                    },
                }
                i += 1;
            }
            assert(all.take(items.len() as int) =~= all);
            Some(texts)
        },
        None => None,
    }
}

/// Where the first items are not all text, neither are all items.
proof fn lemma_all_texts_prefix(items: Seq<JsonView>, n: int)
    requires
        0 <= n <= items.len(),
        all_texts(items.take(n)) is None,
    ensures
        all_texts(items) is None,
    decreases items.len(),
{
    if n < items.len() {
        assert(items.drop_last().take(n) =~= items.take(n));
        lemma_all_texts_prefix(items.drop_last(), n);
    } else {
        assert(items.take(n) =~= items);
    }
}

} // verus!
