//! Lines as JSON objects.
//!
//! A line of the stream is one JSON object. `serde_json` reads it; what this
//! library looks at afterwards are the members of the object, each as its
//! key and, where the value is a JSON string, the text of that string. A
//! value of any other kind is known to be there and nothing more.

use crate::text::same_text;
use serde_json::Value;
use vstd::prelude::*;

verus! {

/// The error of `serde_json`: why a text is not the JSON that was asked for.
#[verifier::external_type_specification]
#[verifier::external_body]
pub struct ExJsonError(serde_json::Error);

/// A member of a JSON object: its key and, where its value is a JSON
/// string, the text of that string.
pub type Member = (String, Option<String>);

/// A member of a JSON object as a mathematical value.
pub type MemberView = (Seq<char>, Option<Seq<char>>);

/// A JSON object as a mathematical value: under each key that the object
/// has, the text of the value, or `None` where the value is not a string.
pub type Object = Map<Seq<char>, Option<Seq<char>>>;

/// The members that `serde_json::from_str` finds in `line` when it is asked
/// for an object, each as its key and the text of its value (`None` where
/// the value is not a JSON string), in the order in which the object that
/// `serde_json` built hands them out. `None` where `serde_json` finds no
/// JSON object in `line`.
pub uninterp spec fn json_members(line: Seq<char>) -> Option<Seq<(Seq<char>, Option<Seq<char>>)>>;

/// Calls `serde_json::from_str` for a `serde_json::Map` and turns the map
/// into plain values: every key with the text of its value where that is a
/// JSON string, and with `None` where it is of another kind. The contract
/// claims only that the outcome is a function of the line, which it names
/// [`json_members`]; it says nothing of the grammar of JSON.
#[verifier::external_body]
fn parse_object(line: &str) -> (r: Result<Vec<Member>, serde_json::Error>)
    ensures
        match r {
            Ok(members) => json_members(line@) == Some(members.deep_view()),
            Err(_) => json_members(line@) is None,
        },
{
    let object: serde_json::Map<String, Value> = serde_json::from_str(line)?;
    Ok(
        object.into_iter().map(
            |(key, value)|
                match value {
                    Value::String(text) => (key, Some(text)),
                    Value::Null => (key, None),
                    Value::Bool(_) => (key, None),
                    Value::Number(_) => (key, None),
                    Value::Array(_) => (key, None),
                    Value::Object(_) => (key, None),
                },
        ).collect(),
    )
}

/// Calls `to_string` on an error of `serde_json`, for the words in which it
/// says what is wrong with a line. Nothing is claimed of those words.
#[verifier::external_body]
fn error_text(error: &serde_json::Error) -> (r: String) {
    error.to_string()
}

/// The object that a list of members stands for. Where a key occurs more
/// than once, its first member counts.
pub open spec fn object_of(members: Seq<MemberView>) -> Object
    decreases members.len(),
{
    if members.len() == 0 {
        Map::empty()
    } else {
        object_of(members.drop_first()).insert(members[0].0, members[0].1)
    }
}

/// The object that `serde_json` reads from `line`, if it reads one.
pub open spec fn json_object(line: Seq<char>) -> Option<Object> {
    match json_members(line) {
        Some(members) => Some(object_of(members)),
        None => None,
    }
}

/// The object of a list holds a key when some member has it, and holds the
/// value of the first such member.
pub proof fn lemma_object_of(members: Seq<MemberView>, key: Seq<char>, i: int)
    requires
        0 <= i <= members.len(),
        forall|j: int| 0 <= j < i ==> (#[trigger] members[j]).0 != key,
    ensures
        i < members.len() && members[i].0 == key ==> object_of(members).contains_key(key)
            && object_of(members)[key] == members[i].1,
        i == members.len() ==> !object_of(members).contains_key(key),
    decreases members.len(),
{
    if members.len() > 0 {
        let rest = members.drop_first();
        if i > 0 {
            assert(members[0].0 != key);
            assert forall|j: int| 0 <= j < i - 1 implies (#[trigger] rest[j]).0 != key by {
                assert(rest[j] == members[j + 1]);
            }
            lemma_object_of(rest, key, i - 1);
            if i < members.len() {
                assert(rest[i - 1] == members[i]);
            }
        }
    }
}

/// A line that could not be read as a JSON object.
#[derive(Debug, Clone, PartialEq, Eq)]
pub struct NoObject {
    /// What `serde_json` said of the line.
    pub detail: String,
}

/// Reads `line` as a JSON object and hands out its members.
pub fn read_members(line: &str) -> (r: Result<Vec<Member>, NoObject>)
    ensures
        match r {
            Ok(members) => json_members(line@) == Some(members.deep_view()),
            Err(_) => json_members(line@) is None,
        },
{
    match parse_object(line) {
        Ok(members) => Ok(members),
        Err(error) => Err(NoObject { detail: error_text(&error) }),
    }
}

/// Looks `key` up among `members`: `None` where no member has the key, else
/// the value of the first member that has it.
pub fn find<'a>(members: &'a [Member], key: &str) -> (r: Option<
    &'a Option<String>,
>)
    ensures
        match r {
            Some(value) => object_of(members.deep_view()).contains_key(key@) && object_of(
                members.deep_view(),
            )[key@] == value.deep_view(),
            None => !object_of(members.deep_view()).contains_key(key@),
        },
{
    let ghost model = members.deep_view();
    let mut i: usize = 0;
    while i < members.len()
        invariant
            i <= members.len(),
            model == members.deep_view(),
            forall|j: int| 0 <= j < i ==> (#[trigger] model[j]).0 != key@,
        decreases members.len() - i,
    {
        assert(model[i as int] == members@[i as int].deep_view());
        if same_text(members[i].0.as_str(), key) {
            proof {
                lemma_object_of(model, key@, i as int);
            }
            return Some(&members[i].1);
        }
        i = i + 1;
    }
    proof {
        lemma_object_of(model, key@, i as int);
    }
    None
}

} // verus!
