//! The JSON encoding of payloads: text is parsed and strings are escaped by
//! serde_json; objects and arrays are put together here.

use vstd::prelude::*;
use vstd::string::StringExecFns;

verus! {

/// One member of a JSON object: the key, and the value as JSON text.
#[derive(Debug)]
pub struct JsonMember {
    pub key: String,
    /// The value in its compact JSON rendering.
    pub value: String,
}

impl View for JsonMember {
    type V = (Seq<char>, Seq<char>);

    open spec fn view(&self) -> (Seq<char>, Seq<char>) {
        (self.key@, self.value@)
    }
}

impl Clone for JsonMember {
    fn clone(&self) -> (copy: Self)
        ensures
            copy@ == self@,
    {
        JsonMember { key: self.key.clone(), value: self.value.clone() }
    }
}

/// The members that a JSON document holds if it is one object: each key of
/// the object once, with its value in compact JSON rendering.
pub uninterp spec fn json_object_members(document: Seq<u8>) -> Option<Seq<(Seq<char>, Seq<char>)>>;

/// The elements that a JSON text holds if it is one array, each in compact
/// JSON rendering.
pub uninterp spec fn json_array_elements(text: Seq<char>) -> Option<Seq<Seq<char>>>;

/// What a JSON text stands for where a string or `null` is expected: the
/// string, no string for `null`, and `None` for any other text.
pub uninterp spec fn json_optional_string(text: Seq<char>) -> Option<Option<Seq<char>>>;

/// The JSON string literal for `text`: quoted, with the escapes that JSON
/// asks for.
pub uninterp spec fn json_string_literal(text: Seq<char>) -> Seq<char>;

/// The views of the members of `members`, in order.
pub open spec fn members_view(members: Seq<JsonMember>) -> Seq<(Seq<char>, Seq<char>)> {
    Seq::new(members.len(), |i: int| members[i]@)
}

/// The views of the texts of `texts`, in order.
pub open spec fn texts_view(texts: Seq<String>) -> Seq<Seq<char>> {
    Seq::new(texts.len(), |i: int| texts[i]@)
}

/// No two of `members` have the same key.
pub open spec fn distinct_keys(members: Seq<(Seq<char>, Seq<char>)>) -> bool {
    forall|i: int, j: int|
        0 <= i < j < members.len() ==> (#[trigger] members[i]).0 != (#[trigger] members[j]).0
}

/// Calls `serde_json::from_slice` for a map from strings to JSON values and
/// renders each value with its `Display`. The members come in the order in
/// which the parsed map yields them, and a map yields each key once.
#[verifier::external_body]
pub(crate) fn parse_object(document: &[u8]) -> (parsed: Result<Vec<JsonMember>, serde_json::Error>)
    ensures
        match parsed {
            Ok(members) => json_object_members(document@) == Some(members_view(members@))
                && distinct_keys(members_view(members@)),
            Err(_) => json_object_members(document@) is None,
        },
{
    let map: serde_json::Map<String, serde_json::Value> = serde_json::from_slice(document)?;
    Ok(map.into_iter().map(|(key, value)| JsonMember { key, value: value.to_string() }).collect())
}

/// Calls `serde_json::from_str` for a list of JSON values and renders each
/// value with its `Display`.
#[verifier::external_body]
pub(crate) fn parse_array(text: &str) -> (parsed: Result<Vec<String>, serde_json::Error>)
    ensures
        match parsed {
            Ok(elements) => json_array_elements(text@) == Some(texts_view(elements@)),
            Err(_) => json_array_elements(text@) is None,
        },
{
    let elements: Vec<serde_json::Value> = serde_json::from_str(text)?;
    Ok(elements.into_iter().map(|value| value.to_string()).collect())
}

/// Calls `serde_json::from_str` for an optional string.
#[verifier::external_body]
pub(crate) fn parse_optional_string(text: &str) -> (parsed: Result<Option<String>, serde_json::Error>)
    ensures
        match parsed {
            Ok(Some(value)) => json_optional_string(text@) == Some(Some(value@)),
            Ok(None) => json_optional_string(text@) == Some(None::<Seq<char>>),
            Err(_) => json_optional_string(text@) is None,
        },
{
    serde_json::from_str::<Option<String>>(text)
}

/// Calls `serde_json::to_string` on a string, which never fails.
#[verifier::external_body]
pub(crate) fn render_string(text: &str) -> (rendered: Result<String, serde_json::Error>)
    ensures
        rendered is Ok,
        rendered matches Ok(literal) ==> literal@ == json_string_literal(text@),
{
    serde_json::to_string(text)
}

/// The members of an object, rendered and separated by commas.
pub open spec fn members_json(members: Seq<(Seq<char>, Seq<char>)>) -> Seq<char>
    decreases members.len(),
{
    if members.len() == 0 {
        Seq::empty()
    } else if members.len() == 1 {
        json_string_literal(members[0].0) + ":"@ + members[0].1
    } else {
        members_json(members.drop_last()) + ","@ + json_string_literal(members.last().0) + ":"@
            + members.last().1
    }
}

/// The JSON object with the given members, in order.
pub open spec fn object_json(members: Seq<(Seq<char>, Seq<char>)>) -> Seq<char> {
    "{"@ + members_json(members) + "}"@
}

/// The elements of an array, separated by commas.
pub open spec fn elements_json(elements: Seq<Seq<char>>) -> Seq<char>
    decreases elements.len(),
{
    if elements.len() == 0 {
        Seq::empty()
    } else if elements.len() == 1 {
        elements[0]
    } else {
        elements_json(elements.drop_last()) + ","@ + elements.last()
    }
}

/// The JSON array with the given elements, in order.
pub open spec fn array_json(elements: Seq<Seq<char>>) -> Seq<char> {
    "["@ + elements_json(elements) + "]"@
}

/// The JSON text for an optional string: its literal, or `null`.
pub open spec fn optional_string_json(text: Option<Seq<char>>) -> Seq<char> {
    match text {
        Some(value) => json_string_literal(value),
        None => "null"@,
    }
}

/// The value of the last member of `members` with the given key.
pub open spec fn member_value(members: Seq<(Seq<char>, Seq<char>)>, key: Seq<char>) -> Option<
    Seq<char>,
>
    decreases members.len(),
{
    if members.len() == 0 {
        None
    } else if members.last().0 == key {
        Some(members.last().1)
    } else {
        member_value(members.drop_last(), key)
    }
}

/// The JSON string literal for `text`.
pub fn string_literal(text: &str) -> (literal: String)
    ensures
        literal@ == json_string_literal(text@),
{
    match render_string(text) {
        Ok(literal) => literal,
        Err(_) => String::new(),
    }
}

/// The JSON text for an optional string.
pub fn optional_string_text(text: &Option<String>) -> (rendered: String)
    ensures
        rendered@ == optional_string_json(crate::models::text_view(*text)),
{
    match text {
        Some(value) => string_literal(value.as_str()),
        None => "null".to_owned(),
    }
}

/// The JSON object with the given members, in order.
pub fn render_object(members: &Vec<JsonMember>) -> (text: String)
    ensures
        text@ == object_json(members_view(members@)),
{
    let mut text = "{".to_owned();
    let mut i: usize = 0;
    while i < members.len()
        invariant
            i <= members.len(),
            text@ == "{"@ + members_json(members_view(members@).take(i as int)),
        decreases members.len() - i,
    {
        let ghost before = members_view(members@).take(i as int);
        let ghost after = members_view(members@).take(i as int + 1);
        let literal = string_literal(members[i].key.as_str());
        if i > 0 {
            text.append(",");
        }
        text.append(literal.as_str());
        text.append(":");
        text.append(members[i].value.as_str());
        proof {
            assert(after.drop_last() =~= before);
            assert(after.last() == members[i as int]@);
            if i == 0 {
                assert(before.len() == 0);
                assert(text@ =~= "{"@ + members_json(after));
            } else {
                assert(text@ =~= "{"@ + members_json(after));
            }
        }
        i += 1;
    }
    assert(members_view(members@).take(i as int) =~= members_view(members@));
    text.append("}");
    text
}

/// The JSON array with the given elements, in order.
pub fn render_array(elements: &Vec<String>) -> (text: String)
    ensures
        text@ == array_json(texts_view(elements@)),
{
    let mut text = "[".to_owned();
    let mut i: usize = 0;
    while i < elements.len()
        invariant
            i <= elements.len(),
            text@ == "["@ + elements_json(texts_view(elements@).take(i as int)),
        decreases elements.len() - i,
    {
        let ghost before = texts_view(elements@).take(i as int);
        let ghost after = texts_view(elements@).take(i as int + 1);
        if i > 0 {
            text.append(",");
        }
        text.append(elements[i].as_str());
        proof {
            assert(after.drop_last() =~= before);
            assert(after.last() == elements[i as int]@);
            assert(text@ =~= "["@ + elements_json(after));
        }
        i += 1;
    }
    assert(texts_view(elements@).take(i as int) =~= texts_view(elements@));
    text.append("]");
    text
}

/// The position of the last member of `members` with the given key.
pub fn find_member(members: &Vec<JsonMember>, key: &str) -> (found: Option<usize>)
    ensures
        match found {
            Some(at) => at < members.len() && members[at as int].key@ == key@ && member_value(
                members_view(members@),
                key@,
            ) == Some(members[at as int].value@) && forall|k: int|
                at < k < members.len() ==> (#[trigger] members[k]).key@ != key@,
            None => member_value(members_view(members@), key@) is None && forall|k: int|
                0 <= k < members.len() ==> (#[trigger] members[k]).key@ != key@,
        },
{
    let mut i: usize = members.len();
    assert(members_view(members@).take(i as int) =~= members_view(members@));
    while i > 0
        invariant
            i <= members.len(),
            member_value(members_view(members@), key@) == member_value(
                members_view(members@).take(i as int),
                key@,
            ),
            forall|k: int| i <= k < members.len() ==> (#[trigger] members[k]).key@ != key@,
        decreases i,
    {
        let ghost current = members_view(members@).take(i as int);
        assert(current.last() == members[i as int - 1]@);
        assert(current.drop_last() =~= members_view(members@).take(i as int - 1));
        if crate::models::same_str(members[i - 1].key.as_str(), key) {
            return Some(i - 1);
        }
        i -= 1;
    }
    None
}

} // verus!
