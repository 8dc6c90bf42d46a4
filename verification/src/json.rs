//! Parts of JSON texts.

use vstd::prelude::*;
use vstd::string::*;

verus! {

/// The members of a JSON object in the order of their names, each with its text, as
/// `serde_json::from_slice` finds them, or `None` if it finds no object. Of members with one name
/// the last one counts.
pub uninterp spec fn json_object(json: Seq<u8>) -> Option<Seq<(Seq<char>, Seq<char>)>>;

/// The texts of the elements of a JSON array, as `serde_json::from_slice` finds them, or `None` if
/// it finds no array.
pub uninterp spec fn json_array(json: Seq<u8>) -> Option<Seq<Seq<char>>>;

/// The characters of a JSON string, as `serde_json::from_slice` finds them, or `None` if it finds
/// no string.
pub uninterp spec fn json_string(json: Seq<u8>) -> Option<Seq<char>>;

/// Names and texts, by their characters.
pub open spec fn members_view(members: Seq<(String, String)>) -> Seq<(Seq<char>, Seq<char>)> {
    Seq::new(members.len(), |i: int| (members[i].0@, members[i].1@))
}

/// Texts, by their characters.
pub open spec fn texts_view(texts: Seq<String>) -> Seq<Seq<char>> {
    Seq::new(texts.len(), |i: int| texts[i]@)
}

/// Calls `serde_json::from_slice` for a map of raw JSON texts, which leaves the values unread. The
/// outcome is trusted to depend on the text alone.
#[verifier::external_body]
fn read_object(json: &[u8]) -> (r: Option<Vec<(String, String)>>)
    ensures
        match r {
            Some(members) => json_object(json@) == Some(members_view(members@)),
            None => json_object(json@) is None,
        },
{
    let members: std::collections::BTreeMap<String, Box<serde_json::value::RawValue>> =
        serde_json::from_slice(json).ok()?;
    Some(members.into_iter().map(|(name, value)| (name, value.get().to_owned())).collect())
}

/// Calls `serde_json::from_slice` for a list of raw JSON texts, which leaves the elements unread.
/// The outcome is trusted to depend on the text alone.
#[verifier::external_body]
fn read_array(json: &[u8]) -> (r: Option<Vec<String>>)
    ensures
        match r {
            Some(elements) => json_array(json@) == Some(texts_view(elements@)),
            None => json_array(json@) is None,
        },
{
    let elements: Vec<Box<serde_json::value::RawValue>> = serde_json::from_slice(json).ok()?;
    Some(elements.into_iter().map(|element| element.get().to_owned()).collect())
}

/// Calls `serde_json::from_slice` for a string. The outcome is trusted to depend on the text alone.
#[verifier::external_body]
fn call_string(json: &[u8]) -> (r: Option<String>)
    ensures
        match r {
            Some(text) => json_string(json@) == Some(text@),
            None => json_string(json@) is None,
        },
{
    serde_json::from_slice(json).ok()
}

/// The text of the first member that has the given name.
pub open spec fn member_of(members: Seq<(Seq<char>, Seq<char>)>, name: Seq<char>) -> Option<
    Seq<char>,
>
    decreases members.len(),
{
    if members.len() == 0 {
        None
    } else if members[0].0 == name {
        Some(members[0].1)
    } else {
        member_of(members.drop_first(), name)
    }
}

/// The text of a field of a structure. A structure is an object that has a member for each field,
/// or an array of its fields in order.
pub open spec fn field_of(json: Seq<u8>, name: Seq<char>, index: int) -> Option<Seq<char>> {
    match json_object(json) {
        Some(members) => member_of(members, name),
        None => match json_array(json) {
            Some(elements) => if 0 <= index < elements.len() {
                Some(elements[index])
            } else {
                None
            },
            None => None,
        },
    }
}

/// A string that may be missing, by its characters.
pub open spec fn optional_view(text: Option<String>) -> Option<Seq<char>> {
    match text {
        Some(text) => Some(text@),
        None => None,
    }
}

/// The members of a JSON object, in the order of their names, each with its text.
pub fn object(json: &[u8]) -> (r: Option<Vec<(String, String)>>)
    ensures
        match r {
            Some(members) => json_object(json@) == Some(members_view(members@)),
            None => json_object(json@) is None,
        },
{
    read_object(json)
}

/// The characters of a JSON string.
pub fn string(json: &[u8]) -> (r: Option<String>)
    ensures
        optional_view(r) == json_string(json@),
{
    call_string(json)
}

/// Finds the text of the first member that has the given name.
pub fn find_member(members: &Vec<(String, String)>, name: &str) -> (r: Option<String>)
    ensures
        optional_view(r) == member_of(members_view(members@), name@),
{
    let wanted = name.to_owned();
    let ghost all = members_view(members@);
    let mut i: usize = 0;
    assert(all.skip(0) =~= all);
    while i < members.len()
        invariant
            all == members_view(members@),
            wanted@ == name@,
            i <= members@.len(),
            member_of(all, name@) == member_of(all.skip(i as int), name@),
        decreases members@.len() - i,
    {
        assert(all.skip(i as int)[0] == all[i as int]);
        if members[i].0 == wanted {
            return Some(members[i].1.clone());
        }
        assert(all.skip(i as int).drop_first() =~= all.skip(i + 1));
        i += 1;
    }
    None
}

/// The text of a field of a structure.
pub fn field(json: &[u8], name: &str, index: usize) -> (r: Option<String>)
    ensures
        optional_view(r) == field_of(json@, name@, index as int),
{
    if let Some(members) = read_object(json) {
        return find_member(&members, name);
    }
    match read_array(json) {
        Some(elements) => if index < elements.len() {
            Some(elements[index].clone())
        } else {
            None
        },
        None => None,
    }
}

/// A text that is found under a name is the one of the first member that has this very name, and
/// one is found if and only if some member has it.
pub proof fn member_is_that_of_the_whole_name(
    members: Seq<(Seq<char>, Seq<char>)>,
    name: Seq<char>,
)
    ensures
        match member_of(members, name) {
            Some(text) => exists|i: int|
                {
                    &&& 0 <= i < members.len()
                    &&& #[trigger] members[i] == (name, text)
                    &&& forall|j: int| 0 <= j < i ==> (#[trigger] members[j]).0 != name
                },
            None => forall|i: int| 0 <= i < members.len() ==> (#[trigger] members[i]).0 != name,
        },
    decreases members.len(),
{
    if members.len() > 0 {
        let rest = members.drop_first();
        member_is_that_of_the_whole_name(rest, name);
        assert forall|i: int| 0 < i < members.len() implies #[trigger] members[i] == rest[i
            - 1] by {}
        if members[0].0 == name {
            assert(members[0] == (name, members[0].1));
        } else if let Some(text) = member_of(rest, name) {
            let i = choose|i: int|
                {
                    &&& 0 <= i < rest.len()
                    &&& #[trigger] rest[i] == (name, text)
                    &&& forall|j: int| 0 <= j < i ==> (#[trigger] rest[j]).0 != name
                };
            assert(members[i + 1] == (name, text));
        }
    }
}

/// A field of an object is the member that has the name of the field, a field of an array is the
/// element at the place of the field, and nothing else has fields.
pub proof fn fields_of_objects_and_arrays(json: Seq<u8>, name: Seq<char>, index: int)
    ensures
        json_object(json) matches Some(members) ==> {
            &&& field_of(json, name, index) is None <==> forall|i: int|
                0 <= i < members.len() ==> (#[trigger] members[i]).0 != name
            &&& field_of(json, name, index) matches Some(text) ==> members.contains((name, text))
        },
        json_object(json) is None ==> (json_array(json) matches Some(elements) ==> field_of(
            json,
            name,
            index,
        ) == if 0 <= index < elements.len() {
            Some(elements[index])
        } else {
            None
        }),
        json_object(json) is None && json_array(json) is None ==> field_of(json, name, index) is None,
{
    if let Some(members) = json_object(json) {
        member_is_that_of_the_whole_name(members, name);
    }
}

/// Members and elements are kept as they are, in their order.
pub proof fn texts_are_kept(members: Seq<(String, String)>, texts: Seq<String>)
    ensures
        members_view(members).len() == members.len(),
        texts_view(texts).len() == texts.len(),
        forall|i: int|
            0 <= i < members.len() ==> #[trigger] members_view(members)[i] == (
                members[i].0@,
                members[i].1@,
            ),
        forall|i: int| 0 <= i < texts.len() ==> #[trigger] texts_view(texts)[i] == texts[i]@,
{
}

} // verus!
