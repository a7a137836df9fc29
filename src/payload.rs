use vstd::prelude::*;
use crate::window::text_view;

verus! {

/// A member of a decoded JSON object: text, or a value of any other type.
pub enum JsonMember {
    Text(String),
    Other,
}

/// The JSON text held by a member, if it is a string.
pub open spec fn member_text(m: JsonMember) -> Option<Seq<char>> {
    match m {
        JsonMember::Text(s) => Some(s@),
        JsonMember::Other => None,
    }
}

/// The members of a decoded object, as names and string contents.
pub open spec fn members_view(ms: Seq<(String, JsonMember)>) -> Seq<(Seq<char>, Option<Seq<char>>)> {
    ms.map_values(|p: (String, JsonMember)| (p.0@, member_text(p.1)))
}

/// The members of the JSON object written in `text`, or nothing when `text`
/// is not a JSON object.
pub uninterp spec fn json_object_members(text: Seq<char>) -> Option<Seq<(Seq<char>, Option<Seq<char>>)>>;

/// Relies on `serde_json::from_str` into a `serde_json::Map`: decodes a JSON
/// object, failing on malformed text and on any other JSON value.
#[verifier::external_body]
fn decode_json_object(text: &str) -> (r: Option<Vec<(String, JsonMember)>>)
    ensures
        match r {
            Some(ms) => json_object_members(text@) == Some(members_view(ms@)),
            None => json_object_members(text@) is None,
        },
{
    serde_json::from_str::<serde_json::Map<String, serde_json::Value>>(text).ok().map(
        |m| m.into_iter().map(|(k, v)| match v {
            serde_json::Value::String(s) => (k, JsonMember::Text(s)),
            _ => (k, JsonMember::Other),
        }).collect(),
    )
}

/// The payload of the companion service's `ActiveWindow` method.
pub struct ActiveWindow {
    pub wm_class: String,
    pub title: String,
}

/// What the first member named `key` holds, if there is one.
pub open spec fn member_lookup(ms: Seq<(Seq<char>, Option<Seq<char>>)>, key: Seq<char>) -> Option<Option<Seq<char>>>
    decreases ms.len(),
{
    if ms.len() == 0 {
        None
    } else if ms[0].0 == key {
        Some(ms[0].1)
    } else {
        member_lookup(ms.drop_first(), key)
    }
}

/// An optional text field: empty when absent, its text when a string, and a
/// decoding failure (nothing) for any other value.
pub open spec fn text_field(ms: Seq<(Seq<char>, Option<Seq<char>>)>, key: Seq<char>) -> Option<Seq<char>> {
    match member_lookup(ms, key) {
        None => Some(Seq::empty()),
        Some(v) => v,
    }
}

pub open spec fn class_field() -> Seq<char> {
    seq!['w', 'm', '_', 'c', 'l', 'a', 's', 's']
}

pub open spec fn title_field() -> Seq<char> {
    seq!['t', 'i', 't', 'l', 'e']
}

/// The `(wm_class, title)` that the object's members decode to, if both fields
/// decode.
pub open spec fn active_window_of(ms: Seq<(Seq<char>, Option<Seq<char>>)>) -> Option<(Seq<char>, Seq<char>)> {
    match (text_field(ms, class_field()), text_field(ms, title_field())) {
        (Some(c), Some(t)) => Some((c, t)),
        _ => None,
    }
}

/// The `wm_class` that an `ActiveWindow` payload text yields, if it decodes.
pub open spec fn payload_class(text: Seq<char>) -> Option<Seq<char>> {
    match json_object_members(text) {
        Some(ms) => match active_window_of(ms) {
            Some(w) => Some(w.0),
            None => None,
        },
        None => None,
    }
}

proof fn lemma_member_step(ms: Seq<(Seq<char>, Option<Seq<char>>)>, key: Seq<char>, i: int)
    requires
        0 <= i < ms.len(),
        forall|j: int| 0 <= j < i ==> ms[j].0 != key,
    ensures
        member_lookup(ms, key) == (if ms[i].0 == key {
            Some(ms[i].1)
        } else {
            member_lookup(ms.subrange(i + 1, ms.len() as int), key)
        }),
    decreases i,
{
    if i > 0 {
        lemma_member_step(ms.drop_first(), key, i - 1);
        assert(ms.drop_first().subrange(i, ms.len() - 1) =~= ms.subrange(i + 1, ms.len() as int));
    }
}

proof fn lemma_member_none(ms: Seq<(Seq<char>, Option<Seq<char>>)>, key: Seq<char>)
    requires
        forall|j: int| 0 <= j < ms.len() ==> ms[j].0 != key,
    ensures
        member_lookup(ms, key) is None,
    decreases ms.len(),
{
    if ms.len() > 0 {
        assert(forall|j: int| 0 <= j < ms.len() - 1 ==> ms.drop_first()[j] == ms[j + 1]);
        lemma_member_none(ms.drop_first(), key);
    }
}

/// Decodes one optional text field of the payload.
fn read_text_field(members: &Vec<(String, JsonMember)>, key: &String) -> (r: Option<String>)
    ensures
        text_view(r) == text_field(members_view(members@), key@),
{
    let ghost mv = members_view(members@);
    let mut i: usize = 0;
    while i < members.len()
        invariant
            i <= members.len(),
            mv == members_view(members@),
            mv.len() == members@.len(),
            forall|j: int| 0 <= j < i ==> mv[j].0 != key@,
        decreases members.len() - i,
    {
        assert(mv[i as int] == (members@[i as int].0@, member_text(members@[i as int].1)));
        if members[i].0 == *key {
            proof {
                lemma_member_step(mv, key@, i as int);
            }
            return match &members[i].1 {
                JsonMember::Text(s) => Some(s.clone()),
                JsonMember::Other => None,
            };
        }
        i = i + 1;
    }
    proof {
        lemma_member_none(mv, key@);
    }
    Some(String::new())
}

/// Builds the payload from a decoded object's members: each field defaults to
/// empty text when absent, and any field that is present but not a string
/// fails the whole decoding. Other members are ignored.
///
/// The payload must be a JSON object: an array such as `["Code","x"]` is not
/// accepted. Of a key written twice, the JSON decoder keeps the last value,
/// so a repeated `wm_class` yields its last value rather than a failure.
pub fn decode_active_window(members: &Vec<(String, JsonMember)>) -> (r: Option<ActiveWindow>)
    ensures
        match r {
            Some(w) => active_window_of(members_view(members@)) == Some((w.wm_class@, w.title@)),
            None => active_window_of(members_view(members@)) is None,
        },
{
    let class_key = "wm_class".to_owned();
    let title_key = "title".to_owned();
    proof {
        reveal_strlit("wm_class");
        reveal_strlit("title");
    }
    assert(class_key@ =~= class_field());
    assert(title_key@ =~= title_field());
    let wm_class = read_text_field(members, &class_key);
    let title = read_text_field(members, &title_key);
    match (wm_class, title) {
        (Some(wm_class), Some(title)) => Some(ActiveWindow { wm_class, title }),
        _ => None,
    }
}

/// The `wm_class` of an `ActiveWindow` payload text; nothing when the text is
/// not an object whose `wm_class` and `title` are strings or absent. An empty
/// class is returned as it is.
pub fn active_window_class(text: &str) -> (r: Option<String>)
    ensures
        text_view(r) == payload_class(text@),
{
    match decode_json_object(text) {
        Some(members) => match decode_active_window(&members) {
            Some(w) => Some(w.wm_class),
            None => None,
        },
        None => None,
    }
}

} // verus!
