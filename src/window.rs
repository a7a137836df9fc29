use vstd::prelude::*;

verus! {

/// A window property as the shell reports it: only booleans and text are read.
pub enum PropValue {
    Bool(bool),
    Text(String),
    Other,
}

/// One window of a snapshot: its identifier and its named properties.
pub struct WindowEntry {
    pub id: u64,
    pub properties: Vec<(String, PropValue)>,
}

/// The text held by an optional `String`.
pub open spec fn text_view(o: Option<String>) -> Option<Seq<char>> {
    match o {
        Some(s) => Some(s@),
        None => None,
    }
}

/// The value of the first property named `key`, if any.
pub open spec fn prop_lookup(props: Seq<(String, PropValue)>, key: Seq<char>) -> Option<PropValue>
    decreases props.len(),
{
    if props.len() == 0 {
        None
    } else if props[0].0@ == key {
        Some(props[0].1)
    } else {
        prop_lookup(props.drop_first(), key)
    }
}

pub open spec fn focus_key() -> Seq<char> {
    seq!['h', 'a', 's', '-', 'f', 'o', 'c', 'u', 's']
}

pub open spec fn class_key() -> Seq<char> {
    seq!['w', 'm', '-', 'c', 'l', 'a', 's', 's']
}

/// A window counts as focused only when `has-focus` is the boolean `true`.
pub open spec fn is_focused(w: WindowEntry) -> bool {
    prop_lookup(w.properties@, focus_key()) == Some(PropValue::Bool(true))
}

/// The `wm-class` of a window, when it is text.
pub open spec fn class_of(w: WindowEntry) -> Option<Seq<char>> {
    match prop_lookup(w.properties@, class_key()) {
        Some(PropValue::Text(s)) => Some(s@),
        _ => None,
    }
}

/// The class of the first focused window in `ws`; nothing when none is focused.
pub open spec fn focused_class(ws: Seq<WindowEntry>) -> Option<Seq<char>>
    decreases ws.len(),
{
    if ws.len() == 0 {
        None
    } else if is_focused(ws[0]) {
        class_of(ws[0])
    } else {
        focused_class(ws.drop_first())
    }
}

proof fn lemma_lookup_step(props: Seq<(String, PropValue)>, key: Seq<char>, i: int)
    requires
        0 <= i < props.len(),
        forall|j: int| 0 <= j < i ==> props[j].0@ != key,
    ensures
        prop_lookup(props, key) == (if props[i].0@ == key {
            Some(props[i].1)
        } else {
            prop_lookup(props.subrange(i + 1, props.len() as int), key)
        }),
    decreases i,
{
    if i > 0 {
        lemma_lookup_step(props.drop_first(), key, i - 1);
        assert(props.drop_first().subrange(i, props.len() - 1) =~= props.subrange(i + 1, props.len() as int));
    }
}

proof fn lemma_focus_step(ws: Seq<WindowEntry>, i: int)
    requires
        0 <= i < ws.len(),
        forall|j: int| 0 <= j < i ==> !is_focused(#[trigger] ws[j]),
    ensures
        focused_class(ws) == (if is_focused(ws[i]) {
            class_of(ws[i])
        } else {
            focused_class(ws.subrange(i + 1, ws.len() as int))
        }),
    decreases i,
{
    if i > 0 {
        assert(forall|j: int| 0 <= j < i - 1 ==> ws.drop_first()[j] == ws[j + 1]);
        lemma_focus_step(ws.drop_first(), i - 1);
        assert(ws.drop_first().subrange(i, ws.len() - 1) =~= ws.subrange(i + 1, ws.len() as int));
    }
}

/// Looks up the first property named `key`.
fn find_prop<'a>(props: &'a Vec<(String, PropValue)>, key: &String) -> (r: Option<&'a PropValue>)
    ensures
        match r {
            Some(p) => prop_lookup(props@, key@) == Some(*p),
            None => prop_lookup(props@, key@) is None,
        },
{
    let mut i: usize = 0;
    while i < props.len()
        invariant
            i <= props.len(),
            forall|j: int| 0 <= j < i ==> props@[j].0@ != key@,
        decreases props.len() - i,
    {
        if props[i].0 == *key {
            proof {
                lemma_lookup_step(props@, key@, i as int);
            }
            return Some(&props[i].1);
        }
        i = i + 1;
    }
    proof {
        assert(forall|j: int| 0 <= j < props@.len() ==> props@[j].0@ != key@);
        lemma_lookup_none(props@, key@);
    }
    None
}

proof fn lemma_lookup_none(props: Seq<(String, PropValue)>, key: Seq<char>)
    requires
        forall|j: int| 0 <= j < props.len() ==> props[j].0@ != key,
    ensures
        prop_lookup(props, key) is None,
    decreases props.len(),
{
    if props.len() > 0 {
        assert(forall|j: int| 0 <= j < props.len() - 1 ==> props.drop_first()[j] == props[j + 1]);
        lemma_lookup_none(props.drop_first(), key);
    }
}

/// Whether the window reports `has-focus` as the boolean `true`; a missing or
/// non-boolean value counts as unfocused.
pub fn window_is_focused(w: &WindowEntry) -> (r: bool)
    ensures
        r == is_focused(*w),
{
    let key = "has-focus".to_owned();
    proof {
        reveal_strlit("has-focus");
    }
    assert(key@ =~= focus_key());
    match find_prop(&w.properties, &key) {
        Some(PropValue::Bool(b)) => *b,
        _ => false,
    }
}

/// The window's `wm-class` when it is text; nothing when it is missing or of
/// another type.
pub fn window_class(w: &WindowEntry) -> (r: Option<String>)
    ensures
        text_view(r) == class_of(*w),
{
    let key = "wm-class".to_owned();
    proof {
        reveal_strlit("wm-class");
    }
    assert(key@ =~= class_key());
    match find_prop(&w.properties, &key) {
        Some(PropValue::Text(s)) => Some(s.clone()),
        _ => None,
    }
}

/// Scans the windows in order and returns the `wm-class` of the first one that
/// has focus. Later focused windows are never consulted, even when the first
/// one has no usable class.
pub fn focused_wm_class(windows: &Vec<WindowEntry>) -> (r: Option<String>)
    ensures
        text_view(r) == focused_class(windows@),
{
    let mut i: usize = 0;
    while i < windows.len()
        invariant
            i <= windows.len(),
            forall|j: int| 0 <= j < i ==> !is_focused(#[trigger] windows@[j]),
        decreases windows.len() - i,
    {
        if window_is_focused(&windows[i]) {
            proof {
                lemma_focus_step(windows@, i as int);
            }
            return window_class(&windows[i]);
        }
        i = i + 1;
    }
    proof {
        lemma_no_focus(windows@);
    }
    None
}

/// A snapshot in which no window has focus yields no class.
pub proof fn lemma_no_focus(ws: Seq<WindowEntry>)
    requires
        forall|j: int| 0 <= j < ws.len() ==> !is_focused(#[trigger] ws[j]),
    ensures
        focused_class(ws) is None,
    decreases ws.len(),
{
    if ws.len() > 0 {
        assert(forall|j: int| 0 <= j < ws.len() - 1 ==> ws.drop_first()[j] == ws[j + 1]);
        assert(!is_focused(ws[0]));
        lemma_no_focus(ws.drop_first());
    }
}

} // verus!
