use vstd::prelude::*;
use serde_yaml::Value;

verus! {

#[verifier::external_type_specification]
#[verifier::external_body]
pub struct ExYamlValue(Value);

/// The value of a top-level configuration field, as far as the schema check
/// reads it. A null value (`modmap:`, `modmap: ~`, `modmap: null`) is read as
/// no entries: once parsed, these forms cannot be told apart.
pub enum YamlField {
    Sequence(Vec<Value>),
    Null,
    Other,
}

/// The shape of a top-level field's value; a sequence with its length.
#[derive(PartialEq, Eq, Structural, Clone, Copy, Debug)]
pub enum FieldShape {
    Sequence(usize),
    Null,
    Other,
}

pub open spec fn shape_of(f: YamlField) -> FieldShape {
    match f {
        YamlField::Sequence(v) => FieldShape::Sequence(v@.len() as usize),
        YamlField::Null => FieldShape::Null,
        YamlField::Other => FieldShape::Other,
    }
}

pub open spec fn key_view(k: Option<String>) -> Option<Seq<char>> {
    match k {
        Some(s) => Some(s@),
        None => None,
    }
}

/// The top-level entries as keys (text keys only) and value shapes.
pub open spec fn entries_view(es: Seq<(Option<String>, YamlField)>) -> Seq<(Option<Seq<char>>, FieldShape)> {
    es.map_values(|e: (Option<String>, YamlField)| (key_view(e.0), shape_of(e.1)))
}

/// The entries of the top-level YAML mapping written in `text`, in document
/// order, or nothing when `text` is malformed or its top level is no mapping.
pub uninterp spec fn yaml_mapping_entries(text: Seq<char>) -> Option<Seq<(Option<Seq<char>>, FieldShape)>>;

/// Relies on `serde_yaml::from_str` into a `serde_yaml::Mapping`: parses the
/// document's top-level mapping (an empty document is an empty mapping), and
/// fails on malformed text, duplicate keys or another top-level value.
#[verifier::external_body]
fn parse_yaml_mapping(text: &str) -> (r: Option<Vec<(Option<String>, YamlField)>>)
    ensures
        match r {
            Some(es) => yaml_mapping_entries(text@) == Some(entries_view(es@)),
            None => yaml_mapping_entries(text@) is None,
        },
{
    serde_yaml::from_str::<serde_yaml::Mapping>(text).ok().map(
        |m| m.into_iter().map(|(k, v)| {
            let key = match k {
                Value::String(s) => Some(s),
                _ => None,
            };
            match v {
                Value::Sequence(items) => (key, YamlField::Sequence(items)),
                Value::Null => (key, YamlField::Null),
                _ => (key, YamlField::Other),
            }
        }).collect(),
    )
}

/// A key-remapping configuration: its `modmap` and `keymap` entries, whose
/// own schemas are read by their consumers.
pub struct Config {
    pub modmap: Vec<Value>,
    pub keymap: Vec<Value>,
}

/// Why a configuration document was rejected.
pub enum ConfigError {
    /// The text is not YAML, or its top level is not a mapping.
    Malformed,
    /// A top-level field other than `modmap` and `keymap`; a key that is not
    /// text has no name.
    UnknownField(Option<String>),
    /// A recognised field given twice.
    DuplicateField(String),
    /// A recognised field whose value is not a sequence.
    NotSequence(String),
}

pub open spec fn modmap_key() -> Seq<char> {
    seq!['m', 'o', 'd', 'm', 'a', 'p']
}

pub open spec fn keymap_key() -> Seq<char> {
    seq!['k', 'e', 'y', 'm', 'a', 'p']
}

pub open spec fn known_key(k: Option<Seq<char>>) -> bool {
    k == Some(modmap_key()) || k == Some(keymap_key())
}

/// Whether entry `i` breaks the schema: an unknown key, a key seen before, or
/// a value that is neither a sequence nor null.
pub open spec fn entry_fault(es: Seq<(Option<Seq<char>>, FieldShape)>, i: int) -> bool {
    ||| !known_key(es[i].0)
    ||| exists|j: int| 0 <= j < i && es[j].0 == es[i].0
    ||| es[i].1 == FieldShape::Other
}

/// The first faulty entry among the first `n`.
pub open spec fn first_fault(es: Seq<(Option<Seq<char>>, FieldShape)>, n: int) -> Option<int>
    decreases n,
{
    if n <= 0 {
        None
    } else {
        match first_fault(es, n - 1) {
            Some(i) => Some(i),
            None => if entry_fault(es, n - 1) {
                Some(n - 1)
            } else {
                None
            },
        }
    }
}

/// The error that faulty entry `i` is reported with, checked in this order:
/// unknown key, repeated key, value of the wrong type.
pub open spec fn error_for(es: Seq<(Option<Seq<char>>, FieldShape)>, i: int, e: ConfigError) -> bool {
    if !known_key(es[i].0) {
        e matches ConfigError::UnknownField(k) && key_view(k) == es[i].0
    } else if exists|j: int| 0 <= j < i && es[j].0 == es[i].0 {
        e matches ConfigError::DuplicateField(k) && Some(k@) == es[i].0
    } else {
        e matches ConfigError::NotSequence(k) && Some(k@) == es[i].0
    }
}

/// The items of the first entry named `key`; none when it is absent or null.
pub open spec fn field_items(es: Seq<(Option<String>, YamlField)>, key: Seq<char>) -> Seq<Value>
    decreases es.len(),
{
    if es.len() == 0 {
        Seq::empty()
    } else if key_view(es[0].0) == Some(key) {
        match es[0].1 {
            YamlField::Sequence(v) => v@,
            _ => Seq::empty(),
        }
    } else {
        field_items(es.drop_first(), key)
    }
}

/// What a document's top-level entries decode to: the configuration when no
/// entry breaks the schema, else the error of the first that does.
pub open spec fn config_of_entries(es: Seq<(Option<String>, YamlField)>, r: Result<Config, ConfigError>) -> bool {
    let v = entries_view(es);
    match first_fault(v, v.len() as int) {
        None => r matches Ok(c) && c.modmap@ == field_items(es, modmap_key()) && c.keymap@ == field_items(es, keymap_key()),
        Some(i) => r matches Err(e) && error_for(v, i, e),
    }
}

/// The items that a field's value stands for: none for null.
pub open spec fn items_of(f: YamlField) -> Seq<Value> {
    match f {
        YamlField::Sequence(v) => v@,
        _ => Seq::empty(),
    }
}

proof fn lemma_field_items_at(es: Seq<(Option<String>, YamlField)>, key: Seq<char>, m: int)
    requires
        0 <= m < es.len(),
        key_view(es[m].0) == Some(key),
        forall|j: int| 0 <= j < m ==> key_view(#[trigger] es[j].0) != Some(key),
    ensures
        field_items(es, key) == items_of(es[m].1),
    decreases m,
{
    if m > 0 {
        assert(forall|j: int| 0 <= j < m - 1 ==> es.drop_first()[j] == es[j + 1]);
        assert(key_view(es[0].0) != Some(key));
        lemma_field_items_at(es.drop_first(), key, m - 1);
    } else {
        match es[0].1 {
            YamlField::Sequence(v) => {},
            _ => {},
        }
    }
}

proof fn lemma_field_items_absent(es: Seq<(Option<String>, YamlField)>, key: Seq<char>)
    requires
        forall|j: int| 0 <= j < es.len() ==> key_view(#[trigger] es[j].0) != Some(key),
    ensures
        field_items(es, key) == Seq::<Value>::empty(),
    decreases es.len(),
{
    if es.len() > 0 {
        assert(forall|j: int| 0 <= j < es.len() - 1 ==> es.drop_first()[j] == es[j + 1]);
        assert(key_view(es[0].0) != Some(key));
        lemma_field_items_absent(es.drop_first(), key);
    }
}

proof fn lemma_first_fault_stays(es: Seq<(Option<Seq<char>>, FieldShape)>, i: int, n: int)
    requires
        0 <= i < n,
        first_fault(es, i + 1) == Some(i),
    ensures
        first_fault(es, n) == Some(i),
    decreases n,
{
    if n > i + 1 {
        lemma_first_fault_stays(es, i, n - 1);
    }
}

/// Takes the items out of a field's value.
fn take_items(f: YamlField) -> (r: Vec<Value>)
    ensures
        r@ == items_of(f),
{
    match f {
        YamlField::Sequence(v) => v,
        _ => Vec::new(),
    }
}

/// Checks a document's top-level entries against the schema, in order, and
/// builds the configuration. The first entry with an unknown key, a repeated
/// key, or a value that is not a sequence rejects the whole document; a
/// missing or null field stands for no entries.
pub fn config_from_entries(entries: Vec<(Option<String>, YamlField)>) -> (r: Result<Config, ConfigError>)
    ensures
        config_of_entries(entries@, r),
{
    let ghost es = entries@;
    let ghost v = entries_view(es);
    let modmap_name = "modmap".to_owned();
    let keymap_name = "keymap".to_owned();
    proof {
        reveal_strlit("modmap");
        reveal_strlit("keymap");
    }
    assert(modmap_name@ =~= modmap_key());
    assert(keymap_name@ =~= keymap_key());
    assert(modmap_key() != keymap_key()) by {
        assert(modmap_key()[0] != keymap_key()[0]);
    }
    let mut modmap_at: Option<usize> = None;
    let mut keymap_at: Option<usize> = None;
    let mut i: usize = 0;
    while i < entries.len()
        invariant
            es == entries@,
            v == entries_view(es),
            modmap_name@ == modmap_key(),
            keymap_name@ == keymap_key(),
            modmap_key() != keymap_key(),
            v.len() == es.len(),
            i <= es.len(),
            first_fault(v, i as int) is None,
            forall|j: int| 0 <= j < i ==> known_key(#[trigger] v[j].0),
            match modmap_at {
                Some(m) => m < i && v[m as int].0 == Some(modmap_key())
                    && forall|j: int| 0 <= j < m ==> (#[trigger] v[j]).0 != Some(modmap_key()),
                None => forall|j: int| 0 <= j < i ==> (#[trigger] v[j]).0 != Some(modmap_key()),
            },
            match keymap_at {
                Some(m) => m < i && v[m as int].0 == Some(keymap_key())
                    && forall|j: int| 0 <= j < m ==> (#[trigger] v[j]).0 != Some(keymap_key()),
                None => forall|j: int| 0 <= j < i ==> (#[trigger] v[j]).0 != Some(keymap_key()),
            },
        decreases es.len() - i,
    {
        assert(v[i as int] == (key_view(es[i as int].0), shape_of(es[i as int].1)));
        let ghost ii = i as int;
        let is_other = match &entries[i].1 {
            YamlField::Other => true,
            _ => false,
        };
        match &entries[i].0 {
            None => {
                proof {
                    lemma_first_fault_stays(v, ii, v.len() as int);
                }
                return Err(ConfigError::UnknownField(None));
            },
            Some(k) => {
                if *k == modmap_name {
                    if modmap_at.is_some() {
                        proof {
                            let m = modmap_at->Some_0 as int;
                            assert(v[m].0 == v[ii].0);
                            lemma_first_fault_stays(v, ii, v.len() as int);
                        }
                        return Err(ConfigError::DuplicateField(k.clone()));
                    }
                    if is_other {
                        proof {
                            lemma_first_fault_stays(v, ii, v.len() as int);
                        }
                        return Err(ConfigError::NotSequence(k.clone()));
                    }
                    modmap_at = Some(i);
                } else if *k == keymap_name {
                    if keymap_at.is_some() {
                        proof {
                            let m = keymap_at->Some_0 as int;
                            assert(v[m].0 == v[ii].0);
                            lemma_first_fault_stays(v, ii, v.len() as int);
                        }
                        return Err(ConfigError::DuplicateField(k.clone()));
                    }
                    if is_other {
                        proof {
                            lemma_first_fault_stays(v, ii, v.len() as int);
                        }
                        return Err(ConfigError::NotSequence(k.clone()));
                    }
                    keymap_at = Some(i);
                } else {
                    proof {
                        lemma_first_fault_stays(v, ii, v.len() as int);
                    }
                    return Err(ConfigError::UnknownField(Some(k.clone())));
                }
            },
        }
        assert(!entry_fault(v, ii));
        i = i + 1;
    }
    proof {
        assert forall|j: int| 0 <= j < es.len() implies #[trigger] key_view(es[j].0) == v[j].0 by {
            assert(v[j] == (key_view(es[j].0), shape_of(es[j].1)));
        }
    }
    let mut entries = entries;
    let (modmap, keymap) = match (modmap_at, keymap_at) {
        (Some(m), Some(k)) => {
            proof {
                lemma_field_items_at(es, modmap_key(), m as int);
                lemma_field_items_at(es, keymap_key(), k as int);
            }
            if m < k {
                let ke = entries.remove(k);
                let me = entries.remove(m);
                (take_items(me.1), take_items(ke.1))
            } else {
                let me = entries.remove(m);
                let ke = entries.remove(k);
                (take_items(me.1), take_items(ke.1))
            }
        },
        (Some(m), None) => {
            proof {
                lemma_field_items_at(es, modmap_key(), m as int);
                lemma_field_items_absent(es, keymap_key());
            }
            let me = entries.remove(m);
            (take_items(me.1), Vec::new())
        },
        (None, Some(k)) => {
            proof {
                lemma_field_items_absent(es, modmap_key());
                lemma_field_items_at(es, keymap_key(), k as int);
            }
            let ke = entries.remove(k);
            (Vec::new(), take_items(ke.1))
        },
        (None, None) => {
            proof {
                lemma_field_items_absent(es, modmap_key());
                lemma_field_items_absent(es, keymap_key());
            }
            (Vec::new(), Vec::new())
        },
    };
    Ok(Config { modmap, keymap })
}

/// The number of items of the first entry named `key`; none when it is absent
/// or not a sequence.
pub open spec fn field_len(v: Seq<(Option<Seq<char>>, FieldShape)>, key: Seq<char>) -> nat
    decreases v.len(),
{
    if v.len() == 0 {
        0
    } else if v[0].0 == Some(key) {
        match v[0].1 {
            FieldShape::Sequence(n) => n as nat,
            _ => 0,
        }
    } else {
        field_len(v.drop_first(), key)
    }
}

proof fn lemma_field_len(es: Seq<(Option<String>, YamlField)>, key: Seq<char>)
    requires
        forall|i: int| 0 <= i < es.len() ==> items_of((#[trigger] es[i]).1).len() <= usize::MAX,
    ensures
        field_items(es, key).len() == field_len(entries_view(es), key),
    decreases es.len(),
{
    let v = entries_view(es);
    if es.len() > 0 {
        assert(v[0] == (key_view(es[0].0), shape_of(es[0].1)));
        assert(entries_view(es.drop_first()) =~= v.drop_first());
        assert(forall|i: int| 0 <= i < es.len() - 1 ==> es.drop_first()[i] == es[i + 1]);
        assert(es[0] == es[0]);
        lemma_field_len(es.drop_first(), key);
    }
}

/// Parses a configuration document. It is rejected as malformed when it is
/// not YAML or its top level is not a mapping; otherwise its top-level entries
/// decide, as `config_from_entries` states: in particular any field other
/// than `modmap` and `keymap` rejects it, and no partial configuration is
/// ever returned.
pub fn parse_config(text: &str) -> (r: Result<Config, ConfigError>)
    ensures
        yaml_mapping_entries(text@) is None ==> r matches Err(ConfigError::Malformed),
        yaml_mapping_entries(text@) matches Some(v) ==> exists|es: Seq<(Option<String>, YamlField)>|
            entries_view(es) == v && #[trigger] config_of_entries(es, r),
        yaml_mapping_entries(text@) matches Some(v) && (exists|i: int| 0 <= i < v.len() && !known_key(#[trigger] v[i].0))
            ==> r is Err,
        r matches Ok(c) ==> yaml_mapping_entries(text@) matches Some(v)
            && c.modmap@.len() == field_len(v, modmap_key())
            && c.keymap@.len() == field_len(v, keymap_key()),
{
    match parse_yaml_mapping(text) {
        Some(entries) => {
            let ghost es = entries@;
            proof {
                assert forall|i: int| 0 <= i < es.len() implies items_of((#[trigger] es[i]).1).len() <= usize::MAX by {
                    match es[i].1 {
                        YamlField::Sequence(v) => {
                            assert(v@.len() == v.len());
                        },
                        _ => {},
                    }
                }
                lemma_field_len(es, modmap_key());
                lemma_field_len(es, keymap_key());
            }
            let r = config_from_entries(entries);
            proof {
                lemma_unknown_key_rejected(es, r);
            }
            r
        },
        None => Err(ConfigError::Malformed),
    }
}

proof fn lemma_fault_exists(v: Seq<(Option<Seq<char>>, FieldShape)>, i: int, n: int)
    requires
        0 <= i < n,
        entry_fault(v, i),
    ensures
        first_fault(v, n) is Some,
    decreases n,
{
    if n - 1 > i {
        lemma_fault_exists(v, i, n - 1);
    }
}

/// A document with a top-level field other than `modmap` and `keymap` is
/// rejected as a whole.
pub proof fn lemma_unknown_key_rejected(es: Seq<(Option<String>, YamlField)>, r: Result<Config, ConfigError>)
    requires
        config_of_entries(es, r),
    ensures
        (exists|i: int| 0 <= i < es.len() && !known_key(#[trigger] entries_view(es)[i].0)) ==> r is Err,
{
    let v = entries_view(es);
    if exists|i: int| 0 <= i < es.len() && !known_key(#[trigger] entries_view(es)[i].0) {
        let i = choose|i: int| 0 <= i < es.len() && !known_key(#[trigger] entries_view(es)[i].0);
        lemma_fault_exists(v, i, v.len() as int);
    }
}

} // verus!
