//! Message files: a file's JSON tree flattened into dotted keys, each with
//! its value and the type of its value.

use vstd::prelude::*;
use crate::check_context::MessageMap;
use crate::context::{MessageContext, MessageLocation, ValueType};
use crate::strmap::StrMap;
use crate::text::{chars_of, push_char, push_text, text};

verus! {

/// A JSON value of a message file.
#[derive(Debug)]
pub enum JsonValue {
    /// A string.
    Text(String),
    /// An array, with its JSON text.
    List(String),
    /// A number, a boolean or null, with its JSON text.
    Scalar(String),
    /// An object: its members in order.
    Object(Vec<(String, JsonValue)>),
}

/// A flattened entry: its dotted key, its value's text and its value's type.
pub type FlatEntry = (Seq<char>, Seq<char>, ValueType);

/// The dotted key of member `k` under `prefix`.
pub open spec fn member_key(prefix: Seq<char>, k: Seq<char>) -> Seq<char> {
    if prefix.len() == 0 { k } else { prefix + seq!['.'] + k }
}

/// The entries of the members `cs` under `prefix`, in order: an object
/// member gives the entries of its own members, any other member one entry.
pub open spec fn flat_members(prefix: Seq<char>, cs: Seq<(String, JsonValue)>) -> Seq<FlatEntry>
    decreases cs,
{
    if cs.len() == 0 {
        Seq::empty()
    } else {
        let key = member_key(prefix, cs.last().0@);
        flat_members(prefix, cs.drop_last()) + match cs.last().1 {
            JsonValue::Object(inner) => flat_members(key, inner@),
            JsonValue::Text(t) => seq![(key, t@, ValueType::String)],
            JsonValue::List(t) => seq![(key, t@, ValueType::StringArray)],
            JsonValue::Scalar(t) => seq![(key, t@, ValueType::String)],
        }
    }
}

/// The entries of a message file: those of its top object (none where the
/// file holds no object).
pub open spec fn flat_messages(root: JsonValue) -> Seq<FlatEntry> {
    match root {
        JsonValue::Object(cs) => flat_members(Seq::empty(), cs@),
        _ => Seq::empty(),
    }
}

/// The last entry with key `k`: a later entry replaces an earlier one.
pub open spec fn final_entry(es: Seq<FlatEntry>, k: Seq<char>) -> Option<FlatEntry>
    decreases es.len(),
{
    if es.len() == 0 {
        None
    } else if es.last().0 == k {
        Some(es.last())
    } else {
        final_entry(es.drop_last(), k)
    }
}

/// `out` and `types` are `o_out` and `o_types` with the entries `es` of
/// file `file` written in order, each at line 1, column 1.
pub open spec fn written(
    out: Map<Seq<char>, MessageContext>,
    types: Map<Seq<char>, ValueType>,
    file: Seq<char>,
    es: Seq<FlatEntry>,
    o_out: Map<Seq<char>, MessageContext>,
    o_types: Map<Seq<char>, ValueType>,
) -> bool {
    &&& forall|k: Seq<char>| #[trigger] out.contains_key(k) == (o_out.contains_key(k) || final_entry(es, k) is Some)
    &&& forall|k: Seq<char>| #[trigger] types.contains_key(k) == (o_types.contains_key(k) || final_entry(es, k) is Some)
    &&& forall|k: Seq<char>| #[trigger] final_entry(es, k) matches Some(e) ==> {
        &&& out[k].key@ == k
        &&& out[k].value@ == e.1
        &&& out[k].location.file_path@ == file
        &&& out[k].location.line == 1
        &&& out[k].location.col == 1
        &&& types[k] == e.2
    }
    &&& forall|k: Seq<char>| #[trigger] final_entry(es, k) is None ==> out[k] == o_out[k] && types[k] == o_types[k]
}

proof fn lemma_final_entry_concat(a: Seq<FlatEntry>, b: Seq<FlatEntry>, k: Seq<char>)
    ensures
        final_entry(a + b, k) == if final_entry(b, k) is Some { final_entry(b, k) } else { final_entry(a, k) },
    decreases b.len(),
{
    if b.len() == 0 {
        assert(a + b =~= a);
    } else {
        assert((a + b).drop_last() =~= a + b.drop_last());
        assert((a + b).last() == b.last());
        lemma_final_entry_concat(a, b.drop_last(), k);
    }
}

proof fn lemma_written_trans(
    m0: Map<Seq<char>, MessageContext>, t0: Map<Seq<char>, ValueType>,
    m1: Map<Seq<char>, MessageContext>, t1: Map<Seq<char>, ValueType>,
    m2: Map<Seq<char>, MessageContext>, t2: Map<Seq<char>, ValueType>,
    file: Seq<char>, a: Seq<FlatEntry>, b: Seq<FlatEntry>,
)
    requires
        written(m1, t1, file, a, m0, t0),
        written(m2, t2, file, b, m1, t1),
    ensures
        written(m2, t2, file, a + b, m0, t0),
{
    assert forall|k: Seq<char>| #[trigger] final_entry(a + b, k) == (if final_entry(b, k) is Some { final_entry(b, k) } else { final_entry(a, k) }) by {
        lemma_final_entry_concat(a, b, k);
    }
}

proof fn lemma_written_one(
    m0: Map<Seq<char>, MessageContext>, t0: Map<Seq<char>, ValueType>,
    c: MessageContext, t: ValueType, file: Seq<char>, e: FlatEntry,
)
    requires
        c.key@ == e.0,
        c.value@ == e.1,
        c.location.file_path@ == file,
        c.location.line == 1,
        c.location.col == 1,
        t == e.2,
    ensures
        written(m0.insert(e.0, c), t0.insert(e.0, t), file, seq![e], m0, t0),
{
    assert forall|k: Seq<char>| #[trigger] final_entry(seq![e], k) == (if e.0 == k { Some(e) } else { None }) by {
        assert(seq![e].len() == 1);
        assert(seq![e].last() == e);
        assert(seq![e].drop_last() =~= Seq::<FlatEntry>::empty());
        assert(final_entry(Seq::<FlatEntry>::empty(), k) is None);
    }
}

fn key_under(prefix: &str, k: &str) -> (r: String)
    ensures
        r@ == member_key(prefix@, k@),
{
    if chars_of(prefix).len() == 0 {
        text(k)
    } else {
        let mut r = text(prefix);
        push_char(&mut r, '.');
        push_text(&mut r, k);
        proof { assert(r@ =~= prefix@ + seq!['.'] + k@); }
        r
    }
}

fn write_one(file: &str, key: String, value: &String, t: ValueType, out: &mut MessageMap, types: &mut StrMap<ValueType>)
    ensures
        written(final(out)@, final(types)@, file@, seq![(key@, value@, t)], old(out)@, old(types)@),
{
    let c = MessageContext {
        location: MessageLocation { file_path: text(file), line: 1, col: 1 },
        key: key.clone(),
        value: value.clone(),
    };
    proof { lemma_written_one(old(out)@, old(types)@, c, t, file@, (key@, value@, t)); }
    types.insert(key.clone(), t);
    out.insert(key, c);
}

fn flatten_members(file: &str, prefix: &str, cs: &Vec<(String, JsonValue)>, out: &mut MessageMap, types: &mut StrMap<ValueType>)
    ensures
        written(final(out)@, final(types)@, file@, flat_members(prefix@, cs@), old(out)@, old(types)@),
    decreases cs@,
{
    let ghost m0 = out@;
    let ghost t0 = types@;
    proof {
        assert(cs@.take(0) =~= Seq::<(String, JsonValue)>::empty());
        assert forall|k: Seq<char>| #[trigger] final_entry(Seq::<FlatEntry>::empty(), k) is None by {}
    }
    let mut i: usize = 0;
    while i < cs.len()
        invariant
            i <= cs@.len(),
            written(out@, types@, file@, flat_members(prefix@, cs@.take(i as int)), m0, t0),
        decreases cs@.len() - i,
    {
        let ghost m1 = out@;
        let ghost t1 = types@;
        proof {
            assert(cs@.take(i + 1).drop_last() =~= cs@.take(i as int));
            assert(cs@.take(i + 1).last() == cs@[i as int]);
        }
        let key = key_under(prefix, cs[i].0.as_str());
        match &cs[i].1 {
            JsonValue::Object(inner) => {
                proof {
                    assert(decreases_to!(cs@ => cs@[i as int]));
                    assert(decreases_to!(cs@[i as int] => cs@[i as int].1));
                }
                flatten_members(file, key.as_str(), inner, out, types);
            },
            JsonValue::Text(t) => {
                write_one(file, key, t, ValueType::String, out, types);
            },
            JsonValue::List(t) => {
                write_one(file, key, t, ValueType::StringArray, out, types);
            },
            JsonValue::Scalar(t) => {
                write_one(file, key, t, ValueType::String, out, types);
            },
        }
        proof {
            let part = match cs@[i as int].1 {
                JsonValue::Object(inner) => flat_members(member_key(prefix@, cs@[i as int].0@), inner@),
                JsonValue::Text(t) => seq![(member_key(prefix@, cs@[i as int].0@), t@, ValueType::String)],
                JsonValue::List(t) => seq![(member_key(prefix@, cs@[i as int].0@), t@, ValueType::StringArray)],
                JsonValue::Scalar(t) => seq![(member_key(prefix@, cs@[i as int].0@), t@, ValueType::String)],
            };
            assert(flat_members(prefix@, cs@.take(i + 1)) == flat_members(prefix@, cs@.take(i as int)) + part);
            lemma_written_trans(m0, t0, m1, t1, out@, types@, file@, flat_members(prefix@, cs@.take(i as int)), part);
        }
        i = i + 1;
    }
    proof { assert(cs@.take(cs@.len() as int) =~= cs@); }
}

/// Flattens a message file's JSON: each member that is not an object
/// becomes an entry under its dotted key (members of nested objects under
/// the object's key, a dot and their own), with its value's text, the file
/// and line 1; a later entry with the same key replaces an earlier one.
/// Gives the messages and the type of each value.
pub fn flatten_messages(file: &str, root: &JsonValue) -> (r: (MessageMap, StrMap<ValueType>))
    ensures
        written(r.0@, r.1@, file@, flat_messages(*root), Map::empty(), Map::empty()),
{
    let mut out: MessageMap = StrMap::new();
    let mut types: StrMap<ValueType> = StrMap::new();
    match root {
        JsonValue::Object(cs) => {
            let empty = String::new();
            flatten_members(file, empty.as_str(), cs, &mut out, &mut types);
        },
        _ => {
            proof {
                assert forall|k: Seq<char>| #[trigger] final_entry(Seq::<FlatEntry>::empty(), k) is None by {}
            }
        },
    }
    (out, types)
}

} // verus!
