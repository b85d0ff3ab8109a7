use vstd::prelude::*;
use crate::ordered::{lemma_less_irreflexive, lemma_less_total, seq_less};
use crate::text::hex_digit;

verus! {

/// A JSON document held as plain values.
pub enum JsonValue {
    Null,
    Bool(bool),
    /// The number as its JSON text.
    Number(String),
    String(String),
    Array(Vec<JsonValue>),
    Object(Vec<(String, JsonValue)>),
}

/// The mathematical model of a JSON document.
pub enum Json {
    Null,
    Bool(bool),
    Number(Seq<char>),
    Str(Seq<char>),
    Array(Seq<Json>),
    Object(Seq<(Seq<char>, Json)>),
}

pub open spec fn view_items(items: Seq<JsonValue>) -> Seq<Json>
    decreases items,
{
    if items.len() == 0 {
        Seq::empty()
    } else {
        view_items(items.drop_last()).push(view_json(items.last()))
    }
}

pub open spec fn view_entries(entries: Seq<(String, JsonValue)>) -> Seq<(Seq<char>, Json)>
    decreases entries,
{
    if entries.len() == 0 {
        Seq::empty()
    } else {
        view_entries(entries.drop_last()).push((entries.last().0@, view_json(entries.last().1)))
    }
}

pub open spec fn view_json(v: JsonValue) -> Json
    decreases v,
{
    match v {
        JsonValue::Null => Json::Null,
        JsonValue::Bool(b) => Json::Bool(b),
        JsonValue::Number(n) => Json::Number(n@),
        JsonValue::String(s) => Json::Str(s@),
        JsonValue::Array(items) => Json::Array(view_items(items@)),
        JsonValue::Object(entries) => Json::Object(view_entries(entries@)),
    }
}

impl View for JsonValue {
    type V = Json;

    open spec fn view(&self) -> Json {
        view_json(*self)
    }
}


pub proof fn lemma_view_items(items: Seq<JsonValue>)
    ensures
        view_items(items).len() == items.len(),
        forall|i: int| 0 <= i < items.len() ==> #[trigger] view_items(items)[i] == view_json(items[i]),
    decreases items.len(),
{
    if items.len() > 0 {
        lemma_view_items(items.drop_last());
    }
}

pub proof fn lemma_view_entries(entries: Seq<(String, JsonValue)>)
    ensures
        view_entries(entries).len() == entries.len(),
        forall|i: int|
            0 <= i < entries.len() ==> #[trigger] view_entries(entries)[i] == (
                entries[i].0@,
                view_json(entries[i].1),
            ),
    decreases entries.len(),
{
    if entries.len() > 0 {
        lemma_view_entries(entries.drop_last());
    }
}

/// The value stored under `key` in a list of object entries (the first match).
pub open spec fn entries_get(es: Seq<(Seq<char>, Json)>, key: Seq<char>) -> Option<Json>
    decreases es.len(),
{
    if es.len() == 0 {
        None
    } else if es[0].0 == key {
        Some(es[0].1)
    } else {
        entries_get(es.drop_first(), key)
    }
}

/// `serde_json::Value::get` with a string key: the member of an object.
pub open spec fn json_get(j: Json, key: Seq<char>) -> Option<Json> {
    match j {
        Json::Object(es) => entries_get(es, key),
        _ => None,
    }
}

/// The text of a JSON string.
pub open spec fn json_as_str(j: Json) -> Option<Seq<char>> {
    match j {
        Json::Str(s) => Some(s),
        _ => None,
    }
}

/// The items of a JSON array.
pub open spec fn json_as_array(j: Json) -> Option<Seq<Json>> {
    match j {
        Json::Array(items) => Some(items),
        _ => None,
    }
}

/// `json_get` followed by `as_str`.
pub open spec fn json_get_str(j: Json, key: Seq<char>) -> Option<Seq<char>> {
    match json_get(j, key) {
        Some(v) => json_as_str(v),
        None => None,
    }
}

/// The member is present and is a JSON object.
pub open spec fn is_object(j: Json) -> bool {
    j is Object
}

proof fn lemma_entries_get_skip(es: Seq<(Seq<char>, Json)>, key: Seq<char>, i: int)
    requires
        0 <= i <= es.len(),
        forall|j: int| 0 <= j < i ==> es[j].0 != key,
    ensures
        entries_get(es, key) == entries_get(es.subrange(i, es.len() as int), key),
    decreases i,
{
    if i > 0 {
        lemma_entries_get_skip(es.drop_first(), key, i - 1);
        assert(es.drop_first().subrange(i - 1, es.drop_first().len() as int) =~= es.subrange(
            i,
            es.len() as int,
        ));
    } else {
        assert(es.subrange(0, es.len() as int) =~= es);
    }
}

impl JsonValue {
    /// The member stored under `key` when `self` is an object.
    #[verifier::loop_isolation(false)]
    pub fn get(&self, key: &str) -> (r: Option<&JsonValue>)
        ensures
            match r {
                Some(v) => json_get(self@, key@) == Some(v@),
                None => json_get(self@, key@) is None,
            },
    {
        match self {
            JsonValue::Object(entries) => {
                let ghost es = view_entries(entries@);
                assert(self@ == Json::Object(es));
                proof {
                    lemma_view_entries(entries@);
                }
                let mut i: usize = 0;
                while i < entries.len()
                    invariant
                        es == view_entries(entries@),
                        es.len() == entries@.len(),
                        forall|k: int|
                            0 <= k < entries@.len() ==> #[trigger] es[k] == (
                                entries@[k].0@,
                                view_json(entries@[k].1),
                            ),
                        i <= entries@.len(),
                        forall|j: int| 0 <= j < i ==> es[j].0 != key@,
                    decreases entries@.len() - i,
                {
                    if crate::text::str_eq(entries[i].0.as_str(), key) {
                        proof {
                            lemma_entries_get_skip(es, key@, i as int);
                            assert(es.subrange(i as int, es.len() as int)[0] == es[i as int]);
                            assert(es[i as int] == (entries@[i as int].0@, view_json(entries@[i as int].1)));
                            assert(entries@[i as int].1@ == view_json(entries@[i as int].1));
                        }
                        return Some(&entries[i].1);
                    }
                    i = i + 1;
                }
                proof {
                    lemma_entries_get_skip(es, key@, i as int);
                    assert(es.subrange(i as int, es.len() as int).len() == 0);
                }
                None
            },
            _ => None,
        }
    }

    /// The text when `self` is a JSON string.
    pub fn as_str(&self) -> (r: Option<&str>)
        ensures
            match r {
                Some(s) => json_as_str(self@) == Some(s@),
                None => json_as_str(self@) is None,
            },
    {
        match self {
            JsonValue::String(s) => Some(s.as_str()),
            _ => None,
        }
    }

    /// Whether `self` is a JSON object.
    pub fn is_object(&self) -> (r: bool)
        ensures
            r == is_object(self@),
    {
        match self {
            JsonValue::Object(_) => true,
            _ => false,
        }
    }

    /// Whether `self` is a JSON boolean.
    pub fn is_boolean(&self) -> (r: bool)
        ensures
            r == (self@ is Bool),
    {
        match self {
            JsonValue::Bool(_) => true,
            _ => false,
        }
    }

    /// Whether `self` is JSON null.
    pub fn is_null(&self) -> (r: bool)
        ensures
            r == (self@ is Null),
    {
        match self {
            JsonValue::Null => true,
            _ => false,
        }
    }

    /// A deep copy of `self`.
    #[verifier::loop_isolation(false)]
    pub fn deep_clone(&self) -> (r: JsonValue)
        ensures
            r@ == self@,
        decreases self,
    {
        match self {
            JsonValue::Null => JsonValue::Null,
            JsonValue::Bool(b) => JsonValue::Bool(*b),
            JsonValue::Number(n) => JsonValue::Number(n.clone()),
            JsonValue::String(s) => JsonValue::String(s.clone()),
            JsonValue::Array(items) => {
                let mut out: Vec<JsonValue> = Vec::new();
                let mut i: usize = 0;
                proof {
                    lemma_view_items(items@);
                }
                while i < items.len()
                    invariant
                        i <= items@.len(),
                        view_items(out@) == view_items(items@).subrange(0, i as int),
                        view_items(items@).len() == items@.len(),
                        forall|k: int|
                            0 <= k < items@.len() ==> #[trigger] view_items(items@)[k]
                                == view_json(items@[k]),
                    decreases items@.len() - i,
                {
                    proof {
                        assert(*items == (*self)->Array_0);
                        assert(decreases_to!(*self => (*self)->Array_0));
                        assert(decreases_to!(*items => items@));
                        assert(decreases_to!(items@ => items@[i as int]));
                        assert(decreases_to!(*self => items@[i as int]));
                    }
                    let c = items[i].deep_clone();
                    proof {
                        assert(out@.push(c).drop_last() =~= out@);
                    }
                    out.push(c);
                    proof {
                        assert(view_items(items@).subrange(0, i + 1) =~= view_items(items@).subrange(
                            0,
                            i as int,
                        ).push(view_json(items@[i as int])));
                    }
                    i = i + 1;
                }
                proof {
                    assert(view_items(items@).subrange(0, i as int) =~= view_items(items@));
                }
                JsonValue::Array(out)
            },
            JsonValue::Object(entries) => {
                let mut out: Vec<(String, JsonValue)> = Vec::new();
                let mut i: usize = 0;
                proof {
                    lemma_view_entries(entries@);
                }
                while i < entries.len()
                    invariant
                        i <= entries@.len(),
                        view_entries(out@) == view_entries(entries@).subrange(0, i as int),
                        view_entries(entries@).len() == entries@.len(),
                        forall|k: int|
                            0 <= k < entries@.len() ==> #[trigger] view_entries(entries@)[k] == (
                                entries@[k].0@,
                                view_json(entries@[k].1),
                            ),
                    decreases entries@.len() - i,
                {
                    proof {
                        assert(*entries == (*self)->Object_0);
                        assert(decreases_to!(*self => (*self)->Object_0));
                        assert(decreases_to!(*entries => entries@));
                        assert(decreases_to!(entries@ => entries@[i as int]));
                        assert(decreases_to!(entries@[i as int] => entries@[i as int].1));
                        assert(decreases_to!(*self => entries@[i as int].1));
                    }
                    let c = entries[i].1.deep_clone();
                    let k = entries[i].0.clone();
                    proof {
                        assert(out@.push((k, c)).drop_last() =~= out@);
                    }
                    out.push((k, c));
                    proof {
                        assert(view_entries(entries@).subrange(0, i + 1) =~= view_entries(
                            entries@,
                        ).subrange(0, i as int).push((entries@[i as int].0@, view_json(entries@[i as int].1))));
                    }
                    i = i + 1;
                }
                proof {
                    assert(view_entries(entries@).subrange(0, i as int) =~= view_entries(entries@));
                }
                JsonValue::Object(out)
            },
        }
    }
}


/// The number of nodes of a document.
pub open spec fn json_size(j: Json) -> nat
    decreases j,
{
    match j {
        Json::Array(items) => 1 + items_size(items),
        Json::Object(es) => 1 + entries_size(es),
        _ => 1,
    }
}

/// The number of nodes of a list of documents.
pub open spec fn items_size(items: Seq<Json>) -> nat
    decreases items,
{
    if items.len() == 0 {
        0
    } else {
        items_size(items.drop_last()) + json_size(items.last())
    }
}

/// The number of nodes of the values of a list of object entries.
pub open spec fn entries_size(es: Seq<(Seq<char>, Json)>) -> nat
    decreases es,
{
    if es.len() == 0 {
        0
    } else {
        entries_size(es.drop_last()) + json_size(es.last().1)
    }
}

/// Every item is smaller than the list it is in.
pub proof fn lemma_item_size(items: Seq<Json>, i: int)
    requires
        0 <= i < items.len(),
    ensures
        json_size(items[i]) <= items_size(items),
        items_size(items.subrange(0, i)) + json_size(items[i]) <= items_size(items),
    decreases items.len(),
{
    if i < items.len() - 1 {
        lemma_item_size(items.drop_last(), i);
        assert(items.drop_last().subrange(0, i) =~= items.subrange(0, i));
    } else {
        assert(items.drop_last() =~= items.subrange(0, i));
    }
}

/// Every entry value is smaller than the entry list it is in.
pub proof fn lemma_entry_size(es: Seq<(Seq<char>, Json)>, i: int)
    requires
        0 <= i < es.len(),
    ensures
        json_size(es[i].1) <= entries_size(es),
    decreases es.len(),
{
    if i < es.len() - 1 {
        lemma_entry_size(es.drop_last(), i);
    }
}

/// A member found by `entries_get` is smaller than the entries.
pub proof fn lemma_entries_get_size(es: Seq<(Seq<char>, Json)>, key: Seq<char>)
    ensures
        entries_get(es, key) matches Some(v) ==> json_size(v) <= entries_size(es),
    decreases es.len(),
{
    if es.len() > 0 {
        if es[0].0 == key {
            lemma_entry_size(es, 0);
        } else {
            lemma_entries_get_size(es.drop_first(), key);
            lemma_entries_size_drop_first(es);
        }
    }
}

proof fn lemma_entries_size_drop_first(es: Seq<(Seq<char>, Json)>)
    requires
        es.len() > 0,
    ensures
        entries_size(es.drop_first()) + json_size(es[0].1) == entries_size(es),
    decreases es.len(),
{
    if es.len() > 1 {
        lemma_entries_size_drop_first(es.drop_last());
        assert(es.drop_last().drop_first() =~= es.drop_first().drop_last());
        assert(es.drop_first().last() == es.last());
        assert(es.drop_last()[0] == es[0]);
        assert(entries_size(es.drop_first()) == entries_size(es.drop_first().drop_last())
            + json_size(es.drop_first().last().1));
    } else {
        assert(es.drop_first() =~= Seq::<(Seq<char>, Json)>::empty());
        assert(es.drop_last() =~= Seq::<(Seq<char>, Json)>::empty());
        assert(entries_size(Seq::<(Seq<char>, Json)>::empty()) == 0);
    }
}

/// A member of an object is smaller than the object.
pub proof fn lemma_get_smaller(j: Json, key: Seq<char>)
    ensures
        json_get(j, key) matches Some(v) ==> json_size(v) < json_size(j),
{
    match j {
        Json::Object(es) => lemma_entries_get_size(es, key),
        _ => {},
    }
}

impl JsonValue {
    /// The items when `self` is a JSON array.
    pub fn as_array(&self) -> (r: Option<&Vec<JsonValue>>)
        ensures
            match r {
                Some(v) => json_as_array(self@) == Some(view_items(v@)),
                None => json_as_array(self@) is None,
            },
    {
        match self {
            JsonValue::Array(items) => Some(items),
            _ => None,
        }
    }
}


/// Every document has at least one node.
pub proof fn lemma_json_size_pos(j: Json)
    ensures
        json_size(j) >= 1,
{
}

// ---------------------------------------------------------------------------
// Compact JSON text.
// ---------------------------------------------------------------------------

/// A character inside a JSON string literal: `"` and `\` escaped, the
/// control characters below U+0020 written as short escapes where JSON has
/// one and as `\u00XX` otherwise.
pub open spec fn escape_char(c: char) -> Seq<char> {
    if c == '"' {
        seq!['\\', '"']
    } else if c == '\\' {
        seq!['\\', '\\']
    } else if c == '\n' {
        seq!['\\', 'n']
    } else if c == '\r' {
        seq!['\\', 'r']
    } else if c == '\t' {
        seq!['\\', 't']
    } else if c == '\x08' {
        seq!['\\', 'b']
    } else if c == '\x0c' {
        seq!['\\', 'f']
    } else if (c as u32) < 0x20 {
        seq!['\\', 'u', '0', '0', hex_digit(((c as u32) / 16) as u64), hex_digit(((c as u32) % 16) as u64)]
    } else {
        seq![c]
    }
}

/// A text with each character escaped.
pub open spec fn escape_text(s: Seq<char>) -> Seq<char>
    decreases s.len(),
{
    if s.len() == 0 {
        Seq::empty()
    } else {
        escape_text(s.drop_last()) + escape_char(s.last())
    }
}

/// A text as a JSON string literal.
pub open spec fn quoted(s: Seq<char>) -> Seq<char> {
    seq!['"'] + escape_text(s) + seq!['"']
}

/// The compact JSON text of a document, without whitespace.
pub open spec fn json_text(j: Json) -> Seq<char>
    decreases json_size(j), 0int,
{
    match j {
        Json::Null => "null"@,
        Json::Bool(b) => if b {
            "true"@
        } else {
            "false"@
        },
        Json::Number(n) => n,
        Json::Str(s) => quoted(s),
        Json::Array(items) => seq!['['] + items_text(items) + seq![']'],
        Json::Object(es) => seq!['{'] + entries_text(es) + seq!['}'],
    }
}

/// The items of an array, comma-separated.
pub open spec fn items_text(items: Seq<Json>) -> Seq<char>
    decreases items_size(items), 1int,
{
    if items.len() == 0 {
        Seq::empty()
    } else {
        proof {
            lemma_json_size_pos(items.last());
        }
        (if items.len() == 1 {
            Seq::empty()
        } else {
            items_text(items.drop_last()) + seq![',']
        }) + json_text(items.last())
    }
}

/// The members of an object, comma-separated.
pub open spec fn entries_text(es: Seq<(Seq<char>, Json)>) -> Seq<char>
    decreases entries_size(es), 1int,
{
    if es.len() == 0 {
        Seq::empty()
    } else {
        proof {
            lemma_json_size_pos(es.last().1);
        }
        (if es.len() == 1 {
            Seq::empty()
        } else {
            entries_text(es.drop_last()) + seq![',']
        }) + quoted(es.last().0) + seq![':'] + json_text(es.last().1)
    }
}

fn push_text(out: &mut Vec<char>, s: &str)
    ensures
        final(out)@ == old(out)@ + s@,
{
    let cs = crate::text::chars_of(s);
    let ghost start = out@;
    let mut i: usize = 0;
    while i < cs.len()
        invariant
            i <= cs@.len(),
            out@ == start + cs@.subrange(0, i as int),
        decreases cs@.len() - i,
    {
        out.push(cs[i]);
        proof {
            assert(cs@.subrange(0, i + 1) =~= cs@.subrange(0, i as int).push(cs@[i as int]));
        }
        i = i + 1;
    }
    proof {
        assert(cs@.subrange(0, i as int) =~= s@);
    }
}

fn push_escaped_char(out: &mut Vec<char>, c: char)
    ensures
        final(out)@ == old(out)@ + escape_char(c),
{
    let ghost start = out@;
    if c == '"' {
        out.push('\\');
        out.push('"');
    } else if c == '\\' {
        out.push('\\');
        out.push('\\');
    } else if c == '\n' {
        out.push('\\');
        out.push('n');
    } else if c == '\r' {
        out.push('\\');
        out.push('r');
    } else if c == '\t' {
        out.push('\\');
        out.push('t');
    } else if c == '\x08' {
        out.push('\\');
        out.push('b');
    } else if c == '\x0c' {
        out.push('\\');
        out.push('f');
    } else if (c as u32) < 0x20 {
        let u = c as u32;
        out.push('\\');
        out.push('u');
        out.push('0');
        out.push('0');
        out.push(crate::text::hex_digit_exec((u / 16) as u64));
        out.push(crate::text::hex_digit_exec((u % 16) as u64));
    } else {
        out.push(c);
    }
    assert(out@ =~= start + escape_char(c));
}

fn push_quoted(out: &mut Vec<char>, s: &str)
    ensures
        final(out)@ == old(out)@ + quoted(s@),
{
    let ghost start = out@;
    let cs = crate::text::chars_of(s);
    out.push('"');
    let mut i: usize = 0;
    while i < cs.len()
        invariant
            i <= cs@.len(),
            out@ == start + seq!['"'] + escape_text(cs@.subrange(0, i as int)),
        decreases cs@.len() - i,
    {
        push_escaped_char(out, cs[i]);
        proof {
            assert(cs@.subrange(0, i + 1).drop_last() =~= cs@.subrange(0, i as int));
        }
        i = i + 1;
    }
    out.push('"');
    proof {
        assert(cs@.subrange(0, i as int) =~= s@);
        assert(out@ =~= start + quoted(s@));
    }
}

/// Append the compact JSON text of `v`.
#[verifier::loop_isolation(false)]
#[verifier::spinoff_prover]
#[verifier::rlimit(60)]
pub fn write_json_text(v: &JsonValue, out: &mut Vec<char>)
    ensures
        final(out)@ == old(out)@ + json_text(v@),
    decreases v,
{
    let ghost start = out@;
    match v {
        JsonValue::Null => push_text(out, "null"),
        JsonValue::Bool(b) => if *b {
            push_text(out, "true")
        } else {
            push_text(out, "false")
        },
        JsonValue::Number(n) => push_text(out, n.as_str()),
        JsonValue::String(s) => push_quoted(out, s.as_str()),
        JsonValue::Array(items) => {
            let ghost iv = view_items(items@);
            proof {
                lemma_view_items(items@);
            }
            out.push('[');
            let mut i: usize = 0;
            while i < items.len()
                invariant
                    i <= items@.len(),
                    iv == view_items(items@),
                    iv.len() == items@.len(),
                    forall|k: int| 0 <= k < items@.len() ==> #[trigger] iv[k] == view_json(items@[k]),
                    out@ == start + seq!['['] + items_text(iv.subrange(0, i as int)),
                decreases items@.len() - i,
            {
                proof {
                    assert(*items == (*v)->Array_0);
                    assert(decreases_to!(*v => (*v)->Array_0));
                    assert(decreases_to!(*items => items@));
                    assert(decreases_to!(items@ => items@[i as int]));
                    let pre = iv.subrange(0, i + 1);
                    assert(pre.drop_last() =~= iv.subrange(0, i as int));
                    assert(pre.last() == iv[i as int]);
                }
                if i > 0 {
                    out.push(',');
                }
                write_json_text(&items[i], out);
                i = i + 1;
            }
            out.push(']');
            proof {
                assert(iv.subrange(0, i as int) =~= iv);
                assert(out@ =~= start + json_text(v@));
            }
        },
        JsonValue::Object(es) => {
            let ghost ev = view_entries(es@);
            proof {
                lemma_view_entries(es@);
            }
            out.push('{');
            let mut i: usize = 0;
            while i < es.len()
                invariant
                    i <= es@.len(),
                    ev == view_entries(es@),
                    ev.len() == es@.len(),
                    forall|k: int| 0 <= k < es@.len() ==> #[trigger] ev[k] == (es@[k].0@, view_json(es@[k].1)),
                    out@ == start + seq!['{'] + entries_text(ev.subrange(0, i as int)),
                decreases es@.len() - i,
            {
                proof {
                    assert(*es == (*v)->Object_0);
                    assert(decreases_to!(*v => (*v)->Object_0));
                    assert(decreases_to!(*es => es@));
                    assert(decreases_to!(es@ => es@[i as int]));
                    assert(decreases_to!(es@[i as int] => es@[i as int].1));
                    let pre = ev.subrange(0, i + 1);
                    assert(pre.drop_last() =~= ev.subrange(0, i as int));
                    assert(pre.last() == ev[i as int]);
                }
                if i > 0 {
                    out.push(',');
                }
                push_quoted(out, es[i].0.as_str());
                out.push(':');
                write_json_text(&es[i].1, out);
                i = i + 1;
            }
            out.push('}');
            proof {
                assert(ev.subrange(0, i as int) =~= ev);
                assert(out@ =~= start + json_text(v@));
            }
        },
    }
}

impl JsonValue {
    /// The compact JSON text of the document, as `serde_json::to_string`
    /// writes it.
    pub fn to_json_text(&self) -> (r: String)
        ensures
            r@ == json_text(self@),
    {
        let mut out: Vec<char> = Vec::new();
        write_json_text(self, &mut out);
        assert(out@ =~= json_text(self@));
        crate::text::string_of(out.as_slice())
    }
}


// ---------------------------------------------------------------------------
// Objects as ordered maps.
// ---------------------------------------------------------------------------

/// `serde_json::Map::insert` on the entries of an object kept in key
/// order: the value replaces the one under an equal key, else the entry
/// goes before the first key that sorts after it.
pub open spec fn object_insert(es: Seq<(Seq<char>, Json)>, k: Seq<char>, v: Json) -> Seq<(Seq<char>, Json)>
    decreases es.len(),
{
    if es.len() == 0 {
        seq![(k, v)]
    } else if es[0].0 == k {
        seq![(k, v)] + es.drop_first()
    } else if seq_less(k, es[0].0) {
        seq![(k, v)] + es
    } else {
        seq![es[0]] + object_insert(es.drop_first(), k, v)
    }
}

/// The entries after inserting each pair in turn.
pub open spec fn object_insert_all(es: Seq<(Seq<char>, Json)>, pairs: Seq<(Seq<char>, Json)>) -> Seq<
    (Seq<char>, Json),
>
    decreases pairs.len(),
{
    if pairs.len() == 0 {
        es
    } else {
        let before = object_insert_all(es, pairs.drop_last());
        object_insert(before, pairs.last().0, pairs.last().1)
    }
}

proof fn lemma_object_insert_at(es: Seq<(Seq<char>, Json)>, k: Seq<char>, v: Json, i: int)
    requires
        0 <= i <= es.len(),
        forall|j: int| 0 <= j < i ==> seq_less(#[trigger] es[j].0, k),
        i < es.len() ==> !seq_less(es[i].0, k),
    ensures
        object_insert(es, k, v) == if i < es.len() && es[i].0 == k {
            es.take(i) + seq![(k, v)] + es.skip(i + 1)
        } else {
            es.take(i) + seq![(k, v)] + es.skip(i)
        },
    decreases i,
{
    if i == 0 {
        if es.len() > 0 {
            lemma_less_total(es[0].0, k);
            assert(es.skip(1) =~= es.drop_first());
            assert(es.skip(0) =~= es);
        }
        assert(es.take(0) =~= Seq::<(Seq<char>, Json)>::empty());
    } else {
        lemma_less_total(es[0].0, k);
        lemma_less_irreflexive(k);
        assert(es[0].0 != k);
        let t = es.drop_first();
        assert forall|j: int| 0 <= j < i - 1 implies seq_less(#[trigger] t[j].0, k) by {
            assert(t[j] == es[j + 1]);
        }
        lemma_object_insert_at(t, k, v, i - 1);
        if i < es.len() && es[i].0 == k {
            assert(es.take(i) + seq![(k, v)] + es.skip(i + 1) =~= seq![es[0]] + (t.take(i - 1) + seq![(k, v)] + t.skip(i)));
        } else {
            assert(es.take(i) + seq![(k, v)] + es.skip(i) =~= seq![es[0]] + (t.take(i - 1) + seq![(k, v)] + t.skip(i - 1)));
        }
    }
}

fn key_less_at(es: &Vec<(String, JsonValue)>, i: usize, k: &Vec<char>) -> (r: bool)
    requires
        i < es@.len(),
    ensures
        r == seq_less(es@[i as int].0@, k@),
{
    let c = crate::text::chars_of(es[i].0.as_str());
    crate::ordered::str_less(&c, k)
}

/// Insert a member into an object's entries as `serde_json::Map::insert`
/// does.
pub fn object_insert_exec(es: &mut Vec<(String, JsonValue)>, key: String, value: JsonValue)
    ensures
        view_entries(final(es)@) == object_insert(view_entries(old(es)@), key@, value@),
{
    let ghost ev = view_entries(es@);
    proof {
        lemma_view_entries(es@);
    }
    let kc = crate::text::chars_of(key.as_str());
    let mut i: usize = 0;
    while i < es.len() && key_less_at(es, i, &kc)
        invariant
            i <= es@.len(),
            ev == view_entries(es@),
            ev.len() == es@.len(),
            forall|j: int| 0 <= j < es@.len() ==> #[trigger] ev[j] == (es@[j].0@, view_json(es@[j].1)),
            kc@ == key@,
            forall|j: int| 0 <= j < i ==> seq_less(#[trigger] ev[j].0, key@),
        decreases es@.len() - i,
    {
        i = i + 1;
    }
    proof {
        lemma_object_insert_at(ev, key@, value@, i as int);
    }
    let ghost before = es@;
    if i < es.len() && crate::text::str_eq(es[i].0.as_str(), key.as_str()) {
        es.set(i, (key, value));
        proof {
            lemma_view_entries(es@);
            assert(view_entries(es@) =~= ev.take(i as int) + seq![(key@, value@)] + ev.skip(i + 1));
        }
    } else {
        es.insert(i, (key, value));
        proof {
            lemma_view_entries(es@);
            assert(view_entries(es@) =~= ev.take(i as int) + seq![(key@, value@)] + ev.skip(i as int));
        }
    }
}

} // verus!
