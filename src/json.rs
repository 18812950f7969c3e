//! Structured values and their canonical rendering.

use vstd::prelude::*;
use crate::digest::hex_digit;

verus! {

/// A structured value: the shape of every artifact that is hashed or stored.
#[derive(Debug, PartialEq)]
pub enum JsonValue {
    Null,
    Bool(bool),
    /// A number, held as its JSON numeral (`42`, `-1`, `1e-3`). Numerals are
    /// kept as written: `1.0` and `1` are different values.
    Number(String),
    Str(String),
    Array(Vec<JsonValue>),
    /// An object's members, in the order they were given. A well-formed
    /// value (see `well_formed`) has distinct keys in every object.
    Object(Vec<(String, JsonValue)>),
}

/// The mathematical content of a `JsonValue`.
pub enum JsonModel {
    Null,
    Bool(bool),
    Number(Seq<char>),
    Str(Seq<char>),
    Array(Seq<JsonModel>),
    Object(Seq<(Seq<char>, JsonModel)>),
}

pub open spec fn json_model(v: JsonValue) -> JsonModel
    decreases v,
{
    match v {
        JsonValue::Null => JsonModel::Null,
        JsonValue::Bool(b) => JsonModel::Bool(b),
        JsonValue::Number(n) => JsonModel::Number(n@),
        JsonValue::Str(s) => JsonModel::Str(s@),
        JsonValue::Array(items) => JsonModel::Array(
            Seq::new(
                items@.len(),
                |i: int|
                    if 0 <= i < items@.len() {
                        json_model(items@[i])
                    } else {
                        JsonModel::Null
                    },
            ),
        ),
        JsonValue::Object(entries) => JsonModel::Object(
            Seq::new(
                entries@.len(),
                |i: int|
                    if 0 <= i < entries@.len() {
                        (entries@[i].0@, json_model(entries@[i].1))
                    } else {
                        (Seq::empty(), JsonModel::Null)
                    },
            ),
        ),
    }
}

impl View for JsonValue {
    type V = JsonModel;

    open spec fn view(&self) -> JsonModel {
        json_model(*self)
    }
}

} // verus!

verus! {

/// A character as it stands inside a JSON string literal: quote and
/// backslash escaped, the five control characters with a short escape
/// written so, other control characters as `\u00xx` (lowercase hex), every
/// other character unchanged.
pub open spec fn escaped_char(c: char) -> Seq<char> {
    let u = c as int;
    if c == '"' {
        seq!['\\', '"']
    } else if c == '\\' {
        seq!['\\', '\\']
    } else if u == 8 {
        seq!['\\', 'b']
    } else if u == 9 {
        seq!['\\', 't']
    } else if u == 10 {
        seq!['\\', 'n']
    } else if u == 12 {
        seq!['\\', 'f']
    } else if u == 13 {
        seq!['\\', 'r']
    } else if u < 32 {
        seq!['\\', 'u', '0', '0', hex_digit((u / 16) as u8), hex_digit((u % 16) as u8)]
    } else {
        seq![c]
    }
}

/// The characters of `s`, each escaped.
pub open spec fn escaped(s: Seq<char>) -> Seq<char>
    decreases s.len(),
{
    if s.len() == 0 {
        Seq::empty()
    } else {
        escaped(s.drop_last()) + escaped_char(s.last())
    }
}

/// The JSON string literal of `s`, as serde_json writes it.
pub open spec fn json_quoted(s: Seq<char>) -> Seq<char> {
    seq!['"'] + escaped(s) + seq!['"']
}

/// Relies on `serde_json::to_string` on a `str`: the string literal that its
/// escape table and `write_char_escape` produce; writing to memory cannot fail.
#[verifier::external_body]
fn quote(s: &str) -> (r: String)
    ensures
        r@ == json_quoted(s@),
{
    serde_json::to_string(s).unwrap_or_default()
}

/// The parts, separated by commas.
pub open spec fn join_with_commas(parts: Seq<Seq<char>>) -> Seq<char>
    decreases parts.len(),
{
    if parts.len() == 0 {
        Seq::empty()
    } else if parts.len() == 1 {
        parts[0]
    } else {
        join_with_commas(parts.drop_last()) + seq![','] + parts.last()
    }
}

/// `a` comes no later than `b` in lexicographic order of code points.
pub open spec fn key_precedes(a: Seq<char>, b: Seq<char>) -> bool
    decreases a.len(),
{
    if a.len() == 0 {
        true
    } else if b.len() == 0 {
        false
    } else if a[0] != b[0] {
        (a[0] as int) < (b[0] as int)
    } else {
        key_precedes(a.drop_first(), b.drop_first())
    }
}

/// Where a member with key `k` goes in `s`: before the first member whose key
/// it precedes.
pub open spec fn insertion_index(k: Seq<char>, s: Seq<(Seq<char>, Seq<char>)>) -> nat
    decreases s.len(),
{
    if s.len() == 0 {
        0
    } else if key_precedes(k, s[0].0) {
        0
    } else {
        1 + insertion_index(k, s.drop_first())
    }
}

/// Members (key, rendered text) sorted by key, by insertion.
pub open spec fn sort_members(s: Seq<(Seq<char>, Seq<char>)>) -> Seq<(Seq<char>, Seq<char>)>
    decreases s.len(),
{
    if s.len() == 0 {
        s
    } else {
        let r = sort_members(s.drop_last());
        r.insert(insertion_index(s.last().0, r) as int, s.last())
    }
}

/// The canonical rendering: object keys sorted, arrays in order, scalars in
/// their JSON form, no whitespace.
pub open spec fn canonical_text(m: JsonModel) -> Seq<char>
    decreases m, 1nat,
{
    match m {
        JsonModel::Null => "null"@,
        JsonModel::Bool(b) => if b {
            "true"@
        } else {
            "false"@
        },
        JsonModel::Number(t) => t,
        JsonModel::Str(s) => json_quoted(s),
        JsonModel::Array(items) => seq!['['] + join_with_commas(item_texts(items)) + seq![']'],
        JsonModel::Object(es) => seq!['{'] + join_with_commas(
            sort_members(member_texts(es)).map_values(|p: (Seq<char>, Seq<char>)| p.1),
        ) + seq!['}'],
    }
}

/// The canonical rendering of each item.
pub open spec fn item_texts(items: Seq<JsonModel>) -> Seq<Seq<char>>
    decreases items, 0nat,
{
    Seq::new(
        items.len(),
        |i: int|
            if 0 <= i < items.len() {
                canonical_text(items[i])
            } else {
                Seq::empty()
            },
    )
}

/// Each member as its key and its rendering `"key":value`.
pub open spec fn member_texts(es: Seq<(Seq<char>, JsonModel)>) -> Seq<(Seq<char>, Seq<char>)>
    decreases es, 0nat,
{
    Seq::new(
        es.len(),
        |i: int|
            if 0 <= i < es.len() {
                (es[i].0, json_quoted(es[i].0) + seq![':'] + canonical_text(es[i].1))
            } else {
                (Seq::empty(), Seq::empty())
            },
    )
}

pub open spec fn pairs_view(s: Seq<(String, String)>) -> Seq<(Seq<char>, Seq<char>)> {
    s.map_values(|p: (String, String)| (p.0@, p.1@))
}

fn key_precedes_exec(a: &String, b: &String) -> (r: bool)
    ensures
        r == key_precedes(a@, b@),
{
    let la = a.as_str().unicode_len();
    let lb = b.as_str().unicode_len();
    let mut i: usize = 0;
    assert(a@.skip(0) =~= a@ && b@.skip(0) =~= b@);
    while i < la && i < lb
        invariant
            la == a@.len(),
            lb == b@.len(),
            i <= la,
            i <= lb,
            a@.take(i as int) == b@.take(i as int),
            key_precedes(a@, b@) == key_precedes(a@.skip(i as int), b@.skip(i as int)),
        decreases la - i,
    {
        let ca = a.as_str().get_char(i);
        let cb = b.as_str().get_char(i);
        assert(a@.skip(i as int)[0] == ca && b@.skip(i as int)[0] == cb);
        if ca != cb {
            return (ca as u32) < (cb as u32);
        }
        assert(a@.skip(i as int).drop_first() =~= a@.skip(i + 1));
        assert(b@.skip(i as int).drop_first() =~= b@.skip(i + 1));
        assert(a@.take(i + 1) =~= a@.take(i as int).push(ca));
        assert(b@.take(i + 1) =~= b@.take(i as int).push(cb));
        i = i + 1;
    }
    i == la
}

/// The index at which a member keyed `k` is inserted into `sorted`.
fn find_insertion_index(sorted: &Vec<(String, String)>, k: &String) -> (r: usize)
    ensures
        r == insertion_index(k@, pairs_view(sorted@)),
        r <= sorted@.len(),
{
    let ghost s = pairs_view(sorted@);
    let mut p: usize = 0;
    assert(s.skip(0) =~= s);
    while p < sorted.len()
        invariant
            s == pairs_view(sorted@),
            p <= sorted@.len(),
            insertion_index(k@, s) == p + insertion_index(k@, s.skip(p as int)),
        decreases sorted@.len() - p,
    {
        if key_precedes_exec(k, &sorted[p].0) {
            return p;
        }
        assert(s.skip(p as int).drop_first() =~= s.skip(p + 1));
        p = p + 1;
    }
    p
}

fn sort_by_key(members: &Vec<(String, String)>) -> (r: Vec<(String, String)>)
    ensures
        pairs_view(r@) == sort_members(pairs_view(members@)),
{
    let ghost m = pairs_view(members@);
    let mut sorted: Vec<(String, String)> = Vec::new();
    let mut i: usize = 0;
    while i < members.len()
        invariant
            m == pairs_view(members@),
            i <= members@.len(),
            pairs_view(sorted@) == sort_members(m.take(i as int)),
        decreases members@.len() - i,
    {
        let item = (members[i].0.clone(), members[i].1.clone());
        let p = find_insertion_index(&sorted, &item.0);
        let ghost before = sorted@;
        sorted.insert(p, item);
        proof {
            assert(m.take(i + 1).drop_last() =~= m.take(i as int));
            assert(pairs_view(sorted@) =~= pairs_view(before).insert(p as int, m[i as int]));
        }
        i = i + 1;
    }
    assert(m.take(members@.len() as int) =~= m);
    sorted
}

/// The commas-joined concatenation of `texts`, built left to right.
fn join_texts(texts: &Vec<String>) -> (r: String)
    ensures
        r@ == join_with_commas(texts@.map_values(|t: String| t@)),
{
    let ghost parts = texts@.map_values(|t: String| t@);
    let mut body = String::new();
    let mut i: usize = 0;
    while i < texts.len()
        invariant
            i <= texts@.len(),
            parts == texts@.map_values(|t: String| t@),
            body@ == join_with_commas(parts.take(i as int)),
        decreases texts@.len() - i,
    {
        if i > 0 {
            body.append(",");
        }
        body.append(texts[i].as_str());
        proof {
            reveal_strlit(",");
            assert(parts.take(i + 1).drop_last() =~= parts.take(i as int));
            if i == 0 {
                assert(body@ =~= parts.take(1)[0]);
            } else {
                assert(body@ =~= join_with_commas(parts.take(i as int)) + seq![','] + parts[i as int]);
            }
        }
        i = i + 1;
    }
    assert(parts.take(texts@.len() as int) =~= parts);
    body
}

/// `[` item, item, ... `]`.
fn render_array(items: &Vec<JsonValue>) -> (r: String)
    ensures
        r@ == seq!['['] + join_with_commas(item_texts(Seq::new(items@.len(), |i: int| items@[i]@)))
            + seq![']'],
    decreases *items, 0nat,
{
    let ghost ms = Seq::new(items@.len(), |i: int| items@[i]@);
    let mut texts: Vec<String> = Vec::new();
    let mut i: usize = 0;
    while i < items.len()
        invariant
            i <= items@.len(),
            ms == Seq::new(items@.len(), |i: int| items@[i]@),
            texts@.len() == i,
            forall|j: int| 0 <= j < i ==> (#[trigger] texts@[j])@ == canonical_text(ms[j]),
        decreases items@.len() - i,
    {
        let t = canonical_json(&items[i]);
        texts.push(t);
        i = i + 1;
    }
    let body = join_texts(&texts);
    let mut out = String::from_str("[");
    out.append(body.as_str());
    out.append("]");
    proof {
        reveal_strlit("[");
        reveal_strlit("]");
        assert(texts@.map_values(|t: String| t@) =~= item_texts(ms));
        assert(out@ =~= seq!['['] + body@ + seq![']']);
    }
    out
}

/// `{` member, member, ... `}`, members sorted by key.
fn render_object(entries: &Vec<(String, JsonValue)>) -> (r: String)
    ensures
        r@ == seq!['{'] + join_with_commas(
            sort_members(
                member_texts(Seq::new(entries@.len(), |i: int| (entries@[i].0@, entries@[i].1@))),
            ).map_values(|p: (Seq<char>, Seq<char>)| p.1),
        ) + seq!['}'],
    decreases *entries, 0nat,
{
    let ghost es = Seq::new(entries@.len(), |i: int| (entries@[i].0@, entries@[i].1@));
    let mut members: Vec<(String, String)> = Vec::new();
    let mut i: usize = 0;
    while i < entries.len()
        invariant
            i <= entries@.len(),
            es == Seq::new(entries@.len(), |i: int| (entries@[i].0@, entries@[i].1@)),
            members@.len() == i,
            forall|j: int|
                0 <= j < i ==> pairs_view(members@)[j] == #[trigger] member_texts(es)[j],
        decreases entries@.len() - i,
    {
        let mut text = quote(entries[i].0.as_str());
        text.append(":");
        proof {
            assert(decreases_to!(entries[i as int] => entries[i as int].1));
        }
        let t = canonical_json(&entries[i].1);
        text.append(t.as_str());
        members.push((entries[i].0.clone(), text));
        proof {
            reveal_strlit(":");
            assert(pairs_view(members@)[i as int] == member_texts(es)[i as int]);
        }
        i = i + 1;
    }
    assert(pairs_view(members@) =~= member_texts(es));
    let sorted = sort_by_key(&members);
    let mut texts: Vec<String> = Vec::new();
    let mut k: usize = 0;
    while k < sorted.len()
        invariant
            k <= sorted@.len(),
            texts@.len() == k,
            forall|j: int| 0 <= j < k ==> (#[trigger] texts@[j])@ == sorted@[j].1@,
        decreases sorted@.len() - k,
    {
        texts.push(sorted[k].1.clone());
        k = k + 1;
    }
    let body = join_texts(&texts);
    let mut out = String::from_str("{");
    out.append(body.as_str());
    out.append("}");
    proof {
        reveal_strlit("{");
        reveal_strlit("}");
        assert(texts@.map_values(|t: String| t@) =~= pairs_view(sorted@).map_values(
            |p: (Seq<char>, Seq<char>)| p.1,
        ));
        assert(out@ =~= seq!['{'] + body@ + seq!['}']);
    }
    out
}

/// Renders `v` canonically: the text that content identifiers are computed from.
pub fn canonical_json(v: &JsonValue) -> (r: String)
    ensures
        r@ == canonical_text(v@),
    decreases *v, 1nat,
{
    proof {
        reveal_strlit("null");
        reveal_strlit("true");
        reveal_strlit("false");
    }
    match v {
        JsonValue::Null => String::from_str("null"),
        JsonValue::Bool(b) => if *b {
            String::from_str("true")
        } else {
            String::from_str("false")
        },
        JsonValue::Number(n) => n.clone(),
        JsonValue::Str(s) => quote(s.as_str()),
        JsonValue::Array(items) => {
            let r = render_array(items);
            assert(v@->Array_0 =~= Seq::new(items@.len(), |i: int| items@[i]@));
            r
        },
        JsonValue::Object(entries) => {
            let r = render_object(entries);
            assert(v@->Object_0 =~= Seq::new(
                entries@.len(),
                |i: int| (entries@[i].0@, entries@[i].1@),
            ));
            r
        },
    }
}

/// The models of a sequence of values.
pub open spec fn values_model(v: Seq<JsonValue>) -> Seq<JsonModel> {
    Seq::new(v.len(), |i: int| v[i]@)
}

/// The models of a sequence of object members.
pub open spec fn members_model(m: Seq<(String, JsonValue)>) -> Seq<(Seq<char>, JsonModel)> {
    Seq::new(m.len(), |i: int| (m[i].0@, m[i].1@))
}

impl JsonValue {
    /// A deep copy: a value with the same content.
    pub fn copy(&self) -> (r: JsonValue)
        ensures
            r@ == self@,
        decreases *self, 1nat,
    {
        match self {
            JsonValue::Null => JsonValue::Null,
            JsonValue::Bool(b) => JsonValue::Bool(*b),
            JsonValue::Number(n) => JsonValue::Number(n.clone()),
            JsonValue::Str(s) => JsonValue::Str(s.clone()),
            JsonValue::Array(items) => {
                let c = copy_values(items);
                let r = JsonValue::Array(c);
                assert(r@->Array_0 =~= values_model(c@));
                assert(self@->Array_0 =~= values_model(items@));
                r
            },
            JsonValue::Object(entries) => {
                let c = copy_members(entries);
                let r = JsonValue::Object(c);
                assert(r@->Object_0 =~= members_model(c@));
                assert(self@->Object_0 =~= members_model(entries@));
                r
            },
        }
    }
}

/// Deep copies of `v`'s values, in order.
pub fn copy_values(v: &Vec<JsonValue>) -> (r: Vec<JsonValue>)
    ensures
        values_model(r@) == values_model(v@),
    decreases *v, 0nat,
{
    let mut out: Vec<JsonValue> = Vec::new();
    let mut i: usize = 0;
    while i < v.len()
        invariant
            i <= v@.len(),
            out@.len() == i,
            forall|j: int| 0 <= j < i ==> (#[trigger] out@[j])@ == v@[j]@,
        decreases v@.len() - i,
    {
        out.push(v[i].copy());
        i = i + 1;
    }
    assert(values_model(out@) =~= values_model(v@));
    out
}

/// Deep copies of `m`'s members, in order.
pub fn copy_members(m: &Vec<(String, JsonValue)>) -> (r: Vec<(String, JsonValue)>)
    ensures
        members_model(r@) == members_model(m@),
    decreases *m, 0nat,
{
    let mut out: Vec<(String, JsonValue)> = Vec::new();
    let mut i: usize = 0;
    while i < m.len()
        invariant
            i <= m@.len(),
            out@.len() == i,
            forall|j: int|
                0 <= j < i ==> (#[trigger] out@[j]).0@ == m@[j].0@ && out@[j].1@ == m@[j].1@,
        decreases m@.len() - i,
    {
        proof {
            assert(decreases_to!(m@[i as int] => m@[i as int].1));
        }
        out.push((m[i].0.clone(), m[i].1.copy()));
        i = i + 1;
    }
    assert(members_model(out@) =~= members_model(m@));
    out
}

/// A string value.
pub fn json_str(s: &str) -> (r: JsonValue)
    ensures
        r@ == JsonModel::Str(s@),
{
    JsonValue::Str(String::from_str(s))
}

/// No two members share a key.
pub open spec fn keys_distinct<V>(es: Seq<(Seq<char>, V)>) -> bool {
    forall|i: int, j: int| 0 <= i < j < es.len() ==> es[i].0 != es[j].0
}

/// Members in order of their keys.
pub open spec fn members_sorted<V>(es: Seq<(Seq<char>, V)>) -> bool {
    forall|i: int, j: int| 0 <= i < j < es.len() ==> key_precedes(es[i].0, es[j].0)
}

/// `a` and `b` differ at most in the order of object members, at any depth:
/// arrays match item by item, and objects have distinct keys, each member of
/// either having a member with the same key and a matching value in the other.
pub open spec fn same_up_to_key_order(a: JsonModel, b: JsonModel) -> bool
    decreases a,
{
    match a {
        JsonModel::Array(xs) => match b {
            JsonModel::Array(ys) => xs.len() == ys.len() && forall|i: int|
                0 <= i < xs.len() ==> same_up_to_key_order(xs[i], ys[i]),
            _ => false,
        },
        JsonModel::Object(es) => match b {
            JsonModel::Object(fs) => keys_distinct(es) && keys_distinct(fs) && (forall|i: int|
                #![trigger es[i]]
                0 <= i < es.len() ==> exists|j: int|
                    #![trigger fs[j]]
                    0 <= j < fs.len() && fs[j].0 == es[i].0 && same_up_to_key_order(
                        es[i].1,
                        fs[j].1,
                    )) && (forall|j: int|
                #![trigger fs[j]]
                0 <= j < fs.len() ==> exists|i: int|
                    #![trigger es[i]]
                    0 <= i < es.len() && es[i].0 == fs[j].0 && same_up_to_key_order(
                        es[i].1,
                        fs[j].1,
                    )),
            _ => false,
        },
        _ => a == b,
    }
}

proof fn lemma_precedes_total(a: Seq<char>, b: Seq<char>)
    ensures
        key_precedes(a, b) || key_precedes(b, a),
    decreases a.len(),
{
    if a.len() > 0 && b.len() > 0 {
        if a[0] == b[0] {
            lemma_precedes_total(a.drop_first(), b.drop_first());
        }
    }
}

proof fn lemma_precedes_reflexive(a: Seq<char>)
    ensures
        key_precedes(a, a),
    decreases a.len(),
{
    if a.len() > 0 {
        lemma_precedes_reflexive(a.drop_first());
    }
}

proof fn lemma_precedes_antisymmetric(a: Seq<char>, b: Seq<char>)
    requires
        key_precedes(a, b),
        key_precedes(b, a),
    ensures
        a == b,
    decreases a.len(),
{
    if a.len() == 0 {
        assert(b.len() == 0);
        assert(a =~= b);
    } else {
        assert(b.len() > 0);
        assert(a[0] == b[0]);
        lemma_precedes_antisymmetric(a.drop_first(), b.drop_first());
        assert(a =~= seq![a[0]] + a.drop_first());
        assert(b =~= seq![b[0]] + b.drop_first());
    }
}

proof fn lemma_precedes_transitive(a: Seq<char>, b: Seq<char>, c: Seq<char>)
    requires
        key_precedes(a, b),
        key_precedes(b, c),
    ensures
        key_precedes(a, c),
    decreases a.len(),
{
    if a.len() > 0 {
        assert(b.len() > 0);
        assert(c.len() > 0);
        if a[0] == b[0] && b[0] == c[0] {
            lemma_precedes_transitive(a.drop_first(), b.drop_first(), c.drop_first());
        }
    }
}

proof fn lemma_insertion_index(k: Seq<char>, r: Seq<(Seq<char>, Seq<char>)>)
    requires
        members_sorted(r),
    ensures
        insertion_index(k, r) <= r.len(),
        forall|i: int| 0 <= i < insertion_index(k, r) ==> !key_precedes(k, #[trigger] r[i].0),
        forall|i: int| insertion_index(k, r) <= i < r.len() ==> key_precedes(k, #[trigger] r[i].0),
    decreases r.len(),
{
    if r.len() > 0 {
        if key_precedes(k, r[0].0) {
            assert forall|i: int| 0 <= i < r.len() implies key_precedes(k, #[trigger] r[i].0) by {
                if i > 0 {
                    lemma_precedes_transitive(k, r[0].0, r[i].0);
                }
            }
        } else {
            let t = r.drop_first();
            lemma_insertion_index(k, t);
            assert forall|i: int| 0 <= i < insertion_index(k, r) implies !key_precedes(
                k,
                #[trigger] r[i].0,
            ) by {
                if i > 0 {
                    assert(r[i] == t[i - 1]);
                }
            }
            assert forall|i: int| insertion_index(k, r) <= i < r.len() implies key_precedes(
                k,
                #[trigger] r[i].0,
            ) by {
                assert(r[i] == t[i - 1]);
            }
        }
    }
}

proof fn lemma_sort_members(s: Seq<(Seq<char>, Seq<char>)>)
    ensures
        sort_members(s).len() == s.len(),
        members_sorted(sort_members(s)),
        forall|x: (Seq<char>, Seq<char>)| sort_members(s).contains(x) <==> s.contains(x),
        keys_distinct(s) ==> keys_distinct(sort_members(s)),
    decreases s.len(),
{
    if s.len() > 0 {
        let d = s.drop_last();
        let x = s.last();
        let r0 = sort_members(d);
        lemma_sort_members(d);
        lemma_insertion_index(x.0, r0);
        let p = insertion_index(x.0, r0) as int;
        let r = r0.insert(p, x);
        assert(r == sort_members(s));
        assert forall|i: int, j: int| 0 <= i < j < r.len() implies key_precedes(
            r[i].0,
            r[j].0,
        ) by {
            if i < p {
                lemma_precedes_total(x.0, r0[i].0);
                if j == p {
                } else {
                    if j > p {
                        assert(r[j] == r0[j - 1]);
                        lemma_precedes_transitive(r0[i].0, x.0, r0[j - 1].0);
                    }
                }
            } else if i == p {
                assert(r[j] == r0[j - 1]);
            } else {
                assert(r[i] == r0[i - 1] && r[j] == r0[j - 1]);
            }
        }
        assert forall|y: (Seq<char>, Seq<char>)| r.contains(y) <==> s.contains(y) by {
            if r.contains(y) {
                let i = choose|i: int| 0 <= i < r.len() && r[i] == y;
                if i < p {
                    assert(r0.contains(y));
                } else if i > p {
                    assert(r0[i - 1] == y);
                    assert(r0.contains(y));
                }
                if y != x {
                    assert(r0.contains(y));
                    assert(d.contains(y));
                    let k = choose|k: int| 0 <= k < d.len() && d[k] == y;
                    assert(s[k] == y);
                } else {
                    assert(s[s.len() - 1] == y);
                }
            }
            if s.contains(y) {
                let k = choose|k: int| 0 <= k < s.len() && s[k] == y;
                if k == s.len() - 1 {
                    assert(r[p] == y);
                } else {
                    assert(d[k] == y);
                    assert(d.contains(y));
                    assert(r0.contains(y));
                    let i = choose|i: int| 0 <= i < r0.len() && r0[i] == y;
                    if i < p {
                        assert(r[i] == y);
                    } else {
                        assert(r[i + 1] == y);
                    }
                }
            }
        }
        if keys_distinct(s) {
            assert(keys_distinct(d));
            assert forall|i: int| 0 <= i < r0.len() implies #[trigger] r0[i].0 != x.0 by {
                assert(r0.contains(r0[i]));
                assert(d.contains(r0[i]));
                let k = choose|k: int| 0 <= k < d.len() && d[k] == r0[i];
                assert(s[k] == d[k]);
            }
            assert forall|i: int, j: int| 0 <= i < j < r.len() implies r[i].0 != r[j].0 by {
                if i < p {
                    if j == p {
                    } else if j > p {
                        assert(r[j] == r0[j - 1]);
                    }
                } else if i == p {
                    assert(r[j] == r0[j - 1]);
                } else {
                    assert(r[i] == r0[i - 1] && r[j] == r0[j - 1]);
                }
            }
        }
    }
}

proof fn lemma_sorted_unique(s: Seq<(Seq<char>, Seq<char>)>, t: Seq<(Seq<char>, Seq<char>)>)
    requires
        members_sorted(s),
        members_sorted(t),
        keys_distinct(s),
        keys_distinct(t),
        forall|x: (Seq<char>, Seq<char>)| s.contains(x) <==> t.contains(x),
    ensures
        s == t,
    decreases s.len(),
{
    if s.len() == 0 {
        if t.len() > 0 {
            assert(t.contains(t[0]));
        }
        assert(s =~= t);
    } else {
        assert(s.contains(s[0]));
        let j = choose|j: int| 0 <= j < t.len() && t[j] == s[0];
        assert(t.contains(t[0]));
        let k = choose|k: int| 0 <= k < s.len() && s[k] == t[0];
        lemma_precedes_reflexive(s[0].0);
        lemma_precedes_reflexive(t[0].0);
        if j > 0 {
            assert(key_precedes(t[0].0, t[j].0));
        }
        if k > 0 {
            assert(key_precedes(s[0].0, s[k].0));
        }
        lemma_precedes_antisymmetric(s[0].0, t[0].0);
        assert(k == 0);
        assert(s[0] == t[0]);
        let s1 = s.drop_first();
        let t1 = t.drop_first();
        assert forall|x: (Seq<char>, Seq<char>)| s1.contains(x) <==> t1.contains(x) by {
            if s1.contains(x) {
                let i = choose|i: int| 0 <= i < s1.len() && s1[i] == x;
                assert(s[i + 1] == x);
                assert(s.contains(x));
                assert(t.contains(x));
                let m = choose|m: int| 0 <= m < t.len() && t[m] == x;
                assert(x.0 != s[0].0);
                assert(m != 0);
                assert(t1[m - 1] == x);
            }
            if t1.contains(x) {
                let i = choose|i: int| 0 <= i < t1.len() && t1[i] == x;
                assert(t[i + 1] == x);
                assert(t.contains(x));
                assert(s.contains(x));
                let m = choose|m: int| 0 <= m < s.len() && s[m] == x;
                assert(x.0 != t[0].0);
                assert(m != 0);
                assert(s1[m - 1] == x);
            }
        }
        lemma_sorted_unique(s1, t1);
        assert(s =~= seq![s[0]] + s1);
        assert(t =~= seq![t[0]] + t1);
    }
}

/// Values that differ only in the order of object members, at any depth,
/// have the same canonical rendering.
pub proof fn lemma_key_order_irrelevant(a: JsonModel, b: JsonModel)
    requires
        same_up_to_key_order(a, b),
    ensures
        canonical_text(a) == canonical_text(b),
    decreases a, 1nat,
{
    match a {
        JsonModel::Array(xs) => {
            let ys = b->Array_0;
            assert forall|i: int| 0 <= i < xs.len() implies item_texts(xs)[i] == item_texts(
                ys,
            )[i] by {
                lemma_key_order_irrelevant(xs[i], ys[i]);
            }
            assert(item_texts(xs) =~= item_texts(ys));
        },
        JsonModel::Object(es) => {
            lemma_members_order_irrelevant(es, b->Object_0);
        },
        _ => {},
    }
}

proof fn lemma_members_order_irrelevant(
    es: Seq<(Seq<char>, JsonModel)>,
    fs: Seq<(Seq<char>, JsonModel)>,
)
    requires
        same_up_to_key_order(JsonModel::Object(es), JsonModel::Object(fs)),
    ensures
        sort_members(member_texts(es)) == sort_members(member_texts(fs)),
    decreases es, 0nat,
{
    let ms = member_texts(es);
    let ns = member_texts(fs);
    assert forall|x: (Seq<char>, Seq<char>)| ms.contains(x) implies ns.contains(x) by {
        let i = choose|i: int| 0 <= i < ms.len() && ms[i] == x;
        assert(0 <= i < es.len());
        let j = choose|j: int|
            0 <= j < fs.len() && fs[j].0 == es[i].0 && same_up_to_key_order(es[i].1, fs[j].1);
        assert(decreases_to!(es => es[i]));
        lemma_key_order_irrelevant(es[i].1, fs[j].1);
        assert(ns[j] == x);
    }
    assert forall|x: (Seq<char>, Seq<char>)| ns.contains(x) implies ms.contains(x) by {
        let j = choose|j: int| 0 <= j < ns.len() && ns[j] == x;
        assert(0 <= j < fs.len());
        let i = choose|i: int|
            0 <= i < es.len() && es[i].0 == fs[j].0 && same_up_to_key_order(es[i].1, fs[j].1);
        assert(decreases_to!(es => es[i]));
        lemma_key_order_irrelevant(es[i].1, fs[j].1);
        assert(ms[i] == x);
    }
    assert(keys_distinct(ms));
    assert(keys_distinct(ns));
    lemma_sort_members(ms);
    lemma_sort_members(ns);
    assert forall|x: (Seq<char>, Seq<char>)| #[trigger]
        sort_members(ms).contains(x) <==> sort_members(ns).contains(x) by {
        if ms.contains(x) {
            assert(ns.contains(x));
        }
        if ns.contains(x) {
            assert(ms.contains(x));
        }
    }
    lemma_sorted_unique(sort_members(ms), sort_members(ns));
}

/// Every object, at any depth, has distinct keys: the values that a JSON
/// document can denote.
pub open spec fn well_formed(m: JsonModel) -> bool
    decreases m,
{
    match m {
        JsonModel::Array(xs) => forall|i: int| #![trigger xs[i]] 0 <= i < xs.len() ==> well_formed(xs[i]),
        JsonModel::Object(es) => keys_distinct(es) && forall|i: int|
            #![trigger es[i]]
            0 <= i < es.len() ==> well_formed(es[i].1),
        _ => true,
    }
}

impl JsonValue {
    /// Whether every object in the value, at any depth, has distinct keys.
    pub fn is_well_formed(&self) -> (r: bool)
        ensures
            r == well_formed(self@),
        decreases *self, 1nat,
    {
        match self {
            JsonValue::Array(items) => {
                let r = all_well_formed(items);
                proof {
                    let xs = self@->Array_0;
                    assert(xs =~= values_model(items@));
                    if r {
                        assert forall|i: int| 0 <= i < xs.len() implies well_formed(xs[i]) by {
                            assert(xs[i] == items@[i]@);
                        }
                        assert(well_formed(self@));
                    } else {
                        let k = choose|k: int| 0 <= k < items@.len() && !well_formed(items@[k]@);
                        assert(xs[k] == items@[k]@);
                        assert(!well_formed(self@));
                    }
                }
                r
            },
            JsonValue::Object(entries) => {
                let r = members_well_formed(entries);
                proof {
                    let es = self@->Object_0;
                    assert(es =~= members_model(entries@));
                    if r {
                        assert forall|i: int| 0 <= i < es.len() implies well_formed(es[i].1) by {
                            assert(es[i].1 == entries@[i].1@);
                        }
                        assert(well_formed(self@));
                    } else if keys_distinct(es) {
                        let k = choose|k: int|
                            0 <= k < entries@.len() && !well_formed(entries@[k].1@);
                        assert(es[k].1 == entries@[k].1@);
                        assert(!well_formed(self@));
                    }
                }
                r
            },
            _ => true,
        }
    }
}

fn all_well_formed(v: &Vec<JsonValue>) -> (r: bool)
    ensures
        r == forall|i: int| 0 <= i < v@.len() ==> well_formed(#[trigger] v@[i]@),
    decreases *v, 0nat,
{
    let mut i: usize = 0;
    while i < v.len()
        invariant
            i <= v@.len(),
            forall|j: int| 0 <= j < i ==> well_formed(#[trigger] v@[j]@),
        decreases v@.len() - i,
    {
        if !v[i].is_well_formed() {
            return false;
        }
        i = i + 1;
    }
    true
}

fn members_well_formed(m: &Vec<(String, JsonValue)>) -> (r: bool)
    ensures
        r == (keys_distinct(members_model(m@)) && forall|i: int|
            0 <= i < m@.len() ==> well_formed(#[trigger] m@[i].1@)),
    decreases *m, 0nat,
{
    let ghost ms = members_model(m@);
    let mut i: usize = 0;
    while i < m.len()
        invariant
            i <= m@.len(),
            ms == members_model(m@),
            forall|a: int, b: int| 0 <= a < b < i ==> ms[a].0 != ms[b].0,
            forall|j: int| 0 <= j < i ==> well_formed(#[trigger] m@[j].1@),
        decreases m@.len() - i,
    {
        let mut j: usize = 0;
        while j < i
            invariant
                j <= i,
                i < m@.len(),
                ms == members_model(m@),
                forall|a: int| 0 <= a < j ==> ms[a].0 != ms[i as int].0,
            decreases i - j,
        {
            if m[j].0 == m[i].0 {
                assert(ms[j as int].0 == ms[i as int].0);
                return false;
            }
            j = j + 1;
        }
        proof {
            assert(decreases_to!(m@[i as int] => m@[i as int].1));
        }
        if !m[i].1.is_well_formed() {
            return false;
        }
        i = i + 1;
    }
    true
}

} // verus!
