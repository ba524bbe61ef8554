use vstd::prelude::*;

use crate::text::{append_chars, chars_eq, chars_of, decimal, owned, push_decimal, string_of};

verus! {

/// serde_json's value type, carried through the printing and parsing calls.
#[verifier::external_type_specification]
#[verifier::external_body]
pub struct ExJsonValue(serde_json::Value);

/// A JSON document as the HTTP API returns it. A number keeps the text it is written
/// with; an object keeps its members in order.
#[derive(Debug)]
pub enum JsonValue {
    Null,
    Bool(bool),
    Number(String),
    Str(String),
    Array(Vec<JsonValue>),
    Object(Vec<JsonMember>),
}

/// A member of a JSON object.
#[derive(Debug)]
pub struct JsonMember {
    pub key: String,
    pub value: JsonValue,
}

/// The mathematical content of a JSON value.
pub enum JsonData {
    Null,
    Bool(bool),
    Number(Seq<char>),
    Str(Seq<char>),
    Array(Seq<JsonData>),
    Object(Seq<(Seq<char>, JsonData)>),
}

impl JsonValue {
    /// The content of the value.
    pub open spec fn data(self) -> JsonData
        decreases self,
    {
        match self {
            JsonValue::Null => JsonData::Null,
            JsonValue::Bool(b) => JsonData::Bool(b),
            JsonValue::Number(n) => JsonData::Number(n@),
            JsonValue::Str(t) => JsonData::Str(t@),
            JsonValue::Array(items) => JsonData::Array(items_data(items@)),
            JsonValue::Object(members) => JsonData::Object(members_data(members@)),
        }
    }
}

/// The contents of a sequence of values.
pub open spec fn items_data(items: Seq<JsonValue>) -> Seq<JsonData>
    decreases items,
{
    if items.len() == 0 {
        seq![]
    } else {
        items_data(items.drop_last()).push(items.last().data())
    }
}

/// The contents of a sequence of members.
pub open spec fn members_data(members: Seq<JsonMember>) -> Seq<(Seq<char>, JsonData)>
    decreases members,
{
    if members.len() == 0 {
        seq![]
    } else {
        members_data(members.drop_last()).push((members.last().key@, members.last().value.data()))
    }
}

/// The two hexadecimal digits of a byte value, in lower case.
pub open spec fn hex_digit(d: nat) -> char {
    if d < 10 {
        ((d + 48) as u32) as char
    } else {
        ((d + 87) as u32) as char
    }
}

/// `null`.
pub open spec fn null_text() -> Seq<char> {
    seq!['n', 'u', 'l', 'l']
}

/// `true` or `false`.
pub open spec fn bool_text(b: bool) -> Seq<char> {
    if b {
        seq!['t', 'r', 'u', 'e']
    } else {
        seq!['f', 'a', 'l', 's', 'e']
    }
}

/// What serde_json writes for a value with `Value::to_string`: its compact JSON text.
pub uninterp spec fn json_text(v: JsonData) -> Seq<char>;

/// How a value is shown: `null`, `true`, `false`, a number as written, a string
/// without quotes, arrays and objects as compact JSON.
pub open spec fn rendered(v: JsonData) -> Seq<char> {
    match v {
        JsonData::Null => null_text(),
        JsonData::Bool(b) => bool_text(b),
        JsonData::Number(n) => n,
        JsonData::Str(t) => t,
        _ => json_text(v),
    }
}

pub proof fn lemma_items_data(items: Seq<JsonValue>)
    ensures
        items_data(items).len() == items.len(),
        forall|i: int| 0 <= i < items.len() ==> #[trigger] items_data(items)[i] == items[i].data(),
    decreases items.len(),
{
    if items.len() > 0 {
        lemma_items_data(items.drop_last());
        assert forall|i: int| 0 <= i < items.len() implies #[trigger] items_data(items)[i]
            == items[i].data() by {
            if i < items.len() - 1 {
                assert(items_data(items)[i] == items_data(items.drop_last())[i]);
                assert(items.drop_last()[i] == items[i]);
            }
        }
    }
}

pub proof fn lemma_members_data(members: Seq<JsonMember>)
    ensures
        members_data(members).len() == members.len(),
        forall|i: int|
            0 <= i < members.len() ==> #[trigger] members_data(members)[i] == (
                members[i].key@,
                members[i].value.data(),
            ),
    decreases members.len(),
{
    if members.len() > 0 {
        lemma_members_data(members.drop_last());
        assert forall|i: int| 0 <= i < members.len() implies #[trigger] members_data(members)[i]
            == (members[i].key@, members[i].value.data()) by {
            if i < members.len() - 1 {
                assert(members_data(members)[i] == members_data(members.drop_last())[i]);
                assert(members.drop_last()[i] == members[i]);
            }
        }
    }
}

/// A copy of a JSON value.
#[verifier::loop_isolation(false)]
pub fn copy_json(v: &JsonValue) -> (r: JsonValue)
    ensures
        r.data() == v.data(),
    decreases v,
{
    match v {
        JsonValue::Null => JsonValue::Null,
        JsonValue::Bool(b) => JsonValue::Bool(*b),
        JsonValue::Number(n) => JsonValue::Number(n.clone()),
        JsonValue::Str(t) => JsonValue::Str(t.clone()),
        JsonValue::Array(items) => {
            let mut out: Vec<JsonValue> = Vec::new();
            let mut i: usize = 0;
            proof {
                lemma_items_data(items@);
            }
            while i < items.len()
                invariant
                    i <= items@.len(),
                    items_data(items@).len() == items@.len(),
                    forall|k: int| 0 <= k < items@.len() ==> #[trigger] items_data(items@)[k] == items@[k].data(),
                    items_data(out@) == items_data(items@).subrange(0, i as int),
                decreases items.len() - i,
            {
                proof {
                    assert(decreases_to!(items => items@[i as int]));
                }
                let c = copy_json(&items[i]);
                let ghost prev = out@;
                out.push(c);
                assert(out@.drop_last() == prev);
                assert(items_data(out@) =~= items_data(items@).subrange(0, i + 1));
                i += 1;
            }
            assert(items_data(items@).subrange(0, items@.len() as int) =~= items_data(items@));
            JsonValue::Array(out)
        },
        JsonValue::Object(members) => {
            let mut out: Vec<JsonMember> = Vec::new();
            let mut i: usize = 0;
            proof {
                lemma_members_data(members@);
            }
            while i < members.len()
                invariant
                    i <= members@.len(),
                    members_data(members@).len() == members@.len(),
                    forall|k: int|
                        0 <= k < members@.len() ==> #[trigger] members_data(members@)[k] == (
                            members@[k].key@,
                            members@[k].value.data(),
                        ),
                    members_data(out@) == members_data(members@).subrange(0, i as int),
                decreases members.len() - i,
            {
                proof {
                    assert(decreases_to!(members => members@[i as int].value));
                }
                let c = copy_json(&members[i].value);
                let ghost prev = out@;
                out.push(JsonMember { key: members[i].key.clone(), value: c });
                assert(out@.drop_last() == prev);
                assert(members_data(out@) =~= members_data(members@).subrange(0, i + 1));
                i += 1;
            }
            assert(members_data(members@).subrange(0, members@.len() as int) =~= members_data(
                members@,
            ));
            JsonValue::Object(out)
        },
    }
}


/// The serde_json value of a library value, for printing: numbers are read from
/// their text (a text that is not a JSON number becomes `null`).
#[verifier::external_body]
pub(crate) fn serde_value_of(v: &JsonValue) -> (r: serde_json::Value) {
    match v {
        JsonValue::Null => serde_json::Value::Null,
        JsonValue::Bool(flag) => serde_json::Value::Bool(*flag),
        JsonValue::Number(text) => match text.parse::<serde_json::Number>() {
            Ok(number) => serde_json::Value::Number(number),
            Err(_) => serde_json::Value::Null,
        },
        JsonValue::Str(text) => serde_json::Value::String(text.clone()),
        JsonValue::Array(items) => serde_json::Value::Array(items.iter().map(serde_value_of).collect()),
        JsonValue::Object(members) => serde_json::Value::Object(
            members.iter().map(|m| (m.key.clone(), serde_value_of(&m.value))).collect(),
        ),
    }
}

/// The library value of a serde_json value: numbers keep the text serde_json writes
/// for them, members keep the order of serde_json's map.
#[verifier::external_body]
pub(crate) fn json_value_of(v: serde_json::Value) -> (r: JsonValue) {
    match v {
        serde_json::Value::Null => JsonValue::Null,
        serde_json::Value::Bool(flag) => JsonValue::Bool(flag),
        serde_json::Value::Number(number) => JsonValue::Number(number.to_string()),
        serde_json::Value::String(text) => JsonValue::Str(text),
        serde_json::Value::Array(items) => JsonValue::Array(items.into_iter().map(json_value_of).collect()),
        serde_json::Value::Object(map) => JsonValue::Object(
            map.into_iter().map(|(key, value)| JsonMember { key, value: json_value_of(value) }).collect(),
        ),
    }
}

/// serde_json's `Value::to_string` on the value: its compact JSON text, named by
/// `json_text`. The text is a function of the value alone; what it holds (escaping,
/// member order and number forms) is left to serde_json and not stated here.
#[verifier::external_body]
fn compact_json_text(v: &JsonValue) -> (r: String)
    ensures
        r@ == json_text(v.data()),
{
    serde_value_of(v).to_string()
}

/// How a value is shown: `null`, `true`, `false`, a number as written and a string
/// without quotes; arrays and objects as serde_json prints them.
pub fn render_json_value(value: &JsonValue) -> (r: String)
    ensures
        r@ == rendered(value.data()),
{
    match value {
        JsonValue::Null => string_of(&vec!['n', 'u', 'l', 'l']),
        JsonValue::Bool(b) => if *b {
            string_of(&vec!['t', 'r', 'u', 'e'])
        } else {
            string_of(&vec!['f', 'a', 'l', 's', 'e'])
        },
        JsonValue::Number(n) => n.clone(),
        JsonValue::Str(t) => t.clone(),
        _ => compact_json_text(value),
    }
}


/// A labeled value shown for a route's response.
#[derive(Debug)]
pub struct OutputField {
    pub label: String,
    pub value: String,
}

/// The (label, value) texts of the fields.
pub open spec fn fields_view(fs: Seq<OutputField>) -> Seq<(Seq<char>, Seq<char>)> {
    Seq::new(fs.len(), |i: int| (fs[i].label@, fs[i].value@))
}

pub open spec fn opt_string_view(o: Option<String>) -> Option<Seq<char>> {
    match o {
        Some(t) => Some(t@),
        None => None,
    }
}

/// `value`.
pub open spec fn value_text() -> Seq<char> {
    seq!['v', 'a', 'l', 'u', 'e']
}

/// The label of a value at the top: the prefix, or `value` when there is none.
pub open spec fn label_or_value(prefix: Option<Seq<char>>) -> Seq<char> {
    match prefix {
        Some(p) => p,
        None => value_text(),
    }
}

/// The label of an object member: `prefix.key`, or the key alone at the top.
pub open spec fn member_label(prefix: Option<Seq<char>>, key: Seq<char>) -> Seq<char> {
    match prefix {
        Some(p) => p + seq!['.'] + key,
        None => key,
    }
}

/// The label of an array item: `prefix[i]`, or `[i]` at the top.
pub open spec fn index_label(prefix: Option<Seq<char>>, i: nat) -> Seq<char> {
    match prefix {
        Some(p) => p + seq!['['] + decimal(i) + seq![']'],
        None => seq!['['] + decimal(i) + seq![']'],
    }
}

/// The fields of a value: an object or array yields the fields of its members or
/// items, labeled by path; an empty object or array yields one field `{}` or `[]`;
/// any other value yields one field with its rendered text.
pub open spec fn flatten(prefix: Option<Seq<char>>, v: JsonData) -> Seq<(Seq<char>, Seq<char>)>
    decreases v,
{
    match v {
        JsonData::Object(ms) => if ms.len() == 0 {
            seq![(label_or_value(prefix), seq!['{', '}'])]
        } else {
            flatten_members(prefix, ms)
        },
        JsonData::Array(items) => if items.len() == 0 {
            seq![(label_or_value(prefix), seq!['[', ']'])]
        } else {
            flatten_items(prefix, items)
        },
        _ => seq![(label_or_value(prefix), rendered(v))],
    }
}

/// The fields of the members, in order.
pub open spec fn flatten_members(prefix: Option<Seq<char>>, ms: Seq<(Seq<char>, JsonData)>) -> Seq<
    (Seq<char>, Seq<char>),
>
    decreases ms,
{
    if ms.len() == 0 {
        seq![]
    } else {
        flatten_members(prefix, ms.drop_last()) + flatten(
            Some(member_label(prefix, ms.last().0)),
            ms.last().1,
        )
    }
}

/// The fields of the items, in order.
pub open spec fn flatten_items(prefix: Option<Seq<char>>, items: Seq<JsonData>) -> Seq<
    (Seq<char>, Seq<char>),
>
    decreases items,
{
    if items.len() == 0 {
        seq![]
    } else {
        flatten_items(prefix, items.drop_last()) + flatten(
            Some(index_label(prefix, (items.len() - 1) as nat)),
            items.last(),
        )
    }
}

/// Every value is shown: flattening any value yields at least one labeled field.
pub proof fn law_every_value_yields_a_field(prefix: Option<Seq<char>>, v: JsonData)
    ensures
        flatten(prefix, v).len() >= 1,
    decreases v,
{
    match v {
        JsonData::Object(ms) => {
            if ms.len() > 0 {
                let last = ms.last();
                assert(decreases_to!(v => ms));
                assert(decreases_to!(ms => ms[ms.len() - 1]));
                assert(decreases_to!(v => last.1));
                law_every_value_yields_a_field(Some(member_label(prefix, last.0)), last.1);
            }
        },
        JsonData::Array(items) => {
            if items.len() > 0 {
                assert(decreases_to!(v => items));
                assert(decreases_to!(items => items[items.len() - 1]));
                law_every_value_yields_a_field(
                    Some(index_label(prefix, (items.len() - 1) as nat)),
                    items.last(),
                );
            }
        },
        _ => {},
    }
}

fn member_label_string(prefix: &Option<String>, key: &String) -> (r: String)
    ensures
        r@ == member_label(opt_string_view(*prefix), key@),
{
    match prefix {
        Some(p) => {
            let mut out = chars_of(p.as_str());
            out.push('.');
            append_chars(&mut out, &chars_of(key.as_str()));
            string_of(&out)
        },
        None => key.clone(),
    }
}

fn index_label_string(prefix: &Option<String>, i: usize) -> (r: String)
    ensures
        r@ == index_label(opt_string_view(*prefix), i as nat),
{
    let mut out: Vec<char> = match prefix {
        Some(p) => chars_of(p.as_str()),
        None => Vec::new(),
    };
    out.push('[');
    push_decimal(&mut out, i as u64);
    out.push(']');
    string_of(&out)
}

fn label_or_value_string(prefix: Option<String>) -> (r: String)
    ensures
        r@ == label_or_value(opt_string_view(prefix)),
{
    match prefix {
        Some(p) => p,
        None => string_of(&vec!['v', 'a', 'l', 'u', 'e']),
    }
}

/// Appends the fields of `value`, labeled under `prefix`.
#[verifier::loop_isolation(false)]
pub fn flatten_json_fields(prefix: Option<String>, value: &JsonValue, fields: &mut Vec<OutputField>)
    ensures
        fields_view(final(fields)@) == fields_view(old(fields)@) + flatten(
            opt_string_view(prefix),
            value.data(),
        ),
    decreases value,
{
    let ghost before = fields_view(fields@);
    let ghost pv = opt_string_view(prefix);
    match value {
        JsonValue::Object(members) => {
            proof {
                lemma_members_data(members@);
            }
            let ghost ds = members_data(members@);
            if members.len() == 0 {
                let label = label_or_value_string(prefix);
                fields.push(OutputField { label, value: string_of(&vec!['{', '}']) });
                assert(fields_view(fields@) =~= before + flatten(pv, value.data()));
                return;
            }
            let mut i: usize = 0;
            while i < members.len()
                invariant
                    i <= members@.len(),
                    fields_view(fields@) == before + flatten_members(pv, ds.subrange(0, i as int)),
                decreases members.len() - i,
            {
                let label = member_label_string(&prefix, &members[i].key);
                proof {
                    assert(decreases_to!(members => members@[i as int].value));
                }
                flatten_json_fields(Some(label), &members[i].value, fields);
                assert(ds.subrange(0, i + 1).drop_last() =~= ds.subrange(0, i as int));
                assert(ds.subrange(0, i + 1).last() == ds[i as int]);
                i += 1;
                assert(fields_view(fields@) =~= before + flatten_members(pv, ds.subrange(0, i as int)));
            }
            assert(ds.subrange(0, members@.len() as int) =~= ds);
        },
        JsonValue::Array(items) => {
            proof {
                lemma_items_data(items@);
            }
            let ghost ds = items_data(items@);
            if items.len() == 0 {
                let label = label_or_value_string(prefix);
                fields.push(OutputField { label, value: string_of(&vec!['[', ']']) });
                assert(fields_view(fields@) =~= before + flatten(pv, value.data()));
                return;
            }
            let mut i: usize = 0;
            while i < items.len()
                invariant
                    i <= items@.len(),
                    fields_view(fields@) == before + flatten_items(pv, ds.subrange(0, i as int)),
                decreases items.len() - i,
            {
                let label = index_label_string(&prefix, i);
                proof {
                    assert(decreases_to!(items => items@[i as int]));
                }
                flatten_json_fields(Some(label), &items[i], fields);
                assert(ds.subrange(0, i + 1).drop_last() =~= ds.subrange(0, i as int));
                assert(ds.subrange(0, i + 1).last() == ds[i as int]);
                i += 1;
                assert(fields_view(fields@) =~= before + flatten_items(pv, ds.subrange(0, i as int)));
            }
            assert(ds.subrange(0, items@.len() as int) =~= ds);
        },
        _ => {
            let text = render_json_value(value);
            let label = label_or_value_string(prefix);
            fields.push(OutputField { label, value: text });
            assert(fields_view(fields@) =~= before + flatten(pv, value.data()));
        },
    }
}


/// The value of the first member named `key`.
pub open spec fn member_get(ms: Seq<(Seq<char>, JsonData)>, key: Seq<char>) -> Option<JsonData>
    decreases ms.len(),
{
    if ms.len() == 0 {
        None
    } else if ms[0].0 == key {
        Some(ms[0].1)
    } else {
        member_get(ms.drop_first(), key)
    }
}

/// `Value::get`: the member `key` of an object; nothing for other values.
pub open spec fn get(v: JsonData, key: Seq<char>) -> Option<JsonData> {
    match v {
        JsonData::Object(ms) => member_get(ms, key),
        _ => None,
    }
}

/// The items of an array value.
pub open spec fn array_items(v: Option<JsonData>) -> Option<Seq<JsonData>> {
    match v {
        Some(JsonData::Array(items)) => Some(items),
        _ => None,
    }
}

/// The member `key` of the value found, if both exist.
pub open spec fn get_in(v: Option<JsonData>, key: Seq<char>) -> Option<JsonData> {
    match v {
        Some(d) => get(d, key),
        None => None,
    }
}

/// The value of the first member named `key`, if any.
#[verifier::loop_isolation(false)]
pub fn get_member<'a>(v: &'a JsonValue, key: &[char]) -> (r: Option<&'a JsonValue>)
    ensures
        match r {
            Some(x) => get(v.data(), key@) == Some(x.data()),
            None => get(v.data(), key@) is None,
        },
{
    match v {
        JsonValue::Object(members) => {
            proof {
                lemma_members_data(members@);
            }
            let ghost ds = members_data(members@);
            let mut i: usize = 0;
            assert(ds.subrange(0, ds.len() as int) =~= ds);
            while i < members.len()
                invariant
                    i <= members@.len(),
                    ds == members_data(members@),
                    ds.len() == members@.len(),
                    forall|k: int|
                        0 <= k < members@.len() ==> #[trigger] ds[k] == (
                            members@[k].key@,
                            members@[k].value.data(),
                        ),
                    member_get(ds, key@) == member_get(ds.subrange(i as int, ds.len() as int), key@),
                decreases members.len() - i,
            {
                let k = chars_of(members[i].key.as_str());
                assert(ds.subrange(i as int, ds.len() as int).len() > 0);
                assert(ds.subrange(i as int, ds.len() as int)[0] == ds[i as int]);
                if chars_eq(&k, key) {
                    assert(ds[i as int].0 == key@);
                    assert(member_get(ds.subrange(i as int, ds.len() as int), key@) == Some(
                        ds[i as int].1,
                    ));
                    assert(v.data() == JsonData::Object(ds));
                    assert(get(v.data(), key@) == Some(members@[i as int].value.data()));
                    return Some(&members[i].value);
                }
                assert(ds.subrange(i as int, ds.len() as int).drop_first() =~= ds.subrange(
                    i + 1,
                    ds.len() as int,
                ));
                i += 1;
            }
            None
        },
        _ => None,
    }
}

/// The items of an array value.
pub fn as_array<'a>(v: Option<&'a JsonValue>) -> (r: Option<&'a Vec<JsonValue>>)
    ensures
        match v {
            Some(x) => match r {
                Some(items) => array_items(Some(x.data())) == Some(items_data(items@)),
                None => array_items(Some(x.data())) is None,
            },
            None => r is None,
        },
{
    match v {
        Some(JsonValue::Array(items)) => Some(items),
        _ => None,
    }
}

/// The members that are not named by any of `skip`, in order.
pub open spec fn members_except(ms: Seq<(Seq<char>, JsonData)>, skip: Seq<Seq<char>>) -> Seq<
    (Seq<char>, JsonData),
>
    decreases ms.len(),
{
    if ms.len() == 0 {
        seq![]
    } else if skip.contains(ms.last().0) {
        members_except(ms.drop_last(), skip)
    } else {
        members_except(ms.drop_last(), skip).push(ms.last())
    }
}

/// The name of column `i` of a table row: the given name, else `field_i` when
/// `numbered`, else `value`.
pub open spec fn column_name(columns: Seq<Seq<char>>, i: nat, numbered: bool) -> Seq<char> {
    if i < columns.len() {
        columns[i as int]
    } else if numbered {
        "field_"@ + decimal(i)
    } else {
        value_text()
    }
}

/// The cells of row `r` of table `table`: `table[r].column` and the rendered item.
pub open spec fn row_cells(
    table: Seq<char>,
    r: nat,
    columns: Seq<Seq<char>>,
    numbered: bool,
    row: Seq<JsonData>,
) -> Seq<(Seq<char>, Seq<char>)>
    decreases row.len(),
{
    if row.len() == 0 {
        seq![]
    } else {
        row_cells(table, r, columns, numbered, row.drop_last()).push(
            (
                member_label(
                    Some(index_label(Some(table), r)),
                    column_name(columns, (row.len() - 1) as nat, numbered),
                ),
                rendered(row.last()),
            ),
        )
    }
}

/// The fields of one entry of table `table`: its cells when it is an array, else
/// its fields under `table[r]`.
pub open spec fn table_entry_fields(
    table: Seq<char>,
    r: nat,
    columns: Seq<Seq<char>>,
    numbered: bool,
    entry: JsonData,
) -> Seq<(Seq<char>, Seq<char>)> {
    match entry {
        JsonData::Array(row) => row_cells(table, r, columns, numbered, row),
        _ => flatten(Some(index_label(Some(table), r)), entry),
    }
}

/// The fields of the entries of table `table`, in order.
pub open spec fn table_rows(
    table: Seq<char>,
    columns: Seq<Seq<char>>,
    numbered: bool,
    entries: Seq<JsonData>,
) -> Seq<(Seq<char>, Seq<char>)>
    decreases entries.len(),
{
    if entries.len() == 0 {
        seq![]
    } else {
        table_rows(table, columns, numbered, entries.drop_last()) + table_entry_fields(
            table,
            (entries.len() - 1) as nat,
            columns,
            numbered,
            entries.last(),
        )
    }
}

/// The fields of a response that holds a table: for an object, the fields of its
/// members other than `skip`, then the fields of the entries of the array member
/// `table`; any other value is flattened as usual.
pub open spec fn table_fields(
    v: JsonData,
    table: Seq<char>,
    skip: Seq<Seq<char>>,
    columns: Seq<Seq<char>>,
    numbered: bool,
) -> Seq<(Seq<char>, Seq<char>)> {
    match v {
        JsonData::Object(ms) => flatten_members(None, members_except(ms, skip)) + match array_items(
            get(v, table),
        ) {
            Some(entries) => table_rows(table, columns, numbered, entries),
            None => seq![],
        },
        _ => flatten(None, v),
    }
}

/// The rendered items of the `format` array of a miners response, or none.
pub open spec fn miner_columns(v: JsonData) -> Seq<Seq<char>> {
    match array_items(get(v, "format"@)) {
        Some(items) => Seq::new(items.len(), |i: int| rendered(items[i])),
        None => seq![],
    }
}

/// The fields of a `/1/miners` response: the rows of `miners` are named by the
/// `format` array, extra columns `field_i`.
pub open spec fn miners_fields(v: JsonData) -> Seq<(Seq<char>, Seq<char>)> {
    table_fields(v, "miners"@, seq!["miners"@, "format"@], miner_columns(v), true)
}

/// The column names of a `/1/workers` row.
pub open spec fn worker_columns() -> Seq<Seq<char>> {
    seq![
        "name"@,
        "ip"@,
        "connections"@,
        "accepted"@,
        "rejected"@,
        "invalid"@,
        "hashes"@,
        "last_hash"@,
        "hashrate_60s"@,
        "hashrate_10m"@,
        "hashrate_1h"@,
        "hashrate_12h"@,
        "hashrate_24h"@,
    ]
}

/// The label and value of cell `k` of row `r` of table `table`.
proof fn lemma_row_cell(
    table: Seq<char>,
    r: nat,
    columns: Seq<Seq<char>>,
    numbered: bool,
    row: Seq<JsonData>,
    k: int,
)
    requires
        0 <= k < row.len(),
    ensures
        row_cells(table, r, columns, numbered, row).len() == row.len(),
        row_cells(table, r, columns, numbered, row)[k] == (
            member_label(Some(index_label(Some(table), r)), column_name(columns, k as nat, numbered)),
            rendered(row[k]),
        ),
    decreases row.len(),
{
    if k < row.len() - 1 {
        lemma_row_cell(table, r, columns, numbered, row.drop_last(), k);
    } else {
        lemma_row_cells_len(table, r, columns, numbered, row.drop_last());
    }
}

proof fn lemma_row_cells_len(
    table: Seq<char>,
    r: nat,
    columns: Seq<Seq<char>>,
    numbered: bool,
    row: Seq<JsonData>,
)
    ensures
        row_cells(table, r, columns, numbered, row).len() == row.len(),
    decreases row.len(),
{
    if row.len() > 0 {
        lemma_row_cells_len(table, r, columns, numbered, row.drop_last());
    }
}

/// The cells of a `/1/workers` row are labeled by the worker row format of the proxy:
/// cell `k` of row `r` is `workers[r].<name>` with the `k`-th of name, ip,
/// connections, accepted, rejected, invalid, hashes, last_hash, hashrate_60s,
/// hashrate_10m, hashrate_1h, hashrate_12h, hashrate_24h, and `workers[r].value`
/// past them; its value is the rendered item. For a response holding only the
/// `workers` table with one row, these cells are exactly the fields shown.
pub proof fn law_worker_cells_are_named_by_the_row_format(r: nat, row: Seq<JsonData>, k: int)
    requires
        0 <= k < row.len(),
    ensures
        ({
            let names = seq![
                "name"@,
                "ip"@,
                "connections"@,
                "accepted"@,
                "rejected"@,
                "invalid"@,
                "hashes"@,
                "last_hash"@,
                "hashrate_60s"@,
                "hashrate_10m"@,
                "hashrate_1h"@,
                "hashrate_12h"@,
                "hashrate_24h"@,
            ];
            let name = if k < 13 { names[k] } else { "value"@ };
            let cell = (
                "workers"@ + seq!['['] + decimal(r) + seq![']', '.'] + name,
                rendered(row[k]),
            );
            &&& row_cells("workers"@, r, worker_columns(), false, row)[k] == cell
            &&& (r == 0 ==> endpoint_fields(
                "/1/workers"@,
                JsonData::Object(seq![("workers"@, JsonData::Array(seq![JsonData::Array(row)]))]),
            ) == row_cells("workers"@, 0, worker_columns(), false, row))
        }),
{
    lemma_row_cell("workers"@, r, worker_columns(), false, row, k);
    reveal_strlit("value");
    assert(value_text() =~= "value"@);
    let v = JsonData::Object(seq![("workers"@, JsonData::Array(seq![JsonData::Array(row)]))]);
    let ms = seq![("workers"@, JsonData::Array(seq![JsonData::Array(row)]))];
    reveal_strlit("/1/workers");
    reveal_strlit("/1/miners");
    assert("/1/workers"@ != "/1/miners"@) by {
        assert("/1/workers"@[3] != "/1/miners"@[3]);
    }
    assert(members_except(ms.drop_last(), seq!["workers"@]) =~= seq![]);
    assert(seq!["workers"@][0] == "workers"@);
    assert(seq!["workers"@].contains(ms.last().0));
    assert(members_except(ms, seq!["workers"@]) =~= seq![]);
    assert(ms[0].0 == "workers"@);
    assert(get(v, "workers"@) == Some(JsonData::Array(seq![JsonData::Array(row)])));
    let entries = seq![JsonData::Array(row)];
    assert(entries.drop_last() =~= seq![]);
    assert(table_rows("workers"@, worker_columns(), false, entries.drop_last()) =~= seq![]);
    assert(entries.last() == JsonData::Array(row));
    assert(table_entry_fields("workers"@, 0, worker_columns(), false, entries.last()) == row_cells(
        "workers"@,
        0,
        worker_columns(),
        false,
        row,
    ));
    assert(table_rows("workers"@, worker_columns(), false, entries) =~= row_cells(
        "workers"@,
        0,
        worker_columns(),
        false,
        row,
    ));
    assert(flatten_members(None, seq![]) =~= seq![]);
}

/// The fields of a `/1/workers` response: the rows of `workers` are named by the
/// worker columns, extra columns `value`.
pub open spec fn workers_fields(v: JsonData) -> Seq<(Seq<char>, Seq<char>)> {
    table_fields(v, "workers"@, seq!["workers"@], worker_columns(), false)
}

/// The fields shown for the response of a route.
pub open spec fn endpoint_fields(endpoint: Seq<char>, v: JsonData) -> Seq<(Seq<char>, Seq<char>)> {
    if endpoint == "/1/miners"@ {
        miners_fields(v)
    } else if endpoint == "/1/workers"@ {
        workers_fields(v)
    } else {
        flatten(None, v)
    }
}

fn contains_chars(list: &Vec<Vec<char>>, key: &[char]) -> (r: bool)
    ensures
        r == crate::text::views(list@).contains(key@),
{
    let ghost vs = crate::text::views(list@);
    let mut i: usize = 0;
    while i < list.len()
        invariant
            i <= list@.len(),
            vs == crate::text::views(list@),
            forall|k: int| 0 <= k < i ==> vs[k] != key@,
        decreases list.len() - i,
    {
        if chars_eq(&list[i], key) {
            assert(vs[i as int] == key@);
            return true;
        }
        i += 1;
    }
    false
}

fn column_name_string(columns: &Vec<String>, i: usize, numbered: bool) -> (r: String)
    ensures
        r@ == column_name(string_views(columns@), i as nat, numbered),
{
    if i < columns.len() {
        columns[i].clone()
    } else if numbered {
        let mut out = chars_of("field_");
        push_decimal(&mut out, i as u64);
        string_of(&out)
    } else {
        string_of(&vec!['v', 'a', 'l', 'u', 'e'])
    }
}

pub open spec fn string_views(v: Seq<String>) -> Seq<Seq<char>> {
    Seq::new(v.len(), |i: int| v[i]@)
}

/// Appends the fields of a response that holds the table `table`.
#[verifier::loop_isolation(false)]
fn table_output_fields(
    value: &JsonValue,
    table: &Vec<char>,
    skip: &Vec<Vec<char>>,
    columns: &Vec<String>,
    numbered: bool,
    fields: &mut Vec<OutputField>,
)
    ensures
        fields_view(final(fields)@) == fields_view(old(fields)@) + table_fields(
            value.data(),
            table@,
            crate::text::views(skip@),
            string_views(columns@),
            numbered,
        ),
{
    let ghost before = fields_view(fields@);
    let ghost sk = crate::text::views(skip@);
    let ghost cols = string_views(columns@);
    match value {
        JsonValue::Object(members) => {
            proof {
                lemma_members_data(members@);
            }
            let ghost ds = members_data(members@);
            let mut i: usize = 0;
            while i < members.len()
                invariant
                    i <= members@.len(),
                    fields_view(fields@) == before + flatten_members(
                        None,
                        members_except(ds.subrange(0, i as int), sk),
                    ),
                decreases members.len() - i,
            {
                let key = chars_of(members[i].key.as_str());
                assert(ds.subrange(0, i + 1).drop_last() =~= ds.subrange(0, i as int));
                assert(ds.subrange(0, i + 1).last() == ds[i as int]);
                if !contains_chars(skip, &key) {
                    let ghost kept = members_except(ds.subrange(0, i as int), sk);
                    flatten_json_fields(Some(members[i].key.clone()), &members[i].value, fields);
                    assert(kept.push(ds[i as int]).drop_last() =~= kept);
                    assert(fields_view(fields@) =~= before + flatten_members(
                        None,
                        members_except(ds.subrange(0, i + 1), sk),
                    ));
                }
                i += 1;
            }
            assert(ds.subrange(0, members@.len() as int) =~= ds);
            let ghost mid = fields_view(fields@);
            let table_value = get_member(value, table);
            match as_array(table_value) {
                Some(entries) => {
                    proof {
                        lemma_items_data(entries@);
                    }
                    let ghost es = items_data(entries@);
                    let mut r: usize = 0;
                    while r < entries.len()
                        invariant
                            r <= entries@.len(),
                            fields_view(fields@) == mid + table_rows(
                                table@,
                                cols,
                                numbered,
                                es.subrange(0, r as int),
                            ),
                        decreases entries.len() - r,
                    {
                        let ghost row_start = fields_view(fields@);
                        table_entry_output_fields(table, r, columns, numbered, &entries[r], fields);
                        assert(es.subrange(0, r + 1).drop_last() =~= es.subrange(0, r as int));
                        assert(es.subrange(0, r + 1).last() == es[r as int]);
                        r += 1;
                        assert(fields_view(fields@) =~= mid + table_rows(
                            table@,
                            cols,
                            numbered,
                            es.subrange(0, r as int),
                        ));
                    }
                    assert(es.subrange(0, entries@.len() as int) =~= es);
                },
                None => {
                    assert(fields_view(fields@) =~= mid + seq![]);
                },
            }
        },
        _ => {
            flatten_json_fields(None, value, fields);
        },
    }
}

/// Appends the fields of entry `r` of table `table`.
fn table_entry_output_fields(
    table: &Vec<char>,
    r: usize,
    columns: &Vec<String>,
    numbered: bool,
    entry: &JsonValue,
    fields: &mut Vec<OutputField>,
)
    ensures
        fields_view(final(fields)@) == fields_view(old(fields)@) + table_entry_fields(
            table@,
            r as nat,
            string_views(columns@),
            numbered,
            entry.data(),
        ),
{
    let ghost before = fields_view(fields@);
    let table_name = string_of(table);
    let row_label = index_label_string(&Some(table_name), r);
    match entry {
        JsonValue::Array(row) => {
            proof {
                lemma_items_data(row@);
            }
            let ghost ds = items_data(row@);
            let mut f: usize = 0;
            while f < row.len()
                invariant
                    f <= row@.len(),
                    ds == items_data(row@),
                    ds.len() == row@.len(),
                    forall|k: int| 0 <= k < row@.len() ==> #[trigger] ds[k] == row@[k].data(),
                    row_label@ == index_label(Some(table@), r as nat),
                    fields_view(fields@) == before + row_cells(
                        table@,
                        r as nat,
                        string_views(columns@),
                        numbered,
                        ds.subrange(0, f as int),
                    ),
                decreases row.len() - f,
            {
                let name = column_name_string(columns, f, numbered);
                let label = member_label_string(&Some(row_label.clone()), &name);
                let text = render_json_value(&row[f]);
                let ghost prev = fields_view(fields@);
                fields.push(OutputField { label, value: text });
                let ghost cell = (
                    member_label(
                        Some(index_label(Some(table@), r as nat)),
                        column_name(string_views(columns@), f as nat, numbered),
                    ),
                    rendered(ds[f as int]),
                );
                assert(fields_view(fields@) =~= prev.push(cell));
                assert(ds.subrange(0, f + 1).drop_last() =~= ds.subrange(0, f as int));
                assert(ds.subrange(0, f + 1).last() == ds[f as int]);
                f += 1;
                assert(fields_view(fields@) =~= before + row_cells(
                    table@,
                    r as nat,
                    string_views(columns@),
                    numbered,
                    ds.subrange(0, f as int),
                ));
            }
            assert(ds.subrange(0, row@.len() as int) =~= ds);
        },
        _ => {
            flatten_json_fields(Some(row_label), entry, fields);
        },
    }
}


/// The fields of a `/1/miners` response.
pub fn miners_output_fields(value: &JsonValue) -> (r: Vec<OutputField>)
    ensures
        fields_view(r@) == miners_fields(value.data()),
{
    let format_key = chars_of("format");
    let mut columns: Vec<String> = Vec::new();
    match as_array(get_member(value, &format_key)) {
        Some(items) => {
            let mut i: usize = 0;
            proof {
                lemma_items_data(items@);
            }
            while i < items.len()
                invariant
                    i <= items@.len(),
                    items_data(items@).len() == items@.len(),
                    forall|k: int| 0 <= k < items@.len() ==> #[trigger] items_data(items@)[k] == items@[k].data(),
                    columns@.len() == i,
                    forall|k: int| 0 <= k < i ==> (#[trigger] columns@[k])@ == rendered(items@[k].data()),
                decreases items.len() - i,
            {
                columns.push(render_json_value(&items[i]));
                i += 1;
            }
            assert(string_views(columns@) =~= miner_columns(value.data()));
        },
        None => {
            assert(string_views(columns@) =~= miner_columns(value.data()));
        },
    }
    let table = chars_of("miners");
    let skip: Vec<Vec<char>> = vec![chars_of("miners"), chars_of("format")];
    assert(crate::text::views(skip@) =~= seq!["miners"@, "format"@]);
    let mut fields: Vec<OutputField> = Vec::new();
    table_output_fields(value, &table, &skip, &columns, true, &mut fields);
    assert(fields_view(fields@) =~= miners_fields(value.data()));
    fields
}

/// The fields of a `/1/workers` response.
pub fn workers_output_fields(value: &JsonValue) -> (r: Vec<OutputField>)
    ensures
        fields_view(r@) == workers_fields(value.data()),
{
    let columns: Vec<String> = vec![
        owned("name"),
        owned("ip"),
        owned("connections"),
        owned("accepted"),
        owned("rejected"),
        owned("invalid"),
        owned("hashes"),
        owned("last_hash"),
        owned("hashrate_60s"),
        owned("hashrate_10m"),
        owned("hashrate_1h"),
        owned("hashrate_12h"),
        owned("hashrate_24h"),
    ];
    assert(string_views(columns@) =~= worker_columns());
    let table = chars_of("workers");
    let skip: Vec<Vec<char>> = vec![chars_of("workers")];
    assert(crate::text::views(skip@) =~= seq!["workers"@]);
    let mut fields: Vec<OutputField> = Vec::new();
    table_output_fields(value, &table, &skip, &columns, false, &mut fields);
    assert(fields_view(fields@) =~= workers_fields(value.data()));
    fields
}

/// The fields shown for the response of route `endpoint`: table views for
/// `/1/miners` and `/1/workers`, the flattened value otherwise.
pub fn output_fields_for_endpoint(endpoint: &str, value: &JsonValue) -> (r: Vec<OutputField>)
    ensures
        fields_view(r@) == endpoint_fields(endpoint@, value.data()),
{
    let e = chars_of(endpoint);
    if chars_eq(&e, &chars_of("/1/miners")) {
        miners_output_fields(value)
    } else if chars_eq(&e, &chars_of("/1/workers")) {
        workers_output_fields(value)
    } else {
        let mut fields: Vec<OutputField> = Vec::new();
        flatten_json_fields(None, value, &mut fields);
        assert(fields_view(fields@) =~= flatten(None, value.data()));
        fields
    }
}

} // verus!
