//! A JSON value model and its compact, canonical byte rendering.
use vstd::prelude::*;

verus! {

broadcast use {vstd::std_specs::vec::axiom_vec_index_decreases, vstd::seq::axiom_seq_index_decreases};

/// A JSON value as the library builds it. Object members keep the order in
/// which they were added; that order is part of the rendered form.
#[derive(Debug)]
pub enum JsonValue {
    Null,
    Bool(bool),
    Int(i64),
    UInt(u64),
    Str(String),
    Array(Vec<JsonValue>),
    Object(Vec<(String, JsonValue)>),
}

/// The mathematical model of a JSON value.
pub enum JsonModel {
    Null,
    Bool(bool),
    Num(int),
    Str(Seq<char>),
    Array(Seq<JsonModel>),
    Object(Seq<(Seq<char>, JsonModel)>),
}

pub open spec fn model_of(v: JsonValue) -> JsonModel
    decreases v, 0nat,
{
    match v {
        JsonValue::Null => JsonModel::Null,
        JsonValue::Bool(b) => JsonModel::Bool(b),
        JsonValue::Int(i) => JsonModel::Num(i as int),
        JsonValue::UInt(u) => JsonModel::Num(u as int),
        JsonValue::Str(s) => JsonModel::Str(s@),
        JsonValue::Array(items) => JsonModel::Array(models_of(items@, items@.len() as int)),
        JsonValue::Object(members) => JsonModel::Object(
            member_models_of(members@, members@.len() as int),
        ),
    }
}

/// The models of the first `n` items of `items`.
pub open spec fn models_of(items: Seq<JsonValue>, n: int) -> Seq<JsonModel>
    decreases items, n,
{
    if n <= 0 || n > items.len() {
        Seq::empty()
    } else {
        models_of(items, n - 1).push(model_of(items[n - 1]))
    }
}

/// The models of the first `n` members of `members`.
pub open spec fn member_models_of(members: Seq<(String, JsonValue)>, n: int) -> Seq<
    (Seq<char>, JsonModel),
>
    decreases members, n,
{
    if n <= 0 || n > members.len() {
        Seq::empty()
    } else {
        member_models_of(members, n - 1).push((members[n - 1].0@, model_of(members[n - 1].1)))
    }
}

impl View for JsonValue {
    type V = JsonModel;

    open spec fn view(&self) -> JsonModel {
        model_of(*self)
    }
}


/// The bytes that serde_json writes for a string: quoted and escaped.
pub uninterp spec fn json_string_bytes(s: Seq<char>) -> Seq<u8>;

/// The decimal digits of `n`, most significant first, as ASCII bytes.
pub open spec fn digit_bytes(n: nat) -> Seq<u8>
    decreases n,
{
    if n < 10 {
        seq![(48 + n) as u8]
    } else {
        digit_bytes(n / 10).push((48 + n % 10) as u8)
    }
}

/// The JSON text of an integer: an optional minus sign, then its digits.
pub open spec fn number_bytes(i: int) -> Seq<u8> {
    if i < 0 {
        seq![45u8] + digit_bytes((-i) as nat)
    } else {
        digit_bytes(i as nat)
    }
}

/// The compact JSON text of a value: no whitespace, members in their order.
pub open spec fn render(j: JsonModel) -> Seq<u8>
    decreases j, 0nat,
{
    match j {
        JsonModel::Null => seq![110u8, 117, 108, 108],
        JsonModel::Bool(b) => if b {
            seq![116u8, 114, 117, 101]
        } else {
            seq![102u8, 97, 108, 115, 101]
        },
        JsonModel::Num(i) => number_bytes(i),
        JsonModel::Str(s) => json_string_bytes(s),
        JsonModel::Array(items) => seq![91u8] + render_items(items, items.len() as int) + seq![93u8],
        JsonModel::Object(members) => seq![123u8] + render_members(members, members.len() as int)
            + seq![125u8],
    }
}

/// The first `n` items, rendered and separated by commas.
pub open spec fn render_items(items: Seq<JsonModel>, n: int) -> Seq<u8>
    decreases items, n,
{
    if n <= 0 || n > items.len() {
        Seq::empty()
    } else if n == 1 {
        render(items[0])
    } else {
        render_items(items, n - 1) + seq![44u8] + render(items[n - 1])
    }
}

/// One member: the quoted key, a colon, the rendered value.
pub open spec fn render_member(member: (Seq<char>, JsonModel)) -> Seq<u8>
    decreases member, 0nat,
{
    json_string_bytes(member.0) + seq![58u8] + render(member.1)
}

/// The first `n` members, rendered and separated by commas.
pub open spec fn render_members(members: Seq<(Seq<char>, JsonModel)>, n: int) -> Seq<u8>
    decreases members, n,
{
    if n <= 0 || n > members.len() {
        Seq::empty()
    } else if n == 1 {
        render_member(members[0])
    } else {
        render_members(members, n - 1) + seq![44u8] + render_member(members[n - 1])
    }
}

proof fn lemma_models_of(items: Seq<JsonValue>, n: int)
    requires
        0 <= n <= items.len(),
    ensures
        models_of(items, n).len() == n,
        forall|k: int| 0 <= k < n ==> #[trigger] models_of(items, n)[k] == model_of(items[k]),
    decreases n,
{
    if n > 0 {
        lemma_models_of(items, n - 1);
    }
}

proof fn lemma_member_models_of(members: Seq<(String, JsonValue)>, n: int)
    requires
        0 <= n <= members.len(),
    ensures
        member_models_of(members, n).len() == n,
        forall|k: int|
            0 <= k < n ==> #[trigger] member_models_of(members, n)[k] == (
                members[k].0@,
                model_of(members[k].1),
            ),
    decreases n,
{
    if n > 0 {
        lemma_member_models_of(members, n - 1);
    }
}

/// Relies on serde_json::to_vec on a `str`: the quoted, escaped string. It
/// cannot fail for a string, so the empty fallback is never taken.
#[verifier::external_body]
fn quote(s: &str) -> (r: Vec<u8>)
    ensures
        r@ == json_string_bytes(s@),
{
    serde_json::to_vec(s).unwrap_or_default()
}

fn write_digits(n: u64, out: &mut Vec<u8>)
    ensures
        final(out)@ == old(out)@ + digit_bytes(n as nat),
    decreases n,
{
    if n >= 10 {
        write_digits(n / 10, out);
    }
    out.push(48u8 + (n % 10) as u8);
    assert(final(out)@ =~= old(out)@ + digit_bytes(n as nat));
}

/// Appends the JSON text of an integer.
pub fn write_number(i: i64, out: &mut Vec<u8>)
    ensures
        final(out)@ == old(out)@ + number_bytes(i as int),
{
    if i < 0 {
        out.push(45u8);
        let magnitude = (0i128 - i as i128) as u64;
        write_digits(magnitude, out);
        assert(final(out)@ =~= old(out)@ + number_bytes(i as int));
    } else {
        write_digits(i as u64, out);
    }
}

fn append(out: &mut Vec<u8>, bytes: &Vec<u8>)
    ensures
        final(out)@ == old(out)@ + bytes@,
{
    let mut i: usize = 0;
    while i < bytes.len()
        invariant
            i <= bytes@.len(),
            out@ == old(out)@ + bytes@.subrange(0, i as int),
        decreases bytes@.len() - i,
    {
        out.push(bytes[i]);
        assert(bytes@.subrange(0, i as int + 1) =~= bytes@.subrange(0, i as int).push(bytes@[i as int]));
        i = i + 1;
    }
    assert(bytes@.subrange(0, i as int) =~= bytes@);
}

/// Appends the compact JSON text of `v`.
pub fn write_json(v: &JsonValue, out: &mut Vec<u8>)
    ensures
        final(out)@ == old(out)@ + render(v@),
    decreases v,
{
    match v {
        JsonValue::Null => {
            out.push(110u8);
            out.push(117u8);
            out.push(108u8);
            out.push(108u8);
            assert(final(out)@ =~= old(out)@ + render(v@));
        },
        JsonValue::Bool(b) => {
            if *b {
                out.push(116u8);
                out.push(114u8);
                out.push(117u8);
                out.push(101u8);
            } else {
                out.push(102u8);
                out.push(97u8);
                out.push(108u8);
                out.push(115u8);
                out.push(101u8);
            }
            assert(final(out)@ =~= old(out)@ + render(v@));
        },
        JsonValue::Int(i) => {
            write_number(*i, out);
        },
        JsonValue::UInt(u) => {
            write_digits(*u, out);
        },
        JsonValue::Str(s) => {
            let q = quote(s.as_str());
            append(out, &q);
        },
        JsonValue::Array(items) => {
            let ghost start = out@;
            let ghost models = models_of(items@, items@.len() as int);
            proof {
                lemma_models_of(items@, items@.len() as int);
            }
            out.push(91u8);
            let mut i: usize = 0;
            while i < items.len()
                invariant
                    *v == JsonValue::Array(*items),
                    i <= items@.len(),
                    models == models_of(items@, items@.len() as int),
                    models.len() == items@.len(),
                    forall|k: int| 0 <= k < items@.len() ==> #[trigger] models[k] == model_of(items@[k]),
                    out@ == start + seq![91u8] + render_items(models, i as int),
                decreases items@.len() - i,
            {
                if i > 0 {
                    out.push(44u8);
                }
                proof {
                    assert(decreases_to!(*v => (*v)->Array_0));
                    assert(decreases_to!(*items => items[i as int]));
                }
                write_json(&items[i], out);
                proof {
                    assert(models[i as int] == model_of(items@[i as int]));
                }
                assert(out@ =~= start + seq![91u8] + render_items(models, i as int + 1));
                i = i + 1;
            }
            out.push(93u8);
            assert(final(out)@ =~= old(out)@ + render(v@));
        },
        JsonValue::Object(members) => {
            let ghost start = out@;
            let ghost models = member_models_of(members@, members@.len() as int);
            proof {
                lemma_member_models_of(members@, members@.len() as int);
            }
            out.push(123u8);
            let mut i: usize = 0;
            while i < members.len()
                invariant
                    *v == JsonValue::Object(*members),
                    i <= members@.len(),
                    models == member_models_of(members@, members@.len() as int),
                    models.len() == members@.len(),
                    forall|k: int|
                        0 <= k < members@.len() ==> #[trigger] models[k] == (
                            members@[k].0@,
                            model_of(members@[k].1),
                        ),
                    out@ == start + seq![123u8] + render_members(models, i as int),
                decreases members@.len() - i,
            {
                if i > 0 {
                    out.push(44u8);
                }
                let ghost before = out@;
                let key = quote(members[i].0.as_str());
                append(out, &key);
                out.push(58u8);
                proof {
                    assert(decreases_to!(*v => (*v)->Object_0));
                    assert(decreases_to!(*members => members[i as int]));
                    assert(decreases_to!(members[i as int] => members[i as int].1));
                }
                write_json(&members[i].1, out);
                assert(out@ =~= before + render_member(models[i as int]));
                proof {
                    assert(models[i as int] == (members@[i as int].0@, model_of(members@[i as int].1)));
                }
                assert(out@ =~= start + seq![123u8] + render_members(models, i as int + 1));
                i = i + 1;
            }
            out.push(125u8);
            assert(final(out)@ =~= old(out)@ + render(v@));
        },
    }
}

/// The item models of a prefix have its length and the items' models.
pub proof fn lemma_items_model_len(items: Seq<JsonValue>, n: int)
    requires
        0 <= n <= items.len(),
    ensures
        models_of(items, n).len() == n,
        forall|k: int| 0 <= k < n ==> #[trigger] models_of(items, n)[k] == items[k]@,
{
    lemma_models_of(items, n);
}

/// The member models of a prefix have its length and the members' models.
pub proof fn lemma_member_models_len(members: Seq<(String, JsonValue)>, n: int)
    requires
        0 <= n <= members.len(),
    ensures
        member_models_of(members, n).len() == n,
        forall|k: int|
            0 <= k < n ==> #[trigger] member_models_of(members, n)[k] == (members[k].0@, members[k].1@),
{
    lemma_member_models_of(members, n);
}

proof fn lemma_models_of_prefix(items: Seq<JsonValue>, x: JsonValue, n: int)
    requires
        0 <= n <= items.len(),
    ensures
        models_of(items.push(x), n) == models_of(items, n),
    decreases n,
{
    if n > 0 {
        lemma_models_of_prefix(items, x, n - 1);
        assert(items.push(x)[n - 1] == items[n - 1]);
    }
}

proof fn lemma_member_models_of_prefix(members: Seq<(String, JsonValue)>, x: (String, JsonValue), n: int)
    requires
        0 <= n <= members.len(),
    ensures
        member_models_of(members.push(x), n) == member_models_of(members, n),
    decreases n,
{
    if n > 0 {
        lemma_member_models_of_prefix(members, x, n - 1);
        assert(members.push(x)[n - 1] == members[n - 1]);
    }
}

/// The models of all items.
pub open spec fn items_model(items: Seq<JsonValue>) -> Seq<JsonModel> {
    models_of(items, items.len() as int)
}

/// The models of all members.
pub open spec fn members_model(members: Seq<(String, JsonValue)>) -> Seq<(Seq<char>, JsonModel)> {
    member_models_of(members, members.len() as int)
}

/// Appends an item to an array under construction.
pub fn push_item(items: &mut Vec<JsonValue>, value: JsonValue)
    ensures
        items_model(final(items)@) == items_model(old(items)@).push(value@),
{
    let ghost before = items@;
    items.push(value);
    proof {
        lemma_models_of_prefix(before, value, before.len() as int);
        assert(items@ == before.push(value));
        assert(items@[before.len() as int] == value);
    }
}

/// Appends a member under `key` to an object under construction.
pub fn push_member(members: &mut Vec<(String, JsonValue)>, key: &str, value: JsonValue)
    ensures
        members_model(final(members)@) == members_model(old(members)@).push((key@, value@)),
{
    let ghost before = members@;
    let k = key.to_string();
    let ghost x = (k, value);
    members.push((k, value));
    proof {
        lemma_member_models_of_prefix(before, x, before.len() as int);
        assert(members@ == before.push(x));
        assert(members@[before.len() as int] == x);
    }
}

impl JsonValue {
    /// A copy with the same model.
    pub fn copy(&self) -> (r: JsonValue)
        ensures
            r@ == self@,
        decreases self,
    {
        match self {
            JsonValue::Null => JsonValue::Null,
            JsonValue::Bool(b) => JsonValue::Bool(*b),
            JsonValue::Int(i) => JsonValue::Int(*i),
            JsonValue::UInt(u) => JsonValue::UInt(*u),
            JsonValue::Str(s) => JsonValue::Str(s.clone()),
            JsonValue::Array(items) => {
                let mut out: Vec<JsonValue> = Vec::new();
                assert(items_model(out@) =~= models_of(items@, 0));
                let mut i: usize = 0;
                while i < items.len()
                    invariant
                        *self == JsonValue::Array(*items),
                        i <= items@.len(),
                        items_model(out@) == models_of(items@, i as int),
                    decreases items@.len() - i,
                {
                    proof {
                        assert(decreases_to!(*self => (*self)->Array_0));
                        assert(decreases_to!(*items => items[i as int]));
                    }
                    let c = items[i].copy();
                    push_item(&mut out, c);
                    i = i + 1;
                }
                JsonValue::Array(out)
            },
            JsonValue::Object(members) => {
                let mut out: Vec<(String, JsonValue)> = Vec::new();
                assert(members_model(out@) =~= member_models_of(members@, 0));
                let mut i: usize = 0;
                while i < members.len()
                    invariant
                        *self == JsonValue::Object(*members),
                        i <= members@.len(),
                        members_model(out@) == member_models_of(members@, i as int),
                    decreases members@.len() - i,
                {
                    proof {
                        assert(decreases_to!(*self => (*self)->Object_0));
                        assert(decreases_to!(*members => members[i as int]));
                        assert(decreases_to!(members[i as int] => members[i as int].1));
                    }
                    let c = members[i].1.copy();
                    push_member(&mut out, members[i].0.as_str(), c);
                    i = i + 1;
                }
                JsonValue::Object(out)
            },
        }
    }

    /// The compact JSON text of this value.
    pub fn to_bytes(&self) -> (r: Vec<u8>)
        ensures
            r@ == render(self@),
    {
        let mut out: Vec<u8> = Vec::new();
        write_json(self, &mut out);
        assert(out@ =~= render(self@));
        out
    }
}

} // verus!
