//! A JSON value tree with a mathematical view, the ground type of request
//! bodies and tool arguments.
//!
//! Integers that fit `i64` or `u64` are held as plain machine integers so that
//! contracts can speak of them; any other number (in particular a fractional
//! one) is carried opaquely as a `serde_json::Number`.

use vstd::prelude::*;

verus! {

/// Carrier for JSON numbers that are not machine integers (fractional values).
/// The tree never inspects such a number; it only stores and clones it.
#[verifier::external_type_specification]
#[verifier::external_body]
pub struct ExNumber(serde_json::Number);

/// Relies on the `Clone` impl that serde_json derives for `Number`:
/// it reproduces the same number.
pub assume_specification[ <serde_json::Number as Clone>::clone ](
    n: &serde_json::Number,
) -> (r: serde_json::Number)
    ensures
        r == *n,
;

/// A JSON value.
#[derive(Debug, PartialEq)]
pub enum Json {
    Null,
    Bool(bool),
    /// An integer representable as `i64`.
    Int(i64),
    /// A positive integer too large for `i64`.
    UInt(u64),
    /// Any other number, held opaquely.
    Num(serde_json::Number),
    Str(String),
    Arr(Vec<Json>),
    /// An object: ordered key/value pairs.
    Obj(Vec<(String, Json)>),
}

/// The mathematical shape of a JSON value: strings are character sequences,
/// arrays and objects are sequences.
pub enum JVal {
    Null,
    Bool(bool),
    Int(i64),
    UInt(u64),
    Num(serde_json::Number),
    Str(Seq<char>),
    Arr(Seq<JVal>),
    Obj(Seq<(Seq<char>, JVal)>),
}

/// The view of a sequence of array elements.
pub open spec fn arr_view(items: Seq<Json>) -> Seq<JVal>
    decreases items,
{
    // the range guard keeps the recursive call to in-bounds elements
    Seq::new(
        items.len(),
        |i: int|
            if 0 <= i < items.len() {
                jval(items[i])
            } else {
                JVal::Null
            },
    )
}

/// The view of a sequence of object entries.
pub open spec fn obj_view(entries: Seq<(String, Json)>) -> Seq<(Seq<char>, JVal)>
    decreases entries,
{
    Seq::new(
        entries.len(),
        |i: int|
            if 0 <= i < entries.len() {
                (entries[i].0@, jval(entries[i].1))
            } else {
                (Seq::<char>::empty(), JVal::Null)
            },
    )
}

/// The view of a JSON tree.
pub open spec fn jval(j: Json) -> JVal
    decreases j,
{
    match j {
        Json::Null => JVal::Null,
        Json::Bool(b) => JVal::Bool(b),
        Json::Int(i) => JVal::Int(i),
        Json::UInt(u) => JVal::UInt(u),
        Json::Num(n) => JVal::Num(n),
        Json::Str(s) => JVal::Str(s@),
        Json::Arr(items) => JVal::Arr(arr_view(items@)),
        Json::Obj(entries) => JVal::Obj(obj_view(entries@)),
    }
}

impl View for Json {
    type V = JVal;

    open spec fn view(&self) -> JVal {
        jval(*self)
    }
}

/// The value stored under `key`, scanning entries front to back.
pub open spec fn obj_get(entries: Seq<(Seq<char>, JVal)>, key: Seq<char>) -> Option<JVal>
    decreases entries.len(),
{
    if entries.len() == 0 {
        None
    } else if entries[0].0 == key {
        Some(entries[0].1)
    } else {
        obj_get(entries.drop_first(), key)
    }
}

/// The value stored under `key` when the value is an object; `None` otherwise.
pub open spec fn get_key(v: JVal, key: Seq<char>) -> Option<JVal> {
    match v {
        JVal::Obj(entries) => obj_get(entries, key),
        _ => None,
    }
}

/// No two entries share a key.
pub open spec fn distinct_keys(entries: Seq<(Seq<char>, JVal)>) -> bool {
    forall|i: int, j: int| 0 <= i < j < entries.len() ==> entries[i].0 != entries[j].0
}

/// Deep merge of one override entry into an object's entries: on a key match
/// the stored value is merged with the override value in place; a fresh key is
/// appended at the end.
pub open spec fn merge_one(
    entries: Seq<(Seq<char>, JVal)>,
    key: Seq<char>,
    v: JVal,
) -> Seq<(Seq<char>, JVal)>
    decreases v, entries.len(),
{
    if entries.len() == 0 {
        seq![(key, v)]
    } else if entries[0].0 == key {
        seq![(entries[0].0, merge_val(entries[0].1, v))] + entries.drop_first()
    } else {
        seq![entries[0]] + merge_one(entries.drop_first(), key, v)
    }
}

/// Deep merge of all override entries, applied in order.
pub open spec fn merge_entries(
    base: Seq<(Seq<char>, JVal)>,
    over: Seq<(Seq<char>, JVal)>,
) -> Seq<(Seq<char>, JVal)>
    decreases over, 1int,
{
    if over.len() == 0 {
        base
    } else {
        merge_entries(merge_one(base, over[0].0, over[0].1), over.drop_first())
    }
}

/// Deep merge: two objects are merged entry by entry, recursively; any other
/// override value replaces the base value wholesale.
pub open spec fn merge_val(base: JVal, over: JVal) -> JVal
    decreases over, 0int,
{
    match (base, over) {
        (JVal::Obj(b), JVal::Obj(o)) => JVal::Obj(merge_entries(b, o)),
        _ => over,
    }
}

/// A key is absent exactly when no entry carries it.
pub proof fn lemma_obj_get_none(entries: Seq<(Seq<char>, JVal)>, key: Seq<char>)
    ensures
        obj_get(entries, key) is None <==> (forall|i: int|
            0 <= i < entries.len() ==> entries[i].0 != key),
    decreases entries.len(),
{
    if entries.len() == 0 {
    } else if entries[0].0 == key {
        assert(!(forall|i: int| 0 <= i < entries.len() ==> entries[i].0 != key)) by {
            assert(entries[0].0 == key);
        }
    } else {
        let rest = entries.drop_first();
        lemma_obj_get_none(rest, key);
        if obj_get(entries, key) is None {
            assert forall|i: int| 0 <= i < entries.len() implies entries[i].0 != key by {
                if i > 0 {
                    assert(rest[i - 1] == entries[i]);
                }
            }
        } else {
            let w = choose|i: int| 0 <= i < rest.len() && rest[i].0 == key;
            assert(entries[w + 1].0 == key);
        }
    }
}

/// Looking a key up after merging one override entry: the overridden key holds
/// the merged value, every other key is untouched.
proof fn lemma_merge_one_get(
    entries: Seq<(Seq<char>, JVal)>,
    key: Seq<char>,
    v: JVal,
    k: Seq<char>,
)
    ensures
        obj_get(merge_one(entries, key, v), k) == (if k == key {
            Some(
                match obj_get(entries, key) {
                    Some(bv) => merge_val(bv, v),
                    None => v,
                },
            )
        } else {
            obj_get(entries, k)
        }),
    decreases entries.len(),
{
    if entries.len() == 0 {
        let merged = seq![(key, v)];
        assert(merged[0] == (key, v));
        assert(merged.drop_first() =~= Seq::<(Seq<char>, JVal)>::empty());
        assert(obj_get(merged.drop_first(), k) is None);
    } else if entries[0].0 == key {
        let merged = seq![(entries[0].0, merge_val(entries[0].1, v))] + entries.drop_first();
        assert(merge_one(entries, key, v) == merged);
        assert(merged[0] == (entries[0].0, merge_val(entries[0].1, v)));
        assert(merged.drop_first() =~= entries.drop_first());
    } else {
        lemma_merge_one_get(entries.drop_first(), key, v, k);
        let merged = seq![entries[0]] + merge_one(entries.drop_first(), key, v);
        assert(merge_one(entries, key, v) == merged);
        assert(merged[0] == entries[0]);
        assert(merged.drop_first() =~= merge_one(entries.drop_first(), key, v));
    }
}

/// How a merged object reads: a key found in both sides holds the deep merge of
/// the two values, a key found on one side holds that side's value.
///
/// The override entries must have distinct keys, as a parsed JSON object does.
pub proof fn lemma_merge_entries_get(
    base: Seq<(Seq<char>, JVal)>,
    over: Seq<(Seq<char>, JVal)>,
    k: Seq<char>,
)
    requires
        distinct_keys(over),
    ensures
        obj_get(merge_entries(base, over), k) == (match (obj_get(base, k), obj_get(over, k)) {
            (Some(bv), Some(ov)) => Some(merge_val(bv, ov)),
            (Some(bv), None) => Some(bv),
            (None, Some(ov)) => Some(ov),
            (None, None) => None,
        }),
    decreases over.len(),
{
    if over.len() > 0 {
        let rest = over.drop_first();
        lemma_merge_one_get(base, over[0].0, over[0].1, k);
        lemma_merge_entries_get(merge_one(base, over[0].0, over[0].1), rest, k);
        assert(forall|i: int| 0 <= i < rest.len() ==> rest[i] == over[i + 1]);
        if k == over[0].0 {
            lemma_obj_get_none(rest, k);
        }
    }
}

/// An override wins on a key conflict: after a deep merge of two objects, any
/// key the override bag holds with a non-object value reads back exactly as the
/// override gave it, whatever the base held there.
pub proof fn lemma_override_wins(base: JVal, over: JVal, k: Seq<char>)
    requires
        base is Obj,
        over is Obj,
        distinct_keys(over->Obj_0),
        get_key(over, k) is Some,
        !(get_key(over, k)->0 is Obj),
    ensures
        get_key(merge_val(base, over), k) == get_key(over, k),
{
    lemma_merge_entries_get(base->Obj_0, over->Obj_0, k);
}

/// When some entry carries the key, merging one override entry updates the
/// first such entry in place.
proof fn lemma_merge_one_found(entries: Seq<(Seq<char>, JVal)>, key: Seq<char>, v: JVal, pos: int)
    requires
        0 <= pos < entries.len(),
        entries[pos].0 == key,
        forall|j: int| 0 <= j < pos ==> entries[j].0 != key,
    ensures
        merge_one(entries, key, v) == entries.update(
            pos,
            (entries[pos].0, merge_val(entries[pos].1, v)),
        ),
    decreases pos,
{
    if pos == 0 {
        assert(merge_one(entries, key, v) =~= entries.update(
            0,
            (entries[0].0, merge_val(entries[0].1, v)),
        ));
    } else {
        let rest = entries.drop_first();
        lemma_merge_one_found(rest, key, v, pos - 1);
        assert(merge_one(entries, key, v) =~= entries.update(
            pos,
            (entries[pos].0, merge_val(entries[pos].1, v)),
        ));
    }
}

/// When no entry carries the key, merging one override entry appends it.
proof fn lemma_merge_one_absent(entries: Seq<(Seq<char>, JVal)>, key: Seq<char>, v: JVal)
    requires
        forall|j: int| 0 <= j < entries.len() ==> entries[j].0 != key,
    ensures
        merge_one(entries, key, v) == entries.push((key, v)),
    decreases entries.len(),
{
    if entries.len() == 0 {
        assert(merge_one(entries, key, v) =~= entries.push((key, v)));
    } else {
        lemma_merge_one_absent(entries.drop_first(), key, v);
        assert(merge_one(entries, key, v) =~= entries.push((key, v)));
    }
}

impl Json {
    /// A structurally equal copy of the tree.
    #[verifier::loop_isolation(false)]
    pub fn deep_clone(&self) -> (r: Json)
        ensures
            r@ == self@,
        decreases *self,
    {
        match self {
            Json::Null => Json::Null,
            Json::Bool(b) => Json::Bool(*b),
            Json::Int(i) => Json::Int(*i),
            Json::UInt(u) => Json::UInt(*u),
            Json::Num(n) => Json::Num(n.clone()),
            Json::Str(s) => Json::Str(s.clone()),
            Json::Arr(items) => {
                let mut out: Vec<Json> = Vec::new();
                let mut i: usize = 0;
                while i < items.len()
                    invariant
                        i <= items@.len(),
                        out@.len() == i as int,
                        forall|j: int| 0 <= j < i as int ==> out@[j]@ == items@[j]@,
                    decreases items@.len() - i as int,
                {
                    let item = &items[i];
                    proof {
                        assert(decreases_to!(*self => *items));
                        assert(decreases_to!(*items => items@[i as int]));
                    }
                    out.push(item.deep_clone());
                    i = i + 1;
                }
                proof {
                    assert(arr_view(out@) =~= arr_view(items@));
                }
                Json::Arr(out)
            },
            Json::Obj(entries) => {
                let mut out: Vec<(String, Json)> = Vec::new();
                let mut i: usize = 0;
                while i < entries.len()
                    invariant
                        i <= entries@.len(),
                        out@.len() == i as int,
                        forall|j: int|
                            0 <= j < i as int ==> out@[j].0@ == entries@[j].0@ && out@[j].1@
                                == entries@[j].1@,
                    decreases entries@.len() - i as int,
                {
                    let entry = &entries[i];
                    proof {
                        assert(decreases_to!(*self => *entries));
                        assert(decreases_to!(*entries => entries@[i as int]));
                        assert(decreases_to!(entries@[i as int] => entries@[i as int].1));
                    }
                    out.push((entry.0.clone(), entry.1.deep_clone()));
                    i = i + 1;
                }
                proof {
                    assert(obj_view(out@) =~= obj_view(entries@));
                }
                Json::Obj(out)
            },
        }
    }

    /// The value stored under `key` when this value is an object with such an
    /// entry, scanning front to back; `None` otherwise.
    #[verifier::loop_isolation(false)]
    pub fn get<'a>(&'a self, key: &str) -> (r: Option<&'a Json>)
        ensures
            match r {
                Some(v) => get_key(self@, key@) == Some(v@),
                None => get_key(self@, key@) is None,
            },
    {
        match self {
            Json::Obj(entries) => {
                let key_owned = key.to_owned();
                let n = entries.len();
                let mut i: usize = 0;
                while i < n
                    invariant
                        n == entries@.len(),
                        i <= n,
                        key_owned@ == key@,
                        forall|j: int| 0 <= j < i as int ==> entries@[j].0@ != key@,
                    decreases n - i,
                {
                    let entry = &entries[i];
                    if entry.0 == key_owned {
                        proof {
                            assert(self@ == JVal::Obj(obj_view(entries@)));
                            assert(forall|j: int|
                                0 <= j < i as int ==> obj_view(entries@)[j].0 != key@);
                            lemma_obj_get_first_match(obj_view(entries@), key@, i as int);
                        }
                        return Some(&entry.1);
                    }
                    i = i + 1;
                }
                proof {
                    assert(self@ == JVal::Obj(obj_view(entries@)));
                    assert(forall|j: int|
                        0 <= j < obj_view(entries@).len() ==> obj_view(entries@)[j].0 != key@);
                    lemma_obj_get_none(obj_view(entries@), key@);
                }
                None
            },
            _ => None,
        }
    }
}

/// A key's value is the first entry that carries it.
pub proof fn lemma_obj_get_first_match(entries: Seq<(Seq<char>, JVal)>, key: Seq<char>, pos: int)
    requires
        0 <= pos < entries.len(),
        entries[pos].0 == key,
        forall|j: int| 0 <= j < pos ==> entries[j].0 != key,
    ensures
        obj_get(entries, key) == Some(entries[pos].1),
    decreases pos,
{
    if pos > 0 {
        let rest = entries.drop_first();
        lemma_obj_get_first_match(rest, key, pos - 1);
    }
}

/// Deep merge: entries of two objects are merged key by key, recursively;
/// any other override value replaces the base value wholesale. The override
/// is applied entry by entry, front to back.
#[verifier::loop_isolation(false)]
pub fn merge(base: Json, over: Json) -> (r: Json)
    ensures
        r@ == merge_val(base@, over@),
    decreases over,
{
    let ghost over0 = over;
    match base {
        Json::Obj(base_entries) => match over {
            Json::Obj(over_entries) => {
                let ghost oe0 = over_entries;
                let ghost o0: Seq<(String, Json)> = over_entries@;
                let mut acc = base_entries;
                let mut rest = over_entries;
                proof {
                    assert(o0.subrange(0, o0.len() as int) =~= o0);
                }
                while rest.len() > 0
                    invariant
                        rest@.len() <= o0.len(),
                        rest@ == o0.subrange(o0.len() - rest@.len(), o0.len() as int),
                        merge_entries(obj_view(acc@), obj_view(rest@)) == merge_val(
                            base@,
                            over0@,
                        )->Obj_0,
                        over0 == Json::Obj(oe0),
                        oe0@ == o0,
                    decreases rest@.len(),
                {
                    let ghost acc_before = acc@;
                    let ghost rest_before = rest@;
                    let (k, v) = rest.remove(0);
                    proof {
                        let j = o0.len() - rest_before.len();
                        assert(0 <= j < o0.len());
                        assert(rest_before[0] == o0[j]);
                        assert(decreases_to!(over0 => oe0));
                        assert(decreases_to!(oe0 => o0[j]));
                        assert(decreases_to!(o0[j] => o0[j].1));
                        assert(decreases_to!(over0 => v));
                        assert(rest@ =~= o0.subrange(o0.len() - rest@.len(), o0.len() as int));
                    }
                    let n = acc.len();
                    let mut pos: usize = n;
                    let mut i: usize = 0;
                    while i < n
                        invariant
                            n == acc@.len(),
                            i <= n,
                            pos <= n,
                            pos == n ==> forall|j: int| 0 <= j < i as int ==> acc@[j].0@ != k@,
                            pos < n ==> pos < i && acc@[pos as int].0@ == k@ && (forall|j: int|
                                0 <= j < pos as int ==> acc@[j].0@ != k@),
                        decreases n - i,
                    {
                        if pos == n {
                            let entry = &acc[i];
                            if entry.0 == k {
                                pos = i;
                            }
                        }
                        i = i + 1;
                    }
                    if pos < acc.len() {
                        let (k0, vb) = acc.remove(pos);
                        let merged = merge(vb, v);
                        acc.insert(pos, (k0, merged));
                        proof {
                            assert(obj_view(acc_before)[pos as int] == (
                                acc_before[pos as int].0@,
                                jval(acc_before[pos as int].1),
                            ));
                            assert forall|j: int| 0 <= j < pos as int implies obj_view(
                                acc_before,
                            )[j].0 != k@ by {
                                assert(obj_view(acc_before)[j] == (
                                    acc_before[j].0@,
                                    jval(acc_before[j].1),
                                ));
                            }
                            lemma_merge_one_found(obj_view(acc_before), k@, v@, pos as int);
                            assert(obj_view(acc@) =~= merge_one(obj_view(acc_before), k@, v@));
                        }
                    } else {
                        acc.push((k, v));
                        proof {
                            assert forall|j: int| 0 <= j < obj_view(acc_before).len() implies
                                obj_view(acc_before)[j].0 != k@ by {
                                assert(obj_view(acc_before)[j] == (
                                    acc_before[j].0@,
                                    jval(acc_before[j].1),
                                ));
                            }
                            lemma_merge_one_absent(obj_view(acc_before), k@, v@);
                            assert(obj_view(acc@) =~= merge_one(obj_view(acc_before), k@, v@));
                        }
                    }
                    proof {
                        assert(obj_view(rest_before)[0] == (k@, v@));
                        assert(obj_view(rest_before).drop_first() =~= obj_view(rest@));
                    }
                }
                proof {
                    assert(obj_view(rest@) =~= Seq::<(Seq<char>, JVal)>::empty());
                }
                Json::Obj(acc)
            },
            other => other,
        },
        _ => over,
    }
}

} // verus!
