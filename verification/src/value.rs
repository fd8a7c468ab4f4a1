//! Scheme values as the host exchanges them with actors, CBOR terms, and the
//! conversions between the two.
use vstd::prelude::*;

use crate::text::{
    lemma_text_less_strict, lemma_text_less_total, lemma_text_less_trans, signed_decimal, text_less,
    text_less_exec,
};

verus! {

broadcast use vstd::std_specs::vec::group_vec_axioms;

/// A Scheme value as it crosses the actor boundary.
///
/// Floats are carried as their IEEE-754 bit pattern. A map holds its entries
/// in the order of their keys, each key once, as a `BTreeMap<String, _>` does. `Path`, `Actor`
/// and `Procedure` hold the display text of a config path reference, an
/// actor target, and a builtin or lambda.
#[derive(Debug, PartialEq, Eq)]
pub enum Val {
    Str(String),
    Bytes(Vec<u8>),
    Int(i64),
    Float(u64),
    Bool(bool),
    Nil,
    List(Vec<Val>),
    Dict(Vec<(String, Val)>),
    Path(String),
    Actor(String),
    Procedure(String),
}

/// A CBOR data item. `Other` stands for a kind of item that this model does
/// not name, with its debug rendering.
#[derive(Debug, PartialEq, Eq)]
pub enum Cbor {
    Integer(i128),
    Bytes(Vec<u8>),
    Float(u64),
    Text(String),
    Bool(bool),
    Null,
    Tag(u64, Box<Cbor>),
    Array(Vec<Cbor>),
    Dict(Vec<(Cbor, Cbor)>),
    Other(String),
}

/// Mathematical model of [`Val`].
pub enum ValModel {
    Str(Seq<char>),
    Bytes(Seq<u8>),
    Int(int),
    Float(u64),
    Bool(bool),
    Nil,
    List(Seq<ValModel>),
    Dict(Seq<(Seq<char>, ValModel)>),
    Path(Seq<char>),
    Actor(Seq<char>),
    Procedure(Seq<char>),
}

/// Mathematical model of [`Cbor`].
pub enum CborModel {
    Integer(int),
    Bytes(Seq<u8>),
    Float(u64),
    Text(Seq<char>),
    Bool(bool),
    Null,
    Tag(u64, Box<CborModel>),
    Array(Seq<CborModel>),
    Dict(Seq<(CborModel, CborModel)>),
    Other(Seq<char>),
}

impl Val {
    pub open spec fn model(self) -> ValModel
        decreases self,
    {
        match self {
            Val::Str(s) => ValModel::Str(s@),
            Val::Bytes(b) => ValModel::Bytes(b@),
            Val::Int(n) => ValModel::Int(n as int),
            Val::Float(f) => ValModel::Float(f),
            Val::Bool(b) => ValModel::Bool(b),
            Val::Nil => ValModel::Nil,
            Val::List(items) => ValModel::List(Val::models(items@)),
            Val::Dict(entries) => ValModel::Dict(Val::entry_models(entries@)),
            Val::Path(p) => ValModel::Path(p@),
            Val::Actor(a) => ValModel::Actor(a@),
            Val::Procedure(d) => ValModel::Procedure(d@),
        }
    }

    pub open spec fn models(s: Seq<Val>) -> Seq<ValModel>
        decreases s,
    {
        if s.len() == 0 {
            Seq::empty()
        } else {
            Val::models(s.subrange(0, s.len() - 1)).push(s[s.len() - 1].model())
        }
    }

    pub open spec fn entry_models(s: Seq<(String, Val)>) -> Seq<(Seq<char>, ValModel)>
        decreases s,
    {
        if s.len() == 0 {
            Seq::empty()
        } else {
            Val::entry_models(s.subrange(0, s.len() - 1)).push(
                (s[s.len() - 1].0@, s[s.len() - 1].1.model()),
            )
        }
    }
}

impl Cbor {
    pub open spec fn model(self) -> CborModel
        decreases self,
    {
        match self {
            Cbor::Integer(n) => CborModel::Integer(n as int),
            Cbor::Bytes(b) => CborModel::Bytes(b@),
            Cbor::Float(f) => CborModel::Float(f),
            Cbor::Text(s) => CborModel::Text(s@),
            Cbor::Bool(b) => CborModel::Bool(b),
            Cbor::Null => CborModel::Null,
            Cbor::Tag(t, inner) => CborModel::Tag(t, Box::new(inner.model())),
            Cbor::Array(items) => CborModel::Array(Cbor::models(items@)),
            Cbor::Dict(pairs) => CborModel::Dict(Cbor::pair_models(pairs@)),
            Cbor::Other(s) => CborModel::Other(s@),
        }
    }

    pub open spec fn models(s: Seq<Cbor>) -> Seq<CborModel>
        decreases s,
    {
        if s.len() == 0 {
            Seq::empty()
        } else {
            Cbor::models(s.subrange(0, s.len() - 1)).push(s[s.len() - 1].model())
        }
    }

    pub open spec fn pair_models(s: Seq<(Cbor, Cbor)>) -> Seq<(CborModel, CborModel)>
        decreases s,
    {
        if s.len() == 0 {
            Seq::empty()
        } else {
            Cbor::pair_models(s.subrange(0, s.len() - 1)).push(
                (s[s.len() - 1].0.model(), s[s.len() - 1].1.model()),
            )
        }
    }
}


// ── Conversions on the models ──────────────────────────────────────────────

/// The CBOR term a value is sent as. Strings, config paths, actor targets and
/// procedures become text; lists become arrays; maps become maps with text
/// keys.
pub open spec fn cbor_of(v: ValModel) -> CborModel
    decreases v,
{
    match v {
        ValModel::Str(s) => CborModel::Text(s),
        ValModel::Bytes(b) => CborModel::Bytes(b),
        ValModel::Int(n) => CborModel::Integer(n),
        ValModel::Float(f) => CborModel::Float(f),
        ValModel::Bool(b) => CborModel::Bool(b),
        ValModel::Nil => CborModel::Null,
        ValModel::List(items) => CborModel::Array(cbors_of(items)),
        ValModel::Dict(entries) => CborModel::Dict(entry_cbors(entries)),
        ValModel::Path(p) => CborModel::Text(p),
        ValModel::Actor(a) => CborModel::Text(a),
        ValModel::Procedure(d) => CborModel::Text(d),
    }
}

pub open spec fn cbors_of(s: Seq<ValModel>) -> Seq<CborModel>
    decreases s,
{
    if s.len() == 0 {
        Seq::empty()
    } else {
        cbors_of(s.subrange(0, s.len() - 1)).push(cbor_of(s[s.len() - 1]))
    }
}

pub open spec fn entry_cbors(s: Seq<(Seq<char>, ValModel)>) -> Seq<(CborModel, CborModel)>
    decreases s,
{
    if s.len() == 0 {
        Seq::empty()
    } else {
        entry_cbors(s.subrange(0, s.len() - 1)).push(
            (CborModel::Text(s[s.len() - 1].0), cbor_of(s[s.len() - 1].1)),
        )
    }
}

/// The value a received CBOR term stands for. Integers outside the `i64`
/// range become their decimal text; tags are looked through; a map whose
/// keys are all text becomes a map with its keys in order (a later entry for
/// the same key replaces the earlier value); any other map becomes a list of
/// `(key value)` lists.
pub open spec fn value_of(c: CborModel) -> ValModel
    decreases c,
{
    match c {
        CborModel::Integer(n) => if i64::MIN <= n <= i64::MAX {
            ValModel::Int(n)
        } else {
            ValModel::Str(signed_decimal(n))
        },
        CborModel::Bytes(b) => ValModel::Bytes(b),
        CborModel::Float(f) => ValModel::Float(f),
        CborModel::Text(s) => ValModel::Str(s),
        CborModel::Bool(b) => ValModel::Bool(b),
        CborModel::Null => ValModel::Nil,
        CborModel::Tag(_, inner) => value_of(*inner),
        CborModel::Array(items) => ValModel::List(values_of(items)),
        CborModel::Dict(pairs) => if all_text_keys(pairs) {
            ValModel::Dict(text_dict(pairs))
        } else {
            ValModel::List(pair_lists(pairs))
        },
        CborModel::Other(s) => ValModel::Str(s),
    }
}

pub open spec fn values_of(s: Seq<CborModel>) -> Seq<ValModel>
    decreases s,
{
    if s.len() == 0 {
        Seq::empty()
    } else {
        values_of(s.subrange(0, s.len() - 1)).push(value_of(s[s.len() - 1]))
    }
}

/// Every key of `pairs` is text.
pub open spec fn all_text_keys(pairs: Seq<(CborModel, CborModel)>) -> bool {
    forall|i: int| 0 <= i < pairs.len() ==> (#[trigger] pairs[i]).0 is Text
}

/// `m` with `k` bound to `v`, as `BTreeMap::insert` does on a map whose keys
/// increase: an entry with the key has its value replaced; otherwise the new
/// entry goes before the first key that comes after `k`.
pub open spec fn dict_insert(m: Seq<(Seq<char>, ValModel)>, k: Seq<char>, v: ValModel) -> Seq<
    (Seq<char>, ValModel),
>
    decreases m.len(),
{
    if m.len() == 0 {
        seq![(k, v)]
    } else if m[0].0 == k {
        m.update(0, (k, v))
    } else if text_less(k, m[0].0) {
        seq![(k, v)] + m
    } else {
        seq![m[0]] + dict_insert(m.drop_first(), k, v)
    }
}

/// The map built by inserting the pairs of `pairs` in order.
pub open spec fn text_dict(pairs: Seq<(CborModel, CborModel)>) -> Seq<(Seq<char>, ValModel)>
    decreases pairs,
{
    if pairs.len() == 0 {
        Seq::empty()
    } else {
        let last = pairs[pairs.len() - 1];
        dict_insert(
            text_dict(pairs.subrange(0, pairs.len() - 1)),
            last.0->Text_0,
            value_of(last.1),
        )
    }
}

/// Each pair as a two-element list `(key value)`.
pub open spec fn pair_lists(pairs: Seq<(CborModel, CborModel)>) -> Seq<ValModel>
    decreases pairs,
{
    if pairs.len() == 0 {
        Seq::empty()
    } else {
        let last = pairs[pairs.len() - 1];
        pair_lists(pairs.subrange(0, pairs.len() - 1)).push(
            ValModel::List(seq![value_of(last.0), value_of(last.1)]),
        )
    }
}

/// The keys of `m` strictly increase in the order of `String`.
pub open spec fn sorted_keys(m: Seq<(Seq<char>, ValModel)>) -> bool {
    forall|i: int, j: int| 0 <= i < j < m.len() ==> text_less(m[i].0, m[j].0)
}

/// A value made only of data: strings, bytes, numbers, booleans, nil, lists
/// and maps with keys in order (no config paths, actor targets or procedures).
pub open spec fn is_data(v: ValModel) -> bool
    decreases v,
{
    match v {
        ValModel::List(items) => forall|i: int| 0 <= i < items.len() ==> is_data(#[trigger] items[i]),
        ValModel::Dict(entries) => sorted_keys(entries) && forall|i: int|
            0 <= i < entries.len() ==> is_data(#[trigger] entries[i].1),
        ValModel::Int(n) => i64::MIN <= n <= i64::MAX,
        ValModel::Path(_) | ValModel::Actor(_) | ValModel::Procedure(_) => false,
        _ => true,
    }
}


// ── Index characterisations of the sequence functions ─────────────────────

pub proof fn lemma_value_models(s: Seq<Val>)
    ensures
        Val::models(s).len() == s.len(),
        forall|i: int| 0 <= i < s.len() ==> #[trigger] Val::models(s)[i] == s[i].model(),
    decreases s.len(),
{
    if s.len() > 0 {
        let init = s.subrange(0, s.len() - 1);
        lemma_value_models(init);
        assert forall|i: int| 0 <= i < s.len() implies #[trigger] Val::models(s)[i]
            == s[i].model() by {
            if i < s.len() - 1 {
                assert(init[i] == s[i]);
            }
        }
    }
}

pub proof fn lemma_entry_models(s: Seq<(String, Val)>)
    ensures
        Val::entry_models(s).len() == s.len(),
        forall|i: int|
            0 <= i < s.len() ==> #[trigger] Val::entry_models(s)[i] == (s[i].0@, s[i].1.model()),
    decreases s.len(),
{
    if s.len() > 0 {
        let init = s.subrange(0, s.len() - 1);
        lemma_entry_models(init);
        assert forall|i: int| 0 <= i < s.len() implies #[trigger] Val::entry_models(s)[i] == (
        s[i].0@, s[i].1.model()) by {
            if i < s.len() - 1 {
                assert(init[i] == s[i]);
            }
        }
    }
}

pub proof fn lemma_cbor_models(s: Seq<Cbor>)
    ensures
        Cbor::models(s).len() == s.len(),
        forall|i: int| 0 <= i < s.len() ==> #[trigger] Cbor::models(s)[i] == s[i].model(),
    decreases s.len(),
{
    if s.len() > 0 {
        let init = s.subrange(0, s.len() - 1);
        lemma_cbor_models(init);
        assert forall|i: int| 0 <= i < s.len() implies #[trigger] Cbor::models(s)[i]
            == s[i].model() by {
            if i < s.len() - 1 {
                assert(init[i] == s[i]);
            }
        }
    }
}

pub proof fn lemma_pair_models(s: Seq<(Cbor, Cbor)>)
    ensures
        Cbor::pair_models(s).len() == s.len(),
        forall|i: int|
            0 <= i < s.len() ==> #[trigger] Cbor::pair_models(s)[i] == (
                s[i].0.model(),
                s[i].1.model(),
            ),
    decreases s.len(),
{
    if s.len() > 0 {
        let init = s.subrange(0, s.len() - 1);
        lemma_pair_models(init);
        assert forall|i: int| 0 <= i < s.len() implies #[trigger] Cbor::pair_models(s)[i] == (
        s[i].0.model(), s[i].1.model()) by {
            if i < s.len() - 1 {
                assert(init[i] == s[i]);
            }
        }
    }
}

pub proof fn lemma_cbors_of(s: Seq<ValModel>)
    ensures
        cbors_of(s).len() == s.len(),
        forall|i: int| 0 <= i < s.len() ==> #[trigger] cbors_of(s)[i] == cbor_of(s[i]),
    decreases s.len(),
{
    if s.len() > 0 {
        let init = s.subrange(0, s.len() - 1);
        lemma_cbors_of(init);
        assert forall|i: int| 0 <= i < s.len() implies #[trigger] cbors_of(s)[i] == cbor_of(
            s[i],
        ) by {
            if i < s.len() - 1 {
                assert(init[i] == s[i]);
            }
        }
    }
}

pub proof fn lemma_entry_cbors(s: Seq<(Seq<char>, ValModel)>)
    ensures
        entry_cbors(s).len() == s.len(),
        forall|i: int|
            0 <= i < s.len() ==> #[trigger] entry_cbors(s)[i] == (
                CborModel::Text(s[i].0),
                cbor_of(s[i].1),
            ),
    decreases s.len(),
{
    if s.len() > 0 {
        let init = s.subrange(0, s.len() - 1);
        lemma_entry_cbors(init);
        assert forall|i: int| 0 <= i < s.len() implies #[trigger] entry_cbors(s)[i] == (
        CborModel::Text(s[i].0), cbor_of(s[i].1)) by {
            if i < s.len() - 1 {
                assert(init[i] == s[i]);
            }
        }
    }
}

pub proof fn lemma_values_of(s: Seq<CborModel>)
    ensures
        values_of(s).len() == s.len(),
        forall|i: int| 0 <= i < s.len() ==> #[trigger] values_of(s)[i] == value_of(s[i]),
    decreases s.len(),
{
    if s.len() > 0 {
        let init = s.subrange(0, s.len() - 1);
        lemma_values_of(init);
        assert forall|i: int| 0 <= i < s.len() implies #[trigger] values_of(s)[i] == value_of(
            s[i],
        ) by {
            if i < s.len() - 1 {
                assert(init[i] == s[i]);
            }
        }
    }
}

pub proof fn lemma_pair_lists(s: Seq<(CborModel, CborModel)>)
    ensures
        pair_lists(s).len() == s.len(),
        forall|i: int|
            0 <= i < s.len() ==> #[trigger] pair_lists(s)[i] == ValModel::List(
                seq![value_of(s[i].0), value_of(s[i].1)],
            ),
    decreases s.len(),
{
    if s.len() > 0 {
        let init = s.subrange(0, s.len() - 1);
        lemma_pair_lists(init);
        assert forall|i: int| 0 <= i < s.len() implies #[trigger] pair_lists(s)[i]
            == ValModel::List(seq![value_of(s[i].0), value_of(s[i].1)]) by {
            if i < s.len() - 1 {
                assert(init[i] == s[i]);
            }
        }
    }
}

/// Inserting a key that is not before any key of `m` (in order, and not
/// equal) passes over the first `i` entries of `m`.
proof fn lemma_dict_insert_prefix(m: Seq<(Seq<char>, ValModel)>, k: Seq<char>, v: ValModel, i: int)
    requires
        0 <= i <= m.len(),
        forall|j: int| 0 <= j < i ==> m[j].0 != k && !text_less(k, #[trigger] m[j].0),
    ensures
        dict_insert(m, k, v) == m.take(i) + dict_insert(m.skip(i), k, v),
    decreases i,
{
    if i == 0 {
        assert(m.skip(0) =~= m);
        assert(m.take(0) + dict_insert(m, k, v) =~= dict_insert(m, k, v));
    } else {
        let t = m.drop_first();
        assert(m[0].0 != k && !text_less(k, m[0].0));
        assert forall|j: int| 0 <= j < i - 1 implies t[j].0 != k && !text_less(k, #[trigger] t[j].0) by {
            assert(t[j] == m[j + 1]);
        }
        lemma_dict_insert_prefix(t, k, v, i - 1);
        assert(t.skip(i - 1) =~= m.skip(i));
        assert(seq![m[0]] + (t.take(i - 1) + dict_insert(m.skip(i), k, v)) =~= m.take(i)
            + dict_insert(m.skip(i), k, v));
    }
}

/// Inserting a key after every key of `m` appends it.
proof fn lemma_dict_insert_last(m: Seq<(Seq<char>, ValModel)>, k: Seq<char>, v: ValModel)
    requires
        forall|j: int| 0 <= j < m.len() ==> text_less(#[trigger] m[j].0, k),
    ensures
        dict_insert(m, k, v) == m.push((k, v)),
    decreases m.len(),
{
    if m.len() > 0 {
        lemma_text_less_strict(m[0].0, k);
        let t = m.drop_first();
        assert forall|j: int| 0 <= j < t.len() implies text_less(#[trigger] t[j].0, k) by {
            assert(t[j] == m[j + 1]);
        }
        lemma_dict_insert_last(t, k, v);
        assert(seq![m[0]] + t.push((k, v)) =~= m.push((k, v)));
    } else {
        assert(seq![(k, v)] =~= m.push((k, v)));
    }
}

// ── Executable conversions ─────────────────────────────────────────────────

/// A copy of a byte vector.
pub fn copy_bytes(b: &Vec<u8>) -> (r: Vec<u8>)
    ensures
        r@ == b@,
{
    let mut r: Vec<u8> = Vec::new();
    let mut i: usize = 0;
    while i < b.len()
        invariant
            i <= b@.len(),
            r@ == b@.take(i as int),
        decreases b@.len() - i,
    {
        r.push(b[i]);
        i = i + 1;
        assert(r@ =~= b@.take(i as int));
    }
    assert(b@.take(b@.len() as int) =~= b@);
    r
}

/// A copy of a byte slice.
pub fn copy_bytes_slice(b: &[u8]) -> (r: Vec<u8>)
    ensures
        r@ == b@,
{
    let mut r: Vec<u8> = Vec::new();
    let mut i: usize = 0;
    while i < b.len()
        invariant
            i <= b@.len(),
            r@ == b@.take(i as int),
        decreases b@.len() - i,
    {
        r.push(b[i]);
        i = i + 1;
        assert(r@ =~= b@.take(i as int));
    }
    assert(b@.take(b@.len() as int) =~= b@);
    r
}

/// The CBOR term a value is sent as (`cbor_of`).
#[verifier::loop_isolation(false)]
pub fn value_to_cbor(v: &Val) -> (c: Cbor)
    ensures
        c.model() == cbor_of(v.model()),
    decreases v,
{
    match v {
        Val::Str(s) => Cbor::Text(s.clone()),
        Val::Bytes(b) => Cbor::Bytes(copy_bytes(b)),
        Val::Int(n) => Cbor::Integer(*n as i128),
        Val::Float(f) => Cbor::Float(*f),
        Val::Bool(b) => Cbor::Bool(*b),
        Val::Nil => Cbor::Null,
        Val::List(items) => {
            let mut out: Vec<Cbor> = Vec::new();
            let mut i: usize = 0;
            while i < items.len()
                invariant
                    i <= items@.len(),
                    out@.len() == i,
                    forall|j: int|
                        0 <= j < i ==> (#[trigger] out@[j]).model() == cbor_of(items@[j].model()),
                decreases items@.len() - i,
            {
                let c = value_to_cbor(&items[i]);
                out.push(c);
                i = i + 1;
            }
            proof {
                lemma_cbor_models(out@);
                lemma_value_models(items@);
                lemma_cbors_of(Val::models(items@));
                assert(Cbor::models(out@) =~= cbors_of(Val::models(items@)));
            }
            Cbor::Array(out)
        },
        Val::Dict(entries) => {
            let mut out: Vec<(Cbor, Cbor)> = Vec::new();
            let mut i: usize = 0;
            while i < entries.len()
                invariant
                    i <= entries@.len(),
                    out@.len() == i,
                    forall|j: int|
                        0 <= j < i ==> (#[trigger] out@[j]).0.model() == CborModel::Text(
                            entries@[j].0@,
                        ) && out@[j].1.model() == cbor_of(entries@[j].1.model()),
                decreases entries@.len() - i,
            {
                let k = Cbor::Text(entries[i].0.clone());
                let c = value_to_cbor(&entries[i].1);
                out.push((k, c));
                i = i + 1;
            }
            proof {
                lemma_pair_models(out@);
                lemma_entry_models(entries@);
                lemma_entry_cbors(Val::entry_models(entries@));
                assert(Cbor::pair_models(out@) =~= entry_cbors(Val::entry_models(entries@)));
            }
            Cbor::Dict(out)
        },
        Val::Path(p) => Cbor::Text(p.clone()),
        Val::Actor(a) => Cbor::Text(a.clone()),
        Val::Procedure(d) => Cbor::Text(d.clone()),
    }
}

/// Binds `k` to `v` in `m` (`dict_insert`).
pub fn dict_insert_exec(m: &mut Vec<(String, Val)>, k: String, v: Val)
    ensures
        Val::entry_models(final(m)@) == dict_insert(
            Val::entry_models(old(m)@),
            k@,
            v.model(),
        ),
{
    let ghost em = Val::entry_models(old(m)@);
    let ghost vm = v.model();
    proof {
        lemma_entry_models(old(m)@);
    }
    let mut i: usize = 0;
    while i < m.len()
        invariant
            m@ == old(m)@,
            i <= m@.len(),
            em == Val::entry_models(old(m)@),
            vm == v.model(),
            em.len() == m@.len(),
            forall|j: int| 0 <= j < m@.len() ==> #[trigger] em[j] == (m@[j].0@, m@[j].1.model()),
            forall|j: int| 0 <= j < i ==> em[j].0 != k@ && !text_less(k@, #[trigger] em[j].0),
        decreases m@.len() - i,
    {
        let same = m[i].0 == k;
        if same || text_less_exec(k.as_str(), m[i].0.as_str()) {
            proof {
                lemma_dict_insert_prefix(em, k@, vm, i as int);
                assert(em.skip(i as int)[0] == em[i as int]);
            }
            if same {
                m.set(i, (k, v));
                proof {
                    lemma_entry_models(m@);
                    assert(em.skip(i as int).update(0, (k@, vm)) =~= em.skip(i as int + 1).insert(
                        0,
                        (k@, vm),
                    ));
                    assert(Val::entry_models(m@) =~= em.take(i as int) + em.skip(i as int).update(
                        0,
                        (k@, vm),
                    ));
                }
            } else {
                m.insert(i, (k, v));
                proof {
                    lemma_entry_models(m@);
                    assert(Val::entry_models(m@) =~= em.take(i as int) + (seq![(k@, vm)] + em.skip(
                        i as int,
                    )));
                }
            }
            return ;
        }
        i = i + 1;
    }
    proof {
        lemma_dict_insert_prefix(em, k@, vm, i as int);
        assert(em.skip(i as int) =~= Seq::<(Seq<char>, ValModel)>::empty());
    }
    m.push((k, v));
    proof {
        lemma_entry_models(m@);
        assert(Val::entry_models(m@) =~= em.take(i as int) + seq![(k@, vm)]);
    }
}

/// The value a received CBOR term stands for (`value_of`).
#[verifier::loop_isolation(false)]
pub fn cbor_to_value(c: &Cbor) -> (v: Val)
    ensures
        v.model() == value_of(c.model()),
    decreases c,
{
    match c {
        Cbor::Integer(n) => {
            if -9223372036854775808i128 <= *n && *n <= 9223372036854775807i128 {
                Val::Int(*n as i64)
            } else {
                Val::Str(crate::text::signed_decimal_string(*n))
            }
        },
        Cbor::Bytes(b) => Val::Bytes(copy_bytes(b)),
        Cbor::Float(f) => Val::Float(*f),
        Cbor::Text(s) => Val::Str(s.clone()),
        Cbor::Bool(b) => Val::Bool(*b),
        Cbor::Null => Val::Nil,
        Cbor::Tag(_, inner) => cbor_to_value(inner),
        Cbor::Array(items) => {
            let mut out: Vec<Val> = Vec::new();
            let mut i: usize = 0;
            while i < items.len()
                invariant
                    i <= items@.len(),
                    out@.len() == i,
                    forall|j: int|
                        0 <= j < i ==> (#[trigger] out@[j]).model() == value_of(items@[j].model()),
                decreases items@.len() - i,
            {
                let v = cbor_to_value(&items[i]);
                out.push(v);
                i = i + 1;
            }
            proof {
                lemma_value_models(out@);
                lemma_cbor_models(items@);
                lemma_values_of(Cbor::models(items@));
                assert(Val::models(out@) =~= values_of(Cbor::models(items@)));
            }
            Val::List(out)
        },
        Cbor::Dict(pairs) => {
            let ghost pm = Cbor::pair_models(pairs@);
            proof {
                lemma_pair_models(pairs@);
            }
            let mut all_text = true;
            let mut i: usize = 0;
            while i < pairs.len()
                invariant
                    i <= pairs@.len(),
                    pm == Cbor::pair_models(pairs@),
                    pm.len() == pairs@.len(),
                    forall|j: int|
                        0 <= j < pairs@.len() ==> #[trigger] pm[j] == (
                            pairs@[j].0.model(),
                            pairs@[j].1.model(),
                        ),
                    all_text <==> forall|j: int| 0 <= j < i ==> (#[trigger] pairs@[j]).0 is Text,
                decreases pairs@.len() - i,
            {
                match &pairs[i].0 {
                    Cbor::Text(_) => {},
                    _ => {
                        all_text = false;
                    },
                }
                i = i + 1;
            }
            assert(all_text == all_text_keys(pm)) by {
                if all_text {
                    assert forall|j: int| 0 <= j < pm.len() implies (#[trigger] pm[j]).0 is Text by {
                        assert(pairs@[j].0 is Text);
                    }
                } else {
                    let j = choose|j: int| 0 <= j < pairs@.len() && !((#[trigger] pairs@[j]).0 is Text);
                    assert(!(pm[j].0 is Text));
                }
            }
            if all_text {
                let mut m: Vec<(String, Val)> = Vec::new();
                let mut i: usize = 0;
                while i < pairs.len()
                    invariant
                        i <= pairs@.len(),
                        pm == Cbor::pair_models(pairs@),
                        pm.len() == pairs@.len(),
                        forall|j: int|
                            0 <= j < pairs@.len() ==> #[trigger] pm[j] == (
                                pairs@[j].0.model(),
                                pairs@[j].1.model(),
                            ),
                        all_text_keys(pm),
                        Val::entry_models(m@) == text_dict(pm.take(i as int)),
                    decreases pairs@.len() - i,
                {
                    assert(pm[i as int].0 is Text);
                    if let Cbor::Text(k) = &pairs[i].0 {
                        let v = cbor_to_value(&pairs[i].1);
                        proof {
                            assert(pm.take(i + 1).subrange(0, i as int) =~= pm.take(i as int));
                            assert(pm.take(i + 1)[i as int] == pm[i as int]);
                        }
                        dict_insert_exec(&mut m, k.clone(), v);
                    }
                    i = i + 1;
                }
                assert(pm.take(pairs@.len() as int) =~= pm);
                Val::Dict(m)
            } else {
                let mut out: Vec<Val> = Vec::new();
                let mut i: usize = 0;
                while i < pairs.len()
                    invariant
                        i <= pairs@.len(),
                        out@.len() == i,
                        forall|j: int|
                            0 <= j < i ==> (#[trigger] out@[j]).model() == ValModel::List(
                                seq![value_of(pairs@[j].0.model()), value_of(pairs@[j].1.model())],
                            ),
                    decreases pairs@.len() - i,
                {
                    let a = cbor_to_value(&pairs[i].0);
                    let b = cbor_to_value(&pairs[i].1);
                    let ghost am = a.model();
                    let ghost bm = b.model();
                    let pair = vec![a, b];
                    proof {
                        lemma_value_models(pair@);
                        assert(Val::models(pair@) =~= seq![am, bm]);
                    }
                    out.push(Val::List(pair));
                    i = i + 1;
                }
                proof {
                    lemma_value_models(out@);
                    lemma_pair_lists(pm);
                    assert(Val::models(out@) =~= pair_lists(pm));
                }
                Val::List(out)
            }
        },
        Cbor::Other(s) => Val::Str(s.clone()),
    }
}


// ── Laws ───────────────────────────────────────────────────────────────────

proof fn lemma_text_dict_of_entries(entries: Seq<(Seq<char>, ValModel)>, n: int)
    requires
        sorted_keys(entries),
        0 <= n <= entries.len(),
        forall|i: int|
            0 <= i < entries.len() ==> value_of(cbor_of(#[trigger] entries[i].1)) == entries[i].1,
    ensures
        text_dict(entry_cbors(entries).take(n)) == entries.take(n),
    decreases n,
{
    lemma_entry_cbors(entries);
    if n > 0 {
        lemma_text_dict_of_entries(entries, n - 1);
        let p = entry_cbors(entries).take(n);
        assert(p.subrange(0, n - 1) =~= entry_cbors(entries).take(n - 1));
        let prev = entries.take(n - 1);
        assert forall|j: int| 0 <= j < prev.len() implies text_less(
            #[trigger] prev[j].0,
            entries[n - 1].0,
        ) by {
            assert(prev[j] == entries[j]);
        }
        lemma_dict_insert_last(prev, entries[n - 1].0, entries[n - 1].1);
        assert(p[n - 1] == (CborModel::Text(entries[n - 1].0), cbor_of(entries[n - 1].1)));
        assert(prev.push((entries[n - 1].0, entries[n - 1].1)) =~= entries.take(n));
    }
}

/// A value made only of data comes back unchanged after conversion to its
/// CBOR term and back: `value_of(cbor_of(v)) == v`.
pub proof fn data_round_trips_through_cbor(v: ValModel)
    requires
        is_data(v),
    ensures
        value_of(cbor_of(v)) == v,
    decreases v,
{
    match v {
        ValModel::List(items) => {
            lemma_cbors_of(items);
            lemma_values_of(cbors_of(items));
            assert forall|i: int| 0 <= i < items.len() implies values_of(cbors_of(items))[i]
                == items[i] by {
                data_round_trips_through_cbor(items[i]);
            }
            assert(values_of(cbors_of(items)) =~= items);
        },
        ValModel::Dict(entries) => {
            let pairs = entry_cbors(entries);
            lemma_entry_cbors(entries);
            assert forall|i: int| 0 <= i < pairs.len() implies (#[trigger] pairs[i]).0 is Text by {}
            assert forall|i: int| 0 <= i < entries.len() implies value_of(
                cbor_of(#[trigger] entries[i].1),
            ) == entries[i].1 by {
                data_round_trips_through_cbor(entries[i].1);
            }
            lemma_text_dict_of_entries(entries, entries.len() as int);
            assert(pairs.take(pairs.len() as int) =~= pairs);
            assert(entries.take(entries.len() as int) =~= entries);
        },
        _ => {},
    }
}

/// A text before `k` and before every key of `m` is before every key of
/// `dict_insert(m, k, v)`.
proof fn lemma_dict_insert_bound(
    m: Seq<(Seq<char>, ValModel)>,
    k: Seq<char>,
    v: ValModel,
    b: Seq<char>,
)
    requires
        text_less(b, k),
        forall|j: int| 0 <= j < m.len() ==> text_less(b, #[trigger] m[j].0),
    ensures
        forall|i: int|
            0 <= i < dict_insert(m, k, v).len() ==> text_less(b, #[trigger] dict_insert(m, k, v)[i].0),
    decreases m.len(),
{
    if m.len() > 0 {
        let t = m.drop_first();
        assert forall|j: int| 0 <= j < t.len() implies text_less(b, #[trigger] t[j].0) by {
            assert(t[j] == m[j + 1]);
        }
        lemma_dict_insert_bound(t, k, v, b);
        let r = dict_insert(m, k, v);
        assert forall|i: int| 0 <= i < r.len() implies text_less(b, #[trigger] r[i].0) by {
            if m[0].0 == k {
            } else if text_less(k, m[0].0) {
                if i > 0 {
                    assert(r[i] == m[i - 1]);
                }
            } else {
                if i > 0 {
                    assert(r[i] == dict_insert(t, k, v)[i - 1]);
                }
            }
        }
    }
}

/// Inserting into a map whose keys are in order keeps them in order.
proof fn lemma_dict_insert_sorted(m: Seq<(Seq<char>, ValModel)>, k: Seq<char>, v: ValModel)
    requires
        sorted_keys(m),
    ensures
        sorted_keys(dict_insert(m, k, v)),
    decreases m.len(),
{
    if m.len() > 0 {
        let r = dict_insert(m, k, v);
        let t = m.drop_first();
        if m[0].0 == k {
            assert forall|i: int, j: int| 0 <= i < j < r.len() implies text_less(r[i].0, r[j].0) by {
                assert(r[j].0 == m[j].0);
                if i > 0 {
                    assert(r[i].0 == m[i].0);
                }
            }
        } else if text_less(k, m[0].0) {
            assert forall|i: int, j: int| 0 <= i < j < r.len() implies text_less(r[i].0, r[j].0) by {
                assert(r[j] == m[j - 1]);
                if i > 0 {
                    assert(r[i] == m[i - 1]);
                } else if j > 1 {
                    lemma_text_less_trans(k, m[0].0, m[j - 1].0);
                }
            }
        } else {
            assert(sorted_keys(t)) by {
                assert forall|i: int, j: int| 0 <= i < j < t.len() implies text_less(
                    t[i].0,
                    t[j].0,
                ) by {
                    assert(t[i] == m[i + 1] && t[j] == m[j + 1]);
                }
            }
            lemma_dict_insert_sorted(t, k, v);
            lemma_text_less_total(m[0].0, k);
            assert forall|j: int| 0 <= j < t.len() implies text_less(m[0].0, #[trigger] t[j].0) by {
                assert(t[j] == m[j + 1]);
            }
            lemma_dict_insert_bound(t, k, v, m[0].0);
            let d = dict_insert(t, k, v);
            assert forall|i: int, j: int| 0 <= i < j < r.len() implies text_less(r[i].0, r[j].0) by {
                assert(r[j] == d[j - 1]);
                if i > 0 {
                    assert(r[i] == d[i - 1]);
                }
            }
        }
    }
}

/// A received map has its keys in order, each once, as in a `BTreeMap`:
/// the map built from any sequence of text-keyed pairs has increasing keys.
pub proof fn decoded_maps_are_ordered(pairs: Seq<(CborModel, CborModel)>)
    ensures
        sorted_keys(text_dict(pairs)),
    decreases pairs.len(),
{
    if pairs.len() > 0 {
        let init = pairs.subrange(0, pairs.len() - 1);
        decoded_maps_are_ordered(init);
        let last = pairs[pairs.len() - 1];
        lemma_dict_insert_sorted(text_dict(init), last.0->Text_0, value_of(last.1));
    }
}

} // verus!
