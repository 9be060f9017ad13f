//! The JSON-like value model shared by every engine component.
//!
//! Answer sets, store namespaces and render payloads are all trees of
//! [`JsonValue`].  Numbers are either exact 64-bit integers or finite
//! decimals written as `sign * mant * 10^exp10`, which covers the shortest
//! decimal form of every finite double while keeping the model free of
//! machine floating point.

use vstd::prelude::*;

use crate::strutil::str_eq;

verus! {

/// A finite decimal number `(-1)^neg * mant * 10^exp10`.
///
/// Used for every JSON number that is not an exact `i64`.  The exponent is
/// kept inside `[-400, 400]`, which spans the full range of finite doubles.
#[derive(Clone, Copy, Debug)]
pub struct Dec {
    pub neg: bool,
    pub mant: u64,
    pub exp10: i32,
}

/// A JSON value: the tree shape every engine input and output takes.
#[derive(Debug)]
pub enum JsonValue {
    Null,
    Bool(bool),
    Int(i64),
    Num(Dec),
    Str(String),
    Arr(Vec<JsonValue>),
    Obj(Vec<(String, JsonValue)>),
}

/// The mathematical shape of a [`JsonValue`]: sequences for arrays and
/// ordered key/value pair lists for objects.
#[verifier::ext_equal]
pub enum JsonView {
    Null,
    Bool(bool),
    Int(int),
    Num { neg: bool, mant: nat, exp10: int },
    Str(Seq<char>),
    Arr(Seq<JsonView>),
    Obj(Seq<(Seq<char>, JsonView)>),
}

/// The view of one value; arrays and objects recurse element by element.
pub open spec fn jview(v: JsonValue) -> JsonView
    decreases v,
{
    match v {
        JsonValue::Null => JsonView::Null,
        JsonValue::Bool(b) => JsonView::Bool(b),
        JsonValue::Int(i) => JsonView::Int(i as int),
        JsonValue::Num(d) => JsonView::Num {
            neg: d.neg,
            mant: d.mant as nat,
            exp10: d.exp10 as int,
        },
        JsonValue::Str(s) => JsonView::Str(s@),
        JsonValue::Arr(items) => JsonView::Arr(jview_arr(items@)),
        JsonValue::Obj(entries) => JsonView::Obj(jview_obj(entries@)),
    }
}

/// The views of an array's elements, in order.
pub open spec fn jview_arr(items: Seq<JsonValue>) -> Seq<JsonView>
    decreases items,
{
    if items.len() == 0 {
        Seq::empty()
    } else {
        seq![jview(items[0])] + jview_arr(items.subrange(1, items.len() as int))
    }
}

/// The views of an object's entries, in order.
pub open spec fn jview_obj(entries: Seq<(String, JsonValue)>) -> Seq<(Seq<char>, JsonView)>
    decreases entries,
{
    if entries.len() == 0 {
        Seq::empty()
    } else {
        seq![(entries[0].0@, jview(entries[0].1))]
            + jview_obj(entries.subrange(1, entries.len() as int))
    }
}

impl View for JsonValue {
    type V = JsonView;

    open spec fn view(&self) -> JsonView {
        jview(*self)
    }
}

/// The length and elements of an array view, entry by entry.
pub broadcast proof fn lemma_jview_arr(items: Seq<JsonValue>)
    ensures
        (#[trigger] jview_arr(items)).len() == items.len(),
        forall|i: int| 0 <= i < items.len() ==> jview_arr(items)[i] == jview(items[i]),
    decreases items.len(),
{
    if items.len() > 0 {
        lemma_jview_arr(items.subrange(1, items.len() as int));
    }
}

/// The length and elements of an object view, entry by entry.
pub broadcast proof fn lemma_jview_obj(entries: Seq<(String, JsonValue)>)
    ensures
        (#[trigger] jview_obj(entries)).len() == entries.len(),
        forall|i: int| 0 <= i < entries.len() ==> jview_obj(entries)[i] == (
            entries[i].0@,
            jview(entries[i].1),
        ),
    decreases entries.len(),
{
    if entries.len() > 0 {
        lemma_jview_obj(entries.subrange(1, entries.len() as int));
    }
}

/// Well-formedness: object keys are unique at every level, and decimal
/// exponents stay inside the range of finite doubles.
pub open spec fn wf(v: JsonView) -> bool
    decreases v,
{
    match v {
        JsonView::Num { neg, mant, exp10 } => -400 <= exp10 <= 400,
        JsonView::Arr(items) => forall|i: int| 0 <= i < items.len() ==> wf(#[trigger] items[i]),
        JsonView::Obj(entries) => {
            &&& forall|i: int, j: int|
                0 <= i < j < entries.len() ==> (#[trigger] entries[i].0) != (
                #[trigger] entries[j].0)
            &&& forall|i: int| 0 <= i < entries.len() ==> wf(#[trigger] entries[i].1)
        },
        _ => true,
    }
}

/// Looks a key up in an object's entry list; `None` when absent.
pub open spec fn obj_lookup(entries: Seq<(Seq<char>, JsonView)>, key: Seq<char>) -> Option<JsonView>
    decreases entries.len(),
{
    if entries.len() == 0 {
        None
    } else if entries[0].0 == key {
        Some(entries[0].1)
    } else {
        obj_lookup(entries.skip(1), key)
    }
}

/// A field looked up in a value: `None` unless the value is an object
/// holding the key.
pub open spec fn get_field(v: JsonView, key: Seq<char>) -> Option<JsonView> {
    match v {
        JsonView::Obj(entries) => obj_lookup(entries, key),
        _ => None,
    }
}

/// Dropping entries that do not hold the key leaves the lookup unchanged.
proof fn lemma_obj_lookup_skip(entries: Seq<(Seq<char>, JsonView)>, key: Seq<char>, i: int)
    requires
        0 <= i <= entries.len(),
        forall|j: int| 0 <= j < i ==> (#[trigger] entries[j].0) != key,
    ensures
        obj_lookup(entries, key) == obj_lookup(entries.skip(i), key),
    decreases i,
{
    if i > 0 {
        lemma_obj_lookup_skip(entries.skip(1), key, i - 1);
        assert(entries.skip(1).skip(i - 1) =~= entries.skip(i));
    } else {
        assert(entries.skip(0) =~= entries);
    }
}

/// Replaces the entry holding the key, or appends a fresh entry at the end.
pub open spec fn obj_set(
    entries: Seq<(Seq<char>, JsonView)>,
    key: Seq<char>,
    val: JsonView,
) -> Seq<(Seq<char>, JsonView)>
    decreases entries.len(),
{
    if entries.len() == 0 {
        seq![(key, val)]
    } else if entries[0].0 == key {
        seq![(key, val)] + entries.skip(1)
    } else {
        seq![entries[0]] + obj_set(entries.skip(1), key, val)
    }
}

/// `obj_set` either updates the first matching entry in place or pushes a
/// new one, depending on whether the key is present.
proof fn lemma_obj_set_shape(
    entries: Seq<(Seq<char>, JsonView)>,
    key: Seq<char>,
    val: JsonView,
    i: int,
)
    requires
        0 <= i <= entries.len(),
        forall|j: int| 0 <= j < i ==> (#[trigger] entries[j].0) != key,
        i < entries.len() ==> entries[i].0 == key,
    ensures
        i < entries.len() ==> obj_set(entries, key, val) == entries.update(i, (key, val)),
        i == entries.len() ==> obj_set(entries, key, val) == entries.push((key, val)),
    decreases i,
{
    if entries.len() == 0 {
        assert(obj_set(entries, key, val) =~= entries.push((key, val)));
    } else if i == 0 {
        if i < entries.len() {
            assert(obj_set(entries, key, val) =~= entries.update(0, (key, val)));
        }
    } else {
        lemma_obj_set_shape(entries.skip(1), key, val, i - 1);
        if i < entries.len() {
            assert(obj_set(entries, key, val) =~= entries.update(i, (key, val)));
        } else {
            assert(obj_set(entries, key, val) =~= entries.push((key, val)));
        }
    }
}

/// Looking up a key whose first match sits at position `i` yields that
/// entry's value.
pub proof fn lemma_obj_lookup_at(entries: Seq<(Seq<char>, JsonView)>, key: Seq<char>, i: int)
    requires
        0 <= i < entries.len(),
        entries[i].0 == key,
        forall|j: int| 0 <= j < i ==> (#[trigger] entries[j].0) != key,
    ensures
        obj_lookup(entries, key) == Some(entries[i].1),
{
    lemma_obj_lookup_skip(entries, key, i);
    let rest = entries.skip(i);
    assert(rest[0] == entries[i]);
    assert(obj_lookup(rest, key) == Some(rest[0].1));
}

/// Looking up a key no entry holds yields nothing.
pub proof fn lemma_obj_lookup_none(entries: Seq<(Seq<char>, JsonView)>, key: Seq<char>)
    requires
        forall|j: int| 0 <= j < entries.len() ==> (#[trigger] entries[j].0) != key,
    ensures
        obj_lookup(entries, key) is None,
{
    lemma_obj_lookup_skip(entries, key, entries.len() as int);
    assert(entries.skip(entries.len() as int) =~= Seq::<(Seq<char>, JsonView)>::empty());
}

/// Storing under a key whose first match sits at position `i` updates
/// that entry in place.
pub proof fn lemma_obj_set_at(
    entries: Seq<(Seq<char>, JsonView)>,
    key: Seq<char>,
    i: int,
    val: JsonView,
)
    requires
        0 <= i < entries.len(),
        entries[i].0 == key,
        forall|j: int| 0 <= j < i ==> (#[trigger] entries[j].0) != key,
    ensures
        obj_set(entries, key, val) == entries.update(i, (key, val)),
{
    lemma_obj_set_shape(entries, key, val, i);
}

/// Storing under a key no entry holds appends a fresh entry.
pub proof fn lemma_obj_set_at_end(entries: Seq<(Seq<char>, JsonView)>, key: Seq<char>, val: JsonView)
    requires
        forall|j: int| 0 <= j < entries.len() ==> (#[trigger] entries[j].0) != key,
    ensures
        obj_set(entries, key, val) == entries.push((key, val)),
{
    lemma_obj_set_shape(entries, key, val, entries.len() as int);
}

/// Looking up after `obj_set` yields the stored value; other keys keep
/// their binding, and key uniqueness is preserved.
pub broadcast proof fn lemma_obj_set_lookup(
    entries: Seq<(Seq<char>, JsonView)>,
    key: Seq<char>,
    val: JsonView,
)
    ensures
        obj_lookup(#[trigger] obj_set(entries, key, val), key) == Some(val),
        forall|other: Seq<char>|
            other != key ==> obj_lookup(obj_set(entries, key, val), other) == obj_lookup(
                entries,
                other,
            ),
    decreases entries.len(),
{
    let s = obj_set(entries, key, val);
    if entries.len() == 0 {
        assert(s.len() == 1 && s[0] == (key, val));
        assert(s.skip(1) =~= Seq::<(Seq<char>, JsonView)>::empty());
        assert forall|other: Seq<char>| other != key implies obj_lookup(s, other) == obj_lookup(
            entries,
            other,
        ) by {
            assert(obj_lookup(s.skip(1), other) is None);
            assert(obj_lookup(entries, other) is None);
        }
    } else if entries[0].0 == key {
        assert(s.len() == entries.len());
        assert(s[0] == (key, val));
        assert(s.skip(1) =~= entries.skip(1));
        assert forall|other: Seq<char>| other != key implies obj_lookup(s, other) == obj_lookup(
            entries,
            other,
        ) by {
            assert(obj_lookup(s, other) == obj_lookup(s.skip(1), other));
            assert(obj_lookup(entries, other) == obj_lookup(entries.skip(1), other));
        }
    } else {
        lemma_obj_set_lookup(entries.skip(1), key, val);
        assert(s.len() > 0);
        assert(s[0] == entries[0]);
        assert(s.skip(1) =~= obj_set(entries.skip(1), key, val));
        assert(obj_lookup(s.skip(1), key) == Some(val));
        assert(obj_lookup(s, key) == Some(val));
        assert forall|other: Seq<char>| other != key implies obj_lookup(s, other) == obj_lookup(
            entries,
            other,
        ) by {
            if entries[0].0 == other {
                assert(obj_lookup(s, other) == Some(s[0].1));
                assert(obj_lookup(entries, other) == Some(entries[0].1));
            } else {
                assert(obj_lookup(s, other) == obj_lookup(s.skip(1), other));
                assert(obj_lookup(entries, other) == obj_lookup(entries.skip(1), other));
            }
        }
    }
}

impl JsonValue {
    /// An empty JSON object.
    pub fn empty_obj() -> (r: JsonValue)
        ensures
            r@ == JsonView::Obj(Seq::<(Seq<char>, JsonView)>::empty()),
    {
        let r = JsonValue::Obj(Vec::new());
        proof {
            assert(r@ =~= JsonView::Obj(Seq::<(Seq<char>, JsonView)>::empty()));
        }
        r
    }

    /// Whether this value is `null`.
    pub fn is_null(&self) -> (r: bool)
        ensures
            r == (self@ == JsonView::Null),
    {
        match self {
            JsonValue::Null => true,
            _ => false,
        }
    }

    /// The boolean inside, when the value is a boolean.
    pub fn as_bool(&self) -> (r: Option<bool>)
        ensures
            r == (match self@ {
                JsonView::Bool(b) => Some(b),
                _ => None::<bool>,
            }),
    {
        match self {
            JsonValue::Bool(b) => Some(*b),
            _ => None,
        }
    }

    /// The field stored under `key`, when this value is an object holding it.
    pub fn get<'a>(&'a self, key: &str) -> (r: Option<&'a JsonValue>)
        ensures
            match r {
                Some(f) => get_field(self@, key@) == Some(f@),
                None => get_field(self@, key@) is None,
            },
    {
        match self {
            JsonValue::Obj(entries) => {
                let ghost view_entries = jview_obj(entries@);
                proof {
                    lemma_jview_obj(entries@);
                }
                match obj_find_index(entries, key) {
                    Some(i) => {
                        proof {
                            lemma_obj_lookup_skip(view_entries, key@, i as int);
                            let rest = view_entries.skip(i as int);
                            assert(rest[0] == view_entries[i as int]);
                            assert(obj_lookup(rest, key@) == Some(rest[0].1));
                        }
                        Some(&entries[i].1)
                    },
                    None => {
                        proof {
                            lemma_obj_lookup_skip(view_entries, key@, view_entries.len() as int);
                            assert(view_entries.skip(view_entries.len() as int) =~= Seq::<
                                (Seq<char>, JsonView),
                            >::empty());
                        }
                        None
                    },
                }
            },
            _ => None,
        }
    }
}

impl JsonValue {
    /// The characters inside, when the value is a string.
    pub fn as_str<'a>(&'a self) -> (r: Option<&'a str>)
        ensures
            match r {
                Some(s) => self@ == JsonView::Str(s@),
                None => !(self@ is Str),
            },
    {
        match self {
            JsonValue::Str(s) => Some(s.as_str()),
            _ => None,
        }
    }

    /// The exact integer inside, when the value is one.
    pub fn as_int(&self) -> (r: Option<i64>)
        ensures
            match r {
                Some(i) => self@ == JsonView::Int(i as int),
                None => !(self@ is Int),
            },
    {
        match self {
            JsonValue::Int(i) => Some(*i),
            _ => None,
        }
    }

    /// Whether the value is a number: an exact integer or a decimal.
    pub fn is_number(&self) -> (r: bool)
        ensures
            r == (self@ is Int || self@ is Num),
    {
        match self {
            JsonValue::Int(_) => true,
            JsonValue::Num(_) => true,
            _ => false,
        }
    }

    /// The elements inside, when the value is an array.
    pub fn as_array<'a>(&'a self) -> (r: Option<&'a Vec<JsonValue>>)
        ensures
            match r {
                Some(items) => self@ == JsonView::Arr(jview_arr(items@)),
                None => !(self@ is Arr),
            },
    {
        match self {
            JsonValue::Arr(items) => Some(items),
            _ => None,
        }
    }

    /// The entry list inside, when the value is an object.
    pub fn as_object<'a>(&'a self) -> (r: Option<&'a Vec<(String, JsonValue)>>)
        ensures
            match r {
                Some(entries) => self@ == JsonView::Obj(jview_obj(entries@)),
                None => !(self@ is Obj),
            },
    {
        match self {
            JsonValue::Obj(entries) => Some(entries),
            _ => None,
        }
    }

    /// A structurally identical copy of the value.
    pub fn deep_copy(&self) -> (r: JsonValue)
        ensures
            r@ == self@,
        decreases self,
    {
        match self {
            JsonValue::Null => JsonValue::Null,
            JsonValue::Bool(b) => JsonValue::Bool(*b),
            JsonValue::Int(i) => JsonValue::Int(*i),
            JsonValue::Num(d) => JsonValue::Num(Dec { neg: d.neg, mant: d.mant, exp10: d.exp10 }),
            JsonValue::Str(s) => JsonValue::Str(s.clone()),
            JsonValue::Arr(items) => {
                let mut out: Vec<JsonValue> = Vec::new();
                let n = items.len();
                let mut i: usize = 0;
                while i < n
                    invariant
                        n == items.len(),
                        i <= n,
                        *self == JsonValue::Arr(*items),
                        out@.len() == i,
                        forall|j: int| 0 <= j < i ==> jview(#[trigger] out@[j]) == jview(
                            items@[j],
                        ),
                    decreases n - i,
                {
                    proof {
                        assert(decreases_to!(*self => self->Arr_0));
                        assert(decreases_to!(self->Arr_0 => self->Arr_0[i as int]));
                        assert(self->Arr_0 == *items);
                        assert(decreases_to!(*self => items@[i as int]));
                    }
                    let c = items[i].deep_copy();
                    out.push(c);
                    i += 1;
                }
                proof {
                    lemma_jview_arr(out@);
                    lemma_jview_arr(items@);
                    assert(jview_arr(out@) =~= jview_arr(items@));
                }
                JsonValue::Arr(out)
            },
            JsonValue::Obj(entries) => {
                let mut out: Vec<(String, JsonValue)> = Vec::new();
                let n = entries.len();
                let mut i: usize = 0;
                while i < n
                    invariant
                        n == entries.len(),
                        i <= n,
                        *self == JsonValue::Obj(*entries),
                        out@.len() == i,
                        forall|j: int|
                            0 <= j < i ==> (#[trigger] out@[j]).0@ == entries@[j].0@ && jview(
                                out@[j].1,
                            ) == jview(entries@[j].1),
                    decreases n - i,
                {
                    proof {
                        assert(decreases_to!(*self => self->Obj_0));
                        assert(decreases_to!(self->Obj_0 => self->Obj_0[i as int]));
                        assert(self->Obj_0 == *entries);
                        assert(decreases_to!(entries@[i as int] => entries@[i as int].1));
                        assert(decreases_to!(*self => entries@[i as int].1));
                    }
                    let k = entries[i].0.clone();
                    let v = entries[i].1.deep_copy();
                    out.push((k, v));
                    i += 1;
                }
                proof {
                    lemma_jview_obj(out@);
                    lemma_jview_obj(entries@);
                    assert(jview_obj(out@) =~= jview_obj(entries@));
                }
                JsonValue::Obj(out)
            },
        }
    }

    /// Whether two values have the same view: same shape, characters and
    /// numbers, with object entries compared in order.
    pub fn eq_value(&self, other: &JsonValue) -> (r: bool)
        ensures
            r == (self@ == other@),
        decreases self,
    {
        match (self, other) {
            (JsonValue::Null, JsonValue::Null) => true,
            (JsonValue::Bool(a), JsonValue::Bool(b)) => a == b,
            (JsonValue::Int(a), JsonValue::Int(b)) => a == b,
            (JsonValue::Num(a), JsonValue::Num(b)) => {
                a.neg == b.neg && a.mant == b.mant && a.exp10 == b.exp10
            },
            (JsonValue::Str(a), JsonValue::Str(b)) => str_eq(a.as_str(), b.as_str()),
            (JsonValue::Arr(xs), JsonValue::Arr(ys)) => {
                proof {
                    lemma_jview_arr(xs@);
                    lemma_jview_arr(ys@);
                }
                if xs.len() != ys.len() {
                    return false;
                }
                let n = xs.len();
                let mut i: usize = 0;
                while i < n
                    invariant
                        n == xs.len() && n == ys.len(),
                        i <= n,
                        *self == JsonValue::Arr(*xs),
                        *other == JsonValue::Arr(*ys),
                        forall|j: int| 0 <= j < i ==> jview(#[trigger] xs@[j]) == jview(ys@[j]),
                    decreases n - i,
                {
                    proof {
                        assert(decreases_to!(*self => self->Arr_0));
                        assert(decreases_to!(self->Arr_0 => self->Arr_0[i as int]));
                        assert(self->Arr_0 == *xs);
                        assert(decreases_to!(*self => xs@[i as int]));
                    }
                    if !xs[i].eq_value(&ys[i]) {
                        proof {
                            lemma_jview_arr(xs@);
                            lemma_jview_arr(ys@);
                            assert(jview_arr(xs@)[i as int] != jview_arr(ys@)[i as int]);
                        }
                        return false;
                    }
                    i += 1;
                }
                proof {
                    lemma_jview_arr(xs@);
                    lemma_jview_arr(ys@);
                    assert(jview_arr(xs@) =~= jview_arr(ys@));
                }
                true
            },
            (JsonValue::Obj(xs), JsonValue::Obj(ys)) => {
                proof {
                    lemma_jview_obj(xs@);
                    lemma_jview_obj(ys@);
                }
                if xs.len() != ys.len() {
                    return false;
                }
                let n = xs.len();
                let mut i: usize = 0;
                while i < n
                    invariant
                        n == xs.len() && n == ys.len(),
                        i <= n,
                        *self == JsonValue::Obj(*xs),
                        *other == JsonValue::Obj(*ys),
                        forall|j: int|
                            0 <= j < i ==> (#[trigger] xs@[j]).0@ == ys@[j].0@ && jview(xs@[j].1)
                                == jview(ys@[j].1),
                    decreases n - i,
                {
                    if !str_eq(xs[i].0.as_str(), ys[i].0.as_str()) {
                        proof {
                            lemma_jview_obj(xs@);
                            lemma_jview_obj(ys@);
                            assert(jview_obj(xs@)[i as int] != jview_obj(ys@)[i as int]);
                        }
                        return false;
                    }
                    proof {
                        assert(decreases_to!(*self => self->Obj_0));
                        assert(decreases_to!(self->Obj_0 => self->Obj_0[i as int]));
                        assert(self->Obj_0 == *xs);
                        assert(decreases_to!(xs@[i as int] => xs@[i as int].1));
                        assert(decreases_to!(*self => xs@[i as int].1));
                    }
                    if !xs[i].1.eq_value(&ys[i].1) {
                        proof {
                            lemma_jview_obj(xs@);
                            lemma_jview_obj(ys@);
                            assert(jview_obj(xs@)[i as int] != jview_obj(ys@)[i as int]);
                        }
                        return false;
                    }
                    i += 1;
                }
                proof {
                    lemma_jview_obj(xs@);
                    lemma_jview_obj(ys@);
                    assert(jview_obj(xs@) =~= jview_obj(ys@));
                }
                true
            },
            _ => {
                proof {
                    assert(self@ != other@);
                }
                false
            },
        }
    }
}

/// The position of the first entry holding `key`, if any; entries before it
/// hold other keys.
pub fn obj_find_index(entries: &Vec<(String, JsonValue)>, key: &str) -> (r: Option<usize>)
    ensures
        match r {
            Some(i) => {
                &&& i < entries@.len()
                &&& jview_obj(entries@)[i as int].0 == key@
                &&& forall|j: int|
                    0 <= j < i ==> (#[trigger] jview_obj(entries@)[j].0) != key@
            },
            None => forall|j: int|
                0 <= j < entries@.len() ==> (#[trigger] jview_obj(entries@)[j].0) != key@,
        },
{
    proof {
        lemma_jview_obj(entries@);
    }
    let n = entries.len();
    let mut i: usize = 0;
    while i < n
        invariant
            n == entries.len(),
            i <= n,
            forall|j: int| 0 <= j < i ==> (#[trigger] jview_obj(entries@)[j].0) != key@,
            forall|j: int| 0 <= j < entries@.len() ==> #[trigger] jview_obj(entries@)[j] == (
                entries@[j].0@,
                jview(entries@[j].1),
            ),
            jview_obj(entries@).len() == entries@.len(),
        decreases n - i,
    {
        if str_eq(entries[i].0.as_str(), key) {
            return Some(i);
        }
        i += 1;
    }
    None
}

/// Stores `val` under `key` in an object's entry vector, replacing any
/// entry already holding the key.
pub fn obj_entries_set(entries: &mut Vec<(String, JsonValue)>, key: &str, val: JsonValue)
    ensures
        jview_obj(final(entries)@) == obj_set(jview_obj(old(entries)@), key@, jview(val)),
{
    let ghost orig = jview_obj(entries@);
    proof {
        lemma_jview_obj(entries@);
    }
    let owned_key = crate::strutil::to_string(key);
    match obj_find_index(entries, key) {
        Some(i) => {
            proof {
                lemma_obj_set_shape(orig, key@, jview(val), i as int);
            }
            let ghost pre = entries@;
            entries.remove(i);
            entries.insert(i, (owned_key, val));
            proof {
                assert(entries@ =~= pre.update(i as int, (owned_key, val)));
                lemma_jview_obj(entries@);
                assert(jview_obj(entries@) =~= orig.update(i as int, (key@, jview(val))));
            }
        },
        None => {
            proof {
                lemma_obj_set_shape(orig, key@, jview(val), orig.len() as int);
            }
            entries.push((owned_key, val));
            proof {
                lemma_jview_obj(entries@);
                assert(jview_obj(entries@) =~= orig.push((key@, jview(val))));
            }
        },
    }
}

} // verus!
