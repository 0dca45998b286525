//! A JSON value model: the data that tool inputs, schemas and results carry.

use vstd::prelude::*;

verus! {

/// A JSON number, as `serde_json` keeps it: a non-negative integer, a
/// negative integer, or a finite floating-point number given by its
/// IEEE-754 bit pattern.
#[derive(Debug, Clone, Copy, PartialEq, Eq, Structural)]
pub enum JsonNumber {
    PosInt(u64),
    NegInt(i64),
    Float(u64),
}

/// A JSON value. Objects are entry lists read as maps: a key's value is
/// that of its last entry, as when a later entry replaces an earlier one.
#[derive(Debug)]
pub enum JsonValue {
    Null,
    Bool(bool),
    Number(JsonNumber),
    String(String),
    Array(Vec<JsonValue>),
    Object(Vec<(String, JsonValue)>),
}

/// The mathematical content of a `JsonValue`.
pub enum JsonView {
    Null,
    Bool(bool),
    Number(JsonNumber),
    Str(Seq<char>),
    Array(Seq<JsonView>),
    Object(Seq<(Seq<char>, JsonView)>),
}

pub open spec fn view_of(v: JsonValue) -> JsonView
    decreases v,
{
    match v {
        JsonValue::Null => JsonView::Null,
        JsonValue::Bool(b) => JsonView::Bool(b),
        JsonValue::Number(n) => JsonView::Number(n),
        JsonValue::String(s) => JsonView::Str(s@),
        JsonValue::Array(xs) => JsonView::Array(
            Seq::new(
                xs@.len(),
                |i: int|
                    if 0 <= i < xs@.len() {
                        view_of(xs@[i])
                    } else {
                        JsonView::Null
                    },
            ),
        ),
        JsonValue::Object(ps) => JsonView::Object(
            Seq::new(
                ps@.len(),
                |i: int|
                    if 0 <= i < ps@.len() {
                        (ps@[i].0@, view_of(ps@[i].1))
                    } else {
                        (Seq::empty(), JsonView::Null)
                    },
            ),
        ),
    }
}

impl View for JsonValue {
    type V = JsonView;

    open spec fn view(&self) -> JsonView {
        view_of(*self)
    }
}

/// The value at the last entry whose key is `key`: an object read as a
/// map, where a later entry for a key replaces an earlier one.
pub open spec fn entries_get(entries: Seq<(Seq<char>, JsonView)>, key: Seq<char>) -> Option<JsonView>
    decreases entries.len(),
{
    if entries.len() == 0 {
        None
    } else if entries.last().0 == key {
        Some(entries.last().1)
    } else {
        entries_get(entries.drop_last(), key)
    }
}

/// Whether the bits are those of a floating-point zero, `0.0` or `-0.0`.
pub open spec fn zero_bits(bits: u64) -> bool {
    bits == 0 || bits == 0x8000_0000_0000_0000
}

/// Number equality: integers by value, floating-point numbers as IEEE-754
/// compares them (equal bits, or two zeros of either sign); an integer
/// never equals a floating-point number.
pub open spec fn number_eq(x: JsonNumber, y: JsonNumber) -> bool {
    match (x, y) {
        (JsonNumber::Float(a), JsonNumber::Float(b)) => a == b || (zero_bits(a) && zero_bits(b)),
        _ => x == y,
    }
}

/// Whether two JSON numbers are equal (see [`number_eq`]).
pub fn number_equal(x: JsonNumber, y: JsonNumber) -> (r: bool)
    ensures
        r == number_eq(x, y),
{
    match (x, y) {
        (JsonNumber::Float(a), JsonNumber::Float(b)) => {
            a == b || ((a == 0 || a == 0x8000_0000_0000_0000) && (b == 0 || b == 0x8000_0000_0000_0000))
        },
        _ => x == y,
    }
}

/// JSON equality: numbers, strings and booleans by value, arrays element
/// by element, objects as maps (same size, and each key of one found in
/// the other with an equal value).
pub open spec fn json_eq(a: JsonView, b: JsonView) -> bool
    decreases a, 0nat,
{
    match a {
        JsonView::Null => b is Null,
        JsonView::Bool(x) => b matches JsonView::Bool(y) && x == y,
        JsonView::Number(x) => b matches JsonView::Number(y) && number_eq(x, y),
        JsonView::Str(x) => b matches JsonView::Str(y) && x == y,
        JsonView::Array(xs) => match b {
            JsonView::Array(ys) => xs.len() == ys.len() && elems_eq_from(xs, ys, 0),
            _ => false,
        },
        JsonView::Object(ps) => match b {
            JsonView::Object(qs) => ps.len() == qs.len() && entries_found_from(ps, qs, 0),
            _ => false,
        },
    }
}

/// `json_eq(xs[k], ys[k])` for every `k` in `i..xs.len()`.
pub open spec fn elems_eq_from(xs: Seq<JsonView>, ys: Seq<JsonView>, i: nat) -> bool
    decreases xs, xs.len() - i,
{
    if i >= xs.len() {
        true
    } else {
        json_eq(xs[i as int], ys[i as int]) && elems_eq_from(xs, ys, i + 1)
    }
}

/// Each entry `ps[k]`, `k` in `i..ps.len()`, has an equal value at its key in `qs`.
pub open spec fn entries_found_from(ps: Seq<(Seq<char>, JsonView)>, qs: Seq<(Seq<char>, JsonView)>, i: nat) -> bool
    decreases ps, ps.len() - i,
{
    if i >= ps.len() {
        true
    } else {
        entry_found(qs, ps[i as int]) && entries_found_from(ps, qs, i + 1)
    }
}

/// `qs` holds at `p`'s key a value equal to `p`'s.
pub open spec fn entry_found(qs: Seq<(Seq<char>, JsonView)>, p: (Seq<char>, JsonView)) -> bool
    decreases p, 0nat,
{
    match entries_get(qs, p.0) {
        Some(w) => json_eq(p.1, w),
        None => false,
    }
}

pub proof fn lemma_entries_get_take(s: Seq<(Seq<char>, JsonView)>, key: Seq<char>, i: int)
    requires
        0 <= i <= s.len(),
        forall|j: int| i <= j < s.len() ==> (#[trigger] s[j]).0 != key,
    ensures
        entries_get(s, key) == entries_get(s.take(i), key),
    decreases s.len() - i,
{
    if i < s.len() {
        assert(s.last() == s[s.len() - 1]);
        assert(s.drop_last().take(i) =~= s.take(i));
        lemma_entries_get_take(s.drop_last(), key, i);
    } else {
        assert(s.take(i) =~= s);
    }
}

pub proof fn lemma_entries_get_push(s: Seq<(Seq<char>, JsonView)>, key: Seq<char>, v: JsonView)
    ensures
        entries_get(s.push((key, v)), key) == Some(v),
        forall|k: Seq<char>| k != key ==> entries_get(s.push((key, v)), k) == entries_get(s, k),
{
    let t = s.push((key, v));
    assert(t.drop_last() =~= s);
    assert(t.last() == (key, v));
}

pub proof fn lemma_entries_get_update(s: Seq<(Seq<char>, JsonView)>, i: int, key: Seq<char>, v: JsonView)
    requires
        0 <= i < s.len(),
        s[i].0 == key,
        forall|j: int| i < j < s.len() ==> (#[trigger] s[j]).0 != key,
    ensures
        entries_get(s.update(i, (key, v)), key) == Some(v),
        forall|k: Seq<char>| k != key ==> entries_get(s.update(i, (key, v)), k) == entries_get(s, k),
    decreases s.len() - i,
{
    let t = s.update(i, (key, v));
    if i == s.len() - 1 {
        assert(t.drop_last() =~= s.drop_last());
        assert(t.last() == (key, v));
        assert forall|k: Seq<char>| k != key implies entries_get(t, k) == entries_get(s, k) by {
            assert(s.last().0 == key);
        }
    } else {
        assert(t.drop_last() =~= s.drop_last().update(i, (key, v)));
        assert(t.last() == s.last());
        assert(s.last() == s[s.len() - 1]);
        lemma_entries_get_update(s.drop_last(), i, key, v);
        assert forall|k: Seq<char>| k != key implies entries_get(t, k) == entries_get(s, k) by {
            assert(entries_get(s.drop_last().update(i, (key, v)), k) == entries_get(s.drop_last(), k));
        }
    }
}

impl JsonView {
    /// The value at `key`, for an object.
    pub open spec fn get(self, key: Seq<char>) -> Option<JsonView> {
        match self {
            JsonView::Object(entries) => entries_get(entries, key),
            _ => None,
        }
    }

    pub open spec fn as_str(self) -> Option<Seq<char>> {
        match self {
            JsonView::Str(s) => Some(s),
            _ => None,
        }
    }

    pub open spec fn as_u64(self) -> Option<u64> {
        match self {
            JsonView::Number(JsonNumber::PosInt(n)) => Some(n),
            _ => None,
        }
    }

    pub open spec fn as_i64(self) -> Option<i64> {
        match self {
            JsonView::Number(JsonNumber::PosInt(n)) => if n <= i64::MAX {
                Some(n as i64)
            } else {
                None
            },
            JsonView::Number(JsonNumber::NegInt(n)) => Some(n),
            _ => None,
        }
    }

    pub open spec fn as_bool(self) -> Option<bool> {
        match self {
            JsonView::Bool(b) => Some(b),
            _ => None,
        }
    }

    pub open spec fn as_array(self) -> Option<Seq<JsonView>> {
        match self {
            JsonView::Array(xs) => Some(xs),
            _ => None,
        }
    }

    pub open spec fn as_object(self) -> Option<Seq<(Seq<char>, JsonView)>> {
        match self {
            JsonView::Object(ps) => Some(ps),
            _ => None,
        }
    }
}

/// The value at the last entry of `ps` whose key is `key`.
pub fn entries_lookup<'a>(ps: &'a Vec<(String, JsonValue)>, key: &str) -> (r: Option<&'a JsonValue>)
    ensures
        match r {
            Some(v) => entries_get(JsonValue::Object(*ps)@->Object_0, key@) == Some(v@),
            None => entries_get(JsonValue::Object(*ps)@->Object_0, key@) is None,
        },
{
    let ghost es = JsonValue::Object(*ps)@->Object_0;
    let mut i: usize = ps.len();
    while i > 0
        invariant
            0 <= i <= ps@.len(),
            es == JsonValue::Object(*ps)@->Object_0,
            es.len() == ps@.len(),
            forall|j: int| 0 <= j < ps@.len() ==> #[trigger] es[j] == (ps@[j].0@, ps@[j].1@),
            forall|j: int| i <= j < ps@.len() ==> (#[trigger] es[j]).0 != key@,
        decreases i,
    {
        if crate::text::str_eq(ps[i - 1].0.as_str(), key) {
            proof {
                lemma_entries_get_take(es, key@, i as int);
                let t = es.take(i as int);
                assert(t.last() == es[i - 1]);
                assert(es[i - 1] == (ps@[i - 1].0@, ps@[i - 1].1@));
            }
            return Some(&ps[i - 1].1);
        }
        i -= 1;
    }
    proof {
        lemma_entries_get_take(es, key@, 0);
        assert(es.take(0).len() == 0);
    }
    None
}

impl JsonValue {
    /// A copy of this value.
    #[verifier::loop_isolation(false)]
    pub fn deep_copy(&self) -> (r: JsonValue)
        ensures
            r@ == self@,
        decreases self,
    {
        match self {
            JsonValue::Null => JsonValue::Null,
            JsonValue::Bool(b) => JsonValue::Bool(*b),
            JsonValue::Number(n) => JsonValue::Number(*n),
            JsonValue::String(s) => JsonValue::String(s.clone()),
            JsonValue::Array(xs) => {
                let mut out: Vec<JsonValue> = Vec::new();
                let mut i: usize = 0;
                while i < xs.len()
                    invariant
                        0 <= i <= xs@.len(),
                        out@.len() == i,
                        forall|j: int| 0 <= j < i ==> (#[trigger] out@[j])@ == xs@[j]@,
                    decreases xs@.len() - i,
                {
                    proof {
                        vstd::std_specs::vec::axiom_vec_index_decreases(*xs, i as int);
                        assert(decreases_to!(*self => self->Array_0));
                        assert(decreases_to!(*self => xs[i as int]));
                    }
                    out.push(xs[i].deep_copy());
                    i += 1;
                }
                let r = JsonValue::Array(out);
                assert(r@->Array_0 =~= self@->Array_0);
                r
            },
            JsonValue::Object(ps) => {
                let mut out: Vec<(String, JsonValue)> = Vec::new();
                let mut i: usize = 0;
                while i < ps.len()
                    invariant
                        0 <= i <= ps@.len(),
                        out@.len() == i,
                        forall|j: int| 0 <= j < i ==> (#[trigger] out@[j]).0@ == ps@[j].0@ && out@[j].1@ == ps@[j].1@,
                    decreases ps@.len() - i,
                {
                    proof {
                        vstd::std_specs::vec::axiom_vec_index_decreases(*ps, i as int);
                        assert(decreases_to!(*self => self->Object_0));
                        assert(decreases_to!(*self => ps[i as int].1));
                    }
                    let v = ps[i].1.deep_copy();
                    out.push((ps[i].0.clone(), v));
                    i += 1;
                }
                let r = JsonValue::Object(out);
                assert(r@->Object_0 =~= self@->Object_0);
                r
            },
        }
    }

    /// The value at `key`, when this is an object (`Value::get`).
    pub fn get(&self, key: &str) -> (r: Option<&JsonValue>)
        ensures
            match r {
                Some(v) => self@.get(key@) == Some(v@),
                None => self@.get(key@) is None,
            },
    {
        match self {
            JsonValue::Object(ps) => entries_lookup(ps, key),
            _ => None,
        }
    }

    pub fn as_str(&self) -> (r: Option<&str>)
        ensures
            match r {
                Some(s) => self@.as_str() == Some(s@),
                None => self@.as_str() is None,
            },
    {
        match self {
            JsonValue::String(s) => Some(s.as_str()),
            _ => None,
        }
    }

    pub fn as_u64(&self) -> (r: Option<u64>)
        ensures
            r == self@.as_u64(),
    {
        match self {
            JsonValue::Number(JsonNumber::PosInt(n)) => Some(*n),
            _ => None,
        }
    }

    pub fn as_i64(&self) -> (r: Option<i64>)
        ensures
            r == self@.as_i64(),
    {
        match self {
            JsonValue::Number(JsonNumber::PosInt(n)) => if *n <= i64::MAX as u64 {
                Some(*n as i64)
            } else {
                None
            },
            JsonValue::Number(JsonNumber::NegInt(n)) => Some(*n),
            _ => None,
        }
    }

    pub fn as_bool(&self) -> (r: Option<bool>)
        ensures
            r == self@.as_bool(),
    {
        match self {
            JsonValue::Bool(b) => Some(*b),
            _ => None,
        }
    }

    pub fn as_array(&self) -> (r: Option<&Vec<JsonValue>>)
        ensures
            match r {
                Some(xs) => self@ == (JsonValue::Array(*xs))@,
                None => self@.as_array() is None,
            },
    {
        match self {
            JsonValue::Array(xs) => Some(xs),
            _ => None,
        }
    }

    pub fn as_object(&self) -> (r: Option<&Vec<(String, JsonValue)>>)
        ensures
            match r {
                Some(ps) => self@ == (JsonValue::Object(*ps))@,
                None => self@.as_object() is None,
            },
    {
        match self {
            JsonValue::Object(ps) => Some(ps),
            _ => None,
        }
    }

    pub fn is_null(&self) -> (r: bool)
        ensures
            r == (self@ is Null),
    {
        matches!(self, JsonValue::Null)
    }

    pub fn is_boolean(&self) -> (r: bool)
        ensures
            r == (self@ is Bool),
    {
        matches!(self, JsonValue::Bool(_))
    }

    pub fn is_number(&self) -> (r: bool)
        ensures
            r == (self@ is Number),
    {
        matches!(self, JsonValue::Number(_))
    }

    pub fn is_string(&self) -> (r: bool)
        ensures
            r == (self@ is Str),
    {
        matches!(self, JsonValue::String(_))
    }

    pub fn is_array(&self) -> (r: bool)
        ensures
            r == (self@ is Array),
    {
        matches!(self, JsonValue::Array(_))
    }

    pub fn is_object(&self) -> (r: bool)
        ensures
            r == (self@ is Object),
    {
        matches!(self, JsonValue::Object(_))
    }
}

impl Clone for JsonValue {
    fn clone(&self) -> (r: Self)
        ensures
            r@ == self@,
    {
        self.deep_copy()
    }
}

/// JSON equality of two values (`Value`'s `==`).
#[verifier::loop_isolation(false)]
pub fn json_equal(a: &JsonValue, b: &JsonValue) -> (r: bool)
    ensures
        r == json_eq(a@, b@),
    decreases a,
{
    match a {
        JsonValue::Null => matches!(b, JsonValue::Null),
        JsonValue::Bool(x) => match b {
            JsonValue::Bool(y) => *x == *y,
            _ => false,
        },
        JsonValue::Number(x) => match b {
            JsonValue::Number(y) => number_equal(*x, *y),
            _ => false,
        },
        JsonValue::String(x) => match b {
            JsonValue::String(y) => crate::text::str_eq(x.as_str(), y.as_str()),
            _ => false,
        },
        JsonValue::Array(xs) => match b {
            JsonValue::Array(ys) => {
                if xs.len() != ys.len() {
                    return false;
                }
                let ghost av = a@->Array_0;
                let ghost bv = b@->Array_0;
                let mut i: usize = 0;
                while i < xs.len()
                    invariant
                        0 <= i <= xs@.len(),
                        json_eq(a@, b@) == elems_eq_from(av, bv, i as nat),
                    decreases xs@.len() - i,
                {
                    let e = json_equal(&xs[i], &ys[i]);
                    assert(av[i as int] == xs@[i as int]@);
                    assert(bv[i as int] == ys@[i as int]@);
                    if !e {
                        return false;
                    }
                    i += 1;
                }
                true
            },
            _ => false,
        },
        JsonValue::Object(ps) => match b {
            JsonValue::Object(qs) => {
                if ps.len() != qs.len() {
                    return false;
                }
                let ghost av = a@->Object_0;
                let ghost bv = b@->Object_0;
                let mut i: usize = 0;
                while i < ps.len()
                    invariant
                        0 <= i <= ps@.len(),
                        json_eq(a@, b@) == entries_found_from(av, bv, i as nat),
                    decreases ps@.len() - i,
                {
                    assert(av[i as int] == (ps@[i as int].0@, ps@[i as int].1@));
                    assert(bv == JsonValue::Object(*qs)@->Object_0);
                    match entries_lookup(qs, ps[i].0.as_str()) {
                        Some(w) => {
                            assert(entries_get(bv, av[i as int].0) == Some(w@));
                            let e = json_equal(&ps[i].1, w);
                            assert(e == json_eq(av[i as int].1, w@));
                            assert(e == entry_found(bv, av[i as int]));
                            if !e {
                                return false;
                            }
                        },
                        None => {
                            assert(entries_get(bv, av[i as int].0) is None);
                            assert(!entry_found(bv, av[i as int]));
                            return false;
                        },
                    }
                    i += 1;
                }
                true
            },
            _ => false,
        },
    }
}

} // verus!
