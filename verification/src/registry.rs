//! A registry of tools keyed by name, kept in ascending name order.

use vstd::prelude::*;
use crate::text::{chars_of, sviews};
use crate::tool::ToolDef;

verus! {

/// Whether `a` comes before `b` in the order of `String`'s `Ord`:
/// lexicographic by code point, a proper prefix first.
pub open spec fn name_lt(a: Seq<char>, b: Seq<char>) -> bool
    decreases a.len(),
{
    if a.len() == 0 {
        b.len() > 0
    } else if b.len() == 0 {
        false
    } else if a[0] != b[0] {
        (a[0] as int) < (b[0] as int)
    } else {
        name_lt(a.drop_first(), b.drop_first())
    }
}

pub proof fn lemma_name_lt_irreflexive(a: Seq<char>)
    ensures
        !name_lt(a, a),
    decreases a.len(),
{
    if a.len() > 0 {
        lemma_name_lt_irreflexive(a.drop_first());
    }
}

pub proof fn lemma_name_lt_transitive(a: Seq<char>, b: Seq<char>, c: Seq<char>)
    requires
        name_lt(a, b),
        name_lt(b, c),
    ensures
        name_lt(a, c),
    decreases a.len(),
{
    if a.len() > 0 && b.len() > 0 && c.len() > 0 && a[0] == b[0] && b[0] == c[0] {
        lemma_name_lt_transitive(a.drop_first(), b.drop_first(), c.drop_first());
    }
}

pub proof fn lemma_name_lt_total(a: Seq<char>, b: Seq<char>)
    requires
        a != b,
    ensures
        name_lt(a, b) || name_lt(b, a),
    decreases a.len(),
{
    if a.len() > 0 && b.len() > 0 && a[0] == b[0] {
        if a.drop_first() == b.drop_first() {
            assert(a =~= seq![a[0]] + a.drop_first());
            assert(b =~= seq![b[0]] + b.drop_first());
        }
        lemma_name_lt_total(a.drop_first(), b.drop_first());
    } else if a.len() == 0 && b.len() == 0 {
        assert(a =~= b);
    }
}

/// The names of the entries of `s`.
pub open spec fn reg_names<T>(s: Seq<(Seq<char>, T)>) -> Seq<Seq<char>> {
    Seq::new(s.len(), |i: int| s[i].0)
}

/// Whether the names of `s` ascend strictly.
pub open spec fn names_ascend<T>(s: Seq<(Seq<char>, T)>) -> bool {
    forall|i: int, j: int| 0 <= i < j < s.len() ==> name_lt(#[trigger] s[i].0, #[trigger] s[j].0)
}

/// The value stored under `k` in `s`: that of the first entry named `k`.
pub open spec fn reg_get<T>(s: Seq<(Seq<char>, T)>, k: Seq<char>) -> Option<T>
    decreases s.len(),
{
    if s.len() == 0 {
        None
    } else if s[0].0 == k {
        Some(s[0].1)
    } else {
        reg_get(s.drop_first(), k)
    }
}

/// The number of leading entries of `s` whose names come before `k`.
pub open spec fn insert_pos<T>(s: Seq<(Seq<char>, T)>, k: Seq<char>) -> nat
    decreases s.len(),
{
    if s.len() == 0 || !name_lt(s[0].0, k) {
        0
    } else {
        1 + insert_pos(s.drop_first(), k)
    }
}

/// `s` with `v` stored under `k`: the entry named `k` replaced, or a new
/// entry put where `k` belongs in name order.
pub open spec fn reg_insert<T>(s: Seq<(Seq<char>, T)>, k: Seq<char>, v: T) -> Seq<(Seq<char>, T)> {
    let p = insert_pos(s, k) as int;
    if p < s.len() && s[p].0 == k {
        s.update(p, (k, v))
    } else {
        s.insert(p, (k, v))
    }
}

proof fn lemma_insert_pos_is<T>(s: Seq<(Seq<char>, T)>, k: Seq<char>, i: int)
    requires
        0 <= i <= s.len(),
        forall|j: int| 0 <= j < i ==> name_lt(#[trigger] s[j].0, k),
        i == s.len() || !name_lt(s[i].0, k),
    ensures
        insert_pos(s, k) == i,
    decreases i,
{
    if i > 0 {
        assert forall|j: int| 0 <= j < i - 1 implies name_lt(#[trigger] s.drop_first()[j].0, k) by {
            assert(s.drop_first()[j] == s[j + 1]);
        }
        lemma_insert_pos_is(s.drop_first(), k, i - 1);
    }
}

proof fn lemma_insert_pos_bounds<T>(s: Seq<(Seq<char>, T)>, k: Seq<char>)
    ensures
        insert_pos(s, k) <= s.len(),
        forall|j: int| 0 <= j < insert_pos(s, k) ==> name_lt(#[trigger] s[j].0, k),
        insert_pos(s, k) < s.len() ==> !name_lt(s[insert_pos(s, k) as int].0, k),
    decreases s.len(),
{
    if s.len() > 0 && name_lt(s[0].0, k) {
        lemma_insert_pos_bounds(s.drop_first(), k);
        assert forall|j: int| 0 <= j < insert_pos(s, k) implies name_lt(#[trigger] s[j].0, k) by {
            if j > 0 {
                assert(s[j] == s.drop_first()[j - 1]);
            }
        }
    }
}

/// `reg_get` finds the value of the entry at `i` when no entry before it
/// has the name.
proof fn lemma_reg_get_at<T>(s: Seq<(Seq<char>, T)>, k: Seq<char>, i: int)
    requires
        0 <= i <= s.len(),
        forall|j: int| 0 <= j < i ==> (#[trigger] s[j]).0 != k,
    ensures
        reg_get(s, k) == (if i < s.len() && s[i].0 == k {
            Some(s[i].1)
        } else {
            reg_get(s.skip(i), k)
        }),
    decreases i,
{
    if i == 0 {
        assert(s.skip(0) =~= s);
    } else {
        assert forall|j: int| 0 <= j < i - 1 implies (#[trigger] s.drop_first()[j]).0 != k by {
            assert(s.drop_first()[j] == s[j + 1]);
        }
        lemma_reg_get_at(s.drop_first(), k, i - 1);
        assert(s.drop_first().skip(i - 1) =~= s.skip(i));
    }
}

/// Whether some entry of `s` is named `k`.
pub open spec fn has_name<T>(s: Seq<(Seq<char>, T)>, k: Seq<char>) -> bool {
    exists|i: int| 0 <= i < s.len() && (#[trigger] s[i]).0 == k
}

proof fn lemma_reg_get_some<T>(s: Seq<(Seq<char>, T)>, k: Seq<char>)
    ensures
        reg_get(s, k) is Some <==> has_name(s, k),
    decreases s.len(),
{
    if s.len() > 0 {
        lemma_reg_get_some(s.drop_first(), k);
        if has_name(s.drop_first(), k) {
            let i = choose|i: int| 0 <= i < s.drop_first().len() && (#[trigger] s.drop_first()[i]).0 == k;
            assert(s[i + 1].0 == k);
        }
        if has_name(s, k) && s[0].0 != k {
            let i = choose|i: int| 0 <= i < s.len() && (#[trigger] s[i]).0 == k;
            assert(s.drop_first()[i - 1].0 == k);
        }
    }
}

/// Storing under a name other than `k` leaves what `k` finds unchanged.
proof fn lemma_reg_get_other<T>(s: Seq<(Seq<char>, T)>, k: Seq<char>, name: Seq<char>, v: T)
    requires
        k != name,
    ensures
        reg_get(s.insert(insert_pos(s, name) as int, (name, v)), k) == reg_get(s, k),
        insert_pos(s, name) < s.len() ==> reg_get(s.update(insert_pos(s, name) as int, (name, v)), k) == reg_get(s, k)
            || s[insert_pos(s, name) as int].0 != name,
    decreases s.len(),
{
    lemma_insert_pos_bounds(s, name);
    let p = insert_pos(s, name) as int;
    if p == 0 {
        assert(s.insert(0, (name, v)).drop_first() =~= s);
        if s.len() > 0 && s[0].0 == name {
            assert(s.update(0, (name, v)).drop_first() =~= s.drop_first());
        }
    } else {
        lemma_reg_get_other(s.drop_first(), k, name, v);
        assert(insert_pos(s.drop_first(), name) == p - 1);
        assert(s.insert(p, (name, v)).drop_first() =~= s.drop_first().insert(p - 1, (name, v)));
        if p < s.len() {
            assert(s.update(p, (name, v)).drop_first() =~= s.drop_first().update(p - 1, (name, v)));
        }
    }
}

/// Registering a tool under a name and then looking the name up finds
/// that tool.
pub proof fn law_get_after_register<T>(s: Seq<(Seq<char>, T)>, name: Seq<char>, tool: T)
    ensures
        reg_get(reg_insert(s, name, tool), name) == Some(tool),
{
    lemma_insert_pos_bounds(s, name);
    let p = insert_pos(s, name) as int;
    let t = reg_insert(s, name, tool);
    assert forall|j: int| 0 <= j < p implies (#[trigger] t[j]).0 != name by {
        assert(t[j] == s[j]);
        assert(name_lt(s[j].0, name));
        lemma_name_lt_irreflexive(name);
    }
    lemma_reg_get_at(t, name, p);
}

/// Registering a tool under one name leaves what every other name finds
/// unchanged.
pub proof fn law_register_keeps_others<T>(s: Seq<(Seq<char>, T)>, name: Seq<char>, tool: T, other: Seq<char>)
    requires
        other != name,
    ensures
        reg_get(reg_insert(s, name, tool), other) == reg_get(s, other),
{
    lemma_reg_get_other(s, other, name, tool);
}

/// In a registry whose names ascend, registering under a new name adds
/// one entry, and under a name already there replaces its entry.
pub proof fn law_register_len<T>(s: Seq<(Seq<char>, T)>, name: Seq<char>, tool: T)
    requires
        names_ascend(s),
    ensures
        reg_insert(s, name, tool).len() == s.len() + (if reg_get(s, name) is Some {
            0int
        } else {
            1int
        }),
{
    lemma_insert_pos_bounds(s, name);
    lemma_reg_get_some(s, name);
    let p = insert_pos(s, name) as int;
    if has_name(s, name) {
        let i = choose|i: int| 0 <= i < s.len() && (#[trigger] s[i]).0 == name;
        if i < p {
            assert(name_lt(s[i].0, name));
            lemma_name_lt_irreflexive(name);
        } else if i > p {
            assert(name_lt(s[p].0, s[i].0));
            if s[p].0 != name {
                lemma_name_lt_total(s[p].0, name);
            }
        }
    } else if p < s.len() {
        assert(s[p].0 != name);
    }
}

/// A registry of tools keyed by name, in ascending name order.
pub struct ToolRegistry<T> {
    entries: Vec<(String, T)>,
}

impl<T> ToolRegistry<T> {
    /// The entries, in name order, with their names as character sequences.
    pub closed spec fn view(&self) -> Seq<(Seq<char>, T)> {
        Seq::new(self.entries@.len(), |i: int| (self.entries@[i].0@, self.entries@[i].1))
    }

    #[verifier::type_invariant]
    closed spec fn names_in_order(self) -> bool {
        names_ascend(self.view())
    }

    /// An empty registry.
    pub fn new() -> (r: Self)
        ensures
            r.view().len() == 0,
    {
        let r = ToolRegistry { entries: Vec::new() };
        assert(r.view() =~= Seq::<(Seq<char>, T)>::empty());
        r
    }

    /// Register a tool under `name`, replacing the tool already there.
    pub fn register(&mut self, name: String, tool: T)
        ensures
            final(self).view() == reg_insert(old(self).view(), name@, tool),
    {
        proof {
            use_type_invariant(&*self);
        }
        let ghost s = self.view();
        let mut entries: Vec<(String, T)> = Vec::new();
        std::mem::swap(&mut entries, &mut self.entries);
        assert(Seq::new(entries@.len(), |i: int| (entries@[i].0@, entries@[i].1)) =~= s);
        let mut i: usize = 0;
        while i < entries.len() && str_lt(entries[i].0.as_str(), name.as_str())
            invariant
                s == Seq::new(entries@.len(), |j: int| (entries@[j].0@, entries@[j].1)),
                0 <= i <= entries@.len(),
                forall|j: int| 0 <= j < i ==> name_lt(#[trigger] s[j].0, name@),
            decreases entries@.len() - i,
        {
            assert(s[i as int].0 == entries@[i as int].0@);
            i += 1;
        }
        proof {
            if i < entries@.len() {
                assert(s[i as int].0 == entries@[i as int].0@);
            }
            lemma_insert_pos_is(s, name@, i as int);
        }
        let ghost nv = name@;
        if i < entries.len() && str_eq_names(entries[i].0.as_str(), name.as_str()) {
            assert(s[i as int].0 == nv);
            entries.set(i, (name, tool));
            let ghost t = Seq::new(entries@.len(), |j: int| (entries@[j].0@, entries@[j].1));
            proof {
                assert(t =~= s.update(i as int, (nv, tool)));
                assert forall|a: int, b: int| 0 <= a < b < t.len() implies name_lt(#[trigger] t[a].0, #[trigger] t[b].0) by {
                    assert(name_lt(s[a].0, s[b].0));
                }
            }
        } else {
            proof {
                if i < entries@.len() {
                    assert(s[i as int].0 != nv);
                    lemma_name_lt_total(s[i as int].0, nv);
                }
            }
            entries.insert(i, (name, tool));
            let ghost t = Seq::new(entries@.len(), |j: int| (entries@[j].0@, entries@[j].1));
            proof {
                assert(t =~= s.insert(i as int, (nv, tool)));
                assert forall|a: int, b: int| 0 <= a < b < t.len() implies name_lt(#[trigger] t[a].0, #[trigger] t[b].0) by {
                    if b < i {
                        assert(name_lt(s[a].0, s[b].0));
                    } else if b == i {
                        assert(name_lt(s[a].0, nv));
                    } else if a == i {
                        if b - 1 > i {
                            assert(name_lt(s[i as int].0, s[b - 1].0));
                            lemma_name_lt_transitive(nv, s[i as int].0, s[b - 1].0);
                        }
                    } else if a < i {
                        assert(name_lt(s[a].0, s[b - 1].0));
                    } else {
                        assert(name_lt(s[a - 1].0, s[b - 1].0));
                    }
                }
            }
        }
        self.entries = entries;
    }

    /// The tool registered under `name`.
    pub fn get(&self, name: &str) -> (r: Option<&T>)
        ensures
            match r {
                Some(t) => reg_get(self.view(), name@) == Some(*t),
                None => reg_get(self.view(), name@) is None,
            },
    {
        let ghost s = self.view();
        let mut i: usize = 0;
        while i < self.entries.len()
            invariant
                s == self.view(),
                0 <= i <= s.len(),
                forall|j: int| 0 <= j < i ==> (#[trigger] s[j]).0 != name@,
            decreases s.len() - i,
        {
            assert(s[i as int].0 == self.entries@[i as int].0@);
            if str_eq_names(self.entries[i].0.as_str(), name) {
                proof {
                    lemma_reg_get_at(s, name@, i as int);
                }
                return Some(&self.entries[i].1);
            }
            i += 1;
        }
        proof {
            lemma_reg_get_at(s, name@, i as int);
            assert(s.skip(i as int).len() == 0);
        }
        None
    }

    /// The names of the registered tools, in ascending order.
    pub fn names(&self) -> (r: Vec<String>)
        ensures
            sviews(r@) == reg_names(self.view()),
            names_ascend(self.view()),
    {
        proof {
            use_type_invariant(self);
        }
        let ghost s = self.view();
        let mut out: Vec<String> = Vec::new();
        let mut i: usize = 0;
        while i < self.entries.len()
            invariant
                s == self.view(),
                0 <= i <= s.len(),
                sviews(out@) == reg_names(s.take(i as int)),
            decreases s.len() - i,
        {
            let ghost before = sviews(out@);
            let n = self.entries[i].0.clone();
            assert(n@ == s[i as int].0);
            out.push(n);
            assert(sviews(out@) =~= before.push(s[i as int].0));
            assert(reg_names(s.take(i + 1)) =~= reg_names(s.take(i as int)).push(s[i as int].0));
            i += 1;
        }
        assert(s.take(s.len() as int) =~= s);
        out
    }

    /// The registered tools, in ascending order of their names.
    pub fn tools(&self) -> (r: Vec<&T>)
        ensures
            names_ascend(self.view()),
            r@.len() == self.view().len(),
            forall|i: int| 0 <= i < r@.len() ==> *(#[trigger] r@[i]) == self.view()[i].1,
    {
        proof {
            use_type_invariant(self);
        }
        let ghost s = self.view();
        let mut out: Vec<&T> = Vec::new();
        let mut i: usize = 0;
        while i < self.entries.len()
            invariant
                s == self.view(),
                0 <= i <= s.len(),
                out@.len() == i,
                forall|j: int| 0 <= j < i ==> *(#[trigger] out@[j]) == s[j].1,
            decreases s.len() - i,
        {
            out.push(&self.entries[i].1);
            i += 1;
        }
        out
    }

    /// Number of registered tools.
    pub fn len(&self) -> (r: usize)
        ensures
            r == self.view().len(),
    {
        self.entries.len()
    }

    /// Whether the registry is empty.
    pub fn is_empty(&self) -> (r: bool)
        ensures
            r == (self.view().len() == 0),
    {
        self.entries.len() == 0
    }
}

/// Whether each entry of `s` is registered under the name of the
/// definition it holds.
pub open spec fn keyed_by_def_name<U>(s: Seq<(Seq<char>, (ToolDef, U))>) -> bool {
    forall|i: int| 0 <= i < s.len() ==> (#[trigger] s[i]).0 == s[i].1.0.name@
}

/// Registering a tool under its definition's name keeps every entry
/// registered under its definition's name.
pub proof fn law_register_def_keeps_names<U>(s: Seq<(Seq<char>, (ToolDef, U))>, def: ToolDef, tool: U)
    requires
        keyed_by_def_name(s),
    ensures
        keyed_by_def_name(reg_insert(s, def.name@, (def, tool))),
{
    let t = reg_insert(s, def.name@, (def, tool));
    let p = insert_pos(s, def.name@) as int;
    lemma_insert_pos_bounds(s, def.name@);
    assert forall|i: int| 0 <= i < t.len() implies (#[trigger] t[i]).0 == t[i].1.0.name@ by {
        if p < s.len() && s[p].0 == def.name@ {
            if i != p {
                assert(t[i] == s[i]);
            }
        } else {
            if i < p {
                assert(t[i] == s[i]);
            } else if i > p {
                assert(t[i] == s[i - 1]);
            }
        }
    }
}

impl<U> ToolRegistry<(ToolDef, U)> {
    /// Register a tool under the name its definition gives, replacing the
    /// tool already there.
    pub fn register_def(&mut self, def: ToolDef, tool: U)
        ensures
            final(self).view() == reg_insert(old(self).view(), def.name@, (def, tool)),
            keyed_by_def_name(old(self).view()) ==> keyed_by_def_name(final(self).view()),
    {
        let name = def.name.clone();
        proof {
            if keyed_by_def_name(self.view()) {
                law_register_def_keeps_names(self.view(), def, tool);
            }
        }
        self.register(name, (def, tool));
    }

    /// The definitions of the registered tools, in ascending order of the
    /// names they are registered under: when each is registered under its
    /// own name, their names ascend, so no name occurs twice.
    pub fn list_defs(&self) -> (r: Vec<ToolDef>)
        ensures
            r@.len() == self.view().len(),
            forall|i: int| 0 <= i < r@.len() ==> {
                &&& (#[trigger] r@[i]).name@ == self.view()[i].1.0.name@
                &&& r@[i].description@ == self.view()[i].1.0.description@
                &&& r@[i].input_schema@ == self.view()[i].1.0.input_schema@
            },
            keyed_by_def_name(self.view()) ==> forall|i: int, j: int|
                0 <= i < j < r@.len() ==> name_lt(#[trigger] r@[i].name@, #[trigger] r@[j].name@),
    {
        let tools = self.tools();
        let ghost s = self.view();
        let mut out: Vec<ToolDef> = Vec::new();
        let mut i: usize = 0;
        while i < tools.len()
            invariant
                s == self.view(),
                names_ascend(s),
                tools@.len() == s.len(),
                forall|k: int| 0 <= k < tools@.len() ==> *(#[trigger] tools@[k]) == s[k].1,
                0 <= i <= tools@.len(),
                out@.len() == i,
                forall|k: int| 0 <= k < i ==> {
                    &&& (#[trigger] out@[k]).name@ == s[k].1.0.name@
                    &&& out@[k].description@ == s[k].1.0.description@
                    &&& out@[k].input_schema@ == s[k].1.0.input_schema@
                },
            decreases tools@.len() - i,
        {
            assert(*tools@[i as int] == s[i as int].1);
            let d = tools[i].0.clone();
            out.push(d);
            i += 1;
        }
        proof {
            if keyed_by_def_name(s) {
                assert forall|a: int, b: int| 0 <= a < b < out@.len() implies name_lt(#[trigger] out@[a].name@, #[trigger] out@[b].name@) by {
                    assert(s[a].0 == s[a].1.0.name@);
                    assert(s[b].0 == s[b].1.0.name@);
                    assert(name_lt(s[a].0, s[b].0));
                }
            }
        }
        out
    }
}

/// Whether `a` comes before `b` (see [`name_lt`]).
pub fn str_lt(a: &str, b: &str) -> (r: bool)
    ensures
        r == name_lt(a@, b@),
{
    let v = chars_of(a);
    let w = chars_of(b);
    let mut i: usize = 0;
    assert(v@.skip(0) =~= v@);
    assert(w@.skip(0) =~= w@);
    while i < v.len() && i < w.len() && v[i] == w[i]
        invariant
            v@ == a@,
            w@ == b@,
            0 <= i <= v@.len(),
            i <= w@.len(),
            name_lt(a@, b@) == name_lt(v@.skip(i as int), w@.skip(i as int)),
        decreases v@.len() - i,
    {
        assert(v@.skip(i as int).drop_first() =~= v@.skip(i + 1));
        assert(w@.skip(i as int).drop_first() =~= w@.skip(i + 1));
        i += 1;
    }
    if i == v.len() {
        i < w.len()
    } else if i == w.len() {
        false
    } else {
        v[i] < w[i]
    }
}

/// Whether `a` and `b` are the same name.
fn str_eq_names(a: &str, b: &str) -> (r: bool)
    ensures
        r == (a@ == b@),
{
    crate::text::str_eq(a, b)
}

} // verus!
