//! The names under which an account or a contract knows keys of the global state.
use crate::key::Key;
use vstd::prelude::*;
use vstd::utf8::{encode_utf8, encode_utf8_decode_utf8};

verus! {

/// The key under `name` in `entries`, the first such entry if several.
pub open spec fn key_named(entries: Seq<(Seq<char>, Key)>, name: Seq<char>) -> Option<Key>
    decreases entries.len(),
{
    if entries.len() == 0 {
        None
    } else if entries[0].0 == name {
        Some(entries[0].1)
    } else {
        key_named(entries.drop_first(), name)
    }
}

/// The first key in `entries` that, stripped of access rights, is `target`.
pub open spec fn first_key_normalizing_to(entries: Seq<(Seq<char>, Key)>, target: Key) -> Option<
    Key,
>
    decreases entries.len(),
{
    if entries.len() == 0 {
        None
    } else if entries[0].1.normalized() == target {
        Some(entries[0].1)
    } else {
        first_key_normalizing_to(entries.drop_first(), target)
    }
}

/// No name occurs twice.
pub open spec fn names_distinct(entries: Seq<(Seq<char>, Key)>) -> bool {
    forall|i: int, j: int|
        0 <= i < entries.len() && 0 <= j < entries.len() && i != j ==> #[trigger] entries[i].0
            != #[trigger] entries[j].0
}

/// Whether the bytes `a` come strictly before the bytes `b` in lexicographic order.
pub open spec fn bytes_lt(a: Seq<u8>, b: Seq<u8>) -> bool
    decreases a.len(),
{
    if a.len() == 0 {
        b.len() > 0
    } else if b.len() == 0 {
        false
    } else if a[0] != b[0] {
        a[0] < b[0]
    } else {
        bytes_lt(a.drop_first(), b.drop_first())
    }
}

/// Whether the name `a` comes strictly before the name `b` in the order of strings:
/// that of their UTF-8 bytes.
pub open spec fn name_before(a: Seq<char>, b: Seq<char>) -> bool {
    bytes_lt(encode_utf8(a), encode_utf8(b))
}

/// The names come in strictly increasing order.
pub open spec fn names_sorted(entries: Seq<(Seq<char>, Key)>) -> bool {
    forall|i: int, j: int|
        0 <= i < j < entries.len() ==> name_before(#[trigger] entries[i].0, #[trigger] entries[j].0)
}

/// No byte string comes before itself.
pub proof fn lemma_bytes_lt_irreflexive(a: Seq<u8>)
    ensures
        !bytes_lt(a, a),
    decreases a.len(),
{
    if a.len() > 0 {
        lemma_bytes_lt_irreflexive(a.drop_first());
    }
}

/// Lexicographic order on bytes is transitive.
pub proof fn lemma_bytes_lt_transitive(a: Seq<u8>, b: Seq<u8>, c: Seq<u8>)
    requires
        bytes_lt(a, b),
        bytes_lt(b, c),
    ensures
        bytes_lt(a, c),
    decreases a.len(),
{
    if a.len() > 0 && b.len() > 0 && c.len() > 0 && a[0] == b[0] && b[0] == c[0] {
        lemma_bytes_lt_transitive(a.drop_first(), b.drop_first(), c.drop_first());
    }
}

/// Of two different byte strings, one comes before the other.
pub proof fn lemma_bytes_lt_total(a: Seq<u8>, b: Seq<u8>)
    requires
        a != b,
    ensures
        bytes_lt(a, b) || bytes_lt(b, a),
    decreases a.len(),
{
    if a.len() == 0 && b.len() == 0 {
        assert(a =~= b);
    } else if a.len() > 0 && b.len() > 0 && a[0] == b[0] {
        if a.drop_first() =~= b.drop_first() {
            assert forall|i: int| 0 <= i < a.len() implies a[i] == b[i] by {
                if i > 0 {
                    assert(a[i] == a.drop_first()[i - 1]);
                    assert(b[i] == b.drop_first()[i - 1]);
                }
            }
            assert(a =~= b);
        }
        lemma_bytes_lt_total(a.drop_first(), b.drop_first());
    }
}

/// Of two different names, one comes before the other, and a name never comes before
/// itself.
pub proof fn lemma_name_order(a: Seq<char>, b: Seq<char>)
    ensures
        !name_before(a, a),
        a != b ==> name_before(a, b) || name_before(b, a),
{
    lemma_bytes_lt_irreflexive(encode_utf8(a));
    if a != b {
        encode_utf8_decode_utf8(a);
        encode_utf8_decode_utf8(b);
        lemma_bytes_lt_total(encode_utf8(a), encode_utf8(b));
    }
}

/// Names in strictly increasing order are distinct.
proof fn lemma_sorted_distinct(entries: Seq<(Seq<char>, Key)>)
    requires
        names_sorted(entries),
    ensures
        names_distinct(entries),
{
    assert forall|i: int, j: int|
        0 <= i < entries.len() && 0 <= j < entries.len() && i != j implies #[trigger] entries[i].0
        != #[trigger] entries[j].0 by {
        lemma_name_order(entries[i].0, entries[i].0);
        if i < j {
            assert(name_before(entries[i].0, entries[j].0));
        } else {
            assert(name_before(entries[j].0, entries[i].0));
        }
    }
}

/// Whether the bytes `a` come strictly before the bytes `b`.
fn bytes_less(a: &[u8], b: &[u8]) -> (r: bool)
    ensures
        r == bytes_lt(a@, b@),
{
    let mut k: usize = 0;
    proof {
        assert(a@.skip(0) =~= a@);
        assert(b@.skip(0) =~= b@);
    }
    while k < a.len() && k < b.len()
        invariant
            k <= a.len(),
            k <= b.len(),
            bytes_lt(a@, b@) == bytes_lt(a@.skip(k as int), b@.skip(k as int)),
        decreases a.len() - k,
    {
        assert(a@.skip(k as int)[0] == a[k as int]);
        assert(b@.skip(k as int)[0] == b[k as int]);
        if a[k] != b[k] {
            return a[k] < b[k];
        }
        assert(a@.skip(k as int).drop_first() =~= a@.skip(k + 1));
        assert(b@.skip(k as int).drop_first() =~= b@.skip(k + 1));
        k = k + 1;
    }
    k == a.len() && k < b.len()
}

/// Whether the name `a` comes strictly before the name `b`.
fn name_less(a: &String, b: &String) -> (r: bool)
    ensures
        r == name_before(a@, b@),
{
    bytes_less(a.as_str().as_bytes(), b.as_str().as_bytes())
}

/// Where a name occurs once, looking it up finds that occurrence.
proof fn lemma_key_named_at(entries: Seq<(Seq<char>, Key)>, name: Seq<char>, i: int)
    requires
        0 <= i < entries.len(),
        entries[i].0 == name,
        forall|j: int| 0 <= j < i ==> entries[j].0 != name,
    ensures
        key_named(entries, name) == Some(entries[i].1),
    decreases i,
{
    if i > 0 {
        lemma_key_named_at(entries.drop_first(), name, i - 1);
    }
}

/// A name that occurs nowhere is not found.
proof fn lemma_key_named_absent(entries: Seq<(Seq<char>, Key)>, name: Seq<char>)
    requires
        forall|j: int| 0 <= j < entries.len() ==> entries[j].0 != name,
    ensures
        key_named(entries, name) is None,
    decreases entries.len(),
{
    if entries.len() > 0 {
        lemma_key_named_absent(entries.drop_first(), name);
    }
}

/// Among distinct names, looking one up finds the key at its place, or nothing where it
/// occurs nowhere.
proof fn lemma_key_named_distinct(entries: Seq<(Seq<char>, Key)>, name: Seq<char>)
    requires
        names_distinct(entries),
    ensures
        forall|j: int|
            0 <= j < entries.len() && #[trigger] entries[j].0 == name ==> key_named(entries, name)
                == Some(entries[j].1),
        (forall|j: int| 0 <= j < entries.len() ==> entries[j].0 != name) ==> key_named(
            entries,
            name,
        ) is None,
{
    assert forall|j: int| 0 <= j < entries.len() && #[trigger] entries[j].0 == name implies key_named(
        entries,
        name,
    ) == Some(entries[j].1) by {
        assert forall|k: int| 0 <= k < j implies entries[k].0 != name by {
            assert(entries[k].0 != entries[j].0);
        }
        lemma_key_named_at(entries, name, j);
    }
    if forall|j: int| 0 <= j < entries.len() ==> entries[j].0 != name {
        lemma_key_named_absent(entries, name);
    }
}

/// Named keys, in the order of their names, as the owner's map lists them; no name
/// occurs twice.
#[derive(Clone, Debug)]
pub struct NamedKeys {
    entries: Vec<(String, Key)>,
}

impl View for NamedKeys {
    type V = Seq<(Seq<char>, Key)>;

    closed spec fn view(&self) -> Seq<(Seq<char>, Key)> {
        self.entries@.map_values(|e: (String, Key)| (e.0@, e.1))
    }
}

impl NamedKeys {
    /// The names come in strictly increasing order, so none occurs twice.
    pub open spec fn wf(&self) -> bool {
        names_sorted(self@)
    }

    /// Names that come in increasing order occur once each.
    pub proof fn lemma_names_distinct(&self)
        requires
            self.wf(),
        ensures
            names_distinct(self@),
    {
        lemma_sorted_distinct(self@);
    }

    /// No names.
    pub fn new() -> (r: NamedKeys)
        ensures
            r@ == Seq::<(Seq<char>, Key)>::empty(),
            r.wf(),
    {
        let r = NamedKeys { entries: Vec::new() };
        assert(r@ =~= Seq::<(Seq<char>, Key)>::empty());
        r
    }

    /// Puts `key` under `name`: replaces the key of an existing name in its place, or
    /// inserts the new name where the order of names puts it.
    pub fn insert(&mut self, name: String, key: Key)
        requires
            old(self).wf(),
        ensures
            final(self).wf(),
            key_named(old(self)@, name@) is Some ==> exists|i: int|
                0 <= i < old(self)@.len() && old(self)@[i].0 == name@ && final(self)@ == old(
                    self,
                )@.update(i, (name@, key)),
            key_named(old(self)@, name@) is None ==> exists|i: int|
                0 <= i <= old(self)@.len() && final(self)@ == old(self)@.insert(i, (name@, key)),
            key_named(final(self)@, name@) == Some(key),
            forall|n: Seq<char>|
                n != name@ ==> #[trigger] key_named(final(self)@, n) == key_named(old(self)@, n),
    {
        let ghost before = self@;
        let mut i: usize = 0;
        while i < self.entries.len() && name_less(&self.entries[i].0, &name)
            invariant
                i <= self.entries.len(),
                self@.len() == self.entries.len(),
                self@ == before,
                names_sorted(before),
                forall|j: int| 0 <= j < i ==> name_before(#[trigger] before[j].0, name@),
            decreases self.entries.len() - i,
        {
            assert(self@[i as int] == (self.entries[i as int].0@, self.entries[i as int].1));
            i = i + 1;
        }
        proof {
            lemma_sorted_distinct(before);
            lemma_name_order(name@, name@);
            assert forall|j: int| 0 <= j < i implies before[j].0 != name@ by {
                assert(name_before(before[j].0, name@));
            }
        }
        if i < self.entries.len() {
            assert(self@[i as int] == (self.entries[i as int].0@, self.entries[i as int].1));
        }
        if i < self.entries.len() && self.entries[i].0 == name {
            self.entries.set(i, (name, key));
            proof {
                assert(self@ =~= before.update(i as int, (name@, key)));
                assert forall|a: int, b: int| 0 <= a < b < self@.len() implies name_before(
                    #[trigger] self@[a].0,
                    #[trigger] self@[b].0,
                ) by {
                    assert(name_before(before[a].0, before[b].0));
                }
                lemma_key_named_at(before, name@, i as int);
                lemma_sorted_distinct(self@);
                lemma_key_named_distinct(self@, name@);
                assert(self@[i as int].0 == name@);
                assert forall|n: Seq<char>| n != name@ implies #[trigger] key_named(self@, n)
                    == key_named(before, n) by {
                    lemma_key_named_distinct(self@, n);
                    lemma_key_named_distinct(before, n);
                    assert forall|j: int| 0 <= j < before.len() implies (before[j].0 == n
                        <==> self@[j].0 == n) by {
                        if j != i {
                            assert(self@[j] == before[j]);
                        }
                    }
                    if exists|j: int| 0 <= j < before.len() && before[j].0 == n {
                        let j = choose|j: int| 0 <= j < before.len() && before[j].0 == n;
                        assert(self@[j].0 == n);
                    }
                }
            }
            return;
        }
        proof {
            if i < before.len() {
                lemma_name_order(name@, before[i as int].0);
                assert(name_before(name@, before[i as int].0));
            }
            assert forall|j: int| i <= j < before.len() implies name_before(
                name@,
                #[trigger] before[j].0,
            ) by {
                if j > i {
                    assert(name_before(before[i as int].0, before[j].0));
                    lemma_bytes_lt_transitive(
                        encode_utf8(name@),
                        encode_utf8(before[i as int].0),
                        encode_utf8(before[j].0),
                    );
                }
            }
            assert forall|j: int| 0 <= j < before.len() implies before[j].0 != name@ by {
                if j >= i {
                    assert(name_before(name@, before[j].0));
                    lemma_name_order(before[j].0, before[j].0);
                }
            }
            lemma_key_named_absent(before, name@);
        }
        self.entries.insert(i, (name, key));
        proof {
            let after = before.insert(i as int, (name@, key));
            assert(self@ =~= after);
            assert forall|a: int, b: int| 0 <= a < b < after.len() implies name_before(
                #[trigger] after[a].0,
                #[trigger] after[b].0,
            ) by {
                if b < i {
                    assert(name_before(before[a].0, before[b].0));
                } else if b == i {
                    assert(name_before(before[a].0, name@));
                } else if a < i {
                    assert(name_before(before[a].0, name@));
                    assert(name_before(name@, before[b - 1].0));
                    lemma_bytes_lt_transitive(
                        encode_utf8(before[a].0),
                        encode_utf8(name@),
                        encode_utf8(before[b - 1].0),
                    );
                } else if a == i {
                    assert(name_before(name@, before[b - 1].0));
                } else {
                    assert(name_before(before[a - 1].0, before[b - 1].0));
                }
            }
            lemma_sorted_distinct(after);
            lemma_key_named_distinct(after, name@);
            assert(after[i as int].0 == name@);
            assert forall|n: Seq<char>| n != name@ implies #[trigger] key_named(self@, n)
                == key_named(before, n) by {
                lemma_key_named_distinct(after, n);
                lemma_key_named_distinct(before, n);
                if exists|j: int| 0 <= j < before.len() && before[j].0 == n {
                    let j = choose|j: int| 0 <= j < before.len() && before[j].0 == n;
                    if j < i {
                        assert(after[j] == before[j]);
                    } else {
                        assert(after[j + 1] == before[j]);
                    }
                } else {
                    assert forall|j: int| 0 <= j < after.len() implies after[j].0 != n by {
                        if j < i {
                            assert(after[j] == before[j]);
                        } else if j > i {
                            assert(after[j] == before[j - 1]);
                        }
                    }
                }
            }
        }
    }

    /// Number of names.
    pub fn len(&self) -> (r: usize)
        ensures
            r == self@.len(),
    {
        self.entries.len()
    }

    /// The key under `name`, if any.
    pub fn get(&self, name: &String) -> (r: Option<Key>)
        ensures
            r == key_named(self@, name@),
    {
        let mut i: usize = 0;
        proof {
            assert(self@.skip(0) =~= self@);
        }
        while i < self.entries.len()
            invariant
                i <= self.entries.len(),
                self@.len() == self.entries.len(),
                key_named(self@, name@) == key_named(self@.skip(i as int), name@),
            decreases self.entries.len() - i,
        {
            let ghost rest = self@.skip(i as int);
            assert(rest[0] == (self.entries[i as int].0@, self.entries[i as int].1));
            assert(rest.drop_first() =~= self@.skip(i + 1));
            if self.entries[i].0 == *name {
                return Some(self.entries[i].1);
            }
            i = i + 1;
        }
        proof {
            assert(self@.skip(i as int) =~= Seq::<(Seq<char>, Key)>::empty());
        }
        None
    }

    /// The first key that, stripped of access rights, is `target`.
    pub fn find_normalizing_to(&self, target: Key) -> (r: Option<Key>)
        ensures
            r == first_key_normalizing_to(self@, target),
    {
        let mut i: usize = 0;
        proof {
            assert(self@.skip(0) =~= self@);
        }
        while i < self.entries.len()
            invariant
                i <= self.entries.len(),
                self@.len() == self.entries.len(),
                first_key_normalizing_to(self@, target) == first_key_normalizing_to(
                    self@.skip(i as int),
                    target,
                ),
            decreases self.entries.len() - i,
        {
            let ghost rest = self@.skip(i as int);
            assert(rest[0] == (self.entries[i as int].0@, self.entries[i as int].1));
            assert(rest.drop_first() =~= self@.skip(i + 1));
            let k = self.entries[i].1;
            if k.normalize().same_as(&target) {
                return Some(k);
            }
            i = i + 1;
        }
        proof {
            assert(self@.skip(i as int) =~= Seq::<(Seq<char>, Key)>::empty());
        }
        None
    }
}

} // verus!
