use vstd::prelude::*;

verus! {

/// A JSON document as the client handles it: numbers keep their textual
/// form, objects keep their entries sorted by key, no key occurring twice
/// (as the sorted map of `serde_json` does).
#[derive(Debug)]
pub enum JsonValue {
    Null,
    Bool(bool),
    Number(String),
    String(String),
    Array(Vec<JsonValue>),
    Object(JsonObject),
}

/// A JSON object: a list of entries whose keys are strictly increasing in
/// the order of `String`.
#[derive(Debug)]
pub struct JsonObject {
    entries: Vec<(String, JsonValue)>,
}

/// The entries of an object, each key taken by its characters.
pub open spec fn entries_of(es: Seq<(String, JsonValue)>) -> Seq<(Seq<char>, JsonValue)> {
    es.map_values(|e: (String, JsonValue)| (e.0@, e.1))
}

/// Some entry carries `key`.
pub open spec fn has_key(es: Seq<(Seq<char>, JsonValue)>, key: Seq<char>) -> bool {
    exists|i: int| 0 <= i < es.len() && (#[trigger] es[i]).0 == key
}

/// Every value among the entries is a JSON string.
pub open spec fn all_strings(es: Seq<(Seq<char>, JsonValue)>) -> bool {
    forall|i: int| 0 <= i < es.len() ==> (#[trigger] es[i]).1 is String
}

/// No key occurs twice.
pub open spec fn keys_distinct(es: Seq<(Seq<char>, JsonValue)>) -> bool {
    forall|i: int, j: int|
        0 <= i < es.len() && 0 <= j < es.len() && i != j ==> (#[trigger] es[i]).0 != (
        #[trigger] es[j]).0
}

/// `a` comes before `b` in the order of `String`: character by character,
/// a proper prefix first.
pub open spec fn key_lt(a: Seq<char>, b: Seq<char>) -> bool
    decreases a.len(),
{
    if a.len() == 0 {
        b.len() > 0
    } else if b.len() == 0 {
        false
    } else if a[0] != b[0] {
        (a[0] as int) < (b[0] as int)
    } else {
        key_lt(a.drop_first(), b.drop_first())
    }
}

/// The keys are in strictly increasing order, as in the sorted map of
/// `serde_json`.
pub open spec fn keys_sorted(es: Seq<(Seq<char>, JsonValue)>) -> bool {
    forall|i: int, j: int| 0 <= i < j < es.len() ==> key_lt((#[trigger] es[i]).0, (#[trigger] es[j]).0)
}

/// `p` is where `key` goes among the entries: every key before it is
/// smaller, none from it on is.
pub open spec fn is_insertion_point(es: Seq<(Seq<char>, JsonValue)>, key: Seq<char>, p: int) -> bool {
    &&& 0 <= p <= es.len()
    &&& forall|j: int| 0 <= j < p ==> key_lt((#[trigger] es[j]).0, key)
    &&& forall|j: int| p <= j < es.len() ==> !key_lt((#[trigger] es[j]).0, key)
}

/// Where `key` goes among the entries.
pub open spec fn insertion_point(es: Seq<(Seq<char>, JsonValue)>, key: Seq<char>) -> int {
    choose|p: int| is_insertion_point(es, key, p)
}

pub proof fn lemma_key_lt_irreflexive(a: Seq<char>)
    ensures
        !key_lt(a, a),
    decreases a.len(),
{
    if a.len() > 0 {
        lemma_key_lt_irreflexive(a.drop_first());
    }
}

pub proof fn lemma_key_lt_total(a: Seq<char>, b: Seq<char>)
    requires
        a != b,
    ensures
        key_lt(a, b) || key_lt(b, a),
    decreases a.len(),
{
    if a.len() == 0 && b.len() == 0 {
        assert(a =~= b);
    } else if a.len() > 0 && b.len() > 0 {
        if a[0] == b[0] {
            if a.drop_first() == b.drop_first() {
                assert(a =~= seq![a[0]] + a.drop_first());
                assert(b =~= seq![b[0]] + b.drop_first());
            }
            lemma_key_lt_total(a.drop_first(), b.drop_first());
        } else {
            let x = a[0];
            let y = b[0];
            assert((x as int) != (y as int));
        }
    }
}

pub proof fn lemma_key_lt_transitive(a: Seq<char>, b: Seq<char>, c: Seq<char>)
    requires
        key_lt(a, b),
        key_lt(b, c),
    ensures
        key_lt(a, c),
    decreases a.len(),
{
    if a.len() > 0 && a[0] == b[0] && b[0] == c[0] {
        lemma_key_lt_transitive(a.drop_first(), b.drop_first(), c.drop_first());
    }
}

/// Sorted keys are distinct.
pub proof fn lemma_sorted_distinct(es: Seq<(Seq<char>, JsonValue)>)
    requires
        keys_sorted(es),
    ensures
        keys_distinct(es),
{
    assert forall|i: int, j: int|
        0 <= i < es.len() && 0 <= j < es.len() && i != j implies (#[trigger] es[i]).0 != (
        #[trigger] es[j]).0 by {
        lemma_key_lt_irreflexive(es[i].0);
        if i < j {
            assert(key_lt(es[i].0, es[j].0));
        } else {
            assert(key_lt(es[j].0, es[i].0));
        }
    }
}

/// Among sorted entries every key has its place, and only one.
pub proof fn lemma_insertion_point(es: Seq<(Seq<char>, JsonValue)>, key: Seq<char>, p: int)
    requires
        is_insertion_point(es, key, p),
    ensures
        insertion_point(es, key) == p,
{
    let q = insertion_point(es, key);
    assert(is_insertion_point(es, key, q));
    if q < p {
        assert(key_lt(es[q].0, key));
    } else if p < q {
        assert(key_lt(es[p].0, key));
    }
}

/// Sorted entries have a place for every key.
pub proof fn lemma_insertion_point_exists(es: Seq<(Seq<char>, JsonValue)>, key: Seq<char>)
    requires
        keys_sorted(es),
    ensures
        is_insertion_point(es, key, insertion_point(es, key)),
    decreases es.len(),
{
    if es.len() == 0 {
        assert(is_insertion_point(es, key, 0));
    } else {
        let rest = es.drop_last();
        assert(keys_sorted(rest));
        lemma_insertion_point_exists(rest, key);
        let q = insertion_point(rest, key);
        let n = es.len() - 1;
        assert forall|j: int| 0 <= j < n implies #[trigger] rest[j] == es[j] by {}
        assert forall|j: int| 0 <= j < q implies key_lt((#[trigger] es[j]).0, key) by {
            assert(rest[j] == es[j]);
        }
        assert forall|j: int| q <= j < n implies !key_lt((#[trigger] es[j]).0, key) by {
            assert(rest[j] == es[j]);
        }
        if q == n && key_lt(es[n].0, key) {
            assert(is_insertion_point(es, key, n + 1));
        } else if q == n {
            assert(is_insertion_point(es, key, n));
        } else {
            assert(!key_lt(es[q].0, key));
            assert(key_lt(es[q].0, es[n].0));
            if key_lt(es[n].0, key) {
                lemma_key_lt_transitive(es[q].0, es[n].0, key);
            }
            assert(is_insertion_point(es, key, q));
        }
    }
}

/// The position of the entry that carries `key` (meaningful where `has_key` holds).
pub open spec fn key_index(es: Seq<(Seq<char>, JsonValue)>, key: Seq<char>) -> int {
    choose|i: int| 0 <= i < es.len() && (#[trigger] es[i]).0 == key
}

/// The value stored under `key`, if any.
pub open spec fn lookup(es: Seq<(Seq<char>, JsonValue)>, key: Seq<char>) -> Option<JsonValue> {
    if has_key(es, key) {
        Some(es[key_index(es, key)].1)
    } else {
        None
    }
}

/// The entries after storing `value` under `key`: an existing entry is
/// replaced where it stands, a new one goes where its key belongs in the
/// order of the keys.
pub open spec fn inserted(es: Seq<(Seq<char>, JsonValue)>, key: Seq<char>, value: JsonValue) -> Seq<
    (Seq<char>, JsonValue),
> {
    if has_key(es, key) {
        es.update(key_index(es, key), (key, value))
    } else {
        es.insert(insertion_point(es, key), (key, value))
    }
}

/// The entries after taking out the one that carries `key`, if any.
pub open spec fn removed(es: Seq<(Seq<char>, JsonValue)>, key: Seq<char>) -> Seq<
    (Seq<char>, JsonValue),
> {
    if has_key(es, key) {
        es.remove(key_index(es, key))
    } else {
        es
    }
}

/// In a list of distinct keys, the position of a key is the one where it stands.
pub proof fn lemma_key_index_unique(es: Seq<(Seq<char>, JsonValue)>, key: Seq<char>, i: int)
    requires
        keys_distinct(es),
        0 <= i < es.len(),
        es[i].0 == key,
    ensures
        has_key(es, key),
        key_index(es, key) == i,
        lookup(es, key) == Some(es[i].1),
{
    assert(has_key(es, key));
    let k = key_index(es, key);
    assert(es[k].0 == key);
}

/// Storing a value keeps the keys sorted; reading the key back gives the
/// stored value, and every other key reads as before.
pub proof fn lemma_inserted(es: Seq<(Seq<char>, JsonValue)>, key: Seq<char>, value: JsonValue)
    requires
        keys_sorted(es),
    ensures
        keys_sorted(inserted(es, key, value)),
        keys_distinct(inserted(es, key, value)),
        has_key(inserted(es, key, value), key),
        lookup(inserted(es, key, value), key) == Some(value),
        forall|other: Seq<char>|
            other != key ==> #[trigger] lookup(inserted(es, key, value), other) == lookup(
                es,
                other,
            ),
        inserted(es, key, value).len() == if has_key(es, key) {
            es.len()
        } else {
            es.len() + 1
        },
{
    lemma_sorted_distinct(es);
    let r = inserted(es, key, value);
    if has_key(es, key) {
        let k = key_index(es, key);
        assert(keys_sorted(r)) by {
            assert forall|i: int, j: int| 0 <= i < j < r.len() implies key_lt(
                (#[trigger] r[i]).0,
                (#[trigger] r[j]).0,
            ) by {
                assert(key_lt(es[i].0, es[j].0));
            }
        }
        lemma_sorted_distinct(r);
        lemma_key_index_unique(r, key, k);
        assert forall|other: Seq<char>| other != key implies #[trigger] lookup(r, other) == lookup(
            es,
            other,
        ) by {
            if has_key(es, other) {
                let j = key_index(es, other);
                assert(j != k);
                lemma_key_index_unique(r, other, j);
            } else {
                if has_key(r, other) {
                    let j = key_index(r, other);
                    assert(es[j].0 == other);
                }
            }
        }
    } else {
        lemma_insertion_point_exists(es, key);
        let p = insertion_point(es, key);
        assert(r.len() == es.len() + 1);
        assert forall|i: int| 0 <= i < r.len() implies #[trigger] r[i] == if i < p {
            es[i]
        } else if i == p {
            (key, value)
        } else {
            es[i - 1]
        } by {}
        assert(keys_sorted(r)) by {
            assert forall|i: int, j: int| 0 <= i < j < r.len() implies key_lt(
                (#[trigger] r[i]).0,
                (#[trigger] r[j]).0,
            ) by {
                if j < p {
                    assert(key_lt(es[i].0, es[j].0));
                } else if j == p {
                    assert(key_lt(es[i].0, key));
                } else if i < p {
                    assert(key_lt(es[i].0, es[j - 1].0));
                } else if i == p {
                    assert(!key_lt(es[j - 1].0, key));
                    if es[j - 1].0 == key {
                        assert(has_key(es, key));
                    }
                    lemma_key_lt_total(es[j - 1].0, key);
                } else {
                    assert(key_lt(es[i - 1].0, es[j - 1].0));
                }
            }
        }
        lemma_sorted_distinct(r);
        lemma_key_index_unique(r, key, p);
        assert forall|other: Seq<char>| other != key implies #[trigger] lookup(r, other) == lookup(
            es,
            other,
        ) by {
            if has_key(es, other) {
                let j = key_index(es, other);
                let j2 = if j < p { j } else { j + 1 };
                assert(r[j2] == es[j]);
                lemma_key_index_unique(r, other, j2);
            } else {
                if has_key(r, other) {
                    let j = key_index(r, other);
                    assert(j != p);
                    if j < p {
                        assert(es[j].0 == other);
                    } else {
                        assert(es[j - 1].0 == other);
                    }
                }
            }
        }
    }
}

/// Storing a string under a key keeps every value a string.
pub proof fn lemma_inserted_strings(es: Seq<(Seq<char>, JsonValue)>, key: Seq<char>, value: JsonValue)
    requires
        keys_sorted(es),
        all_strings(es),
        value is String,
    ensures
        all_strings(inserted(es, key, value)),
{
    let r = inserted(es, key, value);
    if !has_key(es, key) {
        lemma_insertion_point_exists(es, key);
        let p = insertion_point(es, key);
        assert forall|i: int| 0 <= i < r.len() implies (#[trigger] r[i]).1 is String by {
            if i < p {
                assert(r[i] == es[i]);
            } else if i > p {
                assert(r[i] == es[i - 1]);
            }
        }
    } else {
        assert forall|i: int| 0 <= i < r.len() implies (#[trigger] r[i]).1 is String by {
            if i != key_index(es, key) {
                assert(r[i] == es[i]);
            }
        }
    }
}

/// Storing a value under a key that was absent, then removing that key,
/// gives back the entries one started from.
pub proof fn lemma_remove_undoes_insert(
    es: Seq<(Seq<char>, JsonValue)>,
    key: Seq<char>,
    value: JsonValue,
)
    requires
        keys_sorted(es),
        !has_key(es, key),
    ensures
        removed(inserted(es, key, value), key) == es,
{
    lemma_inserted(es, key, value);
    lemma_insertion_point_exists(es, key);
    let p = insertion_point(es, key);
    let r = inserted(es, key, value);
    lemma_key_index_unique(r, key, p);
    assert(r.remove(p) =~= es);
}

/// The characters of `s`.
fn chars_of(s: &str) -> (r: Vec<char>)
    ensures
        r@ == s@,
{
    let mut v: Vec<char> = Vec::new();
    let ghost text = s@;
    for c in it: s.chars()
        invariant
            it.seq() == text,
            v@ == text.take(it.index()),
    {
        proof {
            assert(text.take(it.index() + 1) =~= text.take(it.index()).push(c));
        }
        v.push(c);
    }
    proof {
        assert(text.take(text.len() as int) =~= text);
    }
    v
}

/// Whether `a` comes before `b` in the order of `String`.
pub fn key_less(a: &str, b: &str) -> (r: bool)
    ensures
        r == key_lt(a@, b@),
{
    let x = chars_of(a);
    let y = chars_of(b);
    let mut i: usize = 0;
    assert(a@.skip(0) =~= a@);
    assert(b@.skip(0) =~= b@);
    while i < x.len() && i < y.len() && x[i] == y[i]
        invariant
            x@ == a@,
            y@ == b@,
            i <= x@.len(),
            i <= y@.len(),
            key_lt(a@, b@) == key_lt(a@.skip(i as int), b@.skip(i as int)),
        decreases x@.len() - i,
    {
        proof {
            let sa = a@.skip(i as int);
            let sb = b@.skip(i as int);
            assert(sa[0] == a@[i as int]);
            assert(sb[0] == b@[i as int]);
            assert(sa.drop_first() =~= a@.skip(i + 1));
            assert(sb.drop_first() =~= b@.skip(i + 1));
        }
        i += 1;
    }
    let ghost sa = a@.skip(i as int);
    let ghost sb = b@.skip(i as int);
    if i == x.len() {
        assert(sa.len() == 0);
        i < y.len()
    } else if i == y.len() {
        assert(sb.len() == 0);
        false
    } else {
        assert(sa[0] == a@[i as int]);
        assert(sb[0] == b@[i as int]);
        let cx = x[i];
        let cy = y[i];
        assert(cx != cy);
        cx < cy
    }
}

impl JsonObject {
    /// The keys of the entries are in strictly increasing order (so no key
    /// occurs twice); every object keeps this.
    #[verifier::type_invariant]
    pub closed spec fn valid(self) -> bool {
        keys_sorted(entries_of(self.entries@)) && keys_distinct(entries_of(self.entries@))
    }

    /// What validity of an object says of its entries.
    pub proof fn lemma_valid(self)
        requires
            self.valid(),
        ensures
            keys_sorted(self.entries()),
            keys_distinct(self.entries()),
    {
    }

    /// Where `key` goes among the entries.
    fn insertion_index(&self, key: &String) -> (r: usize)
        ensures
            is_insertion_point(self.entries(), key@, r as int),
    {
        proof {
            use_type_invariant(self);
        }
        let ghost es = self.entries();
        let n = self.entries.len();
        let mut i: usize = 0;
        while i < n
            invariant
                es == self.entries(),
                keys_sorted(es),
                n == es.len(),
                i <= n,
                forall|j: int| 0 <= j < i ==> key_lt((#[trigger] es[j]).0, key@),
            decreases n - i,
        {
            if !key_less(self.entries[i].0.as_str(), key.as_str()) {
                proof {
                    assert forall|j: int| i <= j < es.len() implies !key_lt(
                        (#[trigger] es[j]).0,
                        key@,
                    ) by {
                        if j > i && key_lt(es[j].0, key@) {
                            assert(key_lt(es[i as int].0, es[j].0));
                            lemma_key_lt_transitive(es[i as int].0, es[j].0, key@);
                        }
                    }
                }
                return i;
            }
            i += 1;
        }
        i
    }

    /// The entries in order, each key taken by its characters.
    pub closed spec fn entries(self) -> Seq<(Seq<char>, JsonValue)> {
        entries_of(self.entries@)
    }

    /// An object without entries.
    pub fn new() -> (r: JsonObject)
        ensures
            r.entries() == Seq::<(Seq<char>, JsonValue)>::empty(),
    {
        let r = JsonObject { entries: Vec::new() };
        assert(r.entries() =~= Seq::<(Seq<char>, JsonValue)>::empty());
        r
    }

    /// The number of entries.
    pub fn len(&self) -> (r: usize)
        ensures
            r == self.entries().len(),
            keys_distinct(self.entries()),
    {
        proof {
            use_type_invariant(self);
        }
        self.entries.len()
    }

    /// The position of the entry that carries `key`, if any.
    fn position(&self, key: &String) -> (r: Option<usize>)
        ensures
            keys_distinct(self.entries()),
            r is Some <==> has_key(self.entries(), key@),
            r matches Some(i) ==> i < self.entries().len() && key_index(self.entries(), key@) == i,
    {
        proof {
            use_type_invariant(self);
        }
        let ghost es = self.entries();
        let mut i: usize = 0;
        while i < self.entries.len()
            invariant
                es == self.entries(),
                keys_distinct(es),
                i <= self.entries@.len(),
                forall|j: int| 0 <= j < i ==> (#[trigger] es[j]).0 != key@,
            decreases self.entries@.len() - i,
        {
            if self.entries[i].0 == *key {
                proof {
                    lemma_key_index_unique(es, key@, i as int);
                }
                return Some(i);
            }
            i += 1;
        }
        assert(!has_key(es, key@));
        None
    }

    /// Whether some entry carries `key`.
    pub fn contains_key(&self, key: &str) -> (r: bool)
        ensures
            r == has_key(self.entries(), key@),
            keys_distinct(self.entries()),
    {
        let k = key.to_owned();
        self.position(&k).is_some()
    }

    /// The value stored under `key`, if any.
    pub fn get(&self, key: &str) -> (r: Option<&JsonValue>)
        ensures
            match lookup(self.entries(), key@) {
                Some(v) => r is Some && *r->0 == v,
                None => r is None,
            },
            keys_distinct(self.entries()),
    {
        let k = key.to_owned();
        match self.position(&k) {
            Some(i) => Some(&self.entries[i].1),
            None => None,
        }
    }

    /// The entry at position `i`.
    pub fn entry(&self, i: usize) -> (r: (&String, &JsonValue))
        requires
            i < self.entries().len(),
        ensures
            r.0@ == self.entries()[i as int].0,
            *r.1 == self.entries()[i as int].1,
    {
        (&self.entries[i].0, &self.entries[i].1)
    }

    /// Whether every value of this object is a JSON string.
    pub fn all_strings(&self) -> (r: bool)
        ensures
            r == all_strings(self.entries()),
    {
        let ghost es = self.entries();
        let mut i: usize = 0;
        while i < self.entries.len()
            invariant
                es == self.entries(),
                i <= self.entries@.len(),
                forall|j: int| 0 <= j < i ==> (#[trigger] es[j]).1 is String,
            decreases self.entries@.len() - i,
        {
            match &self.entries[i].1 {
                JsonValue::String(_) => {},
                _ => {
                    assert(!((es[i as int]).1 is String));
                    return false;
                },
            }
            i += 1;
        }
        true
    }

    /// Stores `value` under `key` and hands back the value stored there
    /// before, if any. An existing entry is replaced where it stands; a new
    /// entry goes where its key belongs in the order of the keys.
    pub fn insert(&mut self, key: String, value: JsonValue) -> (r: Option<JsonValue>)
        ensures
            final(self).entries() == inserted(old(self).entries(), key@, value),
            r == lookup(old(self).entries(), key@),
            keys_distinct(final(self).entries()),
            keys_sorted(final(self).entries()),
    {
        proof {
            use_type_invariant(&*self);
        }
        let pos = self.position(&key);
        let place = self.insertion_index(&key);
        let ghost es = self.entries();
        let mut items: Vec<(String, JsonValue)> = Vec::new();
        std::mem::swap(&mut items, &mut self.entries);
        assert(entries_of(items@) == es);
        proof {
            lemma_inserted(es, key@, value);
        }
        match pos {
            Some(i) => {
                let ghost k = key@;
                let old_entry = items.remove(i);
                items.insert(i, (key, value));
                assert(entries_of(items@) =~= inserted(es, k, value));
                self.entries = items;
                Some(old_entry.1)
            },
            None => {
                let ghost k = key@;
                proof {
                    lemma_insertion_point(es, k, place as int);
                }
                items.insert(place, (key, value));
                assert(entries_of(items@) =~= inserted(es, k, value));
                self.entries = items;
                None
            },
        }
    }

    /// Takes out the entry that carries `key` and hands back its value, if
    /// any; the other entries keep their order.
    pub fn remove(&mut self, key: &str) -> (r: Option<JsonValue>)
        ensures
            final(self).entries() == removed(old(self).entries(), key@),
            r == lookup(old(self).entries(), key@),
            keys_distinct(final(self).entries()),
            keys_sorted(final(self).entries()),
    {
        proof {
            use_type_invariant(&*self);
        }
        let k = key.to_owned();
        let pos = self.position(&k);
        let ghost es = self.entries();
        let mut items: Vec<(String, JsonValue)> = Vec::new();
        std::mem::swap(&mut items, &mut self.entries);
        assert(entries_of(items@) == es);
        match pos {
            Some(i) => {
                let old_entry = items.remove(i);
                assert(entries_of(items@) =~= removed(es, key@));
                assert(keys_distinct(entries_of(items@))) by {
                    let r = entries_of(items@);
                    assert forall|a: int, b: int|
                        0 <= a < r.len() && 0 <= b < r.len() && a != b implies (#[trigger] r[a]).0
                        != (#[trigger] r[b]).0 by {
                        let a2 = if a < i { a } else { a + 1 };
                        let b2 = if b < i { b } else { b + 1 };
                        assert(r[a] == es[a2]);
                        assert(r[b] == es[b2]);
                    }
                }
                assert(keys_sorted(entries_of(items@))) by {
                    let r = entries_of(items@);
                    assert forall|a: int, b: int| 0 <= a < b < r.len() implies key_lt(
                        (#[trigger] r[a]).0,
                        (#[trigger] r[b]).0,
                    ) by {
                        let a2 = if a < i { a } else { a + 1 };
                        let b2 = if b < i { b } else { b + 1 };
                        assert(r[a] == es[a2]);
                        assert(r[b] == es[b2]);
                        assert(key_lt(es[a2].0, es[b2].0));
                    }
                }
                self.entries = items;
                Some(old_entry.1)
            },
            None => {
                self.entries = items;
                None
            },
        }
    }

    /// Hands out the entries in order.
    pub fn into_entries(self) -> (r: Vec<(String, JsonValue)>)
        ensures
            entries_of(r@) == self.entries(),
            keys_distinct(entries_of(r@)),
            keys_sorted(entries_of(r@)),
    {
        proof {
            use_type_invariant(&self);
        }
        self.entries
    }
}

impl JsonValue {
    /// The object this value is, if it is one.
    pub fn as_object(&self) -> (r: Option<&JsonObject>)
        ensures
            match self {
                JsonValue::Object(o) => r == Some(o),
                _ => r is None,
            },
    {
        match self {
            JsonValue::Object(o) => Some(o),
            _ => None,
        }
    }

    /// Whether this value is an object.
    pub fn is_object(&self) -> (r: bool)
        ensures
            r == (self is Object),
    {
        match self {
            JsonValue::Object(_) => true,
            _ => false,
        }
    }

    /// The text of this value, if it is a string.
    pub fn as_str(&self) -> (r: Option<&str>)
        ensures
            match self {
                JsonValue::String(s) => r is Some && r->0@ == s@,
                _ => r is None,
            },
    {
        match self {
            JsonValue::String(s) => Some(s.as_str()),
            _ => None,
        }
    }
}

} // verus!
