//! The storage of the genesis block: keys, values, and the order of the keys.

use vstd::prelude::*;

verus! {

/// Whether `a` comes strictly before `b` in lexicographic order.
pub open spec fn lex_less(a: Seq<u8>, b: Seq<u8>) -> bool
    decreases a.len(),
{
    if b.len() == 0 {
        false
    } else if a.len() == 0 {
        true
    } else if a[0] != b[0] {
        a[0] < b[0]
    } else {
        lex_less(a.drop_first(), b.drop_first())
    }
}

/// Nothing comes before itself.
pub proof fn lemma_lex_irreflexive(a: Seq<u8>)
    ensures
        !lex_less(a, a),
    decreases a.len(),
{
    if a.len() > 0 {
        lemma_lex_irreflexive(a.drop_first());
    }
}

/// What comes before something that comes before `c` comes before `c`.
pub proof fn lemma_lex_transitive(a: Seq<u8>, b: Seq<u8>, c: Seq<u8>)
    requires
        lex_less(a, b),
        lex_less(b, c),
    ensures
        lex_less(a, c),
    decreases a.len(),
{
    if a.len() > 0 && a[0] == b[0] && b[0] == c[0] {
        lemma_lex_transitive(a.drop_first(), b.drop_first(), c.drop_first());
    }
}

/// Of two different sequences one comes before the other.
pub proof fn lemma_lex_total(a: Seq<u8>, b: Seq<u8>)
    ensures
        lex_less(a, b) || a == b || lex_less(b, a),
    decreases a.len(),
{
    if a.len() == 0 && b.len() == 0 {
        assert(a =~= b);
    } else if a.len() > 0 && b.len() > 0 && a[0] == b[0] {
        lemma_lex_total(a.drop_first(), b.drop_first());
        if a.drop_first() == b.drop_first() {
            assert(a =~= seq![a[0]] + a.drop_first());
            assert(b =~= seq![b[0]] + b.drop_first());
        }
    }
}

/// Whether a search that starts at `before` and stays under `prefix` may stop at `key`. The key
/// `before` itself is only good enough if `or_equal` holds.
pub open spec fn is_candidate(
    key: Seq<u8>,
    before: Seq<u8>,
    or_equal: bool,
    prefix: Seq<u8>,
) -> bool {
    &&& lex_less(before, key) || (or_equal && key == before)
    &&& prefix.is_prefix_of(key)
}

/// Whether `r` is the first key of `items` at which the search may stop, if there is one.
pub open spec fn is_next_key(
    items: Seq<(Seq<u8>, Seq<u8>)>,
    before: Seq<u8>,
    or_equal: bool,
    prefix: Seq<u8>,
    r: Option<Seq<u8>>,
) -> bool {
    match r {
        None => forall|i: int|
            0 <= i < items.len() ==> !is_candidate((#[trigger] items[i]).0, before, or_equal, prefix),
        Some(key) => {
            &&& is_candidate(key, before, or_equal, prefix)
            &&& exists|i: int| 0 <= i < items.len() && (#[trigger] items[i]).0 == key
            &&& forall|i: int|
                0 <= i < items.len() && is_candidate(
                    (#[trigger] items[i]).0,
                    before,
                    or_equal,
                    prefix,
                ) ==> !lex_less(items[i].0, key)
        },
    }
}

/// What is stored under `key` in `items`: the value of the first item that has this key.
pub open spec fn stored_value(items: Seq<(Seq<u8>, Seq<u8>)>, key: Seq<u8>) -> Option<Seq<u8>>
    decreases items.len(),
{
    if items.len() == 0 {
        None
    } else if items[0].0 == key {
        Some(items[0].1)
    } else {
        stored_value(items.drop_first(), key)
    }
}

/// A search has one outcome at most.
pub proof fn next_key_is_unique(
    items: Seq<(Seq<u8>, Seq<u8>)>,
    before: Seq<u8>,
    or_equal: bool,
    prefix: Seq<u8>,
    r1: Option<Seq<u8>>,
    r2: Option<Seq<u8>>,
)
    requires
        is_next_key(items, before, or_equal, prefix, r1),
        is_next_key(items, before, or_equal, prefix, r2),
    ensures
        r1 == r2,
{
    if let Some(k1) = r1 {
        let i = choose|i: int| 0 <= i < items.len() && (#[trigger] items[i]).0 == k1;
        assert(is_candidate(items[i].0, before, or_equal, prefix));
        if let Some(k2) = r2 {
            let j = choose|j: int| 0 <= j < items.len() && (#[trigger] items[j]).0 == k2;
            assert(is_candidate(items[j].0, before, or_equal, prefix));
            lemma_lex_total(k1, k2);
        }
    } else if let Some(k2) = r2 {
        let j = choose|j: int| 0 <= j < items.len() && (#[trigger] items[j]).0 == k2;
        assert(is_candidate(items[j].0, before, or_equal, prefix));
    }
}

/// Asking again from the key that was found goes strictly forward and skips no key under the
/// prefix.
pub proof fn next_key_goes_forward(
    items: Seq<(Seq<u8>, Seq<u8>)>,
    before: Seq<u8>,
    prefix: Seq<u8>,
    key: Seq<u8>,
)
    requires
        is_next_key(items, before, false, prefix, Some(key)),
    ensures
        lex_less(before, key),
        !lex_less(key, before),
        forall|i: int|
            0 <= i < items.len() && prefix.is_prefix_of((#[trigger] items[i]).0) ==> {
                ||| items[i].0 == before
                ||| lex_less(items[i].0, before)
                ||| items[i].0 == key
                ||| lex_less(key, items[i].0)
            },
{
    if lex_less(key, before) {
        lemma_lex_transitive(key, before, key);
        lemma_lex_irreflexive(key);
    }
    assert forall|i: int|
        0 <= i < items.len() && prefix.is_prefix_of((#[trigger] items[i]).0) implies {
        ||| items[i].0 == before
        ||| lex_less(items[i].0, before)
        ||| items[i].0 == key
        ||| lex_less(key, items[i].0)
    } by {
        lemma_lex_total(items[i].0, before);
        lemma_lex_total(items[i].0, key);
    }
}

/// Compares two sequences of bytes for equality.
pub fn same_bytes(a: &[u8], b: &[u8]) -> (r: bool)
    ensures
        r == (a@ == b@),
{
    if a.len() != b.len() {
        return false;
    }
    let mut i: usize = 0;
    while i < a.len()
        invariant
            a@.len() == b@.len(),
            i <= a@.len(),
            forall|j: int| 0 <= j < i ==> a@[j] == b@[j],
        decreases a@.len() - i,
    {
        if a[i] != b[i] {
            return false;
        }
        i += 1;
    }
    assert(a@ =~= b@);
    true
}

/// Whether `a` comes strictly before `b` in lexicographic order.
fn bytes_less(a: &[u8], b: &[u8]) -> (r: bool)
    ensures
        r == lex_less(a@, b@),
{
    let mut i: usize = 0;
    assert(a@.skip(0) =~= a@);
    assert(b@.skip(0) =~= b@);
    while i < a.len() && i < b.len()
        invariant
            i <= a@.len(),
            i <= b@.len(),
            lex_less(a@, b@) == lex_less(a@.skip(i as int), b@.skip(i as int)),
        decreases a@.len() - i,
    {
        if a[i] != b[i] {
            return a[i] < b[i];
        }
        assert(a@.skip(i as int).drop_first() =~= a@.skip(i + 1));
        assert(b@.skip(i as int).drop_first() =~= b@.skip(i + 1));
        i += 1;
    }
    i < b.len()
}

/// Whether `key` starts with `prefix`.
fn starts_with(key: &[u8], prefix: &[u8]) -> (r: bool)
    ensures
        r == prefix@.is_prefix_of(key@),
{
    if prefix.len() > key.len() {
        return false;
    }
    let mut i: usize = 0;
    while i < prefix.len()
        invariant
            prefix@.len() <= key@.len(),
            i <= prefix@.len(),
            forall|j: int| 0 <= j < i ==> prefix@[j] == key@[j],
        decreases prefix@.len() - i,
    {
        if key[i] != prefix[i] {
            assert(key@.subrange(0, prefix@.len() as int)[i as int] != prefix@[i as int]);
            return false;
        }
        i += 1;
    }
    assert(prefix@ =~= key@.subrange(0, prefix@.len() as int));
    true
}

/// A copy of `bytes`.
pub(crate) fn copy_bytes(bytes: &[u8]) -> (r: Vec<u8>)
    ensures
        r@ == bytes@,
{
    let mut r: Vec<u8> = Vec::new();
    let mut i: usize = 0;
    while i < bytes.len()
        invariant
            i <= bytes@.len(),
            r@ == bytes@.take(i as int),
        decreases bytes@.len() - i,
    {
        r.push(bytes[i]);
        assert(bytes@.take(i + 1) =~= bytes@.take(i as int).push(bytes@[i as int]));
        i += 1;
    }
    assert(bytes@.take(bytes@.len() as int) =~= bytes@);
    r
}

/// The items of the storage of the genesis block.
pub struct GenesisStorage {
    items: Vec<(Vec<u8>, Vec<u8>)>,
}

impl View for GenesisStorage {
    type V = Seq<(Seq<u8>, Seq<u8>)>;

    closed spec fn view(&self) -> Seq<(Seq<u8>, Seq<u8>)> {
        items_view(self.items@)
    }
}

/// A list of keys and values, as bytes.
pub open spec fn items_view(items: Seq<(Vec<u8>, Vec<u8>)>) -> Seq<(Seq<u8>, Seq<u8>)> {
    Seq::new(items.len(), |i: int| (items[i].0@, items[i].1@))
}

impl GenesisStorage {
    /// A storage that holds `items`, in this order.
    pub fn new(items: Vec<(Vec<u8>, Vec<u8>)>) -> (r: GenesisStorage)
        ensures
            r@ == items_view(items@),
    {
        GenesisStorage { items }
    }

    /// Number of items.
    pub fn len(&self) -> (r: usize)
        ensures
            r == self@.len(),
    {
        self.items.len()
    }

    /// The key and the value of an item.
    pub fn item(&self, index: usize) -> (r: (&[u8], &[u8]))
        requires
            index < self@.len(),
        ensures
            r.0@ == self@[index as int].0,
            r.1@ == self@[index as int].1,
    {
        let item = &self.items[index];
        (item.0.as_slice(), item.1.as_slice())
    }

    /// The value that is stored under `key`, if any.
    pub fn value(&self, key: &[u8]) -> (r: Option<&[u8]>)
        ensures
            match r {
                Some(value) => stored_value(self@, key@) == Some(value@),
                None => stored_value(self@, key@) is None,
            },
    {
        let mut i: usize = 0;
        assert(self@.skip(0) =~= self@);
        while i < self.items.len()
            invariant
                i <= self.items@.len(),
                self@ == items_view(self.items@),
                stored_value(self@, key@) == stored_value(self@.skip(i as int), key@),
            decreases self.items@.len() - i,
        {
            assert(self@.skip(i as int)[0] == self@[i as int]);
            if same_bytes(self.items[i].0.as_slice(), key) {
                return Some(self.items[i].1.as_slice());
            }
            assert(self@.skip(i as int).drop_first() =~= self@.skip(i + 1));
            i += 1;
        }
        None
    }

    /// The first key in lexicographic order that starts with `prefix` and comes after `before`,
    /// or is `before` itself if `or_equal` is true.
    pub fn next_key(&self, before: &[u8], or_equal: bool, prefix: &[u8]) -> (r: Option<Vec<u8>>)
        ensures
            is_next_key(
                self@,
                before@,
                or_equal,
                prefix@,
                match r {
                    Some(key) => Some(key@),
                    None => None,
                },
            ),
    {
        let mut best: Option<usize> = None;
        let mut i: usize = 0;
        while i < self.items.len()
            invariant
                i <= self.items@.len(),
                self@ == items_view(self.items@),
                match best {
                    None => is_next_key(
                        self@.take(i as int),
                        before@,
                        or_equal,
                        prefix@,
                        None,
                    ),
                    Some(b) => b < i && is_next_key(
                        self@.take(i as int),
                        before@,
                        or_equal,
                        prefix@,
                        Some(self@[b as int].0),
                    ),
                },
            decreases self.items@.len() - i,
        {
            let key = self.items[i].0.as_slice();
            let ghost seen = self@.take(i as int);
            let ghost now = self@.take(i + 1);
            assert(now =~= seen.push(self@[i as int]));
            assert(key@ == self@[i as int].0);
            let after = bytes_less(before, key) || (or_equal && same_bytes(key, before));
            if after && starts_with(key, prefix) {
                let replace = match best {
                    Some(b) => !bytes_less(self.items[b].0.as_slice(), key),
                    None => true,
                };
                if replace {
                    assert forall|j: int|
                        0 <= j < now.len() && is_candidate(
                            (#[trigger] now[j]).0,
                            before@,
                            or_equal,
                            prefix@,
                        ) implies !lex_less(now[j].0, key@) by {
                        if j < i {
                            assert(now[j] == seen[j]);
                            if let Some(b) = best {
                                lemma_lex_total(key@, self@[b as int].0);
                                if lex_less(now[j].0, key@) && key@ != self@[b as int].0 {
                                    lemma_lex_transitive(now[j].0, key@, self@[b as int].0);
                                }
                            }
                        } else {
                            lemma_lex_irreflexive(key@);
                        }
                    }
                    assert(now[i as int].0 == key@);
                    best = Some(i);
                } else {
                    let b = best.unwrap();
                    assert forall|j: int|
                        0 <= j < now.len() && is_candidate(
                            (#[trigger] now[j]).0,
                            before@,
                            or_equal,
                            prefix@,
                        ) implies !lex_less(now[j].0, self@[b as int].0) by {
                        if j < i {
                            assert(now[j] == seen[j]);
                        } else if lex_less(now[j].0, self@[b as int].0) {
                            lemma_lex_transitive(now[j].0, self@[b as int].0, now[j].0);
                            lemma_lex_irreflexive(now[j].0);
                        }
                    }
                    assert(now[b as int].0 == self@[b as int].0);
                }
            } else {
                assert(!is_candidate(key@, before@, or_equal, prefix@));
                assert forall|j: int| 0 <= j < now.len() implies (#[trigger] now[j]) == (if j < i {
                    seen[j]
                } else {
                    self@[i as int]
                }) by {}
                if let Some(b) = best {
                    assert(now[b as int].0 == self@[b as int].0);
                }
            }
            i += 1;
        }
        assert(self@.take(i as int) =~= self@);
        match best {
            Some(b) => Some(copy_bytes(self.items[b].0.as_slice())),
            None => None,
        }
    }
}

/// The order of keys: a key comes before another one if it is the start of it, or if the first byte
/// in which they differ is the smaller one.
pub proof fn order_is_that_of_the_first_difference(a: Seq<u8>, b: Seq<u8>)
    ensures
        lex_less(a, b) <==> exists|k: int|
            {
                &&& 0 <= k < b.len()
                &&& k <= a.len()
                &&& #[trigger] a.take(k) == b.take(k)
                &&& k == a.len() || a[k] < b[k]
            },
    decreases a.len(),
{
    if lex_less(a, b) {
        if a.len() == 0 {
            assert(a.take(0) =~= b.take(0));
        } else if a[0] != b[0] {
            assert(a.take(0) =~= b.take(0));
        } else {
            let (x, y) = (a.drop_first(), b.drop_first());
            order_is_that_of_the_first_difference(x, y);
            let k = choose|k: int|
                {
                    &&& 0 <= k < y.len()
                    &&& k <= x.len()
                    &&& #[trigger] x.take(k) == y.take(k)
                    &&& k == x.len() || x[k] < y[k]
                };
            assert(a.take(k + 1) =~= seq![a[0]] + x.take(k));
            assert(b.take(k + 1) =~= seq![b[0]] + y.take(k));
            assert(a.take(k + 1) == b.take(k + 1));
        }
    }
    if exists|k: int|
        {
            &&& 0 <= k < b.len()
            &&& k <= a.len()
            &&& #[trigger] a.take(k) == b.take(k)
            &&& k == a.len() || a[k] < b[k]
        } {
        let k = choose|k: int|
            {
                &&& 0 <= k < b.len()
                &&& k <= a.len()
                &&& #[trigger] a.take(k) == b.take(k)
                &&& k == a.len() || a[k] < b[k]
            };
        if a.len() > 0 && k > 0 {
            let (x, y) = (a.drop_first(), b.drop_first());
            assert(a.take(k)[0] == a[0] && b.take(k)[0] == b[0]);
            assert(x.take(k - 1) =~= a.take(k).drop_first());
            assert(y.take(k - 1) =~= b.take(k).drop_first());
            order_is_that_of_the_first_difference(x, y);
        }
    }
}

/// A value that is found under a key is the one of the first item that has this very key, and one is
/// found if and only if some item has it.
pub proof fn value_is_that_of_the_whole_key(items: Seq<(Seq<u8>, Seq<u8>)>, key: Seq<u8>)
    ensures
        match stored_value(items, key) {
            Some(value) => exists|i: int|
                {
                    &&& 0 <= i < items.len()
                    &&& #[trigger] items[i] == (key, value)
                    &&& forall|j: int| 0 <= j < i ==> (#[trigger] items[j]).0 != key
                },
            None => forall|i: int| 0 <= i < items.len() ==> (#[trigger] items[i]).0 != key,
        },
    decreases items.len(),
{
    if items.len() > 0 {
        let rest = items.drop_first();
        value_is_that_of_the_whole_key(rest, key);
        assert forall|i: int| 0 < i < items.len() implies #[trigger] items[i] == rest[i - 1] by {}
        if items[0].0 == key {
            assert(items[0] == (key, items[0].1));
        } else if let Some(value) = stored_value(rest, key) {
            let i = choose|i: int|
                {
                    &&& 0 <= i < rest.len()
                    &&& #[trigger] rest[i] == (key, value)
                    &&& forall|j: int| 0 <= j < i ==> (#[trigger] rest[j]).0 != key
                };
            assert(items[i + 1] == (key, value));
        }
    }
}

/// Where each key occurs once, every item is found under its key.
pub proof fn every_item_is_found(items: Seq<(Seq<u8>, Seq<u8>)>, i: int)
    requires
        0 <= i < items.len(),
        forall|j: int| 0 <= j < items.len() && j != i ==> (#[trigger] items[j]).0 != items[i].0,
    ensures
        stored_value(items, items[i].0) == Some(items[i].1),
{
    value_is_that_of_the_whole_key(items, items[i].0);
}

/// A search ends at a key that is there, that starts with the prefix and comes behind the start, or
/// is the start where this is good enough. No other such key comes before it. It finds nothing only
/// if there is no such key.
pub proof fn next_key_is_the_first_one(
    items: Seq<(Seq<u8>, Seq<u8>)>,
    before: Seq<u8>,
    or_equal: bool,
    prefix: Seq<u8>,
    r: Option<Seq<u8>>,
)
    requires
        is_next_key(items, before, or_equal, prefix, r),
    ensures
        r matches Some(key) ==> {
            &&& exists|i: int| 0 <= i < items.len() && (#[trigger] items[i]).0 == key
            &&& prefix.len() <= key.len() && key.take(prefix.len() as int) == prefix
            &&& lex_less(before, key) || (or_equal && before == key)
        },
        forall|i: int|
            #![trigger items[i]]
            {
                &&& 0 <= i < items.len()
                &&& prefix.len() <= items[i].0.len()
                &&& items[i].0.take(prefix.len() as int) == prefix
                &&& lex_less(before, items[i].0) || (or_equal && items[i].0 == before)
            } ==> (r matches Some(key) && (key == items[i].0 || lex_less(key, items[i].0))),
{
    assert forall|i: int|
        #![trigger items[i]]
        {
            &&& 0 <= i < items.len()
            &&& prefix.len() <= items[i].0.len()
            &&& items[i].0.take(prefix.len() as int) == prefix
            &&& lex_less(before, items[i].0) || (or_equal && items[i].0 == before)
        } implies (r matches Some(key) && (key == items[i].0 || lex_less(key, items[i].0))) by {
        assert(is_candidate(items[i].0, before, or_equal, prefix));
        if let Some(key) = r {
            lemma_lex_total(key, items[i].0);
        }
    }
}

/// A storage holds all items that it was made of, in their order, with their keys and values.
pub proof fn items_are_kept(items: Seq<(Vec<u8>, Vec<u8>)>)
    ensures
        items_view(items).len() == items.len(),
        forall|i: int|
            0 <= i < items.len() ==> (#[trigger] items_view(items)[i]).0 == items[i].0@
                && items_view(items)[i].1 == items[i].1@,
{
}

} // verus!
