use vstd::prelude::*;

verus! {

/// The text of each string in a sequence.
pub open spec fn texts(s: Seq<String>) -> Seq<Seq<char>> {
    s.map_values(|x: String| x@)
}

/// Compares two strings character by character.
pub fn same_text(a: &str, b: &str) -> (r: bool)
    ensures
        r == (a@ == b@),
{
    let n = a.unicode_len();
    if n != b.unicode_len() {
        return false;
    }
    let mut i: usize = 0;
    while i < n
        invariant
            n == a@.len(),
            n == b@.len(),
            i <= n,
            forall|j: int| 0 <= j < i ==> a@[j] == b@[j],
        decreases n - i,
    {
        if a.get_char(i) != b.get_char(i) {
            return false;
        }
        i = i + 1;
    }
    assert(a@ =~= b@);
    true
}

/// A map keyed by text, kept as two parallel vectors in insertion order.
pub struct TextMap<T> {
    keys: Vec<String>,
    vals: Vec<T>,
    contents: Ghost<Map<Seq<char>, T>>,
}

impl<T> View for TextMap<T> {
    type V = Map<Seq<char>, T>;

    closed spec fn view(&self) -> Map<Seq<char>, T> {
        self.contents@
    }
}

impl<T> TextMap<T> {
    /// The keys in insertion order.
    pub closed spec fn key_order(&self) -> Seq<Seq<char>> {
        texts(self.keys@)
    }

    pub closed spec fn wf(&self) -> bool {
        &&& self.keys@.len() == self.vals@.len()
        &&& forall|i: int, j: int|
            0 <= i < j < self.keys@.len() ==> #[trigger] self.keys@[i]@ != #[trigger] self.keys@[j]@
        &&& forall|i: int|
            0 <= i < self.keys@.len() ==> {
                &&& self.contents@.contains_key(#[trigger] self.keys@[i]@)
                &&& self.contents@[self.keys@[i]@] == self.vals@[i]
            }
        &&& forall|k: Seq<char>|
            #[trigger] self.contents@.contains_key(k) ==> exists|i: int|
                0 <= i < self.keys@.len() && #[trigger] self.keys@[i]@ == k
    }

    pub proof fn lemma_key_order(&self)
        requires
            self.wf(),
        ensures
            self.key_order().no_duplicates(),
            self.key_order().to_set() == self@.dom(),
    {
        let ks = self.key_order();
        assert forall|i: int, j: int| 0 <= i < ks.len() && 0 <= j < ks.len() && i != j implies ks[i]
            != ks[j] by {
            if i < j {
                assert(self.keys@[i]@ != self.keys@[j]@);
            } else {
                assert(self.keys@[j]@ != self.keys@[i]@);
            }
        }
        assert forall|k: Seq<char>| ks.to_set().contains(k) <==> self@.dom().contains(k) by {
            if self@.dom().contains(k) {
                let i = choose|i: int| 0 <= i < self.keys@.len() && #[trigger] self.keys@[i]@ == k;
                assert(ks[i] == k);
            }
            if ks.to_set().contains(k) {
                let i = choose|i: int| 0 <= i < ks.len() && ks[i] == k;
                assert(self.keys@[i]@ == k);
            }
        }
        assert(ks.to_set() =~= self@.dom());
    }

    pub fn new() -> (r: Self)
        ensures
            r.wf(),
            r@ == Map::<Seq<char>, T>::empty(),
            r.key_order() == Seq::<Seq<char>>::empty(),
    {
        let r = TextMap { keys: Vec::new(), vals: Vec::new(), contents: Ghost(Map::empty()) };
        assert(r.key_order() =~= Seq::<Seq<char>>::empty());
        r
    }

    /// The position of `key`, if present.
    fn find(&self, key: &str) -> (r: Option<usize>)
        requires
            self.wf(),
        ensures
            match r {
                Some(i) => i < self.keys@.len() && self.keys@[i as int]@ == key@,
                None => !self@.contains_key(key@),
            },
    {
        let mut i: usize = 0;
        while i < self.keys.len()
            invariant
                self.wf(),
                i <= self.keys@.len(),
                forall|j: int| 0 <= j < i ==> self.keys@[j]@ != key@,
            decreases self.keys@.len() - i,
        {
            if same_text(self.keys[i].as_str(), key) {
                return Some(i);
            }
            i = i + 1;
        }
        None
    }

    pub fn contains_key(&self, key: &str) -> (r: bool)
        requires
            self.wf(),
        ensures
            r == self@.contains_key(key@),
    {
        self.find(key).is_some()
    }

    pub fn get(&self, key: &str) -> (r: Option<&T>)
        requires
            self.wf(),
        ensures
            match r {
                Some(v) => self@.contains_key(key@) && *v == self@[key@],
                None => !self@.contains_key(key@),
            },
    {
        match self.find(key) {
            Some(i) => Some(&self.vals[i]),
            None => None,
        }
    }

    /// Adds `key` with `value`, or replaces the value of a present key (keeping its position).
    pub fn insert(&mut self, key: String, value: T)
        requires
            old(self).wf(),
        ensures
            final(self).wf(),
            final(self)@ == old(self)@.insert(key@, value),
            old(self)@.contains_key(key@) ==> final(self).key_order() == old(self).key_order(),
            !old(self)@.contains_key(key@) ==> final(self).key_order() == old(self).key_order().push(
                key@,
            ),
    {
        match self.find(key.as_str()) {
            Some(i) => {
                let _ = self.vals.remove(i);
                self.vals.insert(i, value);
                self.contents = Ghost(self.contents@.insert(key@, value));
                assert(self.vals@ =~= old(self).vals@.update(i as int, value));
                assert forall|k: Seq<char>| #[trigger]
                    self.contents@.contains_key(k) implies exists|j: int|
                    0 <= j < self.keys@.len() && #[trigger] self.keys@[j]@ == k by {
                    if k != key@ {
                        assert(old(self).contents@.contains_key(k));
                        let j = choose|j: int|
                            0 <= j < old(self).keys@.len() && #[trigger] old(self).keys@[j]@ == k;
                        assert(self.keys@[j]@ == k);
                    } else {
                        assert(self.keys@[i as int]@ == k);
                    }
                }
            },
            None => {
                let ghost k = key@;
                self.keys.push(key);
                self.vals.push(value);
                self.contents = Ghost(self.contents@.insert(k, value));
                let ghost n: int = self.keys@.len() - 1;
                assert(self.keys@[n]@ == k);
                assert forall|a: Seq<char>| #[trigger]
                    self.contents@.contains_key(a) implies exists|j: int|
                    0 <= j < self.keys@.len() && #[trigger] self.keys@[j]@ == a by {
                    if a != k {
                        assert(old(self).contents@.contains_key(a));
                        let j = choose|j: int|
                            0 <= j < old(self).keys@.len() && #[trigger] old(self).keys@[j]@ == a;
                        assert(self.keys@[j]@ == a);
                    } else {
                        assert(self.keys@[n]@ == a);
                    }
                }
                assert(self.key_order() =~= old(self).key_order().push(k));
            },
        }
    }

    /// Takes `key` out, handing back its value; the other keys keep their order.
    pub fn remove(&mut self, key: &str) -> (r: Option<T>)
        requires
            old(self).wf(),
        ensures
            final(self).wf(),
            final(self)@ == old(self)@.remove(key@),
            match r {
                Some(v) => old(self)@.contains_key(key@) && v == old(self)@[key@],
                None => !old(self)@.contains_key(key@),
            },
    {
        match self.find(key) {
            Some(i) => {
                let _ = self.keys.remove(i);
                let v = self.vals.remove(i);
                self.contents = Ghost(self.contents@.remove(key@));
                assert forall|a: int, b: int|
                    0 <= a < b < self.keys@.len() implies #[trigger] self.keys@[a]@
                    != #[trigger] self.keys@[b]@ by {
                    let oa = if a < i { a } else { a + 1 };
                    let ob = if b < i { b } else { b + 1 };
                    assert(self.keys@[a] == old(self).keys@[oa]);
                    assert(self.keys@[b] == old(self).keys@[ob]);
                }
                assert forall|a: int| 0 <= a < self.keys@.len() implies {
                    &&& self.contents@.contains_key(#[trigger] self.keys@[a]@)
                    &&& self.contents@[self.keys@[a]@] == self.vals@[a]
                } by {
                    let oa = if a < i { a } else { a + 1 };
                    assert(self.keys@[a] == old(self).keys@[oa]);
                    assert(self.vals@[a] == old(self).vals@[oa]);
                    assert(old(self).keys@[oa]@ != old(self).keys@[i as int]@);
                }
                assert forall|k: Seq<char>| #[trigger]
                    self.contents@.contains_key(k) implies exists|j: int|
                    0 <= j < self.keys@.len() && #[trigger] self.keys@[j]@ == k by {
                    let oj = choose|j: int|
                        0 <= j < old(self).keys@.len() && #[trigger] old(self).keys@[j]@ == k;
                    assert(oj != i);
                    let j = if oj < i { oj } else { oj - 1 };
                    assert(self.keys@[j] == old(self).keys@[oj]);
                }
                Some(v)
            },
            None => {
                assert(self.contents@ =~= self.contents@.remove(key@));
                None
            },
        }
    }

    /// A copy of the keys in insertion order.
    pub fn key_list(&self) -> (r: Vec<String>)
        requires
            self.wf(),
        ensures
            texts(r@) == self.key_order(),
    {
        let mut r: Vec<String> = Vec::new();
        let mut i: usize = 0;
        while i < self.keys.len()
            invariant
                i <= self.keys@.len(),
                r@.len() == i,
                forall|j: int| 0 <= j < i ==> #[trigger] r@[j]@ == self.keys@[j]@,
            decreases self.keys@.len() - i,
        {
            r.push(self.keys[i].clone());
            i = i + 1;
        }
        assert(texts(r@) =~= texts(self.keys@));
        r
    }
}

} // verus!
