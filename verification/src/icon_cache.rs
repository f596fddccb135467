//! The icon images already downloaded, by icon code.

use vstd::prelude::*;
use crate::text::str_eq;

verus! {

/// Icon images by icon code. No code occurs twice.
pub struct IconCache {
    entries: Vec<(String, Vec<u8>)>,
}

impl IconCache {
    /// No code occurs twice.
    #[verifier::type_invariant]
    closed spec fn wf(&self) -> bool {
        forall|i: int, j: int|
            0 <= i < j < self.entries@.len() ==> (#[trigger] self.entries@[i]).0@ != (#[trigger] self.entries@[j]).0@
    }

    /// The images the cache holds, by code.
    pub closed spec fn view(&self) -> Map<Seq<char>, Seq<u8>> {
        Map::new(
            |k: Seq<char>| exists|i: int| 0 <= i < self.entries@.len() && (#[trigger] self.entries@[i]).0@ == k,
            |k: Seq<char>|
                {
                    let i = choose|i: int| 0 <= i < self.entries@.len() && (#[trigger] self.entries@[i]).0@ == k;
                    self.entries@[i].1@
                },
        )
    }

    /// What looking `code` up gives: its image, if the cache holds one.
    pub open spec fn cached(&self, code: Seq<char>) -> Option<Seq<u8>> {
        if self.view().contains_key(code) {
            Some(self.view()[code])
        } else {
            None
        }
    }

    /// After `store` of an image for a code (`after` is the cache that
    /// `store` leaves, `before` the one it was called on), `lookup` of that
    /// code gives the image, `lookup` of every other code gives what it gave
    /// before, and storing the same image once more (`again`) changes nothing.
    pub proof fn law_lookup_after_store(
        before: IconCache,
        after: IconCache,
        again: IconCache,
        code: Seq<char>,
        data: Seq<u8>,
        other: Seq<char>,
    )
        requires
            after.view() == before.view().insert(code, data),
            again.view() == after.view().insert(code, data),
        ensures
            after.cached(code) == Some(data),
            other != code ==> after.cached(other) == before.cached(other),
            again.view() == after.view(),
            forall|c: Seq<char>| #[trigger] again.cached(c) == after.cached(c),
    {
        assert(after.view().insert(code, data) =~= after.view());
    }

    /// An empty cache.
    pub fn new() -> (r: Self)
        ensures
            r.view() == Map::<Seq<char>, Seq<u8>>::empty(),
            forall|c: Seq<char>| #[trigger] r.cached(c) is None,
    {
        let r = IconCache { entries: Vec::new() };
        assert(r.view() =~= Map::<Seq<char>, Seq<u8>>::empty());
        r
    }

    fn find(&self, code: &str) -> (r: Option<usize>)
        ensures
            match r {
                Some(i) => i < self.entries@.len() && self.entries@[i as int].0@ == code@,
                None => forall|i: int| 0 <= i < self.entries@.len() ==> (#[trigger] self.entries@[i]).0@ != code@,
            },
    {
        let mut i: usize = 0;
        while i < self.entries.len()
            invariant
                i <= self.entries@.len(),
                forall|j: int| 0 <= j < i ==> (#[trigger] self.entries@[j]).0@ != code@,
            decreases self.entries@.len() - i,
        {
            if str_eq(self.entries[i].0.as_str(), code) {
                return Some(i);
            }
            i = i + 1;
        }
        None
    }

    /// The image cached for `code`, if there is one.
    pub fn lookup(&self, code: &str) -> (r: Option<Vec<u8>>)
        ensures
            match r {
                Some(d) => self.view().contains_key(code@) && d@ == self.view()[code@],
                None => !self.view().contains_key(code@),
            },
            match r {
                Some(d) => self.cached(code@) == Some(d@),
                None => self.cached(code@) is None,
            },
    {
        proof {
            use_type_invariant(self);
        }
        match self.find(code) {
            Some(i) => {
                proof {
                    let k = code@;
                    assert(self.view().dom().contains(k));
                    let j = choose|j: int| 0 <= j < self.entries@.len() && (#[trigger] self.entries@[j]).0@ == k;
                    if j != i {
                        if j < i {
                            assert(self.entries@[j].0@ != self.entries@[i as int].0@);
                        } else {
                            assert(self.entries@[i as int].0@ != self.entries@[j].0@);
                        }
                    }
                }
                Some(self.entries[i].1.clone())
            },
            None => None,
        }
    }

    /// Keeps `data` as the image of `code`, in place of any image it had.
    pub fn store(&mut self, code: String, data: Vec<u8>)
        ensures
            final(self).view() == old(self).view().insert(code@, data@),
            final(self).cached(code@) == Some(data@),
            forall|c: Seq<char>| c != code@ ==> #[trigger] final(self).cached(c) == old(self).cached(c),
    {
        proof {
            use_type_invariant(&*self);
        }
        let ghost k = code@;
        let ghost d = data@;
        let ghost old_e = self.entries@;
        match self.find(code.as_str()) {
            Some(i) => {
                let ghost new_e = old_e.update(i as int, (code, data));
                proof {
                    assert forall|a: int, b: int|
                        0 <= a < b < new_e.len() implies (#[trigger] new_e[a]).0@ != (#[trigger] new_e[b]).0@ by {
                        assert(old_e[a].0@ != old_e[b].0@);
                    }
                }
                let mut entries: Vec<(String, Vec<u8>)> = Vec::new();
                std::mem::swap(&mut entries, &mut self.entries);
                entries.set(i, (code, data));
                self.entries = entries;
                proof {
                    assert forall|key: Seq<char>| #[trigger] self.view().contains_key(key) <==> old(
                        self,
                    ).view().insert(k, d).contains_key(key) by {
                        if key != k {
                            if self.view().contains_key(key) {
                                let j = choose|j: int| 0 <= j < self.entries@.len() && (#[trigger] self.entries@[j]).0@ == key;
                                assert(old(self).entries@[j].0@ == key);
                            }
                            if old(self).view().contains_key(key) {
                                let j = choose|j: int| 0 <= j < old(self).entries@.len() && (#[trigger] old(self).entries@[j]).0@ == key;
                                assert(self.entries@[j].0@ == key);
                            }
                        } else {
                            assert(self.entries@[i as int].0@ == k);
                        }
                    }
                    assert forall|key: Seq<char>| #[trigger] self.view().contains_key(key) implies self.view()[key]
                        == old(self).view().insert(k, d)[key] by {
                        let j = choose|j: int| 0 <= j < self.entries@.len() && (#[trigger] self.entries@[j]).0@ == key;
                        if key == k {
                            if j != i {
                                if j < i {
                                    assert(self.entries@[j].0@ != self.entries@[i as int].0@);
                                } else {
                                    assert(self.entries@[i as int].0@ != self.entries@[j].0@);
                                }
                            }
                        } else {
                            let oj = choose|oj: int| 0 <= oj < old(self).entries@.len() && (#[trigger] old(self).entries@[oj]).0@ == key;
                            assert(self.entries@[j] == old(self).entries@[j]);
                            if oj != j {
                                if oj < j {
                                    assert(old(self).entries@[oj].0@ != old(self).entries@[j].0@);
                                } else {
                                    assert(old(self).entries@[j].0@ != old(self).entries@[oj].0@);
                                }
                            }
                        }
                    }
                    assert(self.view() =~= old(self).view().insert(k, d));
                }
            },
            None => {
                let ghost new_e = old_e.push((code, data));
                proof {
                    let n = old_e.len();
                    assert forall|a: int, b: int|
                        0 <= a < b < new_e.len() implies (#[trigger] new_e[a]).0@ != (#[trigger] new_e[b]).0@ by {
                        if b < n {
                            assert(old_e[a].0@ != old_e[b].0@);
                        } else {
                            assert(old_e[a].0@ != k);
                        }
                    }
                }
                let mut entries: Vec<(String, Vec<u8>)> = Vec::new();
                std::mem::swap(&mut entries, &mut self.entries);
                entries.push((code, data));
                self.entries = entries;
                proof {
                    let n = old(self).entries@.len();
                    assert forall|key: Seq<char>| #[trigger] self.view().contains_key(key) <==> old(
                        self,
                    ).view().insert(k, d).contains_key(key) by {
                        if key != k {
                            if self.view().contains_key(key) {
                                let j = choose|j: int| 0 <= j < self.entries@.len() && (#[trigger] self.entries@[j]).0@ == key;
                                assert(old(self).entries@[j].0@ == key);
                            }
                            if old(self).view().contains_key(key) {
                                let j = choose|j: int| 0 <= j < old(self).entries@.len() && (#[trigger] old(self).entries@[j]).0@ == key;
                                assert(self.entries@[j].0@ == key);
                            }
                        } else {
                            assert(self.entries@[n as int].0@ == k);
                        }
                    }
                    assert forall|key: Seq<char>| #[trigger] self.view().contains_key(key) implies self.view()[key]
                        == old(self).view().insert(k, d)[key] by {
                        let j = choose|j: int| 0 <= j < self.entries@.len() && (#[trigger] self.entries@[j]).0@ == key;
                        if key == k {
                            if j != n {
                                assert(old(self).entries@[j].0@ != k);
                            }
                        } else {
                            let oj = choose|oj: int| 0 <= oj < old(self).entries@.len() && (#[trigger] old(self).entries@[oj]).0@ == key;
                            assert(self.entries@[j] == old(self).entries@[j]);
                            if oj != j {
                                if oj < j {
                                    assert(old(self).entries@[oj].0@ != old(self).entries@[j].0@);
                                } else {
                                    assert(old(self).entries@[j].0@ != old(self).entries@[oj].0@);
                                }
                            }
                        }
                    }
                    assert(self.view() =~= old(self).view().insert(k, d));
                }
            },
        }
    }
}

} // verus!
