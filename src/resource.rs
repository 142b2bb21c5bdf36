//! A keyed collection of records, at most one for each identifier.
use vstd::prelude::*;
use crate::error::Error;
use crate::graph::{Identify, has_key, keys_unique};

verus! {

/// The position of the record with identifier `k` in `s`, where there is one.
pub open spec fn index_of<T: Identify>(s: Seq<T>, k: u64) -> int {
    choose|i: int| 0 <= i < s.len() && (#[trigger] s[i]).key() == k
}

/// What `create` makes of the records `s` when handed `v`.
pub open spec fn create_spec<T: Identify>(s: Seq<T>, v: T) -> Result<Seq<T>, Error> {
    if has_key(s, v.key()) {
        Err(Error::AlreadyExists)
    } else {
        Ok(s.push(v))
    }
}

/// What `delete` makes of the records `s` when handed the identifier `k`.
pub open spec fn delete_spec<T: Identify>(s: Seq<T>, k: u64) -> Result<Seq<T>, Error> {
    if has_key(s, k) {
        Ok(s.remove(index_of(s, k)))
    } else {
        Err(Error::NotFound)
    }
}

/// The records of `s` after `r`, the outcome of `create_spec` or `delete_spec` on them.
pub open spec fn after<T>(s: Seq<T>, r: Result<Seq<T>, Error>) -> Seq<T> {
    match r {
        Ok(t) => t,
        Err(_) => s,
    }
}

/// The unit result that goes with the outcome `r`.
pub open spec fn unit_of<T>(r: Result<Seq<T>, Error>) -> Result<(), Error> {
    match r {
        Ok(_) => Ok(()),
        Err(e) => Err(e),
    }
}

/// A mapping from identifier to record, keys unique, owned by its repository.
pub struct ResourceMap<T> {
    records: Vec<T>,
}

impl<T: Identify> ResourceMap<T> {
    pub closed spec fn view(&self) -> Seq<T> {
        self.records@
    }

    pub open spec fn wf(&self) -> bool {
        keys_unique(self@)
    }

    pub fn new() -> (r: Self)
        ensures
            r.wf(),
            r@ == Seq::<T>::empty(),
    {
        ResourceMap { records: Vec::new() }
    }

    /// All records, in the order they were created.
    pub fn values(&self) -> (r: &Vec<T>)
        ensures
            r@ == self@,
    {
        &self.records
    }

    fn position(&self, k: u64) -> (r: Option<usize>)
        requires
            self.wf(),
        ensures
            match r {
                Some(i) => i < self@.len() && self@[i as int].key() == k && i == index_of(self@, k),
                None => !has_key(self@, k),
            },
    {
        let mut i: usize = 0;
        while i < self.records.len()
            invariant
                self.wf(),
                i <= self.records@.len(),
                forall|j: int| 0 <= j < i ==> (#[trigger] self.records@[j]).key() != k,
            decreases self.records@.len() - i,
        {
            if self.records[i].id() == k {
                proof {
                    assert(self@[i as int].key() == k);
                    assert(has_key(self@, k));
                    let j = index_of(self@, k);
                    assert(0 <= j < self@.len() && self@[j].key() == k);
                    if j != i {
                        assert(self@[j].key() != self@[i as int].key());
                    }
                }
                return Some(i);
            }
            i = i + 1;
        }
        None
    }

    /// The record with identifier `k`.
    pub fn find(&self, k: u64) -> (r: Result<&T, Error>)
        requires
            self.wf(),
        ensures
            match r {
                Ok(v) => has_key(self@, k) && *v == self@[index_of(self@, k)],
                Err(e) => e == Error::NotFound && !has_key(self@, k),
            },
    {
        match self.position(k) {
            Some(i) => Ok(&self.records[i]),
            None => Err(Error::NotFound),
        }
    }

    /// Adds `v`; fails with `AlreadyExists` if a record has its identifier.
    pub fn create(&mut self, v: T) -> (r: Result<(), Error>)
        requires
            old(self).wf(),
        ensures
            final(self).wf(),
            final(self)@ == after(old(self)@, create_spec(old(self)@, v)),
            r == unit_of(create_spec(old(self)@, v)),
    {
        let k = v.id();
        match self.position(k) {
            Some(_) => Err(Error::AlreadyExists),
            None => {
                self.records.push(v);
                assert forall|a: int, b: int|
                    0 <= a < self.records@.len() && 0 <= b < self.records@.len() && a != b implies (
                    #[trigger] self.records@[a]).key() != (#[trigger] self.records@[b]).key() by {
                    let n = self.records@.len() - 1;
                    if a == n {
                        assert(self.records@[b] == old(self).records@[b]);
                    } else if b == n {
                        assert(self.records@[a] == old(self).records@[a]);
                    }
                }
                Ok(())
            },
        }
    }

    /// Removes the record with identifier `k`; fails with `NotFound` if there is none.
    pub fn delete(&mut self, k: u64) -> (r: Result<(), Error>)
        requires
            old(self).wf(),
        ensures
            final(self).wf(),
            final(self)@ == after(old(self)@, delete_spec(old(self)@, k)),
            r == unit_of(delete_spec(old(self)@, k)),
    {
        match self.position(k) {
            None => Err(Error::NotFound),
            Some(i) => {
                self.records.remove(i);
                assert forall|a: int, b: int|
                    0 <= a < self.records@.len() && 0 <= b < self.records@.len() && a != b implies (
                    #[trigger] self.records@[a]).key() != (#[trigger] self.records@[b]).key() by {
                    let a0 = if a < i { a } else { a + 1 };
                    let b0 = if b < i { b } else { b + 1 };
                    assert(self.records@[a] == old(self).records@[a0]);
                    assert(self.records@[b] == old(self).records@[b0]);
                }
                Ok(())
            },
        }
    }

    /// Replaces the record with the identifier of `v` by `v`; fails with `NotFound` if
    /// there is none.
    pub fn update(&mut self, v: T) -> (r: Result<(), Error>)
        requires
            old(self).wf(),
        ensures
            final(self).wf(),
            has_key(old(self)@, v.key()) ==> r is Ok && final(self)@ == old(self)@.update(
                index_of(old(self)@, v.key()),
                v,
            ),
            !has_key(old(self)@, v.key()) ==> r == Err::<(), Error>(Error::NotFound)
                && final(self)@ == old(self)@,
    {
        let k = v.id();
        match self.position(k) {
            None => Err(Error::NotFound),
            Some(i) => {
                self.records.set(i, v);
                assert forall|a: int, b: int|
                    0 <= a < self.records@.len() && 0 <= b < self.records@.len() && a != b implies (
                    #[trigger] self.records@[a]).key() != (#[trigger] self.records@[b]).key() by {
                    if a != i && b != i {
                        assert(old(self).records@[a] == self.records@[a]);
                        assert(old(self).records@[b] == self.records@[b]);
                    } else if a == i {
                        assert(old(self).records@[b] == self.records@[b]);
                    } else {
                        assert(old(self).records@[a] == self.records@[a]);
                    }
                }
                Ok(())
            },
        }
    }
}

/// A record can be created again once it has been deleted; creating a second record
/// under an identifier in use fails with `AlreadyExists`; deleting an identifier never
/// used fails with `NotFound`.
pub proof fn lemma_create_delete<T: Identify>(s: Seq<T>, v: T, w: T)
    requires
        keys_unique(s),
        v.key() == w.key(),
    ensures
        delete_spec(s, v.key()) is Ok ==> create_spec(after(s, delete_spec(s, v.key())), v) is Ok,
        create_spec(s, v) is Ok ==> create_spec(after(s, create_spec(s, v)), w) == Err::<
            Seq<T>,
            Error,
        >(Error::AlreadyExists),
        !has_key(s, v.key()) ==> delete_spec(s, v.key()) == Err::<Seq<T>, Error>(Error::NotFound),
{
    let k = v.key();
    if has_key(s, k) {
        let i = index_of(s, k);
        let t = s.remove(i);
        if has_key(t, k) {
            let j = choose|j: int| 0 <= j < t.len() && (#[trigger] t[j]).key() == k;
            let j0 = if j < i { j } else { j + 1 };
            assert(t[j] == s[j0]);
        }
    }
    let u = s.push(v);
    assert(u[u.len() - 1] == v);
}

} // verus!
