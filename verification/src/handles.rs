use vstd::prelude::*;

verus! {

/// An arena that lets in-flight protocol state (coefficients, round state,
/// commitment-share lists, aggregators) outlive a single call when the caller
/// lives in an ownership-unaware domain and can only carry an integer handle.
///
/// Exactly one live handle refers to each registered value.  Taking a value
/// out or dropping it invalidates its handle; both report, rather than
/// assume, whether the handle was still live, so a second release of the same
/// handle is observable instead of undefined.  A caller that can hold the
/// protocol objects directly does not need this layer at all.
pub struct Registry<T> {
    slots: Vec<Option<T>>,
}

impl<T> View for Registry<T> {
    type V = Map<int, T>;

    /// The live handles and the values they refer to.
    closed spec fn view(&self) -> Map<int, T> {
        Map::new(
            |h: int| 0 <= h < self.slots@.len() && self.slots@[h] is Some,
            |h: int| self.slots@[h]->Some_0,
        )
    }
}

impl<T> Registry<T> {
    /// How many handles have ever been issued; handles are never reused, so
    /// this only grows.
    pub closed spec fn issued(self) -> nat {
        self.slots@.len()
    }

    /// An empty registry: no handle is live.
    pub fn new() -> (r: Registry<T>)
        ensures
            r@ == Map::<int, T>::empty(),
            r.issued() == 0,
    {
        let r = Registry { slots: Vec::new() };
        proof {
            assert(r@ =~= Map::<int, T>::empty());
        }
        r
    }

    /// Take ownership of `v` and hand back a fresh handle for it.
    pub fn into_boxed_handle(&mut self, v: T) -> (h: i64)
        requires
            old(self).issued() < 0x7fff_ffff_ffff_ffff,
        ensures
            0 <= h,
            !old(self)@.dom().contains(h as int),
            final(self)@ == old(self)@.insert(h as int, v),
            final(self).issued() == old(self).issued() + 1,
    {
        let h = self.slots.len();
        self.slots.push(Some(v));
        proof {
            assert(self@ =~= old(self)@.insert(h as int, v));
        }
        h as i64
    }

    /// Borrow the value a live handle refers to; `None` if the handle is not
    /// (or no longer) live.
    pub fn resolve(&self, h: i64) -> (r: Option<&T>)
        ensures
            match r {
                Some(v) => self@.dom().contains(h as int) && *v == self@[h as int],
                None => !self@.dom().contains(h as int),
            },
    {
        if h < 0 || h as u64 >= self.slots.len() as u64 {
            return None;
        }
        let i = h as usize;
        match &self.slots[i] {
            Some(v) => Some(v),
            None => None,
        }
    }

    /// Move the value out, invalidating the handle.  `None` if the handle is
    /// not (or no longer) live; the registry is unchanged in that case.
    pub fn from_handle(&mut self, h: i64) -> (r: Option<T>)
        ensures
            old(self)@.dom().contains(h as int) ==> r == Some(old(self)@[h as int])
                && final(self)@ == old(self)@.remove(h as int),
            !old(self)@.dom().contains(h as int) ==> r is None && final(self)@ == old(self)@,
            final(self).issued() == old(self).issued(),
    {
        if h < 0 || h as u64 >= self.slots.len() as u64 {
            return None;
        }
        let i = h as usize;
        self.slots.push(None);
        let r = self.slots.swap_remove(i);
        proof {
            if old(self)@.dom().contains(h as int) {
                assert(self@ =~= old(self)@.remove(h as int));
            } else {
                assert(self.slots@ =~= old(self).slots@);
                assert(self@ =~= old(self)@);
            }
        }
        r
    }

    /// Destroy the value a handle refers to.  Returns whether the handle was
    /// still live; dropping an already-released handle changes nothing.
    pub fn drop_handle(&mut self, h: i64) -> (r: bool)
        ensures
            r == old(self)@.dom().contains(h as int),
            final(self)@ == old(self)@.remove(h as int),
            final(self).issued() == old(self).issued(),
    {
        let taken = self.from_handle(h);
        proof {
            if !old(self)@.dom().contains(h as int) {
                assert(self@ =~= old(self)@.remove(h as int));
            }
        }
        taken.is_some()
    }
}

} // verus!
