//! A stack of hash maps: a scoped lookup structure in which an inner frame
//! shadows the frames beneath it. Lookups walk the stack from the innermost
//! frame outwards; insertions go to the innermost frame only.
//!
//! Contracts over the map contents hold whenever the key type has a hash
//! table key model (`obeys_key_model`); the frame structure itself is
//! specified unconditionally.

use core::hash::Hash;
use std::collections::HashMap;

use vstd::prelude::*;
use vstd::std_specs::hash::obeys_key_model;

verus! {

broadcast use vstd::std_specs::hash::group_hash_axioms;

/// The value a key resolves to in a stack of frames: the binding of the
/// innermost frame that contains it, if any does.
pub open spec fn stack_lookup<K, V>(frames: Seq<Map<K, V>>, k: K) -> Option<V>
    decreases frames.len(),
{
    if frames.len() == 0 {
        None
    } else if frames.last().contains_key(k) {
        Some(frames.last()[k])
    } else {
        stack_lookup(frames.drop_last(), k)
    }
}

#[derive(Debug)]
pub struct StackHashMap<K, V> {
    data: Vec<HashMap<K, V>>,
}

impl<K, V> View for StackHashMap<K, V> {
    type V = Seq<Map<K, V>>;

    closed spec fn view(&self) -> Seq<Map<K, V>> {
        self.data@.map_values(|m: HashMap<K, V>| m@)
    }
}

impl<K: Eq + Hash, V> StackHashMap<K, V> {
    /// The stack always keeps at least its outermost frame.
    pub open spec fn inv(self) -> bool {
        self@.len() >= 1
    }

    /// A fresh stack: one empty frame.
    pub fn new() -> (s: Self)
        ensures
            s.inv(),
            s@ == seq![Map::<K, V>::empty()],
    {
        let mut data: Vec<HashMap<K, V>> = Vec::new();
        data.push(HashMap::new());
        let s = StackHashMap { data };
        proof {
            assert(s@ =~= seq![Map::<K, V>::empty()]);
        }
        s
    }

    /// How many frames are on the stack.
    pub fn height(&self) -> (n: usize)
        ensures
            n == self@.len(),
    {
        self.data.len()
    }

    /// Open a new innermost frame.
    pub fn push_frame(&mut self)
        ensures
            final(self)@ == old(self)@.push(Map::<K, V>::empty()),
            final(self).inv(),
    {
        self.data.push(HashMap::new());
        proof {
            assert(self@ =~= old(self)@.push(Map::<K, V>::empty()));
        }
    }

    /// Discard the innermost frame. The outermost frame is never popped.
    pub fn pop_frame(&mut self)
        requires
            old(self)@.len() >= 2,
        ensures
            final(self)@ == old(self)@.drop_last(),
            final(self).inv(),
    {
        self.data.pop();
        proof {
            assert(self@ =~= old(self)@.drop_last());
        }
    }

    /// Look a key up, innermost frame first.
    pub fn get<'a>(&'a self, k: &K) -> (r: Option<&'a V>)
        ensures
            obeys_key_model::<K>() ==> match r {
                Some(v) => stack_lookup(self@, *k) == Some(*v),
                None => stack_lookup(self@, *k) is None,
            },
    {
        let mut i: usize = self.data.len();
        proof {
            assert(self@.take(i as int) =~= self@);
        }
        while i > 0
            invariant
                i <= self.data@.len(),
                obeys_key_model::<K>() ==> stack_lookup(self@.take(i as int), *k) == stack_lookup(
                    self@,
                    *k,
                ),
            decreases i,
        {
            i = i - 1;
            proof {
                assert(self@.take(i + 1).last() == self@[i as int]);
                assert(self@.take(i + 1).drop_last() =~= self@.take(i as int));
            }
            match self.data[i].get(k) {
                Some(v) => {
                    return Some(v);
                },
                None => {},
            }
        }
        proof {
            assert(self@.take(0) =~= Seq::<Map<K, V>>::empty());
        }
        None
    }

    /// Bind a key in the innermost frame, returning the binding it replaces
    /// there. Bindings in outer frames are untouched: they are shadowed, not
    /// overwritten.
    pub fn insert(&mut self, k: K, v: V) -> (r: Option<V>)
        requires
            old(self).inv(),
        ensures
            final(self).inv(),
            final(self)@.len() == old(self)@.len(),
            obeys_key_model::<K>() ==> {
                &&& final(self)@ == old(self)@.update(
                    old(self)@.len() - 1,
                    old(self)@.last().insert(k, v),
                )
                &&& match r {
                    Some(v0) => old(self)@.last().contains_key(k) && v0 == old(self)@.last()[k],
                    None => !old(self)@.last().contains_key(k),
                }
            },
    {
        let mut top = match self.data.pop() {
            Some(m) => m,
            None => {
                proof {
                    assert(false);
                }
                HashMap::new()
            },
        };
        let r = top.insert(k, v);
        self.data.push(top);
        proof {
            assert(self@.len() == old(self)@.len());
            if obeys_key_model::<K>() {
                assert(self@ =~= old(self)@.update(
                    old(self)@.len() - 1,
                    old(self)@.last().insert(k, v),
                ));
            }
        }
        r
    }

    /// Run `f` on the stack with one extra frame, then discard that frame:
    /// bindings made inside the scope do not survive it, and the height is
    /// restored to what it was. `f` must leave the height as it found it.
    pub fn scope<F: FnOnce(Self) -> Self>(self, f: F) -> (r: Self)
        requires
            self.inv(),
            forall|s: Self| s@ == self@.push(Map::<K, V>::empty()) ==> call_requires(f, (s,)),
            forall|s: Self, t: Self| #[trigger] call_ensures(f, (s,), t) ==> t@.len() == s@.len(),
        ensures
            r.inv(),
            r@.len() == self@.len(),
            exists|s: Self, t: Self|
                {
                    &&& s@ == self@.push(Map::<K, V>::empty())
                    &&& #[trigger] call_ensures(f, (s,), t)
                    &&& r@ == t@.drop_last()
                },
    {
        let ghost orig = self;
        let mut inner = self;
        inner.push_frame();
        let ghost pushed = inner;
        let mut scoped = f(inner);
        let ghost mid = scoped;
        scoped.pop_frame();
        proof {
            assert(pushed@ == orig@.push(Map::<K, V>::empty()));
            assert(call_ensures(f, (pushed,), mid));
            assert(scoped@ == mid@.drop_last());
        }
        scoped
    }
}

} // verus!
