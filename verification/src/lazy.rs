//! The container, its model and its three operations.

use vstd::prelude::*;

verus! {

/// The slot and the count of the computation's runs. They change together, so
/// they are replaced together.
struct Cache<T> {
    /// `None` until the first access, `Some` from then on.
    value: Option<T>,
    /// How often the computation has been run for this container.
    runs: Ghost<nat>,
}

/// A mutable view of the value in a filled slot.
fn present_mut<T>(slot: &mut Option<T>) -> (out: &mut T)
    requires
        *old(slot) is Some,
    ensures
        *out == old(slot).unwrap(),
        *final(slot) == Some(*final(out)),
    no_unwind
{
    match slot {
        Some(value) => value,
        None => unreached(),
    }
}

/// A lazy variable of type `T`, filled on first access by a computation of
/// type `F`.
///
/// `Default` is asked of `T` as a prerequisite of the abstraction; no
/// operation here builds a default value.
#[verifier::reject_recursive_types(T)]
pub struct Lazy<T, F> where T: Clone + Default, F: Fn() -> T {
    cache: Cache<T>,
    /// The function to call to calculate the value of the lazy variable.
    calculation: F,
}

impl<T, F> Lazy<T, F> where T: Clone + Default, F: Fn() -> T {
    /// The slot: `None` while the container is uninitialized, `Some(v)` once
    /// it holds `v`.
    pub closed spec fn slot(&self) -> Option<T> {
        self.cache.value
    }

    /// The computation that the container owns.
    pub closed spec fn calculation(&self) -> F {
        self.calculation
    }

    /// How often the computation has been run for this container.
    pub closed spec fn runs(&self) -> nat {
        self.cache.runs@
    }

    /// Validity of a container: its computation may be called, and it has
    /// been run once if the slot is filled and never if it is empty.
    #[verifier::type_invariant]
    pub open spec fn wf(&self) -> bool {
        &&& self.calculation().requires(())
        &&& self.runs() == (if self.slot() is Some { 1nat } else { 0nat })
    }

    /// The runs of the computation that the next access costs: one on an
    /// empty slot, none on a filled one.
    pub open spec fn runs_owed(&self) -> nat {
        if self.slot() is None { 1 } else { 0 }
    }

    /// Whether the next access may find or put `v` in the slot: on a filled
    /// slot `v` is the stored value, on an empty one `v` is a result of the
    /// computation.
    pub open spec fn settles_on(&self, v: T) -> bool {
        match self.slot() {
            Some(stored) => v == stored,
            None => self.calculation().ensures((), v),
        }
    }

    /// What every access does to the container, from `pre` to `post`: the
    /// computation stays, it is run only if the slot was empty, and the slot
    /// is filled afterwards.
    pub open spec fn touched(pre: Self, post: Self) -> bool {
        &&& post.calculation() == pre.calculation()
        &&& post.runs() == pre.runs() + pre.runs_owed()
        &&& post.slot() is Some
    }

    /// One read, from `pre` to `post`, that returned `out`: the slot keeps
    /// the value it had, or takes a result of the computation if it had none,
    /// and `out` is a duplicate of the value in the slot.
    pub open spec fn read(pre: Self, post: Self, out: T) -> bool {
        &&& Self::touched(pre, post)
        &&& pre.settles_on(post.slot().unwrap())
        &&& cloned(post.slot().unwrap(), out)
    }

    /// One mutable access, from `pre` to `post`, whose view showed `seen` when
    /// it was handed out and held `left` when the caller let go of it: `seen`
    /// is what a read would have found, and `left` is what the slot holds
    /// from then on.
    pub open spec fn wrote(pre: Self, post: Self, seen: T, left: T) -> bool {
        &&& Self::touched(pre, post)
        &&& pre.settles_on(seen)
        &&& post.slot() == Some(left)
    }

    /// Create a new lazy variable. The computation is kept and not run.
    ///
    /// `calculation` is the function to call to calculate the value of the
    /// lazy variable. It has to be callable: computations are total.
    pub fn new(calculation: F) -> (out: Self)
        requires
            calculation.requires(()),
        ensures
            out.wf(),
            out.slot() is None,
            out.runs() == 0,
            out.calculation() == calculation,
    {
        Self { cache: Cache { value: None, runs: Ghost(0) }, calculation }
    }

    /// Get the value of the lazy variable: a duplicate of the stored value,
    /// which is computed first if the slot is still empty.
    pub fn get(&mut self) -> (out: T)
        ensures
            final(self).wf(),
            Self::read(*old(self), *final(self), out),
    {
        proof {
            use_type_invariant(&*self);
        }
        if self.cache.value.is_some() {
            return self.cache.value.clone().unwrap();
        }
        self.cache = Cache {
            value: Some((self.calculation)()),
            runs: Ghost(self.cache.runs@ + 1),
        };
        self.cache.value.clone().unwrap()
    }

    /// Get a mutable reference to the value of the lazy variable, which is
    /// computed first if the slot is still empty. What the caller writes
    /// through the reference is what the slot holds afterwards.
    pub fn get_mut(&mut self) -> (out: &mut T)
        ensures
            final(self).wf(),
            Self::wrote(*old(self), *final(self), *out, *final(out)),
    {
        proof {
            use_type_invariant(&*self);
        }
        if self.cache.value.is_none() {
            self.cache = Cache {
                value: Some((self.calculation)()),
                runs: Ghost(self.cache.runs@ + 1),
            };
        }
        present_mut(&mut self.cache.value)
    }
}

} // verus!
