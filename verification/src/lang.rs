//! The language that a prover works for: the universal Lurk reduction, and the coprocessors
//! that extend it.

use vstd::prelude::*;

verus! {

/// The content address of an expression: the tag of its type, and its digest in two halves.
#[derive(Clone, Copy, Debug, PartialEq, Eq, Structural)]
pub struct ZExprPtr {
    pub tag: u16,
    pub digest_low: u128,
    pub digest_high: u128,
}

/// What a reduction frame is reduced by.
#[derive(Clone, Copy, Debug, PartialEq, Eq, Structural)]
pub enum Meta {
    /// The universal Lurk reduction.
    Lurk,
    /// The coprocessor found under this address.
    Coprocessor(ZExprPtr),
}

impl Meta {
    /// Whether the universal Lurk reduction is meant.
    pub fn is_lurk(&self) -> (b: bool)
        ensures
            b == (*self is Lurk),
    {
        match self {
            Meta::Lurk => true,
            Meta::Coprocessor(_) => false,
        }
    }
}

/// An ordered set of coprocessors, each known by its address.
#[derive(Debug)]
pub struct Lang<C> {
    entries: Vec<(ZExprPtr, C)>,
}

impl<C> View for Lang<C> {
    type V = Seq<(ZExprPtr, C)>;

    closed spec fn view(&self) -> Seq<(ZExprPtr, C)> {
        self.entries@
    }
}

impl<C> Lang<C> {
    /// The addresses of the coprocessors, in order.
    pub open spec fn z_ptrs(&self) -> Seq<ZExprPtr> {
        self@.map_values(|entry: (ZExprPtr, C)| entry.0)
    }

    /// No address stands for two coprocessors, and their number leaves room for one circuit more.
    pub open spec fn well_formed(&self) -> bool {
        &&& self.z_ptrs().no_duplicates()
        &&& self@.len() < usize::MAX
    }

    #[verifier::type_invariant]
    spec fn always_well_formed(&self) -> bool {
        self.well_formed()
    }

    /// A language without coprocessors.
    pub fn new() -> (lang: Self)
        ensures
            lang@ == Seq::<(ZExprPtr, C)>::empty(),
            lang.well_formed(),
    {
        Lang { entries: Vec::new() }
    }

    /// Finds `coprocessor` under `z_ptr` from now on: in the place of the one that was found
    /// there, or behind all others if there was none.
    pub fn add_coprocessor(&mut self, z_ptr: ZExprPtr, coprocessor: C)
        requires
            old(self)@.len() + 1 < usize::MAX,
        ensures
            final(self)@ == if old(self).z_ptrs().contains(z_ptr) {
                old(self)@.update(old(self).z_ptrs().index_of(z_ptr), (z_ptr, coprocessor))
            } else {
                old(self)@.push((z_ptr, coprocessor))
            },
            final(self).well_formed(),
    {
        proof {
            use_type_invariant(&*self);
        }
        let found = self.get_index(&z_ptr);
        let ghost before = self.z_ptrs();
        let mut entries: Vec<(ZExprPtr, C)> = Vec::new();
        std::mem::swap(&mut entries, &mut self.entries);
        match found {
            Some(i) => {
                entries.set(i, (z_ptr, coprocessor));
            },
            None => {
                entries.push((z_ptr, coprocessor));
            },
        }
        proof {
            let after = entries@.map_values(|entry: (ZExprPtr, C)| entry.0);
            if found is Some {
                assert(after =~= before);
            } else {
                assert(after =~= before.push(z_ptr));
            }
        }
        self.entries = entries;
    }

    /// The number of coprocessors.
    pub fn coprocessor_count(&self) -> (count: usize)
        ensures
            count == self@.len(),
            self.well_formed(),
    {
        proof {
            use_type_invariant(self);
        }
        self.entries.len()
    }

    /// The position of the coprocessor found under `z_ptr`, if there is one.
    pub fn get_index(&self, z_ptr: &ZExprPtr) -> (index: Option<usize>)
        ensures
            self.well_formed(),
            match index {
                Some(i) => {
                    &&& self.z_ptrs().contains(*z_ptr)
                    &&& i == self.z_ptrs().index_of(*z_ptr)
                    &&& i < self@.len()
                    &&& self@[i as int].0 == *z_ptr
                },
                None => !self.z_ptrs().contains(*z_ptr),
            },
    {
        proof {
            use_type_invariant(self);
        }
        let mut i: usize = 0;
        while i < self.entries.len()
            invariant
                self.well_formed(),
                i <= self.entries.len(),
                forall|j: int| 0 <= j < i ==> #[trigger] self.entries@[j].0 != *z_ptr,
            decreases self.entries.len() - i,
        {
            if self.entries[i].0 == *z_ptr {
                assert(self.z_ptrs()[i as int] == *z_ptr);
                return Some(i);
            }
            i += 1;
        }
        assert(forall|j: int|
            0 <= j < self.z_ptrs().len() ==> #[trigger] self.z_ptrs()[j] == self.entries@[j].0);
        None
    }

    /// The address of the coprocessor at `index`, if there is one.
    pub fn get_coprocessor_z_ptr(&self, index: usize) -> (z_ptr: Option<&ZExprPtr>)
        ensures
            z_ptr == if index < self@.len() {
                Some(&self@[index as int].0)
            } else {
                None
            },
    {
        if index < self.entries.len() {
            Some(&self.entries[index].0)
        } else {
            None
        }
    }
}

} // verus!
