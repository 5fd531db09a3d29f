//! One step of a folding, and the set of circuits that its configuration gives.

use std::sync::Arc;

use vstd::prelude::*;

use crate::config::{is_number, FoldingConfig};
use crate::frame::{MultiFrame, MultiFrameView};
use crate::lang::{Lang, Meta};
use crate::share::share;

verus! {

/// One step of an NIVC computation
#[derive(Debug)]
pub struct NIVCStep<T: Copy, W: Copy, C> {
    pub multiframe: MultiFrame<T, W, C>,
    /// What the step after this one works on, where the step is linked to it.
    pub next: Option<MultiFrame<T, W, C>>,
}

/// What an [`NIVCStep`] holds.
pub struct NIVCStepView<T: Copy, W: Copy, C> {
    pub multiframe: MultiFrameView<T, W, C>,
    pub next: Option<MultiFrameView<T, W, C>>,
}

impl<T: Copy, W: Copy, C> NIVCStepView<T, W, C> {
    /// A step on `multiframe` that is linked to no other.
    pub open spec fn unlinked(multiframe: MultiFrameView<T, W, C>) -> Self {
        NIVCStepView { multiframe, next: None }
    }

    /// An unlinked step on a blank.
    pub open spec fn blank(folding_config: FoldingConfig<C>, meta: Meta) -> Self {
        NIVCStepView::unlinked(MultiFrameView::blank(folding_config, meta))
    }

    /// The language of the step's configuration.
    pub open spec fn language(self) -> Lang<C> {
        self.multiframe.folding_config.language()
    }

    /// The number of the circuit that takes over after this step: the one that the next
    /// multiframe is assigned, or the universal circuit where the step is not linked.
    pub open spec fn next_circuit(self) -> int {
        match self.next {
            Some(next) => next.circuit(),
            None => 0,
        }
    }

    /// The circuit at `circuit_index` in the set that this step stands for.
    pub open spec fn circuit_at(self, circuit_index: int) -> Self {
        if circuit_index == 0 {
            self
        } else {
            NIVCStepView::blank(
                self.multiframe.folding_config,
                Meta::Coprocessor(self.language().z_ptrs()[circuit_index - 1]),
            )
        }
    }
}

impl<T: Copy, W: Copy, C> View for NIVCStep<T, W, C> {
    type V = NIVCStepView<T, W, C>;

    open spec fn view(&self) -> NIVCStepView<T, W, C> {
        NIVCStepView {
            multiframe: self.multiframe@,
            next: match self.next {
                Some(next) => Some(next@),
                None => None,
            },
        }
    }
}

impl<T: Copy, W: Copy, C> Clone for NIVCStep<T, W, C> {
    fn clone(&self) -> (step: Self)
        ensures
            step@ == self@,
    {
        let next = match &self.next {
            Some(next) => Some(next.clone()),
            None => None,
        };
        NIVCStep { multiframe: self.multiframe.clone(), next }
    }
}

impl<T: Copy, W: Copy, C> NIVCStep<T, W, C> {
    /// A step on `multiframe` that is linked to no other.
    pub fn new(multiframe: MultiFrame<T, W, C>) -> (step: Self)
        ensures
            step.multiframe == multiframe,
            step.next is None,
            step@ == NIVCStepView::unlinked(multiframe@),
    {
        Self { multiframe, next: None }
    }

    /// A step on a blank of the circuit that `folding_config` assigns to `meta`.
    pub fn blank(folding_config: Arc<FoldingConfig<C>>, meta: Meta) -> (step: Self)
        ensures
            step@ == NIVCStepView::<T, W, C>::blank(*folding_config, meta),
    {
        let multiframe = MultiFrame::blank(folding_config, meta);
        Self::new(multiframe)
    }

    /// The language of the step's configuration.
    pub fn lang(&self) -> (lang: Arc<Lang<C>>)
        ensures
            *lang == self@.language(),
    {
        share(self.multiframe.folding_config.lang())
    }

    /// The tag of the step's circuit.
    pub fn meta(&self) -> (meta: Meta)
        ensures
            meta == self@.multiframe.meta,
    {
        self.multiframe.meta
    }

    /// The step's configuration.
    pub fn folding_config(&self) -> (folding_config: Arc<FoldingConfig<C>>)
        ensures
            *folding_config == self@.multiframe.folding_config,
    {
        share(&self.multiframe.folding_config)
    }

    /// How many inputs, and how many outputs, the step's circuit has, if its public input,
    /// which holds both, has `public_input_size` elements.
    pub fn arity(&self, public_input_size: usize) -> (arity: usize)
        ensures
            arity == public_input_size / 2,
    {
        public_input_size / 2
    }

    /// The index of the step's circuit.
    pub fn circuit_index(&self) -> (index: usize)
        requires
            self@.multiframe.has_circuit(),
        ensures
            index == self@.multiframe.circuit(),
            index < self@.multiframe.folding_config.circuit_total(),
            is_number(index as int, *self.multiframe.folding_config, self.multiframe.meta),
    {
        self.multiframe.circuit_index()
    }

    /// The index of the circuit that takes over after this step. Where the step is linked to no
    /// other, the universal circuit, whose index is always 0, is a good default.
    pub fn next_circuit_index(&self) -> (index: usize)
        requires
            self@.next matches Some(next) ==> next.has_circuit(),
        ensures
            index == self@.next_circuit(),
            match self.next {
                Some(next) => is_number(index as int, *next.folding_config, next.meta),
                None => index == 0,
            },
    {
        match &self.next {
            Some(next) => next.circuit_index(),
            None => 0,
        }
    }

    /// The program counter that the step's circuit puts out.
    pub fn next_pc<F: From<u64>>(&self) -> (pc: F)
        requires
            self@.next matches Some(next) ==> next.has_circuit(),
        ensures
            call_ensures(F::from, (self@.next_circuit() as u64,), pc),
            0 <= self@.next_circuit() <= usize::MAX,
            match self.next {
                Some(next) => is_number(self@.next_circuit(), *next.folding_config, next.meta),
                None => self@.next_circuit() == 0,
            },
    {
        F::from(self.next_circuit_index() as u64)
    }

    /// The number of circuits in the set that this step stands for.
    pub fn num_circuits(&self) -> (count: usize)
        requires
            self@.multiframe.meta is Lurk,
        ensures
            count == self@.language()@.len() + 1,
            self@.language().well_formed(),
    {
        self.lang().coprocessor_count() + 1
    }

    /// The circuit at `circuit_index` in the set that this step stands for: the step itself comes
    /// first, and blanks of the coprocessors' circuits follow.
    pub fn primary_circuit(&self, circuit_index: usize) -> (circuit: Self)
        requires
            circuit_index <= self@.language()@.len(),
        ensures
            circuit@ == self@.circuit_at(circuit_index as int),
    {
        if circuit_index == 0 {
            return self.clone();
        }
        let lang = self.lang();
        let z_ptr = *lang.get_coprocessor_z_ptr(circuit_index - 1).unwrap();
        Self::blank(self.folding_config(), Meta::Coprocessor(z_ptr))
    }
}

} // verus!
