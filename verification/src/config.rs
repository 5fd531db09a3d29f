//! How the circuits of a folding are numbered.

use std::sync::Arc;

use vstd::prelude::*;

use crate::lang::{Lang, Meta};
use crate::share::share;

verus! {

/// Folding configuration: the [`Lang`] that is folded, the number of reductions in one step of
/// the universal circuit, and whether one circuit does all the work (`IVC`) or several share it
/// (`NIVC`).
#[derive(Debug)]
pub enum FoldingConfig<C> {
    /// A single circuit implementing the `Lang`'s reduction is used for every folding step.
    IVC(Arc<Lang<C>>, usize),
    /// Each folding step uses one of a fixed set of circuits which together implement the
    /// `Lang`'s reduction.
    NIVC(Arc<Lang<C>>, usize),
}

/// Whether `index` is a number of the circuit for what is tagged with `meta`: that of the
/// coprocessor at the place before it, or 0 where there is none to tell apart.
pub open spec fn is_number<C>(index: int, config: FoldingConfig<C>, meta: Meta) -> bool {
    match (config, meta) {
        (FoldingConfig::NIVC(lang, _), Meta::Coprocessor(z_ptr)) => {
            &&& 0 < index <= lang@.len()
            &&& lang@[index - 1].0 == z_ptr
        },
        _ => index == 0,
    }
}

impl<C> Clone for FoldingConfig<C> {
    fn clone(&self) -> (config: Self)
        ensures
            config == *self,
    {
        match self {
            Self::IVC(lang, count) => Self::IVC(share(lang), *count),
            Self::NIVC(lang, count) => Self::NIVC(share(lang), *count),
        }
    }
}

impl<C> FoldingConfig<C> {
    /// The language that is folded.
    pub open spec fn language(self) -> Lang<C> {
        match self {
            FoldingConfig::IVC(lang, _) => *lang,
            FoldingConfig::NIVC(lang, _) => *lang,
        }
    }

    /// Whether there is a circuit for what is tagged with `meta`.
    pub open spec fn has_circuit(self, meta: Meta) -> bool {
        match (self, meta) {
            (FoldingConfig::NIVC(lang, _), Meta::Coprocessor(z_ptr)) => lang.z_ptrs().contains(
                z_ptr,
            ),
            _ => true,
        }
    }

    /// The number of the circuit for what is tagged with `meta`: the universal circuit comes
    /// first, and the coprocessors follow in their order.
    pub open spec fn circuit_of(self, meta: Meta) -> int
        recommends
            self.has_circuit(meta),
    {
        match (self, meta) {
            (FoldingConfig::NIVC(lang, _), Meta::Coprocessor(z_ptr)) => 1
                + lang.z_ptrs().index_of(z_ptr),
            _ => 0,
        }
    }

    /// How many circuits a folding with this configuration may need.
    pub open spec fn circuit_total(self) -> nat {
        match self {
            FoldingConfig::IVC(_, _) => 1,
            FoldingConfig::NIVC(lang, _) => 1 + lang@.len(),
        }
    }

    /// The number of reductions in one step of the universal circuit.
    pub open spec fn reductions(self) -> usize {
        match self {
            FoldingConfig::IVC(_, count) => count,
            FoldingConfig::NIVC(_, count) => count,
        }
    }

    /// Create a new IVC config for `lang`.
    pub fn new_ivc(lang: Arc<Lang<C>>, reduction_count: usize) -> (config: Self)
        ensures
            config == FoldingConfig::IVC(lang, reduction_count),
    {
        Self::IVC(lang, reduction_count)
    }

    /// Create a new NIVC config for `lang`.
    pub fn new_nivc(lang: Arc<Lang<C>>, reduction_count: usize) -> (config: Self)
        ensures
            config == FoldingConfig::NIVC(lang, reduction_count),
    {
        Self::NIVC(lang, reduction_count)
    }

    /// Return the circuit index assigned in this `FoldingConfig` to circuits tagged with this
    /// `meta`.
    pub fn circuit_index(&self, meta: &Meta) -> (index: usize)
        requires
            self.has_circuit(*meta),
        ensures
            index == self.circuit_of(*meta),
            index < self.circuit_total(),
            is_number(index as int, *self, *meta),
            self is NIVC && *meta is Coprocessor ==> self.language().well_formed(),
    {
        match self {
            Self::IVC(_, _) => 0,
            Self::NIVC(lang, _) => match meta {
                Meta::Lurk => 0,
                Meta::Coprocessor(z_ptr) => lang.get_index(z_ptr).unwrap() + 1,
            },
        }
    }

    /// Return the total number of NIVC circuits potentially required when folding programs
    /// described by this `FoldingConfig`.
    pub fn num_circuits(&self) -> (count: usize)
        ensures
            count == self.circuit_total(),
            self is NIVC ==> self.language().well_formed(),
    {
        match self {
            Self::IVC(_, _) => 1,
            Self::NIVC(lang, _) => 1 + lang.coprocessor_count(),
        }
    }

    /// Return a reference to the contained `Lang`.
    pub fn lang(&self) -> (lang: &Arc<Lang<C>>)
        ensures
            **lang == self.language(),
    {
        match self {
            Self::IVC(lang, _) | Self::NIVC(lang, _) => lang,
        }
    }

    /// Return contained reduction count.
    pub fn reduction_count(&self) -> (count: usize)
        ensures
            count == self.reductions(),
    {
        match self {
            Self::IVC(_, rc) | Self::NIVC(_, rc) => *rc,
        }
    }
}

} // verus!
