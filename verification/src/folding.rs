//! Recursive proofs: folding the steps of a computation one after the other.

use std::sync::Arc;

use vstd::pervasive::unreached;
use vstd::prelude::*;

use crate::config::{is_number, FoldingConfig};
use crate::lang::{Lang, Meta};
use crate::step::{NIVCStep, NIVCStepView};
use crate::steps::NIVCSteps;

verus! {

/// The two types of proofs that can be generated and verified.
#[derive(Debug)]
pub enum Proof<S> {
    /// A proof for the intermediate steps of a recursive computation
    Recursive(Box<S>),
    /// A proof for the final step of a recursive computation
    Compressed,
}

/// The operations of a folding scheme that a recursive proof is made with. The scheme decides
/// what the running claims `K` and the proof `S` are; each operation on a proof is given the index
/// of the running claim to work with, and the initial inputs of the primary and secondary
/// circuits. None of them reports a failure: one that cannot be carried out does not return.
pub struct FoldingScheme<Setup, Base, Prove, Verify> {
    /// Sets up one running claim for each circuit of the set that a step stands for.
    pub setup_running_claims: Setup,
    /// Makes the base step, for a step, an initial program counter, and a number of circuits.
    pub iter_base_step: Base,
    /// Folds a step into a proof.
    pub prove_step: Prove,
    /// Verifies a proof.
    pub verify: Verify,
}

/// How a folding goes: what it works with from its first step to its last, and the proofs that
/// it passes through.
pub struct Folding<T: Copy, W: Copy, C, F, G, K, S> {
    /// The step that the running claims are set up from.
    pub blank: NIVCStep<T, W, C>,
    /// One running claim for each circuit.
    pub claims: K,
    /// The program counter that the folding starts with.
    pub program_counter: F,
    /// The initial input of the primary circuits.
    pub z0_primary: Vec<F>,
    /// The initial input of the secondary circuit.
    pub z0_secondary: Vec<G>,
    /// The proofs: that of the base step first, and then one for each step that was folded.
    pub snarks: Seq<S>,
}

/// The initial input of the secondary circuit: a single zero.
pub open spec fn is_z0_secondary<G: From<u64>>(z0_secondary: Seq<G>) -> bool {
    z0_secondary.len() == 1 && call_ensures(G::from, (0u64,), z0_secondary[0])
}

impl<T: Copy, W: Copy, C, F: From<u64>, G: From<u64>, K, S> Folding<T, W, C, F, G, K, S> {
    /// Whether a folding of `steps` for `lang`, from `z0` on, may start like this: the running
    /// claims are set up for the circuits of `lang`, and the base step is made for the first step.
    pub open spec fn starts<
        Setup: Fn(&NIVCStep<T, W, C>) -> K,
        Base: Fn(&K, usize, &NIVCStep<T, W, C>, F, usize, &Vec<F>, &Vec<G>) -> S,
        Prove,
        Verify,
    >(
        self,
        steps: Seq<NIVCStep<T, W, C>>,
        reduction_count: usize,
        z0: Seq<F>,
        lang: Arc<Lang<C>>,
        scheme: FoldingScheme<Setup, Base, Prove, Verify>,
    ) -> bool {
        let circuit = steps[0]@.multiframe.circuit();
        &&& steps.len() > 0
        &&& 0 <= circuit <= usize::MAX
        &&& is_number(
            circuit,
            *steps[0].multiframe.folding_config,
            steps[0].multiframe.meta,
        )
        &&& steps[0]@.language()@.len() < usize::MAX
        &&& self.blank@ == NIVCStepView::<T, W, C>::blank(
            FoldingConfig::NIVC(lang, reduction_count),
            Meta::Lurk,
        )
        &&& call_ensures(scheme.setup_running_claims, (&self.blank,), self.claims)
        &&& call_ensures(F::from, (circuit as u64,), self.program_counter)
        &&& self.z0_primary@ == z0
        &&& is_z0_secondary(self.z0_secondary@)
        &&& self.snarks.len() > 0
        &&& call_ensures(
            scheme.iter_base_step,
            (
                &self.claims,
                circuit as usize,
                &steps[0],
                self.program_counter,
                (steps[0]@.language()@.len() + 1) as usize,
                &self.z0_primary,
                &self.z0_secondary,
            ),
            self.snarks[0],
        )
    }

    /// Whether `step` may be folded like this between the `i`th and the next proof: it is proved
    /// against the running claim of its own circuit, and what comes out is verified against that
    /// claim.
    pub open spec fn folds<
        Setup,
        Base,
        Prove: Fn(S, &K, usize, &NIVCStep<T, W, C>, &Vec<F>, &Vec<G>) -> S,
        Verify: Fn(&S, &K, usize, &Vec<F>, &Vec<G>),
    >(
        self,
        i: int,
        step: NIVCStep<T, W, C>,
        scheme: FoldingScheme<Setup, Base, Prove, Verify>,
    ) -> bool {
        let circuit = step@.multiframe.circuit() as usize;
        &&& 0 <= step@.multiframe.circuit() <= usize::MAX
        &&& is_number(circuit as int, *step.multiframe.folding_config, step.multiframe.meta)
        &&& call_ensures(
            scheme.prove_step,
            (
                self.snarks[i],
                &self.claims,
                circuit,
                &step,
                &self.z0_primary,
                &self.z0_secondary,
            ),
            self.snarks[i + 1],
        )
        &&& call_ensures(
            scheme.verify,
            (
                &self.snarks[i + 1],
                &self.claims,
                circuit,
                &self.z0_primary,
                &self.z0_secondary,
            ),
            (),
        )
    }
}

/// Whether `recursive` may be what folding `steps` for `lang` with `scheme`, from `z0` on, gives.
pub open spec fn proves<
    T: Copy,
    W: Copy,
    C,
    F: From<u64>,
    G: From<u64>,
    K,
    S,
    Setup: Fn(&NIVCStep<T, W, C>) -> K,
    Base: Fn(&K, usize, &NIVCStep<T, W, C>, F, usize, &Vec<F>, &Vec<G>) -> S,
    Prove: Fn(S, &K, usize, &NIVCStep<T, W, C>, &Vec<F>, &Vec<G>) -> S,
    Verify: Fn(&S, &K, usize, &Vec<F>, &Vec<G>),
>(
    recursive: Proof<S>,
    steps: Seq<NIVCStep<T, W, C>>,
    reduction_count: usize,
    z0: Seq<F>,
    lang: Arc<Lang<C>>,
    scheme: FoldingScheme<Setup, Base, Prove, Verify>,
) -> bool {
    recursive matches Proof::Recursive(snark) && exists|folding: Folding<T, W, C, F, G, K, S>|
        {
            &&& #[trigger] folding.starts(steps, reduction_count, z0, lang, scheme)
            &&& folding.snarks.len() == steps.len() + 1
            &&& forall|i: int|
                0 <= i < steps.len() ==> folding.folds(i, #[trigger] steps[i], scheme)
            &&& *snark == folding.snarks.last()
        }
}

/// Whether every operation of `scheme` may be called on anything.
pub open spec fn applicable<
    T: Copy,
    W: Copy,
    C,
    F,
    G,
    K,
    S,
    Setup: Fn(&NIVCStep<T, W, C>) -> K,
    Base: Fn(&K, usize, &NIVCStep<T, W, C>, F, usize, &Vec<F>, &Vec<G>) -> S,
    Prove: Fn(S, &K, usize, &NIVCStep<T, W, C>, &Vec<F>, &Vec<G>) -> S,
    Verify: Fn(&S, &K, usize, &Vec<F>, &Vec<G>),
>(scheme: FoldingScheme<Setup, Base, Prove, Verify>) -> bool {
    &&& forall|blank: &NIVCStep<T, W, C>|
        #[trigger] call_requires(scheme.setup_running_claims, (blank,))
    &&& forall|
        claims: &K,
        claim: usize,
        step: &NIVCStep<T, W, C>,
        program_counter: F,
        num_circuits: usize,
        z0: &Vec<F>,
        z0_secondary: &Vec<G>,
    |
        #[trigger] call_requires(
            scheme.iter_base_step,
            (claims, claim, step, program_counter, num_circuits, z0, z0_secondary),
        )
    &&& forall|
        snark: S,
        claims: &K,
        claim: usize,
        step: &NIVCStep<T, W, C>,
        z0: &Vec<F>,
        z0_secondary: &Vec<G>,
    |
        #[trigger] call_requires(
            scheme.prove_step,
            (snark, claims, claim, step, z0, z0_secondary),
        )
    &&& forall|snark: &S, claims: &K, claim: usize, z0: &Vec<F>, z0_secondary: &Vec<G>|
        #[trigger] call_requires(scheme.verify, (snark, claims, claim, z0, z0_secondary))
}

/// Whether `steps` can be folded for `lang`: the universal circuit comes first, and there is a
/// running claim for the circuit of every step.
pub open spec fn foldable<T: Copy, W: Copy, C>(
    steps: Seq<NIVCStepView<T, W, C>>,
    lang: Lang<C>,
) -> bool {
    &&& steps.len() > 0
    &&& steps[0].multiframe.meta is Lurk
    &&& forall|i: int|
        0 <= i < steps.len() ==> (#[trigger] steps[i]).multiframe.has_circuit()
            && steps[i].multiframe.circuit() <= lang@.len()
}

/// What verification answers when the check of a recursive proof ends with `outcome`.
pub open spec fn verdict_on<V, E>(outcome: Result<V, E>) -> Result<bool, E> {
    match outcome {
        Ok(_) => Ok(true),
        Err(error) => Err(error),
    }
}

/// What verification answers when the check of a recursive proof ends with `outcome`: that the
/// proof holds, or the error that was found.
pub fn verdict<V, E>(outcome: Result<V, E>) -> (result: Result<bool, E>)
    ensures
        result == verdict_on(outcome),
{
    match outcome {
        Ok(_) => Ok(true),
        Err(error) => Err(error),
    }
}

/// Whether verifying `recursive` against `claim`, from `z0` on, may end in `result`: what `check`
/// finds of the proof is answered.
pub open spec fn outcome_of_verifying<
    S,
    F,
    G: From<u64>,
    K,
    V,
    E,
    Check: Fn(&S, &K, &[F], &Vec<G>) -> Result<V, E>,
>(
    recursive: Proof<S>,
    claim: &K,
    z0: &[F],
    check: Check,
    result: Result<bool, E>,
) -> bool {
    recursive matches Proof::Recursive(snark) && exists|
        z0_secondary: Vec<G>,
        outcome: Result<V, E>,
    |
        {
            &&& is_z0_secondary(z0_secondary@)
            &&& #[trigger] call_ensures(check, (&*snark, claim, z0, &z0_secondary), outcome)
            &&& result == verdict_on(outcome)
        }
}

impl<S> Proof<S> {
    /// Proves the computation recursively, generating a recursive SNARK proof.
    pub fn prove_recursively<T: Copy, W: Copy, C, F, G, K, E, Setup, Base, Prove, Verify>(
        nivc_steps: &NIVCSteps<T, W, C>,
        reduction_count: usize,
        z0: Vec<F>,
        lang: Arc<Lang<C>>,
        scheme: &FoldingScheme<Setup, Base, Prove, Verify>,
    ) -> (result: Result<Self, E>) where
        F: From<u64>,
        G: From<u64>,
        Setup: Fn(&NIVCStep<T, W, C>) -> K,
        Base: Fn(&K, usize, &NIVCStep<T, W, C>, F, usize, &Vec<F>, &Vec<G>) -> S,
        Prove: Fn(S, &K, usize, &NIVCStep<T, W, C>, &Vec<F>, &Vec<G>) -> S,
        Verify: Fn(&S, &K, usize, &Vec<F>, &Vec<G>),

        requires
            foldable(nivc_steps@, *lang),
            applicable::<T, W, C, F, G, K, S, Setup, Base, Prove, Verify>(*scheme),
        ensures
            result matches Ok(recursive) && proves::<
                T,
                W,
                C,
                F,
                G,
                K,
                S,
                Setup,
                Base,
                Prove,
                Verify,
            >(
                recursive,
                nivc_steps.steps@,
                reduction_count,
                z0@,
                lang,
                *scheme,
            ),
    {
        let folding_config = Arc::new(FoldingConfig::new_nivc(lang, reduction_count));
        let blank = NIVCStep::blank(folding_config, Meta::Lurk);
        let claims = (scheme.setup_running_claims)(&blank);
        let z0_secondary = Self::z0_secondary::<G>();
        let first = nivc_steps.index(0);
        let first_index: usize = first.circuit_index();
        let program_counter = F::from(first_index as u64);
        let mut snark = (scheme.iter_base_step)(
            &claims,
            first_index,
            first,
            program_counter,
            first.num_circuits(),
            &z0,
            &z0_secondary,
        );
        let ghost mut folding = Folding {
            blank,
            claims,
            program_counter,
            z0_primary: z0,
            z0_secondary,
            snarks: seq![snark],
        };
        let mut i: usize = 0;
        while i < nivc_steps.num_steps()
            invariant
                i <= nivc_steps@.len(),
                foldable(nivc_steps@, *lang),
                applicable::<T, W, C, F, G, K, S, Setup, Base, Prove, Verify>(*scheme),
                folding.claims == claims,
                folding.z0_primary == z0,
                folding.z0_secondary == z0_secondary,
                folding.snarks.len() == i + 1,
                folding.snarks.last() == snark,
                folding.starts(nivc_steps.steps@, reduction_count, z0@, lang, *scheme),
                forall|j: int|
                    0 <= j < i ==> folding.folds(j, #[trigger] nivc_steps.steps@[j], *scheme),
            decreases nivc_steps@.len() - i,
        {
            let step = nivc_steps.index(i);
            let index: usize = step.circuit_index();
            snark = (scheme.prove_step)(snark, &claims, index, step, &z0, &z0_secondary);
            (scheme.verify)(&snark, &claims, index, &z0, &z0_secondary);
            proof {
                let before = folding;
                folding = Folding { snarks: before.snarks.push(snark), ..before };
                assert forall|j: int| 0 <= j < i + 1 implies folding.folds(
                    j,
                    #[trigger] nivc_steps.steps@[j],
                    *scheme,
                ) by {
                    if j < i {
                        assert(before.folds(j, nivc_steps.steps@[j], *scheme));
                    }
                }
            }
            i += 1;
        }
        Ok(Proof::Recursive(Box::new(snark)))
    }

    /// Verifies the proof given the claim, which (for now), contains the public parameters.
    ///
    /// `check` verifies a recursive proof against a claim and the initial inputs of the primary
    /// and secondary circuits. There is no way yet to verify a compressed proof.
    pub fn verify<F, G: From<u64>, K, V, E, Check>(
        &self,
        claim: &K,
        _num_steps: usize,
        z0: &[F],
        _zi: &[F],
        check: Check,
    ) -> (result: Result<bool, E>) where
        Check: Fn(&S, &K, &[F], &Vec<G>) -> Result<V, E>,

        requires
            *self is Recursive,
            forall|snark: &S, claim: &K, z0: &[F], z0_secondary: &Vec<G>|
                #[trigger] call_requires(check, (snark, claim, z0, z0_secondary)),
        ensures
            outcome_of_verifying::<S, F, G, K, V, E, Check>(*self, claim, z0, check, result),
    {
        let z0_secondary = Self::z0_secondary::<G>();
        match self {
            Proof::Recursive(snark) => verdict(check(&**snark, claim, z0, &z0_secondary)),
            Proof::Compressed => unreached(),
        }
    }

    /// The initial input of the secondary circuit.
    fn z0_secondary<G: From<u64>>() -> (z0_secondary: Vec<G>)
        ensures
            is_z0_secondary(z0_secondary@),
    {
        let mut z0_secondary: Vec<G> = Vec::new();
        z0_secondary.push(G::from(0u64));
        z0_secondary
    }
}

} // verus!
