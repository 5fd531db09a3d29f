//! What the operations may be called on.

use std::sync::Arc;

use vstd::prelude::*;

use crate::config::FoldingConfig;
use crate::folding::{applicable, FoldingScheme, Proof};
use crate::frame::{Frame, MultiFrame};
use crate::lang::{Lang, Meta, ZExprPtr};
use crate::prover::{provable, SuperNovaProver};
use crate::step::NIVCStep;
use crate::steps::NIVCSteps;

verus! {

/// Whether there is a circuit for `meta`: one for everything, the universal one, or that of a
/// coprocessor of the language.
pub open spec fn known<C>(config: FoldingConfig<C>, meta: Meta) -> bool {
    match (config, meta) {
        (FoldingConfig::NIVC(lang, _), Meta::Coprocessor(z_ptr)) => exists|k: int|
            0 <= k < lang@.len() && (#[trigger] lang@[k]).0 == z_ptr,
        _ => true,
    }
}

/// What is known to a configuration has a circuit in it.
proof fn lemma_known_has_circuit<C>(config: FoldingConfig<C>, meta: Meta)
    requires
        known(config, meta),
    ensures
        config.has_circuit(meta),
        config is NIVC ==> 0 <= config.circuit_of(meta) <= config.language()@.len(),
{
    if config is NIVC && meta is Coprocessor {
        let z_ptr = meta->Coprocessor_0;
        let lang = config.language();
        let k = choose|k: int| 0 <= k < lang@.len() && (#[trigger] lang@[k]).0 == z_ptr;
        assert(lang.z_ptrs()[k] == z_ptr);
    }
}

/// A coprocessor may be added as long as its circuit, and one more, can be numbered.
pub proof fn law_coprocessor_may_be_added<C>(lang: &mut Lang<C>, z_ptr: ZExprPtr, coprocessor: C)
    requires
        old(lang)@.len() + 1 < usize::MAX,
    ensures
        call_requires(Lang::<C>::add_coprocessor, (lang, z_ptr, coprocessor)),
{
}

/// Whatever is known to the configuration may be asked for its index.
pub proof fn law_known_circuits_may_be_numbered<T: Copy, W: Copy, C>(step: &NIVCStep<T, W, C>)
    requires
        known(*step.multiframe.folding_config, step.multiframe.meta),
    ensures
        call_requires(
            FoldingConfig::<C>::circuit_index,
            (&*step.multiframe.folding_config, &step.multiframe.meta),
        ),
        call_requires(MultiFrame::<T, W, C>::circuit_index, (&step.multiframe,)),
        call_requires(NIVCStep::<T, W, C>::circuit_index, (step,)),
{
    lemma_known_has_circuit(step@.multiframe.folding_config, step.multiframe.meta);
}

/// Any step may be asked where it leads to, if what it is linked to is known.
pub proof fn law_linked_steps_may_be_followed<T: Copy, W: Copy, C, F: From<u64>>(
    step: &NIVCStep<T, W, C>,
)
    requires
        step.next is Some ==> known(*step.next->0.folding_config, step.next->0.meta),
    ensures
        call_requires(NIVCStep::<T, W, C>::next_circuit_index, (step,)),
        call_requires(NIVCStep::<T, W, C>::next_pc::<F>, (step,)),
{
    if step.next is Some {
        lemma_known_has_circuit(step@.next->0.folding_config, step.next->0.meta);
    }
}

/// A universal step may be asked how many circuits are in its set, and a step for each of them.
pub proof fn law_circuits_of_the_set_may_be_asked_for<T: Copy, W: Copy, C>(
    step: &NIVCStep<T, W, C>,
    circuit_index: usize,
)
    requires
        match *step.multiframe.folding_config {
            FoldingConfig::IVC(lang, _) => circuit_index <= lang@.len(),
            FoldingConfig::NIVC(lang, _) => circuit_index <= lang@.len(),
        },
    ensures
        step.multiframe.meta is Lurk ==> call_requires(
            NIVCStep::<T, W, C>::num_circuits,
            (step,),
        ),
        call_requires(NIVCStep::<T, W, C>::primary_circuit, (step, circuit_index)),
{
}

/// Frames may be grouped by any count but 0, and shared out if they make more than one step.
pub proof fn law_frames_may_be_shared_out<T: Copy, W: Copy, C>(
    count: usize,
    frames: &[Frame<T, W>],
    config: Arc<FoldingConfig<C>>,
)
    requires
        count > 0,
    ensures
        call_requires(MultiFrame::<T, W, C>::from_frames, (count, frames, config)),
        frames@.len() > count ==> call_requires(
            NIVCSteps::<T, W, C>::from_frames,
            (count, frames, config),
        ),
        (exists|i: int, j: int|
            0 <= i < j < frames@.len() && (#[trigger] frames@[i]).meta != (
            #[trigger] frames@[j]).meta) ==> call_requires(
            NIVCSteps::<T, W, C>::from_frames,
            (count, frames, config),
        ),
{
    if exists|i: int, j: int|
        0 <= i < j < frames@.len() && (#[trigger] frames@[i]).meta != (#[trigger] frames@[j]).meta {
        let (i, j) = choose|i: int, j: int|
            0 <= i < j < frames@.len() && (#[trigger] frames@[i]).meta != (
            #[trigger] frames@[j]).meta;
        assert(frames@[i].meta != frames@[0].meta || frames@[j].meta != frames@[0].meta);
    }
}

/// Steps may be folded for a language if the first one is universal and all of them are known to
/// the configuration for that language.
pub proof fn law_known_steps_may_be_folded<
    T: Copy,
    W: Copy,
    C,
    F: From<u64>,
    G: From<u64>,
    K,
    S,
    E,
    Setup: Fn(&NIVCStep<T, W, C>) -> K,
    Base: Fn(&K, usize, &NIVCStep<T, W, C>, F, usize, &Vec<F>, &Vec<G>) -> S,
    Prove: Fn(S, &K, usize, &NIVCStep<T, W, C>, &Vec<F>, &Vec<G>) -> S,
    Verify: Fn(&S, &K, usize, &Vec<F>, &Vec<G>),
>(
    nivc_steps: &NIVCSteps<T, W, C>,
    reduction_count: usize,
    z0: Vec<F>,
    lang: Arc<Lang<C>>,
    scheme: &FoldingScheme<Setup, Base, Prove, Verify>,
)
    requires
        nivc_steps.steps@.len() > 0,
        nivc_steps.steps@[0].multiframe.meta is Lurk,
        forall|i: int|
            0 <= i < nivc_steps.steps@.len() ==> {
                let multiframe = (#[trigger] nivc_steps.steps@[i]).multiframe;
                &&& *multiframe.folding_config == FoldingConfig::NIVC(lang, reduction_count)
                &&& known(*multiframe.folding_config, multiframe.meta)
            },
        applicable::<T, W, C, F, G, K, S, Setup, Base, Prove, Verify>(*scheme),
    ensures
        call_requires(
            Proof::<S>::prove_recursively::<T, W, C, F, G, K, E, Setup, Base, Prove, Verify>,
            (nivc_steps, reduction_count, z0, lang, scheme),
        ),
{
    assert forall|i: int| 0 <= i < nivc_steps@.len() implies {
        &&& (#[trigger] nivc_steps@[i]).multiframe.has_circuit()
        &&& nivc_steps@[i].multiframe.circuit() <= lang@.len()
    } by {
        let step = nivc_steps.steps@[i];
        assert(nivc_steps@[i] == step@);
        lemma_known_has_circuit(step@.multiframe.folding_config, step.multiframe.meta);
    }
}

/// Any recursive proof may be verified.
pub proof fn law_recursive_proofs_may_be_verified<
    S,
    F,
    G: From<u64>,
    K,
    V,
    E,
    Check: Fn(&S, &K, &[F], &Vec<G>) -> Result<V, E>,
>(recursive: &Proof<S>, claim: &K, num_steps: usize, z0: &[F], zi: &[F], check: Check)
    requires
        *recursive is Recursive,
        forall|snark: &S, claim: &K, z0: &[F], z0_secondary: &Vec<G>|
            #[trigger] call_requires(check, (snark, claim, z0, z0_secondary)),
    ensures
        call_requires(
            Proof::<S>::verify::<F, G, K, V, E, Check>,
            (recursive, claim, num_steps, z0, zi, check),
        ),
{
}

/// What a prover says it can prove, it may be asked to prove; and frames whose first or last state
/// cannot be encoded too, to report the error.
pub proof fn law_what_can_be_proved_may_be_proved<
    T: Copy,
    W: Copy,
    C,
    F: From<u64> + Copy,
    G: From<u64>,
    K,
    S,
    E,
    ToVector: Fn(&T) -> Result<Vec<F>, E>,
    Setup: Fn(&NIVCStep<T, W, C>) -> K,
    Base: Fn(&K, usize, &NIVCStep<T, W, C>, F, usize, &Vec<F>, &Vec<G>) -> S,
    Prove: Fn(S, &K, usize, &NIVCStep<T, W, C>, &Vec<F>, &Vec<G>) -> S,
    Verify: Fn(&S, &K, usize, &Vec<F>, &Vec<G>),
>(
    prover: &SuperNovaProver<C>,
    frames: &[Frame<T, W>],
    lang: Arc<Lang<C>>,
    to_vector: &ToVector,
    scheme: &FoldingScheme<Setup, Base, Prove, Verify>,
    b: bool,
)
    requires
        frames@.len() > 0,
        forall|state: &T| #[trigger] call_requires(*to_vector, (state,)),
        applicable::<T, W, C, F, G, K, S, Setup, Base, Prove, Verify>(*scheme),
        call_ensures(SuperNovaProver::<C>::can_prove::<T, W>, (prover, frames, &lang), b),
        b || (forall|z0: Vec<F>| !#[trigger]
            call_ensures(*to_vector, (&frames@[0].input,), Ok(z0))) || (forall|zi: Vec<F>|
            !#[trigger] call_ensures(*to_vector, (&frames@[frames@.len() - 1].output,), Ok(zi))),
    ensures
        call_requires(
            SuperNovaProver::<C>::prove::<
                T,
                W,
                F,
                G,
                K,
                S,
                E,
                ToVector,
                Setup,
                Base,
                Prove,
                Verify,
            >,
            (prover, frames, lang, to_vector, scheme),
        ),
{
}

/// A prover with reductions may be asked to evaluate and prove whatever evaluates to frames that
/// begin with a universal one, are known, and are more than fit into one step or not all
/// universal.
pub proof fn law_computations_may_be_evaluated_and_proved<
    P,
    T: Copy,
    W: Copy,
    C,
    F: From<u64> + Copy,
    G: From<u64>,
    K,
    S,
    E,
    Evaluate: Fn(P, P, usize, Arc<Lang<C>>) -> Result<Vec<Frame<T, W>>, E>,
    ToVector: Fn(&T) -> Result<Vec<F>, E>,
    Setup: Fn(&NIVCStep<T, W, C>) -> K,
    Base: Fn(&K, usize, &NIVCStep<T, W, C>, F, usize, &Vec<F>, &Vec<G>) -> S,
    Prove: Fn(S, &K, usize, &NIVCStep<T, W, C>, &Vec<F>, &Vec<G>) -> S,
    Verify: Fn(&S, &K, usize, &Vec<F>, &Vec<G>),
>(
    prover: &SuperNovaProver<C>,
    expr: P,
    env: P,
    limit: usize,
    lang: Arc<Lang<C>>,
    evaluate: &Evaluate,
    to_vector: &ToVector,
    scheme: &FoldingScheme<Setup, Base, Prove, Verify>,
)
    requires
        prover.reduction_count > 0,
        call_requires(*evaluate, (expr, env, limit, lang)),
        forall|state: &T| #[trigger] call_requires(*to_vector, (state,)),
        applicable::<T, W, C, F, G, K, S, Setup, Base, Prove, Verify>(*scheme),
        forall|frames: Vec<Frame<T, W>>| #[trigger]
            call_ensures(*evaluate, (expr, env, limit, lang), Ok(frames)) ==> {
                &&& frames@.len() > 0
                &&& frames@[0].meta is Lurk
                &&& frames@.len() > prover.reduction_count || exists|i: int|
                    0 <= i < frames@.len() && (#[trigger] frames@[i]).meta is Coprocessor
                &&& forall|i: int|
                    0 <= i < frames@.len() ==> known(
                        FoldingConfig::NIVC(lang, prover.reduction_count),
                        (#[trigger] frames@[i]).meta,
                    )
            },
    ensures
        call_requires(
            SuperNovaProver::<C>::evaluate_and_prove::<
                P,
                T,
                W,
                F,
                G,
                K,
                S,
                E,
                Evaluate,
                ToVector,
                Setup,
                Base,
                Prove,
                Verify,
            >,
            (prover, expr, env, limit, lang, evaluate, to_vector, scheme),
        ),
{
    let count = prover.reduction_count;
    assert forall|frames: Vec<Frame<T, W>>| #[trigger]
        call_ensures(*evaluate, (expr, env, limit, lang), Ok(frames)) implies provable(
        count,
        frames@,
        lang,
    ) by {
        if frames@.len() <= count {
            let i = choose|i: int|
                0 <= i < frames@.len() && (#[trigger] frames@[i]).meta is Coprocessor;
            assert(frames@[i].meta != frames@[0].meta);
        }
        assert forall|i: int| 0 <= i < frames@.len() implies FoldingConfig::NIVC(
            lang,
            count,
        ).has_circuit((#[trigger] frames@[i]).meta) by {
            lemma_known_has_circuit(FoldingConfig::NIVC(lang, count), frames@[i].meta);
        }
    }
}

} // verus!
