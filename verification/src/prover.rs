//! The prover: from the frames of an evaluation to a proof.

use std::sync::Arc;

use vstd::prelude::*;

use crate::config::FoldingConfig;
use crate::folding::{applicable, foldable, proves, FoldingScheme, Proof};
use crate::frame::Frame;
use crate::lang::{Lang, Meta};
use crate::share::share;
use crate::step::NIVCStep;
use crate::steps::{
    batched, law_when_steps_are_several, law_steps_are_asked_for, linked, make_several_steps, runs,
    NIVCSteps,
};

verus! {

/// A prover for the computations of a language.
#[derive(Debug)]
pub struct SuperNovaProver<C> {
    /// The number of small-step reductions that are performed in each recursive step of the
    /// primary Lurk circuit.
    pub reduction_count: usize,
    pub lang: Lang<C>,
}

/// Whether `frames` can be proved for `lang`, with `count` reductions in each step of the
/// universal circuit: that circuit comes first, there is a circuit for every frame, and there is
/// more than one step.
pub open spec fn provable<T: Copy, W: Copy, C>(
    count: usize,
    frames: Seq<Frame<T, W>>,
    lang: Arc<Lang<C>>,
) -> bool {
    &&& count > 0
    &&& frames.len() > 0
    &&& frames[0].meta is Lurk
    &&& make_several_steps(count, frames)
    &&& forall|i: int|
        0 <= i < frames.len() ==> FoldingConfig::NIVC(lang, count).has_circuit(
            (#[trigger] frames[i]).meta,
        )
}

/// Frames that can be proved make steps that can be folded.
pub proof fn law_provable_frames_are_foldable<T: Copy, W: Copy, C>(
    count: usize,
    frames: Seq<Frame<T, W>>,
    lang: Arc<Lang<C>>,
)
    requires
        provable(count, frames, lang),
    ensures
        foldable(
            linked(batched(count, runs(frames), FoldingConfig::NIVC(lang, count))),
            *lang,
        ),
{
    let config = FoldingConfig::NIVC(lang, count);
    law_when_steps_are_several(count, frames, config);
    law_steps_are_asked_for(count, frames, config);
}

/// Whether `to_vector` may encode the state that `frames` start from, and the state that they end
/// in, as `z0` and `zi`.
pub open spec fn encodes<T: Copy, W: Copy, F, E, ToVector: Fn(&T) -> Result<Vec<F>, E>>(
    to_vector: ToVector,
    frames: Seq<Frame<T, W>>,
    z0: Vec<F>,
    zi: Vec<F>,
) -> bool {
    &&& call_ensures(to_vector, (&frames[0].input,), Ok(z0))
    &&& call_ensures(to_vector, (&frames.last().output,), Ok(zi))
}

/// Whether encoding these states may end in `error`.
pub open spec fn fails_to_encode<T: Copy, W: Copy, F, E, ToVector: Fn(&T) -> Result<Vec<F>, E>>(
    to_vector: ToVector,
    frames: Seq<Frame<T, W>>,
    error: E,
) -> bool {
    ||| call_ensures(to_vector, (&frames[0].input,), Err(error))
    ||| exists|z0: Vec<F>| #[trigger]
        call_ensures(to_vector, (&frames[0].input,), Ok(z0)) && call_ensures(
            to_vector,
            (&frames.last().output,),
            Err(error),
        )
}

/// Whether proving `frames` for `lang` may end in `result`: the steps that the frames make are
/// folded from the encoded first state on, unless encoding fails.
pub open spec fn outcome_of_proving<
    T: Copy,
    W: Copy,
    C,
    F: From<u64>,
    G: From<u64>,
    K,
    S,
    E,
    ToVector: Fn(&T) -> Result<Vec<F>, E>,
    Setup: Fn(&NIVCStep<T, W, C>) -> K,
    Base: Fn(&K, usize, &NIVCStep<T, W, C>, F, usize, &Vec<F>, &Vec<G>) -> S,
    Prove: Fn(S, &K, usize, &NIVCStep<T, W, C>, &Vec<F>, &Vec<G>) -> S,
    Verify: Fn(&S, &K, usize, &Vec<F>, &Vec<G>),
>(
    count: usize,
    frames: Seq<Frame<T, W>>,
    lang: Arc<Lang<C>>,
    to_vector: ToVector,
    scheme: FoldingScheme<Setup, Base, Prove, Verify>,
    result: Result<(Proof<S>, Vec<F>, Vec<F>, usize), E>,
) -> bool {
    match result {
        Ok((recursive, z0, zi, num_steps)) => {
            let planned = linked(batched(count, runs(frames), FoldingConfig::NIVC(lang, count)));
            &&& encodes(to_vector, frames, z0, zi)
            &&& num_steps == planned.len()
            &&& exists|nivc_steps: NIVCSteps<T, W, C>|
                #[trigger] nivc_steps@ == planned && proves::<
                    T,
                    W,
                    C,
                    F,
                    G,
                    K,
                    S,
                    Setup,
                    Base,
                    Prove,
                    Verify,
                >(recursive, nivc_steps.steps@, count, z0@, lang, scheme)
        },
        Err(error) => fails_to_encode(to_vector, frames, error),
    }
}

/// A copy of `elements`.
fn copy_elements<F: Copy>(elements: &Vec<F>) -> (copy: Vec<F>)
    ensures
        copy@ == elements@,
{
    let mut copy: Vec<F> = Vec::new();
    let mut i: usize = 0;
    while i < elements.len()
        invariant
            i <= elements@.len(),
            copy@ == elements@.take(i as int),
        decreases elements@.len() - i,
    {
        copy.push(elements[i]);
        i += 1;
    }
    copy
}

impl<C> SuperNovaProver<C> {
    /// A prover for `lang`.
    pub fn new(reduction_count: usize, lang: Lang<C>) -> (prover: Self)
        ensures
            prover == (SuperNovaProver { reduction_count, lang }),
    {
        SuperNovaProver { reduction_count, lang }
    }

    /// The number of reductions in each recursive step.
    pub fn reduction_count(&self) -> (count: usize)
        ensures
            count == self.reduction_count,
    {
        self.reduction_count
    }

    /// The language.
    pub fn lang(&self) -> (lang: &Lang<C>)
        ensures
            *lang == self.lang,
    {
        &self.lang
    }

    /// Whether `frames` can be proved for `lang`.
    pub fn can_prove<T: Copy, W: Copy>(&self, frames: &[Frame<T, W>], lang: &Arc<Lang<C>>) -> (b:
        bool)
        ensures
            b == provable(self.reduction_count, frames@, *lang),
    {
        if self.reduction_count == 0 || frames.len() == 0 || !frames[0].meta.is_lurk() {
            return false;
        }
        if !NIVCSteps::<T, W, C>::makes_several_steps(self.reduction_count, frames) {
            return false;
        }
        let mut i: usize = 0;
        while i < frames.len()
            invariant
                i <= frames@.len(),
                forall|j: int|
                    0 <= j < i ==> FoldingConfig::NIVC(
                        *lang,
                        self.reduction_count,
                    ).has_circuit((#[trigger] frames@[j]).meta),
            decreases frames@.len() - i,
        {
            let known = match frames[i].meta {
                Meta::Lurk => true,
                Meta::Coprocessor(z_ptr) => lang.get_index(&z_ptr).is_some(),
            };
            if !known {
                return false;
            }
            i += 1;
        }
        true
    }

    /// Proves the computation given the frames and the language.
    ///
    /// `to_vector` encodes a state as field elements. An error of it is handed back, and nothing
    /// is proved then. What comes back otherwise is the proof, the encoded first and last states,
    /// and the number of steps that were folded.
    pub fn prove<T: Copy, W: Copy, F, G, K, S, E, ToVector, Setup, Base, Prove, Verify>(
        &self,
        frames: &[Frame<T, W>],
        lang: Arc<Lang<C>>,
        to_vector: &ToVector,
        scheme: &FoldingScheme<Setup, Base, Prove, Verify>,
    ) -> (result: Result<(Proof<S>, Vec<F>, Vec<F>, usize), E>) where
        F: From<u64> + Copy,
        G: From<u64>,
        ToVector: Fn(&T) -> Result<Vec<F>, E>,
        Setup: Fn(&NIVCStep<T, W, C>) -> K,
        Base: Fn(&K, usize, &NIVCStep<T, W, C>, F, usize, &Vec<F>, &Vec<G>) -> S,
        Prove: Fn(S, &K, usize, &NIVCStep<T, W, C>, &Vec<F>, &Vec<G>) -> S,
        Verify: Fn(&S, &K, usize, &Vec<F>, &Vec<G>),

        requires
            frames@.len() > 0,
            forall|state: &T| #[trigger] call_requires(*to_vector, (state,)),
            applicable::<T, W, C, F, G, K, S, Setup, Base, Prove, Verify>(*scheme),
            (exists|z0: Vec<F>, zi: Vec<F>| encodes(*to_vector, frames@, z0, zi)) ==> provable(
                self.reduction_count,
                frames@,
                lang,
            ),
        ensures
            outcome_of_proving::<
                T,
                W,
                C,
                F,
                G,
                K,
                S,
                E,
                ToVector,
                Setup,
                Base,
                Prove,
                Verify,
            >(self.reduction_count, frames@, lang, *to_vector, *scheme, result),
            result matches Ok((recursive, z0, _, num_steps)) ==> exists|
                folding_config: Arc<FoldingConfig<C>>,
                nivc_steps: NIVCSteps<T, W, C>,
                z0_primary: Vec<F>,
            |
                {
                    &&& *folding_config == FoldingConfig::NIVC(lang, self.reduction_count)
                    &&& #[trigger] call_ensures(
                        NIVCSteps::<T, W, C>::from_frames,
                        (self.reduction_count, frames, folding_config),
                        nivc_steps,
                    )
                    &&& num_steps == nivc_steps.steps@.len()
                    &&& z0_primary@ == z0@
                    &&& #[trigger] call_ensures(
                        Proof::<S>::prove_recursively::<
                            T,
                            W,
                            C,
                            F,
                            G,
                            K,
                            E,
                            Setup,
                            Base,
                            Prove,
                            Verify,
                        >,
                        (&nivc_steps, self.reduction_count, z0_primary, lang, scheme),
                        Ok(recursive),
                    )
                },
    {
        let z0 = match to_vector(&frames[0].input) {
            Ok(z0) => z0,
            Err(error) => return Err(error),
        };
        let zi = match to_vector(&frames[frames.len() - 1].output) {
            Ok(zi) => zi,
            Err(error) => return Err(error),
        };
        assert(encodes(*to_vector, frames@, z0, zi));
        proof {
            law_provable_frames_are_foldable(self.reduction_count, frames@, lang);
        }
        let folding_config = Arc::new(
            FoldingConfig::new_nivc(share(&lang), self.reduction_count),
        );
        let nivc_steps = NIVCSteps::from_frames(self.reduction_count(), frames, folding_config);
        let num_steps = nivc_steps.num_steps();
        let recursive = match Proof::prove_recursively(
            &nivc_steps,
            self.reduction_count,
            copy_elements(&z0),
            lang,
            scheme,
        ) {
            Ok(recursive) => recursive,
            Err(error) => return Err(error),
        };
        Ok((recursive, z0, zi, num_steps))
    }

    /// Evaluates and proves the computation given the expression, the environment, and the
    /// language.
    ///
    /// `evaluate` reduces an expression in an environment, in at most `limit` reductions, and
    /// gives the frames. An error of it is handed back, and nothing is proved then.
    pub fn evaluate_and_prove<
        P,
        T: Copy,
        W: Copy,
        F,
        G,
        K,
        S,
        E,
        Evaluate,
        ToVector,
        Setup,
        Base,
        Prove,
        Verify,
    >(
        &self,
        expr: P,
        env: P,
        limit: usize,
        lang: Arc<Lang<C>>,
        evaluate: &Evaluate,
        to_vector: &ToVector,
        scheme: &FoldingScheme<Setup, Base, Prove, Verify>,
    ) -> (result: Result<(Proof<S>, Vec<F>, Vec<F>, usize), E>) where
        F: From<u64> + Copy,
        G: From<u64>,
        Evaluate: Fn(P, P, usize, Arc<Lang<C>>) -> Result<Vec<Frame<T, W>>, E>,
        ToVector: Fn(&T) -> Result<Vec<F>, E>,
        Setup: Fn(&NIVCStep<T, W, C>) -> K,
        Base: Fn(&K, usize, &NIVCStep<T, W, C>, F, usize, &Vec<F>, &Vec<G>) -> S,
        Prove: Fn(S, &K, usize, &NIVCStep<T, W, C>, &Vec<F>, &Vec<G>) -> S,
        Verify: Fn(&S, &K, usize, &Vec<F>, &Vec<G>),

        requires
            call_requires(*evaluate, (expr, env, limit, lang)),
            forall|state: &T| #[trigger] call_requires(*to_vector, (state,)),
            applicable::<T, W, C, F, G, K, S, Setup, Base, Prove, Verify>(*scheme),
            forall|frames: Vec<Frame<T, W>>|
                #[trigger] call_ensures(*evaluate, (expr, env, limit, lang), Ok(frames)) ==> {
                    &&& frames@.len() > 0
                    &&& (exists|z0: Vec<F>, zi: Vec<F>| encodes(*to_vector, frames@, z0, zi))
                        ==> provable(self.reduction_count, frames@, lang)
                },
        ensures
            ({
                ||| result matches Err(error) && call_ensures(
                    *evaluate,
                    (expr, env, limit, lang),
                    Err(error),
                )
                ||| exists|frames: Vec<Frame<T, W>>|
                    #[trigger] call_ensures(*evaluate, (expr, env, limit, lang), Ok(frames))
                        && outcome_of_proving::<
                        T,
                        W,
                        C,
                        F,
                        G,
                        K,
                        S,
                        E,
                        ToVector,
                        Setup,
                        Base,
                        Prove,
                        Verify,
                    >(self.reduction_count, frames@, lang, *to_vector, *scheme, result)
            }),
            ({
                ||| result matches Err(error) && call_ensures(
                    *evaluate,
                    (expr, env, limit, lang),
                    Err(error),
                )
                ||| exists|frames: Vec<Frame<T, W>>, evaluated: &[Frame<T, W>]|
                    {
                        &&& #[trigger] call_ensures(
                            *evaluate,
                            (expr, env, limit, lang),
                            Ok(frames),
                        )
                        &&& evaluated@ == frames@
                        &&& #[trigger] call_ensures(
                            SuperNovaProver::<C>::prove::<
                                T,
                                W,
                                F,
                                G,
                                K,
                                S,
                                E,
                                ToVector,
                                Setup,
                                Base,
                                Prove,
                                Verify,
                            >,
                            (self, evaluated, lang, to_vector, scheme),
                            result,
                        )
                    }
            }),
    {
        match evaluate(expr, env, limit, share(&lang)) {
            Ok(frames) => self.prove(frames.as_slice(), lang, to_vector, scheme),
            Err(error) => Err(error),
        }
    }
}

} // verus!
