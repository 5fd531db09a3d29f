//! What holds of proving and verifying: of folding steps, of what a prover gives back, and of the
//! answers to a proof.

use std::sync::Arc;

use vstd::prelude::*;

use crate::config::FoldingConfig;
use crate::folding::{is_z0_secondary, verdict, verdict_on, Folding, FoldingScheme, Proof};
use crate::frame::Frame;
use crate::lang::{Lang, Meta, ZExprPtr};
use crate::laws::sharing::{law_joined_steps_are_the_frames_with_doubles, with_doubles};
use crate::prover::SuperNovaProver;
use crate::step::NIVCStep;
use crate::steps::NIVCSteps;

verus! {

/// A folding goes through every step, in order. The running claims are set up from the blank
/// universal step for the language and the reduction count; the base step is made for the first
/// step; and then every step is proved on top of the proof that the step before it gave, against
/// the running claim of its own circuit, and what comes out is verified against that claim. The
/// proof that comes out last is the result.
///
/// What comes back says how the folding went: what it worked with, the proofs that it passed
/// through, and the index of each step's circuit.
pub proof fn law_folding_goes_through_every_step<
    T: Copy,
    W: Copy,
    C,
    F: From<u64>,
    G: From<u64>,
    K,
    S,
    E,
    Setup: Fn(&NIVCStep<T, W, C>) -> K,
    Base: Fn(&K, usize, &NIVCStep<T, W, C>, F, usize, &Vec<F>, &Vec<G>) -> S,
    Prove: Fn(S, &K, usize, &NIVCStep<T, W, C>, &Vec<F>, &Vec<G>) -> S,
    Verify: Fn(&S, &K, usize, &Vec<F>, &Vec<G>),
>(
    nivc_steps: &NIVCSteps<T, W, C>,
    reduction_count: usize,
    z0: Vec<F>,
    lang: Arc<Lang<C>>,
    scheme: &FoldingScheme<Setup, Base, Prove, Verify>,
    result: Result<Proof<S>, E>,
) -> (went: (Folding<T, W, C, F, G, K, S>, Seq<usize>, usize))
    requires
        call_ensures(
            Proof::<S>::prove_recursively::<T, W, C, F, G, K, E, Setup, Base, Prove, Verify>,
            (nivc_steps, reduction_count, z0, lang, scheme),
            result,
        ),
    ensures
        ({
            let steps = nivc_steps.steps@;
            let (folding, indices, num_circuits) = went;
            let blank = folding.blank.multiframe;
            &&& steps.len() > 0
            &&& indices.len() == steps.len()
            &&& forall|i: int|
                0 <= i < steps.len() ==> match (
                    *(#[trigger] steps[i]).multiframe.folding_config,
                    steps[i].multiframe.meta,
                ) {
                    (FoldingConfig::NIVC(own, _), Meta::Coprocessor(z_ptr)) => {
                        &&& 0 < indices[i] <= own@.len()
                        &&& own@[indices[i] - 1].0 == z_ptr
                    },
                    _ => indices[i] == 0,
                }
            &&& num_circuits == 1 + match *steps[0].multiframe.folding_config {
                FoldingConfig::IVC(own, _) => own@.len(),
                FoldingConfig::NIVC(own, _) => own@.len(),
            }
            &&& blank.frames is None
            &&& blank.meta is Lurk
            &&& blank.count == reduction_count
            &&& *blank.folding_config == FoldingConfig::NIVC(lang, reduction_count)
            &&& folding.blank.next is None
            &&& call_ensures(scheme.setup_running_claims, (&folding.blank,), folding.claims)
            &&& call_ensures(F::from, (indices[0] as u64,), folding.program_counter)
            &&& folding.z0_primary@ == z0@
            &&& folding.z0_secondary@.len() == 1
            &&& call_ensures(G::from, (0u64,), folding.z0_secondary@[0])
            &&& folding.snarks.len() == steps.len() + 1
            &&& call_ensures(
                scheme.iter_base_step,
                (
                    &folding.claims,
                    indices[0],
                    &steps[0],
                    folding.program_counter,
                    num_circuits,
                    &folding.z0_primary,
                    &folding.z0_secondary,
                ),
                folding.snarks[0],
            )
            &&& forall|i: int|
                0 <= i < steps.len() ==> {
                    &&& call_ensures(
                        scheme.prove_step,
                        (
                            folding.snarks[i],
                            &folding.claims,
                            indices[i],
                            &#[trigger] steps[i],
                            &folding.z0_primary,
                            &folding.z0_secondary,
                        ),
                        folding.snarks[i + 1],
                    )
                    &&& call_ensures(
                        scheme.verify,
                        (
                            &folding.snarks[i + 1],
                            &folding.claims,
                            indices[i],
                            &folding.z0_primary,
                            &folding.z0_secondary,
                        ),
                        (),
                    )
                }
            &&& result == Ok::<Proof<S>, E>(
                Proof::Recursive(Box::new(folding.snarks[steps.len() as int])),
            )
        }),
{
    let steps = nivc_steps.steps@;
    let folding = choose|folding: Folding<T, W, C, F, G, K, S>|
        {
            &&& #[trigger] folding.starts(steps, reduction_count, z0@, lang, *scheme)
            &&& folding.snarks.len() == steps.len() + 1
            &&& forall|i: int|
                0 <= i < steps.len() ==> folding.folds(i, #[trigger] steps[i], *scheme)
            &&& *result->Ok_0->Recursive_0 == folding.snarks.last()
        };
    let indices = Seq::new(
        steps.len(),
        |i: int| steps[i]@.multiframe.circuit() as usize,
    );
    let num_circuits = (steps[0]@.language()@.len() + 1) as usize;
    assert forall|i: int| 0 <= i < steps.len() implies folding.folds(
        i,
        #[trigger] steps[i],
        *scheme,
    ) && indices[i] == steps[i]@.multiframe.circuit() by {}
    assert(folding.folds(0, steps[0], *scheme));
    (folding, indices, num_circuits)
}

/// Whether `scheme` keeps a record of the steps that it folds: there is none on the proof of a base
/// step, and proving a step adds the step to it.
pub open spec fn records<
    T: Copy,
    W: Copy,
    C,
    F,
    G,
    K,
    S,
    Setup: Fn(&NIVCStep<T, W, C>) -> K,
    Base: Fn(&K, usize, &NIVCStep<T, W, C>, F, usize, &Vec<F>, &Vec<G>) -> S,
    Prove: Fn(S, &K, usize, &NIVCStep<T, W, C>, &Vec<F>, &Vec<G>) -> S,
    Verify: Fn(&S, &K, usize, &Vec<F>, &Vec<G>),
>(
    scheme: FoldingScheme<Setup, Base, Prove, Verify>,
    record: spec_fn(S) -> Seq<NIVCStep<T, W, C>>,
) -> bool {
    &&& forall|
        claims: &K,
        claim: usize,
        step: &NIVCStep<T, W, C>,
        pc: F,
        count: usize,
        z: &Vec<F>,
        w: &Vec<G>,
        made: S,
    |
        #[trigger] call_ensures(
            scheme.iter_base_step,
            (claims, claim, step, pc, count, z, w),
            made,
        ) ==> record(made).len() == 0
    &&& forall|
        snark: S,
        claims: &K,
        claim: usize,
        step: &NIVCStep<T, W, C>,
        z: &Vec<F>,
        w: &Vec<G>,
        made: S,
    |
        #[trigger] call_ensures(scheme.prove_step, (snark, claims, claim, step, z, w), made)
            ==> record(made) == record(snark).push(*step)
}

/// A record that grows by one step at a time holds the steps so far.
proof fn lemma_record_grows<T: Copy, W: Copy, C, S>(
    snarks: Seq<S>,
    steps: Seq<NIVCStep<T, W, C>>,
    record: spec_fn(S) -> Seq<NIVCStep<T, W, C>>,
    i: int,
)
    requires
        record(snarks[0]).len() == 0,
        forall|j: int|
            0 <= j < steps.len() ==> record(snarks[j + 1]) == record(snarks[j]).push(
                #[trigger] steps[j],
            ),
        0 <= i <= steps.len(),
    ensures
        record(snarks[i]) == steps.take(i),
    decreases i,
{
    if i > 0 {
        lemma_record_grows(snarks, steps, record, i - 1);
        assert(record(snarks[i - 1 + 1]) == record(snarks[i - 1]).push(steps[i - 1]));
        assert(steps.take(i) =~= steps.take(i - 1).push(steps[i - 1]));
    }
}

/// Every step is folded, once and in order: a scheme that keeps a record of the steps that it folds
/// ends with the record of all of them.
pub proof fn law_every_step_is_folded_once_in_order<
    T: Copy,
    W: Copy,
    C,
    F: From<u64>,
    G: From<u64>,
    K,
    S,
    E,
    Setup: Fn(&NIVCStep<T, W, C>) -> K,
    Base: Fn(&K, usize, &NIVCStep<T, W, C>, F, usize, &Vec<F>, &Vec<G>) -> S,
    Prove: Fn(S, &K, usize, &NIVCStep<T, W, C>, &Vec<F>, &Vec<G>) -> S,
    Verify: Fn(&S, &K, usize, &Vec<F>, &Vec<G>),
>(
    nivc_steps: &NIVCSteps<T, W, C>,
    reduction_count: usize,
    z0: Vec<F>,
    lang: Arc<Lang<C>>,
    scheme: &FoldingScheme<Setup, Base, Prove, Verify>,
    record: spec_fn(S) -> Seq<NIVCStep<T, W, C>>,
    result: Result<Proof<S>, E>,
)
    requires
        records::<T, W, C, F, G, K, S, Setup, Base, Prove, Verify>(*scheme, record),
        call_ensures(
            Proof::<S>::prove_recursively::<T, W, C, F, G, K, E, Setup, Base, Prove, Verify>,
            (nivc_steps, reduction_count, z0, lang, scheme),
            result,
        ),
    ensures
        result is Ok,
        result->Ok_0 is Recursive,
        record(*result->Ok_0->Recursive_0) == nivc_steps.steps@,
{
    let steps = nivc_steps.steps@;
    let (folding, _, _) = law_folding_goes_through_every_step(
        nivc_steps,
        reduction_count,
        z0,
        lang,
        scheme,
        result,
    );
    lemma_record_grows(folding.snarks, steps, record, steps.len() as int);
    assert(steps.take(steps.len() as int) =~= steps);
}

/// A verdict is `true` where the check accepted, and else the error that the check found.
pub proof fn law_verdict_is_true_or_the_error<V, E>(
    outcome: Result<V, E>,
    answer: Result<bool, E>,
)
    requires
        call_ensures(verdict::<V, E>, (outcome,), answer),
    ensures
        answer == Ok::<bool, E>(true) <==> outcome is Ok,
        answer != Ok::<bool, E>(false),
        forall|error: E| answer == Err::<bool, E>(error) <==> outcome == Err::<V, E>(error),
{
}

/// The answer to a recursive proof is what the check found of that proof, against the claim and
/// from the initial input that were given, with a single zero for the secondary circuit: `true`
/// if it accepted, and else its error. What comes back is that zero and what the check found.
pub proof fn law_answer_is_what_the_check_found<
    S,
    F,
    G: From<u64>,
    K,
    V,
    E,
    Check: Fn(&S, &K, &[F], &Vec<G>) -> Result<V, E>,
>(
    recursive: &Proof<S>,
    claim: &K,
    num_steps: usize,
    z0: &[F],
    zi: &[F],
    check: Check,
    answer: Result<bool, E>,
) -> (found: (Vec<G>, Result<V, E>))
    requires
        call_ensures(
            Proof::<S>::verify::<F, G, K, V, E, Check>,
            (recursive, claim, num_steps, z0, zi, check),
            answer,
        ),
    ensures
        *recursive is Recursive,
        found.0@.len() == 1,
        call_ensures(G::from, (0u64,), found.0@[0]),
        call_ensures(check, (&*recursive->Recursive_0, claim, z0, &found.0), found.1),
        answer == match found.1 {
            Ok(_) => Ok::<bool, E>(true),
            Err(error) => Err(error),
        },
{
    let snark = recursive->Recursive_0;
    choose|z0_secondary: Vec<G>, outcome: Result<V, E>|
        {
            &&& is_z0_secondary(z0_secondary@)
            &&& #[trigger] call_ensures(check, (&*snark, claim, z0, &z0_secondary), outcome)
            &&& answer == verdict_on(outcome)
        }
}

/// A proof is said to hold only where the check may accept it, and it is never just denied.
pub proof fn law_what_is_said_to_hold_may_be_accepted<
    S,
    F,
    G: From<u64>,
    K,
    V,
    E,
    Check: Fn(&S, &K, &[F], &Vec<G>) -> Result<V, E>,
>(
    recursive: &Proof<S>,
    claim: &K,
    num_steps: usize,
    z0: &[F],
    zi: &[F],
    check: Check,
    answer: Result<bool, E>,
)
    requires
        answer is Ok,
        call_ensures(
            Proof::<S>::verify::<F, G, K, V, E, Check>,
            (recursive, claim, num_steps, z0, zi, check),
            answer,
        ),
    ensures
        answer == Ok::<bool, E>(true),
        exists|z0_secondary: Vec<G>, accepted: V|
            {
                &&& z0_secondary@.len() == 1
                &&& call_ensures(G::from, (0u64,), z0_secondary@[0])
                &&& #[trigger] call_ensures(
                    check,
                    (&*recursive->Recursive_0, claim, z0, &z0_secondary),
                    Ok(accepted),
                )
            },
{
    let (z0_secondary, outcome) = law_answer_is_what_the_check_found::<S, F, G, K, V, E, Check>(
        recursive,
        claim,
        num_steps,
        z0,
        zi,
        check,
        answer,
    );
    assert(outcome == Ok::<V, E>(outcome->Ok_0));
}

/// A proof that the check can only refuse with one error is answered with that error.
pub proof fn law_what_the_check_refuses_is_refused<
    S,
    F,
    G: From<u64>,
    K,
    V,
    E,
    Check: Fn(&S, &K, &[F], &Vec<G>) -> Result<V, E>,
>(
    recursive: &Proof<S>,
    claim: &K,
    num_steps: usize,
    z0: &[F],
    zi: &[F],
    check: Check,
    error: E,
    answer: Result<bool, E>,
)
    requires
        forall|z0_secondary: &Vec<G>, outcome: Result<V, E>|
            {
                &&& z0_secondary@.len() == 1
                &&& #[trigger] call_ensures(
                    check,
                    (&*recursive->Recursive_0, claim, z0, z0_secondary),
                    outcome,
                )
            } ==> outcome == Err::<V, E>(error),
        call_ensures(
            Proof::<S>::verify::<F, G, K, V, E, Check>,
            (recursive, claim, num_steps, z0, zi, check),
            answer,
        ),
    ensures
        answer == Err::<bool, E>(error),
{
    let (z0_secondary, outcome) = law_answer_is_what_the_check_found::<S, F, G, K, V, E, Check>(
        recursive,
        claim,
        num_steps,
        z0,
        zi,
        check,
        answer,
    );
    assert(outcome == Err::<V, E>(error));
}

/// A proof that the check can only accept is said to hold.
pub proof fn law_what_the_check_accepts_holds<
    S,
    F,
    G: From<u64>,
    K,
    V,
    E,
    Check: Fn(&S, &K, &[F], &Vec<G>) -> Result<V, E>,
>(
    recursive: &Proof<S>,
    claim: &K,
    num_steps: usize,
    z0: &[F],
    zi: &[F],
    check: Check,
    answer: Result<bool, E>,
)
    requires
        forall|z0_secondary: &Vec<G>, outcome: Result<V, E>|
            {
                &&& z0_secondary@.len() == 1
                &&& #[trigger] call_ensures(
                    check,
                    (&*recursive->Recursive_0, claim, z0, z0_secondary),
                    outcome,
                )
            } ==> outcome is Ok,
        call_ensures(
            Proof::<S>::verify::<F, G, K, V, E, Check>,
            (recursive, claim, num_steps, z0, zi, check),
            answer,
        ),
    ensures
        answer == Ok::<bool, E>(true),
{
    let (z0_secondary, outcome) = law_answer_is_what_the_check_found::<S, F, G, K, V, E, Check>(
        recursive,
        claim,
        num_steps,
        z0,
        zi,
        check,
        answer,
    );
    assert(outcome is Ok);
}

/// A prover gives back the reduction count and the language that it was made with.
pub proof fn law_prover_gives_its_parts_back<C>(
    given_count: usize,
    given_lang: Lang<C>,
    prover: SuperNovaProver<C>,
    count: usize,
    lang: &Lang<C>,
)
    requires
        call_ensures(SuperNovaProver::<C>::new, (given_count, given_lang), prover),
        call_ensures(SuperNovaProver::<C>::reduction_count, (&prover,), count),
        call_ensures(SuperNovaProver::<C>::lang, (&prover,), lang),
    ensures
        count == given_count,
        *lang == given_lang,
{
}

/// What a prover gives back with a proof is the encoding of the state before the first frame and
/// of the state after the last one, whatever the frames are reduced by.
pub proof fn law_first_and_last_states_are_given_back<
    T: Copy,
    W: Copy,
    C,
    F: From<u64> + Copy,
    G: From<u64>,
    K,
    S,
    E,
    ToVector: Fn(&T) -> Result<Vec<F>, E>,
    Setup: Fn(&NIVCStep<T, W, C>) -> K,
    Base: Fn(&K, usize, &NIVCStep<T, W, C>, F, usize, &Vec<F>, &Vec<G>) -> S,
    Prove: Fn(S, &K, usize, &NIVCStep<T, W, C>, &Vec<F>, &Vec<G>) -> S,
    Verify: Fn(&S, &K, usize, &Vec<F>, &Vec<G>),
>(
    prover: &SuperNovaProver<C>,
    frames: &[Frame<T, W>],
    lang: Arc<Lang<C>>,
    to_vector: &ToVector,
    scheme: &FoldingScheme<Setup, Base, Prove, Verify>,
    recursive: Proof<S>,
    z0: Vec<F>,
    zi: Vec<F>,
    num_steps: usize,
)
    requires
        call_ensures(
            SuperNovaProver::<C>::prove::<
                T,
                W,
                F,
                G,
                K,
                S,
                E,
                ToVector,
                Setup,
                Base,
                Prove,
                Verify,
            >,
            (prover, frames, lang, to_vector, scheme),
            Ok((recursive, z0, zi, num_steps)),
        ),
    ensures
        call_ensures(*to_vector, (&frames@[0].input,), Ok(z0)),
        call_ensures(*to_vector, (&frames@[frames@.len() - 1].output,), Ok(zi)),
{
}

/// A proof is of the steps that the frames are shared out to by the prover's reduction count, with
/// a circuit for each coprocessor of the language, from the encoded first state on. Their number
/// is given back. What comes back here is that configuration, the steps, and the initial input.
pub proof fn law_proof_is_of_the_steps_of_the_frames<
    T: Copy,
    W: Copy,
    C,
    F: From<u64> + Copy,
    G: From<u64>,
    K,
    S,
    E,
    ToVector: Fn(&T) -> Result<Vec<F>, E>,
    Setup: Fn(&NIVCStep<T, W, C>) -> K,
    Base: Fn(&K, usize, &NIVCStep<T, W, C>, F, usize, &Vec<F>, &Vec<G>) -> S,
    Prove: Fn(S, &K, usize, &NIVCStep<T, W, C>, &Vec<F>, &Vec<G>) -> S,
    Verify: Fn(&S, &K, usize, &Vec<F>, &Vec<G>),
>(
    prover: &SuperNovaProver<C>,
    frames: &[Frame<T, W>],
    lang: Arc<Lang<C>>,
    to_vector: &ToVector,
    scheme: &FoldingScheme<Setup, Base, Prove, Verify>,
    recursive: Proof<S>,
    z0: Vec<F>,
    zi: Vec<F>,
    num_steps: usize,
) -> (parts: (Arc<FoldingConfig<C>>, NIVCSteps<T, W, C>, Vec<F>))
    requires
        call_ensures(
            SuperNovaProver::<C>::prove::<
                T,
                W,
                F,
                G,
                K,
                S,
                E,
                ToVector,
                Setup,
                Base,
                Prove,
                Verify,
            >,
            (prover, frames, lang, to_vector, scheme),
            Ok((recursive, z0, zi, num_steps)),
        ),
    ensures
        *parts.0 == FoldingConfig::NIVC(lang, prover.reduction_count),
        call_ensures(
            NIVCSteps::<T, W, C>::from_frames,
            (prover.reduction_count, frames, parts.0),
            parts.1,
        ),
        num_steps == parts.1.steps@.len(),
        parts.2@ == z0@,
        call_ensures(
            Proof::<S>::prove_recursively::<T, W, C, F, G, K, E, Setup, Base, Prove, Verify>,
            (&parts.1, prover.reduction_count, parts.2, lang, scheme),
            Ok(recursive),
        ),
{
    choose|
        folding_config: Arc<FoldingConfig<C>>,
        nivc_steps: NIVCSteps<T, W, C>,
        z0_primary: Vec<F>,
    |
        {
            &&& *folding_config == FoldingConfig::NIVC(lang, prover.reduction_count)
            &&& #[trigger] call_ensures(
                NIVCSteps::<T, W, C>::from_frames,
                (prover.reduction_count, frames, folding_config),
                nivc_steps,
            )
            &&& num_steps == nivc_steps.steps@.len()
            &&& z0_primary@ == z0@
            &&& #[trigger] call_ensures(
                Proof::<S>::prove_recursively::<T, W, C, F, G, K, E, Setup, Base, Prove, Verify>,
                (&nivc_steps, prover.reduction_count, z0_primary, lang, scheme),
                Ok(recursive),
            )
        }
}

/// Every frame is folded: a scheme that keeps a record of the steps that it folds ends with one of
/// as many steps as are given back, and their frames, joined, are the frames that were to be
/// proved, where one that follows a universal frame and is not universal itself stands twice.
pub proof fn law_every_frame_is_folded<
    T: Copy,
    W: Copy,
    C,
    F: From<u64> + Copy,
    G: From<u64>,
    K,
    S,
    E,
    ToVector: Fn(&T) -> Result<Vec<F>, E>,
    Setup: Fn(&NIVCStep<T, W, C>) -> K,
    Base: Fn(&K, usize, &NIVCStep<T, W, C>, F, usize, &Vec<F>, &Vec<G>) -> S,
    Prove: Fn(S, &K, usize, &NIVCStep<T, W, C>, &Vec<F>, &Vec<G>) -> S,
    Verify: Fn(&S, &K, usize, &Vec<F>, &Vec<G>),
>(
    prover: &SuperNovaProver<C>,
    frames: &[Frame<T, W>],
    lang: Arc<Lang<C>>,
    to_vector: &ToVector,
    scheme: &FoldingScheme<Setup, Base, Prove, Verify>,
    record: spec_fn(S) -> Seq<NIVCStep<T, W, C>>,
    recursive: Proof<S>,
    z0: Vec<F>,
    zi: Vec<F>,
    num_steps: usize,
)
    requires
        prover.reduction_count > 0,
        records::<T, W, C, F, G, K, S, Setup, Base, Prove, Verify>(*scheme, record),
        call_ensures(
            SuperNovaProver::<C>::prove::<
                T,
                W,
                F,
                G,
                K,
                S,
                E,
                ToVector,
                Setup,
                Base,
                Prove,
                Verify,
            >,
            (prover, frames, lang, to_vector, scheme),
            Ok((recursive, z0, zi, num_steps)),
        ),
    ensures
        recursive is Recursive,
        record(*recursive->Recursive_0).len() == num_steps,
        record(*recursive->Recursive_0).map_values(
            |step: NIVCStep<T, W, C>| step.multiframe.frames->0@,
        ).flatten() == with_doubles(frames@).flatten(),
{
    let (config, nivc_steps, z0_primary) = law_proof_is_of_the_steps_of_the_frames::<
        T,
        W,
        C,
        F,
        G,
        K,
        S,
        E,
        ToVector,
        Setup,
        Base,
        Prove,
        Verify,
    >(prover, frames, lang, to_vector, scheme, recursive, z0, zi, num_steps);
    law_every_step_is_folded_once_in_order::<
        T,
        W,
        C,
        F,
        G,
        K,
        S,
        E,
        Setup,
        Base,
        Prove,
        Verify,
    >(
        &nivc_steps,
        prover.reduction_count,
        z0_primary,
        lang,
        scheme,
        record,
        Ok(recursive),
    );
    law_joined_steps_are_the_frames_with_doubles(
        prover.reduction_count,
        frames,
        config,
        nivc_steps,
    );
}

/// Proving fails only where encoding a state does, and with its error: that of the first state, or
/// that of the last where the first can be encoded.
pub proof fn law_proving_fails_where_encoding_does<
    T: Copy,
    W: Copy,
    C,
    F: From<u64> + Copy,
    G: From<u64>,
    K,
    S,
    E,
    ToVector: Fn(&T) -> Result<Vec<F>, E>,
    Setup: Fn(&NIVCStep<T, W, C>) -> K,
    Base: Fn(&K, usize, &NIVCStep<T, W, C>, F, usize, &Vec<F>, &Vec<G>) -> S,
    Prove: Fn(S, &K, usize, &NIVCStep<T, W, C>, &Vec<F>, &Vec<G>) -> S,
    Verify: Fn(&S, &K, usize, &Vec<F>, &Vec<G>),
>(
    prover: &SuperNovaProver<C>,
    frames: &[Frame<T, W>],
    lang: Arc<Lang<C>>,
    to_vector: &ToVector,
    scheme: &FoldingScheme<Setup, Base, Prove, Verify>,
    error: E,
)
    requires
        call_ensures(
            SuperNovaProver::<C>::prove::<
                T,
                W,
                F,
                G,
                K,
                S,
                E,
                ToVector,
                Setup,
                Base,
                Prove,
                Verify,
            >,
            (prover, frames, lang, to_vector, scheme),
            Err(error),
        ),
    ensures
        ({
            ||| call_ensures(*to_vector, (&frames@[0].input,), Err(error))
            ||| exists|z0: Vec<F>| #[trigger]
                call_ensures(*to_vector, (&frames@[0].input,), Ok(z0)) && call_ensures(
                    *to_vector,
                    (&frames@[frames@.len() - 1].output,),
                    Err(error),
                )
        }),
{
}

/// Where a state can be encoded in just one way, proving succeeds if both states can be encoded,
/// and else ends in the error of the first state that cannot.
pub proof fn law_proving_succeeds_where_encoding_does<
    T: Copy,
    W: Copy,
    C,
    F: From<u64> + Copy,
    G: From<u64>,
    K,
    S,
    E,
    ToVector: Fn(&T) -> Result<Vec<F>, E>,
    Setup: Fn(&NIVCStep<T, W, C>) -> K,
    Base: Fn(&K, usize, &NIVCStep<T, W, C>, F, usize, &Vec<F>, &Vec<G>) -> S,
    Prove: Fn(S, &K, usize, &NIVCStep<T, W, C>, &Vec<F>, &Vec<G>) -> S,
    Verify: Fn(&S, &K, usize, &Vec<F>, &Vec<G>),
>(
    prover: &SuperNovaProver<C>,
    frames: &[Frame<T, W>],
    lang: Arc<Lang<C>>,
    to_vector: &ToVector,
    scheme: &FoldingScheme<Setup, Base, Prove, Verify>,
    first: Result<Vec<F>, E>,
    last: Result<Vec<F>, E>,
    result: Result<(Proof<S>, Vec<F>, Vec<F>, usize), E>,
)
    requires
        forall|outcome: Result<Vec<F>, E>| #[trigger]
            call_ensures(*to_vector, (&frames@[0].input,), outcome) ==> outcome == first,
        forall|outcome: Result<Vec<F>, E>| #[trigger]
            call_ensures(*to_vector, (&frames@[frames@.len() - 1].output,), outcome) ==> outcome
                == last,
        call_ensures(
            SuperNovaProver::<C>::prove::<
                T,
                W,
                F,
                G,
                K,
                S,
                E,
                ToVector,
                Setup,
                Base,
                Prove,
                Verify,
            >,
            (prover, frames, lang, to_vector, scheme),
            result,
        ),
    ensures
        first is Err ==> result is Err && result->Err_0 == first->Err_0,
        first is Ok && last is Err ==> result is Err && result->Err_0 == last->Err_0,
        first is Ok && last is Ok ==> {
            &&& result is Ok
            &&& result->Ok_0.1 == first->Ok_0
            &&& result->Ok_0.2 == last->Ok_0
        },
{
    match result {
        Ok((recursive, z0, zi, num_steps)) => {
            assert(call_ensures(*to_vector, (&frames@[0].input,), Ok(z0)));
            assert(call_ensures(*to_vector, (&frames@[frames@.len() - 1].output,), Ok(zi)));
        },
        Err(error) => {
            if call_ensures(*to_vector, (&frames@[0].input,), Err(error)) {
            } else {
                let z0 = choose|z0: Vec<F>| #[trigger]
                    call_ensures(*to_vector, (&frames@[0].input,), Ok(z0)) && call_ensures(
                        *to_vector,
                        (&frames@[frames@.len() - 1].output,),
                        Err(error),
                    );
                assert(call_ensures(*to_vector, (&frames@[0].input,), Ok(z0)));
                assert(call_ensures(
                    *to_vector,
                    (&frames@[frames@.len() - 1].output,),
                    Err(error),
                ));
            }
        },
    }
}

/// Frames can be proved if there are any, the first one is universal, every other is universal
/// too or asks for a coprocessor of the language, and they are more than fit into one step or not
/// all reduced by the same. A prover without reductions can prove nothing.
pub proof fn law_what_can_be_proved<T: Copy, W: Copy, C>(
    prover: &SuperNovaProver<C>,
    frames: &[Frame<T, W>],
    lang: &Arc<Lang<C>>,
    b: bool,
)
    requires
        call_ensures(SuperNovaProver::<C>::can_prove::<T, W>, (prover, frames, lang), b),
    ensures
        b <==> {
            &&& prover.reduction_count > 0
            &&& frames@.len() > 0
            &&& frames@[0].meta is Lurk
            &&& frames@.len() > prover.reduction_count || exists|i: int|
                0 <= i < frames@.len() && (#[trigger] frames@[i]).meta is Coprocessor
            &&& forall|i: int|
                0 <= i < frames@.len() ==> ((#[trigger] frames@[i]).meta matches Meta::Coprocessor(
                    z_ptr,
                ) ==> exists|k: int| 0 <= k < lang@.len() && (#[trigger] lang@[k]).0 == z_ptr)
        },
{
    let z_ptrs = lang.z_ptrs();
    assert forall|z_ptr: ZExprPtr| #[trigger]
        z_ptrs.contains(z_ptr) <==> exists|k: int|
            0 <= k < lang@.len() && (#[trigger] lang@[k]).0 == z_ptr by {
        if z_ptrs.contains(z_ptr) {
            let k = z_ptrs.index_of(z_ptr);
            assert(lang@[k].0 == z_ptr);
        }
        if exists|k: int| 0 <= k < lang@.len() && (#[trigger] lang@[k]).0 == z_ptr {
            let k = choose|k: int| 0 <= k < lang@.len() && (#[trigger] lang@[k]).0 == z_ptr;
            assert(z_ptrs[k] == z_ptr);
        }
    }
    if frames@.len() > 0 && frames@[0].meta is Lurk {
        assert forall|i: int| 0 <= i < frames@.len() implies ((#[trigger] frames@[i]).meta
            is Coprocessor <==> frames@[i].meta != frames@[0].meta) by {}
    }
    let planned = FoldingConfig::NIVC(*lang, prover.reduction_count);
    if b {
        assert forall|i: int| 0 <= i < frames@.len() implies ((
        #[trigger] frames@[i]).meta matches Meta::Coprocessor(z_ptr) ==> exists|k: int|
            0 <= k < lang@.len() && (#[trigger] lang@[k]).0 == z_ptr) by {
            assert(planned.has_circuit(frames@[i].meta));
        }
    }
}

/// A computation is evaluated for the given expression, environment, limit and language, and then
/// its frames are proved, for that language, with that encoding and that scheme. If evaluation
/// fails, its error is the result.
pub proof fn law_what_was_evaluated_is_proved<
    P,
    T: Copy,
    W: Copy,
    C,
    F: From<u64> + Copy,
    G: From<u64>,
    K,
    S,
    E,
    ToVector: Fn(&T) -> Result<Vec<F>, E>,
    Evaluate: Fn(P, P, usize, Arc<Lang<C>>) -> Result<Vec<Frame<T, W>>, E>,
    Setup: Fn(&NIVCStep<T, W, C>) -> K,
    Base: Fn(&K, usize, &NIVCStep<T, W, C>, F, usize, &Vec<F>, &Vec<G>) -> S,
    Prove: Fn(S, &K, usize, &NIVCStep<T, W, C>, &Vec<F>, &Vec<G>) -> S,
    Verify: Fn(&S, &K, usize, &Vec<F>, &Vec<G>),
>(
    prover: &SuperNovaProver<C>,
    expr: P,
    env: P,
    limit: usize,
    lang: Arc<Lang<C>>,
    evaluate: &Evaluate,
    to_vector: &ToVector,
    scheme: &FoldingScheme<Setup, Base, Prove, Verify>,
    result: Result<(Proof<S>, Vec<F>, Vec<F>, usize), E>,
)
    requires
        call_ensures(
            SuperNovaProver::<C>::evaluate_and_prove::<
                P,
                T,
                W,
                F,
                G,
                K,
                S,
                E,
                Evaluate,
                ToVector,
                Setup,
                Base,
                Prove,
                Verify,
            >,
            (prover, expr, env, limit, lang, evaluate, to_vector, scheme),
            result,
        ),
    ensures
        ({
            ||| result is Err && call_ensures(
                *evaluate,
                (expr, env, limit, lang),
                Err(result->Err_0),
            )
            ||| exists|frames: Vec<Frame<T, W>>, evaluated: &[Frame<T, W>]|
                {
                    &&& #[trigger] call_ensures(*evaluate, (expr, env, limit, lang), Ok(frames))
                    &&& evaluated@ == frames@
                    &&& #[trigger] call_ensures(
                        SuperNovaProver::<C>::prove::<
                            T,
                            W,
                            F,
                            G,
                            K,
                            S,
                            E,
                            ToVector,
                            Setup,
                            Base,
                            Prove,
                            Verify,
                        >,
                        (prover, evaluated, lang, to_vector, scheme),
                        result,
                    )
                }
        }),
{
}

} // verus!
