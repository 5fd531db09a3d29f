//! What holds of the library as a whole.

use std::sync::Arc;

use vstd::prelude::*;

use crate::config::FoldingConfig;
use crate::folding::{
    foldable, is_z0_secondary, proves, verdict_on, Folding, FoldingScheme, Proof,
};
use crate::frame::{chunks, multiframes_of, Frame, MultiFrameView};
use crate::lang::{Lang, Meta};
use crate::prover::SuperNovaProver;
use crate::step::{NIVCStep, NIVCStepView};
use crate::steps::{
    batched, first_batch, first_batch_count, law_first_run_is_maximal, linked, run_length, runs,
    NIVCSteps,
};

pub mod accepting;
pub mod circuits;
pub mod languages;
pub mod proving;
pub mod sharing;

verus! {

/// A configuration gives back the language and the reduction count that it was made of.
pub proof fn law_config_keeps_its_parts<C>(lang: Arc<Lang<C>>, reduction_count: usize)
    ensures
        FoldingConfig::IVC(lang, reduction_count).language() == *lang,
        FoldingConfig::IVC(lang, reduction_count).reductions() == reduction_count,
        FoldingConfig::NIVC(lang, reduction_count).language() == *lang,
        FoldingConfig::NIVC(lang, reduction_count).reductions() == reduction_count,
{
}

/// A circuit index is below the number of circuits.
pub proof fn law_circuit_index_in_range<C>(config: FoldingConfig<C>, meta: Meta)
    requires
        config.has_circuit(meta),
    ensures
        0 <= config.circuit_of(meta) < config.circuit_total(),
{
}

/// A single circuit does all the work of an IVC configuration.
pub proof fn law_ivc_has_one_circuit<C>(config: FoldingConfig<C>, meta: Meta)
    requires
        config is IVC,
    ensures
        config.has_circuit(meta),
        config.circuit_of(meta) == 0,
        config.circuit_total() == 1,
{
}

/// In an NIVC configuration no circuit is shared: what has the same index has the same tag.
pub proof fn law_nivc_circuits_are_distinct<C>(config: FoldingConfig<C>, a: Meta, b: Meta)
    requires
        config is NIVC,
        config.has_circuit(a),
        config.has_circuit(b),
        config.circuit_of(a) == config.circuit_of(b),
    ensures
        a == b,
{
}

/// The universal Lurk circuit has index 0 in every configuration, and in an NIVC configuration
/// nothing else has it.
pub proof fn law_universal_circuit_is_first<C>(config: FoldingConfig<C>, meta: Meta)
    requires
        config.has_circuit(meta),
    ensures
        config.has_circuit(Meta::Lurk),
        config.circuit_of(Meta::Lurk) == 0,
        config is NIVC ==> (config.circuit_of(meta) == 0 <==> meta is Lurk),
{
}

/// The circuit at an index of the set that an NIVC step stands for is assigned just that index,
/// and the set has as many circuits as the configuration asks for.
pub proof fn law_circuit_set_matches_indices<T: Copy, W: Copy, C>(
    step: NIVCStepView<T, W, C>,
    circuit_index: int,
)
    requires
        step.multiframe.meta is Lurk,
        step.multiframe.folding_config is NIVC,
        step.language().well_formed(),
        0 <= circuit_index < step.language()@.len() + 1,
    ensures
        step.language()@.len() + 1 == step.multiframe.folding_config.circuit_total(),
        step.circuit_at(circuit_index).multiframe.folding_config
            == step.multiframe.folding_config,
        step.circuit_at(circuit_index).multiframe.has_circuit(),
        step.circuit_at(circuit_index).multiframe.circuit() == circuit_index,
{
    if circuit_index > 0 {
        let z_ptrs = step.language().z_ptrs();
        let z_ptr = z_ptrs[circuit_index - 1];
        assert(z_ptrs.contains(z_ptr));
        assert(z_ptrs.index_of(z_ptr) == circuit_index - 1);
    }
}

/// Pieces of a sequence, joined, are the sequence.
pub proof fn law_chunks_join<A>(s: Seq<A>, size: nat)
    requires
        size > 0,
    ensures
        chunks(s, size).flatten() == s,
    decreases s.len(),
{
    if 0 < s.len() <= size {
        chunks(s, size).lemma_flatten_one_element();
    } else if s.len() > size {
        let rest = s.skip(size as int);
        law_chunks_join(rest, size);
        assert(chunks(s, size).drop_first() =~= chunks(rest, size));
    }
}

/// No piece of a sequence is empty, all but the last have the size asked for, and the last has no
/// more.
pub proof fn law_chunk_sizes<A>(s: Seq<A>, size: nat, i: int)
    requires
        0 <= i < chunks(s, size).len(),
    ensures
        0 < chunks(s, size)[i].len() <= size,
        i + 1 < chunks(s, size).len() ==> chunks(s, size)[i].len() == size,
    decreases s.len(),
{
    if s.len() > size && i > 0 {
        let rest = s.skip(size as int);
        law_chunk_sizes(rest, size, i - 1);
    }
}

/// A sequence has as many pieces as its length divided by their size, rounded up.
pub proof fn law_chunk_count<A>(s: Seq<A>, size: nat)
    requires
        size > 0,
    ensures
        chunks(s, size).len() == (s.len() + size - 1) / size as int,
    decreases s.len(),
{
    if s.len() == 0 {
        vstd::arithmetic::div_mod::lemma_basic_div(size - 1, size as int);
    } else if s.len() <= size {
        vstd::arithmetic::div_mod::lemma_div_plus_one(s.len() - 1, size as int);
        vstd::arithmetic::div_mod::lemma_basic_div(s.len() - 1, size as int);
    } else {
        law_chunk_count(s.skip(size as int), size);
        vstd::arithmetic::div_mod::lemma_div_plus_one(s.len() - 1, size as int);
    }
}

/// Every element of a sequence is in one of its pieces.
pub proof fn law_chunks_keep_elements<A>(s: Seq<A>, size: nat, j: int)
    requires
        size > 0,
        0 <= j < s.len(),
    ensures
        exists|k: int, m: int|
            {
                &&& 0 <= k < chunks(s, size).len()
                &&& 0 <= m < chunks(s, size)[k].len()
                &&& #[trigger] chunks(s, size)[k][m] == s[j]
            },
    decreases s.len(),
{
    if s.len() <= size || j < size {
        assert(chunks(s, size)[0][j] == s[j]);
    } else {
        let rest = s.skip(size as int);
        law_chunks_keep_elements(rest, size, j - size);
        let (k, m) = choose|k: int, m: int|
            0 <= k < chunks(rest, size).len() && 0 <= m < chunks(rest, size)[k].len()
                && #[trigger] chunks(rest, size)[k][m] == rest[j - size];
        assert(chunks(s, size)[k + 1][m] == s[j]);
    }
}

/// The runs of frames, joined, are the frames.
pub proof fn law_runs_join<T: Copy, W: Copy>(frames: Seq<Frame<T, W>>)
    ensures
        runs(frames).flatten() == frames,
    decreases frames.len(),
{
    if frames.len() > 0 {
        law_first_run_is_maximal(frames);
        let length = run_length(frames) as int;
        let rest = frames.skip(length);
        law_runs_join(rest);
        assert(runs(frames).drop_first() =~= runs(rest));
    }
}

/// All frames of a run are reduced by the same, and those of the next run by something else.
pub proof fn law_runs_are_maximal<T: Copy, W: Copy>(frames: Seq<Frame<T, W>>, i: int)
    requires
        0 <= i < runs(frames).len(),
    ensures
        runs(frames)[i].len() > 0,
        forall|j: int|
            0 <= j < runs(frames)[i].len() ==> (#[trigger] runs(frames)[i][j]).meta == runs(
                frames,
            )[i][0].meta,
        i + 1 < runs(frames).len() ==> runs(frames)[i + 1][0].meta != runs(frames)[i][0].meta,
    decreases frames.len(),
{
    law_first_run_is_maximal(frames);
    let length = run_length(frames) as int;
    let rest = frames.skip(length);
    if i > 0 {
        law_runs_are_maximal(rest, i - 1);
    } else if 1 < runs(frames).len() {
        law_first_run_is_maximal(rest);
        assert(runs(rest)[0][0] == frames[length]);
    }
}

/// The runs joined, where the first frame of a run stands a second time behind the universal run
/// before it, as padding.
pub open spec fn with_padding<T: Copy, W: Copy>(runs: Seq<Seq<Frame<T, W>>>) -> Seq<Frame<T, W>>
    decreases runs.len(),
{
    if runs.len() == 0 {
        seq![]
    } else {
        first_batch(runs) + with_padding(runs.drop_first())
    }
}

/// The frames of each multiframe.
pub open spec fn contents<T: Copy, W: Copy, C>(multiframes: Seq<MultiFrameView<T, W, C>>) -> Seq<
    Seq<Frame<T, W>>,
> {
    multiframes.map_values(|multiframe: MultiFrameView<T, W, C>| multiframe.frames->0)
}

/// The steps hold the frames in order, and nothing else but padding.
pub proof fn law_steps_hold_the_frames_in_order<T: Copy, W: Copy, C>(
    count: usize,
    runs: Seq<Seq<Frame<T, W>>>,
    folding_config: FoldingConfig<C>,
)
    requires
        count > 0,
    ensures
        contents(batched(count, runs, folding_config)).flatten() == with_padding(runs),
    decreases runs.len(),
{
    if runs.len() > 0 {
        let size = first_batch_count(runs, count);
        let batch = first_batch(runs);
        let first = multiframes_of(runs[0][0].meta, size, batch, folding_config);
        let others = batched(count, runs.drop_first(), folding_config);
        assert(contents(first) =~= chunks(batch, size as nat));
        law_chunks_join(batch, size as nat);
        law_steps_hold_the_frames_in_order(count, runs.drop_first(), folding_config);
        assert(contents(first + others) =~= contents(first) + contents(others));
        vstd::seq_lib::lemma_flatten_concat(contents(first), contents(others));
    }
}

/// No frame is lost: each is held by some step.
pub proof fn law_no_frame_is_lost<T: Copy, W: Copy, C>(
    count: usize,
    frames: Seq<Frame<T, W>>,
    folding_config: FoldingConfig<C>,
    j: int,
)
    requires
        count > 0,
        0 <= j < frames.len(),
    ensures
        exists|k: int, m: int|
            {
                &&& 0 <= k < contents(batched(count, runs(frames), folding_config)).len()
                &&& 0 <= m < contents(batched(count, runs(frames), folding_config))[k].len()
                &&& #[trigger] contents(batched(count, runs(frames), folding_config))[k][m]
                    == frames[j]
            },
    decreases frames.len(),
{
    law_first_run_is_maximal(frames);
    let length = run_length(frames) as int;
    let rest = frames.skip(length);
    let size = first_batch_count(runs(frames), count);
    let batch = first_batch(runs(frames));
    let first = multiframes_of(runs(frames)[0][0].meta, size, batch, folding_config);
    let others = batched(count, runs(rest), folding_config);
    assert(runs(frames).drop_first() =~= runs(rest));
    let steps = contents(batched(count, runs(frames), folding_config));
    if j < length {
        law_chunks_keep_elements(batch, size as nat, j);
        let (k, m) = choose|k: int, m: int|
            0 <= k < chunks(batch, size as nat).len() && 0 <= m < chunks(
                batch,
                size as nat,
            )[k].len() && #[trigger] chunks(batch, size as nat)[k][m] == batch[j];
        assert(steps[k][m] == frames[j]);
    } else {
        law_no_frame_is_lost(count, rest, folding_config, j - length);
        let (k, m) = choose|k: int, m: int|
            0 <= k < contents(others).len() && 0 <= m < contents(others)[k].len()
                && #[trigger] contents(others)[k][m] == rest[j - length];
        assert(steps[k + first.len()][m] == frames[j]);
    }
}

/// A step holds at least one frame, and no more than its circuit has room for, which is the
/// count that was asked for, or one frame for a coprocessor.
pub proof fn law_step_sizes<T: Copy, W: Copy, C>(
    count: usize,
    runs: Seq<Seq<Frame<T, W>>>,
    folding_config: FoldingConfig<C>,
    i: int,
)
    requires
        count > 0,
        0 <= i < batched(count, runs, folding_config).len(),
    ensures
        batched(count, runs, folding_config)[i].frames matches Some(frames) && 0 < frames.len()
            <= batched(count, runs, folding_config)[i].count,
        batched(count, runs, folding_config)[i].count == count || {
            &&& batched(count, runs, folding_config)[i].count == 1
            &&& batched(count, runs, folding_config)[i].meta is Coprocessor
        },
    decreases runs.len(),
{
    let size = first_batch_count(runs, count);
    let batch = first_batch(runs);
    let first = multiframes_of(runs[0][0].meta, size, batch, folding_config);
    if i < first.len() {
        law_chunk_sizes(batch, size as nat, i);
    } else {
        law_step_sizes(count, runs.drop_first(), folding_config, i - first.len());
    }
}

/// Frames that are all reduced by the same make as many steps as their number divided by the
/// count, rounded up.
pub proof fn law_uniform_step_count<T: Copy, W: Copy, C>(
    count: usize,
    frames: Seq<Frame<T, W>>,
    folding_config: FoldingConfig<C>,
)
    requires
        count > 0,
        frames.len() > 0,
        forall|i: int| 0 <= i < frames.len() ==> (#[trigger] frames[i]).meta == frames[0].meta,
    ensures
        batched(count, runs(frames), folding_config).len() == (frames.len() + count - 1)
            / count as int,
{
    law_first_run_is_maximal(frames);
    let length = run_length(frames) as int;
    assert(frames.take(length) =~= frames);
    assert(runs(frames.skip(length)) =~= seq![]);
    assert(batched(count, runs(frames).drop_first(), folding_config) =~= seq![]);
    law_chunk_count(frames, count as nat);
}

/// The program counter that a step puts out is the index of the circuit of the step after it.
pub proof fn law_program_counters_chain<T: Copy, W: Copy, C>(
    multiframes: Seq<MultiFrameView<T, W, C>>,
    i: int,
)
    requires
        0 <= i < multiframes.len() - 1,
    ensures
        linked(multiframes)[i].next_circuit() == linked(multiframes)[i + 1].multiframe.circuit(),
{
}

/// The last step puts out the index of the universal circuit.
pub proof fn law_last_program_counter<T: Copy, W: Copy, C>(
    multiframes: Seq<MultiFrameView<T, W, C>>,
)
    requires
        multiframes.len() > 0,
    ensures
        linked(multiframes).last().next_circuit() == 0,
{
}

/// A folding starts with the universal circuit, so its first program counter stands for 0.
pub proof fn law_folding_starts_with_the_universal_circuit<T: Copy, W: Copy, C>(
    steps: Seq<NIVCStepView<T, W, C>>,
    lang: Lang<C>,
)
    requires
        foldable(steps, lang),
    ensures
        steps[0].multiframe.circuit() == 0,
{
}

/// A proof that folding gives has been verified: the last operation that it went through is
/// verification against the running claim of the last step's circuit.
pub proof fn law_proof_was_verified<
    T: Copy,
    W: Copy,
    C,
    F: From<u64>,
    G: From<u64>,
    K,
    S,
    Setup: Fn(&NIVCStep<T, W, C>) -> K,
    Base: Fn(&K, usize, &NIVCStep<T, W, C>, F, usize, &Vec<F>, &Vec<G>) -> S,
    Prove: Fn(S, &K, usize, &NIVCStep<T, W, C>, &Vec<F>, &Vec<G>) -> S,
    Verify: Fn(&S, &K, usize, &Vec<F>, &Vec<G>),
>(
    recursive: Proof<S>,
    steps: Seq<NIVCStep<T, W, C>>,
    reduction_count: usize,
    z0: Seq<F>,
    lang: Arc<Lang<C>>,
    scheme: FoldingScheme<Setup, Base, Prove, Verify>,
)
    requires
        steps.len() > 0,
        proves::<T, W, C, F, G, K, S, Setup, Base, Prove, Verify>(
            recursive,
            steps,
            reduction_count,
            z0,
            lang,
            scheme,
        ),
    ensures
        recursive matches Proof::Recursive(snark) && exists|
            folding: Folding<T, W, C, F, G, K, S>,
        |
            {
                &&& #[trigger] folding.starts(steps, reduction_count, z0, lang, scheme)
                &&& call_ensures(
                    scheme.verify,
                    (
                        &*snark,
                        &folding.claims,
                        steps.last()@.multiframe.circuit() as usize,
                        &folding.z0_primary,
                        &folding.z0_secondary,
                    ),
                    (),
                )
            },
{
    let folding = choose|folding: Folding<T, W, C, F, G, K, S>|
        {
            &&& #[trigger] folding.starts(steps, reduction_count, z0, lang, scheme)
            &&& folding.snarks.len() == steps.len() + 1
            &&& forall|i: int|
                0 <= i < steps.len() ==> folding.folds(i, #[trigger] steps[i], scheme)
            &&& *recursive->Recursive_0 == folding.snarks.last()
        };
    assert(folding.folds(steps.len() - 1, steps[steps.len() - 1], scheme));
}

/// Whether a number is converted to just one element.
pub open spec fn converts_to_one<F: From<u64>>() -> bool {
    forall|n: u64, a: F, b: F|
        #[trigger] call_ensures(F::from, (n,), a) && #[trigger] call_ensures(F::from, (n,), b)
            ==> a == b
}

/// Whether every operation of `scheme` has one outcome for what its arguments hold.
pub open spec fn has_one_outcome<
    T: Copy,
    W: Copy,
    C,
    F,
    G,
    K,
    S,
    Setup: Fn(&NIVCStep<T, W, C>) -> K,
    Base: Fn(&K, usize, &NIVCStep<T, W, C>, F, usize, &Vec<F>, &Vec<G>) -> S,
    Prove: Fn(S, &K, usize, &NIVCStep<T, W, C>, &Vec<F>, &Vec<G>) -> S,
    Verify: Fn(&S, &K, usize, &Vec<F>, &Vec<G>),
>(scheme: FoldingScheme<Setup, Base, Prove, Verify>) -> bool {
    &&& forall|a: &NIVCStep<T, W, C>, b: &NIVCStep<T, W, C>, x: K, y: K|
        {
            &&& a@ == b@
            &&& #[trigger] call_ensures(scheme.setup_running_claims, (a,), x)
            &&& #[trigger] call_ensures(scheme.setup_running_claims, (b,), y)
        } ==> x == y
    &&& forall|
        claims: &K,
        claim: usize,
        a: &NIVCStep<T, W, C>,
        b: &NIVCStep<T, W, C>,
        pc: F,
        count: usize,
        z_a: &Vec<F>,
        z_b: &Vec<F>,
        w_a: &Vec<G>,
        w_b: &Vec<G>,
        x: S,
        y: S,
    |
        {
            &&& a@ == b@
            &&& z_a@ == z_b@
            &&& w_a@ == w_b@
            &&& #[trigger] call_ensures(
                scheme.iter_base_step,
                (claims, claim, a, pc, count, z_a, w_a),
                x,
            )
            &&& #[trigger] call_ensures(
                scheme.iter_base_step,
                (claims, claim, b, pc, count, z_b, w_b),
                y,
            )
        } ==> x == y
    &&& forall|
        snark: S,
        claims: &K,
        claim: usize,
        a: &NIVCStep<T, W, C>,
        b: &NIVCStep<T, W, C>,
        z_a: &Vec<F>,
        z_b: &Vec<F>,
        w_a: &Vec<G>,
        w_b: &Vec<G>,
        x: S,
        y: S,
    |
        {
            &&& a@ == b@
            &&& z_a@ == z_b@
            &&& w_a@ == w_b@
            &&& #[trigger] call_ensures(
                scheme.prove_step,
                (snark, claims, claim, a, z_a, w_a),
                x,
            )
            &&& #[trigger] call_ensures(
                scheme.prove_step,
                (snark, claims, claim, b, z_b, w_b),
                y,
            )
        } ==> x == y
}

/// Two foldings of the same steps that start alike pass through the same proofs.
proof fn lemma_same_snarks<
    T: Copy,
    W: Copy,
    C,
    F: From<u64>,
    G: From<u64>,
    K,
    S,
    Setup: Fn(&NIVCStep<T, W, C>) -> K,
    Base: Fn(&K, usize, &NIVCStep<T, W, C>, F, usize, &Vec<F>, &Vec<G>) -> S,
    Prove: Fn(S, &K, usize, &NIVCStep<T, W, C>, &Vec<F>, &Vec<G>) -> S,
    Verify: Fn(&S, &K, usize, &Vec<F>, &Vec<G>),
>(
    a: Folding<T, W, C, F, G, K, S>,
    b: Folding<T, W, C, F, G, K, S>,
    steps_a: Seq<NIVCStep<T, W, C>>,
    steps_b: Seq<NIVCStep<T, W, C>>,
    scheme: FoldingScheme<Setup, Base, Prove, Verify>,
    i: int,
)
    requires
        has_one_outcome::<T, W, C, F, G, K, S, Setup, Base, Prove, Verify>(scheme),
        a.claims == b.claims,
        a.z0_primary@ == b.z0_primary@,
        a.z0_secondary@ == b.z0_secondary@,
        a.snarks[0] == b.snarks[0],
        steps_a.len() == steps_b.len(),
        forall|j: int| 0 <= j < steps_a.len() ==> (#[trigger] steps_a[j])@ == steps_b[j]@,
        forall|j: int| 0 <= j < steps_a.len() ==> a.folds(j, #[trigger] steps_a[j], scheme),
        forall|j: int| 0 <= j < steps_b.len() ==> b.folds(j, #[trigger] steps_b[j], scheme),
        0 <= i <= steps_a.len(),
    ensures
        a.snarks[i] == b.snarks[i],
    decreases i,
{
    if i > 0 {
        lemma_same_snarks(a, b, steps_a, steps_b, scheme, i - 1);
        assert(steps_a[i - 1]@ == steps_b[i - 1]@);
        assert(a.folds(i - 1, steps_a[i - 1], scheme));
        assert(b.folds(i - 1, steps_b[i - 1], scheme));
    }
}

/// A scheme whose operations have one outcome each folds the same steps, from the same initial
/// input on, into one proof: nothing else has an influence on it.
pub proof fn law_folding_has_one_outcome<
    T: Copy,
    W: Copy,
    C,
    F: From<u64>,
    G: From<u64>,
    K,
    S,
    Setup: Fn(&NIVCStep<T, W, C>) -> K,
    Base: Fn(&K, usize, &NIVCStep<T, W, C>, F, usize, &Vec<F>, &Vec<G>) -> S,
    Prove: Fn(S, &K, usize, &NIVCStep<T, W, C>, &Vec<F>, &Vec<G>) -> S,
    Verify: Fn(&S, &K, usize, &Vec<F>, &Vec<G>),
>(
    a: Proof<S>,
    b: Proof<S>,
    steps_a: Seq<NIVCStep<T, W, C>>,
    steps_b: Seq<NIVCStep<T, W, C>>,
    reduction_count: usize,
    z0: Seq<F>,
    lang: Arc<Lang<C>>,
    scheme: FoldingScheme<Setup, Base, Prove, Verify>,
)
    requires
        has_one_outcome::<T, W, C, F, G, K, S, Setup, Base, Prove, Verify>(scheme),
        converts_to_one::<F>(),
        converts_to_one::<G>(),
        steps_a.len() == steps_b.len(),
        forall|j: int| 0 <= j < steps_a.len() ==> (#[trigger] steps_a[j])@ == steps_b[j]@,
        proves::<T, W, C, F, G, K, S, Setup, Base, Prove, Verify>(
            a,
            steps_a,
            reduction_count,
            z0,
            lang,
            scheme,
        ),
        proves::<T, W, C, F, G, K, S, Setup, Base, Prove, Verify>(
            b,
            steps_b,
            reduction_count,
            z0,
            lang,
            scheme,
        ),
    ensures
        a == b,
{
    let f = choose|f: Folding<T, W, C, F, G, K, S>|
        {
            &&& #[trigger] f.starts(steps_a, reduction_count, z0, lang, scheme)
            &&& f.snarks.len() == steps_a.len() + 1
            &&& forall|i: int|
                0 <= i < steps_a.len() ==> f.folds(i, #[trigger] steps_a[i], scheme)
            &&& *a->Recursive_0 == f.snarks.last()
        };
    let g = choose|g: Folding<T, W, C, F, G, K, S>|
        {
            &&& #[trigger] g.starts(steps_b, reduction_count, z0, lang, scheme)
            &&& g.snarks.len() == steps_b.len() + 1
            &&& forall|i: int|
                0 <= i < steps_b.len() ==> g.folds(i, #[trigger] steps_b[i], scheme)
            &&& *b->Recursive_0 == g.snarks.last()
        };
    if steps_a.len() == 0 {
        assert(steps_a =~= steps_b);
    }
    assert(steps_a[0]@ == steps_b[0]@);
    assert(f.z0_secondary@ =~= g.z0_secondary@);
    lemma_same_snarks(f, g, steps_a, steps_b, scheme, steps_a.len() as int);
}

/// Two calls of [`Proof::prove_recursively`] on the same arguments have the same result, if the
/// operations of the scheme have one outcome each.
pub proof fn law_prove_recursively_has_one_result<
    T: Copy,
    W: Copy,
    C,
    F: From<u64>,
    G: From<u64>,
    K,
    S,
    E,
    Setup: Fn(&NIVCStep<T, W, C>) -> K,
    Base: Fn(&K, usize, &NIVCStep<T, W, C>, F, usize, &Vec<F>, &Vec<G>) -> S,
    Prove: Fn(S, &K, usize, &NIVCStep<T, W, C>, &Vec<F>, &Vec<G>) -> S,
    Verify: Fn(&S, &K, usize, &Vec<F>, &Vec<G>),
>(
    nivc_steps: &NIVCSteps<T, W, C>,
    reduction_count: usize,
    z0: Vec<F>,
    lang: Arc<Lang<C>>,
    scheme: &FoldingScheme<Setup, Base, Prove, Verify>,
    a: Result<Proof<S>, E>,
    b: Result<Proof<S>, E>,
)
    requires
        has_one_outcome::<T, W, C, F, G, K, S, Setup, Base, Prove, Verify>(*scheme),
        converts_to_one::<F>(),
        converts_to_one::<G>(),
        call_ensures(
            Proof::<S>::prove_recursively::<T, W, C, F, G, K, E, Setup, Base, Prove, Verify>,
            (nivc_steps, reduction_count, z0, lang, scheme),
            a,
        ),
        call_ensures(
            Proof::<S>::prove_recursively::<T, W, C, F, G, K, E, Setup, Base, Prove, Verify>,
            (nivc_steps, reduction_count, z0, lang, scheme),
            b,
        ),
    ensures
        a is Ok,
        a == b,
{
    law_folding_has_one_outcome::<T, W, C, F, G, K, S, Setup, Base, Prove, Verify>(
        a->Ok_0,
        b->Ok_0,
        nivc_steps.steps@,
        nivc_steps.steps@,
        reduction_count,
        z0@,
        lang,
        *scheme,
    );
}

/// Whether encoding a state has one outcome.
pub open spec fn encodes_to_one<T: Copy, F, E, ToVector: Fn(&T) -> Result<Vec<F>, E>>(
    to_vector: ToVector,
) -> bool {
    forall|state: &T, x: Result<Vec<F>, E>, y: Result<Vec<F>, E>|
        #[trigger] call_ensures(to_vector, (state,), x) && #[trigger] call_ensures(
            to_vector,
            (state,),
            y,
        ) ==> x == y
}

/// Two provers with the same reduction count prove the same frames for the same language with
/// the same result, if encoding a state and the operations of the scheme have one outcome each:
/// the language that a prover was made with has no influence.
pub proof fn law_prove_ignores_the_provers_language<
    T: Copy,
    W: Copy,
    C,
    F: From<u64> + Copy,
    G: From<u64>,
    K,
    S,
    E,
    ToVector: Fn(&T) -> Result<Vec<F>, E>,
    Setup: Fn(&NIVCStep<T, W, C>) -> K,
    Base: Fn(&K, usize, &NIVCStep<T, W, C>, F, usize, &Vec<F>, &Vec<G>) -> S,
    Prove: Fn(S, &K, usize, &NIVCStep<T, W, C>, &Vec<F>, &Vec<G>) -> S,
    Verify: Fn(&S, &K, usize, &Vec<F>, &Vec<G>),
>(
    prover_a: &SuperNovaProver<C>,
    prover_b: &SuperNovaProver<C>,
    frames: &[Frame<T, W>],
    lang: Arc<Lang<C>>,
    to_vector: &ToVector,
    scheme: &FoldingScheme<Setup, Base, Prove, Verify>,
    a: Result<(Proof<S>, Vec<F>, Vec<F>, usize), E>,
    b: Result<(Proof<S>, Vec<F>, Vec<F>, usize), E>,
)
    requires
        prover_a.reduction_count == prover_b.reduction_count,
        encodes_to_one::<T, F, E, ToVector>(*to_vector),
        has_one_outcome::<T, W, C, F, G, K, S, Setup, Base, Prove, Verify>(*scheme),
        converts_to_one::<F>(),
        converts_to_one::<G>(),
        call_ensures(
            SuperNovaProver::<C>::prove::<
                T,
                W,
                F,
                G,
                K,
                S,
                E,
                ToVector,
                Setup,
                Base,
                Prove,
                Verify,
            >,
            (prover_a, frames, lang, to_vector, scheme),
            a,
        ),
        call_ensures(
            SuperNovaProver::<C>::prove::<
                T,
                W,
                F,
                G,
                K,
                S,
                E,
                ToVector,
                Setup,
                Base,
                Prove,
                Verify,
            >,
            (prover_b, frames, lang, to_vector, scheme),
            b,
        ),
    ensures
        a == b,
{
    let count = prover_a.reduction_count;
    let config = FoldingConfig::NIVC(lang, count);
    let planned = linked(batched(count, runs(frames@), config));
    if a is Ok && b is Ok {
        let (recursive_a, z0, _, _) = a->Ok_0;
        let (recursive_b, _, _, _) = b->Ok_0;
        let steps_a = choose|steps: NIVCSteps<T, W, C>|
            #[trigger] steps@ == planned && proves::<
                T,
                W,
                C,
                F,
                G,
                K,
                S,
                Setup,
                Base,
                Prove,
                Verify,
            >(recursive_a, steps.steps@, count, z0@, lang, *scheme);
        let steps_b = choose|steps: NIVCSteps<T, W, C>|
            #[trigger] steps@ == planned && proves::<
                T,
                W,
                C,
                F,
                G,
                K,
                S,
                Setup,
                Base,
                Prove,
                Verify,
            >(recursive_b, steps.steps@, count, z0@, lang, *scheme);
        assert forall|j: int| 0 <= j < steps_a.steps@.len() implies (#[trigger] steps_a.steps@[j])@
            == steps_b.steps@[j]@ by {
            assert(steps_a@[j] == steps_b@[j]);
        }
        assert(steps_a@.len() == steps_b@.len());
        law_folding_has_one_outcome::<T, W, C, F, G, K, S, Setup, Base, Prove, Verify>(
            recursive_a,
            recursive_b,
            steps_a.steps@,
            steps_b.steps@,
            count,
            z0@,
            lang,
            *scheme,
        );
    }
}

/// Whether `check` has one outcome for what its arguments hold.
pub open spec fn checks_to_one<S, F, G, K, V, E, Check: Fn(&S, &K, &[F], &Vec<G>) -> Result<V, E>>(
    check: Check,
) -> bool {
    forall|
        snark: &S,
        claim: &K,
        z0: &[F],
        w_a: &Vec<G>,
        w_b: &Vec<G>,
        x: Result<V, E>,
        y: Result<V, E>,
    |
        {
            &&& w_a@ == w_b@
            &&& #[trigger] call_ensures(check, (snark, claim, z0, w_a), x)
            &&& #[trigger] call_ensures(check, (snark, claim, z0, w_b), y)
        } ==> x == y
}

/// Verifying the same proof against the same claim and initial input has the same answer, if the
/// check has one outcome: the number of steps and the claimed output have no influence.
pub proof fn law_verify_ignores_steps_and_output<
    S,
    F,
    G: From<u64>,
    K,
    V,
    E,
    Check: Fn(&S, &K, &[F], &Vec<G>) -> Result<V, E>,
>(
    recursive: &Proof<S>,
    claim: &K,
    z0: &[F],
    check: Check,
    num_steps_a: usize,
    num_steps_b: usize,
    zi_a: &[F],
    zi_b: &[F],
    a: Result<bool, E>,
    b: Result<bool, E>,
)
    requires
        checks_to_one::<S, F, G, K, V, E, Check>(check),
        converts_to_one::<G>(),
        call_ensures(
            Proof::<S>::verify::<F, G, K, V, E, Check>,
            (recursive, claim, num_steps_a, z0, zi_a, check),
            a,
        ),
        call_ensures(
            Proof::<S>::verify::<F, G, K, V, E, Check>,
            (recursive, claim, num_steps_b, z0, zi_b, check),
            b,
        ),
    ensures
        a == b,
{
    let snark = recursive->Recursive_0;
    let (w_a, x) = choose|w: Vec<G>, x: Result<V, E>|
        {
            &&& is_z0_secondary(w@)
            &&& #[trigger] call_ensures(check, (&*snark, claim, z0, &w), x)
            &&& a == verdict_on(x)
        };
    let (w_b, y) = choose|w: Vec<G>, y: Result<V, E>|
        {
            &&& is_z0_secondary(w@)
            &&& #[trigger] call_ensures(check, (&*snark, claim, z0, &w), y)
            &&& b == verdict_on(y)
        };
    assert(w_a@ =~= w_b@);
}

/// Whether `check`, against `claim`, accepts whatever the verification of `scheme` accepts against
/// the running claim of `circuit` among `claims`.
pub open spec fn accepts_what_is_verified<
    F,
    G,
    K,
    Q,
    S,
    V,
    E,
    Setup,
    Base,
    Prove,
    Verify: Fn(&S, &K, usize, &Vec<F>, &Vec<G>),
    Check: Fn(&S, &Q, &[F], &Vec<G>) -> Result<V, E>,
>(
    check: Check,
    claim: &Q,
    scheme: FoldingScheme<Setup, Base, Prove, Verify>,
    claims: K,
    circuit: usize,
) -> bool {
    forall|
        snark: &S,
        z_a: &Vec<F>,
        z_b: &[F],
        w_a: &Vec<G>,
        w_b: &Vec<G>,
        outcome: Result<V, E>,
    |
        {
            &&& z_a@ == z_b@
            &&& w_a@ == w_b@
            &&& #[trigger] call_ensures(scheme.verify, (snark, &claims, circuit, z_a, w_a), ())
            &&& #[trigger] call_ensures(check, (snark, claim, z_b, w_b), outcome)
        } ==> outcome is Ok
}

/// What was proved verifies: [`Proof::verify`] answers that a proof of
/// [`Proof::prove_recursively`] holds, against the running claim of the last step's circuit and
/// from the same initial input on, whatever number of steps and output it is given. This is so
/// where setting up the running claims has one outcome, `claims`, and the check accepts whatever
/// the verification of the scheme accepts.
pub proof fn law_what_was_proved_verifies<
    T: Copy,
    W: Copy,
    C,
    F: From<u64>,
    G: From<u64>,
    K,
    S,
    Q,
    V,
    E,
    D,
    Setup: Fn(&NIVCStep<T, W, C>) -> K,
    Base: Fn(&K, usize, &NIVCStep<T, W, C>, F, usize, &Vec<F>, &Vec<G>) -> S,
    Prove: Fn(S, &K, usize, &NIVCStep<T, W, C>, &Vec<F>, &Vec<G>) -> S,
    Verify: Fn(&S, &K, usize, &Vec<F>, &Vec<G>),
    Check: Fn(&S, &Q, &[F], &Vec<G>) -> Result<V, D>,
>(
    nivc_steps: &NIVCSteps<T, W, C>,
    reduction_count: usize,
    z0: Vec<F>,
    lang: Arc<Lang<C>>,
    scheme: &FoldingScheme<Setup, Base, Prove, Verify>,
    recursive: Proof<S>,
    claims: K,
    claim: &Q,
    num_steps: usize,
    z0_again: &[F],
    zi: &[F],
    check: Check,
    answer: Result<bool, D>,
)
    requires
        nivc_steps@.len() > 0,
        converts_to_one::<G>(),
        forall|blank: &NIVCStep<T, W, C>, x: K|
            {
                &&& blank@ == NIVCStepView::<T, W, C>::blank(
                    FoldingConfig::NIVC(lang, reduction_count),
                    Meta::Lurk,
                )
                &&& #[trigger] call_ensures(scheme.setup_running_claims, (blank,), x)
            } ==> x == claims,
        accepts_what_is_verified::<F, G, K, Q, S, V, D, Setup, Base, Prove, Verify, Check>(
            check,
            claim,
            *scheme,
            claims,
            nivc_steps@.last().multiframe.circuit() as usize,
        ),
        call_ensures(
            Proof::<S>::prove_recursively::<T, W, C, F, G, K, E, Setup, Base, Prove, Verify>,
            (nivc_steps, reduction_count, z0, lang, scheme),
            Ok(recursive),
        ),
        z0_again@ == z0@,
        call_ensures(
            Proof::<S>::verify::<F, G, Q, V, D, Check>,
            (&recursive, claim, num_steps, z0_again, zi, check),
            answer,
        ),
    ensures
        answer == Ok::<bool, D>(true),
{
    let steps = nivc_steps.steps@;
    law_proof_was_verified::<T, W, C, F, G, K, S, Setup, Base, Prove, Verify>(
        recursive,
        steps,
        reduction_count,
        z0@,
        lang,
        *scheme,
    );
    let snark = recursive->Recursive_0;
    let circuit = steps.last()@.multiframe.circuit() as usize;
    assert(steps.last()@ == nivc_steps@.last());
    let folding = choose|folding: Folding<T, W, C, F, G, K, S>|
        {
            &&& #[trigger] folding.starts(steps, reduction_count, z0@, lang, *scheme)
            &&& call_ensures(
                scheme.verify,
                (
                    &*snark,
                    &folding.claims,
                    circuit,
                    &folding.z0_primary,
                    &folding.z0_secondary,
                ),
                (),
            )
        };
    let (w, outcome) = choose|w: Vec<G>, outcome: Result<V, D>|
        {
            &&& is_z0_secondary(w@)
            &&& #[trigger] call_ensures(check, (&*snark, claim, z0_again, &w), outcome)
            &&& answer == verdict_on(outcome)
        };
    assert(w@ =~= folding.z0_secondary@);
}

} // verus!
