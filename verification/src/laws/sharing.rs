//! What holds of the steps that the frames of an evaluation are shared out to.

use std::sync::Arc;

use vstd::prelude::*;

use crate::config::FoldingConfig;
use crate::frame::{chunks, multiframes_of, views, Frame, MultiFrame, MultiFrameView};
use crate::lang::Meta;
use crate::laws::{contents, law_steps_hold_the_frames_in_order, with_padding};
use crate::share::held;
use crate::step::NIVCStep;
use crate::steps::{
    batched, first_batch, first_batch_count, law_first_run_is_maximal, law_when_steps_are_several,
    linked, run_length, runs, NIVCSteps,
};

verus! {

/// Whether the `i`th piece of `s` begins at `starts[i]`, and the next one where it ends.
spec fn begins<A>(s: Seq<A>, size: nat, starts: Seq<int>, i: int) -> bool {
    let piece = chunks(s, size)[i];
    let end = starts[i] + piece.len();
    &&& 0 <= starts[i] < end <= s.len()
    &&& piece == s.subrange(starts[i], end)
    &&& piece.len() <= size
    &&& piece.len() < size ==> end == s.len()
    &&& i + 1 < starts.len() ==> starts[i + 1] == end < s.len()
    &&& i + 1 == starts.len() ==> end == s.len()
}

/// Where each piece of a sequence begins in it.
proof fn lemma_starts_of_chunks<A>(s: Seq<A>, size: nat) -> (starts: Seq<int>)
    requires
        size > 0,
    ensures
        starts.len() == chunks(s, size).len(),
        s.len() > 0 <==> starts.len() > 0,
        starts.len() > 0 ==> starts[0] == 0,
        forall|i: int| 0 <= i < starts.len() ==> #[trigger] begins(s, size, starts, i),
    decreases s.len(),
{
    if s.len() == 0 {
        seq![]
    } else if s.len() <= size {
        assert(s.subrange(0, s.len() as int) =~= s);
        seq![0int]
    } else {
        let rest = s.skip(size as int);
        let others = lemma_starts_of_chunks(rest, size);
        let starts = seq![0int] + others.map_values(|start: int| start + size);
        assert forall|i: int| 0 <= i < starts.len() implies #[trigger] begins(
            s,
            size,
            starts,
            i,
        ) by {
            let piece = chunks(s, size)[i];
            if i == 0 {
                assert(piece =~= s.subrange(0, size as int));
            } else {
                let start = others[i - 1];
                assert(begins(rest, size, others, i - 1));
                assert(piece == chunks(rest, size)[i - 1]);
                assert(rest.subrange(start, start + piece.len()) =~= s.subrange(
                    start + size,
                    start + size + piece.len(),
                ));
            }
        }
        starts
    }
}

/// The multiframes that frames are grouped into hold them in order, each as many as it has room
/// for, but for the last, which holds what is left. All are for the circuit of the first frame,
/// with the room and the configuration that were asked for. `starts` says where each begins.
pub proof fn law_grouping_keeps_the_frames<T: Copy, W: Copy, C>(
    count: usize,
    frames: &[Frame<T, W>],
    config: Arc<FoldingConfig<C>>,
    multiframes: Vec<MultiFrame<T, W, C>>,
) -> (starts: Seq<int>)
    requires
        count > 0,
        call_ensures(MultiFrame::<T, W, C>::from_frames, (count, frames, config), multiframes),
    ensures
        starts.len() == multiframes@.len(),
        frames@.len() > 0 <==> starts.len() > 0,
        starts.len() > 0 ==> starts[0] == 0,
        forall|i: int|
            0 <= i < multiframes@.len() ==> {
                let multiframe = #[trigger] multiframes@[i];
                let end = starts[i] + multiframe.frames->0@.len();
                &&& multiframe.frames is Some
                &&& 0 <= starts[i] < end <= frames@.len()
                &&& multiframe.frames->0@ == frames@.subrange(starts[i], end)
                &&& multiframe.count == count
                &&& multiframe.meta == frames@[0].meta
                &&& *multiframe.folding_config == *config
                &&& multiframe.frames->0@.len() <= count
                &&& multiframe.frames->0@.len() < count ==> end == frames@.len()
                &&& i + 1 == multiframes@.len() ==> end == frames@.len()
            },
        forall|i: int, k: int|
            0 <= i && k == i + 1 && k < multiframes@.len() ==> #[trigger] starts[k]
                == #[trigger] starts[i] + multiframes@[i].frames->0@.len(),
{
    let starts = lemma_starts_of_chunks(frames@, count as nat);
    let planned = multiframes_of(frames@[0].meta, count, frames@, held(config));
    assert(views(multiframes@).len() == multiframes@.len());
    assert forall|i: int| 0 <= i < multiframes@.len() implies (#[trigger] multiframes@[i])@
        == planned[i] && planned[i].frames == Some(chunks(frames@, count as nat)[i]) by {
        assert(views(multiframes@)[i] == multiframes@[i]@);
    }
    assert forall|i: int| 0 <= i < multiframes@.len() implies begins(
        frames@,
        count as nat,
        starts,
        i,
    ) && (#[trigger] multiframes@[i])@ == planned[i] by {}
    assert forall|i: int, k: int|
        0 <= i && k == i + 1 && k < multiframes@.len() implies #[trigger] starts[k]
        == #[trigger] starts[i] + multiframes@[i].frames->0@.len() by {
        assert(begins(frames@, count as nat, starts, i));
        assert(multiframes@[i]@ == planned[i]);
    }
    starts
}

/// Whether the `i`th of `multiframes`, which begins at `starts[i]`, is as sharing out `frames`
/// makes it.
spec fn fits<T: Copy, W: Copy, C>(
    multiframes: Seq<MultiFrameView<T, W, C>>,
    starts: Seq<int>,
    i: int,
    count: usize,
    frames: Seq<Frame<T, W>>,
    config: FoldingConfig<C>,
) -> bool {
    let multiframe = multiframes[i];
    let held = multiframe.frames->0;
    let end = starts[i] + held.len();
    let padded = multiframe.meta is Lurk && frames[end - 1].meta !is Lurk;
    &&& multiframe.frames is Some
    &&& multiframe.folding_config == config
    &&& 0 <= starts[i] < end <= frames.len()
    &&& held == frames.subrange(starts[i], end)
    &&& forall|j: int|
        starts[i] <= j < end ==> (#[trigger] frames[j]).meta == multiframe.meta || padded && j
            == end - 1
    &&& padded ==> end > 1 && frames[end - 2].meta is Lurk
    &&& multiframe.count == if multiframe.meta is Lurk || (forall|j: int|
        starts[i] <= j < frames.len() ==> (#[trigger] frames[j]).meta == multiframe.meta) {
        count
    } else {
        1
    }
    &&& held.len() <= multiframe.count
    &&& held.len() < multiframe.count ==> padded || end == frames.len()
    &&& i + 1 < multiframes.len() ==> {
        &&& starts[i + 1] == if padded {
            end - 1
        } else {
            end
        }
        &&& multiframe.meta is Lurk && !padded ==> multiframes[i + 1].meta is Lurk
    }
    &&& i + 1 == multiframes.len() ==> !padded && end == frames.len()
}

/// The first run is shared out as it should be.
proof fn lemma_first_run_fits<T: Copy, W: Copy, C>(
    count: usize,
    frames: Seq<Frame<T, W>>,
    config: FoldingConfig<C>,
    starts: Seq<int>,
    all_starts: Seq<int>,
    i: int,
)
    requires
        count > 0,
        frames.len() > 0,
        ({
            let all = batched(count, runs(frames), config);
            let size = first_batch_count(runs(frames), count) as nat;
            let batch = first_batch(runs(frames));
            &&& starts.len() == chunks(batch, size).len()
            &&& all_starts.len() == all.len()
            &&& 0 <= i < starts.len()
            &&& starts.len() <= all_starts.len()
            &&& forall|k: int| 0 <= k < starts.len() ==> all_starts[k] == starts[k]
            &&& run_length(frames) < frames.len() ==> {
                &&& starts.len() < all.len()
                &&& all_starts[starts.len() as int] == run_length(frames)
            }
            &&& run_length(frames) == frames.len() ==> starts.len() == all.len()
            &&& begins(batch, size, starts, i)
        }),
    ensures
        fits(batched(count, runs(frames), config), all_starts, i, count, frames, config),
{
    law_first_run_is_maximal(frames);
    let length = run_length(frames) as int;
    let rest = frames.skip(length);
    law_first_run_is_maximal(rest);
    let all = batched(count, runs(frames), config);
    let size = first_batch_count(runs(frames), count);
    let batch = first_batch(runs(frames));
    let meta = frames[0].meta;
    assert(runs(frames).drop_first() =~= runs(rest));
    assert(runs(frames)[0] == frames.take(length));
    assert(runs(frames).len() > 1 <==> length < frames.len());
    if length < frames.len() {
        assert(runs(frames)[1] == runs(rest)[0]);
        assert(runs(frames)[1][0] == frames[length]);
    }
    let padding = length < frames.len() && meta is Lurk;
    assert(batch =~= frames.take(if padding {
        length + 1
    } else {
        length
    }));
    let piece = chunks(batch, size as nat)[i];
    let end = starts[i] + piece.len();
    assert(all[i] == multiframes_of(meta, size, batch, config)[i]);
    assert(batch.subrange(starts[i], end) =~= frames.subrange(starts[i], end));
    assert forall|j: int| 0 <= j < length implies (#[trigger] frames[j]).meta == meta by {}
    if i + 1 < starts.len() {
        assert(all[i + 1] == multiframes_of(meta, size, batch, config)[i + 1]);
    }
    if length < frames.len() {
        assert(frames[length].meta != meta);
    }
}

/// Frames are shared out as they should be.
proof fn lemma_steps_fit<T: Copy, W: Copy, C>(
    count: usize,
    frames: Seq<Frame<T, W>>,
    config: FoldingConfig<C>,
) -> (starts: Seq<int>)
    requires
        count > 0,
    ensures
        starts.len() == batched(count, runs(frames), config).len(),
        frames.len() > 0 <==> starts.len() > 0,
        starts.len() > 0 ==> starts[0] == 0,
        forall|i: int|
            0 <= i < starts.len() ==> #[trigger] fits(
                batched(count, runs(frames), config),
                starts,
                i,
                count,
                frames,
                config,
            ),
    decreases frames.len(),
{
    if frames.len() == 0 {
        seq![]
    } else {
        law_first_run_is_maximal(frames);
        let length = run_length(frames) as int;
        let rest = frames.skip(length);
        let all = batched(count, runs(frames), config);
        let others = batched(count, runs(rest), config);
        let size = first_batch_count(runs(frames), count) as nat;
        let batch = first_batch(runs(frames));
        assert(runs(frames).drop_first() =~= runs(rest));
        let first_starts = lemma_starts_of_chunks(batch, size);
        let other_starts = lemma_steps_fit(count, rest, config);
        let starts = first_starts + other_starts.map_values(|start: int| start + length);
        let first = first_starts.len() as int;
        assert forall|i: int| 0 <= i < starts.len() implies #[trigger] fits(
            all,
            starts,
            i,
            count,
            frames,
            config,
        ) by {
            if i < first {
                assert(begins(batch, size, first_starts, i));
                if length < frames.len() {
                    assert(other_starts[0] == 0);
                }
                lemma_first_run_fits(count, frames, config, first_starts, starts, i);
            } else {
                let k = i - first;
                assert(fits(others, other_starts, k, count, rest, config));
                assert(all[i] == others[k]);
                let multiframe = others[k];
                let start = other_starts[k];
                let end = start + multiframe.frames->0.len();
                assert(rest.subrange(start, end) =~= frames.subrange(
                    start + length,
                    end + length,
                ));
                assert forall|j: int| starts[i] <= j < frames.len() implies (#[trigger] frames[j])
                    == rest[j - length] by {}
                assert forall|j: int| start <= j < rest.len() implies (#[trigger] rest[j])
                    == frames[j + length] by {}
                assert(rest[end - 1] == frames[end + length - 1]);
                if k + 1 < others.len() {
                    assert(all[i + 1] == others[k + 1]);
                    assert(starts[i + 1] == other_starts[k + 1] + length);
                }
                if end > 1 {
                    assert(rest[end - 2] == frames[end + length - 2]);
                }
            }
        }
        starts
    }
}

/// The steps share out the frames of an evaluation in order and without a gap. `starts` says where
/// each step begins.
///
/// A step holds frames that stand side by side, all of them reduced by what the step is for, with
/// one exception: a run of universal frames is followed by padding, the frame that comes behind
/// it, which the next step begins with once more. A step is filled up, unless padding or the end
/// of the evaluation comes first. There is room for `count` frames in it, or for one if it is for
/// a coprocessor and something else is still to come.
///
/// Every step has the configuration that was asked for and is linked to the one after it, and the
/// final step to none.
pub proof fn law_steps_share_out_the_frames<T: Copy, W: Copy, C>(
    count: usize,
    frames: &[Frame<T, W>],
    config: Arc<FoldingConfig<C>>,
    nivc_steps: NIVCSteps<T, W, C>,
) -> (starts: Seq<int>)
    requires
        count > 0,
        call_ensures(NIVCSteps::<T, W, C>::from_frames, (count, frames, config), nivc_steps),
    ensures
        starts.len() == nivc_steps.steps@.len(),
        frames@.len() > 0 <==> starts.len() > 0,
        starts.len() > 0 ==> starts[0] == 0,
        forall|i: int|
            0 <= i < nivc_steps.steps@.len() ==> {
                let step = #[trigger] nivc_steps.steps@[i];
                let held = step.multiframe.frames->0@;
                let end = starts[i] + held.len();
                let padded = step.multiframe.meta is Lurk && frames@[end - 1].meta !is Lurk;
                &&& step.multiframe.frames is Some
                &&& *step.multiframe.folding_config == *config
                &&& 0 <= starts[i] < end <= frames@.len()
                &&& held == frames@.subrange(starts[i], end)
                &&& forall|j: int|
                    starts[i] <= j < end ==> (#[trigger] frames@[j]).meta == step.multiframe.meta
                        || padded && j == end - 1
                &&& padded ==> end > 1 && frames@[end - 2].meta is Lurk
                &&& step.multiframe.count == if step.multiframe.meta is Lurk || (forall|j: int|
                    starts[i] <= j < frames@.len() ==> (#[trigger] frames@[j]).meta
                        == step.multiframe.meta) {
                    count
                } else {
                    1
                }
                &&& held.len() <= step.multiframe.count
                &&& held.len() < step.multiframe.count ==> padded || end == frames@.len()
                &&& i + 1 == nivc_steps.steps@.len() ==> {
                    &&& !padded
                    &&& end == frames@.len()
                    &&& step.next is None
                }
            },
        forall|i: int, k: int|
            0 <= i && k == i + 1 && k < nivc_steps.steps@.len() ==> {
                let step = #[trigger] nivc_steps.steps@[i];
                let next = #[trigger] nivc_steps.steps@[k];
                let end = starts[i] + step.multiframe.frames->0@.len();
                let padded = step.multiframe.meta is Lurk && frames@[end - 1].meta !is Lurk;
                &&& starts[k] == if padded {
                    end - 1
                } else {
                    end
                }
                &&& step.multiframe.meta is Lurk && !padded ==> next.multiframe.meta is Lurk
                &&& step.next is Some
                &&& step.next->0.frames is Some
                &&& step.next->0.frames->0@ == next.multiframe.frames->0@
                &&& step.next->0.count == next.multiframe.count
                &&& *step.next->0.folding_config == *next.multiframe.folding_config
                &&& step.next->0.meta == next.multiframe.meta
            },
{
    let multiframes = batched(count, runs(frames@), held(config));
    let starts = lemma_steps_fit(count, frames@, held(config));
    assert(nivc_steps@.len() == nivc_steps.steps@.len());
    assert forall|i: int| 0 <= i < nivc_steps.steps@.len() implies {
        &&& fits(multiframes, starts, i, count, frames@, held(config))
        &&& (#[trigger] nivc_steps.steps@[i])@ == linked(multiframes)[i]
    } by {
        assert(nivc_steps@[i] == nivc_steps.steps@[i]@);
    }
    assert forall|i: int, k: int|
        0 <= i && k == i + 1 && k < nivc_steps.steps@.len() implies {
        let step = #[trigger] nivc_steps.steps@[i];
        let next = #[trigger] nivc_steps.steps@[k];
        &&& fits(multiframes, starts, i, count, frames@, held(config))
        &&& step.next is Some && step.next->0@ == next.multiframe@
    } by {
        assert(nivc_steps.steps@[i]@ == linked(multiframes)[i]);
        assert(nivc_steps.steps@[k]@ == linked(multiframes)[k]);
    }
    starts
}

/// `frames` one by one, where the frame that follows a universal one and is not universal itself
/// stands twice.
pub open spec fn with_doubles<T: Copy, W: Copy>(frames: Seq<Frame<T, W>>) -> Seq<
    Seq<Frame<T, W>>,
> {
    Seq::new(
        frames.len(),
        |j: int|
            if j > 0 && frames[j - 1].meta is Lurk && frames[j].meta !is Lurk {
                seq![frames[j], frames[j]]
            } else {
                seq![frames[j]]
            },
    )
}

/// Elements one by one, joined, are the sequence.
proof fn lemma_singles_join<A>(singles: Seq<Seq<A>>, s: Seq<A>)
    requires
        singles.len() == s.len(),
        forall|j: int| 0 <= j < s.len() ==> #[trigger] singles[j] == seq![s[j]],
    ensures
        singles.flatten() == s,
    decreases s.len(),
{
    if s.len() > 0 {
        lemma_singles_join(singles.drop_first(), s.drop_first());
        assert(s =~= seq![s[0]] + s.drop_first());
    }
}

/// The runs joined with padding are the frames with doubles joined.
proof fn lemma_padding_doubles<T: Copy, W: Copy>(frames: Seq<Frame<T, W>>)
    ensures
        with_padding(runs(frames)) == with_doubles(frames).flatten(),
    decreases frames.len(),
{
    if frames.len() > 0 {
        law_first_run_is_maximal(frames);
        let length = run_length(frames) as int;
        let rest = frames.skip(length);
        lemma_padding_doubles(rest);
        law_first_run_is_maximal(rest);
        assert(runs(frames).drop_first() =~= runs(rest));
        let all = with_doubles(frames);
        let head = all.take(length);
        let tail = all.skip(length);
        assert(all =~= head + tail);
        vstd::seq_lib::lemma_flatten_concat(head, tail);
        lemma_singles_join(head, frames.take(length));
        if length < frames.len() {
            assert(runs(frames)[1][0] == frames[length]);
            assert(tail.drop_first() =~= with_doubles(rest).drop_first());
            assert(with_doubles(rest)[0] == seq![frames[length]]);
            if frames[0].meta is Lurk {
                assert(tail[0] == seq![frames[length], frames[length]]);
                assert(first_batch(runs(frames)) =~= frames.take(length) + seq![frames[length]]);
                assert(tail.flatten() =~= seq![frames[length]] + with_doubles(rest).flatten());
            } else {
                assert(tail[0] == seq![frames[length]]);
                assert(tail =~= with_doubles(rest));
            }
        } else {
            assert(tail =~= with_doubles(rest));
        }
    }
}

/// The frames of all the steps, joined in order, are the frames of the evaluation in order, where
/// a frame that follows a universal one and is not universal itself stands twice in a row, and
/// every other frame once.
pub proof fn law_joined_steps_are_the_frames_with_doubles<T: Copy, W: Copy, C>(
    count: usize,
    frames: &[Frame<T, W>],
    config: Arc<FoldingConfig<C>>,
    nivc_steps: NIVCSteps<T, W, C>,
)
    requires
        count > 0,
        call_ensures(NIVCSteps::<T, W, C>::from_frames, (count, frames, config), nivc_steps),
    ensures
        nivc_steps.steps@.map_values(
            |step: NIVCStep<T, W, C>| step.multiframe.frames->0@,
        ).flatten() == with_doubles(frames@).flatten(),
{
    let multiframes = batched(count, runs(frames@), held(config));
    let joined = nivc_steps.steps@.map_values(
        |step: NIVCStep<T, W, C>| step.multiframe.frames->0@,
    );
    let starts = law_steps_share_out_the_frames(count, frames, config, nivc_steps);
    assert(nivc_steps@.len() == nivc_steps.steps@.len());
    assert forall|i: int| 0 <= i < joined.len() implies joined[i] == contents(multiframes)[i] by {
        assert(nivc_steps@[i] == nivc_steps.steps@[i]@);
        assert(nivc_steps.steps@[i].multiframe.frames is Some);
    }
    assert(joined =~= contents(multiframes));
    law_steps_hold_the_frames_in_order(count, runs(frames@), held(config));
    lemma_padding_doubles(frames@);
}

/// The program counter that a step puts out leads to the step after it: it stands for the index of
/// that step's circuit. The final step leads to the universal circuit.
pub proof fn law_each_step_leads_to_the_next<T: Copy, W: Copy, C>(
    count: usize,
    frames: &[Frame<T, W>],
    config: Arc<FoldingConfig<C>>,
    nivc_steps: NIVCSteps<T, W, C>,
    i: int,
    next_index: usize,
)
    requires
        count > 0,
        call_ensures(NIVCSteps::<T, W, C>::from_frames, (count, frames, config), nivc_steps),
        0 <= i < nivc_steps.steps@.len(),
        call_ensures(
            NIVCStep::<T, W, C>::next_circuit_index,
            (&nivc_steps.steps@[i],),
            next_index,
        ),
    ensures
        i + 1 == nivc_steps.steps@.len() ==> next_index == 0,
        i + 1 < nivc_steps.steps@.len() ==> forall|index: usize| #[trigger]
            call_ensures(
                NIVCStep::<T, W, C>::circuit_index,
                (&nivc_steps.steps@[i + 1],),
                index,
            ) ==> index == next_index,
{
    let starts = law_steps_share_out_the_frames(count, frames, config, nivc_steps);
    let step = nivc_steps.steps@[i];
    if i + 1 < nivc_steps.steps@.len() {
        let next = nivc_steps.steps@[i + 1];
        assert(step.next->0.meta == next.multiframe.meta);
    }
}

/// A universal step has room for as many frames as the universal circuit that the running claims
/// are set up for, if the frames are shared out by the configuration's reduction count.
pub proof fn law_universal_steps_fit_their_claim<T: Copy, W: Copy, C>(
    frames: &[Frame<T, W>],
    config: Arc<FoldingConfig<C>>,
    count: usize,
    nivc_steps: NIVCSteps<T, W, C>,
    i: int,
    blank: NIVCStep<T, W, C>,
    circuit: NIVCStep<T, W, C>,
)
    requires
        count > 0,
        call_ensures(FoldingConfig::<C>::reduction_count, (&*config,), count),
        call_ensures(NIVCSteps::<T, W, C>::from_frames, (count, frames, config), nivc_steps),
        0 <= i < nivc_steps.steps@.len(),
        nivc_steps.steps@[i].multiframe.meta is Lurk,
        call_ensures(NIVCStep::<T, W, C>::blank, (config, Meta::Lurk), blank),
        call_ensures(NIVCStep::<T, W, C>::primary_circuit, (&blank, 0), circuit),
    ensures
        nivc_steps.steps@[i].multiframe.count == circuit.multiframe.count,
        *nivc_steps.steps@[i].multiframe.folding_config == *circuit.multiframe.folding_config,
        nivc_steps.steps@[i].multiframe.meta == circuit.multiframe.meta,
        nivc_steps.steps@[i].multiframe.frames->0@.len() <= circuit.multiframe.count,
{
    let starts = law_steps_share_out_the_frames(count, frames, config, nivc_steps);
    let step = nivc_steps.steps@[i];
}

/// The steps are counted and looked at as they stand.
pub proof fn law_steps_are_looked_at_in_order<T: Copy, W: Copy, C>(
    nivc_steps: &NIVCSteps<T, W, C>,
    count: usize,
    idx: usize,
    step: &NIVCStep<T, W, C>,
)
    requires
        call_ensures(NIVCSteps::<T, W, C>::num_steps, (nivc_steps,), count),
        call_ensures(NIVCSteps::<T, W, C>::index, (nivc_steps, idx), step),
    ensures
        count == nivc_steps.steps@.len(),
        idx < count ==> *step == nivc_steps.steps@[idx as int],
{
}

/// Frames make several steps if they are more than fit into one, or if two of them are reduced
/// differently, and in no other case. There are several steps then.
pub proof fn law_frames_that_differ_or_are_many_make_several_steps<T: Copy, W: Copy, C>(
    count: usize,
    frames: &[Frame<T, W>],
    config: Arc<FoldingConfig<C>>,
    several: bool,
    nivc_steps: NIVCSteps<T, W, C>,
)
    requires
        count > 0,
        frames@.len() > 0,
        call_ensures(NIVCSteps::<T, W, C>::makes_several_steps, (count, frames), several),
        call_ensures(NIVCSteps::<T, W, C>::from_frames, (count, frames, config), nivc_steps),
    ensures
        several <==> frames@.len() > count || exists|i: int, j: int|
            0 <= i < j < frames@.len() && (#[trigger] frames@[i]).meta != (
            #[trigger] frames@[j]).meta,
        several <==> nivc_steps.steps@.len() > 1,
{
    law_when_steps_are_several(count, frames@, held(config));
    assert(nivc_steps@.len() == nivc_steps.steps@.len());
    if several && frames@.len() <= count {
        let i = choose|i: int|
            0 <= i < frames@.len() && #[trigger] frames@[i].meta != frames@[0].meta;
        assert(frames@[0].meta != frames@[i].meta);
    }
    if exists|i: int, j: int|
        0 <= i < j < frames@.len() && (#[trigger] frames@[i]).meta != (#[trigger] frames@[j]).meta {
        let (i, j) = choose|i: int, j: int|
            0 <= i < j < frames@.len() && (#[trigger] frames@[i]).meta != (
            #[trigger] frames@[j]).meta;
        assert(frames@[i].meta != frames@[0].meta || frames@[j].meta != frames@[0].meta);
    }
}

} // verus!
