//! All steps of a folding: how the frames of an evaluation are shared out to the circuits.

use std::sync::Arc;

use vstd::prelude::*;

use crate::config::FoldingConfig;
use crate::frame::{chunks, multiframes_of, views, Frame, MultiFrame, MultiFrameView};
use crate::lang::Meta;
use crate::share::{held, share};
use crate::step::{NIVCStep, NIVCStepView};

verus! {

/// How many of the first frames are reduced by the same.
pub open spec fn run_length<T: Copy, W: Copy>(frames: Seq<Frame<T, W>>) -> nat
    decreases frames.len(),
{
    if frames.len() == 0 {
        0
    } else if frames.len() == 1 || frames[1].meta != frames[0].meta {
        1
    } else {
        1 + run_length(frames.skip(1))
    }
}

/// `frames` cut wherever what reduces them changes, and nowhere else.
pub open spec fn runs<T: Copy, W: Copy>(frames: Seq<Frame<T, W>>) -> Seq<Seq<Frame<T, W>>>
    decreases frames.len(),
{
    if frames.len() == 0 {
        seq![]
    } else {
        let length = run_length(frames) as int;
        proof {
            law_first_run_is_maximal(frames);
        }
        seq![frames.take(length)] + runs(frames.skip(length))
    }
}

/// The frames that are handed to the circuit of the first of `runs`. A universal circuit that is
/// followed by another one gets the first frame of that one too, as padding.
pub open spec fn first_batch<T: Copy, W: Copy>(runs: Seq<Seq<Frame<T, W>>>) -> Seq<Frame<T, W>> {
    if runs.len() > 1 && runs[0][0].meta is Lurk {
        runs[0].push(runs[1][0])
    } else {
        runs[0]
    }
}

/// How many frames of the first of `runs` go into one step. A coprocessor that is followed by
/// another circuit takes one frame at a time.
pub open spec fn first_batch_count<T: Copy, W: Copy>(
    runs: Seq<Seq<Frame<T, W>>>,
    count: usize,
) -> usize {
    if runs.len() > 1 && runs[0][0].meta !is Lurk {
        1
    } else {
        count
    }
}

/// What the steps for `runs` work on, in order.
pub open spec fn batched<T: Copy, W: Copy, C>(
    count: usize,
    runs: Seq<Seq<Frame<T, W>>>,
    folding_config: FoldingConfig<C>,
) -> Seq<MultiFrameView<T, W, C>>
    decreases runs.len(),
{
    if runs.len() == 0 {
        seq![]
    } else {
        multiframes_of(
            runs[0][0].meta,
            first_batch_count(runs, count),
            first_batch(runs),
            folding_config,
        ) + batched(count, runs.drop_first(), folding_config)
    }
}

/// Steps on `multiframes`, each linked to the one that follows it. The final one is linked to
/// none.
pub open spec fn linked<T: Copy, W: Copy, C>(multiframes: Seq<MultiFrameView<T, W, C>>) -> Seq<
    NIVCStepView<T, W, C>,
> {
    Seq::new(
        multiframes.len(),
        |i: int|
            NIVCStepView {
                multiframe: multiframes[i],
                next: if i + 1 < multiframes.len() {
                    Some(multiframes[i + 1])
                } else {
                    None
                },
            },
    )
}

/// Whether `frames` make more than one step: they do not fit into one, or are not all reduced by
/// the same.
pub open spec fn make_several_steps<T: Copy, W: Copy>(
    count: usize,
    frames: Seq<Frame<T, W>>,
) -> bool {
    frames.len() > count || exists|i: int|
        0 <= i < frames.len() && #[trigger] frames[i].meta != frames[0].meta
}

/// All steps of an NIVC computation
pub struct NIVCSteps<T: Copy, W: Copy, C> {
    pub steps: Vec<NIVCStep<T, W, C>>,
}

impl<T: Copy, W: Copy, C> View for NIVCSteps<T, W, C> {
    type V = Seq<NIVCStepView<T, W, C>>;

    open spec fn view(&self) -> Seq<NIVCStepView<T, W, C>> {
        self.steps@.map_values(|step: NIVCStep<T, W, C>| step@)
    }
}

/// The first run is as long as it can be.
pub proof fn law_first_run_is_maximal<T: Copy, W: Copy>(frames: Seq<Frame<T, W>>)
    ensures
        run_length(frames) <= frames.len(),
        frames.len() > 0 ==> run_length(frames) > 0,
        forall|i: int|
            0 <= i < run_length(frames) ==> #[trigger] frames[i].meta == frames[0].meta,
        0 < run_length(frames) < frames.len() ==> frames[run_length(frames) as int].meta
            != frames[0].meta,
    decreases frames.len(),
{
    if frames.len() > 1 && frames[1].meta == frames[0].meta {
        let rest = frames.skip(1);
        law_first_run_is_maximal(rest);
        assert forall|i: int| 0 <= i < run_length(frames) implies #[trigger] frames[i].meta
            == frames[0].meta by {
            if i > 0 {
                assert(frames[i] == rest[i - 1]);
            }
        }
    }
}

/// The first run is followed by a run that begins where it ends.
proof fn lemma_first_run<T: Copy, W: Copy>(frames: Seq<Frame<T, W>>, length: int)
    requires
        0 < length <= frames.len(),
        forall|i: int| 0 <= i < length ==> #[trigger] frames[i].meta == frames[0].meta,
        length == frames.len() || frames[length].meta != frames[0].meta,
    ensures
        runs(frames).len() >= 1,
        runs(frames)[0] == frames.take(length),
        runs(frames).drop_first() == runs(frames.skip(length)),
        length == frames.len() <==> runs(frames).len() == 1,
        length < frames.len() ==> runs(frames)[1][0] == frames[length],
{
    law_first_run_is_maximal(frames);
    assert(run_length(frames) == length);
    law_first_run_is_maximal(frames.skip(length));
}

/// Every run makes at least one step.
proof fn lemma_batch_len<T: Copy, W: Copy, C>(
    count: usize,
    runs: Seq<Seq<Frame<T, W>>>,
    folding_config: FoldingConfig<C>,
)
    requires
        count > 0,
        forall|i: int| 0 <= i < runs.len() ==> #[trigger] runs[i].len() > 0,
    ensures
        batched(count, runs, folding_config).len() >= runs.len(),
    decreases runs.len(),
{
    if runs.len() > 0 {
        lemma_batch_len(count, runs.drop_first(), folding_config);
    }
}

/// No run is empty.
proof fn lemma_runs_not_empty<T: Copy, W: Copy>(frames: Seq<Frame<T, W>>)
    ensures
        forall|i: int| 0 <= i < runs(frames).len() ==> #[trigger] runs(frames)[i].len() > 0,
    decreases frames.len(),
{
    if frames.len() > 0 {
        law_first_run_is_maximal(frames);
        let rest = frames.skip(run_length(frames) as int);
        lemma_runs_not_empty(rest);
        assert forall|i: int| 0 <= i < runs(frames).len() implies #[trigger] runs(
            frames,
        )[i].len() > 0 by {
            if i > 0 {
                assert(runs(frames)[i] == runs(rest)[i - 1]);
            }
        }
    }
}

/// Frames make one step if they fit into one and are all reduced by the same, and more than one
/// otherwise.
pub proof fn law_when_steps_are_several<T: Copy, W: Copy, C>(
    count: usize,
    frames: Seq<Frame<T, W>>,
    folding_config: FoldingConfig<C>,
)
    requires
        count > 0,
        frames.len() > 0,
    ensures
        batched(count, runs(frames), folding_config).len() >= 1,
        make_several_steps(count, frames) <==> batched(
            count,
            runs(frames),
            folding_config,
        ).len() > 1,
{
    law_first_run_is_maximal(frames);
    lemma_runs_not_empty(frames);
    let length = run_length(frames) as int;
    lemma_first_run(frames, length);
    lemma_batch_len(count, runs(frames), folding_config);
    if length == frames.len() {
        assert(runs(frames)[0] =~= frames);
        assert(batched(count, runs(frames).drop_first(), folding_config) =~= seq![]);
        if frames.len() > count {
            assert(chunks(frames.skip(count as int), count as nat).len() > 0);
        }
    }
}

/// Every step is for a circuit that some frame asks for, and the first step for the one that the
/// first frame asks for.
pub proof fn law_steps_are_asked_for<T: Copy, W: Copy, C>(
    count: usize,
    frames: Seq<Frame<T, W>>,
    folding_config: FoldingConfig<C>,
)
    requires
        count > 0,
    ensures
        forall|i: int|
            #![trigger batched(count, runs(frames), folding_config)[i]]
            0 <= i < batched(count, runs(frames), folding_config).len() ==> {
                let multiframe = batched(count, runs(frames), folding_config)[i];
                &&& multiframe.folding_config == folding_config
                &&& exists|j: int|
                    0 <= j < frames.len() && multiframe.meta == (#[trigger] frames[j]).meta
            },
        frames.len() > 0 ==> batched(count, runs(frames), folding_config)[0].meta
            == frames[0].meta,
    decreases frames.len(),
{
    if frames.len() > 0 {
        law_first_run_is_maximal(frames);
        let length = run_length(frames) as int;
        lemma_first_run(frames, length);
        let rest = frames.skip(length);
        law_steps_are_asked_for(count, rest, folding_config);
        let all = batched(count, runs(frames), folding_config);
        let others = batched(count, runs(rest), folding_config);
        let first = all.len() - others.len();
        assert forall|i: int| 0 <= i < all.len() implies {
            &&& (#[trigger] all[i]).folding_config == folding_config
            &&& exists|j: int|
                0 <= j < frames.len() && all[i].meta == (#[trigger] frames[j]).meta
        } by {
            if i < first {
                assert(all[i].meta == frames[0].meta);
            } else {
                let j = choose|j: int|
                    0 <= j < rest.len() && others[i - first].meta == (#[trigger] rest[j]).meta;
                assert(rest[j] == frames[j + length]);
            }
        }
    }
}

impl<T: Copy, W: Copy, C> NIVCSteps<T, W, C> {
    /// Number of NIVC steps contained.
    pub fn num_steps(&self) -> (count: usize)
        ensures
            count == self@.len(),
    {
        self.steps.len()
    }

    /// The step at `idx`.
    pub fn index(&self, idx: usize) -> (step: &NIVCStep<T, W, C>)
        requires
            idx < self@.len(),
        ensures
            *step == self.steps@[idx as int],
            step@ == self@[idx as int],
    {
        &self.steps[idx]
    }

    /// What the steps for `frames` work on, in order.
    fn batch(
        count: usize,
        frames: &[Frame<T, W>],
        folding_config: Arc<FoldingConfig<C>>,
    ) -> (multiframes: Vec<MultiFrame<T, W, C>>)
        requires
            count > 0,
            frames@.len() > 0,
        ensures
            views(multiframes@) == batched(count, runs(frames@), *folding_config),
    {
        let mut multiframes: Vec<MultiFrame<T, W, C>> = Vec::new();
        let mut last_meta = frames[0].meta;
        let mut consecutive_frames: Vec<Frame<T, W>> = Vec::new();
        let ghost mut start: int = 0;
        assert(frames@.skip(0) =~= frames@);
        let mut i: usize = 0;
        while i < frames.len()
            invariant
                count > 0,
                0 <= start <= i <= frames@.len(),
                start < frames@.len(),
                i > 0 ==> start < i,
                last_meta == frames@[start].meta,
                consecutive_frames@ == frames@.subrange(start, i as int),
                forall|j: int| start <= j < i ==> #[trigger] frames@[j].meta == last_meta,
                views(multiframes@) + batched(count, runs(frames@.skip(start)), *folding_config)
                    =~= batched(count, runs(frames@), *folding_config),
            decreases frames@.len() - i,
        {
            let frame = frames[i];
            if frame.meta == last_meta {
                consecutive_frames.push(frame);
            } else {
                proof {
                    let rest = frames@.skip(start);
                    lemma_first_run(rest, i - start);
                    assert(rest.take(i - start) =~= consecutive_frames@);
                    assert(rest.skip(i - start) =~= frames@.skip(i as int));
                }
                if last_meta == Meta::Lurk {
                    consecutive_frames.push(frame);
                }
                let mut new_multiframes = MultiFrame::from_frames(
                    if last_meta == Meta::Lurk {
                        count
                    } else {
                        1
                    },
                    consecutive_frames.as_slice(),
                    share(&folding_config),
                );
                multiframes.append(&mut new_multiframes);
                proof {
                    start = i as int;
                }
                consecutive_frames.truncate(0);
                consecutive_frames.push(frame);
                last_meta = frame.meta;
            }
            i += 1;
        }
        proof {
            let rest = frames@.skip(start);
            lemma_first_run(rest, i - start);
            assert(rest.take(i - start) =~= consecutive_frames@);
            assert(batched(count, runs(rest).drop_first(), *folding_config) =~= seq![]);
        }
        let mut new_multiframes = MultiFrame::from_frames(
            count,
            consecutive_frames.as_slice(),
            folding_config,
        );
        multiframes.append(&mut new_multiframes);
        multiframes
    }

    /// Separate frames according to NIVC circuit requirements.
    ///
    /// Each step but the final one is linked to the step after it. There has to be more than one
    /// step.
    pub fn from_frames(
        count: usize,
        frames: &[Frame<T, W>],
        folding_config: Arc<FoldingConfig<C>>,
    ) -> (nivc_steps: Self)
        requires
            count > 0,
            frames@.len() > 0,
            make_several_steps(count, frames@),
        ensures
            nivc_steps@ == linked(batched(count, runs(frames@), *folding_config)),
    {
        proof {
            law_when_steps_are_several(count, frames@, held(folding_config));
        }
        let multiframes = Self::batch(count, frames, folding_config);
        let ghost all = multiframes@;
        let mut steps: Vec<NIVCStep<T, W, C>> = Vec::new();
        for multiframe in iter: multiframes
            invariant
                iter.seq() == all,
                steps@.len() == iter.index(),
                forall|i: int|
                    0 <= i < steps@.len() ==> (#[trigger] steps@[i]).multiframe == all[i]
                        && steps@[i].next is None,
        {
            steps.push(NIVCStep::new(multiframe));
        }
        let last: usize = steps.len() - 1;
        let mut i: usize = 0;
        while i < last
            invariant
                i <= last,
                steps@.len() == last + 1,
                steps@.len() == all.len(),
                forall|j: int|
                    0 <= j < steps@.len() ==> (#[trigger] steps@[j])@ == (NIVCStepView {
                        multiframe: all[j]@,
                        next: if j < i {
                            Some(all[j + 1]@)
                        } else {
                            None
                        },
                    }),
            decreases last - i,
        {
            let next = steps[i + 1].multiframe.clone();
            steps[i].next = Some(next);
            i += 1;
        }
        NIVCSteps { steps }
    }

    /// Whether `frames` make more than one step.
    pub fn makes_several_steps(count: usize, frames: &[Frame<T, W>]) -> (several: bool)
        ensures
            several == make_several_steps(count, frames@),
    {
        if frames.len() > count {
            return true;
        }
        let mut i: usize = 0;
        while i < frames.len()
            invariant
                i <= frames@.len(),
                forall|j: int| 0 <= j < i ==> #[trigger] frames@[j].meta == frames@[0].meta,
            decreases frames@.len() - i,
        {
            if frames[i].meta != frames[0].meta {
                return true;
            }
            i += 1;
        }
        false
    }
}

} // verus!
