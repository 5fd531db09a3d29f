//! Reduction frames, and the groups of frames that one circuit handles at once.

use std::sync::Arc;

use vstd::prelude::*;

use crate::config::{is_number, FoldingConfig};
use crate::lang::Meta;
use crate::share::share;

verus! {

/// One reduction: the state before it, the state after it, the witness of the transition, and
/// what did the work.
#[derive(Copy, Debug)]
pub struct Frame<T: Copy, W: Copy> {
    pub input: T,
    pub output: T,
    pub witness: W,
    pub meta: Meta,
}

impl<T: Copy, W: Copy> Clone for Frame<T, W> {
    fn clone(&self) -> (frame: Self)
        ensures
            frame == *self,
    {
        *self
    }
}

/// The frames that one circuit handles at once, or a blank of that circuit.
#[derive(Debug)]
pub struct MultiFrame<T: Copy, W: Copy, C> {
    /// The frames; none in a blank.
    pub frames: Option<Vec<Frame<T, W>>>,
    /// How many frames the circuit has room for.
    pub count: usize,
    pub folding_config: Arc<FoldingConfig<C>>,
    /// The tag by which the configuration assigns the circuit.
    pub meta: Meta,
}

/// What a [`MultiFrame`] holds.
pub struct MultiFrameView<T: Copy, W: Copy, C> {
    pub frames: Option<Seq<Frame<T, W>>>,
    pub count: usize,
    pub folding_config: FoldingConfig<C>,
    pub meta: Meta,
}

impl<T: Copy, W: Copy, C> MultiFrameView<T, W, C> {
    /// Whether the configuration has a circuit for this.
    pub open spec fn has_circuit(self) -> bool {
        self.folding_config.has_circuit(self.meta)
    }

    /// The number of the circuit that the configuration assigns.
    pub open spec fn circuit(self) -> int {
        self.folding_config.circuit_of(self.meta)
    }

    /// A multiframe of the given circuit without frames.
    pub open spec fn blank(folding_config: FoldingConfig<C>, meta: Meta) -> Self {
        MultiFrameView {
            frames: None,
            count: folding_config.reductions(),
            folding_config,
            meta,
        }
    }
}

impl<T: Copy, W: Copy, C> View for MultiFrame<T, W, C> {
    type V = MultiFrameView<T, W, C>;

    open spec fn view(&self) -> MultiFrameView<T, W, C> {
        MultiFrameView {
            frames: match self.frames {
                Some(frames) => Some(frames@),
                None => None,
            },
            count: self.count,
            folding_config: *self.folding_config,
            meta: self.meta,
        }
    }
}

/// `s` cut into pieces of `size` elements, the last of which may be shorter.
pub open spec fn chunks<A>(s: Seq<A>, size: nat) -> Seq<Seq<A>>
    decreases s.len(),
{
    if s.len() == 0 || size == 0 {
        seq![]
    } else if s.len() <= size {
        seq![s]
    } else {
        seq![s.take(size as int)] + chunks(s.skip(size as int), size)
    }
}

/// The multiframes for the circuit of `meta`, with room for `count` frames each, that hold
/// `frames`.
pub open spec fn multiframes_of<T: Copy, W: Copy, C>(
    meta: Meta,
    count: usize,
    frames: Seq<Frame<T, W>>,
    folding_config: FoldingConfig<C>,
) -> Seq<MultiFrameView<T, W, C>> {
    chunks(frames, count as nat).map_values(
        |chunk: Seq<Frame<T, W>>|
            MultiFrameView { frames: Some(chunk), count, folding_config, meta },
    )
}

/// What the multiframes hold.
pub open spec fn views<T: Copy, W: Copy, C>(multiframes: Seq<MultiFrame<T, W, C>>) -> Seq<
    MultiFrameView<T, W, C>,
> {
    multiframes.map_values(|multiframe: MultiFrame<T, W, C>| multiframe@)
}

/// The frames from `start` on and before `end`.
fn copy_frames<T: Copy, W: Copy>(frames: &[Frame<T, W>], start: usize, end: usize) -> (copy: Vec<
    Frame<T, W>,
>)
    requires
        start <= end <= frames@.len(),
    ensures
        copy@ == frames@.subrange(start as int, end as int),
{
    let mut copy: Vec<Frame<T, W>> = Vec::new();
    let mut i: usize = start;
    while i < end
        invariant
            start <= i <= end <= frames@.len(),
            copy@ == frames@.subrange(start as int, i as int),
        decreases end - i,
    {
        copy.push(frames[i]);
        i += 1;
    }
    copy
}

impl<T: Copy, W: Copy, C> Clone for MultiFrame<T, W, C> {
    fn clone(&self) -> (multiframe: Self)
        ensures
            multiframe@ == self@,
    {
        let frames = match &self.frames {
            Some(frames) => {
                assert(frames@.subrange(0, frames@.len() as int) =~= frames@);
                Some(copy_frames(frames.as_slice(), 0, frames.len()))
            },
            None => None,
        };
        MultiFrame {
            frames,
            count: self.count,
            folding_config: share(&self.folding_config),
            meta: self.meta,
        }
    }
}

impl<T: Copy, W: Copy, C> MultiFrame<T, W, C> {
    /// A blank of the circuit that `folding_config` assigns to `meta`.
    pub fn blank(folding_config: Arc<FoldingConfig<C>>, meta: Meta) -> (multiframe: Self)
        ensures
            multiframe@ == MultiFrameView::<T, W, C>::blank(*folding_config, meta),
    {
        let count = folding_config.reduction_count();
        MultiFrame { frames: None, count, folding_config, meta }
    }

    /// Groups `frames` into multiframes with room for `count` frames each, all of them for the
    /// circuit of the first frame.
    pub fn from_frames(
        count: usize,
        frames: &[Frame<T, W>],
        folding_config: Arc<FoldingConfig<C>>,
    ) -> (multiframes: Vec<Self>)
        requires
            count > 0,
        ensures
            views(multiframes@) == multiframes_of(
                frames@[0].meta,
                count,
                frames@,
                *folding_config,
            ),
    {
        let mut multiframes: Vec<Self> = Vec::new();
        let mut start: usize = 0;
        let ghost meta = frames@[0].meta;
        assert(frames@.skip(0) =~= frames@);
        while start < frames.len()
            invariant
                count > 0,
                start <= frames@.len(),
                meta == frames@[0].meta,
                views(multiframes@) + multiframes_of(
                    meta,
                    count,
                    frames@.skip(start as int),
                    *folding_config,
                ) =~= multiframes_of(meta, count, frames@, *folding_config),
            decreases frames@.len() - start,
        {
            let left: usize = frames.len() - start;
            let end: usize = if left <= count {
                frames.len()
            } else {
                start + count
            };
            let multiframe = MultiFrame {
                frames: Some(copy_frames(frames, start, end)),
                count,
                folding_config: share(&folding_config),
                meta: frames[0].meta,
            };
            multiframes.push(multiframe);
            proof {
                let rest = frames@.skip(start as int);
                assert(rest.skip(end - start) =~= frames@.skip(end as int));
                assert(rest.take(end - start) =~= frames@.subrange(start as int, end as int));
            }
            start = end;
        }
        multiframes
    }

    /// Return the circuit index assigned to this `MultiFrame`'s inner computation, as labeled by
    /// its `Meta`, and determined by its `FoldingConfig`.
    pub fn circuit_index(&self) -> (index: usize)
        requires
            self@.has_circuit(),
        ensures
            index == self@.circuit(),
            index < self.folding_config.circuit_total(),
            is_number(index as int, *self.folding_config, self.meta),
    {
        self.folding_config.circuit_index(&self.meta)
    }
}

} // verus!
