//! What holds of the numbering of circuits, of blanks, and of the set of circuits that the running
//! claims are set up for.

use std::sync::Arc;

use vstd::prelude::*;

use crate::config::FoldingConfig;
use crate::frame::{Frame, MultiFrame};
use crate::lang::{Lang, Meta, ZExprPtr};
use crate::step::NIVCStep;

verus! {

/// A configuration gives back the language and the reduction count that it was made of, whichever
/// kind it is, and so does a copy of it.
pub proof fn law_made_config_gives_its_parts_back<C>(
    given: Arc<Lang<C>>,
    reduction_count: usize,
    made: FoldingConfig<C>,
    copy: FoldingConfig<C>,
    lang: &Arc<Lang<C>>,
    count: usize,
)
    requires
        call_ensures(FoldingConfig::<C>::new_ivc, (given, reduction_count), made) || call_ensures(
            FoldingConfig::<C>::new_nivc,
            (given, reduction_count),
            made,
        ),
        call_ensures(FoldingConfig::<C>::clone, (&made,), copy),
        call_ensures(FoldingConfig::<C>::lang, (&copy,), lang),
        call_ensures(FoldingConfig::<C>::reduction_count, (&copy,), count),
    ensures
        **lang == *given,
        count == reduction_count,
        copy == made,
{
}

/// With one circuit for everything, whatever is asked for has index 0, and one circuit is all.
pub proof fn law_ivc_numbers_one_circuit<C>(
    given: Arc<Lang<C>>,
    reduction_count: usize,
    config: FoldingConfig<C>,
    meta: &Meta,
    index: usize,
    total: usize,
)
    requires
        call_ensures(FoldingConfig::<C>::new_ivc, (given, reduction_count), config),
        call_ensures(FoldingConfig::<C>::circuit_index, (&config, meta), index),
        call_ensures(FoldingConfig::<C>::num_circuits, (&config,), total),
    ensures
        index == 0,
        total == 1,
{
}

/// With several circuits, the universal one has index 0, and a coprocessor the index behind its
/// position in the language. There is one circuit more than there are coprocessors.
pub proof fn law_nivc_numbers_circuits_by_position<C>(
    given: Arc<Lang<C>>,
    reduction_count: usize,
    config: FoldingConfig<C>,
    meta: &Meta,
    index: usize,
    coprocessors: usize,
    total: usize,
)
    requires
        call_ensures(FoldingConfig::<C>::new_nivc, (given, reduction_count), config),
        call_ensures(FoldingConfig::<C>::circuit_index, (&config, meta), index),
        call_ensures(Lang::<C>::coprocessor_count, (&*given,), coprocessors),
        call_ensures(FoldingConfig::<C>::num_circuits, (&config,), total),
    ensures
        total == coprocessors + 1,
        index < total,
        *meta is Lurk <==> index == 0,
        forall|z_ptr: &ZExprPtr, found: Option<usize>|
            *meta == Meta::Coprocessor(*z_ptr) && #[trigger] call_ensures(
                Lang::<C>::get_index,
                (&*given, z_ptr),
                found,
            ) ==> found is Some && index == found->0 + 1,
        forall|z_ptr: &ZExprPtr, position: usize|
            index == position + 1 && #[trigger] call_ensures(
                Lang::<C>::get_coprocessor_z_ptr,
                (&*given, position),
                Some(z_ptr),
            ) ==> *meta == Meta::Coprocessor(*z_ptr),
{
    let lang = *given;
    assert forall|z_ptr: &ZExprPtr, found: Option<usize>|
        *meta == Meta::Coprocessor(*z_ptr) && #[trigger] call_ensures(
            Lang::<C>::get_index,
            (&*given, z_ptr),
            found,
        ) implies found is Some && index == found->0 + 1 by {
        assert(lang.z_ptrs()[index - 1] == *z_ptr);
    }
}

/// A multiframe has the index that its configuration gives to its tag, and a step that of its
/// multiframe.
pub proof fn law_steps_have_the_index_of_their_tag<T: Copy, W: Copy, C>(
    step: &NIVCStep<T, W, C>,
    of_step: usize,
    of_multiframe: usize,
    of_tag: usize,
)
    requires
        call_ensures(NIVCStep::<T, W, C>::circuit_index, (step,), of_step),
        call_ensures(MultiFrame::<T, W, C>::circuit_index, (&step.multiframe,), of_multiframe),
        call_ensures(
            FoldingConfig::<C>::circuit_index,
            (&*step.multiframe.folding_config, &step.multiframe.meta),
            of_tag,
        ),
    ensures
        of_step == of_multiframe == of_tag,
        match (*step.multiframe.folding_config, step.multiframe.meta) {
            (FoldingConfig::NIVC(lang, _), Meta::Coprocessor(z_ptr)) => {
                &&& 0 < of_step <= lang@.len()
                &&& lang@[of_step - 1].0 == z_ptr
            },
            _ => of_step == 0,
        },
{
}

/// The circuit that takes over after a step is that of the multiframe that the step is linked to,
/// and the universal one where it is linked to none. The program counter stands for its index.
pub proof fn law_next_circuit_is_that_of_the_link<T: Copy, W: Copy, C, F: From<u64>>(
    step: &NIVCStep<T, W, C>,
    index: usize,
    pc: F,
)
    requires
        call_ensures(NIVCStep::<T, W, C>::next_circuit_index, (step,), index),
        call_ensures(NIVCStep::<T, W, C>::next_pc::<F>, (step,), pc),
    ensures
        step.next is None ==> index == 0,
        step.next matches Some(next) ==> match (*next.folding_config, next.meta) {
            (FoldingConfig::NIVC(lang, _), Meta::Coprocessor(z_ptr)) => {
                &&& 0 < index <= lang@.len()
                &&& lang@[index - 1].0 == z_ptr
            },
            _ => index == 0,
        },
        forall|next: &MultiFrame<T, W, C>, of_next: usize|
            step.next == Some(*next) && #[trigger] call_ensures(
                MultiFrame::<T, W, C>::circuit_index,
                (next,),
                of_next,
            ) ==> of_next == index,
        call_ensures(F::from, (index as u64,), pc),
{
}

/// A blank holds no frames and is linked to nothing. It has the configuration and the tag that it
/// was made for, and room for as many frames as the configuration's reduction count.
pub proof fn law_blank_is_for_its_tag<T: Copy, W: Copy, C>(
    config: Arc<FoldingConfig<C>>,
    meta: Meta,
    blank: NIVCStep<T, W, C>,
    multiframe: MultiFrame<T, W, C>,
    reductions: usize,
)
    requires
        call_ensures(NIVCStep::<T, W, C>::blank, (config, meta), blank),
        call_ensures(MultiFrame::<T, W, C>::blank, (config, meta), multiframe),
        call_ensures(FoldingConfig::<C>::reduction_count, (&*config,), reductions),
    ensures
        blank.next is None,
        blank.multiframe.frames is None,
        blank.multiframe.meta == meta,
        *blank.multiframe.folding_config == *config,
        blank.multiframe.count == reductions,
        multiframe.frames is None,
        multiframe.meta == meta,
        *multiframe.folding_config == *config,
        multiframe.count == reductions,
        match *config {
            FoldingConfig::IVC(_, count) => reductions == count,
            FoldingConfig::NIVC(_, count) => reductions == count,
        },
{
}

/// A new step works on the multiframe that it was made of and is linked to nothing.
pub proof fn law_new_step_is_not_linked<T: Copy, W: Copy, C>(
    multiframe: MultiFrame<T, W, C>,
    step: NIVCStep<T, W, C>,
)
    requires
        call_ensures(NIVCStep::<T, W, C>::new, (multiframe,), step),
    ensures
        step.multiframe == multiframe,
        step.next is None,
{
}

/// What a step says of itself is what its multiframe holds.
pub proof fn law_step_speaks_for_its_multiframe<T: Copy, W: Copy, C>(
    step: &NIVCStep<T, W, C>,
    lang: Arc<Lang<C>>,
    meta: Meta,
    config: Arc<FoldingConfig<C>>,
)
    requires
        call_ensures(NIVCStep::<T, W, C>::lang, (step,), lang),
        call_ensures(NIVCStep::<T, W, C>::meta, (step,), meta),
        call_ensures(NIVCStep::<T, W, C>::folding_config, (step,), config),
    ensures
        meta == step.multiframe.meta,
        *config == *step.multiframe.folding_config,
        match *step.multiframe.folding_config {
            FoldingConfig::IVC(own, _) => *lang == *own,
            FoldingConfig::NIVC(own, _) => *lang == *own,
        },
{
}

/// A public input of inputs and outputs in equal number has twice the arity of a step.
pub proof fn law_public_input_has_twice_the_arity<T: Copy, W: Copy, C>(
    step: &NIVCStep<T, W, C>,
    public_input_size: usize,
    arity: usize,
)
    requires
        call_ensures(NIVCStep::<T, W, C>::arity, (step, public_input_size), arity),
    ensures
        arity + arity <= public_input_size <= arity + arity + 1,
{
}

/// A copy of a frame is the frame.
pub proof fn law_copy_of_a_frame_is_the_frame<T: Copy, W: Copy>(
    frame: &Frame<T, W>,
    copy: Frame<T, W>,
)
    requires
        call_ensures(Frame::<T, W>::clone, (frame,), copy),
    ensures
        copy.input == frame.input,
        copy.output == frame.output,
        copy.witness == frame.witness,
        copy.meta == frame.meta,
{
}

/// A copy of a multiframe holds the same frames for the same circuit, with the same room.
pub proof fn law_copy_of_a_multiframe_holds_the_same<T: Copy, W: Copy, C>(
    multiframe: &MultiFrame<T, W, C>,
    copy: MultiFrame<T, W, C>,
)
    requires
        call_ensures(MultiFrame::<T, W, C>::clone, (multiframe,), copy),
    ensures
        copy.frames is Some <==> multiframe.frames is Some,
        copy.frames is Some ==> copy.frames->0@ == multiframe.frames->0@,
        copy.count == multiframe.count,
        *copy.folding_config == *multiframe.folding_config,
        copy.meta == multiframe.meta,
{
    assert(copy@.frames == multiframe@.frames);
}

/// A copy of a step works on the same and is linked to the same.
pub proof fn law_copy_of_a_step_holds_the_same<T: Copy, W: Copy, C>(
    step: &NIVCStep<T, W, C>,
    copy: NIVCStep<T, W, C>,
)
    requires
        call_ensures(NIVCStep::<T, W, C>::clone, (step,), copy),
    ensures
        copy.multiframe.frames is Some <==> step.multiframe.frames is Some,
        copy.multiframe.frames is Some ==> copy.multiframe.frames->0@
            == step.multiframe.frames->0@,
        copy.multiframe.count == step.multiframe.count,
        *copy.multiframe.folding_config == *step.multiframe.folding_config,
        copy.multiframe.meta == step.multiframe.meta,
        copy.next is Some <==> step.next is Some,
        copy.next is Some ==> {
            let link = copy.next->0;
            let own = step.next->0;
            &&& link.frames is Some <==> own.frames is Some
            &&& link.frames is Some ==> link.frames->0@ == own.frames->0@
            &&& link.count == own.count
            &&& *link.folding_config == *own.folding_config
            &&& link.meta == own.meta
        },
{
}

/// The first circuit of the set that a step stands for is the step itself: the same frames, for
/// the same circuit, with room for as many, and linked to the same.
pub proof fn law_first_circuit_is_the_step_itself<T: Copy, W: Copy, C>(
    step: &NIVCStep<T, W, C>,
    circuit: NIVCStep<T, W, C>,
)
    requires
        call_ensures(NIVCStep::<T, W, C>::primary_circuit, (step, 0), circuit),
    ensures
        circuit.multiframe.frames is Some <==> step.multiframe.frames is Some,
        circuit.multiframe.frames is Some ==> circuit.multiframe.frames->0@
            == step.multiframe.frames->0@,
        circuit.multiframe.count == step.multiframe.count,
        *circuit.multiframe.folding_config == *step.multiframe.folding_config,
        circuit.multiframe.meta == step.multiframe.meta,
        circuit.next is Some <==> step.next is Some,
        circuit.next is Some ==> {
            let link = circuit.next->0;
            let own = step.next->0;
            &&& link.frames is Some <==> own.frames is Some
            &&& link.frames is Some ==> link.frames->0@ == own.frames->0@
            &&& link.count == own.count
            &&& *link.folding_config == *own.folding_config
            &&& link.meta == own.meta
        },
{
}

/// Every other circuit of the set is a blank for the coprocessor at the place before its index,
/// with the step's configuration and room for as many frames as its reduction count.
pub proof fn law_other_circuits_are_blanks<T: Copy, W: Copy, C>(
    step: &NIVCStep<T, W, C>,
    circuit_index: usize,
    circuit: NIVCStep<T, W, C>,
)
    requires
        0 < circuit_index,
        call_ensures(NIVCStep::<T, W, C>::primary_circuit, (step, circuit_index), circuit),
        match *step.multiframe.folding_config {
            FoldingConfig::IVC(lang, _) => circuit_index <= lang@.len(),
            FoldingConfig::NIVC(lang, _) => circuit_index <= lang@.len(),
        },
    ensures
        circuit.next is None,
        circuit.multiframe.frames is None,
        *circuit.multiframe.folding_config == *step.multiframe.folding_config,
        match *step.multiframe.folding_config {
            FoldingConfig::IVC(lang, reductions) => {
                &&& circuit.multiframe.count == reductions
                &&& circuit.multiframe.meta == Meta::Coprocessor(lang@[circuit_index - 1].0)
            },
            FoldingConfig::NIVC(lang, reductions) => {
                &&& circuit.multiframe.count == reductions
                &&& circuit.multiframe.meta == Meta::Coprocessor(lang@[circuit_index - 1].0)
            },
        },
{
}

/// The set of circuits that a universal step of an NIVC configuration stands for is numbered as
/// the configuration numbers circuits: the circuit at an index has that index, and there are as
/// many as the configuration counts.
pub proof fn law_circuit_in_the_set_has_its_index<T: Copy, W: Copy, C>(
    step: &NIVCStep<T, W, C>,
    circuit_index: usize,
    circuit: NIVCStep<T, W, C>,
    index: usize,
    of_step: usize,
    of_config: usize,
)
    requires
        *step.multiframe.folding_config is NIVC,
        step.multiframe.meta is Lurk,
        call_ensures(NIVCStep::<T, W, C>::num_circuits, (step,), of_step),
        call_ensures(
            FoldingConfig::<C>::num_circuits,
            (&*step.multiframe.folding_config,),
            of_config,
        ),
        circuit_index < of_step,
        call_ensures(NIVCStep::<T, W, C>::primary_circuit, (step, circuit_index), circuit),
        call_ensures(NIVCStep::<T, W, C>::circuit_index, (&circuit,), index),
    ensures
        index == circuit_index,
        of_step == of_config,
{
    if circuit_index > 0 {
        let z_ptrs = step@.language().z_ptrs();
        assert(z_ptrs[circuit_index - 1] == z_ptrs[index - 1]);
    }
}

/// The universal circuit that the running claims of an NIVC configuration are set up for, which is
/// the first circuit of the set of its blank universal step, has room for the reduction count.
pub proof fn law_universal_claim_has_room_for_the_reduction_count<T: Copy, W: Copy, C>(
    given: Arc<Lang<C>>,
    reduction_count: usize,
    config: Arc<FoldingConfig<C>>,
    blank: NIVCStep<T, W, C>,
    circuit: NIVCStep<T, W, C>,
)
    requires
        call_ensures(FoldingConfig::<C>::new_nivc, (given, reduction_count), *config),
        call_ensures(NIVCStep::<T, W, C>::blank, (config, Meta::Lurk), blank),
        call_ensures(NIVCStep::<T, W, C>::primary_circuit, (&blank, 0), circuit),
    ensures
        circuit.multiframe.count == reduction_count,
        circuit.multiframe.meta is Lurk,
        circuit.multiframe.frames is None,
        *circuit.multiframe.folding_config == *config,
        circuit.next is None,
{
}

/// A step has as many circuits in its set as there are coprocessors in its language, and one.
pub proof fn law_set_has_one_circuit_more_than_coprocessors<T: Copy, W: Copy, C>(
    step: &NIVCStep<T, W, C>,
    lang: Arc<Lang<C>>,
    coprocessors: usize,
    count: usize,
)
    requires
        call_ensures(NIVCStep::<T, W, C>::lang, (step,), lang),
        call_ensures(Lang::<C>::coprocessor_count, (&*lang,), coprocessors),
        call_ensures(NIVCStep::<T, W, C>::num_circuits, (step,), count),
    ensures
        count == coprocessors + 1,
{
}

} // verus!
