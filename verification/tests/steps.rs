use std::sync::Arc;

use lurk_supernova::config::FoldingConfig;
use lurk_supernova::frame::{Frame, MultiFrame};
use lurk_supernova::lang::{Lang, Meta, ZExprPtr};
use lurk_supernova::step::NIVCStep;
use lurk_supernova::steps::NIVCSteps;

type Step = NIVCStep<u32, (), &'static str>;
type Steps = NIVCSteps<u32, (), &'static str>;

fn z_ptr(tag: u16) -> ZExprPtr {
    ZExprPtr { tag, digest_low: 0, digest_high: 0 }
}

fn a() -> Meta {
    Meta::Coprocessor(z_ptr(1))
}

fn b() -> Meta {
    Meta::Coprocessor(z_ptr(2))
}

fn nivc() -> Arc<FoldingConfig<&'static str>> {
    let mut lang = Lang::new();
    lang.add_coprocessor(z_ptr(1), "a");
    lang.add_coprocessor(z_ptr(2), "b");
    Arc::new(FoldingConfig::new_nivc(Arc::new(lang), 2))
}

/// Frames that are reduced as `metas` say, and numbered from 0 on.
fn frames(metas: &[Meta]) -> Vec<Frame<u32, ()>> {
    let mut frames = vec![];
    for (i, meta) in metas.iter().enumerate() {
        frames.push(Frame { input: i as u32, output: i as u32 + 1, witness: (), meta: *meta });
    }
    frames
}

/// The circuit and the inputs of the frames of each step.
fn layout(steps: &Steps) -> Vec<(usize, Vec<u32>)> {
    let mut layout = vec![];
    for i in 0..steps.num_steps() {
        let step = steps.index(i);
        let inputs =
            step.multiframe.frames.as_ref().unwrap().iter().map(|frame| frame.input).collect();
        layout.push((step.circuit_index(), inputs));
    }
    layout
}

#[test]
fn multiframes_take_count_frames_each() {
    let frames = frames(&[Meta::Lurk; 5]);
    let multiframes = MultiFrame::from_frames(2, &frames, nivc());
    assert_eq!(multiframes.len(), 3);
    assert_eq!(multiframes[0].frames.as_ref().unwrap().len(), 2);
    assert_eq!(multiframes[1].frames.as_ref().unwrap().len(), 2);
    assert_eq!(multiframes[2].frames.as_ref().unwrap().len(), 1);
    assert_eq!(multiframes[2].frames.as_ref().unwrap()[0].input, 4);
    assert_eq!(multiframes[2].count, 2);
    assert_eq!(multiframes[2].circuit_index(), 0);
}

#[test]
fn multiframes_of_nothing_are_none() {
    let none: Vec<Frame<u32, ()>> = vec![];
    assert_eq!(MultiFrame::from_frames(2, &none, nivc()).len(), 0);
}

#[test]
fn multiframes_are_for_the_circuit_of_the_first_frame() {
    let frames = frames(&[b(), Meta::Lurk, a()]);
    let multiframes = MultiFrame::from_frames(1, &frames, nivc());
    assert_eq!(multiframes.len(), 3);
    for multiframe in &multiframes {
        assert_eq!(multiframe.meta, b());
        assert_eq!(multiframe.circuit_index(), 2);
    }
}

#[test]
fn uniform_frames_fill_the_steps() {
    let steps = Steps::from_frames(2, &frames(&[Meta::Lurk; 5]), nivc());
    assert_eq!(steps.num_steps(), 3);
    assert_eq!(layout(&steps), vec![(0, vec![0, 1]), (0, vec![2, 3]), (0, vec![4])]);
}

#[test]
fn universal_run_is_padded_with_the_next_frame() {
    let steps = Steps::from_frames(2, &frames(&[Meta::Lurk, a(), Meta::Lurk]), nivc());
    assert_eq!(layout(&steps), vec![(0, vec![0, 1]), (1, vec![1]), (0, vec![2])]);
}

#[test]
fn padding_behind_a_full_step_makes_a_step_of_its_own() {
    let steps = Steps::from_frames(2, &frames(&[Meta::Lurk, Meta::Lurk, b(), Meta::Lurk]), nivc());
    assert_eq!(
        layout(&steps),
        vec![(0, vec![0, 1]), (0, vec![2]), (2, vec![2]), (0, vec![3])]
    );
    assert_eq!(steps.index(1).meta(), Meta::Lurk);
}

#[test]
fn coprocessor_takes_one_frame_at_a_time() {
    let steps = Steps::from_frames(3, &frames(&[Meta::Lurk, a(), a(), b(), Meta::Lurk]), nivc());
    assert_eq!(
        layout(&steps),
        vec![(0, vec![0, 1]), (1, vec![1]), (1, vec![2]), (2, vec![3]), (0, vec![4])]
    );
    assert_eq!(steps.index(1).multiframe.count, 1);
    assert_eq!(steps.index(4).multiframe.count, 3);
}

#[test]
fn last_run_is_grouped_by_the_count() {
    let steps = Steps::from_frames(2, &frames(&[Meta::Lurk, a(), a(), a()]), nivc());
    assert_eq!(layout(&steps), vec![(0, vec![0, 1]), (1, vec![1, 2]), (1, vec![3])]);
    assert_eq!(steps.index(1).multiframe.count, 2);
}

#[test]
fn coprocessors_may_come_first() {
    let steps = Steps::from_frames(2, &frames(&[a(), b()]), nivc());
    assert_eq!(layout(&steps), vec![(1, vec![0]), (2, vec![1])]);
}

#[test]
fn every_frame_is_held_in_order() {
    let metas = [Meta::Lurk, Meta::Lurk, Meta::Lurk, a(), a(), Meta::Lurk, b(), Meta::Lurk];
    let steps = Steps::from_frames(2, &frames(&metas), nivc());
    let mut inputs: Vec<u32> = vec![];
    for (_, step) in layout(&steps) {
        inputs.extend(step);
    }
    assert_eq!(inputs, vec![0, 1, 2, 3, 3, 4, 5, 6, 6, 7]);
    inputs.dedup();
    assert_eq!(inputs, vec![0, 1, 2, 3, 4, 5, 6, 7]);
}

#[test]
fn steps_are_linked_but_for_the_final_one() {
    let steps =
        Steps::from_frames(1, &frames(&[Meta::Lurk, a(), b(), Meta::Lurk, Meta::Lurk]), nivc());
    assert_eq!(
        layout(&steps),
        vec![
            (0, vec![0]),
            (0, vec![1]),
            (1, vec![1]),
            (2, vec![2]),
            (0, vec![3]),
            (0, vec![4]),
        ]
    );
    let next: Vec<usize> = (0..6).map(|i| steps.index(i).next_circuit_index()).collect();
    assert_eq!(next, vec![0, 1, 2, 0, 0, 0]);
    let linked: Vec<bool> = (0..6).map(|i| steps.index(i).next.is_some()).collect();
    assert_eq!(linked, vec![true, true, true, true, true, false]);
    // The program counter that a step puts out is the circuit of the step after it.
    for i in 0..5 {
        assert_eq!(next[i], steps.index(i + 1).circuit_index());
    }
    let following = steps.index(2).next.as_ref().unwrap();
    assert_eq!(following.frames.as_ref().unwrap()[0].input, 2);
}

#[test]
fn first_of_two_steps_is_linked_to_the_second() {
    let steps = Steps::from_frames(1, &frames(&[Meta::Lurk, Meta::Lurk]), nivc());
    assert_eq!(steps.num_steps(), 2);
    let next = steps.index(0).next.as_ref().unwrap();
    assert_eq!(next.frames.as_ref().unwrap()[0].input, 1);
    assert!(steps.index(1).next.is_none());
}

#[test]
fn step_before_a_final_coprocessor_leads_to_it() {
    let steps = Steps::from_frames(2, &frames(&[Meta::Lurk, b()]), nivc());
    assert_eq!(layout(&steps), vec![(0, vec![0, 1]), (2, vec![1])]);
    assert_eq!(steps.index(0).next_circuit_index(), 2);
    assert_eq!(steps.index(0).next_pc::<u128>(), 2);
    assert_eq!(steps.index(1).next_circuit_index(), 0);
}

#[test]
fn steps_are_several_unless_all_fits_into_one() {
    assert!(!Steps::makes_several_steps(2, &frames(&[Meta::Lurk, Meta::Lurk])));
    assert!(Steps::makes_several_steps(2, &frames(&[Meta::Lurk; 3])));
    assert!(Steps::makes_several_steps(2, &frames(&[Meta::Lurk, a()])));
    assert!(!Steps::makes_several_steps(2, &frames(&[])));
}

#[test]
fn blank_step_has_no_frames() {
    let config = nivc();
    let step: Step = NIVCStep::blank(config.clone(), a());
    assert!(step.multiframe.frames.is_none());
    assert!(step.next.is_none());
    assert_eq!(step.multiframe.count, 2);
    assert_eq!(step.meta(), a());
    assert_eq!(step.circuit_index(), 1);
    assert!(Arc::ptr_eq(&step.folding_config(), &config));
    assert!(Arc::ptr_eq(&step.lang(), config.lang()));
}

#[test]
fn new_step_is_not_linked() {
    let multiframe = MultiFrame::from_frames(2, &frames(&[b()]), nivc()).remove(0);
    let step = NIVCStep::new(multiframe);
    assert!(step.next.is_none());
    assert_eq!(step.circuit_index(), 2);
    assert_eq!(step.multiframe.frames.as_ref().unwrap().len(), 1);
}

#[test]
fn arity_is_half_the_public_input() {
    let step: Step = NIVCStep::blank(nivc(), Meta::Lurk);
    assert_eq!(step.arity(12), 6);
    assert_eq!(step.arity(13), 6);
}

#[test]
fn circuit_set_matches_the_indices() {
    let step: Step = NIVCStep::blank(nivc(), Meta::Lurk);
    assert_eq!(step.num_circuits(), 3);
    for i in 0..3 {
        assert_eq!(step.primary_circuit(i).circuit_index(), i);
    }
    assert_eq!(step.primary_circuit(0).meta(), Meta::Lurk);
    assert_eq!(step.primary_circuit(1).meta(), a());
    assert_eq!(step.primary_circuit(2).meta(), b());
}

#[test]
fn universal_circuit_of_the_set_is_the_step_itself() {
    let steps = Steps::from_frames(1, &frames(&[Meta::Lurk, a(), Meta::Lurk]), nivc());
    let step = steps.index(0);
    let circuit = step.primary_circuit(0);
    assert_eq!(circuit.multiframe.frames.as_ref().unwrap()[0].input, 0);
    assert_eq!(circuit.next_circuit_index(), step.next_circuit_index());
    assert!(step.primary_circuit(1).multiframe.frames.is_none());
}

#[test]
fn ivc_steps_are_all_for_one_circuit() {
    let lang: Arc<Lang<&'static str>> = Arc::new(Lang::new());
    let config = Arc::new(FoldingConfig::new_ivc(lang, 1));
    let steps = Steps::from_frames(1, &frames(&[Meta::Lurk, a(), Meta::Lurk]), config);
    assert_eq!(layout(&steps), vec![(0, vec![0]), (0, vec![1]), (0, vec![1]), (0, vec![2])]);
}

#[test]
fn program_counters_are_converted() {
    let steps = Steps::from_frames(1, &frames(&[Meta::Lurk, b(), Meta::Lurk]), nivc());
    assert_eq!(steps.index(1).next_pc::<u128>(), 2);
    assert_eq!(steps.index(3).next_pc::<u128>(), 0);
}
