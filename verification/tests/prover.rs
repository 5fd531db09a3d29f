use std::sync::Arc;

use lurk_supernova::config::FoldingConfig;
use lurk_supernova::folding::{verdict, FoldingScheme, Proof};
use lurk_supernova::frame::Frame;
use lurk_supernova::lang::{Lang, Meta, ZExprPtr};
use lurk_supernova::prover::SuperNovaProver;
use lurk_supernova::step::NIVCStep;
use lurk_supernova::steps::NIVCSteps;

type Step = NIVCStep<u32, (), &'static str>;

/// A scheme whose proofs are records of what was done.
fn setup(blank: &Step) -> Vec<usize> {
    (0..blank.num_circuits()).map(|i| blank.primary_circuit(i).circuit_index()).collect()
}

fn base(
    claims: &Vec<usize>,
    claim: usize,
    step: &Step,
    pc: u128,
    num_circuits: usize,
    z0: &Vec<u128>,
    z0_secondary: &Vec<u128>,
) -> Vec<String> {
    vec![format!(
        "base {} {} {pc} {num_circuits} {z0:?} {z0_secondary:?}",
        claims[claim],
        first_input(step)
    )]
}

fn prove_step(
    mut record: Vec<String>,
    claims: &Vec<usize>,
    claim: usize,
    step: &Step,
    z0: &Vec<u128>,
    z0_secondary: &Vec<u128>,
) -> Vec<String> {
    record.push(format!(
        "prove {} {} {z0:?} {z0_secondary:?}",
        claims[claim],
        first_input(step)
    ));
    record
}

fn verify(
    record: &Vec<String>,
    claims: &Vec<usize>,
    claim: usize,
    z0: &Vec<u128>,
    z0_secondary: &Vec<u128>,
) {
    assert_eq!(z0_secondary, &vec![0]);
    assert!(!z0.is_empty());
    assert!(record.last().unwrap().starts_with(&format!("prove {} ", claims[claim])));
}

fn first_input(step: &Step) -> u32 {
    step.multiframe.frames.as_ref().unwrap()[0].input
}

fn a() -> ZExprPtr {
    ZExprPtr { tag: 3, digest_low: 1, digest_high: 1 }
}

fn lang() -> Arc<Lang<&'static str>> {
    let mut lang = Lang::new();
    lang.add_coprocessor(a(), "a");
    Arc::new(lang)
}

fn frame(i: u32, meta: Meta) -> Frame<u32, ()> {
    Frame { input: i, output: i + 1, witness: (), meta }
}

fn some_frames() -> Vec<Frame<u32, ()>> {
    vec![frame(5, Meta::Lurk), frame(6, Meta::Coprocessor(a())), frame(7, Meta::Lurk)]
}

fn encode(state: &u32) -> Result<Vec<u128>, &'static str> {
    Ok(vec![*state as u128, 100])
}

fn prover(reduction_count: usize) -> SuperNovaProver<&'static str> {
    SuperNovaProver::new(reduction_count, Lang::new())
}

fn record(proof: &Proof<Vec<String>>) -> &Vec<String> {
    match proof {
        Proof::Recursive(record) => record,
        Proof::Compressed => panic!("a recursive proof is made"),
    }
}

#[test]
fn prover_keeps_its_parts() {
    let mut lang = Lang::new();
    lang.add_coprocessor(a(), "a");
    let prover = SuperNovaProver::new(4, lang);
    assert_eq!(prover.reduction_count(), 4);
    assert_eq!(prover.lang().coprocessor_count(), 1);
}

#[test]
fn folds_each_step_with_its_own_claim() {
    let scheme = FoldingScheme {
        setup_running_claims: setup,
        iter_base_step: base,
        prove_step,
        verify,
    };
    let config = Arc::new(FoldingConfig::new_nivc(lang(), 1));
    let steps = NIVCSteps::from_frames(1, &some_frames(), config);
    let proof: Result<Proof<Vec<String>>, ()> =
        Proof::prove_recursively(&steps, 1, vec![9], lang(), &scheme);
    assert_eq!(
        *record(&proof.unwrap()),
        vec![
            "base 0 5 0 2 [9] [0]".to_string(),
            "prove 0 5 [9] [0]".to_string(),
            "prove 0 6 [9] [0]".to_string(),
            "prove 1 6 [9] [0]".to_string(),
            "prove 0 7 [9] [0]".to_string(),
        ]
    );
}

#[test]
fn verifies_after_every_step() {
    let calls = std::cell::RefCell::new(vec![]);
    let scheme = FoldingScheme {
        setup_running_claims: |blank: &Step| {
            calls.borrow_mut().push("setup");
            setup(blank)
        },
        iter_base_step: |_: &Vec<usize>,
                         _: usize,
                         _: &Step,
                         _: u128,
                         _: usize,
                         _: &Vec<u128>,
                         _: &Vec<u128>| {
            calls.borrow_mut().push("base");
            0u32
        },
        prove_step: |snark: u32,
                     _: &Vec<usize>,
                     _: usize,
                     _: &Step,
                     _: &Vec<u128>,
                     _: &Vec<u128>| {
            calls.borrow_mut().push("prove");
            snark + 1
        },
        verify: |_: &u32, _: &Vec<usize>, _: usize, _: &Vec<u128>, _: &Vec<u128>| {
            calls.borrow_mut().push("verify");
        },
    };
    let frames = [frame(1, Meta::Lurk), frame(2, Meta::Lurk)];
    let (proof, _, _, num_steps) = prover(1).prove(&frames, lang(), &encode, &scheme).unwrap();
    assert_eq!(num_steps, 2);
    assert!(matches!(proof, Proof::Recursive(snark) if *snark == 2));
    assert_eq!(
        *calls.borrow(),
        vec!["setup", "base", "prove", "verify", "prove", "verify"]
    );
}

#[test]
fn proves_from_the_first_state_to_the_last() {
    let scheme = FoldingScheme {
        setup_running_claims: setup,
        iter_base_step: base,
        prove_step,
        verify,
    };
    let prover = prover(2);
    assert!(prover.can_prove(&some_frames(), &lang()));
    let (proof, z0, zi, num_steps) =
        prover.prove(&some_frames(), lang(), &encode, &scheme).unwrap();
    assert_eq!(z0, vec![5, 100]);
    assert_eq!(zi, vec![8, 100]);
    assert_eq!(num_steps, 3);
    assert_eq!(record(&proof)[0], "base 0 5 0 2 [5, 100] [0]");
    assert_eq!(record(&proof).len(), 4);
}

#[test]
fn hands_back_the_error_of_the_first_state() {
    let scheme = FoldingScheme {
        setup_running_claims: setup,
        iter_base_step: base,
        prove_step,
        verify,
    };
    let encode = |state: &u32| -> Result<Vec<u128>, String> { Err(format!("no {state}")) };
    let result = prover(2).prove(&some_frames(), lang(), &encode, &scheme);
    assert_eq!(result.err(), Some("no 5".to_string()));
}

#[test]
fn hands_back_the_error_of_the_last_state() {
    let scheme = FoldingScheme {
        setup_running_claims: setup,
        iter_base_step: base,
        prove_step,
        verify,
    };
    let encode = |state: &u32| -> Result<Vec<u128>, String> {
        if *state == 5 { Ok(vec![1]) } else { Err(format!("no {state}")) }
    };
    let result = prover(2).prove(&some_frames(), lang(), &encode, &scheme);
    assert_eq!(result.err(), Some("no 8".to_string()));
}

#[test]
fn evaluates_and_proves() {
    let scheme = FoldingScheme {
        setup_running_claims: setup,
        iter_base_step: base,
        prove_step,
        verify,
    };
    let evaluate = |expr: u32, env: u32, limit: usize, lang: Arc<Lang<&'static str>>| {
        assert_eq!(lang.coprocessor_count(), 1);
        let mut frames = vec![];
        for i in 0..limit as u32 {
            frames.push(frame(expr + env + i, Meta::Lurk));
        }
        Ok(frames)
    };
    let (proof, z0, zi, num_steps) = prover(2)
        .evaluate_and_prove(10, 20, 5, lang(), &evaluate, &encode, &scheme)
        .unwrap();
    assert_eq!(num_steps, 3);
    assert_eq!(z0, vec![30, 100]);
    assert_eq!(zi, vec![35, 100]);
    assert_eq!(record(&proof).len(), 4);
}

#[test]
fn hands_back_the_error_of_the_evaluation() {
    let scheme = FoldingScheme {
        setup_running_claims: setup,
        iter_base_step: base,
        prove_step,
        verify,
    };
    let evaluate = |_: u32, _: u32, _: usize, _: Arc<Lang<&'static str>>| {
        let error: Result<Vec<Frame<u32, ()>>, &'static str> = Err("stuck");
        error
    };
    let result =
        prover(2).evaluate_and_prove(1, 2, 3, lang(), &evaluate, &encode, &scheme);
    assert_eq!(result.err(), Some("stuck"));
}

#[test]
fn provable_frames_are_told() {
    let prover = prover(2);
    let unknown = Meta::Coprocessor(ZExprPtr { tag: 9, digest_low: 9, digest_high: 9 });
    let none: Vec<Frame<u32, ()>> = vec![];
    assert!(!prover.can_prove(&none, &lang()));
    assert!(!prover.can_prove(&[frame(1, Meta::Lurk)], &lang()));
    assert!(!prover.can_prove(&[frame(1, Meta::Lurk), frame(2, unknown)], &lang()));
    assert!(!prover.can_prove(
        &[frame(1, Meta::Coprocessor(a())), frame(2, Meta::Lurk)],
        &lang()
    ));
    assert!(prover.can_prove(&[frame(1, Meta::Lurk), frame(2, Meta::Coprocessor(a()))], &lang()));
    assert!(!SuperNovaProver::new(0, Lang::new()).can_prove(&some_frames(), &lang()));
}

#[test]
fn verification_answers_what_the_check_finds() {
    let proof: Proof<u8> = Proof::Recursive(Box::new(7));
    let check = |snark: &u8, claim: &u8, z0: &[u128], z0_secondary: &Vec<u128>| {
        assert_eq!(z0_secondary, &vec![0]);
        if snark == claim { Ok(z0.len()) } else { Err("wrong claim") }
    };
    assert_eq!(proof.verify(&7, 1, &[1, 2], &[3, 4], check), Ok(true));
    assert_eq!(proof.verify(&8, 1, &[1, 2], &[3, 4], check), Err("wrong claim"));
}

#[test]
fn what_was_proved_verifies() {
    let scheme = FoldingScheme {
        setup_running_claims: setup,
        iter_base_step: base,
        prove_step,
        verify,
    };
    let frames = [frame(1, Meta::Lurk), frame(2, Meta::Coprocessor(a()))];
    let (proof, z0, zi, num_steps) =
        prover(2).prove(&frames, lang(), &encode, &scheme).unwrap();
    assert_eq!(num_steps, 2);
    let check = |record: &Vec<String>, claim: &usize, z0: &[u128], z0_secondary: &Vec<u128>| {
        let expected = format!("prove {claim} 2 {z0:?} {z0_secondary:?}");
        if record.last() == Some(&expected) { Ok(()) } else { Err(expected) }
    };
    // The last step is for the coprocessor's circuit.
    assert_eq!(proof.verify(&1, num_steps, &z0, &zi, check), Ok(true));
    assert!(proof.verify(&0, num_steps, &z0, &zi, check).is_err());
    assert!(proof.verify(&1, num_steps, &zi, &zi, check).is_err());
    // Neither the number of steps nor the output matters.
    assert_eq!(proof.verify(&1, 99, &z0, &[], check), Ok(true));
}

#[test]
fn own_language_of_a_prover_does_not_matter() {
    let scheme = FoldingScheme {
        setup_running_claims: setup,
        iter_base_step: base,
        prove_step,
        verify,
    };
    let mut other = Lang::new();
    other.add_coprocessor(ZExprPtr { tag: 8, digest_low: 8, digest_high: 8 }, "other");
    let (proof_a, z0_a, zi_a, steps_a) =
        prover(2).prove(&some_frames(), lang(), &encode, &scheme).unwrap();
    let (proof_b, z0_b, zi_b, steps_b) = SuperNovaProver::new(2, other)
        .prove(&some_frames(), lang(), &encode, &scheme)
        .unwrap();
    assert_eq!(record(&proof_a), record(&proof_b));
    assert_eq!((z0_a, zi_a, steps_a), (z0_b, zi_b, steps_b));
}

#[test]
fn verdict_keeps_the_error() {
    assert_eq!(verdict::<u8, u8>(Ok(3)), Ok(true));
    assert_eq!(verdict::<u8, u8>(Err(3)), Err(3));
}
