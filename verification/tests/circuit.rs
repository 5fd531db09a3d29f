//! Steps as circuits, over the scalar field of Pallas.

use std::sync::Arc;

use arecibo::provider::{PallasEngine, VestaEngine};
use arecibo::supernova::NonUniformCircuit;
use arecibo::traits::circuit_supernova::{
    EnforcingStepCircuit, StepCircuit, TrivialSecondaryCircuit,
};
use arecibo::traits::Engine;
use bellpepper_core::num::AllocatedNum;
use bellpepper_core::test_cs::TestConstraintSystem;
use bellpepper_core::{ConstraintSystem, SynthesisError};
use ff::Field;

use lurk_supernova::config::FoldingConfig;
use lurk_supernova::frame::Frame;
use lurk_supernova::lang::{Lang, Meta, ZExprPtr};
use lurk_supernova::step::NIVCStep;
use lurk_supernova::steps::NIVCSteps;

type F1 = <PallasEngine as Engine>::Scalar;
type F2 = <VestaEngine as Engine>::Scalar;
type Step = NIVCStep<u64, (), &'static str>;

/// A circuit that adds one to its input.
#[derive(Clone, Debug)]
struct Circuit {
    step: Step,
}

impl StepCircuit<F1> for Circuit {
    fn arity(&self) -> usize {
        self.step.arity(2)
    }

    fn circuit_index(&self) -> usize {
        self.step.circuit_index()
    }

    fn synthesize<CS: ConstraintSystem<F1>>(
        &self,
        cs: &mut CS,
        _pc: Option<&AllocatedNum<F1>>,
        z: &[AllocatedNum<F1>],
    ) -> Result<(Option<AllocatedNum<F1>>, Vec<AllocatedNum<F1>>), SynthesisError> {
        let out = AllocatedNum::alloc(cs.namespace(|| "out"), || {
            let value = z[0].get_value().ok_or(SynthesisError::AssignmentMissing)?;
            Ok(value + F1::ONE)
        })?;
        let next_pc = AllocatedNum::alloc_infallible(cs.namespace(|| "next_pc"), || {
            self.step.next_pc::<F1>()
        });
        Ok((Some(next_pc), vec![out]))
    }
}

impl NonUniformCircuit<PallasEngine, VestaEngine, Circuit, TrivialSecondaryCircuit<F2>>
    for Circuit
{
    fn num_circuits(&self) -> usize {
        self.step.num_circuits()
    }

    fn primary_circuit(&self, circuit_index: usize) -> Circuit {
        Circuit { step: self.step.primary_circuit(circuit_index) }
    }

    fn secondary_circuit(&self) -> TrivialSecondaryCircuit<F2> {
        TrivialSecondaryCircuit::default()
    }
}

fn z_ptr(tag: u16) -> ZExprPtr {
    ZExprPtr { tag, digest_low: 4, digest_high: 5 }
}

fn config() -> Arc<FoldingConfig<&'static str>> {
    let mut lang = Lang::new();
    lang.add_coprocessor(z_ptr(1), "a");
    lang.add_coprocessor(z_ptr(2), "b");
    Arc::new(FoldingConfig::new_nivc(Arc::new(lang), 1))
}

fn steps(metas: &[Meta]) -> NIVCSteps<u64, (), &'static str> {
    let mut frames = vec![];
    for (i, meta) in metas.iter().enumerate() {
        frames.push(Frame { input: i as u64, output: i as u64 + 1, witness: (), meta: *meta });
    }
    NIVCSteps::from_frames(1, &frames, config())
}

#[test]
fn program_counters_chain_through_the_circuits() {
    let b = Meta::Coprocessor(z_ptr(2));
    let steps = steps(&[Meta::Lurk, b, Meta::Lurk, Meta::Lurk]);
    assert_eq!(steps.num_steps(), 5);
    let mut pc = F1::ZERO;
    let mut z = F1::from(40);
    for i in 0..steps.num_steps() {
        let circuit = Circuit { step: steps.index(i).clone() };
        let mut cs = TestConstraintSystem::<F1>::new();
        let pc_in = AllocatedNum::alloc_infallible(cs.namespace(|| "pc"), || pc);
        let z_in = AllocatedNum::alloc_infallible(cs.namespace(|| "z"), || z);
        // The program counter is enforced to be the index of the circuit.
        let (next_pc, out) =
            circuit.enforcing_synthesize(&mut cs, Some(&pc_in), &[z_in]).unwrap();
        assert!(cs.is_satisfied());
        pc = next_pc.unwrap().get_value().unwrap();
        z = out[0].get_value().unwrap();
        assert_eq!(pc, F1::from([0, 2, 0, 0, 0][i]));
    }
    assert_eq!(z, F1::from(45));
}

#[test]
fn program_counter_leads_to_a_final_coprocessor() {
    let steps = steps(&[Meta::Lurk, Meta::Coprocessor(z_ptr(2))]);
    assert_eq!(steps.num_steps(), 3);
    let mut pc = F1::ZERO;
    for i in 0..steps.num_steps() {
        let circuit = Circuit { step: steps.index(i).clone() };
        let mut cs = TestConstraintSystem::<F1>::new();
        let pc_in = AllocatedNum::alloc_infallible(cs.namespace(|| "pc"), || pc);
        let z_in = AllocatedNum::alloc_infallible(cs.namespace(|| "z"), || F1::ONE);
        let (next_pc, _) = circuit.enforcing_synthesize(&mut cs, Some(&pc_in), &[z_in]).unwrap();
        assert!(cs.is_satisfied());
        pc = next_pc.unwrap().get_value().unwrap();
        assert_eq!(pc, F1::from([0, 2, 0][i]));
    }
}

#[test]
fn wrong_program_counter_is_refused() {
    let steps = steps(&[Meta::Lurk, Meta::Coprocessor(z_ptr(1)), Meta::Lurk]);
    let circuit = Circuit { step: steps.index(2).clone() };
    let mut cs = TestConstraintSystem::<F1>::new();
    let pc = AllocatedNum::alloc_infallible(cs.namespace(|| "pc"), || F1::ZERO);
    let z = AllocatedNum::alloc_infallible(cs.namespace(|| "z"), || F1::ONE);
    circuit.enforcing_synthesize(&mut cs, Some(&pc), &[z]).unwrap();
    assert_eq!(circuit.circuit_index(), 1);
    assert!(!cs.is_satisfied());
}

#[test]
fn circuit_set_has_its_indices() {
    let circuits = Circuit { step: NIVCStep::blank(config(), Meta::Lurk) };
    assert_eq!(circuits.num_circuits(), 3);
    for i in 0..circuits.num_circuits() {
        let circuit = circuits.primary_circuit(i);
        assert_eq!(StepCircuit::<F1>::circuit_index(&circuit), i);
        assert_eq!(circuit.arity(), 1);
    }
}
