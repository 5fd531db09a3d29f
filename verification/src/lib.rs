//! Recursive proofs of Lurk computations by non-uniform folding.
//!
//! An evaluation is a sequence of frames, each reduced either by the universal Lurk reduction or
//! by one of the coprocessors of a [`Lang`]. A [`FoldingConfig`] numbers the circuits that the
//! frames are proved with, [`NIVCSteps`] shares the frames out to the steps of a folding, one
//! circuit for each step, and a [`SuperNovaProver`] folds the steps into a [`Proof`], with the
//! operations of a [`FoldingScheme`].
//!
//! [`Lang`]: lang::Lang
//! [`FoldingConfig`]: config::FoldingConfig
//! [`NIVCSteps`]: steps::NIVCSteps
//! [`SuperNovaProver`]: prover::SuperNovaProver
//! [`Proof`]: folding::Proof
//! [`FoldingScheme`]: folding::FoldingScheme

pub mod config;
pub mod folding;
pub mod frame;
pub mod lang;
pub mod laws;
pub mod prover;
mod share;
pub mod step;
pub mod steps;
