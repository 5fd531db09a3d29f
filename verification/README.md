# lurk_supernova

Recursive proofs of Lurk computations by non-uniform folding, with the logic verified by Verus.

- `src/` is the library. `lang` and `config` say which circuits there are and how they are
  numbered; `frame`, `step` and `steps` share the frames of an evaluation out to the steps of a
  folding; `folding` and `prover` fold the steps into a proof, with the operations of a folding
  scheme that the caller supplies. `laws` states what holds of all of them together. The one
  thing that is believed without proof is that cloning an `Arc` shares its value (`share`).
- `app/` supplies SuperNova, as implemented by `arecibo`, as the folding scheme: steps as
  circuits, and forms of the parameters and proofs that can be stored.
- `tests/` runs the library, with a scheme that records what it is asked for, and with circuits
  over the scalar field of Pallas.
