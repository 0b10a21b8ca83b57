//! A verifiable oblivious pseudorandom function (VOPRF) over the
//! ristretto255 prime-order group, with batched DLEQ proofs.
//!
//! Scalars and group elements are carried as their canonical byte
//! encodings; the contracts speak of those encodings.

mod bytes;
mod error;
mod scalar;
mod group;
mod ciphersuite;
mod dleq;
mod server;
mod client;
mod theorems;
mod vectors;
mod hexcodec;

pub use bytes::{len_prefix, field, frame, views, push_field};
pub use ciphersuite::{Group, Ciphersuite, Step, step_label};
pub use error::OprfError;
pub use scalar::{group_order, le_nat, le_bytes, scalar_enc, canonical_scalar, nonzero_scalar, is_nonzero_scalar};
pub use group::{decode, ristretto_decodes, ristretto_mul_of, ristretto_base_mul_of,
    ristretto_add_of, ristretto_hash_of, sha512_of, ELEMENT_LEN};
pub use dleq::{generator, identity, hash_to_scalar, all_decode, batch_seed, coefficient, composite,
    challenge, proof_of, proof_verifies, hash_to_scalar_of, generator_of, prove, verify, bytes_equal};
pub use server::{SecretKey, Proof, Evaluation, proof_view, evaluated, eval_result, all_elements_valid, Server};
pub use client::{Input, hash_to_group, blinded, scalar_inverse, unblinded, finalize_input, input_ok,
    blinded_elems, evaluation_verifies, unblind_result, key_view, Client, hash_to_group_of,
    finalize_input_of};
pub use theorems::{lemma_batch_positional, lemma_round_trip_composition, lemma_fixed_eval_reproducible, lemma_eval_shape};
pub use vectors::{aux_data, vector_suite, Expected, vector_hex_valid, oprf, pair_count, run_blinded, run_output, run_proof, run_arguments_valid, run_proof_verifies, run_fixed};
pub use hexcodec::{hex_value, hex_valid, hex_bytes, hex_digit, hex_of, hex_list, hex_list_valid,
    decode_hex_list, encode_hex_list};
