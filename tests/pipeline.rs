use curve25519_dalek::ristretto::CompressedRistretto;
use curve25519_dalek::scalar::Scalar;
use sha2::{Digest, Sha512};
use voprf::{
    bytes_equal, decode, finalize_input_of, generator_of, hash_to_group_of, hash_to_scalar_of,
    push_field, Ciphersuite, Client, Evaluation, Group, Input, OprfError, Server, Step,
};

const AUX: &str = "oprf_finalization_step";

fn scalar_bytes(n: u64) -> Vec<u8> {
    let mut v = vec![0u8; 32];
    v[..8].copy_from_slice(&n.to_le_bytes());
    v
}

fn server(verifiable: bool, key: u64) -> Server {
    let mut srv = Server::setup(Ciphersuite::new(Group::Ristretto255, verifiable));
    srv.set_key(scalar_bytes(key)).unwrap();
    srv
}

fn client_for(srv: &Server) -> Client {
    let pk = srv.key.as_ref().unwrap().pub_key();
    Client::setup(srv.ciphersuite, Some(pk)).unwrap()
}

fn make_inputs(cli: &Client, data: &[Vec<u8>], blinds: &[u64]) -> Vec<Input> {
    data.iter()
        .zip(blinds)
        .map(|(d, b)| {
            let blind = scalar_bytes(*b);
            let elem = cli.blind_fixed(d, &blind).unwrap();
            Input { data: d.clone(), blind, elem }
        })
        .collect()
}

fn clone_input(i: &Input) -> Input {
    Input { data: i.data.clone(), blind: i.blind.clone(), elem: i.elem.clone() }
}

fn elems(inputs: &[Input]) -> Vec<Vec<u8>> {
    inputs.iter().map(|i| i.elem.clone()).collect()
}

/// The output computed directly from the key, with no blinding.
fn direct_prf(srv: &Server, cli: &Client, data: &[u8]) -> Vec<u8> {
    let h = hash_to_group_of(&srv.ciphersuite, data);
    let sk = Scalar::from_canonical_bytes(srv.key.as_ref().unwrap().to_bytes().try_into().unwrap()).unwrap();
    let p = CompressedRistretto(h.try_into().unwrap()).decompress().unwrap();
    let e = (sk * p).compress().to_bytes().to_vec();
    cli.finalize(data, &e, AUX.as_bytes())
}

fn run(srv: &Server, cli: &Client, data: &[Vec<u8>], blinds: &[u64], k: u64) -> (Vec<Vec<u8>>, Evaluation) {
    let inputs = make_inputs(cli, data, blinds);
    let ev = srv.fixed_eval(&elems(&inputs), &scalar_bytes(k)).unwrap();
    let u = cli.unblind(&inputs, &ev).unwrap();
    let outs = inputs.iter().zip(&u).map(|(i, e)| cli.finalize(&i.data, e, AUX.as_bytes())).collect();
    (outs, ev)
}

#[test]
fn scenario_single_input_verifiable() {
    let srv = server(true, 0x1234_5678);
    let cli = client_for(&srv);
    let inputs = make_inputs(&cli, &[vec![0x00]], &[0x7b]);
    let ev = srv.fixed_eval(&elems(&inputs), &scalar_bytes(99)).unwrap();
    assert_eq!(ev.elements.len(), 1);
    let proof = ev.proof.as_ref().expect("a proof should have been provided");
    assert_eq!(proof.challenge.len(), 32);
    assert_eq!(proof.response.len(), 32);
    let u = cli.unblind(&inputs, &ev).unwrap();
    let out = cli.finalize(&[0x00], &u[0], AUX.as_bytes());
    assert_eq!(out.len(), 64);
    assert_eq!(out, direct_prf(&srv, &cli, &[0x00]));
}

#[test]
fn output_does_not_depend_on_blind() {
    let srv = server(true, 77);
    let cli = client_for(&srv);
    let data = vec![b"hello".to_vec()];
    let (a, _) = run(&srv, &cli, &data, &[5], 11);
    let (b, _) = run(&srv, &cli, &data, &[123456789], 12);
    assert_eq!(a, b);
    assert_eq!(a[0], direct_prf(&srv, &cli, b"hello"));
}

#[test]
fn batch_keeps_positions() {
    let srv = server(true, 1001);
    let cli = client_for(&srv);
    let data: Vec<Vec<u8>> = vec![vec![1], vec![2, 2], vec![3, 3, 3]];
    let (outs, ev) = run(&srv, &cli, &data, &[7, 8, 9], 5);
    assert_eq!(ev.elements.len(), 3);
    assert_eq!(outs.len(), 3);
    for (i, d) in data.iter().enumerate() {
        let (single, _) = run(&srv, &cli, &[d.clone()], &[7 + i as u64], 5);
        assert_eq!(outs[i], single[0]);
        assert_eq!(outs[i], direct_prf(&srv, &cli, d));
    }
}

#[test]
fn mutated_proof_or_element_is_rejected() {
    let srv = server(true, 4242);
    let cli = client_for(&srv);
    let inputs = make_inputs(&cli, &[vec![9], vec![10]], &[3, 4]);
    let ev = srv.fixed_eval(&elems(&inputs), &scalar_bytes(17)).unwrap();
    assert!(cli.unblind(&inputs, &ev).is_ok());
    let p = ev.proof.as_ref().unwrap();
    for pos in 0..32 {
        for which in 0..4 {
            let mut elements = ev.elements.clone();
            let mut c = p.challenge.clone();
            let mut s = p.response.clone();
            match which {
                0 => c[pos] ^= 1,
                1 => s[pos] ^= 1,
                2 => elements[0][pos] ^= 1,
                _ => elements[1][pos] ^= 0x40,
            }
            let bad = Evaluation { elements, proof: Some(voprf::Proof { challenge: c, response: s }) };
            assert_eq!(cli.unblind(&inputs, &bad).unwrap_err(), OprfError::ProofVerificationFailed);
        }
    }
}

#[test]
fn random_evaluation_verifies() {
    let srv = server(true, 31337);
    let cli = client_for(&srv);
    let inp = cli.blind(b"input").unwrap();
    let ev = srv.eval(&vec![inp.elem.clone()]).unwrap();
    assert!(ev.proof.is_some());
    let u = cli.unblind(&vec![inp], &ev).unwrap();
    assert_eq!(cli.finalize(b"input", &u[0], AUX.as_bytes()), direct_prf(&srv, &cli, b"input"));
}

#[test]
fn fixed_randomness_is_reproducible() {
    let srv = server(true, 555);
    let cli = client_for(&srv);
    let data = vec![vec![0u8], vec![1u8]];
    let (a, ea) = run(&srv, &cli, &data, &[0x7b, 0x7c], 2024);
    let (b, eb) = run(&srv, &cli, &data, &[0x7b, 0x7c], 2024);
    assert_eq!(a, b);
    assert_eq!(ea.elements, eb.elements);
    let (pa, pb) = (ea.proof.unwrap(), eb.proof.unwrap());
    assert_eq!(pa.challenge, pb.challenge);
    assert_eq!(pa.response, pb.response);
    let (_, ec) = run(&srv, &cli, &data, &[0x7b, 0x7c], 2025);
    assert_ne!(ec.proof.unwrap().challenge, pa.challenge);
}

#[test]
fn non_verifiable_suite_has_no_proof() {
    let srv = server(false, 8);
    let cli = Client::setup(srv.ciphersuite, None).unwrap();
    let (outs, ev) = run(&srv, &cli, &[b"x".to_vec()], &[2], 1);
    assert!(ev.proof.is_none());
    assert_eq!(outs[0], direct_prf(&srv, &cli, b"x"));
}

#[test]
fn decode_rejects_short_and_off_curve() {
    let g = generator_of();
    assert_eq!(decode(&g).unwrap(), g);
    assert_eq!(decode(&g[..31]).unwrap_err(), OprfError::DecodeError);
    assert_eq!(decode(&[0xffu8; 32]).unwrap_err(), OprfError::DecodeError);
    assert_eq!(decode(&[]).unwrap_err(), OprfError::DecodeError);
}

#[test]
fn generator_is_the_base_point() {
    assert_eq!(
        hex::encode(generator_of()),
        "e2f2ae0a6abc4e71a884a961c500515f58e30b6aa582dd8db6a65945e08d2d76"
    );
}

#[test]
fn key_errors() {
    let mut srv = Server::setup(Ciphersuite::new(Group::Ristretto255, true));
    assert_eq!(srv.set_key(vec![1u8; 31]), Err(OprfError::InvalidKeyLength));
    assert_eq!(srv.set_key(vec![1u8; 33]), Err(OprfError::InvalidKeyLength));
    assert_eq!(srv.set_key(vec![0u8; 32]), Err(OprfError::InvalidScalar));
    assert_eq!(srv.set_key(vec![0xffu8; 32]), Err(OprfError::InvalidScalar));
    assert!(srv.key.is_none());
    assert_eq!(srv.set_key(scalar_bytes(1)), Ok(()));
    assert_eq!(srv.key.as_ref().unwrap().pub_key(), generator_of());
}

#[test]
fn client_setup_errors() {
    let v = Ciphersuite::new(Group::Ristretto255, true);
    assert_eq!(Client::setup(v, None).unwrap_err(), OprfError::MissingPublicKey);
    assert_eq!(Client::setup(v, Some(vec![0xff; 32])).unwrap_err(), OprfError::DecodeError);
    assert!(Client::setup(v, Some(generator_of())).is_ok());
}

#[test]
fn blind_and_batch_errors() {
    let srv = server(true, 3);
    let cli = client_for(&srv);
    assert_eq!(cli.blind_fixed(b"a", &[0u8; 32]).unwrap_err(), OprfError::InvalidScalar);
    assert_eq!(cli.blind_fixed(b"a", &[1u8; 31]).unwrap_err(), OprfError::InvalidScalar);
    let inputs = make_inputs(&cli, &[vec![1], vec![2]], &[5, 6]);
    let ev = srv.fixed_eval(&elems(&inputs), &scalar_bytes(4)).unwrap();
    assert_eq!(cli.unblind(&vec![clone_input(&inputs[0])], &ev).unwrap_err(), OprfError::BatchLengthMismatch);
    let bad_blind = vec![Input { data: vec![1], blind: vec![0; 32], elem: inputs[0].elem.clone() },
        Input { data: vec![2], blind: inputs[1].blind.clone(), elem: inputs[1].elem.clone() }];
    assert_eq!(cli.unblind(&bad_blind, &ev).unwrap_err(), OprfError::InvalidScalar);
    assert_eq!(srv.fixed_eval(&vec![vec![0xff; 32]], &scalar_bytes(4)).unwrap_err(), OprfError::DecodeError);
    assert_eq!(srv.fixed_eval(&elems(&inputs), &[0u8; 32]).unwrap_err(), OprfError::InvalidScalar);
    let no_proof = Evaluation { elements: ev.elements.clone(), proof: None };
    assert_eq!(cli.unblind(&inputs, &no_proof).unwrap_err(), OprfError::ProofVerificationFailed);
}

#[test]
fn finalize_hashes_the_framed_fields() {
    let suite = Ciphersuite::new(Group::Ristretto255, true);
    let m = finalize_input_of(&suite, &[0xaa], &[0xbb, 0xcc], b"");
    let mut expected = vec![0, 0, 0, 0, 0, 0, 0, 1, 0xaa, 0, 0, 0, 0, 0, 0, 0, 2, 0xbb, 0xcc];
    expected.extend_from_slice(&[0u8; 8]);
    expected.extend_from_slice(b"VOPRF-ristretto255-SHA512-Finalize");
    assert_eq!(m, expected);
    let cli = Client::setup(suite, Some(generator_of())).unwrap();
    let out = cli.finalize(&[0xaa], &[0xbb, 0xcc], b"");
    assert_eq!(out, Sha512::digest(&expected).to_vec());
}

#[test]
fn suite_tags() {
    let v = Ciphersuite::new(Group::Ristretto255, true);
    let n = Ciphersuite::new(Group::Ristretto255, false);
    assert_eq!(v.tag(Step::Seed), b"VOPRF-ristretto255-SHA512-Seed".to_vec());
    assert_eq!(n.tag(Step::HashToGroup), b"OPRF-ristretto255-SHA512-HashToGroup".to_vec());
    assert_eq!(v.name(), b"VOPRF-ristretto255-SHA512".to_vec());
}

#[test]
fn hash_to_scalar_reduces_the_digest() {
    let s = hash_to_scalar_of(b"abc");
    let expected = Scalar::hash_from_bytes::<Sha512>(b"abc").to_bytes().to_vec();
    assert_eq!(s, expected);
    assert_ne!(s, Sha512::digest(b"abc")[..32].to_vec());
}

#[test]
fn push_field_and_compare() {
    let mut out = vec![9u8];
    push_field(&mut out, &[1, 2, 3]);
    assert_eq!(out, vec![9, 0, 0, 0, 0, 0, 0, 0, 3, 1, 2, 3]);
    assert!(bytes_equal(&[1, 2], &[1, 2]));
    assert!(!bytes_equal(&[1, 2], &[1, 3]));
    assert!(!bytes_equal(&[1, 2], &[1]));
    assert!(bytes_equal(&[], &[]));
}

#[test]
fn hash_to_group_maps_the_framed_input() {
    let suite = Ciphersuite::new(Group::Ristretto255, true);
    let mut m: Vec<u8> = Vec::new();
    push_field(&mut m, b"VOPRF-ristretto255-SHA512-HashToGroup");
    push_field(&mut m, b"data");
    let expected = curve25519_dalek::ristretto::RistrettoPoint::hash_from_bytes::<Sha512>(&m)
        .compress()
        .to_bytes()
        .to_vec();
    assert_eq!(hash_to_group_of(&suite, b"data"), expected);
    assert_ne!(hash_to_group_of(&suite, b"data"), hash_to_group_of(&suite, b"datb"));
}

fn hex_list(v: &[&str]) -> Vec<Vec<u8>> {
    v.iter().map(|s| s.as_bytes().to_vec()).collect()
}

#[test]
fn oprf_vector_run() {
    let key = hex::encode(scalar_bytes(0x1234_5678));
    let blind = hex::encode(scalar_bytes(0x7b));
    let k = hex::encode(scalar_bytes(99));
    let e = voprf::oprf(&hex_list(&["00"]), &hex_list(&[blind.as_str()]), key.as_bytes(), k.as_bytes()).unwrap();
    assert_eq!(e.outputs.len(), 1);
    let srv = server(true, 0x1234_5678);
    let cli = client_for(&srv);
    assert_eq!(e.outputs[0], hex::encode(direct_prf(&srv, &cli, &[0x00])));
    let inputs = make_inputs(&cli, &[vec![0x00]], &[0x7b]);
    let ev = srv.fixed_eval(&elems(&inputs), &scalar_bytes(99)).unwrap();
    let p = ev.proof.unwrap();
    assert_eq!(e.proof, (hex::encode(&p.challenge), hex::encode(&p.response)));
    assert_eq!(e.proof.0.len(), 64);
}

#[test]
fn oprf_vector_errors() {
    let key = hex::encode(scalar_bytes(5));
    let blind = hex::encode(scalar_bytes(6));
    let k = hex::encode(scalar_bytes(7));
    let b = hex_list(&[blind.as_str()]);
    assert_eq!(voprf::oprf(&hex_list(&["0g"]), &b, key.as_bytes(), k.as_bytes()).unwrap_err(), OprfError::InvalidHex);
    assert_eq!(voprf::oprf(&hex_list(&["000"]), &b, key.as_bytes(), k.as_bytes()).unwrap_err(), OprfError::InvalidHex);
    assert_eq!(voprf::oprf(&hex_list(&["00"]), &b, b"0102", k.as_bytes()).unwrap_err(), OprfError::InvalidKeyLength);
    let zero = hex::encode([0u8; 32]);
    assert_eq!(voprf::oprf(&hex_list(&["00"]), &hex_list(&[zero.as_str()]), key.as_bytes(), k.as_bytes()).unwrap_err(),
        OprfError::InvalidScalar);
    assert_eq!(voprf::oprf(&hex_list(&["00"]), &b, key.as_bytes(), zero.as_bytes()).unwrap_err(), OprfError::InvalidScalar);
    let upper = key.to_uppercase();
    let lower = voprf::oprf(&hex_list(&["AB"]), &b, key.as_bytes(), k.as_bytes()).unwrap();
    let up = voprf::oprf(&hex_list(&["ab"]), &b, upper.as_bytes(), k.as_bytes()).unwrap();
    assert_eq!(lower.outputs, up.outputs);
}

#[test]
fn run_fixed_pairs_inputs_with_blinds() {
    let suite = Ciphersuite::new(Group::Ristretto255, true);
    let data = vec![vec![1u8], vec![2u8], vec![3u8]];
    let blinds = vec![scalar_bytes(10), scalar_bytes(11)];
    let (outs, p) = voprf::run_fixed(suite, &scalar_bytes(9), &data, &blinds, &scalar_bytes(8), b"ctx").unwrap();
    assert_eq!(outs.len(), 2);
    assert!(p.is_some());
    let srv = server(true, 9);
    let cli = client_for(&srv);
    let h = hash_to_group_of(&suite, &[2u8]);
    let sk = Scalar::from_canonical_bytes(scalar_bytes(9).try_into().unwrap()).unwrap();
    let e = (sk * CompressedRistretto(h.try_into().unwrap()).decompress().unwrap()).compress().to_bytes();
    assert_eq!(outs[1], cli.finalize(&[2u8], &e, b"ctx"));
    let nv = Ciphersuite::new(Group::Ristretto255, false);
    let (_, p2) = voprf::run_fixed(nv, &scalar_bytes(9), &data, &blinds, &[0u8; 32], b"ctx").unwrap();
    assert!(p2.is_none());
}

#[test]
fn blind_from_wide_reduces_the_draw() {
    let srv = server(true, 3);
    let cli = client_for(&srv);
    let mut w = vec![0u8; 64];
    w[0] = 0x7b;
    let i = cli.blind_from_wide(b"x", &w).unwrap();
    assert_eq!(i.blind, scalar_bytes(0x7b));
    assert_eq!(i.elem, cli.blind_fixed(b"x", &scalar_bytes(0x7b)).unwrap());
    assert_eq!(cli.blind_from_wide(b"x", &[0u8; 64]).unwrap_err(), OprfError::InvalidScalar);
    let wide = [0xffu8; 64];
    let expected = Scalar::from_bytes_mod_order_wide(&wide).to_bytes().to_vec();
    assert_eq!(cli.blind_from_wide(b"x", &wide).unwrap().blind, expected);
}

#[test]
fn hex_lists_round_trip() {
    let d = voprf::decode_hex_list(&hex_list(&["00ff", "aB"])).unwrap();
    assert_eq!(d, vec![vec![0x00, 0xff], vec![0xab]]);
    assert!(voprf::decode_hex_list(&hex_list(&["00", "x1"])).is_none());
    assert_eq!(voprf::encode_hex_list(&vec![vec![0xab, 0x01], vec![]]), vec!["ab01".to_string(), String::new()]);
}
