use chaum_pedersen::bignum::BigNum;
use chaum_pedersen::client::{prover_announcement, prover_commitments, prover_response};
use chaum_pedersen::server::{AuthError, AuthImpl};
use chaum_pedersen::ZKP;

fn num(x: u8) -> BigNum {
    BigNum::from_bytes(&[x])
}

fn small_group() -> ZKP {
    ZKP::init(&num(4), &num(9), &num(23), &num(11))
}

/// One full honest turn against the server for the given user and secret;
/// returns the verification outcome.
fn authenticate(server: &mut AuthImpl, zkp: &ZKP, user: &str, secret: &[u8]) -> Result<String, AuthError> {
    let (k, r1, r2) = prover_announcement(zkp);
    let (auth_id, c_bytes) = server
        .create_authentication_challenge(user.to_string(), r1.to_bytes_be(), r2.to_bytes_be())
        .expect("challenge should be issued");
    let s = prover_response(zkp, &k, &c_bytes, secret);
    server.verify_authentication(auth_id, s.to_bytes_be())
}

#[test]
fn register_then_authenticate_succeeds() {
    let zkp = small_group();
    let mut server = AuthImpl::new(small_group());
    let secret = [6u8];
    let (y1, y2) = prover_commitments(&zkp, &secret);
    server
        .register("alice".to_string(), y1.to_bytes_be(), y2.to_bytes_be())
        .expect("registration should succeed");
    let session = authenticate(&mut server, &zkp, "alice", &secret).expect("honest prover verifies");
    assert_eq!(session.chars().count(), 12);
    assert!(session.chars().all(|c| c.is_ascii_alphanumeric()));
}

#[test]
fn challenge_is_single_use() {
    // A handle is consumed by its verification turn: replaying it is NotFound.
    let zkp = small_group();
    let mut server = AuthImpl::new(small_group());
    let secret = [6u8];
    let (y1, y2) = prover_commitments(&zkp, &secret);
    server.register("alice".to_string(), y1.to_bytes_be(), y2.to_bytes_be()).unwrap();
    let (k, r1, r2) = prover_announcement(&zkp);
    let (auth_id, c_bytes) = server
        .create_authentication_challenge("alice".to_string(), r1.to_bytes_be(), r2.to_bytes_be())
        .unwrap();
    let s = prover_response(&zkp, &k, &c_bytes, &secret);
    server.verify_authentication(auth_id.clone(), s.to_bytes_be()).expect("first turn passes");
    let replay = server.verify_authentication(auth_id, s.to_bytes_be());
    assert_eq!(replay.unwrap_err(), AuthError::NotFound);
}

#[test]
fn failed_proof_consumes_challenge() {
    let zkp = small_group();
    let mut server = AuthImpl::new(small_group());
    let secret = [6u8];
    let (y1, y2) = prover_commitments(&zkp, &secret);
    server.register("alice".to_string(), y1.to_bytes_be(), y2.to_bytes_be()).unwrap();
    let (k, r1, r2) = prover_announcement(&zkp);
    let (auth_id, c_bytes) = server
        .create_authentication_challenge("alice".to_string(), r1.to_bytes_be(), r2.to_bytes_be())
        .unwrap();
    // A response off by one is rejected...
    let s = prover_response(&zkp, &k, &c_bytes, &secret);
    let wrong = vec![(s.to_bytes_be()[0] + 1) % 11];
    let denied = server.verify_authentication(auth_id.clone(), wrong);
    assert_eq!(denied.unwrap_err(), AuthError::PermissionDenied);
    // ...and the failed turn still consumed the handle.
    let replay = server.verify_authentication(auth_id, s.to_bytes_be());
    assert_eq!(replay.unwrap_err(), AuthError::NotFound);
}

#[test]
fn unknown_user_challenge_is_not_found() {
    let mut server = AuthImpl::new(small_group());
    let res = server.create_authentication_challenge("bob".to_string(), vec![8], vec![4]);
    assert_eq!(res.unwrap_err(), AuthError::NotFound);
}

#[test]
fn unknown_auth_id_is_not_found() {
    let mut server = AuthImpl::new(small_group());
    let res = server.verify_authentication("nonexistent_id".to_string(), vec![0]);
    assert_eq!(res.unwrap_err(), AuthError::NotFound);
}

#[test]
fn out_of_range_values_are_invalid() {
    let zkp = small_group();
    let mut server = AuthImpl::new(small_group());
    // y >= p is rejected at registration.
    let res = server.register("alice".to_string(), vec![23], vec![3]);
    assert_eq!(res.unwrap_err(), AuthError::InvalidArgument);
    // A whitespace-only name is rejected.
    let res = server.register("   ".to_string(), vec![2], vec![3]);
    assert_eq!(res.unwrap_err(), AuthError::InvalidArgument);
    // r >= p is rejected at challenge creation.
    let secret = [6u8];
    let (y1, y2) = prover_commitments(&zkp, &secret);
    server.register("alice".to_string(), y1.to_bytes_be(), y2.to_bytes_be()).unwrap();
    let res = server.create_authentication_challenge("alice".to_string(), vec![42], vec![4]);
    assert_eq!(res.unwrap_err(), AuthError::InvalidArgument);
    // s >= q is rejected at verification.
    let (_, r1, r2) = prover_announcement(&zkp);
    let (auth_id, _c) = server
        .create_authentication_challenge("alice".to_string(), r1.to_bytes_be(), r2.to_bytes_be())
        .unwrap();
    let res = server.verify_authentication(auth_id, vec![11]);
    assert_eq!(res.unwrap_err(), AuthError::InvalidArgument);
}

#[test]
fn names_are_trimmed_for_challenges() {
    let zkp = small_group();
    let mut server = AuthImpl::new(small_group());
    let secret = [6u8];
    let (y1, y2) = prover_commitments(&zkp, &secret);
    server.register("alice".to_string(), y1.to_bytes_be(), y2.to_bytes_be()).unwrap();
    let (k, r1, r2) = prover_announcement(&zkp);
    let (auth_id, c_bytes) = server
        .create_authentication_challenge("  alice \n".to_string(), r1.to_bytes_be(), r2.to_bytes_be())
        .expect("surrounding whitespace is trimmed before lookup");
    let s = prover_response(&zkp, &k, &c_bytes, &secret);
    assert!(server.verify_authentication(auth_id, s.to_bytes_be()).is_ok());
}

#[test]
fn reregistration_replaces_record() {
    // The 2048-bit profile keeps the chance of a degenerate challenge
    // (c = 0, under which any witness would pass) negligible.
    let (a, b, p, q) = ZKP::get_constants();
    let zkp = ZKP::init(&a, &b, &p, &q);
    let mut server = AuthImpl::new(ZKP::init(&a, &b, &p, &q));
    let old_secret = [6u8];
    let new_secret = [5u8];
    let (y1, y2) = prover_commitments(&zkp, &old_secret);
    server.register("alice".to_string(), y1.to_bytes_be(), y2.to_bytes_be()).unwrap();
    let (y1b, y2b) = prover_commitments(&zkp, &new_secret);
    server.register("alice".to_string(), y1b.to_bytes_be(), y2b.to_bytes_be()).unwrap();
    // The new witness authenticates...
    assert!(authenticate(&mut server, &zkp, "alice", &new_secret).is_ok());
    // ...the old one no longer does.
    let res = authenticate(&mut server, &zkp, "alice", &old_secret);
    assert_eq!(res.unwrap_err(), AuthError::PermissionDenied);
}

#[test]
fn interleaved_users_do_not_mix() {
    // Two users' turns interleave; each verifies against its own pending
    // challenge, and the handles do not collide.
    let zkp = small_group();
    let mut server = AuthImpl::new(small_group());
    let secret_a = [6u8];
    let secret_b = [3u8];
    let (y1a, y2a) = prover_commitments(&zkp, &secret_a);
    let (y1b, y2b) = prover_commitments(&zkp, &secret_b);
    server.register("alice".to_string(), y1a.to_bytes_be(), y2a.to_bytes_be()).unwrap();
    server.register("bob".to_string(), y1b.to_bytes_be(), y2b.to_bytes_be()).unwrap();

    let (ka, r1a, r2a) = prover_announcement(&zkp);
    let (kb, r1b, r2b) = prover_announcement(&zkp);
    let (id_a, c_a) = server
        .create_authentication_challenge("alice".to_string(), r1a.to_bytes_be(), r2a.to_bytes_be())
        .unwrap();
    let (id_b, c_b) = server
        .create_authentication_challenge("bob".to_string(), r1b.to_bytes_be(), r2b.to_bytes_be())
        .unwrap();
    assert_ne!(id_a, id_b);
    let s_b = prover_response(&zkp, &kb, &c_b, &secret_b);
    let s_a = prover_response(&zkp, &ka, &c_a, &secret_a);
    assert!(server.verify_authentication(id_b, s_b.to_bytes_be()).is_ok());
    assert!(server.verify_authentication(id_a, s_a.to_bytes_be()).is_ok());
}

#[test]
fn full_flow_with_default_group() {
    let (a, b, p, q) = ZKP::get_constants();
    let zkp = ZKP::init(&a, &b, &p, &q);
    let mut server = AuthImpl::new(ZKP::init(&a, &b, &p, &q));
    let secret = b"a long password, decoded big-endian";
    let (y1, y2) = prover_commitments(&zkp, secret);
    server.register("carol".to_string(), y1.to_bytes_be(), y2.to_bytes_be()).unwrap();
    let session = authenticate(&mut server, &zkp, "carol", secret).expect("honest prover verifies");
    assert_eq!(session.chars().count(), 12);
}
