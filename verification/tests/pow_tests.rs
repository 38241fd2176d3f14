use is2fp::error::Ip2pError;
use is2fp::pow::{generate_problem, solve, u64_to_dec_bytes};

#[test]
fn pow_problem_is_sha512_hex_of_decimal_input() {
    // nonce 3 hashes the decimal text of 3 + 32 = 35
    let problem = generate_problem(3);
    let expected = hex::encode(<sha2::Sha512 as sha2::Digest>::digest(b"35"));
    assert_eq!(problem, expected);
    assert_eq!(problem.len(), 128);
}

#[test]
fn pow_solve_finds_generated_problem() {
    let problem = generate_problem(3);
    let solution = solve(&problem).expect("a generated problem must be solvable");
    assert_eq!(solution, problem);
}

#[test]
fn pow_solve_rejects_malformed_problem() {
    let r = solve(&String::from("not-a-digest"));
    assert_eq!(r, Err(Ip2pError::PowFailure));
}

#[test]
fn pow_solve_is_sound_for_other_nonce() {
    // a problem generated from one nonce comes back as that same string,
    // never as a different digest
    let problem = generate_problem(7);
    let solution = solve(&problem).unwrap();
    assert_eq!(solution, problem);
}

#[test]
fn decimal_bytes_match_standard_formatting() {
    assert_eq!(u64_to_dec_bytes(0), b"0".to_vec());
    assert_eq!(u64_to_dec_bytes(35), b"35".to_vec());
    assert_eq!(u64_to_dec_bytes(123456789), b"123456789".to_vec());
    assert_eq!(
        u64_to_dec_bytes(u64::MAX),
        format!("{}", u64::MAX).into_bytes()
    );
}

#[test]
fn hex_encoding_matches_hex_crate() {
    let digest = <sha2::Sha512 as sha2::Digest>::digest(b"35").to_vec();
    assert_eq!(is2fp::pow::hex_encode(&digest), hex::encode(&digest));
}
