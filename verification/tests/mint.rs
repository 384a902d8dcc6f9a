use bandurria::config::config::ConfigAntispam;
use bandurria::helpers::mint::{
    challenge, count_leading_zero_bits, inspect_solution, make_problem, parse_solution, vector_to_nonce,
    verify, verify_solution, ALGORITHM, VALIDITY,
};
use sha2::{Digest, Sha256};

const KEY: &str = "test-secret";
const COMMENT_ID: &str = "3f2b8c1e-7a4d-4e2a-9b1c-5d6e7f8a9b0c";
const ISSUED_AT: u64 = 1700000000;
const EXPIRE_AT: u64 = 1700000300;

fn antispam(difficulty: u8, problems_parallel: u8, solutions_require: u8) -> ConfigAntispam {
    ConfigAntispam {
        difficulty,
        problems_parallel,
        solutions_require,
    }
}

fn leading_zero_bits(digest: &[u8]) -> u32 {
    let mut bits = 0;
    for byte in digest {
        bits += byte.leading_zeros();
        if *byte != 0 {
            break;
        }
    }
    bits
}

fn brute_force(problem: &str, difficulty: u32) -> (String, u32) {
    let mut counter: u64 = 0;
    loop {
        let candidate = format!("{}:{}", problem, counter);
        let bits = leading_zero_bits(&Sha256::digest(candidate.as_bytes()));
        if bits >= difficulty {
            return (candidate, bits);
        }
        counter += 1;
    }
}

fn solved_problems() -> Vec<String> {
    vec![
        "H:17:1700000300:3f2b8c1e-7a4d-4e2a-9b1c-5d6e7f8a9b0c/0:_-a3lHBByRBWdlWBbRGJ5DnSmKR-_5fz4Efx-6mvyro:SHA-256:186762".to_string(),
        "H:17:1700000300:3f2b8c1e-7a4d-4e2a-9b1c-5d6e7f8a9b0c/1:883zekZU8isU4IMsF-GRwQs-op5bsLxAxp_85rs8Kik:SHA-256:42573".to_string(),
        "H:17:1700000300:3f2b8c1e-7a4d-4e2a-9b1c-5d6e7f8a9b0c/2:HWAEjIr1F2QTDTYU0ZpnvUuBOq1DDTMvXILL1okuKuY:SHA-256:269232".to_string(),
        "H:17:1700000300:3f2b8c1e-7a4d-4e2a-9b1c-5d6e7f8a9b0c/3:F4-WJgVSpw0wjakfDQswYGHGDqP8UzHdQps2uEou3KM:SHA-256:347416".to_string(),
        "H:17:1700000300:3f2b8c1e-7a4d-4e2a-9b1c-5d6e7f8a9b0c/4:PkntsrCFaWOv1ER0gqo3aURtGHwpnAcgdaF7YU27BAo:SHA-256:15678".to_string(),
        "H:17:1700000300:3f2b8c1e-7a4d-4e2a-9b1c-5d6e7f8a9b0c/5:scGg8mzh6G6iW2MA2kW45m0RWMtRLk_c_o3LHXj8uI8:SHA-256:35359".to_string(),
        "H:17:1700000300:3f2b8c1e-7a4d-4e2a-9b1c-5d6e7f8a9b0c/6:ZVucerjneHoxt5IrLwUjmj0Z5ANDSJWg7gpdLYuwWvE:SHA-256:62497".to_string(),
    ]
}

fn unsolved(index: u8) -> String {
    let problem = make_problem(KEY, 17, index, COMMENT_ID, EXPIRE_AT).unwrap();
    let mut counter: u64 = 0;
    loop {
        let candidate = format!("{}:{}", problem, counter);
        if leading_zero_bits(&Sha256::digest(candidate.as_bytes())) < 17 {
            return candidate;
        }
        counter += 1;
    }
}

#[test]
fn constants_are_those_of_the_wire_format() {
    assert_eq!(ALGORITHM, "SHA-256");
    assert_eq!(VALIDITY, 300);
}

#[test]
fn vector_to_nonce_signs_the_fields_in_order() {
    let nonce = vector_to_nonce(KEY, "c1", "17", "3", "1700000300").unwrap();
    assert_eq!(nonce, "wtdMCDODm6rNBmv2fKHe0qJfUZcqSEbbBw3_FBy62D4");
    let other = vector_to_nonce(KEY, "c1", "3", "17", "1700000300").unwrap();
    assert_ne!(nonce, other);
}

#[test]
fn make_problem_writes_the_wire_format() {
    let problem = make_problem(KEY, 17, 3, "c1", EXPIRE_AT).unwrap();
    assert_eq!(problem, "H:17:1700000300:c1/3:wtdMCDODm6rNBmv2fKHe0qJfUZcqSEbbBw3_FBy62D4:SHA-256");
}

#[test]
fn make_problem_is_stable() {
    let first = make_problem(KEY, 17, 3, "c1", EXPIRE_AT).unwrap();
    let second = make_problem(KEY, 17, 3, "c1", EXPIRE_AT).unwrap();
    assert_eq!(first, second);
}

#[test]
fn challenge_makes_one_problem_for_each_index() {
    let (problems, difficulty, solutions_require) =
        challenge(KEY, &antispam(17, 10, 6), ISSUED_AT, COMMENT_ID).unwrap();
    assert_eq!(difficulty, 17);
    assert_eq!(solutions_require, 6);
    assert_eq!(problems.len(), 10);
    assert_eq!(problems[0], "H:17:1700000300:3f2b8c1e-7a4d-4e2a-9b1c-5d6e7f8a9b0c/0:_-a3lHBByRBWdlWBbRGJ5DnSmKR-_5fz4Efx-6mvyro:SHA-256");
    assert_eq!(problems[9], "H:17:1700000300:3f2b8c1e-7a4d-4e2a-9b1c-5d6e7f8a9b0c/9:Zy6P9hSsrgUbEbQ9UXQmlVFKN2sMd8loJ7YXTIxHLLQ:SHA-256");
    for (index, problem) in problems.iter().enumerate() {
        assert_eq!(
            *problem,
            make_problem(KEY, 17, index as u8, COMMENT_ID, EXPIRE_AT).unwrap()
        );
    }
}

#[test]
fn challenge_with_no_problem_is_empty() {
    let (problems, _, _) = challenge(KEY, &antispam(17, 0, 6), ISSUED_AT, COMMENT_ID).unwrap();
    assert!(problems.is_empty());
}

#[test]
fn challenge_fails_when_the_expiry_overflows() {
    assert!(challenge(KEY, &antispam(17, 10, 6), u64::MAX - 299, COMMENT_ID).is_err());
    assert!(challenge(KEY, &antispam(17, 10, 6), u64::MAX, COMMENT_ID).is_err());
    let (problems, _, _) =
        challenge(KEY, &antispam(17, 1, 1), u64::MAX - 300, COMMENT_ID).unwrap();
    assert!(problems[0].starts_with("H:17:18446744073709551615:"));
}

#[test]
fn parse_solution_reads_every_field() {
    let parsed = parse_solution("H:17:1700000300:c1/3:wtdMCDODm6rNBmv2fKHe0qJfUZcqSEbbBw3_FBy62D4:SHA-256:174151").unwrap();
    assert_eq!(parsed.difficulty, "17");
    assert_eq!(parsed.expire_at, "1700000300");
    assert_eq!(parsed.comment_id, "c1");
    assert_eq!(parsed.index, "3");
    assert_eq!(parsed.nonce, "wtdMCDODm6rNBmv2fKHe0qJfUZcqSEbbBw3_FBy62D4");
    assert_eq!(parsed.algorithm, "SHA-256");
    assert_eq!(parsed.proof, "174151");
}

#[test]
fn parse_solution_keeps_a_slash_after_the_index_field() {
    let parsed = parse_solution("H:1:2:id/3:no/nce:al/go:pr/oof").unwrap();
    assert_eq!(parsed.comment_id, "id");
    assert_eq!(parsed.index, "3");
    assert_eq!(parsed.nonce, "no/nce");
    assert_eq!(parsed.algorithm, "al/go");
    assert_eq!(parsed.proof, "pr/oof");
}

#[test]
fn parse_solution_turns_down_what_is_not_in_the_wire_format() {
    let malformed = [
        "",
        "H",
        "H:",
        "X:17:1700000300:c1/3:nonce:SHA-256:1",
        "h:17:1700000300:c1/3:nonce:SHA-256:1",
        " H:17:1700000300:c1/3:nonce:SHA-256:1",
        "H:17:1700000300:c1/3:nonce:SHA-256",
        "H:17:1700000300:c1/3:nonce:SHA-256:",
        "H:17:1700000300:c1/3:nonce:SHA-256:1:2",
        "H::1700000300:c1/3:nonce:SHA-256:1",
        "H:17::c1/3:nonce:SHA-256:1",
        "H:17:1700000300:/3:nonce:SHA-256:1",
        "H:17:1700000300:c1/:nonce:SHA-256:1",
        "H:17:1700000300:c1/3::SHA-256:1",
        "H:17:1700000300:c1/3:nonce::1",
        "H:17:1700000300:c13:nonce:SHA-256:1",
        "H:17:1700000300:c/1/3:nonce:SHA-256:1",
        "H:1x:1700000300:c1/3:nonce:SHA-256:1",
        "H:17:17000x0300:c1/3:nonce:SHA-256:1",
        "H:17:1700000300:c1/3x:nonce:SHA-256:1",
        "H:-17:1700000300:c1/3:nonce:SHA-256:1",
        "H:+17:1700000300:c1/3:nonce:SHA-256:1",
        "H:17:1700000300:c1/3:nonce:SHA-256:1\n:",
    ];
    for text in malformed {
        assert!(parse_solution(text).is_none(), "parsed: {:?}", text);
    }
}

#[test]
fn parse_solution_agrees_with_the_pattern_of_the_wire_format() {
    let pattern =
        regex::Regex::new(r"^H:([0-9]+):([0-9]+):([^:/]+)/([0-9]+):([^:]+):([^:]+):([^:]+)$")
            .unwrap();
    let pieces = ["H", ":", "/", "1", "07", "a", "é", "\n", " ", "-", "SHA-256"];
    let mut texts: Vec<String> = vec![String::new()];
    let mut state: u64 = 0x2545F4914F6CDD1D;
    for round in 0..4000 {
        let mut text = String::new();
        if round % 2 == 0 {
            text.push_str("H:1:2:");
        }
        let length = 1 + (round % 13);
        for _ in 0..length {
            state ^= state << 13;
            state ^= state >> 7;
            state ^= state << 17;
            text.push_str(pieces[(state % pieces.len() as u64) as usize]);
        }
        texts.push(text);
    }
    texts.push("H:17:1700000300:c1/3:nonce:SHA-256:proof".to_string());
    texts.push("H:1:2:é/3:ñ:ü:ö".to_string());
    texts.push("H:1:2:a\nb/3:c\nd:e:f\n".to_string());
    let mut matched = 0;
    for text in &texts {
        let parsed = parse_solution(text);
        match pattern.captures(text) {
            Some(captures) => {
                matched += 1;
                let parsed = parsed.unwrap();
                assert_eq!(parsed.difficulty, &captures[1]);
                assert_eq!(parsed.expire_at, &captures[2]);
                assert_eq!(parsed.comment_id, &captures[3]);
                assert_eq!(parsed.index, &captures[4]);
                assert_eq!(parsed.nonce, &captures[5]);
                assert_eq!(parsed.algorithm, &captures[6]);
                assert_eq!(parsed.proof, &captures[7]);
            }
            None => assert!(parsed.is_none(), "parsed: {:?}", text),
        }
    }
    assert!(matched >= 3);
}

#[test]
fn count_leading_zero_bits_counts_up_to_the_first_set_bit() {
    assert_eq!(count_leading_zero_bits(&[]), 0);
    assert_eq!(count_leading_zero_bits(&[0x80]), 0);
    assert_eq!(count_leading_zero_bits(&[0xff, 0x00]), 0);
    assert_eq!(count_leading_zero_bits(&[0x01]), 7);
    assert_eq!(count_leading_zero_bits(&[0x00]), 8);
    assert_eq!(count_leading_zero_bits(&[0x00, 0x00, 0x1f, 0x00]), 19);
    assert_eq!(count_leading_zero_bits(&[0x00, 0x00, 0x7f, 0xff]), 17);
    assert_eq!(count_leading_zero_bits(&[0x00, 0x00, 0x80]), 16);
}

#[test]
fn count_leading_zero_bits_stops_at_the_highest_difficulty() {
    let mut digest = [0u8; 32];
    assert_eq!(count_leading_zero_bits(&digest), 255);
    digest[31] = 0x01;
    assert_eq!(count_leading_zero_bits(&digest), 255);
    digest[31] = 0x02;
    assert_eq!(count_leading_zero_bits(&digest), 254);
    assert_eq!(count_leading_zero_bits(&[0u8; 40]), 255);
}

#[test]
fn verify_solution_accepts_at_the_boundary_and_not_above() {
    let solution = "H:12:1700000300:c1/0:gTEqdId5eNHLSdKe7ehAoTVizZCN9lp__03u1mIaXSw:SHA-256:23793";
    assert_eq!(verify_solution(12, solution), (true, 12));
    assert_eq!(verify_solution(11, solution), (true, 12));
    assert_eq!(verify_solution(0, solution), (true, 12));
    assert_eq!(verify_solution(13, solution), (false, 12));
    assert_eq!(verify_solution(255, solution), (false, 12));
}

#[test]
fn verify_solution_hashes_the_whole_text() {
    let digest = Sha256::digest("abc".as_bytes());
    let (_, bits) = verify_solution(0, "abc");
    assert_eq!(bits as u32, leading_zero_bits(&digest));
    assert_eq!(bits, 0);
}

#[test]
fn a_brute_forced_solution_is_accepted() {
    let problem = make_problem(KEY, 8, 0, "c1", EXPIRE_AT).unwrap();
    let (solution, bits) = brute_force(&problem, 8);
    assert_eq!(verify_solution(8, &solution), (true, bits as u8));
    assert_eq!(verify_solution(bits as u8, &solution).0, true);
    assert_eq!(verify_solution(bits as u8 + 1, &solution).0, false);
    assert_eq!(
        verify(KEY, &antispam(8, 1, 1), ISSUED_AT, "c1", &[solution]),
        Ok(true)
    );
}

#[test]
fn a_solution_short_of_work_is_not_counted() {
    let short = "H:8:1700000300:c1/1:O7CYSBiWg171UqLl3P1yIFqIjs2rJeS0dTK5niYrU90:SHA-256:0".to_string();
    let solved = "H:8:1700000300:c1/1:O7CYSBiWg171UqLl3P1yIFqIjs2rJeS0dTK5niYrU90:SHA-256:31".to_string();
    assert_eq!(verify(KEY, &antispam(8, 2, 1), ISSUED_AT, "c1", &[short]), Ok(false));
    assert_eq!(verify(KEY, &antispam(8, 2, 1), ISSUED_AT, "c1", &[solved]), Ok(true));
}

#[test]
fn six_solved_problems_of_ten_are_enough() {
    let solved = solved_problems();
    let mut batch: Vec<String> = Vec::new();
    batch.push(unsolved(7));
    batch.extend(solved[0..3].iter().cloned());
    batch.push("not a solution".to_string());
    batch.push(unsolved(8));
    batch.extend(solved[3..6].iter().cloned());
    batch.push(unsolved(9));
    assert_eq!(batch.len(), 10);
    assert_eq!(
        verify(KEY, &antispam(17, 10, 6), ISSUED_AT, COMMENT_ID, &batch),
        Ok(true)
    );
}

#[test]
fn five_solved_problems_of_ten_are_not_enough() {
    let solved = solved_problems();
    let mut batch: Vec<String> = solved[0..5].to_vec();
    batch.push(unsolved(5));
    batch.push(unsolved(6));
    batch.push(unsolved(7));
    batch.push(unsolved(8));
    batch.push(unsolved(9));
    assert_eq!(
        verify(KEY, &antispam(17, 10, 6), ISSUED_AT, COMMENT_ID, &batch),
        Ok(false)
    );
    assert_eq!(
        verify(KEY, &antispam(17, 10, 5), ISSUED_AT, COMMENT_ID, &batch),
        Ok(true)
    );
}

#[test]
fn a_solution_handed_in_twice_counts_once() {
    let solved = solved_problems();
    let twice = vec![solved[0].clone(), solved[0].clone()];
    assert_eq!(verify(KEY, &antispam(17, 10, 1), ISSUED_AT, COMMENT_ID, &twice), Ok(true));
    assert_eq!(verify(KEY, &antispam(17, 10, 2), ISSUED_AT, COMMENT_ID, &twice), Ok(false));
    let six_times: Vec<String> = (0..6).map(|_| solved[0].clone()).collect();
    assert_eq!(
        verify(KEY, &antispam(17, 10, 6), ISSUED_AT, COMMENT_ID, &six_times),
        Ok(false)
    );
}

#[test]
fn two_proofs_for_one_problem_count_once() {
    let problem = make_problem(KEY, 0, 2, "c1", EXPIRE_AT).unwrap();
    let batch = vec![format!("{}:a", problem), format!("{}:b", problem)];
    assert_eq!(verify(KEY, &antispam(0, 4, 1), ISSUED_AT, "c1", &batch), Ok(true));
    assert_eq!(verify(KEY, &antispam(0, 4, 2), ISSUED_AT, "c1", &batch), Ok(false));
}

#[test]
fn a_solution_short_of_work_leaves_its_index_free() {
    let short = "H:8:1700000300:c1/1:O7CYSBiWg171UqLl3P1yIFqIjs2rJeS0dTK5niYrU90:SHA-256:0".to_string();
    let solved = "H:8:1700000300:c1/1:O7CYSBiWg171UqLl3P1yIFqIjs2rJeS0dTK5niYrU90:SHA-256:31".to_string();
    assert_eq!(
        verify(KEY, &antispam(8, 2, 1), ISSUED_AT, "c1", &[short.clone(), solved.clone()]),
        Ok(true)
    );
    assert_eq!(
        verify(KEY, &antispam(8, 2, 1), ISSUED_AT, "c1", &[solved.clone(), short.clone()]),
        Ok(true)
    );
    assert_eq!(
        verify(
            KEY,
            &antispam(8, 2, 2),
            ISSUED_AT,
            "c1",
            &[short.clone(), solved.clone(), short, solved]
        ),
        Ok(false)
    );
}

#[test]
fn a_solution_with_a_difficulty_out_of_range_leaves_its_index_free() {
    let nonce = vector_to_nonce(KEY, "c1", "256", "1", "1700000300").unwrap();
    let unreadable = format!("H:256:1700000300:c1/1:{}:SHA-256:x", nonce);
    let problem = make_problem(KEY, 0, 1, "c1", EXPIRE_AT).unwrap();
    let accepted = format!("{}:x", problem);
    assert_eq!(
        verify(KEY, &antispam(0, 2, 1), ISSUED_AT, "c1", &[unreadable, accepted]),
        Ok(true)
    );
}

#[test]
fn a_nonce_is_unpadded_url_safe_base64() {
    for index in 0..50u8 {
        let nonce = vector_to_nonce(KEY, "c1", "17", &index.to_string(), "1700000300").unwrap();
        assert_eq!(nonce.len(), 43);
        assert!(nonce
            .chars()
            .all(|c| c.is_ascii_alphanumeric() || c == '-' || c == '_'));
    }
}

#[test]
fn an_expired_solution_is_rejected() {
    let solved = solved_problems();
    let batch: Vec<String> = solved[0..6].to_vec();
    assert_eq!(
        verify(KEY, &antispam(17, 10, 6), EXPIRE_AT - 1, COMMENT_ID, &batch),
        Ok(true)
    );
    assert_eq!(
        verify(KEY, &antispam(17, 10, 6), EXPIRE_AT, COMMENT_ID, &batch),
        Ok(false)
    );
    assert_eq!(
        verify(KEY, &antispam(17, 10, 1), EXPIRE_AT + 1, COMMENT_ID, &batch),
        Ok(false)
    );
}

#[test]
fn a_changed_field_does_not_go_with_the_nonce() {
    let issued = "H:17:1700000300:c1/3:wtdMCDODm6rNBmv2fKHe0qJfUZcqSEbbBw3_FBy62D4:SHA-256:174151";
    assert!(inspect_solution(KEY, ISSUED_AT, "c1", issued).is_some());
    assert_eq!(
        verify(KEY, &antispam(17, 10, 1), ISSUED_AT, "c1", &[issued.to_string()]),
        Ok(true)
    );
    let nonce = "wtdMCDODm6rNBmv2fKHe0qJfUZcqSEbbBw3_FBy62D4";
    let changed = [
        format!("H:1:1700000300:c1/3:{}:SHA-256:174151", nonce),
        format!("H:17:1700000300:c1/4:{}:SHA-256:174151", nonce),
        format!("H:17:1700000300:c2/3:{}:SHA-256:174151", nonce),
        format!("H:17:9700000300:c1/3:{}:SHA-256:174151", nonce),
        format!("H:017:1700000300:c1/3:{}:SHA-256:174151", nonce),
    ];
    for solution in changed {
        assert!(inspect_solution(KEY, ISSUED_AT, "c1", &solution).is_none());
        assert!(inspect_solution(KEY, ISSUED_AT, "c2", &solution).is_none());
        assert_eq!(
            verify(KEY, &antispam(0, 10, 1), ISSUED_AT, "c1", &[solution.clone()]),
            Ok(false)
        );
        assert_eq!(
            verify(KEY, &antispam(0, 10, 1), ISSUED_AT, "c2", &[solution]),
            Ok(false)
        );
    }
}

#[test]
fn a_solution_under_another_key_is_rejected() {
    let issued = "H:17:1700000300:c1/3:wtdMCDODm6rNBmv2fKHe0qJfUZcqSEbbBw3_FBy62D4:SHA-256:174151";
    assert!(inspect_solution("other-secret", ISSUED_AT, "c1", issued).is_none());
}

#[test]
fn a_solution_for_another_comment_is_rejected() {
    let issued = "H:17:1700000300:c1/3:wtdMCDODm6rNBmv2fKHe0qJfUZcqSEbbBw3_FBy62D4:SHA-256:174151".to_string();
    assert_eq!(
        verify(KEY, &antispam(17, 10, 1), ISSUED_AT, "c2", &[issued]),
        Ok(false)
    );
}

#[test]
fn a_solution_with_another_algorithm_is_rejected() {
    let problem = make_problem(KEY, 0, 0, "c1", EXPIRE_AT).unwrap();
    let accepted = format!("{}:x", problem);
    let other = accepted.replace(":SHA-256:", ":SHA-512:");
    assert_ne!(accepted, other);
    assert!(inspect_solution(KEY, ISSUED_AT, "c1", &accepted).is_some());
    assert!(inspect_solution(KEY, ISSUED_AT, "c1", &other).is_none());
    assert_eq!(verify(KEY, &antispam(0, 1, 1), ISSUED_AT, "c1", &[other]), Ok(false));
}

#[test]
fn inspect_solution_reads_index_and_difficulty() {
    let found = inspect_solution(KEY, ISSUED_AT, "c1", "H:17:1700000300:c1/3:wtdMCDODm6rNBmv2fKHe0qJfUZcqSEbbBw3_FBy62D4:SHA-256:174151").unwrap();
    assert_eq!(found.index, 3);
    assert_eq!(found.difficulty, Some(17));
}

#[test]
fn an_index_or_difficulty_out_of_range_is_not_counted() {
    let nonce = vector_to_nonce(KEY, "c1", "0", "256", "1700000300").unwrap();
    let solution = format!("H:0:1700000300:c1/256:{}:SHA-256:x", nonce);
    assert!(inspect_solution(KEY, ISSUED_AT, "c1", &solution).is_none());

    let nonce = vector_to_nonce(KEY, "c1", "256", "1", "1700000300").unwrap();
    let solution = format!("H:256:1700000300:c1/1:{}:SHA-256:x", nonce);
    let found = inspect_solution(KEY, ISSUED_AT, "c1", &solution).unwrap();
    assert_eq!(found.index, 1);
    assert_eq!(found.difficulty, None);
    assert_eq!(verify(KEY, &antispam(0, 2, 1), ISSUED_AT, "c1", &[solution]), Ok(false));

    let nonce = vector_to_nonce(KEY, "c1", "0", "1", "18446744073709551616").unwrap();
    let solution = format!("H:0:18446744073709551616:c1/1:{}:SHA-256:x", nonce);
    assert!(inspect_solution(KEY, ISSUED_AT, "c1", &solution).is_none());

    let nonce = vector_to_nonce(KEY, "c1", "000", "0255", "18446744073709551615").unwrap();
    let solution = format!("H:000:18446744073709551615:c1/0255:{}:SHA-256:x", nonce);
    let found = inspect_solution(KEY, u64::MAX - 1, "c1", &solution).unwrap();
    assert_eq!(found.index, 255);
    assert_eq!(found.difficulty, Some(0));
}

#[test]
fn no_solution_is_enough_only_when_none_is_asked_for() {
    assert_eq!(verify(KEY, &antispam(17, 10, 0), ISSUED_AT, "c1", &[]), Ok(true));
    assert_eq!(verify(KEY, &antispam(17, 10, 1), ISSUED_AT, "c1", &[]), Ok(false));
}

#[test]
fn every_problem_of_a_challenge_can_be_answered() {
    let config = antispam(4, 5, 5);
    let (problems, difficulty, solutions_require) =
        challenge(KEY, &config, ISSUED_AT, COMMENT_ID).unwrap();
    let solutions: Vec<String> = problems
        .iter()
        .map(|problem| brute_force(problem, difficulty as u32).0)
        .collect();
    assert_eq!(solutions_require, 5);
    assert_eq!(verify(KEY, &config, ISSUED_AT + 299, COMMENT_ID, &solutions), Ok(true));
    assert_eq!(verify(KEY, &config, ISSUED_AT + 300, COMMENT_ID, &solutions), Ok(false));
    assert_eq!(verify(KEY, &config, ISSUED_AT, COMMENT_ID, &solutions[1..]), Ok(false));
}

#[test]
fn a_lowered_difficulty_does_not_go_with_the_nonce() {
    let lowered = "H:1:1700000300:c1/3:wtdMCDODm6rNBmv2fKHe0qJfUZcqSEbbBw3_FBy62D4:SHA-256:0";
    assert_eq!(verify_solution(1, lowered).0, true);
    assert_eq!(
        verify(KEY, &antispam(17, 10, 1), ISSUED_AT, "c1", &[lowered.to_string()]),
        Ok(false)
    );
}

#[test]
fn a_solved_problem_cannot_pass_under_another_index() {
    let issued = "H:17:1700000300:c1/3:wtdMCDODm6rNBmv2fKHe0qJfUZcqSEbbBw3_FBy62D4:SHA-256:174151";
    let reindexed = "H:17:1700000300:c1/4:wtdMCDODm6rNBmv2fKHe0qJfUZcqSEbbBw3_FBy62D4:SHA-256:648957";
    assert_eq!(verify_solution(17, issued).0, true);
    assert_eq!(verify_solution(17, reindexed).0, true);
    let batch = vec![issued.to_string(), reindexed.to_string()];
    assert_eq!(verify(KEY, &antispam(17, 10, 2), ISSUED_AT, "c1", &batch), Ok(false));
    assert_eq!(verify(KEY, &antispam(17, 10, 1), ISSUED_AT, "c1", &batch), Ok(true));
    assert_eq!(
        verify(KEY, &antispam(17, 10, 1), ISSUED_AT, "c1", &[reindexed.to_string()]),
        Ok(false)
    );
}

#[test]
fn work_for_one_comment_cannot_be_spent_on_another() {
    let recommented = "H:17:1700000300:c2/3:wtdMCDODm6rNBmv2fKHe0qJfUZcqSEbbBw3_FBy62D4:SHA-256:162804";
    assert_eq!(verify_solution(17, recommented).0, true);
    assert_eq!(
        verify(KEY, &antispam(17, 10, 1), ISSUED_AT, "c2", &[recommented.to_string()]),
        Ok(false)
    );
    assert_eq!(
        verify(KEY, &antispam(17, 10, 1), ISSUED_AT, "c1", &[recommented.to_string()]),
        Ok(false)
    );
}

#[test]
fn the_lifetime_of_a_problem_cannot_be_extended() {
    let extended = "H:17:1700001300:c1/3:wtdMCDODm6rNBmv2fKHe0qJfUZcqSEbbBw3_FBy62D4:SHA-256:219003";
    assert_eq!(verify_solution(17, extended).0, true);
    for now in [EXPIRE_AT - 1, EXPIRE_AT, EXPIRE_AT + 999] {
        assert_eq!(
            verify(KEY, &antispam(17, 10, 1), now, "c1", &[extended.to_string()]),
            Ok(false)
        );
    }
}

#[test]
fn six_solved_problems_are_enough_in_any_order() {
    let solved = solved_problems();
    let others = vec![
        unsolved(6),
        "H:17:1700000300".to_string(),
        unsolved(2),
        solved[6].replace(":1700000300:", ":1600000000:"),
    ];
    let mut state: u64 = 0x9E3779B97F4A7C15;
    for _ in 0..20 {
        let mut batch: Vec<String> = solved[0..6].to_vec();
        batch.extend(others.iter().cloned());
        for place in (1..batch.len()).rev() {
            state ^= state << 13;
            state ^= state >> 7;
            state ^= state << 17;
            batch.swap(place, (state % (place as u64 + 1)) as usize);
        }
        assert_eq!(
            verify(KEY, &antispam(17, 10, 6), ISSUED_AT, COMMENT_ID, &batch),
            Ok(true),
            "batch: {:?}",
            batch
        );
        assert_eq!(
            verify(KEY, &antispam(17, 10, 7), ISSUED_AT, COMMENT_ID, &batch),
            Ok(false)
        );
    }
}
