//! Proof-of-work challenges in the manner of Hashcash. A challenge is a
//! batch of problems, each signed over its own parameters, so that the
//! solutions can be checked later with nothing kept in between.

use vstd::prelude::*;
use std::collections::HashSet;
use vstd::std_specs::bits::u8_leading_zeros;
use vstd::string::StringExecFns;
use vstd::utf8::encode_utf8;
use super::authentication::{sign_payload_bytes, signature_bytes};
use super::digest::{base64_url, base64_url_encode, is_base64_url_char, sha256, sha256_digest};
use crate::config::config::ConfigAntispam;
use super::text::{
    chars_of, decimal, decimal_string, find_char, first_index, is_digits, is_first_index,
    lemma_first_index, parse_decimal, parsed_decimal, same_text, substring, texts_of,
};

verus! {

pub type MintSolutions = u8;

pub type MintDifficulty = u8;

pub type MintIndex = u8;

pub type MintTimestamp = u64;

/// Seconds for which a challenge can be answered.
pub const VALIDITY: u64 = 300;

/// Number of characters of a nonce: those of a 32-byte signature in
/// unpadded base64.
pub const NONCE_LENGTH: usize = 43;

/// Name of the one digest that a solution may be made with.
pub const ALGORITHM: &'static str = "SHA-256";

/// The characters of `ALGORITHM`.
pub open spec fn algorithm_name() -> Seq<char> {
    seq!['S', 'H', 'A', '-', '2', '5', '6']
}

/// The fields of a solution, as they stand in its text.
pub ghost struct SolutionFields {
    pub difficulty: Seq<char>,
    pub expire_at: Seq<char>,
    pub comment_id: Seq<char>,
    pub index: Seq<char>,
    pub nonce: Seq<char>,
    pub algorithm: Seq<char>,
    pub proof: Seq<char>,
}

/// A solution taken apart into its fields.
pub struct Solution {
    pub difficulty: String,
    pub expire_at: String,
    pub comment_id: String,
    pub index: String,
    pub nonce: String,
    pub algorithm: String,
    pub proof: String,
}

impl View for Solution {
    type V = SolutionFields;

    open spec fn view(&self) -> SolutionFields {
        SolutionFields {
            difficulty: self.difficulty@,
            expire_at: self.expire_at@,
            comment_id: self.comment_id@,
            index: self.index@,
            nonce: self.nonce@,
            algorithm: self.algorithm@,
            proof: self.proof@,
        }
    }
}

/// Whether `s` is a non-empty text that holds no `:`.
pub open spec fn is_word(s: Seq<char>) -> bool {
    s.len() > 0 && !s.contains(':')
}

/// Whether `s` is a non-empty run of digits.
pub open spec fn is_number(s: Seq<char>) -> bool {
    s.len() > 0 && is_digits(s)
}

/// Whether each field has the form that the wire format gives it: the
/// three numbers are runs of digits, the comment identifier holds neither
/// `:` nor `/`, the other fields hold no `:`, and no field is empty.
pub open spec fn fields_well_formed(f: SolutionFields) -> bool {
    &&& is_number(f.difficulty)
    &&& is_number(f.expire_at)
    &&& is_word(f.comment_id) && !f.comment_id.contains('/')
    &&& is_number(f.index)
    &&& is_word(f.nonce)
    &&& is_word(f.algorithm)
    &&& is_word(f.proof)
}

/// The text of a problem, without a proof:
/// `H:<difficulty>:<expire_at>:<comment_id>/<index>:<nonce>:<algorithm>`.
pub open spec fn problem_text(
    difficulty: Seq<char>,
    expire_at: Seq<char>,
    comment_id: Seq<char>,
    index: Seq<char>,
    nonce: Seq<char>,
    algorithm: Seq<char>,
) -> Seq<char> {
    seq!['H', ':'] + difficulty + seq![':'] + expire_at + seq![':'] + comment_id + seq!['/']
        + index + seq![':'] + nonce + seq![':'] + algorithm
}

/// The text of a solution: the problem, a `:`, and the proof.
pub open spec fn solution_text(f: SolutionFields) -> Seq<char> {
    problem_text(f.difficulty, f.expire_at, f.comment_id, f.index, f.nonce, f.algorithm) + seq![
        ':',
    ] + f.proof
}

/// The two parts that a text is cut into.
pub ghost struct Parts {
    pub before: Seq<char>,
    pub after: Seq<char>,
}

/// `s` cut at its first `c`: what stands before it and what stands after
/// it, or nothing where `s` holds no `c`.
pub open spec fn cut(s: Seq<char>, c: char) -> Option<Parts> {
    let k = first_index(s, c);
    if k < s.len() {
        Some(Parts { before: s.take(k), after: s.skip(k + 1) })
    } else {
        None
    }
}

/// The fields of `s`, read from the left: after the leading `H:`, the text
/// is cut at each of the next five `:`, and the fourth field at its first
/// `/`.
pub open spec fn cut_fields(s: Seq<char>) -> Option<SolutionFields> {
    if s.len() >= 2 && s[0] == 'H' && s[1] == ':' {
        match cut(s.skip(2), ':') {
            Some(Parts { before: difficulty, after: rest1 }) => match cut(rest1, ':') {
                Some(Parts { before: expire_at, after: rest2 }) => match cut(rest2, ':') {
                    Some(Parts { before: target, after: rest3 }) => match cut(target, '/') {
                        Some(Parts { before: comment_id, after: index }) => match cut(rest3, ':') {
                            Some(Parts { before: nonce, after: rest4 }) => match cut(rest4, ':') {
                                Some(Parts { before: algorithm, after: proof }) => Some(
                                    SolutionFields {
                                        difficulty,
                                        expire_at,
                                        comment_id,
                                        index,
                                        nonce,
                                        algorithm,
                                        proof,
                                    },
                                ),
                                None => None,
                            },
                            None => None,
                        },
                        None => None,
                    },
                    None => None,
                },
                None => None,
            },
            None => None,
        }
    } else {
        None
    }
}

/// What parsing a solution gives: its fields where the text follows the
/// wire format, and nothing where it does not.
pub open spec fn parsed_solution(s: Seq<char>) -> Option<SolutionFields> {
    match cut_fields(s) {
        Some(f) => if fields_well_formed(f) {
            Some(f)
        } else {
            None
        },
        None => None,
    }
}

/// Whether `s` follows the wire format: it is the text of fields that are
/// well formed.
pub open spec fn follows_wire_format(s: Seq<char>) -> bool {
    exists|f: SolutionFields| fields_well_formed(f) && #[trigger] solution_text(f) == s
}

/// Cutting a stretch of `s` at its first `c`, where `k` is the place of the
/// first `c` at or after the start of the stretch.
proof fn lemma_cut_stretch(s: Seq<char>, c: char, from: int, to: int, k: int)
    requires
        0 <= from <= to <= s.len(),
        from <= k,
        forall|j: int| from <= j < k && j < to ==> s[j] != c,
        k < to ==> s[k] == c,
    ensures
        cut(s.subrange(from, to), c) == if k < to {
            Some(Parts { before: s.subrange(from, k), after: s.subrange(k + 1, to) })
        } else {
            None::<Parts>
        },
{
    let t = s.subrange(from, to);
    lemma_first_index(t, c);
    if k < to {
        assert(is_first_index(t, c, k - from));
        assert(t.take(k - from) =~= s.subrange(from, k));
        assert(t.skip(k - from + 1) =~= s.subrange(k + 1, to));
    } else {
        assert(is_first_index(t, c, t.len() as int));
    }
}

/// Whether the characters of `s` from `from` up to `to` are all digits.
fn all_digits(s: &[char], from: usize, to: usize) -> (b: bool)
    requires
        from <= to <= s@.len(),
    ensures
        b == is_digits(s@.subrange(from as int, to as int)),
{
    let mut i: usize = from;
    while i < to
        invariant
            from <= i <= to <= s@.len(),
            forall|j: int| from <= j < i ==> super::text::is_digit(s@[j]),
        decreases to - i,
    {
        if !super::text::char_is_digit(s[i]) {
            assert(!super::text::is_digit(s@.subrange(from as int, to as int)[i - from]));
            return false;
        }
        i = i + 1;
    }
    assert forall|j: int| 0 <= j < to - from implies super::text::is_digit(
        #[trigger] s@.subrange(from as int, to as int)[j],
    ) by {
        assert(s@.subrange(from as int, to as int)[j] == s@[from + j]);
    }
    true
}

/// Takes a solution apart. The text must follow the wire format
/// `H:<difficulty>:<expire_at>:<comment_id>/<index>:<nonce>:<algorithm>:<proof>`
/// from its first character to its last.
pub fn parse_solution(solution: &str) -> (parsed: Option<Solution>)
    ensures
        parsed is Some == parsed_solution(solution@) is Some,
        parsed is Some ==> parsed->0@ == parsed_solution(solution@)->0,
{
    let chars = chars_of(solution);
    let s = chars.as_slice();
    let n = s.len();
    if n < 2 || s[0] != 'H' || s[1] != ':' {
        return None;
    }
    let ghost text = s@;
    let a = find_char(s, ':', 2);
    proof {
        lemma_cut_stretch(text, ':', 2, n as int, a as int);
        assert(text.skip(2) =~= text.subrange(2, n as int));
    }
    if a >= n {
        return None;
    }
    let b = find_char(s, ':', a + 1);
    proof {
        lemma_cut_stretch(text, ':', a + 1, n as int, b as int);
    }
    if b >= n {
        return None;
    }
    let c = find_char(s, ':', b + 1);
    proof {
        lemma_cut_stretch(text, ':', b + 1, n as int, c as int);
    }
    if c >= n {
        return None;
    }
    let d = find_char(s, '/', b + 1);
    proof {
        lemma_cut_stretch(text, '/', b + 1, c as int, d as int);
    }
    if d >= c {
        return None;
    }
    let e = find_char(s, ':', c + 1);
    proof {
        lemma_cut_stretch(text, ':', c + 1, n as int, e as int);
    }
    if e >= n {
        return None;
    }
    let f = find_char(s, ':', e + 1);
    proof {
        lemma_cut_stretch(text, ':', e + 1, n as int, f as int);
    }
    if f >= n {
        return None;
    }
    let g = find_char(s, ':', f + 1);
    let ghost fields = SolutionFields {
        difficulty: text.subrange(2, a as int),
        expire_at: text.subrange(a + 1, b as int),
        comment_id: text.subrange(b + 1, d as int),
        index: text.subrange(d + 1, c as int),
        nonce: text.subrange(c + 1, e as int),
        algorithm: text.subrange(e + 1, f as int),
        proof: text.subrange(f + 1, n as int),
    };
    assert(cut_fields(text) == Some(fields));
    proof {
        lemma_no_char_in_stretch(text, ':', b + 1, d as int);
        lemma_no_char_in_stretch(text, '/', b + 1, d as int);
        lemma_no_char_in_stretch(text, ':', c + 1, e as int);
        lemma_no_char_in_stretch(text, ':', e + 1, f as int);
        if g >= n {
            lemma_no_char_in_stretch(text, ':', f + 1, n as int);
        } else {
            assert(fields.proof[g - (f + 1)] == ':');
        }
    }
    let well_formed = a > 2 && all_digits(s, 2, a) && b > a + 1 && all_digits(s, a + 1, b) && d
        > b + 1 && c > d + 1 && all_digits(s, d + 1, c) && e > c + 1 && f > e + 1 && n > f + 1
        && g >= n;
    assert(well_formed == fields_well_formed(fields));
    if !well_formed {
        return None;
    }
    let parsed = Solution {
        difficulty: substring(s, 2, a),
        expire_at: substring(s, a + 1, b),
        comment_id: substring(s, b + 1, d),
        index: substring(s, d + 1, c),
        nonce: substring(s, c + 1, e),
        algorithm: substring(s, e + 1, f),
        proof: substring(s, f + 1, n),
    };
    assert(parsed@ == fields);
    Some(parsed)
}

/// A stretch of `s` in which no `c` stands does not contain `c`.
proof fn lemma_no_char_in_stretch(s: Seq<char>, c: char, from: int, to: int)
    requires
        0 <= from <= to <= s.len(),
        forall|j: int| from <= j < to ==> s[j] != c,
    ensures
        !s.subrange(from, to).contains(c),
{
    let t = s.subrange(from, to);
    if t.contains(c) {
        let i = choose|i: int| 0 <= i < t.len() && t[i] == c;
        assert(s[from + i] == c);
    }
}

/// What is signed to make the nonce of a problem: its difficulty, index,
/// comment identifier and expiry, as they stand in its text.
pub open spec fn nonce_payload(
    comment_id: Seq<char>,
    difficulty: Seq<char>,
    index: Seq<char>,
    expire_at: Seq<char>,
) -> Seq<char> {
    difficulty + seq!['>'] + index + seq!['>'] + comment_id + seq!['>'] + expire_at
}

/// The nonce of a problem: the signature of its other fields, in URL-safe
/// base64. Whoever changes one of the fields cannot give the nonce that
/// goes with the change without the secret key.
pub open spec fn nonce(
    secret_key: Seq<char>,
    comment_id: Seq<char>,
    difficulty: Seq<char>,
    index: Seq<char>,
    expire_at: Seq<char>,
) -> Seq<char> {
    base64_url(
        signature_bytes(secret_key, nonce_payload(comment_id, difficulty, index, expire_at)),
    )
}

/// The problem with the given parameters, as it is handed to a client.
pub open spec fn problem(
    secret_key: Seq<char>,
    difficulty: MintDifficulty,
    index: MintIndex,
    comment_id: Seq<char>,
    expire_at: MintTimestamp,
) -> Seq<char> {
    problem_text(
        decimal(difficulty as nat),
        decimal(expire_at as nat),
        comment_id,
        decimal(index as nat),
        nonce(
            secret_key,
            comment_id,
            decimal(difficulty as nat),
            decimal(index as nat),
            decimal(expire_at as nat),
        ),
        algorithm_name(),
    )
}

/// Number of zero bits at the start of `digest`, read from its first byte.
pub open spec fn leading_zero_bits(digest: Seq<u8>) -> nat
    decreases digest.len(),
{
    if digest.len() == 0 {
        0
    } else if digest[0] == 0 {
        8 + leading_zero_bits(digest.drop_first())
    } else {
        u8_leading_zeros(digest[0]) as nat
    }
}

/// The work shown by a digest: its leading zero bits, counted up to the
/// highest difficulty that can be asked for.
pub open spec fn shown_work(digest: Seq<u8>) -> MintDifficulty {
    if leading_zero_bits(digest) >= MintDifficulty::MAX {
        MintDifficulty::MAX
    } else {
        leading_zero_bits(digest) as MintDifficulty
    }
}

/// The work shown by a solution: that of the SHA-256 digest of its whole
/// text, proof included.
pub open spec fn solution_work(solution: Seq<char>) -> MintDifficulty {
    shown_work(sha256(encode_utf8(solution)))
}

/// Makes the nonce that goes with the fields of a problem.
pub fn vector_to_nonce(
    secret_key: &str,
    comment_id: &str,
    difficulty_str: &str,
    index_str: &str,
    expire_at_str: &str,
) -> (made: Result<String, ()>)
    ensures
        made is Ok,
        made->Ok_0@ == nonce(
            secret_key@,
            comment_id@,
            difficulty_str@,
            index_str@,
            expire_at_str@,
        ),
        is_word(made->Ok_0@),
        made->Ok_0@.len() == NONCE_LENGTH,
        forall|i: int|
            0 <= i < made->Ok_0@.len() ==> is_base64_url_char(#[trigger] made->Ok_0@[i]),
{
    proof {
        reveal_strlit(">");
    }
    let mut nonce_payload = String::from_str(difficulty_str);
    nonce_payload.append(">");
    nonce_payload.append(index_str);
    nonce_payload.append(">");
    nonce_payload.append(comment_id);
    nonce_payload.append(">");
    nonce_payload.append(expire_at_str);
    assert(nonce_payload@ =~= self::nonce_payload(
        comment_id@,
        difficulty_str@,
        index_str@,
        expire_at_str@,
    ));
    match sign_payload_bytes(secret_key, nonce_payload.as_str()) {
        Ok(nonce_signature) => {
            let encoded = base64_url_encode(nonce_signature.as_slice());
            proof {
                if encoded@.contains(':') {
                    let i = choose|i: int| 0 <= i < encoded@.len() && encoded@[i] == ':';
                    assert(is_base64_url_char(encoded@[i]));
                }
            }
            Ok(encoded)
        },
        Err(_) => Err(()),
    }
}

/// Makes the problem with the given parameters.
pub fn make_problem(
    secret_key: &str,
    difficulty: MintDifficulty,
    index: MintIndex,
    comment_id: &str,
    expire_at: MintTimestamp,
) -> (made: Result<String, ()>)
    ensures
        made is Ok,
        made->Ok_0@ == problem(secret_key@, difficulty, index, comment_id@, expire_at),
        is_word(comment_id@) && !comment_id@.contains('/') ==> is_answerable(
            secret_key@,
            difficulty,
            index,
            comment_id@,
            expire_at,
            made->Ok_0@,
        ),
{
    let difficulty_str = decimal_string(difficulty as u64);
    let index_str = decimal_string(index as u64);
    let expire_at_str = decimal_string(expire_at);
    let nonce = match vector_to_nonce(
        secret_key,
        comment_id,
        difficulty_str.as_str(),
        index_str.as_str(),
        expire_at_str.as_str(),
    ) {
        Ok(nonce) => nonce,
        Err(_) => {
            return Err(());
        },
    };
    proof {
        reveal_strlit("H:");
        reveal_strlit(":");
        reveal_strlit("/");
        reveal_strlit("SHA-256");
    }
    let mut made = String::from_str("H:");
    made.append(difficulty_str.as_str());
    made.append(":");
    made.append(expire_at_str.as_str());
    made.append(":");
    made.append(comment_id);
    made.append("/");
    made.append(index_str.as_str());
    made.append(":");
    made.append(nonce.as_str());
    made.append(":");
    made.append(ALGORITHM);
    assert(ALGORITHM@ =~= algorithm_name());
    assert(made@ =~= problem(secret_key@, difficulty, index, comment_id@, expire_at));
    proof {
        if is_word(comment_id@) && !comment_id@.contains('/') {
            lemma_problem_is_answerable(secret_key@, difficulty, index, comment_id@, expire_at);
        }
    }
    Ok(made)
}

/// Counts the zero bits at the start of a digest, up to the highest
/// difficulty that can be asked for.
pub fn count_leading_zero_bits(digest: &[u8]) -> (count: MintDifficulty)
    ensures
        count == shown_work(digest@),
{
    let cap: u32 = MintDifficulty::MAX as u32;
    let mut count: u32 = 0;
    let mut i: usize = 0;
    let mut done = false;
    assert(digest@.skip(0) =~= digest@);
    while i < digest.len() && !done
        invariant
            0 <= i <= digest@.len(),
            cap == 255,
            count <= cap + 8,
            !done ==> count < cap && count == 8 * i,
            !done ==> leading_zero_bits(digest@) == count + leading_zero_bits(
                digest@.skip(i as int),
            ),
            done ==> (if leading_zero_bits(digest@) >= cap {
                count >= cap
            } else {
                count == leading_zero_bits(digest@)
            }),
        decreases digest@.len() - i + (if done { 0int } else { 1int }),
    {
        let byte = digest[i];
        let byte_leading_zeroes = byte.leading_zeros();
        proof {
            vstd::std_specs::bits::axiom_u8_leading_zeros(byte);
            let rest = digest@.skip(i as int);
            assert(rest[0] == byte);
            assert(rest.drop_first() =~= digest@.skip(i as int + 1));
        }
        count = count + byte_leading_zeroes;
        if byte_leading_zeroes < u8::BITS {
            done = true;
        } else if count >= cap {
            done = true;
        } else {
            i = i + 1;
        }
    }
    proof {
        if !done {
            assert(digest@.skip(i as int) =~= Seq::<u8>::empty());
        }
    }
    if count >= cap {
        MintDifficulty::MAX
    } else {
        count as MintDifficulty
    }
}

/// Checks the work of one solution: whether the digest of its whole text
/// starts with at least `required_difficulty` zero bits, and how many it
/// starts with.
pub fn verify_solution(required_difficulty: MintDifficulty, solution_string: &str) -> (checked: (
    bool,
    MintDifficulty,
))
    ensures
        checked.1 == solution_work(solution_string@),
        checked.0 == (solution_work(solution_string@) >= required_difficulty),
{
    let solution_hash = sha256_digest(solution_string.as_bytes());
    let leading_zeroes = count_leading_zero_bits(solution_hash.as_slice());
    (leading_zeroes >= required_difficulty, leading_zeroes)
}

/// Whether a solution passes the checks that look at it alone, its work
/// left aside: it follows the wire format, its nonce is the one that goes
/// with its fields, it has not expired, it is for the comment in question,
/// it names the supported digest, and its index is one that a problem can
/// have.
pub open spec fn is_eligible(
    secret_key: Seq<char>,
    now: MintTimestamp,
    reference_comment_id: Seq<char>,
    solution: Seq<char>,
) -> bool {
    match parsed_solution(solution) {
        Some(f) => {
            &&& f.nonce == nonce(secret_key, f.comment_id, f.difficulty, f.index, f.expire_at)
            &&& parsed_decimal(f.expire_at, MintTimestamp::MAX as nat) is Some
            &&& now < parsed_decimal(f.expire_at, MintTimestamp::MAX as nat)->0
            &&& f.comment_id == reference_comment_id
            &&& f.algorithm == algorithm_name()
            &&& parsed_decimal(f.index, MintIndex::MAX as nat) is Some
        },
        None => false,
    }
}

/// The index of the problem that an eligible solution answers.
pub open spec fn solution_index(solution: Seq<char>) -> MintIndex {
    parsed_decimal(parsed_solution(solution)->0.index, MintIndex::MAX as nat)->0 as MintIndex
}

/// The difficulty that an eligible solution names, where it is one that
/// can be asked for.
pub open spec fn solution_difficulty(solution: Seq<char>) -> Option<MintDifficulty> {
    match parsed_decimal(parsed_solution(solution)->0.difficulty, MintDifficulty::MAX as nat) {
        Some(d) => Some(d as MintDifficulty),
        None => None,
    }
}

/// Whether an eligible solution shows the work that its difficulty asks
/// for.
pub open spec fn has_enough_work(solution: Seq<char>) -> bool {
    match solution_difficulty(solution) {
        Some(d) => solution_work(solution) >= d,
        None => false,
    }
}

/// Whether a solution is accepted when it is looked at by itself: it is
/// eligible and shows the work that its difficulty asks for.
pub open spec fn is_accepted(
    secret_key: Seq<char>,
    now: MintTimestamp,
    reference_comment_id: Seq<char>,
    solution: Seq<char>,
) -> bool {
    is_eligible(secret_key, now, reference_comment_id, solution) && has_enough_work(solution)
}

/// Whether no solution that stands before the one at `i` in the batch was
/// accepted for the problem of the same index. A solution that was passed
/// over, be it for want of work, leaves the index free.
pub open spec fn is_first_of_index(
    secret_key: Seq<char>,
    now: MintTimestamp,
    reference_comment_id: Seq<char>,
    solutions: Seq<Seq<char>>,
    i: int,
) -> bool {
    forall|j: int|
        0 <= j < i ==> !(is_accepted(secret_key, now, reference_comment_id, #[trigger] solutions[j])
            && solution_index(solutions[j]) == solution_index(solutions[i]))
}

/// Whether the solution at `i` counts toward the number that is asked for:
/// it is accepted, and none before it was accepted for the same index.
pub open spec fn is_counted(
    secret_key: Seq<char>,
    now: MintTimestamp,
    reference_comment_id: Seq<char>,
    solutions: Seq<Seq<char>>,
    i: int,
) -> bool {
    is_accepted(secret_key, now, reference_comment_id, solutions[i]) && is_first_of_index(
        secret_key,
        now,
        reference_comment_id,
        solutions,
        i,
    )
}

/// Number of the first `n` solutions of the batch that count.
pub open spec fn count_verified(
    secret_key: Seq<char>,
    now: MintTimestamp,
    reference_comment_id: Seq<char>,
    solutions: Seq<Seq<char>>,
    n: int,
) -> nat
    decreases n,
{
    if n <= 0 {
        0
    } else {
        count_verified(secret_key, now, reference_comment_id, solutions, n - 1) + (if is_counted(
            secret_key,
            now,
            reference_comment_id,
            solutions,
            n - 1,
        ) {
            1nat
        } else {
            0nat
        })
    }
}

/// Whether a batch of solutions answers a challenge: at least
/// `solutions_require` of them count.
pub open spec fn is_verified(
    secret_key: Seq<char>,
    now: MintTimestamp,
    reference_comment_id: Seq<char>,
    solutions: Seq<Seq<char>>,
    solutions_require: MintSolutions,
) -> bool {
    count_verified(secret_key, now, reference_comment_id, solutions, solutions.len() as int)
        >= solutions_require
}

/// The indexes for which one of the first `n` solutions of the batch is
/// accepted.
pub open spec fn accepted_indexes(
    secret_key: Seq<char>,
    now: MintTimestamp,
    reference_comment_id: Seq<char>,
    solutions: Seq<Seq<char>>,
    n: int,
) -> Set<MintIndex> {
    Set::new(
        |v: MintIndex|
            exists|j: int|
                0 <= j < n && is_accepted(
                    secret_key,
                    now,
                    reference_comment_id,
                    #[trigger] solutions[j],
                ) && solution_index(solutions[j]) == v,
    )
}

/// Whether no other text gets the nonce of `payload` under the key. This is
/// what the signature is relied on for; it is a matter of the keyed digest
/// and nothing here proves it.
pub open spec fn is_unforged(secret_key: Seq<char>, payload: Seq<char>) -> bool {
    forall|other: Seq<char>|
        other != payload ==> #[trigger] base64_url(signature_bytes(secret_key, other))
            != base64_url(signature_bytes(secret_key, payload))
}

/// A problem with a proof after it.
pub open spec fn with_proof(problem: Seq<char>, proof: Seq<char>) -> Seq<char> {
    problem + seq![':'] + proof
}

/// Whether every answer to `problem` is eligible until the problem expires:
/// whatever proof is put after it, the solution is eligible for the comment
/// at any time before `expire_at`, and is read as an answer to the problem
/// of the given index and difficulty.
pub open spec fn is_answerable(
    secret_key: Seq<char>,
    difficulty: MintDifficulty,
    index: MintIndex,
    comment_id: Seq<char>,
    expire_at: MintTimestamp,
    problem: Seq<char>,
) -> bool {
    forall|proof: Seq<char>, now: MintTimestamp|
        is_word(proof) && now < expire_at ==> {
            &&& #[trigger] is_eligible(secret_key, now, comment_id, with_proof(problem, proof))
            &&& solution_index(with_proof(problem, proof)) == index
            &&& solution_difficulty(with_proof(problem, proof)) == Some(difficulty)
        }
}

/// What is read off an eligible solution.
pub struct Inspected {
    /// Index of the problem that it answers.
    pub index: MintIndex,
    /// Difficulty that it names, where it is one that can be asked for.
    pub difficulty: Option<MintDifficulty>,
}

/// Looks at one solution by itself. Gives nothing for a solution that is
/// not eligible, and else its index and the difficulty that it names, the
/// latter only where it is one that can be asked for.
pub fn inspect_solution(
    secret_key: &str,
    now: MintTimestamp,
    reference_comment_id: &str,
    solution: &str,
) -> (found: Option<Inspected>)
    ensures
        found is Some == is_eligible(secret_key@, now, reference_comment_id@, solution@),
        found is Some ==> found->0.index == solution_index(solution@) && found->0.difficulty
            == solution_difficulty(solution@),
{
    let parsed = match parse_solution(solution) {
        Some(parsed) => parsed,
        None => {
            return None;
        },
    };
    // The nonce must be the one that goes with the fields: this is what
    // keeps a client from changing any of them.
    match vector_to_nonce(
        secret_key,
        parsed.comment_id.as_str(),
        parsed.difficulty.as_str(),
        parsed.index.as_str(),
        parsed.expire_at.as_str(),
    ) {
        Ok(reference_nonce) => {
            if !same_text(parsed.nonce.as_str(), reference_nonce.as_str()) {
                return None;
            }
        },
        Err(_) => {
            return None;
        },
    }
    let expire_chars = chars_of(parsed.expire_at.as_str());
    match parse_decimal(expire_chars.as_slice(), MintTimestamp::MAX) {
        Some(expire_at) => {
            if now >= expire_at {
                return None;
            }
        },
        None => {
            return None;
        },
    }
    if !same_text(parsed.comment_id.as_str(), reference_comment_id) {
        return None;
    }
    proof {
        reveal_strlit("SHA-256");
        assert(ALGORITHM@ =~= algorithm_name());
    }
    if !same_text(parsed.algorithm.as_str(), ALGORITHM) {
        return None;
    }
    let index_chars = chars_of(parsed.index.as_str());
    let index = match parse_decimal(index_chars.as_slice(), MintIndex::MAX as u64) {
        Some(index) => index as MintIndex,
        None => {
            return None;
        },
    };
    let difficulty_chars = chars_of(parsed.difficulty.as_str());
    let difficulty = match parse_decimal(difficulty_chars.as_slice(), MintDifficulty::MAX as u64) {
        Some(difficulty) => Some(difficulty as MintDifficulty),
        None => None,
    };
    Some(Inspected { index, difficulty })
}

/// Checks a batch of solutions against the challenge for
/// `reference_comment_id`, at the time `now` in seconds since the epoch.
/// Each solution is looked at in turn; one that fails a check is passed
/// over and the others are still looked at. Once a solution was accepted
/// for the problem of an index, no later one counts for that index; a
/// solution that was passed over leaves its index free.
pub fn verify(
    secret_key: &str,
    antispam: &ConfigAntispam,
    now: MintTimestamp,
    reference_comment_id: &str,
    solutions: &[String],
) -> (verified: Result<bool, ()>)
    ensures
        verified == Ok::<bool, ()>(
            is_verified(
                secret_key@,
                now,
                reference_comment_id@,
                texts_of(solutions@),
                antispam.solutions_require,
            ),
        ),
{
    broadcast use vstd::std_specs::hash::group_hash_axioms;

    let ghost batch = texts_of(solutions@);
    let mut verified_solutions: usize = 0;
    let mut accepted_indexes: HashSet<MintIndex> = HashSet::new();
    let mut i: usize = 0;
    while i < solutions.len()
        invariant
            0 <= i <= solutions@.len(),
            batch == texts_of(solutions@),
            verified_solutions <= i,
            verified_solutions == count_verified(
                secret_key@,
                now,
                reference_comment_id@,
                batch,
                i as int,
            ),
            forall|v: MintIndex|
                accepted_indexes@.contains(v) <==> exists|j: int|
                    0 <= j < i && is_accepted(
                        secret_key@,
                        now,
                        reference_comment_id@,
                        #[trigger] batch[j],
                    ) && solution_index(batch[j]) == v,
        decreases solutions@.len() - i,
    {
        let solution = solutions[i].as_str();
        assert(batch[i as int] == solution@);
        let ghost seen = accepted_indexes@;
        let mut is_accepted = false;
        match inspect_solution(secret_key, now, reference_comment_id, solution) {
            Some(Inspected { index, difficulty }) => {
                // An index that was accepted before is not looked at
                // again, so that one solved problem handed in many times
                // stays one.
                let is_first = !accepted_indexes.contains(&index);
                proof {
                    if seen.contains(index) {
                        let j = choose|j: int|
                            0 <= j < i && self::is_accepted(
                                secret_key@,
                                now,
                                reference_comment_id@,
                                #[trigger] batch[j],
                            ) && solution_index(batch[j]) == index;
                        assert(!is_first_of_index(
                            secret_key@,
                            now,
                            reference_comment_id@,
                            batch,
                            i as int,
                        ));
                    }
                    assert(is_first == is_first_of_index(
                        secret_key@,
                        now,
                        reference_comment_id@,
                        batch,
                        i as int,
                    ));
                }
                if is_first {
                    match difficulty {
                        Some(difficulty) => {
                            let (is_verified, _) = verify_solution(difficulty, solution);
                            if is_verified {
                                accepted_indexes.insert(index);
                                verified_solutions = verified_solutions + 1;
                                is_accepted = true;
                            }
                        },
                        None => {},
                    }
                }
            },
            None => {},
        }
        proof {
            assert(is_accepted == is_counted(
                secret_key@,
                now,
                reference_comment_id@,
                batch,
                i as int,
            ));
            assert forall|v: MintIndex|
                accepted_indexes@.contains(v) <==> exists|j: int|
                    0 <= j < i + 1 && self::is_accepted(
                        secret_key@,
                        now,
                        reference_comment_id@,
                        #[trigger] batch[j],
                    ) && solution_index(batch[j]) == v by {
                if accepted_indexes@.contains(v) {
                    if seen.contains(v) {
                        let j = choose|j: int|
                            0 <= j < i && self::is_accepted(
                                secret_key@,
                                now,
                                reference_comment_id@,
                                #[trigger] batch[j],
                            ) && solution_index(batch[j]) == v;
                        assert(0 <= j < i + 1);
                    } else {
                        assert(self::is_accepted(
                            secret_key@,
                            now,
                            reference_comment_id@,
                            batch[i as int],
                        ) && solution_index(batch[i as int]) == v);
                    }
                } else {
                    if exists|j: int|
                        0 <= j < i + 1 && self::is_accepted(
                            secret_key@,
                            now,
                            reference_comment_id@,
                            #[trigger] batch[j],
                        ) && solution_index(batch[j]) == v {
                        let j = choose|j: int|
                            0 <= j < i + 1 && self::is_accepted(
                                secret_key@,
                                now,
                                reference_comment_id@,
                                #[trigger] batch[j],
                            ) && solution_index(batch[j]) == v;
                        if j < i {
                            assert(seen.contains(v));
                        }
                    }
                }
            }
        }
        i = i + 1;
    }
    Ok(verified_solutions >= antispam.solutions_require as usize)
}

/// Makes the challenge for a comment at the time `now`, in seconds since
/// the epoch: one problem for each index below `problems_parallel`, all of
/// them valid for `VALIDITY` seconds. Fails only when the expiry is beyond
/// what a timestamp can hold.
pub fn challenge(
    secret_key: &str,
    antispam: &ConfigAntispam,
    now: MintTimestamp,
    comment_id: &str,
) -> (made: Result<(Vec<String>, MintDifficulty, MintSolutions), ()>)
    ensures
        made is Ok == (now + VALIDITY <= MintTimestamp::MAX),
        made is Ok ==> {
            let (problems, difficulty, solutions_require) = made->Ok_0;
            &&& problems@.len() == antispam.problems_parallel
            &&& forall|i: int|
                0 <= i < problems@.len() ==> (#[trigger] problems@[i])@ == problem(
                    secret_key@,
                    antispam.difficulty,
                    i as MintIndex,
                    comment_id@,
                    (now + VALIDITY) as MintTimestamp,
                )
            &&& is_word(comment_id@) && !comment_id@.contains('/') ==> forall|i: int|
                0 <= i < problems@.len() ==> is_answerable(
                    secret_key@,
                    antispam.difficulty,
                    i as MintIndex,
                    comment_id@,
                    (now + VALIDITY) as MintTimestamp,
                    (#[trigger] problems@[i])@,
                )
            &&& difficulty == antispam.difficulty
            &&& solutions_require == antispam.solutions_require
        },
{
    if now > MintTimestamp::MAX - VALIDITY {
        return Err(());
    }
    let expire_at = now + VALIDITY;
    let mut problems: Vec<String> = Vec::new();
    let mut index: MintIndex = 0;
    while index < antispam.problems_parallel
        invariant
            0 <= index <= antispam.problems_parallel,
            expire_at == now + VALIDITY,
            problems@.len() == index,
            forall|i: int|
                0 <= i < problems@.len() ==> (#[trigger] problems@[i])@ == problem(
                    secret_key@,
                    antispam.difficulty,
                    i as MintIndex,
                    comment_id@,
                    expire_at,
                ),
            is_word(comment_id@) && !comment_id@.contains('/') ==> forall|i: int|
                0 <= i < problems@.len() ==> is_answerable(
                    secret_key@,
                    antispam.difficulty,
                    i as MintIndex,
                    comment_id@,
                    expire_at,
                    (#[trigger] problems@[i])@,
                ),
        decreases antispam.problems_parallel - index,
    {
        match make_problem(secret_key, antispam.difficulty, index, comment_id, expire_at) {
            Ok(made) => {
                problems.push(made);
            },
            Err(_) => {
                return Err(());
            },
        }
        index = index + 1;
    }
    Ok((problems, antispam.difficulty, antispam.solutions_require))
}

/// A text that holds no `c`, then `c`, then any text, is cut at that `c`.
pub proof fn lemma_cut_joined(x: Seq<char>, c: char, y: Seq<char>)
    requires
        !x.contains(c),
    ensures
        cut(x + seq![c] + y, c) == Some(Parts { before: x, after: y }),
{
    let s = x + seq![c] + y;
    lemma_first_index(s, c);
    assert forall|j: int| 0 <= j < x.len() implies s[j] != c by {
        assert(s[j] == x[j]);
        assert(x.contains(x[j]));
    }
    assert(s[x.len() as int] == c);
    assert(is_first_index(s, c, x.len() as int));
    assert(s.take(x.len() as int) =~= x);
    assert(s.skip(x.len() as int + 1) =~= y);
}

/// Where a text is cut, the two parts and the character between them make
/// up the text, and the first part holds no such character.
pub proof fn lemma_cut_parts(s: Seq<char>, c: char)
    requires
        cut(s, c) is Some,
    ensures
        s == cut(s, c)->0.before + seq![c] + cut(s, c)->0.after,
        !cut(s, c)->0.before.contains(c),
{
    lemma_first_index(s, c);
    let k = first_index(s, c);
    let x = s.take(k);
    assert(s =~= x + seq![c] + s.skip(k + 1));
    if x.contains(c) {
        let i = choose|i: int| 0 <= i < x.len() && x[i] == c;
        assert(s[i] == c);
    }
}

/// A run of digits holds neither `:` nor `/`.
pub proof fn lemma_digits_hold_no_separator(s: Seq<char>)
    requires
        is_digits(s),
    ensures
        !s.contains(':'),
        !s.contains('/'),
{
    if s.contains(':') {
        let i = choose|i: int| 0 <= i < s.len() && s[i] == ':';
        assert(super::text::is_digit(s[i]));
    }
    if s.contains('/') {
        let i = choose|i: int| 0 <= i < s.len() && s[i] == '/';
        assert(super::text::is_digit(s[i]));
    }
}

/// Parsing is the inverse of writing: the text of well-formed fields is
/// parsed into those fields.
pub proof fn lemma_parse_written(f: SolutionFields)
    requires
        fields_well_formed(f),
    ensures
        parsed_solution(solution_text(f)) == Some(f),
{
    let colon = seq![':'];
    let rest4 = f.algorithm + colon + f.proof;
    let rest3 = f.nonce + colon + rest4;
    let target = f.comment_id + seq!['/'] + f.index;
    let rest2 = target + colon + rest3;
    let rest1 = f.expire_at + colon + rest2;
    let rest0 = f.difficulty + colon + rest1;
    let s = solution_text(f);
    assert(s =~= seq!['H', ':'] + rest0);
    assert(s.skip(2) =~= rest0);
    lemma_digits_hold_no_separator(f.difficulty);
    lemma_digits_hold_no_separator(f.expire_at);
    lemma_digits_hold_no_separator(f.index);
    assert(!target.contains(':')) by {
        if target.contains(':') {
            let i = choose|i: int| 0 <= i < target.len() && target[i] == ':';
            if i < f.comment_id.len() {
                assert(f.comment_id[i] == ':');
            } else if i > f.comment_id.len() {
                assert(f.index[i - f.comment_id.len() - 1] == ':');
            }
        }
    }
    lemma_cut_joined(f.difficulty, ':', rest1);
    lemma_cut_joined(f.expire_at, ':', rest2);
    lemma_cut_joined(target, ':', rest3);
    lemma_cut_joined(f.comment_id, '/', f.index);
    lemma_cut_joined(f.nonce, ':', rest4);
    lemma_cut_joined(f.algorithm, ':', f.proof);
    assert(cut_fields(s) == Some(f));
}

/// What parsing gives is well formed and is written as the text that was
/// parsed: a text is parsed if and only if it follows the wire format.
pub proof fn lemma_parsed_is_written(s: Seq<char>)
    requires
        parsed_solution(s) is Some,
    ensures
        fields_well_formed(parsed_solution(s)->0),
        solution_text(parsed_solution(s)->0) == s,
{
    let f = parsed_solution(s)->0;
    let rest0 = s.skip(2);
    lemma_cut_parts(rest0, ':');
    let rest1 = cut(rest0, ':')->0.after;
    lemma_cut_parts(rest1, ':');
    let rest2 = cut(rest1, ':')->0.after;
    lemma_cut_parts(rest2, ':');
    let target = cut(rest2, ':')->0.before;
    let rest3 = cut(rest2, ':')->0.after;
    lemma_cut_parts(target, '/');
    lemma_cut_parts(rest3, ':');
    let rest4 = cut(rest3, ':')->0.after;
    lemma_cut_parts(rest4, ':');
    assert(s =~= seq!['H', ':'] + rest0);
    assert(solution_text(f) =~= s);
}

/// The problems that are handed out can be answered: where the comment
/// identifier holds neither `:` nor `/` and the nonce holds no `:`, the
/// problem made for given parameters is answerable for them.
pub proof fn lemma_problem_is_answerable(
    secret_key: Seq<char>,
    difficulty: MintDifficulty,
    index: MintIndex,
    comment_id: Seq<char>,
    expire_at: MintTimestamp,
)
    requires
        is_word(comment_id),
        !comment_id.contains('/'),
        is_word(
            nonce(
                secret_key,
                comment_id,
                decimal(difficulty as nat),
                decimal(index as nat),
                decimal(expire_at as nat),
            ),
        ),
    ensures
        is_answerable(
            secret_key,
            difficulty,
            index,
            comment_id,
            expire_at,
            problem(secret_key, difficulty, index, comment_id, expire_at),
        ),
{
    let made = problem(secret_key, difficulty, index, comment_id, expire_at);
    super::text::lemma_decimal_round_trip(difficulty as nat);
    super::text::lemma_decimal_round_trip(index as nat);
    super::text::lemma_decimal_round_trip(expire_at as nat);
    assert forall|proof: Seq<char>, now: MintTimestamp|
        is_word(proof) && now < expire_at implies {
        &&& #[trigger] is_eligible(secret_key, now, comment_id, with_proof(made, proof))
        &&& solution_index(with_proof(made, proof)) == index
        &&& solution_difficulty(with_proof(made, proof)) == Some(difficulty)
    } by {
        let f = SolutionFields {
            difficulty: decimal(difficulty as nat),
            expire_at: decimal(expire_at as nat),
            comment_id,
            index: decimal(index as nat),
            nonce: nonce(
                secret_key,
                comment_id,
                decimal(difficulty as nat),
                decimal(index as nat),
                decimal(expire_at as nat),
            ),
            algorithm: algorithm_name(),
            proof,
        };
        assert(is_word(algorithm_name())) by {
            if algorithm_name().contains(':') {
                let i = choose|i: int|
                    0 <= i < algorithm_name().len() && algorithm_name()[i] == ':';
                assert(false);
            }
        }
        assert(solution_text(f) == with_proof(made, proof));
        lemma_parse_written(f);
    }
}

/// A solution that has expired does not count, whatever work it shows and
/// wherever it stands in the batch.
pub proof fn lemma_expired_never_counts(
    secret_key: Seq<char>,
    now: MintTimestamp,
    reference_comment_id: Seq<char>,
    solutions: Seq<Seq<char>>,
    i: int,
)
    requires
        0 <= i < solutions.len(),
        parsed_solution(solutions[i]) is Some,
        is_digits(parsed_solution(solutions[i])->0.expire_at),
        super::text::decimal_value(parsed_solution(solutions[i])->0.expire_at) <= now,
    ensures
        !is_eligible(secret_key, now, reference_comment_id, solutions[i]),
        !is_counted(secret_key, now, reference_comment_id, solutions, i),
{
}

/// A solution counts only if its nonce is the one that goes with its own
/// fields, it is for the comment in question, and it shows the work that
/// its own difficulty asks for.
pub proof fn lemma_counted_is_bound(
    secret_key: Seq<char>,
    now: MintTimestamp,
    reference_comment_id: Seq<char>,
    solutions: Seq<Seq<char>>,
    i: int,
)
    requires
        0 <= i < solutions.len(),
        is_counted(secret_key, now, reference_comment_id, solutions, i),
    ensures
        parsed_solution(solutions[i]) is Some,
        ({
            let f = parsed_solution(solutions[i])->0;
            &&& f.nonce == nonce(secret_key, f.comment_id, f.difficulty, f.index, f.expire_at)
            &&& f.comment_id == reference_comment_id
            &&& f.algorithm == algorithm_name()
            &&& now < super::text::decimal_value(f.expire_at)
            &&& solution_work(solutions[i]) >= super::text::decimal_value(f.difficulty)
        }),
{
}

/// How many of the first `n` solutions count depends on those alone.
pub proof fn lemma_count_of_prefix(
    secret_key: Seq<char>,
    now: MintTimestamp,
    reference_comment_id: Seq<char>,
    solutions: Seq<Seq<char>>,
    longer: Seq<Seq<char>>,
    n: int,
)
    requires
        0 <= n <= solutions.len() <= longer.len(),
        forall|k: int| 0 <= k < solutions.len() ==> solutions[k] == longer[k],
    ensures
        count_verified(secret_key, now, reference_comment_id, solutions, n) == count_verified(
            secret_key,
            now,
            reference_comment_id,
            longer,
            n,
        ),
    decreases n,
{
    if n > 0 {
        lemma_count_of_prefix(secret_key, now, reference_comment_id, solutions, longer, n - 1);
        assert(is_first_of_index(secret_key, now, reference_comment_id, solutions, n - 1)
            == is_first_of_index(secret_key, now, reference_comment_id, longer, n - 1));
    }
}

/// No more solutions count than there are.
pub proof fn lemma_count_bounded(
    secret_key: Seq<char>,
    now: MintTimestamp,
    reference_comment_id: Seq<char>,
    solutions: Seq<Seq<char>>,
    n: int,
)
    requires
        0 <= n,
    ensures
        count_verified(secret_key, now, reference_comment_id, solutions, n) <= n,
    decreases n,
{
    if n > 0 {
        lemma_count_bounded(secret_key, now, reference_comment_id, solutions, n - 1);
    }
}

/// Handing in a solution once more adds nothing: a batch with a solution
/// added that it already holds has as many counted solutions as without
/// it.
pub proof fn lemma_duplicate_counts_once(
    secret_key: Seq<char>,
    now: MintTimestamp,
    reference_comment_id: Seq<char>,
    solutions: Seq<Seq<char>>,
    again: Seq<char>,
)
    requires
        solutions.contains(again),
    ensures
        count_verified(
            secret_key,
            now,
            reference_comment_id,
            solutions.push(again),
            solutions.len() as int + 1,
        ) == count_verified(
            secret_key,
            now,
            reference_comment_id,
            solutions,
            solutions.len() as int,
        ),
        forall|solutions_require: MintSolutions|
            is_verified(
                secret_key,
                now,
                reference_comment_id,
                solutions.push(again),
                solutions_require,
            ) == is_verified(secret_key, now, reference_comment_id, solutions, solutions_require),
{
    let longer = solutions.push(again);
    let n = solutions.len() as int;
    lemma_count_of_prefix(secret_key, now, reference_comment_id, solutions, longer, n);
    let j = choose|j: int| 0 <= j < solutions.len() && solutions[j] == again;
    assert(longer[j] == longer[n]);
    assert(!is_counted(secret_key, now, reference_comment_id, longer, n));
}

/// Two solutions for the problem of one index count once at most.
pub proof fn lemma_one_per_index(
    secret_key: Seq<char>,
    now: MintTimestamp,
    reference_comment_id: Seq<char>,
    solutions: Seq<Seq<char>>,
    i: int,
    j: int,
)
    requires
        0 <= i < j < solutions.len(),
        is_counted(secret_key, now, reference_comment_id, solutions, i),
        is_counted(secret_key, now, reference_comment_id, solutions, j),
    ensures
        solution_index(solutions[i]) != solution_index(solutions[j]),
{
}

/// Solutions that count are counted whatever else the batch holds: where
/// each position of a set counts, at least as many solutions count as the
/// set has positions.
pub proof fn lemma_count_at_least(
    secret_key: Seq<char>,
    now: MintTimestamp,
    reference_comment_id: Seq<char>,
    solutions: Seq<Seq<char>>,
    positions: Set<int>,
    n: int,
)
    requires
        0 <= n <= solutions.len(),
        positions.finite(),
        forall|p: int|
            positions.contains(p) ==> 0 <= p < n && is_counted(
                secret_key,
                now,
                reference_comment_id,
                solutions,
                p,
            ),
    ensures
        count_verified(secret_key, now, reference_comment_id, solutions, n) >= positions.len(),
    decreases n,
{
    if n == 0 {
        assert(positions =~= Set::<int>::empty());
    } else if positions.contains(n - 1) {
        lemma_count_at_least(
            secret_key,
            now,
            reference_comment_id,
            solutions,
            positions.remove(n - 1),
            n - 1,
        );
    } else {
        lemma_count_at_least(secret_key, now, reference_comment_id, solutions, positions, n - 1);
    }
}

/// A solution added to a batch takes nothing from what counted before.
pub proof fn lemma_more_never_hurts(
    secret_key: Seq<char>,
    now: MintTimestamp,
    reference_comment_id: Seq<char>,
    solutions: Seq<Seq<char>>,
    added: Seq<char>,
    solutions_require: MintSolutions,
)
    requires
        is_verified(secret_key, now, reference_comment_id, solutions, solutions_require),
    ensures
        is_verified(
            secret_key,
            now,
            reference_comment_id,
            solutions.push(added),
            solutions_require,
        ),
{
    lemma_count_of_prefix(
        secret_key,
        now,
        reference_comment_id,
        solutions,
        solutions.push(added),
        solutions.len() as int,
    );
}

/// A text is parsed if and only if it follows the wire format, and then in
/// one way only: fields that are well formed and are written as the same
/// text are the same fields.
pub proof fn lemma_parsed_iff_wire_format(s: Seq<char>)
    ensures
        parsed_solution(s) is Some <==> follows_wire_format(s),
        forall|f: SolutionFields|
            fields_well_formed(f) && #[trigger] solution_text(f) == s ==> parsed_solution(s)
                == Some(f),
{
    if parsed_solution(s) is Some {
        lemma_parsed_is_written(s);
        assert(fields_well_formed(parsed_solution(s)->0) && solution_text(parsed_solution(s)->0)
            == s);
    }
    assert forall|f: SolutionFields|
        fields_well_formed(f) && #[trigger] solution_text(f) == s implies parsed_solution(s)
        == Some(f) by {
        lemma_parse_written(f);
    }
}

/// What is signed for a nonce holds each field apart: two problems whose
/// difficulty, index and expiry are numbers are signed as the same text
/// only if they agree in every field. So a solution whose difficulty,
/// index, comment or expiry was changed is checked against the signature
/// of another text than the one that its nonce was made for.
pub proof fn lemma_nonce_payload_binds_fields(
    comment_id: Seq<char>,
    difficulty: Seq<char>,
    index: Seq<char>,
    expire_at: Seq<char>,
    other_comment_id: Seq<char>,
    other_difficulty: Seq<char>,
    other_index: Seq<char>,
    other_expire_at: Seq<char>,
)
    requires
        is_digits(difficulty) && is_digits(index) && is_digits(expire_at),
        is_digits(other_difficulty) && is_digits(other_index) && is_digits(other_expire_at),
        nonce_payload(comment_id, difficulty, index, expire_at) == nonce_payload(
            other_comment_id,
            other_difficulty,
            other_index,
            other_expire_at,
        ),
    ensures
        comment_id == other_comment_id,
        difficulty == other_difficulty,
        index == other_index,
        expire_at == other_expire_at,
{
    let mark = seq!['>'];
    let tail1 = comment_id + mark + expire_at;
    let tail2 = other_comment_id + mark + other_expire_at;
    let rest1 = index + mark + tail1;
    let rest2 = other_index + mark + tail2;
    lemma_digits_hold_no_mark(difficulty);
    lemma_digits_hold_no_mark(index);
    lemma_digits_hold_no_mark(expire_at);
    lemma_digits_hold_no_mark(other_difficulty);
    lemma_digits_hold_no_mark(other_index);
    lemma_digits_hold_no_mark(other_expire_at);
    assert(nonce_payload(comment_id, difficulty, index, expire_at) =~= difficulty + mark + rest1);
    assert(nonce_payload(other_comment_id, other_difficulty, other_index, other_expire_at)
        =~= other_difficulty + mark + rest2);
    super::text::lemma_joined_parts_by_start(difficulty, rest1, other_difficulty, rest2, '>');
    super::text::lemma_joined_parts_by_start(index, tail1, other_index, tail2, '>');
    super::text::lemma_joined_parts_by_end(
        comment_id,
        expire_at,
        other_comment_id,
        other_expire_at,
        '>',
    );
}

/// A run of digits holds no `>`.
proof fn lemma_digits_hold_no_mark(s: Seq<char>)
    requires
        is_digits(s),
    ensures
        !s.contains('>'),
{
    if s.contains('>') {
        let i = choose|i: int| 0 <= i < s.len() && s[i] == '>';
        assert(super::text::is_digit(s[i]));
    }
}

/// Where every one of the first `n` solutions counts, `n` solutions count.
proof fn lemma_all_counted(
    secret_key: Seq<char>,
    now: MintTimestamp,
    reference_comment_id: Seq<char>,
    solutions: Seq<Seq<char>>,
    n: int,
)
    requires
        0 <= n <= solutions.len(),
        forall|k: int|
            0 <= k < n ==> is_counted(secret_key, now, reference_comment_id, solutions, k),
    ensures
        count_verified(secret_key, now, reference_comment_id, solutions, n) == n,
    decreases n,
{
    if n > 0 {
        lemma_all_counted(secret_key, now, reference_comment_id, solutions, n - 1);
    }
}

/// A challenge that was solved is verified. Take problems that are
/// answerable for a comment, as `challenge` makes them, and a batch in
/// which each solution is one of the problems with a proof after it, no
/// problem is answered twice, and each solution shows the work that the
/// difficulty asks for. Handed in before the problems expire, the batch is
/// verified as soon as it holds as many solutions as are asked for.
pub proof fn lemma_solved_challenge_is_verified(
    secret_key: Seq<char>,
    now: MintTimestamp,
    comment_id: Seq<char>,
    difficulty: MintDifficulty,
    expire_at: MintTimestamp,
    problems: Seq<Seq<char>>,
    picks: Seq<int>,
    proofs: Seq<Seq<char>>,
    solutions: Seq<Seq<char>>,
    solutions_require: MintSolutions,
)
    requires
        now < expire_at,
        problems.len() <= MintIndex::MAX + 1,
        forall|i: int|
            0 <= i < problems.len() ==> is_answerable(
                secret_key,
                difficulty,
                i as MintIndex,
                comment_id,
                expire_at,
                #[trigger] problems[i],
            ),
        picks.len() == solutions.len(),
        proofs.len() == solutions.len(),
        forall|k: int|
            0 <= k < solutions.len() ==> {
                &&& 0 <= #[trigger] picks[k] < problems.len()
                &&& is_word(proofs[k])
                &&& solutions[k] == with_proof(problems[picks[k]], proofs[k])
                &&& solution_work(solutions[k]) >= difficulty
            },
        forall|k: int, l: int| 0 <= k < l < solutions.len() ==> picks[k] != picks[l],
        solutions.len() >= solutions_require,
    ensures
        count_verified(secret_key, now, comment_id, solutions, solutions.len() as int)
            == solutions.len(),
        is_verified(secret_key, now, comment_id, solutions, solutions_require),
{
    assert forall|k: int| 0 <= k < solutions.len() implies is_eligible(
        secret_key,
        now,
        comment_id,
        #[trigger] solutions[k],
    ) && solution_index(solutions[k]) == picks[k] && solution_difficulty(solutions[k]) == Some(
        difficulty,
    ) by {
        let problem = problems[picks[k]];
        assert(is_answerable(
            secret_key,
            difficulty,
            picks[k] as MintIndex,
            comment_id,
            expire_at,
            problem,
        ));
        assert(is_eligible(secret_key, now, comment_id, with_proof(problem, proofs[k])));
    }
    assert forall|k: int| 0 <= k < solutions.len() implies is_counted(
        secret_key,
        now,
        comment_id,
        solutions,
        k,
    ) by {
        assert(is_eligible(secret_key, now, comment_id, solutions[k]));
        assert forall|j: int| 0 <= j < k implies !(is_accepted(
            secret_key,
            now,
            comment_id,
            #[trigger] solutions[j],
        ) && solution_index(solutions[j]) == solution_index(solutions[k])) by {
            assert(is_eligible(secret_key, now, comment_id, solutions[j]));
            assert(picks[j] != picks[k]);
        }
    }
    lemma_all_counted(secret_key, now, comment_id, solutions, solutions.len() as int);
}

/// As many solutions count as there are indexes with an accepted solution.
/// So the order of the batch does not matter, and what is not accepted is
/// as if it were not there.
pub proof fn lemma_count_is_number_of_indexes(
    secret_key: Seq<char>,
    now: MintTimestamp,
    reference_comment_id: Seq<char>,
    solutions: Seq<Seq<char>>,
    n: int,
)
    requires
        0 <= n <= solutions.len(),
    ensures
        accepted_indexes(secret_key, now, reference_comment_id, solutions, n).finite(),
        count_verified(secret_key, now, reference_comment_id, solutions, n) == accepted_indexes(
            secret_key,
            now,
            reference_comment_id,
            solutions,
            n,
        ).len(),
    decreases n,
{
    let all = accepted_indexes(secret_key, now, reference_comment_id, solutions, n);
    if n == 0 {
        assert(all =~= Set::<MintIndex>::empty());
    } else {
        lemma_count_is_number_of_indexes(secret_key, now, reference_comment_id, solutions, n - 1);
        let before = accepted_indexes(secret_key, now, reference_comment_id, solutions, n - 1);
        let index = solution_index(solutions[n - 1]);
        if is_accepted(secret_key, now, reference_comment_id, solutions[n - 1]) {
            assert(all =~= before.insert(index)) by {
                assert forall|v: MintIndex| all.contains(v) <==> before.insert(index).contains(
                    v,
                ) by {
                    if all.contains(v) {
                        let j = choose|j: int|
                            0 <= j < n && is_accepted(
                                secret_key,
                                now,
                                reference_comment_id,
                                #[trigger] solutions[j],
                            ) && solution_index(solutions[j]) == v;
                        if j < n - 1 {
                            assert(before.contains(v));
                        }
                    }
                    if before.contains(v) {
                        let j = choose|j: int|
                            0 <= j < n - 1 && is_accepted(
                                secret_key,
                                now,
                                reference_comment_id,
                                #[trigger] solutions[j],
                            ) && solution_index(solutions[j]) == v;
                        assert(0 <= j < n);
                    }
                }
            }
            if before.contains(index) {
                let j = choose|j: int|
                    0 <= j < n - 1 && is_accepted(
                        secret_key,
                        now,
                        reference_comment_id,
                        #[trigger] solutions[j],
                    ) && solution_index(solutions[j]) == index;
                assert(!is_first_of_index(
                    secret_key,
                    now,
                    reference_comment_id,
                    solutions,
                    n - 1,
                ));
            } else {
                assert(is_first_of_index(secret_key, now, reference_comment_id, solutions, n - 1));
            }
        } else {
            assert(all =~= before) by {
                assert forall|v: MintIndex| all.contains(v) <==> before.contains(v) by {
                    if all.contains(v) {
                        let j = choose|j: int|
                            0 <= j < n && is_accepted(
                                secret_key,
                                now,
                                reference_comment_id,
                                #[trigger] solutions[j],
                            ) && solution_index(solutions[j]) == v;
                        assert(j < n - 1);
                    }
                    if before.contains(v) {
                        let j = choose|j: int|
                            0 <= j < n - 1 && is_accepted(
                                secret_key,
                                now,
                                reference_comment_id,
                                #[trigger] solutions[j],
                            ) && solution_index(solutions[j]) == v;
                        assert(0 <= j < n);
                    }
                }
            }
        }
    }
}

/// The indexes of the first `k` picks.
spec fn picked_indexes(picks: Seq<int>, k: int) -> Set<MintIndex> {
    Set::new(|v: MintIndex| exists|i: int| 0 <= i < k && #[trigger] picks[i] == v)
}

/// Picks that are all different make as many indexes as there are picks.
proof fn lemma_picked_indexes(picks: Seq<int>, k: int)
    requires
        0 <= k <= picks.len(),
        forall|i: int| 0 <= i < picks.len() ==> 0 <= #[trigger] picks[i] <= MintIndex::MAX,
        forall|i: int, j: int| 0 <= i < j < picks.len() ==> picks[i] != picks[j],
    ensures
        picked_indexes(picks, k).finite(),
        picked_indexes(picks, k).len() == k,
    decreases k,
{
    if k == 0 {
        assert(picked_indexes(picks, k) =~= Set::<MintIndex>::empty());
    } else {
        lemma_picked_indexes(picks, k - 1);
        let before = picked_indexes(picks, k - 1);
        let last = picks[k - 1] as MintIndex;
        assert(!before.contains(last)) by {
            if before.contains(last) {
                let i = choose|i: int| 0 <= i < k - 1 && #[trigger] picks[i] == last;
                assert(picks[i] != picks[k - 1]);
            }
        }
        assert(picked_indexes(picks, k) =~= before.insert(last)) by {
            assert forall|v: MintIndex|
                picked_indexes(picks, k).contains(v) <==> before.insert(last).contains(v) by {
                if picked_indexes(picks, k).contains(v) {
                    let i = choose|i: int| 0 <= i < k && #[trigger] picks[i] == v;
                    if i < k - 1 {
                        assert(before.contains(v));
                    }
                }
                if before.contains(v) {
                    let i = choose|i: int| 0 <= i < k - 1 && #[trigger] picks[i] == v;
                    assert(0 <= i < k);
                }
                if v == last {
                    assert(picks[k - 1] == v);
                }
            }
        }
    }
}

/// Enough solved problems are enough, whatever else the batch holds and in
/// whatever order. Take problems that are answerable for a comment, as
/// `challenge` makes them, and a batch handed in before they expire. Where
/// at as many places of the batch as solutions are asked for there stands
/// one of the problems with a proof after it that shows the work asked
/// for, each place with another problem, the batch is verified. What
/// stands at the other places, be it malformed, expired, short of work or
/// handed in twice, takes nothing from that.
pub proof fn lemma_solved_problems_are_enough(
    secret_key: Seq<char>,
    now: MintTimestamp,
    comment_id: Seq<char>,
    difficulty: MintDifficulty,
    expire_at: MintTimestamp,
    problems: Seq<Seq<char>>,
    solutions: Seq<Seq<char>>,
    places: Seq<int>,
    picks: Seq<int>,
    proofs: Seq<Seq<char>>,
    solutions_require: MintSolutions,
)
    requires
        now < expire_at,
        problems.len() <= MintIndex::MAX + 1,
        forall|i: int|
            0 <= i < problems.len() ==> is_answerable(
                secret_key,
                difficulty,
                i as MintIndex,
                comment_id,
                expire_at,
                #[trigger] problems[i],
            ),
        picks.len() == places.len(),
        proofs.len() == places.len(),
        forall|k: int|
            0 <= k < places.len() ==> {
                &&& 0 <= #[trigger] places[k] < solutions.len()
                &&& 0 <= picks[k] < problems.len()
                &&& is_word(proofs[k])
                &&& solutions[places[k]] == with_proof(problems[picks[k]], proofs[k])
                &&& solution_work(solutions[places[k]]) >= difficulty
            },
        forall|k: int, l: int| 0 <= k < l < picks.len() ==> picks[k] != picks[l],
        places.len() >= solutions_require,
    ensures
        is_verified(secret_key, now, comment_id, solutions, solutions_require),
{
    let n = solutions.len() as int;
    let accepted = accepted_indexes(secret_key, now, comment_id, solutions, n);
    let picked = picked_indexes(picks, picks.len() as int);
    lemma_count_is_number_of_indexes(secret_key, now, comment_id, solutions, n);
    assert forall|i: int| 0 <= i < picks.len() implies 0 <= #[trigger] picks[i]
        <= MintIndex::MAX by {
        assert(0 <= places[i] < solutions.len());
    }
    lemma_picked_indexes(picks, picks.len() as int);
    assert(picked.subset_of(accepted)) by {
        assert forall|v: MintIndex| picked.contains(v) implies accepted.contains(v) by {
            let k = choose|k: int| 0 <= k < picks.len() && #[trigger] picks[k] == v;
            assert(0 <= places[k] < solutions.len());
            let problem = problems[picks[k]];
            assert(is_answerable(
                secret_key,
                difficulty,
                picks[k] as MintIndex,
                comment_id,
                expire_at,
                problem,
            ));
            assert(is_eligible(secret_key, now, comment_id, with_proof(problem, proofs[k])));
            assert(is_accepted(secret_key, now, comment_id, solutions[places[k]]));
            assert(solution_index(solutions[places[k]]) == v);
        }
    }
    vstd::set_lib::lemma_len_subset(picked, accepted);
}

/// A solution whose fields were changed and whose nonce was kept is passed
/// over. Take the nonce made for a problem, signed so that no other text
/// gets the same nonce. A solution that carries this nonce with another
/// difficulty, index, comment or expiry than the problem had is not
/// eligible, at any time and for any comment, so that it counts in no
/// batch.
pub proof fn lemma_changed_field_is_rejected(
    secret_key: Seq<char>,
    now: MintTimestamp,
    reference_comment_id: Seq<char>,
    difficulty: MintDifficulty,
    index: MintIndex,
    comment_id: Seq<char>,
    expire_at: MintTimestamp,
    solution: Seq<char>,
)
    requires
        is_unforged(
            secret_key,
            nonce_payload(
                comment_id,
                decimal(difficulty as nat),
                decimal(index as nat),
                decimal(expire_at as nat),
            ),
        ),
        parsed_solution(solution) is Some,
        parsed_solution(solution)->0.nonce == nonce(
            secret_key,
            comment_id,
            decimal(difficulty as nat),
            decimal(index as nat),
            decimal(expire_at as nat),
        ),
        ({
            let f = parsed_solution(solution)->0;
            ||| f.difficulty != decimal(difficulty as nat)
            ||| f.index != decimal(index as nat)
            ||| f.comment_id != comment_id
            ||| f.expire_at != decimal(expire_at as nat)
        }),
    ensures
        !is_eligible(secret_key, now, reference_comment_id, solution),
        !is_accepted(secret_key, now, reference_comment_id, solution),
        forall|solutions_require: MintSolutions|
            solutions_require >= 1 ==> !is_verified(
                secret_key,
                now,
                reference_comment_id,
                seq![solution],
                solutions_require,
            ),
{
    let f = parsed_solution(solution)->0;
    let issued = nonce_payload(
        comment_id,
        decimal(difficulty as nat),
        decimal(index as nat),
        decimal(expire_at as nat),
    );
    let changed = nonce_payload(f.comment_id, f.difficulty, f.index, f.expire_at);
    super::text::lemma_decimal_round_trip(difficulty as nat);
    super::text::lemma_decimal_round_trip(index as nat);
    super::text::lemma_decimal_round_trip(expire_at as nat);
    if changed == issued {
        lemma_nonce_payload_binds_fields(
            f.comment_id,
            f.difficulty,
            f.index,
            f.expire_at,
            comment_id,
            decimal(difficulty as nat),
            decimal(index as nat),
            decimal(expire_at as nat),
        );
    }
    assert(base64_url(signature_bytes(secret_key, changed)) != base64_url(
        signature_bytes(secret_key, issued),
    ));
    let batch = seq![solution];
    assert(batch[0] == solution);
    assert(count_verified(secret_key, now, reference_comment_id, batch, 0) == 0);
    assert(count_verified(secret_key, now, reference_comment_id, batch, 1) == 0);
}

} // verus!
