//! Decimal numbers and small string tools shared by the other helpers.

use vstd::prelude::*;

verus! {

/// `String::push` of std appends one character to the end of the string.
pub assume_specification[ String::push ](s: &mut String, c: char)
    ensures
        final(s)@ == old(s)@.push(c),
;

/// `str::to_lowercase` of std: the lower-case form of `s`, as Unicode
/// defines it. The result depends on the characters of `s` alone.
pub uninterp spec fn lowercase(s: Seq<char>) -> Seq<char>;

/// Calls `str::to_lowercase`.
#[verifier::external_body]
pub(crate) fn to_lowercase(s: &str) -> (lower: String)
    ensures
        lower@ == lowercase(s@),
{
    s.to_lowercase()
}

/// Whether two strings hold the same text. Every byte is looked at, whatever
/// the earlier ones were, so that the time taken does not tell where two
/// texts of one length first differ.
pub fn same_text(a: &str, b: &str) -> (same: bool)
    ensures
        same == (a@ == b@),
{
    let x = a.as_bytes();
    let y = b.as_bytes();
    proof {
        vstd::utf8::encode_utf8_decode_utf8(a@);
        vstd::utf8::encode_utf8_decode_utf8(b@);
    }
    if x.len() != y.len() {
        return false;
    }
    let mut diff: u8 = 0;
    let mut i: usize = 0;
    while i < x.len()
        invariant
            0 <= i <= x.len(),
            x.len() == y.len(),
            (diff == 0) == (x@.take(i as int) =~= y@.take(i as int)),
        decreases x.len() - i,
    {
        let p = x[i];
        let q = y[i];
        let ghost before = diff;
        diff = diff | (p ^ q);
        proof {
            assert((before | (p ^ q)) == 0 <==> (before == 0 && p == q)) by (bit_vector);
            let xs = x@.take(i as int + 1);
            let ys = y@.take(i as int + 1);
            assert(xs.drop_last() =~= x@.take(i as int));
            assert(ys.drop_last() =~= y@.take(i as int));
            assert(xs.last() == p && ys.last() == q);
            if before == 0 && p == q {
                assert(xs =~= ys);
            }
        }
        i = i + 1;
    }
    assert(x@.take(i as int) =~= x@);
    assert(y@.take(i as int) =~= y@);
    diff == 0
}

/// The texts of a sequence of strings.
pub open spec fn texts_of(strings: Seq<String>) -> Seq<Seq<char>> {
    Seq::new(strings.len(), |i: int| strings[i]@)
}

/// The characters of a string slice, in order.
pub fn chars_of(s: &str) -> (out: Vec<char>)
    ensures
        out@ == s@,
{
    let mut out: Vec<char> = Vec::new();
    for c in it: s.chars()
        invariant
            it.seq() == s@,
            out@ == s@.take(it.index() as int),
    {
        out.push(c);
    }
    out
}

/// Position of the first `c` in `s`, or the length of `s` where it holds none.
pub open spec fn first_index(s: Seq<char>, c: char) -> int
    decreases s.len(),
{
    if s.len() == 0 || s[0] == c {
        0
    } else {
        1 + first_index(s.drop_first(), c)
    }
}

/// Whether `k` is the place of the first `c` in `s`: no `c` stands before
/// it, and one stands at it unless `k` is the length of `s`.
pub open spec fn is_first_index(s: Seq<char>, c: char, k: int) -> bool {
    &&& 0 <= k <= s.len()
    &&& forall|j: int| 0 <= j < k ==> s[j] != c
    &&& k < s.len() ==> s[k] == c
}

/// `first_index` is the one place that `is_first_index` describes.
pub proof fn lemma_first_index(s: Seq<char>, c: char)
    ensures
        is_first_index(s, c, first_index(s, c)),
        forall|k: int| is_first_index(s, c, k) ==> k == first_index(s, c),
    decreases s.len(),
{
    if s.len() == 0 || s[0] == c {
        assert forall|k: int| is_first_index(s, c, k) implies k == 0 by {
            if k > 0 {
                assert(s[0] != c);
            }
        }
    } else {
        let t = s.drop_first();
        lemma_first_index(t, c);
        let r = first_index(t, c);
        assert forall|j: int| 0 <= j < r + 1 implies s[j] != c by {
            if j > 0 {
                assert(t[j - 1] == s[j]);
            }
        }
        if r + 1 < s.len() {
            assert(t[r] == s[r + 1]);
        }
        assert forall|k: int| is_first_index(s, c, k) implies k == r + 1 by {
            assert(k > 0);
            assert forall|j: int| 0 <= j < k - 1 implies t[j] != c by {
                assert(t[j] == s[j + 1]);
            }
            if k - 1 < t.len() {
                assert(t[k - 1] == s[k]);
            }
            assert(is_first_index(t, c, k - 1));
        }
    }
}

/// Finds the first `c` in `s` at or after `from`.
pub fn find_char(s: &[char], c: char, from: usize) -> (k: usize)
    requires
        from <= s@.len(),
    ensures
        from <= k <= s@.len(),
        forall|j: int| from <= j < k ==> s@[j] != c,
        k < s@.len() ==> s@[k as int] == c,
{
    let mut k: usize = from;
    while k < s.len() && s[k] != c
        invariant
            from <= k <= s@.len(),
            forall|j: int| from <= j < k ==> s@[j] != c,
        decreases s@.len() - k,
    {
        k = k + 1;
    }
    k
}

/// The text of `chars` from `from` up to, not including, `to`.
pub fn substring(chars: &[char], from: usize, to: usize) -> (text: String)
    requires
        from <= to <= chars@.len(),
    ensures
        text@ == chars@.subrange(from as int, to as int),
{
    let mut text = String::new();
    let mut i: usize = from;
    while i < to
        invariant
            from <= i <= to <= chars@.len(),
            text@ == chars@.subrange(from as int, i as int),
        decreases to - i,
    {
        text.push(chars[i]);
        assert(chars@.subrange(from as int, i as int).push(chars@[i as int])
            =~= chars@.subrange(from as int, i as int + 1));
        i = i + 1;
    }
    text
}

/// Whether `c` is one of the ten ASCII digits.
pub open spec fn is_digit(c: char) -> bool {
    '0' <= c <= '9'
}

/// Whether every character of `s` is an ASCII digit.
pub open spec fn is_digits(s: Seq<char>) -> bool {
    forall|i: int| 0 <= i < s.len() ==> is_digit(#[trigger] s[i])
}

/// The digit character that stands for `d`, for `d` below ten.
pub open spec fn digit_char(d: nat) -> char {
    (('0' as u8) + (d as u8)) as char
}

/// The number that a digit character stands for.
pub open spec fn digit_value(c: char) -> nat {
    ((c as u8) - ('0' as u8)) as nat
}

/// The decimal notation of `n`, without sign or leading zeros.
pub open spec fn decimal(n: nat) -> Seq<char>
    decreases n,
{
    if n < 10 {
        seq![digit_char(n)]
    } else {
        decimal(n / 10).push(digit_char(n % 10))
    }
}

/// The number that a sequence of digits denotes; leading zeros are allowed
/// and the empty sequence denotes zero.
pub open spec fn decimal_value(s: Seq<char>) -> nat
    decreases s.len(),
{
    if s.len() == 0 {
        0
    } else {
        decimal_value(s.drop_last()) * 10 + digit_value(s.last())
    }
}

/// Exec test for an ASCII digit.
pub fn char_is_digit(c: char) -> (b: bool)
    ensures
        b == is_digit(c),
{
    '0' <= c && c <= '9'
}

/// What reading `s` as a decimal number gives when the number may be at most
/// `max`: the number, if `s` is a non-empty run of digits that denotes one
/// within the limit, and nothing otherwise.
pub open spec fn parsed_decimal(s: Seq<char>, max: nat) -> Option<u64> {
    if s.len() > 0 && is_digits(s) && decimal_value(s) <= max {
        Some(decimal_value(s) as u64)
    } else {
        None
    }
}

/// A prefix of a run of digits denotes no more than the whole run.
pub proof fn lemma_decimal_value_prefix(s: Seq<char>, k: int)
    requires
        is_digits(s),
        0 <= k <= s.len(),
    ensures
        decimal_value(s.take(k)) <= decimal_value(s),
    decreases s.len() - k,
{
    if k == s.len() {
        assert(s.take(k) =~= s);
    } else {
        lemma_decimal_value_prefix(s, k + 1);
        let t = s.take(k + 1);
        assert(t.drop_last() =~= s.take(k));
        assert(decimal_value(t) == decimal_value(s.take(k)) * 10 + digit_value(t.last()));
    }
}

/// The decimal notation of a number is a non-empty run of digits that
/// denotes that number.
pub proof fn lemma_decimal_round_trip(n: nat)
    ensures
        decimal(n).len() > 0,
        is_digits(decimal(n)),
        decimal_value(decimal(n)) == n,
    decreases n,
{
    if n < 10 {
        let s = decimal(n);
        assert(s.drop_last() =~= Seq::<char>::empty());
        assert(decimal_value(s.drop_last()) == 0);
    } else {
        lemma_decimal_round_trip(n / 10);
        let s = decimal(n);
        assert(s.drop_last() =~= decimal(n / 10));
        assert(s.last() == digit_char(n % 10));
    }
}

/// The one-character string of a digit.
fn digit_str(d: u8) -> (s: &'static str)
    requires
        d < 10,
    ensures
        s@ == seq![digit_char(d as nat)],
{
    proof {
        reveal_strlit("0");
        reveal_strlit("1");
        reveal_strlit("2");
        reveal_strlit("3");
        reveal_strlit("4");
        reveal_strlit("5");
        reveal_strlit("6");
        reveal_strlit("7");
        reveal_strlit("8");
        reveal_strlit("9");
    }
    let s = if d == 0 {
        "0"
    } else if d == 1 {
        "1"
    } else if d == 2 {
        "2"
    } else if d == 3 {
        "3"
    } else if d == 4 {
        "4"
    } else if d == 5 {
        "5"
    } else if d == 6 {
        "6"
    } else if d == 7 {
        "7"
    } else if d == 8 {
        "8"
    } else {
        "9"
    };
    assert(s@ =~= seq![digit_char(d as nat)]);
    s
}

/// Writes `n` in decimal notation.
pub fn decimal_string(n: u64) -> (s: String)
    ensures
        s@ == decimal(n as nat),
    decreases n,
{
    if n < 10 {
        String::from_str(digit_str(n as u8))
    } else {
        let mut s = decimal_string(n / 10);
        s.append(digit_str((n % 10) as u8));
        assert(s@ =~= decimal(n as nat));
        s
    }
}

/// Reads a run of digits as a number of at most `max`.
pub fn parse_decimal(s: &[char], max: u64) -> (r: Option<u64>)
    ensures
        r == parsed_decimal(s@, max as nat),
{
    if s.len() == 0 {
        return None;
    }
    let mut acc: u64 = 0;
    let mut i: usize = 0;
    while i < s.len()
        invariant
            0 <= i <= s.len(),
            is_digits(s@.take(i as int)),
            acc == decimal_value(s@.take(i as int)),
            acc <= max,
        decreases s.len() - i,
    {
        let c = s[i];
        if !char_is_digit(c) {
            return None;
        }
        let d: u64 = (c as u8 - '0' as u8) as u64;
        proof {
            let t = s@.take(i as int + 1);
            assert(t.drop_last() =~= s@.take(i as int));
            assert(t.last() == c);
            assert(is_digits(t));
            assert(decimal_value(t) == acc * 10 + d);
            if is_digits(s@) {
                lemma_decimal_value_prefix(s@, i as int + 1);
            }
        }
        if acc > max / 10 {
            return None;
        }
        if d > max - acc * 10 {
            return None;
        }
        acc = acc * 10 + d;
        i = i + 1;
    }
    assert(s@.take(i as int) =~= s@);
    Some(acc)
}

/// What reading `s` as an unsigned number gives, where one `+` may stand
/// before the digits.
pub open spec fn parsed_unsigned(s: Seq<char>, max: nat) -> Option<u64> {
    if s.len() > 0 && s[0] == '+' {
        parsed_decimal(s.skip(1), max)
    } else {
        parsed_decimal(s, max)
    }
}

/// Reads a run of digits, with or without a `+` before it, as a number of
/// at most `max`.
pub fn parse_unsigned(s: &[char], max: u64) -> (r: Option<u64>)
    ensures
        r == parsed_unsigned(s@, max as nat),
{
    if s.len() > 0 && s[0] == '+' {
        let digits = vstd::slice::slice_subrange(s, 1, s.len());
        assert(digits@ =~= s@.skip(1));
        parse_decimal(digits, max)
    } else {
        parse_decimal(s, max)
    }
}

/// Whether `text` starts with `prefix`.
pub fn starts_with(text: &[char], prefix: &[char]) -> (b: bool)
    ensures
        b == prefix@.is_prefix_of(text@),
{
    if prefix.len() > text.len() {
        return false;
    }
    let mut i: usize = 0;
    while i < prefix.len()
        invariant
            0 <= i <= prefix@.len() <= text@.len(),
            forall|j: int| 0 <= j < i ==> prefix@[j] == text@[j],
        decreases prefix@.len() - i,
    {
        if prefix[i] != text[i] {
            return false;
        }
        i = i + 1;
    }
    assert(prefix@ =~= text@.subrange(0, prefix@.len() as int));
    true
}

/// A text cut at the last `c` is made of its two parts in one way only:
/// where two texts that hold no `c` stand behind a `c`, and what is made is
/// the same, the parts are the same.
pub proof fn lemma_joined_parts_by_end(
    a1: Seq<char>,
    b1: Seq<char>,
    a2: Seq<char>,
    b2: Seq<char>,
    c: char,
)
    requires
        !b1.contains(c),
        !b2.contains(c),
        a1 + seq![c] + b1 == a2 + seq![c] + b2,
    ensures
        a1 == a2,
        b1 == b2,
{
    let s1 = a1 + seq![c] + b1;
    let s2 = a2 + seq![c] + b2;
    assert(s1.len() == s2.len());
    if a1.len() < a2.len() {
        assert(s2[a2.len() as int] == c);
        assert(s1[a2.len() as int] == b1[a2.len() - a1.len() - 1]);
        assert(b1.contains(c));
    } else if a2.len() < a1.len() {
        assert(s1[a1.len() as int] == c);
        assert(s2[a1.len() as int] == b2[a1.len() - a2.len() - 1]);
        assert(b2.contains(c));
    }
    assert(a1 =~= s1.take(a1.len() as int));
    assert(a2 =~= s2.take(a2.len() as int));
    assert(b1 =~= s1.skip(a1.len() as int + 1));
    assert(b2 =~= s2.skip(a2.len() as int + 1));
}

/// A text cut at the first `c` is made of its two parts in one way only:
/// where two texts that hold no `c` stand before a `c`, and what is made
/// is the same, the parts are the same.
pub proof fn lemma_joined_parts_by_start(
    a1: Seq<char>,
    b1: Seq<char>,
    a2: Seq<char>,
    b2: Seq<char>,
    c: char,
)
    requires
        !a1.contains(c),
        !a2.contains(c),
        a1 + seq![c] + b1 == a2 + seq![c] + b2,
    ensures
        a1 == a2,
        b1 == b2,
{
    let s1 = a1 + seq![c] + b1;
    let s2 = a2 + seq![c] + b2;
    assert(s1.len() == s2.len());
    if a1.len() < a2.len() {
        assert(s1[a1.len() as int] == c);
        assert(s2[a1.len() as int] == a2[a1.len() as int]);
        assert(a2.contains(c));
    } else if a2.len() < a1.len() {
        assert(s2[a2.len() as int] == c);
        assert(s1[a2.len() as int] == a1[a2.len() as int]);
        assert(a1.contains(c));
    }
    assert(a1 =~= s1.take(a1.len() as int));
    assert(a2 =~= s2.take(a2.len() as int));
    assert(b1 =~= s1.skip(a1.len() as int + 1));
    assert(b2 =~= s2.skip(a2.len() as int + 1));
}

} // verus!
