//! Plain-text building blocks shared by the display/parse formats of the
//! engine: signed decimal integers, locating separator characters, and
//! character-exact string comparison.

use vstd::prelude::*;
use vstd::string::*;

verus! {

// ---------------------------------------------------------------------------
// Specification: decimal digits and signed decimal texts
// ---------------------------------------------------------------------------

pub open spec fn is_dec_digit(c: char) -> bool {
    ('0' as u32) <= (c as u32) && (c as u32) <= ('9' as u32)
}

/// The numeric value of a decimal digit character.
pub open spec fn dec_digit_val(c: char) -> int {
    (c as u32) as int - ('0' as u32) as int
}

/// The digit character for a value below ten.
pub open spec fn digit_char(d: int) -> char {
    if d == 0 {
        '0'
    } else if d == 1 {
        '1'
    } else if d == 2 {
        '2'
    } else if d == 3 {
        '3'
    } else if d == 4 {
        '4'
    } else if d == 5 {
        '5'
    } else if d == 6 {
        '6'
    } else if d == 7 {
        '7'
    } else if d == 8 {
        '8'
    } else {
        '9'
    }
}

/// The decimal representation of a natural number, without sign or
/// leading zeroes.
pub open spec fn dec_of_nat(n: nat) -> Seq<char>
    decreases n,
{
    if n < 10 {
        seq![digit_char(n as int)]
    } else {
        dec_of_nat(n / 10).push(digit_char((n % 10) as int))
    }
}

/// The decimal representation of an integer: a leading `-` for negative
/// values, no sign otherwise.
pub open spec fn dec_of_int(v: int) -> Seq<char> {
    if v < 0 {
        seq!['-'] + dec_of_nat((-v) as nat)
    } else {
        dec_of_nat(v as nat)
    }
}

pub open spec fn all_dec_digits(s: Seq<char>) -> bool {
    forall|i: int| 0 <= i < s.len() ==> is_dec_digit(#[trigger] s[i])
}

/// The value of a string of decimal digits, most significant first.
pub open spec fn digits_val(s: Seq<char>) -> int
    decreases s.len(),
{
    if s.len() == 0 {
        0
    } else {
        digits_val(s.drop_last()) * 10 + dec_digit_val(s.last())
    }
}

/// The digit part of a signed decimal text: everything after an optional
/// leading `+` or `-`.
pub open spec fn int_text_body(s: Seq<char>) -> Seq<char> {
    if s.len() > 0 && (s[0] == '+' || s[0] == '-') {
        s.drop_first()
    } else {
        s
    }
}

/// Whether `s` is in the signed decimal integer grammar: an optional sign
/// followed by one or more digits.
pub open spec fn is_int_text(s: Seq<char>) -> bool {
    int_text_body(s).len() > 0 && all_dec_digits(int_text_body(s))
}

/// The integer value of a signed decimal text.
pub open spec fn int_text_val(s: Seq<char>) -> int {
    if s.len() > 0 && s[0] == '-' {
        -digits_val(int_text_body(s))
    } else {
        digits_val(int_text_body(s))
    }
}

/// What parsing a signed decimal text as an `i64` yields: its value when
/// the text is well-formed and the value representable, nothing otherwise.
pub open spec fn parse_i64_spec(s: Seq<char>) -> Option<int> {
    if is_int_text(s) && i64::MIN <= int_text_val(s) <= i64::MAX {
        Some(int_text_val(s))
    } else {
        None
    }
}

// ---------------------------------------------------------------------------
// Lemmas about digit strings
// ---------------------------------------------------------------------------

proof fn lemma_digits_val_nonneg(s: Seq<char>)
    requires
        all_dec_digits(s),
    ensures
        digits_val(s) >= 0,
    decreases s.len(),
{
    if s.len() > 0 {
        assert(all_dec_digits(s.drop_last())) by {
            assert(forall|i: int|
                0 <= i < s.drop_last().len() ==> s.drop_last()[i] == #[trigger] s[i]);
        }
        lemma_digits_val_nonneg(s.drop_last());
    }
}

/// Appending one digit multiplies the value by ten and adds the digit.
proof fn lemma_digits_val_push(s: Seq<char>, c: char)
    ensures
        digits_val(s.push(c)) == digits_val(s) * 10 + dec_digit_val(c),
{
    assert(s.push(c).drop_last() =~= s);
    assert(s.push(c).last() == c);
}

/// Once the value of a digit prefix exceeds a bound, appending further
/// digits cannot bring it back under the bound.
proof fn lemma_digits_val_grow(s: Seq<char>, c: char, bound: int)
    requires
        all_dec_digits(s),
        is_dec_digit(c),
        digits_val(s) > bound,
        bound >= 0,
    ensures
        digits_val(s.push(c)) > bound,
{
    lemma_digits_val_nonneg(s);
    lemma_digits_val_push(s, c);
    assert(digits_val(s) * 10 >= digits_val(s)) by (nonlinear_arith)
        requires
            digits_val(s) >= 0,
    ;
}

proof fn lemma_dec_of_nat_digits(n: nat)
    ensures
        dec_of_nat(n).len() > 0,
        all_dec_digits(dec_of_nat(n)),
    decreases n,
{
    if n < 10 {
        assert(is_dec_digit(digit_char(n as int)));
        assert(dec_of_nat(n) =~= seq![digit_char(n as int)]);
    } else {
        lemma_dec_of_nat_digits(n / 10);
        let s = dec_of_nat(n / 10);
        let c = digit_char((n % 10) as int);
        assert(is_dec_digit(c));
        assert forall|i: int| 0 <= i < s.push(c).len() implies is_dec_digit(
            #[trigger] s.push(c)[i],
        ) by {
            if i < s.len() {
                assert(s.push(c)[i] == s[i]);
            } else {
                assert(s.push(c)[i] == c);
            }
        }
    }
}

proof fn lemma_dec_of_nat_val(n: nat)
    ensures
        digits_val(dec_of_nat(n)) == n,
    decreases n,
{
    if n < 10 {
        let s = dec_of_nat(n);
        assert(s == seq![digit_char(n as int)]);
        assert(s.last() == digit_char(n as int));
        assert(s.drop_last() =~= Seq::<char>::empty());
        assert(digits_val(s.drop_last()) == 0);
        assert(dec_digit_val(digit_char(n as int)) == n);
    } else {
        lemma_dec_of_nat_val(n / 10);
        lemma_digits_val_push(dec_of_nat(n / 10), digit_char((n % 10) as int));
        assert(dec_digit_val(digit_char((n % 10) as int)) == n % 10);
    }
}

/// Law: the signed decimal form of a representable integer parses back to
/// the same integer.
pub proof fn lemma_dec_roundtrip(v: int)
    requires
        i64::MIN <= v <= i64::MAX,
    ensures
        parse_i64_spec(dec_of_int(v)) == Some(v),
{
    let s = dec_of_int(v);
    if v < 0 {
        let d = dec_of_nat((-v) as nat);
        lemma_dec_of_nat_digits((-v) as nat);
        lemma_dec_of_nat_val((-v) as nat);
        assert(s[0] == '-');
        assert(int_text_body(s) =~= d);
        assert(int_text_val(s) == -digits_val(d));
    } else {
        let d = dec_of_nat(v as nat);
        lemma_dec_of_nat_digits(v as nat);
        lemma_dec_of_nat_val(v as nat);
        assert(is_dec_digit(d[0]));
        assert(s[0] != '+' && s[0] != '-');
        assert(int_text_body(s) =~= d);
        assert(int_text_val(s) == digits_val(d));
    }
}

/// Decimal texts start with a sign or a digit, never a letter.
pub proof fn lemma_dec_of_int_not_alpha(v: int)
    ensures
        dec_of_int(v).len() > 0,
        !is_ascii_alpha(dec_of_int(v)[0]),
{
    if v < 0 {
        lemma_dec_of_nat_digits((-v) as nat);
        assert(!is_ascii_alpha('-'));
    } else {
        lemma_dec_of_nat_digits(v as nat);
        assert(is_dec_digit(dec_of_int(v)[0]));
    }
}

/// Every character of a decimal text is a digit or the leading minus.
pub proof fn lemma_dec_of_int_chars(v: int)
    ensures
        forall|k: int|
            0 <= k < dec_of_int(v).len() ==> (is_dec_digit(#[trigger] dec_of_int(v)[k])
                || dec_of_int(v)[k] == '-'),
{
    let s = dec_of_int(v);
    if v < 0 {
        let d = dec_of_nat((-v) as nat);
        lemma_dec_of_nat_digits((-v) as nat);
        assert forall|k: int| 0 <= k < s.len() implies (is_dec_digit(#[trigger] s[k]) || s[k]
            == '-') by {
            if k > 0 {
                assert(s[k] == d[k - 1]);
            }
        }
    } else {
        lemma_dec_of_nat_digits(v as nat);
    }
}

// ---------------------------------------------------------------------------
// Executable parsing and formatting of i64
// ---------------------------------------------------------------------------

/// Parses a signed decimal integer, accepting exactly the texts that
/// `parse_i64_spec` accepts and returning the value it names.
pub fn parse_i64(s: &str) -> (r: Option<i64>)
    ensures
        parse_i64_spec(s@) matches Some(v) ==> (r matches Some(x) && x as int == v),
        parse_i64_spec(s@) is None ==> r is None,
{
    let n = s.unicode_len();
    let mut start: usize = 0;
    let mut neg = false;
    if n > 0 {
        let c0 = s.get_char(0);
        if c0 == '-' {
            neg = true;
            start = 1;
        } else if c0 == '+' {
            start = 1;
        }
    }
    proof {
        assert(int_text_body(s@) =~= s@.skip(start as int));
        assert(neg <==> (s@.len() > 0 && s@[0] == '-'));
    }
    if start >= n {
        // empty digit part: not in the grammar
        return None;
    }
    let ghost body = s@.skip(start as int);
    let mut mag: u64 = 0;
    let mut over = false;
    let mut j = start;
    while j < n
        invariant
            start <= j <= n,
            n == s@.len(),
            start <= 1,
            body == s@.skip(start as int),
            body == int_text_body(s@),
            neg <==> (s@.len() > 0 && s@[0] == '-'),
            all_dec_digits(s@.subrange(start as int, j as int)),
            !over ==> mag as int == digits_val(s@.subrange(start as int, j as int)),
            over ==> digits_val(s@.subrange(start as int, j as int)) > u64::MAX as int,
        decreases n - j,
    {
        let c = s.get_char(j);
        let u = c as u32;
        if !(('0' as u32) <= u && u <= ('9' as u32)) {
            proof {
                assert(body[j - start] == c);
                assert(!is_dec_digit(c));
                assert(!all_dec_digits(body));
            }
            return None;
        }
        let d: u64 = ((u - ('0' as u32)) as u64);
        let ghost prefix = s@.subrange(start as int, j as int);
        proof {
            assert(s@.subrange(start as int, j + 1 as int) =~= prefix.push(c));
            assert(dec_digit_val(c) == d as int);
        }
        if over {
            proof {
                lemma_digits_val_grow(prefix, c, u64::MAX as int);
            }
        } else if mag > (u64::MAX - d) / 10 {
            proof {
                lemma_digits_val_push(prefix, c);
                assert(mag as int * 10 + d as int > u64::MAX as int) by (nonlinear_arith)
                    requires
                        mag as int > (u64::MAX as int - d as int) / 10,
                        0 <= d as int <= 9,
                ;
            }
            over = true;
        } else {
            proof {
                lemma_digits_val_push(prefix, c);
                assert(mag as int * 10 + d as int <= u64::MAX as int) by (nonlinear_arith)
                    requires
                        mag as int <= (u64::MAX as int - d as int) / 10,
                        0 <= d as int <= 9,
                ;
            }
            mag = mag * 10 + d;
        }
        j += 1;
    }
    proof {
        assert(s@.subrange(start as int, n as int) =~= body);
        assert(is_int_text(s@));
    }
    if over {
        // magnitude beyond u64: certainly outside i64's range
        return None;
    }
    if neg {
        if mag <= i64::MAX as u64 {
            Some(-(mag as i64))
        } else if mag == i64::MAX as u64 + 1 {
            Some(i64::MIN)
        } else {
            None
        }
    } else {
        if mag <= i64::MAX as u64 {
            Some(mag as i64)
        } else {
            None
        }
    }
}

fn digit_str(d: u64) -> (r: &'static str)
    requires
        d < 10,
    ensures
        r@ == seq![digit_char(d as int)],
{
    if d == 0 {
        proof {
            reveal_strlit("0");
            assert("0"@ =~= seq![digit_char(0)]);
        }
        "0"
    } else if d == 1 {
        proof {
            reveal_strlit("1");
            assert("1"@ =~= seq![digit_char(1)]);
        }
        "1"
    } else if d == 2 {
        proof {
            reveal_strlit("2");
            assert("2"@ =~= seq![digit_char(2)]);
        }
        "2"
    } else if d == 3 {
        proof {
            reveal_strlit("3");
            assert("3"@ =~= seq![digit_char(3)]);
        }
        "3"
    } else if d == 4 {
        proof {
            reveal_strlit("4");
            assert("4"@ =~= seq![digit_char(4)]);
        }
        "4"
    } else if d == 5 {
        proof {
            reveal_strlit("5");
            assert("5"@ =~= seq![digit_char(5)]);
        }
        "5"
    } else if d == 6 {
        proof {
            reveal_strlit("6");
            assert("6"@ =~= seq![digit_char(6)]);
        }
        "6"
    } else if d == 7 {
        proof {
            reveal_strlit("7");
            assert("7"@ =~= seq![digit_char(7)]);
        }
        "7"
    } else if d == 8 {
        proof {
            reveal_strlit("8");
            assert("8"@ =~= seq![digit_char(8)]);
        }
        "8"
    } else {
        proof {
            reveal_strlit("9");
            assert("9"@ =~= seq![digit_char(9)]);
        }
        "9"
    }
}

fn append_dec_u64(n: u64, out: &mut String)
    ensures
        final(out)@ == old(out)@ + dec_of_nat(n as nat),
    decreases n,
{
    if n < 10 {
        out.append(digit_str(n));
        proof {
            assert(old(out)@ + seq![digit_char(n as int)] =~= final(out)@);
        }
    } else {
        append_dec_u64(n / 10, out);
        out.append(digit_str(n % 10));
        proof {
            assert(old(out)@ + (dec_of_nat(n as nat / 10) + seq![
                digit_char((n % 10) as int),
            ]) =~= final(out)@);
            assert(dec_of_nat(n as nat) =~= dec_of_nat(n as nat / 10) + seq![
                digit_char((n % 10) as int),
            ]);
        }
    }
}

/// Formats an integer in signed decimal, exactly as `dec_of_int` describes.
pub fn i64_to_text(v: i64) -> (r: String)
    ensures
        r@ == dec_of_int(v as int),
{
    let mut out = String::new();
    if v < 0 {
        out.append("-");
        let mag: u64 = (-(v as i128)) as u64;
        append_dec_u64(mag, &mut out);
        proof {
            reveal_strlit("-");
            assert(Seq::<char>::empty() + "-"@ + dec_of_nat(mag as nat) =~= seq!['-']
                + dec_of_nat((-(v as int)) as nat));
        }
    } else {
        append_dec_u64(v as u64, &mut out);
        proof {
            assert(Seq::<char>::empty() + dec_of_nat(v as nat) =~= dec_of_nat(v as nat));
        }
    }
    out
}

// ---------------------------------------------------------------------------
// String helpers: exact comparison and separator positions
// ---------------------------------------------------------------------------

/// Character-exact equality of two string slices.
pub fn text_eq(a: &str, b: &str) -> (r: bool)
    ensures
        r == (a@ == b@),
{
    let na = a.unicode_len();
    let nb = b.unicode_len();
    if na != nb {
        return false;
    }
    let mut i: usize = 0;
    while i < na
        invariant
            0 <= i <= na,
            na == a@.len(),
            na == b@.len(),
            forall|k: int| 0 <= k < i ==> a@[k] == b@[k],
        decreases na - i,
    {
        if a.get_char(i) != b.get_char(i) {
            return false;
        }
        i += 1;
    }
    proof {
        assert(a@ =~= b@);
    }
    true
}

pub open spec fn is_ascii_alpha(c: char) -> bool {
    (('A' as u32) <= (c as u32) && (c as u32) <= ('Z' as u32)) || (('a' as u32) <= (c as u32)
        && (c as u32) <= ('z' as u32))
}

/// The length of the longest run of ASCII letters at the front of `s`.
pub open spec fn alpha_run_len(s: Seq<char>) -> int
    decreases s.len(),
{
    if s.len() > 0 && is_ascii_alpha(s[0]) {
        1 + alpha_run_len(s.drop_first())
    } else {
        0
    }
}

/// The leading letter run is exactly `k` when the first `k` characters
/// are letters and the next one (if any) is not.
pub proof fn lemma_alpha_run_char(s: Seq<char>, k: int)
    requires
        0 <= k <= s.len(),
        forall|j: int| 0 <= j < k ==> is_ascii_alpha(#[trigger] s[j]),
        k == s.len() || !is_ascii_alpha(s[k]),
    ensures
        alpha_run_len(s) == k,
    decreases s.len(),
{
    if k == 0 {
    } else {
        let t = s.drop_first();
        assert(forall|j: int| 0 <= j < t.len() ==> t[j] == #[trigger] s[j + 1]);
        lemma_alpha_run_char(t, k - 1);
    }
}

/// Measures the leading run of ASCII letters.
pub fn alpha_run(s: &str) -> (r: usize)
    ensures
        r as int == alpha_run_len(s@),
        r as int <= s@.len(),
{
    let n = s.unicode_len();
    let mut i: usize = 0;
    while i < n
        invariant
            0 <= i <= n,
            n == s@.len(),
            forall|j: int| 0 <= j < i ==> is_ascii_alpha(#[trigger] s@[j]),
        decreases n - i,
    {
        let c = s.get_char(i);
        let u = c as u32;
        let alpha = (('A' as u32) <= u && u <= ('Z' as u32)) || (('a' as u32) <= u && u
            <= ('z' as u32));
        if !alpha {
            proof {
                lemma_alpha_run_char(s@, i as int);
            }
            return i;
        }
        i += 1;
    }
    proof {
        lemma_alpha_run_char(s@, n as int);
    }
    n
}

/// The positions of a separator character in `s`, in increasing order.
pub open spec fn sep_pos_seq(s: Seq<char>, sep: char) -> Seq<int>
    decreases s.len(),
{
    if s.len() == 0 {
        Seq::empty()
    } else {
        let p = sep_pos_seq(s.drop_last(), sep);
        if s.last() == sep {
            p.push(s.len() - 1)
        } else {
            p
        }
    }
}

/// Finds every position of `sep` in `s`, in increasing order.
pub fn sep_positions(s: &str, sep: char) -> (r: Vec<usize>)
    ensures
        r@.map_values(|x: usize| x as int) == sep_pos_seq(s@, sep),
{
    let n = s.unicode_len();
    let mut r: Vec<usize> = Vec::new();
    let mut i: usize = 0;
    proof {
        assert(s@.take(0) =~= Seq::<char>::empty());
        assert(r@.map_values(|x: usize| x as int) =~= sep_pos_seq(s@.take(0), sep));
    }
    while i < n
        invariant
            0 <= i <= n,
            n == s@.len(),
            r@.map_values(|x: usize| x as int) == sep_pos_seq(s@.take(i as int), sep),
        decreases n - i,
    {
        let c = s.get_char(i);
        let ghost prefix = s@.take(i as int);
        proof {
            assert(s@.take(i + 1 as int).drop_last() =~= prefix);
            assert(s@.take(i + 1 as int).last() == c);
        }
        if c == sep {
            r.push(i);
            proof {
                assert(r@.map_values(|x: usize| x as int) =~= sep_pos_seq(
                    s@.take(i + 1 as int),
                    sep,
                ));
            }
        }
        i += 1;
    }
    proof {
        assert(s@.take(n as int) =~= s@);
    }
    r
}

/// Free of the field separator `|`.
pub open spec fn pipe_free(s: Seq<char>) -> bool {
    forall|i: int| 0 <= i < s.len() ==> s[i] != '|'
}

/// A text without the separator has no separator positions.
pub proof fn lemma_sep_pos_empty(s: Seq<char>, sep: char)
    requires
        forall|i: int| 0 <= i < s.len() ==> s[i] != sep,
    ensures
        sep_pos_seq(s, sep) == Seq::<int>::empty(),
{
    lemma_sep_pos_in_range(s, sep);
    let q = sep_pos_seq(s, sep);
    if q.len() > 0 {
        assert(s[q[0]] == sep);
    }
    assert(q =~= Seq::<int>::empty());
}

/// Separator positions of a concatenation: those of the left part,
/// then those of the right part shifted by the left part's length.
pub proof fn lemma_sep_pos_concat(a: Seq<char>, b: Seq<char>, sep: char)
    ensures
        sep_pos_seq(a + b, sep) == sep_pos_seq(a, sep) + sep_pos_seq(b, sep).map_values(
            |x: int| x + a.len(),
        ),
    decreases b.len(),
{
    let shift = |x: int| x + a.len();
    if b.len() == 0 {
        assert(a + b =~= a);
        assert(sep_pos_seq(a, sep) + sep_pos_seq(b, sep).map_values(shift) =~= sep_pos_seq(
            a,
            sep,
        ));
    } else {
        let t = b.drop_last();
        lemma_sep_pos_concat(a, t, sep);
        assert((a + b).drop_last() =~= a + t);
        assert((a + b).last() == b.last());
        if b.last() == sep {
            assert(sep_pos_seq(a + b, sep) == sep_pos_seq(a + t, sep).push((a + b).len() - 1));
            assert(sep_pos_seq(b, sep) == sep_pos_seq(t, sep).push(b.len() - 1));
            assert(sep_pos_seq(b, sep).map_values(shift) =~= sep_pos_seq(t, sep).map_values(
                shift,
            ).push(b.len() - 1 + a.len()));
            assert(sep_pos_seq(a + b, sep) =~= sep_pos_seq(a, sep) + sep_pos_seq(
                b,
                sep,
            ).map_values(shift));
        } else {
            assert(sep_pos_seq(a + b, sep) == sep_pos_seq(a + t, sep));
            assert(sep_pos_seq(b, sep) == sep_pos_seq(t, sep));
        }
    }
}

/// The separator positions of a `|`-free text followed by `|` and more
/// text: the one written separator, then the rest's, shifted.
pub proof fn lemma_sep_after_field(a: Seq<char>, b: Seq<char>)
    requires
        pipe_free(a),
    ensures
        sep_pos_seq(a + seq!['|'] + b, '|') == seq![a.len() as int] + sep_pos_seq(
            b,
            '|',
        ).map_values(|x: int| x + a.len() + 1),
{
    let bar = seq!['|'];
    lemma_sep_pos_empty(a, '|');
    assert(bar.drop_last() =~= Seq::<char>::empty());
    lemma_sep_pos_empty(bar.drop_last(), '|');
    assert(sep_pos_seq(bar, '|') =~= seq![0int]);
    lemma_sep_pos_concat(a, bar, '|');
    assert(sep_pos_seq(a + bar, '|') =~= seq![a.len() as int]);
    lemma_sep_pos_concat(a + bar, b, '|');
    assert(sep_pos_seq(b, '|').map_values(|x: int| x + (a + bar).len()) =~= sep_pos_seq(
        b,
        '|',
    ).map_values(|x: int| x + a.len() + 1));
    assert(a + bar + b =~= a + seq!['|'] + b);
}

/// Every recorded separator position lies inside the string and carries
/// the separator character there; positions are strictly increasing.
pub proof fn lemma_sep_pos_in_range(s: Seq<char>, sep: char)
    ensures
        forall|k: int|
            0 <= k < sep_pos_seq(s, sep).len() ==> 0 <= #[trigger] sep_pos_seq(s, sep)[k]
                < s.len() && s[sep_pos_seq(s, sep)[k]] == sep,
        forall|k1: int, k2: int|
            0 <= k1 < k2 < sep_pos_seq(s, sep).len() ==> sep_pos_seq(s, sep)[k1] < sep_pos_seq(
                s,
                sep,
            )[k2],
    decreases s.len(),
{
    if s.len() > 0 {
        let t = s.drop_last();
        lemma_sep_pos_in_range(t, sep);
        let p = sep_pos_seq(t, sep);
        assert(forall|i: int| 0 <= i < t.len() ==> t[i] == #[trigger] s[i]);
        let q = sep_pos_seq(s, sep);
        if s.last() == sep {
            assert(q == p.push(s.len() - 1));
            assert forall|k: int| 0 <= k < q.len() implies 0 <= #[trigger] q[k] < s.len()
                && s[q[k]] == sep by {
                if k < p.len() {
                    assert(q[k] == p[k]);
                } else {
                    assert(q[k] == s.len() - 1);
                }
            }
        } else {
            assert(q == p);
            assert forall|k: int| 0 <= k < q.len() implies 0 <= #[trigger] q[k] < s.len()
                && s[q[k]] == sep by {
                assert(q[k] == p[k]);
            }
        }
    }
}

} // verus!
