//! Rendering of a recorded duration sequence as newline-delimited ASCII
//! decimal text: one non-negative integer per line, in record order, with a
//! single trailing newline terminator.

use vstd::prelude::*;
use vstd::arithmetic::div_mod::lemma_fundamental_div_mod;

verus! {

/// The ASCII newline byte.
pub open spec fn newline() -> u8 {
    10u8
}

/// The ASCII byte of the decimal digit `d`.
pub open spec fn digit_byte(d: int) -> u8 {
    (48 + d) as u8
}

/// The decimal representation of `n` as ASCII bytes, most significant
/// digit first, without sign or padding; `0` renders as the single digit 0.
pub open spec fn decimal_bytes(n: nat) -> Seq<u8>
    decreases n,
{
    if n < 10 {
        seq![digit_byte(n as int)]
    } else {
        decimal_bytes(n / 10).push(digit_byte((n % 10) as int))
    }
}

/// A decimal representation is never empty and holds digit bytes only.
pub proof fn lemma_decimal_bytes_digits(n: nat)
    ensures
        decimal_bytes(n).len() >= 1,
        forall|k: int|
            0 <= k < decimal_bytes(n).len() ==> 48 <= #[trigger] decimal_bytes(n)[k] <= 57,
    decreases n,
{
    if n >= 10 {
        lemma_decimal_bytes_digits(n / 10);
    }
}

/// The numeric value of a sequence of ASCII decimal digits, most
/// significant first; the empty sequence reads as 0.
pub open spec fn parse_decimal(s: Seq<u8>) -> int
    decreases s.len(),
{
    if s.len() == 0 {
        0
    } else {
        parse_decimal(s.drop_last()) * 10 + (s.last() - 48)
    }
}

/// Rendering and parsing round-trip: the decimal representation of `n`
/// reads back as exactly `n`.
pub proof fn lemma_decimal_round_trip(n: nat)
    ensures
        parse_decimal(decimal_bytes(n)) == n,
    decreases n,
{
    if n < 10 {
        assert(parse_decimal(Seq::<u8>::empty()) == 0);
        assert(decimal_bytes(n).drop_last() =~= Seq::<u8>::empty());
        assert(decimal_bytes(n).last() == digit_byte(n as int));
        assert(digit_byte(n as int) == 48 + n);
        assert(parse_decimal(decimal_bytes(n)) == n);
    } else {
        lemma_decimal_round_trip(n / 10);
        assert(decimal_bytes(n).drop_last() =~= decimal_bytes(n / 10));
        assert(decimal_bytes(n).last() == digit_byte((n % 10) as int));
        assert(digit_byte((n % 10) as int) == 48 + (n % 10));
        assert(parse_decimal(decimal_bytes(n)) == parse_decimal(decimal_bytes(n / 10)) * 10 + (n
            % 10));
        lemma_fundamental_div_mod(n as int, 10);
        assert(n == 10 * (n / 10) + (n % 10));
        assert(parse_decimal(decimal_bytes(n)) == n);
    }
}

/// The lines of a duration record, joined: each duration's decimal
/// representation followed by one newline, in record order.
pub open spec fn rendered_lines(times: Seq<u128>) -> Seq<u8>
    decreases times.len(),
{
    if times.len() == 0 {
        Seq::empty()
    } else {
        rendered_lines(times.drop_last()) + decimal_bytes(times.last() as nat) + seq![newline()]
    }
}

/// The full rendered output for one duration record: the joined lines,
/// terminated by a single trailing newline. An empty record renders as the
/// bare terminator.
pub open spec fn rendered_output(times: Seq<u128>) -> Seq<u8> {
    if times.len() == 0 {
        seq![newline()]
    } else {
        rendered_lines(times)
    }
}

/// How many newline bytes a rendered sequence holds: its line count, the
/// trailing terminator included.
pub open spec fn newline_count(s: Seq<u8>) -> int
    decreases s.len(),
{
    if s.len() == 0 {
        0
    } else {
        newline_count(s.drop_last()) + if s.last() == newline() {
            1int
        } else {
            0int
        }
    }
}

/// Newline counts add up over concatenation.
proof fn lemma_newline_count_concat(a: Seq<u8>, b: Seq<u8>)
    ensures
        newline_count(a + b) == newline_count(a) + newline_count(b),
    decreases b.len(),
{
    if b.len() == 0 {
        assert(a + b =~= a);
    } else {
        lemma_newline_count_concat(a, b.drop_last());
        assert((a + b).drop_last() =~= a + b.drop_last());
        assert((a + b).last() == b.last());
    }
}

/// A decimal representation holds no newline byte.
proof fn lemma_decimal_bytes_newline_free(n: nat)
    ensures
        newline_count(decimal_bytes(n)) == 0,
    decreases n,
{
    assert(newline_count(Seq::<u8>::empty()) == 0);
    if n < 10 {
        assert(decimal_bytes(n).drop_last() =~= Seq::<u8>::empty());
    } else {
        lemma_decimal_bytes_newline_free(n / 10);
        assert(decimal_bytes(n).drop_last() =~= decimal_bytes(n / 10));
    }
}

/// The rendered output of a record of `K` durations holds exactly `K`
/// newline-terminated lines; the empty record's output is the bare
/// terminator, a single newline.
pub proof fn lemma_output_line_count(times: Seq<u128>)
    ensures
        times.len() > 0 ==> newline_count(rendered_output(times)) == times.len(),
        times.len() == 0 ==> newline_count(rendered_output(times)) == 1,
    decreases times.len(),
{
    assert(newline_count(Seq::<u8>::empty()) == 0);
    assert(seq![newline()].drop_last() =~= Seq::<u8>::empty());
    assert(newline_count(seq![newline()]) == 1);
    if times.len() > 0 {
        lemma_output_line_count(times.drop_last());
        lemma_decimal_bytes_newline_free(times.last() as nat);
        lemma_newline_count_concat(
            rendered_lines(times.drop_last()),
            decimal_bytes(times.last() as nat),
        );
        lemma_newline_count_concat(
            rendered_lines(times.drop_last()) + decimal_bytes(times.last() as nat),
            seq![newline()],
        );
        assert(seq![newline()].drop_last() =~= Seq::<u8>::empty());
        if times.len() == 1 {
            assert(rendered_lines(times.drop_last()) =~= Seq::<u8>::empty());
            assert(newline_count(rendered_lines(times.drop_last())) == 0);
        }
    }
}

/// Whether a rendered byte is an ASCII decimal digit.
pub open spec fn is_digit(b: u8) -> bool {
    48 <= b <= 57
}

/// The shape that makes every line of a rendered output parse as a
/// non-negative integer: the output ends with the newline terminator,
/// holds digit and newline bytes only, and has no empty line — it neither
/// starts with a newline nor holds two adjacent ones.
pub open spec fn line_shaped(s: Seq<u8>) -> bool {
    &&& s.len() > 0
    &&& s.last() == newline()
    &&& forall|k: int| 0 <= k < s.len() ==> is_digit(#[trigger] s[k]) || s[k] == newline()
    &&& s[0] != newline()
    &&& forall|k: int| 0 <= k < s.len() - 1 ==> !(#[trigger] s[k] == newline() && s[k + 1] == newline())
}

/// The rendered output of a non-empty duration record is line-shaped:
/// every line is a non-empty run of decimal digits, and only the defined
/// trailing terminator follows the last line.
pub proof fn lemma_output_line_shaped(times: Seq<u128>)
    requires
        times.len() > 0,
    ensures
        line_shaped(rendered_output(times)),
    decreases times.len(),
{
    let s = rendered_lines(times);
    let a = rendered_lines(times.drop_last());
    let b = decimal_bytes(times.last() as nat);
    lemma_decimal_bytes_digits(times.last() as nat);
    assert(s =~= a + b + seq![newline()]);
    if times.len() == 1 {
        assert(a =~= Seq::<u8>::empty());
        assert(s[0] == b[0]);
    } else {
        lemma_output_line_shaped(times.drop_last());
        assert(s[0] == a[0]);
    }
    assert forall|k: int| 0 <= k < s.len() implies is_digit(#[trigger] s[k]) || s[k]
        == newline() by {
        if k < a.len() {
            assert(s[k] == a[k]);
        } else if k < a.len() + b.len() {
            assert(s[k] == b[k - a.len()]);
        } else {
            assert(s[k] == newline());
        }
    }
    assert forall|k: int| 0 <= k < s.len() - 1 implies !(#[trigger] s[k] == newline() && s[k + 1]
        == newline()) by {
        if k + 1 < a.len() {
            assert(s[k] == a[k] && s[k + 1] == a[k + 1]);
        } else if k + 1 < a.len() + b.len() {
            assert(s[k + 1] == b[k + 1 - a.len()]);
            assert(is_digit(s[k + 1]));
        } else {
            assert(k == a.len() + b.len() - 1);
            assert(s[k] == b[b.len() - 1]);
            assert(is_digit(s[k]));
        }
    }
}

/// The decimal representation of one duration, as bytes.
pub fn format_decimal(n: u128) -> (r: Vec<u8>)
    ensures
        r@ == decimal_bytes(n as nat),
{
    let mut digits: Vec<u8> = Vec::new();
    let mut rem: u128 = n;
    if rem == 0 {
        digits.push(48u8);
        return digits;
    }
    while rem > 0
        invariant
            decimal_bytes(n as nat) == if rem == 0 {
                digits@.reverse()
            } else {
                decimal_bytes(rem as nat) + digits@.reverse()
            },
        decreases rem,
    {
        let ghost pre = digits@;
        let d: u8 = (rem % 10) as u8 + 48;
        digits.push(d);
        proof {
            assert(digits@.reverse() =~= seq![d] + pre.reverse());
            lemma_fundamental_div_mod(rem as int, 10);
            if rem >= 10 {
                assert(decimal_bytes(rem as nat) + pre.reverse() =~= decimal_bytes(
                    (rem / 10) as nat,
                ) + digits@.reverse());
            } else {
                assert(decimal_bytes(rem as nat) + pre.reverse() =~= digits@.reverse());
            }
        }
        rem = rem / 10;
    }
    let mut out: Vec<u8> = Vec::new();
    let mut k = digits.len();
    while k > 0
        invariant
            k <= digits@.len(),
            out@.len() == digits@.len() - k,
            forall|j: int| 0 <= j < out@.len() ==> out@[j] == digits@[digits@.len() - 1 - j],
        decreases k,
    {
        k = k - 1;
        let b = digits[k];
        out.push(b);
    }
    proof {
        assert(out@ =~= digits@.reverse());
    }
    out
}

/// Render one duration record as newline-delimited decimal text, in record
/// order, with the single trailing terminator.
pub fn render_output(times: &Vec<u128>) -> (r: Vec<u8>)
    ensures
        r@ == rendered_output(times@),
{
    let n = times.len();
    let mut out: Vec<u8> = Vec::new();
    if n == 0 {
        out.push(10u8);
        proof {
            assert(out@ =~= rendered_output(times@));
        }
        return out;
    }
    for i in 0..n
        invariant
            n == times@.len(),
            out@ == rendered_lines(times@.take(i as int)),
    {
        let mut line = format_decimal(times[i]);
        out.append(&mut line);
        out.push(10u8);
        proof {
            assert(times@.take(i + 1).drop_last() =~= times@.take(i as int));
            assert(out@ =~= rendered_lines(times@.take(i + 1)));
        }
    }
    proof {
        assert(times@.take(n as int) =~= times@);
    }
    out
}

} // verus!
