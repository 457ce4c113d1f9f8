//! Text rendering of whole numbers: plain decimal digits and digits grouped
//! in threes with comma separators, as shown in currency labels.
use vstd::prelude::*;
use vstd::string::*;

verus! {

/// The character for a decimal digit `d` (0 through 9).
pub open spec fn digit_char(d: int) -> char {
    ('0' as int + d) as char
}

/// Decimal digits of `n`, most significant first, with no leading zeros
/// (zero itself is the single digit `0`).
pub open spec fn decimal(n: nat) -> Seq<char>
    decreases n,
{
    if n < 10 {
        seq![digit_char(n as int)]
    } else {
        decimal(n / 10).push(digit_char((n % 10) as int))
    }
}

/// The three digits of a remainder below one thousand, zero-padded.
pub open spec fn three_digits(r: nat) -> Seq<char> {
    seq![
        digit_char((r / 100) as int),
        digit_char(((r / 10) % 10) as int),
        digit_char((r % 10) as int),
    ]
}

/// Decimal digits of `n` with a comma between every group of three digits,
/// counting from the right.
pub open spec fn grouped(n: nat) -> Seq<char>
    decreases n,
{
    if n < 1000 {
        decimal(n)
    } else {
        grouped(n / 1000) + seq![','] + three_digits(n % 1000)
    }
}

/// The text with every comma removed.
pub open spec fn without_commas(s: Seq<char>) -> Seq<char>
    decreases s.len(),
{
    if s.len() == 0 {
        s
    } else if s.last() == ',' {
        without_commas(s.drop_last())
    } else {
        without_commas(s.drop_last()).push(s.last())
    }
}

/// Magnitude of a signed whole number.
pub open spec fn magnitude(v: i64) -> nat {
    if v < 0 {
        (-v) as nat
    } else {
        v as nat
    }
}


proof fn lemma_digit_not_comma(d: int)
    requires
        0 <= d < 10,
    ensures
        digit_char(d) != ',',
{
}

proof fn lemma_without_commas_concat(a: Seq<char>, b: Seq<char>)
    ensures
        without_commas(a + b) == without_commas(a) + without_commas(b),
    decreases b.len(),
{
    if b.len() == 0 {
        assert(a + b =~= a);
        assert(without_commas(a) + without_commas(b) =~= without_commas(a));
    } else {
        assert((a + b).drop_last() =~= a + b.drop_last());
        assert((a + b).last() == b.last());
        lemma_without_commas_concat(a, b.drop_last());
        if b.last() == ',' {
        } else {
            assert(without_commas(a) + without_commas(b.drop_last()).push(b.last()) =~= (
            without_commas(a) + without_commas(b.drop_last())).push(b.last()));
        }
    }
}

proof fn lemma_decimal_has_no_commas(n: nat)
    ensures
        without_commas(decimal(n)) == decimal(n),
    decreases n,
{
    if n < 10 {
        lemma_digit_not_comma(n as int);
        let s = decimal(n);
        assert(s.drop_last() =~= Seq::<char>::empty());
        assert(without_commas(s.drop_last()) =~= Seq::<char>::empty());
        assert(without_commas(s) =~= s);
    } else {
        lemma_decimal_has_no_commas(n / 10);
        lemma_digit_not_comma((n % 10) as int);
        let s = decimal(n);
        assert(s.drop_last() =~= decimal(n / 10));
    }
}

proof fn lemma_decimal_splits_at_thousands(n: nat)
    requires
        n >= 1000,
    ensures
        decimal(n) == decimal(n / 1000) + three_digits(n % 1000),
{
    let q: nat = n / 1000;
    let r: nat = n % 1000;
    assert(n / 10 >= 100);
    assert((n / 10) / 10 == n / 100);
    assert((n / 100) / 10 == q);
    assert(r / 100 == (n / 100) % 10);
    assert((r / 10) % 10 == (n / 10) % 10);
    assert(r % 10 == n % 10);
    assert(decimal(n / 100) == decimal(q).push(digit_char(((n / 100) % 10) as int)));
    assert(decimal(n / 10) == decimal(n / 100).push(digit_char(((n / 10) % 10) as int)));
    assert(decimal(n) =~= decimal(q) + three_digits(r));
}

/// Thousands separators change only the presentation: removing the commas
/// from the grouped text of any number gives back its plain decimal digits.
pub proof fn lemma_grouping_keeps_digits(n: nat)
    ensures
        without_commas(grouped(n)) == decimal(n),
    decreases n,
{
    if n < 1000 {
        lemma_decimal_has_no_commas(n);
    } else {
        let q: nat = n / 1000;
        let r: nat = n % 1000;
        lemma_grouping_keeps_digits(q);
        lemma_without_commas_concat(grouped(q) + seq![','], three_digits(r));
        lemma_without_commas_concat(grouped(q), seq![',']);
        assert((grouped(q) + seq![',']).drop_last() =~= grouped(q));
        assert(without_commas(seq![',']) =~= Seq::<char>::empty()) by {
            assert(seq![','].drop_last() =~= Seq::<char>::empty());
        }
        lemma_digit_not_comma((r / 100) as int);
        lemma_digit_not_comma(((r / 10) % 10) as int);
        lemma_digit_not_comma((r % 10) as int);
        let t = three_digits(r);
        let t1 = t.drop_last();
        let t2 = t1.drop_last();
        let t3 = t2.drop_last();
        assert(t3 =~= Seq::<char>::empty());
        assert(without_commas(t3) =~= t3);
        assert(without_commas(t2) =~= t2);
        assert(without_commas(t1) =~= t1);
        assert(without_commas(t) =~= t);
        lemma_decimal_splits_at_thousands(n);
        assert(without_commas(grouped(n)) =~= decimal(q) + t);
    }
}

/// Whether a character is one of the decimal digits `0` to `9`.
pub open spec fn is_digit(c: char) -> bool {
    '0' as int <= c as int <= '9' as int
}

/// The number a string of decimal digits denotes, most significant first.
pub open spec fn digits_value(s: Seq<char>) -> int
    decreases s.len(),
{
    if s.len() == 0 {
        0
    } else {
        digits_value(s.drop_last()) * 10 + (s.last() as int - '0' as int)
    }
}

/// Whether a text is digits grouped by commas: it starts with a digit group,
/// every comma is followed by exactly three non-commas and then a comma or
/// the end, and no run of four non-commas occurs (the leading group has one
/// to three characters).
pub open spec fn well_grouped(g: Seq<char>) -> bool {
    &&& g.len() > 0
    &&& g[0] != ','
    &&& forall|i: int|
        #![trigger g[i]]
        0 <= i < g.len() && g[i] == ',' ==> {
            &&& i + 3 < g.len()
            &&& g[i + 1] != ','
            &&& g[i + 2] != ','
            &&& g[i + 3] != ','
            &&& (i + 4 == g.len() || g[i + 4] == ',')
        }
    &&& forall|i: int|
        #![trigger g[i]]
        0 <= i && i + 3 < g.len() ==> (g[i] == ',' || g[i + 1] == ',' || g[i + 2] == ','
            || g[i + 3] == ',')
}

/// `decimal(n)` is the ordinary numeral of `n`: one or more digits, no
/// leading zero unless the number is zero itself, and denoting `n`.
pub proof fn lemma_decimal_is_numeral(n: nat)
    ensures
        decimal(n).len() >= 1,
        forall|i: int| 0 <= i < decimal(n).len() ==> is_digit(#[trigger] decimal(n)[i]),
        decimal(n)[0] == '0' ==> n == 0 && decimal(n).len() == 1,
        digits_value(decimal(n)) == n,
        n < 10 ==> decimal(n).len() == 1,
        n < 100 ==> decimal(n).len() <= 2,
        n < 1000 ==> decimal(n).len() <= 3,
    decreases n,
{
    let s = decimal(n);
    let d = (n % 10) as int;
    assert(digit_char(d) as int == '0' as int + d);
    assert(s.last() == digit_char(d));
    if n < 10 {
        assert(s.drop_last() =~= Seq::<char>::empty());
        assert(digits_value(s) == digits_value(s.drop_last()) * 10 + (s.last() as int
            - '0' as int));
    } else {
        lemma_decimal_is_numeral(n / 10);
        assert(s.drop_last() =~= decimal(n / 10));
        assert(s[0] == decimal(n / 10)[0]);
        assert forall|i: int| 0 <= i < s.len() implies is_digit(#[trigger] s[i]) by {
            if i < s.len() - 1 {
                assert(s[i] == decimal(n / 10)[i]);
            }
        }
        assert(digits_value(s) == digits_value(s.drop_last()) * 10 + (s.last() as int
            - '0' as int));
        assert((n / 10) * 10 + n % 10 == n);
        assert(n < 1000 ==> n / 10 < 100);
        assert(n < 100 ==> n / 10 < 10);
    }
}

/// Where the commas go: `grouped(n)` is the digits of `n` with commas only
/// between groups of three counted from the right; a number below one
/// thousand has no comma at all.
pub proof fn lemma_grouped_layout(n: nat)
    ensures
        well_grouped(grouped(n)),
        without_commas(grouped(n)) == decimal(n),
        n < 1000 ==> grouped(n) == decimal(n),
        (exists|i: int| 0 <= i < grouped(n).len() && grouped(n)[i] == ',') <==> n >= 1000,
    decreases n,
{
    lemma_grouping_keeps_digits(n);
    let g = grouped(n);
    if n < 1000 {
        lemma_decimal_is_numeral(n);
        assert forall|i: int| 0 <= i < g.len() implies g[i] != ',' by {
            assert(is_digit(g[i]));
        }
    } else {
        let q: nat = n / 1000;
        let r: nat = n % 1000;
        lemma_grouped_layout(q);
        let gq = grouped(q);
        let t = three_digits(r);
        lemma_digit_not_comma((r / 100) as int);
        lemma_digit_not_comma(((r / 10) % 10) as int);
        lemma_digit_not_comma((r % 10) as int);
        let lq: int = gq.len() as int;
        assert(g == gq + seq![','] + t);
        assert(g.len() == lq + 4);
        assert(g[lq] == ',');
        assert forall|i: int| 0 <= i < lq implies #[trigger] g[i] == gq[i] by {}
        assert(g[lq + 1] == t[0]);
        assert(g[lq + 2] == t[1]);
        assert(g[lq + 3] == t[2]);
        assert forall|i: int| 0 <= i < g.len() && #[trigger] g[i] == ',' implies {
            &&& i + 3 < g.len()
            &&& g[i + 1] != ','
            &&& g[i + 2] != ','
            &&& g[i + 3] != ','
            &&& (i + 4 == g.len() || g[i + 4] == ',')
        } by {
            if i < lq {
                assert(gq[i] == ',');
                assert(g[i + 1] == gq[i + 1]);
                assert(g[i + 2] == gq[i + 2]);
                assert(g[i + 3] == gq[i + 3]);
                if i + 4 < lq {
                    assert(g[i + 4] == gq[i + 4]);
                }
            } else if i > lq {
                assert(g[i] == t[i - lq - 1]);
            }
        }
        assert forall|i: int| 0 <= i && i + 3 < g.len() implies (#[trigger] g[i] == ','
            || g[i + 1] == ',' || g[i + 2] == ',' || g[i + 3] == ',') by {
            if i + 3 < lq {
                assert(gq[i] == ',' || gq[i + 1] == ',' || gq[i + 2] == ',' || gq[i + 3] == ',');
                assert(g[i + 1] == gq[i + 1]);
                assert(g[i + 2] == gq[i + 2]);
                assert(g[i + 3] == gq[i + 3]);
            } else if i == lq - 2 {
                assert(g[i + 2] == ',');
            } else if i == lq - 1 {
                assert(g[i + 1] == ',');
            } else if i == lq - 3 {
                assert(g[i + 3] == ',');
            }
        }
        assert(g[0] == gq[0]);
        assert(g[lq] == ',');
    }
}

/// Appends one character to a string.
///
/// Trusted: calls `String::push` of std, whose documentation says it appends
/// the given char to the end of the string.
#[verifier::external_body]
pub(crate) fn push_char(s: &mut String, c: char)
    ensures
        final(s)@ == old(s)@.push(c),
{
    s.push(c);
}

fn digit(d: u64) -> (c: char)
    requires
        d < 10,
    ensures
        c == digit_char(d as int),
{
    let b: u8 = 48u8 + d as u8;
    b as char
}

fn push_decimal(out: &mut String, n: u64)
    ensures
        final(out)@ == old(out)@ + decimal(n as nat),
    decreases n,
{
    if n >= 10 {
        push_decimal(out, n / 10);
    }
    let c = digit(n % 10);
    push_char(out, c);
    assert(final(out)@ =~= old(out)@ + decimal(n as nat));
}

fn push_grouped(out: &mut String, n: u64)
    ensures
        final(out)@ == old(out)@ + grouped(n as nat),
    decreases n,
{
    if n < 1000 {
        push_decimal(out, n);
    } else {
        push_grouped(out, n / 1000);
        push_char(out, ',');
        let r: u64 = n % 1000;
        push_char(out, digit(r / 100));
        push_char(out, digit((r / 10) % 10));
        push_char(out, digit(r % 10));
        assert(final(out)@ =~= old(out)@ + grouped(n as nat));
    }
}

/// Decimal text of a count, such as `"1234"`.
pub fn decimal_string(n: u64) -> (s: String)
    ensures
        s@ == decimal(n as nat),
        digits_value(s@) == n,
        forall|i: int| 0 <= i < s@.len() ==> is_digit(#[trigger] s@[i]),
        s@.len() >= 1,
        s@[0] == '0' ==> s@.len() == 1,
{
    let mut s = String::new();
    push_decimal(&mut s, n);
    assert(s@ =~= decimal(n as nat));
    proof {
        lemma_decimal_is_numeral(n as nat);
    }
    s
}

/// Digits of the magnitude of an already rounded number, grouped in threes
/// with commas, such as `"1,234,567"` for `-1234567`.
pub fn format_number_rounded(rounded: i64) -> (s: String)
    requires
        rounded != i64::MIN,
    ensures
        s@ == grouped(magnitude(rounded)),
        well_grouped(s@),
        without_commas(s@) == decimal(magnitude(rounded)),
{
    let m: u64 = if rounded < 0 {
        (-rounded) as u64
    } else {
        rounded as u64
    };
    let mut s = String::new();
    push_grouped(&mut s, m);
    assert(s@ =~= grouped(magnitude(rounded)));
    proof {
        lemma_grouped_layout(magnitude(rounded));
    }
    s
}

/// Full currency text of an already rounded amount: `"$"` or, for a negative
/// amount, `"-$"`, followed by the grouped digits of its magnitude.
///
/// `negative` is whether the amount before rounding was below zero, so an
/// amount that rounds to zero from below reads `"-$0"`.
pub fn format_currency_full_rounded(negative: bool, rounded: i64) -> (s: String)
    requires
        rounded != i64::MIN,
    ensures
        s@ == (if negative {
            "-$"@
        } else {
            "$"@
        }) + grouped(magnitude(rounded)),
{
    let mut s = if negative {
        String::from_str("-$")
    } else {
        String::from_str("$")
    };
    let digits = format_number_rounded(rounded);
    s.append(digits.as_str());
    s
}

} // verus!
