//! Decimal rendering of the integers that appear in file names and
//! difficulty names.
use vstd::prelude::*;

verus! {

/// The character of decimal digit `d`.
pub open spec fn digit_char(d: int) -> char {
    if d == 0 { '0' }
    else if d == 1 { '1' }
    else if d == 2 { '2' }
    else if d == 3 { '3' }
    else if d == 4 { '4' }
    else if d == 5 { '5' }
    else if d == 6 { '6' }
    else if d == 7 { '7' }
    else if d == 8 { '8' }
    else { '9' }
}

/// `n` in decimal, without leading zeros.
pub open spec fn decimal(n: nat) -> Seq<char>
    decreases n,
{
    if n < 10 {
        seq![digit_char(n as int)]
    } else {
        decimal(n / 10) + seq![digit_char((n % 10) as int)]
    }
}

/// The shortest decimal rendering of `v / 100`: `150` is `1.5`, `200` is
/// `2`, `125` is `1.25`.
pub open spec fn hundredths(v: nat) -> Seq<char> {
    let whole = decimal(v / 100);
    let frac = v % 100;
    if frac == 0 {
        whole
    } else if frac % 10 == 0 {
        whole + seq!['.', digit_char((frac / 10) as int)]
    } else {
        whole + seq!['.', digit_char((frac / 10) as int), digit_char((frac % 10) as int)]
    }
}

fn digit_str(d: u128) -> (r: &'static str)
    requires
        d < 10,
    ensures
        r@ == seq![digit_char(d as int)],
{
    proof {
        reveal_strlit("0");
        reveal_strlit("1");
        reveal_strlit("2");
        reveal_strlit("3");
        reveal_strlit("4");
        reveal_strlit("5");
        reveal_strlit("6");
        reveal_strlit("7");
        reveal_strlit("8");
        reveal_strlit("9");
    }
    match d {
        0 => "0",
        1 => "1",
        2 => "2",
        3 => "3",
        4 => "4",
        5 => "5",
        6 => "6",
        7 => "7",
        8 => "8",
        _ => "9",
    }
}

/// Renders `n` in decimal.
pub fn decimal_text(n: u128) -> (r: String)
    ensures
        r@ == decimal(n as nat),
    decreases n,
{
    if n < 10 {
        String::from_str(digit_str(n))
    } else {
        let mut s = decimal_text(n / 10);
        s.append(digit_str(n % 10));
        s
    }
}

/// Renders `v / 100` with as few decimals as it needs.
pub fn hundredths_text(v: u64) -> (r: String)
    ensures
        r@ == hundredths(v as nat),
{
    let mut s = decimal_text((v / 100) as u128);
    let frac = v % 100;
    if frac != 0 {
        proof {
            reveal_strlit(".");
        }
        s.append(".");
        s.append(digit_str((frac / 10) as u128));
        if frac % 10 != 0 {
            s.append(digit_str((frac % 10) as u128));
        }
    }
    s
}

/// The value of a run of decimal digits.
pub open spec fn digits_value(s: Seq<char>) -> nat
    decreases s.len(),
{
    if s.len() == 0 {
        0
    } else {
        digits_value(s.drop_last()) * 10 + ((s.last() as u32) - 48) as nat
    }
}

/// Whether every character of `s` is a decimal digit.
pub open spec fn all_digits(s: Seq<char>) -> bool {
    forall|i: int| 0 <= i < s.len() ==> '0' <= #[trigger] s[i] <= '9'
}

/// An unsigned decimal number: digits, at least one, after an optional `+`,
/// whose value fits in `u128`.
pub open spec fn unsigned_value(s: Seq<char>) -> Option<nat> {
    let body = if s.len() > 0 && s[0] == '+' { s.drop_first() } else { s };
    if body.len() > 0 && all_digits(body) && digits_value(body) <= u128::MAX {
        Some(digits_value(body))
    } else {
        None
    }
}

proof fn lemma_digits_value_grows(s: Seq<char>, i: int, j: int)
    requires
        0 <= i <= j <= s.len(),
        all_digits(s),
    ensures
        digits_value(s.take(i)) <= digits_value(s.take(j)),
    decreases j - i,
{
    if i < j {
        lemma_digits_value_grows(s, i, j - 1);
        assert(s.take(j).drop_last() =~= s.take(j - 1));
    }
}

/// Whether every character of `s` is a decimal digit.
pub fn all_digit_chars(s: &str) -> (r: bool)
    ensures
        r == all_digits(s@),
{
    let n = s.unicode_len();
    let mut i: usize = 0;
    while i < n
        invariant
            i <= n,
            n == s@.len(),
            forall|k: int| 0 <= k < i ==> '0' <= #[trigger] s@[k] <= '9',
        decreases n - i,
    {
        let c = s.get_char(i);
        if !('0' <= c && c <= '9') {
            return false;
        }
        i = i + 1;
    }
    true
}

/// The value of the digits `s`, if all are digits and the value fits.
pub fn parse_digits(s: &str) -> (r: Option<u128>)
    ensures
        r matches Some(v) ==> all_digits(s@) && digits_value(s@) == v as nat,
        r is None ==> !all_digits(s@) || digits_value(s@) > u128::MAX,
{
    let n = s.unicode_len();
    let mut value: u128 = 0;
    let mut i: usize = 0;
    while i < n
        invariant
            i <= n,
            n == s@.len(),
            all_digits(s@.take(i as int)),
            value as nat == digits_value(s@.take(i as int)),
        decreases n - i,
    {
        let c = s.get_char(i);
        proof {
            assert(s@.take(i + 1).drop_last() =~= s@.take(i as int));
            assert(s@.take(i + 1).last() == c);
        }
        if !('0' <= c && c <= '9') {
            return None;
        }
        let d = (c as u32 - 48) as u128;
        proof {
            assert forall|k: int| 0 <= k < i + 1 implies '0' <= #[trigger] s@.take(i + 1)[k] <= '9' by {
                if k < i {
                    assert(s@.take(i + 1)[k] == s@.take(i as int)[k]);
                }
            }
        }
        if value > (u128::MAX - d) / 10 {
            proof {
                assert(digits_value(s@.take(i + 1)) == value * 10 + d);
                assert(value * 10 + d > u128::MAX) by (nonlinear_arith)
                    requires
                        value > (u128::MAX - d) / 10,
                        d <= 9,
                ;
                if all_digits(s@) {
                    assert(s@.take(n as int) =~= s@);
                    lemma_digits_value_grows(s@, i + 1, n as int);
                }
            }
            return None;
        }
        value = value * 10 + d;
        i = i + 1;
    }
    proof {
        assert(s@.take(n as int) =~= s@);
    }
    Some(value)
}

/// Reads an unsigned decimal number.
pub fn parse_unsigned(s: &str) -> (r: Option<u128>)
    ensures
        r matches Some(v) ==> unsigned_value(s@) == Some(v as nat),
        r is None ==> unsigned_value(s@) is None,
{
    let n = s.unicode_len();
    let start: usize = if n > 0 && s.get_char(0) == '+' { 1 } else { 0 };
    let body = s.substring_char(start, n);
    proof {
        assert(body@ =~= (if s@.len() > 0 && s@[0] == '+' { s@.drop_first() } else { s@ }));
    }
    if start == n {
        return None;
    }
    parse_digits(body)
}

/// Index of the first `c` in `s` from `i` on, or `-1`.
pub open spec fn first_index_from(s: Seq<char>, c: char, i: int) -> int
    decreases s.len() - i,
{
    if i < 0 || i >= s.len() {
        -1
    } else if s[i] == c {
        i
    } else {
        first_index_from(s, c, i + 1)
    }
}

/// The digit at `i` of a fraction, 0 past its end.
pub open spec fn frac_digit(f: Seq<char>, i: int) -> nat {
    if 0 <= i < f.len() {
        ((f[i] as u32) - 48) as nat
    } else {
        0
    }
}

/// `10` to the power `p`.
pub open spec fn pow10(p: nat) -> nat
    decreases p,
{
    if p == 0 { 1 } else { 10 * pow10((p - 1) as nat) }
}

/// The first `p` digits of a fraction as a number, padded with zeros.
pub open spec fn frac_prefix(f: Seq<char>, p: nat) -> nat
    decreases p,
{
    if p == 0 { 0 } else { frac_prefix(f, (p - 1) as nat) * 10 + frac_digit(f, p - 1) }
}

/// A non-negative decimal number in units of `10^-p`, rounded half up:
/// digits with an optional `.` and fraction after an optional `+`, at least
/// one digit in all, whose value fits in `u32`.
pub open spec fn decimal_scaled(s: Seq<char>, p: nat) -> Option<nat> {
    let body = if s.len() > 0 && s[0] == '+' { s.drop_first() } else { s };
    let dot = first_index_from(body, '.', 0);
    let whole = if dot >= 0 { body.subrange(0, dot) } else { body };
    let frac = if dot >= 0 { body.subrange(dot + 1, body.len() as int) } else { seq![] };
    let v = digits_value(whole) * pow10(p) + frac_prefix(frac, p)
        + if frac_digit(frac, p as int) >= 5 { 1nat } else { 0nat };
    if whole.len() + frac.len() > 0 && all_digits(whole) && all_digits(frac) && v <= u32::MAX {
        Some(v)
    } else {
        None
    }
}

/// A non-negative decimal number in hundredths: `1.5` is 150, `9.125` is 913.
pub open spec fn decimal_hundredths(s: Seq<char>) -> Option<nat> {
    decimal_scaled(s, 2)
}

/// A decimal number in units of `10^-p` with an optional leading `-`.
pub open spec fn signed_scaled(s: Seq<char>, p: nat) -> Option<int> {
    if s.len() > 0 && s[0] == '-' {
        match decimal_scaled(s.drop_first(), p) {
            Some(v) => Some(-(v as int)),
            None => None,
        }
    } else {
        match decimal_scaled(s, p) {
            Some(v) => Some(v as int),
            None => None,
        }
    }
}

fn frac_digit_at(f: &str, i: usize) -> (r: u128)
    requires
        all_digits(f@),
    ensures
        r as nat == frac_digit(f@, i as int),
        r <= 9,
{
    if i < f.unicode_len() {
        let c = f.get_char(i);
        (c as u32 - 48) as u128
    } else {
        0
    }
}

proof fn lemma_pow10_mono(i: nat, j: nat)
    requires
        i <= j,
    ensures
        1 <= pow10(i) <= pow10(j),
    decreases j,
{
    if i < j {
        lemma_pow10_mono(i, (j - 1) as nat);
    } else if j > 0 {
        lemma_pow10_mono(0, (j - 1) as nat);
    }
}

/// Reads a non-negative decimal number in units of `10^-places`.
pub fn parse_scaled(s: &str, places: u32) -> (r: Option<u32>)
    requires
        places <= 9,
    ensures
        r matches Some(v) ==> decimal_scaled(s@, places as nat) == Some(v as nat),
        r is None ==> decimal_scaled(s@, places as nat) is None,
{
    let n = s.unicode_len();
    let start: usize = if n > 0 && s.get_char(0) == '+' { 1 } else { 0 };
    let body = s.substring_char(start, n);
    proof {
        assert(body@ =~= (if s@.len() > 0 && s@[0] == '+' { s@.drop_first() } else { s@ }));
    }
    let bn = body.unicode_len();
    let mut j: usize = 0;
    while j < bn && body.get_char(j) != '.'
        invariant
            j <= bn,
            bn == body@.len(),
            first_index_from(body@, '.', 0) == first_index_from(body@, '.', j as int),
        decreases bn - j,
    {
        j = j + 1;
    }
    proof {
        reveal_strlit("");
    }
    let (whole, frac) = if j < bn {
        (body.substring_char(0, j), body.substring_char(j + 1, bn))
    } else {
        (body, "")
    };
    if whole.unicode_len() == 0 && frac.unicode_len() == 0 {
        return None;
    }
    if !all_digit_chars(frac) {
        return None;
    }
    proof {
        lemma_pow10_mono(0, places as nat);
        let x = digits_value(whole@);
        let q = pow10(places as nat);
        assert(x * q >= x) by (nonlinear_arith)
            requires
                q >= 1,
        ;
    }
    let w = match parse_digits(whole) {
        Some(w) => w,
        None => {
            return None;
        },
    };
    if w > u32::MAX as u128 {
        return None;
    }
    let mut scale: u128 = 1;
    let mut fp: u128 = 0;
    let mut k: u32 = 0;
    while k < places
        invariant
            k <= places <= 9,
            all_digits(frac@),
            scale as nat == pow10(k as nat),
            fp as nat == frac_prefix(frac@, k as nat),
            fp < scale,
            scale <= 1_000_000_000,
        decreases places - k,
    {
        let d = frac_digit_at(frac, k as usize);
        proof {
            reveal_with_fuel(pow10, 10);
            lemma_pow10_mono((k + 1) as nat, 9);
            assert(pow10(9) == 1_000_000_000);
            assert(fp * 10 + d < scale * 10) by (nonlinear_arith)
                requires
                    fp < scale,
                    d <= 9,
            ;
        }
        fp = fp * 10 + d;
        scale = scale * 10;
        k = k + 1;
    }
    let round = if frac_digit_at(frac, places as usize) >= 5 { 1u128 } else { 0u128 };
    proof {
        assert(w * scale <= u32::MAX * 1_000_000_000) by (nonlinear_arith)
            requires
                w <= u32::MAX,
                scale <= 1_000_000_000,
        ;
    }
    let v = w * scale + fp + round;
    proof {
        let dot = first_index_from(body@, '.', 0);
        assert(dot == (if j < bn { j as int } else { -1 }));
        assert(whole@ == (if dot >= 0 { body@.subrange(0, dot) } else { body@ }));
        assert(frac@ =~= (if dot >= 0 { body@.subrange(dot + 1, body@.len() as int) } else { seq![] }));
        assert(k == places);
        assert(w as nat == digits_value(whole@));
        assert(scale as nat == pow10(places as nat));
        assert((w * scale) as nat == digits_value(whole@) * pow10(places as nat));
        assert(v as nat == digits_value(whole@) * pow10(places as nat) + frac_prefix(frac@, places as nat)
            + if frac_digit(frac@, places as int) >= 5 { 1nat } else { 0nat });
    }
    if v > u32::MAX as u128 {
        None
    } else {
        Some(v as u32)
    }
}

/// Reads a decimal number with an optional leading `-` in units of
/// `10^-places`.
pub fn parse_signed_scaled(s: &str, places: u32) -> (r: Option<i64>)
    requires
        places <= 9,
    ensures
        r matches Some(v) ==> signed_scaled(s@, places as nat) == Some(v as int),
        r is None ==> signed_scaled(s@, places as nat) is None,
{
    let n = s.unicode_len();
    if n > 0 && s.get_char(0) == '-' {
        let rest = s.substring_char(1, n);
        proof {
            assert(rest@ =~= s@.drop_first());
        }
        match parse_scaled(rest, places) {
            Some(v) => Some(0 - (v as i64)),
            None => None,
        }
    } else {
        match parse_scaled(s, places) {
            Some(v) => Some(v as i64),
            None => None,
        }
    }
}

/// Reads a non-negative decimal number into hundredths.
pub fn parse_hundredths(s: &str) -> (r: Option<u32>)
    ensures
        r matches Some(v) ==> decimal_hundredths(s@) == Some(v as nat),
        r is None ==> decimal_hundredths(s@) is None,
{
    parse_scaled(s, 2)
}

/// `v` in decimal, with a `-` when negative.
pub open spec fn signed_decimal(v: int) -> Seq<char> {
    if v < 0 {
        seq!['-'] + decimal((-v) as nat)
    } else {
        decimal(v as nat)
    }
}

/// The last `p` digits of `f`, padded with zeros.
pub open spec fn padded(f: nat, p: nat) -> Seq<char>
    decreases p,
{
    if p == 0 {
        seq![]
    } else {
        padded(f / 10, (p - 1) as nat) + seq![digit_char((f % 10) as int)]
    }
}

/// The `p` fraction digits `f` without their trailing zeros.
pub open spec fn frac_text(f: nat, p: nat) -> Seq<char>
    decreases p,
{
    if f == 0 || p == 0 {
        seq![]
    } else if f % 10 == 0 {
        frac_text(f / 10, (p - 1) as nat)
    } else {
        padded(f, p)
    }
}

/// The shortest decimal rendering of `v * 10^-p`: `333333` at 3 places is
/// `333.333`, `250500` is `250.5`, `500000` is `500`.
pub open spec fn scaled(v: nat, p: nat) -> Seq<char> {
    let ft = frac_text(v % pow10(p), p);
    decimal(v / pow10(p)) + if ft.len() == 0 { seq![] } else { seq!['.'] + ft }
}

/// `v * 10^-p` in decimal, with a `-` when negative.
pub open spec fn signed_scaled_text(v: int, p: nat) -> Seq<char> {
    if v < 0 {
        seq!['-'] + scaled((-v) as nat, p)
    } else {
        scaled(v as nat, p)
    }
}

/// Renders `v` in decimal.
pub fn signed_decimal_text(v: i64) -> (r: String)
    ensures
        r@ == signed_decimal(v as int),
{
    if v < 0 {
        proof {
            reveal_strlit("-");
        }
        let mut s = String::from_str("-");
        let digits = decimal_text((0 - (v as i128)) as u128);
        s.append(digits.as_str());
        s
    } else {
        decimal_text(v as u128)
    }
}

fn pow10_exec(p: u32) -> (r: u64)
    requires
        p <= 18,
    ensures
        r as nat == pow10(p as nat),
{
    let mut r: u64 = 1;
    let mut k: u32 = 0;
    while k < p
        invariant
            k <= p <= 18,
            r as nat == pow10(k as nat),
            r <= pow10(k as nat),
        decreases p - k,
    {
        proof {
            reveal_with_fuel(pow10, 19);
            lemma_pow10_mono((k + 1) as nat, 18);
            assert(pow10(18) == 1_000_000_000_000_000_000);
        }
        r = r * 10;
        k = k + 1;
    }
    r
}

fn padded_text(out: &mut String, f: u64, p: u32)
    ensures
        final(out)@ == old(out)@ + padded(f as nat, p as nat),
    decreases p,
{
    if p > 0 {
        padded_text(out, f / 10, p - 1);
        out.append(digit_str((f % 10) as u128));
        proof {
            assert(final(out)@ =~= old(out)@ + padded(f as nat, p as nat));
        }
    }
}

fn frac_text_exec(out: &mut String, f: u64, p: u32)
    ensures
        final(out)@ == old(out)@ + frac_text(f as nat, p as nat),
    decreases p,
{
    if f == 0 || p == 0 {
        proof {
            assert(final(out)@ =~= old(out)@ + frac_text(f as nat, p as nat));
        }
    } else if f % 10 == 0 {
        frac_text_exec(out, f / 10, p - 1);
    } else {
        padded_text(out, f, p);
    }
}

/// Renders `v * 10^-places` with as few decimals as it needs.
pub fn scaled_text(v: i64, places: u32) -> (r: String)
    requires
        places <= 18,
    ensures
        r@ == signed_scaled_text(v as int, places as nat),
{
    let m: u64 = if v < 0 { (0 - (v as i128)) as u64 } else { v as u64 };
    let q = pow10_exec(places);
    proof {
        lemma_pow10_mono(0, places as nat);
        reveal_strlit("-");
        reveal_strlit(".");
    }
    let mut s = if v < 0 { String::from_str("-") } else { String::new() };
    let whole = decimal_text((m / q) as u128);
    s.append(whole.as_str());
    let mut ft = String::new();
    frac_text_exec(&mut ft, m % q, places);
    if ft.unicode_len() > 0 {
        s.append(".");
        s.append(ft.as_str());
    }
    proof {
        assert(s@ =~= signed_scaled_text(v as int, places as nat));
    }
    s
}

proof fn lemma_digit_char(d: int)
    requires
        0 <= d < 10,
    ensures
        '0' <= digit_char(d) <= '9',
        (digit_char(d) as u32) - 48 == d,
{
}

proof fn lemma_decimal_digits(n: nat)
    ensures
        decimal(n).len() > 0,
        all_digits(decimal(n)),
        digits_value(decimal(n)) == n,
    decreases n,
{
    if n < 10 {
        lemma_digit_char(n as int);
        let s = seq![digit_char(n as int)];
        assert(s.drop_last() =~= Seq::<char>::empty());
        assert(digits_value(s) == digits_value(s.drop_last()) * 10 + ((s.last() as u32) - 48) as nat);
        assert(digits_value(s.drop_last()) == 0);
    } else {
        lemma_decimal_digits(n / 10);
        lemma_digit_char((n % 10) as int);
        let s = decimal(n / 10) + seq![digit_char((n % 10) as int)];
        assert(s.drop_last() =~= decimal(n / 10));
        assert(s.last() == digit_char((n % 10) as int));
        assert(digits_value(s) == digits_value(s.drop_last()) * 10 + ((s.last() as u32) - 48) as nat);
        assert(digits_value(s) == (n / 10) * 10 + n % 10);
        assert forall|i: int| 0 <= i < s.len() implies '0' <= #[trigger] s[i] <= '9' by {
            if i < decimal(n / 10).len() {
                assert(s[i] == decimal(n / 10)[i]);
            }
        }
    }
}

/// A count written with [`decimal_text`] reads back as the same count.
pub proof fn lemma_decimal_round_trip(n: u128)
    ensures
        unsigned_value(decimal(n as nat)) == Some(n as nat),
{
    lemma_decimal_digits(n as nat);
    let s = decimal(n as nat);
    assert('0' <= s[0] <= '9');
}

} // verus!
