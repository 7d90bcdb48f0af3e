//! Decimal texts as scaled integers.

use vstd::prelude::*;
use vstd::string::*;
use vstd::utf8::*;

use crate::text::{
    all_digits, decimal, digit_value, digits_to_u64, digits_value, find_char, index_of,
    is_all_digits, is_digit, is_white_space, lemma_index_of, pow10, sub_chars, text_of, trim,
    trim_end_char, trimmed, u64_text, without_trailing,
};
use crate::traits::{ErrorView, ExchangeError};

verus! {

/// The bytes without the zeros at their end.
pub open spec fn without_zeros(b: Seq<u8>) -> Seq<u8>
    decreases b.len(),
{
    if b.len() > 0 && b.last() == 0x30 {
        without_zeros(b.drop_last())
    } else {
        b
    }
}

/// The index of the first decimal point, or the length where there is none.
pub open spec fn point_index(b: Seq<u8>) -> int
    decreases b.len(),
{
    if b.len() == 0 || b[0] == 0x2e {
        0
    } else {
        1 + point_index(b.skip(1))
    }
}

/// How many bytes of a decimal text stand behind the point once trailing zeros are dropped, at most
/// 255.
pub open spec fn significant_decimals(b: Seq<u8>) -> u8 {
    let t = without_zeros(b);
    let n = t.len() - point_index(b) - 1;
    if point_index(b) == b.len() || t.last() == 0x2e {
        0
    } else if n > 255 {
        255
    } else {
        n as u8
    }
}

proof fn lemma_point_index(b: Seq<u8>, k: int)
    requires
        0 <= k <= b.len(),
        k < b.len() ==> b[k] == 0x2e,
        forall|i: int| 0 <= i < k ==> b[i] != 0x2e,
    ensures
        point_index(b) == k,
    decreases b.len(),
{
    if b.len() > 0 && k > 0 {
        assert(b[0] != 0x2e);
        assert forall|i: int| 0 <= i < k - 1 implies b.skip(1)[i] != 0x2e by {
            assert(b.skip(1)[i] == b[i + 1]);
        }
        lemma_point_index(b.skip(1), k - 1);
    }
}

/// Counts the significant decimal places of a text: "0.10000000" has 1, "0.01" has 2, "1" and "1.0"
/// have none.
pub fn count_decimals_trimmed(value: &str) -> (r: u8)
    ensures
        r == significant_decimals(value.spec_bytes()),
{
    let b = value.as_bytes();
    let mut dot: usize = 0;
    while dot < b.len() && b[dot] != 0x2e
        invariant
            dot <= b@.len(),
            forall|i: int| 0 <= i < dot ==> b@[i] != 0x2e,
        decreases b@.len() - dot,
    {
        dot = dot + 1;
    }
    proof {
        lemma_point_index(b@, dot as int);
    }
    if dot == b.len() {
        return 0;
    }
    let mut n: usize = b.len();
    assert(b@.take(n as int) =~= b@);
    while n > dot + 1 && b[n - 1] == 0x30
        invariant
            dot < n <= b@.len(),
            b@[dot as int] == 0x2e,
            without_zeros(b@) == without_zeros(b@.take(n as int)),
        decreases n,
    {
        assert(b@.take(n as int).drop_last() =~= b@.take(n as int - 1));
        n = n - 1;
    }
    assert(without_zeros(b@) == b@.take(n as int));
    if b[n - 1] == 0x2e {
        return 0;
    }
    let after: usize = n - dot - 1;
    if after > 255 {
        255
    } else {
        after as u8
    }
}

/// `n` zeros.
pub open spec fn zeros(n: nat) -> Seq<char> {
    Seq::new(n, |i: int| '0')
}

/// The digits behind the point, cut off or filled up with zeros to `scale` of them.
pub open spec fn fitted(frac: Seq<char>, scale: nat) -> Seq<char> {
    if frac.len() <= scale {
        frac + zeros((scale - frac.len()) as nat)
    } else {
        frac.take(scale as int)
    }
}

/// The digits before the point of a decimal text.
pub open spec fn int_part(s: Seq<char>) -> Seq<char> {
    s.take(index_of(s, '.'))
}

/// The digits behind the point of a decimal text.
pub open spec fn frac_part(s: Seq<char>) -> Seq<char> {
    if index_of(s, '.') < s.len() {
        s.skip(index_of(s, '.') + 1)
    } else {
        Seq::empty()
    }
}

/// The value of a decimal text times `10^scale`, without what is left behind the point, or the text
/// of the error.
pub open spec fn scaled(text: Seq<char>, scale: u8) -> Result<i64, Seq<char>> {
    let s = trimmed(text);
    let whole = int_part(s);
    let frac = frac_part(s);
    let fraction = digits_value(fitted(frac, scale as nat));
    let value = digits_value(whole) * pow10(scale as nat) + fraction;
    if s.len() == 0 {
        Err("empty number"@)
    } else if s[0] == '-' {
        Err("negative number not allowed: "@ + s)
    } else if whole.len() == 0 || !all_digits(whole) {
        Err("invalid integer part: "@ + s)
    } else if !all_digits(frac) {
        Err("invalid fractional part: "@ + s)
    } else if digits_value(whole) > i64::MAX || fraction > i64::MAX {
        Err("number too large to fit in target type"@)
    } else if pow10(scale as nat) > i64::MAX {
        Err("scale "@ + decimal(scale as nat) + " overflows i64"@)
    } else if value > i64::MAX {
        Err("value "@ + s + " overflows i64 at scale "@ + decimal(scale as nat))
    } else {
        Ok(value as i64)
    }
}

/// What `parse_scaled` returns.
pub open spec fn scaled_outcome(r: Result<i64, ExchangeError>) -> Result<i64, ErrorView> {
    match r {
        Ok(v) => Ok(v),
        Err(e) => Err(e@),
    }
}

/// `scaled`, its error as an error of parsing.
pub open spec fn scaled_or_error(text: Seq<char>, scale: u8) -> Result<i64, ErrorView> {
    match scaled(text, scale) {
        Ok(v) => Ok(v),
        Err(m) => Err(ErrorView::Parse(m)),
    }
}

fn digits_to_i64(cs: &[char]) -> (r: Option<i64>)
    requires
        all_digits(cs@),
    ensures
        r == if digits_value(cs@) <= i64::MAX {
            Some(digits_value(cs@) as i64)
        } else {
            None::<i64>
        },
{
    match digits_to_u64(cs) {
        Some(v) => if v <= i64::MAX as u64 {
            Some(v as i64)
        } else {
            None
        },
        None => None,
    }
}

/// Ten to the power `n`, or `None` where it is above `i64::MAX`.
fn power_of_ten(n: u8) -> (r: Option<i64>)
    ensures
        r == if pow10(n as nat) <= i64::MAX {
            Some(pow10(n as nat) as i64)
        } else {
            None::<i64>
        },
{
    let mut v: i64 = 1;
    let mut i: u8 = 0;
    while i < n
        invariant
            i <= n,
            v == pow10(i as nat),
        decreases n - i,
    {
        proof {
            lemma_pow10_grows(i as nat + 1, n as nat);
        }
        v = match v.checked_mul(10) {
            Some(x) => x,
            None => {
                return None;
            },
        };
        i = i + 1;
    }
    Some(v)
}

proof fn lemma_pow10_grows(m: nat, n: nat)
    requires
        m <= n,
    ensures
        0 < pow10(m) <= pow10(n),
    decreases n,
{
    if m < n {
        lemma_pow10_grows(m, (n - 1) as nat);
    } else if n > 0 {
        lemma_pow10_grows((m - 1) as nat, (n - 1) as nat);
    }
}

/// Reads a decimal text as an integer scaled by `10^scale`. Digits behind the scale are cut off; a
/// negative number is refused.
pub fn parse_scaled(s: &str, scale: u8) -> (r: Result<i64, ExchangeError>)
    ensures
        scaled_outcome(r) == scaled_or_error(s@, scale),
{
    let cs = trim(s);
    if cs.len() == 0 {
        return Err(ExchangeError::Parse("empty number".to_owned()));
    }
    let text = text_of(&cs);
    if cs[0] == '-' {
        return Err(
            ExchangeError::Parse("negative number not allowed: ".to_owned().concat(text.as_str())),
        );
    }
    proof {
        lemma_index_of(cs@, '.');
    }
    let dot: usize = find_char(&cs, '.');
    let whole = sub_chars(&cs, 0, dot);
    assert(whole@ =~= int_part(cs@));
    let frac = if dot < cs.len() {
        sub_chars(&cs, dot + 1, cs.len())
    } else {
        Vec::new()
    };
    assert(frac@ =~= frac_part(cs@));
    if whole.len() == 0 || !is_all_digits(&whole) {
        return Err(
            ExchangeError::Parse("invalid integer part: ".to_owned().concat(text.as_str())),
        );
    }
    if !is_all_digits(&frac) {
        return Err(
            ExchangeError::Parse("invalid fractional part: ".to_owned().concat(text.as_str())),
        );
    }
    let int_val: i64 = match digits_to_i64(&whole) {
        Some(v) => v,
        None => {
            return Err(ExchangeError::Parse("number too large to fit in target type".to_owned()));
        },
    };
    let fit = fit_digits(&frac, scale);
    let frac_val: i64 = match digits_to_i64(&fit) {
        Some(v) => v,
        None => {
            return Err(ExchangeError::Parse("number too large to fit in target type".to_owned()));
        },
    };
    let scale_text = u64_text(scale as u64);
    let multiplier: i64 = match power_of_ten(scale) {
        Some(v) => v,
        None => {
            return Err(
                ExchangeError::Parse(
                    "scale ".to_owned().concat(scale_text.as_str()).concat(" overflows i64"),
                ),
            );
        },
    };
    proof {
        lemma_pow10_grows(0, scale as nat);
        assert(int_val * multiplier >= 0) by (nonlinear_arith)
            requires
                int_val >= 0,
                multiplier > 0,
        ;
    }
    let total: Option<i64> = match int_val.checked_mul(multiplier) {
        Some(v) => v.checked_add(frac_val),
        None => None,
    };
    match total {
        Some(v) => Ok(v),
        None => Err(
            ExchangeError::Parse(
                "value ".to_owned().concat(text.as_str()).concat(" overflows i64 at scale ").concat(
                    scale_text.as_str(),
                ),
            ),
        ),
    }
}

/// Cuts the digits off at `scale`, or fills them up with zeros.
fn fit_digits(frac: &Vec<char>, scale: u8) -> (r: Vec<char>)
    requires
        all_digits(frac@),
    ensures
        r@ == fitted(frac@, scale as nat),
        all_digits(r@),
{
    if frac.len() <= scale as usize {
        let mut out = sub_chars(frac, 0, frac.len());
        assert(out@ =~= frac@ + zeros(0));
        while out.len() < scale as usize
            invariant
                frac@.len() <= out@.len() <= scale,
                out@ == frac@ + zeros((out@.len() - frac@.len()) as nat),
            decreases scale - out@.len(),
        {
            out.push('0');
            assert(out@ =~= frac@ + zeros((out@.len() - frac@.len()) as nat));
        }
        out
    } else {
        let out = sub_chars(frac, 0, scale as usize);
        assert(out@ =~= fitted(frac@, scale as nat));
        out
    }
}

/// How many decimal places a JSON number is written with before it is shortened.
pub const DECIMAL_PLACES: u8 = 12;

/// The shortest form of a fixed-point text: no zeros and no point at its end, and "0" for what is
/// not positive.
pub open spec fn plain_decimal(fixed: Seq<char>) -> Seq<char> {
    let t = without_trailing(without_trailing(fixed, '0'), '.');
    if fixed.len() > 0 && fixed[0] == '-' || t.len() == 0 {
        "0"@
    } else {
        t
    }
}

/// Shortens a number that is written with a fixed number of decimal places.
pub fn fmt_decimal(fixed: &str) -> (r: String)
    ensures
        r@ == plain_decimal(fixed@),
{
    if crate::text::starts_with_char(fixed, '-') {
        return "0".to_owned();
    }
    let t = trim_end_char(trim_end_char(fixed, '0').as_str(), '.');
    if t.as_str().is_empty() {
        "0".to_owned()
    } else {
        t
    }
}

proof fn lemma_digits_value_concat(a: Seq<char>, b: Seq<char>)
    ensures
        digits_value(a + b) == digits_value(a) * pow10(b.len()) + digits_value(b),
        digits_value(b) < pow10(b.len()),
    decreases b.len(),
{
    if b.len() == 0 {
        assert(a + b =~= a);
        assert(pow10(0) == 1);
    } else {
        let init = b.drop_last();
        lemma_digits_value_concat(a, init);
        assert((a + b).drop_last() =~= a + init);
        assert((a + b).last() == b.last());
        let x = digits_value(a);
        let y = pow10(init.len());
        assert(pow10(b.len()) == 10 * y);
        assert(x * (10 * y) == 10 * (x * y)) by (nonlinear_arith);
    }
}

proof fn lemma_zeros_value(n: nat)
    ensures
        digits_value(zeros(n)) == 0,
    decreases n,
{
    if n > 0 {
        lemma_zeros_value((n - 1) as nat);
        assert(zeros(n).drop_last() =~= zeros((n - 1) as nat));
        assert(zeros(n).last() == '0');
    }
}

proof fn lemma_pow10_sum(m: nat, n: nat)
    ensures
        pow10(m + n) == pow10(m) * pow10(n),
    decreases m,
{
    if m > 0 {
        lemma_pow10_sum((m - 1) as nat, n);
        let x = pow10((m - 1) as nat);
        let y = pow10(n);
        assert(10 * (x * y) == (10 * x) * y) by (nonlinear_arith);
    } else {
        assert(pow10(0) * pow10(n) == pow10(n)) by (nonlinear_arith)
            requires
                pow10(0) == 1,
        ;
    }
}

/// Where a text scales, the result is its value times `10^scale`, rounded down: with `d` digits
/// behind the point, the digits of the text as one number are its value times `10^d`.
pub proof fn law_scaled_rounds_down(text: Seq<char>, scale: u8)
    requires
        scaled(text, scale) is Ok,
    ensures
        ({
            let s = trimmed(text);
            let d = frac_part(s).len();
            let digits = digits_value(int_part(s) + frac_part(s));
            let v = scaled(text, scale)->Ok_0;
            &&& v * pow10(d) <= digits * pow10(scale as nat)
            &&& digits * pow10(scale as nat) < (v + 1) * pow10(d)
        }),
{
    let s = trimmed(text);
    let whole = int_part(s);
    let frac = frac_part(s);
    let d = frac.len();
    let n = scale as nat;
    let w = digits_value(whole) as int;
    let f = digits_value(frac) as int;
    let g = digits_value(fitted(frac, n)) as int;
    let pd = pow10(d) as int;
    let pn = pow10(n) as int;
    lemma_digits_value_concat(whole, frac);
    lemma_pow10_grows(0, n);
    lemma_pow10_grows(0, d);
    if d <= n {
        let k = (n - d) as nat;
        let pk = pow10(k) as int;
        lemma_digits_value_concat(frac, zeros(k));
        lemma_zeros_value(k);
        lemma_pow10_sum(d, k);
        assert(g == f * pk);
        assert((w * pn + g) * pd == (w * pd + f) * pn) by (nonlinear_arith)
            requires
                g == f * pk,
                pn == pd * pk,
        ;
        assert((w * pd + f) * pn < (w * pn + g + 1) * pd) by (nonlinear_arith)
            requires
                (w * pn + g) * pd == (w * pd + f) * pn,
                pd > 0,
        ;
    } else {
        let k = (d - n) as nat;
        let pk = pow10(k) as int;
        let rest = frac.skip(n as int);
        assert(frac =~= frac.take(n as int) + rest);
        lemma_digits_value_concat(frac.take(n as int), rest);
        lemma_pow10_sum(n, k);
        let r = digits_value(rest) as int;
        assert(f == g * pk + r);
        assert((w * pn + g) * pd <= (w * pd + f) * pn) by (nonlinear_arith)
            requires
                f == g * pk + r,
                pd == pn * pk,
                r >= 0,
                pn > 0,
        ;
        assert((w * pd + f) * pn < (w * pn + g + 1) * pd) by (nonlinear_arith)
            requires
                f == g * pk + r,
                pd == pn * pk,
                r < pk,
                pn > 0,
        ;
    }
}

proof fn lemma_without_zeros(b: Seq<u8>, k: int)
    requires
        0 < k <= b.len(),
        b[k - 1] != 0x30,
        forall|i: int| k <= i < b.len() ==> b[i] == 0x30,
    ensures
        without_zeros(b) == b.take(k),
    decreases b.len(),
{
    if k < b.len() {
        assert(b.last() == 0x30);
        lemma_without_zeros(b.drop_last(), k);
        assert(b.drop_last().take(k) =~= b.take(k));
    } else {
        assert(b.take(k) =~= b);
    }
}

/// The significant decimals of a plain decimal text are all its decimals but the trailing zeros, at
/// most 255.
pub proof fn law_significant_decimals(whole: Seq<char>, frac: Seq<char>, k: int)
    requires
        all_digits(whole),
        all_digits(frac),
        0 <= k <= frac.len(),
        forall|i: int| k <= i < frac.len() ==> frac[i] == '0',
        k > 0 ==> frac[k - 1] != '0',
    ensures
        significant_decimals(encode_utf8(whole + seq!['.'] + frac)) == (if k > 255 {
            255
        } else {
            k
        }),
        significant_decimals(encode_utf8(whole)) == 0,
{
    let s = whole + seq!['.'] + frac;
    assert forall|i: int| 0 <= i < s.len() implies is_digit(#[trigger] s[i]) || s[i] == '.' by {
        if i < whole.len() {
            assert(s[i] == whole[i]);
        } else if i > whole.len() {
            assert(s[i] == frac[i - whole.len() - 1]);
        }
    }
    assert forall|i: int| 0 <= i < whole.len() implies is_digit(#[trigger] whole[i]) by {
    }
    is_ascii_chars_encode_utf8(s);
    is_ascii_chars_encode_utf8(whole);
    let b = encode_utf8(s);
    let n = whole.len() as int;
    assert(b.len() == s.len());
    assert(s[n] == '.');
    assert forall|i: int| 0 <= i < n implies b[i] != 0x2e by {
        assert(s[i] == whole[i]);
        assert(is_digit(whole[i]));
    }
    lemma_point_index(b, n);
    assert forall|i: int| 0 <= i < frac.len() implies b[n + 1 + i] == frac[i] as u8 by {
        assert(s[n + 1 + i] == frac[i]);
    }
    assert(b[n] == 0x2e);
    assert forall|i: int| n + 1 + k <= i < b.len() implies b[i] == 0x30 by {
        assert(frac[i - n - 1] == '0');
        assert(b[n + 1 + (i - n - 1)] == 0x30);
    }
    if k > 0 {
        assert(is_digit(frac[k - 1]));
        assert(b[n + 1 + (k - 1)] == frac[k - 1] as u8);
    }
    lemma_without_zeros(b, n + 1 + k);
    let wb = encode_utf8(whole);
    assert forall|i: int| 0 <= i < n implies wb[i] != 0x2e by {
        assert(is_digit(whole[i]));
    }
    lemma_point_index(wb, n);
}

proof fn lemma_trimmed_is_whole(s: Seq<char>)
    requires
        s.len() > 0,
        !is_white_space(s[0]),
        !is_white_space(s.last()),
    ensures
        trimmed(s) == s,
{
}

proof fn lemma_zero_digits(s: Seq<char>)
    requires
        forall|i: int| 0 <= i < s.len() ==> s[i] == '0',
    ensures
        digits_value(s) == 0,
    decreases s.len(),
{
    if s.len() > 0 {
        assert forall|i: int| 0 <= i < s.drop_last().len() implies s.drop_last()[i] == '0' by {
            assert(s.drop_last()[i] == s[i]);
        }
        lemma_zero_digits(s.drop_last());
    }
}

proof fn lemma_scale_bound(scale: u8)
    requires
        pow10(scale as nat) <= i64::MAX,
    ensures
        scale <= 18,
{
    if scale >= 19 {
        lemma_pow10_grows(19, scale as nat);
        reveal_with_fuel(pow10, 20);
        assert(pow10(19) == 10_000_000_000_000_000_000);
    }
}

/// Scaled by its own significant decimals, a plain decimal text keeps its value exactly, and no
/// smaller scale would do: the result ends in no zero unless the scale is 0.
pub proof fn law_own_scale_is_exact(whole: Seq<char>, frac: Seq<char>)
    requires
        whole.len() > 0,
        all_digits(whole),
        all_digits(frac),
        scaled(
            whole + seq!['.'] + frac,
            significant_decimals(encode_utf8(whole + seq!['.'] + frac)),
        ) is Ok,
    ensures
        ({
            let s = whole + seq!['.'] + frac;
            let k = significant_decimals(encode_utf8(s));
            &&& scaled(s, k)->Ok_0 * pow10(frac.len()) == digits_value(whole + frac) * pow10(
                k as nat,
            )
            &&& k == 0 || scaled(s, k)->Ok_0 % 10 != 0
        }),
{
    let s = whole + seq!['.'] + frac;
    let k = last_nonzero(frac);
    lemma_last_nonzero(frac);
    law_significant_decimals(whole, frac, k);
    lemma_scale_bound(significant_decimals(encode_utf8(s)));
    let n = k as nat;
    let d = frac.len();
    assert(is_digit(s[0])) by {
        assert(s[0] == whole[0]);
    }
    assert(!is_white_space(s.last())) by {
        if d > 0 {
            assert(s.last() == frac[d - 1]);
            assert(is_digit(frac[d - 1]));
        } else {
            assert(s.last() == '.');
        }
    }
    lemma_trimmed_is_whole(s);
    assert forall|i: int| 0 <= i < whole.len() implies s[i] != '.' by {
        assert(s[i] == whole[i]);
        assert(is_digit(whole[i]));
    }
    assert(s[whole.len() as int] == '.');
    crate::text::lemma_index_of_is(s, '.', whole.len() as int);
    assert(int_part(s) =~= whole);
    assert(frac_part(s) =~= frac);
    let head = frac.take(k);
    let rest = frac.skip(k);
    assert(frac =~= head + rest);
    assert(fitted(frac, n) =~= head);
    assert forall|i: int| 0 <= i < rest.len() implies rest[i] == '0' by {
        assert(rest[i] == frac[k + i]);
    }
    lemma_zero_digits(rest);
    lemma_digits_value_concat(head, rest);
    lemma_digits_value_concat(whole, frac);
    lemma_pow10_sum(n, (d - n) as nat);
    let w = digits_value(whole) as int;
    let g = digits_value(head) as int;
    let f = digits_value(frac) as int;
    let pn = pow10(n) as int;
    let pk = pow10((d - n) as nat) as int;
    let pd = pow10(d) as int;
    assert((w * pn + g) * pd == (w * pd + f) * pn) by (nonlinear_arith)
        requires
            pd == pn * pk,
            f == g * pk,
    ;
    if k > 0 {
        assert(head.last() == frac[k - 1]);
        assert(is_digit(frac[k - 1]));
        let p = pow10((n - 1) as nat) as int;
        let h = digits_value(head.drop_last()) as int;
        assert(pn == 10 * p);
        assert(w * pn == 10 * (w * p)) by (nonlinear_arith)
            requires
                pn == 10 * p,
        ;
        assert((10 * (w * p) + 10 * h + digit_value(head.last())) % 10 == digit_value(
            head.last(),
        ));
    }
}

/// How many digits stand before the zeros at the end.
pub open spec fn last_nonzero(frac: Seq<char>) -> int
    decreases frac.len(),
{
    if frac.len() == 0 || frac.last() != '0' {
        frac.len() as int
    } else {
        last_nonzero(frac.drop_last())
    }
}

proof fn lemma_last_nonzero(frac: Seq<char>)
    ensures
        0 <= last_nonzero(frac) <= frac.len(),
        forall|i: int| last_nonzero(frac) <= i < frac.len() ==> frac[i] == '0',
        last_nonzero(frac) > 0 ==> frac[last_nonzero(frac) - 1] != '0',
    decreases frac.len(),
{
    if frac.len() > 0 && frac.last() == '0' {
        let init = frac.drop_last();
        lemma_last_nonzero(init);
        assert forall|i: int| last_nonzero(frac) <= i < frac.len() implies frac[i] == '0' by {
            if i < init.len() {
                assert(init[i] == frac[i]);
            }
        }
    }
}

/// A decimal text is read exactly where it is plain digits, with a point and more digits behind it or
/// without, no blanks but around it, and its value at the scale fits.
pub proof fn law_plain_decimals_are_read(text: Seq<char>, whole: Seq<char>, frac: Seq<char>, scale: u8)
    requires
        whole.len() > 0,
        all_digits(whole),
        all_digits(frac),
        trimmed(text) == whole + seq!['.'] + frac || (trimmed(text) == whole && frac.len() == 0),
    ensures
        scaled(text, scale) is Ok <==> pow10(scale as nat) <= i64::MAX && digits_value(whole) * pow10(
            scale as nat,
        ) + digits_value(fitted(frac, scale as nat)) <= i64::MAX,
        scaled(text, scale) is Ok ==> scaled(text, scale)->Ok_0 == digits_value(whole) * pow10(
            scale as nat,
        ) + digits_value(fitted(frac, scale as nat)),
{
    let s = trimmed(text);
    let n = whole.len() as int;
    assert forall|i: int| 0 <= i < n implies s[i] != '.' by {
        assert(s[i] == whole[i]);
        assert(is_digit(whole[i]));
    }
    crate::text::lemma_index_of_is(s, '.', n);
    assert(int_part(s) =~= whole);
    assert(frac_part(s) =~= frac);
    assert(is_digit(whole[0]) && s[0] == whole[0]);
    lemma_pow10_grows(0, scale as nat);
    assert(digits_value(whole) <= digits_value(whole) * pow10(scale as nat)) by (nonlinear_arith)
        requires
            pow10(scale as nat) >= 1,
    ;
}

/// What is read is plain digits, with a point and more digits behind it or without: no sign, no
/// exponent and no other character.
pub proof fn law_nothing_else_is_read(text: Seq<char>, scale: u8)
    requires
        scaled(text, scale) is Ok,
    ensures
        exists|whole: Seq<char>, frac: Seq<char>|
            {
                &&& whole.len() > 0
                &&& #[trigger] all_digits(whole)
                &&& #[trigger] all_digits(frac)
                &&& trimmed(text) == whole + seq!['.'] + frac || (trimmed(text) == whole && frac.len()
                    == 0)
            },
{
    let s = trimmed(text);
    let (whole, frac) = (int_part(s), frac_part(s));
    lemma_index_of(s, '.');
    if index_of(s, '.') < s.len() {
        assert(s =~= whole + seq!['.'] + frac);
    } else {
        assert(s =~= whole);
    }
    assert(all_digits(whole) && all_digits(frac));
}

/// The short form of a fixed-point text drops the zeros at its end, and the point where nothing is left
/// behind it; what is negative comes to zero.
pub proof fn law_short_form(whole: Seq<char>, frac: Seq<char>, zs: Seq<char>)
    requires
        whole.len() > 0,
        all_digits(whole),
        all_digits(frac),
        frac.len() > 0 ==> frac.last() != '0',
        forall|i: int| 0 <= i < zs.len() ==> zs[i] == '0',
    ensures
        plain_decimal(whole + seq!['.'] + frac + zs) == (if frac.len() > 0 {
            whole + seq!['.'] + frac
        } else {
            whole
        }),
        plain_decimal(seq!['-'] + whole) == "0"@,
{
    let head = whole + seq!['.'] + frac;
    assert(is_digit(whole[0]) && is_digit(whole.last()));
    if frac.len() > 0 {
        assert(head.last() == frac.last());
        assert(is_digit(frac.last()));
    } else {
        assert(head.last() == '.');
        assert(head.drop_last() =~= whole);
    }
    lemma_tail_is_dropped(head, zs, '0');
    assert((head + zs)[0] == whole[0]);
    assert(without_trailing(whole, '.') == whole);
    assert((seq!['-'] + whole)[0] == '-');
}

/// Characters of one kind at the end of a text are all dropped.
pub proof fn lemma_tail_is_dropped(head: Seq<char>, tail: Seq<char>, c: char)
    requires
        head.len() > 0,
        head.last() != c,
        forall|i: int| 0 <= i < tail.len() ==> tail[i] == c,
    ensures
        without_trailing(head + tail, c) == head,
    decreases tail.len(),
{
    if tail.len() > 0 {
        assert((head + tail).drop_last() =~= head + tail.drop_last());
        assert((head + tail).last() == c);
        lemma_tail_is_dropped(head, tail.drop_last(), c);
    } else {
        assert(head + tail =~= head);
    }
}

} // verus!
