//! Text as sequences of characters: trimming, searching, decimal numbers.

use vstd::prelude::*;
use vstd::string::*;
use vstd::std_specs::iter::*;
use vstd::utf8::{encode_utf8_decode_utf8, is_ascii_chars};

verus! {

/// `String::push`: the given character is appended to the end of the string.
pub assume_specification[ String::push ](s: &mut String, c: char)
    ensures
        final(s)@ == old(s)@.push(c),
;

/// What `str::to_uppercase` returns: the Unicode uppercase mapping of the text.
pub uninterp spec fn unicode_upper(s: Seq<char>) -> Seq<char>;

/// What `str::to_lowercase` returns: the Unicode lowercase mapping of the text.
pub uninterp spec fn unicode_lower(s: Seq<char>) -> Seq<char>;

/// The text in uppercase.
pub open spec fn upper(s: Seq<char>) -> Seq<char> {
    if is_ascii_chars(s) {
        ascii_upper(s)
    } else {
        unicode_upper(s)
    }
}

/// The text in lowercase.
pub open spec fn lower(s: Seq<char>) -> Seq<char> {
    if is_ascii_chars(s) {
        ascii_lower(s)
    } else {
        unicode_lower(s)
    }
}

/// `str::to_uppercase`: on ASCII text the ASCII mapping, on other text a result that depends on the
/// text alone.
#[verifier::external_body]
pub(crate) fn to_uppercase(s: &str) -> (r: String)
    ensures
        is_ascii_chars(s@) ==> r@ == ascii_upper(s@),
        !is_ascii_chars(s@) ==> r@ == unicode_upper(s@),
{
    s.to_uppercase()
}

/// `str::to_lowercase`: on ASCII text the ASCII mapping, on other text a result that depends on the
/// text alone.
#[verifier::external_body]
pub(crate) fn to_lowercase(s: &str) -> (r: String)
    ensures
        is_ascii_chars(s@) ==> r@ == ascii_lower(s@),
        !is_ascii_chars(s@) ==> r@ == unicode_lower(s@),
{
    s.to_lowercase()
}

/// The characters of a string slice.
pub fn chars_of(s: &str) -> (r: Vec<char>)
    ensures
        r@ == s@,
{
    let mut out: Vec<char> = Vec::new();
    for c in it: s.chars()
        invariant
            it.seq() == s@,
            out@ == it.seq().take(it.index()),
    {
        out.push(c);
        assert(out@ =~= it.seq().take(it.index() + 1));
    }
    assert(out@ =~= s@);
    out
}

/// The string made of the given characters.
pub fn text_of(cs: &[char]) -> (r: String)
    ensures
        r@ == cs@,
{
    let mut out = String::new();
    let mut i: usize = 0;
    while i < cs.len()
        invariant
            i <= cs.len(),
            out@ == cs@.take(i as int),
        decreases cs.len() - i,
    {
        out.push(cs[i]);
        i = i + 1;
        assert(out@ =~= cs@.take(i as int));
    }
    assert(out@ =~= cs@);
    out
}

/// Whether two string slices are the same text.
pub fn same_text(a: &str, b: &str) -> (r: bool)
    ensures
        r == (a@ == b@),
{
    let x = a.as_bytes();
    let y = b.as_bytes();
    proof {
        encode_utf8_decode_utf8(a@);
        encode_utf8_decode_utf8(b@);
    }
    if x.len() != y.len() {
        return false;
    }
    let mut i: usize = 0;
    while i < x.len()
        invariant
            i <= x@.len(),
            x@.len() == y@.len(),
            x@ == a.spec_bytes(),
            y@ == b.spec_bytes(),
            forall|j: int| 0 <= j < i ==> x@[j] == y@[j],
        decreases x@.len() - i,
    {
        if x[i] != y[i] {
            return false;
        }
        i = i + 1;
    }
    assert(x@ =~= y@);
    true
}

pub fn same_chars(x: &[char], y: &[char]) -> (r: bool)
    ensures
        r == (x@ == y@),
{
    if x.len() != y.len() {
        return false;
    }
    let mut i: usize = 0;
    while i < x.len()
        invariant
            i <= x.len(),
            x@.len() == y@.len(),
            forall|j: int| 0 <= j < i ==> x@[j] == y@[j],
        decreases x.len() - i,
    {
        if x[i] != y[i] {
            return false;
        }
        i = i + 1;
    }
    assert(x@ =~= y@);
    true
}

/// The text with every ASCII lowercase letter replaced by its uppercase letter.
pub open spec fn ascii_upper(s: Seq<char>) -> Seq<char> {
    s.map_values(|c: char| upper_char(c))
}

/// The text with every ASCII uppercase letter replaced by its lowercase letter.
pub open spec fn ascii_lower(s: Seq<char>) -> Seq<char> {
    s.map_values(|c: char| lower_char(c))
}

pub open spec fn upper_char(c: char) -> char {
    if 'a' <= c <= 'z' {
        ((c as u8) - 32) as char
    } else {
        c
    }
}

pub open spec fn lower_char(c: char) -> char {
    if 'A' <= c <= 'Z' {
        ((c as u8) + 32) as char
    } else {
        c
    }
}

/// ASCII uppercase of a string slice.
pub fn to_ascii_uppercase(s: &str) -> (r: String)
    ensures
        r@ == ascii_upper(s@),
{
    let cs = chars_of(s);
    let mut out = String::new();
    let mut i: usize = 0;
    while i < cs.len()
        invariant
            i <= cs.len(),
            cs@ == s@,
            out@ == ascii_upper(s@.take(i as int)),
        decreases cs.len() - i,
    {
        let c = cs[i];
        let u = if 'a' <= c && c <= 'z' {
            ((c as u8) - 32) as char
        } else {
            c
        };
        out.push(u);
        i = i + 1;
        assert(out@ =~= ascii_upper(s@.take(i as int)));
    }
    assert(s@.take(cs.len() as int) =~= s@);
    out
}

/// Whether two string slices are equal up to ASCII letter case.
pub fn eq_ignore_ascii_case(a: &str, b: &str) -> (r: bool)
    ensures
        r == (ascii_upper(a@) == ascii_upper(b@)),
{
    let x = to_ascii_uppercase(a);
    let y = to_ascii_uppercase(b);
    x == y
}

/// The characters with the Unicode property White_Space.
pub open spec fn is_white_space(c: char) -> bool {
    let n = c as u32;
    ||| 0x9 <= n <= 0xd
    ||| n == 0x20
    ||| n == 0x85
    ||| n == 0xa0
    ||| n == 0x1680
    ||| 0x2000 <= n <= 0x200a
    ||| n == 0x2028
    ||| n == 0x2029
    ||| n == 0x202f
    ||| n == 0x205f
    ||| n == 0x3000
}

fn white_space(c: char) -> (r: bool)
    ensures
        r == is_white_space(c),
{
    let n: u32 = c as u32;
    (0x9 <= n && n <= 0xd) || n == 0x20 || n == 0x85 || n == 0xa0 || n == 0x1680 || (0x2000 <= n && n
        <= 0x200a) || n == 0x2028 || n == 0x2029 || n == 0x202f || n == 0x205f || n == 0x3000
}

/// The text without its leading white space.
pub open spec fn trim_front(s: Seq<char>) -> Seq<char>
    decreases s.len(),
{
    if s.len() > 0 && is_white_space(s[0]) {
        trim_front(s.skip(1))
    } else {
        s
    }
}

/// The text without its trailing white space.
pub open spec fn trim_back(s: Seq<char>) -> Seq<char>
    decreases s.len(),
{
    if s.len() > 0 && is_white_space(s.last()) {
        trim_back(s.drop_last())
    } else {
        s
    }
}

/// The text without white space at either end.
pub open spec fn trimmed(s: Seq<char>) -> Seq<char> {
    trim_back(trim_front(s))
}

/// Removes the white space in front.
pub fn trim_start(s: &str) -> (r: Vec<char>)
    ensures
        r@ == trim_front(s@),
{
    let cs = chars_of(s);
    let mut i: usize = 0;
    assert(cs@.skip(0) =~= cs@);
    while i < cs.len() && white_space(cs[i])
        invariant
            i <= cs.len(),
            cs@ == s@,
            trim_front(s@) == trim_front(cs@.skip(i as int)),
        decreases cs.len() - i,
    {
        assert(cs@.skip(i as int).skip(1) =~= cs@.skip(i as int + 1));
        i = i + 1;
    }
    sub_chars(&cs, i, cs.len())
}

/// Removes the white space at both ends.
pub fn trim(s: &str) -> (r: Vec<char>)
    ensures
        r@ == trimmed(s@),
{
    let cs = trim_start(s);
    let mut n: usize = cs.len();
    assert(cs@.take(n as int) =~= cs@);
    while n > 0 && white_space(cs[n - 1])
        invariant
            n <= cs.len(),
            trim_back(cs@) == trim_back(cs@.take(n as int)),
        decreases n,
    {
        assert(cs@.take(n as int).drop_last() =~= cs@.take(n as int - 1));
        n = n - 1;
    }
    sub_chars(&cs, 0, n)
}

/// The characters from `from` up to `to`.
pub fn sub_chars(cs: &[char], from: usize, to: usize) -> (r: Vec<char>)
    requires
        from <= to <= cs@.len(),
    ensures
        r@ == cs@.subrange(from as int, to as int),
{
    let mut out: Vec<char> = Vec::new();
    let mut i: usize = from;
    while i < to
        invariant
            from <= i <= to <= cs@.len(),
            out@ == cs@.subrange(from as int, i as int),
        decreases to - i,
    {
        out.push(cs[i]);
        i = i + 1;
        assert(out@ =~= cs@.subrange(from as int, i as int));
    }
    out
}

/// The text without the run of `c` at its end.
pub open spec fn without_trailing(s: Seq<char>, c: char) -> Seq<char>
    decreases s.len(),
{
    if s.len() > 0 && s.last() == c {
        without_trailing(s.drop_last(), c)
    } else {
        s
    }
}

/// Removes every `c` from the end of the text.
pub fn trim_end_char(s: &str, c: char) -> (r: String)
    ensures
        r@ == without_trailing(s@, c),
{
    let cs = chars_of(s);
    let mut n: usize = cs.len();
    assert(cs@.take(n as int) =~= cs@);
    while n > 0 && cs[n - 1] == c
        invariant
            n <= cs.len(),
            without_trailing(cs@, c) == without_trailing(cs@.take(n as int), c),
        decreases n,
    {
        assert(cs@.take(n as int).drop_last() =~= cs@.take(n as int - 1));
        n = n - 1;
    }
    let kept = sub_chars(&cs, 0, n);
    text_of(&kept)
}

/// The index of the first `c`, or the length where there is none.
pub open spec fn index_of(s: Seq<char>, c: char) -> int
    decreases s.len(),
{
    if s.len() == 0 {
        0
    } else if s[0] == c {
        0
    } else {
        1 + index_of(s.skip(1), c)
    }
}

/// `index_of` is where `c` occurs first.
pub proof fn lemma_index_of(s: Seq<char>, c: char)
    ensures
        0 <= index_of(s, c) <= s.len(),
        index_of(s, c) < s.len() ==> s[index_of(s, c)] == c,
        forall|i: int| 0 <= i < index_of(s, c) ==> s[i] != c,
    decreases s.len(),
{
    if s.len() > 0 && s[0] != c {
        lemma_index_of(s.skip(1), c);
        assert forall|i: int| 0 <= i < index_of(s, c) implies s[i] != c by {
            if i > 0 {
                assert(s[i] == s.skip(1)[i - 1]);
            }
        }
    }
}

pub proof fn lemma_index_of_is(s: Seq<char>, c: char, k: int)
    requires
        0 <= k <= s.len(),
        k < s.len() ==> s[k] == c,
        forall|i: int| 0 <= i < k ==> s[i] != c,
    ensures
        index_of(s, c) == k,
{
    lemma_index_of(s, c);
}

/// Finds the first `c`.
pub fn find_char(cs: &[char], c: char) -> (r: usize)
    ensures
        r == index_of(cs@, c),
        r <= cs@.len(),
{
    let mut i: usize = 0;
    while i < cs.len()
        invariant
            i <= cs.len(),
            forall|j: int| 0 <= j < i ==> cs@[j] != c,
        decreases cs.len() - i,
    {
        if cs[i] == c {
            proof {
                lemma_index_of_is(cs@, c, i as int);
            }
            return i;
        }
        i = i + 1;
    }
    proof {
        lemma_index_of_is(cs@, c, i as int);
    }
    i
}

/// Whether `needle` occurs in `hay`.
pub open spec fn occurs_in(hay: Seq<char>, needle: Seq<char>) -> bool {
    exists|i: int| #[trigger] occurs_at(hay, needle, i)
}

pub open spec fn occurs_at(hay: Seq<char>, needle: Seq<char>, i: int) -> bool {
    &&& 0 <= i
    &&& i + needle.len() <= hay.len()
    &&& hay.subrange(i, i + needle.len()) == needle
}

/// Searches for a text in another.
pub fn contains_text(hay: &str, needle: &str) -> (r: bool)
    ensures
        r == occurs_in(hay@, needle@),
{
    let h = chars_of(hay);
    let n = chars_of(needle);
    if n.len() > h.len() {
        return false;
    }
    let last: usize = h.len() - n.len();
    let mut i: usize = 0;
    while i < last
        invariant
            h@ == hay@,
            n@ == needle@,
            n.len() <= h.len(),
            last == h.len() - n.len(),
            i <= last,
            forall|j: int| 0 <= j < i ==> !occurs_at(hay@, needle@, j),
        decreases last - i,
    {
        let part = sub_chars(&h, i, i + n.len());
        if same_chars(&part, &n) {
            assert(occurs_at(hay@, needle@, i as int));
            return true;
        }
        i = i + 1;
    }
    let part = sub_chars(&h, last, h.len());
    let found = same_chars(&part, &n);
    assert(found == occurs_at(hay@, needle@, last as int));
    found
}

/// Whether the text begins with `p`.
pub open spec fn has_prefix(s: Seq<char>, p: Seq<char>) -> bool {
    s.len() >= p.len() && s.take(p.len() as int) == p
}

/// Whether the text ends with `p`.
pub open spec fn has_suffix(s: Seq<char>, p: Seq<char>) -> bool {
    s.len() >= p.len() && s.skip(s.len() - p.len()) == p
}

/// Whether the text begins with `c`.
pub fn starts_with_char(s: &str, c: char) -> (r: bool)
    ensures
        r == (s@.len() > 0 && s@[0] == c),
{
    let cs = chars_of(s);
    cs.len() > 0 && cs[0] == c
}

pub fn starts_with(s: &str, p: &str) -> (r: bool)
    ensures
        r == has_prefix(s@, p@),
{
    let a = chars_of(s);
    let b = chars_of(p);
    if a.len() < b.len() {
        return false;
    }
    let head = sub_chars(&a, 0, b.len());
    same_chars(&head, &b)
}

pub fn ends_with(s: &str, p: &str) -> (r: bool)
    ensures
        r == has_suffix(s@, p@),
{
    let a = chars_of(s);
    let b = chars_of(p);
    if a.len() < b.len() {
        return false;
    }
    let tail = sub_chars(&a, a.len() - b.len(), a.len());
    same_chars(&tail, &b)
}

/// The text behind a prefix, where the text has it.
pub fn strip_prefix(s: &str, p: &str) -> (r: Option<String>)
    ensures
        r is Some == has_prefix(s@, p@),
        r is Some ==> r->0@ == s@.skip(p@.len() as int),
{
    let a = chars_of(s);
    let b = chars_of(p);
    if !starts_with(s, p) {
        return None;
    }
    let tail = sub_chars(&a, b.len(), a.len());
    Some(text_of(&tail))
}

/// The text before a suffix, where the text has it.
pub fn strip_suffix(s: &str, p: &str) -> (r: Option<String>)
    ensures
        r is Some == has_suffix(s@, p@),
        r is Some ==> r->0@ == s@.take(s@.len() - p@.len()),
{
    let a = chars_of(s);
    let b = chars_of(p);
    if !ends_with(s, p) {
        return None;
    }
    let head = sub_chars(&a, 0, a.len() - b.len());
    Some(text_of(&head))
}

/// The text with every occurrence of `c` replaced by `with`.
pub open spec fn replaced(s: Seq<char>, c: char, with: Seq<char>) -> Seq<char>
    decreases s.len(),
{
    if s.len() == 0 {
        Seq::empty()
    } else {
        replaced(s.drop_last(), c, with) + (if s.last() == c {
            with
        } else {
            seq![s.last()]
        })
    }
}

/// Replaces every `c` by `with`.
pub fn replace_char(s: &str, c: char, with: &str) -> (r: String)
    ensures
        r@ == replaced(s@, c, with@),
{
    let cs = chars_of(s);
    let mut out = String::new();
    let mut i: usize = 0;
    while i < cs.len()
        invariant
            i <= cs.len(),
            cs@ == s@,
            out@ == replaced(s@.take(i as int), c, with@),
        decreases cs.len() - i,
    {
        proof {
            assert(s@.take(i as int + 1).drop_last() =~= s@.take(i as int));
        }
        if cs[i] == c {
            out.append(with);
        } else {
            out.push(cs[i]);
            assert(out@ =~= replaced(s@.take(i as int), c, with@) + seq![cs@[i as int]]);
        }
        i = i + 1;
    }
    assert(s@.take(cs.len() as int) =~= s@);
    out
}

/// The texts in order, `sep` between each two.
pub open spec fn joined(parts: Seq<Seq<char>>, sep: Seq<char>) -> Seq<char>
    decreases parts.len(),
{
    if parts.len() == 0 {
        Seq::empty()
    } else if parts.len() == 1 {
        parts[0]
    } else {
        joined(parts.drop_last(), sep) + sep + parts.last()
    }
}

/// The views of a sequence of strings.
pub open spec fn views(parts: Seq<String>) -> Seq<Seq<char>> {
    parts.map_values(|p: String| p@)
}

/// Whether a text is among the given strings.
pub fn is_listed(keys: &[String], key: &str) -> (r: bool)
    ensures
        r == views(keys@).contains(key@),
{
    let mut i: usize = 0;
    while i < keys.len()
        invariant
            i <= keys@.len(),
            forall|j: int| 0 <= j < i ==> (#[trigger] keys@[j])@ != key@,
        decreases keys@.len() - i,
    {
        if same_text(keys[i].as_str(), key) {
            assert(views(keys@)[i as int] == key@);
            return true;
        }
        i = i + 1;
    }
    proof {
        if views(keys@).contains(key@) {
            let j = views(keys@).index_of(key@);
            assert(keys@[j]@ == key@);
        }
    }
    false
}

/// Joins strings with a separator.
pub fn join(parts: &[String], sep: &str) -> (r: String)
    ensures
        r@ == joined(views(parts@), sep@),
{
    let mut out = String::new();
    let mut i: usize = 0;
    while i < parts.len()
        invariant
            i <= parts.len(),
            out@ == joined(views(parts@.take(i as int)), sep@),
        decreases parts.len() - i,
    {
        let ghost prev = views(parts@.take(i as int));
        let ghost next = views(parts@.take(i as int + 1));
        assert(next.drop_last() =~= prev);
        assert(next.last() == parts@[i as int]@);
        if i > 0 {
            out.append(sep);
        }
        out.append(parts[i].as_str());
        assert(out@ =~= joined(next, sep@));
        i = i + 1;
    }
    assert(parts@.take(parts.len() as int) =~= parts@);
    out
}

/// Whether the character is an ASCII digit.
pub open spec fn is_digit(c: char) -> bool {
    '0' <= c <= '9'
}

pub open spec fn all_digits(s: Seq<char>) -> bool {
    forall|i: int| 0 <= i < s.len() ==> is_digit(#[trigger] s[i])
}

/// The number that a digit stands for.
pub open spec fn digit_value(c: char) -> nat {
    if is_digit(c) {
        (c as u32 - '0' as u32) as nat
    } else {
        0
    }
}

/// The number that a row of digits writes in base ten.
pub open spec fn digits_value(s: Seq<char>) -> nat
    decreases s.len(),
{
    if s.len() == 0 {
        0
    } else {
        digits_value(s.drop_last()) * 10 + digit_value(s.last())
    }
}

/// The digit that writes a number below ten.
pub open spec fn digit_char(d: int) -> char {
    ((48 + d) as u8) as char
}

/// The number in base ten, without leading zeros.
pub open spec fn decimal(n: nat) -> Seq<char>
    decreases n,
{
    if n < 10 {
        seq![digit_char(n as int)]
    } else {
        decimal(n / 10).push(digit_char((n % 10) as int))
    }
}

/// The number in base ten, with a minus sign where it is negative.
pub open spec fn decimal_int(n: int) -> Seq<char> {
    if n < 0 {
        seq!['-'] + decimal((-n) as nat)
    } else {
        decimal(n as nat)
    }
}

/// Ten to the power `n`.
pub open spec fn pow10(n: nat) -> nat
    decreases n,
{
    if n == 0 {
        1
    } else {
        10 * pow10((n - 1) as nat)
    }
}

pub proof fn lemma_digits_value_prefix(s: Seq<char>, n: int)
    requires
        0 <= n <= s.len(),
    ensures
        digits_value(s.take(n)) <= digits_value(s),
    decreases s.len(),
{
    if n < s.len() {
        lemma_digits_value_prefix(s.drop_last(), n);
        assert(s.drop_last().take(n) =~= s.take(n));
    } else {
        assert(s.take(n) =~= s);
    }
}

/// What a number writes in base ten reads back as that number.
pub proof fn lemma_decimal_value(n: nat)
    ensures
        decimal(n).len() > 0,
        all_digits(decimal(n)),
        digits_value(decimal(n)) == n,
    decreases n,
{
    if n < 10 {
        assert(decimal(n).drop_last() =~= Seq::<char>::empty());
        assert(digits_value(Seq::<char>::empty()) == 0);
        assert(digits_value(decimal(n)) == n);
    } else {
        lemma_decimal_value(n / 10);
        assert(decimal(n).drop_last() =~= decimal(n / 10));
    }
}

/// The value of a row of digits, or `None` where it is above `u64::MAX`.
pub fn digits_to_u64(cs: &[char]) -> (r: Option<u64>)
    requires
        all_digits(cs@),
    ensures
        r == if digits_value(cs@) <= u64::MAX {
            Some(digits_value(cs@) as u64)
        } else {
            None::<u64>
        },
{
    let mut v: u64 = 0;
    let mut i: usize = 0;
    while i < cs.len()
        invariant
            i <= cs.len(),
            all_digits(cs@),
            v == digits_value(cs@.take(i as int)),
        decreases cs.len() - i,
    {
        let ghost next = cs@.take(i as int + 1);
        proof {
            assert(next.drop_last() =~= cs@.take(i as int));
            lemma_digits_value_prefix(cs@, i as int + 1);
            assert(is_digit(cs@[i as int]));
        }
        let d: u64 = (cs[i] as u32 - '0' as u32) as u64;
        let scaled = match v.checked_mul(10) {
            Some(x) => x,
            None => {
                return None;
            },
        };
        v = match scaled.checked_add(d) {
            Some(x) => x,
            None => {
                return None;
            },
        };
        i = i + 1;
    }
    assert(cs@.take(cs.len() as int) =~= cs@);
    Some(v)
}

pub fn is_all_digits(cs: &[char]) -> (r: bool)
    ensures
        r == all_digits(cs@),
{
    let mut i: usize = 0;
    while i < cs.len()
        invariant
            i <= cs.len(),
            forall|j: int| 0 <= j < i ==> is_digit(#[trigger] cs@[j]),
        decreases cs.len() - i,
    {
        if !('0' <= cs[i] && cs[i] <= '9') {
            return false;
        }
        i = i + 1;
    }
    true
}

/// The unsigned integer that a text writes: digits, with an optional plus sign before them.
pub open spec fn unsigned_value(s: Seq<char>) -> Option<nat> {
    let body = if s.len() > 0 && s[0] == '+' {
        s.skip(1)
    } else {
        s
    };
    if body.len() > 0 && all_digits(body) {
        Some(digits_value(body))
    } else {
        None
    }
}

/// The integer that a text writes: digits, with an optional sign before them.
pub open spec fn signed_value(s: Seq<char>) -> Option<int> {
    if s.len() > 0 && s[0] == '-' {
        let body = s.skip(1);
        if body.len() > 0 && all_digits(body) {
            Some(-(digits_value(body) as int))
        } else {
            None
        }
    } else {
        match unsigned_value(s) {
            Some(n) => Some(n as int),
            None => None,
        }
    }
}

/// The `u64` that a text writes.
pub open spec fn u64_value(s: Seq<char>) -> Option<u64> {
    match unsigned_value(s) {
        Some(n) => if n <= u64::MAX {
            Some(n as u64)
        } else {
            None
        },
        None => None,
    }
}

/// The `u32` that a text writes.
pub open spec fn u32_value(s: Seq<char>) -> Option<u32> {
    match unsigned_value(s) {
        Some(n) => if n <= u32::MAX {
            Some(n as u32)
        } else {
            None
        },
        None => None,
    }
}

/// The `u8` that a text writes.
pub open spec fn u8_value(s: Seq<char>) -> Option<u8> {
    match unsigned_value(s) {
        Some(n) => if n <= u8::MAX {
            Some(n as u8)
        } else {
            None
        },
        None => None,
    }
}

/// The `i64` that a text writes.
pub open spec fn i64_value(s: Seq<char>) -> Option<i64> {
    match signed_value(s) {
        Some(n) => if i64::MIN <= n <= i64::MAX {
            Some(n as i64)
        } else {
            None
        },
        None => None,
    }
}

pub fn parse_u64(s: &str) -> (r: Option<u64>)
    ensures
        r == u64_value(s@),
{
    let cs = chars_of(s);
    let from: usize = if cs.len() > 0 && cs[0] == '+' {
        1
    } else {
        0
    };
    let body = sub_chars(&cs, from, cs.len());
    assert(from == 0 ==> body@ =~= s@);
    if body.len() == 0 || !is_all_digits(&body) {
        return None;
    }
    digits_to_u64(&body)
}

pub fn parse_u32(s: &str) -> (r: Option<u32>)
    ensures
        r == u32_value(s@),
{
    match parse_u64(s) {
        Some(n) => if n <= u32::MAX as u64 {
            Some(n as u32)
        } else {
            None
        },
        None => None,
    }
}

pub fn parse_u8(s: &str) -> (r: Option<u8>)
    ensures
        r == u8_value(s@),
{
    match parse_u64(s) {
        Some(n) => if n <= u8::MAX as u64 {
            Some(n as u8)
        } else {
            None
        },
        None => None,
    }
}

pub fn parse_i64(s: &str) -> (r: Option<i64>)
    ensures
        r == i64_value(s@),
{
    let cs = chars_of(s);
    if cs.len() > 0 && cs[0] == '-' {
        let body = sub_chars(&cs, 1, cs.len());
        if body.len() == 0 || !is_all_digits(&body) {
            return None;
        }
        match digits_to_u64(&body) {
            Some(n) => if n <= i64::MAX as u64 {
                Some(-(n as i64))
            } else if n == 0x8000_0000_0000_0000 {
                Some(i64::MIN)
            } else {
                None
            },
            None => None,
        }
    } else {
        match parse_u64(s) {
            Some(n) => if n <= i64::MAX as u64 {
                Some(n as i64)
            } else {
                None
            },
            None => None,
        }
    }
}

/// Writes a number in base ten.
pub fn u64_text(n: u64) -> (r: String)
    ensures
        r@ == decimal(n as nat),
{
    let cs = decimal_chars(n);
    text_of(&cs)
}

fn decimal_chars(n: u64) -> (r: Vec<char>)
    ensures
        r@ == decimal(n as nat),
    decreases n,
{
    if n < 10 {
        let mut out: Vec<char> = Vec::new();
        out.push((48 + n as u8) as char);
        assert(out@ =~= decimal(n as nat));
        out
    } else {
        let mut out = decimal_chars(n / 10);
        out.push((48 + (n % 10) as u8) as char);
        out
    }
}

/// Writes a signed number in base ten.
pub fn i64_text(n: i64) -> (r: String)
    ensures
        r@ == decimal_int(n as int),
{
    if n < 0 {
        let magnitude: u64 = if n == i64::MIN {
            0x8000_0000_0000_0000
        } else {
            (-n) as u64
        };
        let mut out = String::new();
        out.push('-');
        let digits = u64_text(magnitude);
        out.append(digits.as_str());
        assert(out@ =~= decimal_int(n as int));
        out
    } else {
        u64_text(n as u64)
    }
}

/// A number that is written in base ten parses back to itself.
pub proof fn law_u64_round_trip(n: u64)
    ensures
        u64_value(decimal(n as nat)) == Some(n),
{
    lemma_decimal_value(n as nat);
    assert(is_digit(decimal(n as nat)[0]));
}

/// A signed number that is written in base ten parses back to itself.
pub proof fn law_i64_round_trip(n: i64)
    ensures
        i64_value(decimal_int(n as int)) == Some(n),
{
    if n < 0 {
        let m = (-(n as int)) as nat;
        lemma_decimal_value(m);
        assert(decimal_int(n as int).skip(1) =~= decimal(m));
    } else {
        lemma_decimal_value(n as nat);
        assert(is_digit(decimal(n as nat)[0]));
    }
}

/// The line without a carriage return at its end.
pub open spec fn without_cr(s: Seq<char>) -> Seq<char> {
    if s.len() > 0 && s.last() == '\r' {
        s.drop_last()
    } else {
        s
    }
}

/// The lines of a text. A line ends with a line feed, with or without a carriage return before it;
/// the last need not end with one.
pub open spec fn lines(s: Seq<char>) -> Seq<Seq<char>>
    decreases s.len(),
{
    let k = index_of(s, '\n');
    if s.len() == 0 {
        Seq::empty()
    } else if 0 <= k < s.len() {
        seq![without_cr(s.take(k))] + lines(s.skip(k + 1))
    } else {
        seq![s]
    }
}

proof fn lemma_index_of_skip(s: Seq<char>, c: char, from: int, k: int)
    requires
        0 <= from <= k <= s.len(),
        k < s.len() ==> s[k] == c,
        forall|i: int| from <= i < k ==> s[i] != c,
    ensures
        index_of(s.skip(from), c) == k - from,
{
    assert forall|i: int| 0 <= i < k - from implies s.skip(from)[i] != c by {
        assert(s.skip(from)[i] == s[from + i]);
    }
    lemma_index_of_is(s.skip(from), c, k - from);
}

/// Cuts a text into its lines.
pub fn split_lines(s: &str) -> (r: Vec<String>)
    ensures
        views(r@) == lines(s@),
{
    let cs = chars_of(s);
    let mut out: Vec<String> = Vec::new();
    let mut from: usize = 0;
    assert(cs@.skip(0) =~= s@);
    assert(views(out@) =~= Seq::<Seq<char>>::empty());
    assert(Seq::<Seq<char>>::empty() + lines(s@) =~= lines(s@));
    while from < cs.len()
        invariant
            from <= cs@.len(),
            cs@ == s@,
            views(out@) + lines(cs@.skip(from as int)) == lines(s@),
        decreases cs@.len() - from,
    {
        let mut k: usize = from;
        while k < cs.len() && cs[k] != '\n'
            invariant
                from <= k <= cs@.len(),
                forall|i: int| from <= i < k ==> cs@[i] != '\n',
            decreases cs@.len() - k,
        {
            k = k + 1;
        }
        proof {
            lemma_index_of_skip(cs@, '\n', from as int, k as int);
        }
        let ghost rest = cs@.skip(from as int);
        let ghost before = views(out@);
        let to: usize = if k < cs.len() && k > from && cs[k - 1] == '\r' {
            k - 1
        } else {
            k
        };
        let line = text_of(&sub_chars(&cs, from, to));
        proof {
            if k < cs@.len() {
                assert(rest.take(k - from) =~= cs@.subrange(from as int, k as int));
                assert(without_cr(rest.take(k - from)) =~= line@);
                assert(rest.skip(k - from + 1) =~= cs@.skip(k as int + 1));
                assert(lines(rest) == seq![line@] + lines(cs@.skip(k as int + 1)));
            } else {
                assert(line@ =~= rest);
                assert(lines(rest) == seq![line@]);
                assert(cs@.skip(k as int) =~= Seq::<char>::empty());
                assert(lines(cs@.skip(k as int)) =~= Seq::<Seq<char>>::empty());
            }
        }
        out.push(line);
        assert(views(out@) =~= before.push(line@));
        from = if k < cs.len() {
            k + 1
        } else {
            k
        };
        assert(views(out@) + lines(cs@.skip(from as int)) =~= before + lines(rest));
    }
    assert(cs@.skip(from as int) =~= Seq::<char>::empty());
    assert(views(out@) + lines(cs@.skip(from as int)) =~= views(out@));
    out
}

/// The parts of a text between the separators `c`.
pub open spec fn split(s: Seq<char>, c: char) -> Seq<Seq<char>>
    decreases s.len(),
{
    let k = index_of(s, c);
    if 0 <= k < s.len() {
        seq![s.take(k)] + split(s.skip(k + 1), c)
    } else {
        seq![s]
    }
}

/// Cuts a text at the separators `c`.
pub fn split_char(s: &str, c: char) -> (r: Vec<String>)
    ensures
        views(r@) == split(s@, c),
{
    let cs = chars_of(s);
    let mut out: Vec<String> = Vec::new();
    let mut from: usize = 0;
    assert(cs@.skip(0) =~= s@);
    assert(views(out@) =~= Seq::<Seq<char>>::empty());
    assert(Seq::<Seq<char>>::empty() + split(s@, c) =~= split(s@, c));
    loop
        invariant
            from <= cs@.len(),
            cs@ == s@,
            views(out@) + split(cs@.skip(from as int), c) == split(s@, c),
        decreases cs@.len() - from,
    {
        let mut k: usize = from;
        while k < cs.len() && cs[k] != c
            invariant
                from <= k <= cs@.len(),
                forall|i: int| from <= i < k ==> cs@[i] != c,
            decreases cs@.len() - k,
        {
            k = k + 1;
        }
        let ghost rest = cs@.skip(from as int);
        let ghost before = views(out@);
        proof {
            lemma_index_of_skip(cs@, c, from as int, k as int);
        }
        let part = text_of(&sub_chars(&cs, from, k));
        out.push(part);
        assert(views(out@) =~= before.push(part@));
        if k == cs.len() {
            assert(part@ =~= rest);
            assert(views(out@) =~= before + split(rest, c));
            return out;
        }
        proof {
            assert(part@ =~= rest.take(k - from));
            assert(rest.skip(k - from + 1) =~= cs@.skip(k as int + 1));
            assert(views(out@) + split(cs@.skip(k as int + 1), c) =~= before + split(rest, c));
        }
        from = k + 1;
    }
}

/// What is left of a text without trailing characters is its longest beginning that does not end in
/// one of them.
pub proof fn law_without_trailing(s: Seq<char>, c: char)
    ensures
        ({
            let t = without_trailing(s, c);
            &&& t.len() <= s.len()
            &&& s.take(t.len() as int) == t
            &&& t.len() > 0 ==> t.last() != c
            &&& forall|i: int| t.len() <= i < s.len() ==> #[trigger] s[i] == c
        }),
    decreases s.len(),
{
    if s.len() > 0 && s.last() == c {
        law_without_trailing(s.drop_last(), c);
        let t = without_trailing(s, c);
        assert(s.drop_last().take(t.len() as int) =~= s.take(t.len() as int));
        assert forall|i: int| t.len() <= i < s.len() implies #[trigger] s[i] == c by {
            if i < s.len() - 1 {
                assert(s.drop_last()[i] == s[i]);
            }
        }
    } else {
        assert(s.take(s.len() as int) =~= s);
    }
}

/// A trimmed text is what is left between the blanks around it: it neither begins nor ends with a
/// blank.
pub proof fn law_trimmed(s: Seq<char>)
    ensures
        ({
            let t = trimmed(s);
            &&& t.len() > 0 ==> !is_white_space(t[0]) && !is_white_space(t.last())
            &&& exists|a: Seq<char>, b: Seq<char>|
                {
                    &&& s == #[trigger] (a + t + b)
                    &&& forall|i: int| 0 <= i < a.len() ==> is_white_space(#[trigger] a[i])
                    &&& forall|i: int| 0 <= i < b.len() ==> is_white_space(#[trigger] b[i])
                }
        }),
{
    let f = trim_front(s);
    let t = trimmed(s);
    lemma_trim_front(s);
    lemma_trim_back(f);
    let a = choose|a: Seq<char>|
        s == #[trigger] (a + f) && forall|i: int|
            0 <= i < a.len() ==> is_white_space(#[trigger] a[i]);
    let b = choose|b: Seq<char>|
        f == #[trigger] (t + b) && forall|i: int|
            0 <= i < b.len() ==> is_white_space(#[trigger] b[i]);
    assert(s =~= a + t + b);
    if t.len() > 0 {
        assert(t[0] == f[0]);
    }
}

proof fn lemma_trim_front(s: Seq<char>)
    ensures
        trim_front(s).len() > 0 ==> !is_white_space(trim_front(s)[0]),
        exists|a: Seq<char>|
            s == #[trigger] (a + trim_front(s)) && forall|i: int|
                0 <= i < a.len() ==> is_white_space(#[trigger] a[i]),
    decreases s.len(),
{
    let f = trim_front(s);
    if s.len() > 0 && is_white_space(s[0]) {
        lemma_trim_front(s.skip(1));
        let a = choose|a: Seq<char>|
            s.skip(1) == #[trigger] (a + f) && forall|i: int|
                0 <= i < a.len() ==> is_white_space(#[trigger] a[i]);
        let b = seq![s[0]] + a;
        assert(s =~= seq![s[0]] + s.skip(1));
        assert(s =~= b + f);
    } else {
        assert(s =~= Seq::<char>::empty() + f);
    }
}

proof fn lemma_trim_back(s: Seq<char>)
    ensures
        trim_back(s).len() > 0 ==> !is_white_space(trim_back(s).last()),
        exists|b: Seq<char>|
            s == #[trigger] (trim_back(s) + b) && forall|i: int|
                0 <= i < b.len() ==> is_white_space(#[trigger] b[i]),
    decreases s.len(),
{
    let t = trim_back(s);
    if s.len() > 0 && is_white_space(s.last()) {
        lemma_trim_back(s.drop_last());
        let b = choose|b: Seq<char>|
            s.drop_last() == #[trigger] (t + b) && forall|i: int|
                0 <= i < b.len() ==> is_white_space(#[trigger] b[i]);
        let c = b.push(s.last());
        assert(s =~= s.drop_last().push(s.last()));
        assert(s =~= t + c);
    } else {
        assert(s =~= t + Seq::<char>::empty());
    }
}

/// The parts of a split text hold no separator, and joined by it they are the text again.
pub proof fn law_split_joins_back(s: Seq<char>, c: char)
    ensures
        split(s, c).len() > 0,
        joined(split(s, c), seq![c]) == s,
        forall|i: int| 0 <= i < split(s, c).len() ==> !(#[trigger] split(s, c)[i]).contains(c),
    decreases s.len(),
{
    let k = index_of(s, c);
    lemma_index_of(s, c);
    if 0 <= k < s.len() {
        let rest = s.skip(k + 1);
        law_split_joins_back(rest, c);
        lemma_joined_front(s.take(k), split(rest, c), seq![c]);
        assert(s[k] == c);
        assert(s =~= s.take(k) + seq![c] + rest);
    }
}

/// A joined row is its first part, the separator, and the joined rest.
proof fn lemma_joined_front(first: Seq<char>, rest: Seq<Seq<char>>, sep: Seq<char>)
    requires
        rest.len() > 0,
    ensures
        joined(seq![first] + rest, sep) == first + sep + joined(rest, sep),
    decreases rest.len(),
{
    let all = seq![first] + rest;
    assert(all.last() == rest.last());
    if rest.len() == 1 {
        assert(all.drop_last() =~= seq![first]);
        assert(joined(all.drop_last(), sep) == first);
    } else {
        lemma_joined_front(first, rest.drop_last(), sep);
        assert(all.drop_last() =~= seq![first] + rest.drop_last());
    }
    assert(joined(all, sep) =~= first + sep + joined(rest, sep));
}

/// The joined parts of two rows one behind the other are those of the first, the separator, and those
/// of the second.
pub proof fn law_joined_parts(a: Seq<Seq<char>>, b: Seq<Seq<char>>, sep: Seq<char>)
    ensures
        a.len() > 0 && b.len() > 0 ==> joined(a + b, sep) == joined(a, sep) + sep + joined(b, sep),
        b.len() == 1 ==> joined(b, sep) == b[0],
    decreases a.len(),
{
    if a.len() == 1 && b.len() > 0 {
        assert(a =~= seq![a[0]]);
        lemma_joined_front(a[0], b, sep);
    } else if a.len() > 1 && b.len() > 0 {
        let rest = a.skip(1);
        law_joined_parts(rest, b, sep);
        assert(a =~= seq![a[0]] + rest);
        assert(a + b =~= seq![a[0]] + (rest + b));
        lemma_joined_front(a[0], rest + b, sep);
        lemma_joined_front(a[0], rest, sep);
        assert(joined(a + b, sep) =~= joined(a, sep) + sep + joined(b, sep));
    }
}

/// A replaced text is that of its parts, one behind the other; a single character is replaced
/// exactly where it is the one looked for.
pub proof fn law_replaced_parts(a: Seq<char>, b: Seq<char>, c: char, with: Seq<char>, x: char)
    ensures
        replaced(a + b, c, with) == replaced(a, c, with) + replaced(b, c, with),
        x == c ==> replaced(seq![x], c, with) == with,
        x != c ==> replaced(seq![x], c, with) == seq![x],
    decreases b.len(),
{
    let one = seq![x];
    assert(one.drop_last() =~= Seq::<char>::empty());
    assert(one.last() == x);
    assert(replaced(one.drop_last(), c, with) =~= Seq::<char>::empty());
    assert(Seq::<char>::empty() + with =~= with);
    assert(Seq::<char>::empty() + seq![x] =~= seq![x]);
    if b.len() == 0 {
        assert(a + b =~= a);
        assert(replaced(a, c, with) + replaced(b, c, with) =~= replaced(a, c, with));
    } else {
        law_replaced_parts(a, b.drop_last(), c, with, x);
        assert((a + b).drop_last() =~= a + b.drop_last());
        assert((a + b).last() == b.last());
        assert(replaced(a + b, c, with) =~= replaced(a, c, with) + replaced(b, c, with));
    }
}

/// Letters change their case one for one and other characters stay: a text keeps its length, no letter
/// of the other case is left, and what differs in case alone becomes equal.
pub proof fn law_ascii_case(s: Seq<char>, i: int)
    requires
        0 <= i < s.len(),
    ensures
        ascii_upper(s).len() == s.len(),
        ascii_lower(s).len() == s.len(),
        !('a' <= ascii_upper(s)[i] <= 'z'),
        !('A' <= ascii_lower(s)[i] <= 'Z'),
        !('a' <= s[i] <= 'z') ==> ascii_upper(s)[i] == s[i],
        !('A' <= s[i] <= 'Z') ==> ascii_lower(s)[i] == s[i],
        'a' <= s[i] <= 'z' ==> ascii_upper(s)[i] as u32 + 32 == s[i] as u32,
        'A' <= s[i] <= 'Z' ==> ascii_lower(s)[i] as u32 == s[i] as u32 + 32,
        ascii_upper(ascii_lower(s)) == ascii_upper(s),
        ascii_lower(ascii_upper(s)) == ascii_lower(s),
{
    assert(ascii_upper(ascii_lower(s)) =~= ascii_upper(s));
    assert(ascii_lower(ascii_upper(s)) =~= ascii_lower(s));
}

/// A row of lines joined by line feeds splits into them again, and a carriage return before a line feed
/// is dropped.
pub proof fn law_first_line(line: Seq<char>, rest: Seq<char>)
    requires
        !line.contains('\n'),
    ensures
        lines(line + seq!['\n'] + rest) == seq![without_cr(line)] + lines(rest),
        line.len() > 0 ==> lines(line) == seq![line],
{
    let s = line + seq!['\n'] + rest;
    let k = line.len() as int;
    assert(s[k] == '\n');
    assert forall|i: int| 0 <= i < k implies s[i] != '\n' by {
        assert(s[i] == line[i]);
        assert(line.contains(line[i]));
    }
    lemma_index_of_is(s, '\n', k);
    assert(s.take(k) =~= line);
    assert(s.skip(k + 1) =~= rest);
    lemma_index_of(line, '\n');
}

/// The text occurs somewhere in the other.
pub open spec fn holds_text(s: Seq<char>, t: Seq<char>) -> bool {
    exists|a: Seq<char>, b: Seq<char>| s == #[trigger] (a + t + b)
}

/// What occurs in a text occurs in any that it is a part of.
pub proof fn lemma_holds_text(x: Seq<char>, y: Seq<char>, t: Seq<char>)
    ensures
        holds_text(x, t) ==> holds_text(x + y, t),
        holds_text(y, t) ==> holds_text(x + y, t),
{
    if holds_text(x, t) {
        let (a, b) = choose|a: Seq<char>, b: Seq<char>| x == #[trigger] (a + t + b);
        assert(x + y =~= a + t + (b + y));
    }
    if holds_text(y, t) {
        let (a, b) = choose|a: Seq<char>, b: Seq<char>| y == #[trigger] (a + t + b);
        assert(x + y =~= (x + a) + t + b);
    }
}

/// A text is an unsigned number exactly where it is digits, behind a plus sign or not, and its value is in
/// range; leading zeros do not matter.
pub proof fn law_unsigned_texts(s: Seq<char>, zs: Seq<char>)
    requires
        all_digits(s),
        s.len() > 0,
        forall|i: int| 0 <= i < zs.len() ==> zs[i] == '0',
    ensures
        digits_value(s) <= u64::MAX ==> u64_value(s) == Some(digits_value(s) as u64),
        digits_value(s) > u64::MAX ==> u64_value(s) is None,
        digits_value(s) <= u32::MAX ==> u32_value(s) == Some(digits_value(s) as u32),
        digits_value(s) > u32::MAX ==> u32_value(s) is None,
        digits_value(s) <= u8::MAX ==> u8_value(s) == Some(digits_value(s) as u8),
        digits_value(s) > u8::MAX ==> u8_value(s) is None,
        u64_value(seq!['+'] + s) == u64_value(s),
        u64_value(zs + s) == u64_value(s),
        u64_value(seq!['-'] + s) is None,
        digits_value(s) <= i64::MAX ==> i64_value(s) == Some(digits_value(s) as i64),
        digits_value(s) <= i64::MAX ==> i64_value(seq!['-'] + s) == Some((-digits_value(s)) as i64),
        digits_value(s) > i64::MAX ==> i64_value(s) is None,
{
    assert(is_digit(s[0]));
    assert((seq!['+'] + s).skip(1) =~= s);
    assert((seq!['-'] + s).skip(1) =~= s);
    assert((seq!['-'] + s)[0] == '-');
    assert(!is_digit('-'));
    lemma_leading_zeros(zs, s);
    let t = zs + s;
    assert(is_digit(t[0])) by {
        if zs.len() > 0 {
            assert(t[0] == zs[0]);
        } else {
            assert(t[0] == s[0]);
        }
    }
}

proof fn lemma_leading_zeros(zs: Seq<char>, s: Seq<char>)
    requires
        all_digits(s),
        forall|i: int| 0 <= i < zs.len() ==> zs[i] == '0',
    ensures
        all_digits(zs + s),
        digits_value(zs + s) == digits_value(s),
    decreases s.len(),
{
    let t = zs + s;
    assert forall|i: int| 0 <= i < t.len() implies is_digit(#[trigger] t[i]) by {
        if i < zs.len() {
            assert(t[i] == zs[i]);
        } else {
            assert(t[i] == s[i - zs.len()]);
        }
    }
    if s.len() > 0 {
        assert(t.drop_last() =~= zs + s.drop_last());
        assert(t.last() == s.last());
        assert forall|i: int| 0 <= i < s.drop_last().len() implies is_digit(
            #[trigger] s.drop_last()[i],
        ) by {
            assert(s.drop_last()[i] == s[i]);
        }
        lemma_leading_zeros(zs, s.drop_last());
    } else {
        assert(t =~= zs);
        lemma_only_zeros(zs);
    }
}

proof fn lemma_only_zeros(zs: Seq<char>)
    requires
        forall|i: int| 0 <= i < zs.len() ==> zs[i] == '0',
    ensures
        digits_value(zs) == 0,
    decreases zs.len(),
{
    if zs.len() > 0 {
        assert forall|i: int| 0 <= i < zs.drop_last().len() implies zs.drop_last()[i] == '0' by {
            assert(zs.drop_last()[i] == zs[i]);
        }
        lemma_only_zeros(zs.drop_last());
    }
}

/// A text with any other character is no number.
pub proof fn law_other_texts_are_no_numbers(s: Seq<char>, i: int)
    requires
        0 <= i < s.len(),
        !is_digit(s[i]),
        i > 0 || (s[0] != '+' && s[0] != '-'),
    ensures
        u64_value(s) is None,
        u32_value(s) is None,
        u8_value(s) is None,
        i64_value(s) is None,
{
    if i > 0 {
        assert(s.skip(1)[i - 1] == s[i]);
    }
}

} // verus!
