//! Percent-encoding of query parameters.

use vstd::prelude::*;
use vstd::string::*;
use vstd::utf8::*;

use crate::text::{trim_end_char, without_trailing};

verus! {

/// Letters, digits and `-_.~` stand for themselves.
pub open spec fn is_unreserved(b: u8) -> bool {
    ||| 0x41 <= b <= 0x5a
    ||| 0x61 <= b <= 0x7a
    ||| 0x30 <= b <= 0x39
    ||| b == 0x2d
    ||| b == 0x5f
    ||| b == 0x2e
    ||| b == 0x7e
}

/// The hexadecimal digit of a number below sixteen, in uppercase.
pub open spec fn hex_digit(n: int) -> char {
    if n < 10 {
        ((48 + n) as u8) as char
    } else {
        ((55 + n) as u8) as char
    }
}

/// One byte of an encoded text.
pub open spec fn encoded_byte(b: u8) -> Seq<char> {
    if is_unreserved(b) {
        seq![b as char]
    } else {
        seq!['%', hex_digit(b as int / 16), hex_digit(b as int % 16)]
    }
}

/// Bytes with all but the unreserved ones percent-encoded.
pub open spec fn percent_encoded(bytes: Seq<u8>) -> Seq<char>
    decreases bytes.len(),
{
    if bytes.len() == 0 {
        Seq::empty()
    } else {
        percent_encoded(bytes.drop_last()) + encoded_byte(bytes.last())
    }
}

fn hex(n: u8) -> (r: char)
    requires
        n < 16,
    ensures
        r == hex_digit(n as int),
{
    if n < 10 {
        (48 + n) as char
    } else {
        (55 + n) as char
    }
}

/// Percent-encodes a text for a query parameter.
pub fn urlencode(s: &str) -> (r: String)
    ensures
        r@ == percent_encoded(s.spec_bytes()),
{
    let bytes = s.as_bytes();
    let mut out = String::new();
    let mut i: usize = 0;
    while i < bytes.len()
        invariant
            i <= bytes@.len(),
            out@ == percent_encoded(bytes@.take(i as int)),
        decreases bytes@.len() - i,
    {
        let b: u8 = bytes[i];
        let ghost before = out@;
        assert(bytes@.take(i as int + 1).drop_last() =~= bytes@.take(i as int));
        if (0x41 <= b && b <= 0x5a) || (0x61 <= b && b <= 0x7a) || (0x30 <= b && b <= 0x39) || b
            == 0x2d || b == 0x5f || b == 0x2e || b == 0x7e {
            out.push(b as char);
        } else {
            out.push('%');
            out.push(hex(b / 16));
            out.push(hex(b % 16));
        }
        assert(out@ =~= before + encoded_byte(b));
        i = i + 1;
    }
    assert(bytes@.take(i as int) =~= bytes@);
    out
}

/// The URL that hands an SQL query to ClickHouse.
pub open spec fn query_target(base: Seq<char>, sql: Seq<char>) -> Seq<char> {
    without_trailing(base, '/') + "/?query="@ + percent_encoded(encode_utf8(sql))
}

/// Makes the URL that hands an SQL query to ClickHouse.
pub fn query_url(base: &str, sql: &str) -> (r: String)
    ensures
        r@ == query_target(base@, sql@),
{
    trim_end_char(base, '/').concat("/?query=").concat(urlencode(sql).as_str())
}

/// The bytes that an encoded text stands for.
pub open spec fn percent_decoded(s: Seq<char>) -> Seq<u8>
    decreases s.len(),
{
    if s.len() == 0 {
        Seq::empty()
    } else if s[0] == '%' && s.len() >= 3 {
        seq![(hex_value(s[1]) * 16 + hex_value(s[2])) as u8] + percent_decoded(s.skip(3))
    } else {
        seq![s[0] as u8] + percent_decoded(s.skip(1))
    }
}

pub open spec fn hex_value(c: char) -> int {
    if '0' <= c <= '9' {
        c as int - 48
    } else {
        c as int - 55
    }
}

proof fn lemma_decode_front(b: u8, rest: Seq<char>)
    ensures
        percent_decoded(encoded_byte(b) + rest) == seq![b] + percent_decoded(rest),
{
    let s = encoded_byte(b) + rest;
    if is_unreserved(b) {
        assert(s[0] == b as char);
        assert(s.skip(1) =~= rest);
        assert(s[0] != '%');
        assert((b as char) as u8 == b);
    } else {
        let h = hex_digit(b as int / 16);
        let l = hex_digit(b as int % 16);
        assert(s[0] == '%' && s[1] == h && s[2] == l);
        assert(s.skip(3) =~= rest);
        assert(hex_value(h) == b as int / 16);
        assert(hex_value(l) == b as int % 16);
        assert((b as int / 16) * 16 + b as int % 16 == b);
    }
}

proof fn lemma_encoded_front(bytes: Seq<u8>)
    requires
        bytes.len() > 0,
    ensures
        percent_encoded(bytes) == encoded_byte(bytes[0]) + percent_encoded(bytes.skip(1)),
    decreases bytes.len(),
{
    if bytes.len() == 1 {
        assert(bytes.drop_last() =~= Seq::<u8>::empty());
        assert(bytes.skip(1) =~= Seq::<u8>::empty());
        assert(percent_encoded(bytes.drop_last()) == Seq::<char>::empty());
        assert(percent_encoded(bytes.skip(1)) == Seq::<char>::empty());
        assert(percent_encoded(bytes) =~= encoded_byte(bytes[0]));
        assert(encoded_byte(bytes[0]) + percent_encoded(bytes.skip(1)) =~= encoded_byte(bytes[0]));
    } else {
        let init = bytes.drop_last();
        lemma_encoded_front(init);
        assert(init.skip(1) =~= bytes.skip(1).drop_last());
        assert(bytes.skip(1).last() == bytes.last());
        assert(percent_encoded(bytes) =~= encoded_byte(bytes[0]) + percent_encoded(bytes.skip(1)));
    }
}

/// Encoding loses nothing: the encoded text decodes to the bytes.
pub proof fn law_encoding_is_reversible(bytes: Seq<u8>)
    ensures
        percent_decoded(percent_encoded(bytes)) == bytes,
    decreases bytes.len(),
{
    if bytes.len() > 0 {
        lemma_encoded_front(bytes);
        lemma_decode_front(bytes[0], percent_encoded(bytes.skip(1)));
        law_encoding_is_reversible(bytes.skip(1));
        assert(seq![bytes[0]] + bytes.skip(1) =~= bytes);
    } else {
        assert(percent_decoded(percent_encoded(bytes)) =~= bytes);
    }
}

/// A character that an encoded text may hold.
pub open spec fn is_query_char(c: char) -> bool {
    ||| 'A' <= c <= 'Z'
    ||| 'a' <= c <= 'z'
    ||| '0' <= c <= '9'
    ||| c == '-'
    ||| c == '_'
    ||| c == '.'
    ||| c == '~'
    ||| c == '%'
}

/// An encoded text holds unreserved characters and percent signs only.
pub proof fn law_encoded_characters(bytes: Seq<u8>)
    ensures
        forall|i: int|
            0 <= i < percent_encoded(bytes).len() ==> is_query_char(
                #[trigger] percent_encoded(bytes)[i],
            ),
    decreases bytes.len(),
{
    if bytes.len() > 0 {
        let init = percent_encoded(bytes.drop_last());
        let tail = encoded_byte(bytes.last());
        law_encoded_characters(bytes.drop_last());
        assert forall|i: int| 0 <= i < percent_encoded(bytes).len() implies is_query_char(
            #[trigger] percent_encoded(bytes)[i],
        ) by {
            if i < init.len() {
                assert(percent_encoded(bytes)[i] == init[i]);
            } else {
                assert(percent_encoded(bytes)[i] == tail[i - init.len()]);
            }
        }
    }
}

/// A URL that carries a query is the address without slashes at its end, then "/?query=", then a text
/// of query characters from which the query can be read back.
pub proof fn law_query_is_carried(base: Seq<char>, sql: Seq<char>)
    ensures
        exists|root: Seq<char>, carried: Seq<char>|
            {
                &&& query_target(base, sql) == #[trigger] (root + "/?query="@ + carried)
                &&& percent_decoded(carried) == encode_utf8(sql)
                &&& forall|i: int| 0 <= i < carried.len() ==> is_query_char(#[trigger] carried[i])
                &&& root.len() <= base.len() && base.take(root.len() as int) == root
                &&& root.len() > 0 ==> root.last() != '/'
                &&& forall|i: int| root.len() <= i < base.len() ==> #[trigger] base[i] == '/'
            },
{
    let root = without_trailing(base, '/');
    let carried = percent_encoded(encode_utf8(sql));
    law_encoding_is_reversible(encode_utf8(sql));
    law_encoded_characters(encode_utf8(sql));
    crate::text::law_without_trailing(base, '/');
    assert(query_target(base, sql) == root + "/?query="@ + carried);
}

} // verus!
