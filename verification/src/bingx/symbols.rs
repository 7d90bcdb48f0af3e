//! The symbols of BingX: base and quote with a dash between them.

use vstd::prelude::*;
use vstd::string::*;
use vstd::utf8::*;

use crate::text::{ends_with, has_suffix, strip_suffix, to_uppercase, upper};

verus! {

/// The text parts into a base and a quote: a known quote, or a cut three bytes before the end that
/// falls between two characters. A text of at most three bytes stays whole.
pub open spec fn splits(u: Seq<char>) -> bool {
    let b = encode_utf8(u);
    ||| has_suffix(u, "USDT"@)
    ||| has_suffix(u, "USDC"@)
    ||| b.len() <= 3
    ||| is_char_boundary(b, b.len() - 3)
}

/// The text with a dash between base and quote.
pub open spec fn dashed(u: Seq<char>) -> Seq<char> {
    let b = encode_utf8(u);
    if has_suffix(u, "USDT"@) {
        u.take(u.len() - 4) + "-"@ + "USDT"@
    } else if has_suffix(u, "USDC"@) {
        u.take(u.len() - 4) + "-"@ + "USDC"@
    } else if b.len() > 3 {
        decode_utf8(b.take(b.len() - 3)) + "-"@ + decode_utf8(b.skip(b.len() - 3))
    } else {
        u
    }
}

/// The symbol as BingX writes it: `BTCUSDT` becomes `BTC-USDT`.
pub fn to_bingx_symbol(symbol: &str) -> (r: String)
    requires
        splits(upper(symbol@)),
    ensures
        r@ == dashed(upper(symbol@)),
{
    let u = to_uppercase(symbol);
    dash(u.as_str())
}

fn dash(u: &str) -> (r: String)
    requires
        splits(u@),
    ensures
        r@ == dashed(u@),
{
    proof {
        reveal_strlit("USDT");
        reveal_strlit("USDC");
    }
    match strip_suffix(u, "USDT") {
        Some(base) => {
            return base.concat("-").concat("USDT");
        },
        None => {},
    }
    match strip_suffix(u, "USDC") {
        Some(base) => {
            return base.concat("-").concat("USDC");
        },
        None => {},
    }
    let n: usize = u.as_bytes().len();
    if n <= 3 {
        return u.to_owned();
    }
    let (base, quote) = u.split_at(n - 3);
    proof {
        encode_utf8_decode_utf8(base@);
        encode_utf8_decode_utf8(quote@);
        let b = u.spec_bytes();
        assert(base.spec_bytes() =~= b.take(b.len() - 3));
        assert(quote.spec_bytes() =~= b.skip(b.len() - 3));
    }
    base.to_owned().concat("-").concat(quote)
}

/// The symbol as BingX writes it, where it parts into a base and a quote.
pub fn try_bingx_symbol(symbol: &str) -> (r: Option<String>)
    ensures
        r is Some == splits(upper(symbol@)),
        r is Some ==> r->0@ == dashed(upper(symbol@)),
{
    let u = to_uppercase(symbol);
    let n: usize = u.as_str().as_bytes().len();
    if ends_with(u.as_str(), "USDT") || ends_with(u.as_str(), "USDC") || n <= 3
        || u.as_str().is_char_boundary(n - 3) {
        Some(to_bingx_symbol(symbol))
    } else {
        None
    }
}

/// A symbol that ends in one of the two quotes is written with a dash before it, and is itself again
/// without the dash.
pub proof fn law_dash_stands_before_the_quote(base: Seq<char>, usdt: bool)
    ensures
        ({
            let quote = if usdt {
                "USDT"@
            } else {
                "USDC"@
            };
            &&& splits(base + quote)
            &&& dashed(base + quote) == base + "-"@ + quote
            &&& !base.contains('-') ==> crate::text::replaced(dashed(base + quote), '-', ""@) == base
                + quote
        }),
{
    reveal_strlit("USDT");
    reveal_strlit("USDC");
    reveal_strlit("-");
    reveal_strlit("");
    assert("USDT"@[3] == 'T' && "USDC"@[3] == 'C');
    let quote = if usdt {
        "USDT"@
    } else {
        "USDC"@
    };
    let u = base + quote;
    assert(u.skip(u.len() - 4) =~= quote);
    assert(u.take(u.len() - 4) =~= base);
    assert(u[u.len() - 1] == quote[3]);
    if !usdt {
        assert(u.skip(u.len() - 4)[3] == 'C');
        assert(!has_suffix(u, "USDT"@));
    }
    if !base.contains('-') {
        let none = ""@;
        lemma_nothing_replaced(base);
        assert(!quote.contains('-'));
        lemma_nothing_replaced(quote);
        assert("-"@ =~= seq!['-']);
        crate::text::law_replaced_parts(base, seq!['-'], '-', none, '-');
        crate::text::law_replaced_parts(base + seq!['-'], quote, '-', none, '-');
        assert(crate::text::replaced(base + "-"@ + quote, '-', none) == base + none + quote);
        assert(base + none + quote =~= base + quote);
    }
}

proof fn lemma_nothing_replaced(s: Seq<char>)
    requires
        !s.contains('-'),
    ensures
        crate::text::replaced(s, '-', ""@) == s,
    decreases s.len(),
{
    if s.len() > 0 {
        assert forall|c: char| s.drop_last().contains(c) implies s.contains(c) by {
            let i = s.drop_last().index_of(c);
            assert(s[i] == c);
        }
        lemma_nothing_replaced(s.drop_last());
        assert(s.contains(s[s.len() - 1]));
        assert(s.drop_last() + seq![s.last()] =~= s);
    }
}

} // verus!
