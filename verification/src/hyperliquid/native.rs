//! The coins of Hyperliquid by canonical symbol.
//!
//! A coin on the wire ("BTC", "kPEPE") keeps its letter case, which the canonical symbol
//! ("BTCUSDC", "KPEPEUSDC") does not tell: the map remembers it.

use vstd::prelude::*;
use vstd::string::*;

use crate::text::{has_suffix, same_text, strip_suffix, to_uppercase, upper};

verus! {

/// Most decimal places that the price of a perpetual has.
pub const MAX_DECIMALS_PERP: u8 = 6;

/// Coins by canonical symbol.
pub struct NativeCoins {
    pairs: Vec<(String, String)>,
}

/// The map that a row of pairs makes; of two pairs with one key the later counts.
pub open spec fn pairs_map(pairs: Seq<(String, String)>) -> Map<Seq<char>, Seq<char>>
    decreases pairs.len(),
{
    if pairs.len() == 0 {
        Map::empty()
    } else {
        pairs_map(pairs.drop_last()).insert(pairs.last().0@, pairs.last().1@)
    }
}

impl View for NativeCoins {
    type V = Map<Seq<char>, Seq<char>>;

    closed spec fn view(&self) -> Map<Seq<char>, Seq<char>> {
        pairs_map(self.pairs@)
    }
}

proof fn lemma_pairs_map(pairs: Seq<(String, String)>, n: int, key: Seq<char>)
    requires
        0 <= n <= pairs.len(),
        forall|i: int| n <= i < pairs.len() ==> (#[trigger] pairs[i]).0@ != key,
    ensures
        pairs_map(pairs).contains_key(key) == pairs_map(pairs.take(n)).contains_key(key),
        pairs_map(pairs).contains_key(key) ==> pairs_map(pairs)[key] == pairs_map(pairs.take(n))[key],
    decreases pairs.len(),
{
    if n < pairs.len() {
        let init = pairs.drop_last();
        assert(pairs[pairs.len() - 1].0@ != key);
        assert forall|i: int| n <= i < init.len() implies (#[trigger] init[i]).0@ != key by {
            assert(init[i] == pairs[i]);
        }
        lemma_pairs_map(init, n, key);
        assert(init.take(n) =~= pairs.take(n));
    } else {
        assert(pairs.take(n) =~= pairs);
    }
}

proof fn lemma_pairs_update(pairs: Seq<(String, String)>, n: int, pair: (String, String))
    requires
        0 <= n < pairs.len(),
        pairs[n].0@ == pair.0@,
        forall|i: int| n < i < pairs.len() ==> (#[trigger] pairs[i]).0@ != pair.0@,
    ensures
        pairs_map(pairs.update(n, pair)) == pairs_map(pairs).insert(pair.0@, pair.1@),
    decreases pairs.len(),
{
    let after = pairs.update(n, pair);
    let init = pairs.drop_last();
    if n < pairs.len() - 1 {
        assert forall|i: int| n < i < init.len() implies (#[trigger] init[i]).0@ != pair.0@ by {
            assert(init[i] == pairs[i]);
        }
        assert(init[n] == pairs[n]);
        lemma_pairs_update(init, n, pair);
        assert(after.drop_last() =~= init.update(n, pair));
        assert(after.last() == pairs.last());
        assert(pairs[pairs.len() - 1].0@ != pair.0@);
        assert(pairs_map(after) =~= pairs_map(pairs).insert(pair.0@, pair.1@));
    } else {
        assert(after.drop_last() =~= init);
        assert(pairs_map(after) =~= pairs_map(pairs).insert(pair.0@, pair.1@));
    }
}

impl NativeCoins {
    pub fn new() -> (r: Self)
        ensures
            r@ == Map::<Seq<char>, Seq<char>>::empty(),
    {
        NativeCoins { pairs: Vec::new() }
    }

    /// The last pair with the given key lies just below the result; none where it is zero.
    fn position(&self, canonical: &str) -> (n: usize)
        ensures
            n <= self.pairs@.len(),
            n > 0 ==> self.pairs@[n - 1].0@ == canonical@,
            forall|i: int| n <= i < self.pairs@.len() ==> (#[trigger] self.pairs@[i]).0@
                != canonical@,
    {
        let mut n: usize = self.pairs.len();
        while n > 0
            invariant
                n <= self.pairs@.len(),
                forall|i: int| n <= i < self.pairs@.len() ==> (#[trigger] self.pairs@[i]).0@
                    != canonical@,
            decreases n,
        {
            if same_text(self.pairs[n - 1].0.as_str(), canonical) {
                return n;
            }
            n = n - 1;
        }
        0
    }

    /// Remembers the coin of a canonical symbol.
    pub fn set_native(&mut self, canonical: &str, native: &str)
        ensures
            final(self)@ == old(self)@.insert(canonical@, native@),
    {
        let n: usize = self.position(canonical);
        let pair = (canonical.to_owned(), native.to_owned());
        if n > 0 {
            proof {
                lemma_pairs_update(self.pairs@, n - 1, pair);
            }
            self.pairs[n - 1] = pair;
        } else {
            let ghost before = self.pairs@;
            self.pairs.push(pair);
            assert(self.pairs@.drop_last() =~= before);
        }
    }

    /// The coin of a canonical symbol; where it is not known, the symbol in uppercase without
    /// "USDC" at its end.
    pub fn get_native(&self, canonical: &str) -> (r: String)
        ensures
            r@ == native_of(self@, canonical@),
    {
        let n: usize = self.position(canonical);
        proof {
            lemma_pairs_map(self.pairs@, n as int, canonical@);
        }
        if n > 0 {
            assert(self.pairs@.take(n as int).last() == self.pairs@[n - 1]);
            return self.pairs[n - 1].1.clone();
        }
        assert(self.pairs@.take(0).len() == 0);
        proof {
            reveal_strlit("USDC");
        }
        let up = to_uppercase(canonical);
        match strip_suffix(up.as_str(), "USDC") {
            Some(base) => base,
            None => up,
        }
    }
}

/// The coin of a canonical symbol.
pub open spec fn native_of(m: Map<Seq<char>, Seq<char>>, canonical: Seq<char>) -> Seq<char> {
    let up = upper(canonical);
    if m.contains_key(canonical) {
        m[canonical]
    } else if has_suffix(up, "USDC"@) {
        up.take(up.len() - 4)
    } else {
        up
    }
}

/// The native name of a symbol is the one that is known, and without one the symbol in uppercase
/// without "USDC" behind.
pub proof fn law_native_names(
    m: Map<Seq<char>, Seq<char>>,
    symbol: Seq<char>,
    base: Seq<char>,
)
    ensures
        m.contains_key(symbol) ==> native_of(m, symbol) == m[symbol],
        !m.contains_key(symbol) && upper(symbol) == base + "USDC"@ ==> native_of(m, symbol) == base,
        !m.contains_key(symbol) && !has_suffix(upper(symbol), "USDC"@) ==> native_of(m, symbol)
            == upper(symbol),
{
    reveal_strlit("USDC");
    let u = base + "USDC"@;
    assert(u.skip(u.len() - 4) =~= "USDC"@);
    assert(u.take(u.len() - 4) =~= base);
}

} // verus!
