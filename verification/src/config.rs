//! What the ingest process is configured with.

use vstd::prelude::*;
use vstd::string::*;

use crate::retention::RetentionConfig;
use crate::text::{decimal, is_listed, same_text, u64_text, views};

verus! {

/// The whole configuration.
#[derive(Debug, Clone)]
pub struct Config {
    pub ingest: IngestConfig,
}

/// The configuration of the ingest process.
#[derive(Debug, Clone)]
pub struct IngestConfig {
    pub region: String,
    pub clickhouse_url: String,
    pub clickhouse_database: String,
    /// Not used: each bar length has its own table.
    pub clickhouse_table: String,
    /// The bar lengths that are aggregated and stored, in seconds.
    pub timeframes_secs: Vec<u32>,
    /// Not used: the window of each bar length follows from it.
    pub window_ms: i64,
    pub diff_interval_ms: i64,
    pub agg_tick_interval_ms: u64,
    pub trade_channel_bound: usize,
    pub ch_channel_bound: usize,
    pub grpc_listen: String,
    pub rest_listen: String,
    pub auth: AuthConfig,
    pub retention: RetentionConfig,
    /// The venues that run; where it is empty, the flag of each section decides.
    pub enabled_exchanges: Vec<String>,
    pub exchanges: ExchangesConfig,
}

/// The tokens that requests must show.
#[derive(Debug, Clone)]
pub struct AuthConfig {
    pub enabled: bool,
    pub tokens: Vec<String>,
}

impl Default for AuthConfig {
    fn default() -> (r: AuthConfig)
        ensures
            !r.enabled,
            r.tokens@.len() == 0,
    {
        AuthConfig { enabled: false, tokens: Vec::new() }
    }
}

/// The words that switch the check on.
pub open spec fn switches_on(s: Seq<char>) -> bool {
    s == "1"@ || s == "true"@ || s == "TRUE"@ || s == "yes"@
}

impl AuthConfig {
    /// Takes over what the environment says: a token to add, unless it is empty, and whether the
    /// check is on.
    pub fn apply_overrides(&mut self, token: Option<&str>, enabled: Option<&str>)
        ensures
            views(final(self).tokens@) == (if token is Some && token->0@.len() > 0 {
                views(old(self).tokens@).push(token->0@)
            } else {
                views(old(self).tokens@)
            }),
            final(self).enabled == (match enabled {
                Some(v) => switches_on(v@),
                None => old(self).enabled,
            }),
    {
        match token {
            Some(t) => {
                if !t.is_empty() {
                    self.tokens.push(t.to_owned());
                    assert(views(self.tokens@) =~= views(old(self).tokens@).push(t@));
                }
            },
            None => {},
        }
        match enabled {
            Some(v) => {
                self.enabled = same_text(v, "1") || same_text(v, "true") || same_text(v, "TRUE")
                    || same_text(v, "yes");
            },
            None => {},
        }
    }

    /// Refuses a check that is on without a token to show.
    pub fn validate(&self) -> (r: Result<(), String>)
        ensures
            r is Err == (self.enabled && self.tokens@.len() == 0),
            r is Err ==> r->Err_0@
                == "auth.enabled = true но tokens пуст; либо задай токен в [ingest.auth].tokens / env CLUSTER_INGEST_TOKEN, либо выключи enabled"@,
    {
        if self.enabled && self.tokens.len() == 0 {
            return Err(
                "auth.enabled = true но tokens пуст; либо задай токен в [ingest.auth].tokens / env CLUSTER_INGEST_TOKEN, либо выключи enabled".to_owned(),
            );
        }
        Ok(())
    }
}

/// The sections of the venues.
#[derive(Debug, Clone)]
pub struct ExchangesConfig {
    pub binance_perp: Option<BinancePerpConfig>,
    pub binance_spot: Option<BinancePerpConfig>,
    pub bybit_perp: Option<BinancePerpConfig>,
    pub bybit_spot: Option<BinancePerpConfig>,
    pub okx_perp: Option<BinancePerpConfig>,
    pub okx_spot: Option<BinancePerpConfig>,
    pub bitget_perp: Option<BinancePerpConfig>,
    pub bitget_spot: Option<BinancePerpConfig>,
    pub aster_perp: Option<BinancePerpConfig>,
    pub aster_spot: Option<BinancePerpConfig>,
}

impl Default for ExchangesConfig {
    fn default() -> (r: ExchangesConfig)
        ensures
            r == (ExchangesConfig {
                binance_perp: None,
                binance_spot: None,
                bybit_perp: None,
                bybit_spot: None,
                okx_perp: None,
                okx_spot: None,
                bitget_perp: None,
                bitget_spot: None,
                aster_perp: None,
                aster_spot: None,
            }),
    {
        ExchangesConfig {
            binance_perp: None,
            binance_spot: None,
            bybit_perp: None,
            bybit_spot: None,
            okx_perp: None,
            okx_spot: None,
            bitget_perp: None,
            bitget_spot: None,
            aster_perp: None,
            aster_spot: None,
        }
    }
}

/// How instruments are ordered before the list is cut off.
#[derive(Debug, Clone, Copy, PartialEq, Eq, Structural)]
pub enum RankBy {
    /// As the venue lists them.
    Alphabetical,
    /// By their volume over 24 hours, largest first.
    Volume24h,
}

impl Default for RankBy {
    fn default() -> (r: RankBy)
        ensures
            r == RankBy::Alphabetical,
    {
        RankBy::Alphabetical
    }
}

/// The section of one venue and market.
#[derive(Debug, Clone)]
pub struct BinancePerpConfig {
    pub enabled: bool,
    /// The quote currencies to keep.
    pub include_quotes: Vec<String>,
    /// Where it is not empty, only these symbols.
    pub allow: Vec<String>,
    /// Never these symbols.
    pub deny: Vec<String>,
    /// Most symbols to keep.
    pub top_n: Option<usize>,
    pub rank_by: RankBy,
    pub discovery_poll_secs: u64,
    pub ws_connect_timeout_ms: u64,
    pub reconnect_backoff_min_ms: u64,
    pub reconnect_backoff_max_ms: u64,
}

impl Default for BinancePerpConfig {
    fn default() -> (r: BinancePerpConfig)
        ensures
            r.enabled,
            views(r.include_quotes@) == seq!["USDT"@, "USDC"@],
            r.allow@.len() == 0,
            r.deny@.len() == 0,
            r.top_n is None,
            r.rank_by == RankBy::Alphabetical,
            r.discovery_poll_secs == 300,
            r.ws_connect_timeout_ms == 15_000,
            r.reconnect_backoff_min_ms == 500,
            r.reconnect_backoff_max_ms == 30_000,
    {
        let mut include_quotes: Vec<String> = Vec::new();
        include_quotes.push("USDT".to_owned());
        include_quotes.push("USDC".to_owned());
        assert(views(include_quotes@) =~= seq!["USDT"@, "USDC"@]);
        BinancePerpConfig {
            enabled: true,
            include_quotes,
            allow: Vec::new(),
            deny: Vec::new(),
            top_n: None,
            rank_by: RankBy::Alphabetical,
            discovery_poll_secs: 300,
            ws_connect_timeout_ms: 15_000,
            reconnect_backoff_min_ms: 500,
            reconnect_backoff_max_ms: 30_000,
        }
    }
}

impl BinancePerpConfig {
    /// How often the listing is read again, in seconds.
    pub fn discovery_poll(&self) -> (r: u64)
        ensures
            r == self.discovery_poll_secs,
    {
        self.discovery_poll_secs
    }

    /// How long connecting may take, in milliseconds.
    pub fn ws_connect_timeout(&self) -> (r: u64)
        ensures
            r == self.ws_connect_timeout_ms,
    {
        self.ws_connect_timeout_ms
    }

    /// The shortest wait before a reconnect, in milliseconds.
    pub fn backoff_min(&self) -> (r: u64)
        ensures
            r == self.reconnect_backoff_min_ms,
    {
        self.reconnect_backoff_min_ms
    }

    /// The longest wait before a reconnect, in milliseconds.
    pub fn backoff_max(&self) -> (r: u64)
        ensures
            r == self.reconnect_backoff_max_ms,
    {
        self.reconnect_backoff_max_ms
    }
}

/// The configuration of a process that is given none.
pub open spec fn is_default_ingest(r: IngestConfig) -> bool {
    &&& r.region@ == "tokyo"@
    &&& r.clickhouse_url@ == "http://127.0.0.1:8123"@
    &&& r.clickhouse_database@ == "clusters"@
    &&& r.clickhouse_table@ == "clusters_1m"@
    &&& r.timeframes_secs@ == seq![60u32]
    &&& r.window_ms == 60_000
    &&& r.diff_interval_ms == 200
    &&& r.agg_tick_interval_ms == 100
    &&& r.trade_channel_bound == 32_768
    &&& r.ch_channel_bound == 65_536
    &&& r.grpc_listen@ == "127.0.0.1:50051"@
    &&& r.rest_listen@ == "127.0.0.1:8080"@
    &&& !r.auth.enabled
    &&& r.auth.tokens@.len() == 0
    &&& r.retention.default_days == 7
    &&& r.retention.move_to_cold_days is None
    &&& r.retention.apply_on_start
    &&& r.retention.overrides@.len() == 0
    &&& r.enabled_exchanges@.len() == 0
    &&& r.exchanges == (ExchangesConfig {
        binance_perp: None,
        binance_spot: None,
        bybit_perp: None,
        bybit_spot: None,
        okx_perp: None,
        okx_spot: None,
        bitget_perp: None,
        bitget_spot: None,
        aster_perp: None,
        aster_spot: None,
    })
}

impl Default for IngestConfig {
    fn default() -> (r: IngestConfig)
        ensures
            is_default_ingest(r),
    {
        let mut timeframes_secs: Vec<u32> = Vec::new();
        timeframes_secs.push(60);
        assert(timeframes_secs@ =~= seq![60u32]);
        IngestConfig {
            region: "tokyo".to_owned(),
            clickhouse_url: "http://127.0.0.1:8123".to_owned(),
            clickhouse_database: "clusters".to_owned(),
            clickhouse_table: "clusters_1m".to_owned(),
            timeframes_secs,
            window_ms: 60_000,
            diff_interval_ms: 200,
            agg_tick_interval_ms: 100,
            trade_channel_bound: 32_768,
            ch_channel_bound: 65_536,
            grpc_listen: "127.0.0.1:50051".to_owned(),
            rest_listen: "127.0.0.1:8080".to_owned(),
            auth: AuthConfig::default(),
            retention: RetentionConfig::default(),
            enabled_exchanges: Vec::new(),
            exchanges: ExchangesConfig::default(),
        }
    }
}

impl Default for Config {
    fn default() -> (r: Config)
        ensures
            is_default_ingest(r.ingest),
    {
        Config { ingest: IngestConfig::default() }
    }
}

/// What is wrong with a bar length, given those before it.
pub open spec fn timeframe_fault(before: Seq<u32>, tf: u32) -> Option<Seq<char>> {
    if tf == 0 {
        Some("timeframes_secs содержит 0 — это бессмысленно"@)
    } else if tf < 30 {
        Some(
            "timeframes_secs: "@ + decimal(tf as nat)
                + "s слишком мелко (минимум 30); меньше → ребранд таблиц `clusters_30s` теряет смысл"@,
        )
    } else if tf % 30 != 0 {
        Some("timeframes_secs: "@ + decimal(tf as nat) + "s не кратно 30"@)
    } else if before.contains(tf) {
        Some("timeframes_secs: дубликат "@ + decimal(tf as nat))
    } else {
        None
    }
}

/// What is wrong with the first bar length that is at fault.
pub open spec fn first_timeframe_fault(tfs: Seq<u32>) -> Option<Seq<char>>
    decreases tfs.len(),
{
    if tfs.len() == 0 {
        None
    } else {
        match first_timeframe_fault(tfs.drop_last()) {
            Some(m) => Some(m),
            None => timeframe_fault(tfs.drop_last(), tfs.last()),
        }
    }
}

/// What is wrong with a row of bar lengths.
pub open spec fn timeframes_fault(tfs: Seq<u32>) -> Option<Seq<char>> {
    if tfs.len() == 0 {
        Some("timeframes_secs пуст; задай хотя бы один TF (например [60])"@)
    } else {
        first_timeframe_fault(tfs)
    }
}

proof fn lemma_first_timeframe_fault(tfs: Seq<u32>, n: int)
    requires
        0 <= n <= tfs.len(),
        first_timeframe_fault(tfs.take(n)) is Some,
    ensures
        first_timeframe_fault(tfs) == first_timeframe_fault(tfs.take(n)),
    decreases tfs.len(),
{
    if n < tfs.len() {
        assert(tfs.drop_last().take(n) =~= tfs.take(n));
        lemma_first_timeframe_fault(tfs.drop_last(), n);
    } else {
        assert(tfs.take(n) =~= tfs);
    }
}

fn occurs_before(tfs: &Vec<u32>, n: usize) -> (r: bool)
    requires
        n < tfs@.len(),
    ensures
        r == tfs@.take(n as int).contains(tfs@[n as int]),
{
    let mut i: usize = 0;
    while i < n
        invariant
            i <= n < tfs@.len(),
            forall|j: int| 0 <= j < i ==> tfs@[j] != tfs@[n as int],
        decreases n - i,
    {
        if tfs[i] == tfs[n] {
            assert(tfs@.take(n as int)[i as int] == tfs@[n as int]);
            return true;
        }
        i = i + 1;
    }
    proof {
        if tfs@.take(n as int).contains(tfs@[n as int]) {
            let j = tfs@.take(n as int).index_of(tfs@[n as int]);
            assert(tfs@[j] == tfs@[n as int]);
        }
    }
    false
}

fn timeframe_fault_at(tfs: &Vec<u32>, n: usize) -> (r: Option<String>)
    requires
        n < tfs@.len(),
    ensures
        (match r {
            Some(m) => Some(m@),
            None => None,
        }) == timeframe_fault(tfs@.take(n as int), tfs@[n as int]),
{
    let tf: u32 = tfs[n];
    if tf == 0 {
        return Some("timeframes_secs содержит 0 — это бессмысленно".to_owned());
    }
    let digits = u64_text(tf as u64);
    if tf < 30 {
        return Some(
            "timeframes_secs: ".to_owned().concat(digits.as_str()).concat(
                "s слишком мелко (минимум 30); меньше → ребранд таблиц `clusters_30s` теряет смысл",
            ),
        );
    }
    if tf % 30 != 0 {
        return Some(
            "timeframes_secs: ".to_owned().concat(digits.as_str()).concat("s не кратно 30"),
        );
    }
    if occurs_before(tfs, n) {
        return Some("timeframes_secs: дубликат ".to_owned().concat(digits.as_str()));
    }
    None
}

impl IngestConfig {
    /// How often the aggregators are pulsed, in milliseconds.
    pub fn agg_tick_interval(&self) -> (r: u64)
        ensures
            r == self.agg_tick_interval_ms,
    {
        self.agg_tick_interval_ms
    }

    /// Refuses bar lengths that are none, below 30 seconds, no multiple of 30 seconds or repeated.
    pub fn validate_timeframes(&self) -> (r: Result<(), String>)
        ensures
            (match r {
                Ok(_) => None,
                Err(m) => Some(m@),
            }) == timeframes_fault(self.timeframes_secs@),
    {
        let tfs = &self.timeframes_secs;
        if tfs.len() == 0 {
            return Err(
                "timeframes_secs пуст; задай хотя бы один TF (например [60])".to_owned(),
            );
        }
        let mut i: usize = 0;
        while i < tfs.len()
            invariant
                i <= tfs@.len(),
                *tfs == self.timeframes_secs,
                tfs@.len() > 0,
                first_timeframe_fault(tfs@.take(i as int)) is None,
            decreases tfs@.len() - i,
        {
            let ghost next = tfs@.take(i as int + 1);
            assert(next.drop_last() =~= tfs@.take(i as int));
            assert(next.last() == tfs@[i as int]);
            match timeframe_fault_at(tfs, i) {
                Some(m) => {
                    proof {
                        lemma_first_timeframe_fault(tfs@, i as int + 1);
                    }
                    return Err(m);
                },
                None => {},
            }
            i = i + 1;
        }
        assert(tfs@.take(i as int) =~= tfs@);
        Ok(())
    }

    /// Whether a venue runs: a list that is not empty decides alone, otherwise the flag of its
    /// section.
    pub fn is_exchange_enabled(&self, name: &str, per_section_enabled: bool) -> (r: bool)
        ensures
            r == (if self.enabled_exchanges@.len() == 0 {
                per_section_enabled
            } else {
                views(self.enabled_exchanges@).contains(name@)
            }),
    {
        if self.enabled_exchanges.len() == 0 {
            return per_section_enabled;
        }
        is_listed(&self.enabled_exchanges, name)
    }
}

/// Bar lengths that are not refused are distinct multiples of 30 seconds, none of them zero.
pub proof fn law_valid_timeframes(tfs: Seq<u32>)
    requires
        first_timeframe_fault(tfs) is None,
    ensures
        tfs.no_duplicates(),
        forall|i: int| 0 <= i < tfs.len() ==> (#[trigger] tfs[i]) >= 30 && tfs[i] % 30 == 0,
    decreases tfs.len(),
{
    if tfs.len() > 0 {
        let init = tfs.drop_last();
        law_valid_timeframes(init);
        assert forall|i: int, j: int| 0 <= i < tfs.len() && 0 <= j < tfs.len() && i
            != j implies tfs[i] != tfs[j] by {
            if i < init.len() {
                assert(init[i] == tfs[i]);
                assert(init.contains(tfs[i]));
            }
            if j < init.len() {
                assert(init[j] == tfs[j]);
                assert(init.contains(tfs[j]));
            }
        }
        assert forall|i: int| 0 <= i < tfs.len() implies (#[trigger] tfs[i]) >= 30 && tfs[i] % 30
            == 0 by {
            if i < init.len() {
                assert(init[i] == tfs[i]);
            }
        }
    }
}

/// Bar lengths are refused exactly where there are none, or one of them is below 30 seconds, no
/// multiple of 30, or occurs twice.
pub proof fn law_timeframes_are_refused(tfs: Seq<u32>)
    ensures
        timeframes_fault(tfs) is None <==> {
            &&& tfs.len() > 0
            &&& forall|i: int| 0 <= i < tfs.len() ==> #[trigger] tfs[i] >= 30 && tfs[i] % 30 == 0
            &&& tfs.no_duplicates()
        },
{
    lemma_timeframes(tfs);
}

proof fn lemma_timeframes(tfs: Seq<u32>)
    ensures
        first_timeframe_fault(tfs) is None <==> {
            &&& forall|i: int| 0 <= i < tfs.len() ==> #[trigger] tfs[i] >= 30 && tfs[i] % 30 == 0
            &&& tfs.no_duplicates()
        },
    decreases tfs.len(),
{
    if first_timeframe_fault(tfs) is None {
        law_valid_timeframes(tfs);
    }
    if tfs.len() > 0 {
        let init = tfs.drop_last();
        let n = tfs.len() - 1;
        lemma_timeframes(init);
        if (forall|i: int| 0 <= i < tfs.len() ==> #[trigger] tfs[i] >= 30 && tfs[i] % 30 == 0)
            && tfs.no_duplicates() {
            assert forall|i: int| 0 <= i < init.len() implies #[trigger] init[i] >= 30 && init[i] % 30
                == 0 by {
                assert(init[i] == tfs[i]);
            }
            assert(tfs[n] == tfs.last());
            if init.contains(tfs.last()) {
                let k = init.index_of(tfs.last());
                assert(tfs[k] == tfs[n]);
            }
        }
    }
}

/// The check is switched on by one of four words and by nothing else.
pub proof fn law_words_that_switch_on(s: Seq<char>)
    ensures
        switches_on(s) <==> seq!["1"@, "true"@, "TRUE"@, "yes"@].contains(s),
{
    let words = seq!["1"@, "true"@, "TRUE"@, "yes"@];
    assert(words[0] == "1"@ && words[1] == "true"@ && words[2] == "TRUE"@ && words[3] == "yes"@);
}

} // verus!
