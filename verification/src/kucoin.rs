//! The session of KuCoin: a connection by token, topics of comma-joined symbols, a JSON heartbeat.

use vstd::prelude::*;
use vstd::slice::slice_subrange;
use vstd::string::*;

use crate::chunks::{
    chunk, chunk_bounds, chunk_count, law_chunks_cover, law_each_item_has_its_chunk,
};
use crate::json::{
    json_document, json_text, no_members, object, parse_json, text, with_member, write_json, Json,
    JsonView,
};
use crate::text::{
    chars_of, decimal, find_char, index_of, join, joined, lemma_index_of, same_text, u64_text,
    views,
};

verus! {

/// Most instruments on one connection.
pub const SHARD_SIZE: usize = 250;

/// Most symbols in one topic.
pub const SYMS_PER_TOPIC: usize = 100;

/// The lowercase hexadecimal digit of a number below sixteen.
pub open spec fn hex_char(n: int) -> char {
    if n < 10 {
        ((48 + n) as u8) as char
    } else {
        ((87 + n) as u8) as char
    }
}

/// The number in lowercase hexadecimal, without leading zeros.
pub open spec fn hexadecimal(n: nat) -> Seq<char>
    decreases n,
{
    if n < 16 {
        seq![hex_char(n as int)]
    } else {
        hexadecimal(n / 16).push(hex_char((n % 16) as int))
    }
}

/// The last `width` hexadecimal digits of a number, zeros in front.
pub open spec fn hex_padded(n: nat, width: nat) -> Seq<char>
    decreases width,
{
    if width == 0 {
        Seq::empty()
    } else {
        hex_padded(n / 16, (width - 1) as nat).push(hex_char((n % 16) as int))
    }
}

fn hex(n: u64) -> (r: char)
    requires
        n < 16,
    ensures
        r == hex_char(n as int),
{
    if n < 10 {
        (48 + n as u8) as char
    } else {
        (87 + n as u8) as char
    }
}

fn push_hex(out: &mut String, n: u64)
    ensures
        final(out)@ == old(out)@ + hexadecimal(n as nat),
    decreases n,
{
    if n < 16 {
        out.push(hex(n));
        assert(out@ =~= old(out)@ + hexadecimal(n as nat));
    } else {
        push_hex(out, n / 16);
        out.push(hex(n % 16));
        assert(out@ =~= old(out)@ + hexadecimal(n as nat));
    }
}

fn push_hex_padded(out: &mut String, n: u64, width: u8)
    ensures
        final(out)@ == old(out)@ + hex_padded(n as nat, width as nat),
    decreases width,
{
    if width > 0 {
        push_hex_padded(out, n / 16, width - 1);
        out.push(hex(n % 16));
        assert(out@ =~= old(out)@ + hex_padded(n as nat, width as nat));
    } else {
        assert(out@ =~= old(out)@ + hex_padded(n as nat, width as nat));
    }
}

/// The identifier of a connection: the time in sixteen hexadecimal digits and a counter.
pub fn connect_id(time_ns: u64, counter: u64) -> (r: String)
    ensures
        r@ == hex_padded(time_ns as nat, 16) + hexadecimal(counter as nat),
{
    let mut out = String::new();
    push_hex_padded(&mut out, time_ns, 16);
    push_hex(&mut out, counter);
    assert(out@ =~= hex_padded(time_ns as nat, 16) + hexadecimal(counter as nat));
    out
}

/// The URL of a connection by token.
pub open spec fn connection_url(endpoint: Seq<char>, token: Seq<char>, id: Seq<char>) -> Seq<char> {
    endpoint + (if endpoint.contains('?') {
        "&"@
    } else {
        "?"@
    }) + "token="@ + token + "&connectId="@ + id
}

/// Makes the URL of a connection by token.
pub fn connect_url(endpoint: &str, token: &str, id: &str) -> (r: String)
    ensures
        r@ == connection_url(endpoint@, token@, id@),
{
    let cs = chars_of(endpoint);
    let k: usize = find_char(&cs, '?');
    proof {
        lemma_index_of(cs@, '?');
        if k < cs@.len() {
            assert(endpoint@[k as int] == '?');
        } else if endpoint@.contains('?') {
            let i = endpoint@.index_of('?');
            assert(cs@[i] == '?');
        }
    }
    let sep = if k < cs.len() {
        "&"
    } else {
        "?"
    };
    endpoint.to_owned().concat(sep).concat("token=").concat(token).concat("&connectId=").concat(id)
}

/// The time between two pings: three seconds less than the server's interval, which counts as five
/// to eighteen seconds, and at least five.
pub open spec fn ping_period(server_ms: u64) -> u64 {
    let bounded = if server_ms < 5_000 {
        5_000u64
    } else if server_ms > 18_000 {
        18_000u64
    } else {
        server_ms
    };
    if bounded - 3_000 > 5_000 {
        (bounded - 3_000) as u64
    } else {
        5_000
    }
}

pub fn ping_ms(server_ms: u64) -> (r: u64)
    ensures
        r == ping_period(server_ms),
        5_000 <= r <= 15_000,
{
    let bounded: u64 = if server_ms < 5_000 {
        5_000
    } else if server_ms > 18_000 {
        18_000
    } else {
        server_ms
    };
    if bounded - 3_000 > 5_000 {
        bounded - 3_000
    } else {
        5_000
    }
}

/// The message that subscribes to a topic.
pub open spec fn topic_message(id: u64, topic: Seq<char>) -> JsonView {
    JsonView::Object(
        Map::<Seq<char>, JsonView>::empty().insert(
            "id"@,
            JsonView::Text(decimal(id as nat)),
        ).insert("type"@, JsonView::Text("subscribe"@)).insert("topic"@, JsonView::Text(topic)).insert(
            "response"@,
            JsonView::Bool(false),
        ),
    )
}

/// The message of a heartbeat.
pub open spec fn ping_message(id: u64) -> JsonView {
    JsonView::Object(
        Map::<Seq<char>, JsonView>::empty().insert(
            "id"@,
            JsonView::Text(decimal(id as nat)),
        ).insert("type"@, JsonView::Text("ping"@)),
    )
}

/// Makes the message that subscribes to a topic.
pub fn topic_document(id: u64, topic: &str) -> (r: Json)
    ensures
        r@ == topic_message(id, topic@),
        crate::json::writable(r),
{
    let m = with_member(no_members(), "id", text(u64_text(id).as_str()));
    let m = with_member(m, "type", text("subscribe"));
    let m = with_member(m, "topic", text(topic));
    object(with_member(m, "response", Json::Bool(false)))
}

/// The text of a heartbeat.
pub fn ping_payload(id: u64) -> (r: String)
    ensures
        r@ == json_text(ping_message(id)),
{
    let m = with_member(no_members(), "id", text(u64_text(id).as_str()));
    write_json(&object(with_member(m, "type", text("ping"))))
}

/// The messages that subscribe to the given symbols, numbered from 1.
pub open spec fn topic_batches(prefix: Seq<char>, venues: Seq<Seq<char>>) -> Seq<Seq<char>> {
    Seq::new(
        chunk_count(venues.len(), SYMS_PER_TOPIC as nat),
        |i: int|
            json_text(
                topic_message(
                    (i + 1) as u64,
                    prefix + joined(chunk(venues, SYMS_PER_TOPIC as nat, i), ","@),
                ),
            ),
    )
}

/// One message for each topic of comma-joined symbols.
pub fn subscribe_payloads(prefix: &str, venues: &Vec<String>) -> (r: Vec<String>)
    ensures
        views(r@) == topic_batches(prefix@, views(venues@)),
{
    let ghost all = views(venues@);
    let bounds = chunk_bounds(venues.len(), SYMS_PER_TOPIC);
    let mut out: Vec<String> = Vec::new();
    let mut i: usize = 0;
    while i < bounds.len()
        invariant
            all == views(venues@),
            i <= bounds@.len(),
            bounds@.len() == chunk_count(all.len(), SYMS_PER_TOPIC as nat),
            bounds@.len() <= venues@.len(),
            forall|k: int|
                0 <= k < bounds@.len() ==> (#[trigger] bounds@[k]).0 == k * SYMS_PER_TOPIC
                    && bounds@[k].1 == crate::chunks::chunk_end(
                    all.len(),
                    SYMS_PER_TOPIC as nat,
                    k,
                ) && bounds@[k].0 < bounds@[k].1 <= venues@.len(),
            out@.len() == i,
            forall|k: int| 0 <= k < i ==> (#[trigger] out@[k])@ == topic_batches(prefix@, all)[k],
        decreases bounds@.len() - i,
    {
        let (from, to) = bounds[i];
        let part = slice_subrange(venues.as_slice(), from, to);
        assert(views(part@) =~= chunk(all, SYMS_PER_TOPIC as nat, i as int));
        let topic = prefix.to_owned().concat(join(part, ",").as_str());
        let payload = write_json(&topic_document(i as u64 + 1, topic.as_str()));
        out.push(payload);
        i = i + 1;
    }
    assert(views(out@) =~= topic_batches(prefix@, all));
    out
}

/// The frame reports an error.
pub open spec fn reports_error(v: JsonView) -> bool {
    v.text_of("type"@) == Some("error"@)
}

/// Tells whether the frame reports an error.
pub fn is_error_frame(v: &Json) -> (r: bool)
    ensures
        r == reports_error(v@),
{
    match v.text_at("type") {
        Some(t) => same_text(t, "error"),
        None => false,
    }
}

/// What a frame is, before its symbol is looked at.
pub enum KucoinFrame {
    /// It is no JSON.
    Undecodable,
    /// It reports an error.
    Error(Json),
    /// It may hold trades.
    Document(Json),
}

/// Opens a frame.
pub fn open_frame(raw: &[u8]) -> (r: KucoinFrame)
    ensures
        match json_document(raw@) {
            Err(_) => r is Undecodable,
            Ok(v) => if reports_error(v) {
                r is Error && r->Error_0@ == v
            } else {
                r is Document && r->Document_0@ == v
            },
        },
{
    match parse_json(raw) {
        Err(_) => KucoinFrame::Undecodable,
        Ok(v) => if is_error_frame(&v) {
            KucoinFrame::Error(v)
        } else {
            KucoinFrame::Document(v)
        },
    }
}

/// Every symbol is asked for: it stands in the topic of its batch, whose symbols are joined by commas
/// behind the prefix. No topic has more symbols than the venue takes, and the messages are numbered
/// from 1.
pub proof fn law_every_symbol_is_subscribed(prefix: Seq<char>, venues: Seq<Seq<char>>, k: int)
    requires
        0 <= k < venues.len(),
        venues.len() <= u32::MAX,
    ensures
        ({
            let (i, j) = (k / SYMS_PER_TOPIC as int, k % SYMS_PER_TOPIC as int);
            &&& 0 <= i < topic_batches(prefix, venues).len()
            &&& exists|m: JsonView, part: Seq<Seq<char>>|
                {
                    &&& topic_batches(prefix, venues)[i] == #[trigger] json_text(m)
                    &&& m.text_of("topic"@) == Some(prefix + #[trigger] joined(part, ","@))
                    &&& j < part.len() <= SYMS_PER_TOPIC
                    &&& part[j] == venues[k]
                    &&& m.text_of("type"@) == Some("subscribe"@)
                    &&& m.text_of("id"@) == Some(decimal((i + 1) as nat))
                    &&& m.boolean_of("response"@) == Some(false)
                }
        }),
{
    let n = SYMS_PER_TOPIC as nat;
    let (i, j) = (k / n as int, k % n as int);
    law_each_item_has_its_chunk(venues, n, k);
    law_chunks_cover(venues, n);
    let part = chunk(venues, n, i);
    let m = topic_message((i + 1) as u64, prefix + joined(part, ","@));
    reveal_strlit("id");
    reveal_strlit("type");
    reveal_strlit("topic");
    reveal_strlit("response");
    assert("id"@.len() == 2 && "type"@.len() == 4 && "topic"@.len() == 5 && "response"@.len() == 8);
    assert(topic_batches(prefix, venues)[i] == json_text(m));
    assert(m.text_of("topic"@) == Some(prefix + joined(part, ","@)));
}

/// The session pings before the venue would give it up: three seconds before the venue's interval is
/// over where that lies between eight and eighteen seconds, and never more often than every five
/// seconds.
pub proof fn law_pings_come_in_time(server_ms: u64)
    ensures
        8_000 <= server_ms <= 18_000 ==> ping_period(server_ms) + 3_000 == server_ms,
        server_ms < 8_000 ==> ping_period(server_ms) == 5_000,
        server_ms > 18_000 ==> ping_period(server_ms) == 15_000,
{
}

/// The address of a connection is the endpoint, with the token and the identifier behind it as
/// parameters: the first behind "?" unless the endpoint has one already.
pub proof fn law_connection_carries_its_token(endpoint: Seq<char>, token: Seq<char>, id: Seq<char>)
    ensures
        endpoint.contains('?') ==> connection_url(endpoint, token, id) == endpoint + "&"@ + "token="@
            + token + "&connectId="@ + id,
        !endpoint.contains('?') ==> connection_url(endpoint, token, id) == endpoint + "?"@ + "token="@
            + token + "&connectId="@ + id,
{
}

/// The value of a hexadecimal text.
pub open spec fn hex_value(s: Seq<char>) -> nat
    decreases s.len(),
{
    if s.len() == 0 {
        0
    } else {
        hex_value(s.drop_last()) * 16 + (if s.last() <= '9' {
            (s.last() as u32 - 48) as nat
        } else {
            (s.last() as u32 - 87) as nat
        })
    }
}

/// A hexadecimal text has the value that it writes, so two connections at different times or with
/// different counters have different identifiers.
pub proof fn law_identifiers_differ(time: u64, counter: u64, other_time: u64, other: u64)
    ensures
        hex_value(hex_padded(time as nat, 16)) == time,
        hex_padded(time as nat, 16).len() == 16,
        hex_value(hexadecimal(counter as nat)) == counter,
        hex_padded(time as nat, 16) + hexadecimal(counter as nat) == hex_padded(
            other_time as nat,
            16,
        ) + hexadecimal(other as nat) ==> time == other_time && counter == other,
{
    lemma_padded_value(time as nat, 16);
    lemma_padded_value(other_time as nat, 16);
    lemma_hexadecimal_value(counter as nat);
    lemma_hexadecimal_value(other as nat);
    reveal_with_fuel(pow16, 17);
    let (a, b) = (hex_padded(time as nat, 16), hexadecimal(counter as nat));
    let (c, d) = (hex_padded(other_time as nat, 16), hexadecimal(other as nat));
    if a + b == c + d {
        assert(a =~= (a + b).take(16));
        assert(c =~= (c + d).take(16));
        assert(b =~= (a + b).skip(16));
        assert(d =~= (c + d).skip(16));
    }
}

/// Sixteen to the power `n`.
pub open spec fn pow16(n: nat) -> nat
    decreases n,
{
    if n == 0 {
        1
    } else {
        16 * pow16((n - 1) as nat)
    }
}

proof fn lemma_padded_value(n: nat, width: nat)
    ensures
        hex_padded(n, width).len() == width,
        n < pow16(width) ==> hex_value(hex_padded(n, width)) == n,
    decreases width,
{
    if width > 0 {
        lemma_padded_value(n / 16, (width - 1) as nat);
        let s = hex_padded(n, width);
        assert(s.drop_last() =~= hex_padded(n / 16, (width - 1) as nat));
        assert(s.last() == hex_char((n % 16) as int));
    }
}

proof fn lemma_hexadecimal_value(n: nat)
    ensures
        hex_value(hexadecimal(n)) == n,
    decreases n,
{
    let s = hexadecimal(n);
    if n < 16 {
        assert(s.drop_last() =~= Seq::<char>::empty());
        assert(hex_value(s.drop_last()) == 0);
        assert(s.last() == hex_char(n as int));
    } else {
        lemma_hexadecimal_value(n / 16);
        assert(s.drop_last() =~= hexadecimal(n / 16));
        assert(s.last() == hex_char((n % 16) as int));
    }
}

} // verus!
