//! Redis-backed event buses: their configuration, the reading of stream
//! entries, and the decisions of a stream consumer (dead-lettering after too
//! many deliveries, acknowledging in order). Connections and commands run
//! in the application.
use vstd::prelude::*;
use vstd::string::StringExecFns;

use crate::common::TenantId;
use crate::json::parse_uuid;
use crate::json::parsed_uuid;
use crate::text::{owned, same_text};

verus! {

broadcast use vstd::string::group_string_axioms;

#[verifier::external_type_specification]
#[verifier::external_body]
pub struct ExClient(redis::Client);

/// What `redis::Client::open` reports for a URL: nothing when it accepts
/// it, else the text of its error. It only reads the URL.
pub uninterp spec fn redis_open_failure(url: Seq<char>) -> Option<Seq<char>>;

/// `redis::Client::open`, which checks the URL and connects to nothing; the
/// error is given by its text.
#[verifier::external_body]
fn open_client(url: &str) -> (r: Result<redis::Client, String>)
    ensures
        r is Ok <==> redis_open_failure(url@) is None,
        r.is_err() ==> redis_open_failure(url@) == Some(r.unwrap_err()@),
{
    redis::Client::open(url).map_err(|e| e.to_string())
}

/// Failure of the publish/subscribe bus.
#[derive(Debug)]
pub enum RedisBusError {
    Redis(String),
    Serialize(String),
}

/// An event bus over a Redis publish/subscribe channel.
#[derive(Debug)]
pub struct RedisPubSubEventBus {
    pub client: redis::Client,
    pub channel: String,
}

impl RedisPubSubEventBus {
    /// A bus on `channel` of the server at `redis_url`.
    pub fn new(redis_url: &str, channel: &str) -> (r: Result<RedisPubSubEventBus, RedisBusError>)
        ensures
            match redis_open_failure(redis_url@) {
                None => r matches Ok(b) && b.channel@ == channel@,
                Some(m) => r matches Err(RedisBusError::Redis(e)) && e@ == m,
            },
    {
        match open_client(redis_url) {
            Ok(client) => Ok(RedisPubSubEventBus { client, channel: owned(channel) }),
            Err(m) => Err(RedisBusError::Redis(m)),
        }
    }
}

/// Failure of the streams bus.
#[derive(Debug)]
pub enum RedisStreamsError {
    Connection(String),
    Command(String),
    Serialization(String),
    Deserialization(String),
    ConsumerGroup(String),
}

pub open spec fn streams_error_text(e: &RedisStreamsError) -> Seq<char> {
    match e {
        RedisStreamsError::Connection(m) => "Redis connection error: "@ + m@,
        RedisStreamsError::Command(m) => "Redis command error: "@ + m@,
        RedisStreamsError::Serialization(m) => "Serialization error: "@ + m@,
        RedisStreamsError::Deserialization(m) => "Deserialization error: "@ + m@,
        RedisStreamsError::ConsumerGroup(m) => "Consumer group error: "@ + m@,
    }
}

impl RedisStreamsError {
    pub fn message(&self) -> (r: String)
        ensures
            r@ == streams_error_text(self),
    {
        match self {
            RedisStreamsError::Connection(m) => String::from_str("Redis connection error: ").concat(m.as_str()),
            RedisStreamsError::Command(m) => String::from_str("Redis command error: ").concat(m.as_str()),
            RedisStreamsError::Serialization(m) => String::from_str("Serialization error: ").concat(m.as_str()),
            RedisStreamsError::Deserialization(m) => String::from_str("Deserialization error: ").concat(m.as_str()),
            RedisStreamsError::ConsumerGroup(m) => String::from_str("Consumer group error: ").concat(m.as_str()),
        }
    }
}

/// An event bus over a Redis stream, with consumer groups, redelivery of
/// pending entries and a dead-letter stream.
#[derive(Debug)]
pub struct RedisStreamsEventBus {
    pub client: redis::Client,
    pub stream_key: String,
    pub dlq_key: String,
    /// Deliveries after which an entry goes to the dead-letter stream.
    pub max_retries: u32,
    /// Idle time after which a pending entry is claimed again.
    pub pending_timeout_ms: u64,
}

impl RedisStreamsEventBus {
    /// A bus on the server at `redis_url`; the keys default to
    /// `forgeerp:events` and `forgeerp:events:dlq`.
    pub fn new(redis_url: &str, stream_key: Option<String>, dlq_key: Option<String>) -> (r: Result<
        RedisStreamsEventBus,
        RedisStreamsError,
    >)
        ensures
            match redis_open_failure(redis_url@) {
                None => r matches Ok(b) && b.stream_key@ == (match stream_key {
                    Some(k) => k@,
                    None => "forgeerp:events"@,
                }) && b.dlq_key@ == (match dlq_key {
                    Some(k) => k@,
                    None => "forgeerp:events:dlq"@,
                }) && b.max_retries == 5 && b.pending_timeout_ms == 60_000,
                Some(m) => r matches Err(RedisStreamsError::Connection(e)) && e@ == m,
            },
    {
        match open_client(redis_url) {
            Err(m) => Err(RedisStreamsError::Connection(m)),
            Ok(client) => {
                let stream_key = match stream_key {
                    Some(k) => k,
                    None => String::from_str("forgeerp:events"),
                };
                let dlq_key = match dlq_key {
                    Some(k) => k,
                    None => String::from_str("forgeerp:events:dlq"),
                };
                Ok(RedisStreamsEventBus { client, stream_key, dlq_key, max_retries: 5, pending_timeout_ms: 60_000 })
            },
        }
    }

    /// Whether an entry delivered `retry_count` times goes to the dead-letter
    /// stream instead of the subscriber.
    pub fn dead_letters(&self, retry_count: u32) -> (r: bool)
        ensures
            r == (retry_count >= self.max_retries),
    {
        retry_count >= self.max_retries
    }
}

/// A reply value of the Redis protocol, with binary data read as text.
#[derive(Debug)]
pub enum RespValue {
    Data(String),
    Bulk(Vec<RespValue>),
    Other,
}

/// An entry read from the stream: its id, the text of its envelope, and how
/// often it was delivered.
#[derive(Debug)]
pub struct StreamEntry {
    pub message_id: String,
    pub payload: String,
    pub retry_count: u32,
}

/// The value of the last field named `key` among the pairs (a later pair
/// replaces an earlier one of the same name).
pub open spec fn field_value(pairs: Seq<(Seq<char>, Seq<char>)>, key: Seq<char>) -> Option<Seq<char>>
    decreases pairs.len(),
{
    if pairs.len() == 0 {
        None
    } else if pairs.last().0 == key {
        Some(pairs.last().1)
    } else {
        field_value(pairs.drop_last(), key)
    }
}

/// The field pairs of a flat list: consecutive values two by two, both data;
/// other pairs and a lone last value are passed over.
pub open spec fn field_pairs(values: Seq<RespValue>) -> Seq<(Seq<char>, Seq<char>)>
    decreases values.len(),
{
    if values.len() < 2 {
        Seq::empty()
    } else {
        let rest = field_pairs(values.subrange(2, values.len() as int));
        match (values[0], values[1]) {
            (RespValue::Data(k), RespValue::Data(v)) => seq![(k@, v@)] + rest,
            _ => rest,
        }
    }
}

pub open spec fn is_digit(c: char) -> bool {
    '0' <= c <= '9'
}

/// The value of a string of decimal digits.
pub open spec fn digits_value(t: Seq<char>) -> int
    decreases t.len(),
{
    if t.len() == 0 {
        0
    } else {
        digits_value(t.drop_last()) * 10 + (t.last() as int - '0' as int)
    }
}

/// A text without its leading `+`, if any.
pub open spec fn unsigned_body(t: Seq<char>) -> Seq<char> {
    if t.len() > 0 && t[0] == '+' {
        t.drop_first()
    } else {
        t
    }
}

pub open spec fn all_digits(s: Seq<char>) -> bool {
    forall|i: int| 0 <= i < s.len() ==> is_digit(#[trigger] s[i])
}

/// What `str::parse::<u32>` reads: an optional `+`, then at least one
/// digit and nothing else, of a value that fits in 32 bits.
pub open spec fn decimal_u32(t: Seq<char>) -> Option<u32> {
    let body = unsigned_body(t);
    if body.len() == 0 || !all_digits(body) {
        None
    } else if digits_value(body) > u32::MAX {
        None
    } else {
        Some(digits_value(body) as u32)
    }
}

pub proof fn lemma_digits_value_nonneg(t: Seq<char>)
    requires
        forall|i: int| 0 <= i < t.len() ==> is_digit(#[trigger] t[i]),
    ensures
        digits_value(t) >= 0,
    decreases t.len(),
{
    if t.len() > 0 {
        lemma_digits_value_nonneg(t.drop_last());
    }
}

pub proof fn lemma_digits_value_grows(t: Seq<char>, c: char)
    requires
        forall|i: int| 0 <= i < t.len() ==> is_digit(#[trigger] t[i]),
        is_digit(c),
    ensures
        digits_value(t.push(c)) >= digits_value(t),
{
    assert(t.push(c).drop_last() =~= t);
    lemma_digits_value_nonneg(t);
}

/// `decimal_u32` computed.
pub fn parse_decimal_u32(t: &str) -> (r: Option<u32>)
    ensures
        r == decimal_u32(t@),
{
    let n = t.unicode_len();
    let start: usize = if n > 0 && t.get_char(0) == '+' {
        1
    } else {
        0
    };
    let ghost body = unsigned_body(t@);
    assert(body =~= t@.subrange(start as int, n as int));
    if start == n {
        return None;
    }
    let mut value: u64 = 0;
    let mut i: usize = start;
    while i < n
        invariant
            start <= i <= n,
            start < n,
            n == t@.len(),
            body == unsigned_body(t@),
            body =~= t@.subrange(start as int, n as int),
            forall|k: int| 0 <= k < i - start ==> is_digit(#[trigger] body[k]),
            value == digits_value(body.take(i - start)),
            value <= u32::MAX,
        decreases n - i,
    {
        let c = t.get_char(i);
        assert(body[i - start] == c);
        if !('0' <= c && c <= '9') {
            assert(!is_digit(body[i - start]));
            assert(!all_digits(body));
            return None;
        }
        let d = (c as u32 - '0' as u32) as u64;
        let next = value * 10 + d;
        proof {
            assert(body.take(i - start + 1) =~= body.take(i - start).push(c));
            assert(body.take(i - start + 1).drop_last() =~= body.take(i - start));
        }
        if next > u32::MAX as u64 {
            proof {
                assert(digits_value(body.take(i - start + 1)) == value * 10 + d);
                lemma_prefix_bound(body, i - start + 1);
                if all_digits(body) {
                    assert(digits_value(body) > u32::MAX);
                }
            }
            return None;
        }
        value = next;
        i = i + 1;
    }
    assert(body.take(n - start) =~= body);
    Some(value as u32)
}

/// A prefix of digits never reads more than the whole digit string.
pub proof fn lemma_prefix_bound(body: Seq<char>, k: int)
    requires
        0 <= k <= body.len(),
        forall|i: int| 0 <= i < k ==> is_digit(#[trigger] body[i]),
    ensures
        (forall|i: int| 0 <= i < body.len() ==> is_digit(#[trigger] body[i])) ==> digits_value(body)
            >= digits_value(body.take(k)),
    decreases body.len() - k,
{
    if k < body.len() {
        if forall|i: int| 0 <= i < body.len() ==> is_digit(#[trigger] body[i]) {
            lemma_prefix_bound(body, k + 1);
            assert(body.take(k + 1) =~= body.take(k).push(body[k]));
            assert forall|i: int| 0 <= i < k implies is_digit(#[trigger] body.take(k)[i]) by {
                assert(body.take(k)[i] == body[i]);
            }
            lemma_digits_value_grows(body.take(k), body[k]);
        }
    } else {
        assert(body.take(k) =~= body);
    }
}

/// Why a stream entry could not be read.
#[derive(Debug, Clone, Copy, PartialEq, Eq, Structural)]
pub enum EntryFault {
    InvalidEntry,
    TooShort,
    InvalidId,
    InvalidFields,
    MissingTenant,
    InvalidTenant,
    TenantMismatch,
    MissingPayload,
}

/// The text of a fault (an invalid tenant id also names the parse error).
pub open spec fn fault_text(f: EntryFault) -> Seq<char> {
    match f {
        EntryFault::InvalidEntry => "Invalid entry format"@,
        EntryFault::TooShort => "Entry too short"@,
        EntryFault::InvalidId => "Invalid message ID format"@,
        EntryFault::InvalidFields => "Invalid fields format"@,
        EntryFault::MissingTenant => "Missing tenant_id field"@,
        EntryFault::InvalidTenant => "Invalid tenant_id: "@,
        EntryFault::TenantMismatch => "Tenant mismatch (skipping)"@,
        EntryFault::MissingPayload => "Missing payload field"@,
    }
}

/// The id of an entry: the first value, as data or as the first datum of a
/// list.
pub open spec fn entry_id(v: RespValue) -> Option<Seq<char>> {
    match v {
        RespValue::Data(d) => Some(d@),
        RespValue::Bulk(ids) => if ids@.len() > 0 && ids@[0] is Data {
            Some(ids@[0]->Data_0@)
        } else {
            None
        },
        RespValue::Other => None,
    }
}

/// Reading an entry `[id, [k1, v1, k2, v2, ...]]` for a consumer pinned to
/// `tenant` (if any): its id, its tenant (which must parse and, when
/// pinned, match), its envelope text, and its delivery count (0 when absent
/// or not a number).
pub open spec fn read_entry(entry: RespValue, tenant: Option<TenantId>) -> Result<(Seq<char>, Seq<char>, u32), EntryFault> {
    match entry {
        RespValue::Bulk(vs) => if vs@.len() < 2 {
            Err(EntryFault::TooShort)
        } else {
            match entry_id(vs@[0]) {
                None => Err(EntryFault::InvalidId),
                Some(id) => match vs@[1] {
                    RespValue::Bulk(fs) => {
                        let pairs = field_pairs(fs@);
                        match field_value(pairs, "tenant_id"@) {
                            None => Err(EntryFault::MissingTenant),
                            Some(t) => match parsed_uuid(t) {
                                None => Err(EntryFault::InvalidTenant),
                                Some(u) => if tenant is Some && tenant->0 != TenantId(u) {
                                    Err(EntryFault::TenantMismatch)
                                } else {
                                    match field_value(pairs, "payload"@) {
                                        None => Err(EntryFault::MissingPayload),
                                        Some(p) => Ok(
                                            (
                                                id,
                                                p,
                                                match field_value(pairs, "retry_count"@) {
                                                    Some(rc) => match decimal_u32(rc) {
                                                        Some(n) => n,
                                                        None => 0,
                                                    },
                                                    None => 0,
                                                },
                                            ),
                                        ),
                                    }
                                },
                            },
                        }
                    },
                    _ => Err(EntryFault::InvalidFields),
                },
            }
        },
        _ => Err(EntryFault::InvalidEntry),
    }
}

/// The field pairs of a list, in order.
fn collect_pairs(values: &Vec<RespValue>) -> (r: Vec<(String, String)>)
    ensures
        r@.map_values(|p: (String, String)| (p.0@, p.1@)) == field_pairs(values@),
{
    let mut out: Vec<(String, String)> = Vec::new();
    let mut i: usize = 0;
    assert(values@.subrange(0, values@.len() as int) =~= values@);
    assert(out@.map_values(|p: (String, String)| (p.0@, p.1@)) + field_pairs(values@) =~= field_pairs(values@));
    while values.len() - i >= 2
        invariant
            i <= values@.len(),
            field_pairs(values@) == out@.map_values(|p: (String, String)| (p.0@, p.1@)) + field_pairs(
                values@.subrange(i as int, values@.len() as int),
            ),
        decreases values@.len() - i,
    {
        let ghost rest = values@.subrange(i as int, values@.len() as int);
        proof {
            assert(rest.subrange(2, rest.len() as int) =~= values@.subrange(i + 2, values@.len() as int));
            assert(rest[0] == values@[i as int]);
            assert(rest[1] == values@[i + 1]);
        }
        let ghost before = out@.map_values(|p: (String, String)| (p.0@, p.1@));
        match (&values[i], &values[i + 1]) {
            (RespValue::Data(k), RespValue::Data(v)) => {
                out.push((k.clone(), v.clone()));
                assert(out@.map_values(|p: (String, String)| (p.0@, p.1@)) =~= before.push((k@, v@)));
                assert(before.push((k@, v@)) + field_pairs(values@.subrange(i + 2, values@.len() as int)) =~= before
                    + (seq![(k@, v@)] + field_pairs(values@.subrange(i + 2, values@.len() as int))));
            },
            _ => {},
        }
        i = i + 2;
    }
    proof {
        let rest = values@.subrange(i as int, values@.len() as int);
        assert(rest.len() < 2);
        assert(out@.map_values(|p: (String, String)| (p.0@, p.1@)) + Seq::<(Seq<char>, Seq<char>)>::empty()
            =~= out@.map_values(|p: (String, String)| (p.0@, p.1@)));
    }
    out
}

/// The value of the last pair named `key`.
fn lookup_field<'a>(pairs: &'a Vec<(String, String)>, key: &str) -> (r: Option<&'a str>)
    ensures
        match r {
            Some(v) => field_value(pairs@.map_values(|p: (String, String)| (p.0@, p.1@)), key@) == Some(v@),
            None => field_value(pairs@.map_values(|p: (String, String)| (p.0@, p.1@)), key@) is None,
        },
{
    let ghost all = pairs@.map_values(|p: (String, String)| (p.0@, p.1@));
    let mut i: usize = pairs.len();
    assert(all.take(i as int) =~= all);
    while i > 0
        invariant
            i <= pairs@.len(),
            all == pairs@.map_values(|p: (String, String)| (p.0@, p.1@)),
            field_value(all, key@) == field_value(all.take(i as int), key@),
        decreases i,
    {
        let ghost pre = all.take(i as int);
        assert(pre.drop_last() =~= all.take(i - 1));
        if same_text(pairs[i - 1].0.as_str(), key) {
            return Some(pairs[i - 1].1.as_str());
        }
        i = i - 1;
    }
    None
}

/// Read a stream entry for a consumer pinned to `tenant_id` (if any).
pub fn parse_stream_entry(entry: &RespValue, tenant_id: Option<TenantId>) -> (r: Result<StreamEntry, RedisStreamsError>)
    ensures
        match read_entry(*entry, tenant_id) {
            Ok((id, payload, retry_count)) => r matches Ok(e) && e.message_id@ == id && e.payload@ == payload
                && e.retry_count == retry_count,
            Err(f) => r matches Err(RedisStreamsError::Deserialization(m)) && (f == EntryFault::InvalidTenant
                ==> m@.take(fault_text(f).len() as int) == fault_text(f)) && (f != EntryFault::InvalidTenant
                ==> m@ == fault_text(f)),
        },
{
    let vs = match entry {
        RespValue::Bulk(v) => v,
        _ => {
            return Err(RedisStreamsError::Deserialization(String::from_str("Invalid entry format")));
        },
    };
    if vs.len() < 2 {
        return Err(RedisStreamsError::Deserialization(String::from_str("Entry too short")));
    }
    let message_id = match &vs[0] {
        RespValue::Data(d) => d.clone(),
        RespValue::Bulk(ids) => {
            if ids.len() > 0 {
                match &ids[0] {
                    RespValue::Data(d) => d.clone(),
                    _ => {
                        return Err(RedisStreamsError::Deserialization(String::from_str("Invalid message ID format")));
                    },
                }
            } else {
                return Err(RedisStreamsError::Deserialization(String::from_str("Invalid message ID format")));
            }
        },
        RespValue::Other => {
            return Err(RedisStreamsError::Deserialization(String::from_str("Invalid message ID format")));
        },
    };
    let fields = match &vs[1] {
        RespValue::Bulk(f) => f,
        _ => {
            return Err(RedisStreamsError::Deserialization(String::from_str("Invalid fields format")));
        },
    };
    let pairs = collect_pairs(fields);
    let tenant_text = match lookup_field(&pairs, "tenant_id") {
        Some(t) => t,
        None => {
            return Err(RedisStreamsError::Deserialization(String::from_str("Missing tenant_id field")));
        },
    };
    let tenant = match parse_uuid(tenant_text) {
        Ok(u) => TenantId(u),
        Err(e) => {
            let m = String::from_str("Invalid tenant_id: ").concat(e.as_str());
            proof {
                assert(m@.take("Invalid tenant_id: "@.len() as int) =~= "Invalid tenant_id: "@);
            }
            return Err(RedisStreamsError::Deserialization(m));
        },
    };
    match tenant_id {
        Some(t) => {
            if t != tenant {
                return Err(RedisStreamsError::Deserialization(String::from_str("Tenant mismatch (skipping)")));
            }
        },
        None => {},
    }
    let payload = match lookup_field(&pairs, "payload") {
        Some(p) => String::from_str(p),
        None => {
            return Err(RedisStreamsError::Deserialization(String::from_str("Missing payload field")));
        },
    };
    let retry_count = match lookup_field(&pairs, "retry_count") {
        Some(t) => match parse_decimal_u32(t) {
            Some(n) => n,
            None => 0,
        },
        None => 0,
    };
    Ok(StreamEntry { message_id, payload, retry_count })
}

/// Take the first `count` ids awaiting acknowledgement, if there are that
/// many; otherwise take none.
pub fn take_acks(unacked: &mut Vec<String>, count: usize) -> (r: Vec<String>)
    ensures
        old(unacked)@.len() >= count ==> r@ == old(unacked)@.take(count as int) && final(unacked)@ == old(unacked)@.skip(
            count as int,
        ),
        old(unacked)@.len() < count ==> r@.len() == 0 && final(unacked)@ == old(unacked)@,
{
    if unacked.len() < count {
        return Vec::new();
    }
    let ghost before = unacked@;
    let mut taken = unacked.split_off(count);
    std::mem::swap(unacked, &mut taken);
    assert(taken@ =~= before.take(count as int));
    assert(unacked@ =~= before.skip(count as int));
    taken
}

} // verus!
