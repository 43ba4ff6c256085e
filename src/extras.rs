use vstd::prelude::*;
use vstd::string::*;
use rand::Rng;
use crate::keyed::{distinct_keys, has_key, keyed, lemma_append, lemma_entry, lemma_replace, KeyedEntry};

verus! {

broadcast use vstd::string::group_string_axioms;

/// Identifier of the generator provider.
pub const CAPABILITY_ID: &'static str = "wascc:extras";

/// Operation asking for a GUID.
pub const OP_REQUEST_GUID: &'static str = "RequestGuid";

/// Operation asking for the caller's next sequence number.
pub const OP_REQUEST_SEQUENCE: &'static str = "RequestSequence";

/// Operation asking for a random number.
pub const OP_REQUEST_RANDOM: &'static str = "RequestRandom";

/// A decoded generator request.
#[derive(Clone, Copy, Debug, PartialEq, Eq, Structural)]
pub struct GeneratorRequest {
    pub guid: bool,
    pub sequence: bool,
    pub random: bool,
    /// Least random number wanted.
    pub min: u32,
    /// Bound the random number stays below.
    pub max: u32,
}

/// Why the generator provider refused a call.
#[derive(Clone, Copy, Debug, PartialEq, Eq, Structural)]
pub enum ProviderError {
    /// The operation name is none of the three.
    UnknownOperation,
    /// The payload is not an encoded generator request.
    MalformedRequest,
    /// A random number was asked for with `min >= max`.
    EmptyRange,
    /// The reply could not be encoded.
    EncodingFailed,
}

/// The request encoded in `bytes`, if they hold one.
pub uninterp spec fn decoded_request(bytes: Seq<u8>) -> Option<GeneratorRequest>;

/// The encoding of a generator reply, if encoding succeeds.
pub uninterp spec fn encoded_result(guid: Option<Seq<char>>, sequence: u64, random: u32) -> Option<
    Seq<u8>,
>;

/// Longest request payload that is decoded. A request encodes in well
/// under 100 bytes; the decoder recurses once per nesting level without a
/// limit, and nesting depth is bounded by length, so the bound keeps hostile
/// payloads from exhausting the stack.
pub const MAX_REQUEST_BYTES: usize = 256;

/// Relies on `wascc_codec::deserialize` of a `GeneratorRequest`: the result
/// depends on the bytes alone. Its decoder recurses into nested values under
/// unknown keys with no depth limit, hence the bound on the length.
#[verifier::external_body]
fn decode_request(bytes: &[u8]) -> (r: Option<GeneratorRequest>)
    requires
        bytes@.len() <= MAX_REQUEST_BYTES,
    ensures
        r == decoded_request(bytes@),
{
    match wascc_codec::deserialize::<wascc_codec::extras::GeneratorRequest>(bytes) {
        Ok(m) => Some(
            GeneratorRequest {
                guid: m.guid,
                sequence: m.sequence,
                random: m.random,
                min: m.min,
                max: m.max,
            },
        ),
        Err(_) => None,
    }
}

/// Relies on `wascc_codec::serialize` of a `GeneratorResult`: the result
/// depends on the three fields alone.
#[verifier::external_body]
fn encode_result(guid: Option<String>, sequence: u64, random: u32) -> (r: Option<Vec<u8>>)
    ensures
        match guid {
            Some(g) => match r {
                Some(b) => encoded_result(Some(g@), sequence, random) == Some(b@),
                None => encoded_result(Some(g@), sequence, random) is None,
            },
            None => match r {
                Some(b) => encoded_result(None, sequence, random) == Some(b@),
                None => encoded_result(None, sequence, random) is None,
            },
        },
{
    let result = wascc_codec::extras::GeneratorResult {
        guid,
        sequence_number: sequence,
        random_number: random,
    };
    wascc_codec::serialize(result).ok()
}

/// `c` is a lowercase hexadecimal digit.
pub open spec fn is_lower_hex(c: char) -> bool {
    ('0' <= c <= '9') || ('a' <= c <= 'f')
}

/// `s` is a random (version 4, RFC 4122 variant) UUID in lowercase
/// hyphenated form.
pub open spec fn is_uuid_v4_text(s: Seq<char>) -> bool {
    &&& s.len() == 36
    &&& forall|i: int|
        0 <= i < 36 ==> if i == 8 || i == 13 || i == 18 || i == 23 {
            #[trigger] s[i] == '-'
        } else {
            is_lower_hex(s[i])
        }
    &&& s[14] == '4'
    &&& (s[19] == '8' || s[19] == '9' || s[19] == 'a' || s[19] == 'b')
}

/// Relies on `uuid::Uuid::new_v4`, which sets the version to 4 and the
/// RFC 4122 variant, and on its `Display`, which writes the lowercase
/// hyphenated form.
#[verifier::external_body]
fn fresh_guid() -> (r: String)
    ensures
        is_uuid_v4_text(r@),
{
    uuid::Uuid::new_v4().to_string()
}

/// Relies on `rand::Rng::gen_range` on the thread-local generator: a number
/// in `[min, max)`; it panics when `min >= max`.
#[verifier::external_body]
fn draw(min: u32, max: u32) -> (r: u32)
    requires
        min < max,
    ensures
        min <= r < max,
{
    rand::thread_rng().gen_range(min, max)
}

/// The reply carrying these fields, or the encoding failure.
pub open spec fn reply(guid: Option<Seq<char>>, sequence: u64, random: u32) -> Result<
    Seq<u8>,
    ProviderError,
> {
    match encoded_result(guid, sequence, random) {
        Some(b) => Ok(b),
        None => Err(ProviderError::EncodingFailed),
    }
}

/// The value of a call's outcome.
pub open spec fn outcome(r: Result<Vec<u8>, ProviderError>) -> Result<Seq<u8>, ProviderError> {
    match r {
        Ok(b) => Ok(b@),
        Err(e) => Err(e),
    }
}

fn send(guid: Option<String>, sequence: u64, random: u32) -> (r: Result<Vec<u8>, ProviderError>)
    ensures
        outcome(r) == reply(
            match guid {
                Some(g) => Some(g@),
                None => None,
            },
            sequence,
            random,
        ),
{
    match encode_result(guid, sequence, random) {
        Some(b) => Ok(b),
        None => Err(ProviderError::EncodingFailed),
    }
}

/// The reply to a random-number request `req` when the generator drew
/// `drawn`: the default reply when no random number is asked for, and an
/// empty-range error when `min >= max`.
pub fn random_reply(req: GeneratorRequest, drawn: u32) -> (r: Result<Vec<u8>, ProviderError>)
    ensures
        outcome(r) == if !req.random {
            reply(None, 0, 0)
        } else if req.min >= req.max {
            Err(ProviderError::EmptyRange)
        } else {
            reply(None, 0, drawn)
        },
{
    if !req.random {
        send(None, 0, 0)
    } else if req.min >= req.max {
        Err(ProviderError::EmptyRange)
    } else {
        send(None, 0, drawn)
    }
}

/// The three operations of the generator provider.
#[derive(Clone, Copy, Debug, PartialEq, Eq, Structural)]
pub enum Operation {
    Guid,
    Sequence,
    Random,
}

/// The operation named `op`.
pub open spec fn operation_of(op: Seq<char>) -> Option<Operation> {
    if op == OP_REQUEST_GUID@ {
        Some(Operation::Guid)
    } else if op == OP_REQUEST_SEQUENCE@ {
        Some(Operation::Sequence)
    } else if op == OP_REQUEST_RANDOM@ {
        Some(Operation::Random)
    } else {
        None
    }
}

/// The operation named `op`, if it is one of the three.
pub fn operation(op: &str) -> (r: Option<Operation>)
    ensures
        r == operation_of(op@),
{
    let name = op.to_string();
    if name == String::from_str(OP_REQUEST_GUID) {
        Some(Operation::Guid)
    } else if name == String::from_str(OP_REQUEST_SEQUENCE) {
        Some(Operation::Sequence)
    } else if name == String::from_str(OP_REQUEST_RANDOM) {
        Some(Operation::Random)
    } else {
        None
    }
}

/// The counter after `n`: one more, wrapping to zero past the largest value.
pub open spec fn after(n: u64) -> u64 {
    if n == u64::MAX {
        0
    } else {
        (n + 1) as u64
    }
}

impl KeyedEntry for (String, u64) {
    type Value = u64;

    open spec fn key(&self) -> Seq<char> {
        self.0@
    }

    open spec fn value(&self) -> u64 {
        self.1
    }
}

/// The generator provider: GUIDs, random numbers, and a sequence counter per
/// calling actor.
pub struct ExtrasProvider {
    sequences: Vec<(String, u64)>,
}

impl ExtrasProvider {
    /// The next sequence number of each actor that has asked for one.
    pub closed spec fn counters(&self) -> Map<Seq<char>, u64> {
        keyed(self.sequences@)
    }

    pub closed spec fn wf(&self) -> bool {
        distinct_keys(self.sequences@)
    }

    /// The next sequence number of `actor`: zero before its first request.
    pub open spec fn counter(&self, actor: Seq<char>) -> u64 {
        if self.counters().contains_key(actor) {
            self.counters()[actor]
        } else {
            0
        }
    }

    /// A provider with no counters.
    pub fn new() -> (r: Self)
        ensures
            r.wf(),
            r.counters() == Map::<Seq<char>, u64>::empty(),
    {
        let r = ExtrasProvider { sequences: Vec::new() };
        assert(r.counters() =~= Map::<Seq<char>, u64>::empty());
        r
    }

    /// The identifier this provider answers to.
    pub fn capability_id(&self) -> (r: &'static str)
        ensures
            r@ == CAPABILITY_ID@,
    {
        CAPABILITY_ID
    }

    /// Answers operation `op` from `actor` with request payload `msg`. An
    /// unknown operation, a payload over `MAX_REQUEST_BYTES` or an
    /// undecodable one fails and changes nothing.
    /// A GUID reply carries a fresh random UUID in hyphenated form; a random reply one
    /// drawn number in `[min, max)`, as `random_reply` describes; a sequence
    /// reply the actor's counter, which then advances.
    pub fn handle_call(&mut self, actor: &str, op: &str, msg: &[u8]) -> (r: Result<
        Vec<u8>,
        ProviderError,
    >)
        requires
            old(self).wf(),
        ensures
            final(self).wf(),
            operation_of(op@) is None ==> r == Err::<Vec<u8>, ProviderError>(
                ProviderError::UnknownOperation,
            ) && final(self).counters() == old(self).counters(),
            operation_of(op@) is Some && msg@.len() > MAX_REQUEST_BYTES ==> r == Err::<
                Vec<u8>,
                ProviderError,
            >(ProviderError::MalformedRequest) && final(self).counters() == old(self).counters(),
            msg@.len() <= MAX_REQUEST_BYTES ==> match (operation_of(op@), decoded_request(msg@)) {
                (None, _) => r == Err::<Vec<u8>, ProviderError>(ProviderError::UnknownOperation)
                    && final(self).counters() == old(self).counters(),
                (Some(_), None) => r == Err::<Vec<u8>, ProviderError>(
                    ProviderError::MalformedRequest,
                ) && final(self).counters() == old(self).counters(),
                (Some(Operation::Guid), Some(_)) => final(self).counters() == old(self).counters()
                    && exists|g: Seq<char>| is_uuid_v4_text(g) && outcome(r) == reply(Some(g), 0, 0),
                (Some(Operation::Sequence), Some(_)) => final(self).counters()
                    == old(self).counters().insert(actor@, after(old(self).counter(actor@)))
                    && outcome(r) == reply(None, old(self).counter(actor@), 0),
                (Some(Operation::Random), Some(req)) => final(self).counters()
                    == old(self).counters() && if req.random && req.min < req.max {
                    exists|n: u32| req.min <= n < req.max && outcome(r) == reply(None, 0, n)
                } else {
                    outcome(r) == if !req.random {
                        reply(None, 0, 0)
                    } else {
                        Err(ProviderError::EmptyRange)
                    }
                },
            },
    {
        let which = match operation(op) {
            None => return Err(ProviderError::UnknownOperation),
            Some(w) => w,
        };
        if msg.len() > MAX_REQUEST_BYTES {
            return Err(ProviderError::MalformedRequest);
        }
        let req = match decode_request(msg) {
            None => return Err(ProviderError::MalformedRequest),
            Some(q) => q,
        };
        match which {
            Operation::Guid => {
                let g = fresh_guid();
                let ghost gv = g@;
                let r = send(Some(g), 0, 0);
                assert(is_uuid_v4_text(gv) && outcome(r) == reply(Some(gv), 0, 0));
                r
            },
            Operation::Sequence => {
                let n = self.next_sequence(actor);
                send(None, n, 0)
            },
            Operation::Random => {
                let drawn = if req.random && req.min < req.max {
                    draw(req.min, req.max)
                } else {
                    0
                };
                random_reply(req, drawn)
            },
        }
    }

    /// Takes the next sequence number of `actor` and advances its counter.
    pub fn next_sequence(&mut self, actor: &str) -> (r: u64)
        requires
            old(self).wf(),
        ensures
            final(self).wf(),
            r == old(self).counter(actor@),
            final(self).counters() == old(self).counters().insert(actor@, after(r)),
    {
        let key = actor.to_string();
        let ghost es0 = self.sequences@;
        let mut i: usize = 0;
        while i < self.sequences.len()
            invariant
                0 <= i <= self.sequences.len(),
                self.sequences@ == es0,
                es0 == old(self).sequences@,
                distinct_keys(es0),
                key@ == actor@,
                forall|j: int| 0 <= j < i ==> (#[trigger] es0[j]).0@ != actor@,
            decreases self.sequences.len() - i,
        {
            if self.sequences[i].0 == key {
                let n = self.sequences[i].1;
                let next = if n == u64::MAX { 0 } else { n + 1 };
                proof {
                    lemma_entry(es0, i as int);
                }
                let entry = (key, next);
                let ghost e = entry;
                self.sequences.set(i, entry);
                proof {
                    lemma_replace(es0, self.sequences@, i as int, e);
                }
                return n;
            }
            i = i + 1;
        }
        let entry = (key, 1);
        let ghost e = entry;
        self.sequences.push(entry);
        proof {
            assert(!has_key(es0, actor@));
            lemma_append(es0, self.sequences@, e);
        }
        0
    }
}

} // verus!
