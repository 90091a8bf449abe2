//! The protocol between the engine and its runner processes: wire types, frames,
//! acknowledgments, and how the answers of several runners become one.

use crate::dtype::Dtype;
use crate::models::layers::var_builder::{self, bytes_of_words, words_of_bytes};
use base64::engine::general_purpose::STANDARD_NO_PAD;
use base64::Engine;
use std::sync::Arc;
use vstd::prelude::*;

verus! {

// ---- Element types ----

/// Element types as they travel.
#[derive(Debug, Clone, Copy, PartialEq, Eq, Structural)]
pub enum SerializableDType {
    U8,
    U32,
    I64,
    BF16,
    F16,
    F32,
    F64,
    F8E8M0,
    F8E4M3,
}

impl SerializableDType {
    /// The type that travels for an element type.
    pub open spec fn of(dt: Dtype) -> Option<SerializableDType> {
        match dt {
            Dtype::U8 => Some(SerializableDType::U8),
            Dtype::U32 => Some(SerializableDType::U32),
            Dtype::I64 => Some(SerializableDType::I64),
            Dtype::BF16 => Some(SerializableDType::BF16),
            Dtype::F16 => Some(SerializableDType::F16),
            Dtype::F32 => Some(SerializableDType::F32),
            Dtype::F8E8M0 => Some(SerializableDType::F8E8M0),
            Dtype::Q8 => None,
        }
    }

    /// The type that travels for an element type; there is none for quantized ones.
    pub fn from_dtype(dt: Dtype) -> (r: SerializableDType)
        requires
            dt != Dtype::Q8,
        ensures
            SerializableDType::of(dt) == Some(r),
    {
        match dt {
            Dtype::U8 => SerializableDType::U8,
            Dtype::U32 => SerializableDType::U32,
            Dtype::I64 => SerializableDType::I64,
            Dtype::BF16 => SerializableDType::BF16,
            Dtype::F16 => SerializableDType::F16,
            Dtype::F32 => SerializableDType::F32,
            Dtype::F8E8M0 => SerializableDType::F8E8M0,
            Dtype::Q8 => SerializableDType::U8,
        }
    }

    /// The element type on the device; there is none for doubles and for the other
    /// 8 bit float.
    pub fn to_dtype(self) -> (r: Dtype)
        requires
            self != SerializableDType::F64,
            self != SerializableDType::F8E4M3,
        ensures
            SerializableDType::of(r) == Some(self),
    {
        match self {
            SerializableDType::U8 => Dtype::U8,
            SerializableDType::U32 => Dtype::U32,
            SerializableDType::I64 => Dtype::I64,
            SerializableDType::BF16 => Dtype::BF16,
            SerializableDType::F16 => Dtype::F16,
            SerializableDType::F32 => Dtype::F32,
            SerializableDType::F8E8M0 => Dtype::F8E8M0,
            SerializableDType::F64 => Dtype::F32,
            SerializableDType::F8E4M3 => Dtype::U8,
        }
    }

    /// The number of the type on the wire.
    pub fn number(self) -> (r: u8)
        ensures
            r == match self {
                SerializableDType::U8 => 0u8,
                SerializableDType::U32 => 1u8,
                SerializableDType::I64 => 2u8,
                SerializableDType::BF16 => 3u8,
                SerializableDType::F16 => 4u8,
                SerializableDType::F32 => 5u8,
                SerializableDType::F64 => 6u8,
                SerializableDType::F8E8M0 => 7u8,
                SerializableDType::F8E4M3 => 8u8,
            },
    {
        match self {
            SerializableDType::U8 => 0,
            SerializableDType::U32 => 1,
            SerializableDType::I64 => 2,
            SerializableDType::BF16 => 3,
            SerializableDType::F16 => 4,
            SerializableDType::F32 => 5,
            SerializableDType::F64 => 6,
            SerializableDType::F8E8M0 => 7,
            SerializableDType::F8E4M3 => 8,
        }
    }
}

/// No two element types travel as the same type, so an element type that travels
/// arrives as it was sent.
pub proof fn law_dtype_arrives(a: Dtype, b: Dtype)
    requires
        SerializableDType::of(a) is Some,
        SerializableDType::of(a) == SerializableDType::of(b),
    ensures
        a == b,
{
}

// ---- Group ids ----

/// The character for six bits.
pub open spec fn base64_symbol(v: int) -> char {
    if v < 26 {
        (65 + v) as char
    } else if v < 52 {
        (97 + v - 26) as char
    } else if v < 62 {
        (48 + v - 52) as char
    } else if v == 62 {
        '+'
    } else {
        '/'
    }
}

/// Byte `i`, zero behind the end.
pub open spec fn byte_at(bytes: Seq<u8>, i: int) -> int {
    if i < bytes.len() {
        bytes[i] as int
    } else {
        0
    }
}

/// Six bits of the bytes, counted from the front: three bytes make four.
pub open spec fn sextet(bytes: Seq<u8>, j: int) -> int {
    let q = j / 4 * 3;
    if j % 4 == 0 {
        byte_at(bytes, q) / 4
    } else if j % 4 == 1 {
        byte_at(bytes, q) % 4 * 16 + byte_at(bytes, q + 1) / 16
    } else if j % 4 == 2 {
        byte_at(bytes, q + 1) % 16 * 4 + byte_at(bytes, q + 2) / 64
    } else {
        byte_at(bytes, q + 2) % 64
    }
}

/// Bytes in base64 with the standard alphabet, without padding.
pub open spec fn base64_text(bytes: Seq<u8>) -> Seq<char> {
    Seq::new((bytes.len() * 4 + 2) / 3, |j: int| base64_symbol(sextet(bytes, j)))
}

/// The errors of `base64` decoding.
#[verifier::external_type_specification]
#[verifier::external_body]
pub struct ExDecodeError(base64::DecodeError);

/// `base64::Engine::encode` of `STANDARD_NO_PAD`: the bytes in groups of six bits,
/// each one as a character of the standard alphabet, without padding.
#[verifier::external_body]
fn encode_base64(bytes: &[u8]) -> (r: String)
    requires
        bytes@.len() * 4 <= usize::MAX,
    ensures
        r@ == base64_text(bytes@),
{
    STANDARD_NO_PAD.encode(bytes)
}

/// `base64::Engine::decode` of `STANDARD_NO_PAD`: the bytes that encode to the text.
/// It is strict: padding, other characters, a length that no bytes have, and unused
/// bits that are set are all errors, so a text that is refused encodes no bytes.
#[verifier::external_body]
fn decode_base64(text: &str) -> (r: Result<Vec<u8>, base64::DecodeError>)
    ensures
        match r {
            Ok(v) => base64_text(v@) == text@,
            Err(_) => forall|b: Seq<u8>| #[trigger] base64_text(b) != text@,
        },
{
    STANDARD_NO_PAD.decode(text)
}

/// The id of a communication group.
#[derive(Debug, Clone, Copy)]
pub struct NcclId(pub [u8; 128]);

/// Why a text or bytes are no group id.
#[derive(Debug, Clone, Copy, PartialEq, Eq, Structural)]
pub enum NcclIdError {
    NotBase64,
    /// An id has 128 bytes.
    Length { got: usize },
}

impl NcclId {
    /// The id in a readable format.
    pub fn to_text(&self) -> (r: String)
        ensures
            r@ == base64_text(self.0@),
    {
        encode_base64(self.0.as_slice())
    }

    /// The id of 128 bytes.
    pub fn from_bytes(bytes: &[u8]) -> (r: Result<NcclId, NcclIdError>)
        ensures
            match r {
                Ok(id) => id.0@ == bytes@,
                Err(e) => bytes@.len() != 128 && e == (NcclIdError::Length {
                    got: bytes@.len() as usize,
                }),
            },
    {
        let n: usize = bytes.len();
        if n != 128 {
            return Err(NcclIdError::Length { got: n });
        }
        let mut id: [u8; 128] = [0;128];
        let mut i: usize = 0;
        while i < 128
            invariant
                i <= 128,
                bytes@.len() == 128,
                forall|j: int| 0 <= j < i ==> #[trigger] id@[j] == bytes@[j],
            decreases 128 - i,
        {
            id[i] = bytes[i];
            i += 1;
        }
        assert(id@ =~= bytes@);
        Ok(NcclId(id))
    }

    /// The id that a text holds.
    pub fn from_text(text: &str) -> (r: Result<NcclId, NcclIdError>)
        ensures
            match r {
                Ok(id) => base64_text(id.0@) == text@,
                Err(NcclIdError::NotBase64) => forall|b: Seq<u8>| #[trigger]
                    base64_text(b) != text@,
                Err(NcclIdError::Length { got }) => got != 128 && exists|b: Seq<u8>|
                    b.len() == got && #[trigger] base64_text(b) == text@,
            },
    {
        match decode_base64(text) {
            Ok(bytes) => {
                let slice: &[u8] = bytes.as_slice();
                assert(base64_text(slice@) == text@ && slice@.len() == slice.len());
                NcclId::from_bytes(slice)
            },
            Err(_) => Err(NcclIdError::NotBase64),
        }
    }
}

proof fn lemma_symbols_differ(a: int, b: int)
    requires
        0 <= a < 64,
        0 <= b < 64,
        base64_symbol(a) == base64_symbol(b),
    ensures
        a == b,
{
}

proof fn lemma_sextet_range(bytes: Seq<u8>, j: int)
    requires
        j >= 0,
    ensures
        0 <= sextet(bytes, j) < 64,
{
    let q = j / 4 * 3;
    assert(0 <= byte_at(bytes, q) < 256);
    assert(0 <= byte_at(bytes, q + 1) < 256);
    assert(0 <= byte_at(bytes, q + 2) < 256);
}

/// Texts of different bytes differ. So an id that is written in a readable format is
/// read back as it was: the text of an id is accepted, and what it gives has the
/// same text, hence the same bytes.
pub proof fn law_base64_is_injective(a: Seq<u8>, b: Seq<u8>)
    requires
        base64_text(a) == base64_text(b),
    ensures
        a == b,
{
    let (m, n) = (a.len() as int, b.len() as int);
    assert(base64_text(a).len() == (m * 4 + 2) / 3);
    assert(base64_text(b).len() == (n * 4 + 2) / 3);
    assert(m == n);
    assert forall|i: int| 0 <= i < a.len() implies a[i] == b[i] by {
        let j = i / 3 * 4 + i % 3;
        let n = (a.len() * 4 + 2) / 3;
        assert(j + 1 < n);
        assert(base64_text(a)[j] == base64_symbol(sextet(a, j)));
        assert(base64_text(b)[j] == base64_symbol(sextet(b, j)));
        assert(base64_text(a)[j + 1] == base64_symbol(sextet(a, j + 1)));
        assert(base64_text(b)[j + 1] == base64_symbol(sextet(b, j + 1)));
        lemma_sextet_range(a, j);
        lemma_sextet_range(b, j);
        lemma_sextet_range(a, j + 1);
        lemma_sextet_range(b, j + 1);
        lemma_symbols_differ(sextet(a, j), sextet(b, j));
        lemma_symbols_differ(sextet(a, j + 1), sextet(b, j + 1));
        lemma_byte_of_sextets(a, i);
        lemma_byte_of_sextets(b, i);
    }
    assert(a =~= b);
}

proof fn lemma_byte_of_sextets(bytes: Seq<u8>, i: int)
    requires
        0 <= i < bytes.len(),
    ensures
        ({
            let j = i / 3 * 4 + i % 3;
            let s = sextet(bytes, j);
            let t = sextet(bytes, j + 1);
            bytes[i] == if i % 3 == 0 {
                s * 4 + t / 16
            } else if i % 3 == 1 {
                s % 16 * 16 + t / 4
            } else {
                s % 4 * 64 + t
            }
        }),
{
    let j = i / 3 * 4 + i % 3;
    let q = i / 3 * 3;
    assert(j / 4 * 3 == q);
    assert((j + 1) / 4 * 3 == q);
    assert(0 <= byte_at(bytes, q) < 256);
    assert(0 <= byte_at(bytes, q + 1) < 256);
    assert(0 <= byte_at(bytes, q + 2) < 256);
}

// ---- Frames ----

/// A message on a stream: its length in four bytes, low byte first, then its bytes.
pub fn frame(payload: &[u8]) -> (r: Vec<u8>)
    ensures
        r@.len() == 4 + payload@.len(),
        var_builder::word_at(r@, 0) == payload@.len() as u32,
        r@.skip(4) == payload@,
{
    let mut lens: Vec<u32> = Vec::new();
    lens.push(payload.len() as u32);
    let header: Vec<u8> = bytes_of_words(lens.as_slice());
    let ghost head = header@;
    assert(var_builder::word_at(head, 0) == lens@[0]);
    let mut out: Vec<u8> = header;
    let n: usize = payload.len();
    let mut i: usize = 0;
    while i < n
        invariant
            i <= n,
            n == payload@.len(),
            head.len() == 4,
            out@ == head + payload@.take(i as int),
        decreases n - i,
    {
        out.push(payload[i]);
        assert(payload@.take(i as int + 1) =~= payload@.take(i as int).push(payload@[i as int]));
        assert(out@ =~= head + payload@.take(i as int + 1));
        i += 1;
    }
    assert(payload@.take(n as int) =~= payload@);
    assert(out@.skip(4) =~= payload@);
    out
}

/// The length that the four bytes before a message give.
pub fn frame_len(header: [u8; 4]) -> (r: usize)
    ensures
        r == var_builder::word_at(header@, 0),
{
    let words: Vec<u32> = words_of_bytes(header.as_slice());
    assert(words@[0] == var_builder::word_at(header@, 0));
    words[0] as usize
}

/// What is read of a frame is what was framed: its first four bytes give the length
/// of the message, and as many bytes follow, the message itself. A length of 32 bits
/// or more cannot be given.
pub proof fn law_frame_is_read_back(payload: Seq<u8>, framed: Seq<u8>)
    requires
        payload.len() <= u32::MAX,
        framed.len() == 4 + payload.len(),
        var_builder::word_at(framed, 0) == payload.len() as u32,
        framed.skip(4) == payload,
    ensures
        var_builder::word_at(framed.take(4), 0) == payload.len(),
        framed.subrange(4, 4 + var_builder::word_at(framed.take(4), 0)) == payload,
{
    let n = payload.len() as int;
    assert(framed.take(4)[0] == framed[0]);
    assert(framed.take(4)[1] == framed[1]);
    assert(framed.take(4)[2] == framed[2]);
    assert(framed.take(4)[3] == framed[3]);
    assert(framed.subrange(4, 4 + n) =~= framed.skip(4));
}

/// The byte that acknowledges a message.
pub const ACK: u8 = 1;

/// How a message was acknowledged. Whatever it was, sending goes on.
#[derive(Debug, Clone, Copy, PartialEq, Eq, Structural)]
pub enum AckState {
    Acknowledged,
    /// Another byte came.
    Unexpected,
    /// No byte came.
    Missing,
}

/// How a message was acknowledged, by the byte that came.
pub fn ack_state(read: Option<u8>) -> (r: AckState)
    ensures
        r == match read {
            Some(b) => if b == ACK {
                AckState::Acknowledged
            } else {
                AckState::Unexpected
            },
            None => AckState::Missing,
        },
{
    match read {
        Some(b) => {
            if b == ACK {
                AckState::Acknowledged
            } else {
                AckState::Unexpected
            }
        },
        None => AckState::Missing,
    }
}

// ---- Requests and answers ----

/// How a runner is started. The settings types belong to the caller.
pub struct RunnerInitRequest<M, C, E, P> {
    pub rank: usize,
    pub dev_id: usize,
    pub num_shards: usize,
    pub model_type: M,
    pub config: C,
    pub econfig: E,
    pub model_pathes: P,
    pub is_gguf: bool,
    pub dtype: SerializableDType,
    pub is_rope_i: bool,
    pub nccl_id: NcclId,
}

/// The answer of a runner that was started.
#[derive(Debug, Clone, Copy, PartialEq, Eq, Structural)]
pub struct InitAck {
    pub ok: bool,
}

/// A runner that did not start.
#[derive(Debug, Clone, Copy, PartialEq, Eq, Structural)]
pub struct RunnerFailed {
    pub rank: usize,
}

/// Whether a runner started: only a positive answer to the request counts. Any other
/// message is given as none.
pub fn expect_ack(reply: Option<InitAck>, rank: usize) -> (r: Result<(), RunnerFailed>)
    ensures
        r == if reply == Some(InitAck { ok: true }) {
            Ok::<(), RunnerFailed>(())
        } else {
            Err::<(), RunnerFailed>(RunnerFailed { rank })
        },
{
    match reply {
        Some(ack) => {
            if ack.ok {
                Ok(())
            } else {
                Err(RunnerFailed { rank })
            }
        },
        None => Err(RunnerFailed { rank }),
    }
}

/// Marks a runner within the process.
pub struct ModelRunner;

/// Where the runners are: in the process, in processes of this machine, or on other
/// machines too. `L` and `R` are streams.
pub enum RunnerType<L, R> {
    Thread(ModelRunner),
    Process(Vec<L>),
    MultiNodeMaster { local_streams: Vec<L>, remote_streams: Vec<R> },
}

/// Answers that do not make up one.
pub enum BroadcastError {
    /// No runner answered.
    NoValues,
    /// Two runners gave different values.
    Disagree,
    /// Remote runner `at` reported an error.
    Remote { at: usize, error: String },
    /// Remote runner `at` answered with another message.
    Unexpected { at: usize },
}

/// The answer of a remote runner.
pub enum Reply<T> {
    Value(T),
    Error(String),
    /// Any other message.
    Other,
}

/// The one value that all runners of this machine gave. `same` decides equality.
pub fn agreed_value<T, F: Fn(&T, &T) -> bool>(values: Vec<T>, same: F) -> (r: Result<
    T,
    BroadcastError,
>)
    requires
        forall|a: &T, b: &T| #[trigger] call_requires(same, (a, b)),
        forall|a: &T, b: &T, eq: bool| #[trigger]
            call_ensures(same, (a, b), eq) ==> eq == (*a == *b),
    ensures
        match r {
            Ok(v) => values@.len() > 0 && forall|i: int|
                0 <= i < values@.len() ==> #[trigger] values@[i] == v,
            Err(BroadcastError::NoValues) => values@.len() == 0,
            Err(BroadcastError::Disagree) => exists|i: int, j: int|
                0 <= i < values@.len() && 0 <= j < values@.len() && #[trigger] values@[i]
                    != #[trigger] values@[j],
            Err(_) => false,
        },
{
    let mut rest: Vec<T> = values;
    let ghost all = rest@;
    let n: usize = rest.len();
    if n == 0 {
        return Err(BroadcastError::NoValues);
    }
    let mut i: usize = 1;
    while i < n
        invariant
            1 <= i <= n,
            n == all.len(),
            rest@ == all,
            all == values@,
            forall|a: &T, b: &T| #[trigger] call_requires(same, (a, b)),
            forall|a: &T, b: &T, eq: bool| #[trigger]
                call_ensures(same, (a, b), eq) ==> eq == (*a == *b),
            forall|j: int| 0 <= j < i ==> #[trigger] all[j] == all[0],
        decreases n - i,
    {
        let eq: bool = same(&rest[0], &rest[i]);
        if !eq {
            assert(all[0] != all[i as int]);
            return Err(BroadcastError::Disagree);
        }
        i += 1;
    }
    Ok(rest.swap_remove(0))
}

/// The position of the first answer that holds no value.
pub open spec fn first_failure<T>(replies: Seq<Reply<T>>, n: int) -> Option<int>
    decreases n,
{
    if n <= 0 {
        None
    } else {
        match first_failure(replies, n - 1) {
            Some(i) => Some(i),
            None => if replies[n - 1] is Value {
                None
            } else {
                Some(n - 1)
            },
        }
    }
}

proof fn lemma_failure_stays<T>(replies: Seq<Reply<T>>, m: int, n: int)
    requires
        0 <= m <= n,
        first_failure(replies, m) is Some,
    ensures
        first_failure(replies, n) == first_failure(replies, m),
    decreases n,
{
    if m < n {
        lemma_failure_stays(replies, m, n - 1);
    }
}

/// The value of runners on several machines: the first one, local runners before
/// remote ones, once every remote runner has given a value. The first remote answer
/// without a value is the error.
pub fn master_value<T>(local: Vec<T>, remote: Vec<Reply<T>>) -> (r: Result<T, BroadcastError>)
    ensures
        match first_failure(remote@, remote@.len() as int) {
            Some(at) => match remote@[at] {
                Reply::Error(error) => r == Err::<T, BroadcastError>(
                    BroadcastError::Remote { at: at as usize, error },
                ),
                _ => r == Err::<T, BroadcastError>(BroadcastError::Unexpected { at: at as usize }),
            },
            None => if local@.len() > 0 {
                r == Ok::<T, BroadcastError>(local@[0])
            } else if remote@.len() > 0 {
                r matches Ok(v) && remote@[0] == Reply::Value(v)
            } else {
                r == Err::<T, BroadcastError>(BroadcastError::NoValues)
            },
        },
{
    let mut rest: Vec<Reply<T>> = remote;
    let ghost all = rest@;
    let n: usize = rest.len();
    let mut values: Vec<T> = local;
    let ghost own = values@;
    let mut at: usize = 0;
    while at < n
        invariant
            at <= n,
            n == all.len(),
            all == remote@,
            own == local@,
            rest@ == all.skip(at as int),
            first_failure(all, at as int) is None,
            values@.len() == own.len() + at,
            forall|i: int| 0 <= i < own.len() ==> #[trigger] values@[i] == own[i],
            forall|i: int|
                0 <= i < at ==> all[i] == Reply::Value(#[trigger] values@[own.len() + i]),
        decreases n - at,
    {
        let reply: Reply<T> = rest.remove(0);
        assert(reply == all[at as int]);
        assert(rest@ =~= all.skip(at as int + 1));
        match reply {
            Reply::Value(v) => {
                values.push(v);
            },
            Reply::Error(error) => {
                proof {
                    lemma_failure_stays(all, at as int + 1, n as int);
                }
                return Err(BroadcastError::Remote { at, error });
            },
            Reply::Other => {
                proof {
                    lemma_failure_stays(all, at as int + 1, n as int);
                }
                return Err(BroadcastError::Unexpected { at });
            },
        }
        at += 1;
    }
    if values.len() == 0 {
        return Err(BroadcastError::NoValues);
    }
    assert(own.len() == 0 && n > 0 ==> all[0] == Reply::Value(values@[own.len() + 0int]));
    Ok(values.remove(0))
}

// ---- Decoding by graph ----

/// Decoding was not captured; the caller decodes eagerly.
#[derive(Debug, Clone, Copy, PartialEq, Eq, Structural)]
pub struct NotCaptured;

/// Decoding by a captured plan. `P` is the plan, `A` the adapter of the model.
pub struct DecodeGraphRunner<P, A> {
    /// The plan; none where the capture fell back.
    pub plan: Option<P>,
    pub adapter: Arc<A>,
}

impl<P, A> DecodeGraphRunner<P, A> {
    /// Keeps a plan that was captured and drops one that was not.
    pub fn from_capture(plan: P, captured: bool, adapter: Arc<A>) -> (r: Self)
        ensures
            r.plan == if captured {
                Some(plan)
            } else {
                None
            },
            r.adapter == adapter,
    {
        DecodeGraphRunner {
            plan: if captured {
                Some(plan)
            } else {
                None
            },
            adapter,
        }
    }

    /// The plan to replay and the batch size: one sequence for each frontier token.
    pub fn decode_step(&self, frontier: &[u32]) -> (r: Result<(&P, usize), NotCaptured>)
        ensures
            match self.plan {
                Some(plan) => r matches Ok((p, bs)) && *p == plan && bs == frontier@.len(),
                None => r == Err::<(&P, usize), NotCaptured>(NotCaptured),
            },
    {
        match &self.plan {
            Some(plan) => Ok((plan, frontier.len())),
            None => Err(NotCaptured),
        }
    }

    pub fn adapter(&self) -> (r: &Arc<A>)
        ensures
            *r == self.adapter,
    {
        &self.adapter
    }
}

} // verus!
