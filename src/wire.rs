use vstd::prelude::*;

verus! {

/// Protobuf key of field 1 with the varint wire type.
pub const TYPE_FIELD_KEY: u8 = 0x08;

/// Protobuf key of field 2 with the length-delimited wire type.
pub const PAYLOAD_FIELD_KEY: u8 = 0x12;

/// Base-128 encoding of a number, least significant group first; every byte but the
/// last has its high bit set.
pub open spec fn varint(n: nat) -> Seq<u8>
    decreases n,
{
    if n < 128 {
        seq![n as u8]
    } else {
        seq![(n % 128 + 128) as u8] + varint(n / 128)
    }
}

/// Field 1 of an envelope, the type code: absent when the code is 0, as protobuf leaves out
/// a field that holds its default value.
pub open spec fn type_field(code: nat) -> Seq<u8> {
    if code == 0 {
        Seq::empty()
    } else {
        seq![TYPE_FIELD_KEY] + varint(code)
    }
}

/// Field 2 of an envelope, the payload: absent when the payload is empty.
pub open spec fn payload_field(payload: Seq<u8>) -> Seq<u8> {
    if payload.len() == 0 {
        Seq::empty()
    } else {
        seq![PAYLOAD_FIELD_KEY] + varint(payload.len()) + payload
    }
}

/// The bytes of an envelope `{message_type, payload}`, as protobuf serializes the message:
/// its fields in order, each left out where it holds its default value.
pub open spec fn envelope_bytes(code: nat, payload: Seq<u8>) -> Seq<u8> {
    type_field(code) + payload_field(payload)
}

proof fn lemma_varint_len(n: nat)
    ensures
        varint(n).len() >= 1,
        (varint(n)[0] < 128) == (n < 128),
        n < 128 ==> varint(n) == seq![n as u8],
        n >= 128 ==> varint(n) == seq![(n % 128 + 128) as u8] + varint(n / 128),
    decreases n,
{
    if n >= 128 {
        lemma_varint_len(n / 128);
    }
}

proof fn lemma_varint_injective(a: nat, b: nat, ta: Seq<u8>, tb: Seq<u8>)
    requires
        varint(a) + ta == varint(b) + tb,
    ensures
        a == b,
        ta == tb,
    decreases a,
{
    lemma_varint_len(a);
    lemma_varint_len(b);
    let sa = varint(a) + ta;
    let sb = varint(b) + tb;
    assert(sa[0] == varint(a)[0]);
    assert(sb[0] == varint(b)[0]);
    if a < 128 {
        assert(sa.drop_first() =~= ta);
        assert(sb.drop_first() =~= tb);
    } else {
        assert(sa.drop_first() =~= varint(a / 128) + ta);
        assert(sb.drop_first() =~= varint(b / 128) + tb);
        lemma_varint_injective(a / 128, b / 128, ta, tb);
        assert(a == (a / 128) * 128 + a % 128);
        assert(b == (b / 128) * 128 + b % 128);
    }
}

proof fn lemma_payload_field_injective(p1: Seq<u8>, p2: Seq<u8>)
    requires
        payload_field(p1) == payload_field(p2),
    ensures
        p1 == p2,
{
    lemma_varint_len(p1.len());
    lemma_varint_len(p2.len());
    if p1.len() > 0 && p2.len() > 0 {
        assert(payload_field(p1).drop_first() =~= varint(p1.len()) + p1);
        assert(payload_field(p2).drop_first() =~= varint(p2.len()) + p2);
        lemma_varint_injective(p1.len(), p2.len(), p1, p2);
    } else if p1.len() > 0 {
        assert(payload_field(p1).len() > 0);
    } else if p2.len() > 0 {
        assert(payload_field(p2).len() > 0);
    } else {
        assert(p1 =~= p2);
    }
}

/// The bytes after the type field are the payload field; the type field is present exactly
/// when the first byte is its key.
proof fn lemma_type_field_split(c: nat, p: Seq<u8>)
    ensures
        ({
            let b = envelope_bytes(c, p);
            &&& (c != 0) == (b.len() > 0 && b[0] == TYPE_FIELD_KEY)
            &&& c != 0 ==> b.subrange(1, 1 + varint(c).len() as int) == varint(c)
            &&& b.subrange(type_field(c).len() as int, b.len() as int) == payload_field(p)
            &&& type_field(c).len() <= b.len()
        }),
{
    lemma_varint_len(c);
    lemma_varint_len(p.len());
    let b = envelope_bytes(c, p);
    assert(b.subrange(type_field(c).len() as int, b.len() as int) =~= payload_field(p));
    if c != 0 {
        assert(b.subrange(1, 1 + varint(c).len() as int) =~= varint(c));
    } else if p.len() > 0 {
        assert(b[0] == PAYLOAD_FIELD_KEY);
    }
}

/// What a byte string holds from index `j` on when it is a payload field.
proof fn lemma_payload_field_at(b: Seq<u8>, j: int, p: Seq<u8>)
    requires
        0 <= j <= b.len(),
        b.subrange(j, b.len() as int) == payload_field(p),
    ensures
        p.len() == 0 <==> j == b.len(),
        p.len() > 0 ==> j < b.len() && b[j] == PAYLOAD_FIELD_KEY && b.subrange(
            j + 1,
            j + 1 + varint(p.len()).len(),
        ) == varint(p.len()) && b.len() == j + 1 + varint(p.len()).len() + p.len(),
{
    lemma_varint_len(p.len());
    if p.len() > 0 {
        let t = b.subrange(j, b.len() as int);
        assert(payload_field(p).len() == 1 + varint(p.len()).len() + p.len());
        assert(t.len() == b.len() - j);
        assert(payload_field(p)[0] == PAYLOAD_FIELD_KEY);
        assert(t[0] == b[j]);
        assert(b.subrange(j + 1, j + 1 + varint(p.len()).len()) =~= t.subrange(
            1,
            1 + varint(p.len()).len() as int,
        ));
        assert(t.subrange(1, 1 + varint(p.len()).len() as int) =~= varint(p.len()));
    }
}

/// The envelope encoding is injective: distinct envelopes never share their bytes.
pub proof fn lemma_envelope_injective(c1: nat, p1: Seq<u8>, c2: nat, p2: Seq<u8>)
    requires
        envelope_bytes(c1, p1) == envelope_bytes(c2, p2),
    ensures
        c1 == c2,
        p1 == p2,
{
    lemma_type_field_split(c1, p1);
    lemma_type_field_split(c2, p2);
    if c1 != 0 && c2 != 0 {
        assert(envelope_bytes(c1, p1).drop_first() =~= varint(c1) + payload_field(p1));
        assert(envelope_bytes(c2, p2).drop_first() =~= varint(c2) + payload_field(p2));
        lemma_varint_injective(c1, c2, payload_field(p1), payload_field(p2));
    }
    lemma_payload_field_injective(p1, p2);
}

/// Appends the varint encoding of `n` to `out`.
fn write_varint(out: &mut Vec<u8>, n: u64)
    ensures
        final(out)@ == old(out)@ + varint(n as nat),
    decreases n,
{
    proof {
        lemma_varint_len(n as nat);
    }
    if n < 128 {
        out.push(n as u8);
    } else {
        out.push((n % 128 + 128) as u8);
        let ghost mid = out@;
        write_varint(out, n / 128);
        assert(final(out)@ =~= old(out)@ + varint(n as nat));
    }
}

/// Reads a varint that starts at `i`. Where `first` is false the value must be positive,
/// as it is in the tail of a longer varint. Returns the value and the index after it.
fn read_varint(b: &[u8], i: usize, first: bool) -> (r: Option<(u64, usize)>)
    requires
        i <= b@.len(),
    ensures
        match r {
            Some((v, j)) => i < j <= b@.len() && b@.subrange(i as int, j as int) == varint(
                v as nat,
            ) && (first || v > 0),
            None => true,
        },
        forall|v: nat|
            #![trigger varint(v)]
            v <= u64::MAX && (first || v > 0) && i + varint(v).len() <= b@.len()
                && b@.subrange(i as int, i + varint(v).len()) == varint(v) ==> r == Some(
                (v as u64, (i + varint(v).len()) as usize),
            ),
    decreases b@.len() - i,
{
    if i >= b.len() {
        proof {
            assert forall|v: nat| #![trigger varint(v)] true implies !(i + varint(v).len()
                <= b@.len()) by {
                lemma_varint_len(v);
            }
        }
        return None;
    }
    let byte = b[i];
    if byte < 128 {
        if !first && byte == 0 {
            proof {
                assert forall|v: nat|
                    #![trigger varint(v)]
                    v > 0 && i + varint(v).len() <= b@.len() && b@.subrange(
                        i as int,
                        i + varint(v).len(),
                    ) == varint(v) implies false by {
                    lemma_varint_len(v);
                    assert(b@.subrange(i as int, i + varint(v).len())[0] == b@[i as int]);
                }
            }
            return None;
        }
        proof {
            lemma_varint_len(byte as nat);
            assert(b@.subrange(i as int, i + 1) =~= varint(byte as nat));
            assert forall|v: nat|
                #![trigger varint(v)]
                v <= u64::MAX && (first || v > 0) && i + varint(v).len() <= b@.len()
                    && b@.subrange(i as int, i + varint(v).len()) == varint(v) implies v
                == byte as nat && varint(v).len() == 1 by {
                lemma_varint_len(v);
                assert(b@.subrange(i as int, i + varint(v).len())[0] == b@[i as int]);
            }
        }
        return Some((byte as u64, i + 1));
    }
    let rest = read_varint(b, i + 1, false);
    match rest {
        None => {
            proof {
                assert forall|v: nat|
                    #![trigger varint(v)]
                    v <= u64::MAX && (first || v > 0) && i + varint(v).len() <= b@.len()
                        && b@.subrange(i as int, i + varint(v).len()) == varint(v) implies false by {
                    lemma_varint_len(v);
                    let s = b@.subrange(i as int, i + varint(v).len());
                    assert(s[0] == b@[i as int]);
                    let w = v / 128;
                    lemma_varint_len(w);
                    assert(b@.subrange(i + 1, i + 1 + varint(w).len()) =~= s.drop_first());
                    assert(varint(w) =~= varint(v).drop_first());
                }
            }
            None
        },
        Some((w, j)) => {
            if w > 0x1ff_ffff_ffff_ffff {
                proof {
                    assert forall|v: nat|
                        #![trigger varint(v)]
                        v <= u64::MAX && (first || v > 0) && i + varint(v).len() <= b@.len()
                            && b@.subrange(i as int, i + varint(v).len()) == varint(v) implies false by {
                        lemma_varint_len(v);
                        let s = b@.subrange(i as int, i + varint(v).len());
                        assert(s[0] == b@[i as int]);
                        let w2 = v / 128;
                        lemma_varint_len(w2);
                        assert(b@.subrange(i + 1, i + 1 + varint(w2).len()) =~= s.drop_first());
                        assert(varint(w2) =~= varint(v).drop_first());
                    }
                }
                return None;
            }
            let v: u64 = (byte - 128) as u64 + 128 * w;
            proof {
                let vn = v as nat;
                assert(vn % 128 == (byte - 128) as nat);
                assert(vn / 128 == w as nat);
                lemma_varint_len(vn);
                assert(b@.subrange(i as int, j as int) =~= seq![byte] + b@.subrange(
                    i + 1,
                    j as int,
                ));
                assert forall|u: nat|
                    #![trigger varint(u)]
                    u <= u64::MAX && (first || u > 0) && i + varint(u).len() <= b@.len()
                        && b@.subrange(i as int, i + varint(u).len()) == varint(u) implies u == vn
                    && varint(u).len() == j - i by {
                    lemma_varint_len(u);
                    let s = b@.subrange(i as int, i + varint(u).len());
                    assert(s[0] == b@[i as int]);
                    let w2 = u / 128;
                    lemma_varint_len(w2);
                    assert(b@.subrange(i + 1, i + 1 + varint(w2).len()) =~= s.drop_first());
                    assert(varint(w2) =~= varint(u).drop_first());
                    assert(u == w2 * 128 + u % 128);
                }
            }
            Some((v, j))
        },
    }
}

/// Encodes an envelope.
pub fn encode_envelope(code: u64, payload: &[u8]) -> (r: Vec<u8>)
    ensures
        r@ == envelope_bytes(code as nat, payload@),
{
    let mut out: Vec<u8> = Vec::new();
    if code != 0 {
        out.push(TYPE_FIELD_KEY);
        write_varint(&mut out, code);
    }
    assert(out@ =~= type_field(code as nat));
    if payload.len() == 0 {
        assert(out@ =~= envelope_bytes(code as nat, payload@));
        return out;
    }
    out.push(PAYLOAD_FIELD_KEY);
    write_varint(&mut out, payload.len() as u64);
    let ghost head = out@;
    let mut k: usize = 0;
    while k < payload.len()
        invariant
            k <= payload@.len(),
            out@ == head + payload@.subrange(0, k as int),
        decreases payload@.len() - k,
    {
        out.push(payload[k]);
        assert(payload@.subrange(0, k + 1) =~= payload@.subrange(0, k as int).push(payload@[k as int]));
        k = k + 1;
    }
    assert(payload@.subrange(0, payload@.len() as int) =~= payload@);
    assert(out@ =~= envelope_bytes(code as nat, payload@));
    out
}

/// Decodes an envelope: succeeds exactly on the bytes that `encode_envelope` produces.
#[verifier::rlimit(40)]
pub fn decode_envelope(b: &[u8]) -> (r: Option<(u64, Vec<u8>)>)
    ensures
        match r {
            Some((c, p)) => b@ == envelope_bytes(c as nat, p@),
            None => forall|c: nat, p: Seq<u8>|
                c <= u64::MAX ==> #[trigger] envelope_bytes(c, p) != b@,
        },
{
    let (code, j) = if b.len() > 0 && b[0] == TYPE_FIELD_KEY {
        match read_varint(b, 1, false) {
            None => {
                proof {
                    assert forall|c: nat, p: Seq<u8>| c <= u64::MAX implies #[trigger] envelope_bytes(
                        c,
                        p,
                    ) != b@ by {
                        if envelope_bytes(c, p) == b@ {
                            lemma_type_field_split(c, p);
                        }
                    }
                }
                return None;
            },
            Some(cj) => cj,
        }
    } else {
        (0u64, 0usize)
    };
    proof {
        assert(b@.subrange(0, j as int) =~= type_field(code as nat)) by {
            if code != 0 {
                lemma_varint_len(code as nat);
                assert(b@.subrange(0, j as int) =~= seq![TYPE_FIELD_KEY] + b@.subrange(1, j as int));
            }
        }
        assert forall|c: nat, p: Seq<u8>|
            c <= u64::MAX && #[trigger] envelope_bytes(c, p) == b@ implies c == code as nat
            && type_field(c).len() == j && b@.subrange(j as int, b@.len() as int) == payload_field(
            p,
        ) by {
            lemma_type_field_split(c, p);
            lemma_varint_len(c);
        }
    }
    if j == b.len() {
        let payload: Vec<u8> = Vec::new();
        proof {
            assert(b@ =~= b@.subrange(0, j as int));
            assert(b@ =~= envelope_bytes(code as nat, payload@));
        }
        return Some((code, payload));
    }
    if b[j] != PAYLOAD_FIELD_KEY {
        proof {
            assert forall|c: nat, p: Seq<u8>| c <= u64::MAX implies #[trigger] envelope_bytes(c, p)
                != b@ by {
                if envelope_bytes(c, p) == b@ {
                    lemma_payload_field_at(b@, j as int, p);
                }
            }
        }
        return None;
    }
    let (n, k) = match read_varint(b, j + 1, false) {
        None => {
            proof {
                assert forall|c: nat, p: Seq<u8>| c <= u64::MAX implies #[trigger] envelope_bytes(
                    c,
                    p,
                ) != b@ by {
                    if envelope_bytes(c, p) == b@ {
                        lemma_payload_field_at(b@, j as int, p);
                    }
                }
            }
            return None;
        },
        Some(nk) => nk,
    };
    if n != (b.len() - k) as u64 {
        proof {
            assert forall|c: nat, p: Seq<u8>| c <= u64::MAX implies #[trigger] envelope_bytes(c, p)
                != b@ by {
                if envelope_bytes(c, p) == b@ {
                    lemma_payload_field_at(b@, j as int, p);
                }
            }
        }
        return None;
    }
    let mut payload: Vec<u8> = Vec::new();
    let mut q: usize = k;
    while q < b.len()
        invariant
            k <= q <= b@.len(),
            payload@ == b@.subrange(k as int, q as int),
        decreases b@.len() - q,
    {
        payload.push(b[q]);
        assert(b@.subrange(k as int, q + 1) =~= b@.subrange(k as int, q as int).push(b@[q as int]));
        q = q + 1;
    }
    proof {
        assert(b@ =~= b@.subrange(0, j as int) + b@.subrange(j as int, j + 1) + b@.subrange(
            j + 1,
            k as int,
        ) + b@.subrange(k as int, b@.len() as int));
        assert(b@.subrange(j as int, j + 1) =~= seq![PAYLOAD_FIELD_KEY]);
        assert(payload@.len() > 0);
        assert(b@ =~= envelope_bytes(code as nat, payload@));
    }
    Some((code, payload))
}

/// Message types of the outer network envelope.
#[derive(Clone, Copy, Debug, PartialEq, Eq, Structural)]
pub enum NetworkMessageType {
    UnsetNetworkMessageType,
    NetworkEcho,
    NetworkHeartbeat,
    Circuit,
    AuthConnectRequest,
    AuthChallenge,
    AuthChallengeResponse,
    AuthComplete,
    AuthFailed,
}

/// Message types carried inside a `Circuit` network message.
#[derive(Clone, Copy, Debug, PartialEq, Eq, Structural)]
pub enum CircuitMessageType {
    UnsetCircuitMessageType,
    CircuitErrorMessage,
    ServiceConnectRequest,
    ServiceConnectResponse,
    ServiceDisconnectRequest,
    ServiceDisconnectResponse,
    CircuitDirectMessage,
    AdminDirectMessage,
}

/// The code that stands for a network message type on the wire.
pub open spec fn network_code(t: NetworkMessageType) -> nat {
    match t {
        NetworkMessageType::UnsetNetworkMessageType => 0,
        NetworkMessageType::NetworkEcho => 1,
        NetworkMessageType::NetworkHeartbeat => 2,
        NetworkMessageType::Circuit => 3,
        NetworkMessageType::AuthConnectRequest => 4,
        NetworkMessageType::AuthChallenge => 5,
        NetworkMessageType::AuthChallengeResponse => 6,
        NetworkMessageType::AuthComplete => 7,
        NetworkMessageType::AuthFailed => 8,
    }
}

impl NetworkMessageType {
    /// The wire code of this message type.
    pub fn code(&self) -> (r: u64)
        ensures
            r == network_code(*self),
    {
        match self {
            NetworkMessageType::UnsetNetworkMessageType => 0,
            NetworkMessageType::NetworkEcho => 1,
            NetworkMessageType::NetworkHeartbeat => 2,
            NetworkMessageType::Circuit => 3,
            NetworkMessageType::AuthConnectRequest => 4,
            NetworkMessageType::AuthChallenge => 5,
            NetworkMessageType::AuthChallengeResponse => 6,
            NetworkMessageType::AuthComplete => 7,
            NetworkMessageType::AuthFailed => 8,
        }
    }

    /// The message type with the given wire code, if there is one.
    pub fn from_code(c: u64) -> (r: Option<Self>)
        ensures
            match r {
                Some(t) => network_code(t) == c,
                None => forall|t: Self| network_code(t) != c,
            },
    {
        match c {
            0 => Some(NetworkMessageType::UnsetNetworkMessageType),
            1 => Some(NetworkMessageType::NetworkEcho),
            2 => Some(NetworkMessageType::NetworkHeartbeat),
            3 => Some(NetworkMessageType::Circuit),
            4 => Some(NetworkMessageType::AuthConnectRequest),
            5 => Some(NetworkMessageType::AuthChallenge),
            6 => Some(NetworkMessageType::AuthChallengeResponse),
            7 => Some(NetworkMessageType::AuthComplete),
            8 => Some(NetworkMessageType::AuthFailed),
            _ => None,
        }
    }
}

/// A network message: a typed header and an opaque payload.
pub struct NetworkMessage {
    pub message_type: NetworkMessageType,
    pub payload: Vec<u8>,
}

/// The bytes of a network message.
pub open spec fn network_message_bytes(t: NetworkMessageType, payload: Seq<u8>) -> Seq<u8> {
    envelope_bytes(network_code(t), payload)
}

/// What a byte string decodes to as a network message, if anything.
pub open spec fn decoded_network_message(b: Seq<u8>) -> Option<(NetworkMessageType, Seq<u8>)> {
    if exists|t: NetworkMessageType, p: Seq<u8>| #[trigger] network_message_bytes(t, p) == b {
        Some(choose|t: NetworkMessageType, p: Seq<u8>| #[trigger] network_message_bytes(t, p) == b)
    } else {
        None
    }
}

/// Serializing a network message and deserializing the bytes yields the original message.
pub proof fn lemma_network_message_round_trip(t: NetworkMessageType, payload: Seq<u8>)
    ensures
        decoded_network_message(network_message_bytes(t, payload)) == Some((t, payload)),
{
    let b = network_message_bytes(t, payload);
    assert(network_message_bytes(t, payload) == b);
    let m = choose|t: NetworkMessageType, p: Seq<u8>| #[trigger] network_message_bytes(t, p) == b;
    lemma_envelope_injective(network_code(m.0), m.1, network_code(t), payload);
}

impl NetworkMessage {
    /// Serializes the message.
    pub fn to_bytes(&self) -> (r: Vec<u8>)
        ensures
            r@ == network_message_bytes(self.message_type, self.payload@),
    {
        encode_envelope(self.message_type.code(), self.payload.as_slice())
    }

    /// Deserializes a message; fails exactly on the bytes that no message serializes to.
    pub fn from_bytes(b: &[u8]) -> (r: Option<Self>)
        ensures
            match r {
                Some(m) => b@ == network_message_bytes(m.message_type, m.payload@)
                    && decoded_network_message(b@) == Some((m.message_type, m.payload@)),
                None => decoded_network_message(b@) is None,
            },
    {
        match decode_envelope(b) {
            Some((c, payload)) => match NetworkMessageType::from_code(c) {
                Some(t) => {
                    proof {
                        lemma_network_message_round_trip(t, payload@);
                    }
                    Some(NetworkMessage { message_type: t, payload })
                },
                None => {
                    proof {
                        assert forall|t: NetworkMessageType, p: Seq<u8>| #[trigger] network_message_bytes(t, p)
                            != b@ by {
                            if network_message_bytes(t, p) == b@ {
                                lemma_envelope_injective(network_code(t), p, c as nat, payload@);
                            }
                        }
                    }
                    None
                },
            },
            None => {
                proof {
                    assert forall|t: NetworkMessageType, p: Seq<u8>| #[trigger] network_message_bytes(t, p)
                        != b@ by {
                        assert(network_code(t) <= u64::MAX);
                    }
                }
                None
            },
        }
    }
}

/// The code that stands for a circuit message type on the wire.
pub open spec fn circuit_code(t: CircuitMessageType) -> nat {
    match t {
        CircuitMessageType::UnsetCircuitMessageType => 0,
        CircuitMessageType::CircuitErrorMessage => 1,
        CircuitMessageType::ServiceConnectRequest => 2,
        CircuitMessageType::ServiceConnectResponse => 3,
        CircuitMessageType::ServiceDisconnectRequest => 4,
        CircuitMessageType::ServiceDisconnectResponse => 5,
        CircuitMessageType::CircuitDirectMessage => 6,
        CircuitMessageType::AdminDirectMessage => 7,
    }
}

impl CircuitMessageType {
    /// The wire code of this message type.
    pub fn code(&self) -> (r: u64)
        ensures
            r == circuit_code(*self),
    {
        match self {
            CircuitMessageType::UnsetCircuitMessageType => 0,
            CircuitMessageType::CircuitErrorMessage => 1,
            CircuitMessageType::ServiceConnectRequest => 2,
            CircuitMessageType::ServiceConnectResponse => 3,
            CircuitMessageType::ServiceDisconnectRequest => 4,
            CircuitMessageType::ServiceDisconnectResponse => 5,
            CircuitMessageType::CircuitDirectMessage => 6,
            CircuitMessageType::AdminDirectMessage => 7,
        }
    }

    /// The message type with the given wire code, if there is one.
    pub fn from_code(c: u64) -> (r: Option<Self>)
        ensures
            match r {
                Some(t) => circuit_code(t) == c,
                None => forall|t: Self| circuit_code(t) != c,
            },
    {
        match c {
            0 => Some(CircuitMessageType::UnsetCircuitMessageType),
            1 => Some(CircuitMessageType::CircuitErrorMessage),
            2 => Some(CircuitMessageType::ServiceConnectRequest),
            3 => Some(CircuitMessageType::ServiceConnectResponse),
            4 => Some(CircuitMessageType::ServiceDisconnectRequest),
            5 => Some(CircuitMessageType::ServiceDisconnectResponse),
            6 => Some(CircuitMessageType::CircuitDirectMessage),
            7 => Some(CircuitMessageType::AdminDirectMessage),
            _ => None,
        }
    }
}

/// A circuit message: a typed header and an opaque payload.
pub struct CircuitMessage {
    pub message_type: CircuitMessageType,
    pub payload: Vec<u8>,
}

/// The bytes of a circuit message.
pub open spec fn circuit_message_bytes(t: CircuitMessageType, payload: Seq<u8>) -> Seq<u8> {
    envelope_bytes(circuit_code(t), payload)
}

/// What a byte string decodes to as a circuit message, if anything.
pub open spec fn decoded_circuit_message(b: Seq<u8>) -> Option<(CircuitMessageType, Seq<u8>)> {
    if exists|t: CircuitMessageType, p: Seq<u8>| #[trigger] circuit_message_bytes(t, p) == b {
        Some(choose|t: CircuitMessageType, p: Seq<u8>| #[trigger] circuit_message_bytes(t, p) == b)
    } else {
        None
    }
}

/// Serializing a circuit message and deserializing the bytes yields the original message.
pub proof fn lemma_circuit_message_round_trip(t: CircuitMessageType, payload: Seq<u8>)
    ensures
        decoded_circuit_message(circuit_message_bytes(t, payload)) == Some((t, payload)),
{
    let b = circuit_message_bytes(t, payload);
    assert(circuit_message_bytes(t, payload) == b);
    let m = choose|t: CircuitMessageType, p: Seq<u8>| #[trigger] circuit_message_bytes(t, p) == b;
    lemma_envelope_injective(circuit_code(m.0), m.1, circuit_code(t), payload);
}

impl CircuitMessage {
    /// Serializes the message.
    pub fn to_bytes(&self) -> (r: Vec<u8>)
        ensures
            r@ == circuit_message_bytes(self.message_type, self.payload@),
    {
        encode_envelope(self.message_type.code(), self.payload.as_slice())
    }

    /// Deserializes a message; fails exactly on the bytes that no message serializes to.
    pub fn from_bytes(b: &[u8]) -> (r: Option<Self>)
        ensures
            match r {
                Some(m) => b@ == circuit_message_bytes(m.message_type, m.payload@)
                    && decoded_circuit_message(b@) == Some((m.message_type, m.payload@)),
                None => decoded_circuit_message(b@) is None,
            },
    {
        match decode_envelope(b) {
            Some((c, payload)) => match CircuitMessageType::from_code(c) {
                Some(t) => {
                    proof {
                        lemma_circuit_message_round_trip(t, payload@);
                    }
                    Some(CircuitMessage { message_type: t, payload })
                },
                None => {
                    proof {
                        assert forall|t: CircuitMessageType, p: Seq<u8>| #[trigger] circuit_message_bytes(t, p)
                            != b@ by {
                            if circuit_message_bytes(t, p) == b@ {
                                lemma_envelope_injective(circuit_code(t), p, c as nat, payload@);
                            }
                        }
                    }
                    None
                },
            },
            None => {
                proof {
                    assert forall|t: CircuitMessageType, p: Seq<u8>| #[trigger] circuit_message_bytes(t, p)
                        != b@ by {
                        assert(circuit_code(t) <= u64::MAX);
                    }
                }
                None
            },
        }
    }
}

} // verus!
