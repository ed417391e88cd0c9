//! Length-prefixed framing of binary hub messages.
//!
//! Each binary message travels behind a LEB128 length prefix: seven payload
//! bits per byte, least significant group first, the high bit set on every
//! byte but the last. A prefix is at most five bytes long.
use vstd::prelude::*;

verus! {

/// Longest accepted length prefix, in bytes.
pub const MAX_VARINT_BYTES: usize = 5;

/// The canonical LEB128 encoding of `v`.
pub open spec fn varint_bytes(v: nat) -> Seq<u8>
    decreases v,
{
    if v < 128 {
        seq![v as u8]
    } else {
        seq![((v % 128) + 128) as u8] + varint_bytes(v / 128)
    }
}

/// The number whose seven-bit groups, least significant first, are the low
/// seven bits of the bytes of `s`.
pub open spec fn le7(s: Seq<u8>) -> nat
    decreases s.len(),
{
    if s.len() == 0 {
        0
    } else {
        ((s[0] % 128) as nat) + 128 * le7(s.drop_first())
    }
}

/// What a prefix decoder finds in `data` once it has passed `i` bytes that all
/// carry the continuation bit: the value and the prefix length, or nothing when
/// the prefix is unterminated within the data or within five bytes.
pub open spec fn varint_from(data: Seq<u8>, i: nat) -> Option<(nat, nat)>
    decreases 5 - i,
{
    if i >= 5 || i >= data.len() {
        None
    } else if data[i as int] < 128 {
        Some((le7(data.subrange(0, i as int + 1)), i + 1))
    } else {
        varint_from(data, i + 1)
    }
}

/// The prefix at the start of `data`: its value and its length in bytes.
pub open spec fn varint_decoded(data: Seq<u8>) -> Option<(nat, nat)> {
    varint_from(data, 0)
}

/// A payload framed with its length prefix.
pub open spec fn framed(payload: Seq<u8>) -> Seq<u8> {
    varint_bytes(payload.len()) + payload
}

/// The payloads of a buffer of framed messages, in order, or nothing when the
/// buffer holds a bad prefix or a truncated payload.
pub open spec fn split_spec(data: Seq<u8>) -> Option<Seq<Seq<u8>>>
    decreases data.len(),
{
    if data.len() == 0 {
        Some(Seq::empty())
    } else {
        match varint_decoded(data) {
            None => None,
            Some((len, n)) => {
                if n == 0 || n + len > data.len() {
                    None
                } else {
                    match split_spec(data.subrange((n + len) as int, data.len() as int)) {
                        None => None,
                        Some(rest) => Some(seq![data.subrange(n as int, (n + len) as int)] + rest),
                    }
                }
            },
        }
    }
}

pub open spec fn pow128(i: nat) -> nat
    decreases i,
{
    if i == 0 {
        1
    } else {
        128 * pow128((i - 1) as nat)
    }
}

proof fn lemma_pow128_small(i: nat)
    ensures
        i <= 4 ==> pow128(i) <= 0x1000_0000,
        i <= 4 ==> 128 * pow128(i) <= 0x8_0000_0000,
{
    reveal_with_fuel(pow128, 6);
    if i <= 4 {
        assert(pow128(4) == 0x1000_0000);
        assert(i == 0 || i == 1 || i == 2 || i == 3 || i == 4);
    }
}

proof fn lemma_le7_push(s: Seq<u8>, b: u8)
    ensures
        le7(s.push(b)) == le7(s) + ((b % 128) as nat) * pow128(s.len()),
    decreases s.len(),
{
    assert(s.push(b)[0] == if s.len() == 0 { b } else { s[0] });
    if s.len() == 0 {
        assert(s.push(b).drop_first() =~= Seq::<u8>::empty());
        assert(le7(Seq::<u8>::empty()) == 0);
        assert(pow128(0) == 1);
    } else {
        assert(s.push(b).drop_first() =~= s.drop_first().push(b));
        lemma_le7_push(s.drop_first(), b);
        assert(pow128(s.len()) == 128 * pow128((s.len() - 1) as nat));
        assert(128 * (((b % 128) as nat) * pow128((s.len() - 1) as nat)) == ((b % 128) as nat) * (
        128 * pow128((s.len() - 1) as nat))) by (nonlinear_arith);
    }
}

proof fn lemma_varint_bytes_shape(v: nat)
    ensures
        varint_bytes(v).len() >= 1,
        varint_bytes(v)[varint_bytes(v).len() - 1] < 128,
        forall|j: int| 0 <= j < varint_bytes(v).len() - 1 ==> varint_bytes(v)[j] >= 128,
        le7(varint_bytes(v)) == v,
        v < 128 ==> varint_bytes(v).len() == 1,
        v >= 128 ==> varint_bytes(v).len() == 1 + varint_bytes(v / 128).len(),
    decreases v,
{
    if v < 128 {
        assert(varint_bytes(v).drop_first() =~= Seq::<u8>::empty());
        assert(le7(Seq::<u8>::empty()) == 0);
        assert(le7(varint_bytes(v)) == ((varint_bytes(v)[0] % 128) as nat) + 128 * le7(
            varint_bytes(v).drop_first(),
        ));
    } else {
        lemma_varint_bytes_shape(v / 128);
        let s = varint_bytes(v);
        assert(le7(s) == ((s[0] % 128) as nat) + 128 * le7(s.drop_first()));
        assert(s.drop_first() =~= varint_bytes(v / 128));
        assert(s[0] == ((v % 128) + 128) as u8);
        assert((((v % 128) + 128) as u8) % 128 == v % 128);
        assert(v == v % 128 + 128 * (v / 128));
    }
}

proof fn lemma_varint_len_bound(v: nat)
    ensures
        v < 0x8_0000_0000 ==> varint_bytes(v).len() <= 5,
        v < 128 ==> varint_bytes(v).len() == 1,
    decreases v,
{
    lemma_varint_bytes_shape(v);
    if v >= 128 {
        lemma_varint_len_bound(v / 128);
        if v < 0x8_0000_0000 {
            assert(v / 128 < 0x1000_0000);
            lemma_small_len(v / 128);
        }
    }
}

proof fn lemma_small_len(v: nat)
    requires
        v < 0x1000_0000,
    ensures
        varint_bytes(v).len() <= 4,
    decreases v,
{
    lemma_varint_bytes_shape(v);
    if v >= 128 {
        lemma_varint_bytes_shape(v / 128);
        if v / 128 >= 128 {
            lemma_varint_bytes_shape(v / 128 / 128);
            if v / 128 / 128 >= 128 {
                lemma_varint_bytes_shape(v / 128 / 128 / 128);
                assert(v / 128 / 128 / 128 < 128);
            }
        }
    }
}

/// A canonical prefix followed by anything decodes to its value and length.
pub proof fn lemma_varint_prefix(v: nat, rest: Seq<u8>)
    requires
        v < 0x8_0000_0000,
    ensures
        varint_decoded(varint_bytes(v) + rest) == Some((v, varint_bytes(v).len())),
{
    lemma_varint_bytes_shape(v);
    lemma_varint_len_bound(v);
    let d = varint_bytes(v) + rest;
    let n = varint_bytes(v).len();
    assert(d.subrange(0, n as int) =~= varint_bytes(v));
    lemma_varint_from_scan(d, n, 0);
}

proof fn lemma_varint_from_scan(d: Seq<u8>, n: nat, i: nat)
    requires
        1 <= n <= 5,
        n <= d.len(),
        i < n,
        d[n - 1] < 128,
        forall|j: int| i <= j < n - 1 ==> d[j] >= 128,
    ensures
        varint_from(d, i) == Some((le7(d.subrange(0, n as int)), n)),
    decreases n - i,
{
    if i < n - 1 {
        lemma_varint_from_scan(d, n, i + 1);
    }
}

/// Encodes `value` as a LEB128 length prefix.
pub fn encode_varint(value: usize) -> (r: Vec<u8>)
    ensures
        r@ == varint_bytes(value as nat),
{
    let mut buf: Vec<u8> = Vec::new();
    let mut rest: usize = value;
    loop
        invariant
            buf@ + varint_bytes(rest as nat) == varint_bytes(value as nat),
        decreases rest,
    {
        let low: u8 = (rest % 128) as u8;
        let next: usize = rest / 128;
        if next > 0 {
            buf.push(low + 128);
            proof {
                assert(buf@ + varint_bytes(next as nat) =~= buf@.drop_last() + varint_bytes(
                    rest as nat,
                ));
            }
            rest = next;
        } else {
            buf.push(low);
            proof {
                assert(buf@ =~= buf@.drop_last() + varint_bytes(rest as nat));
            }
            return buf;
        }
    }
}

/// Decodes the prefix that starts at `start`; the value and the prefix length.
fn decode_varint_at(data: &[u8], start: usize) -> (r: Result<(usize, usize), String>)
    requires
        start <= data@.len(),
    ensures
        varint_result(r, data@.subrange(start as int, data@.len() as int)),
{
    let ghost d = data@.subrange(start as int, data@.len() as int);
    let mut result: u64 = 0;
    let mut weight: u64 = 1;
    let mut i: usize = 0;
    while i < data.len() - start
        invariant
            start <= data@.len(),
            d == data@.subrange(start as int, data@.len() as int),
            i <= 5,
            i <= d.len(),
            start + i <= data@.len(),
            varint_from(d, 0) == varint_from(d, i as nat),
            result as nat == le7(d.subrange(0, i as int)),
            weight as nat == pow128(i as nat),
            result < weight,
            weight <= 0x8_0000_0000,
        decreases d.len() - i,
    {
        if i >= MAX_VARINT_BYTES {
            return Err(String::from_str("VarInt too long"));
        }
        let byte = data[start + i];
        proof {
            lemma_pow128_small(i as nat);
            assert(d.subrange(0, i as int + 1) =~= d.subrange(0, i as int).push(byte));
            lemma_le7_push(d.subrange(0, i as int), byte);
        }
        assert(((byte % 128) as nat) * (weight as nat) <= 127 * (weight as nat)) by (nonlinear_arith)
            requires
                byte % 128 <= 127,
        ;
        result = result + ((byte % 128) as u64) * weight;
        if byte < 128 {
            if result > usize::MAX as u64 {
                return Err(String::from_str("VarInt too large"));
            }
            return Ok((result as usize, i + 1));
        }
        weight = weight * 128;
        i = i + 1;
    }
    Err(String::from_str("Unexpected end of VarInt"))
}

/// What `decode_varint` returns on `d`, stated over `varint_decoded`.
pub open spec fn varint_result(r: Result<(usize, usize), String>, d: Seq<u8>) -> bool {
    match r {
        Ok((v, n)) => varint_decoded(d) == Some((v as nat, n as nat)),
        Err(e) => match varint_decoded(d) {
            Some((v, n)) => v > usize::MAX && e@ == "VarInt too large"@,
            None => (d.len() > 5 ==> e@ == "VarInt too long"@) && (d.len() <= 5 ==> e@
                == "Unexpected end of VarInt"@),
        },
    }
}

/// Decodes a LEB128 length prefix at the start of `data`: the value and the
/// number of bytes it took.
pub fn decode_varint(data: &[u8]) -> (r: Result<(usize, usize), String>)
    ensures
        varint_result(r, data@),
{
    proof {
        assert(data@.subrange(0, data@.len() as int) =~= data@);
    }
    decode_varint_at(data, 0)
}

/// Frames `payload` behind its length prefix.
pub fn frame_message(payload: &[u8]) -> (r: Vec<u8>)
    ensures
        r@ == framed(payload@),
{
    let mut out = encode_varint(payload.len());
    let ghost prefix = out@;
    let mut i: usize = 0;
    while i < payload.len()
        invariant
            prefix == varint_bytes(payload@.len()),
            i <= payload@.len(),
            out@ == prefix + payload@.subrange(0, i as int),
        decreases payload@.len() - i,
    {
        out.push(payload[i]);
        proof {
            assert(payload@.subrange(0, i as int + 1) =~= payload@.subrange(0, i as int).push(
                payload@[i as int],
            ));
        }
        i = i + 1;
    }
    proof {
        assert(payload@.subrange(0, i as int) =~= payload@);
    }
    out
}

fn copy_range(data: &[u8], from: usize, to: usize) -> (r: Vec<u8>)
    requires
        from <= to <= data@.len(),
    ensures
        r@ == data@.subrange(from as int, to as int),
{
    let mut out: Vec<u8> = Vec::new();
    let mut i: usize = from;
    while i < to
        invariant
            from <= i <= to <= data@.len(),
            out@ == data@.subrange(from as int, i as int),
        decreases to - i,
    {
        out.push(data[i]);
        proof {
            assert(data@.subrange(from as int, i as int + 1) =~= data@.subrange(
                from as int,
                i as int,
            ).push(data@[i as int]));
        }
        i = i + 1;
    }
    out
}

/// The byte sequences held by a list of payloads.
pub open spec fn payload_views(v: Seq<Vec<u8>>) -> Seq<Seq<u8>> {
    v.map_values(|m: Vec<u8>| m@)
}

/// Cuts a buffer of framed messages into their payloads, in order. Fails on a
/// bad length prefix or on a payload that runs past the end of the buffer.
pub fn split_framed_messages(data: &[u8]) -> (r: Result<Vec<Vec<u8>>, String>)
    ensures
        match r {
            Ok(msgs) => split_spec(data@) == Some(payload_views(msgs@)),
            Err(_) => split_spec(data@) is None,
        },
{
    let mut messages: Vec<Vec<u8>> = Vec::new();
    let mut offset: usize = 0;
    proof {
        assert(data@.subrange(0, data@.len() as int) =~= data@);
        assert(payload_views(messages@) =~= Seq::<Seq<u8>>::empty());
        match split_spec(data@) {
            Some(rest) => {
                assert(Seq::<Seq<u8>>::empty() + rest =~= rest);
            },
            None => {},
        }
    }
    while offset < data.len()
        invariant
            offset <= data@.len(),
            split_spec(data@) == match split_spec(data@.subrange(offset as int, data@.len() as int)) {
                None => None,
                Some(rest) => Some(payload_views(messages@) + rest),
            },
        decreases data@.len() - offset,
    {
        let ghost d = data@.subrange(offset as int, data@.len() as int);
        let (len, size) = match decode_varint_at(data, offset) {
            Ok(p) => p,
            Err(e) => {
                return Err(e);
            },
        };
        proof {
            lemma_decoded_size(d);
        }
        if size > data.len() - offset || len > data.len() - offset - size {
            return Err(String::from_str("Incomplete message in frame"));
        }
        let start = offset + size;
        let end = start + len;
        let msg = copy_range(data, start, end);
        let ghost old_msgs = messages@;
        proof {
            let next = data@.subrange(end as int, data@.len() as int);
            assert(d.subrange((size + len) as int, d.len() as int) =~= next);
            assert(d.subrange(size as int, (size + len) as int) =~= msg@);
            assert(payload_views(old_msgs).push(msg@) + match split_spec(next) {
                Some(rest) => rest,
                None => Seq::empty(),
            } =~= payload_views(old_msgs) + (seq![msg@] + match split_spec(next) {
                Some(rest) => rest,
                None => Seq::empty(),
            }));
        }
        messages.push(msg);
        proof {
            assert(payload_views(messages@) =~= payload_views(old_msgs).push(msg@));
        }
        offset = end;
    }
    proof {
        assert(data@.subrange(offset as int, data@.len() as int) =~= Seq::<u8>::empty());
        assert(payload_views(messages@) + Seq::<Seq<u8>>::empty() =~= payload_views(messages@));
    }
    Ok(messages)
}

proof fn lemma_decoded_size(d: Seq<u8>)
    ensures
        varint_decoded(d) matches Some((v, n)) ==> 1 <= n <= 5 && n <= d.len(),
{
    lemma_varint_from_size(d, 0);
}

proof fn lemma_varint_from_size(d: Seq<u8>, i: nat)
    ensures
        varint_from(d, i) matches Some((v, n)) ==> i + 1 <= n <= 5 && n <= d.len(),
    decreases 5 - i,
{
    if i < 5 && i < d.len() && d[i as int] >= 128 {
        lemma_varint_from_size(d, i + 1);
    }
}

/// The binary Ping message: a one-element array holding type 6.
pub fn encode_ping() -> (r: Vec<u8>)
    ensures
        r@ == seq![0x91u8, 0x06u8],
{
    let mut v: Vec<u8> = Vec::new();
    v.push(0x91);
    v.push(0x06);
    v
}

/// A length prefix decodes to the value it encodes, taking all of its bytes;
/// and re-encoding the decoded value gives back the same bytes.
pub proof fn lemma_varint_round_trip(x: nat)
    requires
        x <= 0x7fff_ffff,
    ensures
        varint_decoded(varint_bytes(x)) == Some((x, varint_bytes(x).len())),
        varint_bytes(varint_decoded(varint_bytes(x)).unwrap().0) == varint_bytes(x),
{
    lemma_varint_prefix(x, Seq::empty());
    assert(varint_bytes(x) + Seq::<u8>::empty() =~= varint_bytes(x));
}

/// The framed payloads of `ms`, one after the other.
pub open spec fn frames_concat(ms: Seq<Seq<u8>>) -> Seq<u8>
    decreases ms.len(),
{
    if ms.len() == 0 {
        Seq::empty()
    } else {
        framed(ms[0]) + frames_concat(ms.drop_first())
    }
}

/// Splitting the concatenation of any list of framed payloads gives back the
/// payloads, unchanged and in order.
pub proof fn lemma_split_frames(ms: Seq<Seq<u8>>)
    requires
        forall|i: int| 0 <= i < ms.len() ==> (#[trigger] ms[i]).len() < 0x8_0000_0000,
    ensures
        split_spec(frames_concat(ms)) == Some(ms),
    decreases ms.len(),
{
    if ms.len() == 0 {
        assert(frames_concat(ms) =~= Seq::<u8>::empty());
        assert(ms =~= Seq::<Seq<u8>>::empty());
    } else {
        let rest = ms.drop_first();
        assert forall|i: int| 0 <= i < rest.len() implies (#[trigger] rest[i]).len() < 0x8_0000_0000 by {
            assert(rest[i] == ms[i + 1]);
        }
        lemma_split_frames(rest);
        lemma_split_one_frame(ms[0], frames_concat(rest));
        assert(seq![ms[0]] + rest =~= ms);
    }
}

/// Whether `b` is a canonical prefix: a single byte, or a last byte that is
/// not zero (no needless trailing group).
pub open spec fn canonical(b: Seq<u8>) -> bool {
    b.len() == 1 || (b.len() > 1 && b[b.len() - 1] != 0)
}

proof fn lemma_varint_from_shape(d: Seq<u8>, i: nat)
    requires
        varint_from(d, i) is Some,
    ensures
        ({
            let (v, n) = varint_from(d, i)->0;
            &&& i < n <= 5
            &&& n <= d.len()
            &&& d[n - 1] < 128
            &&& forall|j: int| i <= j < n - 1 ==> d[j] >= 128
            &&& v == le7(d.subrange(0, n as int))
        }),
    decreases 5 - i,
{
    if !(i >= 5 || i >= d.len()) && d[i as int] >= 128 {
        lemma_varint_from_shape(d, i + 1);
    }
}

proof fn lemma_le7_positive(s: Seq<u8>)
    requires
        s.len() > 0,
        s[s.len() - 1] % 128 != 0,
    ensures
        le7(s) > 0,
    decreases s.len(),
{
    if s.len() > 1 {
        lemma_le7_positive(s.drop_first());
    }
}

proof fn lemma_reencode(b: Seq<u8>)
    requires
        b.len() >= 1,
        b[b.len() - 1] < 128,
        forall|j: int| 0 <= j < b.len() - 1 ==> b[j] >= 128,
        canonical(b),
    ensures
        varint_bytes(le7(b)) == b,
    decreases b.len(),
{
    let v = le7(b);
    if b.len() == 1 {
        assert(b.drop_first() =~= Seq::<u8>::empty());
        assert(le7(Seq::<u8>::empty()) == 0);
        assert(v == (b[0] % 128) as nat + 128 * le7(b.drop_first()));
        assert(varint_bytes(v) =~= b);
    } else {
        let rest = b.drop_first();
        assert forall|j: int| 0 <= j < rest.len() - 1 implies rest[j] >= 128 by {
            assert(rest[j] == b[j + 1]);
        }
        assert(rest[rest.len() - 1] == b[b.len() - 1]);
        lemma_reencode(rest);
        lemma_le7_positive(rest);
        let lo = (b[0] % 128) as nat;
        let hi = le7(rest);
        assert(v == lo + 128 * hi);
        assert(v >= 128);
        assert(v % 128 == lo && v / 128 == hi) by (nonlinear_arith)
            requires
                v == lo + 128 * hi,
                lo < 128,
        ;
        assert(((lo + 128) as u8) == b[0]);
        assert(varint_bytes(v) == seq![((v % 128) + 128) as u8] + varint_bytes(v / 128));
        assert(varint_bytes(v) =~= b);
    }
}

/// A canonical length prefix decodes to a value that encodes back to the
/// same bytes.
pub proof fn lemma_varint_canonical_reencodes(b: Seq<u8>)
    requires
        varint_decoded(b) matches Some((v, n)) && n == b.len() && v <= 0x7fff_ffff,
        canonical(b),
    ensures
        varint_bytes((varint_decoded(b)->0).0) == b,
{
    lemma_varint_from_shape(b, 0);
    assert(b.subrange(0, b.len() as int) =~= b);
    lemma_reencode(b);
}

/// Splitting the concatenation of two framed messages gives back the two
/// payloads, in order.
pub proof fn lemma_split_two_frames(a: Seq<u8>, b: Seq<u8>)
    requires
        a.len() < 0x8_0000_0000,
        b.len() < 0x8_0000_0000,
    ensures
        split_spec(framed(a) + framed(b)) == Some(seq![a, b]),
{
    lemma_split_one_frame(a, framed(b));
    lemma_split_one_frame(b, Seq::empty());
    assert(split_spec(Seq::<u8>::empty()) == Some(Seq::<Seq<u8>>::empty()));
    assert(framed(b) + Seq::<u8>::empty() =~= framed(b));
    assert(seq![b] + Seq::<Seq<u8>>::empty() =~= seq![b]);
    assert(seq![a] + seq![b] =~= seq![a, b]);
}

/// A framed payload followed by `rest` splits into the payload and whatever
/// `rest` splits into.
pub proof fn lemma_split_one_frame(p: Seq<u8>, rest: Seq<u8>)
    requires
        p.len() < 0x8_0000_0000,
    ensures
        split_spec(framed(p) + rest) == match split_spec(rest) {
            None => None,
            Some(tail) => Some(seq![p] + tail),
        },
{
    let d = framed(p) + rest;
    let n = varint_bytes(p.len()).len();
    assert(d =~= varint_bytes(p.len()) + (p + rest));
    lemma_varint_prefix(p.len(), p + rest);
    lemma_varint_bytes_shape(p.len());
    assert(d.subrange((n + p.len()) as int, d.len() as int) =~= rest);
    assert(d.subrange(n as int, (n + p.len()) as int) =~= p);
}

} // verus!
