//! The binary (MessagePack) hub messages: their array layouts, how an
//! invocation is written, how inbound arrays are read, and the key-case
//! bridge between server and client field names.
use vstd::prelude::*;
use vstd::string::StrSliceExecFns;
use vstd::string::StringExecFns;
use vstd::string::StringSliceAdditionalSpecFns;
use crate::completer::Delivery;
use crate::protocol::{message_type_from_code, message_type_of, MessageType};

verus! {

broadcast use vstd::string::group_string_axioms;

/// Big-endian bytes of a 16-bit value.
pub open spec fn be16(n: nat) -> Seq<u8> {
    seq![(n / 256) as u8, (n % 256) as u8]
}

/// Big-endian bytes of a 32-bit value.
pub open spec fn be32(n: nat) -> Seq<u8> {
    be16(n / 65536) + be16(n % 65536)
}

/// Big-endian bytes of a 64-bit value.
pub open spec fn be64(n: nat) -> Seq<u8> {
    be32(n / 0x1_0000_0000) + be32(n % 0x1_0000_0000)
}

/// The MessagePack header of an array of `n` elements.
pub open spec fn array_header(n: nat) -> Seq<u8> {
    if n < 16 {
        seq![(0x90 + n) as u8]
    } else if n < 0x1_0000 {
        seq![0xdcu8] + be16(n)
    } else {
        seq![0xddu8] + be32(n)
    }
}

/// The MessagePack header of a map of `n` entries.
pub open spec fn map_header(n: nat) -> Seq<u8> {
    if n < 16 {
        seq![(0x80 + n) as u8]
    } else if n < 0x1_0000 {
        seq![0xdeu8] + be16(n)
    } else {
        seq![0xdfu8] + be32(n)
    }
}

/// The most compact MessagePack encoding of an unsigned integer.
pub open spec fn uint_bytes(v: nat) -> Seq<u8> {
    if v < 128 {
        seq![v as u8]
    } else if v < 256 {
        seq![0xccu8, v as u8]
    } else if v < 0x1_0000 {
        seq![0xcdu8] + be16(v)
    } else if v < 0x1_0000_0000 {
        seq![0xceu8] + be32(v)
    } else {
        seq![0xcfu8] + be64(v)
    }
}

/// The MessagePack header of a string of `n` bytes.
pub open spec fn str_header(n: nat) -> Seq<u8> {
    if n < 32 {
        seq![(0xa0 + n) as u8]
    } else if n < 256 {
        seq![0xd9u8, n as u8]
    } else if n < 0x1_0000 {
        seq![0xdau8] + be16(n)
    } else {
        seq![0xdbu8] + be32(n)
    }
}

/// A MessagePack string holding the UTF-8 encoding of `s`.
pub open spec fn str_bytes(s: Seq<char>) -> Seq<u8> {
    str_header(vstd::utf8::encode_utf8(s).len()) + vstd::utf8::encode_utf8(s)
}

/// The MessagePack nil.
pub open spec fn nil_bytes() -> Seq<u8> {
    seq![0xc0u8]
}

/// Relies on `rmp::encode::write_array_len` into a `Vec<u8>`: appends the
/// most compact array header for `n` elements; writing to a vector cannot fail.
#[verifier::external_body]
fn mp_write_array_len(buf: &mut Vec<u8>, n: u32)
    ensures
        final(buf)@ == old(buf)@ + array_header(n as nat),
{
    let _ = rmp::encode::write_array_len(buf, n);
}

/// Relies on `rmp::encode::write_map_len` into a `Vec<u8>`: appends the most
/// compact map header for `n` entries.
#[verifier::external_body]
fn mp_write_map_len(buf: &mut Vec<u8>, n: u32)
    ensures
        final(buf)@ == old(buf)@ + map_header(n as nat),
{
    let _ = rmp::encode::write_map_len(buf, n);
}

/// Relies on `rmp::encode::write_uint` into a `Vec<u8>`: appends the most
/// compact unsigned integer encoding of `v`.
#[verifier::external_body]
fn mp_write_uint(buf: &mut Vec<u8>, v: u64)
    ensures
        final(buf)@ == old(buf)@ + uint_bytes(v as nat),
{
    let _ = rmp::encode::write_uint(buf, v);
}

/// Relies on `rmp::encode::write_str` into a `Vec<u8>`: appends a string
/// header and the UTF-8 bytes of `s`. The length is cast to `u32` there, so
/// longer strings are left out.
#[verifier::external_body]
fn mp_write_str(buf: &mut Vec<u8>, s: &str)
    requires
        s.spec_bytes().len() <= u32::MAX,
    ensures
        final(buf)@ == old(buf)@ + str_bytes(s@),
{
    let _ = rmp::encode::write_str(buf, s);
}

/// Relies on `rmp::encode::write_nil` into a `Vec<u8>`: appends the nil marker.
#[verifier::external_body]
fn mp_write_nil(buf: &mut Vec<u8>)
    ensures
        final(buf)@ == old(buf)@ + nil_bytes(),
{
    let _ = rmp::encode::write_nil(buf);
}

/// The encoding of a list of strings: an array header and each string.
pub open spec fn str_list_bytes(v: Seq<Seq<char>>) -> Seq<u8> {
    array_header(v.len()) + str_seq_bytes(v)
}

/// The strings of `v`, encoded one after the other.
pub open spec fn str_seq_bytes(v: Seq<Seq<char>>) -> Seq<u8>
    decreases v.len(),
{
    if v.len() == 0 {
        Seq::empty()
    } else {
        str_seq_bytes(v.drop_last()) + str_bytes(v.last())
    }
}

/// The header entries of `v`, each key followed by its value.
pub open spec fn pairs_bytes(v: Seq<(Seq<char>, Seq<char>)>) -> Seq<u8>
    decreases v.len(),
{
    if v.len() == 0 {
        Seq::empty()
    } else {
        pairs_bytes(v.drop_last()) + str_bytes(v.last().0) + str_bytes(v.last().1)
    }
}

/// Pre-encoded values written one after the other.
pub open spec fn concat_all(v: Seq<Seq<u8>>) -> Seq<u8>
    decreases v.len(),
{
    if v.len() == 0 {
        Seq::empty()
    } else {
        concat_all(v.drop_last()) + v.last()
    }
}

/// The views of a list of strings.
pub open spec fn strs_view(v: Seq<String>) -> Seq<Seq<char>> {
    v.map_values(|s: String| s@)
}

/// The views of a list of string pairs.
pub open spec fn pairs_view(v: Seq<(String, String)>) -> Seq<(Seq<char>, Seq<char>)> {
    v.map_values(|p: (String, String)| (p.0@, p.1@))
}

/// The views of a list of byte vectors.
pub open spec fn bytes_view(v: Seq<Vec<u8>>) -> Seq<Seq<u8>> {
    v.map_values(|b: Vec<u8>| b@)
}

/// Whether the UTF-8 encoding of `s` fits a 32-bit length.
pub open spec fn encode_len_fits(s: Seq<char>) -> bool {
    vstd::utf8::encode_utf8(s).len() <= u32::MAX
}

/// The encoding of an invocation: the six-element array
/// `[type, headers, id-or-nil, target, arguments, stream-ids]`.
pub open spec fn invocation_bytes(
    msg_type: u8,
    headers: Seq<(Seq<char>, Seq<char>)>,
    invocation_id: Option<Seq<char>>,
    target: Seq<char>,
    arguments: Seq<Seq<u8>>,
    stream_ids: Seq<Seq<char>>,
) -> Seq<u8> {
    array_header(6) + uint_bytes(msg_type as nat) + map_header(headers.len()) + pairs_bytes(headers)
        + match invocation_id {
        Some(id) => str_bytes(id),
        None => nil_bytes(),
    } + str_bytes(target) + array_header(arguments.len()) + concat_all(arguments) + str_list_bytes(
        stream_ids,
    )
}

/// Writes an Invocation (type 1) or StreamInvocation (type 4) message as the
/// six-element array `[type, headers, id-or-nil, target, arguments,
/// stream-ids]`. Each argument is an already encoded MessagePack value.
pub fn encode_invocation(
    msg_type: u8,
    headers: &Vec<(String, String)>,
    invocation_id: &Option<String>,
    target: &str,
    arguments: &Vec<Vec<u8>>,
    stream_ids: &Vec<String>,
) -> (r: Vec<u8>)
    requires
        headers@.len() <= u32::MAX,
        arguments@.len() <= u32::MAX,
        stream_ids@.len() <= u32::MAX,
        forall|i: int|
            0 <= i < headers@.len() ==> encode_len_fits((#[trigger] headers@[i]).0@)
                && encode_len_fits(headers@[i].1@),
        invocation_id matches Some(id) ==> encode_len_fits(id@),
        encode_len_fits(target@),
        forall|i: int| 0 <= i < stream_ids@.len() ==> encode_len_fits(#[trigger] stream_ids@[i]@),
    ensures
        r@ == invocation_bytes(
            msg_type,
            pairs_view(headers@),
            match invocation_id {
                Some(id) => Some(id@),
                None => None,
            },
            target@,
            bytes_view(arguments@),
            strs_view(stream_ids@),
        ),
{
    let mut buf: Vec<u8> = Vec::new();
    mp_write_array_len(&mut buf, 6);
    mp_write_uint(&mut buf, msg_type as u64);
    mp_write_map_len(&mut buf, headers.len() as u32);
    let ghost after_map = buf@;
    let mut i: usize = 0;
    while i < headers.len()
        invariant
            i <= headers@.len(),
            forall|j: int|
                0 <= j < headers@.len() ==> encode_len_fits((#[trigger] headers@[j]).0@)
                    && encode_len_fits(headers@[j].1@),
            buf@ == after_map + pairs_bytes(pairs_view(headers@).subrange(0, i as int)),
        decreases headers@.len() - i,
    {
        let pair = &headers[i];
        mp_write_str(&mut buf, pair.0.as_str());
        mp_write_str(&mut buf, pair.1.as_str());
        proof {
            let pv = pairs_view(headers@);
            assert(pv.subrange(0, i as int + 1).drop_last() =~= pv.subrange(0, i as int));
        }
        i = i + 1;
    }
    proof {
        assert(pairs_view(headers@).subrange(0, i as int) =~= pairs_view(headers@));
    }
    match invocation_id {
        Some(id) => mp_write_str(&mut buf, id.as_str()),
        None => mp_write_nil(&mut buf),
    }
    mp_write_str(&mut buf, target);
    mp_write_array_len(&mut buf, arguments.len() as u32);
    let ghost after_args_header = buf@;
    let mut a: usize = 0;
    while a < arguments.len()
        invariant
            a <= arguments@.len(),
            buf@ == after_args_header + concat_all(bytes_view(arguments@).subrange(0, a as int)),
        decreases arguments@.len() - a,
    {
        let arg = &arguments[a];
        let ghost before = buf@;
        let mut k: usize = 0;
        while k < arg.len()
            invariant
                k <= arg@.len(),
                buf@ == before + arg@.subrange(0, k as int),
            decreases arg@.len() - k,
        {
            buf.push(arg[k]);
            proof {
                assert(arg@.subrange(0, k as int + 1) =~= arg@.subrange(0, k as int).push(
                    arg@[k as int],
                ));
            }
            k = k + 1;
        }
        proof {
            assert(arg@.subrange(0, k as int) =~= arg@);
            let bv = bytes_view(arguments@);
            assert(bv.subrange(0, a as int + 1).drop_last() =~= bv.subrange(0, a as int));
        }
        a = a + 1;
    }
    proof {
        assert(bytes_view(arguments@).subrange(0, a as int) =~= bytes_view(arguments@));
    }
    mp_write_array_len(&mut buf, stream_ids.len() as u32);
    let ghost after_ids_header = buf@;
    let mut s: usize = 0;
    while s < stream_ids.len()
        invariant
            s <= stream_ids@.len(),
            forall|j: int| 0 <= j < stream_ids@.len() ==> encode_len_fits(#[trigger] stream_ids@[j]@),
            buf@ == after_ids_header + str_seq_bytes(strs_view(stream_ids@).subrange(0, s as int)),
        decreases stream_ids@.len() - s,
    {
        mp_write_str(&mut buf, stream_ids[s].as_str());
        proof {
            let sv = strs_view(stream_ids@);
            assert(sv.subrange(0, s as int + 1).drop_last() =~= sv.subrange(0, s as int));
        }
        s = s + 1;
    }
    proof {
        assert(strs_view(stream_ids@).subrange(0, s as int) =~= strs_view(stream_ids@));
    }
    buf
}

/// An invocation message written and framed behind its length prefix, ready
/// to be sent as one binary frame.
pub fn encode_framed_invocation(
    msg_type: u8,
    invocation_id: &Option<String>,
    target: &str,
    arguments: &Vec<Vec<u8>>,
) -> (r: Vec<u8>)
    requires
        arguments@.len() <= u32::MAX,
        invocation_id matches Some(id) ==> encode_len_fits(id@),
        encode_len_fits(target@),
    ensures
        r@ == crate::framing::framed(
            invocation_bytes(
                msg_type,
                Seq::empty(),
                match invocation_id {
                    Some(id) => Some(id@),
                    None => None,
                },
                target@,
                bytes_view(arguments@),
                Seq::empty(),
            ),
        ),
{
    let headers: Vec<(String, String)> = Vec::new();
    let stream_ids: Vec<String> = Vec::new();
    let payload = encode_invocation(msg_type, &headers, invocation_id, target, arguments, &stream_ids);
    proof {
        assert(pairs_view(headers@) =~= Seq::<(Seq<char>, Seq<char>)>::empty());
        assert(strs_view(stream_ids@) =~= Seq::<Seq<char>>::empty());
    }
    crate::framing::frame_message(payload.as_slice())
}

/// The array length at the start of `d` and the header size, if `d` starts
/// with an array header.
pub open spec fn array_len_decoded(d: Seq<u8>) -> Option<(u32, nat)> {
    if d.len() >= 1 && 0x90 <= d[0] <= 0x9f {
        Some(((d[0] - 0x90) as u32, 1))
    } else if d.len() >= 3 && d[0] == 0xdc {
        Some(((d[1] as nat * 256 + d[2] as nat) as u32, 3))
    } else if d.len() >= 5 && d[0] == 0xdd {
        Some((
            (((d[1] as nat * 256 + d[2] as nat) * 256 + d[3] as nat) * 256 + d[4] as nat) as u32,
            5,
        ))
    } else {
        None
    }
}

/// Relies on `rmp::decode::read_array_len` over a byte slice: decodes a
/// fixarray, array16 or array32 header and fails on any other marker or on
/// missing bytes. Returns the length and the bytes after the header.
#[verifier::external_body]
fn mp_read_array_len(data: &[u8]) -> (r: Option<(u32, &[u8])>)
    ensures
        match r {
            Some((n, rest)) => array_len_decoded(data@) matches Some((m, k)) && n == m && rest@
                == data@.subrange(k as int, data@.len() as int),
            None => array_len_decoded(data@) is None,
        },
{
    let mut rd = data;
    let n = rmp::decode::read_array_len(&mut rd).ok()?;
    Some((n, rd))
}

/// Whether the `w` bytes after the marker are all zero but the last: the
/// big-endian value they hold then fits a `u8`.
pub open spec fn low_byte_only(d: Seq<u8>, w: int) -> bool {
    forall|i: int| 1 <= i < w ==> d[i] == 0
}

/// The `u8` that a MessagePack integer at the start of `d` holds, if it is an
/// integer whose value fits a `u8`: a positive fixint, or an unsigned or
/// signed integer of 1, 2, 4 or 8 bytes with a value in 0..=255. Anything
/// else (a negative value, a larger value, another marker, missing bytes)
/// gives `None`.
pub open spec fn int_u8_decoded(d: Seq<u8>) -> Option<u8> {
    if d.len() == 0 {
        None
    } else {
        let b = d[0];
        if b < 0x80 {
            Some(b)
        } else if b >= 0xe0 {
            None
        } else if b == 0xcc || b == 0xd0 {
            if d.len() < 2 || (b == 0xd0 && d[1] >= 0x80) {
                None
            } else {
                Some(d[1])
            }
        } else if b == 0xcd || b == 0xd1 {
            if d.len() < 3 || !low_byte_only(d, 2) {
                None
            } else {
                Some(d[2])
            }
        } else if b == 0xce || b == 0xd2 {
            if d.len() < 5 || !low_byte_only(d, 4) {
                None
            } else {
                Some(d[4])
            }
        } else if b == 0xcf || b == 0xd3 {
            if d.len() < 9 || !low_byte_only(d, 8) {
                None
            } else {
                Some(d[8])
            }
        } else {
            None
        }
    }
}

/// Relies on `rmp::decode::read_int::<u8>` over a byte slice: reads the
/// marker, then the big-endian value of the integer kinds, and keeps it when
/// it converts to `u8`; any other marker or a missing byte fails.
#[verifier::external_body]
fn mp_read_u8(data: &[u8]) -> (r: Option<u8>)
    ensures
        r == int_u8_decoded(data@),
{
    let mut rd = data;
    rmp::decode::read_int::<u8, _>(&mut rd).ok()
}

/// The kind of the binary message `d`: the first element of its array, read
/// as a small unsigned integer.
pub open spec fn binary_type_spec(d: Seq<u8>) -> Option<MessageType> {
    match array_len_decoded(d) {
        None => None,
        Some((n, k)) => match int_u8_decoded(d.subrange(k as int, d.len() as int)) {
            Some(code) => Some(message_type_of(code as u64)),
            None => None,
        },
    }
}

/// Reads the kind of a binary message from the first element of its array.
pub fn read_message_type(data: &[u8]) -> (r: Result<MessageType, String>)
    ensures
        match binary_type_spec(data@) {
            Some(t) => r == Ok::<MessageType, String>(t),
            None => r is Err,
        },
{
    let rest = match mp_read_array_len(data) {
        Some((_, rest)) => rest,
        None => {
            return Err(String::from_str("Not a MessagePack array"));
        },
    };
    match mp_read_u8(rest) {
        Some(code) => Ok(message_type_from_code(code as u64)),
        None => Err(String::from_str("Cannot read message type")),
    }
}

/// One top-level element of an inbound message array, as far as the message
/// layouts read it; `P` is the decoded value that is passed on untouched.
pub enum Field<P> {
    Nil,
    Str(String),
    UInt(u64),
    Array(Vec<P>),
    Other(P),
}

/// A parsed binary Invocation.
pub struct MsgpackInvocation<P> {
    pub invocation_id: Option<String>,
    pub target: String,
    pub arguments: Vec<P>,
}

/// A parsed binary Completion.
pub struct MsgpackCompletion<P> {
    pub invocation_id: String,
    pub result_kind: u8,
    pub payload: Option<Field<P>>,
}

/// A parsed binary StreamItem.
pub struct MsgpackStreamItem<P> {
    pub invocation_id: String,
    pub item: Field<P>,
}

/// Whether an element may stand as an invocation id: nil or a string.
pub open spec fn id_field_ok<P>(f: Field<P>) -> bool {
    f is Nil || f is Str
}

/// Reads an Invocation or StreamInvocation array
/// `[type, headers, id-or-nil, target, arguments, ...]`. Fails when it holds
/// fewer than five elements or when a field has the wrong shape.
pub fn parse_invocation<P>(items: Vec<Field<P>>) -> (r: Result<MsgpackInvocation<P>, String>)
    ensures
        r is Ok <==> (items@.len() >= 5 && id_field_ok(items@[2]) && items@[3] is Str
            && items@[4] is Array),
        r matches Ok(inv) ==> {
            &&& (items@[2] is Nil ==> inv.invocation_id is None)
            &&& (items@[2] matches Field::Str(s) ==> inv.invocation_id == Some(s))
            &&& (items@[3] matches Field::Str(t) ==> inv.target == t)
            &&& (items@[4] matches Field::Array(a) ==> inv.arguments == a)
        },
{
    if items.len() < 5 {
        return Err(String::from_str("Invocation array too short"));
    }
    let mut items = items;
    let ghost orig = items@;
    let arguments_field = items.remove(4);
    let target_field = items.remove(3);
    let id_field = items.remove(2);
    proof {
        assert(arguments_field == orig[4]);
        assert(target_field == orig[3]);
        assert(id_field == orig[2]);
    }
    let invocation_id = match id_field {
        Field::Nil => None,
        Field::Str(s) => Some(s),
        _ => {
            return Err(String::from_str("Invalid invocation_id type"));
        },
    };
    let target = match target_field {
        Field::Str(t) => t,
        _ => {
            return Err(String::from_str("Invalid target"));
        },
    };
    let arguments = match arguments_field {
        Field::Array(a) => a,
        _ => {
            return Err(String::from_str("Invalid arguments"));
        },
    };
    Ok(MsgpackInvocation { invocation_id, target, arguments })
}

/// Reads a Completion array `[3, headers, id, result-kind, result?]`. Fails
/// when it holds fewer than four elements, when the id is not a string, or
/// when the result kind is not an unsigned integer below 256 (kinds 1 to 3
/// are meaningful; other small kinds are read as malformed later).
pub fn parse_completion<P>(items: Vec<Field<P>>) -> (r: Result<MsgpackCompletion<P>, String>)
    ensures
        r is Ok <==> (items@.len() >= 4 && items@[2] is Str && (items@[3] matches Field::UInt(k)
            && k <= 255)),
        r matches Ok(c) ==> {
            &&& (items@[2] matches Field::Str(s) ==> c.invocation_id == s)
            &&& (items@[3] matches Field::UInt(k) ==> c.result_kind == k)
            &&& (items@.len() > 4 ==> c.payload == Some(items@[4]))
            &&& (items@.len() == 4 ==> c.payload is None)
        },
{
    if items.len() < 4 {
        return Err(String::from_str("Completion array too short"));
    }
    let mut items = items;
    let ghost orig = items@;
    let payload = if items.len() > 4 {
        Some(items.remove(4))
    } else {
        None
    };
    let kind_field = items.remove(3);
    let id_field = items.remove(2);
    proof {
        assert(kind_field == orig[3]);
        assert(id_field == orig[2]);
    }
    let invocation_id = match id_field {
        Field::Str(s) => s,
        _ => {
            return Err(String::from_str("Invalid invocation_id"));
        },
    };
    let result_kind = match kind_field {
        Field::UInt(k) if k <= 255 => k as u8,
        _ => {
            return Err(String::from_str("Invalid ResultKind"));
        },
    };
    Ok(MsgpackCompletion { invocation_id, result_kind, payload })
}

/// Reads a StreamItem array `[2, headers, id, item]`. Fails when it holds
/// fewer than four elements or when the id is not a string.
pub fn parse_stream_item<P>(items: Vec<Field<P>>) -> (r: Result<MsgpackStreamItem<P>, String>)
    ensures
        r is Ok <==> (items@.len() >= 4 && items@[2] is Str),
        r matches Ok(si) ==> {
            &&& (items@[2] matches Field::Str(s) ==> si.invocation_id == s)
            &&& si.item == items@[3]
        },
{
    if items.len() < 4 {
        return Err(String::from_str("StreamItem array too short"));
    }
    let mut items = items;
    let ghost orig = items@;
    let item = items.remove(3);
    let id_field = items.remove(2);
    proof {
        assert(id_field == orig[2]);
    }
    let invocation_id = match id_field {
        Field::Str(s) => s,
        _ => {
            return Err(String::from_str("Invalid invocation_id"));
        },
    };
    Ok(MsgpackStreamItem { invocation_id, item })
}

/// How a completion ends its invocation.
pub enum CompletionOutcome<P> {
    /// The server reported an error; the waiter is cancelled.
    Error(String),
    /// The method returned nothing; the waiter gets the default value.
    Void,
    /// The method returned this value.
    Value(Field<P>),
    /// A result kind outside {1, 2, 3}, or a non-void result without a value.
    Malformed,
}

/// Interprets the result kind of a completion: 1 is an error (its message
/// is the payload string, or "Unknown error"), 2 is void, 3 carries a value.
pub fn completion_outcome<P>(c: MsgpackCompletion<P>) -> (r: CompletionOutcome<P>)
    ensures
        c.result_kind == 1 ==> (r matches CompletionOutcome::Error(m) && (c.payload matches Some(
            Field::Str(s),
        ) ==> m@ == s@) && (!(c.payload matches Some(Field::Str(_))) ==> m@
            == "Unknown error"@)),
        c.result_kind == 2 ==> r is Void,
        c.result_kind == 3 ==> match c.payload {
            Some(v) => r == CompletionOutcome::Value(v),
            None => r is Malformed,
        },
        c.result_kind != 1 && c.result_kind != 2 && c.result_kind != 3 ==> r is Malformed,
{
    let kind = c.result_kind;
    match c.payload {
        Some(v) => {
            if kind == 1 {
                match v {
                    Field::Str(s) => CompletionOutcome::Error(s),
                    _ => CompletionOutcome::Error(String::from_str("Unknown error")),
                }
            } else if kind == 2 {
                CompletionOutcome::Void
            } else if kind == 3 {
                CompletionOutcome::Value(v)
            } else {
                CompletionOutcome::Malformed
            }
        },
        None => {
            if kind == 1 {
                CompletionOutcome::Error(String::from_str("Unknown error"))
            } else if kind == 2 {
                CompletionOutcome::Void
            } else {
                CompletionOutcome::Malformed
            }
        },
    }
}

/// What the waiter of a single invocation receives from a binary
/// completion: the value, the default for a void result, or a cancellation
/// for an error or a malformed completion.
pub fn delivery_of<P>(o: CompletionOutcome<P>) -> (r: Delivery<Field<P>>)
    ensures
        match o {
            CompletionOutcome::Value(v) => r == Delivery::Value(v),
            CompletionOutcome::Void => r is Default,
            CompletionOutcome::Error(_) => r is Cancel,
            CompletionOutcome::Malformed => r is Cancel,
        },
{
    match o {
        CompletionOutcome::Value(v) => Delivery::Value(v),
        CompletionOutcome::Void => Delivery::Default,
        CompletionOutcome::Error(_) => Delivery::Cancel,
        CompletionOutcome::Malformed => Delivery::Cancel,
    }
}

/// `c` with an ASCII upper-case letter made lower-case.
pub open spec fn ascii_lower(c: char) -> char {
    if 'A' <= c <= 'Z' {
        ((c as u32) + 32) as char
    } else {
        c
    }
}

/// `c` with an ASCII lower-case letter made upper-case.
pub open spec fn ascii_upper(c: char) -> char {
    if 'a' <= c <= 'z' {
        ((c as u32) - 32) as char
    } else {
        c
    }
}

/// `s` with its first character passed through `f`.
pub open spec fn first_mapped(s: Seq<char>, f: spec_fn(char) -> char) -> Seq<char> {
    if s.len() == 0 {
        s
    } else {
        seq![f(s[0])] + s.drop_first()
    }
}

/// Relies on `String::push`: appends one character.
#[verifier::external_body]
fn push_char(s: &mut String, c: char)
    ensures
        final(s)@ == old(s)@.push(c),
{
    s.push(c)
}

/// Lower-cases an ASCII letter, as `char::to_ascii_lowercase` does.
fn lower_ascii(c: char) -> (r: char)
    ensures
        r == ascii_lower(c),
{
    if 'A' <= c && c <= 'Z' {
        ((c as u8) + 32) as char
    } else {
        c
    }
}

/// Upper-cases an ASCII letter, as `char::to_ascii_uppercase` does.
fn upper_ascii(c: char) -> (r: char)
    ensures
        r == ascii_upper(c),
{
    if 'a' <= c && c <= 'z' {
        ((c as u8) - 32) as char
    } else {
        c
    }
}

/// Lower-cases the first character of a field name (an ASCII letter), as a
/// server's upper-case-first keys become client field names.
pub fn to_camel_case(s: &str) -> (r: String)
    ensures
        r@ == first_mapped(s@, |c: char| ascii_lower(c)),
{
    let n = s.unicode_len();
    if n == 0 {
        return String::new();
    }
    let mut out = String::new();
    push_char(&mut out, lower_ascii(s.get_char(0)));
    out.append(s.substring_char(1, n));
    proof {
        assert(out@ =~= first_mapped(s@, |c: char| ascii_lower(c)));
    }
    out
}

/// Upper-cases the first character of a field name (an ASCII letter), for
/// servers that expect upper-case-first keys.
pub fn to_pascal_case(s: &str) -> (r: String)
    ensures
        r@ == first_mapped(s@, |c: char| ascii_upper(c)),
{
    let n = s.unicode_len();
    if n == 0 {
        return String::new();
    }
    let mut out = String::new();
    push_char(&mut out, upper_ascii(s.get_char(0)));
    out.append(s.substring_char(1, n));
    proof {
        assert(out@ =~= first_mapped(s@, |c: char| ascii_upper(c)));
    }
    out
}

} // verus!
