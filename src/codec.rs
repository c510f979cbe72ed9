//! The byte encoding of messages: protobuf's wire format for this schema.
//! A message is a sequence of fields; each field is a varint key (field
//! number times eight plus a wire type) followed by a varint (wire type 0)
//! or a varint length and that many bytes (wire type 2).
use vstd::prelude::*;
use vstd::arithmetic::power2::{lemma2_to64, lemma_pow2_adds, pow2};
use vstd::slice::{slice_subrange, slice_to_vec};
use vstd::utf8::{decode_utf8, encode_utf8, valid_utf8};

use crate::messages::{
    HorustMsgError, HorustMsgMessage, HorustMsgRequest, HorustMsgResponse,
    HorustMsgServiceChangeRequest, HorustMsgServiceChangeResponse, HorustMsgServiceInfoRequest,
    HorustMsgServiceInfoResponse, HorustMsgServiceStatusRequest, HorustMsgServiceStatusResponse,
    MessageType, MessageView, Request, RequestView, Response, ResponseView,
};

verus! {

/// The least-significant-first base-128 encoding of `v`.
pub open spec fn varint(v: nat) -> Seq<u8>
    decreases v,
{
    if v < 128 {
        seq![v as u8]
    } else {
        seq![(v % 128 + 128) as u8] + varint(v / 128)
    }
}

/// Reads a varint from `s` at index `k`, having read `k` bytes before it:
/// the value and the index after it. At most ten bytes are read, and the
/// tenth may only be 0 or 1.
pub open spec fn leb_from(s: Seq<u8>, k: nat) -> Option<(int, nat)>
    decreases 10 - k,
{
    if k >= 10 || k >= s.len() {
        None
    } else if s[k as int] < 128 {
        if k == 9 && s[k as int] >= 2 {
            None
        } else {
            Some((s[k as int] as int, k + 1))
        }
    } else {
        match leb_from(s, k + 1) {
            Some((v, n)) => Some(((s[k as int] - 128) + 128 * v, n)),
            None => None,
        }
    }
}

/// Relies on prost::encoding::encode_varint: it appends the
/// least-significant-first base-128 encoding of `value`.
#[verifier::external_body]
fn put_varint(value: u64, buf: &mut Vec<u8>)
    ensures
        final(buf)@ == old(buf)@ + varint(value as nat),
{
    prost::encoding::encode_varint(value, buf)
}

/// Relies on prost::encoding::decode_varint: it reads one varint from the
/// front of `buf`; the result holds the value and how many bytes are left.
#[verifier::external_body]
fn read_varint(buf: &[u8]) -> (r: Option<(u64, usize)>)
    ensures
        match leb_from(buf@, 0) {
            Some((v, n)) => r == Some((v as u64, (buf@.len() - n) as usize)),
            None => r is None,
        },
{
    let mut rest = buf;
    match prost::encoding::decode_varint(&mut rest) {
        Ok(v) => Some((v, rest.len())),
        Err(_) => None,
    }
}

/// A field with its number and its bytes.
pub open spec fn len_field(number: nat, body: Seq<u8>) -> Seq<u8> {
    varint(number * 8 + 2) + varint(body.len()) + body
}

/// A string field; the empty string is left out.
pub open spec fn string_field(number: nat, s: Seq<char>) -> Seq<u8> {
    if s.len() == 0 {
        Seq::empty()
    } else {
        len_field(number, encode_utf8(s))
    }
}

/// The 64-bit pattern of a 32-bit integer, sign-extended.
pub open spec fn int_bits(v: i32) -> nat {
    if v >= 0 {
        v as nat
    } else {
        (v + 0x1_0000_0000_0000_0000) as nat
    }
}

/// An integer field; zero is left out.
pub open spec fn int_field(number: nat, v: i32) -> Seq<u8> {
    if v == 0 {
        Seq::empty()
    } else {
        varint(number * 8) + varint(int_bits(v))
    }
}

/// The bytes of a request's body.
pub open spec fn request_body_bytes(q: RequestView) -> Seq<u8> {
    match q {
        RequestView::Status(n) => string_field(1, n),
        RequestView::Change(n, c) => string_field(1, n) + int_field(2, c),
        RequestView::Info(n) => string_field(1, n),
    }
}

/// The bytes of a response's body.
pub open spec fn response_body_bytes(p: ResponseView) -> Seq<u8> {
    match p {
        ResponseView::Error(e) => string_field(1, e),
        ResponseView::Status(n, s) => string_field(1, n) + int_field(2, s),
        ResponseView::Info(n, i) => string_field(1, n) + string_field(2, i),
        ResponseView::Change(n, s) => string_field(1, n) + int_field(2, s),
    }
}

/// The union member number of each request kind.
pub open spec fn request_member(q: RequestView) -> nat {
    match q {
        RequestView::Status(_) => 1,
        RequestView::Change(_, _) => 2,
        RequestView::Info(_) => 3,
    }
}

/// The union member number of each response kind.
pub open spec fn response_member(p: ResponseView) -> nat {
    match p {
        ResponseView::Error(_) => 1,
        ResponseView::Status(_, _) => 2,
        ResponseView::Info(_, _) => 3,
        ResponseView::Change(_, _) => 4,
    }
}

/// The bytes of a request union.
pub open spec fn request_bytes(q: Option<RequestView>) -> Seq<u8> {
    match q {
        None => Seq::empty(),
        Some(x) => len_field(request_member(x), request_body_bytes(x)),
    }
}

/// The bytes of a response union.
pub open spec fn response_bytes(p: Option<ResponseView>) -> Seq<u8> {
    match p {
        None => Seq::empty(),
        Some(x) => len_field(response_member(x), response_body_bytes(x)),
    }
}

/// The encoding of a message.
pub open spec fn message_bytes(m: MessageView) -> Seq<u8> {
    match m {
        MessageView::Empty => Seq::empty(),
        MessageView::Request(q) => len_field(1, request_bytes(q)),
        MessageView::Response(p) => len_field(2, response_bytes(p)),
    }
}

/// Appends a length-delimited field.
fn put_len_field(number: u64, body: Vec<u8>, buf: &mut Vec<u8>)
    requires
        number < 0x1000_0000,
    ensures
        final(buf)@ == old(buf)@ + len_field(number as nat, body@),
{
    put_varint(number * 8 + 2, buf);
    put_varint(body.len() as u64, buf);
    let mut body = body;
    buf.append(&mut body);
}

/// Appends a string field, unless the string is empty.
fn put_string_field(number: u64, s: &String, buf: &mut Vec<u8>)
    requires
        number < 0x1000_0000,
    ensures
        final(buf)@ == old(buf)@ + string_field(number as nat, s@),
{
    let bytes = s.as_str().as_bytes();
    proof {
        lemma_encode_utf8_empty(s@);
    }
    if bytes.len() == 0 {
        return;
    }
    put_len_field(number, vstd::slice::slice_to_vec(bytes), buf);
}

/// Appends an integer field, unless the integer is zero.
fn put_int_field(number: u64, v: i32, buf: &mut Vec<u8>)
    requires
        number < 0x1000_0000,
    ensures
        final(buf)@ == old(buf)@ + int_field(number as nat, v),
{
    if v != 0 {
        put_varint(number * 8, buf);
        let bits: u64 = if v >= 0 {
            v as u64
        } else {
            u64::MAX - ((-(v as i64) - 1) as u64)
        };
        assert(bits as nat == int_bits(v));
        put_varint(bits, buf);
        proof {
            assert(final(buf)@ =~= old(buf)@ + int_field(number as nat, v));
        }
    } else {
        assert(int_field(number as nat, v) =~= Seq::<u8>::empty());
        assert(buf@ =~= old(buf)@ + int_field(number as nat, v));
    }
}

/// Encodes the body of a request.
fn request_body(q: &Request) -> (r: Vec<u8>)
    ensures
        r@ == request_body_bytes(q@),
{
    let mut buf: Vec<u8> = Vec::new();
    match q {
        Request::StatusRequest(x) => put_string_field(1, &x.service_name, &mut buf),
        Request::ChangeRequest(x) => {
            put_string_field(1, &x.service_name, &mut buf);
            put_int_field(2, x.service_status, &mut buf);
        },
        Request::InfoRequest(x) => put_string_field(1, &x.service_name, &mut buf),
    }
    assert(buf@ =~= request_body_bytes(q@));
    buf
}

/// Encodes the body of a response.
fn response_body(p: &Response) -> (r: Vec<u8>)
    ensures
        r@ == response_body_bytes(p@),
{
    let mut buf: Vec<u8> = Vec::new();
    match p {
        Response::Error(x) => put_string_field(1, &x.error_string, &mut buf),
        Response::StatusResponse(x) => {
            put_string_field(1, &x.service_name, &mut buf);
            put_int_field(2, x.service_status, &mut buf);
        },
        Response::InfoResponse(x) => {
            put_string_field(1, &x.service_name, &mut buf);
            put_string_field(2, &x.info, &mut buf);
        },
        Response::ChangeResponse(x) => {
            put_string_field(1, &x.service_name, &mut buf);
            put_int_field(2, x.service_status, &mut buf);
        },
    }
    assert(buf@ =~= response_body_bytes(p@));
    buf
}

/// Encodes a message; fields come in field-number order and fields that
/// hold their default value are left out.
pub fn encode_message(m: &HorustMsgMessage) -> (r: Vec<u8>)
    ensures
        r@ == message_bytes(m@),
{
    let mut buf: Vec<u8> = Vec::new();
    match &m.message_type {
        None => {},
        Some(MessageType::Request(q)) => {
            let mut inner: Vec<u8> = Vec::new();
            match &q.request {
                None => {},
                Some(x) => {
                    let number: u64 = match x {
                        Request::StatusRequest(_) => 1,
                        Request::ChangeRequest(_) => 2,
                        Request::InfoRequest(_) => 3,
                    };
                    put_len_field(number, request_body(x), &mut inner);
                },
            }
            assert(inner@ =~= request_bytes(m@->Request_0));
            put_len_field(1, inner, &mut buf);
        },
        Some(MessageType::Response(p)) => {
            let mut inner: Vec<u8> = Vec::new();
            match &p.response {
                None => {},
                Some(x) => {
                    let number: u64 = match x {
                        Response::Error(_) => 1,
                        Response::StatusResponse(_) => 2,
                        Response::InfoResponse(_) => 3,
                        Response::ChangeResponse(_) => 4,
                    };
                    put_len_field(number, response_body(x), &mut inner);
                },
            }
            assert(inner@ =~= response_bytes(m@->Response_0));
            put_len_field(2, inner, &mut buf);
        },
    }
    assert(buf@ =~= message_bytes(m@));
    buf
}

/// The value of a field as read from the wire.
pub ghost enum Wire {
    Int(int),
    Bytes(Seq<u8>),
}

/// Reads the field at the front of `s`: its number, its value and how many
/// bytes it takes. Only wire types 0 and 2 are read, and field number 0
/// is refused.
pub open spec fn parse_field(s: Seq<u8>) -> Option<(int, Wire, int)> {
    match leb_from(s, 0) {
        None => None,
        Some((key, n)) => {
            let rest = s.skip(n as int);
            if key / 8 == 0 || (key % 8 != 0 && key % 8 != 2) {
                None
            } else {
                match leb_from(rest, 0) {
                    None => None,
                    Some((v, m)) => if key % 8 == 0 {
                        Some((key / 8, Wire::Int(v), (n + m) as int))
                    } else if n + m + v <= s.len() {
                        Some(
                            (
                                key / 8,
                                Wire::Bytes(s.subrange((n + m) as int, n + m + v)),
                                n + m + v,
                            ),
                        )
                    } else {
                        None
                    },
                }
            }
        },
    }
}

/// A varint read from index `k` has a value below `2^(64 - 7k)` and ends
/// within the first ten bytes of `s`.
proof fn lemma_leb_bound(s: Seq<u8>, k: nat)
    requires
        k <= 9,
    ensures
        leb_from(s, k) matches Some((v, n)) ==> 0 <= v < pow2((64 - 7 * k) as nat) && k < n
            <= 10 && n <= s.len(),
    decreases 10 - k,
{
    lemma2_to64();
    if k < s.len() && s[k as int] >= 128 && k < 9 {
        lemma_leb_bound(s, k + 1);
        lemma_pow2_adds(7, (64 - 7 * (k + 1)) as nat);
        assert((64 - 7 * k) as nat == 7 + (64 - 7 * (k + 1)) as nat);
        if let Some((v, n)) = leb_from(s, k + 1) {
            let p = pow2((64 - 7 * (k + 1)) as nat);
            let b = s[k as int] - 128;
            assert(0 <= b < 128);
            assert(b + 128 * v < 128 * p) by (nonlinear_arith)
                requires
                    0 <= b < 128,
                    0 <= v < p,
            ;
        }
    } else if k < s.len() && s[k as int] < 128 && k < 9 {
        lemma_pow2_adds(8, (64 - 7 * k - 8) as nat);
        vstd::arithmetic::power2::lemma_pow2_pos((64 - 7 * k - 8) as nat);
        assert(pow2(8) == 256);
        assert((64 - 7 * k) as nat == 8 + (64 - 7 * k - 8) as nat);
    }
}

/// A field read from the wire.
enum FieldValue {
    Int(u64),
    Bytes(Vec<u8>),
}

spec fn field_view(f: FieldValue) -> Wire {
    match f {
        FieldValue::Int(v) => Wire::Int(v as int),
        FieldValue::Bytes(b) => Wire::Bytes(b@),
    }
}

/// Reads the field at the front of `s`.
fn read_field(s: &[u8]) -> (r: Option<(u64, FieldValue, usize)>)
    ensures
        match parse_field(s@) {
            None => r is None,
            Some((num, w, c)) => r matches Some((rn, rw, rc)) && rn as int == num && field_view(
                rw,
            ) == w && rc as int == c,
        },
{
    proof {
        lemma_leb_bound(s@, 0);
        lemma2_to64();
    }
    let (key, left) = match read_varint(s) {
        Some(x) => x,
        None => {
            return None;
        },
    };
    let n = s.len() - left;
    let num = key / 8;
    let wire_type = key % 8;
    if num == 0 || (wire_type != 0 && wire_type != 2) {
        return None;
    }
    let rest = slice_subrange(s, n, s.len());
    assert(rest@ =~= s@.skip(n as int));
    proof {
        lemma_leb_bound(rest@, 0);
    }
    let (v, left2) = match read_varint(rest) {
        Some(x) => x,
        None => {
            return None;
        },
    };
    let m = rest.len() - left2;
    if wire_type == 0 {
        return Some((num, FieldValue::Int(v), n + m));
    }
    if v > (s.len() - n - m) as u64 {
        return None;
    }
    let len = v as usize;
    let bytes = slice_to_vec(slice_subrange(s, n + m, n + m + len));
    Some((num, FieldValue::Bytes(bytes), n + m + len))
}

/// The fields of a message body whose first field is a string: the bytes
/// of field 1, and field 2 as bytes or as an integer.
pub ghost struct Record {
    pub first: Seq<u8>,
    pub second_bytes: Seq<u8>,
    pub second_int: int,
}

/// A body before any field is read.
pub open spec fn empty_record() -> Record {
    Record { first: Seq::empty(), second_bytes: Seq::empty(), second_int: 0 }
}

/// What field 2 of a body is: absent (0), an integer (1) or a string (2).
pub open spec fn record_step(a: Record, num: int, w: Wire, kind: u8) -> Option<Record> {
    if num == 1 {
        match w {
            Wire::Bytes(b) => Some(Record { first: b, second_bytes: a.second_bytes, second_int: a.second_int }),
            _ => None,
        }
    } else if num == 2 && kind == 1 {
        match w {
            Wire::Int(v) => Some(Record { first: a.first, second_bytes: a.second_bytes, second_int: v }),
            _ => None,
        }
    } else if num == 2 && kind == 2 {
        match w {
            Wire::Bytes(b) => Some(Record { first: a.first, second_bytes: b, second_int: a.second_int }),
            _ => None,
        }
    } else {
        Some(a)
    }
}

/// Reads all fields of a body; a later field overrides an earlier one of
/// the same number, and unknown fields are skipped.
pub open spec fn scan_record(s: Seq<u8>, a: Record, kind: u8) -> Option<Record>
    decreases s.len(),
{
    if s.len() == 0 {
        Some(a)
    } else {
        match parse_field(s) {
            None => None,
            Some((num, w, c)) => if c <= 0 || c > s.len() {
                None
            } else {
                match record_step(a, num, w, kind) {
                    None => None,
                    Some(b) => scan_record(s.skip(c), b, kind),
                }
            },
        }
    }
}

/// One field of a union whose members are the fields 1 to `max`.
pub open spec fn union_step(a: Option<(int, Seq<u8>)>, num: int, w: Wire, max: int) -> Option<
    Option<(int, Seq<u8>)>,
> {
    if 1 <= num <= max {
        match w {
            Wire::Bytes(b) => Some(Some((num, b))),
            _ => None,
        }
    } else {
        Some(a)
    }
}

/// Reads all fields of a union: the last member present, with its bytes.
pub open spec fn scan_union(s: Seq<u8>, a: Option<(int, Seq<u8>)>, max: int) -> Option<
    Option<(int, Seq<u8>)>,
>
    decreases s.len(),
{
    if s.len() == 0 {
        Some(a)
    } else {
        match parse_field(s) {
            None => None,
            Some((num, w, c)) => if c <= 0 || c > s.len() {
                None
            } else {
                match union_step(a, num, w, max) {
                    None => None,
                    Some(b) => scan_union(s.skip(c), b, max),
                }
            },
        }
    }
}

/// The fields of a message body as read so far.
struct RecordBuf {
    first: Vec<u8>,
    second_bytes: Vec<u8>,
    second_int: u64,
}

spec fn record_view(r: RecordBuf) -> Record {
    Record { first: r.first@, second_bytes: r.second_bytes@, second_int: r.second_int as int }
}

/// Reads all fields of a message body.
fn read_record(s: &[u8], kind: u8) -> (r: Option<RecordBuf>)
    ensures
        match scan_record(s@, empty_record(), kind) {
            None => r is None,
            Some(v) => r matches Some(b) && record_view(b) == v,
        },
{
    let mut acc = RecordBuf { first: Vec::new(), second_bytes: Vec::new(), second_int: 0 };
    let mut pos: usize = 0;
    assert(s@.skip(0) =~= s@);
    assert(record_view(acc) == empty_record());
    while pos < s.len()
        invariant
            pos <= s.len(),
            scan_record(s@, empty_record(), kind) == scan_record(
                s@.skip(pos as int),
                record_view(acc),
                kind,
            ),
        decreases s.len() - pos,
    {
        let rest = slice_subrange(s, pos, s.len());
        assert(rest@ =~= s@.skip(pos as int));
        let (num, value, c) = match read_field(rest) {
            Some(x) => x,
            None => {
                return None;
            },
        };
        if c == 0 || c > rest.len() {
            return None;
        }
        if num == 1 {
            match value {
                FieldValue::Bytes(b) => {
                    acc.first = b;
                },
                _ => {
                    return None;
                },
            }
        } else if num == 2 && kind == 1 {
            match value {
                FieldValue::Int(v) => {
                    acc.second_int = v;
                },
                _ => {
                    return None;
                },
            }
        } else if num == 2 && kind == 2 {
            match value {
                FieldValue::Bytes(b) => {
                    acc.second_bytes = b;
                },
                _ => {
                    return None;
                },
            }
        }
        assert(s@.skip(pos as int).skip(c as int) =~= s@.skip(pos + c));
        pos = pos + c;
    }
    assert(s@.skip(pos as int) =~= Seq::<u8>::empty());
    Some(acc)
}

/// Reads all fields of a union whose members are the fields 1 to `max`.
fn read_union(s: &[u8], max: u64) -> (r: Option<Option<(u64, Vec<u8>)>>)
    ensures
        match scan_union(s@, None, max as int) {
            None => r is None,
            Some(None) => r == Some(None::<(u64, Vec<u8>)>),
            Some(Some((k, b))) => r matches Some(Some((rk, rb))) && rk as int == k && rb@ == b,
        },
        r matches Some(Some((k, _))) ==> 1 <= k <= max,
{
    let mut acc: Option<(u64, Vec<u8>)> = None;
    let mut pos: usize = 0;
    assert(s@.skip(0) =~= s@);
    while pos < s.len()
        invariant
            pos <= s.len(),
            scan_union(s@, None, max as int) == scan_union(
                s@.skip(pos as int),
                match acc {
                    None => None,
                    Some((k, b)) => Some((k as int, b@)),
                },
                max as int,
            ),
            acc matches Some((k, _)) ==> 1 <= k <= max,
        decreases s.len() - pos,
    {
        let rest = slice_subrange(s, pos, s.len());
        assert(rest@ =~= s@.skip(pos as int));
        let (num, value, c) = match read_field(rest) {
            Some(x) => x,
            None => {
                return None;
            },
        };
        if c == 0 || c > rest.len() {
            return None;
        }
        if 1 <= num && num <= max {
            match value {
                FieldValue::Bytes(b) => {
                    acc = Some((num, b));
                },
                _ => {
                    return None;
                },
            }
        }
        assert(s@.skip(pos as int).skip(c as int) =~= s@.skip(pos + c));
        pos = pos + c;
    }
    assert(s@.skip(pos as int) =~= Seq::<u8>::empty());
    Some(acc)
}

/// The text of UTF-8 bytes, or `None` where they are no valid UTF-8.
pub open spec fn text_of(b: Seq<u8>) -> Option<Seq<char>> {
    if valid_utf8(b) {
        Some(decode_utf8(b))
    } else {
        None
    }
}

/// Relies on std's String::from_utf8: it succeeds exactly on valid UTF-8,
/// and the string then holds the characters that the bytes encode.
#[verifier::external_body]
fn string_from_utf8(bytes: Vec<u8>) -> (r: Option<String>)
    ensures
        match text_of(bytes@) {
            None => r is None,
            Some(t) => r matches Some(x) && x@ == t,
        },
{
    String::from_utf8(bytes).ok()
}

/// The 32-bit integer of a varint value: its low 32 bits, as two's
/// complement.
pub open spec fn int32_of(v: int) -> i32 {
    let low = v % 0x1_0000_0000;
    if low < 0x8000_0000 {
        low as i32
    } else {
        (low - 0x1_0000_0000) as i32
    }
}

/// The 32-bit integer of a varint value.
fn to_i32(v: u64) -> (r: i32)
    ensures
        r == int32_of(v as int),
{
    let low = v % 0x1_0000_0000;
    if low < 0x8000_0000 {
        low as i32
    } else {
        (low as i64 - 0x1_0000_0000) as i32
    }
}

/// The request that the body `body` of union member `k` holds.
pub open spec fn request_of(k: int, body: Seq<u8>) -> Option<RequestView> {
    match scan_record(body, empty_record(), if k == 2 { 1u8 } else { 0u8 }) {
        None => None,
        Some(r) => match text_of(r.first) {
            None => None,
            Some(n) => Some(
                if k == 1 {
                    RequestView::Status(n)
                } else if k == 2 {
                    RequestView::Change(n, int32_of(r.second_int))
                } else {
                    RequestView::Info(n)
                },
            ),
        },
    }
}

/// The response that the body `body` of union member `k` holds.
pub open spec fn response_of(k: int, body: Seq<u8>) -> Option<ResponseView> {
    match scan_record(
        body,
        empty_record(),
        if k == 1 {
            0u8
        } else if k == 3 {
            2u8
        } else {
            1u8
        },
    ) {
        None => None,
        Some(r) => match text_of(r.first) {
            None => None,
            Some(n) => if k == 1 {
                Some(ResponseView::Error(n))
            } else if k == 2 {
                Some(ResponseView::Status(n, int32_of(r.second_int)))
            } else if k == 3 {
                match text_of(r.second_bytes) {
                    None => None,
                    Some(i) => Some(ResponseView::Info(n, i)),
                }
            } else {
                Some(ResponseView::Change(n, int32_of(r.second_int)))
            },
        },
    }
}

/// What the bytes `s` decode to, if they form a message.
pub open spec fn decoded(s: Seq<u8>) -> Option<MessageView> {
    match scan_union(s, None, 2) {
        None => None,
        Some(None) => Some(MessageView::Empty),
        Some(Some((k, body))) => if k == 1 {
            match scan_union(body, None, 3) {
                None => None,
                Some(None) => Some(MessageView::Request(None)),
                Some(Some((j, b))) => match request_of(j, b) {
                    None => None,
                    Some(q) => Some(MessageView::Request(Some(q))),
                },
            }
        } else {
            match scan_union(body, None, 4) {
                None => None,
                Some(None) => Some(MessageView::Response(None)),
                Some(Some((j, b))) => match response_of(j, b) {
                    None => None,
                    Some(p) => Some(MessageView::Response(Some(p))),
                },
            }
        },
    }
}

/// Bytes that form no message.
#[derive(Debug, PartialEq, Eq)]
pub struct DecodeError;

/// Decodes the body of request member `k`.
fn decode_request(k: u64, body: &[u8]) -> (r: Option<Request>)
    requires
        1 <= k <= 3,
    ensures
        match request_of(k as int, body@) {
            None => r is None,
            Some(q) => r matches Some(x) && x@ == q,
        },
{
    let rec = match read_record(body, if k == 2 { 1 } else { 0 }) {
        Some(x) => x,
        None => {
            return None;
        },
    };
    let service_name = match string_from_utf8(rec.first) {
        Some(x) => x,
        None => {
            return None;
        },
    };
    if k == 1 {
        Some(Request::StatusRequest(HorustMsgServiceStatusRequest { service_name }))
    } else if k == 2 {
        let service_status = to_i32(rec.second_int);
        Some(Request::ChangeRequest(HorustMsgServiceChangeRequest { service_name, service_status }))
    } else {
        Some(Request::InfoRequest(HorustMsgServiceInfoRequest { service_name }))
    }
}

/// Decodes the body of response member `k`.
fn decode_response(k: u64, body: &[u8]) -> (r: Option<Response>)
    requires
        1 <= k <= 4,
    ensures
        match response_of(k as int, body@) {
            None => r is None,
            Some(p) => r matches Some(x) && x@ == p,
        },
{
    let kind: u8 = if k == 1 {
        0
    } else if k == 3 {
        2
    } else {
        1
    };
    let rec = match read_record(body, kind) {
        Some(x) => x,
        None => {
            return None;
        },
    };
    let name = match string_from_utf8(rec.first) {
        Some(x) => x,
        None => {
            return None;
        },
    };
    if k == 1 {
        Some(Response::Error(HorustMsgError { error_string: name }))
    } else if k == 2 {
        let service_status = to_i32(rec.second_int);
        Some(
            Response::StatusResponse(
                HorustMsgServiceStatusResponse { service_name: name, service_status },
            ),
        )
    } else if k == 3 {
        match string_from_utf8(rec.second_bytes) {
            Some(info) => Some(
                Response::InfoResponse(HorustMsgServiceInfoResponse { service_name: name, info }),
            ),
            None => None,
        }
    } else {
        let service_status = to_i32(rec.second_int);
        Some(
            Response::ChangeResponse(
                HorustMsgServiceChangeResponse { service_name: name, service_status },
            ),
        )
    }
}

/// Decodes a message: fields may come in any order, a later field
/// overrides an earlier one, and unknown fields are skipped.
pub fn decode_message(buf: &[u8]) -> (r: Result<HorustMsgMessage, DecodeError>)
    ensures
        match decoded(buf@) {
            None => r is Err,
            Some(v) => r matches Ok(m) && m@ == v,
        },
{
    let outer = match read_union(buf, 2) {
        Some(x) => x,
        None => {
            return Err(DecodeError);
        },
    };
    match outer {
        None => Ok(HorustMsgMessage { message_type: None }),
        Some((k, body)) => {
            if k == 1 {
                let request = match read_union(body.as_slice(), 3) {
                    None => {
                        return Err(DecodeError);
                    },
                    Some(None) => None,
                    Some(Some((j, b))) => match decode_request(j, b.as_slice()) {
                        None => {
                            return Err(DecodeError);
                        },
                        Some(q) => Some(q),
                    },
                };
                Ok(
                    HorustMsgMessage {
                        message_type: Some(MessageType::Request(HorustMsgRequest { request })),
                    },
                )
            } else {
                let response = match read_union(body.as_slice(), 4) {
                    None => {
                        return Err(DecodeError);
                    },
                    Some(None) => None,
                    Some(Some((j, b))) => match decode_response(j, b.as_slice()) {
                        None => {
                            return Err(DecodeError);
                        },
                        Some(p) => Some(p),
                    },
                };
                Ok(
                    HorustMsgMessage {
                        message_type: Some(MessageType::Response(HorustMsgResponse { response })),
                    },
                )
            }
        },
    }
}

/// A varint encoding of a value below `2^(64 - 7k)` found at index `k`
/// reads back as that value.
proof fn lemma_leb_varint(s: Seq<u8>, k: nat, v: nat)
    requires
        k <= 9,
        v < pow2((64 - 7 * k) as nat),
        k + varint(v).len() <= s.len(),
        s.subrange(k as int, (k + varint(v).len()) as int) == varint(v),
    ensures
        leb_from(s, k) == Some((v as int, k + varint(v).len())),
    decreases v,
{
    lemma2_to64();
    let e = varint(v);
    assert(s.subrange(k as int, (k + e.len()) as int)[0] == s[k as int]);
    if v < 128 {
        assert(e.len() == 1);
    } else {
        let t = varint(v / 128);
        assert(e =~= seq![(v % 128 + 128) as u8] + t);
        assert(k < 9);
        lemma_pow2_adds(7, (64 - 7 * (k + 1)) as nat);
        assert((64 - 7 * k) as nat == 7 + (64 - 7 * (k + 1)) as nat);
        let p = pow2((64 - 7 * (k + 1)) as nat);
        assert(v / 128 < p) by (nonlinear_arith)
            requires
                v < 128 * p,
        ;
        assert forall|j: int| 0 <= j < t.len() implies #[trigger] s.subrange(
            (k + 1) as int,
            (k + 1 + t.len()) as int,
        )[j] == t[j] by {
            assert(s.subrange(k as int, (k + e.len()) as int)[j + 1] == e[j + 1]);
        }
        assert(s.subrange((k + 1) as int, (k + 1 + t.len()) as int) =~= t);
        lemma_leb_varint(s, k + 1, v / 128);
        assert(s[k as int] == (v % 128 + 128) as u8);
        assert((v % 128 + 128) as u8 - 128 + 128 * (v / 128) == v) by (nonlinear_arith);
    }
}

/// A varint at the front of `s` reads back as its value.
proof fn lemma_read_varint(v: nat, rest: Seq<u8>)
    requires
        v < 0x1_0000_0000_0000_0000,
    ensures
        leb_from(varint(v) + rest, 0) == Some((v as int, varint(v).len())),
        varint(v).len() >= 1,
{
    lemma2_to64();
    let s = varint(v) + rest;
    assert(s.subrange(0, varint(v).len() as int) =~= varint(v));
    lemma_leb_varint(s, 0, v);
}

/// A length-delimited field at the front of `s` is read back whole.
proof fn lemma_parse_len_field(number: nat, body: Seq<u8>, rest: Seq<u8>)
    requires
        1 <= number < 0x1000_0000,
        body.len() < 0x1_0000_0000_0000_0000,
    ensures
        parse_field(len_field(number, body) + rest) == Some(
            (number as int, Wire::Bytes(body), len_field(number, body).len() as int),
        ),
{
    let key = number * 8 + 2;
    let s = len_field(number, body) + rest;
    let tail = varint(body.len()) + body + rest;
    assert(s =~= varint(key) + tail);
    lemma_read_varint(key, tail);
    let n = varint(key).len();
    assert(s.skip(n as int) =~= varint(body.len()) + (body + rest));
    lemma_read_varint(body.len(), body + rest);
    let m = varint(body.len()).len();
    assert(key / 8 == number);
    assert(key % 8 == 2);
    assert(s.subrange((n + m) as int, (n + m + body.len()) as int) =~= body);
}

/// An integer field at the front of `s` is read back whole.
proof fn lemma_parse_int_field(number: nat, x: nat, rest: Seq<u8>)
    requires
        1 <= number < 0x1000_0000,
        x < 0x1_0000_0000_0000_0000,
    ensures
        parse_field(varint(number * 8) + varint(x) + rest) == Some(
            (number as int, Wire::Int(x as int), (varint(number * 8) + varint(x)).len() as int),
        ),
{
    let key = number * 8;
    let s = varint(key) + varint(x) + rest;
    assert(s =~= varint(key) + (varint(x) + rest));
    lemma_read_varint(key, varint(x) + rest);
    let n = varint(key).len();
    assert(s.skip(n as int) =~= varint(x) + rest);
    lemma_read_varint(x, rest);
    assert(key / 8 == number);
    assert(key % 8 == 0);
}

/// Reading a body that starts with a string field 1.
proof fn lemma_scan_first(n: Seq<char>, x: Seq<u8>, a: Record, kind: u8)
    requires
        a.first == Seq::<u8>::empty(),
        encode_utf8(n).len() < 0x1_0000_0000_0000_0000,
    ensures
        scan_record(string_field(1, n) + x, a, kind) == scan_record(
            x,
            Record { first: encode_utf8(n), second_bytes: a.second_bytes, second_int: a.second_int },
            kind,
        ),
{
    lemma_encode_utf8_empty(n);
    if n.len() == 0 {
        assert(string_field(1, n) + x =~= x);
        assert(encode_utf8(n) =~= Seq::<u8>::empty());
        assert(a == Record {
            first: encode_utf8(n),
            second_bytes: a.second_bytes,
            second_int: a.second_int,
        });
    } else {
        let f = len_field(1, encode_utf8(n));
        lemma_parse_len_field(1, encode_utf8(n), x);
        assert((f + x).skip(f.len() as int) =~= x);
    }
}

/// Reading the rest of a body that ends with an integer field 2.
proof fn lemma_scan_second_int(c: i32, a: Record)
    requires
        a.second_int == 0,
    ensures
        scan_record(int_field(2, c), a, 1) == Some(
            Record { first: a.first, second_bytes: a.second_bytes, second_int: int_bits(c) as int },
        ),
{
    if c == 0 {
        assert(int_field(2, c) =~= Seq::<u8>::empty());
    } else {
        let f = varint(16) + varint(int_bits(c));
        lemma_parse_int_field(2, int_bits(c), Seq::empty());
        assert(f + Seq::<u8>::empty() =~= f);
        assert(int_field(2, c) == f);
        assert(f.skip(f.len() as int) =~= Seq::<u8>::empty());
        let b = Record {
            first: a.first,
            second_bytes: a.second_bytes,
            second_int: int_bits(c) as int,
        };
        assert(record_step(a, 2, Wire::Int(int_bits(c) as int), 1) == Some(b));
        assert(scan_record(Seq::<u8>::empty(), b, 1) == Some(b));
    }
}

/// Reading the rest of a body that ends with a string field 2.
proof fn lemma_scan_second_string(i: Seq<char>, a: Record)
    requires
        a.second_bytes == Seq::<u8>::empty(),
        encode_utf8(i).len() < 0x1_0000_0000_0000_0000,
    ensures
        scan_record(string_field(2, i), a, 2) == Some(
            Record { first: a.first, second_bytes: encode_utf8(i), second_int: a.second_int },
        ),
{
    lemma_encode_utf8_empty(i);
    if i.len() == 0 {
        assert(string_field(2, i) =~= Seq::<u8>::empty());
        assert(encode_utf8(i) =~= Seq::<u8>::empty());
    } else {
        let f = len_field(2, encode_utf8(i));
        lemma_parse_len_field(2, encode_utf8(i), Seq::empty());
        assert(f + Seq::<u8>::empty() =~= f);
        assert(string_field(2, i) == f);
        assert(f.skip(f.len() as int) =~= Seq::<u8>::empty());
        let b = Record { first: a.first, second_bytes: encode_utf8(i), second_int: a.second_int };
        assert(scan_record(Seq::<u8>::empty(), b, 2) == Some(b));
    }
}

/// A union holding one member reads back as that member.
proof fn lemma_scan_union_one(k: nat, body: Seq<u8>, max: int)
    requires
        1 <= k <= max,
        k < 0x1000_0000,
        body.len() < 0x1_0000_0000_0000_0000,
    ensures
        scan_union(len_field(k, body), None, max) == Some(Some((k as int, body))),
{
    let f = len_field(k, body);
    lemma_parse_len_field(k, body, Seq::empty());
    assert(f + Seq::<u8>::empty() =~= f);
    assert(f.len() > 0);
    assert(f.skip(f.len() as int) =~= Seq::<u8>::empty());
    assert(scan_union(Seq::<u8>::empty(), Some((k as int, body)), max) == Some(
        Some((k as int, body)),
    ));
}

/// The low 32 bits of a sign-extended integer give it back.
proof fn lemma_int32_round_trip(c: i32)
    ensures
        int32_of(int_bits(c) as int) == c,
{
    if c < 0 {
        assert((c + 0x1_0000_0000_0000_0000) % 0x1_0000_0000 == c + 0x1_0000_0000) by (
        nonlinear_arith)
            requires
                -0x8000_0000 <= c < 0,
        ;
    }
}

/// Decoding UTF-8 undoes encoding it.
proof fn lemma_text_round_trip(n: Seq<char>)
    ensures
        text_of(encode_utf8(n)) == Some(n),
{
    vstd::utf8::encode_utf8_valid_utf8(n);
    vstd::utf8::encode_utf8_decode_utf8(n);
}

/// Reading a body that holds only a string field 1.
proof fn lemma_first_only(n: Seq<char>, kind: u8)
    requires
        string_field(1, n).len() < 0x1_0000_0000_0000_0000,
    ensures
        scan_record(string_field(1, n), empty_record(), kind) == Some(
            Record { first: encode_utf8(n), second_bytes: Seq::empty(), second_int: 0 },
        ),
{
    lemma_encode_utf8_empty(n);
    assert(string_field(1, n) + Seq::<u8>::empty() =~= string_field(1, n));
    lemma_scan_first(n, Seq::empty(), empty_record(), kind);
    let b = Record { first: encode_utf8(n), second_bytes: Seq::empty(), second_int: 0 };
    assert(scan_record(Seq::<u8>::empty(), b, kind) == Some(b));
}

/// Each request body reads back as its request.
proof fn lemma_request_body(q: RequestView)
    requires
        request_body_bytes(q).len() < 0x1_0000_0000_0000_0000,
    ensures
        request_of(request_member(q) as int, request_body_bytes(q)) == Some(q),
{
    match q {
        RequestView::Status(n) => {
            lemma_first_only(n, 0);
            lemma_text_round_trip(n);
        },
        RequestView::Info(n) => {
            lemma_first_only(n, 0);
            lemma_text_round_trip(n);
        },
        RequestView::Change(n, c) => {
            lemma_encode_utf8_empty(n);
            lemma_scan_first(n, int_field(2, c), empty_record(), 1);
            let a = Record { first: encode_utf8(n), second_bytes: Seq::empty(), second_int: 0 };
            lemma_scan_second_int(c, a);
            lemma_text_round_trip(n);
            lemma_int32_round_trip(c);
        },
    }
}

/// Each response body reads back as its response.
proof fn lemma_response_body(p: ResponseView)
    requires
        response_body_bytes(p).len() < 0x1_0000_0000_0000_0000,
    ensures
        response_of(response_member(p) as int, response_body_bytes(p)) == Some(p),
{
    match p {
        ResponseView::Error(e) => {
            lemma_first_only(e, 0);
            lemma_text_round_trip(e);
        },
        ResponseView::Status(n, c) => {
            lemma_encode_utf8_empty(n);
            lemma_scan_first(n, int_field(2, c), empty_record(), 1);
            let a = Record { first: encode_utf8(n), second_bytes: Seq::empty(), second_int: 0 };
            lemma_scan_second_int(c, a);
            lemma_text_round_trip(n);
            lemma_int32_round_trip(c);
        },
        ResponseView::Change(n, c) => {
            lemma_encode_utf8_empty(n);
            lemma_scan_first(n, int_field(2, c), empty_record(), 1);
            let a = Record { first: encode_utf8(n), second_bytes: Seq::empty(), second_int: 0 };
            lemma_scan_second_int(c, a);
            lemma_text_round_trip(n);
            lemma_int32_round_trip(c);
        },
        ResponseView::Info(n, i) => {
            lemma_encode_utf8_empty(n);
            lemma_encode_utf8_empty(i);
            lemma_scan_first(n, string_field(2, i), empty_record(), 2);
            let a = Record { first: encode_utf8(n), second_bytes: Seq::empty(), second_int: 0 };
            lemma_scan_second_string(i, a);
            lemma_text_round_trip(n);
            lemma_text_round_trip(i);
        },
    }
}

/// Decoding the encoding of a message gives the message back, for every
/// message whose encoding fits in memory.
pub proof fn lemma_round_trip(m: MessageView)
    requires
        message_bytes(m).len() < 0x1_0000_0000_0000_0000,
    ensures
        decoded(message_bytes(m)) == Some(m),
{
    match m {
        MessageView::Empty => {
            assert(scan_union(Seq::<u8>::empty(), None, 2) == Some(None::<(int, Seq<u8>)>));
        },
        MessageView::Request(q) => {
            let inner = request_bytes(q);
            lemma_scan_union_one(1, inner, 2);
            match q {
                None => {
                    assert(scan_union(Seq::<u8>::empty(), None, 3) == Some(
                        None::<(int, Seq<u8>)>,
                    ));
                },
                Some(x) => {
                    lemma_scan_union_one(request_member(x), request_body_bytes(x), 3);
                    lemma_request_body(x);
                },
            }
        },
        MessageView::Response(p) => {
            let inner = response_bytes(p);
            lemma_scan_union_one(2, inner, 2);
            match p {
                None => {
                    assert(scan_union(Seq::<u8>::empty(), None, 4) == Some(
                        None::<(int, Seq<u8>)>,
                    ));
                },
                Some(x) => {
                    lemma_scan_union_one(response_member(x), response_body_bytes(x), 4);
                    lemma_response_body(x);
                },
            }
        },
    }
}

/// Only the empty string encodes to no bytes.
proof fn lemma_encode_utf8_empty(s: Seq<char>)
    ensures
        (encode_utf8(s).len() == 0) == (s.len() == 0),
{
    if s.len() == 0 {
        assert(encode_utf8(s) =~= Seq::<u8>::empty());
    } else {
        vstd::utf8::encode_utf8_first_scalar(s);
    }
}

} // verus!
