//! The canonical bytes of a request: what a client signs and a server checks.
//!
//! Every field is written with its length in front of it, under a domain-separation
//! tag, so that a byte cannot move from one field to the next unnoticed.

use vstd::arithmetic::power::pow;
use vstd::prelude::*;
use vstd::utf8::{encode_utf8, encode_utf8_decode_utf8, is_ascii_chars_encode_utf8};

verus! {

/// Domain-separation tag mixed into every canonical request. Bumping this version
/// hard-invalidates signatures built by older clients.
pub const DOMAIN_TAG: &'static str = "wyrtloom-client-auth-v1";

/// The low 32 bits of `n` as four bytes, the most significant first.
pub open spec fn be32(n: nat) -> Seq<u8> {
    seq![
        (n / 0x100_0000 % 0x100) as u8,
        (n / 0x1_0000 % 0x100) as u8,
        (n / 0x100 % 0x100) as u8,
        (n % 0x100) as u8,
    ]
}

/// A field behind its length prefix.
pub open spec fn prefixed(field: Seq<u8>) -> Seq<u8> {
    be32(field.len()) + field
}

/// The decimal digits of `n` in ASCII, without leading zeros.
pub open spec fn decimal_digits(n: nat) -> Seq<u8>
    decreases n,
{
    if n < 10 {
        seq![(0x30 + n) as u8]
    } else {
        decimal_digits(n / 10).push((0x30 + n % 10) as u8)
    }
}

/// A number in decimal ASCII: a minus sign in front of a negative one, no plus sign.
pub open spec fn decimal(n: int) -> Seq<u8> {
    if n < 0 {
        seq![0x2du8] + decimal_digits((-n) as nat)
    } else {
        decimal_digits(n as nat)
    }
}

/// The fields of a request that its canonical bytes hold.
pub struct RequestFields {
    pub method: Seq<char>,
    pub path: Seq<char>,
    pub body_sha256: Seq<u8>,
    pub client_id: Seq<char>,
    pub timestamp: i64,
    pub nonce: Seq<char>,
}

/// The canonical bytes of a request: the tag, and then each field behind its length.
pub open spec fn canonical_bytes(r: RequestFields) -> Seq<u8> {
    encode_utf8(DOMAIN_TAG@) + prefixed(encode_utf8(r.method)) + prefixed(
        encode_utf8(r.path),
    ) + prefixed(r.body_sha256) + prefixed(encode_utf8(r.client_id)) + prefixed(
        decimal(r.timestamp as int),
    ) + prefixed(encode_utf8(r.nonce))
}

/// Appends a field behind its length, which is written in four bytes, the most
/// significant first. Of a length that needs more, only the low 32 bits are written.
pub fn push_field(buf: &mut Vec<u8>, field: &[u8])
    ensures
        final(buf)@ == old(buf)@ + prefixed(field@),
{
    let n: usize = field.len();
    buf.push((n / 0x100_0000 % 0x100) as u8);
    buf.push((n / 0x1_0000 % 0x100) as u8);
    buf.push((n / 0x100 % 0x100) as u8);
    buf.push((n % 0x100) as u8);
    buf.extend_from_slice(field);
    assert(buf@ =~= old(buf)@ + prefixed(field@));
}

/// Appends the decimal digits of `n`.
fn push_digits(out: &mut Vec<u8>, n: u64)
    ensures
        final(out)@ == old(out)@ + decimal_digits(n as nat),
    decreases n,
{
    if n >= 10 {
        push_digits(out, n / 10);
    }
    out.push((0x30 + n % 10) as u8);
    assert(out@ =~= old(out)@ + decimal_digits(n as nat));
}

/// A timestamp in decimal ASCII.
pub fn timestamp_ascii(timestamp: i64) -> (text: Vec<u8>)
    ensures
        text@ == decimal(timestamp as int),
{
    let mut out: Vec<u8> = Vec::new();
    if timestamp < 0 {
        out.push(0x2d);
        push_digits(&mut out, (-(timestamp as i128)) as u64);
    } else {
        push_digits(&mut out, timestamp as u64);
    }
    assert(out@ =~= decimal(timestamp as int));
    out
}

/// Builds the canonical, signed request bytes. Every field is length-prefixed (a 4-byte
/// big-endian length in front of its bytes) under the [`DOMAIN_TAG`], so clients and the
/// server derive identical bytes.
///
/// Layout: `DOMAIN_TAG || lp(method) || lp(path) || lp(body_sha256) || lp(client_id)
/// || lp(timestamp_ascii) || lp(nonce)`.
pub fn canonicalize(
    method: &str,
    path: &str,
    body_sha256: &[u8],
    client_id: &str,
    timestamp: i64,
    nonce: &str,
) -> (out: Vec<u8>)
    ensures
        out@ == canonical_bytes(
            (RequestFields {
                method: method@,
                path: path@,
                body_sha256: body_sha256@,
                client_id: client_id@,
                timestamp,
                nonce: nonce@,
            }),
        ),
{
    let mut out: Vec<u8> = Vec::new();
    out.extend_from_slice(DOMAIN_TAG.as_bytes());
    push_field(&mut out, method.as_bytes());
    push_field(&mut out, path.as_bytes());
    push_field(&mut out, body_sha256);
    push_field(&mut out, client_id.as_bytes());
    push_field(&mut out, timestamp_ascii(timestamp).as_slice());
    push_field(&mut out, nonce.as_bytes());
    assert(out@ =~= canonical_bytes(
        RequestFields {
            method: method@,
            path: path@,
            body_sha256: body_sha256@,
            client_id: client_id@,
            timestamp,
            nonce: nonce@,
        },
    ));
    out
}

/// A length prefix is four bytes, which read as a number in base 256, the most significant
/// first, are the low 32 bits of the length.
pub proof fn be32_value(n: nat)
    ensures
        be32(n).len() == 4,
        n % 0x1_0000_0000 == 0x100_0000 * be32(n)[0] + 0x1_0000 * be32(n)[1] + 0x100 * be32(n)[2]
            + be32(n)[3],
{
    assert(n % 0x1_0000_0000 == 0x100_0000 * (n / 0x100_0000 % 0x100) + n % 0x100_0000);
    assert(n % 0x100_0000 == 0x1_0000 * (n / 0x1_0000 % 0x100) + n % 0x1_0000);
    assert(n % 0x1_0000 == 0x100 * (n / 0x100 % 0x100) + n % 0x100);
}

/// A length-prefixed field at the front of some bytes is told apart from what follows it.
#[verifier::spinoff_prover]
proof fn prefixed_splits(a: Seq<u8>, b: Seq<u8>, rest_a: Seq<u8>, rest_b: Seq<u8>)
    requires
        prefixed(a) + rest_a == prefixed(b) + rest_b,
        -0x1_0000_0000 < a.len() - b.len() < 0x1_0000_0000,
    ensures
        a == b,
        rest_a == rest_b,
{
    let left = prefixed(a) + rest_a;
    let right = prefixed(b) + rest_b;
    assert(be32(a.len()) =~= left.take(4));
    assert(be32(b.len()) =~= right.take(4));
    be32_value(a.len());
    be32_value(b.len());
    assert(a.len() == b.len());
    assert(a =~= left.subrange(4, 4 + a.len() as int));
    assert(b =~= right.subrange(4, 4 + a.len() as int));
    assert(rest_a =~= left.skip(4 + a.len() as int));
    assert(rest_b =~= right.skip(4 + a.len() as int));
}

/// Decimal text is made of digits only, and there is at least one.
proof fn decimal_digits_are_digits(n: nat)
    ensures
        decimal_digits(n).len() >= 1,
        forall|i: int|
            0 <= i < decimal_digits(n).len() ==> 0x30 <= #[trigger] decimal_digits(n)[i] <= 0x39,
    decreases n,
{
    if n >= 10 {
        decimal_digits_are_digits(n / 10);
    }
}

/// Different numbers have different decimal digits.
proof fn decimal_digits_injective(n: nat, m: nat)
    requires
        decimal_digits(n) == decimal_digits(m),
    ensures
        n == m,
    decreases n,
{
    decimal_digits_are_digits(n / 10);
    decimal_digits_are_digits(m / 10);
    assert(decimal_digits(n).last() == (0x30 + n % 10) as u8);
    assert(decimal_digits(m).last() == (0x30 + m % 10) as u8);
    if n >= 10 && m >= 10 {
        assert(decimal_digits(n / 10) =~= decimal_digits(n).drop_last());
        assert(decimal_digits(m / 10) =~= decimal_digits(m).drop_last());
        decimal_digits_injective(n / 10, m / 10);
    }
}

/// Different timestamps have different texts.
pub proof fn decimal_injective(n: int, m: int)
    requires
        decimal(n) == decimal(m),
    ensures
        n == m,
{
    let a = if n < 0 {
        (-n) as nat
    } else {
        n as nat
    };
    let b = if m < 0 {
        (-m) as nat
    } else {
        m as nat
    };
    decimal_digits_are_digits(a);
    decimal_digits_are_digits(b);
    assert(decimal(n)[0] == decimal(m)[0]);
    assert(decimal_digits(a)[0] >= 0x30 && decimal_digits(b)[0] >= 0x30);
    if n < 0 {
        assert(decimal_digits(a) =~= decimal(n).skip(1));
        assert(decimal_digits(b) =~= decimal(m).skip(1));
    }
    decimal_digits_injective(a, b);
}

/// Digits read in base ten, the most significant first, give the number back. There is no
/// leading zero.
proof fn decimal_digits_value(n: nat)
    ensures
        decimal_digits(n).fold_left(0int, |value: int, digit: u8| 10 * value + (digit - 0x30)) == n,
        decimal_digits(n)[0] == 0x30 ==> n == 0 && decimal_digits(n).len() == 1,
    decreases n,
{
    let read = |value: int, digit: u8| 10 * value + (digit - 0x30);
    let digits = decimal_digits(n);
    decimal_digits_are_digits(n);
    if n < 10 {
        assert(digits.drop_last() =~= Seq::<u8>::empty());
        assert(digits.drop_last().fold_left(0int, read) == 0);
    } else {
        decimal_digits_value(n / 10);
        decimal_digits_are_digits(n / 10);
        assert(digits.drop_last() =~= decimal_digits(n / 10));
        assert(digits[0] == decimal_digits(n / 10)[0]);
    }
    assert(digits.fold_left(0int, read) == read(
        digits.drop_last().fold_left(0int, read),
        digits.last(),
    ));
}

/// The text of a number has the value of the number: of one that is not negative, the whole
/// text is digits, which read in base ten, the most significant first, give the number. Of
/// a negative one, a minus sign stands in front of digits that give its absolute value.
/// There are no other characters and no leading zeros.
pub proof fn decimal_value(n: int)
    ensures
        n >= 0 ==> decimal(n).fold_left(
            0int,
            |value: int, digit: u8| 10 * value + (digit - 0x30),
        ) == n,
        n < 0 ==> decimal(n)[0] == 0x2d && decimal(n).skip(1).fold_left(
            0int,
            |value: int, digit: u8| 10 * value + (digit - 0x30),
        ) == -n,
        decimal(n).len() >= 1,
        forall|i: int|
            (if n < 0 {
                1int
            } else {
                0int
            }) <= i < decimal(n).len() ==> 0x30 <= #[trigger] decimal(n)[i] <= 0x39,
        n > 0 ==> decimal(n)[0] != 0x30,
        n < 0 ==> decimal(n).len() >= 2 && decimal(n)[1] != 0x30,
        n == 0 ==> decimal(n) == seq![0x30u8],
{
    let a = if n < 0 {
        (-n) as nat
    } else {
        n as nat
    };
    decimal_digits_value(a);
    decimal_digits_are_digits(a);
    if n < 0 {
        assert(decimal(n).skip(1) =~= decimal_digits(a));
    }
}

/// A number below a power of ten has no more digits than the exponent.
proof fn decimal_digits_short(n: nat, k: nat)
    requires
        k >= 1,
        n < pow(10, k),
    ensures
        decimal_digits(n).len() <= k,
    decreases k,
{
    reveal_with_fuel(pow, 2);
    if n >= 10 {
        decimal_digits_short(n / 10, (k - 1) as nat);
    }
}

/// The text of a 64-bit timestamp is at most twenty bytes long.
pub proof fn decimal_short(n: i64)
    ensures
        1 <= decimal(n as int).len() <= 20,
{
    let a = if n < 0 {
        (-n) as nat
    } else {
        n as nat
    };
    assert(a < pow(10, 19)) by {
        reveal_with_fuel(pow, 20);
    }
    decimal_digits_short(a, 19);
    decimal_digits_are_digits(a);
}

/// Whether two lengths can be told apart by their 32-bit prefixes: they differ by less
/// than four gibibytes, as do any two lengths below that.
pub open spec fn comparable(a: Seq<u8>, b: Seq<u8>) -> bool {
    -0x1_0000_0000 < a.len() - b.len() < 0x1_0000_0000
}

/// Different texts have different UTF-8 bytes.
pub proof fn encode_utf8_injective(a: Seq<char>, b: Seq<char>)
    requires
        encode_utf8(a) == encode_utf8(b),
    ensures
        a == b,
{
    encode_utf8_decode_utf8(a);
    encode_utf8_decode_utf8(b);
}

/// What follows the method in the canonical bytes.
spec fn after_method(r: RequestFields) -> Seq<u8> {
    prefixed(encode_utf8(r.path)) + after_path(r)
}

/// What follows the path.
spec fn after_path(r: RequestFields) -> Seq<u8> {
    prefixed(r.body_sha256) + after_body(r)
}

/// What follows the body digest.
spec fn after_body(r: RequestFields) -> Seq<u8> {
    prefixed(encode_utf8(r.client_id)) + after_client(r)
}

/// What follows the client id.
spec fn after_client(r: RequestFields) -> Seq<u8> {
    prefixed(decimal(r.timestamp as int)) + prefixed(encode_utf8(r.nonce))
}

/// The canonical bytes as nested pairs of a field and what follows it.
proof fn canonical_bytes_nested(r: RequestFields)
    ensures
        canonical_bytes(r) == encode_utf8(DOMAIN_TAG@) + (prefixed(encode_utf8(r.method))
            + after_method(r)),
{
    let tag = encode_utf8(DOMAIN_TAG@);
    let method = prefixed(encode_utf8(r.method));
    let path = prefixed(encode_utf8(r.path));
    let body = prefixed(r.body_sha256);
    let client = prefixed(encode_utf8(r.client_id));
    let timestamp = prefixed(decimal(r.timestamp as int));
    let nonce = prefixed(encode_utf8(r.nonce));
    regroup(tag, method, path, body, client, timestamp, nonce);
}

/// Concatenation groups either way.
proof fn regroup(
    a: Seq<u8>,
    b: Seq<u8>,
    c: Seq<u8>,
    d: Seq<u8>,
    e: Seq<u8>,
    f: Seq<u8>,
    g: Seq<u8>,
)
    ensures
        a + b + c + d + e + f + g == a + (b + (c + (d + (e + (f + g))))),
{
    assert(a + b + c + d + e + f + g =~= a + (b + (c + (d + (e + (f + g))))));
}

/// Concatenation groups around any of its parts.
#[verifier::spinoff_prover]
proof fn regroup_around(
    a: Seq<u8>,
    b: Seq<u8>,
    c: Seq<u8>,
    d: Seq<u8>,
    e: Seq<u8>,
    f: Seq<u8>,
    g: Seq<u8>,
)
    ensures
        ({
            let all = a + b + c + d + e + f + g;
            &&& all == a + b + (c + (d + (e + (f + g))))
            &&& all == a + b + c + (d + (e + (f + g)))
            &&& all == a + b + c + d + (e + (f + g))
            &&& all == a + b + c + d + e + (f + g)
            &&& all == all + Seq::empty()
        }),
{
    let all = a + b + c + d + e + f + g;
    assert(all =~= a + b + c + d + e + (f + g));
    assert(a + b + c + d + e + (f + g) =~= a + b + c + d + (e + (f + g)));
    assert(a + b + c + d + (e + (f + g)) =~= a + b + c + (d + (e + (f + g))));
    assert(a + b + c + (d + (e + (f + g))) =~= a + b + (c + (d + (e + (f + g)))));
    assert(all =~= all + Seq::empty());
}

/// What follows the client id tells the timestamp and the nonce.
#[verifier::spinoff_prover]
proof fn after_client_injective(a: RequestFields, b: RequestFields)
    requires
        after_client(a) == after_client(b),
    ensures
        a.timestamp == b.timestamp,
        a.nonce == b.nonce,
{
    let nonce_a = prefixed(encode_utf8(a.nonce));
    let nonce_b = prefixed(encode_utf8(b.nonce));
    decimal_short(a.timestamp);
    decimal_short(b.timestamp);
    prefixed_splits(decimal(a.timestamp as int), decimal(b.timestamp as int), nonce_a, nonce_b);
    decimal_injective(a.timestamp as int, b.timestamp as int);
    prefixed_layout(encode_utf8(a.nonce));
    prefixed_layout(encode_utf8(b.nonce));
    encode_utf8_injective(a.nonce, b.nonce);
}

/// What follows the path tells the body digest, the client id and what follows it.
#[verifier::spinoff_prover]
proof fn after_path_injective(a: RequestFields, b: RequestFields)
    requires
        after_path(a) == after_path(b),
        comparable(a.body_sha256, b.body_sha256),
        comparable(encode_utf8(a.client_id), encode_utf8(b.client_id)),
    ensures
        a.body_sha256 == b.body_sha256,
        a.client_id == b.client_id,
        after_client(a) == after_client(b),
{
    prefixed_splits(a.body_sha256, b.body_sha256, after_body(a), after_body(b));
    prefixed_splits(
        encode_utf8(a.client_id),
        encode_utf8(b.client_id),
        after_client(a),
        after_client(b),
    );
    encode_utf8_injective(a.client_id, b.client_id);
}

/// What follows the tag tells the method, the path and what follows it.
#[verifier::spinoff_prover]
proof fn after_tag_injective(a: RequestFields, b: RequestFields)
    requires
        prefixed(encode_utf8(a.method)) + after_method(a) == prefixed(encode_utf8(b.method))
            + after_method(b),
        comparable(encode_utf8(a.method), encode_utf8(b.method)),
        comparable(encode_utf8(a.path), encode_utf8(b.path)),
    ensures
        a.method == b.method,
        a.path == b.path,
        after_path(a) == after_path(b),
{
    prefixed_splits(
        encode_utf8(a.method),
        encode_utf8(b.method),
        after_method(a),
        after_method(b),
    );
    prefixed_splits(encode_utf8(a.path), encode_utf8(b.path), after_path(a), after_path(b));
    encode_utf8_injective(a.method, b.method);
    encode_utf8_injective(a.path, b.path);
}

/// Field-boundary confusion is impossible: two requests with the same canonical bytes
/// agree in every field. The last field, the nonce, may be of any length; of the others
/// the lengths have to be within the reach of their prefixes.
#[verifier::spinoff_prover]
pub proof fn canonical_bytes_injective(a: RequestFields, b: RequestFields)
    requires
        canonical_bytes(a) == canonical_bytes(b),
        comparable(encode_utf8(a.method), encode_utf8(b.method)),
        comparable(encode_utf8(a.path), encode_utf8(b.path)),
        comparable(a.body_sha256, b.body_sha256),
        comparable(encode_utf8(a.client_id), encode_utf8(b.client_id)),
    ensures
        a == b,
{
    let tag = encode_utf8(DOMAIN_TAG@);
    let rest_a = prefixed(encode_utf8(a.method)) + after_method(a);
    let rest_b = prefixed(encode_utf8(b.method)) + after_method(b);
    canonical_bytes_nested(a);
    canonical_bytes_nested(b);
    assert(rest_a =~= (tag + rest_a).skip(tag.len() as int));
    assert(rest_b =~= (tag + rest_b).skip(tag.len() as int));
    after_tag_injective(a, b);
    after_path_injective(a, b);
    after_client_injective(a, b);
}

/// Every canonical request starts with the 23 bytes of the domain tag, and is as long as
/// the tag, its six fields and a four-byte length for each of them.
pub proof fn canonical_bytes_tagged(r: RequestFields)
    ensures
        encode_utf8(DOMAIN_TAG@).len() == 23,
        encode_utf8(DOMAIN_TAG@).is_prefix_of(canonical_bytes(r)),
        canonical_bytes(r).len() == 23 + 6 * 4 + encode_utf8(r.method).len() + encode_utf8(
            r.path,
        ).len() + r.body_sha256.len() + encode_utf8(r.client_id).len() + decimal(
            r.timestamp as int,
        ).len() + encode_utf8(r.nonce).len(),
{
    canonical_bytes_nested(r);
    reveal_strlit("wyrtloom-client-auth-v1");
    is_ascii_chars_encode_utf8(DOMAIN_TAG@);
}

/// A field behind its length: four bytes that spell its length out, and then the field.
pub proof fn prefixed_layout(field: Seq<u8>)
    ensures
        prefixed(field).len() == 4 + field.len(),
        field.len() % 0x1_0000_0000 == 0x100_0000 * prefixed(field)[0] + 0x1_0000 * prefixed(
            field,
        )[1] + 0x100 * prefixed(field)[2] + prefixed(field)[3],
        prefixed(field).skip(4) == field,
{
    be32_value(field.len());
    assert(prefixed(field).skip(4) =~= field);
}

/// A field in the middle of some bytes, behind its length.
#[verifier::spinoff_prover]
proof fn field_stands(front: Seq<u8>, field: Seq<u8>, back: Seq<u8>)
    ensures
        ({
            let bytes = front + prefixed(field) + back;
            let o = front.len() as int;
            &&& bytes.len() >= o + 4 + field.len()
            &&& field.len() % 0x1_0000_0000 == 0x100_0000 * bytes[o] + 0x1_0000 * bytes[o + 1]
                + 0x100 * bytes[o + 2] + bytes[o + 3]
            &&& bytes.subrange(o + 4, o + 4 + field.len()) == field
        }),
{
    let bytes = front + prefixed(field) + back;
    let o = front.len() as int;
    prefixed_layout(field);
    assert(bytes[o] == prefixed(field)[0]);
    assert(bytes[o + 1] == prefixed(field)[1]);
    assert(bytes[o + 2] == prefixed(field)[2]);
    assert(bytes[o + 3] == prefixed(field)[3]);
    assert(bytes.subrange(o + 4, o + 4 + field.len()) =~= prefixed(field).skip(4));
}

/// The layout of a canonical request, from front to back: the tag, and then method, path,
/// body digest, client id, timestamp text and nonce, each behind four bytes that spell its
/// length out. There is nothing else in it.
#[verifier::spinoff_prover]
pub proof fn canonical_bytes_layout(r: RequestFields)
    ensures
        ({
            let bytes = canonical_bytes(r);
            let spelled = |o: int|
                0x100_0000 * bytes[o] + 0x1_0000 * bytes[o + 1] + 0x100 * bytes[o + 2] + bytes[o
                    + 3];
            let method = encode_utf8(r.method);
            let path = encode_utf8(r.path);
            let body = r.body_sha256;
            let client = encode_utf8(r.client_id);
            let timestamp = decimal(r.timestamp as int);
            let nonce = encode_utf8(r.nonce);
            let o1 = 23int;
            let o2 = o1 + 4 + method.len();
            let o3 = o2 + 4 + path.len();
            let o4 = o3 + 4 + body.len();
            let o5 = o4 + 4 + client.len();
            let o6 = o5 + 4 + timestamp.len();
            &&& bytes.take(23) == encode_utf8("wyrtloom-client-auth-v1"@)
            &&& spelled(o1) == method.len() % 0x1_0000_0000
            &&& bytes.subrange(o1 + 4, o2) == method
            &&& spelled(o2) == path.len() % 0x1_0000_0000
            &&& bytes.subrange(o2 + 4, o3) == path
            &&& spelled(o3) == body.len() % 0x1_0000_0000
            &&& bytes.subrange(o3 + 4, o4) == body
            &&& spelled(o4) == client.len() % 0x1_0000_0000
            &&& bytes.subrange(o4 + 4, o5) == client
            &&& spelled(o5) == timestamp.len() % 0x1_0000_0000
            &&& bytes.subrange(o5 + 4, o6) == timestamp
            &&& spelled(o6) == nonce.len() % 0x1_0000_0000
            &&& bytes.skip(o6 + 4) == nonce
            &&& bytes.len() == o6 + 4 + nonce.len()
        }),
{
    let bytes = canonical_bytes(r);
    let tag = encode_utf8(DOMAIN_TAG@);
    let method = prefixed(encode_utf8(r.method));
    let path = prefixed(encode_utf8(r.path));
    let body = prefixed(r.body_sha256);
    let client = prefixed(encode_utf8(r.client_id));
    let timestamp = prefixed(decimal(r.timestamp as int));
    let nonce = prefixed(encode_utf8(r.nonce));
    let f2 = tag + method;
    let f3 = f2 + path;
    let f4 = f3 + body;
    let f5 = f4 + client;
    let f6 = f5 + timestamp;
    canonical_bytes_tagged(r);
    prefixed_layout(encode_utf8(r.method));
    prefixed_layout(encode_utf8(r.path));
    prefixed_layout(r.body_sha256);
    prefixed_layout(encode_utf8(r.client_id));
    prefixed_layout(decimal(r.timestamp as int));
    prefixed_layout(encode_utf8(r.nonce));
    regroup_around(tag, method, path, body, client, timestamp, nonce);
    assert(bytes.take(23) =~= tag);
    field_stands(tag, encode_utf8(r.method), path + (body + (client + (timestamp + nonce))));
    field_stands(f2, encode_utf8(r.path), body + (client + (timestamp + nonce)));
    field_stands(f3, r.body_sha256, client + (timestamp + nonce));
    field_stands(f4, encode_utf8(r.client_id), timestamp + nonce);
    field_stands(f5, decimal(r.timestamp as int), nonce);
    field_stands(f6, encode_utf8(r.nonce), Seq::empty());
    let o6 = f6.len() as int;
    assert(bytes.skip(o6 + 4) =~= bytes.subrange(
        o6 + 4,
        o6 + 4 + encode_utf8(r.nonce).len(),
    ));
}

} // verus!
