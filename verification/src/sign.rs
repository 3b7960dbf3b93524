//! The credential signer: a time-bound token derived from the session
//! secret, the origin string and the current Unix timestamp.

use sha1::Digest;
use vstd::prelude::*;

verus! {

/// The 20-byte digest that the hash of a message consists of: a function
/// of the message alone.
pub uninterp spec fn sha1_digest_of(msg: Seq<char>) -> Seq<u8>;

/// Relies on sha1::Sha1 (through the Digest trait): the digest is 20
/// bytes and depends on the hashed bytes alone.
#[verifier::external_body]
fn sha1_digest(msg: &str) -> (r: Vec<u8>)
    ensures
        r@ == sha1_digest_of(msg@),
        r@.len() == 20,
{
    let mut hasher = sha1::Sha1::new();
    hasher.update(msg.as_bytes());
    hasher.finalize().to_vec()
}

/// The character of a single decimal digit.
pub open spec fn digit_char(d: nat) -> char
    recommends
        d < 10,
{
    ((d + 48) as u8) as char
}

/// The decimal spelling of `n`, most significant digit first.
pub open spec fn dec_of(n: nat) -> Seq<char>
    decreases n,
{
    if n < 10 {
        seq![digit_char(n)]
    } else {
        dec_of(n / 10).push(digit_char(n % 10))
    }
}

/// The character of a half-byte, lower-case.
pub open spec fn hex_digit(d: nat) -> char
    recommends
        d < 16,
{
    if d < 10 {
        ((d + 48) as u8) as char
    } else {
        ((d + 87) as u8) as char
    }
}

/// The lower-hex spelling of a byte string, two digits per byte.
pub open spec fn hex_of(bytes: Seq<u8>) -> Seq<char>
    decreases bytes,
{
    if bytes.len() == 0 {
        Seq::empty()
    } else {
        seq![hex_digit(bytes[0] as nat / 16), hex_digit(bytes[0] as nat % 16)] + hex_of(
            bytes.drop_first(),
        )
    }
}

/// Whether `c` is a lower-case hexadecimal digit.
pub open spec fn is_hex_char(c: char) -> bool {
    ('0' <= c && c <= '9') || ('a' <= c && c <= 'f')
}

/// Whether `c` is a decimal digit.
pub open spec fn is_dec_char(c: char) -> bool {
    '0' <= c && c <= '9'
}

/// The message whose digest authenticates a request: timestamp, secret
/// and origin, space-separated.
pub open spec fn spec_message(secret: Seq<char>, origin: Seq<char>, ts: nat) -> Seq<char> {
    dec_of(ts) + " "@ + secret + " "@ + origin
}

/// The signature string: the timestamp and the lower-hex digest of the
/// message, joined by an underscore.
pub open spec fn spec_signature(secret: Seq<char>, origin: Seq<char>, ts: nat) -> Seq<char> {
    dec_of(ts) + "_"@ + hex_of(sha1_digest_of(spec_message(secret, origin, ts)))
}

/// Every character of a decimal spelling is a digit, and there is at
/// least one.
pub proof fn lemma_dec_of_shape(n: nat)
    ensures
        dec_of(n).len() >= 1,
        forall|k: int| 0 <= k < dec_of(n).len() ==> is_dec_char(dec_of(n)[k]),
    decreases n,
{
    if n < 10 {
        assert(is_dec_char(digit_char(n)));
        assert(digit_char(n) == dec_of(n)[0]);
    } else {
        lemma_dec_of_shape(n / 10);
        assert(is_dec_char(digit_char(n % 10)));
    }
}

/// A hex spelling holds two hex characters per byte.
pub proof fn lemma_hex_of_shape(bytes: Seq<u8>)
    ensures
        hex_of(bytes).len() == 2 * bytes.len(),
        forall|k: int| 0 <= k < hex_of(bytes).len() ==> is_hex_char(hex_of(bytes)[k]),
    decreases bytes,
{
    if bytes.len() == 0 {
    } else {
        lemma_hex_of_shape(bytes.drop_first());
        assert(is_hex_char(hex_digit(bytes[0] as nat / 16)) && is_hex_char(
            hex_digit(bytes[0] as nat % 16),
        ));
    }
}

/// Appends the decimal spelling of `n`.
fn push_dec(n: u64, out: &mut String)
    ensures
        final(out)@ == old(out)@ + dec_of(n as nat),
    decreases n,
{
    if n < 10 {
        push_char(out, (48 + n as u8) as char);
        assert(final(out)@ =~= old(out)@ + dec_of(n as nat));
    } else {
        push_dec(n / 10, out);
        push_char(out, (48 + (n % 10) as u8) as char);
        assert(final(out)@ =~= old(out)@ + dec_of(n as nat));
    }
}

/// The decimal spelling of `n` on its own.
pub fn u64_to_dec(n: u64) -> (r: String)
    ensures
        r@ == dec_of(n as nat),
{
    let mut out = String::new();
    push_dec(n, &mut out);
    assert(out@ =~= dec_of(n as nat));
    out
}

/// Appends the lower-hex spelling of `bytes[i..]`.
fn push_hex_from(bytes: &Vec<u8>, i: usize, out: &mut String)
    requires
        i <= bytes@.len(),
    ensures
        final(out)@ == old(out)@ + hex_of(bytes@.skip(i as int)),
    decreases bytes@.len() - i,
{
    if i < bytes.len() {
        let b = bytes[i];
        let hi = b / 16;
        let lo = b % 16;
        push_char(out, if hi < 10 { (48 + hi) as char } else { (87 + hi) as char });
        push_char(out, if lo < 10 { (48 + lo) as char } else { (87 + lo) as char });
        push_hex_from(bytes, i + 1, out);
        proof {
            assert(bytes@.skip(i as int)[0] == bytes@[i as int]);
            assert(bytes@.skip(i as int).drop_first() =~= bytes@.skip(i + 1));
            assert(final(out)@ =~= old(out)@ + hex_of(bytes@.skip(i as int)));
        }
    } else {
        assert(bytes@.skip(i as int) =~= Seq::<u8>::empty());
        assert(final(out)@ =~= old(out)@ + hex_of(bytes@.skip(i as int)));
    }
}

/// Relies on String::push: appends exactly the one character.
#[verifier::external_body]
fn push_char(s: &mut String, c: char)
    ensures
        final(s)@ == old(s)@.push(c),
{
    s.push(c);
}

/// Signs a request: `<timestamp>_<hex digest>` over the message
/// `<timestamp> <secret> <origin>`. A pure function of its three inputs;
/// the digest part is 40 lower-hex characters.
pub fn sign(secret: &str, origin: &str, timestamp: u64) -> (r: String)
    ensures
        r@ == spec_signature(secret@, origin@, timestamp as nat),
        r@.len() == dec_of(timestamp as nat).len() + 41,
        forall|k: int|
            dec_of(timestamp as nat).len() + 1 <= k < r@.len() ==> is_hex_char(r@[k]),
{
    let mut msg = u64_to_dec(timestamp);
    msg.append(" ");
    msg.append(secret);
    msg.append(" ");
    msg.append(origin);
    assert(msg@ == spec_message(secret@, origin@, timestamp as nat));
    let digest = sha1_digest(msg.as_str());
    let mut out = u64_to_dec(timestamp);
    out.append("_");
    assert(digest@.skip(0) =~= digest@);
    push_hex_from(&digest, 0, &mut out);
    proof {
        reveal_strlit("_");
        lemma_hex_of_shape(digest@);
        lemma_dec_of_shape(timestamp as nat);
        assert(out@ == spec_signature(secret@, origin@, timestamp as nat));
        assert forall|k: int|
            dec_of(timestamp as nat).len() + 1 <= k < out@.len() implies is_hex_char(
            out@[k],
        ) by {
            let hex = hex_of(digest@);
            assert(out@[k] == hex[k - (dec_of(timestamp as nat).len() + 1)]);
        }
    }
    out
}

} // verus!
