//! The datagram: a snapshot framed as one OSC message.

use vstd::prelude::*;
use vstd::utf8::{decode_utf8, encode_scalar, encode_utf8};
use crate::text::nul_free;

verus! {

/// `count` zero bytes.
pub open spec fn zeros(count: nat) -> Seq<u8> {
    Seq::new(count, |i: int| 0u8)
}

/// How many zero bytes close an OSC string of `len` bytes: at least the
/// terminator, and as many more as bring the whole to a multiple of four.
pub open spec fn padding(len: nat) -> nat {
    (4 - len % 4) as nat
}

/// An OSC string: the bytes, then their terminator and padding.
pub open spec fn osc_string(content: Seq<u8>) -> Seq<u8> {
    content + zeros(padding(content.len()))
}

/// The type tags of a message that carries one string and one boolean:
/// `,sT` where the boolean is true, `,sF` where it is false.
pub open spec fn type_tags(flag: bool) -> Seq<u8> {
    seq![0x2cu8, 0x73u8, if flag { 0x54u8 } else { 0x46u8 }]
}

/// The OSC message to `address` with the arguments `text` and `flag`: the
/// address, the type tags and the text, each as an OSC string. The flag
/// lives in the type tags and takes no bytes of its own.
pub open spec fn osc_message(address: Seq<u8>, text: Seq<u8>, flag: bool) -> Seq<u8> {
    osc_string(address) + osc_string(type_tags(flag)) + osc_string(text)
}

/// The local endpoint that datagrams are sent from.
pub const LOCAL_ENDPOINT: &'static str = "127.0.0.1:9001";

/// The endpoint of the overlay, which datagrams are sent to.
pub const OVERLAY_ENDPOINT: &'static str = "127.0.0.1:9000";

/// Where the overlay listens for chat-box text.
pub open spec fn address() -> Seq<char> {
    "/chatbox/input"@
}

/// The datagram that delivers the snapshot `text`: a message to
/// [`address`] with `text` and the flag `true`, which asks the overlay to
/// show the text at once.
pub open spec fn datagram(text: Seq<char>) -> Seq<u8> {
    osc_message(encode_utf8(address()), encode_utf8(text), true)
}

/// Calls `rosc::encoder::encode_into` on a message packet made of
/// `address` and the two arguments `text` and `flag`, with `out` as the
/// output. As rosc's encoder writes a message, the bytes that it appends are
/// [`osc_message`] of the UTF-8 bytes of the two strings. Writing into a
/// `Vec<u8>` has an error type without values, so there is no failure to
/// hand on.
#[verifier::external_body]
fn encode_message_into(address: &str, text: &str, flag: bool, out: &mut Vec<u8>)
    ensures
        final(out)@ == old(out)@ + osc_message(encode_utf8(address@), encode_utf8(text@), flag),
{
    let message = rosc::OscMessage {
        addr: address.to_string(),
        args: vec![rosc::OscType::String(text.to_string()), rosc::OscType::Bool(flag)],
    };
    match rosc::encoder::encode_into(&rosc::OscPacket::Message(message), out) {
        Ok(_) => {},
        Err(never) => match never {},
    }
}

/// Frames the snapshot `text` for delivery. A receiver reads text without
/// a NUL character back as it was.
pub fn encode_snapshot(text: &str) -> (bytes: Vec<u8>)
    ensures
        bytes@ == datagram(text@),
        nul_free(text@) ==> reads_back(bytes@, text@),
{
    let mut bytes: Vec<u8> = Vec::new();
    encode_message_into("/chatbox/input", text, true, &mut bytes);
    assert(bytes@ =~= datagram(text@));
    proof {
        if nul_free(text@) {
            lemma_round_trip(text@);
        }
    }
    bytes
}

/// What a receiver reads out of a message of one string and one boolean.
pub struct Received {
    pub address: Seq<u8>,
    pub text: Seq<u8>,
    pub flag: bool,
}

/// The bytes in front of the first zero byte.
pub open spec fn until_zero(bytes: Seq<u8>) -> Seq<u8>
    decreases bytes.len(),
{
    if bytes.len() == 0 || bytes[0] == 0 {
        Seq::empty()
    } else {
        seq![bytes[0]] + until_zero(bytes.drop_first())
    }
}

/// Reads one OSC string off the front of `bytes`: its content, and the
/// bytes that follow its padding. `None` where the string and its padding
/// do not fit.
pub open spec fn read_string(bytes: Seq<u8>) -> Option<(Seq<u8>, Seq<u8>)> {
    let content = until_zero(bytes);
    let width = content.len() + padding(content.len());
    if width <= bytes.len() {
        Some((content, bytes.skip(width as int)))
    } else {
        None
    }
}

/// Reads a whole datagram as a message of one string and one boolean:
/// address, type tags and string, with nothing left over.
pub open spec fn decode_message(bytes: Seq<u8>) -> Option<Received> {
    match read_string(bytes) {
        Some((address, after_address)) => match read_string(after_address) {
            Some((tags, after_tags)) => match read_string(after_tags) {
                Some((text, rest)) => if rest.len() == 0 && (tags == type_tags(true) || tags
                    == type_tags(false)) {
                    Some(Received { address, text, flag: tags == type_tags(true) })
                } else {
                    None
                },
                None => None,
            },
            None => None,
        },
        None => None,
    }
}

/// A receiver reads `bytes` as the message that delivers `text`: sent to
/// [`address`], carrying the UTF-8 bytes of `text` and the flag `true`,
/// with nothing left over.
pub open spec fn reads_back(bytes: Seq<u8>, text: Seq<char>) -> bool {
    decode_message(bytes) == Some(
        (Received { address: encode_utf8(address()), text: encode_utf8(text), flag: true }),
    )
}

/// `bytes` holds no zero byte.
pub open spec fn zero_free(bytes: Seq<u8>) -> bool {
    forall|i: int| 0 <= i < bytes.len() ==> bytes[i] != 0
}

/// Every OSC string is non-empty and a multiple of four bytes long.
pub proof fn lemma_string_aligned(content: Seq<u8>)
    ensures
        osc_string(content).len() % 4 == 0,
        content.len() < osc_string(content).len() <= content.len() + 4,
{
}

/// A datagram is a multiple of four bytes long.
pub proof fn lemma_datagram_aligned(text: Seq<char>)
    ensures
        datagram(text).len() % 4 == 0,
{
    lemma_string_aligned(encode_utf8(address()));
    lemma_string_aligned(type_tags(true));
    lemma_string_aligned(encode_utf8(text));
}

/// In front of a zero byte, bytes without a zero are read back whole.
proof fn lemma_until_zero(content: Seq<u8>, rest: Seq<u8>)
    requires
        zero_free(content),
        rest.len() > 0,
        rest[0] == 0,
    ensures
        until_zero(content + rest) == content,
    decreases content.len(),
{
    let all = content + rest;
    if content.len() == 0 {
        assert(all[0] == rest[0]);
    } else {
        assert(all[0] == content[0]);
        assert(all.drop_first() =~= content.drop_first() + rest);
        lemma_until_zero(content.drop_first(), rest);
        assert(seq![content[0]] + content.drop_first() =~= content);
    }
}

/// An OSC string of bytes without a zero is read back as those bytes, and
/// reading stops just behind it.
pub proof fn lemma_read_string(content: Seq<u8>, rest: Seq<u8>)
    requires
        zero_free(content),
    ensures
        read_string(osc_string(content) + rest) == Some((content, rest)),
{
    let fill = zeros(padding(content.len()));
    assert(osc_string(content) + rest =~= content + (fill + rest));
    assert((fill + rest)[0] == fill[0]);
    lemma_until_zero(content, fill + rest);
    assert((osc_string(content) + rest).skip(osc_string(content).len() as int) =~= rest);
}

/// The UTF-8 bytes of one character other than NUL hold no zero byte.
proof fn lemma_scalar_zero_free(c: char)
    requires
        c != '\0',
    ensures
        zero_free(encode_scalar(c as u32)),
{
    let scalar = c as u32;
    assert(scalar != 0);
    if scalar <= 0x7F {
        assert((scalar & 0x7F) as u8 != 0) by (bit_vector)
            requires
                0 < scalar <= 0x7F,
        ;
    }
    assert(0xC0u8 | ((scalar >> 6) & 0x1F) as u8 != 0) by (bit_vector);
    assert(0xE0u8 | ((scalar >> 12) & 0x0F) as u8 != 0) by (bit_vector);
    assert(0xF0u8 | ((scalar >> 18) & 0x7) as u8 != 0) by (bit_vector);
    assert(0x80u8 | (scalar & 0x3F) as u8 != 0) by (bit_vector);
    assert(0x80u8 | ((scalar >> 6) & 0x3F) as u8 != 0) by (bit_vector);
    assert(0x80u8 | ((scalar >> 12) & 0x3F) as u8 != 0) by (bit_vector);
}

/// Text without a NUL character has UTF-8 bytes without a zero byte.
pub proof fn lemma_utf8_zero_free(text: Seq<char>)
    requires
        nul_free(text),
    ensures
        zero_free(encode_utf8(text)),
    decreases text.len(),
{
    if text.len() > 0 {
        lemma_scalar_zero_free(text[0]);
        lemma_utf8_zero_free(text.drop_first());
    }
}

/// Round trip: a receiver that reads the datagram of a snapshot gets back
/// the address, the text as it was, and the flag `true`. The text must
/// hold no NUL character, since an OSC string ends at its first zero byte.
pub proof fn lemma_round_trip(text: Seq<char>)
    requires
        nul_free(text),
    ensures
        reads_back(datagram(text), text),
        decode_utf8(encode_utf8(text)) == text,
        decode_utf8(encode_utf8(address())) == address(),
{
    let to = encode_utf8(address());
    let body = encode_utf8(text);
    let tags = type_tags(true);
    assert(nul_free(address())) by {
        reveal_strlit("/chatbox/input");
    }
    lemma_utf8_zero_free(address());
    lemma_utf8_zero_free(text);
    assert(datagram(text) =~= osc_string(to) + (osc_string(tags) + osc_string(body)));
    lemma_read_string(to, osc_string(tags) + osc_string(body));
    lemma_read_string(tags, osc_string(body));
    assert(osc_string(body) =~= osc_string(body) + Seq::<u8>::empty());
    lemma_read_string(body, Seq::empty());
    assert(tags != type_tags(false)) by {
        assert(tags[2] != type_tags(false)[2]);
    }
    vstd::utf8::encode_utf8_decode_utf8(text);
    vstd::utf8::encode_utf8_decode_utf8(address());
}

} // verus!
