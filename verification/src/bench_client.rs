//! The benchmark client: the request datagrams it sends, the mapping from
//! typed commands to those datagrams, and its framing codecs.

use crate::addr::PeerAddr;
use crate::definitions::{MSG_WORLD, SR_ACK, SR_CALLBACK_UPDATE, SR_FUNCREP, SR_PROPERTYREP,
    SR_REGISTER, SR_RPC, SR_TIME};
use crate::wire::{le32, push_u32};
use vstd::prelude::*;
use vstd::slice::slice_to_vec;
use vstd::utf8::{decode_utf8, valid_utf8};

verus! {

/// The close route as the benchmark client numbers it.
pub const CLIENT_SR_CLOSED: u8 = 8;

/// The id the benchmark client registers with.
pub const BENCH_CLIENT_ID: u32 = 151;

/// The registration request: world channel, register route, four zero bytes,
/// then the client id little-endian and two zero bytes.
pub open spec fn register_request() -> Seq<u8> {
    seq![MSG_WORLD, SR_REGISTER, 0u8, 0u8, 0u8, 0u8] + le32(BENCH_CLIENT_ID) + seq![0u8, 0u8]
}

/// A six-byte request for `route`: world channel, route, four zero bytes.
pub open spec fn short_request(route: u8) -> Seq<u8> {
    seq![MSG_WORLD, route, 0u8, 0u8, 0u8, 0u8]
}

/// The six-byte request for `route`.
fn short(route: u8) -> (out: Vec<u8>)
    ensures
        out@ == short_request(route),
{
    let out = vec![MSG_WORLD, route, 0u8, 0u8, 0u8, 0u8];
    assert(out@ =~= short_request(route));
    out
}

/// The registration request.
pub fn register() -> (out: Vec<u8>)
    ensures
        out@ == register_request(),
{
    let mut out = vec![MSG_WORLD, SR_REGISTER, 0u8, 0u8, 0u8, 0u8];
    push_u32(&mut out, BENCH_CLIENT_ID);
    out.push(0u8);
    out.push(0u8);
    assert(out@ =~= register_request());
    out
}

/// The property replication request.
pub fn sr_property() -> (out: Vec<u8>)
    ensures
        out@ == short_request(SR_PROPERTYREP),
{
    short(SR_PROPERTYREP)
}

/// The time request.
pub fn sr_time() -> (out: Vec<u8>)
    ensures
        out@ == short_request(SR_TIME),
{
    short(SR_TIME)
}

/// The acknowledgement.
pub fn sr_ack() -> (out: Vec<u8>)
    ensures
        out@ == short_request(SR_ACK),
{
    short(SR_ACK)
}

/// The callback update.
pub fn sr_callback() -> (out: Vec<u8>)
    ensures
        out@ == short_request(SR_CALLBACK_UPDATE),
{
    short(SR_CALLBACK_UPDATE)
}

/// The remote procedure call.
pub fn sr_rpc() -> (out: Vec<u8>)
    ensures
        out@ == short_request(SR_RPC),
{
    short(SR_RPC)
}

/// The function replication request.
pub fn sr_func() -> (out: Vec<u8>)
    ensures
        out@ == short_request(SR_FUNCREP),
{
    short(SR_FUNCREP)
}

/// The close request: the world channel and the close route only.
pub fn sr_close() -> (out: Vec<u8>)
    ensures
        out@ == seq![MSG_WORLD, CLIENT_SR_CLOSED],
{
    let out = vec![MSG_WORLD, CLIENT_SR_CLOSED];
    assert(out@ =~= seq![MSG_WORLD, CLIENT_SR_CLOSED]);
    out
}

/// Whether `c` has the Unicode White_Space property: tab, line feed, line
/// tabulation, form feed, carriage return, space, next line, no-break space,
/// ogham space mark, the spaces from en quad to hair space, line separator,
/// paragraph separator, narrow no-break space, medium mathematical space and
/// ideographic space.
pub open spec fn is_white_space(c: char) -> bool {
    ('\u{9}' <= c && c <= '\u{d}') || c == ' ' || c == '\u{85}' || c == '\u{a0}' || c == '\u{1680}'
        || ('\u{2000}' <= c && c <= '\u{200a}') || c == '\u{2028}' || c == '\u{2029}' || c
        == '\u{202f}' || c == '\u{205f}' || c == '\u{3000}'
}

/// `s` without its leading white space.
pub open spec fn trim_front(s: Seq<char>) -> Seq<char>
    decreases s.len(),
{
    if s.len() > 0 && is_white_space(s[0]) {
        trim_front(s.drop_first())
    } else {
        s
    }
}

/// `s` without its trailing white space.
pub open spec fn trim_back(s: Seq<char>) -> Seq<char>
    decreases s.len(),
{
    if s.len() > 0 && is_white_space(s.last()) {
        trim_back(s.drop_last())
    } else {
        s
    }
}

/// `s` without its leading and trailing white space.
pub open spec fn spec_trim(s: Seq<char>) -> Seq<char> {
    trim_back(trim_front(s))
}

/// `String::from_utf8` on bytes that are valid UTF-8: the string of the
/// characters they encode.
#[verifier::external_body]
fn utf8_string(bytes: Vec<u8>) -> (s: String)
    requires
        valid_utf8(bytes@),
    ensures
        s@ == decode_utf8(bytes@),
{
    String::from_utf8(bytes).unwrap()
}

/// `str::trim`: `s` without its leading and trailing whitespace, where
/// whitespace is what has the Unicode White_Space property (`spec_trim`).
#[verifier::external_body]
fn trim(s: &str) -> (t: &str)
    ensures
        t@ == spec_trim(s@),
{
    s.trim()
}

/// The datagram a typed command sends: for the words register, property,
/// ack, func, callback, time, rpc and close, the matching request; for
/// anything else, the typed bytes themselves.
pub open spec fn command_bytes(word: Seq<char>, raw: Seq<u8>) -> Seq<u8> {
    if word == "register"@ {
        register_request()
    } else if word == "property"@ {
        short_request(SR_PROPERTYREP)
    } else if word == "ack"@ {
        short_request(SR_ACK)
    } else if word == "func"@ {
        short_request(SR_FUNCREP)
    } else if word == "callback"@ {
        short_request(SR_CALLBACK_UPDATE)
    } else if word == "time"@ {
        short_request(SR_TIME)
    } else if word == "rpc"@ {
        short_request(SR_RPC)
    } else if word == "close"@ {
        seq![MSG_WORLD, CLIENT_SR_CLOSED]
    } else {
        raw
    }
}

/// Whether `word` is the literal `lit`.
fn is_word(word: &String, lit: &str) -> (b: bool)
    ensures
        b == (word@ == lit@),
{
    *word == String::from_str(lit)
}

/// The datagram for the command `word` (already trimmed), typed as the
/// bytes `raw`; see `command_bytes`.
pub fn command_for_word(word: &String, raw: Vec<u8>) -> (out: Vec<u8>)
    ensures
        out@ == command_bytes(word@, raw@),
{
    if is_word(word, "register") {
        register()
    } else if is_word(word, "property") {
        sr_property()
    } else if is_word(word, "ack") {
        sr_ack()
    } else if is_word(word, "func") {
        sr_func()
    } else if is_word(word, "callback") {
        sr_callback()
    } else if is_word(word, "time") {
        sr_time()
    } else if is_word(word, "rpc") {
        sr_rpc()
    } else if is_word(word, "close") {
        sr_close()
    } else {
        raw
    }
}

/// The datagram for the typed line `chunk` (UTF-8) sent to `addr`: the
/// command of the line without its surrounding white space; see
/// `command_bytes`.
pub fn command_datagram(chunk: Vec<u8>, addr: PeerAddr) -> (r: (PeerAddr, Vec<u8>))
    requires
        valid_utf8(chunk@),
    ensures
        r.0 == addr,
        r.1@ == command_bytes(spec_trim(decode_utf8(chunk@)), chunk@),
{
    let raw = slice_to_vec(chunk.as_slice());
    let text = utf8_string(chunk);
    let word = trim(text.as_str()).to_owned();
    (addr, command_for_word(&word, raw))
}

/// The stream codec that ships bytes as they come: every nonempty read is
/// one frame.
pub struct FrameCodec;

impl FrameCodec {
    /// Takes everything buffered as one frame; nothing when the buffer is
    /// empty.
    pub fn decode(&mut self, buf: &mut Vec<u8>) -> (r: Result<Option<Vec<u8>>, ()>)
        ensures
            old(buf)@.len() > 0 ==> (r matches Ok(Some(frame)) && frame@ == old(buf)@),
            old(buf)@.len() > 0 ==> final(buf)@.len() == 0,
            old(buf)@.len() == 0 ==> r == Ok::<Option<Vec<u8>>, ()>(None),
            old(buf)@.len() == 0 ==> final(buf)@ == old(buf)@,
    {
        if buf.len() > 0 {
            let mut frame: Vec<u8> = Vec::new();
            std::mem::swap(&mut frame, buf);
            Ok(Some(frame))
        } else {
            Ok(None)
        }
    }

    /// At the end of the stream: the same as `decode`.
    pub fn decode_eof(&mut self, buf: &mut Vec<u8>) -> (r: Result<Option<Vec<u8>>, ()>)
        ensures
            old(buf)@.len() > 0 ==> (r matches Ok(Some(frame)) && frame@ == old(buf)@),
            old(buf)@.len() > 0 ==> final(buf)@.len() == 0,
            old(buf)@.len() == 0 ==> r == Ok::<Option<Vec<u8>>, ()>(None),
            old(buf)@.len() == 0 ==> final(buf)@ == old(buf)@,
    {
        self.decode(buf)
    }

    /// Appends `data` to the output buffer.
    pub fn encode(&mut self, data: Vec<u8>, buf: &mut Vec<u8>) -> (r: Result<(), ()>)
        ensures
            r == Ok::<(), ()>(()),
            final(buf)@ == old(buf)@ + data@,
    {
        let mut i: usize = 0;
        while i < data.len()
            invariant
                0 <= i <= data@.len(),
                buf@ == old(buf)@ + data@.subrange(0, i as int),
            decreases data@.len() - i,
        {
            buf.push(data[i]);
            i = i + 1;
            assert(data@.subrange(0, i as int) =~= data@.subrange(0, i - 1) + seq![data@[i - 1]]);
        }
        assert(data@.subrange(0, i as int) =~= data@);
        Ok(())
    }
}

/// The datagram codec: a datagram is its source address and its bytes.
pub struct DatagramCodec;

impl DatagramCodec {
    /// A received datagram as an address and a copy of its bytes.
    pub fn decode(&mut self, addr: &PeerAddr, buf: &[u8]) -> (r: Result<(PeerAddr, Vec<u8>), ()>)
        ensures
            r matches Ok((a, bytes)) && a == *addr && bytes@ == buf@,
    {
        Ok((*addr, slice_to_vec(buf)))
    }

    /// Writes an outgoing datagram's bytes and gives its destination.
    pub fn encode(&mut self, out: (PeerAddr, Vec<u8>), into: &mut Vec<u8>) -> (a: PeerAddr)
        ensures
            a == out.0,
            final(into)@ == old(into)@ + out.1@,
    {
        let (addr, bytes) = out;
        let mut codec = FrameCodec;
        let _ = codec.encode(bytes, into);
        addr
    }
}

} // verus!
