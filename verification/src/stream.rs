//! The wire layer's logic: stream protocols and their schemes, URL
//! assembly, and the length-prefixed frame codecs the send and receive
//! paths use. The sockets themselves live with the caller.
use vstd::prelude::*;
use vstd::string::StringSliceAdditionalSpecFns;
use crate::codec::spec_u16_to_be;
use crate::codec::spec_u32_to_be;
use crate::codec::spec_u64_to_be;
use crate::crypto::spec_encrypt;
use crate::crypto::EncryptKey;
use crate::crypto::InitializationVector;
use crate::errors::CommsError;

verus! {

/// The two stream protocols a mesh connection can run over.
#[derive(Clone, Copy, Debug, PartialEq, Eq, Structural, Hash)]
pub enum StreamProtocol {
    Tcp,
    WebSocket,
}

/// The protocol a scheme's bytes name, if any: `tcp` or `ws`.
pub open spec fn spec_scheme_protocol(b: Seq<u8>) -> Option<StreamProtocol> {
    if b == seq![116u8, 99u8, 112u8] {
        Some(StreamProtocol::Tcp)
    } else if b == seq![119u8, 115u8] {
        Some(StreamProtocol::WebSocket)
    } else {
        None
    }
}

impl StreamProtocol {
    /// The protocol a scheme names; an unknown scheme is refused.
    pub fn from_str(s: &str) -> (r: Result<StreamProtocol, CommsError>)
        ensures
            match spec_scheme_protocol(s.spec_bytes()) {
                Some(p) => r matches Ok(q) && q == p,
                None => r matches Err(e) && e matches CommsError::UnsupportedProtocolError(_),
            },
    {
        let b = s.as_bytes();
        if b.len() == 3 && b[0] == 116u8 && b[1] == 99u8 && b[2] == 112u8 {
            proof {
                assert(s.spec_bytes() =~= seq![116u8, 99u8, 112u8]);
            }
            Ok(StreamProtocol::Tcp)
        } else if b.len() == 2 && b[0] == 119u8 && b[1] == 115u8 {
            proof {
                assert(s.spec_bytes() =~= seq![119u8, 115u8]);
            }
            Ok(StreamProtocol::WebSocket)
        } else {
            proof {
                assert(s.spec_bytes() != seq![116u8, 99u8, 112u8]);
                assert(s.spec_bytes() != seq![119u8, 115u8]);
            }
            Err(CommsError::UnsupportedProtocolError(s.to_owned()))
        }
    }

    /// The scheme this protocol is written as.
    pub fn to_scheme(&self) -> (r: String)
        ensures
            match *self {
                StreamProtocol::Tcp => r@ == "tcp"@,
                StreamProtocol::WebSocket => r@ == "ws"@,
            },
    {
        let ret = match self {
            StreamProtocol::Tcp => "tcp",
            StreamProtocol::WebSocket => "ws",
        };
        ret.to_owned()
    }

    /// The scheme, as the protocol's display form.
    pub fn to_string(&self) -> (r: String)
        ensures
            match *self {
                StreamProtocol::Tcp => r@ == "tcp"@,
                StreamProtocol::WebSocket => r@ == "ws"@,
            },
    {
        self.to_scheme()
    }

    /// The port used when an address names none.
    pub fn default_port(&self) -> (r: u16)
        ensures
            r == (match *self {
                StreamProtocol::Tcp => 5000u16,
                StreamProtocol::WebSocket => 80u16,
            }),
    {
        match self {
            StreamProtocol::Tcp => 5000,
            StreamProtocol::WebSocket => 80,
        }
    }

    pub fn is_tcp(&self) -> (r: bool)
        ensures
            r == (*self is Tcp),
    {
        match self {
            StreamProtocol::Tcp => true,
            StreamProtocol::WebSocket => false,
        }
    }

    pub fn is_web_socket(&self) -> (r: bool)
        ensures
            r == (*self is WebSocket),
    {
        match self {
            StreamProtocol::Tcp => false,
            StreamProtocol::WebSocket => true,
        }
    }

    /// Builds this protocol's URL for a domain, port and path: the port is
    /// written out exactly when it equals the protocol's default, and a
    /// missing leading slash is supplied. URL syntax itself is checked by
    /// the url crate.
    pub fn make_url(&self, domain: String, port: u16, path: String) -> (r: Result<
        url::Url,
        url::ParseError,
    >) {
        let scheme = self.to_scheme();
        let explicit_port = port == self.default_port();
        let pb = path.as_str().as_bytes();
        let leading_slash = pb.len() > 0 && pb[0] == 47u8;
        parse_url_parts(
            scheme.as_str(),
            domain.as_str(),
            port,
            path.as_str(),
            explicit_port,
            leading_slash,
        )
    }

    /// The protocol a parsed URL's scheme names.
    pub fn parse(url: &url::Url) -> (r: Result<StreamProtocol, CommsError>)
        ensures
            r matches Err(e) ==> e matches CommsError::UnsupportedProtocolError(_),
    {
        let scheme = url_scheme(url);
        StreamProtocol::from_str(scheme.as_str())
    }
}

#[verifier::external_type_specification]
#[verifier::external_body]
pub struct ExUrl(url::Url);

#[verifier::external_type_specification]
#[verifier::external_body]
pub struct ExParseError(url::ParseError);

/// Relies on url::Url::parse to check URL syntax; the body only assembles
/// `scheme://domain[:port]/path` from the given parts, writing the port
/// exactly when asked and adding the slash when the path lacks one.
#[verifier::external_body]
fn parse_url_parts(
    scheme: &str,
    domain: &str,
    port: u16,
    path: &str,
    explicit_port: bool,
    leading_slash: bool,
) -> Result<url::Url, url::ParseError> {
    let input = match (explicit_port, leading_slash) {
        (true, true) => format!("{}://{}:{}{}", scheme, domain, port, path),
        (true, false) => format!("{}://{}:{}/{}", scheme, domain, port, path),
        (false, true) => format!("{}://{}{}", scheme, domain, path),
        (false, false) => format!("{}://{}/{}", scheme, domain, path),
    };
    url::Url::parse(input.as_str())
}

/// Relies on url::Url::scheme, converted to an owned string; the url crate
/// reports it in ASCII lower case.
#[verifier::external_body]
fn url_scheme(url: &url::Url) -> String {
    url.scheme().to_owned()
}

/// What an upgrade to a target protocol does to a plain connection: only a
/// raw stream asked to speak the WebSocket protocol starts a handshake;
/// everything else stays as it is.
#[derive(Clone, Copy, Debug, PartialEq, Eq, Structural)]
pub enum UpgradeAction {
    Keep,
    WebSocketHandshake,
}

/// The upgrade decision for a stream of protocol `current` asked to speak
/// `target`.
pub fn upgrade_action(current: StreamProtocol, target: StreamProtocol) -> (r: UpgradeAction)
    ensures
        r == (if current is Tcp && target is WebSocket {
            UpgradeAction::WebSocketHandshake
        } else {
            UpgradeAction::Keep
        }),
{
    match (current, target) {
        (StreamProtocol::Tcp, StreamProtocol::WebSocket) => UpgradeAction::WebSocketHandshake,
        _ => UpgradeAction::Keep,
    }
}

/// Frames a payload behind an 8-bit length prefix; a payload over 255
/// bytes does not fit.
pub fn write_8bit(buf: &Vec<u8>) -> (r: Result<Vec<u8>, CommsError>)
    ensures
        buf@.len() <= 255 ==> (r matches Ok(f) && f@ == seq![buf@.len() as u8] + buf@),
        buf@.len() > 255 ==> (r matches Err(e) && e matches CommsError::FrameTooBig { len, max }
            && len == buf@.len() && max == 255),
{
    if buf.len() > 255 {
        return Err(CommsError::FrameTooBig { len: buf.len(), max: 255 });
    }
    let mut out: Vec<u8> = Vec::new();
    out.push(buf.len() as u8);
    let mut body = buf.clone();
    proof {
        assert(body@ =~= buf@);
    }
    out.append(&mut body);
    proof {
        assert(out@ =~= seq![buf@.len() as u8] + buf@);
    }
    Ok(out)
}

/// Frames a payload behind a 16-bit big-endian length prefix.
pub fn write_16bit(buf: &Vec<u8>) -> (r: Result<Vec<u8>, CommsError>)
    ensures
        buf@.len() <= u16::MAX ==> (r matches Ok(f) && f@ == spec_u16_to_be(buf@.len() as u16)
            + buf@),
        buf@.len() > u16::MAX ==> (r matches Err(e) && e matches CommsError::FrameTooBig {
            len,
            max,
        } && len == buf@.len() && max == u16::MAX),
{
    if buf.len() > (u16::MAX as usize) {
        return Err(CommsError::FrameTooBig { len: buf.len(), max: u16::MAX as u64 });
    }
    let mut out = crate::codec::u16_to_be(buf.len() as u16);
    let mut body = buf.clone();
    proof {
        assert(body@ =~= buf@);
    }
    out.append(&mut body);
    Ok(out)
}

/// Frames a payload behind a 32-bit big-endian length prefix.
pub fn write_32bit(buf: &Vec<u8>) -> (r: Result<Vec<u8>, CommsError>)
    ensures
        buf@.len() <= u32::MAX ==> (r matches Ok(f) && f@ == spec_u32_to_be(buf@.len() as u32)
            + buf@),
        buf@.len() > u32::MAX ==> (r matches Err(e) && e matches CommsError::FrameTooBig {
            len,
            max,
        } && len == buf@.len() && max == u32::MAX),
{
    if buf.len() as u64 > (u32::MAX as u64) {
        return Err(CommsError::FrameTooBig { len: buf.len(), max: u32::MAX as u64 });
    }
    let mut out = crate::codec::u32_to_be(buf.len() as u32);
    let mut body = buf.clone();
    proof {
        assert(body@ =~= buf@);
    }
    out.append(&mut body);
    Ok(out)
}

/// Reads one 8-bit-prefixed frame from `buf` at `pos`: the payload and the
/// position just past it.
pub fn read_8bit(buf: &Vec<u8>, pos: usize) -> (r: Option<(Vec<u8>, usize)>)
    ensures
        r matches Some((payload, next)) ==> {
            &&& pos < buf@.len()
            &&& next == pos + 1 + payload@.len()
            &&& next <= buf@.len()
            &&& payload@.len() == buf@[pos as int]
            &&& payload@ == buf@.subrange(pos + 1, next as int)
        },
        r is None ==> (pos >= buf@.len() || pos + 1 + buf@[pos as int] > buf@.len()),
{
    if pos >= buf.len() {
        return None;
    }
    let len = buf[pos] as usize;
    if len > buf.len() - pos - 1 {
        return None;
    }
    let mut payload: Vec<u8> = Vec::new();
    let mut i: usize = 0;
    while i < len
        invariant
            i <= len,
            pos + 1 + len <= buf@.len(),
            buf@.len() <= usize::MAX,
            payload@ == buf@.subrange(pos + 1, pos + 1 + i as int),
        decreases len - i,
    {
        payload.push(buf[pos + 1 + i]);
        i = i + 1;
        proof {
            assert(buf@.subrange(pos + 1, pos + 1 + i as int) =~= buf@.subrange(
                pos + 1,
                pos + i as int,
            ) + seq![buf@[pos + i as int]]);
            assert(payload@ =~= buf@.subrange(pos + 1, pos + 1 + i as int));
        }
    }
    Some((payload, pos + 1 + len))
}

/// Reads one 16-bit-prefixed frame from `buf` at `pos`.
pub fn read_16bit(buf: &Vec<u8>, pos: usize) -> (r: Option<(Vec<u8>, usize)>)
    ensures
        r matches Some((payload, next)) ==> {
            &&& pos + 2 <= buf@.len()
            &&& next == pos + 2 + payload@.len()
            &&& next <= buf@.len()
            &&& payload@.len() == crate::codec::spec_u16_from_be(buf@.subrange(pos as int, pos + 2))
            &&& payload@ == buf@.subrange(pos + 2, next as int)
        },
{
    if buf.len() < 2 || pos > buf.len() - 2 {
        return None;
    }
    let len16 = crate::codec::u16_from_be(buf[pos], buf[pos + 1]);
    proof {
        assert(seq![buf@[pos as int], buf@[pos + 1]] =~= buf@.subrange(pos as int, pos + 2));
    }
    let len = len16 as usize;
    if len > buf.len() - pos - 2 {
        return None;
    }
    let mut payload: Vec<u8> = Vec::new();
    let mut i: usize = 0;
    while i < len
        invariant
            i <= len,
            pos + 2 + len <= buf@.len(),
            buf@.len() <= usize::MAX,
            payload@ == buf@.subrange(pos + 2, pos + 2 + i as int),
        decreases len - i,
    {
        payload.push(buf[pos + 2 + i]);
        i = i + 1;
        proof {
            assert(buf@.subrange(pos + 2, pos + 2 + i as int) =~= buf@.subrange(
                pos + 2,
                pos + 1 + i as int,
            ) + seq![buf@[pos + 1 + i as int]]);
            assert(payload@ =~= buf@.subrange(pos + 2, pos + 2 + i as int));
        }
    }
    Some((payload, pos + 2 + len))
}

/// Reads one 32-bit-prefixed frame from `buf` at `pos`.
pub fn read_32bit(buf: &Vec<u8>, pos: usize) -> (r: Option<(Vec<u8>, usize)>)
    ensures
        r matches Some((payload, next)) ==> {
            &&& pos + 4 <= buf@.len()
            &&& next == pos + 4 + payload@.len()
            &&& next <= buf@.len()
            &&& payload@.len() == crate::codec::spec_u32_from_be(buf@.subrange(pos as int, pos + 4))
            &&& payload@ == buf@.subrange(pos + 4, next as int)
        },
        r is None ==> (pos + 4 > buf@.len() || pos + 4 + crate::codec::spec_u32_from_be(
            buf@.subrange(pos as int, pos + 4),
        ) > buf@.len()),
{
    if buf.len() < 4 || pos > buf.len() - 4 {
        return None;
    }
    let len32 = crate::codec::u32_from_be(buf[pos], buf[pos + 1], buf[pos + 2], buf[pos + 3]);
    proof {
        assert(seq![buf@[pos as int], buf@[pos + 1], buf@[pos + 2], buf@[pos + 3]] =~= buf@.subrange(
            pos as int,
            pos + 4,
        ));
    }
    let len = len32 as usize;
    if len > buf.len() - pos - 4 {
        return None;
    }
    let mut payload: Vec<u8> = Vec::new();
    let mut i: usize = 0;
    while i < len
        invariant
            i <= len,
            pos + 4 + len <= buf@.len(),
            buf@.len() <= usize::MAX,
            len == crate::codec::spec_u32_from_be(buf@.subrange(pos as int, pos + 4)),
            payload@ == buf@.subrange(pos + 4, pos + 4 + i as int),
        decreases len - i,
    {
        payload.push(buf[pos + 4 + i]);
        i = i + 1;
        proof {
            assert(buf@.subrange(pos + 4, pos + 4 + i as int) =~= buf@.subrange(
                pos + 4,
                pos + 3 + i as int,
            ) + seq![buf@[pos + 3 + i as int]]);
            assert(payload@ =~= buf@.subrange(pos + 4, pos + 4 + i as int));
        }
    }
    Some((payload, pos + 4 + len))
}

/// The byte image of an encrypted wire frame: the vector behind an 8-bit
/// prefix, then the ciphertext behind a 32-bit prefix.
pub open spec fn spec_enc_frame(seed: u64, nonce: u64, data: Seq<u8>) -> Seq<u8> {
    seq![8u8] + spec_u64_to_be(nonce) + spec_u32_to_be(data.len() as u32) + spec_encrypt(
        seed,
        nonce,
        data,
    )
}

/// Sends one packet: under a key the payload is encrypted beneath a fresh
/// vector and framed as `[iv_len8 | iv | cipher_len32 | cipher]`; without
/// one it is framed plainly behind a 32-bit prefix.
pub fn send_frame(wire_encryption: &Option<EncryptKey>, data: &Vec<u8>) -> (r: Result<
    Vec<u8>,
    CommsError,
>)
    requires
        data@.len() <= u32::MAX,
    ensures
        match wire_encryption {
            Some(k) => r matches Ok(f) && exists|nonce: u64| f@ == #[trigger] spec_enc_frame(
                k.seed,
                nonce,
                data@,
            ),
            None => r matches Ok(f) && f@ == spec_u32_to_be(data@.len() as u32) + data@,
        },
{
    match wire_encryption {
        Some(key) => {
            let enc = key.encrypt(data.as_slice());
            let ivb = enc.iv.bytes();
            let head = match write_8bit(&ivb) {
                Ok(h) => h,
                Err(_) => {
                    proof {
                        assert(false);
                    }
                    return Err(CommsError::FrameTooBig { len: 8, max: 255 });
                },
            };
            let mut out = head;
            let mut tail = match write_32bit(&enc.data) {
                Ok(t) => t,
                Err(_) => {
                    proof {
                        assert(false);
                    }
                    return Err(CommsError::FrameTooBig { len: 0, max: 0 });
                },
            };
            out.append(&mut tail);
            proof {
                assert(out@ =~= spec_enc_frame(key.seed, enc.iv.nonce, data@));
            }
            Ok(out)
        },
        None => {
            let out = match write_32bit(data) {
                Ok(t) => t,
                Err(_) => {
                    proof {
                        assert(false);
                    }
                    return Err(CommsError::FrameTooBig { len: 0, max: 0 });
                },
            };
            Ok(out)
        },
    }
}

/// Receives one packet sent by `send_frame`: under the same key the
/// decrypted payload is the one sent; the round trip of the wire layer.
pub fn recv_frame(wire_encryption: &Option<EncryptKey>, buf: &Vec<u8>) -> (r: Option<Vec<u8>>)
    ensures
        match wire_encryption {
            Some(k) => forall|nonce: u64, data: Seq<u8>|
                buf@ == #[trigger] spec_enc_frame(k.seed, nonce, data) && data.len() <= u32::MAX
                    ==> (r matches Some(p) && p@ == data),
            None => forall|data: Seq<u8>|
                buf@ == spec_u32_to_be(data.len() as u32) + data && data.len() <= u32::MAX ==> (r
                    matches Some(p) && p@ == data),
        },
{
    match wire_encryption {
        Some(key) => {
            let (ivb, next) = match read_8bit(buf, 0) {
                Some(p) => p,
                None => {
                    proof {
                        assert forall|nonce: u64, data: Seq<u8>|
                            buf@ == #[trigger] spec_enc_frame(key.seed, nonce, data) && data.len()
                                <= u32::MAX implies false by {
                            crate::codec::lemma_u64_be_round_trip(nonce);
                            crate::codec::lemma_u32_be_round_trip(data.len() as u32);
                            assert(buf@.len() == 13 + data.len());
                            assert(buf@[0] == 8u8);
                        }
                    }
                    return None;
                },
            };
            if ivb.len() != 8 {
                proof {
                    assert forall|nonce: u64, data: Seq<u8>|
                        buf@ == #[trigger] spec_enc_frame(key.seed, nonce, data) && data.len()
                            <= u32::MAX implies false by {
                        crate::codec::lemma_u64_be_round_trip(nonce);
                        crate::codec::lemma_u32_be_round_trip(data.len() as u32);
                        assert(buf@.len() == 13 + data.len());
                        assert(buf@[0] == 8u8);
                    }
                }
                return None;
            }
            let nonce = crate::codec::u64_from_be(&ivb);
            let (cipher, fin) = match read_32bit(buf, next) {
                Some(p) => p,
                None => {
                    proof {
                        assert forall|nonce2: u64, data: Seq<u8>|
                            buf@ == #[trigger] spec_enc_frame(key.seed, nonce2, data) && data.len()
                                <= u32::MAX implies false by {
                            crate::codec::lemma_u64_be_round_trip(nonce2);
                            crate::codec::lemma_u32_be_round_trip(data.len() as u32);
                            assert(buf@.len() == 13 + data.len());
                            assert(buf@[0] == 8u8);
                            assert(next == 9);
                            assert(buf@.subrange(9, 13) =~= spec_u32_to_be(data.len() as u32));
                        }
                    }
                    return None;
                },
            };
            if fin != buf.len() {
                proof {
                    assert forall|nonce2: u64, data: Seq<u8>|
                        buf@ == #[trigger] spec_enc_frame(key.seed, nonce2, data) && data.len()
                            <= u32::MAX implies false by {
                        crate::codec::lemma_u64_be_round_trip(nonce2);
                        crate::codec::lemma_u32_be_round_trip(data.len() as u32);
                        assert(buf@.len() == 13 + data.len());
                        assert(buf@[0] == 8u8);
                        assert(next == 9);
                        assert(buf@.subrange(9, 13) =~= spec_u32_to_be(data.len() as u32));
                    }
                }
                return None;
            }
            let iv = InitializationVector { nonce };
            let plain = key.decrypt(&iv, cipher.as_slice());
            proof {
                assert forall|nonce2: u64, data: Seq<u8>|
                    buf@ == #[trigger] spec_enc_frame(key.seed, nonce2, data) && data.len()
                        <= u32::MAX implies plain@ == data by {
                    crate::codec::lemma_u64_be_round_trip(nonce2);
                    crate::codec::lemma_u32_be_round_trip(data.len() as u32);
                    assert(buf@[0] == 8u8);
                    assert(ivb@ =~= spec_u64_to_be(nonce2));
                    assert(nonce == nonce2);
                    assert(buf@.subrange(9, 13) =~= spec_u32_to_be(data.len() as u32));
                    assert(cipher@ =~= spec_encrypt(key.seed, nonce2, data));
                    crate::crypto::lemma_encrypt_round_trip(key.seed, nonce2, data);
                    assert(plain@ =~= data);
                }
            }
            Some(plain)
        },
        None => {
            let (payload, fin) = match read_32bit(buf, 0) {
                Some(p) => p,
                None => {
                    proof {
                        assert forall|data: Seq<u8>|
                            buf@ == spec_u32_to_be(data.len() as u32) + data && data.len()
                                <= u32::MAX implies false by {
                            crate::codec::lemma_u32_be_round_trip(data.len() as u32);
                            assert(buf@.len() == 4 + data.len());
                            assert(buf@.subrange(0, 4) =~= spec_u32_to_be(data.len() as u32));
                        }
                    }
                    return None;
                },
            };
            if fin != buf.len() {
                proof {
                    assert forall|data: Seq<u8>|
                        buf@ == spec_u32_to_be(data.len() as u32) + data && data.len()
                            <= u32::MAX implies false by {
                        crate::codec::lemma_u32_be_round_trip(data.len() as u32);
                        assert(buf@.len() == 4 + data.len());
                        assert(buf@.subrange(0, 4) =~= spec_u32_to_be(data.len() as u32));
                    }
                }
                return None;
            }
            proof {
                assert forall|data: Seq<u8>|
                    buf@ == spec_u32_to_be(data.len() as u32) + data && data.len()
                        <= u32::MAX implies payload@ == data by {
                    crate::codec::lemma_u32_be_round_trip(data.len() as u32);
                    assert(buf@.subrange(0, 4) =~= spec_u32_to_be(data.len() as u32));
                    assert(payload@ =~= data);
                }
            }
            Some(payload)
        },
    }
}

} // verus!
