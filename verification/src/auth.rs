//! The username/password exchange of SOCKS5, seen from the server.
//!
//! The server reads one request, answers it and keeps what the client
//! submitted. Nothing is checked: whoever is to judge the credentials sits
//! upstream, so every well-formed request is answered with success.

use socks5_impl::protocol::password_method::{Request, Response, Status};
use socks5_impl::protocol::StreamOperation;
use vstd::prelude::*;
use vstd::utf8::*;

verus! {

/// Version byte of the username/password exchange.
pub const SUBNEGOTIATION_VERSION: u8 = 1;

/// Longest request there is: three fixed bytes and two fields of 255 bytes.
pub const MAX_REQUEST_LEN: usize = 513;

/// A request has reached its password length byte.
pub open spec fn has_lengths(b: Seq<u8>) -> bool {
    b.len() >= 2 && b.len() >= 3 + b[1]
}

/// Length of the whole request, read from its two length bytes.
pub open spec fn frame_len(b: Seq<u8>) -> int
    recommends
        has_lengths(b),
{
    3 + b[1] + b[2 + b[1]]
}

/// The request is there in full; bytes behind it belong to what follows.
pub open spec fn framed(b: Seq<u8>) -> bool {
    has_lengths(b) && b.len() >= frame_len(b)
}

/// The bytes of the username field.
pub open spec fn username_bytes(b: Seq<u8>) -> Seq<u8>
    recommends
        framed(b),
{
    b.subrange(2, 2 + b[1])
}

/// The bytes of the password field.
pub open spec fn password_bytes(b: Seq<u8>) -> Seq<u8>
    recommends
        framed(b),
{
    b.subrange(3 + b[1], frame_len(b))
}

/// A request that can be decoded: the right version, both fields complete
/// and both UTF-8.
pub open spec fn well_formed(b: Seq<u8>) -> bool {
    &&& b.len() >= 1
    &&& b[0] == SUBNEGOTIATION_VERSION
    &&& framed(b)
    &&& valid_utf8(username_bytes(b))
    &&& valid_utf8(password_bytes(b))
}

/// How many bytes must still be read before the request can be decided.
/// Zero once the version is seen to be wrong or the request is complete.
pub open spec fn missing(b: Seq<u8>) -> nat {
    if b.len() == 0 {
        1
    } else if b[0] != SUBNEGOTIATION_VERSION {
        0
    } else if b.len() == 1 {
        1
    } else if b.len() < 3 + b[1] {
        (3 + b[1] - b.len()) as nat
    } else if b.len() < frame_len(b) {
        (frame_len(b) - b.len()) as nat
    } else {
        0
    }
}

/// The request that submits `username` and `password`, given as bytes.
pub open spec fn request_frame(username: Seq<u8>, password: Seq<u8>) -> Seq<u8>
    recommends
        username.len() <= 255,
        password.len() <= 255,
{
    seq![SUBNEGOTIATION_VERSION, username.len() as u8] + username + seq![password.len() as u8]
        + password
}

/// The method a server offers during negotiation.
#[derive(Clone, Copy, Debug, PartialEq, Eq, Structural)]
pub enum AuthMethod {
    NoAuth,
    UserPass,
}

/// The status byte of the answer.
#[derive(Clone, Copy, Debug, PartialEq, Eq, Structural)]
pub enum AuthStatus {
    Succeeded,
    Failed,
}

impl AuthStatus {
    /// The status as it goes over the wire.
    pub open spec fn code(self) -> u8 {
        match self {
            AuthStatus::Succeeded => 0x00,
            AuthStatus::Failed => 0xff,
        }
    }
}

/// Why a request could not be decoded.
#[derive(Clone, Copy, Debug, PartialEq, Eq, Structural)]
pub enum ProtocolDecodeError {
    /// The first byte is not the version of this exchange.
    UnsupportedVersion,
    /// The bytes end before the request does.
    Truncated,
    /// A field is not UTF-8.
    InvalidText,
}

/// What a client submitted, as text.
pub struct CredentialView {
    pub username: Seq<char>,
    pub password: Seq<char>,
}

/// What a client submitted.
#[derive(Debug, PartialEq, Eq)]
pub struct Credential {
    pub username: String,
    pub password: String,
}

impl View for Credential {
    type V = CredentialView;

    open spec fn view(&self) -> CredentialView {
        CredentialView { username: self.username@, password: self.password@ }
    }
}

impl Clone for Credential {
    fn clone(&self) -> (copy: Credential)
        ensures
            copy@ == self@,
    {
        Credential { username: self.username.clone(), password: self.password.clone() }
    }
}

/// The outcome of one exchange.
#[derive(Debug, PartialEq, Eq)]
pub struct AuthExchange {
    /// What the client submitted.
    pub credential: Credential,
    /// The status that was decided.
    pub status: AuthStatus,
    /// The answer to send back.
    pub response: Vec<u8>,
    /// How many bytes the request took.
    pub consumed: usize,
}

/// What `decode_request` yields for a well-formed request.
pub open spec fn submitted(b: Seq<u8>) -> CredentialView
    recommends
        well_formed(b),
{
    CredentialView {
        username: decode_utf8(username_bytes(b)),
        password: decode_utf8(password_bytes(b)),
    }
}

/// The error of `std::io`, which the codec reports failures with.
#[verifier::external_type_specification]
#[verifier::external_body]
pub struct ExIoError(std::io::Error);

/// Calls `Request::retrieve_from_stream` of socks5_impl on a byte slice.
///
/// The codec reads the version byte and refuses any but 1, reads the
/// username length, the username and the password length, then the
/// password, and turns both fields into strings with `String::from_utf8`.
/// It fails where the slice ends early or a field is not UTF-8, and leaves
/// bytes behind the request alone.
#[verifier::external_body]
fn decode_request(bytes: &[u8]) -> (decoded: Result<(String, String), std::io::Error>)
    ensures
        decoded is Ok <==> well_formed(bytes@),
        decoded matches Ok(pair) ==> pair.0@ == submitted(bytes@).username && pair.1@
            == submitted(bytes@).password,
{
    let mut reader = bytes;
    Request::retrieve_from_stream(&mut reader).map(
        |request| (request.user_key.username, request.user_key.password),
    )
}

/// Calls `Response::write_to_buf` of socks5_impl on a fresh buffer.
///
/// The codec writes the version byte, then the status byte.
#[verifier::external_body]
fn encode_response(status: AuthStatus) -> (bytes: Vec<u8>)
    ensures
        bytes@ == seq![SUBNEGOTIATION_VERSION, status.code()],
{
    let status = match status {
        AuthStatus::Succeeded => Status::Succeeded,
        AuthStatus::Failed => Status::Failed,
    };
    let mut bytes = Vec::new();
    Response::new(status).write_to_buf(&mut bytes);
    bytes
}

/// Number of bytes to read next, given what has been read of a request.
pub fn bytes_missing(read: &[u8]) -> (n: usize)
    ensures
        n == missing(read@),
        read@.len() + n <= MAX_REQUEST_LEN || n == 0,
{
    let len: usize = read.len();
    if len == 0 {
        return 1;
    }
    if read[0] != SUBNEGOTIATION_VERSION {
        return 0;
    }
    if len == 1 {
        return 1;
    }
    let ulen: usize = read[1] as usize;
    if len < 3 + ulen {
        return 3 + ulen - len;
    }
    let plen: usize = read[2 + ulen] as usize;
    let total: usize = 3 + ulen + plen;
    if len < total {
        total - len
    } else {
        0
    }
}

/// Accepts whatever is submitted and keeps it.
#[derive(Clone, Copy, Debug, Default)]
pub struct Authenticator;

impl Authenticator {
    /// The one method this server offers.
    pub fn auth_method(&self) -> (method: AuthMethod)
        ensures
            method == AuthMethod::UserPass,
    {
        AuthMethod::UserPass
    }

    /// The status for a submitted pair: success, whatever the pair holds.
    pub fn judge(&self, credential: &Credential) -> (status: AuthStatus)
        ensures
            status == AuthStatus::Succeeded,
    {
        AuthStatus::Succeeded
    }

    /// Decodes the request at the start of `request` and answers it.
    ///
    /// Every well-formed request succeeds; the credential returned is the
    /// submitted pair and the answer reports success.
    pub fn execute(&self, request: &[u8]) -> (outcome: Result<AuthExchange, ProtocolDecodeError>)
        ensures
            outcome is Ok <==> well_formed(request@),
            outcome matches Ok(exchange) ==> {
                &&& exchange.credential@ == submitted(request@)
                &&& exchange.status == AuthStatus::Succeeded
                &&& exchange.response@ == seq![SUBNEGOTIATION_VERSION, 0x00u8]
                &&& exchange.consumed == frame_len(request@)
            },
            outcome matches Err(e) ==> e == decode_fault(request@),
    {
        let len: usize = request.len();
        if len == 0 {
            return Err(ProtocolDecodeError::Truncated);
        }
        if request[0] != SUBNEGOTIATION_VERSION {
            return Err(ProtocolDecodeError::UnsupportedVersion);
        }
        if len < 2 {
            return Err(ProtocolDecodeError::Truncated);
        }
        let ulen: usize = request[1] as usize;
        if len < 3 + ulen {
            return Err(ProtocolDecodeError::Truncated);
        }
        let consumed: usize = 3 + ulen + request[2 + ulen] as usize;
        if len < consumed {
            return Err(ProtocolDecodeError::Truncated);
        }
        match decode_request(request) {
            Ok((username, password)) => {
                let credential = Credential { username, password };
                let status = self.judge(&credential);
                let response = encode_response(status);
                Ok(AuthExchange { credential, status, response, consumed })
            },
            Err(_) => Err(ProtocolDecodeError::InvalidText),
        }
    }
}

/// The error that a request which is not well-formed is refused with.
pub open spec fn decode_fault(b: Seq<u8>) -> ProtocolDecodeError
    recommends
        !well_formed(b),
{
    if b.len() >= 1 && b[0] != SUBNEGOTIATION_VERSION {
        ProtocolDecodeError::UnsupportedVersion
    } else if !framed(b) {
        ProtocolDecodeError::Truncated
    } else {
        ProtocolDecodeError::InvalidText
    }
}

/// Whatever pair a client submits, empty strings included, its request is
/// well-formed and decodes to that very pair.
pub proof fn lemma_submitted_pair_is_kept(username: Seq<char>, password: Seq<char>)
    requires
        encode_utf8(username).len() <= 255,
        encode_utf8(password).len() <= 255,
    ensures
        well_formed(request_frame(encode_utf8(username), encode_utf8(password))),
        submitted(request_frame(encode_utf8(username), encode_utf8(password)))
            == (CredentialView { username, password }),
        frame_len(request_frame(encode_utf8(username), encode_utf8(password)))
            == request_frame(encode_utf8(username), encode_utf8(password)).len(),
{
    let u = encode_utf8(username);
    let p = encode_utf8(password);
    let b = request_frame(u, p);
    encode_utf8_valid_utf8(username);
    encode_utf8_valid_utf8(password);
    encode_utf8_decode_utf8(username);
    encode_utf8_decode_utf8(password);
    assert(b.len() == 3 + u.len() + p.len());
    assert(b[0] == SUBNEGOTIATION_VERSION);
    assert(b[1] == u.len() as u8);
    assert(b[2 + u.len() as int] == p.len() as u8);
    assert(username_bytes(b) =~= u);
    assert(password_bytes(b) =~= p);
}

/// Reading stops exactly when the version is wrong or the request is there.
pub proof fn lemma_missing_nothing(b: Seq<u8>)
    ensures
        missing(b) == 0 <==> b.len() >= 1 && (b[0] != SUBNEGOTIATION_VERSION || framed(b)),
        b.len() + missing(b) <= MAX_REQUEST_LEN || missing(b) == 0,
{
}

/// Reading what is missing gets closer to the end: after at most three
/// further reads nothing is missing.
pub proof fn lemma_reading_ends(b: Seq<u8>, more: Seq<u8>)
    requires
        missing(b) > 0,
        more.len() == missing(b),
    ensures
        reads_left(b + more) < reads_left(b),
{
    let c = b + more;
    assert(forall|i: int| 0 <= i < b.len() ==> c[i] == b[i]);
}

/// Number of reads that a reader who follows `missing` still has to make.
pub open spec fn reads_left(b: Seq<u8>) -> nat {
    if b.len() == 0 {
        4
    } else if b[0] != SUBNEGOTIATION_VERSION {
        0
    } else if b.len() == 1 {
        3
    } else if b.len() < 3 + b[1] {
        2
    } else if b.len() < frame_len(b) {
        1
    } else {
        0
    }
}

/// Bytes behind a complete request change nothing of what it says.
pub proof fn lemma_trailing_bytes_ignored(b: Seq<u8>, more: Seq<u8>)
    requires
        framed(b),
    ensures
        framed(b + more),
        frame_len(b + more) == frame_len(b),
        well_formed(b + more) <==> well_formed(b),
        submitted(b + more) == submitted(b),
        decode_fault(b + more) == decode_fault(b),
{
    let c = b + more;
    assert(forall|i: int| 0 <= i < b.len() ==> c[i] == b[i]);
    assert(username_bytes(c) =~= username_bytes(b));
    assert(password_bytes(c) =~= password_bytes(b));
}

} // verus!
