//! The opening exchange on the control stream: the peer presents a
//! credential of at most 1024 bytes, and is told `OK` or turned away.
//!
//! Reading the stream, decoding the envelope and judging the credential are
//! done by others; what they report is turned into the outcome here.

use vstd::prelude::*;

verus! {

/// Most bytes that an auth request may have.
pub const AUTH_REQUEST_LIMIT: usize = 1024;

/// Why a peer was not authenticated.
#[derive(Clone, Copy, Debug, PartialEq, Eq, Structural)]
pub enum AuthErrorSerde {
    /// No control stream was offered in time.
    NoAuthRequestReceived,
    /// The request was too long or could not be decoded.
    InvalidAuthRequestReceived,
    /// The request was understood and turned down.
    Rejected,
}

/// Why a peer was not authenticated, for builds without an envelope codec.
#[derive(Clone, Copy, Debug, PartialEq, Eq, Structural)]
pub enum AuthErrorRaw {
    NoAuthRequestReceived,
    InvalidAuthRequestReceived,
    Rejected,
}

/// The credential that a peer presents.
#[derive(Clone, Copy, Debug, PartialEq, Eq, Structural)]
pub struct ArsAuthRequestSerde {
    placeholder_id: u32,
}

/// The credential that a peer presents, for builds without an envelope codec.
#[derive(Clone, Copy, Debug, PartialEq, Eq, Structural)]
pub struct ArsAuthRequestRaw {
    placeholder_id: u32,
}

/// Who a peer is and which room it belongs in.
#[derive(Clone, Copy, Debug, PartialEq, Eq, Structural)]
pub struct Identity {
    pub user_id: u32,
    pub room_id: u32,
}

/// What reading the control stream came to.
pub enum ControlStream {
    /// No stream was offered within the idle window or the auth timeout.
    NotOffered,
    /// The stream held more than the limit, or reading it failed.
    Unreadable,
    /// The stream was read to its end.
    Payload(Vec<u8>),
}

/// The name of the error.
pub open spec fn error_name(e: AuthErrorSerde) -> Seq<char> {
    match e {
        AuthErrorSerde::NoAuthRequestReceived => "NoAuthRequestReceived"@,
        AuthErrorSerde::InvalidAuthRequestReceived => "InvalidAuthRequestReceived"@,
        AuthErrorSerde::Rejected => "Rejected"@,
    }
}

impl AuthErrorSerde {
    /// The error as text: the name of the variant.
    pub fn to_string(&self) -> (s: String)
        ensures
            s@ == error_name(*self),
    {
        match self {
            AuthErrorSerde::NoAuthRequestReceived => "NoAuthRequestReceived".to_owned(),
            AuthErrorSerde::InvalidAuthRequestReceived => "InvalidAuthRequestReceived".to_owned(),
            AuthErrorSerde::Rejected => "Rejected".to_owned(),
        }
    }
}

impl AuthErrorRaw {
    /// The error as text; the same for every variant.
    pub fn to_string(&self) -> (s: String)
        ensures
            s@ == "invalid first item to double"@,
    {
        "invalid first item to double".to_owned()
    }
}

impl ArsAuthRequestSerde {
    /// The request that clients send: placeholder 10.
    pub fn new() -> (r: ArsAuthRequestSerde)
        ensures
            r.id() == 10,
    {
        ArsAuthRequestSerde { placeholder_id: 10 }
    }

    /// A request with the given placeholder.
    pub fn with_id(placeholder_id: u32) -> (r: ArsAuthRequestSerde)
        ensures
            r.id() == placeholder_id,
    {
        ArsAuthRequestSerde { placeholder_id }
    }

    /// The placeholder that the request carries.
    pub closed spec fn id(&self) -> u32 {
        self.placeholder_id
    }

    /// The placeholder that the request carries.
    pub fn placeholder_id(&self) -> (id: u32)
        ensures
            id == self.id(),
    {
        self.placeholder_id
    }
}

impl ArsAuthRequestRaw {
    /// A request with the given placeholder.
    pub fn new(placeholder_id: u32) -> (r: ArsAuthRequestRaw)
        ensures
            r.id() == placeholder_id,
    {
        ArsAuthRequestRaw { placeholder_id }
    }

    /// The placeholder that the request carries.
    pub closed spec fn id(&self) -> u32 {
        self.placeholder_id
    }

    /// The placeholder that the request carries.
    pub fn placeholder_id(&self) -> (id: u32)
        ensures
            id == self.id(),
    {
        self.placeholder_id
    }
}

/// Whether the control stream gave a payload that is worth decoding: one
/// was read and it is within the limit.
pub open spec fn readable(stream: ControlStream) -> bool {
    stream matches ControlStream::Payload(bytes) && bytes@.len() <= 1024
}

/// The outcome of the exchange. No stream means `NoAuthRequestReceived`; a
/// stream that could not be read, a payload over the limit or one that did
/// not decode means `InvalidAuthRequestReceived`; a decoded request that was
/// turned down means `Rejected`; otherwise the peer is who the verdict says.
pub open spec fn outcome(
    stream: ControlStream,
    decoded: Option<ArsAuthRequestSerde>,
    verdict: Option<Identity>,
) -> Result<Identity, AuthErrorSerde> {
    match stream {
        ControlStream::NotOffered => Err(AuthErrorSerde::NoAuthRequestReceived),
        ControlStream::Unreadable => Err(AuthErrorSerde::InvalidAuthRequestReceived),
        ControlStream::Payload(bytes) => if bytes@.len() > 1024 || decoded is None {
            Err(AuthErrorSerde::InvalidAuthRequestReceived)
        } else {
            match verdict {
                Some(identity) => Ok(identity),
                None => Err(AuthErrorSerde::Rejected),
            }
        },
    }
}

/// Looks at what the control stream gave: the payload to decode, or the
/// error that ends the exchange.
pub fn check_stream(stream: &ControlStream) -> (r: Result<(), AuthErrorSerde>)
    ensures
        readable(*stream) <==> r is Ok,
        *stream is NotOffered ==> r == Err::<(), AuthErrorSerde>(
            AuthErrorSerde::NoAuthRequestReceived,
        ),
        !(*stream is NotOffered) && !readable(*stream) ==> r == Err::<(), AuthErrorSerde>(
            AuthErrorSerde::InvalidAuthRequestReceived,
        ),
{
    match stream {
        ControlStream::NotOffered => Err(AuthErrorSerde::NoAuthRequestReceived),
        ControlStream::Unreadable => Err(AuthErrorSerde::InvalidAuthRequestReceived),
        ControlStream::Payload(bytes) => {
            if bytes.len() > AUTH_REQUEST_LIMIT {
                Err(AuthErrorSerde::InvalidAuthRequestReceived)
            } else {
                Ok(())
            }
        },
    }
}

/// Concludes the exchange from what the stream gave, what decoding the
/// payload gave, and what the validation said of the decoded request.
pub fn authenticate(
    stream: &ControlStream,
    decoded: Option<ArsAuthRequestSerde>,
    verdict: Option<Identity>,
) -> (r: Result<Identity, AuthErrorSerde>)
    ensures
        r == outcome(*stream, decoded, verdict),
{
    match check_stream(stream) {
        Err(e) => Err(e),
        Ok(()) => match decoded {
            None => Err(AuthErrorSerde::InvalidAuthRequestReceived),
            Some(_) => match verdict {
                Some(identity) => Ok(identity),
                None => Err(AuthErrorSerde::Rejected),
            },
        },
    }
}

/// The stand-in validation used until a real one is plugged in: every
/// request is accepted, and its placeholder names both the user and the room.
pub fn accept_all(request: &ArsAuthRequestSerde) -> (verdict: Option<Identity>)
    ensures
        verdict == Some(Identity { user_id: request.id(), room_id: request.id() }),
{
    Some(Identity { user_id: request.placeholder_id, room_id: request.placeholder_id })
}

/// The bytes `OK`.
pub open spec fn ok_bytes() -> Seq<u8> {
    seq![79u8, 75u8]
}

/// The bytes of the rejection tag, `Rejected`.
pub open spec fn rejection_tag() -> Seq<u8> {
    seq![82u8, 101u8, 106u8, 101u8, 99u8, 116u8, 101u8, 100u8]
}

/// What to write on the control stream when the exchange is over: `OK` for
/// a peer that is in, the rejection tag for one that was turned down, and
/// nothing where no request was understood.
pub open spec fn reply_for(r: Result<Identity, AuthErrorSerde>) -> Seq<u8> {
    match r {
        Ok(_) => ok_bytes(),
        Err(AuthErrorSerde::Rejected) => rejection_tag(),
        Err(_) => Seq::empty(),
    }
}

/// The bytes to write on the control stream when the exchange is over.
pub fn reply(r: &Result<Identity, AuthErrorSerde>) -> (bytes: Vec<u8>)
    ensures
        bytes@ == reply_for(*r),
{
    match r {
        Ok(_) => {
            let mut v: Vec<u8> = Vec::new();
            v.push(79);
            v.push(75);
            assert(v@ =~= ok_bytes());
            v
        },
        Err(AuthErrorSerde::Rejected) => {
            let mut v: Vec<u8> = Vec::new();
            v.push(82);
            v.push(101);
            v.push(106);
            v.push(101);
            v.push(99);
            v.push(116);
            v.push(101);
            v.push(100);
            assert(v@ =~= rejection_tag());
            v
        },
        Err(_) => Vec::new(),
    }
}

} // verus!
