//! Why a peer's bytes, or its silence, end a connection.
use crate::settings;
use crate::text;
use crate::text::push_decimal;
use vstd::prelude::*;

verus! {

/// The ways in which a client can break the protocol.
#[derive(Clone, Copy, Debug, PartialEq, Eq, Structural)]
pub enum ProtocolError {
    /// The buffer ended inside a VarInt.
    TruncatedVarint,
    /// A fifth VarInt byte still announced another one.
    VarintTooLong,
    /// The first byte was that of the pre-1.7 server list ping.
    LegacyPing,
    /// The handshake packet announced a length outside its bounds.
    BadHandshakeLength(i32),
    /// The first packet was not a handshake.
    NotAHandshake(i32),
    /// The handshake ended before its address and port did.
    TruncatedHandshake,
    /// A packet announced a length outside its bounds.
    BadPacketLength(i32),
    /// A packet that is neither a status request nor a ping.
    UnexpectedStatusPacket(i32),
    /// The handshake asked for a state other than status, login or transfer.
    UnexpectedNextState(i32),
    /// No complete handshake arrived in time.
    HandshakeTimeout,
    /// The status exchange did not complete in time.
    StatusTimeout,
}

/// The broad class of an error.
#[derive(Clone, Copy, Debug, PartialEq, Eq, Structural)]
pub enum ErrorClass {
    /// What arrived makes no sense.
    InvalidData,
    /// What arrived stopped too early.
    UnexpectedEof,
    /// Nothing arrived in time.
    TimedOut,
}

impl ProtocolError {
    /// The class of the error.
    pub open spec fn spec_class(self) -> ErrorClass {
        match self {
            ProtocolError::TruncatedVarint => ErrorClass::UnexpectedEof,
            ProtocolError::HandshakeTimeout | ProtocolError::StatusTimeout => ErrorClass::TimedOut,
            _ => ErrorClass::InvalidData,
        }
    }

    /// The class of the error.
    pub fn class(&self) -> (class: ErrorClass)
        ensures
            class == self.spec_class(),
    {
        match self {
            ProtocolError::TruncatedVarint => ErrorClass::UnexpectedEof,
            ProtocolError::HandshakeTimeout => ErrorClass::TimedOut,
            ProtocolError::StatusTimeout => ErrorClass::TimedOut,
            _ => ErrorClass::InvalidData,
        }
    }

    /// The error in words.
    pub open spec fn words(self) -> Seq<char> {
        match self {
            ProtocolError::TruncatedVarint => "truncated varint"@,
            ProtocolError::VarintTooLong => "varint too long"@,
            ProtocolError::LegacyPing => "legacy ping ignored"@,
            ProtocolError::BadHandshakeLength(n) => "bad handshake length "@ + text::decimal(
                n as int,
            ),
            ProtocolError::NotAHandshake(n) => "expected handshake packet, got id "@
                + text::decimal(n as int),
            ProtocolError::TruncatedHandshake => "truncated handshake"@,
            ProtocolError::BadPacketLength(n) => "bad packet length "@ + text::decimal(n as int),
            ProtocolError::UnexpectedStatusPacket(n) => "unexpected status packet id "@
                + text::decimal(n as int),
            ProtocolError::UnexpectedNextState(n) => "unexpected next_state "@ + text::decimal(
                n as int,
            ),
            ProtocolError::HandshakeTimeout => "handshake timeout"@,
            ProtocolError::StatusTimeout => "status timeout"@,
        }
    }

    /// The error in words.
    pub fn message(&self) -> (message: String)
        ensures
            message@ == self.words(),
    {
        match self {
            ProtocolError::TruncatedVarint => "truncated varint".to_owned(),
            ProtocolError::VarintTooLong => "varint too long".to_owned(),
            ProtocolError::LegacyPing => "legacy ping ignored".to_owned(),
            ProtocolError::BadHandshakeLength(n) => with_number("bad handshake length ", *n),
            ProtocolError::NotAHandshake(n) => with_number(
                "expected handshake packet, got id ",
                *n,
            ),
            ProtocolError::TruncatedHandshake => "truncated handshake".to_owned(),
            ProtocolError::BadPacketLength(n) => with_number("bad packet length ", *n),
            ProtocolError::UnexpectedStatusPacket(n) => with_number(
                "unexpected status packet id ",
                *n,
            ),
            ProtocolError::UnexpectedNextState(n) => with_number("unexpected next_state ", *n),
            ProtocolError::HandshakeTimeout => "handshake timeout".to_owned(),
            ProtocolError::StatusTimeout => "status timeout".to_owned(),
        }
    }
}

/// `words` and the number `n`.
fn with_number(words: &str, n: i32) -> (message: String)
    ensures
        message@ == words@ + text::decimal(n as int),
{
    let mut message: String = words.to_owned();
    push_decimal(&mut message, n);
    message
}

/// An error is a matter of time where something did not come in time, of what is
/// missing where a buffer ended inside a VarInt, and else of what came.
pub proof fn law_error_classes(e: ProtocolError)
    ensures
        e.spec_class() == ErrorClass::TimedOut <==> e == ProtocolError::HandshakeTimeout || e
            == ProtocolError::StatusTimeout,
        e.spec_class() == ErrorClass::UnexpectedEof <==> e == ProtocolError::TruncatedVarint,
{
}

/// The characters by which the words of an error tell its kind.
spec fn marks(s: Seq<char>) -> (char, char) {
    (
        s[0],
        if s[0] == 'b' {
            s[4]
        } else if s[0] == 't' {
            s[10]
        } else if s[0] == 'u' {
            s[11]
        } else {
            ' '
        },
    )
}

/// The number that an error carries.
spec fn carried(e: ProtocolError) -> Option<i32> {
    match e {
        ProtocolError::BadHandshakeLength(n) => Some(n),
        ProtocolError::NotAHandshake(n) => Some(n),
        ProtocolError::BadPacketLength(n) => Some(n),
        ProtocolError::UnexpectedStatusPacket(n) => Some(n),
        ProtocolError::UnexpectedNextState(n) => Some(n),
        _ => None,
    }
}

/// What the words of an error start and end with.
proof fn lemma_words(e: ProtocolError)
    ensures
        marks(e.words()) == match e {
            ProtocolError::TruncatedVarint => ('t', 'v'),
            ProtocolError::VarintTooLong => ('v', ' '),
            ProtocolError::LegacyPing => ('l', ' '),
            ProtocolError::BadHandshakeLength(_) => ('b', 'h'),
            ProtocolError::NotAHandshake(_) => ('e', ' '),
            ProtocolError::TruncatedHandshake => ('t', 'h'),
            ProtocolError::BadPacketLength(_) => ('b', 'p'),
            ProtocolError::UnexpectedStatusPacket(_) => ('u', 's'),
            ProtocolError::UnexpectedNextState(_) => ('u', 'n'),
            ProtocolError::HandshakeTimeout => ('h', ' '),
            ProtocolError::StatusTimeout => ('s', ' '),
        },
        carried(e) matches Some(n) ==> e.words() == e.words().take(
            e.words().len() - text::decimal(n as int).len(),
        ) + text::decimal(n as int),
        carried(e) matches Some(n) ==> e.words().len() - text::decimal(n as int).len() == match e {
            ProtocolError::BadHandshakeLength(_) => 21,
            ProtocolError::NotAHandshake(_) => 34,
            ProtocolError::BadPacketLength(_) => 18,
            ProtocolError::UnexpectedStatusPacket(_) => 28,
            _ => 22int,
        },
{
    match e {
        ProtocolError::TruncatedVarint => {
            reveal_strlit("truncated varint");
        },
        ProtocolError::VarintTooLong => {
            reveal_strlit("varint too long");
        },
        ProtocolError::LegacyPing => {
            reveal_strlit("legacy ping ignored");
        },
        ProtocolError::BadHandshakeLength(_) => {
            reveal_strlit("bad handshake length ");
        },
        ProtocolError::NotAHandshake(_) => {
            reveal_strlit("expected handshake packet, got id ");
        },
        ProtocolError::TruncatedHandshake => {
            reveal_strlit("truncated handshake");
        },
        ProtocolError::BadPacketLength(_) => {
            reveal_strlit("bad packet length ");
        },
        ProtocolError::UnexpectedStatusPacket(_) => {
            reveal_strlit("unexpected status packet id ");
        },
        ProtocolError::UnexpectedNextState(_) => {
            reveal_strlit("unexpected next_state ");
        },
        ProtocolError::HandshakeTimeout => {
            reveal_strlit("handshake timeout");
        },
        ProtocolError::StatusTimeout => {
            reveal_strlit("status timeout");
        },
    }
    if let Some(n) = carried(e) {
        let d = text::decimal(n as int);
        assert(e.words() =~= e.words().take(e.words().len() - d.len()) + d);
    }
}

/// The words of an error tell it from every other, down to the number that it carries,
/// which stands at their end in decimal.
pub proof fn law_words_tell_errors_apart(a: ProtocolError, b: ProtocolError)
    ensures
        a.words() == b.words() ==> a == b,
        a matches ProtocolError::BadHandshakeLength(n) ==> text::decimal(n as int).is_suffix_of(
            a.words(),
        ),
        a matches ProtocolError::NotAHandshake(n) ==> text::decimal(n as int).is_suffix_of(
            a.words(),
        ),
        a matches ProtocolError::BadPacketLength(n) ==> text::decimal(n as int).is_suffix_of(
            a.words(),
        ),
        a matches ProtocolError::UnexpectedStatusPacket(n) ==> text::decimal(
            n as int,
        ).is_suffix_of(a.words()),
        a matches ProtocolError::UnexpectedNextState(n) ==> text::decimal(n as int).is_suffix_of(
            a.words(),
        ),
{
    lemma_words(a);
    lemma_words(b);
    if let Some(n) = carried(a) {
        let d = text::decimal(n as int);
        let k = a.words().len() - d.len();
        assert(d.is_suffix_of(a.words())) by {
            assert(a.words().skip(k) =~= d);
        }
        if let Some(m) = carried(b) {
            let c = text::decimal(m as int);
            if a.words() == b.words() {
                assert(b.words().skip(b.words().len() - c.len()) =~= c);
                settings::law_decimal_is_canonical(n as int, m as int);
            }
        }
    }
}

} // verus!
