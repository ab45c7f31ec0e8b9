//! The status exchange, answered without the backend.
use crate::error::ProtocolError;
use crate::json;
use crate::json::json_escape;
use crate::packet;
use crate::packet::{frame_packet, push_bytes, string_packet};
use crate::settings::Settings;
use crate::text;
use crate::text::push_decimal;
use crate::varint;
use crate::varint::{read_varint_slice, write_varint};
use vstd::prelude::*;

verus! {

/// What a status ping is told of a backend without players.
#[derive(Clone, Copy, Debug, PartialEq, Eq, Structural)]
pub enum SleepState {
    /// Nothing is known to run.
    Asleep,
    /// It is being woken.
    Waking,
    /// It was up a short while ago.
    AwakeEmpty,
}

/// The message of the day for a state, as it stands inside a JSON string literal.
///
/// Asleep and waking have a message of their own; a backend that is up shows
/// its own message, so that the answer looks like the real server's.
pub open spec fn motd_text(state: SleepState, motd: Option<Seq<char>>) -> Seq<char> {
    match state {
        SleepState::Waking => r"\u00a7e\u26a1 Waking up... refresh and join in a moment!"@,
        SleepState::Asleep => r"\u00a77\u26a1 Server is asleep \u2014 join to wake it up!"@,
        SleepState::AwakeEmpty => match motd {
            Some(motd) => json::escaped(motd),
            None => "Minecraft Server"@,
        },
    }
}

/// The message of the day for a state, as it stands inside a JSON string literal.
pub fn motd_for(state: SleepState, motd: &Option<String>) -> (out: String)
    ensures
        out@ == motd_text(state, motd.deep_view()),
{
    match state {
        SleepState::Waking => {
            r"\u00a7e\u26a1 Waking up... refresh and join in a moment!".to_owned()
        },
        SleepState::Asleep => {
            r"\u00a77\u26a1 Server is asleep \u2014 join to wake it up!".to_owned()
        },
        SleepState::AwakeEmpty => match motd {
            Some(motd) => json_escape(motd.as_str()),
            None => "Minecraft Server".to_owned(),
        },
    }
}

/// The version name shown in server lists.
pub open spec fn version_name(version: Option<Seq<char>>) -> Seq<char> {
    match version {
        Some(version) => version,
        None => "Sleeping"@,
    }
}

/// The status document: version name and protocol number, no players, and a
/// message of the day that is already escaped.
pub open spec fn status_document(version: Seq<char>, protocol: i32, motd: Seq<char>) -> Seq<char> {
    r#"{"version":{"name":""#@ + version + r#"","protocol":"#@ + text::decimal(protocol as int)
        + r#"},"players":{"max":0,"online":0},"description":{"text":""#@ + motd + r#""}}"#@
}

/// The status document for a client of this protocol version, so that it finds
/// itself compatible.
pub fn status_json(settings: &Settings, protocol: i32, state: SleepState) -> (out: String)
    ensures
        out@ == status_document(
            version_name(settings.version.deep_view()),
            protocol,
            motd_text(state, settings.motd.deep_view()),
        ),
        version_is_readable(settings.version.deep_view()) ==> json::json_document(out@) == Some(
            status_value(
                shown_version(settings.version.deep_view()),
                protocol,
                shown_motd(state, settings.motd.deep_view()),
            ),
        ),
{
    proof {
        if version_is_readable(settings.version.deep_view()) {
            lemma_parts_read(*settings, state);
            law_status_document_reads(
                version_name(settings.version.deep_view()),
                protocol,
                motd_text(state, settings.motd.deep_view()),
            );
        }
    }
    let mut out: String = r#"{"version":{"name":""#.to_owned();
    match &settings.version {
        Some(version) => out.append(version.as_str()),
        None => out.append("Sleeping"),
    }
    out.append(r#"","protocol":"#);
    push_decimal(&mut out, protocol);
    out.append(r#"},"players":{"max":0,"online":0},"description":{"text":""#);
    let motd: String = motd_for(state, &settings.motd);
    out.append(motd.as_str());
    out.append(r#""}}"#);
    out
}

/// The answer to a packet of the status exchange.
pub enum StatusReplyOf<B> {
    /// The status document. More packets may follow.
    Status(B),
    /// The answer to a ping, which ends the exchange.
    Pong(B),
}

/// An answer with the bytes to send.
pub type StatusReply = StatusReplyOf<Vec<u8>>;

impl View for StatusReplyOf<Vec<u8>> {
    type V = StatusReplyOf<Seq<u8>>;

    open spec fn view(&self) -> StatusReplyOf<Seq<u8>> {
        match self {
            StatusReplyOf::Status(b) => StatusReplyOf::Status(b@),
            StatusReplyOf::Pong(b) => StatusReplyOf::Pong(b@),
        }
    }
}

/// The packet that answers a status request.
pub open spec fn status_answer(settings: Settings, protocol: i32, state: SleepState) -> Seq<u8> {
    packet::frame(
        packet::string_body(
            0,
            status_document(
                version_name(settings.version.deep_view()),
                protocol,
                motd_text(state, settings.motd.deep_view()),
            ),
        ),
    )
}

/// The packet that answers a ping whose content is `content`.
pub open spec fn pong(content: Seq<u8>) -> Seq<u8> {
    packet::frame(varint::encode_varint(1) + content)
}

/// What a packet of the status exchange is answered.
pub open spec fn status_exchange(
    settings: Settings,
    protocol: i32,
    state: SleepState,
    payload: Seq<u8>,
) -> Result<StatusReplyOf<Seq<u8>>, ProtocolError> {
    match varint::varint_at(payload, 0) {
        Err(e) => Err(e),
        Ok((id, behind)) => if id == 0 {
            Ok(StatusReplyOf::Status(status_answer(settings, protocol, state)))
        } else if id == 1 {
            Ok(StatusReplyOf::Pong(pong(payload.skip(behind))))
        } else {
            Err(ProtocolError::UnexpectedStatusPacket(id))
        },
    }
}

/// Answers a packet of the status exchange: a request with the status document,
/// a ping with its own content.
pub fn reply_to_status_packet(
    settings: &Settings,
    protocol: i32,
    state: SleepState,
    payload: &[u8],
) -> (res: Result<StatusReply, ProtocolError>)
    ensures
        match status_exchange(*settings, protocol, state, payload@) {
            Ok(reply) => res matches Ok(r) && r@ == reply,
            Err(e) => res == Err::<StatusReply, _>(e),
        },
{
    let mut idx: usize = 0;
    proof {
        varint::law_varint_incremental(varint::bytes_from(payload@, 0));
        assert(payload@.skip(0) =~= payload@);
    }
    let packet_id: i32 = match read_varint_slice(payload, &mut idx) {
        Ok(id) => id,
        Err(e) => return Err(e),
    };
    if packet_id == 0 {
        let json: String = status_json(settings, protocol, state);
        Ok(StatusReplyOf::Status(string_packet(0, json.as_str())))
    } else if packet_id == 1 {
        let mut body: Vec<u8> = Vec::new();
        write_varint(&mut body, 1);
        let content: &[u8] = vstd::slice::slice_subrange(payload, idx, payload.len());
        push_bytes(&mut body, content);
        assert(body@ =~= varint::encode_varint(1) + payload@.skip(idx as int));
        Ok(StatusReplyOf::Pong(frame_packet(body.as_slice())))
    } else {
        Err(ProtocolError::UnexpectedStatusPacket(packet_id))
    }
}

/// A ping comes back as it was sent.
pub proof fn law_pong_echoes_ping(
    settings: Settings,
    protocol: i32,
    state: SleepState,
    content: Seq<u8>,
)
    ensures
        status_exchange(settings, protocol, state, varint::encode_varint(1) + content) == Ok::<
            StatusReplyOf<Seq<u8>>,
            ProtocolError,
        >(StatusReplyOf::Pong(packet::frame(varint::encode_varint(1) + content))),
{
    let payload = varint::encode_varint(1) + content;
    varint::law_varint_round_trip(1, content);
    assert(payload.skip(0) =~= payload);
    assert(payload.skip(varint::encode_varint(1).len() as int) =~= content);
}

/// A backend that is up shows its own message of the day: what the document
/// holds reads as exactly that message.
pub proof fn law_awake_shows_own_motd(motd: Seq<char>)
    ensures
        json::json_text(motd_text(SleepState::AwakeEmpty, Some(motd))) == Some(motd),
{
    json::law_escaped_text_reads_back(motd);
}

/// What a player sees in its server list as the message of the day: a section sign
/// and a colour, a lightning sign, and how the backend stands; or the server's own
/// message.
pub open spec fn shown_motd(state: SleepState, motd: Option<Seq<char>>) -> Seq<char> {
    match state {
        SleepState::Waking => seq!['\u{a7}', 'e', '\u{26a1}']
            + " Waking up... refresh and join in a moment!"@,
        SleepState::Asleep => seq!['\u{a7}', '7', '\u{26a1}'] + " Server is asleep "@ + seq![
            '\u{2014}',
        ] + " join to wake it up!"@,
        SleepState::AwakeEmpty => match motd {
            Some(motd) => motd,
            None => "Minecraft Server"@,
        },
    }
}

/// The message for a backend that is being woken may stand inside a JSON string literal.
proof fn lemma_waking_motd_is_json_text()
    ensures
        json::json_text(motd_text(SleepState::Waking, None)) == Some(
            shown_motd(SleepState::Waking, None),
        ),
{
    reveal_strlit(r"\u00a7e\u26a1 Waking up... refresh and join in a moment!");
    reveal_strlit(r"\u00a7");
    json::lemma_single_escape(r"\u00a7"@);
    reveal_strlit("e");
    json::law_plain_text_is_unchanged("e"@);
    reveal_strlit(r"\u26a1");
    json::lemma_single_escape(r"\u26a1"@);
    reveal_strlit(" Waking up... refresh and join in a moment!");
    json::law_plain_text_is_unchanged(" Waking up... refresh and join in a moment!"@);
    let t0 = r"\u00a7"@;
    let t1 = t0 + "e"@;
    json::law_json_texts_join(t0, "e"@);
    let t2 = t1 + r"\u26a1"@;
    json::law_json_texts_join(t1, r"\u26a1"@);
    let t3 = t2 + " Waking up... refresh and join in a moment!"@;
    json::law_json_texts_join(t2, " Waking up... refresh and join in a moment!"@);
    assert(motd_text(SleepState::Waking, None) =~= t3);
    assert(json::json_text(t3).unwrap() =~= shown_motd(SleepState::Waking, None));
}

/// The message for a sleeping backend may stand inside a JSON string literal.
proof fn lemma_asleep_motd_is_json_text()
    ensures
        json::json_text(motd_text(SleepState::Asleep, None)) == Some(
            shown_motd(SleepState::Asleep, None),
        ),
{
    reveal_strlit(r"\u00a77\u26a1 Server is asleep \u2014 join to wake it up!");
    reveal_strlit(r"\u00a7");
    json::lemma_single_escape(r"\u00a7"@);
    reveal_strlit("7");
    json::law_plain_text_is_unchanged("7"@);
    reveal_strlit(r"\u26a1");
    json::lemma_single_escape(r"\u26a1"@);
    reveal_strlit(" Server is asleep ");
    json::law_plain_text_is_unchanged(" Server is asleep "@);
    reveal_strlit(r"\u2014");
    json::lemma_single_escape(r"\u2014"@);
    reveal_strlit(" join to wake it up!");
    json::law_plain_text_is_unchanged(" join to wake it up!"@);
    let t0 = r"\u00a7"@;
    let t1 = t0 + "7"@;
    json::law_json_texts_join(t0, "7"@);
    let t2 = t1 + r"\u26a1"@;
    json::law_json_texts_join(t1, r"\u26a1"@);
    let t3 = t2 + " Server is asleep "@;
    json::law_json_texts_join(t2, " Server is asleep "@);
    let t4 = t3 + r"\u2014"@;
    json::law_json_texts_join(t3, r"\u2014"@);
    let t5 = t4 + " join to wake it up!"@;
    json::law_json_texts_join(t4, " join to wake it up!"@);
    assert(motd_text(SleepState::Asleep, None) =~= t5);
    assert(json::json_text(t5).unwrap() =~= shown_motd(SleepState::Asleep, None));
}

/// Whatever the state and whatever the message of the day that is set, what is put
/// into the document may stand inside a JSON string literal, and reads there as what
/// the player is to see.
pub proof fn law_motd_is_json_text(state: SleepState, motd: Option<Seq<char>>)
    ensures
        json::json_text(motd_text(state, motd)) is Some,
        json::json_text(motd_text(state, motd)) == Some(shown_motd(state, motd)),
{
    match state {
        SleepState::AwakeEmpty => match motd {
            Some(motd) => {
                law_awake_shows_own_motd(motd);
            },
            None => {
                let s = "Minecraft Server"@;
                reveal_strlit("Minecraft Server");
                json::law_plain_text_is_unchanged(s);
            },
        },
        SleepState::Waking => {
            lemma_waking_motd_is_json_text();
        },
        SleepState::Asleep => {
            lemma_asleep_motd_is_json_text();
        },
    }
}

/// The version name is set to something that may stand inside a JSON string literal,
/// or not set.
pub open spec fn version_is_readable(version: Option<Seq<char>>) -> bool {
    version matches Some(v) ==> json::json_text(v) is Some
}

/// What a player sees as the version name: the one that is set, as it reads inside
/// a JSON string literal.
pub open spec fn shown_version(version: Option<Seq<char>>) -> Seq<char> {
    match version {
        Some(v) => json::json_text(v).unwrap(),
        None => "Sleeping"@,
    }
}

/// What a status answer says: version name and protocol number, that nobody plays,
/// and a message of the day.
pub open spec fn status_value(name: Seq<char>, protocol: i32, motd: Seq<char>) -> json::Json {
    json::Json::Object(
        seq![
            (
                "version"@,
                json::Json::Object(
                    seq![
                        ("name"@, json::Json::Text(name)),
                        ("protocol"@, json::Json::Number(protocol as int)),
                    ],
                ),
            ),
            (
                "players"@,
                json::Json::Object(
                    seq![("max"@, json::Json::Number(0)), ("online"@, json::Json::Number(0))],
                ),
            ),
            (
                "description"@,
                json::Json::Object(seq![("text"@, json::Json::Text(motd))]),
            ),
        ],
    )
}

/// The names of the members of a status document stand for themselves.
proof fn lemma_member_names()
    ensures
        json::json_text("version"@) == Some("version"@),
        json::json_text("name"@) == Some("name"@),
        json::json_text("protocol"@) == Some("protocol"@),
        json::json_text("players"@) == Some("players"@),
        json::json_text("max"@) == Some("max"@),
        json::json_text("online"@) == Some("online"@),
        json::json_text("description"@) == Some("description"@),
        json::json_text("text"@) == Some("text"@),
{
    reveal_strlit("version");
    reveal_strlit("name");
    reveal_strlit("protocol");
    reveal_strlit("players");
    reveal_strlit("max");
    reveal_strlit("online");
    reveal_strlit("description");
    reveal_strlit("text");
    json::law_plain_text_is_unchanged("version"@);
    json::law_plain_text_is_unchanged("name"@);
    json::law_plain_text_is_unchanged("protocol"@);
    json::law_plain_text_is_unchanged("players"@);
    json::law_plain_text_is_unchanged("max"@);
    json::law_plain_text_is_unchanged("online"@);
    json::law_plain_text_is_unchanged("description"@);
    json::law_plain_text_is_unchanged("text"@);
}

/// The member that holds the message of the day, and the end of the document.
spec fn description_tail(motd: Seq<char>) -> Seq<char> {
    json::member(
        "description"@,
        seq!['{'] + json::member("text"@, seq!['"'] + (motd + (seq!['"'] + seq!['}', '}']))),
    )
}

/// The members behind the version, to the end of the document.
spec fn players_tail(motd: Seq<char>) -> Seq<char> {
    json::member(
        "players"@,
        seq!['{'] + json::member(
            "max"@,
            text::decimal(0) + (seq![','] + json::member(
                "online"@,
                text::decimal(0) + (seq!['}'] + (seq![','] + description_tail(motd))),
            )),
        ),
    )
}

/// The end of a status document reads as its last member.
proof fn lemma_description_reads(motd: Seq<char>)
    requires
        json::json_text(motd) is Some,
    ensures
        json::read_members(description_tail(motd)) == Some(
            (
                seq![
                    (
                        "description"@,
                        json::Json::Object(
                            seq![("text"@, json::Json::Text(json::json_text(motd).unwrap()))],
                        ),
                    ),
                ],
                Seq::<char>::empty(),
            ),
        ),
{
    lemma_member_names();
    let close = seq!['}', '}'];
    let last = seq!['}'];
    let none = Seq::<char>::empty();
    let literal = seq!['"'] + (motd + (seq!['"'] + close));
    let value = json::Json::Text(json::json_text(motd).unwrap());
    json::lemma_read_string(motd, close);
    assert(close =~= seq!['}'] + last);
    json::lemma_last_member("text"@, literal, value, last);
    let inner = json::member("text"@, literal);
    json::lemma_read_object(inner, seq![("text"@, value)], last);
    assert(last =~= seq!['}'] + none);
    json::lemma_last_member(
        "description"@,
        seq!['{'] + inner,
        json::Json::Object(seq![("text"@, value)]),
        none,
    );
}

/// What follows the version in a status document reads as nobody's playing, and the
/// message of the day.
proof fn lemma_players_read(motd: Seq<char>)
    requires
        json::json_text(motd) is Some,
    ensures
        json::read_members(players_tail(motd)) == Some(
            (
                seq![
                    (
                        "players"@,
                        json::Json::Object(
                            seq![
                                ("max"@, json::Json::Number(0)),
                                ("online"@, json::Json::Number(0)),
                            ],
                        ),
                    ),
                    (
                        "description"@,
                        json::Json::Object(
                            seq![("text"@, json::Json::Text(json::json_text(motd).unwrap()))],
                        ),
                    ),
                ],
                Seq::<char>::empty(),
            ),
        ),
{
    lemma_member_names();
    lemma_description_reads(motd);
    let next = description_tail(motd);
    let none = Seq::<char>::empty();
    let zero = json::Json::Number(0);
    let follow = seq![','] + next;
    let online = text::decimal(0) + (seq!['}'] + follow);
    json::lemma_read_decimal(0, seq!['}'] + follow);
    json::lemma_last_member("online"@, online, zero, follow);
    let s = json::member("online"@, online);
    let max = text::decimal(0) + (seq![','] + s);
    json::lemma_read_decimal(0, seq![','] + s);
    json::lemma_more_members("max"@, max, zero, s, seq![("online"@, zero)], follow);
    let counts = seq![("max"@, zero), ("online"@, zero)];
    assert(seq![("max"@, zero)] + seq![("online"@, zero)] =~= counts);
    let inner = json::member("max"@, max);
    json::lemma_read_object(inner, counts, follow);
    let text = json::Json::Object(
        seq![("text"@, json::Json::Text(json::json_text(motd).unwrap()))],
    );
    json::lemma_more_members(
        "players"@,
        seq!['{'] + inner,
        json::Json::Object(counts),
        next,
        seq![("description"@, text)],
        none,
    );
    assert(seq![("players"@, json::Json::Object(counts))] + seq![("description"@, text)] =~= seq![
        ("players"@, json::Json::Object(counts)),
        ("description"@, text),
    ]);
}

/// A status document, member by member.
spec fn document_by_members(version: Seq<char>, protocol: i32, motd: Seq<char>) -> Seq<char> {
    seq!['{'] + json::member(
        "version"@,
        seq!['{'] + json::member(
            "name"@,
            seq!['"'] + (version + (seq!['"'] + (seq![','] + json::member(
                "protocol"@,
                text::decimal(protocol as int) + (seq!['}'] + (seq![','] + players_tail(motd))),
            )))),
        ),
    )
}

/// A document that is written member by member reads as those members.
proof fn lemma_members_read(version: Seq<char>, protocol: i32, motd: Seq<char>)
    requires
        json::json_text(version) is Some,
        json::json_text(motd) is Some,
    ensures
        json::json_document(document_by_members(version, protocol, motd)) == Some(
            status_value(
                json::json_text(version).unwrap(),
                protocol,
                json::json_text(motd).unwrap(),
            ),
        ),
{
    lemma_member_names();
    lemma_players_read(motd);
    let none = Seq::<char>::empty();
    let next = players_tail(motd);
    let follow = seq![','] + next;
    let more = json::read_members(next).unwrap().0;
    let number = json::Json::Number(protocol as int);
    let tail = text::decimal(protocol as int) + (seq!['}'] + follow);
    json::lemma_read_decimal(protocol as int, seq!['}'] + follow);
    json::lemma_last_member("protocol"@, tail, number, follow);
    let s = json::member("protocol"@, tail);
    let name = json::Json::Text(json::json_text(version).unwrap());
    let literal = seq!['"'] + (version + (seq!['"'] + (seq![','] + s)));
    json::lemma_read_string(version, seq![','] + s);
    json::lemma_more_members("name"@, literal, name, s, seq![("protocol"@, number)], follow);
    let own = seq![("name"@, name), ("protocol"@, number)];
    assert(seq![("name"@, name)] + seq![("protocol"@, number)] =~= own);
    let inner = json::member("name"@, literal);
    json::lemma_read_object(inner, own, follow);
    json::lemma_more_members(
        "version"@,
        seq!['{'] + inner,
        json::Json::Object(own),
        next,
        more,
        none,
    );
    let all = seq![("version"@, json::Json::Object(own))] + more;
    json::lemma_read_object(json::member("version"@, seq!['{'] + inner), all, none);
    assert(all =~= seq![("version"@, json::Json::Object(own)), more[0], more[1]]);
}

/// The fixed text before the message of the day, and that message, are the members
/// behind the version.
proof fn lemma_tail_by_members(motd: Seq<char>)
    ensures
        r#"},"players":{"max":0,"online":0},"description":{"text":""#@ + (motd + r#""}}"#@)
            == seq!['}'] + (seq![','] + players_tail(motd)),
{
    reveal_strlit(r#"},"players":{"max":0,"online":0},"description":{"text":""#);
    reveal_strlit(r#""}}"#);
    reveal_strlit("players");
    reveal_strlit("max");
    reveal_strlit("online");
    reveal_strlit("description");
    reveal_strlit("text");
    let end = motd + r#""}}"#@;
    let c = r#"},"players":{"max":0,"online":0},"description":{"text":""#@;
    assert(end =~= motd + (seq!['"'] + seq!['}', '}']));
    assert(text::decimal(0) =~= seq!['0']);
    assert(c + end =~= seq!['}'] + (seq![','] + players_tail(motd)));
}

/// A status document is written member by member.
proof fn lemma_document_by_members(version: Seq<char>, protocol: i32, motd: Seq<char>)
    ensures
        status_document(version, protocol, motd) == document_by_members(version, protocol, motd),
{
    lemma_tail_by_members(motd);
    let a = r#"{"version":{"name":""#@;
    let b = r#"","protocol":"#@;
    let c = r#"},"players":{"max":0,"online":0},"description":{"text":""#@;
    let d = r#""}}"#@;
    let n = text::decimal(protocol as int);
    let end = c + (motd + d);
    assert(status_document(version, protocol, motd) =~= a + (version + (b + (n + end))));
    reveal_strlit("version");
    reveal_strlit("name");
    reveal_strlit("protocol");
    let rest = n + end;
    assert(b + rest =~= seq!['"'] + (seq![','] + json::member("protocol"@, rest))) by {
        reveal_strlit(r#"","protocol":"#);
    }
    let behind = version + (b + rest);
    assert(a + behind =~= seq!['{'] + json::member(
        "version"@,
        seq!['{'] + json::member("name"@, seq!['"'] + behind),
    )) by {
        reveal_strlit(r#"{"version":{"name":""#);
    }
}

/// A status document reads as the version name, the protocol number and the message
/// of the day that were put into it, with nobody playing.
pub proof fn law_status_document_reads(version: Seq<char>, protocol: i32, motd: Seq<char>)
    requires
        json::json_text(version) is Some,
        json::json_text(motd) is Some,
    ensures
        json::json_document(status_document(version, protocol, motd)) == Some(
            status_value(
                json::json_text(version).unwrap(),
                protocol,
                json::json_text(motd).unwrap(),
            ),
        ),
{
    lemma_document_by_members(version, protocol, motd);
    lemma_members_read(version, protocol, motd);
}

/// What is put into a document for these settings reads as what the player is to see.
proof fn lemma_parts_read(settings: Settings, state: SleepState)
    requires
        version_is_readable(settings.version.deep_view()),
    ensures
        json::json_text(version_name(settings.version.deep_view())) == Some(
            shown_version(settings.version.deep_view()),
        ),
        json::json_text(motd_text(state, settings.motd.deep_view())) == Some(
            shown_motd(state, settings.motd.deep_view()),
        ),
{
    law_motd_is_json_text(state, settings.motd.deep_view());
    reveal_strlit("Sleeping");
    json::law_plain_text_is_unchanged("Sleeping"@);
}

/// Whoever asks for the status gets a packet with id zero that carries a document, in
/// which stand the version name that is set, the client's own protocol number, and
/// the message of the day for the state of the backend: the server's own where it is
/// up. A packet past the largest length that can be announced is out of scope.
pub proof fn law_status_request_is_answered(
    settings: Settings,
    protocol: i32,
    state: SleepState,
    payload: Seq<u8>,
)
    requires
        varint::varint_at(payload, 0) matches Ok((id, _)) && id == 0,
        version_is_readable(settings.version.deep_view()),
    ensures
        status_exchange(settings, protocol, state, payload) matches Ok(StatusReplyOf::Status(sent))
            && (sent.len() <= i32::MAX ==> (packet::carried_text(sent) matches Some((id, doc)) && id
            == 0 && json::json_document(doc) == Some(
            status_value(
                shown_version(settings.version.deep_view()),
                protocol,
                shown_motd(state, settings.motd.deep_view()),
            ),
        ))),
{
    let version = version_name(settings.version.deep_view());
    let motd = motd_text(state, settings.motd.deep_view());
    lemma_parts_read(settings, state);
    law_status_document_reads(version, protocol, motd);
    if status_answer(settings, protocol, state).len() <= i32::MAX {
        packet::law_string_packet_carries_text(0, status_document(version, protocol, motd));
    }
}

/// The version name that is set goes into the document as it stands, whatever it
/// holds: two answers that differ in it alone are the same text round it.
pub proof fn law_version_is_put_in_verbatim(
    a: Settings,
    b: Settings,
    protocol: i32,
    state: SleepState,
    payload: Seq<u8>,
)
    requires
        varint::varint_at(payload, 0) matches Ok((id, _)) && id == 0,
        a.version is Some,
        b.version is Some,
        a.motd.deep_view() == b.motd.deep_view(),
    ensures
        status_exchange(a, protocol, state, payload) matches Ok(StatusReplyOf::Status(sent_a)) && (
        status_exchange(b, protocol, state, payload) matches Ok(StatusReplyOf::Status(sent_b)) && (
        sent_a.len() <= i32::MAX && sent_b.len() <= i32::MAX ==> exists|
            head: Seq<char>,
            tail: Seq<char>,
        |
            packet::carried_text(sent_a) == Some(
                (0i32, #[trigger] (head + a.version.unwrap()@ + tail)),
            ) && packet::carried_text(sent_b) == Some(
                (0i32, head + b.version.unwrap()@ + tail),
            ))),
{
    let sent_a = status_answer(a, protocol, state);
    let sent_b = status_answer(b, protocol, state);
    if sent_a.len() <= i32::MAX && sent_b.len() <= i32::MAX {
        let va = a.version.unwrap()@;
        let vb = b.version.unwrap()@;
        let motd = motd_text(state, a.motd.deep_view());
        packet::law_string_packet_carries_text(0, status_document(va, protocol, motd));
        packet::law_string_packet_carries_text(0, status_document(vb, protocol, motd));
        let head = r#"{"version":{"name":""#@;
        let tail = r#"","protocol":"#@ + text::decimal(protocol as int)
            + r#"},"players":{"max":0,"online":0},"description":{"text":""#@ + motd + r#""}}"#@;
        assert(status_document(va, protocol, motd) =~= head + va + tail);
        assert(status_document(vb, protocol, motd) =~= head + vb + tail);
    }
}

/// A packet that is neither a request nor a ping is refused and named; one that ends
/// inside its id, or whose id never ends, is refused as that.
pub proof fn law_other_status_packets_are_refused(
    settings: Settings,
    protocol: i32,
    state: SleepState,
    id: i32,
    payload: Seq<u8>,
    content: Seq<u8>,
)
    requires
        id != 0,
        id != 1,
    ensures
        status_exchange(settings, protocol, state, varint::encode_varint(id) + content) == Err::<
            StatusReplyOf<Seq<u8>>,
            _,
        >(ProtocolError::UnexpectedStatusPacket(id)),
        payload.len() < 5 && (forall|i: int|
            0 <= i < payload.len() ==> #[trigger] payload[i] >= 128) ==> status_exchange(settings, protocol, state, payload) == Err::<
            StatusReplyOf<Seq<u8>>,
            _,
        >(ProtocolError::TruncatedVarint),
        payload.len() >= 5 && (forall|i: int| 0 <= i < 5 ==> #[trigger] payload[i] >= 128)
            ==> status_exchange(settings, protocol, state, payload) == Err::<
            StatusReplyOf<Seq<u8>>,
            _,
        >(ProtocolError::VarintTooLong),
{
    let s = varint::encode_varint(id) + content;
    varint::law_varint_round_trip(id, content);
    assert(s.skip(0) =~= s);
    assert(payload.skip(0) =~= payload);
    varint::law_varint_forms(payload);
}

/// Whatever form the id of a ping has, its content comes back behind the id of a pong.
pub proof fn law_ping_content_comes_back(
    settings: Settings,
    protocol: i32,
    state: SleepState,
    payload: Seq<u8>,
)
    requires
        varint::varint_at(payload, 0) matches Ok((id, _)) && id == 1,
    ensures
        status_exchange(settings, protocol, state, payload) matches Ok(StatusReplyOf::Pong(sent))
            && (sent.len() <= i32::MAX ==> packet::read_packet(sent, i32::MAX) == (
        packet::PacketRead::Packet {
            payload: seq![1u8] + payload.skip(varint::varint_at(payload, 0)->Ok_0.1),
            used: sent.len(),
        })),
{
    let content = payload.skip(varint::varint_at(payload, 0)->Ok_0.1);
    let body = varint::encode_varint(1) + content;
    assert(varint::encode_varint(1) =~= seq![1u8]);
    if packet::frame(body).len() <= i32::MAX {
        packet::law_packet_round_trip(body, Seq::empty(), i32::MAX);
        assert(packet::frame(body) + Seq::<u8>::empty() =~= packet::frame(body));
    }
}

} // verus!
