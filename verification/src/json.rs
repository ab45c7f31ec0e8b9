//! Text inside JSON string literals, and how JSON documents read.
use crate::settings;
use crate::text;
use crate::text::push_hex_digit;
use vstd::prelude::*;

verus! {

/// `c` as it stands inside a JSON string literal.
pub open spec fn escape_char(c: char) -> Seq<char> {
    if c == '"' {
        seq!['\\', '"']
    } else if c == '\\' {
        seq!['\\', '\\']
    } else if c == '\n' {
        seq!['\\', 'n']
    } else if (c as u32) < 0x20 {
        seq![
            '\\',
            'u',
            '0',
            '0',
            text::hex_digit(c as nat / 16),
            text::hex_digit(c as nat % 16),
        ]
    } else {
        seq![c]
    }
}

/// `s` with each character as it stands inside a JSON string literal.
pub open spec fn escaped(s: Seq<char>) -> Seq<char>
    decreases s.len(),
{
    if s.len() == 0 {
        Seq::empty()
    } else {
        escape_char(s[0]) + escaped(s.skip(1))
    }
}

/// Appends `c` as it stands inside a JSON string literal.
fn push_escaped(out: &mut String, c: char)
    ensures
        final(out)@ == old(out)@ + escape_char(c),
{
    let code: u32 = c as u32;
    if c == '"' {
        out.append("\\\"");
        proof {
            reveal_strlit("\\\"");
        }
    } else if c == '\\' {
        out.append("\\\\");
        proof {
            reveal_strlit("\\\\");
        }
    } else if c == '\n' {
        out.append("\\n");
        proof {
            reveal_strlit("\\n");
        }
    } else if code < 0x20 {
        out.append("\\u00");
        proof {
            reveal_strlit("\\u00");
        }
        push_hex_digit(out, code / 16);
        push_hex_digit(out, code % 16);
    } else {
        out.push(c);
    }
    assert(out@ =~= old(out)@ + escape_char(c));
}

/// Escapes a plain-text string so it can be embedded inside a JSON string.
pub fn json_escape(s: &str) -> (out: String)
    ensures
        out@ == escaped(s@),
{
    let mut out: String = String::new();
    assert(s@.skip(0) =~= s@);
    for c in it: s.chars()
        invariant
            it.seq() == s@,
            out@ + escaped(s@.skip(it.index() as int)) == escaped(s@),
    {
        let ghost before = out@;
        push_escaped(&mut out, c);
        proof {
            let rest = s@.skip(it.index() as int);
            assert(rest[0] == c);
            assert(rest.skip(1) =~= s@.skip(it.index() as int + 1));
            assert(before + escaped(rest) =~= out@ + escaped(rest.skip(1)));
        }
    }
    assert(escaped(Seq::empty()) =~= Seq::<char>::empty());
    out
}

/// The value of a hexadecimal digit.
pub open spec fn hex_value(c: char) -> Option<nat> {
    if '0' <= c <= '9' {
        Some((c as nat - '0' as nat) as nat)
    } else if 'a' <= c <= 'f' {
        Some((c as nat - 'a' as nat + 10) as nat)
    } else if 'A' <= c <= 'F' {
        Some((c as nat - 'A' as nat + 10) as nat)
    } else {
        None
    }
}

/// The number that four hexadecimal digits write.
pub open spec fn hex4_value(a: char, b: char, c: char, d: char) -> Option<nat> {
    match (hex_value(a), hex_value(b), hex_value(c), hex_value(d)) {
        (Some(a), Some(b), Some(c), Some(d)) => Some(4096 * a + 256 * b + 16 * c + d),
        _ => None,
    }
}

/// The character that a two-character JSON escape stands for.
pub open spec fn short_escape(c: char) -> Option<char> {
    match c {
        '"' => Some('"'),
        '\\' => Some('\\'),
        '/' => Some('/'),
        'b' => Some('\u{8}'),
        'f' => Some('\u{c}'),
        'n' => Some('\n'),
        'r' => Some('\r'),
        't' => Some('\t'),
        _ => None,
    }
}

/// The first character that the inside of a JSON string literal stands for, and
/// how many characters write it. Escaped surrogates have no reading here.
pub open spec fn json_first(s: Seq<char>) -> Option<(char, int)> {
    if s[0] == '"' || (s[0] as u32) < 0x20 {
        None
    } else if s[0] != '\\' {
        Some((s[0], 1))
    } else if s.len() < 2 {
        None
    } else if s[1] != 'u' {
        match short_escape(s[1]) {
            Some(c) => Some((c, 2)),
            None => None,
        }
    } else if s.len() < 6 {
        None
    } else {
        match hex4_value(s[2], s[3], s[4], s[5]) {
            Some(code) => if 0xD800 <= code < 0xE000 {
                None
            } else {
                Some((code as char, 6))
            },
            None => None,
        }
    }
}

/// The text that the inside of a JSON string literal stands for; `None` where it
/// may not stand there.
pub open spec fn json_text(s: Seq<char>) -> Option<Seq<char>>
    decreases s.len(),
{
    if s.len() == 0 {
        Some(Seq::empty())
    } else {
        match json_first(s) {
            Some((c, n)) if 0 < n <= s.len() => match json_text(s.skip(n)) {
                Some(rest) => Some(seq![c] + rest),
                None => None,
            },
            _ => None,
        }
    }
}

/// A character that was escaped is read back.
proof fn lemma_escape_char_reads_back(c: char, rest: Seq<char>)
    ensures
        json_first(escape_char(c) + rest) == Some((c, escape_char(c).len() as int)),
{
    let s = escape_char(c) + rest;
    if c != '"' && c != '\\' && c != '\n' && (c as u32) < 0x20 {
        let hi = c as nat / 16;
        let lo = c as nat % 16;
        assert(hex_value(text::hex_digit(hi)) == Some(hi));
        assert(hex_value(text::hex_digit(lo)) == Some(lo));
        assert(s[2] == '0' && s[3] == '0' && s[4] == text::hex_digit(hi) && s[5]
            == text::hex_digit(lo));
        assert(hex4_value(s[2], s[3], s[4], s[5]) == Some(c as nat));
    }
}

/// Escaped text may stand inside a JSON string literal, and reads there as the
/// text that was escaped.
pub proof fn law_escaped_text_reads_back(s: Seq<char>)
    ensures
        json_text(escaped(s)) == Some(s),
    decreases s.len(),
{
    if s.len() == 0 {
        assert(s =~= Seq::<char>::empty());
    } else {
        let e = escape_char(s[0]);
        law_escaped_text_reads_back(s.skip(1));
        lemma_escape_char_reads_back(s[0], escaped(s.skip(1)));
        assert((e + escaped(s.skip(1))).skip(e.len() as int) =~= escaped(s.skip(1)));
        assert(seq![s[0]] + s.skip(1) =~= s);
    }
}

/// The character stands for itself inside a JSON string literal.
pub open spec fn is_plain(c: char) -> bool {
    c != '"' && c != '\\' && (c as u32) >= 0x20
}

/// Text that needs no escape is left as it is, and reads as itself.
pub proof fn law_plain_text_is_unchanged(s: Seq<char>)
    requires
        forall|i: int| 0 <= i < s.len() ==> is_plain(#[trigger] s[i]),
    ensures
        escaped(s) == s,
        json_text(s) == Some(s),
    decreases s.len(),
{
    if s.len() > 0 {
        assert(is_plain(s[0]));
        assert forall|i: int| 0 <= i < s.skip(1).len() implies is_plain(
            #[trigger] s.skip(1)[i],
        ) by {
            assert(is_plain(s[i + 1]));
        }
        law_plain_text_is_unchanged(s.skip(1));
        assert(seq![s[0]] + s.skip(1) =~= s);
    } else {
        assert(s =~= Seq::<char>::empty());
    }
    law_escaped_text_reads_back(s);
}

/// Two texts that may stand inside a JSON string literal may stand there one behind
/// the other, and read as the two texts put together.
pub proof fn law_json_texts_join(a: Seq<char>, b: Seq<char>)
    requires
        json_text(a) is Some,
        json_text(b) is Some,
    ensures
        json_text(a + b) == Some(json_text(a).unwrap() + json_text(b).unwrap()),
    decreases a.len(),
{
    if a.len() == 0 {
        assert(a + b =~= b);
        assert(json_text(a).unwrap() + json_text(b).unwrap() =~= json_text(b).unwrap());
    } else {
        let (c, n) = json_first(a).unwrap();
        let rest = a.skip(n);
        law_json_texts_join(rest, b);
        assert(json_first(a + b) == json_first(a));
        assert((a + b).skip(n) =~= rest + b);
        assert(seq![c] + (json_text(rest).unwrap() + json_text(b).unwrap()) =~= (seq![c]
            + json_text(rest).unwrap()) + json_text(b).unwrap());
    }
}

/// One escape, and nothing else, may stand inside a JSON string literal.
pub proof fn lemma_single_escape(s: Seq<char>)
    requires
        s.len() > 0,
        json_first(s) matches Some((_, n)) && n == s.len(),
    ensures
        json_text(s) == Some(seq![json_first(s).unwrap().0]),
{
    let rest = s.skip(s.len() as int);
    assert(json_text(rest) == Some(Seq::<char>::empty()));
    assert(seq![json_first(s).unwrap().0] + Seq::<char>::empty() =~= seq![
        json_first(s).unwrap().0,
    ]);
}

/// Text that is escaped piece by piece is escaped: what stands for a character does
/// not depend on its neighbours.
pub proof fn law_escaped_piece_by_piece(a: Seq<char>, b: Seq<char>)
    ensures
        escaped(a + b) == escaped(a) + escaped(b),
    decreases a.len(),
{
    if a.len() == 0 {
        assert(a + b =~= b);
        assert(escaped(a) + escaped(b) =~= escaped(b));
    } else {
        law_escaped_piece_by_piece(a.skip(1), b);
        assert((a + b).skip(1) =~= a.skip(1) + b);
        assert((a + b)[0] == a[0]);
        assert(escaped(a + b) =~= escaped(a) + escaped(b));
    }
}

/// A character that can stand for itself does; a quotation mark, a backslash and a
/// line end take a backslash and one character; any other control character is
/// written by its number, in four lower-case hexadecimal digits.
pub proof fn law_escape_of_one_character(c: char)
    ensures
        ({
            let e = escaped(seq![c]);
            &&& is_plain(c) ==> e == seq![c]
            &&& c == '"' ==> e == seq!['\\', '"']
            &&& c == '\\' ==> e == seq!['\\', '\\']
            &&& c == '\n' ==> e == seq!['\\', 'n']
            &&& (c as u32) < 0x20 && c != '\n' ==> e.len() == 6 && e[0] == '\\' && e[1] == 'u'
                && hex4_value(e[2], e[3], e[4], e[5]) == Some(c as nat) && !('A' <= e[4] <= 'F')
                && !('A' <= e[5] <= 'F')
        }),
{
    let s = seq![c];
    lemma_escape_char_reads_back(c, Seq::empty());
    assert(s.skip(1) =~= Seq::<char>::empty());
    assert(escaped(s.skip(1)) =~= Seq::<char>::empty());
    assert(escaped(s) =~= escape_char(c));
    assert(escape_char(c) + Seq::<char>::empty() =~= escape_char(c));
    if (c as u32) < 0x20 && c != '\n' {
        let hi = c as nat / 16;
        let lo = c as nat % 16;
        assert(hex_value(text::hex_digit(hi)) == Some(hi));
        assert(hex_value(text::hex_digit(lo)) == Some(lo));
    }
}

/// A JSON value of the kinds that are exchanged here.
pub enum Json {
    /// A string.
    Text(Seq<char>),
    /// A whole number.
    Number(int),
    /// An object: its members by name, in the order in which they are written.
    Object(Seq<(Seq<char>, Json)>),
}

/// The text of a string literal, from behind its opening quotation mark, and what
/// follows its closing one.
pub open spec fn read_text(s: Seq<char>) -> Option<(Seq<char>, Seq<char>)>
    decreases s.len(),
{
    if s.len() == 0 {
        None
    } else if s[0] == '"' {
        Some((Seq::empty(), s.skip(1)))
    } else {
        match json_first(s) {
            Some((c, n)) if 0 < n <= s.len() => match read_text(s.skip(n)) {
                Some((t, rest)) => Some((seq![c] + t, rest)),
                None => None,
            },
            _ => None,
        }
    }
}

/// How many digits `s` starts with.
pub open spec fn digit_count(s: Seq<char>) -> nat
    decreases s.len(),
{
    if s.len() == 0 || !('0' <= s[0] <= '9') {
        0
    } else {
        1 + digit_count(s.skip(1))
    }
}

/// The whole number that `s` starts with, and what follows it.
pub open spec fn read_number(s: Seq<char>) -> Option<(int, Seq<char>)> {
    let negative = s.len() > 0 && s[0] == '-';
    let digits = if negative {
        s.skip(1)
    } else {
        s
    };
    let n = digit_count(digits) as int;
    let value = settings::number_value(digits.take(n)) as int;
    if n == 0 {
        None
    } else if negative {
        Some((-value, digits.skip(n)))
    } else {
        Some((value, digits.skip(n)))
    }
}

/// The JSON value that `s` starts with, and what follows it. There are no blanks.
#[verifier::opaque]
pub open spec fn read_value(s: Seq<char>) -> Option<(Json, Seq<char>)>
    decreases s.len(), 1nat,
{
    if s.len() == 0 {
        None
    } else if s[0] == '"' {
        match read_text(s.skip(1)) {
            Some((t, rest)) => Some((Json::Text(t), rest)),
            None => None,
        }
    } else if s[0] == '{' {
        match read_members(s.skip(1)) {
            Some((members, rest)) => Some((Json::Object(members), rest)),
            None => None,
        }
    } else {
        match read_number(s) {
            Some((n, rest)) => Some((Json::Number(n), rest)),
            None => None,
        }
    }
}

/// The members of an object, one at least, from behind its opening brace, and what
/// follows its closing one.
#[verifier::opaque]
pub open spec fn read_members(s: Seq<char>) -> Option<(Seq<(Seq<char>, Json)>, Seq<char>)>
    decreases s.len(), 0nat,
{
    if s.len() == 0 || s[0] != '"' {
        None
    } else {
        match read_text(s.skip(1)) {
            Some((name, tail)) if 0 < tail.len() < s.len() && tail[0] == ':' => match read_value(
                tail.skip(1),
            ) {
                Some((value, after)) if 0 < after.len() < s.len() && after[0] == '}' => {
                    Some((seq![(name, value)], after.skip(1)))
                },
                Some((value, after)) if 0 < after.len() < s.len() && after[0] == ',' => {
                    match read_members(after.skip(1)) {
                        Some((more, rest)) => Some((seq![(name, value)] + more, rest)),
                        None => None,
                    }
                },
                _ => None,
            },
            _ => None,
        }
    }
}

/// The JSON value that `s` is as a whole.
pub open spec fn json_document(s: Seq<char>) -> Option<Json> {
    match read_value(s) {
        Some((value, rest)) if rest.len() == 0 => Some(value),
        _ => None,
    }
}

/// What may stand inside a string literal is read up to the mark that closes it.
pub proof fn lemma_read_text(s: Seq<char>, rest: Seq<char>)
    requires
        json_text(s) is Some,
    ensures
        read_text(s + (seq!['"'] + rest)) == Some((json_text(s).unwrap(), rest)),
    decreases s.len(),
{
    let whole = s + (seq!['"'] + rest);
    if s.len() == 0 {
        assert(whole.skip(1) =~= rest);
    } else {
        let (c, n) = json_first(s).unwrap();
        lemma_read_text(s.skip(n), rest);
        assert(json_first(whole) == json_first(s));
        assert(whole.skip(n) =~= s.skip(n) + (seq!['"'] + rest));
    }
}

/// A string literal is read as its text.
pub proof fn lemma_read_string(s: Seq<char>, rest: Seq<char>)
    requires
        json_text(s) is Some,
    ensures
        read_value(seq!['"'] + (s + (seq!['"'] + rest))) == Some(
            (Json::Text(json_text(s).unwrap()), rest),
        ),
{
    reveal(read_value);
    let tail = s + (seq!['"'] + rest);
    lemma_read_text(s, rest);
    assert((seq!['"'] + tail).skip(1) =~= tail);
}

/// Nothing but digits, with no digit behind them, are all counted.
proof fn lemma_digit_count(s: Seq<char>, rest: Seq<char>)
    requires
        forall|i: int| 0 <= i < s.len() ==> '0' <= #[trigger] s[i] <= '9',
        rest.len() > 0 ==> !('0' <= rest[0] <= '9'),
    ensures
        digit_count(s + rest) == s.len(),
    decreases s.len(),
{
    if s.len() == 0 {
        assert(s + rest =~= rest);
    } else {
        assert('0' <= s[0] <= '9');
        assert forall|i: int| 0 <= i < s.skip(1).len() implies '0' <= #[trigger] s.skip(1)[i]
            <= '9' by {
            assert('0' <= s[i + 1] <= '9');
        }
        lemma_digit_count(s.skip(1), rest);
        assert((s + rest).skip(1) =~= s.skip(1) + rest);
        assert((s + rest)[0] == s[0]);
    }
}

/// A number in decimal is read as that number.
pub proof fn lemma_read_decimal(v: int, rest: Seq<char>)
    requires
        rest.len() > 0 ==> !('0' <= rest[0] <= '9'),
    ensures
        read_value(text::decimal(v) + rest) == Some((Json::Number(v), rest)),
{
    reveal(read_value);
    let s = text::decimal(v) + rest;
    let magnitude = if v < 0 {
        (-v) as nat
    } else {
        v as nat
    };
    let digits = text::decimal_nat(magnitude);
    settings::law_decimal_reads_back(magnitude);
    lemma_digit_count(digits, rest);
    assert('0' <= digits[0] <= '9');
    if v < 0 {
        assert(s.skip(1) =~= digits + rest);
    } else {
        assert(s =~= digits + rest);
    }
    assert((digits + rest).take(digits.len() as int) =~= digits);
    assert((digits + rest).skip(digits.len() as int) =~= rest);
}

/// The member `name`, whose value starts `tail`.
pub open spec fn member(name: Seq<char>, tail: Seq<char>) -> Seq<char> {
    seq!['"'] + (name + (seq!['"'] + (seq![':'] + tail)))
}

/// What follows a value is shorter than what it was read from.
proof fn lemma_member_head(name: Seq<char>, tail: Seq<char>)
    requires
        json_text(name) is Some,
    ensures
        member(name, tail).len() > tail.len() + 1,
        member(name, tail)[0] == '"',
        read_text(member(name, tail).skip(1)) == Some(
            (json_text(name).unwrap(), seq![':'] + tail),
        ),
        (seq![':'] + tail).skip(1) == tail,
{
    let s = member(name, tail);
    lemma_read_text(name, seq![':'] + tail);
    assert(s.skip(1) =~= name + (seq!['"'] + (seq![':'] + tail)));
    assert((seq![':'] + tail).skip(1) =~= tail);
}

/// A member that a closing brace follows is the last one.
pub proof fn lemma_last_member(name: Seq<char>, tail: Seq<char>, value: Json, rest: Seq<char>)
    requires
        json_text(name) is Some,
        read_value(tail) == Some((value, seq!['}'] + rest)),
        rest.len() < tail.len(),
    ensures
        read_members(member(name, tail)) == Some((seq![(json_text(name).unwrap(), value)], rest)),
{
    reveal(read_value);
    reveal(read_members);
    lemma_member_head(name, tail);
    assert((seq!['}'] + rest).skip(1) =~= rest);
}

/// A member that a comma follows is followed by others.
pub proof fn lemma_more_members(
    name: Seq<char>,
    tail: Seq<char>,
    value: Json,
    next: Seq<char>,
    more: Seq<(Seq<char>, Json)>,
    rest: Seq<char>,
)
    requires
        json_text(name) is Some,
        read_value(tail) == Some((value, seq![','] + next)),
        next.len() < tail.len(),
        read_members(next) == Some((more, rest)),
    ensures
        read_members(member(name, tail)) == Some(
            (seq![(json_text(name).unwrap(), value)] + more, rest),
        ),
{
    reveal(read_value);
    reveal(read_members);
    lemma_member_head(name, tail);
    assert((seq![','] + next).skip(1) =~= next);
}

/// Members behind an opening brace are an object.
pub proof fn lemma_read_object(s: Seq<char>, members: Seq<(Seq<char>, Json)>, rest: Seq<char>)
    requires
        read_members(s) == Some((members, rest)),
    ensures
        read_value(seq!['{'] + s) == Some((Json::Object(members), rest)),
{
    reveal(read_members);
    reveal(read_value);
    assert((seq!['{'] + s).skip(1) =~= s);
}

} // verus!
