//! What the environment lets the operator set.
use crate::text;
use vstd::prelude::*;

verus! {

/// The settings that decide how connections are treated.
pub struct Settings {
    /// How many seconds a joining player is held while the backend boots; none
    /// are held where it is zero.
    pub login_hold_secs: u64,
    /// The server version shown in server lists, where one is set.
    pub version: Option<String>,
    /// The server's message of the day, where one is set.
    pub motd: Option<String>,
}

/// The address to listen on, where the setting for the port is `port`.
pub open spec fn listen_text(port: Option<Seq<char>>) -> Seq<char> {
    "0.0.0.0:"@ + match port {
        Some(port) => port,
        None => "25565"@,
    }
}

/// The address to listen on: every interface, and the port that is set.
pub fn bind_addr(port: Option<&str>) -> (addr: String)
    ensures
        addr@ == listen_text(port.deep_view()),
{
    let mut addr: String = "0.0.0.0:".to_owned();
    match port {
        Some(port) => addr.append(port),
        None => addr.append("25565"),
    }
    addr
}

/// Some digit, and nothing but digits.
pub open spec fn is_number(s: Seq<char>) -> bool {
    &&& s.len() > 0
    &&& forall|i: int| 0 <= i < s.len() ==> '0' <= #[trigger] s[i] <= '9'
}

/// The number that decimal digits write.
pub open spec fn number_value(s: Seq<char>) -> nat
    decreases s.len(),
{
    if s.len() == 0 {
        0
    } else {
        10 * number_value(s.drop_last()) + (s.last() as nat - '0' as nat) as nat
    }
}

/// `s` without the plus sign it may start with.
pub open spec fn unsigned_part(s: Seq<char>) -> Seq<char> {
    if s.len() > 0 && s[0] == '+' {
        s.skip(1)
    } else {
        s
    }
}

/// The `u64` that `s` writes: digits, with at most a plus sign before them.
pub open spec fn written_u64(s: Seq<char>) -> Option<u64> {
    let digits = unsigned_part(s);
    if is_number(digits) && number_value(digits) <= u64::MAX {
        Some(number_value(digits) as u64)
    } else {
        None
    }
}

/// More digits never make a number smaller.
proof fn lemma_number_grows(s: Seq<char>, k: int)
    requires
        0 <= k <= s.len(),
    ensures
        number_value(s.take(k)) <= number_value(s),
    decreases s.len() - k,
{
    if k < s.len() {
        assert(s.drop_last().take(k) =~= s.take(k));
        lemma_number_grows(s.drop_last(), k);
    } else {
        assert(s.take(k) =~= s);
    }
}

/// One more decimal digit.
fn push_digit(n: u64, c: char) -> (res: Option<u64>)
    ensures
        res == if '0' <= c <= '9' && 10 * n + (c as nat - '0' as nat) <= u64::MAX {
            Some((10 * n + (c as nat - '0' as nat)) as u64)
        } else {
            None::<u64>
        },
{
    if c < '0' || c > '9' {
        return None;
    }
    let digit: u64 = (c as u32 - 48) as u64;
    match n.checked_mul(10) {
        Some(tens) => tens.checked_add(digit),
        None => None,
    }
}

/// Reads a whole number.
fn parse_u64(s: &str) -> (res: Option<u64>)
    ensures
        res == written_u64(s@),
{
    let mut first: bool = true;
    let mut some: bool = false;
    let mut n: u64 = 0;
    let ghost digits = unsigned_part(s@);
    let ghost sign = s@.len() - digits.len();
    for c in it: s.chars()
        invariant
            it.seq() == s@,
            digits == unsigned_part(s@),
            sign == s@.len() - digits.len(),
            first == (it.index() == 0),
            some == (it.index() > sign),
            forall|i: int|
                0 <= i < it.index() - sign ==> '0' <= #[trigger] digits[i] <= '9',
            it.index() >= sign ==> n == number_value(digits.take(it.index() - sign)),
            it.index() < sign ==> n == 0,
    {
        if first && c == '+' {
            first = false;
            assert(digits.take(0) =~= Seq::<char>::empty());
        } else {
            let ghost k = it.index() - sign;
            proof {
                assert(s@[it.index() as int] == c);
                assert(digits[k] == c);
                assert(digits.take(k + 1).drop_last() =~= digits.take(k));
                if k == 0 {
                    assert(digits.take(0) =~= Seq::<char>::empty());
                }
            }
            first = false;
            some = true;
            match push_digit(n, c) {
                Some(next) => {
                    n = next;
                },
                None => {
                    proof {
                        lemma_number_grows(digits, k + 1);
                        if is_number(digits) {
                            assert('0' <= digits[k] <= '9');
                        }
                    }
                    return None;
                },
            }
        }
    }
    assert(digits.take(digits.len() as int) =~= digits);
    if some {
        Some(n)
    } else {
        None
    }
}

/// How long to hold a joining player, where the setting is `value`.
pub open spec fn hold_setting(value: Option<Seq<char>>) -> u64 {
    match value {
        Some(s) => match written_u64(s) {
            Some(n) => n,
            None => 0,
        },
        None => 0,
    }
}

/// How long to hold a joining player, as the setting says: nothing, or anything
/// but a whole number, means not at all.
pub fn login_hold_secs(value: Option<&str>) -> (secs: u64)
    ensures
        secs == match value.deep_view() {
            Some(s) => match written_u64(s) {
                Some(n) => n,
                None => 0,
            },
            None => 0,
        },
        secs == hold_setting(value.deep_view()),
{
    match value {
        Some(s) => match parse_u64(s) {
            Some(n) => n,
            None => 0,
        },
        None => 0,
    }
}

/// A number written in decimal is read back.
pub proof fn law_decimal_reads_back(n: nat)
    ensures
        is_number(text::decimal_nat(n)),
        number_value(text::decimal_nat(n)) == n,
    decreases n,
{
    let s = text::decimal_nat(n);
    if n < 10 {
        assert(s.drop_last() =~= Seq::<char>::empty());
        assert(number_value(Seq::<char>::empty()) == 0);
    } else {
        law_decimal_reads_back(n / 10);
        assert(s.drop_last() =~= text::decimal_nat(n / 10));
        assert forall|i: int| 0 <= i < s.len() implies '0' <= #[trigger] s[i] <= '9' by {
            if i < s.len() - 1 {
                assert(s[i] == text::decimal_nat(n / 10)[i]);
            }
        }
    }
}

/// What is written as a setting is what is set: any `u64` in decimal, with a plus
/// sign or without.
pub proof fn law_hold_setting_reads_back(n: u64)
    ensures
        written_u64(text::decimal_nat(n as nat)) == Some(n),
        written_u64(seq!['+'] + text::decimal_nat(n as nat)) == Some(n),
{
    let s = text::decimal_nat(n as nat);
    law_decimal_reads_back(n as nat);
    assert('0' <= s[0] <= '9');
    assert((seq!['+'] + s).skip(1) =~= s);
}

/// Zeros before a number do not count.
proof fn lemma_leading_zeros(zeros: Seq<char>, s: Seq<char>)
    requires
        forall|i: int| 0 <= i < zeros.len() ==> #[trigger] zeros[i] == '0',
    ensures
        number_value(zeros + s) == number_value(s),
    decreases zeros.len() + s.len(),
{
    let whole = zeros + s;
    if s.len() > 0 {
        assert(whole.drop_last() =~= zeros + s.drop_last());
        lemma_leading_zeros(zeros, s.drop_last());
    } else if zeros.len() > 0 {
        let fewer = zeros.drop_last();
        assert(whole.drop_last() =~= fewer + s);
        assert(whole.last() == zeros[zeros.len() - 1]);
        assert forall|i: int| 0 <= i < fewer.len() implies #[trigger] fewer[i] == '0' by {
            assert(zeros[i] == '0');
        }
        lemma_leading_zeros(fewer, s);
    } else {
        assert(whole =~= s);
    }
}

/// A player is held for as many seconds as the setting says in decimal, with leading
/// zeros and a plus sign or without; one too many for 64 bits, or none, holds nobody.
pub proof fn law_player_is_held_as_set(n: nat, zeros: Seq<char>)
    requires
        forall|i: int| 0 <= i < zeros.len() ==> #[trigger] zeros[i] == '0',
    ensures
        ({
            let written = zeros + text::decimal_nat(n);
            let secs = if n <= u64::MAX {
                n as u64
            } else {
                0
            };
            &&& hold_setting(Some(written)) == secs
            &&& hold_setting(Some(seq!['+'] + written)) == secs
        }),
        hold_setting(None) == 0,
{
    let digits = text::decimal_nat(n);
    let written = zeros + digits;
    law_decimal_reads_back(n);
    lemma_leading_zeros(zeros, digits);
    assert forall|i: int| 0 <= i < written.len() implies '0' <= #[trigger] written[i] <= '9' by {
        if i < zeros.len() {
            assert(zeros[i] == '0');
        } else {
            assert('0' <= digits[i - zeros.len()] <= '9');
        }
    }
    assert('0' <= written[0] <= '9');
    assert((seq!['+'] + written).skip(1) =~= written);
}

/// A setting with anything in it but digits and one plus sign before them holds
/// nobody, and neither does one without a digit.
pub proof fn law_malformed_hold_is_none(s: Seq<char>, i: int)
    requires
        0 <= i < s.len() && !('0' <= s[i] <= '9') && (i > 0 || s[0] != '+') || s.len() == 0 || s
            == seq!['+'],
    ensures
        hold_setting(Some(s)) == 0,
{
    let digits = unsigned_part(s);
    if s.len() > 0 && s != seq!['+'] {
        let k = i - (s.len() - digits.len());
        assert(digits[k] == s[i]);
    } else if s == seq!['+'] {
        assert(digits.len() == 0);
    }
}

/// The proxy listens on every interface, on the port that is set; where none is set,
/// as if it were the port of the game.
pub proof fn law_port_that_is_set(port: Seq<char>)
    ensures
        listen_text(Some(port)).len() == 8 + port.len(),
        listen_text(Some(port)).skip(8) == port,
        listen_text(Some(port)).take(8) == seq!['0', '.', '0', '.', '0', '.', '0', ':'],
        listen_text(None) == listen_text(Some(text::decimal_nat(25565))),
{
    reveal_strlit("0.0.0.0:");
    reveal_strlit("25565");
    reveal_with_fuel(text::decimal_nat, 5);
    assert(listen_text(Some(port)).skip(8) =~= port);
    assert(listen_text(Some(port)).take(8) =~= seq!['0', '.', '0', '.', '0', '.', '0', ':']);
    assert(text::decimal_nat(25565) =~= "25565"@);
}

/// A number is written without zeros before it, and a minus sign stands before a
/// negative one; so no two numbers are written alike.
pub proof fn law_decimal_is_canonical(v: int, w: int)
    ensures
        v >= 0 ==> text::decimal(v).len() > 0 && (text::decimal(v)[0] == '0' ==> v == 0),
        v < 0 ==> text::decimal(v) == seq!['-'] + text::decimal(-v),
        text::decimal(v) == text::decimal(w) ==> v == w,
{
    let a = if v < 0 {
        (-v) as nat
    } else {
        v as nat
    };
    let b = if w < 0 {
        (-w) as nat
    } else {
        w as nat
    };
    law_decimal_reads_back(a);
    law_decimal_reads_back(b);
    lemma_no_leading_zero(a);
    assert('0' <= text::decimal_nat(a)[0] <= '9');
    assert('0' <= text::decimal_nat(b)[0] <= '9');
    if text::decimal(v) == text::decimal(w) {
        if v < 0 && w < 0 {
            assert(text::decimal(v).skip(1) =~= text::decimal_nat(a));
            assert(text::decimal(w).skip(1) =~= text::decimal_nat(b));
        }
    }
}

/// Only zero starts with a zero.
proof fn lemma_no_leading_zero(n: nat)
    ensures
        text::decimal_nat(n).len() > 0,
        text::decimal_nat(n)[0] == '0' ==> n == 0,
    decreases n,
{
    if n >= 10 {
        lemma_no_leading_zero(n / 10);
        assert(text::decimal_nat(n)[0] == text::decimal_nat(n / 10)[0]);
    }
}

} // verus!
