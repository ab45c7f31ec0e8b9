//! VarInts: 32-bit integers in base 128, least significant group first.
//!
//! Each byte carries seven bits of the value; its top bit says whether another
//! byte follows. Negative numbers are written as their two's complement.
use crate::error::ProtocolError;
use vstd::prelude::*;

verus! {

/// The most bytes a VarInt may take.
pub const MAX_VARINT_LEN: usize = 5;

/// The two's complement reading of `v`: the number in `0 .. 2^32` congruent to it.
pub open spec fn unsigned(v: i32) -> nat {
    if v >= 0 {
        v as nat
    } else {
        (v + 0x1_0000_0000) as nat
    }
}

/// The `i32` congruent to `n` modulo `2^32`.
pub open spec fn signed(n: nat) -> i32 {
    let m = n % 0x1_0000_0000;
    if m < 0x8000_0000 {
        m as i32
    } else {
        (m - 0x1_0000_0000) as i32
    }
}

/// The base-128 digits of `n`, least significant first, every one but the last
/// marked with the continuation bit.
pub open spec fn varint_bytes(n: nat) -> Seq<u8>
    decreases n,
{
    if n < 128 {
        seq![n as u8]
    } else {
        seq![(128 + n % 128) as u8] + varint_bytes(n / 128)
    }
}

/// The bytes that stand for `v`.
pub open spec fn encode_varint(v: i32) -> Seq<u8> {
    varint_bytes(unsigned(v))
}

/// Appends the VarInt encoding of `value` to `buf`.
pub fn write_varint(buf: &mut Vec<u8>, value: i32)
    ensures
        final(buf)@ == old(buf)@ + encode_varint(value),
{
    let mut rest: u32 = value as u32;
    assert(rest == unsigned(value)) by {
        assert(value >= 0 ==> value as u32 == value) by (bit_vector);
        assert(value < 0 ==> value as u32 == value + 0x1_0000_0000) by (bit_vector);
    }
    while rest >= 128
        invariant
            buf@ + varint_bytes(rest as nat) == old(buf)@ + encode_varint(value),
        decreases rest,
    {
        let byte: u8 = (rest & 0x7F) as u8 | 0x80;
        assert(byte == 128 + rest % 128) by {
            assert(((rest & 0x7F) as u8 | 0x80) == 128 + rest % 128) by (bit_vector);
        }
        let ghost before = buf@;
        buf.push(byte);
        proof {
            assert(rest >> 7 == rest / 128) by (bit_vector);
            assert(buf@ + varint_bytes((rest / 128) as nat) =~= before + varint_bytes(
                rest as nat,
            ));
        }
        rest = rest >> 7;
    }
    buf.push(rest as u8);
}

/// How many bytes at the front of `s`, `limit` at most, have the continuation bit.
pub open spec fn continued(s: Seq<u8>, limit: nat) -> nat
    decreases limit,
{
    if limit == 0 || s.len() == 0 || s[0] < 128 {
        0
    } else {
        1 + continued(s.skip(1), (limit - 1) as nat)
    }
}

/// The number whose base-128 digits are the low seven bits of each byte of `s`,
/// least significant first.
pub open spec fn digits_value(s: Seq<u8>) -> nat
    decreases s.len(),
{
    if s.len() == 0 {
        0
    } else {
        (s[0] % 128) as nat + 128 * digits_value(s.skip(1))
    }
}

/// What the front of a byte sequence holds, read as a VarInt.
pub enum VarintScan {
    /// A complete VarInt that takes `used` bytes.
    Value { value: i32, used: nat },
    /// Every byte so far announces another one, and fewer than five are there.
    Truncated,
    /// Five bytes that each announce another one.
    TooLong,
}

/// The VarInt at the front of `s`.
pub open spec fn scan_varint(s: Seq<u8>) -> VarintScan {
    let n = continued(s, MAX_VARINT_LEN as nat);
    if n == MAX_VARINT_LEN {
        VarintScan::TooLong
    } else if n == s.len() {
        VarintScan::Truncated
    } else {
        VarintScan::Value { value: signed(digits_value(s.take(n as int + 1))), used: n + 1 }
    }
}

/// How many bytes of `s` are looked at to scan the VarInt at its front.
pub open spec fn scan_len(s: Seq<u8>) -> nat {
    match scan_varint(s) {
        VarintScan::Value { used, .. } => used,
        VarintScan::Truncated => s.len(),
        VarintScan::TooLong => MAX_VARINT_LEN as nat,
    }
}

/// `128^n`.
pub open spec fn pow128(n: nat) -> nat
    decreases n,
{
    if n == 0 {
        1
    } else {
        128 * pow128((n - 1) as nat)
    }
}

/// `continued` stops at the first byte without the continuation bit, at the
/// limit, or at the end.
proof fn lemma_continued(s: Seq<u8>, limit: nat)
    ensures
        continued(s, limit) <= limit,
        continued(s, limit) <= s.len(),
        forall|i: int| 0 <= i < continued(s, limit) ==> #[trigger] s[i] >= 128,
        continued(s, limit) < limit && continued(s, limit) < s.len() ==> s[continued(
            s,
            limit,
        ) as int] < 128,
    decreases limit,
{
    if limit > 0 && s.len() > 0 && s[0] >= 128 {
        lemma_continued(s.skip(1), (limit - 1) as nat);
        assert forall|i: int| 0 <= i < continued(s, limit) implies #[trigger] s[i] >= 128 by {
            if i > 0 {
                assert(s[i] == s.skip(1)[i - 1]);
            }
        }
    }
}

/// `n` bytes with the continuation bit, followed by a reason to stop, pin
/// `continued` down.
proof fn lemma_continued_is(s: Seq<u8>, limit: nat, n: nat)
    requires
        n <= limit,
        n <= s.len(),
        forall|i: int| 0 <= i < n ==> #[trigger] s[i] >= 128,
        n == limit || n == s.len() || s[n as int] < 128,
    ensures
        continued(s, limit) == n,
{
    lemma_continued(s, limit);
    let c = continued(s, limit);
    if c < n {
        assert(s[c as int] >= 128);
    } else if n < c {
        assert(s[n as int] >= 128);
    }
}

/// A further byte is a further most significant digit.
proof fn lemma_digits_push(s: Seq<u8>, b: u8)
    ensures
        digits_value(s.push(b)) == digits_value(s) + pow128(s.len()) * (b % 128) as nat,
    decreases s.len(),
{
    if s.len() == 0 {
        assert(s.push(b).skip(1) =~= Seq::<u8>::empty());
        assert(digits_value(Seq::<u8>::empty()) == 0);
        let d = (b % 128) as nat;
        assert(1 * d == d) by (nonlinear_arith);
        assert(pow128(s.len()) == 1);
    } else {
        lemma_digits_push(s.skip(1), b);
        assert(s.push(b).skip(1) =~= s.skip(1).push(b));
        let p = pow128((s.len() - 1) as nat);
        let q = pow128(s.len());
        let d = (b % 128) as nat;
        assert(q * d == 128 * (p * d)) by (nonlinear_arith)
            requires
                q == 128 * p,
        ;
    }
}

/// Seven more bits, taken in by shift and bitwise or, are one more digit; what
/// does not fit in 32 bits is dropped.
proof fn lemma_or_digit(num: u32, byte: u8, n: nat)
    requires
        n < MAX_VARINT_LEN,
        num < pow128(n),
    ensures
        (num | (((byte & 0x7F) as u32) << ((7 * n) as u32))) as nat == (num + pow128(n) * (byte
            % 128) as nat) % 0x1_0000_0000,
        n < 4 ==> (num | (((byte & 0x7F) as u32) << ((7 * n) as u32))) < pow128(n + 1),
{
    reveal_with_fuel(pow128, 6);
    assert(pow128(0) == 1 && pow128(1) == 128 && pow128(2) == 16384 && pow128(3) == 2097152
        && pow128(4) == 268435456);
    let p = pow128(n);
    let d = (byte % 128) as nat;
    if n == 0 {
        assert(p * d == d) by (nonlinear_arith)
            requires
                p == 1,
        ;
        assert(num < 1 ==> (num | (((byte & 0x7F) as u32) << 0u32)) == num + (byte % 128)
            && (num | (((byte & 0x7F) as u32) << 0u32)) < 128) by (bit_vector);
    } else if n == 1 {
        assert(p * d == 128 * d) by (nonlinear_arith)
            requires
                p == 128,
        ;
        assert(num < 128 ==> (num | (((byte & 0x7F) as u32) << 7u32)) == num + 128 * (byte % 128)
            && (num | (((byte & 0x7F) as u32) << 7u32)) < 16384) by (bit_vector);
    } else if n == 2 {
        assert(p * d == 16384 * d) by (nonlinear_arith)
            requires
                p == 16384,
        ;
        assert(num < 16384 ==> (num | (((byte & 0x7F) as u32) << 14u32)) == num + 16384 * (byte
            % 128) && (num | (((byte & 0x7F) as u32) << 14u32)) < 2097152) by (bit_vector);
    } else if n == 3 {
        assert(p * d == 2097152 * d) by (nonlinear_arith)
            requires
                p == 2097152,
        ;
        assert(num < 2097152 ==> (num | (((byte & 0x7F) as u32) << 21u32)) == num + 2097152 * (byte
            % 128) && (num | (((byte & 0x7F) as u32) << 21u32)) < 268435456) by (bit_vector);
    } else {
        assert(p * d == 268435456 * d) by (nonlinear_arith)
            requires
                p == 268435456,
        ;
        assert(num < 268435456 ==> (num | (((byte & 0x7F) as u32) << 28u32)) == (num + 268435456
            * (byte % 128)) % 0x1_0000_0000) by (bit_vector);
    }
}

/// The digits of `n` bytes are below `128^n`.
proof fn lemma_digits_bound(s: Seq<u8>)
    ensures
        digits_value(s) < pow128(s.len()),
    decreases s.len(),
{
    if s.len() > 0 {
        lemma_digits_bound(s.skip(1));
    }
}

/// A VarInt that arrives byte by byte.
///
/// Every byte it takes is kept, so that the whole can be sent on unchanged.
pub struct VarintReader {
    raw: Vec<u8>,
    num: u32,
}

impl View for VarintReader {
    type V = Seq<u8>;

    /// The bytes taken so far.
    closed spec fn view(&self) -> Seq<u8> {
        self.raw@
    }
}

impl VarintReader {
    /// The VarInt is not complete yet, and may still become so.
    pub closed spec fn open(self) -> bool {
        &&& scan_varint(self.raw@) is Truncated
        &&& self.num == digits_value(self.raw@)
    }

    /// A reader that has taken no byte.
    pub fn new() -> (reader: Self)
        ensures
            reader.open(),
            reader@ == Seq::<u8>::empty(),
    {
        VarintReader { raw: Vec::new(), num: 0 }
    }

    /// Takes the next byte. `Ok(None)` asks for one more.
    pub fn read_varint_stream(&mut self, byte: u8) -> (res: Result<Option<i32>, ProtocolError>)
        requires
            old(self).open(),
        ensures
            final(self)@ == old(self)@.push(byte),
            match scan_varint(final(self)@) {
                VarintScan::Value { value, used } => res == Ok::<_, ProtocolError>(Some(value))
                    && used == final(self)@.len(),
                VarintScan::Truncated => res == Ok::<_, ProtocolError>(None::<i32>)
                    && final(self).open(),
                VarintScan::TooLong => res == Err::<Option<i32>, _>(ProtocolError::VarintTooLong),
            },
    {
        let taken: usize = self.raw.len();
        let ghost before = self.raw@;
        proof {
            lemma_continued(before, 5);
            lemma_digits_bound(before);
            lemma_digits_push(before, byte);
            lemma_or_digit(self.num, byte, taken as nat);
        }
        let shift: u32 = 7 * taken as u32;
        self.num = self.num | (((byte & 0x7F) as u32) << shift);
        self.raw.push(byte);
        assert(self.raw@.take(taken as int + 1) =~= self.raw@);
        if byte & 0x80 == 0 {
            assert(byte & 0x80 == 0 ==> byte < 128) by (bit_vector);
            proof {
                lemma_continued_is(self.raw@, 5, taken as nat);
            }
            return Ok(Some(as_signed(self.num)));
        }
        assert(byte & 0x80 != 0 ==> byte >= 128) by (bit_vector);
        proof {
            lemma_continued_is(self.raw@, 5, taken as nat + 1);
        }
        if taken + 1 >= MAX_VARINT_LEN {
            return Err(ProtocolError::VarintTooLong);
        }
        proof {
            reveal_with_fuel(pow128, 6);
            lemma_digits_bound(self.raw@);
        }
        Ok(None)
    }

    /// The bytes taken, in order.
    pub fn into_raw(self) -> (raw: Vec<u8>)
        ensures
            raw@ == self@,
    {
        self.raw
    }
}

/// The two's complement reading of `n`.
fn as_signed(n: u32) -> (v: i32)
    ensures
        v == signed(n as nat),
{
    assert(n < 0x8000_0000 ==> n as i32 == n) by (bit_vector);
    assert(n >= 0x8000_0000 ==> n as i32 == n - 0x1_0000_0000) by (bit_vector);
    n as i32
}

/// The bytes of `buf` from `idx` on; none where `idx` is past its end.
pub open spec fn bytes_from(buf: Seq<u8>, idx: int) -> Seq<u8> {
    if 0 <= idx <= buf.len() {
        buf.skip(idx)
    } else {
        Seq::empty()
    }
}

/// The VarInt of `s` at `idx`, and the index behind it.
pub open spec fn varint_at(s: Seq<u8>, idx: int) -> Result<(i32, int), ProtocolError> {
    match scan_varint(bytes_from(s, idx)) {
        VarintScan::Value { value, used } => Ok((value, idx + used)),
        VarintScan::Truncated => Err(ProtocolError::TruncatedVarint),
        VarintScan::TooLong => Err(ProtocolError::VarintTooLong),
    }
}

/// Reads the VarInt of `buf` at `*idx`, and moves `*idx` past the bytes looked at.
pub fn read_varint_slice(buf: &[u8], idx: &mut usize) -> (res: Result<i32, ProtocolError>)
    ensures
        res == match scan_varint(bytes_from(buf@, *old(idx) as int)) {
            VarintScan::Value { value, .. } => Ok(value),
            VarintScan::Truncated => Err(ProtocolError::TruncatedVarint),
            VarintScan::TooLong => Err(ProtocolError::VarintTooLong),
        },
        *final(idx) == *old(idx) + scan_len(bytes_from(buf@, *old(idx) as int)),
{
    let start: usize = *idx;
    let ghost input = bytes_from(buf@, start as int);
    let mut num: u32 = 0;
    let mut taken: usize = 0;
    loop
        invariant
            input == bytes_from(buf@, start as int),
            start == *old(idx),
            *idx == start + taken,
            taken < MAX_VARINT_LEN,
            taken <= input.len(),
            forall|i: int| 0 <= i < taken ==> #[trigger] input[i] >= 128,
            num == digits_value(input.take(taken as int)),
        decreases MAX_VARINT_LEN - taken,
    {
        if *idx >= buf.len() {
            proof {
                lemma_continued_is(input, 5, taken as nat);
            }
            return Err(ProtocolError::TruncatedVarint);
        }
        let byte: u8 = buf[*idx];
        *idx += 1;
        let ghost before = input.take(taken as int);
        proof {
            assert(input[taken as int] == byte);
            assert(input.take(taken as int + 1) =~= before.push(byte));
            lemma_digits_bound(before);
            lemma_digits_push(before, byte);
            lemma_or_digit(num, byte, taken as nat);
        }
        let shift: u32 = 7 * taken as u32;
        num = num | (((byte & 0x7F) as u32) << shift);
        if byte & 0x80 == 0 {
            assert(byte & 0x80 == 0 ==> byte < 128) by (bit_vector);
            proof {
                lemma_continued_is(input, 5, taken as nat);
            }
            return Ok(as_signed(num));
        }
        assert(byte & 0x80 != 0 ==> byte >= 128) by (bit_vector);
        taken += 1;
        if taken >= MAX_VARINT_LEN {
            proof {
                lemma_continued_is(input, 5, 5);
            }
            return Err(ProtocolError::VarintTooLong);
        }
        proof {
            reveal_with_fuel(pow128, 6);
            lemma_digits_bound(input.take(taken as int));
        }
    }
}

/// Between one and five bytes stand for a number: one more for every seven bits
/// that it does not fit in.
pub proof fn law_varint_length(v: i32)
    ensures
        encode_varint(v).len() == if unsigned(v) < 128 {
            1nat
        } else if unsigned(v) < 16384 {
            2
        } else if unsigned(v) < 2097152 {
            3
        } else if unsigned(v) < 268435456 {
            4
        } else {
            5
        },
{
    reveal_with_fuel(varint_bytes, 5);
}

/// The digits of `varint_bytes(n)`, put together, are `n`, and only the last
/// lacks the continuation bit.
proof fn lemma_varint_bytes(n: nat)
    ensures
        varint_bytes(n).len() > 0,
        digits_value(varint_bytes(n)) == n,
        varint_bytes(n).last() < 128,
        forall|i: int|
            0 <= i < varint_bytes(n).len() - 1 ==> #[trigger] varint_bytes(n)[i] >= 128,
    decreases n,
{
    let s = varint_bytes(n);
    if n < 128 {
        assert(s.skip(1) =~= Seq::<u8>::empty());
        assert(digits_value(Seq::<u8>::empty()) == 0);
    } else {
        lemma_varint_bytes(n / 128);
        assert(s.skip(1) =~= varint_bytes(n / 128));
        assert forall|i: int| 0 <= i < s.len() - 1 implies #[trigger] s[i] >= 128 by {
            if i > 0 {
                assert(s[i] == varint_bytes(n / 128)[i - 1]);
            }
        }
    }
}

/// Reading what was written gives the number back, and takes exactly the bytes
/// written, whatever follows them.
pub proof fn law_varint_round_trip(v: i32, rest: Seq<u8>)
    ensures
        scan_varint(encode_varint(v) + rest) == (VarintScan::Value {
            value: v,
            used: encode_varint(v).len(),
        }),
{
    let e = encode_varint(v);
    let s = e + rest;
    let n = (e.len() - 1) as nat;
    law_varint_length(v);
    lemma_varint_bytes(unsigned(v));
    assert forall|i: int| 0 <= i < n implies #[trigger] s[i] >= 128 by {
        assert(s[i] == e[i]);
    }
    lemma_continued_is(s, 5, n);
    assert(s.take(n as int + 1) =~= e);
}

/// A scan that ended stays as it was when more bytes arrive: no reader needs to
/// look past the VarInt.
pub proof fn law_varint_no_lookahead(s: Seq<u8>, rest: Seq<u8>)
    ensures
        !(scan_varint(s) is Truncated) ==> scan_varint(s + rest) == scan_varint(s),
{
    lemma_continued(s, 5);
    let n = continued(s, 5);
    if !(scan_varint(s) is Truncated) {
        assert forall|i: int| 0 <= i < n implies #[trigger] (s + rest)[i] >= 128 by {
            assert((s + rest)[i] == s[i]);
        }
        lemma_continued_is(s + rest, 5, n);
        if n < 5 {
            assert((s + rest).take(n as int + 1) =~= s.take(n as int + 1));
        }
    }
}

/// Fed byte by byte, a VarInt is recognised at its last byte and not before.
pub proof fn law_varint_incremental(s: Seq<u8>)
    ensures
        scan_len(s) <= s.len(),
        forall|k: int| 0 <= k < scan_len(s) ==> scan_varint(#[trigger] s.take(k)) is Truncated,
        scan_varint(s.take(scan_len(s) as int)) == scan_varint(s),
{
    lemma_continued(s, 5);
    let n = scan_len(s);
    assert forall|k: int| 0 <= k < n implies scan_varint(#[trigger] s.take(k)) is Truncated by {
        assert forall|i: int| 0 <= i < k implies #[trigger] s.take(k)[i] >= 128 by {
            assert(s.take(k)[i] == s[i]);
        }
        lemma_continued_is(s.take(k), 5, k as nat);
    }
    assert(s.take(s.len() as int) =~= s);
    let t = s.take(n as int);
    let c = continued(s, 5);
    assert forall|i: int| 0 <= i < c implies #[trigger] t[i] >= 128 by {
        assert(t[i] == s[i]);
    }
    lemma_continued_is(t, 5, c);
    if scan_varint(s) is Value {
        assert(t.take(n as int) =~= s.take(n as int));
    }
}

/// A number below `128^k` takes at most `k` bytes.
proof fn lemma_varint_bytes_fit(n: nat, k: nat)
    requires
        k > 0,
        n < pow128(k),
    ensures
        varint_bytes(n).len() <= k,
    decreases k,
{
    if n >= 128 {
        if k == 1 {
            assert(pow128(0) == 1);
        } else {
            lemma_varint_bytes_fit(n / 128, (k - 1) as nat);
        }
    }
}

/// The encoding written is the shortest: no VarInt that reads as `value` takes
/// fewer bytes.
pub proof fn law_varint_shortest(s: Seq<u8>)
    ensures
        scan_varint(s) matches VarintScan::Value { value, used } ==> encode_varint(value).len()
            <= used,
{
    lemma_continued(s, 5);
    if let VarintScan::Value { value, used } = scan_varint(s) {
        let digits = s.take(used as int);
        lemma_digits_bound(digits);
        assert(unsigned(value) <= digits_value(digits));
        lemma_varint_bytes_fit(unsigned(value), used);
    }
}

/// The digit of `s` at `i`, for a number of `used` digits.
pub open spec fn digit_at(s: Seq<u8>, used: nat, i: int) -> nat {
    if i < used {
        (s[i] % 128) as nat
    } else {
        0
    }
}

/// Every form of a VarInt: up to four bytes that announce another one, and one that
/// does not. It stands for the sum of its digits, each worth 128 times the one before
/// it, modulo `2^32`; the shortest form is not asked for. All other bytes are cut off
/// or too long.
pub proof fn law_varint_forms(s: Seq<u8>)
    ensures
        scan_varint(s) matches VarintScan::Value { value, used } ==> 1 <= used <= 5 && used
            <= s.len() && s[used - 1] < 128 && unsigned(value) == (digit_at(s, used, 0) + 128
            * digit_at(s, used, 1) + 16384 * digit_at(s, used, 2) + 2097152 * digit_at(s, used, 3)
            + 268435456 * digit_at(s, used, 4)) % 0x1_0000_0000,
        scan_varint(s) matches VarintScan::Value { used, .. } ==> forall|i: int|
            0 <= i < used - 1 ==> #[trigger] s[i] >= 128,
        scan_varint(s) is Truncated <==> s.len() < 5 && forall|i: int|
            0 <= i < s.len() ==> #[trigger] s[i] >= 128,
        scan_varint(s) is TooLong <==> s.len() >= 5 && forall|i: int|
            0 <= i < 5 ==> #[trigger] s[i] >= 128,
{
    lemma_continued(s, 5);
    let n = continued(s, 5);
    if n < 5 && n < s.len() {
        let d = s.take(n as int + 1);
        reveal_with_fuel(digits_value, 6);
        if n >= 1 {
            assert(d.skip(1).skip(1) =~= d.skip(2));
        }
        if n >= 2 {
            assert(d.skip(2).skip(1) =~= d.skip(3));
        }
        if n >= 3 {
            assert(d.skip(3).skip(1) =~= d.skip(4));
        }
        if n >= 4 {
            assert(d.skip(4).skip(1) =~= d.skip(5));
        }
    }
}

} // verus!
