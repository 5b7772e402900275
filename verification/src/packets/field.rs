//! The encodings of single fields.
//!
//! A response is made of null-terminated byte strings. Some are text, some
//! are decimal numbers written out as text, and in a full status report each
//! value follows a label that is read and thrown away.
//!
//! Every reader takes the datagram and the offset at which the field starts,
//! and gives back the field with the offset of what follows it.

use crate::Error;
use binrw::BinRead;
use vstd::prelude::*;

verus! {

/// The text that `binrw::NullString` displays for a byte string: the bytes
/// read as UTF-8, with U+FFFD in place of each part that is not UTF-8.
pub uninterp spec fn nullstring_text(bytes: Seq<u8>) -> Seq<char>;

/// Reads one null-terminated string with `binrw::NullString::read_options`,
/// from a cursor over `buf` placed at `pos`.
///
/// The contract is taken on trust. It says what binrw does: it reads byte
/// after byte until it meets a zero, and returns the bytes before the zero,
/// or, where the buffer ends first, an error, which comes out of here as
/// `None`.
#[verifier::external_body]
fn read_null_string(buf: &[u8], pos: usize) -> (r: Option<Vec<u8>>)
    ensures
        match r {
            Some(bytes) => {
                &&& pos + bytes@.len() < buf@.len()
                &&& buf@[pos + bytes@.len()] == 0
                &&& bytes@ == buf@.subrange(pos as int, pos + bytes@.len())
                &&& forall|i: int| 0 <= i < bytes@.len() ==> bytes@[i] != 0
            },
            None => forall|i: int| pos <= i < buf@.len() ==> buf@[i] != 0,
        },
{
    let mut reader = std::io::Cursor::new(buf);
    reader.set_position(pos as u64);
    binrw::NullString::read_options(&mut reader, binrw::Endian::Big, ()).map(|s| s.0).ok()
}

/// Turns the bytes of a string field into text with `binrw::NullString`'s
/// `to_string`.
///
/// The contract is taken on trust. It says that the text is a function of
/// the bytes, and no more.
#[verifier::external_body]
fn null_string_to_string(bytes: Vec<u8>) -> (s: String)
    ensures
        s@ == nullstring_text(bytes@),
{
    binrw::NullString(bytes).to_string()
}

/// The offset of the first zero byte of `buf` at or after `from`, or the
/// length of `buf` where there is none.
pub open spec fn first_zero(buf: Seq<u8>, from: int) -> int
    decreases buf.len() - from,
{
    if from < 0 || from >= buf.len() {
        buf.len() as int
    } else if buf[from] == 0 {
        from
    } else {
        first_zero(buf, from + 1)
    }
}

/// The null-terminated string that starts at `from`: its bytes without the
/// terminator, and the offset after the terminator. `None` where no zero byte
/// follows.
pub open spec fn spec_nstring(buf: Seq<u8>, from: int) -> Option<(Seq<u8>, int)> {
    let end = first_zero(buf, from);
    if 0 <= from && end < buf.len() {
        Some((buf.subrange(from, end), end + 1))
    } else {
        None
    }
}

/// The text of the null-terminated string that starts at `from`, and the
/// offset after its terminator.
pub open spec fn spec_text(buf: Seq<u8>, from: int) -> Result<(Seq<char>, int), Error> {
    match spec_nstring(buf, from) {
        None => Err(Error::Truncated),
        Some((bytes, next)) => Ok((nullstring_text(bytes), next)),
    }
}

/// `first_zero` is the one offset on which a run without zeros ends.
pub proof fn lemma_first_zero(buf: Seq<u8>, from: int, end: int)
    requires
        0 <= from <= end <= buf.len(),
        forall|i: int| from <= i < end ==> buf[i] != 0,
        end < buf.len() ==> buf[end] == 0,
    ensures
        first_zero(buf, from) == end,
    decreases end - from,
{
    if from < end {
        lemma_first_zero(buf, from + 1, end);
    }
}

/// What `first_zero` finds: nothing before it is zero, and it is zero itself
/// unless it is the end.
pub proof fn lemma_first_zero_bounds(buf: Seq<u8>, from: int)
    requires
        0 <= from <= buf.len(),
    ensures
        from <= first_zero(buf, from) <= buf.len(),
        forall|i: int| from <= i < first_zero(buf, from) ==> buf[i] != 0,
        first_zero(buf, from) < buf.len() ==> buf[first_zero(buf, from)] == 0,
    decreases buf.len() - from,
{
    if from < buf.len() && buf[from] != 0 {
        lemma_first_zero_bounds(buf, from + 1);
    }
}

/// What reading a string gives: bytes without a zero among them, cut out of
/// the datagram from `from` up to a zero byte, and the offset after that
/// byte. Nothing is read only where no zero byte follows.
pub proof fn lemma_nstring_shape(buf: Seq<u8>, from: int)
    requires
        0 <= from,
    ensures
        match spec_nstring(buf, from) {
            Some((bytes, next)) => {
                &&& next == from + bytes.len() + 1
                &&& next <= buf.len()
                &&& buf[next - 1] == 0
                &&& bytes == buf.subrange(from, next - 1)
                &&& forall|i: int| 0 <= i < bytes.len() ==> bytes[i] != 0
            },
            None => forall|i: int| from <= i < buf.len() ==> buf[i] != 0,
        },
{
    if from <= buf.len() {
        lemma_first_zero_bounds(buf, from);
    }
}

/// A byte string without a zero in it, written out with a zero byte after
/// it, is read back as it was, whatever stands before and after.
pub proof fn lemma_nstring_reads_back(before: Seq<u8>, content: Seq<u8>, after: Seq<u8>)
    requires
        forall|i: int| 0 <= i < content.len() ==> content[i] != 0,
    ensures
        spec_nstring(before + content + seq![0u8] + after, before.len() as int) == Some(
            (content, (before.len() + content.len() + 1) as int),
        ),
{
    let buf = before + content + seq![0u8] + after;
    let from = before.len() as int;
    let end = from + content.len();
    assert forall|i: int| from <= i < end implies buf[i] != 0 by {
        assert(buf[i] == content[i - from]);
    }
    lemma_first_zero(buf, from, end);
    assert(buf.subrange(from, end) =~= content);
}

/// Appends `content` to `out` as a null-terminated string: the bytes as
/// they are, then a zero byte.
///
/// Nothing is escaped. The string is read back as it was written only if no
/// byte of `content` is zero; that is for the caller to see to.
pub fn write_nstring(out: &mut Vec<u8>, content: &[u8])
    ensures
        final(out)@ == old(out)@ + content@ + seq![0u8],
        (forall|i: int| 0 <= i < content@.len() ==> content@[i] != 0) ==> spec_nstring(
            final(out)@,
            old(out)@.len() as int,
        ) == Some((content@, final(out)@.len() as int)),
{
    let ghost before = out@;
    let mut i: usize = 0;
    while i < content.len()
        invariant
            i <= content.len(),
            out@ == before + content@.take(i as int),
        decreases content.len() - i,
    {
        out.push(content[i]);
        assert(content@.take(i + 1) =~= content@.take(i as int).push(content@[i as int]));
        i = i + 1;
    }
    out.push(0);
    proof {
        assert(content@.take(content@.len() as int) =~= content@);
        assert(out@ =~= before + content@ + seq![0u8] + Seq::<u8>::empty());
        if forall|i: int| 0 <= i < content@.len() ==> content@[i] != 0 {
            lemma_nstring_reads_back(before, content@, Seq::empty());
        }
    }
}

/// Reads the null-terminated string at `pos`.
///
/// Fails with `Truncated` where the datagram ends before a zero byte.
pub fn nstring_parser(buf: &[u8], pos: usize) -> (r: Result<(Vec<u8>, usize), Error>)
    ensures
        match r {
            Ok((bytes, next)) => spec_nstring(buf@, pos as int) == Some((bytes@, next as int)),
            Err(e) => e == Error::Truncated && spec_nstring(buf@, pos as int) is None,
        },
{
    match read_null_string(buf, pos) {
        Some(bytes) => {
            proof {
                assert forall|i: int| pos <= i < pos + bytes@.len() implies buf@[i] != 0 by {
                    assert(buf@[i] == bytes@[i - pos]);
                }
                lemma_first_zero(buf@, pos as int, pos + bytes@.len());
            }
            // the terminator lies within the slice, whose length is a `usize`
            assert(buf@.len() == buf.len());
            let next = pos + bytes.len() + 1;
            Ok((bytes, next))
        },
        None => {
            proof {
                if pos <= buf@.len() {
                    lemma_first_zero(buf@, pos as int, buf@.len() as int);
                }
            }
            Err(Error::Truncated)
        },
    }
}

/// Whether `b` is one of the ASCII digits `0` to `9`.
pub open spec fn is_digit(b: u8) -> bool {
    0x30 <= b <= 0x39
}

/// Whether every byte of `s` is an ASCII digit.
pub open spec fn all_digits(s: Seq<u8>) -> bool {
    forall|i: int| 0 <= i < s.len() ==> is_digit(#[trigger] s[i])
}

/// The number that a run of ASCII digits writes out in base ten.
pub open spec fn digits_value(s: Seq<u8>) -> nat
    decreases s.len(),
{
    if s.len() == 0 {
        0
    } else {
        digits_value(s.drop_last()) * 10 + (s.last() - 0x30) as nat
    }
}

/// The digits of a decimal text: the text itself, without one leading `+`.
pub open spec fn unsigned_digits(text: Seq<u8>) -> Seq<u8> {
    if text.len() > 0 && text[0] == 0x2B {
        text.skip(1)
    } else {
        text
    }
}

/// The value of `text` read as a decimal number of at most `limit`: an
/// optional `+`, then one digit or more and nothing else. `None` for any
/// other text and for a number above `limit`.
pub open spec fn spec_decimal(text: Seq<u8>, limit: nat) -> Option<nat> {
    let digits = unsigned_digits(text);
    if digits.len() > 0 && all_digits(digits) && digits_value(digits) <= limit {
        Some(digits_value(digits))
    } else {
        None
    }
}

/// A run of digits is worth at least as much as any of its prefixes.
pub proof fn lemma_digits_value_prefix(s: Seq<u8>, k: int)
    requires
        0 <= k <= s.len(),
        all_digits(s),
    ensures
        digits_value(s.take(k)) <= digits_value(s),
    decreases s.len(),
{
    if k == s.len() {
        assert(s.take(k) =~= s);
    } else {
        assert(s.drop_last().take(k) =~= s.take(k));
        lemma_digits_value_prefix(s.drop_last(), k);
        assert(is_digit(s[s.len() - 1]));
    }
}

/// Zeros in front of a run of digits do not change what it is worth.
pub proof fn lemma_leading_zero(s: Seq<u8>)
    requires
        all_digits(s),
    ensures
        all_digits(seq![0x30u8] + s),
        digits_value(seq![0x30u8] + s) == digits_value(s),
    decreases s.len(),
{
    let longer = seq![0x30u8] + s;
    if s.len() == 0 {
        assert(longer.drop_last() =~= Seq::<u8>::empty());
        assert(digits_value(longer.drop_last()) == 0);
    } else {
        lemma_leading_zero(s.drop_last());
        assert(longer.drop_last() =~= seq![0x30u8] + s.drop_last());
    }
    assert forall|i: int| 0 <= i < longer.len() implies is_digit(#[trigger] longer[i]) by {
        if i > 0 {
            assert(longer[i] == s[i - 1]);
        }
    }
}

/// Reads `text` as a decimal number of at most `limit`.
pub fn parse_decimal(text: &[u8], limit: u64) -> (r: Option<u64>)
    ensures
        match r {
            Some(v) => spec_decimal(text@, limit as nat) == Some(v as nat),
            None => spec_decimal(text@, limit as nat) is None,
        },
{
    let n = text.len();
    let start: usize = if n > 0 && text[0] == 0x2B {
        1
    } else {
        0
    };
    let ghost digits = unsigned_digits(text@);
    assert(digits =~= text@.subrange(start as int, n as int));
    if start == n {
        return None;
    }
    let mut acc: u64 = 0;
    let mut i: usize = start;
    assert(digits.take(0) =~= Seq::<u8>::empty());
    while i < n
        invariant
            start <= i <= n,
            start < n,
            n == text@.len(),
            digits == unsigned_digits(text@),
            digits == text@.subrange(start as int, n as int),
            all_digits(digits.take(i - start)),
            acc == digits_value(digits.take(i - start)),
            acc <= limit,
        decreases n - i,
    {
        let b = text[i];
        let ghost prefix = digits.take(i - start);
        let ghost longer = digits.take(i + 1 - start);
        assert(longer.drop_last() =~= prefix);
        assert(longer.last() == b);
        if b < 0x30 || b > 0x39 {
            assert(!is_digit(digits[i - start]));
            return None;
        }
        let d = (b - 0x30) as u64;
        if d > limit || acc > (limit - d) / 10 {
            proof {
                assert(digits_value(longer) > limit);
                if all_digits(digits) {
                    lemma_digits_value_prefix(digits, i + 1 - start);
                }
            }
            return None;
        }
        acc = acc * 10 + d;
        i = i + 1;
    }
    assert(digits.take(n - start) =~= digits);
    Some(acc)
}

/// An unsigned integer type that a decimal field is read into.
pub trait DecimalInt: Sized {
    /// The largest number of the type.
    spec fn spec_limit() -> nat;

    /// The number that a value of the type holds.
    spec fn spec_value(self) -> nat;

    /// The largest number of the type.
    fn limit() -> (m: u64)
        ensures
            m == Self::spec_limit(),
    ;

    /// The value of the type that holds `v`.
    fn from_u64(v: u64) -> (r: Self)
        requires
            v <= Self::spec_limit(),
        ensures
            r.spec_value() == v,
    ;
}

impl DecimalInt for u16 {
    open spec fn spec_limit() -> nat {
        0xFFFF
    }

    open spec fn spec_value(self) -> nat {
        self as nat
    }

    fn limit() -> (m: u64) {
        0xFFFF
    }

    fn from_u64(v: u64) -> (r: Self) {
        v as u16
    }
}

impl DecimalInt for u32 {
    open spec fn spec_limit() -> nat {
        0xFFFF_FFFF
    }

    open spec fn spec_value(self) -> nat {
        self as nat
    }

    fn limit() -> (m: u64) {
        0xFFFF_FFFF
    }

    fn from_u64(v: u64) -> (r: Self) {
        v as u32
    }
}

/// The string-encoded integer that starts at `from`: a null-terminated
/// string whose text is a decimal number of at most `limit`. With the number
/// comes the offset after the terminator.
pub open spec fn spec_nstring_int(buf: Seq<u8>, from: int, limit: nat) -> Result<
    (nat, int),
    Error,
> {
    match spec_nstring(buf, from) {
        None => Err(Error::Truncated),
        Some((text, next)) => match spec_decimal(text, limit) {
            None => Err(Error::MalformedField { pos: from as usize }),
            Some(v) => Ok((v, next)),
        },
    }
}

/// Reads the string-encoded integer at `pos`.
///
/// Fails with `Truncated` where the datagram ends before a zero byte, and
/// with `MalformedField` at `pos` where the text is no decimal number that
/// `T` can hold.
pub fn nstring_int_parser<T: DecimalInt>(buf: &[u8], pos: usize) -> (r: Result<(T, usize), Error>)
    ensures
        match r {
            Ok((v, next)) => spec_nstring_int(buf@, pos as int, T::spec_limit()) == Ok::<
                (nat, int),
                Error,
            >((v.spec_value(), next as int)),
            Err(e) => spec_nstring_int(buf@, pos as int, T::spec_limit()) == Err::<
                (nat, int),
                Error,
            >(e),
        },
{
    let (text, next) = nstring_parser(buf, pos)?;
    match parse_decimal(text.as_slice(), T::limit()) {
        Some(v) => Ok((T::from_u64(v), next)),
        None => Err(Error::MalformedField { pos }),
    }
}

/// The value of the key/value pair that starts at `from`: the second of two
/// null-terminated strings, with the offset at which it starts and the offset
/// after its terminator. The first string, the key, is passed over.
pub open spec fn spec_kv(buf: Seq<u8>, from: int) -> Option<(Seq<u8>, int, int)> {
    match spec_nstring(buf, from) {
        None => None,
        Some((_, start)) => match spec_nstring(buf, start) {
            None => None,
            Some((value, next)) => Some((value, start, next)),
        },
    }
}

/// The text value of the key/value pair that starts at `from`.
pub open spec fn spec_kv_string(buf: Seq<u8>, from: int) -> Result<(Seq<char>, int), Error> {
    match spec_kv(buf, from) {
        None => Err(Error::Truncated),
        Some((value, _, next)) => Ok((nullstring_text(value), next)),
    }
}

/// The 16-bit value of the key/value pair that starts at `from`.
pub open spec fn spec_kv_u16(buf: Seq<u8>, from: int) -> Result<(u16, int), Error> {
    match spec_kv(buf, from) {
        None => Err(Error::Truncated),
        Some((value, start, next)) => match spec_decimal(value, 0xFFFF) {
            None => Err(Error::MalformedField { pos: start as usize }),
            Some(v) => Ok((v as u16, next)),
        },
    }
}

/// Reads the string at `pos` as text.
///
/// Fails with `Truncated` where the datagram ends before a zero byte.
pub fn nstring_text_parser(buf: &[u8], pos: usize) -> (r: Result<(String, usize), Error>)
    ensures
        match r {
            Ok((s, next)) => spec_text(buf@, pos as int) == Ok::<(Seq<char>, int), Error>(
                (s@, next as int),
            ),
            Err(e) => spec_text(buf@, pos as int) == Err::<(Seq<char>, int), Error>(e),
        },
{
    let (bytes, next) = nstring_parser(buf, pos)?;
    Ok((null_string_to_string(bytes), next))
}

/// Reads the key/value pair at `pos` and gives its value as text.
///
/// Fails with `Truncated` where the datagram ends before both strings do.
pub fn kv_string_parser(buf: &[u8], pos: usize) -> (r: Result<(String, usize), Error>)
    ensures
        match r {
            Ok((s, next)) => spec_kv_string(buf@, pos as int) == Ok::<(Seq<char>, int), Error>(
                (s@, next as int),
            ),
            Err(e) => spec_kv_string(buf@, pos as int) == Err::<(Seq<char>, int), Error>(e),
        },
{
    let (_, start) = nstring_parser(buf, pos)?;
    let (value, next) = nstring_parser(buf, start)?;
    Ok((null_string_to_string(value), next))
}

/// Reads the key/value pair at `pos` and gives its value as a number.
///
/// Fails with `Truncated` where the datagram ends before both strings do,
/// and with `MalformedField` at the offset of the value where the value is no
/// decimal number of 16 bits.
pub fn kv_u16_parser(buf: &[u8], pos: usize) -> (r: Result<(u16, usize), Error>)
    ensures
        match r {
            Ok((v, next)) => spec_kv_u16(buf@, pos as int) == Ok::<(u16, int), Error>(
                (v, next as int),
            ),
            Err(e) => spec_kv_u16(buf@, pos as int) == Err::<(u16, int), Error>(e),
        },
{
    let (_, start) = nstring_parser(buf, pos)?;
    let (value, next) = nstring_parser(buf, start)?;
    match parse_decimal(value.as_slice(), 0xFFFF) {
        Some(v) => Ok((v as u16, next)),
        None => Err(Error::MalformedField { pos: start }),
    }
}

} // verus!
