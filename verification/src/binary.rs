//! The framing of a binary module: the eight-byte header, then sections,
//! each an id, a size and that many bytes of payload.
//!
//! Decoding here stops at the framing. What the payloads mean is for the
//! engine to decode and validate.

use vstd::prelude::*;
use vstd::slice::slice_subrange;
use vstd::string::StringExecFns;

verus! {

/// The number of bytes in the header of a module.
pub const HEADER_LEN: usize = 8;

/// Why a byte sequence is not the framing of a module.
#[derive(Debug, Clone, Copy, PartialEq, Eq, Structural)]
pub enum DecodeReason {
    /// The input ends where a byte is needed.
    UnexpectedEnd,
    /// One of the first four bytes is not that of the magic number.
    BadMagic,
    /// One of the four bytes of the version is not that of version 1.
    BadVersion,
    /// A size goes on past its fifth byte.
    SizeTooLong,
    /// A size does not fit in 32 bits.
    SizeTooLarge,
    /// A section's payload runs past the end of the input.
    SectionOutOfBounds,
}

impl DecodeReason {
    /// The words for this reason in a diagnostic text.
    pub open spec fn text(&self) -> Seq<char> {
        match self {
            DecodeReason::UnexpectedEnd => "unexpected end of input"@,
            DecodeReason::BadMagic => "bad magic number"@,
            DecodeReason::BadVersion => "unknown binary version"@,
            DecodeReason::SizeTooLong => "size representation too long"@,
            DecodeReason::SizeTooLarge => "size too large"@,
            DecodeReason::SectionOutOfBounds => "section out of bounds"@,
        }
    }

    /// The words for this reason.
    pub fn describe(&self) -> (s: &'static str)
        ensures
            s@ == self.text(),
    {
        match self {
            DecodeReason::UnexpectedEnd => "unexpected end of input",
            DecodeReason::BadMagic => "bad magic number",
            DecodeReason::BadVersion => "unknown binary version",
            DecodeReason::SizeTooLong => "size representation too long",
            DecodeReason::SizeTooLarge => "size too large",
            DecodeReason::SectionOutOfBounds => "section out of bounds",
        }
    }
}

/// The character for a decimal digit.
pub open spec fn digit_char(d: int) -> char {
    if d == 0 {
        '0'
    } else if d == 1 {
        '1'
    } else if d == 2 {
        '2'
    } else if d == 3 {
        '3'
    } else if d == 4 {
        '4'
    } else if d == 5 {
        '5'
    } else if d == 6 {
        '6'
    } else if d == 7 {
        '7'
    } else if d == 8 {
        '8'
    } else {
        '9'
    }
}

/// A natural number written in decimal, without leading zeros.
pub open spec fn decimal_text(n: nat) -> Seq<char>
    decreases n,
{
    if n < 10 {
        seq![digit_char(n as int)]
    } else {
        decimal_text(n / 10).push(digit_char((n % 10) as int))
    }
}

fn digit_str(d: usize) -> (s: &'static str)
    requires
        d < 10,
    ensures
        s@ == seq![digit_char(d as int)],
{
    proof {
        reveal_strlit("0");
        reveal_strlit("1");
        reveal_strlit("2");
        reveal_strlit("3");
        reveal_strlit("4");
        reveal_strlit("5");
        reveal_strlit("6");
        reveal_strlit("7");
        reveal_strlit("8");
        reveal_strlit("9");
    }
    let s = if d == 0 {
        "0"
    } else if d == 1 {
        "1"
    } else if d == 2 {
        "2"
    } else if d == 3 {
        "3"
    } else if d == 4 {
        "4"
    } else if d == 5 {
        "5"
    } else if d == 6 {
        "6"
    } else if d == 7 {
        "7"
    } else if d == 8 {
        "8"
    } else {
        "9"
    };
    assert(s@ =~= seq![digit_char(d as int)]);
    s
}

/// Writes a number in decimal.
pub fn decimal(n: usize) -> (s: String)
    ensures
        s@ == decimal_text(n as nat),
    decreases n,
{
    if n < 10 {
        String::from_str(digit_str(n))
    } else {
        let s = decimal(n / 10).concat(digit_str(n % 10));
        assert(s@ =~= decimal_text(n as nat));
        s
    }
}

/// Where and why decoding stopped.
#[derive(Debug, Clone, Copy, PartialEq, Eq, Structural)]
pub struct DecodeError {
    /// The offset in the input of the byte that is at fault; the length of
    /// the input where a byte is missing.
    pub offset: usize,
    /// What is wrong there.
    pub reason: DecodeReason,
}

impl DecodeError {
    /// The diagnostic text: the reason, then the offset in decimal.
    pub open spec fn text(&self) -> Seq<char> {
        self.reason.text() + " at offset "@ + decimal_text(self.offset as nat)
    }

    /// Renders the error as text for a human reader.
    pub fn message(&self) -> (s: String)
        ensures
            s@ == self.text(),
    {
        let offset = decimal(self.offset);
        String::from_str(self.reason.describe()).concat(" at offset ").concat(offset.as_str())
    }
}

/// The header of every module: the magic number, then version 1.
pub open spec fn header() -> Seq<u8> {
    seq![0x00u8, 0x61u8, 0x73u8, 0x6du8, 0x01u8, 0x00u8, 0x00u8, 0x00u8]
}

/// The fault of the header from its `i`-th byte on, if there is one: the
/// first place where the input ends or differs from the header.
pub open spec fn header_fault_from(bytes: Seq<u8>, i: int) -> Option<DecodeError>
    decreases 8 - i,
{
    if i < 0 || i >= 8 {
        None
    } else if i >= bytes.len() {
        Some(DecodeError { offset: bytes.len() as usize, reason: DecodeReason::UnexpectedEnd })
    } else if bytes[i] != header()[i] {
        Some(
            DecodeError {
                offset: i as usize,
                reason: if i < 4 {
                    DecodeReason::BadMagic
                } else {
                    DecodeReason::BadVersion
                },
            },
        )
    } else {
        header_fault_from(bytes, i + 1)
    }
}

/// The fault of the header, if there is one.
pub open spec fn header_fault(bytes: Seq<u8>) -> Option<DecodeError> {
    header_fault_from(bytes, 0)
}

/// The `i`-th byte of the header.
fn header_byte(i: usize) -> (b: u8)
    requires
        i < 8,
    ensures
        b == header()[i as int],
{
    if i == 0 {
        0x00
    } else if i == 1 {
        0x61
    } else if i == 2 {
        0x73
    } else if i == 3 {
        0x6d
    } else if i == 4 {
        0x01
    } else {
        0x00
    }
}

/// Checks the header: the input must begin with the magic number and
/// version 1. The fault is reported at the first byte that is missing or
/// differs.
pub fn check_header(bytes: &[u8]) -> (r: Option<DecodeError>)
    ensures
        r == header_fault(bytes@),
        r is None <==> bytes@.len() >= 8 && bytes@.subrange(0, 8) == header(),
{
    let mut i: usize = 0;
    while i < HEADER_LEN
        invariant
            i <= 8,
            header_fault(bytes@) == header_fault_from(bytes@, i as int),
            i <= bytes@.len(),
            forall|j: int| 0 <= j < i ==> bytes@[j] == #[trigger] header()[j],
        decreases 8 - i,
    {
        if i >= bytes.len() {
            return Some(DecodeError { offset: bytes.len(), reason: DecodeReason::UnexpectedEnd });
        }
        if bytes[i] != header_byte(i) {
            let reason = if i < 4 {
                DecodeReason::BadMagic
            } else {
                DecodeReason::BadVersion
            };
            assert(bytes@.len() >= 8 ==> bytes@.subrange(0, 8)[i as int] != header()[i as int]);
            return Some(DecodeError { offset: i, reason });
        }
        i += 1;
    }
    assert(bytes@.subrange(0, 8) =~= header());
    None
}

/// The weight of the `k`-th byte of a size: 128 to the power `k`.
pub open spec fn weight(k: int) -> int {
    if k <= 0 {
        1
    } else if k == 1 {
        128
    } else if k == 2 {
        16384
    } else if k == 3 {
        2097152
    } else {
        268435456
    }
}

/// A size that was read, and the offset of the byte after it.
pub struct SizeField {
    /// The size.
    pub value: u32,
    /// The offset of the first byte after the size.
    pub end: usize,
}

/// Reads a size from its `k`-th byte on, where the size begins at `at`.
///
/// A size is written low bits first, seven bits to a byte; every byte but
/// the last has its top bit set. It has at most five bytes and fits in 32
/// bits, so the fifth byte is below 16. The result is what the bytes from
/// the `k`-th on add to the size, and the offset after the last of them.
pub open spec fn size_from(bytes: Seq<u8>, at: int, k: int) -> Result<(int, int), DecodeError>
    decreases 5 - k,
{
    if k < 0 || k >= 5 || at < 0 {
        Err(DecodeError { offset: 0, reason: DecodeReason::SizeTooLong })
    } else if at + k >= bytes.len() {
        Err(DecodeError { offset: bytes.len() as usize, reason: DecodeReason::UnexpectedEnd })
    } else {
        let b = bytes[at + k];
        if k == 4 && b >= 0x80 {
            Err(DecodeError { offset: (at + k) as usize, reason: DecodeReason::SizeTooLong })
        } else if k == 4 && b >= 0x10 {
            Err(DecodeError { offset: (at + k) as usize, reason: DecodeReason::SizeTooLarge })
        } else if b < 0x80 {
            Ok((b * weight(k), at + k + 1))
        } else {
            match size_from(bytes, at, k + 1) {
                Ok((rest, end)) => Ok(((b - 0x80) * weight(k) + rest, end)),
                Err(e) => Err(e),
            }
        }
    }
}

/// Reads the size that begins at `at`.
pub open spec fn size_at(bytes: Seq<u8>, at: int) -> Result<(int, int), DecodeError> {
    size_from(bytes, at, 0)
}

/// What reading a size from its `k`-th byte on can give: a value that is a
/// multiple of the weight and fits in 32 bits, ending within five bytes of
/// the start of the size and within the input; or a fault at or after that
/// byte.
pub proof fn size_from_bounds(bytes: Seq<u8>, at: int, k: int)
    requires
        0 <= at,
        0 <= k < 5,
        at + k <= bytes.len(),
    ensures
        match size_from(bytes, at, k) {
            Ok((value, end)) => {
                &&& 0 <= value < 0x1_0000_0000
                &&& value % weight(k) == 0
                &&& at + k < end <= at + 5
                &&& end <= bytes.len()
            },
            Err(e) => bytes.len() <= usize::MAX ==> at + k <= e.offset <= bytes.len(),
        },
    decreases 5 - k,
{
    let w = weight(k);
    assert(w == 1 || w == 128 || w == 16384 || w == 2097152 || w == 268435456);
    if at + k < bytes.len() {
        let b = bytes[at + k];
        if b < 0x80 {
            if !(k == 4 && b >= 0x10) {
                assert(size_from(bytes, at, k) == Ok::<(int, int), DecodeError>(
                    (b * w, at + k + 1),
                ));
                assert((b * w) % w == 0 && 0 <= b * w < 0x1_0000_0000) by {
                    if k == 0 {
                        assert(b * w == b);
                    } else if k == 1 {
                        assert(b * w == b * 128);
                    } else if k == 2 {
                        assert(b * w == b * 16384);
                    } else if k == 3 {
                        assert(b * w == b * 2097152);
                    } else {
                        assert(b * w == b * 268435456);
                    }
                }
            }
        } else if k < 4 {
            size_from_bounds(bytes, at, k + 1);
            if let Ok((rest, end)) = size_from(bytes, at, k + 1) {
                let value = (b - 0x80) * w + rest;
                assert(size_from(bytes, at, k) == Ok::<(int, int), DecodeError>((value, end)));
                assert(value % w == 0 && 0 <= value < 0x1_0000_0000) by {
                    if k == 0 {
                        assert(rest % 128 == 0 && value == (b - 0x80) + rest);
                    } else if k == 1 {
                        assert(rest % 16384 == 0 && value == (b - 0x80) * 128 + rest);
                    } else if k == 2 {
                        assert(rest % 2097152 == 0 && value == (b - 0x80) * 16384 + rest);
                    } else {
                        assert(rest % 268435456 == 0 && value == (b - 0x80) * 2097152 + rest);
                    }
                }
            }
        }
    }
}

fn read_size_from(bytes: &[u8], at: usize, k: usize) -> (r: Result<SizeField, DecodeError>)
    requires
        k < 5,
        at + k <= bytes@.len(),
    ensures
        match size_from(bytes@, at as int, k as int) {
            Ok((value, end)) => r matches Ok(field) && field.value * weight(k as int) == value
                && field.end == end,
            Err(e) => r == Err::<SizeField, DecodeError>(e),
        },
    decreases 5 - k,
{
    let len = bytes.len();
    if at + k >= len {
        return Err(DecodeError { offset: len, reason: DecodeReason::UnexpectedEnd });
    }
    let b = bytes[at + k];
    if k == 4 && b >= 0x80 {
        Err(DecodeError { offset: at + k, reason: DecodeReason::SizeTooLong })
    } else if k == 4 && b >= 0x10 {
        Err(DecodeError { offset: at + k, reason: DecodeReason::SizeTooLarge })
    } else if b < 0x80 {
        Ok(SizeField { value: b as u32, end: at + k + 1 })
    } else {
        proof {
            size_from_bounds(bytes@, at as int, k as int + 1);
        }
        match read_size_from(bytes, at, k + 1) {
            Ok(rest) => {
                assert(rest.value * weight(k as int + 1) < 0x1_0000_0000);
                assert(weight(k as int + 1) == 128 * weight(k as int));
                assert(rest.value * weight(k as int + 1) == (128 * rest.value) * weight(
                    k as int,
                )) by (nonlinear_arith)
                    requires
                        weight(k as int + 1) == 128 * weight(k as int),
                ;
                assert(rest.value < 0x200_0000) by (nonlinear_arith)
                    requires
                        rest.value * weight(k as int + 1) < 0x1_0000_0000,
                        weight(k as int + 1) >= 128,
                ;
                let value: u32 = (b - 0x80) as u32 + 128 * rest.value;
                assert(value * weight(k as int) == (b - 0x80) * weight(k as int) + (128
                    * rest.value) * weight(k as int)) by (nonlinear_arith)
                    requires
                        value == (b - 0x80) + 128 * rest.value,
                ;
                Ok(SizeField { value, end: rest.end })
            },
            Err(e) => Err(e),
        }
    }
}

/// Reads the size that begins at offset `at` of the input. An offset at or
/// past the end of the input finds no byte there.
pub fn read_size(bytes: &[u8], at: usize) -> (r: Result<SizeField, DecodeError>)
    ensures
        match size_at(bytes@, at as int) {
            Ok((value, end)) => r matches Ok(field) && field.value == value && field.end == end,
            Err(e) => r == Err::<SizeField, DecodeError>(e),
        },
{
    if at > bytes.len() {
        return Err(DecodeError { offset: bytes.len(), reason: DecodeReason::UnexpectedEnd });
    }
    read_size_from(bytes, at, 0)
}

/// A section as a value: its id and the bytes of its payload.
pub struct Frame {
    /// The id of the section.
    pub id: u8,
    /// The payload.
    pub payload: Seq<u8>,
}

/// Reads the sections that begin at `at` and fill the rest of the input.
///
/// A section is one byte of id, a size, and that many bytes of payload. A
/// payload that runs past the end of the input is a fault at the offset of
/// its section.
pub open spec fn sections_from(bytes: Seq<u8>, at: int) -> Result<Seq<Frame>, DecodeError>
    decreases bytes.len() - at,
{
    if at < 0 || at >= bytes.len() {
        Ok(Seq::empty())
    } else {
        match size_at(bytes, at + 1) {
            Err(e) => Err(e),
            Ok((size, start)) => {
                if start + size > bytes.len() {
                    Err(
                        DecodeError {
                            offset: at as usize,
                            reason: DecodeReason::SectionOutOfBounds,
                        },
                    )
                } else {
                    proof {
                        size_from_bounds(bytes, at + 1, 0);
                    }
                    match sections_from(bytes, start + size) {
                        Err(e) => Err(e),
                        Ok(rest) => Ok(
                            seq![Frame { id: bytes[at], payload: bytes.subrange(start, start + size) }]
                                + rest,
                        ),
                    }
                }
            },
        }
    }
}

/// What decoding a byte sequence gives: the fault of the header if it has
/// one, else the sections after it or the first fault among them.
pub open spec fn decoded(bytes: Seq<u8>) -> Result<Seq<Frame>, DecodeError> {
    match header_fault(bytes) {
        Some(e) => Err(e),
        None => sections_from(bytes, 8),
    }
}

/// A section of a module: its id, and its payload as it lies in the input.
#[derive(Debug, Clone, Copy, PartialEq, Eq)]
pub struct Section<'a> {
    /// The id of the section.
    pub id: u8,
    /// The payload.
    pub payload: &'a [u8],
}

impl<'a> View for Section<'a> {
    type V = Frame;

    open spec fn view(&self) -> Frame {
        Frame { id: self.id, payload: self.payload@ }
    }
}

/// The framing of a module: its sections in their order.
#[derive(Debug, Clone, PartialEq, Eq)]
pub struct Framing<'a> {
    /// The sections, in the order of the input.
    pub sections: Vec<Section<'a>>,
}

impl<'a> View for Framing<'a> {
    type V = Seq<Frame>;

    open spec fn view(&self) -> Seq<Frame> {
        self.sections@.map_values(|s: Section<'a>| s@)
    }
}

/// Decodes the framing of a module: checks the header, then splits the rest
/// of the input into sections. The payloads are not copied.
pub fn decode<'a>(bytes: &'a [u8]) -> (r: Result<Framing<'a>, DecodeError>)
    ensures
        match decoded(bytes@) {
            Ok(frames) => r matches Ok(framing) && framing@ == frames,
            Err(e) => r matches Err(found) && found == e,
        },
{
    if let Some(e) = check_header(bytes) {
        return Err(e);
    }
    let len = bytes.len();
    let mut sections: Vec<Section<'a>> = Vec::new();
    let mut at: usize = HEADER_LEN;
    while at < len
        invariant
            len == bytes@.len(),
            8 <= at <= len,
            header_fault(bytes@) is None,
            match sections_from(bytes@, at as int) {
                Ok(rest) => sections_from(bytes@, 8) == Ok::<Seq<Frame>, DecodeError>(
                    sections@.map_values(|s: Section<'a>| s@) + rest,
                ),
                Err(e) => sections_from(bytes@, 8) == Err::<Seq<Frame>, DecodeError>(e),
            },
        decreases len - at,
    {
        let id = bytes[at];
        let field = match read_size(bytes, at + 1) {
            Ok(field) => field,
            Err(e) => {
                return Err(e);
            },
        };
        proof {
            size_from_bounds(bytes@, at as int + 1, 0);
        }
        let size = field.value as usize;
        if size > len - field.end {
            return Err(DecodeError { offset: at, reason: DecodeReason::SectionOutOfBounds });
        }
        let payload = slice_subrange(bytes, field.end, field.end + size);
        let section = Section { id, payload };
        proof {
            let before = sections@.map_values(|s: Section<'a>| s@);
            let after = sections@.push(section).map_values(|s: Section<'a>| s@);
            assert(after =~= before.push(section@));
            if let Ok(rest) = sections_from(bytes@, field.end + size) {
                assert(before + (seq![section@] + rest) =~= after + rest);
            }
        }
        sections.push(section);
        at = field.end + size;
    }
    assert(sections@.map_values(|s: Section<'a>| s@) + Seq::<Frame>::empty()
        =~= sections@.map_values(|s: Section<'a>| s@));
    Ok(Framing { sections })
}

/// A size as it is written: low bits first, seven bits to a byte, the top
/// bit set on every byte but the last, in as few bytes as hold it.
pub open spec fn size_bytes(n: int) -> Seq<u8>
    decreases n,
{
    if n < 128 {
        seq![n as u8]
    } else {
        seq![(n % 128 + 128) as u8] + size_bytes(n / 128)
    }
}

/// A section as it is written: the id, the size of the payload, the payload.
pub open spec fn section_bytes(frame: Frame) -> Seq<u8> {
    seq![frame.id] + size_bytes(frame.payload.len() as int) + frame.payload
}

/// Sections as they are written, one after the other.
pub open spec fn encoded_sections(frames: Seq<Frame>) -> Seq<u8>
    decreases frames.len(),
{
    if frames.len() == 0 {
        Seq::empty()
    } else {
        encoded_sections(frames.drop_last()) + section_bytes(frames.last())
    }
}

/// A module as it is written: the header, then the sections.
pub open spec fn encoded(frames: Seq<Frame>) -> Seq<u8> {
    header() + encoded_sections(frames)
}

/// Sections can be written when the size of each payload fits in 32 bits.
pub open spec fn encodable(frames: Seq<Frame>) -> bool {
    forall|i: int| 0 <= i < frames.len() ==> (#[trigger] frames[i]).payload.len() <= u32::MAX
}

/// Appends a size to the output, in as few bytes as hold it.
pub fn write_size(n: u32, out: &mut Vec<u8>)
    ensures
        final(out)@ == old(out)@ + size_bytes(n as int),
{
    let mut rest: u32 = n;
    while rest >= 128
        invariant
            out@ + size_bytes(rest as int) == old(out)@ + size_bytes(n as int),
        decreases rest,
    {
        let low: u8 = (rest % 128 + 128) as u8;
        proof {
            assert(out@.push(low) + size_bytes(rest as int / 128) =~= out@ + size_bytes(
                rest as int,
            ));
        }
        out.push(low);
        rest = rest / 128;
    }
    proof {
        assert(out@.push(rest as u8) =~= out@ + size_bytes(rest as int));
    }
    out.push(rest as u8);
}

impl<'a> Framing<'a> {
    /// Writes the module out: the header, then each section with the size
    /// of its payload. There is no output where a payload is too long for
    /// its size to fit in 32 bits.
    pub fn encode(&self) -> (r: Option<Vec<u8>>)
        ensures
            r is Some <==> encodable(self@),
            r matches Some(out) ==> out@ == encoded(self@),
    {
        let mut out: Vec<u8> = Vec::new();
        out.push(0x00);
        out.push(0x61);
        out.push(0x73);
        out.push(0x6d);
        out.push(0x01);
        out.push(0x00);
        out.push(0x00);
        out.push(0x00);
        assert(out@ =~= header() + encoded_sections(self@.take(0)));
        let mut i: usize = 0;
        while i < self.sections.len()
            invariant
                i <= self.sections@.len(),
                self@.len() == self.sections@.len(),
                encodable(self@.take(i as int)),
                out@ == header() + encoded_sections(self@.take(i as int)),
            decreases self.sections@.len() - i,
        {
            let section = &self.sections[i];
            let size = section.payload.len();
            if size > 0xffff_ffff {
                assert(self@[i as int].payload.len() > u32::MAX);
                return None;
            }
            proof {
                let done = self@.take(i as int);
                let next = self@.take(i as int + 1);
                assert(next.drop_last() =~= done);
                assert(next.last() == section@);
                assert(encoded_sections(next) == encoded_sections(done) + section_bytes(
                    section@,
                ));
                assert(header() + encoded_sections(next) =~= out@ + seq![section.id]
                    + size_bytes(size as int) + section.payload@);
                assert forall|j: int| 0 <= j < next.len() implies (#[trigger] next[j]).payload.len()
                    <= u32::MAX by {
                    if j < i {
                        assert(next[j] == done[j]);
                    }
                }
            }
            out.push(section.id);
            write_size(size as u32, &mut out);
            out.extend_from_slice(section.payload);
            i += 1;
        }
        assert(self@.take(i as int) =~= self@);
        Some(out)
    }
}

/// The number of sizes that can begin at the `k`-th byte: 2 to the power 32,
/// divided by the weight of that byte.
pub open spec fn size_limit(k: int) -> int {
    if k <= 0 {
        0x1_0000_0000
    } else if k == 1 {
        0x200_0000
    } else if k == 2 {
        0x4_0000
    } else if k == 3 {
        0x800
    } else {
        0x10
    }
}

/// Reading a written size gives the size back: where the bytes of `n` lie
/// in the input from the `k`-th byte of a size on, and `n` is below the
/// limit for that byte, reading from there gives `n` times the weight and
/// ends after those bytes.
pub proof fn read_inverts_write(bytes: Seq<u8>, at: int, k: int, n: int)
    requires
        0 <= at,
        0 <= k < 5,
        0 <= n < size_limit(k),
        at + k + size_bytes(n).len() <= bytes.len(),
        bytes.subrange(at + k, at + k + size_bytes(n).len()) == size_bytes(n),
    ensures
        size_from(bytes, at, k) == Ok::<(int, int), DecodeError>(
            (n * weight(k), at + k + size_bytes(n).len()),
        ),
    decreases n,
{
    let written = size_bytes(n);
    let w = weight(k);
    assert(bytes[at + k] == written[0]) by {
        assert(bytes.subrange(at + k, at + k + written.len())[0] == bytes[at + k]);
    }
    if n < 128 {
        assert(written[0] == n as u8);
    } else {
        let low = (n % 128 + 128) as u8;
        let rest = size_bytes(n / 128);
        assert(written =~= seq![low] + rest);
        assert(written[0] == low);
        assert(k < 4);
        assert(bytes.subrange(at + k + 1, at + k + 1 + rest.len()) =~= rest) by {
            assert forall|j: int| 0 <= j < rest.len() implies bytes[at + k + 1 + j] == rest[j] by {
                assert(bytes.subrange(at + k, at + k + written.len())[j + 1] == bytes[at + k + 1
                    + j]);
                assert(written[j + 1] == rest[j]);
            }
        }
        read_inverts_write(bytes, at, k + 1, n / 128);
        assert(weight(k + 1) == 128 * w);
        assert((low - 0x80) * w + (n / 128) * weight(k + 1) == n * w) by {
            let q = n / 128;
            let r = n % 128;
            assert(n == 128 * q + r);
            assert(low - 0x80 == r);
            assert(r * w + q * (128 * w) == (128 * q + r) * w) by (nonlinear_arith);
        }
    }
}

/// The first section of a list is written first: writing a section and then
/// the others gives the same bytes as writing the list.
pub proof fn first_section_is_written_first(frame: Frame, rest: Seq<Frame>)
    ensures
        encoded_sections(seq![frame] + rest) == section_bytes(frame) + encoded_sections(rest),
    decreases rest.len(),
{
    let all = seq![frame] + rest;
    if rest.len() == 0 {
        assert(all.drop_last() =~= Seq::<Frame>::empty());
        assert(encoded_sections(all.drop_last()) =~= Seq::<u8>::empty());
        assert(encoded_sections(all) =~= section_bytes(frame) + encoded_sections(rest));
    } else {
        assert(all.drop_last() =~= seq![frame] + rest.drop_last());
        assert(all.last() == rest.last());
        first_section_is_written_first(frame, rest.drop_last());
        assert(encoded_sections(all) =~= section_bytes(frame) + encoded_sections(rest));
    }
}

/// Reading written sections gives the sections back: where the input from
/// `at` to its end is what writing the sections gives, reading from `at`
/// gives those sections.
pub proof fn sections_read_back(bytes: Seq<u8>, at: int, frames: Seq<Frame>)
    requires
        0 <= at <= bytes.len(),
        encodable(frames),
        bytes.subrange(at, bytes.len() as int) == encoded_sections(frames),
    ensures
        sections_from(bytes, at) == Ok::<Seq<Frame>, DecodeError>(frames),
    decreases frames.len(),
{
    let tail = bytes.subrange(at, bytes.len() as int);
    if frames.len() == 0 {
        assert(tail.len() == 0);
        assert(frames =~= Seq::<Frame>::empty());
    } else {
        let frame = frames[0];
        let rest = frames.drop_first();
        assert(frames =~= seq![frame] + rest);
        first_section_is_written_first(frame, rest);
        let size = frame.payload.len() as int;
        let written = size_bytes(size);
        let start = at + 1 + written.len();
        let after = encoded_sections(rest);
        assert(tail =~= seq![frame.id] + written + frame.payload + after);
        assert(tail.len() == 1 + written.len() + size + after.len());
        assert(bytes[at] == frame.id) by {
            assert(tail[0] == bytes[at]);
        }
        assert(bytes.subrange(at + 1, at + 1 + written.len()) =~= written) by {
            assert forall|j: int| 0 <= j < written.len() implies bytes[at + 1 + j]
                == written[j] by {
                assert(tail[1 + j] == bytes[at + 1 + j]);
            }
        }
        read_inverts_write(bytes, at + 1, 0, size);
        assert(size_at(bytes, at + 1) == Ok::<(int, int), DecodeError>((size, start)));
        assert(bytes.subrange(start, start + size) =~= frame.payload) by {
            assert forall|j: int| 0 <= j < size implies bytes[start + j] == frame.payload[j] by {
                assert(tail[1 + written.len() + j] == bytes[start + j]);
            }
        }
        assert(bytes.subrange(start + size, bytes.len() as int) =~= after) by {
            assert forall|j: int| 0 <= j < after.len() implies bytes[start + size + j]
                == after[j] by {
                assert(tail[1 + written.len() + size + j] == bytes[start + size + j]);
            }
        }
        assert(encodable(rest)) by {
            assert forall|j: int| 0 <= j < rest.len() implies (#[trigger] rest[j]).payload.len()
                <= u32::MAX by {
                assert(rest[j] == frames[j + 1]);
            }
        }
        sections_read_back(bytes, start + size, rest);
    }
}

/// Decoding inverts encoding: what is written for a list of sections that
/// can be written decodes to that list.
pub proof fn decode_inverts_encode(frames: Seq<Frame>)
    requires
        encodable(frames),
    ensures
        decoded(encoded(frames)) == Ok::<Seq<Frame>, DecodeError>(frames),
{
    let bytes = encoded(frames);
    reveal_with_fuel(header_fault_from, 9);
    assert(header_fault(bytes) is None);
    assert(bytes.subrange(8, bytes.len() as int) =~= encoded_sections(frames));
    sections_read_back(bytes, 8, frames);
}

/// What was read can be written: the sections that reading from `at` gives
/// each have a payload whose size fits in 32 bits.
pub proof fn sections_read_are_encodable(bytes: Seq<u8>, at: int)
    requires
        0 <= at,
    ensures
        sections_from(bytes, at) matches Ok(frames) ==> encodable(frames),
    decreases bytes.len() - at,
{
    if at < bytes.len() {
        size_from_bounds(bytes, at + 1, 0);
        if let Ok((size, start)) = size_at(bytes, at + 1) {
            if start + size <= bytes.len() {
                sections_read_are_encodable(bytes, start + size);
                if let Ok(rest) = sections_from(bytes, start + size) {
                    let frame = Frame { id: bytes[at], payload: bytes.subrange(start, start + size) };
                    let frames = seq![frame] + rest;
                    assert forall|j: int| 0 <= j < frames.len() implies (
                    #[trigger] frames[j]).payload.len() <= u32::MAX by {
                        if j > 0 {
                            assert(frames[j] == rest[j - 1]);
                        }
                    }
                }
            }
        }
    }
}

/// Decoding, encoding and decoding again gives what the first decoding
/// gave: a module that decodes can always be written, and what is written
/// decodes to the same sections.
pub proof fn reencoding_keeps_the_sections(bytes: Seq<u8>)
    ensures
        decoded(bytes) matches Ok(frames) ==> encodable(frames) && decoded(encoded(frames))
            == decoded(bytes),
{
    if let Ok(frames) = decoded(bytes) {
        sections_read_are_encodable(bytes, 8);
        decode_inverts_encode(frames);
    }
}

} // verus!
