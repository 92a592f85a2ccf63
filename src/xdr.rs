//! Sequential big-endian reader over the bytes of a tpr file.
//!
//! Every read either returns its value and advances the cursor by the exact
//! width of the value, or fails.  The model of each read is a spec function
//! from the bytes and the cursor position to the value and the next position
//! (a `Step`).

use vstd::prelude::*;
use vstd::utf8::{decode_utf8, valid_utf8};

use crate::errors::{eof, ParseTprError, ReadError};
use crate::structures::{Precision, Real};

verus! {

/// The outcome of a read in the model: the value and the position after it.
pub type Step<T> = Result<(T, int), ParseTprError>;

/// First format version that uses the narrow body encodings.
pub const NARROW_VERSION: i32 = 119;

pub open spec fn be_u16(b: Seq<u8>, p: int) -> int {
    b[p] * 0x100 + b[p + 1]
}

pub open spec fn be_u32(b: Seq<u8>, p: int) -> int {
    b[p] * 0x100_0000 + b[p + 1] * 0x1_0000 + b[p + 2] * 0x100 + b[p + 3]
}

pub open spec fn be_u64(b: Seq<u8>, p: int) -> int {
    be_u32(b, p) * 0x1_0000_0000 + be_u32(b, p + 4)
}

/// Two's complement reading of four big-endian bytes.
pub open spec fn be_i32(b: Seq<u8>, p: int) -> int {
    if be_u32(b, p) < 0x8000_0000 {
        be_u32(b, p)
    } else {
        be_u32(b, p) - 0x1_0000_0000
    }
}

/// Two's complement reading of eight big-endian bytes.
pub open spec fn be_i64(b: Seq<u8>, p: int) -> int {
    if be_u64(b, p) < 0x8000_0000_0000_0000 {
        be_u64(b, p)
    } else {
        be_u64(b, p) - 0x1_0000_0000_0000_0000
    }
}

/// A read of `n` bytes at `p` that yields `v`.
pub open spec fn read_step<T>(b: Seq<u8>, p: int, n: int, v: T) -> Step<T> {
    if p + n <= b.len() {
        Ok((v, p + n))
    } else {
        Err(eof())
    }
}

/// A forward skip of `n` bytes at `p`.
pub open spec fn skip_step(b: Seq<u8>, p: int, n: int) -> Step<()> {
    if n < 0 {
        Err(ParseTprError::CouldNotRead(ReadError::NegativeSkip))
    } else {
        read_step(b, p, n, ())
    }
}

pub open spec fn u8_step(b: Seq<u8>, p: int) -> Step<u8> {
    read_step(b, p, 1, b[p])
}

pub open spec fn u16_step(b: Seq<u8>, p: int) -> Step<u16> {
    read_step(b, p, 2, be_u16(b, p) as u16)
}

pub open spec fn u32_step(b: Seq<u8>, p: int) -> Step<u32> {
    read_step(b, p, 4, be_u32(b, p) as u32)
}

pub open spec fn i32_step(b: Seq<u8>, p: int) -> Step<i32> {
    read_step(b, p, 4, be_i32(b, p) as i32)
}

pub open spec fn u64_step(b: Seq<u8>, p: int) -> Step<u64> {
    read_step(b, p, 8, be_u64(b, p) as u64)
}

pub open spec fn i64_step(b: Seq<u8>, p: int) -> Step<i64> {
    read_step(b, p, 8, be_i64(b, p) as i64)
}

/// Number of bytes of one real number at the given precision.
pub open spec fn real_width(precision: Precision) -> int {
    match precision {
        Precision::Single => 4,
        Precision::Double => 8,
    }
}

/// The real number stored at `p`, at the given precision.
pub open spec fn real_at(b: Seq<u8>, p: int, precision: Precision) -> Real {
    match precision {
        Precision::Single => Real::Single(be_u32(b, p) as u32),
        Precision::Double => Real::Double(be_u64(b, p) as u64),
    }
}

pub open spec fn real_step(b: Seq<u8>, p: int, precision: Precision) -> Step<Real> {
    read_step(b, p, real_width(precision), real_at(b, p, precision))
}

/// Three consecutive reals at `p`.
pub open spec fn vector3_at(b: Seq<u8>, p: int, precision: Precision) -> [Real; 3] {
    let w = real_width(precision);
    [real_at(b, p, precision), real_at(b, p + w, precision), real_at(b, p + 2 * w, precision)]
}

/// Width of a "short" integer in the file body.
pub open spec fn ushort_width(version: i32) -> int {
    if version < NARROW_VERSION {
        4
    } else {
        2
    }
}

/// Width of an "unsigned char" (or boolean) in the file body.
pub open spec fn uchar_width(version: i32) -> int {
    if version < NARROW_VERSION {
        4
    } else {
        1
    }
}

pub open spec fn ushort_step(b: Seq<u8>, p: int, version: i32) -> Step<u32> {
    if version < NARROW_VERSION {
        u32_step(b, p)
    } else {
        read_step(b, p, 2, be_u16(b, p) as u32)
    }
}

pub open spec fn uchar_step(b: Seq<u8>, p: int, version: i32) -> Step<u32> {
    if version < NARROW_VERSION {
        u32_step(b, p)
    } else {
        read_step(b, p, 1, b[p] as u32)
    }
}

/// `e` is the length of the text before the first NUL byte of `s`.
pub open spec fn nul_end(s: Seq<u8>, e: int) -> bool {
    &&& 0 <= e <= s.len()
    &&& forall|i: int| 0 <= i < e ==> s[i] != 0
    &&& e == s.len() || s[e] == 0
}

/// The bytes of `s` before its first NUL byte.
pub open spec fn text_bytes(s: Seq<u8>) -> Seq<u8> {
    s.take(choose|e: int| nul_end(s, e))
}

/// The text stored in `n` bytes at `p`: NUL-terminated UTF-8.
pub open spec fn text_step(b: Seq<u8>, p: int, n: int) -> Step<Seq<char>> {
    if p + n <= b.len() {
        if valid_utf8(text_bytes(b.subrange(p, p + n))) {
            Ok((decode_utf8(text_bytes(b.subrange(p, p + n))), p + n))
        } else {
            Err(ParseTprError::CouldNotRead(ReadError::InvalidText))
        }
    } else {
        Err(eof())
    }
}

/// `n` rounded up to a multiple of 4.
pub open spec fn round4(n: int) -> int {
    if n % 4 == 0 {
        n
    } else {
        n + 4 - n % 4
    }
}

/// Legacy string: an unused 4-byte word, a 4-byte length, and the content
/// padded to a multiple of 4 bytes.
pub open spec fn string4_step(b: Seq<u8>, p: int) -> Step<Seq<char>> {
    if p + 8 <= b.len() {
        text_step(b, p + 8, round4(be_u32(b, p + 4)))
    } else {
        Err(eof())
    }
}

/// Newer string: an 8-byte length and the unpadded content.
pub open spec fn string8_step(b: Seq<u8>, p: int) -> Step<Seq<char>> {
    if p + 8 <= b.len() {
        text_step(b, p + 8, be_u64(b, p))
    } else {
        Err(eof())
    }
}

pub open spec fn string_body_step(b: Seq<u8>, p: int, version: i32) -> Step<Seq<char>> {
    if version < NARROW_VERSION {
        string4_step(b, p)
    } else {
        string8_step(b, p)
    }
}

/// Number of records under a stored count: none for a negative count.
pub open spec fn count_of(n: i32) -> int {
    if n < 0 {
        0
    } else {
        n as int
    }
}

/// `n` consecutive strings of the file body at `p`.
pub open spec fn strings_step(b: Seq<u8>, p: int, version: i32, n: int) -> Step<Seq<Seq<char>>>
    decreases n,
{
    if n <= 0 {
        Ok((seq![], p))
    } else {
        match strings_step(b, p, version, n - 1) {
            Ok((ss, q)) => match string_body_step(b, q, version) {
                Ok((s, e)) => Ok((ss.push(s), e)),
                Err(e) => Err(e),
            },
            Err(e) => Err(e),
        }
    }
}

/// A failure among the first `k` strings is the failure of all `n`.
pub proof fn lemma_strings_fail(b: Seq<u8>, p: int, version: i32, k: int, n: int)
    requires
        0 <= k <= n,
        strings_step(b, p, version, k) is Err,
    ensures
        strings_step(b, p, version, n) == strings_step(b, p, version, k),
    decreases n - k,
{
    if k < n {
        lemma_strings_fail(b, p, version, k, n - 1);
    }
}

/// `r`, with the reader left at `q`, is what the model step `s` gives.
pub open spec fn outcome<T>(r: Result<T, ParseTprError>, q: int, s: Step<T>) -> bool {
    match s {
        Ok((v, e)) => r == Ok::<T, ParseTprError>(v) && q == e,
        Err(e) => r == Err::<T, ParseTprError>(e),
    }
}

/// As `outcome`, for a string compared by its characters.
pub open spec fn text_outcome(r: Result<String, ParseTprError>, q: int, s: Step<Seq<char>>) -> bool {
    match s {
        Ok((v, e)) => (r matches Ok(x) && x@ == v) && q == e,
        Err(e) => r == Err::<String, ParseTprError>(e),
    }
}

pub proof fn lemma_nul_end_unique(s: Seq<u8>, e1: int, e2: int)
    requires
        nul_end(s, e1),
        nul_end(s, e2),
    ensures
        e1 == e2,
{
    if e1 < e2 {
        assert(s[e1] != 0);
    } else if e2 < e1 {
        assert(s[e2] != 0);
    }
}

/// Relies on std::str::from_utf8: it succeeds exactly on valid UTF-8, and
/// the string then holds the decoded characters.
#[verifier::external_body]
fn utf8_text(bytes: &[u8]) -> (r: Option<String>)
    ensures
        r.is_some() <==> valid_utf8(bytes@),
        r matches Some(s) ==> s@ == decode_utf8(bytes@),
{
    match std::str::from_utf8(bytes) {
        Ok(s) => Some(s.to_owned()),
        Err(_) => None,
    }
}

/// Convert NUL-terminated bytes to a string: the text before the first NUL
/// byte (all of it when there is none), which must be valid UTF-8.
pub fn bytes2string(bytes: &[u8]) -> (r: Result<String, ParseTprError>)
    ensures
        valid_utf8(text_bytes(bytes@)) ==> (r matches Ok(s) && s@ == decode_utf8(text_bytes(bytes@))),
        !valid_utf8(text_bytes(bytes@)) ==> r == Err::<String, ParseTprError>(
            ParseTprError::CouldNotRead(ReadError::InvalidText),
        ),
{
    let mut end: usize = 0;
    while end < bytes.len() && bytes[end] != 0
        invariant
            end <= bytes@.len(),
            forall|i: int| 0 <= i < end ==> bytes@[i] != 0,
        decreases bytes@.len() - end,
    {
        end = end + 1;
    }
    proof {
        assert(nul_end(bytes@, end as int));
        let c = choose|e: int| nul_end(bytes@, e);
        lemma_nul_end_unique(bytes@, c, end as int);
        assert(bytes@.subrange(0, end as int) == text_bytes(bytes@));
    }
    match utf8_text(&bytes[0..end]) {
        Some(s) => Ok(s),
        None => Err(ParseTprError::CouldNotRead(ReadError::InvalidText)),
    }
}

/// Reader over the bytes of a tpr file.
#[derive(Debug)]
pub struct XdrFile<'a> {
    data: &'a [u8],
    pos: usize,
}

impl<'a> XdrFile<'a> {
    /// The bytes being read.
    pub closed spec fn bytes(&self) -> Seq<u8> {
        self.data@
    }

    /// The cursor position.
    pub closed spec fn at(&self) -> int {
        self.pos as int
    }

    /// Create a reader positioned at the first byte.
    pub fn new(data: &'a [u8]) -> (r: Self)
        ensures
            r.bytes() == data@,
            r.at() == 0,
    {
        XdrFile { data, pos: 0 }
    }

    /// Are `n` more bytes available?
    fn available(&self, n: usize) -> (r: bool)
        ensures
            r == (self.at() + n <= self.bytes().len()),
            self.bytes().len() <= usize::MAX,
    {
        self.pos <= self.data.len() && n <= self.data.len() - self.pos
    }

    fn u32_at(&self, p: usize) -> (r: u32)
        requires
            self.bytes().len() <= usize::MAX,
            p + 4 <= self.bytes().len(),
        ensures
            r == be_u32(self.bytes(), p as int),
    {
        (self.data[p] as u32) * 0x100_0000 + (self.data[p + 1] as u32) * 0x1_0000 + (self.data[p
            + 2] as u32) * 0x100 + (self.data[p + 3] as u32)
    }

    fn u64_at(&self, p: usize) -> (r: u64)
        requires
            self.bytes().len() <= usize::MAX,
            p + 8 <= self.bytes().len(),
        ensures
            r == be_u64(self.bytes(), p as int),
    {
        let hi = self.u32_at(p);
        let lo = self.u32_at(p + 4);
        (hi as u64) * 0x1_0000_0000 + (lo as u64)
    }

    /// Move the cursor forward by `n` bytes.
    fn advance(&mut self, n: u128) -> (r: Result<(), ParseTprError>)
        ensures
            final(self).bytes() == old(self).bytes(),
            outcome(r, final(self).at(), read_step(old(self).bytes(), old(self).at(), n as int, ())),
    {
        if self.pos <= self.data.len() && n <= (self.data.len() - self.pos) as u128 {
            self.pos = self.pos + n as usize;
            Ok(())
        } else {
            Err(ParseTprError::CouldNotRead(ReadError::UnexpectedEnd))
        }
    }

    /// Jump forward by `n_bytes` bytes.
    pub fn jump(&mut self, n_bytes: i64) -> (r: Result<(), ParseTprError>)
        ensures
            final(self).bytes() == old(self).bytes(),
            outcome(r, final(self).at(), skip_step(old(self).bytes(), old(self).at(), n_bytes as int)),
    {
        if n_bytes < 0 {
            Err(ParseTprError::CouldNotRead(ReadError::NegativeSkip))
        } else {
            self.advance(n_bytes as u128)
        }
    }

    /// Read a `u8` value.
    pub fn read_u8(&mut self) -> (r: Result<u8, ParseTprError>)
        ensures
            final(self).bytes() == old(self).bytes(),
            outcome(r, final(self).at(), u8_step(old(self).bytes(), old(self).at())),
    {
        if self.available(1) {
            let v = self.data[self.pos];
            self.pos = self.pos + 1;
            Ok(v)
        } else {
            Err(ParseTprError::CouldNotRead(ReadError::UnexpectedEnd))
        }
    }

    /// Read a big-endian `u16` value.
    pub fn read_u16(&mut self) -> (r: Result<u16, ParseTprError>)
        ensures
            final(self).bytes() == old(self).bytes(),
            outcome(r, final(self).at(), u16_step(old(self).bytes(), old(self).at())),
    {
        if self.available(2) {
            let v = (self.data[self.pos] as u16) * 0x100 + (self.data[self.pos + 1] as u16);
            self.pos = self.pos + 2;
            Ok(v)
        } else {
            Err(ParseTprError::CouldNotRead(ReadError::UnexpectedEnd))
        }
    }

    /// Read a big-endian `u32` value.
    pub fn read_u32(&mut self) -> (r: Result<u32, ParseTprError>)
        ensures
            final(self).bytes() == old(self).bytes(),
            outcome(r, final(self).at(), u32_step(old(self).bytes(), old(self).at())),
    {
        if self.available(4) {
            let v = self.u32_at(self.pos);
            self.pos = self.pos + 4;
            Ok(v)
        } else {
            Err(ParseTprError::CouldNotRead(ReadError::UnexpectedEnd))
        }
    }

    /// Read a big-endian `i32` value.
    pub fn read_i32(&mut self) -> (r: Result<i32, ParseTprError>)
        ensures
            final(self).bytes() == old(self).bytes(),
            outcome(r, final(self).at(), i32_step(old(self).bytes(), old(self).at())),
    {
        if self.available(4) {
            let u = self.u32_at(self.pos);
            self.pos = self.pos + 4;
            if u < 0x8000_0000 {
                Ok(u as i32)
            } else {
                Ok((u as i64 - 0x1_0000_0000) as i32)
            }
        } else {
            Err(ParseTprError::CouldNotRead(ReadError::UnexpectedEnd))
        }
    }

    /// Read a big-endian `u64` value.
    pub fn read_u64(&mut self) -> (r: Result<u64, ParseTprError>)
        ensures
            final(self).bytes() == old(self).bytes(),
            outcome(r, final(self).at(), u64_step(old(self).bytes(), old(self).at())),
    {
        if self.available(8) {
            let v = self.u64_at(self.pos);
            self.pos = self.pos + 8;
            Ok(v)
        } else {
            Err(ParseTprError::CouldNotRead(ReadError::UnexpectedEnd))
        }
    }

    /// Read a big-endian `i64` value.
    pub fn read_i64(&mut self) -> (r: Result<i64, ParseTprError>)
        ensures
            final(self).bytes() == old(self).bytes(),
            outcome(r, final(self).at(), i64_step(old(self).bytes(), old(self).at())),
    {
        if self.available(8) {
            let u = self.u64_at(self.pos);
            self.pos = self.pos + 8;
            if u < 0x8000_0000_0000_0000 {
                Ok(u as i64)
            } else {
                Ok((u as i128 - 0x1_0000_0000_0000_0000) as i64)
            }
        } else {
            Err(ParseTprError::CouldNotRead(ReadError::UnexpectedEnd))
        }
    }

    /// Read a real number of the given precision.
    pub fn read_real(&mut self, precision: Precision) -> (r: Result<Real, ParseTprError>)
        ensures
            final(self).bytes() == old(self).bytes(),
            outcome(r, final(self).at(), real_step(old(self).bytes(), old(self).at(), precision)),
    {
        match precision {
            Precision::Single => match self.read_u32() {
                Ok(v) => Ok(Real::Single(v)),
                Err(e) => Err(e),
            },
            Precision::Double => match self.read_u64() {
                Ok(v) => Ok(Real::Double(v)),
                Err(e) => Err(e),
            },
        }
    }

    /// Read three consecutive real numbers of the given precision.
    pub fn read_vector3(&mut self, precision: Precision) -> (r: Result<[Real; 3], ParseTprError>)
        ensures
            final(self).bytes() == old(self).bytes(),
            outcome(
                r,
                final(self).at(),
                read_step(
                    old(self).bytes(),
                    old(self).at(),
                    3 * real_width(precision),
                    vector3_at(old(self).bytes(), old(self).at(), precision),
                ),
            ),
    {
        let x = match self.read_real(precision) {
            Ok(v) => v,
            Err(e) => return Err(e),
        };
        let y = match self.read_real(precision) {
            Ok(v) => v,
            Err(e) => return Err(e),
        };
        let z = match self.read_real(precision) {
            Ok(v) => v,
            Err(e) => return Err(e),
        };
        Ok([x, y, z])
    }

    /// Skip one real number of the given precision.
    pub fn skip_real(&mut self, precision: Precision) -> (r: Result<(), ParseTprError>)
        ensures
            final(self).bytes() == old(self).bytes(),
            outcome(r, final(self).at(), skip_step(old(self).bytes(), old(self).at(), real_width(precision))),
    {
        self.skip_multiple_reals(precision, 1)
    }

    /// Skip `n_reals` real numbers of the given precision.
    pub fn skip_multiple_reals(&mut self, precision: Precision, n_reals: i64) -> (r: Result<(), ParseTprError>)
        ensures
            final(self).bytes() == old(self).bytes(),
            outcome(
                r,
                final(self).at(),
                skip_step(old(self).bytes(), old(self).at(), n_reals * real_width(precision)),
            ),
    {
        if n_reals < 0 {
            return Err(ParseTprError::CouldNotRead(ReadError::NegativeSkip));
        }
        let width: u128 = match precision {
            Precision::Single => 4,
            Precision::Double => 8,
        };
        self.advance(n_reals as u128 * width)
    }

    /// Read a `bool` stored as a 4-byte word (used in the file header).
    pub fn read_bool_header(&mut self) -> (r: Result<bool, ParseTprError>)
        ensures
            final(self).bytes() == old(self).bytes(),
            outcome(
                r,
                final(self).at(),
                read_step(old(self).bytes(), old(self).at(), 4, be_u32(old(self).bytes(), old(self).at()) != 0),
            ),
    {
        match self.read_u32() {
            Ok(v) => Ok(v != 0),
            Err(e) => Err(e),
        }
    }

    /// Read the `len` bytes at the cursor as NUL-terminated UTF-8 text.
    fn read_text(&mut self, len: u64) -> (r: Result<String, ParseTprError>)
        ensures
            final(self).bytes() == old(self).bytes(),
            text_outcome(r, final(self).at(), text_step(old(self).bytes(), old(self).at(), len as int)),
    {
        if !self.available_u64(len) {
            return Err(ParseTprError::CouldNotRead(ReadError::UnexpectedEnd));
        }
        let start = self.pos;
        let end = self.pos + len as usize;
        let r = bytes2string(&self.data[start..end]);
        if r.is_ok() {
            self.pos = end;
        }
        r
    }

    /// Are `n` more bytes available?
    fn available_u64(&self, n: u64) -> (r: bool)
        ensures
            r == (self.at() + n <= self.bytes().len()),
            self.bytes().len() <= usize::MAX,
    {
        self.pos <= self.data.len() && (n as u128) <= (self.data.len() - self.pos) as u128
    }

    /// Read a string with one unused 4-byte header and a 4-byte length; the
    /// content is padded to a multiple of 4 bytes.  Used in the file header
    /// and in the body of files older than version 119.
    pub fn read_string_4byte(&mut self) -> (r: Result<String, ParseTprError>)
        ensures
            final(self).bytes() == old(self).bytes(),
            text_outcome(r, final(self).at(), string4_step(old(self).bytes(), old(self).at())),
    {
        if !self.available(8) {
            return Err(ParseTprError::CouldNotRead(ReadError::UnexpectedEnd));
        }
        let len = self.u32_at(self.pos + 4) as u64;
        let padded: u64 = if len % 4 != 0 {
            len + 4 - len % 4
        } else {
            len
        };
        self.pos = self.pos + 8;
        self.read_text(padded)
    }

    /// Read a string with an 8-byte length and unpadded content.  Used in the
    /// body of files of version 119 and later.
    pub fn read_string_8byte(&mut self) -> (r: Result<String, ParseTprError>)
        ensures
            final(self).bytes() == old(self).bytes(),
            text_outcome(r, final(self).at(), string8_step(old(self).bytes(), old(self).at())),
    {
        if !self.available(8) {
            return Err(ParseTprError::CouldNotRead(ReadError::UnexpectedEnd));
        }
        let len = self.u64_at(self.pos);
        self.pos = self.pos + 8;
        self.read_text(len)
    }

    /// Read a string from the body of the file, in the encoding of the version.
    pub fn read_string_body(&mut self, tpr_version: i32) -> (r: Result<String, ParseTprError>)
        ensures
            final(self).bytes() == old(self).bytes(),
            text_outcome(r, final(self).at(), string_body_step(old(self).bytes(), old(self).at(), tpr_version)),
    {
        if tpr_version < NARROW_VERSION {
            self.read_string_4byte()
        } else {
            self.read_string_8byte()
        }
    }

    /// Read a short unsigned integer from the body of the file
    /// (4 bytes before version 119, 2 bytes from then on).
    pub fn read_ushort_body(&mut self, tpr_version: i32) -> (r: Result<u32, ParseTprError>)
        ensures
            final(self).bytes() == old(self).bytes(),
            outcome(r, final(self).at(), ushort_step(old(self).bytes(), old(self).at(), tpr_version)),
    {
        if tpr_version < NARROW_VERSION {
            self.read_u32()
        } else {
            match self.read_u16() {
                Ok(v) => Ok(v as u32),
                Err(e) => Err(e),
            }
        }
    }

    /// Read an unsigned char from the body of the file
    /// (4 bytes before version 119, 1 byte from then on).
    pub fn read_uchar_body(&mut self, tpr_version: i32) -> (r: Result<u32, ParseTprError>)
        ensures
            final(self).bytes() == old(self).bytes(),
            outcome(r, final(self).at(), uchar_step(old(self).bytes(), old(self).at(), tpr_version)),
    {
        if tpr_version < NARROW_VERSION {
            self.read_u32()
        } else {
            match self.read_u8() {
                Ok(v) => Ok(v as u32),
                Err(e) => Err(e),
            }
        }
    }

    /// Read a boolean from the body of the file.
    pub fn read_bool_body(&mut self, tpr_version: i32) -> (r: Result<bool, ParseTprError>)
        ensures
            final(self).bytes() == old(self).bytes(),
            match uchar_step(old(self).bytes(), old(self).at(), tpr_version) {
                Ok((v, e)) => r == Ok::<bool, ParseTprError>(v != 0) && final(self).at() == e,
                Err(e) => r == Err::<bool, ParseTprError>(e),
            },
    {
        match self.read_uchar_body(tpr_version) {
            Ok(v) => Ok(v != 0),
            Err(e) => Err(e),
        }
    }

    /// Skip `n_uchars` unsigned chars (or booleans) of the file body.
    pub fn skip_multiple_uchars_body(&mut self, tpr_version: i32, n_uchars: i64) -> (r: Result<(), ParseTprError>)
        ensures
            final(self).bytes() == old(self).bytes(),
            outcome(
                r,
                final(self).at(),
                skip_step(old(self).bytes(), old(self).at(), n_uchars * uchar_width(tpr_version)),
            ),
    {
        if n_uchars < 0 {
            return Err(ParseTprError::CouldNotRead(ReadError::NegativeSkip));
        }
        if tpr_version < NARROW_VERSION {
            self.advance(n_uchars as u128 * 4)
        } else {
            self.advance(n_uchars as u128)
        }
    }
}

} // verus!
