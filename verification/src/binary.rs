//! Bounds-checked reading and writing of big-endian binary data.
//!
//! All multi-byte scalars of a font file are stored big-endian. The spec
//! functions at the top of this module say what number a run of bytes holds
//! and which bytes a number is written as; the readers and writers below are
//! specified in terms of them.

use core::marker::PhantomData;
use vstd::prelude::*;
use vstd::slice::slice_subrange;

use crate::error::ParseError;

verus! {

/// The two's complement reading of the unsigned number `v` of width `2 * half`.
pub open spec fn as_signed(v: int, half: int) -> int {
    if v >= half {
        v - 2 * half
    } else {
        v
    }
}

/// The unsigned number that the signed number `v` of width `2 * half` is stored as.
pub open spec fn as_unsigned(v: int, half: int) -> int {
    if v < 0 {
        v + 2 * half
    } else {
        v
    }
}

/// The unsigned 8-bit integer held by `s` at `at`.
pub open spec fn u8_at(s: Seq<u8>, at: int) -> int {
    s[at] as int
}

/// The signed 8-bit integer held by `s` at `at`.
pub open spec fn i8_at(s: Seq<u8>, at: int) -> int {
    as_signed(s[at] as int, 0x80)
}

/// The unsigned 16-bit big-endian integer held by `s` at `at`.
pub open spec fn u16_be(s: Seq<u8>, at: int) -> int {
    s[at] as int * 0x100 + s[at + 1] as int
}

/// The signed 16-bit big-endian integer held by `s` at `at`.
pub open spec fn i16_be(s: Seq<u8>, at: int) -> int {
    as_signed(u16_be(s, at), 0x8000)
}

/// The unsigned 32-bit big-endian integer held by `s` at `at`.
pub open spec fn u32_be(s: Seq<u8>, at: int) -> int {
    s[at] as int * 0x100_0000 + s[at + 1] as int * 0x1_0000 + s[at + 2] as int * 0x100 + s[at
        + 3] as int
}

/// The signed 32-bit big-endian integer held by `s` at `at`.
pub open spec fn i32_be(s: Seq<u8>, at: int) -> int {
    as_signed(u32_be(s, at), 0x8000_0000)
}

/// The bytes that the unsigned 16-bit integer `v` is written as.
pub open spec fn u16_be_bytes(v: int) -> Seq<u8> {
    seq![(v / 0x100) as u8, (v % 0x100) as u8]
}

/// The bytes that the signed 16-bit integer `v` is written as.
pub open spec fn i16_be_bytes(v: int) -> Seq<u8> {
    u16_be_bytes(as_unsigned(v, 0x8000))
}

/// The bytes that the unsigned 32-bit integer `v` is written as.
pub open spec fn u32_be_bytes(v: int) -> Seq<u8> {
    seq![
        (v / 0x100_0000) as u8,
        (v / 0x1_0000 % 0x100) as u8,
        (v / 0x100 % 0x100) as u8,
        (v % 0x100) as u8,
    ]
}

/// The bytes that the signed 32-bit integer `v` is written as.
pub open spec fn i32_be_bytes(v: int) -> Seq<u8> {
    u32_be_bytes(as_unsigned(v, 0x8000_0000))
}

/// Appending is associative.
pub proof fn lemma_append_assoc<T>(a: Seq<T>, b: Seq<T>, c: Seq<T>)
    ensures
        (a + b) + c == a + (b + c),
{
    assert((a + b) + c =~= a + (b + c));
}

/// Two neighbouring parts of a sequence make up the part that spans both.
///
/// A part of no elements is taken to be empty wherever it stands.
pub proof fn lemma_subrange_join<T>(s: Seq<T>, i: int, j: int, k: int)
    requires
        0 <= i <= j <= k <= s.len(),
    ensures
        s.subrange(i, j) + s.subrange(j, k) == s.subrange(i, k),
        s.subrange(i, j) + Seq::<T>::empty() == s.subrange(i, j),
{
    assert(s.subrange(i, j) + s.subrange(j, k) =~= s.subrange(i, k));
    assert(s.subrange(i, j) + Seq::<T>::empty() =~= s.subrange(i, j));
}

/// Writing the unsigned 16-bit integer that `b` holds at `at` gives its bytes.
pub proof fn lemma_u16_round_trip(b: Seq<u8>, at: int)
    requires
        0 <= at,
        at + 2 <= b.len(),
    ensures
        u16_be_bytes(u16_be(b, at) as u16 as int) == b.subrange(at, at + 2),
{
    let v = u16_be(b, at);
    vstd::arithmetic::div_mod::lemma_fundamental_div_mod_converse(
        v,
        0x100,
        b[at] as int,
        b[at + 1] as int,
    );
    assert(u16_be_bytes(v) =~= b.subrange(at, at + 2));
}

/// Writing the signed 16-bit integer that `b` holds at `at` gives its bytes.
pub proof fn lemma_i16_round_trip(b: Seq<u8>, at: int)
    requires
        0 <= at,
        at + 2 <= b.len(),
    ensures
        i16_be_bytes(i16_be(b, at) as i16 as int) == b.subrange(at, at + 2),
{
    let v = u16_be(b, at);
    assert(as_unsigned(as_signed(v, 0x8000), 0x8000) == v);
    lemma_u16_round_trip(b, at);
}

/// Writing the unsigned 32-bit integer that `b` holds at `at` gives its bytes.
pub proof fn lemma_u32_round_trip(b: Seq<u8>, at: int)
    requires
        0 <= at,
        at + 4 <= b.len(),
    ensures
        u32_be_bytes(u32_be(b, at) as u32 as int) == b.subrange(at, at + 4),
{
    let v = u32_be(b, at);
    let (b0, b1, b2, b3) = (b[at] as int, b[at + 1] as int, b[at + 2] as int, b[at + 3] as int);
    vstd::arithmetic::div_mod::lemma_fundamental_div_mod_converse(
        v,
        0x100_0000,
        b0,
        b1 * 0x1_0000 + b2 * 0x100 + b3,
    );
    vstd::arithmetic::div_mod::lemma_fundamental_div_mod_converse(
        v,
        0x1_0000,
        b0 * 0x100 + b1,
        b2 * 0x100 + b3,
    );
    vstd::arithmetic::div_mod::lemma_fundamental_div_mod_converse(b0 * 0x100 + b1, 0x100, b0, b1);
    vstd::arithmetic::div_mod::lemma_fundamental_div_mod_converse(
        v,
        0x100,
        b0 * 0x1_0000 + b1 * 0x100 + b2,
        b3,
    );
    vstd::arithmetic::div_mod::lemma_fundamental_div_mod_converse(
        b0 * 0x1_0000 + b1 * 0x100 + b2,
        0x100,
        b0 * 0x100 + b1,
        b2,
    );
    assert(u32_be_bytes(v) =~= b.subrange(at, at + 4));
}

/// Reads the unsigned byte of `data` at `at`.
pub fn get_u8(data: &[u8], at: usize) -> (v: u8)
    requires
        at < data@.len(),
    ensures
        v == u8_at(data@, at as int),
{
    data[at]
}

/// Reads the signed byte of `data` at `at`.
pub fn get_i8(data: &[u8], at: usize) -> (v: i8)
    requires
        at < data@.len(),
    ensures
        v == i8_at(data@, at as int),
{
    let b = data[at];
    if b >= 0x80 {
        (b as i16 - 0x100) as i8
    } else {
        b as i8
    }
}

/// Reads the unsigned big-endian 16-bit integer of `data` at `at`.
pub fn get_u16_be(data: &[u8], at: usize) -> (v: u16)
    requires
        at + 2 <= data@.len(),
    ensures
        v == u16_be(data@, at as int),
{
    data[at] as u16 * 0x100 + data[at + 1] as u16
}

/// Reads the signed big-endian 16-bit integer of `data` at `at`.
pub fn get_i16_be(data: &[u8], at: usize) -> (v: i16)
    requires
        at + 2 <= data@.len(),
    ensures
        v == i16_be(data@, at as int),
{
    let u = get_u16_be(data, at);
    if u >= 0x8000 {
        (u as i32 - 0x1_0000) as i16
    } else {
        u as i16
    }
}

/// Reads the unsigned big-endian 32-bit integer of `data` at `at`.
pub fn get_u32_be(data: &[u8], at: usize) -> (v: u32)
    requires
        at + 4 <= data@.len(),
    ensures
        v == u32_be(data@, at as int),
{
    data[at] as u32 * 0x100_0000 + data[at + 1] as u32 * 0x1_0000 + data[at + 2] as u32 * 0x100
        + data[at + 3] as u32
}

/// Reads the signed big-endian 32-bit integer of `data` at `at`.
pub fn get_i32_be(data: &[u8], at: usize) -> (v: i32)
    requires
        at + 4 <= data@.len(),
    ensures
        v == i32_be(data@, at as int),
{
    let u = get_u32_be(data, at);
    if u >= 0x8000_0000 {
        (u as i64 - 0x1_0000_0000) as i32
    } else {
        u as i32
    }
}

/// A 16.16 signed fixed-point number, held as its raw 32-bit value.
#[derive(Clone, Copy, Debug, PartialEq, Eq, Structural)]
pub struct Fixed(pub i32);

/// A 2.14 signed fixed-point number, held as its raw 16-bit value.
///
/// The raw value is the number multiplied by 16384.
#[derive(Clone, Copy, Debug, PartialEq, Eq, Structural)]
pub struct F2Dot14(pub i16);

impl Fixed {
    /// Makes a fixed-point number from its raw value.
    pub fn from_raw(value: i32) -> (r: Self)
        ensures
            r.0 == value,
    {
        Fixed(value)
    }

    /// The raw value.
    pub fn raw_value(&self) -> (r: i32)
        ensures
            r == self.0,
    {
        self.0
    }
}

impl F2Dot14 {
    /// Makes a fixed-point number from its raw value.
    pub fn from_raw(value: i16) -> (r: Self)
        ensures
            r.0 == value,
    {
        F2Dot14(value)
    }

    /// The raw value.
    pub fn raw_value(&self) -> (r: i16)
        ensures
            r == self.0,
    {
        self.0
    }
}

/// A value of fixed size that can be decoded from bytes without failing.
pub trait ReadFrom: Sized {
    /// The number of bytes that one value occupies.
    spec fn size() -> nat;

    /// The value that `s` holds at `at`.
    spec fn decode(s: Seq<u8>, at: int) -> Self;

    /// The number of bytes that one value occupies.
    fn byte_size() -> (n: usize)
        ensures
            n == Self::size(),
            n > 0,
    ;

    /// Decodes the value that `data` holds at `at`.
    fn read_at(data: &[u8], at: usize) -> (v: Self)
        requires
            at + Self::size() <= data@.len(),
        ensures
            v == Self::decode(data@, at as int),
    ;
}

impl ReadFrom for u8 {
    open spec fn size() -> nat {
        1
    }

    open spec fn decode(s: Seq<u8>, at: int) -> Self {
        u8_at(s, at) as u8
    }

    fn byte_size() -> (n: usize) {
        1
    }

    fn read_at(data: &[u8], at: usize) -> (v: Self) {
        get_u8(data, at)
    }
}

impl ReadFrom for i8 {
    open spec fn size() -> nat {
        1
    }

    open spec fn decode(s: Seq<u8>, at: int) -> Self {
        i8_at(s, at) as i8
    }

    fn byte_size() -> (n: usize) {
        1
    }

    fn read_at(data: &[u8], at: usize) -> (v: Self) {
        get_i8(data, at)
    }
}

impl ReadFrom for u16 {
    open spec fn size() -> nat {
        2
    }

    open spec fn decode(s: Seq<u8>, at: int) -> Self {
        u16_be(s, at) as u16
    }

    fn byte_size() -> (n: usize) {
        2
    }

    fn read_at(data: &[u8], at: usize) -> (v: Self) {
        get_u16_be(data, at)
    }
}

impl ReadFrom for i16 {
    open spec fn size() -> nat {
        2
    }

    open spec fn decode(s: Seq<u8>, at: int) -> Self {
        i16_be(s, at) as i16
    }

    fn byte_size() -> (n: usize) {
        2
    }

    fn read_at(data: &[u8], at: usize) -> (v: Self) {
        get_i16_be(data, at)
    }
}

impl ReadFrom for u32 {
    open spec fn size() -> nat {
        4
    }

    open spec fn decode(s: Seq<u8>, at: int) -> Self {
        u32_be(s, at) as u32
    }

    fn byte_size() -> (n: usize) {
        4
    }

    fn read_at(data: &[u8], at: usize) -> (v: Self) {
        get_u32_be(data, at)
    }
}

impl ReadFrom for i32 {
    open spec fn size() -> nat {
        4
    }

    open spec fn decode(s: Seq<u8>, at: int) -> Self {
        i32_be(s, at) as i32
    }

    fn byte_size() -> (n: usize) {
        4
    }

    fn read_at(data: &[u8], at: usize) -> (v: Self) {
        get_i32_be(data, at)
    }
}

impl ReadFrom for F2Dot14 {
    open spec fn size() -> nat {
        2
    }

    open spec fn decode(s: Seq<u8>, at: int) -> Self {
        F2Dot14(i16_be(s, at) as i16)
    }

    fn byte_size() -> (n: usize) {
        2
    }

    fn read_at(data: &[u8], at: usize) -> (v: Self) {
        F2Dot14(get_i16_be(data, at))
    }
}

impl ReadFrom for Fixed {
    open spec fn size() -> nat {
        4
    }

    open spec fn decode(s: Seq<u8>, at: int) -> Self {
        Fixed(i32_be(s, at) as i32)
    }

    fn byte_size() -> (n: usize) {
        4
    }

    fn read_at(data: &[u8], at: usize) -> (v: Self) {
        Fixed(get_i32_be(data, at))
    }
}

/// A region of bytes from which cursors and sub-regions are made.
#[derive(Clone, Copy, Debug)]
pub struct ReadScope<'a> {
    data: &'a [u8],
}

impl<'a> View for ReadScope<'a> {
    type V = Seq<u8>;

    closed spec fn view(&self) -> Seq<u8> {
        self.data@
    }
}

impl<'a> ReadScope<'a> {
    /// A scope over all of `data`.
    pub fn new(data: &'a [u8]) -> (s: Self)
        ensures
            s@ == data@,
    {
        ReadScope { data }
    }

    /// The bytes of the scope.
    pub fn data(&self) -> (d: &'a [u8])
        ensures
            d@ == self@,
    {
        self.data
    }

    /// The sub-scope that starts at `offset`; it is empty when `offset` lies
    /// beyond the end of this scope.
    pub fn offset(&self, offset: usize) -> (s: ReadScope<'a>)
        ensures
            s@ == if offset <= self@.len() {
                self@.subrange(offset as int, self@.len() as int)
            } else {
                Seq::<u8>::empty()
            },
    {
        if offset <= self.data.len() {
            ReadScope { data: slice_subrange(self.data, offset, self.data.len()) }
        } else {
            ReadScope { data: slice_subrange(self.data, 0, 0) }
        }
    }

    /// The sub-scope of `length` bytes that starts at `offset`.
    ///
    /// Fails with `BadEof` when the scope does not hold these bytes.
    pub fn offset_length(&self, offset: usize, length: usize) -> (r: Result<
        ReadScope<'a>,
        ParseError,
    >)
        ensures
            match r {
                Ok(s) => offset + length <= self@.len() && s@ == self@.subrange(
                    offset as int,
                    offset + length,
                ),
                Err(e) => e == ParseError::BadEof && offset + length > self@.len(),
            },
    {
        if offset <= self.data.len() && length <= self.data.len() - offset {
            Ok(ReadScope { data: slice_subrange(self.data, offset, offset + length) })
        } else {
            Err(ParseError::BadEof)
        }
    }

    /// A cursor at the start of the scope.
    pub fn ctxt(&self) -> (c: ReadCtxt<'a>)
        ensures
            c.bytes() == self@,
            c.pos() == 0,
    {
        ReadCtxt { data: self.data, offset: 0 }
    }
}

/// A cursor over an immutable byte slice.
///
/// Every read either succeeds and moves the cursor past what was read, or
/// fails and leaves the cursor where it was.
pub struct ReadCtxt<'a> {
    data: &'a [u8],
    offset: usize,
}

impl<'a> ReadCtxt<'a> {
    #[verifier::type_invariant]
    spec fn inv(&self) -> bool {
        self.offset <= self.data@.len()
    }

    /// The bytes that the cursor runs over.
    pub closed spec fn bytes(&self) -> Seq<u8> {
        self.data@
    }

    /// The position of the cursor.
    pub closed spec fn pos(&self) -> int {
        self.offset as int
    }

    /// The cursor has moved `n` bytes ahead of `before`, over the same bytes.
    pub open spec fn advanced(&self, before: &Self, n: int) -> bool {
        &&& self.bytes() == before.bytes()
        &&& self.pos() == before.pos() + n
        &&& 0 <= before.pos()
        &&& self.pos() <= self.bytes().len()
    }

    /// The cursor stands where `before` stood, over the same bytes.
    pub open spec fn unmoved(&self, before: &Self) -> bool {
        &&& self.bytes() == before.bytes()
        &&& self.pos() == before.pos()
        &&& 0 <= self.pos() <= self.bytes().len()
    }

    /// `n` more bytes can be read.
    pub open spec fn has(&self, n: int) -> bool {
        self.pos() + n <= self.bytes().len()
    }

    /// The outcome `r` of reading a value of `n` bytes that decodes to `value`.
    pub open spec fn read_outcome<T>(
        &self,
        before: &Self,
        r: Result<T, ParseError>,
        n: int,
        value: T,
    ) -> bool {
        match r {
            Ok(v) => before.has(n) && v == value && self.advanced(before, n),
            Err(e) => e == ParseError::BadEof && !before.has(n) && self.unmoved(before),
        }
    }

    /// The current position.
    pub fn offset(&self) -> (n: usize)
        ensures
            n == self.pos(),
            n <= self.bytes().len(),
    {
        proof {
            use_type_invariant(self);
        }
        self.offset
    }

    /// The number of bytes that are left.
    pub fn remaining(&self) -> (n: usize)
        ensures
            n == self.bytes().len() - self.pos(),
    {
        proof {
            use_type_invariant(self);
        }
        self.data.len() - self.offset
    }

    /// Whether any byte is left.
    pub fn bytes_available(&self) -> (b: bool)
        ensures
            b == (self.pos() < self.bytes().len()),
    {
        self.offset < self.data.len()
    }

    /// The scope of the bytes from the cursor on.
    pub fn scope(&self) -> (s: ReadScope<'a>)
        ensures
            0 <= self.pos() <= self.bytes().len(),
            s@ == self.bytes().subrange(self.pos(), self.bytes().len() as int),
    {
        proof {
            use_type_invariant(self);
        }
        ReadScope { data: slice_subrange(self.data, self.offset, self.data.len()) }
    }

    /// Fails with `BadValue` unless `cond` holds.
    pub fn check(&self, cond: bool) -> (r: Result<(), ParseError>)
        ensures
            r == if cond {
                Ok::<(), ParseError>(())
            } else {
                Err::<(), ParseError>(ParseError::BadValue)
            },
    {
        if cond {
            Ok(())
        } else {
            Err(ParseError::BadValue)
        }
    }

    /// Fails with `BadVersion` unless `cond` holds.
    pub fn check_version(&self, cond: bool) -> (r: Result<(), ParseError>)
        ensures
            r == if cond {
                Ok::<(), ParseError>(())
            } else {
                Err::<(), ParseError>(ParseError::BadVersion)
            },
    {
        if cond {
            Ok(())
        } else {
            Err(ParseError::BadVersion)
        }
    }

    /// Moves the cursor `n` bytes ahead.
    pub fn skip(&mut self, n: usize) -> (r: Result<(), ParseError>)
        ensures
            final(self).read_outcome(old(self), r, n as int, ()),
    {
        proof {
            use_type_invariant(&*self);
        }
        if self.data.len() - self.offset < n {
            return Err(ParseError::BadEof);
        }
        self.offset = self.offset + n;
        Ok(())
    }

    /// Reads an unsigned byte.
    pub fn read_u8(&mut self) -> (r: Result<u8, ParseError>)
        ensures
            final(self).read_outcome(
                old(self),
                r,
                1,
                u8_at(old(self).bytes(), old(self).pos()) as u8,
            ),
    {
        proof {
            use_type_invariant(&*self);
        }
        if self.data.len() - self.offset < 1 {
            return Err(ParseError::BadEof);
        }
        let v = get_u8(self.data, self.offset);
        self.offset = self.offset + 1;
        Ok(v)
    }

    /// Reads a signed byte.
    pub fn read_i8(&mut self) -> (r: Result<i8, ParseError>)
        ensures
            final(self).read_outcome(
                old(self),
                r,
                1,
                i8_at(old(self).bytes(), old(self).pos()) as i8,
            ),
    {
        proof {
            use_type_invariant(&*self);
        }
        if self.data.len() - self.offset < 1 {
            return Err(ParseError::BadEof);
        }
        let v = get_i8(self.data, self.offset);
        self.offset = self.offset + 1;
        Ok(v)
    }

    /// Reads an unsigned big-endian 16-bit integer.
    pub fn read_u16be(&mut self) -> (r: Result<u16, ParseError>)
        ensures
            final(self).read_outcome(
                old(self),
                r,
                2,
                u16_be(old(self).bytes(), old(self).pos()) as u16,
            ),
    {
        proof {
            use_type_invariant(&*self);
        }
        if self.data.len() - self.offset < 2 {
            return Err(ParseError::BadEof);
        }
        let v = get_u16_be(self.data, self.offset);
        self.offset = self.offset + 2;
        Ok(v)
    }

    /// Reads a signed big-endian 16-bit integer.
    pub fn read_i16be(&mut self) -> (r: Result<i16, ParseError>)
        ensures
            final(self).read_outcome(
                old(self),
                r,
                2,
                i16_be(old(self).bytes(), old(self).pos()) as i16,
            ),
    {
        proof {
            use_type_invariant(&*self);
        }
        if self.data.len() - self.offset < 2 {
            return Err(ParseError::BadEof);
        }
        let v = get_i16_be(self.data, self.offset);
        self.offset = self.offset + 2;
        Ok(v)
    }

    /// Reads an unsigned big-endian 32-bit integer.
    pub fn read_u32be(&mut self) -> (r: Result<u32, ParseError>)
        ensures
            final(self).read_outcome(
                old(self),
                r,
                4,
                u32_be(old(self).bytes(), old(self).pos()) as u32,
            ),
    {
        proof {
            use_type_invariant(&*self);
        }
        if self.data.len() - self.offset < 4 {
            return Err(ParseError::BadEof);
        }
        let v = get_u32_be(self.data, self.offset);
        self.offset = self.offset + 4;
        Ok(v)
    }

    /// Reads a signed big-endian 32-bit integer.
    pub fn read_i32be(&mut self) -> (r: Result<i32, ParseError>)
        ensures
            final(self).read_outcome(
                old(self),
                r,
                4,
                i32_be(old(self).bytes(), old(self).pos()) as i32,
            ),
    {
        proof {
            use_type_invariant(&*self);
        }
        if self.data.len() - self.offset < 4 {
            return Err(ParseError::BadEof);
        }
        let v = get_i32_be(self.data, self.offset);
        self.offset = self.offset + 4;
        Ok(v)
    }

    /// Reads a value of any fixed-size type.
    pub fn read<T: ReadFrom>(&mut self) -> (r: Result<T, ParseError>)
        ensures
            final(self).read_outcome(
                old(self),
                r,
                T::size() as int,
                T::decode(old(self).bytes(), old(self).pos()),
            ),
    {
        proof {
            use_type_invariant(&*self);
        }
        let n = T::byte_size();
        if self.data.len() - self.offset < n {
            return Err(ParseError::BadEof);
        }
        let v = T::read_at(self.data, self.offset);
        self.offset = self.offset + n;
        Ok(v)
    }

    /// Reads the next `length` bytes.
    pub fn read_slice(&mut self, length: usize) -> (r: Result<&'a [u8], ParseError>)
        ensures
            match r {
                Ok(s) => old(self).has(length as int) && s@ == old(self).bytes().subrange(
                    old(self).pos(),
                    old(self).pos() + length,
                ) && final(self).advanced(old(self), length as int),
                Err(e) => e == ParseError::BadEof && !old(self).has(length as int)
                    && final(self).unmoved(old(self)),
            },
    {
        proof {
            use_type_invariant(&*self);
        }
        if self.data.len() - self.offset < length {
            return Err(ParseError::BadEof);
        }
        let s = slice_subrange(self.data, self.offset, self.offset + length);
        self.offset = self.offset + length;
        Ok(s)
    }

    /// Reads an array of `length` values of a fixed-size type.
    ///
    /// Only the total size is checked; the elements are decoded on access.
    pub fn read_array<T: ReadFrom>(&mut self, length: usize) -> (r: Result<
        ReadArray<'a, T>,
        ParseError,
    >)
        ensures
            match r {
                Ok(a) => old(self).has(length * T::size()) && a.bytes()
                    == old(self).bytes().subrange(
                    old(self).pos(),
                    old(self).pos() + length * T::size(),
                ) && a.spec_len() == length && final(self).advanced(
                    old(self),
                    (length * T::size()) as int,
                ),
                Err(e) => e == ParseError::BadEof && !old(self).has(length * T::size())
                    && final(self).unmoved(old(self)),
            },
    {
        proof {
            use_type_invariant(&*self);
        }
        let size = T::byte_size();
        let available = self.data.len() - self.offset;
        assert(length * size == length * T::size());
        let total = match length.checked_mul(size) {
            Some(total) => total,
            None => {
                return Err(ParseError::BadEof);
            },
        };
        if available < total {
            return Err(ParseError::BadEof);
        }
        let s = slice_subrange(self.data, self.offset, self.offset + total);
        self.offset = self.offset + total;
        Ok(ReadArray { data: s, length, marker: PhantomData })
    }
}

/// An array of fixed-size values that are decoded from its bytes on access.
#[derive(Debug)]
pub struct ReadArray<'a, T: ReadFrom> {
    data: &'a [u8],
    length: usize,
    marker: PhantomData<T>,
}

impl<'a, T: ReadFrom> Clone for ReadArray<'a, T> {
    fn clone(&self) -> (r: Self)
        ensures
            r == *self,
    {
        proof {
            use_type_invariant(self);
        }
        ReadArray { data: self.data, length: self.length, marker: PhantomData }
    }
}

impl<'a, T: ReadFrom> Copy for ReadArray<'a, T> {

}

impl<'a, T: ReadFrom> View for ReadArray<'a, T> {
    type V = Seq<T>;

    /// The elements, in order.
    open spec fn view(&self) -> Seq<T> {
        Seq::new(self.spec_len(), |i: int| self.spec_index(i))
    }
}

impl<'a, T: ReadFrom> ReadArray<'a, T> {
    #[verifier::type_invariant]
    spec fn inv(&self) -> bool {
        self.data@.len() == self.length * T::size()
    }

    /// The bytes that back the array.
    pub closed spec fn bytes(&self) -> Seq<u8> {
        self.data@
    }

    /// The number of elements.
    pub closed spec fn spec_len(&self) -> nat {
        self.length as nat
    }

    /// The element at `index`.
    pub open spec fn spec_index(&self, index: int) -> T {
        T::decode(self.bytes(), index * T::size())
    }

    /// An array of no elements.
    pub fn empty() -> (a: Self)
        ensures
            a.spec_len() == 0,
            a.bytes() == Seq::<u8>::empty(),
    {
        let data: &'static [u8] = &[];
        assert(0 * T::size() == 0) by (nonlinear_arith);
        ReadArray { data, length: 0, marker: PhantomData }
    }

    /// An array over all of `data`, which must hold a whole number of elements.
    pub fn new(data: &'a [u8]) -> (r: Result<Self, ParseError>)
        ensures
            match r {
                Ok(a) => a.bytes() == data@ && data@.len() == a.spec_len() * T::size(),
                Err(e) => e == ParseError::BadValue && data@.len() % T::size() != 0,
            },
    {
        let size = T::byte_size();
        if data.len() % size != 0 {
            return Err(ParseError::BadValue);
        }
        let length = data.len() / size;
        proof {
            vstd::arithmetic::div_mod::lemma_fundamental_div_mod(data.len() as int, size as int);
            vstd::arithmetic::mul::lemma_mul_is_commutative(length as int, size as int);
        }
        Ok(ReadArray { data, length, marker: PhantomData })
    }

    /// The number of elements.
    pub fn len(&self) -> (n: usize)
        ensures
            n == self.spec_len(),
            self.bytes().len() == n * T::size(),
    {
        proof {
            use_type_invariant(self);
        }
        self.length
    }

    /// Whether the array holds no element.
    pub fn is_empty(&self) -> (b: bool)
        ensures
            b == (self.spec_len() == 0),
    {
        self.length == 0
    }

    /// The element at `index`, which must be in range.
    pub fn get_item(&self, index: usize) -> (v: T)
        requires
            index < self.spec_len(),
        ensures
            v == self.spec_index(index as int),
    {
        let size = T::byte_size();
        let total = self.data.len();
        proof {
            use_type_invariant(self);
            let (i, n, s) = (index as int, self.length as int, size as int);
            assert(0 <= i * s && i * s + s <= n * s) by (nonlinear_arith)
                requires
                    0 <= i < n,
                    0 < s,
            ;
        }
        T::read_at(self.data, index * size)
    }

    /// The element at `index`, or `BadIndex` when `index` is out of range.
    pub fn read_item(&self, index: usize) -> (r: Result<T, ParseError>)
        ensures
            r == if index < self.spec_len() {
                Ok::<T, ParseError>(self.spec_index(index as int))
            } else {
                Err::<T, ParseError>(ParseError::BadIndex)
            },
    {
        if index < self.length {
            Ok(self.get_item(index))
        } else {
            Err(ParseError::BadIndex)
        }
    }

    /// All elements, in order.
    pub fn to_vec(&self) -> (v: Vec<T>)
        ensures
            v@ == self@,
    {
        let mut v: Vec<T> = Vec::new();
        let mut i: usize = 0;
        while i < self.length
            invariant
                i <= self.length,
                self.length == self.spec_len(),
                v@.len() == i,
                forall|k: int| 0 <= k < i ==> v@[k] == #[trigger] self.spec_index(k),
            decreases self.length - i,
        {
            let item = self.get_item(i);
            v.push(item);
            i = i + 1;
        }
        assert(v@ =~= self@);
        v
    }
}

/// A growable buffer that big-endian values are appended to.
pub struct WriteBuffer {
    data: Vec<u8>,
}

impl View for WriteBuffer {
    type V = Seq<u8>;

    closed spec fn view(&self) -> Seq<u8> {
        self.data@
    }
}

impl WriteBuffer {
    /// An empty buffer.
    pub fn new() -> (b: Self)
        ensures
            b@ == Seq::<u8>::empty(),
    {
        WriteBuffer { data: Vec::new() }
    }

    /// The number of bytes written so far.
    pub fn bytes_written(&self) -> (n: usize)
        ensures
            n == self@.len(),
    {
        self.data.len()
    }

    /// The bytes written so far.
    pub fn bytes(&self) -> (s: &[u8])
        ensures
            s@ == self@,
    {
        self.data.as_slice()
    }

    /// Hands out the bytes written.
    pub fn into_inner(self) -> (v: Vec<u8>)
        ensures
            v@ == self@,
    {
        self.data
    }

    /// Appends one unsigned byte.
    pub fn write_u8(&mut self, v: u8)
        ensures
            final(self)@ == old(self)@.push(v),
    {
        self.data.push(v);
    }

    /// Appends an unsigned 16-bit integer.
    pub fn write_u16be(&mut self, v: u16)
        ensures
            final(self)@ == old(self)@ + u16_be_bytes(v as int),
    {
        self.data.push((v / 0x100) as u8);
        self.data.push((v % 0x100) as u8);
    }

    /// Appends a signed 16-bit integer.
    pub fn write_i16be(&mut self, v: i16)
        ensures
            final(self)@ == old(self)@ + i16_be_bytes(v as int),
    {
        let u: u16 = if v < 0 {
            (v as i32 + 0x1_0000) as u16
        } else {
            v as u16
        };
        self.write_u16be(u);
    }

    /// Appends an unsigned 32-bit integer.
    pub fn write_u32be(&mut self, v: u32)
        ensures
            final(self)@ == old(self)@ + u32_be_bytes(v as int),
    {
        self.data.push((v / 0x100_0000) as u8);
        self.data.push((v / 0x1_0000 % 0x100) as u8);
        self.data.push((v / 0x100 % 0x100) as u8);
        self.data.push((v % 0x100) as u8);
    }

    /// Appends a signed 32-bit integer.
    pub fn write_i32be(&mut self, v: i32)
        ensures
            final(self)@ == old(self)@ + i32_be_bytes(v as int),
    {
        let u: u32 = if v < 0 {
            (v as i64 + 0x1_0000_0000) as u32
        } else {
            v as u32
        };
        self.write_u32be(u);
    }

    /// Appends all of `bytes`.
    pub fn write_bytes(&mut self, bytes: &[u8])
        ensures
            final(self)@ == old(self)@ + bytes@,
    {
        let mut i: usize = 0;
        while i < bytes.len()
            invariant
                i <= bytes@.len(),
                self@ == old(self)@ + bytes@.subrange(0, i as int),
            decreases bytes@.len() - i,
        {
            self.data.push(bytes[i]);
            i = i + 1;
        }
    }
}

} // verus!
