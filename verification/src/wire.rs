//! Byte-level building blocks shared by the project file and the track
//! bundle: big-endian integers, zero padding and length-prefixed blocks.

use vstd::prelude::*;
use vstd::slice::slice_subrange;

verus! {

/// `n` zero bytes.
pub open spec fn zero_bytes(n: nat) -> Seq<u8> {
    Seq::new(n, |i: int| 0u8)
}

/// Number of zero bytes appended after `len` bytes to reach a multiple of
/// `alignment`. A length that is already a multiple receives a whole extra
/// unit, so the result is always in `1..=alignment`.
#[verifier::opaque]
pub open spec fn padding_len(len: nat, alignment: nat) -> nat
    recommends
        alignment > 0,
{
    (alignment - len % alignment) as nat
}

/// `s` followed by its padding up to `alignment`.
pub open spec fn padded(s: Seq<u8>, alignment: nat) -> Seq<u8>
    recommends
        alignment > 0,
{
    s + zero_bytes(padding_len(s.len(), alignment))
}

/// The two bytes of `v`, most significant first.
#[verifier::opaque]
pub open spec fn u16_be(v: u16) -> Seq<u8> {
    seq![(v / 256) as u8, (v % 256) as u8]
}

/// The four bytes of `v`, most significant first.
#[verifier::opaque]
pub open spec fn u32_be(v: u32) -> Seq<u8> {
    seq![
        (v / 16777216) as u8,
        ((v / 65536) % 256) as u8,
        ((v / 256) % 256) as u8,
        (v % 256) as u8,
    ]
}

/// The eight bytes of `v`, most significant first.
#[verifier::opaque]
pub open spec fn u64_be(v: u64) -> Seq<u8> {
    u32_be((v / 4294967296) as u32) + u32_be((v % 4294967296) as u32)
}

/// The number whose big-endian bytes are the first two bytes of `s`.
#[verifier::opaque]
pub open spec fn u16_from_be(s: Seq<u8>) -> u16
    recommends
        s.len() >= 2,
{
    (s[0] * 256 + s[1]) as u16
}

/// The number whose big-endian bytes are the first four bytes of `s`.
#[verifier::opaque]
pub open spec fn u32_from_be(s: Seq<u8>) -> u32
    recommends
        s.len() >= 4,
{
    (s[0] * 16777216 + s[1] * 65536 + s[2] * 256 + s[3]) as u32
}

/// The number whose big-endian bytes are the first eight bytes of `s`.
#[verifier::opaque]
pub open spec fn u64_from_be(s: Seq<u8>) -> u64
    recommends
        s.len() >= 8,
{
    (u32_from_be(s) * 4294967296 + u32_from_be(s.skip(4))) as u64
}

/// Reading back what `u16_be` wrote gives the number again.
pub proof fn lemma_u16_be_round_trip(v: u16)
    ensures
        u16_be(v).len() == 2,
        u16_from_be(u16_be(v)) == v,
{
    reveal(u16_from_be);
    reveal(u16_be);
}

/// Reading back what `u32_be` wrote gives the number again.
pub proof fn lemma_u32_be_round_trip(v: u32)
    ensures
        u32_be(v).len() == 4,
        u32_from_be(u32_be(v)) == v,
{
    reveal(u32_from_be);
    let b0 = v / 16777216;
    let b1 = (v / 65536) % 256;
    let b2 = (v / 256) % 256;
    let b3 = v % 256;
    assert(b0 < 256 && b1 < 256 && b2 < 256 && b3 < 256 && b0 * 16777216 + b1 * 65536 + b2
        * 256 + b3 == v) by (bit_vector)
        requires
            b0 == v / 16777216,
            b1 == (v / 65536) % 256,
            b2 == (v / 256) % 256,
            b3 == v % 256,
    ;
    reveal(u32_be);
    let s = u32_be(v);
    assert(s[0] == b0 && s[1] == b1 && s[2] == b2 && s[3] == b3);
}

/// Reading back what `u64_be` wrote gives the number again.
pub proof fn lemma_u64_be_round_trip(v: u64)
    ensures
        u64_be(v).len() == 8,
        u64_from_be(u64_be(v)) == v,
{
    reveal(u64_from_be);
    reveal(u64_be);
    let hi = (v / 4294967296) as u32;
    let lo = (v % 4294967296) as u32;
    lemma_u32_be_round_trip(hi);
    lemma_u32_be_round_trip(lo);
    reveal(u32_from_be);
    assert(u64_be(v).skip(4) =~= u32_be(lo));
    assert(u32_from_be(u64_be(v)) == u32_from_be(u32_be(hi)));
}

/// The byte that stands for a truth value: 1 for true, 0 for false.
pub open spec fn bool_byte(b: bool) -> u8 {
    if b {
        1
    } else {
        0
    }
}

/// The byte with the bit pattern of `v` in two's complement.
pub open spec fn i8_bits(v: i8) -> u8 {
    if v >= 0 {
        v as u8
    } else {
        (v + 0x100) as u8
    }
}

/// The signed number with the bit pattern of `b`.
pub open spec fn i8_of_bits(b: u8) -> i8 {
    if b < 0x80 {
        b as i8
    } else {
        (b - 0x100) as i8
    }
}

/// The unsigned number with the bit pattern of `v` in two's complement.
pub open spec fn i16_bits(v: i16) -> u16 {
    if v >= 0 {
        v as u16
    } else {
        (v + 0x1_0000) as u16
    }
}

/// The signed number with the bit pattern of `b`.
pub open spec fn i16_of_bits(b: u16) -> i16 {
    if b < 0x8000 {
        b as i16
    } else {
        (b - 0x1_0000) as i16
    }
}

/// The unsigned number with the bit pattern of `v` in two's complement.
pub open spec fn i32_bits(v: i32) -> u32 {
    if v >= 0 {
        v as u32
    } else {
        (v + 0x1_0000_0000) as u32
    }
}

/// The signed number with the bit pattern of `b`.
pub open spec fn i32_of_bits(b: u32) -> i32 {
    if b < 0x8000_0000 {
        b as i32
    } else {
        (b - 0x1_0000_0000) as i32
    }
}

/// The byte with the bit pattern of `v`.
pub fn i8_to_bits(v: i8) -> (b: u8)
    ensures
        b == i8_bits(v),
        i8_of_bits(b) == v,
{
    if v >= 0 {
        v as u8
    } else {
        ((v as i16) + 0x100) as u8
    }
}

/// The signed number with the bit pattern of `b`.
pub fn i8_from_bits(b: u8) -> (v: i8)
    ensures
        v == i8_of_bits(b),
{
    if b < 0x80 {
        b as i8
    } else {
        ((b as i16) - 0x100) as i8
    }
}

/// The unsigned number with the bit pattern of `v`.
pub fn i16_to_bits(v: i16) -> (b: u16)
    ensures
        b == i16_bits(v),
        i16_of_bits(b) == v,
{
    if v >= 0 {
        v as u16
    } else {
        ((v as i32) + 0x1_0000) as u16
    }
}

/// The signed number with the bit pattern of `b`.
pub fn i16_from_bits(b: u16) -> (v: i16)
    ensures
        v == i16_of_bits(b),
{
    if b < 0x8000 {
        b as i16
    } else {
        ((b as i32) - 0x1_0000) as i16
    }
}

/// The unsigned number with the bit pattern of `v`.
pub fn i32_to_bits(v: i32) -> (b: u32)
    ensures
        b == i32_bits(v),
        i32_of_bits(b) == v,
{
    if v >= 0 {
        v as u32
    } else {
        ((v as i64) + 0x1_0000_0000) as u32
    }
}

/// The signed number with the bit pattern of `b`.
pub fn i32_from_bits(b: u32) -> (v: i32)
    ensures
        v == i32_of_bits(b),
{
    if b < 0x8000_0000 {
        b as i32
    } else {
        ((b as i64) - 0x1_0000_0000) as i32
    }
}

/// `x` stands in `s` from position `at` on.
#[verifier::opaque]
pub open spec fn holds_at(s: Seq<u8>, at: int, x: Seq<u8>) -> bool {
    &&& 0 <= at
    &&& at + x.len() <= s.len()
    &&& s.subrange(at, at + x.len()) == x
}

/// What stands in `s` lies inside `s`, and is the part of `s` at that place.
pub proof fn lemma_holds_at_inside(s: Seq<u8>, at: int, x: Seq<u8>)
    requires
        holds_at(s, at, x),
    ensures
        0 <= at,
        at + x.len() <= s.len(),
        s.subrange(at, at + x.len()) == x,
{
    reveal(holds_at);
}

/// Every sequence stands in itself at position 0.
pub proof fn lemma_holds_at_whole(s: Seq<u8>)
    ensures
        holds_at(s, 0, s),
{
    reveal(holds_at);
    assert(s.subrange(0, s.len() as int) =~= s);
}

/// Where two pieces in a row stand in `s`, each of them stands there.
pub proof fn lemma_holds_at_split(s: Seq<u8>, at: int, a: Seq<u8>, b: Seq<u8>)
    requires
        holds_at(s, at, a + b),
    ensures
        holds_at(s, at, a),
        holds_at(s, at + a.len(), b),
{
    reveal(holds_at);
    let whole = s.subrange(at, at + (a + b).len());
    assert(s.subrange(at, at + a.len()) =~= whole.subrange(0, a.len() as int));
    assert(whole.subrange(0, a.len() as int) =~= a);
    assert(s.subrange(at + a.len(), at + a.len() + b.len()) =~= whole.subrange(
        a.len() as int,
        (a + b).len() as int,
    ));
    assert(whole.subrange(a.len() as int, (a + b).len() as int) =~= b);
}

/// What stands in `s` before position `end` also stands in the first `end`
/// bytes of `s`.
pub proof fn lemma_holds_at_take(s: Seq<u8>, at: int, x: Seq<u8>, end: int)
    requires
        holds_at(s, at, x),
        at + x.len() <= end <= s.len(),
    ensures
        holds_at(s.take(end), at, x),
{
    reveal(holds_at);
    assert(s.take(end).subrange(at, at + x.len()) =~= s.subrange(at, at + x.len()));
}

/// What stands in `s` inside a part of `s` stands in that part, moved back
/// by the part's start.
pub proof fn lemma_holds_at_of_part(s: Seq<u8>, from: int, to: int, at: int, x: Seq<u8>)
    requires
        0 <= from <= at,
        at + x.len() <= to <= s.len(),
        holds_at(s, at, x),
    ensures
        holds_at(s.subrange(from, to), at - from, x),
{
    reveal(holds_at);
    assert(s.subrange(from, to).subrange(at - from, at - from + x.len()) =~= s.subrange(
        at,
        at + x.len(),
    ));
}

/// How many bytes the length in front of a block takes.
#[derive(Clone, Copy, Debug, PartialEq, Eq)]
pub enum PrefixWidth {
    One,
    Two,
    Four,
    Eight,
}

impl PrefixWidth {
    /// The width in bytes.
    pub open spec fn bytes(self) -> nat {
        match self {
            PrefixWidth::One => 1,
            PrefixWidth::Two => 2,
            PrefixWidth::Four => 4,
            PrefixWidth::Eight => 8,
        }
    }

    /// One more than the largest length the prefix can hold.
    pub open spec fn limit(self) -> nat {
        match self {
            PrefixWidth::One => 0x100,
            PrefixWidth::Two => 0x1_0000,
            PrefixWidth::Four => 0x1_0000_0000,
            PrefixWidth::Eight => 0x1_0000_0000_0000_0000,
        }
    }

    /// The width in bytes.
    pub fn size(self) -> (n: usize)
        ensures
            n == self.bytes(),
    {
        match self {
            PrefixWidth::One => 1,
            PrefixWidth::Two => 2,
            PrefixWidth::Four => 4,
            PrefixWidth::Eight => 8,
        }
    }
}

/// The length `len` as written in front of a block: big-endian, reduced
/// modulo the prefix's limit.
pub open spec fn length_prefix(len: nat, width: PrefixWidth) -> Seq<u8> {
    match width {
        PrefixWidth::One => seq![(len % 0x100) as u8],
        PrefixWidth::Two => u16_be((len % 0x1_0000) as u16),
        PrefixWidth::Four => u32_be((len % 0x1_0000_0000) as u32),
        PrefixWidth::Eight => u64_be((len % 0x1_0000_0000_0000_0000) as u64),
    }
}

/// The length stored in the prefix that starts `s`.
pub open spec fn prefix_value(s: Seq<u8>, width: PrefixWidth) -> nat
    recommends
        s.len() >= width.bytes(),
{
    match width {
        PrefixWidth::One => s[0] as nat,
        PrefixWidth::Two => u16_from_be(s) as nat,
        PrefixWidth::Four => u32_from_be(s) as nat,
        PrefixWidth::Eight => u64_from_be(s) as nat,
    }
}

/// A length-prefixed block: the prefix, the data, then zero padding that
/// brings the block itself to a multiple of eight bytes.
pub open spec fn block(data: Seq<u8>, width: PrefixWidth) -> Seq<u8> {
    padded(length_prefix(data.len(), width) + data, 8)
}

/// The size of a block that holds `len` bytes of data.
pub open spec fn block_len(len: nat, width: PrefixWidth) -> nat {
    width.bytes() + len + padding_len(width.bytes() + len, 8)
}

/// A prefix has its width, and holds the length it was made from as long as
/// that length is under the prefix's limit.
pub proof fn lemma_length_prefix(len: nat, width: PrefixWidth)
    ensures
        length_prefix(len, width).len() == width.bytes(),
        len < width.limit() ==> prefix_value(length_prefix(len, width), width) == len,
{
    match width {
        PrefixWidth::One => {},
        PrefixWidth::Two => {
            lemma_u16_be_round_trip((len % 0x1_0000) as u16);
        },
        PrefixWidth::Four => {
            lemma_u32_be_round_trip((len % 0x1_0000_0000) as u32);
        },
        PrefixWidth::Eight => {
            lemma_u64_be_round_trip((len % 0x1_0000_0000_0000_0000) as u64);
        },
    }
}

/// After padding, the length is a multiple of the alignment, at least one
/// byte and at most `alignment` bytes were added, and all of them are zero.
pub proof fn lemma_padded(s: Seq<u8>, alignment: nat)
    requires
        alignment > 0,
    ensures
        padded(s, alignment).len() % alignment == 0,
        s.len() < padded(s, alignment).len() <= s.len() + alignment,
        padded(s, alignment).subrange(0, s.len() as int) == s,
        forall|i: int| s.len() <= i < padded(s, alignment).len() ==> padded(s, alignment)[i] == 0,
        s.len() % alignment == 0 ==> padded(s, alignment).len() == s.len() + alignment,
{
    lemma_padding_len(s.len(), alignment);
    assert(padded(s, alignment).subrange(0, s.len() as int) =~= s);
}

/// The padding is between one byte and a whole unit, and fills the length
/// up to a multiple of the alignment.
pub proof fn lemma_padding_len(len: nat, alignment: nat)
    requires
        alignment > 0,
    ensures
        1 <= padding_len(len, alignment) <= alignment,
        (len + padding_len(len, alignment)) % alignment == 0,
        len % alignment == 0 ==> padding_len(len, alignment) == alignment,
{
    reveal(padding_len);
    let a = alignment as int;
    let q = len as int / a;
    let r = len as int % a;
    vstd::arithmetic::div_mod::lemma_fundamental_div_mod(len as int, a);
    assert(len + padding_len(len, alignment) == a * (q + 1)) by (nonlinear_arith)
        requires
            len == a * q + r,
            padding_len(len, alignment) == a - r,
    ;
    vstd::arithmetic::div_mod::lemma_mod_multiples_basic(q + 1, a);
    assert(a * (q + 1) == (q + 1) * a) by (nonlinear_arith);
}

/// A block is a multiple of eight bytes long and starts with the prefix and
/// the data.
pub proof fn lemma_block(data: Seq<u8>, width: PrefixWidth)
    ensures
        block(data, width).len() == block_len(data.len(), width),
        block(data, width).len() % 8 == 0,
        block(data, width).len() >= 8,
        block(data, width).subrange(0, width.bytes() as int) == length_prefix(data.len(), width),
        block(data, width).subrange(width.bytes() as int, (width.bytes() + data.len()) as int)
            == data,
{
    lemma_length_prefix(data.len(), width);
    let body = length_prefix(data.len(), width) + data;
    lemma_padded(body, 8);
    assert(block(data, width).subrange(0, width.bytes() as int) =~= length_prefix(
        data.len(),
        width,
    ));
    assert(block(data, width).subrange(
        width.bytes() as int,
        (width.bytes() + data.len()) as int,
    ) =~= data);
}

/// Where a block stands, its prefix and its data stand at their offsets,
/// and the block ends inside the bytes. A block takes at least eight bytes.
pub proof fn lemma_block_parts(s: Seq<u8>, at: int, data: Seq<u8>, width: PrefixWidth)
    requires
        holds_at(s, at, block(data, width)),
    ensures
        holds_at(s, at, length_prefix(data.len(), width)),
        holds_at(s, at + width.bytes(), data),
        block(data, width).len() == block_len(data.len(), width),
        block(data, width).len() >= 8,
        0 <= at,
        at + block_len(data.len(), width) <= s.len(),
{
    lemma_block(data, width);
    lemma_length_prefix(data.len(), width);
    let prefix = length_prefix(data.len(), width);
    let fill = zero_bytes(padding_len((prefix + data).len(), 8));
    assert(block(data, width) == (prefix + data) + fill);
    lemma_holds_at_split(s, at, prefix + data, fill);
    lemma_holds_at_split(s, at, prefix, data);
    lemma_holds_at_inside(s, at, block(data, width));
}

/// The byte at offset `i` of what stands at `at` is the byte at `at + i`.
pub proof fn lemma_holds_at_index(s: Seq<u8>, at: int, x: Seq<u8>, i: int)
    requires
        holds_at(s, at, x),
        0 <= i < x.len(),
    ensures
        s[at + i] == x[i],
        s.skip(at)[i] == x[i],
{
    reveal(holds_at);
    assert(s.subrange(at, at + x.len())[i] == s[at + i]);
}

/// Where the two bytes of `v` stand at `at`, `v` is read there.
pub proof fn lemma_u16_at(s: Seq<u8>, at: int, v: u16)
    requires
        holds_at(s, at, u16_be(v)),
    ensures
        u16_from_be(s.skip(at)) == v,
{
    reveal(u16_from_be);
    lemma_u16_be_round_trip(v);
    lemma_holds_at_index(s, at, u16_be(v), 0);
    lemma_holds_at_index(s, at, u16_be(v), 1);
}

/// Where the four bytes of `v` stand at `at`, `v` is read there.
pub proof fn lemma_u32_at(s: Seq<u8>, at: int, v: u32)
    requires
        holds_at(s, at, u32_be(v)),
    ensures
        u32_from_be(s.skip(at)) == v,
{
    reveal(u32_from_be);
    lemma_u32_be_round_trip(v);
    lemma_holds_at_index(s, at, u32_be(v), 0);
    lemma_holds_at_index(s, at, u32_be(v), 1);
    lemma_holds_at_index(s, at, u32_be(v), 2);
    lemma_holds_at_index(s, at, u32_be(v), 3);
}

/// Where the eight bytes of `v` stand at `at`, `v` is read there.
pub proof fn lemma_u64_at(s: Seq<u8>, at: int, v: u64)
    requires
        holds_at(s, at, u64_be(v)),
    ensures
        u64_from_be(s.skip(at)) == v,
{
    reveal(u64_from_be);
    reveal(u64_be);
    let hi = (v / 4294967296) as u32;
    let lo = (v % 4294967296) as u32;
    lemma_u32_be_round_trip(hi);
    lemma_u32_be_round_trip(lo);
    lemma_holds_at_split(s, at, u32_be(hi), u32_be(lo));
    lemma_u32_at(s, at, hi);
    lemma_u32_at(s, at + 4, lo);
    lemma_holds_at_inside(s, at, u64_be(v));
    assert(s.skip(at).skip(4) =~= s.skip(at + 4));
}

/// Where the prefix of a length under the prefix's limit stands at `at`,
/// that length is read there.
pub proof fn lemma_prefix_value_at(s: Seq<u8>, at: int, len: nat, width: PrefixWidth)
    requires
        holds_at(s, at, length_prefix(len, width)),
        len < width.limit(),
    ensures
        prefix_value(s.skip(at), width) == len,
{
    match width {
        PrefixWidth::One => {
            lemma_holds_at_index(s, at, length_prefix(len, width), 0);
        },
        PrefixWidth::Two => {
            lemma_u16_at(s, at, (len % 0x1_0000) as u16);
        },
        PrefixWidth::Four => {
            lemma_u32_at(s, at, (len % 0x1_0000_0000) as u32);
        },
        PrefixWidth::Eight => {
            lemma_u64_at(s, at, (len % 0x1_0000_0000_0000_0000) as u64);
        },
    }
}

/// A vector of `size` zero bytes.
pub fn zeros(size: usize) -> (out: Vec<u8>)
    ensures
        out@ == zero_bytes(size as nat),
{
    let mut out: Vec<u8> = Vec::new();
    let mut i: usize = 0;
    while i < size
        invariant
            i <= size,
            out@ == zero_bytes(i as nat),
        decreases size - i,
    {
        out.push(0);
        i += 1;
        assert(out@ =~= zero_bytes(i as nat));
    }
    out
}

/// Appends a copy of `data` to `buf`.
pub fn append_bytes(buf: &mut Vec<u8>, data: &[u8])
    ensures
        final(buf)@ == old(buf)@ + data@,
{
    let mut i: usize = 0;
    while i < data.len()
        invariant
            i <= data.len(),
            buf@ == old(buf)@ + data@.subrange(0, i as int),
        decreases data.len() - i,
    {
        buf.push(data[i]);
        i += 1;
        assert(buf@ =~= old(buf)@ + data@.subrange(0, i as int));
    }
    assert(data@.subrange(0, data.len() as int) =~= data@);
}

/// Appends zero bytes until the length of `buf` is a multiple of
/// `alignment`. A buffer that is already aligned still grows by `alignment`
/// bytes.
pub fn pad_to(buf: &mut Vec<u8>, alignment: usize)
    requires
        alignment > 0,
    ensures
        final(buf)@ == padded(old(buf)@, alignment as nat),
        final(buf)@.len() % (alignment as nat) == 0,
        final(buf)@.len() > old(buf)@.len(),
        forall|i: int| old(buf)@.len() <= i < final(buf)@.len() ==> final(buf)@[i] == 0,
{
    proof {
        reveal(padding_len);
    }
    let fill: usize = alignment - buf.len() % alignment;
    let mut i: usize = 0;
    while i < fill
        invariant
            i <= fill,
            buf@ == old(buf)@ + zero_bytes(i as nat),
        decreases fill - i,
    {
        buf.push(0);
        i += 1;
        assert(buf@ =~= old(buf)@ + zero_bytes(i as nat));
    }
    proof {
        lemma_padded(old(buf)@, alignment as nat);
    }
}

/// Appends `v` as two big-endian bytes.
pub fn write_u16_be(buf: &mut Vec<u8>, v: u16)
    ensures
        final(buf)@ == old(buf)@ + u16_be(v),
{
    buf.push((v / 256) as u8);
    buf.push((v % 256) as u8);
    proof {
        reveal(u16_be);
    }
    assert(buf@ =~= old(buf)@ + u16_be(v));
}

/// Appends `v` as four big-endian bytes.
pub fn write_u32_be(buf: &mut Vec<u8>, v: u32)
    ensures
        final(buf)@ == old(buf)@ + u32_be(v),
{
    buf.push((v / 16777216) as u8);
    buf.push(((v / 65536) % 256) as u8);
    buf.push(((v / 256) % 256) as u8);
    buf.push((v % 256) as u8);
    proof {
        reveal(u32_be);
    }
    assert(buf@ =~= old(buf)@ + u32_be(v));
}

/// Appends `v` as eight big-endian bytes.
pub fn write_u64_be(buf: &mut Vec<u8>, v: u64)
    ensures
        final(buf)@ == old(buf)@ + u64_be(v),
{
    write_u32_be(buf, (v / 4294967296) as u32);
    write_u32_be(buf, (v % 4294967296) as u32);
    proof {
        reveal(u64_be);
    }
    assert(buf@ =~= old(buf)@ + u64_be(v));
}

/// The big-endian number in the first two bytes of `array`.
pub fn as_u16_be(array: &[u8]) -> (v: u16)
    requires
        array@.len() >= 2,
    ensures
        v == u16_from_be(array@),
{
    proof {
        reveal(u16_from_be);
    }
    (array[0] as u16) * 256 + (array[1] as u16)
}

/// The big-endian number in the first four bytes of `array`.
pub fn as_u32_be(array: &[u8]) -> (v: u32)
    requires
        array@.len() >= 4,
    ensures
        v == u32_from_be(array@),
{
    proof {
        reveal(u32_from_be);
    }
    (array[0] as u32) * 16777216 + (array[1] as u32) * 65536 + (array[2] as u32) * 256 + (
    array[3] as u32)
}

/// The big-endian number in the two bytes of `bytes` that start at `at`, or
/// `None` where they do not lie inside `bytes`.
pub fn read_u16_be(bytes: &[u8], at: usize) -> (r: Option<u16>)
    ensures
        r == (if at + 2 <= bytes@.len() {
            Some(u16_from_be(bytes@.skip(at as int)))
        } else {
            None
        }),
{
    if bytes.len() < 2 || at > bytes.len() - 2 {
        return None;
    }
    let v: u16 = as_u16_be(slice_subrange(bytes, at, at + 2));
    proof {
        reveal(u16_from_be);
    }
    Some(v)
}

/// The big-endian number in the four bytes of `bytes` that start at `at`, or
/// `None` where they do not lie inside `bytes`.
pub fn read_u32_be(bytes: &[u8], at: usize) -> (r: Option<u32>)
    ensures
        r == (if at + 4 <= bytes@.len() {
            Some(u32_from_be(bytes@.skip(at as int)))
        } else {
            None
        }),
{
    if bytes.len() < 4 || at > bytes.len() - 4 {
        return None;
    }
    let v: u32 = as_u32_be(slice_subrange(bytes, at, at + 4));
    proof {
        reveal(u32_from_be);
    }
    Some(v)
}

/// The big-endian number in the eight bytes of `bytes` that start at `at`,
/// or `None` where they do not lie inside `bytes`.
pub fn read_u64_be(bytes: &[u8], at: usize) -> (r: Option<u64>)
    ensures
        r == (if at + 8 <= bytes@.len() {
            Some(u64_from_be(bytes@.skip(at as int)))
        } else {
            None
        }),
{
    proof {
        reveal(u64_from_be);
        reveal(u32_from_be);
    }
    if bytes.len() < 8 || at > bytes.len() - 8 {
        return None;
    }
    let hi: u64 = (bytes[at] as u64) * 16777216 + (bytes[at + 1] as u64) * 65536 + (bytes[at
        + 2] as u64) * 256 + (bytes[at + 3] as u64);
    let lo: u64 = (bytes[at + 4] as u64) * 16777216 + (bytes[at + 5] as u64) * 65536 + (
    bytes[at + 6] as u64) * 256 + (bytes[at + 7] as u64);
    assert(bytes@.skip(at as int).skip(4) =~= bytes@.skip(at + 4));
    Some(hi * 4294967296 + lo)
}

/// Appends the length of `data`, big-endian in `prefix_width` bytes, then
/// `data`, then zero bytes that bring what was appended to a multiple of
/// eight bytes. A length that the prefix cannot hold is reduced modulo the
/// prefix's limit.
pub fn write_length_prefixed_bytes(buf: &mut Vec<u8>, data: &[u8], prefix_width: PrefixWidth)
    ensures
        final(buf)@ == old(buf)@ + block(data@, prefix_width),
{
    let len: usize = data.len();
    let mut field: Vec<u8> = Vec::new();
    match prefix_width {
        PrefixWidth::One => {
            field.push((len % 0x100) as u8);
            assert(field@ =~= length_prefix(len as nat, prefix_width));
        },
        PrefixWidth::Two => {
            write_u16_be(&mut field, (len % 0x1_0000) as u16);
            assert(field@ =~= length_prefix(len as nat, prefix_width));
        },
        PrefixWidth::Four => {
            write_u32_be(&mut field, ((len as u64) % 0x1_0000_0000) as u32);
            assert(field@ =~= length_prefix(len as nat, prefix_width));
        },
        PrefixWidth::Eight => {
            write_u64_be(&mut field, len as u64);
            assert(field@ =~= length_prefix(len as nat, prefix_width));
        },
    }
    append_bytes(&mut field, data);
    pad_to(&mut field, 8);
    append_bytes(buf, field.as_slice());
}

} // verus!
