//! The track bundle: the track archives of a directory, compressed and
//! framed into one binary container.
//!
//! A bundle is a 16-byte header (magic, total size, three zero bytes, build
//! number) and one record for each archive, in the order of the listing. A
//! record is the archive's file name in Base64 behind its length in two
//! bytes, padded to 16 bytes, then the compressed archive behind its length
//! in four bytes, padded to 16 bytes. All numbers are big-endian.

use crate::text::{string_bytes, utf8};
use crate::wire::{
    append_bytes, lemma_holds_at_index, lemma_holds_at_inside, lemma_holds_at_split,
    lemma_holds_at_whole, lemma_padded, lemma_u16_be_round_trip, lemma_u32_at,
    lemma_u32_be_round_trip, pad_to, padded, u16_be, u32_be, u32_from_be, write_u16_be,
    write_u32_be,
};
use vstd::prelude::*;

verus! {

/// The build number that is written into every bundle.
pub const BUNDLE_BUILD_NUMBER: u8 = 1;

/// The level handed to the compressor: 0, the compressor's own default.
pub const COMPRESSION_LEVEL: i32 = 0;

/// The eight bytes that open a bundle: `ZRP0TRC0` in ASCII.
pub open spec fn bundle_magic() -> Seq<u8> {
    seq![0x5Au8, 0x52u8, 0x50u8, 0x30u8, 0x54u8, 0x52u8, 0x43u8, 0x30u8]
}

/// The standard Base64 text of `data`, with padding, as ASCII bytes: what
/// `base64::encode` returns for it.
pub uninterp spec fn base64_text(data: Seq<u8>) -> Seq<u8>;

/// The Zstandard frame that `zstd::bulk::compress` makes of `data` at
/// `level`.
pub uninterp spec fn zstd_frame(data: Seq<u8>, level: i32) -> Seq<u8>;

/// The length of the Base64 text of `len` bytes: four characters for every
/// three bytes, and four more for a rest of one or two bytes.
pub open spec fn base64_len(len: nat) -> nat {
    (len / 3) * 4 + if len % 3 == 0 {
        0nat
    } else {
        4nat
    }
}

/// A length that no Zstandard frame of `len` bytes of data exceeds.
pub open spec fn zstd_bound(len: nat) -> nat {
    len + len / 256 + 64
}

/// `base64::encode`: the standard Base64 text of `data`, which is
/// `base64_len` of its length long: the crate sizes the text by its
/// `encoded_size` and fills all of it. The call panics where that size
/// overflows `usize`, which the precondition leaves out.
#[verifier::external_body]
fn base64_encode(data: &[u8]) -> (text: Vec<u8>)
    requires
        (data@.len() / 3) * 4 + 4 <= usize::MAX,
    ensures
        text@ == base64_text(data@),
        text@.len() == base64_len(data@.len()),
{
    base64::encode(data).into_bytes()
}

/// `zstd::bulk::compress`: `data` as one Zstandard frame, or `None` where
/// the compressor reports an error. What the frame holds is a function of
/// `data` and `level`; whether the compressor succeeds is not promised. A
/// frame is no longer than `ZSTD_compressBound` of the data's length, which
/// zstd documents as the largest size of a frame made in one pass and which
/// the crate sizes its buffer by; `zstd_bound` is at least that.
#[verifier::external_body]
fn zstd_compress(data: &[u8], level: i32) -> (r: Option<Vec<u8>>)
    ensures
        r matches Some(frame) ==> frame@ == zstd_frame(data@, level) && frame@.len()
            <= zstd_bound(data@.len()),
{
    zstd::bulk::compress(data, level).ok()
}

/// Why no bundle was built.
#[derive(Debug, PartialEq, Eq, Structural, Clone, Copy)]
pub enum BuildError {
    /// The listing failed at an entry, or an archive could not be read.
    Io,
    /// The compressor reported an error.
    CompressionFailure,
    /// An entry's file type could not be read.
    UnsupportedEntry,
}

/// One entry of a directory listing, as far as the bundle depends on it.
#[derive(Debug, PartialEq, Eq, Clone)]
pub enum DirItem {
    /// The listing failed at this entry.
    Unreadable,
    /// An entry whose file type could not be read.
    Untyped { name: String },
    /// An entry that is no regular file.
    Other { name: String },
    /// A regular file, with its contents where they were read.
    File { name: String, data: Option<Vec<u8>> },
}

/// A listing entry as a mathematical value.
pub enum ItemView {
    Unreadable,
    Untyped { name: Seq<char> },
    Other { name: Seq<char> },
    File { name: Seq<char>, data: Option<Seq<u8>> },
}

impl View for DirItem {
    type V = ItemView;

    open spec fn view(&self) -> ItemView {
        match self {
            DirItem::Unreadable => ItemView::Unreadable,
            DirItem::Untyped { name } => ItemView::Untyped { name: name@ },
            DirItem::Other { name } => ItemView::Other { name: name@ },
            DirItem::File { name, data } => ItemView::File {
                name: name@,
                data: match data {
                    Some(d) => Some(d@),
                    None => None,
                },
            },
        }
    }
}

/// The entries as mathematical values.
pub open spec fn item_views(items: Seq<DirItem>) -> Seq<ItemView> {
    items.map_values(|item: DirItem| item@)
}

/// The last four bytes of an archive's name: `.szs` in ASCII.
pub open spec fn archive_suffix() -> Seq<u8> {
    seq![0x2Eu8, 0x73u8, 0x7Au8, 0x73u8]
}

/// Whether a file name has the extension of a track archive: it ends in
/// `.szs`, in lower case, and something stands in front of that dot.
pub open spec fn is_archive_name(name: Seq<u8>) -> bool {
    name.len() >= 5 && name.subrange(name.len() - 4, name.len() as int) == archive_suffix()
}

/// What the build does with an entry.
pub enum Step {
    /// The entry is no track archive and is passed over.
    Skip,
    /// The entry ends the build with an error.
    Fail(BuildError),
    /// The entry is packed: its name and its contents.
    Pack(Seq<u8>, Seq<u8>),
}

/// What the build does with `item`: it fails on an entry where the listing
/// failed or whose type could not be read, passes over what is no regular
/// file or has no archive name, fails on an archive whose contents could not
/// be read, and packs every other archive.
pub open spec fn step_of(item: ItemView) -> Step {
    match item {
        ItemView::Unreadable => Step::Fail(BuildError::Io),
        ItemView::Untyped { .. } => Step::Fail(BuildError::UnsupportedEntry),
        ItemView::Other { .. } => Step::Skip,
        ItemView::File { name, data } => if !is_archive_name(utf8(name)) {
            Step::Skip
        } else {
            match data {
                None => Step::Fail(BuildError::Io),
                Some(d) => Step::Pack(utf8(name), d),
            }
        },
    }
}

/// A record: the name text behind its length in two bytes, padded to 16
/// bytes, then the frame behind its length in four bytes, padded to 16
/// bytes. A length that its field cannot hold is reduced modulo the field's
/// range.
pub open spec fn record_bytes(name_text: Seq<u8>, frame: Seq<u8>) -> Seq<u8> {
    padded(u16_be((name_text.len() % 0x1_0000) as u16) + name_text, 16) + padded(
        u32_be((frame.len() % 0x1_0000_0000) as u32) + frame,
        16,
    )
}

/// The bytes that an entry adds to the bundle: a record for an archive,
/// nothing for any other entry.
pub open spec fn item_bytes(item: ItemView) -> Seq<u8> {
    match step_of(item) {
        Step::Pack(name, data) => record_bytes(
            base64_text(name),
            zstd_frame(data, COMPRESSION_LEVEL),
        ),
        _ => Seq::empty(),
    }
}

/// The records of the entries, in the order of the listing.
pub open spec fn records_bytes(items: Seq<ItemView>) -> Seq<u8>
    decreases items.len(),
{
    if items.len() == 0 {
        Seq::empty()
    } else {
        records_bytes(items.drop_last()) + item_bytes(items.last())
    }
}

/// The bundle of a listing: the magic, the size of the whole bundle in four
/// bytes, three zero bytes, the build number, and the records.
pub open spec fn bundle_bytes(items: Seq<ItemView>) -> Seq<u8> {
    bundle_magic() + u32_be(((16 + records_bytes(items).len()) % 0x1_0000_0000) as u32) + seq![
        0u8,
        0u8,
        0u8,
        BUNDLE_BUILD_NUMBER,
    ] + records_bytes(items)
}

/// A length that no record of an archive exceeds whose name is `name_len`
/// bytes and whose contents are `data_len` bytes long: both length fields,
/// the name text, the largest frame, and a whole unit of padding twice.
pub open spec fn record_bound(name_len: nat, data_len: nat) -> nat {
    2 + base64_len(name_len) + 16 + 4 + zstd_bound(data_len) + 16
}

/// A length that the bytes which an entry adds to the bundle do not exceed.
pub open spec fn item_bound(item: ItemView) -> nat {
    match item {
        ItemView::File { name, data: Some(d) } => record_bound(utf8(name).len(), d.len()),
        _ => 0,
    }
}

/// A length that the records of a listing do not exceed.
pub open spec fn records_bound(items: Seq<ItemView>) -> nat
    decreases items.len(),
{
    if items.len() == 0 {
        0
    } else {
        records_bound(items.drop_last()) + item_bound(items.last())
    }
}

/// A record is at most its two length fields, the name text, the frame and
/// a whole unit of padding twice.
pub proof fn lemma_record_bound(name_text: Seq<u8>, frame: Seq<u8>)
    ensures
        record_bytes(name_text, frame).len() <= 2 + name_text.len() + 16 + 4 + frame.len() + 16,
{
    let head = u16_be((name_text.len() % 0x1_0000) as u16) + name_text;
    let body = u32_be((frame.len() % 0x1_0000_0000) as u32) + frame;
    lemma_u16_be_round_trip((name_text.len() % 0x1_0000) as u16);
    lemma_u32_be_round_trip((frame.len() % 0x1_0000_0000) as u32);
    lemma_padded(head, 16);
    lemma_padded(body, 16);
}

/// The records of a listing in which an archive is packed take at least 32
/// bytes.
pub proof fn lemma_records_min(items: Seq<ItemView>, k: int)
    requires
        0 <= k < items.len(),
        step_of(items[k]) is Pack,
    ensures
        records_bytes(items).len() >= 32,
    decreases items.len(),
{
    if k == items.len() - 1 {
        match step_of(items.last()) {
            Step::Pack(name, data) => {
                lemma_record_len(base64_text(name), zstd_frame(data, COMPRESSION_LEVEL));
            },
            _ => {},
        }
    } else {
        assert(items.drop_last()[k] == items[k]);
        lemma_records_min(items.drop_last(), k);
    }
}

/// A record is a multiple of 16 bytes long.
pub proof fn lemma_record_len(name_text: Seq<u8>, frame: Seq<u8>)
    ensures
        record_bytes(name_text, frame).len() % 16 == 0,
        record_bytes(name_text, frame).len() >= 32,
{
    let head = u16_be((name_text.len() % 0x1_0000) as u16) + name_text;
    let body = u32_be((frame.len() % 0x1_0000_0000) as u32) + frame;
    lemma_padded(head, 16);
    lemma_padded(body, 16);
    assert(record_bytes(name_text, frame).len() == padded(head, 16).len() + padded(body, 16).len());
    let a = padded(head, 16).len() as int;
    let b = padded(body, 16).len() as int;
    assert((a + b) % 16 == 0) by (nonlinear_arith)
        requires
            a % 16 == 0,
            b % 16 == 0,
    ;
    assert(a >= 16 && b >= 16) by (nonlinear_arith)
        requires
            a % 16 == 0,
            b % 16 == 0,
            a > 0,
            b > 0,
    ;
}

/// The records of a listing are a multiple of 16 bytes long.
pub proof fn lemma_records_len(items: Seq<ItemView>)
    ensures
        records_bytes(items).len() % 16 == 0,
    decreases items.len(),
{
    if items.len() > 0 {
        lemma_records_len(items.drop_last());
        let a = records_bytes(items.drop_last()).len() as int;
        let b = item_bytes(items.last()).len() as int;
        match step_of(items.last()) {
            Step::Pack(name, data) => {
                lemma_record_len(base64_text(name), zstd_frame(data, COMPRESSION_LEVEL));
            },
            _ => {},
        }
        assert((a + b) % 16 == 0) by (nonlinear_arith)
            requires
                a % 16 == 0,
                b % 16 == 0,
        ;
    }
}

/// The header of a bundle: it opens with the magic, is a multiple of 16
/// bytes long, and holds the build number in its last byte and, as long as
/// the bundle is under 4 GiB, the size of the whole bundle in the four bytes
/// behind the magic.
pub proof fn lemma_bundle_header(items: Seq<ItemView>)
    ensures
        bundle_bytes(items).len() == 16 + records_bytes(items).len(),
        bundle_bytes(items).len() % 16 == 0,
        bundle_bytes(items).subrange(0, 8) == bundle_magic(),
        bundle_bytes(items)[12] == 0,
        bundle_bytes(items)[13] == 0,
        bundle_bytes(items)[14] == 0,
        bundle_bytes(items)[15] == BUNDLE_BUILD_NUMBER,
        bundle_bytes(items).len() < 0x1_0000_0000 ==> u32_from_be(bundle_bytes(items).skip(8))
            == bundle_bytes(items).len(),
        bundle_bytes(items).len() < 0x1_0000_0000 ==> u32_from_be(
            bundle_bytes(items).subrange(8, 12),
        ) == bundle_bytes(items).len(),
        bundle_bytes(items).skip(16) == records_bytes(items),
{
    let total = ((16 + records_bytes(items).len()) % 0x1_0000_0000) as u32;
    let a = bundle_magic();
    let b = u32_be(total);
    let c = seq![0u8, 0u8, 0u8, BUNDLE_BUILD_NUMBER];
    let d = records_bytes(items);
    let s = bundle_bytes(items);
    lemma_u32_be_round_trip(total);
    lemma_records_len(items);
    assert(s == a + b + c + d);
    assert(s.len() == 16 + d.len());
    assert(s.len() % 16 == 0) by (nonlinear_arith)
        requires
            s.len() == 16 + d.len(),
            d.len() % 16 == 0,
    ;
    lemma_holds_at_whole(s);
    lemma_holds_at_split(s, 0, a + b + c, d);
    lemma_holds_at_split(s, 0, a + b, c);
    lemma_holds_at_split(s, 0, a, b);
    lemma_holds_at_inside(s, 0, a);
    lemma_u32_at(s, 8, total);
    lemma_holds_at_inside(s, 8, b);
    lemma_holds_at_index(s, 12, c, 0);
    lemma_holds_at_index(s, 12, c, 1);
    lemma_holds_at_index(s, 12, c, 2);
    lemma_holds_at_index(s, 12, c, 3);
    assert(s.skip(16) =~= d);
}

/// Two builds over listings with the same entries, where both succeed, give
/// the same bytes: a bundle depends on nothing but the names, kinds and
/// contents of the entries and their order.
pub proof fn lemma_build_repeats(
    first: Seq<DirItem>,
    second: Seq<DirItem>,
    out_first: Seq<u8>,
    out_second: Seq<u8>,
)
    requires
        item_views(first) == item_views(second),
        out_first == bundle_bytes(item_views(first)),
        out_second == bundle_bytes(item_views(second)),
    ensures
        out_first == out_second,
{
}

/// None of the first `n` entries ends the build.
pub open spec fn none_fails(items: Seq<ItemView>, n: int) -> bool {
    forall|i: int| 0 <= i < n && i < items.len() ==> !(#[trigger] step_of(items[i]) is Fail)
}

/// The entry at `k` is the first that ends the build, and ends it with `e`.
pub open spec fn first_failure(items: Seq<ItemView>, k: int, e: BuildError) -> bool {
    &&& 0 <= k < items.len()
    &&& step_of(items[k]) == Step::Fail(e)
    &&& none_fails(items, k)
}

/// The entry at `k` is an archive that is packed, and no entry before it
/// ends the build.
pub open spec fn packed_at(items: Seq<ItemView>, k: int) -> bool {
    &&& 0 <= k < items.len()
    &&& step_of(items[k]) is Pack
    &&& none_fails(items, k)
}

/// Whether `name` is the file name of a track archive.
pub fn is_track_archive(name: &String) -> (r: bool)
    ensures
        r == is_archive_name(utf8(name@)),
{
    let bytes = string_bytes(name);
    let n: usize = bytes.len();
    if n < 5 {
        return false;
    }
    let r = bytes[n - 4] == 0x2E && bytes[n - 3] == 0x73 && bytes[n - 2] == 0x7A && bytes[n - 1]
        == 0x73;
    proof {
        let tail = bytes@.subrange(n - 4, n as int);
        if r {
            assert(tail =~= archive_suffix());
        } else {
            assert(tail[0] == bytes@[n - 4] && tail[1] == bytes@[n - 3] && tail[2] == bytes@[n
                - 2] && tail[3] == bytes@[n - 1]);
        }
    }
    r
}

/// Appends a record for the name text `name_text` and the frame `frame`.
pub fn append_record(buf: &mut Vec<u8>, name_text: &[u8], frame: &[u8])
    ensures
        final(buf)@ == old(buf)@ + record_bytes(name_text@, frame@),
{
    let mut head: Vec<u8> = Vec::new();
    write_u16_be(&mut head, (name_text.len() % 0x1_0000) as u16);
    append_bytes(&mut head, name_text);
    pad_to(&mut head, 16);
    let mut body: Vec<u8> = Vec::new();
    write_u32_be(&mut body, ((frame.len() as u64) % 0x1_0000_0000) as u32);
    append_bytes(&mut body, frame);
    pad_to(&mut body, 16);
    append_bytes(buf, head.as_slice());
    append_bytes(buf, body.as_slice());
    assert(buf@ =~= old(buf)@ + record_bytes(name_text@, frame@));
}

/// Appends the record of an archive whose name text is `name_text`, given
/// what the compressor made of its contents: the record where it made a
/// frame, and nothing but the error `CompressionFailure` where it made
/// none.
pub fn append_packed(buf: &mut Vec<u8>, name_text: &[u8], frame: Option<Vec<u8>>) -> (r: Result<
    (),
    BuildError,
>)
    ensures
        match frame {
            Some(f) => r is Ok && final(buf)@ == old(buf)@ + record_bytes(name_text@, f@),
            None => r == Err::<(), BuildError>(BuildError::CompressionFailure) && final(buf)@
                == old(buf)@,
        },
{
    match frame {
        Some(f) => {
            append_record(buf, name_text, f.as_slice());
            Ok(())
        },
        None => Err(BuildError::CompressionFailure),
    }
}

/// Appends the eight bytes of the bundle's magic.
pub fn write_bundle_magic(buf: &mut Vec<u8>)
    ensures
        final(buf)@ == old(buf)@ + bundle_magic(),
{
    buf.push(0x5A);
    buf.push(0x52);
    buf.push(0x50);
    buf.push(0x30);
    buf.push(0x54);
    buf.push(0x52);
    buf.push(0x43);
    buf.push(0x30);
    assert(buf@ =~= old(buf)@ + bundle_magic());
}

/// What holds of the header of every bundle: the bundle opens with the
/// magic, is a multiple of 16 bytes long, holds three zero bytes and the
/// build number at the end of its header and, as long as it is under 4 GiB,
/// its own size in the four bytes behind the magic.
pub open spec fn is_sealed(out: Seq<u8>) -> bool {
    &&& out.len() >= 16
    &&& out.len() % 16 == 0
    &&& out.subrange(0, 8) == bundle_magic()
    &&& out[12] == 0 && out[13] == 0 && out[14] == 0
    &&& out[15] == BUNDLE_BUILD_NUMBER
    &&& out.len() < 0x1_0000_0000 ==> u32_from_be(out.subrange(8, 12)) == out.len()
}

/// The bundle whose records are `records`: the header with the size of the
/// whole and the build number, then the records.
pub fn seal_bundle(records: &[u8]) -> (out: Vec<u8>)
    ensures
        out@ == bundle_magic() + u32_be(((16 + records@.len()) % 0x1_0000_0000) as u32) + seq![
            0u8,
            0u8,
            0u8,
            BUNDLE_BUILD_NUMBER,
        ] + records@,
{
    let total: u128 = 16 + records.len() as u128;
    let mut out: Vec<u8> = Vec::new();
    write_bundle_magic(&mut out);
    write_u32_be(&mut out, (total % 0x1_0000_0000) as u32);
    out.push(0);
    out.push(0);
    out.push(0);
    out.push(BUNDLE_BUILD_NUMBER);
    append_bytes(&mut out, records);
    assert(out@ =~= bundle_magic() + u32_be(((16 + records@.len()) % 0x1_0000_0000) as u32)
        + seq![0u8, 0u8, 0u8, BUNDLE_BUILD_NUMBER] + records@);
    out
}

/// The entries whose names are short enough for the Base64 encoder: the
/// size of the text of every archive's name fits `usize`.
pub open spec fn names_fit(items: Seq<ItemView>) -> bool {
    forall|i: int|
        0 <= i < items.len() ==> (#[trigger] step_of(items[i]) matches Step::Pack(name, _) ==> (
        name.len() / 3) * 4 + 4 <= usize::MAX)
}

/// Whether the Base64 encoder can take a name of `len` bytes.
pub fn name_fits(len: usize) -> (r: bool)
    ensures
        r == ((len / 3) * 4 + 4 <= usize::MAX),
{
    len / 3 <= (usize::MAX - 4) / 4
}

/// The bundle of the listing `items`.
///
/// The entries are taken in order. The build ends with the error of the
/// first entry that fails: `Io` where the listing failed at an entry or an
/// archive's contents are missing, `UnsupportedEntry` where an entry's file
/// type is unknown. It ends with `CompressionFailure` where the compressor
/// reports an error on an archive before that. A listing without archives
/// and without a failing entry always gives a bundle, which is then a bare
/// header.
pub fn build_bundle(items: &Vec<DirItem>) -> (r: Result<Vec<u8>, BuildError>)
    requires
        names_fit(item_views(items@)),
    ensures
        match r {
            Ok(out) => none_fails(item_views(items@), items@.len() as int) && out@
                == bundle_bytes(item_views(items@)),
            Err(BuildError::CompressionFailure) => exists|k: int|
                packed_at(item_views(items@), k),
            Err(e) => exists|k: int| first_failure(item_views(items@), k, e),
        },
        r matches Ok(out) ==> is_sealed(out@) && out@.len() <= 16 + records_bound(
            item_views(items@),
        ),
        r matches Ok(out) ==> forall|k: int|
            0 <= k < items@.len() && #[trigger] step_of(item_views(items@)[k]) is Pack
                ==> out@.len() >= 48,
        (forall|i: int|
            0 <= i < items@.len() ==> #[trigger] step_of(item_views(items@)[i]) is Skip)
            ==> r is Ok,
{
    let ghost views = item_views(items@);
    let mut records: Vec<u8> = Vec::new();
    let n: usize = items.len();
    let mut i: usize = 0;
    assert(views.take(0) =~= Seq::<ItemView>::empty());
    while i < n
        invariant
            i <= n,
            n == items@.len(),
            views == item_views(items@),
            names_fit(views),
            none_fails(views, i as int),
            records@ == records_bytes(views.take(i as int)),
            records@.len() <= records_bound(views.take(i as int)),
        decreases n - i,
    {
        assert(views.take(i + 1).drop_last() =~= views.take(i as int));
        assert(views.take(i + 1).last() == views[i as int]);
        assert(views[i as int] == items@[i as int]@);
        match &items[i] {
            DirItem::Unreadable => {
                assert(first_failure(views, i as int, BuildError::Io));
                return Err(BuildError::Io);
            },
            DirItem::Untyped { .. } => {
                assert(first_failure(views, i as int, BuildError::UnsupportedEntry));
                return Err(BuildError::UnsupportedEntry);
            },
            DirItem::Other { .. } => {},
            DirItem::File { name, data } => {
                if is_track_archive(name) {
                    match data {
                        None => {
                            assert(first_failure(views, i as int, BuildError::Io));
                            return Err(BuildError::Io);
                        },
                        Some(contents) => {
                            assert(step_of(views[i as int]) is Pack);
                            let name_text = base64_encode(string_bytes(name));
                            let frame = zstd_compress(contents.as_slice(), COMPRESSION_LEVEL);
                            proof {
                                if frame is Some {
                                    lemma_record_bound(name_text@, frame->0@);
                                }
                            }
                            match append_packed(&mut records, name_text.as_slice(), frame) {
                                Err(e) => {
                                    assert(packed_at(views, i as int));
                                    return Err(e);
                                },
                                Ok(()) => {},
                            }
                        },
                    }
                }
            },
        }
        i += 1;
    }
    assert(views.take(n as int) =~= views);
    proof {
        lemma_bundle_header(views);
        assert forall|k: int| 0 <= k < n && #[trigger] step_of(views[k]) is Pack implies 16
            + records@.len() >= 48 by {
            lemma_records_min(views, k);
        }
    }
    Ok(seal_bundle(records.as_slice()))
}

} // verus!
