//! Reading title, artist and a few other text frames from the ID3v2 tag that a
//! DSF file points to.
use vstd::prelude::*;
use vstd::slice::slice_subrange;
use crate::bytes::{be32, le64, marker_at, occurs_at, read_be32, read_le64};
use crate::container::dsd_tag;

verus! {

/// The characters that `String::from_utf8_lossy` makes of some bytes.
pub uninterp spec fn utf8_lossy_of(b: Seq<u8>) -> Seq<char>;

/// The characters that `String::from_utf16_lossy` makes of some UTF-16 units.
pub uninterp spec fn utf16_lossy_of(u: Seq<u16>) -> Seq<char>;

/// Relies on std's `String::from_utf8_lossy`: the bytes read as UTF-8, with
/// U+FFFD for each invalid sequence, so no bytes give no characters and any
/// bytes give some; the result depends on the bytes alone.
#[verifier::external_body]
fn utf8_lossy(b: &[u8]) -> (r: String)
    ensures
        r@ == utf8_lossy_of(b@),
        b@.len() == 0 <==> r@.len() == 0,
{
    String::from_utf8_lossy(b).into_owned()
}

/// Relies on std's `String::from_utf16_lossy`: the units read as UTF-16, with
/// U+FFFD for each unpaired surrogate, so no units give no characters and
/// any units give some; the result depends on the units alone.
#[verifier::external_body]
fn utf16_lossy(u: &[u16]) -> (r: String)
    ensures
        r@ == utf16_lossy_of(u@),
        u@.len() == 0 <==> r@.len() == 0,
{
    String::from_utf16_lossy(u)
}

/// The text of a tag, as characters.
pub ghost struct ExtractedView {
    pub title: Seq<char>,
    pub artist: Seq<char>,
    pub album: Seq<char>,
    pub composer: Seq<char>,
    pub genre: Seq<char>,
    pub date_time: Seq<char>,
    pub has_data: bool,
}

/// What was found in a tag; a field that was not found is empty.
pub struct ExtractedMetadata {
    pub title: String,
    pub artist: String,
    pub album: String,
    pub composer: String,
    pub genre: String,
    pub date_time: String,
    /// Whether a title or an artist was found.
    pub has_data: bool,
}

impl View for ExtractedMetadata {
    type V = ExtractedView;

    open spec fn view(&self) -> ExtractedView {
        ExtractedView {
            title: self.title@,
            artist: self.artist@,
            album: self.album@,
            composer: self.composer@,
            genre: self.genre@,
            date_time: self.date_time@,
            has_data: self.has_data,
        }
    }
}

pub open spec fn empty_view() -> ExtractedView {
    ExtractedView {
        title: Seq::empty(),
        artist: Seq::empty(),
        album: Seq::empty(),
        composer: Seq::empty(),
        genre: Seq::empty(),
        date_time: Seq::empty(),
        has_data: false,
    }
}

impl Default for ExtractedMetadata {
    fn default() -> (r: ExtractedMetadata)
        ensures
            r@ == empty_view(),
    {
        ExtractedMetadata {
            title: String::new(),
            artist: String::new(),
            album: String::new(),
            composer: String::new(),
            genre: String::new(),
            date_time: String::new(),
            has_data: false,
        }
    }
}

/// The position of the first zero byte of `s` at or after `i`, or its length.
pub open spec fn nul_end(s: Seq<u8>, i: nat) -> nat
    decreases s.len() - i,
{
    if i >= s.len() || s[i as int] == 0 {
        i
    } else {
        nul_end(s, i + 1)
    }
}

/// `s` up to its first zero byte.
pub open spec fn before_nul(s: Seq<u8>) -> Seq<u8> {
    s.subrange(0, nul_end(s, 0) as int)
}

/// Byte pairs read as little-endian 16-bit units; an odd last byte is dropped.
pub open spec fn le_units(b: Seq<u8>) -> Seq<u16> {
    Seq::new(b.len() / 2, |k: int| (b[2 * k] as int + b[2 * k + 1] as int * 256) as u16)
}

/// The position of the first zero unit of `u` at or after `i`, or its length.
pub open spec fn zero_unit_end(u: Seq<u16>, i: nat) -> nat
    decreases u.len() - i,
{
    if i >= u.len() || u[i as int] == 0 {
        i
    } else {
        zero_unit_end(u, i + 1)
    }
}

/// `u` up to its first zero unit.
pub open spec fn before_zero_unit(u: Seq<u16>) -> Seq<u16> {
    u.subrange(0, zero_unit_end(u, 0) as int)
}

/// The text of a frame. Encoding 1 is little-endian UTF-16 that ends at the
/// first zero unit; any other is UTF-8 that ends at the first zero byte.
pub open spec fn decoded_text(encoding: u8, raw: Seq<u8>) -> Seq<char> {
    if encoding == 1 {
        utf16_lossy_of(before_zero_unit(le_units(raw)))
    } else {
        utf8_lossy_of(before_nul(raw))
    }
}

pub fn decode_text(encoding: u8, data: &[u8]) -> (r: String)
    ensures
        r@ == decoded_text(encoding, data@),
{
    if encoding == 1 {
        let mut units: Vec<u16> = Vec::new();
        let mut k: usize = 0;
        while k < data.len() / 2
            invariant
                k <= data@.len() / 2,
                units@ == le_units(data@).subrange(0, k as int),
            decreases data@.len() / 2 - k,
        {
            units.push(data[2 * k] as u16 + data[2 * k + 1] as u16 * 256);
            k += 1;
            assert(units@ =~= le_units(data@).subrange(0, k as int));
        }
        assert(units@ =~= le_units(data@));
        let mut end: usize = 0;
        while end < units.len() && units[end] != 0
            invariant
                end <= units@.len(),
                zero_unit_end(units@, 0) == zero_unit_end(units@, end as nat),
            decreases units@.len() - end,
        {
            end += 1;
        }
        utf16_lossy(slice_subrange(units.as_slice(), 0, end))
    } else {
        let mut end: usize = 0;
        while end < data.len() && data[end] != 0
            invariant
                end <= data@.len(),
                nul_end(data@, 0) == nul_end(data@, end as nat),
            decreases data@.len() - end,
        {
            end += 1;
        }
        utf8_lossy(slice_subrange(data, 0, end))
    }
}

/// A tag size stored in four bytes of seven bits each, the top bit ignored.
pub open spec fn synchsafe(b0: u8, b1: u8, b2: u8, b3: u8) -> int {
    (b0 % 128) as int * 0x20_0000 + (b1 % 128) as int * 0x4000 + (b2 % 128) as int * 0x80 + (b3
        % 128) as int
}

pub fn synchsafe_to_u32(b: [u8; 4]) -> (r: u32)
    ensures
        r as int == synchsafe(b@[0], b@[1], b@[2], b@[3]),
{
    (b[0] % 128) as u32 * 0x20_0000 + (b[1] % 128) as u32 * 0x4000 + (b[2] % 128) as u32 * 0x80
        + (b[3] % 128) as u32
}

pub open spec fn id3_tag() -> Seq<u8> {
    seq![0x49u8, 0x44u8, 0x33u8]
}

pub open spec fn tit2() -> Seq<u8> {
    seq![0x54u8, 0x49u8, 0x54u8, 0x32u8]
}

pub open spec fn tpe1() -> Seq<u8> {
    seq![0x54u8, 0x50u8, 0x45u8, 0x31u8]
}

pub open spec fn talb() -> Seq<u8> {
    seq![0x54u8, 0x41u8, 0x4cu8, 0x42u8]
}

pub open spec fn tcom() -> Seq<u8> {
    seq![0x54u8, 0x43u8, 0x4fu8, 0x4du8]
}

pub open spec fn tcon() -> Seq<u8> {
    seq![0x54u8, 0x43u8, 0x4fu8, 0x4eu8]
}

pub open spec fn tyer() -> Seq<u8> {
    seq![0x54u8, 0x59u8, 0x45u8, 0x52u8]
}

pub open spec fn tdrc() -> Seq<u8> {
    seq![0x54u8, 0x44u8, 0x52u8, 0x43u8]
}

/// Stores the text of the frame at `pos` in the field that its identifier
/// names; other frames change nothing.
pub open spec fn apply_frame(v: ExtractedView, d: Seq<u8>, pos: int, t: Seq<char>) -> ExtractedView {
    if occurs_at(d, pos, tit2()) {
        ExtractedView { title: t, ..v }
    } else if occurs_at(d, pos, tpe1()) {
        ExtractedView { artist: t, ..v }
    } else if occurs_at(d, pos, talb()) {
        ExtractedView { album: t, ..v }
    } else if occurs_at(d, pos, tcom()) {
        ExtractedView { composer: t, ..v }
    } else if occurs_at(d, pos, tcon()) {
        ExtractedView { genre: t, ..v }
    } else if occurs_at(d, pos, tyer()) || occurs_at(d, pos, tdrc()) {
        ExtractedView { date_time: t, ..v }
    } else {
        v
    }
}

/// The frames from `pos` up to `limit`, each a 4-byte identifier, a 4-byte
/// big-endian size and two flag bytes before its content. The scan stops at a
/// zero identifier byte or at a frame that does not fit.
pub open spec fn scan_frames(d: Seq<u8>, pos: nat, limit: nat, v: ExtractedView) -> ExtractedView
    decreases limit - pos,
{
    let p = pos as int;
    if p + 10 > limit || d[p] == 0 {
        v
    } else {
        let size = be32(d, p + 4);
        if p + 10 + size > limit {
            v
        } else {
            let next = if size > 1 {
                apply_frame(
                    v,
                    d,
                    p,
                    decoded_text(d[p + 10], d.subrange(p + 11, p + 10 + size)),
                )
            } else {
                v
            };
            scan_frames(d, (p + 10 + size) as nat, limit, next)
        }
    }
}

/// What reading the tag at the start of `d` makes of `v`; without an `ID3`
/// header nothing changes.
pub open spec fn id3_spec(d: Seq<u8>, v: ExtractedView) -> ExtractedView {
    if d.len() < 10 || !occurs_at(d, 0, id3_tag()) {
        v
    } else {
        let size = synchsafe(d[6], d[7], d[8], d[9]);
        let limit = if 10 + size < d.len() {
            10 + size
        } else {
            d.len() as int
        };
        let w = scan_frames(d, 10, limit as nat, v);
        ExtractedView { has_data: w.has_data || w.title.len() > 0 || w.artist.len() > 0, ..w }
    }
}

pub fn parse_id3_simple(data: &[u8], meta: &mut ExtractedMetadata)
    ensures
        final(meta)@ == id3_spec(data@, old(meta)@),
{
    let id3 = [0x49u8, 0x44u8, 0x33u8];
    assert(id3@ =~= id3_tag());
    if data.len() < 10 || !marker_at(data, 0, id3.as_slice()) {
        return;
    }
    let header = [data[6], data[7], data[8], data[9]];
    assert(header@[0] == data@[6] && header@[1] == data@[7] && header@[2] == data@[8]
        && header@[3] == data@[9]);
    let size = synchsafe_to_u32(header) as usize;
    let limit: usize = if size < data.len() - 10 {
        10 + size
    } else {
        data.len()
    };
    let tit2_id = [0x54u8, 0x49u8, 0x54u8, 0x32u8];
    let tpe1_id = [0x54u8, 0x50u8, 0x45u8, 0x31u8];
    let talb_id = [0x54u8, 0x41u8, 0x4cu8, 0x42u8];
    let tcom_id = [0x54u8, 0x43u8, 0x4fu8, 0x4du8];
    let tcon_id = [0x54u8, 0x43u8, 0x4fu8, 0x4eu8];
    let tyer_id = [0x54u8, 0x59u8, 0x45u8, 0x52u8];
    let tdrc_id = [0x54u8, 0x44u8, 0x52u8, 0x43u8];
    assert(tit2_id@ =~= tit2() && tpe1_id@ =~= tpe1() && talb_id@ =~= talb());
    assert(tcom_id@ =~= tcom() && tcon_id@ =~= tcon() && tyer_id@ =~= tyer() && tdrc_id@ =~= tdrc());
    let ghost start = meta@;
    let mut pos: usize = 10;
    while pos < limit
        invariant
            limit <= data@.len(),
            scan_frames(data@, 10, limit as nat, start) == scan_frames(
                data@,
                pos as nat,
                limit as nat,
                meta@,
            ),
            tit2_id@ == tit2(),
            tpe1_id@ == tpe1(),
            talb_id@ == talb(),
            tcom_id@ == tcom(),
            tcon_id@ == tcon(),
            tyer_id@ == tyer(),
            tdrc_id@ == tdrc(),
        ensures
            scan_frames(data@, 10, limit as nat, start) == meta@,
        decreases limit - pos,
    {
        if limit - pos < 10 {
            break;
        }
        if data[pos] == 0 {
            break;
        }
        let fsize = read_be32(data, pos + 4) as usize;
        if fsize > limit - pos - 10 {
            break;
        }
        if fsize > 1 {
            let text = decode_text(data[pos + 10], slice_subrange(data, pos + 11, pos + 10 + fsize));
            if marker_at(data, pos, tit2_id.as_slice()) {
                meta.title = text;
            } else if marker_at(data, pos, tpe1_id.as_slice()) {
                meta.artist = text;
            } else if marker_at(data, pos, talb_id.as_slice()) {
                meta.album = text;
            } else if marker_at(data, pos, tcom_id.as_slice()) {
                meta.composer = text;
            } else if marker_at(data, pos, tcon_id.as_slice()) {
                meta.genre = text;
            } else if marker_at(data, pos, tyer_id.as_slice()) || marker_at(
                data,
                pos,
                tdrc_id.as_slice(),
            ) {
                meta.date_time = text;
            }
        }
        pos = pos + 10 + fsize;
    }
    if !meta.title.as_str().is_empty() || !meta.artist.as_str().is_empty() {
        meta.has_data = true;
    }
}

/// The tag of a DSF file: the eight little-endian bytes at offset 20 point to
/// it; without a pointer that lands inside the buffer there is none.
pub open spec fn extract_spec(d: Seq<u8>) -> ExtractedView {
    if d.len() >= 28 && occurs_at(d, 0, dsd_tag()) && 0 < le64(d, 20) < d.len() {
        id3_spec(d.subrange(le64(d, 20), d.len() as int), empty_view())
    } else {
        empty_view()
    }
}

pub fn get_file_metadata(file_data: &[u8]) -> (r: ExtractedMetadata)
    ensures
        r@ == extract_spec(file_data@),
{
    let mut meta = ExtractedMetadata::default();
    let dsd = [0x44u8, 0x53u8, 0x44u8, 0x20u8];
    assert(dsd@ =~= dsd_tag());
    if file_data.len() >= 28 && marker_at(file_data, 0, dsd.as_slice()) {
        let offset = read_le64(file_data, 20);
        if offset > 0 && offset < file_data.len() as u64 {
            parse_id3_simple(slice_subrange(file_data, offset as usize, file_data.len()), &mut meta);
        }
    }
    meta
}

/// A DSF file whose tag pointer is zero has no tag: every field is empty and
/// nothing is reported found.
pub proof fn lemma_null_tag_pointer(d: Seq<u8>)
    requires
        d.len() >= 28,
        occurs_at(d, 0, dsd_tag()),
        le64(d, 20) == 0,
    ensures
        extract_spec(d) == empty_view(),
{
}

} // verus!
