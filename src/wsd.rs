//! The WSD container: a fixed 2048-byte header followed by the audio.
use vstd::prelude::*;
use vstd::utf8::encode_utf8;
use crate::error::{ConvertError, Field};
use crate::layout::{front_channel_flags, front_flags, rear_channel_flags, rear_flags};
use crate::params::{AudioParams, Metadata, ParamsView, layout_view};

verus! {

/// Size of the header that precedes the audio.
pub const HEADER_LEN: usize = 2048;

/// Two decimal digits packed as `(tens << 4) | ones`, kept to one byte.
pub open spec fn bcd(v: u8) -> u8 {
    (((v / 10) as int * 16 + (v % 10) as int) % 256) as u8
}

/// Seconds, minutes and hours of `n` bytes of 1-bit audio, each cut toward
/// zero from the exact duration; hours stop at 255. With no rate at all an
/// empty payload lasts nothing and any other lasts 255 hours.
pub open spec fn duration_fields(n: nat, fs: u32, ch: u8) -> (u8, u8, u8) {
    let rate = fs as int * ch as int;
    if rate == 0 {
        if n == 0 {
            (0, 0, 0)
        } else {
            (0, 0, 255)
        }
    } else {
        let t = (n * 8) as int / rate;
        ((t % 60) as u8, ((t % 3600) / 60) as u8, if t / 3600 > 255 {
            255
        } else {
            (t / 3600) as u8
        })
    }
}

/// The big-endian bytes of a 32-bit value.
pub open spec fn be32_bytes(v: int) -> Seq<u8> {
    seq![
        (v / 0x100_0000 % 256) as u8,
        (v / 0x1_0000 % 256) as u8,
        (v / 0x100 % 256) as u8,
        (v % 256) as u8,
    ]
}

/// The eight big-endian bytes of a value, taken modulo 2^64.
pub open spec fn be64_bytes(v: int) -> Seq<u8> {
    be32_bytes(v / 0x1_0000_0000 % 0x1_0000_0000) + be32_bytes(v % 0x1_0000_0000)
}

pub open spec fn zeros(k: nat) -> Seq<u8> {
    Seq::new(k, |i: int| 0u8)
}

/// `b` cut to `w` bytes, or filled up to `w` with spaces.
pub open spec fn pad(b: Seq<u8>, w: nat) -> Seq<u8> {
    Seq::new(w, |i: int| if i < b.len() { b[i] } else { 0x20u8 })
}

/// The UTF-8 bytes of a text field; an absent one has none.
pub open spec fn field_bytes(o: Option<String>) -> Seq<u8> {
    match o {
        Some(s) => encode_utf8(s@),
        None => Seq::empty(),
    }
}

/// Marker, version, total file size and header offsets.
pub open spec fn general_info(n: nat) -> Seq<u8> {
    seq![0x31u8, 0x62u8, 0x69u8, 0x74u8, 0u8, 0u8, 0u8, 0u8, 0x11u8, 0u8, 0u8, 0u8] + be64_bytes(
        2048 + n as int,
    ) + seq![0u8, 0u8, 0u8, 0x80u8, 0u8, 0u8, 0x08u8, 0u8, 0u8, 0u8, 0u8, 0u8]
}

/// Playing time in BCD, sampling frequency and channel count.
pub open spec fn data_spec_info(n: nat, fs: u32, ch: u8) -> Seq<u8> {
    let (s, m, h) = duration_fields(n, fs, ch);
    seq![0u8, bcd(s), bcd(m), bcd(h)] + be32_bytes(fs as int) + seq![0u8, 0u8, 0u8, 0u8, ch, 0u8, 0u8, 0u8]
}

/// The two channel-assignment bytes and the reserved space after them.
pub open spec fn channel_info(l: Option<Seq<Seq<char>>>) -> Seq<u8> {
    seq![front_flags(l), 0u8, 0u8, rear_flags(l)] + zeros(76)
}

/// The ten text fields at their fixed widths, then 160 spaces.
pub open spec fn text_info(m: Metadata) -> Seq<u8> {
    pad(field_bytes(m.title), 128) + pad(field_bytes(m.composer), 128) + pad(
        field_bytes(m.song_writer),
        128,
    ) + pad(field_bytes(m.artist), 128) + pad(field_bytes(m.album), 128) + pad(
        field_bytes(m.genre),
        32,
    ) + pad(field_bytes(m.date_time), 32) + pad(field_bytes(m.location), 32) + pad(
        field_bytes(m.comment),
        512,
    ) + pad(field_bytes(m.user_specific), 512) + Seq::new(160, |i: int| 0x20u8)
}

pub open spec fn wsd_header(n: nat, fs: u32, ch: u8, l: Option<Seq<Seq<char>>>, m: Metadata) -> Seq<u8> {
    general_info(n) + data_spec_info(n, fs, ch) + channel_info(l) + text_info(m)
}

/// The WSD file of a payload, or the parameter that it lacks.
pub open spec fn encode_spec(payload: Seq<u8>, m: Metadata, p: ParamsView) -> Result<Seq<u8>, ConvertError> {
    match (p.sampling_frequency, p.channel_count) {
        (None, _) => Err(ConvertError::MissingRequiredField(Field::SamplingFrequency)),
        (Some(_), None) => Err(ConvertError::MissingRequiredField(Field::ChannelCount)),
        (Some(fs), Some(ch)) => Ok(
            wsd_header(payload.len(), fs, ch, p.channel_layout, m) + payload,
        ),
    }
}

pub fn to_bcd(val: u8) -> (r: u8)
    ensures
        r == bcd(val),
{
    (((val / 10) as u32 * 16 + (val % 10) as u32) % 256) as u8
}

fn duration(n: usize, fs: u32, ch: u8) -> (r: (u8, u8, u8))
    ensures
        r == duration_fields(n as nat, fs, ch),
{
    assert(fs as int * ch as int <= 0x1_0000_0000 * 0x100) by (nonlinear_arith)
        requires
            fs <= 0xffff_ffff,
            ch <= 0xff,
    ;
    assert(0 <= fs as int * ch as int) by (nonlinear_arith);
    let rate: u128 = fs as u128 * ch as u128;
    if rate == 0 {
        if n == 0 {
            (0, 0, 0)
        } else {
            (0, 0, 255)
        }
    } else {
        let t: u128 = n as u128 * 8 / rate;
        let hours = t / 3600;
        ((t % 60) as u8, ((t % 3600) / 60) as u8, if hours > 255 {
            255
        } else {
            hours as u8
        })
    }
}

fn push4(out: &mut Vec<u8>, a: u8, b: u8, c: u8, d: u8)
    ensures
        final(out)@ == old(out)@ + seq![a, b, c, d],
{
    out.push(a);
    out.push(b);
    out.push(c);
    out.push(d);
    assert(out@ =~= old(out)@ + seq![a, b, c, d]);
}

fn push_be32(out: &mut Vec<u8>, v: u32)
    ensures
        final(out)@ == old(out)@ + be32_bytes(v as int),
{
    push4(
        out,
        (v / 0x100_0000 % 256) as u8,
        (v / 0x1_0000 % 256) as u8,
        (v / 0x100 % 256) as u8,
        (v % 256) as u8,
    );
}

/// Appends `count` copies of `byte`.
fn push_fill(out: &mut Vec<u8>, byte: u8, count: usize)
    ensures
        final(out)@ == old(out)@ + Seq::new(count as nat, |i: int| byte),
{
    let mut i: usize = 0;
    while i < count
        invariant
            i <= count,
            out@ == old(out)@ + Seq::new(i as nat, |k: int| byte),
        decreases count - i,
    {
        out.push(byte);
        i += 1;
        assert(out@ =~= old(out)@ + Seq::new(i as nat, |k: int| byte));
    }
}

/// Appends a text field at exactly `width` bytes.
fn push_field(out: &mut Vec<u8>, text: &Option<String>, width: usize)
    ensures
        final(out)@ == old(out)@ + pad(field_bytes(*text), width as nat),
{
    match text {
        None => {
            push_fill(out, 0x20, width);
            assert(pad(field_bytes(*text), width as nat) =~= Seq::new(width as nat, |i: int| 0x20u8));
        },
        Some(s) => {
            let b = s.as_str().as_bytes();
            let ghost bs = field_bytes(*text);
            assert(b@ == bs);
            let mut i: usize = 0;
            while i < width
                invariant
                    i <= width,
                    b@ == bs,
                    out@ == old(out)@ + pad(bs, i as nat),
                decreases width - i,
            {
                if i < b.len() {
                    out.push(b[i]);
                } else {
                    out.push(0x20);
                }
                i += 1;
                assert(out@ =~= old(out)@ + pad(bs, i as nat));
            }
        },
    }
}

pub fn create_text_data(output: &mut Vec<u8>, metadata: &Metadata)
    ensures
        final(output)@ == old(output)@ + text_info(*metadata),
{
    push_field(output, &metadata.title, 128);
    push_field(output, &metadata.composer, 128);
    push_field(output, &metadata.song_writer, 128);
    push_field(output, &metadata.artist, 128);
    push_field(output, &metadata.album, 128);
    push_field(output, &metadata.genre, 32);
    push_field(output, &metadata.date_time, 32);
    push_field(output, &metadata.location, 32);
    push_field(output, &metadata.comment, 512);
    push_field(output, &metadata.user_specific, 512);
    push_fill(output, 0x20, 160);
    assert(output@ =~= old(output)@ + text_info(*metadata));
}

pub open spec fn encoded_matches(r: Result<Vec<u8>, ConvertError>, s: Result<Seq<u8>, ConvertError>) -> bool {
    match r {
        Ok(v) => s == Ok::<Seq<u8>, ConvertError>(v@),
        Err(e) => s == Err::<Seq<u8>, ConvertError>(e),
    }
}

/// Builds the WSD file: header, then `stream_data` unchanged.
pub fn create_wsd_file(stream_data: &[u8], metadata: &Metadata, params: &AudioParams) -> (r: Result<
    Vec<u8>,
    ConvertError,
>)
    ensures
        encoded_matches(r, encode_spec(stream_data@, *metadata, params@)),
        r is Ok ==> r->Ok_0@.len() == HEADER_LEN + stream_data@.len(),
{
    let fs = match params.sampling_frequency {
        None => return Err(ConvertError::MissingRequiredField(Field::SamplingFrequency)),
        Some(fs) => fs,
    };
    let ch = match params.channel_count {
        None => return Err(ConvertError::MissingRequiredField(Field::ChannelCount)),
        Some(ch) => ch,
    };
    let n = stream_data.len();
    let ghost l = layout_view(params.channel_layout);
    let mut output: Vec<u8> = Vec::new();

    push4(&mut output, 0x31, 0x62, 0x69, 0x74);
    push4(&mut output, 0, 0, 0, 0);
    push4(&mut output, 0x11, 0, 0, 0);
    let file_size: u128 = 2048 + n as u128;
    push_be32(&mut output, (file_size / 0x1_0000_0000 % 0x1_0000_0000) as u32);
    push_be32(&mut output, (file_size % 0x1_0000_0000) as u32);
    push4(&mut output, 0, 0, 0, 0x80);
    push4(&mut output, 0, 0, 0x08, 0);
    push4(&mut output, 0, 0, 0, 0);
    assert(output@ =~= general_info(n as nat));

    let (secs, mins, hours) = duration(n, fs, ch);
    push4(&mut output, 0, to_bcd(secs), to_bcd(mins), to_bcd(hours));
    push_be32(&mut output, fs);
    push4(&mut output, 0, 0, 0, 0);
    push4(&mut output, ch, 0, 0, 0);
    assert(output@ =~= general_info(n as nat) + data_spec_info(n as nat, fs, ch));

    let front = front_channel_flags(&params.channel_layout);
    let rear = rear_channel_flags(&params.channel_layout);
    push4(&mut output, front, 0, 0, rear);
    push_fill(&mut output, 0, 76);
    assert(output@ =~= general_info(n as nat) + data_spec_info(n as nat, fs, ch) + channel_info(l));

    create_text_data(&mut output, metadata);
    let ghost header = output@;
    assert(header =~= wsd_header(n as nat, fs, ch, l, *metadata));
    let mut i: usize = 0;
    while i < n
        invariant
            i <= n,
            n == stream_data@.len(),
            output@ == header + stream_data@.subrange(0, i as int),
        decreases n - i,
    {
        output.push(stream_data[i]);
        i += 1;
        assert(output@ =~= header + stream_data@.subrange(0, i as int));
    }
    assert(stream_data@.subrange(0, n as int) =~= stream_data@);
    Ok(output)
}

/// Every WSD file is its 2048-byte header followed by the payload, so its
/// length is 2048 plus the payload's.
pub proof fn lemma_wsd_length(payload: Seq<u8>, m: Metadata, p: ParamsView)
    requires
        p.sampling_frequency is Some,
        p.channel_count is Some,
    ensures
        encode_spec(payload, m, p) is Ok,
        encode_spec(payload, m, p)->Ok_0.len() == 2048 + payload.len(),
        encode_spec(payload, m, p)->Ok_0.subrange(2048, 2048 + payload.len() as int) == payload,
{
    let r = encode_spec(payload, m, p)->Ok_0;
    let h = wsd_header(
        payload.len(),
        p.sampling_frequency->Some_0,
        p.channel_count->Some_0,
        p.channel_layout,
        m,
    );
    assert(h.len() == 2048);
    assert(r.subrange(2048, 2048 + payload.len() as int) =~= payload);
}

} // verus!
