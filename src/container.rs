//! Telling input formats apart by their first four bytes, reading the DSF and
//! DSDIFF headers, and splitting concatenated mono files.
use vstd::prelude::*;
use vstd::slice::{slice_subrange, slice_to_vec};
use vstd::arithmetic::div_mod::lemma_fundamental_div_mod;
use crate::bytes::{
    be16, be32, find_marker, first_occurrence, le32, lemma_first_occurrence, marker_at, occurs_at, read_be16, read_be32,
    read_le32,
};
use crate::error::{Chunk, ConvertError, Field};
use crate::interleave::{channels_view, interleave_channels, interleaved, same_lengths};
use crate::layout::{create_default_channel_layout, default_layout};
use crate::params::{AudioParams, ParamsView};

verus! {

/// `DSD `: a DSF file, and in a DSDIFF file the chunk holding the audio.
pub open spec fn dsd_tag() -> Seq<u8> {
    seq![0x44u8, 0x53u8, 0x44u8, 0x20u8]
}

/// `FRM8`: a DSDIFF file.
pub open spec fn frm8_tag() -> Seq<u8> {
    seq![0x46u8, 0x52u8, 0x4du8, 0x38u8]
}

/// `RIFF`: a WAV file, which is refused.
pub open spec fn riff_tag() -> Seq<u8> {
    seq![0x52u8, 0x49u8, 0x46u8, 0x46u8]
}

/// `data`: the DSF data chunk.
pub open spec fn data_tag() -> Seq<u8> {
    seq![0x64u8, 0x61u8, 0x74u8, 0x61u8]
}

/// `FS  `: the DSDIFF sample-rate chunk.
pub open spec fn fs_tag() -> Seq<u8> {
    seq![0x46u8, 0x53u8, 0x20u8, 0x20u8]
}

/// `CHNL`: the DSDIFF channels chunk.
pub open spec fn chnl_tag() -> Seq<u8> {
    seq![0x43u8, 0x48u8, 0x4eu8, 0x4cu8]
}

/// Parameters read from a file header, with the default layout of the count.
pub open spec fn detected(fs: u32, ch: u8) -> ParamsView {
    ParamsView {
        sampling_frequency: Some(fs),
        channel_count: Some(ch),
        lfe_enabled: None,
        channel_layout: default_layout(ch),
        input_file_count: None,
    }
}

/// Where the DSF audio starts, and what the header says of it.
pub open spec fn dsf_spec(d: Seq<u8>) -> Result<(nat, ParamsView), ConvertError> {
    if d.len() < 92 {
        Err(ConvertError::FileTooSmall)
    } else {
        match first_occurrence(d, data_tag(), 0) {
            None => Err(ConvertError::MissingChunk(Chunk::Data)),
            Some(p) => if p + 12 >= d.len() {
                Err(ConvertError::DataPositionOutOfRange)
            } else {
                Ok((p + 12, detected(le32(d, 56) as u32, (le32(d, 52) % 256) as u8)))
            },
        }
    }
}

/// Where the DSDIFF audio starts, and what its chunks say of it; each chunk
/// is found by a plain scan of the whole buffer.
pub open spec fn dsdiff_spec(d: Seq<u8>) -> Result<(nat, ParamsView), ConvertError> {
    if d.len() < 28 {
        Err(ConvertError::FileTooSmall)
    } else {
        match first_occurrence(d, fs_tag(), 0) {
            None => Err(ConvertError::MissingChunk(Chunk::SampleRate)),
            Some(f) => if f + 16 > d.len() {
                Err(ConvertError::ChunkCorrupt(Chunk::SampleRate))
            } else {
                match first_occurrence(d, chnl_tag(), 0) {
                    None => Err(ConvertError::MissingChunk(Chunk::Channels)),
                    Some(c) => if c + 14 > d.len() {
                        Err(ConvertError::ChunkCorrupt(Chunk::Channels))
                    } else {
                        match first_occurrence(d, dsd_tag(), 13) {
                            None => Err(ConvertError::MissingChunk(Chunk::Sound)),
                            Some(s) => if s + 12 >= d.len() {
                                Err(ConvertError::DataPositionOutOfRange)
                            } else {
                                Ok(
                                    (
                                        s + 12,
                                        detected(
                                            be32(d, f + 12int) as u32,
                                            (be16(d, c + 12int) % 256) as u8,
                                        ),
                                    ),
                                )
                            },
                        }
                    },
                }
            },
        }
    }
}

pub open spec fn header_matches(
    r: Result<(usize, AudioParams), ConvertError>,
    s: Result<(nat, ParamsView), ConvertError>,
) -> bool {
    match r {
        Ok((o, p)) => s == Ok::<(nat, ParamsView), ConvertError>((o as nat, p@)),
        Err(e) => s == Err::<(nat, ParamsView), ConvertError>(e),
    }
}

pub fn parse_dsf_header(data: &[u8]) -> (r: Result<(usize, AudioParams), ConvertError>)
    ensures
        header_matches(r, dsf_spec(data@)),
{
    if data.len() < 92 {
        return Err(ConvertError::FileTooSmall);
    }
    let channel_count = (read_le32(data, 52) % 256) as u8;
    let sampling_rate = read_le32(data, 56);
    let mark = [0x64u8, 0x61u8, 0x74u8, 0x61u8];
    assert(mark@ =~= data_tag());
    let found = find_marker(data, mark.as_slice(), 0);
    proof {
        lemma_first_occurrence(data@, data_tag(), 0);
    }
    let p = match found {
        None => return Err(ConvertError::MissingChunk(Chunk::Data)),
        Some(p) => p,
    };
    if data.len() - p <= 12 {
        return Err(ConvertError::DataPositionOutOfRange);
    }
    let mut params = AudioParams::empty();
    params.sampling_frequency = Some(sampling_rate);
    params.channel_count = Some(channel_count);
    params.channel_layout = create_default_channel_layout(channel_count);
    Ok((p + 12, params))
}

pub fn parse_dsdiff_header(data: &[u8]) -> (r: Result<(usize, AudioParams), ConvertError>)
    ensures
        header_matches(r, dsdiff_spec(data@)),
{
    if data.len() < 28 {
        return Err(ConvertError::FileTooSmall);
    }
    let fs_mark = [0x46u8, 0x53u8, 0x20u8, 0x20u8];
    assert(fs_mark@ =~= fs_tag());
    proof {
        lemma_first_occurrence(data@, fs_tag(), 0);
    }
    let f = match find_marker(data, fs_mark.as_slice(), 0) {
        None => return Err(ConvertError::MissingChunk(Chunk::SampleRate)),
        Some(f) => f,
    };
    if data.len() - f < 16 {
        return Err(ConvertError::ChunkCorrupt(Chunk::SampleRate));
    }
    let sampling_rate = read_be32(data, f + 12);

    let chnl_mark = [0x43u8, 0x48u8, 0x4eu8, 0x4cu8];
    assert(chnl_mark@ =~= chnl_tag());
    proof {
        lemma_first_occurrence(data@, chnl_tag(), 0);
    }
    let c = match find_marker(data, chnl_mark.as_slice(), 0) {
        None => return Err(ConvertError::MissingChunk(Chunk::Channels)),
        Some(c) => c,
    };
    if data.len() - c < 14 {
        return Err(ConvertError::ChunkCorrupt(Chunk::Channels));
    }
    let channel_count = (read_be16(data, c + 12) % 256) as u8;

    let dsd_mark = [0x44u8, 0x53u8, 0x44u8, 0x20u8];
    assert(dsd_mark@ =~= dsd_tag());
    proof {
        lemma_first_occurrence(data@, dsd_tag(), 13);
    }
    let s = match find_marker(data, dsd_mark.as_slice(), 13) {
        None => return Err(ConvertError::MissingChunk(Chunk::Sound)),
        Some(s) => s,
    };
    if data.len() - s <= 12 {
        return Err(ConvertError::DataPositionOutOfRange);
    }
    let mut params = AudioParams::empty();
    params.sampling_frequency = Some(sampling_rate);
    params.channel_count = Some(channel_count);
    params.channel_layout = create_default_channel_layout(channel_count);
    Ok((s + 12, params))
}

/// The payload and parameters of a single file: DSF and DSDIFF are read from
/// their headers, RIFF is refused, and anything else is raw audio that needs
/// the rate and channel count from the caller.
pub open spec fn single_spec(d: Seq<u8>, p: ParamsView) -> Result<(Seq<u8>, ParamsView), ConvertError> {
    if d.len() < 4 {
        Err(ConvertError::FileTooSmall)
    } else if occurs_at(d, 0, dsd_tag()) {
        match dsf_spec(d) {
            Ok((o, q)) => Ok((d.subrange(o as int, d.len() as int), q)),
            Err(e) => Err(e),
        }
    } else if occurs_at(d, 0, frm8_tag()) {
        match dsdiff_spec(d) {
            Ok((o, q)) => Ok((d.subrange(o as int, d.len() as int), q)),
            Err(e) => Err(e),
        }
    } else if occurs_at(d, 0, riff_tag()) {
        Err(ConvertError::UnsupportedFormat)
    } else if p.sampling_frequency is None {
        Err(ConvertError::MissingRequiredField(Field::SamplingFrequency))
    } else if p.channel_count is None {
        Err(ConvertError::MissingRequiredField(Field::ChannelCount))
    } else {
        Ok((d, p))
    }
}

/// `d` cut into `n` equal consecutive parts.
pub open spec fn split(d: Seq<u8>, n: nat) -> Seq<Seq<u8>> {
    let l = d.len() / n;
    Seq::new(n, |j: int| d.subrange(j * l, (j + 1) * l))
}

/// Concatenated mono files of equal length, interleaved byte by byte; the
/// rate and channel count must be given.
pub open spec fn multi_spec(d: Seq<u8>, p: ParamsView, n: nat) -> Result<(Seq<u8>, ParamsView), ConvertError> {
    if p.sampling_frequency is None {
        Err(ConvertError::MissingRequiredField(Field::SamplingFrequency))
    } else if p.channel_count is None {
        Err(ConvertError::MissingRequiredField(Field::ChannelCount))
    } else if d.len() % n != 0 {
        Err(ConvertError::SizeNotDivisible { total: d.len() as usize, divisor: n as usize })
    } else {
        Ok((interleaved(split(d, n)), p))
    }
}

pub open spec fn payload_matches(
    r: Result<(Vec<u8>, AudioParams), ConvertError>,
    s: Result<(Seq<u8>, ParamsView), ConvertError>,
) -> bool {
    match r {
        Ok((v, p)) => s == Ok::<(Seq<u8>, ParamsView), ConvertError>((v@, p@)),
        Err(e) => s == Err::<(Seq<u8>, ParamsView), ConvertError>(e),
    }
}

fn copy_tail(data: &[u8], start: usize) -> (r: Vec<u8>)
    requires
        start <= data@.len(),
    ensures
        r@ == data@.subrange(start as int, data@.len() as int),
{
    slice_to_vec(slice_subrange(data, start, data.len()))
}

pub fn handle_single_file(file_data: &[u8], params: AudioParams) -> (r: Result<
    (Vec<u8>, AudioParams),
    ConvertError,
>)
    ensures
        payload_matches(r, single_spec(file_data@, params@)),
        r is Ok ==> r->Ok_0.0@.len() <= file_data@.len(),
{
    if file_data.len() < 4 {
        return Err(ConvertError::FileTooSmall);
    }
    let dsd = [0x44u8, 0x53u8, 0x44u8, 0x20u8];
    let frm8 = [0x46u8, 0x52u8, 0x4du8, 0x38u8];
    let riff = [0x52u8, 0x49u8, 0x46u8, 0x46u8];
    assert(dsd@ =~= dsd_tag());
    assert(frm8@ =~= frm8_tag());
    assert(riff@ =~= riff_tag());
    if marker_at(file_data, 0, dsd.as_slice()) {
        match parse_dsf_header(file_data) {
            Ok((o, p)) => Ok((copy_tail(file_data, o), p)),
            Err(e) => Err(e),
        }
    } else if marker_at(file_data, 0, frm8.as_slice()) {
        match parse_dsdiff_header(file_data) {
            Ok((o, p)) => Ok((copy_tail(file_data, o), p)),
            Err(e) => Err(e),
        }
    } else if marker_at(file_data, 0, riff.as_slice()) {
        Err(ConvertError::UnsupportedFormat)
    } else if params.sampling_frequency.is_none() {
        Err(ConvertError::MissingRequiredField(Field::SamplingFrequency))
    } else if params.channel_count.is_none() {
        Err(ConvertError::MissingRequiredField(Field::ChannelCount))
    } else {
        let v = copy_tail(file_data, 0);
        assert(v@ =~= file_data@);
        Ok((v, params))
    }
}

pub fn handle_multi_mono_files(file_data: &[u8], params: AudioParams, file_count: usize) -> (r: Result<
    (Vec<u8>, AudioParams),
    ConvertError,
>)
    requires
        file_count > 0,
    ensures
        payload_matches(r, multi_spec(file_data@, params@, file_count as nat)),
        r is Ok ==> r->Ok_0.0@.len() == file_data@.len(),
{
    if params.sampling_frequency.is_none() {
        return Err(ConvertError::MissingRequiredField(Field::SamplingFrequency));
    }
    if params.channel_count.is_none() {
        return Err(ConvertError::MissingRequiredField(Field::ChannelCount));
    }
    let total = file_data.len();
    if total % file_count != 0 {
        return Err(ConvertError::SizeNotDivisible { total, divisor: file_count });
    }
    let per_channel = total / file_count;
    let ghost n = file_count as int;
    let ghost l = per_channel as int;
    proof {
        lemma_fundamental_div_mod(total as int, n);
        assert(total == n * l);
    }
    let mut channels: Vec<Vec<u8>> = Vec::new();
    let mut j: usize = 0;
    while j < file_count
        invariant
            j <= file_count,
            n == file_count,
            l == per_channel,
            total == file_data@.len(),
            total == n * l,
            file_data@.len() / (n as nat) == l,
            channels@.len() == j,
            forall|k: int| 0 <= k < j ==> #[trigger] channels@[k]@ == split(file_data@, n as nat)[k],
        decreases file_count - j,
    {
        assert((j + 1) * l <= n * l) by (nonlinear_arith)
            requires
                j < n,
                l >= 0,
        ;
        assert((j + 1) * l == j * l + l) by (nonlinear_arith);
        let start = j * per_channel;
        let c = slice_to_vec(slice_subrange(file_data, start, start + per_channel));
        assert(c@ == split(file_data@, n as nat)[j as int]);
        channels.push(c);
        j += 1;
    }
    let ghost chs = channels_view(channels@);
    assert(chs =~= split(file_data@, n as nat));
    assert forall|k: int| 0 <= k < chs.len() implies #[trigger] chs[k].len() == chs[0].len() by {
        assert(chs[k] == split(file_data@, n as nat)[k]);
        assert(chs[0] == split(file_data@, n as nat)[0]);
        assert(0 * l == 0 && (0 + 1) * l == l) by (nonlinear_arith);
        assert(split(file_data@, n as nat)[k] == file_data@.subrange(k * l, (k + 1) * l));
        assert(split(file_data@, n as nat)[0] == file_data@.subrange(0, l));
        assert((k + 1) * l == k * l + l) by (nonlinear_arith);
        assert(k * l + l <= n * l) by (nonlinear_arith)
            requires
                k < n,
                l >= 0,
        ;
        assert(0 <= k * l) by (nonlinear_arith)
            requires
                0 <= k,
                l >= 0,
        ;
    }
    assert(same_lengths(chs));
    assert(chs[0].len() == l);
    let out = interleave_channels(&channels);
    assert(out@.len() == n * l);
    Ok((out, params))
}

} // verus!
