use wsd_logic::convert::process_audio;
use wsd_logic::error::{Chunk, ConvertError, Field};
use wsd_logic::params::{AudioParams, Metadata};
use wsd_logic::wsd::create_wsd_file;

fn raw_params(fs: Option<u32>, ch: Option<u8>) -> AudioParams {
    let mut p = AudioParams::empty();
    p.sampling_frequency = fs;
    p.channel_count = ch;
    p
}

fn dsf_file(channels: u32, rate: u32, payload: &[u8]) -> Vec<u8> {
    let mut d = vec![0u8; 80];
    d[0..4].copy_from_slice(b"DSD ");
    d[52..56].copy_from_slice(&channels.to_le_bytes());
    d[56..60].copy_from_slice(&rate.to_le_bytes());
    d.extend_from_slice(b"data");
    d.extend_from_slice(&[0u8; 8]);
    d.extend_from_slice(payload);
    d
}

fn dsdiff_file(rate: u32, channels: u16, payload: &[u8]) -> Vec<u8> {
    let mut d = Vec::new();
    d.extend_from_slice(b"FRM8");
    d.extend_from_slice(&[0u8; 8]);
    d.extend_from_slice(b"DSD ");
    d.extend_from_slice(b"FS  ");
    d.extend_from_slice(&[0u8; 8]);
    d.extend_from_slice(&rate.to_be_bytes());
    d.extend_from_slice(b"CHNL");
    d.extend_from_slice(&[0u8; 8]);
    d.extend_from_slice(&channels.to_be_bytes());
    d.extend_from_slice(b"DSD ");
    d.extend_from_slice(&[0u8; 8]);
    d.extend_from_slice(payload);
    d
}

#[test]
fn raw_eight_bytes_end_to_end() {
    let input = vec![1u8, 2, 3, 4, 5, 6, 7, 8];
    let out = process_audio(&input, &Metadata::empty(), raw_params(Some(2822400), Some(1))).unwrap();
    assert_eq!(out.len(), 2056);
    assert_eq!(&out[0..4], b"1bit");
    assert_eq!(&out[2048..], &input[..]);
}

#[test]
fn general_info_fields() {
    let input = vec![9u8; 8];
    let out = process_audio(&input, &Metadata::empty(), raw_params(Some(2822400), Some(1))).unwrap();
    assert_eq!(&out[4..12], &[0, 0, 0, 0, 0x11, 0, 0, 0]);
    assert_eq!(&out[12..20], &[0, 0, 0, 0, 0, 0, 0x08, 0x08]);
    assert_eq!(&out[20..32], &[0, 0, 0, 0x80, 0, 0, 0x08, 0, 0, 0, 0, 0]);
    assert_eq!(&out[36..40], &2822400u32.to_be_bytes());
    assert_eq!(&out[40..48], &[0, 0, 0, 0, 1, 0, 0, 0]);
    assert_eq!(out[48], 0x01);
    assert_eq!(out[51], 0x01);
    assert!(out[52..128].iter().all(|&b| b == 0));
    assert!(out[128..2048].iter().all(|&b| b == 0x20));
}

#[test]
fn output_length_is_header_plus_payload() {
    for n in [0usize, 1, 7, 100, 4096] {
        let input = vec![0xAAu8; n];
        let out = create_wsd_file(&input, &Metadata::empty(), &raw_params(Some(44100), Some(2))).unwrap();
        assert_eq!(out.len(), 2048 + n);
    }
    let out = process_audio(&[0xAA; 7], &Metadata::empty(), raw_params(Some(44100), Some(2))).unwrap();
    assert_eq!(out.len(), 2055);
}

#[test]
fn duration_of_125_seconds_in_bcd() {
    let payload = vec![0u8; 689_063];
    let out = create_wsd_file(&payload, &Metadata::empty(), &raw_params(Some(44100), Some(1))).unwrap();
    assert_eq!(out[32], 0);
    assert_eq!(out[33], 0x05);
    assert_eq!(out[34], 0x02);
    assert_eq!(out[35], 0x00);
}

#[test]
fn duration_over_an_hour() {
    // 3725 seconds at 8 bits per second: 1 h 2 min 5 s
    let payload = vec![0u8; 3725];
    let out = create_wsd_file(&payload, &Metadata::empty(), &raw_params(Some(8), Some(1))).unwrap();
    assert_eq!(&out[33..36], &[0x05, 0x02, 0x01]);
}

#[test]
fn title_of_130_characters_is_cut_to_128() {
    let mut meta = Metadata::empty();
    meta.title = Some("a".repeat(130));
    let out = process_audio(&[1, 2, 3, 4], &meta, raw_params(Some(44100), Some(1))).unwrap();
    assert!(out[128..256].iter().all(|&b| b == b'a'));
    assert!(out[256..384].iter().all(|&b| b == 0x20));
}

#[test]
fn title_of_5_characters_is_padded() {
    let mut meta = Metadata::empty();
    meta.title = Some("Hello".to_string());
    let out = process_audio(&[1, 2, 3, 4], &meta, raw_params(Some(44100), Some(1))).unwrap();
    assert_eq!(&out[128..133], b"Hello");
    assert!(out[133..256].iter().all(|&b| b == 0x20));
}

#[test]
fn text_fields_at_their_offsets() {
    let mut meta = Metadata::empty();
    meta.composer = Some("C".to_string());
    meta.song_writer = Some("S".to_string());
    meta.artist = Some("A".to_string());
    meta.album = Some("L".to_string());
    meta.genre = Some("G".to_string());
    meta.date_time = Some("D".to_string());
    meta.location = Some("P".to_string());
    meta.comment = Some("M".to_string());
    meta.user_specific = Some("U".to_string());
    let out = process_audio(&[1, 2, 3, 4], &meta, raw_params(Some(44100), Some(1))).unwrap();
    assert_eq!(out[256], b'C');
    assert_eq!(out[384], b'S');
    assert_eq!(out[512], b'A');
    assert_eq!(out[640], b'L');
    assert_eq!(out[768], b'G');
    assert_eq!(out[800], b'D');
    assert_eq!(out[832], b'P');
    assert_eq!(out[864], b'M');
    assert_eq!(out[1376], b'U');
    assert_eq!(out[1377], 0x20);
    assert!(out[1888..2048].iter().all(|&b| b == 0x20));
}

#[test]
fn riff_input_is_unsupported() {
    let mut input = b"RIFF".to_vec();
    input.extend_from_slice(&[0u8; 40]);
    let r = process_audio(&input, &Metadata::empty(), raw_params(Some(44100), Some(2)));
    assert_eq!(r, Err(ConvertError::UnsupportedFormat));
    let r = process_audio(b"RIFF", &Metadata::empty(), AudioParams::empty());
    assert_eq!(r, Err(ConvertError::UnsupportedFormat));
}

#[test]
fn short_input_is_too_small() {
    let r = process_audio(&[1, 2, 3], &Metadata::empty(), raw_params(Some(44100), Some(1)));
    assert_eq!(r, Err(ConvertError::FileTooSmall));
}

#[test]
fn raw_input_needs_rate_and_channels() {
    let r = process_audio(&[1, 2, 3, 4], &Metadata::empty(), raw_params(None, Some(1)));
    assert_eq!(r, Err(ConvertError::MissingRequiredField(Field::SamplingFrequency)));
    let r = process_audio(&[1, 2, 3, 4], &Metadata::empty(), raw_params(Some(44100), None));
    assert_eq!(r, Err(ConvertError::MissingRequiredField(Field::ChannelCount)));
}

#[test]
fn multi_mono_is_interleaved() {
    let mut p = raw_params(Some(2822400), Some(2));
    p.input_file_count = Some(2);
    let out = process_audio(&[1, 2, 3, 4, 5, 6], &Metadata::empty(), p).unwrap();
    assert_eq!(&out[2048..], &[1, 4, 2, 5, 3, 6]);
}

#[test]
fn multi_mono_size_not_divisible() {
    let mut p = raw_params(Some(2822400), Some(3));
    p.input_file_count = Some(3);
    let r = process_audio(&[0u8; 10], &Metadata::empty(), p);
    assert_eq!(r, Err(ConvertError::SizeNotDivisible { total: 10, divisor: 3 }));
}

#[test]
fn multi_mono_needs_parameters() {
    let mut p = raw_params(None, Some(2));
    p.input_file_count = Some(2);
    let r = process_audio(&[0u8; 10], &Metadata::empty(), p);
    assert_eq!(r, Err(ConvertError::MissingRequiredField(Field::SamplingFrequency)));
    let mut p = raw_params(Some(44100), None);
    p.input_file_count = Some(2);
    let r = process_audio(&[0u8; 10], &Metadata::empty(), p);
    assert_eq!(r, Err(ConvertError::MissingRequiredField(Field::ChannelCount)));
}

#[test]
fn dsf_header_is_read() {
    let input = dsf_file(2, 2822400, &[7, 8, 9]);
    let out = process_audio(&input, &Metadata::empty(), AudioParams::empty()).unwrap();
    assert_eq!(out.len(), 2051);
    assert_eq!(&out[2048..], &[7, 8, 9]);
    assert_eq!(&out[36..40], &2822400u32.to_be_bytes());
    assert_eq!(out[44], 2);
    // stereo default: lf and rf
    assert_eq!(out[48], 0x01 | 0x40 | 0x04);
    assert_eq!(out[51], 0x01);
}

#[test]
fn dsf_mono_defaults_to_centre() {
    let input = dsf_file(1, 2822400, &[7]);
    let out = process_audio(&input, &Metadata::empty(), AudioParams::empty()).unwrap();
    assert_eq!(out[48], 0x01 | 0x10);
}

#[test]
fn dsf_errors() {
    let mut short = b"DSD ".to_vec();
    short.extend_from_slice(&[0u8; 80]);
    let r = process_audio(&short, &Metadata::empty(), AudioParams::empty());
    assert_eq!(r, Err(ConvertError::FileTooSmall));

    let mut no_data = b"DSD ".to_vec();
    no_data.extend_from_slice(&[0u8; 100]);
    let r = process_audio(&no_data, &Metadata::empty(), AudioParams::empty());
    assert_eq!(r, Err(ConvertError::MissingChunk(Chunk::Data)));

    let at_end = dsf_file(2, 2822400, &[]);
    let r = process_audio(&at_end, &Metadata::empty(), AudioParams::empty());
    assert_eq!(r, Err(ConvertError::DataPositionOutOfRange));
}

#[test]
fn dsdiff_header_is_read() {
    let input = dsdiff_file(5644800, 1, &[1, 2, 3, 4, 5, 6]);
    let out = process_audio(&input, &Metadata::empty(), AudioParams::empty()).unwrap();
    assert_eq!(&out[2048..], &[1, 2, 3, 4, 5, 6]);
    assert_eq!(&out[36..40], &5644800u32.to_be_bytes());
    assert_eq!(out[44], 1);
    assert_eq!(out[48], 0x11);
}

#[test]
fn dsdiff_errors() {
    let mut no_fs = b"FRM8".to_vec();
    no_fs.extend_from_slice(&[0u8; 30]);
    let r = process_audio(&no_fs, &Metadata::empty(), AudioParams::empty());
    assert_eq!(r, Err(ConvertError::MissingChunk(Chunk::SampleRate)));

    let mut fs_cut = b"FRM8".to_vec();
    fs_cut.extend_from_slice(&[0u8; 30]);
    fs_cut.extend_from_slice(b"FS  ");
    fs_cut.extend_from_slice(&[0u8; 4]);
    let r = process_audio(&fs_cut, &Metadata::empty(), AudioParams::empty());
    assert_eq!(r, Err(ConvertError::ChunkCorrupt(Chunk::SampleRate)));

    let mut no_chnl = b"FRM8".to_vec();
    no_chnl.extend_from_slice(&[0u8; 30]);
    no_chnl.extend_from_slice(b"FS  ");
    no_chnl.extend_from_slice(&[0u8; 12]);
    let r = process_audio(&no_chnl, &Metadata::empty(), AudioParams::empty());
    assert_eq!(r, Err(ConvertError::MissingChunk(Chunk::Channels)));

    let mut chnl_cut = no_chnl.clone();
    chnl_cut.extend_from_slice(b"CHNL");
    chnl_cut.extend_from_slice(&[0u8; 8]);
    let r = process_audio(&chnl_cut, &Metadata::empty(), AudioParams::empty());
    assert_eq!(r, Err(ConvertError::ChunkCorrupt(Chunk::Channels)));

    let mut no_sound = no_chnl.clone();
    no_sound.extend_from_slice(b"CHNL");
    no_sound.extend_from_slice(&[0u8; 10]);
    let r = process_audio(&no_sound, &Metadata::empty(), AudioParams::empty());
    assert_eq!(r, Err(ConvertError::MissingChunk(Chunk::Sound)));

    let mut sound_at_end = no_sound.clone();
    sound_at_end.extend_from_slice(b"DSD ");
    sound_at_end.extend_from_slice(&[0u8; 8]);
    let r = process_audio(&sound_at_end, &Metadata::empty(), AudioParams::empty());
    assert_eq!(r, Err(ConvertError::DataPositionOutOfRange));

    let short = b"FRM8xxxxxxxx".to_vec();
    let r = process_audio(&short, &Metadata::empty(), AudioParams::empty());
    assert_eq!(r, Err(ConvertError::FileTooSmall));
}

#[test]
fn given_layout_sets_flags() {
    let mut p = raw_params(Some(2822400), Some(4));
    p.channel_layout = Some(vec!["lf".to_string(), "rf".to_string(), "lfe".to_string(), "cr".to_string(), "xx".to_string()]);
    let out = process_audio(&[0u8; 8], &Metadata::empty(), p).unwrap();
    assert_eq!(out[48], 0x01 | 0x40 | 0x04 | 0x02);
    assert_eq!(out[51], 0x01 | 0x10);
}

#[test]
fn encoder_needs_parameters() {
    let r = create_wsd_file(&[1, 2], &Metadata::empty(), &raw_params(None, Some(1)));
    assert_eq!(r, Err(ConvertError::MissingRequiredField(Field::SamplingFrequency)));
    let r = create_wsd_file(&[1, 2], &Metadata::empty(), &raw_params(Some(1), None));
    assert_eq!(r, Err(ConvertError::MissingRequiredField(Field::ChannelCount)));
}
