use wsd_logic::id3::{decode_text, get_file_metadata, synchsafe_to_u32};
use wsd_logic::interleave::interleave_channels;
use wsd_logic::layout::{create_default_channel_layout, front_channel_flags, rear_channel_flags};
use wsd_logic::wsd::to_bcd;

#[test]
fn interleave_three_channels() {
    let chs = vec![vec![1u8, 2], vec![3u8, 4], vec![5u8, 6]];
    assert_eq!(interleave_channels(&chs), vec![1, 3, 5, 2, 4, 6]);
}

#[test]
fn interleave_nothing() {
    let chs: Vec<Vec<u8>> = Vec::new();
    assert!(interleave_channels(&chs).is_empty());
}

#[test]
fn default_layouts() {
    assert_eq!(create_default_channel_layout(1), Some(vec!["cf".to_string()]));
    assert_eq!(create_default_channel_layout(2), Some(vec!["lf".to_string(), "rf".to_string()]));
    assert_eq!(create_default_channel_layout(0), None);
    assert_eq!(create_default_channel_layout(3), None);
    assert_eq!(create_default_channel_layout(6), None);
}

#[test]
fn all_front_and_rear_positions() {
    let l: Vec<String> = ["lf", "lf-middle", "cf", "rf-middle", "rf", "lfe", "lr", "lr-middle", "cr", "rr-middle", "rr"]
        .iter()
        .map(|s| s.to_string())
        .collect();
    assert_eq!(front_channel_flags(&Some(l.clone())), 0x7f);
    assert_eq!(rear_channel_flags(&Some(l)), 0x7d);
    assert_eq!(front_channel_flags(&None), 0x01);
    assert_eq!(rear_channel_flags(&None), 0x01);
}

#[test]
fn bcd_values() {
    assert_eq!(to_bcd(0), 0x00);
    assert_eq!(to_bcd(5), 0x05);
    assert_eq!(to_bcd(59), 0x59);
    assert_eq!(to_bcd(99), 0x99);
}

#[test]
fn synchsafe_257() {
    assert_eq!(synchsafe_to_u32([0x00, 0x00, 0x02, 0x01]), 257);
    assert_eq!(synchsafe_to_u32([0x7f, 0x7f, 0x7f, 0x7f]), 0x0fff_ffff);
}

#[test]
fn text_stops_at_nul() {
    assert_eq!(decode_text(0, b"abc\0def"), "abc");
    assert_eq!(decode_text(3, "caf\u{e9}".as_bytes()), "caf\u{e9}");
    assert_eq!(decode_text(0, &[0x61, 0xff]), "a\u{fffd}");
    assert_eq!(decode_text(1, &[0xff, 0xfe, 0x42, 0x30]), "\u{feff}\u{3042}");
    assert_eq!(decode_text(1, &[0x41]), "");
    assert_eq!(decode_text(1, &[]), "");
}

#[test]
fn utf16_text_stops_at_zero_unit() {
    assert_eq!(decode_text(1, &[0xff, 0xfe, 0x41, 0x00, 0x42, 0x00]), "\u{feff}AB");
    assert_eq!(decode_text(1, &[0xff, 0xfe, 0x41, 0x00, 0x42, 0x00, 0x00, 0x00, 0x43, 0x00]), "\u{feff}AB");
    assert_eq!(decode_text(1, &[0x00, 0x01, 0x41, 0x00]), "\u{100}A");
    assert_eq!(decode_text(1, &[0x41, 0x00, 0x42]), "A");
}

fn dsf_with_tag(tag: &[u8]) -> Vec<u8> {
    let mut d = vec![0u8; 40];
    d[0..4].copy_from_slice(b"DSD ");
    d[20..28].copy_from_slice(&40u64.to_le_bytes());
    d.extend_from_slice(tag);
    d
}

fn frame(id: &[u8], content: &[u8]) -> Vec<u8> {
    let mut f = id.to_vec();
    f.extend_from_slice(&(content.len() as u32).to_be_bytes());
    f.extend_from_slice(&[0, 0]);
    f.extend_from_slice(content);
    f
}

fn tag(frames: &[Vec<u8>]) -> Vec<u8> {
    let body: Vec<u8> = frames.concat();
    let mut t = b"ID3".to_vec();
    t.extend_from_slice(&[4, 0, 0]);
    let n = body.len() as u32;
    t.extend_from_slice(&[(n >> 21) as u8 & 0x7f, (n >> 14) as u8 & 0x7f, (n >> 7) as u8 & 0x7f, n as u8 & 0x7f]);
    t.extend_from_slice(&body);
    t
}

#[test]
fn zero_tag_pointer_gives_nothing() {
    let mut d = vec![0u8; 60];
    d[0..4].copy_from_slice(b"DSD ");
    let m = get_file_metadata(&d);
    assert!(!m.has_data);
    assert_eq!(m.title, "");
    assert_eq!(m.artist, "");
    assert_eq!(m.album, "");
    assert_eq!(m.composer, "");
    assert_eq!(m.genre, "");
    assert_eq!(m.date_time, "");
}

#[test]
fn tag_frames_are_read() {
    let t = tag(&[
        frame(b"TIT2", b"\x00Song"),
        frame(b"TPE1", b"\x03Band\x00"),
        frame(b"TALB", &[1, 0xff, 0xfe, 0x42, 0x30]),
        frame(b"TCOM", &[1, 0xff, 0xfe, 0x41, 0x00, 0x42, 0x00, 0x00, 0x00]),
        frame(b"TCON", b"\x00Jazz"),
        frame(b"TYER", b"\x002024"),
        frame(b"XXXX", b"\x00ignored"),
    ]);
    let m = get_file_metadata(&dsf_with_tag(&t));
    assert!(m.has_data);
    assert_eq!(m.title, "Song");
    assert_eq!(m.artist, "Band");
    assert_eq!(m.album, "\u{feff}\u{3042}");
    assert_eq!(m.composer, "\u{feff}AB");
    assert_eq!(m.genre, "Jazz");
    assert_eq!(m.date_time, "2024");
}

#[test]
fn padding_ends_the_scan() {
    let mut body = frame(b"TCON", b"\x00Rock");
    body.extend_from_slice(&[0u8; 20]);
    body.extend_from_slice(&frame(b"TIT2", b"\x00Hidden"));
    let t = tag(&[body]);
    let m = get_file_metadata(&dsf_with_tag(&t));
    assert_eq!(m.genre, "Rock");
    assert_eq!(m.title, "");
    assert!(!m.has_data);
}

#[test]
fn tag_without_id3_marker_is_ignored() {
    let mut t = tag(&[frame(b"TIT2", b"\x00Song")]);
    t[0] = b'X';
    let m = get_file_metadata(&dsf_with_tag(&t));
    assert!(!m.has_data);
    assert_eq!(m.title, "");
}

#[test]
fn tag_pointer_past_end_is_ignored() {
    let mut d = dsf_with_tag(&tag(&[frame(b"TIT2", b"\x00Song")]));
    d[20..28].copy_from_slice(&10_000u64.to_le_bytes());
    let m = get_file_metadata(&d);
    assert!(!m.has_data);
    assert_eq!(m.title, "");
}

#[test]
fn tdrc_frame_fills_date() {
    let t = tag(&[frame(b"TDRC", b"\x002001-02-03"), frame(b"TPE1", b"\x00X")]);
    let m = get_file_metadata(&dsf_with_tag(&t));
    assert_eq!(m.date_time, "2001-02-03");
    assert!(m.has_data);
}
