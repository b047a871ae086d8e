use rsmdf::mdf::{check_version, parse_version, search_channels, MDFVersion, MdfChannel};
use rsmdf::mdf3::MDF3;
use rsmdf::record::Record;

fn put_u16(buf: &mut [u8], at: usize, v: u16) {
    buf[at..at + 2].copy_from_slice(&v.to_le_bytes());
}

fn put_u32(buf: &mut [u8], at: usize, v: u32) {
    buf[at..at + 4].copy_from_slice(&v.to_le_bytes());
}

fn put_text(buf: &mut [u8], at: usize, text: &[u8]) {
    buf[at] = b'T';
    buf[at + 1] = b'X';
    put_u16(buf, at + 2, (text.len() + 5) as u16);
    buf[at + 4..at + 4 + text.len()].copy_from_slice(text);
}

fn put_channel(
    buf: &mut [u8],
    at: usize,
    next: u32,
    channel_type: u16,
    start_offset: u16,
    data_type: u16,
    long_name: u32,
) {
    buf[at] = b'C';
    buf[at + 1] = b'N';
    put_u16(buf, at + 2, 228);
    put_u32(buf, at + 4, next);
    put_u16(buf, at + 24, channel_type);
    put_u16(buf, at + 186, start_offset);
    put_u16(buf, at + 188, 8);
    put_u16(buf, at + 190, data_type);
    put_u32(buf, at + 218, long_name);
}

const HD: usize = 64;
const DG: usize = 272;
const CG: usize = 300;
const CN_TIME: usize = 330;
const CN_SPEED: usize = 558;
const TX_SPEED: usize = 786;
const TX_COMMENT: usize = 800;
const DATA: usize = 820;

/// A small little endian file: one data group with one channel group of a
/// time channel and a channel `speed`, and two records of three bytes.
fn small_file() -> Vec<u8> {
    let mut buf = vec![0u8; 826];
    buf[0..8].copy_from_slice(b"MDF     ");
    buf[8..16].copy_from_slice(b"3.30    ");
    buf[16..24].copy_from_slice(b"TGT 15.0");
    put_u16(&mut buf, 28, 330);

    buf[HD] = b'H';
    buf[HD + 1] = b'D';
    put_u16(&mut buf, HD + 2, 208);
    put_u32(&mut buf, HD + 4, DG as u32);
    put_u32(&mut buf, HD + 8, TX_COMMENT as u32);
    put_u16(&mut buf, HD + 16, 1);

    buf[DG] = b'D';
    buf[DG + 1] = b'G';
    put_u16(&mut buf, DG + 2, 28);
    put_u32(&mut buf, DG + 8, CG as u32);
    put_u32(&mut buf, DG + 16, DATA as u32);
    put_u16(&mut buf, DG + 20, 1);

    buf[CG] = b'C';
    buf[CG + 1] = b'G';
    put_u16(&mut buf, CG + 2, 30);
    put_u32(&mut buf, CG + 8, CN_TIME as u32);
    put_u32(&mut buf, CG + 12, 77);
    put_u16(&mut buf, CG + 18, 2);
    put_u16(&mut buf, CG + 20, 3);
    put_u32(&mut buf, CG + 22, 2);

    put_channel(&mut buf, CN_TIME, CN_SPEED as u32, 1, 0, 0, 0);
    put_channel(&mut buf, CN_SPEED, 0, 0, 8, 0, TX_SPEED as u32);
    put_text(&mut buf, TX_SPEED, b"speed");
    put_text(&mut buf, TX_COMMENT, b"file note");

    buf[DATA..DATA + 6].copy_from_slice(&[10, 200, 0, 20, 201, 0]);
    buf
}

#[test]
fn mdf3_file_is_read_whole() {
    let bytes = small_file();
    assert!(MDF3::is_readable(&bytes));
    let mdf = MDF3::from_stream(bytes);
    assert!(mdf.little_endian);
    assert_eq!(mdf.header.data_group_block, DG as u32);
    assert_eq!(mdf.comment.text, b"file note".to_vec());
    assert_eq!(mdf.data_groups.len(), 1);
    assert_eq!(mdf.channel_groups.len(), 1);
    assert_eq!(mdf.channel_groups[0].record_number, 2);
    assert_eq!(mdf.channels.len(), 2);
    assert_eq!(mdf.channels[1].start_offset, 8);
}

#[test]
fn mdf3_file_lists_channels_with_their_places() {
    let mdf = MDF3::from_stream(small_file());
    assert!(mdf.names_are_readable());
    let channels = mdf.channels();
    assert_eq!(channels.len(), 2);
    assert_eq!(channels.len(), mdf.channels.len());
    assert_eq!(channels[0].name, "time");
    assert_eq!(channels[1].name, "speed");
    for (k, c) in channels.iter().enumerate() {
        assert_eq!(c.data_group, 0);
        assert_eq!(c.channel_group, 0);
        assert_eq!(c.channel, k as u64);
    }
    assert_eq!(mdf.list_channels(), vec![77u32]);
}

#[test]
fn mdf3_file_finds_time_channel() {
    let mdf = MDF3::from_stream(small_file());
    assert!(mdf.group_is_readable(0, mdf.little_endian));
    assert_eq!(mdf.find_time_channel(0, 0), Ok(0));
}

#[test]
fn mdf3_file_without_time_channel() {
    let mut bytes = small_file();
    put_u16(&mut bytes, CN_TIME + 24, 0);
    let mdf = MDF3::from_stream(bytes);
    assert_eq!(
        mdf.find_time_channel(0, 0),
        Err("No time series found for the channel selected")
    );
}

#[test]
fn mdf3_file_reads_channel_values() {
    let mdf = MDF3::from_stream(small_file());
    assert!(mdf.channel_is_readable(0, 0, 1));
    let speed = mdf.read_channel(0, 0, 1);
    assert_eq!(speed, vec![Record::Uint(200), Record::Uint(201)]);
    let time = mdf.read_channel(0, 0, 0);
    assert_eq!(time, vec![Record::Uint(10), Record::Uint(20)]);
}

#[test]
fn mdf3_file_rejects_broken_chain() {
    let mut bytes = small_file();
    bytes[CG] = b'X';
    assert!(!MDF3::is_readable(&bytes));
    let mut looping = small_file();
    put_u32(&mut looping, CN_SPEED + 4, CN_TIME as u32);
    assert!(!MDF3::is_readable(&looping));
}

#[test]
fn mdf3_file_list_rereads_data_groups() {
    let mut mdf = MDF3::from_stream(small_file());
    mdf.data_groups.clear();
    mdf.list();
    assert_eq!(mdf.data_groups.len(), 1);
    assert_eq!(mdf.data_groups[0].data_block, DATA as u32);
}

fn entry(name: &str, channel: u64) -> MdfChannel {
    MdfChannel { name: name.to_string(), data_group: 0, channel, channel_group: 0 }
}

#[test]
fn search_channels_finds_one_name() {
    let channels = vec![entry("time", 0), entry("speed", 1), entry("speed", 2)];
    let found = search_channels(&channels, "time").unwrap();
    assert_eq!(found.channel, 0);
    assert_eq!(search_channels(&channels, "rpm").unwrap_err(), "Channel not found");
    assert_eq!(search_channels(&channels, "speed").unwrap_err(), "Multiple matches found");
}

fn id_with_version(version: &[u8; 8]) -> Vec<u8> {
    let mut id = vec![0u8; 64];
    id[0..8].copy_from_slice(b"MDF     ");
    id[8..16].copy_from_slice(version);
    id
}

#[test]
fn version_is_read_before_the_first_dot() {
    assert_eq!(check_version(&id_with_version(b"3.3.0   ")), MDFVersion::MDF3);
    assert_eq!(check_version(&id_with_version(b"+4.10.ab")), MDFVersion::MDF4);
    assert_eq!(parse_version(&id_with_version(b"4.1.0   ")), Some(MDFVersion::MDF4));
}

#[test]
fn version_refused_where_a_number_does_not_parse() {
    // Padding after the minor number is not part of a number.
    assert_eq!(parse_version(&id_with_version(b"4.10    ")), None);
    assert_eq!(parse_version(&id_with_version(b"5.0.0   ")), None);
    assert_eq!(parse_version(&id_with_version(b"410     ")), None);
    let mut wrong = id_with_version(b"3.3.0   ");
    wrong[0] = b'X';
    assert_eq!(parse_version(&wrong), None);
    assert_eq!(parse_version(&wrong[..32]), None);
}
