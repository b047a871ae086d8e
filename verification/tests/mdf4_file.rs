use rsmdf::mdf4::mdf4_enums::ChannelType;
use rsmdf::mdf4::MDF4;

fn put_u64(buf: &mut [u8], at: usize, v: u64) {
    buf[at..at + 8].copy_from_slice(&v.to_le_bytes());
}

fn put_header(buf: &mut [u8], at: usize, id: &[u8; 4], length: u64, links: &[u64]) {
    buf[at..at + 4].copy_from_slice(id);
    put_u64(buf, at + 8, length);
    put_u64(buf, at + 16, links.len() as u64);
    for (k, link) in links.iter().enumerate() {
        put_u64(buf, at + 24 + 8 * k, *link);
    }
}

fn put_metadata(buf: &mut [u8], at: usize, text: &[u8]) {
    put_header(buf, at, b"##MD", 24 + text.len() as u64 + 8, &[]);
    buf[at + 24..at + 24 + text.len()].copy_from_slice(text);
}

/// A channel block with its eight links and the three links of a default X
/// axis.
fn put_channel(buf: &mut [u8], at: usize, next: u64, name: u64, channel_type: u8) {
    put_header(buf, at, b"##CN", 184, &[next, 0, name, 0, 0, 0, 0, 0, 0, 0, 0]);
    buf[at + 112] = channel_type;
}

const HD: usize = 64;
const COMMENT: usize = 168;
const DG: usize = 208;
const CG: usize = 272;
const CN_TIME: usize = 376;
const CN_SPEED: usize = 560;
const NAME_SPEED: usize = 744;

/// A small file: one data group with one channel group of a master channel
/// and a channel whose name link points to a metadata block `speed`.
fn small_file() -> Vec<u8> {
    let mut buf = vec![0u8; 800];
    buf[0..8].copy_from_slice(b"MDF     ");
    buf[8..16].copy_from_slice(b"4.10    ");
    buf[16..24].copy_from_slice(b"TGT 15.0");
    buf[28] = 0x9A;
    buf[29] = 0x01;
    put_header(&mut buf, HD, b"##HD", 104, &[DG as u64, 0, 0, 0, 0, COMMENT as u64]);
    put_metadata(&mut buf, COMMENT, b"note");
    put_header(&mut buf, DG, b"##DG", 64, &[0, CG as u64, 0, 0]);
    put_header(&mut buf, CG, b"##CG", 104, &[0, CN_TIME as u64, 0, 0, 0, 55]);
    put_channel(&mut buf, CN_TIME, CN_SPEED as u64, 0, 2);
    put_channel(&mut buf, CN_SPEED, 0, NAME_SPEED as u64, 0);
    put_metadata(&mut buf, NAME_SPEED, b"speed");
    buf
}

#[test]
fn mdf4_file_is_read_whole() {
    let bytes = small_file();
    assert!(MDF4::is_readable(&bytes));
    let mdf = MDF4::from_stream(bytes);
    assert!(mdf.little_endian);
    assert_eq!(mdf.id.id_ver, 410);
    assert_eq!(mdf.header.hd_dg_first, DG as u64);
    assert_eq!(mdf.comment.md_data, "note");
    assert_eq!(mdf.data_groups.len(), 1);
    assert_eq!(mdf.channel_groups.len(), 1);
    assert_eq!(mdf.channels.len(), 2);
    assert_eq!(mdf.channels[0].channel_type, ChannelType::Master);
}

#[test]
fn mdf4_file_lists_channels() {
    let mdf = MDF4::from_stream(small_file());
    assert!(mdf.names_are_readable());
    let channels = mdf.channels();
    assert_eq!(channels.len(), 2);
    assert_eq!(channels.len(), mdf.channels.len());
    assert_eq!(channels[0].name, "time");
    assert_eq!(channels[1].name, "speed");
    assert_eq!(channels[1].channel, 1);
    assert_eq!(channels[1].channel_group, 0);
    assert_eq!(mdf.list_channels(), vec![55u64]);
}

#[test]
fn mdf4_file_finds_master_channel() {
    let mdf = MDF4::from_stream(small_file());
    assert!(mdf.group_is_readable(0));
    assert_eq!(mdf.find_time_channel(0, 0), Ok(0));
    assert!(mdf.read_channel(0, 0, 1).is_empty());
}

#[test]
fn mdf4_file_refuses_channel_without_default_x_links() {
    let mut bytes = small_file();
    put_u64(&mut bytes, CN_SPEED + 16, 8);
    assert!(!MDF4::is_readable(&bytes));
}

#[test]
fn mdf4_file_rejects_looping_chain() {
    let mut bytes = small_file();
    put_u64(&mut bytes, CN_SPEED + 24, CN_TIME as u64);
    assert!(!MDF4::is_readable(&bytes));
}

#[test]
fn mdf4_file_list_rereads_data_groups() {
    let mut mdf = MDF4::from_stream(small_file());
    mdf.data_groups.clear();
    mdf.list();
    assert_eq!(mdf.data_groups.len(), 1);
    assert_eq!(mdf.data_groups[0].dg_cg_first, CG as u64);
}
