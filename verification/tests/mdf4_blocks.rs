use rsmdf::mdf4::block::Block;
use rsmdf::mdf4::cg_block::Cgblock;
use rsmdf::mdf4::dg_block::Dgblock;
use rsmdf::mdf4::id_block::Idblock;
use rsmdf::mdf4::mdf4_enums::{BusType, SourceType};
use rsmdf::mdf4::si_block::Siblock;
use rsmdf::mdf4::tx_block::Txblock;
use rsmdf::utils;

const CG_RAW: [u8; 104] = [
    0x23, 0x23, 0x43, 0x47, 0x00, 0x00, 0x00, 0x00, 0x68, 0x00, 0x00, 0x00, 0x00, 0x00, 0x00,
    0x00, 0x06, 0x00, 0x00, 0x00, 0x00, 0x00, 0x00, 0x00, 0x00, 0x00, 0x00, 0x00, 0x00, 0x00,
    0x00, 0x00, 0xA0, 0x64, 0x00, 0x00, 0x00, 0x00, 0x00, 0x00, 0xD0, 0x3F, 0x00, 0x00, 0x00,
    0x00, 0x00, 0x00, 0xF0, 0x66, 0x00, 0x00, 0x00, 0x00, 0x00, 0x00, 0x00, 0x00, 0x00, 0x00,
    0x00, 0x00, 0x00, 0x00, 0xF8, 0x3F, 0x00, 0x00, 0x00, 0x00, 0x00, 0x00, 0x00, 0x00, 0x00,
    0x00, 0x00, 0x00, 0x00, 0x00, 0xD8, 0x04, 0x00, 0x00, 0x00, 0x00, 0x00, 0x00, 0x00, 0x00,
    0x00, 0x00, 0x00, 0x00, 0x00, 0x00, 0x0A, 0x00, 0x00, 0x00, 0x00, 0x00, 0x00, 0x00,
];

const DG_RAW: [u8; 64] = [
    0x23, 0x23, 0x44, 0x47, 0x00, 0x00, 0x00, 0x00, 0x40, 0x00, 0x00, 0x00, 0x00, 0x00, 0x00,
    0x00, 0x04, 0x00, 0x00, 0x00, 0x00, 0x00, 0x00, 0x00, 0xF0, 0x8D, 0x00, 0x00, 0x00, 0x00,
    0x00, 0x00, 0x90, 0x86, 0x00, 0x00, 0x00, 0x00, 0x00, 0x00, 0xA0, 0xA8, 0x00, 0x00, 0x00,
    0x00, 0x00, 0x00, 0x00, 0x00, 0x00, 0x00, 0x00, 0x00, 0x00, 0x00, 0x00, 0x00, 0x00, 0x00,
    0x00, 0x00, 0x00, 0x00,
];

const TX_RAW: [u8; 40] = [
    0x23, 0x23, 0x54, 0x58, 0x00, 0x00, 0x00, 0x00, 0x21, 0x00, 0x00, 0x00, 0x00, 0x00, 0x00,
    0x00, 0x00, 0x00, 0x00, 0x00, 0x00, 0x00, 0x00, 0x00, 0x45, 0x6E, 0x67, 0x69, 0x6E, 0x65,
    0x5F, 0x31, 0x00, 0x40, 0x40, 0x40, 0x40, 0x40, 0x40, 0x40,
];

#[test]
fn id_read_test() {
    let raw: [u8; 64] = [
        0x4D, 0x44, 0x46, 0x20, 0x20, 0x20, 0x20, 0x20, 0x34, 0x2E, 0x31, 0x30, 0x20, 0x20, 0x20,
        0x20, 0x54, 0x47, 0x54, 0x20, 0x31, 0x35, 0x2E, 0x30, 0x00, 0x00, 0x00, 0x00, 0x9A, 0x01,
        0x00, 0x00, 0x00, 0x00, 0x00, 0x00, 0x00, 0x00, 0x00, 0x00, 0x00, 0x00, 0x00, 0x00, 0x00,
        0x00, 0x00, 0x00, 0x00, 0x00, 0x00, 0x00, 0x00, 0x00, 0x00, 0x00, 0x00, 0x00, 0x00, 0x00,
        0x00, 0x00, 0x00, 0x00,
    ];

    let (pos, id_result) = Idblock::read(&raw, 0, true);

    assert_eq!(64, pos);
    assert!(utils::eq("MDF     ".as_bytes(), &id_result.id_file));
    assert!(utils::eq("4.10    ".as_bytes(), &id_result.id_vers));
    assert!(utils::eq("TGT 15.0".as_bytes(), &id_result.id_prog));
    assert!(utils::eq(&[0_u8; 4], &id_result.id_reserved1));
    assert_eq!(410, id_result.id_ver);
    assert!(utils::eq(&[0_u8; 34], &id_result.id_reserved2));
}

#[test]
fn mdf4_cg_block_read() {
    let (pos, cg) = Cgblock::read(&CG_RAW, 0, true);

    assert_eq!(pos, 104);
    assert_eq!(cg.cg_cg_next, 0);
    assert_eq!(cg.cg_cn_first, 25760);
    assert_eq!(cg.cg_tx_acq_name, 16336);
    assert_eq!(cg.cg_si_acq_source, 26352);
    assert_eq!(cg.cg_sr_first, 0);
    assert_eq!(cg.cg_md_comment, 16376);

    assert_eq!(cg.cg_record_id, 0);
    assert_eq!(cg.cg_cycle_count, 1240);
    assert_eq!(cg.cg_flags, 0);
    assert_eq!(cg.cg_data_bytes, 10);
}

#[test]
fn mdf4_data_group_reads_its_last_channel_group() {
    let mut dg = Dgblock::new();
    dg.dg_cg_first = 64;
    let mut single = vec![0u8; 64];
    single.extend(CG_RAW.iter());
    let only = dg.read_channel_groups(&single, true);
    assert_eq!(only.len(), 1);
    assert_eq!(only[0].cg_cg_next, 0);
    assert_eq!(only[0].cg_cycle_count, 1240);
    assert_eq!(only[0].cg_data_bytes, 10);
}

#[test]
fn cg_block_byte_len() {
    let (pos, cg) = Cgblock::read(&CG_RAW, 0, true);

    assert_eq!(pos, cg.byte_len());
}

#[test]
fn dg_read_test() {
    let (pos, dg) = Dgblock::read(&DG_RAW, 0, true);

    assert_eq!(64, pos);
    assert_eq!(36336, dg.dg_dg_next);
    assert_eq!(34448, dg.dg_cg_first);
    assert_eq!(43168, dg.dg_data);
    assert_eq!(0, dg.dg_md_comment);
    assert_eq!(0, dg.dg_rec_id_size);
    assert_eq!([0_u8; 7], dg.dg_reserved);
}

#[test]
fn si_read_test() {
    let raw: [u8; 56] = [
        0x23, 0x23, 0x53, 0x49, 0x00, 0x00, 0x00, 0x00, 0x38, 0x00, 0x00, 0x00, 0x00, 0x00, 0x00,
        0x00, 0x03, 0x00, 0x00, 0x00, 0x00, 0x00, 0x00, 0x00, 0xF0, 0x44, 0x00, 0x00, 0x00, 0x00,
        0x00, 0x00, 0x10, 0x45, 0x00, 0x00, 0x00, 0x00, 0x00, 0x00, 0x00, 0x00, 0x00, 0x00, 0x00,
        0x00, 0x00, 0x00, 0x01, 0x01, 0x00, 0x00, 0x00, 0x00, 0x00, 0x00,
    ];

    let (pos, si) = Siblock::read(&raw, 0, true);

    assert_eq!(pos, 56);
    assert_eq!(17648, si.si_tx_name);
    assert_eq!(17680, si.si_tx_path);
    assert_eq!(0, si.si_md_comment);
    assert_eq!(SourceType::Ecu, si.si_type);
    assert_eq!(BusType::Other, si.si_bus_type);
    assert_eq!(0, si.si_flags);
    assert!(utils::eq(&si.si_reserved, &[0_u8; 5]));
}

#[test]
fn tx_block_read() {
    let (pos, tx) = Txblock::read(&TX_RAW, 0, true);

    assert_eq!(33, pos);
    assert!(tx.tx_data.eq("Engine_1"))
}

#[test]
fn tx_block_byte_len() {
    let (pos, tx) = Txblock::read(&TX_RAW, 0, true);

    assert_eq!(33, pos);
    assert_eq!(33, tx.byte_len());
}
