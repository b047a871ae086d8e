use rsmdf::mdf4::block::{Block, DataBlock, LinkedBlock};
use rsmdf::mdf4::block_header::BlockHeader;
use rsmdf::mdf4::cc_block::Ccblock;
use rsmdf::mdf4::cg_block::Cgblock;
use rsmdf::mdf4::cn_block::Cnblock;
use rsmdf::mdf4::data_block::DataBlockType;
use rsmdf::mdf4::dz_block::Dzblock;
use rsmdf::mdf4::hd_block::Hdblock;
use rsmdf::mdf4::mdf4_enums::{BusType, CCType, ChannelType, DataType, SourceType};
use rsmdf::mdf4::sd_block::Sdblock;
use rsmdf::mdf4::tx_block::Txblock;
use rsmdf::mdf4::utils::str_from_u8;
use std::mem;

const CC_RAW: [u8; 96] = [
    0x23, 0x23, 0x43, 0x43, 0x00, 0x00, 0x00, 0x00, 0x60, 0x00, 0x00, 0x00, 0x00, 0x00, 0x00,
    0x00, 0x04, 0x00, 0x00, 0x00, 0x00, 0x00, 0x00, 0x00, 0x00, 0x00, 0x00, 0x00, 0x00, 0x00,
    0x00, 0x00, 0x00, 0x00, 0x00, 0x00, 0x00, 0x00, 0x00, 0x00, 0x00, 0x00, 0x00, 0x00, 0x00,
    0x00, 0x00, 0x00, 0x00, 0x00, 0x00, 0x00, 0x00, 0x00, 0x00, 0x00, 0x01, 0x00, 0x00, 0x00,
    0x00, 0x00, 0x02, 0x00, 0x00, 0x00, 0x00, 0x00, 0x00, 0x00, 0x00, 0x00, 0x00, 0x00, 0x00,
    0x00, 0x00, 0x00, 0x00, 0x00, 0x00, 0x00, 0x00, 0x00, 0x00, 0x00, 0x00, 0x00, 0x00, 0x00,
    0x00, 0x00, 0x00, 0x00, 0x00, 0x40,
];

const CN_RAW: [u8; 160] = [
    0x23, 0x23, 0x43, 0x4E, 0x00, 0x00, 0x00, 0x00, 0xA0, 0x00, 0x00, 0x00, 0x00, 0x00, 0x00,
    0x00, 0x08, 0x00, 0x00, 0x00, 0x00, 0x00, 0x00, 0x00, 0x28, 0x63, 0x00, 0x00, 0x00, 0x00,
    0x00, 0x00, 0x00, 0x00, 0x00, 0x00, 0x00, 0x00, 0x00, 0x00, 0x40, 0x45, 0x00, 0x00, 0x00,
    0x00, 0x00, 0x00, 0x18, 0x62, 0x00, 0x00, 0x00, 0x00, 0x00, 0x00, 0xC0, 0x5B, 0x00, 0x00,
    0x00, 0x00, 0x00, 0x00, 0x00, 0x00, 0x00, 0x00, 0x00, 0x00, 0x00, 0x00, 0x40, 0x46, 0x00,
    0x00, 0x00, 0x00, 0x00, 0x00, 0xB0, 0x45, 0x00, 0x00, 0x00, 0x00, 0x00, 0x00, 0x02, 0x01,
    0x04, 0x00, 0x00, 0x00, 0x00, 0x00, 0x40, 0x00, 0x00, 0x00, 0x00, 0x00, 0x00, 0x00, 0x00,
    0x00, 0x00, 0x00, 0xFF, 0x00, 0x00, 0x00, 0x00, 0x00, 0x00, 0x00, 0x00, 0x00, 0x00, 0x00,
    0x00, 0x00, 0x00, 0x00, 0x00, 0x00, 0x00, 0x00, 0x00, 0x00, 0x00, 0x00, 0x00, 0x00, 0x00,
    0x00, 0x00, 0x00, 0x00, 0x00, 0x00, 0x00, 0x00, 0x00, 0x00, 0x00, 0x00, 0x00, 0x00, 0x00,
    0x00, 0x00, 0x00, 0x00, 0x00, 0x00, 0x00, 0x00, 0x00, 0x00,
];

#[test]
#[allow(non_snake_case)]
fn CcBlock_cc_read_test() {
    let (pos, _cc) = Ccblock::read(&CC_RAW, 0, true);

    assert_eq!(96, pos);
}

#[test]
fn cc_block_cc_read_test() {
    let (pos, _cc) = Ccblock::read(&CC_RAW, 0, true);

    assert_eq!(96, pos);
}

#[test]
fn cc_byte_len() {
    let (_pos, cc) = Ccblock::read(&CC_RAW, 0, true);

    assert_eq!(24, cc.header.byte_len());
    assert_eq!(8, mem::size_of_val(&cc.cc_tx_name));
    assert_eq!(8, mem::size_of_val(&cc.cc_md_unit));
    assert_eq!(8, mem::size_of_val(&cc.cc_md_comment));
    assert_eq!(8, mem::size_of_val(&cc.cc_cc_inverse));
    if !cc.cc_ref.is_empty() {
        assert_eq!(
            cc.cc_ref_count as usize * 8,
            mem::size_of_val(&cc.cc_ref[0]) * cc.cc_ref_count as usize
        );
    }
    assert_eq!(1, mem::size_of_val(&cc.cc_type));
    assert_eq!(1, mem::size_of_val(&cc.cc_precision));
    assert_eq!(2, mem::size_of_val(&cc.cc_flags));
    assert_eq!(2, mem::size_of_val(&cc.cc_ref_count));
    assert_eq!(2, mem::size_of_val(&cc.cc_val_count));
    assert_eq!(8, mem::size_of_val(&cc.cc_phy_range_min));
    assert_eq!(8, mem::size_of_val(&cc.cc_phy_range_max));

    if !cc.cc_val.is_empty() {
        assert_eq!(
            cc.cc_val_count as usize * 8,
            mem::size_of_val(&cc.cc_val[0]) * cc.cc_val_count as usize
        );
    }

    assert_eq!(96, cc.byte_len());
}

#[test]
fn cc_block_values() {
    let (_pos, cc) = Ccblock::read(&CC_RAW, 0, true);
    assert_eq!(cc.cc_type, CCType::Parametic);
    assert_eq!(cc.cc_precision, 0);
    assert_eq!(cc.cc_ref_count, 0);
    assert_eq!(cc.cc_val_count, 2);
    assert_eq!(cc.cc_val.len(), 2);
    assert_eq!(f64::from_bits(cc.cc_val[1]), 2.0);
}

#[test]
fn hd_read_test() {
    let raw: [u8; 104] = [
        0x23, 0x23, 0x48, 0x44, 0x00, 0x00, 0x00, 0x00, 0x68, 0x00, 0x00, 0x00, 0x00, 0x00, 0x00,
        0x00, 0x06, 0x00, 0x00, 0x00, 0x00, 0x00, 0x00, 0x00, 0xB0, 0x8D, 0x00, 0x00, 0x00, 0x00,
        0x00, 0x00, 0xA8, 0x00, 0x00, 0x00, 0x00, 0x00, 0x00, 0x00, 0x00, 0x00, 0x00, 0x00, 0x00,
        0x00, 0x00, 0x00, 0x00, 0x00, 0x00, 0x00, 0x00, 0x00, 0x00, 0x00, 0xB0, 0x8E, 0x00, 0x00,
        0x00, 0x00, 0x00, 0x00, 0x98, 0xC8, 0x11, 0x00, 0x00, 0x00, 0x00, 0x00, 0x6F, 0x29, 0x46,
        0xF9, 0x75, 0x78, 0x69, 0x15, 0x3C, 0x00, 0x00, 0x00, 0x02, 0x00, 0x00, 0x00, 0x00, 0x00,
        0x00, 0x00, 0x00, 0x00, 0x00, 0x00, 0x00, 0x00, 0x00, 0x00, 0x00, 0x00, 0x00, 0x00,
    ];

    let (pos, hd_block) = Hdblock::read(&raw, 0, true);

    assert_eq!(pos, raw.len());

    assert_eq!(36272, hd_block.hd_dg_first);
    assert_eq!(168, hd_block.hd_fh_first);
    assert_eq!(0, hd_block.hd_ch_first);
    assert_eq!(0, hd_block.hd_at_first);
    assert_eq!(36528, hd_block.hd_ev_first);
    assert_eq!(1165464, hd_block.hd_md_comment);
    assert_eq!(1542896795439737199, hd_block.hd_start_time_ns);
    assert_eq!(60, hd_block.hd_tz_offset_min);
    assert_eq!(0, hd_block.hd_dst_offset_min);
    assert_eq!(2, hd_block.hd_time_flags);
    assert_eq!(0, hd_block.hd_time_class);
    assert_eq!(0, hd_block.hd_flags);
    assert_eq!(0, hd_block.hd_reserved);
    assert_eq!(0.0_f64, f64::from_bits(hd_block.hd_start_angle_rad));
    assert_eq!(0.0_f64, f64::from_bits(hd_block.hd_start_distance_m));
}

#[test]
fn cn_block_byte_len() {
    let (pos, cn) = Cnblock::read(&CN_RAW, 0, true);

    assert_eq!(pos, 160);
    assert_eq!(24, cn.header.byte_len());
    assert_eq!(8, mem::size_of_val(&cn.cn_cn_next));
    assert_eq!(8, mem::size_of_val(&cn.cn_composition));
    assert_eq!(8, mem::size_of_val(&cn.cn_tx_name));
    assert_eq!(8, mem::size_of_val(&cn.cn_si_source));
    assert_eq!(8, mem::size_of_val(&cn.cn_cc_conversion));
    assert_eq!(8, mem::size_of_val(&cn.cn_data));
    assert_eq!(8, mem::size_of_val(&cn.cn_md_unit));
    assert_eq!(8, mem::size_of_val(&cn.cn_md_comment));
    assert_eq!(0, cn.cn_at_reference.len());
    assert_eq!(0, cn.cn_default_x.len());
    assert_eq!(1, mem::size_of_val(&cn.channel_type));
    assert_eq!(1, mem::size_of_val(&cn.sync_type));
    assert_eq!(1, mem::size_of_val(&cn.data_type));
    assert_eq!(1, mem::size_of_val(&cn.bit_offset));
    assert_eq!(4, mem::size_of_val(&cn.byte_offset));
    assert_eq!(4, mem::size_of_val(&cn.bit_count));
    assert_eq!(4, mem::size_of_val(&cn.flags));
    assert_eq!(4, mem::size_of_val(&cn.pos_invalidation_bit));
    assert_eq!(1, mem::size_of_val(&cn.precision));
    assert_eq!(8, mem::size_of_val(&cn.min_raw_value));
    assert_eq!(8, mem::size_of_val(&cn.max_raw_value));
    assert_eq!(8, mem::size_of_val(&cn.lower_limit));
    assert_eq!(8, mem::size_of_val(&cn.upper_limit));
    assert_eq!(8, mem::size_of_val(&cn.lower_ext_limit));
    assert_eq!(8, mem::size_of_val(&cn.upper_ext_limit));
    assert_eq!(160, cn.byte_len());
}

#[test]
fn cn_block_accessors() {
    let (_pos, cn) = Cnblock::read(&CN_RAW, 0, true);
    assert_eq!(cn.channel_type(), ChannelType::Master);
    assert_eq!(cn.data_type(), DataType::FloatLE);
    assert_eq!(cn.data_type_len(), 8);
    assert_eq!(cn.byte_offset(), 0);
    assert_eq!(cn.bit_count, 64);
    let name = cn.comment(&CN_RAW, true);
    assert_eq!(name, "time");
}

#[test]
fn block_header_create() {
    let h = BlockHeader::create("##TX", 24, 2);
    assert_eq!(&h.id, b"##TX");
    assert_eq!(h.length, 24);
    assert_eq!(h.link_count, 2);
    assert_eq!(h.reserved0, [0u8; 4]);
    let (pos, read_back) = BlockHeader::read(&[0x23, 0x23, 0x54, 0x58, 1, 2, 3, 4, 24, 0, 0, 0, 0, 0, 0, 0, 2, 0, 0, 0, 0, 0, 0, 0], 0, true);
    assert_eq!(pos, 24);
    assert_eq!(read_back.id, h.id);
    assert_eq!(read_back.reserved0, [1, 2, 3, 4]);
    assert_eq!(read_back.length, 24);
    assert_eq!(read_back.link_count, 2);
}

#[test]
fn block_is_readable_rejects() {
    // A channel group identifier is needed.
    let mut raw = [0u8; 104];
    raw[..4].copy_from_slice(b"##CX");
    assert!(!Cgblock::is_readable(&raw, 0, true));
    // Too short for the header.
    assert!(!BlockHeader::is_readable(&raw[..10], 0, true));
    // A text block whose text is not UTF-8.
    let mut tx = vec![0x23, 0x23, 0x54, 0x58, 0, 0, 0, 0, 27, 0, 0, 0, 0, 0, 0, 0, 0, 0, 0, 0, 0, 0, 0, 0];
    tx.extend([0xFF, 0xFE, 0x00]);
    assert!(!Txblock::is_readable(&tx, 0, true));
    tx[24] = b'o';
    tx[25] = b'k';
    assert!(Txblock::is_readable(&tx, 0, true));
    let (end, block) = Txblock::read(&tx, 0, true);
    assert_eq!(end, 27);
    assert_eq!(block.text(), "ok");
}

#[test]
fn str_from_u8_stops_at_zero() {
    assert_eq!(str_from_u8(b"Engine_1\0garbage"), "Engine_1");
    assert_eq!(str_from_u8(b"no terminator"), "no terminator");
    assert_eq!(str_from_u8(b"\0"), "");
}

#[test]
fn source_and_bus_codes() {
    assert_eq!(SourceType::new(0), SourceType::Other);
    assert_eq!(SourceType::new(5), SourceType::User);
    assert!(!SourceType::is_code(6));
    assert_eq!(BusType::new(0), BusType::NoBus);
    assert_eq!(BusType::new(8), BusType::Usb);
    assert!(BusType::is_code(8));
    assert!(!BusType::is_code(9));
    assert_eq!(DataType::new(13), DataType::CANopenTime);
    assert_eq!(DataType::StringUTF16BE.len(), 2);
    assert!(!DataType::ByteArray.is_empty());
}

fn zipped_block(data: &[u8]) -> Vec<u8> {
    let mut raw = vec![0x23, 0x23, 0x44, 0x5A, 0, 0, 0, 0];
    raw.extend(((48 + data.len()) as u64).to_le_bytes());
    raw.extend(0u64.to_le_bytes());
    raw.extend([b'D', b'T', 0, 0]);
    raw.extend(0u32.to_le_bytes());
    raw.extend(13u64.to_le_bytes());
    raw.extend((data.len() as u64).to_le_bytes());
    raw.extend(data);
    raw
}

#[test]
fn dz_block_inflates() {
    let deflated = [0xCB, 0x4D, 0x4D, 0x2C, 0x2E, 0x2D, 0x4A, 0x4D, 0x51, 0x48, 0x49, 0x2C, 0x49, 0x04, 0x00];
    let raw = zipped_block(&deflated);
    assert!(Dzblock::is_readable(&raw, 0, true));
    let (end, dz) = Dzblock::read(&raw, 0, true);
    assert_eq!(end, raw.len());
    assert_eq!(dz.dz_data, deflated.to_vec());
    assert_eq!(dz.try_data_array(&raw, true), Some(b"measured data".to_vec()));
    assert_eq!(dz.data_array(&raw, true), b"measured data".to_vec());
    let block = DataBlockType::read(&raw, 0, true);
    assert_eq!(block.data_array(&raw, true), b"measured data".to_vec());
}

#[test]
fn dz_block_refuses_broken_data() {
    let raw = zipped_block(&[0xFF, 0xFF, 0xFF]);
    let (_end, dz) = Dzblock::read(&raw, 0, true);
    assert_eq!(dz.try_data_array(&raw, true), None);
}

#[test]
fn sd_block_byte_len_is_read_len() {
    let mut raw = vec![0x23, 0x23, 0x53, 0x44, 0, 0, 0, 0, 30, 0, 0, 0, 0, 0, 0, 0, 0, 0, 0, 0, 0, 0, 0, 0];
    raw.extend([1, 2, 3, 4, 5, 6, 7]);
    let (end, sd) = Sdblock::read(&raw, 0, true);
    assert_eq!(end, 30);
    assert_eq!(sd.sd_data, vec![1, 2, 3, 4, 5, 6]);
    assert_eq!(sd.byte_len(), end);
}

fn cg_at(next: u64) -> Vec<u8> {
    let mut raw = vec![0x23, 0x23, 0x43, 0x47, 0, 0, 0, 0];
    raw.extend(104u64.to_le_bytes());
    raw.extend(6u64.to_le_bytes());
    raw.extend(next.to_le_bytes());
    raw.extend([0u8; 40]);
    raw.extend([0u8; 32]);
    raw
}

#[test]
fn channel_group_chain_is_listed_in_order() {
    let mut stream = cg_at(104);
    stream.extend(cg_at(208));
    stream.extend(cg_at(0));
    let (_, first) = Cgblock::read(&stream, 0, true);
    let all = first.list(&stream, true);
    assert_eq!(all.len(), 3);
    assert_eq!(all[0].cg_cg_next, 104);
    assert_eq!(all[1].cg_cg_next, 208);
    assert_eq!(all[2].cg_cg_next, 0);
    assert!(all[2].next(&stream, true).is_none());
}
