use rsmdf::mdf3::cc_block::Ccblock;
use rsmdf::mdf3::cg_block::Cgblock;
use rsmdf::mdf3::cn_block::Cnblock;
use rsmdf::mdf3::dg_block::Dgblock;
use rsmdf::mdf3::event::Event;
use rsmdf::mdf3::id_block::Idblock;
use rsmdf::mdf3::mdf3_block::Mdf3Block;
use rsmdf::mdf3::sr_block::Srblock;
use rsmdf::mdf4::block::Block;
use rsmdf::utils;


const CC_DATA: [u8; 233] = [
    0x43, 0x43, 0x2E, 0x00, 0x01, 0x00, 0x04, 0x19, 0x60, 0x9C, 0xAE, 0xDD, 0xBC, 0x3F, 0x52,
    0xE8, 0x62, 0xFA, 0x56, 0xD3, 0x28, 0x40, 0x73, 0x00, 0x00, 0x00, 0x00, 0x00, 0x00, 0x00,
    0x00, 0x00, 0x00, 0x00, 0x00, 0x00, 0x00, 0x00, 0x00, 0x00, 0x00, 0x00, 0xFF, 0xFF, 0x00,
    0x00, 0x43, 0x45, 0x80, 0x00, 0x02, 0x00, 0x00, 0x00, 0x00, 0x00, 0x00, 0x00, 0x43, 0x68,
    0x61, 0x6E, 0x6E, 0x65, 0x6C, 0x20, 0x69, 0x6E, 0x73, 0x65, 0x72, 0x74, 0x65, 0x64, 0x20,
    0x62, 0x79, 0x20, 0x50, 0x79, 0x74, 0x68, 0x6F, 0x6E, 0x20, 0x53, 0x63, 0x72, 0x69, 0x70,
    0x74, 0x00, 0x00, 0x00, 0x00, 0x00, 0x00, 0x00, 0x00, 0x00, 0x00, 0x00, 0x00, 0x00, 0x00,
    0x00, 0x00, 0x00, 0x00, 0x00, 0x00, 0x00, 0x00, 0x00, 0x00, 0x00, 0x00, 0x00, 0x00, 0x00,
    0x00, 0x00, 0x00, 0x00, 0x00, 0x00, 0x00, 0x00, 0x00, 0x00, 0x00, 0x00, 0x00, 0x00, 0x00,
    0x00, 0x00, 0x00, 0x00, 0x00, 0x00, 0x00, 0x00, 0x00, 0x00, 0x00, 0x00, 0x00, 0x00, 0x00,
    0x00, 0x00, 0x00, 0x00, 0x00, 0x00, 0x00, 0x00, 0x00, 0x00, 0x00, 0x00, 0x00, 0x00, 0x00,
    0x00, 0x00, 0x00, 0x00, 0x00, 0x00, 0x00, 0x00, 0x00, 0x43, 0x4E, 0xE4, 0x00, 0xA6, 0xE3,
    0x10, 0x00, 0x80, 0xE0, 0x10, 0x00, 0xAE, 0xE0, 0x10, 0x00, 0x00, 0x00, 0x00, 0x00, 0x00,
    0x00, 0x00, 0x00, 0x01, 0x00, 0x74, 0x69, 0x6D, 0x65, 0x00, 0x00, 0x00, 0x00, 0x00, 0x00,
    0x00, 0x00, 0x00, 0x00, 0x00, 0x00, 0x00, 0x00, 0x00, 0x00, 0x00, 0x00, 0x00, 0x00, 0x00,
    0x00, 0x00, 0x00, 0x00, 0x00, 0x00, 0x00, 0x00,
];

const MDF4_CN_RAW: [u8; 160] = [
    0x23, 0x23, 0x43, 0x4E, 0x00, 0x00, 0x00, 0x00, 0xA0, 0x00, 0x00, 0x00, 0x00, 0x00, 0x00,
    0x00, 0x08, 0x00, 0x00, 0x00, 0x00, 0x00, 0x00, 0x00, 0x28, 0x63, 0x00, 0x00, 0x00, 0x00,
    0x00, 0x00, 0x00, 0x00, 0x00, 0x00, 0x00, 0x00, 0x00, 0x00, 0x40, 0x45, 0x00, 0x00, 0x00,
    0x00, 0x00, 0x00, 0x18, 0x62, 0x00, 0x00, 0x00, 0x00, 0x00, 0x00, 0xC0, 0x5B, 0x00, 0x00,
    0x00, 0x00, 0x00, 0x00, 0x00, 0x00, 0x00, 0x00, 0x00, 0x00, 0x00, 0x00, 0x40, 0x46, 0x00,
    0x00, 0x00, 0x00, 0x00, 0x00, 0xB0, 0x45, 0x00, 0x00, 0x00, 0x00, 0x00, 0x00, 0x02, 0x01,
    0x04, 0x00, 0x00, 0x00, 0x00, 0x00, 0x40, 0x00, 0x00, 0x00, 0x00, 0x00, 0x00, 0x00, 0x00,
    0x00, 0x00, 0x00, 0xFF, 0x00, 0x00, 0x00, 0x00, 0x00, 0x00, 0x00, 0x00, 0x00, 0x00, 0x00,
    0x00, 0x00, 0x00, 0x00, 0x00, 0x00, 0x00, 0x00, 0x00, 0x00, 0x00, 0x00, 0x00, 0x00, 0x00,
    0x00, 0x00, 0x00, 0x00, 0x00, 0x00, 0x00, 0x00, 0x00, 0x00, 0x00, 0x00, 0x00, 0x00, 0x00,
    0x00, 0x00, 0x00, 0x00, 0x00, 0x00, 0x00, 0x00, 0x00, 0x00,
];

fn f64_le(bytes: [u8; 8]) -> f64 {
    f64::from_le_bytes(bytes)
}

#[test]
fn cg_block_read() {
    let cg_data = [
        0x43, 0x47, 0x1E, 0x00, 0x00, 0x00, 0x00, 0x00, 0x2E, 0xE1, 0x10, 0x00, 0x8A, 0xE4, 0x10,
        0x00, 0x01, 0x00, 0x02, 0x00, 0x09, 0x00, 0x7C, 0x00, 0x00, 0x00, 0x00, 0x00, 0x00, 0x00,
    ];

    let (position, cg_block) = <Cgblock as Mdf3Block>::read(&cg_data, 0, true);

    assert_eq!(position, 30);

    assert_eq!(cg_block.next, 0);
    assert_eq!(cg_block.first, 1106222);
    assert_eq!(cg_block.comment, 1107082);
    assert_eq!(cg_block.record_id, 1);
    assert_eq!(cg_block.number_of_channels, 2);
    assert_eq!(cg_block.record_size, 9);
    assert_eq!(cg_block.record_number, 124);
    assert_eq!(cg_block.first_sample_reduction_block, 0);
}

#[test]
fn cg_block_write() {}

#[test]
fn cd_block_read() {}

#[test]
fn cd_block_write() {}

#[test]
fn cn_block_write() {
    Cnblock::write();
}

#[test]
fn dg_block_read() {
    let dg_data = [
        0x44, 0x47, 0x1C, 0x00, 0xF4, 0xDF, 0x10, 0x00, 0x99, 0xE4, 0x10, 0x00, 0x2B, 0xE5, 0x10,
        0x00, 0xDC, 0x03, 0x00, 0x00, 0x01, 0x00, 0x00, 0x00, 0x00, 0x00, 0x00, 0x00,
    ];

    let position = 0;
    let (position, dg_block) = <Dgblock as Mdf3Block>::read(&dg_data, position, true);

    assert_eq!(position, 28);
    assert_eq!(dg_block.next, 1105908);
    assert_eq!(dg_block.first, 1107097);
    assert_eq!(dg_block.trigger_block, 1107243);
    assert_eq!(dg_block.data_block, 988);
    assert_eq!(dg_block.group_number, 1);
    assert_eq!(dg_block.id_number, 0);
    assert_eq!(dg_block.reserved, 0);
}

#[test]
fn dg_block_write() {}

#[test]
fn event_read() {}

#[test]
fn event_write() {}

#[test]
fn id_block_read() {
    let id_data = [
        0x4D, 0x44, 0x46, 0x20, 0x20, 0x20, 0x20, 0x20, 0x33, 0x2E, 0x33, 0x30, 0x00, 0x00, 0x00,
        0x00, 0x61, 0x6D, 0x64, 0x66, 0x36, 0x34, 0x34, 0x00, 0x00, 0x00, 0x00, 0x00, 0x4A, 0x01,
        0x00, 0x00, 0x00, 0x00, 0x00, 0x00, 0x00, 0x00, 0x00, 0x00, 0x00, 0x00, 0x00, 0x00, 0x00,
        0x00, 0x00, 0x00, 0x00, 0x00, 0x00, 0x00, 0x00, 0x00, 0x00, 0x00, 0x00, 0x00, 0x00, 0x00,
        0x00, 0x00, 0x00, 0x00,
    ];

    let (id_block, position, endian) = Idblock::read(&id_data);

    assert_eq!(position, 64);
    assert!(endian);
    assert!(utils::eq(
        &id_block.format_id,
        &[0x33, 0x2E, 0x33, 0x30, 0x00, 0x00, 0x00, 0x00,]
    ));
    assert!(utils::eq(
        &id_block.program_id,
        &[0x61, 0x6D, 0x64, 0x66, 0x36, 0x34, 0x34, 0x00,]
    ));
    assert_eq!(id_block.default_float_format, 0);
    assert_eq!(id_block.version_number, 330);
    assert_eq!(id_block.code_page_number, 0);
    assert!(utils::eq(&id_block.reserved1, &[0, 0]));
    assert!(utils::eq(
        &id_block.reserved2,
        &[
            00, 00, 00, 00, 00, 00, 00, 00, 00, 00, 00, 00, 00, 00, 00, 00, 00, 00, 00, 00, 00,
            00, 00, 00, 00, 00, 00, 00, 00, 00,
        ]
    ))
}

#[test]
fn id_block_write() {}

#[test]
fn sr_block_read() {}

#[test]
fn sr_block_write() {}

#[test]
fn cc_block_read() {
    let (position, cc_block) = <Ccblock as Mdf3Block>::read(&CC_DATA, 0, true);

    assert_eq!(position, 47); // should match the block size
    assert_eq!(cc_block.block_size, 46);
    assert_eq!(cc_block.physical_range_valid, 1);

    assert!(
        (f64::from_bits(cc_block.physical_min)
            - f64_le([0x04, 0x19, 0x60, 0x9C, 0xAE, 0xDD, 0xBC, 0x3F]))
        .abs()
            < 0.1
    );
    assert!(
        (f64::from_bits(cc_block.physical_max)
            - f64_le([0x52, 0xE8, 0x62, 0xFA, 0x56, 0xD3, 0x28, 0x40]))
        .abs()
            < 0.1
    );
    assert!(utils::eq(
        &cc_block.unit,
        &[
            0x73, 0x00, 0x00, 0x00, 0x00, 0x00, 0x00, 0x00, 0x00, 0x00, 0x00, 0x00, 0x00, 0x00,
            0x00, 0x00, 0x00, 0x00, 0x00, 0x00
        ]
    ));

    assert_eq!(cc_block.conversion_type, 65535);
    assert_eq!(cc_block.size_info, 0);
}

#[test]
fn cc_block_write() {
    let (_position, cc_block) = <Ccblock as Mdf3Block>::read(&CC_DATA, 0, true);

    let write_result = cc_block.write(0, true);

    assert!(utils::eq(&CC_DATA, &write_result));
}

#[test]
fn cn_block_read() {
    let (pos, cn) = <rsmdf::mdf4::cn_block::Cnblock as Block>::read(&MDF4_CN_RAW, 0, true);

    assert_eq!(pos, 160);
    assert_eq!(cn.cn_cn_next, 25384);
    assert_eq!(cn.cn_composition, 0);
    assert_eq!(cn.cn_tx_name, 17728);
    assert_eq!(cn.cn_si_source, 25112);
    assert_eq!(cn.cn_cc_conversion, 23488);
    assert_eq!(cn.cn_md_unit, 17984);
    assert_eq!(cn.cn_md_comment, 17840);

    let cn_data = [
        0x43, 0x4E, 0xE4, 0x00, 0xA6, 0xE3, 0x10, 0x00, 0x80, 0xE0, 0x10, 0x00, 0xAE, 0xE0,
        0x10, 0x00, 0x00, 0x00, 0x00, 0x00, 0x00, 0x00, 0x00, 0x00, 0x01, 0x00, 0x74, 0x69,
        0x6D, 0x65, 0x00, 0x00, 0x00, 0x00, 0x00, 0x00, 0x00, 0x00, 0x00, 0x00, 0x00, 0x00,
        0x00, 0x00, 0x00, 0x00, 0x00, 0x00, 0x00, 0x00, 0x00, 0x00, 0x00, 0x00, 0x00, 0x00,
        0x00, 0x00, 0x00, 0x00, 0x00, 0x00, 0x00, 0x00, 0x00, 0x00, 0x00, 0x00, 0x00, 0x00,
        0x00, 0x00, 0x00, 0x00, 0x00, 0x00, 0x00, 0x00, 0x00, 0x00, 0x00, 0x00, 0x00, 0x00,
        0x00, 0x00, 0x00, 0x00, 0x00, 0x00, 0x00, 0x00, 0x00, 0x00, 0x00, 0x00, 0x00, 0x00,
        0x00, 0x00, 0x00, 0x00, 0x00, 0x00, 0x00, 0x00, 0x00, 0x00, 0x00, 0x00, 0x00, 0x00,
        0x00, 0x00, 0x00, 0x00, 0x00, 0x00, 0x00, 0x00, 0x00, 0x00, 0x00, 0x00, 0x00, 0x00,
        0x00, 0x00, 0x00, 0x00, 0x00, 0x00, 0x00, 0x00, 0x00, 0x00, 0x00, 0x00, 0x00, 0x00,
        0x00, 0x00, 0x00, 0x00, 0x00, 0x00, 0x00, 0x00, 0x00, 0x00, 0x00, 0x00, 0x00, 0x00,
        0x00, 0x00, 0x00, 0x00, 0x00, 0x00, 0x00, 0x00, 0x00, 0x00, 0x00, 0x00, 0x00, 0x00,
        0x00, 0x00, 0x00, 0x00, 0x00, 0x00, 0x00, 0x00, 0x00, 0x00, 0x00, 0x00, 0x00, 0x00,
        0x00, 0x00, 0x00, 0x00, 0x00, 0x00, 0x40, 0x00, 0x03, 0x00, 0x01, 0x00, 0x04, 0x19,
        0x60, 0x9C, 0xAE, 0xDD, 0xBC, 0x3F, 0x52, 0xE8, 0x62, 0xFA, 0x56, 0xD3, 0x28, 0x40,
        0x00, 0x00, 0x00, 0x00, 0x00, 0x00, 0x00, 0x00, 0x00, 0x00, 0x00, 0x00, 0x00, 0x00,
        0x00, 0x00, 0x00, 0x00, 0x54, 0x58, 0x2B, 0x00, 0x41, 0x53, 0x41, 0x4D, 0x2E, 0x4D,
        0x2E, 0x53, 0x43, 0x41, 0x4C, 0x41, 0x52, 0x2E, 0x53, 0x42, 0x59, 0x54, 0x45, 0x2E,
        0x49, 0x44, 0x45, 0x4E, 0x54, 0x49, 0x43, 0x41, 0x4C, 0x2E, 0x44, 0x49, 0x53, 0x43,
        0x52, 0x45, 0x54, 0x45, 0x00, 0x54, 0x58, 0xBB,
    ];

    let (_pos, cn_block) = <Cnblock as Mdf3Block>::read(&cn_data, 0, true);

    assert_eq!(cn_block.block_size, 228);
    assert_eq!(cn_block.next, 1106854);
    assert_eq!(cn_block.conversion_formula, 1106048);
    assert_eq!(cn_block.source_ext, 1106094);
    assert_eq!(cn_block.dependency, 0);
    assert_eq!(cn_block.comment, 0);
    assert_eq!(cn_block.channel_type, 1);
    assert!(utils::eq(
        &cn_block.short_name,
        &[
            0x74, 0x69, 0x6D, 0x65, 0x00, 0x00, 0x00, 0x00, 0x00, 0x00, 0x00, 0x00, 0x00, 0x00,
            0x00, 0x00, 0x00, 0x00, 0x00, 0x00, 0x00, 0x00, 0x00, 0x00, 0x00, 0x00, 0x00, 0x00,
            0x00, 0x00, 0x00, 0x00,
        ]
    ));
    assert!(utils::eq(&cn_block.desc, &[0x00; 128]));
    assert_eq!(cn_block.start_offset, 0);
    assert_eq!(cn_block.bit_number, 64);
    assert_eq!(cn_block.value_range_valid, 1);

    assert!(
        (f64::from_bits(cn_block.signal_min)
            - f64_le([0x04, 0x19, 0x60, 0x9C, 0xAE, 0xDD, 0xBC, 0x3F]))
        .abs()
            < 0.1
    );
    assert!(
        (f64::from_bits(cn_block.signal_max)
            - f64_le([0x52, 0xE8, 0x62, 0xFA, 0x56, 0xD3, 0x28, 0x40]))
        .abs()
            < 0.1
    );
    assert!((f64::from_bits(cn_block.sample_rate) - 0.0).abs() < 0.1);

    assert_eq!(cn_block.display_name, 0);
    assert_eq!(cn_block.addition_byte_offset, 0);
}
