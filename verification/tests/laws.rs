use rsmdf::mdf3::cc_types::{ConversionTypes, Date};
use rsmdf::mdf3::cg_block::Cgblock;
use rsmdf::mdf3::dg_block::Dgblock;
use rsmdf::mdf3::event::Event;
use rsmdf::mdf3::id_block::Idblock;
use rsmdf::mdf3::mdf3_block::Mdf3Block;
use rsmdf::mdf3::signals::Signals;
use rsmdf::mdf3::sr_block::Srblock;
use rsmdf::mdf3::{TXBLOCK, DGBLOCK, CDBLOCK, TRBLOCK, PRBLOCK};
use rsmdf::record::{DataType, DataTypeRead, Record};
use rsmdf::utils::{extract_name, read, read_be, read_le, write_uint, FromBytes};

#[test]
fn id_block_write_then_read() {
    let block = Idblock::new(*b"MDF     ", *b"3.30    ", *b"prog    ", 0, 0, 330, 7);
    let bytes = block.write(true);
    assert_eq!(bytes.len(), 64);
    let (back, pos, little_endian) = Idblock::read(&bytes);
    assert_eq!(back, block);
    assert_eq!(pos, 64);
    assert!(little_endian);
}

#[test]
fn id_block_big_endian_file() {
    // Byte order code 1 makes the later numbers big endian.
    let mut block = Idblock::default();
    block.file_id = *b"MDF     ";
    let mut bytes = block.write(true);
    bytes[24] = 1;
    bytes[28] = 0x01;
    bytes[29] = 0x4A;
    let (back, _pos, little_endian) = Idblock::read(&bytes);
    assert!(!little_endian);
    assert_eq!(back.version_number, 330);
}

#[test]
fn signals_write_then_read() {
    let sig = Signals { data_group: 1, channel_group: 0x0102_0304, channel: u32::MAX };
    for le in [true, false] {
        let bytes = sig.write(le);
        assert_eq!(bytes.len(), 12);
        let (back, pos) = Signals::read(&bytes, le);
        assert_eq!(back, sig);
        assert_eq!(pos, 12);
    }
    assert_eq!(sig.write(false)[4..8], [1, 2, 3, 4]);
}

#[test]
fn dg_and_cg_write_then_read() {
    let dg_data = [
        0x44, 0x47, 0x1C, 0x00, 0xF4, 0xDF, 0x10, 0x00, 0x99, 0xE4, 0x10, 0x00, 0x2B, 0xE5, 0x10,
        0x00, 0xDC, 0x03, 0x00, 0x00, 0x01, 0x00, 0x00, 0x00, 0x00, 0x00, 0x00, 0x00,
    ];
    let (_, dg) = <Dgblock as Mdf3Block>::read(&dg_data, 0, true);
    assert_eq!(dg.write(0, true), dg_data.to_vec());
    let be = dg.write(0, false);
    let (_, back) = <Dgblock as Mdf3Block>::read(&be, 0, false);
    assert_eq!(back, dg);
    assert_eq!(dg.data_location(), 988);

    let cg_data = [
        0x43, 0x47, 0x1E, 0x00, 0x00, 0x00, 0x00, 0x00, 0x2E, 0xE1, 0x10, 0x00, 0x8A, 0xE4, 0x10,
        0x00, 0x01, 0x00, 0x02, 0x00, 0x09, 0x00, 0x7C, 0x00, 0x00, 0x00, 0x00, 0x00, 0x00, 0x00,
    ];
    let (_, cg) = <Cgblock as Mdf3Block>::read(&cg_data, 0, true);
    assert_eq!(cg.write(0, true), cg_data.to_vec());
    assert_eq!(cg.data_length(), 124 * 9);
    assert_eq!(cg.record_number(), 124);
    assert_eq!(cg.record_size(), 9);
}

#[test]
fn sr_block_write_then_read() {
    let mut raw = vec![b'S', b'R', 24, 0, 0, 0, 0, 0, 9, 0, 0, 0, 3, 0, 0, 0];
    raw.extend(0.5f64.to_le_bytes());
    let (end, sr) = <Srblock as Mdf3Block>::read(&raw, 0, true);
    assert_eq!(end, 24);
    assert_eq!(sr.data_block, 9);
    assert_eq!(f64::from_bits(sr.time_interval_length), 0.5);
    assert_eq!(sr.write(0, true), raw);
}

#[test]
fn event_write_then_read() {
    let event = Event { trigger_time: 1.5f64.to_bits(), pre_trigger_time: 0, post_trigger_time: u64::MAX };
    let bytes = event.write(false);
    assert_eq!(bytes.len(), 24);
    let (back, pos) = Event::read(&bytes, 0, false);
    assert_eq!(back, event);
    // The position handed back is the one given.
    assert_eq!(pos, 0);
}

#[test]
fn record_write_then_read() {
    let cases = [
        (Record::Uint(200), DataType::UnsignedInt),
        (Record::Int(-3), DataType::SignedInt),
        (Record::Float32(2.5f32.to_bits()), DataType::Float32),
        (Record::Float64((-7.25f64).to_bits()), DataType::Float64),
    ];
    for (record, data_type) in cases {
        for le in [true, false] {
            let bytes = record.write(le);
            let back = Record::new(&bytes, DataTypeRead { data_type, little_endian: le });
            assert_eq!(back, record);
        }
    }
    let text = Record::new(b"abc\0def", DataTypeRead { data_type: DataType::StringNullTerm, little_endian: true });
    assert_eq!(text, Record::StringNullTerm("abc".to_string()));
    assert_eq!(text.write(true), b"abc".to_vec());
    let latin = Record::new(&[0xE9, 0x00], DataTypeRead { data_type: DataType::StringNullTerm, little_endian: true });
    assert_eq!(latin, Record::StringNullTerm("é".to_string()));
}

#[test]
fn data_type_write_then_new() {
    for code in 0u16..=16 {
        for le in [true, false] {
            let d = DataTypeRead::new(code, le);
            let bytes = d.write(le);
            let back = DataTypeRead::new(bytes[0] as u16, bytes[1] == 1);
            assert_eq!(back, d);
        }
    }
    assert_eq!(DataTypeRead::new(12, true), DataTypeRead { data_type: DataType::Float64, little_endian: false });
    assert_eq!(DataTypeRead::new(3, true).len(), 8);
    assert!(DataTypeRead::new(8, true).is_empty());
}

#[test]
fn byte_order_round_trip() {
    let v: u64 = 0x0102_0304_0506_0708;
    let le = write_uint(v, 8, true);
    let be = write_uint(v, 8, false);
    assert_eq!(le, vec![8, 7, 6, 5, 4, 3, 2, 1]);
    assert_eq!(be, vec![1, 2, 3, 4, 5, 6, 7, 8]);
    assert_eq!(read_le::<u64>(&le), v);
    assert_eq!(read_be::<u64>(&be), v);
    assert_eq!(<i16 as FromBytes>::from_le_bytes(&[0xFE, 0xFF]), -2);
    let mut pos = 1;
    let x: u16 = read(&[9, 0x34, 0x12, 7], true, &mut pos);
    assert_eq!(x, 0x1234);
    assert_eq!(pos, 3);
}

#[test]
fn display_name_from_xml() {
    let xml = b"<CNcomment><TX>unit text</TX><names><display>Engine speed</display></names></CNcomment>";
    assert_eq!(extract_name(xml), "Engine speed");
    assert_eq!(extract_name(b"<CNcomment><TX>only text</TX></CNcomment>"), "");
    // Text after an error is not looked at.
    assert_eq!(extract_name(b"<display>first</display><<display>second</display>"), "first");
}

#[test]
fn mdf3_module_text_block() {
    let mut raw = vec![b'T', b'X', 0, 0];
    let xml = b"<a><display>N\xE9</display></a>";
    let size = (xml.len() + 5) as u16;
    raw[2..4].copy_from_slice(&size.to_le_bytes());
    raw.extend_from_slice(xml);
    raw.push(0);
    assert!(TXBLOCK::is_readable(&raw, 0, true));
    let (tx, end) = TXBLOCK::read(&raw, 0, true);
    assert_eq!(end, raw.len() - 1);
    // A byte from 128 up became a space.
    assert_eq!(tx.text[13], b' ');
    assert!(!tx.text.contains(&0xE9));
    assert_eq!(tx.name(), "N ");
}

#[test]
fn byte_arrays_are_read_in_stream_order() {
    let bytes = [1u8, 2, 3, 4, 5];
    let le: [u8; 3] = read_le(&bytes);
    let be: [u8; 3] = read_be(&bytes);
    assert_eq!(le, [1, 2, 3]);
    assert_eq!(be, [1, 2, 3]);
    assert_eq!(<[u8; 2] as FromBytes>::from_be_bytes(&bytes[3..]), [4, 5]);
    assert_eq!(<[u8; 4] as FromBytes>::width(), 4);
    let mut pos = 1;
    let mid: [u8; 2] = read(&bytes, false, &mut pos);
    assert_eq!(mid, [2, 3]);
    assert_eq!(pos, 3);
}

#[test]
fn big_endian_reads_are_byte_swapped_little_endian_reads() {
    let a = [0x12u8, 0x34, 0x56, 0x78, 0x9A, 0xBC, 0xDE, 0xF0, 0xFF];
    assert_eq!(read_be::<u32>(&a), read_le::<u32>(&a).swap_bytes());
    assert_eq!(read_be::<u32>(&a), 0x1234_5678);
    assert_eq!(read_be::<u16>(&a), read_le::<u16>(&a).swap_bytes());
    assert_eq!(read_be::<u64>(&a), read_le::<u64>(&a).swap_bytes());
    assert_eq!(read_be::<i16>(&a), read_le::<i16>(&a).swap_bytes());
    assert_eq!(read_be::<i32>(&a), read_le::<i32>(&a).swap_bytes());
    assert_eq!(read_be::<i64>(&a), read_le::<i64>(&a).swap_bytes());
    assert_eq!(<u64 as FromBytes>::width(), 8);
}

#[test]
fn mdf3_text_block_blanks_every_non_ascii_byte() {
    let raw = [0x54u8, 0x58, 0x07, 0x00, 0x80, 0xFF];
    assert!(TXBLOCK::is_readable(&raw, 0, true));
    let (tx, end) = TXBLOCK::read(&raw, 0, true);
    assert_eq!(end, 6);
    assert_eq!(tx.block_type, *b"TX");
    assert_eq!(tx.block_size, 7);
    assert_eq!(tx.text, vec![0x20u8, 0x20]);
    assert!(std::str::from_utf8(&tx.text).is_ok());
    let (kept, _) = TXBLOCK::read(&[0x54u8, 0x58, 0x07, 0x00, 0x7F, 0x41], 0, true);
    assert_eq!(kept.text, vec![0x7Fu8, 0x41]);
}

#[test]
fn mdf3_module_data_group_chain() {
    let mut stream = vec![0u8; 2];
    let mk = |next: u32| {
        let mut b = vec![b'D', b'G', 28, 0];
        b.extend(next.to_le_bytes());
        b.extend([0u8; 20]);
        b
    };
    stream.extend(mk(30));
    stream.extend(mk(0));
    let all = DGBLOCK::read_all(&stream, true, 2);
    assert_eq!(all.len(), 2);
    assert_eq!(all[0].next, 30);
    assert_eq!(all[1].next, 0);
    assert!(DGBLOCK::read_all(&stream, true, 0).is_empty());
    let chain = Dgblock::read_all(&stream, true, 2);
    assert_eq!(chain.len(), 2);
}

#[test]
fn mdf3_module_dependency_block() {
    let mut raw = vec![b'C', b'D', 0, 0, 3, 0, 3, 0];
    raw.extend([1, 0, 0, 0, 2, 0, 0, 0, 3, 0, 0, 0]);
    raw.extend([0u8; 12]);
    raw.extend([5, 0, 6, 0]);
    let (cd, end) = CDBLOCK::read(&raw, true);
    assert_eq!(cd.groups.len(), 2);
    assert_eq!(cd.groups[1], Signals { data_group: u32::from_le_bytes([b'C', b'D', 0, 0]), channel_group: 0x0003_0003, channel: 1 });
    assert_eq!(cd.dims, vec![u16::from_le_bytes([raw[32], raw[33]]), u16::from_le_bytes([raw[34], raw[35]])]);
    assert_eq!(end, 8 + 24 + 4);
}

#[test]
fn mdf3_module_trigger_block_doubles_event_positions() {
    let mut raw = vec![0u8; 200];
    raw[0] = b'T';
    raw[1] = b'R';
    raw[8] = 2;
    raw[10..18].copy_from_slice(&1.0f64.to_le_bytes());
    raw[20..28].copy_from_slice(&2.0f64.to_le_bytes());
    let (tr, pos) = TRBLOCK::read(&raw, true, 0);
    assert_eq!(pos, 10);
    assert_eq!(tr.trigger_events_number, 2);
    assert_eq!(f64::from_bits(tr.events[0].trigger_time), 1.0);
    assert_eq!(f64::from_bits(tr.events[1].trigger_time), 2.0);
}

#[test]
fn mdf3_module_program_block() {
    let mut raw = vec![b'P', b'R', 14, 0, 0, 0, b'a', 0x90, b'c', b'd'];
    raw.extend([0u8; 4]);
    let (pr, end) = PRBLOCK::read(&raw, 0, true);
    assert_eq!(pr.program_data, vec![b'a', b' ']);
    assert_eq!(end, 8);
}

#[test]
fn conversion_types_read() {
    let mut raw = vec![0u8; 3];
    raw.extend(2.0f64.to_le_bytes());
    raw.extend(0.5f64.to_le_bytes());
    match ConversionTypes::new(&raw, 3, true, 0) {
        ConversionTypes::Linear(l) => {
            assert_eq!(f64::from_bits(l.p1), 2.0);
            assert_eq!(f64::from_bits(l.p2), 0.5);
        },
        _ => panic!("expected a linear conversion"),
    }
    let date = [0xE8, 0x03, 5, 6, 7, 8, 9];
    match ConversionTypes::new(&date, 0, true, 132) {
        ConversionTypes::Date(d) => assert_eq!(d, Date { ms: 1000, min: 5, hour: 6, day: 7, month: 8, year: 9 }),
        _ => panic!("expected a date"),
    }
}
