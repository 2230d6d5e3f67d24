use fmt_tbl::cursor::{encode_varint, Cursor};
use fmt_tbl::error::DecodeError;
use fmt_tbl::rule::LookupTables;
use fmt_tbl::shape::{Shape, REUSE};
use fmt_tbl::spelling::{add_prefix, add_suffix};
use fmt_tbl::table::{FormatterTable, PREFIX_FLAG};

// Shape ids as the blob names them.
const BARE: u8 = 0;
const WITH_COUNT: u8 = 1;
const OP_SIZE: u8 = 23;
const OP_SIZE2_BND: u8 = 24;
const OP_SIZE3: u8 = 25;
const OS_CALL_3: u8 = 29;
const POPS_2: u8 = 39;
const STIG1_2: u8 = 52;

fn tables() -> LookupTables {
    LookupTables {
        strings: vec!["nop".to_string(), "bnd".to_string(), "call".to_string(), "jmp".to_string()],
        pseudo_ops: vec![vec!["eq".to_string(), "lt".to_string()], vec!["lo".to_string()]],
    }
}

fn strs(v: &[&str]) -> Vec<String> {
    v.iter().map(|s| s.to_string()).collect()
}

#[test]
fn bare_record_gives_mnemonic() {
    let table = FormatterTable::build(&[0x00, 0x00], 1, &tables()).unwrap();
    assert_eq!(table.len(), 1);
    assert_eq!(table.get(0).mnemonic, "nop");
    assert_eq!(table.get(0).shape, Shape::Normal_1);
    assert!(table.get(0).args.is_empty());
}

#[test]
fn reuse_record_adds_prefix() {
    let blob = [0x00, 0x00, PREFIX_FLAG | REUSE];
    let table = FormatterTable::build(&blob, 2, &tables()).unwrap();
    assert_eq!(table.get(1).mnemonic, "vnop");
    let (a, b) = (table.get(0), table.get(1));
    assert_eq!(a.shape, b.shape);
    assert_eq!(a.spellings, b.spellings);
    assert_eq!(a.args, b.args);
    assert_eq!(a.pseudo_ops, b.pseudo_ops);
}

#[test]
fn leftover_byte_is_trailing_data() {
    let r = FormatterTable::build(&[0x00, 0x00, 0x00], 1, &tables());
    assert!(matches!(r, Err(DecodeError::TrailingData)));
}

#[test]
fn valid_blob_plus_one_byte_fails() {
    let blob = vec![WITH_COUNT, 0x01, 0x05, 0x00, 0x02];
    assert!(FormatterTable::build(&blob, 2, &tables()).is_ok());
    let mut longer = blob.clone();
    longer.push(0x00);
    assert!(matches!(FormatterTable::build(&longer, 2, &tables()), Err(DecodeError::TrailingData)));
}

#[test]
fn empty_table_from_empty_blob() {
    let table = FormatterTable::build(&[], 0, &tables()).unwrap();
    assert_eq!(table.len(), 0);
}

#[test]
fn one_rule_per_slot() {
    let blob = [BARE, 0x00, BARE, 0x01, REUSE, WITH_COUNT, 0x02, 0x07, REUSE];
    let table = FormatterTable::build(&blob, 5, &tables()).unwrap();
    assert_eq!(table.len(), 5);
    assert_eq!(table.get(0).mnemonic, "nop");
    assert_eq!(table.get(1).mnemonic, "bnd");
    assert_eq!(table.get(2).mnemonic, "bnd");
    assert_eq!(table.get(3).mnemonic, "call");
    assert_eq!(table.get(3).args, vec![7]);
    assert_eq!(table.get(4).mnemonic, "call");
    assert_eq!(table.get(4).args, vec![7]);
}

#[test]
fn decoding_twice_gives_equal_tables() {
    let blob = [WITH_COUNT | PREFIX_FLAG, 0x03, 0x81, 0x01, REUSE, OP_SIZE, 0x00, 0x02];
    let a = FormatterTable::build(&blob, 3, &tables()).unwrap();
    let b = FormatterTable::build(&blob, 3, &tables()).unwrap();
    assert_eq!(a.len(), b.len());
    for i in 0..a.len() {
        assert_eq!(a.get(i), b.get(i));
    }
    assert_eq!(a.get(0).mnemonic, "vjmp");
    assert_eq!(a.get(0).args, vec![129]);
    assert_eq!(a.get(1).mnemonic, "jmp");
    assert_eq!(a.get(1).args, vec![129]);
}

#[test]
fn reuse_without_original_fails() {
    let r = FormatterTable::build(&[REUSE], 1, &tables());
    assert!(matches!(r, Err(DecodeError::InvalidBackReference)));
}

#[test]
fn missing_bytes_are_truncated_data() {
    assert!(matches!(FormatterTable::build(&[], 1, &tables()), Err(DecodeError::TruncatedData)));
    assert!(matches!(FormatterTable::build(&[WITH_COUNT, 0x00], 1, &tables()), Err(DecodeError::TruncatedData)));
    assert!(matches!(FormatterTable::build(&[BARE, 0x80], 1, &tables()), Err(DecodeError::TruncatedData)));
}

#[test]
fn unknown_shape_is_malformed() {
    let r = FormatterTable::build(&[61, 0x00], 1, &tables());
    assert!(matches!(r, Err(DecodeError::MalformedData)));
}

#[test]
fn string_id_out_of_range_is_malformed() {
    let r = FormatterTable::build(&[BARE, 0x04], 1, &tables());
    assert!(matches!(r, Err(DecodeError::MalformedData)));
}

#[test]
fn pseudo_op_category_out_of_range_is_malformed() {
    let r = FormatterTable::build(&[POPS_2, 0x00, 0x02], 1, &tables());
    assert!(matches!(r, Err(DecodeError::MalformedData)));
}

#[test]
fn oversized_varint_is_malformed() {
    let r = FormatterTable::build(&[BARE, 0x80, 0x80, 0x80, 0x80, 0x10], 1, &tables());
    assert!(matches!(r, Err(DecodeError::MalformedData)));
    let r = FormatterTable::build(&[BARE, 0x80, 0x80, 0x80, 0x80, 0x80, 0x00], 1, &tables());
    assert!(matches!(r, Err(DecodeError::MalformedData)));
}

#[test]
fn boolean_byte_two_is_rejected() {
    let r = FormatterTable::build(&[STIG1_2, 0x00, 0x02], 1, &tables());
    assert!(matches!(r, Err(DecodeError::InvalidBooleanField)));
    let r = FormatterTable::build(&[OS_CALL_3, 0x02, 0x01, 0x05], 1, &tables());
    assert!(matches!(r, Err(DecodeError::InvalidBooleanField)));
}

#[test]
fn boolean_bytes_zero_and_one_differ() {
    let f = FormatterTable::build(&[STIG1_2, 0x00, 0x00], 1, &tables()).unwrap();
    let t = FormatterTable::build(&[STIG1_2, 0x00, 0x01], 1, &tables()).unwrap();
    assert_eq!(f.get(0).args, vec![0]);
    assert_eq!(t.get(0).args, vec![1]);
    assert_ne!(f.get(0), t.get(0));
}

#[test]
fn op_size_appends_width_suffixes() {
    let table = FormatterTable::build(&[OP_SIZE, 0x00, 0x03], 1, &tables()).unwrap();
    let r = table.get(0);
    assert_eq!(r.shape, Shape::OpSize);
    assert_eq!(r.spellings, strs(&["nopw", "nopd", "nopq"]));
    assert_eq!(r.args, vec![3]);
}

#[test]
fn op_size_reuse_composes_from_prefixed_mnemonic() {
    let table = FormatterTable::build(&[OP_SIZE, 0x00, 0x03, PREFIX_FLAG | REUSE], 2, &tables()).unwrap();
    let r = table.get(1);
    assert_eq!(r.mnemonic, "vnop");
    assert_eq!(r.spellings, strs(&["vnopw", "vnopd", "vnopq"]));
    assert_eq!(r.args, vec![3]);
}

#[test]
fn op_size3_appends_stored_character() {
    let table = FormatterTable::build(&[OP_SIZE3, 0x03, b'l', 0x05], 1, &tables()).unwrap();
    let r = table.get(0);
    assert_eq!(r.spellings, strs(&["jmpl"]));
    assert_eq!(r.args, vec![5]);
}

#[test]
fn op_size2_bnd_looks_up_spellings() {
    let table = FormatterTable::build(&[OP_SIZE2_BND, 0x01, 0x00, 0x02, 0x03], 1, &tables()).unwrap();
    assert_eq!(table.get(0).mnemonic, "bnd");
    assert_eq!(table.get(0).spellings, strs(&["nop", "call", "jmp"]));
}

#[test]
fn pseudo_ops_come_from_table() {
    let table = FormatterTable::build(&[POPS_2, 0x00, 0x01, POPS_2 | PREFIX_FLAG, 0x02, 0x00], 2, &tables()).unwrap();
    assert_eq!(table.get(0).pseudo_ops, strs(&["lo"]));
    assert_eq!(table.get(1).mnemonic, "vcall");
    assert_eq!(table.get(1).pseudo_ops, strs(&["eq", "lt"]));
}

#[test]
fn shape_ids_map_to_catalog() {
    assert_eq!(Shape::from_id(0), Some(Shape::Normal_1));
    assert_eq!(Shape::from_id(60), Some(Shape::YX));
    assert_eq!(Shape::from_id(61), None);
    assert_eq!(Shape::from_id(REUSE), None);
    assert_eq!(Shape::OpSize.fields().len(), 4);
}

#[test]
fn varint_known_encodings() {
    assert_eq!(encode_varint(0), vec![0x00]);
    assert_eq!(encode_varint(127), vec![0x7F]);
    assert_eq!(encode_varint(128), vec![0x80, 0x01]);
    assert_eq!(encode_varint(300), vec![0xAC, 0x02]);
    assert_eq!(encode_varint(u32::MAX), vec![0xFF, 0xFF, 0xFF, 0xFF, 0x0F]);
}

#[test]
fn varint_round_trip() {
    for x in [0u32, 1, 127, 128, 255, 300, 16383, 16384, 2097151, 2097152, 268435455, 268435456, u32::MAX] {
        let mut bytes = encode_varint(x);
        bytes.push(0xAA);
        let mut c = Cursor::new(&bytes);
        assert_eq!(c.read_varint(), Ok(x));
        assert_eq!(c.position(), bytes.len() - 1);
        assert!(c.remaining());
    }
}

#[test]
fn cursor_reads_and_seeks() {
    let data = [0x05, 0x81, 0x02];
    let mut c = Cursor::new(&data);
    assert_eq!(c.read_byte(), Ok(5));
    assert_eq!(c.read_varint(), Ok(257));
    assert!(!c.remaining());
    assert_eq!(c.read_byte(), Err(DecodeError::TruncatedData));
    c.seek(1);
    assert_eq!(c.position(), 1);
    assert_eq!(c.read_byte(), Ok(0x81));
    let mut d = Cursor::at(&data, 1);
    assert_eq!(d.read_varint(), Ok(257));
}

#[test]
fn spellings_compose() {
    assert_eq!(add_suffix("mov", 'q'), "movq");
    assert_eq!(add_prefix("add", 'v'), "vadd");
    assert_eq!(add_suffix("", 'x'), "x");
}
