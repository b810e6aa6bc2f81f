use h2_rust::api::error_code;
use h2_rust::api::error_code::get_state;
use h2_rust::errors::H2RustError;
use h2_rust::h2_rust_common::byte_buffer::{allocate, wrapSlice, wrapVec};
use h2_rust::h2_rust_common::h2_rust_utils::{get_from_map, integer_decode, properties_from_lines};
use h2_rust::h2_rust_common::properties::Properties;
use h2_rust::message::db_error::DbError;
use h2_rust::mvstore::chunk::{get_meta_key, Chunk};
use h2_rust::mvstore::data_utils::{
    check_argument, decodePageLength, getCheckValue, getPageChunkId, getPageMaxLength, getPageOffset,
    getPageType, get_config_int_param, is_page_saved, parseMap, readHexInt, readHexIntOrLong, readString1,
    readString2, readVarInt, readVarLong, PAGE_LARGE,
};
use h2_rust::mvstore::store_config::{ConfigValue, StoreConfig};
use h2_rust::store::fs::file_utils::{get_parent, is_absolute};
use h2_rust::util::chars::chars_of;
use h2_rust::util::io_utils::name_separators_to_native;
use h2_rust::util::numfmt::{i32_to_decimal, i32_to_hex, i64_to_decimal};
use h2_rust::util::string_utils::{convert_hex_to_byte_vec, to_lower_english, to_upper_english, truncate_string};
use h2_rust::util::utils::{parse_bool, scaleForAvailableMemory};

#[test]
fn integer_decode_test() {
    let e = integer_decode("s").err().unwrap();
    assert_eq!(e.error_code, error_code::DATA_CONVERSION_ERROR_1);
    assert_eq!(e.params, vec!["covert text s to number failed".to_string()]);
}

#[test]
fn db_error_test_translate() {
    let params = vec!["a".to_string(), "a".to_string()];
    assert_eq!(DbError::translate(&Properties::new(), "07001", &params), "Message 07001 not found");
    let mut messages = Properties::new();
    messages.insert("07001".to_string(), "Invalid parameter count for (0), expected count: (1)".to_string());
    assert_eq!(
        DbError::translate(&messages, "07001", &params),
        "Invalid parameter count for a, expected count: a"
    );
}

#[test]
fn errors_with_a_message_catalog() {
    let mut messages = Properties::new();
    messages.insert("90046".to_string(), "URL format error; must be (0) but is (1)".to_string());
    let params = vec!["F".to_string(), "u".to_string()];
    let e = DbError::get_with_messages(&messages, error_code::URL_FORMAT_ERROR_2, params.clone());
    assert_eq!(e.sql_state, "90046");
    assert_eq!(e.message, "URL format error; must be F but is u");
    let plain = DbError::get(error_code::URL_FORMAT_ERROR_2, params);
    assert_eq!(plain.message, "Message 90046 not found");
    let l = plain.localized(&messages);
    assert_eq!(l.message, "URL format error; must be F but is u");
    assert_eq!(l.error_code, error_code::URL_FORMAT_ERROR_2);
}

#[test]
fn test_get_invalid_value_exception() {
    let s = "1".to_string();
    let e = DbError::get_invalid_value_exception("a", &s);
    assert_eq!(e.error_code, error_code::INVALID_VALUE_2);
    assert_eq!(e.params, vec!["1".to_string(), "a".to_string()]);
    assert_eq!(e.sql_state, get_state(error_code::INVALID_VALUE_2));
    assert_eq!(e.message, format!("Message {} not found", e.sql_state));
}

#[test]
fn test_int_hex() {
    assert_eq!(i32_to_hex(27), "1b");
    assert_eq!(i32_to_hex(-1), "ffffffff");
}

#[test]
fn test_hash_map_any() {
    let mut config = StoreConfig::new();
    config.insert("value".to_string(), ConfigValue::Str("171".to_string()));
    assert_eq!(get_config_int_param(&config, "value", 1), 171);
    match get_from_map(&config, "value") {
        Some(ConfigValue::Str(s)) => assert_eq!(s, "171"),
        _ => panic!("the value is a text"),
    }
    assert!(get_from_map(&config, "other").is_none());
}

#[test]
fn test_char_to_number() {
    let c = chars_of("a");
    assert_eq!(c.len(), 1);
    assert_eq!(c[0] as i32, 97);
}

#[test]
fn integer_decode_forms() {
    assert_eq!(integer_decode("123").ok(), Some(123));
    assert_eq!(integer_decode("0x1F").ok(), Some(31));
    assert_eq!(integer_decode("0X10").ok(), Some(16));
    assert_eq!(integer_decode("017").ok(), Some(15));
    assert_eq!(integer_decode("-5").ok(), Some(-5));
    assert_eq!(integer_decode("+7").ok(), Some(7));
    assert_eq!(integer_decode("0").ok(), Some(0));
    assert_eq!(integer_decode("010").ok(), Some(8));
    assert_eq!(integer_decode("-0x10").ok(), Some(-16));
    assert_eq!(integer_decode("#ff").ok(), Some(255));
    assert_eq!(integer_decode("-2147483648").ok(), Some(-2147483648));
    assert!(integer_decode("2147483648").is_err());
    assert!(integer_decode("").is_err());
    assert!(integer_decode("--5").is_err());
    assert!(integer_decode("0x").is_err());
    assert!(integer_decode("0x-5").is_err());
    assert!(integer_decode("08").is_err());
    assert!(integer_decode("99999999999").is_err());
}

#[test]
fn parse_bool_words() {
    assert_eq!(parse_bool("", true, true).ok(), Some(true));
    assert_eq!(parse_bool("Yes", false, true).ok(), Some(true));
    assert_eq!(parse_bool("0", true, true).ok(), Some(false));
    assert_eq!(parse_bool("FALSE", true, true).ok(), Some(false));
    assert_eq!(parse_bool("maybe", true, false).ok(), Some(true));
    let e = parse_bool("maybe", true, true).err().unwrap();
    assert_eq!(e.error_code, error_code::DATA_CONVERSION_ERROR_1);
}

#[test]
fn decimal_and_hex_forms() {
    assert_eq!(i32_to_decimal(-2147483648), "-2147483648");
    assert_eq!(i64_to_decimal(0), "0");
    assert_eq!(i32_to_decimal(4096), "4096");
}

#[test]
fn hex_bytes_decoding() {
    assert_eq!(convert_hex_to_byte_vec("00ff10").ok(), Some(vec![0, 255, 16]));
    assert_eq!(convert_hex_to_byte_vec("abc").err().unwrap().error_code, error_code::HEX_STRING_ODD_1);
    assert_eq!(convert_hex_to_byte_vec("zz").err().unwrap().error_code, error_code::HEX_STRING_WRONG_1);
}

#[test]
fn case_and_truncation() {
    assert_eq!(to_upper_english("aBc"), "ABC");
    assert_eq!(to_lower_english("ÄB"), "äb");
    assert_eq!(truncate_string("abcdef", 3), "abc");
    assert_eq!(truncate_string("ab", 3), "ab");
    let once = truncate_string("abcdef", 4);
    assert_eq!(truncate_string(&once, 4), once);
}

#[test]
fn native_separators() {
    let p = name_separators_to_native("a\\b\\c");
    assert_eq!(p, "a/b/c");
    assert!(!p.contains('\\'));
}

#[test]
fn memory_scaling() {
    assert_eq!(scaleForAvailableMemory(64, None), 64);
    assert_eq!(scaleForAvailableMemory(64, Some(512 * 1024 * 1024)), 64);
    assert_eq!(scaleForAvailableMemory(64, Some(1024 * 1024 * 1024)), 64);
    assert_eq!(scaleForAvailableMemory(64, Some(8 * 1024 * 1024 * 1024)), 64);
    assert_eq!(scaleForAvailableMemory(64, Some(3 * 1024 * 1024 * 1024)), -64);
}

#[test]
fn paths() {
    assert!(!is_absolute(""));
    assert!(!is_absolute("db.mv.db"));
    assert_eq!(get_parent("/a/b").ok(), Some("/a".to_string()));
    assert_eq!(get_parent("data/db.mv.db").ok(), Some("data".to_string()));
    assert_eq!(get_parent("/data/db.mv.db").ok(), Some("/data".to_string()));
    assert_eq!(get_parent("a/b/c").ok(), Some("a/b".to_string()));
    assert_eq!(get_parent("db").ok(), Some(String::new()));
    assert_eq!(get_parent("./db").ok(), Some(".".to_string()));
    assert_eq!(get_parent("./x/db").ok(), Some("./x".to_string()));
    assert_eq!(get_parent("a//b").ok(), Some("a".to_string()));
    assert_eq!(get_parent("a//x/db").ok(), Some("a//x".to_string()));
    assert_eq!(get_parent("/db").ok(), Some("/".to_string()));
    assert!(get_parent("/").is_err());
    let e = get_parent("").err().unwrap();
    assert_eq!(e.error_code, error_code::GENERAL_ERROR_1);
    assert_eq!(e.params, vec!["can't get the parent path :".to_string()]);
}

#[test]
fn errors_display() {
    let e = H2RustError::SQLError("boom".to_string());
    assert_eq!(e.to_display_string(), "boom");
    let d = DbError::get(error_code::GENERAL_ERROR_1, vec!["x".to_string()]);
    assert_eq!(d.to_display_string(), format!("message:{},sql_state:{},error_code:{}", d.message, d.sql_state, 50000));
}

#[test]
fn byte_buffer_write_then_read() {
    let mut b = allocate(16);
    b.putU16(0xBEEF);
    b.putI32(-2);
    b.setPosition(0);
    assert_eq!(b.getI16(), 0xBEEFu16 as i16);
    assert_eq!(b.getI32(), -2);
    assert_eq!(b.getPosition(), 6);
    b.setPosition(0);
    assert_eq!(b.getU16(), 0xFFFF);
    assert_eq!(b.getPosition(), 4);
    b.setPosition(0);
    b.putU16(1);
    b.putU16(0xBEEF);
    b.setPosition(0);
    assert_eq!(b.getU16(), 0xBEEF);
    b.setPosition(6);
    b.flip();
    assert_eq!(b.getLimit(), 6);
    assert_eq!(b.getPosition(), 0);
    assert_eq!(b.getRemaining(), 6);
    b.clear();
    assert_eq!(b.getLimit(), 16);
    let w = wrapSlice(&[1, 2, 3]);
    assert_eq!(w.getPosition(), 3);
    let mut v = wrapVec(vec![0x7f, 0xff, 0xff, 0xff, 0xff, 0xff, 0xff, 0xff]);
    assert_eq!(v.getI64(), i64::MAX);
}

#[test]
fn var_int_reading() {
    let mut b = wrapVec(vec![0x96, 0x01, 0x05]);
    assert_eq!(readVarInt(&mut b), 150);
    assert_eq!(readVarInt(&mut b), 5);
    let mut l = wrapVec(vec![0xff, 0xff, 0xff, 0xff, 0x0f]);
    assert_eq!(readVarLong(&mut l), 0xffff_ffff);
}

#[test]
fn string_reading() {
    let mut b = wrapVec(vec![3, b'a', 0xc3, 0xa9, b'z']);
    assert_eq!(readString1(&mut b), "aéz");
    let mut c = wrapVec(vec![b'h', b'i']);
    assert_eq!(readString2(&mut c, 2), "hi");
    let mut d = wrapVec(vec![0xed, 0xa0, 0xbd, 0xed, 0xb8, 0x80]);
    assert_eq!(readString2(&mut d, 2), "\u{1F600}");
    let mut e = wrapVec(vec![0xed, 0xa0, 0x80, b'x']);
    assert_eq!(readString2(&mut e, 2), "\u{FFFD}x");
}

#[test]
fn page_positions() {
    assert!(!is_page_saved(0));
    assert!(!is_page_saved(1));
    assert!(is_page_saved(2));
    let pos: i64 = (5i64 << 38) | (7i64 << 6) | (3 << 1) | 1;
    assert_eq!(getPageChunkId(pos), 5);
    assert_eq!(getPageOffset(pos), (pos >> 6) as i32);
    assert_eq!(getPageType(pos), 1);
    assert_eq!(getPageMaxLength(pos), 3 * 32);
    assert_eq!(decodePageLength(31), PAGE_LARGE);
    assert_eq!(decodePageLength(0), 32);
    assert_eq!(getCheckValue(0x0001_0002), 3);
    assert!(check_argument(true, "x").is_ok());
    assert_eq!(check_argument(false, "x").err().unwrap().error_code, error_code::GENERAL_ERROR_1);
}

#[test]
fn maps_and_hex_numbers() {
    let m = parseMap("chunk:1a,name:\"x,y\",len:ff").ok().unwrap();
    assert_eq!(m.get("name"), Some("x,y".to_string()));
    assert_eq!(readHexInt(&m, "chunk", 0).ok(), Some(26));
    assert_eq!(readHexIntOrLong(&m, "len", 0).ok(), Some(255));
    assert_eq!(readHexIntOrLong(&m, "none", 9).ok(), Some(9));
    let bad = parseMap("name:x,zz:g").ok().unwrap();
    assert_eq!(readHexInt(&bad, "zz", 0).err().unwrap().error_code, error_code::FILE_CORRUPTED_1);
    assert_eq!(parseMap("novalue").err().unwrap().error_code, error_code::FILE_CORRUPTED_1);
}

#[test]
fn chunk_reading() {
    let c = Chunk::new("chunk:2,block:10,pages:5,livePages:3,occupancy:a0").ok().unwrap();
    assert_eq!(c.id, 2);
    assert_eq!(c.block, 16);
    assert_eq!(c.version, 2);
    assert_eq!(c.page_count, 5);
    assert_eq!(c.page_count_live, 3);
    assert!(c.isSaved());
    let e = Chunk::new("chunk:2,pages:5,livePages:3,occupancy:e0").err().unwrap();
    assert_eq!(e.error_code, error_code::FILE_CORRUPTED_1);
    assert_eq!(e.params, vec!["inconsistent occupancy info 5 - 3 != 3".to_string()]);
    let e = Chunk::new("chunk:0").err().unwrap();
    assert_eq!(e.params, vec!["invalid chunk id 0".to_string()]);
    let e = Chunk::new("chunk:1,max:q").err().unwrap();
    assert_eq!(e.params, vec!["error parsing the value q".to_string()]);
    assert_eq!(get_meta_key(255), "chunk.ff");
}

#[test]
fn properties_from_lines_later_line_wins() {
    let lines = vec!["a=1".to_string(), "b=2=3".to_string(), "a=4".to_string(), "c=".to_string()];
    let p = properties_from_lines(&lines);
    assert_eq!(p.len(), 3);
    assert_eq!(p.get("a"), Some("4".to_string()));
    assert_eq!(p.get("b"), Some("2".to_string()));
    assert_eq!(p.get("c"), Some(String::new()));
    assert_eq!(p.key_at(0), "a");
    assert_eq!(p.key_at(1), "b");
}
