use qmerge::build::data;
use qmerge::error::Error;
use qmerge::metadata_builder::table_size;
use qmerge::utils::{get_str, offset_len, strlen};

#[test]
fn offset_ranges() {
    assert_eq!(offset_len(-1, 5), 0..0);
    assert_eq!(offset_len(3, 4), 3..7);
    assert_eq!(offset_len(0, 0), 0..0);
    assert_eq!(data::offset_len(0xFFFF_FFFF, 3), 0..0);
    assert_eq!(data::offset_len(0x8000_0000, 3), 0..0);
    assert_eq!(data::offset_len(2, 3), 2..5);
}

#[test]
fn strings_of_the_string_table() {
    let table = b"ab\0\0cd\0";
    assert_eq!(strlen(table, 0), 2);
    assert_eq!(strlen(table, 2), 0);
    assert_eq!(strlen(table, 4), 2);
    assert_eq!(get_str(table, 0), Ok("ab"));
    assert_eq!(get_str(table, 3), Ok(""));
    assert_eq!(get_str(table, 5), Ok("d"));
    assert_eq!(get_str(&[0xff, 0xfe, 0], 0), Err(Error::InvalidUtf8));
    assert_eq!(get_str("é\0".as_bytes(), 0), Ok("é"));
    assert_eq!(data::get_str(table, 4), Ok("cd"));
}

#[test]
fn table_sizes() {
    assert_eq!(table_size(&vec![0u32; 5]), 20);
    assert_eq!(table_size(&Vec::<u64>::new()), 0);
    assert_eq!(table_size(&vec![(0u8, 0u16); 3]), 12);
}
