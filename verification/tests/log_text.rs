use rtos_core::boot_console::{encode_line, write_hex, write_line};
use rtos_core::serial::{SerialWriter, COM1};
use rtos_core::text::{parse_number, push_digits};

fn text_of(w: &mut SerialWriter) -> String {
    String::from_utf8(w.take()).unwrap()
}

#[test]
fn serial_expands_line_feeds() {
    let mut w = SerialWriter::new();
    w.write("K: one\ntwo\n\n");
    assert_eq!(text_of(&mut w), "K: one\r\ntwo\r\n\r\n");
    w.write("");
    w.write("\r\n");
    assert_eq!(text_of(&mut w), "\r\r\n");
    assert!(w.pending.is_empty());
}

#[test]
fn serial_numbers() {
    let mut w = SerialWriter::new();
    w.write_u32(0);
    w.write(" ");
    w.write_u32(4_294_967_295);
    w.write(" ");
    w.write_u64(18_446_744_073_709_551_615);
    w.write(" ");
    w.write_usize(1000);
    w.write(" ");
    w.write_u64(10);
    assert_eq!(text_of(&mut w), "0 4294967295 18446744073709551615 1000 10");
    w.write_hex(0);
    w.write(" ");
    w.write_hex(0x3F8);
    w.write(" ");
    w.write_hex(0xDEAD_BEEF);
    w.write(" ");
    w.write_hex(usize::MAX);
    assert_eq!(text_of(&mut w), format!("0x0 0x3f8 0xdeadbeef 0x{:x}", usize::MAX));
}

#[test]
fn serial_keeps_the_order() {
    let mut w = SerialWriter::new();
    w.write("Width: ");
    w.write_usize(1920);
    w.write("\n");
    assert_eq!(w.pending, b"Width: 1920\r\n");
    assert_eq!(w.take(), b"Width: 1920\r\n");
    assert_eq!(w.take(), b"");
}

#[test]
fn serial_port_setup() {
    assert_eq!(COM1, 0x3F8);
    assert_eq!(
        SerialWriter::init(),
        vec![(0x3F9, 0x00), (0x3FB, 0x80), (0x3F8, 0x03), (0x3F9, 0x00), (0x3FB, 0x03), (0x3FA, 0xC7), (0x3FC, 0x0B)]
    );
}

#[test]
fn digits_in_both_bases() {
    for n in [0u64, 1, 9, 10, 15, 16, 99, 100, 255, 256, 65535, 1 << 32, u64::MAX] {
        let mut dec = Vec::new();
        push_digits(&mut dec, n, false);
        assert_eq!(String::from_utf8(dec).unwrap(), format!("{}", n));
        let mut hex = b"x".to_vec();
        push_digits(&mut hex, n, true);
        assert_eq!(String::from_utf8(hex).unwrap(), format!("x{:x}", n));
    }
}

#[test]
fn numbers_in_other_bases() {
    assert_eq!(parse_number(b"101", 2), Some(5));
    assert_eq!(parse_number(b"102", 2), None);
    assert_eq!(parse_number(b"zz", 36), Some(35 * 36 + 35));
    assert_eq!(parse_number(b"Zz", 36), Some(35 * 36 + 35));
    assert_eq!(parse_number(b"7f", 16), Some(127));
    assert_eq!(parse_number(b"7F", 16), Some(127));
    assert_eq!(parse_number(b"7g", 16), None);
    assert_eq!(parse_number(b"", 10), None);
    assert_eq!(parse_number(b"+", 10), None);
    assert_eq!(parse_number(b"+0", 10), Some(0));
}

#[test]
fn console_lines_end_with_crlf_and_nul() {
    assert_eq!(write_line("BL"), vec![66, 76, 13, 10, 0]);
    assert_eq!(write_line(""), vec![13, 10, 0]);
    assert_eq!(encode_line(&[0xC3, 0xA9]), vec![0xC3, 0xA9, 13, 10, 0]);
    let longest = "x".repeat(188);
    let units = write_line(&longest);
    assert_eq!(units.len(), 191);
    assert_eq!(&units[188..], &[13, 10, 0]);
    assert!(write_line(&"x".repeat(189)).is_empty());
    assert!(write_line(&"x".repeat(1000)).is_empty());
}

#[test]
fn console_value_lines() {
    let as_text = |units: Vec<u16>| String::from_utf16(&units).unwrap();
    assert_eq!(as_text(write_hex("BL: entry64", 0x20_0000)), "BL: entry64 0x200000\r\n\0");
    assert_eq!(as_text(write_hex("  flags", 0)), "  flags 0x0\r\n\0");
    assert_eq!(as_text(write_hex("", u64::MAX)), " 0xffffffffffffffff\r\n\0");
    assert!(write_hex(&"y".repeat(186), 0).is_empty());
    assert_eq!(write_hex(&"y".repeat(184), 0).len(), 191);
}
