use gb_rw_host::command::{
    cmd_code, cmd_gba_flash_write, cmd_gba_read, cmd_gba_read_word, cmd_gba_write, cmd_mode_gba,
    flash_type_code, Cmd, FlashType,
};
use gb_rw_host::div_round_up;
use gb_rw_host::hexdump::hex_dump;

#[test]
fn div_round_up_rounds_up() {
    assert_eq!(div_round_up(10, 3), 4);
    assert_eq!(div_round_up(9, 3), 3);
    assert_eq!(div_round_up(0, 16), 0);
    assert_eq!(div_round_up(16, 16), 1);
    assert_eq!(div_round_up(17, 16), 2);
    assert_eq!(div_round_up(1, 1), 1);
}

#[test]
fn div_round_up_covers_exactly() {
    for x in 0..200usize {
        for y in 1..20usize {
            let r = div_round_up(x, y);
            assert!(r * y >= x);
            assert!(r * y < x + y);
        }
    }
}

#[test]
fn command_codes() {
    assert_eq!(cmd_code(Cmd::Read), 0);
    assert_eq!(cmd_code(Cmd::ModeGBA), 7);
    assert_eq!(cmd_code(Cmd::ReadGBAROM), 9);
    assert_eq!(cmd_code(Cmd::WriteGBAROM), 10);
    assert_eq!(cmd_code(Cmd::WriteGBAFlash), 11);
    assert_eq!(cmd_code(Cmd::ReadGBAWord), 12);
    assert_eq!(flash_type_code(FlashType::F3), 3);
}

#[test]
fn mode_gba_frame() {
    assert_eq!(cmd_mode_gba(), [7]);
}

#[test]
fn gba_read_frame() {
    assert_eq!(cmd_gba_read(0x100, 0x200), [9, 0x80, 0x00, 0x00, 0xff, 0x00, 0x00]);
    // A whole 32 MiB ROM: the end word address just fits in 24 bits.
    assert_eq!(cmd_gba_read(0, 0x0200_0000), [9, 0, 0, 0, 0xff, 0xff, 0xff]);
    assert_eq!(cmd_gba_read(0x0012_3456, 0x0012_3458), [9, 0x2b, 0x1a, 0x09, 0x2b, 0x1a, 0x09]);
}

#[test]
fn gba_read_word_frame_cuts_to_24_bits() {
    assert_eq!(cmd_gba_read_word(0x0800_0002), [12, 0x01, 0x00, 0x00]);
    assert_eq!(cmd_gba_read_word(0x0000_0004), [12, 0x02, 0x00, 0x00]);
}

#[test]
fn gba_write_frame() {
    assert_eq!(cmd_gba_write(0x10, 0xabcd), [10, 0x08, 0x00, 0x00, 0xcd, 0xab]);
}

#[test]
fn gba_flash_write_frame() {
    assert_eq!(
        cmd_gba_flash_write(0, 0x8000, FlashType::F3),
        [11, 0x00, 0x00, 0x00, 0xff, 0x3f, 0x00, 3]
    );
}

#[test]
fn hex_dump_short_buffer() {
    let out = hex_dump(&[0x41, 0x42, 0x00], 0x10);
    let mut expected = String::from("000010  41 42 00 ");
    for _ in 3..8 {
        expected.push_str("   ");
    }
    expected.push(' ');
    for _ in 8..16 {
        expected.push_str("   ");
    }
    expected.push_str(" |AB.");
    for _ in 3..16 {
        expected.push(' ');
    }
    expected.push_str("|\n");
    assert_eq!(String::from_utf8(out).unwrap(), expected);
}

#[test]
fn hex_dump_full_line() {
    let buf: Vec<u8> = (0x20u8..0x30).collect();
    let out = String::from_utf8(hex_dump(&buf, 0)).unwrap();
    assert_eq!(
        out,
        "000000  20 21 22 23 24 25 26 27  28 29 2a 2b 2c 2d 2e 2f  | !\"#$%&'()*+,-./|\n"
    );
    assert_eq!(out.len(), 77);
}

#[test]
fn hex_dump_lines_and_addresses() {
    let buf = vec![0xffu8; 17];
    let out = String::from_utf8(hex_dump(&buf, 0xfff0)).unwrap();
    let lines: Vec<&str> = out.split_inclusive('\n').collect();
    assert_eq!(lines.len(), 2);
    assert!(lines[0].starts_with("00fff0  ff ff"));
    assert!(lines[1].starts_with("010000  ff    "));
    assert!(lines[0].ends_with("|................|\n"));
    assert_eq!(lines[0].len(), 77);
    assert_eq!(lines[1].len(), 77);
}

#[test]
fn hex_dump_wide_address() {
    let out = String::from_utf8(hex_dump(&[1], 0x0123_4567)).unwrap();
    assert!(out.starts_with("1234567  01 "));
}

#[test]
fn hex_dump_empty() {
    assert!(hex_dump(&[], 0).is_empty());
}

#[test]
fn hex_digits_read_back() {
    for v in [0usize, 1, 0xf, 0x10, 0xabc, 0x12_3456, 0xfff_ffff] {
        let out = String::from_utf8(hex_dump(&[], 0)).unwrap();
        assert!(out.is_empty());
        let line = String::from_utf8(hex_dump(&[0], v)).unwrap();
        let addr: String = line.chars().take_while(|c| *c != ' ').collect();
        assert!(addr.len() >= 6);
        assert_eq!(usize::from_str_radix(&addr, 16).unwrap(), v);
    }
}
