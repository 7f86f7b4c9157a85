use hex_writer::{gutter_byte, HexWriter};

fn dump_raw(chunks: &[&[u8]]) -> Vec<u8> {
    let mut writer = HexWriter::new();
    let mut out: Vec<u8> = Vec::new();
    for chunk in chunks {
        let taken = writer.write(chunk, &mut out);
        assert_eq!(taken, chunk.len());
    }
    writer.finish(&mut out);
    out
}

fn dump_chunks(chunks: &[&[u8]]) -> String {
    String::from_utf8(dump_raw(chunks)).unwrap()
}

fn dump(bytes: &[u8]) -> String {
    dump_chunks(&[bytes])
}

#[test]
fn hello_world_example() {
    let text = dump(b"Hello, World!\n\nMore text");
    let expected = "0x00000000: 48 65 6C 6C 6F 2C 20 57  6F 72 6C 64 21 0A 0A 4D | Hello, World!..M |\n\
                    0x00000010: 6F 72 65 20 74 65 78 74                          | ore text........ |\n";
    assert_eq!(text, expected);
}

#[test]
fn empty_input_gives_no_output() {
    assert_eq!(dump(b""), "");
    assert_eq!(dump_chunks(&[b"", b""]), "");
}

#[test]
fn single_row_has_no_blank_slots() {
    let text = dump(b"0123456789abcdef");
    assert_eq!(
        text,
        "0x00000000: 30 31 32 33 34 35 36 37  38 39 61 62 63 64 65 66 | 0123456789abcdef |\n"
    );
    assert_eq!(text.lines().count(), 1);
}

#[test]
fn full_row_of_control_bytes_shows_only_their_dots() {
    let bytes: Vec<u8> = (0u8..16).collect();
    assert_eq!(
        dump(&bytes),
        "0x00000000: 00 01 02 03 04 05 06 07  08 09 0A 0B 0C 0D 0E 0F | ................ |\n"
    );
}

#[test]
fn exact_multiple_of_row_adds_no_blank_row() {
    let bytes = [0x41u8; 32];
    let text = dump(&bytes);
    assert_eq!(text.lines().count(), 2);
    assert!(!text.contains("   "));
    assert!(text.ends_with("41 41 41 41 41 41 41 41  41 41 41 41 41 41 41 41 | AAAAAAAAAAAAAAAA |\n"));
}

#[test]
fn partial_last_row_is_padded() {
    let text = dump(b"abcde");
    assert_eq!(
        text,
        "0x00000000: 61 62 63 64 65                                   | abcde........... |\n"
    );
}

#[test]
fn partial_row_after_half_row() {
    let text = dump(b"0123456789");
    assert_eq!(
        text,
        "0x00000000: 30 31 32 33 34 35 36 37  38 39                   | 0123456789...... |\n"
    );
}

#[test]
fn padding_counts_blank_slots_and_dots() {
    for n in 1usize..40 {
        let bytes = vec![0x5au8; n];
        let text = dump(&bytes);
        let last = text.lines().last().unwrap();
        let k = n % 16;
        let blanks = if k == 0 { 0 } else { 16 - k };
        let gutter = &last[last.len() - 18..last.len() - 2];
        let dots = gutter.chars().filter(|c| *c == '.').count();
        assert_eq!(dots, blanks, "length {}", n);
        let hex = &last[12..last.len() - 21];
        let pairs = hex.split_whitespace().count();
        assert_eq!(pairs, 16 - blanks, "length {}", n);
    }
}

#[test]
fn chunking_does_not_change_output() {
    let bytes: Vec<u8> = (0u8..=60).map(|b| b.wrapping_mul(7)).collect();
    let whole = dump_raw(&[&bytes]);
    for split in 0..=bytes.len() {
        let (a, b) = bytes.split_at(split);
        assert_eq!(dump_raw(&[a, b]), whole, "split at {}", split);
    }
    let ones: Vec<&[u8]> = bytes.chunks(1).collect();
    assert_eq!(dump_raw(&ones), whole);
    let threes: Vec<&[u8]> = bytes.chunks(3).collect();
    assert_eq!(dump_raw(&threes), whole);
    let with_empty: Vec<&[u8]> = vec![&bytes[..5], &[], &bytes[5..17], &[], &bytes[17..]];
    assert_eq!(dump_raw(&with_empty), whole);
}

#[test]
fn row_offsets_count_by_sixteen() {
    let bytes = vec![0u8; 16 * 20 + 3];
    let text = dump(&bytes);
    for (k, line) in text.lines().enumerate() {
        assert_eq!(&line[..12], format!("0x{:08X}: ", 16 * k));
    }
    assert_eq!(text.lines().count(), 21);
    assert!(text.contains("0x000000F0: "));
    assert!(text.contains("0x00000140: "));
}

#[test]
fn hex_digits_are_uppercase() {
    let raw = dump_raw(&[&[0xab, 0x0f, 0xf0, 0xff]]);
    assert!(raw.starts_with(b"0x00000000: AB 0F F0 FF "));
    assert!(raw.ends_with(&[b'|', b' ', 0xab, b'.', 0xf0, 0xff, b'.']
        .iter()
        .copied()
        .chain(std::iter::repeat(b'.').take(11))
        .chain(b" |\n".iter().copied())
        .collect::<Vec<u8>>()));
}

#[test]
fn gutter_characters() {
    assert_eq!(gutter_byte(0x41), b'A');
    assert_eq!(gutter_byte(0x09), b'.');
    assert_eq!(gutter_byte(0x7f), b'.');
    assert_eq!(gutter_byte(0x20), b' ');
    assert_eq!(gutter_byte(0x00), b'.');
    assert_eq!(gutter_byte(0x1f), b'.');
    assert_eq!(gutter_byte(0x7e), b'~');
    assert_eq!(gutter_byte(0x80), 0x80);
}

#[test]
fn gutter_in_rows() {
    let text = dump(&[0x41, 0x09, 0x7f, 0x20]);
    assert!(text.ends_with("| A.. ............ |\n"));
}

#[test]
fn bytes_written_counts_every_write() {
    let mut writer = HexWriter::new();
    let mut out: Vec<u8> = Vec::new();
    assert_eq!(writer.bytes_written(), 0);
    assert_eq!(writer.write(b"abc", &mut out), 3);
    assert_eq!(writer.write(b"", &mut out), 0);
    assert_eq!(writer.write(b"defghijklmnopq", &mut out), 14);
    assert_eq!(writer.bytes_written(), 17);
    assert_eq!(
        String::from_utf8(out.clone()).unwrap(),
        "0x00000000: 61 62 63 64 65 66 67 68  69 6A 6B 6C 6D 6E 6F 70 | abcdefghijklmnop |\n0x00000010: 71 "
    );
}
