use gameroy::listing::{listing_line, shown_address};

fn line(label: &str, rest: &str) -> Vec<u8> {
    format!("{:04x} {:16} {}", 0x0150, label, rest).into_bytes()
}

#[test]
fn jump_label_markers_are_removed_and_ranged() {
    let r = listing_line(line("main", "JP   <l>start</l>"));
    assert_eq!(r.text, line("main", "JP   start"));
    assert_eq!(r.label, Some((27, 32)));
    assert_eq!(&r.text[27..32], b"start");
    assert_eq!(r.address, None);
    assert_eq!(r.mnemonic_len, 2);
}

#[test]
fn address_markers_are_removed_and_ranged() {
    let r = listing_line(line("", "LD   A,(<a>$ff40</a>)"));
    assert_eq!(r.text, line("", "LD   A,($ff40)"));
    assert_eq!(r.label, None);
    assert_eq!(r.address, Some((30, 35)));
    assert_eq!(&r.text[30..35], b"$ff40");
    assert_eq!(r.mnemonic_len, 2);
}

#[test]
fn both_markers_are_removed() {
    let r = listing_line(line("loop", "CALL <l>f</l>, <a>$12</a>"));
    assert_eq!(r.text, line("loop", "CALL f, $12"));
    assert_eq!(r.label, Some((27, 28)));
    assert_eq!(r.address, Some((30, 33)));
    assert_eq!(r.mnemonic_len, 4);
}

#[test]
fn a_line_without_markers_is_kept() {
    let r = listing_line(line("", "NOP "));
    assert_eq!(r.text, line("", "NOP "));
    assert_eq!(r.label, None);
    assert_eq!(r.address, None);
    assert_eq!(r.mnemonic_len, 3);
}

#[test]
fn banked_addresses_show_above_0x4000() {
    assert_eq!(shown_address(0x1234, 1), 0x5234);
    assert_eq!(shown_address(0x1234, 0), 0x1234);
    assert_eq!(shown_address(0x4567, 2), 0x4567);
}
