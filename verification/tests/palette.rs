use outl::palette::parse_hex;

#[test]
fn parse_hex_roundtrips_known_values() {
    assert_eq!(parse_hex("#000000"), Some((0, 0, 0)));
    assert_eq!(parse_hex("#ffffff"), Some((255, 255, 255)));
    assert_eq!(parse_hex("#a78bfa"), Some((167, 139, 250)));
    assert_eq!(parse_hex("#A78BFA"), Some((167, 139, 250)));
}

#[test]
fn parse_hex_accepts_alpha_but_ignores_it() {
    assert_eq!(parse_hex("#a78bfaff"), Some((167, 139, 250)));
}

#[test]
fn parse_hex_rejects_malformed() {
    assert!(parse_hex("a78bfa").is_none(), "missing # prefix");
    assert!(parse_hex("#xyzxyz").is_none(), "non-hex chars");
    assert!(parse_hex("#abc").is_none(), "short form not supported");
}

#[test]
fn parse_hex_counts_bytes_not_chars() {
    // Three two-byte chars are six bytes, none of them hex digits.
    assert!(parse_hex("#ééé").is_none());
    // Seven bytes is neither form.
    assert!(parse_hex("#1234567").is_none());
}

#[test]
fn parse_hex_rejects_a_malformed_alpha_pair() {
    assert_eq!(parse_hex("#a78bfazz"), None);
    assert_eq!(parse_hex("#a78bfa0g"), None);
    assert_eq!(parse_hex("#a78bfa8C"), Some((167, 139, 250)));
}

#[test]
fn parse_hex_reads_back_what_two_digit_hex_writes() {
    for (r, g, b) in [(0u8, 0u8, 0u8), (255, 255, 255), (1, 16, 171), (167, 139, 250)] {
        for a in ["", "00", "fF", "9a"] {
            assert_eq!(parse_hex(&format!("#{r:02x}{g:02x}{b:02x}{a}")), Some((r, g, b)));
            assert_eq!(parse_hex(&format!("#{r:02X}{g:02X}{b:02X}{a}")), Some((r, g, b)));
        }
    }
}
