use koffer::difftest::kat::parse;

const TEXT: &str = "# a header comment\n\
# tcId 7: a named case\n\
public_key = 0a0B\n\
message = \n\
\n\
\n\
# tcId x: not a number\n\
signature = ff00ff\n\
result = 01\n";

#[test]
fn kat_parse_splits_records_at_blank_lines() {
    let records = parse(TEXT);
    assert_eq!(records.len(), 2);

    assert_eq!(records[0].tc_id(), Some(7));
    assert_eq!(records[0].field("public_key"), Some(&[0x0a, 0x0b][..]));
    assert_eq!(records[0].field("message"), Some(&[][..]));
    assert_eq!(records[0].field("signature"), None);

    assert_eq!(records[1].tc_id(), None);
    assert_eq!(records[1].field("signature"), Some(&[0xff, 0x00, 0xff][..]));
    assert_eq!(records[1].field("result"), Some(&[0x01][..]));
}

#[test]
fn kat_parse_trims_whitespace_and_crlf() {
    let records = parse("  key   =   abcd  \r\n\r\n# tcId 12:\r\nk = 00\r\n");
    assert_eq!(records.len(), 2);
    assert_eq!(records[0].field("key"), Some(&[0xab, 0xcd][..]));
    assert_eq!(records[1].tc_id(), Some(12));
    assert_eq!(records[1].field("k"), Some(&[0x00][..]));
}

#[test]
fn kat_parse_of_empty_or_comment_only_text_is_empty() {
    assert!(parse("").is_empty());
    assert!(parse("# nothing here\n\n\n").is_empty());
}

#[test]
fn kat_field_returns_the_first_of_repeated_names() {
    let records = parse("x = 01\nx = 02\n");
    assert_eq!(records.len(), 1);
    assert_eq!(records[0].field("x"), Some(&[0x01][..]));
}

#[test]
fn kat_tc_id_resets_after_each_record() {
    let records = parse("# tcId 3: first\na = 00\n\nb = 11\n");
    assert_eq!(records.len(), 2);
    assert_eq!(records[0].tc_id(), Some(3));
    assert_eq!(records[1].tc_id(), None);
}

#[test]
fn kat_parse_trims_unicode_whitespace() {
    let text = "\u{3000}# tcId 5\u{00a0}: x\n\u{00a0}key\u{2003} =\u{205f}0a0b\u{3000}\n";
    let records = parse(text);
    assert_eq!(records.len(), 1);
    assert_eq!(records[0].tc_id(), Some(5));
    assert_eq!(records[0].field("key"), Some(&[0x0a, 0x0b][..]));
}
