use macguffin_quest::level_builder::{
    parse_i64_token, parse_level_line, parse_level_text, parse_u64_token, split_lines, tokenize,
    LevelBuilder,
};

#[test]
fn tokenizer_splits_on_whitespace() {
    let toks = tokenize(b"  12\t-3   7 ");
    assert_eq!(toks.len(), 3);
    assert_eq!(toks[0], b"12".to_vec());
    assert_eq!(toks[1], b"-3".to_vec());
    assert_eq!(toks[2], b"7".to_vec());
    assert_eq!(tokenize(b"").len(), 0);
    assert_eq!(tokenize(b"   ").len(), 0);
}

#[test]
fn signed_tokens_parse_with_exact_bounds() {
    assert_eq!(parse_i64_token(b"0"), Some(0));
    assert_eq!(parse_i64_token(b"-17"), Some(-17));
    assert_eq!(parse_i64_token(b"+42"), Some(42));
    assert_eq!(parse_i64_token(b"9223372036854775807"), Some(i64::MAX));
    assert_eq!(parse_i64_token(b"-9223372036854775808"), Some(i64::MIN));
    assert_eq!(parse_i64_token(b"9223372036854775808"), None);
    assert_eq!(parse_i64_token(b"-9223372036854775809"), None);
    assert_eq!(parse_i64_token(b""), None);
    assert_eq!(parse_i64_token(b"-"), None);
    assert_eq!(parse_i64_token(b"12a"), None);
    assert_eq!(parse_i64_token(b"999999999999999999999999"), None);
}

#[test]
fn unsigned_tokens_reject_signs_and_overflow() {
    assert_eq!(parse_u64_token(b"5"), Some(5));
    assert_eq!(parse_u64_token(b"+5"), Some(5));
    assert_eq!(parse_u64_token(b"-5"), None);
    assert_eq!(parse_u64_token(b"18446744073709551615"), Some(u64::MAX));
    assert_eq!(parse_u64_token(b"18446744073709551616"), None);
}

#[test]
fn placement_lines_take_three_fields_and_ignore_extras() {
    assert_eq!(parse_level_line(b"1 2 3"), Some((1, 2, 3)));
    assert_eq!(parse_level_line(b"  -10\t20  5  trailing junk"), Some((-10, 20, 5)));
    assert_eq!(parse_level_line(b"1 2"), None);
    assert_eq!(parse_level_line(b"1 2 x"), None);
    assert_eq!(parse_level_line(b""), None);
}

#[test]
fn level_text_parses_in_line_order() {
    let r = parse_level_text(b"1 2 3\n4 5 6\n").expect("well-formed");
    assert_eq!(r, vec![(1, 2, 3), (4, 5, 6)]);
    // CRLF line endings are accepted
    let r = parse_level_text(b"7 8 9\r\n10 11 12").expect("well-formed");
    assert_eq!(r, vec![(7, 8, 9), (10, 11, 12)]);
    // the empty file is the empty level
    assert_eq!(parse_level_text(b"").expect("empty"), vec![]);
}

#[test]
fn malformed_lines_fail_fast_with_their_line_number() {
    assert_eq!(parse_level_text(b"1 2 3\nbad line\n4 5 6\n"), Err(2));
    assert_eq!(parse_level_text(b"nope"), Err(1));
    // a blank line is malformed, not skipped
    assert_eq!(parse_level_text(b"1 2 3\n\n4 5 6\n"), Err(2));
    // the first bad line wins
    assert_eq!(parse_level_text(b"x\ny\n"), Err(1));
}

#[test]
fn split_lines_strips_crlf_only() {
    let lines = split_lines(b"a\r\nb\nc");
    assert_eq!(lines, vec![b"a".to_vec(), b"b".to_vec(), b"c".to_vec()]);
    let lines = split_lines(b"a\n");
    assert_eq!(lines, vec![b"a".to_vec()]);
}

#[test]
fn generated_tiles_share_the_builder_extents() {
    let b = LevelBuilder::new(64, 64);
    let level = b.generate_level(&vec![(0, 0, 1), (-64, 128, 0)]);
    assert_eq!(level.tile_count(), 2);
    assert_eq!(level.tiles[0].x, 0);
    assert_eq!(level.tiles[0].w, 64);
    assert_eq!(level.tiles[1].x, -64);
    assert_eq!(level.tiles[1].y, 128);
    assert_eq!(level.tiles[1].h, 64);
}

#[test]
fn from_bytes_builds_or_reports_the_bad_line() {
    let b = LevelBuilder::new(64, 64);
    let level = b.from_bytes(b"0 0 1\n64 0 1\n").expect("well-formed");
    assert_eq!(level.tile_count(), 2);
    assert_eq!(b.from_bytes(b"0 0 1\noops\n").err(), Some(2));
}

#[test]
fn tile_images_must_match_the_builder_extents() {
    let mut b = LevelBuilder::new(64, 64);
    assert!(b.validate_image_size(64, 64).is_ok());
    assert!(b.validate_image_size(32, 64).is_err());
    assert!(b.set_tile_image(0, 64, 64).is_ok());
    assert!(b.set_tile_image(1, 100, 100).is_err());
    assert_eq!(b.tile_keys, vec![0]);
}

#[test]
fn tileize_cuts_row_major_keys() {
    let mut b = LevelBuilder::new(64, 64);
    let n = b.tileize(256, 128);
    assert_eq!(n, 8); // four columns by two rows
    assert_eq!(b.tile_keys, vec![0, 1, 2, 3, 4, 5, 6, 7]);
    let n = b.tileize(63, 64);
    assert_eq!(n, 0); // nothing fits below one tile width
}

#[test]
fn samples_have_their_fixed_layouts() {
    let b = LevelBuilder::new(64, 64);
    assert_eq!(b.sample0().tile_count(), 0);
    let s1 = b.sample1();
    assert_eq!(s1.tile_count(), 6);
    assert_eq!((s1.tiles[0].x, s1.tiles[0].y), (350, 150));
    assert_eq!((s1.tiles[5].x, s1.tiles[5].y), (414, 350));
}
