use unicode_blocks::aggregate_elisp;
use unicode_blocks::parse_document;
use unicode_blocks::parse_hex;
use unicode_blocks::parse_line;
use unicode_blocks::render;
use unicode_blocks::render_hex;
use unicode_blocks::render_with_footer;
use unicode_blocks::split_lines;
use unicode_blocks::UnicodeBlock;

#[test]
fn parse_basic_latin() {
    let b = parse_line("0000..007F; Basic Latin").unwrap();
    assert_eq!(b.name, "Basic Latin");
    assert_eq!(b.range, (0, 127));
}

#[test]
fn parse_keeps_name_verbatim() {
    let b = parse_line("2190..21FF;  Arrows ").unwrap();
    assert_eq!(b.name, " Arrows ");
    assert_eq!(b.range, (0x2190, 0x21FF));
}

#[test]
fn parse_allows_empty_name() {
    let b = parse_line("0000..007F; ").unwrap();
    assert_eq!(b.name, "");
    assert_eq!(b.range, (0, 127));
}

#[test]
fn parse_rejects_non_data_lines() {
    assert!(parse_line("").is_none());
    assert!(parse_line("# Blocks-15.1.0.txt").is_none());
    assert!(parse_line("arbitrary prose").is_none());
    assert!(parse_line("0000..007f; lowercase hex").is_none());
    assert!(parse_line("0000..007F;no space").is_none());
    assert!(parse_line("0000..007F").is_none());
    assert!(parse_line("..007F; missing start").is_none());
    assert!(parse_line("0000.007F; single period").is_none());
    assert!(parse_line("GHIJ..0000; not hex").is_none());
}

#[test]
fn parse_rejects_line_break_in_name() {
    assert!(parse_line("0000..007F; Basic\nLatin").is_none());
}

#[test]
fn parse_bounds_at_thirty_two_bits() {
    let b = parse_line("FFFFFFFF..FFFFFFFF; Limit").unwrap();
    assert_eq!(b.range, (u32::MAX, u32::MAX));
    assert!(parse_line("100000000..1; Too wide").is_none());
    assert!(parse_line("0..100000000; Too wide").is_none());
}

#[test]
fn split_lines_matches_line_endings() {
    assert_eq!(split_lines(""), Vec::<String>::new());
    assert_eq!(split_lines("a\nb"), vec!["a".to_string(), "b".to_string()]);
    assert_eq!(split_lines("a\r\nb\n"), vec!["a".to_string(), "b".to_string()]);
    assert_eq!(split_lines("a\n\n"), vec!["a".to_string(), "".to_string()]);
    assert_eq!(split_lines("a\r"), vec!["a\r".to_string()]);
    assert_eq!(split_lines("\n"), vec!["".to_string()]);
}

#[test]
fn document_keeps_record_order() {
    let doc = "# header\n\n0000..007F; Basic Latin\r\n0080..00FF; Latin-1 Supplement\n# trailer\n";
    let blocks = parse_document(doc);
    assert_eq!(blocks.len(), 2);
    assert_eq!(blocks[0].name, "Basic Latin");
    assert_eq!(blocks[1].name, "Latin-1 Supplement");
}

#[test]
fn symbol_basic_latin() {
    let b = UnicodeBlock { name: "Basic Latin".to_string(), range: (0, 127) };
    assert_eq!(b.to_symbol(), "unicode-block-basic-latin");
}

#[test]
fn symbol_latin_1_supplement() {
    let b = UnicodeBlock { name: "Latin-1 Supplement".to_string(), range: (0x80, 0xFF) };
    assert_eq!(b.to_symbol(), "unicode-block-latin-1-supplement");
}

#[test]
fn symbol_is_lowercase_and_space_free() {
    let names = ["Basic Latin", "CJK Symbols and Punctuation", "Latin Extended-A", "A  B C"];
    for name in names {
        let b = UnicodeBlock { name: name.to_string(), range: (0, 1) };
        let sym = b.to_symbol();
        assert!(!sym.contains(' '));
        assert_eq!(sym, sym.to_lowercase());
        assert_eq!(sym, b.to_symbol());
    }
}

#[test]
fn elisp_basic_latin() {
    let b = UnicodeBlock { name: "Basic Latin".to_string(), range: (0, 127) };
    assert_eq!(b.to_elisp(), "(defconst unicode-block-basic-latin '(#x0 . #x7f))");
}

#[test]
fn hex_renders_lowercase_without_padding() {
    assert_eq!(render_hex(0), "0");
    assert_eq!(render_hex(127), "7f");
    assert_eq!(render_hex(0x2190), "2190");
    assert_eq!(render_hex(u32::MAX), "ffffffff");
}

#[test]
fn hex_round_trips() {
    for n in [0u32, 1, 15, 16, 127, 0x80, 0xFF, 0x2190, 0xE01EF, 0x10FFFF, u32::MAX] {
        assert_eq!(parse_hex(&render_hex(n)), Some(n));
    }
}

#[test]
fn hex_parse_rejects_bad_input() {
    assert_eq!(parse_hex(""), None);
    assert_eq!(parse_hex("12G4"), None);
    assert_eq!(parse_hex("100000000"), None);
    assert_eq!(parse_hex("7F"), Some(127));
    assert_eq!(parse_hex("7f"), Some(127));
}

#[test]
fn renders_two_blocks_in_order() {
    let doc = "0000..007F; Basic Latin\n0080..00FF; Latin-1 Supplement\n";
    let blocks = parse_document(doc);
    let expected = "(defconst unicode-block-basic-latin '(#x0 . #x7f))\n\
                    (defconst unicode-block-latin-1-supplement '(#x80 . #xff))\n\
                    \n\
                    (defconst unicode-blocks\n  \
                    '(unicode-block-basic-latin\n    \
                    unicode-block-latin-1-supplement\n    \
                    ))\n";
    assert_eq!(render(&blocks), expected);
}

#[test]
fn comment_only_input_yields_empty_aggregate() {
    let doc = "# comment\n\n# another comment\n";
    let blocks = parse_document(doc);
    assert!(blocks.is_empty());
    assert_eq!(aggregate_elisp(&blocks), "\n(defconst unicode-blocks\n  '())\n");
    assert_eq!(render(&blocks), "\n(defconst unicode-blocks\n  '())\n");
    assert_eq!(
        render_with_footer(&blocks, "(provide 'unicode-blocks)\n"),
        "\n(defconst unicode-blocks\n  '())\n(provide 'unicode-blocks)\n"
    );
}

#[test]
fn footer_is_appended_verbatim() {
    let doc = "0000..007F; Basic Latin\n";
    let blocks = parse_document(doc);
    let with = render_with_footer(&blocks, ";; footer\n");
    let without = render(&blocks);
    assert_eq!(with, format!("{}{}", without, ";; footer\n"));
}
