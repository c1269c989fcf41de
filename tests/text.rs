use syster_lsp::text::{char_offset_to_byte, char_offset_to_utf16};
use syster_lsp::model::{Position, Span};
use syster_lsp::text::{
    apply_text_change, apply_text_edit, char_index, position_to_byte_offset, TextError,
};
use syster_lsp::tokens::{encode_tokens_as_deltas, EncodedToken, SemanticToken};
use syster_lsp::uri::{decode_uri_component, decoded_or_raw};

#[test]
fn utf16_offsets_of_ascii() {
    assert_eq!(char_offset_to_utf16("part def Car;", 5), 5);
    assert_eq!(char_offset_to_utf16("", 0), 0);
}

#[test]
fn utf16_offsets_count_surrogate_pairs() {
    let line = "a\u{1F600}b";
    assert_eq!(char_offset_to_utf16(line, 1), 1);
    assert_eq!(char_offset_to_utf16(line, 2), 3);
    assert_eq!(char_offset_to_utf16(line, 3), 4);
}

#[test]
fn utf16_offset_past_the_end_counts_the_line() {
    assert_eq!(char_offset_to_utf16("é\u{1F600}", 10), 3);
}

#[test]
fn byte_offsets_count_utf8_widths() {
    let line = "aé€\u{1F600}z";
    assert_eq!(char_offset_to_byte(line, 0), 0);
    assert_eq!(char_offset_to_byte(line, 1), 1);
    assert_eq!(char_offset_to_byte(line, 2), 3);
    assert_eq!(char_offset_to_byte(line, 3), 6);
    assert_eq!(char_offset_to_byte(line, 4), 10);
    assert_eq!(char_offset_to_byte(line, 5), 11);
    assert_eq!(char_offset_to_byte(line, 99), 11);
}

fn pos(line: u32, column: u32) -> Position {
    Position { line, column }
}

#[test]
fn byte_offsets_of_positions() {
    let text = "package A {\n    part é;\n}";
    assert_eq!(position_to_byte_offset(text, pos(0, 0)), Ok(0));
    assert_eq!(position_to_byte_offset(text, pos(0, 7)), Ok(7));
    assert_eq!(position_to_byte_offset(text, pos(1, 4)), Ok(16));
    assert_eq!(position_to_byte_offset(text, pos(1, 10)), Ok(23));
    assert_eq!(position_to_byte_offset(text, pos(1, 99)), Ok(24));
    assert_eq!(position_to_byte_offset(text, pos(2, 1)), Ok(26));
    assert_eq!(position_to_byte_offset(text, pos(3, 0)), Ok(26));
    assert_eq!(position_to_byte_offset(text, pos(4, 0)), Err(TextError::LineOutOfBounds));
}

#[test]
fn crlf_lines_keep_the_carriage_return_in_the_line() {
    let text = "ab\r\ncd";
    assert_eq!(char_index(text, pos(0, 5)), Some(3));
    assert_eq!(char_index(text, pos(1, 1)), Some(5));
}

#[test]
fn edits_replace_the_range() {
    let text = "part def Car;\npart def Truck;";
    let range = Span { start: pos(0, 9), end: pos(0, 12) };
    assert_eq!(
        apply_text_edit(text, &range, "Bus"),
        Ok("part def Bus;\npart def Truck;".to_string())
    );
    let insert = Span { start: pos(2, 0), end: pos(2, 0) };
    assert_eq!(
        apply_text_edit(text, &insert, "\n"),
        Ok("part def Car;\npart def Truck;\n".to_string())
    );
    let backwards = Span { start: pos(1, 3), end: pos(0, 2) };
    assert_eq!(apply_text_edit(text, &backwards, "x"), Err(TextError::InvalidRange));
    let missing = Span { start: pos(0, 0), end: pos(7, 0) };
    assert_eq!(apply_text_edit(text, &missing, "x"), Err(TextError::LineOutOfBounds));
}

#[test]
fn tokens_are_encoded_as_utf16_deltas() {
    let lines = vec!["package P {".to_string(), "  part \u{1F600}x: T;".to_string()];
    let tokens = vec![
        SemanticToken { line: 0, col: 8, length: 1, token_type: 0 },
        SemanticToken { line: 1, col: 2, length: 4, token_type: 4 },
        SemanticToken { line: 1, col: 7, length: 2, token_type: 2 },
        SemanticToken { line: 1, col: 11, length: 1, token_type: 1 },
    ];
    let encoded = encode_tokens_as_deltas(&tokens, &lines);
    let expect = |dl, ds, len, tt| EncodedToken {
        delta_line: dl,
        delta_start: ds,
        length: len,
        token_type: tt,
        token_modifiers_bitset: 0,
    };
    assert_eq!(
        encoded,
        vec![expect(0, 8, 1, 0), expect(1, 2, 4, 4), expect(0, 5, 3, 2), expect(0, 5, 1, 1)]
    );
}

#[test]
fn tokens_on_missing_lines_count_from_an_empty_line() {
    let encoded = encode_tokens_as_deltas(
        &vec![SemanticToken { line: 3, col: 4, length: 2, token_type: 1 }],
        &Vec::new(),
    );
    assert_eq!(encoded[0].delta_line, 3);
    assert_eq!(encoded[0].delta_start, 0);
    assert_eq!(encoded[0].length, 0);
}

#[test]
fn uri_components_are_percent_decoded() {
    assert_eq!(decode_uri_component("my%20file.txt"), "my file.txt");
    assert_eq!(decode_uri_component("plain.sysml"), "plain.sysml");
    assert_eq!(decode_uri_component("bad%FF"), "bad%FF");
    assert_eq!(decode_uri_component("100%"), "100%");
}

#[test]
fn failed_decoding_falls_back_to_the_raw_text() {
    assert_eq!(decoded_or_raw(None, "a%FF"), "a%FF");
    assert_eq!(decoded_or_raw(Some("a b".to_string()), "a%20b"), "a b");
}

#[test]
fn content_changes_replace_or_patch_the_text() {
    let range = Span { start: pos(0, 5), end: pos(0, 8) };
    assert_eq!(apply_text_change("part def X;", None, "package P;"), Ok("package P;".to_string()));
    assert_eq!(apply_text_change("", Some(range), "part a;"), Ok("part a;".to_string()));
    assert_eq!(apply_text_change("part def X;", Some(range), "   "), Ok("part     X;".to_string()));
    let far = Span { start: pos(5, 0), end: pos(5, 0) };
    assert_eq!(apply_text_change("x", Some(far), "y"), Err(TextError::LineOutOfBounds));
}
