//! Tests of the offset/point/position conversions.

use tsls::convert::{
    lsp_position_to_ts_point, lsp_range_to_ts_range, offset_to_position, position_to_offset,
    ts_point_to_lsp_position, ts_range_to_lsp_range,
};
use tsls::types::{LspRange, Position, TsPoint, TsRange};

#[test]
fn test_position_to_offset_and_revert_back() {
    let text = "12345678
    12345678
    12345678";
    let point = TsPoint { row: 1, column: 3 };
    let offset = position_to_offset(text.as_bytes(), point);
    assert_eq!(offset, 12);

    assert_eq!(offset_to_position(text.as_bytes(), offset), point);
}

#[test]
fn ts_and_lsp_point() {
    // zero-based, so simple conversion
    let ts_point = TsPoint { row: 1, column: 3 };
    let lsp_position = Position {
        line: 1,
        character: 3,
    };
    assert_eq!(ts_point_to_lsp_position(&ts_point), lsp_position);
    assert_eq!(lsp_position_to_ts_point(&lsp_position), ts_point);
}

#[test]
fn ts_range_and_lsp_range() {
    let text = "12345678
    12345678
    12345678";
    let ts_range = TsRange {
        start_byte: 12,
        end_byte: 26,
        start_point: TsPoint { row: 1, column: 3 },
        end_point: TsPoint { row: 2, column: 4 },
    };
    let lsp_range = LspRange {
        start: Position {
            line: 1,
            character: 3,
        },
        end: Position {
            line: 2,
            character: 4,
        },
    };
    assert_eq!(ts_range_to_lsp_range(&ts_range), lsp_range);
    assert_eq!(lsp_range_to_ts_range(&lsp_range, text.as_bytes()), ts_range);
}

#[test]
fn round_trip_holds_for_every_offset() {
    let text = "fn f() {\n  a\n}\nlast line";
    let bytes = text.as_bytes();
    for o in 0..=bytes.len() {
        let p = offset_to_position(bytes, o);
        assert_eq!(position_to_offset(bytes, p), o);
    }
}

#[test]
fn round_trip_empty_buffer() {
    let bytes: &[u8] = &[];
    let p = offset_to_position(bytes, 0);
    assert_eq!(p, TsPoint { row: 0, column: 0 });
    assert_eq!(position_to_offset(bytes, p), 0);
}

#[test]
fn out_of_range_point_clamps_to_length() {
    let bytes = b"one\ntwo";
    let far = TsPoint {
        row: 99,
        column: 99,
    };
    assert_eq!(position_to_offset(bytes, far), bytes.len());
    let past_line_end = TsPoint { row: 0, column: 50 };
    // scanning stops once the point is passed: end of line 0
    assert_eq!(position_to_offset(bytes, past_line_end), 3);
}
