//! Tests of the incremental edit translator.

use tsls::edits::{translate_change, translate_changes, ContentChange};
use tsls::types::{LspRange, Position, TsPoint};

fn range(sl: u32, sc: u32, el: u32, ec: u32) -> LspRange {
    LspRange {
        start: Position {
            line: sl,
            character: sc,
        },
        end: Position {
            line: el,
            character: ec,
        },
    }
}

#[test]
fn single_insertion_descriptor() {
    // insert "abc" at byte 4 of a one-line buffer
    let mut buffer: Vec<u8> = b"hello world".to_vec();
    let change = ContentChange {
        range: Some(range(0, 4, 0, 4)),
        text: "abc".to_string(),
    };
    let e = translate_change(&mut buffer, &change);
    assert_eq!(buffer, b"hellabco world".to_vec());
    assert_eq!(e.start_byte, 4);
    assert_eq!(e.old_end_byte, 4);
    assert_eq!(e.new_end_byte, 4 + 3);
    assert_eq!(e.start_position, TsPoint { row: 0, column: 4 });
    assert_eq!(e.old_end_position, TsPoint { row: 0, column: 4 });
    assert_eq!(e.new_end_position, TsPoint { row: 0, column: 7 });
}

#[test]
fn single_deletion_descriptor() {
    // delete bytes [2, 5) of the buffer
    let mut buffer: Vec<u8> = b"abcdefgh".to_vec();
    let change = ContentChange {
        range: Some(range(0, 2, 0, 5)),
        text: String::new(),
    };
    let e = translate_change(&mut buffer, &change);
    assert_eq!(buffer, b"abfgh".to_vec());
    assert_eq!(e.start_byte, 2);
    assert_eq!(e.old_end_byte, 5);
    assert_eq!(e.new_end_byte, 2);
}

#[test]
fn full_document_replacement() {
    let mut buffer: Vec<u8> = b"old text".to_vec();
    let change = ContentChange {
        range: None,
        text: "new".to_string(),
    };
    let e = translate_change(&mut buffer, &change);
    assert_eq!(buffer, b"new".to_vec());
    assert_eq!(e.start_byte, 0);
    assert_eq!(e.old_end_byte, 8);
    assert_eq!(e.new_end_byte, 3);
}

#[test]
fn inverted_range_clamps_to_start() {
    let mut buffer: Vec<u8> = b"abcdef".to_vec();
    let change = ContentChange {
        range: Some(range(0, 4, 0, 2)),
        text: "X".to_string(),
    };
    let e = translate_change(&mut buffer, &change);
    // the end clamps to the start: a pure insertion at byte 4
    assert_eq!(e.start_byte, 4);
    assert_eq!(e.old_end_byte, 4);
    assert_eq!(buffer, b"abcdXef".to_vec());
}

#[test]
fn batch_of_two_applies_sequentially() {
    // the second change's offsets are read against the buffer that
    // already holds the first change's effect
    let mut buffer: Vec<u8> = b"abcdef".to_vec();
    let changes = vec![
        ContentChange {
            range: Some(range(0, 0, 0, 0)),
            text: "XY".to_string(),
        },
        // (0,2)-(0,3) on "XYabcdef" covers byte 2, the letter 'a'
        ContentChange {
            range: Some(range(0, 2, 0, 3)),
            text: "Z".to_string(),
        },
    ];
    let edits = translate_changes(&mut buffer, &changes);
    assert_eq!(buffer, b"XYZbcdef".to_vec());
    assert_eq!(edits.len(), 2);
    assert_eq!(edits[0].start_byte, 0);
    assert_eq!(edits[0].old_end_byte, 0);
    assert_eq!(edits[0].new_end_byte, 2);
    assert_eq!(edits[1].start_byte, 2);
    assert_eq!(edits[1].old_end_byte, 3);
    assert_eq!(edits[1].new_end_byte, 3);
}

#[test]
fn empty_batch_is_a_no_op() {
    let mut buffer: Vec<u8> = b"unchanged".to_vec();
    let edits = translate_changes(&mut buffer, &vec![]);
    assert_eq!(buffer, b"unchanged".to_vec());
    assert_eq!(edits.len(), 0);
}

#[test]
fn deletion_at_buffer_end_is_clamped() {
    // a range past the end clamps to the buffer length
    let mut buffer: Vec<u8> = b"abc".to_vec();
    let change = ContentChange {
        range: Some(range(0, 2, 5, 0)),
        text: String::new(),
    };
    let e = translate_change(&mut buffer, &change);
    assert_eq!(buffer, b"ab".to_vec());
    assert_eq!(e.start_byte, 2);
    assert_eq!(e.old_end_byte, 3);
    assert_eq!(e.new_end_byte, 2);
}
