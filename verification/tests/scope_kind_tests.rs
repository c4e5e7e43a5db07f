//! Tests of scope containment, the capture-tag classifier and the
//! keyword extraction helpers.

use tsls::engine::Capture;
use tsls::keywords::extract_keywords;
use tsls::kinds::{get_kind, kind_of_tag, tag_of, CaptureTag};
use tsls::scopes::{get_smallest_scope_id_by_node, get_smallest_scope_id_by_position};
use tsls::strutil::{str_eq, trim_quotes};
use tsls::types::{CompletionItemKind, Position, SymbolKind, TsPoint, TsRange};

fn byte_range(start: usize, end: usize) -> TsRange {
    TsRange {
        start_byte: start,
        end_byte: end,
        start_point: TsPoint { row: 0, column: start },
        end_point: TsPoint { row: 0, column: end },
    }
}

#[test]
fn smallest_scope_is_the_last_containing_entry() {
    // nested scopes: outer [0,100), middle [10,60), inner [20,40)
    let scopes = vec![byte_range(0, 100), byte_range(10, 60), byte_range(20, 40)];
    let node = byte_range(25, 30);
    assert_eq!(get_smallest_scope_id_by_node(&node, &scopes), 2);
    let node_mid = byte_range(12, 15);
    assert_eq!(get_smallest_scope_id_by_node(&node_mid, &scopes), 1);
    let node_outer = byte_range(70, 80);
    assert_eq!(get_smallest_scope_id_by_node(&node_outer, &scopes), 0);
}

#[test]
fn node_outside_every_scope_gets_the_global_marker() {
    let scopes = vec![byte_range(10, 20)];
    let node = byte_range(30, 40);
    assert_eq!(get_smallest_scope_id_by_node(&node, &scopes), 0);
    assert_eq!(get_smallest_scope_id_by_node(&node, &[]), 0);
}

#[test]
fn containment_is_strict() {
    let scopes = vec![byte_range(10, 20)];
    // touching the borders does not count as strictly inside
    assert_eq!(get_smallest_scope_id_by_node(&byte_range(10, 15), &scopes), 0);
    assert_eq!(get_smallest_scope_id_by_node(&byte_range(12, 20), &scopes), 0);
    assert_eq!(get_smallest_scope_id_by_node(&byte_range(11, 19), &scopes), 0);
}

#[test]
fn smallest_scope_by_position() {
    let scopes = vec![
        TsRange {
            start_byte: 0,
            end_byte: 100,
            start_point: TsPoint { row: 0, column: 0 },
            end_point: TsPoint { row: 10, column: 0 },
        },
        TsRange {
            start_byte: 20,
            end_byte: 60,
            start_point: TsPoint { row: 2, column: 0 },
            end_point: TsPoint { row: 6, column: 0 },
        },
    ];
    let inner = Position {
        line: 3,
        character: 4,
    };
    assert_eq!(get_smallest_scope_id_by_position(&inner, &scopes), 1);
    let outer = Position {
        line: 8,
        character: 0,
    };
    assert_eq!(get_smallest_scope_id_by_position(&outer, &scopes), 0);
}

#[test]
fn classifier_maps_known_tags() {
    assert_eq!(
        get_kind("variable"),
        (CompletionItemKind::Variable, SymbolKind::Variable)
    );
    assert_eq!(
        get_kind("function"),
        (CompletionItemKind::Function, SymbolKind::Function)
    );
    assert_eq!(
        get_kind("function.macro"),
        (CompletionItemKind::Function, SymbolKind::Function)
    );
    assert_eq!(
        get_kind("keyword.return"),
        (CompletionItemKind::Keyword, SymbolKind::Key)
    );
    assert_eq!(
        get_kind("struct"),
        (CompletionItemKind::Struct, SymbolKind::Struct)
    );
    assert_eq!(
        get_kind("constant.builtin"),
        (CompletionItemKind::Constant, SymbolKind::Constant)
    );
    assert_eq!(
        get_kind("punctuation.bracket"),
        (CompletionItemKind::Operator, SymbolKind::Operator)
    );
}

#[test]
fn classifier_is_total_on_unknown_tags() {
    assert_eq!(
        get_kind("no.such.tag"),
        (CompletionItemKind::Text, SymbolKind::String)
    );
    assert_eq!(get_kind(""), (CompletionItemKind::Text, SymbolKind::String));
    assert_eq!(tag_of("whatever"), CaptureTag::Other);
    assert_eq!(
        kind_of_tag(CaptureTag::Other),
        (CompletionItemKind::Text, SymbolKind::String)
    );
}

#[test]
fn string_helpers() {
    assert!(str_eq("abc", "abc"));
    assert!(!str_eq("abc", "abd"));
    assert_eq!(trim_quotes("\"if\""), "if");
    assert_eq!(trim_quotes("\"\"x\"\""), "x");
    assert_eq!(trim_quotes("plain"), "plain");
    assert_eq!(trim_quotes("\"\""), "");
}

fn cap(name: &str, text: &str) -> Capture {
    Capture {
        name: name.to_string(),
        range: byte_range(0, 0),
        text: text.to_string(),
    }
}

#[test]
fn keywords_extracted_trimmed_filtered_and_deduplicated() {
    let matches = vec![
        // a qualifying group: the last capture names "keyword"
        vec![
            cap("node_name", "\"if\""),
            cap("node_name", "\"else\""),
            cap("node_name", "\"+\""),
            cap("capture_name", "keyword"),
        ],
        // not qualifying: last capture is not keyword-like
        vec![cap("node_name", "\"struct\""), cap("capture_name", "type")],
        // qualifying again, repeating "if"
        vec![
            cap("node_name", "\"if\""),
            cap("node_name", "\"while\""),
            cap("capture_name", "conditional"),
        ],
        // the repeat family qualifies too
        vec![cap("node_name", "\"for\""), cap("capture_name", "repeat")],
    ];
    let kws = extract_keywords(&matches);
    assert_eq!(
        kws,
        vec![
            "if".to_string(),
            "else".to_string(),
            "while".to_string(),
            "for".to_string()
        ]
    );
}
