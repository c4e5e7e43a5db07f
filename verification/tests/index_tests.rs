//! Tests of the scope/symbol indexer on constructed capture lists.

use tsls::engine::Capture;
use tsls::index::{attach_children, build_definitions_and_identifiers, build_scopes, update_identifiers_kind};
use tsls::types::{CompletionItemKind, SymbolKind, TsPoint, TsRange};

fn byte_range(start: usize, end: usize) -> TsRange {
    TsRange {
        start_byte: start,
        end_byte: end,
        start_point: TsPoint { row: 0, column: start },
        end_point: TsPoint { row: 0, column: end },
    }
}

fn cap(name: &str, r: TsRange, text: &str) -> Capture {
    Capture {
        name: name.to_string(),
        range: r,
        text: text.to_string(),
    }
}

#[test]
fn scopes_collected_in_match_order() {
    let matches = vec![
        vec![cap("scope", byte_range(0, 100), "")],
        vec![cap("other", byte_range(1, 2), "x")],
        vec![
            cap("scope", byte_range(10, 60), ""),
            cap("scope", byte_range(20, 40), ""),
        ],
    ];
    let (scopes, identifiers) = build_scopes(&matches);
    assert_eq!(
        scopes,
        vec![byte_range(0, 100), byte_range(10, 60), byte_range(20, 40)]
    );
    assert_eq!(identifiers.len(), 3);
    assert!(identifiers.iter().all(|v| v.is_empty()));
}

#[test]
fn definitions_key_by_smallest_scope_and_first_wins() {
    let scopes = vec![byte_range(0, 100), byte_range(10, 60)];
    let captures = vec![
        // defined in the inner scope
        cap("definition.var", byte_range(12, 13), "a"),
        // defined at the outer scope
        cap("definition.var", byte_range(2, 3), "b"),
        // a second definition of (a, inner) is ignored: first wins
        cap("definition.var", byte_range(14, 15), "a"),
        // resolves to (a, inner)
        cap("reference", byte_range(20, 21), "a"),
        // resolves outward to (b, outer)
        cap("reference", byte_range(30, 31), "b"),
        // unresolved: no (a, outer) definition anywhere on its chain
        cap("reference", byte_range(5, 6), "a"),
    ];
    let table = build_definitions_and_identifiers(&captures, &scopes);
    assert_eq!(table.len(), 2);

    let a_inner = table.get("a", 1).expect("a defined in the inner scope");
    assert_eq!(a_inner.len(), 2);
    assert_eq!(a_inner[0].location.start_byte, 12);
    assert_eq!(a_inner[1].location.start_byte, 20);

    let b_outer = table.get("b", 0).expect("b defined at the outer scope");
    assert_eq!(b_outer.len(), 2);
    assert_eq!(b_outer[0].location.start_byte, 2);
    assert_eq!(b_outer[1].location.start_byte, 30);

    assert!(table.get("a", 0).is_none());
    assert!(table.get("c", 0).is_none());
}

#[test]
fn indexing_twice_gives_identical_results() {
    let matches = vec![vec![
        cap("scope", byte_range(0, 100), ""),
        cap("scope", byte_range(10, 60), ""),
    ]];
    let captures = vec![
        cap("definition.var", byte_range(12, 13), "a"),
        cap("reference", byte_range(20, 21), "a"),
    ];
    let (s1, _) = build_scopes(&matches);
    let (s2, _) = build_scopes(&matches);
    assert_eq!(s1, s2);
    let t1 = build_definitions_and_identifiers(&captures, &s1);
    let t2 = build_definitions_and_identifiers(&captures, &s2);
    assert_eq!(t1.len(), t2.len());
    for i in 0..t1.len() {
        let e1 = t1.entry_at(i);
        let e2 = t2.entry_at(i);
        assert_eq!(e1.name, e2.name);
        assert_eq!(e1.scope_id, e2.scope_id);
        assert_eq!(e1.occurrences.len(), e2.occurrences.len());
        for j in 0..e1.occurrences.len() {
            assert_eq!(e1.occurrences[j].location, e2.occurrences[j].location);
            assert_eq!(e1.occurrences[j].name, e2.occurrences[j].name);
        }
    }
}

#[test]
fn identifier_kinds_merge_per_scope_and_name() {
    let scopes = vec![byte_range(0, 100)];
    let mut identifiers = vec![Vec::new()];
    let captures = vec![
        cap("variable", byte_range(1, 2), "x"),
        cap("function", byte_range(1, 2), "x"),
        cap("variable", byte_range(5, 6), "y"),
        // operators are still recorded here; completion filters them
        cap("operator", byte_range(7, 8), "+"),
    ];
    update_identifiers_kind(&mut identifiers, &scopes, &captures);
    assert_eq!(identifiers.len(), 1);
    let list = &identifiers[0];
    assert_eq!(list.len(), 3);
    assert_eq!(list[0].name, "x");
    assert_eq!(
        list[0].completion_kind,
        vec![CompletionItemKind::Variable, CompletionItemKind::Function]
    );
    assert_eq!(
        list[0].symbol_kind,
        vec![SymbolKind::Variable, SymbolKind::Function]
    );
    assert_eq!(list[1].name, "y");
    assert_eq!(list[2].name, "+");
    // every symbol in scope 0 belongs to the outermost scope
    assert_eq!(list[0].belongs_to_scopes, vec![byte_range(0, 100)]);
}

#[test]
fn identifiers_dropped_when_no_scope_exists() {
    let scopes: Vec<TsRange> = vec![];
    let mut identifiers: Vec<Vec<tsls::types::Symbol>> = vec![];
    let captures = vec![cap("variable", byte_range(1, 2), "x")];
    update_identifiers_kind(&mut identifiers, &scopes, &captures);
    assert!(identifiers.is_empty());
}

#[test]
fn children_attach_to_the_owning_definition() {
    let scopes: Vec<TsRange> = vec![];
    let captures = vec![cap("definition.var", byte_range(7, 8), "S")];
    let mut table = build_definitions_and_identifiers(&captures, &scopes);
    let matches = vec![
        // the first capture names the owner; the rest become children
        vec![
            cap("owner", byte_range(7, 8), "S"),
            cap("child", byte_range(12, 13), "f"),
            cap("child", byte_range(20, 21), "g"),
        ],
        // an owner that resolves to no definition is ignored
        vec![
            cap("owner", byte_range(0, 1), "T"),
            cap("child", byte_range(2, 3), "x"),
        ],
        // a match with nothing beyond the owner is ignored
        vec![cap("owner", byte_range(7, 8), "S")],
    ];
    attach_children(&mut table, &matches, &scopes);
    let occ = table.get("S", 0).expect("entry for S");
    let kids = occ[0].children.as_ref().expect("children attached");
    assert_eq!(kids.len(), 2);
    assert_eq!(kids[0].name, "f");
    assert_eq!(kids[0].location.start_byte, 12);
    assert_eq!(kids[1].name, "g");
    assert_eq!(kids[1].location.start_byte, 20);

    // a later match appends to the existing children
    let more = vec![vec![
        cap("owner", byte_range(7, 8), "S"),
        cap("child", byte_range(30, 31), "h"),
    ]];
    attach_children(&mut table, &more, &scopes);
    let occ = table.get("S", 0).expect("entry for S");
    let kids = occ[0].children.as_ref().expect("children kept");
    assert_eq!(kids.len(), 3);
    assert_eq!(kids[2].name, "h");
}
