//! Tests of the store and the handlers against the real parsing
//! provider and query engine, on C sources.

use tsls::assets::QueryAssets;
use tsls::handlers::{did_change, did_close, did_open, did_save};
use tsls::edits::ContentChange;
use tsls::queries::{
    completion, document_symbol, goto_definition, references, rename, CompletionTrigger,
};
use tsls::store::{GlobalState, StoreError};
use tsls::types::{LspRange, Position, Severity};

const C_LOCALS: &str = "(compound_statement) @scope
(init_declarator declarator: (identifier) @definition.var)
(assignment_expression left: (identifier) @reference)";

const C_HIGHLIGHTS: &str = "(identifier) @variable";

fn c_assets() -> QueryAssets {
    let mut assets = QueryAssets::new();
    assets.add("c".to_string(), "locals".to_string(), C_LOCALS.to_string());
    assets.add(
        "c".to_string(),
        "highlights".to_string(),
        C_HIGHLIGHTS.to_string(),
    );
    assets
}

fn open_c(state: &mut GlobalState, assets: &QueryAssets, uri: &str, version: i32, text: &str) {
    did_open(state, assets, uri, "c", version, text.as_bytes().to_vec()).expect("open failed");
}

#[test]
fn open_stores_buffer_version_and_indices() {
    let assets = c_assets();
    let mut state = GlobalState::new();
    open_c(&mut state, &assets, "file:///a.c", 1, "{ int a = 1; { a = 2; } }");
    assert_eq!(state.get_version("file:///a.c"), 1);
    assert_eq!(
        state.get_source_code("file:///a.c").unwrap().as_slice(),
        b"{ int a = 1; { a = 2; } }"
    );
    assert_eq!(state.get_language_id("file:///a.c"), Some("c"));
    assert!(state.get_tree("file:///a.c").is_some());
}

#[test]
fn unsupported_language_leaves_state_untouched() {
    let assets = c_assets();
    let mut state = GlobalState::new();
    let r = did_open(
        &mut state,
        &assets,
        "file:///a.xyz",
        "no-such-language",
        1,
        b"text".to_vec(),
    );
    assert_eq!(r, Err(StoreError::UnsupportedLanguage));
    assert!(state.get_tree("file:///a.xyz").is_none());
}

#[test]
fn reference_resolves_outward_through_scope_chain() {
    // outer scope S0 holds the definition; the reference sits in the
    // inner scope S1 and resolves outward to it
    let assets = c_assets();
    let mut state = GlobalState::new();
    let src = "{ int a = 1; { a = 2; } }";
    open_c(&mut state, &assets, "file:///p7.c", 1, src);

    let scopes = state.get_ordered_scopes("file:///p7.c").unwrap().clone();
    assert_eq!(scopes.len(), 2);
    assert_eq!((scopes[0].start_byte, scopes[0].end_byte), (0, 25));
    assert_eq!((scopes[1].start_byte, scopes[1].end_byte), (13, 23));

    let parsed = state.get_parsed_info("file:///p7.c").unwrap();
    let table = parsed.definitions_lookup_map();
    let occ = table.get("a", 0).expect("entry for a in the outer scope");
    assert_eq!(occ.len(), 2);
    assert_eq!(occ[0].location.start_byte, 6);
    assert_eq!(occ[0].location.end_byte, 7);
    assert_eq!(occ[1].location.start_byte, 15);
    assert_eq!(occ[1].location.end_byte, 16);
}

#[test]
fn goto_references_and_rename_on_resolved_token() {
    let assets = c_assets();
    let mut state = GlobalState::new();
    open_c(&mut state, &assets, "file:///q.c", 1, "{ int a = 1; { a = 2; } }");
    let at_ref = Position {
        line: 0,
        character: 15,
    };

    let ranges = goto_definition(&state, "file:///q.c", &at_ref).expect("definition");
    assert_eq!(ranges.len(), 1);
    assert_eq!(
        ranges[0],
        LspRange {
            start: Position {
                line: 0,
                character: 6
            },
            end: Position {
                line: 0,
                character: 7
            },
        }
    );

    let locs = references(&state, "file:///q.c", &at_ref).expect("references");
    assert_eq!(locs.len(), 2);
    assert_eq!(locs[0].start.character, 6);
    assert_eq!(locs[1].start.character, 15);

    let edits = rename(&state, "file:///q.c", &at_ref, "b").expect("rename");
    assert_eq!(edits.len(), 2);
    assert!(edits.iter().all(|e| e.new_text == "b"));
    assert_eq!(edits[0].range.start.character, 6);
    assert_eq!(edits[1].range.start.character, 15);
}

#[test]
fn queries_on_missing_document_return_missing() {
    let state = GlobalState::new();
    let pos = Position {
        line: 0,
        character: 0,
    };
    assert_eq!(
        goto_definition(&state, "file:///nope.c", &pos),
        Err(StoreError::MissingDocument)
    );
    assert_eq!(
        references(&state, "file:///nope.c", &pos),
        Err(StoreError::MissingDocument)
    );
    assert_eq!(
        rename(&state, "file:///nope.c", &pos, "x"),
        Err(StoreError::MissingDocument)
    );
    assert_eq!(
        document_symbol(&state, "file:///nope.c"),
        Err(StoreError::MissingDocument)
    );
}

#[test]
fn syntax_error_yields_exactly_one_diagnostic() {
    let assets = QueryAssets::new();
    let mut state = GlobalState::new();
    // the stray token before the semicolon is the malformed span
    open_c(&mut state, &assets, "file:///err.c", 1, "int x = 1 2;");
    let diags = state.get_diagnostics("file:///err.c").expect("diagnostics stored");
    assert_eq!(diags.len(), 1);
    assert_eq!(diags[0].message, "syntax error");
    assert_eq!(diags[0].severity, Severity::Error);
    assert_eq!(diags[0].range.start.line, 0);
    assert_eq!(diags[0].range.end.line, 0);
    assert_eq!(diags[0].range.start.character, 10);
    assert_eq!(diags[0].range.end.character, 11);
}

#[test]
fn well_formed_source_yields_no_diagnostics() {
    let assets = QueryAssets::new();
    let mut state = GlobalState::new();
    open_c(&mut state, &assets, "file:///ok.c", 1, "int x = 1;");
    let diags = state.get_diagnostics("file:///ok.c").expect("diagnostics stored");
    assert_eq!(diags.len(), 0);
}

#[test]
fn stale_change_is_dropped_without_mutation() {
    let assets = c_assets();
    let mut state = GlobalState::new();
    open_c(&mut state, &assets, "file:///v.c", 3, "int x = 1;");
    let change = vec![ContentChange {
        range: None,
        text: "int y = 2;".to_string(),
    }];
    // same version: dropped
    let r = did_change(&mut state, &assets, "file:///v.c", 3, &change);
    assert_eq!(r, Err(StoreError::StaleEdit));
    assert_eq!(state.get_version("file:///v.c"), 3);
    assert_eq!(
        state.get_source_code("file:///v.c").unwrap().as_slice(),
        b"int x = 1;"
    );
    // older version: dropped too
    let r = did_change(&mut state, &assets, "file:///v.c", 2, &change);
    assert_eq!(r, Err(StoreError::StaleEdit));
    assert_eq!(state.get_version("file:///v.c"), 3);
    assert_eq!(
        state.get_source_code("file:///v.c").unwrap().as_slice(),
        b"int x = 1;"
    );
}

#[test]
fn fresh_change_mutates_buffer_and_version() {
    let assets = c_assets();
    let mut state = GlobalState::new();
    open_c(&mut state, &assets, "file:///c.c", 1, "int x = 1;");
    // insert "int y = 2;\n" at the start
    let change = vec![ContentChange {
        range: Some(LspRange {
            start: Position {
                line: 0,
                character: 0,
            },
            end: Position {
                line: 0,
                character: 0,
            },
        }),
        text: "int y = 2;\n".to_string(),
    }];
    let r = did_change(&mut state, &assets, "file:///c.c", 2, &change);
    assert_eq!(r, Ok(()));
    assert_eq!(state.get_version("file:///c.c"), 2);
    assert_eq!(
        state.get_source_code("file:///c.c").unwrap().as_slice(),
        b"int y = 2;\nint x = 1;"
    );
}

#[test]
fn incremental_reparse_matches_parse_from_scratch() {
    let assets = c_assets();
    let mut state = GlobalState::new();
    open_c(&mut state, &assets, "file:///inc.c", 1, "void f() { int a = 1; }");
    let change = vec![ContentChange {
        range: Some(LspRange {
            start: Position {
                line: 0,
                character: 23,
            },
            end: Position {
                line: 0,
                character: 23,
            },
        }),
        text: "\nvoid g() { int b = 2; }".to_string(),
    }];
    did_change(&mut state, &assets, "file:///inc.c", 2, &change).expect("change");

    // a second document opened directly with the final text must index
    // identically
    open_c(
        &mut state,
        &assets,
        "file:///scratch.c",
        1,
        "void f() { int a = 1; }\nvoid g() { int b = 2; }",
    );
    let s1 = state.get_ordered_scopes("file:///inc.c").unwrap().clone();
    let s2 = state.get_ordered_scopes("file:///scratch.c").unwrap().clone();
    assert_eq!(s1, s2);
    let d1 = state.get_diagnostics("file:///inc.c").unwrap().len();
    let d2 = state.get_diagnostics("file:///scratch.c").unwrap().len();
    assert_eq!(d1, d2);
}

#[test]
fn close_purges_every_piece_of_state() {
    let assets = c_assets();
    let mut state = GlobalState::new();
    open_c(&mut state, &assets, "file:///x.c", 1, "{ int a = 1; }");
    open_c(&mut state, &assets, "file:///keep.c", 1, "{ int k = 3; }");
    assert!(state.get_tree("file:///x.c").is_some());

    did_close(&mut state, "file:///x.c");

    assert!(state.get_tree("file:///x.c").is_none());
    assert!(state.get_source_code("file:///x.c").is_none());
    assert_eq!(state.get_version("file:///x.c"), 0);
    assert!(state.get_ordered_scopes("file:///x.c").is_none());
    assert!(state.get_identifiers("file:///x.c").is_none());
    assert!(state.get_diagnostics("file:///x.c").is_none());
    assert!(state.get_keywords("file:///x.c").is_none());
    // the other document is untouched
    assert!(state.get_tree("file:///keep.c").is_some());
    assert_eq!(state.get_version("file:///keep.c"), 1);
}

#[test]
fn completion_lists_scope_identifiers() {
    let assets = c_assets();
    let mut state = GlobalState::new();
    open_c(&mut state, &assets, "file:///cmp.c", 1, "{ int a = 1; { a = 2; } }");
    let pos = Position {
        line: 0,
        character: 16,
    };
    let items = completion(&state, "file:///cmp.c", &pos, CompletionTrigger::Invoked)
        .expect("completion");
    assert!(items.iter().any(|i| i.label == "a"));

    let r = completion(
        &state,
        "file:///cmp.c",
        &pos,
        CompletionTrigger::TriggerCharacter,
    );
    assert_eq!(r, Err(StoreError::NotImplemented));
}

#[test]
fn document_symbols_list_indexed_identifiers() {
    let assets = c_assets();
    let mut state = GlobalState::new();
    open_c(&mut state, &assets, "file:///ds.c", 1, "{ int a = 1; { a = 2; } }");
    let symbols = document_symbol(&state, "file:///ds.c").expect("document symbols");
    assert!(!symbols.is_empty());
    assert!(symbols.iter().any(|s| s.name == "a"));
}

#[test]
fn save_rebuilds_indices_without_touching_buffer() {
    let assets = c_assets();
    let mut state = GlobalState::new();
    open_c(&mut state, &assets, "file:///s.c", 5, "{ int a = 1; }");
    did_save(&mut state, &assets, "file:///s.c").expect("save");
    assert_eq!(state.get_version("file:///s.c"), 5);
    assert_eq!(
        state.get_source_code("file:///s.c").unwrap().as_slice(),
        b"{ int a = 1; }"
    );
    assert!(state.get_ordered_scopes("file:///s.c").is_some());
}

#[test]
fn struct_members_become_children_of_the_struct_symbol() {
    let mut assets = QueryAssets::new();
    assets.add(
        "c".to_string(),
        "locals".to_string(),
        "(struct_specifier name: (type_identifier) @definition.var)".to_string(),
    );
    assets.add(
        "c".to_string(),
        "children".to_string(),
        "(struct_specifier name: (type_identifier) @owner body: (field_declaration_list (field_declaration declarator: (field_identifier) @child)))".to_string(),
    );
    let mut state = GlobalState::new();
    open_c(&mut state, &assets, "file:///ch.c", 1, "struct S { int f; int g; };");

    let parsed = state.get_parsed_info("file:///ch.c").unwrap();
    let occ = parsed
        .definitions_lookup_map()
        .get("S", 0)
        .expect("entry for S");
    let kids = occ[0].children.as_ref().expect("members attached");
    assert_eq!(kids.len(), 2);
    assert_eq!(kids[0].name, "f");
    assert_eq!(kids[0].location.start_byte, 15);
    assert_eq!(kids[1].name, "g");
    assert_eq!(kids[1].location.start_byte, 22);
}

#[test]
fn every_language_of_the_grammar_set_opens() {
    let assets = QueryAssets::new();
    let cases: [(&str, &str); 11] = [
        ("c", "int x = 1;"),
        ("cpp", "int x = 1;"),
        ("rust", "fn main() {}"),
        ("python", "x = 1"),
        ("javascript", "var x = 1;"),
        ("typescript", "let x: number = 1;"),
        ("go", "package p"),
        ("cuda", "__global__ void k() {}"),
        ("kotlin", "val x = 1"),
        ("glsl", "void main() {}"),
        ("hare", "fn main() void = void;"),
    ];
    for (i, (lang, src)) in cases.iter().enumerate() {
        let mut state = GlobalState::new();
        let uri = format!("file:///l{}.x", i);
        let r = did_open(&mut state, &assets, &uri, lang, 1, src.as_bytes().to_vec());
        assert_eq!(r, Ok(()), "language {lang} must open");
        assert!(state.get_tree(&uri).is_some());
    }
}

#[test]
fn rebuild_without_a_tree_reuses_the_stored_bytes() {
    let assets = c_assets();
    let mut state = GlobalState::new();
    open_c(&mut state, &assets, "file:///rb.c", 1, "{ int a = 1; }");
    // a rebuild with no tree runs on the stored (tree, bytes) pair; the
    // text argument pairs only with a supplied tree
    let r = state.build_cache(
        &assets,
        "file:///rb.c".to_string(),
        "c".to_string(),
        2,
        b"ignored".to_vec(),
        None,
    );
    assert_eq!(r, Ok(()));
    assert_eq!(state.get_version("file:///rb.c"), 2);
    assert_eq!(
        state.get_source_code("file:///rb.c").unwrap().as_slice(),
        b"{ int a = 1; }"
    );
    assert!(state.get_ordered_scopes("file:///rb.c").is_some());
}
