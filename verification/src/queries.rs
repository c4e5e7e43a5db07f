//! The read-only query handlers: definition, references, rename,
//! completion and document symbols. They read the store and never
//! mutate it.

use vstd::prelude::*;

use crate::convert::{lsp_position_to_ts_point, spec_ts_range_to_lsp_range, ts_range_to_lsp_range};
use crate::engine::{named_node_at, node_at, NodeInfo};
use crate::index::{
    chain_of, containing_chain, resolve_in_chain, resolve_reference, views_of_symbols,
};
use crate::scopes::{get_smallest_scope_id_by_position, spec_smallest_scope_by_position};
use crate::store::{GlobalState, ParsedInfo, ParsedInfoView, StoreError};
use crate::types::{
    CompletionItemKind, LspRange, Position, Symbol, SymbolKind, SymbolView, TsRange,
};

verus! {

/// One text edit of a rename: the range to replace and the new text.
#[derive(Clone, Debug, PartialEq, Eq)]
pub struct TextEdit {
    pub range: LspRange,
    pub new_text: String,
}

/// The mathematical model of a [`TextEdit`].
pub ghost struct TextEditView {
    pub range: LspRange,
    pub new_text: Seq<char>,
}

impl View for TextEdit {
    type V = TextEditView;

    open spec fn view(&self) -> TextEditView {
        TextEditView { range: self.range, new_text: self.new_text@ }
    }
}

/// One completion suggestion.
#[derive(Clone, Debug, PartialEq, Eq)]
pub struct CompletionItem {
    pub label: String,
    pub kind: CompletionItemKind,
}

/// The mathematical model of a [`CompletionItem`].
pub ghost struct CompletionItemView {
    pub label: Seq<char>,
    pub kind: CompletionItemKind,
}

impl View for CompletionItem {
    type V = CompletionItemView;

    open spec fn view(&self) -> CompletionItemView {
        CompletionItemView { label: self.label@, kind: self.kind }
    }
}

/// What triggered a completion request.
#[derive(Clone, Copy, Debug, PartialEq, Eq, Structural)]
pub enum CompletionTrigger {
    Invoked,
    TriggerCharacter,
    IncompleteCompletions,
}

/// One document symbol: a name, its classification, the range of its
/// containing scope and the range of the name itself.
#[derive(Clone, Debug, PartialEq, Eq)]
pub struct DocumentSymbol {
    pub name: String,
    pub kind: SymbolKind,
    pub range: LspRange,
    pub selection_range: LspRange,
}

/// The mathematical model of a [`DocumentSymbol`].
pub ghost struct DocumentSymbolView {
    pub name: Seq<char>,
    pub kind: SymbolKind,
    pub range: LspRange,
    pub selection_range: LspRange,
}

impl View for DocumentSymbol {
    type V = DocumentSymbolView;

    open spec fn view(&self) -> DocumentSymbolView {
        DocumentSymbolView {
            name: self.name@,
            kind: self.kind,
            range: self.range,
            selection_range: self.selection_range,
        }
    }
}

/// The definition-table index a node resolves to: its name walked
/// outward along its scope chain.
pub open spec fn resolution_of(parsed: ParsedInfoView, info: NodeInfo) -> Option<int> {
    resolve_in_chain(parsed.definitions, info.text@, chain_of(info.range, parsed.ordered_scopes))
}

/// Resolves a node against the stored indices: the node's name is looked
/// up at each scope of its chain, innermost outward, and the matching
/// entry's occurrence list is returned; `None` when the name is visible
/// nowhere.
pub fn lookup_definitions<'a>(parsed: &'a ParsedInfo, info: &NodeInfo) -> (r: Option<&'a Vec<
    Symbol,
>>)
    ensures
        match r {
            Option::Some(v) => resolution_of(parsed@, *info) is Some && 0 <= resolution_of(
                parsed@,
                *info,
            )->Some_0 < parsed@.definitions.len() && views_of_symbols(v@)
                == parsed@.definitions[resolution_of(parsed@, *info)->Some_0].occurrences,
            Option::None => resolution_of(parsed@, *info) is None,
        },
{
    let chain = containing_chain(&info.range, parsed.ordered_scopes().as_slice());
    let table = parsed.definitions_lookup_map();
    match resolve_reference(table, info.text.as_str(), &chain) {
        Option::Some(e) => {
            let entry = table.entry_at(e);
            Option::Some(&entry.occurrences)
        },
        Option::None => Option::None,
    }
}

/// The protocol locations of a list of occurrences.
pub open spec fn locations_of(occ: Seq<SymbolView>) -> Seq<LspRange> {
    occ.map_values(|s: SymbolView| spec_ts_range_to_lsp_range(s.location))
}

/// Maps occurrences to their protocol locations.
fn locations_exec(occ: &Vec<Symbol>) -> (r: Vec<LspRange>)
    ensures
        r@ == locations_of(views_of_symbols(occ@)),
{
    let mut r: Vec<LspRange> = Vec::new();
    let n: usize = occ.len();
    let mut i: usize = 0;
    proof {
        assert(r@ =~= locations_of(views_of_symbols(occ@.take(0))));
    }
    while i < n
        invariant
            0 <= i <= n == occ@.len(),
            r@ == locations_of(views_of_symbols(occ@.take(i as int))),
        decreases n - i,
    {
        let sym = &occ[i];
        r.push(ts_range_to_lsp_range(&sym.location));
        proof {
            assert(r@ =~= locations_of(views_of_symbols(occ@.take(i as int + 1))));
        }
        i = i + 1;
    }
    proof {
        assert(occ@.take(n as int) =~= occ@);
    }
    r
}

/// Looks up the node at the position of a stored document.
fn node_for_position(state: &GlobalState, uri: &str, position: &Position, named: bool) -> (r:
    Result<NodeInfo, StoreError>)
    requires
        state.wf(),
    ensures
        match r {
            Result::Ok(_) => state@.documents.contains_key(uri@),
            Result::Err(e) => (e == StoreError::MissingDocument && !state@.documents.contains_key(
                uri@,
            )) || (e == StoreError::NodeNotFound && state@.documents.contains_key(uri@)),
        },
{
    let doc = match state.get_document(uri) {
        Option::Some(d) => d,
        Option::None => {
            return Result::Err(StoreError::MissingDocument);
        },
    };
    let point = lsp_position_to_ts_point(position);
    let found = if named {
        named_node_at(doc.tree(), doc.source_code().as_slice(), &point)
    } else {
        node_at(doc.tree(), doc.source_code().as_slice(), &point)
    };
    match found {
        Option::Some(info) => Result::Ok(info),
        Option::None => Result::Err(StoreError::NodeNotFound),
    }
}

/// Returns the location of the definition that the token at the position
/// resolves to: its entry's first occurrence.
pub fn goto_definition(state: &GlobalState, uri: &str, position: &Position) -> (r: Result<
    Vec<LspRange>,
    StoreError,
>)
    requires
        state.wf(),
    ensures
        match r {
            Result::Ok(ranges) => state@.documents.contains_key(uri@)
                && state@.parsed_info.contains_key(uri@) && (exists|info: NodeInfo|
                #![trigger resolution_of(state@.parsed_info[uri@]@, info)]
                {
                    let parsed = state@.parsed_info[uri@]@;
                    let res = resolution_of(parsed, info);
                    &&& res is Some
                    &&& 0 <= res->Some_0 < parsed.definitions.len()
                    &&& parsed.definitions[res->Some_0].occurrences.len() > 0
                    &&& ranges@ == seq![
                        spec_ts_range_to_lsp_range(
                            parsed.definitions[res->Some_0].occurrences[0].location,
                        ),
                    ]
                }),
            Result::Err(e) => match e {
                StoreError::MissingDocument => !state@.documents.contains_key(uri@)
                    || !state@.parsed_info.contains_key(uri@),
                StoreError::NodeNotFound => state@.documents.contains_key(uri@),
                StoreError::UnresolvedSymbol => state@.parsed_info.contains_key(uri@),
                _ => false,
            },
        },
{
    let info = match node_for_position(state, uri, position, true) {
        Result::Ok(i) => i,
        Result::Err(e) => {
            return Result::Err(e);
        },
    };
    let parsed = match state.get_parsed_info(uri) {
        Option::Some(p) => p,
        Option::None => {
            return Result::Err(StoreError::MissingDocument);
        },
    };
    let occ = match lookup_definitions(parsed, &info) {
        Option::Some(v) => v,
        Option::None => {
            return Result::Err(StoreError::UnresolvedSymbol);
        },
    };
    if occ.len() == 0 {
        return Result::Err(StoreError::UnresolvedSymbol);
    }
    let first = &occ[0];
    let mut ranges: Vec<LspRange> = Vec::new();
    ranges.push(ts_range_to_lsp_range(&first.location));
    proof {
        let parsedv = state@.parsed_info[uri@]@;
        assert(parsed@ == parsedv);
        let res = resolution_of(parsedv, info);
        assert(res is Some);
        assert(views_of_symbols(occ@)[0] == occ@[0]@);
        assert(parsedv.definitions[res->Some_0].occurrences[0] == occ@[0]@);
        assert(ranges@ =~= seq![
            spec_ts_range_to_lsp_range(parsedv.definitions[res->Some_0].occurrences[0].location),
        ]);
    }
    Result::Ok(ranges)
}

/// Returns the locations of every occurrence (the definition and all
/// resolved references) of the token at the position.
pub fn references(state: &GlobalState, uri: &str, position: &Position) -> (r: Result<
    Vec<LspRange>,
    StoreError,
>)
    requires
        state.wf(),
    ensures
        match r {
            Result::Ok(ranges) => state@.documents.contains_key(uri@)
                && state@.parsed_info.contains_key(uri@) && (exists|info: NodeInfo|
                #![trigger resolution_of(state@.parsed_info[uri@]@, info)]
                {
                    let parsed = state@.parsed_info[uri@]@;
                    let res = resolution_of(parsed, info);
                    &&& res is Some
                    &&& 0 <= res->Some_0 < parsed.definitions.len()
                    &&& ranges@ == locations_of(parsed.definitions[res->Some_0].occurrences)
                }),
            Result::Err(e) => match e {
                StoreError::MissingDocument => !state@.documents.contains_key(uri@)
                    || !state@.parsed_info.contains_key(uri@),
                StoreError::NodeNotFound => state@.documents.contains_key(uri@),
                StoreError::UnresolvedSymbol => state@.parsed_info.contains_key(uri@),
                _ => false,
            },
        },
{
    let info = match node_for_position(state, uri, position, true) {
        Result::Ok(i) => i,
        Result::Err(e) => {
            return Result::Err(e);
        },
    };
    let parsed = match state.get_parsed_info(uri) {
        Option::Some(p) => p,
        Option::None => {
            return Result::Err(StoreError::MissingDocument);
        },
    };
    let occ = match lookup_definitions(parsed, &info) {
        Option::Some(v) => v,
        Option::None => {
            return Result::Err(StoreError::UnresolvedSymbol);
        },
    };
    let ranges = locations_exec(occ);
    proof {
        let parsedv = state@.parsed_info[uri@]@;
        assert(parsed@ == parsedv);
        let res = resolution_of(parsedv, info);
        assert(res is Some);
        assert(ranges@ == locations_of(parsedv.definitions[res->Some_0].occurrences));
    }
    Result::Ok(ranges)
}

/// The rename edits of a list of occurrences: each occurrence's range is
/// replaced by the new text.
pub open spec fn rename_edits_of(occ: Seq<SymbolView>, new_text: Seq<char>) -> Seq<TextEditView> {
    occ.map_values(
        |s: SymbolView| TextEditView {
            range: spec_ts_range_to_lsp_range(s.location),
            new_text: new_text,
        },
    )
}

/// The views of a text-edit vector.
pub open spec fn views_of_edits(s: Seq<TextEdit>) -> Seq<TextEditView> {
    s.map_values(|e: TextEdit| e@)
}

/// Builds one text edit per occurrence, replacing its range by the new
/// name.
pub fn get_response(definitions: &Vec<Symbol>, new_text: &str) -> (r: Vec<TextEdit>)
    ensures
        views_of_edits(r@) == rename_edits_of(views_of_symbols(definitions@), new_text@),
{
    let mut r: Vec<TextEdit> = Vec::new();
    let n: usize = definitions.len();
    let mut i: usize = 0;
    proof {
        assert(views_of_edits(r@) =~= rename_edits_of(
            views_of_symbols(definitions@.take(0)),
            new_text@,
        ));
    }
    while i < n
        invariant
            0 <= i <= n == definitions@.len(),
            views_of_edits(r@) == rename_edits_of(
                views_of_symbols(definitions@.take(i as int)),
                new_text@,
            ),
        decreases n - i,
    {
        let sym = &definitions[i];
        let edit = TextEdit {
            range: ts_range_to_lsp_range(&sym.location),
            new_text: new_text.to_owned(),
        };
        let ghost r_before = r@;
        let ghost editv = edit@;
        r.push(edit);
        proof {
            assert(views_of_symbols(definitions@.take(i as int + 1)) =~= views_of_symbols(
                definitions@.take(i as int),
            ).push(definitions@[i as int]@));
            assert(views_of_edits(r@) =~= views_of_edits(r_before).push(editv));
            assert(editv == TextEditView {
                range: spec_ts_range_to_lsp_range(definitions@[i as int]@.location),
                new_text: new_text@,
            });
            assert(views_of_edits(r@) =~= rename_edits_of(
                views_of_symbols(definitions@.take(i as int + 1)),
                new_text@,
            ));
        }
        i = i + 1;
    }
    proof {
        assert(definitions@.take(n as int) =~= definitions@);
    }
    r
}

/// Renames the token at the position: one edit per occurrence of the
/// definition it resolves to.
pub fn rename(state: &GlobalState, uri: &str, position: &Position, new_name: &str) -> (r: Result<
    Vec<TextEdit>,
    StoreError,
>)
    requires
        state.wf(),
    ensures
        match r {
            Result::Ok(edits) => state@.documents.contains_key(uri@)
                && state@.parsed_info.contains_key(uri@) && (exists|info: NodeInfo|
                #![trigger resolution_of(state@.parsed_info[uri@]@, info)]
                {
                    let parsed = state@.parsed_info[uri@]@;
                    let res = resolution_of(parsed, info);
                    &&& res is Some
                    &&& 0 <= res->Some_0 < parsed.definitions.len()
                    &&& views_of_edits(edits@) == rename_edits_of(
                        parsed.definitions[res->Some_0].occurrences,
                        new_name@,
                    )
                }),
            Result::Err(e) => match e {
                StoreError::MissingDocument => !state@.documents.contains_key(uri@)
                    || !state@.parsed_info.contains_key(uri@),
                StoreError::NodeNotFound => state@.documents.contains_key(uri@),
                StoreError::UnresolvedSymbol => state@.parsed_info.contains_key(uri@),
                _ => false,
            },
        },
{
    let info = match node_for_position(state, uri, position, true) {
        Result::Ok(i) => i,
        Result::Err(e) => {
            return Result::Err(e);
        },
    };
    let parsed = match state.get_parsed_info(uri) {
        Option::Some(p) => p,
        Option::None => {
            return Result::Err(StoreError::MissingDocument);
        },
    };
    let occ = match lookup_definitions(parsed, &info) {
        Option::Some(v) => v,
        Option::None => {
            return Result::Err(StoreError::UnresolvedSymbol);
        },
    };
    let edits = get_response(occ, new_name);
    proof {
        let parsedv = state@.parsed_info[uri@]@;
        assert(parsed@ == parsedv);
        let res = resolution_of(parsedv, info);
        assert(res is Some);
        assert(views_of_edits(edits@) == rename_edits_of(
            parsedv.definitions[res->Some_0].occurrences,
            new_name@,
        ));
    }
    Result::Ok(edits)
}

} // verus!

verus! {

/// The completion items of a keyword list.
pub open spec fn keyword_items(kw: Seq<Seq<char>>) -> Seq<CompletionItemView> {
    kw.map_values(
        |k: Seq<char>| CompletionItemView { label: k, kind: CompletionItemKind::Keyword },
    )
}

/// The completion items of a scope's symbols: each symbol under its
/// latest classification, except operators, which complete nothing.
pub open spec fn symbol_items(ss: Seq<SymbolView>) -> Seq<CompletionItemView>
    decreases ss.len(),
{
    if ss.len() == 0 {
        Seq::empty()
    } else {
        let rest = symbol_items(ss.drop_last());
        let s = ss.last();
        if s.completion_kind.len() > 0 && s.completion_kind.last() != CompletionItemKind::Operator {
            rest.push(CompletionItemView { label: s.name, kind: s.completion_kind.last() })
        } else {
            rest
        }
    }
}

/// The views of a completion-item vector.
pub open spec fn views_of_items(s: Seq<CompletionItem>) -> Seq<CompletionItemView> {
    s.map_values(|c: CompletionItem| c@)
}

/// Computes the completion list at a position: the language's keywords,
/// and, for an invoked request, the identifiers of the smallest scope
/// around the position, each under its latest classification, operators
/// excluded. Trigger kinds this core does not implement are refused.
pub fn completion(
    state: &GlobalState,
    uri: &str,
    position: &Position,
    trigger: CompletionTrigger,
) -> (r: Result<Vec<CompletionItem>, StoreError>)
    requires
        state.wf(),
    ensures
        match r {
            Result::Ok(items) => trigger == CompletionTrigger::Invoked
                && state@.parsed_info.contains_key(uri@) && ({
                let kw = if state@.properties.contains_key(uri@) {
                    state@.properties[uri@]@.keywords
                } else {
                    Seq::<Seq<char>>::empty()
                };
                let parsed = state@.parsed_info[uri@]@;
                let sid = spec_smallest_scope_by_position(*position, parsed.ordered_scopes);
                let syms = if 0 <= sid < parsed.identifiers.len() {
                    parsed.identifiers[sid]
                } else {
                    Seq::<SymbolView>::empty()
                };
                views_of_items(items@) == keyword_items(kw) + symbol_items(syms)
            }),
            Result::Err(e) => match e {
                StoreError::NotImplemented => trigger == CompletionTrigger::TriggerCharacter
                    || trigger == CompletionTrigger::IncompleteCompletions,
                StoreError::MissingDocument => trigger == CompletionTrigger::Invoked
                    && !state@.parsed_info.contains_key(uri@),
                _ => false,
            },
        },
{
    let mut items: Vec<CompletionItem> = Vec::new();
    let ghost kwv: Seq<Seq<char>> = if state@.properties.contains_key(uri@) {
        state@.properties[uri@]@.keywords
    } else {
        Seq::<Seq<char>>::empty()
    };
    match state.get_keywords(uri) {
        Option::Some(kws) => {
            let n: usize = kws.len();
            let mut i: usize = 0;
            proof {
                assert(crate::keywords::views_of_strings(kws@) == kwv);
                assert(views_of_items(items@) =~= keyword_items(kwv.take(0)));
            }
            while i < n
                invariant
                    0 <= i <= n == kws@.len(),
                    kwv == crate::keywords::views_of_strings(kws@),
                    views_of_items(items@) == keyword_items(kwv.take(i as int)),
                decreases n - i,
            {
                let item = CompletionItem {
                    label: kws[i].clone(),
                    kind: CompletionItemKind::Keyword,
                };
                let ghost itemv = item@;
                items.push(item);
                proof {
                    assert(kwv.take(i as int + 1) =~= kwv.take(i as int).push(kwv[i as int]));
                    assert(views_of_items(items@) =~= keyword_items(kwv.take(i as int)).push(
                        itemv,
                    ));
                    assert(keyword_items(kwv.take(i as int).push(kwv[i as int]))
                        =~= keyword_items(kwv.take(i as int)).push(
                        CompletionItemView { label: kwv[i as int], kind: CompletionItemKind::Keyword },
                    ));
                }
                i = i + 1;
            }
            proof {
                assert(kwv.take(n as int) =~= kwv);
            }
        },
        Option::None => {
            proof {
                assert(views_of_items(items@) =~= keyword_items(kwv));
            }
        },
    }
    match trigger {
        CompletionTrigger::Invoked => {},
        CompletionTrigger::TriggerCharacter => {
            return Result::Err(StoreError::NotImplemented);
        },
        CompletionTrigger::IncompleteCompletions => {
            return Result::Err(StoreError::NotImplemented);
        },
    }
    let parsed = match state.get_parsed_info(uri) {
        Option::Some(p) => p,
        Option::None => {
            return Result::Err(StoreError::MissingDocument);
        },
    };
    let sid = get_smallest_scope_id_by_position(position, parsed.ordered_scopes().as_slice());
    let ids = parsed.identifiers();
    let ghost parsedv = state@.parsed_info[uri@]@;
    let ghost symsv: Seq<SymbolView> = if (sid as int) < parsedv.identifiers.len() {
        parsedv.identifiers[sid as int]
    } else {
        Seq::<SymbolView>::empty()
    };
    if sid < ids.len() {
        let scope_syms = &ids[sid];
        proof {
            assert(crate::index::views_of_identifiers(ids@)[sid as int] == views_of_symbols(
                ids@[sid as int]@,
            ));
            assert(symsv == views_of_symbols(scope_syms@));
        }
        let m: usize = scope_syms.len();
        let mut j: usize = 0;
        proof {
            assert(views_of_symbols(scope_syms@).take(0) =~= views_of_symbols(
                scope_syms@.take(0),
            ));
            assert(views_of_symbols(scope_syms@.take(0)) =~= Seq::<SymbolView>::empty());
            assert(views_of_items(items@) + Seq::<CompletionItemView>::empty() =~= views_of_items(
                items@,
            ));
        }
        let ghost base = views_of_items(items@);
        while j < m
            invariant
                0 <= j <= m == scope_syms@.len(),
                symsv == views_of_symbols(scope_syms@),
                views_of_items(items@) == base + symbol_items(views_of_symbols(
                    scope_syms@.take(j as int),
                )),
            decreases m - j,
        {
            let sym = &scope_syms[j];
            proof {
                assert(views_of_symbols(scope_syms@.take(j as int + 1)).drop_last()
                    =~= views_of_symbols(scope_syms@.take(j as int)));
                assert(views_of_symbols(scope_syms@.take(j as int + 1)).last() == scope_syms@[
                    j as int]@);
            }
            let ck_len: usize = sym.completion_kind.len();
            if ck_len > 0 {
                let k = sym.completion_kind[ck_len - 1];
                if !matches!(k, CompletionItemKind::Operator) {
                    let item = CompletionItem { label: sym.name.clone(), kind: k };
                    let ghost itemv = item@;
                    items.push(item);
                    proof {
                        assert(views_of_items(items@) =~= (base + symbol_items(views_of_symbols(
                            scope_syms@.take(j as int),
                        ))).push(itemv));
                        assert(base + symbol_items(views_of_symbols(
                            scope_syms@.take(j as int),
                        )).push(itemv) =~= (base + symbol_items(views_of_symbols(
                            scope_syms@.take(j as int),
                        ))).push(itemv));
                    }

                }
            }
            j = j + 1;
        }
        proof {
            assert(scope_syms@.take(m as int) =~= scope_syms@);
        }
    } else {
        proof {
            assert(symsv =~= Seq::<SymbolView>::empty());
            assert(views_of_items(items@) + symbol_items(symsv) =~= views_of_items(items@));
        }
    }
    Result::Ok(items)
}

} // verus!

verus! {

/// The document symbol of one identifier occurrence: its latest
/// classification, its innermost containing scope as range (its own
/// location when no scope contains it), and its own location as the
/// selection range.
pub open spec fn doc_symbol_of(s: SymbolView) -> DocumentSymbolView {
    DocumentSymbolView {
        name: s.name,
        kind: if s.symbol_kind.len() > 0 {
            s.symbol_kind.last()
        } else {
            SymbolKind::String
        },
        range: if s.belongs_to_scopes.len() > 0 {
            spec_ts_range_to_lsp_range(s.belongs_to_scopes.last())
        } else {
            spec_ts_range_to_lsp_range(s.location)
        },
        selection_range: spec_ts_range_to_lsp_range(s.location),
    }
}

/// The document symbols of one scope's identifier list.
pub open spec fn doc_symbols_of_list(ss: Seq<SymbolView>) -> Seq<DocumentSymbolView> {
    ss.map_values(|s: SymbolView| doc_symbol_of(s))
}

/// The document symbols of all scopes' identifier lists, in scope order.
pub open spec fn doc_symbols_of(ids: Seq<Seq<SymbolView>>) -> Seq<DocumentSymbolView>
    decreases ids.len(),
{
    if ids.len() == 0 {
        Seq::empty()
    } else {
        doc_symbols_of(ids.drop_last()) + doc_symbols_of_list(ids.last())
    }
}

/// The views of a document-symbol vector.
pub open spec fn views_of_doc_symbols(s: Seq<DocumentSymbol>) -> Seq<DocumentSymbolView> {
    s.map_values(|d: DocumentSymbol| d@)
}

/// Lists every indexed identifier of the document as a document symbol,
/// in scope order.
pub fn document_symbol(state: &GlobalState, uri: &str) -> (r: Result<
    Vec<DocumentSymbol>,
    StoreError,
>)
    requires
        state.wf(),
    ensures
        match r {
            Result::Ok(v) => state@.parsed_info.contains_key(uri@) && views_of_doc_symbols(v@)
                == doc_symbols_of(state@.parsed_info[uri@]@.identifiers),
            Result::Err(e) => e == StoreError::MissingDocument
                && !state@.parsed_info.contains_key(uri@),
        },
{
    let parsed = match state.get_parsed_info(uri) {
        Option::Some(p) => p,
        Option::None => {
            return Result::Err(StoreError::MissingDocument);
        },
    };
    let ids = parsed.identifiers();
    let ghost idsv = state@.parsed_info[uri@]@.identifiers;
    proof {
        assert(idsv == crate::index::views_of_identifiers(ids@));
    }
    let mut out: Vec<DocumentSymbol> = Vec::new();
    let n: usize = ids.len();
    let mut i: usize = 0;
    proof {
        assert(idsv.take(0) =~= Seq::<Seq<SymbolView>>::empty());
        assert(views_of_doc_symbols(out@) =~= doc_symbols_of(idsv.take(0)));
    }
    while i < n
        invariant
            0 <= i <= n == ids@.len(),
            idsv == crate::index::views_of_identifiers(ids@),
            views_of_doc_symbols(out@) == doc_symbols_of(idsv.take(i as int)),
        decreases n - i,
    {
        let list = &ids[i];
        let ghost listv = idsv[i as int];
        proof {
            assert(listv == views_of_symbols(list@));
        }
        let m: usize = list.len();
        let mut j: usize = 0;
        proof {
            assert(listv.take(0) =~= Seq::<SymbolView>::empty());
            assert(doc_symbols_of_list(listv.take(0)) =~= Seq::<DocumentSymbolView>::empty());
            assert(views_of_doc_symbols(out@) + Seq::<DocumentSymbolView>::empty()
                =~= views_of_doc_symbols(out@));
        }
        let ghost base = views_of_doc_symbols(out@);
        while j < m
            invariant
                0 <= j <= m == list@.len(),
                listv == views_of_symbols(list@),
                views_of_doc_symbols(out@) == base + doc_symbols_of_list(listv.take(j as int)),
            decreases m - j,
        {
            let sym = &list[j];
            let sk_len: usize = sym.symbol_kind.len();
            let kind = if sk_len > 0 {
                sym.symbol_kind[sk_len - 1]
            } else {
                SymbolKind::String
            };
            let bl_len: usize = sym.belongs_to_scopes.len();
            let range = if bl_len > 0 {
                ts_range_to_lsp_range(&sym.belongs_to_scopes[bl_len - 1])
            } else {
                ts_range_to_lsp_range(&sym.location)
            };
            let item = DocumentSymbol {
                name: sym.name.clone(),
                kind,
                range,
                selection_range: ts_range_to_lsp_range(&sym.location),
            };
            let ghost itemv = item@;
            out.push(item);
            proof {
                assert(listv[j as int] == list@[j as int]@);
                assert(itemv == doc_symbol_of(listv[j as int]));
                assert(listv.take(j as int + 1) =~= listv.take(j as int).push(listv[j as int]));
                assert(doc_symbols_of_list(listv.take(j as int).push(listv[j as int]))
                    =~= doc_symbols_of_list(listv.take(j as int)).push(
                    doc_symbol_of(listv[j as int]),
                ));
                assert(views_of_doc_symbols(out@) =~= (base + doc_symbols_of_list(listv.take(
                    j as int,
                ))).push(itemv));
            }
            j = j + 1;
        }
        proof {
            assert(listv.take(m as int) =~= listv);
            assert(idsv.take(i as int + 1).drop_last() =~= idsv.take(i as int));
            assert(idsv.take(i as int + 1).last() == listv);
        }
        i = i + 1;
    }
    proof {
        assert(idsv.take(n as int) =~= idsv);
    }
    Result::Ok(out)
}

impl GlobalState {
    /// The node at a position of a stored document, if any, with its
    /// range and text.
    pub fn _get_node_at_position(&self, uri: &str, position: &Position) -> (r: Option<NodeInfo>)
        requires
            self.wf(),
        ensures
            r is Some ==> self@.documents.contains_key(uri@),
    {
        match self.get_document(uri) {
            Option::Some(d) => {
                let point = lsp_position_to_ts_point(position);
                node_at(d.tree(), d.source_code().as_slice(), &point)
            },
            Option::None => Option::None,
        }
    }
}

} // verus!
