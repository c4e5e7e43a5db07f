//! The scope and symbol indexer: builds the ordered scope sequence and
//! the definition/reference table from the captures the pattern query
//! engine produced.
//!
//! Everything here is a function of the capture list alone, so two runs
//! over the same captures give identical results.

use vstd::prelude::*;

use crate::engine::{Capture, CaptureView};
use crate::scopes::{spec_smallest_scope_by_range, strictly_contains, get_smallest_scope_id_by_node};
use crate::strutil::str_eq;
use crate::types::{CompletionItemKind, Symbol, SymbolKind, SymbolView, TsRange};

verus! {

/// The views of a capture vector.
pub open spec fn views_of_captures(caps: Seq<Capture>) -> Seq<CaptureView> {
    caps.map_values(|c: Capture| c@)
}

/// The views of a match-group vector.
pub open spec fn views_of_matches(mm: Seq<Vec<Capture>>) -> Seq<Seq<CaptureView>> {
    mm.map_values(|v: Vec<Capture>| views_of_captures(v@))
}

/// The scope ranges among one match group's captures, in capture order.
pub open spec fn scopes_of_caps(caps: Seq<CaptureView>) -> Seq<TsRange>
    decreases caps.len(),
{
    if caps.len() == 0 {
        Seq::empty()
    } else if caps.last().name == "scope"@ {
        scopes_of_caps(caps.drop_last()).push(caps.last().range)
    } else {
        scopes_of_caps(caps.drop_last())
    }
}

/// The scope ranges of all match groups, in match order: the ordered
/// scope sequence, outer scopes before the inner scopes they contain.
pub open spec fn scopes_of_matches(mm: Seq<Seq<CaptureView>>) -> Seq<TsRange>
    decreases mm.len(),
{
    if mm.len() == 0 {
        Seq::empty()
    } else {
        scopes_of_matches(mm.drop_last()) + scopes_of_caps(mm.last())
    }
}

/// Collects the ordered scope sequence from the locals-query match
/// groups, together with one empty identifier list per scope.
pub fn build_scopes(matches: &Vec<Vec<Capture>>) -> (r: (Vec<TsRange>, Vec<Vec<Symbol>>))
    ensures
        r.0@ == scopes_of_matches(views_of_matches(matches@)),
        r.1@.len() == r.0@.len(),
        forall|i: int| 0 <= i < r.1@.len() ==> (#[trigger] r.1@[i])@.len() == 0,
{
    let mut scopes: Vec<TsRange> = Vec::new();
    let mut identifiers: Vec<Vec<Symbol>> = Vec::new();
    let n: usize = matches.len();
    let mut i: usize = 0;
    proof {
        assert(views_of_matches(matches@).take(0) =~= Seq::<Seq<CaptureView>>::empty());
    }
    while i < n
        invariant
            0 <= i <= n == matches@.len(),
            scopes@ == scopes_of_matches(views_of_matches(matches@).take(i as int)),
            identifiers@.len() == scopes@.len(),
            forall|k: int| 0 <= k < identifiers@.len() ==> (#[trigger] identifiers@[k])@.len()
                == 0,
        decreases n - i,
    {
        let group = &matches[i];
        let m: usize = group.len();
        let mut j: usize = 0;
        proof {
            assert(views_of_captures(group@).take(0) =~= Seq::<CaptureView>::empty());
            assert(scopes_of_caps(views_of_captures(group@).take(0)) =~= Seq::<TsRange>::empty());
        }
        while j < m
            invariant
                0 <= j <= m == group@.len(),
                scopes@ == scopes_of_matches(views_of_matches(matches@).take(i as int))
                    + scopes_of_caps(views_of_captures(group@).take(j as int)),
                identifiers@.len() == scopes@.len(),
                forall|k: int| 0 <= k < identifiers@.len() ==> (#[trigger] identifiers@[k])@.len()
                    == 0,
            decreases m - j,
        {
            let cap = &group[j];
            proof {
                assert(views_of_captures(group@).take(j as int + 1).drop_last()
                    =~= views_of_captures(group@).take(j as int));
                assert(views_of_captures(group@).take(j as int + 1).last() == group@[j as int]@);
            }
            if str_eq(cap.name.as_str(), "scope") {
                scopes.push(cap.range);
                identifiers.push(Vec::new());
            }
            j = j + 1;
        }
        proof {
            assert(views_of_captures(group@).take(m as int) =~= views_of_captures(group@));
            assert(views_of_matches(matches@).take(i as int + 1).drop_last()
                =~= views_of_matches(matches@).take(i as int));
            assert(views_of_matches(matches@).take(i as int + 1).last() == views_of_captures(
                group@,
            ));
        }
        i = i + 1;
    }
    proof {
        assert(views_of_matches(matches@).take(n as int) =~= views_of_matches(matches@));
    }
    (scopes, identifiers)
}

} // verus!

use vstd::prelude::*;

verus! {

/// One definition-table entry: a name, the scope id it is defined in,
/// and its occurrences; occurrence 0 is the definition, the rest are the
/// references resolved to it.
#[derive(Clone, Debug)]
pub struct DefEntry {
    pub name: String,
    pub scope_id: usize,
    pub occurrences: Vec<Symbol>,
}

/// The mathematical model of a [`DefEntry`].
pub ghost struct DefEntryView {
    pub name: Seq<char>,
    pub scope_id: int,
    pub occurrences: Seq<SymbolView>,
}

impl View for DefEntry {
    type V = DefEntryView;

    open spec fn view(&self) -> DefEntryView {
        DefEntryView {
            name: self.name@,
            scope_id: self.scope_id as int,
            occurrences: self.occurrences@.map_values(|s: Symbol| s@),
        }
    }
}

/// The definition table: entries keyed by (name, scope id), in the order
/// the definitions were first seen.
#[derive(Clone, Debug)]
pub struct DefinitionTable {
    entries: Vec<DefEntry>,
}

impl View for DefinitionTable {
    type V = Seq<DefEntryView>;

    closed spec fn view(&self) -> Seq<DefEntryView> {
        self.entries@.map_values(|e: DefEntry| e@)
    }
}

/// The index of the first entry keyed (name, sid), if any.
pub open spec fn lookup_def(table: Seq<DefEntryView>, name: Seq<char>, sid: int) -> Option<int>
    decreases table.len(),
{
    if table.len() == 0 {
        Option::None
    } else if table[0].name == name && table[0].scope_id == sid {
        Option::Some(0int)
    } else {
        match lookup_def(table.drop_first(), name, sid) {
            Option::Some(j) => Option::Some(j + 1),
            Option::None => Option::None,
        }
    }
}

/// `lookup_def` names the first matching entry, and `None` means none
/// matches.
pub proof fn lemma_lookup_def_character(table: Seq<DefEntryView>, name: Seq<char>, sid: int)
    ensures
        match lookup_def(table, name, sid) {
            Option::Some(j) => 0 <= j < table.len() && table[j].name == name && table[j].scope_id
                == sid && forall|k: int|
                0 <= k < j ==> !((#[trigger] table[k]).name == name && table[k].scope_id == sid),
            Option::None => forall|k: int|
                0 <= k < table.len() ==> !((#[trigger] table[k]).name == name && table[k].scope_id
                    == sid),
        },
    decreases table.len(),
{
    if table.len() > 0 {
        if !(table[0].name == name && table[0].scope_id == sid) {
            lemma_lookup_def_character(table.drop_first(), name, sid);
            assert forall|k: int| 1 <= k < table.len() implies table.drop_first()[k - 1]
                == table[k] by {}
        }
    }
}

/// The outer-to-inner scope path a symbol at scope `sid` belongs to:
/// empty when there are no scopes, else the scopes up to and including
/// `sid` (for `sid` 0, the outermost scope alone, so document-symbol
/// rendering always has a containing range).
pub open spec fn belongs_of(sid: int, scopes: Seq<TsRange>) -> Seq<TsRange> {
    if scopes.len() == 0 {
        Seq::empty()
    } else {
        scopes.subrange(0, sid + 1)
    }
}

/// The symbol recorded for one occurrence (definition or reference) of a
/// name: generic text/string kinds, the capture's range, and the scope
/// path of its smallest enclosing scope.
pub open spec fn occurrence_symbol(c: CaptureView, sid: int, scopes: Seq<TsRange>) -> SymbolView {
    SymbolView {
        name: c.text,
        completion_kind: seq![CompletionItemKind::Text],
        symbol_kind: seq![SymbolKind::String],
        location: c.range,
        children: Option::None,
        belongs_to_scopes: belongs_of(sid, scopes),
    }
}

/// The indices below `i` of scopes strictly containing `node`, innermost
/// (largest index) first.
pub open spec fn containing_desc(node: TsRange, scopes: Seq<TsRange>, i: int) -> Seq<int>
    decreases i,
{
    if i <= 0 {
        Seq::empty()
    } else if strictly_contains(scopes[i - 1], node) {
        seq![i - 1] + containing_desc(node, scopes, i - 1)
    } else {
        containing_desc(node, scopes, i - 1)
    }
}

/// The scope chain a reference walks: its enclosing scopes from the
/// innermost outward, ending at the global marker 0.
pub open spec fn chain_of(node: TsRange, scopes: Seq<TsRange>) -> Seq<int> {
    let c = containing_desc(node, scopes, scopes.len() as int);
    if c.len() > 0 && c.last() == 0 {
        c
    } else {
        c.push(0)
    }
}

/// The table index the chain resolves to: the first chain scope at which
/// (name, scope) is defined.
pub open spec fn resolve_in_chain(table: Seq<DefEntryView>, name: Seq<char>, chain: Seq<int>)
    -> Option<int>
    decreases chain.len(),
{
    if chain.len() == 0 {
        Option::None
    } else {
        match lookup_def(table, name, chain[0]) {
            Option::Some(j) => Option::Some(j),
            Option::None => resolve_in_chain(table, name, chain.drop_first()),
        }
    }
}

/// One indexing step: a definition capture registers an entry under its
/// smallest enclosing scope unless that key exists (first definition
/// wins); a reference capture walks its scope chain outward and joins
/// the first entry found (lexical shadowing), or is dropped; any other
/// capture is ignored.
pub open spec fn defs_step(table: Seq<DefEntryView>, c: CaptureView, scopes: Seq<TsRange>)
    -> Seq<DefEntryView> {
    let sid = spec_smallest_scope_by_range(c.range, scopes);
    if c.name == "definition.var"@ || c.name == "definition.function"@ {
        if lookup_def(table, c.text, sid) is Some {
            table
        } else {
            table.push(
                DefEntryView {
                    name: c.text,
                    scope_id: sid,
                    occurrences: seq![occurrence_symbol(c, sid, scopes)],
                },
            )
        }
    } else if c.name == "reference"@ {
        match resolve_in_chain(table, c.text, chain_of(c.range, scopes)) {
            Option::Some(j) => table.update(
                j,
                DefEntryView {
                    name: table[j].name,
                    scope_id: table[j].scope_id,
                    occurrences: table[j].occurrences.push(occurrence_symbol(c, sid, scopes)),
                },
            ),
            Option::None => table,
        }
    } else {
        table
    }
}

/// The definition table of a capture list, folded in capture order.
pub open spec fn build_defs(caps: Seq<CaptureView>, scopes: Seq<TsRange>) -> Seq<DefEntryView>
    decreases caps.len(),
{
    if caps.len() == 0 {
        Seq::empty()
    } else {
        defs_step(build_defs(caps.drop_last(), scopes), caps.last(), scopes)
    }
}

/// The scope indices of a chain vector, as mathematical integers.
pub open spec fn ints_of(s: Seq<usize>) -> Seq<int> {
    s.map_values(|x: usize| x as int)
}

/// Collects the scope chain of a node: enclosing scope indices from the
/// innermost outward, ending at the global marker 0.
pub fn containing_chain(node: &TsRange, scopes: &[TsRange]) -> (chain: Vec<usize>)
    ensures
        ints_of(chain@) == chain_of(*node, scopes@),
{
    let n: usize = scopes.len();
    let mut chain: Vec<usize> = Vec::new();
    let mut i: usize = n;
    while i > 0
        invariant
            0 <= i <= n == scopes@.len(),
            containing_desc(*node, scopes@, n as int) == ints_of(chain@) + containing_desc(
                *node,
                scopes@,
                i as int,
            ),
        decreases i,
    {
        let scope = scopes[i - 1];
        if node.start_byte > scope.start_byte && node.end_byte < scope.end_byte {
            proof {
                assert(ints_of(chain@.push((i - 1) as usize)) =~= ints_of(chain@).push(
                    i as int - 1,
                ));
                assert(ints_of(chain@) + (seq![i as int - 1] + containing_desc(
                    *node,
                    scopes@,
                    i as int - 1,
                )) =~= ints_of(chain@).push(i as int - 1) + containing_desc(
                    *node,
                    scopes@,
                    i as int - 1,
                ));
            }
            chain.push(i - 1);
        }
        i = i - 1;
    }
    proof {
        assert(containing_desc(*node, scopes@, 0) =~= Seq::<int>::empty());
        assert(ints_of(chain@) + Seq::<int>::empty() =~= ints_of(chain@));
    }
    let needs_global: bool = if chain.len() == 0 {
        true
    } else {
        chain[chain.len() - 1] != 0
    };
    if needs_global {
        proof {
            assert(ints_of(chain@.push(0usize)) =~= ints_of(chain@).push(0int));
            if chain@.len() > 0 {
                assert(ints_of(chain@).last() == chain@.last() as int);
            }
        }
        chain.push(0);
    }
    chain
}

} // verus!

verus! {

/// Builds the outer-to-inner scope path for a symbol at scope `sid`.
fn belongs_vec(scopes: &[TsRange], sid: usize) -> (r: Vec<TsRange>)
    requires
        scopes@.len() > 0 ==> sid < scopes@.len(),
    ensures
        r@ == belongs_of(sid as int, scopes@),
{
    let mut r: Vec<TsRange> = Vec::new();
    if scopes.len() == 0 {
        proof {
            assert(r@ =~= belongs_of(sid as int, scopes@));
        }
        return r;
    }
    let mut i: usize = 0;
    while i <= sid
        invariant
            0 <= i <= sid + 1,
            sid < scopes@.len(),
            r@ == scopes@.subrange(0, i as int),
        decreases sid + 1 - i,
    {
        r.push(scopes[i]);
        proof {
            assert(scopes@.subrange(0, i as int).push(scopes@[i as int]) =~= scopes@.subrange(
                0,
                i as int + 1,
            ));
        }
        i = i + 1;
    }
    r
}

/// Builds the symbol recorded for one occurrence of a name.
fn occurrence_symbol_exec(c: &Capture, sid: usize, scopes: &[TsRange]) -> (s: Symbol)
    requires
        scopes@.len() > 0 ==> sid < scopes@.len(),
    ensures
        s@ == occurrence_symbol(c@, sid as int, scopes@),
{
    let mut completion_kind: Vec<CompletionItemKind> = Vec::new();
    completion_kind.push(CompletionItemKind::Text);
    let mut symbol_kind: Vec<SymbolKind> = Vec::new();
    symbol_kind.push(SymbolKind::String);
    proof {
        assert(completion_kind@ =~= seq![CompletionItemKind::Text]);
        assert(symbol_kind@ =~= seq![SymbolKind::String]);
    }
    Symbol {
        name: c.text.clone(),
        completion_kind,
        symbol_kind,
        location: c.range,
        children: Option::None,
        belongs_to_scopes: belongs_vec(scopes, sid),
    }
}

impl DefinitionTable {
    /// An empty table.
    pub fn new() -> (r: Self)
        ensures
            r@ == Seq::<DefEntryView>::empty(),
    {
        proof {
            assert(Seq::<DefEntry>::empty().map_values(|e: DefEntry| e@) =~= Seq::<
                DefEntryView,
            >::empty());
        }
        DefinitionTable { entries: Vec::new() }
    }

    /// The index of the entry keyed (name, scope id), if any.
    fn find_entry(&self, name: &str, scope_id: usize) -> (r: Option<usize>)
        ensures
            match r {
                Option::Some(j) => 0 <= j < self@.len() && lookup_def(
                    self@,
                    name@,
                    scope_id as int,
                ) == Option::Some(j as int),
                Option::None => lookup_def(self@, name@, scope_id as int) is None,
            },
    {
        proof {
            lemma_lookup_def_character(self@, name@, scope_id as int);
        }
        let n: usize = self.entries.len();
        let mut i: usize = 0;
        while i < n
            invariant
                0 <= i <= n == self.entries@.len(),
                forall|k: int|
                    0 <= k < i ==> !((#[trigger] self@[k]).name == name@ && self@[k].scope_id
                        == scope_id as int),
                n == self@.len(),
            decreases n - i,
        {
            let entry = &self.entries[i];
            if entry.scope_id == scope_id && str_eq(entry.name.as_str(), name) {
                proof {
                    assert(self@[i as int].name == name@ && self@[i as int].scope_id == scope_id
                        as int);
                    lemma_lookup_def_character(self@, name@, scope_id as int);
                }
                return Option::Some(i);
            }
            i = i + 1;
        }
        Option::None
    }

    /// The occurrence list of (name, scope id): the definition first,
    /// then the references resolved to it; `None` when that key was
    /// never defined.
    pub fn get(&self, name: &str, scope_id: usize) -> (r: Option<&Vec<Symbol>>)
        ensures
            match r {
                Option::Some(v) => {
                    &&& lookup_def(self@, name@, scope_id as int) is Some
                    &&& {
                        let j = lookup_def(self@, name@, scope_id as int)->Some_0;
                        v@.map_values(|s: Symbol| s@) == self@[j].occurrences
                    }
                },
                Option::None => lookup_def(self@, name@, scope_id as int) is None,
            },
    {
        match self.find_entry(name, scope_id) {
            Option::Some(j) => Option::Some(&self.entries[j].occurrences),
            Option::None => Option::None,
        }
    }

    /// The number of entries.
    pub fn len(&self) -> (r: usize)
        ensures
            r == self@.len(),
    {
        self.entries.len()
    }

    /// The entry at an index, in first-definition order.
    pub fn entry_at(&self, i: usize) -> (r: &DefEntry)
        requires
            i < self@.len(),
        ensures
            r@ == self@[i as int],
    {
        &self.entries[i]
    }
}

/// Walks a reference's scope chain outward and returns the index of the
/// first table entry the name resolves to, or `None` when the name is
/// visible nowhere along the chain.
pub fn resolve_reference(table: &DefinitionTable, name: &str, chain: &Vec<usize>) -> (r: Option<usize>)
    ensures
        match r {
            Option::Some(e) => 0 <= e < table@.len() && resolve_in_chain(
                table@,
                name@,
                ints_of(chain@),
            ) == Option::Some(e as int),
            Option::None => resolve_in_chain(table@, name@, ints_of(chain@)) is None,
        },
{
    let m: usize = chain.len();
    let mut j: usize = 0;
    proof {
        assert(ints_of(chain@).skip(0) =~= ints_of(chain@));
    }
    while j < m
        invariant
            0 <= j <= m == chain@.len(),
            resolve_in_chain(table@, name@, ints_of(chain@)) == resolve_in_chain(
                table@,
                name@,
                ints_of(chain@).skip(j as int),
            ),
        decreases m - j,
    {
        proof {
            assert(ints_of(chain@).skip(j as int)[0] == chain@[j as int] as int);
            assert(ints_of(chain@).skip(j as int).drop_first() =~= ints_of(chain@).skip(
                j as int + 1,
            ));
        }
        match table.find_entry(name, chain[j]) {
            Option::Some(e) => {
                return Option::Some(e);
            },
            Option::None => {},
        }
        j = j + 1;
    }
    proof {
        assert(ints_of(chain@).skip(m as int) =~= Seq::<int>::empty());
    }
    Option::None
}

/// Builds the definition table from the locals-query captures: each
/// definition capture registers (name, smallest enclosing scope) with
/// itself as occurrence 0, first definition winning; each reference
/// walks its scope chain outward and joins the innermost visible
/// definition, or is dropped when none is visible.
pub fn build_definitions_and_identifiers(captures: &Vec<Capture>, scopes: &[TsRange]) -> (t:
    DefinitionTable)
    ensures
        t@ == build_defs(views_of_captures(captures@), scopes@),
{
    let mut table = DefinitionTable::new();
    let n: usize = captures.len();
    let mut i: usize = 0;
    proof {
        assert(views_of_captures(captures@).take(0) =~= Seq::<CaptureView>::empty());
    }
    while i < n
        invariant
            0 <= i <= n == captures@.len(),
            table@ == build_defs(views_of_captures(captures@).take(i as int), scopes@),
        decreases n - i,
    {
        let cap = &captures[i];
        let ghost before = table@;
        let ghost capv = captures@[i as int]@;
        let sid = get_smallest_scope_id_by_node(&cap.range, scopes);
        proof {
            crate::scopes::lemma_smallest_scope_by_range_character(cap.range, scopes@);
        }
        let is_def: bool = str_eq(cap.name.as_str(), "definition.var") || str_eq(
            cap.name.as_str(),
            "definition.function",
        );
        if is_def {
            match table.find_entry(cap.text.as_str(), sid) {
                Option::Some(_) => {},
                Option::None => {
                    let sym = occurrence_symbol_exec(cap, sid, scopes);
                    let mut occurrences: Vec<Symbol> = Vec::new();
                    occurrences.push(sym);
                    let entry = DefEntry { name: cap.text.clone(), scope_id: sid, occurrences };
                    proof {
                        assert(entry@.occurrences =~= seq![occurrence_symbol(
                            capv,
                            sid as int,
                            scopes@,
                        )]);
                        assert(table.entries@.push(entry).map_values(|e: DefEntry| e@)
                            =~= table.entries@.map_values(|e: DefEntry| e@).push(entry@));
                    }
                    table.entries.push(entry);
                    proof {
                        assert(table@ =~= defs_step(before, capv, scopes@));
                    }
                },
            }
        } else if str_eq(cap.name.as_str(), "reference") {
            let chain = containing_chain(&cap.range, scopes);
            let found = resolve_reference(&table, cap.text.as_str(), &chain);
            proof {
                assert(ints_of(chain@) == chain_of(capv.range, scopes@));
            }
            match found {
                Option::Some(e) => {
                    let sym = occurrence_symbol_exec(cap, sid, scopes);
                    let mut entry = take_entry(&mut table, e);
                    let ghost entry_before = entry@;
                    entry.occurrences.push(sym);
                    proof {
                        assert(entry@.occurrences =~= entry_before.occurrences.push(
                            occurrence_symbol(capv, sid as int, scopes@),
                        ));
                        assert(entry@ == DefEntryView {
                            name: entry_before.name,
                            scope_id: entry_before.scope_id,
                            occurrences: entry_before.occurrences.push(
                                occurrence_symbol(capv, sid as int, scopes@),
                            ),
                        });
                    }
                    put_entry(&mut table, e, entry);
                    proof {
                        assert(table@ =~= before.update(e as int, DefEntryView {
                            name: before[e as int].name,
                            scope_id: before[e as int].scope_id,
                            occurrences: before[e as int].occurrences.push(
                                occurrence_symbol(capv, sid as int, scopes@),
                            ),
                        }));
                        assert(table@ == defs_step(before, capv, scopes@));
                    }
                },
                Option::None => {},
            }
        }
        proof {
            assert(views_of_captures(captures@).take(i as int + 1).drop_last()
                =~= views_of_captures(captures@).take(i as int));
            assert(views_of_captures(captures@).take(i as int + 1).last() == capv);
            assert(table@ == defs_step(before, capv, scopes@));
        }
        i = i + 1;
    }
    proof {
        assert(views_of_captures(captures@).take(n as int) =~= views_of_captures(captures@));
    }
    table
}

/// Takes the entry at `e` out of the table.
fn take_entry(table: &mut DefinitionTable, e: usize) -> (r: DefEntry)
    requires
        e < old(table)@.len(),
    ensures
        r@ == old(table)@[e as int],
        final(table)@ == old(table)@.remove(e as int),
{
    let r = table.entries.remove(e);
    proof {
        assert(table.entries@.map_values(|x: DefEntry| x@) =~= old(table).entries@.map_values(
            |x: DefEntry| x@,
        ).remove(e as int));
    }
    r
}

/// Puts an entry back at `e`.
fn put_entry(table: &mut DefinitionTable, e: usize, entry: DefEntry)
    requires
        e <= old(table)@.len(),
    ensures
        final(table)@ == old(table)@.insert(e as int, entry@),
{
    proof {
        assert(old(table).entries@.insert(e as int, entry).map_values(|x: DefEntry| x@)
            =~= old(table).entries@.map_values(|x: DefEntry| x@).insert(e as int, entry@));
    }
    table.entries.insert(e, entry);
}

} // verus!

verus! {

/// One accumulator entry of the highlights pass: a (scope id, name) key
/// and the symbol collecting that identifier's classifications.
pub ghost struct IdentAccView {
    pub scope_id: int,
    pub name: Seq<char>,
    pub symbol: SymbolView,
}

struct IdentEntry {
    scope_id: usize,
    name: String,
    symbol: Symbol,
}

impl View for IdentEntry {
    type V = IdentAccView;

    closed spec fn view(&self) -> IdentAccView {
        IdentAccView { scope_id: self.scope_id as int, name: self.name@, symbol: self.symbol@ }
    }
}

/// The index of the first accumulator entry keyed (sid, name), if any.
pub open spec fn acc_find(acc: Seq<IdentAccView>, sid: int, name: Seq<char>) -> Option<int>
    decreases acc.len(),
{
    if acc.len() == 0 {
        Option::None
    } else if acc[0].scope_id == sid && acc[0].name == name {
        Option::Some(0int)
    } else {
        match acc_find(acc.drop_first(), sid, name) {
            Option::Some(j) => Option::Some(j + 1),
            Option::None => Option::None,
        }
    }
}

/// `acc_find` names the first matching entry, and `None` means none
/// matches.
pub proof fn lemma_acc_find_character(acc: Seq<IdentAccView>, sid: int, name: Seq<char>)
    ensures
        match acc_find(acc, sid, name) {
            Option::Some(j) => 0 <= j < acc.len() && acc[j].scope_id == sid && acc[j].name == name
                && forall|k: int|
                0 <= k < j ==> !((#[trigger] acc[k]).scope_id == sid && acc[k].name == name),
            Option::None => forall|k: int|
                0 <= k < acc.len() ==> !((#[trigger] acc[k]).scope_id == sid && acc[k].name
                    == name),
        },
    decreases acc.len(),
{
    if acc.len() > 0 {
        if !(acc[0].scope_id == sid && acc[0].name == name) {
            lemma_acc_find_character(acc.drop_first(), sid, name);
            assert forall|k: int| 1 <= k < acc.len() implies acc.drop_first()[k - 1] == acc[k]
                by {}
        }
    }
}

/// One highlights step: the capture's identifier joins the symbol keyed
/// by its (smallest enclosing scope, name), merging its classifications
/// into an existing symbol rather than replacing it.
pub open spec fn ident_step(acc: Seq<IdentAccView>, c: CaptureView, scopes: Seq<TsRange>) -> Seq<
    IdentAccView,
> {
    let sid = spec_smallest_scope_by_range(c.range, scopes);
    let kinds = crate::kinds::spec_get_kind(c.name);
    match acc_find(acc, sid, c.text) {
        Option::Some(j) => acc.update(
            j,
            IdentAccView {
                scope_id: acc[j].scope_id,
                name: acc[j].name,
                symbol: SymbolView {
                    name: acc[j].symbol.name,
                    completion_kind: acc[j].symbol.completion_kind.push(kinds.0),
                    symbol_kind: acc[j].symbol.symbol_kind.push(kinds.1),
                    location: acc[j].symbol.location,
                    children: acc[j].symbol.children,
                    belongs_to_scopes: acc[j].symbol.belongs_to_scopes,
                },
            },
        ),
        Option::None => acc.push(
            IdentAccView {
                scope_id: sid,
                name: c.text,
                symbol: SymbolView {
                    name: c.text,
                    completion_kind: seq![kinds.0],
                    symbol_kind: seq![kinds.1],
                    location: c.range,
                    children: Option::None,
                    belongs_to_scopes: belongs_of(sid, scopes),
                },
            },
        ),
    }
}

/// The accumulated per-identifier symbols of the highlights captures.
pub open spec fn collect_idents(caps: Seq<CaptureView>, scopes: Seq<TsRange>) -> Seq<IdentAccView>
    decreases caps.len(),
{
    if caps.len() == 0 {
        Seq::empty()
    } else {
        ident_step(collect_idents(caps.drop_last(), scopes), caps.last(), scopes)
    }
}

/// The views of a symbol vector.
pub open spec fn views_of_symbols(s: Seq<Symbol>) -> Seq<SymbolView> {
    s.map_values(|x: Symbol| x@)
}

/// The views of the per-scope identifier lists.
pub open spec fn views_of_identifiers(ids: Seq<Vec<Symbol>>) -> Seq<Seq<SymbolView>> {
    ids.map_values(|v: Vec<Symbol>| views_of_symbols(v@))
}

/// Appends one accumulated symbol to its scope's identifier list; a
/// scope id with no list (possible only when no scopes exist) is
/// dropped.
pub open spec fn distribute_one(ids: Seq<Seq<SymbolView>>, a: IdentAccView) -> Seq<
    Seq<SymbolView>,
> {
    if 0 <= a.scope_id < ids.len() {
        ids.update(a.scope_id, ids[a.scope_id].push(a.symbol))
    } else {
        ids
    }
}

/// Appends all accumulated symbols, in first-seen order, to their
/// scopes' identifier lists.
pub open spec fn distribute(ids: Seq<Seq<SymbolView>>, acc: Seq<IdentAccView>) -> Seq<
    Seq<SymbolView>,
>
    decreases acc.len(),
{
    if acc.len() == 0 {
        ids
    } else {
        distribute_one(distribute(ids, acc.drop_last()), acc.last())
    }
}

/// Updates the per-scope identifier lists from the highlights-query
/// captures: occurrences of one name in one scope merge into a single
/// symbol whose classification lists grow, and each merged symbol is
/// appended to its scope's list.
pub fn update_identifiers_kind(
    identifiers: &mut Vec<Vec<Symbol>>,
    scopes: &[TsRange],
    captures: &Vec<Capture>,
)
    ensures
        views_of_identifiers(final(identifiers)@) == distribute(
            views_of_identifiers(old(identifiers)@),
            collect_idents(views_of_captures(captures@), scopes@),
        ),
        final(identifiers)@.len() == old(identifiers)@.len(),
{
    let mut acc: Vec<IdentEntry> = Vec::new();
    let n: usize = captures.len();
    let mut i: usize = 0;
    proof {
        assert(views_of_captures(captures@).take(0) =~= Seq::<CaptureView>::empty());
        assert(acc@.map_values(|e: IdentEntry| e@) =~= collect_idents(
            views_of_captures(captures@).take(0),
            scopes@,
        ));
    }
    while i < n
        invariant
            0 <= i <= n == captures@.len(),
            acc@.map_values(|e: IdentEntry| e@) == collect_idents(
                views_of_captures(captures@).take(i as int),
                scopes@,
            ),
        decreases n - i,
    {
        let cap = &captures[i];
        let ghost accv = acc@.map_values(|e: IdentEntry| e@);
        let ghost capv = captures@[i as int]@;
        let sid = get_smallest_scope_id_by_node(&cap.range, scopes);
        proof {
            crate::scopes::lemma_smallest_scope_by_range_character(cap.range, scopes@);
        }
        let kinds = crate::kinds::get_kind(cap.name.as_str());
        let found = acc_find_exec(&acc, sid, cap.text.as_str());
        match found {
            Option::Some(j) => {
                let mut entry = acc.remove(j);
                let ghost entry_before = entry@;
                entry.symbol.completion_kind.push(kinds.0);
                entry.symbol.symbol_kind.push(kinds.1);
                proof {
                    assert(entry@ == IdentAccView {
                        scope_id: entry_before.scope_id,
                        name: entry_before.name,
                        symbol: SymbolView {
                            name: entry_before.symbol.name,
                            completion_kind: entry_before.symbol.completion_kind.push(kinds.0),
                            symbol_kind: entry_before.symbol.symbol_kind.push(kinds.1),
                            location: entry_before.symbol.location,
                            children: entry_before.symbol.children,
                            belongs_to_scopes: entry_before.symbol.belongs_to_scopes,
                        },
                    });
                    assert(acc@.insert(j as int, entry).map_values(|e: IdentEntry| e@)
                        =~= acc@.map_values(|e: IdentEntry| e@).insert(j as int, entry@));
                    assert(accv.remove(j as int).insert(j as int, entry@) =~= accv.update(
                        j as int,
                        entry@,
                    ));
                    assert(acc@.map_values(|e: IdentEntry| e@) =~= accv.remove(j as int));
                }
                acc.insert(j, entry);
                proof {
                    assert(acc@.map_values(|e: IdentEntry| e@) =~= ident_step(
                        accv,
                        capv,
                        scopes@,
                    ));
                }
            },
            Option::None => {
                let mut completion_kind: Vec<CompletionItemKind> = Vec::new();
                completion_kind.push(kinds.0);
                let mut symbol_kind: Vec<SymbolKind> = Vec::new();
                symbol_kind.push(kinds.1);
                proof {
                    assert(completion_kind@ =~= seq![kinds.0]);
                    assert(symbol_kind@ =~= seq![kinds.1]);
                }
                let symbol = Symbol {
                    name: cap.text.clone(),
                    completion_kind,
                    symbol_kind,
                    location: cap.range,
                    children: Option::None,
                    belongs_to_scopes: belongs_vec(scopes, sid),
                };
                let entry = IdentEntry { scope_id: sid, name: cap.text.clone(), symbol };
                proof {
                    assert(acc@.push(entry).map_values(|e: IdentEntry| e@) =~= acc@.map_values(
                        |e: IdentEntry| e@,
                    ).push(entry@));
                }
                acc.push(entry);
                proof {
                    assert(acc@.map_values(|e: IdentEntry| e@) =~= ident_step(
                        accv,
                        capv,
                        scopes@,
                    ));
                }
            },
        }
        proof {
            assert(views_of_captures(captures@).take(i as int + 1).drop_last()
                =~= views_of_captures(captures@).take(i as int));
            assert(views_of_captures(captures@).take(i as int + 1).last() == capv);
        }
        i = i + 1;
    }
    proof {
        assert(views_of_captures(captures@).take(n as int) =~= views_of_captures(captures@));
    }
    let ghost accv_full = acc@.map_values(|e: IdentEntry| e@);
    let m: usize = acc.len();
    let mut j: usize = 0;
    let ghost ids0 = views_of_identifiers(identifiers@);
    proof {
        assert(accv_full.take(0) =~= Seq::<IdentAccView>::empty());
    }
    while j < m
        invariant
            0 <= j <= m == accv_full.len(),
            acc@.map_values(|e: IdentEntry| e@) == accv_full.skip(j as int),
            views_of_identifiers(identifiers@) == distribute(ids0, accv_full.take(j as int)),
            identifiers@.len() == old(identifiers)@.len(),
            ids0 == views_of_identifiers(old(identifiers)@),
        decreases m - j,
    {
        let ghost ids_before = views_of_identifiers(identifiers@);
        proof {
            assert(acc@.len() == accv_full.skip(j as int).len());
            assert(acc@.remove(0).map_values(|e: IdentEntry| e@) =~= acc@.map_values(
                |e: IdentEntry| e@,
            ).remove(0));
            assert(accv_full.skip(j as int).remove(0) =~= accv_full.skip(j as int + 1));
            assert(acc@[0]@ == accv_full.skip(j as int)[0]);
            assert(accv_full.skip(j as int)[0] == accv_full[j as int]);
        }
        let entry = acc.remove(0);
        if entry.scope_id < identifiers.len() {
            let k = entry.scope_id;
            let mut list = identifiers.remove(k);
            let ghost list_before = list@;
            let ghost symv = entry.symbol@;
            list.push(entry.symbol);
            proof {
                assert(views_of_symbols(list@) =~= views_of_symbols(list_before).push(symv));
                assert(identifiers@.insert(k as int, list).map_values(
                    |v: Vec<Symbol>| views_of_symbols(v@),
                ) =~= identifiers@.map_values(|v: Vec<Symbol>| views_of_symbols(v@)).insert(
                    k as int,
                    views_of_symbols(list@),
                ));
            }
            identifiers.insert(k, list);
            proof {
                assert(views_of_identifiers(identifiers@) =~= distribute_one(
                    ids_before,
                    accv_full[j as int],
                ));
            }
        } else {
            proof {
                assert(views_of_identifiers(identifiers@) == distribute_one(
                    ids_before,
                    accv_full[j as int],
                ));
            }
        }
        proof {
            assert(accv_full.take(j as int + 1).drop_last() =~= accv_full.take(j as int));
            assert(accv_full.take(j as int + 1).last() == accv_full[j as int]);
        }
        j = j + 1;
    }
    proof {
        assert(accv_full.take(m as int) =~= accv_full);
    }
}

/// The index of the accumulator entry keyed (sid, name), if any.
fn acc_find_exec(acc: &Vec<IdentEntry>, sid: usize, name: &str) -> (r: Option<usize>)
    ensures
        match r {
            Option::Some(j) => 0 <= j < acc@.len() && acc_find(
                acc@.map_values(|e: IdentEntry| e@),
                sid as int,
                name@,
            ) == Option::Some(j as int),
            Option::None => acc_find(acc@.map_values(|e: IdentEntry| e@), sid as int, name@)
                is None,
        },
{
    let ghost accv = acc@.map_values(|e: IdentEntry| e@);
    proof {
        lemma_acc_find_character(accv, sid as int, name@);
    }
    let n: usize = acc.len();
    let mut i: usize = 0;
    while i < n
        invariant
            0 <= i <= n == acc@.len(),
            accv == acc@.map_values(|e: IdentEntry| e@),
            forall|k: int|
                0 <= k < i ==> !((#[trigger] accv[k]).scope_id == sid as int && accv[k].name
                    == name@),
        decreases n - i,
    {
        let entry = &acc[i];
        if entry.scope_id == sid && str_eq(entry.name.as_str(), name) {
            proof {
                assert(accv[i as int] == acc@[i as int]@);
                lemma_acc_find_character(accv, sid as int, name@);
            }
            return Option::Some(i);
        }
        i = i + 1;
    }
    proof {
        lemma_acc_find_character(accv, sid as int, name@);
    }
    Option::None
}

} // verus!

verus! {

/// Law: indexing is deterministic. Two runs over the same match groups
/// give the same ordered scope sequence, and two runs over the same
/// captures and scopes give the same definition table.
pub proof fn lemma_indexing_deterministic(
    mm: Seq<Seq<CaptureView>>,
    caps: Seq<CaptureView>,
    scopes: Seq<TsRange>,
    s1: Seq<TsRange>,
    s2: Seq<TsRange>,
    t1: Seq<DefEntryView>,
    t2: Seq<DefEntryView>,
)
    requires
        s1 == scopes_of_matches(mm),
        s2 == scopes_of_matches(mm),
        t1 == build_defs(caps, scopes),
        t2 == build_defs(caps, scopes),
    ensures
        s1 == s2,
        t1 == t2,
{
}

} // verus!

verus! {

/// The nested symbol recorded for one child capture: generic text/string
/// kinds and the capture's range.
pub open spec fn child_of(c: CaptureView) -> crate::types::ChildSymbolView {
    crate::types::ChildSymbolView {
        name: c.text,
        completion_kind: seq![CompletionItemKind::Text],
        symbol_kind: seq![SymbolKind::String],
        location: c.range,
    }
}

/// The nested symbols one children-query match contributes: every
/// capture after the owner capture.
pub open spec fn children_of_group(g: Seq<CaptureView>) -> Seq<crate::types::ChildSymbolView> {
    g.drop_first().map_values(|c: CaptureView| child_of(c))
}

/// The views of a child-symbol vector.
pub open spec fn views_of_children(s: Seq<crate::types::ChildSymbol>) -> Seq<
    crate::types::ChildSymbolView,
> {
    s.map_values(|c: crate::types::ChildSymbol| c@)
}

/// One children step: a match whose first capture names a visible
/// definition (resolved outward along the owner's scope chain, like a
/// reference) appends its remaining captures as nested symbols of the
/// defining occurrence; a match with no resolvable owner, or with no
/// captures beyond the owner, is ignored.
pub open spec fn attach_step(
    table: Seq<DefEntryView>,
    g: Seq<CaptureView>,
    scopes: Seq<TsRange>,
) -> Seq<DefEntryView> {
    if g.len() < 2 {
        table
    } else {
        match resolve_in_chain(table, g[0].text, chain_of(g[0].range, scopes)) {
            Option::Some(j) => {
                if 0 <= j < table.len() && table[j].occurrences.len() > 0 {
                    let def = table[j].occurrences[0];
                    let new_children = match def.children {
                        Option::None => children_of_group(g),
                        Option::Some(cs) => cs + children_of_group(g),
                    };
                    table.update(
                        j,
                        DefEntryView {
                            name: table[j].name,
                            scope_id: table[j].scope_id,
                            occurrences: table[j].occurrences.update(
                                0,
                                SymbolView {
                                    name: def.name,
                                    completion_kind: def.completion_kind,
                                    symbol_kind: def.symbol_kind,
                                    location: def.location,
                                    children: Option::Some(new_children),
                                    belongs_to_scopes: def.belongs_to_scopes,
                                },
                            ),
                        },
                    )
                } else {
                    table
                }
            },
            Option::None => table,
        }
    }
}

/// The definition table after all children-query matches are attached,
/// in match order.
pub open spec fn attach_children_spec(
    table: Seq<DefEntryView>,
    mm: Seq<Seq<CaptureView>>,
    scopes: Seq<TsRange>,
) -> Seq<DefEntryView>
    decreases mm.len(),
{
    if mm.len() == 0 {
        table
    } else {
        attach_step(attach_children_spec(table, mm.drop_last(), scopes), mm.last(), scopes)
    }
}

/// Builds the nested symbol of one child capture.
fn child_symbol_exec(c: &Capture) -> (s: crate::types::ChildSymbol)
    ensures
        s@ == child_of(c@),
{
    let mut completion_kind: Vec<CompletionItemKind> = Vec::new();
    completion_kind.push(CompletionItemKind::Text);
    let mut symbol_kind: Vec<SymbolKind> = Vec::new();
    symbol_kind.push(SymbolKind::String);
    proof {
        assert(completion_kind@ =~= seq![CompletionItemKind::Text]);
        assert(symbol_kind@ =~= seq![SymbolKind::String]);
    }
    crate::types::ChildSymbol {
        name: c.text.clone(),
        completion_kind,
        symbol_kind,
        location: c.range,
    }
}

/// Attaches the children-query matches to the definition table: in each
/// match, the first capture names the owning definition and the rest
/// become its nested symbols; matches whose owner resolves to no visible
/// definition are ignored.
pub fn attach_children(table: &mut DefinitionTable, matches: &Vec<Vec<Capture>>, scopes: &[TsRange])
    ensures
        final(table)@ == attach_children_spec(
            old(table)@,
            views_of_matches(matches@),
            scopes@,
        ),
{
    let n: usize = matches.len();
    let mut i: usize = 0;
    proof {
        assert(views_of_matches(matches@).take(0) =~= Seq::<Seq<CaptureView>>::empty());
    }
    while i < n
        invariant
            0 <= i <= n == matches@.len(),
            table@ == attach_children_spec(
                old(table)@,
                views_of_matches(matches@).take(i as int),
                scopes@,
            ),
        decreases n - i,
    {
        let group = &matches[i];
        let ghost gv = views_of_captures(group@);
        let ghost before = table@;
        if group.len() >= 2 {
            let owner = &group[0];
            proof {
                assert(gv[0] == group@[0]@);
            }
            let chain = containing_chain(&owner.range, scopes);
            let found = resolve_reference(table, owner.text.as_str(), &chain);
            proof {
                assert(ints_of(chain@) == chain_of(gv[0].range, scopes@));
            }
            match found {
                Option::Some(e) => {
                    let occ_len: usize = table.entry_at(e).occurrences.len();
                    if occ_len > 0 {
                        let mut entry = take_entry(table, e);
                        let ghost entry_before = entry@;
                        proof {
                            assert(entry@ == before[e as int]);
                            assert(entry.occurrences@.len() == entry@.occurrences.len());
                            assert(entry@.occurrences.len() == occ_len as int);
                        }
                        let def = entry.occurrences.remove(0);
                        let ghost def_before = def@;
                        let Symbol {
                            name,
                            completion_kind,
                            symbol_kind,
                            location,
                            children,
                            belongs_to_scopes,
                        } = def;
                        let mut kids: Vec<crate::types::ChildSymbol> = match children {
                            Option::Some(k) => k,
                            Option::None => Vec::new(),
                        };
                        let ghost kids_base = views_of_children(kids@);
                        proof {
                            match def_before.children {
                                Option::None => {
                                    assert(kids_base =~= Seq::<
                                        crate::types::ChildSymbolView,
                                    >::empty());
                                },
                                Option::Some(cs) => {
                                    assert(kids_base == cs);
                                },
                            }
                        }
                        let m: usize = group.len();
                        let mut j: usize = 1;
                        proof {
                            assert(gv.subrange(1, 1).map_values(|c: CaptureView| child_of(c))
                                =~= Seq::<crate::types::ChildSymbolView>::empty());
                            assert(views_of_children(kids@) =~= kids_base + gv.subrange(
                                1,
                                1,
                            ).map_values(|c: CaptureView| child_of(c)));
                        }
                        while j < m
                            invariant
                                1 <= j <= m == group@.len(),
                                gv == views_of_captures(group@),
                                views_of_children(kids@) == kids_base + gv.subrange(
                                    1,
                                    j as int,
                                ).map_values(|c: CaptureView| child_of(c)),
                            decreases m - j,
                        {
                            let child = child_symbol_exec(&group[j]);
                            let ghost childv = child@;
                            kids.push(child);
                            proof {
                                assert(gv.subrange(1, j as int + 1) =~= gv.subrange(
                                    1,
                                    j as int,
                                ).push(gv[j as int]));
                                assert(gv.subrange(1, j as int).push(gv[j as int]).map_values(
                                    |c: CaptureView| child_of(c),
                                ) =~= gv.subrange(1, j as int).map_values(
                                    |c: CaptureView| child_of(c),
                                ).push(child_of(gv[j as int])));
                                assert(gv[j as int] == group@[j as int]@);
                                assert(views_of_children(kids@) =~= (kids_base + gv.subrange(
                                    1,
                                    j as int,
                                ).map_values(|c: CaptureView| child_of(c))).push(childv));
                            }
                            j = j + 1;
                        }
                        proof {
                            assert(gv.subrange(1, m as int) =~= gv.drop_first());
                        }
                        let def2 = Symbol {
                            name,
                            completion_kind,
                            symbol_kind,
                            location,
                            children: Option::Some(kids),
                            belongs_to_scopes,
                        };
                        proof {
                            assert(def2@ == SymbolView {
                                name: def_before.name,
                                completion_kind: def_before.completion_kind,
                                symbol_kind: def_before.symbol_kind,
                                location: def_before.location,
                                children: Option::Some(
                                    match def_before.children {
                                        Option::None => children_of_group(gv),
                                        Option::Some(cs) => cs + children_of_group(gv),
                                    },
                                ),
                                belongs_to_scopes: def_before.belongs_to_scopes,
                            });
                        }
                        entry.occurrences.insert(0, def2);
                        proof {
                            assert(entry@.occurrences =~= entry_before.occurrences.update(
                                0,
                                def2@,
                            ));
                            assert(entry@ == DefEntryView {
                                name: entry_before.name,
                                scope_id: entry_before.scope_id,
                                occurrences: entry_before.occurrences.update(0, def2@),
                            });
                        }
                        put_entry(table, e, entry);
                        proof {
                            assert(table@ =~= before.update(e as int, DefEntryView {
                                name: before[e as int].name,
                                scope_id: before[e as int].scope_id,
                                occurrences: before[e as int].occurrences.update(0, def2@),
                            }));
                            assert(table@ == attach_step(before, gv, scopes@));
                        }
                    }
                },
                Option::None => {},
            }
        }
        proof {
            assert(gv.len() == group@.len());
            assert(views_of_matches(matches@).take(i as int + 1).drop_last()
                =~= views_of_matches(matches@).take(i as int));
            assert(views_of_matches(matches@).take(i as int + 1).last() == gv);
            assert(table@ == attach_step(before, gv, scopes@));
        }
        i = i + 1;
    }
    proof {
        assert(views_of_matches(matches@).take(n as int) =~= views_of_matches(matches@));
    }
}

} // verus!
