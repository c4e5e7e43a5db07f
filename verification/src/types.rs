//! Core data types: buffer positions, ranges, symbol classifications,
//! symbols and diagnostics.

use vstd::prelude::*;

verus! {

/// A row/column position in a byte buffer. `row` counts newline bytes
/// before the position; `column` counts bytes since the last newline.
#[derive(Clone, Copy, Debug, PartialEq, Eq, Structural)]
pub struct TsPoint {
    pub row: usize,
    pub column: usize,
}

/// A protocol position: zero-based line and character.
#[derive(Clone, Copy, Debug, PartialEq, Eq, Structural)]
pub struct Position {
    pub line: u32,
    pub character: u32,
}

/// A byte/point range in a buffer, as the syntax tree reports it.
#[derive(Clone, Copy, Debug, PartialEq, Eq, Structural)]
pub struct TsRange {
    pub start_byte: usize,
    pub end_byte: usize,
    pub start_point: TsPoint,
    pub end_point: TsPoint,
}

/// A protocol range: a start and an end position.
#[derive(Clone, Copy, Debug, PartialEq, Eq, Structural)]
pub struct LspRange {
    pub start: Position,
    pub end: Position,
}

/// The completion classification of an identifier occurrence.
#[derive(Clone, Copy, Debug, PartialEq, Eq, Structural)]
pub enum CompletionItemKind {
    Text,
    Function,
    Variable,
    TypeParameter,
    Module,
    Keyword,
    Struct,
    Enum,
    Value,
    Interface,
    Constant,
    Property,
    Method,
    Constructor,
    Field,
    File,
    Class,
    EnumMember,
    Operator,
}

/// The document-symbol classification of an identifier occurrence.
#[derive(Clone, Copy, Debug, PartialEq, Eq, Structural)]
pub enum SymbolKind {
    String,
    Variable,
    Function,
    TypeParameter,
    Module,
    Key,
    Struct,
    Enum,
    Number,
    Interface,
    Constant,
    Property,
    Method,
    Constructor,
    Field,
    File,
    Class,
    EnumMember,
    Operator,
}

/// The severity of a diagnostic.
#[derive(Clone, Copy, Debug, PartialEq, Eq, Structural)]
pub enum Severity {
    Error,
    Warning,
    Information,
    Hint,
}

/// A nested symbol attached to an owning symbol, such as a struct member.
#[derive(Clone, Debug)]
pub struct ChildSymbol {
    pub name: String,
    pub completion_kind: Vec<CompletionItemKind>,
    pub symbol_kind: Vec<SymbolKind>,
    pub location: TsRange,
}

/// The mathematical model of a [`ChildSymbol`].
pub ghost struct ChildSymbolView {
    pub name: Seq<char>,
    pub completion_kind: Seq<CompletionItemKind>,
    pub symbol_kind: Seq<SymbolKind>,
    pub location: TsRange,
}

impl View for ChildSymbol {
    type V = ChildSymbolView;

    open spec fn view(&self) -> ChildSymbolView {
        ChildSymbolView {
            name: self.name@,
            completion_kind: self.completion_kind@,
            symbol_kind: self.symbol_kind@,
            location: self.location,
        }
    }
}

/// One identifier occurrence: its name, classifications, location, optional
/// nested symbols, and the outer-to-inner path of scopes that enclose it.
#[derive(Clone, Debug)]
pub struct Symbol {
    pub name: String,
    pub completion_kind: Vec<CompletionItemKind>,
    pub symbol_kind: Vec<SymbolKind>,
    pub location: TsRange,
    pub children: Option<Vec<ChildSymbol>>,
    pub belongs_to_scopes: Vec<TsRange>,
}

/// The mathematical model of a [`Symbol`].
pub ghost struct SymbolView {
    pub name: Seq<char>,
    pub completion_kind: Seq<CompletionItemKind>,
    pub symbol_kind: Seq<SymbolKind>,
    pub location: TsRange,
    pub children: Option<Seq<ChildSymbolView>>,
    pub belongs_to_scopes: Seq<TsRange>,
}

impl View for Symbol {
    type V = SymbolView;

    open spec fn view(&self) -> SymbolView {
        SymbolView {
            name: self.name@,
            completion_kind: self.completion_kind@,
            symbol_kind: self.symbol_kind@,
            location: self.location,
            children: match self.children {
                Option::None => Option::None,
                Option::Some(v) => Option::Some(v@.map_values(|c: ChildSymbol| c@)),
            },
            belongs_to_scopes: self.belongs_to_scopes@,
        }
    }
}

impl Symbol {
    /// A placeholder symbol: empty name, generic text/string kinds, a zero
    /// location, no children and no enclosing scopes.
    pub fn default() -> (r: Self)
        ensures
            r@.name == Seq::<char>::empty(),
            r@.completion_kind == seq![CompletionItemKind::Text],
            r@.symbol_kind == seq![SymbolKind::String],
            r@.location == zero_range(),
            r@.children is None,
            r@.belongs_to_scopes == Seq::<TsRange>::empty(),
    {
        let mut completion_kind: Vec<CompletionItemKind> = Vec::new();
        completion_kind.push(CompletionItemKind::Text);
        let mut symbol_kind: Vec<SymbolKind> = Vec::new();
        symbol_kind.push(SymbolKind::String);
        proof {
            assert(completion_kind@ =~= seq![CompletionItemKind::Text]);
            assert(symbol_kind@ =~= seq![SymbolKind::String]);
        }
        Symbol {
            name: String::new(),
            completion_kind,
            symbol_kind,
            location: TsRange {
                start_byte: 0,
                end_byte: 0,
                start_point: TsPoint { row: 0, column: 0 },
                end_point: TsPoint { row: 0, column: 0 },
            },
            children: Option::None,
            belongs_to_scopes: Vec::new(),
        }
    }

    /// The scopes this symbol belongs to, outermost first.
    pub fn belongs_to(&self) -> (r: &Vec<TsRange>)
        ensures
            r@ == self@.belongs_to_scopes,
    {
        &self.belongs_to_scopes
    }
}

/// The all-zero range.
pub open spec fn zero_range() -> TsRange {
    TsRange {
        start_byte: 0,
        end_byte: 0,
        start_point: TsPoint { row: 0, column: 0 },
        end_point: TsPoint { row: 0, column: 0 },
    }
}

/// One diagnostic: a protocol range, a message and a severity.
#[derive(Clone, Debug)]
pub struct Diagnostic {
    pub range: LspRange,
    pub message: String,
    pub severity: Severity,
}

/// The mathematical model of a [`Diagnostic`].
pub ghost struct DiagnosticView {
    pub range: LspRange,
    pub message: Seq<char>,
    pub severity: Severity,
}

impl View for Diagnostic {
    type V = DiagnosticView;

    open spec fn view(&self) -> DiagnosticView {
        DiagnosticView { range: self.range, message: self.message@, severity: self.severity }
    }
}

} // verus!
