//! The boundary to the incremental parsing provider and pattern query
//! engine. Every call into the tree-sitter crates goes through the
//! trusted items in this module; everything around them is verified.
//!
//! The wrappers return plain values (ranges, capture names, node text),
//! and promise nothing about them: the verified indexing and lookup
//! functions take those values as arguments and are proved for every
//! value the engine could hand back.

use vstd::prelude::*;

use crate::edits::EditDescriptor;
use crate::strutil::str_eq;
use crate::types::{TsPoint, TsRange};

verus! {

/// Declares the syntax-tree type of the parsing provider; opaque here.
#[verifier::external_type_specification]
#[verifier::external_body]
pub struct ExTree(tree_sitter::Tree);

/// Declares the parser type of the parsing provider; opaque here.
#[verifier::external_type_specification]
#[verifier::external_body]
pub struct ExParser(tree_sitter::Parser);

/// Declares the grammar handle type of the parsing provider; opaque here.
#[verifier::external_type_specification]
#[verifier::external_body]
pub struct ExLanguage(tree_sitter::Language);

/// Declares the provider's point type; its two fields stay visible so
/// verified code can convert to and from it.
#[verifier::external_type_specification]
pub struct ExTsPoint(tree_sitter::Point);

/// Declares the provider's range type; its fields stay visible so
/// verified code can convert from it.
#[verifier::external_type_specification]
pub struct ExTsNodeRange(tree_sitter::Range);

/// Declares the provider's edit record; its fields stay visible so
/// verified code can construct it.
#[verifier::external_type_specification]
pub struct ExInputEdit(tree_sitter::InputEdit);

/// One capture a pattern query produced: the capture name, the node's
/// range, and the node's text read from the source buffer.
#[derive(Clone, Debug)]
pub struct Capture {
    pub name: String,
    pub range: TsRange,
    pub text: String,
}

/// The mathematical model of a [`Capture`].
pub ghost struct CaptureView {
    pub name: Seq<char>,
    pub range: TsRange,
    pub text: Seq<char>,
}

impl View for Capture {
    type V = CaptureView;

    open spec fn view(&self) -> CaptureView {
        CaptureView { name: self.name@, range: self.range, text: self.text@ }
    }
}

/// A node found at a position: its range and its text.
#[derive(Clone, Debug)]
pub struct NodeInfo {
    pub range: TsRange,
    pub text: String,
}

/// The point of the parsing provider with the same coordinates.
pub fn ts_point_of(p: &TsPoint) -> (r: tree_sitter::Point)
    ensures
        r.row == p.row,
        r.column == p.column,
{
    tree_sitter::Point { row: p.row, column: p.column }
}

/// The library's range carrying the same fields as the provider's.
pub fn range_from_ts(r: &tree_sitter::Range) -> (t: TsRange)
    ensures
        t.start_byte == r.start_byte,
        t.end_byte == r.end_byte,
        t.start_point.row == r.start_point.row,
        t.start_point.column == r.start_point.column,
        t.end_point.row == r.end_point.row,
        t.end_point.column == r.end_point.column,
{
    TsRange {
        start_byte: r.start_byte,
        end_byte: r.end_byte,
        start_point: TsPoint { row: r.start_point.row, column: r.start_point.column },
        end_point: TsPoint { row: r.end_point.row, column: r.end_point.column },
    }
}

/// The provider's edit record carrying the same fields as an edit
/// descriptor.
pub fn input_edit_of(e: &EditDescriptor) -> (r: tree_sitter::InputEdit)
    ensures
        r.start_byte == e.start_byte,
        r.old_end_byte == e.old_end_byte,
        r.new_end_byte == e.new_end_byte,
        r.start_position.row == e.start_position.row,
        r.start_position.column == e.start_position.column,
        r.old_end_position.row == e.old_end_position.row,
        r.old_end_position.column == e.old_end_position.column,
        r.new_end_position.row == e.new_end_position.row,
        r.new_end_position.column == e.new_end_position.column,
{
    tree_sitter::InputEdit {
        start_byte: e.start_byte,
        old_end_byte: e.old_end_byte,
        new_end_byte: e.new_end_byte,
        start_position: tree_sitter::Point {
            row: e.start_position.row,
            column: e.start_position.column,
        },
        old_end_position: tree_sitter::Point {
            row: e.old_end_position.row,
            column: e.old_end_position.column,
        },
        new_end_position: tree_sitter::Point {
            row: e.new_end_position.row,
            column: e.new_end_position.column,
        },
    }
}

/// Relies on tree_sitter_c::language: the C grammar handle.
#[verifier::external_body]
fn lang_c() -> tree_sitter::Language {
    tree_sitter_c::language()
}

/// Relies on tree_sitter_cpp::language: the C++ grammar handle.
#[verifier::external_body]
fn lang_cpp() -> tree_sitter::Language {
    tree_sitter_cpp::language()
}

/// Relies on tree_sitter_rust::language: the Rust grammar handle.
#[verifier::external_body]
fn lang_rust() -> tree_sitter::Language {
    tree_sitter_rust::language()
}

/// Relies on tree_sitter_python::language: the Python grammar handle.
#[verifier::external_body]
fn lang_python() -> tree_sitter::Language {
    tree_sitter_python::language()
}

/// Relies on tree_sitter_javascript::language: the JavaScript grammar
/// handle.
#[verifier::external_body]
fn lang_javascript() -> tree_sitter::Language {
    tree_sitter_javascript::language()
}

/// Relies on tree_sitter_typescript::language_typescript: the TypeScript
/// grammar handle.
#[verifier::external_body]
fn lang_typescript() -> tree_sitter::Language {
    tree_sitter_typescript::language_typescript()
}

/// Relies on tree_sitter_go::language: the Go grammar handle.
#[verifier::external_body]
fn lang_go() -> tree_sitter::Language {
    tree_sitter_go::language()
}

/// Relies on tree_sitter_cuda::language: the CUDA grammar handle.
#[verifier::external_body]
fn lang_cuda() -> tree_sitter::Language {
    tree_sitter_cuda::language()
}

/// Relies on tree_sitter_kotlin::language: the Kotlin grammar handle.
#[verifier::external_body]
fn lang_kotlin() -> tree_sitter::Language {
    tree_sitter_kotlin::language()
}

/// Relies on tree_sitter_glsl::language: the GLSL grammar handle.
#[verifier::external_body]
fn lang_glsl() -> tree_sitter::Language {
    tree_sitter_glsl::language()
}

/// Relies on tree_sitter_hare::language: the Hare grammar handle.
#[verifier::external_body]
fn lang_hare() -> tree_sitter::Language {
    tree_sitter_hare::language()
}

/// Relies on tree_sitter::Parser::new: a parser with no language set.
#[verifier::external_body]
pub(crate) fn parser_new() -> tree_sitter::Parser {
    tree_sitter::Parser::new()
}

/// Relies on tree_sitter::Parser::set_language; true exactly when the
/// call succeeded.
#[verifier::external_body]
pub(crate) fn parser_set_language(
    parser: &mut tree_sitter::Parser,
    language: tree_sitter::Language,
) -> bool {
    parser.set_language(language).is_ok()
}

/// Relies on tree_sitter::Parser::parse: parses the bytes, reusing the
/// edited prior tree when one is given; `None` when the parser has no
/// language or parsing was cancelled.
#[verifier::external_body]
pub(crate) fn parser_parse(
    parser: &mut tree_sitter::Parser,
    text: &[u8],
    old_tree: Option<&tree_sitter::Tree>,
) -> Option<tree_sitter::Tree> {
    parser.parse(text, old_tree)
}

/// Relies on tree_sitter::Tree::clone: a tree sharing the same syntax
/// content.
#[verifier::external_body]
pub(crate) fn tree_clone(tree: &tree_sitter::Tree) -> tree_sitter::Tree {
    tree.clone()
}

/// Relies on tree_sitter::Tree::edit: shifts node positions by the edit
/// ahead of an incremental reparse.
#[verifier::external_body]
pub(crate) fn tree_edit(tree: &mut tree_sitter::Tree, edit: &tree_sitter::InputEdit) {
    tree.edit(edit);
}

/// Relies on tree_sitter::Query::new and QueryCursor::matches: all match
/// groups of the pattern against the tree, each capture converted to a
/// plain value; `None` when the pattern does not compile. Callers pass
/// the source the tree was parsed from; node texts (used also by the
/// engine's text predicates) are read with bounds-checked slices, so a
/// mismatched pair yields empty texts rather than an out-of-range index.
#[verifier::external_body]
pub(crate) fn query_matches(
    tree: &tree_sitter::Tree,
    source: &[u8],
    query_source: &str,
) -> Option<Vec<Vec<Capture>>> {
    let query = tree_sitter::Query::new(tree.root_node().language(), query_source).ok()?;
    let mut cursor = tree_sitter::QueryCursor::new();
    let provider = |n: tree_sitter::Node| std::iter::once(source.get(n.byte_range()).unwrap_or(&[]));
    let out: Vec<Vec<Capture>> = cursor.matches(&query, tree.root_node(), provider).map(|m|
        m.captures.iter().map(|c| Capture {
            name: query.capture_names()[c.index as usize].clone(),
            range: range_from_ts(&c.node.range()),
            text: String::from_utf8_lossy(source.get(c.node.byte_range()).unwrap_or(&[])).into_owned(),
        }).collect()).collect();
    Some(out)
}

/// Relies on tree_sitter::Query::new and QueryCursor::captures: the
/// flattened captures of the pattern against the tree, in capture order,
/// each converted to a plain value; `None` when the pattern does not
/// compile. Callers pass the source the tree was parsed from; node texts
/// (used also by the engine's text predicates) are read with
/// bounds-checked slices, so a mismatched pair yields empty texts rather
/// than an out-of-range index.
#[verifier::external_body]
pub(crate) fn query_captures(
    tree: &tree_sitter::Tree,
    source: &[u8],
    query_source: &str,
) -> Option<Vec<Capture>> {
    let query = tree_sitter::Query::new(tree.root_node().language(), query_source).ok()?;
    let mut cursor = tree_sitter::QueryCursor::new();
    let provider = |n: tree_sitter::Node| std::iter::once(source.get(n.byte_range()).unwrap_or(&[]));
    let out: Vec<Capture> = cursor.captures(&query, tree.root_node(), provider).map(|(m, ix)| {
        let c = m.captures[ix];
        Capture {
            name: query.capture_names()[c.index as usize].clone(),
            range: range_from_ts(&c.node.range()),
            text: String::from_utf8_lossy(source.get(c.node.byte_range()).unwrap_or(&[])).into_owned(),
        }
    }).collect();
    Some(out)
}

/// Relies on tree_sitter::Node::named_descendant_for_point_range: the
/// smallest named node at the point, with its range and text.
#[verifier::external_body]
pub(crate) fn named_node_at(
    tree: &tree_sitter::Tree,
    source: &[u8],
    point: &TsPoint,
) -> Option<NodeInfo> {
    let p = ts_point_of(point);
    tree.root_node().named_descendant_for_point_range(p, p).map(|node| NodeInfo {
        range: range_from_ts(&node.range()),
        text: source.get(node.byte_range()).map_or(String::new(), |b| String::from_utf8_lossy(b).into_owned()),
    })
}

/// Relies on tree_sitter::Node::descendant_for_point_range: the smallest
/// node at the point, with its range and text.
#[verifier::external_body]
pub(crate) fn node_at(
    tree: &tree_sitter::Tree,
    source: &[u8],
    point: &TsPoint,
) -> Option<NodeInfo> {
    let p = ts_point_of(point);
    tree.root_node().descendant_for_point_range(p, p).map(|node| NodeInfo {
        range: range_from_ts(&node.range()),
        text: source.get(node.byte_range()).map_or(String::new(), |b| String::from_utf8_lossy(b).into_owned()),
    })
}


/// The match groups of the keyword meta-query over a highlights pattern
/// source: for the fixed pattern grammar and engine linked here, a
/// function of the two texts alone.
pub uninterp spec fn meta_matches_of(source: Seq<char>, meta: Seq<char>) -> Seq<Seq<CaptureView>>;

/// Relies on tree_sitter::Parser::parse under tree_sitter_query::language
/// and on Query/QueryCursor::matches: parses the highlights source as a
/// pattern document and runs the meta-query over it. The result depends
/// on the two texts alone, so it is the named `meta_matches_of`; `None`
/// when the engine refuses the language, the parse or the query.
#[verifier::external_body]
pub(crate) fn run_meta_query(source: &str, meta: &str) -> (r: Option<Vec<Vec<Capture>>>)
    ensures
        r is Some ==> crate::index::views_of_matches(r->Some_0@) == meta_matches_of(
            source@,
            meta@,
        ),
{
    let mut parser = tree_sitter::Parser::new();
    if parser.set_language(tree_sitter_query::language()).is_err() {
        return None;
    }
    let tree = parser.parse(source.as_bytes(), None)?;
    query_matches(&tree, source.as_bytes(), meta)
}

/// Whether the language id names a grammar this build carries.
pub open spec fn supported_language(s: Seq<char>) -> bool {
    ||| s == "c"@
    ||| s == "cpp"@
    ||| s == "rust"@
    ||| s == "python"@
    ||| s == "javascript"@
    ||| s == "typescript"@
    ||| s == "go"@
    ||| s == "cuda"@
    ||| s == "kotlin"@
    ||| s == "glsl"@
    ||| s == "hare"@
}

/// Returns a parser for the language id, or `None` for a language with
/// no grammar (the caller treats that as `UnsupportedLanguage` and
/// leaves prior state untouched).
pub fn get_parser(language_id: &str) -> (r: Option<tree_sitter::Parser>)
    ensures
        r is Some ==> supported_language(language_id@),
        !supported_language(language_id@) ==> r is None,
{
    let language: tree_sitter::Language = if str_eq(language_id, "c") {
        lang_c()
    } else if str_eq(language_id, "cpp") {
        lang_cpp()
    } else if str_eq(language_id, "rust") {
        lang_rust()
    } else if str_eq(language_id, "python") {
        lang_python()
    } else if str_eq(language_id, "javascript") {
        lang_javascript()
    } else if str_eq(language_id, "typescript") {
        lang_typescript()
    } else if str_eq(language_id, "go") {
        lang_go()
    } else if str_eq(language_id, "cuda") {
        lang_cuda()
    } else if str_eq(language_id, "kotlin") {
        lang_kotlin()
    } else if str_eq(language_id, "glsl") {
        lang_glsl()
    } else if str_eq(language_id, "hare") {
        lang_hare()
    } else {
        return Option::None;
    };
    let mut parser = parser_new();
    if parser_set_language(&mut parser, language) {
        Option::Some(parser)
    } else {
        Option::None
    }
}

/// Performs one edit on the tree, shifting node positions ahead of the
/// incremental reparse.
pub fn perform_edit(tree: &mut tree_sitter::Tree, edit: &EditDescriptor) {
    tree_edit(tree, &input_edit_of(edit));
}

/// The smallest named node at a protocol position, with its range and
/// text.
pub fn get_named_node_by_position(
    tree: &tree_sitter::Tree,
    source: &[u8],
    position: &crate::types::Position,
) -> Option<NodeInfo> {
    let point = crate::convert::lsp_position_to_ts_point(position);
    named_node_at(tree, source, &point)
}

} // verus!
