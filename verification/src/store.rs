//! The per-document state store: buffers, trees, derived indices and
//! diagnostics, keyed by document URI. All mutation goes through this
//! store; derived structures are created, replaced and deleted together,
//! never partially.

use vstd::prelude::*;

use crate::index::{DefEntryView, DefinitionTable};
use crate::strmap::StrMap;
use crate::types::{Diagnostic, Symbol, TsRange};

verus! {

/// The error taxonomy of store operations.
#[derive(Clone, Copy, Debug, PartialEq, Eq, Structural)]
pub enum StoreError {
    /// No grammar or query asset for the language id; prior state is
    /// left untouched.
    UnsupportedLanguage,
    /// An incoming change whose version is at or below the stored one;
    /// dropped entirely.
    StaleEdit,
    /// A URI with no stored state.
    MissingDocument,
    /// No syntax node at the requested position.
    NodeNotFound,
    /// A token that resolves to no definition.
    UnresolvedSymbol,
    /// The parsing provider yielded no tree.
    ParseFailure,
    /// A completion trigger this core does not implement.
    NotImplemented,
}

/// Per-document properties that do not change while it is open: its
/// language id and the derived keyword list.
#[derive(Clone, Debug)]
pub struct Properties {
    language_id: String,
    keywords: Vec<String>,
}

/// The mathematical model of [`Properties`].
pub ghost struct PropertiesView {
    pub language_id: Seq<char>,
    pub keywords: Seq<Seq<char>>,
}

impl View for Properties {
    type V = PropertiesView;

    closed spec fn view(&self) -> PropertiesView {
        PropertiesView {
            language_id: self.language_id@,
            keywords: crate::keywords::views_of_strings(self.keywords@),
        }
    }
}

impl Properties {
    /// Creates the properties of a newly opened document.
    pub fn new(language_id: String, keywords: Vec<String>) -> (r: Self)
        ensures
            r@.language_id == language_id@,
            r@.keywords == crate::keywords::views_of_strings(keywords@),
    {
        Properties { language_id, keywords }
    }

    /// The document's language id.
    pub fn language_id(&self) -> (r: &str)
        ensures
            r@ == self@.language_id,
    {
        self.language_id.as_str()
    }

    /// The derived keyword list.
    pub fn keywords(&self) -> (r: &Vec<String>)
        ensures
            crate::keywords::views_of_strings(r@) == self@.keywords,
    {
        &self.keywords
    }
}

/// One document: its syntax tree, its protocol version, and its source
/// bytes. The tree is replaced on each reparse and always parses the
/// stored bytes.
#[derive(Debug)]
pub struct Document {
    tree: tree_sitter::Tree,
    version: i32,
    source_code: Vec<u8>,
}

/// The mathematical model of a [`Document`]: its version and bytes (the
/// tree is opaque to the model).
pub ghost struct DocumentView {
    pub version: int,
    pub source_code: Seq<u8>,
}

impl View for Document {
    type V = DocumentView;

    closed spec fn view(&self) -> DocumentView {
        DocumentView { version: self.version as int, source_code: self.source_code@ }
    }
}

impl Document {
    /// Creates a document from a freshly parsed tree, its version and
    /// its bytes.
    pub fn new(tree: tree_sitter::Tree, version: i32, source_code: Vec<u8>) -> (r: Self)
        ensures
            r@.version == version as int,
            r@.source_code == source_code@,
    {
        Document { tree, version, source_code }
    }

    /// The document's syntax tree.
    pub fn tree(&self) -> &tree_sitter::Tree {
        &self.tree
    }

    /// The document's version.
    pub fn version(&self) -> (r: i32)
        ensures
            r as int == self@.version,
    {
        self.version
    }

    /// Sets the document's version.
    pub fn set_version(&mut self, version: i32)
        ensures
            final(self)@.version == version as int,
            final(self)@.source_code == old(self)@.source_code,
    {
        self.version = version;
    }

    /// Replaces the document's tree.
    pub fn set_tree(&mut self, tree: tree_sitter::Tree)
        ensures
            final(self)@ == old(self)@,
    {
        self.tree = tree;
    }

    /// The document's source bytes.
    pub fn source_code(&self) -> (r: &Vec<u8>)
        ensures
            r@ == self@.source_code,
    {
        &self.source_code
    }

    /// Replaces the document's source bytes.
    pub fn set_source_code(&mut self, source_code: Vec<u8>)
        ensures
            final(self)@.source_code == source_code@,
            final(self)@.version == old(self)@.version,
    {
        self.source_code = source_code;
    }
}

/// The derived per-document indices, rebuilt together after each edit:
/// the ordered scope sequence, the definition table, and the per-scope
/// identifier lists.
#[derive(Debug)]
pub struct ParsedInfo {
    ordered_scopes: Vec<TsRange>,
    definitions_lookup_map: DefinitionTable,
    identifiers: Vec<Vec<Symbol>>,
}

/// The mathematical model of a [`ParsedInfo`].
pub ghost struct ParsedInfoView {
    pub ordered_scopes: Seq<TsRange>,
    pub definitions: Seq<DefEntryView>,
    pub identifiers: Seq<Seq<crate::types::SymbolView>>,
}

impl View for ParsedInfo {
    type V = ParsedInfoView;

    closed spec fn view(&self) -> ParsedInfoView {
        ParsedInfoView {
            ordered_scopes: self.ordered_scopes@,
            definitions: self.definitions_lookup_map@,
            identifiers: crate::index::views_of_identifiers(self.identifiers@),
        }
    }
}

impl ParsedInfo {
    /// Bundles freshly built indices.
    pub fn new(
        ordered_scopes: Vec<TsRange>,
        definitions_lookup_map: DefinitionTable,
        identifiers: Vec<Vec<Symbol>>,
    ) -> (r: Self)
        ensures
            r@.ordered_scopes == ordered_scopes@,
            r@.definitions == definitions_lookup_map@,
            r@.identifiers == crate::index::views_of_identifiers(identifiers@),
    {
        ParsedInfo { ordered_scopes, definitions_lookup_map, identifiers }
    }

    /// The ordered scope sequence.
    pub fn ordered_scopes(&self) -> (r: &Vec<TsRange>)
        ensures
            r@ == self@.ordered_scopes,
    {
        &self.ordered_scopes
    }

    /// Replaces the ordered scope sequence.
    pub fn set_ordered_scopes(&mut self, ordered_scopes: Vec<TsRange>)
        ensures
            final(self)@.ordered_scopes == ordered_scopes@,
            final(self)@.definitions == old(self)@.definitions,
            final(self)@.identifiers == old(self)@.identifiers,
    {
        self.ordered_scopes = ordered_scopes;
    }

    /// The definition table.
    pub fn definitions_lookup_map(&self) -> (r: &DefinitionTable)
        ensures
            r@ == self@.definitions,
    {
        &self.definitions_lookup_map
    }

    /// Replaces the definition table.
    pub fn set_definitions_lookup_map(&mut self, definitions_lookup_map: DefinitionTable)
        ensures
            final(self)@.definitions == definitions_lookup_map@,
            final(self)@.ordered_scopes == old(self)@.ordered_scopes,
            final(self)@.identifiers == old(self)@.identifiers,
    {
        self.definitions_lookup_map = definitions_lookup_map;
    }

    /// The per-scope identifier lists.
    pub fn identifiers(&self) -> (r: &Vec<Vec<Symbol>>)
        ensures
            crate::index::views_of_identifiers(r@) == self@.identifiers,
    {
        &self.identifiers
    }

    /// Replaces the per-scope identifier lists.
    pub fn set_identifiers(&mut self, identifiers: Vec<Vec<Symbol>>)
        ensures
            final(self)@.identifiers == crate::index::views_of_identifiers(identifiers@),
            final(self)@.ordered_scopes == old(self)@.ordered_scopes,
            final(self)@.definitions == old(self)@.definitions,
    {
        self.identifiers = identifiers;
    }
}

/// The store: four URI-keyed maps, mutated only together so that no
/// query ever sees a half-applied edit.
pub struct GlobalState {
    properties: StrMap<Properties>,
    documents: StrMap<Document>,
    parsed_info: StrMap<ParsedInfo>,
    diagnostics: StrMap<Vec<Diagnostic>>,
}

/// The mathematical model of the store.
pub ghost struct GlobalStateView {
    pub properties: Map<Seq<char>, Properties>,
    pub documents: Map<Seq<char>, Document>,
    pub parsed_info: Map<Seq<char>, ParsedInfo>,
    pub diagnostics: Map<Seq<char>, Vec<Diagnostic>>,
}

impl View for GlobalState {
    type V = GlobalStateView;

    closed spec fn view(&self) -> GlobalStateView {
        GlobalStateView {
            properties: self.properties@,
            documents: self.documents@,
            parsed_info: self.parsed_info@,
            diagnostics: self.diagnostics@,
        }
    }
}

impl GlobalState {
    /// Well-formedness of the backing maps.
    pub closed spec fn wf(&self) -> bool {
        self.properties.wf() && self.documents.wf() && self.parsed_info.wf()
            && self.diagnostics.wf()
    }

    /// Creates an empty store.
    pub fn new() -> (r: Self)
        ensures
            r.wf(),
            r@.properties == Map::<Seq<char>, Properties>::empty(),
            r@.documents == Map::<Seq<char>, Document>::empty(),
            r@.parsed_info == Map::<Seq<char>, ParsedInfo>::empty(),
            r@.diagnostics == Map::<Seq<char>, Vec<Diagnostic>>::empty(),
    {
        GlobalState {
            properties: StrMap::new(),
            documents: StrMap::new(),
            parsed_info: StrMap::new(),
            diagnostics: StrMap::new(),
        }
    }

    /// Purges all of buffer, tree, scopes, definitions and diagnostics
    /// for the URI, atomically; state for every other URI is untouched.
    pub fn clear(&mut self, uri: &str)
        requires
            old(self).wf(),
        ensures
            final(self).wf(),
            final(self)@.documents == old(self)@.documents.remove(uri@),
            final(self)@.properties == old(self)@.properties.remove(uri@),
            final(self)@.parsed_info == old(self)@.parsed_info.remove(uri@),
            final(self)@.diagnostics == old(self)@.diagnostics.remove(uri@),
    {
        self.documents.remove(uri);
        self.diagnostics.remove(uri);
        self.properties.remove(uri);
        self.parsed_info.remove(uri);
    }

    /// The stored version of the URI, or 0 when it is not open.
    pub fn get_version(&self, uri: &str) -> (r: i32)
        requires
            self.wf(),
        ensures
            self@.documents.contains_key(uri@) ==> r as int == self@.documents[uri@]@.version,
            !self@.documents.contains_key(uri@) ==> r == 0,
    {
        match self.documents.get(uri) {
            Option::Some(d) => d.version(),
            Option::None => 0,
        }
    }

    /// The stored syntax tree of the URI.
    pub fn get_tree(&self, uri: &str) -> (r: Option<&tree_sitter::Tree>)
        requires
            self.wf(),
        ensures
            r is Some <==> self@.documents.contains_key(uri@),
    {
        match self.documents.get(uri) {
            Option::Some(d) => Option::Some(d.tree()),
            Option::None => Option::None,
        }
    }

    /// The stored source bytes of the URI.
    pub fn get_source_code(&self, uri: &str) -> (r: Option<&Vec<u8>>)
        requires
            self.wf(),
        ensures
            match r {
                Option::Some(v) => self@.documents.contains_key(uri@) && v@
                    == self@.documents[uri@]@.source_code,
                Option::None => !self@.documents.contains_key(uri@),
            },
    {
        match self.documents.get(uri) {
            Option::Some(d) => Option::Some(d.source_code()),
            Option::None => Option::None,
        }
    }

    /// The stored document of the URI.
    pub fn get_document(&self, uri: &str) -> (r: Option<&Document>)
        requires
            self.wf(),
        ensures
            match r {
                Option::Some(d) => self@.documents.contains_key(uri@) && *d
                    == self@.documents[uri@],
                Option::None => !self@.documents.contains_key(uri@),
            },
    {
        self.documents.get(uri)
    }

    /// Replaces the stored document of the URI.
    pub fn update_document(&mut self, uri: String, document: Document)
        requires
            old(self).wf(),
        ensures
            final(self).wf(),
            final(self)@.documents == old(self)@.documents.insert(uri@, document),
            final(self)@.properties == old(self)@.properties,
            final(self)@.parsed_info == old(self)@.parsed_info,
            final(self)@.diagnostics == old(self)@.diagnostics,
    {
        self.documents.insert(uri, document);
    }

    /// The language id of the URI.
    pub fn get_language_id(&self, uri: &str) -> (r: Option<&str>)
        requires
            self.wf(),
        ensures
            match r {
                Option::Some(s) => self@.properties.contains_key(uri@) && s@
                    == self@.properties[uri@]@.language_id,
                Option::None => !self@.properties.contains_key(uri@),
            },
    {
        match self.properties.get(uri) {
            Option::Some(p) => Option::Some(p.language_id()),
            Option::None => Option::None,
        }
    }

    /// The keyword list of the URI.
    pub fn get_keywords(&self, uri: &str) -> (r: Option<&Vec<String>>)
        requires
            self.wf(),
        ensures
            match r {
                Option::Some(v) => self@.properties.contains_key(uri@)
                    && crate::keywords::views_of_strings(v@) == self@.properties[uri@]@.keywords,
                Option::None => !self@.properties.contains_key(uri@),
            },
    {
        match self.properties.get(uri) {
            Option::Some(p) => Option::Some(p.keywords()),
            Option::None => Option::None,
        }
    }

    /// Replaces the stored properties of the URI.
    pub fn update_properties(&mut self, uri: String, properties: Properties)
        requires
            old(self).wf(),
        ensures
            final(self).wf(),
            final(self)@.properties == old(self)@.properties.insert(uri@, properties),
            final(self)@.documents == old(self)@.documents,
            final(self)@.parsed_info == old(self)@.parsed_info,
            final(self)@.diagnostics == old(self)@.diagnostics,
    {
        self.properties.insert(uri, properties);
    }

    /// The stored diagnostics of the URI.
    pub fn get_diagnostics(&self, uri: &str) -> (r: Option<&Vec<Diagnostic>>)
        requires
            self.wf(),
        ensures
            match r {
                Option::Some(v) => self@.diagnostics.contains_key(uri@) && *v
                    == self@.diagnostics[uri@],
                Option::None => !self@.diagnostics.contains_key(uri@),
            },
    {
        self.diagnostics.get(uri)
    }

    /// The per-scope identifier lists of the URI.
    pub fn get_identifiers(&self, uri: &str) -> (r: Option<&Vec<Vec<Symbol>>>)
        requires
            self.wf(),
        ensures
            match r {
                Option::Some(v) => self@.parsed_info.contains_key(uri@)
                    && crate::index::views_of_identifiers(v@)
                    == self@.parsed_info[uri@]@.identifiers,
                Option::None => !self@.parsed_info.contains_key(uri@),
            },
    {
        match self.parsed_info.get(uri) {
            Option::Some(p) => Option::Some(p.identifiers()),
            Option::None => Option::None,
        }
    }

    /// The ordered scope sequence of the URI.
    pub fn get_ordered_scopes(&self, uri: &str) -> (r: Option<&Vec<TsRange>>)
        requires
            self.wf(),
        ensures
            match r {
                Option::Some(v) => self@.parsed_info.contains_key(uri@) && v@
                    == self@.parsed_info[uri@]@.ordered_scopes,
                Option::None => !self@.parsed_info.contains_key(uri@),
            },
    {
        match self.parsed_info.get(uri) {
            Option::Some(p) => Option::Some(p.ordered_scopes()),
            Option::None => Option::None,
        }
    }

    /// The stored indices of the URI.
    pub fn get_parsed_info(&self, uri: &str) -> (r: Option<&ParsedInfo>)
        requires
            self.wf(),
        ensures
            match r {
                Option::Some(p) => self@.parsed_info.contains_key(uri@) && *p
                    == self@.parsed_info[uri@],
                Option::None => !self@.parsed_info.contains_key(uri@),
            },
    {
        self.parsed_info.get(uri)
    }

    /// Replaces the stored indices of the URI.
    pub fn update_parsed_info(&mut self, uri: String, parsed_info: ParsedInfo)
        requires
            old(self).wf(),
        ensures
            final(self).wf(),
            final(self)@.parsed_info == old(self)@.parsed_info.insert(uri@, parsed_info),
            final(self)@.documents == old(self)@.documents,
            final(self)@.properties == old(self)@.properties,
            final(self)@.diagnostics == old(self)@.diagnostics,
    {
        self.parsed_info.insert(uri, parsed_info);
    }

    /// Replaces the stored diagnostics of the URI.
    pub fn set_diagnostics_for(&mut self, uri: String, diagnostics: Vec<Diagnostic>)
        requires
            old(self).wf(),
        ensures
            final(self).wf(),
            final(self)@.diagnostics == old(self)@.diagnostics.insert(uri@, diagnostics),
            final(self)@.documents == old(self)@.documents,
            final(self)@.properties == old(self)@.properties,
            final(self)@.parsed_info == old(self)@.parsed_info,
    {
        self.diagnostics.insert(uri, diagnostics);
    }
}

/// Law: closing a document purges all of buffer, tree, scopes,
/// definitions and diagnostics for that URI atomically, and every other
/// URI's state stays exactly as it was.
pub proof fn lemma_close_purges_atomically(
    pre: GlobalStateView,
    post: GlobalStateView,
    uri: Seq<char>,
)
    requires
        post.documents == pre.documents.remove(uri),
        post.properties == pre.properties.remove(uri),
        post.parsed_info == pre.parsed_info.remove(uri),
        post.diagnostics == pre.diagnostics.remove(uri),
    ensures
        !post.documents.contains_key(uri),
        !post.properties.contains_key(uri),
        !post.parsed_info.contains_key(uri),
        !post.diagnostics.contains_key(uri),
        forall|u: Seq<char>|
            u != uri ==> ((#[trigger] post.documents.contains_key(u))
                <==> pre.documents.contains_key(u)) && (pre.documents.contains_key(u)
                ==> post.documents[u] == pre.documents[u]),
        forall|u: Seq<char>|
            u != uri ==> ((#[trigger] post.properties.contains_key(u))
                <==> pre.properties.contains_key(u)) && (pre.properties.contains_key(u)
                ==> post.properties[u] == pre.properties[u]),
        forall|u: Seq<char>|
            u != uri ==> ((#[trigger] post.parsed_info.contains_key(u))
                <==> pre.parsed_info.contains_key(u)) && (pre.parsed_info.contains_key(u)
                ==> post.parsed_info[u] == pre.parsed_info[u]),
        forall|u: Seq<char>|
            u != uri ==> ((#[trigger] post.diagnostics.contains_key(u))
                <==> pre.diagnostics.contains_key(u)) && (pre.diagnostics.contains_key(u)
                ==> post.diagnostics[u] == pre.diagnostics[u]),
{
}

} // verus!

use crate::assets::{get_query_source, QueryAssets};
use crate::engine::{query_captures, query_matches, tree_clone, Capture, CaptureView};
use crate::index::{
    attach_children, attach_children_spec, build_defs, build_definitions_and_identifiers,
    build_scopes, collect_idents, distribute, scopes_of_matches, views_of_captures,
    views_of_matches,
};
use crate::diagnostics::{build_diagnostics, diags_of_matches, views_of_diags};
use crate::keywords::build_keywords_cache;

verus! {

/// What a successful (re)build of a document's cache guarantees: the
/// document is stored with the given version and bytes, the properties
/// carry the given language id, and the indices and diagnostics come
/// from one family of engine captures through the verified index
/// functions; every other URI's state is untouched.
pub open spec fn cache_built(
    pre: GlobalStateView,
    post: GlobalStateView,
    uri: Seq<char>,
    language_id: Seq<char>,
    version: int,
    text: Seq<u8>,
) -> bool {
    &&& (exists|doc: Document|
        #[trigger] pre.documents.insert(uri, doc) == post.documents && doc@.version == version
            && doc@.source_code == text)
    &&& (exists|p: Properties|
        #[trigger] pre.properties.insert(uri, p) == post.properties && p@.language_id
            == language_id && (p@.keywords == Seq::<Seq<char>>::empty() || (exists|
            mm: Seq<Seq<CaptureView>>,
        | p@.keywords == #[trigger] crate::keywords::keywords_of(mm))))
    &&& indices_rebuilt(pre, post, uri)
}

/// What a rebuild of a document's derived structures guarantees: the
/// stored indices come from one family of engine captures through the
/// verified index functions, and the stored diagnostics from one family
/// of error captures; both maps gain exactly the URI's entry.
pub open spec fn indices_rebuilt(
    pre: GlobalStateView,
    post: GlobalStateView,
    uri: Seq<char>,
) -> bool {
    &&& (exists|pi: ParsedInfo|
        #[trigger] pre.parsed_info.insert(uri, pi) == post.parsed_info && parsed_from_captures(
            pi@,
        ))
    &&& (exists|d: Vec<Diagnostic>, mm: Seq<Seq<CaptureView>>|
        #![trigger pre.diagnostics.insert(uri, d), diags_of_matches(mm)]
        post.diagnostics == pre.diagnostics.insert(uri, d) && views_of_diags(d@)
            == diags_of_matches(mm))
}

/// Whether stored indices are the verified index functions' output for
/// one family of captures: the scopes from the locals match groups, the
/// definition table from the locals captures against those scopes, and
/// the identifiers from the highlights captures distributed over them.
pub open spec fn parsed_from_captures(pi: ParsedInfoView) -> bool {
    exists|
        mm: Seq<Seq<CaptureView>>,
        caps: Seq<CaptureView>,
        hc: Seq<CaptureView>,
        cm: Seq<Seq<CaptureView>>,
    |
        #![trigger scopes_of_matches(mm), build_defs(caps, pi.ordered_scopes), collect_idents(hc, pi.ordered_scopes), attach_children_spec(build_defs(caps, pi.ordered_scopes), cm, pi.ordered_scopes)]
        {
            &&& pi.ordered_scopes == scopes_of_matches(mm)
            &&& pi.definitions == attach_children_spec(
                build_defs(caps, pi.ordered_scopes),
                cm,
                pi.ordered_scopes,
            )
            &&& pi.identifiers == distribute(
                Seq::new(pi.ordered_scopes.len(), |i: int| Seq::<crate::types::SymbolView>::empty()),
                collect_idents(hc, pi.ordered_scopes),
            )
        }
}

/// Copies a byte buffer.
pub(crate) fn copy_bytes(src: &Vec<u8>) -> (r: Vec<u8>)
    ensures
        r@ == src@,
{
    let mut r: Vec<u8> = Vec::new();
    let n: usize = src.len();
    let mut i: usize = 0;
    while i < n
        invariant
            0 <= i <= n == src@.len(),
            r@ == src@.take(i as int),
        decreases n - i,
    {
        r.push(src[i]);
        proof {
            assert(src@.take(i as int).push(src@[i as int]) =~= src@.take(i as int + 1));
        }
        i = i + 1;
    }
    proof {
        assert(src@.take(n as int) =~= src@);
    }
    r
}

impl GlobalState {
    /// Rebuilds the stored diagnostics of the URI from the error nodes
    /// of its stored tree.
    pub fn update_diagnostics(&mut self, uri: &str) -> (r: Result<(), StoreError>)
        requires
            old(self).wf(),
        ensures
            final(self).wf(),
            final(self)@.documents == old(self)@.documents,
            final(self)@.properties == old(self)@.properties,
            final(self)@.parsed_info == old(self)@.parsed_info,
            match r {
                Result::Ok(()) => old(self)@.documents.contains_key(uri@) && (exists|
                    d: Vec<Diagnostic>,
                    mm: Seq<Seq<CaptureView>>,
                |
                    #![trigger old(self)@.diagnostics.insert(uri@, d), diags_of_matches(mm)]
                    final(self)@.diagnostics == old(self)@.diagnostics.insert(uri@, d)
                        && views_of_diags(d@) == diags_of_matches(mm)),
                Result::Err(e) => e == StoreError::MissingDocument && !old(
                    self,
                )@.documents.contains_key(uri@) && final(self)@.diagnostics == old(
                    self,
                )@.diagnostics,
            },
    {
        let caps: Vec<Vec<Capture>> = match self.documents.get(uri) {
            Option::Some(d) => {
                match query_matches(d.tree(), d.source_code().as_slice(), "(ERROR) @ERROR") {
                    Option::Some(c) => c,
                    Option::None => Vec::new(),
                }
            },
            Option::None => {
                return Result::Err(StoreError::MissingDocument);
            },
        };
        let diags = build_diagnostics(&caps);
        let ghost dwit = diags;
        let ghost mmwit = views_of_matches(caps@);
        self.diagnostics.insert(uri.to_owned(), diags);
        proof {
            assert(self@.diagnostics == old(self)@.diagnostics.insert(uri@, dwit));
            assert(views_of_diags(dwit@) == diags_of_matches(mmwit));
        }
        Result::Ok(())
    }

    /// Builds a document's whole cache after an open or a reparse: runs
    /// the locals, children, highlights and error queries, builds the
    /// indices with nested symbols attached, derives the keyword list,
    /// and stores everything together. The `text` argument pairs only
    /// with a supplied tree; with no tree given, the stored tree and the
    /// stored bytes are reused together, so every query runs on a
    /// matching (tree, source) pair and the stored tree always parses
    /// the stored bytes.
    pub fn build_cache(
        &mut self,
        assets: &QueryAssets,
        uri: String,
        language_id: String,
        version: i32,
        text: Vec<u8>,
        tree: Option<tree_sitter::Tree>,
    ) -> (r: Result<(), StoreError>)
        requires
            old(self).wf(),
        ensures
            final(self).wf(),
            tree is Some ==> r is Ok,
            match r {
                Result::Ok(()) => cache_built(
                    old(self)@,
                    final(self)@,
                    uri@,
                    language_id@,
                    version as int,
                    if tree is Some {
                        text@
                    } else {
                        old(self)@.documents[uri@]@.source_code
                    },
                ),
                Result::Err(e) => e == StoreError::MissingDocument && !old(
                    self,
                )@.documents.contains_key(uri@) && final(self)@ == old(self)@,
            },
    {
        let (tree, text): (tree_sitter::Tree, Vec<u8>) = match tree {
            Option::Some(t) => (t, text),
            Option::None => {
                match self.documents.get(uri.as_str()) {
                    Option::Some(d) => (tree_clone(d.tree()), copy_bytes(d.source_code())),
                    Option::None => {
                        return Result::Err(StoreError::MissingDocument);
                    },
                }
            },
        };
        let locals_src: Option<String> = get_query_source(assets, language_id.as_str(), "locals");
        let locals_matches: Vec<Vec<Capture>> = match &locals_src {
            Option::Some(src) => {
                match query_matches(&tree, text.as_slice(), src.as_str()) {
                    Option::Some(mm) => mm,
                    Option::None => Vec::new(),
                }
            },
            Option::None => Vec::new(),
        };
        let locals_caps: Vec<Capture> = match &locals_src {
            Option::Some(src) => {
                match query_captures(&tree, text.as_slice(), src.as_str()) {
                    Option::Some(c) => c,
                    Option::None => Vec::new(),
                }
            },
            Option::None => Vec::new(),
        };
        let highlights_caps: Vec<Capture> = match get_query_source(
            assets,
            language_id.as_str(),
            "highlights",
        ) {
            Option::Some(src) => {
                match query_captures(&tree, text.as_slice(), src.as_str()) {
                    Option::Some(c) => c,
                    Option::None => Vec::new(),
                }
            },
            Option::None => Vec::new(),
        };
        let children_matches: Vec<Vec<Capture>> = match get_query_source(
            assets,
            language_id.as_str(),
            "children",
        ) {
            Option::Some(src) => {
                match query_matches(&tree, text.as_slice(), src.as_str()) {
                    Option::Some(mm) => mm,
                    Option::None => Vec::new(),
                }
            },
            Option::None => Vec::new(),
        };
        let kw_opt = build_keywords_cache(assets, language_id.as_str());
        let ghost kw_opt_g = kw_opt;
        let keywords: Vec<String> = match kw_opt {
            Option::Some(k) => k,
            Option::None => Vec::new(),
        };
        proof {
            if kw_opt_g is None {
                assert(crate::keywords::views_of_strings(keywords@) =~= Seq::<Seq<char>>::empty());
            }
        }
        let (scopes, mut identifiers) = build_scopes(&locals_matches);
        let mut definitions = build_definitions_and_identifiers(&locals_caps, scopes.as_slice());
        attach_children(&mut definitions, &children_matches, scopes.as_slice());
        let ghost ids0 = crate::index::views_of_identifiers(identifiers@);
        proof {
            assert forall|i: int| 0 <= i < ids0.len() implies ids0[i] == Seq::<
                crate::types::SymbolView,
            >::empty() by {
                assert(ids0[i] =~= Seq::<crate::types::SymbolView>::empty());
            }
            assert(ids0 =~= Seq::new(
                scopes@.len(),
                |i: int| Seq::<crate::types::SymbolView>::empty(),
            ));
        }
        crate::index::update_identifiers_kind(
            &mut identifiers,
            scopes.as_slice(),
            &highlights_caps,
        );
        let document = Document::new(tree, version, text);
        self.update_document(uri.clone(), document);
        let parsed = ParsedInfo::new(scopes, definitions, identifiers);
        self.update_parsed_info(uri.clone(), parsed);
        let props = Properties::new(language_id, keywords);
        self.update_properties(uri.clone(), props);
        let dres = self.update_diagnostics(uri.as_str());
        proof {
            assert(dres is Ok);
        }
        Result::Ok(())
    }
}

} // verus!

verus! {

impl GlobalState {
    /// Rebuilds the derived indices (nested symbols included) and
    /// diagnostics of the URI from its stored tree and bytes, leaving
    /// the document and properties as they are.
    pub fn update_cache(&mut self, assets: &QueryAssets, uri: &str) -> (r: Result<(), StoreError>)
        requires
            old(self).wf(),
        ensures
            final(self).wf(),
            final(self)@.documents == old(self)@.documents,
            final(self)@.properties == old(self)@.properties,
            r is Err <==> !(old(self)@.documents.contains_key(uri@) && old(
                self,
            )@.properties.contains_key(uri@)),
            match r {
                Result::Ok(()) => indices_rebuilt(old(self)@, final(self)@, uri@),
                Result::Err(e) => e == StoreError::MissingDocument && final(self)@ == old(self)@,
            },
    {
        let locals_src: Option<String>;
        let highlights_src: Option<String>;
        let children_src: Option<String>;
        {
            let lang: &str = match self.properties.get(uri) {
                Option::Some(p) => p.language_id(),
                Option::None => {
                    return Result::Err(StoreError::MissingDocument);
                },
            };
            locals_src = get_query_source(assets, lang, "locals");
            highlights_src = get_query_source(assets, lang, "highlights");
            children_src = get_query_source(assets, lang, "children");
        }
        let locals_matches: Vec<Vec<Capture>>;
        let locals_caps: Vec<Capture>;
        let highlights_caps: Vec<Capture>;
        let children_matches: Vec<Vec<Capture>>;
        {
            let doc = match self.documents.get(uri) {
                Option::Some(d) => d,
                Option::None => {
                    return Result::Err(StoreError::MissingDocument);
                },
            };
            locals_matches = match &locals_src {
                Option::Some(src) => {
                    match query_matches(doc.tree(), doc.source_code().as_slice(), src.as_str()) {
                        Option::Some(x) => x,
                        Option::None => Vec::new(),
                    }
                },
                Option::None => Vec::new(),
            };
            locals_caps = match &locals_src {
                Option::Some(src) => {
                    match query_captures(doc.tree(), doc.source_code().as_slice(), src.as_str()) {
                        Option::Some(x) => x,
                        Option::None => Vec::new(),
                    }
                },
                Option::None => Vec::new(),
            };
            highlights_caps = match &highlights_src {
                Option::Some(src) => {
                    match query_captures(doc.tree(), doc.source_code().as_slice(), src.as_str()) {
                        Option::Some(x) => x,
                        Option::None => Vec::new(),
                    }
                },
                Option::None => Vec::new(),
            };
            children_matches = match &children_src {
                Option::Some(src) => {
                    match query_matches(doc.tree(), doc.source_code().as_slice(), src.as_str()) {
                        Option::Some(x) => x,
                        Option::None => Vec::new(),
                    }
                },
                Option::None => Vec::new(),
            };
        }
        let (scopes, mut identifiers) = build_scopes(&locals_matches);
        let mut definitions = build_definitions_and_identifiers(&locals_caps, scopes.as_slice());
        attach_children(&mut definitions, &children_matches, scopes.as_slice());
        let ghost ids0 = crate::index::views_of_identifiers(identifiers@);
        proof {
            assert forall|i: int| 0 <= i < ids0.len() implies ids0[i] == Seq::<
                crate::types::SymbolView,
            >::empty() by {
                assert(ids0[i] =~= Seq::<crate::types::SymbolView>::empty());
            }
            assert(ids0 =~= Seq::new(
                scopes@.len(),
                |i: int| Seq::<crate::types::SymbolView>::empty(),
            ));
        }
        crate::index::update_identifiers_kind(
            &mut identifiers,
            scopes.as_slice(),
            &highlights_caps,
        );
        let parsed = ParsedInfo::new(scopes, definitions, identifiers);
        let ghost piwit = parsed;
        self.update_parsed_info(uri.to_owned(), parsed);
        proof {
            assert(self@.parsed_info == old(self)@.parsed_info.insert(uri@, piwit));
            assert(piwit@.ordered_scopes == scopes_of_matches(views_of_matches(locals_matches@)));
            assert(piwit@.definitions == attach_children_spec(
                build_defs(views_of_captures(locals_caps@), piwit@.ordered_scopes),
                views_of_matches(children_matches@),
                piwit@.ordered_scopes,
            ));
            assert(piwit@.identifiers == distribute(
                Seq::new(
                    piwit@.ordered_scopes.len(),
                    |i: int| Seq::<crate::types::SymbolView>::empty(),
                ),
                collect_idents(views_of_captures(highlights_caps@), piwit@.ordered_scopes),
            ));
        }
        let dres = self.update_diagnostics(uri);
        proof {
            assert(dres is Ok);
        }
        Result::Ok(())
    }
}

} // verus!

verus! {

impl GlobalState {
    /// The document map.
    pub fn documents(&self) -> (r: &StrMap<Document>)
        ensures
            r@ == self@.documents,
    {
        &self.documents
    }

    /// The properties map.
    pub fn properties(&self) -> (r: &StrMap<Properties>)
        ensures
            r@ == self@.properties,
    {
        &self.properties
    }

    /// The indices map.
    pub fn parsed_info(&self) -> (r: &StrMap<ParsedInfo>)
        ensures
            r@ == self@.parsed_info,
    {
        &self.parsed_info
    }

    /// The diagnostics map.
    pub fn diagnostics(&self) -> (r: &StrMap<Vec<Diagnostic>>)
        ensures
            r@ == self@.diagnostics,
    {
        &self.diagnostics
    }

    /// Replaces the whole document map.
    pub fn set_documents(&mut self, documents: StrMap<Document>)
        requires
            old(self).wf(),
            documents.wf(),
        ensures
            final(self).wf(),
            final(self)@.documents == documents@,
            final(self)@.properties == old(self)@.properties,
            final(self)@.parsed_info == old(self)@.parsed_info,
            final(self)@.diagnostics == old(self)@.diagnostics,
    {
        self.documents = documents;
    }

    /// Replaces the whole properties map.
    pub fn set_properties(&mut self, properties: StrMap<Properties>)
        requires
            old(self).wf(),
            properties.wf(),
        ensures
            final(self).wf(),
            final(self)@.properties == properties@,
            final(self)@.documents == old(self)@.documents,
            final(self)@.parsed_info == old(self)@.parsed_info,
            final(self)@.diagnostics == old(self)@.diagnostics,
    {
        self.properties = properties;
    }

    /// Replaces the whole indices map.
    pub fn set_parsed_info(&mut self, parsed_info: StrMap<ParsedInfo>)
        requires
            old(self).wf(),
            parsed_info.wf(),
        ensures
            final(self).wf(),
            final(self)@.parsed_info == parsed_info@,
            final(self)@.documents == old(self)@.documents,
            final(self)@.properties == old(self)@.properties,
            final(self)@.diagnostics == old(self)@.diagnostics,
    {
        self.parsed_info = parsed_info;
    }

    /// Replaces the whole diagnostics map.
    pub fn set_diagnostics(&mut self, diagnostics: StrMap<Vec<Diagnostic>>)
        requires
            old(self).wf(),
            diagnostics.wf(),
        ensures
            final(self).wf(),
            final(self)@.diagnostics == diagnostics@,
            final(self)@.documents == old(self)@.documents,
            final(self)@.properties == old(self)@.properties,
            final(self)@.parsed_info == old(self)@.parsed_info,
    {
        self.diagnostics = diagnostics;
    }

    /// Replaces the stored tree of the URI, leaving its version and
    /// bytes as they are; a URI with no document is left untouched.
    pub fn update_tree(&mut self, uri: &str, new_tree: tree_sitter::Tree)
        requires
            old(self).wf(),
        ensures
            final(self).wf(),
            final(self)@.properties == old(self)@.properties,
            final(self)@.parsed_info == old(self)@.parsed_info,
            final(self)@.diagnostics == old(self)@.diagnostics,
            old(self)@.documents.contains_key(uri@) ==> (exists|doc: Document|
                #[trigger] old(self)@.documents.insert(uri@, doc) == final(self)@.documents
                    && doc@ == old(self)@.documents[uri@]@),
            !old(self)@.documents.contains_key(uri@) ==> final(self)@.documents == old(
                self,
            )@.documents,
    {
        match self.documents.take(uri) {
            Option::Some(mut d) => {
                d.set_tree(new_tree);
                let ghost dwit = d;
                self.documents.insert(uri.to_owned(), d);
                proof {
                    assert(self@.documents =~= old(self)@.documents.insert(uri@, dwit));
                }
            },
            Option::None => {
                proof {
                    assert(self@.documents =~= old(self)@.documents);
                }
            },
        }
    }

    /// Replaces the stored source bytes of the URI, leaving its version
    /// and tree as they are; a URI with no document is left untouched.
    pub fn update_source_code(&mut self, uri: &str, new_source_code: Vec<u8>)
        requires
            old(self).wf(),
        ensures
            final(self).wf(),
            final(self)@.properties == old(self)@.properties,
            final(self)@.parsed_info == old(self)@.parsed_info,
            final(self)@.diagnostics == old(self)@.diagnostics,
            old(self)@.documents.contains_key(uri@) ==> (exists|doc: Document|
                #[trigger] old(self)@.documents.insert(uri@, doc) == final(self)@.documents
                    && doc@.source_code == new_source_code@ && doc@.version == old(
                    self,
                )@.documents[uri@]@.version),
            !old(self)@.documents.contains_key(uri@) ==> final(self)@.documents == old(
                self,
            )@.documents,
    {
        match self.documents.take(uri) {
            Option::Some(mut d) => {
                d.set_source_code(new_source_code);
                let ghost dwit = d;
                self.documents.insert(uri.to_owned(), d);
                proof {
                    assert(self@.documents =~= old(self)@.documents.insert(uri@, dwit));
                }
            },
            Option::None => {
                proof {
                    assert(self@.documents =~= old(self)@.documents);
                }
            },
        }
    }
}

} // verus!
