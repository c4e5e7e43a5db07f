//! The mutation handlers that drive the store: document open, change,
//! save and close. Each one either commits a whole consistent update or
//! leaves the store exactly as it was.

use vstd::prelude::*;

use crate::assets::QueryAssets;
use crate::edits::{
    lemma_take_one_more, spec_apply_changes, spec_buffer_before, translate_change, ContentChange,
};
use crate::engine::{get_parser, input_edit_of, parser_parse, supported_language, tree_clone,
    tree_edit};
use crate::store::{
    cache_built, copy_bytes, indices_rebuilt, Document, GlobalState, GlobalStateView, StoreError,
};

verus! {

/// Whether two store states hold exactly the same documents, properties,
/// indices and diagnostics.
pub open spec fn state_unchanged(a: GlobalStateView, b: GlobalStateView) -> bool {
    &&& a.documents == b.documents
    &&& a.properties == b.properties
    &&& a.parsed_info == b.parsed_info
    &&& a.diagnostics == b.diagnostics
}

/// The version stored for a URI, or 0 when it holds no document.
pub open spec fn stored_version(st: GlobalStateView, uri: Seq<char>) -> int {
    if st.documents.contains_key(uri) {
        st.documents[uri]@.version
    } else {
        0
    }
}

/// Opens a document: parses it in full and builds its whole cache. A
/// language without a grammar, or a failed parse, leaves the store
/// untouched.
pub fn did_open(
    state: &mut GlobalState,
    assets: &QueryAssets,
    uri: &str,
    language_id: &str,
    version: i32,
    text: Vec<u8>,
) -> (r: Result<(), StoreError>)
    requires
        old(state).wf(),
    ensures
        final(state).wf(),
        !supported_language(language_id@) ==> r == Result::<(), StoreError>::Err(
            StoreError::UnsupportedLanguage,
        ),
        match r {
            Result::Ok(()) => cache_built(
                old(state)@,
                final(state)@,
                uri@,
                language_id@,
                version as int,
                text@,
            ),
            Result::Err(e) => (e == StoreError::UnsupportedLanguage || e
                == StoreError::ParseFailure) && state_unchanged(old(state)@, final(state)@),
        },
{
    let mut parser = match get_parser(language_id) {
        Option::Some(p) => p,
        Option::None => {
            return Result::Err(StoreError::UnsupportedLanguage);
        },
    };
    let tree = match parser_parse(&mut parser, text.as_slice(), Option::None) {
        Option::Some(t) => t,
        Option::None => {
            return Result::Err(StoreError::ParseFailure);
        },
    };
    let res = state.build_cache(
        assets,
        uri.to_owned(),
        language_id.to_owned(),
        version,
        text,
        Option::Some(tree),
    );
    proof {
        assert(res is Ok);
    }
    Result::Ok(())
}

/// Applies a batch of content changes to a document: each change is
/// translated against the buffer the previous changes produced, the
/// tree is edited accordingly and reparsed incrementally, and the
/// derived indices and diagnostics are rebuilt. A stale version drops
/// the change entirely; every failure leaves the store untouched.
pub fn did_change(
    state: &mut GlobalState,
    assets: &QueryAssets,
    uri: &str,
    version: i32,
    changes: &Vec<ContentChange>,
) -> (r: Result<(), StoreError>)
    requires
        old(state).wf(),
    ensures
        final(state).wf(),
        old(state)@.properties.contains_key(uri@) && !supported_language(
            old(state)@.properties[uri@]@.language_id,
        ) ==> r == Result::<(), StoreError>::Err(StoreError::UnsupportedLanguage),
        match r {
            Result::Ok(()) => (changes@.len() == 0 && state_unchanged(old(state)@, final(state)@))
                || (changes@.len() > 0 && old(state)@.properties.contains_key(uri@) && old(
                state,
            )@.documents.contains_key(uri@) && version as int > stored_version(old(state)@, uri@)
                && final(state)@.properties == old(state)@.properties && (exists|doc: Document|
                #[trigger] old(state)@.documents.insert(uri@, doc) == final(state)@.documents
                    && doc@.version == version as int && doc@.source_code == spec_apply_changes(
                    old(state)@.documents[uri@]@.source_code,
                    changes@,
                )) && indices_rebuilt(old(state)@, final(state)@, uri@)),
            Result::Err(e) => state_unchanged(old(state)@, final(state)@) && match e {
                StoreError::MissingDocument => !old(state)@.properties.contains_key(uri@) || !old(
                    state,
                )@.documents.contains_key(uri@),
                StoreError::UnsupportedLanguage => old(state)@.properties.contains_key(uri@),
                StoreError::StaleEdit => old(state)@.properties.contains_key(uri@) && version as int
                    <= stored_version(old(state)@, uri@),
                StoreError::ParseFailure => changes@.len() > 0 && old(
                    state,
                )@.properties.contains_key(uri@) && old(state)@.documents.contains_key(uri@)
                    && version as int > stored_version(old(state)@, uri@),
                _ => false,
            },
        },
{
    let language_id: String = match state.get_language_id(uri) {
        Option::Some(s) => s.to_owned(),
        Option::None => {
            return Result::Err(StoreError::MissingDocument);
        },
    };
    let mut parser = match get_parser(language_id.as_str()) {
        Option::Some(p) => p,
        Option::None => {
            return Result::Err(StoreError::UnsupportedLanguage);
        },
    };
    if version <= state.get_version(uri) {
        return Result::Err(StoreError::StaleEdit);
    }
    if changes.len() == 0 {
        return Result::Ok(());
    }
    let (mut buf, mut tree): (Vec<u8>, tree_sitter::Tree) = match state.get_document(uri) {
        Option::Some(d) => (copy_bytes(d.source_code()), tree_clone(d.tree())),
        Option::None => {
            return Result::Err(StoreError::MissingDocument);
        },
    };
    let ghost src0 = old(state)@.documents[uri@]@.source_code;
    let n: usize = changes.len();
    let mut i: usize = 0;
    proof {
        assert(changes@.take(0) =~= Seq::<ContentChange>::empty());
    }
    while i < n
        invariant
            0 <= i <= n == changes@.len(),
            buf@ == spec_buffer_before(src0, changes@, i as int),
        decreases n - i,
    {
        let e = translate_change(&mut buf, &changes[i]);
        let ie = input_edit_of(&e);
        tree_edit(&mut tree, &ie);
        proof {
            lemma_take_one_more(src0, changes@, i as int);
        }
        i = i + 1;
    }
    proof {
        assert(changes@.take(n as int) =~= changes@);
    }
    let new_tree = match parser_parse(&mut parser, buf.as_slice(), Option::Some(&tree)) {
        Option::Some(t) => t,
        Option::None => {
            return Result::Err(StoreError::ParseFailure);
        },
    };
    let doc = Document::new(new_tree, version, buf);
    let ghost dwit = doc;
    state.update_document(uri.to_owned(), doc);
    proof {
        assert(state@.documents == old(state)@.documents.insert(uri@, dwit));
    }
    let res = state.update_cache(assets, uri);
    proof {
        assert(res is Ok);
    }
    Result::Ok(())
}

/// Rebuilds a document's indices and diagnostics on save, without
/// touching its buffer, tree or version.
pub fn did_save(state: &mut GlobalState, assets: &QueryAssets, uri: &str) -> (r: Result<
    (),
    StoreError,
>)
    requires
        old(state).wf(),
    ensures
        final(state).wf(),
        final(state)@.documents == old(state)@.documents,
        final(state)@.properties == old(state)@.properties,
        match r {
            Result::Ok(()) => indices_rebuilt(old(state)@, final(state)@, uri@),
            Result::Err(e) => e == StoreError::MissingDocument && state_unchanged(
                old(state)@,
                final(state)@,
            ) && !(old(state)@.documents.contains_key(uri@) && old(
                state,
            )@.properties.contains_key(uri@)),
        },
{
    state.update_cache(assets, uri)
}

/// Closes a document: purges its buffer, tree, scopes, definitions and
/// diagnostics atomically.
pub fn did_close(state: &mut GlobalState, uri: &str)
    requires
        old(state).wf(),
    ensures
        final(state).wf(),
        final(state)@.documents == old(state)@.documents.remove(uri@),
        final(state)@.properties == old(state)@.properties.remove(uri@),
        final(state)@.parsed_info == old(state)@.parsed_info.remove(uri@),
        final(state)@.diagnostics == old(state)@.diagnostics.remove(uri@),
{
    state.clear(uri);
}

} // verus!
