//! The query-asset provider: per-language pattern sources, injected by
//! the host rather than read from a fixed bundle, so deployments can
//! swap asset sources without touching the indexer.

use vstd::prelude::*;

use crate::strutil::str_eq;

verus! {

/// One pattern source: the language it belongs to, its kind (`locals`,
/// `highlights`, `children` or `indents`) and its text.
#[derive(Clone, Debug)]
pub struct QueryAsset {
    pub language_id: String,
    pub source_type: String,
    pub text: String,
}

/// The mathematical model of a [`QueryAsset`].
pub ghost struct QueryAssetView {
    pub language_id: Seq<char>,
    pub source_type: Seq<char>,
    pub text: Seq<char>,
}

impl View for QueryAsset {
    type V = QueryAssetView;

    open spec fn view(&self) -> QueryAssetView {
        QueryAssetView {
            language_id: self.language_id@,
            source_type: self.source_type@,
            text: self.text@,
        }
    }
}

/// A collection of pattern sources, looked up by language and kind.
#[derive(Clone, Debug)]
pub struct QueryAssets {
    pub assets: Vec<QueryAsset>,
}

impl View for QueryAssets {
    type V = Seq<QueryAssetView>;

    open spec fn view(&self) -> Seq<QueryAssetView> {
        self.assets@.map_values(|a: QueryAsset| a@)
    }
}

/// The text of the first asset for the given language and kind, if any.
pub open spec fn spec_query_source(
    assets: Seq<QueryAssetView>,
    language_id: Seq<char>,
    source_type: Seq<char>,
) -> Option<Seq<char>>
    decreases assets.len(),
{
    if assets.len() == 0 {
        Option::None
    } else if assets[0].language_id == language_id && assets[0].source_type == source_type {
        Option::Some(assets[0].text)
    } else {
        spec_query_source(assets.drop_first(), language_id, source_type)
    }
}

impl QueryAssets {
    /// An empty collection: every lookup degrades to `None`.
    pub fn new() -> (r: Self)
        ensures
            r@ == Seq::<QueryAssetView>::empty(),
    {
        QueryAssets { assets: Vec::new() }
    }

    /// Adds one pattern source at the end.
    pub fn add(&mut self, language_id: String, source_type: String, text: String)
        ensures
            final(self)@ == old(self)@.push(
                QueryAssetView {
                    language_id: language_id@,
                    source_type: source_type@,
                    text: text@,
                },
            ),
    {
        let asset = QueryAsset { language_id, source_type, text };
        proof {
            assert(self.assets@.push(asset).map_values(|a: QueryAsset| a@) =~= self.assets@
                .map_values(|a: QueryAsset| a@).push(asset@));
        }
        self.assets.push(asset);
    }
}

/// Returns the pattern source for a language and kind, or `None` when the
/// collection has no such asset (a missing asset is not fatal: dependent
/// features degrade to empty results).
pub fn get_query_source(assets: &QueryAssets, language_id: &str, source_type: &str) -> (r: Option<
    String,
>)
    ensures
        match r {
            Option::Some(text) => spec_query_source(assets@, language_id@, source_type@)
                == Option::Some(text@),
            Option::None => spec_query_source(assets@, language_id@, source_type@) is None,
        },
{
    let n: usize = assets.assets.len();
    let mut i: usize = 0;
    proof {
        assert(assets@.skip(0) =~= assets@);
    }
    while i < n
        invariant
            0 <= i <= n == assets.assets@.len(),
            spec_query_source(assets@, language_id@, source_type@) == spec_query_source(
                assets@.skip(i as int),
                language_id@,
                source_type@,
            ),
        decreases n - i,
    {
        let asset = &assets.assets[i];
        proof {
            assert(assets@.skip(i as int)[0] == assets.assets@[i as int]@);
            assert(assets@.skip(i as int).drop_first() =~= assets@.skip(i as int + 1));
        }
        if str_eq(asset.language_id.as_str(), language_id) && str_eq(
            asset.source_type.as_str(),
            source_type,
        ) {
            return Option::Some(asset.text.clone());
        }
        i = i + 1;
    }
    proof {
        assert(assets@.skip(n as int) =~= Seq::<QueryAssetView>::empty());
    }
    Option::None
}

} // verus!
