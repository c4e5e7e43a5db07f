//! Keyword-list derivation: the language's own highlights pattern source
//! is parsed as a grammar document, and the literal tokens captured
//! under keyword-like capture names become the completion keyword list.

use vstd::prelude::*;

use crate::assets::{get_query_source, spec_query_source, QueryAssets};
use crate::engine::{meta_matches_of, run_meta_query, Capture, CaptureView};
use crate::index::{views_of_captures, views_of_matches};
use crate::strutil::{spec_trim_quotes, str_eq, trim_quotes};

verus! {

/// Whether a capture name marks a keyword-carrying pattern: the
/// keyword family, `repeat`, and `conditional`.
pub open spec fn is_keyword_tag(s: Seq<char>) -> bool {
    ||| s == "keyword"@
    ||| s == "keyword.operator"@
    ||| s == "keyword.return"@
    ||| s == "keyword.function"@
    ||| s == "repeat"@
    ||| s == "conditional"@
}

/// Whether a trimmed token is kept: longer than one character, so
/// punctuation noise is discarded.
pub open spec fn token_kept(t: Seq<char>) -> bool {
    t.len() > 1
}

/// The kept tokens of one match group's leading captures, trimmed of
/// their surrounding quotes.
pub open spec fn tokens_of_caps(caps: Seq<CaptureView>) -> Seq<Seq<char>>
    decreases caps.len(),
{
    if caps.len() == 0 {
        Seq::empty()
    } else if token_kept(spec_trim_quotes(caps.last().text)) {
        tokens_of_caps(caps.drop_last()).push(spec_trim_quotes(caps.last().text))
    } else {
        tokens_of_caps(caps.drop_last())
    }
}

/// The tokens one match group contributes: those of all captures before
/// the last, when the last capture's text is a keyword-like name.
pub open spec fn group_tokens(g: Seq<CaptureView>) -> Seq<Seq<char>> {
    if g.len() > 0 && is_keyword_tag(g.last().text) {
        tokens_of_caps(g.drop_last())
    } else {
        Seq::empty()
    }
}

/// The tokens of all match groups, in match order.
pub open spec fn tokens_of_groups(mm: Seq<Seq<CaptureView>>) -> Seq<Seq<char>>
    decreases mm.len(),
{
    if mm.len() == 0 {
        Seq::empty()
    } else {
        tokens_of_groups(mm.drop_last()) + group_tokens(mm.last())
    }
}

/// The tokens with later duplicates removed, first occurrences kept in
/// order.
pub open spec fn dedup_tokens(s: Seq<Seq<char>>) -> Seq<Seq<char>>
    decreases s.len(),
{
    if s.len() == 0 {
        Seq::empty()
    } else {
        let d = dedup_tokens(s.drop_last());
        if d.contains(s.last()) {
            d
        } else {
            d.push(s.last())
        }
    }
}

/// The deduplicated keyword list of the meta-query match groups.
pub open spec fn keywords_of(mm: Seq<Seq<CaptureView>>) -> Seq<Seq<char>> {
    dedup_tokens(tokens_of_groups(mm))
}

/// The views of a string vector.
pub open spec fn views_of_strings(s: Seq<String>) -> Seq<Seq<char>> {
    s.map_values(|x: String| x@)
}

/// Whether the vector already holds the string.
fn contains_str(v: &Vec<String>, s: &str) -> (r: bool)
    ensures
        r == views_of_strings(v@).contains(s@),
{
    let n: usize = v.len();
    let mut i: usize = 0;
    while i < n
        invariant
            0 <= i <= n == v@.len(),
            forall|k: int| 0 <= k < i ==> views_of_strings(v@)[k] != s@,
        decreases n - i,
    {
        if str_eq(v[i].as_str(), s) {
            proof {
                assert(views_of_strings(v@)[i as int] == s@);
            }
            return true;
        }
        i = i + 1;
    }
    proof {
        if views_of_strings(v@).contains(s@) {
            let k = choose|k: int|
                0 <= k < views_of_strings(v@).len() && views_of_strings(v@)[k] == s@;
            assert(false);
        }
    }
    false
}

/// Extracts the deduplicated keyword list from the meta-query match
/// groups: for each group whose last capture carries a keyword-like
/// name, the other captures' texts, trimmed of quotes, keep every token
/// longer than one character, first occurrence first.
pub fn extract_keywords(matches: &Vec<Vec<Capture>>) -> (r: Vec<String>)
    ensures
        views_of_strings(r@) == keywords_of(views_of_matches(matches@)),
{
    let mut r: Vec<String> = Vec::new();
    let ghost mmv = views_of_matches(matches@);
    let n: usize = matches.len();
    let mut i: usize = 0;
    proof {
        assert(mmv.take(0) =~= Seq::<Seq<CaptureView>>::empty());
        assert(views_of_strings(r@) =~= dedup_tokens(tokens_of_groups(mmv.take(0))));
    }
    while i < n
        invariant
            0 <= i <= n == matches@.len(),
            mmv == views_of_matches(matches@),
            views_of_strings(r@) == dedup_tokens(tokens_of_groups(mmv.take(i as int))),
        decreases n - i,
    {
        let group = &matches[i];
        let ghost gv = views_of_captures(group@);
        let m: usize = group.len();
        let qualifying: bool = if m == 0 {
            false
        } else {
            let last_text = group[m - 1].text.as_str();
            str_eq(last_text, "keyword") || str_eq(last_text, "keyword.operator") || str_eq(
                last_text,
                "keyword.return",
            ) || str_eq(last_text, "keyword.function") || str_eq(last_text, "repeat") || str_eq(
                last_text,
                "conditional",
            )
        };
        proof {
            if m > 0 {
                assert(gv.last() == group@[m - 1]@);
            }
            assert(qualifying == (gv.len() > 0 && is_keyword_tag(gv.last().text)));
        }
        if qualifying {
            let mut j: usize = 0;
            proof {
                assert(gv.drop_last().take(0) =~= Seq::<CaptureView>::empty());
                assert(tokens_of_caps(gv.drop_last().take(0)) =~= Seq::<Seq<char>>::empty());
                assert(tokens_of_groups(mmv.take(i as int)) + Seq::<Seq<char>>::empty()
                    =~= tokens_of_groups(mmv.take(i as int)));
            }
            while j < m - 1
                invariant
                    0 <= j <= m - 1,
                    m == group@.len(),
                    m >= 1,
                    gv == views_of_captures(group@),
                    mmv == views_of_matches(matches@),
                    0 <= i < n == matches@.len(),
                    views_of_strings(r@) == dedup_tokens(
                        tokens_of_groups(mmv.take(i as int)) + tokens_of_caps(
                            gv.drop_last().take(j as int),
                        ),
                    ),
                decreases m - 1 - j,
            {
                let cap = &group[j];
                let trimmed: &str = trim_quotes(cap.text.as_str());
                let ghost toks = tokens_of_groups(mmv.take(i as int)) + tokens_of_caps(
                    gv.drop_last().take(j as int),
                );
                proof {
                    assert(gv.drop_last().take(j as int + 1).drop_last() =~= gv.drop_last().take(
                        j as int,
                    ));
                    assert(gv.drop_last().take(j as int + 1).last() == gv.drop_last()[j as int]);
                    assert(gv.drop_last()[j as int] == group@[j as int]@);
                }
                if trimmed.unicode_len() > 1 {
                    let keep: bool = !contains_str(&r, trimmed);
                    proof {
                        let t = spec_trim_quotes(group@[j as int]@.text);
                        assert(tokens_of_caps(gv.drop_last().take(j as int + 1)) =~= tokens_of_caps(
                            gv.drop_last().take(j as int),
                        ).push(t));
                        assert((toks.push(t)).drop_last() =~= toks);
                        assert(tokens_of_groups(mmv.take(i as int)) + tokens_of_caps(
                            gv.drop_last().take(j as int + 1),
                        ) =~= toks.push(t));
                    }
                    if keep {
                        let owned: String = trimmed.to_owned();
                        proof {
                            assert(views_of_strings(r@.push(owned)) =~= views_of_strings(r@).push(
                                owned@,
                            ));
                        }
                        r.push(owned);
                    }
                } else {
                    proof {
                        let t = spec_trim_quotes(group@[j as int]@.text);
                        assert(tokens_of_caps(gv.drop_last().take(j as int + 1)) =~= tokens_of_caps(
                            gv.drop_last().take(j as int),
                        ));
                        assert(tokens_of_groups(mmv.take(i as int)) + tokens_of_caps(
                            gv.drop_last().take(j as int + 1),
                        ) =~= toks);
                    }
                }
                j = j + 1;
            }
            proof {
                assert(gv.drop_last().take(m as int - 1) =~= gv.drop_last());
                assert(group_tokens(gv) == tokens_of_caps(gv.drop_last()));
            }
        } else {
            proof {
                assert(tokens_of_groups(mmv.take(i as int)) + group_tokens(gv) =~= tokens_of_groups(
                    mmv.take(i as int),
                ));
            }
        }
        proof {
            assert(mmv.take(i as int + 1).drop_last() =~= mmv.take(i as int));
            assert(mmv.take(i as int + 1).last() == gv);
        }
        i = i + 1;
    }
    proof {
        assert(mmv.take(n as int) =~= mmv);
    }
    r
}

/// The fixed meta-query run over a highlights pattern source: literal
/// tokens captured beside a keyword-like capture name.
pub open spec fn keyword_meta_query() -> Seq<char> {
    "(anonymous_node
  name: (identifier) @node_name
  (capture
    name: (identifier) @capture_name
  )
)
(list
  (anonymous_node
    name: (identifier)
  )+ @node_name
  (capture
    name: (identifier) @capture_name
  )
)"@
}

/// Derives the keyword list for a language: the language's highlights
/// pattern source is parsed with the pattern grammar, the meta-query is
/// run over it, and the captured literal tokens are extracted. `None`
/// when the language has no highlights asset or the engine refuses the
/// parse or a query; a returned list is exactly the extraction of the
/// meta-query's match groups over that asset.
pub fn build_keywords_cache(assets: &QueryAssets, language_id: &str) -> (r: Option<Vec<String>>)
    ensures
        spec_query_source(assets@, language_id@, "highlights"@) is None ==> r is None,
        r is Some ==> spec_query_source(assets@, language_id@, "highlights"@) is Some
            && views_of_strings(r->Some_0@) == keywords_of(
            meta_matches_of(
                spec_query_source(assets@, language_id@, "highlights"@)->Some_0,
                keyword_meta_query(),
            ),
        ),
{
    let source: String = match get_query_source(assets, language_id, "highlights") {
        Option::Some(s) => s,
        Option::None => {
            return Option::None;
        },
    };
    let meta: &str = "(anonymous_node
  name: (identifier) @node_name
  (capture
    name: (identifier) @capture_name
  )
)
(list
  (anonymous_node
    name: (identifier)
  )+ @node_name
  (capture
    name: (identifier) @capture_name
  )
)";
    proof {
        assert(meta@ == keyword_meta_query());
    }
    let mm: Vec<Vec<Capture>> = match run_meta_query(source.as_str(), meta) {
        Option::Some(mm) => mm,
        Option::None => {
            return Option::None;
        },
    };
    let kw = extract_keywords(&mm);
    proof {
        assert(views_of_strings(kw@) == keywords_of(views_of_matches(mm@)));
    }
    Option::Some(kw)
}

} // verus!
