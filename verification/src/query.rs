//! The shapes the remote catalog's search endpoint answers with, and
//! the filter that keeps only release-typed results.
use vstd::prelude::*;

use crate::record::duplicate_strings;

verus! {

/// A release-typed search result: the summary the result list shows.
#[derive(Debug, PartialEq)]
pub struct DiscogsSearchResultRelease {
    pub id: i64,
    pub result_type: String,
    pub title: String,
    pub format: Vec<String>,
}

/// A search result of any other type; only its identity and type tag
/// come back.
#[derive(Debug, PartialEq)]
pub struct DiscogsSearchResultOther {
    pub id: i64,
    pub type_: String,
}

/// One search result, as the endpoint answers it.
#[derive(Debug, PartialEq)]
pub enum DiscogsSearchResult {
    DiscogsSearchResultRelease(DiscogsSearchResultRelease),
    DiscogsSearchResultOther(DiscogsSearchResultOther),
}

/// A whole search answer: the results, in the endpoint's order.
#[derive(Debug, PartialEq)]
pub struct DiscogsSearchResponse {
    pub results: Vec<DiscogsSearchResult>,
}

#[verifier::ext_equal]
pub struct ReleaseV {
    pub id: int,
    pub result_type: Seq<char>,
    pub title: Seq<char>,
    pub format: Seq<Seq<char>>,
}

#[verifier::ext_equal]
pub struct OtherV {
    pub id: int,
    pub type_: Seq<char>,
}

#[verifier::ext_equal]
pub enum SearchResultV {
    Release(ReleaseV),
    Other(OtherV),
}

impl DeepView for DiscogsSearchResultRelease {
    type V = ReleaseV;

    open spec fn deep_view(&self) -> ReleaseV {
        ReleaseV {
            id: self.id as int,
            result_type: self.result_type@,
            title: self.title@,
            format: self.format.deep_view(),
        }
    }
}

impl DeepView for DiscogsSearchResultOther {
    type V = OtherV;

    open spec fn deep_view(&self) -> OtherV {
        OtherV { id: self.id as int, type_: self.type_@ }
    }
}

impl DeepView for DiscogsSearchResult {
    type V = SearchResultV;

    open spec fn deep_view(&self) -> SearchResultV {
        match self {
            DiscogsSearchResult::DiscogsSearchResultRelease(r) => SearchResultV::Release(
                r.deep_view(),
            ),
            DiscogsSearchResult::DiscogsSearchResultOther(o) => SearchResultV::Other(o.deep_view()),
        }
    }
}

/// The results that are releases with the type tag `"release"`, in
/// order; all else is dropped.
pub open spec fn releases_spec(rs: Seq<SearchResultV>) -> Seq<ReleaseV>
    decreases rs,
{
    if rs.len() == 0 {
        Seq::empty()
    } else {
        releases_spec(rs.drop_last()) + (match rs.last() {
            SearchResultV::Release(o) => if o.result_type == "release"@ {
                seq![o]
            } else {
                Seq::empty()
            },
            SearchResultV::Other(_) => Seq::empty(),
        })
    }
}

impl DiscogsSearchResultRelease {
    /// An element-wise copy whose view equals this one's.
    pub fn duplicate(&self) -> (r: DiscogsSearchResultRelease)
        ensures
            r.deep_view() == self.deep_view(),
    {
        let r = DiscogsSearchResultRelease {
            id: self.id,
            result_type: self.result_type.clone(),
            title: self.title.clone(),
            format: duplicate_strings(&self.format),
        };
        proof {
            assert(r.deep_view() =~= self.deep_view());
        }
        r
    }
}

impl DiscogsSearchResponse {
    /// The release-typed results, in the endpoint's order.
    pub fn get_releases(self) -> (r: Vec<DiscogsSearchResultRelease>)
        ensures
            r.deep_view() == releases_spec(self.results.deep_view()),
    {
        let ghost rs = self.results.deep_view();
        let release_tag = String::from_str("release");
        let mut out: Vec<DiscogsSearchResultRelease> = Vec::new();
        let mut i: usize = 0;
        let n = self.results.len();
        while i < n
            invariant
                i <= n,
                n == self.results@.len(),
                rs == self.results.deep_view(),
                rs.len() == n,
                release_tag@ == "release"@,
                out.deep_view() == releases_spec(rs.subrange(0, i as int)),
            decreases n - i,
        {
            proof {
                assert(rs[i as int] == self.results@[i as int].deep_view());
            }
            match &self.results[i] {
                DiscogsSearchResult::DiscogsSearchResultRelease(o) => {
                    if o.result_type == release_tag {
                        out.push(o.duplicate());
                    }
                },
                DiscogsSearchResult::DiscogsSearchResultOther(_) => {
                },
            }
            proof {
                let pre = rs.subrange(0, i as int);
                let post = rs.subrange(0, i + 1);
                assert(post.drop_last() =~= pre);
                assert(post.last() == rs[i as int]);
                assert(out.deep_view() =~= releases_spec(post));
            }
            i += 1;
        }
        proof {
            assert(rs.subrange(0, n as int) =~= rs);
        }
        out
    }
}

} // verus!
