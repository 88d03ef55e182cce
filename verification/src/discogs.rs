//! The remote catalog client's verifiable half: the access token and
//! the exact request URLs. Sending the requests and decoding the
//! answers is plain I/O and lives with the program around the library.
use vstd::prelude::*;

use crate::json::{chars_to_string, dec_rep_int, push_i64};

verus! {

/// The remote catalog client: holds the caller's access token and
/// renders the URLs its two endpoints are reached under.
pub struct DiscogsClient {
    token: String,
}

impl View for DiscogsClient {
    type V = Seq<char>;

    closed spec fn view(&self) -> Seq<char> {
        self.token@
    }
}

/// The URL that searches the remote catalog for the query text.
pub open spec fn query_url_spec(query: Seq<char>, token: Seq<char>) -> Seq<char> {
    "https://api.discogs.com/database/search?q="@ + query + "&token="@ + token
}

/// The URL that fetches one release by its identity.
pub open spec fn release_url_spec(id: int) -> Seq<char> {
    "https://api.discogs.com/releases/"@ + dec_rep_int(id)
}

impl DiscogsClient {
    /// A client under the given access token.
    pub fn new(token: &str) -> (r: DiscogsClient)
        ensures
            r@ == token@,
    {
        DiscogsClient { token: token.to_owned() }
    }

    /// The search URL for the given query text.
    pub fn query_url(&self, query_: &str) -> (r: String)
        ensures
            r@ == query_url_spec(query_@, self@),
    {
        let mut url = String::from_str("https://api.discogs.com/database/search?q=");
        url.append(query_);
        url.append("&token=");
        url.append(self.token.as_str());
        proof {
            assert(url@ =~= query_url_spec(query_@, self@));
        }
        url
    }

    /// The fetch URL for the given release identity.
    pub fn release_url(&self, id: i64) -> (r: String)
        ensures
            r@ == release_url_spec(id as int),
    {
        let mut url = String::from_str("https://api.discogs.com/releases/");
        let mut digits: Vec<char> = Vec::new();
        push_i64(&mut digits, id);
        url.append(chars_to_string(digits).as_str());
        proof {
            assert(url@ =~= release_url_spec(id as int));
        }
        url
    }

    /// The access token, as handed to the program around the library
    /// when it sends a request.
    pub fn token(&self) -> (r: &String)
        ensures
            r@ == self@,
    {
        &self.token
    }
}

} // verus!
