use vinyl_catalog::discogs::DiscogsClient;
use vinyl_catalog::error::AppError;
use vinyl_catalog::query::{
    DiscogsSearchResponse, DiscogsSearchResult, DiscogsSearchResultOther,
    DiscogsSearchResultRelease,
};

#[test]
fn query_url_carries_query_and_token() {
    let client = DiscogsClient::new("tok");
    assert_eq!(
        client.query_url("dark side"),
        "https://api.discogs.com/database/search?q=dark side&token=tok"
    );
    assert_eq!(client.token().as_str(), "tok");
}

#[test]
fn release_url_carries_the_identity() {
    let client = DiscogsClient::new("t");
    assert_eq!(client.release_url(249504), "https://api.discogs.com/releases/249504");
    assert_eq!(client.release_url(-3), "https://api.discogs.com/releases/-3");
}

#[test]
fn get_releases_keeps_only_release_typed_results() {
    let response = DiscogsSearchResponse {
        results: vec![
            DiscogsSearchResult::DiscogsSearchResultRelease(DiscogsSearchResultRelease {
                id: 1,
                result_type: "release".to_string(),
                title: "Keep me".to_string(),
                format: vec!["Vinyl".to_string()],
            }),
            DiscogsSearchResult::DiscogsSearchResultRelease(DiscogsSearchResultRelease {
                id: 2,
                result_type: "master".to_string(),
                title: "Drop me".to_string(),
                format: vec![],
            }),
            DiscogsSearchResult::DiscogsSearchResultOther(DiscogsSearchResultOther {
                id: 3,
                type_: "artist".to_string(),
            }),
        ],
    };
    let releases = response.get_releases();
    assert_eq!(releases.len(), 1);
    assert_eq!(releases[0].id, 1);
    assert_eq!(releases[0].title, "Keep me");
}

#[test]
fn app_error_carries_its_text() {
    let e = AppError("QUIT".to_string());
    assert_eq!(e.0, "QUIT");
}
