use serde_json::Value;
use spotify_catalog::album::Album;
use spotify_catalog::auth::auth_client::AuthClient;
use spotify_catalog::error::{CatalogError, Field};
use spotify_catalog::song::Song;
use spotify_catalog::spotify::{
    tracks_request, GetRequest, Phase, SpotifyClient, Step, MAX_ADDRESS_PART,
    NEW_ALBUM_RELEASES_URL,
};

fn json(text: &str) -> Value {
    serde_json::from_str(text).unwrap()
}

fn client() -> SpotifyClient {
    SpotifyClient::new(AuthClient::new("client".to_string(), "secret".to_string()))
}

fn token() -> Value {
    json(r#"{"access_token":"abc123","token_type":"Bearer","expires_in":3600}"#)
}

fn one_album() -> Value {
    json(
        r#"{"albums":{"items":[
            {"id":"A1","name":"Test","total_tracks":2,"available_markets":["AR"]}
        ]}}"#,
    )
}

fn releases_request() -> Step {
    Step::Fetch(GetRequest {
        url: "https://api.spotify.com/v1/browse/new-releases".to_string(),
        authorization: "Bearer abc123".to_string(),
    })
}

fn tracks_of(id: &str, market: &str) -> Step {
    Step::Fetch(GetRequest {
        url: format!("https://api.spotify.com/v1/albums/{id}/tracks?id={id}&market={market}"),
        authorization: "Bearer abc123".to_string(),
    })
}

fn authenticated() -> SpotifyClient {
    let mut client = client();
    assert!(matches!(client.get_new_albums("AR"), Step::Authenticate(_)));
    assert_eq!(client.receive(200, &token()), releases_request());
    client
}

#[test]
fn a_new_client_is_at_rest_without_credential() {
    let mut client = client();
    assert_eq!(client.phase(), Phase::Idle);
    assert_eq!(client.get_auth_string(), None);
    assert_eq!(client.receive(200, &token()), Step::Idle);
    assert_eq!(client.fail(), Step::Idle);
    assert_eq!(client.get_auth_string(), None);
    assert_eq!(client.phase(), Phase::Idle);
}

#[test]
fn the_first_run_begins_with_the_credential_exchange() {
    let mut client = client();
    let step = client.get_new_albums("AR");
    let expected = AuthClient::new("client".to_string(), "secret".to_string()).token_request();
    assert_eq!(step, Step::Authenticate(expected));
    assert_eq!(client.phase(), Phase::AwaitingToken);
}

#[test]
fn the_credential_is_asked_for_once() {
    let mut client = authenticated();
    assert_eq!(client.get_auth_string(), Some("Bearer abc123".to_string()));
    assert_eq!(client.get_auth_string(), Some("Bearer abc123".to_string()));
    assert_eq!(client.phase(), Phase::AwaitingReleases);
    assert_eq!(client.get_new_albums("AR"), releases_request());
    assert_eq!(client.fail(), Step::Failed(CatalogError::NetworkFailure));
    assert_eq!(client.get_new_albums("US"), releases_request());
    assert_eq!(client.receive(200, &json("{}")), Step::Failed(CatalogError::DecodeFailure(Field::Items)));
    assert_eq!(client.get_new_albums("AR"), releases_request());
    assert_eq!(client.get_auth_string(), Some("Bearer abc123".to_string()));
}

#[test]
fn the_releases_are_asked_for_at_their_endpoint() {
    assert_eq!(NEW_ALBUM_RELEASES_URL, "https://api.spotify.com/v1/browse/new-releases");
    let mut client = client();
    client.get_new_albums("AR");
    let step = client.receive(200, &json(
        r#"{"access_token":"tok en","token_type":"Basic","expires_in":1}"#,
    ));
    assert_eq!(
        step,
        Step::Fetch(GetRequest {
            url: NEW_ALBUM_RELEASES_URL.to_string(),
            authorization: "Basic tok en".to_string(),
        })
    );
}

#[test]
fn one_album_with_two_songs_end_to_end() {
    let mut client = client();
    assert!(matches!(client.get_new_albums("AR"), Step::Authenticate(_)));
    assert_eq!(client.receive(200, &token()), releases_request());
    assert_eq!(client.phase(), Phase::AwaitingReleases);
    assert_eq!(client.receive(200, &one_album()), tracks_of("A1", "AR"));
    assert_eq!(client.phase(), Phase::AwaitingTracks);
    let done = client.receive(200, &json(
        r#"{"items":[{"id":"S1","name":"One"},{"id":"S2","name":"Two"}]}"#,
    ));
    assert_eq!(
        done,
        Step::Done(vec![Album {
            id: "A1".to_string(),
            total_tracks: 2,
            available_markets: vec!["AR".to_string()],
            name: "Test".to_string(),
            songs: vec![
                Song { id: "S1".to_string(), name: "One".to_string() },
                Song { id: "S2".to_string(), name: "Two".to_string() },
            ],
        }])
    );
    assert_eq!(client.phase(), Phase::Idle);
    assert_eq!(client.receive(200, &one_album()), Step::Idle);
}

#[test]
fn a_failed_tracks_call_fails_the_run() {
    let mut client = authenticated();
    assert_eq!(client.receive(200, &one_album()), tracks_of("A1", "AR"));
    assert_eq!(client.fail(), Step::Failed(CatalogError::NetworkFailure));
    assert_eq!(client.phase(), Phase::Idle);
    assert_eq!(client.receive(200, &json(r#"{"items":[]}"#)), Step::Idle);
}

#[test]
fn a_tracks_reply_that_does_not_decode_fails_the_run() {
    let mut client = authenticated();
    assert_eq!(client.receive(200, &one_album()), tracks_of("A1", "AR"));
    assert_eq!(
        client.receive(200, &json(r#"{"items":[{"id":"S1","name":"One"},{"id":"S2"}]}"#)),
        Step::Failed(CatalogError::DecodeFailure(Field::Name))
    );
    assert_eq!(client.phase(), Phase::Idle);
    assert_eq!(client.get_new_albums("AR"), releases_request());
    assert_eq!(client.receive(200, &json(r#"{"albums":{"items":[]}}"#)), Step::Done(vec![]));
}

#[test]
fn three_albums_are_filled_in_order() {
    let mut client = client();
    client.get_new_albums("US");
    assert_eq!(client.receive(200, &token()), releases_request());
    let page = json(
        r#"{"albums":{"items":[
            {"id":"A1","name":"First","total_tracks":1,"available_markets":["AR"]},
            {"id":"A2","name":"Second","total_tracks":0,"available_markets":[]},
            {"id":"A3","name":"Third","total_tracks":2,"available_markets":["US", 1]}
        ]}}"#,
    );
    assert_eq!(client.receive(200, &page), tracks_of("A1", "US"));
    assert_eq!(
        client.receive(200, &json(r#"{"items":[{"id":"S1","name":"One"}]}"#)),
        tracks_of("A2", "US")
    );
    assert_eq!(client.receive(200, &json(r#"{"items":[]}"#)), tracks_of("A3", "US"));
    let done = client.receive(200, &json(
        r#"{"items":[{"id":"S3","name":"Three"},{"id":"S2","name":"Two"}]}"#,
    ));
    let albums = match done {
        Step::Done(albums) => albums,
        other => panic!("the run is not done: {:?}", other),
    };
    let names: Vec<&str> = albums.iter().map(|album| album.name.as_str()).collect();
    assert_eq!(names, vec!["First", "Second", "Third"]);
    let songs: Vec<Vec<&str>> = albums
        .iter()
        .map(|album| album.songs.iter().map(|song| song.id.as_str()).collect())
        .collect();
    assert_eq!(songs, vec![vec!["S1"], vec![], vec!["S3", "S2"]]);
    assert_eq!(albums[2].available_markets, vec!["US".to_string()]);
}

#[test]
fn a_failed_exchange_is_an_authentication_failure() {
    let mut client = client();
    client.get_new_albums("AR");
    assert_eq!(client.fail(), Step::Failed(CatalogError::AuthenticationFailure(None)));
    assert_eq!(client.phase(), Phase::Idle);
    assert_eq!(client.get_auth_string(), None);
    assert!(matches!(client.get_new_albums("AR"), Step::Authenticate(_)));
    assert_eq!(
        client.receive(200, &json(r#"{"access_token":"abc123","expires_in":3600}"#)),
        Step::Failed(CatalogError::AuthenticationFailure(Some(Field::TokenType)))
    );
    assert_eq!(client.get_auth_string(), None);
    assert_eq!(client.phase(), Phase::Idle);
}

#[test]
fn a_failed_releases_call_is_a_network_failure() {
    let mut client = authenticated();
    assert_eq!(client.fail(), Step::Failed(CatalogError::NetworkFailure));
    assert_eq!(client.phase(), Phase::Idle);
}

#[test]
fn a_page_that_does_not_decode_fails_the_run() {
    let mut client = authenticated();
    let page = json(r#"{"albums":{"items":[{"id":"A1","name":"Test","available_markets":[]}]}}"#);
    assert_eq!(
        client.receive(200, &page),
        Step::Failed(CatalogError::DecodeFailure(Field::TotalTracks))
    );
    assert_eq!(client.phase(), Phase::Idle);
}

#[test]
fn a_page_without_albums_is_done_at_once() {
    let mut client = authenticated();
    assert_eq!(client.receive(200, &json(r#"{"albums":{"items":[]}}"#)), Step::Done(vec![]));
    assert_eq!(client.phase(), Phase::Idle);
}

#[test]
fn a_new_run_drops_the_run_under_way() {
    let mut client = authenticated();
    assert_eq!(client.receive(200, &one_album()), tracks_of("A1", "AR"));
    assert_eq!(client.get_new_albums("BR"), releases_request());
    assert_eq!(client.phase(), Phase::AwaitingReleases);
    assert_eq!(client.receive(200, &one_album()), tracks_of("A1", "BR"));
    let done = client.receive(200, &json(r#"{"items":[]}"#));
    match done {
        Step::Done(albums) => {
            assert_eq!(albums.len(), 1);
            assert!(albums[0].songs.is_empty());
        }
        other => panic!("the run is not done: {:?}", other),
    }
}

#[test]
fn the_address_of_a_listing_encodes_its_query() {
    assert_eq!(
        SpotifyClient::songs_by_album_url("A1"),
        "https://api.spotify.com/v1/albums/A1/tracks"
    );
    assert_eq!(SpotifyClient::songs_by_album_url(""), "https://api.spotify.com/v1/albums//tracks");
    let mut client = client();
    client.get_new_albums("A R&x");
    client.receive(200, &token());
    let page = json(
        r#"{"albums":{"items":[{"id":"a b","name":"Test","total_tracks":2,"available_markets":[]}]}}"#,
    );
    assert_eq!(
        client.receive(200, &page),
        Step::Fetch(GetRequest {
            url: "https://api.spotify.com/v1/albums/a%20b/tracks?id=a+b&market=A+R%26x".to_string(),
            authorization: "Bearer abc123".to_string(),
        })
    );
}

#[test]
fn an_address_that_was_not_made_fails_the_run() {
    assert_eq!(
        tracks_request(Err(url::ParseError::EmptyHost), "Bearer abc123".to_string()),
        Err(CatalogError::InvalidUrl)
    );
    assert_eq!(
        tracks_request(Ok("https://example.net/".to_string()), "Bearer abc123".to_string()),
        Ok(GetRequest {
            url: "https://example.net/".to_string(),
            authorization: "Bearer abc123".to_string(),
        })
    );
}

#[test]
fn an_exchange_that_did_not_succeed_grants_nothing() {
    for status in [199, 300, 400, 401, 500] {
        let mut client = client();
        assert!(matches!(client.get_new_albums("AR"), Step::Authenticate(_)));
        assert_eq!(
            client.receive(status, &token()),
            Step::Failed(CatalogError::AuthenticationFailure(None))
        );
        assert_eq!(client.phase(), Phase::Idle);
        assert_eq!(client.get_auth_string(), None);
        assert!(matches!(client.get_new_albums("AR"), Step::Authenticate(_)));
        assert_eq!(client.receive(204, &token()), releases_request());
    }
}

#[test]
fn a_catalog_reply_is_taken_by_its_body() {
    let mut client = authenticated();
    assert_eq!(client.receive(404, &one_album()), tracks_of("A1", "AR"));
    assert_eq!(
        client.receive(500, &json(r#"{"error":{"status":500}}"#)),
        Step::Failed(CatalogError::DecodeFailure(Field::Items))
    );
}

#[test]
fn a_body_that_is_no_document_fails_the_run() {
    let mut client = client();
    assert_eq!(client.receive_undecoded(200), Step::Idle);
    client.get_new_albums("AR");
    assert_eq!(
        client.receive_undecoded(200),
        Step::Failed(CatalogError::AuthenticationFailure(Some(Field::AccessToken)))
    );
    assert_eq!(client.phase(), Phase::Idle);
    client.get_new_albums("AR");
    assert_eq!(
        client.receive_undecoded(502),
        Step::Failed(CatalogError::AuthenticationFailure(None))
    );
    let mut client = authenticated();
    assert_eq!(
        client.receive_undecoded(200),
        Step::Failed(CatalogError::DecodeFailure(Field::Items))
    );
    assert_eq!(client.phase(), Phase::Idle);
    let mut client = authenticated();
    client.receive(200, &one_album());
    assert_eq!(
        client.receive_undecoded(503),
        Step::Failed(CatalogError::DecodeFailure(Field::Items))
    );
    assert_eq!(client.phase(), Phase::Idle);
    assert_eq!(client.get_auth_string(), Some("Bearer abc123".to_string()));
}

fn page_with_id(id: &str) -> Value {
    json(&format!(
        r#"{{"albums":{{"items":[{{"id":"{id}","name":"Test","total_tracks":2,"available_markets":[]}}]}}}}"#
    ))
}

#[test]
fn an_identifier_that_is_too_long_gives_no_address() {
    assert_eq!(MAX_ADDRESS_PART, 30_000_000);
    let mut client = authenticated();
    let id = "a".repeat(MAX_ADDRESS_PART + 1);
    assert_eq!(client.receive(200, &page_with_id(&id)), Step::Failed(CatalogError::InvalidUrl));
    assert_eq!(client.phase(), Phase::Idle);
}

#[test]
fn a_market_that_is_too_long_gives_no_address() {
    let mut client = client();
    let market = "é".repeat(MAX_ADDRESS_PART + 1);
    client.get_new_albums(&market);
    assert_eq!(client.receive(200, &token()), releases_request());
    assert_eq!(client.receive(200, &one_album()), Step::Failed(CatalogError::InvalidUrl));
    assert_eq!(client.phase(), Phase::Idle);
}

#[test]
fn the_longest_identifier_gives_an_address() {
    let mut client = authenticated();
    let id = "a".repeat(MAX_ADDRESS_PART);
    match client.receive(200, &page_with_id(&id)) {
        Step::Fetch(request) => {
            assert_eq!(request.url.len(), 2 * MAX_ADDRESS_PART + 55);
            assert!(request.url.starts_with("https://api.spotify.com/v1/albums/aaa"));
            assert!(request.url.ends_with("aaa&market=AR"));
        }
        other => panic!("no address was made: {:?}", matches!(other, Step::Failed(_))),
    }
    assert_eq!(client.phase(), Phase::AwaitingTracks);
}
