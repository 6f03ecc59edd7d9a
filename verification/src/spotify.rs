//! One synchronisation run: the credential exchange where no credential is
//! held yet, the page of new releases, then the track listing of each album
//! in turn. The client says which request comes next; the caller sends it
//! and hands back the reply.

use vstd::prelude::*;
use vstd::string::{StrSliceExecFns, StringExecFns};
use crate::album::{
    albums_view, lemma_albums_keep_order, parse_albums, spec_albums, Album, AlbumView,
};
use crate::auth::auth_client::{spec_token_request, AuthClient, TokenRequest, TokenRequestView};
use crate::auth::auth_data::{
    is_success, spec_credential, spec_grant, spec_is_success, AuthData, AuthDataView,
};
use crate::error::{CatalogError, Field};
use crate::json::{json_tree, JsonTree};
use crate::song::{parse_songs, spec_songs};

verus! {

/// The endpoint that lists the new releases.
pub const NEW_ALBUM_RELEASES_URL: &'static str = "https://api.spotify.com/v1/browse/new-releases";

/// A GET request for the caller to send, with `authorization` as the value
/// of its `Authorization` header.
#[derive(Clone, Debug, PartialEq, Eq)]
pub struct GetRequest {
    pub url: String,
    pub authorization: String,
}

/// What a `GetRequest` holds.
pub struct GetRequestView {
    pub url: Seq<char>,
    pub authorization: Seq<char>,
}

impl View for GetRequest {
    type V = GetRequestView;

    open spec fn view(&self) -> GetRequestView {
        GetRequestView { url: self.url@, authorization: self.authorization@ }
    }
}

/// What the caller does next.
#[derive(Clone, Debug, PartialEq, Eq)]
pub enum Step {
    /// No run is under way: there is nothing to do.
    Idle,
    /// Send the credential exchange and hand back its reply.
    Authenticate(TokenRequest),
    /// Send the GET request and hand back its reply.
    Fetch(GetRequest),
    /// The run is over: these are the albums, each with its songs.
    Done(Vec<Album>),
    /// The run is over and gave no albums.
    Failed(CatalogError),
}

/// What a `Step` holds.
pub enum StepView {
    Idle,
    Authenticate(TokenRequestView),
    Fetch(GetRequestView),
    Done(Seq<AlbumView>),
    Failed(CatalogError),
}

impl View for Step {
    type V = StepView;

    open spec fn view(&self) -> StepView {
        match self {
            Step::Idle => StepView::Idle,
            Step::Authenticate(request) => StepView::Authenticate(request@),
            Step::Fetch(request) => StepView::Fetch(request@),
            Step::Done(albums) => StepView::Done(albums_view(albums@)),
            Step::Failed(failure) => StepView::Failed(*failure),
        }
    }
}

/// Which reply a client waits for.
#[derive(Clone, Copy, Debug, PartialEq, Eq, Structural)]
pub enum Phase {
    Idle,
    AwaitingToken,
    AwaitingReleases,
    AwaitingTracks,
}

/// `url::ParseError`, the reason for which an address was not accepted.
#[verifier::external_type_specification]
#[verifier::external_body]
pub struct ExParseError(url::ParseError);

/// The address that `Url::parse_with_params` makes of a base address and
/// two query pairs, as text; `None` where it accepts no such base.
pub uninterp spec fn url_with_query(
    base: Seq<char>,
    first_key: Seq<char>,
    first_value: Seq<char>,
    second_key: Seq<char>,
    second_value: Seq<char>,
) -> Option<Seq<char>>;

/// The most characters that the base address and the two query pairs may
/// have together. An address holds its positions in 32 bits; with at most
/// four bytes to a character and three bytes written for one that is
/// encoded, texts within this limit stay far below what 32 bits count.
pub const MAX_ADDRESS_TEXT: usize = 100_000_000;

/// The most characters that an album's identifier, and a market code, may
/// have for the address of a track listing to be made of them.
pub const MAX_ADDRESS_PART: usize = 30_000_000;

/// `Url::parse_with_params`, with the address it gives written out by
/// `to_string`: it parses `base` and appends the two pairs to its query.
/// The result is a function of the five strings alone. The call is made
/// only on texts within `MAX_ADDRESS_TEXT`: on an address that 32 bits
/// cannot index, appending to the query panics.
#[verifier::external_body]
pub(crate) fn url_with_params(base: &str, first: (&str, &str), second: (&str, &str)) -> (url:
    Result<String, url::ParseError>)
    requires
        base@.len() + first.0@.len() + first.1@.len() + second.0@.len() + second.1@.len()
            <= MAX_ADDRESS_TEXT,
    ensures
        match url_with_query(base@, first.0@, first.1@, second.0@, second.1@) {
            Some(address) => url is Ok && url->Ok_0@ == address,
            None => url is Err,
        },
{
    match reqwest::Url::parse_with_params(base, [first, second]) {
        Ok(url) => Ok(url.to_string()),
        Err(error) => Err(error),
    }
}

/// The address of an album's track listing, before its query.
pub open spec fn spec_songs_by_album_url(id: Seq<char>) -> Seq<char> {
    "https://api.spotify.com/v1/albums/"@ + id + "/tracks"@
}

/// Whether an album's identifier and a market code are short enough for an
/// address to be made of them.
pub open spec fn spec_address_fits(id: Seq<char>, market: Seq<char>) -> bool {
    id.len() <= MAX_ADDRESS_PART && market.len() <= MAX_ADDRESS_PART
}

/// The address of an album's track listing for a market, with the album's
/// identifier and the market code as its query. There is none where the
/// identifier or the market code is too long.
pub open spec fn spec_tracks_url(id: Seq<char>, market: Seq<char>) -> Option<Seq<char>> {
    if spec_address_fits(id, market) {
        url_with_query(spec_songs_by_album_url(id), "id"@, id, "market"@, market)
    } else {
        None
    }
}

/// What a `SpotifyClient` holds.
pub struct ClientView {
    pub client_id: Seq<char>,
    pub client_secret: Seq<char>,
    /// The credential, once it has been granted.
    pub credential: Option<AuthDataView>,
    pub phase: Phase,
    /// The market of the run.
    pub market: Seq<char>,
    /// The albums of the run, in the order of the new releases.
    pub albums: Seq<AlbumView>,
    /// How many of the albums have their songs.
    pub next: int,
}

impl ClientView {
    /// A credential is awaited only while none is held, any other reply only
    /// once one is held; a track listing is awaited for an album of the run.
    pub open spec fn wf(self) -> bool {
        &&& self.client_id.len() > 0
        &&& self.client_secret.len() > 0
        &&& self.phase == Phase::AwaitingToken ==> self.credential is None
        &&& self.phase == Phase::AwaitingReleases ==> self.credential is Some
        &&& self.phase == Phase::AwaitingTracks ==> self.credential is Some && 0 <= self.next
            < self.albums.len()
    }

    /// The client at rest: it keeps its credential and its market, and
    /// holds no albums.
    pub open spec fn idle(self) -> ClientView {
        ClientView { phase: Phase::Idle, albums: Seq::empty(), next: 0, ..self }
    }

    /// The value of the `Authorization` header, once a credential is held.
    pub open spec fn auth_string(self) -> Option<Seq<char>> {
        match self.credential {
            Some(credential) => Some(credential.authorization()),
            None => None,
        }
    }

    /// The request for the new releases.
    pub open spec fn releases_request(self) -> GetRequestView {
        GetRequestView {
            url: NEW_ALBUM_RELEASES_URL@,
            authorization: self.credential->Some_0.authorization(),
        }
    }

    /// A run for `market` begins, whatever was under way: with the
    /// credential exchange where no credential is held, else with the new
    /// releases.
    pub open spec fn begin(self, market: Seq<char>) -> (ClientView, StepView) {
        let fresh = ClientView { market, ..self.idle() };
        if self.credential is None {
            (
                ClientView { phase: Phase::AwaitingToken, ..fresh },
                StepView::Authenticate(spec_token_request(self.client_id, self.client_secret)),
            )
        } else {
            (
                ClientView { phase: Phase::AwaitingReleases, ..fresh },
                StepView::Fetch(self.releases_request()),
            )
        }
    }

    /// The first `next` albums have their songs: the run is done where that
    /// is all of them, else the track listing of the next album is asked
    /// for. Where no credential is held, or no address can be made for the
    /// listing (the identifier or the market code is too long, or the
    /// address is not accepted), the run fails.
    pub open spec fn fill(self) -> (ClientView, StepView) {
        if self.next >= self.albums.len() {
            (self.idle(), StepView::Done(self.albums))
        } else {
            match self.auth_string() {
                None => (
                    self.idle(),
                    StepView::Failed(CatalogError::AuthenticationFailure(None)),
                ),
                Some(authorization) => match spec_tracks_url(
                    self.albums[self.next].id,
                    self.market,
                ) {
                    None => (self.idle(), StepView::Failed(CatalogError::InvalidUrl)),
                    Some(url) => (
                        ClientView { phase: Phase::AwaitingTracks, ..self },
                        StepView::Fetch(GetRequestView { url, authorization }),
                    ),
                },
            }
        }
    }

    /// The reply to the request under way has come, with `status` and a
    /// body that holds `reply`. The status decides only for the credential
    /// exchange; a catalog reply is taken by its body.
    pub open spec fn receive(self, status: u16, reply: JsonTree) -> (ClientView, StepView) {
        match self.phase {
            Phase::Idle => (self, StepView::Idle),
            Phase::AwaitingToken => match spec_grant(status, reply) {
                Err(failure) => (self.idle(), StepView::Failed(failure)),
                Ok(credential) => {
                    let granted = ClientView {
                        credential: Some(credential),
                        phase: Phase::AwaitingReleases,
                        ..self.idle()
                    };
                    (granted, StepView::Fetch(granted.releases_request()))
                },
            },
            Phase::AwaitingReleases => match spec_albums(reply) {
                Err(missing) => (
                    self.idle(),
                    StepView::Failed(CatalogError::DecodeFailure(missing)),
                ),
                Ok(albums) => ClientView { albums, next: 0, ..self }.fill(),
            },
            Phase::AwaitingTracks => match spec_songs(reply) {
                Err(missing) => (
                    self.idle(),
                    StepView::Failed(CatalogError::DecodeFailure(missing)),
                ),
                Ok(songs) => ClientView {
                    albums: self.albums.update(
                        self.next,
                        self.albums[self.next].with_songs(songs),
                    ),
                    next: self.next + 1,
                    ..self
                }.fill(),
            },
        }
    }

    /// The request under way has failed in transport.
    pub open spec fn fail(self) -> (ClientView, StepView) {
        match self.phase {
            Phase::Idle => (self, StepView::Idle),
            Phase::AwaitingToken => (
                self.idle(),
                StepView::Failed(CatalogError::AuthenticationFailure(None)),
            ),
            _ => (self.idle(), StepView::Failed(CatalogError::NetworkFailure)),
        }
    }
}

/// What happens to a client.
pub enum Event {
    /// A run for a market is asked for.
    Begin(Seq<char>),
    /// The reply to the request under way has come, with its status and
    /// what its body holds.
    Reply(u16, JsonTree),
    /// The request under way has failed in transport.
    Failure,
}

impl ClientView {
    /// The client after an event, and what the caller does next.
    pub open spec fn step(self, event: Event) -> (ClientView, StepView) {
        match event {
            Event::Begin(market) => self.begin(market),
            Event::Reply(status, reply) => self.receive(status, reply),
            Event::Failure => self.fail(),
        }
    }

    /// The client after a sequence of events.
    pub open spec fn run(self, events: Seq<Event>) -> ClientView
        decreases events.len(),
    {
        if events.len() == 0 {
            self
        } else {
            self.run(events.drop_last()).step(events.last()).0
        }
    }

    /// How often a sequence of events has the credential exchange sent.
    pub open spec fn exchanges(self, events: Seq<Event>) -> nat
        decreases events.len(),
    {
        if events.len() == 0 {
            0
        } else {
            let before = self.exchanges(events.drop_last());
            if self.run(events.drop_last()).step(events.last()).1 is Authenticate {
                before + 1
            } else {
                before
            }
        }
    }
}

/// Every event leaves a well-formed client well formed.
pub proof fn lemma_step_keeps_wf(client: ClientView, event: Event)
    requires
        client.wf(),
    ensures
        client.step(event).0.wf(),
{
}

/// Only the beginning of a run by a client without credential has the
/// credential exchange sent. An event changes the credential only where
/// the reply of that exchange grants one, and a credential that is held is
/// kept.
pub proof fn lemma_step_keeps_credential(client: ClientView, event: Event)
    requires
        client.wf(),
    ensures
        client.step(event).1 is Authenticate <==> event is Begin && client.credential is None,
        client.credential is Some ==> client.step(event).0.credential == client.credential,
        client.step(event).0.credential != client.credential ==> client.phase
            == Phase::AwaitingToken && event is Reply,
{
}

/// A client that holds a credential never has the credential exchange sent
/// again, whatever happens to it, and keeps the credential it holds.
pub proof fn lemma_credential_asked_once(client: ClientView, events: Seq<Event>)
    requires
        client.wf(),
        client.credential is Some,
    ensures
        client.exchanges(events) == 0,
        client.run(events).credential == client.credential,
        client.run(events).wf(),
    decreases events.len(),
{
    if events.len() > 0 {
        lemma_credential_asked_once(client, events.drop_last());
        lemma_step_keeps_wf(client.run(events.drop_last()), events.last());
        lemma_step_keeps_credential(client.run(events.drop_last()), events.last());
    }
}

/// Every GET request carries the credential that the client holds from
/// then on.
pub proof fn lemma_requests_carry_credential(client: ClientView, event: Event)
    requires
        client.wf(),
    ensures
        client.step(event).1 matches StepView::Fetch(request) ==> client.step(
            event,
        ).0.auth_string() == Some(request.authorization),
{
}

/// A run that fails hands out no album: the client is at rest and holds
/// none. A run that is done hands out every album of the run, each with its
/// songs, and the client is at rest.
pub proof fn lemma_failure_hands_out_nothing(client: ClientView, event: Event)
    requires
        client.wf(),
    ensures
        client.step(event).1 is Failed ==> client.step(event).0 == client.idle(),
        client.step(event).1 matches StepView::Done(albums) ==> client.step(event).0
            == client.idle() && event is Reply && (client.phase == Phase::AwaitingTracks ==> {
            &&& client.next + 1 == client.albums.len()
            &&& albums.len() == client.albums.len()
            &&& forall|i: int| 0 <= i < client.next ==> albums[i] == client.albums[i]
            &&& spec_songs(event->Reply_1) matches Ok(songs) && albums[client.next]
                == client.albums[client.next].with_songs(songs)
        }),
{
}

/// The track listing of an album changes nothing but the songs of that
/// album: the albums of the run stay as many and in their order.
pub proof fn lemma_enrichment_keeps_order(client: ClientView, status: u16, reply: JsonTree)
    requires
        client.wf(),
        client.phase == Phase::AwaitingTracks,
        client.receive(status, reply).1 is Fetch,
    ensures
        client.receive(status, reply).0.albums.len() == client.albums.len(),
        client.receive(status, reply).0.next == client.next + 1,
        forall|i: int|
            0 <= i < client.albums.len() && i != client.next ==> client.receive(
                status,
                reply,
            ).0.albums[i] == client.albums[i],
        spec_songs(reply) matches Ok(songs) && client.receive(status, reply).0.albums[client.next]
            == client.albums[client.next].with_songs(songs),
{
}

impl ClientView {
    /// What the caller is told after the last of the events.
    pub open spec fn last_step(self, events: Seq<Event>) -> StepView
        recommends
            events.len() > 0,
    {
        self.run(events.drop_last()).step(events.last()).1
    }
}

/// The events of a run that meets no failure: the run begins, the
/// credential is granted, the page of new releases comes, then one track
/// listing after the other.
pub open spec fn whole_run(
    market: Seq<char>,
    status: u16,
    token: JsonTree,
    page: JsonTree,
    listings: Seq<JsonTree>,
) -> Seq<Event> {
    seq![Event::Begin(market), Event::Reply(status, token), Event::Reply(status, page)]
        + listings.map_values(|listing: JsonTree| Event::Reply(status, listing))
}

/// Whether the replies of a run all decode: the status is a success, the
/// first reply grants a credential, the page gives as many albums as there
/// are listings, every listing gives songs, and an address can be made for
/// every album.
pub open spec fn spec_run_decodes(
    market: Seq<char>,
    status: u16,
    token: JsonTree,
    page: JsonTree,
    listings: Seq<JsonTree>,
) -> bool {
    &&& spec_is_success(status)
    &&& spec_credential(token) is Ok
    &&& spec_albums(page) is Ok
    &&& spec_albums(page)->Ok_0.len() == listings.len()
    &&& forall|i: int| 0 <= i < listings.len() ==> (#[trigger] spec_songs(listings[i])) is Ok
    &&& forall|i: int|
        0 <= i < listings.len() ==> spec_tracks_url(
            (#[trigger] spec_albums(page)->Ok_0[i]).id,
            market,
        ) is Some
}

/// The albums, the first `filled` of them with the songs of their listings
/// after the songs they had.
pub open spec fn spec_enriched(albums: Seq<AlbumView>, listings: Seq<JsonTree>, filled: int) -> Seq<
    AlbumView,
> {
    Seq::new(
        albums.len(),
        |i: int|
            if i < filled {
                albums[i].with_songs(spec_songs(listings[i])->Ok_0)
            } else {
                albums[i]
            },
    )
}

/// After the credential was granted, a client without one waits for the
/// new releases.
proof fn lemma_run_opening(client: ClientView, market: Seq<char>, status: u16, token: JsonTree)
    requires
        client.wf(),
        client.credential is None,
        spec_is_success(status),
        spec_credential(token) is Ok,
    ensures
        client.run(seq![Event::Begin(market), Event::Reply(status, token)]) == (ClientView {
            credential: Some(spec_credential(token)->Ok_0),
            phase: Phase::AwaitingReleases,
            market,
            albums: Seq::empty(),
            next: 0,
            ..client
        }),
{
    let first = Event::Begin(market);
    let second = Event::Reply(status, token);
    assert(seq![first, second].drop_last() =~= seq![first]);
    assert(seq![first].drop_last() =~= Seq::<Event>::empty());
    assert(client.run(Seq::<Event>::empty()) == client);
    assert(client.run(seq![first]) == client.begin(market).0);
    assert(client.run(seq![first, second]) == client.begin(market).0.receive(status, token).0);
}

/// After the page and the first `filled` listings, the client waits for the
/// next listing, and the albums before it have their songs.
proof fn lemma_run_prefix(
    client: ClientView,
    market: Seq<char>,
    status: u16,
    token: JsonTree,
    page: JsonTree,
    listings: Seq<JsonTree>,
    filled: int,
)
    requires
        client.wf(),
        client.credential is None,
        spec_run_decodes(market, status, token, page, listings),
        0 <= filled < listings.len(),
    ensures
        client.run(whole_run(market, status, token, page, listings.take(filled))) == (ClientView {
            credential: Some(spec_credential(token)->Ok_0),
            phase: Phase::AwaitingTracks,
            market,
            albums: spec_enriched(spec_albums(page)->Ok_0, listings, filled),
            next: filled,
            ..client
        }),
    decreases filled,
{
    let albums = spec_albums(page)->Ok_0;
    let events = whole_run(market, status, token, page, listings.take(filled));
    if filled == 0 {
        lemma_run_opening(client, market, status, token);
        assert(events.drop_last() =~= seq![Event::Begin(market), Event::Reply(status, token)]);
        assert(events.last() == Event::Reply(status, page));
        assert(albums[0] == albums[0]);
        assert(spec_enriched(albums, listings, 0) =~= albums);
    } else {
        lemma_run_prefix(client, market, status, token, page, listings, filled - 1);
        let before = whole_run(market, status, token, page, listings.take(filled - 1));
        assert(events.drop_last() =~= before);
        assert(events.last() == Event::Reply(status, listings[filled - 1]));
        assert(spec_songs(listings[filled - 1]) is Ok);
        let enriched = spec_enriched(albums, listings, filled - 1);
        assert(albums[filled] == enriched[filled]);
        assert(enriched.update(
            filled - 1,
            enriched[filled - 1].with_songs(spec_songs(listings[filled - 1])->Ok_0),
        ) =~= spec_enriched(albums, listings, filled));
    }
}

/// A run whose replies all decode ends with the catalog: a client without
/// credential that begins a run, is granted a credential, is given a page
/// of albums and then the listing of each album in turn, is done after the
/// last listing. It hands out the albums of the page in their order, each
/// with the songs of its own listing in the listing's order, and is at rest.
pub proof fn lemma_run_hands_out_the_catalog(
    client: ClientView,
    market: Seq<char>,
    status: u16,
    token: JsonTree,
    page: JsonTree,
    listings: Seq<JsonTree>,
)
    requires
        client.wf(),
        client.credential is None,
        spec_run_decodes(market, status, token, page, listings),
    ensures
        ({
            let albums = spec_albums(page)->Ok_0;
            let events = whole_run(market, status, token, page, listings);
            let catalog = spec_enriched(albums, listings, listings.len() as int);
            &&& client.last_step(events) == StepView::Done(catalog)
            &&& client.run(events).phase == Phase::Idle
            &&& client.run(events).auth_string() is Some
            &&& catalog.len() == albums.len()
            &&& forall|i: int|
                0 <= i < albums.len() ==> (#[trigger] catalog[i]) == (AlbumView {
                    songs: spec_songs(listings[i])->Ok_0,
                    ..albums[i]
                })
        }),
{
    let albums = spec_albums(page)->Ok_0;
    let events = whole_run(market, status, token, page, listings);
    let count = listings.len() as int;
    let catalog = spec_enriched(albums, listings, count);
    lemma_albums_keep_order(page);
    assert forall|i: int| 0 <= i < albums.len() implies (#[trigger] catalog[i]) == (AlbumView {
        songs: spec_songs(listings[i])->Ok_0,
        ..albums[i]
    }) by {
        assert(albums[i].songs.len() == 0);
        assert(albums[i].songs + spec_songs(listings[i])->Ok_0 =~= spec_songs(listings[i])->Ok_0);
    }
    if count == 0 {
        lemma_run_opening(client, market, status, token);
        assert(events.drop_last() =~= seq![Event::Begin(market), Event::Reply(status, token)]);
        assert(events.last() == Event::Reply(status, page));
        assert(catalog =~= albums);
    } else {
        lemma_run_prefix(client, market, status, token, page, listings, count - 1);
        let before = whole_run(market, status, token, page, listings.take(count - 1));
        assert(events.drop_last() =~= before);
        assert(events.last() == Event::Reply(status, listings[count - 1]));
        assert(spec_songs(listings[count - 1]) is Ok);
        let enriched = spec_enriched(albums, listings, count - 1);
        assert(enriched.update(
            count - 1,
            enriched[count - 1].with_songs(spec_songs(listings[count - 1])->Ok_0),
        ) =~= catalog);
    }
}

/// The catalog fetcher: it holds the credential from the first exchange on
/// and the albums of the run under way.
pub struct SpotifyClient {
    auth_client: AuthClient,
    auth_data: Option<AuthData>,
    phase: Phase,
    market: String,
    albums: Vec<Album>,
    next: usize,
}

impl View for SpotifyClient {
    type V = ClientView;

    closed spec fn view(&self) -> ClientView {
        ClientView {
            client_id: self.auth_client.client_id(),
            client_secret: self.auth_client.client_secret(),
            credential: match self.auth_data {
                Some(data) => Some(data@),
                None => None,
            },
            phase: self.phase,
            market: self.market@,
            albums: albums_view(self.albums@),
            next: self.next as int,
        }
    }
}

/// The request for an album's track listing, or the failure of the run
/// where no address was made for it.
pub fn tracks_request(url: Result<String, url::ParseError>, authorization: String) -> (request:
    Result<GetRequest, CatalogError>)
    ensures
        match url {
            Ok(address) => request is Ok && request->Ok_0@ == (GetRequestView {
                url: address@,
                authorization: authorization@,
            }),
            Err(_) => request == Err::<GetRequest, CatalogError>(CatalogError::InvalidUrl),
        },
{
    match url {
        Ok(address) => Ok(GetRequest { url: address, authorization }),
        Err(_) => Err(CatalogError::InvalidUrl),
    }
}

impl SpotifyClient {
    #[verifier::type_invariant]
    spec fn sound(self) -> bool {
        self@.wf()
    }

    /// A client at rest that holds no credential yet.
    pub fn new(auth_client: AuthClient) -> (client: SpotifyClient)
        ensures
            client@.wf(),
            client@ == (ClientView {
                client_id: auth_client.client_id(),
                client_secret: auth_client.client_secret(),
                credential: None,
                phase: Phase::Idle,
                market: Seq::empty(),
                albums: Seq::empty(),
                next: 0,
            }),
    {
        proof {
            use_type_invariant(&auth_client);
        }
        let albums: Vec<Album> = Vec::new();
        assert(albums_view(albums@) =~= Seq::<AlbumView>::empty());
        SpotifyClient {
            auth_client,
            auth_data: None,
            phase: Phase::Idle,
            market: String::new(),
            albums,
            next: 0,
        }
    }

    /// Which reply the client waits for.
    pub fn phase(&self) -> (phase: Phase)
        ensures
            phase == self@.phase,
    {
        self.phase
    }

    /// The address of an album's track listing, before its query.
    pub fn songs_by_album_url(id: &str) -> (url: String)
        ensures
            url@ == spec_songs_by_album_url(id@),
    {
        String::from_str("https://api.spotify.com/v1/albums/").concat(id).concat("/tracks")
    }

    /// The value of the `Authorization` header: the token's type, a space,
    /// the token. `None` until a credential has been granted. The client
    /// never asks for a credential here: it hands out the one it holds.
    pub fn get_auth_string(&self) -> (header: Option<String>)
        ensures
            match self@.auth_string() {
                Some(text) => header is Some && header->Some_0@ == text,
                None => header is None,
            },
    {
        match &self.auth_data {
            Some(data) => Some(data.authorization()),
            None => None,
        }
    }

    /// Comes to rest: the albums of the run are dropped.
    fn rest(&mut self)
        ensures
            final(self)@ == old(self)@.idle(),
    {
        proof {
            use_type_invariant(&*self);
        }
        self.phase = Phase::Idle;
        self.next = 0;
        self.albums = Vec::new();
        assert(albums_view(self.albums@) =~= Seq::<AlbumView>::empty());
    }

    /// Comes to rest and takes the reply of the identity endpoint: the
    /// credential is kept where the reply grants one, and its header value
    /// handed out.
    fn authenticate(&mut self, status: u16, response: &serde_json::Value) -> (granted: Result<
        String,
        CatalogError,
    >)
        ensures
            match spec_grant(status, json_tree(*response)) {
                Ok(credential) => granted is Ok && granted->Ok_0@ == credential.authorization()
                    && final(self)@ == (ClientView {
                    credential: Some(credential),
                    ..old(self)@.idle()
                }),
                Err(failure) => granted == Err::<String, CatalogError>(failure) && final(self)@
                    == old(self)@.idle(),
            },
    {
        self.rest();
        match self.auth_client.authenticate(status, response) {
            Ok(data) => {
                proof {
                    use_type_invariant(&*self);
                }
                let header = data.authorization();
                self.auth_data = Some(data);
                Ok(header)
            },
            Err(failure) => Err(failure),
        }
    }

    /// Asks for the track listing of the next album without songs, or ends
    /// the run where every album has its songs.
    fn fill_albums_with_songs(&mut self) -> (step: Step)
        requires
            old(self)@.phase == Phase::Idle,
        ensures
            (final(self)@, step@) == old(self)@.fill(),
    {
        proof {
            use_type_invariant(&*self);
        }
        if self.next >= self.albums.len() {
            let mut albums: Vec<Album> = Vec::new();
            core::mem::swap(&mut self.albums, &mut albums);
            self.next = 0;
            assert(albums_view(self.albums@) =~= Seq::<AlbumView>::empty());
            return Step::Done(albums);
        }
        let authorization = match self.get_auth_string() {
            Some(authorization) => authorization,
            None => {
                self.rest();
                return Step::Failed(CatalogError::AuthenticationFailure(None));
            },
        };
        let id = self.albums[self.next].id.as_str();
        if id.unicode_len() > MAX_ADDRESS_PART || self.market.as_str().unicode_len()
            > MAX_ADDRESS_PART {
            self.rest();
            return Step::Failed(CatalogError::InvalidUrl);
        }
        let base = SpotifyClient::songs_by_album_url(id);
        proof {
            reveal_strlit("https://api.spotify.com/v1/albums/");
            reveal_strlit("/tracks");
            reveal_strlit("id");
            reveal_strlit("market");
        }
        let url = url_with_params(base.as_str(), ("id", id), ("market", self.market.as_str()));
        match tracks_request(url, authorization) {
            Ok(request) => {
                self.phase = Phase::AwaitingTracks;
                Step::Fetch(request)
            },
            Err(failure) => {
                self.rest();
                Step::Failed(failure)
            },
        }
    }

    /// Begins a run for the market `country_code`, whatever was under way,
    /// and says what to send first: the credential exchange where no
    /// credential is held, else the request for the new releases.
    pub fn get_new_albums(&mut self, country_code: &str) -> (step: Step)
        ensures
            (final(self)@, step@) == old(self)@.begin(country_code@),
            final(self)@.wf(),
    {
        proof {
            use_type_invariant(&*self);
        }
        self.rest();
        self.market = country_code.to_owned();
        match self.get_auth_string() {
            None => {
                self.phase = Phase::AwaitingToken;
                Step::Authenticate(self.auth_client.token_request())
            },
            Some(authorization) => {
                self.phase = Phase::AwaitingReleases;
                Step::Fetch(
                    GetRequest { url: String::from_str(NEW_ALBUM_RELEASES_URL), authorization },
                )
            },
        }
    }

    /// Takes the reply to the request under way, its status and its body,
    /// and says what to do next. A credential exchange whose status is no
    /// success, and a body that does not decode, end the run with the
    /// failure, and no album is handed out.
    pub fn receive(&mut self, status: u16, response: &serde_json::Value) -> (step: Step)
        ensures
            (final(self)@, step@) == old(self)@.receive(status, json_tree(*response)),
            final(self)@.wf(),
    {
        proof {
            use_type_invariant(&*self);
        }
        match self.phase {
            Phase::Idle => Step::Idle,
            Phase::AwaitingToken => {
                match self.authenticate(status, response) {
                    Err(failure) => Step::Failed(failure),
                    Ok(authorization) => {
                        proof {
                            use_type_invariant(&*self);
                        }
                        self.phase = Phase::AwaitingReleases;
                        Step::Fetch(
                            GetRequest {
                                url: String::from_str(NEW_ALBUM_RELEASES_URL),
                                authorization,
                            },
                        )
                    },
                }
            },
            Phase::AwaitingReleases => {
                self.rest();
                match parse_albums(response) {
                    Err(failure) => Step::Failed(failure),
                    Ok(albums) => {
                        self.albums = albums;
                        self.fill_albums_with_songs()
                    },
                }
            },
            Phase::AwaitingTracks => {
                assert(self.next < self.albums.len()) by {
                    assert(albums_view(self.albums@).len() == self.albums@.len());
                }
                self.phase = Phase::Idle;
                match parse_songs(response) {
                    Err(failure) => {
                        self.rest();
                        Step::Failed(failure)
                    },
                    Ok(songs) => {
                        let ghost before = self.albums@;
                        let mut albums: Vec<Album> = Vec::new();
                        core::mem::swap(&mut self.albums, &mut albums);
                        albums[self.next].add_songs(songs);
                        assert(albums_view(albums@) =~= albums_view(before).update(
                            self.next as int,
                            albums@[self.next as int]@,
                        ));
                        self.albums = albums;
                        self.next = self.next + 1;
                        self.fill_albums_with_songs()
                    },
                }
            },
        }
    }

    /// Takes a reply whose body is no JSON document: it counts as a body
    /// that holds nothing, so the run ends with the failure that names the
    /// first field looked for, or, for a credential exchange whose status
    /// is no success, with the failure that names none.
    pub fn receive_undecoded(&mut self, status: u16) -> (step: Step)
        ensures
            (final(self)@, step@) == old(self)@.receive(status, JsonTree::Null),
            final(self)@.wf(),
    {
        proof {
            use_type_invariant(&*self);
        }
        match self.phase {
            Phase::Idle => Step::Idle,
            Phase::AwaitingToken => {
                self.rest();
                if is_success(status) {
                    Step::Failed(CatalogError::AuthenticationFailure(Some(Field::AccessToken)))
                } else {
                    Step::Failed(CatalogError::AuthenticationFailure(None))
                }
            },
            _ => {
                self.rest();
                Step::Failed(CatalogError::DecodeFailure(Field::Items))
            },
        }
    }

    /// Takes the news that the request under way failed in transport: the
    /// run ends with the failure, and no album is handed out.
    pub fn fail(&mut self) -> (step: Step)
        ensures
            (final(self)@, step@) == old(self)@.fail(),
            final(self)@.wf(),
    {
        proof {
            use_type_invariant(&*self);
        }
        match self.phase {
            Phase::Idle => Step::Idle,
            Phase::AwaitingToken => {
                self.rest();
                Step::Failed(CatalogError::AuthenticationFailure(None))
            },
            _ => {
                self.rest();
                Step::Failed(CatalogError::NetworkFailure)
            },
        }
    }
}

} // verus!
