//! The client of the platform: who it acts as, what it asks for, what it remembers.

use vstd::prelude::*;

pub use crate::booking::BookError;
pub use crate::comparison::SessionComparison;
pub use crate::session::{
    Booking, BookingSession, Session, SessionAttendee, SessionCoach, SessionDetail, SessionPlace,
};
pub use crate::when::parse_when;

use crate::config::{
    same_identity, same_member, same_settings, show_secret, shown_secret, Account, AccountView,
    Config, Coordinate,
};
use crate::json::{
    entry, is_entry, is_null_entry, is_optional_entry, is_text_entry, null_entry, optional_entry,
    text_entry, Json,
};
use crate::listing::{booking_for_session, first_booking, found_booking_is_of_the_session};
use crate::text::{debug_quoted, optional_str, optional_text, quoted};

verus! {

// ---------------------------------------------------------------------------
// Requests
// ---------------------------------------------------------------------------

/// An HTTP method.
#[derive(Debug, PartialEq, Eq, Clone, Copy, Structural)]
pub enum Method {
    Get,
    Post,
}

/// A request to the platform.
pub struct Request {
    pub method: Method,
    pub url: String,
    pub query: Vec<(String, String)>,
    /// The value of the `authorization` header, where the request carries one.
    pub authorization: Option<String>,
    pub body: Option<Json>,
}

/// The texts of a list of name-value pairs.
pub open spec fn pairs(list: Seq<(String, String)>) -> Seq<(Seq<char>, Seq<char>)> {
    list.map_values(|p: (String, String)| (p.0@, p.1@))
}

impl Request {
    /// Whether this is a request with a given method, address and query that carries `token`
    /// where one is given.
    pub open spec fn asks(
        &self,
        method: Method,
        url: Seq<char>,
        query: Seq<(Seq<char>, Seq<char>)>,
        token: Option<Seq<char>>,
    ) -> bool {
        &&& self.method == method
        &&& self.url@ == url
        &&& pairs(self.query@) == query
        &&& optional_text(self.authorization) == token
    }

    /// The entries of the body, where it is an object.
    pub open spec fn body_entries(&self) -> Seq<(String, Json)> {
        match self.body {
            Some(body) => body.entries(),
            None => Seq::empty(),
        }
    }
}

/// How long an answer is waited for, in seconds.
pub const TIMEOUT_SECONDS: u64 = 15;

/// The headers that every request carries.
pub fn default_headers() -> (r: Vec<(String, String)>)
    ensures
        pairs(r@) == seq![
            ("content-type"@, "application/json"@),
            ("accept"@, "application/json"@),
            ("accept-language"@, "fr"@),
            ("user-agent"@, "okhttp/4.12.0"@),
        ],
{
    let mut out: Vec<(String, String)> = Vec::new();
    out.push(("content-type".to_owned(), "application/json".to_owned()));
    out.push(("accept".to_owned(), "application/json".to_owned()));
    out.push(("accept-language".to_owned(), "fr".to_owned()));
    out.push(("user-agent".to_owned(), "okhttp/4.12.0".to_owned()));
    assert(pairs(out@) =~= seq![
        ("content-type"@, "application/json"@),
        ("accept"@, "application/json"@),
        ("accept-language"@, "fr"@),
        ("user-agent"@, "okhttp/4.12.0"@),
    ]);
    out
}

/// Which bookings are listed.
#[derive(Debug, PartialEq, Eq, Clone, Copy, Structural)]
pub enum Temporality {
    /// Upcoming bookings.
    FromToday,
    /// Past bookings.
    BeforeToday,
}

impl Temporality {
    /// The platform's word for it.
    pub open spec fn word(self) -> Seq<char> {
        match self {
            Temporality::FromToday => "fromToday"@,
            Temporality::BeforeToday => "beforeToday"@,
        }
    }

    fn as_word(self) -> (r: &'static str)
        ensures
            r@ == self.word(),
    {
        match self {
            Temporality::FromToday => "fromToday",
            Temporality::BeforeToday => "beforeToday",
        }
    }
}

/// Whether a value is the pair of two coordinates, longitude first; null unless both are known.
pub open spec fn is_position(
    value: Json,
    longitude: Option<Coordinate>,
    latitude: Option<Coordinate>,
) -> bool {
    match (longitude, latitude) {
        (Some(lon), Some(lat)) => value matches Json::Array(items) && items@ == seq![
            Json::Fraction(lon.bits),
            Json::Fraction(lat.bits),
        ],
        _ => value is Null,
    }
}

// ---------------------------------------------------------------------------
// Authentication
// ---------------------------------------------------------------------------

/// The user in the answer to an authentication.
#[derive(Debug)]
pub struct AuthUser {
    pub id: String,
}

/// The answer to an authentication.
pub struct AuthResponse {
    pub token: Option<String>,
    pub user_id: Option<String>,
    pub user: Option<AuthUser>,
}

impl AuthResponse {
    /// The user id of the answer: given directly, or else nested in the user.
    pub open spec fn answered_user(&self) -> Option<Seq<char>> {
        match self.user_id {
            Some(id) => Some(id@),
            None => match self.user {
                Some(user) => Some(user.id@),
                None => None,
            },
        }
    }

    /// The token of the answer; an empty one is none.
    pub open spec fn answered_token(&self) -> Option<Seq<char>> {
        match self.token {
            Some(t) => if t@.len() == 0 {
                None
            } else {
                Some(t@)
            },
            None => None,
        }
    }

    /// The user id of the answer.
    pub fn resolve_user_id(&self) -> (r: Option<&str>)
        ensures
            optional_str(r) == self.answered_user(),
    {
        match &self.user_id {
            Some(id) => Some(id.as_str()),
            None => match &self.user {
                Some(user) => Some(user.id.as_str()),
                None => None,
            },
        }
    }
}

/// An authentication that gave no token.
#[derive(Debug, PartialEq, Eq, Clone, Copy, Structural)]
pub struct MissingToken;

impl MissingToken {
    /// The message of this error.
    pub fn message(&self) -> (r: String)
        ensures
            r@ == "auth succeeded but response contained no token"@,
    {
        "auth succeeded but response contained no token".to_owned()
    }
}

// ---------------------------------------------------------------------------
// The client
// ---------------------------------------------------------------------------

/// A client of the platform.
pub struct MonClubClient {
    config: Config,
    /// The account this client authenticates as and acts on behalf of.
    account: Account,
    token: Option<String>,
    user_id: Option<String>,
}

/// The contents of a [`MonClubClient`].
pub struct ClientView {
    pub config: Config,
    pub account: AccountView,
    pub token: Option<Seq<char>>,
    pub user_id: Option<Seq<char>>,
}

impl View for MonClubClient {
    type V = ClientView;

    closed spec fn view(&self) -> ClientView {
        ClientView {
            config: self.config,
            account: self.account@,
            token: optional_text(self.token),
            user_id: optional_text(self.user_id),
        }
    }
}

impl ClientView {
    /// The token that authorises requests; empty before authentication.
    pub open spec fn bearer(self) -> Seq<char> {
        match self.token {
            Some(t) => t,
            None => Seq::empty(),
        }
    }

    /// The user id in addresses and queries; empty where it is unknown.
    pub open spec fn user(self) -> Seq<char> {
        match self.user_id {
            Some(id) => id,
            None => Seq::empty(),
        }
    }

    /// The full address of a path.
    pub open spec fn address(self, path: Seq<char>) -> Seq<char> {
        self.config.base_url@ + path
    }

    /// The diagnostic rendering of the client: the token only by whether it is set.
    pub open spec fn shown(self) -> Seq<char> {
        "MonClubClient { account: "@ + debug_quoted(self.account.label) + ", user_id: "@ + (
        match self.user_id {
            Some(id) => "Some("@ + debug_quoted(id) + ")"@,
            None => "None"@,
        }) + ", token: "@ + shown_secret(self.token is Some) + ", .. }"@
    }
}

impl MonClubClient {
    /// Builds a client for the primary account.
    pub fn new(config: Config) -> (r: Self)
        ensures
            r@ == (ClientView {
                config,
                account: config.primary(),
                token: None,
                user_id: None,
            }),
    {
        let account = config.primary_account();
        Self::with_account(config, account)
    }

    /// Builds a client that authenticates as `account`, sharing the rest of the runtime
    /// configuration (base url, coordinates, retry settings).
    pub fn with_account(config: Config, account: Account) -> (r: Self)
        ensures
            r@ == (ClientView { config, account: account@, token: None, user_id: None }),
    {
        MonClubClient { config, account, token: None, user_id: None }
    }

    /// The label of the account this client acts as.
    pub fn account_label(&self) -> (r: &str)
        ensures
            r@ == self@.account.label,
    {
        self.account.label.as_str()
    }

    /// The configuration this client works with.
    pub fn config(&self) -> (r: &Config)
        ensures
            *r == self@.config,
    {
        &self.config
    }

    fn token(&self) -> (r: String)
        ensures
            r@ == self@.bearer(),
    {
        match &self.token {
            Some(t) => t.clone(),
            None => String::new(),
        }
    }

    fn user_id(&self) -> (r: String)
        ensures
            r@ == self@.user(),
    {
        match &self.user_id {
            Some(id) => id.clone(),
            None => String::new(),
        }
    }

    fn endpoint(&self, path: &str) -> (r: String)
        ensures
            r@ == self@.address(path@),
    {
        let mut out = self.config.base_url.clone();
        out.append(path);
        out
    }

    /// Renders the client for diagnostics, with the token left out.
    pub fn debug_text(&self) -> (r: String)
        ensures
            r@ == self@.shown(),
    {
        let mut out = "MonClubClient { account: ".to_owned();
        out.append(quoted(self.account.label.as_str()).as_str());
        out.append(", user_id: ");
        let user = match &self.user_id {
            Some(id) => {
                let mut shown = "Some(".to_owned();
                shown.append(quoted(id.as_str()).as_str());
                shown.append(")");
                shown
            },
            None => "None".to_owned(),
        };
        out.append(user.as_str());
        out.append(", token: ");
        out.append(show_secret(&self.token).as_str());
        out.append(", .. }");
        out
    }

    /// The first step of authentication: probes the email address.
    pub fn email_probe_request(&self) -> (r: Request)
        ensures
            r.asks(
                Method::Post,
                self@.address("/users/custom/authenticate/email/v2"@),
                seq![("withCoachAuthentication"@, "true"@)],
                None,
            ),
            r.body is Some,
            r.body_entries().len() == 1,
            is_text_entry(r.body_entries()[0], "email"@, self@.account.email),
    {
        let mut query: Vec<(String, String)> = Vec::new();
        query.push(("withCoachAuthentication".to_owned(), "true".to_owned()));
        assert(pairs(query@) =~= seq![("withCoachAuthentication"@, "true"@)]);
        let mut body: Vec<(String, Json)> = Vec::new();
        body.push(text_entry("email", self.account.email.as_str()));
        Request {
            method: Method::Post,
            url: self.endpoint("/users/custom/authenticate/email/v2"),
            query,
            authorization: None,
            body: Some(Json::Object(body)),
        }
    }

    /// The second step of authentication: sends the credentials.
    pub fn authenticate_request(&self) -> (r: Request)
        ensures
            r.asks(
                Method::Post,
                self@.address("/users/custom/authenticate/v2"@),
                Seq::empty(),
                None,
            ),
            r.body is Some,
            ({
                let body = r.body_entries();
                let credentials = body[0].1.entries();
                let device = body[2].1.entries();
                &&& body.len() == 4
                &&& body[0].0@ == "credentials"@
                &&& credentials.len() == 2
                &&& is_text_entry(credentials[0], "email"@, self@.account.email)
                &&& is_text_entry(credentials[1], "password"@, self@.account.password)
                &&& is_text_entry(body[1], "customId"@, self@.account.custom_id)
                &&& body[2].0@ == "deviceInfo"@
                &&& device.len() == 4
                &&& is_text_entry(device[0], "os"@, "Android 14"@)
                &&& is_text_entry(device[1], "model"@, "Phone (2)"@)
                &&& is_text_entry(device[2], "brand"@, "Nothing"@)
                &&& is_text_entry(device[3], "version"@, "3.6.0"@)
                &&& is_entry(body[3], "coachAuthentication"@, Json::Bool(false))
            }),
    {
        let mut credentials: Vec<(String, Json)> = Vec::new();
        credentials.push(text_entry("email", self.account.email.as_str()));
        credentials.push(text_entry("password", self.account.password.as_str()));
        let mut device: Vec<(String, Json)> = Vec::new();
        device.push(text_entry("os", "Android 14"));
        device.push(text_entry("model", "Phone (2)"));
        device.push(text_entry("brand", "Nothing"));
        device.push(text_entry("version", "3.6.0"));
        let mut body: Vec<(String, Json)> = Vec::new();
        body.push(entry("credentials", Json::Object(credentials)));
        body.push(text_entry("customId", self.account.custom_id.as_str()));
        body.push(entry("deviceInfo", Json::Object(device)));
        body.push(entry("coachAuthentication", Json::Bool(false)));
        let query: Vec<(String, String)> = Vec::new();
        assert(pairs(query@) =~= Seq::empty());
        Request {
            method: Method::Post,
            url: self.endpoint("/users/custom/authenticate/v2"),
            query,
            authorization: None,
            body: Some(Json::Object(body)),
        }
    }

    /// Takes in the answer to an authentication: remembers the user and the token, and fails
    /// where the answer holds no token.
    pub fn authenticate(&mut self, response: AuthResponse) -> (r: Result<(), MissingToken>)
        ensures
            final(self)@ == (ClientView {
                user_id: response.answered_user(),
                token: response.answered_token(),
                ..old(self)@
            }),
            r is Err <==> response.answered_token() is None,
    {
        self.user_id = match response.resolve_user_id() {
            Some(id) => Some(id.to_owned()),
            None => None,
        };
        self.token = match response.token {
            Some(t) => if t.as_str().is_empty() {
                None
            } else {
                Some(t)
            },
            None => None,
        };
        if self.token.is_none() {
            Err(MissingToken)
        } else {
            Ok(())
        }
    }

    fn position(&self) -> (r: Json)
        ensures
            is_position(r, self@.config.longitude, self@.config.latitude),
    {
        match (&self.config.longitude, &self.config.latitude) {
            (Some(lon), Some(lat)) => {
                let mut items: Vec<Json> = Vec::new();
                items.push(Json::Fraction(lon.bits));
                items.push(Json::Fraction(lat.bits));
                assert(items@ =~= seq![Json::Fraction(lon.bits), Json::Fraction(lat.bits)]);
                Json::Array(items)
            },
            _ => Json::Null,
        }
    }

    /// Asks for the upcoming sessions of the user's clubs.
    pub fn list_sessions(&self) -> (r: Request)
        ensures
            r.asks(
                Method::Post,
                self@.address("/nearfilters/favorite/myclub"@),
                seq![("customId"@, self@.account.custom_id), ("userId"@, self@.user())],
                Some(self@.bearer()),
            ),
            r.body is Some,
            ({
                let body = r.body_entries();
                let filters = body[0].1.entries();
                let longitude = self@.config.longitude;
                let latitude = self@.config.latitude;
                &&& body.len() == 2
                &&& body[0].0@ == "filters"@
                &&& filters.len() == 12
                &&& is_text_entry(filters[0], "tagName"@, "myclub"@)
                &&& filters[1].0@ == "coordinates"@
                &&& is_position(filters[1].1, longitude, latitude)
                &&& is_null_entry(filters[2], "price"@)
                &&& is_null_entry(filters[3], "discipline"@)
                &&& is_null_entry(filters[4], "date"@)
                &&& is_null_entry(filters[5], "time"@)
                &&& is_null_entry(filters[6], "level"@)
                &&& is_null_entry(filters[7], "type"@)
                &&& is_null_entry(filters[8], "category"@)
                &&& is_null_entry(filters[9], "pinnedSlots"@)
                &&& is_null_entry(filters[10], "categoryId"@)
                &&& is_null_entry(filters[11], "group"@)
                &&& body[1].0@ == "coordinates"@
                &&& is_position(body[1].1, longitude, latitude)
            }),
    {
        let mut filters: Vec<(String, Json)> = Vec::new();
        filters.push(text_entry("tagName", "myclub"));
        filters.push(entry("coordinates", self.position()));
        filters.push(null_entry("price"));
        filters.push(null_entry("discipline"));
        filters.push(null_entry("date"));
        filters.push(null_entry("time"));
        filters.push(null_entry("level"));
        filters.push(null_entry("type"));
        filters.push(null_entry("category"));
        filters.push(null_entry("pinnedSlots"));
        filters.push(null_entry("categoryId"));
        filters.push(null_entry("group"));
        let mut body: Vec<(String, Json)> = Vec::new();
        body.push(entry("filters", Json::Object(filters)));
        body.push(entry("coordinates", self.position()));
        let mut query: Vec<(String, String)> = Vec::new();
        query.push(("customId".to_owned(), self.account.custom_id.clone()));
        query.push(("userId".to_owned(), self.user_id()));
        assert(pairs(query@) =~= seq![
            ("customId"@, self@.account.custom_id),
            ("userId"@, self@.user()),
        ]);
        Request {
            method: Method::Post,
            url: self.endpoint("/nearfilters/favorite/myclub"),
            query,
            authorization: Some(self.token()),
            body: Some(Json::Object(body)),
        }
    }

    /// Asks for the user's bookings, upcoming or past.
    fn fetch_bookings(&self, temporality: Temporality) -> (r: Request)
        ensures
            asks_for_bookings(r, self@, temporality),
    {
        let mut path = "/bookings/user/".to_owned();
        path.append(self.user_id().as_str());
        let mut query: Vec<(String, String)> = Vec::new();
        query.push(("category".to_owned(), "ondemand".to_owned()));
        query.push(("temporality".to_owned(), temporality.as_word().to_owned()));
        assert(pairs(query@) =~= seq![
            ("category"@, "ondemand"@),
            ("temporality"@, temporality.word()),
        ]);
        Request {
            method: Method::Get,
            url: self.endpoint(path.as_str()),
            query,
            authorization: Some(self.token()),
            body: None,
        }
    }

    /// Asks for the user's upcoming bookings.
    pub fn list_bookings(&self) -> (r: Request)
        ensures
            asks_for_bookings(r, self@, Temporality::FromToday),
    {
        self.fetch_bookings(Temporality::FromToday)
    }

    /// Asks for the user's past bookings.
    pub fn list_previous_bookings(&self) -> (r: Request)
        ensures
            asks_for_bookings(r, self@, Temporality::BeforeToday),
    {
        self.fetch_bookings(Temporality::BeforeToday)
    }

    /// Asks for the full detail of a session.
    pub fn get_session(&self, session_id: &str) -> (r: Request)
        ensures
            r.asks(
                Method::Post,
                self@.address("/sessions/withuser"@),
                Seq::empty(),
                Some(self@.bearer()),
            ),
            r.body is Some,
            r.body_entries().len() == 2,
            is_text_entry(r.body_entries()[0], "sessionId"@, session_id@),
            is_optional_entry(r.body_entries()[1], "userId"@, self@.user_id),
    {
        let mut body: Vec<(String, Json)> = Vec::new();
        body.push(text_entry("sessionId", session_id));
        body.push(optional_entry("userId", &self.user_id));
        let query: Vec<(String, String)> = Vec::new();
        assert(pairs(query@) =~= Seq::empty());
        Request {
            method: Method::Post,
            url: self.endpoint("/sessions/withuser"),
            query,
            authorization: Some(self.token()),
            body: Some(Json::Object(body)),
        }
    }

    /// A request to the endpoint that both books and cancels; the `isPresent` member of the
    /// participant tells the two apart.
    fn post_presence(&self, participant: Json, session_id: &str) -> (r: Request)
        ensures
            is_presence_request(r, self@, participant, session_id@),
    {
        let mut body: Vec<(String, Json)> = Vec::new();
        body.push(entry("participant", participant));
        body.push(text_entry("sessionId", session_id));
        body.push(text_entry("customId", self.account.custom_id.as_str()));
        let query: Vec<(String, String)> = Vec::new();
        assert(pairs(query@) =~= Seq::empty());
        Request {
            method: Method::Post,
            url: self.endpoint("/sessions/book/licenseeFromClub"),
            query,
            authorization: Some(self.token()),
            body: Some(Json::Object(body)),
        }
    }

    /// Asks to book a session.
    pub fn book_session(&self, session: &Session) -> (r: Request)
        ensures
            books(r, self@, session.id@),
    {
        let mut participant: Vec<(String, Json)> = Vec::new();
        participant.push(optional_entry("userId", &self.user_id));
        participant.push(text_entry("isPresent", "yes"));
        participant.push(null_entry("coordinates"));
        self.post_presence(Json::Object(participant), session.id.as_str())
    }

    /// Asks to cancel a booking.
    pub fn cancel_booking(&self, booking: &Booking) -> (r: Request)
        ensures
            cancels(r, self@, booking.session_id@, booking.id@),
    {
        let mut participant: Vec<(String, Json)> = Vec::new();
        participant.push(optional_entry("userId", &self.user_id));
        participant.push(text_entry("isPresent", "no"));
        participant.push(null_entry("coordinates"));
        participant.push(text_entry("bookingId", booking.id.as_str()));
        self.post_presence(Json::Object(participant), booking.session_id.as_str())
    }

    /// Asks to cancel this account's booking of a session, looked up among the account's own
    /// upcoming bookings, and tells the booking's id; `None` where there is no such booking.
    /// This serves accounts whose booking id the caller does not hold.
    pub fn cancel_session_booking(&self, bookings: Vec<Booking>, session_id: &str) -> (r: Option<
        (String, Request),
    >)
        ensures
            match first_booking(bookings@, session_id@) {
                Some(booking) => r matches Some((id, request)) && id@ == booking.id@ && cancels(
                    request,
                    self@,
                    session_id@,
                    booking.id@,
                ),
                None => r is None,
            },
    {
        proof {
            found_booking_is_of_the_session(bookings@, session_id@);
        }
        match booking_for_session(bookings, session_id) {
            Some(booking) => {
                let request = self.cancel_booking(&booking);
                Some((booking.id, request))
            },
            None => None,
        }
    }

    /// Builds a client for another account, sharing this client's runtime configuration.
    pub fn client_for(&self, account: &Account) -> (r: MonClubClient)
        ensures
            same_settings(r@.config, self@.config),
            r@.account == account@,
            r@.token is None,
            r@.user_id is None,
    {
        Self::with_account(self.config.clone(), account.clone())
    }

    /// Whether this client itself acts for an account, so that no other needs to be
    /// authenticated.
    pub fn acts_for(&self, account: &Account) -> (r: bool)
        ensures
            r == same_member(account@, self@.account),
    {
        same_identity(account, &self.account)
    }
}

/// Whether a request asks for a client's bookings, upcoming or past.
pub open spec fn asks_for_bookings(
    r: Request,
    client: ClientView,
    temporality: Temporality,
) -> bool {
    &&& r.asks(
        Method::Get,
        client.address("/bookings/user/"@ + client.user()),
        seq![("category"@, "ondemand"@), ("temporality"@, temporality.word())],
        Some(client.bearer()),
    )
    &&& r.body is None
}

/// Whether a request goes to the endpoint that books and cancels, for a participant and a
/// session.
pub open spec fn is_presence_request(
    r: Request,
    client: ClientView,
    participant: Json,
    session_id: Seq<char>,
) -> bool {
    &&& r.asks(
        Method::Post,
        client.address("/sessions/book/licenseeFromClub"@),
        Seq::empty(),
        Some(client.bearer()),
    )
    &&& r.body is Some
    &&& r.body_entries().len() == 3
    &&& is_entry(r.body_entries()[0], "participant"@, participant)
    &&& is_text_entry(r.body_entries()[1], "sessionId"@, session_id)
    &&& is_text_entry(r.body_entries()[2], "customId"@, client.account.custom_id)
}

/// Whether a request books a session for a client's account.
pub open spec fn books(r: Request, client: ClientView, session_id: Seq<char>) -> bool {
    let participant = r.body_entries()[0].1;
    &&& is_presence_request(r, client, participant, session_id)
    &&& participant is Object
    &&& participant.entries().len() == 3
    &&& is_optional_entry(participant.entries()[0], "userId"@, client.user_id)
    &&& is_text_entry(participant.entries()[1], "isPresent"@, "yes"@)
    &&& is_null_entry(participant.entries()[2], "coordinates"@)
}

/// Whether a request cancels a booking of a session for a client's account.
pub open spec fn cancels(
    r: Request,
    client: ClientView,
    session_id: Seq<char>,
    booking_id: Seq<char>,
) -> bool {
    let participant = r.body_entries()[0].1;
    &&& is_presence_request(r, client, participant, session_id)
    &&& participant is Object
    &&& participant.entries().len() == 4
    &&& is_optional_entry(participant.entries()[0], "userId"@, client.user_id)
    &&& is_text_entry(participant.entries()[1], "isPresent"@, "no"@)
    &&& is_null_entry(participant.entries()[2], "coordinates"@)
    &&& is_text_entry(participant.entries()[3], "bookingId"@, booking_id)
}

/// A request never both books and cancels.
pub proof fn booking_is_not_cancelling(
    r: Request,
    client: ClientView,
    session_id: Seq<char>,
    other_client: ClientView,
    other_session: Seq<char>,
    booking_id: Seq<char>,
)
    ensures
        !(books(r, client, session_id) && cancels(r, other_client, other_session, booking_id)),
{
}

/// The diagnostic rendering of a client says nothing of its token beyond whether it has one,
/// and nothing of its account's password.
pub proof fn client_rendering_hides_the_secrets(a: ClientView, b: ClientView)
    requires
        a.account.label == b.account.label,
        a.user_id == b.user_id,
        a.token is Some == b.token is Some,
    ensures
        a.shown() == b.shown(),
{
}

// ---------------------------------------------------------------------------
// Laws
// ---------------------------------------------------------------------------

/// Whether a value is the text that is given, or null where none is.
pub open spec fn is_text_or_null(value: Option<Json>, text: Option<Seq<char>>) -> bool {
    match text {
        Some(t) => value is Some && value->0.as_text() == Some(t),
        None => value matches Some(Json::Null),
    }
}

/// A booking request says of the client's own user, at the endpoint for it and with the client's
/// token, that they will be present at the session, in the club of the client's account; it names
/// no booking.
#[verifier::spinoff_prover]
#[verifier::rlimit(40)]
pub proof fn a_booking_request_says_yes(client: MonClubClient, session: Session, r: Request)
    requires
        call_ensures(MonClubClient::book_session, (&client, &session), r),
    ensures
        r.method is Post,
        r.url@ == client@.config.base_url@ + "/sessions/book/licenseeFromClub"@,
        r.query@.len() == 0,
        r.authorization is Some && r.authorization->0@ == client@.bearer(),
        r.body matches Some(body) && {
            let participant = body.member("participant"@)->0;
            &&& body.text_member("sessionId"@) == Some(session.id@)
            &&& body.text_member("customId"@) == Some(client@.account.custom_id)
            &&& body.member("participant"@) is Some
            &&& participant.text_member("isPresent"@) == Some("yes"@)
            &&& is_text_or_null(participant.member("userId"@), client@.user_id)
            &&& participant.member("coordinates"@) matches Some(Json::Null)
            &&& participant.member("bookingId"@) is None
        },
{
    assert(pairs(r.query@).len() == r.query@.len());
    reveal_with_fuel(crate::json::entry_value, 5);
    reveal_strlit("participant");
    reveal_strlit("sessionId");
    reveal_strlit("customId");
    reveal_strlit("userId");
    reveal_strlit("isPresent");
    reveal_strlit("coordinates");
    reveal_strlit("bookingId");
    assert("userId"@[0] == 'u' && "isPresent"@[0] == 'i' && "coordinates"@[0] == 'c'
        && "bookingId"@[0] == 'b' && "participant"@[0] == 'p' && "sessionId"@[0] == 's'
        && "customId"@[0] == 'c');
}

/// A cancelling request says of the client's own user, at the same endpoint and with the client's
/// token, that they will not be present at the booked session, and names the booking.
#[verifier::spinoff_prover]
#[verifier::rlimit(40)]
pub proof fn a_cancelling_request_says_no(client: MonClubClient, booking: Booking, r: Request)
    requires
        call_ensures(MonClubClient::cancel_booking, (&client, &booking), r),
    ensures
        r.method is Post,
        r.url@ == client@.config.base_url@ + "/sessions/book/licenseeFromClub"@,
        r.query@.len() == 0,
        r.authorization is Some && r.authorization->0@ == client@.bearer(),
        r.body matches Some(body) && {
            let participant = body.member("participant"@)->0;
            &&& body.text_member("sessionId"@) == Some(booking.session_id@)
            &&& body.text_member("customId"@) == Some(client@.account.custom_id)
            &&& body.member("participant"@) is Some
            &&& participant.text_member("isPresent"@) == Some("no"@)
            &&& is_text_or_null(participant.member("userId"@), client@.user_id)
            &&& participant.text_member("bookingId"@) == Some(booking.id@)
        },
{
    assert(pairs(r.query@).len() == r.query@.len());
    reveal_with_fuel(crate::json::entry_value, 5);
    reveal_strlit("participant");
    reveal_strlit("sessionId");
    reveal_strlit("customId");
    reveal_strlit("userId");
    reveal_strlit("isPresent");
    reveal_strlit("coordinates");
    reveal_strlit("bookingId");
    assert("userId"@[0] == 'u' && "isPresent"@[0] == 'i' && "coordinates"@[0] == 'c'
        && "bookingId"@[0] == 'b' && "participant"@[0] == 'p' && "sessionId"@[0] == 's'
        && "customId"@[0] == 'c');
}

/// Cancelling by session asks for nothing where the account has no booking of the session; where
/// it has, the first such booking is the one that is named and cancelled.
pub proof fn the_accounts_own_booking_is_cancelled(
    client: MonClubClient,
    bookings: Vec<Booking>,
    session_id: &str,
    r: Option<(String, Request)>,
)
    requires
        call_ensures(
            MonClubClient::cancel_session_booking,
            (&client, bookings, session_id),
            r,
        ),
    ensures
        r is None <==> forall|i: int|
            0 <= i < bookings@.len() ==> (#[trigger] bookings@[i]).session_id@ != session_id@,
        r matches Some((id, request)) ==> exists|i: int|
            {
                &&& 0 <= i < bookings@.len()
                &&& (#[trigger] bookings@[i]).session_id@ == session_id@
                &&& bookings@[i].id@ == id@
                &&& forall|j: int|
                    0 <= j < i ==> (#[trigger] bookings@[j]).session_id@ != session_id@
                &&& cancels(request, client@, session_id@, id@)
            },
{
    crate::listing::lemma_first_booking(bookings@, session_id@);
    if let Some((id, request)) = r {
        let b = first_booking(bookings@, session_id@)->0;
        let i = choose|i: int|
            0 <= i < bookings@.len() && #[trigger] bookings@[i] == b && b.session_id@
                == session_id@ && forall|j: int|
                0 <= j < i ==> (#[trigger] bookings@[j]).session_id@ != session_id@;
        assert(bookings@[i].session_id@ == session_id@);
    }
}

/// Authentication sends the account's own email, and in its second step its password and club;
/// neither step carries a token.
#[verifier::spinoff_prover]
#[verifier::rlimit(40)]
pub proof fn authentication_sends_the_credentials(
    client: MonClubClient,
    probe: Request,
    login: Request,
)
    requires
        call_ensures(MonClubClient::email_probe_request, (&client,), probe),
        call_ensures(MonClubClient::authenticate_request, (&client,), login),
    ensures
        probe.method is Post && login.method is Post,
        probe.url@ == client@.config.base_url@ + "/users/custom/authenticate/email/v2"@,
        login.url@ == client@.config.base_url@ + "/users/custom/authenticate/v2"@,
        probe.authorization is None && login.authorization is None,
        probe.body matches Some(body) && body.text_member("email"@) == Some(
            client@.account.email,
        ),
        login.body matches Some(body) && {
            let credentials = body.member("credentials"@)->0;
            &&& body.member("credentials"@) is Some
            &&& credentials.text_member("email"@) == Some(client@.account.email)
            &&& credentials.text_member("password"@) == Some(client@.account.password)
            &&& body.text_member("customId"@) == Some(client@.account.custom_id)
            &&& body.member("coachAuthentication"@) == Some(Json::Bool(false))
        },
{
    reveal_with_fuel(crate::json::entry_value, 6);
    reveal_strlit("credentials");
    reveal_strlit("customId");
    reveal_strlit("deviceInfo");
    reveal_strlit("coachAuthentication");
    reveal_strlit("email");
    reveal_strlit("password");
    assert("credentials"@[1] == 'r' && "customId"@[1] == 'u' && "deviceInfo"@[1] == 'e'
        && "coachAuthentication"@[1] == 'o' && "email"@[0] == 'e' && "password"@[0] == 'p');
}

/// The listings are asked for with the client's token and for its user: the sessions of its
/// account's club, the upcoming bookings or the past ones, and a session by its id.
pub proof fn listings_are_asked_for_the_user(
    client: MonClubClient,
    sessions: Request,
    upcoming: Request,
    past: Request,
    session_id: &str,
    detail: Request,
)
    requires
        call_ensures(MonClubClient::list_sessions, (&client,), sessions),
        call_ensures(MonClubClient::list_bookings, (&client,), upcoming),
        call_ensures(MonClubClient::list_previous_bookings, (&client,), past),
        call_ensures(MonClubClient::get_session, (&client, session_id), detail),
    ensures
        sessions.method is Post && upcoming.method is Get && past.method is Get
            && detail.method is Post,
        forall|r: Request|
            r == sessions || r == upcoming || r == past || r == detail ==> (
            #[trigger] r.authorization) is Some && r.authorization->0@ == client@.bearer(),
        sessions.url@ == client@.config.base_url@ + "/nearfilters/favorite/myclub"@,
        pairs(sessions.query@) == seq![
            ("customId"@, client@.account.custom_id),
            ("userId"@, client@.user()),
        ],
        upcoming.url@ == client@.config.base_url@ + ("/bookings/user/"@ + client@.user()),
        past.url@ == upcoming.url@,
        pairs(upcoming.query@) == seq![
            ("category"@, "ondemand"@),
            ("temporality"@, "fromToday"@),
        ],
        pairs(past.query@) == seq![("category"@, "ondemand"@), ("temporality"@, "beforeToday"@)],
        upcoming.body is None && past.body is None,
        detail.url@ == client@.config.base_url@ + "/sessions/withuser"@,
        detail.body matches Some(body) && body.text_member("sessionId"@) == Some(session_id@)
            && is_text_or_null(body.member("userId"@), client@.user_id),
{
    reveal_with_fuel(crate::json::entry_value, 4);
    reveal_strlit("sessionId");
    reveal_strlit("userId");
    assert("sessionId"@[0] == 's' && "userId"@[0] == 'u');
}

/// The coordinates are sent as a pair, longitude in front, only where both are known; they are
/// sent twice alike, once among the filters, which ask for the user's club.
pub proof fn coordinates_are_sent_as_a_pair(client: MonClubClient, r: Request)
    requires
        call_ensures(MonClubClient::list_sessions, (&client,), r),
    ensures
        r.body matches Some(body) && body.member("coordinates"@) is Some && {
            let at = body.member("coordinates"@)->0;
            match (client@.config.longitude, client@.config.latitude) {
                (Some(lon), Some(lat)) => at matches Json::Array(pair) && pair@.len() == 2
                    && pair@[0] == Json::Fraction(lon.bits) && pair@[1] == Json::Fraction(
                    lat.bits,
                ),
                _ => at is Null,
            }
        },
        r.body matches Some(body) && body.member("filters"@) is Some && {
            let filters = body.member("filters"@)->0;
            &&& filters.text_member("tagName"@) == Some("myclub"@)
            &&& filters.member("coordinates"@) is Some
            &&& match (client@.config.longitude, client@.config.latitude) {
                (Some(lon), Some(lat)) => filters.member("coordinates"@)->0 matches Json::Array(
                    pair,
                ) && pair@.len() == 2 && pair@[0] == Json::Fraction(lon.bits) && pair@[1]
                    == Json::Fraction(lat.bits),
                _ => filters.member("coordinates"@)->0 is Null,
            }
        },
{
    reveal_with_fuel(crate::json::entry_value, 4);
    reveal_strlit("filters");
    reveal_strlit("coordinates");
    reveal_strlit("tagName");
    assert("filters"@[0] == 'f' && "coordinates"@[0] == 'c' && "tagName"@[0] == 't');
}

/// An answer to an authentication succeeds exactly where it holds a token that is not empty; that
/// token then authorises the requests. The user is the one the answer gives directly, or else the
/// one nested in it; the account and the settings stay.
pub proof fn authentication_takes_the_token(
    client: &mut MonClubClient,
    response: AuthResponse,
    r: Result<(), MissingToken>,
)
    requires
        call_ensures(MonClubClient::authenticate, (client, response), r),
    ensures
        r is Ok <==> response.token is Some && response.token->0@.len() > 0,
        r is Ok ==> final(client)@.token == Some(response.token->0@) && final(client)@.bearer()
            == response.token->0@,
        r is Err ==> final(client)@.token is None && final(client)@.bearer().len() == 0,
        response.user_id matches Some(id) ==> final(client)@.user_id == Some(id@)
            && final(client)@.user() == id@,
        response.user_id is None && response.user is Some ==> final(client)@.user_id == Some(
            response.user->0.id@,
        ),
        response.user_id is None && response.user is None ==> final(client)@.user_id is None,
        final(client)@.account == old(client)@.account,
        final(client)@.config == old(client)@.config,
{
}

/// A client for another account acts as that account, with the same settings and not yet
/// authenticated; and a client acts itself exactly for accounts of its own identity.
pub proof fn a_client_acts_as_its_account(
    client: MonClubClient,
    account: Account,
    other: MonClubClient,
    same: bool,
)
    requires
        call_ensures(MonClubClient::client_for, (&client, &account), other),
        call_ensures(MonClubClient::acts_for, (&client, &account), same),
    ensures
        other@.account == account@,
        other@.config.base_url@ == client@.config.base_url@,
        other@.config.retry_duration == client@.config.retry_duration,
        other@.config.retry_interval == client@.config.retry_interval,
        other@.config.latitude == client@.config.latitude,
        other@.config.longitude == client@.config.longitude,
        other@.config.email@ == client@.config.email@,
        other@.config.custom_id@ == client@.config.custom_id@,
        other@.config.users@ == client@.config.users@,
        other@.token is None && other@.user_id is None,
        same <==> account.custom_id@ == client@.account.custom_id
            && crate::text::same_ignoring_case(account.email@, client@.account.email),
{
}

/// The diagnostic rendering of a client shows its account's label and its user, and of its token
/// only whether there is one.
pub proof fn a_client_is_shown_without_its_token(client: MonClubClient, r: String)
    requires
        call_ensures(MonClubClient::debug_text, (&client,), r),
    ensures
        r@ == "MonClubClient { account: "@ + debug_quoted(client@.account.label) + ", user_id: "@
            + (match client@.user_id {
            Some(id) => "Some("@ + debug_quoted(id) + ")"@,
            None => "None"@,
        }) + ", token: "@ + (if client@.token is Some {
            "Some(\"<redacted>\")"@
        } else {
            "None"@
        }) + ", .. }"@,
{
}

/// A new client acts as the primary account, one made for an account as that account; neither is
/// authenticated.
pub proof fn a_new_client_is_not_authenticated(
    config: Config,
    account: Account,
    primary: MonClubClient,
    other: MonClubClient,
)
    requires
        call_ensures(MonClubClient::new, (config,), primary),
        call_ensures(MonClubClient::with_account, (config, account), other),
    ensures
        primary@.config == config && other@.config == config,
        primary@.account.label == "me"@ && primary@.account.email == config.email@
            && primary@.account.password == config.password@ && primary@.account.custom_id
            == config.custom_id@,
        other@.account == account@,
        primary@.token is None && primary@.user_id is None,
        other@.token is None && other@.user_id is None,
        primary@.bearer().len() == 0 && primary@.user().len() == 0,
{
}

} // verus!
