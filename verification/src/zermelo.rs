//! A session with the schedule service: the requests it sends and what it
//! makes of the replies.

use crate::appointment::{
    all_valid, appointment_views, record_views, sort, stable_sort_of, validate, Appointment,
    Record,
};
use crate::text::{decimal, decimal_string};
use crate::time::{LocalDateTime, LocalDateTimeView};
use vstd::prelude::*;

verus! {

/// What came of one request, as the transport that sent it saw it.
#[derive(Debug, PartialEq, Eq)]
pub enum Reply<T> {
    /// No response came; the text says why.
    Failed(String),
    /// A response came, with this status. `body` is what its body holds, or
    /// the reason why the body could not be read as what was expected.
    Answered { status: u16, body: Result<T, String> },
}

/// Why no access token was had for an authorization code.
#[derive(Debug, PartialEq, Eq)]
pub enum AuthError {
    /// No response came.
    Transport(String),
    /// The service answered with a status other than success.
    Status(u16),
    /// The body of the answer could not be read.
    Malformed(String),
    /// The answer held an empty access token.
    EmptyToken,
}

/// Why the appointments of the day were not had.
#[derive(Debug, PartialEq, Eq)]
pub enum FetchError {
    /// No response came.
    Transport(String),
    /// The service answered with a status other than success.
    Status(u16),
    /// The body of the answer could not be read.
    Malformed(String),
    /// The answer held an appointment that does not end after it starts.
    Invalid,
}

/// What an `AuthError` stands for.
pub enum AuthErrorView {
    Transport(Seq<char>),
    Status(int),
    Malformed(Seq<char>),
    EmptyToken,
}

/// What a `FetchError` stands for.
pub enum FetchErrorView {
    Transport(Seq<char>),
    Status(int),
    Malformed(Seq<char>),
    Invalid,
}

impl View for AuthError {
    type V = AuthErrorView;

    open spec fn view(&self) -> AuthErrorView {
        match self {
            AuthError::Transport(cause) => AuthErrorView::Transport(cause@),
            AuthError::Status(status) => AuthErrorView::Status(*status as int),
            AuthError::Malformed(cause) => AuthErrorView::Malformed(cause@),
            AuthError::EmptyToken => AuthErrorView::EmptyToken,
        }
    }
}

impl View for FetchError {
    type V = FetchErrorView;

    open spec fn view(&self) -> FetchErrorView {
        match self {
            FetchError::Transport(cause) => FetchErrorView::Transport(cause@),
            FetchError::Status(status) => FetchErrorView::Status(*status as int),
            FetchError::Malformed(cause) => FetchErrorView::Malformed(cause@),
            FetchError::Invalid => FetchErrorView::Invalid,
        }
    }
}

/// The words for a status other than success.
pub open spec fn status_message(status: int) -> Seq<char> {
    "the service answered with status "@ + decimal(status)
}

impl AuthErrorView {
    /// The error in words, with the cause that came from below.
    pub open spec fn message(self) -> Seq<char> {
        match self {
            AuthErrorView::Transport(cause) => cause,
            AuthErrorView::Status(status) => status_message(status),
            AuthErrorView::Malformed(cause) => cause,
            AuthErrorView::EmptyToken => "the service sent an empty access token"@,
        }
    }
}

impl FetchErrorView {
    /// The error in words, with the cause that came from below.
    pub open spec fn message(self) -> Seq<char> {
        match self {
            FetchErrorView::Transport(cause) => cause,
            FetchErrorView::Status(status) => status_message(status),
            FetchErrorView::Malformed(cause) => cause,
            FetchErrorView::Invalid => "the service sent an appointment that does not end after it starts"@,
        }
    }
}

fn status_text(status: u16) -> (s: String)
    ensures
        s@ == status_message(status as int),
{
    let mut out = String::from_str("the service answered with status ");
    out.append(decimal_string(status as i64).as_str());
    out
}

impl AuthError {
    /// The error in words, with the cause that came from below.
    pub fn message(&self) -> (s: String)
        ensures
            s@ == self@.message(),
    {
        match self {
            AuthError::Transport(cause) => cause.clone(),
            AuthError::Status(status) => status_text(*status),
            AuthError::Malformed(cause) => cause.clone(),
            AuthError::EmptyToken => String::from_str("the service sent an empty access token"),
        }
    }
}

impl FetchError {
    /// The error in words, with the cause that came from below.
    pub fn message(&self) -> (s: String)
        ensures
            s@ == self@.message(),
    {
        match self {
            FetchError::Transport(cause) => cause.clone(),
            FetchError::Status(status) => status_text(*status),
            FetchError::Malformed(cause) => cause.clone(),
            FetchError::Invalid => String::from_str(
                "the service sent an appointment that does not end after it starts",
            ),
        }
    }
}

/// Whether a status reports success.
pub open spec fn is_success(status: int) -> bool {
    200 <= status < 300
}

/// The root of a school's API.
pub open spec fn base_url(school: Seq<char>) -> Seq<char> {
    "https://"@ + school + ".zportal.nl/api/v3"@
}

/// The address at which a school exchanges authorization codes.
pub open spec fn token_url(school: Seq<char>) -> Seq<char> {
    base_url(school) + "/oauth/token"@
}

/// The address of the caller's own appointments from `start` to `end`, both
/// in seconds after the Unix epoch.
pub open spec fn appointments_url(base: Seq<char>, start: int, end: int, token: Seq<char>) -> Seq<
    char,
> {
    base + "/appointments?user=~me&start="@ + decimal(start) + "&end="@ + decimal(end)
        + "&access_token="@ + token + "&valid=true"@
}

/// A form to be posted: where to, and its fields by name, in order.
#[derive(Debug, PartialEq, Eq)]
pub struct Form {
    pub url: String,
    pub fields: Vec<(String, String)>,
}

/// What a `Form` stands for.
pub struct FormView {
    pub url: Seq<char>,
    pub fields: Seq<(Seq<char>, Seq<char>)>,
}

impl View for Form {
    type V = FormView;

    open spec fn view(&self) -> FormView {
        FormView {
            url: self.url@,
            fields: self.fields@.map_values(|f: (String, String)| (f.0@, f.1@)),
        }
    }
}

/// The form that exchanges `code` for an access token at `school`.
pub open spec fn token_form(code: Seq<char>, school: Seq<char>) -> FormView {
    FormView {
        url: token_url(school),
        fields: seq![("grant_type"@, "authorization_code"@), ("code"@, code)],
    }
}

/// A session with a school's schedule service. Its access token is never
/// empty.
#[derive(Debug, PartialEq, Eq)]
pub struct Zermelo {
    url: String,
    access_token: String,
}

/// What a session stands for: the root of the school's API, and the access
/// token.
pub struct ZermeloView {
    pub url: Seq<char>,
    pub access_token: Seq<char>,
}

impl ZermeloView {
    /// The access token of a session is not empty.
    pub open spec fn wf(self) -> bool {
        self.access_token.len() > 0
    }
}

impl View for Zermelo {
    type V = ZermeloView;

    closed spec fn view(&self) -> ZermeloView {
        ZermeloView { url: self.url@, access_token: self.access_token@ }
    }
}

/// What is made of the reply to a token request for `school`.
pub open spec fn exchanged(school: Seq<char>, reply: Reply<String>) -> Result<
    ZermeloView,
    AuthErrorView,
> {
    match reply {
        Reply::Failed(cause) => Err(AuthErrorView::Transport(cause@)),
        Reply::Answered { status, body } => if !is_success(status as int) {
            Err(AuthErrorView::Status(status as int))
        } else {
            match body {
                Err(cause) => Err(AuthErrorView::Malformed(cause@)),
                Ok(token) => if token@.len() == 0 {
                    Err(AuthErrorView::EmptyToken)
                } else {
                    Ok(ZermeloView { url: base_url(school), access_token: token@ })
                },
            }
        },
    }
}

fn root(school: &str) -> (url: String)
    ensures
        url@ == base_url(school@),
{
    let mut url = String::from_str("https://");
    url.append(school);
    url.append(".zportal.nl/api/v3");
    url
}

impl Zermelo {
    #[verifier::type_invariant]
    spec fn inv(self) -> bool {
        self@.wf()
    }

    /// A session that uses an access token already in hand.
    pub fn new(access_token: &str, school: &str) -> (session: Zermelo)
        requires
            access_token@.len() > 0,
        ensures
            session@ == (ZermeloView { url: base_url(school@), access_token: access_token@ }),
    {
        Zermelo { url: root(school), access_token: String::from_str(access_token) }
    }

    /// The form that asks `school` for an access token in exchange for an
    /// authorization code.
    pub fn token_request(code: &str, school: &str) -> (form: Form)
        requires
            code@.len() > 0,
            school@.len() > 0,
        ensures
            form@ == token_form(code@, school@),
    {
        let mut url = root(school);
        url.append("/oauth/token");
        let mut fields: Vec<(String, String)> = Vec::new();
        fields.push((String::from_str("grant_type"), String::from_str("authorization_code")));
        fields.push((String::from_str("code"), String::from_str(code)));
        let form = Form { url, fields };
        assert(form@.fields =~= token_form(code@, school@).fields);
        form
    }

    /// The session that the reply to a token request opens, or why it opens
    /// none: no response, a status other than success, a body that could not
    /// be read, or an empty token.
    pub fn from_code(school: &str, reply: Reply<String>) -> (r: Result<Zermelo, AuthError>)
        ensures
            match r {
                Ok(session) => exchanged(school@, reply) == Ok::<ZermeloView, AuthErrorView>(
                    session@,
                ),
                Err(e) => exchanged(school@, reply) == Err::<ZermeloView, AuthErrorView>(e@),
            },
    {
        match reply {
            Reply::Failed(cause) => Err(AuthError::Transport(cause)),
            Reply::Answered { status, body } => {
                if status < 200 || status >= 300 {
                    return Err(AuthError::Status(status));
                }
                match body {
                    Err(cause) => Err(AuthError::Malformed(cause)),
                    Ok(token) => {
                        if token.as_str().is_empty() {
                            Err(AuthError::EmptyToken)
                        } else {
                            Ok(Zermelo { url: root(school), access_token: token })
                        }
                    },
                }
            },
        }
    }

    /// The access token of the session.
    pub fn access_token(&self) -> (token: &str)
        ensures
            token@ == self@.access_token,
            self@.wf(),
    {
        proof {
            use_type_invariant(self);
        }
        self.access_token.as_str()
    }

    /// The root of the school's API.
    pub fn url(&self) -> (url: &str)
        ensures
            url@ == self@.url,
    {
        self.url.as_str()
    }

    /// The address to ask for the caller's appointments from `start` to
    /// `end`, both in seconds after the Unix epoch.
    pub fn appointments_address(&self, start: i64, end: i64) -> (url: String)
        ensures
            url@ == appointments_url(self@.url, start as int, end as int, self@.access_token),
    {
        let mut url = self.url.clone();
        url.append("/appointments?user=~me&start=");
        url.append(decimal_string(start).as_str());
        url.append("&end=");
        url.append(decimal_string(end).as_str());
        url.append("&access_token=");
        url.append(self.access_token.as_str());
        url.append("&valid=true");
        url
    }

    /// The address to ask for the caller's appointments of the calendar day
    /// of `now`.
    pub fn appointments_request(&self, now: &LocalDateTime) -> (url: String)
        ensures
            now@.wf(),
            url@ == appointments_url(
                self@.url,
                now@.day_start(),
                now@.day_start() + 86400,
                self@.access_token,
            ),
    {
        let window = now.day_window();
        self.appointments_address(window.0, window.1)
    }

    /// The appointments that the reply to a request for them holds, sorted
    /// by their start with ties in the order of the reply; or why there are
    /// none to be had: no response, a status other than success, a body that
    /// could not be read, or an appointment that does not end after it
    /// starts.
    pub fn get_appointments(&self, reply: Reply<Vec<Record>>) -> (r: Result<
        Vec<Appointment>,
        FetchError,
    >)
        ensures
            match reply {
                Reply::Failed(cause) => r matches Err(e) && e@ == FetchErrorView::Transport(
                    cause@,
                ),
                Reply::Answered { status, body } => if !is_success(status as int) {
                    r matches Err(e) && e@ == FetchErrorView::Status(status as int)
                } else {
                    match body {
                        Err(cause) => r matches Err(e) && e@ == FetchErrorView::Malformed(
                            cause@,
                        ),
                        Ok(records) => if all_valid(record_views(records@)) {
                            &&& r matches Ok(list)
                            &&& list@.len() == records@.len()
                            &&& stable_sort_of(record_views(records@), appointment_views(list@))
                        } else {
                            r matches Err(e) && e@ == FetchErrorView::Invalid
                        },
                    }
                },
            },
    {
        match reply {
            Reply::Failed(cause) => Err(FetchError::Transport(cause)),
            Reply::Answered { status, body } => {
                if status < 200 || status >= 300 {
                    return Err(FetchError::Status(status));
                }
                match body {
                    Err(cause) => Err(FetchError::Malformed(cause)),
                    Ok(records) => match validate(records) {
                        Some(list) => {
                            assert(record_views(records@).len() == records@.len());
                            Ok(sort(list))
                        },
                        None => Err(FetchError::Invalid),
                    },
                }
            },
        }
    }
}

/// No reply opens a session without an access token: where the exchange
/// succeeds, the session's token is not empty.
pub proof fn lemma_exchange_yields_a_token(school: Seq<char>, reply: Reply<String>)
    ensures
        exchanged(school, reply) matches Ok(session) ==> session.wf(),
{
}

} // verus!
