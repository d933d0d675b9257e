use zermelo::appointment::{Appointment, Record};
use zermelo::time::LocalDateTime;
use zermelo::zermelo::{AuthError, FetchError, Form, Reply, Zermelo};

fn record(start: i64, end: i64, subject: &str) -> Record {
    Record {
        start,
        end,
        subjects: vec![subject.to_string()],
        teachers: Vec::new(),
        groups: Vec::new(),
        locations: Vec::new(),
        cancelled: false,
    }
}

fn answered<T>(status: u16, body: T) -> Reply<T> {
    Reply::Answered { status, body: Ok(body) }
}

fn subjects_of(list: &[Appointment]) -> Vec<String> {
    list.iter().map(|a| a.subjects()[0].clone()).collect()
}

#[test]
fn session_with_a_token_in_hand() {
    let session = Zermelo::new("fajsidu29dj2", "usg");
    assert_eq!(session.url(), "https://usg.zportal.nl/api/v3");
    assert_eq!(session.access_token(), "fajsidu29dj2");
}

#[test]
fn token_request_is_a_form_for_the_school() {
    let form = Zermelo::token_request("123456789101", "cgu");
    assert_eq!(
        form,
        Form {
            url: "https://cgu.zportal.nl/api/v3/oauth/token".to_string(),
            fields: vec![
                ("grant_type".to_string(), "authorization_code".to_string()),
                ("code".to_string(), "123456789101".to_string()),
            ],
        }
    );
}

#[test]
fn code_is_exchanged_for_a_session() {
    let session = Zermelo::from_code("cgu", answered(200, "tok123".to_string())).unwrap();
    assert_eq!(session.url(), "https://cgu.zportal.nl/api/v3");
    assert_eq!(session.access_token(), "tok123");
}

#[test]
fn exchange_takes_every_status_of_success() {
    assert!(Zermelo::from_code("cgu", answered(201, "t".to_string())).is_ok());
    assert!(Zermelo::from_code("cgu", answered(299, "t".to_string())).is_ok());
}

#[test]
fn exchange_refused_with_401_is_an_auth_error() {
    let r = Zermelo::from_code("cgu", Reply::Answered { status: 401, body: Err("no json".to_string()) });
    assert_eq!(r, Err(AuthError::Status(401)));
    // A body that reads well does not make up for the status.
    let r = Zermelo::from_code("cgu", answered(401, "tok".to_string()));
    assert_eq!(r, Err(AuthError::Status(401)));
}

#[test]
fn exchange_fails_on_every_status_but_success() {
    for status in [0u16, 100, 199, 300, 301, 304, 400, 404, 500, 599, 600, u16::MAX] {
        assert_eq!(Zermelo::from_code("cgu", answered(status, "tok".to_string())), Err(AuthError::Status(status)));
    }
}

#[test]
fn exchange_fails_without_a_response() {
    let r = Zermelo::from_code("nowhere", Reply::Failed("dns error".to_string()));
    assert_eq!(r, Err(AuthError::Transport("dns error".to_string())));
}

#[test]
fn exchange_fails_on_a_malformed_body() {
    let r = Zermelo::from_code("cgu", Reply::Answered { status: 200, body: Err("expected value at line 1 column 1".to_string()) });
    assert_eq!(r, Err(AuthError::Malformed("expected value at line 1 column 1".to_string())));
}

#[test]
fn exchange_fails_on_an_empty_token() {
    assert_eq!(Zermelo::from_code("cgu", answered(200, String::new())), Err(AuthError::EmptyToken));
}

#[test]
fn appointments_request_names_the_window_and_the_token() {
    let session = Zermelo::new("tok123", "usg");
    let now = LocalDateTime::new(2021, 3, 15, 9, 30, 0, 3600).unwrap();
    assert_eq!(
        session.appointments_request(&now),
        "https://usg.zportal.nl/api/v3/appointments?user=~me&start=1615762800&end=1615849200&access_token=tok123&valid=true"
    );
}

#[test]
fn appointments_address_names_what_it_is_given() {
    let session = Zermelo::new("tok123", "usg");
    assert_eq!(
        session.appointments_address(82800, 169200),
        "https://usg.zportal.nl/api/v3/appointments?user=~me&start=82800&end=169200&access_token=tok123&valid=true"
    );
    assert_eq!(
        session.appointments_address(-5, 0),
        "https://usg.zportal.nl/api/v3/appointments?user=~me&start=-5&end=0&access_token=tok123&valid=true"
    );
    assert_eq!(
        session.appointments_address(i64::MIN, i64::MAX),
        "https://usg.zportal.nl/api/v3/appointments?user=~me&start=-9223372036854775808&end=9223372036854775807&access_token=tok123&valid=true"
    );
}

#[test]
fn appointments_request_is_the_address_of_the_window() {
    let session = Zermelo::new("tok123", "usg");
    let now = LocalDateTime::new(1970, 1, 2, 8, 0, 0, 3600).unwrap();
    let (start, end) = now.day_window();
    assert_eq!(session.appointments_request(&now), session.appointments_address(start, end));
    assert_eq!(session.appointments_request(&now), session.appointments_address(82800, 169200));
}

#[test]
fn appointments_request_before_the_epoch() {
    let session = Zermelo::new("t", "s");
    let now = LocalDateTime::new(1969, 12, 31, 23, 0, 0, 0).unwrap();
    assert_eq!(
        session.appointments_request(&now),
        "https://s.zportal.nl/api/v3/appointments?user=~me&start=-86400&end=0&access_token=t&valid=true"
    );
}

#[test]
fn appointments_come_sorted() {
    let session = Zermelo::new("tok", "usg");
    let list = session
        .get_appointments(answered(200, vec![record(1000, 2000, "late"), record(500, 900, "early")]))
        .unwrap();
    assert_eq!(subjects_of(&list), vec!["early", "late"]);
    assert_eq!(list[0].start(), 500);
    assert_eq!(list[1].start(), 1000);
}

#[test]
fn appointments_with_one_start_keep_their_order() {
    let session = Zermelo::new("tok", "usg");
    let list = session
        .get_appointments(answered(200, vec![record(9, 10, "z"), record(5, 6, "B"), record(5, 7, "A"), record(1, 2, "a")]))
        .unwrap();
    assert_eq!(subjects_of(&list), vec!["a", "B", "A", "z"]);
}

#[test]
fn empty_answer_is_an_empty_list() {
    let session = Zermelo::new("tok", "usg");
    assert_eq!(session.get_appointments(answered(200, Vec::new())), Ok(Vec::new()));
}

#[test]
fn fetch_fails_on_every_status_but_success() {
    let session = Zermelo::new("tok", "usg");
    for status in [199u16, 300, 401, 403, 404, 500] {
        assert_eq!(session.get_appointments(answered(status, vec![record(1, 2, "a")])), Err(FetchError::Status(status)));
    }
    assert!(session.get_appointments(answered(204, Vec::new())).is_ok());
}

#[test]
fn fetch_fails_without_a_response() {
    let session = Zermelo::new("tok", "usg");
    assert_eq!(
        session.get_appointments(Reply::Failed("connection reset".to_string())),
        Err(FetchError::Transport("connection reset".to_string()))
    );
}

#[test]
fn fetch_fails_on_a_malformed_body() {
    let session = Zermelo::new("tok", "usg");
    assert_eq!(
        session.get_appointments(Reply::Answered { status: 200, body: Err("missing field `data`".to_string()) }),
        Err(FetchError::Malformed("missing field `data`".to_string()))
    );
}

#[test]
fn fetch_fails_on_an_appointment_that_does_not_end_after_it_starts() {
    let session = Zermelo::new("tok", "usg");
    assert_eq!(
        session.get_appointments(answered(200, vec![record(1, 2, "a"), record(5, 5, "b")])),
        Err(FetchError::Invalid)
    );
}

#[test]
fn auth_errors_in_words() {
    assert_eq!(AuthError::Transport("dns error".to_string()).message(), "dns error");
    assert_eq!(AuthError::Status(401).message(), "the service answered with status 401");
    assert_eq!(AuthError::Malformed("bad json".to_string()).message(), "bad json");
    assert_eq!(AuthError::EmptyToken.message(), "the service sent an empty access token");
}

#[test]
fn fetch_errors_in_words() {
    assert_eq!(FetchError::Transport("timed out".to_string()).message(), "timed out");
    assert_eq!(FetchError::Status(500).message(), "the service answered with status 500");
    assert_eq!(FetchError::Malformed("bad json".to_string()).message(), "bad json");
    assert_eq!(
        FetchError::Invalid.message(),
        "the service sent an appointment that does not end after it starts"
    );
}
