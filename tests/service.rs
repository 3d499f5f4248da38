use videogames::handlers::{
    connect_failed, encode_response, finish, handle_delete_request, handle_get_all_request,
    handle_get_request, handle_post_request, handle_put_request, plan_request, Outcome, Plan,
    Response, Statement, Status,
};
use videogames::record::{encode_videogame, encode_videogames, Videogame};
use videogames::request::{get_id, get_videogame_request_body, is_space_char, parse_id};
use videogames::router::{route, text_starts_with, Operation};

fn doom(id: Option<i32>) -> Videogame {
    Videogame {
        id,
        name: "Doom".to_string(),
        description: "".to_string(),
        rating: 5,
        content_rating: "M".to_string(),
        developer: "id".to_string(),
        publisher: "id".to_string(),
        platform: "PC".to_string(),
        genre: "FPS".to_string(),
        release_date: "1993".to_string(),
    }
}

const DOOM_BODY: &str = "{\"name\":\"Doom\",\"description\":\"\",\"rating\":5,\"content_rating\":\"M\",\"developer\":\"id\",\"publisher\":\"id\",\"platform\":\"PC\",\"genre\":\"FPS\",\"release_date\":\"1993\"}";

fn reply_of(p: Plan) -> Response {
    match p {
        Plan::Reply(r) => r,
        Plan::Run(st) => panic!("expected a reply, got {:?}", st),
    }
}

fn statement_of(p: Plan) -> Statement {
    match p {
        Plan::Run(st) => st,
        Plan::Reply(r) => panic!("expected a statement, got {:?}", r),
    }
}

fn same_record(a: &Videogame, b: &Videogame) -> bool {
    a.id == b.id
        && a.name == b.name
        && a.description == b.description
        && a.rating == b.rating
        && a.content_rating == b.content_rating
        && a.developer == b.developer
        && a.publisher == b.publisher
        && a.platform == b.platform
        && a.genre == b.genre
        && a.release_date == b.release_date
}

fn value_matches(v: &serde_json::Value, g: &Videogame) -> bool {
    let text = |k: &str| v.get(k).and_then(|x| x.as_str()).map(|s| s.to_string());
    text("name") == Some(g.name.clone())
        && text("description") == Some(g.description.clone())
        && v.get("rating").and_then(|x| x.as_i64()) == Some(g.rating as i64)
        && text("content_rating") == Some(g.content_rating.clone())
        && text("developer") == Some(g.developer.clone())
        && text("publisher") == Some(g.publisher.clone())
        && text("platform") == Some(g.platform.clone())
        && text("genre") == Some(g.genre.clone())
        && text("release_date") == Some(g.release_date.clone())
}

#[test]
fn id_is_third_slash_piece_first_word() {
    assert_eq!(get_id("DELETE /videogames/42 HTTP/1.1\r\nHost: x\r\n\r\n"), "42");
    assert_eq!(get_id("PUT /videogames/abc HTTP/1.1\r\n\r\n{}"), "abc");
    assert_eq!(get_id("GET /videogames HTTP/1.1\r\n\r\n"), "1.1");
    assert_eq!(get_id("DELETE /videogames/7/extra HTTP/1.1"), "7");
    assert_eq!(get_id("DELETE /videogames/ \t 9 x"), "9");
}

#[test]
fn id_missing_is_empty() {
    assert_eq!(get_id("PATCH nothing here"), "");
    assert_eq!(get_id("one/two"), "");
    assert_eq!(get_id("a/b/"), "");
    assert_eq!(get_id("a/b/   "), "");
    assert_eq!(get_id(""), "");
}

#[test]
fn id_stops_at_unicode_space() {
    assert_eq!(get_id("a/b/12\u{3000}34"), "12");
    assert!(is_space_char('\u{a0}'));
    assert!(is_space_char('\n'));
    assert!(!is_space_char('x'));
}

#[test]
fn parse_id_reads_decimal_integers() {
    assert_eq!(parse_id("42"), Some(42));
    assert_eq!(parse_id("0"), Some(0));
    assert_eq!(parse_id("007"), Some(7));
    assert_eq!(parse_id("-7"), Some(-7));
    assert_eq!(parse_id("+5"), Some(5));
    assert_eq!(parse_id("2147483647"), Some(i32::MAX));
    assert_eq!(parse_id("-2147483648"), Some(i32::MIN));
}

#[test]
fn parse_id_rejects_what_std_rejects() {
    for t in ["", "abc", "12a", "+", "-", "2147483648", "-2147483649", "99999999999999999999", "1.5", " 1"] {
        assert_eq!(parse_id(t), t.parse::<i32>().ok(), "token {:?}", t);
        assert_eq!(parse_id(t), None);
    }
}

#[test]
fn body_follows_last_blank_line() {
    assert_eq!(get_videogame_request_body("POST /videogames HTTP/1.1\r\nA: b\r\n\r\n{\"x\":1}"), "{\"x\":1}");
    assert_eq!(get_videogame_request_body("a\r\n\r\nb\r\n\r\nc"), "c");
    assert_eq!(get_videogame_request_body("a\r\n\r\n\r\nb"), "\r\nb");
    assert_eq!(get_videogame_request_body("a\r\n\r\n"), "");
}

#[test]
fn body_without_blank_line_is_empty() {
    assert_eq!(get_videogame_request_body("POST /videogames HTTP/1.1\r\n{\"x\":1}"), "");
    assert_eq!(get_videogame_request_body(""), "");
}

#[test]
fn routing_by_prefix_in_order() {
    assert_eq!(route("POST /videogames HTTP/1.1"), Operation::Create);
    assert_eq!(route("GET /videogames HTTP/1.1"), Operation::ReadAll);
    assert_eq!(route("GET /videogames/3 HTTP/1.1"), Operation::ReadAll);
    assert_eq!(route("PUT /videogames/3 HTTP/1.1"), Operation::Update);
    assert_eq!(route("DELETE /videogames/3 HTTP/1.1"), Operation::Delete);
    assert_eq!(route("GET /other HTTP/1.1"), Operation::Unknown);
    assert_eq!(route(""), Operation::Unknown);
    assert!(text_starts_with("abc", "ab"));
    assert!(!text_starts_with("ab", "abc"));
}

#[test]
fn unknown_method_not_found() {
    let r = reply_of(plan_request("PATCH /videogames HTTP/1.1\r\n\r\n", None));
    assert_eq!(r.status, Status::NotFound);
    assert_eq!(r.body, "Not Found");
}

#[test]
fn create_then_listing_echoes_fields() {
    let request = format!("POST /videogames HTTP/1.1\r\nHost: x\r\n\r\n{}", DOOM_BODY);
    assert_eq!(get_videogame_request_body(&request), DOOM_BODY);
    let st = statement_of(plan_request(&request, Some(doom(None))));
    match &st {
        Statement::Insert(v) => assert!(same_record(v, &doom(None))),
        other => panic!("unexpected {:?}", other),
    }
    let r = finish(&st, &Outcome::Affected(1));
    assert_eq!(r.status, Status::Success);
    assert_eq!(r.body, "Videogame added");

    let all = statement_of(plan_request("GET /videogames HTTP/1.1\r\n\r\n", None));
    assert!(matches!(all, Statement::SelectAll));
    let r = finish(&all, &Outcome::Rows(vec![doom(Some(1))]));
    assert_eq!(r.status, Status::Success);
    let listed: serde_json::Value = serde_json::from_str(&r.body).unwrap();
    let items = listed.as_array().unwrap();
    assert_eq!(items.len(), 1);
    assert_eq!(items[0].get("id").and_then(|x| x.as_i64()), Some(1));
    assert!(value_matches(&items[0], &doom(None)));
}

#[test]
fn delete_missing_id_not_found() {
    let st = statement_of(plan_request("DELETE /videogames/999999 HTTP/1.1\r\n\r\n", None));
    assert!(matches!(st, Statement::DeleteById(999999)));
    let r = finish(&st, &Outcome::Affected(0));
    assert_eq!(r.status, Status::NotFound);
    assert_eq!(r.body, "Video Game not found");
}

#[test]
fn delete_then_repeat_not_found() {
    let st = statement_of(handle_delete_request("DELETE /videogames/3 HTTP/1.1"));
    let first = finish(&st, &Outcome::Affected(1));
    assert_eq!(first.status, Status::Success);
    assert_eq!(first.body, "Videogame deleted");
    let again = finish(&st, &Outcome::Affected(0));
    assert_eq!(again.status, Status::NotFound);
    assert_eq!(again.body, "Video Game not found");
}

#[test]
fn bad_id_is_server_error() {
    for id in ["abc", "", "12x", "1.5", "99999999999"] {
        let put = reply_of(plan_request(&format!("PUT /videogames/{} HTTP/1.1\r\n\r\n{}", id, DOOM_BODY), Some(doom(None))));
        assert_eq!(put.status, Status::InternalError);
        assert_eq!(put.body, "Error updating videogame");
        let del = reply_of(plan_request(&format!("DELETE /videogames/{} HTTP/1.1", id), None));
        assert_eq!(del.status, Status::InternalError);
        assert_eq!(del.body, "Error deleting videogame");
        let get = reply_of(handle_get_request(&format!("GET /videogames/{} HTTP/1.1", id)));
        assert_eq!(get.status, Status::InternalError);
        assert_eq!(get.body, "Error parsing id");
    }
}

#[test]
fn update_missing_id_still_succeeds() {
    let st = statement_of(handle_put_request("PUT /videogames/424242 HTTP/1.1", Some(doom(None))));
    match &st {
        Statement::UpdateById(id, v) => {
            assert_eq!(*id, 424242);
            assert!(same_record(v, &doom(None)));
        }
        other => panic!("unexpected {:?}", other),
    }
    let r = finish(&st, &Outcome::Affected(0));
    assert_eq!(r.status, Status::Success);
    assert_eq!(r.body, "Videogame updated");
}

#[test]
fn update_without_record_is_server_error() {
    let r = reply_of(handle_put_request("PUT /videogames/1 HTTP/1.1", None));
    assert_eq!(r.status, Status::InternalError);
    assert_eq!(r.body, "Error updating videogame");
}

#[test]
fn create_without_record_is_server_error() {
    let r = reply_of(handle_post_request(None));
    assert_eq!(r.status, Status::InternalError);
    assert_eq!(r.body, "Error adding videogame");
}

#[test]
fn empty_listing_is_empty_array() {
    let st = statement_of(handle_get_all_request("GET /videogames HTTP/1.1"));
    let r = finish(&st, &Outcome::Rows(vec![]));
    assert_eq!(r.status, Status::Success);
    assert_eq!(r.body, "[]");
}

#[test]
fn listing_failure_is_server_error() {
    let r = finish(&Statement::SelectAll, &Outcome::Failed);
    assert_eq!(r.status, Status::InternalError);
    assert_eq!(r.body, "Error getting videogames");
}

#[test]
fn read_one_results() {
    let st = statement_of(handle_get_request("GET /videogames/8 HTTP/1.1"));
    assert!(matches!(st, Statement::SelectById(8)));
    let found = finish(&st, &Outcome::Rows(vec![doom(Some(8))]));
    assert_eq!(found.status, Status::Success);
    assert_eq!(found.body, encode_videogame(&doom(Some(8))));
    let none = finish(&st, &Outcome::Rows(vec![]));
    assert_eq!(none.status, Status::NotFound);
    assert_eq!(none.body, "Videogame not found");
    let failed = finish(&st, &Outcome::Failed);
    assert_eq!(failed.status, Status::NotFound);
}

#[test]
fn statement_failures_are_server_errors() {
    let r = finish(&Statement::Insert(doom(None)), &Outcome::Failed);
    assert_eq!(r.status, Status::InternalError);
    assert_eq!(r.body, "Error adding videogame");
    let r = finish(&Statement::UpdateById(1, doom(None)), &Outcome::Failed);
    assert_eq!(r.body, "Error updating videogame");
    let r = finish(&Statement::DeleteById(1), &Outcome::Failed);
    assert_eq!(r.body, "Error deleting videogame");
    let r = finish(&Statement::DeleteById(1), &Outcome::Rows(vec![]));
    assert_eq!(r.status, Status::InternalError);
}

#[test]
fn connect_failure_messages() {
    assert_eq!(connect_failed(&Statement::Insert(doom(None))).body, "Error adding videogame");
    assert_eq!(connect_failed(&Statement::SelectById(1)).body, "Error parsing id");
    assert_eq!(connect_failed(&Statement::SelectAll).body, "Error getting videogames");
    assert_eq!(connect_failed(&Statement::UpdateById(1, doom(None))).body, "Error updating videogame");
    let r = connect_failed(&Statement::DeleteById(1));
    assert_eq!(r.status, Status::InternalError);
    assert_eq!(r.body, "Error deleting videogame");
}

#[test]
fn record_json_text() {
    assert_eq!(
        encode_videogame(&doom(Some(1))),
        "{\"id\":1,\"name\":\"Doom\",\"description\":\"\",\"rating\":5,\"content_rating\":\"M\",\"developer\":\"id\",\"publisher\":\"id\",\"platform\":\"PC\",\"genre\":\"FPS\",\"release_date\":\"1993\"}"
    );
    let mut g = doom(None);
    g.name = "say \"hi\"\n".to_string();
    g.rating = -12;
    let text = encode_videogame(&g);
    assert!(text.starts_with("{\"id\":null,\"name\":\"say \\\"hi\\\"\\n\",\"description\":\"\",\"rating\":-12,"));
}

#[test]
fn record_json_round_trip() {
    let mut g = doom(Some(77));
    g.description = "quotes \" and \\ and ünïcödé".to_string();
    g.rating = i32::MIN;
    let v: serde_json::Value = serde_json::from_str(&encode_videogame(&g)).unwrap();
    assert!(value_matches(&v, &g));
    assert_eq!(v.get("id").and_then(|x| x.as_i64()), Some(77));
    let none: serde_json::Value = serde_json::from_str(&encode_videogame(&doom(None))).unwrap();
    assert!(none.get("id").unwrap().is_null());
    assert!(value_matches(&none, &doom(None)));
}

#[test]
fn listing_json_text() {
    assert_eq!(encode_videogames(&vec![]), "[]");
    let two = encode_videogames(&vec![doom(Some(1)), doom(Some(2))]);
    assert_eq!(two, format!("[{},{}]", encode_videogame(&doom(Some(1))), encode_videogame(&doom(Some(2)))));
}

#[test]
fn response_text() {
    let ok = Response { status: Status::Success, body: "[]".to_string() };
    assert_eq!(encode_response(&ok), "HTTP/1.1 200 OK\r\nContent-Type: application/json\r\n[]");
    let nf = Response { status: Status::NotFound, body: "Not Found".to_string() };
    assert_eq!(encode_response(&nf), "HTTP/1.1 404 NOT FOUND\r\n\r\nNot Found");
    let err = Response { status: Status::InternalError, body: "Error parsing id".to_string() };
    assert_eq!(encode_response(&err), "HTTP/1.1 500 INTERNAL SERVER ERROR\r\n\r\nError parsing id");
}
