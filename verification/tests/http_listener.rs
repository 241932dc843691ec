use rustspo::http_listener::{
    decide_request, parse_request, CallbackWait, ListenFailure, ListenResult, QueryParams,
    RequestDecision,
};

#[test]
fn parse_query_parameters_test() {
    let request = "/callback?code=abc123&state=xyz789";
    let params = parse_request(request).unwrap();
    assert_eq!(params.query.get("code").unwrap(), "abc123");
    assert_eq!(params.query.get("state").unwrap(), "xyz789");
    assert_eq!(params.path, "/callback");
}

#[test]
fn parse_request_without_query_has_no_parameters() {
    let params = parse_request("/callback").unwrap();
    assert_eq!(params.path, "/callback");
    assert!(params.query.get("code").is_none());
    assert!(!params.query.contains_key("code"));
}

#[test]
fn parse_request_decodes_plus_and_percent_escapes() {
    let params = parse_request("/cb?name=a+b%20c&empty=&flag").unwrap();
    assert_eq!(params.query.get("name").unwrap(), "a b c");
    assert_eq!(params.query.get("empty").unwrap(), "");
    assert_eq!(params.query.get("flag").unwrap(), "");
    assert!(params.query.contains_key("flag"));
}

#[test]
fn parse_request_last_duplicate_wins() {
    let params = parse_request("/cb?x=1&y=7&x=2").unwrap();
    assert_eq!(params.query.get("x").unwrap(), "2");
    assert_eq!(params.query.get("y").unwrap(), "7");
}

#[test]
fn parse_request_rejects_invalid_target() {
    assert!(parse_request("/call back").is_err());
    assert!(parse_request("").is_err());
}

#[test]
fn query_params_from_pairs_last_wins() {
    let q = QueryParams::from_pairs(vec![
        ("a".to_string(), "1".to_string()),
        ("b".to_string(), "2".to_string()),
        ("a".to_string(), "3".to_string()),
    ]);
    assert_eq!(q.get("a").unwrap(), "3");
    assert_eq!(q.get("b").unwrap(), "2");
    assert!(q.get("c").is_none());
    assert!(QueryParams::new().get("a").is_none());
}

#[test]
fn listen_result_from_parts_keeps_path_and_pairs() {
    let r = ListenResult::from_parts("/p".to_string(), vec![("k".to_string(), "v".to_string())]);
    assert_eq!(r.path, "/p");
    assert_eq!(r.query.get("k").unwrap(), "v");
}

#[test]
fn decide_request_accepts_required_path() {
    let d = decide_request("/test?param1=value1&param2=20000", "/test");
    assert_eq!(d.response(), Some((200, "You may close this window.")));
    match d.after_response(false) {
        Some(Ok(r)) => {
            assert_eq!(r.path, "/test");
            assert_eq!(r.query.get("param1").unwrap(), "value1");
            assert_eq!(r.query.get("param2").unwrap(), "20000");
        }
        _ => panic!("expected the request to be accepted"),
    }
}

#[test]
fn decide_request_rejects_other_path_and_keeps_waiting() {
    let d = decide_request("/favicon.ico", "/callback");
    assert!(matches!(d, RequestDecision::Reject(_)));
    assert_eq!(d.response(), Some((404, "404 Not Found")));
    assert!(d.after_response(false).is_none());
}

#[test]
fn decide_request_rejection_after_deadline_times_out() {
    let d = decide_request("/other", "/callback");
    assert!(matches!(d.after_response(true), Some(Err(ListenFailure::TimedOut))));
}

#[test]
fn decide_request_malformed_target_fails_without_answer() {
    let d = decide_request("/bad path", "/callback");
    assert!(d.response().is_none());
    assert!(matches!(d.after_response(false), Some(Err(ListenFailure::Malformed(_)))));
}

#[test]
fn query_keys_and_len_count_distinct_names() {
    let params = parse_request("/cb?x=1&y=7&x=2&z").unwrap();
    assert_eq!(params.query.keys(), vec!["x".to_string(), "y".to_string(), "z".to_string()]);
    let reordered = parse_request("/cb?b=1&a=2&b=3").unwrap();
    assert_eq!(reordered.query.keys(), vec!["b".to_string(), "a".to_string()]);
    assert_eq!(reordered.query.len(), 2);
    assert_eq!(params.query.len(), 3);
    let none = parse_request("/cb").unwrap();
    assert!(none.query.keys().is_empty());
    assert_eq!(none.query.len(), 0);
    assert_eq!(QueryParams::new().len(), 0);
}

#[test]
fn callback_wait_answers_others_404_until_the_awaited_path() {
    let mut wait = CallbackWait::new("/callback");
    assert!(!wait.is_finished());
    let (answer, outcome) = wait.on_request("/favicon.ico");
    assert_eq!(answer, Some((404, "404 Not Found")));
    assert!(outcome.is_none());
    let (answer, outcome) = wait.on_request("/other?code=no");
    assert_eq!(answer, Some((404, "404 Not Found")));
    assert!(outcome.is_none());
    assert!(!wait.is_finished());
    let (answer, outcome) = wait.on_request("/callback?code=abc123&state=xyz789");
    assert_eq!(answer, Some((200, "You may close this window.")));
    match outcome {
        Some(Ok(r)) => {
            assert_eq!(r.path, "/callback");
            assert_eq!(r.query.get("code").unwrap(), "abc123");
            assert_eq!(r.query.get("state").unwrap(), "xyz789");
        }
        _ => panic!("expected the wait to end with the callback"),
    }
    assert!(wait.is_finished());
}

#[test]
fn callback_wait_ends_on_malformed_request_or_time_out() {
    let mut wait = CallbackWait::new("/callback");
    let (answer, outcome) = wait.on_request("/bad path");
    assert!(answer.is_none());
    assert!(matches!(outcome, Some(Err(ListenFailure::Malformed(_)))));
    assert!(wait.is_finished());
    let mut wait = CallbackWait::new("/callback");
    let _ = wait.on_request("/other");
    assert!(matches!(wait.time_out(), Err(ListenFailure::TimedOut)));
    assert!(wait.is_finished());
}
