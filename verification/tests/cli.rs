use reqwest::header::HeaderMap;
use webfox::{parse_var, Args, Command, ContentType, Method, ParseErrorKind, RequestItemType};

fn item(kind: RequestItemType, key: &str, value: &str) -> (RequestItemType, String, String) {
    (kind, String::from(key), String::from(value))
}

fn header(headers: &HeaderMap, name: &str) -> Option<String> {
    headers.get(name).map(|value| String::from(value.to_str().unwrap()))
}

#[test]
fn needurl() {
    Args::parse(vec!["program", "someurl.com"]).unwrap();
    assert!(Args::parse(vec!["program"]).is_err());
}

#[test]
fn longopts() {
    let args = Args::parse(vec!["program", "someurl.com", "--form"]).unwrap();
    assert_eq!(args.format, ContentType::Form);
}

#[test]
fn shortops() {
    let args = Args::parse(vec!["program", "somurl.com", "-fm"]).unwrap();
    assert_eq!(args.format, ContentType::Multipart);

    let args = Args::parse(vec!["program", "somurl.com", "-mf"]).unwrap();
    assert_eq!(args.format, ContentType::Form);
}

#[test]
fn method() {
    // implicit GET
    let args = Args::parse(vec!["program", "someurl.com"]).unwrap();
    assert_eq!(args.method, Method::Get);

    let methods = vec![
        ("GET", Method::Get),
        ("POST", Method::Post),
        ("PUT", Method::Put),
        ("PATCH", Method::Patch),
        ("HEAD", Method::Head),
        ("OPTIONS", Method::Options),
        ("CONNECT", Method::Connect),
        ("TRACE", Method::Trace),
    ];
    // explicit method
    for (name, method) in methods {
        let args = Args::parse(vec!["program", name, "someurl.com"]).unwrap();
        assert_eq!(args.method, method);
    }
}

#[test]
fn url_rules() {
    // implicit localhost
    let args = Args::parse(vec!["program", ":/hej"]).unwrap();
    assert_eq!(args.url, "http://localhost/hej");

    // implicit localhost with port
    let args = Args::parse(vec!["program", ":3000/hej"]).unwrap();
    assert_eq!(args.url, "http://localhost:3000/hej");

    // implicit http
    let args = Args::parse(vec!["program", "somesite.com:3000/hej"]).unwrap();
    assert_eq!(args.url, "http://somesite.com:3000/hej");
}

#[test]
fn request_items() {
    assert!(
        Some((
            RequestItemType::Header,
            String::from("x-api-key"),
            String::from("1")
        )) == parse_var(String::from("x-api-key:1"))
    );

    assert!(
        Some((
            RequestItemType::KeyVal,
            String::from("x-api-key"),
            String::from("1")
        )) == parse_var(String::from("x-api-key=1"))
    );

    assert!(
        Some((
            RequestItemType::RawJson,
            String::from("x-api-key"),
            String::from("1")
        )) == parse_var(String::from("x-api-key:=1"))
    );

    assert!(
        Some((RequestItemType::Query, String::from("search"), String::from("1")))
            == parse_var(String::from("search==1"))
    );
}

#[test]
fn method_delete() {
    let args = Args::parse(vec!["program", "DELETE", "someurl.com"]).unwrap();
    assert_eq!(args.method, Method::Delete);
}

#[test]
fn new_args_are_an_empty_get_request() {
    let args = Args::new();
    assert_eq!(args.command, Command::Request);
    assert_eq!(args.method, Method::Get);
    assert_eq!(args.url, "");
    assert!(args.headers.is_empty());
    assert!(args.query.is_empty());
    assert!(args.data.is_empty());
    assert_eq!(args.format, ContentType::Json);
}

#[test]
fn bare_url_gives_a_get_request() {
    let args = Args::parse(vec!["program", "someurl.com"]).unwrap();
    assert_eq!(args.command, Command::Request);
    assert_eq!(args.method, Method::Get);
    assert_eq!(args.url, "http://someurl.com");
    assert!(args.data.is_empty());
    assert!(args.headers.is_empty());
    assert!(args.query.is_empty());
    assert_eq!(args.format, ContentType::Json);
}

#[test]
fn full_request_line() {
    let args =
        Args::parse(vec!["program", "POST", "api.com", "a=1", "b:=2", "c:d", "q==x"]).unwrap();
    assert_eq!(args.method, Method::Post);
    assert_eq!(args.url, "http://api.com");
    assert_eq!(
        args.data,
        vec![item(RequestItemType::KeyVal, "a", "1"), item(RequestItemType::RawJson, "b", "2")]
    );
    assert_eq!(args.headers.len(), 1);
    assert_eq!(header(&args.headers, "c"), Some(String::from("d")));
    assert_eq!(args.query, vec![(String::from("q"), String::from("x"))]);
}

#[test]
fn no_url_is_missing_url() {
    let err = Args::parse(vec!["program", "-f"]).unwrap_err();
    assert_eq!(err.kind, ParseErrorKind::MissingUrl);
    assert_eq!(err.ctx, "");
    assert_eq!(err.message(), "missing url, run with -h to get help");

    let err = Args::parse(vec!["program"]).unwrap_err();
    assert_eq!(err.kind, ParseErrorKind::MissingUrl);

    let err = Args::parse(Vec::new()).unwrap_err();
    assert_eq!(err.kind, ParseErrorKind::MissingUrl);

    let err = Args::parse(vec!["program", "POST"]).unwrap_err();
    assert_eq!(err.kind, ParseErrorKind::MissingUrl);
}

#[test]
fn help_and_version_need_no_url() {
    let args = Args::parse(vec!["program", "-h"]).unwrap();
    assert_eq!(args.command, Command::PrintHelp);
    assert_eq!(args.url, "");
    let args = Args::parse(vec!["program", "--version"]).unwrap();
    assert_eq!(args.command, Command::PrintVersion);
    let args = Args::parse(vec!["program", "--help", "-v"]).unwrap();
    assert_eq!(args.command, Command::PrintVersion);
    let args = Args::parse(vec!["program", "-vh"]).unwrap();
    assert_eq!(args.command, Command::PrintHelp);
}

#[test]
fn short_flags_merge() {
    let merged = Args::parse(vec!["program", "url.com", "-fd"]).unwrap();
    let apart = Args::parse(vec!["program", "url.com", "-f", "-d"]).unwrap();
    assert_eq!(merged.format, ContentType::Form);
    assert_eq!(merged.format, apart.format);
    assert_eq!(merged.command, apart.command);
    assert_eq!(merged.url, apart.url);
}

#[test]
fn flags_take_effect_anywhere() {
    let args = Args::parse(vec!["program", "--multi", "PUT", "-d", ":8080", "a=b", "-f"]).unwrap();
    assert_eq!(args.format, ContentType::Form);
    assert_eq!(args.method, Method::Put);
    assert_eq!(args.url, "http://localhost:8080");
    assert_eq!(args.data, vec![item(RequestItemType::KeyVal, "a", "b")]);
}

#[test]
fn debug_flag_changes_nothing() {
    let args = Args::parse(vec!["program", "url.com", "--debug", "-d"]).unwrap();
    assert_eq!(args.command, Command::Request);
    assert_eq!(args.format, ContentType::Json);
}

#[test]
fn lone_dash_is_an_empty_cluster() {
    let args = Args::parse(vec!["program", "-", "url.com"]).unwrap();
    assert_eq!(args.url, "http://url.com");
    assert_eq!(args.format, ContentType::Json);
}

#[test]
fn unknown_options_are_rejected_with_the_token() {
    let err = Args::parse(vec!["program", "url.com", "--zen"]).unwrap_err();
    assert_eq!(err.kind, ParseErrorKind::UnknownOption);
    assert_eq!(err.ctx, "--zen");
    assert_eq!(err.message(), "unknown option: --zen");

    let err = Args::parse(vec!["program", "url.com", "-fz"]).unwrap_err();
    assert_eq!(err.kind, ParseErrorKind::UnknownOption);
    assert_eq!(err.ctx, "-fz");

    let err = Args::parse(vec!["program", "--"]).unwrap_err();
    assert_eq!(err.kind, ParseErrorKind::UnknownOption);
    assert_eq!(err.ctx, "--");

    // flags are matched letter for letter
    let err = Args::parse(vec!["program", "url.com", "-F"]).unwrap_err();
    assert_eq!(err.kind, ParseErrorKind::UnknownOption);
    let err = Args::parse(vec!["program", "url.com", "--Form"]).unwrap_err();
    assert_eq!(err.kind, ParseErrorKind::UnknownOption);
}

#[test]
fn plain_token_after_url_is_invalid() {
    let err = Args::parse(vec!["program", "url.com", "stray"]).unwrap_err();
    assert_eq!(err.kind, ParseErrorKind::InvalidArgument);
    assert_eq!(err.ctx, "stray");
    assert_eq!(err.message(), "invalid argument: stray");
}

#[test]
fn method_literal_after_url_is_no_method() {
    let err = Args::parse(vec!["program", "url.com", "POST"]).unwrap_err();
    assert_eq!(err.kind, ParseErrorKind::InvalidArgument);
    assert_eq!(err.ctx, "POST");

    let err = Args::parse(vec!["program", "GET", "url.com", "POST"]).unwrap_err();
    assert_eq!(err.kind, ParseErrorKind::InvalidArgument);
}

#[test]
fn second_method_literal_is_the_url() {
    let args = Args::parse(vec!["program", "GET", "POST"]).unwrap();
    assert_eq!(args.method, Method::Get);
    assert_eq!(args.url, "http://POST");
}

#[test]
fn method_literals_are_case_sensitive() {
    let args = Args::parse(vec!["program", "post", "url.com=x"]).unwrap();
    assert_eq!(args.method, Method::Get);
    assert_eq!(args.url, "http://post");
    assert_eq!(args.data, vec![item(RequestItemType::KeyVal, "url.com", "x")]);
}

#[test]
fn url_position_wins_over_item_shape() {
    let args = Args::parse(vec!["program", "a=b"]).unwrap();
    assert_eq!(args.url, "http://a=b");
    assert!(args.data.is_empty());
}

#[test]
fn header_names_are_normalized_by_the_http_library() {
    let args = Args::parse(vec!["program", "url.com", "X-Api-Key:secret"]).unwrap();
    assert_eq!(args.headers.len(), 1);
    assert_eq!(header(&args.headers, "x-api-key"), Some(String::from("secret")));
    let names: Vec<String> = args.headers.keys().map(|name| String::from(name.as_str())).collect();
    assert_eq!(names, vec![String::from("x-api-key")]);
}

#[test]
fn later_header_replaces_earlier() {
    let args = Args::parse(vec!["program", "url.com", "c:d", "x:y", "C:e"]).unwrap();
    assert_eq!(args.headers.len(), 2);
    assert_eq!(header(&args.headers, "c"), Some(String::from("e")));
    assert_eq!(header(&args.headers, "x"), Some(String::from("y")));
}

#[test]
fn invalid_header_name_is_rejected_with_the_key() {
    let err = Args::parse(vec!["program", "url.com", "bad name:1"]).unwrap_err();
    assert_eq!(err.kind, ParseErrorKind::HeaderName);
    assert_eq!(err.ctx, "bad name");
    assert_eq!(err.message(), "invalid header name: bad name");

    let err = Args::parse(vec!["program", "url.com", ":1"]).unwrap_err();
    assert_eq!(err.kind, ParseErrorKind::HeaderName);
    assert_eq!(err.ctx, "");
}

#[test]
fn invalid_header_value_is_rejected_with_the_key() {
    let err = Args::parse(vec!["program", "url.com", "x-note:line\nbreak"]).unwrap_err();
    assert_eq!(err.kind, ParseErrorKind::HeaderValue);
    assert_eq!(err.ctx, "x-note");
    assert_eq!(err.message(), "invalid value for header: x-note");

    // the name is looked at first
    let err = Args::parse(vec!["program", "url.com", "bad name:line\nbreak"]).unwrap_err();
    assert_eq!(err.kind, ParseErrorKind::HeaderName);
}

#[test]
fn query_keeps_order_and_duplicates() {
    let args = Args::parse(vec!["program", "url.com", "q==a", "p==b", "q==c"]).unwrap();
    assert_eq!(
        args.query,
        vec![
            (String::from("q"), String::from("a")),
            (String::from("p"), String::from("b")),
            (String::from("q"), String::from("c")),
        ]
    );
}

#[test]
fn data_keeps_order_and_duplicates() {
    let args = Args::parse(vec!["program", "url.com", "a=1", "b:=[1]", "a=2"]).unwrap();
    assert_eq!(
        args.data,
        vec![
            item(RequestItemType::KeyVal, "a", "1"),
            item(RequestItemType::RawJson, "b", "[1]"),
            item(RequestItemType::KeyVal, "a", "2"),
        ]
    );
}

#[test]
fn first_error_wins() {
    let err = Args::parse(vec!["program", "url.com", "stray", "--zen"]).unwrap_err();
    assert_eq!(err.kind, ParseErrorKind::InvalidArgument);
    let err = Args::parse(vec!["program", "--zen", "url.com", "stray"]).unwrap_err();
    assert_eq!(err.kind, ParseErrorKind::UnknownOption);
}

#[test]
fn header_values_are_what_the_http_library_accepts() {
    let args = Args::parse(vec!["program", "url.com", "x-note:caf\u{e9} au lait", "x-tab:a\tb"])
        .unwrap();
    assert_eq!(args.headers.get("x-note").unwrap().as_bytes(), "caf\u{e9} au lait".as_bytes());
    assert_eq!(args.headers.get("x-tab").unwrap().as_bytes(), "a\tb".as_bytes());

    let err = Args::parse(vec!["program", "url.com", "x-note:bell\u{7f}"]).unwrap_err();
    assert_eq!(err.kind, ParseErrorKind::HeaderValue);

    let err = Args::parse(vec!["program", "url.com", "caf\u{e9}:1"]).unwrap_err();
    assert_eq!(err.kind, ParseErrorKind::HeaderName);
    assert_eq!(err.ctx, "caf\u{e9}");
}

#[test]
fn empty_header_value_is_kept() {
    let args = Args::parse(vec!["program", "url.com", "x-empty:"]).unwrap();
    assert_eq!(header(&args.headers, "x-empty"), Some(String::new()));
}
