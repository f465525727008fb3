use misskey::api::notes::reactions::create::Request as ReactionRequest;
use misskey::builder::HttpClientBuilder;
use misskey::client::{interpret_response, HttpClient};
use misskey::endpoint::admin::announcements::list::Request as AnnouncementsRequest;
use misskey::error::Error;
use misskey::json::{JsonObject, JsonValue};
use misskey::request::{Request, UploadFileRequest};
use misskey::url::{split_endpoint, Url};

fn url(text: &str) -> Url {
    Url::parse(text).unwrap()
}

fn object(entries: Vec<(&str, JsonValue)>) -> JsonValue {
    let mut o = JsonObject::new();
    for (k, v) in entries {
        o.insert(k.to_string(), v);
    }
    JsonValue::Object(o)
}

fn string(text: &str) -> JsonValue {
    JsonValue::String(text.to_string())
}

fn entries_of(value: &JsonValue) -> Vec<(String, String)> {
    let o = value.as_object().unwrap();
    (0..o.len())
        .map(|i| {
            let (k, v) = o.entry(i);
            let text = match v {
                JsonValue::String(s) => s.clone(),
                JsonValue::Null => "null".to_string(),
                JsonValue::Bool(b) => b.to_string(),
                JsonValue::Number(n) => n.clone(),
                _ => "?".to_string(),
            };
            (k.clone(), text)
        })
        .collect()
}

#[test]
fn client_test_send() {
    fn assert_send<T: Send>() {}
    assert_send::<HttpClient>();
}

#[test]
fn client_test_sync() {
    fn assert_send<T: Sync>() {}
    assert_send::<HttpClient>();
}

#[test]
fn error_test_send() {
    fn assert_send<T: Send>() {}
    assert_send::<Error>();
}

#[test]
fn error_test_sync() {
    fn assert_send<T: Sync>() {}
    assert_send::<Error>();
}

#[test]
fn test_url_without_trailing_slash() {
    let with_slash = HttpClient::new(url("https://misskey.example/api/")).unwrap();
    let without_slash = HttpClient::new(url("https://misskey.example/api")).unwrap();
    let a = with_slash.make_url::<ReactionRequest>().unwrap();
    let b = without_slash.make_url::<ReactionRequest>().unwrap();
    assert_eq!(a.as_str(), "https://misskey.example/api/notes/reactions/create");
    assert_eq!(a.as_str(), b.as_str());
}

#[test]
fn endpoint_segments_are_pushed_one_by_one() {
    let client = HttpClient::new(url("https://misskey.example/api/")).unwrap();
    let u = client.make_url::<AnnouncementsRequest>().unwrap();
    assert_eq!(u.as_str(), "https://misskey.example/api/admin/announcements/list");
    // query and fragment of the root stay after the path
    let client = HttpClient::new(url("https://misskey.example/api/?x=1#top")).unwrap();
    let u = client.endpoint_url("notes/create").unwrap();
    assert_eq!(u.as_str(), "https://misskey.example/api/notes/create?x=1#top");
}

#[test]
fn endpoint_segments_are_percent_encoded() {
    let client = HttpClient::new(url("https://misskey.example/")).unwrap();
    let u = client.endpoint_url("a b/c").unwrap();
    assert_eq!(u.as_str(), "https://misskey.example/a%20b/c");
}

#[test]
fn endpoint_url_on_a_root_without_path_segments_joins() {
    let client = HttpClient::new(url("mailto:admin@misskey.example")).unwrap();
    assert!(!client.url().has_path_segments());
    match client.endpoint_url("notes/create") {
        Err(Error::InvalidUrl(e)) => {
            assert_eq!(e, ::url::ParseError::RelativeUrlWithCannotBeABaseBase)
        }
        _ => panic!("expected an invalid URL"),
    }
    let client = HttpClient::new(url("data:text/plain,x")).unwrap();
    let u = client.endpoint_url("https://other.example/a").unwrap();
    assert_eq!(u.as_str(), "https://other.example/a");
}

#[test]
fn url_parse_errors() {
    assert!(Url::parse("not a url").is_err());
    assert_eq!(
        Url::parse("https://misskey.example").unwrap().as_str(),
        "https://misskey.example/"
    );
    assert!(url("https://misskey.example/").has_path_segments());
}

#[test]
fn split_endpoint_pieces() {
    assert_eq!(split_endpoint("notes/reactions/create"), vec!["notes", "reactions", "create"]);
    assert_eq!(split_endpoint(""), vec![""]);
    assert_eq!(split_endpoint("a/"), vec!["a", ""]);
    assert_eq!(split_endpoint("/a"), vec!["", "a"]);
    assert_eq!(split_endpoint("ü/ß"), vec!["ü", "ß"]);
}

#[test]
fn new_client_has_no_token() {
    let client = HttpClient::new(url("https://misskey.example/api/")).unwrap();
    let request = object(vec![("noteId", string("abc"))]);
    let body = client.set_api_key(request);
    assert_eq!(entries_of(&body), vec![("noteId".to_string(), "abc".to_string())]);
    // without a token a body need not be an object
    let body = client.set_api_key(JsonValue::Null);
    assert!(matches!(body, JsonValue::Null));
}

#[test]
fn api_key_is_added_to_the_body() {
    let client = HttpClient::with_token(url("https://misskey.example/api/"), "secret").unwrap();
    let request = object(vec![("noteId", string("abc")), ("reaction", string("👍"))]);
    let body = client.set_api_key(request);
    assert_eq!(
        entries_of(&body),
        vec![
            ("i".to_string(), "secret".to_string()),
            ("noteId".to_string(), "abc".to_string()),
            ("reaction".to_string(), "👍".to_string()),
        ]
    );
    // taking the key out again gives back the request
    let mut o = match body {
        JsonValue::Object(o) => o,
        _ => panic!(),
    };
    assert!(matches!(o.remove("i"), Some(JsonValue::String(s)) if s == "secret"));
    assert_eq!(o.len(), 2);
    assert!(!o.contains_key("i"));
}

#[test]
fn prepare_request_gives_url_and_body() {
    let client = HttpClient::with_token(url("https://misskey.example/api"), "tok").unwrap();
    let prepared = client
        .prepare_request::<ReactionRequest>(Ok(object(vec![("noteId", string("n1"))])))
        .unwrap();
    assert_eq!(prepared.url.as_str(), "https://misskey.example/api/notes/reactions/create");
    assert_eq!(
        entries_of(&prepared.body),
        vec![
            ("i".to_string(), "tok".to_string()),
            ("noteId".to_string(), "n1".to_string())
        ]
    );
    assert_eq!(ReactionRequest::ENDPOINT, "notes/reactions/create");
}

#[test]
fn prepare_request_reports_an_invalid_url() {
    let client = HttpClient::with_token(url("mailto:x@y"), "tok").unwrap();
    let r = client.prepare_request::<ReactionRequest>(Ok(object(vec![])));
    assert!(matches!(r, Err(Error::InvalidUrl(::url::ParseError::RelativeUrlWithCannotBeABaseBase))));
}

#[test]
fn upload_fields_are_the_entries() {
    let client = HttpClient::with_token(url("https://misskey.example/api/"), "tok").unwrap();
    let fields = client.upload_fields(object(vec![("folderId", string("f")), ("name", string("test.txt"))]));
    assert_eq!(
        fields,
        vec![
            ("folderId".to_string(), "f".to_string()),
            ("i".to_string(), "tok".to_string()),
            ("name".to_string(), "test.txt".to_string()),
        ]
    );
    let client = HttpClient::new(url("https://misskey.example/api/")).unwrap();
    let fields = client.upload_fields(object(vec![]));
    assert!(fields.is_empty());
}

#[test]
fn empty_response_reads_as_null() {
    let r = interpret_response(200, Vec::new());
    assert!(r.success);
    assert_eq!(r.json, b"null".to_vec());
    let r = interpret_response(204, Vec::new());
    assert!(r.success);
    let r = interpret_response(299, b"{}".to_vec());
    assert!(r.success);
    assert_eq!(r.json, b"{}".to_vec());
}

#[test]
fn error_status_is_not_a_success() {
    let body = br#"{"error":{"code":"NO_SUCH_NOTE"}}"#.to_vec();
    let r = interpret_response(400, body.clone());
    assert!(!r.success);
    assert_eq!(r.json, body);
    assert!(!interpret_response(199, Vec::new()).success);
    assert!(!interpret_response(300, Vec::new()).success);
    assert!(!interpret_response(500, Vec::new()).success);
}

#[test]
fn builder_makes_the_same_client_as_with_token() {
    let client = HttpClient::builder("https://misskey.example/api/")
        .token("tok")
        .build()
        .unwrap();
    let direct = HttpClient::with_token(url("https://misskey.example/api/"), "tok").unwrap();
    assert_eq!(client.url().as_str(), direct.url().as_str());
    let a = client.set_api_key(object(vec![]));
    let b = direct.set_api_key(object(vec![]));
    assert_eq!(entries_of(&a), entries_of(&b));
    let from_url = HttpClientBuilder::new(url("https://misskey.example/api/")).build().unwrap();
    assert_eq!(from_url.url().as_str(), "https://misskey.example/api/");
}

#[test]
fn builder_with_a_bad_url_fails() {
    let r = HttpClient::builder("::bad::").build();
    assert!(matches!(r, Err(Error::InvalidUrl(_))));
    let r = HttpClient::builder(String::from("relative/path")).token("t").build();
    assert!(matches!(r, Err(Error::InvalidUrl(::url::ParseError::RelativeUrlWithoutBase))));
}

#[test]
fn debug_shows_the_url_only() {
    let client = HttpClient::with_token(url("https://misskey.example/api/"), "secret").unwrap();
    let text = client.debug_string();
    assert!(text.starts_with("HttpClient { url: Url { scheme: \"https\""));
    assert!(text.ends_with(" }"));
    assert!(!text.contains("secret"));
    assert_eq!(
        url("https://misskey.example/api/").debug_string(),
        format!("{:?}", ::url::Url::parse("https://misskey.example/api/").unwrap())
    );
}

#[test]
fn accepts_checks_the_token_precondition() {
    let with = HttpClient::with_token(url("https://misskey.example/api/"), "t").unwrap();
    let without = HttpClient::new(url("https://misskey.example/api/")).unwrap();
    assert!(with.accepts(&object(vec![("a", JsonValue::Null)])));
    assert!(!with.accepts(&object(vec![("i", string("other"))])));
    assert!(!with.accepts(&JsonValue::Null));
    assert!(without.accepts(&JsonValue::Null));
    assert!(without.accepts(&object(vec![("i", string("other"))])));
}

#[test]
fn all_strings_checks_every_value() {
    let o = object(vec![("a", string("x")), ("b", string("y"))]);
    assert!(o.as_object().unwrap().all_strings());
    let o = object(vec![("a", string("x")), ("b", JsonValue::Number("1".to_string()))]);
    assert!(!o.as_object().unwrap().all_strings());
    assert!(JsonObject::new().all_strings());
}

fn json_error() -> serde_json::Error {
    serde_json::from_str::<u8>("x").unwrap_err()
}

struct FileCreate;

impl Request for FileCreate {
    type Response = ();
    const ENDPOINT: &'static str = "drive/files/create";
}

impl UploadFileRequest for FileCreate {}

#[test]
fn url_error_wins_over_serialization_error() {
    let client = HttpClient::with_token(url("mailto:a@example.com"), "tok").unwrap();
    let r = client.prepare_request::<ReactionRequest>(Err(json_error()));
    assert!(matches!(r, Err(Error::InvalidUrl(::url::ParseError::RelativeUrlWithCannotBeABaseBase))));
    let r = client.prepare_upload::<FileCreate>(Err(json_error()));
    assert!(matches!(r, Err(Error::InvalidUrl(_))));
    // with the URL failing, a request that is no object of strings is no fault
    let r = client.prepare_upload::<FileCreate>(Ok(object(vec![("n", JsonValue::Bool(true))])));
    assert!(matches!(r, Err(Error::InvalidUrl(_))));
}

#[test]
fn serialization_error_comes_next() {
    let client = HttpClient::with_token(url("https://misskey.example/api/"), "tok").unwrap();
    let r = client.prepare_request::<ReactionRequest>(Err(json_error()));
    assert!(matches!(r, Err(Error::Json(_))));
    let r = client.prepare_upload::<FileCreate>(Err(json_error()));
    assert!(matches!(r, Err(Error::Json(_))));
}

#[test]
fn prepare_upload_gives_url_and_fields() {
    let client = HttpClient::with_token(url("https://misskey.example/api/"), "tok").unwrap();
    let p = client
        .prepare_upload::<FileCreate>(Ok(object(vec![("name", string("test.txt"))])))
        .unwrap();
    assert_eq!(p.url.as_str(), "https://misskey.example/api/drive/files/create");
    assert_eq!(p.fields.len(), 2);
    assert!(client.has_token());
    assert!(!HttpClient::new(url("https://misskey.example/api/")).unwrap().has_token());
}

#[test]
fn root_keeping_a_dot_prefix_after_the_pop() {
    // a non-special URL whose path is `//`: the pop leaves `/./`, and the
    // pushes go on from there on the same URL, as url::Url does
    let client = HttpClient::new(url("web+demo:/.//")).unwrap();
    let u = client.endpoint_url("notes/create").unwrap();
    let mut expected = ::url::Url::parse("web+demo:/.//").unwrap();
    expected.path_segments_mut().unwrap().pop_if_empty().push("notes").push("create");
    assert_eq!(u.as_str(), expected.as_str());
}

#[test]
fn try_prepare_upload_refuses_what_prepare_upload_may_not_take() {
    let client = HttpClient::with_token(url("https://misskey.example/api/"), "tok").unwrap();
    assert!(client.try_prepare_upload::<FileCreate>(Ok(object(vec![("i", string("x"))]))).is_none());
    assert!(client.try_prepare_upload::<FileCreate>(Ok(object(vec![("n", JsonValue::Null)]))).is_none());
    assert!(client.try_prepare_upload::<FileCreate>(Ok(JsonValue::Null)).is_none());
    let ok = client.try_prepare_upload::<FileCreate>(Ok(object(vec![("n", string("x"))])));
    assert!(matches!(ok, Some(Ok(_))));
    let bad_root = HttpClient::new(url("mailto:a@example.com")).unwrap();
    let r = bad_root.try_prepare_upload::<FileCreate>(Ok(JsonValue::Null));
    assert!(matches!(r, Some(Err(Error::InvalidUrl(_)))));
}

#[test]
fn trailing_slash_makes_no_difference() {
    for (with, without) in [
        ("https://misskey.example/api/", "https://misskey.example/api"),
        ("https://misskey.example/a/b/?q=1#f", "https://misskey.example/a/b?q=1#f"),
        ("web+demo:/.//a/", "web+demo:/.//a"),
        ("foo:/x/", "foo:/x"),
        ("file:///srv/api/", "file:///srv/api"),
    ] {
        let a = HttpClient::new(url(with)).unwrap();
        let b = HttpClient::new(url(without)).unwrap();
        for endpoint in ["notes/create", "a b/c", ".", "x/../y", ""] {
            assert_eq!(
                a.endpoint_url(endpoint).unwrap().as_str(),
                b.endpoint_url(endpoint).unwrap().as_str(),
                "{} {} {}",
                with,
                without,
                endpoint
            );
        }
    }
}
