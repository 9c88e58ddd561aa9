use timez_core::decimal::parse_u32;
use timez_core::oauth::{callback_path, google_auth_url, read_callback, redirect_uri, CallbackOutcome};
use timez_core::text::{auth_header, extract_query_param, urldecd, urlencod};

fn chars(s: &str) -> Vec<char> {
    s.chars().collect()
}

#[test]
fn auth_header_adds_bearer() {
    assert_eq!(auth_header(&Some("abc".to_string())), Some("Bearer abc".to_string()));
    assert_eq!(auth_header(&None), None);
}

#[test]
fn urlencod_escapes_oauth_characters() {
    assert_eq!(urlencod("http://127.0.0.1:8080"), "http%3A%2F%2F127.0.0.1%3A8080");
    assert_eq!(urlencod("a b&c=d+e%f"), "a%20b%26c%3Dd%2Be%25f");
    assert_eq!(urlencod("plain-id.apps"), "plain-id.apps");
    assert_eq!(urlencod(""), "");
}

#[test]
fn urldecd_reads_escapes_and_plus() {
    assert_eq!(urldecd("4%2F0Adeu5BW"), "4/0Adeu5BW");
    assert_eq!(urldecd("a+b"), "a b");
    assert_eq!(urldecd("%41%62"), "Ab");
    assert_eq!(urldecd("%zz!"), "!");
    assert_eq!(urldecd("%4"), "\u{4}");
    assert_eq!(urldecd("%"), "");
    assert_eq!(urldecd("%+4x"), "\u{4}x");
    assert_eq!(urldecd("%E9"), "\u{e9}");
}

#[test]
fn decode_undoes_encode() {
    for s in ["a b&c=d+e%f/g:h", "http://127.0.0.1:45678", "", "100% sure"] {
        assert_eq!(urldecd(&urlencod(s)), s);
    }
}

#[test]
fn extract_query_param_finds_values() {
    let path = "/?code=4%2F0Adeu5&scope=email+profile";
    assert_eq!(extract_query_param(path, "code"), Some("4/0Adeu5".to_string()));
    assert_eq!(extract_query_param(path, "scope"), Some("email profile".to_string()));
    assert_eq!(extract_query_param(path, "state"), None);
    assert_eq!(extract_query_param("/callback", "code"), None);
    assert_eq!(extract_query_param("/?code&code=x", "code"), None);
    assert_eq!(extract_query_param("/?a=1?code=2", "code"), None);
    assert_eq!(extract_query_param("/?x=1&code=a=b", "code"), Some("a=b".to_string()));
    assert_eq!(extract_query_param("/?error=access_denied", "error"), Some("access_denied".to_string()));
}

#[test]
fn encoded_param_reads_back() {
    let value = "a b&c=d";
    let path = format!("/?code={}&scope=x", urlencod(value));
    assert_eq!(extract_query_param(&path, "code"), Some(value.to_string()));
}

#[test]
fn auth_url_and_redirect() {
    assert_eq!(redirect_uri(45678), "http://127.0.0.1:45678");
    assert_eq!(redirect_uri(0), "http://127.0.0.1:0");
    assert_eq!(
        google_auth_url("my id", "http://127.0.0.1:1"),
        "https://accounts.google.com/o/oauth2/v2/auth?client_id=my%20id&redirect_uri=http%3A%2F%2F127.0.0.1%3A1&response_type=code&scope=email%20profile%20openid&access_type=offline&prompt=consent"
    );
}

#[test]
fn callback_path_takes_second_word_of_first_line() {
    assert_eq!(callback_path("GET /?code=1 HTTP/1.1\r\nHost: x\r\n\r\n"), "/?code=1");
    assert_eq!(callback_path("  GET\t/p  HTTP/1.1"), "/p");
    assert_eq!(callback_path("GET"), "");
    assert_eq!(callback_path(""), "");
    assert_eq!(callback_path("\nGET /x HTTP/1.1"), "");
    assert_eq!(callback_path("GET\u{3000}/wide HTTP/1.1"), "/wide");
}

#[test]
fn read_callback_outcomes() {
    assert_eq!(
        read_callback("GET /?code=abc&scope=email HTTP/1.1\r\n"),
        CallbackOutcome::Code("abc".to_string())
    );
    assert_eq!(
        read_callback("GET /?error=access_denied&code=abc HTTP/1.1\r\n"),
        CallbackOutcome::Denied("access_denied".to_string())
    );
    assert_eq!(read_callback("GET /favicon.ico HTTP/1.1\r\n"), CallbackOutcome::NoCode);
    assert_eq!(
        CallbackOutcome::Denied("x".to_string()).into_result(),
        Err("OAuth error: x".to_string())
    );
    assert_eq!(
        CallbackOutcome::NoCode.into_result(),
        Err("No authorization code in callback".to_string())
    );
    assert_eq!(CallbackOutcome::Code("c".to_string()).into_result(), Ok("c".to_string()));
}

#[test]
fn parse_u32_as_std_does() {
    for s in ["0", "42", "+7", "4294967295", "4294967296", "", "+", "-1", "12a", " 1", "007"] {
        assert_eq!(parse_u32(&chars(s)), s.parse::<u32>().ok(), "input {:?}", s);
    }
}
