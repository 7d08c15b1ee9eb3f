use restest::laws::strip;
use restest::parse::parse;
use restest::pattern::Pattern;
use restest::request::Method;
use restest::url::IntoUrl;
use restest::value::{Number, Value};
use restest::{Context, Request};

fn s(text: &str) -> String {
    text.to_string()
}

#[test]
fn context_defaults_to_localhost_port_80() {
    let ctx = Context::new();
    assert_eq!(ctx.host(), "http://localhost");
    assert_eq!(ctx.port(), 80);
}

#[test]
fn context_setters_replace_one_value_each() {
    let ctx = Context::new().with_port(4242).with_host("http://remote");
    assert_eq!(ctx.host(), "http://remote");
    assert_eq!(ctx.port(), 4242);
    let ctx = ctx.with_port(80);
    assert_eq!(ctx.host(), "http://remote");
    assert_eq!(ctx.port(), 80);
}

#[test]
fn str_paths_gain_a_leading_slash() {
    assert_eq!("users".into_url(), s("/users"));
    assert_eq!("/users".into_url(), s("/users"));
    assert_eq!("".into_url(), s("/"));
}

#[test]
fn segment_paths_join_with_slashes() {
    let segments = vec![s("users"), s("42")];
    assert_eq!(segments.into_url(), s("/users/42"));
    let empty: Vec<String> = vec![];
    assert_eq!(empty.into_url(), s(""));
}

#[test]
fn request_builders_set_method_and_description() {
    let request = Request::get("users");
    assert_eq!(request.method(), Method::Get);
    assert_eq!(request.url(), &s("/users"));
    assert_eq!(request.context_description(), &s("GET:/users"));

    let request = Request::post("users");
    assert_eq!(request.method(), Method::Post);
    assert_eq!(request.context_description(), &s("POST:/users"));

    let request = Request::put("users");
    assert_eq!(request.method(), Method::Put);
    assert_eq!(request.context_description(), &s("PUT:/users"));

    let request = Request::delete("users");
    assert_eq!(request.method(), Method::Delete);
    assert_eq!(request.context_description(), &s("DELETE:/users"));
}

#[test]
fn request_headers_and_body_accumulate() {
    let request = Request::get(vec![s("users"), s("scrabsha")])
        .with_header(s("token"), s("mom-said-yes"))
        .with_body(Value::Number(Number::Integral(1)));
    assert_eq!(request.url(), &s("/users/scrabsha"));
    assert_eq!(request.header(), &vec![(s("token"), s("mom-said-yes"))]);
    assert_eq!(request.body(), &Some(Value::Number(Number::Integral(1))));
}

#[test]
fn request_context_replaces_the_description() {
    let request = Request::get("users").with_context(s("fetching the user list"));
    assert_eq!(request.context_description(), &s("fetching the user list"));
}

#[test]
fn object_from_array_keeps_the_last_duplicate() {
    let built = Pattern::object_from_array(vec![
        (s("a"), Pattern::Integer(1)),
        (s("b"), Pattern::Any),
        (s("a"), Pattern::Integer(2)),
    ]);
    assert_eq!(
        built,
        Pattern::Object(vec![(s("a"), Pattern::Integer(2)), (s("b"), Pattern::Any)])
    );
}

#[test]
fn stripping_degrades_bindings_to_wildcards() {
    let pattern = parse("{a: x as i64, b: [y, 2]}").unwrap();
    let stripped = strip(&pattern);
    assert_eq!(stripped, parse("{a: _, b: [_, 2]}").unwrap());
}
