use aspeak::{
    get_rest_endpoint_by_region, get_websocket_endpoint_by_region, parse_header, ArgsError,
    AuthArgs, AuthConfig, AuthOptions, Flag, DEFAULT_ENDPOINT,
};

fn no_args() -> AuthArgs {
    AuthArgs { endpoint: None, region: None, token: None, key: None, headers: Vec::new() }
}

fn no_config() -> AuthConfig {
    AuthConfig { endpoint: None, key: None, token: None, headers: None }
}

fn text(s: &str) -> Option<String> {
    Some(s.to_owned())
}

fn pairs(options: &AuthOptions) -> Vec<(String, String)> {
    options.headers.iter().map(|h| (h.name().to_owned(), h.value().to_owned())).collect()
}

fn pair(name: &str, value: &str) -> (String, String) {
    (name.to_owned(), value.to_owned())
}

#[test]
fn endpoint_of_a_region() {
    assert_eq!(
        get_websocket_endpoint_by_region("eastus"),
        "wss://eastus.tts.speech.microsoft.com/cognitiveservices/websocket/v1"
    );
    assert_eq!(
        get_rest_endpoint_by_region("westeurope"),
        "https://westeurope.tts.speech.microsoft.com/cognitiveservices/v1"
    );
    assert_eq!(
        get_websocket_endpoint_by_region(""),
        "wss://.tts.speech.microsoft.com/cognitiveservices/websocket/v1"
    );
}

#[test]
fn endpoint_precedence() {
    let config = AuthConfig { endpoint: text("wss://profile"), ..no_config() };
    let both = AuthArgs { endpoint: text("wss://given"), region: text("eastus"), ..no_args() };
    assert_eq!(both.to_auth_options(Some(&config)).unwrap().endpoint, "wss://given");
    let region = AuthArgs { region: text("eastus"), ..no_args() };
    assert_eq!(
        region.to_auth_options(Some(&config)).unwrap().endpoint,
        "wss://eastus.tts.speech.microsoft.com/cognitiveservices/websocket/v1"
    );
    assert_eq!(no_args().to_auth_options(Some(&config)).unwrap().endpoint, "wss://profile");
    assert_eq!(no_args().to_auth_options(Some(&no_config())).unwrap().endpoint, DEFAULT_ENDPOINT);
    assert_eq!(no_args().to_auth_options(None).unwrap().endpoint, DEFAULT_ENDPOINT);
    assert_eq!(
        DEFAULT_ENDPOINT,
        "wss://eastus.api.speech.microsoft.com/cognitiveservices/websocket/v1"
    );
}

#[test]
fn token_precedence() {
    let config = AuthConfig { token: text("P"), ..no_config() };
    let given = AuthArgs { token: text("T"), ..no_args() };
    assert_eq!(given.to_auth_options(Some(&config)).unwrap().token, text("T"));
    assert_eq!(no_args().to_auth_options(Some(&config)).unwrap().token, text("P"));
    assert_eq!(no_args().to_auth_options(Some(&no_config())).unwrap().token, None);
    assert_eq!(no_args().to_auth_options(None).unwrap().token, None);
    assert_eq!(given.to_auth_options(None).unwrap().token, text("T"));
}

#[test]
fn key_precedence_is_its_own() {
    let config = AuthConfig { key: text("PK"), token: text("PT"), ..no_config() };
    let given = AuthArgs { key: text("K"), ..no_args() };
    let options = given.to_auth_options(Some(&config)).unwrap();
    assert_eq!(options.key, text("K"));
    assert_eq!(options.token, text("PT"));
    let options = no_args().to_auth_options(Some(&config)).unwrap();
    assert_eq!(options.key, text("PK"));
    assert_eq!(options.token, text("PT"));
}

#[test]
fn profile_headers_come_first() {
    let config = AuthConfig { headers: Some(vec![pair("a", "1")]), ..no_config() };
    let given = AuthArgs { headers: vec![parse_header("b=2").unwrap()], ..no_args() };
    let options = given.to_auth_options(Some(&config)).unwrap();
    assert_eq!(pairs(&options), vec![pair("a", "1"), pair("b", "2")]);
}

#[test]
fn headers_are_not_merged_by_name() {
    let config =
        AuthConfig { headers: Some(vec![pair("X-A", "1"), pair("x-a", "2")]), ..no_config() };
    let given = AuthArgs {
        headers: vec![parse_header("x-a=3").unwrap(), parse_header("X-B=4").unwrap()],
        ..no_args()
    };
    let options = given.to_auth_options(Some(&config)).unwrap();
    assert_eq!(
        pairs(&options),
        vec![pair("x-a", "1"), pair("x-a", "2"), pair("x-a", "3"), pair("x-b", "4")]
    );
}

#[test]
fn headers_without_profile_headers() {
    let given = AuthArgs { headers: vec![parse_header("b=2").unwrap()], ..no_args() };
    assert_eq!(pairs(&given.to_auth_options(Some(&no_config())).unwrap()), vec![pair("b", "2")]);
    assert_eq!(pairs(&given.to_auth_options(None).unwrap()), vec![pair("b", "2")]);
    assert_eq!(pairs(&given.try_into_options().unwrap()), vec![pair("b", "2")]);
}

#[test]
fn first_bad_profile_header_is_named() {
    let config = AuthConfig {
        headers: Some(vec![pair("ok", "1"), pair("bad name", "2"), pair("fine", "bad\nvalue")]),
        ..no_config()
    };
    assert_eq!(
        no_args().to_auth_options(Some(&config)).unwrap_err(),
        ArgsError::HeaderName { name: "bad name".to_owned(), value: "2".to_owned() }
    );
    let config = AuthConfig {
        headers: Some(vec![pair("ok", "1"), pair("fine", "bad\nvalue"), pair("", "")]),
        ..no_config()
    };
    assert_eq!(
        no_args().to_auth_options(Some(&config)).unwrap_err(),
        ArgsError::HeaderValue { name: "fine".to_owned(), value: "bad\nvalue".to_owned() }
    );
}

#[test]
fn without_profile_both_ways_agree() {
    let given = AuthArgs {
        region: text("westus"),
        token: text("T"),
        key: text("K"),
        headers: vec![parse_header("a=1").unwrap()],
        ..no_args()
    };
    let one = given.to_auth_options(None).unwrap();
    let other = given.try_into_options().unwrap();
    assert_eq!(one.endpoint, other.endpoint);
    assert_eq!(one.token, other.token);
    assert_eq!(one.key, other.key);
    assert_eq!(pairs(&one), pairs(&other));
    assert_eq!(other.endpoint, get_websocket_endpoint_by_region("westus"));
    assert_eq!(no_args().try_into_options().unwrap().endpoint, DEFAULT_ENDPOINT);
}

#[test]
fn endpoint_and_region_exclude_each_other() {
    let both = AuthArgs { endpoint: text("wss://given"), region: text("eastus"), ..no_args() };
    assert_eq!(
        both.check_conflicts(),
        Err(ArgsError::Conflict { first: Flag::Region, second: Flag::Endpoint })
    );
    assert_eq!(AuthArgs { region: text("eastus"), ..no_args() }.check_conflicts(), Ok(()));
    assert_eq!(AuthArgs { endpoint: text("e"), ..no_args() }.check_conflicts(), Ok(()));
    assert_eq!(no_args().check_conflicts(), Ok(()));
}
