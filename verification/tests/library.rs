//! The library's parts on their own: the manual, the client's requests and
//! replies, choosing credentials, the stored accounts, and JSON text.

use loopia::account::{account_key, describe, resolve, ApiOptions, Environment, Resolution, Resolved};
use loopia::client::{read_response, status_error, transport_error, Client, DEFAULT_ENDPOINT};
use loopia::config::{text_less, AccountConfig, Config};
use loopia::error::{Error, ErrorCode};
use loopia::commands::Report;
use loopia::json::to_json_text;
use loopia::output::{envelope, exit_status};
use loopia::readme::{agent_readme, API_VERSION, MANUAL};
use loopia::text::blank;
use loopia::value::{find_member, set_member, Value};
use loopia::xmlrpc::build_request;

fn s(text: &str) -> Value {
    Value::Str(text.to_string())
}

fn field<'a>(v: &'a Value, key: &str) -> &'a Value {
    match v {
        Value::Object(ms) => &ms.iter().find(|(k, _)| k == key).expect("member").1,
        _ => panic!("not an object: {v:?}"),
    }
}

fn account(username: &str, customer_number: Option<&str>, endpoint: Option<&str>) -> AccountConfig {
    AccountConfig {
        username: username.to_string(),
        customer_number: customer_number.map(str::to_string),
        endpoint: endpoint.map(str::to_string),
        added_at: "2024-01-01T00:00:00Z".to_string(),
    }
}

fn no_env() -> Environment {
    Environment { account: None, api_username: None, api_password: None, customer_number: None, api_endpoint: None }
}

fn options(account: Option<&str>) -> ApiOptions<'_> {
    ApiOptions { account, username: None, password: None, customer_number: None, endpoint: None }
}

fn stored() -> Config {
    let mut config = Config::new();
    config.put("work".to_string(), account("u@loopiaapi", Some("C-1"), None));
    config.put("home".to_string(), account("h@loopiaapi", None, Some("http://home/RPCSERV")));
    config.default_account = Some("home".to_string());
    config
}

fn resolved(r: Resolution) -> Resolved {
    match r {
        Resolution::Resolved(c) => c,
        Resolution::Failed(e) => panic!("failed: {e:?}"),
        Resolution::NeedConfig => panic!("asks for the config"),
        Resolution::NeedSecret(k) => panic!("asks for the secret {k}"),
    }
}

fn failed(r: Resolution) -> Error {
    match r {
        Resolution::Failed(e) => e,
        _ => panic!("expected a failure"),
    }
}

#[test]
fn agent_readme_command() {
    let out = agent_readme();
    assert_eq!(field(&out, "tool"), &s("loopia"));
    assert_eq!(field(&out, "apiVersion"), &s(API_VERSION));
    assert_eq!(field(field(&out, "exitCodes"), "0"), &s("ok"));
    assert_eq!(field(field(&out, "exitCodes"), "3"), &s("auth_required - stop, surface the remediation to a human"));
    assert_eq!(field(field(&out, "exitCodes"), "7"), &s("no_account - run loopia accounts list"));
    match field(&out, "rules") {
        Value::Array(rules) => assert_eq!(rules.len(), 7),
        other => panic!("rules: {other:?}"),
    }
    assert!(MANUAL.contains("# loopia - agent operating manual"));
}

#[test]
fn exit_code_table_matches_error_codes() {
    let out = agent_readme();
    let codes = field(&out, "exitCodes");
    for code in [
        ErrorCode::Error,
        ErrorCode::Network,
        ErrorCode::AuthRequired,
        ErrorCode::NotFound,
        ErrorCode::RateLimited,
        ErrorCode::InvalidInput,
        ErrorCode::NoAccount,
    ] {
        match field(codes, &code.exit_code().to_string()) {
            Value::Str(line) => assert!(line.starts_with(&format!("{} - ", code.name()))),
            other => panic!("{other:?}"),
        }
    }
}

#[test]
fn client_endpoint_and_customer_number() {
    let c = Client::new("u", "p", Some("  "), None, None);
    assert_eq!(c.endpoint, DEFAULT_ENDPOINT);
    assert_eq!(c.customer_number, None);

    let c = Client::new("u", "p", Some("C-1"), None, Some("http://env/RPCSERV".into()));
    assert_eq!(c.endpoint, "http://env/RPCSERV");
    assert_eq!(c.customer_number.as_deref(), Some("C-1"));

    // A given endpoint wins over the environment's; a blank one means the default.
    let c = Client::new("u", "p", None, Some("http://given/RPCSERV"), Some("http://env/RPCSERV".into()));
    assert_eq!(c.endpoint, "http://given/RPCSERV");
    let c = Client::new("u", "p", None, Some(" "), Some("http://env/RPCSERV".into()));
    assert_eq!(c.endpoint, DEFAULT_ENDPOINT);
    let c = Client::new("u", "p", None, None, Some("".into()));
    assert_eq!(c.endpoint, DEFAULT_ENDPOINT);
}

#[test]
fn call_documents_carry_the_credentials() {
    let c = Client::new("u", "p", Some("C-1"), None, None);
    let args = [s("example.se")];
    assert_eq!(c.call("getDomain", &args), build_request("getDomain", &[s("u"), s("p"), s("C-1"), s("example.se")]));
    assert_eq!(c.call_global("getDomain", &args), build_request("getDomain", &[s("u"), s("p"), s("example.se")]));

    let c = Client::new("u", "p", None, None, None);
    assert_eq!(c.call("getDomains", &[]), build_request("getDomains", &[s("u"), s("p")]));
}

#[test]
fn http_status_errors() {
    let e = status_error(401, "  ");
    assert_eq!(e.code, ErrorCode::AuthRequired);
    assert_eq!(e.message, "Loopia API authentication failed.");
    assert_eq!(e.detail.as_deref(), Some("HTTP 401"));
    assert_eq!(e.fix.as_deref(), Some("Verify credentials with: loopia accounts test <account>"));

    let e = status_error(403, "denied");
    assert_eq!(e.code, ErrorCode::AuthRequired);
    assert_eq!(e.detail.as_deref(), Some("HTTP 403: denied"));

    let e = status_error(404, "");
    assert_eq!(e.code, ErrorCode::NotFound);
    assert_eq!(e.fix, None);

    let e = status_error(429, "slow down");
    assert_eq!(e.code, ErrorCode::RateLimited);
    assert_eq!(e.fix.as_deref(), Some("Back off before retrying."));

    let e = status_error(503, "  maintenance \n");
    assert_eq!(e.code, ErrorCode::Network);
    assert_eq!(e.detail.as_deref(), Some("HTTP 503: maintenance"));

    let e = status_error(418, "teapot");
    assert_eq!(e.code, ErrorCode::Error);
    assert_eq!(e.message, "Loopia API request failed.");
    assert_eq!(e.fix, None);
}

#[test]
fn replies_by_status() {
    let e = read_response(404, b"nope").unwrap_err();
    assert_eq!(e.code, ErrorCode::NotFound);
    assert_eq!(e.detail.as_deref(), Some("HTTP 404: nope"));

    let e = read_response(302, b"<methodResponse/>").unwrap_err();
    assert_eq!(e.code, ErrorCode::Error);

    let body = "<?xml version=\"1.0\"?><methodResponse><params><param><value><int>42</int></value></param></params></methodResponse>";
    assert_eq!(read_response(200, body.as_bytes()).unwrap(), Value::Int(42));

    // Bytes that are not UTF-8 are read with replacement characters.
    let mut bytes = b"<?xml version=\"1.0\"?><methodResponse><params><param><value><string>a".to_vec();
    bytes.push(0xff);
    bytes.extend_from_slice(b"b</string></value></param></params></methodResponse>");
    assert_eq!(read_response(200, &bytes).unwrap(), s("a\u{fffd}b"));
}

#[test]
fn transport_errors() {
    let e = transport_error(true, "timed out".to_string());
    assert_eq!(e.code, ErrorCode::Network);
    assert_eq!(e.message, "The request to Loopia timed out.");
    assert_eq!(e.detail, None);
    assert_eq!(e.fix.as_deref(), Some("Retry once, then stop."));

    let e = transport_error(false, "connection refused".to_string());
    assert_eq!(e.code.exit_code(), 2);
    assert_eq!(e.message, "Could not reach the Loopia XML-RPC API.");
    assert_eq!(e.detail.as_deref(), Some("connection refused"));
}

#[test]
fn explicit_credentials_are_used_directly() {
    let opts = ApiOptions {
        account: Some("work"),
        username: Some("me"),
        password: Some("pw"),
        customer_number: Some("C-9"),
        endpoint: None,
    };
    let r = resolved(resolve(&opts, &no_env(), None, None));
    assert_eq!(r.name, "direct");
    assert_eq!(r.username, "me");
    assert_eq!(r.password, "pw");
    assert_eq!(r.customer_number.as_deref(), Some("C-9"));
    assert_eq!(r.endpoint, None);
}

#[test]
fn stored_account_takes_its_password_from_the_keystore() {
    let config = stored();
    let opts = options(Some("work"));
    match resolve(&opts, &no_env(), Some(&config), None) {
        Resolution::NeedSecret(key) => assert_eq!(key, account_key("work")),
        _ => panic!("asks the keystore first"),
    }
    assert_eq!(account_key("work"), "account:work");
    let r = resolved(resolve(&opts, &no_env(), Some(&config), Some(Some("secret".into()))));
    assert_eq!(r.name, "work");
    assert_eq!(r.username, "u@loopiaapi");
    assert_eq!(r.password, "secret");
    assert_eq!(r.customer_number.as_deref(), Some("C-1"));
    assert_eq!(r.endpoint, None);
    assert_eq!(r.client(None).endpoint, DEFAULT_ENDPOINT);

    // Nothing in the keystore: the environment's password, else an error.
    let env = Environment { api_password: Some("envpw".into()), ..no_env() };
    let r = resolved(resolve(&opts, &env, Some(&config), Some(None)));
    assert_eq!(r.password, "envpw");
    let e = failed(resolve(&opts, &no_env(), Some(&config), Some(None)));
    assert_eq!(e.code, ErrorCode::AuthRequired);
    assert_eq!(e.message, "Account 'work' has no stored password.");
    assert_eq!(e.fix.as_deref(), Some("loopia accounts add work --password <pass> --force"));
}

#[test]
fn account_named_by_environment_or_default() {
    let config = stored();
    let env = Environment { account: Some("work".into()), ..no_env() };
    let r = resolved(resolve(&options(None), &env, Some(&config), Some(Some("x".into()))));
    assert_eq!(r.name, "work");

    // A blank name counts as none: the default account is used.
    let env = Environment { account: Some("  ".into()), ..no_env() };
    let r = resolved(resolve(&options(Some(" ")), &env, Some(&config), Some(Some("x".into()))));
    assert_eq!(r.name, "home");
    assert_eq!(r.endpoint.as_deref(), Some("http://home/RPCSERV"));
    assert_eq!(r.client(Some("http://env/RPCSERV".into())).endpoint, "http://home/RPCSERV");
}

#[test]
fn environment_credentials_without_an_account() {
    let config = Config::new();
    let env = Environment {
        api_username: Some("envuser".into()),
        api_password: Some("envpw".into()),
        customer_number: Some("C-7".into()),
        ..no_env()
    };
    let r = resolved(resolve(&options(None), &env, Some(&config), None));
    assert_eq!(r.name, "env");
    assert_eq!(r.username, "envuser");
    assert_eq!(r.customer_number.as_deref(), Some("C-7"));

    let env = Environment { api_username: Some(" ".into()), api_password: Some("pw".into()), ..no_env() };
    let e = failed(resolve(&options(None), &env, Some(&config), None));
    assert_eq!(e.code, ErrorCode::NoAccount);
    assert_eq!(e.message, "No account specified. Pass --account <name> or configure one.");
    assert_eq!(
        e.detail.as_deref(),
        Some("No accounts configured yet. Run 'loopia accounts add <name> --username <user>'.")
    );
}

#[test]
fn unknown_account_lists_the_stored_ones() {
    let config = stored();
    let e = failed(resolve(&options(Some("nope")), &no_env(), Some(&config), None));
    assert_eq!(e.code, ErrorCode::NoAccount);
    assert_eq!(e.detail.as_deref(), Some("Configured accounts: home (h@loopiaapi), work (u@loopiaapi)"));
    assert_eq!(e.fix.as_deref(), Some("loopia accounts list"));
    assert_eq!(describe(&config), "Configured accounts: home (h@loopiaapi), work (u@loopiaapi)");
}

#[test]
fn stored_accounts_stay_in_name_order() {
    let mut config = Config::new();
    for name in ["m", "b", "z", "a", "b"] {
        config.put(name.to_string(), account(name, None, None));
    }
    let names: Vec<&str> = config.accounts.iter().map(|(n, _)| n.as_str()).collect();
    assert_eq!(names, vec!["a", "b", "m", "z"]);
    assert_eq!(config.find("m"), Some(2));
    assert_eq!(config.find("q"), None);
    assert!(config.remove("b"));
    assert!(!config.remove("b"));
    assert_eq!(config.find("m"), Some(1));
    assert_eq!(config.effective_default(), None);

    assert!(text_less("ab", "b"));
    assert!(text_less("a", "ab"));
    assert!(!text_less("ab", "ab"));
    assert!(!text_less("b", "ab"));
    assert!(text_less("Z", "a"));
}

#[test]
fn put_replaces_and_keeps_the_others() {
    let mut config = stored();
    config.put("work".to_string(), account("new", None, None));
    let i = config.find("work").unwrap();
    assert_eq!(config.accounts[i].1.username, "new");
    let j = config.find("home").unwrap();
    assert_eq!(config.accounts[j].1.username, "h@loopiaapi");
    assert_eq!(config.accounts.len(), 2);
    assert_eq!(config.default_account.as_deref(), Some("home"));
}

#[test]
fn json_text_of_values() {
    let v = Value::Object(vec![
        ("a".to_string(), Value::Int(-3)),
        ("b".to_string(), Value::Array(vec![Value::Bool(true), Value::Null, Value::Double("1.5".into())])),
        ("c".to_string(), s("q\"\\\n\u{1}")),
    ]);
    assert_eq!(to_json_text(&v), "{\"a\":-3,\"b\":[true,null,1.5],\"c\":\"q\\\"\\\\\\n\\u0001\"}");
    assert_eq!(to_json_text(&Value::Array(vec![])), "[]");
    assert_eq!(to_json_text(&Value::Object(vec![])), "{}");
}

#[test]
fn members_are_found_and_set() {
    let mut ms = vec![("a".to_string(), Value::Int(1)), ("b".to_string(), Value::Int(2))];
    assert_eq!(find_member(&ms, &"b".to_string()), Some(1));
    assert_eq!(find_member(&ms, &"c".to_string()), None);
    set_member(&mut ms, "a".to_string(), Value::Int(9));
    set_member(&mut ms, "c".to_string(), Value::Int(3));
    assert_eq!(
        ms,
        vec![("a".to_string(), Value::Int(9)), ("b".to_string(), Value::Int(2)), ("c".to_string(), Value::Int(3))]
    );
}

#[test]
fn blank_text() {
    assert!(blank(""));
    assert!(blank(" \t\n"));
    assert!(!blank(" x "));
}

#[test]
fn error_envelope_and_exit_status() {
    let e = Error::auth("Loopia API authentication failed.".to_string())
        .detail("HTTP 401".to_string())
        .fix("Verify credentials".to_string());
    assert_eq!(
        envelope(&e),
        Value::Object(vec![
            ("code".to_string(), s("auth_required")),
            ("error".to_string(), s("Loopia API authentication failed.")),
            ("detail".to_string(), s("HTTP 401")),
            ("remediation".to_string(), s("Verify credentials")),
        ])
    );
    let plain = Error::invalid("bad".to_string());
    assert_eq!(
        envelope(&plain),
        Value::Object(vec![("code".to_string(), s("invalid_input")), ("error".to_string(), s("bad"))])
    );
    assert_eq!(exit_status(&Report { output: Some(s("x")), error: None }), 0);
    assert_eq!(exit_status(&Report { output: None, error: Some(e) }), 3);
    assert_eq!(exit_status(&Report { output: None, error: Some(plain) }), 6);
}

#[test]
fn account_named_default_is_used_when_none_is_named() {
    let mut config = Config::new();
    config.put("default".to_string(), account("d@loopiaapi", None, None));
    config.put("work".to_string(), account("u@loopiaapi", None, None));
    assert_eq!(config.effective_default().as_deref(), Some("default"));
    let r = resolved(resolve(&options(None), &no_env(), Some(&config), Some(Some("pw".into()))));
    assert_eq!(r.name, "default");
    assert_eq!(r.username, "d@loopiaapi");
    let out = loopia::commands::accounts::list(&config);
    match &out {
        Value::Array(items) => {
            assert_eq!(field(&items[0], "isDefault"), &Value::Bool(true));
            assert_eq!(field(&items[1], "isDefault"), &Value::Bool(false));
        }
        other => panic!("{other:?}"),
    }
    // A default that is set wins over the name.
    config.default_account = Some("work".to_string());
    assert_eq!(config.effective_default().as_deref(), Some("work"));
}

#[test]
fn unicode_whitespace_and_ascii_case() {
    assert!(blank("\u{a0}\u{3000}\u{2003}\t"));
    assert!(!blank("\u{a0}x"));
    assert!(loopia::commands::accounts::confirm_removal("\u{a0}YeS\u{2003}\n").is_ok());
    assert!(loopia::commands::accounts::confirm_removal("yés").is_err());
    assert_eq!(loopia::commands::accounts::given(Some("\u{3000}user\u{85}")), Some("user".to_string()));
}
