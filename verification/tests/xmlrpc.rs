use loopia::error::ErrorCode;
use loopia::parse::parse_response;
use loopia::value::Value;
use loopia::xmlrpc::{build_request, escape_xml, serialize_value, LoopiaStatus};

fn s(text: &str) -> Value {
    Value::Str(text.to_string())
}

fn obj(members: Vec<(&str, Value)>) -> Value {
    Value::Object(members.into_iter().map(|(k, v)| (k.to_string(), v)).collect())
}

#[test]
fn test_escape_xml() {
    assert_eq!(escape_xml("a & b < c > 'd' \"e\""), "a &amp; b &lt; c &gt; &apos;d&apos; &quot;e&quot;");
}

#[test]
fn test_serialize_value() {
    assert_eq!(serialize_value(&s("hello")), "<value><string>hello</string></value>");
    assert_eq!(serialize_value(&Value::Int(123)), "<value><int>123</int></value>");
    assert_eq!(serialize_value(&Value::Bool(true)), "<value><boolean>1</boolean></value>");
    assert_eq!(serialize_value(&Value::Bool(false)), "<value><boolean>0</boolean></value>");
    assert_eq!(serialize_value(&Value::Null), "<value><nil/></value>");
}

#[test]
fn test_parse_response_string() {
    let xml = "<?xml version=\"1.0\"?><methodResponse><params><param><value><string>OK</string></value></param></params></methodResponse>";
    let val = parse_response(xml).unwrap();
    assert_eq!(val, s("OK"));
    assert_eq!(LoopiaStatus::read(&val), "OK");
    assert!(LoopiaStatus::ensure_ok(&val, "test").is_ok());
}

#[test]
fn test_parse_response_array_and_struct() {
    let xml = r#"<?xml version="1.0"?>
<methodResponse>
  <params>
    <param>
      <value>
        <array>
          <data>
            <value>
              <struct>
                <member>
                  <name>domain</name>
                  <value><string>example.com</string></value>
                </member>
                <member>
                  <name>paid</name>
                  <value><boolean>1</boolean></value>
                </member>
              </struct>
            </value>
          </data>
        </array>
      </value>
    </param>
  </params>
</methodResponse>"#;
    let val = parse_response(xml).unwrap();
    assert_eq!(val, Value::Array(vec![obj(vec![("domain", s("example.com")), ("paid", Value::Bool(true))])]));
}

#[test]
fn test_parse_fault() {
    let xml = r#"<?xml version="1.0"?>
<methodResponse>
  <fault>
    <value>
      <struct>
        <member>
          <name>faultCode</name>
          <value><int>401</int></value>
        </member>
        <member>
          <name>faultString</name>
          <value><string>Bad credentials</string></value>
        </member>
      </struct>
    </value>
  </fault>
</methodResponse>"#;
    let err = parse_response(xml).unwrap_err();
    assert_eq!(err.code, ErrorCode::AuthRequired);
}

#[test]
fn fault_codes_and_details() {
    let fault = |code: &str, text: &str| {
        format!(
            "<methodResponse><fault><value><struct><member><name>faultCode</name><value>{code}</value></member><member><name>faultString</name><value><string>{text}</string></value></member></struct></value></fault></methodResponse>"
        )
    };
    let err = parse_response(&fault("<int>404</int>", "gone")).unwrap_err();
    assert_eq!(err.code, ErrorCode::NotFound);
    assert_eq!(err.message, "gone");
    assert_eq!(err.detail.as_deref(), Some("faultCode: 404"));
    let err = parse_response(&fault("<string>429</string>", "slow down")).unwrap_err();
    assert_eq!(err.code, ErrorCode::RateLimited);
    let err = parse_response(&fault("<int>500</int>", "boom")).unwrap_err();
    assert_eq!(err.code, ErrorCode::Error);
    assert_eq!(err.message, "XML-RPC fault: boom");
    let err = parse_response("<methodResponse><fault><value><string>x</string></value></fault></methodResponse>").unwrap_err();
    assert_eq!(err.message, "XML-RPC fault occurred.");
    assert_eq!(err.detail, None);
    let err = parse_response(
        "<methodResponse><fault><value><struct><member><name>other</name><value><int>1</int></value></member></struct></value></fault></methodResponse>",
    )
    .unwrap_err();
    assert_eq!(err.message, "XML-RPC fault: Unknown XML-RPC fault");
    assert_eq!(err.detail, None);
}

#[test]
fn parse_scalars_and_edge_cases() {
    let one = |inner: &str| {
        parse_response(&format!("<methodResponse><params><param><value>{inner}</value></param></params></methodResponse>"))
            .unwrap()
    };
    assert_eq!(one("<int> 42 </int>"), Value::Int(42));
    assert_eq!(one("<i4>-7</i4>"), Value::Int(-7));
    assert_eq!(one("<i8>12x</i8>"), s("12x"));
    assert_eq!(one("<boolean>true</boolean>"), Value::Bool(true));
    assert_eq!(one("<boolean>TRUE</boolean>"), Value::Bool(true));
    assert_eq!(one("<boolean>0</boolean>"), Value::Bool(false));
    assert_eq!(one("<double>1500.5</double>"), Value::Double("1500.5".to_string()));
    assert_eq!(one("<dateTime.iso8601>20240101T00:00:00</dateTime.iso8601>"), s("20240101T00:00:00"));
    assert_eq!(one("<base64>aGk=</base64>"), s("aGk="));
    assert_eq!(one("<nil/>"), Value::Null);
    assert_eq!(one("<string/>"), s(""));
    assert_eq!(one("plain text"), s("plain text"));
    assert_eq!(one(""), s(""));
    assert_eq!(one("<custom>c</custom>"), s("c"));
    // no parameter at all reads as nil
    assert_eq!(parse_response("<methodResponse><params></params></methodResponse>").unwrap(), Value::Null);
    // an empty <value/> parameter reads as the empty string
    assert_eq!(parse_response("<methodResponse><params><param><value/></param></params></methodResponse>").unwrap(), s(""));
}

#[test]
fn repeated_struct_member_keeps_last_value_in_place() {
    let xml = "<methodResponse><params><param><value><struct>\
        <member><name>a</name><value><int>1</int></value></member>\
        <member><name>b</name><value><int>2</int></value></member>\
        <member><name>a</name><value><int>3</int></value></member>\
        </struct></value></param></params></methodResponse>";
    assert_eq!(parse_response(xml).unwrap(), obj(vec![("a", Value::Int(3)), ("b", Value::Int(2))]));
}

#[test]
fn malformed_xml_is_an_error() {
    let err = parse_response("<methodResponse><params><param><value><string>x</wrong>").unwrap_err();
    assert_eq!(err.code, ErrorCode::Error);
    assert!(err.message.starts_with("XML error"), "{}", err.message);
}

#[test]
fn written_values_read_back() {
    let v = Value::Array(vec![
        s("a b c"),
        Value::Int(-12),
        Value::Bool(true),
        obj(vec![("k", s("v")), ("n", Value::Null)]),
    ]);
    let xml = format!(
        "<methodResponse><params><param>{}</param></params></methodResponse>",
        serialize_value(&v)
    );
    assert_eq!(parse_response(&xml).unwrap(), v);
}

fn response_with(value: &str) -> String {
    format!("<methodResponse><params><param><value>{value}</value></param></params></methodResponse>")
}

#[test]
fn entity_references_in_text_are_decoded() {
    assert_eq!(parse_response(&response_with("<string>a&amp;b</string>")).unwrap(), s("a&b"));
    assert_eq!(parse_response(&response_with("<string> a &lt; b &amp; c </string>")).unwrap(), s("a < b & c"));
    assert_eq!(parse_response(&response_with("<string>&quot;q&quot; &apos;x&apos; &gt;</string>")).unwrap(), s("\"q\" 'x' >"));
    assert_eq!(parse_response(&response_with("<string>&#65;&#x42;C</string>")).unwrap(), s("ABC"));
    // An unknown entity leaves the text as it stands.
    assert_eq!(parse_response(&response_with("<string>a&nope;b</string>")).unwrap(), s("a&nope;b"));
    // Text directly inside <value>, with a reference.
    assert_eq!(parse_response(&response_with("x &amp; y")).unwrap(), s("x & y"));
    // Member names are decoded too.
    assert_eq!(
        parse_response(&response_with(
            "<struct><member><name>a&amp;b</name><value><int>1</int></value></member></struct>"
        ))
        .unwrap(),
        obj(vec![("a&b", Value::Int(1))])
    );
    // Whitespace around a text node is trimmed; whitespace-only nodes count for nothing.
    assert_eq!(parse_response(&response_with("\n  <string>\n hi \n</string>\n")).unwrap(), s("hi"));
}

#[test]
fn escaped_text_reads_back() {
    let v = s("a < b & c > \"d\" 'e'");
    let xml = format!(
        "<methodResponse><params><param>{}</param></params></methodResponse>",
        serialize_value(&v)
    );
    assert_eq!(parse_response(&xml).unwrap(), v);
}

#[test]
fn request_document() {
    let doc = build_request("get<it>", &[s("u"), Value::Int(5)]);
    assert_eq!(
        doc,
        "<?xml version=\"1.0\" encoding=\"UTF-8\"?>\n<methodCall>\n  <methodName>get&lt;it&gt;</methodName>\n  <params>\n    <param>\n      <value><string>u</string></value>\n    </param>\n    <param>\n      <value><int>5</int></value>\n    </param>\n  </params>\n</methodCall>"
    );
    assert_eq!(
        serialize_value(&Value::Array(vec![Value::Double("2.5".to_string())])),
        "<value><array><data><value><double>2.5</double></value></data></array></value>"
    );
    assert_eq!(
        serialize_value(&obj(vec![("a&b", s("x"))])),
        "<value><struct><member><name>a&amp;b</name><value><string>x</string></value></member></struct></value>"
    );
}

#[test]
fn status_words() {
    assert_eq!(LoopiaStatus::read(&Value::Array(vec![s("OK")])), "OK");
    assert_eq!(LoopiaStatus::read(&Value::Null), "UNKNOWN_ERROR");
    assert_eq!(LoopiaStatus::read(&Value::Int(5)), "5");
    assert_eq!(LoopiaStatus::read(&Value::Array(vec![s("a"), s("b")])), "[\"a\",\"b\"]");
    assert_eq!(LoopiaStatus::read(&obj(vec![("x", Value::Bool(true))])), "{\"x\":true}");
    assert!(LoopiaStatus::ensure_ok(&s("ok"), "op").is_ok());

    let err = LoopiaStatus::ensure_ok(&s("AUTH_ERROR"), "addDomain").unwrap_err();
    assert_eq!(err.code, ErrorCode::AuthRequired);
    assert_eq!(err.message, "addDomain failed: authentication error.");
    assert_eq!(err.detail.as_deref(), Some("Invalid LoopiaAPI username or password."));
    assert_eq!(err.fix.as_deref(), Some("Verify credentials with: loopia accounts test <account>"));

    let err = LoopiaStatus::ensure_ok(&s("BAD_INDATA"), "op").unwrap_err();
    assert_eq!(err.code, ErrorCode::InvalidInput);
    assert_eq!(err.message, "op failed: bad input parameters (BAD_INDATA).");
    let err = LoopiaStatus::ensure_ok(&s("DOMAIN_OCCUPIED"), "op").unwrap_err();
    assert_eq!(err.code, ErrorCode::InvalidInput);
    assert_eq!(err.message, "op failed: domain is occupied (DOMAIN_OCCUPIED).");
    let err = LoopiaStatus::ensure_ok(&s("DOMAIN_ALREADY_EXISTS"), "op").unwrap_err();
    assert_eq!(err.message, "op failed: domain already exists in account (DOMAIN_ALREADY_EXISTS).");
    let err = LoopiaStatus::ensure_ok(&s("TOO_MANY_REQUESTS"), "op").unwrap_err();
    assert_eq!(err.code, ErrorCode::RateLimited);
    assert_eq!(err.fix.as_deref(), Some("Back off before retrying."));
    let err = LoopiaStatus::ensure_ok(&s("RATE_LIMITED"), "op").unwrap_err();
    assert_eq!(err.code, ErrorCode::RateLimited);
    let err = LoopiaStatus::ensure_ok(&Value::Null, "op").unwrap_err();
    assert_eq!(err.code, ErrorCode::Error);
    assert_eq!(err.message, "op failed with status: UNKNOWN_ERROR");
}
