//! XML-RPC request serialization and status handling for LoopiaAPI.

use vstd::prelude::*;
use crate::text::{push_char, decimal, i64_to_string};
use crate::value::{Value, Json, views};
use crate::json::{json_text, to_json_text};
use crate::error::{Error, ErrorCode, Failure};
pub use crate::parse::parse_response;
use crate::xml::{entity_at, only_predefined_entities, decode_predefined};

verus! {

broadcast use vstd::string::group_string_axioms;

/// How one character is written inside XML text or an attribute.
pub open spec fn escape_char(c: char) -> Seq<char> {
    if c == '&' {
        "&amp;"@
    } else if c == '<' {
        "&lt;"@
    } else if c == '>' {
        "&gt;"@
    } else if c == '"' {
        "&quot;"@
    } else if c == '\'' {
        "&apos;"@
    } else {
        seq![c]
    }
}

/// A string with each of `& < > " '` replaced by its entity.
pub open spec fn escaped(s: Seq<char>) -> Seq<char>
    decreases s.len(),
{
    if s.len() == 0 {
        Seq::empty()
    } else {
        escaped(s.drop_last()) + escape_char(s.last())
    }
}

/// The five characters that XML text cannot hold as they are.
pub open spec fn is_markup(c: char) -> bool {
    c == '&' || c == '<' || c == '>' || c == '"' || c == '\''
}

/// Escaped text holds no `<`, `>`, `"` or `'`; text without any of the
/// five characters `& < > " '` is left as it is.
pub proof fn escaping_removes_markup(s: Seq<char>)
    ensures
        !escaped(s).contains('<'),
        !escaped(s).contains('>'),
        !escaped(s).contains('"'),
        !escaped(s).contains('\''),
        (forall|i: int| 0 <= i < s.len() ==> !is_markup(#[trigger] s[i])) ==> escaped(s) == s,
    decreases s.len(),
{
    if s.len() > 0 {
        escaping_removes_markup(s.drop_last());
        let e = escaped(s);
        let head = escaped(s.drop_last());
        let tail = escape_char(s.last());
        assert(e == head + tail);
        assert(!tail.contains('<') && !tail.contains('>') && !tail.contains('"') && !tail.contains('\'')) by {
            reveal_strlit("&amp;");
            reveal_strlit("&lt;");
            reveal_strlit("&gt;");
            reveal_strlit("&quot;");
            reveal_strlit("&apos;");
        }
        assert forall|c: char| e.contains(c) implies head.contains(c) || tail.contains(c) by {
            let k = choose|k: int| 0 <= k < e.len() && e[k] == c;
            if k < head.len() {
                assert(head[k] == c);
            } else {
                assert(tail[k - head.len()] == c);
            }
        }
        if forall|i: int| 0 <= i < s.len() ==> !is_markup(#[trigger] s[i]) {
            assert(!is_markup(s.last()));
            assert(forall|i: int| 0 <= i < s.drop_last().len() ==> !is_markup(#[trigger] s.drop_last()[i]) ) by {
                assert forall|i: int| 0 <= i < s.drop_last().len() implies !is_markup(#[trigger] s.drop_last()[i]) by {
                    assert(s.drop_last()[i] == s[i]);
                }
            }
            assert(e =~= s);
        }
    }
}

proof fn lemma_entity_prefix(x: Seq<char>, y: Seq<char>)
    requires
        entity_at(x) is Some,
    ensures
        entity_at(x + y) == entity_at(x),
{
    let xy = x + y;
    assert(x.len() >= 4);
    assert(xy.take(4) =~= x.take(4));
    assert(x[1] == x.take(4)[1] && x[2] == x.take(4)[2]);
    if x.len() >= 5 {
        assert(xy.take(5) =~= x.take(5));
    }
    if x.len() >= 6 {
        assert(xy.take(6) =~= x.take(6));
    }
    if xy.len() >= 5 {
        assert(xy.take(5)[1] == x[1] && xy.take(5)[2] == x[2]);
    }
    if xy.len() >= 6 {
        assert(xy.take(6)[1] == x[1] && xy.take(6)[2] == x[2]);
    }
}

proof fn lemma_predefined_skip(a: Seq<char>, n: int)
    requires
        only_predefined_entities(a),
        0 <= n <= a.len(),
    ensures
        only_predefined_entities(a.skip(n)),
{
    assert forall|i: int| 0 <= i < a.skip(n).len() && #[trigger] a.skip(n)[i] == '&' implies entity_at(
        a.skip(n).skip(i),
    ) is Some by {
        assert(a[n + i] == '&');
        assert(a.skip(n).skip(i) =~= a.skip(n + i));
    }
}

proof fn lemma_predefined_concat(a: Seq<char>, b: Seq<char>)
    requires
        only_predefined_entities(a),
        only_predefined_entities(b),
    ensures
        only_predefined_entities(a + b),
{
    let ab = a + b;
    assert forall|i: int| 0 <= i < ab.len() && #[trigger] ab[i] == '&' implies entity_at(ab.skip(i)) is Some by {
        if i < a.len() {
            assert(a[i] == '&');
            assert(ab.skip(i) =~= a.skip(i) + b);
            lemma_entity_prefix(a.skip(i), b);
        } else {
            assert(b[i - a.len()] == '&');
            assert(ab.skip(i) =~= b.skip(i - a.len()));
        }
    }
}

proof fn lemma_decode_concat(a: Seq<char>, b: Seq<char>)
    requires
        only_predefined_entities(a),
    ensures
        decode_predefined(a + b) == decode_predefined(a) + decode_predefined(b),
    decreases a.len(),
{
    if a.len() == 0 {
        assert(a + b =~= b);
        assert(decode_predefined(a) + decode_predefined(b) =~= decode_predefined(b));
    } else {
        let ab = a + b;
        assert(ab[0] == a[0]);
        if a[0] == '&' {
            assert(a.skip(0) =~= a);
            lemma_entity_prefix(a, b);
            let (c, n) = entity_at(a)->Some_0;
            assert(n <= a.len());
            assert(ab.skip(n as int) =~= a.skip(n as int) + b);
            lemma_predefined_skip(a, n as int);
            lemma_decode_concat(a.skip(n as int), b);
            assert(decode_predefined(ab) =~= decode_predefined(a) + decode_predefined(b));
        } else {
            assert(ab.drop_first() =~= a.drop_first() + b);
            lemma_predefined_skip(a, 1);
            assert(a.skip(1) =~= a.drop_first());
            lemma_decode_concat(a.drop_first(), b);
            assert(decode_predefined(ab) =~= decode_predefined(a) + decode_predefined(b));
        }
    }
}

proof fn lemma_escape_char_decodes(c: char)
    ensures
        only_predefined_entities(escape_char(c)),
        decode_predefined(escape_char(c)) == seq![c],
{
    reveal_strlit("&amp;");
    reveal_strlit("&lt;");
    reveal_strlit("&gt;");
    reveal_strlit("&quot;");
    reveal_strlit("&apos;");
    let e = escape_char(c);
    let empty = Seq::<char>::empty();
    assert(decode_predefined(empty) == empty);
    assert(e.skip(0) =~= e);
    assert(e.skip(e.len() as int) =~= empty);
    if c == '&' {
        assert(e =~= seq!['&', 'a', 'm', 'p', ';']);
        assert(e.take(5) =~= e);
    } else if c == '<' {
        assert(e =~= seq!['&', 'l', 't', ';']);
        assert(e.take(4) =~= e);
    } else if c == '>' {
        assert(e =~= seq!['&', 'g', 't', ';']);
        assert(e.take(4) =~= e);
    } else if c == '"' {
        assert(e =~= seq!['&', 'q', 'u', 'o', 't', ';']);
        assert(e.take(6) =~= e);
        assert(e.take(4)[1] == 'q');
    } else if c == '\'' {
        assert(e =~= seq!['&', 'a', 'p', 'o', 's', ';']);
        assert(e.take(6) =~= e);
        assert(e.take(4)[1] == 'a');
        assert(e.take(5)[2] == 'p');
    }
    if is_markup(c) {
        assert(entity_at(e) is Some);
        assert forall|i: int| 0 <= i < e.len() && #[trigger] e[i] == '&' implies entity_at(e.skip(i)) is Some by {
            assert(i == 0);
        }
        assert(decode_predefined(e) =~= seq![c]);
    } else {
        assert(e.drop_first() =~= empty);
        assert(decode_predefined(e) =~= seq![c]);
    }
}

/// Escaped text holds `&` only at the start of one of the five predefined
/// entities, and replacing each entity by its character, as
/// `quick_xml::escape::unescape` does with such text, gives the text back.
pub proof fn unescaping_undoes_escaping(s: Seq<char>)
    ensures
        only_predefined_entities(escaped(s)),
        decode_predefined(escaped(s)) == s,
    decreases s.len(),
{
    if s.len() == 0 {
        assert(decode_predefined(Seq::<char>::empty()) == Seq::<char>::empty());
    } else {
        unescaping_undoes_escaping(s.drop_last());
        lemma_escape_char_decodes(s.last());
        lemma_predefined_concat(escaped(s.drop_last()), escape_char(s.last()));
        lemma_decode_concat(escaped(s.drop_last()), escape_char(s.last()));
        assert(s =~= s.drop_last() + seq![s.last()]);
    }
}

/// Escapes `& < > " '` for use in XML.
pub fn escape_xml(s: &str) -> (out: String)
    ensures
        out@ == escaped(s@),
{
    let mut out = String::new();
    for c in it: s.chars()
        invariant
            it.seq() == s@,
            out@ == escaped(s@.take(it.index() as int)),
    {
        proof {
            assert(s@.take(it.index() + 1).drop_last() == s@.take(it.index() as int));
        }
        if c == '&' {
            out.append("&amp;");
        } else if c == '<' {
            out.append("&lt;");
        } else if c == '>' {
            out.append("&gt;");
        } else if c == '"' {
            out.append("&quot;");
        } else if c == '\'' {
            out.append("&apos;");
        } else {
            push_char(&mut out, c);
        }
    }
    assert(s@.take(s@.len() as int) == s@);
    out
}


/// The XML-RPC `<value>` element that stands for a value.
pub open spec fn value_xml(v: Json) -> Seq<char>
    decreases v,
{
    match v {
        Json::Null => "<value><nil/></value>"@,
        Json::Bool(b) => "<value><boolean>"@ + (if b {
            "1"@
        } else {
            "0"@
        }) + "</boolean></value>"@,
        Json::Int(i) => "<value><int>"@ + decimal(i as int) + "</int></value>"@,
        Json::Double(t) => "<value><double>"@ + t + "</double></value>"@,
        Json::Str(s) => "<value><string>"@ + escaped(s) + "</string></value>"@,
        Json::Array(items) => "<value><array><data>"@ + items_xml(items) + "</data></array></value>"@,
        Json::Object(members) => "<value><struct>"@ + members_xml(members) + "</struct></value>"@,
    }
}

/// The `<value>` elements of the items of an array, in order.
pub open spec fn items_xml(items: Seq<Json>) -> Seq<char>
    decreases items,
{
    if items.len() == 0 {
        Seq::empty()
    } else {
        items_xml(items.drop_last()) + value_xml(items.last())
    }
}

/// The `<member>` elements of a struct, in order.
pub open spec fn members_xml(members: Seq<(Seq<char>, Json)>) -> Seq<char>
    decreases members,
{
    if members.len() == 0 {
        Seq::empty()
    } else {
        members_xml(members.drop_last()) + "<member>"@ + "<name>"@ + escaped(members.last().0)
            + "</name>"@ + value_xml(members.last().1) + "</member>"@
    }
}

/// Writes a value as an XML-RPC `<value>` element.
pub fn serialize_value(v: &Value) -> (out: String)
    ensures
        out@ == value_xml(v@),
    decreases v,
{
    match v {
        Value::Null => String::from_str("<value><nil/></value>"),
        Value::Bool(b) => {
            let mut s = String::from_str("<value><boolean>");
            if *b {
                s.append("1");
            } else {
                s.append("0");
            }
            s.append("</boolean></value>");
            s
        },
        Value::Int(i) => {
            let mut s = String::from_str("<value><int>");
            let digits = i64_to_string(*i);
            s.append(digits.as_str());
            s.append("</int></value>");
            s
        },
        Value::Double(t) => {
            let mut s = String::from_str("<value><double>");
            s.append(t.as_str());
            s.append("</double></value>");
            s
        },
        Value::Str(text) => {
            let mut s = String::from_str("<value><string>");
            let esc = escape_xml(text.as_str());
            s.append(esc.as_str());
            s.append("</string></value>");
            s
        },
        Value::Array(arr) => {
            let mut s = String::from_str("<value><array><data>");
            let ghost head = s@;
            let ghost items = v@->Array_0;
            let mut i: usize = 0;
            while i < arr.len()
                invariant
                    i <= arr.len(),
                    items.len() == arr.len(),
                    forall|k: int| 0 <= k < arr.len() ==> items[k] == (#[trigger] arr[k])@,
                    s@ == head + items_xml(items.take(i as int)),
                    v@ == Json::Array(items),
                    head == "<value><array><data>"@,
                    *v == Value::Array(*arr),
                decreases arr.len() - i,
            {
                proof {
                    vstd::std_specs::vec::axiom_vec_index_decreases(*arr, i as int);
                    assert(items.take(i + 1).drop_last() == items.take(i as int));
                }
                let part = serialize_value(&arr[i]);
                s.append(part.as_str());
                i = i + 1;
            }
            assert(items.take(arr.len() as int) == items);
            s.append("</data></array></value>");
            s
        },
        Value::Object(map) => {
            let mut s = String::from_str("<value><struct>");
            let ghost head = s@;
            let ghost members = v@->Object_0;
            let mut i: usize = 0;
            while i < map.len()
                invariant
                    i <= map.len(),
                    members.len() == map.len(),
                    forall|k: int| 0 <= k < map.len() ==> members[k] == ((#[trigger] map[k]).0@, map[k].1@),
                    s@ == head + members_xml(members.take(i as int)),
                    v@ == Json::Object(members),
                    head == "<value><struct>"@,
                    *v == Value::Object(*map),
                decreases map.len() - i,
            {
                proof {
                    vstd::std_specs::vec::axiom_vec_index_decreases(*map, i as int);
                    assert(members.take(i + 1).drop_last() == members.take(i as int));
                }
                s.append("<member>");
                s.append("<name>");
                let esc = escape_xml(map[i].0.as_str());
                s.append(esc.as_str());
                s.append("</name>");
                let part = serialize_value(&map[i].1);
                s.append(part.as_str());
                s.append("</member>");
                i = i + 1;
            }
            assert(members.take(map.len() as int) == members);
            s.append("</struct></value>");
            s
        },
    }
}

/// The `<param>` elements of a call, in order.
pub open spec fn params_xml(params: Seq<Json>) -> Seq<char>
    decreases params.len(),
{
    if params.len() == 0 {
        Seq::empty()
    } else {
        params_xml(params.drop_last()) + "    <param>\n      "@ + value_xml(params.last())
            + "\n    </param>\n"@
    }
}

/// The XML-RPC `methodCall` document for a method and its parameters.
pub open spec fn request_xml(method: Seq<char>, params: Seq<Json>) -> Seq<char> {
    "<?xml version=\"1.0\" encoding=\"UTF-8\"?>\n"@ + "<methodCall>\n"@ + "  <methodName>"@
        + escaped(method) + "</methodName>\n"@ + "  <params>\n"@ + params_xml(params)
        + "  </params>\n"@ + "</methodCall>"@
}

/// Writes the XML-RPC call of a method with its parameters.
pub fn build_request(method_name: &str, params: &[Value]) -> (xml: String)
    ensures
        xml@ == request_xml(method_name@, views(params@)),
{
    let mut xml = String::from_str("<?xml version=\"1.0\" encoding=\"UTF-8\"?>\n");
    xml.append("<methodCall>\n");
    xml.append("  <methodName>");
    let name = escape_xml(method_name);
    xml.append(name.as_str());
    xml.append("</methodName>\n");
    xml.append("  <params>\n");
    let ghost head = xml@;
    let ghost ps = views(params@);
    let mut i: usize = 0;
    while i < params.len()
        invariant
            i <= params.len(),
            ps == views(params@),
            xml@ == head + params_xml(ps.take(i as int)),
        decreases params.len() - i,
    {
        proof {
            assert(ps.take(i + 1).drop_last() == ps.take(i as int));
        }
        xml.append("    <param>\n      ");
        let part = serialize_value(&params[i]);
        xml.append(part.as_str());
        xml.append("\n    </param>\n");
        i = i + 1;
    }
    assert(ps.take(params.len() as int) == ps);
    xml.append("  </params>\n");
    xml.append("</methodCall>");
    xml
}

/// The status word that a call returned: a string as it stands, the only
/// item of a one-item array, `UNKNOWN_ERROR` for nil, and the JSON text of
/// anything else.
pub open spec fn status_of(v: Json) -> Seq<char>
    decreases v,
{
    match v {
        Json::Str(s) => s,
        Json::Array(items) => if items.len() == 1 {
            status_of(items[0])
        } else {
            json_text(v)
        },
        Json::Null => "UNKNOWN_ERROR"@,
        _ => json_text(v),
    }
}

/// The error reported when an operation answers with a status other than `OK`.
pub open spec fn status_failure(status: Seq<char>, operation: Seq<char>) -> Failure {
    if status == "AUTH_ERROR"@ {
        Failure {
            code: ErrorCode::AuthRequired,
            message: operation + " failed: authentication error."@,
            detail: Some("Invalid LoopiaAPI username or password."@),
            fix: Some("Verify credentials with: loopia accounts test <account>"@),
        }
    } else if status == "BAD_INDATA"@ {
        Failure {
            code: ErrorCode::InvalidInput,
            message: operation + " failed: bad input parameters (BAD_INDATA)."@,
            detail: Some(
                "The parameters supplied to the API call were rejected as malformed or invalid."@,
            ),
            fix: Some("Check command options and arguments with --help."@),
        }
    } else if status == "DOMAIN_OCCUPIED"@ {
        Failure {
            code: ErrorCode::InvalidInput,
            message: operation + " failed: domain is occupied (DOMAIN_OCCUPIED)."@,
            detail: None,
            fix: None,
        }
    } else if status == "DOMAIN_ALREADY_EXISTS"@ {
        Failure {
            code: ErrorCode::InvalidInput,
            message: operation + " failed: domain already exists in account (DOMAIN_ALREADY_EXISTS)."@,
            detail: None,
            fix: None,
        }
    } else if status == "RATE_LIMITED"@ || status == "TOO_MANY_REQUESTS"@ {
        Failure {
            code: ErrorCode::RateLimited,
            message: operation + " failed: rate limited by Loopia API."@,
            detail: None,
            fix: Some("Back off before retrying."@),
        }
    } else {
        Failure {
            code: ErrorCode::Error,
            message: operation + " failed with status: "@ + status,
            detail: None,
            fix: None,
        }
    }
}

/// Reading the status word that LoopiaAPI methods answer with.
pub struct LoopiaStatus;

impl LoopiaStatus {
    pub const OK: &'static str = "OK";

    /// The status word of a call's result.
    pub fn read(result: &Value) -> (status: String)
        ensures
            status@ == status_of(result@),
        decreases result,
    {
        match result {
            Value::Str(s) => s.clone(),
            Value::Array(arr) => {
                if arr.len() == 1 {
                    proof {
                        vstd::std_specs::vec::axiom_vec_index_decreases(*arr, 0);
                    }
                    Self::read(&arr[0])
                } else {
                    to_json_text(result)
                }
            },
            Value::Null => String::from_str("UNKNOWN_ERROR"),
            _ => to_json_text(result),
        }
    }

    /// Succeeds when the status word is `OK` in any letter case; otherwise
    /// fails with the error that the status word stands for.
    pub fn ensure_ok(result: &Value, operation: &str) -> (r: Result<(), Error>)
        ensures
            r is Ok <==> crate::text::eq_ignore_case(status_of(result@), "OK"@),
            r matches Err(e) ==> e@ == status_failure(status_of(result@), operation@),
    {
        let status = Self::read(result);
        if crate::text::eq_ignore_ascii_case(status.as_str(), Self::OK) {
            return Ok(());
        }
        let mut message = String::from_str(operation);
        let err = if status == String::from_str("AUTH_ERROR") {
            message.append(" failed: authentication error.");
            Error::new(ErrorCode::AuthRequired, message).detail(
                String::from_str("Invalid LoopiaAPI username or password."),
            ).fix(String::from_str("Verify credentials with: loopia accounts test <account>"))
        } else if status == String::from_str("BAD_INDATA") {
            message.append(" failed: bad input parameters (BAD_INDATA).");
            Error::new(ErrorCode::InvalidInput, message).detail(
                String::from_str(
                    "The parameters supplied to the API call were rejected as malformed or invalid.",
                ),
            ).fix(String::from_str("Check command options and arguments with --help."))
        } else if status == String::from_str("DOMAIN_OCCUPIED") {
            message.append(" failed: domain is occupied (DOMAIN_OCCUPIED).");
            Error::new(ErrorCode::InvalidInput, message)
        } else if status == String::from_str("DOMAIN_ALREADY_EXISTS") {
            message.append(" failed: domain already exists in account (DOMAIN_ALREADY_EXISTS).");
            Error::new(ErrorCode::InvalidInput, message)
        } else if status == String::from_str("RATE_LIMITED") || status == String::from_str(
            "TOO_MANY_REQUESTS",
        ) {
            message.append(" failed: rate limited by Loopia API.");
            Error::new(ErrorCode::RateLimited, message).fix(
                String::from_str("Back off before retrying."),
            )
        } else {
            message.append(" failed with status: ");
            message.append(status.as_str());
            Error::new(ErrorCode::Error, message)
        };
        Err(err)
    }
}

} // verus!
