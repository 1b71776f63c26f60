//! Reading XML-RPC responses.

use vstd::prelude::*;
use quick_xml::reader::Reader;
use crate::error::{Error, ErrorCode, Failure, failure};
use crate::value::{Value, Json, views, member_views, insert_member, distinct_keys, setting_a_member, lemma_array_view, lemma_object_view, set_member, lookup, find_member};
use crate::text::{decimal, i64_to_string, trimmed, parse_i64_spec, eq_ignore_case, is_blank, trim, parse_i64, eq_ignore_ascii_case, blank, push_char};
use crate::xml::{Tok, XmlEvent, pending, well_formed_stream, is_final, next_event, unescape, xml_unescape, new_reader, xml_events, plain_document, write_toks};
use vstd::string::StrSliceExecFns;

verus! {

broadcast use vstd::string::group_string_axioms;

/// The outcome of reading part of a stream of events: a result and the
/// events that follow it, or a failure.
pub enum Step<T> {
    Done(T, Seq<Tok>),
    Fails(Failure),
}

/// The text that raw content stands for: unescaped, or as it stands when it
/// cannot be unescaped.
pub open spec fn text_of(raw: Seq<char>) -> Seq<char> {
    if !raw.contains('&') {
        raw
    } else {
        match xml_unescape(raw) {
            Some(u) => u,
            None => raw,
        }
    }
}

pub open spec fn xml_failure(context: Seq<char>, e: Seq<char>) -> Failure {
    failure(ErrorCode::Error, context + e)
}

/// The whitespace that XML trims around text: space, tab, carriage return, line feed.
pub open spec fn is_xml_space(c: char) -> bool {
    c == ' ' || c == '\t' || c == '\r' || c == '\n'
}

pub open spec fn xml_trim_start(s: Seq<char>) -> Seq<char>
    decreases s.len(),
{
    if s.len() > 0 && is_xml_space(s[0]) {
        xml_trim_start(s.drop_first())
    } else {
        s
    }
}

pub open spec fn xml_trim_end(s: Seq<char>) -> Seq<char>
    decreases s.len(),
{
    if s.len() > 0 && is_xml_space(s.last()) {
        xml_trim_end(s.drop_last())
    } else {
        s
    }
}

/// Text with the XML whitespace at both ends removed.
pub open spec fn xml_trimmed(s: Seq<char>) -> Seq<char> {
    xml_trim_end(xml_trim_start(s))
}

/// Whether an event is part of a text node: text, or a reference.
pub open spec fn is_text(t: Tok) -> bool {
    t is Text || t is Ref
}

/// The raw content that a text event or a reference stands for.
pub open spec fn raw_of(t: Tok) -> Seq<char> {
    match t {
        Tok::Text(raw) => raw,
        Tok::Ref(name) => "&"@ + name + ";"@,
        _ => Seq::empty(),
    }
}

/// The text of a text node, given its raw content: trimmed of XML
/// whitespace, then unescaped; nothing when it is all whitespace.
pub open spec fn node_text(raw: Seq<char>) -> Seq<char> {
    if xml_trimmed(raw).len() == 0 {
        Seq::empty()
    } else {
        text_of(xml_trimmed(raw))
    }
}

/// The text of an element up to its end tag `tag` (or the end of input):
/// the text of each of its text nodes, in order. `run` is the raw content
/// of the text node being read.
pub open spec fn text_until(toks: Seq<Tok>, tag: Seq<char>, acc: Seq<char>, run: Seq<char>) -> Step<
    Seq<char>,
>
    decreases toks.len(),
{
    if toks.len() == 0 {
        Step::Done(acc + node_text(run), toks)
    } else if is_text(toks[0]) {
        text_until(toks.drop_first(), tag, acc, run + raw_of(toks[0]))
    } else {
        let acc = acc + node_text(run);
        match toks[0] {
            Tok::End(n) => if n == tag {
                Step::Done(acc, toks.drop_first())
            } else {
                text_until(toks.drop_first(), tag, acc, Seq::empty())
            },
            Tok::Eof => Step::Done(acc, toks),
            Tok::Fail(e) => Step::Fails(xml_failure("XML error reading text: "@, e)),
            _ => text_until(toks.drop_first(), tag, acc, Seq::empty()),
        }
    }
}

/// Skips to the end tag `tag` that closes the current element, passing over
/// nested elements of the same name.
pub open spec fn skip_to_end(toks: Seq<Tok>, tag: Seq<char>, depth: nat) -> Step<()>
    decreases toks.len(),
{
    if toks.len() == 0 {
        Step::Done((), toks)
    } else {
        match toks[0] {
            Tok::Start(n) => if n == tag {
                skip_to_end(toks.drop_first(), tag, depth + 1)
            } else {
                skip_to_end(toks.drop_first(), tag, depth)
            },
            Tok::End(n) => if n == tag {
                if depth == 0 {
                    Step::Done((), toks.drop_first())
                } else {
                    skip_to_end(toks.drop_first(), tag, (depth - 1) as nat)
                }
            } else {
                skip_to_end(toks.drop_first(), tag, depth)
            },
            Tok::Eof => Step::Done((), toks),
            Tok::Fail(e) => Step::Fails(xml_failure("XML error reading until end of tag: "@, e)),
            _ => skip_to_end(toks.drop_first(), tag, depth),
        }
    }
}

fn read_text_until(reader: &mut Reader<&[u8]>, tag: &str) -> (r: Result<String, Error>)
    requires
        well_formed_stream(pending(*old(reader))),
    ensures
        match text_until(pending(*old(reader)), tag@, Seq::empty(), Seq::empty()) {
            Step::Done(t, rest) => r matches Ok(s) && s@ == t && pending(*final(reader)) == rest
                && well_formed_stream(rest) && rest.len() <= pending(*old(reader)).len(),
            Step::Fails(f) => r matches Err(e) && e@ == f,
        },
{
    let ghost start = pending(*reader);
    let tag_s = String::from_str(tag);
    let mut text = String::new();
    let mut run = String::new();
    loop
        invariant
            well_formed_stream(pending(*reader)),
            pending(*reader).len() <= start.len(),
            start == pending(*old(reader)),
            text_until(pending(*reader), tag@, text@, run@) == text_until(
                start,
                tag@,
                Seq::empty(),
                Seq::empty(),
            ),
            tag_s@ == tag@,
        decreases pending(*reader).len(),
    {
        let ghost cur = pending(*reader);
        let ev = next_event(reader);
        match ev {
            XmlEvent::Text(raw) => {
                run.append(raw.as_str());
            },
            XmlEvent::Ref(name) => {
                append_reference(&mut run, name.as_str());
            },
            _ => {
                let t = text_of_node(run.as_str());
                text.append(t.as_str());
                run = String::new();
                match ev {
                    XmlEvent::End(n) => {
                        if n == tag_s {
                            return Ok(text);
                        }
                    },
                    XmlEvent::Eof => {
                        return Ok(text);
                    },
                    XmlEvent::Fail(e) => {
                        let mut m = String::from_str("XML error reading text: ");
                        m.append(e.as_str());
                        return Err(Error::other(m));
                    },
                    _ => {},
                }
            },
        }
        proof {
            assert(!is_final(cur[0]));
            assert(cur.len() > 1);
        }
    }
}

/// Appends the raw content of a reference `&name;`.
fn append_reference(run: &mut String, name: &str)
    ensures
        final(run)@ == old(run)@ + raw_of(Tok::Ref(name@)),
{
    run.append("&");
    run.append(name);
    run.append(";");
}

/// XML whitespace, as a character test.
fn xml_space(c: char) -> (r: bool)
    ensures
        r == is_xml_space(c),
{
    c == ' ' || c == '\t' || c == '\r' || c == '\n'
}

proof fn lemma_trim_start_skip(s: Seq<char>, i: int)
    requires
        0 <= i <= s.len(),
        forall|k: int| 0 <= k < i ==> is_xml_space(#[trigger] s[k]),
    ensures
        xml_trim_start(s) == xml_trim_start(s.skip(i)),
    decreases i,
{
    if i > 0 {
        assert(s.drop_first().skip(i - 1) =~= s.skip(i));
        lemma_trim_start_skip(s.drop_first(), i - 1);
    } else {
        assert(s.skip(0) =~= s);
    }
}

proof fn lemma_trim_end_take(s: Seq<char>, j: int)
    requires
        0 <= j <= s.len(),
        forall|k: int| j <= k < s.len() ==> is_xml_space(#[trigger] s[k]),
    ensures
        xml_trim_end(s) == xml_trim_end(s.take(j)),
    decreases s.len() - j,
{
    if j < s.len() {
        assert(s.drop_last().take(j) =~= s.take(j));
        lemma_trim_end_take(s.drop_last(), j);
    } else {
        assert(s.take(j) =~= s);
    }
}

/// Text with the XML whitespace at both ends removed.
fn xml_trim(s: &str) -> (r: String)
    ensures
        r@ == xml_trimmed(s@),
{
    let n = s.unicode_len();
    let mut i: usize = 0;
    while i < n && xml_space(s.get_char(i))
        invariant
            n == s@.len(),
            i <= n,
            forall|k: int| 0 <= k < i ==> is_xml_space(#[trigger] s@[k]),
        decreases n - i,
    {
        i = i + 1;
    }
    proof {
        lemma_trim_start_skip(s@, i as int);
    }
    let ghost t = s@.skip(i as int);
    assert(xml_trim_start(t) == t);
    let mut j: usize = n;
    while j > i && xml_space(s.get_char(j - 1))
        invariant
            n == s@.len(),
            i <= j <= n,
            t == s@.skip(i as int),
            forall|k: int| j <= k < n ==> is_xml_space(#[trigger] s@[k]),
        decreases j,
    {
        j = j - 1;
    }
    proof {
        assert forall|k: int| (j - i) <= k < t.len() implies is_xml_space(#[trigger] t[k]) by {
            assert(t[k] == s@[k + i]);
        }
        lemma_trim_end_take(t, j - i);
        let u = t.take(j - i);
        if u.len() > 0 {
            assert(u.last() == s@[j - 1]);
        }
        assert(xml_trim_end(u) == u);
    }
    let mut out = String::new();
    let mut k: usize = i;
    while k < j
        invariant
            n == s@.len(),
            i <= k <= j <= n,
            out@ == s@.subrange(i as int, k as int),
        decreases j - k,
    {
        let c = s.get_char(k);
        push_char(&mut out, c);
        assert(out@ =~= s@.subrange(i as int, k + 1));
        k = k + 1;
    }
    assert(s@.subrange(i as int, j as int) =~= t.take(j - i));
    out
}

/// The text of a text node from its raw content (see [`node_text`]).
fn text_of_node(raw: &str) -> (r: String)
    ensures
        r@ == node_text(raw@),
{
    let t = xml_trim(raw);
    if t.unicode_len() == 0 {
        return String::new();
    }
    match unescape(t.as_str()) {
        Some(u) => u,
        None => t,
    }
}

fn skip_to_value_end(reader: &mut Reader<&[u8]>, tag: &str, from_depth: usize) -> (r: Result<(), Error>)
    requires
        well_formed_stream(pending(*old(reader))),
        from_depth + pending(*old(reader)).len() <= usize::MAX,
    ensures
        match skip_to_end(pending(*old(reader)), tag@, from_depth as nat) {
            Step::Done(_, rest) => r is Ok && pending(*final(reader)) == rest && well_formed_stream(rest)
                && rest.len() <= pending(*old(reader)).len(),
            Step::Fails(f) => r matches Err(e) && e@ == f,
        },
{
    let ghost start = pending(*reader);
    let ghost depth0 = from_depth;
    let tag_s = String::from_str(tag);
    let mut depth: usize = from_depth;
    loop
        invariant
            well_formed_stream(pending(*reader)),
            pending(*reader).len() <= start.len(),
            start == pending(*old(reader)),
            depth + pending(*reader).len() <= depth0 + start.len(),
            depth0 + start.len() <= usize::MAX,
            depth0 == from_depth,
            skip_to_end(pending(*reader), tag@, depth as nat) == skip_to_end(start, tag@, depth0 as nat),
            tag_s@ == tag@,
        decreases pending(*reader).len(),
    {
        let ghost cur = pending(*reader);
        let ev = next_event(reader);
        match ev {
            XmlEvent::Start(n) => {
                if n == tag_s {
                    depth = depth + 1;
                }
            },
            XmlEvent::End(n) => {
                if n == tag_s {
                    if depth == 0 {
                        return Ok(());
                    }
                    depth = depth - 1;
                }
            },
            XmlEvent::Eof => {
                return Ok(());
            },
            XmlEvent::Fail(e) => {
                let mut m = String::from_str("XML error reading until end of tag: ");
                m.append(e.as_str());
                return Err(Error::other(m));
            },
            _ => {},
        }
        proof {
            assert(!is_final(cur[0]));
            assert(cur.len() > 1);
        }
    }
}

/// The value that the text of a scalar element of type `name` stands for.
pub open spec fn scalar_of(name: Seq<char>, text: Seq<char>) -> Json {
    if name == "int"@ || name == "i4"@ || name == "i8"@ {
        match parse_i64_spec(trimmed(text)) {
            Some(i) => Json::Int(i),
            None => Json::Str(text),
        }
    } else if name == "boolean"@ {
        Json::Bool(trimmed(text) == "1"@ || eq_ignore_case(trimmed(text), "true"@))
    } else if name == "double"@ {
        Json::Double(text)
    } else {
        Json::Str(text)
    }
}

/// The text that the writer puts in an `<int>` element reads back as the
/// same integer.
pub proof fn int_text_reads_back(i: i64)
    ensures
        scalar_of("int"@, decimal(i as int)) == Json::Int(i),
{
    crate::text::decimal_reads_back(i);
}

/// A value, once the end of its `<value>` element has been passed.
pub open spec fn then_value_end(toks: Seq<Tok>, v: Json) -> Step<Json> {
    match skip_to_end(toks, "value"@, 0) {
        Step::Done(_, rest) => Step::Done(v, rest),
        Step::Fails(f) => Step::Fails(f),
    }
}

/// The content of a `<value>` element whose start tag has been read. `run`
/// is the raw content of the text node being read: a text node that is not
/// all whitespace is the value, as a string.
pub open spec fn inside_value(toks: Seq<Tok>, run: Seq<char>) -> Step<Json>
    decreases toks.len(),
{
    if toks.len() == 0 {
        if !is_blank(node_text(run)) {
            then_value_end(toks, Json::Str(node_text(run)))
        } else {
            Step::Done(Json::Null, toks)
        }
    } else if is_text(toks[0]) {
        inside_value(toks.drop_first(), run + raw_of(toks[0]))
    } else if !is_blank(node_text(run)) {
        then_value_end(toks, Json::Str(node_text(run)))
    } else {
        let rest = toks.drop_first();
        match toks[0] {
            Tok::Start(name) => if name == "array"@ {
                match array_items(rest, Seq::empty()) {
                    Step::Done(items, r2) => then_value_end(r2, Json::Array(items)),
                    Step::Fails(f) => Step::Fails(f),
                }
            } else if name == "struct"@ {
                match struct_members(rest, Seq::empty()) {
                    Step::Done(ms, r2) => then_value_end(r2, Json::Object(ms)),
                    Step::Fails(f) => Step::Fails(f),
                }
            } else {
                match text_until(rest, name, Seq::empty(), Seq::empty()) {
                    Step::Done(text, r2) => then_value_end(r2, scalar_of(name, text)),
                    Step::Fails(f) => Step::Fails(f),
                }
            },
            Tok::Empty(name) => if name == "nil"@ {
                then_value_end(rest, Json::Null)
            } else if name == "string"@ {
                then_value_end(rest, Json::Str(Seq::empty()))
            } else {
                inside_value(rest, Seq::empty())
            },
            Tok::End(name) => if name == "value"@ {
                Step::Done(Json::Str(Seq::empty()), rest)
            } else {
                inside_value(rest, Seq::empty())
            },
            Tok::Eof => Step::Done(Json::Null, toks),
            Tok::Fail(e) => Step::Fails(xml_failure("XML error in value: "@, e)),
            _ => inside_value(rest, Seq::empty()),
        }
    }
}

/// The items of an `<array>` element whose start tag has been read.
pub open spec fn array_items(toks: Seq<Tok>, acc: Seq<Json>) -> Step<Seq<Json>>
    decreases toks.len(),
{
    if toks.len() == 0 {
        Step::Done(acc, toks)
    } else {
        let rest = toks.drop_first();
        match toks[0] {
            Tok::Start(n) => if n == "value"@ {
                match inside_value(rest, Seq::empty()) {
                    Step::Done(v, r2) => if r2.len() < toks.len() {
                        array_items(r2, acc.push(v))
                    } else {
                        Step::Done(acc, r2)
                    },
                    Step::Fails(f) => Step::Fails(f),
                }
            } else {
                array_items(rest, acc)
            },
            Tok::Empty(n) => if n == "value"@ {
                array_items(rest, acc.push(Json::Str(Seq::empty())))
            } else {
                array_items(rest, acc)
            },
            Tok::End(n) => if n == "array"@ {
                Step::Done(acc, rest)
            } else {
                array_items(rest, acc)
            },
            Tok::Eof => Step::Done(acc, toks),
            Tok::Fail(e) => Step::Fails(xml_failure("XML error reading array: "@, e)),
            _ => array_items(rest, acc),
        }
    }
}

/// The members of a `<struct>` element whose start tag has been read; a
/// later member replaces the value of an earlier one of the same name.
pub open spec fn struct_members(toks: Seq<Tok>, acc: Seq<(Seq<char>, Json)>) -> Step<
    Seq<(Seq<char>, Json)>,
>
    decreases toks.len(),
{
    if toks.len() == 0 {
        Step::Done(acc, toks)
    } else {
        let rest = toks.drop_first();
        match toks[0] {
            Tok::Start(n) => if n == "member"@ {
                match member(rest, Seq::empty(), Json::Null) {
                    Step::Done(kv, r2) => if r2.len() < toks.len() {
                        struct_members(r2, insert_member(acc, kv.0, kv.1))
                    } else {
                        Step::Done(acc, r2)
                    },
                    Step::Fails(f) => Step::Fails(f),
                }
            } else {
                struct_members(rest, acc)
            },
            Tok::End(n) => if n == "struct"@ {
                Step::Done(acc, rest)
            } else {
                struct_members(rest, acc)
            },
            Tok::Eof => Step::Done(acc, toks),
            Tok::Fail(e) => Step::Fails(xml_failure("XML error reading struct: "@, e)),
            _ => struct_members(rest, acc),
        }
    }
}

/// The name and value of a `<member>` element whose start tag has been
/// read; without a name the name is empty, without a value the value is nil.
pub open spec fn member(toks: Seq<Tok>, key: Seq<char>, val: Json) -> Step<(Seq<char>, Json)>
    decreases toks.len(),
{
    if toks.len() == 0 {
        Step::Done((key, val), toks)
    } else {
        let rest = toks.drop_first();
        match toks[0] {
            Tok::Start(n) => if n == "name"@ {
                match text_until(rest, "name"@, Seq::empty(), Seq::empty()) {
                    Step::Done(k, r2) => if r2.len() < toks.len() {
                        member(r2, k, val)
                    } else {
                        Step::Done((k, val), r2)
                    },
                    Step::Fails(f) => Step::Fails(f),
                }
            } else if n == "value"@ {
                match inside_value(rest, Seq::empty()) {
                    Step::Done(v, r2) => if r2.len() < toks.len() {
                        member(r2, key, v)
                    } else {
                        Step::Done((key, v), r2)
                    },
                    Step::Fails(f) => Step::Fails(f),
                }
            } else {
                member(rest, key, val)
            },
            Tok::Empty(n) => if n == "value"@ {
                member(rest, key, Json::Str(Seq::empty()))
            } else {
                member(rest, key, val)
            },
            Tok::End(n) => if n == "member"@ {
                Step::Done((key, val), rest)
            } else {
                member(rest, key, val)
            },
            Tok::Eof => Step::Done((key, val), toks),
            Tok::Fail(e) => Step::Fails(xml_failure("XML error reading member: "@, e)),
            _ => member(rest, key, val),
        }
    }
}

/// A struct read from a response never has two members of one name: a
/// name that comes again replaces the value it had.
pub proof fn struct_member_names_are_distinct(toks: Seq<Tok>, acc: Seq<(Seq<char>, Json)>)
    requires
        distinct_keys(acc),
    ensures
        struct_members(toks, acc) matches Step::Done(ms, _) ==> distinct_keys(ms),
    decreases toks.len(),
{
    if toks.len() > 0 {
        let rest = toks.drop_first();
        match toks[0] {
            Tok::Start(n) => {
                if n == "member"@ {
                    match member(rest, Seq::empty(), Json::Null) {
                        Step::Done(kv, r2) => {
                            if r2.len() < toks.len() {
                                setting_a_member(acc, kv.0, kv.1);
                                struct_member_names_are_distinct(r2, insert_member(acc, kv.0, kv.1));
                            }
                        },
                        Step::Fails(_) => {},
                    }
                } else {
                    struct_member_names_are_distinct(rest, acc);
                }
            },
            Tok::End(n) => {
                if n != "struct"@ {
                    struct_member_names_are_distinct(rest, acc);
                }
            },
            Tok::Eof => {},
            Tok::Fail(_) => {},
            _ => {
                struct_member_names_are_distinct(rest, acc);
            },
        }
    }
}

/// The value of the next `<value>` element.
pub open spec fn value_element(toks: Seq<Tok>) -> Step<Json>
    decreases toks.len(),
{
    if toks.len() == 0 {
        Step::Done(Json::Null, toks)
    } else {
        let rest = toks.drop_first();
        match toks[0] {
            Tok::Start(n) => if n == "value"@ {
                inside_value(rest, Seq::empty())
            } else {
                value_element(rest)
            },
            Tok::Empty(n) => if n == "value"@ {
                Step::Done(Json::Str(Seq::empty()), rest)
            } else {
                value_element(rest)
            },
            Tok::Eof => Step::Done(Json::Null, toks),
            Tok::Fail(e) => Step::Fails(xml_failure("XML error reading value: "@, e)),
            _ => value_element(rest),
        }
    }
}

fn same_text(a: &str, b: &str) -> (r: bool)
    ensures
        r == (a@ == b@),
{
    String::from_str(a) == String::from_str(b)
}

fn scalar_value(name: &String, text: String) -> (v: Value)
    ensures
        v@ == scalar_of(name@, text@),
{
    if same_text(name.as_str(), "int") || same_text(name.as_str(), "i4") || same_text(
        name.as_str(),
        "i8",
    ) {
        match parse_i64(trim(text.as_str())) {
            Some(i) => Value::Int(i),
            None => Value::Str(text),
        }
    } else if same_text(name.as_str(), "boolean") {
        let t = trim(text.as_str());
        Value::Bool(same_text(t, "1") || eq_ignore_ascii_case(t, "true"))
    } else if same_text(name.as_str(), "double") {
        Value::Double(text)
    } else {
        Value::Str(text)
    }
}

fn xml_error(context: &str, e: String) -> (err: Error)
    ensures
        err@ == xml_failure(context@, e@),
{
    let mut m = String::from_str(context);
    m.append(e.as_str());
    Error::other(m)
}

/// The spec of a reading step, for a reader that started at `start`.
pub open spec fn reads<T>(
    start: Seq<Tok>,
    end: Seq<Tok>,
    step: Step<T>,
    r_ok: Option<T>,
    r_err: Option<Failure>,
) -> bool {
    match step {
        Step::Done(t, rest) => r_ok == Some(t) && end == rest && well_formed_stream(rest)
            && rest.len() <= start.len(),
        Step::Fails(f) => r_err == Some(f),
    }
}

pub open spec fn ok_json(r: Result<Value, Error>) -> Option<Json> {
    match r {
        Ok(v) => Some(v@),
        Err(_) => None,
    }
}

pub open spec fn err_view<T>(r: Result<T, Error>) -> Option<Failure> {
    match r {
        Ok(_) => None,
        Err(e) => Some(e@),
    }
}

fn then_end(reader: &mut Reader<&[u8]>, v: Value) -> (r: Result<Value, Error>)
    requires
        well_formed_stream(pending(*old(reader))),
        pending(*old(reader)).len() <= usize::MAX,
    ensures
        reads(pending(*old(reader)), pending(*final(reader)), then_value_end(pending(*old(reader)), v@), ok_json(r), err_view(r)),
{
    match skip_to_value_end(reader, "value", 0) {
        Ok(()) => Ok(v),
        Err(e) => Err(e),
    }
}

fn parse_inside_value(reader: &mut Reader<&[u8]>) -> (r: Result<Value, Error>)
    requires
        well_formed_stream(pending(*old(reader))),
        pending(*old(reader)).len() <= usize::MAX,
    ensures
        reads(
            pending(*old(reader)),
            pending(*final(reader)),
            inside_value(pending(*old(reader)), Seq::empty()),
            ok_json(r),
            err_view(r),
        ),
    decreases pending(*old(reader)).len(),
{
    let ghost start = pending(*reader);
    let mut run = String::new();
    loop
        invariant
            well_formed_stream(pending(*reader)),
            pending(*reader).len() <= start.len(),
            start == pending(*old(reader)),
            start.len() <= usize::MAX,
            inside_value(pending(*reader), run@) == inside_value(start, Seq::empty()),
        decreases pending(*reader).len(),
    {
        let ghost cur = pending(*reader);
        let ev = next_event(reader);
        match ev {
            XmlEvent::Text(raw) => {
                run.append(raw.as_str());
            },
            XmlEvent::Ref(name) => {
                append_reference(&mut run, name.as_str());
            },
            _ => {
                let text = text_of_node(run.as_str());
                if !blank(text.as_str()) {
                    // The text node is the value; the event that ended it is
                    // the first one passed on the way to the end of the value.
                    let ghost v = Json::Str(text@);
                    let skipped = match ev {
                        XmlEvent::Start(n) => {
                            let d: usize = if same_text(n.as_str(), "value") { 1 } else { 0 };
                            skip_to_value_end(reader, "value", d)
                        },
                        XmlEvent::End(n) => {
                            if same_text(n.as_str(), "value") {
                                Ok(())
                            } else {
                                skip_to_value_end(reader, "value", 0)
                            }
                        },
                        XmlEvent::Eof => Ok(()),
                        XmlEvent::Fail(e) => Err(xml_error("XML error reading until end of tag: ", e)),
                        _ => skip_to_value_end(reader, "value", 0),
                    };
                    return match skipped {
                        Ok(()) => Ok(Value::Str(text)),
                        Err(e) => Err(e),
                    };
                }
                run = String::new();
                match ev {
                    XmlEvent::Start(name) => {
                        if same_text(name.as_str(), "array") {
                            let items = match parse_array(reader) {
                                Ok(items) => items,
                                Err(e) => return Err(e),
                            };
                            proof {
                                lemma_array_view(items);
                            }
                            return then_end(reader, Value::Array(items));
                        } else if same_text(name.as_str(), "struct") {
                            let members = match parse_struct(reader) {
                                Ok(ms) => ms,
                                Err(e) => return Err(e),
                            };
                            proof {
                                lemma_object_view(members);
                            }
                            return then_end(reader, Value::Object(members));
                        } else {
                            let text = match read_text_until(reader, name.as_str()) {
                                Ok(t) => t,
                                Err(e) => return Err(e),
                            };
                            let v = scalar_value(&name, text);
                            return then_end(reader, v);
                        }
                    },
                    XmlEvent::Empty(name) => {
                        if same_text(name.as_str(), "nil") {
                            return then_end(reader, Value::Null);
                        } else if same_text(name.as_str(), "string") {
                            return then_end(reader, Value::Str(String::new()));
                        }
                    },
                    XmlEvent::End(name) => {
                        if same_text(name.as_str(), "value") {
                            return Ok(Value::Str(String::new()));
                        }
                    },
                    XmlEvent::Eof => {
                        return Ok(Value::Null);
                    },
                    XmlEvent::Fail(e) => {
                        return Err(xml_error("XML error in value: ", e));
                    },
                    _ => {},
                }
            },
        }
        proof {
            assert(!is_final(cur[0]));
            assert(cur.len() > 1);
        }
    }
}

fn parse_array(reader: &mut Reader<&[u8]>) -> (r: Result<Vec<Value>, Error>)
    requires
        well_formed_stream(pending(*old(reader))),
        pending(*old(reader)).len() <= usize::MAX,
    ensures
        reads(pending(*old(reader)), pending(*final(reader)), array_items(pending(*old(reader)), Seq::empty()),
            match r { Ok(items) => Some(views(items@)), Err(_) => None::<Seq<Json>> }, err_view(r)),
    decreases pending(*old(reader)).len(),
{
    let ghost start = pending(*reader);
    let mut items: Vec<Value> = Vec::new();
    assert(views(items@) =~= Seq::empty());
    loop
        invariant
            well_formed_stream(pending(*reader)),
            pending(*reader).len() <= start.len(),
            start == pending(*old(reader)),
            start.len() <= usize::MAX,
            array_items(pending(*reader), views(items@)) == array_items(start, Seq::empty()),
        decreases pending(*reader).len(),
    {
        let ghost cur = pending(*reader);
        let ghost before = views(items@);
        let ev = next_event(reader);
        match ev {
            XmlEvent::Start(n) => {
                if same_text(n.as_str(), "value") {
                    let v = match parse_inside_value(reader) {
                        Ok(v) => v,
                        Err(e) => return Err(e),
                    };
                    let ghost vv = v@;
                    items.push(v);
                    proof {
                        assert(views(items@) =~= before.push(vv));
                    }
                }
            },
            XmlEvent::Empty(n) => {
                if same_text(n.as_str(), "value") {
                    items.push(Value::Str(String::new()));
                    proof {
                        assert(views(items@) =~= before.push(Json::Str(Seq::empty())));
                    }
                }
            },
            XmlEvent::End(n) => {
                if same_text(n.as_str(), "array") {
                    return Ok(items);
                }
            },
            XmlEvent::Eof => {
                return Ok(items);
            },
            XmlEvent::Fail(e) => {
                return Err(xml_error("XML error reading array: ", e));
            },
            _ => {},
        }
        proof {
            assert(!is_final(cur[0]));
            assert(cur.len() > 1);
        }
    }
}

fn parse_struct(reader: &mut Reader<&[u8]>) -> (r: Result<Vec<(String, Value)>, Error>)
    requires
        well_formed_stream(pending(*old(reader))),
        pending(*old(reader)).len() <= usize::MAX,
    ensures
        reads(pending(*old(reader)), pending(*final(reader)), struct_members(pending(*old(reader)), Seq::empty()),
            match r { Ok(ms) => Some(member_views(ms@)), Err(_) => None::<Seq<(Seq<char>, Json)>> }, err_view(r)),
    decreases pending(*old(reader)).len(),
{
    let ghost start = pending(*reader);
    let mut members: Vec<(String, Value)> = Vec::new();
    assert(member_views(members@) =~= Seq::empty());
    loop
        invariant
            well_formed_stream(pending(*reader)),
            pending(*reader).len() <= start.len(),
            start == pending(*old(reader)),
            start.len() <= usize::MAX,
            struct_members(pending(*reader), member_views(members@)) == struct_members(start, Seq::empty()),
        decreases pending(*reader).len(),
    {
        let ghost cur = pending(*reader);
        let ev = next_event(reader);
        match ev {
            XmlEvent::Start(n) => {
                if same_text(n.as_str(), "member") {
                    let (k, v) = match parse_member(reader) {
                        Ok(kv) => kv,
                        Err(e) => return Err(e),
                    };
                    set_member(&mut members, k, v);
                }
            },
            XmlEvent::End(n) => {
                if same_text(n.as_str(), "struct") {
                    return Ok(members);
                }
            },
            XmlEvent::Eof => {
                return Ok(members);
            },
            XmlEvent::Fail(e) => {
                return Err(xml_error("XML error reading struct: ", e));
            },
            _ => {},
        }
        proof {
            assert(!is_final(cur[0]));
            assert(cur.len() > 1);
        }
    }
}

fn parse_member(reader: &mut Reader<&[u8]>) -> (r: Result<(String, Value), Error>)
    requires
        well_formed_stream(pending(*old(reader))),
        pending(*old(reader)).len() <= usize::MAX,
    ensures
        reads(pending(*old(reader)), pending(*final(reader)), member(pending(*old(reader)), Seq::empty(), Json::Null),
            match r { Ok(kv) => Some((kv.0@, kv.1@)), Err(_) => None::<(Seq<char>, Json)> }, err_view(r)),
    decreases pending(*old(reader)).len(),
{
    let ghost start = pending(*reader);
    let mut key = String::new();
    let mut val = Value::Null;
    loop
        invariant
            well_formed_stream(pending(*reader)),
            pending(*reader).len() <= start.len(),
            start == pending(*old(reader)),
            start.len() <= usize::MAX,
            member(pending(*reader), key@, val@) == member(start, Seq::empty(), Json::Null),
        decreases pending(*reader).len(),
    {
        let ghost cur = pending(*reader);
        let ev = next_event(reader);
        match ev {
            XmlEvent::Start(n) => {
                if same_text(n.as_str(), "name") {
                    key = match read_text_until(reader, "name") {
                        Ok(k) => k,
                        Err(e) => return Err(e),
                    };
                } else if same_text(n.as_str(), "value") {
                    val = match parse_inside_value(reader) {
                        Ok(v) => v,
                        Err(e) => return Err(e),
                    };
                }
            },
            XmlEvent::Empty(n) => {
                if same_text(n.as_str(), "value") {
                    val = Value::Str(String::new());
                }
            },
            XmlEvent::End(n) => {
                if same_text(n.as_str(), "member") {
                    return Ok((key, val));
                }
            },
            XmlEvent::Eof => {
                return Ok((key, val));
            },
            XmlEvent::Fail(e) => {
                return Err(xml_error("XML error reading member: ", e));
            },
            _ => {},
        }
        proof {
            assert(!is_final(cur[0]));
            assert(cur.len() > 1);
        }
    }
}

/// The code of a fault: an integer in decimal, or a string as it stands.
pub open spec fn fault_code(ms: Seq<(Seq<char>, Json)>) -> Option<Seq<char>> {
    match lookup(ms, "faultCode"@) {
        Some(Json::Int(i)) => Some(decimal(i as int)),
        Some(Json::Str(s)) => Some(s),
        _ => None,
    }
}

/// The message of a fault, when it is a string.
pub open spec fn fault_message(ms: Seq<(Seq<char>, Json)>) -> Seq<char> {
    match lookup(ms, "faultString"@) {
        Some(Json::Str(s)) => s,
        _ => "Unknown XML-RPC fault"@,
    }
}

/// The error that a `<fault>` stands for: codes 401, 404 and 429 are an
/// authentication failure, a missing resource and rate limiting; the code,
/// when there is one, becomes the detail.
pub open spec fn fault_failure(v: Json) -> Failure {
    match v {
        Json::Object(ms) => {
            let code = fault_code(ms);
            let msg = fault_message(ms);
            let base = if code == Some("401"@) {
                failure(ErrorCode::AuthRequired, msg)
            } else if code == Some("404"@) {
                failure(ErrorCode::NotFound, msg)
            } else if code == Some("429"@) {
                failure(ErrorCode::RateLimited, msg)
            } else {
                failure(ErrorCode::Error, "XML-RPC fault: "@ + msg)
            };
            match code {
                Some(c) => Failure { detail: Some("faultCode: "@ + c), ..base },
                None => base,
            }
        },
        _ => failure(ErrorCode::Error, "XML-RPC fault occurred."@),
    }
}

/// What a response document stands for: the value of its first `<param>`,
/// the error of its `<fault>`, whichever comes first, or nil when it has
/// neither.
pub open spec fn response(toks: Seq<Tok>) -> Result<Json, Failure>
    decreases toks.len(),
{
    if toks.len() == 0 {
        Ok(Json::Null)
    } else {
        let rest = toks.drop_first();
        match toks[0] {
            Tok::Start(n) => if n == "fault"@ {
                match value_element(rest) {
                    Step::Done(v, _) => Err(fault_failure(v)),
                    Step::Fails(f) => Err(f),
                }
            } else if n == "param"@ {
                match value_element(rest) {
                    Step::Done(v, _) => Ok(v),
                    Step::Fails(f) => Err(f),
                }
            } else {
                response(rest)
            },
            Tok::Eof => Ok(Json::Null),
            Tok::Fail(e) => Err(xml_failure("XML parse error: "@, e)),
            _ => response(rest),
        }
    }
}

pub open spec fn result_view(r: Result<Value, Error>) -> Result<Json, Failure> {
    match r {
        Ok(v) => Ok(v@),
        Err(e) => Err(e@),
    }
}

fn parse_value_element(reader: &mut Reader<&[u8]>) -> (r: Result<Value, Error>)
    requires
        well_formed_stream(pending(*old(reader))),
        pending(*old(reader)).len() <= usize::MAX,
    ensures
        reads(pending(*old(reader)), pending(*final(reader)), value_element(pending(*old(reader))), ok_json(r), err_view(r)),
{
    let ghost start = pending(*reader);
    loop
        invariant
            well_formed_stream(pending(*reader)),
            pending(*reader).len() <= start.len(),
            start == pending(*old(reader)),
            start.len() <= usize::MAX,
            value_element(pending(*reader)) == value_element(start),
        decreases pending(*reader).len(),
    {
        let ghost cur = pending(*reader);
        let ev = next_event(reader);
        match ev {
            XmlEvent::Start(n) => {
                if same_text(n.as_str(), "value") {
                    return parse_inside_value(reader);
                }
            },
            XmlEvent::Empty(n) => {
                if same_text(n.as_str(), "value") {
                    return Ok(Value::Str(String::new()));
                }
            },
            XmlEvent::Eof => {
                return Ok(Value::Null);
            },
            XmlEvent::Fail(e) => {
                return Err(xml_error("XML error reading value: ", e));
            },
            _ => {},
        }
        proof {
            assert(!is_final(cur[0]));
            assert(cur.len() > 1);
        }
    }
}

/// The error of a `<fault>` element's value.
fn fault_error(v: Value) -> (e: Error)
    ensures
        e@ == fault_failure(v@),
{
    match v {
        Value::Object(map) => {
            proof {
                lemma_object_view(map);
            }
            let code = match find_member(&map, &String::from_str("faultCode")) {
                Some(i) => match &map[i].1 {
                    Value::Int(n) => Some(i64_to_string(*n)),
                    Value::Str(s) => Some(s.clone()),
                    _ => None,
                },
                None => None,
            };
            let msg = match find_member(&map, &String::from_str("faultString")) {
                Some(i) => match &map[i].1 {
                    Value::Str(s) => s.clone(),
                    _ => String::from_str("Unknown XML-RPC fault"),
                },
                None => String::from_str("Unknown XML-RPC fault"),
            };
            let err = match &code {
                Some(c) => {
                    if same_text(c.as_str(), "401") {
                        Error::auth(msg)
                    } else if same_text(c.as_str(), "404") {
                        Error::not_found(msg)
                    } else if same_text(c.as_str(), "429") {
                        Error::rate_limited(msg)
                    } else {
                        let mut m = String::from_str("XML-RPC fault: ");
                        m.append(msg.as_str());
                        Error::other(m)
                    }
                },
                None => {
                    let mut m = String::from_str("XML-RPC fault: ");
                    m.append(msg.as_str());
                    Error::other(m)
                },
            };
            match code {
                Some(c) => {
                    let mut d = String::from_str("faultCode: ");
                    d.append(c.as_str());
                    err.detail(d)
                },
                None => err,
            }
        },
        _ => Error::other(String::from_str("XML-RPC fault occurred.")),
    }
}

/// Reads an XML-RPC response: the value of its first parameter, or the
/// error that its fault stands for. A plain document is read as the events
/// it is written from (see `roundtrip::written_values_read_back`).
pub fn parse_response(xml: &str) -> (r: Result<Value, Error>)
    ensures
        result_view(r) == response(xml_events(xml@)),
        forall|t: Seq<Tok>| plain_document(t) && #[trigger] write_toks(t) == xml@ ==> result_view(r)
            == response(t.push(Tok::Eof)),
{
    let _n = xml.unicode_len();
    let mut reader = new_reader(xml);
    let ghost start = pending(reader);
    loop
        invariant
            well_formed_stream(pending(reader)),
            pending(reader).len() <= start.len(),
            start == xml_events(xml@),
            forall|t: Seq<Tok>| plain_document(t) && #[trigger] write_toks(t) == xml@ ==> start == t.push(
                Tok::Eof,
            ),
            start.len() <= usize::MAX + 1,
            response(pending(reader)) == response(start),
        decreases pending(reader).len(),
    {
        let ghost cur = pending(reader);
        let ev = next_event(&mut reader);
        match ev {
            XmlEvent::Start(n) => {
                if same_text(n.as_str(), "fault") {
                    return match parse_value_element(&mut reader) {
                        Ok(v) => Err(fault_error(v)),
                        Err(e) => Err(e),
                    };
                } else if same_text(n.as_str(), "param") {
                    return parse_value_element(&mut reader);
                }
            },
            XmlEvent::Eof => {
                return Ok(Value::Null);
            },
            XmlEvent::Fail(e) => {
                return Err(xml_error("XML parse error: ", e));
            },
            _ => {},
        }
        proof {
            assert(!is_final(cur[0]));
            assert(cur.len() > 1);
        }
    }
}

} // verus!
