//! What a response document written with the value writer reads back as:
//! the tokens of a written value, the text they are written as, and what
//! the response reader makes of them.

use vstd::prelude::*;
use crate::parse::{inside_value, array_items, struct_members, member, text_until, skip_to_end, value_element,
    response, node_text, text_of, xml_trimmed, xml_trim_start, xml_trim_end, is_xml_space, scalar_of, Step,
    then_value_end, int_text_reads_back, raw_of, is_text};
use crate::text::{decimal, is_blank, trimmed, trim_start, trim_end, eq_ignore_case, lemma_nat_digits, is_digit, nat_digits};
use crate::value::{Json, distinct_keys, has_key, insert_member};
use crate::xml::{Tok, write_tok, write_toks, plain_name, plain_text, plain_tok_at, open_after, plain_document};
use crate::xmlrpc::{value_xml, items_xml, members_xml, escaped, is_markup, escaping_removes_markup};

verus! {

/// Text that a response carries back as itself: none of `& < > " '`, and
/// no XML whitespace at either end.
pub open spec fn plain_string(s: Seq<char>) -> bool {
    &&& forall|i: int| 0 <= i < s.len() ==> !is_markup(#[trigger] s[i])
    &&& s.len() > 0 ==> !is_xml_space(s[0]) && !is_xml_space(s.last())
}

/// A value that reads back unchanged from the document it is written in:
/// no non-integer number, strings and member names that are plain, and no
/// two members of a struct with one name.
pub open spec fn carried(v: Json) -> bool
    decreases v,
{
    match v {
        Json::Null => true,
        Json::Bool(_) => true,
        Json::Int(_) => true,
        Json::Double(_) => false,
        Json::Str(s) => plain_string(s),
        Json::Array(items) => carried_items(items),
        Json::Object(ms) => distinct_keys(ms) && carried_members(ms),
    }
}

pub open spec fn carried_items(items: Seq<Json>) -> bool
    decreases items,
{
    if items.len() == 0 {
        true
    } else {
        carried_items(items.drop_last()) && carried(items.last())
    }
}

pub open spec fn carried_members(ms: Seq<(Seq<char>, Json)>) -> bool
    decreases ms,
{
    if ms.len() == 0 {
        true
    } else {
        carried_members(ms.drop_last()) && plain_string(ms.last().0) && carried(ms.last().1)
    }
}

/// A text event, unless the text is empty.
pub open spec fn text_toks(s: Seq<char>) -> Seq<Tok> {
    if s.len() == 0 {
        Seq::empty()
    } else {
        seq![Tok::Text(s)]
    }
}

/// An element: its start tag, its content and its end tag.
pub open spec fn element(name: Seq<char>, content: Seq<Tok>) -> Seq<Tok> {
    seq![Tok::Start(name)] + content + seq![Tok::End(name)]
}

/// The events of the `<value>` element that the writer makes of a value.
pub open spec fn value_toks(v: Json) -> Seq<Tok>
    decreases v,
{
    element(
        "value"@,
        match v {
            Json::Null => seq![Tok::Empty("nil"@)],
            Json::Bool(b) => element("boolean"@, seq![Tok::Text(if b { "1"@ } else { "0"@ })]),
            Json::Int(i) => element("int"@, seq![Tok::Text(decimal(i as int))]),
            Json::Double(t) => element("double"@, text_toks(t)),
            Json::Str(s) => element("string"@, text_toks(s)),
            Json::Array(items) => element("array"@, element("data"@, items_toks(items))),
            Json::Object(ms) => element("struct"@, members_toks(ms)),
        },
    )
}

pub open spec fn items_toks(items: Seq<Json>) -> Seq<Tok>
    decreases items,
{
    if items.len() == 0 {
        Seq::empty()
    } else {
        items_toks(items.drop_last()) + value_toks(items.last())
    }
}

pub open spec fn members_toks(ms: Seq<(Seq<char>, Json)>) -> Seq<Tok>
    decreases ms,
{
    if ms.len() == 0 {
        Seq::empty()
    } else {
        members_toks(ms.drop_last()) + element(
            "member"@,
            element("name"@, text_toks(ms.last().0)) + value_toks(ms.last().1),
        )
    }
}

/// The events of a response document whose parameter is `v`.
pub open spec fn response_toks(v: Json) -> Seq<Tok> {
    element("methodResponse"@, element("params"@, element("param"@, value_toks(v))))
}

/// The response document whose parameter is `v`, as the writer writes the value.
pub open spec fn response_doc(v: Json) -> Seq<char> {
    "<methodResponse><params><param>"@ + value_xml(v) + "</param></params></methodResponse>"@
}

// ----------------------------------------------------------------------------
// Writing

proof fn lemma_write_concat(a: Seq<Tok>, b: Seq<Tok>)
    ensures
        write_toks(a + b) == write_toks(a) + write_toks(b),
    decreases a.len(),
{
    if a.len() == 0 {
        assert(a + b =~= b);
        assert(write_toks(a) + write_toks(b) =~= write_toks(b));
    } else {
        assert((a + b).drop_first() =~= a.drop_first() + b);
        lemma_write_concat(a.drop_first(), b);
        assert(write_toks(a + b) =~= write_toks(a) + write_toks(b));
    }
}

proof fn lemma_write_one(x: Tok)
    ensures
        write_toks(seq![x]) == write_tok(x),
{
    let one = seq![x];
    assert(one.len() == 1 && one[0] == x);
    assert(one.drop_first() =~= Seq::<Tok>::empty());
    assert(write_toks(Seq::<Tok>::empty()) == Seq::<char>::empty());
    assert(write_toks(one) == write_tok(x) + write_toks(one.drop_first()));
    assert(write_tok(x) + Seq::<char>::empty() =~= write_tok(x));
}

proof fn lemma_write_element(n: Seq<char>, content: Seq<Tok>)
    ensures
        write_toks(element(n, content)) == "<"@ + n + ">"@ + write_toks(content) + "</"@ + n + ">"@,
{
    lemma_write_concat(seq![Tok::Start(n)], content);
    lemma_write_concat(seq![Tok::Start(n)] + content, seq![Tok::End(n)]);
    lemma_write_one(Tok::Start(n));
    lemma_write_one(Tok::End(n));
    assert(write_toks(element(n, content)) =~= "<"@ + n + ">"@ + write_toks(content) + "</"@ + n + ">"@);
}

proof fn lemma_write_text(s: Seq<char>)
    ensures
        write_toks(text_toks(s)) == s,
{
    if s.len() == 0 {
        assert(write_toks(Seq::<Tok>::empty()) == Seq::<char>::empty());
    } else {
        lemma_write_one(Tok::Text(s));
    }
}

proof fn lemma_plain_escapes(s: Seq<char>)
    requires
        forall|i: int| 0 <= i < s.len() ==> !is_markup(#[trigger] s[i]),
    ensures
        escaped(s) == s,
{
    escaping_removes_markup(s);
}

proof fn lemma_value_written(v: Json)
    requires
        carried(v),
    ensures
        write_toks(value_toks(v)) == value_xml(v),
    decreases v,
{
    reveal_strlit("<");
    reveal_strlit(">");
    reveal_strlit("</");
    reveal_strlit("/>");
    reveal_strlit("value");
    let inner = match v {
        Json::Null => seq![Tok::Empty("nil"@)],
        Json::Bool(b) => element("boolean"@, seq![Tok::Text(if b { "1"@ } else { "0"@ })]),
        Json::Int(i) => element("int"@, seq![Tok::Text(decimal(i as int))]),
        Json::Double(t) => element("double"@, text_toks(t)),
        Json::Str(s) => element("string"@, text_toks(s)),
        Json::Array(items) => element("array"@, element("data"@, items_toks(items))),
        Json::Object(ms) => element("struct"@, members_toks(ms)),
    };
    assert(value_toks(v) == element("value"@, inner));
    lemma_write_element("value"@, inner);
    match v {
        Json::Null => {
            reveal_strlit("nil");
            reveal_strlit("<value><nil/></value>");
            lemma_write_one(Tok::Empty("nil"@));
            assert(write_toks(value_toks(v)) =~= value_xml(v));
        },
        Json::Bool(b) => {
            reveal_strlit("boolean");
            reveal_strlit("<value><boolean>");
            reveal_strlit("</boolean></value>");
            lemma_write_element("boolean"@, seq![Tok::Text(if b { "1"@ } else { "0"@ })]);
            lemma_write_one(Tok::Text(if b { "1"@ } else { "0"@ }));
            assert(write_toks(value_toks(v)) =~= value_xml(v));
        },
        Json::Int(i) => {
            reveal_strlit("int");
            reveal_strlit("<value><int>");
            reveal_strlit("</int></value>");
            lemma_write_element("int"@, seq![Tok::Text(decimal(i as int))]);
            lemma_write_one(Tok::Text(decimal(i as int)));
            assert(write_toks(value_toks(v)) =~= value_xml(v));
        },
        Json::Double(_) => {},
        Json::Str(s) => {
            reveal_strlit("string");
            reveal_strlit("<value><string>");
            reveal_strlit("</string></value>");
            lemma_write_element("string"@, text_toks(s));
            lemma_write_text(s);
            lemma_plain_escapes(s);
            assert(write_toks(value_toks(v)) =~= value_xml(v));
        },
        Json::Array(items) => {
            reveal_strlit("array");
            reveal_strlit("data");
            reveal_strlit("<value><array><data>");
            reveal_strlit("</data></array></value>");
            lemma_write_element("array"@, element("data"@, items_toks(items)));
            lemma_write_element("data"@, items_toks(items));
            lemma_items_written(items);
            assert(write_toks(value_toks(v)) =~= value_xml(v));
        },
        Json::Object(ms) => {
            reveal_strlit("struct");
            reveal_strlit("<value><struct>");
            reveal_strlit("</struct></value>");
            lemma_write_element("struct"@, members_toks(ms));
            lemma_members_written(ms);
            assert(write_toks(value_toks(v)) =~= value_xml(v));
        },
    }
}

proof fn lemma_items_written(items: Seq<Json>)
    requires
        carried_items(items),
    ensures
        write_toks(items_toks(items)) == items_xml(items),
    decreases items,
{
    if items.len() > 0 {
        lemma_items_written(items.drop_last());
        lemma_value_written(items.last());
        lemma_write_concat(items_toks(items.drop_last()), value_toks(items.last()));
    }
}

proof fn lemma_members_written(ms: Seq<(Seq<char>, Json)>)
    requires
        carried_members(ms),
    ensures
        write_toks(members_toks(ms)) == members_xml(ms),
    decreases ms,
{
    if ms.len() > 0 {
        let (k, v) = ms.last();
        lemma_members_written(ms.drop_last());
        lemma_value_written(v);
        let name_toks = element("name"@, text_toks(k));
        let body = name_toks + value_toks(v);
        lemma_write_concat(members_toks(ms.drop_last()), element("member"@, body));
        lemma_write_element("member"@, body);
        lemma_write_concat(name_toks, value_toks(v));
        lemma_write_element("name"@, text_toks(k));
        lemma_write_text(k);
        lemma_plain_escapes(k);
        reveal_strlit("<");
        reveal_strlit(">");
        reveal_strlit("</");
        reveal_strlit("member");
        reveal_strlit("name");
        reveal_strlit("<member>");
        reveal_strlit("<name>");
        reveal_strlit("</name>");
        reveal_strlit("</member>");
        assert(write_toks(members_toks(ms)) =~= members_xml(ms));
    }
}

// ----------------------------------------------------------------------------
// Plain documents

/// Every event is plain.
pub open spec fn all_plain(t: Seq<Tok>) -> bool {
    forall|i: int| 0 <= i < t.len() ==> #[trigger] plain_tok_at(t, i)
}

proof fn lemma_plain_concat(a: Seq<Tok>, b: Seq<Tok>)
    requires
        all_plain(a),
        all_plain(b),
    ensures
        all_plain(a + b),
{
    let ab = a + b;
    assert forall|i: int| 0 <= i < ab.len() implies #[trigger] plain_tok_at(ab, i) by {
        if i < a.len() {
            assert(plain_tok_at(a, i));
            assert(ab[i] == a[i]);
            if i > 0 {
                assert(ab[i - 1] == a[i - 1]);
            }
            if i + 1 < a.len() {
                assert(ab[i + 1] == a[i + 1]);
            }
        } else {
            let j = i - a.len();
            assert(plain_tok_at(b, j));
            assert(ab[i] == b[j]);
            if j > 0 {
                assert(ab[i - 1] == b[j - 1]);
            }
            if j + 1 < b.len() {
                assert(ab[i + 1] == b[j + 1]);
            }
        }
    }
}

proof fn lemma_plain_tag(t: Tok)
    requires
        match t {
            Tok::Start(n) => plain_name(n),
            Tok::End(n) => plain_name(n),
            Tok::Empty(n) => plain_name(n),
            _ => false,
        },
    ensures
        all_plain(seq![t]),
{
    assert forall|i: int| 0 <= i < seq![t].len() implies #[trigger] plain_tok_at(seq![t], i) by {
        assert(i == 0);
    }
}

proof fn lemma_plain_element(n: Seq<char>, content: Seq<Tok>)
    requires
        plain_name(n),
        all_plain(content),
    ensures
        all_plain(element(n, content)),
{
    lemma_plain_tag(Tok::Start(n));
    lemma_plain_tag(Tok::End(n));
    lemma_plain_concat(seq![Tok::Start(n)], content);
    lemma_plain_concat(seq![Tok::Start(n)] + content, seq![Tok::End(n)]);
}

proof fn lemma_plain_text_element(n: Seq<char>, s: Seq<char>)
    requires
        plain_name(n),
        s.len() == 0 || plain_text(s),
    ensures
        all_plain(element(n, text_toks(s))),
{
    if s.len() == 0 {
        assert(all_plain(Seq::<Tok>::empty()));
        lemma_plain_element(n, text_toks(s));
    } else {
        let t = element(n, text_toks(s));
        assert(t =~= seq![Tok::Start(n), Tok::Text(s), Tok::End(n)]);
        assert forall|i: int| 0 <= i < t.len() implies #[trigger] plain_tok_at(t, i) by {
            assert(i == 0 || i == 1 || i == 2);
        }
    }
}

proof fn lemma_names()
    ensures
        plain_name("value"@),
        plain_name("nil"@),
        plain_name("boolean"@),
        plain_name("int"@),
        plain_name("string"@),
        plain_name("array"@),
        plain_name("data"@),
        plain_name("struct"@),
        plain_name("member"@),
        plain_name("name"@),
        plain_name("methodResponse"@),
        plain_name("params"@),
        plain_name("param"@),
{
    reveal_strlit("value");
    reveal_strlit("nil");
    reveal_strlit("boolean");
    reveal_strlit("int");
    reveal_strlit("string");
    reveal_strlit("array");
    reveal_strlit("data");
    reveal_strlit("struct");
    reveal_strlit("member");
    reveal_strlit("name");
    reveal_strlit("methodResponse");
    reveal_strlit("params");
    reveal_strlit("param");
    assert("value"@ =~= seq!['v', 'a', 'l', 'u', 'e']);
    assert("nil"@ =~= seq!['n', 'i', 'l']);
    assert("boolean"@ =~= seq!['b', 'o', 'o', 'l', 'e', 'a', 'n']);
    assert("int"@ =~= seq!['i', 'n', 't']);
    assert("string"@ =~= seq!['s', 't', 'r', 'i', 'n', 'g']);
    assert("array"@ =~= seq!['a', 'r', 'r', 'a', 'y']);
    assert("data"@ =~= seq!['d', 'a', 't', 'a']);
    assert("struct"@ =~= seq!['s', 't', 'r', 'u', 'c', 't']);
    assert("member"@ =~= seq!['m', 'e', 'm', 'b', 'e', 'r']);
    assert("name"@ =~= seq!['n', 'a', 'm', 'e']);
    assert("methodResponse"@ =~= seq!['m', 'e', 't', 'h', 'o', 'd', 'R', 'e', 's', 'p', 'o', 'n', 's', 'e']);
    assert("params"@ =~= seq!['p', 'a', 'r', 'a', 'm', 's']);
    assert("param"@ =~= seq!['p', 'a', 'r', 'a', 'm']);
}

/// The decimal text of an integer: not empty, a minus sign or digits only.
proof fn lemma_decimal_chars(i: int)
    ensures
        decimal(i).len() > 0,
        forall|k: int| 0 <= k < decimal(i).len() ==> (#[trigger] decimal(i)[k] == '-' || is_digit(decimal(i)[k])),
        is_digit(decimal(i).last()),
{
    if i < 0 {
        lemma_nat_digits((-i) as nat);
        let d = nat_digits((-i) as nat);
        assert forall|k: int| 0 <= k < decimal(i).len() implies (#[trigger] decimal(i)[k] == '-' || is_digit(decimal(i)[k])) by {
            if k > 0 {
                assert(decimal(i)[k] == d[k - 1]);
            }
        }
        assert(decimal(i).last() == d.last());
    } else {
        lemma_nat_digits(i as nat);
    }
}

proof fn lemma_plain_string_text(s: Seq<char>)
    requires
        plain_string(s),
        s.len() > 0,
    ensures
        plain_text(s),
{
    if s.contains('<') {
        let k = choose|k: int| 0 <= k < s.len() && s[k] == '<';
        assert(is_markup(s[k]));
    }
    if s.contains('&') {
        let k = choose|k: int| 0 <= k < s.len() && s[k] == '&';
        assert(is_markup(s[k]));
    }
}

proof fn lemma_decimal_text(i: int)
    ensures
        plain_text(decimal(i)),
{
    lemma_decimal_chars(i);
    let d = decimal(i);
    if d.contains('<') {
        let k = choose|k: int| 0 <= k < d.len() && d[k] == '<';
        assert(d[k] == '-' || is_digit(d[k]));
    }
    if d.contains('&') {
        let k = choose|k: int| 0 <= k < d.len() && d[k] == '&';
        assert(d[k] == '-' || is_digit(d[k]));
    }
}

proof fn lemma_bit_text(b: bool)
    ensures
        plain_text(if b { "1"@ } else { "0"@ }),
{
    reveal_strlit("1");
    reveal_strlit("0");
    let t = if b { "1"@ } else { "0"@ };
    if t.contains('<') || t.contains('&') {
        let k = choose|k: int| 0 <= k < t.len() && (t[k] == '<' || t[k] == '&');
        assert(k == 0);
    }
}

proof fn lemma_value_plain(v: Json)
    requires
        carried(v),
    ensures
        all_plain(value_toks(v)),
    decreases v,
{
    lemma_names();
    match v {
        Json::Null => {
            lemma_plain_tag(Tok::Empty("nil"@));
            lemma_plain_element("value"@, seq![Tok::Empty("nil"@)]);
        },
        Json::Bool(b) => {
            let t = if b { "1"@ } else { "0"@ };
            lemma_bit_text(b);
            assert(seq![Tok::Text(t)] == text_toks(t));
            lemma_plain_text_element("boolean"@, t);
            lemma_plain_element("value"@, element("boolean"@, seq![Tok::Text(t)]));
        },
        Json::Int(i) => {
            lemma_decimal_text(i as int);
            assert(seq![Tok::Text(decimal(i as int))] == text_toks(decimal(i as int)));
            lemma_plain_text_element("int"@, decimal(i as int));
            lemma_plain_element("value"@, element("int"@, seq![Tok::Text(decimal(i as int))]));
        },
        Json::Double(_) => {},
        Json::Str(s) => {
            if s.len() > 0 {
                lemma_plain_string_text(s);
            }
            lemma_plain_text_element("string"@, s);
            lemma_plain_element("value"@, element("string"@, text_toks(s)));
        },
        Json::Array(items) => {
            lemma_items_plain(items);
            lemma_plain_element("data"@, items_toks(items));
            lemma_plain_element("array"@, element("data"@, items_toks(items)));
            lemma_plain_element("value"@, element("array"@, element("data"@, items_toks(items))));
        },
        Json::Object(ms) => {
            lemma_members_plain(ms);
            lemma_plain_element("struct"@, members_toks(ms));
            lemma_plain_element("value"@, element("struct"@, members_toks(ms)));
        },
    }
}

proof fn lemma_items_plain(items: Seq<Json>)
    requires
        carried_items(items),
    ensures
        all_plain(items_toks(items)),
    decreases items,
{
    if items.len() == 0 {
        assert(all_plain(Seq::<Tok>::empty()));
    } else {
        lemma_items_plain(items.drop_last());
        lemma_value_plain(items.last());
        lemma_plain_concat(items_toks(items.drop_last()), value_toks(items.last()));
    }
}

proof fn lemma_members_plain(ms: Seq<(Seq<char>, Json)>)
    requires
        carried_members(ms),
    ensures
        all_plain(members_toks(ms)),
    decreases ms,
{
    if ms.len() == 0 {
        assert(all_plain(Seq::<Tok>::empty()));
    } else {
        let (k, v) = ms.last();
        lemma_names();
        lemma_members_plain(ms.drop_last());
        lemma_value_plain(v);
        if k.len() > 0 {
            lemma_plain_string_text(k);
        }
        lemma_plain_text_element("name"@, k);
        lemma_plain_concat(element("name"@, text_toks(k)), value_toks(v));
        lemma_plain_element("member"@, element("name"@, text_toks(k)) + value_toks(v));
        lemma_plain_concat(
            members_toks(ms.drop_last()),
            element("member"@, element("name"@, text_toks(k)) + value_toks(v)),
        );
    }
}

// ----------------------------------------------------------------------------
// Nesting

proof fn lemma_open_concat(a: Seq<Tok>, b: Seq<Tok>, open: Seq<Seq<char>>)
    ensures
        open_after(a + b, open) == match open_after(a, open) {
            Some(o) => open_after(b, o),
            None => None,
        },
    decreases a.len(),
{
    if a.len() == 0 {
        assert(a + b =~= b);
    } else {
        assert((a + b).drop_first() =~= a.drop_first() + b);
        assert((a + b)[0] == a[0]);
        match a[0] {
            Tok::Start(n) => lemma_open_concat(a.drop_first(), b, open.push(n)),
            Tok::End(n) => {
                if open.len() > 0 && open.last() == n {
                    lemma_open_concat(a.drop_first(), b, open.drop_last());
                }
            },
            _ => lemma_open_concat(a.drop_first(), b, open),
        }
    }
}

proof fn lemma_open_one(t: Tok, open: Seq<Seq<char>>)
    ensures
        open_after(seq![t], open) == match t {
            Tok::Start(n) => Some(open.push(n)),
            Tok::End(n) => if open.len() > 0 && open.last() == n {
                Some(open.drop_last())
            } else {
                None
            },
            _ => Some(open),
        },
{
    let one = seq![t];
    let none = Seq::<Tok>::empty();
    assert(one.drop_first() =~= none);
    assert(one[0] == t);
    match t {
        Tok::Start(n) => {
            assert(open_after(none, open.push(n)) == Some(open.push(n)));
        },
        Tok::End(n) => {
            if open.len() > 0 && open.last() == n {
                assert(open_after(none, open.drop_last()) == Some(open.drop_last()));
            }
        },
        _ => {
            assert(open_after(none, open) == Some(open));
        },
    }
}

proof fn lemma_open_element(n: Seq<char>, content: Seq<Tok>, open: Seq<Seq<char>>)
    requires
        open_after(content, open.push(n)) == Some(open.push(n)),
    ensures
        open_after(element(n, content), open) == Some(open),
{
    lemma_open_concat(seq![Tok::Start(n)], content, open);
    lemma_open_concat(seq![Tok::Start(n)] + content, seq![Tok::End(n)], open);
    lemma_open_one(Tok::Start(n), open);
    lemma_open_one(Tok::End(n), open.push(n));
    assert(open.push(n).drop_last() =~= open);
}

proof fn lemma_open_text(s: Seq<char>, open: Seq<Seq<char>>)
    ensures
        open_after(text_toks(s), open) == Some(open),
{
    if s.len() > 0 {
        lemma_open_one(Tok::Text(s), open);
    }
}

proof fn lemma_value_nests(v: Json, open: Seq<Seq<char>>)
    requires
        carried(v),
    ensures
        open_after(value_toks(v), open) == Some(open),
    decreases v,
{
    let o = open.push("value"@);
    match v {
        Json::Null => {
            lemma_open_one(Tok::Empty("nil"@), o);
            lemma_open_element("value"@, seq![Tok::Empty("nil"@)], open);
        },
        Json::Bool(b) => {
            let t = if b { "1"@ } else { "0"@ };
            lemma_open_one(Tok::Text(t), o.push("boolean"@));
            lemma_open_element("boolean"@, seq![Tok::Text(t)], o);
            lemma_open_element("value"@, element("boolean"@, seq![Tok::Text(t)]), open);
        },
        Json::Int(i) => {
            let t = decimal(i as int);
            lemma_open_one(Tok::Text(t), o.push("int"@));
            lemma_open_element("int"@, seq![Tok::Text(t)], o);
            lemma_open_element("value"@, element("int"@, seq![Tok::Text(t)]), open);
        },
        Json::Double(_) => {},
        Json::Str(s) => {
            lemma_open_text(s, o.push("string"@));
            lemma_open_element("string"@, text_toks(s), o);
            lemma_open_element("value"@, element("string"@, text_toks(s)), open);
        },
        Json::Array(items) => {
            let o2 = o.push("array"@);
            lemma_items_nest(items, o2.push("data"@));
            lemma_open_element("data"@, items_toks(items), o2);
            lemma_open_element("array"@, element("data"@, items_toks(items)), o);
            lemma_open_element("value"@, element("array"@, element("data"@, items_toks(items))), open);
        },
        Json::Object(ms) => {
            lemma_members_nest(ms, o.push("struct"@));
            lemma_open_element("struct"@, members_toks(ms), o);
            lemma_open_element("value"@, element("struct"@, members_toks(ms)), open);
        },
    }
}

proof fn lemma_items_nest(items: Seq<Json>, open: Seq<Seq<char>>)
    requires
        carried_items(items),
    ensures
        open_after(items_toks(items), open) == Some(open),
    decreases items,
{
    if items.len() > 0 {
        lemma_items_nest(items.drop_last(), open);
        lemma_value_nests(items.last(), open);
        lemma_open_concat(items_toks(items.drop_last()), value_toks(items.last()), open);
    }
}

proof fn lemma_members_nest(ms: Seq<(Seq<char>, Json)>, open: Seq<Seq<char>>)
    requires
        carried_members(ms),
    ensures
        open_after(members_toks(ms), open) == Some(open),
    decreases ms,
{
    if ms.len() > 0 {
        let (k, v) = ms.last();
        let om = open.push("member"@);
        lemma_members_nest(ms.drop_last(), open);
        lemma_open_text(k, om.push("name"@));
        lemma_open_element("name"@, text_toks(k), om);
        lemma_value_nests(v, om);
        lemma_open_concat(element("name"@, text_toks(k)), value_toks(v), om);
        lemma_open_element("member"@, element("name"@, text_toks(k)) + value_toks(v), open);
        lemma_open_concat(
            members_toks(ms.drop_last()),
            element("member"@, element("name"@, text_toks(k)) + value_toks(v)),
            open,
        );
    }
}

// ----------------------------------------------------------------------------
// Reading

proof fn lemma_node_text_plain(s: Seq<char>)
    requires
        plain_string(s),
    ensures
        node_text(s) == s,
{
    if s.len() == 0 {
        assert(xml_trim_start(s) == s);
        assert(xml_trim_end(s) == s);
    } else {
        assert(xml_trim_start(s) == s);
        assert(xml_trim_end(s) == s);
        if s.contains('&') {
            let k = choose|k: int| 0 <= k < s.len() && s[k] == '&';
            assert(is_markup(s[k]));
        }
    }
}

proof fn lemma_blank_empty()
    ensures
        node_text(Seq::<char>::empty()) == Seq::<char>::empty(),
        is_blank(Seq::<char>::empty()),
{
    let e = Seq::<char>::empty();
    assert(xml_trim_start(e) == e);
    assert(xml_trim_end(e) == e);
    assert(trim_start(e) == e);
    assert(trim_end(e) == e);
}

proof fn lemma_text_read(n: Seq<char>, s: Seq<char>, rest: Seq<Tok>)
    requires
        plain_string(s),
    ensures
        text_until(text_toks(s) + seq![Tok::End(n)] + rest, n, Seq::empty(), Seq::empty()) == Step::Done(
            s,
            rest,
        ),
{
    lemma_node_text_plain(s);
    lemma_blank_empty();
    let e = Seq::<char>::empty();
    let toks = text_toks(s) + seq![Tok::End(n)] + rest;
    let at_end = seq![Tok::End(n)] + rest;
    assert(at_end[0] == Tok::End(n));
    assert(at_end.drop_first() =~= rest);
    if s.len() == 0 {
        assert(toks =~= at_end);
        assert(e + node_text(e) =~= e);
    } else {
        assert(toks[0] == Tok::Text(s));
        assert(toks.drop_first() =~= at_end);
        assert(e + raw_of(Tok::Text(s)) =~= s);
        assert(text_until(toks, n, e, e) == text_until(at_end, n, e, s));
        assert(e + node_text(s) =~= s);
    }
}

proof fn lemma_value_end(v: Json, rest: Seq<Tok>)
    ensures
        then_value_end(seq![Tok::End("value"@)] + rest, v) == Step::Done(v, rest),
{
    let toks = seq![Tok::End("value"@)] + rest;
    assert(toks[0] == Tok::End("value"@));
    assert(toks.drop_first() =~= rest);
}

/// The element names that the reader compares are different names.
proof fn lemma_literals()
    ensures
        "nil"@ != "array"@,
        "nil"@ != "struct"@,
        "boolean"@ != "array"@,
        "boolean"@ != "struct"@,
        "int"@ != "array"@,
        "int"@ != "struct"@,
        "string"@ != "array"@,
        "string"@ != "struct"@,
        "string"@ != "int"@,
        "string"@ != "i4"@,
        "string"@ != "i8"@,
        "string"@ != "boolean"@,
        "string"@ != "double"@,
        "boolean"@ != "int"@,
        "boolean"@ != "i4"@,
        "boolean"@ != "i8"@,
        "array"@ != "struct"@,
        "data"@ != "value"@,
        "data"@ != "array"@,
        "name"@ != "value"@,
        "value"@ != "member"@,
        "member"@ != "struct"@,
        "methodResponse"@ != "fault"@,
        "methodResponse"@ != "param"@,
        "params"@ != "fault"@,
        "params"@ != "param"@,
        "param"@ != "fault"@,
        "value"@ != "struct"@,
        "value"@ != "array"@,
        "nil"@ != "array"@,
{
    assert("nil"@ != "array"@) by {
        reveal_strlit("nil");
        reveal_strlit("array");
        assert("nil"@.len() != "array"@.len());
    }
    assert("nil"@ != "struct"@) by {
        reveal_strlit("nil");
        reveal_strlit("struct");
        assert("nil"@.len() != "struct"@.len());
    }
    assert("boolean"@ != "array"@) by {
        reveal_strlit("boolean");
        reveal_strlit("array");
        assert("boolean"@.len() != "array"@.len());
    }
    assert("boolean"@ != "struct"@) by {
        reveal_strlit("boolean");
        reveal_strlit("struct");
        assert("boolean"@.len() != "struct"@.len());
    }
    assert("int"@ != "array"@) by {
        reveal_strlit("int");
        reveal_strlit("array");
        assert("int"@.len() != "array"@.len());
    }
    assert("int"@ != "struct"@) by {
        reveal_strlit("int");
        reveal_strlit("struct");
        assert("int"@.len() != "struct"@.len());
    }
    assert("string"@ != "array"@) by {
        reveal_strlit("string");
        reveal_strlit("array");
        assert("string"@.len() != "array"@.len());
    }
    assert("string"@ != "struct"@) by {
        reveal_strlit("string");
        reveal_strlit("struct");
        assert("string"@[3] != "struct"@[3]);
    }
    assert("string"@ != "int"@) by {
        reveal_strlit("string");
        reveal_strlit("int");
        assert("string"@.len() != "int"@.len());
    }
    assert("string"@ != "i4"@) by {
        reveal_strlit("string");
        reveal_strlit("i4");
        assert("string"@.len() != "i4"@.len());
    }
    assert("string"@ != "i8"@) by {
        reveal_strlit("string");
        reveal_strlit("i8");
        assert("string"@.len() != "i8"@.len());
    }
    assert("string"@ != "boolean"@) by {
        reveal_strlit("string");
        reveal_strlit("boolean");
        assert("string"@.len() != "boolean"@.len());
    }
    assert("string"@ != "double"@) by {
        reveal_strlit("string");
        reveal_strlit("double");
        assert("string"@[0] != "double"@[0]);
    }
    assert("boolean"@ != "int"@) by {
        reveal_strlit("boolean");
        reveal_strlit("int");
        assert("boolean"@.len() != "int"@.len());
    }
    assert("boolean"@ != "i4"@) by {
        reveal_strlit("boolean");
        reveal_strlit("i4");
        assert("boolean"@.len() != "i4"@.len());
    }
    assert("boolean"@ != "i8"@) by {
        reveal_strlit("boolean");
        reveal_strlit("i8");
        assert("boolean"@.len() != "i8"@.len());
    }
    assert("array"@ != "struct"@) by {
        reveal_strlit("array");
        reveal_strlit("struct");
        assert("array"@.len() != "struct"@.len());
    }
    assert("data"@ != "value"@) by {
        reveal_strlit("data");
        reveal_strlit("value");
        assert("data"@.len() != "value"@.len());
    }
    assert("data"@ != "array"@) by {
        reveal_strlit("data");
        reveal_strlit("array");
        assert("data"@.len() != "array"@.len());
    }
    assert("name"@ != "value"@) by {
        reveal_strlit("name");
        reveal_strlit("value");
        assert("name"@.len() != "value"@.len());
    }
    assert("value"@ != "member"@) by {
        reveal_strlit("value");
        reveal_strlit("member");
        assert("value"@.len() != "member"@.len());
    }
    assert("member"@ != "struct"@) by {
        reveal_strlit("member");
        reveal_strlit("struct");
        assert("member"@[0] != "struct"@[0]);
    }
    assert("methodResponse"@ != "fault"@) by {
        reveal_strlit("methodResponse");
        reveal_strlit("fault");
        assert("methodResponse"@.len() != "fault"@.len());
    }
    assert("methodResponse"@ != "param"@) by {
        reveal_strlit("methodResponse");
        reveal_strlit("param");
        assert("methodResponse"@.len() != "param"@.len());
    }
    assert("params"@ != "fault"@) by {
        reveal_strlit("params");
        reveal_strlit("fault");
        assert("params"@.len() != "fault"@.len());
    }
    assert("params"@ != "param"@) by {
        reveal_strlit("params");
        reveal_strlit("param");
        assert("params"@.len() != "param"@.len());
    }
    assert("param"@ != "fault"@) by {
        reveal_strlit("param");
        reveal_strlit("fault");
        assert("param"@[0] != "fault"@[0]);
    }
    assert("value"@ != "struct"@) by {
        reveal_strlit("value");
        reveal_strlit("struct");
        assert("value"@.len() != "struct"@.len());
    }
    assert("value"@ != "array"@) by {
        reveal_strlit("value");
        reveal_strlit("array");
        assert("value"@[0] != "array"@[0]);
    }
    assert("nil"@ != "array"@) by {
        reveal_strlit("nil");
        reveal_strlit("array");
        assert("nil"@.len() != "array"@.len());
    }
}

proof fn lemma_scalars(b: bool, i: i64, s: Seq<char>)
    requires
        plain_string(s),
    ensures
        scalar_of("boolean"@, if b { "1"@ } else { "0"@ }) == Json::Bool(b),
        scalar_of("int"@, decimal(i as int)) == Json::Int(i),
        scalar_of("string"@, s) == Json::Str(s),
{
    lemma_literals();
    int_text_reads_back(i);
    reveal_strlit("1");
    reveal_strlit("0");
    reveal_strlit("true");
    let t = if b { "1"@ } else { "0"@ };
    assert(trim_start(t) == t);
    assert(trim_end(t) == t);
    assert(trimmed(t) == t);
    if !b {
        assert(t[0] != "1"@[0]);
        assert(!eq_ignore_case(t, "true"@));
    }
}

proof fn lemma_carried_items_all(items: Seq<Json>)
    ensures
        carried_items(items) <==> forall|k: int| 0 <= k < items.len() ==> carried(#[trigger] items[k]),
    decreases items.len(),
{
    if items.len() > 0 {
        lemma_carried_items_all(items.drop_last());
        if forall|k: int| 0 <= k < items.len() ==> carried(#[trigger] items[k]) {
            assert forall|k: int| 0 <= k < items.drop_last().len() implies carried(#[trigger] items.drop_last()[k]) by {
                assert(items.drop_last()[k] == items[k]);
            }
        }
        if carried_items(items) {
            assert forall|k: int| 0 <= k < items.len() implies carried(#[trigger] items[k]) by {
                if k < items.len() - 1 {
                    assert(items.drop_last()[k] == items[k]);
                }
            }
        }
    }
}

proof fn lemma_carried_members_all(ms: Seq<(Seq<char>, Json)>)
    ensures
        carried_members(ms) <==> forall|k: int| 0 <= k < ms.len() ==> plain_string((#[trigger] ms[k]).0)
            && carried(ms[k].1),
    decreases ms.len(),
{
    if ms.len() > 0 {
        lemma_carried_members_all(ms.drop_last());
        if forall|k: int| 0 <= k < ms.len() ==> plain_string((#[trigger] ms[k]).0) && carried(ms[k].1) {
            assert forall|k: int| 0 <= k < ms.drop_last().len() implies plain_string((#[trigger] ms.drop_last()[k]).0)
                && carried(ms.drop_last()[k].1) by {
                assert(ms.drop_last()[k] == ms[k]);
            }
        }
        if carried_members(ms) {
            assert forall|k: int| 0 <= k < ms.len() implies plain_string((#[trigger] ms[k]).0) && carried(ms[k].1) by {
                if k < ms.len() - 1 {
                    assert(ms.drop_last()[k] == ms[k]);
                }
            }
        }
    }
}

proof fn lemma_items_front(items: Seq<Json>)
    requires
        items.len() > 0,
    ensures
        items_toks(items) == value_toks(items[0]) + items_toks(items.drop_first()),
    decreases items.len(),
{
    let dl = items.drop_last();
    if items.len() == 1 {
        assert(dl.len() == 0);
        assert(items.drop_first().len() == 0);
        assert(items_toks(dl) == Seq::<Tok>::empty());
        assert(items_toks(items.drop_first()) == Seq::<Tok>::empty());
        assert(items_toks(items) =~= value_toks(items[0]) + items_toks(items.drop_first()));
    } else {
        lemma_items_front(dl);
        let df = items.drop_first();
        assert(df.drop_last() =~= dl.drop_first());
        assert(df.last() == items.last());
        assert(dl[0] == items[0]);
        assert(items_toks(items) =~= value_toks(items[0]) + items_toks(items.drop_first()));
    }
}

pub open spec fn member_toks(k: Seq<char>, v: Json) -> Seq<Tok> {
    element("member"@, element("name"@, text_toks(k)) + value_toks(v))
}

proof fn lemma_members_front(ms: Seq<(Seq<char>, Json)>)
    requires
        ms.len() > 0,
    ensures
        members_toks(ms) == member_toks(ms[0].0, ms[0].1) + members_toks(ms.drop_first()),
    decreases ms.len(),
{
    let dl = ms.drop_last();
    if ms.len() == 1 {
        assert(members_toks(dl) == Seq::<Tok>::empty());
        assert(members_toks(ms.drop_first()) == Seq::<Tok>::empty());
        assert(members_toks(ms) =~= member_toks(ms[0].0, ms[0].1) + members_toks(ms.drop_first()));
    } else {
        lemma_members_front(dl);
        let df = ms.drop_first();
        assert(df.drop_last() =~= dl.drop_first());
        assert(df.last() == ms.last());
        assert(dl[0] == ms[0]);
        assert(members_toks(ms) =~= member_toks(ms[0].0, ms[0].1) + members_toks(ms.drop_first()));
    }
}

proof fn lemma_scalar_read(v: Json, rest: Seq<Tok>)
    requires
        carried(v),
        !(v is Array),
        !(v is Object),
    ensures
        inside_value(value_toks(v).drop_first() + rest, Seq::empty()) == Step::Done(v, rest),
{
    lemma_literals();
    lemma_blank_empty();
    let e = Seq::<char>::empty();
    let toks = value_toks(v).drop_first() + rest;
    let end_rest = seq![Tok::End("value"@)] + rest;
    match v {
        Json::Null => {
            assert(toks =~= seq![Tok::Empty("nil"@)] + end_rest);
            assert(toks[0] == Tok::Empty("nil"@));
            assert(toks.drop_first() =~= end_rest);
            lemma_value_end(v, rest);
        },
        Json::Bool(b) => {
            let t = if b { "1"@ } else { "0"@ };
            reveal_strlit("1");
            reveal_strlit("0");
            assert(plain_string(t));
            assert(seq![Tok::Text(t)] == text_toks(t));
            assert(toks =~= seq![Tok::Start("boolean"@)] + (text_toks(t) + seq![Tok::End("boolean"@)] + end_rest));
            assert(toks[0] == Tok::Start("boolean"@));
            assert(toks.drop_first() =~= text_toks(t) + seq![Tok::End("boolean"@)] + end_rest);
            lemma_text_read("boolean"@, t, end_rest);
            lemma_scalars(b, 0, e);
            lemma_value_end(v, rest);
        },
        Json::Int(i) => {
            let t = decimal(i as int);
            lemma_decimal_chars(i as int);
            assert forall|k: int| 0 <= k < t.len() implies !is_markup(#[trigger] t[k]) by {
                assert(t[k] == '-' || is_digit(t[k]));
            }
            assert(t[0] == '-' || is_digit(t[0]));
            assert(plain_string(t));
            assert(seq![Tok::Text(t)] == text_toks(t));
            assert(toks =~= seq![Tok::Start("int"@)] + (text_toks(t) + seq![Tok::End("int"@)] + end_rest));
            assert(toks[0] == Tok::Start("int"@));
            assert(toks.drop_first() =~= text_toks(t) + seq![Tok::End("int"@)] + end_rest);
            lemma_text_read("int"@, t, end_rest);
            lemma_scalars(true, i, e);
            lemma_value_end(v, rest);
        },
        Json::Str(s) => {
            assert(toks =~= seq![Tok::Start("string"@)] + (text_toks(s) + seq![Tok::End("string"@)] + end_rest));
            assert(toks[0] == Tok::Start("string"@));
            assert(toks.drop_first() =~= text_toks(s) + seq![Tok::End("string"@)] + end_rest);
            lemma_text_read("string"@, s, end_rest);
            lemma_scalars(true, 0, s);
            lemma_value_end(v, rest);
        },
        _ => {},
    }
}

proof fn lemma_array_read(items: Seq<Json>, rest: Seq<Tok>)
    requires
        carried_items(items),
    ensures
        inside_value(value_toks(Json::Array(items)).drop_first() + rest, Seq::empty()) == Step::Done(
            Json::Array(items),
            rest,
        ),
    decreases items, 1int,
{
    lemma_literals();
    lemma_blank_empty();
    let v = Json::Array(items);
    let toks = value_toks(v).drop_first() + rest;
    let end_rest = seq![Tok::End("value"@)] + rest;
    let tail = seq![Tok::End("data"@), Tok::End("array"@)] + end_rest;
    let after_array = seq![Tok::Start("data"@)] + items_toks(items) + tail;
    assert(toks =~= seq![Tok::Start("array"@)] + after_array);
    assert(toks[0] == Tok::Start("array"@));
    assert(toks.drop_first() =~= after_array);
    assert(after_array[0] == Tok::Start("data"@));
    assert(after_array.drop_first() =~= items_toks(items) + tail);
    assert(array_items(after_array, Seq::empty()) == array_items(items_toks(items) + tail, Seq::empty()));
    lemma_items_read(items, tail, Seq::empty());
    assert(Seq::<Json>::empty() + items =~= items);
    assert(tail[0] == Tok::End("data"@));
    let t2 = seq![Tok::End("array"@)] + end_rest;
    assert(tail.drop_first() =~= t2);
    assert(t2[0] == Tok::End("array"@));
    assert(t2.drop_first() =~= end_rest);
    assert(array_items(t2, items) == Step::Done(items, end_rest));
    assert(array_items(tail, items) == array_items(t2, items));
    lemma_value_end(v, rest);
}

proof fn lemma_object_read(ms: Seq<(Seq<char>, Json)>, rest: Seq<Tok>)
    requires
        distinct_keys(ms),
        carried_members(ms),
    ensures
        inside_value(value_toks(Json::Object(ms)).drop_first() + rest, Seq::empty()) == Step::Done(
            Json::Object(ms),
            rest,
        ),
    decreases ms, 1int,
{
    lemma_literals();
    lemma_blank_empty();
    let v = Json::Object(ms);
    let toks = value_toks(v).drop_first() + rest;
    let end_rest = seq![Tok::End("value"@)] + rest;
    let tail = seq![Tok::End("struct"@)] + end_rest;
    assert(toks =~= seq![Tok::Start("struct"@)] + (members_toks(ms) + tail));
    assert(toks[0] == Tok::Start("struct"@));
    assert(toks.drop_first() =~= members_toks(ms) + tail);
    let e = Seq::<(Seq<char>, Json)>::empty();
    assert forall|j: int| 0 <= j < ms.len() implies !has_key(e, (#[trigger] ms[j]).0) by {}
    lemma_members_read(ms, tail, e);
    assert(e + ms =~= ms);
    assert(tail[0] == Tok::End("struct"@));
    assert(tail.drop_first() =~= end_rest);
    assert(struct_members(tail, ms) == Step::Done(ms, end_rest));
    lemma_value_end(v, rest);
}

proof fn lemma_value_read(v: Json, rest: Seq<Tok>)
    requires
        carried(v),
    ensures
        inside_value(value_toks(v).drop_first() + rest, Seq::empty()) == Step::Done(v, rest),
    decreases v, 0int,
{
    match v {
        Json::Array(items) => lemma_array_read(items, rest),
        Json::Object(ms) => lemma_object_read(ms, rest),
        _ => lemma_scalar_read(v, rest),
    }
}

proof fn lemma_items_read(items: Seq<Json>, tail: Seq<Tok>, acc: Seq<Json>)
    requires
        carried_items(items),
    ensures
        array_items(items_toks(items) + tail, acc) == array_items(tail, acc + items),
    decreases items, 0int,
{
    if items.len() == 0 {
        assert(items_toks(items) + tail =~= tail);
        assert(acc + items =~= acc);
    } else {
        lemma_literals();
        lemma_carried_items_all(items);
        lemma_carried_items_all(items.drop_first());
        assert forall|k: int| 0 <= k < items.drop_first().len() implies carried(#[trigger] items.drop_first()[k]) by {
            assert(items.drop_first()[k] == items[k + 1]);
        }
        lemma_items_front(items);
        let x = items[0];
        let more = items_toks(items.drop_first()) + tail;
        let toks = items_toks(items) + tail;
        assert(toks =~= value_toks(x) + more);
        assert(value_toks(x)[0] == Tok::Start("value"@));
        assert(toks[0] == Tok::Start("value"@));
        assert(toks.drop_first() =~= value_toks(x).drop_first() + more);
        lemma_value_read(x, more);
        assert(more.len() < toks.len());
        lemma_items_read(items.drop_first(), tail, acc.push(x));
        assert(acc.push(x) + items.drop_first() =~= acc + items);
    }
}

proof fn lemma_member_read(k: Seq<char>, v: Json, more: Seq<Tok>)
    requires
        plain_string(k),
        carried(v),
    ensures
        member(member_toks(k, v).drop_first() + more, Seq::empty(), Json::Null) == Step::Done((k, v), more),
    decreases v, 1int,
{
    lemma_literals();
    let e = Seq::<char>::empty();
    let after_name = value_toks(v) + seq![Tok::End("member"@)] + more;
    let toks = member_toks(k, v).drop_first() + more;
    assert(toks =~= seq![Tok::Start("name"@)] + (text_toks(k) + seq![Tok::End("name"@)] + after_name));
    assert(toks[0] == Tok::Start("name"@));
    assert(toks.drop_first() =~= text_toks(k) + seq![Tok::End("name"@)] + after_name);
    lemma_text_read("name"@, k, after_name);
    assert(after_name.len() < toks.len());
    assert(member(toks, e, Json::Null) == member(after_name, k, Json::Null));
    let end_more = seq![Tok::End("member"@)] + more;
    assert(after_name =~= value_toks(v) + end_more);
    assert(value_toks(v)[0] == Tok::Start("value"@));
    assert(after_name[0] == Tok::Start("value"@));
    assert(after_name.drop_first() =~= value_toks(v).drop_first() + end_more);
    lemma_value_read(v, end_more);
    assert(end_more.len() < after_name.len());
    assert(member(after_name, k, Json::Null) == member(end_more, k, v));
    assert(end_more[0] == Tok::End("member"@));
    assert(end_more.drop_first() =~= more);
}

proof fn lemma_members_read(ms: Seq<(Seq<char>, Json)>, tail: Seq<Tok>, acc: Seq<(Seq<char>, Json)>)
    requires
        carried_members(ms),
        distinct_keys(ms),
        forall|j: int| 0 <= j < ms.len() ==> !has_key(acc, (#[trigger] ms[j]).0),
    ensures
        struct_members(members_toks(ms) + tail, acc) == struct_members(tail, acc + ms),
    decreases ms, 0int,
{
    if ms.len() == 0 {
        assert(members_toks(ms) + tail =~= tail);
        assert(acc + ms =~= acc);
    } else {
        lemma_literals();
        lemma_carried_members_all(ms);
        let rest_ms = ms.drop_first();
        lemma_carried_members_all(rest_ms);
        assert forall|j: int| 0 <= j < rest_ms.len() implies plain_string((#[trigger] rest_ms[j]).0) && carried(
            rest_ms[j].1,
        ) by {
            assert(rest_ms[j] == ms[j + 1]);
        }
        lemma_members_front(ms);
        let (k, v) = ms[0];
        assert(plain_string(ms[0].0) && carried(ms[0].1));
        let more = members_toks(rest_ms) + tail;
        let toks = members_toks(ms) + tail;
        assert(toks =~= member_toks(k, v) + more);
        assert(member_toks(k, v)[0] == Tok::Start("member"@));
        assert(toks[0] == Tok::Start("member"@));
        assert(toks.drop_first() =~= member_toks(k, v).drop_first() + more);
        lemma_member_read(k, v, more);
        assert(more.len() < toks.len());
        assert(!has_key(acc, ms[0].0));
        assert(insert_member(acc, k, v) == acc.push((k, v)));
        let acc2 = acc.push((k, v));
        assert(distinct_keys(rest_ms)) by {
            assert forall|a: int, b: int| 0 <= a < rest_ms.len() && 0 <= b < rest_ms.len() && a != b implies (#[trigger] rest_ms[a]).0
                != (#[trigger] rest_ms[b]).0 by {
                assert(rest_ms[a] == ms[a + 1] && rest_ms[b] == ms[b + 1]);
            }
        }
        assert forall|j: int| 0 <= j < rest_ms.len() implies !has_key(acc2, (#[trigger] rest_ms[j]).0) by {
            assert(rest_ms[j] == ms[j + 1]);
            assert(ms[j + 1].0 != ms[0].0);
            assert(!has_key(acc, ms[j + 1].0));
            if has_key(acc2, rest_ms[j].0) {
                let i = choose|i: int| 0 <= i < acc2.len() && #[trigger] acc2[i].0 == rest_ms[j].0;
                if i < acc.len() {
                    assert(acc2[i] == acc[i]);
                } else {
                    assert(acc2[i] == (k, v));
                }
            }
        }
        lemma_members_read(rest_ms, tail, acc2);
        assert(acc2 + rest_ms =~= acc + ms);
    }
}

/// A value that [`carried`] admits, written by the value writer as the
/// parameter of a response, reads back as itself. The response document is
/// plain and written from [`response_toks`]; on such text `parse_response`
/// reads those events, and they stand for the value.
pub proof fn written_values_read_back(v: Json)
    requires
        carried(v),
    ensures
        plain_document(response_toks(v)),
        write_toks(response_toks(v)) == response_doc(v),
        response(response_toks(v).push(Tok::Eof)) == Ok::<Json, crate::error::Failure>(v),
{
    lemma_names();
    lemma_literals();
    let vt = value_toks(v);
    // plain
    lemma_value_plain(v);
    lemma_plain_element("param"@, vt);
    lemma_plain_element("params"@, element("param"@, vt));
    lemma_plain_element("methodResponse"@, element("params"@, element("param"@, vt)));
    let doc = response_toks(v);
    assert forall|i: int| 0 <= i < doc.len() implies #[trigger] plain_tok_at(doc, i) by {}
    let none = Seq::<Seq<char>>::empty();
    let o1 = none.push("methodResponse"@);
    let o2 = o1.push("params"@);
    let o3 = o2.push("param"@);
    lemma_value_nests(v, o3);
    lemma_open_element("param"@, vt, o2);
    lemma_open_element("params"@, element("param"@, vt), o1);
    lemma_open_element("methodResponse"@, element("params"@, element("param"@, vt)), none);
    assert(doc[0] == Tok::Start("methodResponse"@));
    // written
    lemma_value_written(v);
    lemma_write_element("param"@, vt);
    lemma_write_element("params"@, element("param"@, vt));
    lemma_write_element("methodResponse"@, element("params"@, element("param"@, vt)));
    reveal_strlit("<");
    reveal_strlit(">");
    reveal_strlit("</");
    reveal_strlit("methodResponse");
    reveal_strlit("params");
    reveal_strlit("param");
    reveal_strlit("<methodResponse><params><param>");
    reveal_strlit("</param></params></methodResponse>");
    assert(write_toks(doc) =~= response_doc(v));
    // read
    let tail = seq![Tok::End("param"@), Tok::End("params"@), Tok::End("methodResponse"@), Tok::Eof];
    let toks = doc.push(Tok::Eof);
    let t1 = toks.drop_first();
    let t2 = t1.drop_first();
    let t3 = t2.drop_first();
    assert(toks =~= seq![Tok::Start("methodResponse"@), Tok::Start("params"@), Tok::Start("param"@)] + vt + tail);
    assert(toks[0] == Tok::Start("methodResponse"@));
    assert(t1[0] == Tok::Start("params"@));
    assert(t2[0] == Tok::Start("param"@));
    assert(t3 =~= vt + tail);
    assert(vt[0] == Tok::Start("value"@));
    assert(t3[0] == Tok::Start("value"@));
    assert(t3.drop_first() =~= vt.drop_first() + tail);
    lemma_value_read(v, tail);
    assert(response(t2) == Ok::<Json, crate::error::Failure>(v));
    assert(response(t1) == response(t2));
    assert(response(toks) == response(t1));
}

} // verus!
