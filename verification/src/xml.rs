//! The XML events of a document, read with `quick_xml`.

use vstd::prelude::*;
use quick_xml::events::Event;
use quick_xml::reader::Reader;
use crate::error::opt_view;

verus! {

/// The model of one event: element names are local names, text is raw
/// content up to the next markup or reference, a reference `&name;` is given
/// by the name between `&` and `;`, and `Other` stands for declarations,
/// comments, CDATA, processing instructions and doctypes.
pub enum Tok {
    Start(Seq<char>),
    End(Seq<char>),
    Empty(Seq<char>),
    Text(Seq<char>),
    Ref(Seq<char>),
    Other,
    Eof,
    Fail(Seq<char>),
}

/// One event of a document.
pub enum XmlEvent {
    Start(String),
    End(String),
    Empty(String),
    Text(String),
    Ref(String),
    Other,
    Eof,
    Fail(String),
}

impl View for XmlEvent {
    type V = Tok;

    open spec fn view(&self) -> Tok {
        match self {
            XmlEvent::Start(n) => Tok::Start(n@),
            XmlEvent::End(n) => Tok::End(n@),
            XmlEvent::Empty(n) => Tok::Empty(n@),
            XmlEvent::Text(t) => Tok::Text(t@),
            XmlEvent::Ref(n) => Tok::Ref(n@),
            XmlEvent::Other => Tok::Other,
            XmlEvent::Eof => Tok::Eof,
            XmlEvent::Fail(e) => Tok::Fail(e@),
        }
    }
}

/// The end of input, or an error: after either nothing more is read.
pub open spec fn is_final(t: Tok) -> bool {
    t is Eof || t is Fail
}

/// A stream of events that ends with its first end of input or error.
pub open spec fn well_formed_stream(s: Seq<Tok>) -> bool {
    &&& s.len() > 0
    &&& is_final(s.last())
    &&& forall|i: int| 0 <= i < s.len() - 1 ==> !is_final(#[trigger] s[i])
}

#[verifier::external_type_specification]
#[verifier::external_body]
#[verifier::reject_recursive_types(R)]
pub struct ExReader<R>(Reader<R>);

/// The events that a `quick_xml` reader over `input` (with its default
/// configuration) yields, up to and including the first end of input or error.
pub uninterp spec fn xml_events(input: Seq<char>) -> Seq<Tok>;

/// The events that a reader has still to yield, up to and including the
/// first end of input or error.
pub uninterp spec fn pending(reader: Reader<&[u8]>) -> Seq<Tok>;

/// What `quick_xml::escape::unescape` makes of raw text: the text with its
/// entity and character references replaced, or nothing when one of them
/// is malformed or unknown.
pub uninterp spec fn xml_unescape(raw: Seq<char>) -> Option<Seq<char>>;

/// The predefined entity that text starts with, if any: the character it
/// stands for and its length (`&amp;`, `&lt;`, `&gt;`, `&quot;`, `&apos;`).
pub open spec fn entity_at(s: Seq<char>) -> Option<(char, nat)> {
    if s.len() >= 5 && s.take(5) == seq!['&', 'a', 'm', 'p', ';'] {
        Some(('&', 5))
    } else if s.len() >= 4 && s.take(4) == seq!['&', 'l', 't', ';'] {
        Some(('<', 4))
    } else if s.len() >= 4 && s.take(4) == seq!['&', 'g', 't', ';'] {
        Some(('>', 4))
    } else if s.len() >= 6 && s.take(6) == seq!['&', 'q', 'u', 'o', 't', ';'] {
        Some(('"', 6))
    } else if s.len() >= 6 && s.take(6) == seq!['&', 'a', 'p', 'o', 's', ';'] {
        Some(('\'', 6))
    } else {
        None
    }
}

/// Text in which every `&` starts one of the five predefined entities.
pub open spec fn only_predefined_entities(s: Seq<char>) -> bool {
    forall|i: int| 0 <= i < s.len() && #[trigger] s[i] == '&' ==> entity_at(s.skip(i)) is Some
}

/// Text with each predefined entity replaced by the character it stands for.
pub open spec fn decode_predefined(s: Seq<char>) -> Seq<char>
    decreases s.len(),
{
    if s.len() == 0 {
        Seq::empty()
    } else if s[0] == '&' && entity_at(s) is Some {
        let (c, n) = entity_at(s)->Some_0;
        seq![c] + decode_predefined(s.skip(n as int))
    } else {
        seq![s[0]] + decode_predefined(s.drop_first())
    }
}

/// How an event is written in a document: `<n>`, `</n>`, `<n/>`, the text as
/// it stands, or `&n;`.
pub open spec fn write_tok(t: Tok) -> Seq<char> {
    match t {
        Tok::Start(n) => "<"@ + n + ">"@,
        Tok::End(n) => "</"@ + n + ">"@,
        Tok::Empty(n) => "<"@ + n + "/>"@,
        Tok::Text(s) => s,
        Tok::Ref(n) => "&"@ + n + ";"@,
        _ => Seq::empty(),
    }
}

/// A document written as a sequence of events, one after the other.
pub open spec fn write_toks(toks: Seq<Tok>) -> Seq<char>
    decreases toks.len(),
{
    if toks.len() == 0 {
        Seq::empty()
    } else {
        write_tok(toks[0]) + write_toks(toks.drop_first())
    }
}

/// A plain element name: ASCII letters only.
pub open spec fn plain_name(n: Seq<char>) -> bool {
    n.len() > 0 && forall|i: int| 0 <= i < n.len() ==> ('a' <= #[trigger] n[i] <= 'z' || 'A' <= n[i] <= 'Z')
}

/// Plain text: not empty, with no `<` and no `&`.
pub open spec fn plain_text(s: Seq<char>) -> bool {
    s.len() > 0 && !s.contains('<') && !s.contains('&')
}

/// The event at `i` is plain: a start, end or empty tag with a plain name, or
/// plain text that stands alone between a start tag and an end tag.
pub open spec fn plain_tok_at(toks: Seq<Tok>, i: int) -> bool {
    match toks[i] {
        Tok::Start(n) => plain_name(n),
        Tok::End(n) => plain_name(n),
        Tok::Empty(n) => plain_name(n),
        Tok::Text(s) => plain_text(s) && 0 < i && toks[i - 1] is Start && i + 1 < toks.len()
            && toks[i + 1] is End,
        _ => false,
    }
}

/// The elements left open after `toks`, starting with `open` open; none when
/// an end tag does not close the innermost open element.
pub open spec fn open_after(toks: Seq<Tok>, open: Seq<Seq<char>>) -> Option<Seq<Seq<char>>>
    decreases toks.len(),
{
    if toks.len() == 0 {
        Some(open)
    } else {
        match toks[0] {
            Tok::Start(n) => open_after(toks.drop_first(), open.push(n)),
            Tok::End(n) => if open.len() > 0 && open.last() == n {
                open_after(toks.drop_first(), open.drop_last())
            } else {
                None
            },
            _ => open_after(toks.drop_first(), open),
        }
    }
}

/// A plain document: it starts with a start tag, every event is plain, and
/// its elements nest, each end tag closing the innermost open element and
/// none left open.
pub open spec fn plain_document(toks: Seq<Tok>) -> bool {
    &&& toks.len() > 0
    &&& toks[0] is Start
    &&& forall|i: int| 0 <= i < toks.len() ==> #[trigger] plain_tok_at(toks, i)
    &&& open_after(toks, Seq::empty()) == Some(Seq::<Seq<char>>::empty())
}

/// A reader over a document (`Reader::from_str`), which keeps text as it
/// stands. Its events end with the first end of input or error; every event
/// before the last one stands for at least one character of the input. A
/// plain document written from events reads back as those events, then the
/// end of input.
#[verifier::external_body]
pub(crate) fn new_reader(xml: &str) -> (r: Reader<&[u8]>)
    ensures
        pending(r) == xml_events(xml@),
        well_formed_stream(pending(r)),
        pending(r).len() <= xml@.len() + 1,
        forall|t: Seq<Tok>| plain_document(t) && #[trigger] write_toks(t) == xml@ ==> pending(r) == t.push(
            Tok::Eof,
        ),
{
    Reader::from_str(xml)
}

/// The next event of a reader (`Reader::read_event_into`): the first pending
/// event. The end of input is yielded again and again; any other event is
/// consumed.
#[verifier::external_body]
pub(crate) fn next_event(reader: &mut Reader<&[u8]>) -> (ev: XmlEvent)
    requires
        pending(*old(reader)).len() > 0,
    ensures
        ev@ == pending(*old(reader))[0],
        ev@ is Eof ==> pending(*final(reader)) == pending(*old(reader)),
        !is_final(ev@) ==> pending(*final(reader)) == pending(*old(reader)).drop_first(),
{
    let mut buf = Vec::new();
    match reader.read_event_into(&mut buf) {
        Ok(Event::Start(e)) => XmlEvent::Start(e.local_name().as_ref().to_string()),
        Ok(Event::End(e)) => XmlEvent::End(e.local_name().as_ref().to_string()),
        Ok(Event::Empty(e)) => XmlEvent::Empty(e.local_name().as_ref().to_string()),
        Ok(Event::Text(e)) => XmlEvent::Text(e.as_ref().to_string()),
        Ok(Event::GeneralRef(e)) => XmlEvent::Ref((*e).to_string()),
        Ok(Event::Eof) => XmlEvent::Eof,
        Ok(_) => XmlEvent::Other,
        Err(e) => XmlEvent::Fail(e.to_string()),
    }
}

/// `quick_xml::escape::unescape`: text without `&` comes back unchanged,
/// and text whose every `&` starts one of the five predefined entities
/// comes back with each of them replaced by its character.
#[verifier::external_body]
pub(crate) fn unescape(raw: &str) -> (r: Option<String>)
    ensures
        xml_unescape(raw@) == opt_view(r),
        !raw@.contains('&') ==> opt_view(r) == Some(raw@),
        only_predefined_entities(raw@) ==> opt_view(r) == Some(decode_predefined(raw@)),
{
    quick_xml::escape::unescape(raw).ok().map(|c| c.into_owned())
}

} // verus!
