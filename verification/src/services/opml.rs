//! OPML 2.0 export and import of subscriptions.

use vstd::prelude::*;
use vstd::string::*;

use crate::models::{OpmlOutline, Subscription};
use crate::stamp::now_rfc3339;
use crate::text::push_char;

verus! {

/// Stateless OPML service.
pub struct OpmlService;

// ── Escaping ────────────────────────────────────────────────────────

/// The escaped form of one character: `&`, `<`, `>`, `"` and `'` become entities.
pub open spec fn escape_char(c: char) -> Seq<char> {
    if c == '&' {
        "&amp;"@
    } else if c == '<' {
        "&lt;"@
    } else if c == '>' {
        "&gt;"@
    } else if c == '"' {
        "&quot;"@
    } else if c == '\'' {
        "&apos;"@
    } else {
        seq![c]
    }
}

/// The escaped form of a text, character by character.
pub open spec fn escaped(s: Seq<char>) -> Seq<char>
    decreases s.len(),
{
    if s.len() == 0 {
        seq![]
    } else {
        escaped(s.drop_last()) + escape_char(s.last())
    }
}

/// Escapes the XML special characters of `s`.
pub fn escape_xml(s: &str) -> (r: String)
    ensures
        r@ == escaped(s@),
{
    let n = s.unicode_len();
    let mut r = String::new();
    let mut i: usize = 0;
    while i < n
        invariant
            n == s@.len(),
            i <= n,
            r@ == escaped(s@.take(i as int)),
        decreases n - i,
    {
        assert(s@.take(i + 1).drop_last() =~= s@.take(i as int));
        let c = s.get_char(i);
        if c == '&' {
            r.append("&amp;");
        } else if c == '<' {
            r.append("&lt;");
        } else if c == '>' {
            r.append("&gt;");
        } else if c == '"' {
            r.append("&quot;");
        } else if c == '\'' {
            r.append("&apos;");
        } else {
            push_char(&mut r, c);
        }
        i += 1;
    }
    assert(s@.take(n as int) =~= s@);
    r
}

// ── Export ──────────────────────────────────────────────────────────

/// The `<outline>` line of one subscription, ending with a newline.
pub open spec fn outline_line(s: Subscription) -> Seq<char> {
    "    <outline text=\""@ + escaped(s.channel_name@) + "\" title=\""@ + escaped(s.channel_name@)
        + "\" type=\"rss\" xmlUrl=\""@ + escaped(s.url@) + "\" description=\""@ + escaped(
        s.platform@,
    ) + "\"/>"@ + "\n"@
}

/// The outline lines of all subscriptions, in order.
pub open spec fn outline_lines(subs: Seq<Subscription>) -> Seq<char>
    decreases subs.len(),
{
    if subs.len() == 0 {
        seq![]
    } else {
        outline_lines(subs.drop_last()) + outline_line(subs.last())
    }
}

/// Everything before the creation date.
pub open spec fn opml_prologue() -> Seq<char> {
    "<?xml version=\"1.0\" encoding=\"UTF-8\"?>\n<opml version=\"2.0\">\n  <head>\n    <title>yt-dlp GUI Subscriptions</title>\n    <dateCreated>"@
}

/// Everything between the creation date and the outlines.
pub open spec fn opml_head_end() -> Seq<char> {
    "</dateCreated>\n  </head>\n  <body>\n"@
}

/// Everything after the outlines.
pub open spec fn opml_epilogue() -> Seq<char> {
    "\n  </body>\n</opml>"@
}

/// The OPML document of `subs` created at `created`.
pub open spec fn opml_document(subs: Seq<Subscription>, created: Seq<char>) -> Seq<char> {
    opml_prologue() + created + opml_head_end() + outline_lines(subs) + opml_epilogue()
}

// ── Import ──────────────────────────────────────────────────────────

/// One event of an XML reader, as far as OPML import cares.
#[derive(Debug, Clone)]
pub enum XmlEvent {
    /// A start tag or an empty-element tag: its qualified name and its (key, value)
    /// attributes in document order, as raw bytes.
    Tag(Vec<u8>, Vec<(Vec<u8>, Vec<u8>)>),
    /// Any other event (text, end tag, comment, declaration, ...).
    Other,
}

/// A reader event as plain values.
pub ghost enum XmlEventView {
    Tag(Seq<u8>, Seq<(Seq<u8>, Seq<u8>)>),
    Other,
}

pub open spec fn event_view(e: XmlEvent) -> XmlEventView {
    match e {
        XmlEvent::Tag(name, attrs) => XmlEventView::Tag(
            name@,
            attrs@.map_values(|a: (Vec<u8>, Vec<u8>)| (a.0@, a.1@)),
        ),
        XmlEvent::Other => XmlEventView::Other,
    }
}

/// The events quick-xml reads from a document, up to its end or its first error.
pub uninterp spec fn xml_events(xml: Seq<char>) -> Seq<XmlEventView>;

/// Reads the events of `xml` with `quick_xml::Reader` (`read_event_into`), turning each
/// start or empty-element tag into its name and well-formed attributes and every other
/// event into `Other`, until the end of input or the first error. The result is named
/// by `xml_events`; quick-xml's tokenizing is not restated.
#[verifier::external_body]
fn read_xml_events(xml: &str) -> (events: Vec<XmlEvent>)
    ensures
        events@.map_values(|e: XmlEvent| event_view(e)) == xml_events(xml@),
{
    let mut reader = quick_xml::Reader::from_str(xml);
    let mut buf = Vec::new();
    let mut events = Vec::new();
    loop {
        events.push(match reader.read_event_into(&mut buf) {
            Ok(quick_xml::events::Event::Start(e) | quick_xml::events::Event::Empty(e)) => XmlEvent::Tag(
                e.name().as_ref().to_vec(),
                e.attributes().flatten().map(|a| (a.key.as_ref().to_vec(), a.value.to_vec())).collect(),
            ),
            Ok(quick_xml::events::Event::Eof) | Err(_) => return events,
            Ok(_) => XmlEvent::Other,
        });
        buf.clear();
    }
}

/// The text `String::from_utf8_lossy` makes of some bytes.
pub uninterp spec fn lossy_text(bytes: Seq<u8>) -> Seq<char>;

/// Decodes bytes as UTF-8 with `String::from_utf8_lossy`, invalid sequences becoming
/// U+FFFD. The result is named by `lossy_text`; for valid UTF-8 it is the decoded
/// text, as the function's documentation states.
#[verifier::external_body]
fn utf8_lossy(bytes: &[u8]) -> (s: String)
    ensures
        s@ == lossy_text(bytes@),
        vstd::utf8::valid_utf8(bytes@) ==> s@ == vstd::utf8::decode_utf8(bytes@),
{
    String::from_utf8_lossy(bytes).into_owned()
}

/// The bytes of an ASCII text.
pub open spec fn ascii(s: Seq<char>) -> Seq<u8> {
    s.map_values(|c: char| c as u8)
}

fn bytes_eq_ascii(b: &Vec<u8>, lit: &str) -> (r: bool)
    ensures
        r == (b@ == ascii(lit@)),
{
    let n = lit.unicode_len();
    if b.len() != n {
        return false;
    }
    let mut i: usize = 0;
    while i < n
        invariant
            n == lit@.len(),
            n == b@.len(),
            i <= n,
            forall|j: int| 0 <= j < i ==> b@[j] == lit@[j] as u8,
        decreases n - i,
    {
        let c = lit.get_char(i);
        #[verifier::truncate]
        let cb = c as u8;
        if b[i] != cb {
            return false;
        }
        i += 1;
    }
    assert(b@ =~= ascii(lit@));
    true
}

/// Title, feed URL and description bytes gathered from an outline's attributes:
/// `title` and `text` set the title, `xmlUrl` the URL, `description` the description;
/// a later attribute overrides an earlier one.
pub open spec fn outline_fields(attrs: Seq<(Seq<u8>, Seq<u8>)>) -> (Seq<u8>, Seq<u8>, Option<Seq<u8>>)
    decreases attrs.len(),
{
    if attrs.len() == 0 {
        (seq![], seq![], None)
    } else {
        let (t, u, d) = outline_fields(attrs.drop_last());
        let (k, v) = attrs.last();
        if k == ascii("title"@) || k == ascii("text"@) {
            (v, u, d)
        } else if k == ascii("xmlUrl"@) {
            (t, v, d)
        } else if k == ascii("description"@) {
            (t, u, Some(v))
        } else {
            (t, u, d)
        }
    }
}

/// The outlines found in a sequence of events: every `outline` tag whose feed URL
/// decodes to a non-empty text, as (title, URL, description) texts, in document order,
/// nested ones included.
pub open spec fn outlines_of(events: Seq<XmlEventView>) -> Seq<(Seq<char>, Seq<char>, Option<Seq<char>>)>
    decreases events.len(),
{
    if events.len() == 0 {
        seq![]
    } else {
        let before = outlines_of(events.drop_last());
        match events.last() {
            XmlEventView::Tag(name, attrs) => {
                let (t, u, d) = outline_fields(attrs);
                if name == ascii("outline"@) && lossy_text(u).len() > 0 {
                    before.push(
                        (
                            lossy_text(t),
                            lossy_text(u),
                            match d {
                                Some(x) => Some(lossy_text(x)),
                                None => None,
                            },
                        ),
                    )
                } else {
                    before
                }
            },
            XmlEventView::Other => before,
        }
    }
}

pub open spec fn outline_view(o: OpmlOutline) -> (Seq<char>, Seq<char>, Option<Seq<char>>) {
    (
        o.title@,
        o.xml_url@,
        match o.description {
            Some(d) => Some(d@),
            None => None,
        },
    )
}

fn copy_bytes(b: &Vec<u8>) -> (r: Vec<u8>)
    ensures
        r@ == b@,
{
    let mut r: Vec<u8> = Vec::new();
    let mut i: usize = 0;
    while i < b.len()
        invariant
            i <= b@.len(),
            r@ == b@.take(i as int),
        decreases b@.len() - i,
    {
        r.push(b[i]);
        i += 1;
    }
    r
}

fn gather_outline_fields(attrs: &Vec<(Vec<u8>, Vec<u8>)>) -> (r: (Vec<u8>, Vec<u8>, Option<Vec<u8>>))
    ensures
        (r.0@, r.1@, match r.2 {
            Some(d) => Some(d@),
            None => None,
        }) == outline_fields(attrs@.map_values(|a: (Vec<u8>, Vec<u8>)| (a.0@, a.1@))),
{
    let ghost view = attrs@.map_values(|a: (Vec<u8>, Vec<u8>)| (a.0@, a.1@));
    let mut title: Vec<u8> = Vec::new();
    let mut url: Vec<u8> = Vec::new();
    let mut description: Option<Vec<u8>> = None;
    let mut i: usize = 0;
    while i < attrs.len()
        invariant
            view == attrs@.map_values(|a: (Vec<u8>, Vec<u8>)| (a.0@, a.1@)),
            i <= attrs@.len(),
            (title@, url@, match description {
                Some(d) => Some(d@),
                None => None,
            }) == outline_fields(view.take(i as int)),
        decreases attrs@.len() - i,
    {
        assert(view.take(i + 1).drop_last() =~= view.take(i as int));
        let (k, v) = &attrs[i];
        if bytes_eq_ascii(k, "title") || bytes_eq_ascii(k, "text") {
            title = copy_bytes(v);
        } else if bytes_eq_ascii(k, "xmlUrl") {
            url = copy_bytes(v);
        } else if bytes_eq_ascii(k, "description") {
            description = Some(copy_bytes(v));
        }
        i += 1;
    }
    assert(view.take(attrs@.len() as int) =~= view);
    (title, url, description)
}

impl OpmlService {
    /// The OPML document of the subscriptions with the given creation time.
    pub fn build_opml_at(subscriptions: &[Subscription], date_created: &str) -> (doc: String)
        ensures
            doc@ == opml_document(subscriptions@, date_created@),
    {
        let mut outlines = String::new();
        let mut i: usize = 0;
        while i < subscriptions.len()
            invariant
                i <= subscriptions@.len(),
                outlines@ == outline_lines(subscriptions@.take(i as int)),
            decreases subscriptions@.len() - i,
        {
            assert(subscriptions@.take(i + 1).drop_last() =~= subscriptions@.take(i as int));
            let sub = &subscriptions[i];
            let name = escape_xml(sub.channel_name.as_str());
            let url = escape_xml(sub.url.as_str());
            let platform = escape_xml(sub.platform.as_str());
            outlines.append("    <outline text=\"");
            outlines.append(name.as_str());
            outlines.append("\" title=\"");
            outlines.append(name.as_str());
            outlines.append("\" type=\"rss\" xmlUrl=\"");
            outlines.append(url.as_str());
            outlines.append("\" description=\"");
            outlines.append(platform.as_str());
            outlines.append("\"/>");
            outlines.append("\n");
            i += 1;
        }
        assert(subscriptions@.take(subscriptions@.len() as int) =~= subscriptions@);
        let mut doc = String::from_str(
            "<?xml version=\"1.0\" encoding=\"UTF-8\"?>\n<opml version=\"2.0\">\n  <head>\n    <title>yt-dlp GUI Subscriptions</title>\n    <dateCreated>",
        );
        doc.append(date_created);
        doc.append("</dateCreated>\n  </head>\n  <body>\n");
        doc.append(outlines.as_str());
        doc.append("\n  </body>\n</opml>");
        doc
    }

    /// The OPML document of the subscriptions, created now.
    pub fn build_opml(subscriptions: &[Subscription]) -> (doc: String)
        ensures
            exists|created: Seq<char>| doc@ == #[trigger] opml_document(subscriptions@, created),
    {
        let created = now_rfc3339();
        let doc = Self::build_opml_at(subscriptions, created.as_str());
        doc
    }

    /// The outlines of a sequence of reader events (see `outlines_of`).
    pub fn outlines_from_events(events: &Vec<XmlEvent>) -> (outlines: Vec<OpmlOutline>)
        ensures
            outlines@.map_values(|o: OpmlOutline| outline_view(o)) == outlines_of(
                events@.map_values(|e: XmlEvent| event_view(e)),
            ),
    {
        let ghost view = events@.map_values(|e: XmlEvent| event_view(e));
        let mut outlines: Vec<OpmlOutline> = Vec::new();
        let mut i: usize = 0;
        while i < events.len()
            invariant
                view == events@.map_values(|e: XmlEvent| event_view(e)),
                i <= events@.len(),
                outlines@.map_values(|o: OpmlOutline| outline_view(o)) == outlines_of(
                    view.take(i as int),
                ),
            decreases events@.len() - i,
        {
            assert(view.take(i + 1).drop_last() =~= view.take(i as int));
            let ghost before = outlines@;
            match &events[i] {
                XmlEvent::Tag(name, attrs) => {
                    let (t, u, d) = gather_outline_fields(attrs);
                    let xml_url = utf8_lossy(u.as_slice());
                    if bytes_eq_ascii(name, "outline") && xml_url.unicode_len() > 0 {
                        let title = utf8_lossy(t.as_slice());
                        let description = match &d {
                            Some(x) => Some(utf8_lossy(x.as_slice())),
                            None => None,
                        };
                        outlines.push(OpmlOutline { title, xml_url, description });
                        assert(outlines@.map_values(|o: OpmlOutline| outline_view(o)) =~= before.map_values(
                            |o: OpmlOutline| outline_view(o),
                        ).push(outline_view(outlines@.last())));
                    }
                },
                XmlEvent::Other => {},
            }
            i += 1;
        }
        assert(view.take(events@.len() as int) =~= view);
        outlines
    }

    /// The outlines of an OPML document: every `outline` element with a non-empty
    /// `xmlUrl`, in document order. Reading stops at the first malformed spot.
    pub fn parse_opml(xml: &str) -> (outlines: Vec<OpmlOutline>)
        ensures
            outlines@.map_values(|o: OpmlOutline| outline_view(o)) == outlines_of(xml_events(xml@)),
    {
        let events = read_xml_events(xml);
        Self::outlines_from_events(&events)
    }
}

} // verus!
