//! Turns a line of a comment into HTML: the links in it become anchors and
//! everything is escaped. Finding the links is the work of the `linkify`
//! crate.

use vstd::prelude::*;
use vstd::string::StringExecFns;
use linkify::{LinkFinder, LinkKind};
use super::text::{chars_of, find_char};

verus! {

/// What a stretch of text is.
#[derive(Clone, Copy, Debug, PartialEq, Eq, Structural)]
pub enum SpanKind {
    /// The address of a page.
    Url,
    /// An email address.
    Email,
    /// Anything else.
    Plain,
}

/// A stretch of a text.
pub struct TextSpan {
    pub kind: SpanKind,
    pub text: String,
}

/// A stretch of a text, in specifications.
pub ghost struct TextSpanView {
    pub kind: SpanKind,
    pub text: Seq<char>,
}

impl View for TextSpan {
    type V = TextSpanView;

    open spec fn view(&self) -> TextSpanView {
        TextSpanView { kind: self.kind, text: self.text@ }
    }
}

/// The views of a sequence of spans.
pub open spec fn span_views(spans: Seq<TextSpan>) -> Seq<TextSpanView> {
    Seq::new(spans.len(), |i: int| spans[i]@)
}

/// The stretches that `LinkFinder::spans` cuts `text` into, in order, for a
/// finder that looks for email addresses and for the addresses of pages,
/// with a scheme only or without one too.
pub uninterp spec fn link_spans(text: Seq<char>, url_must_have_scheme: bool) -> Seq<
    TextSpanView,
>;

/// Cuts `text` into links and plain stretches with `LinkFinder::new`,
/// `url_must_have_scheme` and `spans`. The stretches are claimed to depend
/// on the text and the setting alone; nothing is claimed of where they are
/// cut.
#[verifier::external_body]
fn find_spans(text: &str, url_must_have_scheme: bool) -> (spans: Vec<TextSpan>)
    ensures
        span_views(spans@) == link_spans(text@, url_must_have_scheme),
{
    let mut link_finder = LinkFinder::new();
    link_finder.url_must_have_scheme(url_must_have_scheme);
    link_finder.spans(text).map(|span| TextSpan {
        kind: match span.kind() {
            Some(LinkKind::Url) => SpanKind::Url,
            Some(LinkKind::Email) => SpanKind::Email,
            _ => SpanKind::Plain,
        },
        text: span.as_str().to_string(),
    }).collect()
}

/// What a character becomes when it is escaped: the five characters that
/// mean something in HTML become entities, every other stays.
pub open spec fn escaped_char(c: char) -> Seq<char> {
    if c == '&' {
        "&amp;"@
    } else if c == '<' {
        "&lt;"@
    } else if c == '>' {
        "&gt;"@
    } else if c == '"' {
        "&quot;"@
    } else if c == '\'' {
        "&#39;"@
    } else {
        seq![c]
    }
}

/// A text with each character escaped.
pub open spec fn escaped(text: Seq<char>) -> Seq<char>
    decreases text.len(),
{
    if text.len() == 0 {
        Seq::empty()
    } else {
        escaped(text.drop_last()) + escaped_char(text.last())
    }
}

/// The address that an anchor points to: the address found, with `https://`
/// put before one that names no scheme.
pub open spec fn link_target(url: Seq<char>) -> Seq<char> {
    if url.contains(':') {
        url
    } else {
        "https://"@ + url
    }
}

/// The HTML of one stretch.
pub open spec fn rendered_span(span: TextSpanView) -> Seq<char> {
    match span.kind {
        SpanKind::Url => "<a href=\""@ + escaped(link_target(span.text)) + "\">"@ + escaped(
            span.text,
        ) + "</a>"@,
        SpanKind::Email => "<a href=\"mailto:"@ + escaped(span.text) + "\">"@ + escaped(
            span.text,
        ) + "</a>"@,
        SpanKind::Plain => escaped(span.text),
    }
}

/// The HTML of a sequence of stretches, one after the other.
pub open spec fn rendered(spans: Seq<TextSpanView>) -> Seq<char>
    decreases spans.len(),
{
    if spans.len() == 0 {
        Seq::empty()
    } else {
        rendered(spans.drop_last()) + rendered_span(spans.last())
    }
}

/// Whether `c` is one of the characters that open or close a tag or an
/// attribute value in HTML.
pub open spec fn is_markup(c: char) -> bool {
    c == '<' || c == '>' || c == '"' || c == '\''
}

/// An escaped text holds no character that opens or closes a tag or an
/// attribute value.
pub proof fn lemma_escaped_holds_no_markup(text: Seq<char>)
    ensures
        forall|i: int| 0 <= i < escaped(text).len() ==> !is_markup(#[trigger] escaped(text)[i]),
    decreases text.len(),
{
    if text.len() > 0 {
        lemma_escaped_holds_no_markup(text.drop_last());
        reveal_strlit("&amp;");
        reveal_strlit("&lt;");
        reveal_strlit("&gt;");
        reveal_strlit("&quot;");
        reveal_strlit("&#39;");
        let head = escaped(text.drop_last());
        let tail = escaped_char(text.last());
        assert forall|i: int| 0 <= i < escaped(text).len() implies !is_markup(
            #[trigger] escaped(text)[i],
        ) by {
            if i >= head.len() {
                assert(escaped(text)[i] == tail[i - head.len()]);
            } else {
                assert(escaped(text)[i] == head[i]);
            }
        }
    }
}

/// Escaping a text made of two parts escapes each part.
pub proof fn lemma_escaped_of_joined(a: Seq<char>, b: Seq<char>)
    ensures
        escaped(a + b) == escaped(a) + escaped(b),
    decreases b.len(),
{
    if b.len() == 0 {
        assert(a + b =~= a);
        assert(escaped(a) + escaped(b) =~= escaped(a));
    } else {
        lemma_escaped_of_joined(a, b.drop_last());
        assert((a + b).drop_last() =~= a + b.drop_last());
        assert((a + b).last() == b.last());
        assert(escaped(a + b) =~= escaped(a) + escaped(b));
    }
}

/// Writes `text` to the end of `output`, escaped.
pub fn escape(text: &str, output: &mut String)
    ensures
        final(output)@ == old(output)@ + escaped(text@),
{
    let chars = chars_of(text);
    let mut i: usize = 0;
    assert(chars@.take(0) =~= Seq::<char>::empty());
    assert(output@ =~= old(output)@ + escaped(chars@.take(0)));
    while i < chars.len()
        invariant
            0 <= i <= chars@.len(),
            output@ == old(output)@ + escaped(chars@.take(i as int)),
        decreases chars@.len() - i,
    {
        let character = chars[i];
        let ghost before = output@;
        if character == '&' {
            output.append("&amp;");
        } else if character == '<' {
            output.append("&lt;");
        } else if character == '>' {
            output.append("&gt;");
        } else if character == '"' {
            output.append("&quot;");
        } else if character == '\'' {
            output.append("&#39;");
        } else {
            output.push(character);
        }
        proof {
            let t = chars@.take(i as int + 1);
            assert(t.drop_last() =~= chars@.take(i as int));
            assert(t.last() == character);
            assert(output@ =~= before + escaped_char(character));
            assert(output@ =~= old(output)@ + escaped(t));
        }
        i = i + 1;
    }
    assert(chars@.take(i as int) =~= chars@);
}

/// Writes the HTML of one stretch to the end of `output`.
fn render_span(span: &TextSpan, output: &mut String)
    ensures
        final(output)@ == old(output)@ + rendered_span(span@),
{
    match span.kind {
        SpanKind::Url => {
            let chars = chars_of(span.text.as_str());
            let colon = find_char(chars.as_slice(), ':', 0);
            let mut url = String::new();
            if colon >= chars.len() {
                url.append("https://");
            }
            url.append(span.text.as_str());
            proof {
                if colon < chars.len() {
                    assert(chars@.contains(':'));
                } else if chars@.contains(':') {
                    let i = choose|i: int| 0 <= i < chars@.len() && chars@[i] == ':';
                    assert(false);
                }
                assert(url@ =~= link_target(span.text@));
            }
            output.append("<a href=\"");
            escape(url.as_str(), output);
            output.append("\">");
            escape(span.text.as_str(), output);
            output.append("</a>");
            assert(output@ =~= old(output)@ + rendered_span(span@));
        },
        SpanKind::Email => {
            output.append("<a href=\"mailto:");
            escape(span.text.as_str(), output);
            output.append("\">");
            escape(span.text.as_str(), output);
            output.append("</a>");
            assert(output@ =~= old(output)@ + rendered_span(span@));
        },
        SpanKind::Plain => {
            escape(span.text.as_str(), output);
        },
    }
}

/// The HTML of a sequence of stretches.
pub fn render_spans(spans: &Vec<TextSpan>) -> (html: String)
    ensures
        html@ == rendered(span_views(spans@)),
{
    let mut html = String::new();
    let mut i: usize = 0;
    let ghost views = span_views(spans@);
    assert(views.take(0) =~= Seq::<TextSpanView>::empty());
    while i < spans.len()
        invariant
            0 <= i <= spans@.len(),
            views == span_views(spans@),
            html@ == rendered(views.take(i as int)),
        decreases spans@.len() - i,
    {
        render_span(&spans[i], &mut html);
        proof {
            let t = views.take(i as int + 1);
            assert(t.drop_last() =~= views.take(i as int));
            assert(t.last() == spans@[i as int]@);
        }
        i = i + 1;
    }
    assert(views.take(i as int) =~= views);
    html
}

/// Turns a line of text into HTML, with an anchor for each link that the
/// line holds. Only addresses that name their scheme are taken for links.
pub fn linkify(text: &str) -> (html: String)
    ensures
        html@ == rendered(link_spans(text@, true)),
{
    let spans = find_spans(text, true);
    render_spans(&spans)
}

} // verus!
