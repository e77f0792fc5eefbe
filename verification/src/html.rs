//! HTML documents offered to extension scripts: parsing, CSS selection and
//! the parts of each selected element that scripts read.

use vstd::prelude::*;
use crate::search_params::{first_value, pair_views};
use crate::text::{clone_pairs, push_str, str_eq};

verus! {

/// What a script reads from one selected element.
#[derive(Debug, Clone)]
pub struct ElementData {
    /// All text inside the element.
    pub text: String,
    pub inner_html: String,
    pub outer_html: String,
    /// Attribute name/value pairs.
    pub attrs: Vec<(String, String)>,
}

/// The text of an element's parts.
pub open spec fn element_view(e: ElementData) -> (Seq<char>, Seq<char>, Seq<char>, Seq<(Seq<char>, Seq<char>)>) {
    (e.text@, e.inner_html@, e.outer_html@, pair_views(e.attrs@))
}

/// The text of a list of elements.
pub open spec fn elements_view(es: Seq<ElementData>) -> Seq<(Seq<char>, Seq<char>, Seq<char>, Seq<(Seq<char>, Seq<char>)>)> {
    Seq::new(es.len(), |i: int| element_view(es[i]))
}

/// Whether a text is a valid CSS selector (`scraper::Selector::parse`).
pub uninterp spec fn selector_valid(selector: Seq<char>) -> bool;

/// The serialized document a body parses to
/// (`scraper::Html::parse_document(..).html()`).
pub uninterp spec fn document_html(body: Seq<char>) -> Seq<char>;

/// All text of the document a body parses to (its root element's text).
pub uninterp spec fn document_text(body: Seq<char>) -> Seq<char>;

/// Elements of the document a body parses to that a selector matches, in
/// document order.
pub uninterp spec fn document_selection(body: Seq<char>, selector: Seq<char>) -> Seq<(Seq<char>, Seq<char>, Seq<char>, Seq<(Seq<char>, Seq<char>)>)>;

/// Elements of the fragment an HTML text parses to that a selector
/// matches, in document order.
pub uninterp spec fn fragment_selection(html: Seq<char>, selector: Seq<char>) -> Seq<(Seq<char>, Seq<char>, Seq<char>, Seq<(Seq<char>, Seq<char>)>)>;

/// Calls `scraper::Html::parse_document`, then `Html::html` and the root
/// element's text. Claimed: both depend on the body alone.
#[verifier::external_body]
fn parse_document(body: &str) -> (r: (String, String))
    ensures
        r.0@ == document_html(body@),
        r.1@ == document_text(body@),
{
    let doc = scraper::Html::parse_document(body);
    let text = doc.root_element().text().collect::<String>();
    (doc.html(), text)
}

/// Calls `scraper::Selector::parse`, `Html::parse_document` (or
/// `Html::parse_fragment`) and `Html::select`, reading each match's text,
/// inner and outer HTML and attributes. Claimed: `Ok` exactly for a valid
/// selector, and the elements depend on the HTML text, the selector and
/// the parse mode alone. On failure, the error's text.
#[verifier::external_body]
fn select_in(html: &str, selector: &str, fragment: bool) -> (r: Result<Vec<ElementData>, String>)
    ensures
        r is Ok <==> selector_valid(selector@),
        r matches Ok(es) ==> (fragment ==> elements_view(es@) == fragment_selection(html@, selector@)),
        r matches Ok(es) ==> (!fragment ==> elements_view(es@) == document_selection(html@, selector@)),
{
    let sel = match scraper::Selector::parse(selector) {
        Ok(sel) => sel,
        Err(e) => return Err(e.to_string()),
    };
    let doc = if fragment { scraper::Html::parse_fragment(html) } else { scraper::Html::parse_document(html) };
    let mut out = Vec::new();
    for e in doc.select(&sel) {
        let mut attrs = Vec::new();
        for (k, v) in e.value().attrs() {
            attrs.push((k.to_string(), v.to_string()));
        }
        let text = e.text().collect::<String>();
        out.push(ElementData { text, inner_html: e.inner_html(), outer_html: e.html(), attrs });
    }
    Ok(out)
}

/// A parsed HTML document (`parseHtml(body)`).
#[derive(Debug, Clone)]
pub struct JsDocument {
    /// The body the document was parsed from.
    pub source: String,
    /// The document serialized back to HTML.
    pub raw_html: String,
    /// All text of the document.
    pub text_content: String,
}

/// Message of a document selection with an invalid selector.
pub open spec fn document_selector_error(selector: Seq<char>, detail: Seq<char>) -> Seq<char> {
    "invalid CSS selector '"@ + selector + "': "@ + detail
}

/// Message of an element selection with an invalid selector.
pub open spec fn element_selector_error(detail: Seq<char>) -> Seq<char> {
    "invalid CSS selector: "@ + detail
}

impl JsDocument {
    /// `parseHtml(body)`.
    pub fn parse(body: &str) -> (d: Self)
        ensures
            d.source@ == body@,
            d.raw_html@ == document_html(body@),
            d.text_content@ == document_text(body@),
    {
        let (raw_html, text_content) = parse_document(body);
        JsDocument { source: body.to_owned(), raw_html, text_content }
    }

    /// `document.select(css)`: every matching element, in document order.
    pub fn select(&self, selector: &str) -> (r: Result<Vec<ElementData>, String>)
        ensures
            selector_valid(selector@) ==> (r matches Ok(es) && elements_view(es@) == document_selection(
                self.source@,
                selector@,
            )),
            !selector_valid(selector@) ==> (r matches Err(m) && exists|d: Seq<char>|
                m@ == document_selector_error(selector@, d)),
    {
        match select_in(self.source.as_str(), selector, false) {
            Ok(es) => Ok(es),
            Err(e) => {
                let mut m = String::new();
                push_str(&mut m, "invalid CSS selector '");
                push_str(&mut m, selector);
                push_str(&mut m, "': ");
                push_str(&mut m, e.as_str());
                assert(m@ == document_selector_error(selector@, e@));
                Err(m)
            },
        }
    }

    /// `document.selectOne(css)`: the first matching element, if any.
    pub fn select_one(&self, selector: &str) -> (r: Result<Option<ElementData>, String>)
        ensures
            selector_valid(selector@) ==> (r matches Ok(o) && (if document_selection(self.source@, selector@).len() > 0 {
                o matches Some(e) && element_view(e) == document_selection(self.source@, selector@)[0]
            } else {
                o is None
            })),
            !selector_valid(selector@) ==> (r matches Err(m) && exists|d: Seq<char>|
                m@ == document_selector_error(selector@, d)),
    {
        match self.select(selector) {
            Ok(es) => {
                if es.len() > 0 {
                    let e = es[0].clone_element();
                    assert(element_view(es@[0]) == elements_view(es@)[0]);
                    Ok(Some(e))
                } else {
                    Ok(None)
                }
            },
            Err(m) => Err(m),
        }
    }

    /// `document.text()`: all text of the document.
    pub fn text(&self) -> (r: String)
        ensures
            r@ == self.text_content@,
    {
        self.text_content.clone()
    }

    /// `document.html()`: the document serialized back to HTML.
    pub fn html(&self) -> (r: String)
        ensures
            r@ == self.raw_html@,
    {
        self.raw_html.clone()
    }
}

impl ElementData {
    /// A copy with the same text.
    pub fn clone_element(&self) -> (r: Self)
        ensures
            element_view(r) == element_view(*self),
    {
        ElementData {
            text: self.text.clone(),
            inner_html: self.inner_html.clone(),
            outer_html: self.outer_html.clone(),
            attrs: clone_pairs(&self.attrs),
        }
    }

    /// `element.text()`.
    pub fn text(&self) -> (r: String)
        ensures
            r@ == self.text@,
    {
        self.text.clone()
    }

    /// `element.html()`: the inner HTML.
    pub fn html(&self) -> (r: String)
        ensures
            r@ == self.inner_html@,
    {
        self.inner_html.clone()
    }

    /// `element.outerHtml()`.
    pub fn outer_html(&self) -> (r: String)
        ensures
            r@ == self.outer_html@,
    {
        self.outer_html.clone()
    }

    /// `element.attr(name)`: the attribute's value, if present.
    pub fn attr(&self, name: &str) -> (r: Option<String>)
        ensures
            match r {
                Some(v) => first_value(pair_views(self.attrs@), name@) == Some(v@),
                None => first_value(pair_views(self.attrs@), name@) is None,
            },
    {
        let ghost ps = pair_views(self.attrs@);
        let mut i: usize = 0;
        assert(ps.skip(0) =~= ps);
        while i < self.attrs.len()
            invariant
                ps == pair_views(self.attrs@),
                i <= self.attrs.len(),
                first_value(ps, name@) == first_value(ps.skip(i as int), name@),
            decreases self.attrs.len() - i,
        {
            assert(ps.skip(i as int).drop_first() =~= ps.skip(i + 1));
            if str_eq(self.attrs[i].0.as_str(), name) {
                return Some(self.attrs[i].1.clone());
            }
            i = i + 1;
        }
        None
    }

    /// `element.select(css)`: matching elements inside this element.
    pub fn select(&self, selector: &str) -> (r: Result<Vec<ElementData>, String>)
        ensures
            selector_valid(selector@) ==> (r matches Ok(es) && elements_view(es@) == fragment_selection(
                self.inner_html@,
                selector@,
            )),
            !selector_valid(selector@) ==> (r matches Err(m) && exists|d: Seq<char>|
                m@ == element_selector_error(d)),
    {
        match select_in(self.inner_html.as_str(), selector, true) {
            Ok(es) => Ok(es),
            Err(e) => {
                let mut m = String::new();
                push_str(&mut m, "invalid CSS selector: ");
                push_str(&mut m, e.as_str());
                assert(m@ == element_selector_error(e@));
                Err(m)
            },
        }
    }

    /// `element.selectOne(css)`: the first matching element inside this
    /// element, if any.
    pub fn select_one(&self, selector: &str) -> (r: Result<Option<ElementData>, String>)
        ensures
            selector_valid(selector@) ==> (r matches Ok(o) && (if fragment_selection(self.inner_html@, selector@).len() > 0 {
                o matches Some(e) && element_view(e) == fragment_selection(self.inner_html@, selector@)[0]
            } else {
                o is None
            })),
            !selector_valid(selector@) ==> (r matches Err(m) && exists|d: Seq<char>|
                m@ == element_selector_error(d)),
    {
        match self.select(selector) {
            Ok(es) => {
                if es.len() > 0 {
                    let e = es[0].clone_element();
                    assert(element_view(es@[0]) == elements_view(es@)[0]);
                    Ok(Some(e))
                } else {
                    Ok(None)
                }
            },
            Err(m) => Err(m),
        }
    }
}

} // verus!
