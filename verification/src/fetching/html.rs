//! Parsed HTML pages and CSS selections in them, read through `scraper`.
//!
//! An element is identified by the text of its page and by the selections that led
//! to it from the page: a path of (selector, position) steps, the first taken in the
//! whole page and each further one among the descendants of the element reached so
//! far. What `scraper` returns for an element is a function of that page text and
//! path; the functions below give those results names. An `Element` is only made
//! here, from the selection results of the page or element it was selected from, so
//! its recorded page text and path always lead to it.

use vstd::prelude::*;

verus! {

#[verifier::external_type_specification]
#[verifier::external_body]
pub struct ExHtml(scraper::Html);

#[verifier::external_type_specification]
#[verifier::external_body]
pub struct ExSelector(scraper::Selector);

#[verifier::external_type_specification]
#[verifier::external_body]
pub struct ExElementRef<'a>(scraper::ElementRef<'a>);

/// A path of selections: (selector text, position among the matches).
pub type Path = Seq<(Seq<char>, nat)>;

/// Whether `scraper::Selector::parse` accepts the selector group `s`.
pub uninterp spec fn selector_parses(s: Seq<char>) -> bool;

/// How many elements `scraper::Html::select` yields for selector `selector` in the
/// document parsed from `html`.
pub uninterp spec fn document_match_count(html: Seq<char>, selector: Seq<char>) -> nat;

/// How many descendants `scraper::ElementRef::select` yields for selector `selector`
/// from the element at `path` of the document parsed from `html`.
pub uninterp spec fn element_match_count(html: Seq<char>, path: Path, selector: Seq<char>) -> nat;

/// `scraper::ElementRef::inner_html` of the element at `path` of the document `html`.
pub uninterp spec fn inner_html_at(html: Seq<char>, path: Path) -> Seq<char>;

/// `scraper::ElementRef::attr(name)` of the element at `path` of the document `html`.
pub uninterp spec fn attr_at(html: Seq<char>, path: Path, name: Seq<char>) -> Option<Seq<char>>;

/// The first descendant text node that `scraper::ElementRef::text` yields for the
/// element at `path` of the document `html`.
pub uninterp spec fn first_text_at(html: Seq<char>, path: Path) -> Option<Seq<char>>;

/// `scraper::Html::parse_document`; the document is named by its text, so nothing
/// is stated of the result.
#[verifier::external_body]
fn html_parse_document(text: &str) -> scraper::Html {
    scraper::Html::parse_document(text)
}

/// `scraper::Selector::parse`: succeeds exactly for the selector groups it accepts.
#[verifier::external_body]
fn selector_parse(s: &str) -> (r: Option<scraper::Selector>)
    ensures
        r is Some <==> selector_parses(s@),
{
    match scraper::Selector::parse(s) {
        Ok(sel) => Some(sel),
        Err(_) => None,
    }
}

/// `scraper::Html::select`: the elements of the document matching the selector, in
/// document order; their number is named.
#[verifier::external_body]
fn html_select<'a>(doc: &'a Document, sel: &Sel) -> (r: Vec<scraper::ElementRef<'a>>)
    ensures
        r@.len() == document_match_count(doc@, sel@),
{
    doc.html.select(&sel.inner).collect()
}

/// `scraper::ElementRef::select`: the descendants of the element matching the
/// selector, in document order; their number is named.
#[verifier::external_body]
fn element_select<'a>(e: &Element<'a>, sel: &Sel) -> (r: Vec<scraper::ElementRef<'a>>)
    ensures
        r@.len() == element_match_count(e@.0, e@.1, sel@),
{
    e.inner.select(&sel.inner).collect()
}

/// `scraper::ElementRef::inner_html`.
#[verifier::external_body]
fn element_inner_html(e: &Element) -> (r: String)
    ensures
        r@ == inner_html_at(e@.0, e@.1),
{
    e.inner.inner_html()
}

/// `scraper::ElementRef::attr`.
#[verifier::external_body]
fn element_attr(e: &Element, name: &str) -> (r: Option<String>)
    ensures
        match attr_at(e@.0, e@.1, name@) {
            Some(v) => r matches Some(s) && s@ == v,
            None => r is None,
        },
{
    match e.inner.attr(name) {
        Some(v) => Some(v.to_string()),
        None => None,
    }
}

/// The first item of `scraper::ElementRef::text`.
#[verifier::external_body]
fn element_first_text(e: &Element) -> (r: Option<String>)
    ensures
        match first_text_at(e@.0, e@.1) {
            Some(v) => r matches Some(s) && s@ == v,
            None => r is None,
        },
{
    match e.inner.text().next() {
        Some(t) => Some(t.to_string()),
        None => None,
    }
}

/// A parsed page, with the text it was parsed from.
pub struct Document {
    html: scraper::Html,
    source: Ghost<Seq<char>>,
}

impl View for Document {
    type V = Seq<char>;

    closed spec fn view(&self) -> Seq<char> {
        self.source@
    }
}

/// A compiled CSS selector, with its text.
pub struct Sel {
    inner: scraper::Selector,
    source: Ghost<Seq<char>>,
}

impl View for Sel {
    type V = Seq<char>;

    closed spec fn view(&self) -> Seq<char> {
        self.source@
    }
}

/// An element of a page: the page's text and the path of selections that led to it.
pub struct Element<'a> {
    inner: scraper::ElementRef<'a>,
    html: Ghost<Seq<char>>,
    path: Ghost<Path>,
}

impl<'a> View for Element<'a> {
    type V = (Seq<char>, Path);

    closed spec fn view(&self) -> (Seq<char>, Path) {
        (self.html@, self.path@)
    }
}

/// Compiles the CSS selector `s`; `None` if it is not a valid selector.
pub fn selector(s: &str) -> (r: Option<Sel>)
    ensures
        r is Some <==> selector_parses(s@),
        r matches Some(sel) ==> sel@ == s@,
{
    match selector_parse(s) {
        Some(inner) => Some(Sel { inner, source: Ghost(s@) }),
        None => None,
    }
}

impl Document {
    /// Parses the page `text`.
    pub fn parse(text: &str) -> (d: Document)
        ensures
            d@ == text@,
    {
        Document { html: html_parse_document(text), source: Ghost(text@) }
    }

    /// The elements of the page matching `sel`, in document order.
    pub fn select<'a>(&'a self, sel: &Sel) -> (r: Vec<Element<'a>>)
        ensures
            r@.len() == document_match_count(self@, sel@),
            forall|i: int| 0 <= i < r@.len() ==> #[trigger] r@[i]@ == (self@, seq![(sel@, i as nat)]),
    {
        let found = html_select(self, sel);
        let mut r: Vec<Element<'a>> = Vec::new();
        let mut i: usize = 0;
        while i < found.len()
            invariant
                i <= found@.len(),
                r@.len() == i,
                forall|k: int| 0 <= k < i ==> #[trigger] r@[k]@ == (self@, seq![(sel@, k as nat)]),
            decreases found@.len() - i,
        {
            r.push(Element { inner: found[i], html: Ghost(self@), path: Ghost(Seq::<(Seq<char>, nat)>::empty().push((sel@, i as nat))) });
            i = i + 1;
        }
        r
    }

    /// The first element of the page matching `sel`.
    pub fn select_first<'a>(&'a self, sel: &Sel) -> (r: Option<Element<'a>>)
        ensures
            r is Some <==> document_match_count(self@, sel@) > 0,
            r matches Some(e) ==> e@ == (self@, seq![(sel@, 0nat)]),
    {
        let found = html_select(self, sel);
        if found.len() > 0 {
            Some(Element { inner: found[0], html: Ghost(self@), path: Ghost(Seq::<(Seq<char>, nat)>::empty().push((sel@, 0nat))) })
        } else {
            None
        }
    }
}

impl<'a> Element<'a> {
    /// The descendants of the element matching `sel`, in document order.
    pub fn select(&self, sel: &Sel) -> (r: Vec<Element<'a>>)
        ensures
            r@.len() == element_match_count(self@.0, self@.1, sel@),
            forall|i: int| 0 <= i < r@.len() ==> #[trigger] r@[i]@ == (self@.0, self@.1.push((sel@, i as nat))),
    {
        let found = element_select(self, sel);
        let mut r: Vec<Element<'a>> = Vec::new();
        let mut i: usize = 0;
        while i < found.len()
            invariant
                i <= found@.len(),
                r@.len() == i,
                forall|k: int| 0 <= k < i ==> #[trigger] r@[k]@ == (self@.0, self@.1.push((sel@, k as nat))),
            decreases found@.len() - i,
        {
            r.push(Element { inner: found[i], html: self.html, path: Ghost(self.path@.push((sel@, i as nat))) });
            i = i + 1;
        }
        r
    }

    /// The first descendant of the element matching `sel`.
    pub fn child(&self, sel: &Sel) -> (r: Option<Element<'a>>)
        ensures
            r is Some <==> element_match_count(self@.0, self@.1, sel@) > 0,
            r matches Some(e) ==> e@ == (self@.0, self@.1.push((sel@, 0nat))),
    {
        let found = element_select(self, sel);
        if found.len() > 0 {
            Some(Element { inner: found[0], html: self.html, path: Ghost(self.path@.push((sel@, 0nat))) })
        } else {
            None
        }
    }

    /// The HTML inside the element.
    pub fn inner_html(&self) -> (r: String)
        ensures
            r@ == inner_html_at(self@.0, self@.1),
    {
        element_inner_html(self)
    }

    /// The value of the element's attribute `name`.
    pub fn attr(&self, name: &str) -> (r: Option<String>)
        ensures
            match attr_at(self@.0, self@.1, name@) {
                Some(v) => r matches Some(s) && s@ == v,
                None => r is None,
            },
    {
        element_attr(self, name)
    }

    /// The first text inside the element.
    pub fn first_text(&self) -> (r: Option<String>)
        ensures
            match first_text_at(self@.0, self@.1) {
                Some(v) => r matches Some(s) && s@ == v,
                None => r is None,
            },
    {
        element_first_text(self)
    }
}

} // verus!
