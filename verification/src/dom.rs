//! The boundary to the `scraper` crate: parsed documents, compiled selectors
//! and element handles.
//!
//! Nothing in this file is proved. Parsing HTML and matching CSS selectors are
//! left to `scraper`; what its functions return is given a name here, and the
//! page rules in the other modules are stated and proved over those names.
//! Every name stands for a result that is determined by the arguments alone: a
//! document depends only on the text it was parsed from, a selector only on its
//! source text, and a match only on the document's tree and the selector.

use vstd::prelude::*;

verus! {

/// `scraper::Html`: a parsed document. Opaque to the verifier.
#[verifier::external_type_specification]
#[verifier::external_body]
pub struct ExHtml(scraper::Html);

/// `scraper::Selector`: a compiled CSS selector group. Opaque to the verifier.
#[verifier::external_type_specification]
#[verifier::external_body]
pub struct ExSelector(scraper::Selector);

/// `scraper::ElementRef`: a handle on one element of a document's tree. Opaque
/// to the verifier.
#[verifier::external_type_specification]
#[verifier::external_body]
pub struct ExElementRef<'a>(scraper::ElementRef<'a>);

/// `scraper::error::SelectorErrorKind`: why a selector was refused. Opaque to
/// the verifier; the page rules only record that compilation failed.
#[verifier::external_type_specification]
#[verifier::external_body]
pub struct ExSelectorErrorKind(scraper::error::SelectorErrorKind);

/// The first child of an element, as far as the page rules look at it.
pub enum Child<'a> {
    /// The element has no children.
    Nothing,
    /// The first child is an element.
    Element(scraper::ElementRef<'a>),
    /// The first child is a text node with this content.
    Text(String),
    /// The first child is a comment or another kind of node.
    Other,
}

/// The document that `scraper::Html::parse_document` builds from `text`.
pub uninterp spec fn parsed_document(text: Seq<char>) -> scraper::Html;

/// The selector that `scraper::Selector::parse` compiles from `text`, or
/// `None` where it refuses `text`.
pub uninterp spec fn parsed_selector(text: Seq<char>) -> Option<scraper::Selector>;

/// The first element that `scraper::Html::select` yields for `selector` in
/// `doc`, or `None` where it yields nothing.
pub uninterp spec fn first_match(doc: scraper::Html, selector: scraper::Selector) -> Option<
    scraper::ElementRef<'static>,
>;

/// The descendants of `scope` that `scraper::ElementRef::select` yields for
/// `selector`, in the order in which it yields them.
pub uninterp spec fn matches_within(
    scope: scraper::ElementRef<'_>,
    selector: scraper::Selector,
) -> Seq<scraper::ElementRef<'_>>;

/// The value that `scraper::ElementRef::attr` reports for the attribute `name`
/// of `element`, or `None` where the element has no such attribute.
pub uninterp spec fn attribute(element: scraper::ElementRef<'_>, name: Seq<char>) -> Option<
    Seq<char>,
>;

/// The first of the child nodes of `element`, as `ego_tree`'s `children`
/// iterator yields it.
pub uninterp spec fn first_child_of(element: scraper::ElementRef<'_>) -> Child<'_>;

/// The markup that `scraper::ElementRef::inner_html` serialises for the
/// content of `element`.
pub uninterp spec fn inner_markup(element: scraper::ElementRef<'_>) -> Seq<char>;

/// `scraper::Html::parse_document`. Parsing never fails: malformed markup is
/// repaired as HTML5 prescribes. The contract only names the resulting
/// document.
pub assume_specification[ scraper::Html::parse_document ](document: &str) -> (doc: scraper::Html)
    ensures
        doc == parsed_document(document@),
;

/// `scraper::Selector::parse`. The contract names the compiled selector and
/// says that an error comes exactly where the name is `None`; which texts are
/// accepted is left to the CSS grammar that `scraper` implements.
pub assume_specification[ scraper::Selector::parse ](selectors: &str) -> (compiled: Result<
    scraper::Selector,
    scraper::error::SelectorErrorKind,
>)
    ensures
        match compiled {
            Ok(selector) => parsed_selector(selectors@) == Some(selector),
            Err(_) => parsed_selector(selectors@) is None,
        },
;

/// `scraper::ElementRef::attr`. The contract names the attribute's value and
/// says that `None` comes exactly where the element lacks the attribute.
pub assume_specification<'a>[ scraper::ElementRef::<'a>::attr ](
    element: &scraper::ElementRef<'a>,
    attr: &str,
) -> (value: Option<&'a str>)
    ensures
        match value {
            Some(text) => attribute(*element, attr@) == Some(text@),
            None => attribute(*element, attr@) is None,
        },
;

/// `scraper::ElementRef::inner_html`. The contract only names the serialised
/// markup.
pub assume_specification<'a>[ scraper::ElementRef::<'a>::inner_html ](
    element: &scraper::ElementRef<'a>,
) -> (markup: String)
    ensures
        markup@ == inner_markup(*element),
;

/// Calls `scraper::Html::select` and takes the first element it yields. The
/// contract only names that element.
#[verifier::external_body]
pub(crate) fn select_first<'a>(doc: &'a scraper::Html, selector: &scraper::Selector) -> (found:
    Option<scraper::ElementRef<'a>>)
    ensures
        found == first_match(*doc, *selector),
{
    doc.select(selector).next()
}

/// Calls `scraper::ElementRef::select` and collects everything it yields. The
/// contract only names the elements, in the iterator's order.
#[verifier::external_body]
pub(crate) fn select_within<'a>(
    scope: scraper::ElementRef<'a>,
    selector: &scraper::Selector,
) -> (found: Vec<scraper::ElementRef<'a>>)
    ensures
        found@ == matches_within(scope, *selector),
{
    scope.select(selector).collect()
}

/// Takes the first item of `ego_tree`'s `children` iterator on the element's
/// node and tells the kinds of node apart. The contract only names the result.
#[verifier::external_body]
pub(crate) fn first_child<'a>(element: scraper::ElementRef<'a>) -> (child: Child<'a>)
    ensures
        child == first_child_of(element),
{
    match element.children().next() {
        None => Child::Nothing,
        Some(node) => match node.value() {
            scraper::Node::Element(_) => scraper::ElementRef::wrap(node).map_or(
                Child::Other,
                Child::Element,
            ),
            scraper::Node::Text(text) => Child::Text(text.to_string()),
            _ => Child::Other,
        },
    }
}

} // verus!
