//! What the login flow reads of an HTML document: its forms, with their
//! `action` and their direct children.

use vstd::prelude::*;
use vstd::string::*;

verus! {

/// The text of an attribute that may be absent.
pub open spec fn text_of(s: Option<String>) -> Option<Seq<char>> {
    match s {
        Some(t) => Some(t@),
        None => None,
    }
}

/// A child element of a form, as plain values.
pub struct ChildModel {
    pub tag: Seq<char>,
    pub kind: Option<Seq<char>>,
    pub name: Option<Seq<char>>,
    pub value: Option<Seq<char>>,
}

/// A form, as plain values. A child that is no element is `None`.
pub struct FormModel {
    pub action: Option<Seq<char>>,
    pub children: Seq<Option<ChildModel>>,
}

/// A child element of a form: its tag and its attributes `type`, `name`
/// and `value`.
#[derive(Debug, Clone)]
pub struct ChildElement {
    pub tag: String,
    pub kind: Option<String>,
    pub name: Option<String>,
    pub value: Option<String>,
}

/// A form of a document: its attribute `action` and its direct children in
/// order, one entry for each node. A node that is no element (text, a
/// comment) is `None`.
#[derive(Debug, Clone)]
pub struct FormElement {
    pub action: Option<String>,
    pub children: Vec<Option<ChildElement>>,
}

impl View for ChildElement {
    type V = ChildModel;

    open spec fn view(&self) -> ChildModel {
        ChildModel {
            tag: self.tag@,
            kind: text_of(self.kind),
            name: text_of(self.name),
            value: text_of(self.value),
        }
    }
}

impl ChildElement {
    /// A child element of the given tag and attributes.
    pub fn new(
        tag: String,
        kind: Option<String>,
        name: Option<String>,
        value: Option<String>,
    ) -> (child: ChildElement)
        ensures
            child == (ChildElement { tag, kind, name, value }),
    {
        ChildElement { tag, kind, name, value }
    }
}

impl FormElement {
    /// A form of the given `action` and children.
    pub fn new(action: Option<String>, children: Vec<Option<ChildElement>>) -> (form: FormElement)
        ensures
            form == (FormElement { action, children }),
    {
        FormElement { action, children }
    }
}

/// The plain values of a child node.
pub open spec fn child_of(c: Option<ChildElement>) -> Option<ChildModel> {
    match c {
        Some(e) => Some(e@),
        None => None,
    }
}

impl View for FormElement {
    type V = FormModel;

    open spec fn view(&self) -> FormModel {
        FormModel {
            action: text_of(self.action),
            children: self.children@.map_values(|c: Option<ChildElement>| child_of(c)),
        }
    }
}

/// The plain values of a list of forms.
pub open spec fn forms_of(forms: Seq<FormElement>) -> Seq<FormModel> {
    forms.map_values(|f: FormElement| f@)
}

/// The forms of the document that `html` is parsed to, in the order in
/// which a selection of `form` yields them.
pub uninterp spec fn parsed_forms(html: Seq<char>) -> Seq<FormModel>;

/// `scraper::Html::parse_document`, then `Html::select` with the selector
/// `form`: every form of the document, each with what `Element::attr`
/// gives for `action` and, for each node that `children` yields, the
/// element's `name` and what `attr` gives for `type`, `name` and `value`.
/// The result depends on the text alone.
#[verifier::external_body]
pub(crate) fn document_forms(html: &str) -> (forms: Vec<FormElement>)
    ensures
        forms_of(forms@) == parsed_forms(html@),
{
    let doc = scraper::Html::parse_document(html);
    let selector = scraper::Selector::parse("form").unwrap();
    let text = |e: &scraper::node::Element, a: &str| e.attr(a).map(String::from);
    let child = |e: &scraper::node::Element| {
        ChildElement::new(e.name().to_string(), text(e, "type"), text(e, "name"), text(e, "value"))
    };
    let form = |f: scraper::ElementRef| {
        let children = f.children().map(|n| n.value().as_element().map(child)).collect();
        FormElement::new(text(f.value(), "action"), children)
    };
    doc.select(&selector).map(form).collect()
}

} // verus!
