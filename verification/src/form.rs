//! The login form: its address, its hidden fields, and the fields that
//! are submitted.

use crate::error::ParseError;
use crate::text::{chars_of, contains, contains_text, text_is};
use crate::html::{
    child_of, document_forms, forms_of, parsed_forms, ChildElement, ChildModel, FormElement,
    FormModel,
};
use vstd::prelude::*;
use vstd::string::*;

verus! {

/// A list of names with their values, as plain values.
pub type Pairs = Seq<(Seq<char>, Seq<char>)>;

/// The plain values of a list of names with their values.
pub open spec fn pairs_of(pairs: Seq<(String, String)>) -> Pairs {
    pairs.map_values(|p: (String, String)| (p.0@, p.1@))
}

/// The value that the last pair named `key` holds.
pub open spec fn last_value(pairs: Pairs, key: Seq<char>) -> Option<Seq<char>>
    decreases pairs.len(),
{
    if pairs.len() == 0 {
        None
    } else if pairs.last().0 == key {
        Some(pairs.last().1)
    } else {
        last_value(pairs.drop_last(), key)
    }
}

/// The child is an `input` element whose `type` is `hidden`.
pub open spec fn is_hidden_input(child: Option<ChildModel>) -> bool {
    match child {
        Some(e) => e.tag == "input"@ && e.kind == Some("hidden"@),
        None => false,
    }
}

/// The hidden input has both its name and its value.
pub open spec fn is_complete(child: Option<ChildModel>) -> bool {
    match child {
        Some(e) => e.name is Some && e.value is Some,
        None => false,
    }
}

/// The hidden fields among `children`, in order; `None` where a hidden
/// input lacks its name or its value.
pub open spec fn hidden_fields(children: Seq<Option<ChildModel>>) -> Option<Pairs>
    decreases children.len(),
{
    if children.len() == 0 {
        Some(Seq::empty())
    } else {
        let child = children.last();
        match hidden_fields(children.drop_last()) {
            None => None,
            Some(fields) => if !is_hidden_input(child) {
                Some(fields)
            } else if is_complete(child) {
                Some(fields.push((child->0.name->0, child->0.value->0)))
            } else {
                None
            },
        }
    }
}

/// A login form, as plain values.
pub struct ParsedFormModel {
    pub action: Seq<char>,
    pub hidden: Pairs,
}

/// The address a login form submits to, absolute or relative, and its
/// hidden fields in order.
#[derive(Debug, Clone)]
pub struct ParsedForm {
    pub action: String,
    pub hidden: Vec<(String, String)>,
}

impl View for ParsedForm {
    type V = ParsedFormModel;

    open spec fn view(&self) -> ParsedFormModel {
        ParsedFormModel { action: self.action@, hidden: pairs_of(self.hidden@) }
    }
}

/// The login form among the forms of a document: the first one. Its
/// `action` is required, and so are the name and the value of each of its
/// hidden inputs.
pub open spec fn login_form(forms: Seq<FormModel>) -> Result<ParsedFormModel, ParseError> {
    if forms.len() == 0 {
        Err(ParseError::NoLoginForm)
    } else {
        match forms[0].action {
            None => Err(ParseError::NoFormAction),
            Some(action) => match hidden_fields(forms[0].children) {
                None => Err(ParseError::InvalidFormInputField),
                Some(hidden) => Ok(ParsedFormModel { action, hidden }),
            },
        }
    }
}

/// The result of reading a login form, as plain values.
pub open spec fn form_result(r: Result<ParsedForm, ParseError>) -> Result<
    ParsedFormModel,
    ParseError,
> {
    match r {
        Ok(form) => Ok(form@),
        Err(e) => Err(e),
    }
}

/// Whether the child is an `input` element whose `type` is `hidden`.
pub fn hidden_input(child: &Option<ChildElement>) -> (hidden: bool)
    ensures
        hidden == is_hidden_input(child_of(*child)),
{
    match child {
        Some(e) => {
            if !text_is(&e.tag, "input") {
                return false;
            }
            match &e.kind {
                Some(kind) => text_is(kind, "hidden"),
                None => false,
            }
        },
        None => false,
    }
}

/// Reads the login form from the forms of a document.
#[verifier::loop_isolation(false)]
pub fn form_from_elements(forms: &Vec<FormElement>) -> (r: Result<ParsedForm, ParseError>)
    ensures
        form_result(r) == login_form(forms_of(forms@)),
{
    if forms.len() == 0 {
        return Err(ParseError::NoLoginForm);
    }
    let first = &forms[0];
    assert(forms_of(forms@)[0] == first@);
    let action = match &first.action {
        Some(a) => a.clone(),
        None => {
            return Err(ParseError::NoFormAction);
        },
    };
    let ghost children = first@.children;
    let mut hidden: Vec<(String, String)> = Vec::new();
    let mut i: usize = 0;
    assert(children.take(0) =~= Seq::empty());
    assert(pairs_of(hidden@) =~= Seq::empty());
    while i < first.children.len()
        invariant
            i <= first.children.len(),
            children == first@.children,
            children.len() == first.children.len(),
            hidden_fields(children.take(i as int)) == Some(pairs_of(hidden@)),
        decreases first.children.len() - i,
    {
        let child = &first.children[i];
        let ghost longer = children.take(i + 1);
        proof {
            assert(longer.drop_last() =~= children.take(i as int));
            assert(longer.last() == child_of(*child));
        }
        if hidden_input(child) {
            match child {
                Some(e) => match (&e.name, &e.value) {
                    (Some(n), Some(v)) => {
                        let ghost before = pairs_of(hidden@);
                        hidden.push((n.clone(), v.clone()));
                        assert(pairs_of(hidden@) =~= before.push((n@, v@)));
                    },
                    _ => {
                        proof {
                            lemma_hidden_fields_prefix(children, i + 1);
                        }
                        return Err(ParseError::InvalidFormInputField);
                    },
                },
                None => {},
            }
        }
        i += 1;
    }
    assert(children.take(i as int) =~= children);
    Ok(ParsedForm { action, hidden })
}

/// Where the hidden fields of some leading children are invalid, so are
/// those of all.
pub proof fn lemma_hidden_fields_prefix(children: Seq<Option<ChildModel>>, k: int)
    requires
        0 <= k <= children.len(),
        hidden_fields(children.take(k)) is None,
    ensures
        hidden_fields(children) is None,
    decreases children.len() - k,
{
    if k == children.len() {
        assert(children.take(k) =~= children);
    } else {
        assert(children.take(k + 1).drop_last() =~= children.take(k));
        lemma_hidden_fields_prefix(children, k + 1);
    }
}

/// A document without a form has no login form, and only such a one.
pub proof fn lemma_no_login_form(forms: Seq<FormModel>)
    ensures
        forms.len() == 0 <==> login_form(forms) == Err::<ParsedFormModel, ParseError>(
            ParseError::NoLoginForm,
        ),
{
}

/// A first form without an `action` is refused for that, whatever else it
/// holds, and only such a one.
pub proof fn lemma_no_form_action(forms: Seq<FormModel>)
    ensures
        forms.len() > 0 && forms[0].action is None <==> login_form(forms) == Err::<
            ParsedFormModel,
            ParseError,
        >(ParseError::NoFormAction),
{
}

/// The hidden fields are invalid exactly where some child is a hidden
/// input that lacks its name or its value. No other child is asked for
/// either.
pub proof fn lemma_hidden_fields_invalid(children: Seq<Option<ChildModel>>)
    ensures
        hidden_fields(children) is None <==> exists|i: int|
            0 <= i < children.len() && is_hidden_input(#[trigger] children[i]) && !is_complete(
                children[i],
            ),
    decreases children.len(),
{
    if children.len() > 0 {
        let front = children.drop_last();
        lemma_hidden_fields_invalid(front);
        if hidden_fields(front) is None {
            let i = choose|i: int|
                0 <= i < front.len() && is_hidden_input(#[trigger] front[i]) && !is_complete(
                    front[i],
                );
            assert(children[i] == front[i]);
        } else if hidden_fields(children) is None {
            assert(is_hidden_input(children[children.len() - 1]));
        } else {
            assert forall|i: int|
                0 <= i < children.len() && is_hidden_input(#[trigger] children[i]) implies is_complete(
                children[i],
            ) by {
                if i < front.len() {
                    assert(front[i] == children[i]);
                }
            }
        }
    }
}

/// A login form with an `action` is refused for a field exactly where one
/// of its direct children is a hidden input that lacks its name or its
/// value.
pub proof fn lemma_invalid_input_field(forms: Seq<FormModel>)
    requires
        forms.len() > 0,
        forms[0].action is Some,
    ensures
        login_form(forms) == Err::<ParsedFormModel, ParseError>(
            ParseError::InvalidFormInputField,
        ) <==> exists|i: int|
            0 <= i < forms[0].children.len() && is_hidden_input(#[trigger] forms[0].children[i])
                && !is_complete(forms[0].children[i]),
{
    lemma_hidden_fields_invalid(forms[0].children);
}

/// The address that the form of a second login submits to.
pub open spec fn second_login_address() -> Seq<char> {
    "https://login.vk.com"@
}

/// The form has an `action` that contains the address of the second login.
pub open spec fn is_second_login(form: FormModel) -> bool {
    form.action is Some && contains(form.action->0, second_login_address())
}

/// One of the forms is that of a second login.
pub open spec fn has_second_login(forms: Seq<FormModel>) -> bool {
    exists|i: int| 0 <= i < forms.len() && is_second_login(#[trigger] forms[i])
}

/// Whether one of the forms of a document is that of a second login.
pub fn second_login_among(forms: &Vec<FormElement>) -> (found: bool)
    ensures
        found == has_second_login(forms_of(forms@)),
{
    let address = chars_of("https://login.vk.com");
    let mut i: usize = 0;
    while i < forms.len()
        invariant
            i <= forms.len(),
            address@ == second_login_address(),
            forall|j: int| 0 <= j < i ==> !is_second_login(#[trigger] forms_of(forms@)[j]),
        decreases forms.len() - i,
    {
        assert(forms_of(forms@)[i as int] == forms@[i as int]@);
        match &forms[i].action {
            Some(action) => {
                let text = chars_of(action.as_str());
                if contains_text(&text, &address) {
                    return true;
                }
            },
            None => {},
        }
        i += 1;
    }
    false
}

/// Whether the page `html` holds the form of a second login.
pub fn second_login_on(html: &str) -> (found: bool)
    ensures
        found == has_second_login(parsed_forms(html@)),
{
    let forms = document_forms(html);
    second_login_among(&forms)
}

/// Reads the login form of the authorization page `html`.
pub fn extract_form(html: &str) -> (r: Result<ParsedForm, ParseError>)
    ensures
        form_result(r) == login_form(parsed_forms(html@)),
{
    let forms = document_forms(html);
    form_from_elements(&forms)
}

} // verus!
