//! Which question to ask for each input a workflow declares.
use vstd::prelude::*;
use crate::model::text_eq;

verus! {

/// One input declared under a workflow's manual trigger.
#[derive(Debug)]
pub struct WorkflowInput {
    /// Value used when none is given.
    pub default: Option<String>,
    /// Shown instead of the input's name when asking.
    pub description: Option<String>,
    /// `string`, `boolean` or `choice`.
    pub input_type: Option<String>,
    /// The allowed values of a `choice` input.
    pub options: Option<Vec<String>>,
    pub required: Option<bool>,
}

/// How the value of one input is obtained.
#[derive(Debug)]
pub enum InputPlan {
    /// Preset in the configuration: no question.
    Use(String),
    /// Pick one of `options`.
    Choice { label: String, options: Vec<String> },
    /// Answer yes or no.
    Boolean { label: String, default_yes: bool },
    /// Enter text.
    Text { label: String, default: Option<String>, required: bool },
}

/// An input declaration that no question can be asked for.
#[derive(Debug, PartialEq, Eq)]
pub enum InputError {
    /// A `choice` input without options; carries the input's name.
    NoOptions(String),
}

/// The text shown when asking for input `name`.
pub open spec fn label_of(name: Seq<char>, input: WorkflowInput) -> Seq<char> {
    match input.description {
        Some(d) => d@,
        None => name,
    }
}

/// The input's declared type is `t`.
pub open spec fn has_type(input: WorkflowInput, t: Seq<char>) -> bool {
    match input.input_type {
        Some(s) => s@ == t,
        None => false,
    }
}

/// Decides how to obtain the value of input `name`: a preset value is used
/// as it is; otherwise a `choice` input asks to pick an option, a `boolean`
/// one asks yes or no (defaulting to yes only for a default of `true`), and
/// any other asks for text.
pub fn plan_input(name: &str, input: WorkflowInput, preset: Option<String>) -> (r: Result<
    InputPlan,
    InputError,
>)
    ensures
        match preset {
            Some(v) => r == Ok::<InputPlan, InputError>(InputPlan::Use(v)),
            None => if has_type(input, "choice"@) {
                match input.options {
                    Some(o) => r matches Ok(InputPlan::Choice { label, options }) && label@
                        == label_of(name@, input) && options == o,
                    None => r matches Err(InputError::NoOptions(n)) && n@ == name@,
                }
            } else if has_type(input, "boolean"@) {
                r matches Ok(InputPlan::Boolean { label, default_yes }) && label@ == label_of(
                    name@,
                    input,
                ) && default_yes == (input.default matches Some(d) && d@ == "true"@)
            } else {
                r matches Ok(InputPlan::Text { label, default, required }) && label@ == label_of(
                    name@,
                    input,
                ) && default == input.default && required == (input.required == Some(true))
            },
        },
{
    if let Some(v) = preset {
        return Ok(InputPlan::Use(v));
    }
    let ghost spec_input = input;
    let WorkflowInput { default, description, input_type, options, required } = input;
    let label = match description {
        Some(d) => d,
        None => name.to_owned(),
    };
    let (is_choice, is_boolean) = match &input_type {
        Some(t) => (text_eq(t.as_str(), "choice"), text_eq(t.as_str(), "boolean")),
        None => (false, false),
    };
    if is_choice {
        match options {
            Some(o) => Ok(InputPlan::Choice { label, options: o }),
            None => Err(InputError::NoOptions(name.to_owned())),
        }
    } else if is_boolean {
        let yes = match &default {
            Some(d) => text_eq(d.as_str(), "true"),
            None => false,
        };
        Ok(InputPlan::Boolean { label, default_yes: yes })
    } else {
        let must = match required {
            Some(b) => b,
            None => false,
        };
        Ok(InputPlan::Text { label, default, required: must })
    }
}

} // verus!
