//! Turning a plain function into a submittable unit of work: what the
//! expansion checks and what it names, apart from the tokens it is made of.

use vstd::prelude::*;
use vstd::string::StringExecFns;

verus! {

/// The upper-case form of a character, which may be more than one character
/// long: what `char::to_uppercase` yields.
pub uninterp spec fn uppercase(c: char) -> Seq<char>;

/// Renders the upper-case form of a character (`char::to_uppercase`).
///
/// Trusted: the text is the upper-case form that the standard library
/// assigns to the character, and depends on nothing else.
#[verifier::external_body]
fn uppercase_of(c: char) -> (text: String)
    ensures
        text@ == uppercase(c),
{
    c.to_uppercase().to_string()
}

/// Appends a character to a text (`String::push`).
///
/// Trusted: the text afterwards is the text before with the character at
/// its end.
#[verifier::external_body]
fn push_char(text: &mut String, c: char)
    ensures
        final(text)@ == old(text)@.push(c),
{
    text.push(c)
}

/// One parameter of a function, as far as the expansion cares.
#[derive(Debug, Clone, PartialEq, Eq)]
pub enum TaskParam {
    /// `self`, in any form.
    Receiver,
    /// A parameter that is a plain name.
    Named(String),
    /// A parameter that is any other pattern.
    Pattern,
}

/// The signature of a function that is to become a unit of work.
#[derive(Debug, Clone, PartialEq, Eq)]
pub struct TaskSignature {
    pub name: String,
    pub has_return_type: bool,
    pub params: Vec<TaskParam>,
}

/// Why a function cannot become a unit of work.
#[derive(Debug, Clone, PartialEq, Eq)]
pub enum TaskMacroError {
    /// The function declares no return type.
    MissingReturnType,
    /// The parameter at this position is `self`.
    SelfParameter(usize),
    /// The parameter at this position is not a plain name.
    UnsupportedPattern(usize),
}

impl TaskMacroError {
    /// Text of the error as shown to a user.
    pub open spec fn spec_message(&self) -> Seq<char> {
        match self {
            TaskMacroError::MissingReturnType => "Task functions must have a return type"@,
            TaskMacroError::SelfParameter(_) => "Task functions cannot have self parameters"@,
            TaskMacroError::UnsupportedPattern(_) => "Only simple parameter names are supported"@,
        }
    }

    /// Renders the error as shown to a user.
    pub fn message(&self) -> (text: String)
        ensures
            text@ == self.spec_message(),
    {
        match self {
            TaskMacroError::MissingReturnType => {
                "Task functions must have a return type".to_string()
            },
            TaskMacroError::SelfParameter(_) => {
                "Task functions cannot have self parameters".to_string()
            },
            TaskMacroError::UnsupportedPattern(_) => {
                "Only simple parameter names are supported".to_string()
            },
        }
    }
}

/// What the expansion is made from: the name of the hidden task type and the
/// names of the captured parameters, in their order.
#[derive(Debug, Clone, PartialEq, Eq)]
pub struct TaskExpansion {
    pub struct_name: String,
    pub param_names: Vec<String>,
}

/// The first `upto` characters of a snake-case name in camel case: the
/// underscores are left out and every character that starts the name or
/// follows an underscore is put in upper case.
pub open spec fn camel_case(name: Seq<char>, upto: nat) -> Seq<char>
    decreases upto,
{
    if upto == 0 {
        Seq::empty()
    } else {
        let at = upto - 1;
        let before = camel_case(name, at as nat);
        if name[at] == '_' {
            before
        } else if at == 0 || name[at - 1] == '_' {
            before + uppercase(name[at])
        } else {
            before.push(name[at])
        }
    }
}

/// The name of the hidden task type of a function: the name of the function
/// in camel case, followed by `Task`.
pub open spec fn task_struct_name(name: Seq<char>) -> Seq<char> {
    camel_case(name, name.len()) + "Task"@
}

/// Computes [`task_struct_name`].
pub fn task_struct_name_of(name: &str) -> (struct_name: String)
    ensures
        struct_name@ == task_struct_name(name@),
{
    let mut camel = String::new();
    let mut starts_word = true;
    let ghost mut seen: nat = 0;
    for c in it: name.chars()
        invariant
            it.seq() == name@,
            seen == it.index(),
            camel@ == camel_case(name@, seen),
            starts_word == (seen == 0 || name@[seen - 1] == '_'),
    {
        assert(name@[seen as int] == c);
        if c == '_' {
            starts_word = true;
        } else if starts_word {
            let upper = uppercase_of(c);
            camel.append(upper.as_str());
            starts_word = false;
        } else {
            push_char(&mut camel, c);
            starts_word = false;
        }
        proof {
            seen = seen + 1;
        }
    }
    camel.concat("Task")
}

/// The parameter at `at` can be captured: it is a plain name.
pub open spec fn is_capturable(params: Seq<TaskParam>, at: int) -> bool {
    params[at] is Named
}

/// `at` is the first parameter that cannot be captured.
pub open spec fn is_first_offender(params: Seq<TaskParam>, at: int) -> bool {
    &&& 0 <= at < params.len()
    &&& !is_capturable(params, at)
    &&& forall|i: int| 0 <= i < at ==> #[trigger] is_capturable(params, i)
}

/// Checks a function and plans its expansion into a unit of work.
///
/// A function without a return type is refused; then the first parameter
/// that is `self` or is not a plain name is. Otherwise the expansion
/// captures every parameter under its name.
pub fn plan_task(signature: &TaskSignature) -> (plan: Result<TaskExpansion, TaskMacroError>)
    ensures
        plan is Ok <==> signature.has_return_type && forall|i: int|
            0 <= i < signature.params@.len() ==> #[trigger] is_capturable(signature.params@, i),
        !signature.has_return_type ==> plan == Err::<TaskExpansion, TaskMacroError>(
            TaskMacroError::MissingReturnType,
        ),
        forall|at: int|
            signature.has_return_type && is_first_offender(signature.params@, at) ==> plan
                == Err::<TaskExpansion, TaskMacroError>(
                if signature.params@[at] is Receiver {
                    TaskMacroError::SelfParameter(at as usize)
                } else {
                    TaskMacroError::UnsupportedPattern(at as usize)
                },
            ),
        plan matches Ok(expansion) ==> {
            &&& expansion.struct_name@ == task_struct_name(signature.name@)
            &&& expansion.param_names@.len() == signature.params@.len()
            &&& forall|i: int|
                0 <= i < signature.params@.len() ==> (#[trigger] expansion.param_names@[i])@
                    == signature.params@[i]->Named_0@
        },
{
    if !signature.has_return_type {
        return Err(TaskMacroError::MissingReturnType);
    }
    let mut param_names: Vec<String> = Vec::new();
    let ghost mut checked: int = 0;
    for at in 0..signature.params.len()
        invariant
            signature.has_return_type,
            checked == at,
            param_names@.len() == checked,
            forall|i: int| 0 <= i < checked ==> #[trigger] is_capturable(signature.params@, i),
            forall|i: int|
                0 <= i < checked ==> (#[trigger] param_names@[i])@
                    == signature.params@[i]->Named_0@,
    {
        match &signature.params[at] {
            TaskParam::Receiver => {
                assert(is_first_offender(signature.params@, checked));
                return Err(TaskMacroError::SelfParameter(at));
            },
            TaskParam::Named(name) => {
                param_names.push(name.clone());
            },
            TaskParam::Pattern => {
                assert(is_first_offender(signature.params@, checked));
                return Err(TaskMacroError::UnsupportedPattern(at));
            },
        }
        proof {
            checked = checked + 1;
        }
    }
    Ok(
        TaskExpansion {
            struct_name: task_struct_name_of(signature.name.as_str()),
            param_names,
        },
    )
}

} // verus!
