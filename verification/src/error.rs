//! The failure modes of diff construction. The library fails fast and
//! whole: any one of these aborts the plan load, and no partial diff is
//! produced.

use crate::json::quoted;
use crate::strutil::string_views;
use vstd::prelude::*;

verus! {

/// Why a plan could not be turned into a diff.
#[derive(Debug)]
pub enum TrowelError {
    /// The input document broke the plan schema: a required field was
    /// missing or mistyped, or an unrecognized field was present.
    MalformedPlan { field: String },
    /// A resource change's action combination matches no verb.
    UnrecognizedActionSet { actions: Vec<String> },
    /// An attribute was marked sensitive but missing from the value map the
    /// marker refers to; `after` tells which side was at fault.
    SensitiveValueMissingFromRecord { attribute: String, after: bool },
}

/// The mathematical shape of a [`TrowelError`].
pub enum ErrorModel {
    MalformedPlan { field: Seq<char> },
    UnrecognizedActionSet { actions: Seq<Seq<char>> },
    SensitiveValueMissingFromRecord { attribute: Seq<char>, after: bool },
}

impl View for TrowelError {
    type V = ErrorModel;

    open spec fn view(&self) -> ErrorModel {
        match self {
            TrowelError::MalformedPlan { field } => ErrorModel::MalformedPlan { field: field@ },
            TrowelError::UnrecognizedActionSet { actions } => ErrorModel::UnrecognizedActionSet {
                actions: string_views(actions@),
            },
            TrowelError::SensitiveValueMissingFromRecord { attribute, after } =>
                ErrorModel::SensitiveValueMissingFromRecord {
                attribute: attribute@,
                after: *after,
            },
        }
    }
}

/// A comma-separated list of quoted strings, as in a debug rendering of a
/// string vector.
pub open spec fn quoted_list(s: Seq<Seq<char>>) -> Seq<char>
    decreases s.len(),
{
    if s.len() == 0 {
        Seq::empty()
    } else if s.len() == 1 {
        quoted(s[0])
    } else {
        quoted(s[0]) + seq![',', ' '] + quoted_list(s.subrange(1, s.len() as int))
    }
}

/// The display message of an error.
pub open spec fn message_model(m: ErrorModel) -> Seq<char> {
    match m {
        ErrorModel::MalformedPlan { field } => "Malformed plan: unexpected or invalid field "@
            + field,
        ErrorModel::UnrecognizedActionSet { actions } => "Verb not found for actions: ["@
            + quoted_list(actions) + "]"@,
        ErrorModel::SensitiveValueMissingFromRecord { attribute, after } => if after {
            "After value for attribute "@ + attribute
                + " is in after_sensitive but missing from after"@
        } else {
            "Before value for attribute "@ + attribute
                + " is in before_sensitive but missing from before"@
        },
    }
}

/// Appends the quoted list of `actions[from..]` to `out`.
fn quoted_list_into(actions: &Vec<String>, from: usize, out: &mut Vec<char>)
    requires
        from <= actions@.len(),
    ensures
        final(out)@ == old(out)@ + quoted_list(
            string_views(actions@).subrange(from as int, actions@.len() as int),
        ),
    decreases actions@.len() - from,
{
    let ghost rest = string_views(actions@).subrange(from as int, actions@.len() as int);
    if from == actions.len() {
        proof {
            assert(rest =~= Seq::<Seq<char>>::empty());
        }
        return ;
    }
    crate::json::quote_str_into(actions[from].as_str(), out);
    if from + 1 == actions.len() {
        proof {
            assert(rest.len() == 1);
            assert(rest[0] == actions@[from as int]@);
        }
        return ;
    }
    out.push(',');
    out.push(' ');
    quoted_list_into(actions, from + 1, out);
    proof {
        assert(rest[0] == actions@[from as int]@);
        assert(rest.subrange(1, rest.len() as int) =~= string_views(actions@).subrange(
            from + 1,
            actions@.len() as int,
        ));
        assert(out@ =~= old(out)@ + quoted_list(rest));
    }
}

impl TrowelError {
    /// The human-readable description of this error.
    pub fn message(&self) -> (s: String)
        ensures
            s@ == message_model(self@),
    {
        match self {
            TrowelError::MalformedPlan { field } => {
                let mut s = "Malformed plan: unexpected or invalid field ".to_owned();
                s.append(field.as_str());
                s
            },
            TrowelError::UnrecognizedActionSet { actions } => {
                let mut buf: Vec<char> = Vec::new();
                quoted_list_into(actions, 0, &mut buf);
                proof {
                    assert(string_views(actions@).subrange(0, actions@.len() as int)
                        =~= string_views(actions@));
                }
                let mut s = "Verb not found for actions: [".to_owned();
                s.append(crate::strutil::chars_to_string(&buf).as_str());
                s.append("]");
                s
            },
            TrowelError::SensitiveValueMissingFromRecord { attribute, after } => {
                if *after {
                    let mut s = "After value for attribute ".to_owned();
                    s.append(attribute.as_str());
                    s.append(" is in after_sensitive but missing from after");
                    s
                } else {
                    let mut s = "Before value for attribute ".to_owned();
                    s.append(attribute.as_str());
                    s.append(" is in before_sensitive but missing from before");
                    s
                }
            },
        }
    }
}

} // verus!
