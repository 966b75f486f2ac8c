//! Field rules of the request bodies.  A check appends, for a field that
//! breaks its rule, the field's name, the rule's code and the message
//! shown (if the rule has one); a body is valid when nothing was appended.
use crate::common::text::{trimmed, str_trim};
use validator::ValidateEmail;
use vstd::prelude::*;

verus! {

/// A broken field rule.
pub struct FieldError {
    pub field: String,
    pub code: String,
    pub message: Option<String>,
}

/// A request body whose rules were checked (the extractor's result).
pub struct ValidatedJson<T>(pub T);

/// A broken rule as plain text: field, code, message.
pub type Issue = (Seq<char>, Seq<char>, Option<Seq<char>>);

pub open spec fn issue_of(e: FieldError) -> Issue {
    (e.field@, e.code@, match e.message {
        Some(m) => Some(m@),
        None => None,
    })
}

pub open spec fn issues(v: Seq<FieldError>) -> Seq<Issue> {
    v.map_values(|e: FieldError| issue_of(e))
}

/// The issue of a field when `broken`, else nothing.
pub open spec fn issue_if(broken: bool, field: Seq<char>, code: Seq<char>, message: Option<Seq<char>>) -> Seq<Issue> {
    if broken {
        seq![(field, code, message)]
    } else {
        Seq::empty()
    }
}

/// `ValidateEmail::validate_email`: the text is an e-mail address by the
/// validator crate's rules (one `@`, bounded parts, its user and domain
/// patterns).
pub uninterp spec fn email_valid(s: Seq<char>) -> bool;

/// `<&str as ValidateEmail>::validate_email`.
#[verifier::external_body]
fn is_email(s: &str) -> (r: bool)
    ensures
        r == email_valid(s@),
{
    s.validate_email()
}

/// Number of characters of a text.
pub open spec fn char_len(s: Seq<char>) -> int {
    s.len() as int
}

fn push_issue(errors: &mut Vec<FieldError>, field: &str, code: &str, message: Option<&str>)
    ensures
        issues(final(errors)@) == issues(old(errors)@) + seq![(field@, code@, match message {
            Some(m) => Some(m@),
            None => None,
        })],
{
    let ghost before = errors@;
    errors.push(
        FieldError {
            field: String::from_str(field),
            code: String::from_str(code),
            message: match message {
                Some(m) => Some(String::from_str(m)),
                None => None,
            },
        },
    );
    proof {
        assert(issues(errors@) =~= issues(before) + seq![issue_of(errors@.last())]);
    }
}

/// A trimmed text must have 1 to `max` characters (a custom rule, no
/// message).
pub fn check_trimmed_len(errors: &mut Vec<FieldError>, field: &str, value: &str, max: usize, code: &str)
    ensures
        issues(final(errors)@) == issues(old(errors)@) + issue_if(
            !(1 <= char_len(trimmed(value@)) <= max),
            field@,
            code@,
            None,
        ),
{
    let n = str_trim(value).unicode_len();
    if n == 0 || n > max {
        push_issue(errors, field, code, None);
    } else {
        proof {
            assert(issues(errors@) =~= issues(errors@) + Seq::<Issue>::empty());
        }
    }
}

/// A text must have at most `max` characters (a custom rule, no message).
pub fn check_max_chars(errors: &mut Vec<FieldError>, field: &str, value: &str, max: usize, code: &str)
    ensures
        issues(final(errors)@) == issues(old(errors)@) + issue_if(char_len(value@) > max, field@, code@, None),
{
    let n = value.unicode_len();
    if n > max {
        push_issue(errors, field, code, None);
    } else {
        proof {
            assert(issues(errors@) =~= issues(errors@) + Seq::<Issue>::empty());
        }
    }
}

/// A text's number of characters must lie within the bounds (the
/// validator's `length` rule).
pub fn check_length(errors: &mut Vec<FieldError>, field: &str, value: &str, min: Option<usize>, max: Option<usize>, message: &str)
    ensures
        issues(final(errors)@) == issues(old(errors)@) + issue_if(
            (min matches Some(lo) && char_len(value@) < lo) || (max matches Some(hi) && char_len(value@) > hi),
            field@,
            "length"@,
            Some(message@),
        ),
{
    proof {
        reveal_strlit("length");
    }
    let n = value.unicode_len();
    let too_short = match min {
        Some(lo) => n < lo,
        None => false,
    };
    let too_long = match max {
        Some(hi) => n > hi,
        None => false,
    };
    if too_short || too_long {
        push_issue(errors, field, "length", Some(message));
    } else {
        proof {
            assert(issues(errors@) =~= issues(errors@) + Seq::<Issue>::empty());
        }
    }
}

/// A number must lie within the bounds (the validator's `range` rule).
pub fn check_range(errors: &mut Vec<FieldError>, field: &str, value: i64, min: Option<i64>, max: Option<i64>, message: &str)
    ensures
        issues(final(errors)@) == issues(old(errors)@) + issue_if(
            (min matches Some(lo) && value < lo) || (max matches Some(hi) && value > hi),
            field@,
            "range"@,
            Some(message@),
        ),
{
    let low = match min {
        Some(lo) => value < lo,
        None => false,
    };
    let high = match max {
        Some(hi) => value > hi,
        None => false,
    };
    if low || high {
        push_issue(errors, field, "range", Some(message));
    } else {
        proof {
            assert(issues(errors@) =~= issues(errors@) + Seq::<Issue>::empty());
        }
    }
}

/// A text must be an e-mail address (the validator's `email` rule).
pub fn check_email(errors: &mut Vec<FieldError>, field: &str, value: &str, message: &str)
    ensures
        issues(final(errors)@) == issues(old(errors)@) + issue_if(!email_valid(value@), field@, "email"@, Some(message@)),
{
    if !is_email(value) {
        push_issue(errors, field, "email", Some(message));
    } else {
        proof {
            assert(issues(errors@) =~= issues(errors@) + Seq::<Issue>::empty());
        }
    }
}

} // verus!
