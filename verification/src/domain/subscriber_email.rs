//! Subscriber email addresses, validated by the `validator` crate.
use vstd::prelude::*;

verus! {

/// Whether `validator::validate_email` accepts a string.
pub uninterp spec fn is_valid_email(s: Seq<char>) -> bool;

/// The message reported for a refused address.
pub open spec fn invalid_email_message() -> Seq<char> {
    "not a valid email"@
}

/// An email address that passed validation.
#[derive(Debug)]
pub struct SubscriberEmail(String);

impl View for SubscriberEmail {
    type V = Seq<char>;

    closed spec fn view(&self) -> Seq<char> {
        self.0@
    }
}

/// Calls `validator::validate_email`. The answer is the named predicate of
/// the string; the function's first test refuses the empty string and any
/// string without an `@`.
#[verifier::external_body]
pub(crate) fn validate_email(s: &str) -> (ok: bool)
    ensures
        ok == is_valid_email(s@),
        ok ==> s@.len() > 0 && s@.contains('@'),
{
    validator::validate_email(s)
}

impl SubscriberEmail {
    /// Every value of this type holds an address that the validator accepts.
    #[verifier::type_invariant]
    pub closed spec fn valid(&self) -> bool {
        is_valid_email(self.0@)
    }

    /// Validates an address: accepted exactly when the validator accepts it,
    /// and then kept unchanged.
    pub fn parse(s: &str) -> (r: Result<SubscriberEmail, String>)
        ensures
            r is Ok <==> is_valid_email(s@),
            r is Ok ==> r.unwrap()@ == s@,
            r is Err ==> r.unwrap_err()@ == invalid_email_message(),
            r is Ok ==> s@.len() > 0 && s@.contains('@'),
    {
        if validate_email(s) {
            Ok(SubscriberEmail(s.to_string()))
        } else {
            Err("not a valid email".to_string())
        }
    }

    /// The address as it was given; it is one that the validator accepts.
    pub fn as_ref(&self) -> (s: &str)
        ensures
            s@ == self@,
            is_valid_email(s@),
    {
        proof {
            use_type_invariant(self);
        }
        self.0.as_str()
    }

    /// The address as an owned string; it is one that the validator accepts.
    pub fn to_string(&self) -> (s: String)
        ensures
            s@ == self@,
            is_valid_email(s@),
    {
        proof {
            use_type_invariant(self);
        }
        self.0.clone()
    }
}

} // verus!
