//! The key a client attaches to a request to make it safe to retry.
use vstd::prelude::*;

verus! {

/// The message reported for an empty key.
pub open spec fn empty_key_message() -> Seq<char> {
    "The idempotency key cannot be empty"@
}

/// A key that is not empty.
#[derive(Debug)]
pub struct IdempotencyKey(String);

impl View for IdempotencyKey {
    type V = Seq<char>;

    closed spec fn view(&self) -> Seq<char> {
        self.0@
    }
}

impl IdempotencyKey {
    /// Every value of this type holds a key that is not empty.
    #[verifier::type_invariant]
    pub closed spec fn valid(&self) -> bool {
        self.0@.len() > 0
    }

    /// Accepts any key but the empty one, and keeps it unchanged.
    pub fn parse(s: String) -> (r: Result<IdempotencyKey, String>)
        ensures
            r is Ok <==> s@.len() > 0,
            r is Ok ==> r.unwrap()@ == s@,
            r is Err ==> r.unwrap_err()@ == empty_key_message(),
    {
        if s.as_str().is_empty() {
            Err("The idempotency key cannot be empty".to_string())
        } else {
            Ok(IdempotencyKey(s))
        }
    }

    /// The key as it was given; it is not empty.
    pub fn as_ref(&self) -> (s: &str)
        ensures
            s@ == self@,
            s@.len() > 0,
    {
        proof {
            use_type_invariant(self);
        }
        self.0.as_str()
    }
}

} // verus!
