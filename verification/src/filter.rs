//! The request filter that sits in front of the key-value service: a request
//! whose text holds one of two banned numbers is refused.
use vstd::prelude::*;
use crate::text::{contains, contains_str};

verus! {

/// The text is refused: it holds `114514` or `1919810`.
pub open spec fn is_banned(text: Seq<char>) -> bool {
    contains(text, "114514"@) || contains(text, "1919810"@)
}

/// The message a refused request gets.
pub open spec fn refusal_text() -> Seq<char> {
    "It's smelly~"@
}

/// A service wrapped by the filter.
pub struct CmdFliter<S>(S);

/// Wraps a service in the filter.
pub struct FliterLayer;

impl FliterLayer {
    /// The filter around `inner`.
    pub fn layer<S>(self, inner: S) -> (r: CmdFliter<S>)
        ensures
            r.inner() == inner,
    {
        CmdFliter(inner)
    }
}

impl<S> CmdFliter<S> {
    /// The wrapped service.
    pub closed spec fn inner(&self) -> S {
        self.0
    }

    /// The wrapped service, to pass admitted requests on to.
    pub fn service(&self) -> (r: &S)
        ensures
            *r == self.inner(),
    {
        &self.0
    }

    /// Screens a request by its debug text: admitted, or refused with the
    /// refusal message.
    pub fn check(&self, req_msg: &str) -> (r: Result<(), String>)
        ensures
            r is Err == is_banned(req_msg@),
            r matches Err(m) ==> m@ == refusal_text(),
    {
        proof {
            reveal_strlit("114514");
            reveal_strlit("1919810");
        }
        if !(contains_str(req_msg, "114514") || contains_str(req_msg, "1919810")) {
            Ok(())
        } else {
            Err(String::from_str("It's smelly~"))
        }
    }
}

} // verus!
