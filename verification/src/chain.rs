//! Errors that carry the context added to them on the way out.
use vstd::prelude::*;

use crate::text::{join, join_strings};

verus! {

/// An error with the context added to it: the outermost message first, the
/// original one last.
#[derive(Debug)]
pub struct ErrorChain {
    messages: Vec<String>,
}

impl ErrorChain {
    #[verifier::type_invariant]
    spec fn has_message(self) -> bool {
        self.messages@.len() > 0
    }

    /// The messages, outermost first.
    pub closed spec fn chain(self) -> Seq<Seq<char>> {
        self.messages@.map_values(|m: String| m@)
    }

    /// The messages, outermost first.
    pub fn messages(&self) -> (r: Vec<String>)
        ensures
            r@.map_values(|m: String| m@) == self.chain(),
            r@.len() > 0,
    {
        proof {
            use_type_invariant(self);
        }
        let mut r: Vec<String> = Vec::new();
        let mut i: usize = 0;
        while i < self.messages.len()
            invariant
                i <= self.messages@.len(),
                r@.map_values(|m: String| m@) == self.chain().take(i as int),
            decreases self.messages@.len() - i,
        {
            let ghost before = r@.map_values(|m: String| m@);
            r.push(self.messages[i].clone());
            assert(r@.map_values(|m: String| m@) =~= before.push(self.messages@[i as int]@));
            assert(self.chain().take(i + 1) =~= self.chain().take(i as int).push(
                self.messages@[i as int]@,
            ));
            i += 1;
        }
        assert(self.chain().take(self.messages@.len() as int) =~= self.chain());
        r
    }

    /// An error with one message.
    pub fn new(message: String) -> (r: ErrorChain)
        ensures
            r.chain() == seq![message@],
    {
        let mut messages: Vec<String> = Vec::new();
        messages.push(message);
        let r = ErrorChain { messages };
        assert(r.chain() =~= seq![message@]);
        r
    }

    /// The error with `message` added as its outermost context.
    pub fn context(self, message: String) -> (r: ErrorChain)
        ensures
            r.chain() == seq![message@] + self.chain(),
    {
        proof {
            use_type_invariant(&self);
        }
        let ghost old_chain = self.chain();
        let mut messages = self.messages;
        messages.insert(0, message);
        let r = ErrorChain { messages };
        assert(r.chain() =~= seq![message@] + old_chain);
        r
    }

    /// The outermost message (what `{}` shows).
    pub fn to_string(&self) -> (r: String)
        ensures
            self.chain().len() > 0,
            r@ == self.chain()[0],
    {
        proof {
            use_type_invariant(self);
        }
        self.messages[0].clone()
    }

    /// All messages joined by `": "`, outermost first (what `{:#}` shows).
    pub fn alternate(&self) -> (r: String)
        ensures
            r@ == join(self.chain(), ": "@),
    {
        join_strings(&self.messages, ": ")
    }
}

} // verus!
