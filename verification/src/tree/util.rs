//! Shared element traits.

use vstd::prelude::*;

verus! {

/// An element with comment lines.
pub trait WithComments: Sized {
    /// The comment lines, for specifications.
    spec fn spec_comments(&self) -> Seq<Seq<char>>;

    /// Gets the comments.
    fn comments(&self) -> (r: &Vec<String>)
        ensures
            r.deep_view() == self.spec_comments(),
    ;

    /// Adds the comment.
    fn add_comment(&mut self, comment: String)
        ensures
            final(self).spec_comments() == old(self).spec_comments().push(comment@),
    ;

    /// Adds the comment.
    fn with_comment(self, comment: String) -> (r: Self)
        ensures
            r.spec_comments() == self.spec_comments().push(comment@),
    ;
}

} // verus!
