//! A summarising trait with a default method and two implementors, their
//! output pinned down as character sequences.

use vstd::prelude::*;
use vstd::string::StringExecFns;

verus! {

/// Something with an author line and a one-line summary built from it.
pub trait Summary {
    /// The author text `summarize_author` must produce.
    spec fn spec_author(&self) -> Seq<char>;

    fn summarize_author(&self) -> (r: String)
        ensures
            r@ == self.spec_author(),
    ;

    /// The default summary: a reading pointer around the author line.
    fn summarize(&self) -> (r: String)
        ensures
            r@ == "(Read more from "@ + self.spec_author() + ")"@,
    {
        let mut s = String::from_str("(Read more from ");
        let author = self.summarize_author();
        s.append(author.as_str());
        s.append(")");
        s
    }
}

/// A news article.
pub struct NewsArticle {
    pub headline: String,
    pub location: String,
    pub author: String,
    pub content: String,
}

impl Summary for NewsArticle {
    open spec fn spec_author(&self) -> Seq<char> {
        self.author@
    }

    fn summarize_author(&self) -> (r: String) {
        self.author.clone()
    }
}

/// A short post by a named user.
pub struct Tweet {
    pub username: String,
    pub content: String,
    pub reply: bool,
    pub retweet: bool,
}

impl Summary for Tweet {
    open spec fn spec_author(&self) -> Seq<char> {
        "@"@ + self.username@
    }

    fn summarize_author(&self) -> (r: String) {
        let mut s = String::from_str("@");
        s.append(self.username.as_str());
        s
    }
}

} // verus!
