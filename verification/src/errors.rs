//! Error values shared across the crate.

use vstd::prelude::*;

verus! {

/// An error tied to a configured path that breaks a structural constraint,
/// such as an HTML path that names a directory.
#[derive(Debug)]
pub struct PathError {
    pub path: String,
    pub text: String,
}

impl PathError {
    /// Builds the error for `path` with the explanation `text`.
    pub fn new(path: String, text: String) -> (r: PathError)
        ensures
            r.path@ == path@,
            r.text@ == text@,
    {
        PathError { path, text }
    }

    /// A single line naming the path and what is wrong with it.
    pub fn describe(&self) -> (r: String)
        ensures
            r@ == seq!['p', 'a', 't', 'h', ' '] + self.path@ + seq![':', ' '] + self.text@,
    {
        let mut out: Vec<char> = vec!['p', 'a', 't', 'h', ' '];
        let p = crate::text::str_chars(self.path.as_str());
        crate::text::push_all(&mut out, &p);
        out.push(':');
        out.push(' ');
        let t = crate::text::str_chars(self.text.as_str());
        crate::text::push_all(&mut out, &t);
        assert(out@ =~= seq!['p', 'a', 't', 'h', ' '] + self.path@ + seq![':', ' ']
            + self.text@);
        crate::text::chars_string(&out)
    }
}

/// The crate's failure cases, each carried as plain values.
#[derive(Debug)]
pub enum GenericError {
    /// A path broke a structural constraint.
    PathError(PathError),
    /// A text that could not be handled, with its explanation.
    StrError(String),
}

impl GenericError {
    /// A single line saying what went wrong.
    pub fn describe(&self) -> (r: String)
        ensures
            (match self {
                GenericError::PathError(e) => r@ == seq!['p', 'a', 't', 'h', ' '] + e.path@ + seq![
                    ':',
                    ' ',
                ] + e.text@,
                GenericError::StrError(s) => r@ == s@,
            }),
    {
        match self {
            GenericError::PathError(e) => e.describe(),
            GenericError::StrError(s) => s.clone(),
        }
    }
}

} // verus!
