use vstd::prelude::*;

verus! {

/// What can go wrong when the interpreter runs source text or a value
/// crosses the boundary: a parse failure of the source, a script-level
/// runtime failure, or a value that cannot be represented on the other side.
/// Each carries a human-readable diagnostic.
#[derive(Debug, PartialEq)]
pub enum ScriptError {
    Parse(String),
    Runtime(String),
    Conversion(String),
}

impl ScriptError {
    /// The diagnostic text.
    pub fn text(&self) -> (r: String)
        ensures
            r@ == self.text_view(),
    {
        match self {
            ScriptError::Parse(s) => s.clone(),
            ScriptError::Runtime(s) => s.clone(),
            ScriptError::Conversion(s) => s.clone(),
        }
    }

    pub open spec fn text_view(self) -> Seq<char> {
        match self {
            ScriptError::Parse(s) => s@,
            ScriptError::Runtime(s) => s@,
            ScriptError::Conversion(s) => s@,
        }
    }
}

} // verus!
