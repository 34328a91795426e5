//! What can go wrong in the sample code.

use vstd::prelude::*;

verus! {

#[derive(Debug, PartialEq, Eq)]
pub enum TestError {
    /// A container is full; the number is its capacity.
    CapacityExceeded(usize),
    NotFound(&'static str),
    Parse(String),
}

impl TestError {
    /// What is told of the error.
    pub open spec fn text(self) -> Seq<char> {
        match self {
            TestError::CapacityExceeded(max) => "capacity exceeded: max "@ + crate::text::decimal(
                max as nat,
            ),
            TestError::NotFound(what) => "not found: "@ + what@,
            TestError::Parse(what) => "parse error: "@ + what@,
        }
    }

    /// What is told of the error.
    pub fn message(&self) -> (r: String)
        ensures
            r@ == self.text(),
    {
        match self {
            TestError::CapacityExceeded(max) => {
                let mut out = "capacity exceeded: max ".to_string();
                crate::text::push_decimal(&mut out, *max as u64);
                out
            },
            TestError::NotFound(what) => {
                let mut out = "not found: ".to_string();
                out.push_str(what);
                out
            },
            TestError::Parse(what) => {
                let mut out = "parse error: ".to_string();
                out.push_str(what.as_str());
                out
            },
        }
    }
}

} // verus!
