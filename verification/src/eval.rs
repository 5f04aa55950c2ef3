//! Reading the result of a plugin's evaluation, which is tagged either as lint
//! output or as test output.
use vstd::prelude::*;

verus! {

/// What kind of output an evaluation produced.
#[derive(Copy, Clone, Debug, PartialEq, Eq, Structural)]
pub enum OutputType {
    Lint,
    Test,
}

impl OutputType {
    /// The marker scripts compare output types with.
    pub fn marker(&self) -> (r: &'static str)
        ensures
            r@ == (match self {
                OutputType::Lint => "__test_type_lint"@,
                OutputType::Test => "__test_type_test"@,
            }),
    {
        match self {
            OutputType::Lint => "__test_type_lint",
            OutputType::Test => "__test_type_test",
        }
    }

    /// The key the output is stored under.
    pub fn key(&self) -> (r: &'static str)
        ensures
            r@ == (match self {
                OutputType::Lint => "Lint"@,
                OutputType::Test => "Test"@,
            }),
    {
        match self {
            OutputType::Lint => "Lint",
            OutputType::Test => "Test",
        }
    }
}

/// The type of an evaluation result from the keys it has: lint output when it
/// has a `Lint` key, else test output when it has a `Test` key, else none.
pub fn get_output_type(has_lint: bool, has_test: bool) -> (r: Option<OutputType>)
    ensures
        r == (if has_lint {
            Some(OutputType::Lint)
        } else if has_test {
            Some(OutputType::Test)
        } else {
            None
        }),
{
    if has_lint {
        Some(OutputType::Lint)
    } else if has_test {
        Some(OutputType::Test)
    } else {
        None
    }
}

} // verus!
