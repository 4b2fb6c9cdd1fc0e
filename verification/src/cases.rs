//! The public [`TestCases`] builder: the value users construct and register
//! cases on.
use vstd::prelude::*;

use crate::model::{Expected, Test};

verus! {

/// A collection of ui test cases to compile and check.
///
/// Register files with [`pass`](Self::pass) and
/// [`compile_fail`](Self::compile_fail); the registrations are kept in
/// declaration order.
pub struct TestCases {
    tests: Vec<Test>,
}

impl View for TestCases {
    type V = Seq<(Seq<char>, Expected)>;

    closed spec fn view(&self) -> Seq<(Seq<char>, Expected)> {
        self.tests@.map_values(|t: Test| (t.path@, t.expected))
    }
}

impl TestCases {
    /// Creates an empty set of test cases.
    pub fn new() -> (r: TestCases)
        ensures
            r@ == Seq::<(Seq<char>, Expected)>::empty(),
    {
        let r = TestCases { tests: Vec::new() };
        assert(r@ =~= Seq::<(Seq<char>, Expected)>::empty());
        r
    }

    /// Registers a test file that is expected to compile successfully; the
    /// resulting binary is also run, and must exit without panicking.
    pub fn pass(&mut self, path: &str)
        ensures
            final(self)@ == old(self)@.push((path@, Expected::Pass)),
    {
        self.push(path.to_owned(), Expected::Pass);
    }

    /// Registers a test file that is expected to fail compilation; its
    /// diagnostics must match the adjacent `.stderr` snapshot.
    pub fn compile_fail(&mut self, path: &str)
        ensures
            final(self)@ == old(self)@.push((path@, Expected::CompileFail)),
    {
        self.push(path.to_owned(), Expected::CompileFail);
    }

    /// Appends one registration to the set.
    fn push(&mut self, path: String, expected: Expected)
        ensures
            final(self)@ == old(self)@.push((path@, expected)),
    {
        let ghost before = self.tests@;
        self.tests.push(Test { path, expected });
        assert(self.tests@ == before.push(Test { path, expected }));
        assert(self@ =~= old(self)@.push((path@, expected)));
    }

    /// The registrations, in declaration order.
    pub fn tests(&self) -> (r: &Vec<Test>)
        ensures
            r@.map_values(|t: Test| (t.path@, t.expected)) == self@,
    {
        &self.tests
    }
}

impl Default for TestCases {
    fn default() -> (r: TestCases)
        ensures
            r@ == Seq::<(Seq<char>, Expected)>::empty(),
    {
        TestCases::new()
    }
}

} // verus!
