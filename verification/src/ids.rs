//! Names of test runs and of the components that take part in them.

use vstd::prelude::*;

verus! {

/// A run of a test of a repository.
#[derive(Debug, Clone)]
pub struct TestRunId {
    pub test_repo_id: String,
    pub test_id: String,
    pub test_run_id: String,
}

/// What names a test run.
pub struct TestRunIdView {
    pub test_repo_id: Seq<char>,
    pub test_id: Seq<char>,
    pub test_run_id: Seq<char>,
}

impl View for TestRunId {
    type V = TestRunIdView;

    open spec fn view(&self) -> TestRunIdView {
        TestRunIdView {
            test_repo_id: self.test_repo_id@,
            test_id: self.test_id@,
            test_run_id: self.test_run_id@,
        }
    }
}

impl TestRunId {
    /// The run of a test of a repository.
    pub fn new(test_repo_id: &str, test_id: &str, test_run_id: &str) -> (r: TestRunId)
        ensures
            r@ == (TestRunIdView {
                test_repo_id: test_repo_id@,
                test_id: test_id@,
                test_run_id: test_run_id@,
            }),
    {
        TestRunId {
            test_repo_id: test_repo_id.to_owned(),
            test_id: test_id.to_owned(),
            test_run_id: test_run_id.to_owned(),
        }
    }

    /// A copy.
    pub fn copy(&self) -> (r: TestRunId)
        ensures
            r@ == self@,
    {
        TestRunId::new(self.test_repo_id.as_str(), self.test_id.as_str(), self.test_run_id.as_str())
    }
}

/// A reaction of a test run.
#[derive(Debug, Clone)]
pub struct TestRunReactionId {
    pub test_run_id: TestRunId,
    pub test_reaction_id: String,
}

impl TestRunReactionId {
    /// The reaction of that name of a test run.
    pub fn new(test_run_id: &TestRunId, test_reaction_id: &str) -> (r: TestRunReactionId)
        ensures
            r.test_run_id@ == test_run_id@,
            r.test_reaction_id@ == test_reaction_id@,
    {
        TestRunReactionId {
            test_run_id: test_run_id.copy(),
            test_reaction_id: test_reaction_id.to_owned(),
        }
    }
}

/// A source of a test run.
#[derive(Debug, Clone)]
pub struct TestRunSourceId {
    pub test_run_id: TestRunId,
    pub test_source_id: String,
}

/// What names a source of a test run.
pub struct TestRunSourceIdView {
    pub test_run_id: TestRunIdView,
    pub test_source_id: Seq<char>,
}

impl View for TestRunSourceId {
    type V = TestRunSourceIdView;

    open spec fn view(&self) -> TestRunSourceIdView {
        TestRunSourceIdView {
            test_run_id: self.test_run_id@,
            test_source_id: self.test_source_id@,
        }
    }
}

impl TestRunSourceId {
    /// The source of that name of a test run.
    pub fn new(test_run_id: &TestRunId, test_source_id: &str) -> (r: TestRunSourceId)
        ensures
            r@ == (TestRunSourceIdView {
                test_run_id: test_run_id@,
                test_source_id: test_source_id@,
            }),
    {
        TestRunSourceId {
            test_run_id: test_run_id.copy(),
            test_source_id: test_source_id.to_owned(),
        }
    }

    /// A copy.
    pub fn copy(&self) -> (r: TestRunSourceId)
        ensures
            r@ == self@,
    {
        TestRunSourceId::new(&self.test_run_id, self.test_source_id.as_str())
    }
}

/// A query of a test run.
#[derive(Debug, Clone)]
pub struct TestRunQueryId {
    pub test_run_id: TestRunId,
    pub test_query_id: String,
}

impl TestRunQueryId {
    /// The query of that name of a test run.
    pub fn new(test_run_id: &TestRunId, test_query_id: &str) -> (r: TestRunQueryId)
        ensures
            r.test_run_id@ == test_run_id@,
            r.test_query_id@ == test_query_id@,
    {
        TestRunQueryId {
            test_run_id: test_run_id.copy(),
            test_query_id: test_query_id.to_owned(),
        }
    }
}

/// An embedded instance of a test run.
#[derive(Debug, Clone)]
pub struct TestRunDrasiLibInstanceId {
    pub test_run_id: TestRunId,
    pub test_drasi_lib_instance_id: String,
}

impl TestRunDrasiLibInstanceId {
    /// The instance of that name of a test run.
    pub fn new(test_run_id: &TestRunId, test_drasi_lib_instance_id: &str) -> (r:
        TestRunDrasiLibInstanceId)
        ensures
            r.test_run_id@ == test_run_id@,
            r.test_drasi_lib_instance_id@ == test_drasi_lib_instance_id@,
    {
        TestRunDrasiLibInstanceId {
            test_run_id: test_run_id.copy(),
            test_drasi_lib_instance_id: test_drasi_lib_instance_id.to_owned(),
        }
    }
}

} // verus!
