//! What the operator asks for on the command line.
use vstd::prelude::*;

verus! {

/// The kind of workflow to dispatch.
#[derive(Debug, Clone, Copy, PartialEq, Eq, Structural)]
pub enum Workflow {
    Build,
    Deploy,
}

/// The name of `w` shown to the operator.
pub open spec fn workflow_label(w: Workflow) -> Seq<char> {
    match w {
        Workflow::Build => "Build"@,
        Workflow::Deploy => "Deploy"@,
    }
}

impl Workflow {
    /// The name shown to the operator.
    pub fn label(&self) -> (r: &'static str)
        ensures
            r@ == workflow_label(*self),
    {
        match self {
            Workflow::Build => "Build",
            Workflow::Deploy => "Deploy",
        }
    }
}

/// Command-line arguments.
#[derive(Debug)]
pub struct Args {
    /// Application name from the configuration.
    pub app: Option<String>,
    /// Workflow to run.
    pub workflow: Option<Workflow>,
    /// Do not wait for the workflow to complete.
    pub no_wait: bool,
}

} // verus!
