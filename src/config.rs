//! Workflow references named in the configuration.
use vstd::prelude::*;
use vstd::string::*;
use crate::cli::Workflow;

verus! {

/// A workflow of a repository.
#[derive(Debug)]
pub struct WorkflowRef {
    /// Repository owner.
    pub owner: String,
    /// Repository name.
    pub repo: String,
    /// Workflow file name, such as `build.yml`.
    pub workflow: String,
}

/// The workflows configured for one application.
#[derive(Debug)]
pub struct AppConfig {
    pub build: WorkflowRef,
    pub deploy: WorkflowRef,
}

/// A configuration entry that cannot be used.
#[derive(Debug, PartialEq, Eq)]
pub enum ConfigError {
    /// A repository not written `owner/repo`; carries what was written.
    InvalidRepo(String),
}

/// Index of the first `/` in `s`, if any.
pub open spec fn first_slash(s: Seq<char>) -> Option<int> {
    if exists|i: int| 0 <= i < s.len() && s[i] == '/' {
        Some(choose|i: int| 0 <= i < s.len() && s[i] == '/' && forall|j: int| 0 <= j < i ==> #[trigger] s[j] != '/')
    } else {
        None
    }
}

proof fn lemma_first_slash_is(s: Seq<char>, i: int)
    requires
        0 <= i < s.len(),
        s[i] == '/',
        forall|j: int| 0 <= j < i ==> #[trigger] s[j] != '/',
    ensures
        first_slash(s) == Some(i),
{
    let k = choose|k: int| 0 <= k < s.len() && s[k] == '/' && forall|j: int| 0 <= j < k ==> #[trigger] s[j] != '/';
    if k < i {
        assert(s[k] != '/');
    } else if i < k {
        assert(s[i] != '/');
    }
}

impl WorkflowRef {
    /// Builds a reference from a repository written `owner/repo` (split at the
    /// first `/`) and a workflow file name.
    pub fn parse(repo: &str, workflow: String) -> (r: Result<WorkflowRef, ConfigError>)
        ensures
            match first_slash(repo@) {
                Some(i) => r matches Ok(w) && w.owner@ == repo@.subrange(0, i) && w.repo@
                    == repo@.subrange(i + 1, repo@.len() as int) && w.workflow == workflow,
                None => r matches Err(ConfigError::InvalidRepo(s)) && s@ == repo@,
            },
    {
        let n = repo.unicode_len();
        let mut i: usize = 0;
        while i < n
            invariant
                n == repo@.len(),
                i <= n,
                forall|j: int| 0 <= j < i ==> #[trigger] repo@[j] != '/',
            decreases n - i,
        {
            if repo.get_char(i) == '/' {
                proof {
                    lemma_first_slash_is(repo@, i as int);
                }
                let owner = repo.substring_char(0, i).to_owned();
                let name = repo.substring_char(i + 1, n).to_owned();
                return Ok(WorkflowRef { owner, repo: name, workflow });
            }
            i = i + 1;
        }
        Err(ConfigError::InvalidRepo(repo.to_owned()))
    }
}

impl AppConfig {
    /// The configured reference of workflow `w`.
    pub fn workflow_ref(&self, w: Workflow) -> (r: &WorkflowRef)
        ensures
            r == (match w {
                Workflow::Build => &self.build,
                Workflow::Deploy => &self.deploy,
            }),
    {
        match w {
            Workflow::Build => &self.build,
            Workflow::Deploy => &self.deploy,
        }
    }
}

} // verus!
