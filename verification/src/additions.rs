//! Bringing repositories into a project, one after the other until one fails.
use vstd::prelude::*;
use vstd::string::*;

use crate::effects::{RepositoryMode, RepositorySource};

verus! {

/// What brings a repository into a project.
#[derive(Debug)]
pub enum AdditionStep {
    Link { path: String },
    Copy { path: String },
    Download { url: String },
}

/// What brings a source into a project: a repository on disk is linked or copied.
pub open spec fn step_for(source: RepositorySource, mode: RepositoryMode) -> AdditionStep {
    match source {
        RepositorySource::Local { path } => match mode {
            RepositoryMode::Link => AdditionStep::Link { path },
            RepositoryMode::Copy => AdditionStep::Copy { path },
        },
        RepositorySource::Github { url } => AdditionStep::Download { url },
    }
}

/// What a source is called: its path or its address.
pub open spec fn source_name(source: RepositorySource) -> String {
    match source {
        RepositorySource::Local { path } => path,
        RepositorySource::Github { url } => url,
    }
}

/// The sources for a project and how far they have got.
#[derive(Debug)]
pub struct Additions {
    pub sources: Vec<RepositorySource>,
    pub mode: RepositoryMode,
    pub done: usize,
    pub error: Option<String>,
}

impl Additions {
    /// The source whose turn it is; none once all are done or one failed.
    pub open spec fn current(&self) -> Option<RepositorySource> {
        if self.error is None && self.done < self.sources@.len() {
            Some(self.sources@[self.done as int])
        } else {
            None
        }
    }

    /// The sources that are in the project.
    pub open spec fn finished(&self) -> Seq<RepositorySource> {
        if self.done <= self.sources@.len() {
            self.sources@.take(self.done as int)
        } else {
            self.sources@
        }
    }

    /// `after` is `before` with a step ended: the source is done, or nothing
    /// comes after it.
    pub open spec fn advances(before: Self, after: Self, result: Result<(), String>) -> bool {
        after == match (before.current(), result) {
            (None, _) => before,
            (Some(_), Ok(())) => Additions { done: (before.done + 1) as usize, ..before },
            (Some(_), Err(error)) => Additions { error: Some(error), ..before },
        }
    }

    pub fn new(sources: Vec<RepositorySource>, mode: RepositoryMode) -> (result: Self)
        ensures
            result == (Additions { sources, mode, done: 0, error: None }),
    {
        Additions { sources, mode, done: 0, error: None }
    }

    /// The next step, where there is one.
    pub fn next_step(&self) -> (result: Option<AdditionStep>)
        ensures
            result == match self.current() {
                Some(source) => Some(step_for(source, self.mode)),
                None => None,
            },
    {
        if self.error.is_some() || self.done >= self.sources.len() {
            return None;
        }
        Some(
            match &self.sources[self.done] {
                RepositorySource::Local { path } => match self.mode {
                    RepositoryMode::Link => AdditionStep::Link { path: path.clone() },
                    RepositoryMode::Copy => AdditionStep::Copy { path: path.clone() },
                },
                RepositorySource::Github { url } => AdditionStep::Download { url: url.clone() },
            },
        )
    }

    /// The step ended.
    pub fn finish_step(&mut self, result: Result<(), String>)
        ensures
            Self::advances(*old(self), *final(self), result),
    {
        if self.error.is_some() || self.done >= self.sources.len() {
            return ;
        }
        match result {
            Ok(()) => {
                self.done = self.done + 1;
            },
            Err(error) => {
                self.error = Some(error);
            },
        }
    }

    /// The names of the sources that are in the project.
    pub fn completed(&self) -> (result: Vec<String>)
        ensures
            result@ == self.finished().map_values(|source: RepositorySource| source_name(source)),
    {
        let mut result: Vec<String> = Vec::new();
        let mut index: usize = 0;
        while index < self.done && index < self.sources.len()
            invariant
                index <= self.sources@.len(),
                index <= self.done,
                result@ == self.sources@.take(index as int).map_values(
                    |source: RepositorySource| source_name(source),
                ),
            decreases self.sources@.len() - index,
        {
            let name = match &self.sources[index] {
                RepositorySource::Local { path } => path.clone(),
                RepositorySource::Github { url } => url.clone(),
            };
            result.push(name);
            index += 1;
            assert(result@ =~= self.sources@.take(index as int).map_values(
                |source: RepositorySource| source_name(source),
            ));
        }
        assert(self.sources@.take(index as int) =~= self.finished());
        result
    }
}

/// Sources are brought in one by one in their order. One that fails is the last,
/// and those before it stay.
pub proof fn law_additions_in_order(
    before: Additions,
    after: Additions,
    source: RepositorySource,
    result: Result<(), String>,
)
    requires
        before.current() == Some(source),
        Additions::advances(before, after, result),
    ensures
        result is Ok ==> after.finished() == before.finished().push(source) && after.error is None,
        result is Err ==> after.finished() == before.finished() && after.current() is None,
{
    if result is Ok {
        assert(before.sources@.len() == before.sources.len());
        assert(after.finished() =~= before.finished().push(source));
    }
}

/// A folder is linked or copied as the user chose, under its own path; what is on
/// GitHub is downloaded, whatever was chosen for folders.
pub proof fn law_steps(source: RepositorySource, mode: RepositoryMode)
    ensures
        source matches RepositorySource::Local { path } ==> {
            &&& mode == RepositoryMode::Link ==> step_for(source, mode) == (AdditionStep::Link {
                path,
            })
            &&& mode == RepositoryMode::Copy ==> step_for(source, mode) == (AdditionStep::Copy {
                path,
            })
            &&& source_name(source) == path
        },
        source matches RepositorySource::Github { url } ==> step_for(source, mode) == (
        AdditionStep::Download { url }) && source_name(source) == url,
{
}

} // verus!
