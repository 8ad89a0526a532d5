//! Runs `docker compose` for one project: the command lines it hands to the
//! process runner.

use crate::docker_compose::{compose_args, compose_command_line};
use crate::text::views;
use vstd::prelude::*;

verus! {

pub struct Runner {
    pub project_name: String,
    pub project_directory: String,
    pub files: Vec<String>,
    pub parallel: Option<i32>,
}

/// A command for the project `name` rooted at `dir`, with no files yet.
pub fn new(name: String, dir: String) -> (r: Runner)
    ensures
        r.project_name == name,
        r.project_directory == dir,
        r.files@.len() == 0,
        r.parallel is None,
{
    Runner { project_name: name, project_directory: dir, files: Vec::new(), parallel: None }
}

impl Runner {
    /// Adds a compose file after those added before.
    pub fn add_file(&mut self, file: String) -> (r: &mut Self)
        ensures
            r.files@ == old(self).files@.push(file),
            r.project_name == old(self).project_name,
            r.project_directory == old(self).project_directory,
            r.parallel == old(self).parallel,
            *final(self) == *final(r),
    {
        self.files.push(file);
        self
    }

    /// Limits how many containers the tool handles at once.
    pub fn set_parallel(&mut self, parallel: i32) -> (r: &mut Self)
        ensures
            r.parallel == Some(parallel),
            r.files == old(self).files,
            r.project_name == old(self).project_name,
            r.project_directory == old(self).project_directory,
            *final(self) == *final(r),
    {
        self.parallel = Some(parallel);
        self
    }

    /// The command line that lists the project's containers.
    pub fn ps(&self) -> (r: Vec<String>)
        ensures
            views(r@) == compose_command_line(
                "ps"@,
                self.project_name@,
                self.project_directory@,
                views(self.files@),
                self.parallel,
            ),
    {
        self.make_command("ps")
    }

    /// The command line of the subcommand `name`.
    pub fn make_command(&self, name: &str) -> (r: Vec<String>)
        ensures
            views(r@) == compose_command_line(
                name@,
                self.project_name@,
                self.project_directory@,
                views(self.files@),
                self.parallel,
            ),
    {
        compose_args(name, &self.project_name, &self.project_directory, &self.files, self.parallel)
    }
}

} // verus!
