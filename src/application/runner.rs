//! Runs the compose tool on an application with its derived files.

use crate::docker_compose::command::{self, Command};
use crate::docker_compose::compose_command_line;
use crate::text::{copy, views};
use vstd::prelude::*;

verus! {

pub struct Runner {
    pub name: String,
    pub root: String,
    pub files: Vec<String>,
}

/// A runner for the application `name`, whose repository is at `root`, with
/// its compose files.
pub fn new(name: String, root: String, files: Vec<String>) -> (r: Runner)
    ensures
        r.name == name,
        r.root == root,
        r.files == files,
{
    Runner { name, root, files }
}

impl Runner {
    /// The command line that lists the application's containers.
    pub fn ps(&self) -> (r: Vec<String>)
        ensures
            views(r@) == compose_command_line("ps"@, self.name@, self.root@, views(self.files@), None),
    {
        let cmd = self.make_command();
        cmd.ps()
    }

    /// A compose command for the application with each of its files.
    fn make_command(&self) -> (r: Command)
        ensures
            r.project_name@ == self.name@,
            r.project_directory@ == self.root@,
            views(r.files@) == views(self.files@),
            r.parallel is None,
    {
        let mut cmd = command::new(copy(&self.name), copy(&self.root));
        let mut i: usize = 0;
        while i < self.files.len()
            invariant
                i <= self.files@.len(),
                cmd.project_name@ == self.name@,
                cmd.project_directory@ == self.root@,
                cmd.parallel is None,
                views(cmd.files@) == views(self.files@).subrange(0, i as int),
            decreases self.files@.len() - i,
        {
            let ghost before = cmd.files@;
            let f = copy(&self.files[i]);
            cmd.add_file(f);
            proof {
                assert(cmd.files@ == before.push(f));
                assert(views(before.push(f)) =~= views(before).push(f@));
                assert(views(cmd.files@) =~= views(self.files@).subrange(0, i + 1));
            }
            i = i + 1;
        }
        proof {
            assert(views(self.files@).subrange(0, i as int) =~= views(self.files@));
        }
        cmd
    }
}

} // verus!
