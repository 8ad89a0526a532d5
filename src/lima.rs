//! The virtual machine that hosts the containers.

pub mod command;
pub mod provision;
pub mod template;

use crate::text::{concat, copy, lit};
use vstd::prelude::*;

verus! {

pub struct Lima {
    pub path: String,
    pub os: String,
    pub name: String,
    pub cpus: u32,
    pub memory: String,
    pub disk: String,
    pub ssh_port: u32,
}

/// The machine `hills`, running Linux, with the given resources.
pub fn new(path: String, cpus: u32, memory: String, disk: String, ssh_port: u32) -> (r: Lima)
    ensures
        r.path == path,
        r.os@ == "Linux"@,
        r.name@ == "hills"@,
        r.cpus == cpus,
        r.memory == memory,
        r.disk == disk,
        r.ssh_port == ssh_port,
{
    Lima { path, os: lit("Linux"), name: lit("hills"), cpus, memory, disk, ssh_port }
}

impl Lima {
    pub fn os(&self) -> (r: String)
        ensures
            r@ == self.os@,
    {
        copy(&self.os)
    }

    /// The instance name: `{name}-lima`.
    pub fn name(&self) -> (r: String)
        ensures
            r@ == self.name@ + "-lima"@,
    {
        concat(self.name.as_str(), "-lima")
    }
}

} // verus!
