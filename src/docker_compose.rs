//! The parts of a compose document that synthesis reads and writes, and the
//! command lines of the compose tool. Maps of a document are kept as lists of
//! entries, in document order.

pub mod command;
pub mod runner;

use crate::text::{copy, lit, signed_decimal, signed_decimal_string, views};
use vstd::prelude::*;

verus! {

/// A compose document.
pub struct Yaml {
    pub version: Option<String>,
    pub services: Option<Vec<(String, Service)>>,
    pub networks: Option<Vec<(String, Network)>>,
}

/// One service of a compose document.
pub struct Service {
    pub container_name: Option<String>,
    pub build: Option<ServiceBuild>,
    pub volumes: Option<Vec<String>>,
    pub ports: Option<Vec<String>>,
    pub networks: Option<ServiceNetworkable>,
    pub dns: Option<Vec<u32>>,
    pub tty: Option<String>,
    pub stdin_open: Option<String>,
}

/// How a service's image is built.
pub struct ServiceBuild {
    pub context: Option<String>,
    pub dockerfile: Option<String>,
}

/// The networks of a service: names only, or each with its settings.
pub enum ServiceNetworkable {
    List(Vec<String>),
    Mapping(Vec<(String, Network)>),
}

/// A network, as declared at the top level or as joined by a service.
pub struct Network {
    pub external: Option<bool>,
    pub ipv4_address: Option<u32>,
    pub aliases: Option<Vec<String>>,
}

/// `-f {file}` for each file, in order.
pub open spec fn file_flags(files: Seq<Seq<char>>) -> Seq<Seq<char>>
    decreases files.len(),
{
    if files.len() == 0 {
        Seq::empty()
    } else {
        file_flags(files.drop_last()) + seq!["-f"@, files.last()]
    }
}

/// `docker compose {sub} -p {project} --project-directory {dir}`, then the
/// files, then `--parallel {n}` where a limit is set.
pub open spec fn compose_command_line(
    sub: Seq<char>,
    project: Seq<char>,
    dir: Seq<char>,
    files: Seq<Seq<char>>,
    parallel: Option<i32>,
) -> Seq<Seq<char>> {
    seq!["docker"@, "compose"@, sub, "-p"@, project, "--project-directory"@, dir] + file_flags(files)
        + match parallel {
        Some(n) => seq!["--parallel"@, signed_decimal(n as int)],
        None => Seq::empty(),
    }
}

/// The command line of `docker compose {sub}` for a project.
pub fn compose_args(
    sub: &str,
    project: &String,
    dir: &String,
    files: &Vec<String>,
    parallel: Option<i32>,
) -> (r: Vec<String>)
    ensures
        views(r@) == compose_command_line(sub@, project@, dir@, views(files@), parallel),
{
    let mut args: Vec<String> = Vec::new();
    args.push(lit("docker"));
    args.push(lit("compose"));
    args.push(lit(sub));
    args.push(lit("-p"));
    args.push(copy(project));
    args.push(lit("--project-directory"));
    args.push(copy(dir));
    let ghost head = views(args@);
    proof {
        assert(head =~= seq!["docker"@, "compose"@, sub@, "-p"@, project@, "--project-directory"@, dir@]);
        assert(views(files@).subrange(0, 0) =~= Seq::<Seq<char>>::empty());
    }
    let mut i: usize = 0;
    while i < files.len()
        invariant
            i <= files@.len(),
            views(args@) == head + file_flags(views(files@).subrange(0, i as int)),
        decreases files@.len() - i,
    {
        let ghost prev = views(args@);
        args.push(lit("-f"));
        args.push(copy(&files[i]));
        proof {
            let fs = views(files@).subrange(0, i + 1);
            assert(fs.drop_last() =~= views(files@).subrange(0, i as int));
            assert(fs.last() == files@[i as int]@);
            assert(views(args@) =~= prev + seq!["-f"@, files@[i as int]@]);
            assert(views(args@) =~= head + file_flags(fs));
        }
        i = i + 1;
    }
    proof {
        assert(views(files@).subrange(0, i as int) =~= views(files@));
    }
    let ghost body = views(args@);
    match parallel {
        Some(n) => {
            args.push(lit("--parallel"));
            args.push(signed_decimal_string(n));
            proof {
                assert(views(args@) =~= body + seq!["--parallel"@, signed_decimal(n as int)]);
            }
        },
        None => {
            proof {
                assert(body + Seq::<Seq<char>>::empty() =~= body);
            }
        },
    }
    args
}

} // verus!
