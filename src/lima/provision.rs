//! A provisioning step of the virtual machine.

use crate::text::{chars_of, lit, push_all, string_of};
use vstd::prelude::*;

verus! {

pub struct Provision {
    pub mode: String,
    pub script: String,
}

/// A step that runs `script` as the user or, else, as the system.
pub fn new(script: String, as_user: bool) -> (r: Provision)
    ensures
        r.mode@ == (if as_user {
            "user"@
        } else {
            "system"@
        }),
        r.script == script,
{
    let mode = if as_user {
        lit("user")
    } else {
        lit("system")
    };
    Provision { mode, script }
}

/// A script that writes `body` to the file `to` of the machine.
pub open spec fn dispatch_script(to: Seq<char>, body: Seq<char>) -> Seq<char> {
    "#!/bin/bash\ncat <<'EOF' > "@ + to + seq!['\n'] + body + "\nEOF\n"@
}

/// A system step that installs `body` as the file `to`.
pub fn dispatch(body: &str, to: &str) -> (r: Provision)
    ensures
        r.mode@ == "system"@,
        r.script@ == dispatch_script(to@, body@),
{
    let mut v = chars_of("#!/bin/bash\ncat <<'EOF' > ");
    let t = chars_of(to);
    push_all(&mut v, &t);
    v.push('\n');
    let b = chars_of(body);
    push_all(&mut v, &b);
    let tail = chars_of("\nEOF\n");
    push_all(&mut v, &tail);
    proof {
        assert(v@ =~= dispatch_script(to@, body@));
    }
    Provision { mode: lit("system"), script: string_of(&v) }
}

} // verus!
