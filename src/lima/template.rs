//! The machine template: architecture and image.

pub mod provision_files;

use crate::text::{lit, same};
use vstd::prelude::*;

verus! {

pub open spec fn x86_image() -> Seq<char> {
    "https://cloud-images.ubuntu.com/releases/22.04/release/ubuntu-22.04-server-cloudimg-amd64.img"@
}

pub open spec fn arm_image() -> Seq<char> {
    "https://cloud-images.ubuntu.com/releases/22.04/release/ubuntu-22.04-server-cloudimg-arm64.img"@
}

/// The architecture name of the image for what `uname -m` reports, if supported.
pub fn arch_of(machine: &str) -> (r: Option<String>)
    ensures
        machine@ == "x86_64"@ ==> r is Some && r->0@ == "x86_64"@,
        machine@ == "arm64"@ ==> r is Some && r->0@ == "aarch64"@,
        machine@ != "x86_64"@ && machine@ != "arm64"@ ==> r is None,
{
    proof {
        reveal_strlit("x86_64");
        reveal_strlit("arm64");
        assert("x86_64"@.len() != "arm64"@.len());
    }
    if same(machine, "x86_64") {
        Some(lit("x86_64"))
    } else if same(machine, "arm64") {
        Some(lit("aarch64"))
    } else {
        None
    }
}

/// The cloud image of the architecture `arch`.
pub fn image_url_for(arch: &str) -> (r: String)
    requires
        arch@ == "x86_64"@ || arch@ == "aarch64"@,
    ensures
        arch@ == "x86_64"@ ==> r@ == x86_image(),
        arch@ == "aarch64"@ ==> r@ == arm_image(),
{
    proof {
        reveal_strlit("x86_64");
        reveal_strlit("aarch64");
        assert("x86_64"@.len() != "aarch64"@.len());
    }
    if same(arch, "x86_64") {
        lit("https://cloud-images.ubuntu.com/releases/22.04/release/ubuntu-22.04-server-cloudimg-amd64.img")
    } else {
        lit("https://cloud-images.ubuntu.com/releases/22.04/release/ubuntu-22.04-server-cloudimg-arm64.img")
    }
}

} // verus!
