//! One managed application: its configuration template, and the cache of
//! derived artifacts kept in its own directory.

pub mod docker_compose;
pub mod runner;

use crate::text::{chars_of, lit, opt_view, push_all, string_of};
use vstd::prelude::*;

verus! {

/// The configuration file of a new application.
pub open spec fn template_text() -> Seq<char> {
    "# Relative path to the repository directory from not applications directory but root.\npath = \"\"\n\n# URL for the repository\nrepository = \"\"\n"@
}

/// The configuration file written for a new application.
pub fn template() -> (r: String)
    ensures
        r@ == template_text(),
{
    lit("# Relative path to the repository directory from not applications directory but root.\npath = \"\"\n\n# URL for the repository\nrepository = \"\"\n")
}

/// `{label}.{domain}`, where the label is the application's alias if it has
/// one, else its name.
pub open spec fn domain_for(name: Seq<char>, alias: Option<Seq<char>>, domain: Seq<char>) -> Seq<char> {
    let label = match alias {
        Some(a) => a,
        None => name,
    };
    label + seq!['.'] + domain
}

/// The domain under which the application's services are published.
pub fn domain(name: &String, alias: &Option<String>, root_domain: &str) -> (r: String)
    ensures
        r@ == domain_for(name@, opt_view(*alias), root_domain@),
{
    let mut v = match alias {
        Some(a) => chars_of(a.as_str()),
        None => chars_of(name.as_str()),
    };
    v.push('.');
    let d = chars_of(root_domain);
    push_all(&mut v, &d);
    proof {
        assert(v@ =~= domain_for(name@, opt_view(*alias), root_domain@));
    }
    string_of(&v)
}

/// Length of a content hash in hexadecimal (SHA-256).
pub const HASH_LEN: usize = 64;

pub open spec fn yml_suffix() -> Seq<char> {
    seq!['.', 'y', 'm', 'l']
}

/// Name of the sanitized artifact of a manifest whose content hash is `hash`.
pub open spec fn artifact_for(hash: Seq<char>) -> Seq<char> {
    hash + yml_suffix()
}

/// Name of the override artifact.
pub open spec fn override_file() -> Seq<char> {
    seq!['o', 'v', 'e', 'r', 'r', 'i', 'd', 'e', '.', 'y', 'm', 'l']
}

/// The files of an application's artifact directory, as a set of names.
pub open spec fn dir_of(files: Seq<String>) -> Set<Seq<char>> {
    Set::new(|f: Seq<char>| exists|i: int| 0 <= i < files.len() && files[i]@ == f)
}

/// The artifacts are current: the one named by the manifest's hash exists.
pub open spec fn up_to_date(dir: Set<Seq<char>>, hash: Seq<char>) -> bool {
    dir.contains(artifact_for(hash))
}

/// The directory after a synthesis: unchanged when it is current and not
/// forced, else exactly the new sanitized artifact and the override.
pub open spec fn synced(dir: Set<Seq<char>>, hash: Seq<char>, force: bool) -> Set<Seq<char>> {
    if up_to_date(dir, hash) && !force {
        dir
    } else {
        set![artifact_for(hash), override_file()]
    }
}

/// What one synthesis must do to an application's artifact directory.
pub enum SyncPlan {
    /// The artifacts match the manifest: nothing to do.
    UpToDate,
    /// Write the sanitized manifest to `artifact`, then remove the `stale`
    /// files, then write the override.
    Regenerate { artifact: String, stale: Vec<String> },
}

/// The directory once `plan` has been carried out.
pub open spec fn after_plan(dir: Set<Seq<char>>, plan: SyncPlan) -> Set<Seq<char>> {
    match plan {
        SyncPlan::UpToDate => dir,
        SyncPlan::Regenerate { artifact, stale } => dir.insert(artifact@).difference(
            dir_of(stale@),
        ).insert(override_file()),
    }
}

/// Name of the sanitized artifact for the content hash `hash`.
pub fn artifact_name(hash: &str) -> (r: String)
    ensures
        r@ == artifact_for(hash@),
{
    let mut v = chars_of(hash);
    let suffix = vec!['.', 'y', 'm', 'l'];
    push_all(&mut v, &suffix);
    proof {
        assert(v@ =~= artifact_for(hash@));
    }
    string_of(&v)
}

/// Whether the artifact directory holding `files` has the artifact for `hash`.
pub fn is_up_to_date(hash: &str, files: &Vec<String>) -> (r: bool)
    ensures
        r == up_to_date(dir_of(files@), hash@),
{
    let name = artifact_name(hash);
    let mut i: usize = 0;
    while i < files.len()
        invariant
            name@ == artifact_for(hash@),
            i <= files@.len(),
            forall|j: int| 0 <= j < i ==> files@[j]@ != name@,
        decreases files@.len() - i,
    {
        if files[i] == name {
            proof {
                assert(dir_of(files@).contains(name@));
            }
            return true;
        }
        i = i + 1;
    }
    false
}

/// Decides what a synthesis of the manifest with content hash `hash` does,
/// given the files of the artifact directory: nothing when the artifact for
/// the hash is there and `force` is false, else write that artifact and remove
/// every other file.
pub fn plan_sync(hash: &str, files: &Vec<String>, force: bool) -> (r: SyncPlan)
    ensures
        r is UpToDate <==> up_to_date(dir_of(files@), hash@) && !force,
        r is Regenerate ==> r->artifact@ == artifact_for(hash@),
        r is Regenerate ==> dir_of(r->stale@) == dir_of(files@).remove(artifact_for(hash@)),
        after_plan(dir_of(files@), r) == synced(dir_of(files@), hash@, force),
{
    if !force && is_up_to_date(hash, files) {
        return SyncPlan::UpToDate;
    }
    let artifact = artifact_name(hash);
    let mut stale: Vec<String> = Vec::new();
    let mut i: usize = 0;
    while i < files.len()
        invariant
            artifact@ == artifact_for(hash@),
            i <= files@.len(),
            forall|f: Seq<char>|
                dir_of(stale@).contains(f) <==> (exists|j: int|
                    0 <= j < i && files@[j]@ == f) && f != artifact@,
        decreases files@.len() - i,
    {
        let ghost before = stale@;
        if files[i] != artifact {
            stale.push(string_of(&chars_of(files[i].as_str())));
        }
        proof {
            assert forall|f: Seq<char>|
                dir_of(stale@).contains(f) <==> (exists|j: int|
                    0 <= j < i + 1 && files@[j]@ == f) && f != artifact@ by {
                if dir_of(stale@).contains(f) {
                    let k = choose|k: int| 0 <= k < stale@.len() && stale@[k]@ == f;
                    if k < before.len() {
                        assert(dir_of(before).contains(f));
                    } else {
                        assert(files@[i as int]@ == f);
                    }
                }
                if (exists|j: int| 0 <= j < i + 1 && files@[j]@ == f) && f != artifact@ {
                    let j = choose|j: int| 0 <= j < i + 1 && files@[j]@ == f;
                    if j < i {
                        assert(dir_of(before).contains(f));
                        let k = choose|k: int| 0 <= k < before.len() && before[k]@ == f;
                        assert(stale@[k] == before[k]);
                    } else {
                        assert(stale@[stale@.len() - 1]@ == f);
                    }
                }
            }
        }
        i = i + 1;
    }
    let ghost dir = dir_of(files@);
    proof {
        assert(dir_of(stale@) =~= dir.remove(artifact@));
        let r = SyncPlan::Regenerate { artifact, stale };
        assert(after_plan(dir, r) =~= set![artifact_for(hash@), override_file()]);
    }
    SyncPlan::Regenerate { artifact, stale }
}

/// A synthesis that follows another with the same manifest changes nothing:
/// after any synthesis the artifacts are current for that manifest's hash.
pub proof fn lemma_sync_idempotent(dir: Set<Seq<char>>, hash: Seq<char>, force: bool)
    ensures
        up_to_date(synced(dir, hash, force), hash),
        synced(synced(dir, hash, force), hash, false) == synced(dir, hash, force),
{
}

/// After the manifest's content changes, one synthesis replaces the artifact
/// that the previous synthesis wrote by the new one: the old name is gone and
/// the override is the only other file.
pub proof fn lemma_hash_change_replaces_artifact(old_hash: Seq<char>, new_hash: Seq<char>)
    requires
        old_hash.len() == HASH_LEN,
        new_hash.len() == HASH_LEN,
        old_hash != new_hash,
    ensures
        ({
            let before = synced(Set::empty(), old_hash, true);
            let after = synced(before, new_hash, false);
            &&& after.contains(artifact_for(new_hash))
            &&& !after.contains(artifact_for(old_hash))
            &&& after.remove(override_file()) == set![artifact_for(new_hash)]
        }),
{
    let before = synced(Set::empty(), old_hash, true);
    assert(artifact_for(old_hash).subrange(0, HASH_LEN as int) =~= old_hash);
    assert(artifact_for(new_hash).subrange(0, HASH_LEN as int) =~= new_hash);
    assert(artifact_for(new_hash) != override_file()) by {
        assert(artifact_for(new_hash).len() != override_file().len());
    }
    assert(!up_to_date(before, new_hash));
    let after = synced(before, new_hash, false);
    assert(after.remove(override_file()) =~= set![artifact_for(new_hash)]);
}

} // verus!
