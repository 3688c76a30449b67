use vstd::prelude::*;
use vstd::string::StringExecFns;

verus! {

/// The file the world is saved to.
pub const PERSISTED_WORLD_FILENAME: &'static str = "world.json";

/// Suffix of the world file's backup copy.
pub const BACKUP_SUFFIX: &'static str = ".back";

/// The files that saving the world writes, in order: the world file, then
/// its backup copy when one is asked for. The caller writes the world's
/// snapshot to each.
pub fn save_world(with_backup: bool) -> (r: Vec<String>)
    ensures
        r@.len() == (if with_backup {
            2int
        } else {
            1int
        }),
        r@[0]@ == PERSISTED_WORLD_FILENAME@,
        with_backup ==> r@[1]@ == PERSISTED_WORLD_FILENAME@ + BACKUP_SUFFIX@,
{
    let mut files: Vec<String> = Vec::new();
    files.push(String::from_str(PERSISTED_WORLD_FILENAME));
    if with_backup {
        let mut backup = String::from_str(PERSISTED_WORLD_FILENAME);
        backup.append(BACKUP_SUFFIX);
        files.push(backup);
    }
    files
}

} // verus!
