//! What the choice of the root promises.
use super::{portable_mode, root_of, EnvSnapshot, PlaceView, PORTABLE_DIR};
use crate::text::{lower, occurs};
use vstd::prelude::*;

verus! {

/// Any one of three things switches portable mode on: the environment, the file beside the binary,
/// or the binary's name, whatever its case; nothing else does.
pub proof fn law_portable_mode(env: EnvSnapshot, file: bool, name: Option<Seq<char>>)
    ensures
        env.portable_flag ==> portable_mode(env, file, name),
        file ==> portable_mode(env, file, name),
        name is Some && occurs(lower(name->0), "portable"@) ==> portable_mode(env, file, name),
        !env.portable_flag && !file && name is None ==> !portable_mode(env, file, name),
        !env.portable_flag && !file && name is Some && !occurs(lower(name->0), "portable"@)
            ==> !portable_mode(env, file, name),
{
}

/// In portable mode the root is the portable directory beside the binary, or in the current
/// directory where the binary's is not known.
pub proof fn law_portable_root(
    env: EnvSnapshot,
    dir: Option<Seq<char>>,
    file: bool,
    name: Option<Seq<char>>,
    system: Seq<char>,
)
    requires
        portable_mode(env, file, name),
    ensures
        ({
            let root = root_of(env, dir, file, name, system);
            &&& dir is Some ==> root.base == dir->0
            &&& dir is None ==> root.base == "."@
            &&& root.steps.len() == 1
            &&& root.steps[0] == PORTABLE_DIR@
        }),
{
}

/// Otherwise the root is the directory that the environment names, or the system's where it names
/// none or an empty one; where the binary is does not matter.
pub proof fn law_other_roots(
    env: EnvSnapshot,
    dir: Option<Seq<char>>,
    file: bool,
    name: Option<Seq<char>>,
    system: Seq<char>,
)
    requires
        !portable_mode(env, file, name),
    ensures
        ({
            let root = root_of(env, dir, file, name, system);
            let named = env.data_dir is Some && env.data_dir->0@.len() > 0;
            &&& named ==> root.base == env.data_dir->0@
            &&& !named ==> root.base == system
            &&& root.steps.len() == 0
        }),
{
}

} // verus!
