//! Where everything is kept. Every place that is written to lies beneath one root.
use crate::telemetry::is_truthy;
use crate::text::{contains, lower, occurs, opt_view, owned, to_lower, views};
use vstd::prelude::*;

pub mod laws;

verus! {

/// The variable that switches portable mode on.
pub const ENV_PORTABLE: &'static str = "POSEIDON_PORTABLE_MODE";

/// The variable that names the root.
pub const ENV_DATA_DIR: &'static str = "POSEIDON_DATA_DIR";

/// The file beside the binary that switches portable mode on.
pub const PORTABLE_SENTINEL: &'static str = ".portable";

/// The root in portable mode, beside the binary.
pub const PORTABLE_DIR: &'static str = ".portable";

/// A place: a directory, and the names that lead from it.
#[derive(Debug, PartialEq, Eq)]
pub struct Place {
    pub base: String,
    pub steps: Vec<String>,
}

#[verifier::ext_equal]
pub struct PlaceView {
    pub base: Seq<char>,
    pub steps: Seq<Seq<char>>,
}

impl View for Place {
    type V = PlaceView;

    open spec fn view(&self) -> PlaceView {
        PlaceView { base: self.base@, steps: views(self.steps@) }
    }
}

impl Clone for Place {
    fn clone(&self) -> (r: Self)
        ensures
            r@ == self@,
    {
        let r: Place = Place {
            base: self.base.clone(),
            steps: crate::text::clone_all(&self.steps),
        };
        assert(r@ =~= self@);
        r
    }
}

/// The place that a name leads to.
pub open spec fn beneath(p: PlaceView, name: Seq<char>) -> PlaceView {
    PlaceView { base: p.base, steps: p.steps.push(name) }
}

impl Place {
    /// A directory.
    pub fn new(base: String) -> (r: Self)
        ensures
            r@ == (PlaceView { base: base@, steps: Seq::empty() }),
    {
        let r: Place = Place { base, steps: Vec::new() };
        assert(r@.steps =~= Seq::empty());
        r
    }

    /// The place that a name leads to.
    pub fn join(&self, name: &str) -> (r: Self)
        ensures
            r@ == beneath(self@, name@),
    {
        let mut r: Place = self.clone();
        r.steps.push(owned(name));
        assert(r@.steps =~= self@.steps.push(name@));
        r
    }
}

/// What the environment says about the root.
#[derive(Debug, Clone, PartialEq, Eq)]
pub struct EnvSnapshot {
    pub portable_flag: bool,
    pub data_dir: Option<String>,
}

impl Default for EnvSnapshot {
    fn default() -> (r: Self)
        ensures
            r == (EnvSnapshot { portable_flag: false, data_dir: None }),
    {
        EnvSnapshot { portable_flag: false, data_dir: None }
    }
}

impl EnvSnapshot {
    /// An environment that says whether portable mode is on.
    pub fn new(portable_flag: bool) -> (r: Self)
        ensures
            r == (EnvSnapshot { portable_flag, data_dir: None }),
    {
        EnvSnapshot { portable_flag, data_dir: None }
    }

    /// The environment with a root.
    pub fn with_data_dir(self, data_dir: Option<String>) -> (r: Self)
        ensures
            r == (EnvSnapshot { portable_flag: self.portable_flag, data_dir }),
    {
        EnvSnapshot { portable_flag: self.portable_flag, data_dir }
    }
}

/// What two variables say about the root.
pub fn env_snapshot(portable: &Option<String>, data_dir: Option<String>) -> (r: EnvSnapshot)
    ensures
        r.portable_flag == (match *portable {
            Some(v) => crate::telemetry::truthy(v@),
            None => false,
        }),
        r.data_dir == (match data_dir {
            Some(d) => if d@.len() > 0 {
                Some(d)
            } else {
                None
            },
            None => None,
        }),
{
    let portable_flag: bool = match portable {
        Some(v) => is_truthy(v.as_str()),
        None => false,
    };
    let data_dir: Option<String> = match data_dir {
        Some(d) => if d.as_str().is_empty() {
            None
        } else {
            Some(d)
        },
        None => None,
    };
    EnvSnapshot { portable_flag, data_dir }
}

/// Whether a binary's name marks it as portable.
pub open spec fn is_portable_name(name: Option<Seq<char>>) -> bool {
    match name {
        Some(n) => occurs(lower(n), "portable"@),
        None => false,
    }
}

/// Whether everything is kept beside the binary.
pub open spec fn portable_mode(
    env: EnvSnapshot,
    sentinel_present: bool,
    binary_name: Option<Seq<char>>,
) -> bool {
    env.portable_flag || sentinel_present || is_portable_name(binary_name)
}

/// The root: beside the binary in portable mode, else where the environment says, else where the
/// system keeps data.
pub open spec fn root_of(
    env: EnvSnapshot,
    binary_dir: Option<Seq<char>>,
    sentinel_present: bool,
    binary_name: Option<Seq<char>>,
    os_data_dir: Seq<char>,
) -> PlaceView {
    if portable_mode(env, sentinel_present, binary_name) {
        PlaceView {
            base: match binary_dir {
                Some(d) => d,
                None => "."@,
            },
            steps: seq![PORTABLE_DIR@],
        }
    } else {
        PlaceView {
            base: match env.data_dir {
                Some(d) => if d@.len() > 0 {
                    d@
                } else {
                    os_data_dir
                },
                None => os_data_dir,
            },
            steps: Seq::empty(),
        }
    }
}

/// The places that are written to.
#[derive(Debug, Clone)]
pub struct Paths {
    root: Place,
    portable: bool,
}

impl Paths {
    /// The place beneath which everything is kept.
    pub closed spec fn root(&self) -> PlaceView {
        self.root@
    }

    /// Whether everything is kept beside the binary.
    pub closed spec fn confined(&self) -> bool {
        self.portable
    }

    /// The places for an environment, a binary in a directory, perhaps with the portable file
    /// beside it, and a system that keeps data in a directory.
    pub fn resolve_with(
        env: &EnvSnapshot,
        binary_dir: Option<&str>,
        sentinel_present: bool,
        binary_name: Option<&str>,
        os_data_dir: &str,
    ) -> (r: Self)
        ensures
            r.confined() == portable_mode(*env, sentinel_present, opt_view(binary_name)),
            r.root() == root_of(
                *env,
                opt_view(binary_dir),
                sentinel_present,
                opt_view(binary_name),
                os_data_dir@,
            ),
    {
        let named: bool = match binary_name {
            Some(n) => contains(to_lower(n).as_str(), "portable"),
            None => false,
        };
        if env.portable_flag || sentinel_present || named {
            let base: Place = Place::new(
                match binary_dir {
                    Some(d) => owned(d),
                    None => ".".to_owned(),
                },
            );
            let root: Place = base.join(PORTABLE_DIR);
            assert(root@.steps =~= seq![PORTABLE_DIR@]);
            return Paths { root, portable: true };
        }
        let dir: String = match &env.data_dir {
            Some(d) => if d.as_str().is_empty() {
                owned(os_data_dir)
            } else {
                d.clone()
            },
            None => owned(os_data_dir),
        };
        Paths { root: Place::new(dir), portable: false }
    }

    /// Whether everything is kept beside the binary.
    pub fn is_portable(&self) -> (r: bool)
        ensures
            r == self.confined(),
    {
        self.portable
    }

    /// The place beneath which everything is kept.
    pub fn data_root(&self) -> (r: Place)
        ensures
            r@ == self.root(),
    {
        self.root.clone()
    }

    /// The database.
    pub fn database_path(&self) -> (r: Place)
        ensures
            r@ == beneath(self.root(), "poseidon.db"@),
    {
        self.root.join("poseidon.db")
    }

    /// The directory of the logs.
    pub fn log_dir(&self) -> (r: Place)
        ensures
            r@ == beneath(self.root(), "logs"@),
    {
        self.root.join("logs")
    }

    /// The directory of what can be fetched again.
    pub fn cache_dir(&self) -> (r: Place)
        ensures
            r@ == beneath(self.root(), "cache"@),
    {
        self.root.join("cache")
    }

    /// The directory of the owners' sessions.
    pub fn az_sessions_dir(&self) -> (r: Place)
        ensures
            r@ == beneath(self.root(), "az-sessions"@),
    {
        self.root.join("az-sessions")
    }

    /// The directories that have to be there before anything is written: the root, and beneath it
    /// those of the logs and of what can be fetched again.
    pub fn dirs(&self) -> (r: Vec<Place>)
        ensures
            views(r@) == seq![
                self.root(),
                beneath(self.root(), "logs"@),
                beneath(self.root(), "cache"@),
            ],
    {
        let mut r: Vec<Place> = Vec::new();
        r.push(self.data_root());
        r.push(self.log_dir());
        r.push(self.cache_dir());
        assert(views(r@) =~= seq![
            self.root(),
            beneath(self.root(), "logs"@),
            beneath(self.root(), "cache"@),
        ]);
        r
    }
}

/// Whether a place is another or lies beneath it.
pub open spec fn lies_within(p: PlaceView, root: PlaceView) -> bool {
    p.base == root.base && p.steps.len() >= root.steps.len() && p.steps.take(
        root.steps.len() as int,
    ) == root.steps
}

/// Whatever a root leads to lies beneath it.
pub proof fn law_everything_lies_beneath_the_root(root: PlaceView, name: Seq<char>)
    ensures
        lies_within(root, root),
        lies_within(beneath(root, name), root),
{
    assert(root.steps.take(root.steps.len() as int) =~= root.steps);
    assert(root.steps.push(name).take(root.steps.len() as int) =~= root.steps);
}

/// Portable mode is the strongest word: whatever else is set, everything is kept beside the
/// binary.
pub proof fn law_portable_mode_wins(
    env: EnvSnapshot,
    binary_dir: Seq<char>,
    sentinel_present: bool,
    binary_name: Option<Seq<char>>,
    os_data_dir: Seq<char>,
)
    requires
        portable_mode(env, sentinel_present, binary_name),
    ensures
        lies_within(
            root_of(env, Some(binary_dir), sentinel_present, binary_name, os_data_dir),
            PlaceView { base: binary_dir, steps: Seq::empty() },
        ),
{
    let root = root_of(env, Some(binary_dir), sentinel_present, binary_name, os_data_dir);
    assert(root.steps.take(0) =~= Seq::<Seq<char>>::empty());
}

} // verus!
