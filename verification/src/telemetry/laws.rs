//! What the telemetry settings promise.
use super::{default_level_of, given, switch, truthy, Environment};
use crate::text::{lower, trimmed};
use vstd::prelude::*;

verus! {

/// A setting is switched on by four texts, and by no other; case and white space aside.
pub proof fn law_switched_on(v: Seq<char>)
    ensures
        truthy(v) <==> lower(trimmed(v)) == "1"@ || lower(trimmed(v)) == "true"@ || lower(
            trimmed(v),
        ) == "yes"@ || lower(trimmed(v)) == "on"@,
{
}

/// A setting that is given counts, and its default where it is not.
pub proof fn law_given_settings_count(v: Option<String>, default: bool)
    ensures
        v is Some ==> switch(v, default) == truthy(v->0@),
        v is None ==> switch(v, default) == default,
        given(v) <==> v is Some && trimmed(v->0@).len() > 0,
{
}

/// In development everything is told that helps to find faults, else only warnings.
pub proof fn law_default_levels()
    ensures
        default_level_of(Environment::Dev) == "debug"@,
        default_level_of(Environment::Prod) == "warn"@,
{
}

} // verus!
