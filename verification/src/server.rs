//! What a request is about, whose it is, and what the browser is told of the server.
use crate::config_store::DEFAULT_OWNER;
use crate::doctor::FixResult;
use crate::json::{json_of, JsonView};
use crate::text::{
    cat2, cat3, chars_of, hex_digit, is_hex_digit, opt_view, owned, same, take_chars, trim, trimmed,
};
use crate::token::text_outcome;
use vstd::prelude::*;

pub mod laws;

verus! {

/// Every how many seconds the doctor looks at everything.
pub const DOCTOR_INTERVAL_SECONDS: u64 = 60;

/// The team that a request is about; all teams where it names none.
pub fn scope(team: &Option<String>) -> (r: Option<&str>)
    ensures
        opt_view(r) == (match *team {
            Some(t) => if t@.len() > 0 {
                Some(t@)
            } else {
                None
            },
            None => None,
        }),
{
    match team {
        Some(t) => if t.as_str().is_empty() {
            None
        } else {
            Some(t.as_str())
        },
        None => None,
    }
}

/// Who made a request.
#[derive(Debug, Clone, PartialEq, Eq)]
pub struct Identity {
    pub owner: String,
    pub authenticated: bool,
}

/// Who made a request with an e-mail header: that address where it is not blank, else the default
/// owner.
pub fn identity(email: Option<&str>) -> (r: Identity)
    ensures
        ({
            let address = match email {
                Some(e) => trimmed(e@),
                None => Seq::<char>::empty(),
            };
            &&& r.authenticated == (address.len() > 0)
            &&& r.owner@ == (if address.len() > 0 {
                address
            } else {
                DEFAULT_OWNER@
            })
        }),
{
    match email {
        Some(e) => {
            let address: String = trim(e);
            if address.as_str().is_empty() {
                Identity { owner: owned(DEFAULT_OWNER), authenticated: false }
            } else {
                Identity { owner: address, authenticated: true }
            }
        },
        None => Identity { owner: owned(DEFAULT_OWNER), authenticated: false },
    }
}

/// How a request is turned away: the status and the text of the answer.
#[derive(Debug, Clone, Copy, PartialEq, Eq)]
pub struct Refusal {
    pub status: u16,
    pub message: &'static str,
}

/// The token that a request presents; an empty one where it presents none.
pub fn presented_token(header: Option<&str>) -> (r: &str)
    ensures
        r@ == (match header {
            Some(t) => t@,
            None => Seq::<char>::empty(),
        }),
{
    match header {
        Some(t) => t,
        None => {
            proof {
                reveal_strlit("");
            }
            assert(""@ =~= Seq::<char>::empty());
            ""
        },
    }
}

/// Whose data a request is about; nobody's where it is turned away. Where tokens are verified,
/// that is the owner whom the verified token names, else the address in the e-mail header.
pub open spec fn owner_of_request(
    verified: Option<Result<Seq<char>, Seq<char>>>,
    email: Option<Seq<char>>,
) -> Option<Seq<char>> {
    match verified {
        Some(Ok(owner)) => Some(owner),
        Some(Err(_)) => None,
        None => match email {
            Some(e) => Some(e),
            None => Some(Seq::empty()),
        },
    }
}

/// What verifying a token came to, by views.
pub open spec fn verified_view(verified: Option<Result<String, String>>) -> Option<
    Result<Seq<char>, Seq<char>>,
> {
    match verified {
        Some(outcome) => Some(text_outcome(outcome)),
        None => None,
    }
}

/// Whose data a request is about. `verified` is what verifying the presented token came to; it is
/// `None` where no tokens are verified, and then the e-mail header is trusted.
pub fn request_owner(verified: Option<Result<String, String>>, email: Option<&str>) -> (r: Result<
    String,
    Refusal,
>)
    ensures
        match r {
            Ok(owner) => owner_of_request(verified_view(verified), opt_view(email)) == Some(owner@),
            Err(refusal) => {
                &&& owner_of_request(verified_view(verified), opt_view(email)) is None
                &&& refusal.status == 401
                &&& refusal.message@ == "token verification failed"@
            },
        },
{
    match verified {
        Some(Ok(owner)) => Ok(owner),
        Some(Err(_)) => Err(Refusal { status: 401, message: "token verification failed" }),
        None => match email {
            Some(e) => Ok(owned(e)),
            None => {
                let nobody: String = String::new();
                assert(nobody@ =~= Seq::<char>::empty());
                Ok(nobody)
            },
        },
    }
}

/// Where tokens are verified, the e-mail header buys nothing: who a request belongs to, and whether
/// it is turned away, does not depend on it.
pub proof fn law_email_header_buys_nothing(
    outcome: Result<Seq<char>, Seq<char>>,
    email: Option<Seq<char>>,
    other: Option<Seq<char>>,
)
    ensures
        owner_of_request(Some(outcome), email) == owner_of_request(Some(outcome), other),
        owner_of_request(Some(outcome), email) is None <==> outcome is Err,
{
}

/// The answer to a request that failed: a status, and an error text.
#[derive(Debug, Clone, PartialEq, Eq)]
pub struct Failure {
    pub status: u16,
    pub error: String,
}

/// Whether an answer has a status and an error text.
pub open spec fn says(f: Failure, status: u16, error: Seq<char>) -> bool {
    f.status == status && f.error@ == error
}

/// The answer where the work itself failed.
pub fn internal_error(error: String) -> (r: Failure)
    ensures
        says(r, 500, error@),
{
    Failure { status: 500, error }
}

/// The answer to a change of a team: what the change came to says whether there is such a team.
pub fn team_answer(changed: Result<bool, String>, name: &str) -> (r: Result<(), Failure>)
    ensures
        match r {
            Ok(_) => changed == Ok::<bool, String>(true),
            Err(f) => match changed {
                Ok(found) => !found && says(f, 404, "no team named '"@ + name@ + "'"@),
                Err(e) => says(f, 500, e@),
            },
        },
{
    match changed {
        Ok(true) => Ok(()),
        Ok(false) => Err(Failure { status: 404, error: cat3("no team named '", name, "'") }),
        Err(e) => Err(internal_error(e)),
    }
}

/// The answer to the request to apply the fix of a check: what the fix came to, where there is such
/// a check.
pub fn fix_answer(fixed: Option<FixResult>, id: &str) -> (r: Result<FixResult, Failure>)
    ensures
        match r {
            Ok(fix) => fixed == Some(fix),
            Err(f) => fixed is None && says(f, 404, "no check with id '"@ + id@ + "'"@),
        },
{
    match fixed {
        Some(fix) => Ok(fix),
        None => Err(Failure { status: 404, error: cat3("no check with id '", id, "'") }),
    }
}

/// The items that a run is about; all in scope where it names none.
pub fn run_ids(ids: Option<Vec<i64>>) -> (r: Option<Vec<i64>>)
    ensures
        r == (match ids {
            Some(list) => if list@.len() > 0 {
                Some(list)
            } else {
                None
            },
            None => None,
        }),
{
    match ids {
        Some(list) => if list.len() > 0 {
            Some(list)
        } else {
            None
        },
        None => None,
    }
}

/// Whether every character is a hexadecimal digit.
pub open spec fn all_hex(s: Seq<char>) -> bool {
    forall|i: int| 0 <= i < s.len() ==> is_hex_digit(#[trigger] s[i])
}

/// What is shown of a build: its commit where it is known, else its version, and neither for a
/// build in development.
pub open spec fn build_stamp(commit: Seq<char>, version: Seq<char>) -> Seq<char> {
    if commit.len() > 0 && commit != "unknown"@ {
        commit
    } else if version.len() > 0 && version != "latest-main"@ {
        version
    } else {
        "dev"@
    }
}

/// A stamp as it is shown: the name of a commit in short.
pub open spec fn shown_stamp(stamp: Seq<char>) -> Seq<char> {
    if stamp.len() > 12 && all_hex(stamp) {
        stamp.take(12)
    } else {
        stamp
    }
}

fn is_all_hex(s: &str) -> (r: bool)
    ensures
        r == all_hex(s@),
{
    let cs: Vec<char> = chars_of(s);
    let mut i: usize = 0;
    while i < cs.len()
        invariant
            i <= cs@.len(),
            cs@ == s@,
            forall|j: int| 0 <= j < i ==> is_hex_digit(#[trigger] s@[j]),
        decreases cs@.len() - i,
    {
        if !hex_digit(cs[i]) {
            assert(!is_hex_digit(s@[i as int]));
            return false;
        }
        i += 1;
    }
    true
}

/// What is shown of a build with a commit and a version.
pub fn display_version(commit: &str, version: &str) -> (r: String)
    ensures
        r@ == shown_stamp(build_stamp(commit@, version@)),
{
    let stamp: &str = if !commit.is_empty() && !same(commit, "unknown") {
        commit
    } else if !version.is_empty() && !same(version, "latest-main") {
        version
    } else {
        "dev"
    };
    let cs: Vec<char> = chars_of(stamp);
    if cs.len() > 12 && is_all_hex(stamp) {
        take_chars(stamp, 12)
    } else {
        owned(stamp)
    }
}

/// The lower-case hexadecimal digit for a number below sixteen.
pub open spec fn hex_char(n: int) -> char {
    if n < 10 {
        ('0' as int + n) as char
    } else {
        ('a' as int + n - 10) as char
    }
}

/// A character inside a JSON string: quotes, backslashes and control characters are escaped.
pub open spec fn json_char(c: char) -> Seq<char> {
    if c == '"' || c == '\\' {
        seq!['\\', c]
    } else if c == '\x08' {
        seq!['\\', 'b']
    } else if c == '\t' {
        seq!['\\', 't']
    } else if c == '\n' {
        seq!['\\', 'n']
    } else if c == '\x0c' {
        seq!['\\', 'f']
    } else if c == '\r' {
        seq!['\\', 'r']
    } else if (c as int) < 32 {
        seq!['\\', 'u', '0', '0', hex_char(c as int / 16), hex_char(c as int % 16)]
    } else {
        seq![c]
    }
}

/// The inside of a JSON string for a text.
pub open spec fn json_chars(s: Seq<char>) -> Seq<char>
    decreases s.len(),
{
    if s.len() == 0 {
        Seq::empty()
    } else {
        json_chars(s.drop_last()) + json_char(s.last())
    }
}

/// A text as a JSON string.
pub open spec fn quoted(s: Seq<char>) -> Seq<char> {
    seq!['"'] + json_chars(s) + seq!['"']
}

/// Calls `to_string` on a `serde_json::Value` that holds a text, which writes it as a JSON string.
/// Claimed of it: the text stands between quotes with only quotes, backslashes and control
/// characters escaped, and reading it as JSON gives the text back.
#[verifier::external_body]
fn quote(s: &str) -> (r: String)
    ensures
        r@ == quoted(s@),
        json_of(r@) == Some(JsonView::Text(s@)),
{
    serde_json::Value::String(s.to_string()).to_string()
}

/// The script that tells the browser about the server.
pub open spec fn env_script_text(instance_url: Seq<char>, version: Seq<char>) -> Seq<char> {
    "window.__POSEIDEN_ENV__ = {\"instanceUrl\":"@ + quoted(instance_url) + ",\"version\":"@
        + quoted(version) + "};\n"@
}

/// The script that tells the browser about the server: the instance to talk to, and the build.
pub fn env_script(instance_url: &str, commit: &str, version: &str) -> (r: String)
    ensures
        r@ == env_script_text(instance_url@, shown_stamp(build_stamp(commit@, version@))),
        json_of(quoted(instance_url@)) == Some(JsonView::Text(instance_url@)),
{
    let shown: String = display_version(commit, version);
    let mut r: String = "window.__POSEIDEN_ENV__ = {\"instanceUrl\":".to_owned();
    r.append(quote(instance_url).as_str());
    r.append(",\"version\":");
    r.append(quote(shown.as_str()).as_str());
    r.append("};\n");
    r
}

// ---------------------------------------------------------------------------------------------
// Signing in
// ---------------------------------------------------------------------------------------------

/// How long a sign-in with a device code may take, in seconds.
pub const SIGN_IN_SECONDS: u64 = 900;

/// Where a sign-in with a device code stands.
#[derive(Debug, Clone, PartialEq, Eq)]
pub enum SignInState {
    Idle,
    Pending,
    Done,
    Failed { error: String },
}

/// What follows from where a sign-in stands.
#[derive(Debug, Clone, PartialEq, Eq)]
pub enum SignInStep {
    /// Look again later.
    Wait,
    Done,
    /// The sign-in came to nothing, for the reason given.
    Failed(String),
    TimedOut,
}

/// What follows from where a sign-in stands a number of seconds after it began. An outcome counts
/// however late it comes.
pub fn after_poll(state: &SignInState, elapsed_secs: u64) -> (r: SignInStep)
    ensures
        match *state {
            SignInState::Done => r == SignInStep::Done,
            SignInState::Failed { error } => {
                r matches SignInStep::Failed(words) && words@ == "sign-in did not complete: "@
                    + error@
            },
            _ => r == (if elapsed_secs > SIGN_IN_SECONDS {
                SignInStep::TimedOut
            } else {
                SignInStep::Wait
            }),
        },
{
    match state {
        SignInState::Done => SignInStep::Done,
        SignInState::Failed { error } => SignInStep::Failed(
            cat2("sign-in did not complete: ", error.as_str()),
        ),
        _ => if elapsed_secs > SIGN_IN_SECONDS {
            SignInStep::TimedOut
        } else {
            SignInStep::Wait
        },
    }
}

// ---------------------------------------------------------------------------------------------
// The build
// ---------------------------------------------------------------------------------------------

/// What a variable says at run time where it is not blank, else what it said at build time, else a
/// default.
pub open spec fn stamped(
    at_run: Option<Seq<char>>,
    at_build: Option<Seq<char>>,
    default: Seq<char>,
) -> Seq<char> {
    match at_run {
        Some(v) => if trimmed(v).len() > 0 {
            v
        } else {
            match at_build {
                Some(b) => b,
                None => default,
            }
        },
        None => match at_build {
            Some(b) => b,
            None => default,
        },
    }
}

fn stamp(at_run: Option<&str>, at_build: Option<&str>, default: &str) -> (r: String)
    ensures
        r@ == stamped(opt_view(at_run), opt_view(at_build), default@),
{
    match at_run {
        Some(v) => if !crate::text::is_blank(v) {
            return owned(v);
        },
        None => {},
    }
    match at_build {
        Some(b) => owned(b),
        None => owned(default),
    }
}

/// The running version, by what the variable says at run time and at build time.
pub fn version(at_run: Option<&str>, at_build: Option<&str>) -> (r: String)
    ensures
        r@ == stamped(opt_view(at_run), opt_view(at_build), "local"@),
{
    stamp(at_run, at_build, "local")
}

/// Whether the running version is one in development.
pub fn is_local_build(at_run: Option<&str>, at_build: Option<&str>) -> (r: bool)
    ensures
        r == (stamped(opt_view(at_run), opt_view(at_build), "local"@) == "local"@),
{
    same(version(at_run, at_build).as_str(), "local")
}

/// The commit of the running version, by what the variable says at run time and at build time.
pub fn commit(at_run: Option<&str>, at_build: Option<&str>) -> (r: String)
    ensures
        r@ == stamped(opt_view(at_run), opt_view(at_build), "unknown"@),
{
    stamp(at_run, at_build, "unknown")
}

// ---------------------------------------------------------------------------------------------
// The documentation
// ---------------------------------------------------------------------------------------------

/// Whether files with an extension belong to the documentation: markdown and images, ASCII case
/// aside.
pub fn is_documentation(extension: &str) -> (r: bool)
    ensures
        r == ({
            let e = crate::text::lower(extension@);
            e == "md"@ || e == "png"@ || e == "jpg"@ || e == "jpeg"@ || e == "gif"@ || e == "svg"@
                || e == "webp"@
        }),
{
    let e: String = crate::text::to_lower(extension);
    let e: &str = e.as_str();
    same(e, "md") || same(e, "png") || same(e, "jpg") || same(e, "jpeg") || same(e, "gif") || same(
        e,
        "svg",
    ) || same(e, "webp")
}

} // verus!
