//! Configuration: the instance's own settings, and each owner's teams and hygiene rules.
use crate::number::{parse_nat, parsed_nat};
use crate::order::{
    before, comes_before, lemma_before_irreflexive, lemma_before_total, lemma_before_transitive,
};
use crate::telemetry::{given, TelemetrySettings};
use crate::text::{
    chars_of, digit, is_blank, is_digit, opt_view, same, string_of, trim, trimmed, views,
};
use vstd::prelude::*;

pub mod laws;

verus! {

// ---------------------------------------------------------------------------------------------
// Durations
// ---------------------------------------------------------------------------------------------

/// The seconds that a unit letter stands for.
pub open spec fn unit_seconds(c: char) -> Option<nat> {
    if c == 's' {
        Some(1)
    } else if c == 'm' {
        Some(60)
    } else if c == 'h' {
        Some(3600)
    } else if c == 'd' {
        Some(86_400)
    } else {
        None
    }
}

/// The number and the unit (in seconds) that a duration text gives: digits followed by `s`, `m`,
/// `h` or `d`, or digits alone for seconds, with white space round either part.
pub open spec fn duration_parts(s: Seq<char>) -> Option<(nat, nat)> {
    let t = trimmed(s);
    if t.len() == 0 {
        None
    } else {
        let (digits, unit) = match unit_seconds(t.last()) {
            Some(u) => (t.drop_last(), u),
            None => (t, 1),
        };
        if unit_seconds(t.last()) is None && !is_digit(t.last()) {
            None
        } else {
            match parsed_nat(trimmed(digits), u64::MAX as nat) {
                Some(n) => Some((n, unit)),
                None => None,
            }
        }
    }
}

/// The seconds that a duration text stands for; none where they do not fit in 64 bits.
pub open spec fn duration_seconds(s: Seq<char>) -> Option<nat> {
    match duration_parts(s) {
        Some((n, unit)) => if n * unit <= u64::MAX {
            Some(n * unit)
        } else {
            None
        },
        None => None,
    }
}

/// The number and the unit of a duration text.
fn split_duration(s: &str) -> (r: Option<(u64, u64)>)
    ensures
        match r {
            Some((n, unit)) => {
                duration_parts(s@) == Some((n as nat, unit as nat))
            },
            None => duration_parts(s@) is None,
        },
{
    let t: String = trim(s);
    let cs: Vec<char> = chars_of(t.as_str());
    let n: usize = cs.len();
    if n == 0 {
        return None;
    }
    let last: char = cs[n - 1];
    let (len, unit): (usize, u64) = if last == 's' {
        (n - 1, 1)
    } else if last == 'm' {
        (n - 1, 60)
    } else if last == 'h' {
        (n - 1, 3600)
    } else if last == 'd' {
        (n - 1, 86_400)
    } else if digit(last) {
        (n, 1)
    } else {
        return None;
    };
    let digits: String = string_of(&cs, 0, len);
    assert(len == n ==> digits@ =~= t@);
    assert(len == n - 1 ==> digits@ =~= t@.drop_last());
    let digits: String = trim(digits.as_str());
    match parse_nat(digits.as_str(), 0xffff_ffff_ffff_ffff) {
        Some(v) => Some((v, unit)),
        None => None,
    }
}

/// The seconds that a duration text such as `30s`, `15m`, `6h`, `1d` or `90` stands for; `None`
/// for any other text, and where the seconds do not fit in 64 bits.
pub fn parse_duration(s: &str) -> (r: Option<u64>)
    ensures
        match r {
            Some(n) => duration_seconds(s@) == Some(n as nat),
            None => duration_seconds(s@) is None,
        },
{
    match split_duration(s) {
        Some((n, unit)) => n.checked_mul(unit),
        None => None,
    }
}

// ---------------------------------------------------------------------------------------------
// Instance settings
// ---------------------------------------------------------------------------------------------

/// Where the server listens and how often it polls.
#[derive(Debug, Clone)]
pub struct ServerConfig {
    pub bind_addr: String,
    pub port: u16,
    pub poll_interval: String,
}

impl Default for ServerConfig {
    fn default() -> (r: Self)
        ensures
            r.bind_addr@ == "127.0.0.1"@,
            r.port == 8737,
            r.poll_interval@ == "15m"@,
    {
        ServerConfig {
            bind_addr: "127.0.0.1".to_owned(),
            port: 8737,
            poll_interval: "15m".to_owned(),
        }
    }
}

/// The environment variables that the server's settings come from, as far as they are set.
#[derive(Debug, Clone)]
pub struct ServerEnv {
    pub bind_addr: Option<String>,
    pub port: Option<String>,
    pub poll_interval: Option<String>,
}

/// The port that a text names.
pub open spec fn port_of(v: Seq<char>) -> Option<nat> {
    parsed_nat(trimmed(v), u16::MAX as nat)
}

impl ServerConfig {
    /// Seconds between polls; a quarter of an hour where the setting is no duration.
    pub fn poll_interval_duration(&self) -> (r: u64)
        ensures
            r == (match duration_seconds(self.poll_interval@) {
                Some(n) => n,
                None => 900,
            }),
    {
        match parse_duration(self.poll_interval.as_str()) {
            Some(n) => n,
            None => 900,
        }
    }

    /// The settings that the environment asks for; defaults where a variable is unset, blank or
    /// no port number.
    pub fn from_env(env: &ServerEnv) -> (r: Self)
        ensures
            r.bind_addr@ == (if given(env.bind_addr) {
                env.bind_addr->0@
            } else {
                "127.0.0.1"@
            }),
            r.port == (match env.port {
                Some(v) => match port_of(v@) {
                    Some(p) => p,
                    None => 8737,
                },
                None => 8737,
            }),
            r.poll_interval@ == (if given(env.poll_interval) {
                env.poll_interval->0@
            } else {
                "15m"@
            }),
    {
        let mut s: ServerConfig = ServerConfig::default();
        match &env.bind_addr {
            Some(v) => {
                if !is_blank(v.as_str()) {
                    s.bind_addr = v.clone();
                }
            },
            None => {},
        }
        match &env.port {
            Some(v) => {
                let t: String = trim(v.as_str());
                match parse_nat(t.as_str(), 65_535) {
                    Some(p) => {
                        s.port = p as u16;
                    },
                    None => {},
                }
            },
            None => {},
        }
        match &env.poll_interval {
            Some(v) => {
                if !is_blank(v.as_str()) {
                    s.poll_interval = v.clone();
                }
            },
            None => {},
        }
        s
    }
}

/// The instance's own settings.
#[derive(Debug, Clone)]
pub struct PoseidenConfig {
    pub server: ServerConfig,
    pub telemetry: TelemetrySettings,
}

// ---------------------------------------------------------------------------------------------
// Rules
// ---------------------------------------------------------------------------------------------

/// A tag to suggest where one of its keywords occurs.
#[derive(Debug, Clone, PartialEq)]
pub struct TagKeywords {
    pub tag: String,
    pub keywords: Vec<String>,
}

#[verifier::ext_equal]
pub struct TagKeywordsView {
    pub tag: Seq<char>,
    pub keywords: Seq<Seq<char>>,
}

impl View for TagKeywords {
    type V = TagKeywordsView;

    open spec fn view(&self) -> TagKeywordsView {
        TagKeywordsView { tag: self.tag@, keywords: views(self.keywords@) }
    }
}

/// A legacy tag pattern and the tag to use in its place.
#[derive(Debug, Clone, PartialEq)]
pub struct TagAlias {
    pub from: String,
    pub to: String,
}

#[verifier::ext_equal]
pub struct TagAliasView {
    pub from: Seq<char>,
    pub to: Seq<char>,
}

impl View for TagAlias {
    type V = TagAliasView;

    open spec fn view(&self) -> TagAliasView {
        TagAliasView { from: self.from@, to: self.to@ }
    }
}

/// Which pipelines are flagged.
#[derive(Debug, Clone, Copy, PartialEq, Eq, Structural)]
pub struct PipelineRules {
    pub flag_failing: bool,
    pub flag_never_run: bool,
}

impl Default for PipelineRules {
    fn default() -> (r: Self)
        ensures
            r == (PipelineRules { flag_failing: false, flag_never_run: false }),
    {
        PipelineRules { flag_failing: false, flag_never_run: false }
    }
}

/// Which pull requests are flagged.
#[derive(Debug, Clone, Copy)]
pub struct PrRules {
    pub stale_open_days: Option<i64>,
    pub stale_draft_days: Option<i64>,
    pub require_work_item: bool,
    pub link_include_abandoned: bool,
}

impl Default for PrRules {
    fn default() -> (r: Self)
        ensures
            r == (PrRules {
                stale_open_days: None,
                stale_draft_days: None,
                require_work_item: false,
                link_include_abandoned: false,
            }),
    {
        PrRules {
            stale_open_days: None,
            stale_draft_days: None,
            require_work_item: false,
            link_include_abandoned: false,
        }
    }
}

/// How many days an item may stay in a state.
#[derive(Debug, PartialEq, Eq)]
pub struct StaleRule {
    pub state: String,
    pub days: i64,
}

#[verifier::ext_equal]
pub struct StaleRuleView {
    pub state: Seq<char>,
    pub days: i64,
}

impl View for StaleRule {
    type V = StaleRuleView;

    open spec fn view(&self) -> StaleRuleView {
        StaleRuleView { state: self.state@, days: self.days }
    }
}

impl Clone for StaleRule {
    fn clone(&self) -> (r: Self)
        ensures
            r == *self,
    {
        StaleRule { state: self.state.clone(), days: self.days }
    }
}

/// Day limits by state: each state once, in ascending order of the states.
#[derive(Debug, Clone)]
pub struct StaleDays {
    rules: Vec<StaleRule>,
}

impl View for StaleDays {
    type V = Seq<StaleRuleView>;

    closed spec fn view(&self) -> Seq<StaleRuleView> {
        views(self.rules@)
    }
}

/// Whether day limits are in ascending order of their states, each state once.
pub open spec fn states_ascending(rules: Seq<StaleRuleView>) -> bool {
    forall|i: int, j: int|
        0 <= i < j < rules.len() ==> before((#[trigger] rules[i]).state, (#[trigger] rules[j]).state)
}

/// The limits as a map from state to days.
pub open spec fn limits(rules: Seq<StaleRuleView>) -> Map<Seq<char>, i64>
    decreases rules.len(),
{
    if rules.len() == 0 {
        Map::empty()
    } else {
        limits(rules.drop_last()).insert(rules.last().state, rules.last().days)
    }
}

proof fn lemma_limits_at(rules: Seq<StaleRuleView>, k: int)
    requires
        states_ascending(rules),
        0 <= k < rules.len(),
    ensures
        limits(rules).dom().contains(rules[k].state),
        limits(rules)[rules[k].state] == rules[k].days,
    decreases rules.len(),
{
    if k < rules.len() - 1 {
        assert(before(rules[k].state, rules[rules.len() - 1].state));
        lemma_before_irreflexive(rules[k].state);
        assert(states_ascending(rules.drop_last())) by {
            assert forall|i: int, j: int| 0 <= i < j < rules.drop_last().len() implies before(
                (#[trigger] rules.drop_last()[i]).state,
                (#[trigger] rules.drop_last()[j]).state,
            ) by {
                assert(before(rules[i].state, rules[j].state));
            }
        }
        lemma_limits_at(rules.drop_last(), k);
        assert(rules.drop_last()[k] == rules[k]);
    }
}

proof fn lemma_limits_only(rules: Seq<StaleRuleView>, state: Seq<char>)
    requires
        forall|i: int| 0 <= i < rules.len() ==> (#[trigger] rules[i]).state != state,
    ensures
        !limits(rules).dom().contains(state),
    decreases rules.len(),
{
    if rules.len() > 0 {
        let shorter = rules.drop_last();
        assert forall|i: int| 0 <= i < shorter.len() implies (#[trigger] shorter[i]).state
            != state by {
            assert(rules[i].state != state);
        }
        lemma_limits_only(shorter, state);
        assert(rules[rules.len() - 1].state != state);
    }
}

/// Whether `new_rules` is `old_rules` with the limit of `state` set to `days`, entry by entry.
spec fn sets_one(
    old_rules: Seq<StaleRuleView>,
    new_rules: Seq<StaleRuleView>,
    state: Seq<char>,
    days: i64,
) -> bool {
    &&& states_ascending(old_rules)
    &&& states_ascending(new_rules)
    &&& new_rules.contains(StaleRuleView { state, days })
    &&& forall|i: int|
        0 <= i < old_rules.len() && (#[trigger] old_rules[i]).state != state ==> new_rules.contains(
            old_rules[i],
        )
    &&& forall|k: int|
        0 <= k < new_rules.len() && (#[trigger] new_rules[k]).state != state ==> old_rules.contains(
            new_rules[k],
        )
}

proof fn lemma_limits_other(
    old_rules: Seq<StaleRuleView>,
    new_rules: Seq<StaleRuleView>,
    state: Seq<char>,
    days: i64,
    t: Seq<char>,
)
    requires
        sets_one(old_rules, new_rules, state, days),
        t != state,
    ensures
        limits(new_rules).dom().contains(t) == limits(old_rules).dom().contains(t),
        limits(old_rules).dom().contains(t) ==> limits(new_rules)[t] == limits(old_rules)[t],
{
    if exists|i: int| 0 <= i < old_rules.len() && (#[trigger] old_rules[i]).state == t {
        let i = choose|i: int| 0 <= i < old_rules.len() && (#[trigger] old_rules[i]).state == t;
        lemma_limits_at(old_rules, i);
        assert(new_rules.contains(old_rules[i]));
        let k = choose|k: int| 0 <= k < new_rules.len() && new_rules[k] == old_rules[i];
        lemma_limits_at(new_rules, k);
    } else {
        lemma_limits_only(old_rules, t);
        assert forall|k: int| 0 <= k < new_rules.len() implies (#[trigger] new_rules[k]).state
            != t by {
            if new_rules[k].state == t {
                assert(old_rules.contains(new_rules[k]));
                let i = choose|i: int| 0 <= i < old_rules.len() && old_rules[i] == new_rules[k];
                assert(old_rules[i].state == t);
            }
        }
        lemma_limits_only(new_rules, t);
    }
}

proof fn lemma_limits_set(
    old_rules: Seq<StaleRuleView>,
    new_rules: Seq<StaleRuleView>,
    state: Seq<char>,
    days: i64,
)
    requires
        sets_one(old_rules, new_rules, state, days),
    ensures
        limits(new_rules) == limits(old_rules).insert(state, days),
{
    let m = limits(old_rules).insert(state, days);
    let k0 = choose|k: int|
        0 <= k < new_rules.len() && new_rules[k] == (StaleRuleView { state, days });
    lemma_limits_at(new_rules, k0);
    assert forall|t: Seq<char>| #[trigger]
        limits(new_rules).dom().contains(t) == m.dom().contains(t) by {
        if t != state {
            lemma_limits_other(old_rules, new_rules, state, days, t);
        }
    }
    assert forall|t: Seq<char>| #[trigger] m.dom().contains(t) implies limits(new_rules)[t]
        == m[t] by {
        if t != state {
            lemma_limits_other(old_rules, new_rules, state, days, t);
        }
    }
    assert(limits(new_rules) =~= m);
}

impl StaleDays {
    /// Each state once, in ascending order.
    pub open spec fn wf(&self) -> bool {
        states_ascending(self@)
    }

    /// No limits.
    pub fn new() -> (r: Self)
        ensures
            r@.len() == 0,
            r.wf(),
    {
        StaleDays { rules: Vec::new() }
    }

    /// Sets the limit of one state, in place of any it had.
    pub fn insert(&mut self, state: String, days: i64)
        requires
            old(self).wf(),
        ensures
            final(self).wf(),
            limits(final(self)@) == limits(old(self)@).insert(state@, days),
    {
        let ghost before_rules = self@;
        let ghost text = state@;
        let mut at: usize = 0;
        while at < self.rules.len() && comes_before(self.rules[at].state.as_str(), state.as_str())
            invariant
                at <= self.rules@.len(),
                self@ == before_rules,
                states_ascending(before_rules),
                state@ == text,
                forall|i: int| 0 <= i < at ==> before((#[trigger] before_rules[i]).state, text),
            decreases self.rules@.len() - at,
        {
            assert(before_rules[at as int] == self.rules@[at as int]@);
            at += 1;
        }
        assert(at < self.rules@.len() ==> before_rules[at as int] == self.rules@[at as int]@);
        let rule: StaleRule = StaleRule { state, days };
        if at < self.rules.len() && same(self.rules[at].state.as_str(), rule.state.as_str()) {
            self.rules.set(at, rule);
            proof {
                let after = self@;
                assert(after =~= before_rules.update(at as int, StaleRuleView { state: text, days }));
                assert(states_ascending(after)) by {
                    assert forall|i: int, j: int| 0 <= i < j < after.len() implies before(
                        (#[trigger] after[i]).state,
                        (#[trigger] after[j]).state,
                    ) by {
                        assert(before(before_rules[i].state, before_rules[j].state));
                    }
                }
                assert(after[at as int] == (StaleRuleView { state: text, days }));
                assert forall|i: int|
                    0 <= i < before_rules.len() && (#[trigger] before_rules[i]).state
                        != text implies after.contains(before_rules[i]) by {
                    assert(after[i] == before_rules[i]);
                }
                assert forall|k: int|
                    0 <= k < after.len() && (#[trigger] after[k]).state != text implies before_rules.contains(after[k]) by {
                    assert(before_rules[k] == after[k]);
                }
                lemma_limits_set(before_rules, after, text, days);
            }
        } else {
            self.rules.insert(at, rule);
            proof {
                let after = self@;
                assert(after =~= before_rules.insert(at as int, StaleRuleView { state: text, days }));
                assert(states_ascending(after)) by {
                    assert forall|i: int, j: int| 0 <= i < j < after.len() implies before(
                        (#[trigger] after[i]).state,
                        (#[trigger] after[j]).state,
                    ) by {
                        let bi = if i < at {
                            i
                        } else {
                            i - 1
                        };
                        let bj = if j < at {
                            j
                        } else {
                            j - 1
                        };
                        if i == at {
                            lemma_before_total(before_rules[at as int].state, text);
                            if bj > at {
                                assert(before(before_rules[at as int].state, before_rules[bj].state));
                                lemma_before_transitive(
                                    text,
                                    before_rules[at as int].state,
                                    before_rules[bj].state,
                                );
                            }
                        } else if j == at {
                            assert(before(before_rules[bi].state, text));
                        } else {
                            assert(before(before_rules[bi].state, before_rules[bj].state));
                        }
                    }
                }
                assert(after[at as int] == (StaleRuleView { state: text, days }));
                assert forall|i: int|
                    0 <= i < before_rules.len() && (#[trigger] before_rules[i]).state
                        != text implies after.contains(before_rules[i]) by {
                    if i < at {
                        assert(after[i] == before_rules[i]);
                    } else {
                        assert(after[i + 1] == before_rules[i]);
                    }
                }
                assert forall|k: int|
                    0 <= k < after.len() && (#[trigger] after[k]).state != text implies before_rules.contains(after[k]) by {
                    if k < at {
                        assert(before_rules[k] == after[k]);
                    } else {
                        assert(before_rules[k - 1] == after[k]);
                    }
                }
                lemma_limits_set(before_rules, after, text, days);
            }
        }
    }

    /// The limits, in ascending order of their states.
    pub fn rules(&self) -> (r: Vec<StaleRule>)
        ensures
            views(r@) == self@,
    {
        let mut r: Vec<StaleRule> = Vec::new();
        let mut i: usize = 0;
        while i < self.rules.len()
            invariant
                i <= self.rules@.len(),
                r@ == self.rules@.take(i as int),
            decreases self.rules@.len() - i,
        {
            r.push(self.rules[i].clone());
            assert(r@ =~= self.rules@.take(i + 1));
            i += 1;
        }
        assert(r@ =~= self.rules@);
        r
    }
}

/// The hygiene rules of an owner or a team.
#[derive(Debug, Clone)]
pub struct RuleSet {
    pub required_tags: Vec<String>,
    pub allowed_tags: Vec<String>,
    pub disallowed_tags: Vec<String>,
    pub tag_keywords: Vec<TagKeywords>,
    pub tag_aliases: Vec<TagAlias>,
    pub untagged_is_error: bool,
    pub stale_days: StaleDays,
    pub ignore_states: Vec<String>,
    pub resolved_states: Vec<String>,
    pub stale_when_resolved_tags: Vec<String>,
    pub ignore_types: Vec<String>,
    pub pipelines: PipelineRules,
    pub pull_requests: PrRules,
    pub refine_tag: Option<String>,
    pub refine_min_chars: Option<usize>,
    pub refine_phrases: Vec<String>,
}

#[verifier::ext_equal]
pub struct RuleSetView {
    pub required_tags: Seq<Seq<char>>,
    pub allowed_tags: Seq<Seq<char>>,
    pub disallowed_tags: Seq<Seq<char>>,
    pub tag_keywords: Seq<TagKeywordsView>,
    pub tag_aliases: Seq<TagAliasView>,
    pub untagged_is_error: bool,
    pub stale_days: Seq<StaleRuleView>,
    pub ignore_states: Seq<Seq<char>>,
    pub resolved_states: Seq<Seq<char>>,
    pub stale_when_resolved_tags: Seq<Seq<char>>,
    pub ignore_types: Seq<Seq<char>>,
    pub pipelines: PipelineRules,
    pub pull_requests: PrRules,
    pub refine_tag: Option<Seq<char>>,
    pub refine_min_chars: Option<usize>,
    pub refine_phrases: Seq<Seq<char>>,
}

impl View for RuleSet {
    type V = RuleSetView;

    open spec fn view(&self) -> RuleSetView {
        RuleSetView {
            required_tags: views(self.required_tags@),
            allowed_tags: views(self.allowed_tags@),
            disallowed_tags: views(self.disallowed_tags@),
            tag_keywords: views(self.tag_keywords@),
            tag_aliases: views(self.tag_aliases@),
            untagged_is_error: self.untagged_is_error,
            stale_days: self.stale_days@,
            ignore_states: views(self.ignore_states@),
            resolved_states: views(self.resolved_states@),
            stale_when_resolved_tags: views(self.stale_when_resolved_tags@),
            ignore_types: views(self.ignore_types@),
            pipelines: self.pipelines,
            pull_requests: self.pull_requests,
            refine_tag: opt_view(self.refine_tag),
            refine_min_chars: self.refine_min_chars,
            refine_phrases: views(self.refine_phrases@),
        }
    }
}

/// Rules that ask for nothing.
pub open spec fn no_rules() -> RuleSetView {
    RuleSetView {
        required_tags: Seq::empty(),
        allowed_tags: Seq::empty(),
        disallowed_tags: Seq::empty(),
        tag_keywords: Seq::empty(),
        tag_aliases: Seq::empty(),
        untagged_is_error: false,
        stale_days: Seq::empty(),
        ignore_states: Seq::empty(),
        resolved_states: Seq::empty(),
        stale_when_resolved_tags: Seq::empty(),
        ignore_types: Seq::empty(),
        pipelines: PipelineRules { flag_failing: false, flag_never_run: false },
        pull_requests: PrRules {
            stale_open_days: None,
            stale_draft_days: None,
            require_work_item: false,
            link_include_abandoned: false,
        },
        refine_tag: None,
        refine_min_chars: None,
        refine_phrases: Seq::empty(),
    }
}

impl Default for RuleSet {
    fn default() -> (r: Self)
        ensures
            r@ =~= no_rules(),
    {
        RuleSet {
            required_tags: Vec::new(),
            allowed_tags: Vec::new(),
            disallowed_tags: Vec::new(),
            tag_keywords: Vec::new(),
            tag_aliases: Vec::new(),
            untagged_is_error: false,
            stale_days: StaleDays::new(),
            ignore_states: Vec::new(),
            resolved_states: Vec::new(),
            stale_when_resolved_tags: Vec::new(),
            ignore_types: Vec::new(),
            pipelines: PipelineRules::default(),
            pull_requests: PrRules::default(),
            refine_tag: None,
            refine_min_chars: None,
            refine_phrases: Vec::new(),
        }
    }
}

impl RuleSet {
    /// The day limits, in ascending order of their states.
    pub fn stale_rules(&self) -> (r: Vec<StaleRule>)
        ensures
            views(r@) == self@.stale_days,
    {
        self.stale_days.rules()
    }
}

/// The states that count as resolved where a document names none.
pub fn default_resolved_states() -> (r: Vec<String>)
    ensures
        views(r@) =~= seq!["Closed"@, "Done"@, "Resolved"@, "Completed"@, "Removed"@],
{
    vec![
        "Closed".to_owned(),
        "Done".to_owned(),
        "Resolved".to_owned(),
        "Completed".to_owned(),
        "Removed".to_owned(),
    ]
}

/// The tags that speak of open work where a document names none.
pub fn default_stale_when_resolved_tags() -> (r: Vec<String>)
    ensures
        views(r@) =~= seq![
            "to refine"@,
            "to do"@,
            "needs triage"@,
            "in progress"@,
            "blocked"@,
            "wip"@,
        ],
{
    vec![
        "to refine".to_owned(),
        "to do".to_owned(),
        "needs triage".to_owned(),
        "in progress".to_owned(),
        "blocked".to_owned(),
        "wip".to_owned(),
    ]
}

// ---------------------------------------------------------------------------------------------
// Teams and owners
// ---------------------------------------------------------------------------------------------

/// Where a team's items come from.
#[derive(Debug, Clone, Copy, PartialEq, Eq, Structural)]
pub enum ProviderKind {
    AzureDevOps,
    GitHub,
    GitLab,
    Stub,
}

impl Default for ProviderKind {
    fn default() -> (r: Self)
        ensures
            r == ProviderKind::AzureDevOps,
    {
        ProviderKind::AzureDevOps
    }
}

/// Where a team's access token is found.
#[derive(Debug, Clone)]
pub struct AzureDevOpsAuth {
    /// The environment variable that holds the token.
    pub pat_env: String,
}

impl Default for AzureDevOpsAuth {
    fn default() -> (r: Self)
        ensures
            r.pat_env@ == "POSEIDEN_AZURE_PAT"@,
    {
        AzureDevOpsAuth { pat_env: "POSEIDEN_AZURE_PAT".to_owned() }
    }
}

/// One team.
#[derive(Debug, Clone)]
pub struct TeamConfig {
    pub name: String,
    pub provider: ProviderKind,
    pub organization: String,
    pub project: String,
    pub tenant: Option<String>,
    pub area_path: Option<String>,
    pub area_path_strict: bool,
    pub auth: AzureDevOpsAuth,
    pub wiql: Option<String>,
    pub pipeline_ids: Vec<i64>,
    /// The team's own rules; the owner's rules apply where there are none.
    pub rules: Option<RuleSet>,
}

/// Which checks the doctor has registered.
#[derive(Debug, Clone)]
pub struct DoctorConfig {
    pub checks: Vec<String>,
}

impl Default for DoctorConfig {
    fn default() -> (r: Self)
        ensures
            r.checks@.len() == 0,
    {
        DoctorConfig { checks: Vec::new() }
    }
}

/// One owner's configuration.
#[derive(Debug, Clone)]
pub struct UserConfig {
    pub teams: Vec<TeamConfig>,
    pub rules: RuleSet,
    pub doctor: DoctorConfig,
    pub poll_all_teams: bool,
}

impl Default for UserConfig {
    fn default() -> (r: Self)
        ensures
            r.teams@.len() == 0,
            r.rules@ == no_rules(),
            r.doctor.checks@.len() == 0,
            !r.poll_all_teams,
    {
        UserConfig {
            teams: Vec::new(),
            rules: RuleSet::default(),
            doctor: DoctorConfig::default(),
            poll_all_teams: false,
        }
    }
}

impl UserConfig {
    /// The rules that apply to a team: its own where it has any, else the owner's.
    pub fn rules_for<'a>(&'a self, team: &'a TeamConfig) -> (r: &'a RuleSet)
        ensures
            *r == (match team.rules {
                Some(own) => own,
                None => self.rules,
            }),
    {
        match &team.rules {
            Some(own) => own,
            None => &self.rules,
        }
    }
}

/// The name of a kind of tracker in documents and on the wire.
pub open spec fn provider_kind_name(x: ProviderKind) -> Seq<char> {
    match x {
        ProviderKind::AzureDevOps => "azure-dev-ops"@,
        ProviderKind::GitHub => "github"@,
        ProviderKind::GitLab => "gitlab"@,
        ProviderKind::Stub => "stub"@,
    }
}

/// What a name stands for.
pub open spec fn provider_kind_named(s: Seq<char>) -> Option<ProviderKind> {
    if s == "azure-dev-ops"@ {
        Some(ProviderKind::AzureDevOps)
    } else if s == "github"@ {
        Some(ProviderKind::GitHub)
    } else if s == "gitlab"@ {
        Some(ProviderKind::GitLab)
    } else if s == "stub"@ {
        Some(ProviderKind::Stub)
    } else {
        None
    }
}

impl ProviderKind {
    /// The name in documents and on the wire.
    pub fn as_str(self) -> (r: &'static str)
        ensures
            r@ == provider_kind_name(self),
    {
        match self {
            ProviderKind::AzureDevOps => "azure-dev-ops",
            ProviderKind::GitHub => "github",
            ProviderKind::GitLab => "gitlab",
            ProviderKind::Stub => "stub",
        }
    }

    /// What a name stands for.
    pub fn from_slug(s: &str) -> (r: Option<Self>)
        ensures
            r == provider_kind_named(s@),
    {
        if same(s, "azure-dev-ops") {
            Some(ProviderKind::AzureDevOps)
        } else if same(s, "github") {
            Some(ProviderKind::GitHub)
        } else if same(s, "gitlab") {
            Some(ProviderKind::GitLab)
        } else if same(s, "stub") {
            Some(ProviderKind::Stub)
        } else {
            None
        }
    }
}

/// Reading back the name of a kind of tracker gives it back.
pub proof fn law_provider_kind_name_round_trip(x: ProviderKind)
    ensures
        provider_kind_named(provider_kind_name(x)) == Some(x),
{
    reveal_strlit("azure-dev-ops");
    reveal_strlit("github");
    reveal_strlit("gitlab");
    reveal_strlit("stub");
    assert("azure-dev-ops"@.len() == 13);
    assert("github"@.len() == 6);
    assert("gitlab"@.len() == 6);
    assert("stub"@.len() == 4);
    assert("github"@[3] != "gitlab"@[3]);
}

} // verus!
