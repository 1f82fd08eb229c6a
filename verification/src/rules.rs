//! Compiled accept/drop/rewrite rules over process names and command
//! lines, evaluated in configuration order with the first match winning.

use vstd::prelude::*;
use vstd::string::StringExecFns;

use crate::scanner::ProcessData;
use crate::util::str_eq;

verus! {

// ---------------------------------------------------------------------------
// Trusted shims over the regex engine and environment expansion
// ---------------------------------------------------------------------------

/// Whether the regex engine accepts a pattern; a function of the pattern
/// alone.
pub uninterp spec fn regex_ok(pat: Seq<char>) -> bool;

/// Whether a compiled pattern matches somewhere in a haystack; a function
/// of pattern and haystack alone.
pub uninterp spec fn regex_matches(pat: Seq<char>, text: Seq<char>) -> bool;

/// The haystack with every match replaced through a rewrite template; a
/// function of pattern, haystack and template alone.
pub uninterp spec fn regex_replaced(pat: Seq<char>, text: Seq<char>, rewrite: Seq<char>) -> Seq<
    char,
>;

/// Relies on regex::Regex::new: whether a pattern compiles depends on the
/// pattern text alone.
#[verifier::external_body]
pub fn regex_valid(pat: &str) -> (r: bool)
    ensures
        r == regex_ok(pat@),
{
    regex::Regex::new(pat).is_ok()
}

/// Relies on regex::Regex::is_match on a pattern compiled with
/// regex::Regex::new: deterministic in the pattern and haystack.
#[verifier::external_body]
pub fn regex_is_match(pat: &str, text: &str) -> (r: Option<bool>)
    ensures
        r matches Some(b) ==> regex_ok(pat@) && b == regex_matches(pat@, text@),
        r is None ==> !regex_ok(pat@),
{
    match regex::Regex::new(pat) {
        Ok(re) => Some(re.is_match(text)),
        Err(_) => None,
    }
}

/// Relies on regex::Regex::replace_all with a replacement template, on a
/// pattern compiled with regex::Regex::new: deterministic in pattern,
/// haystack and template.
#[verifier::external_body]
pub fn regex_replace_all(pat: &str, text: &str, rewrite: &str) -> (r: Option<String>)
    ensures
        r matches Some(s) ==> regex_ok(pat@) && s@ == regex_replaced(pat@, text@, rewrite@),
        r is None ==> !regex_ok(pat@),
{
    match regex::Regex::new(pat) {
        Ok(re) => Some(re.replace_all(text, rewrite).into_owned()),
        Err(_) => None,
    }
}

/// Relies on envmnt::expand with Windows-style `%VAR%` expansion and
/// unknown variables defaulting to empty. The result depends on the
/// process environment; text without the marker passes through unchanged.
#[verifier::external_body]
pub fn expand_env_vars(s: &str) -> (r: String)
    ensures
        !s@.contains('%') ==> r@ == s@,
{
    envmnt::expand(
        s,
        Some(
            envmnt::ExpandOptions {
                expansion_type: Some(envmnt::ExpansionType::Windows),
                default_to_empty: true,
            },
        ),
    )
}

// ---------------------------------------------------------------------------
// Rules
// ---------------------------------------------------------------------------

/// What a matching rule does with the process.
#[derive(Clone, Copy, PartialEq, Eq, Structural, Debug)]
pub enum RegExpAction {
    Accept,
    Drop,
}

impl Default for RegExpAction {
    fn default() -> (r: Self)
        ensures
            r == RegExpAction::Accept,
    {
        RegExpAction::Accept
    }
}

/// One rule as configured: match target, pattern, action and rewrite
/// template.
#[derive(Clone, Debug)]
pub struct OsProcRegexp {
    pub match_regex: String,
    pub match_type: String,
    pub action: String,
    pub rewrite_name: String,
}

/// A validated rule: the pattern compiles, and the variant records the
/// match target.
#[derive(Clone, Debug)]
pub enum ProcRegRewrite {
    /// Matches against the space-joined command line.
    Cmd(String, RegExpAction, String),
    /// Matches against the raw executable name.
    ProcessName(String, RegExpAction, String),
}

/// Why a configured rule was rejected.
#[derive(Clone, Copy, PartialEq, Eq, Structural, Debug)]
pub enum RuleError {
    BadPattern,
    BadAction,
    BadMatchType,
}

/// The configured action names one of the allowed values; the empty
/// string defaults to accept.
pub open spec fn cfg_action_ok(value: OsProcRegexp) -> bool {
    value.action@ == ""@ || value.action@ == "accept"@ || value.action@ == "drop"@
}

/// The configured match type names one of the allowed values; the empty
/// string defaults to the process name.
pub open spec fn cfg_match_type_ok(value: OsProcRegexp) -> bool {
    value.match_type@ == ""@ || value.match_type@ == "process_name"@ || value.match_type@
        == "cmd"@
}

/// The error one configuration entry draws: the pattern is checked
/// first, then the action, then the match type.
pub open spec fn cfg_error(value: OsProcRegexp) -> Option<RuleError> {
    if !regex_ok(value.match_regex@) {
        Some(RuleError::BadPattern)
    } else if !cfg_action_ok(value) {
        Some(RuleError::BadAction)
    } else if !cfg_match_type_ok(value) {
        Some(RuleError::BadMatchType)
    } else {
        None
    }
}

/// The error of the first invalid entry, in configuration order.
pub open spec fn first_cfg_error(cfgs: Seq<OsProcRegexp>) -> Option<RuleError>
    decreases cfgs.len(),
{
    if cfgs.len() == 0 {
        None
    } else {
        match cfg_error(cfgs[0]) {
            Some(e) => Some(e),
            None => first_cfg_error(cfgs.drop_first()),
        }
    }
}

proof fn lemma_first_cfg_error_at(cfgs: Seq<OsProcRegexp>, i: int)
    requires
        0 <= i < cfgs.len(),
        cfg_error(cfgs[i]) is Some,
        forall|j: int| 0 <= j < i ==> cfg_error(#[trigger] cfgs[j]) is None,
    ensures
        first_cfg_error(cfgs) == cfg_error(cfgs[i]),
    decreases i,
{
    if i == 0 {
    } else {
        assert(cfg_error(cfgs[0]) is None);
        assert(cfgs.drop_first()[i - 1] == cfgs[i]);
        assert(forall|j: int|
            0 <= j < i - 1 ==> cfgs.drop_first()[j] == cfgs[j + 1] && cfg_error(
                #[trigger] cfgs.drop_first()[j],
            ) is None);
        lemma_first_cfg_error_at(cfgs.drop_first(), i - 1);
    }
}

proof fn lemma_first_cfg_error_none(cfgs: Seq<OsProcRegexp>)
    requires
        forall|j: int| 0 <= j < cfgs.len() ==> cfg_error(#[trigger] cfgs[j]) is None,
    ensures
        first_cfg_error(cfgs) is None,
    decreases cfgs.len(),
{
    if cfgs.len() > 0 {
        assert(forall|j: int|
            0 <= j < cfgs.drop_first().len() ==> cfgs.drop_first()[j] == cfgs[j + 1] && cfg_error(
                #[trigger] cfgs.drop_first()[j],
            ) is None);
        lemma_first_cfg_error_none(cfgs.drop_first());
    }
}

/// A validated rule against the configuration entry it came from.
pub open spec fn rule_from_cfg(value: OsProcRegexp, rule: ProcRegRewrite) -> bool {
    &&& rule.wf()
    &&& cfg_action_ok(value)
    &&& cfg_match_type_ok(value)
    &&& rule.spec_pattern() == value.match_regex@
    &&& (value.action@ == ""@ || value.action@ == "accept"@ ==> rule.spec_action()
        == RegExpAction::Accept)
    &&& (value.action@ == "drop"@ ==> rule.spec_action() == RegExpAction::Drop)
    &&& (value.match_type@ == "cmd"@ <==> rule is Cmd)
    &&& (!value.rewrite_name@.contains('%') ==> rule.spec_rewrite() == value.rewrite_name@)
}

impl ProcRegRewrite {
    pub open spec fn spec_pattern(self) -> Seq<char> {
        match self {
            ProcRegRewrite::Cmd(p, _, _) => p@,
            ProcRegRewrite::ProcessName(p, _, _) => p@,
        }
    }

    pub open spec fn spec_action(self) -> RegExpAction {
        match self {
            ProcRegRewrite::Cmd(_, a, _) => a,
            ProcRegRewrite::ProcessName(_, a, _) => a,
        }
    }

    pub open spec fn spec_rewrite(self) -> Seq<char> {
        match self {
            ProcRegRewrite::Cmd(_, _, r) => r@,
            ProcRegRewrite::ProcessName(_, _, r) => r@,
        }
    }

    /// The rule's pattern compiles.
    pub open spec fn wf(self) -> bool {
        regex_ok(self.spec_pattern())
    }

    /// The action this rule takes on a match.
    pub fn action(&self) -> (r: RegExpAction)
        ensures
            r == self.spec_action(),
    {
        match self {
            ProcRegRewrite::Cmd(_, act, _) => *act,
            ProcRegRewrite::ProcessName(_, act, _) => *act,
        }
    }

    /// Validates one configured rule: the pattern must compile, the action
    /// must be empty (accept), `accept` or `drop`, and the match type must
    /// be empty (process name), `process_name` or `cmd`; the first of
    /// those violated names the error. The rewrite template is expanded
    /// against the environment.
    pub fn try_new(value: &OsProcRegexp) -> (r: Result<Self, RuleError>)
        ensures
            match r {
                Ok(rule) => rule_from_cfg(*value, rule),
                Err(e) => cfg_error(*value) == Some(e),
            },
    {
        proof {
            reveal_strlit("");
            reveal_strlit("accept");
            reveal_strlit("drop");
            reveal_strlit("cmd");
            reveal_strlit("process_name");
        }
        if !regex_valid(value.match_regex.as_str()) {
            return Err(RuleError::BadPattern);
        }
        let action: RegExpAction = if str_eq(value.action.as_str(), "") || str_eq(
            value.action.as_str(),
            "accept",
        ) {
            RegExpAction::Accept
        } else if str_eq(value.action.as_str(), "drop") {
            RegExpAction::Drop
        } else {
            return Err(RuleError::BadAction);
        };
        assert(""@.len() == 0 && "accept"@.len() == 6 && "drop"@.len() == 4) by {
            reveal_strlit("");
            reveal_strlit("accept");
            reveal_strlit("drop");
        }
        assert(value.action@ == "drop"@ ==> action == RegExpAction::Drop);
        let rewrite = expand_env_vars(value.rewrite_name.as_str());
        if str_eq(value.match_type.as_str(), "cmd") {
            Ok(ProcRegRewrite::Cmd(value.match_regex.clone(), action, rewrite))
        } else if str_eq(value.match_type.as_str(), "") || str_eq(
            value.match_type.as_str(),
            "process_name",
        ) {
            Ok(ProcRegRewrite::ProcessName(value.match_regex.clone(), action, rewrite))
        } else {
            Err(RuleError::BadMatchType)
        }
    }
}

// ---------------------------------------------------------------------------
// Matching
// ---------------------------------------------------------------------------

/// Command-line arguments joined with single spaces.
pub open spec fn join_spaces(parts: Seq<Seq<char>>) -> Seq<char>
    decreases parts.len(),
{
    if parts.len() == 0 {
        Seq::empty()
    } else if parts.len() == 1 {
        parts[0]
    } else {
        join_spaces(parts.drop_last()) + seq![' '] + parts.last()
    }
}

/// Joins command-line arguments with spaces.
pub fn join_cmd(cmd: &Vec<String>) -> (r: String)
    ensures
        r@ == join_spaces(cmd@.map_values(|s: String| s@)),
{
    let ghost parts = cmd@.map_values(|s: String| s@);
    let mut r = String::new();
    let n: usize = cmd.len();
    assert(parts.take(0) =~= Seq::<Seq<char>>::empty());
    for i in 0..n
        invariant
            n == cmd@.len(),
            parts == cmd@.map_values(|s: String| s@),
            r@ == join_spaces(parts.take(i as int)),
    {
        proof {
            assert(parts.take(i + 1).drop_last() =~= parts.take(i as int));
            assert(parts.take(i + 1).last() == parts[i as int]);
            assert(parts[i as int] == cmd@[i as int]@);
        }
        if i > 0 {
            r.append(" ");
            proof {
                reveal_strlit(" ");
                assert(" "@ =~= seq![' ']);
            }
        }
        r.append(cmd[i].as_str());
        proof {
            if i == 0 {
                assert(parts.take(1).len() == 1);
                assert(r@ =~= join_spaces(parts.take(1)));
            } else {
                assert(r@ =~= join_spaces(parts.take(i + 1)));
            }
        }
    }
    assert(parts.take(n as int) =~= parts);
    r
}

/// The text a rule matches against for a given process.
pub open spec fn match_target(rule: ProcRegRewrite, p: ProcessData) -> Seq<char> {
    match rule {
        ProcRegRewrite::Cmd(_, _, _) => join_spaces(p.cmd@.map_values(|s: String| s@)),
        ProcRegRewrite::ProcessName(_, _, _) => p.process_name@,
    }
}

pub open spec fn rule_matches(rule: ProcRegRewrite, p: ProcessData) -> bool {
    regex_matches(rule.spec_pattern(), match_target(rule, p))
}

/// The display name after a rule applied: rewritten only by an accepting
/// match with a non-empty template.
pub open spec fn rewritten_name(rule: ProcRegRewrite, p: ProcessData) -> Seq<char> {
    if rule.spec_action() == RegExpAction::Accept && rule.spec_rewrite().len() > 0 {
        regex_replaced(rule.spec_pattern(), match_target(rule, p), rule.spec_rewrite())
    } else {
        p.name@
    }
}

impl ProcRegRewrite {
    /// Tests this rule against the process; on an accepting match with a
    /// non-empty rewrite template (and unless `match_only` is set), the
    /// display name is rewritten from the matched target.
    pub fn match_and_rewrite_proc(&self, proc: &mut ProcessData, match_only: bool) -> (r: bool)
        requires
            self.wf(),
        ensures
            r == rule_matches(*self, *old(proc)),
            r && !match_only ==> final(proc).name@ == rewritten_name(*self, *old(proc)),
            !(r && !match_only) ==> final(proc).name == old(proc).name,
            final(proc).pid == old(proc).pid,
            final(proc).process_name == old(proc).process_name,
            final(proc).cmd == old(proc).cmd,
            final(proc).user_id == old(proc).user_id,
            final(proc).user == old(proc).user,
            final(proc).start_time == old(proc).start_time,
            final(proc).os_app_tags == old(proc).os_app_tags,
    {
        let (pattern, action, rewrite, target): (&String, RegExpAction, &String, String) =
            match self {
            ProcRegRewrite::Cmd(p, act, rw) => (p, *act, rw, join_cmd(&proc.cmd)),
            ProcRegRewrite::ProcessName(p, act, rw) => (p, *act, rw, proc.process_name.clone()),
        };
        let matched: bool = match regex_is_match(pattern.as_str(), target.as_str()) {
            Some(b) => b,
            None => {
                proof {
                    assert(false);
                }
                false
            },
        };
        if matched && !match_only && action == RegExpAction::Accept && !rewrite.as_str().is_empty() {
            match regex_replace_all(pattern.as_str(), target.as_str(), rewrite.as_str()) {
                Some(newname) => {
                    proc.name = newname;
                },
                None => {
                    proof {
                        assert(false);
                    }
                },
            }
        }
        matched
    }
}

/// The first rule in configuration order that matches the process.
pub open spec fn first_matching_rule(rules: Seq<ProcRegRewrite>, p: ProcessData) -> Option<
    ProcRegRewrite,
>
    decreases rules.len(),
{
    if rules.len() == 0 {
        None
    } else if rule_matches(rules[0], p) {
        Some(rules[0])
    } else {
        first_matching_rule(rules.drop_first(), p)
    }
}

/// First-match-wins: if a rule matches and no earlier rule does, that rule
/// and no other decides the process's fate.
pub proof fn lemma_first_match_wins(rules: Seq<ProcRegRewrite>, p: ProcessData, i: int)
    requires
        0 <= i < rules.len(),
        rule_matches(rules[i], p),
        forall|j: int| 0 <= j < i ==> !rule_matches(#[trigger] rules[j], p),
    ensures
        first_matching_rule(rules, p) == Some(rules[i]),
    decreases i,
{
    if i == 0 {
    } else {
        assert(!rule_matches(rules[0], p));
        assert(rules.drop_first()[i - 1] == rules[i]);
        assert(forall|j: int|
            0 <= j < i - 1 ==> rules.drop_first()[j] == rules[j + 1] && !rule_matches(
                #[trigger] rules.drop_first()[j],
                p,
            ));
        lemma_first_match_wins(rules.drop_first(), p, i - 1);
    }
}

/// No rule matches: the search comes up empty.
pub proof fn lemma_no_match(rules: Seq<ProcRegRewrite>, p: ProcessData)
    requires
        forall|j: int| 0 <= j < rules.len() ==> !rule_matches(#[trigger] rules[j], p),
    ensures
        first_matching_rule(rules, p) is None,
    decreases rules.len(),
{
    if rules.len() > 0 {
        assert(forall|j: int|
            0 <= j < rules.drop_first().len() ==> rules.drop_first()[j] == rules[j + 1]
                && !rule_matches(#[trigger] rules.drop_first()[j], p));
        lemma_no_match(rules.drop_first(), p);
    }
}

/// Compiles a configured rule list: a list of valid entries always
/// compiles, and otherwise the error is exactly the first invalid
/// entry's, as configuration errors surface at parse time.
pub fn compile_rules(cfgs: &Vec<OsProcRegexp>) -> (r: Result<Vec<ProcRegRewrite>, RuleError>)
    ensures
        r matches Ok(rules) ==> rules@.len() == cfgs@.len() && forall|i: int|
            0 <= i < rules@.len() ==> rule_from_cfg(cfgs@[i], #[trigger] rules@[i]),
        match first_cfg_error(cfgs@) {
            Some(e) => r == Err::<Vec<ProcRegRewrite>, RuleError>(e),
            None => r is Ok,
        },
{
    let mut rules: Vec<ProcRegRewrite> = Vec::new();
    let n: usize = cfgs.len();
    for i in 0..n
        invariant
            n == cfgs@.len(),
            rules@.len() == i,
            forall|j: int| 0 <= j < i ==> rule_from_cfg(cfgs@[j], #[trigger] rules@[j]),
            forall|j: int| 0 <= j < i ==> cfg_error(#[trigger] cfgs@[j]) is None,
    {
        match ProcRegRewrite::try_new(&cfgs[i]) {
            Ok(rule) => {
                proof {
                    assert(cfg_error(cfgs@[i as int]) is None);
                }
                rules.push(rule);
            },
            Err(e) => {
                proof {
                    assert(cfg_error(cfgs@[i as int]) == Some(e));
                    lemma_first_cfg_error_at(cfgs@, i as int);
                }
                return Err(e);
            },
        }
    }
    proof {
        lemma_first_cfg_error_none(cfgs@);
    }
    Ok(rules)
}

} // verus!
