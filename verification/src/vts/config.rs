//! Loading a transformation configuration.
//!
//! A configuration is a list of records, each the name of a parameter of
//! the avatar application and an expression that computes it. Loading
//! compiles every expression, asks for the registration of every parameter
//! that the avatar application does not have built in, and collects the
//! periods of the cyclic signals that the expressions mention.

use crate::decimal::{parse_u64, parsed_u64};
use crate::text::{contains, includes, same, to_chars};
use crate::vts::requests::ParameterCreation;
use crate::vts::session::{registration_views, ControlMessageView};
use std::collections::HashSet;
use vstd::prelude::*;

verus! {

broadcast use vstd::std_specs::hash::group_hash_axioms;

/// `evalexpr::Node`: a compiled expression, kept for the caller to
/// evaluate. Nothing is read in it.
#[verifier::external_type_specification]
#[verifier::external_body]
pub struct ExNode(evalexpr::Node);

/// `evalexpr::EvalexprError`: why an expression did not compile, handed
/// on as it came.
#[verifier::external_type_specification]
#[verifier::external_body]
pub struct ExEvalexprError(evalexpr::EvalexprError);

/// Whether a text is an expression that `evalexpr` can build an operator
/// tree for.
pub uninterp spec fn compiles(text: Seq<char>) -> bool;

/// The operator tree that `evalexpr` builds for a text that it can build
/// one for.
pub uninterp spec fn tree_of(text: Seq<char>) -> evalexpr::Node;

/// `evalexpr::build_operator_tree` tokenizes a text and builds its operator
/// tree. Whether it succeeds, and with which tree, depends on the text
/// alone; [`compiles`] names the answer and [`tree_of`] the tree.
pub assume_specification[ evalexpr::build_operator_tree ](string: &str) -> (tree: Result<
    evalexpr::Node,
    evalexpr::EvalexprError,
>)
    ensures
        tree.is_ok() == compiles(string@),
        tree matches Ok(node) ==> node == tree_of(string@),
;

/// The regular expression that finds a mention of a cyclic signal: one of
/// the two signal names and, in its second group, the digits after it.
pub const CYCLIC_PATTERN: &'static str = "(Wave|PingPong)(\\d+)";

/// What is told of a parameter that the bridge registers.
pub const EXPLANATION: &'static str = "Custom Sandoitchi Bridge param";

/// For each successive match of a regular expression in a text, what its
/// second group captured, if it took part in the match.
pub uninterp spec fn second_captures(pattern: Seq<char>, text: Seq<char>) -> Seq<
    Option<Seq<char>>,
>;

/// `regex::Regex::new`, then `captures_iter` and, on each match,
/// `Captures::get(2)` and `Match::as_str`: the text that the second group
/// captured in each successive match, named by [`second_captures`]. The
/// pattern is the one of this module, which `Regex::new` accepts.
#[verifier::external_body]
fn capture_second(pattern: &str, text: &str) -> (found: Vec<Option<String>>)
    requires
        pattern@ == CYCLIC_PATTERN@,
    ensures
        found@.map_values(
            |capture: Option<String>|
                match capture {
                    Some(t) => Some(t@),
                    None => None,
                },
        ) == second_captures(pattern@, text@),
{
    let finder = regex::Regex::new(pattern).unwrap();
    finder.captures_iter(text).map(
        |captures| captures.get(2).map(|group| group.as_str().to_string()),
    ).collect()
}

/// The period that a capture writes, if it writes one.
pub open spec fn period_of(capture: Option<Seq<char>>) -> Option<u64> {
    match capture {
        Some(digits) => parsed_u64(digits),
        None => None,
    }
}

/// Whether one of the captures writes the period.
pub open spec fn names_period(captures: Seq<Option<Seq<char>>>, period: u64) -> bool {
    exists|i: int| 0 <= i < captures.len() && period_of(#[trigger] captures[i]) == Some(period)
}

/// Whether an expression mentions a cyclic signal of the period.
pub open spec fn mentions_period(func: Seq<char>, period: u64) -> bool {
    names_period(second_captures(CYCLIC_PATTERN@, func), period)
}

/// Adds to `periods` those that the captures write.
pub fn collect_periods(periods: &mut HashSet<u64>, captures: &Vec<Option<String>>)
    ensures
        forall|period: u64|
            final(periods)@.contains(period) <==> (old(periods)@.contains(period) || names_period(
                captures@.map_values(
                    |capture: Option<String>|
                        match capture {
                            Some(t) => Some(t@),
                            None => None,
                        },
                ),
                period,
            )),
{
    let ghost written = captures@.map_values(
        |capture: Option<String>|
            match capture {
                Some(t) => Some(t@),
                None => None,
            },
    );
    let mut i: usize = 0;
    while i < captures.len()
        invariant
            i <= captures@.len(),
            written == captures@.map_values(
                |capture: Option<String>|
                    match capture {
                        Some(t) => Some(t@),
                        None => None,
                    },
            ),
            forall|period: u64|
                periods@.contains(period) <==> (old(periods)@.contains(period) || names_period(
                    written.take(i as int),
                    period,
                )),
        decreases captures@.len() - i,
    {
        let ghost before = periods@;
        let ghost capture = written[i as int];
        assert(forall|period: u64|
            names_period(written.take(i + 1), period) <==> (names_period(
                written.take(i as int),
                period,
            ) || period_of(capture) == Some(period))) by {
            assert forall|period: u64|
                names_period(written.take(i + 1), period) implies names_period(
                written.take(i as int),
                period,
            ) || period_of(capture) == Some(period) by {
                let k = choose|k: int|
                    0 <= k < written.take(i + 1).len() && period_of(
                        #[trigger] written.take(i + 1)[k],
                    ) == Some(period);
                if k < i {
                    assert(written.take(i as int)[k] == written.take(i + 1)[k]);
                }
            }
            assert forall|period: u64|
                names_period(written.take(i as int), period) || period_of(capture) == Some(
                    period,
                ) implies names_period(written.take(i + 1), period) by {
                if names_period(written.take(i as int), period) {
                    let k = choose|k: int|
                        0 <= k < written.take(i as int).len() && period_of(
                            #[trigger] written.take(i as int)[k],
                        ) == Some(period);
                    assert(written.take(i + 1)[k] == written.take(i as int)[k]);
                } else {
                    assert(written.take(i + 1)[i as int] == capture);
                }
            }
        }
        let value = match &captures[i] {
            Some(digits) => {
                let chars = to_chars(digits.as_str());
                parse_u64(chars.as_slice())
            },
            None => None,
        };
        assert(value == period_of(capture));
        if let Some(period) = value {
            let _ = periods.insert(period);
        }
        assert forall|p: u64|
            periods@.contains(p) <==> (old(periods)@.contains(p) || names_period(
                written.take(i + 1),
                p,
            )) by {
            assert(periods@.contains(p) <==> (before.contains(p) || value == Some(p)));
            assert(before.contains(p) <==> (old(periods)@.contains(p) || names_period(
                written.take(i as int),
                p,
            )));
            assert(names_period(written.take(i + 1), p) <==> (names_period(
                written.take(i as int),
                p,
            ) || period_of(capture) == Some(p)));
        }
        i += 1;
    }
    assert(written.take(written.len() as int) =~= written);
}

/// The periods of the cyclic signals that an expression mentions, each
/// once. A mention whose digits write no unsigned 64-bit number counts for
/// nothing.
pub fn extract_wave_pingpong_numbers(input: &str) -> (periods: HashSet<u64>)
    ensures
        forall|period: u64| periods@.contains(period) <==> mentions_period(input@, period),
{
    let captures = capture_second(CYCLIC_PATTERN, input);
    let mut periods: HashSet<u64> = HashSet::new();
    collect_periods(&mut periods, &captures);
    periods
}

/// The names of the parameters that the avatar application has built in.
pub open spec fn builtin_parameters() -> Seq<Seq<char>> {
    seq![
        "FacePositionX"@,
        "FacePositionY"@,
        "FacePositionZ"@,
        "FaceAngleX"@,
        "FaceAngleY"@,
        "FaceAngleZ"@,
        "MouthSmile"@,
        "MouthOpen"@,
        "Brows"@,
        "TongueOut"@,
        "EyeOpenLeft"@,
        "EyeOpenRight"@,
        "EyeLeftX"@,
        "EyeLeftY"@,
        "EyeRightX"@,
        "EyeRightY"@,
        "CheekPuff"@,
        "FaceAngry"@,
        "BrowLeftY"@,
        "BrowRightY"@,
        "MouthX"@,
        "VoiceFrequencyPlusMouthSmile"@,
    ]
}

/// Whether a parameter is built in.
pub open spec fn is_builtin(name: Seq<char>) -> bool {
    builtin_parameters().contains(name)
}

fn builtin_names() -> (names: Vec<&'static str>)
    ensures
        names@.map_values(|name: &'static str| name@) == builtin_parameters(),
{
    let names = vec![
        "FacePositionX",
        "FacePositionY",
        "FacePositionZ",
        "FaceAngleX",
        "FaceAngleY",
        "FaceAngleZ",
        "MouthSmile",
        "MouthOpen",
        "Brows",
        "TongueOut",
        "EyeOpenLeft",
        "EyeOpenRight",
        "EyeLeftX",
        "EyeLeftY",
        "EyeRightX",
        "EyeRightY",
        "CheekPuff",
        "FaceAngry",
        "BrowLeftY",
        "BrowRightY",
        "MouthX",
        "VoiceFrequencyPlusMouthSmile",
    ];
    assert(names@.map_values(|name: &'static str| name@) =~= builtin_parameters());
    names
}

/// Tells whether a parameter is built in.
pub fn is_builtin_parameter(name: &str) -> (builtin: bool)
    ensures
        builtin == is_builtin(name@),
{
    let wanted = to_chars(name);
    let names = builtin_names();
    let ghost known = names@.map_values(|name: &'static str| name@);
    let mut i: usize = 0;
    while i < names.len()
        invariant
            i <= names@.len(),
            wanted@ == name@,
            known == names@.map_values(|name: &'static str| name@),
            known == builtin_parameters(),
            forall|k: int| 0 <= k < i ==> known[k] != name@,
        decreases names@.len() - i,
    {
        let candidate = to_chars(names[i]);
        assert(known[i as int] == names@[i as int]@);
        if same(wanted.as_slice(), candidate.as_slice()) {
            return true;
        }
        i += 1;
    }
    false
}

/// The fragments that mark an expression as one to keep evaluating while no
/// frame comes in: the face flag and the two cyclic signals.
pub open spec fn is_afk_rule(func: Seq<char>) -> bool {
    contains(func, "FaceFound"@) || contains(func, "Wave"@) || contains(func, "PingPong"@)
}

fn afk_tagged(func: &str) -> (tagged: bool)
    ensures
        tagged == is_afk_rule(func@),
{
    let text = to_chars(func);
    let face = to_chars("FaceFound");
    let wave = to_chars("Wave");
    let pingpong = to_chars("PingPong");
    includes(text.as_slice(), face.as_slice()) || includes(text.as_slice(), wave.as_slice())
        || includes(text.as_slice(), pingpong.as_slice())
}

/// One record of a configuration.
#[derive(Clone, Debug, PartialEq, Eq)]
pub struct CalcFn {
    pub name: String,
    pub func: String,
}

/// What a [`CalcFn`] says.
pub struct CalcFnView {
    pub name: Seq<char>,
    pub func: Seq<char>,
}

impl View for CalcFn {
    type V = CalcFnView;

    open spec fn view(&self) -> CalcFnView {
        CalcFnView { name: self.name@, func: self.func@ }
    }
}

/// The views of a run of records.
pub open spec fn records_of(records: Seq<CalcFn>) -> Seq<CalcFnView> {
    records.map_values(|record: CalcFn| record@)
}

/// Whether no two records compute the same parameter.
pub open spec fn distinct_names(records: Seq<CalcFnView>) -> bool {
    forall|i: int, j: int|
        0 <= i < j < records.len() ==> (#[trigger] records[i]).name != (#[trigger] records[j]).name
}

/// Tells whether no two records compute the same parameter. A loaded
/// configuration has the names of its records, so it names each parameter
/// once exactly where the records do.
pub fn has_distinct_names(records: &Vec<CalcFn>) -> (distinct: bool)
    ensures
        distinct == distinct_names(records_of(records@)),
{
    let ghost all = records_of(records@);
    let mut j: usize = 0;
    while j < records.len()
        invariant
            j <= records@.len(),
            all == records_of(records@),
            forall|a: int, b: int|
                0 <= a < b < j ==> (#[trigger] all[a]).name != (#[trigger] all[b]).name,
        decreases records@.len() - j,
    {
        let later = to_chars(records[j].name.as_str());
        assert(all[j as int].name == later@);
        let mut i: usize = 0;
        while i < j
            invariant
                i <= j < records@.len(),
                all == records_of(records@),
                all[j as int].name == later@,
                forall|a: int| 0 <= a < i ==> (#[trigger] all[a]).name != all[j as int].name,
            decreases j - i,
        {
            let earlier = to_chars(records[i].name.as_str());
            assert(all[i as int].name == earlier@);
            if same(earlier.as_slice(), later.as_slice()) {
                return false;
            }
            i += 1;
        }
        j += 1;
    }
    true
}

/// A rule ready for evaluation: a record with its expression compiled.
pub struct TransformationRule {
    name: String,
    func: String,
    node: evalexpr::Node,
    afk: bool,
}

impl View for TransformationRule {
    type V = CalcFnView;

    closed spec fn view(&self) -> CalcFnView {
        CalcFnView { name: self.name@, func: self.func@ }
    }
}

/// The views of a run of rules.
pub open spec fn rules_of(rules: Seq<TransformationRule>) -> Seq<CalcFnView> {
    rules.map_values(|rule: TransformationRule| rule@)
}

impl TransformationRule {
    #[verifier::type_invariant]
    spec fn well_formed(self) -> bool {
        &&& self.afk == is_afk_rule(self.func@)
        &&& compiles(self.func@)
        &&& self.node == tree_of(self.func@)
    }

    /// Compiles a record. The error is the one that `evalexpr` gave.
    pub fn compile(name: String, func: String) -> (rule: Result<Self, evalexpr::EvalexprError>)
        ensures
            rule.is_ok() == compiles(func@),
            rule matches Ok(r) ==> r@ == (CalcFnView { name: name@, func: func@ }),
    {
        match evalexpr::build_operator_tree(func.as_str()) {
            Ok(node) => {
                let afk = afk_tagged(func.as_str());
                Ok(TransformationRule { name, func, node, afk })
            },
            Err(error) => Err(error),
        }
    }

    /// The parameter that the rule computes.
    pub fn name(&self) -> (name: &str)
        ensures
            name@ == self@.name,
    {
        self.name.as_str()
    }

    /// The expression as it was written.
    pub fn func(&self) -> (func: &str)
        ensures
            func@ == self@.func,
            compiles(func@),
    {
        proof {
            use_type_invariant(self);
        }
        self.func.as_str()
    }

    /// The compiled expression: the operator tree of the rule's text.
    pub fn node(&self) -> (node: &evalexpr::Node)
        ensures
            *node == tree_of(self@.func),
    {
        proof {
            use_type_invariant(self);
        }
        &self.node
    }

    /// Whether the rule is evaluated while no frame comes in.
    pub fn is_afk(&self) -> (afk: bool)
        ensures
            afk == is_afk_rule(self@.func),
    {
        proof {
            use_type_invariant(self);
        }
        self.afk
    }
}

/// Why a configuration was turned down.
#[derive(Debug)]
pub struct ConfigError {
    /// The index of the first record whose expression does not compile.
    pub rule: usize,
    /// That expression.
    pub func: String,
    /// What `evalexpr` said of it.
    pub cause: evalexpr::EvalexprError,
}

/// A loaded configuration.
pub struct Transformation {
    /// The rules, one for each record and in the records' order.
    pub rules: Vec<TransformationRule>,
    /// The periods of the cyclic signals that the expressions mention.
    pub periods: HashSet<u64>,
    /// The registrations to send once, in the records' order.
    pub registrations: Vec<ParameterCreation>,
}

/// The registration that the record at index `rule` asks for, if its
/// parameter is not built in.
pub open spec fn registration_of(records: Seq<CalcFnView>, rule: int) -> Option<
    ControlMessageView,
> {
    if is_builtin(records[rule].name) {
        None
    } else {
        Some(
            ControlMessageView::RegisterParameter {
                name: records[rule].name,
                explanation: EXPLANATION@,
                rule: rule as nat,
            },
        )
    }
}

/// The registrations that a configuration asks for, in the records' order.
pub open spec fn registrations_for(records: Seq<CalcFnView>) -> Seq<ControlMessageView> {
    Seq::new(records.len(), |rule: int| rule).filter_map(
        |rule: int| registration_of(records, rule),
    )
}

/// Whether every expression of a configuration compiles.
pub open spec fn all_compile(records: Seq<CalcFnView>) -> bool {
    forall|i: int| 0 <= i < records.len() ==> compiles(#[trigger] records[i].func)
}

/// Loads a configuration. It is turned down as a whole where an expression
/// does not compile, with the first such expression as the reason.
pub fn precalc_cfg(records: Vec<CalcFn>) -> (loaded: Result<Transformation, ConfigError>)
    ensures
        loaded.is_ok() == all_compile(records_of(records@)),
        loaded matches Ok(cfg) ==> {
            &&& rules_of(cfg.rules@) == records_of(records@)
            &&& registration_views(cfg.registrations@) == registrations_for(records_of(records@))
            &&& forall|period: u64|
                cfg.periods@.contains(period) <==> exists|i: int|
                    0 <= i < records@.len() && mentions_period(
                        (#[trigger] records@[i]).func@,
                        period,
                    )
        },
        loaded matches Err(e) ==> {
            &&& e.rule < records@.len()
            &&& !compiles(records@[e.rule as int].func@)
            &&& e.func@ == records@[e.rule as int].func@
            &&& forall|i: int| 0 <= i < e.rule ==> compiles(#[trigger] records@[i].func@)
        },
{
    let ghost wanted = records_of(records@);
    let ghost indices = Seq::new(wanted.len(), |rule: int| rule);
    let ghost pick = |rule: int| registration_of(wanted, rule);
    let mut rules: Vec<TransformationRule> = Vec::new();
    let mut periods: HashSet<u64> = HashSet::new();
    let mut registrations: Vec<ParameterCreation> = Vec::new();
    let mut i: usize = 0;
    assert(rules_of(rules@) =~= wanted.take(0));
    assert(registration_views(registrations@) =~= indices.take(0).filter_map(pick));
    while i < records.len()
        invariant
            i <= records@.len(),
            wanted == records_of(records@),
            indices == Seq::new(wanted.len(), |rule: int| rule),
            pick == |rule: int| registration_of(wanted, rule),
            rules_of(rules@) == wanted.take(i as int),
            forall|k: int| 0 <= k < i ==> compiles(#[trigger] wanted[k].func),
            registration_views(registrations@) == indices.take(i as int).filter_map(pick),
            forall|period: u64|
                periods@.contains(period) <==> exists|k: int|
                    0 <= k < i && mentions_period((#[trigger] records@[k]).func@, period),
        decreases records@.len() - i,
    {
        let record = &records[i];
        assert(wanted[i as int] == record@);
        let ghost known = periods@;
        let ghost asked = registration_views(registrations@);
        let ghost built = rules_of(rules@);
        assert(indices.take(i + 1).drop_last() =~= indices.take(i as int));
        assert(indices.take(i + 1).last() == i);
        if !is_builtin_parameter(record.name.as_str()) {
            let request = ParameterCreation {
                parameter_name: record.name.clone(),
                explanation: EXPLANATION.to_owned(),
                rule: i,
            };
            registrations.push(request);
            assert(registration_views(registrations@) =~= asked + seq![
                registration_of(wanted, i as int)->0,
            ]);
        }
        let captures = capture_second(CYCLIC_PATTERN, record.func.as_str());
        collect_periods(&mut periods, &captures);
        assert(forall|period: u64|
            periods@.contains(period) <==> (known.contains(period) || mentions_period(
                record.func@,
                period,
            )));
        match TransformationRule::compile(record.name.clone(), record.func.clone()) {
            Ok(rule) => {
                rules.push(rule);
                assert(rules_of(rules@) =~= built.push(record@));
                assert(wanted.take(i + 1) =~= wanted.take(i as int).push(record@));
            },
            Err(cause) => {
                assert(!compiles(wanted[i as int].func));
                assert(forall|k: int|
                    0 <= k < i ==> wanted[k].func == (#[trigger] records@[k]).func@);
                return Err(ConfigError { rule: i, func: record.func.clone(), cause });
            },
        }
        i += 1;
    }
    assert(wanted.take(wanted.len() as int) =~= wanted);
    assert(indices.take(indices.len() as int) =~= indices);
    Ok(Transformation { rules, periods, registrations })
}

} // verus!
