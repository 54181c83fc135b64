//! Planning the parameter injections.
//!
//! While frames come in, every rule is evaluated on the newest frame as long
//! as it shows a face. While none comes in, the bridge falls back on the
//! context of the last injection: it keeps the avatar alive with the rules
//! that depend on the face flag or on a cyclic signal, and after the
//! face-search timeout it takes the face for lost.
//!
//! The plugin decides what is evaluated and what is remembered. The numbers
//! are the caller's: it keeps the evaluation context that belongs to
//! [`LastKnownState`], evaluates the rules that an injection names and
//! writes the message out.

use crate::decimal::{decimal, numbered};
use crate::text::{to_chars, to_text};
use crate::tracking::response::{Shape, TrackingResponse};
use crate::vts::config::{is_afk_rule, rules_of, CalcFnView, TransformationRule};
use crate::vts::cyclic::{calculate_ppw, pingpong, wave, Ratio};
use crate::vts::requests::{InjectParams, TrackingParam};
use std::collections::HashSet;
use vstd::prelude::*;
use vstd::std_specs::iter::IteratorSpec;

verus! {

broadcast use vstd::std_specs::hash::group_hash_axioms;

/// How an injection is applied.
pub const INJECT_MODE: &'static str = "set";

/// The context variable that carries the head position along x.
pub const HEAD_POS_X: &'static str = "HeadPosX";

/// The context variable that carries the head position along y.
pub const HEAD_POS_Y: &'static str = "HeadPosY";

/// The context variable that carries the head position along z.
pub const HEAD_POS_Z: &'static str = "HeadPosZ";

/// The context variable that carries the head rotation about x.
pub const HEAD_ROT_X: &'static str = "HeadRotX";

/// The context variable that carries the head rotation about y.
pub const HEAD_ROT_Y: &'static str = "HeadRotY";

/// The context variable that carries the head rotation about z.
pub const HEAD_ROT_Z: &'static str = "HeadRotZ";

/// The context variable that is 1 while a face is in view and 0 otherwise.
pub const FACE_FOUND: &'static str = "FaceFound";

/// The context of the last injection made from a frame, as far as the
/// plugin's decisions read it.
pub struct LastKnownState {
    /// When the context was recorded; `None` until the first injection.
    pub recorded_at: Option<u64>,
    /// The face flag in the recorded context.
    pub face_found: bool,
}

/// What an injection says: whether a face is reported, how the values are
/// applied, and for each parameter its name and the index of the rule that
/// computes it.
pub struct InjectView {
    pub face_found: bool,
    pub mode: Seq<char>,
    pub parameters: Seq<(Seq<char>, nat)>,
}

/// The view of an injection.
pub open spec fn inject_view(injection: InjectParams) -> InjectView {
    InjectView {
        face_found: injection.face_found,
        mode: injection.mode@,
        parameters: injection.parameter_values@.map_values(
            |p: TrackingParam| (p.id@, p.rule as nat),
        ),
    }
}

/// The view of what a step sends, if it sends.
pub open spec fn sent(injection: Option<InjectParams>) -> Option<InjectView> {
    match injection {
        Some(i) => Some(inject_view(i)),
        None => None,
    }
}

/// Every rule as a parameter of an injection, in order.
pub open spec fn all_parameters(rules: Seq<CalcFnView>) -> Seq<(Seq<char>, nat)> {
    Seq::new(rules.len(), |i: int| (rules[i].name, i as nat))
}

/// The rule at index `rule` as a parameter, if it is evaluated while no
/// frame comes in.
pub open spec fn afk_parameter(rules: Seq<CalcFnView>, rule: int) -> Option<(Seq<char>, nat)> {
    if is_afk_rule(rules[rule].func) {
        Some((rules[rule].name, rule as nat))
    } else {
        None
    }
}

/// Those among the first `upto` rules that are evaluated while no frame
/// comes in, as parameters of an injection, in order.
pub open spec fn afk_parameters_among(rules: Seq<CalcFnView>, upto: int) -> Seq<
    (Seq<char>, nat),
> {
    Seq::new(rules.len(), |i: int| i).take(upto).filter_map(|i: int| afk_parameter(rules, i))
}

/// The rules that are evaluated while no frame comes in, as parameters of
/// an injection, in order.
pub open spec fn afk_parameters(rules: Seq<CalcFnView>) -> Seq<(Seq<char>, nat)> {
    afk_parameters_among(rules, rules.len() as int)
}

/// What a frame leads to. A frame without a face, or a configuration
/// without rules, sends nothing and leaves what is remembered as it was.
/// Otherwise every rule is injected, a face is reported, and the context is
/// remembered as of `now`.
pub open spec fn fresh_step(
    pre: LastKnownState,
    face_found: bool,
    rules: Seq<CalcFnView>,
    now: u64,
) -> (LastKnownState, Option<InjectView>) {
    if face_found && rules.len() > 0 {
        (
            LastKnownState { recorded_at: Some(now), face_found: true },
            Some(
                InjectView {
                    face_found: true,
                    mode: INJECT_MODE@,
                    parameters: all_parameters(rules),
                },
            ),
        )
    } else {
        (pre, None)
    }
}

/// Whether the face is taken for lost: the remembered context shows a face,
/// and more than the timeout has gone by since it was recorded.
pub open spec fn face_lost(pre: LastKnownState, now: u64, timeout: u64) -> bool {
    match pre.recorded_at {
        Some(at) => pre.face_found && now - at > timeout,
        None => false,
    }
}

/// What the absence of a frame leads to. With nothing remembered, nothing
/// is sent. Otherwise the rules that depend on the face flag or a cyclic
/// signal are injected, no face is reported, and the remembered face flag
/// drops once the face is taken for lost.
pub open spec fn idle_step(pre: LastKnownState, rules: Seq<CalcFnView>, now: u64, timeout: u64) -> (
    LastKnownState,
    Option<InjectView>,
) {
    match pre.recorded_at {
        None => (pre, None),
        Some(at) => (
            LastKnownState {
                recorded_at: Some(at),
                face_found: pre.face_found && !face_lost(pre, now, timeout),
            },
            Some(
                InjectView {
                    face_found: false,
                    mode: INJECT_MODE@,
                    parameters: afk_parameters(rules),
                },
            ),
        ),
    }
}

/// A frame with a face, under a configuration with at least one rule, is
/// remembered. If then no frame comes in and more than the timeout goes by,
/// the next step reports no face, injects the rules that depend on the face
/// flag or a cyclic signal and no others, and remembers the face as lost.
pub proof fn lemma_face_lost_after_timeout(
    pre: LastKnownState,
    rules: Seq<CalcFnView>,
    seen: u64,
    now: u64,
    timeout: u64,
)
    requires
        rules.len() > 0,
        now - seen > timeout,
    ensures
        fresh_step(pre, true, rules, seen).0.recorded_at == Some(seen),
        ({
            let remembered = fresh_step(pre, true, rules, seen).0;
            let idle = idle_step(remembered, rules, now, timeout);
            &&& idle.1 matches Some(injection)
            &&& !injection.face_found
            &&& injection.parameters == afk_parameters(rules)
            &&& !idle.0.face_found
        }),
        forall|k: int|
            0 <= k < afk_parameters(rules).len() ==> {
                let rule = (#[trigger] afk_parameters(rules)[k]).1 as int;
                0 <= rule < rules.len() && is_afk_rule(rules[rule].func) && afk_parameters(
                    rules,
                )[k].0 == rules[rule].name
            },
{
    lemma_afk_parameters(rules, rules.len() as int);
}

/// Each of the parameters picked among the first `upto` rules belongs to a
/// rule that depends on the face flag or a cyclic signal.
proof fn lemma_afk_parameters(rules: Seq<CalcFnView>, upto: int)
    requires
        0 <= upto <= rules.len(),
    ensures
        forall|k: int|
            0 <= k < afk_parameters_among(rules, upto).len() ==> {
                let picked = #[trigger] afk_parameters_among(rules, upto)[k];
                0 <= picked.1 < upto && is_afk_rule(rules[picked.1 as int].func) && picked.0
                    == rules[picked.1 as int].name
            },
    decreases upto,
{
    let now = afk_parameters_among(rules, upto);
    if upto > 0 {
        let indices = Seq::new(rules.len(), |i: int| i);
        let before = afk_parameters_among(rules, upto - 1);
        lemma_afk_parameters(rules, upto - 1);
        assert(indices.take(upto).drop_last() =~= indices.take(upto - 1));
        assert(indices.take(upto).last() == upto - 1);
        match afk_parameter(rules, upto - 1) {
            Some(last) => {
                assert(now =~= before + seq![last]);
            },
            None => {
                assert(now =~= before);
            },
        }
        assert forall|k: int| 0 <= k < now.len() implies {
            let picked = #[trigger] now[k];
            0 <= picked.1 < upto && is_afk_rule(rules[picked.1 as int].func) && picked.0
                == rules[picked.1 as int].name
        } by {
            if k < before.len() {
                assert(now[k] == before[k]);
            }
        }
    } else {
        assert(now.len() == 0);
    }
}

/// The newest of the frames that have come in since the last look, if any
/// has: the older ones are of no use.
pub fn newest<T>(frames: Vec<T>) -> (frame: Option<T>)
    ensures
        frame == if frames@.len() == 0 {
            None
        } else {
            Some(frames@.last())
        },
{
    let mut frames = frames;
    frames.pop()
}

/// A cyclic signal under the name that expressions use for it.
#[derive(Clone, Debug, PartialEq, Eq)]
pub struct CyclicValue {
    pub name: String,
    pub value: Ratio,
}

/// What a run of cyclic signals says.
pub open spec fn signals_of(values: Seq<CyclicValue>) -> Seq<(Seq<char>, Ratio)> {
    values.map_values(|signal: CyclicValue| (signal.name@, signal.value))
}

/// The two signals of one period at a clock reading, under their names:
/// `PingPong` and `Wave`, each followed by the period in decimal digits.
pub open spec fn cycle(period: u64, total_milliseconds: u128) -> Seq<(Seq<char>, Ratio)> {
    seq![
        ("PingPong"@ + decimal(period as nat), pingpong(total_milliseconds, period)),
        ("Wave"@ + decimal(period as nat), wave(total_milliseconds, period)),
    ]
}

/// The signals of the given periods at a clock reading, period by period.
pub open spec fn cycles(periods: Seq<u64>, total_milliseconds: u128) -> Seq<(Seq<char>, Ratio)>
    decreases periods.len(),
{
    if periods.len() == 0 {
        Seq::empty()
    } else {
        cycles(periods.drop_last(), total_milliseconds) + cycle(
            periods.last(),
            total_milliseconds,
        )
    }
}

/// Whether a run of periods lists a set of periods: each of the set once,
/// and no other.
pub open spec fn lists(order: Seq<u64>, periods: Set<u64>) -> bool {
    order.no_duplicates() && order.to_set() == periods
}

/// The cyclic signals of the given periods at a clock reading: the periods
/// in some order, and for each its ping-pong signal and then its wave.
pub fn insert_cyclic_info(periods: &HashSet<u64>, total_milliseconds: u128) -> (values: Vec<
    CyclicValue,
>)
    requires
        !periods@.contains(0),
    ensures
        exists|order: Seq<u64>| #[trigger]
            lists(order, periods@) && signals_of(values@) == cycles(order, total_milliseconds),
{
    let ghost order = periods.iter().remaining().unref();
    let mut values: Vec<CyclicValue> = Vec::new();
    assert(signals_of(values@) =~= cycles(order.take(0), total_milliseconds));
    for next in it: periods.iter()
        invariant
            it.seq().unref() == order,
            lists(order, periods@),
            !periods@.contains(0),
            signals_of(values@) == cycles(order.take(it.index() as int), total_milliseconds),
    {
        let ghost before = signals_of(values@);
        let ghost done = it.index() as int;
        let period = *next;
        assert(period == order[done]);
        assert(order.contains(period));
        let (ping_pong, wave) = calculate_ppw(total_milliseconds, period);
        values.push(CyclicValue { name: numbered("PingPong", period), value: ping_pong });
        values.push(CyclicValue { name: numbered("Wave", period), value: wave });
        assert(signals_of(values@) =~= before + cycle(period, total_milliseconds));
        assert(order.take(done + 1).drop_last() =~= order.take(done));
    }
    assert(order.take(order.len() as int) =~= order);
    values
}

/// The cyclic signals of the given periods at a clock reading, or `None`
/// where a period is zero and so has no cycle.
pub fn cyclic_info(periods: &HashSet<u64>, total_milliseconds: u128) -> (values: Option<
    Vec<CyclicValue>,
>)
    ensures
        values is Some == !periods@.contains(0),
        values matches Some(v) ==> exists|order: Seq<u64>| #[trigger]
            lists(order, periods@) && signals_of(v@) == cycles(order, total_milliseconds),
{
    if periods.contains(&0) {
        None
    } else {
        Some(insert_cyclic_info(periods, total_milliseconds))
    }
}

/// What stands under a name in an evaluation context.
#[derive(Clone, Debug, PartialEq, Eq)]
pub enum ContextValue<N> {
    /// A cyclic signal.
    Signal(Ratio),
    /// A number of the frame.
    Reading(N),
    /// A flag, which counts as 1 when set and as 0 when not.
    Flag(bool),
}

/// A variable of an evaluation context.
#[derive(Clone, Debug, PartialEq, Eq)]
pub struct ContextEntry<N> {
    pub name: String,
    pub value: ContextValue<N>,
}

/// What a run of context variables says.
pub open spec fn entries_of<N>(entries: Seq<ContextEntry<N>>) -> Seq<(Seq<char>, ContextValue<N>)> {
    entries.map_values(|entry: ContextEntry<N>| (entry.name@, entry.value))
}

/// The cyclic signals as context variables.
pub open spec fn signal_entries<N>(cyclic: Seq<CyclicValue>) -> Seq<(Seq<char>, ContextValue<N>)> {
    cyclic.map_values(|signal: CyclicValue| (signal.name@, ContextValue::<N>::Signal(signal.value)))
}

/// The blend shapes as context variables.
pub open spec fn shape_entries<N>(shapes: Seq<Shape<N>>) -> Seq<(Seq<char>, ContextValue<N>)> {
    shapes.map_values(|shape: Shape<N>| (shape.k@, ContextValue::Reading(shape.v)))
}

/// The head pose and the face flag as context variables.
pub open spec fn pose_entries<N>(frame: TrackingResponse<N>) -> Seq<(Seq<char>, ContextValue<N>)> {
    seq![
        (HEAD_POS_X@, ContextValue::Reading(frame.position.x)),
        (HEAD_POS_Y@, ContextValue::Reading(frame.position.y)),
        (HEAD_POS_Z@, ContextValue::Reading(frame.position.z)),
        (HEAD_ROT_X@, ContextValue::Reading(frame.rotation.x)),
        (HEAD_ROT_Y@, ContextValue::Reading(frame.rotation.y)),
        (HEAD_ROT_Z@, ContextValue::Reading(frame.rotation.z)),
        (FACE_FOUND@, ContextValue::Flag(frame.face_found)),
    ]
}

/// The evaluation context of a frame: the cyclic signals, then the blend
/// shapes, then the head pose, then the face flag. Where a name comes
/// twice, the later variable is the one that counts.
pub open spec fn context_of<N>(frame: TrackingResponse<N>, cyclic: Seq<CyclicValue>) -> Seq<
    (Seq<char>, ContextValue<N>),
> {
    signal_entries(cyclic) + shape_entries(frame.blend_shapes@) + pose_entries(frame)
}

/// What stands under a name once the variables have been set in their
/// order: the value of the last one that has the name.
pub open spec fn bound<N>(entries: Seq<(Seq<char>, ContextValue<N>)>, name: Seq<char>) -> Option<
    ContextValue<N>,
>
    decreases entries.len(),
{
    if entries.len() == 0 {
        None
    } else if entries.last().0 == name {
        Some(entries.last().1)
    } else {
        bound(entries.drop_last(), name)
    }
}

/// In the context of a frame the face flag and the head pose are the
/// frame's, whatever the blend shapes and the cyclic signals are called.
pub proof fn lemma_frame_rules_its_context<N>(frame: TrackingResponse<N>, cyclic: Seq<CyclicValue>)
    ensures
        bound(context_of(frame, cyclic), FACE_FOUND@) == Some(
            ContextValue::<N>::Flag(frame.face_found),
        ),
        bound(context_of(frame, cyclic), HEAD_ROT_Z@) == Some(
            ContextValue::Reading(frame.rotation.z),
        ),
        bound(context_of(frame, cyclic), HEAD_ROT_Y@) == Some(
            ContextValue::Reading(frame.rotation.y),
        ),
        bound(context_of(frame, cyclic), HEAD_ROT_X@) == Some(
            ContextValue::Reading(frame.rotation.x),
        ),
        bound(context_of(frame, cyclic), HEAD_POS_Z@) == Some(
            ContextValue::Reading(frame.position.z),
        ),
        bound(context_of(frame, cyclic), HEAD_POS_Y@) == Some(
            ContextValue::Reading(frame.position.y),
        ),
        bound(context_of(frame, cyclic), HEAD_POS_X@) == Some(
            ContextValue::Reading(frame.position.x),
        ),
{
    reveal_strlit("FaceFound");
    reveal_strlit("HeadRotZ");
    reveal_strlit("HeadRotY");
    reveal_strlit("HeadRotX");
    reveal_strlit("HeadPosZ");
    reveal_strlit("HeadPosY");
    reveal_strlit("HeadPosX");
    let all = context_of(frame, cyclic);
    let n = all.len() as int;
    let pose = pose_entries(frame);
    assert(forall|k: int| 0 <= k < 7 ==> all[n - 7 + k] == pose[k]);
    // The seven names differ in their first, fifth or eighth character.
    assert(FACE_FOUND@[0] == 'F');
    assert(HEAD_ROT_X@[0] == 'H' && HEAD_ROT_X@[4] == 'R' && HEAD_ROT_X@[7] == 'X');
    assert(HEAD_ROT_Y@[0] == 'H' && HEAD_ROT_Y@[4] == 'R' && HEAD_ROT_Y@[7] == 'Y');
    assert(HEAD_ROT_Z@[0] == 'H' && HEAD_ROT_Z@[4] == 'R' && HEAD_ROT_Z@[7] == 'Z');
    assert(HEAD_POS_X@[0] == 'H' && HEAD_POS_X@[4] == 'P' && HEAD_POS_X@[7] == 'X');
    assert(HEAD_POS_Y@[0] == 'H' && HEAD_POS_Y@[4] == 'P' && HEAD_POS_Y@[7] == 'Y');
    assert(HEAD_POS_Z@[0] == 'H' && HEAD_POS_Z@[4] == 'P' && HEAD_POS_Z@[7] == 'Z');
    let a6 = all;
    let a5 = a6.drop_last();
    let a4 = a5.drop_last();
    let a3 = a4.drop_last();
    let a2 = a3.drop_last();
    let a1 = a2.drop_last();
    let a0 = a1.drop_last();
    assert(a6.last() == pose[6]);
    assert(a5.last() == pose[5]);
    assert(a4.last() == pose[4]);
    assert(a3.last() == pose[3]);
    assert(a2.last() == pose[2]);
    assert(a1.last() == pose[1]);
    assert(a0.last() == pose[0]);
    reveal_with_fuel(bound, 8);
}

fn named<N>(name: &str, value: ContextValue<N>) -> (entry: ContextEntry<N>)
    ensures
        entry.name@ == name@,
        entry.value == value,
{
    let chars = to_chars(name);
    ContextEntry { name: to_text(chars.as_slice()), value }
}

/// Builds the evaluation context of a frame, in the order in which its
/// variables are to be set.
pub fn evaluation_context<N>(frame: TrackingResponse<N>, cyclic: Vec<CyclicValue>) -> (entries: Vec<
    ContextEntry<N>,
>)
    ensures
        entries_of(entries@) == context_of(frame, cyclic@),
{
    let ghost signals = cyclic@;
    let ghost shapes = frame.blend_shapes@;
    let mut entries: Vec<ContextEntry<N>> = Vec::new();
    for signal in it: cyclic
        invariant
            it.seq() == signals,
            entries_of(entries@) == signal_entries::<N>(signals.take(it.index() as int)),
    {
        let ghost before = entries_of(entries@);
        entries.push(ContextEntry { name: signal.name, value: ContextValue::Signal(signal.value) });
        assert(entries_of(entries@) =~= before.push(
            (signal.name@, ContextValue::<N>::Signal(signal.value)),
        ));
        assert(signal_entries::<N>(signals.take(it.index() + 1)) =~= signal_entries::<N>(
            signals.take(it.index() as int),
        ).push((signal.name@, ContextValue::<N>::Signal(signal.value))));
    }
    assert(signals.take(signals.len() as int) =~= signals);
    let TrackingResponse { face_found, rotation, position, blend_shapes, .. } = frame;
    for shape in it: blend_shapes
        invariant
            it.seq() == shapes,
            entries_of(entries@) == signal_entries::<N>(signals) + shape_entries(
                shapes.take(it.index() as int),
            ),
    {
        let ghost before = entries_of(entries@);
        entries.push(ContextEntry { name: shape.k, value: ContextValue::Reading(shape.v) });
        assert(entries_of(entries@) =~= before.push((shape.k@, ContextValue::Reading(shape.v))));
        assert(shape_entries(shapes.take(it.index() + 1)) =~= shape_entries(
            shapes.take(it.index() as int),
        ).push((shape.k@, ContextValue::Reading(shape.v))));
    }
    assert(shapes.take(shapes.len() as int) =~= shapes);
    let ghost before = entries_of(entries@);
    entries.push(named(HEAD_POS_X, ContextValue::Reading(position.x)));
    entries.push(named(HEAD_POS_Y, ContextValue::Reading(position.y)));
    entries.push(named(HEAD_POS_Z, ContextValue::Reading(position.z)));
    entries.push(named(HEAD_ROT_X, ContextValue::Reading(rotation.x)));
    entries.push(named(HEAD_ROT_Y, ContextValue::Reading(rotation.y)));
    entries.push(named(HEAD_ROT_Z, ContextValue::Reading(rotation.z)));
    entries.push(named(FACE_FOUND, ContextValue::Flag(face_found)));
    assert(entries_of(entries@) =~= before + pose_entries(frame));
    entries
}

/// The state of the plugin.
pub struct PluginState {
    /// Milliseconds between two reloads of the configuration; zero for
    /// never.
    pub config_reload_interval: u64,
    /// How long a face may stay out of view before it is taken for lost, in
    /// the unit of the clock that stamps the injections.
    pub face_search_timeout: u64,
    pub last_context: LastKnownState,
}

/// The plugin on the avatar application's side of the bridge.
pub struct VTubeStudioPlugin {
    config_reload_interval: u64,
    face_search_timeout: u64,
    recorded_at: Option<u64>,
    face_found: bool,
}

impl View for VTubeStudioPlugin {
    type V = PluginState;

    closed spec fn view(&self) -> PluginState {
        PluginState {
            config_reload_interval: self.config_reload_interval,
            face_search_timeout: self.face_search_timeout,
            last_context: LastKnownState {
                recorded_at: self.recorded_at,
                face_found: self.face_found,
            },
        }
    }
}

impl VTubeStudioPlugin {
    /// A plugin that remembers nothing yet.
    pub fn new(config_reload_delay: u64, face_search_timeout: u64) -> (plugin: Self)
        ensures
            plugin@.config_reload_interval == config_reload_delay,
            plugin@.face_search_timeout == face_search_timeout,
            plugin@.last_context.recorded_at is None,
            !plugin@.last_context.face_found,
    {
        VTubeStudioPlugin {
            config_reload_interval: config_reload_delay,
            face_search_timeout,
            recorded_at: None,
            face_found: false,
        }
    }

    /// Whether the configuration is due for a reload, `elapsed` milliseconds
    /// after it was last loaded. An interval of zero switches reloading off.
    pub fn reload_due(&self, elapsed: u64) -> (due: bool)
        ensures
            due == (self@.config_reload_interval != 0 && elapsed > self@.config_reload_interval),
    {
        self.config_reload_interval != 0 && elapsed > self.config_reload_interval
    }

    /// When the remembered context was recorded, and the face flag in it.
    pub fn last_context(&self) -> (state: (Option<u64>, bool))
        ensures
            state.0 == self@.last_context.recorded_at,
            state.1 == self@.last_context.face_found,
    {
        (self.recorded_at, self.face_found)
    }

    /// What to set in the remembered context before the rules are evaluated
    /// at a moment without a frame: the face flag as it is remembered, then
    /// the cyclic signals of the moment.
    pub fn idle_context<N>(&self, cyclic: Vec<CyclicValue>) -> (entries: Vec<ContextEntry<N>>)
        ensures
            entries_of(entries@) == seq![
                (FACE_FOUND@, ContextValue::<N>::Flag(self@.last_context.face_found)),
            ] + signal_entries::<N>(cyclic@),
    {
        let ghost signals = cyclic@;
        let mut entries: Vec<ContextEntry<N>> = Vec::new();
        entries.push(named(FACE_FOUND, ContextValue::Flag(self.face_found)));
        let ghost flag = entries_of(entries@);
        assert(flag =~= seq![(FACE_FOUND@, ContextValue::<N>::Flag(self.face_found))]);
        for signal in it: cyclic
            invariant
                it.seq() == signals,
                entries_of(entries@) == flag + signal_entries::<N>(
                    signals.take(it.index() as int),
                ),
        {
            let ghost before = entries_of(entries@);
            entries.push(
                ContextEntry { name: signal.name, value: ContextValue::Signal(signal.value) },
            );
            assert(entries_of(entries@) =~= before.push(
                (signal.name@, ContextValue::<N>::Signal(signal.value)),
            ));
            assert(signal_entries::<N>(signals.take(it.index() + 1)) =~= signal_entries::<N>(
                signals.take(it.index() as int),
            ).push((signal.name@, ContextValue::<N>::Signal(signal.value))));
        }
        assert(signals.take(signals.len() as int) =~= signals);
        entries
    }

    /// Plans the next injection. `frame` is the newest frame, or `None` if no
    /// frame has come in since the last call.
    pub fn tracking_msg<'a, N>(
        &mut self,
        frame: Option<&TrackingResponse<N>>,
        rules: &'a Vec<TransformationRule>,
        now: u64,
    ) -> (injection: Option<InjectParams<'a>>)
        ensures
            final(self)@.config_reload_interval == old(self)@.config_reload_interval,
            final(self)@.face_search_timeout == old(self)@.face_search_timeout,
            (final(self)@.last_context, sent(injection)) == match frame {
                Some(newest) => fresh_step(
                    old(self)@.last_context,
                    newest.face_found,
                    rules_of(rules@),
                    now,
                ),
                None => idle_step(
                    old(self)@.last_context,
                    rules_of(rules@),
                    now,
                    old(self)@.face_search_timeout,
                ),
            },
    {
        let found = match frame {
            None => {
                return self.track_cyclic_info_only(rules, now);
            },
            Some(newest) => newest.face_found,
        };
        if !found || rules.len() == 0 {
            return None;
        }
        let ghost all = rules_of(rules@);
        let mut parameter_values: Vec<TrackingParam<'a>> = Vec::new();
        let mut i: usize = 0;
        while i < rules.len()
            invariant
                i <= rules@.len(),
                all == rules_of(rules@),
                parameter_values@.map_values(|p: TrackingParam| (p.id@, p.rule as nat))
                    == all_parameters(all).take(i as int),
            decreases rules@.len() - i,
        {
            let ghost before = parameter_values@.map_values(
                |p: TrackingParam| (p.id@, p.rule as nat),
            );
            let parameter = TrackingParam { id: rules[i].name(), rule: i };
            assert(all[i as int] == rules@[i as int]@);
            parameter_values.push(parameter);
            assert(parameter_values@.map_values(|p: TrackingParam| (p.id@, p.rule as nat))
                =~= before.push((all[i as int].name, i as nat)));
            assert(all_parameters(all).take(i + 1) =~= all_parameters(all).take(i as int).push(
                (all[i as int].name, i as nat),
            ));
            i += 1;
        }
        assert(all_parameters(all).take(all.len() as int) =~= all_parameters(all));
        self.recorded_at = Some(now);
        self.face_found = true;
        Some(InjectParams { face_found: true, mode: INJECT_MODE, parameter_values })
    }

    /// Plans the injection for a moment at which no frame has come in.
    pub fn track_cyclic_info_only<'a>(
        &mut self,
        rules: &'a Vec<TransformationRule>,
        now: u64,
    ) -> (injection: Option<InjectParams<'a>>)
        ensures
            final(self)@.config_reload_interval == old(self)@.config_reload_interval,
            final(self)@.face_search_timeout == old(self)@.face_search_timeout,
            (final(self)@.last_context, sent(injection)) == idle_step(
                old(self)@.last_context,
                rules_of(rules@),
                now,
                old(self)@.face_search_timeout,
            ),
    {
        let at = match self.recorded_at {
            None => {
                return None;
            },
            Some(at) => at,
        };
        if self.face_found && now > at && now - at > self.face_search_timeout {
            self.face_found = false;
        }
        let ghost all = rules_of(rules@);
        let ghost indices = Seq::new(all.len(), |i: int| i);
        let ghost pick = |i: int| afk_parameter(all, i);
        let mut parameter_values: Vec<TrackingParam<'a>> = Vec::new();
        let mut i: usize = 0;
        assert(parameter_values@.map_values(|p: TrackingParam| (p.id@, p.rule as nat))
            =~= indices.take(0).filter_map(pick));
        while i < rules.len()
            invariant
                i <= rules@.len(),
                all == rules_of(rules@),
                indices == Seq::new(all.len(), |i: int| i),
                pick == |i: int| afk_parameter(all, i),
                parameter_values@.map_values(|p: TrackingParam| (p.id@, p.rule as nat))
                    == indices.take(i as int).filter_map(pick),
            decreases rules@.len() - i,
        {
            let ghost before = parameter_values@.map_values(
                |p: TrackingParam| (p.id@, p.rule as nat),
            );
            assert(indices.take(i + 1).drop_last() =~= indices.take(i as int));
            assert(indices.take(i + 1).last() == i);
            assert(all[i as int] == rules@[i as int]@);
            if rules[i].is_afk() {
                let parameter = TrackingParam { id: rules[i].name(), rule: i };
                parameter_values.push(parameter);
                assert(parameter_values@.map_values(|p: TrackingParam| (p.id@, p.rule as nat))
                    =~= before + seq![(all[i as int].name, i as nat)]);
            }
            i += 1;
        }
        Some(InjectParams { face_found: false, mode: INJECT_MODE, parameter_values })
    }
}

} // verus!
