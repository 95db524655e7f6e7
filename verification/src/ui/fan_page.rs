//! The fan page: which plan each power mode has, which mode is being edited, and what the
//! page shows.

use vstd::prelude::*;

use crate::config::settings::{FanBinding, FanPlan};
use crate::hardware::fan::DEFAULT_FAN_CURVE;
use crate::hardware::profile::PowerProfile;
use crate::text::{same, text_of};

verus! {

/// The modes a plan can be bound to, in the order they are listed.
pub const MODES: [PowerProfile; 5] = [
    PowerProfile::Eco,
    PowerProfile::Quiet,
    PowerProfile::Balanced,
    PowerProfile::Performance,
    PowerProfile::Turbo,
];

/// Curves to start from. The silent one leans on the firmware.
pub const PRESET_SILENT: [u8; 6] = [0, 0, 30, 45, 65, 100];

pub const PRESET_BALANCED: [u8; 6] = DEFAULT_FAN_CURVE;

pub const PRESET_AGGRESSIVE: [u8; 6] = [40, 55, 70, 85, 100, 100];

/// Where the fixed speed starts for a mode that has none. Not zero, which would hand the fans
/// to the firmware.
pub const DEFAULT_FIXED_PERCENT: u8 = 50;

/// A plan as contracts speak of it.
pub enum Plan {
    Automatic,
    Curve(Seq<u8>),
    Fixed(u8),
    Max,
}

/// A plan as contracts speak of it.
pub open spec fn plan_view(plan: FanPlan) -> Plan {
    match plan {
        FanPlan::Automatic => Plan::Automatic,
        FanPlan::Curve { steps } => Plan::Curve(steps@),
        FanPlan::Fixed { percent } => Plan::Fixed(percent),
        FanPlan::Max => Plan::Max,
    }
}

/// A mode and its plan as contracts speak of them.
pub struct Bound {
    pub mode: Seq<char>,
    pub plan: Plan,
}

/// Bindings as contracts speak of them.
pub open spec fn bound_view(list: Seq<FanBinding>) -> Seq<Bound> {
    Seq::new(list.len(), |i: int| Bound { mode: list[i].mode@, plan: plan_view(list[i].plan) })
}

fn same_steps(a: &[u8; 6], b: &[u8; 6]) -> (r: bool)
    ensures
        r == (a@ == b@),
{
    let mut i: usize = 0;
    while i < 6
        invariant
            i <= 6,
            forall|k: int| 0 <= k < i ==> a@[k] == b@[k],
        decreases 6 - i,
    {
        if a[i] != b[i] {
            assert(a@[i as int] != b@[i as int]);
            return false;
        }
        i = i + 1;
    }
    assert(a@ =~= b@);
    true
}

fn same_plan(a: FanPlan, b: FanPlan) -> (r: bool)
    ensures
        r == (plan_view(a) == plan_view(b)),
{
    match (a, b) {
        (FanPlan::Automatic, FanPlan::Automatic) => true,
        (FanPlan::Curve { steps: x }, FanPlan::Curve { steps: y }) => same_steps(&x, &y),
        (FanPlan::Fixed { percent: x }, FanPlan::Fixed { percent: y }) => x == y,
        (FanPlan::Max, FanPlan::Max) => true,
        _ => false,
    }
}

/// The plan bound to a mode: the first binding of the mode says.
pub open spec fn plan_bound(list: Seq<Bound>, mode: Seq<char>) -> Option<Plan>
    decreases list.len(),
{
    if list.len() == 0 {
        None
    } else {
        match plan_bound(list.drop_last(), mode) {
            Some(plan) => Some(plan),
            None => if list.last().mode == mode {
                Some(list.last().plan)
            } else {
                None
            },
        }
    }
}

/// The plan of a mode; one without a plan leaves the fans to the firmware.
pub open spec fn plan_in_force(list: Seq<Bound>, mode: Seq<char>) -> Plan {
    match plan_bound(list, mode) {
        Some(plan) => plan,
        None => Plan::Automatic,
    }
}

/// The plan of a mode; one without a plan leaves the fans to the firmware.
pub fn plan_of(plans: &Vec<FanBinding>, mode_id: &str) -> (r: FanPlan)
    ensures
        plan_view(r) == plan_in_force(bound_view(plans@), mode_id@),
{
    let ghost all = bound_view(plans@);
    let mut found: Option<FanPlan> = None;
    let mut i: usize = 0;
    assert(all.take(0) =~= seq![]);
    while i < plans.len()
        invariant
            i <= plans@.len(),
            all == bound_view(plans@),
            match found {
                Some(plan) => plan_bound(all.take(i as int), mode_id@) == Some(plan_view(plan)),
                None => plan_bound(all.take(i as int), mode_id@) is None,
            },
        decreases plans@.len() - i,
    {
        assert(all.take(i + 1).drop_last() =~= all.take(i as int));
        assert(all.take(i + 1).last() == all[i as int]);
        if found.is_none() && same(plans[i].mode.as_str(), mode_id) {
            found = Some(plans[i].plan);
        }
        i = i + 1;
    }
    assert(all.take(i as int) =~= all);
    match found {
        Some(plan) => plan,
        None => FanPlan::Automatic,
    }
}

/// Bindings with a mode's plan replaced: the first binding of the mode gets it, or a new one
/// at the end.
pub open spec fn with_plan_bound(list: Seq<Bound>, mode: Seq<char>, plan: Plan) -> Seq<Bound>
    decreases list.len(),
{
    if list.len() == 0 {
        seq![Bound { mode, plan }]
    } else if list[0].mode == mode {
        seq![Bound { mode, plan }] + list.drop_first()
    } else {
        seq![list[0]] + with_plan_bound(list.drop_first(), mode, plan)
    }
}

/// Binds a plan to a mode.
pub fn write_plan(plans: &Vec<FanBinding>, mode_id: &str, plan: FanPlan) -> (r: Vec<FanBinding>)
    ensures
        bound_view(r@) == with_plan_bound(bound_view(plans@), mode_id@, plan_view(plan)),
{
    let ghost all = bound_view(plans@);
    let ghost wanted = with_plan_bound(all, mode_id@, plan_view(plan));
    let mut out: Vec<FanBinding> = Vec::new();
    let mut placed = false;
    let mut i: usize = 0;
    assert(all.skip(0) =~= all);
    assert(bound_view(out@) + with_plan_bound(all, mode_id@, plan_view(plan)) =~= wanted);
    while i < plans.len()
        invariant
            i <= plans@.len(),
            all == bound_view(plans@),
            placed ==> bound_view(out@) + all.skip(i as int) == wanted,
            !placed ==> bound_view(out@) + with_plan_bound(
                all.skip(i as int),
                mode_id@,
                plan_view(plan),
            ) == wanted,
        decreases plans@.len() - i,
    {
        let ghost before = bound_view(out@);
        let ghost rest = all.skip(i as int);
        assert(rest[0] == all[i as int]);
        assert(rest.drop_first() =~= all.skip(i + 1));
        if !placed && same(plans[i].mode.as_str(), mode_id) {
            out.push(FanBinding { mode: mode_id.to_owned(), plan });
            placed = true;
            let ghost new = Bound { mode: mode_id@, plan: plan_view(plan) };
            assert(bound_view(out@) =~= before.push(new));
            assert(before.push(new) + all.skip(i + 1) =~= before + (seq![new] + all.skip(i + 1)));
        } else {
            out.push(FanBinding { mode: plans[i].mode.clone(), plan: plans[i].plan });
            assert(bound_view(out@) =~= before.push(all[i as int]));
            if placed {
                assert(before.push(all[i as int]) + all.skip(i + 1) =~= before + rest);
            } else {
                let ghost tail = with_plan_bound(all.skip(i + 1), mode_id@, plan_view(plan));
                assert(before.push(all[i as int]) + tail =~= before + (seq![rest[0]] + tail));
            }
        }
        i = i + 1;
    }
    assert(all.skip(i as int) =~= seq![]);
    if !placed {
        let ghost before = bound_view(out@);
        out.push(FanBinding { mode: mode_id.to_owned(), plan });
        let ghost new = Bound { mode: mode_id@, plan: plan_view(plan) };
        assert(bound_view(out@) =~= before + seq![new]);
    } else {
        assert(bound_view(out@) + all.skip(i as int) =~= bound_view(out@));
    }
    out
}

/// Binds a curve to a mode, and keeps its steps as where the next mode's curve starts.
pub fn write_curve(
    plans: &Vec<FanBinding>,
    points: &mut [u8; 6],
    mode_id: &str,
    steps: [u8; 6],
) -> (r: Vec<FanBinding>)
    ensures
        bound_view(r@) == with_plan_bound(bound_view(plans@), mode_id@, Plan::Curve(steps@)),
        final(points)@ == steps@,
{
    *points = steps;
    write_plan(plans, mode_id, FanPlan::Curve { steps })
}

/// Which of the plan buttons a plan lights up.
#[derive(Debug, Clone, Copy, PartialEq, Eq, Structural)]
pub enum PlanKind {
    Automatic,
    Curve,
    Fixed,
    Max,
}

impl PlanKind {
    /// The kind of a plan.
    pub open spec fn kind_of(plan: Plan) -> PlanKind {
        match plan {
            Plan::Automatic => PlanKind::Automatic,
            Plan::Curve(_) => PlanKind::Curve,
            Plan::Fixed(_) => PlanKind::Fixed,
            Plan::Max => PlanKind::Max,
        }
    }

    /// The kind of a plan.
    pub fn of(plan: FanPlan) -> (r: Self)
        ensures
            r == PlanKind::kind_of(plan_view(plan)),
    {
        match plan {
            FanPlan::Automatic => PlanKind::Automatic,
            FanPlan::Curve { .. } => PlanKind::Curve,
            FanPlan::Fixed { .. } => PlanKind::Fixed,
            FanPlan::Max => PlanKind::Max,
        }
    }

    /// The name of the button's label.
    pub fn label_key(self) -> (r: &'static str)
        ensures
            r@ == (match self {
                PlanKind::Automatic => "automatic"@,
                PlanKind::Curve => "fan_plan_curve"@,
                PlanKind::Fixed => "fan_plan_fixed"@,
                PlanKind::Max => "max"@,
            }),
            self is Automatic ==> r@ == "automatic"@,
            self is Curve ==> r@ == "fan_plan_curve"@,
            self is Fixed ==> r@ == "fan_plan_fixed"@,
            self is Max ==> r@ == "max"@,
    {
        match self {
            PlanKind::Automatic => "automatic",
            PlanKind::Curve => "fan_plan_curve",
            PlanKind::Fixed => "fan_plan_fixed",
            PlanKind::Max => "max",
        }
    }
}

/// The kinds of plan that are offered: a machine without PWM control has only the firmware's
/// own two.
pub fn kinds_for(fan_pwm: bool) -> (r: Vec<PlanKind>)
    ensures
        r@ == (if fan_pwm {
            seq![PlanKind::Automatic, PlanKind::Curve, PlanKind::Fixed, PlanKind::Max]
        } else {
            seq![PlanKind::Automatic, PlanKind::Max]
        }),
        forall|kind: PlanKind|
            #[trigger] r@.contains(kind) <==> fan_pwm || kind is Automatic || kind is Max,
{
    let mut out: Vec<PlanKind> = Vec::new();
    out.push(PlanKind::Automatic);
    if fan_pwm {
        out.push(PlanKind::Curve);
        out.push(PlanKind::Fixed);
    }
    out.push(PlanKind::Max);
    assert(out@ =~= (if fan_pwm {
        seq![PlanKind::Automatic, PlanKind::Curve, PlanKind::Fixed, PlanKind::Max]
    } else {
        seq![PlanKind::Automatic, PlanKind::Max]
    }));
    proof {
        assert(out@[0] is Automatic);
        assert(out@[out@.len() - 1] is Max);
        if fan_pwm {
            assert(out@[1] is Curve && out@[2] is Fixed);
        }
        assert forall|kind: PlanKind| #[trigger] out@.contains(kind) <==> fan_pwm || kind
            is Automatic || kind is Max by {
            if kind is Automatic {
                assert(out@[0] == kind);
            } else if kind is Max {
                assert(out@[out@.len() - 1] == kind);
            } else if fan_pwm && kind is Curve {
                assert(out@[1] == kind);
            } else if fan_pwm {
                assert(out@[2] == kind);
            }
        }
    }
    out
}

/// The name of a plan's description. A fixed speed of zero is none: it leaves the fans to the
/// firmware.
pub open spec fn description_of(plan: Plan) -> Seq<char> {
    match plan {
        Plan::Automatic => "fan_plan_automatic_desc"@,
        Plan::Curve(_) => "fan_plan_curve_desc"@,
        Plan::Fixed(percent) => if percent == 0 {
            "fan_plan_fixed_zero_desc"@
        } else {
            "fan_plan_fixed_desc"@
        },
        Plan::Max => "fan_plan_max_desc"@,
    }
}

fn description_key(plan: FanPlan) -> (r: &'static str)
    ensures
        r@ == description_of(plan_view(plan)),
{
    match plan {
        FanPlan::Automatic => "fan_plan_automatic_desc",
        FanPlan::Curve { .. } => "fan_plan_curve_desc",
        FanPlan::Fixed { percent } => if percent == 0 {
            "fan_plan_fixed_zero_desc"
        } else {
            "fan_plan_fixed_desc"
        },
        FanPlan::Max => "fan_plan_max_desc",
    }
}

/// The plan that a click on a plan button binds, from what the controls show.
pub fn plan_for_click(kind: PlanKind, fixed_percent: u8, chart: [u8; 6]) -> (r: FanPlan)
    ensures
        plan_view(r) == (match kind {
            PlanKind::Automatic => Plan::Automatic,
            PlanKind::Curve => Plan::Curve(chart@),
            PlanKind::Fixed => Plan::Fixed(fixed_percent),
            PlanKind::Max => Plan::Max,
        }),
        // The button that was clicked is the one that lights up.
        PlanKind::kind_of(plan_view(r)) == kind,
        r matches FanPlan::Fixed { percent } ==> percent == fixed_percent,
        r matches FanPlan::Curve { steps } ==> steps@ == chart@,
{
    match kind {
        PlanKind::Automatic => FanPlan::Automatic,
        PlanKind::Curve => FanPlan::Curve { steps: chart },
        PlanKind::Fixed => FanPlan::Fixed { percent: fixed_percent },
        PlanKind::Max => FanPlan::Max,
    }
}

/// A mode's curve, as it was last seen.
pub struct RememberedCurve {
    pub mode: String,
    pub steps: [u8; 6],
}

/// A remembered curve as contracts speak of it.
pub struct Seen {
    pub mode: Seq<char>,
    pub steps: Seq<u8>,
}

/// Remembered curves as contracts speak of them.
pub open spec fn memory_view(list: Seq<RememberedCurve>) -> Seq<Seen> {
    Seq::new(list.len(), |i: int| Seen { mode: list[i].mode@, steps: list[i].steps@ })
}

/// A mode's curve, if one was seen.
pub open spec fn recalled(list: Seq<Seen>, mode: Seq<char>) -> Option<Seq<u8>>
    decreases list.len(),
{
    if list.len() == 0 {
        None
    } else if list[0].mode == mode {
        Some(list[0].steps)
    } else {
        recalled(list.drop_first(), mode)
    }
}

/// The memory after a mode's curve was seen.
pub open spec fn with_seen(list: Seq<Seen>, mode: Seq<char>, steps: Seq<u8>) -> Seq<Seen>
    decreases list.len(),
{
    if list.len() == 0 {
        seq![Seen { mode, steps }]
    } else if list[0].mode == mode {
        seq![Seen { mode, steps }] + list.drop_first()
    } else {
        seq![list[0]] + with_seen(list.drop_first(), mode, steps)
    }
}

/// Notes a mode's curve for the rest of the session.
pub fn remember_curve(memory: &mut Vec<RememberedCurve>, mode_id: &str, steps: [u8; 6])
    ensures
        memory_view(final(memory)@) == with_seen(memory_view(old(memory)@), mode_id@, steps@),
{
    let ghost all = memory_view(memory@);
    let ghost entry = Seen { mode: mode_id@, steps: steps@ };
    let mut i: usize = 0;
    assert(all.skip(0) =~= all);
    assert(all.take(0) + with_seen(all, mode_id@, steps@) =~= with_seen(all, mode_id@, steps@));
    while i < memory.len()
        invariant
            i <= memory@.len(),
            all == memory_view(memory@),
            all == memory_view(old(memory)@),
            entry == (Seen { mode: mode_id@, steps: steps@ }),
            all.take(i as int) + with_seen(all.skip(i as int), mode_id@, steps@) == with_seen(
                all,
                mode_id@,
                steps@,
            ),
        decreases memory@.len() - i,
    {
        let ghost rest = all.skip(i as int);
        assert(rest[0] == all[i as int]);
        assert(rest.drop_first() =~= all.skip(i + 1));
        if same(memory[i].mode.as_str(), mode_id) {
            memory.set(i, RememberedCurve { mode: mode_id.to_owned(), steps });
            assert(memory_view(memory@) =~= all.update(i as int, entry));
            assert(all.update(i as int, entry) =~= all.take(i as int) + (seq![entry] + all.skip(
                i + 1,
            )));
            return;
        }
        assert(all.take(i + 1) + with_seen(all.skip(i + 1), mode_id@, steps@) =~= all.take(i as int)
            + (seq![rest[0]] + with_seen(all.skip(i + 1), mode_id@, steps@)));
        i = i + 1;
    }
    assert(all.skip(i as int) =~= seq![]);
    assert(all.take(i as int) =~= all);
    memory.push(RememberedCurve { mode: mode_id.to_owned(), steps });
    assert(memory_view(memory@) =~= all + seq![entry]);
}

/// A mode's curve as it was last seen in this session.
pub fn recall_curve(memory: &Vec<RememberedCurve>, mode_id: &str) -> (r: Option<[u8; 6]>)
    ensures
        match r {
            Some(steps) => recalled(memory_view(memory@), mode_id@) == Some(steps@),
            None => recalled(memory_view(memory@), mode_id@) is None,
        },
{
    let ghost all = memory_view(memory@);
    let mut i: usize = 0;
    assert(all.skip(0) =~= all);
    while i < memory.len()
        invariant
            i <= memory@.len(),
            all == memory_view(memory@),
            recalled(all, mode_id@) == recalled(all.skip(i as int), mode_id@),
        decreases memory@.len() - i,
    {
        assert(all.skip(i as int)[0] == all[i as int]);
        assert(all.skip(i as int).drop_first() =~= all.skip(i + 1));
        if same(memory[i].mode.as_str(), mode_id) {
            return Some(memory[i].steps);
        }
        i = i + 1;
    }
    None
}

/// What the page last put on the screen.
pub struct Shown {
    pub editing: String,
    pub plan: FanPlan,
    pub active: Option<String>,
}

/// What the page knows.
pub struct FanPage {
    /// The mode whose plan is being edited.
    pub editing: String,
    /// While this is not set the page follows the machine's mode; a click on a mode sets it.
    pub pinned: bool,
    pub shown: Option<Shown>,
    /// Each mode's last seen curve, so that it survives a trip through another plan.
    pub memory: Vec<RememberedCurve>,
}

/// What the controls show.
pub struct Screen {
    pub plan: FanPlan,
    pub kind: PlanKind,
    pub description: &'static str,
    pub steps: [u8; 6],
    pub fixed_percent: u8,
}

impl FanPage {
    /// A page that edits the machine's mode, or Balanced where that is not known.
    pub fn new(active: &Option<String>) -> (r: Self)
        ensures
            r.editing@ == (match active {
                Some(mode) => mode@,
                None => PowerProfile::Balanced.id(),
            }),
            !r.pinned,
            r.shown is None,
            r.memory@.len() == 0,
    {
        let editing = match active {
            Some(mode) => mode.clone(),
            None => PowerProfile::Balanced.to_id().to_owned(),
        };
        FanPage { editing, pinned: false, shown: None, memory: Vec::new() }
    }

    /// A click on a mode: it is edited from now on, whatever the machine does.
    pub fn select_mode(&mut self, mode_id: &str)
        ensures
            final(self).editing@ == mode_id@,
            final(self).pinned,
            final(self).shown == old(self).shown,
            final(self).memory == old(self).memory,
    {
        self.editing = mode_id.to_owned();
        self.pinned = true;
    }

    /// Follows the machine to its mode, unless a mode was picked.
    pub fn follow(&mut self, active: &Option<String>)
        ensures
            final(self).editing@ == (if !old(self).pinned && active is Some {
                active->0@
            } else {
                old(self).editing@
            }),
            old(self).pinned ==> final(self).editing@ == old(self).editing@,
            !old(self).pinned && active is Some ==> final(self).editing@ == active->0@,
            active is None ==> final(self).editing@ == old(self).editing@,
            final(self).pinned == old(self).pinned,
            final(self).shown == old(self).shown,
            final(self).memory == old(self).memory,
    {
        if !self.pinned {
            if let Some(mode) = active {
                self.editing = mode.clone();
            }
        }
    }

    /// Whether the screen already says this.
    pub open spec fn says(self, plan: Plan, active: Option<Seq<char>>) -> bool {
        self.shown is Some && self.shown->0.editing@ == self.editing@ && plan_view(
            self.shown->0.plan,
        ) == plan && text_of(self.shown->0.active) == active
    }

    fn is_shown(&self, plan: FanPlan, active: &Option<String>) -> (r: bool)
        ensures
            r == self.says(plan_view(plan), text_of(*active)),
    {
        match &self.shown {
            None => false,
            Some(shown) => {
                let same_active = match (&shown.active, active) {
                    (Some(a), Some(b)) => same(a.as_str(), b.as_str()),
                    (None, None) => true,
                    _ => false,
                };
                same(shown.editing.as_str(), self.editing.as_str()) && same_plan(shown.plan, plan)
                    && same_active
            },
        }
    }

    /// What the controls are to show, or `None` where the screen already says it: a refresh
    /// that changes nothing must not touch the controls, which a user may be turning. A curve
    /// that is seen is remembered; a mode on another plan shows the curve it had, or `seed`
    /// where it never had one.
    pub fn refresh(&mut self, plans: &Vec<FanBinding>, seed: [u8; 6], active: &Option<String>) -> (r:
        Option<Screen>)
        ensures
            final(self).editing == old(self).editing,
            final(self).pinned == old(self).pinned,
            ({
                let plan = plan_in_force(bound_view(plans@), old(self).editing@);
                if old(self).says(plan, text_of(*active)) {
                    r is None && *final(self) == *old(self)
                } else {
                    &&& r is Some
                    &&& final(self).says(plan, text_of(*active))
                    &&& memory_view(final(self).memory@) == (match plan {
                        Plan::Curve(steps) => with_seen(
                            memory_view(old(self).memory@),
                            old(self).editing@,
                            steps,
                        ),
                        _ => memory_view(old(self).memory@),
                    })
                    &&& plan_view(r->0.plan) == plan
                    &&& r->0.kind == PlanKind::kind_of(plan)
                    &&& r->0.description@ == description_of(plan)
                    &&& r->0.fixed_percent == (match plan {
                        Plan::Fixed(percent) => percent,
                        _ => DEFAULT_FIXED_PERCENT,
                    })
                    &&& r->0.steps@ == (match plan {
                        Plan::Curve(steps) => steps,
                        _ => match recalled(memory_view(old(self).memory@), old(self).editing@) {
                            Some(steps) => steps,
                            None => seed@,
                        },
                    })
                }
            }),
    {
        let plan = plan_of(plans, self.editing.as_str());
        if self.is_shown(plan, active) {
            return None;
        }
        let steps = match plan {
            FanPlan::Curve { steps } => {
                remember_curve(&mut self.memory, self.editing.as_str(), steps);
                steps
            },
            _ => match recall_curve(&self.memory, self.editing.as_str()) {
                Some(steps) => steps,
                None => seed,
            },
        };
        let fixed_percent: u8 = match plan {
            FanPlan::Fixed { percent } => percent,
            _ => DEFAULT_FIXED_PERCENT,
        };
        let active_now = match active {
            Some(mode) => Some(mode.clone()),
            None => None,
        };
        self.shown = Some(Shown { editing: self.editing.clone(), plan, active: active_now });
        Some(
            Screen {
                plan,
                kind: PlanKind::of(plan),
                description: description_key(plan),
                steps,
                fixed_percent,
            },
        )
    }
}

/// What a write of a plan is reported as.
#[derive(Debug, Clone, Copy, PartialEq, Eq, Structural)]
pub enum Report {
    /// It is the machine's mode: the fans follow.
    Applying,
    /// It is another mode: the plan waits for it.
    SavedForOtherMode,
    Failed,
}

/// What a write of a plan is reported as.
pub fn report(editing: &str, active: &Option<String>, written: bool) -> (r: Report)
    ensures
        r == (if !written {
            Report::Failed
        } else if text_of(*active) == Some(editing@) {
            Report::Applying
        } else {
            Report::SavedForOtherMode
        }),
        r is Failed <==> !written,
        r is Applying <==> written && active is Some && active->0@ == editing@,
{
    if !written {
        return Report::Failed;
    }
    let current = match active {
        Some(mode) => same(mode.as_str(), editing),
        None => false,
    };
    if current {
        Report::Applying
    } else {
        Report::SavedForOtherMode
    }
}

proof fn lemma_plan_of_front(list: Seq<Bound>, mode: Seq<char>)
    requires
        list.len() > 0,
    ensures
        plan_bound(list, mode) == (if list[0].mode == mode {
            Some(list[0].plan)
        } else {
            plan_bound(list.drop_first(), mode)
        }),
    decreases list.len(),
{
    if list.len() == 1 {
        assert(list.drop_last() =~= seq![]);
        assert(list.drop_first() =~= seq![]);
    } else {
        lemma_plan_of_front(list.drop_last(), mode);
        assert(list.drop_last().drop_first() =~= list.drop_first().drop_last());
        assert(list.drop_first().last() == list.last());
        assert(list.drop_last()[0] == list[0]);
    }
}

/// A plan that was bound to a mode is the mode's plan, and no other mode's plan changes.
pub proof fn law_bound_plan_is_in_force(
    list: Seq<Bound>,
    mode: Seq<char>,
    plan: Plan,
    other: Seq<char>,
)
    requires
        other != mode,
    ensures
        plan_in_force(with_plan_bound(list, mode, plan), mode) == plan,
        plan_in_force(with_plan_bound(list, mode, plan), other) == plan_in_force(list, other),
    decreases list.len(),
{
    let after = with_plan_bound(list, mode, plan);
    if list.len() == 0 {
        assert(after.drop_first() =~= seq![]);
        lemma_plan_of_front(after, mode);
        lemma_plan_of_front(after, other);
    } else {
        lemma_plan_of_front(after, mode);
        lemma_plan_of_front(after, other);
        lemma_plan_of_front(list, mode);
        lemma_plan_of_front(list, other);
        if list[0].mode == mode {
            assert(after.drop_first() =~= list.drop_first());
        } else {
            law_bound_plan_is_in_force(list.drop_first(), mode, plan, other);
            assert(after.drop_first() =~= with_plan_bound(list.drop_first(), mode, plan));
        }
    }
}

/// A mode's curve survives: what was seen is recalled, and seeing one mode's curve forgets no
/// other's.
pub proof fn law_seen_curve_is_recalled(
    list: Seq<Seen>,
    mode: Seq<char>,
    steps: Seq<u8>,
    other: Seq<char>,
)
    requires
        other != mode,
    ensures
        recalled(with_seen(list, mode, steps), mode) == Some(steps),
        recalled(with_seen(list, mode, steps), other) == recalled(list, other),
    decreases list.len(),
{
    let after = with_seen(list, mode, steps);
    if list.len() == 0 {
        assert(after.drop_first() =~= seq![]);
        assert(recalled(after.drop_first(), other) is None);
        assert(recalled(list, other) is None);
    } else if list[0].mode == mode {
        assert(after.drop_first() =~= list.drop_first());
    } else {
        law_seen_curve_is_recalled(list.drop_first(), mode, steps, other);
        assert(after.drop_first() =~= with_seen(list.drop_first(), mode, steps));
    }
}

/// A mode's first binding says what its plan is, and a mode without one leaves the fans to
/// the firmware.
pub proof fn law_first_binding_of_a_mode_counts(list: Seq<Bound>, bound: Bound, mode: Seq<char>)
    ensures
        bound.mode == mode ==> plan_in_force(seq![bound] + list, mode) == bound.plan,
        bound.mode != mode ==> plan_in_force(seq![bound] + list, mode) == plan_in_force(list, mode),
        plan_in_force(seq![], mode) is Automatic,
{
    let all = seq![bound] + list;
    lemma_plan_of_front(all, mode);
    assert(all[0] == bound);
    assert(all.drop_first() =~= list);
}

/// Each kind of plan has its own description, and a fixed speed of zero one more.
pub proof fn law_plans_are_described_by_kind(plan: Plan)
    ensures
        plan is Automatic ==> description_of(plan) == "fan_plan_automatic_desc"@,
        plan is Curve ==> description_of(plan) == "fan_plan_curve_desc"@,
        plan matches Plan::Fixed(percent) ==> (percent > 0 ==> description_of(plan)
            == "fan_plan_fixed_desc"@) && (percent == 0 ==> description_of(plan)
            == "fan_plan_fixed_zero_desc"@),
        plan is Max ==> description_of(plan) == "fan_plan_max_desc"@,
        plan is Automatic ==> PlanKind::kind_of(plan) is Automatic,
        plan is Curve ==> PlanKind::kind_of(plan) is Curve,
        plan is Fixed ==> PlanKind::kind_of(plan) is Fixed,
        plan is Max ==> PlanKind::kind_of(plan) is Max,
{
}

/// The curves to start from never slow down as it gets hotter, and all end at full speed; the
/// aggressive one is nowhere slower than the others, nor the silent one faster.
pub proof fn law_preset_curves_rise(i: int, j: int)
    requires
        0 <= i <= j < 6,
    ensures
        PRESET_SILENT@[i] <= PRESET_SILENT@[j],
        PRESET_BALANCED@[i] <= PRESET_BALANCED@[j],
        PRESET_AGGRESSIVE@[i] <= PRESET_AGGRESSIVE@[j],
        PRESET_SILENT@[i] <= PRESET_BALANCED@[i] <= PRESET_AGGRESSIVE@[i],
        PRESET_SILENT@[5] == 100 && PRESET_BALANCED@[5] == 100 && PRESET_AGGRESSIVE@[5] == 100,
        DEFAULT_FIXED_PERCENT == 50,
{
    let a = PRESET_SILENT@;
    let b = PRESET_BALANCED@;
    let c = PRESET_AGGRESSIVE@;
    assert(a[0] == 0 && a[1] == 0 && a[2] == 30 && a[3] == 45 && a[4] == 65 && a[5] == 100);
    assert(b[0] <= b[1] && b[1] <= b[2] && b[2] <= b[3] && b[3] <= b[4] && b[4] <= b[5]);
    assert(b[5] == 100);
    assert(c[0] == 40 && c[1] == 55 && c[2] == 70 && c[3] == 85 && c[4] == 100 && c[5] == 100);
    assert(a[0] <= b[0] <= c[0] && a[1] <= b[1] <= c[1] && a[2] <= b[2] <= c[2] && a[3] <= b[3]
        <= c[3] && a[4] <= b[4] <= c[4]);
}

/// Plans, bindings and remembered curves are seen as they are, in their order.
pub proof fn law_plans_are_seen_as_they_are(
    bindings: Seq<FanBinding>,
    memory: Seq<RememberedCurve>,
    steps: [u8; 6],
    percent: u8,
    i: int,
)
    ensures
        plan_view((FanPlan::Curve { steps })) == Plan::Curve(steps@),
        plan_view((FanPlan::Fixed { percent })) == Plan::Fixed(percent),
        plan_view(FanPlan::Max) is Max,
        plan_view(FanPlan::Automatic) is Automatic,
        bound_view(bindings).len() == bindings.len(),
        0 <= i < bindings.len() ==> bound_view(bindings)[i].mode == bindings[i].mode@ && bound_view(
            bindings,
        )[i].plan == plan_view(bindings[i].plan),
        memory_view(memory).len() == memory.len(),
        0 <= i < memory.len() ==> memory_view(memory)[i].mode == memory[i].mode@ && memory_view(
            memory,
        )[i].steps == memory[i].steps@,
{
}

} // verus!
