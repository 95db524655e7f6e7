//! Critical temperature alerts: one per crossing of the threshold, and at most one message a
//! minute.
//!
//! Temperatures are in thousandths of a degree Celsius, as the kernel reports them.

use vstd::prelude::*;

use crate::number::{decimal, decimal_text};
use crate::text::{cat4, text_of};

verus! {

/// The range of the threshold, in degrees. A threshold above it could never fire; below it
/// any real load would alert all the time.
pub const MIN_THRESHOLD_C: u8 = 70;

pub const MAX_THRESHOLD_C: u8 = 100;

/// How far below the threshold, in degrees, the temperature has to fall before an alert is
/// armed again.
pub const HYSTERESIS_C: i32 = 5;

/// How many seconds apart messages are.
pub const NOTIFY_INTERVAL_SECS: u64 = 60;

/// The settings of the alerts and what stands at the moment.
#[derive(Debug, Clone, Copy, PartialEq, Eq, Structural)]
pub struct Alerts {
    pub enabled: bool,
    pub threshold_c: u8,
    pub cpu_fired: bool,
    pub gpu_fired: bool,
    /// When the last message went out, in seconds since the epoch.
    pub last_notify: u64,
}

impl Alerts {
    /// The threshold lies in the supported range.
    pub open spec fn wf(self) -> bool {
        MIN_THRESHOLD_C <= self.threshold_c <= MAX_THRESHOLD_C
    }
}

impl Default for Alerts {
    fn default() -> (r: Self)
        ensures
            r.wf(),
            r == (Alerts {
                enabled: true,
                threshold_c: 90,
                cpu_fired: false,
                gpu_fired: false,
                last_notify: 0,
            }),
    {
        Alerts {
            enabled: true,
            threshold_c: 90,
            cpu_fired: false,
            gpu_fired: false,
            last_notify: 0,
        }
    }
}

/// Turns the alerts on or off.
pub fn set_enabled(alerts: &mut Alerts, v: bool)
    ensures
        *final(alerts) == (Alerts { enabled: v, ..*old(alerts) }),
        final(alerts).enabled == v,
{
    alerts.enabled = v;
}

/// Whether the alerts are on.
pub fn is_enabled(alerts: &Alerts) -> (r: bool)
    ensures
        r == alerts.enabled,
{
    alerts.enabled
}

/// The value nearest to `v` that the threshold can take.
pub open spec fn held_threshold(v: u8) -> u8 {
    if v < MIN_THRESHOLD_C {
        MIN_THRESHOLD_C
    } else if v > MAX_THRESHOLD_C {
        MAX_THRESHOLD_C
    } else {
        v
    }
}

/// Sets the threshold; a value outside the range becomes the nearest one in it.
pub fn set_threshold_c(alerts: &mut Alerts, v: u8)
    ensures
        final(alerts).wf(),
        *final(alerts) == (Alerts { threshold_c: held_threshold(v), ..*old(alerts) }),
{
    alerts.threshold_c = if v < MIN_THRESHOLD_C {
        MIN_THRESHOLD_C
    } else if v > MAX_THRESHOLD_C {
        MAX_THRESHOLD_C
    } else {
        v
    };
}

/// The threshold, in degrees.
pub fn threshold_c(alerts: &Alerts) -> (r: u8)
    ensures
        r == alerts.threshold_c,
{
    alerts.threshold_c
}

/// What a reading means for an alert that is, or is not, already standing.
#[derive(Debug, Clone, Copy, PartialEq, Eq, Structural)]
pub enum Crossing {
    /// Over the limit and nothing standing yet: alert.
    Fire,
    /// Far enough below the limit to arm the next one.
    Rearm,
    /// Between the two, or already alerted: nothing to do.
    Hold,
}

/// What a reading means for an alert.
pub open spec fn crossing_at(temp: int, threshold_c: u8, already_fired: bool) -> Crossing {
    if !already_fired && temp >= threshold_c * 1000 {
        Crossing::Fire
    } else if already_fired && temp < (threshold_c - HYSTERESIS_C) * 1000 {
        Crossing::Rearm
    } else {
        Crossing::Hold
    }
}

/// What a reading means for an alert. A machine hovering at the threshold produces one
/// alert, not one per reading.
pub fn crossing(temp: i32, threshold_c: u8, already_fired: bool) -> (r: Crossing)
    ensures
        r == crossing_at(temp as int, threshold_c, already_fired),
{
    let limit: i32 = threshold_c as i32 * 1000;
    if temp >= limit && !already_fired {
        Crossing::Fire
    } else if temp < limit - HYSTERESIS_C * 1000 && already_fired {
        Crossing::Rearm
    } else {
        Crossing::Hold
    }
}

/// Whether a reading sets an alert off. A reading that is missing or not above zero says
/// nothing.
pub open spec fn sets_off(temp: Option<i32>, threshold_c: u8, fired: bool) -> bool {
    temp is Some && temp->0 > 0 && crossing_at(temp->0 as int, threshold_c, fired)
        == Crossing::Fire
}

/// Whether an alert stands after a reading.
pub open spec fn stands_after(temp: Option<i32>, threshold_c: u8, fired: bool) -> bool {
    if temp is Some && temp->0 > 0 {
        match crossing_at(temp->0 as int, threshold_c, fired) {
            Crossing::Fire => true,
            Crossing::Rearm => false,
            Crossing::Hold => fired,
        }
    } else {
        fired
    }
}

/// A temperature in whole degrees; halfway between two it is the even one.
pub open spec fn rounded(temp: int) -> int {
    let below = temp / 1000;
    let over = temp % 1000;
    if over > 500 || (over == 500 && below % 2 == 1) {
        below + 1
    } else {
        below
    }
}

/// The message of an alert.
pub open spec fn alert_text(label: Seq<char>, temp: int) -> Seq<char> {
    label + " ("@ + decimal_text(rounded(temp) as nat) + "°C)"@
}

fn alert_body(label: &str, temp: i32) -> (r: String)
    requires
        temp > 0,
    ensures
        r@ == alert_text(label@, temp as int),
{
    let below: i32 = temp / 1000;
    let over: i32 = temp % 1000;
    let degrees: i32 = if over > 500 || (over == 500 && below % 2 == 1) {
        below + 1
    } else {
        below
    };
    let number = decimal(degrees as u64);
    cat4(label, " (", number.as_str(), "°C)")
}

/// Whether a message may go out: the last one is a minute old.
pub open spec fn message_due(last_notify: u64, now: u64) -> bool {
    now >= last_notify && now - last_notify >= NOTIFY_INTERVAL_SECS
}

/// The message a tick sends, if it sends one.
pub open spec fn message_of(
    alerts: Alerts,
    cpu: Option<i32>,
    gpu: Option<i32>,
    cpu_label: Seq<char>,
    gpu_label: Seq<char>,
    now: u64,
) -> Option<Seq<char>> {
    if !alerts.enabled || !message_due(alerts.last_notify, now) {
        None
    } else if sets_off(cpu, alerts.threshold_c, alerts.cpu_fired) {
        Some(alert_text(cpu_label, cpu->0 as int))
    } else if sets_off(gpu, alerts.threshold_c, alerts.gpu_fired) {
        Some(alert_text(gpu_label, gpu->0 as int))
    } else {
        None
    }
}

/// Whether one reading sets its alert off, and the alert's new state.
fn evaluate(temp: Option<i32>, threshold_c: u8, fired: &mut bool) -> (r: bool)
    ensures
        r == sets_off(temp, threshold_c, *old(fired)),
        *final(fired) == stands_after(temp, threshold_c, *old(fired)),
{
    match temp {
        None => false,
        Some(t) => {
            if t <= 0 {
                return false;
            }
            match crossing(t, threshold_c, *fired) {
                Crossing::Fire => {
                    *fired = true;
                    true
                },
                Crossing::Rearm => {
                    *fired = false;
                    false
                },
                Crossing::Hold => false,
            }
        },
    }
}

/// Evaluates the temperatures of one tick and returns the message to show, if there is one.
/// An alert counts as given whether or not its message had to be left out for coming too
/// soon after the last.
pub fn check(
    alerts: &mut Alerts,
    cpu: Option<i32>,
    gpu: Option<i32>,
    cpu_label: &str,
    gpu_label: &str,
    now: u64,
) -> (r: Option<String>)
    ensures
        text_of(r) == message_of(*old(alerts), cpu, gpu, cpu_label@, gpu_label@, now),
        *final(alerts) == (if old(alerts).enabled {
            Alerts {
                cpu_fired: stands_after(cpu, old(alerts).threshold_c, old(alerts).cpu_fired),
                gpu_fired: stands_after(gpu, old(alerts).threshold_c, old(alerts).gpu_fired),
                last_notify: if r is Some {
                    now
                } else {
                    old(alerts).last_notify
                },
                ..*old(alerts)
            }
        } else {
            *old(alerts)
        }),
{
    if !alerts.enabled {
        return None;
    }
    let mut cpu_fired = alerts.cpu_fired;
    let mut gpu_fired = alerts.gpu_fired;
    let cpu_fires = evaluate(cpu, alerts.threshold_c, &mut cpu_fired);
    let gpu_fires = evaluate(gpu, alerts.threshold_c, &mut gpu_fired);
    alerts.cpu_fired = cpu_fired;
    alerts.gpu_fired = gpu_fired;
    if now < alerts.last_notify || now - alerts.last_notify < NOTIFY_INTERVAL_SECS {
        return None;
    }
    let body = if cpu_fires {
        match cpu {
            Some(t) => alert_body(cpu_label, t),
            None => {
                return None;
            },
        }
    } else if gpu_fires {
        match gpu {
            Some(t) => alert_body(gpu_label, t),
            None => {
                return None;
            },
        }
    } else {
        return None;
    };
    alerts.last_notify = now;
    Some(body)
}

/// How often a run of readings sets an alert off.
pub open spec fn times_set_off(readings: Seq<int>, threshold_c: u8, fired: bool) -> nat
    decreases readings.len(),
{
    if readings.len() == 0 {
        0
    } else {
        let rest = readings.drop_first();
        match crossing_at(readings[0], threshold_c, fired) {
            Crossing::Fire => 1 + times_set_off(rest, threshold_c, true),
            Crossing::Rearm => times_set_off(rest, threshold_c, false),
            Crossing::Hold => times_set_off(rest, threshold_c, fired),
        }
    }
}

/// One alert per crossing: while the temperature stays above the point that arms the next
/// one, an alert fires at most once, and not at all where one is standing.
pub proof fn law_one_alert_per_crossing(readings: Seq<int>, threshold_c: u8, fired: bool)
    requires
        forall|i: int|
            0 <= i < readings.len() ==> #[trigger] readings[i] >= (threshold_c - HYSTERESIS_C)
                * 1000,
    ensures
        times_set_off(readings, threshold_c, fired) <= (if fired {
            0nat
        } else {
            1nat
        }),
    decreases readings.len(),
{
    if readings.len() > 0 {
        let rest = readings.drop_first();
        assert(readings[0] >= (threshold_c - HYSTERESIS_C) * 1000);
        assert forall|i: int| 0 <= i < rest.len() implies #[trigger] rest[i] >= (threshold_c
            - HYSTERESIS_C) * 1000 by {
            assert(rest[i] == readings[i + 1]);
        }
        law_one_alert_per_crossing(rest, threshold_c, true);
        law_one_alert_per_crossing(rest, threshold_c, fired);
    }
}

/// Raising the threshold only ever silences: what does not fire at a threshold does not fire
/// at a higher one.
pub proof fn law_higher_threshold_is_quieter(temp: int, low: u8, high: u8, fired: bool)
    requires
        low <= high,
        crossing_at(temp, low, fired) != Crossing::Fire,
    ensures
        crossing_at(temp, high, fired) != Crossing::Fire,
{
}

/// An alert fires at its threshold and not below it, and is armed again five degrees below
/// and not before; in between nothing changes.
pub proof fn law_alert_fires_at_its_threshold(temp: int, threshold_c: u8)
    ensures
        crossing_at(temp, threshold_c, false) == Crossing::Fire <==> temp >= 1000 * threshold_c,
        crossing_at(temp, threshold_c, false) != Crossing::Rearm,
        crossing_at(temp, threshold_c, true) == Crossing::Rearm <==> temp < 1000 * (threshold_c - 5),
        crossing_at(temp, threshold_c, true) != Crossing::Fire,
{
}

/// A processor at its threshold with nothing standing is reported under its own label, a
/// minute after the last message or later; the graphics card is where the processor is not. A
/// quiet machine, alerts that are off, and a minute that is not over report nothing.
pub proof fn law_hot_machine_is_reported(
    alerts: Alerts,
    cpu: Option<i32>,
    gpu: Option<i32>,
    cpu_label: Seq<char>,
    gpu_label: Seq<char>,
    now: u64,
)
    ensures
        ({
            let message = message_of(alerts, cpu, gpu, cpu_label, gpu_label, now);
            let limit = 1000 * alerts.threshold_c;
            let due = alerts.enabled && now >= alerts.last_notify + 60;
            let cpu_hot = cpu is Some && cpu->0 > 0 && cpu->0 >= limit && !alerts.cpu_fired;
            let gpu_hot = gpu is Some && gpu->0 > 0 && gpu->0 >= limit && !alerts.gpu_fired;
            &&& message is Some <==> due && (cpu_hot || gpu_hot)
            &&& due && cpu_hot ==> message == Some(alert_text(cpu_label, cpu->0 as int))
            &&& due && !cpu_hot && gpu_hot ==> message == Some(alert_text(gpu_label, gpu->0 as int))
        }),
{
}

/// An alert stands from the reading that reached its threshold to the one that fell five
/// degrees below it.
pub proof fn law_alert_stands_until_it_cools(temp: i32, threshold_c: u8, fired: bool)
    requires
        temp > 0,
    ensures
        temp >= 1000 * threshold_c ==> stands_after(Some(temp), threshold_c, fired),
        temp < 1000 * (threshold_c - 5) ==> !stands_after(Some(temp), threshold_c, fired),
        1000 * (threshold_c - 5) <= temp < 1000 * threshold_c ==> stands_after(
            Some(temp),
            threshold_c,
            fired,
        ) == fired,
        stands_after(None, threshold_c, fired) == fired,
{
}

/// The degrees in a message are the nearest whole ones.
pub proof fn law_message_shows_the_nearest_degree(temp: int)
    ensures
        -500 <= 1000 * rounded(temp) - temp <= 500,
{
}

/// A threshold in the supported range, 70 to 100 degrees, is kept; another becomes the nearest
/// end.
pub proof fn law_threshold_is_held_in_range(v: u8)
    ensures
        70 <= held_threshold(v) <= 100,
        70 <= v <= 100 ==> held_threshold(v) == v,
        v < 70 ==> held_threshold(v) == 70,
        v > 100 ==> held_threshold(v) == 100,
{
}

/// The message is about the device that is too hot, and about the CPU where both are; without
/// one there is no message, and none less than a minute after the last.
pub proof fn law_message_names_the_hot_device(
    alerts: Alerts,
    cpu: Option<i32>,
    gpu: Option<i32>,
    cpu_label: Seq<char>,
    gpu_label: Seq<char>,
    now: u64,
)
    requires
        alerts.enabled,
        now >= alerts.last_notify + 60,
    ensures
        ({
            let message = message_of(alerts, cpu, gpu, cpu_label, gpu_label, now);
            let cpu_hot = sets_off(cpu, alerts.threshold_c, alerts.cpu_fired);
            let gpu_hot = sets_off(gpu, alerts.threshold_c, alerts.gpu_fired);
            &&& cpu_hot ==> message == Some(alert_text(cpu_label, cpu->0 as int))
            &&& !cpu_hot && gpu_hot ==> message == Some(alert_text(gpu_label, gpu->0 as int))
            &&& !cpu_hot && !gpu_hot ==> message is None
        }),
{
}

/// Messages are a minute apart, and none goes out while the alerts are off.
pub proof fn law_messages_are_a_minute_apart(
    alerts: Alerts,
    cpu: Option<i32>,
    gpu: Option<i32>,
    cpu_label: Seq<char>,
    gpu_label: Seq<char>,
    now: u64,
)
    requires
        !alerts.enabled || now < alerts.last_notify + 60,
    ensures
        message_of(alerts, cpu, gpu, cpu_label, gpu_label, now) is None,
{
}

/// A device sets its alert off from the threshold on, where none stands yet.
pub proof fn law_device_sets_its_alert_off(temp: i32, threshold_c: u8, fired: bool)
    ensures
        sets_off(Some(temp), threshold_c, fired) <==> temp > 0 && !fired && temp >= 1000
            * threshold_c,
        !sets_off(None, threshold_c, fired),
{
}

/// Halfway between two degrees the even one is shown.
pub proof fn law_halfway_shows_the_even_degree(temp: int)
    requires
        temp % 1000 == 500,
    ensures
        rounded(temp) % 2 == 0,
{
}

/// Every threshold from 70 to 100 degrees is one that the alerts can have, and no other.
pub proof fn law_thresholds_lie_between_their_ends(alerts: Alerts)
    ensures
        alerts.wf() <==> 70 <= alerts.threshold_c <= 100,
{
}

} // verus!
