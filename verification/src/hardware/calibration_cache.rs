//! The calibration as the process remembers it.

use vstd::prelude::*;

use crate::protocol::thermal_profile::{Calibration, Measured};

verus! {

/// A calibration as contracts speak of it.
pub struct Ranking {
    pub profiles: Seq<Measured>,
    pub measured: bool,
    pub advertised: Seq<u8>,
    pub firmware: Seq<char>,
}

/// A calibration as contracts speak of it.
pub open spec fn ranking_of(calibration: Calibration) -> Ranking {
    Ranking {
        profiles: calibration.profiles@,
        measured: calibration.measured,
        advertised: calibration.advertised@,
        firmware: calibration.firmware@,
    }
}

/// An optional calibration as contracts speak of it.
pub open spec fn verdict_of(calibration: Option<Calibration>) -> Option<Ranking> {
    match calibration {
        Some(calibration) => Some(ranking_of(calibration)),
        None => None,
    }
}

fn copy_of(calibration: &Calibration) -> (r: Calibration)
    ensures
        ranking_of(r) == ranking_of(*calibration),
{
    let mut profiles: Vec<Measured> = Vec::new();
    let mut i: usize = 0;
    while i < calibration.profiles.len()
        invariant
            i <= calibration.profiles@.len(),
            profiles@ == calibration.profiles@.take(i as int),
        decreases calibration.profiles@.len() - i,
    {
        profiles.push(calibration.profiles[i]);
        assert(calibration.profiles@.take(i + 1) =~= calibration.profiles@.take(i as int).push(
            calibration.profiles@[i as int],
        ));
        i = i + 1;
    }
    assert(calibration.profiles@.take(i as int) =~= calibration.profiles@);
    let mut advertised: Vec<u8> = Vec::new();
    let mut k: usize = 0;
    while k < calibration.advertised.len()
        invariant
            k <= calibration.advertised@.len(),
            advertised@ == calibration.advertised@.take(k as int),
        decreases calibration.advertised@.len() - k,
    {
        advertised.push(calibration.advertised[k]);
        assert(calibration.advertised@.take(k + 1) =~= calibration.advertised@.take(k as int).push(
            calibration.advertised@[k as int],
        ));
        k = k + 1;
    }
    assert(calibration.advertised@.take(k as int) =~= calibration.advertised@);
    Calibration {
        profiles,
        measured: calibration.measured,
        advertised,
        firmware: calibration.firmware.clone(),
    }
}

/// The verdict on the stored calibration, once there is one.
#[derive(Debug)]
pub struct CalibrationCache {
    verdict: Option<Option<Calibration>>,
}

impl View for CalibrationCache {
    type V = Option<Option<Ranking>>;

    closed spec fn view(&self) -> Option<Option<Ranking>> {
        match self.verdict {
            Some(verdict) => Some(verdict_of(verdict)),
            None => None,
        }
    }
}

impl CalibrationCache {
    /// Nothing is known yet.
    pub fn new() -> (r: Self)
        ensures
            r@ is None,
    {
        CalibrationCache { verdict: None }
    }

    /// The verdict, if there is one.
    pub fn cached(&self) -> (r: Option<Option<Calibration>>)
        ensures
            match r {
                Some(verdict) => self@ == Some(verdict_of(verdict)),
                None => self@ is None,
            },
    {
        match &self.verdict {
            None => None,
            Some(None) => Some(None),
            Some(Some(calibration)) => Some(Some(copy_of(calibration))),
        }
    }

    /// Takes note of what was read from disk, if the answer is worth remembering: one that
    /// was reached without being able to read the firmware is not, so that a single failed
    /// read does not last for the life of the process.
    pub fn load(&mut self, read: (Option<Calibration>, bool)) -> (r: Option<Calibration>)
        ensures
            verdict_of(r) == verdict_of(read.0),
            final(self)@ == (if read.1 {
                Some(verdict_of(read.0))
            } else {
                old(self)@
            }),
            // What was reached without reading the firmware leaves no trace.
            !read.1 ==> final(self)@ == old(self)@,
            read.1 ==> final(self)@ is Some && final(self)@->0 == verdict_of(read.0),
    {
        let (value, conclusive) = read;
        if conclusive {
            self.verdict = Some(
                match &value {
                    Some(calibration) => Some(copy_of(calibration)),
                    None => None,
                },
            );
        }
        value
    }

    /// Takes note of a calibration that was just saved.
    pub fn save(&mut self, calibration: &Calibration)
        ensures
            final(self)@ == Some(Some(ranking_of(*calibration))),
    {
        self.verdict = Some(Some(copy_of(calibration)));
    }
}

/// A calibration is seen as it is.
pub proof fn law_calibrations_are_seen_as_they_are(calibration: Calibration)
    ensures
        ranking_of(calibration).profiles == calibration.profiles@,
        ranking_of(calibration).measured == calibration.measured,
        ranking_of(calibration).advertised == calibration.advertised@,
        ranking_of(calibration).firmware == calibration.firmware@,
        verdict_of(Some(calibration)) == Some(ranking_of(calibration)),
        verdict_of(None) is None,
{
}

} // verus!
