use vstd::prelude::*;

verus! {

/// Time between two telemetry objects, in microseconds.
pub const TELEM_INTERVAL_US: u64 = 1_000_000;

/// The camera sensors the firmware tells apart.
#[derive(Copy, Clone, Debug, PartialEq, Eq, Structural)]
pub enum SensorModel {
    Ov2640,
    Ov3660,
    Unknown,
}

impl SensorModel {
    /// The sensor's name for the log.
    pub fn name(self) -> (res: &'static str)
        ensures
            self == SensorModel::Ov2640 ==> res@ == "ov2640"@,
            self == SensorModel::Ov3660 ==> res@ == "ov3660"@,
            self == SensorModel::Unknown ==> res@ == "unknown"@,
    {
        match self {
            SensorModel::Ov2640 => "ov2640",
            SensorModel::Ov3660 => "ov3660",
            SensorModel::Unknown => "unknown",
        }
    }

    /// Whether the sensor needs the slower clock and picture settings before
    /// streaming (only the OV3660 does).
    pub fn needs_tuning(self) -> (res: bool)
        ensures
            res == (self == SensorModel::Ov3660),
    {
        match self {
            SensorModel::Ov3660 => true,
            _ => false,
        }
    }
}

/// Whole seconds of uptime from the system timer's microsecond count; a
/// negative count reads as zero.
pub fn uptime_seconds(timer_us: i64) -> (res: u64)
    ensures
        res == if timer_us < 0 {
            0
        } else {
            timer_us / 1_000_000
        },
{
    let clamped: i64 = if timer_us < 0 {
        0
    } else {
        timer_us
    };
    (clamped / 1_000_000) as u64
}

/// Decides, frame by frame, when the stream also sends telemetry.
pub struct TelemetryClock {
    last_us: Option<u64>,
}

/// Whether telemetry is due at `now_us` after the last one at `last_us`: always
/// the first time, then once at least an interval has passed (time never runs
/// backwards, so an earlier `now_us` counts as no time).
pub open spec fn telemetry_due(last_us: Option<u64>, now_us: u64) -> bool {
    match last_us {
        None => true,
        Some(t) => (if now_us >= t {
            now_us - t
        } else {
            0
        }) >= TELEM_INTERVAL_US,
    }
}

impl TelemetryClock {
    /// When telemetry was last sent, in microseconds since the stream began.
    pub closed spec fn last(&self) -> Option<u64> {
        self.last_us
    }

    /// A clock that has sent nothing yet.
    pub fn new() -> (res: TelemetryClock)
        ensures
            res.last() is None,
    {
        TelemetryClock { last_us: None }
    }

    /// Called after each frame at time `now_us`; says whether to send telemetry
    /// now, and if so records the time.
    pub fn due(&mut self, now_us: u64) -> (res: bool)
        ensures
            res == telemetry_due(old(self).last(), now_us),
            final(self).last() == if res {
                Some(now_us)
            } else {
                old(self).last()
            },
    {
        let due = match self.last_us {
            None => true,
            Some(t) => now_us.saturating_sub(t) >= TELEM_INTERVAL_US,
        };
        if due {
            self.last_us = Some(now_us);
        }
        due
    }
}

/// The first frame always brings telemetry, and two telemetry objects sent at
/// `t1 <= t2` are at least an interval apart.
pub proof fn lemma_telemetry_spacing(t1: u64, t2: u64)
    ensures
        telemetry_due(None, t1),
        t1 <= t2 && telemetry_due(Some(t1), t2) ==> t2 - t1 >= TELEM_INTERVAL_US,
        t1 <= t2 && t2 - t1 >= TELEM_INTERVAL_US ==> telemetry_due(Some(t1), t2),
{
}

} // verus!
