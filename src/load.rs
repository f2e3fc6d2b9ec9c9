//! The request as it travels on the wire, the defaults a client fills in, and
//! the clamping that turns a request into a load that is safe to run.
use vstd::prelude::*;

verus! {

/// Duration that a client asks for when none is given.
pub const DEFAULT_TIME_SECONDS: i32 = 5;

/// Number of cores that a client asks for when none is given.
pub const DEFAULT_CPUS: i32 = 1;

/// Smallest accepted value of a load parameter.
pub const MIN_UNITS: i32 = 1;

/// One `SetLoad` request: how many cores to occupy and for how long.
#[derive(Clone, Copy, Debug, PartialEq, Eq, Structural)]
pub struct Load {
    pub cpus: i32,
    pub time_seconds: i32,
}

/// A request after clamping: both fields are at least one.
#[derive(Clone, Copy, Debug, PartialEq, Eq, Structural)]
pub struct LoadSpec {
    pub cpu_count: i32,
    pub duration_seconds: i32,
}

/// A supplied value below one is raised to one.
pub open spec fn clamp_up(v: int) -> int {
    if v < 1 {
        1
    } else {
        v
    }
}

impl LoadSpec {
    pub open spec fn wf(self) -> bool {
        self.cpu_count >= 1 && self.duration_seconds >= 1
    }

    /// Number of burn workers, as a count.
    pub fn worker_count(&self) -> (r: usize)
        requires
            self.wf(),
        ensures
            r as int == self.cpu_count as int,
    {
        self.cpu_count as usize
    }

    /// Burn duration in whole seconds.
    pub fn duration_secs(&self) -> (r: u64)
        requires
            self.wf(),
        ensures
            r as int == self.duration_seconds as int,
    {
        self.duration_seconds as u64
    }
}

/// Clamps each field of a request up to one; never fails.
pub fn normalize(load: Load) -> (r: LoadSpec)
    ensures
        r.wf(),
        r == normalize_spec(load),
        r.cpu_count as int == clamp_up(load.cpus as int),
        r.duration_seconds as int == clamp_up(load.time_seconds as int),
{
    let cpu_count = if load.cpus < MIN_UNITS { MIN_UNITS } else { load.cpus };
    let duration_seconds = if load.time_seconds < MIN_UNITS { MIN_UNITS } else { load.time_seconds };
    LoadSpec { cpu_count, duration_seconds }
}

/// The request a client sends: an absent count of cores is one, an absent
/// duration is five seconds; supplied values go through unchanged.
pub fn request_from_options(num_cpus: Option<i32>, time_seconds: Option<i32>) -> (r: Load)
    ensures
        r == request_spec(num_cpus, time_seconds),
{
    let cpus = match num_cpus {
        Some(c) => c,
        None => DEFAULT_CPUS,
    };
    let time_seconds = match time_seconds {
        Some(t) => t,
        None => DEFAULT_TIME_SECONDS,
    };
    Load { cpus, time_seconds }
}

/// Cores that a run occupies for a count that may be absent.
pub open spec fn effective_cpus(num_cpus: Option<i32>) -> int {
    match num_cpus {
        Some(c) => clamp_up(c as int),
        None => 1,
    }
}

/// Seconds that a run burns for a duration that may be absent.
pub open spec fn effective_seconds(time_seconds: Option<i32>) -> int {
    match time_seconds {
        Some(t) => clamp_up(t as int),
        None => DEFAULT_TIME_SECONDS as int,
    }
}

/// An absent or non-positive count of cores runs on one core; a count of one
/// or more runs on exactly that many.
pub proof fn lemma_effective_cpus(num_cpus: Option<i32>, time_seconds: Option<i32>)
    ensures
        ({
            let spec = normalize_spec(request_spec(num_cpus, time_seconds));
            &&& spec.cpu_count as int == effective_cpus(num_cpus)
            &&& (num_cpus is None || num_cpus->0 <= 0) ==> spec.cpu_count == 1
            &&& (num_cpus is Some && num_cpus->0 >= 1) ==> spec.cpu_count == num_cpus->0
        }),
{
}

/// An absent duration burns for the client default of five seconds; a
/// non-positive one is raised to the server's floor of one second; a positive
/// one is kept.
pub proof fn lemma_effective_seconds(num_cpus: Option<i32>, time_seconds: Option<i32>)
    ensures
        ({
            let spec = normalize_spec(request_spec(num_cpus, time_seconds));
            &&& spec.duration_seconds as int == effective_seconds(time_seconds)
            &&& time_seconds is None ==> spec.duration_seconds == DEFAULT_TIME_SECONDS
            &&& (time_seconds is Some && time_seconds->0 <= 0) ==> spec.duration_seconds == 1
            &&& (time_seconds is Some && time_seconds->0 >= 1) ==> spec.duration_seconds
                == time_seconds->0
        }),
{
}

/// What `request_from_options` returns.
pub open spec fn request_spec(num_cpus: Option<i32>, time_seconds: Option<i32>) -> Load {
    Load {
        cpus: match num_cpus {
            Some(c) => c,
            None => DEFAULT_CPUS,
        },
        time_seconds: match time_seconds {
            Some(t) => t,
            None => DEFAULT_TIME_SECONDS,
        },
    }
}

/// What `normalize` returns.
pub open spec fn normalize_spec(load: Load) -> LoadSpec {
    LoadSpec {
        cpu_count: clamp_up(load.cpus as int) as i32,
        duration_seconds: clamp_up(load.time_seconds as int) as i32,
    }
}

} // verus!
