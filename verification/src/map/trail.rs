//! The breadcrumb trail: a rolling history of the plane's track, sampled on a
//! fixed interval whether or not the map is open.

use bevy::time::{Timer, TimerMode};
use std::collections::VecDeque;
use std::time::Duration;
use vstd::prelude::*;

verus! {

/// Samples are taken every 3 s (in nanoseconds).
pub const TRAIL_SAMPLE: u64 = 3_000_000_000;

/// Ten minutes of samples.
pub const TRAIL_MAX: usize = 200;

/// One logged sample: where the plane was and which way it faced.
#[derive(Clone, Copy, Debug, PartialEq, Eq)]
pub struct Breadcrumb {
    pub pos: (i64, i64),
    pub heading: (i64, i64),
}

/// Rolling history of the plane's track.
pub struct BreadcrumbTrail {
    pub crumbs: VecDeque<Breadcrumb>,
    /// Time within the current sampling interval, in nanoseconds.
    pub elapsed: u64,
}

impl BreadcrumbTrail {
    /// The samples, oldest first.
    pub open spec fn view(&self) -> Seq<Breadcrumb> {
        self.crumbs@
    }

    /// Never more samples than ten minutes hold, and the clock stays within the
    /// interval.
    pub open spec fn wf(self) -> bool {
        self@.len() <= TRAIL_MAX && self.elapsed < TRAIL_SAMPLE
    }
}

impl Default for BreadcrumbTrail {
    fn default() -> (trail: Self)
        ensures
            trail@.len() == 0,
            trail.elapsed == 0,
            trail.wf(),
    {
        BreadcrumbTrail { crumbs: VecDeque::with_capacity(TRAIL_MAX), elapsed: 0 }
    }
}

/// `bevy::time::Timer::tick` on a repeating timer of the given period that stands
/// at `elapsed`: the time it stands at afterwards, and whether it just finished.
/// It finishes when whole periods went by; their number is held in 32 bits.
#[verifier::external_body]
fn tick_repeating(period: u64, elapsed: u64, delta: u64) -> (r: (u64, bool))
    requires
        elapsed < period,
    ensures
        r.0 == (elapsed + delta) % (period as int),
        r.1 == (((elapsed + delta) / (period as int)) % 0x1_0000_0000 > 0),
{
    let mut timer = Timer::new(Duration::from_nanos(period), TimerMode::Repeating);
    timer.set_elapsed(Duration::from_nanos(elapsed));
    timer.tick(Duration::from_nanos(delta));
    (timer.elapsed().as_nanos() as u64, timer.just_finished())
}

/// A sample falls due within a span that starts at `elapsed`.
pub open spec fn sample_due(elapsed: int, delta: int) -> bool {
    ((elapsed + delta) / (TRAIL_SAMPLE as int)) % 0x1_0000_0000 > 0
}

/// The last `n` samples.
pub open spec fn last_crumbs(crumbs: Seq<Breadcrumb>, n: int) -> Seq<Breadcrumb> {
    if crumbs.len() > n {
        crumbs.skip(crumbs.len() - n)
    } else {
        crumbs
    }
}

/// Samples the plane onto the trail when the interval is over, dropping the
/// oldest samples beyond [`TRAIL_MAX`]. Without a plane nothing is logged.
pub fn log_breadcrumbs(trail: &mut BreadcrumbTrail, delta: u64, plane: Option<Breadcrumb>)
    requires
        old(trail).elapsed < TRAIL_SAMPLE,
    ensures
        final(trail).elapsed == (old(trail).elapsed + delta) % (TRAIL_SAMPLE as int),
        final(trail)@ == match plane {
            Some(crumb) if sample_due(old(trail).elapsed as int, delta as int) => last_crumbs(
                old(trail)@.push(crumb),
                TRAIL_MAX as int,
            ),
            _ => old(trail)@,
        },
        old(trail).wf() ==> final(trail).wf(),
{
    let (elapsed, due) = tick_repeating(TRAIL_SAMPLE, trail.elapsed, delta);
    trail.elapsed = elapsed;
    if !due {
        return;
    }
    let crumb: Breadcrumb = match plane {
        Some(c) => c,
        None => {
            return;
        },
    };
    trail.crumbs.push_back(crumb);
    let ghost full = trail.crumbs@;
    let ghost mut dropped: int = 0;
    assert(full.skip(0) =~= full);
    while trail.crumbs.len() > TRAIL_MAX
        invariant
            0 <= dropped <= full.len(),
            trail.crumbs@ == full.skip(dropped),
            dropped > 0 ==> full.len() - dropped >= TRAIL_MAX,
            trail.elapsed == elapsed,
        decreases trail.crumbs@.len(),
    {
        let ghost before = trail.crumbs@;
        trail.crumbs.pop_front();
        proof {
            dropped = dropped + 1;
            assert(trail.crumbs@ =~= full.skip(dropped));
        }
    }
    assert(trail.crumbs@ =~= last_crumbs(full, TRAIL_MAX as int));
}

/// The trail keeps the newest sample and never grows beyond ten minutes.
pub proof fn trail_keeps_the_newest(crumbs: Seq<Breadcrumb>, crumb: Breadcrumb)
    ensures
        last_crumbs(crumbs.push(crumb), TRAIL_MAX as int).len() <= TRAIL_MAX,
        last_crumbs(crumbs.push(crumb), TRAIL_MAX as int).last() == crumb,
{
}

/// A sample falls due when three seconds have gone by since the last one, unless the
/// span overruns the timer's count.
pub proof fn samples_fall_due_every_three_seconds(elapsed: int, delta: int)
    requires
        0 <= elapsed < 3_000_000_000,
        0 <= delta,
        elapsed + delta < 3_000_000_000 * 0x1_0000_0000,
    ensures
        sample_due(elapsed, delta) <==> elapsed + delta >= 3_000_000_000,
{
    let n = (elapsed + delta) / 3_000_000_000;
    assert(0 <= n < 0x1_0000_0000);
    assert(n % 0x1_0000_0000 == n);
}

/// A full trail drops its oldest samples and keeps the others in their order: what stays
/// is the end of what was there.
pub proof fn trail_drops_the_oldest(crumbs: Seq<Breadcrumb>, n: int, k: int)
    requires
        0 <= n,
        0 <= k < last_crumbs(crumbs, n).len(),
    ensures
        ({
            let kept = last_crumbs(crumbs, n);
            &&& kept[kept.len() - 1 - k] == crumbs[crumbs.len() - 1 - k]
            &&& crumbs.len() <= n ==> kept == crumbs
            &&& crumbs.len() > n ==> kept.len() == n
        }),
        TRAIL_MAX == 200,
{
}

}
