//! The weather window: the clock and the fog.

use crate::fixed::{clamp, clamped, ONE};
use crate::fog::FogSettings;
use crate::sky::DayNightCycle;
use crate::text::{clock_text, format_game_time};
use vstd::prelude::*;
use vstd::string::StringExecFns;

verus! {

/// The speed at which the clock runs after it was paused: a full day in 200 s.
pub const PLAY_SPEED: i64 = 5_000_000;

/// What was done in the window in a frame: where its sliders were dragged to, and
/// which of its buttons were clicked.
#[derive(Clone, Copy, Debug, PartialEq, Eq)]
pub struct WeatherInput {
    pub time: Option<i64>,
    pub play_pause: bool,
    pub fog: bool,
    pub visibility: Option<i64>,
    pub glow: Option<i64>,
}

/// A slider's value after a frame: what it was dragged to, or else what it was,
/// taken into its range.
pub open spec fn dragged_to(value: i64, dragged: Option<i64>, lo: int, hi: int) -> i64 {
    clamped(
        match dragged {
            Some(d) => d as int,
            None => value as int,
        },
        lo,
        hi,
    ) as i64
}

fn drag(value: i64, dragged: Option<i64>, lo: i64, hi: i64) -> (r: i64)
    requires
        lo <= hi,
    ensures
        r == dragged_to(value, dragged, lo as int, hi as int),
{
    match dragged {
        Some(d) => clamp(d as i128, lo, hi),
        None => clamp(value as i128, lo, hi),
    }
}

/// The window's button: it plays a paused clock and pauses a running one.
pub open spec fn play_paused(speed: i64, clicked: bool) -> i64 {
    if !clicked {
        speed
    } else if speed == 0 {
        PLAY_SPEED
    } else {
        0
    }
}

/// The sliders of the fog move only while fog is enabled.
pub open spec fn when_enabled(enabled: bool, dragged: Option<i64>) -> Option<i64> {
    if enabled {
        dragged
    } else {
        None
    }
}

/// What the window shows: the clock and the caption of its button.
#[derive(Debug)]
pub struct WeatherView {
    pub clock: String,
    pub button: &'static str,
}

/// The weather window for a frame; closed, it shows and changes nothing. The clock
/// shows the time before its slider moves.
pub fn draw_weather(
    open: bool,
    sky: &mut DayNightCycle,
    fog: &mut FogSettings,
    input: &WeatherInput,
) -> (view: Option<WeatherView>)
    ensures
        !open ==> view is None && *final(sky) == *old(sky) && *final(fog) == *old(fog),
        open ==> {
            &&& view matches Some(v)
            &&& v.clock@ == "Clock: "@ + clock_text(old(sky).time_of_day as int)
            &&& v.button@ == if old(sky).speed == 0 {
                "▶  Play"@
            } else {
                "⏸  Pause"@
            }
            &&& *final(sky) == (DayNightCycle {
                time_of_day: dragged_to(old(sky).time_of_day, input.time, 0, ONE as int),
                speed: play_paused(old(sky).speed, input.play_pause),
                ..*old(sky)
            })
            &&& *final(fog) == ({
                let on = old(fog).enabled != input.fog;
                FogSettings {
                    enabled: on,
                    visibility: dragged_to(
                        old(fog).visibility,
                        when_enabled(on, input.visibility),
                        200_000_000_000,
                        100_000_000_000_000,
                    ),
                    directional_light_exponent: dragged_to(
                        old(fog).directional_light_exponent,
                        when_enabled(on, input.glow),
                        1_000_000_000,
                        50_000_000_000,
                    ),
                    ..*old(fog)
                }
            })
        },
{
    if !open {
        return None;
    }
    let mut clock: String = String::from_str("Clock: ");
    clock.append(format_game_time(sky.time_of_day).as_str());
    let paused: bool = sky.speed == 0;
    sky.time_of_day = drag(sky.time_of_day, input.time, 0, ONE);
    if input.play_pause {
        sky.speed = if paused {
            PLAY_SPEED
        } else {
            0
        };
    }
    if input.fog {
        fog.enabled = !fog.enabled;
    }
    let visibility: Option<i64> = if fog.enabled {
        input.visibility
    } else {
        None
    };
    let glow: Option<i64> = if fog.enabled {
        input.glow
    } else {
        None
    };
    fog.visibility = drag(fog.visibility, visibility, 200_000_000_000, 100_000_000_000_000);
    fog.directional_light_exponent = drag(
        fog.directional_light_exponent,
        glow,
        1_000_000_000,
        50_000_000_000,
    );
    let button: &'static str = if paused {
        "▶  Play"
    } else {
        "⏸  Pause"
    };
    Some(WeatherView { clock, button })
}

/// Pausing and playing again gives the standard speed, and pausing stops the
/// clock.
pub proof fn play_undoes_pause(speed: i64)
    ensures
        speed != 0 ==> play_paused(speed, true) == 0,
        speed != 0 ==> play_paused(play_paused(speed, true), true) == PLAY_SPEED,
{
}

/// A slider goes where it is dragged, as far as its range lets it; left alone in its
/// range it stays.
pub proof fn sliders_go_where_they_are_dragged(value: i64, dragged: i64, lo: i64, hi: i64)
    requires
        lo <= hi,
    ensures
        ({
            let (lo, hi) = (lo as int, hi as int);
            let r = dragged_to(value, Some(dragged), lo, hi);
            &&& lo <= r <= hi
            &&& lo <= dragged <= hi ==> r == dragged
            &&& dragged < lo ==> r == lo
            &&& dragged > hi ==> r == hi
            &&& lo <= value <= hi ==> dragged_to(value, None, lo, hi) == value
        }),
{
}

/// The sliders of the fog answer only while fog is on, and the clock's button changes
/// nothing until it is clicked. A day takes 200 s once the clock plays again.
pub proof fn disabled_sliders_stay(dragged: Option<i64>, speed: i64)
    ensures
        when_enabled(true, dragged) == dragged,
        when_enabled(false, dragged) is None,
        play_paused(speed, false) == speed,
        play_paused(0, true) * 200 == 1_000_000_000,
{
}

}
