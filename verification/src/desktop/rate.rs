//! The controller that fits bit rate and frame rate to what the network and the encoder sustain.
use crate::time::Duration;
use vstd::prelude::*;

verus! {

#[derive(Clone, Copy, Debug, Eq, PartialEq, Structural)]
pub struct RateSample {
    pub rtt: Duration,
    pub loss_percent: u8,
    pub queue_depth: u16,
    pub encode_time: Duration,
}

#[derive(Clone, Copy, Debug, Eq, PartialEq, Structural)]
pub struct RateSettings {
    pub bitrate: u32,
    pub frames_per_second: u16,
}

impl RateSettings {
    /// Neither rate lies below that of the other settings.
    pub open spec fn at_least(self, other: RateSettings) -> bool {
        &&& self.bitrate >= other.bitrate
        &&& self.frames_per_second >= other.frames_per_second
    }
}

#[derive(Clone, Copy, Debug)]
pub struct RateController {
    settings: RateSettings,
    minimum: RateSettings,
    maximum: RateSettings,
}

/// The network loses packets, answers late or queues.
pub open spec fn congested(sample: RateSample) -> bool {
    ||| sample.loss_percent >= 5
    ||| sample.rtt.nanos >= 150_000_000
    ||| sample.queue_depth >= 3
}

/// Encoding one frame takes too long.
pub open spec fn overloaded(sample: RateSample) -> bool {
    sample.encode_time.nanos >= 45_000_000
}

/// The larger of two numbers.
pub open spec fn larger(a: int, b: int) -> int {
    if a < b {
        b
    } else {
        a
    }
}

/// The smaller of two numbers.
pub open spec fn smaller(a: int, b: int) -> int {
    if b < a {
        b
    } else {
        a
    }
}

/// The settings after one sample: four fifths under pressure, but not below the minimum; else
/// five percent more bits and one more frame per second, but not above the maximum.
pub open spec fn adjusted(
    settings: RateSettings,
    minimum: RateSettings,
    maximum: RateSettings,
    sample: RateSample,
) -> RateSettings {
    if congested(sample) || overloaded(sample) {
        RateSettings {
            bitrate: larger(settings.bitrate * 80 / 100, minimum.bitrate as int) as u32,
            frames_per_second: larger(
                settings.frames_per_second * 80 / 100,
                minimum.frames_per_second as int,
            ) as u16,
        }
    } else {
        RateSettings {
            bitrate: smaller(settings.bitrate * 105 / 100, maximum.bitrate as int) as u32,
            frames_per_second: smaller(
                settings.frames_per_second + 1,
                maximum.frames_per_second as int,
            ) as u16,
        }
    }
}

/// The intermediate products of an adjustment fit their integers.
pub open spec fn adjustable(settings: RateSettings, sample: RateSample) -> bool {
    if congested(sample) || overloaded(sample) {
        settings.bitrate * 80 <= u32::MAX && settings.frames_per_second * 80 <= u16::MAX
    } else {
        settings.bitrate * 105 <= u32::MAX && settings.frames_per_second + 1 <= u16::MAX
    }
}

impl RateController {
    pub closed spec fn current(self) -> RateSettings {
        self.settings
    }

    pub closed spec fn floor(self) -> RateSettings {
        self.minimum
    }

    pub closed spec fn ceiling(self) -> RateSettings {
        self.maximum
    }

    pub fn new(initial: RateSettings, minimum: RateSettings, maximum: RateSettings) -> (result: Self)
        ensures
            result.current() == initial,
            result.floor() == minimum,
            result.ceiling() == maximum,
    {
        RateController { settings: initial, minimum, maximum }
    }

    pub fn settings(self) -> (result: RateSettings)
        ensures
            result == self.current(),
    {
        self.settings
    }

    pub fn update(&mut self, sample: RateSample) -> (result: RateSettings)
        requires
            adjustable(old(self).current(), sample),
        ensures
            result == adjusted(
                old(self).current(),
                old(self).floor(),
                old(self).ceiling(),
                sample,
            ),
            final(self).current() == result,
            final(self).floor() == old(self).floor(),
            final(self).ceiling() == old(self).ceiling(),
    {
        let congested = sample.loss_percent >= 5 || sample.rtt.nanos >= 150_000_000
            || sample.queue_depth >= 3;
        let overloaded = sample.encode_time.nanos >= 45_000_000;
        if congested || overloaded {
            let bitrate: u32 = self.settings.bitrate * 80 / 100;
            let rate: u16 = self.settings.frames_per_second * 80 / 100;
            self.settings.bitrate = if bitrate < self.minimum.bitrate {
                self.minimum.bitrate
            } else {
                bitrate
            };
            self.settings.frames_per_second = if rate < self.minimum.frames_per_second {
                self.minimum.frames_per_second
            } else {
                rate
            };
        } else {
            let bitrate: u32 = self.settings.bitrate * 105 / 100;
            let rate: u16 = self.settings.frames_per_second + 1;
            self.settings.bitrate = if bitrate > self.maximum.bitrate {
                self.maximum.bitrate
            } else {
                bitrate
            };
            self.settings.frames_per_second = if rate > self.maximum.frames_per_second {
                self.maximum.frames_per_second
            } else {
                rate
            };
        }
        self.settings
    }
}

/// Settings between the bounds stay between them, whatever is measured.
pub proof fn law_rates_stay_in_bounds(
    settings: RateSettings,
    minimum: RateSettings,
    maximum: RateSettings,
    sample: RateSample,
)
    requires
        settings.at_least(minimum),
        maximum.at_least(settings),
        adjustable(settings, sample),
    ensures
        adjusted(settings, minimum, maximum, sample).at_least(minimum),
        maximum.at_least(adjusted(settings, minimum, maximum, sample)),
{
}

/// Under pressure no rate rises, and with room no rate falls.
pub proof fn law_rates_follow_the_sample(
    settings: RateSettings,
    minimum: RateSettings,
    maximum: RateSettings,
    sample: RateSample,
)
    requires
        settings.at_least(minimum),
        maximum.at_least(settings),
        adjustable(settings, sample),
    ensures
        congested(sample) || overloaded(sample) ==> settings.at_least(
            adjusted(settings, minimum, maximum, sample),
        ),
        !congested(sample) && !overloaded(sample) ==> adjusted(
            settings,
            minimum,
            maximum,
            sample,
        ).at_least(settings),
{
}

/// The network is congested from five lost packets in a hundred on, from 150 milliseconds of delay on
/// or from three waiting frames on, and the encoder overloaded from 45 milliseconds for a frame on.
/// Then the rates fall by a fifth; otherwise they rise by a twentieth and by one frame a second.
pub proof fn law_rates_change_by_their_share(
    settings: RateSettings,
    minimum: RateSettings,
    maximum: RateSettings,
    sample: RateSample,
)
    requires
        settings.at_least(minimum),
        maximum.at_least(settings),
        settings.bitrate * 105 <= u32::MAX,
        settings.frames_per_second * 80 <= u16::MAX,
    ensures
        adjustable(settings, sample),
        ({
            let strained = sample.loss_percent >= 5 || sample.rtt.nanos >= 150_000_000
                || sample.queue_depth >= 3 || sample.encode_time.nanos >= 45_000_000;
            let after = adjusted(settings, minimum, maximum, sample);
            &&& strained ==> after.bitrate == minimum.bitrate || 100 * after.bitrate <= 80
                * settings.bitrate < 100 * after.bitrate + 100
            &&& strained ==> after.frames_per_second == minimum.frames_per_second || 100
                * after.frames_per_second <= 80 * settings.frames_per_second < 100
                * after.frames_per_second + 100
            &&& strained ==> 80 * settings.bitrate < 100 * after.bitrate + 100
            &&& !strained ==> after.bitrate == maximum.bitrate || 100 * after.bitrate <= 105
                * settings.bitrate < 100 * after.bitrate + 100
            &&& !strained ==> 100 * after.bitrate <= 105 * settings.bitrate
            &&& !strained ==> after.frames_per_second == maximum.frames_per_second
                || after.frames_per_second == settings.frames_per_second + 1
        }),
{
}

} // verus!
