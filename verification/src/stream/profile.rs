//! Rate profiles and the steps by which a stream moves inside them.
use vstd::prelude::*;

verus! {

pub const NETWORK_MAX_BITRATE: u32 = 4_000_000;

pub const NETWORK_MAX_FPS: u32 = 30;

/// The rates that a stream starts with and the bounds that it stays in. The bit rate is an
/// average target of the encoder; keyframes can still be larger.
#[derive(Clone, Copy, Debug)]
pub struct RateProfile {
    pub name: &'static str,
    pub initial_bitrate: u32,
    pub initial_fps: u32,
    pub min_bitrate: u32,
    pub min_fps: u32,
    pub max_bitrate: u32,
    pub max_fps: u32,
    pub color_depth_bits: u8,
    /// The bits that are kept of blue, green and red.
    pub color_masks: [u8; 3],
}

/// The smaller of two rates.
pub open spec fn at_most(rate: nat, bound: nat) -> nat {
    if rate < bound {
        rate
    } else {
        bound
    }
}

/// The larger of two rates.
pub open spec fn at_least(rate: nat, bound: nat) -> nat {
    if rate < bound {
        bound
    } else {
        rate
    }
}

/// A rate, moved into bounds.
pub open spec fn between(rate: nat, low: nat, high: nat) -> nat {
    at_most(at_least(rate, low), high)
}

pub(crate) fn clamped(rate: u32, low: u32, high: u32) -> (result: u32)
    requires
        low <= high,
    ensures
        result == between(rate as nat, low as nat, high as nat),
{
    if rate < low {
        low
    } else if rate > high {
        high
    } else {
        rate
    }
}

impl RateProfile {
    /// The highest bit rate of the profile that the network limit admits.
    pub open spec fn bitrate_limit(self) -> nat {
        at_most(self.max_bitrate as nat, NETWORK_MAX_BITRATE as nat)
    }

    /// The highest frame rate of the profile that the network limit admits.
    pub open spec fn fps_limit(self) -> nat {
        at_most(self.max_fps as nat, NETWORK_MAX_FPS as nat)
    }

    /// The bounds are in order, there is at least one frame per second, and the stream starts
    /// inside the bounds.
    pub open spec fn wf(self) -> bool {
        &&& self.min_bitrate <= self.initial_bitrate <= self.bitrate_limit()
        &&& 0 < self.min_fps <= self.initial_fps <= self.fps_limit()
    }

    /// The profile with its bounds in order: at least one frame per second, the lower bounds not
    /// above the limits, and initial rates inside the bounds.
    pub open spec fn settled(self) -> RateProfile {
        let bitrates = self.bitrate_limit();
        let max_fps = at_least(self.max_fps as nat, 1);
        let rates = at_most(max_fps, NETWORK_MAX_FPS as nat);
        let min_bitrate = at_most(self.min_bitrate as nat, bitrates);
        let min_fps = between(self.min_fps as nat, 1, rates);
        RateProfile {
            initial_bitrate: between(self.initial_bitrate as nat, min_bitrate, bitrates) as u32,
            initial_fps: between(self.initial_fps as nat, min_fps, rates) as u32,
            min_bitrate: min_bitrate as u32,
            min_fps: min_fps as u32,
            max_fps: max_fps as u32,
            ..self
        }
    }

    /// Puts the bounds of a profile in order.
    pub fn settle(self) -> (profile: RateProfile)
        ensures
            profile == self.settled(),
            profile.wf(),
            self.wf() ==> profile == self,
    {
        let bitrates: u32 = if self.max_bitrate < NETWORK_MAX_BITRATE {
            self.max_bitrate
        } else {
            NETWORK_MAX_BITRATE
        };
        let max_fps: u32 = if self.max_fps < 1 {
            1
        } else {
            self.max_fps
        };
        let rates: u32 = if max_fps < NETWORK_MAX_FPS {
            max_fps
        } else {
            NETWORK_MAX_FPS
        };
        let min_bitrate: u32 = if self.min_bitrate < bitrates {
            self.min_bitrate
        } else {
            bitrates
        };
        let min_fps: u32 = clamped(self.min_fps, 1, rates);
        RateProfile {
            name: self.name,
            initial_bitrate: clamped(self.initial_bitrate, min_bitrate, bitrates),
            initial_fps: clamped(self.initial_fps, min_fps, rates),
            min_bitrate,
            min_fps,
            max_bitrate: self.max_bitrate,
            max_fps,
            color_depth_bits: self.color_depth_bits,
            color_masks: self.color_masks,
        }
    }

    /// The profile for ordinary links: one megabit and twelve frames per second at first, between
    /// 384 kilobits with six frames and four megabits with thirty, in sixteen-bit color.
    pub fn balanced() -> (profile: RateProfile)
        ensures
            profile.wf(),
            profile.name@ == "balanced"@,
            profile.initial_bitrate == 1_000_000,
            profile.initial_fps == 12,
            profile.min_bitrate == 384_000,
            profile.min_fps == 6,
            profile.max_bitrate == 4_000_000,
            profile.max_fps == 30,
            profile.color_depth_bits == 16,
            profile.color_masks@ == seq![0xF8u8, 0xFC, 0xF8],
    {
        let profile = RateProfile {
            name: "balanced",
            initial_bitrate: 1_000_000,
            initial_fps: 12,
            min_bitrate: 384_000,
            min_fps: 6,
            max_bitrate: 4_000_000,
            max_fps: 30,
            color_depth_bits: 16,
            color_masks: [0xF8, 0xFC, 0xF8],
        };
        assert(profile.color_masks@ =~= seq![0xF8u8, 0xFC, 0xF8]);
        profile
    }

    /// The profile for narrow links: 64 to 160 kilobits, three to five frames per second, and two
    /// bits for each color.
    pub fn ultra_low() -> (profile: RateProfile)
        ensures
            profile.wf(),
            profile.name@ == "ultra-low"@,
            profile.initial_bitrate == 64_000,
            profile.initial_fps == 3,
            profile.min_bitrate == 64_000,
            profile.min_fps == 3,
            profile.max_bitrate == 160_000,
            profile.max_fps == 5,
            profile.color_depth_bits == 6,
            profile.color_masks@ == seq![0xC0u8, 0xC0, 0xC0],
    {
        let profile = RateProfile {
            name: "ultra-low",
            initial_bitrate: 64_000,
            initial_fps: 3,
            min_bitrate: 64_000,
            min_fps: 3,
            max_bitrate: 160_000,
            max_fps: 5,
            color_depth_bits: 6,
            color_masks: [0xC0, 0xC0, 0xC0],
        };
        assert(profile.color_masks@ =~= seq![0xC0u8, 0xC0, 0xC0]);
        profile
    }
}

/// Two thirds of a pair of rates, but not below the given bounds. A frame rate above the 16-bit
/// range keeps its low sixteen bits.
pub open spec fn reduced(bitrate: u32, fps: u16, min_bitrate: u32, min_fps: u32) -> (u32, u16) {
    (
        at_least(at_most(2 * bitrate as nat, u32::MAX as nat) / 3, min_bitrate as nat) as u32,
        (at_least(2 * fps as nat / 3, min_fps as nat) % 0x1_0000) as u16,
    )
}

/// Four thirds of a bit rate and one more frame per second, but not above the given bounds.
pub open spec fn increased(bitrate: u32, fps: u16, max_bitrate: u32, max_fps: u32) -> (u32, u16) {
    (
        at_most(at_most(4 * bitrate as nat, u32::MAX as nat) / 3 + 1, max_bitrate as nat) as u32,
        (at_most(fps as nat + 1, max_fps as nat) % 0x1_0000) as u16,
    )
}

/// The next lower rates of a stream.
pub fn reduce_stream_rate(
    bitrate: u32,
    frames_per_second: u16,
    min_bitrate: u32,
    min_fps: u32,
) -> (rates: (u32, u16))
    ensures
        rates == reduced(bitrate, frames_per_second, min_bitrate, min_fps),
{
    let double: u64 = bitrate as u64 * 2;
    let limited: u64 = if double < u32::MAX as u64 {
        double
    } else {
        u32::MAX as u64
    };
    let third: u32 = (limited / 3) as u32;
    let fps: u32 = frames_per_second as u32 * 2 / 3;
    let lower: u32 = if third < min_bitrate {
        min_bitrate
    } else {
        third
    };
    let slower: u32 = if fps < min_fps {
        min_fps
    } else {
        fps
    };
    (lower, (slower % 0x1_0000) as u16)
}

/// The next higher rates of a stream.
pub fn increase_stream_rate(
    bitrate: u32,
    frames_per_second: u16,
    max_bitrate: u32,
    max_fps: u32,
) -> (rates: (u32, u16))
    ensures
        rates == increased(bitrate, frames_per_second, max_bitrate, max_fps),
{
    let quadruple: u64 = bitrate as u64 * 4;
    let limited: u64 = if quadruple < u32::MAX as u64 {
        quadruple
    } else {
        u32::MAX as u64
    };
    let third: u64 = limited / 3 + 1;
    let fps: u32 = frames_per_second as u32 + 1;
    let higher: u64 = if third < max_bitrate as u64 {
        third
    } else {
        max_bitrate as u64
    };
    let faster: u32 = if fps < max_fps {
        fps
    } else {
        max_fps
    };
    (higher as u32, (faster % 0x1_0000) as u16)
}

/// Reducing rates that lie inside a profile's bounds leaves them inside, and never raises one.
pub proof fn law_reduction_stays_in_bounds(profile: RateProfile, bitrate: u32, fps: u16)
    requires
        profile.wf(),
        profile.min_bitrate <= bitrate <= profile.bitrate_limit(),
        profile.min_fps <= fps <= profile.fps_limit(),
    ensures
        ({
            let (lower, slower) = reduced(bitrate, fps, profile.min_bitrate, profile.min_fps);
            &&& profile.min_bitrate <= lower <= bitrate
            &&& profile.min_fps <= slower <= fps
        }),
{
}

/// Increasing rates that lie inside a profile's bounds leaves them inside, and never lowers one.
pub proof fn law_increase_stays_in_bounds(profile: RateProfile, bitrate: u32, fps: u16)
    requires
        profile.wf(),
        profile.min_bitrate <= bitrate <= profile.bitrate_limit(),
        profile.min_fps <= fps <= profile.max_fps <= u16::MAX,
    ensures
        ({
            let (higher, faster) = increased(bitrate, fps, profile.max_bitrate, profile.max_fps);
            &&& bitrate <= higher <= profile.max_bitrate
            &&& fps <= faster <= profile.max_fps
        }),
{
}

/// Repeated reduction reaches the floor: as long as a bit rate lies above the floor, one step
/// lowers it.
pub proof fn law_reduction_reaches_the_floor(bitrate: u32, fps: u16, min_bitrate: u32, min_fps: u32)
    requires
        min_bitrate < bitrate,
    ensures
        reduced(bitrate, fps, min_bitrate, min_fps).0 < bitrate,
{
}

/// A reduced rate is two thirds of the rate before, rounded down, but never less than the lower bound.
pub proof fn law_reduction_takes_two_thirds(bitrate: u32, fps: u16, min_bitrate: u32, min_fps: u32)
    requires
        bitrate < 0x8000_0000,
        min_fps < 0x1_0000,
    ensures
        ({
            let (lower, slower) = reduced(bitrate, fps, min_bitrate, min_fps);
            &&& lower == min_bitrate || 3 * lower <= 2 * bitrate < 3 * lower + 3
            &&& lower >= min_bitrate
            &&& 2 * bitrate < 3 * lower + 3
            &&& slower == min_fps || 3 * slower <= 2 * fps < 3 * slower + 3
            &&& slower >= min_fps
            &&& 2 * fps < 3 * slower + 3
        }),
{
}

/// An increased rate is the first whole number above four thirds of the rate before, and one more
/// frame a second, but never more than the upper bound.
pub proof fn law_increase_adds_a_third(bitrate: u32, fps: u16, max_bitrate: u32, max_fps: u32)
    requires
        bitrate < 0x4000_0000,
        fps < 0xffff,
        max_fps < 0x1_0000,
    ensures
        ({
            let (higher, faster) = increased(bitrate, fps, max_bitrate, max_fps);
            &&& higher <= max_bitrate
            &&& 3 * (higher - 1) <= 4 * bitrate
            &&& higher == max_bitrate || 4 * bitrate < 3 * higher
            &&& faster <= max_fps
            &&& faster == max_fps || faster == fps + 1
            &&& faster <= fps + 1
        }),
{
}

/// A settled profile keeps every bound that it can keep: its limits are those of the network where
/// they were higher, its floor lies below its limits, its first rates lie between the two, and what
/// says how pictures look is left alone.
pub proof fn law_settled_profile_keeps_its_bounds(profile: RateProfile)
    ensures
        ({
            let settled = profile.settled();
            &&& settled.min_bitrate <= settled.initial_bitrate <= 4_000_000
            &&& settled.initial_bitrate <= settled.max_bitrate == profile.max_bitrate
            &&& 1 <= settled.min_fps <= settled.initial_fps <= 30
            &&& settled.initial_fps <= settled.max_fps
            &&& settled.max_fps == (if profile.max_fps == 0 {
                1
            } else {
                profile.max_fps
            })
            &&& profile.min_bitrate <= 4_000_000 && profile.min_bitrate <= profile.max_bitrate
                ==> settled.min_bitrate == profile.min_bitrate
            &&& 1 <= profile.min_fps <= 30 && profile.min_fps <= profile.max_fps ==> settled.min_fps
                == profile.min_fps
            &&& settled.min_bitrate <= profile.initial_bitrate && profile.initial_bitrate
                <= 4_000_000 && profile.initial_bitrate <= profile.max_bitrate
                ==> settled.initial_bitrate == profile.initial_bitrate
            &&& settled.min_fps <= profile.initial_fps && profile.initial_fps <= 30
                && profile.initial_fps <= profile.max_fps ==> settled.initial_fps
                == profile.initial_fps
            &&& settled.name == profile.name
            &&& settled.color_depth_bits == profile.color_depth_bits
            &&& settled.color_masks == profile.color_masks
        }),
{
}

} // verus!
