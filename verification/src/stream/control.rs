//! What the two tasks of a host share: the requested rates and the state of recovery.
use crate::stream::profile::{
    between, clamped, law_reduction_stays_in_bounds, reduce_stream_rate, reduced, RateProfile,
    NETWORK_MAX_BITRATE, NETWORK_MAX_FPS,
};
use vstd::prelude::*;

verus! {

/// The requested rates, whether a keyframe was asked for and whether one is awaited. Requests for
/// keyframes are merged until the viewer acknowledges one.
#[derive(Clone, Copy, Debug)]
pub struct StreamControl {
    profile: RateProfile,
    keyframe_requested: bool,
    recovery_pending: bool,
    shutdown: bool,
    target_bitrate: u32,
    target_fps: u32,
}

/// The state of a [`StreamControl`].
pub struct ControlView {
    pub profile: RateProfile,
    pub keyframe_requested: bool,
    pub recovery_pending: bool,
    pub shutdown: bool,
    pub target_bitrate: u32,
    pub target_fps: u32,
}

impl ControlView {
    /// The stream at its end.
    pub open spec fn ended(self) -> ControlView {
        ControlView { shutdown: true, ..self }
    }

    /// The stream after the viewer has shown the keyframe that was sent.
    pub open spec fn acknowledged(self) -> ControlView {
        ControlView { recovery_pending: false, ..self }
    }

    /// The stream while a keyframe that was sent is not shown yet.
    pub open spec fn awaiting(self) -> ControlView {
        ControlView { recovery_pending: true, ..self }
    }

    /// The stream after its encoder was told of a request.
    pub open spec fn taken(self) -> ControlView {
        ControlView { keyframe_requested: false, ..self }
    }

    /// The rates that a request for less asks for, where it is not in vain.
    pub open spec fn lower_rates(self) -> Option<(u32, u16)> {
        if self.recovery_pending || self.at_floor() {
            None
        } else {
            Some(self.lower_rate())
        }
    }

    /// The requested rates lie inside the bounds of the profile.
    pub open spec fn in_bounds(self) -> bool {
        &&& self.profile.wf()
        &&& self.profile.min_bitrate <= self.target_bitrate <= self.profile.bitrate_limit()
        &&& self.profile.min_fps <= self.target_fps <= self.profile.fps_limit()
    }

    /// A new control: the rates of the profile, and nothing requested.
    pub open spec fn initial(profile: RateProfile) -> ControlView {
        ControlView {
            profile,
            keyframe_requested: false,
            recovery_pending: false,
            shutdown: false,
            target_bitrate: profile.initial_bitrate,
            target_fps: profile.initial_fps,
        }
    }

    /// After rates were asked for: both are moved into the bounds of the profile.
    pub open spec fn with_rate(self, bitrate: u32, fps: u16) -> ControlView {
        ControlView {
            target_bitrate: between(
                bitrate as nat,
                self.profile.min_bitrate as nat,
                self.profile.bitrate_limit(),
            ) as u32,
            target_fps: between(
                fps as nat,
                self.profile.min_fps as nat,
                self.profile.fps_limit(),
            ) as u32,
            ..self
        }
    }

    /// The rates one step below the requested ones.
    pub open spec fn lower_rate(self) -> (u32, u16) {
        reduced(
            self.target_bitrate,
            self.target_fps as u16,
            self.profile.min_bitrate,
            self.profile.min_fps,
        )
    }

    /// After a keyframe was asked for, which counts only if none is awaited.
    pub open spec fn with_request(self) -> ControlView {
        if self.recovery_pending {
            self
        } else {
            ControlView { recovery_pending: true, keyframe_requested: true, ..self }
        }
    }

    /// The rates already lie at the floor: a step down changes nothing.
    pub open spec fn at_floor(self) -> bool {
        self.lower_rate() == (self.target_bitrate, self.target_fps as u16)
    }

    /// After a keyframe at a lower rate was asked for. Neither a stream that awaits a keyframe
    /// nor one at the floor of its rates changes.
    pub open spec fn with_lower_request(self) -> ControlView {
        if self.recovery_pending || self.at_floor() {
            self
        } else {
            ControlView {
                recovery_pending: true,
                keyframe_requested: true,
                ..self.with_rate(self.lower_rate().0, self.lower_rate().1)
            }
        }
    }

    /// Whether capture waits for the acknowledgement of a keyframe.
    pub open spec fn paused(self, hybrid_video: bool) -> bool {
        hybrid_video && self.recovery_pending && !self.keyframe_requested
    }
}

impl View for StreamControl {
    type V = ControlView;

    closed spec fn view(&self) -> ControlView {
        ControlView {
            profile: self.profile,
            keyframe_requested: self.keyframe_requested,
            recovery_pending: self.recovery_pending,
            shutdown: self.shutdown,
            target_bitrate: self.target_bitrate,
            target_fps: self.target_fps,
        }
    }
}

impl StreamControl {
    #[verifier::type_invariant]
    spec fn bounded(self) -> bool {
        self@.in_bounds()
    }

    /// A control at the initial rates of a profile, whose bounds are put in order first.
    pub fn new(profile: RateProfile) -> (control: StreamControl)
        ensures
            control@ == ControlView::initial(profile.settled()),
            profile.wf() ==> control@ == ControlView::initial(profile),
            control@.in_bounds(),
    {
        let profile = profile.settle();
        StreamControl {
            profile,
            keyframe_requested: false,
            recovery_pending: false,
            shutdown: false,
            target_bitrate: profile.initial_bitrate,
            target_fps: profile.initial_fps,
        }
    }

    /// The requested bit rate.
    pub fn target_bitrate(&self) -> (bitrate: u32)
        ensures
            bitrate == self@.target_bitrate,
            self@.in_bounds(),
    {
        proof {
            use_type_invariant(self);
        }
        self.target_bitrate
    }

    /// The requested frames per second.
    pub fn target_fps(&self) -> (fps: u32)
        ensures
            fps == self@.target_fps,
            self@.in_bounds(),
    {
        proof {
            use_type_invariant(self);
        }
        self.target_fps
    }

    /// Whether a keyframe was asked for and not produced yet.
    pub fn keyframe_requested(&self) -> (requested: bool)
        ensures
            requested == self@.keyframe_requested,
    {
        self.keyframe_requested
    }

    /// Whether a keyframe is awaited.
    pub fn recovery_pending(&self) -> (pending: bool)
        ensures
            pending == self@.recovery_pending,
    {
        self.recovery_pending
    }

    /// Whether the stream has to end.
    pub fn is_shut_down(&self) -> (shutdown: bool)
        ensures
            shutdown == self@.shutdown,
    {
        self.shutdown
    }

    /// Ends the stream.
    pub fn shut_down(&mut self)
        ensures
            final(self)@ == (ControlView { shutdown: true, ..old(self)@ }),
            final(self)@ == old(self)@.ended(),
    {
        proof {
            use_type_invariant(&*self);
        }
        self.shutdown = true;
    }

    /// Whether capture waits for the acknowledgement of a keyframe.
    pub fn is_paused(&self, hybrid_video: bool) -> (paused: bool)
        ensures
            paused == self@.paused(hybrid_video),
    {
        hybrid_video && self.recovery_pending && !self.keyframe_requested
    }

    /// Asks for rates; what a peer asks for is moved into the bounds of the profile.
    pub fn update_rate(&mut self, bitrate: u32, frames_per_second: u16)
        ensures
            final(self)@ == old(self)@.with_rate(bitrate, frames_per_second),
            final(self)@.in_bounds(),
    {
        proof {
            use_type_invariant(&*self);
        }
        let highest: u32 = if self.profile.max_bitrate < NETWORK_MAX_BITRATE {
            self.profile.max_bitrate
        } else {
            NETWORK_MAX_BITRATE
        };
        let fastest: u32 = if self.profile.max_fps < NETWORK_MAX_FPS {
            self.profile.max_fps
        } else {
            NETWORK_MAX_FPS
        };
        self.target_bitrate = clamped(bitrate, self.profile.min_bitrate, highest);
        self.target_fps = clamped(frames_per_second as u32, self.profile.min_fps, fastest);
    }

    /// Moves the rates one step down and returns them.
    pub fn reduce_rate(&mut self) -> (rates: (u32, u16))
        ensures
            rates == old(self)@.lower_rate(),
            final(self)@ == old(self)@.with_rate(rates.0, rates.1),
            final(self)@.target_bitrate == rates.0,
            final(self)@.target_fps == rates.1,
    {
        proof {
            use_type_invariant(&*self);
            law_reduction_stays_in_bounds(
                self.profile,
                self.target_bitrate,
                self.target_fps as u16,
            );
        }
        let rates = reduce_stream_rate(
            self.target_bitrate,
            self.target_fps as u16,
            self.profile.min_bitrate,
            self.profile.min_fps,
        );
        self.update_rate(rates.0, rates.1);
        rates
    }

    /// Asks for a keyframe, unless one is awaited already.
    pub fn request_keyframe(&mut self) -> (accepted: bool)
        ensures
            accepted == !old(self)@.recovery_pending,
            final(self)@ == old(self)@.with_request(),
    {
        proof {
            use_type_invariant(&*self);
        }
        if self.recovery_pending {
            return false;
        }
        self.recovery_pending = true;
        self.keyframe_requested = true;
        true
    }

    /// Asks for a keyframe at lower rates. Nothing is asked for if a keyframe is awaited, and none
    /// if the rates are at their floor: repeating the request there would repeat the same frame.
    pub fn request_lower_rate_keyframe(&mut self) -> (rates: Option<(u32, u16)>)
        ensures
            final(self)@ == old(self)@.with_lower_request(),
            rates == (if old(self)@.recovery_pending || old(self)@.at_floor() {
                None::<(u32, u16)>
            } else {
                Some(old(self)@.lower_rate())
            }),
            rates == old(self)@.lower_rates(),
    {
        proof {
            use_type_invariant(&*self);
            law_reduction_stays_in_bounds(
                self.profile,
                self.target_bitrate,
                self.target_fps as u16,
            );
        }
        if self.recovery_pending {
            return None;
        }
        let previous_bitrate: u32 = self.target_bitrate;
        let previous_fps: u32 = self.target_fps;
        let rates = self.reduce_rate();
        proof {
            use_type_invariant(&*self);
        }
        if rates.0 == previous_bitrate && rates.1 as u32 == previous_fps {
            return None;
        }
        self.recovery_pending = true;
        self.keyframe_requested = true;
        Some(rates)
    }

    /// The viewer has decoded the awaited keyframe.
    pub fn acknowledge_keyframe(&mut self)
        ensures
            final(self)@ == (ControlView { recovery_pending: false, ..old(self)@ }),
            final(self)@ == old(self)@.acknowledged(),
    {
        proof {
            use_type_invariant(&*self);
        }
        self.recovery_pending = false;
    }

    /// A keyframe is on its way: nothing else counts until the viewer acknowledges it.
    pub fn await_keyframe(&mut self)
        ensures
            final(self)@ == (ControlView { recovery_pending: true, ..old(self)@ }),
            final(self)@ == old(self)@.awaiting(),
    {
        proof {
            use_type_invariant(&*self);
        }
        self.recovery_pending = true;
    }

    /// Takes note that the requested keyframe is being produced; tells whether one was requested.
    pub fn take_keyframe_request(&mut self) -> (requested: bool)
        ensures
            requested == old(self)@.keyframe_requested,
            final(self)@ == (ControlView { keyframe_requested: false, ..old(self)@ }),
            final(self)@ == old(self)@.taken(),
    {
        proof {
            use_type_invariant(&*self);
        }
        let requested = self.keyframe_requested;
        self.keyframe_requested = false;
        requested
    }
}

/// After a keyframe was asked for, further requests change nothing until the viewer acknowledges
/// one, and then a request counts again.
pub proof fn law_requests_are_merged(control: ControlView)
    ensures
        control.with_request().with_request() == control.with_request(),
        control.with_request().with_lower_request() == control.with_request(),
        ({
            let acknowledged = ControlView { recovery_pending: false, ..control.with_request() };
            acknowledged.with_request().keyframe_requested
        }),
{
}

/// Whatever a peer asks for, the requested rates stay inside the bounds of the profile.
pub proof fn law_requested_rates_stay_in_bounds(control: ControlView, bitrate: u32, fps: u16)
    requires
        control.in_bounds(),
    ensures
        control.with_rate(bitrate, fps).in_bounds(),
        control.with_lower_request().in_bounds(),
{
}

/// At the floor of the rates an oversized frame starts no recovery.
pub proof fn law_floor_starts_no_recovery(control: ControlView)
    requires
        control.in_bounds(),
        control.target_bitrate == control.profile.min_bitrate,
        control.target_fps == control.profile.min_fps,
    ensures
        control.with_lower_request() == control,
{
}

/// The rates that a viewer asks for are taken as they are between the profile's floor and the lower
/// of the profile's and the network's limit, and cut to those outside. Nothing else changes.
pub proof fn law_asked_rates_are_taken(control: ControlView, bitrate: u32, fps: u16)
    requires
        control.in_bounds(),
    ensures
        ({
            let after = control.with_rate(bitrate, fps);
            let profile = control.profile;
            &&& profile.min_bitrate <= after.target_bitrate <= profile.max_bitrate
            &&& after.target_bitrate <= 4_000_000
            &&& profile.min_bitrate <= bitrate <= profile.max_bitrate && bitrate <= 4_000_000
                ==> after.target_bitrate == bitrate
            &&& bitrate < profile.min_bitrate ==> after.target_bitrate == profile.min_bitrate
            &&& bitrate > profile.max_bitrate || bitrate > 4_000_000 ==> after.target_bitrate
                == profile.max_bitrate || after.target_bitrate == 4_000_000
            &&& profile.min_fps <= after.target_fps <= profile.max_fps
            &&& after.target_fps <= 30
            &&& profile.min_fps <= fps <= profile.max_fps && fps <= 30 ==> after.target_fps == fps
            &&& fps < profile.min_fps ==> after.target_fps == profile.min_fps
            &&& fps > profile.max_fps || fps > 30 ==> after.target_fps == profile.max_fps
                || after.target_fps == 30
            &&& after.keyframe_requested == control.keyframe_requested
            &&& after.recovery_pending == control.recovery_pending
            &&& after.shutdown == control.shutdown
            &&& after.profile == control.profile
        }),
{
}

/// A request for a keyframe stands until a keyframe is shown: while one is awaited no other begins,
/// and otherwise it is noted at once. The rates and the end of the stream are left alone.
pub proof fn law_request_is_noted_once(control: ControlView)
    ensures
        control.recovery_pending ==> control.with_request() == control,
        !control.recovery_pending ==> control.with_request().keyframe_requested
            && control.with_request().recovery_pending,
        control.with_request().target_bitrate == control.target_bitrate,
        control.with_request().target_fps == control.target_fps,
        control.with_request().shutdown == control.shutdown,
{
}

/// A request for a keyframe at lower rates lowers both rates by a third, down to the floor. At the
/// floor, and while a keyframe is awaited, it changes nothing.
pub proof fn law_lower_request_lowers_by_a_third(control: ControlView)
    requires
        control.in_bounds(),
    ensures
        ({
            let after = control.with_lower_request();
            let floor = control.target_bitrate == control.profile.min_bitrate && control.target_fps
                == control.profile.min_fps;
            &&& control.recovery_pending || floor ==> after == control
            &&& !control.recovery_pending && !floor ==> {
                &&& after.keyframe_requested
                &&& after.recovery_pending
                &&& after.target_bitrate < control.target_bitrate || after.target_fps
                    < control.target_fps
                &&& after.target_bitrate == control.profile.min_bitrate || 3 * after.target_bitrate
                    <= 2 * control.target_bitrate < 3 * after.target_bitrate + 3
                &&& after.target_fps == control.profile.min_fps || 3 * after.target_fps <= 2
                    * control.target_fps < 3 * after.target_fps + 3
                &&& 2 * control.target_bitrate < 3 * after.target_bitrate + 3
                &&& 2 * control.target_fps < 3 * after.target_fps + 3
                &&& after.shutdown == control.shutdown
            }
            &&& control.lower_rate().0 >= control.profile.min_bitrate
            &&& 2 * control.target_bitrate < 3 * control.lower_rate().0 + 3
        }),
{
}

/// The stream stands still only between a keyframe that was sent and the word that it was shown, and
/// only towards a viewer that gives that word.
pub proof fn law_stream_waits_for_its_keyframe(control: ControlView)
    ensures
        !control.paused(false),
        control.paused(true) <==> control.recovery_pending && !control.keyframe_requested,
{
}

/// A stream begins at the first rates of its profile, with nothing asked for.
pub proof fn law_stream_begins_unasked(profile: RateProfile)
    ensures
        ControlView::initial(profile) == (ControlView {
            profile,
            keyframe_requested: false,
            recovery_pending: false,
            shutdown: false,
            target_bitrate: profile.initial_bitrate,
            target_fps: profile.initial_fps,
        }),
{
}

/// A keyframe goes its way: it is asked for, the encoder is told once, the stream waits for the word
/// that it was shown, and only then can another be asked for. The end of a stream is for good.
pub proof fn law_keyframe_goes_its_way(control: ControlView)
    ensures
        ({
            let asked = control.acknowledged().with_request();
            let told = asked.taken();
            let shown = told.acknowledged();
            &&& asked.keyframe_requested && asked.recovery_pending
            &&& !told.keyframe_requested && told.recovery_pending
            &&& told.with_request() == told
            &&& !shown.recovery_pending && !shown.keyframe_requested
            &&& shown.with_request().keyframe_requested
            &&& shown.target_bitrate == control.target_bitrate
            &&& shown.target_fps == control.target_fps
        }),
        control.awaiting().recovery_pending,
        control.awaiting().keyframe_requested == control.keyframe_requested,
        control.acknowledged().keyframe_requested == control.keyframe_requested,
        control.ended().shutdown,
        control.ended().with_request().shutdown,
        control.ended().acknowledged().shutdown,
        control.ended().taken().shutdown,
        control.ended().target_bitrate == control.target_bitrate,
        control.lower_rates() is None ==> control.with_lower_request() == control,
        control.lower_rates() is Some ==> !control.recovery_pending && control.lower_rates()
            == Some(control.lower_rate()),
{
}

} // verus!
