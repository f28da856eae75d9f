//! When a hardware codec gives way to the software one.
use crate::error::{DcError, DcErrorView};
use crate::text::joined;
use vstd::prelude::*;

verus! {

/// How a viewer treats a hardware decoder that fails.
#[derive(Clone, Copy, Debug, Eq, PartialEq, Structural)]
pub enum FallbackPolicy {
    /// The decoder is opened with the first packet and given up with its first failure.
    Once,
    /// Frames between keyframes may fail after a loss: the decoder is given up only where a
    /// keyframe failed that the software decoder could show.
    AtKeyframes,
}

/// What to do after the hardware decoder failed.
#[derive(Clone, Copy, Debug, Eq, PartialEq, Structural)]
pub enum FallbackStep {
    /// The failure is the result.
    ReturnFailure,
    /// Give the packet to the software decoder.
    TrySoftware,
}

/// Which decoder a viewer uses.
pub struct ViewerDecoder {
    pub policy: FallbackPolicy,
    pub hardware: bool,
    pub attempted: bool,
}

impl ViewerDecoder {
    /// The decoder after a packet came, and whether the hardware is now opened.
    pub open spec fn opening(self) -> (ViewerDecoder, bool) {
        let opens = !self.hardware && !self.attempted;
        (ViewerDecoder { attempted: self.attempted || opens, ..self }, opens)
    }

    /// The decoder after the hardware failed, and what is done about it.
    pub open spec fn failing(self, keyframe: bool) -> (ViewerDecoder, FallbackStep) {
        (
            ViewerDecoder {
                hardware: self.hardware && self.policy == FallbackPolicy::AtKeyframes,
                ..self
            },
            if self.policy == FallbackPolicy::AtKeyframes && !keyframe {
                FallbackStep::ReturnFailure
            } else {
                FallbackStep::TrySoftware
            },
        )
    }

    /// A viewer that opens its hardware decoder with the first packet.
    pub fn lazy() -> (decoder: ViewerDecoder)
        ensures
            decoder == (ViewerDecoder {
                policy: FallbackPolicy::Once,
                hardware: false,
                attempted: false,
            }),
    {
        ViewerDecoder { policy: FallbackPolicy::Once, hardware: false, attempted: false }
    }

    /// A viewer whose hardware decoder is open.
    pub fn opened() -> (decoder: ViewerDecoder)
        ensures
            decoder == (ViewerDecoder {
                policy: FallbackPolicy::AtKeyframes,
                hardware: true,
                attempted: true,
            }),
    {
        ViewerDecoder { policy: FallbackPolicy::AtKeyframes, hardware: true, attempted: true }
    }

    /// Whether to open the hardware decoder now; that is tried once.
    pub fn opens_hardware(&mut self) -> (opens: bool)
        ensures
            opens == (!old(self).hardware && !old(self).attempted),
            *final(self) == (ViewerDecoder {
                attempted: old(self).attempted || opens,
                ..*old(self)
            }),
            *final(self) == old(self).opening().0,
            opens == old(self).opening().1,
    {
        let opens = !self.hardware && !self.attempted;
        if opens {
            self.attempted = true;
        }
        opens
    }

    /// Records that the hardware decoder is open.
    pub fn hardware_opened(&mut self)
        ensures
            *final(self) == (ViewerDecoder { hardware: true, ..*old(self) }),
    {
        self.hardware = true;
    }

    /// What to do after the hardware decoder failed on a packet.
    pub fn on_hardware_failure(&mut self, keyframe: bool) -> (step: FallbackStep)
        ensures
            step == (if old(self).policy == FallbackPolicy::AtKeyframes && !keyframe {
                FallbackStep::ReturnFailure
            } else {
                FallbackStep::TrySoftware
            }),
            *final(self) == (ViewerDecoder {
                hardware: old(self).hardware && old(self).policy == FallbackPolicy::AtKeyframes,
                ..*old(self)
            }),
            *final(self) == old(self).failing(keyframe).0,
            step == old(self).failing(keyframe).1,
    {
        if self.policy == FallbackPolicy::AtKeyframes {
            if keyframe {
                FallbackStep::TrySoftware
            } else {
                FallbackStep::ReturnFailure
            }
        } else {
            self.hardware = false;
            FallbackStep::TrySoftware
        }
    }

    /// The decoder after the software showed what the hardware could not.
    pub open spec fn replaced(self) -> ViewerDecoder {
        ViewerDecoder { hardware: false, ..self }
    }

    /// Records that the software decoder showed a packet on which the hardware decoder had failed.
    pub fn on_software_success(&mut self)
        ensures
            *final(self) == (ViewerDecoder { hardware: false, ..*old(self) }),
            *final(self) == old(self).replaced(),
    {
        self.hardware = false;
    }

    /// The failure of a packet that neither decoder could show.
    pub open spec fn both_failed(self, hardware: DcErrorView, software: DcErrorView) -> DcErrorView {
        if self.policy == FallbackPolicy::AtKeyframes {
            DcErrorView::Codec(
                "VideoToolbox decode failed: "@ + hardware.description()
                    + "; OpenH264 fallback failed: "@ + software.description(),
            )
        } else {
            software
        }
    }

    /// The failure of a packet that neither decoder could show.
    pub fn on_software_failure(&self, hardware: &DcError, software: DcError) -> (error: DcError)
        ensures
            error@ == (if self.policy == FallbackPolicy::AtKeyframes {
                DcErrorView::Codec(
                    "VideoToolbox decode failed: "@ + hardware@.description()
                        + "; OpenH264 fallback failed: "@ + software@.description(),
                )
            } else {
                software@
            }),
            error@ == self.both_failed(hardware@, software@),
    {
        if self.policy == FallbackPolicy::AtKeyframes {
            let first = hardware.description();
            let second = software.description();
            let message = joined("VideoToolbox decode failed: ", first.as_str());
            let message = joined(message.as_str(), "; OpenH264 fallback failed: ");
            DcError::Codec(joined(message.as_str(), second.as_str()))
        } else {
            software
        }
    }
}

/// The least quantizer of an encoder that stands in for another.
pub open spec fn minimum_quantizer(bitrate: u32) -> u8 {
    if bitrate <= 64_000 {
        42
    } else {
        36
    }
}

/// The strongest quality that the software encoder may choose where it stands in for another one:
/// low rates allow less.
pub fn fallback_minimum_qp(bitrate: u32) -> (minimum: u8)
    ensures
        minimum == (if bitrate <= 64_000 {
            42u8
        } else {
            36u8
        }),
        minimum == minimum_quantizer(bitrate),
{
    if bitrate <= 64_000 {
        42
    } else {
        36
    }
}

/// An encoder of a host.
#[derive(Clone, Copy, Debug, Eq, PartialEq, Structural)]
pub enum HostBackend {
    /// The transform of the operating system, in hardware or not.
    Transform,
    /// The native libx264.
    X264,
    /// OpenH264.
    Software,
}

/// Which encoder a host uses, and whether it stands in for another one.
#[derive(Clone, Copy, Debug, Eq, PartialEq, Structural)]
pub struct HostFallback {
    pub backend: HostBackend,
    pub stands_in: bool,
}

impl HostFallback {
    /// The least quantization that the software encoder is held to.
    pub open spec fn quantizer(self, bitrate: u32) -> u8 {
        if self.stands_in {
            minimum_quantizer(bitrate)
        } else {
            0
        }
    }

    /// What a host begins with.
    pub open spec fn first(use_x264: bool, has_transform: bool) -> HostFallback {
        HostFallback {
            backend: if use_x264 {
                HostBackend::X264
            } else if has_transform {
                HostBackend::Transform
            } else {
                HostBackend::Software
            },
            stands_in: false,
        }
    }

    /// What a host goes on with after its encoder failed, and what is done about the frame.
    pub open spec fn failing(self) -> (HostFallback, FallbackStep) {
        if self.backend == HostBackend::Transform {
            (
                HostFallback { backend: HostBackend::Software, stands_in: true },
                FallbackStep::TrySoftware,
            )
        } else {
            (self, FallbackStep::ReturnFailure)
        }
    }

    /// The encoder to open: libx264 where it was asked for, else the transform of the operating
    /// system where there is one.
    pub fn new(use_x264: bool, has_transform: bool) -> (choice: HostFallback)
        ensures
            choice == (HostFallback {
                backend: if use_x264 {
                    HostBackend::X264
                } else if has_transform {
                    HostBackend::Transform
                } else {
                    HostBackend::Software
                },
                stands_in: false,
            }),
            choice == HostFallback::first(use_x264, has_transform),
    {
        let backend = if use_x264 {
            HostBackend::X264
        } else if has_transform {
            HostBackend::Transform
        } else {
            HostBackend::Software
        };
        HostFallback { backend, stands_in: false }
    }

    /// What to do after the encoder could not be opened, or failed on a frame: OpenH264 takes the
    /// place of a transform, and any other failure is the result.
    pub fn on_failure(&mut self) -> (step: FallbackStep)
        ensures
            if old(self).backend == HostBackend::Transform {
                &&& step == FallbackStep::TrySoftware
                &&& *final(self) == (HostFallback {
                    backend: HostBackend::Software,
                    stands_in: true,
                })
            } else {
                &&& step == FallbackStep::ReturnFailure
                &&& *final(self) == *old(self)
            },
            *final(self) == old(self).failing().0,
            step == old(self).failing().1,
    {
        if self.backend == HostBackend::Transform {
            self.backend = HostBackend::Software;
            self.stands_in = true;
            FallbackStep::TrySoftware
        } else {
            FallbackStep::ReturnFailure
        }
    }

    /// The strongest quality that OpenH264 may choose. It is limited only where it stands in.
    pub fn minimum_qp(&self, bitrate: u32) -> (minimum: u8)
        ensures
            minimum == (if !self.stands_in {
                0u8
            } else if bitrate <= 64_000 {
                42u8
            } else {
                36u8
            }),
            minimum == self.quantizer(bitrate),
    {
        if self.stands_in {
            fallback_minimum_qp(bitrate)
        } else {
            0
        }
    }
}

/// The hardware is tried once, at the first packet that finds it closed. Where it fails, the software
/// takes over: for good where it is tried once, and from the next keyframe on where it is kept.
pub proof fn law_hardware_is_tried_once(decoder: ViewerDecoder, keyframe: bool)
    ensures
        ({
            let (after, opens) = decoder.opening();
            &&& opens <==> !decoder.hardware && !decoder.attempted
            &&& after.attempted == (decoder.attempted || opens)
            &&& after.hardware == decoder.hardware
            &&& after.policy == decoder.policy
            &&& !after.opening().1
        }),
        ({
            let (after, step) = decoder.failing(keyframe);
            &&& step is ReturnFailure <==> decoder.policy is AtKeyframes && !keyframe
            &&& decoder.policy is Once ==> !after.hardware && step is TrySoftware
            &&& decoder.policy is AtKeyframes ==> after.hardware == decoder.hardware
            &&& after.attempted == decoder.attempted
            &&& after.policy == decoder.policy
        }),
{
}

/// A host that was told to takes x264, else the system's encoder where there is one, else the
/// software. Only the system's encoder is replaced when it fails, by the software, which then stands
/// in for it with a coarser quantizer, coarsest at the lowest rates.
pub proof fn law_host_falls_back_to_software(
    use_x264: bool,
    has_transform: bool,
    host: HostFallback,
    bitrate: u32,
)
    ensures
        HostFallback::first(true, has_transform).backend is X264,
        HostFallback::first(false, true).backend is Transform,
        HostFallback::first(false, false).backend is Software,
        !HostFallback::first(use_x264, has_transform).stands_in,
        host.backend is Transform ==> host.failing().0.backend is Software
            && host.failing().0.stands_in && host.failing().1 is TrySoftware,
        !(host.backend is Transform) ==> host.failing().0 == host && host.failing().1
            is ReturnFailure,
        minimum_quantizer(bitrate) == 42 <==> bitrate <= 64_000,
        minimum_quantizer(bitrate) == 42 || minimum_quantizer(bitrate) == 36,
{
}

/// Software that stands in for hardware is held to a strong quantization, and no other encoder is.
/// Where both decoders failed the failure tells of the software's at least; once the software has
/// shown what the hardware could not, the hardware is given up for good.
pub proof fn law_software_stands_in(
    host: HostFallback,
    decoder: ViewerDecoder,
    bitrate: u32,
    hardware: DcErrorView,
    software: DcErrorView,
)
    ensures
        host.quantizer(bitrate) == 0 <==> !host.stands_in,
        host.stands_in ==> (host.quantizer(bitrate) == 42 <==> bitrate <= 64_000),
        host.stands_in && bitrate > 64_000 ==> host.quantizer(bitrate) == 36,
        decoder.policy != FallbackPolicy::AtKeyframes ==> decoder.both_failed(hardware, software)
            == software,
        decoder.policy == FallbackPolicy::AtKeyframes ==> decoder.both_failed(hardware, software)
            == DcErrorView::Codec(
            "VideoToolbox decode failed: "@ + hardware.description()
                + "; OpenH264 fallback failed: "@ + software.description(),
        ),
        !decoder.replaced().hardware,
        decoder.replaced().attempted == decoder.attempted,
        decoder.replaced().policy == decoder.policy,
        decoder.attempted ==> !decoder.replaced().opening().1,
{
}

} // verus!
