//! The remote desktop stream: rate profiles, the two ends of the stream and their command line.
pub mod arguments;
pub mod control;
pub mod dispatch;
pub mod frames;
pub mod host;
pub mod host_laws;
pub mod lanes;
pub mod laws;
pub mod profile;
pub mod viewer;
pub mod viewer_laws;

pub use arguments::{parse_arguments, Command, Invocation};
pub use control::StreamControl;
pub use dispatch::{dispatch, receive_host_input, ControlAction, SendAction};
pub use frames::{
    cursor_to_message, is_effectively_zero_frame, prepare_network_frame, video_sequence,
};
pub use host::{
    slice_budget, EncodedFrame, EncoderAction, FrameAction, FrameProducer, MediaFeatures,
    StartupCapture, TimeoutAction,
};
pub use lanes::{accept_reliable, plan_input, DatagramLanes, LaneOutcome, OutgoingInput};
pub use profile::{increase_stream_rate, reduce_stream_rate, RateProfile};
pub use viewer::{check_datagram_support, check_view_permission, ViewerAction, ViewerStream};
