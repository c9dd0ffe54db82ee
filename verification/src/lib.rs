//! Resolution and validation of the parameters of a speech synthesis request.
//!
//! A request to the speech service is made of three things: who is calling
//! and where (`AuthOptions`), the audio format (`AudioFormat`), and what is
//! to be spoken and how (`TextOptions`). Each is resolved from the arguments
//! of the command line, a profile and built-in defaults, in that order of
//! precedence, by a function of the argument group that it belongs to. The
//! grammars of the single values are in `prosody` and `header`.

pub mod args;
pub mod audio;
pub mod chars;
pub mod config;
pub mod decimal;
pub mod endpoint;
pub mod error;
pub mod header;
pub mod literal;
pub mod options;
pub mod prosody;
pub mod voice;

pub use crate::args::{AuthArgs, OutputArgs, ProfileArgs, ProfileChoice, TextArgs};
pub use crate::audio::{lookup_quality, quality_range, AudioFormat, ContainerFormat};
pub use crate::config::{AuthConfig, Config, OutputFormatConfig};
pub use crate::endpoint::{
    get_rest_endpoint_by_region, get_websocket_endpoint_by_region, DEFAULT_ENDPOINT,
};
pub use crate::error::{ArgsError, AspeakError, Flag};
pub use crate::header::{parse_header, Header};
pub use crate::literal::is_float;
pub use crate::options::{AuthOptions, TextOptions};
pub use crate::prosody::{parse_pitch, parse_rate, parse_style_degree, Prosody, StyleDegree};
pub use crate::voice::{get_default_voice_by_locale, DEFAULT_VOICES};
