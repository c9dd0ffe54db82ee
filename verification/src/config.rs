//! What a profile holds: settings that stand in where the command line says
//! nothing.

use vstd::prelude::*;
use crate::audio::{AudioFormat, ContainerFormat};

verus! {

/// How a profile says who is calling and where. The headers stand as they
/// were written: nothing has looked at them yet.
#[derive(Debug)]
pub struct AuthConfig {
    pub endpoint: Option<String>,
    pub key: Option<String>,
    pub token: Option<String>,
    pub headers: Option<Vec<(String, String)>>,
}

/// How a profile names the audio format: outright, or by container and
/// quality.
#[derive(Clone, Copy, Debug, PartialEq, Eq, Structural)]
pub enum OutputFormatConfig {
    AudioFormat { format: AudioFormat },
    ContainerAndQuality { container: Option<ContainerFormat>, quality: Option<i32> },
}

/// A profile.
#[derive(Debug)]
pub struct Config {
    pub auth: Option<AuthConfig>,
    pub output: Option<OutputFormatConfig>,
}

} // verus!
