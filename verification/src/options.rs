//! What a request is made with, once every source has been heard.

use vstd::prelude::*;
use crate::chars::opt_text;
use crate::header::Header;
use crate::prosody::StyleDegree;

verus! {

/// The headers that a vector holds, in order.
pub open spec fn headers_of(v: Seq<Header>) -> Seq<(Seq<char>, Seq<char>)> {
    Seq::new(v.len(), |i: int| v[i]@)
}

/// Who is calling, and where.
#[derive(Debug)]
pub struct AuthOptions {
    /// The address of the service.
    pub endpoint: String,
    /// A token that stands for the caller.
    pub token: Option<String>,
    /// The key of the caller's subscription.
    pub key: Option<String>,
    /// Headers to send along, in the order in which they are to be sent.
    pub headers: Vec<Header>,
}

/// What an `AuthOptions` holds.
pub struct AuthOptionsView {
    pub endpoint: Seq<char>,
    pub token: Option<Seq<char>>,
    pub key: Option<Seq<char>>,
    pub headers: Seq<(Seq<char>, Seq<char>)>,
}

impl View for AuthOptions {
    type V = AuthOptionsView;

    open spec fn view(&self) -> AuthOptionsView {
        AuthOptionsView {
            endpoint: self.endpoint@,
            token: opt_text(self.token),
            key: opt_text(self.key),
            headers: headers_of(self.headers@),
        }
    }
}

/// The style degree that an optional style degree holds.
pub open spec fn opt_degree(d: Option<StyleDegree>) -> Option<Seq<char>> {
    match d {
        Some(degree) => Some(degree@),
        None => None,
    }
}

/// What is to be spoken, and how.
#[derive(Debug)]
pub struct TextOptions {
    /// The text; never empty.
    pub text: String,
    /// The voice that speaks it.
    pub voice: String,
    /// The pitch, in a form that the service takes.
    pub pitch: Option<String>,
    /// The rate, in a form that the service takes.
    pub rate: Option<String>,
    /// The speaking style.
    pub style: Option<String>,
    /// The role that the voice plays.
    pub role: Option<String>,
    /// How strongly the style is applied.
    pub style_degree: Option<StyleDegree>,
}

/// What a `TextOptions` holds.
pub struct TextOptionsView {
    pub text: Seq<char>,
    pub voice: Seq<char>,
    pub pitch: Option<Seq<char>>,
    pub rate: Option<Seq<char>>,
    pub style: Option<Seq<char>>,
    pub role: Option<Seq<char>>,
    pub style_degree: Option<Seq<char>>,
}

impl View for TextOptions {
    type V = TextOptionsView;

    open spec fn view(&self) -> TextOptionsView {
        TextOptionsView {
            text: self.text@,
            voice: self.voice@,
            pitch: opt_text(self.pitch),
            rate: opt_text(self.rate),
            style: opt_text(self.style),
            role: opt_text(self.role),
            style_degree: opt_degree(self.style_degree),
        }
    }
}

} // verus!
