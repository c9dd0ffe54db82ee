//! The arguments of the command line, and how they, a profile and the
//! built-in defaults come to one set of options.
//!
//! What the command line says comes first, what the profile says second,
//! and a default last. Options that exclude each other are found by the
//! `check_conflicts` functions; what is resolved here does not depend on
//! their having been called.

use vstd::prelude::*;
use crate::audio::{
    lookup_quality, quality_bounds, quality_format, AudioFormat, ContainerFormat,
};
use crate::chars::{clone_opt, opt_text};
use crate::config::{AuthConfig, OutputFormatConfig};
use crate::endpoint::{get_websocket_endpoint_by_region, websocket_endpoint, DEFAULT_ENDPOINT};
use crate::error::{ArgsError, AspeakError, Flag};
use crate::header::{header_of, names_bad_header, Header};
use crate::options::{
    headers_of, opt_degree, AuthOptions, AuthOptionsView, TextOptions,
};
use crate::prosody::StyleDegree;
use crate::voice::{default_voice, get_default_voice_by_locale, lemma_en_us};
use vstd::string::StringExecFns;

verus! {

/// The first of two optional values that is there.
pub open spec fn first_of<T>(first: Option<T>, second: Option<T>) -> Option<T> {
    if first is Some {
        first
    } else {
        second
    }
}

/// The address to call: the one given; else that of the region given; else
/// the one of the profile; else the default.
pub open spec fn resolved_endpoint(
    endpoint: Option<Seq<char>>,
    region: Option<Seq<char>>,
    profile: Option<Seq<char>>,
) -> Seq<char> {
    match (endpoint, region, profile) {
        (Some(given), _, _) => given,
        (None, Some(region), _) => websocket_endpoint(region),
        (None, None, Some(stored)) => stored,
        (None, None, None) => DEFAULT_ENDPOINT@,
    }
}

/// The name and the value of each pair.
pub open spec fn pairs_of(v: Seq<(String, String)>) -> Seq<(Seq<char>, Seq<char>)> {
    Seq::new(v.len(), |i: int| (v[i].0@, v[i].1@))
}

/// The index of the first pair at or after `from` that makes no header; the
/// number of pairs if each of them makes one.
pub open spec fn first_bad_pair(pairs: Seq<(Seq<char>, Seq<char>)>, from: int) -> int
    decreases pairs.len() - from,
{
    if 0 <= from < pairs.len() && header_of(pairs[from].0, pairs[from].1) is Some {
        first_bad_pair(pairs, from + 1)
    } else {
        from
    }
}

/// The first pair that makes no header is found among the pairs from `from`
/// on, or is the number of pairs; every pair between makes a header.
pub proof fn lemma_first_bad_pair(pairs: Seq<(Seq<char>, Seq<char>)>, from: int)
    requires
        0 <= from <= pairs.len(),
    ensures
        from <= first_bad_pair(pairs, from) <= pairs.len(),
        forall|i: int|
            from <= i < first_bad_pair(pairs, from) ==> header_of(
                (#[trigger] pairs[i]).0,
                pairs[i].1,
            ) is Some,
        first_bad_pair(pairs, from) < pairs.len() ==> header_of(
            pairs[first_bad_pair(pairs, from)].0,
            pairs[first_bad_pair(pairs, from)].1,
        ) is None,
    decreases pairs.len() - from,
{
    if from < pairs.len() && header_of(pairs[from].0, pairs[from].1) is Some {
        lemma_first_bad_pair(pairs, from + 1);
    }
}

/// The headers that the pairs make, where each of them makes one.
pub open spec fn headers_from_pairs(pairs: Seq<(Seq<char>, Seq<char>)>) -> Seq<
    (Seq<char>, Seq<char>),
> {
    Seq::new(pairs.len(), |i: int| header_of(pairs[i].0, pairs[i].1).unwrap())
}

/// The headers that a profile holds, as they were written; none where there
/// is no profile or it holds no headers.
pub open spec fn profile_pairs(config: Option<&AuthConfig>) -> Seq<(Seq<char>, Seq<char>)> {
    match config {
        Some(config) => match config.headers {
            Some(pairs) => pairs_of(pairs@),
            None => Seq::empty(),
        },
        None => Seq::empty(),
    }
}

/// The address that a profile holds, if there is a profile and it holds one.
pub open spec fn profile_endpoint(config: Option<&AuthConfig>) -> Option<Seq<char>> {
    match config {
        Some(config) => opt_text(config.endpoint),
        None => None,
    }
}

/// The token that a profile holds, if there is a profile and it holds one.
pub open spec fn profile_token(config: Option<&AuthConfig>) -> Option<Seq<char>> {
    match config {
        Some(config) => opt_text(config.token),
        None => None,
    }
}

/// The key that a profile holds, if there is a profile and it holds one.
pub open spec fn profile_key(config: Option<&AuthConfig>) -> Option<Seq<char>> {
    match config {
        Some(config) => opt_text(config.key),
        None => None,
    }
}

/// What is wrong with an endpoint and a region, when both are given.
pub open spec fn auth_conflict(endpoint: bool, region: bool) -> Result<(), ArgsError> {
    if endpoint && region {
        Err(ArgsError::Conflict { first: Flag::Region, second: Flag::Endpoint })
    } else {
        Ok(())
    }
}

/// Who is calling and where, as the command line says it.
#[derive(Debug)]
pub struct AuthArgs {
    /// Endpoint of the service.
    pub endpoint: Option<String>,
    /// A region of the official service, in place of a full endpoint.
    pub region: Option<String>,
    /// Auth token for the speech service.
    pub token: Option<String>,
    /// Speech resource key.
    pub key: Option<String>,
    /// Additional request headers.
    pub headers: Vec<Header>,
}

/// A copy of the headers, in order.
fn clone_headers(headers: &Vec<Header>) -> (r: Vec<Header>)
    ensures
        headers_of(r@) == headers_of(headers@),
{
    let mut copy: Vec<Header> = Vec::new();
    let mut i: usize = 0;
    while i < headers.len()
        invariant
            i <= headers@.len(),
            copy@.len() == i,
            forall|k: int| 0 <= k < i ==> copy@[k]@ == headers@[k]@,
        decreases headers@.len() - i,
    {
        copy.push(headers[i].clone());
        i = i + 1;
    }
    assert(headers_of(copy@) =~= headers_of(headers@));
    copy
}

/// Makes a header of each pair, up to the first that makes none.
fn headers_from_config(pairs: &Vec<(String, String)>) -> (r: Result<Vec<Header>, ArgsError>)
    ensures
        match r {
            Ok(headers) => first_bad_pair(pairs_of(pairs@), 0) == pairs@.len() && headers_of(
                headers@,
            ) == headers_from_pairs(pairs_of(pairs@)),
            Err(error) => {
                let all = pairs_of(pairs@);
                let at = first_bad_pair(all, 0);
                0 <= at < all.len() && names_bad_header(error, all[at].0, all[at].1)
            },
        },
{
    let ghost all = pairs_of(pairs@);
    let mut headers: Vec<Header> = Vec::new();
    let mut i: usize = 0;
    while i < pairs.len()
        invariant
            i <= pairs@.len(),
            all == pairs_of(pairs@),
            first_bad_pair(all, 0) == first_bad_pair(all, i as int),
            headers@.len() == i,
            forall|k: int| 0 <= k < i ==> Some(headers@[k]@) == header_of(all[k].0, all[k].1),
        decreases pairs@.len() - i,
    {
        let pair = &pairs[i];
        match Header::new(pair.0.as_str(), pair.1.as_str()) {
            Ok(header) => {
                headers.push(header);
            },
            Err(error) => {
                assert(first_bad_pair(all, i as int) == i);
                return Err(error);
            },
        }
        i = i + 1;
    }
    assert(headers_of(headers@) =~= headers_from_pairs(all));
    Ok(headers)
}

impl AuthArgs {
    /// What the options come to, with `config` standing in where the
    /// arguments say nothing: see `resolved_endpoint` for the address; the
    /// token and the key are those given, else those of the profile; the
    /// headers are those of the profile followed by those given, none of
    /// them left out. It fails only where the profile holds a pair that
    /// makes no header, and names the first such pair.
    pub fn to_auth_options(&self, auth_config: Option<&AuthConfig>) -> (r: Result<
        AuthOptions,
        ArgsError,
    >)
        ensures
            match r {
                Ok(options) => {
                    &&& first_bad_pair(profile_pairs(auth_config), 0) == profile_pairs(
                        auth_config,
                    ).len()
                    &&& options@ == AuthOptionsView {
                        endpoint: resolved_endpoint(
                            opt_text(self.endpoint),
                            opt_text(self.region),
                            profile_endpoint(auth_config),
                        ),
                        token: first_of(opt_text(self.token), profile_token(auth_config)),
                        key: first_of(opt_text(self.key), profile_key(auth_config)),
                        headers: headers_from_pairs(profile_pairs(auth_config)) + headers_of(
                            self.headers@,
                        ),
                    }
                },
                Err(error) => {
                    let pairs = profile_pairs(auth_config);
                    let at = first_bad_pair(pairs, 0);
                    0 <= at < pairs.len() && names_bad_header(error, pairs[at].0, pairs[at].1)
                },
            },
    {
        let endpoint = match (&self.endpoint, &self.region, auth_config) {
            (Some(given), _, _) => given.clone(),
            (None, Some(region), _) => get_websocket_endpoint_by_region(region.as_str()),
            (None, None, Some(AuthConfig { endpoint: Some(stored), .. })) => stored.clone(),
            (None, None, _) => DEFAULT_ENDPOINT.to_owned(),
        };
        let token = match (&self.token, auth_config) {
            (Some(token), _) => Some(token.clone()),
            (None, Some(config)) => clone_opt(&config.token),
            (None, None) => None,
        };
        let key = match (&self.key, auth_config) {
            (Some(key), _) => Some(key.clone()),
            (None, Some(config)) => clone_opt(&config.key),
            (None, None) => None,
        };
        let headers = match auth_config {
            Some(AuthConfig { headers: Some(pairs), .. }) => {
                let mut headers = match headers_from_config(pairs) {
                    Ok(headers) => headers,
                    Err(error) => {
                        return Err(error);
                    },
                };
                let mut given = clone_headers(&self.headers);
                let ghost stored = headers_of(headers@);
                let ghost added = headers_of(given@);
                headers.append(&mut given);
                assert(headers_of(headers@) =~= stored + added);
                headers
            },
            _ => {
                let given = clone_headers(&self.headers);
                assert(Seq::<(Seq<char>, Seq<char>)>::empty() + headers_of(given@) =~= headers_of(
                    given@,
                ));
                assert(headers_from_pairs(Seq::empty()) =~= Seq::<(Seq<char>, Seq<char>)>::empty());
                given
            },
        };
        Ok(AuthOptions { endpoint, token, key, headers })
    }

    /// The options without a profile: what `to_auth_options` gives where
    /// there is none. This never fails.
    pub fn try_into_options(&self) -> (r: Result<AuthOptions, AspeakError>)
        ensures
            r matches Ok(options) && options@ == (AuthOptionsView {
                endpoint: resolved_endpoint(opt_text(self.endpoint), opt_text(self.region), None),
                token: opt_text(self.token),
                key: opt_text(self.key),
                headers: headers_of(self.headers@),
            }),
    {
        let endpoint = match (&self.endpoint, &self.region) {
            (Some(given), _) => given.clone(),
            (None, Some(region)) => get_websocket_endpoint_by_region(region.as_str()),
            (None, None) => DEFAULT_ENDPOINT.to_owned(),
        };
        Ok(
            AuthOptions {
                endpoint,
                token: clone_opt(&self.token),
                key: clone_opt(&self.key),
                headers: clone_headers(&self.headers),
            },
        )
    }

    /// An endpoint and a region exclude each other.
    pub fn check_conflicts(&self) -> (r: Result<(), ArgsError>)
        ensures
            r == auth_conflict(self.endpoint is Some, self.region is Some),
    {
        if self.endpoint.is_some() && self.region.is_some() {
            Err(ArgsError::Conflict { first: Flag::Region, second: Flag::Endpoint })
        } else {
            Ok(())
        }
    }
}

/// What is given comes before what the profile holds, and the profile
/// counts only where nothing is given.
pub proof fn lemma_first_of<T>(given: T, stored: Option<T>)
    ensures
        first_of(Some(given), stored) == Some(given),
        first_of(None, stored) == stored,
{
}

/// No header is dropped and none is moved: those of the profile stand
/// first, in their order, and those given follow, in theirs.
pub proof fn lemma_headers_kept(
    stored: Seq<(Seq<char>, Seq<char>)>,
    given: Seq<(Seq<char>, Seq<char>)>,
)
    ensures
        ({
            let all = headers_from_pairs(stored) + given;
            &&& all.len() == stored.len() + given.len()
            &&& forall|i: int|
                0 <= i < stored.len() ==> #[trigger] all[i] == header_of(
                    stored[i].0,
                    stored[i].1,
                ).unwrap()
            &&& forall|j: int| 0 <= j < given.len() ==> all[stored.len() + j] == #[trigger] given[j]
        }),
{
}

/// Without a profile the options are what the arguments alone give: the
/// two functions of `AuthArgs` agree there.
pub proof fn lemma_without_profile(
    endpoint: Option<Seq<char>>,
    region: Option<Seq<char>>,
    headers: Seq<(Seq<char>, Seq<char>)>,
)
    ensures
        first_bad_pair(profile_pairs(None), 0) == profile_pairs(None).len(),
        resolved_endpoint(endpoint, region, profile_endpoint(None)) == resolved_endpoint(
            endpoint,
            region,
            None,
        ),
        forall|given: Option<Seq<char>>| first_of(given, profile_token(None)) == given,
        forall|given: Option<Seq<char>>| first_of(given, profile_key(None)) == given,
        headers_from_pairs(profile_pairs(None)) + headers == headers,
{
    assert(headers_from_pairs(profile_pairs(None)) + headers =~= headers);
}

/// Where the audio goes and in which format, as the command line says it.
#[derive(Debug)]
pub struct OutputArgs {
    /// Output file path.
    pub output: Option<String>,
    /// Output quality; 0 where none is given.
    pub quality: Option<i32>,
    /// The container of the audio.
    pub container_format: Option<ContainerFormat>,
    /// The audio format, named outright.
    pub format: Option<AudioFormat>,
}

/// The format of `container` at `quality`, or the error that names both.
pub open spec fn format_at(container: ContainerFormat, quality: i32) -> Result<
    AudioFormat,
    ArgsError,
> {
    match quality_format(container, quality as int) {
        Some(format) => Ok(format),
        None => Err(ArgsError::Quality { container, quality }),
    }
}

/// The quality that is meant: the one given, else 0.
pub open spec fn quality_or_default(quality: Option<i32>) -> i32 {
    match quality {
        Some(quality) => quality,
        None => 0,
    }
}

/// The container that is meant: the one given, else the default one.
pub open spec fn container_or_default(container: Option<ContainerFormat>) -> ContainerFormat {
    match container {
        Some(container) => container,
        None => ContainerFormat::spec_default(),
    }
}

/// The audio format that arguments and profile come to. A format named
/// outright stands. Else a container given is looked up, at the quality
/// given or at 0. A quality alone is turned down: there is no container to
/// look it up in, and none is made up. With no argument at all the profile
/// decides in the same way, a container missing there being the default
/// one; and with no profile either, the default format stands.
pub open spec fn resolved_format(
    format: Option<AudioFormat>,
    container: Option<ContainerFormat>,
    quality: Option<i32>,
    config: Option<OutputFormatConfig>,
) -> Result<AudioFormat, ArgsError> {
    match (format, container, quality, config) {
        (Some(format), _, _, _) => Ok(format),
        (None, Some(container), quality, _) => format_at(container, quality_or_default(quality)),
        (None, None, Some(quality), _) => Err(ArgsError::QualityWithoutContainer(quality)),
        (None, None, None, Some(OutputFormatConfig::AudioFormat { format })) => Ok(format),
        (None, None, None, Some(OutputFormatConfig::ContainerAndQuality { container, quality })) => {
            format_at(container_or_default(container), quality_or_default(quality))
        },
        (None, None, None, None) => Ok(AudioFormat::spec_default()),
    }
}

/// What is wrong with a format named outright beside a quality or a
/// container.
pub open spec fn output_conflict(format: bool, quality: bool, container: bool) -> Result<
    (),
    ArgsError,
> {
    if format && quality {
        Err(ArgsError::Conflict { first: Flag::Format, second: Flag::Quality })
    } else if format && container {
        Err(ArgsError::Conflict { first: Flag::Format, second: Flag::ContainerFormat })
    } else {
        Ok(())
    }
}

/// A quality outside the bounds of its container is an error that names
/// the container and the quality; within them it is the format of the
/// table. No other level ever stands in for the one asked for.
pub proof fn lemma_format_at(container: ContainerFormat, quality: i32)
    ensures
        quality_bounds(container).0 <= quality <= quality_bounds(container).1 ==> format_at(
            container,
            quality,
        ) == Ok::<AudioFormat, ArgsError>(quality_format(container, quality as int).unwrap()),
        !(quality_bounds(container).0 <= quality <= quality_bounds(container).1) ==> format_at(
            container,
            quality,
        ) == Err::<AudioFormat, ArgsError>(ArgsError::Quality { container, quality }),
{
}

/// A format named outright stands, whatever else is given; and where
/// nothing is given and there is no profile, the default format stands. So
/// there is a format in every case but those of a quality that its
/// container does not have and of a quality without a container.
pub proof fn lemma_resolved_format(
    format: Option<AudioFormat>,
    container: Option<ContainerFormat>,
    quality: Option<i32>,
    config: Option<OutputFormatConfig>,
)
    ensures
        format matches Some(named) ==> resolved_format(format, container, quality, config) == Ok::<
            AudioFormat,
            ArgsError,
        >(named),
        resolved_format(None, None, None, None) == Ok::<AudioFormat, ArgsError>(
            AudioFormat::spec_default(),
        ),
        resolved_format(format, container, quality, config) matches Err(error) ==> (error matches ArgsError::Quality { .. })
            || (error matches ArgsError::QualityWithoutContainer(_)),
{
}

/// A format named outright is in conflict exactly with a quality or a
/// container, and nothing else is.
pub proof fn lemma_output_conflict(format: bool, quality: bool, container: bool)
    ensures
        output_conflict(format, quality, container) is Err <==> format && (quality || container),
{
}

/// Looks a quality up in a container's table.
fn find_format(container: ContainerFormat, quality: i32) -> (r: Result<AudioFormat, ArgsError>)
    ensures
        r == format_at(container, quality),
{
    match lookup_quality(container, quality) {
        Some(format) => Ok(format),
        None => Err(ArgsError::Quality { container, quality }),
    }
}

impl OutputArgs {
    /// The audio format that these arguments and `config` come to: see
    /// `resolved_format`.
    pub fn get_audio_format(&self, config: Option<&OutputFormatConfig>) -> (r: Result<
        AudioFormat,
        ArgsError,
    >)
        ensures
            r == resolved_format(
                self.format,
                self.container_format,
                self.quality,
                match config {
                    Some(config) => Some(*config),
                    None => None,
                },
            ),
    {
        match (self.format, self.container_format, self.quality, config) {
            (Some(format), _, _, _) => Ok(format),
            (None, Some(container), quality, _) => find_format(
                container,
                match quality {
                    Some(quality) => quality,
                    None => 0,
                },
            ),
            (None, None, Some(quality), _) => Err(ArgsError::QualityWithoutContainer(quality)),
            (None, None, None, Some(OutputFormatConfig::AudioFormat { format })) => Ok(*format),
            (
                None,
                None,
                None,
                Some(OutputFormatConfig::ContainerAndQuality { container, quality }),
            ) => find_format(
                match container {
                    Some(container) => *container,
                    None => ContainerFormat::Wav,
                },
                match quality {
                    Some(quality) => *quality,
                    None => 0,
                },
            ),
            (None, None, None, None) => Ok(AudioFormat::Riff24Khz16BitMonoPcm),
        }
    }

    /// A format named outright excludes a quality and a container.
    pub fn check_conflicts(&self) -> (r: Result<(), ArgsError>)
        ensures
            r == output_conflict(
                self.format is Some,
                self.quality is Some,
                self.container_format is Some,
            ),
    {
        if self.format.is_some() && self.quality.is_some() {
            Err(ArgsError::Conflict { first: Flag::Format, second: Flag::Quality })
        } else if self.format.is_some() && self.container_format.is_some() {
            Err(ArgsError::Conflict { first: Flag::Format, second: Flag::ContainerFormat })
        } else {
            Ok(())
        }
    }
}

/// What is to be spoken and how, as the command line says it. Pitch and
/// rate are held in the form that the service takes.
#[derive(Debug)]
pub struct TextArgs {
    /// The text to speak.
    pub text: Option<String>,
    /// The pitch.
    pub pitch: Option<String>,
    /// The speech rate.
    pub rate: Option<String>,
    /// The speaking style.
    pub style: Option<String>,
    /// The role that the voice plays.
    pub role: Option<String>,
    /// How strongly the style is applied.
    pub style_degree: Option<StyleDegree>,
    /// The voice to use.
    pub voice: Option<String>,
    /// The locale to use; `en-US` where neither a voice nor a locale is given.
    pub locale: Option<String>,
}

/// The locale that is meant: the one given, else `en-US`.
pub open spec fn locale_or_default(locale: Option<Seq<char>>) -> Seq<char> {
    match locale {
        Some(locale) => locale,
        None => "en-US"@,
    }
}

/// The voice that speaks: the one given, else the default voice of the
/// locale that is meant, if that locale has one.
pub open spec fn resolved_voice(voice: Option<Seq<char>>, locale: Option<Seq<char>>) -> Option<
    Seq<char>,
> {
    match voice {
        Some(voice) => Some(voice),
        None => default_voice(locale_or_default(locale)),
    }
}

/// What is said of a locale that has no voice.
pub open spec fn unknown_locale_message(locale: Seq<char>) -> Seq<char> {
    "No default voice is known for the locale "@ + locale
}

/// What is wrong with a voice and a locale, when both are given.
pub open spec fn text_conflict(voice: bool, locale: bool) -> Result<(), ArgsError> {
    if voice && locale {
        Err(ArgsError::Conflict { first: Flag::Voice, second: Flag::Locale })
    } else {
        Ok(())
    }
}

/// A copy of an optional style degree.
fn clone_degree(degree: &Option<StyleDegree>) -> (r: Option<StyleDegree>)
    ensures
        opt_degree(r) == opt_degree(*degree),
{
    match degree {
        Some(degree) => Some(degree.clone()),
        None => None,
    }
}

impl TextArgs {
    /// What is to be spoken, by whom and how. The text must be there and
    /// not empty. The voice is the one given, else the default voice of the
    /// locale given or of `en-US`; a locale without a voice is an error of
    /// its own, which names the locale. All else is handed on as it is.
    pub fn try_into_options(&self) -> (r: Result<TextOptions, AspeakError>)
        ensures
            match r {
                Ok(options) => {
                    &&& opt_text(self.text) == Some(options@.text)
                    &&& options@.text.len() > 0
                    &&& resolved_voice(opt_text(self.voice), opt_text(self.locale)) == Some(
                        options@.voice,
                    )
                    &&& options@.pitch == opt_text(self.pitch)
                    &&& options@.rate == opt_text(self.rate)
                    &&& options@.style == opt_text(self.style)
                    &&& options@.role == opt_text(self.role)
                    &&& options@.style_degree == opt_degree(self.style_degree)
                },
                Err(AspeakError::InputError) => opt_text(self.text) is None || opt_text(
                    self.text,
                ) == Some(Seq::<char>::empty()),
                Err(AspeakError::ArgumentError(message)) => {
                    &&& opt_text(self.text) matches Some(text) && text.len() > 0
                    &&& resolved_voice(opt_text(self.voice), opt_text(self.locale)) is None
                    &&& message@ == unknown_locale_message(
                        locale_or_default(opt_text(self.locale)),
                    )
                },
                Err(_) => false,
            },
            (self.voice is Some || self.locale is None) && (opt_text(self.text) matches Some(text)
                && text.len() > 0) ==> r is Ok,
    {
        proof {
            lemma_en_us();
        }
        let text = match &self.text {
            Some(text) => {
                if text.as_str().is_empty() {
                    assert(text@ =~= Seq::<char>::empty());
                    return Err(AspeakError::InputError);
                }
                text.clone()
            },
            None => {
                return Err(AspeakError::InputError);
            },
        };
        let voice = match &self.voice {
            Some(voice) => voice.clone(),
            None => {
                let locale = match &self.locale {
                    Some(locale) => locale.as_str(),
                    None => "en-US",
                };
                match get_default_voice_by_locale(locale) {
                    Some(voice) => voice.to_owned(),
                    None => {
                        let mut message = String::from_str(
                            "No default voice is known for the locale ",
                        );
                        message.append(locale);
                        return Err(AspeakError::ArgumentError(message));
                    },
                }
            },
        };
        Ok(
            TextOptions {
                text,
                voice,
                pitch: clone_opt(&self.pitch),
                rate: clone_opt(&self.rate),
                style: clone_opt(&self.style),
                role: clone_opt(&self.role),
                style_degree: clone_degree(&self.style_degree),
            },
        )
    }

    /// A voice and a locale exclude each other.
    pub fn check_conflicts(&self) -> (r: Result<(), ArgsError>)
        ensures
            r == text_conflict(self.voice is Some, self.locale is Some),
    {
        if self.voice.is_some() && self.locale.is_some() {
            Err(ArgsError::Conflict { first: Flag::Voice, second: Flag::Locale })
        } else {
            Ok(())
        }
    }
}

/// Which profile to use, as the command line says it.
#[derive(Debug)]
pub struct ProfileArgs {
    /// Do not use a profile.
    pub no_profile: bool,
    /// The profile to use.
    pub profile: Option<String>,
}

/// The profile that is to be loaded.
#[derive(Debug)]
pub enum ProfileChoice {
    /// None: the built-in defaults stand alone.
    Disabled,
    /// The one that is found in its usual place, if any.
    Default,
    /// The one at this path.
    Named(String),
}

/// What a `ProfileChoice` holds.
pub enum ProfileChoiceView {
    Disabled,
    Default,
    Named(Seq<char>),
}

impl View for ProfileChoice {
    type V = ProfileChoiceView;

    open spec fn view(&self) -> ProfileChoiceView {
        match self {
            ProfileChoice::Disabled => ProfileChoiceView::Disabled,
            ProfileChoice::Default => ProfileChoiceView::Default,
            ProfileChoice::Named(path) => ProfileChoiceView::Named(path@),
        }
    }
}

/// The profile that arguments ask for: none where they say so, whatever
/// else they say; else the one they name; else the usual one.
pub open spec fn chosen_profile(no_profile: bool, profile: Option<Seq<char>>) -> ProfileChoiceView {
    if no_profile {
        ProfileChoiceView::Disabled
    } else {
        match profile {
            Some(path) => ProfileChoiceView::Named(path),
            None => ProfileChoiceView::Default,
        }
    }
}

/// What is wrong with a profile named beside the wish for none.
pub open spec fn profile_conflict(no_profile: bool, profile: bool) -> Result<(), ArgsError> {
    if no_profile && profile {
        Err(ArgsError::Conflict { first: Flag::Profile, second: Flag::NoProfile })
    } else {
        Ok(())
    }
}

impl ProfileArgs {
    /// Which profile is to be loaded.
    pub fn load_profile(&self) -> (r: ProfileChoice)
        ensures
            r@ == chosen_profile(self.no_profile, opt_text(self.profile)),
    {
        if self.no_profile {
            ProfileChoice::Disabled
        } else {
            match &self.profile {
                Some(path) => ProfileChoice::Named(path.clone()),
                None => ProfileChoice::Default,
            }
        }
    }

    /// A profile named excludes the wish for none.
    pub fn check_conflicts(&self) -> (r: Result<(), ArgsError>)
        ensures
            r == profile_conflict(self.no_profile, self.profile is Some),
    {
        if self.no_profile && self.profile.is_some() {
            Err(ArgsError::Conflict { first: Flag::Profile, second: Flag::NoProfile })
        } else {
            Ok(())
        }
    }
}

} // verus!
