//! What a caller asks of a connection, and what is left of it once it is checked.

use super::mode::EncryptionMode;
use crate::codec::{Codec, MediaType};
use crate::dave::identity::{identity_view, DaveIdentityKey};
use crate::errors::{Error, InvalidInputError};
use crate::observer::ConnectionEvent;
use crate::secrets::{wipe_text, SessionId, Token};
use crate::text::{append_decimal, contains_text, copy_text, decimal, holds};
use crate::time::Duration;
use vstd::prelude::*;

verus! {

/// The highest version of the end-to-end encryption protocol that is spoken.
pub const DAVE_PROTOCOL_VERSION: u16 = 1;

pub const DAVE_SEND_MEDIA_READY_TIMEOUT_SECS: u64 = 20;

/// The size of the largest UDP datagram, to which the receive buffer is held.
pub const MIN_UDP_RECEIVE_BUFFER_BYTES: usize = 65_535;

/// The first version of the voice gateway that is spoken.
pub const MIN_GATEWAY_VERSION: u8 = 4;

/// Sizes and times that a caller can adjust.
#[derive(Clone, Copy, Debug, PartialEq, Eq, Structural)]
pub struct ConnectionTuning {
    pub dave_pending_media_ttl: Duration,
    pub receive_interarrival_window: usize,
    pub rtp_reorder_ttl: Duration,
    pub rtp_reorder_buffer_max_frames: usize,
    pub udp_receive_buffer_bytes: usize,
    pub ready_frame_buffer_max: usize,
    pub media_queue_capacity: usize,
}

impl ConnectionTuning {
    pub open spec fn standard() -> ConnectionTuning {
        ConnectionTuning {
            dave_pending_media_ttl: Duration::secs(10),
            receive_interarrival_window: 256,
            rtp_reorder_ttl: Duration::millis(60),
            rtp_reorder_buffer_max_frames: 32,
            udp_receive_buffer_bytes: 65_535,
            ready_frame_buffer_max: 4096,
            media_queue_capacity: 256,
        }
    }

    /// The first thing that is wrong with the adjustments.
    pub open spec fn fault(self) -> Option<InvalidInputError> {
        if self.dave_pending_media_ttl.nanos == 0 {
            Some(
                InvalidInputError::ConnectionTuningDurationZero { field: "dave_pending_media_ttl" },
            )
        } else if self.rtp_reorder_ttl.nanos == 0 {
            Some(InvalidInputError::ConnectionTuningDurationZero { field: "rtp_reorder_ttl" })
        } else if self.receive_interarrival_window == 0 {
            Some(InvalidInputError::ConnectionTuningZero { field: "receive_interarrival_window" })
        } else if self.rtp_reorder_buffer_max_frames == 0 {
            Some(InvalidInputError::ConnectionTuningZero { field: "rtp_reorder_buffer_max_frames" })
        } else if self.udp_receive_buffer_bytes == 0 {
            Some(InvalidInputError::ConnectionTuningZero { field: "udp_receive_buffer_bytes" })
        } else if self.ready_frame_buffer_max == 0 {
            Some(InvalidInputError::ConnectionTuningZero { field: "ready_frame_buffer_max" })
        } else if self.media_queue_capacity == 0 {
            Some(InvalidInputError::ConnectionTuningZero { field: "media_queue_capacity" })
        } else if self.udp_receive_buffer_bytes < 65_535 {
            Some(
                InvalidInputError::ConnectionTuningTooSmall {
                    field: "udp_receive_buffer_bytes",
                    min: 65_535,
                    actual: self.udp_receive_buffer_bytes,
                },
            )
        } else {
            None
        }
    }

    /// Refuses times and sizes of zero, and a receive buffer too small for a datagram.
    pub fn validate(self) -> (result: Result<(), Error>)
        ensures
            result == (match self.fault() {
                Some(error) => Err::<(), Error>(Error::InvalidInput(error)),
                None => Ok::<(), Error>(()),
            }),
    {
        if self.dave_pending_media_ttl.is_zero() {
            return duration_zero("dave_pending_media_ttl");
        }
        if self.rtp_reorder_ttl.is_zero() {
            return duration_zero("rtp_reorder_ttl");
        }
        if self.receive_interarrival_window == 0 {
            return size_zero("receive_interarrival_window");
        }
        if self.rtp_reorder_buffer_max_frames == 0 {
            return size_zero("rtp_reorder_buffer_max_frames");
        }
        if self.udp_receive_buffer_bytes == 0 {
            return size_zero("udp_receive_buffer_bytes");
        }
        if self.ready_frame_buffer_max == 0 {
            return size_zero("ready_frame_buffer_max");
        }
        if self.media_queue_capacity == 0 {
            return size_zero("media_queue_capacity");
        }
        if self.udp_receive_buffer_bytes < MIN_UDP_RECEIVE_BUFFER_BYTES {
            return Err(
                Error::InvalidInput(
                    InvalidInputError::ConnectionTuningTooSmall {
                        field: "udp_receive_buffer_bytes",
                        min: MIN_UDP_RECEIVE_BUFFER_BYTES,
                        actual: self.udp_receive_buffer_bytes,
                    },
                ),
            );
        }
        Ok(())
    }
}

fn duration_zero(field: &'static str) -> (result: Result<(), Error>)
    ensures
        result == Err::<(), Error>(
            Error::InvalidInput(InvalidInputError::ConnectionTuningDurationZero { field }),
        ),
{
    Err(Error::InvalidInput(InvalidInputError::ConnectionTuningDurationZero { field }))
}

fn size_zero(field: &'static str) -> (result: Result<(), Error>)
    ensures
        result == Err::<(), Error>(
            Error::InvalidInput(InvalidInputError::ConnectionTuningZero { field }),
        ),
{
    Err(Error::InvalidInput(InvalidInputError::ConnectionTuningZero { field }))
}

impl Default for ConnectionTuning {
    fn default() -> (tuning: Self)
        ensures
            tuning == ConnectionTuning::standard(),
    {
        ConnectionTuning {
            dave_pending_media_ttl: Duration::from_secs(10),
            receive_interarrival_window: 256,
            rtp_reorder_ttl: Duration::from_millis(60),
            rtp_reorder_buffer_max_frames: 32,
            udp_receive_buffer_bytes: MIN_UDP_RECEIVE_BUFFER_BYTES,
            ready_frame_buffer_max: 4096,
            media_queue_capacity: 256,
        }
    }
}

/// The adjustments that nobody made are in order.
pub proof fn law_standard_tuning_is_valid()
    ensures
        ConnectionTuning::standard().fault() is None,
{
}

/// The video codecs that a caller wants, in order; none for a connection without video.
#[derive(Debug, PartialEq, Eq)]
pub struct ConnectionCodecPreferences {
    video_codecs: Vec<Codec>,
}

impl View for ConnectionCodecPreferences {
    type V = Seq<Codec>;

    closed spec fn view(&self) -> Seq<Codec> {
        self.video_codecs@
    }
}

/// The first codec, at `at` or later, that is no video codec or that came before.
pub open spec fn preference_fault(codecs: Seq<Codec>, at: int) -> Option<InvalidInputError>
    decreases codecs.len() - at,
{
    if at < 0 || at >= codecs.len() {
        None
    } else if codecs[at].media() != MediaType::Video {
        Some(InvalidInputError::VideoCodecPreferenceNotVideo { codec: codecs[at] })
    } else if codecs.take(at).contains(codecs[at]) {
        Some(InvalidInputError::DuplicateVideoCodecPreference { codec: codecs[at] })
    } else {
        preference_fault(codecs, at + 1)
    }
}

/// Whether a list of video codecs holds only video codecs, each once.
pub open spec fn video_preferences(codecs: Seq<Codec>) -> bool {
    &&& forall|i: int|
        0 <= i < codecs.len() ==> (#[trigger] codecs[i]).media() == MediaType::Video
    &&& codecs.no_duplicates()
}

proof fn lemma_preferences(codecs: Seq<Codec>, at: int)
    requires
        0 <= at <= codecs.len(),
        preference_fault(codecs, at) is None,
        video_preferences(codecs.take(at)),
    ensures
        video_preferences(codecs),
    decreases codecs.len() - at,
{
    if at < codecs.len() {
        let more = codecs.take(at + 1);
        assert(more =~= codecs.take(at).push(codecs[at]));
        assert forall|i: int, j: int|
            0 <= i < more.len() && 0 <= j < more.len() && i != j implies more[i] != more[j] by {
            if i == at {
                assert(codecs.take(at)[j] == more[j]);
            } else if j == at {
                assert(codecs.take(at)[i] == more[i]);
            } else {
                assert(codecs.take(at)[i] == more[i]);
                assert(codecs.take(at)[j] == more[j]);
            }
        }
        assert forall|i: int| 0 <= i < more.len() implies (#[trigger] more[i]).media()
            == MediaType::Video by {
            if i < at {
                assert(codecs.take(at)[i] == more[i]);
            }
        }
        lemma_preferences(codecs, at + 1);
    } else {
        assert(codecs.take(at) =~= codecs);
    }
}

impl ConnectionCodecPreferences {
    #[verifier::type_invariant]
    spec fn valid(self) -> bool {
        video_preferences(self.video_codecs@)
    }

    /// Without video.
    pub fn audio_only() -> (preferences: Self)
        ensures
            preferences@.len() == 0,
    {
        ConnectionCodecPreferences { video_codecs: Vec::new() }
    }

    /// With these video codecs, the preferred one first. A codec that is no video
    /// codec, or that is listed twice, is refused.
    pub fn with_video_codecs(codecs: Vec<Codec>) -> (preferences: Result<Self, Error>)
        ensures
            match preference_fault(codecs@, 0) {
                Some(error) => preferences == Err::<Self, Error>(Error::InvalidInput(error)),
                None => preferences matches Ok(preferences) && preferences@ == codecs@,
            },
    {
        let len = codecs.len();
        let mut at: usize = 0;
        while at < len
            invariant
                len == codecs@.len(),
                at <= len,
                preference_fault(codecs@, 0) == preference_fault(codecs@, at as int),
            decreases len - at,
        {
            let codec = codecs[at];
            if codec.media_type() != MediaType::Video {
                return Err(
                    Error::InvalidInput(InvalidInputError::VideoCodecPreferenceNotVideo { codec }),
                );
            }
            let mut before: usize = 0;
            while before < at
                invariant
                    len == codecs@.len(),
                    before <= at < len,
                    codec == codecs@[at as int],
                    codec.media() == MediaType::Video,
                    preference_fault(codecs@, 0) == preference_fault(codecs@, at as int),
                    forall|i: int| 0 <= i < before ==> #[trigger] codecs@[i] != codec,
                decreases at - before,
            {
                if codecs[before] == codec {
                    assert(codecs@.take(at as int)[before as int] == codec);
                    assert(codecs@.take(at as int).contains(codec));
                    return Err(
                        Error::InvalidInput(
                            InvalidInputError::DuplicateVideoCodecPreference { codec },
                        ),
                    );
                }
                before = before + 1;
            }
            assert(!codecs@.take(at as int).contains(codec)) by {
                if codecs@.take(at as int).contains(codec) {
                    let i = choose|i: int|
                        0 <= i < at && codecs@.take(at as int)[i] == codec;
                    assert(codecs@[i] == codec);
                }
            }
            at = at + 1;
        }
        proof {
            assert(preference_fault(codecs@, at as int) is None);
            assert(codecs@.take(0) =~= seq![]);
            lemma_preferences(codecs@, 0);
        }
        Ok(ConnectionCodecPreferences { video_codecs: codecs })
    }

    pub fn video_enabled(&self) -> (enabled: bool)
        ensures
            enabled == (self@.len() > 0),
    {
        self.video_codecs.len() > 0
    }

    pub fn video_codecs(&self) -> (codecs: &Vec<Codec>)
        ensures
            codecs@ == self@,
            video_preferences(codecs@),
    {
        proof {
            use_type_invariant(self);
        }
        &self.video_codecs
    }
}

impl Clone for ConnectionCodecPreferences {
    fn clone(&self) -> (copy: Self)
        ensures
            copy@ == self@,
    {
        proof {
            use_type_invariant(self);
        }
        let mut video_codecs: Vec<Codec> = Vec::new();
        let len = self.video_codecs.len();
        let mut i: usize = 0;
        while i < len
            invariant
                len == self.video_codecs@.len(),
                i <= len,
                video_codecs@ == self.video_codecs@.take(i as int),
            decreases len - i,
        {
            video_codecs.push(self.video_codecs[i]);
            i = i + 1;
            assert(video_codecs@ =~= self.video_codecs@.take(i as int));
        }
        assert(video_codecs@ =~= self.video_codecs@);
        ConnectionCodecPreferences { video_codecs }
    }
}

impl Default for ConnectionCodecPreferences {
    fn default() -> (preferences: Self)
        ensures
            preferences@.len() == 0,
    {
        Self::audio_only()
    }
}

/// Where to connect, and as whom.
#[derive(PartialEq, Eq)]
pub struct ConnectionConfig {
    pub guild_id: u64,
    pub channel_id: u64,
    pub user_id: u64,
    pub session_id: String,
    pub token: String,
    pub endpoint: String,
}

impl ConnectionConfig {
    /// Wipes the session id and the token.
    pub fn erase(&mut self)
        ensures
            final(self).session_id@.len() == 0,
            final(self).token@.len() == 0,
            final(self).guild_id == old(self).guild_id,
            final(self).channel_id == old(self).channel_id,
            final(self).user_id == old(self).user_id,
            final(self).endpoint == old(self).endpoint,
        opens_invariants none
        no_unwind
    {
        wipe_text(&mut self.session_id);
        wipe_text(&mut self.token);
    }
}

/// The secrets are wiped with a config that was not validated, or was refused.
impl Drop for ConnectionConfig {
    fn drop(&mut self)
        opens_invariants none
        no_unwind
    {
        self.erase();
    }
}

/// How to connect.
#[derive(Debug, PartialEq, Eq)]
pub struct ConnectionOptions {
    pub gateway_version: u8,
    pub required_mode: Option<EncryptionMode>,
    pub codec_preferences: ConnectionCodecPreferences,
    pub max_dave_protocol_version: Option<u16>,
    pub dave_send_media_ready_timeout: Duration,
    /// The key that the user is known by. Without one, the user's connections share one
    /// that lasts as long as they do.
    pub dave_identity: Option<DaveIdentityKey>,
    pub tuning: ConnectionTuning,
}

impl Default for ConnectionOptions {
    fn default() -> (options: Self)
        ensures
            options.gateway_version == 8,
            options.required_mode == Some(EncryptionMode::AeadAes256GcmRtpSize),
            options.codec_preferences@.len() == 0,
            options.max_dave_protocol_version == Some(1u16),
            options.dave_send_media_ready_timeout == Duration::secs(20),
            options.dave_identity is None,
            options.tuning == ConnectionTuning::standard(),
    {
        ConnectionOptions {
            gateway_version: 8,
            required_mode: Some(EncryptionMode::AeadAes256GcmRtpSize),
            codec_preferences: ConnectionCodecPreferences::audio_only(),
            max_dave_protocol_version: Some(DAVE_PROTOCOL_VERSION),
            dave_send_media_ready_timeout: Duration::from_secs(DAVE_SEND_MEDIA_READY_TIMEOUT_SECS),
            dave_identity: None,
            tuning: ConnectionTuning::default(),
        }
    }
}

/// Options that have passed the checks.
#[derive(Debug, PartialEq, Eq)]
pub struct ValidatedConnectionOptions {
    pub gateway_version: u8,
    pub required_mode: Option<EncryptionMode>,
    pub codec_preferences: ConnectionCodecPreferences,
    pub max_dave_protocol_version: Option<u16>,
    pub dave_send_media_ready_timeout: Duration,
    /// The key that the user is known by. Without one, the user's connections share one
    /// that lasts as long as they do.
    pub dave_identity: Option<DaveIdentityKey>,
    pub tuning: ConnectionTuning,
}

impl ValidatedConnectionOptions {
    /// Whether these are `options`, unchanged.
    pub open spec fn are(self, options: ConnectionOptions) -> bool {
        &&& self.gateway_version == options.gateway_version
        &&& self.required_mode == options.required_mode
        &&& self.codec_preferences@ == options.codec_preferences@
        &&& self.max_dave_protocol_version == options.max_dave_protocol_version
        &&& self.dave_send_media_ready_timeout == options.dave_send_media_ready_timeout
        &&& identity_view(self.dave_identity) == identity_view(options.dave_identity)
        &&& self.tuning == options.tuning
    }
}

impl Clone for ValidatedConnectionOptions {
    fn clone(&self) -> (copy: Self)
        ensures
            copy.gateway_version == self.gateway_version,
            copy.required_mode == self.required_mode,
            copy.codec_preferences@ == self.codec_preferences@,
            copy.max_dave_protocol_version == self.max_dave_protocol_version,
            copy.dave_send_media_ready_timeout == self.dave_send_media_ready_timeout,
            identity_view(copy.dave_identity) == identity_view(self.dave_identity),
            copy.tuning == self.tuning,
    {
        ValidatedConnectionOptions {
            gateway_version: self.gateway_version,
            required_mode: self.required_mode,
            codec_preferences: self.codec_preferences.clone(),
            max_dave_protocol_version: self.max_dave_protocol_version,
            dave_send_media_ready_timeout: self.dave_send_media_ready_timeout,
            dave_identity: match &self.dave_identity {
                Some(key) => Some(key.copy()),
                None => None,
            },
            tuning: self.tuning,
        }
    }
}

impl ConnectionOptions {
    /// What is wrong with the options, if something is.
    pub open spec fn fault(self) -> Option<InvalidInputError> {
        match self.tuning.fault() {
            Some(error) => Some(error),
            None => if self.gateway_version < 4 {
                Some(
                    InvalidInputError::UnsupportedGatewayVersion { version: self.gateway_version },
                )
            } else {
                None
            },
        }
    }

    /// Checks the options: the adjustments first, then the gateway version.
    pub fn validate(self) -> (result: Result<ValidatedConnectionOptions, Error>)
        ensures
            match self.fault() {
                Some(error) => result == Err::<ValidatedConnectionOptions, Error>(
                    Error::InvalidInput(error),
                ),
                None => result matches Ok(options) && options.are(self),
            },
    {
        match self.tuning.validate() {
            Ok(()) => {},
            Err(error) => {
                return Err(error);
            },
        }
        if self.gateway_version < MIN_GATEWAY_VERSION {
            return Err(
                Error::InvalidInput(
                    InvalidInputError::UnsupportedGatewayVersion { version: self.gateway_version },
                ),
            );
        }
        Ok(
            ValidatedConnectionOptions {
                gateway_version: self.gateway_version,
                required_mode: self.required_mode,
                codec_preferences: self.codec_preferences,
                max_dave_protocol_version: self.max_dave_protocol_version,
                dave_send_media_ready_timeout: self.dave_send_media_ready_timeout,
                dave_identity: self.dave_identity,
                tuning: self.tuning,
            },
        )
    }
}

/// Where and how to connect.
#[derive(PartialEq, Eq)]
pub struct ConnectionRequest {
    pub config: ConnectionConfig,
    pub options: ConnectionOptions,
}

#[derive(Clone, Copy, Debug, PartialEq, Eq, Structural)]
pub struct ConnectionIdentity {
    pub guild_id: u64,
    pub channel_id: u64,
    pub user_id: u64,
}

#[derive(PartialEq, Eq)]
pub struct ConnectionSecrets {
    pub session_id: SessionId,
    pub token: Token,
}

impl ConnectionSecrets {
    /// Wipes both secrets.
    pub fn erase(&mut self)
        ensures
            final(self).session_id@.len() == 0,
            final(self).token@.len() == 0,
    {
        self.session_id.erase();
        self.token.erase();
    }
}

/// A request that has passed the checks.
#[derive(PartialEq, Eq)]
pub struct ValidatedConnectionConfig {
    pub identity: ConnectionIdentity,
    pub secrets: ConnectionSecrets,
    pub endpoint: String,
    pub websocket_url: String,
    pub options: ValidatedConnectionOptions,
}

impl ConnectionConfig {
    pub fn with_options(self, options: ConnectionOptions) -> (request: ConnectionRequest)
        ensures
            request.config == self,
            request.options == options,
    {
        ConnectionRequest { config: self, options }
    }

    /// Checks a request with the options that nobody changed: they are in order.
    pub fn validate(self) -> (result: Result<ValidatedConnectionConfig, Error>)
        ensures
            result matches Ok(config) && config.is_for(self) && config.options.gateway_version == 8
                && config.options.required_mode == Some(EncryptionMode::AeadAes256GcmRtpSize)
                && config.options.codec_preferences@.len() == 0
                && config.options.max_dave_protocol_version == Some(1u16)
                && config.options.dave_send_media_ready_timeout == Duration::secs(20)
                && config.options.dave_identity is None && config.options.tuning == ConnectionTuning::standard(),
    {
        self.with_options(ConnectionOptions::default()).validate()
    }
}

/// The URL of the voice gateway at an endpoint: a secure WebSocket where the endpoint
/// names no scheme, with the gateway version where it names none.
pub open spec fn gateway_url(endpoint: Seq<char>, gateway_version: u8) -> Seq<char> {
    let url = if holds(endpoint, "://"@) {
        endpoint
    } else {
        "wss://"@ + endpoint
    };
    if holds(url, "?v="@) {
        url
    } else {
        url + (if holds(url, "?"@) {
            "&"@
        } else {
            "/?"@
        }) + "v="@ + decimal(gateway_version as nat)
    }
}

pub fn websocket_url(endpoint: &str, gateway_version: u8) -> (url: String)
    ensures
        url@ == gateway_url(endpoint@, gateway_version),
{
    let mut url = if contains_text(endpoint, "://") {
        copy_text(endpoint)
    } else {
        let mut prefixed = copy_text("wss://");
        prefixed.append(endpoint);
        prefixed
    };
    if !contains_text(url.as_str(), "?v=") {
        let separator = if contains_text(url.as_str(), "?") {
            "&"
        } else {
            "/?"
        };
        url.append(separator);
        url.append("v=");
        append_decimal(&mut url, gateway_version as u64);
    }
    url
}

impl ConnectionRequest {
    /// Checks the options, and works out the URL of the gateway.
    pub fn validate(self) -> (result: Result<ValidatedConnectionConfig, Error>)
        ensures
            match self.options.fault() {
                Some(error) => result == Err::<ValidatedConnectionConfig, Error>(
                    Error::InvalidInput(error),
                ),
                None => result matches Ok(config) && config.is_for(self.config)
                    && config.options.are(self.options),
            },
    {
        let ConnectionRequest { config, options } = self;
        let options = match options.validate() {
            Ok(options) => options,
            Err(error) => {
                return Err(error);
            },
        };
        let mut config = config;
        let mut session_id = String::new();
        let mut token = String::new();
        let mut endpoint = String::new();
        std::mem::swap(&mut session_id, &mut config.session_id);
        std::mem::swap(&mut token, &mut config.token);
        std::mem::swap(&mut endpoint, &mut config.endpoint);
        let websocket_url = websocket_url(endpoint.as_str(), options.gateway_version);
        Ok(
            ValidatedConnectionConfig {
                identity: ConnectionIdentity {
                    guild_id: config.guild_id,
                    channel_id: config.channel_id,
                    user_id: config.user_id,
                },
                secrets: ConnectionSecrets {
                    session_id: SessionId::new(session_id),
                    token: Token::new(token),
                },
                endpoint,
                websocket_url,
                options,
            },
        )
    }
}

impl ValidatedConnectionConfig {
    /// Whether this connects where `config` says, as the one it says.
    pub open spec fn is_for(self, config: ConnectionConfig) -> bool {
        &&& self.identity == (ConnectionIdentity {
            guild_id: config.guild_id,
            channel_id: config.channel_id,
            user_id: config.user_id,
        })
        &&& self.secrets.session_id@ == config.session_id@
        &&& self.secrets.token@ == config.token@
        &&& self.endpoint@ == config.endpoint@
        &&& self.websocket_url@ == gateway_url(config.endpoint@, self.options.gateway_version)
    }

    pub fn info(&self) -> (info: ConnectionInfo)
        ensures
            info.guild_id == self.identity.guild_id,
            info.channel_id == self.identity.channel_id,
            info.user_id == self.identity.user_id,
            info.endpoint@ == self.endpoint@,
            info.gateway_version == self.options.gateway_version,
            info.max_dave_protocol_version == self.options.max_dave_protocol_version,
    {
        self.runtime_config().public_info()
    }

    pub fn options(&self) -> (options: &ValidatedConnectionOptions)
        ensures
            *options == self.options,
    {
        &self.options
    }

    pub fn runtime_config(&self) -> (config: ConnectionRuntimeConfig)
        ensures
            config.identity == self.identity,
            config.endpoint@ == self.endpoint@,
            config.options.gateway_version == self.options.gateway_version,
            config.options.required_mode == self.options.required_mode,
            config.options.codec_preferences@ == self.options.codec_preferences@,
            config.options.max_dave_protocol_version == self.options.max_dave_protocol_version,
            config.options.dave_send_media_ready_timeout
                == self.options.dave_send_media_ready_timeout,
            identity_view(config.options.dave_identity) == identity_view(
                self.options.dave_identity,
            ),
            config.options.tuning == self.options.tuning,
    {
        ConnectionRuntimeConfig {
            identity: self.identity,
            endpoint: self.endpoint.clone(),
            options: self.options.clone(),
        }
    }
}

/// What the running connection keeps of its request: all but the secrets.
#[derive(Debug, PartialEq, Eq)]
pub struct ConnectionRuntimeConfig {
    pub identity: ConnectionIdentity,
    pub endpoint: String,
    pub options: ValidatedConnectionOptions,
}

impl ConnectionRuntimeConfig {
    pub fn public_info(&self) -> (info: ConnectionInfo)
        ensures
            info.guild_id == self.identity.guild_id,
            info.channel_id == self.identity.channel_id,
            info.user_id == self.identity.user_id,
            info.endpoint@ == self.endpoint@,
            info.gateway_version == self.options.gateway_version,
            info.max_dave_protocol_version == self.options.max_dave_protocol_version,
    {
        ConnectionInfo {
            guild_id: self.identity.guild_id,
            channel_id: self.identity.channel_id,
            user_id: self.identity.user_id,
            endpoint: self.endpoint.clone(),
            gateway_version: self.options.gateway_version,
            max_dave_protocol_version: self.options.max_dave_protocol_version,
        }
    }
}

#[derive(Debug, PartialEq, Eq)]
pub struct ConnectionInfo {
    pub guild_id: u64,
    pub channel_id: u64,
    pub user_id: u64,
    pub endpoint: String,
    pub gateway_version: u8,
    pub max_dave_protocol_version: Option<u16>,
}

impl ConnectionInfo {
    pub fn connection_event(&self) -> (event: ConnectionEvent<'_>)
        ensures
            event.endpoint@ == self.endpoint@,
            event.guild_id == self.guild_id,
            event.user_id == self.user_id,
    {
        ConnectionEvent {
            endpoint: self.endpoint.as_str(),
            guild_id: self.guild_id,
            user_id: self.user_id,
        }
    }
}

/// Adjustments are in order exactly where every time and every size is more than nothing and
/// a whole datagram fits in the receive buffer.
pub proof fn law_tuning_is_valid_when_nothing_is_zero(tuning: ConnectionTuning)
    ensures
        tuning.fault() is None <==> {
            &&& tuning.dave_pending_media_ttl.nanos > 0
            &&& tuning.rtp_reorder_ttl.nanos > 0
            &&& tuning.receive_interarrival_window > 0
            &&& tuning.rtp_reorder_buffer_max_frames > 0
            &&& tuning.ready_frame_buffer_max > 0
            &&& tuning.media_queue_capacity > 0
            &&& tuning.udp_receive_buffer_bytes > 65_534
        },
{
}

/// Options are in order exactly where their adjustments are and the gateway's version is the
/// fourth or a later one.
pub proof fn law_options_need_a_known_gateway(options: ConnectionOptions)
    ensures
        options.fault() is None <==> options.tuning.fault() is None && options.gateway_version > 3,
{
}

/// Preferences are taken exactly where they name video codecs only, each once; and the codec
/// that is told of is the first that is no video codec, or that was named before.
pub proof fn law_preferences_name_video_once(codecs: Seq<Codec>)
    ensures
        preference_fault(codecs, 0) is None <==> (forall|i: int|
            0 <= i < codecs.len() ==> #[trigger] codecs[i] != Codec::Opus)
            && codecs.no_duplicates(),
{
    if preference_fault(codecs, 0) is None {
        assert(codecs.take(0) =~= seq![]);
        lemma_preferences(codecs, 0);
        assert forall|i: int| 0 <= i < codecs.len() implies #[trigger] codecs[i]
            != Codec::Opus by {
            assert(codecs[i].media() == MediaType::Video);
        }
    }
    if (forall|i: int| 0 <= i < codecs.len() ==> #[trigger] codecs[i] != Codec::Opus)
        && codecs.no_duplicates() {
        lemma_no_preference_fault(codecs, 0);
    }
}

proof fn lemma_no_preference_fault(codecs: Seq<Codec>, at: int)
    requires
        0 <= at,
        forall|i: int| 0 <= i < codecs.len() ==> #[trigger] codecs[i] != Codec::Opus,
        codecs.no_duplicates(),
    ensures
        preference_fault(codecs, at) is None,
    decreases codecs.len() - at,
{
    if at < codecs.len() {
        if codecs.take(at).contains(codecs[at]) {
            let i = choose|i: int| 0 <= i < at && codecs.take(at)[i] == codecs[at];
            assert(codecs[i] == codecs[at]);
        }
        assert(codecs[at] != Codec::Opus);
        lemma_no_preference_fault(codecs, at + 1);
    }
}

/// The URL of a gateway holds the endpoint as it was given. Where the endpoint names a scheme
/// the URL begins with it, and else with a secure one; where the endpoint names a version
/// nothing is added behind it, and else the version is.
pub proof fn law_gateway_urls_hold_the_endpoint(endpoint: Seq<char>, version: u8)
    ensures
        ({
            let url = gateway_url(endpoint, version);
            let start: int = if holds(endpoint, "://"@) {
                0
            } else {
                6
            };
            &&& start + endpoint.len() <= url.len()
            &&& url.subrange(start, start + endpoint.len()) == endpoint
            &&& start == 6 ==> url[0] == 'w' && url[1] == 's' && url[2] == 's' && url[3] == ':'
                && url[4] == '/' && url[5] == '/'
            &&& holds(url, "?v="@) || (url.len() > decimal(version as nat).len() && url.skip(
                url.len() - decimal(version as nat).len(),
            ) == decimal(version as nat))
            &&& url.len() == start + endpoint.len() || url.len() > start + endpoint.len() + 2
        }),
{
    reveal_strlit("wss://");
    reveal_strlit("://");
    reveal_strlit("?v=");
    reveal_strlit("?");
    reveal_strlit("&");
    reveal_strlit("/?");
    reveal_strlit("v=");
    let url = gateway_url(endpoint, version);
    let base = if holds(endpoint, "://"@) {
        endpoint
    } else {
        "wss://"@ + endpoint
    };
    let start: int = if holds(endpoint, "://"@) {
        0
    } else {
        6
    };
    let digits = decimal(version as nat);
    assert(url.subrange(start, start + endpoint.len()) =~= endpoint);
    crate::text::law_decimals_stand_for_their_numbers(version as nat);
    if !holds(base, "?v="@) {
        assert(url.skip(url.len() - digits.len()) =~= digits);
    }
}

} // verus!
