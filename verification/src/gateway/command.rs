//! What this end tells the gateway.

use super::opcode::Opcode;
use super::value::DiscordId;
use crate::bytes::push_range;
use crate::codec::{Codec, MediaType};
use crate::codecs::{descriptor, payload_number, rtx_number, wire_name};
use crate::errors::{Error, ProtocolError};
use crate::rtp::RtpPayloadType;
use crate::state::config::video_preferences;
use crate::state::{
    ConnectionCodecPreferences, EncryptionMode, ValidatedConnectionConfig,
};
use crate::text::{append_decimal, append_signed, copy_text, decimal, signed_decimal};
use vstd::prelude::*;

verus! {

pub const PRIMARY_VIDEO_QUALITY: u8 = 100;

pub const OPUS_SELECT_PROTOCOL_PRIORITY: u32 = 1_000;

pub const VIDEO_SELECT_PROTOCOL_PRIORITY_BASE: u32 = 2_000;

pub const SELECT_PROTOCOL_PRIORITY_STEP: u32 = 1_000;

/// A digit of a number in base 16, in lower case.
pub open spec fn hex_digit(digit: int) -> char {
    if digit < 10 {
        ('0' as int + digit) as char
    } else {
        ('a' as int + (digit - 10)) as char
    }
}

/// How a character is written in a JSON string: a quote, a backslash and the control
/// characters are escaped, in two characters where there is such an escape, and any other
/// one stands for itself.
pub open spec fn json_char(c: char) -> Seq<char> {
    if c == '"' || c == '\\' {
        seq!['\\', c]
    } else if c as int >= 0x20 {
        seq![c]
    } else if c as int == 0x08 {
        seq!['\\', 'b']
    } else if c == '\t' {
        seq!['\\', 't']
    } else if c == '\n' {
        seq!['\\', 'n']
    } else if c as int == 0x0c {
        seq!['\\', 'f']
    } else if c == '\r' {
        seq!['\\', 'r']
    } else {
        seq!['\\', 'u', '0', '0', hex_digit(c as int / 16), hex_digit(c as int % 16)]
    }
}

/// A text as it stands between the quotes of a JSON string.
pub open spec fn json_escaped(text: Seq<char>) -> Seq<char>
    decreases text.len(),
{
    if text.len() == 0 {
        seq![]
    } else {
        json_escaped(text.drop_last()) + json_char(text.last())
    }
}

/// A text as a JSON string, quoted and escaped.
pub open spec fn json_string(text: Seq<char>) -> Seq<char> {
    seq!['"'] + json_escaped(text) + seq!['"']
}

/// `serde_json::to_string` on a text: the text between quotes, each of its characters
/// written as `json_char` says. It fails on no text.
#[verifier::external_body]
fn json_text(text: &str) -> (json: String)
    ensures
        json@ == json_string(text@),
{
    serde_json::to_string(text).expect("every text is a JSON string")
}

#[derive(Clone, Copy, Debug, PartialEq, Eq, Structural)]
pub struct SpeakingCommand {
    pub speaking: u8,
    pub delay: Option<u32>,
    pub ssrc: u32,
    pub user_id: Option<DiscordId>,
}

#[derive(Clone, Copy, Debug, PartialEq, Eq, Structural)]
pub struct HeartbeatCommand {
    pub t: u64,
    pub seq_ack: Option<i64>,
}

#[derive(Clone, Copy, Debug, PartialEq, Eq, Structural)]
pub struct DaveTransitionReadyCommand {
    pub transition_id: u16,
}

#[derive(Clone, Copy, Debug, PartialEq, Eq, Structural)]
pub struct DaveInvalidCommitWelcomeCommand {
    pub transition_id: u16,
}

/// The address that media goes to, the encryption, and the codecs.
#[derive(Debug, PartialEq, Eq)]
pub struct SelectProtocolCommand {
    pub data: SelectProtocolData,
    pub codecs: Vec<SelectProtocolCodec>,
}

#[derive(Debug, PartialEq, Eq)]
pub struct SelectProtocolData {
    pub address: String,
    pub port: u16,
    pub mode: EncryptionMode,
}

#[derive(Clone, Copy, Debug, PartialEq, Eq)]
pub struct SelectProtocolCodec {
    pub name: &'static str,
    pub media_type: &'static str,
    pub priority: u32,
    pub payload_type: RtpPayloadType,
    pub rtx_payload_type: Option<RtpPayloadType>,
    pub encode: bool,
    pub decode: bool,
}

#[derive(Debug, PartialEq, Eq)]
pub enum GatewayCommand {
    SelectProtocol(SelectProtocolCommand),
    Speaking(SpeakingCommand),
    Heartbeat(HeartbeatCommand),
    DaveProtocolTransitionReady(DaveTransitionReadyCommand),
    DaveMlsKeyPackage { key_package: Vec<u8> },
    DaveMlsCommitWelcome { commit: Vec<u8>, welcome: Option<Vec<u8>> },
    DaveMlsInvalidCommitWelcome(DaveInvalidCommitWelcomeCommand),
}

/// The text of a message: its opcode and its data.
pub open spec fn payload_text(opcode: Opcode, data: Seq<char>) -> Seq<char> {
    "{\"op\":"@ + decimal(opcode.number() as nat) + ",\"d\":"@ + data + "}"@
}

impl HeartbeatCommand {
    pub open spec fn data(self) -> Seq<char> {
        "{\"t\":"@ + decimal(self.t as nat) + ",\"seq_ack\":"@ + (match self.seq_ack {
            Some(seq) => signed_decimal(seq as int),
            None => "null"@,
        }) + "}"@
    }

    fn append_data(&self, text: &mut String)
        ensures
            final(text)@ == old(text)@ + self.data(),
    {
        text.append("{\"t\":");
        append_decimal(text, self.t);
        text.append(",\"seq_ack\":");
        match self.seq_ack {
            Some(seq) => append_signed(text, seq),
            None => text.append("null"),
        }
        text.append("}");
        assert(text@ =~= old(text)@ + self.data());
    }
}

impl SpeakingCommand {
    pub open spec fn data(self) -> Seq<char> {
        "{\"speaking\":"@ + decimal(self.speaking as nat) + (match self.delay {
            Some(delay) => ",\"delay\":"@ + decimal(delay as nat),
            None => seq![],
        }) + ",\"ssrc\":"@ + decimal(self.ssrc as nat) + (match self.user_id {
            Some(id) => ",\"user_id\":\""@ + decimal(id@ as nat) + "\""@,
            None => seq![],
        }) + "}"@
    }

    fn append_data(&self, text: &mut String)
        ensures
            final(text)@ == old(text)@ + self.data(),
    {
        text.append("{\"speaking\":");
        append_decimal(text, self.speaking as u64);
        if let Some(delay) = self.delay {
            text.append(",\"delay\":");
            append_decimal(text, delay as u64);
        }
        text.append(",\"ssrc\":");
        append_decimal(text, self.ssrc as u64);
        if let Some(id) = self.user_id {
            text.append(",\"user_id\":\"");
            append_decimal(text, id.get());
            text.append("\"");
        }
        text.append("}");
        assert(text@ =~= old(text)@ + self.data());
    }
}

pub open spec fn transition_data(transition_id: u16) -> Seq<char> {
    "{\"transition_id\":"@ + decimal(transition_id as nat) + "}"@
}

fn append_transition(text: &mut String, transition_id: u16)
    ensures
        final(text)@ == old(text)@ + transition_data(transition_id),
{
    text.append("{\"transition_id\":");
    append_decimal(text, transition_id as u64);
    text.append("}");
    assert(text@ =~= old(text)@ + transition_data(transition_id));
}

pub open spec fn truth(value: bool) -> Seq<char> {
    if value {
        "true"@
    } else {
        "false"@
    }
}

fn append_truth(text: &mut String, value: bool)
    ensures
        final(text)@ == old(text)@ + truth(value),
{
    if value {
        text.append("true");
    } else {
        text.append("false");
    }
}

impl SelectProtocolCodec {
    /// How a codec is offered.
    pub open spec fn offers(self, codec: Codec, priority: u32) -> bool {
        &&& self.name == wire_name(codec)
        &&& self.media_type@ == codec.media().name()
        &&& self.priority == priority
        &&& self.payload_type == RtpPayloadType::of(payload_number(codec))
        &&& self.rtx_payload_type == (match rtx_number(codec) {
            Some(number) => Some(RtpPayloadType::of(number)),
            None => None,
        })
        &&& self.encode
        &&& self.decode
    }

    fn from_codec(codec: Codec, priority: u32) -> (offer: Self)
        ensures
            offer.offers(codec, priority),
    {
        let descriptor = descriptor(codec);
        SelectProtocolCodec {
            name: descriptor.wire_name,
            media_type: codec.media_type().as_str(),
            priority,
            payload_type: descriptor.payload_type,
            rtx_payload_type: descriptor.rtx_payload_type,
            encode: true,
            decode: true,
        }
    }

    pub open spec fn data(self) -> Seq<char> {
        "{\"name\":\""@ + self.name@ + "\",\"type\":\""@ + self.media_type@ + "\",\"priority\":"@
            + decimal(self.priority as nat) + ",\"payload_type\":"@ + decimal(
            self.payload_type@ as nat,
        ) + (match self.rtx_payload_type {
            Some(number) => ",\"rtx_payload_type\":"@ + decimal(number@ as nat),
            None => seq![],
        }) + ",\"encode\":"@ + truth(self.encode) + ",\"decode\":"@ + truth(self.decode) + "}"@
    }

    fn rtx_part(&self) -> (text: String)
        ensures
            text@ == (match self.rtx_payload_type {
                Some(number) => ",\"rtx_payload_type\":"@ + decimal(number@ as nat),
                None => seq![],
            }),
    {
        match self.rtx_payload_type {
            Some(number) => {
                let mut text = copy_text(",\"rtx_payload_type\":");
                append_decimal(&mut text, number.get() as u64);
                text
            },
            None => {
                let text = String::new();
                assert(text@ =~= seq![]);
                text
            },
        }
    }

    fn text(&self) -> (text: String)
        ensures
            text@ == self.data(),
    {
        let mut text = copy_text("{\"name\":\"");
        text.append(self.name);
        text.append("\",\"type\":\"");
        text.append(self.media_type);
        text.append("\",\"priority\":");
        append_decimal(&mut text, self.priority as u64);
        text.append(",\"payload_type\":");
        append_decimal(&mut text, self.payload_type.get() as u64);
        let rtx = self.rtx_part();
        text.append(rtx.as_str());
        text.append(",\"encode\":");
        append_truth(&mut text, self.encode);
        text.append(",\"decode\":");
        append_truth(&mut text, self.decode);
        text.append("}");
        text
    }
}

/// Codecs as the members of a list.
pub open spec fn codecs_data(codecs: Seq<SelectProtocolCodec>) -> Seq<char>
    decreases codecs.len(),
{
    if codecs.len() == 0 {
        seq![]
    } else if codecs.len() == 1 {
        codecs[0].data()
    } else {
        codecs_data(codecs.drop_last()) + ","@ + codecs.last().data()
    }
}

fn append_codecs(text: &mut String, codecs: &Vec<SelectProtocolCodec>)
    ensures
        final(text)@ == old(text)@ + codecs_data(codecs@),
{
    let len = codecs.len();
    let ghost before = text@;
    let mut i: usize = 0;
    assert(text@ =~= before + codecs_data(codecs@.take(0)));
    while i < len
        invariant
            len == codecs@.len(),
            i <= len,
            text@ == before + codecs_data(codecs@.take(i as int)),
        decreases len - i,
    {
        if i > 0 {
            text.append(",");
        }
        let codec = codecs[i].text();
        text.append(codec.as_str());
        proof {
            let next = codecs@.take(i + 1);
            assert(next.drop_last() =~= codecs@.take(i as int));
            assert(next.last() == codecs@[i as int]);
            assert(text@ =~= before + codecs_data(next));
        }
        i = i + 1;
    }
    assert(codecs@.take(i as int) =~= codecs@);
}

/// Whether these are the codecs that are offered for some preferences: none without
/// video; otherwise Opus, then the video codecs, the preferred ones first.
pub open spec fn offered_codecs(codecs: Seq<SelectProtocolCodec>, preferences: Seq<Codec>) -> bool {
    if preferences.len() == 0 {
        codecs.len() == 0
    } else {
        &&& codecs.len() == preferences.len() + 1
        &&& codecs[0].offers(Codec::Opus, 1_000)
        &&& forall|i: int|
            0 <= i < preferences.len() ==> codecs[i + 1].offers(
                #[trigger] preferences[i],
                (2_000 + 1_000 * i) as u32,
            )
    }
}

proof fn lemma_few_video_codecs(codecs: Seq<Codec>)
    requires
        video_preferences(codecs),
    ensures
        codecs.len() <= 5,
{
    let all = set![Codec::Vp8, Codec::Vp9, Codec::H264, Codec::H265, Codec::Av1];
    assert(codecs.to_set().subset_of(all)) by {
        assert forall|codec: Codec| codecs.to_set().contains(codec) implies all.contains(codec) by {
            let i = choose|i: int| 0 <= i < codecs.len() && codecs[i] == codec;
            assert(codecs[i].media() == MediaType::Video);
        }
    }
    codecs.unique_seq_to_set();
    vstd::set_lib::lemma_len_subset(codecs.to_set(), all);
}

fn select_protocol_codecs(codec_preferences: &ConnectionCodecPreferences) -> (codecs: Vec<
    SelectProtocolCodec,
>)
    ensures
        offered_codecs(codecs@, codec_preferences@),
{
    let mut codecs: Vec<SelectProtocolCodec> = Vec::new();
    if !codec_preferences.video_enabled() {
        return codecs;
    }
    codecs.push(SelectProtocolCodec::from_codec(Codec::Opus, OPUS_SELECT_PROTOCOL_PRIORITY));
    let video = codec_preferences.video_codecs();
    proof {
        lemma_few_video_codecs(video@);
    }
    let len = video.len();
    let mut i: usize = 0;
    while i < len
        invariant
            len == video@.len(),
            len <= 5,
            i <= len,
            codecs@.len() == i + 1,
            codecs@[0].offers(Codec::Opus, 1_000),
            forall|j: int|
                0 <= j < i ==> codecs@[j + 1].offers(
                    #[trigger] video@[j],
                    (2_000 + 1_000 * j) as u32,
                ),
        decreases len - i,
    {
        let priority: u32 = VIDEO_SELECT_PROTOCOL_PRIORITY_BASE + (i as u32)
            * SELECT_PROTOCOL_PRIORITY_STEP;
        let ghost before = codecs@;
        codecs.push(SelectProtocolCodec::from_codec(video[i], priority));
        assert forall|j: int| 0 <= j <= i implies codecs@[j + 1].offers(
            #[trigger] video@[j],
            (2_000 + 1_000 * j) as u32,
        ) by {
            if j < i {
                assert(codecs@[j + 1] == before[j + 1]);
            }
        }
        i = i + 1;
    }
    codecs
}

impl SelectProtocolCommand {
    /// Media by UDP.
    pub fn udp(
        address: String,
        port: u16,
        mode: EncryptionMode,
        codec_preferences: &ConnectionCodecPreferences,
    ) -> (command: Self)
        ensures
            command.data == (SelectProtocolData { address, port, mode }),
            offered_codecs(command.codecs@, codec_preferences@),
    {
        SelectProtocolCommand {
            data: SelectProtocolData { address, port, mode },
            codecs: select_protocol_codecs(codec_preferences),
        }
    }

    /// The codecs, where there are any.
    pub open spec fn codecs_part(self) -> Seq<char> {
        if self.codecs@.len() == 0 {
            seq![]
        } else {
            ",\"codecs\":["@ + codecs_data(self.codecs@) + "]"@
        }
    }

    pub open spec fn data(self) -> Seq<char> {
        "{\"protocol\":\"udp\",\"data\":{\"address\":"@ + json_string(self.data.address@)
            + ",\"port\":"@ + decimal(self.data.port as nat) + ",\"mode\":\""@
            + self.data.mode.name() + "\"}"@ + self.codecs_part() + "}"@
    }

    fn append_data(&self, text: &mut String)
        ensures
            final(text)@ == old(text)@ + self.data(),
    {
        text.append("{\"protocol\":\"udp\",\"data\":{\"address\":");
        let address = json_text(self.data.address.as_str());
        text.append(address.as_str());
        text.append(",\"port\":");
        append_decimal(text, self.data.port as u64);
        text.append(",\"mode\":\"");
        text.append(self.data.mode.as_str());
        text.append("\"}");
        let ghost middle = text@;
        if self.codecs.len() > 0 {
            text.append(",\"codecs\":[");
            append_codecs(text, &self.codecs);
            text.append("]");
        }
        assert(text@ =~= middle + self.codecs_part());
        text.append("}");
        assert(text@ =~= old(text)@ + self.data());
    }
}

impl GatewayCommand {
    pub open spec fn code(self) -> Opcode {
        match self {
            GatewayCommand::SelectProtocol(_) => Opcode::SelectProtocol,
            GatewayCommand::Speaking(_) => Opcode::Speaking,
            GatewayCommand::Heartbeat(_) => Opcode::Heartbeat,
            GatewayCommand::DaveProtocolTransitionReady(_) => Opcode::DaveTransitionReady,
            GatewayCommand::DaveMlsKeyPackage { .. } => Opcode::DaveMlsKeyPackage,
            GatewayCommand::DaveMlsCommitWelcome { .. } => Opcode::DaveMlsCommitWelcome,
            GatewayCommand::DaveMlsInvalidCommitWelcome(_) => Opcode::DaveMlsInvalidCommitWelcome,
        }
    }

    pub fn opcode(&self) -> (opcode: Opcode)
        ensures
            opcode == self.code(),
    {
        match self {
            GatewayCommand::SelectProtocol(_) => Opcode::SelectProtocol,
            GatewayCommand::Speaking(_) => Opcode::Speaking,
            GatewayCommand::Heartbeat(_) => Opcode::Heartbeat,
            GatewayCommand::DaveProtocolTransitionReady(_) => Opcode::DaveTransitionReady,
            GatewayCommand::DaveMlsKeyPackage { .. } => Opcode::DaveMlsKeyPackage,
            GatewayCommand::DaveMlsCommitWelcome { .. } => Opcode::DaveMlsCommitWelcome,
            GatewayCommand::DaveMlsInvalidCommitWelcome(_) => Opcode::DaveMlsInvalidCommitWelcome,
        }
    }

    /// The data of a command that goes in a text frame.
    pub open spec fn text_data(self) -> Option<Seq<char>> {
        match self {
            GatewayCommand::SelectProtocol(command) => Some(command.data()),
            GatewayCommand::Speaking(command) => Some(command.data()),
            GatewayCommand::Heartbeat(command) => Some(command.data()),
            GatewayCommand::DaveProtocolTransitionReady(command) => Some(
                transition_data(command.transition_id),
            ),
            GatewayCommand::DaveMlsInvalidCommitWelcome(command) => Some(
                transition_data(command.transition_id),
            ),
            GatewayCommand::DaveMlsKeyPackage { .. } => None,
            GatewayCommand::DaveMlsCommitWelcome { .. } => None,
        }
    }

    /// The text frame of a command; key packages, commits and welcomes have none.
    pub fn text_payload(&self) -> (payload: Result<String, Error>)
        ensures
            match self.text_data() {
                Some(data) => payload matches Ok(text) && text@ == payload_text(self.code(), data),
                None => payload == Err::<String, Error>(
                    Error::Protocol(ProtocolError::TextPayloadRequiresBinaryDaveMlsCommand),
                ),
            },
    {
        let mut text = begin_payload(self.opcode());
        match self {
            GatewayCommand::SelectProtocol(command) => command.append_data(&mut text),
            GatewayCommand::Speaking(command) => command.append_data(&mut text),
            GatewayCommand::Heartbeat(command) => command.append_data(&mut text),
            GatewayCommand::DaveProtocolTransitionReady(command) => {
                append_transition(&mut text, command.transition_id)
            },
            GatewayCommand::DaveMlsInvalidCommitWelcome(command) => {
                append_transition(&mut text, command.transition_id)
            },
            GatewayCommand::DaveMlsKeyPackage { .. } => {
                return Err(Error::Protocol(ProtocolError::TextPayloadRequiresBinaryDaveMlsCommand));
            },
            GatewayCommand::DaveMlsCommitWelcome { .. } => {
                return Err(Error::Protocol(ProtocolError::TextPayloadRequiresBinaryDaveMlsCommand));
            },
        }
        text.append("}");
        Ok(text)
    }

    /// What goes behind the opcode in a binary frame.
    pub open spec fn binary_data(self) -> Option<Seq<u8>> {
        match self {
            GatewayCommand::DaveMlsKeyPackage { key_package } => Some(key_package@),
            GatewayCommand::DaveMlsCommitWelcome { commit, welcome } => Some(
                commit@ + (match welcome {
                    Some(welcome) => welcome@,
                    None => seq![],
                }),
            ),
            _ => None,
        }
    }

    /// The binary frame of a key package, or of a commit and a welcome.
    pub fn binary_payload(&self) -> (payload: Option<Vec<u8>>)
        ensures
            match self.binary_data() {
                Some(data) => payload matches Some(bytes) && bytes@ == seq![self.code().number()]
                    + data,
                None => payload is None,
            },
    {
        let mut bytes: Vec<u8> = Vec::new();
        bytes.push(self.opcode().byte());
        match self {
            GatewayCommand::DaveMlsKeyPackage { key_package } => {
                push_range(&mut bytes, key_package.as_slice(), 0, key_package.len());
                assert(bytes@ =~= seq![self.code().number()] + key_package@);
                Some(bytes)
            },
            GatewayCommand::DaveMlsCommitWelcome { commit, welcome } => {
                push_range(&mut bytes, commit.as_slice(), 0, commit.len());
                if let Some(welcome) = welcome {
                    push_range(&mut bytes, welcome.as_slice(), 0, welcome.len());
                }
                assert(bytes@ =~= seq![self.code().number()] + self.binary_data()->0);
                Some(bytes)
            },
            _ => None,
        }
    }
}

fn begin_payload(opcode: Opcode) -> (text: String)
    ensures
        text@ == "{\"op\":"@ + decimal(opcode.number() as nat) + ",\"d\":"@,
{
    let mut text = String::new();
    text.append("{\"op\":");
    append_decimal(&mut text, opcode.code());
    text.append(",\"d\":");
    assert(text@ =~= "{\"op\":"@ + decimal(opcode.number() as nat) + ",\"d\":"@);
    text
}

/// The video part of an identification: that there is video, and the one stream.
pub open spec fn identify_video(video: bool) -> Seq<char> {
    if video {
        ",\"video\":true,\"streams\":[{\"type\":\"video\",\"rid\":\"100\",\"quality\":100,\"active\":true}]"@
    } else {
        seq![]
    }
}

pub open spec fn identify_data(config: ValidatedConnectionConfig) -> Seq<char> {
    "{\"server_id\":\""@ + decimal(config.identity.guild_id as nat) + "\",\"user_id\":\""@
        + decimal(config.identity.user_id as nat) + "\",\"session_id\":"@ + json_string(
        config.secrets.session_id@,
    ) + ",\"token\":"@ + json_string(config.secrets.token@) + identify_video(
        config.options.codec_preferences@.len() > 0,
    ) + (match config.options.max_dave_protocol_version {
        Some(version) => ",\"max_dave_protocol_version\":"@ + decimal(version as nat),
        None => seq![],
    }) + "}"@
}

/// The message that says who connects.
pub fn identify_payload(config: &ValidatedConnectionConfig) -> (payload: String)
    ensures
        payload@ == payload_text(Opcode::Identify, identify_data(*config)),
{
    let mut text = begin_payload(Opcode::Identify);
    let ghost head = text@;
    text.append("{\"server_id\":\"");
    append_decimal(&mut text, config.identity.guild_id);
    text.append("\",\"user_id\":\"");
    append_decimal(&mut text, config.identity.user_id);
    text.append("\",\"session_id\":");
    let session_id = json_text(config.secrets.session_id.as_str());
    text.append(session_id.as_str());
    text.append(",\"token\":");
    let token = json_text(config.secrets.token.as_str());
    text.append(token.as_str());
    let ghost middle = text@;
    if config.options.codec_preferences.video_enabled() {
        text.append(
            ",\"video\":true,\"streams\":[{\"type\":\"video\",\"rid\":\"100\",\"quality\":100,\"active\":true}]",
        );
    }
    assert(text@ =~= middle + identify_video(config.options.codec_preferences@.len() > 0));
    let ghost later = text@;
    if let Some(version) = config.options.max_dave_protocol_version {
        text.append(",\"max_dave_protocol_version\":");
        append_decimal(&mut text, version as u64);
    }
    assert(text@ =~= later + (match config.options.max_dave_protocol_version {
        Some(version) => ",\"max_dave_protocol_version\":"@ + decimal(version as nat),
        None => seq![],
    }));
    text.append("}");
    assert(text@ =~= head + identify_data(*config));
    text.append("}");
    text
}

/// What is offered are Opus, whose number comes first, and the preferred video codecs in
/// their order: each with its name and number, its rank, and for video a number for what is
/// sent again that follows its own.
pub proof fn law_offers_are_ranked(
    codecs: Seq<SelectProtocolCodec>,
    preferences: Seq<Codec>,
    i: int,
)
    requires
        offered_codecs(codecs, preferences),
        video_preferences(preferences),
        0 <= i < codecs.len(),
    ensures
        codecs[i].priority == 1_000 * (i + 1),
        i == 0 ==> codecs[i].name@ == "opus"@ && codecs[i].rtx_payload_type is None
            && codecs[i].payload_type@ == 120,
        i > 0 ==> codecs[i].name == wire_name(preferences[i - 1]),
        i > 0 ==> (codecs[i].rtx_payload_type matches Some(rtx) && rtx@
            == codecs[i].payload_type@ + 1),
        codecs[i].encode && codecs[i].decode,
        forall|j: int|
            0 <= j < codecs.len() && j != i ==> (#[trigger] codecs[j]).payload_type
                != codecs[i].payload_type,
{
    lemma_few_video_codecs(preferences);
    crate::rtp::payload_type_of_number(120);
    if i > 0 {
        assert(codecs[i - 1 + 1].offers(preferences[i - 1], (2_000 + 1_000 * (i - 1)) as u32));
        assert(preferences[i - 1].media() == MediaType::Video);
        crate::rtp::payload_type_of_number(payload_number(preferences[i - 1]));
        crate::rtp::payload_type_of_number((payload_number(preferences[i - 1]) + 1) as u8);
    }
    assert forall|j: int| 0 <= j < codecs.len() && j != i implies (#[trigger] codecs[j]).payload_type
        != codecs[i].payload_type by {
        if j > 0 {
            assert(codecs[j - 1 + 1].offers(preferences[j - 1], (2_000 + 1_000 * (j - 1)) as u32));
            assert(preferences[j - 1].media() == MediaType::Video);
            crate::rtp::payload_type_of_number(payload_number(preferences[j - 1]));
        }
        if i > 0 && j > 0 {
            assert(preferences[i - 1] != preferences[j - 1]);
            crate::codecs::law_payload_numbers_are_distinct(
                preferences[i - 1],
                payload_number(preferences[j - 1]),
            );
            crate::codecs::law_payload_numbers_are_distinct(
                preferences[j - 1],
                payload_number(preferences[j - 1]),
            );
        }
    }
}

/// Without video no codecs are offered, and with video there is one offer more than there are
/// preferences.
pub proof fn law_codecs_are_offered_with_video(
    codecs: Seq<SelectProtocolCodec>,
    preferences: Seq<Codec>,
)
    requires
        offered_codecs(codecs, preferences),
    ensures
        preferences.len() == 0 ==> codecs.len() == 0,
        preferences.len() > 0 ==> codecs.len() == preferences.len() + 1,
{
}

/// Every command goes either in a text frame or in a binary one: key packages, and commits
/// with their welcomes behind them, go as they are behind their opcodes.
pub proof fn law_commands_go_as_text_or_as_bytes(command: GatewayCommand)
    ensures
        command.text_data() is Some == command.binary_data() is None,
        command.binary_data() is Some ==> command.code().number() == 26 || command.code().number()
            == 28,
        command matches GatewayCommand::DaveMlsKeyPackage { key_package } ==> command.binary_data()
            == Some(key_package@) && command.code().number() == 26,
        command matches GatewayCommand::DaveMlsCommitWelcome { commit, welcome } ==> {
            &&& command.code().number() == 28
            &&& command.binary_data() matches Some(data)
            &&& data.take(commit@.len() as int) == commit@
            &&& welcome matches Some(welcome) ==> data.skip(commit@.len() as int) == welcome@
            &&& welcome is None ==> data == commit@
        },
        command is SelectProtocol ==> command.code().number() == 1,
        command is Speaking ==> command.code().number() == 5,
        command is Heartbeat ==> command.code().number() == 3,
        command is DaveProtocolTransitionReady ==> command.code().number() == 23,
        command is DaveMlsInvalidCommitWelcome ==> command.code().number() == 31,
{
    if let GatewayCommand::DaveMlsCommitWelcome { commit, welcome } = command {
        let data = command.binary_data()->0;
        assert(data.take(commit@.len() as int) =~= commit@);
        match welcome {
            Some(welcome) => {
                assert(data.skip(commit@.len() as int) =~= welcome@);
            },
            None => {
                assert(data =~= commit@);
            },
        }
    }
}

} // verus!
