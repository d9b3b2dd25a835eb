//! Pseudonyms, and the records that describe a finished session.

use crate::text::dec_text;
use crate::time::Timestamp;
use sha2::{Digest, Sha256};
use vstd::prelude::*;

verus! {

/// What a participant chose when presented with the consent prompt.
#[derive(Debug, Clone, Copy, PartialEq, Eq, Structural)]
pub enum ConsentScope {
    Full,
    DeclineAudio,
    Decline,
}

/// The SHA-256 digest of a byte string.
pub uninterp spec fn sha256_digest(data: Seq<u8>) -> Seq<u8>;

/// `sha2::Sha256::digest`: the 32 bytes of the digest.
#[verifier::external_body]
fn sha256(data: &[u8]) -> (digest: Vec<u8>)
    ensures
        digest@ == sha256_digest(data@),
        digest@.len() == 32,
{
    Sha256::digest(data).to_vec()
}

/// The lower-case character of a hexadecimal digit.
pub open spec fn hex_digit(d: int) -> char {
    if d < 10 {
        (48 + d) as char
    } else {
        (87 + d) as char
    }
}

/// Two lower-case hexadecimal digits for each byte, the high one first.
pub open spec fn hex_text(bytes: Seq<u8>) -> Seq<char> {
    Seq::new(
        2 * bytes.len(),
        |i: int|
            if i % 2 == 0 {
                hex_digit(bytes[i / 2] as int / 16)
            } else {
                hex_digit(bytes[i / 2] as int % 16)
            },
    )
}

/// `hex::encode`: two lower-case hexadecimal digits for each byte.
#[verifier::external_body]
fn hex_encode(bytes: &[u8]) -> (text: String)
    ensures
        text@ == hex_text(bytes@),
{
    hex::encode(bytes)
}

/// The bytes of an ASCII text.
pub open spec fn ascii_bytes(text: Seq<char>) -> Seq<u8> {
    text.map_values(|c: char| c as u8)
}

/// The pseudonym of a Discord user: the first eight bytes of the SHA-256 digest
/// of the decimal user id, in hexadecimal.
pub open spec fn pseudonym(user_id: u64) -> Seq<char> {
    hex_text(sha256_digest(ascii_bytes(dec_text(user_id as nat))).take(8))
}

/// A lower-case hexadecimal digit.
pub open spec fn is_hex_digit(c: char) -> bool {
    ('0' <= c && c <= '9') || ('a' <= c && c <= 'f')
}

/// The ASCII bytes of a decimal numeral.
fn dec_bytes(n: u64) -> (bytes: Vec<u8>)
    ensures
        bytes@ == ascii_bytes(dec_text(n as nat)),
    decreases n,
{
    let mut bytes: Vec<u8> = if n >= 10 {
        dec_bytes(n / 10)
    } else {
        Vec::new()
    };
    let d: u8 = (n % 10) as u8;
    bytes.push(48u8 + d);
    assert(bytes@ =~= ascii_bytes(dec_text(n as nat)));
    bytes
}

/// The stable pseudonym of a Discord user: sixteen hexadecimal characters.
pub fn pseudonymize(user_id: u64) -> (pseudo: String)
    ensures
        pseudo@ == pseudonym(user_id),
        pseudo@.len() == 16,
        forall|i: int| 0 <= i < 16 ==> is_hex_digit(#[trigger] pseudo@[i]),
{
    let digits = dec_bytes(user_id);
    let mut digest = sha256(digits.as_slice());
    let ghost whole = digest@;
    digest.truncate(8);
    assert(digest@ =~= whole.take(8));
    hex_encode(digest.as_slice())
}

/// A finished session, as `meta.json` describes it.
pub struct SessionMeta {
    pub session_id: String,
    pub started_at: Timestamp,
    pub ended_at: Option<Timestamp>,
    /// Whole milliseconds between start and end; zero for a session without an
    /// end. `meta.json` shows it in seconds.
    pub duration_ms: i64,
    pub game_system: Option<String>,
    pub campaign_name: Option<String>,
    pub session_number: Option<u32>,
    pub participant_count: usize,
    pub consented_audio_count: usize,
    pub audio_format: AudioFormat,
    pub participants: Vec<ParticipantMeta>,
}

/// How the audio of a session is encoded.
pub struct AudioFormat {
    pub sample_rate: u32,
    pub bit_depth: u16,
    pub channels: u8,
    pub codec: String,
    pub container: String,
}

impl AudioFormat {
    /// 48 kHz stereo, signed 16-bit little-endian samples, no container.
    pub open spec fn is_raw_pcm(self) -> bool {
        &&& self.sample_rate == 48000
        &&& self.bit_depth == 16
        &&& self.channels == 2
        &&& self.codec@ == "pcm_s16le"@
        &&& self.container@ == "raw"@
    }

    /// The format of every track.
    pub fn raw_pcm() -> (f: AudioFormat)
        ensures
            f.is_raw_pcm(),
    {
        AudioFormat {
            sample_rate: 48000,
            bit_depth: 16,
            channels: 2,
            codec: crate::text::owned("pcm_s16le"),
            container: crate::text::owned("raw"),
        }
    }
}

/// One participant, as `meta.json` describes them.
pub struct ParticipantMeta {
    pub pseudo_id: String,
    pub track_file: Option<String>,
    pub consent_scope: Option<ConsentScope>,
}

/// The consent choices of a session, as `consent.json` holds them.
pub struct ConsentRecord {
    pub session_id: String,
    pub consent_version: String,
    pub license: String,
    /// One entry per pseudonym.
    pub participants: Vec<(String, ConsentEntry)>,
}

/// One participant's choice.
pub struct ConsentEntry {
    pub consented_at: Option<String>,
    pub scope: Option<ConsentScope>,
    pub audio_release: bool,
    pub mid_session_join: bool,
}

} // verus!
