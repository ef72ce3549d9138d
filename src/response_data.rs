//! The server-list status snapshot sent in a status response.

use vstd::prelude::*;
use vstd::string::StringExecFns;

verus! {

/// The standard base64 text of `b`.
pub uninterp spec fn base64_of(b: Seq<u8>) -> Seq<char>;

/// Relies on base64's `encode`: the standard, padded base64 text of the
/// bytes, which depends on the bytes alone: four characters for each started
/// group of three bytes.
#[verifier::external_body]
fn base64_text(b: &[u8]) -> (r: String)
    ensures
        r@ == base64_of(b@),
        r@.len() == 4 * ((b@.len() + 2) / 3),
{
    base64::encode(b)
}

pub const FAVICON_PREFIX: &'static str = "data:image/png;base64,";

/// The favicon as a data URI: the PNG bytes in base64 behind the PNG prefix.
pub fn favicon_uri(png: &[u8]) -> (r: String)
    ensures
        r@ == FAVICON_PREFIX@ + base64_of(png@),
        r@.len() == FAVICON_PREFIX@.len() + 4 * ((png@.len() + 2) / 3),
{
    let text = base64_text(png);
    let mut uri = String::from_str(FAVICON_PREFIX);
    uri.append(text.as_str());
    uri
}

pub const SERVER_VERSION_NAME: &'static str = "1.18.1";

pub const SERVER_MOTD: &'static str = "§l§nMycelium Server 0.0";

pub const PLAYERS_ONLINE: i32 = 10;

pub const SAMPLE_PLAYER_NAME: &'static str = "aa";

pub const SAMPLE_PLAYER_ID: &'static str = "00000000-0000-0000-0000-000000000000";

/// The snapshot answered to a status request made with protocol version
/// `protocol`: the server's version name with the client's protocol, the
/// message of the day, the player counts and sample, and the favicon URI.
pub fn status_data(protocol: u32, favicon: &String) -> (r: ResponseData)
    ensures
        r.version.name@ == SERVER_VERSION_NAME@,
        r.version.protocol == protocol,
        r.description.text@ == SERVER_MOTD@,
        r.players.max == i32::MAX,
        r.players.online == PLAYERS_ONLINE,
        r.players.sample@.len() == 1,
        r.players.sample@[0].name@ == SAMPLE_PLAYER_NAME@,
        r.players.sample@[0].id@ == SAMPLE_PLAYER_ID@,
        r.favicon matches Some(f) && f@ == favicon@,
{
    let sample = Sample {
        name: String::from_str(SAMPLE_PLAYER_NAME),
        id: String::from_str(SAMPLE_PLAYER_ID),
    };
    let mut samples: Vec<Sample> = Vec::new();
    samples.push(sample);
    let f = favicon.clone();
    ResponseData {
        version: Version { name: String::from_str(SERVER_VERSION_NAME), protocol },
        players: Players { max: i32::MAX, online: PLAYERS_ONLINE, sample: samples },
        description: Description { text: String::from_str(SERVER_MOTD) },
        favicon: Some(f),
    }
}

pub struct ResponseData {
    pub version: Version,
    pub players: Players,
    pub description: Description,
    /// A `data:image/png;base64,...` URI.
    pub favicon: Option<String>,
}

pub struct Version {
    pub name: String,
    pub protocol: u32,
}

pub struct Players {
    pub max: i32,
    pub online: i32,
    pub sample: Vec<Sample>,
}

pub struct Sample {
    pub name: String,
    pub id: String,
}

pub struct Description {
    pub text: String,
}

} // verus!
