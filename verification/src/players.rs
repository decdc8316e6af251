//! Per-player statistics: the user-cache name lookup and the
//! statistics-file arithmetic.
//!
//! The JSON documents themselves are parsed by serde_json behind
//! trusted wrappers; a parsed value is opaque here, so the exact
//! contracts live on the plain-value functions that take the
//! extracted numbers and pairs: `steps_from_cm`, `ticks_played` and
//! `lookup_name`.

use vstd::prelude::*;

verus! {

#[verifier::external_type_specification]
#[verifier::external_body]
pub struct ExJsonValue(serde_json::Value);

/// Whether serde_json::from_str accepts the text as a JSON document;
/// that acceptance depends on the text alone.
pub uninterp spec fn is_valid_json(s: Seq<char>) -> bool;

/// Relies on serde_json::from_str: parses a JSON document, None when
/// the text is not valid JSON.
#[verifier::external_body]
fn parse_json(s: &str) -> (r: Option<serde_json::Value>)
    ensures
        r is Some <==> is_valid_json(s@),
{
    serde_json::from_str::<serde_json::Value>(s).ok()
}

/// Relies on serde_json::Value::get: the member under a key of an
/// object, None for a missing key or a non-object.
#[verifier::external_body]
fn json_get<'a>(v: &'a serde_json::Value, key: &str) -> (r: Option<&'a serde_json::Value>) {
    v.get(key)
}

/// Relies on serde_json::Value::as_u64: the value as an unsigned
/// integer when it is one, None otherwise.
#[verifier::external_body]
fn json_as_u64(v: &serde_json::Value) -> (r: Option<u64>) {
    v.as_u64()
}

/// Relies on serde_json::Value::as_str: the value's text when it is a
/// string, None otherwise.
#[verifier::external_body]
fn json_as_string(v: &serde_json::Value) -> (r: Option<String>) {
    match v.as_str() {
        Some(s) => Some(s.to_string()),
        None => None,
    }
}

/// Relies on serde_json::Value::as_array: the value's elements when
/// it is an array, None otherwise.
#[verifier::external_body]
fn json_as_array<'a>(v: &'a serde_json::Value) -> (r: Option<&'a Vec<serde_json::Value>>) {
    v.as_array()
}

/// One player's extracted statistics.
pub struct PlayerInfo {
    pub uuid: String,
    pub name: String,
    /// Time played, in game ticks (twenty per second).
    pub play_ticks: u64,
    /// Steps walked, at seventy-five centimetres a step.
    pub steps: u64,
}

/// Steps from centimetres walked: one step per 75 cm.
pub fn steps_from_cm(cm: u64) -> (r: u64)
    ensures
        r == cm / 75,
{
    cm / 75
}

/// Ticks played: the modern counter when present, else the legacy
/// one, else zero.
pub fn ticks_played(play_time: Option<u64>, play_one_minute: Option<u64>) -> (r: u64)
    ensures
        r == (match play_time {
            Some(t) => t,
            None => match play_one_minute {
                Some(t) => t,
                None => 0u64,
            },
        }),
{
    match play_time {
        Some(t) => t,
        None => match play_one_minute {
            Some(t) => t,
            None => 0,
        },
    }
}

/// The unsigned integer under `key`, if the member exists and is one.
fn get_u64_at(v: &serde_json::Value, key: &str) -> Option<u64> {
    match json_get(v, key) {
        Some(x) => json_as_u64(x),
        None => None,
    }
}

/// Build one player's record from their statistics file.  A record
/// comes back exactly when the document is valid JSON (a file that is
/// not is skipped); the given identity is passed through unchanged,
/// and missing counters read as zero.
pub fn player_record(uuid: String, name: String, stats_json: &str) -> (r: Option<PlayerInfo>)
    ensures
        r is Some <==> is_valid_json(stats_json@),
        match r {
            Some(p) => p.uuid@ == uuid@ && p.name@ == name@,
            None => true,
        },
{
    match parse_json(stats_json) {
        None => None,
        Some(v) => {
            let custom = match json_get(&v, "stats") {
                Some(s) => json_get(s, "minecraft:custom"),
                None => None,
            };
            match custom {
                Some(c) => {
                    let pt = get_u64_at(c, "minecraft:play_time");
                    let pom = get_u64_at(c, "minecraft:play_one_minute");
                    let ticks = ticks_played(pt, pom);
                    let cm = match get_u64_at(c, "minecraft:walk_one_cm") {
                        Some(x) => x,
                        None => 0,
                    };
                    let steps = steps_from_cm(cm);
                    Some(PlayerInfo { uuid, name, play_ticks: ticks, steps })
                },
                None => Some(PlayerInfo { uuid, name, play_ticks: 0, steps: 0 }),
            }
        },
    }
}

/// The uuid-to-name pairs of a user-cache document, in document
/// order; entries without both fields are skipped, as is a document
/// that is not a JSON array.
pub fn parse_usercache(content: &str) -> (r: Vec<(String, String)>)
    ensures
        !is_valid_json(content@) ==> r@.len() == 0,
{
    let mut out: Vec<(String, String)> = Vec::new();
    match parse_json(content) {
        None => out,
        Some(v) => {
            match json_as_array(&v) {
                None => out,
                Some(arr) => {
                    let n = arr.len();
                    let mut i: usize = 0;
                    while i < n
                        invariant
                            n == arr@.len(),
                            i <= n,
                        decreases n - i,
                    {
                        let u = match json_get(&arr[i], "uuid") {
                            Some(x) => json_as_string(x),
                            None => None,
                        };
                        let nm = match json_get(&arr[i], "name") {
                            Some(x) => json_as_string(x),
                            None => None,
                        };
                        match (u, nm) {
                            (Some(a), Some(b)) => out.push((a, b)),
                            _ => {},
                        }
                        i += 1;
                    }
                    out
                },
            }
        },
    }
}

/// The display name recorded for `uuid` among the first `i` pairs:
/// the second component of the last pair whose first component
/// equals it — the pair written last wins, as it does when the pairs
/// are read into a map by insertion — or the uuid itself when no
/// pair matches.
pub open spec fn name_for_upto(
    pairs: Seq<(Seq<char>, Seq<char>)>,
    uuid: Seq<char>,
    i: int,
) -> Seq<char>
    decreases i,
{
    if i <= 0 || i > pairs.len() {
        uuid
    } else if pairs[i - 1].0 == uuid {
        pairs[i - 1].1
    } else {
        name_for_upto(pairs, uuid, i - 1)
    }
}

/// View of string pairs as pairs of character sequences.
pub open spec fn name_pairs_view(v: Seq<(String, String)>) -> Seq<(Seq<char>, Seq<char>)> {
    Seq::new(v.len(), |i: int| (v[i].0@, v[i].1@))
}

fn lookup_upto(pairs: &Vec<(String, String)>, uuid: &String, i: usize) -> (r: String)
    requires
        i <= pairs@.len(),
    ensures
        r@ == name_for_upto(name_pairs_view(pairs@), uuid@, i as int),
    decreases i,
{
    if i == 0 {
        uuid.clone()
    } else if pairs[i - 1].0 == *uuid {
        pairs[i - 1].1.clone()
    } else {
        lookup_upto(pairs, uuid, i - 1)
    }
}

/// Resolve a uuid to its cached display name, falling back to the
/// uuid itself; exact with respect to `name_for_upto` over all the
/// pairs.
pub fn lookup_name(pairs: &Vec<(String, String)>, uuid: &String) -> (r: String)
    ensures
        r@ == name_for_upto(name_pairs_view(pairs@), uuid@, pairs@.len() as int),
{
    lookup_upto(pairs, uuid, pairs.len())
}

} // verus!
