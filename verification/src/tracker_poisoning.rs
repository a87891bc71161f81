//! Tracker poisoning: plausible fake browser data to hand to trackers
//! instead of blocking them.

use vstd::prelude::*;
use vstd::string::StringSliceAdditionalSpecFns;
use rand::Rng;
use rand::seq::SliceRandom;
use http::{HeaderMap, HeaderValue};
use crate::text::{decimal, owned, push_all, push_decimal, push_str, string_from_chars};

verus! {

// ---------------------------------------------------------------------------
// Randomness
// ---------------------------------------------------------------------------

/// `rand::seq::SliceRandom::choose` with the thread-local generator: one
/// element of the non-empty slice `items`, picked at random.
#[verifier::external_body]
fn choose_from<T>(items: &[T]) -> (r: &T)
    requires
        items@.len() > 0,
    ensures
        items@.contains(*r),
{
    items.choose(&mut rand::thread_rng()).unwrap()
}

/// `rand::Rng::gen_range` with the thread-local generator: a random number
/// in `low..high`.
#[verifier::external_body]
fn random_in(low: u32, high: u32) -> (r: u32)
    requires
        low < high,
    ensures
        low <= r < high,
{
    rand::thread_rng().gen_range(low..high)
}

/// An ASCII letter or digit.
pub open spec fn is_alphanumeric_byte(b: u8) -> bool {
    (48 <= b <= 57) || (65 <= b <= 90) || (97 <= b <= 122)
}

/// `rand::distributions::Alphanumeric` sampled with the thread-local
/// generator: a random ASCII letter or digit.
#[verifier::external_body]
fn random_alphanumeric() -> (r: u8)
    ensures
        is_alphanumeric_byte(r),
{
    rand::thread_rng().sample(rand::distributions::Alphanumeric)
}

/// An ASCII letter or digit.
pub open spec fn is_alphanumeric_char(c: char) -> bool {
    ('0' <= c && c <= '9') || ('A' <= c && c <= 'Z') || ('a' <= c && c <= 'z')
}

/// A lower-case hexadecimal digit.
pub open spec fn is_lower_hex(c: char) -> bool {
    ('0' <= c && c <= '9') || ('a' <= c && c <= 'f')
}

/// The text of a version-4 UUID: 36 characters, hyphens at positions 8, 13,
/// 18 and 23, lower-case hexadecimal digits elsewhere, `4` at position 14
/// (the version) and one of `8`, `9`, `a`, `b` at position 19 (the variant).
pub open spec fn is_uuid_v4_text(s: Seq<char>) -> bool {
    &&& s.len() == 36
    &&& forall|i: int|
        0 <= i < 36 ==> if i == 8 || i == 13 || i == 18 || i == 23 {
            s[i] == '-'
        } else {
            is_lower_hex(#[trigger] s[i])
        }
    &&& s[14] == '4'
    &&& (s[19] == '8' || s[19] == '9' || s[19] == 'a' || s[19] == 'b')
}

/// `uuid::Uuid::new_v4` written with `Display`: a random version-4 UUID in
/// its hyphenated lower-case form.
#[verifier::external_body]
fn new_uuid_v4_text() -> (r: String)
    ensures
        is_uuid_v4_text(r@),
{
    uuid::Uuid::new_v4().to_string()
}

// ---------------------------------------------------------------------------
// Configuration
// ---------------------------------------------------------------------------

/// Tracker-poisoning settings.
#[derive(Debug, Clone)]
pub struct TrackerPoisoningConfig {
    pub enabled: bool,
    pub randomize_user_agent: bool,
    pub randomize_fingerprint: bool,
    pub fake_geolocation: bool,
    pub fake_tracking_cookies: bool,
    pub fake_screen_resolution: bool,
    pub rotation_interval_minutes: u64,
}

impl TrackerPoisoningConfig {
    /// Whether a fake profile that has been in use for `elapsed_secs`
    /// seconds is due for rotation: at least the rotation interval has passed.
    pub fn rotation_due(&self, elapsed_secs: u64) -> (r: bool)
        requires
            self.rotation_interval_minutes * 60 <= u64::MAX,
        ensures
            r == (elapsed_secs >= self.rotation_interval_minutes * 60),
    {
        elapsed_secs >= self.rotation_interval_minutes * 60
    }
}

impl Default for TrackerPoisoningConfig {
    fn default() -> (r: Self)
        ensures
            r.enabled,
            r.randomize_user_agent,
            r.randomize_fingerprint,
            r.fake_geolocation,
            r.fake_tracking_cookies,
            r.fake_screen_resolution,
            r.rotation_interval_minutes == 30,
    {
        TrackerPoisoningConfig {
            enabled: true,
            randomize_user_agent: true,
            randomize_fingerprint: true,
            fake_geolocation: true,
            fake_tracking_cookies: true,
            fake_screen_resolution: true,
            rotation_interval_minutes: 30,
        }
    }
}

// ---------------------------------------------------------------------------
// The values fake data is drawn from
// ---------------------------------------------------------------------------

/// The user agents a fake profile may claim.
pub open spec fn fake_user_agents() -> Seq<Seq<char>> {
    seq![
        "Mozilla/5.0 (Windows NT 10.0; Win64; x64) AppleWebKit/537.36 (KHTML, like Gecko) Chrome/120.0.0.0 Safari/537.36"@,
        "Mozilla/5.0 (Windows NT 10.0; Win64; x64; rv:121.0) Gecko/20100101 Firefox/121.0"@,
        "Mozilla/5.0 (Macintosh; Intel Mac OS X 10_15_7) AppleWebKit/537.36 (KHTML, like Gecko) Chrome/120.0.0.0 Safari/537.36"@,
        "Mozilla/5.0 (X11; Linux x86_64) AppleWebKit/537.36 (KHTML, like Gecko) Chrome/120.0.0.0 Safari/537.36"@,
    ]
}

/// The screen resolutions a fake profile may claim.
pub open spec fn fake_resolutions() -> Seq<(u32, u32)> {
    seq![(1920u32, 1080u32), (2560u32, 1440u32), (1366u32, 768u32), (1280u32, 720u32)]
}

/// The WebGL vendors a fake profile may claim.
pub open spec fn fake_webgl_vendors() -> Seq<Seq<char>> {
    seq!["Google Inc. (NVIDIA)"@, "Google Inc. (Intel)"@, "Apple Inc."@]
}

/// The WebGL renderers a fake profile may claim.
pub open spec fn fake_webgl_renderers() -> Seq<Seq<char>> {
    seq!["ANGLE (NVIDIA)"@, "ANGLE (Intel)"@, "Apple M1"@]
}

/// The time-zone offsets, in minutes, a fake profile may claim.
pub open spec fn fake_timezone_offsets() -> Seq<i32> {
    seq![-480i32, -300i32, 0i32, 60i32, 120i32, 540i32]
}

/// The language lists a fake profile may claim.
pub open spec fn fake_language_sets() -> Seq<Seq<Seq<char>>> {
    seq![seq!["en-US"@, "en"@], seq!["fr-FR"@, "fr"@, "en"@], seq!["de-DE"@, "de"@, "en"@]]
}

/// The font list a fake profile claims.
pub open spec fn fake_fonts() -> Seq<Seq<char>> {
    seq!["Arial"@, "Helvetica"@, "Times New Roman"@, "Verdana"@]
}

/// The plugin lists a fake profile may claim.
pub open spec fn fake_plugin_sets() -> Seq<Seq<Seq<char>>> {
    seq![seq!["Chrome PDF Plugin"@], seq!["PDF Viewer"@], Seq::empty()]
}

/// A Google-Analytics-style client ID: `GA1.2.<timestamp>.<suffix>`.
pub open spec fn tracking_id_text(timestamp: nat, suffix: Seq<char>) -> Seq<char> {
    "GA1.2."@ + decimal(timestamp) + "."@ + suffix
}

/// The plain-value view of a list of strings.
pub open spec fn texts(v: Seq<String>) -> Seq<Seq<char>> {
    v.map_values(|s: String| s@)
}

/// Owned copies of the strings of `items`.
fn owned_all(items: &Vec<&str>) -> (r: Vec<String>)
    ensures
        texts(r@) == items@.map_values(|s: &str| s@),
{
    let mut r: Vec<String> = Vec::new();
    let mut i: usize = 0;
    while i < items.len()
        invariant
            i <= items@.len(),
            r@.len() == i,
            forall|j: int| 0 <= j < i ==> r@[j]@ == items@[j]@,
        decreases items@.len() - i,
    {
        r.push(owned(items[i]));
        i = i + 1;
    }
    assert(texts(r@) =~= items@.map_values(|s: &str| s@));
    r
}

/// The lower-case hexadecimal digits, in order of value.
pub open spec fn hex_digits() -> Seq<char> {
    seq!['0', '1', '2', '3', '4', '5', '6', '7', '8', '9', 'a', 'b', 'c', 'd', 'e', 'f']
}

/// The lower-case hexadecimal digit for `d`.
fn hex_digit(d: u32) -> (c: char)
    requires
        d < 16,
    ensures
        c == hex_digits()[d as int],
        is_lower_hex(c),
{
    if d < 10 {
        if d == 0 {
            '0'
        } else if d == 1 {
            '1'
        } else if d == 2 {
            '2'
        } else if d == 3 {
            '3'
        } else if d == 4 {
            '4'
        } else if d == 5 {
            '5'
        } else if d == 6 {
            '6'
        } else if d == 7 {
            '7'
        } else if d == 8 {
            '8'
        } else {
            '9'
        }
    } else if d == 10 {
        'a'
    } else if d == 11 {
        'b'
    } else if d == 12 {
        'c'
    } else if d == 13 {
        'd'
    } else if d == 14 {
        'e'
    } else {
        'f'
    }
}

/// The character of an ASCII letter or digit.
fn alphanumeric_char(b: u8) -> (c: char)
    requires
        is_alphanumeric_byte(b),
    ensures
        c == (b as char),
        is_alphanumeric_char(c),
{
    b as char
}

/// Generator of fake browser data.
pub struct FakeDataGenerator {
    pub config: TrackerPoisoningConfig,
}

impl FakeDataGenerator {
    /// A generator with the given settings.
    pub fn new(config: TrackerPoisoningConfig) -> (r: Self)
        ensures
            r.config == config,
    {
        FakeDataGenerator { config }
    }

    /// One of the fake user agents, at random.
    pub fn generate_fake_user_agent(&self) -> (r: String)
        ensures
            fake_user_agents().contains(r@),
    {
        let agents = vec![
            "Mozilla/5.0 (Windows NT 10.0; Win64; x64) AppleWebKit/537.36 (KHTML, like Gecko) Chrome/120.0.0.0 Safari/537.36",
            "Mozilla/5.0 (Windows NT 10.0; Win64; x64; rv:121.0) Gecko/20100101 Firefox/121.0",
            "Mozilla/5.0 (Macintosh; Intel Mac OS X 10_15_7) AppleWebKit/537.36 (KHTML, like Gecko) Chrome/120.0.0.0 Safari/537.36",
            "Mozilla/5.0 (X11; Linux x86_64) AppleWebKit/537.36 (KHTML, like Gecko) Chrome/120.0.0.0 Safari/537.36",
        ];
        let picked = choose_from(agents.as_slice());
        let r = owned(*picked);
        proof {
            let i = choose|i: int| 0 <= i < agents@.len() && agents@[i] == *picked;
            assert(fake_user_agents()[i] == r@);
        }
        r
    }

    /// One of the fake screen resolutions, at random.
    pub fn generate_fake_screen_resolution(&self) -> (r: (u32, u32))
        ensures
            fake_resolutions().contains(r),
    {
        let resolutions: Vec<(u32, u32)> = vec![(1920, 1080), (2560, 1440), (1366, 768), (1280, 720)];
        let r = *choose_from(resolutions.as_slice());
        proof {
            let i = choose|i: int| 0 <= i < resolutions@.len() && resolutions@[i] == r;
            assert(fake_resolutions()[i] == r);
        }
        r
    }

    /// A fake canvas fingerprint: 32 random lower-case hexadecimal digits.
    pub fn generate_fake_canvas_hash(&self) -> (r: String)
        ensures
            r@.len() == 32,
            forall|i: int| 0 <= i < 32 ==> is_lower_hex(#[trigger] r@[i]),
    {
        let mut digits: Vec<char> = Vec::new();
        let mut i: usize = 0;
        while i < 32
            invariant
                i <= 32,
                digits@.len() == i,
                forall|j: int| 0 <= j < i ==> is_lower_hex(#[trigger] digits@[j]),
            decreases 32 - i,
        {
            let d = random_in(0, 16);
            digits.push(hex_digit(d));
            i = i + 1;
        }
        string_from_chars(&digits)
    }

    /// A fake WebGL fingerprint: a random vendor and a random renderer, joined by `|`.
    pub fn generate_fake_webgl_hash(&self) -> (r: String)
        ensures
            exists|v: int, g: int|
                0 <= v < 3 && 0 <= g < 3 && r@ == fake_webgl_vendors()[v] + "|"@
                    + fake_webgl_renderers()[g],
    {
        let vendors = vec!["Google Inc. (NVIDIA)", "Google Inc. (Intel)", "Apple Inc."];
        let renderers = vec!["ANGLE (NVIDIA)", "ANGLE (Intel)", "Apple M1"];
        let vendor = choose_from(vendors.as_slice());
        let renderer = choose_from(renderers.as_slice());
        let mut out: Vec<char> = Vec::new();
        push_str(&mut out, *vendor);
        push_str(&mut out, "|");
        push_str(&mut out, *renderer);
        proof {
            let v = choose|i: int| 0 <= i < vendors@.len() && vendors@[i] == *vendor;
            let g = choose|i: int| 0 <= i < renderers@.len() && renderers@[i] == *renderer;
            assert(out@ =~= fake_webgl_vendors()[v] + "|"@ + fake_webgl_renderers()[g]);
        }
        string_from_chars(&out)
    }

    /// One of the fake time-zone offsets (minutes), at random.
    pub fn generate_fake_timezone_offset(&self) -> (r: i32)
        ensures
            fake_timezone_offsets().contains(r),
    {
        let offsets: Vec<i32> = vec![-480, -300, 0, 60, 120, 540];
        let r = *choose_from(offsets.as_slice());
        proof {
            let i = choose|i: int| 0 <= i < offsets@.len() && offsets@[i] == r;
            assert(fake_timezone_offsets()[i] == r);
        }
        r
    }

    /// One of the fake language lists, at random.
    pub fn generate_fake_languages(&self) -> (r: Vec<String>)
        ensures
            fake_language_sets().contains(texts(r@)),
    {
        let sets: Vec<Vec<&str>> = vec![
            vec!["en-US", "en"],
            vec!["fr-FR", "fr", "en"],
            vec!["de-DE", "de", "en"],
        ];
        let picked = choose_from(sets.as_slice());
        let r = owned_all(picked);
        proof {
            let i = choose|i: int| 0 <= i < sets@.len() && sets@[i] == *picked;
            assert(texts(r@) =~= fake_language_sets()[i]);
        }
        r
    }

    /// A fake Google-Analytics client ID: a random timestamp in
    /// `1000000000..2000000000` and ten random ASCII letters or digits.
    pub fn generate_fake_tracking_id(&self) -> (r: String)
        ensures
            exists|timestamp: nat, suffix: Seq<char>|
                1_000_000_000 <= timestamp < 2_000_000_000 && suffix.len() == 10 && (forall|i: int|
                    0 <= i < 10 ==> is_alphanumeric_char(#[trigger] suffix[i])) && r@
                    == #[trigger] tracking_id_text(
                    timestamp,
                    suffix,
                ),
    {
        let timestamp = random_in(1_000_000_000, 2_000_000_000);
        let mut suffix: Vec<char> = Vec::new();
        let mut i: usize = 0;
        while i < 10
            invariant
                i <= 10,
                suffix@.len() == i,
                forall|j: int| 0 <= j < i ==> is_alphanumeric_char(#[trigger] suffix@[j]),
            decreases 10 - i,
        {
            let b = random_alphanumeric();
            let c = alphanumeric_char(b);
            suffix.push(c);
            i = i + 1;
        }
        let mut out: Vec<char> = Vec::new();
        push_str(&mut out, "GA1.2.");
        push_decimal(&mut out, timestamp as u64);
        push_str(&mut out, ".");
        push_all(&mut out, &suffix);
        assert(out@ =~= tracking_id_text(timestamp as nat, suffix@));
        string_from_chars(&out)
    }

    /// A fake device ID: a random version-4 UUID.
    pub fn generate_fake_device_id(&self) -> (r: String)
        ensures
            is_uuid_v4_text(r@),
    {
        new_uuid_v4_text()
    }

    /// The fake font list.
    pub fn generate_fake_fonts(&self) -> (r: Vec<String>)
        ensures
            texts(r@) == fake_fonts(),
    {
        let fonts = vec!["Arial", "Helvetica", "Times New Roman", "Verdana"];
        let r = owned_all(&fonts);
        assert(texts(r@) =~= fake_fonts());
        r
    }

    /// One of the fake plugin lists, at random.
    pub fn generate_fake_plugins(&self) -> (r: Vec<String>)
        ensures
            fake_plugin_sets().contains(texts(r@)),
    {
        let sets: Vec<Vec<&str>> = vec![vec!["Chrome PDF Plugin"], vec!["PDF Viewer"], Vec::new()];
        let picked = choose_from(sets.as_slice());
        let r = owned_all(picked);
        proof {
            let i = choose|i: int| 0 <= i < sets@.len() && sets@[i] == *picked;
            assert(texts(r@) =~= fake_plugin_sets()[i]);
        }
        r
    }
}

// ---------------------------------------------------------------------------
// Poisoning requests and answering trackers
// ---------------------------------------------------------------------------

#[verifier::external_type_specification]
#[verifier::external_body]
#[verifier::reject_recursive_types(T)]
pub struct ExHeaderMap<T>(HeaderMap<T>);

#[verifier::external_type_specification]
#[verifier::external_body]
pub struct ExHeaderValue(HeaderValue);

/// The headers an `http::HeaderMap` holds: for each header name (in lower
/// case), the bytes of its values in order.
pub uninterp spec fn header_entries(headers: HeaderMap) -> Map<Seq<char>, Seq<Seq<u8>>>;

/// The bytes an `http::HeaderValue` holds.
pub uninterp spec fn header_value_bytes(value: HeaderValue) -> Seq<u8>;

/// Whether `http` accepts `bytes` as a header value: every byte is a tab, or
/// at least 32 and not 127.
pub open spec fn valid_header_bytes(bytes: Seq<u8>) -> bool {
    forall|i: int| 0 <= i < bytes.len() ==> #[trigger] bytes[i] == 9 || (bytes[i] >= 32 && bytes[i] != 127)
}

/// The most header names a map can hold for an insertion to be sure not to
/// exceed `http`'s size limit.
pub open spec fn header_room() -> nat {
    6554
}

/// `http::HeaderValue::from_str`: a value holding the UTF-8 bytes of `text`,
/// when they are all acceptable header-value bytes.
#[verifier::external_body]
fn header_value(text: &str) -> (r: Option<HeaderValue>)
    ensures
        r is Some <==> valid_header_bytes(text.spec_bytes()),
        r matches Some(v) ==> header_value_bytes(v) == text.spec_bytes(),
{
    HeaderValue::from_str(text).ok()
}

/// `http::HeaderMap::insert` under `http::header::USER_AGENT`: the
/// `user-agent` header then has exactly this value, and the others are
/// unchanged. With fewer than `header_room()` names in the map, the insertion
/// never needs the map to grow past `http`'s size limit, where it panics.
#[verifier::external_body]
fn insert_user_agent(headers: &mut HeaderMap, value: HeaderValue)
    requires
        header_entries(*old(headers)).dom().len() < header_room(),
    ensures
        header_entries(*final(headers)) == header_entries(*old(headers)).insert(
            "user-agent"@,
            seq![header_value_bytes(value)],
        ),
{
    headers.insert(http::header::USER_AGENT, value);
}

/// `http::HeaderMap::keys_len`: the number of header names in the map.
#[verifier::external_body]
fn header_name_count(headers: &HeaderMap) -> (n: usize)
    ensures
        n == header_entries(*headers).dom().len(),
{
    headers.keys_len()
}

/// Replaces the `user-agent` header of `headers` with `user_agent` when the
/// user agent is to be randomised and `user_agent` is an acceptable header
/// value; leaves the headers alone otherwise.
pub fn poison_user_agent(randomize: bool, user_agent: &str, headers: &mut HeaderMap)
    requires
        randomize && valid_header_bytes(user_agent.spec_bytes()) ==> header_entries(
            *old(headers),
        ).dom().len() < header_room(),
    ensures
        randomize && valid_header_bytes(user_agent.spec_bytes()) ==> header_entries(*final(headers))
            == header_entries(*old(headers)).insert("user-agent"@, seq![user_agent.spec_bytes()]),
        !(randomize && valid_header_bytes(user_agent.spec_bytes())) ==> header_entries(
            *final(headers),
        ) == header_entries(*old(headers)),
{
    if randomize {
        match header_value(user_agent) {
            Some(value) => insert_user_agent(headers, value),
            None => {},
        }
    }
}

/// `poison_user_agent` when the map holds fewer than `header_room()` header
/// names, which it counts first; returns whether it went ahead. When it did
/// not, the headers are unchanged.
pub fn try_poison_user_agent(randomize: bool, user_agent: &str, headers: &mut HeaderMap) -> (done: bool)
    ensures
        done <==> header_entries(*old(headers)).dom().len() < header_room(),
        done && randomize && valid_header_bytes(user_agent.spec_bytes()) ==> header_entries(
            *final(headers),
        ) == header_entries(*old(headers)).insert("user-agent"@, seq![user_agent.spec_bytes()]),
        !(done && randomize && valid_header_bytes(user_agent.spec_bytes())) ==> header_entries(
            *final(headers),
        ) == header_entries(*old(headers)),
{
    if header_name_count(headers) < 6554 {
        poison_user_agent(randomize, user_agent, headers);
        true
    } else {
        false
    }
}

/// The answer given to a blocked tracker: a transparent 1x1 GIF.
pub open spec fn transparent_gif() -> Seq<u8> {
    seq![
        0x47u8, 0x49, 0x46, 0x38, 0x39, 0x61, 0x01, 0x00, 0x01, 0x00, 0x80, 0x00, 0x00, 0xFF,
        0xFF, 0xFF, 0x00, 0x00, 0x00, 0x21, 0xF9, 0x04, 0x01, 0x00, 0x00, 0x00, 0x00, 0x2C,
        0x00, 0x00, 0x00, 0x00, 0x01, 0x00, 0x01, 0x00, 0x00, 0x02, 0x02, 0x44, 0x01, 0x00,
        0x3B,
    ]
}

/// The body of the fake answer to a tracker request: a transparent 1x1 GIF,
/// whatever the request.
pub fn fake_tracker_response() -> (r: Vec<u8>)
    ensures
        r@ == transparent_gif(),
{
    let r: Vec<u8> = vec![
        0x47, 0x49, 0x46, 0x38, 0x39, 0x61, 0x01, 0x00, 0x01, 0x00, 0x80, 0x00, 0x00, 0xFF,
        0xFF, 0xFF, 0x00, 0x00, 0x00, 0x21, 0xF9, 0x04, 0x01, 0x00, 0x00, 0x00, 0x00, 0x2C,
        0x00, 0x00, 0x00, 0x00, 0x01, 0x00, 0x01, 0x00, 0x00, 0x02, 0x02, 0x44, 0x01, 0x00,
        0x3B,
    ];
    assert(r@ =~= transparent_gif());
    r
}

} // verus!
