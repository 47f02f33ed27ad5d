//! The Key Light's value scales and the requests sent to it.

use vstd::prelude::*;
use vstd::string::*;
use crate::text::{decimal, int_decimal, push_decimal, push_int};

verus! {

/// Lowest brightness the light accepts.
pub const MIN_BRIGHTNESS: i32 = 0;
/// Highest brightness the light accepts.
pub const MAX_BRIGHTNESS: i32 = 100;

/// Warmest colour temperature, in Kelvin.
pub const MIN_KELVIN: i32 = 2900;
/// Coolest colour temperature, in Kelvin.
pub const MAX_KELVIN: i32 = 7000;
/// API temperature value of the coolest setting (7000 K).
pub const MIN_API_TEMP: i32 = 143;
/// API temperature value of the warmest setting (2900 K).
pub const MAX_API_TEMP: i32 = 344;

/// TCP port of the light's HTTP API.
pub const DEFAULT_PORT: u16 = 9123;

/// `v` limited to the closed range `[lo, hi]`.
pub open spec fn clamp(v: int, lo: int, hi: int) -> int {
    if v < lo {
        lo
    } else if v > hi {
        hi
    } else {
        v
    }
}

/// The API value for a temperature of `kelvin` (clamped to the supported range).
/// The scale is inverse: 2900 K maps to 344 and 7000 K to 143.
pub open spec fn kelvin_to_api_value(kelvin: int) -> int {
    let k = clamp(kelvin, MIN_KELVIN as int, MAX_KELVIN as int);
    MAX_API_TEMP - (k - MIN_KELVIN) * (MAX_API_TEMP - MIN_API_TEMP) / (MAX_KELVIN - MIN_KELVIN)
}

/// The temperature in Kelvin for an API value `api` (clamped to `[143, 344]`).
pub open spec fn api_to_kelvin_value(api: int) -> int {
    let a = clamp(api, MIN_API_TEMP as int, MAX_API_TEMP as int);
    MIN_KELVIN + (MAX_API_TEMP - a) * (MAX_KELVIN - MIN_KELVIN) / (MAX_API_TEMP - MIN_API_TEMP)
}

/// `v` limited to `[lo, hi]`.
pub fn clamp_i32(v: i32, lo: i32, hi: i32) -> (r: i32)
    requires
        lo <= hi,
    ensures
        r == clamp(v as int, lo as int, hi as int),
{
    if v < lo {
        lo
    } else if v > hi {
        hi
    } else {
        v
    }
}

/// A brightness limited to the range the light accepts, `[0, 100]`.
pub fn clamp_brightness(brightness: i32) -> (r: i32)
    ensures
        r == clamp(brightness as int, MIN_BRIGHTNESS as int, MAX_BRIGHTNESS as int),
        MIN_BRIGHTNESS <= r <= MAX_BRIGHTNESS,
{
    clamp_i32(brightness, MIN_BRIGHTNESS, MAX_BRIGHTNESS)
}

/// Convert Kelvin to the Elgato API temperature value.
/// Kelvin is clamped to `[2900, 7000]` before conversion.
pub fn kelvin_to_api(kelvin: i32) -> (api: i32)
    ensures
        api == kelvin_to_api_value(kelvin as int),
        MIN_API_TEMP <= api <= MAX_API_TEMP,
{
    let k = clamp_i32(kelvin, MIN_KELVIN, MAX_KELVIN);
    let d = k - MIN_KELVIN;
    assert(0 <= d * 201 <= 4100 * 201) by (nonlinear_arith)
        requires
            0 <= d <= 4100,
    ;
    assert(0 <= d * 201 / 4100 <= 201) by (nonlinear_arith)
        requires
            0 <= d * 201 <= 4100 * 201,
    ;
    MAX_API_TEMP - d * (MAX_API_TEMP - MIN_API_TEMP) / (MAX_KELVIN - MIN_KELVIN)
}

/// Convert the Elgato API temperature value to Kelvin.
/// The API value is clamped to `[143, 344]` before conversion.
pub fn api_to_kelvin(api_value: i32) -> (kelvin: i32)
    ensures
        kelvin == api_to_kelvin_value(api_value as int),
        MIN_KELVIN <= kelvin <= MAX_KELVIN,
{
    let a = clamp_i32(api_value, MIN_API_TEMP, MAX_API_TEMP);
    let d = MAX_API_TEMP - a;
    assert(0 <= d * 4100 <= 201 * 4100) by (nonlinear_arith)
        requires
            0 <= d <= 201,
    ;
    assert(0 <= d * 4100 / 201 <= 4100) by (nonlinear_arith)
        requires
            0 <= d * 4100 <= 201 * 4100,
    ;
    MIN_KELVIN + d * (MAX_KELVIN - MIN_KELVIN) / (MAX_API_TEMP - MIN_API_TEMP)
}

/// The light's state as reported by the API, with the temperature in Kelvin.
#[derive(Debug, Clone)]
pub struct LightState {
    pub on: bool,
    pub brightness: i32,
    pub temperature_kelvin: i32,
}

/// What can go wrong when talking to the light.
#[derive(Debug, Clone)]
pub enum KeyLightError {
    Network(String),
    InvalidJson(String),
    NoLights,
    NoIp,
}

/// The human-readable message of an error.
pub open spec fn error_text(e: KeyLightError) -> Seq<char> {
    match e {
        KeyLightError::Network(msg) => "Network error: "@ + msg@,
        KeyLightError::InvalidJson(msg) => "Invalid JSON: "@ + msg@,
        KeyLightError::NoLights => "No lights found in response"@,
        KeyLightError::NoIp => "No IP address configured"@,
    }
}

impl KeyLightError {
    /// The message shown to the user for this error.
    pub fn message(&self) -> (r: String)
        ensures
            r@ == error_text(*self),
    {
        match self {
            KeyLightError::Network(msg) => {
                let mut s = String::from_str("Network error: ");
                s.append(msg.as_str());
                s
            },
            KeyLightError::InvalidJson(msg) => {
                let mut s = String::from_str("Invalid JSON: ");
                s.append(msg.as_str());
                s
            },
            KeyLightError::NoLights => String::from_str("No lights found in response"),
            KeyLightError::NoIp => String::from_str("No IP address configured"),
        }
    }
}

/// One light of a reply, in the API's own units.
#[derive(Debug, Clone)]
pub struct ElgatoLight {
    pub on: i32,
    pub brightness: i32,
    pub temperature: i32,
}

/// A reply of the light's `/elgato/lights` endpoint.
#[derive(Debug, Clone)]
pub struct ElgatoResponse {
    pub lights: Vec<ElgatoLight>,
}

/// The state that an API light record stands for.
pub open spec fn light_state_of(light: ElgatoLight) -> LightState {
    LightState {
        on: light.on == 1,
        brightness: light.brightness,
        temperature_kelvin: api_to_kelvin_value(light.temperature as int) as i32,
    }
}

/// What a reply of the light amounts to: the state of its first light.
pub open spec fn response_outcome(parsed: Result<ElgatoResponse, String>) -> Result<LightState, KeyLightError> {
    match parsed {
        Err(msg) => Err(KeyLightError::InvalidJson(msg)),
        Ok(resp) => if resp.lights@.len() == 0 {
            Err(KeyLightError::NoLights)
        } else {
            Ok(light_state_of(resp.lights@[0]))
        },
    }
}

impl ElgatoLight {
    /// The light state this record reports: on when `on == 1`,
    /// the temperature converted to Kelvin.
    pub fn to_light_state(&self) -> (r: LightState)
        ensures
            r == light_state_of(*self),
    {
        LightState {
            on: self.on == 1,
            brightness: self.brightness,
            temperature_kelvin: api_to_kelvin(self.temperature),
        }
    }
}

/// Interprets the parsed reply of a GET or PUT: a parse failure (carrying
/// the parser's message) is `InvalidJson`, a reply without lights is
/// `NoLights`, otherwise the state of the first light.
pub fn light_state_from_response(parsed: Result<ElgatoResponse, String>) -> (r: Result<LightState, KeyLightError>)
    ensures
        r == response_outcome(parsed),
{
    match parsed {
        Err(msg) => Err(KeyLightError::InvalidJson(msg)),
        Ok(resp) => {
            if resp.lights.len() == 0 {
                Err(KeyLightError::NoLights)
            } else {
                Ok(resp.lights[0].to_light_state())
            }
        },
    }
}

/// A change sent to the light with a PUT.
#[derive(Debug, Clone)]
pub enum LightCommand {
    /// Switch the light on or off.
    Power(bool),
    /// Set the brightness (clamped to `[0, 100]`).
    Brightness(i32),
    /// Set the colour temperature in Kelvin (clamped to `[2900, 7000]`).
    Temperature(i32),
    /// Set power, brightness and temperature at once.
    State { on: bool, brightness: i32, kelvin: i32 },
}

/// The members of one light's object in a PUT body, in the API's units; a
/// member that is `None` is left out.
#[derive(Debug, Clone)]
pub struct LightFields {
    pub on: Option<i32>,
    pub brightness: Option<i32>,
    pub temperature: Option<i32>,
}

/// The fields a command sends: `on` as 1 or 0, the brightness clamped to
/// `[0, 100]`, the temperature converted from Kelvin to the API scale.
pub open spec fn command_fields(cmd: LightCommand) -> LightFields {
    match cmd {
        LightCommand::Power(on) => LightFields {
            on: Some(if on { 1i32 } else { 0i32 }),
            brightness: None,
            temperature: None,
        },
        LightCommand::Brightness(b) => LightFields {
            on: None,
            brightness: Some(clamp(b as int, MIN_BRIGHTNESS as int, MAX_BRIGHTNESS as int) as i32),
            temperature: None,
        },
        LightCommand::Temperature(k) => LightFields {
            on: None,
            brightness: None,
            temperature: Some(kelvin_to_api_value(k as int) as i32),
        },
        LightCommand::State { on, brightness, kelvin } => LightFields {
            on: Some(if on { 1i32 } else { 0i32 }),
            brightness: Some(clamp(brightness as int, MIN_BRIGHTNESS as int, MAX_BRIGHTNESS as int) as i32),
            temperature: Some(kelvin_to_api_value(kelvin as int) as i32),
        },
    }
}

impl LightCommand {
    /// The members this command sends to the light.
    pub fn fields(&self) -> (r: LightFields)
        ensures
            r == command_fields(*self),
            *self matches LightCommand::Power(on) ==> r.on == Some(if on { 1i32 } else { 0i32 })
                && r.brightness is None && r.temperature is None,
            *self matches LightCommand::Brightness(b) ==> r.on is None && r.temperature is None
                && r.brightness == Some(clamp(b as int, 0, 100) as i32),
            *self matches LightCommand::Temperature(k) ==> r.on is None && r.brightness is None
                && r.temperature == Some(kelvin_to_api_value(k as int) as i32),
            *self matches LightCommand::State { on, brightness, kelvin } ==> r.on == Some(
                if on { 1i32 } else { 0i32 },
            ) && r.brightness == Some(clamp(brightness as int, 0, 100) as i32) && r.temperature
                == Some(kelvin_to_api_value(kelvin as int) as i32),
    {
        match self {
            LightCommand::Power(on) => LightFields {
                on: Some(if *on { 1 } else { 0 }),
                brightness: None,
                temperature: None,
            },
            LightCommand::Brightness(b) => LightFields {
                on: None,
                brightness: Some(clamp_brightness(*b)),
                temperature: None,
            },
            LightCommand::Temperature(k) => LightFields {
                on: None,
                brightness: None,
                temperature: Some(kelvin_to_api(*k)),
            },
            LightCommand::State { on, brightness, kelvin } => LightFields {
                on: Some(if *on { 1 } else { 0 }),
                brightness: Some(clamp_brightness(*brightness)),
                temperature: Some(kelvin_to_api(*kelvin)),
            },
        }
    }
}

/// A JSON member `"name":value` with an integer value.
pub open spec fn member(name: Seq<char>, value: int) -> Seq<char> {
    "\""@ + name + "\":"@ + int_decimal(value)
}

/// The member for an optional value: one member, or none.
pub open spec fn optional_member(name: Seq<char>, value: Option<i32>) -> Seq<Seq<char>> {
    match value {
        Some(v) => seq![member(name, v as int)],
        None => Seq::empty(),
    }
}

/// The members of a light's object, in the order on, brightness, temperature.
pub open spec fn members(f: LightFields) -> Seq<Seq<char>> {
    optional_member("on"@, f.on) + optional_member("brightness"@, f.brightness) + optional_member(
        "temperature"@,
        f.temperature,
    )
}

/// Texts joined with commas between them.
pub open spec fn comma_joined(parts: Seq<Seq<char>>) -> Seq<char>
    decreases parts.len(),
{
    if parts.len() == 0 {
        Seq::empty()
    } else if parts.len() == 1 {
        parts[0]
    } else {
        comma_joined(parts.drop_last()) + ","@ + parts.last()
    }
}

/// The JSON object of one light: `{` members separated by commas `}`.
pub open spec fn light_object(f: LightFields) -> Seq<char> {
    "{"@ + comma_joined(members(f)) + "}"@
}

/// The full PUT body: `{"numberOfLights":1,"lights":[<light object>]}`.
pub open spec fn body_text(f: LightFields) -> Seq<char> {
    "{\"numberOfLights\":1,\"lights\":["@ + light_object(f) + "]}"@
}

/// Appends the member for `value`, if there is one, to a comma-separated list
/// of members that so far holds `done`.
fn push_optional_member(
    s: &mut String,
    name: &str,
    value: Option<i32>,
    any: bool,
    Ghost(prefix): Ghost<Seq<char>>,
    Ghost(done): Ghost<Seq<Seq<char>>>,
) -> (any_after: bool)
    requires
        old(s)@ == prefix + comma_joined(done),
        any == (done.len() > 0),
    ensures
        final(s)@ == prefix + comma_joined(done + optional_member(name@, value)),
        any_after == ((done + optional_member(name@, value)).len() > 0),
{
    match value {
        Some(v) => {
            if any {
                s.append(",");
            }
            s.append("\"");
            s.append(name);
            s.append("\":");
            push_int(s, v);
            let ghost next = done + optional_member(name@, value);
            assert(next.drop_last() =~= done);
            assert(next.last() == member(name@, v as int));
            if !any {
                assert(next.len() == 1);
            }
            true
        },
        None => {
            assert(done + optional_member(name@, value) =~= done);
            any
        },
    }
}

/// The JSON body of a PUT that sets the given members of the light.
pub fn build_body(light: &LightFields) -> (r: String)
    ensures
        r@ == body_text(*light),
{
    let mut s = String::from_str("{\"numberOfLights\":1,\"lights\":[");
    s.append("{");
    let ghost prefix = s@;
    let ghost m0: Seq<Seq<char>> = Seq::empty();
    let ghost m1 = m0 + optional_member("on"@, light.on);
    let ghost m2 = m1 + optional_member("brightness"@, light.brightness);
    let ghost m3 = m2 + optional_member("temperature"@, light.temperature);
    assert(s@ == prefix + comma_joined(m0));
    let any = push_optional_member(&mut s, "on", light.on, false, Ghost(prefix), Ghost(m0));
    let any = push_optional_member(&mut s, "brightness", light.brightness, any, Ghost(prefix), Ghost(m1));
    let _ = push_optional_member(&mut s, "temperature", light.temperature, any, Ghost(prefix), Ghost(m2));
    assert(m3 =~= members(*light));
    s.append("}");
    s.append("]}");
    s
}

/// The address of the light's state endpoint.
pub open spec fn lights_url_text(ip: Seq<char>, port: u16) -> Seq<char> {
    "http://"@ + ip + ":"@ + decimal(port as nat) + "/elgato/lights"@
}

/// A PUT to send: where, and what.
#[derive(Debug, Clone)]
pub struct PutRequest {
    pub url: String,
    pub body: String,
}

/// Where a light is reached: its IP address (or host name) and port.
pub struct KeyLightClient {
    ip: String,
    port: u16,
}

impl View for KeyLightClient {
    type V = (Seq<char>, u16);

    closed spec fn view(&self) -> (Seq<char>, u16) {
        (self.ip@, self.port)
    }
}

impl KeyLightClient {
    /// A client for the light at `ip`:`port`.
    pub fn new(ip: String, port: u16) -> (r: Self)
        ensures
            r@ == (ip@, port),
    {
        KeyLightClient { ip, port }
    }

    /// Points the client at another light.
    pub fn set_host(&mut self, ip: String, port: u16)
        ensures
            final(self)@ == (ip@, port),
    {
        self.ip = ip;
        self.port = port;
    }

    /// The light's address.
    pub fn host(&self) -> (r: &str)
        ensures
            r@ == self@.0,
    {
        self.ip.as_str()
    }

    /// The light's port.
    pub fn port(&self) -> (r: u16)
        ensures
            r == self@.1,
    {
        self.port
    }

    /// A new client for the same light.
    pub fn clone_state(&self) -> (r: KeyLightClient)
        ensures
            r@ == self@,
    {
        KeyLightClient { ip: self.ip.clone(), port: self.port }
    }

    /// `http://{ip}:{port}/elgato/lights`.
    pub fn lights_url(&self) -> (r: String)
        ensures
            r@ == lights_url_text(self@.0, self@.1),
    {
        let mut s = String::from_str("http://");
        s.append(self.ip.as_str());
        s.append(":");
        push_decimal(&mut s, self.port as u32);
        s.append("/elgato/lights");
        s
    }

    /// The URL to GET the light's state from; `NoIp` when no address is set.
    pub fn state_request(&self) -> (r: Result<String, KeyLightError>)
        ensures
            self@.0.len() == 0 ==> r matches Err(KeyLightError::NoIp),
            self@.0.len() != 0 ==> (r matches Ok(url) && url@ == lights_url_text(self@.0, self@.1)),
    {
        if self.ip.as_str().is_empty() {
            Err(KeyLightError::NoIp)
        } else {
            Ok(self.lights_url())
        }
    }

    /// The PUT that applies `cmd` to the light; `NoIp` when no address is set.
    pub fn update_request(&self, cmd: &LightCommand) -> (r: Result<PutRequest, KeyLightError>)
        ensures
            self@.0.len() == 0 ==> r matches Err(KeyLightError::NoIp),
            self@.0.len() != 0 ==> (r matches Ok(req) && req.url@ == lights_url_text(self@.0, self@.1)
                && req.body@ == body_text(command_fields(*cmd))),
    {
        if self.ip.as_str().is_empty() {
            Err(KeyLightError::NoIp)
        } else {
            Ok(PutRequest { url: self.lights_url(), body: build_body(&cmd.fields()) })
        }
    }
}

/// The temperature scale is inverse and bounded: every Kelvin value maps into
/// `[143, 344]`, 2900 K (and anything warmer) to 344, 7000 K (and anything
/// cooler) to 143, and a higher temperature never maps to a higher API value.
pub proof fn lemma_kelvin_scale(k1: int, k2: int)
    ensures
        MIN_API_TEMP <= kelvin_to_api_value(k1) <= MAX_API_TEMP,
        k1 <= MIN_KELVIN ==> kelvin_to_api_value(k1) == MAX_API_TEMP,
        k1 >= MAX_KELVIN ==> kelvin_to_api_value(k1) == MIN_API_TEMP,
        k1 <= k2 ==> kelvin_to_api_value(k2) <= kelvin_to_api_value(k1),
{
    let c1 = clamp(k1, MIN_KELVIN as int, MAX_KELVIN as int) - MIN_KELVIN;
    let c2 = clamp(k2, MIN_KELVIN as int, MAX_KELVIN as int) - MIN_KELVIN;
    assert(0 <= c1 * 201 / 4100 <= 201) by (nonlinear_arith)
        requires
            0 <= c1 <= 4100,
    ;
    if k1 <= k2 {
        assert(c1 * 201 / 4100 <= c2 * 201 / 4100) by (nonlinear_arith)
            requires
                0 <= c1 <= c2,
        ;
    }
}

/// The inverse scale from API values: every value maps into `[2900, 7000]`,
/// 344 (and above) to 2900 K, 143 (and below) to 7000 K, and a higher API value
/// never maps to a higher temperature.
pub proof fn lemma_api_scale(a1: int, a2: int)
    ensures
        MIN_KELVIN <= api_to_kelvin_value(a1) <= MAX_KELVIN,
        a1 >= MAX_API_TEMP ==> api_to_kelvin_value(a1) == MIN_KELVIN,
        a1 <= MIN_API_TEMP ==> api_to_kelvin_value(a1) == MAX_KELVIN,
        a1 <= a2 ==> api_to_kelvin_value(a2) <= api_to_kelvin_value(a1),
{
    let c1 = MAX_API_TEMP - clamp(a1, MIN_API_TEMP as int, MAX_API_TEMP as int);
    let c2 = MAX_API_TEMP - clamp(a2, MIN_API_TEMP as int, MAX_API_TEMP as int);
    assert(0 <= c1 * 4100 / 201 <= 4100) by (nonlinear_arith)
        requires
            0 <= c1 <= 201,
    ;
    if a1 <= a2 {
        assert(c2 * 4100 / 201 <= c1 * 4100 / 201) by (nonlinear_arith)
            requires
                0 <= c2 <= c1,
        ;
    }
}

/// An API value read from the light and written back after the trip through
/// Kelvin comes out as the same value, or at most one step warmer (integer
/// division loses a little); the ends of the scale come back exactly.
pub proof fn lemma_api_round_trip(a: int)
    ensures
        ({
            let c = clamp(a, MIN_API_TEMP as int, MAX_API_TEMP as int);
            let back = kelvin_to_api_value(api_to_kelvin_value(a));
            c <= back <= c + 1
        }),
        kelvin_to_api_value(api_to_kelvin_value(MIN_API_TEMP as int)) == MIN_API_TEMP,
        kelvin_to_api_value(api_to_kelvin_value(MAX_API_TEMP as int)) == MAX_API_TEMP,
{
    let c = clamp(a, MIN_API_TEMP as int, MAX_API_TEMP as int);
    let m = MAX_API_TEMP - c;
    let kd = m * 4100 / 201;
    assert(0 <= kd <= 4100 && kd * 201 <= m * 4100 && m * 4100 < kd * 201 + 201) by (nonlinear_arith)
        requires
            0 <= m <= 201,
            kd == m * 4100 / 201,
    ;
    let back = kd * 201 / 4100;
    assert(m - 1 <= back <= m) by (nonlinear_arith)
        requires
            kd * 201 <= m * 4100,
            m * 4100 < kd * 201 + 201,
            back == kd * 201 / 4100,
            0 <= kd,
    ;
    lemma_api_scale(a, a);
    assert(api_to_kelvin_value(a) - MIN_KELVIN == kd);
}

/// A Kelvin value sent to the light and read back comes out at most 21 K
/// warmer than the (clamped) value sent; the ends of the range come back exactly.
pub proof fn lemma_kelvin_round_trip(k: int)
    ensures
        ({
            let c = clamp(k, MIN_KELVIN as int, MAX_KELVIN as int);
            let back = api_to_kelvin_value(kelvin_to_api_value(k));
            c - 21 <= back <= c
        }),
        api_to_kelvin_value(kelvin_to_api_value(MIN_KELVIN as int)) == MIN_KELVIN,
        api_to_kelvin_value(kelvin_to_api_value(MAX_KELVIN as int)) == MAX_KELVIN,
{
    let c = clamp(k, MIN_KELVIN as int, MAX_KELVIN as int);
    let d = c - MIN_KELVIN;
    let m = d * 201 / 4100;
    assert(0 <= m <= 201 && m * 4100 <= d * 201 && d * 201 < m * 4100 + 4100) by (nonlinear_arith)
        requires
            0 <= d <= 4100,
            m == d * 201 / 4100,
    ;
    let back = m * 4100 / 201;
    assert(d - 21 <= back <= d) by (nonlinear_arith)
        requires
            m * 4100 <= d * 201,
            d * 201 < m * 4100 + 4100,
            back == m * 4100 / 201,
            0 <= m,
    ;
    lemma_kelvin_scale(k, k);
    assert(MAX_API_TEMP - kelvin_to_api_value(k) == m);
}

/// `clamp` keeps a value inside its range, and leaves values already inside unchanged.
pub proof fn lemma_clamp(v: int, lo: int, hi: int)
    requires
        lo <= hi,
    ensures
        lo <= clamp(v, lo, hi) <= hi,
        lo <= v <= hi ==> clamp(v, lo, hi) == v,
        v < lo ==> clamp(v, lo, hi) == lo,
        v > hi ==> clamp(v, lo, hi) == hi,
{
}

/// What each command sends: its power flag as `"on"` 1 (on) or 0 (off), the
/// brightness it asks for limited to `[0, 100]` (unchanged when already inside),
/// the temperature on the API scale (inside `[143, 344]`), and no other member.
pub proof fn lemma_command_fields_follow_command(cmd: LightCommand)
    ensures
        cmd matches LightCommand::Power(on) ==> command_fields(cmd).on == Some(
            if on { 1i32 } else { 0i32 },
        ) && command_fields(cmd).brightness is None && command_fields(cmd).temperature is None,
        cmd matches LightCommand::State { on, brightness, kelvin } ==> {
            &&& command_fields(cmd).on == Some(if on { 1i32 } else { 0i32 })
            &&& command_fields(cmd).brightness matches Some(b) && 0 <= b <= 100 && (0 <= brightness
                <= 100 ==> b == brightness)
            &&& command_fields(cmd).temperature matches Some(t) && MIN_API_TEMP <= t <= MAX_API_TEMP
                && t == kelvin_to_api_value(kelvin as int)
        },
        cmd matches LightCommand::Brightness(brightness) ==> {
            &&& command_fields(cmd).on is None
            &&& command_fields(cmd).temperature is None
            &&& command_fields(cmd).brightness matches Some(b) && 0 <= b <= 100 && (0 <= brightness
                <= 100 ==> b == brightness) && (brightness < 0 ==> b == 0) && (brightness > 100
                ==> b == 100)
        },
        cmd matches LightCommand::Temperature(kelvin) ==> {
            &&& command_fields(cmd).on is None
            &&& command_fields(cmd).brightness is None
            &&& command_fields(cmd).temperature matches Some(t) && MIN_API_TEMP <= t <= MAX_API_TEMP
                && t == kelvin_to_api_value(kelvin as int)
        },
{
    match cmd {
        LightCommand::State { kelvin, .. } => {
            lemma_kelvin_scale(kelvin as int, kelvin as int);
        },
        LightCommand::Temperature(kelvin) => {
            lemma_kelvin_scale(kelvin as int, kelvin as int);
        },
        _ => {},
    }
}

/// The members of a body are exactly the fields that are set, in the order
/// on, brightness, temperature, each with its own value.
pub proof fn lemma_members_are_set_fields(f: LightFields)
    ensures
        members(f).len() == (if f.on is Some { 1int } else { 0 }) + (if f.brightness is Some {
            1int
        } else {
            0
        }) + (if f.temperature is Some { 1int } else { 0 }),
        f.on matches Some(v) ==> members(f)[0] == member("on"@, v as int),
        f.brightness matches Some(v) ==> members(f)[if f.on is Some { 1int } else { 0 }]
            == member("brightness"@, v as int),
        f.temperature matches Some(v) ==> members(f).last() == member("temperature"@, v as int),
{
}

/// Joining puts exactly one comma between neighbouring members.
pub proof fn lemma_comma_joined(a: Seq<char>, b: Seq<char>, c: Seq<char>)
    ensures
        comma_joined(Seq::<Seq<char>>::empty()) == Seq::<char>::empty(),
        comma_joined(seq![a]) == a,
        comma_joined(seq![a, b]) == a + ","@ + b,
        comma_joined(seq![a, b, c]) == a + ","@ + b + ","@ + c,
{
    assert(seq![a, b].drop_last() =~= seq![a]);
    assert(seq![a, b, c].drop_last() =~= seq![a, b]);
    assert(comma_joined(seq![a]) == a);
    assert(comma_joined(seq![a, b]) == comma_joined(seq![a]) + ","@ + b);
    assert(comma_joined(seq![a, b, c]) == comma_joined(seq![a, b]) + ","@ + c);
}

/// A light record reports on exactly when its `on` is 1, its own brightness,
/// and a temperature on the Kelvin scale.
pub proof fn lemma_light_state_of(light: ElgatoLight)
    ensures
        light_state_of(light).on == (light.on == 1),
        light_state_of(light).brightness == light.brightness,
        MIN_KELVIN <= light_state_of(light).temperature_kelvin <= MAX_KELVIN,
        light_state_of(light).temperature_kelvin == api_to_kelvin_value(light.temperature as int),
{
    lemma_api_scale(light.temperature as int, light.temperature as int);
}

/// A reply that does not parse is `InvalidJson` with the parser's message, a
/// reply without lights is `NoLights`, and any other reply is the state of its
/// first light (later lights are ignored).
pub proof fn lemma_response_outcome(parsed: Result<ElgatoResponse, String>)
    ensures
        parsed matches Err(msg) ==> (response_outcome(parsed) matches Err(KeyLightError::InvalidJson(m))
            && m == msg),
        parsed matches Ok(resp) ==> (resp.lights@.len() == 0 <==> response_outcome(parsed) matches Err(
            KeyLightError::NoLights,
        )),
        parsed matches Ok(resp) ==> resp.lights@.len() > 0 ==> (response_outcome(parsed) matches Ok(st)
            && st.on == (resp.lights@[0].on == 1) && st.brightness == resp.lights@[0].brightness
            && st.temperature_kelvin == api_to_kelvin_value(resp.lights@[0].temperature as int)),
{
}

/// Network and parse errors keep the underlying message at the end of theirs.
pub proof fn lemma_error_text_keeps_detail(e: KeyLightError)
    ensures
        e matches KeyLightError::Network(m) ==> error_text(e).len() >= m@.len() && error_text(e).subrange(
            error_text(e).len() - m@.len(),
            error_text(e).len() as int,
        ) == m@,
        e matches KeyLightError::InvalidJson(m) ==> error_text(e).len() >= m@.len()
            && error_text(e).subrange(error_text(e).len() - m@.len(), error_text(e).len() as int)
            == m@,
{
    match e {
        KeyLightError::Network(m) => {
            let p = "Network error: "@;
            assert((p + m@).subrange(p.len() as int, (p + m@).len() as int) =~= m@);
        },
        KeyLightError::InvalidJson(m) => {
            let p = "Invalid JSON: "@;
            assert((p + m@).subrange(p.len() as int, (p + m@).len() as int) =~= m@);
        },
        _ => {},
    }
}

} // verus!
