//! The controller's decisions on each event: what the state becomes and what
//! is reported to the user interface, the tray and the light.

use vstd::prelude::*;
use vstd::string::*;
use crate::app_state::{
    AppState, AppStateView, MAX_CONSECUTIVE_ERRORS, began_connect, disconnected, error_disconnects,
    errored, marked_connected, received,
};
use crate::config::{Config, is_saved};
use crate::keylight::{KeyLightError, LightCommand, LightState, error_text};

verus! {

/// Payload of the `state-received` event.
#[derive(Debug, Clone)]
pub struct StateReceivedPayload {
    pub on: bool,
    pub brightness: i32,
    pub temperature: i32,
}

/// Payload of the `connection-succeeded` event.
#[derive(Debug, Clone)]
pub struct ConnectionSucceededPayload {
    pub ip: String,
}

/// Payload of the `error` event.
#[derive(Debug, Clone)]
pub struct ErrorPayload {
    pub message: String,
    pub consecutive_errors: u32,
    pub disconnected: bool,
}

/// Payload of the `status-update` event.
#[derive(Debug, Clone)]
pub struct StatusUpdatePayload {
    pub text: String,
    pub color: String,
}

/// The `state-received` payload for a light state.
pub open spec fn received_payload(light: LightState) -> StateReceivedPayload {
    StateReceivedPayload {
        on: light.on,
        brightness: light.brightness,
        temperature: light.temperature_kelvin,
    }
}

/// The `state-received` payload for a light state.
pub fn state_received_payload(light: &LightState) -> (r: StateReceivedPayload)
    ensures
        r == received_payload(*light),
        r.on == light.on,
        r.brightness == light.brightness,
        r.temperature == light.temperature_kelvin,
{
    StateReceivedPayload {
        on: light.on,
        brightness: light.brightness,
        temperature: light.temperature_kelvin,
    }
}

/// The status shown while connected: "Connected to {ip}", in green.
pub fn connected_status(ip: &str) -> (r: StatusUpdatePayload)
    ensures
        r.text@ == "Connected to "@ + ip@,
        r.color@ == "green"@,
{
    let mut text = String::from_str("Connected to ");
    text.append(ip);
    StatusUpdatePayload { text, color: String::from_str("green") }
}

/// The status shown after disconnecting: "Disconnected", in gray.
pub fn disconnected_status() -> (r: StatusUpdatePayload)
    ensures
        r.text@ == "Disconnected"@,
        r.color@ == "gray"@,
{
    StatusUpdatePayload { text: String::from_str("Disconnected"), color: String::from_str("gray") }
}

/// The PUT that restores saved settings after connecting: brightness and
/// temperature in one request when both are saved (keeping the light's power
/// state), the one that is saved otherwise, nothing when neither is.
pub open spec fn restore_plan(saved_brightness: int, saved_temperature: int, on: bool) -> Option<LightCommand> {
    if is_saved(saved_brightness) && is_saved(saved_temperature) {
        Some(LightCommand::State { on: on, brightness: saved_brightness as i32, kelvin: saved_temperature as i32 })
    } else if is_saved(saved_brightness) {
        Some(LightCommand::Brightness(saved_brightness as i32))
    } else if is_saved(saved_temperature) {
        Some(LightCommand::Temperature(saved_temperature as i32))
    } else {
        None
    }
}

/// The PUT that restores the saved brightness and temperature, if any.
pub fn restore_command(saved_brightness: i32, saved_temperature: i32, on: bool) -> (r: Option<LightCommand>)
    ensures
        r == restore_plan(saved_brightness as int, saved_temperature as int, on),
{
    if saved_brightness >= 0 && saved_temperature >= 0 {
        Some(LightCommand::State { on, brightness: saved_brightness, kelvin: saved_temperature })
    } else if saved_brightness >= 0 {
        Some(LightCommand::Brightness(saved_brightness))
    } else if saved_temperature >= 0 {
        Some(LightCommand::Temperature(saved_temperature))
    } else {
        None
    }
}

/// What follows a successful connection.
#[derive(Debug, Clone)]
pub struct ConnectOutcome {
    /// The `connection-succeeded` event.
    pub succeeded: ConnectionSucceededPayload,
    /// The first `state-received` event.
    pub received: StateReceivedPayload,
    /// The PUT restoring the saved settings, if any.
    pub restore: Option<LightCommand>,
}

/// The first state report of the light at `ip` arrived: the state is connected
/// and takes the reported values; the saved settings are to be restored.
pub fn on_connected(state: &mut AppState, ip: &str, light: &LightState, config: &Config) -> (r: ConnectOutcome)
    ensures
        final(state)@ == received(
            marked_connected(old(state)@),
            light.on,
            light.brightness as int,
            light.temperature_kelvin as int,
        ),
        r.succeeded.ip@ == ip@,
        r.received == received_payload(*light),
        r.restore == restore_plan(config.brightness as int, config.temperature as int, light.on),
{
    state.mark_connected();
    state.on_state_received(light.on, light.brightness, light.temperature_kelvin);
    ConnectOutcome {
        succeeded: ConnectionSucceededPayload { ip: ip.to_owned() },
        received: state_received_payload(light),
        restore: restore_command(config.brightness, config.temperature, light.on),
    }
}

/// A connect attempt failed: the error is counted, and the `error` event carries
/// the message, the count (the threshold itself when it forces a disconnect)
/// and whether it does.
pub fn on_connect_failed(state: &mut AppState, error: &KeyLightError) -> (r: ErrorPayload)
    requires
        old(state).consecutive_errors < u32::MAX,
    ensures
        final(state)@ == errored(old(state)@),
        r.message@ == error_text(*error),
        r.disconnected == error_disconnects(old(state)@),
        r.consecutive_errors == if r.disconnected {
            MAX_CONSECUTIVE_ERRORS
        } else {
            final(state).consecutive_errors
        },
{
    let should_disconnect = state.on_error();
    let message = error.message();
    if should_disconnect {
        ErrorPayload { message, consecutive_errors: MAX_CONSECUTIVE_ERRORS, disconnected: true }
    } else {
        ErrorPayload { message, consecutive_errors: state.consecutive_errors, disconnected: false }
    }
}

/// A request to a connected light failed: the error is counted, and the `error`
/// event carries the message, the new count and whether it forces a disconnect
/// (then the tray shows the light as disconnected and off).
pub fn on_request_failed(state: &mut AppState, error: &KeyLightError) -> (r: ErrorPayload)
    requires
        old(state).consecutive_errors < u32::MAX,
    ensures
        final(state)@ == errored(old(state)@),
        r.message@ == error_text(*error),
        r.disconnected == error_disconnects(old(state)@),
        r.consecutive_errors == final(state).consecutive_errors,
{
    let disconnected = state.on_error();
    ErrorPayload {
        message: error.message(),
        consecutive_errors: state.consecutive_errors,
        disconnected,
    }
}

/// What a state report changes in the user interface.
#[derive(Debug, Clone)]
pub struct StateUpdate {
    /// "Connected to {ip}" when the report ends a run of errors.
    pub status: Option<StatusUpdatePayload>,
    /// The `state-received` event.
    pub received: StateReceivedPayload,
}

/// Whether a state report is taken: a reply to a command is dropped once the
/// user has disconnected (it is stale); a poll result is always taken.
pub open spec fn report_applies(s: AppStateView, require_connected: bool) -> bool {
    !require_connected || s.connected
}

/// The state after a report: the reported values when it is taken, unchanged otherwise.
pub open spec fn after_report(s: AppStateView, light: LightState, require_connected: bool) -> AppStateView {
    if report_applies(s, require_connected) {
        received(s, light.on, light.brightness as int, light.temperature_kelvin as int)
    } else {
        s
    }
}

/// A state report arrived, from the reply to a command (`require_connected`)
/// or from the periodic poll. When taken, the state takes its values, the
/// `state-received` event follows, and when errors were pending the status
/// returns to "Connected to {ip}".
pub fn on_light_state(state: &mut AppState, light: &LightState, require_connected: bool) -> (r: Option<StateUpdate>)
    ensures
        final(state)@ == after_report(old(state)@, *light, require_connected),
        r is Some <==> report_applies(old(state)@, require_connected),
        r is Some <==> (!require_connected || old(state).connected),
        r is Some ==> final(state).light_on == light.on && final(state).brightness == light.brightness
            && final(state).temperature == light.temperature_kelvin && final(state).consecutive_errors
            == 0,
        r is None ==> final(state)@ == old(state)@,
        final(state).connected == old(state).connected,
        r matches Some(u) ==> {
            &&& u.received == received_payload(*light)
            &&& u.received.on == light.on
            &&& u.received.brightness == light.brightness
            &&& u.received.temperature == light.temperature_kelvin
            &&& (u.status is Some <==> old(state).consecutive_errors > 0)
            &&& u.status matches Some(st) ==> st.text@ == "Connected to "@ + old(state).ip@
                && st.color@ == "green"@
        },
{
    if require_connected && !state.connected {
        return None;
    }
    let was_in_error = state.consecutive_errors > 0;
    let status = if was_in_error {
        Some(connected_status(state.ip.as_str()))
    } else {
        None
    };
    state.on_state_received(light.on, light.brightness, light.temperature_kelvin);
    Some(StateUpdate { status, received: state_received_payload(light) })
}

/// The power state a toggle asks for: the opposite of the current one, and
/// only while connected.
pub fn toggle_target(state: &AppState) -> (r: Option<bool>)
    ensures
        r == if state.connected {
            Some(!state.light_on)
        } else {
            None::<bool>
        },
{
    if state.can_toggle_power() {
        Some(!state.light_on)
    } else {
        None
    }
}

/// The user disconnects: the state is disconnected and the status says so.
pub fn on_disconnect(state: &mut AppState) -> (r: StatusUpdatePayload)
    ensures
        final(state)@ == disconnected(old(state)@),
        r.text@ == "Disconnected"@,
        r.color@ == "gray"@,
{
    state.disconnect();
    disconnected_status()
}

/// A reply that arrives after the user disconnected changes nothing.
pub proof fn lemma_stale_reply_ignored(s: AppStateView, light: LightState)
    ensures
        !report_applies(disconnected(s), true),
        after_report(disconnected(s), light, true) == disconnected(s),
{
}

/// A failed connect attempt never forces a disconnect on its own: the attempt
/// starts from a cleared error count.
pub proof fn lemma_failed_connect_counts_one(s: AppStateView, ip: Seq<char>)
    ensures
        !error_disconnects(began_connect(s, ip)),
        errored(began_connect(s, ip)).consecutive_errors == 1,
{
}

/// Saved settings are restored exactly: both saved values in one request that
/// keeps the light's power state, a single saved value on its own, and
/// nothing is sent when neither is saved.
pub proof fn lemma_restore_sends_saved_values(b: i32, t: i32, on: bool)
    ensures
        (b >= 0 && t >= 0) ==> restore_plan(b as int, t as int, on) == Some(
            LightCommand::State { on: on, brightness: b, kelvin: t },
        ),
        (b >= 0 && t < 0) ==> restore_plan(b as int, t as int, on) == Some(LightCommand::Brightness(b)),
        (b < 0 && t >= 0) ==> restore_plan(b as int, t as int, on) == Some(LightCommand::Temperature(t)),
        (b < 0 && t < 0) ==> restore_plan(b as int, t as int, on) is None,
{
}

/// The `state-received` payload carries the reported values unchanged.
pub proof fn lemma_payload_carries_report(light: LightState)
    ensures
        received_payload(light).on == light.on,
        received_payload(light).brightness == light.brightness,
        received_payload(light).temperature == light.temperature_kelvin,
{
}

/// A poll result is always taken, connected or not, and the state then holds the
/// polled values; a reply to a command is taken exactly while connected.
pub proof fn lemma_poll_always_taken(s: AppStateView, light: LightState)
    ensures
        report_applies(s, false),
        after_report(s, light, false).light_on == light.on,
        after_report(s, light, false).brightness == light.brightness,
        after_report(s, light, false).temperature == light.temperature_kelvin,
        after_report(s, light, false).consecutive_errors == 0,
        after_report(s, light, false).connected == s.connected,
        report_applies(s, true) == s.connected,
        s.connected ==> after_report(s, light, true) == after_report(s, light, false),
        !s.connected ==> after_report(s, light, true) == s,
{
}

} // verus!
