//! The controller's connection state machine: connection status, the light's
//! last known state, and the consecutive error counter.

use vstd::prelude::*;

verus! {

/// Maximum consecutive errors before full disconnect.
pub const MAX_CONSECUTIVE_ERRORS: u32 = 3;

/// Snapshot of the app state handed to the user interface.
#[derive(Debug, Clone)]
pub struct AppStateSnapshot {
    pub connected: bool,
    pub light_on: bool,
    pub brightness: i32,
    pub temperature: i32,
    pub ip: String,
    pub consecutive_errors: u32,
}

/// The application's state machine.
/// Tracks connection status, light state, and error count.
#[derive(Debug, Clone)]
pub struct AppState {
    pub connected: bool,
    pub light_on: bool,
    pub consecutive_errors: u32,
    pub brightness: i32,
    pub temperature: i32,
    pub ip: String,
}

/// The mathematical value of an [`AppState`].
pub struct AppStateView {
    pub connected: bool,
    pub light_on: bool,
    pub consecutive_errors: nat,
    pub brightness: int,
    pub temperature: int,
    pub ip: Seq<char>,
}

impl View for AppState {
    type V = AppStateView;

    open spec fn view(&self) -> AppStateView {
        AppStateView {
            connected: self.connected,
            light_on: self.light_on,
            consecutive_errors: self.consecutive_errors as nat,
            brightness: self.brightness as int,
            temperature: self.temperature as int,
            ip: self.ip@,
        }
    }
}

/// The state at start-up: disconnected, light off, no errors, brightness 50,
/// temperature 4950 K, no address.
pub open spec fn initial_state() -> AppStateView {
    AppStateView {
        connected: false,
        light_on: false,
        consecutive_errors: 0,
        brightness: 50,
        temperature: 4950,
        ip: Seq::empty(),
    }
}

/// A connect attempt to `ip` begins: the address is recorded and the error count cleared.
pub open spec fn began_connect(s: AppStateView, ip: Seq<char>) -> AppStateView {
    AppStateView { ip: ip, consecutive_errors: 0, ..s }
}

/// The connection succeeded.
pub open spec fn marked_connected(s: AppStateView) -> AppStateView {
    AppStateView { connected: true, consecutive_errors: 0, ..s }
}

/// The user disconnected: not connected, light considered off, no errors.
pub open spec fn disconnected(s: AppStateView) -> AppStateView {
    AppStateView { connected: false, consecutive_errors: 0, light_on: false, ..s }
}

/// A state report arrived from the light; the error count is cleared.
pub open spec fn received(s: AppStateView, on: bool, brightness: int, temperature: int) -> AppStateView {
    AppStateView {
        light_on: on,
        brightness: brightness,
        temperature: temperature,
        consecutive_errors: 0,
        ..s
    }
}

/// Whether one more error reaches the threshold that forces a disconnect.
pub open spec fn error_disconnects(s: AppStateView) -> bool {
    s.consecutive_errors + 1 >= MAX_CONSECUTIVE_ERRORS
}

/// An error occurred: the count goes up, and at the threshold the state is
/// disconnected with the light considered off.
pub open spec fn errored(s: AppStateView) -> AppStateView {
    if error_disconnects(s) {
        AppStateView {
            consecutive_errors: s.consecutive_errors + 1,
            connected: false,
            light_on: false,
            ..s
        }
    } else {
        AppStateView { consecutive_errors: s.consecutive_errors + 1, ..s }
    }
}

/// `n` errors in a row.
pub open spec fn errored_times(s: AppStateView, n: nat) -> AppStateView
    decreases n,
{
    if n == 0 {
        s
    } else {
        errored(errored_times(s, (n - 1) as nat))
    }
}

impl Default for AppState {
    fn default() -> (r: Self)
        ensures
            r@ == initial_state(),
    {
        AppState {
            connected: false,
            light_on: false,
            consecutive_errors: 0,
            brightness: 50,
            temperature: 4950,
            ip: String::new(),
        }
    }
}

impl AppState {
    /// A copy of every field, for the user interface.
    pub fn snapshot(&self) -> (r: AppStateSnapshot)
        ensures
            r.connected == self.connected,
            r.light_on == self.light_on,
            r.brightness == self.brightness,
            r.temperature == self.temperature,
            r.ip@ == self.ip@,
            r.consecutive_errors == self.consecutive_errors,
    {
        AppStateSnapshot {
            connected: self.connected,
            light_on: self.light_on,
            brightness: self.brightness,
            temperature: self.temperature,
            ip: self.ip.clone(),
            consecutive_errors: self.consecutive_errors,
        }
    }

    /// Called when a connect attempt begins.
    pub fn begin_connect(&mut self, ip: &str)
        ensures
            final(self)@ == began_connect(old(self)@, ip@),
    {
        self.ip = ip.to_owned();
        self.consecutive_errors = 0;
    }

    /// Called when the connection succeeds.
    pub fn mark_connected(&mut self)
        ensures
            final(self)@ == marked_connected(old(self)@),
    {
        self.connected = true;
        self.consecutive_errors = 0;
    }

    /// Called on disconnect.
    pub fn disconnect(&mut self)
        ensures
            final(self)@ == disconnected(old(self)@),
    {
        self.connected = false;
        self.consecutive_errors = 0;
        self.light_on = false;
    }

    /// Called when a state update is received from the light.
    /// Resets the error counter.
    pub fn on_state_received(&mut self, on: bool, brightness: i32, temperature: i32)
        ensures
            final(self)@ == received(old(self)@, on, brightness as int, temperature as int),
            final(self).light_on == on,
            final(self).brightness == brightness,
            final(self).temperature == temperature,
            final(self).consecutive_errors == 0,
            final(self).connected == old(self).connected,
            final(self).ip@ == old(self).ip@,
    {
        self.light_on = on;
        self.brightness = brightness;
        self.temperature = temperature;
        self.consecutive_errors = 0;
    }

    /// Called when an error occurs.
    /// Returns true if the error threshold was reached (should disconnect).
    pub fn on_error(&mut self) -> (should_disconnect: bool)
        requires
            old(self).consecutive_errors < u32::MAX,
        ensures
            final(self)@ == errored(old(self)@),
            should_disconnect == error_disconnects(old(self)@),
    {
        self.consecutive_errors += 1;
        if self.consecutive_errors >= MAX_CONSECUTIVE_ERRORS {
            self.connected = false;
            self.light_on = false;
            true
        } else {
            false
        }
    }

    /// Check if the light toggle should proceed.
    pub fn can_toggle_power(&self) -> (r: bool)
        ensures
            r == self.connected,
    {
        self.connected
    }
}

/// Errors are counted from the last reset: after `n` errors in a row the count
/// is `n`; a connected state stays connected while `n < 3`; the `n`-th error
/// reports that the light must be disconnected exactly when `n >= 3`, and from
/// then on the light is considered off.
pub proof fn lemma_errors_after_reset(s: AppStateView, n: nat)
    requires
        s.consecutive_errors == 0,
    ensures
        errored_times(s, n).consecutive_errors == n,
        errored_times(s, n).connected == (s.connected && n < MAX_CONSECUTIVE_ERRORS),
        n > 0 ==> (error_disconnects(errored_times(s, (n - 1) as nat)) <==> n
            >= MAX_CONSECUTIVE_ERRORS),
        n >= MAX_CONSECUTIVE_ERRORS ==> !errored_times(s, n).light_on,
        n < MAX_CONSECUTIVE_ERRORS ==> errored_times(s, n).light_on == s.light_on,
        errored_times(s, n).ip == s.ip,
        errored_times(s, n).brightness == s.brightness,
        errored_times(s, n).temperature == s.temperature,
    decreases n,
{
    if n > 0 {
        lemma_errors_after_reset(s, (n - 1) as nat);
    }
}

/// A state report from the light clears the error count: after it, a connected
/// light survives fewer than three further errors and is disconnected by the third.
pub proof fn lemma_report_resets_error_count(
    s: AppStateView,
    on: bool,
    brightness: int,
    temperature: int,
    n: nat,
)
    requires
        s.connected,
    ensures
        errored_times(received(s, on, brightness, temperature), n).connected == (n
            < MAX_CONSECUTIVE_ERRORS),
{
    lemma_errors_after_reset(received(s, on, brightness, temperature), n);
}

/// A fresh connect attempt also clears the count: after `begin_connect` and a
/// successful connection, three errors in a row are needed to disconnect.
pub proof fn lemma_connect_resets_error_count(s: AppStateView, ip: Seq<char>, n: nat)
    ensures
        errored_times(marked_connected(began_connect(s, ip)), n).connected == (n
            < MAX_CONSECUTIVE_ERRORS),
        errored_times(marked_connected(began_connect(s, ip)), n).ip == ip,
{
    lemma_errors_after_reset(marked_connected(began_connect(s, ip)), n);
}

/// Disconnecting leaves nothing to toggle: the state is not connected, the light
/// is considered off and no errors are pending; connecting again enables the toggle.
pub proof fn lemma_disconnect_then_connect(s: AppStateView)
    ensures
        !disconnected(s).connected,
        !disconnected(s).light_on,
        disconnected(s).consecutive_errors == 0,
        marked_connected(disconnected(s)).connected,
        marked_connected(disconnected(s)).consecutive_errors == 0,
        disconnected(s).ip == s.ip,
{
}

/// A state report records exactly what the light reported, whatever the
/// state held before and whatever the power state: the recorded power state,
/// brightness and temperature are the reported ones, the error count is
/// cleared, and the connection and address are untouched.
pub proof fn lemma_report_records_values(s: AppStateView, on: bool, brightness: int, temperature: int)
    ensures
        received(s, on, brightness, temperature).light_on == on,
        received(s, on, brightness, temperature).brightness == brightness,
        received(s, on, brightness, temperature).temperature == temperature,
        received(s, on, brightness, temperature).consecutive_errors == 0,
        received(s, on, brightness, temperature).connected == s.connected,
        received(s, on, brightness, temperature).ip == s.ip,
{
}

/// Two reports in a row: the second one wins entirely, the first leaves no trace.
pub proof fn lemma_later_report_wins(
    s: AppStateView,
    on1: bool,
    b1: int,
    t1: int,
    on2: bool,
    b2: int,
    t2: int,
)
    ensures
        received(received(s, on1, b1, t1), on2, b2, t2) == received(s, on2, b2, t2),
{
}

/// What each transition does, field by field: a connect attempt records the
/// address and clears the count; a success marks the state connected and clears
/// the count; a disconnect clears connection, power state and count; an error
/// adds one to the count and, exactly when the count reaches 3, drops the
/// connection and the power state. Nothing else changes.
pub proof fn lemma_transitions(s: AppStateView, ip: Seq<char>)
    ensures
        began_connect(s, ip).ip == ip,
        began_connect(s, ip).consecutive_errors == 0,
        began_connect(s, ip).connected == s.connected,
        began_connect(s, ip).light_on == s.light_on,
        marked_connected(s).connected,
        marked_connected(s).consecutive_errors == 0,
        marked_connected(s).light_on == s.light_on,
        marked_connected(s).ip == s.ip,
        !disconnected(s).connected,
        !disconnected(s).light_on,
        disconnected(s).consecutive_errors == 0,
        disconnected(s).brightness == s.brightness,
        disconnected(s).temperature == s.temperature,
        errored(s).consecutive_errors == s.consecutive_errors + 1,
        errored(s).connected == (s.connected && s.consecutive_errors + 1 < 3),
        errored(s).light_on == (s.light_on && s.consecutive_errors + 1 < 3),
        error_disconnects(s) <==> s.consecutive_errors >= 2,
        errored(s).brightness == s.brightness,
        errored(s).temperature == s.temperature,
        errored(s).ip == s.ip,
{
}

/// At start-up the light is neither connected nor on, no errors are pending,
/// brightness is 50, temperature 4950 K, and no address is known.
pub proof fn lemma_initial_state()
    ensures
        !initial_state().connected,
        !initial_state().light_on,
        initial_state().consecutive_errors == 0,
        initial_state().brightness == 50,
        initial_state().temperature == 4950,
        initial_state().ip.len() == 0,
{
}

} // verus!
