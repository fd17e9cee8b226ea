//! The decisions of the background RGB thread, as a state machine: given the
//! thread's state and what just happened, the next state and what to send.
//! The thread itself (channel, socket, clock, sleeping) runs outside the library.
use vstd::prelude::*;
use std::time::Duration;
use crate::role::application::rgb::protocol::{RgbColor, OpenRGBDevice, DeviceView};

verus! {

/// A command sent to the RGB thread.
pub enum RgbCommand {
    SetColor(RgbColor),
    /// Color for every device of the given OpenRGB device type.
    SetDeviceColor(u32, RgbColor),
    Flash { color: RgbColor, duration: Duration },
}

/// A flash in progress: it fades from `target_color` back to `start_color`
/// between `start_ms` and `end_ms`.
#[derive(Clone, Copy, Debug, PartialEq, Eq, Structural)]
pub struct FlashState {
    pub start_ms: u64,
    pub end_ms: u64,
    pub start_color: RgbColor,
    pub target_color: RgbColor,
}

/// What the RGB thread remembers between events.
#[derive(Clone, Copy, Debug, PartialEq, Eq, Structural)]
pub struct RgbLoopState {
    /// Whether a connection to the server is open.
    pub connected: bool,
    /// The ambient color last asked for.
    pub current_color: RgbColor,
    pub flash: Option<FlashState>,
}

/// What happened to the RGB thread (times in milliseconds on one clock).
#[derive(Clone, Copy, Debug, PartialEq, Eq, Structural)]
pub enum RgbEvent {
    /// A connection attempt succeeded.
    Connected,
    SetColor(RgbColor),
    SetDeviceColor(u32, RgbColor),
    Flash { color: RgbColor, duration_ms: u64, now_ms: u64 },
    /// No command arrived before the wait ended.
    Timeout { now_ms: u64 },
    /// Every sender is gone.
    Disconnected,
    /// Sending colors to the server failed.
    WriteFailed,
}

/// What the RGB thread does next.
#[derive(Clone, Copy, Debug, PartialEq, Eq, Structural)]
pub enum RgbAction {
    Nothing,
    /// Send `color` to every LED of every device; when `report_failure`,
    /// a failure is fed back as `WriteFailed`.
    WriteAll { color: RgbColor, report_failure: bool },
    /// Send `color` to every LED of the devices of one type; a failure is fed back.
    WriteType { device_type: u32, color: RgbColor },
    /// Send the color a fraction `(now - start) / (end - start)` (clamped to
    /// [0, 1]) of the way from `from` to `to`; a failure is fed back.
    Fade { from: RgbColor, to: RgbColor, start_ms: u64, end_ms: u64, now_ms: u64 },
    /// Give every device its initial colors back, load the restore profile if
    /// there is one, then stop.
    RestoreAndStop,
    /// Stop.
    Stop,
}

/// The state of a freshly started thread: not connected, black, no flash.
pub fn initial_state() -> (s: RgbLoopState)
    ensures
        s == (RgbLoopState { connected: false, current_color: RgbColor { r: 0, g: 0, b: 0 }, flash: None }),
{
    RgbLoopState { connected: false, current_color: RgbColor::black(), flash: None }
}

/// How long the thread waits for a command: 16 ms while a flash fades,
/// 2 s while disconnected, 100 ms otherwise.
pub fn wait_ms(s: &RgbLoopState) -> (ms: u64)
    ensures
        ms == (if s.flash is Some { 16u64 } else if !s.connected { 2000u64 } else { 100u64 }),
{
    if s.flash.is_some() {
        16
    } else if !s.connected {
        2000
    } else {
        100
    }
}

/// Whether to try to connect now: only while disconnected, and more than
/// 5 s after the previous attempt.
pub fn should_connect(s: &RgbLoopState, now_ms: u64, last_attempt_ms: u64) -> (b: bool)
    ensures
        b == (!s.connected && now_ms > last_attempt_ms && now_ms - last_attempt_ms > 5000),
{
    !s.connected && now_ms > last_attempt_ms && now_ms - last_attempt_ms > 5000
}

/// The next state and action of the thread.
pub open spec fn spec_step(s: RgbLoopState, e: RgbEvent) -> (RgbLoopState, RgbAction) {
    match e {
        RgbEvent::Connected => (
            RgbLoopState { connected: true, ..s },
            if s.flash is None {
                RgbAction::WriteAll { color: s.current_color, report_failure: false }
            } else {
                RgbAction::Nothing
            },
        ),
        RgbEvent::SetColor(c) => (
            RgbLoopState { current_color: c, ..s },
            if s.flash is None && s.connected {
                RgbAction::WriteAll { color: c, report_failure: true }
            } else {
                RgbAction::Nothing
            },
        ),
        RgbEvent::SetDeviceColor(t, c) => (
            s,
            if s.flash is None && s.connected {
                RgbAction::WriteType { device_type: t, color: c }
            } else {
                RgbAction::Nothing
            },
        ),
        RgbEvent::Flash { color, duration_ms, now_ms } => (
            RgbLoopState {
                flash: Some(
                    FlashState {
                        start_ms: now_ms,
                        end_ms: if now_ms + duration_ms > u64::MAX { u64::MAX } else { (now_ms
                            + duration_ms) as u64 },
                        start_color: s.current_color,
                        target_color: color,
                    },
                ),
                ..s
            },
            if s.connected {
                RgbAction::WriteAll { color, report_failure: true }
            } else {
                RgbAction::Nothing
            },
        ),
        RgbEvent::Timeout { now_ms } => match s.flash {
            None => (s, RgbAction::Nothing),
            Some(f) => if now_ms >= f.end_ms {
                (
                    RgbLoopState { flash: None, ..s },
                    if s.connected {
                        RgbAction::WriteAll { color: f.start_color, report_failure: true }
                    } else {
                        RgbAction::Nothing
                    },
                )
            } else {
                (
                    s,
                    if s.connected {
                        RgbAction::Fade {
                            from: f.target_color,
                            to: f.start_color,
                            start_ms: f.start_ms,
                            end_ms: f.end_ms,
                            now_ms,
                        }
                    } else {
                        RgbAction::Nothing
                    },
                )
            },
        },
        RgbEvent::Disconnected => (
            s,
            if s.connected { RgbAction::RestoreAndStop } else { RgbAction::Stop },
        ),
        RgbEvent::WriteFailed => (RgbLoopState { connected: false, ..s }, RgbAction::Nothing),
    }
}

/// Applies one event to the thread's state and gives the action to perform.
pub fn step(s: &mut RgbLoopState, e: RgbEvent) -> (a: RgbAction)
    ensures
        (*final(s), a) == spec_step(*old(s), e),
{
    match e {
        RgbEvent::Connected => {
            s.connected = true;
            if s.flash.is_none() {
                RgbAction::WriteAll { color: s.current_color, report_failure: false }
            } else {
                RgbAction::Nothing
            }
        },
        RgbEvent::SetColor(c) => {
            s.current_color = c;
            if s.flash.is_none() && s.connected {
                RgbAction::WriteAll { color: c, report_failure: true }
            } else {
                RgbAction::Nothing
            }
        },
        RgbEvent::SetDeviceColor(t, c) => {
            if s.flash.is_none() && s.connected {
                RgbAction::WriteType { device_type: t, color: c }
            } else {
                RgbAction::Nothing
            }
        },
        RgbEvent::Flash { color, duration_ms, now_ms } => {
            let end_ms = now_ms.saturating_add(duration_ms);
            s.flash = Some(
                FlashState {
                    start_ms: now_ms,
                    end_ms,
                    start_color: s.current_color,
                    target_color: color,
                },
            );
            if s.connected {
                RgbAction::WriteAll { color, report_failure: true }
            } else {
                RgbAction::Nothing
            }
        },
        RgbEvent::Timeout { now_ms } => {
            match s.flash {
                None => RgbAction::Nothing,
                Some(f) => {
                    if now_ms >= f.end_ms {
                        s.flash = None;
                        if s.connected {
                            RgbAction::WriteAll { color: f.start_color, report_failure: true }
                        } else {
                            RgbAction::Nothing
                        }
                    } else if s.connected {
                        RgbAction::Fade {
                            from: f.target_color,
                            to: f.start_color,
                            start_ms: f.start_ms,
                            end_ms: f.end_ms,
                            now_ms,
                        }
                    } else {
                        RgbAction::Nothing
                    }
                },
            }
        },
        RgbEvent::Disconnected => {
            if s.connected {
                RgbAction::RestoreAndStop
            } else {
                RgbAction::Stop
            }
        },
        RgbEvent::WriteFailed => {
            s.connected = false;
            RgbAction::Nothing
        },
    }
}


/// The (index, LED count) of the devices whose type is `t`, or of every
/// device when `t` is `None`, in order.
pub open spec fn spec_targets(ds: Seq<DeviceView>, t: Option<u32>) -> Seq<(u32, u16)>
    decreases ds.len(),
{
    if ds.len() == 0 {
        Seq::empty()
    } else {
        let d = ds.last();
        spec_targets(ds.drop_last(), t) + if t is None || t == Some(d.device_type) {
            seq![(d.index, d.num_leds)]
        } else {
            Seq::empty()
        }
    }
}

/// The (index, LED count) of the devices to write to: all of them when
/// `device_type` is `None`, else those of that type.
pub fn write_targets(devices: &Vec<OpenRGBDevice>, device_type: Option<u32>) -> (v: Vec<(u32, u16)>)
    ensures
        v@ == spec_targets(devices@.map_values(|d: OpenRGBDevice| d@), device_type),
{
    let ghost views = devices@.map_values(|d: OpenRGBDevice| d@);
    let mut v: Vec<(u32, u16)> = Vec::new();
    for i in 0..devices.len()
        invariant
            views == devices@.map_values(|d: OpenRGBDevice| d@),
            v@ == spec_targets(views.take(i as int), device_type),
    {
        let d = &devices[i];
        assert(views.take(i + 1).drop_last() == views.take(i as int));
        assert(views.take(i + 1).last() == d@);
        let wanted = match device_type {
            None => true,
            Some(t) => d.device_type == t,
        };
        if wanted {
            v.push((d.index, d.num_leds));
        }
    }
    assert(views.take(devices.len() as int) == views);
    v
}

/// `n` copies of `color`: the colors that paint a whole device.
pub fn solid_colors(color: RgbColor, n: u16) -> (v: Vec<RgbColor>)
    ensures
        v@ == Seq::new(n as nat, |_i: int| color),
{
    let mut v: Vec<RgbColor> = Vec::new();
    for i in 0..n
        invariant
            v@ == Seq::new(i as nat, |_i: int| color),
    {
        v.push(color);
        assert(v@ == Seq::new((i + 1) as nat, |_i: int| color));
    }
    v
}

/// A flash gives the ambient color back: once a flash has started, the first
/// timeout at or after its end clears it and (while connected) sends the
/// color that was current when it started.
pub proof fn lemma_flash_restores(s: RgbLoopState, color: RgbColor, duration_ms: u64, now_ms: u64, later_ms: u64)
    requires
        s.connected,
        now_ms + duration_ms <= u64::MAX,
        later_ms >= now_ms + duration_ms,
    ensures
        ({
            let s1 = spec_step(s, RgbEvent::Flash { color, duration_ms, now_ms }).0;
            let (s2, a) = spec_step(s1, RgbEvent::Timeout { now_ms: later_ms });
            &&& s2.flash is None
            &&& s2.current_color == s.current_color
            &&& a == RgbAction::WriteAll { color: s.current_color, report_failure: true }
        }),
{
}

/// While a flash fades, color commands change the ambient color but send nothing.
pub proof fn lemma_flash_holds_commands(s: RgbLoopState, c: RgbColor)
    requires
        s.flash is Some,
    ensures
        spec_step(s, RgbEvent::SetColor(c)).1 == RgbAction::Nothing,
        spec_step(s, RgbEvent::SetColor(c)).0.current_color == c,
{
}


/// A failed write drops the connection, and the next connection sends the
/// ambient color again (when no flash is fading).
pub proof fn lemma_reconnect_restores(s: RgbLoopState)
    requires
        s.flash is None,
    ensures
        ({
            let s1 = spec_step(s, RgbEvent::WriteFailed).0;
            let (s2, a) = spec_step(s1, RgbEvent::Connected);
            &&& !s1.connected
            &&& s2.connected
            &&& s2.current_color == s.current_color
            &&& a == RgbAction::WriteAll { color: s.current_color, report_failure: false }
        }),
{
}

/// Ending the thread restores the devices exactly when a connection is open.
pub proof fn lemma_disconnect_stops(s: RgbLoopState)
    ensures
        spec_step(s, RgbEvent::Disconnected).1 == (if s.connected {
            RgbAction::RestoreAndStop
        } else {
            RgbAction::Stop
        }),
        spec_step(s, RgbEvent::Disconnected).0 == s,
{
}

} // verus!
