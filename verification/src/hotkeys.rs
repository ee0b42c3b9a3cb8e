//! Global hotkeys: the registry of the push-to-talk and voice-toggle keys,
//! the decisions of the message loop that watches them, and the release
//! test of the push-to-talk key. The Windows calls stay with the caller.

use vstd::prelude::*;
use crate::text::{concat, decimal, decimal_spec};

verus! {

/// A virtual key code and its modifier mask (`MOD_ALT` 1, `MOD_CONTROL` 2,
/// `MOD_SHIFT` 4, `MOD_WIN` 8).
#[derive(PartialEq, Eq, Structural, Clone, Copy, Debug)]
pub struct HotkeyConfig {
    pub key: u32,
    pub modifiers: u32,
}

/// The id under which the push-to-talk hotkey is registered.
pub const HOTKEY_ID_PTT: i32 = 1;

/// The id under which the voice-toggle hotkey is registered.
pub const HOTKEY_ID_VAD: i32 = 2;

/// The hotkey settings and the state shared with the message loop.
#[derive(PartialEq, Eq, Structural, Clone, Copy, Debug)]
pub struct HotkeyRegistry {
    pub ptt: Option<HotkeyConfig>,
    pub vad: Option<HotkeyConfig>,
    /// Whether the message loop thread is (to be) running.
    pub thread_running: bool,
    /// Whether the push-to-talk key is held, as last seen.
    pub ptt_pressed: bool,
}

/// A message that the loop received.
#[derive(PartialEq, Eq, Structural, Clone, Copy, Debug)]
pub enum HotkeyMessage {
    /// `WM_QUIT`.
    Quit,
    /// `WM_HOTKEY` with the id of the hotkey.
    Hotkey { id: i32 },
    /// Any other message.
    Other,
}

/// What the loop does with a message.
#[derive(PartialEq, Eq, Structural, Clone, Copy, Debug)]
pub enum LoopAction {
    /// Leave the loop.
    Exit,
    /// Emit `ptt-press`, and watch this key for its release if it is given.
    PttPress { watch_release: Option<u32> },
    /// Emit `vad-toggle`.
    VadToggle,
    /// Nothing to do.
    Continue,
}

/// One message handled by the loop: the registry after it and the action.
pub open spec fn loop_step(r: HotkeyRegistry, message: HotkeyMessage, release_key: Option<u32>) -> (
    HotkeyRegistry,
    LoopAction,
) {
    match message {
        HotkeyMessage::Quit => (r, LoopAction::Exit),
        HotkeyMessage::Hotkey { id } => if id == HOTKEY_ID_PTT {
            (
                HotkeyRegistry { ptt_pressed: true, ..r },
                if r.ptt_pressed {
                    LoopAction::Continue
                } else {
                    LoopAction::PttPress { watch_release: release_key }
                },
            )
        } else if id == HOTKEY_ID_VAD {
            (r, LoopAction::VadToggle)
        } else {
            (r, LoopAction::Continue)
        },
        HotkeyMessage::Other => (r, LoopAction::Continue),
    }
}

/// The registry once a push-to-talk hotkey is set: the loop runs.
pub open spec fn with_ptt(r: HotkeyRegistry, key: u32, modifiers: u32) -> HotkeyRegistry {
    HotkeyRegistry { ptt: Some(HotkeyConfig { key, modifiers }), thread_running: true, ..r }
}

/// The registry once a voice-toggle hotkey is set: the loop runs.
pub open spec fn with_vad(r: HotkeyRegistry, key: u32, modifiers: u32) -> HotkeyRegistry {
    HotkeyRegistry { vad: Some(HotkeyConfig { key, modifiers }), thread_running: true, ..r }
}

/// The registry with no hotkeys and no loop.
pub open spec fn cleared() -> HotkeyRegistry {
    HotkeyRegistry { ptt: None, vad: None, thread_running: false, ptt_pressed: false }
}

/// The registry once the watched key was seen released.
pub open spec fn released(r: HotkeyRegistry) -> HotkeyRegistry {
    HotkeyRegistry { ptt_pressed: false, ..r }
}

impl HotkeyRegistry {
    /// No hotkeys, no loop.
    pub fn new() -> (r: Self)
        ensures
            r == cleared(),
    {
        HotkeyRegistry { ptt: None, vad: None, thread_running: false, ptt_pressed: false }
    }

    /// Sets the push-to-talk hotkey and (re)starts the loop so that it
    /// registers it. Returns whether a running loop must be stopped first.
    pub fn register_ptt(&mut self, key: u32, modifiers: u32) -> (stop_running: bool)
        ensures
            stop_running == old(self).thread_running,
            *final(self) == with_ptt(*old(self), key, modifiers),
    {
        self.ptt = Some(HotkeyConfig { key, modifiers });
        let stop_running = self.thread_running;
        self.thread_running = true;
        stop_running
    }

    /// Sets the voice-toggle hotkey and (re)starts the loop so that it
    /// registers it. Returns whether a running loop must be stopped first.
    pub fn register_vad_toggle(&mut self, key: u32, modifiers: u32) -> (stop_running: bool)
        ensures
            stop_running == old(self).thread_running,
            *final(self) == with_vad(*old(self), key, modifiers),
    {
        self.vad = Some(HotkeyConfig { key, modifiers });
        let stop_running = self.thread_running;
        self.thread_running = true;
        stop_running
    }

    /// Forgets both hotkeys and stops the loop.
    pub fn unregister_all(&mut self)
        ensures
            *final(self) == cleared(),
    {
        self.thread_running = false;
        self.ptt_pressed = false;
        self.ptt = None;
        self.vad = None;
    }

    /// What the loop does with a message. A press of the push-to-talk key
    /// counts only once until its release; `release_key` is the key to
    /// watch, known once its registration succeeded.
    pub fn on_message(&mut self, message: HotkeyMessage, release_key: Option<u32>) -> (r:
        LoopAction)
        ensures
            (*final(self), r) == loop_step(*old(self), message, release_key),
    {
        match message {
            HotkeyMessage::Quit => LoopAction::Exit,
            HotkeyMessage::Hotkey { id } => {
                if id == HOTKEY_ID_PTT {
                    let was_pressed = self.ptt_pressed;
                    self.ptt_pressed = true;
                    if was_pressed {
                        LoopAction::Continue
                    } else {
                        LoopAction::PttPress { watch_release: release_key }
                    }
                } else if id == HOTKEY_ID_VAD {
                    LoopAction::VadToggle
                } else {
                    LoopAction::Continue
                }
            },
            HotkeyMessage::Other => LoopAction::Continue,
        }
    }

    /// The watched key was seen released: emit `ptt-release`.
    pub fn on_ptt_release(&mut self)
        ensures
            *final(self) == released(*old(self)),
    {
        self.ptt_pressed = false;
    }

    /// The loop ended: the key is no longer held.
    pub fn on_loop_exit(&mut self)
        ensures
            *final(self) == (HotkeyRegistry { ptt_pressed: false, ..*old(self) }),
    {
        self.ptt_pressed = false;
    }
}

/// Whether a `GetAsyncKeyState` result says the key is up: bit 15 clear.
pub fn key_is_released(state: i16) -> (r: bool)
    ensures
        r == (state >= 0),
{
    let r = (state & -0x8000i16) == 0;
    assert(((state & -0x8000i16) == 0) == (state >= 0)) by (bit_vector);
    r
}

/// The message when a hotkey could not be registered: `Failed to register
/// <which> hotkey: key=<key>, modifiers=<modifiers>`.
pub fn registration_failed_message(which: &str, config: HotkeyConfig) -> (r: String)
    ensures
        r@ == "Failed to register "@ + which@ + " hotkey: key="@ + decimal_spec(
            config.key as nat,
        ) + ", modifiers="@ + decimal_spec(config.modifiers as nat),
{
    let a = concat("Failed to register ", which);
    let b = concat(a.as_str(), " hotkey: key=");
    let k = decimal(config.key as u64);
    let c = concat(b.as_str(), k.as_str());
    let d = concat(c.as_str(), ", modifiers=");
    let m = decimal(config.modifiers as u64);
    concat(d.as_str(), m.as_str())
}

/// The `WM_HOTKEY` message of the push-to-talk key.
pub open spec fn ptt_hotkey_message() -> HotkeyMessage {
    HotkeyMessage::Hotkey { id: HOTKEY_ID_PTT }
}

/// A push-to-talk hold gives one press until its release: a second
/// `WM_HOTKEY` for the key while it is held does nothing, and once it is
/// released the next one is a press again.
pub proof fn lemma_ptt_press_once_per_hold(r: HotkeyRegistry, release_key: Option<u32>)
    requires
        !r.ptt_pressed,
    ensures
        loop_step(r, ptt_hotkey_message(), release_key).1 == (LoopAction::PttPress {
            watch_release: release_key,
        }),
        loop_step(
            loop_step(r, ptt_hotkey_message(), release_key).0,
            ptt_hotkey_message(),
            release_key,
        ).1 == LoopAction::Continue,
        loop_step(
            released(loop_step(r, ptt_hotkey_message(), release_key).0),
            ptt_hotkey_message(),
            release_key,
        ).1 == (LoopAction::PttPress { watch_release: release_key }),
{
}

/// Registering the same hotkey again changes nothing but restarts the
/// loop; setting one hotkey keeps the other; unregistering forgets all.
pub proof fn lemma_registration(r: HotkeyRegistry, key: u32, modifiers: u32)
    ensures
        with_ptt(with_ptt(r, key, modifiers), key, modifiers) == with_ptt(r, key, modifiers),
        with_vad(with_vad(r, key, modifiers), key, modifiers) == with_vad(r, key, modifiers),
        with_ptt(r, key, modifiers).vad == r.vad,
        with_vad(r, key, modifiers).ptt == r.ptt,
        with_ptt(r, key, modifiers).thread_running,
        with_vad(r, key, modifiers).thread_running,
{
}

/// Only the push-to-talk hotkey changes the registry: a voice-toggle
/// press, a hotkey of another id, any other message and `WM_QUIT` leave it
/// as it was. The voice-toggle press asks for a toggle, a quit asks to
/// leave, and the rest ask for nothing.
pub proof fn lemma_other_messages_keep_registry(
    r: HotkeyRegistry,
    message: HotkeyMessage,
    release_key: Option<u32>,
)
    requires
        message != ptt_hotkey_message(),
    ensures
        loop_step(r, message, release_key).0 == r,
        message == (HotkeyMessage::Hotkey { id: HOTKEY_ID_VAD }) ==> loop_step(
            r,
            message,
            release_key,
        ).1 == LoopAction::VadToggle,
        message == HotkeyMessage::Quit ==> loop_step(r, message, release_key).1
            == LoopAction::Exit,
        message == HotkeyMessage::Other ==> loop_step(r, message, release_key).1
            == LoopAction::Continue,
{
}

/// A voice-toggle press between holds does not block push-to-talk: after
/// it, the next push-to-talk press is still a press.
pub proof fn lemma_vad_toggle_then_ptt_press(r: HotkeyRegistry, release_key: Option<u32>)
    requires
        !r.ptt_pressed,
    ensures
        loop_step(
            loop_step(r, HotkeyMessage::Hotkey { id: HOTKEY_ID_VAD }, release_key).0,
            ptt_hotkey_message(),
            release_key,
        ).1 == (LoopAction::PttPress { watch_release: release_key }),
{
}

} // verus!
