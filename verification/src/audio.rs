//! The caller-facing side of the player: the published state, the commands,
//! and the handle that sends them to the audio thread.

use crate::playback::{SPEED_MAX, SPEED_MIN, VOLUME_MAX};
use std::sync::mpsc::{Receiver, Sender};
use std::sync::{Arc, Mutex};
use vstd::prelude::*;
use vstd::string::*;

verus! {

/// The sending half of a standard channel, carried through as an opaque value.
#[verifier::external_type_specification]
#[verifier::external_body]
#[verifier::reject_recursive_types(T)]
pub struct ExSender<T>(Sender<T>);

/// The receiving half of a standard channel, carried through as an opaque value.
#[verifier::external_type_specification]
#[verifier::external_body]
#[verifier::reject_recursive_types(T)]
pub struct ExReceiver<T>(Receiver<T>);

/// The standard mutual-exclusion lock, carried through as an opaque value.
#[verifier::external_type_specification]
#[verifier::external_body]
#[verifier::reject_recursive_types(T)]
pub struct ExMutex<T: ?Sized>(Mutex<T>);

/// How long `is_finished` waits for the audio thread to answer, in milliseconds.
pub const REPLY_TIMEOUT_MS: u64 = 100;

/// What a caller can observe of the player at one instant.
///
/// `speed` and `volume` are thousandths: 1000 is normal speed and full volume.
#[derive(Debug, Clone, Copy, PartialEq, Eq)]
pub struct AudioState {
    pub is_playing: bool,
    pub position_ms: u64,
    pub duration_ms: u64,
    pub speed: u32,
    pub volume: u32,
}

impl AudioState {
    /// The state published before anything has been loaded.
    pub open spec fn initial() -> AudioState {
        AudioState { is_playing: false, position_ms: 0, duration_ms: 0, speed: 1000, volume: 1000 }
    }

    /// Speed and volume lie within the limits the player enforces.
    pub open spec fn in_range(self) -> bool {
        500 <= self.speed <= 2000 && self.volume <= 1000
    }

    /// Tells whether speed and volume lie within the limits.
    pub fn within_limits(&self) -> (ok: bool)
        ensures
            ok == self.in_range(),
    {
        SPEED_MIN <= self.speed && self.speed <= SPEED_MAX && self.volume <= VOLUME_MAX
    }
}

impl Default for AudioState {
    fn default() -> (s: AudioState)
        ensures
            s == AudioState::initial(),
    {
        AudioState { is_playing: false, position_ms: 0, duration_ms: 0, speed: 1000, volume: 1000 }
    }
}

/// Why a command could not be handed to the audio thread.
#[derive(Debug, Clone)]
pub struct AudioError {
    pub message: String,
}

/// One request to the audio thread.
///
/// Speeds and volumes are requested in thousandths and may be any value; the
/// thread clamps them. The two queries carry the channel on which the answer
/// is sent back.
#[derive(Debug)]
pub enum AudioCommand {
    Load { path: String, duration_ms: u64 },
    Play,
    Pause,
    Stop,
    SetSpeed(i64),
    SetVolume(i64),
    GetState(Sender<AudioState>),
    IsFinished(Sender<bool>),
}

/// The text of the error reported when the command named `verb` cannot be
/// sent and the channel explains itself with `detail`.
pub open spec fn send_failure_text(verb: Seq<char>, detail: Seq<char>) -> Seq<char> {
    "Failed to send "@ + verb + " command: "@ + detail
}

/// Calls `Sender::send`. Whether the value is delivered depends on whether
/// the receiving half is still alive, so nothing is promised of the result;
/// a failure carries the channel's own description of it.
#[verifier::external_body]
fn send_on<T>(tx: &Sender<T>, value: T) -> (r: Result<(), String>) {
    match tx.send(value) {
        Ok(()) => Ok(()),
        Err(e) => Err(e.to_string()),
    }
}

/// Calls `std::sync::mpsc::channel`, which creates a fresh connected pair.
#[verifier::external_body]
fn new_channel<T>() -> (r: (Sender<T>, Receiver<T>)) {
    std::sync::mpsc::channel()
}

/// Calls `Receiver::recv_timeout`, waiting at most `millis` milliseconds.
/// `None` stands for both a timeout and a disconnected sender; nothing is
/// promised of which answer arrives.
#[verifier::external_body]
fn wait_for_reply<T>(rx: &Receiver<T>, millis: u64) -> (r: Option<T>) {
    rx.recv_timeout(std::time::Duration::from_millis(millis)).ok()
}

/// A state whose speed and volume are known to lie within the limits.
#[derive(Clone, Copy)]
struct Published {
    state: AudioState,
}

impl Published {
    #[verifier::type_invariant]
    spec fn within(self) -> bool {
        self.state.in_range()
    }

    /// The state published before anything has been loaded.
    fn initial() -> (p: Published)
        ensures
            p.state == AudioState::initial(),
    {
        Published {
            state: AudioState {
                is_playing: false,
                position_ms: 0,
                duration_ms: 0,
                speed: 1000,
                volume: 1000,
            },
        }
    }

    /// `state`, if it lies within the limits.
    fn checked(state: AudioState) -> (r: Option<Published>)
        ensures
            r is Some == state.in_range(),
            r matches Some(p) ==> p.state == state,
    {
        if state.within_limits() {
            Some(Published { state })
        } else {
            None
        }
    }

    /// The state, which lies within the limits.
    fn get(self) -> (state: AudioState)
        ensures
            state == self.state,
            state.in_range(),
    {
        proof {
            use_type_invariant(&self);
        }
        self.state
    }
}

/// Calls `Mutex::new`, which makes a lock that guards `first`.
#[verifier::external_body]
fn new_lock(first: Published) -> (lock: Mutex<Published>) {
    Mutex::new(first)
}

/// Calls `Arc::clone`, which yields another handle to the same lock.
#[verifier::external_body]
fn same_lock(lock: &Arc<Mutex<Published>>) -> (other: Arc<Mutex<Published>>)
    ensures
        other == *lock,
{
    Arc::clone(lock)
}

/// Calls `Mutex::lock` and puts `value` in place of what the lock guards. A
/// poisoned lock is written all the same. The lock is held only inside this
/// call.
#[verifier::external_body]
fn store(lock: &Arc<Mutex<Published>>, value: Published) {
    match lock.lock() {
        Ok(mut guard) => *guard = value,
        Err(poisoned) => *poisoned.into_inner() = value,
    }
}

/// Calls `Mutex::lock` and copies out what the lock guards. A poisoned lock
/// still yields what it guards. The lock is held only inside this call.
#[verifier::external_body]
fn load(lock: &Arc<Mutex<Published>>) -> (value: Published) {
    match lock.lock() {
        Ok(guard) => *guard,
        Err(poisoned) => *poisoned.into_inner(),
    }
}

/// The mailbox through which the audio thread shows its state to callers:
/// it always holds one whole state, written and read under a lock that
/// never leaves this module. It starts with the initial state, and only
/// states within the limits get in.
pub struct StateCell {
    lock: Arc<Mutex<Published>>,
}

impl StateCell {
    /// A mailbox that holds the initial state.
    pub fn new() -> (cell: StateCell) {
        StateCell { lock: Arc::new(new_lock(Published::initial())) }
    }

    /// Another handle to this mailbox.
    pub fn share(&self) -> (other: StateCell)
        ensures
            other == *self,
    {
        StateCell { lock: same_lock(&self.lock) }
    }

    /// Puts `state` in the mailbox in place of what it held, if `state` lies
    /// within the limits; a state outside them is refused and the mailbox
    /// keeps what it held. Answers whether the state was taken.
    pub fn publish(&self, state: AudioState) -> (accepted: bool)
        ensures
            accepted == state.in_range(),
    {
        match Published::checked(state) {
            Some(p) => {
                store(&self.lock, p);
                true
            },
            None => false,
        }
    }

    /// The state that the mailbox holds now. Whatever it is, its speed and
    /// volume lie within the limits.
    pub fn latest(&self) -> (state: AudioState)
        ensures
            state.in_range(),
    {
        load(&self.lock).get()
    }
}

/// What the audio thread needs to serve a handle: the receiving half of the
/// command channel, and the mailbox to publish into.
pub struct ThreadSide {
    pub commands: Receiver<AudioCommand>,
    pub state: StateCell,
}

/// Builds the error for a command that could not be sent.
pub fn send_failure(verb: &str, detail: &str) -> (e: AudioError)
    ensures
        e.message@ == send_failure_text(verb@, detail@),
{
    let mut message = String::from_str("Failed to send ");
    message.append(verb);
    message.append(" command: ");
    message.append(detail);
    AudioError { message }
}

/// Turns the outcome of a send into the result reported to the caller: a
/// delivered command is `Ok`, an undelivered one is the error for `verb`.
pub fn delivery_result(verb: &str, outcome: Result<(), String>) -> (r: Result<(), AudioError>)
    ensures
        outcome is Ok <==> r is Ok,
        outcome matches Err(detail) ==> r matches Err(e) && e.message@ == send_failure_text(
            verb@,
            detail@,
        ),
{
    match outcome {
        Ok(()) => Ok(()),
        Err(detail) => Err(send_failure(verb, detail.as_str())),
    }
}

/// The command that asks the thread to load the file at `path`, whose audio
/// lasts `duration_ms`.
pub fn load_command(path: &str, duration_ms: u64) -> (cmd: AudioCommand)
    ensures
        cmd matches AudioCommand::Load { path: p, duration_ms: d } && p@ == path@ && d
            == duration_ms,
{
    AudioCommand::Load { path: String::from_str(path), duration_ms }
}

/// The command that asks the thread to start or resume playback.
pub fn play_command() -> (cmd: AudioCommand)
    ensures
        cmd == AudioCommand::Play,
{
    AudioCommand::Play
}

/// The command that asks the thread to pause playback.
pub fn pause_command() -> (cmd: AudioCommand)
    ensures
        cmd == AudioCommand::Pause,
{
    AudioCommand::Pause
}

/// The command that asks the thread to stop playback.
pub fn stop_command() -> (cmd: AudioCommand)
    ensures
        cmd == AudioCommand::Stop,
{
    AudioCommand::Stop
}

/// The command that requests `speed` thousandths, passed on as it stands.
pub fn speed_command(speed: i64) -> (cmd: AudioCommand)
    ensures
        cmd == AudioCommand::SetSpeed(speed),
{
    AudioCommand::SetSpeed(speed)
}

/// The command that requests `volume` thousandths, passed on as it stands.
pub fn volume_command(volume: i64) -> (cmd: AudioCommand)
    ensures
        cmd == AudioCommand::SetVolume(volume),
{
    AudioCommand::SetVolume(volume)
}

/// The query that asks whether the audio has run out and wants the answer
/// on `reply`.
pub fn finished_query(reply: Sender<bool>) -> (cmd: AudioCommand)
    ensures
        cmd == AudioCommand::IsFinished(reply),
{
    AudioCommand::IsFinished(reply)
}

/// The answer `is_finished` gives for what came back from the audio thread:
/// the reply itself, or `true` when none arrived.
pub fn finished_or_default(reply: Option<bool>) -> (finished: bool)
    ensures
        finished == match reply {
            Some(b) => b,
            None => true,
        },
{
    match reply {
        Some(b) => b,
        None => true,
    }
}

/// The answer `is_finished` gives for a query that was `sent` or not and to
/// which `reply` came back: a query that could not be sent counts as
/// finished, whatever else is known; one that was sent is judged by
/// `finished_or_default`.
pub fn finished_after(sent: bool, reply: Option<bool>) -> (finished: bool)
    ensures
        finished == (!sent || match reply {
            Some(b) => b,
            None => true,
        }),
{
    if sent {
        finished_or_default(reply)
    } else {
        true
    }
}

/// A shareable handle to the audio thread.
pub struct AudioController {
    command_tx: Sender<AudioCommand>,
    state: StateCell,
}

impl AudioController {
    /// The mailbox from which this handle reads what was published.
    pub closed spec fn shared_state(&self) -> StateCell {
        self.state
    }

    /// Makes a handle together with what its audio thread needs. The channel
    /// and the mailbox are new: the mailbox holds the initial state, and the
    /// handle reads the very mailbox that the thread is given to publish
    /// into.
    pub fn new() -> (made: (AudioController, ThreadSide))
        ensures
            made.0.shared_state() == made.1.state,
    {
        let (command_tx, commands) = new_channel::<AudioCommand>();
        let state = StateCell::new();
        let shared = state.share();
        (AudioController { command_tx, state }, ThreadSide { commands, state: shared })
    }

    /// Asks the thread to load the file at `path`, whose audio lasts
    /// `duration_ms`. Fails only if the command could not be sent.
    pub fn load(&self, path: &str, duration_ms: u64) -> (r: Result<(), AudioError>)
        ensures
            r matches Err(e) ==> exists|detail: Seq<char>|
                e.message@ == send_failure_text("load"@, detail),
    {
        let outcome = send_on(&self.command_tx, load_command(path, duration_ms));
        delivery_result("load", outcome)
    }

    /// Asks the thread to start or resume playback.
    pub fn play(&self) -> (r: Result<(), AudioError>)
        ensures
            r matches Err(e) ==> exists|detail: Seq<char>|
                e.message@ == send_failure_text("play"@, detail),
    {
        let outcome = send_on(&self.command_tx, play_command());
        delivery_result("play", outcome)
    }

    /// Asks the thread to pause playback.
    pub fn pause(&self) -> (r: Result<(), AudioError>)
        ensures
            r matches Err(e) ==> exists|detail: Seq<char>|
                e.message@ == send_failure_text("pause"@, detail),
    {
        let outcome = send_on(&self.command_tx, pause_command());
        delivery_result("pause", outcome)
    }

    /// Asks the thread to stop playback and release the audio device.
    pub fn stop(&self) -> (r: Result<(), AudioError>)
        ensures
            r matches Err(e) ==> exists|detail: Seq<char>|
                e.message@ == send_failure_text("stop"@, detail),
    {
        let outcome = send_on(&self.command_tx, stop_command());
        delivery_result("stop", outcome)
    }

    /// Requests a playback speed in thousandths. A send that fails is ignored.
    pub fn set_speed(&self, speed: i64) {
        let _ = send_on(&self.command_tx, speed_command(speed));
    }

    /// Requests a volume in thousandths. A send that fails is ignored.
    pub fn set_volume(&self, volume: i64) {
        let _ = send_on(&self.command_tx, volume_command(volume));
    }

    /// The state most recently published by the audio thread, or the
    /// initial state if it has published none. Its speed and volume lie
    /// within the limits. The call never waits for the thread.
    pub fn get_state(&self) -> (s: AudioState)
        ensures
            s.in_range(),
    {
        self.state.latest()
    }

    /// Asks the thread whether the loaded audio has run out, waiting at most
    /// `REPLY_TIMEOUT_MS`. A thread that cannot be reached or does not answer
    /// in time counts as finished.
    pub fn is_finished(&self) -> (finished: bool) {
        let (tx, rx) = new_channel::<bool>();
        let sent = send_on(&self.command_tx, finished_query(tx)).is_ok();
        let reply = if sent {
            wait_for_reply(&rx, REPLY_TIMEOUT_MS)
        } else {
            None
        };
        finished_after(sent, reply)
    }
}

} // verus!
