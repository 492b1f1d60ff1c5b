//! The bookkeeping of the audio thread.
//!
//! The thread owns the audio device; this module owns everything the thread
//! has to remember and decide. Each event the thread meets (a command, the
//! news that a source was opened, an idle tick) is handed to a [`Playback`],
//! which updates itself and answers with what to do to the device and what to
//! publish. The position is never counted up: it is derived, whenever it is
//! asked for, from the clock reading that comes with the question.

use crate::audio::{AudioCommand, AudioState};
use std::sync::mpsc::Sender;
use vstd::prelude::*;

verus! {

/// Slowest speed the player accepts, in thousandths.
pub const SPEED_MIN: u32 = 500;

/// Fastest speed the player accepts, in thousandths.
pub const SPEED_MAX: u32 = 2000;

/// Full volume, in thousandths. Silence is zero.
pub const VOLUME_MAX: u32 = 1000;

/// Normal speed, in thousandths.
pub const SPEED_NORMAL: u32 = 1000;

/// `value` restricted to the closed interval from `low` to `high`.
pub open spec fn clamp(value: int, low: int, high: int) -> int {
    if value < low {
        low
    } else if value > high {
        high
    } else {
        value
    }
}

/// The mathematical state of the player. Times are nanoseconds on the
/// thread's monotonic clock; speed and volume are thousandths.
pub struct Timeline {
    /// A source is loaded in the device.
    pub loaded: bool,
    /// Playback is running.
    pub playing: bool,
    /// The clock reading at which playback last resumed, while it runs.
    pub resumed_at: Option<nat>,
    /// Play time gathered before the last pause.
    pub banked: nat,
    /// Length of the loaded audio, as the caller declared it.
    pub duration_ms: nat,
    pub speed: nat,
    pub volume: nat,
    /// The latest clock reading that a transition has used.
    pub clock: nat,
}

/// Something that happens to the player.
pub enum Event {
    /// A load was requested: the current source is given up.
    Release,
    /// The requested source was opened; its audio lasts this many milliseconds.
    Opened(nat),
    Play,
    Pause,
    Stop,
    /// A speed was requested, in thousandths, of any value.
    SetSpeed(int),
    /// A volume was requested, in thousandths, of any value.
    SetVolume(int),
    /// No command arrived for one tick; the flag tells whether the device has
    /// run out of audio.
    Tick(bool),
}

/// An event together with the clock reading at which it is handled.
pub struct Step {
    pub event: Event,
    pub now: nat,
}

impl Timeline {
    /// The state of a player that has just been created.
    pub open spec fn initial() -> Timeline {
        Timeline {
            loaded: false,
            playing: false,
            resumed_at: None,
            banked: 0,
            duration_ms: 0,
            speed: 1000,
            volume: 1000,
            clock: 0,
        }
    }

    /// The invariant of the player: the resume instant is kept exactly while
    /// playing, only a loaded source plays, a player without a source has no
    /// play time banked and no duration, nothing lies in the future of the
    /// clock, no more play time is banked than had passed when playback
    /// resumed, and speed and volume are within their limits.
    pub open spec fn wf(self) -> bool {
        &&& self.playing <==> self.resumed_at is Some
        &&& self.playing ==> self.loaded
        &&& !self.loaded ==> self.banked == 0 && self.duration_ms == 0
        &&& match self.resumed_at {
            Some(r) => self.banked <= r <= self.clock,
            None => self.banked <= self.clock,
        }
        &&& 500 <= self.speed <= 2000
        &&& self.volume <= 1000
    }

    /// The reading used for `now`: the clock never runs backwards.
    pub open spec fn at(self, now: nat) -> nat {
        if now > self.clock {
            now
        } else {
            self.clock
        }
    }

    /// Nanoseconds of play time gathered by `now`.
    pub open spec fn elapsed_ns(self, now: nat) -> nat {
        match self.resumed_at {
            Some(r) => (self.banked + (self.at(now) - r)) as nat,
            None => self.banked,
        }
    }

    /// The position in the audio at `now`: the play time scaled by the speed,
    /// in whole milliseconds.
    pub open spec fn position_ms(self, now: nat) -> nat {
        self.elapsed_ns(now) * self.speed / 1_000_000_000
    }

    /// What is published of the player at `now`.
    pub open spec fn snapshot(self, now: nat) -> AudioState {
        AudioState {
            is_playing: self.playing,
            position_ms: self.position_ms(now) as u64,
            duration_ms: self.duration_ms as u64,
            speed: self.speed as u32,
            volume: self.volume as u32,
        }
    }

    /// `state` shows this player as it is at `now`, field by field.
    pub open spec fn shown_by(self, state: AudioState, now: nat) -> bool {
        &&& state.is_playing == self.playing
        &&& state.position_ms == self.position_ms(now)
        &&& state.duration_ms == self.duration_ms
        &&& state.speed == self.speed
        &&& state.volume == self.volume
    }

    /// Nothing is playing and no play time has been gathered.
    pub open spec fn at_rest(self) -> bool {
        !self.playing && self.resumed_at is None && self.banked == 0
    }

    /// Nothing is loaded, nothing plays, and position and duration are zero.
    pub open spec fn empty(self) -> bool {
        !self.loaded && self.at_rest() && self.duration_ms == 0
    }

    /// The loaded audio has run out, given what the device reports.
    pub open spec fn finished(self, exhausted: bool) -> bool {
        !self.loaded || exhausted
    }

    /// A load was requested: the current source is given up and the player
    /// is empty, as after `stop`, until the new source is opened. Speed and
    /// volume stay.
    pub open spec fn release(self) -> Timeline {
        self.stop()
    }

    /// A source lasting `duration_ms` was opened: it is loaded, paused at zero.
    pub open spec fn opened(self, duration_ms: nat) -> Timeline {
        Timeline {
            loaded: true,
            playing: false,
            resumed_at: None,
            banked: 0,
            duration_ms,
            ..self
        }
    }

    /// Playback starts or resumes at `now` if a source is loaded: the play
    /// time gathered so far is banked and `now` becomes the resume instant,
    /// so that playback which already runs goes on without a jump.
    pub open spec fn play(self, now: nat) -> Timeline {
        if self.loaded {
            Timeline {
                playing: true,
                resumed_at: Some(self.at(now)),
                banked: self.elapsed_ns(now),
                clock: self.at(now),
                ..self
            }
        } else {
            self
        }
    }

    /// Playback pauses at `now` if it was running: the play time since it
    /// resumed is banked.
    pub open spec fn pause(self, now: nat) -> Timeline {
        if self.playing {
            Timeline {
                playing: false,
                resumed_at: None,
                banked: self.elapsed_ns(now),
                clock: self.at(now),
                ..self
            }
        } else {
            self
        }
    }

    /// Playback stops: the source is given up, and position and duration
    /// return to zero. Speed and volume stay.
    pub open spec fn stop(self) -> Timeline {
        Timeline {
            loaded: false,
            playing: false,
            resumed_at: None,
            banked: 0,
            duration_ms: 0,
            ..self
        }
    }

    /// The speed becomes `requested`, clamped to its limits.
    pub open spec fn set_speed(self, requested: int) -> Timeline {
        Timeline { speed: clamp(requested, 500, 2000) as nat, ..self }
    }

    /// The volume becomes `requested`, clamped to its limits.
    pub open spec fn set_volume(self, requested: int) -> Timeline {
        Timeline { volume: clamp(requested, 0, 1000) as nat, ..self }
    }

    /// An idle tick at `now`: playback that has run out of audio is no
    /// longer playing, and its position stays where it was at `now`.
    pub open spec fn tick(self, now: nat, exhausted: bool) -> Timeline {
        if self.loaded && self.playing && exhausted {
            Timeline {
                playing: false,
                resumed_at: None,
                banked: self.elapsed_ns(now),
                clock: self.at(now),
                ..self
            }
        } else {
            self
        }
    }

    /// The state after `event` is handled at `now`.
    pub open spec fn step(self, event: Event, now: nat) -> Timeline {
        match event {
            Event::Release => self.release(),
            Event::Opened(duration_ms) => self.opened(duration_ms),
            Event::Play => self.play(now),
            Event::Pause => self.pause(now),
            Event::Stop => self.stop(),
            Event::SetSpeed(requested) => self.set_speed(requested),
            Event::SetVolume(requested) => self.set_volume(requested),
            Event::Tick(exhausted) => self.tick(now, exhausted),
        }
    }

    /// The state after all of `steps` are handled in order.
    pub open spec fn run(self, steps: Seq<Step>) -> Timeline
        decreases steps.len(),
    {
        if steps.len() == 0 {
            self
        } else {
            self.run(steps.drop_last()).step(steps.last().event, steps.last().now)
        }
    }
}

/// What the thread must do to the audio device after an event.
#[derive(Debug)]
pub enum EngineAction {
    /// Leave the device alone.
    Nothing,
    /// Give up the current source, then open the file at `path` into a paused
    /// sink set to `speed` and `volume`. If that succeeds, report it with
    /// [`Playback::source_opened`] and `duration_ms`.
    Open { path: String, duration_ms: u64, speed: u32, volume: u32 },
    /// Start or resume the sink.
    Resume,
    /// Pause the sink.
    Suspend,
    /// Give up the source and the device.
    Release,
    /// Set the sink's speed, in thousandths.
    ApplySpeed(u32),
    /// Set the sink's volume, in thousandths.
    ApplyVolume(u32),
}

/// The answer owed to a query, and the channel on which to send it.
#[derive(Debug)]
pub enum Reply {
    /// The state of the player when the query was handled.
    State { to: Sender<AudioState>, state: AudioState },
    /// Whether the loaded audio had run out when the query was handled.
    Finished { to: Sender<bool>, finished: bool },
}

/// The answer to one command: what to do to the device, the state to publish
/// if the command changed playback, and the reply to send if it was a query.
/// The reply is sent once, without waiting, whether or not anyone listens.
#[derive(Debug)]
pub struct Reaction {
    pub action: EngineAction,
    pub publish: Option<AudioState>,
    pub reply: Option<Reply>,
}

/// The event that a command amounts to; the two queries change nothing.
pub open spec fn event_of(cmd: AudioCommand) -> Option<Event> {
    match cmd {
        AudioCommand::Load { .. } => Some(Event::Release),
        AudioCommand::Play => Some(Event::Play),
        AudioCommand::Pause => Some(Event::Pause),
        AudioCommand::Stop => Some(Event::Stop),
        AudioCommand::SetSpeed(requested) => Some(Event::SetSpeed(requested as int)),
        AudioCommand::SetVolume(requested) => Some(Event::SetVolume(requested as int)),
        AudioCommand::GetState(_) => None,
        AudioCommand::IsFinished(_) => None,
    }
}

/// What the device is asked to do when `cmd` reaches a player in state `before`.
pub open spec fn action_of(before: Timeline, cmd: AudioCommand) -> EngineAction {
    match cmd {
        AudioCommand::Load { path, duration_ms } => EngineAction::Open {
            path,
            duration_ms,
            speed: before.speed as u32,
            volume: before.volume as u32,
        },
        AudioCommand::Play => if before.loaded {
            EngineAction::Resume
        } else {
            EngineAction::Nothing
        },
        AudioCommand::Pause => if before.loaded && before.playing {
            EngineAction::Suspend
        } else {
            EngineAction::Nothing
        },
        AudioCommand::Stop => EngineAction::Release,
        AudioCommand::SetSpeed(requested) => if before.loaded {
            EngineAction::ApplySpeed(clamp(requested as int, 500, 2000) as u32)
        } else {
            EngineAction::Nothing
        },
        AudioCommand::SetVolume(requested) => if before.loaded {
            EngineAction::ApplyVolume(clamp(requested as int, 0, 1000) as u32)
        } else {
            EngineAction::Nothing
        },
        AudioCommand::GetState(_) => EngineAction::Nothing,
        AudioCommand::IsFinished(_) => EngineAction::Nothing,
    }
}

/// The reply owed when `cmd` reaches a player in state `before` at `now`,
/// the device reporting `exhausted`: a query is answered with what it asks
/// for, on the channel it carries; other commands get no reply.
pub open spec fn reply_of(before: Timeline, cmd: AudioCommand, now: nat, exhausted: bool) -> Option<
    Reply,
> {
    match cmd {
        AudioCommand::GetState(to) => Some(Reply::State { to, state: before.snapshot(now) }),
        AudioCommand::IsFinished(to) => Some(
            Reply::Finished { to, finished: before.finished(exhausted) },
        ),
        _ => None,
    }
}

/// Restricts `value` to the closed interval from `low` to `high`.
pub fn clamp_between(value: i64, low: u32, high: u32) -> (r: u32)
    requires
        low <= high,
    ensures
        r == clamp(value as int, low as int, high as int),
{
    if value < low as i64 {
        low
    } else if value > high as i64 {
        high
    } else {
        value as u32
    }
}

/// The position reached after `elapsed_ns` of play time at `speed` thousandths.
pub fn scale_position(elapsed_ns: u64, speed: u32) -> (ms: u64)
    requires
        speed <= 1_000_000_000,
    ensures
        ms == elapsed_ns as nat * speed as nat / 1_000_000_000,
{
    assert(elapsed_ns as nat * speed as nat <= 0xffff_ffff_ffff_ffff * 1_000_000_000)
        by (nonlinear_arith)
        requires
            elapsed_ns <= 0xffff_ffff_ffff_ffff,
            speed <= 1_000_000_000,
    ;
    let product: u128 = elapsed_ns as u128 * speed as u128;
    let ms: u128 = product / 1_000_000_000u128;
    ms as u64
}

/// What the audio thread remembers between events.
pub struct Playback {
    loaded: bool,
    playing: bool,
    resumed_at: Option<u64>,
    banked: u64,
    duration_ms: u64,
    speed: u32,
    volume: u32,
    clock: u64,
}

impl View for Playback {
    type V = Timeline;

    closed spec fn view(&self) -> Timeline {
        Timeline {
            loaded: self.loaded,
            playing: self.playing,
            resumed_at: match self.resumed_at {
                Some(r) => Some(r as nat),
                None => None,
            },
            banked: self.banked as nat,
            duration_ms: self.duration_ms as nat,
            speed: self.speed as nat,
            volume: self.volume as nat,
            clock: self.clock as nat,
        }
    }
}

impl Playback {
    #[verifier::type_invariant]
    spec fn well_formed(self) -> bool {
        self@.wf()
    }

    /// A player with nothing loaded, at normal speed and full volume.
    pub fn new() -> (p: Playback)
        ensures
            p@ == Timeline::initial(),
            p@.wf(),
    {
        Playback {
            loaded: false,
            playing: false,
            resumed_at: None,
            banked: 0,
            duration_ms: 0,
            speed: SPEED_NORMAL,
            volume: VOLUME_MAX,
            clock: 0,
        }
    }

    fn reading(&self, now: u64) -> (t: u64)
        ensures
            t == self@.at(now as nat),
    {
        if now > self.clock {
            now
        } else {
            self.clock
        }
    }

    fn elapsed(&self, now: u64) -> (ns: u64)
        ensures
            ns == self@.elapsed_ns(now as nat),
    {
        proof {
            use_type_invariant(self);
        }
        let t = self.reading(now);
        match self.resumed_at {
            Some(r) => self.banked + (t - r),
            None => self.banked,
        }
    }

    /// The state to publish at `now`.
    pub fn snapshot(&self, now: u64) -> (s: AudioState)
        ensures
            s == self@.snapshot(now as nat),
            self@.shown_by(s, now as nat),
            s.in_range(),
    {
        proof {
            use_type_invariant(self);
        }
        let elapsed = self.elapsed(now);
        AudioState {
            is_playing: self.playing,
            position_ms: scale_position(elapsed, self.speed),
            duration_ms: self.duration_ms,
            speed: self.speed,
            volume: self.volume,
        }
    }

    /// Whether the loaded audio has run out: true when nothing is loaded, and
    /// otherwise exactly when the device reports that no audio is left.
    pub fn is_finished(&self, exhausted: bool) -> (finished: bool)
        ensures
            finished == self@.finished(exhausted),
            finished == (!self@.loaded || exhausted),
    {
        !self.loaded || exhausted
    }

    /// A load was requested: gives up the current source, leaving the
    /// player empty, and answers with the speed and volume, in thousandths,
    /// that the new sink must be set to.
    pub fn begin_load(&mut self) -> (settings: (u32, u32))
        ensures
            final(self)@ == old(self)@.release(),
            final(self)@.wf(),
            settings.0 == old(self)@.speed,
            settings.1 == old(self)@.volume,
    {
        proof {
            use_type_invariant(&*self);
        }
        self.stop();
        (self.speed, self.volume)
    }

    /// The requested source was opened: it is loaded and paused at zero.
    /// Answers with the state to publish at `now`.
    pub fn source_opened(&mut self, duration_ms: u64, now: u64) -> (publish: AudioState)
        ensures
            final(self)@ == old(self)@.opened(duration_ms as nat),
            final(self)@.wf(),
            publish == final(self)@.snapshot(now as nat),
            final(self)@.shown_by(publish, now as nat),
            publish.in_range(),
            !publish.is_playing && publish.position_ms == 0 && publish.duration_ms == duration_ms,
    {
        proof {
            use_type_invariant(&*self);
        }
        *self = Playback {
            loaded: true,
            playing: false,
            resumed_at: None,
            banked: 0,
            duration_ms,
            ..*self
        };
        assert(0 * self@.speed / 1_000_000_000 == 0) by (nonlinear_arith);
        self.snapshot(now)
    }

    /// Starts or resumes playback at `now`. Answers whether a source is
    /// loaded, that is, whether the sink must be resumed.
    pub fn play(&mut self, now: u64) -> (resume: bool)
        ensures
            final(self)@ == old(self)@.play(now as nat),
            final(self)@.wf(),
            resume == old(self)@.loaded,
    {
        proof {
            use_type_invariant(&*self);
        }
        if self.loaded {
            let t = self.reading(now);
            let banked = self.elapsed(now);
            *self = Playback { playing: true, resumed_at: Some(t), banked, clock: t, ..*self };
            true
        } else {
            false
        }
    }

    /// Pauses playback at `now`. Answers whether the sink must be paused:
    /// whether a loaded source was playing.
    pub fn pause(&mut self, now: u64) -> (suspend: bool)
        ensures
            final(self)@ == old(self)@.pause(now as nat),
            final(self)@.wf(),
            suspend == (old(self)@.loaded && old(self)@.playing),
    {
        proof {
            use_type_invariant(&*self);
        }
        if self.playing {
            let t = self.reading(now);
            let banked = self.elapsed(now);
            let suspend = self.loaded;
            *self = Playback { playing: false, resumed_at: None, banked, clock: t, ..*self };
            suspend
        } else {
            false
        }
    }

    /// Stops playback: the source is given up and the position returns to zero.
    pub fn stop(&mut self)
        ensures
            final(self)@ == old(self)@.stop(),
            final(self)@.wf(),
    {
        proof {
            use_type_invariant(&*self);
        }
        *self = Playback {
            loaded: false,
            playing: false,
            resumed_at: None,
            banked: 0,
            duration_ms: 0,
            ..*self
        };
    }

    /// Sets the speed to `requested` thousandths, clamped to the limits, and
    /// answers with the value now in force.
    pub fn set_speed(&mut self, requested: i64) -> (applied: u32)
        ensures
            final(self)@ == old(self)@.set_speed(requested as int),
            final(self)@.wf(),
            applied == clamp(requested as int, 500, 2000),
            final(self)@.speed == applied,
    {
        proof {
            use_type_invariant(&*self);
        }
        let applied = clamp_between(requested, SPEED_MIN, SPEED_MAX);
        *self = Playback { speed: applied, ..*self };
        applied
    }

    /// Sets the volume to `requested` thousandths, clamped to the limits, and
    /// answers with the value now in force.
    pub fn set_volume(&mut self, requested: i64) -> (applied: u32)
        ensures
            final(self)@ == old(self)@.set_volume(requested as int),
            final(self)@.wf(),
            applied == clamp(requested as int, 0, 1000),
            final(self)@.volume == applied,
    {
        proof {
            use_type_invariant(&*self);
        }
        let applied = clamp_between(requested, 0, VOLUME_MAX);
        *self = Playback { volume: applied, ..*self };
        applied
    }

    /// An idle tick at `now`: answers with the state to publish, taken before
    /// anything changes, and then marks playback that has run out of audio as
    /// no longer playing, its position staying where it is.
    pub fn tick(&mut self, now: u64, exhausted: bool) -> (publish: AudioState)
        ensures
            publish == old(self)@.snapshot(now as nat),
            old(self)@.shown_by(publish, now as nat),
            publish.in_range(),
            final(self)@ == old(self)@.tick(now as nat, exhausted),
            final(self)@.wf(),
    {
        proof {
            use_type_invariant(&*self);
        }
        let publish = self.snapshot(now);
        if self.loaded && self.playing && exhausted {
            let t = self.reading(now);
            let banked = self.elapsed(now);
            *self = Playback { playing: false, resumed_at: None, banked, clock: t, ..*self };
        }
        publish
    }

    /// Handles one command at `now`, given whether the device reports that it
    /// has run out of audio. The player changes as the command's event says;
    /// the answer names what to do to the device, the state to publish if the
    /// command changes playback, and the reply to send if it is a query.
    pub fn handle(&mut self, cmd: AudioCommand, now: u64, exhausted: bool) -> (r: Reaction)
        ensures
            final(self)@ == match event_of(cmd) {
                Some(event) => old(self)@.step(event, now as nat),
                None => old(self)@,
            },
            final(self)@.wf(),
            r.action == action_of(old(self)@, cmd),
            r.publish == match event_of(cmd) {
                Some(_) => Some(final(self)@.snapshot(now as nat)),
                None => None,
            },
            r.publish matches Some(state) ==> final(self)@.shown_by(state, now as nat)
                && state.in_range(),
            r.reply == reply_of(old(self)@, cmd, now as nat, exhausted),
            r.reply matches Some(Reply::State { state, .. }) ==> old(self)@.shown_by(
                state,
                now as nat,
            ),
    {
        proof {
            use_type_invariant(&*self);
        }
        match cmd {
            AudioCommand::Load { path, duration_ms } => {
                let (speed, volume) = self.begin_load();
                Reaction {
                    action: EngineAction::Open { path, duration_ms, speed, volume },
                    publish: Some(self.snapshot(now)),
                    reply: None,
                }
            },
            AudioCommand::Play => {
                let action = if self.play(now) {
                    EngineAction::Resume
                } else {
                    EngineAction::Nothing
                };
                Reaction { action, publish: Some(self.snapshot(now)), reply: None }
            },
            AudioCommand::Pause => {
                let action = if self.pause(now) {
                    EngineAction::Suspend
                } else {
                    EngineAction::Nothing
                };
                Reaction { action, publish: Some(self.snapshot(now)), reply: None }
            },
            AudioCommand::Stop => {
                self.stop();
                Reaction {
                    action: EngineAction::Release,
                    publish: Some(self.snapshot(now)),
                    reply: None,
                }
            },
            AudioCommand::SetSpeed(requested) => {
                let applied = self.set_speed(requested);
                let action = if self.loaded {
                    EngineAction::ApplySpeed(applied)
                } else {
                    EngineAction::Nothing
                };
                Reaction { action, publish: Some(self.snapshot(now)), reply: None }
            },
            AudioCommand::SetVolume(requested) => {
                let applied = self.set_volume(requested);
                let action = if self.loaded {
                    EngineAction::ApplyVolume(applied)
                } else {
                    EngineAction::Nothing
                };
                Reaction { action, publish: Some(self.snapshot(now)), reply: None }
            },
            AudioCommand::GetState(to) => {
                let state = self.snapshot(now);
                Reaction {
                    action: EngineAction::Nothing,
                    publish: None,
                    reply: Some(Reply::State { to, state }),
                }
            },
            AudioCommand::IsFinished(to) => {
                let finished = self.is_finished(exhausted);
                Reaction {
                    action: EngineAction::Nothing,
                    publish: None,
                    reply: Some(Reply::Finished { to, finished }),
                }
            },
        }
    }
}

/// The applied speed is the requested one clamped to `500..=2000`, and the
/// applied volume the requested one clamped to `0..=1000`, whatever is
/// requested; a request within the limits is applied as it stands.
pub proof fn law_requests_are_clamped(t: Timeline, requested: int)
    ensures
        t.set_speed(requested).speed == clamp(requested, 500, 2000),
        500 <= t.set_speed(requested).speed <= 2000,
        500 <= requested <= 2000 ==> t.set_speed(requested).speed == requested,
        t.set_volume(requested).volume == clamp(requested, 0, 1000),
        t.set_volume(requested).volume <= 1000,
        0 <= requested <= 1000 ==> t.set_volume(requested).volume == requested,
{
}

/// Every event keeps the invariant.
pub proof fn law_step_keeps_wf(t: Timeline, event: Event, now: nat)
    requires
        t.wf(),
    ensures
        t.step(event, now).wf(),
{
}

/// Whatever events arrive, in whatever order, the player stays well formed
/// and every state it publishes has its speed and volume within the limits.
pub proof fn law_every_published_state_is_valid(t: Timeline, steps: Seq<Step>, now: nat)
    requires
        t.wf(),
    ensures
        t.run(steps).wf(),
        t.run(steps).snapshot(now).in_range(),
        Timeline::initial().wf(),
    decreases steps.len(),
{
    if steps.len() > 0 {
        law_every_published_state_is_valid(t, steps.drop_last(), now);
        law_step_keeps_wf(t.run(steps.drop_last()), steps.last().event, steps.last().now);
    }
}

/// No step of `steps` is a `Play`.
pub open spec fn no_play(steps: Seq<Step>) -> bool {
    forall|i: int| 0 <= i < steps.len() ==> !(#[trigger] steps[i].event is Play)
}

/// No step of `steps` reports an opened source.
pub open spec fn no_opened(steps: Seq<Step>) -> bool {
    forall|i: int| 0 <= i < steps.len() ==> !(#[trigger] steps[i].event is Opened)
}

/// No step of `steps` opens a source or gives one up.
pub open spec fn source_kept(steps: Seq<Step>) -> bool {
    forall|i: int|
        0 <= i < steps.len() ==> !(#[trigger] steps[i].event is Opened) && !(steps[i].event
            is Release) && !(steps[i].event is Stop)
}

/// A player at rest stays at rest until a `Play` arrives, and while at rest
/// its position is zero and it is not playing, at every clock reading.
pub proof fn law_rest_lasts_until_play(t: Timeline, steps: Seq<Step>, now: nat)
    requires
        t.at_rest(),
        no_play(steps),
    ensures
        t.run(steps).at_rest(),
        t.run(steps).position_ms(now) == 0,
        !t.run(steps).playing,
        t.run(steps).snapshot(now).position_ms == 0,
        !t.run(steps).snapshot(now).is_playing,
    decreases steps.len(),
{
    if steps.len() > 0 {
        let before = steps.drop_last();
        assert(no_play(before)) by {
            assert forall|i: int| 0 <= i < before.len() implies !(#[trigger] before[i].event
                is Play) by {
                assert(before[i] == steps[i]);
            }
        }
        law_rest_lasts_until_play(t, before, now);
        assert(!(steps[steps.len() - 1].event is Play));
    }
    let end = t.run(steps);
    assert(end.elapsed_ns(now) == 0);
    assert(0 * end.speed / 1_000_000_000 == 0) by (nonlinear_arith);
}

/// After a source lasting `duration_ms` is opened, and until a `Play`
/// arrives, the position is zero and nothing is playing, however much time
/// passes; while the source is kept the duration stays `duration_ms`.
pub proof fn law_loaded_source_waits_at_zero(
    t: Timeline,
    duration_ms: nat,
    steps: Seq<Step>,
    now: nat,
)
    requires
        no_play(steps),
    ensures
        t.opened(duration_ms).run(steps).position_ms(now) == 0,
        !t.opened(duration_ms).run(steps).playing,
        source_kept(steps) ==> t.opened(duration_ms).run(steps).duration_ms == duration_ms
            && t.opened(duration_ms).run(steps).loaded,
{
    law_rest_lasts_until_play(t.opened(duration_ms), steps, now);
    if source_kept(steps) {
        lemma_kept_source_keeps_duration(t.opened(duration_ms), steps);
    }
}

/// While the source is neither replaced nor given up, it stays loaded or
/// absent as it was, and the duration stays.
pub proof fn lemma_kept_source_keeps_duration(t: Timeline, steps: Seq<Step>)
    requires
        source_kept(steps),
    ensures
        t.run(steps).duration_ms == t.duration_ms,
        t.run(steps).loaded == t.loaded,
    decreases steps.len(),
{
    if steps.len() > 0 {
        let before = steps.drop_last();
        assert(source_kept(before)) by {
            assert forall|i: int| 0 <= i < before.len() implies !(#[trigger] before[i].event
                is Opened) && !(before[i].event is Release) && !(before[i].event is Stop) by {
                assert(before[i] == steps[i]);
            }
        }
        lemma_kept_source_keeps_duration(t, before);
        assert(!(steps[steps.len() - 1].event is Opened));
    }
}

/// Scaling by a speed keeps the order of play times.
pub proof fn lemma_scaling_is_monotonic(a: nat, b: nat, speed: nat)
    requires
        a <= b,
    ensures
        a * speed / 1_000_000_000 <= b * speed / 1_000_000_000,
{
    assert(a * speed <= b * speed) by (nonlinear_arith)
        requires
            a <= b,
    ;
    vstd::arithmetic::div_mod::lemma_div_is_ordered(
        (a * speed) as int,
        (b * speed) as int,
        1_000_000_000,
    );
}

/// While playback runs undisturbed from `start`, the play time at a later
/// reading is what had been gathered by `start` plus the time since; the
/// position is that play time scaled by the speed, it never moves
/// backwards, and a source played from rest is at
/// `(later - start) * speed / 1_000_000_000` milliseconds.
pub proof fn law_position_follows_the_clock(t: Timeline, start: nat, sooner: nat, later: nat)
    requires
        t.wf(),
        t.loaded,
        t.clock <= start <= sooner <= later,
    ensures
        t.play(start).playing,
        t.play(start).elapsed_ns(later) == t.elapsed_ns(start) + (later - start),
        t.play(start).position_ms(later) == (t.elapsed_ns(start) + (later - start)) * t.speed
            / 1_000_000_000,
        t.at_rest() ==> t.play(start).position_ms(later) == (later - start) * t.speed
            / 1_000_000_000,
        t.play(start).position_ms(sooner) <= t.play(start).position_ms(later),
{
    let p = t.play(start);
    assert(p.at(later) == later);
    assert(p.at(sooner) == sooner);
    let a = p.elapsed_ns(sooner);
    let b = p.elapsed_ns(later);
    assert(a <= b);
    lemma_scaling_is_monotonic(a, b, t.speed);
}

/// The position never falls while the player only plays on: between two
/// readings it does not decrease, whether or not playback runs; a tick, even
/// the one that finds the source exhausted, and a `Play`, even a repeated
/// one, leave the position of the moment where it was and never let a later
/// one fall below it.
pub proof fn law_position_never_rewinds(t: Timeline, now: nat, later: nat, exhausted: bool)
    requires
        t.wf(),
        now <= later,
    ensures
        t.position_ms(now) <= t.position_ms(later),
        t.tick(now, exhausted).position_ms(now) == t.position_ms(now),
        t.tick(now, exhausted).position_ms(later) >= t.position_ms(now),
        t.play(now).position_ms(now) == t.position_ms(now),
        t.play(now).position_ms(later) >= t.position_ms(now),
        t.playing ==> t.play(now).position_ms(later) == t.position_ms(later),
{
    lemma_scaling_is_monotonic(t.elapsed_ns(now), t.elapsed_ns(later), t.speed);
    let ticked = t.tick(now, exhausted);
    assert(ticked.elapsed_ns(now) == t.elapsed_ns(now));
    lemma_scaling_is_monotonic(ticked.elapsed_ns(now), ticked.elapsed_ns(later), t.speed);
    let played = t.play(now);
    assert(played.elapsed_ns(now) == t.elapsed_ns(now));
    lemma_scaling_is_monotonic(played.elapsed_ns(now), played.elapsed_ns(later), t.speed);
    if t.playing {
        assert(played.elapsed_ns(later) == t.elapsed_ns(later));
    }
}

/// While the player is not playing its position is frozen: it is the same
/// at every reading, and it stays so over ticks. That holds after a pause,
/// after a stop, and after the tick that found the source exhausted.
pub proof fn law_position_is_frozen_unless_playing(
    t: Timeline,
    now: nat,
    later: nat,
    exhausted: bool,
)
    requires
        t.wf(),
    ensures
        !t.playing ==> t.position_ms(later) == t.position_ms(now),
        !t.playing ==> t.tick(now, exhausted) == t,
        !t.pause(now).playing,
        t.pause(now).position_ms(later) == t.position_ms(now),
        t.loaded && t.playing ==> !t.tick(now, true).playing,
        t.loaded && t.playing ==> t.tick(now, true).position_ms(later) == t.position_ms(now),
{
}

/// Pausing freezes the play time gathered so far, and a later `Play` takes
/// it up exactly there: at the moment of resuming the play time is what it
/// was at the pause, and from then on it grows with the clock.
pub proof fn law_pause_then_play_continues(
    t: Timeline,
    paused: nat,
    waiting: nat,
    resumed: nat,
    later: nat,
)
    requires
        t.wf(),
        t.loaded,
        t.clock <= paused <= waiting <= resumed <= later,
    ensures
        t.pause(paused).elapsed_ns(waiting) == t.elapsed_ns(paused),
        t.pause(paused).position_ms(waiting) == t.position_ms(paused),
        t.pause(paused).play(resumed).elapsed_ns(resumed) == t.elapsed_ns(paused),
        t.pause(paused).play(resumed).position_ms(resumed) == t.position_ms(paused),
        t.pause(paused).play(resumed).elapsed_ns(later) == t.elapsed_ns(paused) + (later
            - resumed),
{
}

/// An empty player stays empty until a source is opened: `Play` finds
/// nothing to play, and position and duration stay zero.
pub proof fn lemma_empty_lasts_until_opened(t: Timeline, steps: Seq<Step>)
    requires
        t.empty(),
        no_opened(steps),
    ensures
        t.run(steps).empty(),
    decreases steps.len(),
{
    if steps.len() > 0 {
        let before = steps.drop_last();
        assert(no_opened(before)) by {
            assert forall|i: int| 0 <= i < before.len() implies !(#[trigger] before[i].event
                is Opened) by {
                assert(before[i] == steps[i]);
            }
        }
        lemma_empty_lasts_until_opened(t, before);
        assert(!(steps[steps.len() - 1].event is Opened));
    }
}

/// `Stop` always returns the position to zero, ends playback and forgets
/// the duration, and so it stays, whatever commands and ticks follow, until
/// a source is opened again: no state published in between reports a
/// position or a duration above zero, or playback.
pub proof fn law_stop_resets(t: Timeline, steps: Seq<Step>, now: nat)
    requires
        no_opened(steps),
    ensures
        t.stop().empty(),
        t.stop().run(steps).empty(),
        t.stop().run(steps).position_ms(now) == 0,
        t.stop().run(steps).duration_ms == 0,
        !t.stop().run(steps).playing,
        !t.stop().run(steps).loaded,
        t.stop().run(steps).snapshot(now).position_ms == 0,
        t.stop().run(steps).snapshot(now).duration_ms == 0,
        !t.stop().run(steps).snapshot(now).is_playing,
        t.stop().speed == t.speed && t.stop().volume == t.volume,
{
    lemma_empty_lasts_until_opened(t.stop(), steps);
    let end = t.stop().run(steps);
    assert(end.elapsed_ns(now) == 0);
    assert(0 * end.speed / 1_000_000_000 == 0) by (nonlinear_arith);
}

/// A load whose source cannot be opened leaves the player empty: the
/// earlier source is gone, nothing plays, position and duration are zero and
/// stay so, the player counts as finished, a `Play` does nothing, and speed
/// and volume are as they were.
pub proof fn law_failed_load_leaves_empty(t: Timeline, steps: Seq<Step>, now: nat, exhausted: bool)
    requires
        no_opened(steps),
    ensures
        t.release() == t.stop(),
        t.release().empty(),
        t.release().run(steps).empty(),
        t.release().run(steps).position_ms(now) == 0,
        t.release().run(steps).finished(exhausted),
        t.release().play(now) == t.release(),
        t.release().speed == t.speed && t.release().volume == t.volume,
{
    law_stop_resets(t, steps, now);
}

/// Before anything is loaded the player counts as finished; once a source
/// is loaded it is finished exactly when the device reports that no audio is
/// left; and after `Stop` it is finished again.
pub proof fn law_finished(t: Timeline, duration_ms: nat, exhausted: bool)
    ensures
        Timeline::initial().finished(exhausted),
        Timeline::initial().empty(),
        t.opened(duration_ms).finished(exhausted) == exhausted,
        t.stop().finished(exhausted),
        t.release().finished(exhausted),
        t.loaded ==> t.finished(exhausted) == exhausted,
{
}

} // verus!
