use pdf_audio::audio::{AudioCommand, AudioState};
use pdf_audio::playback::{clamp_between, scale_position, EngineAction, Playback, Reply};
use std::sync::mpsc::channel;

const MS: u64 = 1_000_000;

fn loaded(duration_ms: u64) -> Playback {
    let mut p = Playback::new();
    let cmd = AudioCommand::Load { path: "a.wav".to_string(), duration_ms };
    let reaction = p.handle(cmd, 0, true);
    assert!(matches!(reaction.action, EngineAction::Open { .. }));
    let s = p.source_opened(duration_ms, 0);
    assert_eq!(
        s,
        AudioState { is_playing: false, position_ms: 0, duration_ms, speed: 1000, volume: 1000 }
    );
    p
}

#[test]
fn new_player_is_empty_and_normal() {
    let p = Playback::new();
    let s = p.snapshot(123 * MS);
    assert_eq!(
        s,
        AudioState { is_playing: false, position_ms: 0, duration_ms: 0, speed: 1000, volume: 1000 }
    );
    assert_eq!(s, AudioState::default());
    assert!(p.is_finished(false));
    assert!(p.is_finished(true));
}

#[test]
fn end_to_end_scenario() {
    let mut p = Playback::new();
    let cmd = AudioCommand::Load { path: "a.wav".to_string(), duration_ms: 5000 };
    let reaction = p.handle(cmd, 0, true);
    match reaction.action {
        EngineAction::Open { path, duration_ms, speed, volume } => {
            assert_eq!(path, "a.wav");
            assert_eq!(duration_ms, 5000);
            assert_eq!(speed, 1000);
            assert_eq!(volume, 1000);
        }
        other => panic!("unexpected action {:?}", other),
    }
    let opened = p.source_opened(5000, 0);
    assert_eq!(opened.duration_ms, 5000);

    let reaction = p.handle(AudioCommand::Play, 20 * MS, false);
    assert!(matches!(reaction.action, EngineAction::Resume));
    assert_eq!(reaction.publish.map(|s| s.is_playing), Some(true));

    let s = p.snapshot(1020 * MS);
    assert!(s.is_playing);
    assert_eq!(s.duration_ms, 5000);
    assert_eq!(s.position_ms, 1000);

    let reaction = p.handle(AudioCommand::Pause, 1020 * MS, false);
    assert!(matches!(reaction.action, EngineAction::Suspend));
    let frozen = reaction.publish.unwrap();
    assert!(!frozen.is_playing);
    assert_eq!(frozen.position_ms, 1000);
    assert_eq!(p.snapshot(9000 * MS).position_ms, 1000);
    assert!(!p.snapshot(9000 * MS).is_playing);

    let reaction = p.handle(AudioCommand::Stop, 9000 * MS, false);
    assert!(matches!(reaction.action, EngineAction::Release));
    let stopped = reaction.publish.unwrap();
    assert_eq!(stopped.position_ms, 0);
    assert!(!stopped.is_playing);
    assert_eq!(stopped.duration_ms, 0);
}

#[test]
fn state_after_load_and_stop_is_the_empty_one() {
    let mut p = loaded(5000);
    p.handle(AudioCommand::Stop, 10 * MS, false);
    let (tx, rx) = channel();
    let r = p.handle(AudioCommand::GetState(tx), 20 * MS, true);
    match r.reply {
        Some(Reply::State { to, state }) => to.send(state).unwrap(),
        other => panic!("unexpected reply {:?}", other),
    }
    assert_eq!(
        rx.try_recv().unwrap(),
        AudioState { is_playing: false, position_ms: 0, duration_ms: 0, speed: 1000, volume: 1000 }
    );
    assert!(rx.try_recv().is_err());
}

#[test]
fn speed_is_clamped_to_its_limits() {
    let mut p = Playback::new();
    assert_eq!(p.set_speed(1250), 1250);
    assert_eq!(p.snapshot(0).speed, 1250);
    assert_eq!(p.set_speed(100), 500);
    assert_eq!(p.snapshot(0).speed, 500);
    assert_eq!(p.set_speed(5000), 2000);
    assert_eq!(p.snapshot(0).speed, 2000);
    assert_eq!(p.set_speed(-3), 500);
    assert_eq!(p.set_speed(i64::MIN), 500);
    assert_eq!(p.set_speed(i64::MAX), 2000);
    assert_eq!(p.set_speed(500), 500);
    assert_eq!(p.set_speed(2000), 2000);
}

#[test]
fn volume_is_clamped_to_its_limits() {
    let mut p = Playback::new();
    assert_eq!(p.set_volume(300), 300);
    assert_eq!(p.snapshot(0).volume, 300);
    assert_eq!(p.set_volume(-1), 0);
    assert_eq!(p.snapshot(0).volume, 0);
    assert_eq!(p.set_volume(1001), 1000);
    assert_eq!(p.snapshot(0).volume, 1000);
    assert_eq!(p.set_volume(0), 0);
    assert_eq!(p.set_volume(i64::MAX), 1000);
}

#[test]
fn clamp_between_keeps_values_inside() {
    assert_eq!(clamp_between(7, 5, 20), 7);
    assert_eq!(clamp_between(4, 5, 20), 5);
    assert_eq!(clamp_between(21, 5, 20), 20);
    assert_eq!(clamp_between(-9, 0, 0), 0);
}

#[test]
fn position_is_play_time_scaled_by_speed() {
    assert_eq!(scale_position(0, 2000), 0);
    assert_eq!(scale_position(1_000_000_000, 1000), 1000);
    assert_eq!(scale_position(1_000_000_000, 500), 500);
    assert_eq!(scale_position(1_000_000_000, 2000), 2000);
    assert_eq!(scale_position(1_999_999, 1000), 1);
    assert_eq!(scale_position(999_999, 1000), 0);
    assert_eq!(scale_position(u64::MAX, 2000), 36_893_488_147_419);
}

#[test]
fn loaded_source_waits_at_zero_until_play() {
    let mut p = loaded(4000);
    for step in 0..20u64 {
        let s = p.tick(step * 50 * MS, false);
        assert_eq!(s.position_ms, 0);
        assert!(!s.is_playing);
        assert_eq!(s.duration_ms, 4000);
    }
    p.pause(2000 * MS);
    p.set_speed(2000);
    let s = p.snapshot(1_000_000 * MS);
    assert_eq!(s.position_ms, 0);
    assert!(!s.is_playing);
    assert!(!p.is_finished(false));
    assert!(p.is_finished(true));
}

#[test]
fn position_follows_the_clock_at_the_set_speed() {
    let mut p = loaded(60_000);
    assert_eq!(p.set_speed(1500), 1500);
    assert!(p.play(100 * MS));
    assert_eq!(p.snapshot(100 * MS).position_ms, 0);
    assert_eq!(p.snapshot(1100 * MS).position_ms, 1500);
    assert_eq!(p.snapshot(2100 * MS).position_ms, 3000);
    assert_eq!(p.snapshot(2100 * MS + 1).position_ms, 3000);
    assert_eq!(p.set_speed(500), 500);
    assert_eq!(p.snapshot(2100 * MS).position_ms, 1000);
}

#[test]
fn pause_then_play_continues_without_gap() {
    let mut p = loaded(60_000);
    assert!(p.play(0));
    assert!(p.pause(700 * MS));
    assert_eq!(p.snapshot(5000 * MS).position_ms, 700);
    assert!(p.play(5000 * MS));
    assert_eq!(p.snapshot(5000 * MS).position_ms, 700);
    assert_eq!(p.snapshot(5300 * MS).position_ms, 1000);
}

#[test]
fn play_without_a_source_does_nothing() {
    let mut p = Playback::new();
    assert!(!p.play(10 * MS));
    assert!(!p.pause(20 * MS));
    let s = p.snapshot(1000 * MS);
    assert!(!s.is_playing);
    assert_eq!(s.position_ms, 0);
    let reaction = p.handle(AudioCommand::Play, 30 * MS, true);
    assert!(matches!(reaction.action, EngineAction::Nothing));
}

#[test]
fn stop_resets_position_and_duration() {
    let mut p = loaded(5000);
    p.set_speed(1500);
    p.set_volume(400);
    p.play(0);
    p.stop();
    let s = p.snapshot(3000 * MS);
    assert_eq!(
        s,
        AudioState { is_playing: false, position_ms: 0, duration_ms: 0, speed: 1500, volume: 400 }
    );
    assert!(p.is_finished(false));
    assert!(!p.play(4000 * MS));
    assert!(!p.pause(4500 * MS));
    p.set_speed(700);
    p.stop();
    for step in 0..5u64 {
        let s = p.tick(5000 * MS + step * 50 * MS, false);
        assert_eq!(s.position_ms, 0);
        assert_eq!(s.duration_ms, 0);
        assert!(!s.is_playing);
    }

    let mut never_loaded = Playback::new();
    never_loaded.stop();
    assert_eq!(never_loaded.snapshot(1).duration_ms, 0);
}

#[test]
fn tick_publishes_then_marks_exhausted_playback_as_ended() {
    let mut p = loaded(1000);
    p.play(0);
    let s = p.tick(1200 * MS, true);
    assert!(s.is_playing);
    assert_eq!(s.position_ms, 1200);
    let s = p.tick(1250 * MS, true);
    assert!(!s.is_playing);
    assert_eq!(s.position_ms, 1200);
    assert_eq!(p.snapshot(9000 * MS).position_ms, 1200);
    assert!(p.is_finished(true));
    assert!(p.play(9000 * MS));
    assert_eq!(p.snapshot(9100 * MS).position_ms, 1300);
}

#[test]
fn a_second_play_does_not_rewind() {
    let mut p = loaded(60_000);
    assert!(p.play(0));
    assert_eq!(p.snapshot(800 * MS).position_ms, 800);
    assert!(p.play(800 * MS));
    let s = p.snapshot(800 * MS);
    assert!(s.is_playing);
    assert_eq!(s.position_ms, 800);
    assert_eq!(p.snapshot(1000 * MS).position_ms, 1000);
    let r = p.handle(AudioCommand::Play, 1500 * MS, false);
    assert!(matches!(r.action, EngineAction::Resume));
    assert_eq!(r.publish.unwrap().position_ms, 1500);
}

#[test]
fn position_never_falls_over_ticks_and_queries() {
    let mut p = loaded(2000);
    p.play(0);
    let mut last = 0;
    for step in 1..60u64 {
        let now = step * 50 * MS;
        let s = p.tick(now, step >= 40);
        assert!(s.position_ms >= last);
        last = s.position_ms;
        let q = p.snapshot(now);
        assert!(q.position_ms >= last);
        last = q.position_ms;
    }
    assert_eq!(last, 2000);
    assert!(!p.snapshot(0).is_playing);
}

#[test]
fn failed_load_leaves_the_player_empty() {
    let mut p = loaded(5000);
    p.set_speed(1250);
    p.set_volume(600);
    assert!(p.play(0));
    assert_eq!(p.snapshot(5 * MS).position_ms, 6);
    let cmd = AudioCommand::Load { path: "missing.wav".to_string(), duration_ms: 9 };
    let reaction = p.handle(cmd, 10 * MS, false);
    match reaction.action {
        EngineAction::Open { speed, volume, .. } => {
            assert_eq!(speed, 1250);
            assert_eq!(volume, 600);
        }
        other => panic!("unexpected action {:?}", other),
    }
    let empty =
        AudioState { is_playing: false, position_ms: 0, duration_ms: 0, speed: 1250, volume: 600 };
    assert_eq!(reaction.publish, Some(empty));
    assert!(p.is_finished(false));
    assert!(!p.play(20 * MS));
    assert!(!p.pause(25 * MS));
    assert_eq!(p.snapshot(30 * MS), empty);
    assert_eq!(p.tick(5000 * MS, false), empty);
    assert_eq!(p.snapshot(9000 * MS), empty);

    let opened = p.source_opened(9, 9000 * MS);
    assert_eq!(
        opened,
        AudioState { is_playing: false, position_ms: 0, duration_ms: 9, speed: 1250, volume: 600 }
    );
    assert_eq!(p.snapshot(9000 * MS), opened);
    assert!(p.play(9000 * MS));
}

#[test]
fn the_clock_never_runs_backwards() {
    let mut p = loaded(5000);
    p.play(1000 * MS);
    assert_eq!(p.snapshot(500 * MS).position_ms, 0);
    p.pause(400 * MS);
    assert_eq!(p.snapshot(2000 * MS).position_ms, 0);
}

#[test]
fn settings_reach_a_loaded_sink_only() {
    let mut p = Playback::new();
    let r = p.handle(AudioCommand::SetSpeed(3000), 0, true);
    assert!(matches!(r.action, EngineAction::Nothing));
    assert_eq!(r.publish.unwrap().speed, 2000);
    let r = p.handle(AudioCommand::SetVolume(-5), 0, true);
    assert!(matches!(r.action, EngineAction::Nothing));
    assert_eq!(r.publish.unwrap().volume, 0);

    let mut p = loaded(100);
    let r = p.handle(AudioCommand::SetSpeed(750), 0, false);
    assert!(matches!(r.action, EngineAction::ApplySpeed(750)));
    let r = p.handle(AudioCommand::SetVolume(2000), 0, false);
    assert!(matches!(r.action, EngineAction::ApplyVolume(1000)));
    let cmd = AudioCommand::Load { path: "b.wav".to_string(), duration_ms: 1 };
    match p.handle(cmd, 0, false).action {
        EngineAction::Open { speed, volume, .. } => {
            assert_eq!(speed, 750);
            assert_eq!(volume, 1000);
        }
        other => panic!("unexpected action {:?}", other),
    }
}

fn deliver(reply: Option<Reply>) {
    match reply {
        Some(Reply::State { to, state }) => {
            let _ = to.send(state);
        }
        Some(Reply::Finished { to, finished }) => {
            let _ = to.send(finished);
        }
        None => {}
    }
}

#[test]
fn queries_are_answered_on_their_channel() {
    let mut p = loaded(5000);
    p.play(0);
    let (tx, rx) = channel();
    let r = p.handle(AudioCommand::GetState(tx), 2000 * MS, false);
    assert!(matches!(r.action, EngineAction::Nothing));
    assert!(r.publish.is_none());
    assert!(matches!(r.reply, Some(Reply::State { .. })));
    deliver(r.reply);
    let s = rx.try_recv().unwrap();
    assert_eq!(
        s,
        AudioState { is_playing: true, position_ms: 2000, duration_ms: 5000, speed: 1000, volume: 1000 }
    );
    assert!(rx.try_recv().is_err());
    assert_eq!(p.snapshot(2000 * MS), s);

    let (tx, rx) = channel();
    let r = p.handle(AudioCommand::IsFinished(tx), 2000 * MS, false);
    assert!(matches!(r.reply, Some(Reply::Finished { finished: false, .. })));
    deliver(r.reply);
    assert_eq!(rx.try_recv(), Ok(false));
    let (tx, rx) = channel();
    let r = p.handle(AudioCommand::IsFinished(tx), 2000 * MS, true);
    assert!(r.publish.is_none());
    deliver(r.reply);
    assert_eq!(rx.try_recv(), Ok(true));

    let (tx, rx) = channel();
    let r = Playback::new().handle(AudioCommand::IsFinished(tx), 0, false);
    deliver(r.reply);
    assert_eq!(rx.try_recv(), Ok(true));

    let r = p.handle(AudioCommand::Pause, 2000 * MS, false);
    assert!(r.reply.is_none());
}

#[test]
fn every_published_state_is_within_limits() {
    let mut p = Playback::new();
    let requests = [-7i64, 0, 499, 500, 1000, 2000, 2001, 1_000_000];
    for (i, &req) in requests.iter().enumerate() {
        let now = i as u64 * 50 * MS;
        let a = p.handle(AudioCommand::SetSpeed(req), now, false).publish.unwrap();
        let b = p.handle(AudioCommand::SetVolume(req), now, false).publish.unwrap();
        let c = p.handle(AudioCommand::Play, now, false).publish.unwrap();
        let d = p.handle(AudioCommand::Pause, now, false).publish.unwrap();
        for s in [a, b, c, d, p.tick(now, true)] {
            assert!(500 <= s.speed && s.speed <= 2000);
            assert!(s.volume <= 1000);
        }
    }
}
