use pdf_audio::audio::{
    delivery_result, finished_after, finished_or_default, finished_query, load_command,
    pause_command, play_command, send_failure, speed_command, stop_command, volume_command,
    AudioCommand, AudioController, AudioState, StateCell,
};
use std::sync::mpsc::channel;

const INITIAL: AudioState =
    AudioState { is_playing: false, position_ms: 0, duration_ms: 0, speed: 1000, volume: 1000 };

#[test]
fn commands_arrive_in_the_order_sent() {
    let (controller, thread_side) = AudioController::new();
    let rx = thread_side.commands;
    assert!(controller.load("a.wav", 5000).is_ok());
    assert!(controller.play().is_ok());
    controller.set_speed(1500);
    controller.set_volume(-20);
    assert!(controller.pause().is_ok());
    assert!(controller.stop().is_ok());

    match rx.try_recv().unwrap() {
        AudioCommand::Load { path, duration_ms } => {
            assert_eq!(path, "a.wav");
            assert_eq!(duration_ms, 5000);
        }
        other => panic!("unexpected command {:?}", other),
    }
    assert!(matches!(rx.try_recv().unwrap(), AudioCommand::Play));
    assert!(matches!(rx.try_recv().unwrap(), AudioCommand::SetSpeed(1500)));
    assert!(matches!(rx.try_recv().unwrap(), AudioCommand::SetVolume(-20)));
    assert!(matches!(rx.try_recv().unwrap(), AudioCommand::Pause));
    assert!(matches!(rx.try_recv().unwrap(), AudioCommand::Stop));
    assert!(rx.try_recv().is_err());
}

#[test]
fn a_closed_channel_is_reported() {
    let (controller, thread_side) = AudioController::new();
    drop(thread_side);
    assert_eq!(
        controller.load("a.wav", 1).unwrap_err().message,
        "Failed to send load command: sending on a closed channel"
    );
    assert_eq!(
        controller.play().unwrap_err().message,
        "Failed to send play command: sending on a closed channel"
    );
    assert_eq!(
        controller.pause().unwrap_err().message,
        "Failed to send pause command: sending on a closed channel"
    );
    assert_eq!(
        controller.stop().unwrap_err().message,
        "Failed to send stop command: sending on a closed channel"
    );
    controller.set_speed(1000);
    controller.set_volume(1000);
    assert!(controller.is_finished());
    assert_eq!(controller.get_state(), INITIAL);
}

#[test]
fn a_new_controller_shows_the_initial_state() {
    let (controller, _thread_side) = AudioController::new();
    assert_eq!(controller.get_state(), INITIAL);
    assert_eq!(controller.get_state(), AudioState::default());
}

#[test]
fn get_state_returns_what_was_published() {
    let (controller, thread_side) = AudioController::new();
    let published =
        AudioState { is_playing: true, position_ms: 42, duration_ms: 5000, speed: 1500, volume: 10 };
    assert!(thread_side.state.publish(published));
    assert_eq!(controller.get_state(), published);
    assert_eq!(controller.get_state(), published);
    let next = AudioState { position_ms: 92, ..published };
    assert!(thread_side.state.publish(next));
    assert_eq!(controller.get_state(), next);
}

#[test]
fn states_outside_the_limits_are_not_published() {
    let (controller, thread_side) = AudioController::new();
    let good =
        AudioState { is_playing: true, position_ms: 1, duration_ms: 2, speed: 500, volume: 1000 };
    assert!(thread_side.state.publish(good));
    for bad in [
        AudioState { speed: 499, ..good },
        AudioState { speed: 2001, ..good },
        AudioState { volume: 1001, ..good },
        AudioState { speed: 0, volume: 4_000_000, ..good },
    ] {
        assert!(!bad.within_limits());
        assert!(!thread_side.state.publish(bad));
        assert_eq!(controller.get_state(), good);
    }
    assert!(good.within_limits());
    assert!(AudioState { speed: 2000, volume: 0, ..good }.within_limits());
}

#[test]
fn a_mailbox_is_shared_by_its_handles() {
    let cell = StateCell::new();
    assert_eq!(cell.latest(), INITIAL);
    let other = cell.share();
    let state =
        AudioState { is_playing: false, position_ms: 7, duration_ms: 9, speed: 2000, volume: 0 };
    assert!(other.publish(state));
    assert_eq!(cell.latest(), state);
    assert_eq!(other.latest(), state);
    assert_eq!(StateCell::new().latest(), INITIAL);
}

#[test]
fn an_unanswered_query_counts_as_finished() {
    let (controller, thread_side) = AudioController::new();
    assert!(controller.is_finished());
    assert!(matches!(thread_side.commands.try_recv().unwrap(), AudioCommand::IsFinished(_)));
}

#[test]
fn delivery_results_name_the_command() {
    assert!(delivery_result("load", Ok(())).is_ok());
    let e = delivery_result("stop", Err("gone".to_string())).unwrap_err();
    assert_eq!(e.message, "Failed to send stop command: gone");
    assert_eq!(send_failure("play", "x").message, "Failed to send play command: x");
}

#[test]
fn missing_replies_default_to_finished() {
    assert!(finished_or_default(None));
    assert!(finished_or_default(Some(true)));
    assert!(!finished_or_default(Some(false)));
}

#[test]
fn an_unsent_query_counts_as_finished() {
    assert!(finished_after(false, None));
    assert!(finished_after(false, Some(false)));
    assert!(finished_after(true, None));
    assert!(finished_after(true, Some(true)));
    assert!(!finished_after(true, Some(false)));
}

#[test]
fn commands_carry_what_was_asked() {
    match load_command("book.wav", 1234) {
        AudioCommand::Load { path, duration_ms } => {
            assert_eq!(path, "book.wav");
            assert_eq!(duration_ms, 1234);
        }
        other => panic!("unexpected command {:?}", other),
    }
    assert!(matches!(play_command(), AudioCommand::Play));
    assert!(matches!(pause_command(), AudioCommand::Pause));
    assert!(matches!(stop_command(), AudioCommand::Stop));
    assert!(matches!(speed_command(-7), AudioCommand::SetSpeed(-7)));
    assert!(matches!(volume_command(2500), AudioCommand::SetVolume(2500)));
    let (tx, rx) = channel();
    match finished_query(tx) {
        AudioCommand::IsFinished(reply) => reply.send(true).unwrap(),
        other => panic!("unexpected command {:?}", other),
    }
    assert_eq!(rx.try_recv(), Ok(true));
}
