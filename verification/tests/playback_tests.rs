use tracker_lib::grid::{MidiNoteCmd, TrackerState};
use tracker_lib::player::{
    player_cmd_of, PlaybackCmd, PlaybackState, Player, PlayerCmd, NANO_MIN,
};
use tracker_lib::TrackerError;

#[test]
fn new_player_defaults() {
    let p = Player::new(7);
    assert_eq!(p.state, PlaybackState::NotPlaying);
    assert_eq!(p.last_event, 7);
    assert_eq!(p.tempo, 110);
    assert_eq!(p.beat, 8);
    assert_eq!(p.beat_time, NANO_MIN / 110 / 8);
    assert_eq!(p.rec_head, (0, 0));
}

#[test]
fn beat_interval_formula() {
    let song = TrackerState::empty();
    let mut p = Player::new(0);
    p.handle_cmd(&song, 0, PlayerCmd::SetTempo(120)).unwrap();
    p.handle_cmd(&song, 0, PlayerCmd::SetBeat(4)).unwrap();
    assert_eq!(p.beat_time, NANO_MIN / 120 / 4);
    assert_eq!(p.beat_time, 125_000_000);
}

#[test]
fn tempo_and_beat_idempotence() {
    let song = TrackerState::empty();
    let mut p = Player::new(3);
    p.handle_cmd(&song, 99, PlayerCmd::SetTempo(120)).unwrap();
    p.handle_cmd(&song, 99, PlayerCmd::SetBeat(4)).unwrap();
    let snapshot = p;
    p.set_tempo(120);
    assert_eq!(p, snapshot);
    p.set_beat(4);
    assert_eq!(p, snapshot);
    p.handle_cmd(&song, 777, PlayerCmd::SetTempo(120)).unwrap();
    p.handle_cmd(&song, 777, PlayerCmd::SetBeat(4)).unwrap();
    assert_eq!(p, snapshot);
}

#[test]
fn resume_from_not_playing_starts_at_row_zero() {
    let song = TrackerState::empty();
    let mut p = Player::new(0);
    assert_eq!(p.handle_cmd(&song, 0, PlayerCmd::ResumePlayback), Ok(()));
    assert_eq!(p.state, PlaybackState::Playing(0));
}

#[test]
fn pause_from_not_playing_is_an_error_and_a_no_op() {
    let song = TrackerState::empty();
    let mut p = Player::new(0);
    assert_eq!(
        p.handle_cmd(&song, 0, PlayerCmd::PausePlayback),
        Err(TrackerError::InvalidTransportTransition)
    );
    assert_eq!(p.state, PlaybackState::NotPlaying);
}

#[test]
fn transport_round_trip() {
    let song = TrackerState::empty();
    let mut p = Player::new(0);
    p.handle_cmd(&song, 0, PlayerCmd::ResumePlayback).unwrap();
    p.handle_cmd(&song, 0, PlayerCmd::SetCursor(5)).unwrap();
    assert_eq!(p.state, PlaybackState::Playing(5));
    p.handle_cmd(&song, 0, PlayerCmd::PausePlayback).unwrap();
    assert_eq!(p.state, PlaybackState::Paused(5));
    p.handle_cmd(&song, 0, PlayerCmd::ResumePlayback).unwrap();
    assert_eq!(p.state, PlaybackState::Playing(5));
    p.handle_cmd(&song, 10, PlayerCmd::StopPlayback).unwrap();
    assert_eq!(p.state, PlaybackState::NotPlaying);
    assert_eq!(
        p.handle_cmd(&song, 10, PlayerCmd::StopPlayback),
        Err(TrackerError::InvalidTransportTransition)
    );
    assert_eq!(
        p.handle_cmd(&song, 10, PlayerCmd::SetCursor(1)),
        Err(TrackerError::InvalidTransportTransition)
    );
}

#[test]
fn set_record_head_rejects_bad_channel() {
    let song = TrackerState::empty();
    let mut p = Player::new(0);
    assert_eq!(
        p.handle_cmd(&song, 0, PlayerCmd::SetRecHead(5, 0)),
        Err(TrackerError::InvalidChannel)
    );
    assert_eq!(p.rec_head, (0, 0));
}

#[test]
fn set_record_head_rejects_bad_cell() {
    let song = TrackerState::empty();
    let mut p = Player::new(0);
    assert_eq!(
        p.handle_cmd(&song, 0, PlayerCmd::SetRecHead(1, 6)),
        Err(TrackerError::InvalidRecordHead)
    );
    assert_eq!(p.rec_head, (0, 0));
    assert_eq!(p.handle_cmd(&song, 0, PlayerCmd::SetRecHead(1, 2)), Ok(()));
    assert_eq!(p.rec_head, (1, 2));
}

#[test]
fn three_tick_scenario() {
    // tempo 120, beat 4: one row every NANO_MIN / 120 / 4 nanoseconds.
    let mut song = TrackerState::empty();
    song.add_note_run(60, 100, 0, 0, 2, 0).unwrap();
    assert_eq!(song.sequences[0].data.len(), 3);

    let mut p = Player::new(0);
    p.handle_cmd(&song, 0, PlayerCmd::SetTempo(120)).unwrap();
    p.handle_cmd(&song, 0, PlayerCmd::SetBeat(4)).unwrap();
    let interval = p.beat_time;
    assert_eq!(interval, NANO_MIN / 120 / 4);
    p.handle_cmd(&song, 0, PlayerCmd::ResumePlayback).unwrap();

    // Tick 1 plays row 0: exactly the note start.
    let out1 = p.tick(&song, interval, None);
    assert_eq!(out1.line, Some(0));
    assert_eq!(out1.notes.len(), 1);
    assert_eq!(out1.notes[0].0, 0);
    assert_eq!(out1.notes[0].1, MidiNoteCmd::PlayNote((60, 100)));
    assert_eq!(out1.notes[0].2, "Midi-Tracker");
    assert_eq!(p.state, PlaybackState::Playing(1));

    // Too early for the next beat: nothing happens.
    let idle = p.tick(&song, interval + 1, None);
    assert_eq!(idle.line, None);
    assert!(idle.notes.is_empty());
    assert_eq!(p.state, PlaybackState::Playing(1));

    // Tick 2 plays row 1: the sustain continuation is suppressed.
    let out2 = p.tick(&song, 2 * interval, None);
    assert_eq!(out2.line, Some(1));
    assert!(out2.notes.is_empty());
    assert_eq!(p.state, PlaybackState::Playing(2));

    // Tick 3 plays row 2: exactly the note end.
    let out3 = p.tick(&song, 3 * interval, None);
    assert_eq!(out3.line, Some(2));
    assert_eq!(out3.notes.len(), 1);
    assert_eq!(out3.notes[0].1, MidiNoteCmd::StopNote(60));
}

#[test]
fn cursor_wraps_at_last_row() {
    let mut song = TrackerState::empty();
    song.add_note_run(60, 100, 0, 0, 2, 0).unwrap();
    let mut p = Player::new(0);
    p.handle_cmd(&song, 0, PlayerCmd::ResumePlayback).unwrap();
    p.handle_cmd(&song, 0, PlayerCmd::SetCursor(2)).unwrap();
    let out = p.tick(&song, NANO_MIN, None);
    assert_eq!(out.line, Some(2));
    assert_eq!(p.state, PlaybackState::Playing(0));
}

#[test]
fn hold_rows_emit_nothing() {
    let mut song = TrackerState::empty();
    song.add_note_run(72, 80, 3, 0, 9, 2).unwrap();
    let mut p = Player::new(0);
    p.handle_cmd(&song, 0, PlayerCmd::ResumePlayback).unwrap();
    let interval = p.beat_time;
    let mut emitted = Vec::new();
    for tick_no in 1..=10u64 {
        let out = p.tick(&song, tick_no * interval, None);
        for (_, ev, _) in &out.notes {
            assert!(!matches!(ev, MidiNoteCmd::HoldNote));
            emitted.push(*ev);
        }
    }
    assert_eq!(
        emitted,
        vec![MidiNoteCmd::PlayNote((72, 80)), MidiNoteCmd::StopNote(72)]
    );
}

#[test]
fn command_cells_are_forwarded() {
    let mut song = TrackerState::empty();
    song.sequences[2].data[0].cmds[0] = Some(('v', Some(42)));
    song.sequences[2].data[0].cmds[1] = Some(('p', None));
    let mut p = Player::new(0);
    p.handle_cmd(&song, 0, PlayerCmd::ResumePlayback).unwrap();
    let out = p.tick(&song, NANO_MIN, None);
    assert_eq!(out.cmds, vec![(2, ('v', Some(42))), (2, ('p', None))]);
}

#[test]
fn stop_lets_the_next_resume_fire_promptly() {
    let song = TrackerState::empty();
    let now = 2 * NANO_MIN;
    let mut p = Player::new(now);
    p.handle_cmd(&song, now, PlayerCmd::ResumePlayback).unwrap();
    p.handle_cmd(&song, now, PlayerCmd::StopPlayback).unwrap();
    assert_eq!(p.last_event, now - NANO_MIN);
    // Resume right away: the first beat does not wait a full interval.
    let out = p.tick(&song, now + 1, Some(PlayerCmd::ResumePlayback));
    assert_eq!(out.cmd_result, Some(Ok(())));
    assert_eq!(out.line, Some(0));
}

#[test]
fn paused_player_never_fires() {
    let mut song = TrackerState::empty();
    song.add_note_run(60, 100, 0, 0, 2, 0).unwrap();
    let mut p = Player::new(0);
    p.handle_cmd(&song, 0, PlayerCmd::ResumePlayback).unwrap();
    p.handle_cmd(&song, 0, PlayerCmd::PausePlayback).unwrap();
    let out = p.tick(&song, 5 * NANO_MIN, None);
    assert_eq!(out.line, None);
    assert!(out.notes.is_empty());
    assert_eq!(p.state, PlaybackState::Paused(0));
}

#[test]
fn tick_reports_command_outcomes() {
    let song = TrackerState::empty();
    let mut p = Player::new(0);
    let out = p.tick(&song, 0, Some(PlayerCmd::PausePlayback));
    assert_eq!(
        out.cmd_result,
        Some(Err(TrackerError::InvalidTransportTransition))
    );
    let out2 = p.tick(&song, 0, None);
    assert_eq!(out2.cmd_result, None);
}

#[test]
fn front_end_commands_map_to_scheduler_commands() {
    assert_eq!(player_cmd_of(PlaybackCmd::Play), Some(PlayerCmd::ResumePlayback));
    assert_eq!(player_cmd_of(PlaybackCmd::Stop), Some(PlayerCmd::StopPlayback));
    assert_eq!(
        player_cmd_of(PlaybackCmd::SetCursor(12)),
        Some(PlayerCmd::SetCursor(12))
    );
    assert_eq!(player_cmd_of(PlaybackCmd::Pause), None);
    assert_eq!(player_cmd_of(PlaybackCmd::Restart), None);
}
