use tracker_lib::grid::{MidiNoteCmd, TrackerState};
use tracker_lib::TrackerError;

fn note(ts: &TrackerState, ch: usize, row: usize, cell: usize) -> Option<MidiNoteCmd> {
    ts.sequences[ch].data[row].notes[cell]
}

#[test]
fn empty_song_shape() {
    let ts = TrackerState::empty();
    assert_eq!(ts.sequences.len(), 4);
    for (i, seq) in ts.sequences.iter().enumerate() {
        assert_eq!(seq.data.len(), 1);
        assert_eq!(seq.dev, "Midi-Tracker");
        assert_eq!(seq.channel, i as u8);
        assert!(seq.data[0].notes.iter().all(|n| n.is_none()));
        assert!(seq.data[0].cmds.iter().all(|c| c.is_none()));
    }
    assert_eq!(ts.display_start, 0);
}

#[test]
fn default_song_shape() {
    let ts = TrackerState::default();
    assert_eq!(ts.sequences.len(), 4);
    for (i, seq) in ts.sequences.iter().enumerate() {
        assert_eq!(seq.data.len(), 0xFFFF);
        assert_eq!(seq.dev, "Midi-Tracker");
        assert_eq!(seq.channel, i as u8);
    }
}

#[test]
fn padding_keeps_channels_equal() {
    let mut ts = TrackerState::empty();
    ts.add_note_run(60, 100, 2, 5, 9, 1).unwrap();
    for seq in &ts.sequences {
        assert_eq!(seq.data.len(), 10);
    }
    // Padding appended empty rows everywhere but the run's own cells.
    for ch in [0usize, 1, 3] {
        for row in 0..10 {
            assert!(ts.sequences[ch].data[row].notes.iter().all(|n| n.is_none()));
        }
    }
}

#[test]
fn run_integrity() {
    let mut ts = TrackerState::empty();
    ts.add_note_run(60, 100, 0, 2, 5, 0).unwrap();
    assert_eq!(note(&ts, 0, 2, 0), Some(MidiNoteCmd::PlayNote((60, 100))));
    assert_eq!(note(&ts, 0, 3, 0), Some(MidiNoteCmd::HoldNote));
    assert_eq!(note(&ts, 0, 4, 0), Some(MidiNoteCmd::HoldNote));
    assert_eq!(note(&ts, 0, 5, 0), Some(MidiNoteCmd::StopNote(60)));
    assert_eq!(note(&ts, 0, 0, 0), None);
    assert_eq!(note(&ts, 0, 1, 0), None);
    // Other cells and channels are untouched.
    assert_eq!(note(&ts, 0, 3, 1), None);
    assert_eq!(note(&ts, 1, 3, 0), None);
}

#[test]
fn removal_clears_whole_run_from_any_row() {
    for target in 2..=5usize {
        let mut ts = TrackerState::empty();
        ts.add_note_run(60, 100, 0, 2, 5, 0).unwrap();
        ts.rm_note(0, target, 0).unwrap();
        for row in 0..ts.sequences[0].data.len() {
            assert_eq!(note(&ts, 0, row, 0), None, "row {row}, target {target}");
        }
    }
}

#[test]
fn removal_leaves_distant_runs_alone() {
    let mut ts = TrackerState::empty();
    ts.add_note_run(60, 100, 0, 2, 4, 0).unwrap();
    ts.add_note_run(64, 90, 0, 8, 10, 0).unwrap();
    ts.rm_note(0, 3, 0).unwrap();
    for row in 0..=5 {
        assert_eq!(note(&ts, 0, row, 0), None);
    }
    assert_eq!(note(&ts, 0, 8, 0), Some(MidiNoteCmd::PlayNote((64, 90))));
    assert_eq!(note(&ts, 0, 9, 0), Some(MidiNoteCmd::HoldNote));
    assert_eq!(note(&ts, 0, 10, 0), Some(MidiNoteCmd::StopNote(64)));
}

#[test]
fn removal_at_row_zero_scans_forward_only() {
    let mut ts = TrackerState::empty();
    ts.add_note_run(60, 100, 0, 0, 3, 0).unwrap();
    ts.rm_note(0, 0, 0).unwrap();
    for row in 0..ts.sequences[0].data.len() {
        assert_eq!(note(&ts, 0, row, 0), None);
    }
}

#[test]
fn removal_pads_like_mutation() {
    let mut ts = TrackerState::empty();
    ts.rm_note(0, 6, 0).unwrap();
    for seq in &ts.sequences {
        assert_eq!(seq.data.len(), 7);
    }
}

#[test]
fn run_collapses_when_start_meets_stop() {
    let mut ts = TrackerState::empty();
    ts.add_note_run(60, 100, 0, 4, 4, 0).unwrap();
    assert_eq!(note(&ts, 0, 4, 0), Some(MidiNoteCmd::StopNote(60)));
    for row in 0..4 {
        assert_eq!(note(&ts, 0, row, 0), None);
    }
}

#[test]
fn single_cell_can_be_written_and_cleared() {
    let mut ts = TrackerState::empty();
    ts.add_note(Some(MidiNoteCmd::PlayNote((71, 33))), 3, 0, 2).unwrap();
    assert_eq!(note(&ts, 3, 0, 2), Some(MidiNoteCmd::PlayNote((71, 33))));
    ts.add_note(None, 3, 0, 2).unwrap();
    assert_eq!(note(&ts, 3, 0, 2), None);
}

#[test]
fn copy_from_row_keeps_display_origin() {
    let mut ts = TrackerState::empty();
    ts.display_start = 17;
    ts.add_note_run(60, 100, 0, 0, 5, 0).unwrap();
    let window = ts.copy_from_row(1, 4);
    assert_eq!(window.display_start, 17);
}

#[test]
fn add_note_rejects_bad_cell() {
    let mut ts = TrackerState::empty();
    assert_eq!(
        ts.add_note(Some(MidiNoteCmd::HoldNote), 0, 0, 4),
        Err(TrackerError::InvalidCellIndex)
    );
    assert_eq!(ts.sequences[0].data.len(), 1);
}

#[test]
fn add_note_rejects_bad_channel() {
    let mut ts = TrackerState::empty();
    assert_eq!(
        ts.add_note(Some(MidiNoteCmd::HoldNote), 9, 0, 0),
        Err(TrackerError::InvalidChannel)
    );
}

#[test]
fn rm_note_rejects_bad_cell_and_channel() {
    let mut ts = TrackerState::empty();
    assert_eq!(ts.rm_note(0, 0, 7), Err(TrackerError::InvalidCellIndex));
    assert_eq!(ts.rm_note(4, 0, 0), Err(TrackerError::InvalidChannel));
}

#[test]
fn copy_from_row_truncates_every_channel() {
    let mut ts = TrackerState::empty();
    ts.add_note_run(60, 100, 1, 2, 5, 0).unwrap();
    let window = ts.copy_from_row(2, 3);
    assert_eq!(window.sequences.len(), 4);
    for (i, seq) in window.sequences.iter().enumerate() {
        assert_eq!(seq.data.len(), 3);
        assert_eq!(seq.dev, "Midi-Tracker");
        assert_eq!(seq.channel, i as u8);
    }
    assert_eq!(
        window.sequences[1].data[0].notes[0],
        Some(MidiNoteCmd::PlayNote((60, 100)))
    );
    assert_eq!(window.sequences[1].data[1].notes[0], Some(MidiNoteCmd::HoldNote));
    assert_eq!(window.sequences[1].data[2].notes[0], Some(MidiNoteCmd::HoldNote));
}
