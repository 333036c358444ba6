//! The playback scheduler: a polled state machine holding transport state,
//! tempo and beat timing, and a record head. Each `tick` dispatches at most
//! one inbox command, then, when a beat boundary has elapsed, advances the
//! cursor and collects the events of the row being played. The caller
//! performs the clock reads, the command receive and the event delivery.
use vstd::prelude::*;

use crate::grid::{MidiNoteCmd, RowData, TrackerState};
use crate::{Cmd, CmdArg, TrackerError};

verus! {

/// One reference time unit (one minute) in nanoseconds; the beat interval
/// is this divided by tempo and beat division.
pub const NANO_MIN: u64 = 60_000_000_000;

/// The transport state machine.
#[derive(Clone, Copy, Debug, PartialEq, Eq, Structural)]
pub enum PlaybackState {
    /// Playing; holds the current row.
    Playing(usize),
    /// Paused; holds the row where playback will resume.
    Paused(usize),
    /// Neither playing nor paused.
    NotPlaying,
}

/// The coarse transport commands a front end issues.
#[derive(Clone, Copy, Debug, PartialEq, Eq, Structural)]
pub enum PlaybackCmd {
    Play,
    Pause,
    Stop,
    Restart,
    SetCursor(usize),
}

/// The control commands delivered to the scheduler's inbox.
#[derive(Clone, Copy, Debug, PartialEq, Eq, Structural)]
pub enum PlayerCmd {
    PausePlayback,
    ResumePlayback,
    StopPlayback,
    SetCursor(usize),
    SetTempo(u64),
    SetBeat(u64),
    SetRecHead(usize, usize),
}

/// Commands the scheduler can act on: a zero tempo or beat division would
/// leave the beat interval undefined, so the sender screens them out.
pub open spec fn cmd_wf(cmd: PlayerCmd) -> bool {
    match cmd {
        PlayerCmd::SetTempo(t) => t >= 1,
        PlayerCmd::SetBeat(b) => b >= 1,
        _ => true,
    }
}

/// The wall-clock duration between row advances.
pub open spec fn spec_beat_time(tempo: u64, beat: u64) -> u64
    recommends
        tempo >= 1,
        beat >= 1,
{
    ((NANO_MIN as int / tempo as int) / beat as int) as u64
}

/// Nanoseconds elapsed since `last`, saturating at zero.
pub open spec fn elapsed(last: u64, now: u64) -> int {
    if now >= last {
        now - last
    } else {
        0
    }
}

/// Whether a tick at `now` fires a beat: playing, and at least one beat
/// interval has elapsed since the last event.
pub open spec fn beat_fires(p: Player, now: u64) -> bool {
    match p.state {
        PlaybackState::Playing(_) => elapsed(p.last_event, now) >= p.beat_time,
        _ => false,
    }
}

/// The playback scheduler's state.
#[derive(Clone, Copy, Debug, PartialEq)]
pub struct Player {
    /// The transport state.
    pub state: PlaybackState,
    /// When the last beat was processed, in nanoseconds of the caller's
    /// monotonic clock.
    pub last_event: u64,
    /// The derived beat interval, in nanoseconds.
    pub beat_time: u64,
    /// The tempo of playback.
    pub tempo: u64,
    /// The beat division: how many rows pass per reference unit per tempo.
    pub beat: u64,
    /// Where newly entered notes are written: (channel, note cell).
    pub rec_head: (usize, usize),
}

/// `p` with another transport state.
pub open spec fn with_state(p: Player, st: PlaybackState) -> Player {
    Player {
        state: st,
        last_event: p.last_event,
        beat_time: p.beat_time,
        tempo: p.tempo,
        beat: p.beat,
        rec_head: p.rec_head,
    }
}

/// `p` stopped: transport reset, and the last-event timestamp moved one
/// reference unit into the past so the next resume fires promptly.
pub open spec fn stopped(p: Player, now: u64) -> Player {
    Player {
        state: PlaybackState::NotPlaying,
        last_event: if now >= NANO_MIN {
            (now - NANO_MIN) as u64
        } else {
            0
        },
        beat_time: p.beat_time,
        tempo: p.tempo,
        beat: p.beat,
        rec_head: p.rec_head,
    }
}

/// `p` with a new tempo or beat division and the beat interval recomputed.
pub open spec fn retimed(p: Player, tempo: u64, beat: u64) -> Player {
    Player {
        state: p.state,
        last_event: p.last_event,
        beat_time: spec_beat_time(tempo, beat),
        tempo: tempo,
        beat: beat,
        rec_head: p.rec_head,
    }
}

/// `p` with the record head moved.
pub open spec fn with_rec_head(p: Player, ch: usize, cell: usize) -> Player {
    Player {
        state: p.state,
        last_event: p.last_event,
        beat_time: p.beat_time,
        tempo: p.tempo,
        beat: p.beat,
        rec_head: (ch, cell),
    }
}

/// What one command does to the scheduler: the next state and the reported
/// outcome. Rejected commands leave the state untouched.
pub open spec fn cmd_step(p: Player, n_channels: nat, now: u64, cmd: PlayerCmd) -> (
    Player,
    Result<(), TrackerError>,
) {
    match cmd {
        PlayerCmd::PausePlayback => match p.state {
            PlaybackState::Playing(r) => (with_state(p, PlaybackState::Paused(r)), Ok(())),
            _ => (p, Err(TrackerError::InvalidTransportTransition)),
        },
        PlayerCmd::ResumePlayback => match p.state {
            PlaybackState::Playing(_) => (p, Err(TrackerError::InvalidTransportTransition)),
            PlaybackState::Paused(r) => (with_state(p, PlaybackState::Playing(r)), Ok(())),
            PlaybackState::NotPlaying => (with_state(p, PlaybackState::Playing(0)), Ok(())),
        },
        PlayerCmd::StopPlayback => match p.state {
            PlaybackState::NotPlaying => (p, Err(TrackerError::InvalidTransportTransition)),
            _ => (stopped(p, now), Ok(())),
        },
        PlayerCmd::SetCursor(loc) => match p.state {
            PlaybackState::Playing(_) => (with_state(p, PlaybackState::Playing(loc)), Ok(())),
            PlaybackState::Paused(_) => (with_state(p, PlaybackState::Paused(loc)), Ok(())),
            PlaybackState::NotPlaying => (p, Err(TrackerError::InvalidTransportTransition)),
        },
        PlayerCmd::SetTempo(t) => (retimed(p, t, p.beat), Ok(())),
        PlayerCmd::SetBeat(b) => (retimed(p, p.tempo, b), Ok(())),
        PlayerCmd::SetRecHead(ch, cell) => if ch < n_channels && cell < 4 {
            (with_rec_head(p, ch, cell), Ok(()))
        } else if ch >= n_channels {
            (p, Err(TrackerError::InvalidChannel))
        } else {
            (p, Err(TrackerError::InvalidRecordHead))
        },
    }
}

/// What a fired beat does, given that the scheduler stood at `p1` with the
/// cursor on `r`: the timestamp resets to `now`, the cursor advances
/// modulo the song length, the played row is announced, and the row's
/// note and command events are collected in channel then cell order.
pub open spec fn beat_outcome(
    song: TrackerState,
    p1: Player,
    now: u64,
    r: usize,
    p2: Player,
    line: Option<usize>,
    notes: Seq<(u8, MidiNoteCmd, String)>,
    cmds: Seq<(usize, (Cmd, Option<CmdArg>))>,
) -> bool {
    let idx = r as int % song.row_count() as int;
    &&& p2 == Player {
        state: PlaybackState::Playing(((r as int + 1) % song.row_count() as int) as usize),
        last_event: now,
        beat_time: p1.beat_time,
        tempo: p1.tempo,
        beat: p1.beat,
        rec_head: p1.rec_head,
    }
    &&& line == Some(r)
    &&& notes.len() == row_events(song, idx).len()
    &&& forall|i: int|
        0 <= i < notes.len() ==> {
            &&& (#[trigger] notes[i]).0 == row_events(song, idx)[i].0
            &&& notes[i].1 == row_events(song, idx)[i].1
            &&& notes[i].2@ == row_events(song, idx)[i].2
        }
    &&& cmds == row_cmd_events(song, idx)
}

/// What one tick hands back to the caller: the outcome of the dispatched
/// command, the row notification of a fired beat, and the note and command
/// events of the played row, in channel then cell order.
#[derive(Debug)]
pub struct TickOutput {
    /// The outcome of the command drained this tick, if there was one.
    pub cmd_result: Option<Result<(), TrackerError>>,
    /// The row that was played, for playhead display; `None` when no beat
    /// fired.
    pub line: Option<usize>,
    /// The note events to deliver: (sub-channel, event, device name).
    /// Sustain continuations are never among them.
    pub notes: Vec<(u8, MidiNoteCmd, String)>,
    /// The command events to deliver: (channel index, command cell).
    pub cmds: Vec<(usize, (Cmd, Option<CmdArg>))>,
}

/// The note events of the first `n` note cells of one row of one channel:
/// every filled cell in cell order, sustain continuations left out.
pub open spec fn cell_events(rd: RowData, chno: u8, dev: Seq<char>, n: int) -> Seq<
    (u8, MidiNoteCmd, Seq<char>),
>
    decreases n,
{
    if n <= 0 {
        Seq::empty()
    } else {
        cell_events(rd, chno, dev, n - 1) + (match rd.notes@[n - 1] {
            Some(ev) => if ev is HoldNote {
                Seq::empty()
            } else {
                seq![(chno, ev, dev)]
            },
            None => Seq::empty(),
        })
    }
}

/// The note events of row `row` of the first `c` channels, in channel
/// order. `row` is an in-bounds row index.
pub open spec fn note_events_up_to(song: TrackerState, row: int, c: int) -> Seq<
    (u8, MidiNoteCmd, Seq<char>),
>
    decreases c,
{
    if c <= 0 {
        Seq::empty()
    } else {
        note_events_up_to(song, row, c - 1) + cell_events(
            song.sequences@[c - 1].data@[row],
            song.sequences@[c - 1].channel,
            song.sequences@[c - 1].dev@,
            4,
        )
    }
}

/// All note events a fired beat forwards for row `row`.
pub open spec fn row_events(song: TrackerState, row: int) -> Seq<(u8, MidiNoteCmd, Seq<char>)> {
    note_events_up_to(song, row, song.num_channels() as int)
}

/// The command events of the first `k` command cells of one row of the
/// channel with index `c`: every filled cell in cell order.
pub open spec fn cmd_cell_events(rd: RowData, c: usize, k: int) -> Seq<
    (usize, (Cmd, Option<CmdArg>)),
>
    decreases k,
{
    if k <= 0 {
        Seq::empty()
    } else {
        cmd_cell_events(rd, c, k - 1) + (match rd.cmds@[k - 1] {
            Some(cc) => seq![(c, cc)],
            None => Seq::empty(),
        })
    }
}

/// The command events of row `row` of the first `c` channels.
pub open spec fn cmd_events_up_to(song: TrackerState, row: int, c: int) -> Seq<
    (usize, (Cmd, Option<CmdArg>)),
>
    decreases c,
{
    if c <= 0 {
        Seq::empty()
    } else {
        cmd_events_up_to(song, row, c - 1) + cmd_cell_events(
            song.sequences@[c - 1].data@[row],
            (c - 1) as usize,
            2,
        )
    }
}

/// All command events a fired beat forwards for row `row`.
pub open spec fn row_cmd_events(song: TrackerState, row: int) -> Seq<
    (usize, (Cmd, Option<CmdArg>)),
> {
    cmd_events_up_to(song, row, song.num_channels() as int)
}

proof fn lemma_cell_events_no_hold(rd: RowData, chno: u8, dev: Seq<char>, n: int)
    ensures
        forall|i: int|
            0 <= i < cell_events(rd, chno, dev, n).len() ==> !((#[trigger] cell_events(
                rd,
                chno,
                dev,
                n,
            )[i]).1 is HoldNote),
    decreases n,
{
    if n > 0 {
        lemma_cell_events_no_hold(rd, chno, dev, n - 1);
    }
}

proof fn lemma_note_events_no_hold(song: TrackerState, row: int, c: int)
    ensures
        forall|i: int|
            0 <= i < note_events_up_to(song, row, c).len() ==> !((#[trigger] note_events_up_to(
                song,
                row,
                c,
            )[i]).1 is HoldNote),
    decreases c,
{
    if c > 0 {
        lemma_note_events_no_hold(song, row, c - 1);
        lemma_cell_events_no_hold(
            song.sequences@[c - 1].data@[row],
            song.sequences@[c - 1].channel,
            song.sequences@[c - 1].dev@,
            4,
        );
    }
}

/// Hold suppression: whatever the song holds, the events a beat forwards
/// never include a sustain continuation.
pub proof fn lemma_hold_suppression(song: TrackerState, row: int)
    ensures
        forall|i: int|
            0 <= i < row_events(song, row).len() ==> !((#[trigger] row_events(song, row)[i]).1
                is HoldNote),
{
    lemma_note_events_no_hold(song, row, song.num_channels() as int);
}

/// The scheduler command a front-end transport command stands for. `Pause`
/// and `Restart` have no wired scheduler action yet and map to nothing.
pub fn player_cmd_of(cmd: PlaybackCmd) -> (r: Option<PlayerCmd>)
    ensures
        r == (match cmd {
            PlaybackCmd::Play => Some(PlayerCmd::ResumePlayback),
            PlaybackCmd::Stop => Some(PlayerCmd::StopPlayback),
            PlaybackCmd::SetCursor(loc) => Some(PlayerCmd::SetCursor(loc)),
            PlaybackCmd::Pause => Option::<PlayerCmd>::None,
            PlaybackCmd::Restart => Option::<PlayerCmd>::None,
        }),
{
    match cmd {
        PlaybackCmd::Play => Some(PlayerCmd::ResumePlayback),
        PlaybackCmd::Stop => Some(PlayerCmd::StopPlayback),
        PlaybackCmd::SetCursor(loc) => Some(PlayerCmd::SetCursor(loc)),
        PlaybackCmd::Pause => None,
        PlaybackCmd::Restart => None,
    }
}

/// Cursor wraparound: advancing the cursor on the last row yields row 0.
pub proof fn lemma_cursor_wraparound(r: usize, len: usize)
    requires
        len > 0,
        r == len - 1,
    ensures
        (r + 1) % (len as int) == 0,
{
    vstd::arithmetic::div_mod::lemma_mod_self_0(len as int);
}

impl Player {
    /// The scheduler's invariant: a usable tempo and beat division, and a
    /// beat interval consistent with them.
    pub open spec fn wf(self) -> bool {
        &&& self.tempo >= 1
        &&& self.beat >= 1
        &&& self.beat_time == spec_beat_time(self.tempo, self.beat)
    }

    /// A scheduler that is not playing, at the default tempo and beat
    /// division, with the record head at the origin. `now` is the current
    /// reading of the caller's monotonic clock.
    pub fn new(now: u64) -> (p: Player)
        ensures
            p.wf(),
            p.state == PlaybackState::NotPlaying,
            p.last_event == now,
            p.tempo == 110,
            p.beat == 8,
            p.rec_head == (0usize, 0usize),
    {
        Player {
            state: PlaybackState::NotPlaying,
            last_event: now,
            beat_time: NANO_MIN / 110 / 8,
            tempo: 110,
            beat: 8,
            rec_head: (0, 0),
        }
    }

    /// Recomputes the beat interval from the tempo and beat division.
    fn recalc_beat_time(&mut self)
        requires
            old(self).tempo >= 1,
            old(self).beat >= 1,
        ensures
            *final(self) == retimed(*old(self), old(self).tempo, old(self).beat),
    {
        self.beat_time = NANO_MIN / self.tempo / self.beat;
    }

    /// Sets the tempo and recomputes the beat interval, unless the value
    /// already holds: then nothing at all changes.
    pub fn set_tempo(&mut self, tempo: u64)
        requires
            old(self).wf(),
            tempo >= 1,
        ensures
            final(self).wf(),
            *final(self) == retimed(*old(self), tempo, old(self).beat),
            tempo == old(self).tempo ==> *final(self) == *old(self),
    {
        if tempo != self.tempo {
            self.tempo = tempo;
            self.recalc_beat_time();
        }
    }

    /// Sets the beat division and recomputes the beat interval, unless the
    /// value already holds: then nothing at all changes.
    pub fn set_beat(&mut self, beat: u64)
        requires
            old(self).wf(),
            beat >= 1,
        ensures
            final(self).wf(),
            *final(self) == retimed(*old(self), old(self).tempo, beat),
            beat == old(self).beat ==> *final(self) == *old(self),
    {
        if beat != self.beat {
            self.beat = beat;
            self.recalc_beat_time();
        }
    }

    /// Dispatches one inbox command against the current state of the song.
    /// A rejected command reports its error and changes nothing.
    pub fn handle_cmd(&mut self, song: &TrackerState, now: u64, cmd: PlayerCmd) -> (res: Result<
        (),
        TrackerError,
    >)
        requires
            old(self).wf(),
            cmd_wf(cmd),
        ensures
            final(self).wf(),
            (*final(self), res) == cmd_step(*old(self), song.num_channels(), now, cmd),
    {
        match cmd {
            PlayerCmd::PausePlayback => match self.state {
                PlaybackState::Playing(r) => {
                    self.state = PlaybackState::Paused(r);
                    Ok(())
                },
                _ => Err(TrackerError::InvalidTransportTransition),
            },
            PlayerCmd::ResumePlayback => match self.state {
                PlaybackState::Playing(_) => Err(TrackerError::InvalidTransportTransition),
                PlaybackState::Paused(r) => {
                    self.state = PlaybackState::Playing(r);
                    Ok(())
                },
                PlaybackState::NotPlaying => {
                    self.state = PlaybackState::Playing(0);
                    Ok(())
                },
            },
            PlayerCmd::StopPlayback => match self.state {
                PlaybackState::NotPlaying => Err(TrackerError::InvalidTransportTransition),
                _ => {
                    self.state = PlaybackState::NotPlaying;
                    self.last_event = if now >= NANO_MIN {
                        now - NANO_MIN
                    } else {
                        0
                    };
                    Ok(())
                },
            },
            PlayerCmd::SetCursor(loc) => match self.state {
                PlaybackState::Playing(_) => {
                    self.state = PlaybackState::Playing(loc);
                    Ok(())
                },
                PlaybackState::Paused(_) => {
                    self.state = PlaybackState::Paused(loc);
                    Ok(())
                },
                PlaybackState::NotPlaying => Err(TrackerError::InvalidTransportTransition),
            },
            PlayerCmd::SetTempo(t) => {
                self.set_tempo(t);
                Ok(())
            },
            PlayerCmd::SetBeat(b) => {
                self.set_beat(b);
                Ok(())
            },
            PlayerCmd::SetRecHead(ch, cell) => {
                if ch < song.sequences.len() && cell < 4 {
                    self.rec_head = (ch, cell);
                    Ok(())
                } else if ch >= song.sequences.len() {
                    Err(TrackerError::InvalidChannel)
                } else {
                    Err(TrackerError::InvalidRecordHead)
                }
            },
        }
    }

    /// One non-blocking step of the scheduler: dispatch the drained inbox
    /// command, if any; then, if playing and a beat interval has elapsed
    /// since the last event, reset the timestamp, advance the cursor
    /// modulo the song length, and collect the events of the row that was
    /// current before the advance. Never emits a sustain continuation.
    pub fn tick(&mut self, song: &TrackerState, now: u64, cmd: Option<PlayerCmd>) -> (out:
        TickOutput)
        requires
            old(self).wf(),
            song.wf(),
            song.num_channels() > 0,
            song.row_count() > 0,
            cmd matches Some(c) ==> cmd_wf(c),
        ensures
            final(self).wf(),
            ({
                let p1 = match cmd {
                    Some(c) => cmd_step(*old(self), song.num_channels(), now, c).0,
                    None => *old(self),
                };
                &&& out.cmd_result == (match cmd {
                    Some(c) => Some(cmd_step(*old(self), song.num_channels(), now, c).1),
                    None => Option::<Result<(), TrackerError>>::None,
                })
                &&& (match p1.state {
                    PlaybackState::Playing(r) => elapsed(p1.last_event, now) >= p1.beat_time
                        ==> beat_outcome(
                        *song,
                        p1,
                        now,
                        r,
                        *final(self),
                        out.line,
                        out.notes@,
                        out.cmds@,
                    ),
                    _ => true,
                })
                &&& (!beat_fires(p1, now) ==> {
                    &&& *final(self) == p1
                    &&& out.line is None
                    &&& out.notes@.len() == 0
                    &&& out.cmds@.len() == 0
                })
            }),
            forall|i: int| 0 <= i < out.notes@.len() ==> !((#[trigger] out.notes@[i]).1 is HoldNote),
    {
        let cmd_result = match cmd {
            Some(c) => Some(self.handle_cmd(song, now, c)),
            None => None,
        };
        let ghost p1 = *self;

        let mut line: Option<usize> = None;
        let mut notes: Vec<(u8, MidiNoteCmd, String)> = Vec::new();
        let mut cmds: Vec<(usize, (Cmd, Option<CmdArg>))> = Vec::new();

        let playing_row = match self.state {
            PlaybackState::Playing(r) => Some(r),
            _ => None,
        };
        if let Some(line_i) = playing_row {
            let el = if now >= self.last_event {
                now - self.last_event
            } else {
                0
            };
            if el >= self.beat_time {
                self.last_event = now;
                line = Some(line_i);

                let n_rows = song.sequences[0].data.len();
                let reduced = line_i % n_rows;
                let next = if reduced == n_rows - 1 {
                    0
                } else {
                    reduced + 1
                };
                proof {
                    vstd::arithmetic::div_mod::lemma_add_mod_noop(
                        line_i as int,
                        1,
                        n_rows as int,
                    );
                    vstd::arithmetic::div_mod::lemma_mod_self_0(n_rows as int);
                    if n_rows > 1 {
                        vstd::arithmetic::div_mod::lemma_small_mod(1nat, n_rows as nat);
                        if reduced < n_rows - 1 {
                            vstd::arithmetic::div_mod::lemma_small_mod(
                                (reduced + 1) as nat,
                                n_rows as nat,
                            );
                        }
                    } else {
                        vstd::arithmetic::div_mod::lemma_small_mod(0nat, 1nat);
                    }
                }
                self.state = PlaybackState::Playing(next);
                let ghost idx = line_i as int % song.row_count() as int;

                let n_seqs = song.sequences.len();
                for c in 0..n_seqs
                    invariant
                        n_seqs == song.sequences@.len(),
                        song.wf(),
                        song.row_count() > 0,
                        idx == line_i as int % song.row_count() as int,
                        0 <= idx < song.row_count(),
                        notes@.len() == note_events_up_to(*song, idx, c as int).len(),
                        forall|i: int|
                            0 <= i < notes@.len() ==> {
                                &&& (#[trigger] notes@[i]).0 == note_events_up_to(
                                    *song,
                                    idx,
                                    c as int,
                                )[i].0
                                &&& notes@[i].1 == note_events_up_to(*song, idx, c as int)[i].1
                                &&& notes@[i].2@ == note_events_up_to(*song, idx, c as int)[i].2
                            },
                        cmds@ == cmd_events_up_to(*song, idx, c as int),
                {
                    let chan_len = song.sequences[c].data.len();
                    let r_idx = line_i % chan_len;
                    proof {
                        assert(chan_len == song.row_count());
                    }
                    let rd = song.sequences[c].data[r_idx];
                    let chno = song.sequences[c].channel;

                    for n in 0..4usize
                        invariant
                            n_seqs == song.sequences@.len(),
                            c < n_seqs,
                            song.wf(),
                            0 <= idx < song.row_count(),
                            rd == song.sequences@[c as int].data@[idx],
                            chno == song.sequences@[c as int].channel,
                            notes@.len() == note_events_up_to(*song, idx, c as int).len()
                                + cell_events(
                                rd,
                                chno,
                                song.sequences@[c as int].dev@,
                                n as int,
                            ).len(),
                            forall|i: int|
                                0 <= i < notes@.len() ==> {
                                    let full = note_events_up_to(*song, idx, c as int)
                                        + cell_events(
                                        rd,
                                        chno,
                                        song.sequences@[c as int].dev@,
                                        n as int,
                                    );
                                    &&& (#[trigger] notes@[i]).0 == full[i].0
                                    &&& notes@[i].1 == full[i].1
                                    &&& notes@[i].2@ == full[i].2
                                },
                    {
                        match rd.notes[n] {
                            Some(ev) => match ev {
                                MidiNoteCmd::HoldNote => (),
                                _ => {
                                    let dev = song.sequences[c].dev.clone();
                                    notes.push((chno, ev, dev));
                                },
                            },
                            None => (),
                        }
                    }

                    for k in 0..2usize
                        invariant
                            n_seqs == song.sequences@.len(),
                            c < n_seqs,
                            song.wf(),
                            0 <= idx < song.row_count(),
                            rd == song.sequences@[c as int].data@[idx],
                            cmds@ == cmd_events_up_to(*song, idx, c as int) + cmd_cell_events(
                                rd,
                                c,
                                k as int,
                            ),
                    {
                        match rd.cmds[k] {
                            Some(cc) => {
                                cmds.push((c, cc));
                                proof {
                                    assert(cmds@ =~= cmd_events_up_to(*song, idx, c as int)
                                        + cmd_cell_events(rd, c, k as int + 1));
                                }
                            },
                            None => (),
                        }
                    }
                    proof {
                        assert(notes@.len() == note_events_up_to(
                            *song,
                            idx,
                            c as int + 1,
                        ).len());
                        assert(cmds@ =~= cmd_events_up_to(*song, idx, c as int + 1));
                    }
                }
                proof {
                    lemma_hold_suppression(*song, idx);
                }
            }
        }

        TickOutput { cmd_result, line, notes, cmds }
    }
}

} // verus!
