//! The grid model: a song is a fixed set of channels, each an ordered,
//! growable sequence of rows, kept at equal length across channels.
use vstd::prelude::*;

use crate::{Cmd, CmdArg, ChannelIndex, MidiNote, TrackerError, LINE_LEN};

verus! {

/// One note cell: the start of a note, the end of a note, or the
/// continuation of a sustain begun on an earlier row of the same cell.
#[derive(Clone, Copy, Debug, PartialEq, Eq)]
pub enum MidiNoteCmd {
    /// Start sounding a note: (note number, velocity).
    PlayNote((MidiNote, u8)),
    /// Stop sounding a note.
    StopNote(MidiNote),
    /// A sustain continues through this row; never itself emitted.
    HoldNote,
}

/// One time slice of one channel: four optional note cells and two
/// optional command cells.
#[derive(Clone, Copy, Debug, PartialEq, Eq)]
pub struct RowData {
    pub notes: [Option<MidiNoteCmd>; 4],
    pub cmds: [Option<(Cmd, Option<CmdArg>)>; 2],
}

/// A channel: its rows plus output metadata (device name, MIDI sub-channel).
#[derive(Clone, Debug)]
pub struct Row {
    pub data: Vec<RowData>,
    pub dev: String,
    pub channel: u8,
}

/// The song: an ordered set of channels (fixed count after creation) and
/// the first row currently shown by a display.
#[derive(Clone, Debug)]
pub struct TrackerState {
    pub sequences: Vec<Row>,
    pub display_start: usize,
}

/// True when every cell of the row is empty.
pub open spec fn row_data_empty(rd: RowData) -> bool {
    &&& forall|n: int| 0 <= n < 4 ==> rd.notes@[n] is None
    &&& forall|k: int| 0 <= k < 2 ==> rd.cmds@[k] is None
}

impl RowData {
    /// An all-empty row.
    pub fn empty_row() -> (rd: RowData)
        ensures
            row_data_empty(rd),
    {
        RowData { notes: [None, None, None, None], cmds: [None, None] }
    }
}

impl Default for RowData {
    fn default() -> (rd: RowData)
        ensures
            row_data_empty(rd),
    {
        RowData::empty_row()
    }
}

/// The row count after a mutation touched row `touched` of a song of
/// `old_len` rows: padding grows the song just enough to address it.
pub open spec fn grown_len(old_len: int, touched: int) -> int {
    if old_len <= touched {
        touched + 1
    } else {
        old_len
    }
}

/// True when the cell holds the continuation of a sustain.
pub open spec fn is_hold_cell(c: Option<MidiNoteCmd>) -> bool {
    c == Some(MidiNoteCmd::HoldNote)
}

/// The first index at or after `i` whose cell does not hold a sustain
/// continuation (`cells.len()` when the sustain runs to the end).
pub open spec fn run_end(cells: Seq<Option<MidiNoteCmd>>, i: int) -> int
    decreases cells.len() - i,
{
    if i >= cells.len() {
        i
    } else if is_hold_cell(cells[i]) {
        run_end(cells, i + 1)
    } else {
        i
    }
}

/// The last index at or before `i` whose cell does not hold a sustain
/// continuation (`0` when the sustain runs to the front).
pub open spec fn back_end(cells: Seq<Option<MidiNoteCmd>>, i: int) -> int
    decreases i,
{
    if i <= 0 {
        0
    } else if is_hold_cell(cells[i]) {
        back_end(cells, i - 1)
    } else {
        i
    }
}

/// The last index the forward scan of a removal at `row` clears: one past
/// the sustain continuations that follow `row`, bounded by the last row.
pub open spec fn fwd_clear_hi(cells: Seq<Option<MidiNoteCmd>>, row: int) -> int {
    if run_end(cells, row + 1) < cells.len() {
        run_end(cells, row + 1)
    } else {
        cells.len() - 1
    }
}

/// The first index the backward scan of a removal at `row` clears: one
/// before the sustain continuations preceding `row`, bounded by row 0.
/// The backward scan runs only when `row > 0`.
pub open spec fn back_clear_lo(cells: Seq<Option<MidiNoteCmd>>, row: int) -> int {
    if row == 1 {
        0
    } else {
        back_end(cells, row - 2)
    }
}

/// Whether a removal at `row` clears index `j` of the cell column.
pub open spec fn removal_clears(cells: Seq<Option<MidiNoteCmd>>, row: int, j: int) -> bool {
    ||| row <= j <= fwd_clear_hi(cells, row)
    ||| row >= 1 && back_clear_lo(cells, row) <= j <= row - 1
}

/// The cell column after a removal at `row`: the indexes the two scans
/// visit are cleared, all others keep their value.
pub open spec fn clear_run(cells: Seq<Option<MidiNoteCmd>>, row: int) -> Seq<
    Option<MidiNoteCmd>,
> {
    Seq::new(
        cells.len(),
        |j: int|
            if removal_clears(cells, row, j) {
                None
            } else {
                cells[j]
            },
    )
}

/// `run_end` is determined by any witness of the same shape.
proof fn lemma_run_end_unique(cells: Seq<Option<MidiNoteCmd>>, i: int, m: int)
    requires
        0 <= i <= m <= cells.len(),
        forall|k: int| i <= k < m ==> is_hold_cell(#[trigger] cells[k]),
        m < cells.len() ==> !is_hold_cell(cells[m]),
    ensures
        run_end(cells, i) == m,
    decreases m - i,
{
    if i < m {
        lemma_run_end_unique(cells, i + 1, m);
    }
}

/// `back_end` is determined by any witness of the same shape.
proof fn lemma_back_end_unique(cells: Seq<Option<MidiNoteCmd>>, i: int, m: int)
    requires
        0 <= m <= i < cells.len(),
        forall|k: int| m < k <= i ==> is_hold_cell(#[trigger] cells[k]),
        m > 0 ==> !is_hold_cell(cells[m]),
    ensures
        back_end(cells, i) == m,
    decreases i - m,
{
    if m < i {
        lemma_back_end_unique(cells, i - 1, m);
    }
}

/// Appends empty rows to one channel until it holds `new_len` rows.
fn pad_channel(row: &mut Row, new_len: usize)
    requires
        old(row).data@.len() <= new_len,
    ensures
        final(row).dev@ == old(row).dev@,
        final(row).channel == old(row).channel,
        final(row).data@.len() == new_len,
        forall|r: int|
            0 <= r < old(row).data@.len() ==> (#[trigger] final(row).data@[r])
                == old(row).data@[r],
        forall|r: int|
            old(row).data@.len() <= r < new_len ==> row_data_empty(
                #[trigger] final(row).data@[r],
            ),
{
    while row.data.len() < new_len
        invariant
            old(row).data@.len() <= row.data@.len() <= new_len,
            row.dev@ == old(row).dev@,
            row.channel == old(row).channel,
            forall|r: int|
                0 <= r < old(row).data@.len() ==> (#[trigger] row.data@[r])
                    == old(row).data@[r],
            forall|r: int|
                old(row).data@.len() <= r < row.data@.len() ==> row_data_empty(
                    #[trigger] row.data@[r],
                ),
        decreases new_len - row.data@.len(),
    {
        let rd = RowData::empty_row();
        row.data.push(rd);
    }
}

impl TrackerState {
    /// How many channels the song holds.
    pub open spec fn num_channels(self) -> nat {
        self.sequences@.len()
    }

    /// The shared row count; channel 0 is the reference.
    pub open spec fn row_count(self) -> nat {
        if self.num_channels() == 0 {
            0
        } else {
            self.sequences@[0].data@.len()
        }
    }

    /// The grid invariant: every channel holds the same number of rows.
    pub open spec fn wf(self) -> bool {
        forall|c: int|
            0 <= c < self.sequences@.len() ==> (#[trigger] self.sequences@[c]).data@.len()
                == self.row_count()
    }

    /// The note cell `n` of row `r` of channel `c`.
    #[verifier::inline]
    pub open spec fn note_at(self, c: int, r: int, n: int) -> Option<MidiNoteCmd> {
        self.sequences@[c].data@[r].notes@[n]
    }

    /// The command cell `k` of row `r` of channel `c`.
    #[verifier::inline]
    pub open spec fn cmd_at(self, c: int, r: int, k: int) -> Option<(Cmd, Option<CmdArg>)> {
        self.sequences@[c].data@[r].cmds@[k]
    }

    /// The channel metadata (device name view, sub-channel) is unchanged.
    pub open spec fn same_metadata(self, other: TrackerState) -> bool {
        &&& self.num_channels() == other.num_channels()
        &&& self.display_start == other.display_start
        &&& forall|c: int|
            0 <= c < self.sequences@.len() ==> {
                &&& (#[trigger] other.sequences@[c]).dev@ == self.sequences@[c].dev@
                &&& other.sequences@[c].channel == self.sequences@[c].channel
            }
    }

    /// `other` is `self` with every channel padded by empty rows to
    /// `new_len` rows (no change when `new_len == self.row_count()`).
    pub open spec fn padded_to(self, other: TrackerState, new_len: nat) -> bool {
        &&& self.same_metadata(other)
        &&& other.row_count() == new_len
        &&& other.wf()
        &&& forall|c: int, r: int|
            0 <= c < self.sequences@.len() && 0 <= r < self.row_count()
                ==> (#[trigger] other.sequences@[c].data@[r]) == self.sequences@[c].data@[r]
        &&& forall|c: int, r: int|
            0 <= c < self.sequences@.len() && self.row_count() <= r < new_len
                ==> row_data_empty(#[trigger] other.sequences@[c].data@[r])
    }

    /// The note-cell column `n` of channel `c`, as a sequence over rows.
    pub open spec fn note_col(self, c: int, n: int) -> Seq<Option<MidiNoteCmd>> {
        Seq::new(self.row_count(), |r: int| self.note_at(c, r, n))
    }

    /// The note-cell column `n` of channel `c`, padded with empty cells to
    /// `new_len` entries.
    pub open spec fn padded_col(self, c: int, n: int, new_len: nat) -> Seq<Option<MidiNoteCmd>> {
        Seq::new(
            new_len,
            |r: int|
                if r < self.row_count() {
                    self.note_at(c, r, n)
                } else {
                    None
                },
        )
    }

    /// `other` equals `self` except possibly in note-cell column `n` of
    /// channel `c`.
    pub open spec fn same_but_col(self, other: TrackerState, c: int, n: int) -> bool {
        &&& self.same_metadata(other)
        &&& other.row_count() == self.row_count()
        &&& other.wf()
        &&& forall|c2: int, r: int, n2: int|
            0 <= c2 < self.num_channels() && 0 <= r < self.row_count() && 0 <= n2 < 4 && !(c2 == c
                && n2 == n) ==> other.note_at(c2, r, n2) == self.note_at(c2, r, n2)
        &&& forall|c2: int, r: int, k: int|
            0 <= c2 < self.num_channels() && 0 <= r < self.row_count() && 0 <= k < 2
                ==> other.cmd_at(c2, r, k) == self.cmd_at(c2, r, k)
    }

    /// Confirms that `channel` names an existing channel, as a usable index.
    fn channel_len_check(&self, channel: ChannelIndex) -> (r: Result<usize, TrackerError>)
        ensures
            r is Ok <==> channel < self.num_channels(),
            r matches Ok(c) ==> c == channel,
            r is Err ==> r == Err::<usize, TrackerError>(TrackerError::InvalidChannel),
    {
        let c = channel as usize;
        if c >= self.sequences.len() {
            Err(TrackerError::InvalidChannel)
        } else {
            Ok(c)
        }
    }

    /// Appends empty rows to every channel until each holds `new_len` rows.
    fn pad_to(&mut self, new_len: usize)
        requires
            old(self).wf(),
            old(self).num_channels() > 0,
            old(self).row_count() <= new_len,
        ensures
            old(self).padded_to(*final(self), new_len as nat),
    {
        let n_seqs = self.sequences.len();
        for c in 0..n_seqs
            invariant
                n_seqs == self.sequences@.len(),
                old(self).num_channels() == n_seqs,
                old(self).wf(),
                old(self).row_count() <= new_len,
                old(self).same_metadata(*self),
                forall|i: int|
                    0 <= i < c ==> (#[trigger] self.sequences@[i]).data@.len() == new_len,
                forall|i: int|
                    c <= i < n_seqs ==> (#[trigger] self.sequences@[i]).data@
                        == old(self).sequences@[i].data@,
                forall|i: int, r: int|
                    0 <= i < c && 0 <= r < old(self).row_count()
                        ==> (#[trigger] self.sequences@[i].data@[r])
                            == old(self).sequences@[i].data@[r],
                forall|i: int, r: int|
                    0 <= i < c && old(self).row_count() <= r < new_len
                        ==> row_data_empty(#[trigger] self.sequences@[i].data@[r]),
        {
            pad_channel(&mut self.sequences[c], new_len);
        }
    }

    /// Writes `note` into note cell `note_num` of row `row` of `channel`,
    /// first padding every channel so the row is addressable.
    pub fn add_note(
        &mut self,
        note: Option<MidiNoteCmd>,
        channel: ChannelIndex,
        row: usize,
        note_num: usize,
    ) -> (r: Result<(), TrackerError>)
        requires
            old(self).wf(),
            row < usize::MAX,
        ensures
            final(self).wf(),
            note_num >= 4 ==> r == Err::<(), TrackerError>(TrackerError::InvalidCellIndex)
                && *final(self) == *old(self),
            note_num < 4 && channel >= old(self).num_channels() ==> r == Err::<(), TrackerError>(
                TrackerError::InvalidChannel,
            ) && *final(self) == *old(self),
            note_num < 4 && channel < old(self).num_channels() ==> {
                let new_len = if old(self).row_count() <= row {
                    (row + 1) as nat
                } else {
                    old(self).row_count()
                };
                &&& r is Ok
                &&& old(self).same_metadata(*final(self))
                &&& final(self).row_count() == new_len
                &&& final(self).note_at(channel as int, row as int, note_num as int) == note
                &&& forall|c: int, r2: int, n: int|
                    0 <= c < old(self).num_channels() && 0 <= r2 < new_len && 0 <= n < 4 && !(c
                        == channel && r2 == row && n == note_num)
                        ==> final(self).note_at(c, r2, n) == (if r2 < old(self).row_count() {
                        old(self).note_at(c, r2, n)
                    } else {
                        Option::<MidiNoteCmd>::None
                    })
                &&& forall|c: int, r2: int, k: int|
                    0 <= c < old(self).num_channels() && 0 <= r2 < new_len && 0 <= k < 2
                        ==> final(self).cmd_at(c, r2, k) == (if r2 < old(self).row_count() {
                        old(self).cmd_at(c, r2, k)
                    } else {
                        Option::<(Cmd, Option<CmdArg>)>::None
                    })
            },
    {
        if note_num >= 4 {
            return Err(TrackerError::InvalidCellIndex);
        }
        let channel = match self.channel_len_check(channel) {
            Ok(c) => c,
            Err(e) => {
                return Err(e);
            },
        };

        if self.sequences[channel].data.len() <= row {
            self.pad_to(row + 1);
        }

        self.sequences[channel].data[row].notes[note_num] = note;

        Ok(())
    }

    /// Clears the whole note run containing `row` in note cell `note_num`
    /// of `channel`: forward over the sustain continuations up to and
    /// including the note end, and, when `row > 0`, backward down to and
    /// including the note start.
    pub fn rm_note(&mut self, channel: ChannelIndex, row: usize, note_num: usize) -> (res: Result<
        (),
        TrackerError,
    >)
        requires
            old(self).wf(),
            row < usize::MAX,
        ensures
            final(self).wf(),
            note_num >= 4 ==> res == Err::<(), TrackerError>(TrackerError::InvalidCellIndex)
                && *final(self) == *old(self),
            note_num < 4 && channel >= old(self).num_channels() ==> res == Err::<(), TrackerError>(
                TrackerError::InvalidChannel,
            ) && *final(self) == *old(self),
            note_num < 4 && channel < old(self).num_channels() ==> {
                let new_len = if old(self).row_count() <= row {
                    (row + 1) as nat
                } else {
                    old(self).row_count()
                };
                let cells = old(self).padded_col(channel as int, note_num as int, new_len);
                &&& res is Ok
                &&& old(self).same_metadata(*final(self))
                &&& final(self).row_count() == new_len
                &&& final(self).note_col(channel as int, note_num as int) == clear_run(
                    cells,
                    row as int,
                )
                &&& forall|c: int, r2: int, n: int|
                    0 <= c < old(self).num_channels() && 0 <= r2 < new_len && 0 <= n < 4 && !(c
                        == channel && n == note_num) ==> final(self).note_at(c, r2, n) == (if r2
                        < old(self).row_count() {
                        old(self).note_at(c, r2, n)
                    } else {
                        Option::<MidiNoteCmd>::None
                    })
                &&& forall|c: int, r2: int, k: int|
                    0 <= c < old(self).num_channels() && 0 <= r2 < new_len && 0 <= k < 2
                        ==> final(self).cmd_at(c, r2, k) == (if r2 < old(self).row_count() {
                        old(self).cmd_at(c, r2, k)
                    } else {
                        Option::<(Cmd, Option<CmdArg>)>::None
                    })
            },
    {
        if note_num >= 4 {
            return Err(TrackerError::InvalidCellIndex);
        }
        let ch = match self.channel_len_check(channel) {
            Ok(c) => c,
            Err(e) => {
                return Err(e);
            },
        };

        if self.sequences[ch].data.len() <= row {
            self.pad_to(row + 1);
        }
        let ghost mid = *self;
        let ghost cells = mid.padded_col(ch as int, note_num as int, mid.row_count());
        proof {
            assert(cells =~= old(self).padded_col(
                ch as int,
                note_num as int,
                mid.row_count(),
            ));
        }
        let len = self.sequences[ch].data.len();

        // Forward scan: clear `row` itself, then every following sustain
        // continuation, then one cell past the run (the note end).
        let mut i = row;
        while i < len && (i == row || matches!(
            self.sequences[ch].data[i].notes[note_num],
            Some(MidiNoteCmd::HoldNote),
        ))
            invariant
                note_num < 4,
                ch < mid.num_channels(),
                row <= i <= len,
                len == mid.row_count(),
                row < len,
                cells == mid.padded_col(ch as int, note_num as int, mid.row_count()),
                mid.wf(),
                mid.same_but_col(*self, ch as int, note_num as int),
                forall|j: int|
                    row <= j < i ==> self.note_at(ch as int, j, note_num as int) is None,
                forall|j: int|
                    0 <= j < len && !(row <= j < i) ==> self.note_at(ch as int, j, note_num as int)
                        == cells[j],
                forall|j: int| row + 1 <= j < i ==> is_hold_cell(#[trigger] cells[j]),
            decreases len - i,
        {
            self.sequences[ch].data[i].notes[note_num] = None;
            proof {
                assert(self.note_at(ch as int, i as int, note_num as int) is None);
            }
            i = i + 1;
        }
        proof {
            lemma_run_end_unique(cells, row + 1, i as int);
        }
        if i < len {
            self.sequences[ch].data[i].notes[note_num] = None;
        }
        let ghost after_fwd = *self;
        proof {
            assert(forall|j: int|
                0 <= j < len ==> after_fwd.note_at(ch as int, j, note_num as int) == (if row <= j
                    <= fwd_clear_hi(cells, row as int) {
                    Option::<MidiNoteCmd>::None
                } else {
                    cells[j]
                }));
        }

        // Backward scan (skipped at row 0): clear `row - 1`, then every
        // preceding sustain continuation, then one cell before the run
        // (the note start).
        if row > 0 {
            let mut i2 = row - 1;
            self.sequences[ch].data[i2].notes[note_num] = None;
            while i2 > 0 && matches!(
                self.sequences[ch].data[i2 - 1].notes[note_num],
                Some(MidiNoteCmd::HoldNote),
            )
                invariant
                    note_num < 4,
                    ch < mid.num_channels(),
                    0 <= i2 <= row - 1,
                    row < len,
                    len == mid.row_count(),
                    cells == mid.padded_col(ch as int, note_num as int, mid.row_count()),
                    mid.wf(),
                    mid.same_but_col(*self, ch as int, note_num as int),
                    forall|j: int|
                        i2 <= j <= row - 1 ==> self.note_at(ch as int, j, note_num as int) is None,
                    forall|j: int|
                        0 <= j < len && !(i2 <= j <= row - 1) ==> self.note_at(
                            ch as int,
                            j,
                            note_num as int,
                        ) == after_fwd.note_at(ch as int, j, note_num as int),
                    forall|j: int|
                        0 <= j < len ==> after_fwd.note_at(ch as int, j, note_num as int) == (
                        if row <= j <= fwd_clear_hi(cells, row as int) {
                            Option::<MidiNoteCmd>::None
                        } else {
                            cells[j]
                        }),
                    forall|j: int| i2 <= j <= row - 2 ==> is_hold_cell(#[trigger] cells[j]),
                decreases i2,
            {
                i2 = i2 - 1;
                self.sequences[ch].data[i2].notes[note_num] = None;
                proof {
                    assert(self.note_at(ch as int, i2 as int, note_num as int) is None);
                }
            }
            if i2 > 0 {
                proof {
                    lemma_back_end_unique(cells, row - 2, i2 - 1);
                }
                self.sequences[ch].data[i2 - 1].notes[note_num] = None;
            } else {
                proof {
                    if row >= 2 {
                        lemma_back_end_unique(cells, row - 2, 0);
                    }
                }
            }
        }

        proof {
            assert(self.note_col(ch as int, note_num as int) =~= clear_run(cells, row as int));
        }
        Ok(())
    }

    /// Writes a whole note run: the note start at `start`, sustain
    /// continuations strictly between `start` and `stop`, and the note end
    /// at `stop`, all in note cell `note_num` of `channel`. Every channel
    /// is padded so the touched rows are addressable.
    pub fn add_note_run(
        &mut self,
        note: MidiNote,
        vel: u8,
        channel: ChannelIndex,
        start: usize,
        stop: usize,
        note_num: usize,
    ) -> (res: Result<(), TrackerError>)
        requires
            old(self).wf(),
            start < usize::MAX,
            stop < usize::MAX,
        ensures
            final(self).wf(),
            note_num >= 4 ==> res == Err::<(), TrackerError>(TrackerError::InvalidCellIndex)
                && *final(self) == *old(self),
            note_num < 4 && channel >= old(self).num_channels() ==> res == Err::<(), TrackerError>(
                TrackerError::InvalidChannel,
            ) && *final(self) == *old(self),
            note_num < 4 && channel < old(self).num_channels() ==> {
                let hi = if start >= stop {
                    start
                } else {
                    stop
                };
                let new_len = if old(self).row_count() <= hi {
                    (hi + 1) as nat
                } else {
                    old(self).row_count()
                };
                &&& res is Ok
                &&& old(self).same_metadata(*final(self))
                &&& final(self).row_count() == new_len
                &&& forall|j: int|
                    0 <= j < new_len ==> final(self).note_at(channel as int, j, note_num as int)
                        == (if j == stop {
                        Some(MidiNoteCmd::StopNote(note))
                    } else if j == start {
                        Some(MidiNoteCmd::PlayNote((note, vel)))
                    } else if start < j < stop {
                        Some(MidiNoteCmd::HoldNote)
                    } else if j < old(self).row_count() {
                        old(self).note_at(channel as int, j, note_num as int)
                    } else {
                        Option::<MidiNoteCmd>::None
                    })
                &&& forall|c: int, r2: int, n: int|
                    0 <= c < old(self).num_channels() && 0 <= r2 < new_len && 0 <= n < 4 && !(c
                        == channel && n == note_num) ==> final(self).note_at(c, r2, n) == (if r2
                        < old(self).row_count() {
                        old(self).note_at(c, r2, n)
                    } else {
                        Option::<MidiNoteCmd>::None
                    })
                &&& forall|c: int, r2: int, k: int|
                    0 <= c < old(self).num_channels() && 0 <= r2 < new_len && 0 <= k < 2
                        ==> final(self).cmd_at(c, r2, k) == (if r2 < old(self).row_count() {
                        old(self).cmd_at(c, r2, k)
                    } else {
                        Option::<(Cmd, Option<CmdArg>)>::None
                    })
            },
    {
        match self.add_note(
            Some(MidiNoteCmd::PlayNote((note, vel))),
            channel,
            start,
            note_num,
        ) {
            Ok(()) => (),
            Err(e) => {
                return Err(e);
            },
        }

        let mut i = start + 1;
        while i < stop
            invariant
                old(self).wf(),
                note_num < 4,
                channel < old(self).num_channels(),
                start < usize::MAX,
                stop < usize::MAX,
                start + 1 <= i,
                i <= stop || i == start + 1,
                self.wf(),
                old(self).same_metadata(*self),
                self.row_count() == grown_len(
                    grown_len(old(self).row_count() as int, start as int),
                    i - 1,
                ),
                forall|j: int|
                    0 <= j < self.row_count() ==> self.note_at(channel as int, j, note_num as int)
                        == (if j == start {
                        Some(MidiNoteCmd::PlayNote((note, vel)))
                    } else if start < j < i {
                        Some(MidiNoteCmd::HoldNote)
                    } else if j < old(self).row_count() {
                        old(self).note_at(channel as int, j, note_num as int)
                    } else {
                        Option::<MidiNoteCmd>::None
                    }),
                forall|c: int, r2: int, n: int|
                    0 <= c < old(self).num_channels() && 0 <= r2 < self.row_count() && 0 <= n < 4
                        && !(c == channel && n == note_num) ==> self.note_at(c, r2, n) == (if r2
                        < old(self).row_count() {
                        old(self).note_at(c, r2, n)
                    } else {
                        Option::<MidiNoteCmd>::None
                    }),
                forall|c: int, r2: int, k: int|
                    0 <= c < old(self).num_channels() && 0 <= r2 < self.row_count() && 0 <= k < 2
                        ==> self.cmd_at(c, r2, k) == (if r2 < old(self).row_count() {
                        old(self).cmd_at(c, r2, k)
                    } else {
                        Option::<(Cmd, Option<CmdArg>)>::None
                    }),
            decreases stop - i,
        {
            let r = self.add_note(Some(MidiNoteCmd::HoldNote), channel, i, note_num);
            proof {
                assert(r is Ok);
            }
            i = i + 1;
        }

        let r = self.add_note(Some(MidiNoteCmd::StopNote(note)), channel, stop, note_num);
        proof {
            assert(r is Ok);
        }
        Ok(())
    }

    /// A song with the standard four channels, `n_rows` empty rows each,
    /// the default output device, and sub-channels numbered in track order.
    fn with_rows(n_rows: usize) -> (s: TrackerState)
        ensures
            s.wf(),
            s.num_channels() == 4,
            s.row_count() == n_rows,
            s.display_start == 0,
            forall|c: int, r: int|
                0 <= c < 4 && 0 <= r < n_rows ==> row_data_empty(
                    #[trigger] s.sequences@[c].data@[r],
                ),
            forall|c: int| 0 <= c < 4 ==> (#[trigger] s.sequences@[c]).dev@ == default_dev_name(),
            forall|c: int| 0 <= c < 4 ==> (#[trigger] s.sequences@[c]).channel == c,
    {
        let mut sequences: Vec<Row> = Vec::new();
        for c in 0..4usize
            invariant
                sequences@.len() == c,
                forall|i: int, r: int|
                    0 <= i < c && 0 <= r < n_rows ==> row_data_empty(
                        #[trigger] sequences@[i].data@[r],
                    ),
                forall|i: int|
                    0 <= i < c ==> (#[trigger] sequences@[i]).data@.len() == n_rows,
                forall|i: int| 0 <= i < c ==> (#[trigger] sequences@[i]).dev@ == default_dev_name(),
                forall|i: int| 0 <= i < c ==> (#[trigger] sequences@[i]).channel == i,
        {
            let mut data: Vec<RowData> = Vec::new();
            while data.len() < n_rows
                invariant
                    data@.len() <= n_rows,
                    forall|r: int| 0 <= r < data@.len() ==> row_data_empty(#[trigger] data@[r]),
                decreases n_rows - data@.len(),
            {
                let rd = RowData::empty_row();
                data.push(rd);
            }
            let row = Row { data, dev: default_dev_string(), channel: c as u8 };
            sequences.push(row);
        }
        TrackerState { sequences, display_start: 0 }
    }

    /// A song of four channels holding a single empty row each.
    pub fn empty() -> (s: TrackerState)
        ensures
            s.wf(),
            s.num_channels() == 4,
            s.row_count() == 1,
            s.display_start == 0,
            forall|c: int, r: int|
                0 <= c < 4 && 0 <= r < 1 ==> row_data_empty(#[trigger] s.sequences@[c].data@[r]),
            forall|c: int| 0 <= c < 4 ==> (#[trigger] s.sequences@[c]).dev@ == default_dev_name(),
            forall|c: int| 0 <= c < 4 ==> (#[trigger] s.sequences@[c]).channel == c,
    {
        TrackerState::with_rows(1)
    }

    /// A bounded deep copy: the same channels with their row sequences
    /// truncated to `[row, row + n_rows)`.
    pub fn copy_from_row(&self, row: usize, n_rows: usize) -> (s: TrackerState)
        requires
            self.wf(),
            row + n_rows <= self.row_count(),
        ensures
            s.wf(),
            s.num_channels() == self.num_channels(),
            s.row_count() == n_rows,
            s.display_start == self.display_start,
            forall|c: int|
                0 <= c < self.num_channels() ==> (#[trigger] s.sequences@[c]).dev@
                    == self.sequences@[c].dev@,
            forall|c: int|
                0 <= c < self.num_channels() ==> (#[trigger] s.sequences@[c]).channel
                    == self.sequences@[c].channel,
            forall|c: int, j: int|
                0 <= c < self.num_channels() && 0 <= j < n_rows ==> (
                #[trigger] s.sequences@[c].data@[j]) == self.sequences@[c].data@[row + j],
    {
        let n_seqs = self.sequences.len();
        proof {
            if self.sequences@.len() > 0 {
                assert(self.sequences@[0].data.len() == self.sequences@[0].data@.len());
            }
        }
        let mut sequences: Vec<Row> = Vec::new();
        for c in 0..n_seqs
            invariant
                n_seqs == self.sequences@.len(),
                self.wf(),
                row + n_rows <= self.row_count(),
                self.row_count() <= usize::MAX,
                sequences@.len() == c,
                forall|i: int|
                    0 <= i < c ==> (#[trigger] sequences@[i]).data@.len() == n_rows,
                forall|i: int|
                    0 <= i < c ==> (#[trigger] sequences@[i]).dev@ == self.sequences@[i].dev@,
                forall|i: int|
                    0 <= i < c ==> (#[trigger] sequences@[i]).channel == self.sequences@[i].channel,
                forall|i: int, j: int|
                    0 <= i < c && 0 <= j < n_rows ==> (#[trigger] sequences@[i].data@[j])
                        == self.sequences@[i].data@[row + j],
        {
            let mut data: Vec<RowData> = Vec::new();
            for j in 0..n_rows
                invariant
                    n_seqs == self.sequences@.len(),
                    c < n_seqs,
                    self.wf(),
                    row + n_rows <= self.row_count(),
                    self.row_count() <= usize::MAX,
                    data@.len() == j,
                    forall|k: int|
                        0 <= k < j ==> (#[trigger] data@[k]) == self.sequences@[
                            c as int].data@[row + k],
            {
                let rd = self.sequences[c].data[row + j];
                data.push(rd);
            }
            let r = Row {
                data,
                dev: self.sequences[c].dev.clone(),
                channel: self.sequences[c].channel,
            };
            sequences.push(r);
        }
        TrackerState { sequences, display_start: self.display_start }
    }
}

impl Default for TrackerState {
    /// A song with the standard four channels, each pre-filled with the
    /// full complement of empty rows.
    fn default() -> (s: TrackerState)
        ensures
            s.wf(),
            s.num_channels() == 4,
            s.row_count() == LINE_LEN,
            s.display_start == 0,
            forall|c: int, r: int|
                0 <= c < 4 && 0 <= r < LINE_LEN ==> row_data_empty(
                    #[trigger] s.sequences@[c].data@[r],
                ),
            forall|c: int| 0 <= c < 4 ==> (#[trigger] s.sequences@[c]).dev@ == default_dev_name(),
            forall|c: int| 0 <= c < 4 ==> (#[trigger] s.sequences@[c]).channel == c,
    {
        TrackerState::with_rows(LINE_LEN)
    }
}

/// Removal completeness: removing any row of a note run clears every cell
/// of the run, and every cell outside the run keeps its value. `cells` is
/// one note-cell column holding exactly one run: the note start at `s`,
/// sustain continuations strictly inside `(s, e)`, the note end at `e`,
/// and empty cells everywhere else.
pub proof fn lemma_removal_completeness(
    cells: Seq<Option<MidiNoteCmd>>,
    note: MidiNote,
    vel: u8,
    s: int,
    e: int,
    r: int,
)
    requires
        0 <= s < e < cells.len(),
        cells[s] == Some(MidiNoteCmd::PlayNote((note, vel))),
        forall|j: int| s < j < e ==> #[trigger] cells[j] == Some(MidiNoteCmd::HoldNote),
        cells[e] == Some(MidiNoteCmd::StopNote(note)),
        forall|j: int| 0 <= j < cells.len() && !(s <= j <= e) ==> #[trigger] cells[j] is None,
        s <= r <= e,
    ensures
        forall|j: int| s <= j <= e ==> #[trigger] clear_run(cells, r)[j] is None,
        forall|j: int|
            0 <= j < cells.len() && !(s <= j <= e) ==> #[trigger] clear_run(cells, r)[j]
                == cells[j],
{
    // The forward scan reaches at least to the note end.
    if r < e {
        lemma_run_end_unique(cells, r + 1, e);
    } else {
        if e + 1 < cells.len() {
            lemma_run_end_unique(cells, e + 1, e + 1);
        }
    }
    // The backward scan reaches at least down to the note start.
    if r > s && r >= 2 {
        if r - 2 >= s {
            if s > 0 {
                lemma_back_end_unique(cells, r - 2, s);
            } else {
                lemma_back_end_unique(cells, r - 2, 0);
            }
        } else {
            // r == s + 1: the cell below the start is empty.
            if s - 1 > 0 {
                lemma_back_end_unique(cells, r - 2, s - 1);
            } else if r - 2 >= 0 {
                lemma_back_end_unique(cells, r - 2, 0);
            }
        }
    }
}

/// Removal at row 0 performs the forward scan alone: every cell above the
/// forward extent keeps its value, and no index below 0 is touched.
pub proof fn lemma_removal_at_row_zero(cells: Seq<Option<MidiNoteCmd>>)
    requires
        cells.len() > 0,
    ensures
        forall|j: int|
            0 <= j < cells.len() ==> #[trigger] clear_run(cells, 0)[j] == (if j <= fwd_clear_hi(
                cells,
                0,
            ) {
                Option::<MidiNoteCmd>::None
            } else {
                cells[j]
            }),
{
}

/// Selects which channels of a song take part in playback.
#[derive(Clone, Debug, PartialEq, Eq)]
pub enum Channel {
    AllChannels,
    SomeChannels(Vec<ChannelIndex>),
}

/// The name of the default virtual MIDI output device.
pub open spec fn default_dev_name() -> Seq<char> {
    "Midi-Tracker"@
}

/// The name of the default virtual MIDI output device, as an owned string.
pub fn default_dev_string() -> (s: String)
    ensures
        s@ == default_dev_name(),
{
    crate::DEFAULT_MIDI_DEV_NAME.to_owned()
}

} // verus!
