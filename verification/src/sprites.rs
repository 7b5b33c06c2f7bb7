//! Playback of sprite-sheet frame sequences over time.
//!
//! A sheet description supplies a raw array of [`Frame`]s (pixel regions plus
//! display durations) and named [`FrameTag`]s, each a contiguous frame range
//! with a playback direction.  From a tag, [`AnimationClipTemplate::new`]
//! derives an immutable, direction-ordered sequence of cells; a [`ClipStore`]
//! keeps one template per tag name and hands out independent
//! [`AnimationClip`] playback heads, which are advanced with
//! [`AnimationClip::update`] and queried with [`AnimationClip::get_cell`].

pub mod aseprite;

use vstd::arithmetic::div_mod::{lemma_mod_multiples_vanish, lemma_small_mod};
use vstd::prelude::*;

verus! {

/// Time unit used by playback heads; durations and elapsed time are counted
/// in the integer unit of the sheet description (typically milliseconds).
pub type Delta = u64;

/// Display duration of a single frame, in the same unit as [`Delta`].
pub type FrameDuration = u32;

/// A rectangular pixel region of the shared texture atlas.
#[derive(Debug, Clone, PartialEq, Eq, Structural)]
pub struct Region {
    pub x: i32,
    pub y: i32,
    pub width: i32,
    pub height: i32,
}

/// One entry of the raw exported frame array: where the frame sits in the
/// atlas and for how long it is displayed.
#[derive(Debug, Clone, PartialEq, Eq, Structural)]
pub struct Frame {
    pub duration: FrameDuration,
    pub bbox: Region,
}

/// Cell-ordering policy of a tag.  Direction strings outside the three
/// recognized ones resolve to `Unrecognized`, which orders cells as
/// `Forward` does rather than failing the load.
#[derive(Debug, Clone, Copy, PartialEq, Eq, Structural)]
pub enum Direction {
    Forward,
    Reverse,
    PingPong,
    Unrecognized,
}

/// A named, contiguous range of frames plus a playback direction, as
/// authored in the sheet description.  Valid tags satisfy
/// `from <= to < frames.len()`.
#[derive(Debug, Clone, PartialEq)]
pub struct FrameTag {
    pub name: String,
    pub from: usize,
    pub to: usize,
    pub direction: String,
}

/// One entry of a template's resolved sequence: `idx` is an absolute index
/// into the raw frame array, `duration` how long that cell is displayed at
/// this position of the sequence.
#[derive(Debug, Clone, Copy, PartialEq, Eq, Structural)]
pub struct CellInfo {
    pub idx: usize,
    pub duration: FrameDuration,
}

/// End-of-clip policy of a playback head.
#[derive(Debug, Clone, Copy, PartialEq, Eq, Structural)]
pub enum PlayMode {
    /// Plays start to finish; once the play head passes the total duration,
    /// no further cell is reported.
    OneShot,
    /// Like `OneShot`, but time past the end keeps reporting the final cell.
    Hold,
    /// Never ends; the play head wraps back to the start when exhausted.
    Loop,
}

/// A load-time validation failure.  Loading a sheet either fails as a whole
/// with one of these or produces a complete store.
#[derive(Debug, Clone, Copy, PartialEq, Eq, Structural)]
pub enum SheetError {
    /// A tag's `from..=to` range does not denote a non-empty range inside
    /// the raw frame array.
    OutOfRange,
    /// A template would be unusable for playback: its frame slice is empty,
    /// its cell durations sum to zero, or their sum does not fit the time
    /// unit.
    InvalidTemplate,
}

/// Total duration of a cell sequence.
pub open spec fn sum_of(cells: Seq<CellInfo>) -> int
    decreases cells.len(),
{
    if cells.len() == 0 {
        0
    } else {
        cells[0].duration + sum_of(cells.drop_first())
    }
}

/// The cells of a frame slice in slice order; `offset` is the absolute index
/// of the slice's first frame in the raw frame array.
pub open spec fn forward_cells(frames: Seq<Frame>, offset: int) -> Seq<CellInfo> {
    Seq::new(
        frames.len(),
        |i: int|
            CellInfo { idx: (offset + i) as usize, duration: frames[i].duration },
    )
}

/// The cells of a frame slice in reversed slice order; absolute indices are
/// still computed from each frame's original position in the slice.
pub open spec fn reverse_cells(frames: Seq<Frame>, offset: int) -> Seq<CellInfo> {
    Seq::new(
        frames.len(),
        |i: int|
            CellInfo {
                idx: (offset + frames.len() - 1 - i) as usize,
                duration: frames[frames.len() - 1 - i].duration,
            },
    )
}

/// The direction-ordered cell sequence of a frame slice.
///
/// `PingPong` is the forward pass followed by the whole reversed pass, so
/// both boundary cells appear twice at the seam.  Whether the seam ought to
/// be deduplicated is a known open question of the format; this sequence
/// keeps the literal concatenation.
pub open spec fn cells_of(frames: Seq<Frame>, direction: Direction, offset: int) -> Seq<CellInfo> {
    match direction {
        Direction::Forward => forward_cells(frames, offset),
        Direction::Reverse => reverse_cells(frames, offset),
        Direction::PingPong => forward_cells(frames, offset) + reverse_cells(frames, offset),
        Direction::Unrecognized => forward_cells(frames, offset),
    }
}

pub proof fn lemma_sum_nonneg(cells: Seq<CellInfo>)
    ensures
        sum_of(cells) >= 0,
    decreases cells.len(),
{
    if cells.len() > 0 {
        lemma_sum_nonneg(cells.drop_first());
    }
}

/// Extending a prefix by one cell adds that cell's duration to the prefix sum.
pub proof fn lemma_sum_take_succ(cells: Seq<CellInfo>, i: int)
    requires
        0 <= i < cells.len(),
    ensures
        sum_of(cells.take(i + 1)) == sum_of(cells.take(i)) + cells[i].duration,
    decreases i,
{
    if i == 0 {
        assert(cells.take(1) =~= seq![cells[0]]);
        assert(cells.take(1).drop_first() =~= Seq::<CellInfo>::empty());
        assert(cells.take(0) =~= Seq::<CellInfo>::empty());
    } else {
        let rest = cells.drop_first();
        lemma_sum_take_succ(rest, i - 1);
        assert(cells.take(i + 1).drop_first() =~= rest.take(i));
        assert(cells.take(i).drop_first() =~= rest.take(i - 1));
    }
}

/// A prefix never sums to more than the whole sequence.
pub proof fn lemma_sum_take_le(cells: Seq<CellInfo>, i: int)
    requires
        0 <= i <= cells.len(),
    ensures
        sum_of(cells.take(i)) <= sum_of(cells),
    decreases cells.len() - i,
{
    if i == cells.len() {
        assert(cells.take(i) =~= cells);
    } else {
        lemma_sum_take_succ(cells, i);
        lemma_sum_take_le(cells, i + 1);
    }
}

/// Appends the forward-ordered cells of `frames` to `cells`.
fn forward_pass(cells: &mut Vec<CellInfo>, frames: &[Frame], offset: usize)
    requires
        offset + frames@.len() <= usize::MAX,
    ensures
        final(cells)@ == old(cells)@ + forward_cells(frames@, offset as int),
{
    let ghost orig = cells@;
    let n: usize = frames.len();
    let mut i: usize = 0;
    while i < n
        invariant
            n == frames@.len(),
            offset + n <= usize::MAX,
            i <= n,
            cells@.len() == orig.len() + i,
            cells@.take(orig.len() as int) == orig,
            forall|j: int|
                0 <= j < i ==> cells@[orig.len() + j] == forward_cells(frames@, offset as int)[j],
        decreases n - i,
    {
        let cell = CellInfo { idx: offset + i, duration: frames[i].duration };
        cells.push(cell);
        proof {
            assert(cells@.take(orig.len() as int) =~= orig);
        }
        i += 1;
    }
    proof {
        assert(cells@ =~= orig + forward_cells(frames@, offset as int));
    }
}

/// Appends the reverse-ordered cells of `frames` to `cells`.
fn reverse_pass(cells: &mut Vec<CellInfo>, frames: &[Frame], offset: usize)
    requires
        offset + frames@.len() <= usize::MAX,
    ensures
        final(cells)@ == old(cells)@ + reverse_cells(frames@, offset as int),
{
    let ghost orig = cells@;
    let n: usize = frames.len();
    let mut i: usize = 0;
    while i < n
        invariant
            n == frames@.len(),
            offset + n <= usize::MAX,
            i <= n,
            cells@.len() == orig.len() + i,
            cells@.take(orig.len() as int) == orig,
            forall|j: int|
                0 <= j < i ==> cells@[orig.len() + j] == reverse_cells(frames@, offset as int)[j],
        decreases n - i,
    {
        let src: usize = n - 1 - i;
        let cell = CellInfo { idx: offset + src, duration: frames[src].duration };
        cells.push(cell);
        proof {
            assert(cells@.take(orig.len() as int) =~= orig);
        }
        i += 1;
    }
    proof {
        assert(cells@ =~= orig + reverse_cells(frames@, offset as int));
    }
}

/// Builds the direction-ordered cell sequence of a frame slice.
fn direction_cells(frames: &[Frame], direction: Direction, offset: usize) -> (cells: Vec<CellInfo>)
    requires
        offset + frames@.len() <= usize::MAX,
    ensures
        cells@ == cells_of(frames@, direction, offset as int),
{
    let mut cells: Vec<CellInfo> = Vec::new();
    match direction {
        Direction::Forward => forward_pass(&mut cells, frames, offset),
        Direction::Reverse => reverse_pass(&mut cells, frames, offset),
        Direction::PingPong => {
            forward_pass(&mut cells, frames, offset);
            reverse_pass(&mut cells, frames, offset);
        },
        Direction::Unrecognized => forward_pass(&mut cells, frames, offset),
    }
    proof {
        assert(cells@ =~= cells_of(frames@, direction, offset as int));
    }
    cells
}

/// The mathematical content of a clip template: what its name, cells, and
/// duration are, independent of how they are stored.
pub ghost struct TemplateModel {
    pub name: Seq<char>,
    pub cells: Seq<CellInfo>,
    pub direction: Direction,
    pub duration: int,
}

/// The immutable, direction-resolved definition of one animation: an ordered
/// cell sequence and its total duration.  Built once at load time and never
/// mutated; every playback head created from it copies what it needs.
#[derive(Debug, Clone)]
pub struct AnimationClipTemplate {
    pub cells: Vec<CellInfo>,
    pub direction: Direction,
    pub duration: Delta,
    pub name: String,
}

impl AnimationClipTemplate {
    /// A template is usable for playback: it has at least one cell and its
    /// recorded duration is the (positive) sum of its cell durations.
    pub open spec fn wf(self) -> bool {
        &&& self.cells@.len() > 0
        &&& self.duration as int == sum_of(self.cells@)
        &&& self.duration > 0
    }

    pub open spec fn model(self) -> TemplateModel {
        TemplateModel {
            name: self.name@,
            cells: self.cells@,
            direction: self.direction,
            duration: self.duration as int,
        }
    }

    /// A frame slice yields a usable template exactly when it is non-empty
    /// and its direction-ordered durations sum to a positive value that fits
    /// the time unit.
    pub open spec fn spec_buildable(frames: Seq<Frame>, direction: Direction, offset: int) -> bool {
        &&& frames.len() > 0
        &&& 0 < sum_of(cells_of(frames, direction, offset)) <= u64::MAX
    }

    /// Derives a template from the frame slice `frames[from..=to]` of a raw
    /// frame array, where `offset` is `from`, so that the template records
    /// absolute indices into that array.  Fails with `InvalidTemplate`
    /// instead of ever constructing a template whose playback could divide
    /// by zero.
    pub fn new(name: String, frames: &[Frame], direction: Direction, offset: usize) -> (result:
        Result<Self, SheetError>)
        requires
            offset + frames@.len() <= usize::MAX,
        ensures
            match result {
                Ok(t) => {
                    &&& Self::spec_buildable(frames@, direction, offset as int)
                    &&& t.wf()
                    &&& t.cells@ == cells_of(frames@, direction, offset as int)
                    &&& t.name == name
                    &&& t.direction == direction
                },
                Err(e) => {
                    &&& e == SheetError::InvalidTemplate
                    &&& !Self::spec_buildable(frames@, direction, offset as int)
                },
            },
    {
        let cells = direction_cells(frames, direction, offset);
        if cells.len() == 0 {
            return Err(SheetError::InvalidTemplate);
        }
        let n: usize = cells.len();
        let mut total: u64 = 0;
        let mut i: usize = 0;
        while i < n
            invariant
                n == cells@.len(),
                cells@ == cells_of(frames@, direction, offset as int),
                i <= n,
                total as int == sum_of(cells@.take(i as int)),
            decreases n - i,
        {
            proof {
                lemma_sum_take_succ(cells@, i as int);
            }
            total = match total.checked_add(cells[i].duration as u64) {
                Some(t) => t,
                None => {
                    proof {
                        lemma_sum_take_le(cells@, i + 1);
                    }
                    return Err(SheetError::InvalidTemplate);
                },
            };
            i += 1;
        }
        proof {
            assert(cells@.take(n as int) =~= cells@);
        }
        if total == 0 {
            return Err(SheetError::InvalidTemplate);
        }
        Ok(AnimationClipTemplate { cells, direction, duration: total, name })
    }
}

/// Position of the cell displayed at `time` within a cell sequence: the
/// first cell whose cumulative duration reaches `time`.  The boundary
/// between two cells belongs to the earlier one, so a cumulative duration of
/// exactly `time` still resolves to the cell that reached it.
pub open spec fn cell_at(cells: Seq<CellInfo>, time: int) -> int
    decreases cells.len(),
{
    if cells.len() == 0 {
        0
    } else if time <= cells[0].duration {
        0
    } else {
        1 + cell_at(cells.drop_first(), time - cells[0].duration)
    }
}

/// `cell_at` is pinned down by prefix sums: position `k` is resolved exactly
/// when the cumulative duration first reaches `time` at `k`.
pub proof fn lemma_cell_at_by_prefix_sums(cells: Seq<CellInfo>, time: int, k: int)
    requires
        0 <= k < cells.len(),
        sum_of(cells.take(k + 1)) >= time,
        forall|j: int| 0 <= j < k ==> sum_of(#[trigger] cells.take(j + 1)) < time,
    ensures
        cell_at(cells, time) == k,
    decreases k,
{
    lemma_sum_take_succ(cells, 0);
    assert(cells.take(0) =~= Seq::<CellInfo>::empty());
    if k == 0 {
    } else {
        let rest = cells.drop_first();
        assert(sum_of(cells.take(1)) < time);
        assert forall|j: int| 0 <= j < k - 1 implies sum_of(
            #[trigger] rest.take(j + 1),
        ) < time - cells[0].duration by {
            assert(sum_of(cells.take((j + 1) + 1)) < time);
            assert(rest.take(j + 1) =~= cells.take(j + 2).drop_first());
            assert(cells.take(j + 2)[0] == cells[0]);
            assert(sum_of(cells.take(j + 2)) == cells[0].duration + sum_of(
                cells.take(j + 2).drop_first(),
            ));
        }
        assert(rest.take(k) =~= cells.take(k + 1).drop_first());
        assert(sum_of(cells.take(k + 1)) == cells[0].duration + sum_of(rest.take(k)));
        lemma_cell_at_by_prefix_sums(rest, time - cells[0].duration, k - 1);
    }
}

/// A playback head: an independently advancing instance of a template.  It
/// owns its play-head position (`current_time`) and end-of-clip status
/// (`drained`); advancing one head never affects another, even when both
/// came from the same template.
#[derive(Debug, Clone)]
pub struct AnimationClip {
    pub name: String,
    /// Play-head position; always normalized to at most `duration`.
    pub current_time: Delta,
    /// Copied from the template, informational.
    pub direction: Direction,
    /// Total duration of the cell sequence, copied from the template.
    pub duration: Delta,
    pub cells: Vec<CellInfo>,
    pub mode: PlayMode,
    /// Whether a non-looping play head has passed the end of the clip.
    pub drained: bool,
}

/// The play-head position after moving to absolute time `t` against a total
/// duration `d`: times within the clip stand as they are, times past the end
/// wrap.
pub open spec fn wrapped_time(t: int, d: int) -> int {
    if t <= d {
        t
    } else {
        t % d
    }
}

/// The end-of-clip status after moving to absolute time `t`: only a move
/// past the end changes it, and only non-looping modes drain.
pub open spec fn drained_after(mode: PlayMode, was_drained: bool, t: int, d: int) -> bool {
    if t <= d {
        was_drained
    } else {
        !(mode is Loop)
    }
}

impl AnimationClip {
    /// A playback head is well formed when its cell sequence and duration
    /// form a usable template, its play head is normalized, and a looping
    /// head is never drained.
    pub open spec fn wf(self) -> bool {
        &&& self.cells@.len() > 0
        &&& self.duration as int == sum_of(self.cells@)
        &&& self.duration > 0
        &&& self.current_time <= self.duration
        &&& (self.mode is Loop ==> !self.drained)
    }

    /// The clip as it stands after its play head moves to absolute time `t`:
    /// only `current_time` and `drained` change.
    pub open spec fn spec_set_time(self, t: int) -> AnimationClip {
        AnimationClip {
            name: self.name,
            current_time: wrapped_time(t, self.duration as int) as u64,
            direction: self.direction,
            duration: self.duration,
            cells: self.cells,
            mode: self.mode,
            drained: drained_after(self.mode, self.drained, t, self.duration as int),
        }
    }

    /// The cell reported for the clip's current state: a drained `OneShot`
    /// head reports nothing; any other drained head freezes on the last cell
    /// of the direction-ordered sequence; an active head resolves its play
    /// head against the cumulative cell durations.
    pub open spec fn spec_cell(self) -> Option<usize> {
        if self.drained {
            if self.mode is OneShot {
                None
            } else {
                Some(self.cells@.last().idx)
            }
        } else {
            Some(self.cells@[cell_at(self.cells@, self.current_time as int)].idx)
        }
    }

    /// A brand-new, independent playback head over `template`'s cell
    /// sequence, at the start of the clip and not drained.
    pub fn new(template: &AnimationClipTemplate, play_mode: PlayMode) -> (clip: Self)
        requires
            template.wf(),
        ensures
            clip.wf(),
            clip.name@ == template.name@,
            clip.current_time == 0,
            clip.direction == template.direction,
            clip.duration == template.duration,
            clip.cells@ == template.cells@,
            clip.mode == play_mode,
            !clip.drained,
    {
        let cells = clone_cells(&template.cells);
        AnimationClip {
            name: template.name.clone(),
            current_time: 0,
            direction: template.direction,
            duration: template.duration,
            cells,
            mode: play_mode,
            drained: false,
        }
    }

    /// Advances the play head by `dt`, wrapping past the end of the clip and
    /// draining a non-looping head that passes it.
    pub fn update(&mut self, dt: Delta)
        requires
            old(self).wf(),
            old(self).current_time + dt <= u64::MAX,
        ensures
            *final(self) == old(self).spec_set_time(old(self).current_time + dt),
            final(self).wf(),
    {
        let updated = self.current_time + dt;
        self.apply_time(updated);
    }

    /// Moves the play head to the absolute time `time`, with the same
    /// boundary rule as [`Self::update`]: used for scrubbing and resetting.
    pub fn set_time(&mut self, time: Delta)
        requires
            old(self).wf(),
        ensures
            *final(self) == old(self).spec_set_time(time as int),
            final(self).wf(),
    {
        self.apply_time(time);
    }

    /// Puts the play head back to the start of the clip.
    pub fn reset(&mut self)
        requires
            old(self).wf(),
        ensures
            *final(self) == old(self).spec_set_time(0),
            final(self).wf(),
    {
        self.set_time(0);
    }

    fn apply_time(&mut self, time: Delta)
        requires
            old(self).wf(),
        ensures
            *final(self) == old(self).spec_set_time(time as int),
            final(self).wf(),
    {
        if time > self.duration {
            self.drained = match self.mode {
                PlayMode::OneShot => true,
                PlayMode::Hold => true,
                PlayMode::Loop => false,
            };
            self.current_time = time % self.duration;
        } else {
            self.current_time = time;
        }
    }

    /// The cell index to display for the clip's current time, or `None` if
    /// the clip is over.  See [`Self::spec_cell`] for the policy per mode.
    pub fn get_cell(&self) -> (cell: Option<usize>)
        requires
            self.wf(),
        ensures
            cell == self.spec_cell(),
    {
        if self.drained {
            return match self.mode {
                PlayMode::OneShot => None,
                PlayMode::Hold => Some(self.cells[self.cells.len() - 1].idx),
                PlayMode::Loop => Some(self.cells[self.cells.len() - 1].idx),
            };
        }
        let n: usize = self.cells.len();
        let mut acc: u64 = 0;
        let mut i: usize = 0;
        while i < n
            invariant
                self.wf(),
                !self.drained,
                n == self.cells@.len(),
                i <= n,
                acc as int == sum_of(self.cells@.take(i as int)),
                forall|j: int|
                    0 <= j < i ==> sum_of(#[trigger] self.cells@.take(j + 1)) < self.current_time,
            decreases n - i,
        {
            proof {
                lemma_sum_take_succ(self.cells@, i as int);
                lemma_sum_take_le(self.cells@, i + 1);
                lemma_sum_nonneg(self.cells@.take(i as int));
            }
            acc = acc + self.cells[i].duration as u64;
            if acc >= self.current_time {
                proof {
                    lemma_cell_at_by_prefix_sums(
                        self.cells@,
                        self.current_time as int,
                        i as int,
                    );
                }
                return Some(self.cells[i].idx);
            }
            i += 1;
        }
        // The loop cannot run off the end: the play head never stands past
        // the total duration, so the cumulative durations reach it within
        // the sequence.
        proof {
            assert(self.cells@.take(n as int) =~= self.cells@);
            assert(sum_of(self.cells@.take((n - 1) + 1)) < self.current_time);
            assert(false);
        }
        unreached()
    }
}

/// The direction denoted by a tag's direction string; anything but the three
/// recognized strings resolves to `Unrecognized`.
pub open spec fn direction_of(s: Seq<char>) -> Direction {
    if s == "forward"@ {
        Direction::Forward
    } else if s == "reverse"@ {
        Direction::Reverse
    } else if s == "pingpong"@ {
        Direction::PingPong
    } else {
        Direction::Unrecognized
    }
}

/// Resolves a tag's direction string once, at load time.
fn parse_direction(s: &String) -> (direction: Direction)
    ensures
        direction == direction_of(s@),
{
    if *s == String::from_str("forward") {
        Direction::Forward
    } else if *s == String::from_str("reverse") {
        Direction::Reverse
    } else if *s == String::from_str("pingpong") {
        Direction::PingPong
    } else {
        Direction::Unrecognized
    }
}

/// Whether a tag denotes a non-empty frame range inside the raw frame array.
pub open spec fn spec_tag_ok(frames: Seq<Frame>, tag: FrameTag) -> bool {
    tag.from <= tag.to && tag.to < frames.len()
}

/// The frame slice a tag refers to.
pub open spec fn spec_tag_slice(frames: Seq<Frame>, tag: FrameTag) -> Seq<Frame> {
    frames.subrange(tag.from as int, tag.to + 1)
}

/// The template a valid tag derives from the raw frame array.
pub open spec fn spec_tag_template(frames: Seq<Frame>, tag: FrameTag) -> TemplateModel {
    let cells = cells_of(
        spec_tag_slice(frames, tag),
        direction_of(tag.direction@),
        tag.from as int,
    );
    TemplateModel {
        name: tag.name@,
        cells,
        direction: direction_of(tag.direction@),
        duration: sum_of(cells),
    }
}

/// The outcome of loading the tags of a sheet, one after the other, into the
/// name-keyed registry `acc`: the first invalid tag fails the whole load; a
/// tag named like an earlier one supersedes it.
pub open spec fn spec_load_from(
    frames: Seq<Frame>,
    tags: Seq<FrameTag>,
    acc: Map<Seq<char>, TemplateModel>,
) -> Result<Map<Seq<char>, TemplateModel>, SheetError>
    decreases tags.len(),
{
    if tags.len() == 0 {
        Ok(acc)
    } else if !spec_tag_ok(frames, tags[0]) {
        Err(SheetError::OutOfRange)
    } else if !AnimationClipTemplate::spec_buildable(
        spec_tag_slice(frames, tags[0]),
        direction_of(tags[0].direction@),
        tags[0].from as int,
    ) {
        Err(SheetError::InvalidTemplate)
    } else {
        spec_load_from(
            frames,
            tags.drop_first(),
            acc.insert(tags[0].name@, spec_tag_template(frames, tags[0])),
        )
    }
}

/// The outcome of loading a sheet: either every tag yields a usable template
/// and the result maps each tag name to its template, or the load fails as a
/// whole with the first tag's error.
pub open spec fn spec_load(frames: Seq<Frame>, tags: Seq<FrameTag>) -> Result<
    Map<Seq<char>, TemplateModel>,
    SheetError,
> {
    spec_load_from(frames, tags, Map::empty())
}

/// The name-keyed registry denoted by a template list; a later entry with
/// the same name supersedes an earlier one.
pub open spec fn entries_map(entries: Seq<(String, AnimationClipTemplate)>) -> Map<
    Seq<char>,
    TemplateModel,
>
    decreases entries.len(),
{
    if entries.len() == 0 {
        Map::empty()
    } else {
        entries_map(entries.drop_last()).insert(
            entries.last().0@,
            entries.last().1.model(),
        )
    }
}

/// If position `i` holds the last entry with its name, the registry maps
/// that name to that entry's template.
proof fn lemma_entries_map_last_match(entries: Seq<(String, AnimationClipTemplate)>, i: int)
    requires
        0 <= i < entries.len(),
        forall|j: int| i < j < entries.len() ==> (#[trigger] entries[j]).0@ != entries[i].0@,
    ensures
        entries_map(entries).contains_key(entries[i].0@),
        entries_map(entries)[entries[i].0@] == entries[i].1.model(),
    decreases entries.len(),
{
    if i < entries.len() - 1 {
        lemma_entries_map_last_match(entries.drop_last(), i);
    }
}

/// A name carried by no entry is absent from the registry.
proof fn lemma_entries_map_no_match(entries: Seq<(String, AnimationClipTemplate)>, name: Seq<char>)
    requires
        forall|j: int| 0 <= j < entries.len() ==> (#[trigger] entries[j]).0@ != name,
    ensures
        !entries_map(entries).contains_key(name),
    decreases entries.len(),
{
    if entries.len() > 0 {
        lemma_entries_map_no_match(entries.drop_last(), name);
    }
}

/// The registry of one loaded sheet: an immutable mapping from tag name to
/// clip template, and the factory for new playback heads.
#[derive(Debug)]
pub struct ClipStore {
    store: Vec<(String, AnimationClipTemplate)>,
}

/// A sheet description ready to be loaded.
pub type SpriteSheetData = aseprite::ExportData;

impl View for ClipStore {
    type V = Map<Seq<char>, TemplateModel>;

    closed spec fn view(&self) -> Map<Seq<char>, TemplateModel> {
        entries_map(self.store@)
    }
}

impl ClipStore {
    /// Every stored template is usable for playback.
    pub closed spec fn wf(self) -> bool {
        forall|i: int| 0 <= i < self.store@.len() ==> (#[trigger] self.store@[i]).1.wf()
    }

    /// Loads a sheet: derives one template per tag and keys it by the tag's
    /// name.  The load is atomic: the first tag whose range falls outside
    /// the raw frame array, or whose template is unusable, fails the whole
    /// load and no store is produced.
    pub fn new(data: &SpriteSheetData) -> (result: Result<Self, SheetError>)
        ensures
            match result {
                Ok(store) => {
                    &&& store.wf()
                    &&& spec_load(data.frames@, data.meta.frame_tags@) == Ok::<
                        Map<Seq<char>, TemplateModel>,
                        SheetError,
                    >(store@)
                },
                Err(e) => spec_load(data.frames@, data.meta.frame_tags@) == Err::<
                    Map<Seq<char>, TemplateModel>,
                    SheetError,
                >(e),
            },
    {
        let tags = &data.meta.frame_tags;
        let n: usize = tags.len();
        let mut store: Vec<(String, AnimationClipTemplate)> = Vec::new();
        let mut k: usize = 0;
        proof {
            assert(tags@.skip(0) =~= tags@);
        }
        while k < n
            invariant
                n == tags@.len(),
                tags@ == data.meta.frame_tags@,
                k <= n,
                forall|i: int| 0 <= i < store@.len() ==> (#[trigger] store@[i]).1.wf(),
                spec_load_from(data.frames@, tags@.skip(k as int), entries_map(store@))
                    == spec_load(data.frames@, data.meta.frame_tags@),
            decreases n - k,
        {
            proof {
                assert(tags@.skip(k as int)[0] == tags@[k as int]);
            }
            let tag = &tags[k];
            if tag.from > tag.to || tag.to >= data.frames.len() {
                return Err(SheetError::OutOfRange);
            }
            let direction = parse_direction(&tag.direction);
            let slice = vstd::slice::slice_subrange(data.frames.as_slice(), tag.from, tag.to + 1);
            let template = match AnimationClipTemplate::new(
                tag.name.clone(),
                slice,
                direction,
                tag.from,
            ) {
                Ok(t) => t,
                Err(e) => {
                    return Err(e);
                },
            };
            let ghost before = store@;
            store.push((tag.name.clone(), template));
            proof {
                assert(store@.drop_last() =~= before);
                assert(entries_map(store@) == entries_map(before).insert(
                    tags@[k as int].name@,
                    spec_tag_template(data.frames@, tags@[k as int]),
                ));
                assert(tags@.skip(k as int).drop_first() =~= tags@.skip(k as int + 1));
            }
            k += 1;
        }
        proof {
            assert(tags@.skip(n as int) =~= Seq::<FrameTag>::empty());
        }
        Ok(ClipStore { store })
    }

    /// Creates a brand-new, independent playback head for the named tag, or
    /// `None` when no tag of that name was loaded — a normal outcome the
    /// caller checks, not an error.
    pub fn create(&self, key: &str, mode: PlayMode) -> (clip: Option<AnimationClip>)
        requires
            self.wf(),
        ensures
            match clip {
                Some(c) => {
                    &&& self@.contains_key(key@)
                    &&& c.wf()
                    &&& c.name@ == self@[key@].name
                    &&& c.current_time == 0
                    &&& c.direction == self@[key@].direction
                    &&& c.duration as int == self@[key@].duration
                    &&& c.cells@ == self@[key@].cells
                    &&& c.mode == mode
                    &&& !c.drained
                },
                None => !self@.contains_key(key@),
            },
    {
        let wanted = String::from_str(key);
        let n: usize = self.store.len();
        let mut i: usize = n;
        while i > 0
            invariant
                self.wf(),
                wanted@ == key@,
                n == self.store@.len(),
                i <= n,
                forall|j: int| i <= j < n ==> (#[trigger] self.store@[j]).0@ != key@,
            decreases i,
        {
            i = i - 1;
            let entry = &self.store[i];
            if entry.0 == wanted {
                proof {
                    lemma_entries_map_last_match(self.store@, i as int);
                }
                return Some(AnimationClip::new(&entry.1, mode));
            }
        }
        proof {
            lemma_entries_map_no_match(self.store@, key@);
        }
        None
    }
}

/// A looping playback head is periodic in its clip's duration: advancing it
/// by exactly one full duration brings it back to the very state it was in,
/// so the displayed cell is unchanged.  (Moving by a full duration from the
/// exact start or end of the clip is the one exception: there the play head
/// lands on the other boundary.)
pub proof fn lemma_loop_periodic(clip: AnimationClip)
    requires
        clip.wf(),
        clip.mode is Loop,
        0 < clip.current_time < clip.duration,
    ensures
        clip.spec_set_time(clip.current_time + clip.duration) == clip,
        clip.spec_set_time(clip.current_time + clip.duration).spec_cell() == clip.spec_cell(),
{
    let t = clip.current_time as int;
    let d = clip.duration as int;
    lemma_mod_multiples_vanish(1, t, d);
    lemma_small_mod(t as nat, d as nat);
    assert(wrapped_time(t + d, d) == t);
}

/// A playback head that moves past the end of its clip drains exactly when
/// it is not looping.
pub proof fn lemma_overflow_drains(clip: AnimationClip, t: int)
    requires
        clip.wf(),
        t > clip.duration,
    ensures
        clip.spec_set_time(t).drained == !(clip.mode is Loop),
{
}

/// Once a one-shot playback head passes the end of its clip it drains and
/// reports no cell; and a drained one-shot head stays drained and keeps
/// reporting no cell, wherever its play head moves afterwards.
pub proof fn lemma_oneshot_drained_stays(clip: AnimationClip, t: int)
    requires
        clip.wf(),
        clip.mode is OneShot,
        clip.drained || t > clip.duration,
    ensures
        clip.spec_set_time(t).drained,
        clip.spec_set_time(t).spec_cell() is None,
        clip.drained ==> clip.spec_cell() is None,
{
}

/// Once a hold playback head passes the end of its clip it drains and
/// freezes on the last cell of its direction-ordered sequence; and a drained
/// hold head keeps reporting that cell, wherever its play head moves
/// afterwards.
pub proof fn lemma_hold_drained_holds_last(clip: AnimationClip, t: int)
    requires
        clip.wf(),
        clip.mode is Hold,
        clip.drained || t > clip.duration,
    ensures
        clip.spec_set_time(t).drained,
        clip.spec_set_time(t).spec_cell() == Some(clip.cells@.last().idx),
        clip.drained ==> clip.spec_cell() == Some(clip.cells@.last().idx),
{
}

/// A `Forward` tag's template preserves the tag's frame range exactly: cell
/// `i` carries absolute index `from + i` and the duration of that very
/// frame, in original order.
pub proof fn lemma_forward_tag_round_trip(frames: Seq<Frame>, tag: FrameTag)
    requires
        spec_tag_ok(frames, tag),
        direction_of(tag.direction@) is Forward,
    ensures
        spec_tag_template(frames, tag).cells.len() == tag.to - tag.from + 1,
        forall|i: int|
            0 <= i <= tag.to - tag.from ==> (#[trigger] spec_tag_template(frames, tag).cells[i]).idx
                == tag.from + i,
        forall|i: int|
            0 <= i <= tag.to - tag.from ==> (#[trigger] spec_tag_template(
                frames,
                tag,
            ).cells[i]).duration == frames[tag.from + i].duration,
{
}

/// Processing further tags never disturbs a registry entry whose name none
/// of them carries.
proof fn lemma_load_from_preserves(
    frames: Seq<Frame>,
    tags: Seq<FrameTag>,
    acc: Map<Seq<char>, TemplateModel>,
    name: Seq<char>,
)
    requires
        spec_load_from(frames, tags, acc) is Ok,
        forall|j: int| 0 <= j < tags.len() ==> (#[trigger] tags[j]).name@ != name,
        acc.contains_key(name),
    ensures
        spec_load_from(frames, tags, acc) matches Ok(m) && m.contains_key(name) && m[name]
            == acc[name],
    decreases tags.len(),
{
    if tags.len() > 0 {
        lemma_load_from_preserves(
            frames,
            tags.drop_first(),
            acc.insert(tags[0].name@, spec_tag_template(frames, tags[0])),
            name,
        );
    }
}

/// In a successful load, each tag that is the last of its name puts exactly
/// its own template into the registry.
pub proof fn lemma_load_maps_tag(frames: Seq<Frame>, tags: Seq<FrameTag>, i: int)
    requires
        spec_load(frames, tags) is Ok,
        0 <= i < tags.len(),
        forall|j: int| i < j < tags.len() ==> (#[trigger] tags[j]).name@ != tags[i].name@,
    ensures
        spec_load(frames, tags) matches Ok(m) && m.contains_key(tags[i].name@) && m[tags[i].name@]
            == spec_tag_template(frames, tags[i]),
{
    lemma_load_from_maps_tag(frames, tags, Map::empty(), i);
}

proof fn lemma_load_from_maps_tag(
    frames: Seq<Frame>,
    tags: Seq<FrameTag>,
    acc: Map<Seq<char>, TemplateModel>,
    i: int,
)
    requires
        spec_load_from(frames, tags, acc) is Ok,
        0 <= i < tags.len(),
        forall|j: int| i < j < tags.len() ==> (#[trigger] tags[j]).name@ != tags[i].name@,
    ensures
        spec_load_from(frames, tags, acc) matches Ok(m) && m.contains_key(tags[i].name@)
            && m[tags[i].name@] == spec_tag_template(frames, tags[i]),
    decreases tags.len(),
{
    let acc1 = acc.insert(tags[0].name@, spec_tag_template(frames, tags[0]));
    if i == 0 {
        assert forall|j: int| 0 <= j < tags.drop_first().len() implies (#[trigger] tags.drop_first()[j]).name@
            != tags[0].name@ by {
            assert(tags.drop_first()[j] == tags[j + 1]);
        }
        lemma_load_from_preserves(frames, tags.drop_first(), acc1, tags[0].name@);
    } else {
        assert forall|j: int| i - 1 < j < tags.drop_first().len() implies (#[trigger] tags.drop_first()[j]).name@
            != tags.drop_first()[i - 1].name@ by {
            assert(tags.drop_first()[j] == tags[j + 1]);
        }
        lemma_load_from_maps_tag(frames, tags.drop_first(), acc1, i - 1);
    }
}

/// Copies a cell sequence for a new playback head.
fn clone_cells(cells: &Vec<CellInfo>) -> (copy: Vec<CellInfo>)
    ensures
        copy@ == cells@,
{
    let n: usize = cells.len();
    let mut copy: Vec<CellInfo> = Vec::new();
    let mut i: usize = 0;
    while i < n
        invariant
            n == cells@.len(),
            i <= n,
            copy@ == cells@.take(i as int),
        decreases n - i,
    {
        copy.push(cells[i]);
        proof {
            assert(copy@ =~= cells@.take(i + 1));
        }
        i += 1;
    }
    proof {
        assert(cells@.take(n as int) =~= cells@);
    }
    copy
}

} // verus!
