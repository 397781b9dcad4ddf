//! The envelope of one channel: a closed, piecewise-linear curve over a
//! repeating cycle, edited through its control points.
//!
//! Phases and levels are fixed-point integers in thousandths of an editor
//! unit: one cycle is 1000 units long and the level scale is 100 units high.

use vstd::prelude::*;

verus! {

/// Length of one cycle in phase steps. The curve's last point sits here.
pub const CYCLE: u32 = 1_000_000;

/// Height of the level scale. The output value runs over the same range.
pub const LEVEL_SPAN: u32 = 100_000;

/// A point that the curve passes through.
#[derive(Clone, Copy, Debug, PartialEq, Eq, Structural)]
pub struct ControlPoint {
    /// Position within the cycle, `0..=CYCLE`.
    pub phase: u32,
    /// Height on the editor's scale, `0..=LEVEL_SPAN`.
    pub level: u32,
    /// Identity of the point. It survives every reordering.
    pub id: u64,
}

/// Why an edit left the curve as it was.
#[derive(Clone, Copy, Debug, PartialEq, Eq, Structural)]
pub enum EditError {
    /// The edit would remove one of the two end points.
    InvalidOperation,
    /// No point of the curve has the given id.
    UnknownPoint,
    /// Every id has been handed out.
    Exhausted,
}

/// One thing that the person at the editor did to a curve.
#[derive(Clone, Copy, Debug, PartialEq, Eq, Structural)]
pub enum CurveEvent {
    /// A click on the empty canvas: a new point is wanted there.
    Click { phase: u32, level: u32 },
    /// A point was dragged to a new place.
    Drag { id: u64, phase: u32, level: u32 },
    /// A point was asked to go.
    Remove { id: u64 },
}

/// What a well-formed curve holds: two pinned end points at equal height,
/// every other point strictly inside the cycle, levels on the scale, and ids
/// that are distinct and below the next one to be handed out.
pub open spec fn valid_points(points: Seq<ControlPoint>, next_id: u64) -> bool {
    &&& points.len() >= 2
    &&& points[0].phase == 0
    &&& points.last().phase == CYCLE
    &&& points[0].level == points.last().level
    &&& forall|i: int| 0 <= i < points.len() - 1 ==> (#[trigger] points[i]).phase < CYCLE
    &&& forall|i: int| 0 <= i < points.len() ==> (#[trigger] points[i]).level <= LEVEL_SPAN
    &&& forall|i: int| 0 <= i < points.len() ==> (#[trigger] points[i]).id < next_id
    &&& forall|i: int, j: int|
        0 <= i < points.len() && 0 <= j < points.len() && i != j ==> (#[trigger] points[i]).id != (
        #[trigger] points[j]).id
}

/// Phases never decrease along the sequence.
pub open spec fn is_sorted(points: Seq<ControlPoint>) -> bool {
    forall|i: int, j: int|
        0 <= i <= j < points.len() ==> (#[trigger] points[i]).phase <= (#[trigger] points[j]).phase
}

/// Whether phase `t` falls into the segment that starts at point `i`.
pub open spec fn in_segment(points: Seq<ControlPoint>, t: int, i: int) -> bool {
    &&& 0 <= i
    &&& i + 1 < points.len()
    &&& points[i].phase <= t < points[i + 1].phase
}

/// The last of the first `n` segments that holds phase `t`, if any does.
pub open spec fn last_segment(points: Seq<ControlPoint>, t: int, n: nat) -> Option<int>
    decreases n,
{
    if n == 0 {
        None
    } else if in_segment(points, t, n - 1) {
        Some(n - 1)
    } else {
        last_segment(points, t, (n - 1) as nat)
    }
}

/// Number of segments between consecutive points.
pub open spec fn segment_count(points: Seq<ControlPoint>) -> nat {
    if points.len() == 0 {
        0
    } else {
        (points.len() - 1) as nat
    }
}

/// The level at phase `t` on the straight line from `a` to `b`, rounded down.
/// A segment of no length has the level of its start.
pub open spec fn interpolate(a: ControlPoint, b: ControlPoint, t: int) -> int {
    if b.phase == a.phase {
        a.level as int
    } else {
        (a.level * (b.phase - t) + b.level * (t - a.phase)) / (b.phase - a.phase)
    }
}

/// The curve's level at a phase within the cycle. Where no segment holds the
/// phase the level is the top of the scale, which is the lowest output.
pub open spec fn level_at(points: Seq<ControlPoint>, t: int) -> int {
    match last_segment(points, t, segment_count(points)) {
        Some(i) => interpolate(points[i], points[i + 1], t),
        None => LEVEL_SPAN as int,
    }
}

/// The output value at any phase: the phase wraps around the cycle and the
/// level scale is turned upside down.
pub open spec fn value_at(points: Seq<ControlPoint>, phase: int) -> int {
    LEVEL_SPAN - level_at(points, phase % (CYCLE as int))
}

/// The phase that a point between the end points takes when it is asked to
/// go to `phase`: the last step of the cycle belongs to the end point alone.
pub open spec fn inner_phase(phase: u32) -> u32 {
    if phase >= CYCLE {
        (CYCLE - 1) as u32
    } else {
        phase
    }
}

/// The level that a point takes when it is asked to go to `level`.
pub open spec fn scale_level(level: u32) -> u32 {
    if level > LEVEL_SPAN {
        LEVEL_SPAN
    } else {
        level
    }
}

/// Whether some point carries the id.
pub open spec fn has_point(points: Seq<ControlPoint>, id: u64) -> bool {
    exists|i: int| 0 <= i < points.len() && (#[trigger] points[i]).id == id
}

/// The place of a point that carries the id.
pub open spec fn index_of(points: Seq<ControlPoint>, id: u64) -> int {
    choose|i: int| 0 <= i < points.len() && (#[trigger] points[i]).id == id
}

/// Whether the id belongs to one of the two end points.
pub open spec fn is_end_point(points: Seq<ControlPoint>, id: u64) -> bool {
    points.len() > 0 && (points[0].id == id || points.last().id == id)
}

/// The points once a new one has been put in, just before the end point.
pub open spec fn points_after_add(
    points: Seq<ControlPoint>,
    phase: u32,
    level: u32,
    id: u64,
) -> Seq<ControlPoint> {
    points.insert(
        points.len() - 1,
        ControlPoint { phase: inner_phase(phase), level: scale_level(level), id },
    )
}

/// The points once the one with the given id has been moved. An end point
/// keeps its phase and shares its new level with the other end point.
pub open spec fn points_after_move(
    points: Seq<ControlPoint>,
    id: u64,
    phase: u32,
    level: u32,
) -> Seq<ControlPoint> {
    if !has_point(points, id) {
        points
    } else if is_end_point(points, id) {
        let last = points.len() - 1;
        points.update(0, ControlPoint { level: scale_level(level), ..points[0] }).update(
            last,
            ControlPoint { level: scale_level(level), ..points[last] },
        )
    } else {
        points.update(
            index_of(points, id),
            ControlPoint { phase: inner_phase(phase), level: scale_level(level), id },
        )
    }
}

/// The points once the one with the given id has been taken out. The end
/// points stay.
pub open spec fn points_after_delete(points: Seq<ControlPoint>, id: u64) -> Seq<ControlPoint> {
    if has_point(points, id) && !is_end_point(points, id) {
        points.remove(index_of(points, id))
    } else {
        points
    }
}

/// The points after one event at the editor, before they are put in order.
pub open spec fn points_after_event(
    points: Seq<ControlPoint>,
    next_id: u64,
    event: CurveEvent,
) -> Seq<ControlPoint> {
    match event {
        CurveEvent::Click { phase, level } => if next_id < u64::MAX {
            points_after_add(points, phase, level, next_id)
        } else {
            points
        },
        CurveEvent::Drag { id, phase, level } => points_after_move(points, id, phase, level),
        CurveEvent::Remove { id } => points_after_delete(points, id),
    }
}

/// Whether one event at the editor is carried out, and if not, why.
pub open spec fn event_outcome(
    points: Seq<ControlPoint>,
    next_id: u64,
    event: CurveEvent,
) -> Result<(), EditError> {
    match event {
        CurveEvent::Click { phase, level } => if next_id < u64::MAX {
            Ok(())
        } else {
            Err(EditError::Exhausted)
        },
        CurveEvent::Drag { id, phase, level } => if has_point(points, id) {
            Ok(())
        } else {
            Err(EditError::UnknownPoint)
        },
        CurveEvent::Remove { id } => if !has_point(points, id) {
            Err(EditError::UnknownPoint)
        } else if is_end_point(points, id) {
            Err(EditError::InvalidOperation)
        } else {
            Ok(())
        },
    }
}

/// Stored points brought onto the canvas as a drag would bring them: the
/// first to the start of the cycle, the last to its end and to the level of
/// the first, the others short of the end, every level onto the scale.
/// Order and ids stay.
pub open spec fn mended(points: Seq<ControlPoint>) -> Seq<ControlPoint> {
    Seq::new(
        points.len(),
        |i: int|
            ControlPoint {
                phase: if i == points.len() - 1 {
                    CYCLE
                } else if i == 0 {
                    0
                } else {
                    inner_phase(points[i].phase)
                },
                level: if i == points.len() - 1 {
                    scale_level(points[0].level)
                } else {
                    scale_level(points[i].level)
                },
                id: points[i].id,
            },
    )
}

/// Points that make a well-formed curve need no mending.
pub proof fn lemma_valid_points_stay(points: Seq<ControlPoint>, next_id: u64)
    requires
        valid_points(points, next_id),
    ensures
        mended(points) == points,
{
    assert forall|i: int| 0 <= i < points.len() implies mended(points)[i] == points[i] by {
        if i < points.len() - 1 {
            assert(points[i].phase < CYCLE);
        }
        assert(points[i].level <= LEVEL_SPAN);
        assert(points[0].level <= LEVEL_SPAN);
    }
    assert(mended(points) =~= points);
}

/// Where a point of the given phase goes into a sorted sequence: behind every
/// point that does not come later than it.
pub open spec fn insert_position(sorted: Seq<ControlPoint>, phase: u32) -> int
    decreases sorted.len(),
{
    if sorted.len() == 0 || sorted.last().phase <= phase {
        sorted.len() as int
    } else {
        insert_position(sorted.drop_last(), phase)
    }
}

/// The points in order of phase. Points of equal phase keep their order.
pub open spec fn sort_by_phase(points: Seq<ControlPoint>) -> Seq<ControlPoint>
    decreases points.len(),
{
    if points.len() == 0 {
        points
    } else {
        let head = sort_by_phase(points.drop_last());
        head.insert(insert_position(head, points.last().phase), points.last())
    }
}

/// A weighted mean of two levels stays below any bound on both.
pub proof fn lemma_interpolate_bounds(a: ControlPoint, b: ControlPoint, t: int, bound: int)
    requires
        a.phase <= t <= b.phase,
        a.level <= bound,
        b.level <= bound,
    ensures
        0 <= interpolate(a, b, t) <= bound,
        a.phase < b.phase ==> 0 <= a.level * (b.phase - t) + b.level * (t - a.phase) <= bound * (
        b.phase - a.phase),
{
    if a.phase < b.phase {
        let dx: int = b.phase - a.phase;
        let pos: int = t - a.phase;
        let al: int = a.level as int;
        let bl: int = b.level as int;
        let n: int = al * (dx - pos) + bl * pos;
        assert(0 <= n <= bound * dx) by (nonlinear_arith)
            requires
                0 <= pos <= dx,
                0 <= al <= bound,
                0 <= bl <= bound,
                n == al * (dx - pos) + bl * pos,
        ;
        assert(0 <= n / dx <= bound) by (nonlinear_arith)
            requires
                0 <= n <= bound * dx,
                dx > 0,
        ;
        assert(b.phase - t == dx - pos);
    }
}

/// Computes the level at phase `t` on the line from `a` to `b`.
pub fn interpolated_level(a: &ControlPoint, b: &ControlPoint, t: u32) -> (level: u32)
    requires
        a.phase <= t <= b.phase,
    ensures
        level as int == interpolate(*a, *b, t as int),
        level <= a.level || level <= b.level,
{
    if b.phase == a.phase {
        a.level
    } else {
        let span: u64 = (b.phase - a.phase) as u64;
        let ahead: u64 = (b.phase - t) as u64;
        let behind: u64 = (t - a.phase) as u64;
        proof {
            let bound: int = if a.level <= b.level {
                b.level as int
            } else {
                a.level as int
            };
            lemma_interpolate_bounds(*a, *b, t as int, bound);
            assert(bound * (b.phase - a.phase) <= 0xffff_ffff * 0xffff_ffff) by (nonlinear_arith)
                requires
                    0 <= bound <= 0xffff_ffff,
                    0 <= b.phase - a.phase <= 0xffff_ffff,
            ;
            assert(a.level * (b.phase - t) <= bound * (b.phase - a.phase)) by (nonlinear_arith)
                requires
                    0 <= a.level <= bound,
                    0 <= b.phase - t <= b.phase - a.phase,
            ;
            assert(b.level * (t - a.phase) >= 0) by (nonlinear_arith)
                requires
                    b.level >= 0,
                    t - a.phase >= 0,
            ;
        }
        let weighted: u64 = a.level as u64 * ahead + b.level as u64 * behind;
        (weighted / span) as u32
    }
}

/// Checks stored points against the curve's invariant.
pub fn points_are_valid(points: &Vec<ControlPoint>, next_id: u64) -> (valid: bool)
    ensures
        valid == valid_points(points@, next_id),
{
    let count: usize = points.len();
    if count < 2 {
        return false;
    }
    if points[0].phase != 0 || points[count - 1].phase != CYCLE || points[0].level != points[count
        - 1].level {
        return false;
    }
    let mut i: usize = 0;
    while i < count
        invariant
            count == points@.len(),
            i <= count,
            forall|k: int| 0 <= k < i && k < count - 1 ==> (#[trigger] points@[k]).phase < CYCLE,
            forall|k: int| 0 <= k < i ==> (#[trigger] points@[k]).level <= LEVEL_SPAN,
            forall|k: int| 0 <= k < i ==> (#[trigger] points@[k]).id < next_id,
            forall|k: int, m: int|
                0 <= k < i && 0 <= m < i && k != m ==> (#[trigger] points@[k]).id != (
                #[trigger] points@[m]).id,
        decreases count - i,
    {
        let point: ControlPoint = points[i];
        if (i < count - 1 && point.phase >= CYCLE) || point.level > LEVEL_SPAN || point.id
            >= next_id {
            return false;
        }
        let mut j: usize = 0;
        while j < i
            invariant
                count == points@.len(),
                i < count,
                j <= i,
                point == points@[i as int],
                forall|m: int| 0 <= m < j ==> (#[trigger] points@[m]).id != point.id,
            decreases i - j,
        {
            if points[j].id == point.id {
                return false;
            }
            j += 1;
        }
        i += 1;
    }
    true
}

/// The envelope of one channel.
#[derive(Clone, Debug)]
pub struct ChannelWidget {
    next_id: u64,
    control_points: Vec<ControlPoint>,
    enabled: bool,
    current_phase: u32,
    current_level: u32,
    current_time: u32,
}

/// What a curve is, apart from how it is stored.
pub struct Curve {
    /// The control points in their current order.
    pub points: Seq<ControlPoint>,
    /// The id that the next new point receives.
    pub next_id: u64,
    /// Whether the curve drives its channel.
    pub enabled: bool,
    /// Phase and level that the last `update` arrived at.
    pub cursor: (u32, u32),
    /// The phase within the cycle that the last `update` was asked for.
    pub cursor_time: u32,
}

impl Curve {
    /// The curve's invariant.
    pub open spec fn wf(self) -> bool {
        valid_points(self.points, self.next_id)
    }

    /// The output value of the curve at any phase.
    pub open spec fn value(self, phase: int) -> int {
        value_at(self.points, phase)
    }

    /// The curve with its cursor moved to where `update` leaves it.
    pub open spec fn updated(self, time: int) -> Curve {
        let t = (time % (CYCLE as int)) as u32;
        Curve { cursor: (t, level_at(self.points, t as int) as u32), cursor_time: t, ..self }
    }

    /// The curve after one event at the editor.
    pub open spec fn after_event(self, event: CurveEvent) -> Curve {
        Curve {
            points: sort_by_phase(points_after_event(self.points, self.next_id, event)),
            next_id: if event is Click && self.next_id < u64::MAX {
                (self.next_id + 1) as u64
            } else {
                self.next_id
            },
            ..self
        }
    }
}

impl View for ChannelWidget {
    type V = Curve;

    closed spec fn view(&self) -> Curve {
        Curve {
            points: self.control_points@,
            next_id: self.next_id,
            enabled: self.enabled,
            cursor: (self.current_phase, self.current_level),
            cursor_time: self.current_time,
        }
    }
}

impl ChannelWidget {
    /// The curve's invariant.
    pub open spec fn wf(&self) -> bool {
        self@.wf()
    }

    /// The standard curve: flat ends at level zero and a peak a tenth into
    /// the cycle.
    pub open spec fn fresh() -> Curve {
        Curve {
            points: seq![
                (ControlPoint { phase: 0, level: 0, id: 0 }),
                (ControlPoint { phase: 100_000, level: 64_000, id: 1 }),
                (ControlPoint { phase: CYCLE, level: 0, id: 2 }),
            ],
            next_id: 3,
            enabled: false,
            cursor: (0, 0),
            cursor_time: 0,
        }
    }

    /// Makes the standard curve. It does not drive its channel yet.
    pub fn new() -> (widget: ChannelWidget)
        ensures
            widget.wf(),
            is_sorted(widget@.points),
            widget@ == ChannelWidget::fresh(),
    {
        let mut control_points: Vec<ControlPoint> = Vec::new();
        control_points.push(ControlPoint { phase: 0, level: 0, id: 0 });
        control_points.push(ControlPoint { phase: 100_000, level: 64_000, id: 1 });
        control_points.push(ControlPoint { phase: CYCLE, level: 0, id: 2 });
        assert(control_points@ =~= ChannelWidget::fresh().points);
        ChannelWidget {
            next_id: 3,
            control_points,
            enabled: false,
            current_phase: 0,
            current_level: 0,
            current_time: 0,
        }
    }

    /// The control points in their current order.
    pub fn control_points(&self) -> (points: &Vec<ControlPoint>)
        ensures
            points@ == self@.points,
    {
        &self.control_points
    }

    /// Whether the curve drives its channel.
    pub fn is_enabled(&self) -> (enabled: bool)
        ensures
            enabled == self@.enabled,
    {
        self.enabled
    }

    /// Lets the curve drive its channel, or stops it.
    pub fn set_enabled(&mut self, enabled: bool)
        ensures
            final(self)@ == (Curve { enabled, ..old(self)@ }),
    {
        self.enabled = enabled;
    }

    /// The id that the next new point receives.
    pub fn next_id(&self) -> (id: u64)
        ensures
            id == self@.next_id,
    {
        self.next_id
    }

    /// Phase and level that the last `update` arrived at.
    pub fn current_point(&self) -> (point: (u32, u32))
        ensures
            point == self@.cursor,
    {
        (self.current_phase, self.current_level)
    }

    /// The phase within the cycle that the last `update` was asked for.
    pub fn current_time(&self) -> (time: u32)
        ensures
            time == self@.cursor_time,
    {
        self.current_time
    }

    /// The curve's level at a phase within the cycle.
    fn level(&self, t: u32) -> (level: u32)
        requires
            self.wf(),
            t < CYCLE,
        ensures
            level as int == level_at(self@.points, t as int),
            level <= LEVEL_SPAN,
    {
        let mut found: bool = false;
        let mut before: ControlPoint = ControlPoint { phase: 0, level: LEVEL_SPAN, id: 0 };
        let mut after: ControlPoint = ControlPoint { phase: CYCLE, level: LEVEL_SPAN, id: 0 };
        let windows: usize = self.control_points.len() - 1;
        let mut i: usize = 0;
        while i < windows
            invariant
                self.wf(),
                windows == self.control_points@.len() - 1,
                i <= windows,
                found == last_segment(self@.points, t as int, i as nat).is_some(),
                found ==> {
                    let k = last_segment(self@.points, t as int, i as nat).unwrap();
                    &&& 0 <= k < windows
                    &&& before == self@.points[k]
                    &&& after == self@.points[k + 1]
                    &&& before.phase <= t < after.phase
                },
            decreases windows - i,
        {
            let a: ControlPoint = self.control_points[i];
            let b: ControlPoint = self.control_points[i + 1];
            if a.phase <= t && b.phase > t {
                found = true;
                before = a;
                after = b;
            }
            i += 1;
        }
        if found {
            interpolated_level(&before, &after, t)
        } else {
            LEVEL_SPAN
        }
    }

    /// The output value at the given phase, between 0 and `LEVEL_SPAN`. The
    /// phase may lie any number of cycles ahead.
    pub fn evaluate(&self, phase: u64) -> (value: u32)
        requires
            self.wf(),
        ensures
            value as int == self@.value(phase as int),
            value <= LEVEL_SPAN,
    {
        let t: u32 = (phase % (CYCLE as u64)) as u32;
        LEVEL_SPAN - self.level(t)
    }

    /// Evaluates the curve and moves the cursor to where it was evaluated.
    pub fn update(&mut self, time: u64) -> (value: u32)
        requires
            old(self).wf(),
        ensures
            value as int == old(self)@.value(time as int),
            value <= LEVEL_SPAN,
            final(self)@ == old(self)@.updated(time as int),
            final(self).wf(),
    {
        let t: u32 = (time % (CYCLE as u64)) as u32;
        let level: u32 = self.level(t);
        self.current_time = t;
        self.current_phase = t;
        self.current_level = level;
        LEVEL_SPAN - level
    }

    /// Builds a curve from stored points, if they make a well-formed curve.
    pub fn from_parts(next_id: u64, control_points: Vec<ControlPoint>, enabled: bool) -> (widget:
        Option<ChannelWidget>)
        ensures
            widget.is_some() == valid_points(control_points@, next_id),
            widget.is_some() ==> {
                let w = widget.unwrap();
                &&& w.wf()
                &&& w@.points == control_points@
                &&& w@.next_id == next_id
                &&& w@.enabled == enabled
                &&& w@.cursor == (0u32, 0u32)
                &&& w@.cursor_time == 0
            },
    {
        if points_are_valid(&control_points, next_id) {
            Some(
                ChannelWidget {
                    next_id,
                    control_points,
                    enabled,
                    current_phase: 0,
            current_level: 0,
                    current_time: 0,
                },
            )
        } else {
            None
        }
    }

    /// The curve that `restore` makes of stored parts: the mended points
    /// where they make a well-formed curve, else the standard curve.
    pub open spec fn restored(next_id: u64, points: Seq<ControlPoint>, enabled: bool) -> Curve {
        if valid_points(mended(points), next_id) {
            Curve { points: mended(points), next_id, enabled, cursor: (0, 0), cursor_time: 0 }
        } else {
            Curve { enabled, ..ChannelWidget::fresh() }
        }
    }

    /// Builds a curve from stored parts, whatever they are. Points that
    /// make a well-formed curve are kept as they are. Others are mended;
    /// where that does not help, because there are fewer than two, or two
    /// share an id, or an id is not below `next_id`, the curve is the
    /// standard curve.
    pub fn restore(next_id: u64, control_points: Vec<ControlPoint>, enabled: bool) -> (widget:
        ChannelWidget)
        ensures
            widget.wf(),
            widget@ == ChannelWidget::restored(next_id, control_points@, enabled),
            valid_points(control_points@, next_id) ==> widget@.points == control_points@
                && widget@.next_id == next_id,
    {
        let count: usize = control_points.len();
        let mut points: Vec<ControlPoint> = Vec::new();
        let mut i: usize = 0;
        while i < count
            invariant
                count == control_points@.len(),
                i <= count,
                points@.len() == i,
                forall|k: int| 0 <= k < i ==> points@[k] == mended(control_points@)[k],
            decreases count - i,
        {
            let stored: ControlPoint = control_points[i];
            let phase: u32 = if i == count - 1 {
                CYCLE
            } else if i == 0 {
                0
            } else if stored.phase >= CYCLE {
                CYCLE - 1
            } else {
                stored.phase
            };
            let level: u32 = if i == count - 1 {
                control_points[0].level
            } else {
                stored.level
            };
            let level: u32 = if level > LEVEL_SPAN {
                LEVEL_SPAN
            } else {
                level
            };
            points.push(ControlPoint { phase, level, id: stored.id });
            i += 1;
        }
        proof {
            assert(points@ =~= mended(control_points@));
            if valid_points(control_points@, next_id) {
                lemma_valid_points_stay(control_points@, next_id);
            }
        }
        match ChannelWidget::from_parts(next_id, points, enabled) {
            Some(widget) => widget,
            None => {
                let mut widget = ChannelWidget::new();
                widget.set_enabled(enabled);
                widget
            },
        }
    }

    /// Checks the curve against its invariant.
    pub fn is_valid(&self) -> (valid: bool)
        ensures
            valid == self.wf(),
    {
        points_are_valid(&self.control_points, self.next_id)
    }

    /// Looks for the point that carries the id.
    fn find(&self, id: u64) -> (found: Option<usize>)
        requires
            self.wf(),
        ensures
            found.is_some() == has_point(self@.points, id),
            found.is_some() ==> {
                &&& found.unwrap() < self@.points.len()
                &&& found.unwrap() as int == index_of(self@.points, id)
                &&& self@.points[found.unwrap() as int].id == id
            },
    {
        let mut i: usize = 0;
        while i < self.control_points.len()
            invariant
                self.wf(),
                i <= self.control_points@.len(),
                forall|k: int| 0 <= k < i ==> (#[trigger] self.control_points@[k]).id != id,
            decreases self.control_points@.len() - i,
        {
            if self.control_points[i].id == id {
                proof {
                    assert(has_point(self@.points, id));
                    let k = index_of(self@.points, id);
                    assert(self@.points[k].id == self@.points[i as int].id);
                }
                return Some(i);
            }
            i += 1;
        }
        None
    }

    /// Puts a new point on the curve and gives it the next id. The point
    /// goes just before the end point, whatever its phase: `sort_points`
    /// brings it to its place.
    pub fn add_point(&mut self, phase: u32, level: u32) -> (added: Result<u64, EditError>)
        requires
            old(self).wf(),
        ensures
            final(self).wf(),
            added.is_ok() == (old(self)@.next_id < u64::MAX),
            match added {
                Ok(id) => {
                    &&& id == old(self)@.next_id
                    &&& final(self)@ == (Curve {
                        points: points_after_add(old(self)@.points, phase, level, id),
                        next_id: (id + 1) as u64,
                        ..old(self)@
                    })
                },
                Err(e) => e == EditError::Exhausted && *final(self) == *old(self),
            },
    {
        if self.next_id == u64::MAX {
            return Err(EditError::Exhausted);
        }
        let id: u64 = self.next_id;
        let point = ControlPoint {
            phase: if phase >= CYCLE {
                CYCLE - 1
            } else {
                phase
            },
            level: if level > LEVEL_SPAN {
                LEVEL_SPAN
            } else {
                level
            },
            id,
        };
        let at: usize = self.control_points.len() - 1;
        self.control_points.insert(at, point);
        self.next_id = id + 1;
        proof {
            crate::curve_facts::lemma_add_keeps_valid(old(self)@.points, id, phase, level);
        }
        Ok(id)
    }

    /// Moves the point with the given id. An end point stays at its phase,
    /// and its new level becomes the level of both end points, so that the
    /// curve closes over the end of the cycle.
    pub fn move_point(&mut self, id: u64, phase: u32, level: u32) -> (moved: Result<
        (),
        EditError,
    >)
        requires
            old(self).wf(),
        ensures
            final(self).wf(),
            final(self)@ == (Curve {
                points: points_after_move(old(self)@.points, id, phase, level),
                ..old(self)@
            }),
            moved == if has_point(old(self)@.points, id) {
                Ok::<(), EditError>(())
            } else {
                Err(EditError::UnknownPoint)
            },
    {
        let level: u32 = if level > LEVEL_SPAN {
            LEVEL_SPAN
        } else {
            level
        };
        match self.find(id) {
            None => Err(EditError::UnknownPoint),
            Some(k) => {
                let last: usize = self.control_points.len() - 1;
                if k == 0 || k == last {
                    let first_point: ControlPoint = self.control_points[0];
                    let last_point: ControlPoint = self.control_points[last];
                    self.control_points.set(0, ControlPoint { level, ..first_point });
                    self.control_points.set(last, ControlPoint { level, ..last_point });
                } else {
                    let phase: u32 = if phase >= CYCLE {
                        CYCLE - 1
                    } else {
                        phase
                    };
                    self.control_points.set(k, ControlPoint { phase, level, id });
                }
                Ok(())
            },
        }
    }

    /// Takes the point with the given id off the curve. The two end points
    /// cannot be taken off.
    pub fn delete_point(&mut self, id: u64) -> (deleted: Result<(), EditError>)
        requires
            old(self).wf(),
        ensures
            final(self).wf(),
            final(self)@ == (Curve {
                points: points_after_delete(old(self)@.points, id),
                ..old(self)@
            }),
            deleted == event_outcome(
                old(self)@.points,
                old(self)@.next_id,
                CurveEvent::Remove { id },
            ),
            deleted.is_err() ==> *final(self) == *old(self),
    {
        match self.find(id) {
            None => Err(EditError::UnknownPoint),
            Some(k) => {
                if k == 0 || k == self.control_points.len() - 1 {
                    Err(EditError::InvalidOperation)
                } else {
                    self.control_points.remove(k);
                    proof {
                        crate::curve_facts::lemma_delete_keeps_valid(
                            old(self)@.points,
                            self.next_id,
                            id,
                        );
                    }
                    Ok(())
                }
            },
        }
    }

    /// Puts the points in order of phase. Points of equal phase keep their
    /// order, and the end points stay where they are.
    pub fn sort_points(&mut self)
        requires
            old(self).wf(),
        ensures
            final(self).wf(),
            is_sorted(final(self)@.points),
            final(self)@ == (Curve { points: sort_by_phase(old(self)@.points), ..old(self)@ }),
            final(self)@.points[0] == old(self)@.points[0],
            final(self)@.points.last() == old(self)@.points.last(),
            final(self)@.points.to_multiset() == old(self)@.points.to_multiset(),
    {
        let count: usize = self.control_points.len();
        let mut out: Vec<ControlPoint> = Vec::new();
        let mut i: usize = 0;
        while i < count
            invariant
                count == self.control_points@.len(),
                i <= count,
                out@ == sort_by_phase(self.control_points@.take(i as int)),
                *self == *old(self),
            decreases count - i,
        {
            let point: ControlPoint = self.control_points[i];
            let mut j: usize = out.len();
            assert(out@.take(j as int) =~= out@);
            while j > 0 && out[j - 1].phase > point.phase
                invariant
                    j <= out@.len(),
                    insert_position(out@, point.phase) == insert_position(
                        out@.take(j as int),
                        point.phase,
                    ),
                decreases j,
            {
                assert(out@.take(j as int).drop_last() =~= out@.take(j - 1));
                j -= 1;
            }
            proof {
                assert(out@.take(0) =~= Seq::<ControlPoint>::empty());
                assert(insert_position(out@, point.phase) == j);
                let upto = self.control_points@.take(i + 1);
                assert(upto.drop_last() =~= self.control_points@.take(i as int));
                assert(upto.last() == point);
            }
            out.insert(j, point);
            i += 1;
        }
        proof {
            assert(self.control_points@.take(count as int) =~= self.control_points@);
            crate::sorting::lemma_sort_keeps_valid(self@.points, self@.next_id);
            crate::sorting::lemma_sort_permutes(self@.points);
        }
        self.control_points = out;
    }

    /// Carries out one event at the editor and puts the points in order.
    /// An event that cannot be carried out leaves the points as they were.
    pub fn ui(&mut self, event: &CurveEvent) -> (outcome: Result<(), EditError>)
        requires
            old(self).wf(),
        ensures
            final(self).wf(),
            is_sorted(final(self)@.points),
            final(self)@ == old(self)@.after_event(*event),
            outcome == event_outcome(old(self)@.points, old(self)@.next_id, *event),
    {
        let outcome: Result<(), EditError> = match *event {
            CurveEvent::Click { phase, level } => match self.add_point(phase, level) {
                Ok(_) => Ok(()),
                Err(e) => Err(e),
            },
            CurveEvent::Drag { id, phase, level } => self.move_point(id, phase, level),
            CurveEvent::Remove { id } => self.delete_point(id),
        };
        self.sort_points();
        outcome
    }
}

} // verus!
