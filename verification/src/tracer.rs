//! The traces that robots leave behind: for each robot the latest positions
//! it was seen at, to be drawn as a line.
use std::collections::BTreeMap;
use vstd::prelude::*;
use vstd::std_specs::iter::IteratorSpec;

use crate::theme::DisplayColour;

verus! {

broadcast use vstd::std_specs::btree::group_btree_axioms;

/// The largest number of points that a trace holds.
pub const MAX_TRACE_LENGTH: usize = 10000;

/// The height at which traces are drawn, a little above the ground: the
/// bit pattern of the single precision number 0.05.
pub const TRACE_HEIGHT: u32 = 0x3D4C_CCCD;

/// A point in space: its three coordinates `(x, y, z)`, each as the bit
/// pattern of a single precision number. The second coordinate is the
/// height.
pub type Point = (u32, u32, u32);

/// A ring buffer of points with room for [`MAX_TRACE_LENGTH`] of them, from
/// the `ringbuf` crate.
#[verifier::external_body]
pub struct PointRing {
    ring: ringbuf::StaticRb<(u32, u32, u32), 10000>,
}

/// The points that a ring buffer holds, oldest first.
pub uninterp spec fn ring_points(ring: PointRing) -> Seq<(u32, u32, u32)>;

/// `Default::default` of `ringbuf::StaticRb`: a ring buffer that holds
/// nothing.
#[verifier::external_body]
fn ring_new() -> (ring: PointRing)
    ensures
        ring_points(ring) == Seq::<(u32, u32, u32)>::empty(),
{
    PointRing { ring: ringbuf::StaticRb::default() }
}

/// `ringbuf::Rb::push_overwrite`: puts `point` behind the points that are
/// there. A full ring buffer first gives up its oldest point, which is
/// returned.
#[verifier::external_body]
fn ring_push_overwrite(
    ring: &mut PointRing,
    point: (u32, u32, u32),
) -> (overwritten: Option<(u32, u32, u32)>)
    ensures
        ring_points(*old(ring)).len() < 10000 ==> overwritten.is_none()
            && ring_points(*final(ring)) == ring_points(*old(ring)).push(point),
        ring_points(*old(ring)).len() == 10000 ==> overwritten == Some(
            ring_points(*old(ring))[0],
        ) && ring_points(*final(ring)) == ring_points(*old(ring)).drop_first().push(point),
{
    ringbuf::Rb::push_overwrite(&mut ring.ring, point)
}

/// `ringbuf::Rb::iter`: the points, oldest first.
#[verifier::external_body]
fn ring_to_vec(ring: &PointRing) -> (points: Vec<(u32, u32, u32)>)
    ensures
        points@ == ring_points(*ring),
{
    ringbuf::Rb::iter(&ring.ring).copied().collect()
}

/// Each point with the one that follows it.
pub open spec fn pairs_of(points: Seq<Point>) -> Seq<(Point, Point)> {
    Seq::new(
        if points.len() > 0 {
            (points.len() - 1) as nat
        } else {
            0
        },
        |i: int| (points[i], points[i + 1]),
    )
}

/// `itertools::Itertools::tuple_windows` for windows of two: each point
/// with the one that follows it, in order.
#[verifier::external_body]
fn tuple_windows(points: &Vec<(u32, u32, u32)>) -> (pairs: Vec<((u32, u32, u32), (u32, u32, u32))>)
    ensures
        pairs@ == pairs_of(points@),
{
    itertools::Itertools::tuple_windows(points.iter().copied()).collect()
}

/// `position` at the height at which traces are drawn.
pub open spec fn on_the_ground(position: Point) -> Point {
    (position.0, TRACE_HEIGHT, position.2)
}

/// The latest points of `points`: all of them, or the last
/// [`MAX_TRACE_LENGTH`] if there are more.
pub open spec fn latest(points: Seq<Point>) -> Seq<Point> {
    if points.len() > MAX_TRACE_LENGTH {
        points.skip(points.len() - MAX_TRACE_LENGTH)
    } else {
        points
    }
}

/// The trace of one robot.
pub struct Trace {
    color: DisplayColour,
    ring_buffer: PointRing,
}

impl Trace {
    /// The colour in which the trace is drawn.
    pub closed spec fn spec_color(&self) -> DisplayColour {
        self.color
    }

    /// The points of the trace, oldest first.
    pub closed spec fn points(&self) -> Seq<Point> {
        ring_points(self.ring_buffer)
    }

    /// Whether the trace holds no more points than it has room for. Every
    /// trace that this module hands out does.
    pub open spec fn wf(&self) -> bool {
        self.points().len() <= MAX_TRACE_LENGTH
    }

    /// A trace without points.
    pub fn new(color: DisplayColour) -> (trace: Self)
        ensures
            trace.wf(),
            trace.spec_color() == color,
            trace.points().len() == 0,
    {
        Trace { color, ring_buffer: ring_new() }
    }

    /// The colour in which the trace is drawn.
    pub fn color(&self) -> (color: DisplayColour)
        ensures
            color == self.spec_color(),
    {
        self.color
    }

    /// Adds `position`, at the height of traces, as the newest point. A
    /// trace that is full forgets its oldest point.
    pub fn record(&mut self, position: Point)
        requires
            old(self).wf(),
        ensures
            final(self).wf(),
            final(self).spec_color() == old(self).spec_color(),
            final(self).points() == latest(old(self).points().push(on_the_ground(position))),
    {
        let ghost before = self.points();
        let _ = ring_push_overwrite(&mut self.ring_buffer, (position.0, TRACE_HEIGHT, position.2));
        proof {
            let pushed = before.push(on_the_ground(position));
            if before.len() == MAX_TRACE_LENGTH {
                assert(pushed.skip(1) =~= before.drop_first().push(on_the_ground(position)));
            }
        }
    }

    /// The points of the trace, oldest first.
    pub fn to_vec(&self) -> (points: Vec<Point>)
        ensures
            points@ == self.points(),
    {
        ring_to_vec(&self.ring_buffer)
    }

    /// The pieces of the line that the trace is drawn as: from each point to
    /// the one that follows it.
    pub fn segments(&self) -> (segments: Vec<(Point, Point)>)
        ensures
            segments@ == pairs_of(self.points()),
    {
        let points = ring_to_vec(&self.ring_buffer);
        tuple_windows(&points)
    }
}

/// A robot as it is seen at one moment.
#[derive(Debug, Clone, Copy)]
pub struct Sighting {
    /// The handle of the robot, as one number.
    pub robot: u64,
    /// Where the robot is.
    pub position: Point,
    /// The colour that belongs to the robot.
    pub color: DisplayColour,
}

/// The traces of all robots, by the handle of the robot.
pub struct Traces(pub BTreeMap<u64, Trace>);

/// What a trace is to hold once the robot was seen: the points it held, or
/// none if there was no trace, and the new position.
pub open spec fn sighted(traces: Map<u64, Trace>, after: Trace, sighting: Sighting) -> bool {
    if traces.contains_key(sighting.robot) {
        &&& after.spec_color() == traces[sighting.robot].spec_color()
        &&& after.points() == latest(
            traces[sighting.robot].points().push(on_the_ground(sighting.position)),
        )
    } else {
        &&& after.spec_color() == sighting.color
        &&& after.points() == seq![on_the_ground(sighting.position)]
    }
}

impl Traces {
    /// Whether every trace holds no more points than it has room for.
    pub open spec fn wf(&self) -> bool {
        forall|robot: u64| self.0@.contains_key(robot) ==> (#[trigger] self.0@[robot]).wf()
    }

    /// No traces.
    pub fn new() -> (traces: Self)
        ensures
            traces.wf(),
            traces.0@ == Map::<u64, Trace>::empty(),
    {
        Traces(BTreeMap::new())
    }

    /// Adds the position of a robot that has moved to its trace. A robot
    /// without a trace gets one in its colour. All other traces stay as they
    /// are.
    pub fn track_robot(&mut self, sighting: Sighting)
        requires
            old(self).wf(),
        ensures
            final(self).wf(),
            final(self).0@.dom() == old(self).0@.dom().insert(sighting.robot),
            sighted(old(self).0@, final(self).0@[sighting.robot], sighting),
            forall|robot: u64|
                robot != sighting.robot && old(self).0@.contains_key(robot) ==>
                    #[trigger] final(self).0@[robot] == old(self).0@[robot],
    {
        let mut trace = match self.0.remove(&sighting.robot) {
            Some(trace) => trace,
            None => Trace::new(sighting.color),
        };
        trace.record(sighting.position);
        proof {
            if !old(self).0@.contains_key(sighting.robot) {
                assert(trace.points() =~= seq![on_the_ground(sighting.position)]);
            }
        }
        self.0.insert(sighting.robot, trace);
        assert(self.0@.dom() =~= old(self).0@.dom().insert(sighting.robot));
    }

    /// Adds the positions of the robots that have moved to their traces, one
    /// after another.
    pub fn track_robots(&mut self, moved: &Vec<Sighting>)
        requires
            old(self).wf(),
        ensures
            final(self).wf(),
            all_seen(old(self).0@, moved@, final(self).0@),
    {
        let mut next: usize = 0;
        let ghost mut steps: Seq<Map<u64, Trace>> = seq![self.0@];
        while next < moved.len()
            invariant
                next <= moved@.len(),
                self.wf(),
                steps.len() == next + 1,
                steps[0] == old(self).0@,
                steps.last() == self.0@,
                forall|i: int| 0 <= i < next ==>
                    one_seen(steps[i], moved@[i], #[trigger] steps[i + 1]),
            decreases moved@.len() - next,
        {
            let ghost before = self.0@;
            self.track_robot(moved[next]);
            proof {
                let earlier = steps;
                steps = steps.push(self.0@);
                assert(one_seen(before, moved@[next as int], self.0@));
                assert forall|i: int| 0 <= i < next + 1 implies one_seen(
                    steps[i],
                    moved@[i],
                    #[trigger] steps[i + 1],
                ) by {
                    if i < next {
                        assert(steps[i] == earlier[i] && steps[i + 1] == earlier[i + 1]);
                    }
                }
            }
            next += 1;
        }
    }

    /// Gives a robot that has just appeared a trace that starts where the
    /// robot is, unless it has a trace already. `robots` are all robots
    /// that are there; a robot that is not among them gets no trace.
    pub fn create_tracer(&mut self, robot: u64, robots: &Vec<Sighting>)
        requires
            old(self).wf(),
        ensures
            final(self).wf(),
            one_started(old(self).0@, robot, robots@, final(self).0@),
    {
        let mut next: usize = 0;
        proof {
            lemma_first_sighting(robots@, robot);
        }
        while next < robots.len()
            invariant
                next <= robots@.len(),
                next <= first_sighting(robots@, robot) <= robots@.len(),
                self.wf(),
                *self == *old(self),
            decreases robots@.len() - next,
        {
            let other = robots[next];
            proof {
                lemma_first_sighting(robots@, robot);
            }
            if other.robot == robot {
                if !self.0.contains_key(&robot) {
                    let mut trace = Trace::new(other.color);
                    trace.record(other.position);
                    assert(trace.points() =~= seq![on_the_ground(other.position)]);
                    self.0.insert(robot, trace);
                    assert(self.0@.dom() =~= old(self).0@.dom().insert(robot));
                }
                return ;
            }
            next += 1;
        }
        proof {
            lemma_first_sighting(robots@, robot);
        }
    }

    /// Gives each robot that has just appeared a trace that starts where the
    /// robot is, unless it has a trace already, one robot after another.
    pub fn create_tracer_when_a_robot_is_spawned(
        &mut self,
        spawned: &Vec<u64>,
        robots: &Vec<Sighting>,
    )
        requires
            old(self).wf(),
        ensures
            final(self).wf(),
            all_started(old(self).0@, spawned@, robots@, final(self).0@),
    {
        let mut next: usize = 0;
        let ghost mut steps: Seq<Map<u64, Trace>> = seq![self.0@];
        while next < spawned.len()
            invariant
                next <= spawned@.len(),
                self.wf(),
                steps.len() == next + 1,
                steps[0] == old(self).0@,
                steps.last() == self.0@,
                forall|i: int|
                    0 <= i < next ==> one_started(
                        steps[i],
                        spawned@[i],
                        robots@,
                        #[trigger] steps[i + 1],
                    ),
            decreases spawned@.len() - next,
        {
            let ghost before = self.0@;
            self.create_tracer(spawned[next], robots);
            proof {
                let earlier = steps;
                steps = steps.push(self.0@);
                assert forall|i: int| 0 <= i < next + 1 implies one_started(
                    steps[i],
                    spawned@[i],
                    robots@,
                    #[trigger] steps[i + 1],
                ) by {
                    if i < next {
                        assert(steps[i] == earlier[i] && steps[i + 1] == earlier[i + 1]);
                    }
                }
            }
            next += 1;
        }
    }

    /// Takes away the traces of the robots that are gone. Tells for each of
    /// them whether it had a trace.
    pub fn remove_trace_of_despawned_robot(&mut self, despawned: &Vec<u64>) -> (removed: Vec<bool>)
        requires
            old(self).wf(),
        ensures
            final(self).wf(),
            final(self).0@ == old(self).0@.remove_keys(despawned@.to_set()),
            removed@.len() == despawned@.len(),
            forall|i: int|
                0 <= i < despawned@.len() ==> #[trigger] removed@[i] == (old(self).0@.contains_key(
                    despawned@[i],
                ) && !despawned@.take(i).contains(despawned@[i])),
    {
        let mut removed: Vec<bool> = Vec::new();
        let mut next: usize = 0;
        assert(despawned@.take(0).to_set() =~= Set::<u64>::empty());
        assert(self.0@ =~= old(self).0@.remove_keys(despawned@.take(0).to_set()));
        while next < despawned.len()
            invariant
                next <= despawned@.len(),
                self.wf(),
                self.0@ == old(self).0@.remove_keys(despawned@.take(next as int).to_set()),
                removed@.len() == next,
                forall|i: int|
                    0 <= i < next ==> #[trigger] removed@[i] == (old(self).0@.contains_key(
                        despawned@[i],
                    ) && !despawned@.take(i).contains(despawned@[i])),
            decreases despawned@.len() - next,
        {
            let robot = despawned[next];
            let had = self.0.remove(&robot).is_some();
            removed.push(had);
            proof {
                let before = despawned@.take(next as int);
                let after = despawned@.take(next + 1);
                assert(after =~= before.push(robot));
                assert forall|other: u64| after.to_set().contains(other)
                    == before.to_set().insert(robot).contains(other) by {
                    if before.contains(other) {
                        let at = choose|at: int| 0 <= at < before.len() && before[at] == other;
                        assert(after[at] == other);
                    }
                    if other == robot {
                        assert(after[next as int] == robot);
                    }
                }
                assert(after.to_set() =~= before.to_set().insert(robot));
                assert(self.0@ =~= old(self).0@.remove_keys(after.to_set()));
            }
            next += 1;
        }
        assert(despawned@.take(next as int) =~= despawned@);
        removed
    }

    /// Takes all traces away.
    pub fn reset(&mut self)
        ensures
            final(self).wf(),
            final(self).0@ == Map::<u64, Trace>::empty(),
    {
        self.0.clear();
    }

    /// The trace of robot `robot`, if it has one.
    pub fn get(&self, robot: u64) -> (trace: Option<&Trace>)
        ensures
            match trace {
                Some(trace) => self.0@.contains_key(robot) && *trace == self.0@[robot],
                None => !self.0@.contains_key(robot),
            },
    {
        self.0.get(&robot)
    }
}

/// A piece of a trace, to be drawn as a straight line.
#[derive(Debug, Clone, Copy)]
pub struct Line {
    pub start: Point,
    pub end: Point,
    pub color: DisplayColour,
}

/// The lines that the trace `trace` is drawn as.
pub open spec fn lines_of_trace(trace: Trace) -> Seq<Line> {
    Seq::new(
        pairs_of(trace.points()).len(),
        |i: int|
            (Line {
                start: pairs_of(trace.points())[i].0,
                end: pairs_of(trace.points())[i].1,
                color: trace.spec_color(),
            }),
    )
}

/// The lines that the traces of `robots` are drawn as, robot by robot.
pub open spec fn lines_of_traces(traces: Map<u64, Trace>, robots: Seq<u64>) -> Seq<Line>
    decreases robots.len(),
{
    if robots.len() == 0 {
        Seq::empty()
    } else {
        lines_of_traces(traces, robots.drop_last()) + lines_of_trace(traces[robots.last()])
    }
}

impl Trace {
    /// The lines that the trace is drawn as: one from each point to the one
    /// that follows it, in the colour of the trace.
    pub fn lines(&self) -> (lines: Vec<Line>)
        ensures
            lines@ == lines_of_trace(*self),
    {
        let segments = self.segments();
        let mut lines: Vec<Line> = Vec::new();
        let mut next: usize = 0;
        while next < segments.len()
            invariant
                next <= segments@.len(),
                segments@ == pairs_of(self.points()),
                lines@ == lines_of_trace(*self).take(next as int),
            decreases segments@.len() - next,
        {
            let (start, end) = segments[next];
            lines.push(Line { start, end, color: self.color });
            assert(lines@ =~= lines_of_trace(*self).take(next + 1));
            next += 1;
        }
        assert(lines_of_trace(*self).take(next as int) =~= lines_of_trace(*self));
        lines
    }
}

impl Traces {
    /// The lines that all traces are drawn as: trace by trace in the order
    /// of the robots' handles, and within a trace from the oldest point on.
    pub fn draw_traces(&self) -> (lines: Vec<Line>)
        ensures
            exists|robots: Seq<u64>|
                {
                    &&& vstd::std_specs::btree::increasing_seq(robots)
                    &&& robots.no_duplicates()
                    &&& robots.to_set() == self.0@.dom()
                    &&& lines@ == lines_of_traces(self.0@, robots)
                },
    {
        let mut lines: Vec<Line> = Vec::new();
        let ghost mut robots: Seq<u64> = Seq::empty();
        let iter = self.0.iter();
        let ghost all = iter.remaining();
        for entry in it: iter
            invariant
                it.seq() == all,
                all == vstd::std_specs::btree::spec_btree_map_iter(&self.0).remaining(),
                robots == all.take(it.index() as int).map_values(|kv: (&u64, &Trace)| *kv.0),
                lines@ == lines_of_traces(self.0@, robots),
        {
            let ghost before = robots;
            let mut more = entry.1.lines();
            proof {
                robots = robots.push(*entry.0);
                assert(robots.drop_last() =~= before);
                assert(robots =~= all.take(it.index() + 1).map_values(
                    |kv: (&u64, &Trace)| *kv.0,
                ));
                assert(self.0@[*entry.0] == *entry.1);
            }
            lines.append(&mut more);
        }
        proof {
            let keys = all.map_values(|kv: (&u64, &Trace)| *kv.0);
            assert(all.take(all.len() as int) =~= all);
            assert(robots == keys);
            assert(keys.no_duplicates()) by {
                assert forall|i: int, j: int| 0 <= i < keys.len() && 0 <= j < keys.len() && i
                    != j implies keys[i] != keys[j] by {
                    if keys[i] == keys[j] {
                        assert(self.0@[*all[i].0] == *all[i].1);
                        assert(self.0@[*all[j].0] == *all[j].1);
                        assert(all[i] == all[j]);
                    }
                }
            }
            assert(keys.to_set() =~= self.0@.dom()) by {
                assert forall|robot: u64| keys.to_set().contains(robot) == self.0@.dom().contains(
                    robot,
                ) by {
                    if keys.contains(robot) {
                        let i = choose|i: int| 0 <= i < keys.len() && keys[i] == robot;
                        assert(self.0@.contains_key(*all[i].0));
                    }
                    if self.0@.contains_key(robot) {
                        assert(all.contains((&robot, &self.0@[robot])));
                        let i = choose|i: int|
                            0 <= i < all.len() && all[i] == (&robot, &self.0@[robot]);
                        assert(keys[i] == robot);
                    }
                }
            }
        }
        lines
    }
}

/// Position of the first sighting of robot `robot` among `robots`, or the
/// length of `robots` if the robot is not among them.
pub open spec fn first_sighting(robots: Seq<Sighting>, robot: u64) -> int
    decreases robots.len(),
{
    if robots.len() == 0 || robots[0].robot == robot {
        0
    } else {
        1 + first_sighting(robots.drop_first(), robot)
    }
}

/// The first sighting of a robot lies among the sightings or right behind
/// them, it is one of that robot, and none before it is.
pub proof fn lemma_first_sighting(robots: Seq<Sighting>, robot: u64)
    ensures
        0 <= first_sighting(robots, robot) <= robots.len(),
        first_sighting(robots, robot) < robots.len() ==> robots[first_sighting(
            robots,
            robot,
        )].robot == robot,
        forall|i: int|
            0 <= i < first_sighting(robots, robot) ==> (#[trigger] robots[i]).robot != robot,
    decreases robots.len(),
{
    if robots.len() > 0 && robots[0].robot != robot {
        let rest = robots.drop_first();
        lemma_first_sighting(rest, robot);
        assert forall|i: int| 0 <= i < first_sighting(robots, robot) implies (
        #[trigger] robots[i]).robot != robot by {
            if i > 0 {
                assert(robots[i] == rest[i - 1]);
            }
        }
    }
}

/// Whether `after` are the traces `before` once robot `robot` has appeared
/// among `robots`: a robot that had no trace and is among `robots` has got
/// one, in the colour and at the position of its first sighting; all else is
/// as it was.
pub open spec fn one_started(
    before: Map<u64, Trace>,
    robot: u64,
    robots: Seq<Sighting>,
    after: Map<u64, Trace>,
) -> bool {
    let first = first_sighting(robots, robot);
    if before.contains_key(robot) || first >= robots.len() {
        after == before
    } else {
        &&& after.dom() == before.dom().insert(robot)
        &&& after[robot].spec_color() == robots[first].color
        &&& after[robot].points() == seq![on_the_ground(robots[first].position)]
        &&& forall|other: u64|
            #[trigger] before.contains_key(other) ==> after[other] == before[other]
    }
}

/// Whether `after` are the traces `before` once the robots `spawned` have
/// appeared among `robots`, one after another.
pub open spec fn all_started(
    before: Map<u64, Trace>,
    spawned: Seq<u64>,
    robots: Seq<Sighting>,
    after: Map<u64, Trace>,
) -> bool {
    exists|steps: Seq<Map<u64, Trace>>|
        {
            &&& steps.len() == spawned.len() + 1
            &&& steps[0] == before
            &&& steps.last() == after
            &&& forall|i: int|
                0 <= i < spawned.len() ==> one_started(
                    steps[i],
                    spawned[i],
                    robots,
                    #[trigger] steps[i + 1],
                )
        }
}

/// Whether `after` are the traces `before` with one robot seen once more.
pub open spec fn one_seen(
    before: Map<u64, Trace>,
    sighting: Sighting,
    after: Map<u64, Trace>,
) -> bool {
    &&& after.dom() == before.dom().insert(sighting.robot)
    &&& sighted(before, after[sighting.robot], sighting)
    &&& forall|robot: u64|
        robot != sighting.robot && before.contains_key(robot) ==> #[trigger] after[robot]
            == before[robot]
}

/// Whether `after` are the traces `before` with the robots of `moved` seen
/// once more, one after another.
pub open spec fn all_seen(
    before: Map<u64, Trace>,
    moved: Seq<Sighting>,
    after: Map<u64, Trace>,
) -> bool {
    exists|steps: Seq<Map<u64, Trace>>|
        {
            &&& steps.len() == moved.len() + 1
            &&& steps[0] == before
            &&& steps.last() == after
            &&& forall|i: int|
                0 <= i < moved.len() ==> one_seen(steps[i], moved[i], #[trigger] steps[i + 1])
        }
}

} // verus!
