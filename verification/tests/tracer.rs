use magics::theme::DisplayColour;
use magics::tracer::{Point, Sighting, Trace, Traces, MAX_TRACE_LENGTH, TRACE_HEIGHT};

fn point(x: f32, y: f32, z: f32) -> Point {
    (x.to_bits(), y.to_bits(), z.to_bits())
}

fn sighting(robot: u64, x: f32, z: f32, color: DisplayColour) -> Sighting {
    Sighting {
        robot,
        position: point(x, 1.0, z),
        color,
    }
}

#[test]
fn traces_lie_a_little_above_the_ground() {
    assert_eq!(f32::from_bits(TRACE_HEIGHT), 0.05);
    assert_eq!(MAX_TRACE_LENGTH, 10000);
    let mut trace = Trace::new(DisplayColour::Green);
    trace.record(point(1.0, 7.0, 2.0));
    assert_eq!(trace.to_vec(), vec![point(1.0, 0.05, 2.0)]);
    assert_eq!(trace.color(), DisplayColour::Green);
}

#[test]
fn a_trace_is_drawn_from_point_to_point() {
    let mut trace = Trace::new(DisplayColour::Blue);
    assert!(trace.segments().is_empty());
    trace.record(point(0.0, 0.0, 0.0));
    assert!(trace.segments().is_empty());
    assert!(trace.lines().is_empty());
    trace.record(point(1.0, 0.0, 0.0));
    trace.record(point(1.0, 0.0, 1.0));
    assert_eq!(
        trace.segments(),
        vec![
            (point(0.0, 0.05, 0.0), point(1.0, 0.05, 0.0)),
            (point(1.0, 0.05, 0.0), point(1.0, 0.05, 1.0)),
        ]
    );
    let lines = trace.lines();
    assert_eq!(lines.len(), 2);
    assert_eq!(lines[1].start, point(1.0, 0.05, 0.0));
    assert_eq!(lines[1].end, point(1.0, 0.05, 1.0));
    assert_eq!(lines[1].color, DisplayColour::Blue);
}

#[test]
fn a_full_trace_forgets_its_oldest_point() {
    let mut trace = Trace::new(DisplayColour::Red);
    for i in 0..MAX_TRACE_LENGTH {
        trace.record((i as u32, 0, 0));
    }
    let points = trace.to_vec();
    assert_eq!(points.len(), MAX_TRACE_LENGTH);
    assert_eq!(points[0], (0, TRACE_HEIGHT, 0));
    trace.record((77777, 0, 0));
    trace.record((88888, 0, 0));
    let points = trace.to_vec();
    assert_eq!(points.len(), MAX_TRACE_LENGTH);
    assert_eq!(points[0], (2, TRACE_HEIGHT, 0));
    assert_eq!(points[MAX_TRACE_LENGTH - 2], (77777, TRACE_HEIGHT, 0));
    assert_eq!(points[MAX_TRACE_LENGTH - 1], (88888, TRACE_HEIGHT, 0));
    assert_eq!(trace.segments().len(), MAX_TRACE_LENGTH - 1);
}

#[test]
fn robots_are_followed() {
    let mut traces = Traces::new();
    traces.track_robots(&vec![
        sighting(7, 0.0, 0.0, DisplayColour::Green),
        sighting(3, 5.0, 5.0, DisplayColour::Pink),
        sighting(7, 1.0, 0.0, DisplayColour::Red),
    ]);
    traces.track_robot(sighting(7, 2.0, 0.0, DisplayColour::Blue));
    assert_eq!(traces.0.len(), 2);
    let seven = traces.get(7).unwrap();
    assert_eq!(seven.color(), DisplayColour::Green);
    assert_eq!(
        seven.to_vec(),
        vec![
            point(0.0, 0.05, 0.0),
            point(1.0, 0.05, 0.0),
            point(2.0, 0.05, 0.0)
        ]
    );
    assert_eq!(traces.get(3).unwrap().to_vec(), vec![point(5.0, 0.05, 5.0)]);
    assert!(traces.get(4).is_none());

    let lines = traces.draw_traces();
    assert_eq!(lines.len(), 2);
    assert_eq!(lines[0].start, point(0.0, 0.05, 0.0));
    assert_eq!(lines[0].color, DisplayColour::Green);
    traces.track_robot(sighting(3, 6.0, 5.0, DisplayColour::Pink));
    let lines = traces.draw_traces();
    assert_eq!(lines.len(), 3);
    assert_eq!(lines[0].color, DisplayColour::Pink);
    assert_eq!(lines[0].end, point(6.0, 0.05, 5.0));
    assert_eq!(lines[2].end, point(2.0, 0.05, 0.0));
}

#[test]
fn a_new_robot_gets_a_trace() {
    let robots = vec![
        sighting(1, 1.0, 1.0, DisplayColour::Teal),
        sighting(2, 2.0, 2.0, DisplayColour::Sky),
        sighting(3, 3.0, 3.0, DisplayColour::Mauve),
    ];
    let mut traces = Traces::new();
    traces.track_robot(sighting(2, 0.0, 0.0, DisplayColour::Yellow));
    traces.create_tracer_when_a_robot_is_spawned(&vec![3, 2, 9], &robots);
    assert_eq!(traces.0.len(), 2);
    assert_eq!(traces.get(3).unwrap().to_vec(), vec![point(3.0, 0.05, 3.0)]);
    assert_eq!(traces.get(3).unwrap().color(), DisplayColour::Mauve);
    assert_eq!(traces.get(2).unwrap().to_vec(), vec![point(0.0, 0.05, 0.0)]);
    assert_eq!(traces.get(2).unwrap().color(), DisplayColour::Yellow);
    assert!(traces.get(1).is_none());
    assert!(traces.get(9).is_none());
}

#[test]
fn traces_of_robots_that_are_gone_are_taken_away() {
    let mut traces = Traces::new();
    traces.track_robots(&vec![
        sighting(1, 1.0, 1.0, DisplayColour::Teal),
        sighting(2, 2.0, 2.0, DisplayColour::Sky),
        sighting(3, 3.0, 3.0, DisplayColour::Mauve),
    ]);
    assert_eq!(
        traces.remove_trace_of_despawned_robot(&vec![2, 5, 2, 1]),
        vec![true, false, false, true]
    );
    assert_eq!(traces.0.len(), 1);
    assert!(traces.get(3).is_some());
    traces.reset();
    assert!(traces.0.is_empty());
    assert!(traces.draw_traces().is_empty());
}

#[test]
fn a_trace_starts_at_the_first_sighting() {
    let robots = vec![
        sighting(1, 1.0, 1.0, DisplayColour::Teal),
        sighting(2, 2.0, 2.0, DisplayColour::Sky),
        sighting(2, 9.0, 9.0, DisplayColour::Red),
    ];
    let mut traces = Traces::new();
    traces.create_tracer(2, &robots);
    assert_eq!(traces.0.len(), 1);
    assert_eq!(traces.get(2).unwrap().to_vec(), vec![point(2.0, 0.05, 2.0)]);
    assert_eq!(traces.get(2).unwrap().color(), DisplayColour::Sky);
    traces.create_tracer(2, &robots);
    traces.create_tracer(5, &robots);
    assert_eq!(traces.0.len(), 1);
    assert_eq!(traces.get(2).unwrap().to_vec().len(), 1);
}
