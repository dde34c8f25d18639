//! The drag-source state machine, one instance per draggable tile.
//!
//! A press captures the pointer; a later move whose squared displacement
//! from the press point exceeds [`DRAG_THRESHOLD`] promotes the press
//! into a drag, emitting the request to build the drag operation.  While
//! dragging, the accepted-action reports from the compositor decide
//! whether the eventual finish is a move or a copy.
//!
//! Note: the squared displacement is compared against the threshold
//! constant itself, not against its square, so the effective activation
//! radius is 5 device units, not 25.

use vstd::prelude::*;

verus! {

/// The wire mime type that carries a dragged entry: one `file://` URI.
pub open spec fn mime_uri_list() -> Seq<char> {
    "text/uri-list"@
}

/// Returns the wire mime type for dragged entries.
pub fn mime_type() -> (r: &'static str)
    ensures
        r@ == mime_uri_list(),
{
    "text/uri-list"
}

/// Squared pointer displacements above this start a drag.
pub const DRAG_THRESHOLD: i128 = 25;

/// A pointer position, in surface coordinates.
#[derive(Debug, Clone, Copy, PartialEq, Eq, Structural)]
pub struct Point {
    pub x: i32,
    pub y: i32,
}

/// The set of drag-and-drop actions offered or accepted.
#[derive(Debug, Clone, Copy, PartialEq, Eq, Structural)]
pub struct DndActions {
    pub copy: bool,
    pub move_action: bool,
}

/// The state of one drag source.
#[derive(Debug, Clone, Copy, PartialEq, Eq, Structural)]
pub enum SourceState {
    /// No gesture in progress.
    Idle,
    /// The pointer is pressed; a drag starts if it moves far enough.
    Pressed(Point),
    /// A drag is in flight; `accepted_is_move` tracks whether the
    /// destination accepted a move.
    Dragging { accepted_is_move: bool },
}

/// An input to the drag source: raw pointer events plus the data-source
/// protocol events delivered by the compositor.
#[derive(Debug, Clone, Copy, PartialEq, Eq, Structural)]
pub enum SourceEvent {
    /// Button or finger down inside the tile's bounds.
    Press(Point),
    /// Pointer or finger moved.
    PointerMove(Point),
    /// The destination's accepted action set changed.
    ActionAccepted(DndActions),
    /// The drag completed; the payload was delivered.
    Finished,
    /// The drag was cancelled.
    Cancelled,
}

/// What the drag source asks its surroundings to do.
#[derive(Debug)]
pub enum SourceOutput {
    /// Build and start the drag operation: offer the given mime types
    /// and actions, with the serialized origin path as payload.
    StartDrag { mimes: Vec<String>, actions: DndActions, path: String },
    /// Report completion to the application layer.
    Finish { is_move: bool },
    /// Report cancellation to the application layer.
    Cancel,
}

/// The squared distance between two points.
pub open spec fn dist2(x0: int, y0: int, x1: int, y1: int) -> int {
    (x1 - x0) * (x1 - x0) + (y1 - y0) * (y1 - y0)
}

/// Whether `e` is a pointer move whose squared displacement from
/// `(x0, y0)` exceeds the threshold.
pub open spec fn over_threshold_move(e: SourceEvent, x0: int, y0: int) -> bool {
    match e {
        SourceEvent::PointerMove(p) => dist2(x0, y0, p.x as int, p.y as int)
            > DRAG_THRESHOLD as int,
        _ => false,
    }
}

/// The transition function of the drag source.
pub open spec fn source_next(s: SourceState, e: SourceEvent) -> SourceState {
    match s {
        SourceState::Idle => match e {
            SourceEvent::Press(p) => SourceState::Pressed(p),
            _ => SourceState::Idle,
        },
        SourceState::Pressed(p0) => if over_threshold_move(e, p0.x as int, p0.y as int) {
            SourceState::Dragging { accepted_is_move: false }
        } else {
            s
        },
        SourceState::Dragging { accepted_is_move } => match e {
            SourceEvent::ActionAccepted(set) => SourceState::Dragging {
                accepted_is_move: set.move_action,
            },
            SourceEvent::Finished => SourceState::Idle,
            SourceEvent::Cancelled => SourceState::Idle,
            _ => s,
        },
    }
}

/// Whether the step from `s` on `e` promotes a press into a drag.
pub open spec fn starts_drag(s: SourceState, e: SourceEvent) -> bool {
    match s {
        SourceState::Pressed(p0) => over_threshold_move(e, p0.x as int, p0.y as int),
        _ => false,
    }
}

/// Computes the squared displacement between two points, exactly.
fn dist2_exec(p0: Point, p1: Point) -> (r: i128)
    ensures
        r == dist2(p0.x as int, p0.y as int, p1.x as int, p1.y as int),
{
    let dx: i128 = (p1.x as i128) - (p0.x as i128);
    let dy: i128 = (p1.y as i128) - (p0.y as i128);
    proof {
        assert(dx * dx + dy * dy <= 0x4_0000_0000_0000_0000i128 && dx * dx >= 0 && dy * dy >= 0)
            by (nonlinear_arith)
            requires
                -0x1_0000_0000i128 <= dx <= 0x1_0000_0000i128,
                -0x1_0000_0000i128 <= dy <= 0x1_0000_0000i128,
        ;
    }
    dx * dx + dy * dy
}

/// One drag source: the origin path of its tile's entry, and the state
/// of the gesture.
#[derive(Debug)]
pub struct DragSource {
    /// The origin file of the entry this tile shows; the drag payload.
    pub path: String,
    /// The gesture state.
    pub state: SourceState,
}

impl DragSource {
    /// A new, idle drag source for the entry at `path`.
    pub fn new(path: String) -> (r: Self)
        ensures
            r.path == path,
            r.state == SourceState::Idle,
    {
        DragSource { path, state: SourceState::Idle }
    }

    /// Feeds one event to the machine.  The state advances by
    /// [`source_next`]; the returned outputs are the start-drag request
    /// on promotion, and the finish or cancel reports when the drag
    /// ends.
    pub fn handle_event(&mut self, e: SourceEvent) -> (r: Vec<SourceOutput>)
        ensures
            final(self).path == old(self).path,
            final(self).state == source_next(old(self).state, e),
            starts_drag(old(self).state, e) ==> r@.len() == 1 && (r@[0] matches
                SourceOutput::StartDrag { mimes, actions, path } && crate::group::str_views(mimes@)
                =~= seq![mime_uri_list()] && actions == (DndActions {
                copy: true,
                move_action: true,
            }) && path == old(self).path),
            old(self).state matches SourceState::Dragging { accepted_is_move } ==> (e
                == SourceEvent::Finished ==> r@ =~= seq![
                SourceOutput::Finish { is_move: accepted_is_move },
            ]),
            (old(self).state is Dragging && e == SourceEvent::Cancelled) ==> r@ =~= seq![
                SourceOutput::Cancel,
            ],
            !(starts_drag(old(self).state, e) || (old(self).state is Dragging && (e
                == SourceEvent::Finished || e == SourceEvent::Cancelled))) ==> r@.len() == 0,
    {
        let mut out: Vec<SourceOutput> = Vec::new();
        match self.state {
            SourceState::Idle => {
                match e {
                    SourceEvent::Press(p) => {
                        self.state = SourceState::Pressed(p);
                    },
                    _ => {},
                }
            },
            SourceState::Pressed(p0) => {
                match e {
                    SourceEvent::PointerMove(p1) => {
                        if dist2_exec(p0, p1) > DRAG_THRESHOLD {
                            self.state = SourceState::Dragging { accepted_is_move: false };
                            let mut mimes: Vec<String> = Vec::new();
                            mimes.push(mime_type().to_owned());
                            proof {
                                assert(crate::group::str_views(mimes@) =~= seq![mime_uri_list()]);
                            }
                            out.push(
                                SourceOutput::StartDrag {
                                    mimes,
                                    actions: DndActions { copy: true, move_action: true },
                                    path: self.path.clone(),
                                },
                            );
                        }
                    },
                    _ => {},
                }
            },
            SourceState::Dragging { accepted_is_move } => {
                match e {
                    SourceEvent::ActionAccepted(set) => {
                        self.state = SourceState::Dragging { accepted_is_move: set.move_action };
                    },
                    SourceEvent::Finished => {
                        self.state = SourceState::Idle;
                        out.push(SourceOutput::Finish { is_move: accepted_is_move });
                    },
                    SourceEvent::Cancelled => {
                        self.state = SourceState::Idle;
                        out.push(SourceOutput::Cancel);
                    },
                    _ => {},
                }
            },
        }
        out
    }
}

/// The state after a sequence of events.
pub open spec fn source_run(s: SourceState, evs: Seq<SourceEvent>) -> SourceState
    decreases evs.len(),
{
    if evs.len() == 0 {
        s
    } else {
        source_run(source_next(s, evs[0]), evs.drop_first())
    }
}

/// How many steps of the run promote a press into a drag.
pub open spec fn drag_start_count(s: SourceState, evs: Seq<SourceEvent>) -> nat
    decreases evs.len(),
{
    if evs.len() == 0 {
        0 as nat
    } else {
        (if starts_drag(s, evs[0]) {
            1 as nat
        } else {
            0 as nat
        }) + drag_start_count(source_next(s, evs[0]), evs.drop_first())
    }
}

/// No event of the sequence is a press.
pub open spec fn no_press(evs: Seq<SourceEvent>) -> bool {
    forall|i: int| 0 <= i < evs.len() ==> !(evs[i] is Press)
}

/// Without a press, a machine that is not in the pressed state never
/// starts a drag.
proof fn lemma_no_press_no_start(s: SourceState, evs: Seq<SourceEvent>)
    requires
        !(s is Pressed),
        no_press(evs),
    ensures
        drag_start_count(s, evs) == 0,
    decreases evs.len(),
{
    if evs.len() > 0 {
        assert(!(evs[0] is Press));
        let s1 = source_next(s, evs[0]);
        assert(!(s1 is Pressed));
        assert(no_press(evs.drop_first())) by {
            assert(forall|i: int|
                0 <= i < evs.drop_first().len() ==> evs.drop_first()[i] == evs[i + 1]);
        }
        lemma_no_press_no_start(s1, evs.drop_first());
    }
}

/// Threshold activation: after a press, the source starts a drag during
/// a press-then-move sequence exactly when some move's squared
/// displacement from the press point exceeds the threshold — and it
/// never starts more than one drag per press.
pub proof fn lemma_threshold_activation(p0: Point, evs: Seq<SourceEvent>)
    requires
        no_press(evs),
    ensures
        drag_start_count(SourceState::Pressed(p0), evs) <= 1,
        drag_start_count(SourceState::Pressed(p0), evs) == 1 <==> exists|i: int|
            0 <= i < evs.len() && over_threshold_move(evs[i], p0.x as int, p0.y as int),
    decreases evs.len(),
{
    let s = SourceState::Pressed(p0);
    if evs.len() == 0 {
    } else {
        let e0 = evs[0];
        let rest = evs.drop_first();
        assert(no_press(rest)) by {
            assert(forall|i: int| 0 <= i < rest.len() ==> rest[i] == evs[i + 1]);
        }
        let s1 = source_next(s, e0);
        if over_threshold_move(e0, p0.x as int, p0.y as int) {
            assert(s1 is Dragging);
            lemma_no_press_no_start(s1, rest);
            assert(drag_start_count(s, evs) == 1);
        } else {
            assert(s1 == s);
            lemma_threshold_activation(p0, rest);
            assert(drag_start_count(s, evs) == drag_start_count(s, rest));
            assert((exists|i: int|
                0 <= i < evs.len() && over_threshold_move(evs[i], p0.x as int, p0.y as int))
                <==> (exists|i: int|
                0 <= i < rest.len() && over_threshold_move(rest[i], p0.x as int, p0.y as int))) by {
                if exists|i: int|
                    0 <= i < evs.len() && over_threshold_move(evs[i], p0.x as int, p0.y as int) {
                    let i = choose|i: int|
                        0 <= i < evs.len() && over_threshold_move(
                            evs[i],
                            p0.x as int,
                            p0.y as int,
                        );
                    assert(i != 0);
                    assert(rest[i - 1] == evs[i]);
                }
                if exists|i: int|
                    0 <= i < rest.len() && over_threshold_move(rest[i], p0.x as int, p0.y as int) {
                    let i = choose|i: int|
                        0 <= i < rest.len() && over_threshold_move(
                            rest[i],
                            p0.x as int,
                            p0.y as int,
                        );
                    assert(evs[i + 1] == rest[i]);
                }
            }
        }
    }
}

} // verus!
