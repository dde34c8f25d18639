//! The drag-destination state machine, one instance per group tile.
//!
//! Every destination widget observes the same compositor-delivered
//! offer events; hit-testing the pointer against the widget's own
//! bounds decides which widget, if any, claims the offer.  A claimed
//! offer is accepted with the move action; a drop requests the payload,
//! and delivered data is decoded back into an entry's origin path.
//!
//! Protocol events that arrive in a state that does not expect them are
//! ignored, and a payload that does not decode is dropped silently.

use vstd::prelude::*;
use crate::dnd_source::{mime_uri_list, DndActions};
use crate::group::str_views;
use crate::payload::decoded_file_path;
use crate::text::chars_of;

verus! {

/// A widget's layout bounds: a half-open rectangle.
#[derive(Debug, Clone, Copy, PartialEq, Eq, Structural)]
pub struct Rect {
    pub x: i32,
    pub y: i32,
    pub width: i32,
    pub height: i32,
}

/// Whether the point lies inside the rectangle.
pub open spec fn rect_contains(r: Rect, px: int, py: int) -> bool {
    r.x <= px < r.x + r.width && r.y <= py < r.y + r.height
}

/// No point lies inside both rectangles.
pub open spec fn disjoint_rects(a: Rect, b: Rect) -> bool {
    forall|px: int, py: int| !(rect_contains(a, px, py) && rect_contains(b, px, py))
}

impl Rect {
    /// Hit-tests a point against these bounds.
    pub fn contains(&self, px: i32, py: i32) -> (r: bool)
        ensures
            r == rect_contains(*self, px as int, py as int),
    {
        let x = self.x as i64;
        let y = self.y as i64;
        self.x <= px && (px as i64) < x + (self.width as i64) && self.y <= py && (py as i64) < y
            + (self.height as i64)
    }
}

/// The state of one drop target.
#[derive(Debug)]
pub enum DndOfferState {
    /// No offer is being tracked.
    Idle,
    /// An offer exists but the pointer is outside this widget.
    OutsideWidget { mimes: Vec<String>, actions: DndActions },
    /// This widget is claiming the offer.
    HandlingOffer { mimes: Vec<String>, actions: DndActions },
    /// The drop was performed here; the payload is awaited.
    Dropped,
}

/// Abstract view of a [`DndOfferState`].
#[verifier::ext_equal]
pub enum OfferStateV {
    IdleV,
    OutsideV { mimes: Seq<Seq<char>>, actions: DndActions },
    HandlingV { mimes: Seq<Seq<char>>, actions: DndActions },
    DroppedV,
}

impl View for DndOfferState {
    type V = OfferStateV;

    open spec fn view(&self) -> OfferStateV {
        match self {
            DndOfferState::Idle => OfferStateV::IdleV,
            DndOfferState::OutsideWidget { mimes, actions } => OfferStateV::OutsideV {
                mimes: str_views(mimes@),
                actions: *actions,
            },
            DndOfferState::HandlingOffer { mimes, actions } => OfferStateV::HandlingV {
                mimes: str_views(mimes@),
                actions: *actions,
            },
            DndOfferState::Dropped => OfferStateV::DroppedV,
        }
    }
}

/// A compositor-delivered offer event.
#[derive(Debug)]
pub enum DestEvent {
    /// The source's offered action set changed.
    SourceActions(DndActions),
    /// The drag entered the surface at the given point.
    Enter { x: i32, y: i32, mimes: Vec<String> },
    /// The drag moved to the given point.
    Motion { x: i32, y: i32 },
    /// The drag left the surface.
    Leave,
    /// The user dropped the payload.
    DropPerformed,
    /// The requested payload data arrived.
    DndData { mime_type: String, data: Vec<u8> },
}

/// Abstract view of a [`DestEvent`].
#[verifier::ext_equal]
pub enum DestEventV {
    SourceActionsV { actions: DndActions },
    EnterV { x: i32, y: i32, mimes: Seq<Seq<char>> },
    MotionV { x: i32, y: i32 },
    LeaveV,
    DropPerformedV,
    DndDataV { mime_type: Seq<char>, data: Seq<u8> },
}

impl View for DestEvent {
    type V = DestEventV;

    open spec fn view(&self) -> DestEventV {
        match self {
            DestEvent::SourceActions(a) => DestEventV::SourceActionsV { actions: *a },
            DestEvent::Enter { x, y, mimes } => DestEventV::EnterV {
                x: *x,
                y: *y,
                mimes: str_views(mimes@),
            },
            DestEvent::Motion { x, y } => DestEventV::MotionV { x: *x, y: *y },
            DestEvent::Leave => DestEventV::LeaveV,
            DestEvent::DropPerformed => DestEventV::DropPerformedV,
            DestEvent::DndData { mime_type, data } => DestEventV::DndDataV {
                mime_type: mime_type@,
                data: data@,
            },
        }
    }
}

/// What the drop target asks its surroundings to do.
#[derive(Debug)]
pub enum DestOutput {
    /// Tell the compositor the preferred and accepted action is a move.
    SetActionsMove,
    /// Accept the `text/uri-list` mime type.
    AcceptUriList,
    /// Withdraw acceptance.
    AcceptNone,
    /// Request the payload for `text/uri-list`.
    RequestUriListData,
    /// Signal protocol completion.
    DndFinished,
    /// Report to the application layer that this widget claims the
    /// offer.
    OfferStarted,
    /// Report to the application layer that the offer left this widget.
    OfferLeft,
    /// Report a completed drop of the entry at the given origin path.
    DropFinished { path: String },
}

/// The empty action set.
pub open spec fn no_actions() -> DndActions {
    DndActions { copy: false, move_action: false }
}

/// Whether the offered mime types carry `text/uri-list`.
pub open spec fn has_uri_list(mimes: Seq<Seq<char>>) -> bool {
    exists|k: int| 0 <= k < mimes.len() && mimes[k] == mime_uri_list()
}

/// The transition function of the drop target with bounds `b`.
pub open spec fn dest_next(s: OfferStateV, e: DestEventV, b: Rect) -> OfferStateV {
    match s {
        OfferStateV::IdleV => match e {
            DestEventV::SourceActionsV { actions } => OfferStateV::OutsideV {
                mimes: Seq::<Seq<char>>::empty(),
                actions,
            },
            DestEventV::EnterV { x, y, mimes } => if has_uri_list(mimes) {
                if rect_contains(b, x as int, y as int) {
                    OfferStateV::HandlingV { mimes, actions: no_actions() }
                } else {
                    OfferStateV::OutsideV { mimes, actions: no_actions() }
                }
            } else {
                OfferStateV::IdleV
            },
            _ => OfferStateV::IdleV,
        },
        OfferStateV::OutsideV { mimes, actions } => match e {
            DestEventV::SourceActionsV { actions: a } => OfferStateV::OutsideV { mimes, actions: a },
            DestEventV::MotionV { x, y } => if rect_contains(b, x as int, y as int) {
                OfferStateV::HandlingV { mimes, actions: no_actions() }
            } else {
                OfferStateV::OutsideV { mimes, actions: no_actions() }
            },
            DestEventV::DropPerformedV => OfferStateV::IdleV,
            DestEventV::LeaveV => OfferStateV::IdleV,
            _ => OfferStateV::OutsideV { mimes, actions },
        },
        OfferStateV::HandlingV { mimes, actions } => match e {
            DestEventV::MotionV { x, y } => if rect_contains(b, x as int, y as int) {
                OfferStateV::HandlingV { mimes, actions: no_actions() }
            } else {
                OfferStateV::OutsideV { mimes, actions: no_actions() }
            },
            DestEventV::LeaveV => OfferStateV::IdleV,
            DestEventV::SourceActionsV { actions: a } => OfferStateV::HandlingV {
                mimes,
                actions: a,
            },
            DestEventV::DropPerformedV => OfferStateV::DroppedV,
            _ => OfferStateV::HandlingV { mimes, actions },
        },
        OfferStateV::DroppedV => match e {
            DestEventV::DndDataV { .. } => OfferStateV::IdleV,
            DestEventV::LeaveV => OfferStateV::IdleV,
            _ => OfferStateV::DroppedV,
        },
    }
}

/// Whether the step from `s` on `e` claims the offer: the pointer is
/// inside the bounds and the widget was not already handling it.
pub open spec fn step_claims_offer(s: OfferStateV, e: DestEventV, b: Rect) -> bool {
    match s {
        OfferStateV::IdleV => match e {
            DestEventV::EnterV { x, y, mimes } => has_uri_list(mimes) && rect_contains(
                b,
                x as int,
                y as int,
            ),
            _ => false,
        },
        OfferStateV::OutsideV { .. } => e matches DestEventV::MotionV { x, y } && rect_contains(
            b,
            x as int,
            y as int,
        ),
        _ => false,
    }
}

#[verifier::loop_isolation(false)]
fn mimes_have_uri_list(v: &Vec<String>) -> (r: bool)
    ensures
        r == has_uri_list(str_views(v@)),
{
    let ghost views = str_views(v@);
    let expected = crate::dnd_source::mime_type();
    let mut i: usize = 0;
    while i < v.len()
        invariant
            0 <= i <= v@.len(),
            views == str_views(v@),
            forall|k: int| 0 <= k < i ==> views[k] != mime_uri_list(),
        decreases v@.len() - i,
    {
        proof {
            assert(views[i as int] == v@[i as int]@);
        }
        if crate::group::string_eq_str(&v[i], expected) {
            assert(has_uri_list(views));
            return true;
        }
        i = i + 1;
    }
    false
}

fn clone_mimes(v: &Vec<String>) -> (r: Vec<String>)
    ensures
        str_views(r@) =~= str_views(v@),
{
    let mut r: Vec<String> = Vec::new();
    let mut i: usize = 0;
    while i < v.len()
        invariant
            0 <= i <= v@.len(),
            r@.len() == i,
            forall|k: int| 0 <= k < i ==> r@[k]@ == v@[k]@,
        decreases v@.len() - i,
    {
        r.push(v[i].clone());
        i = i + 1;
    }
    r
}

/// One drop target: its current layout bounds and its offer state.
#[derive(Debug)]
pub struct DragDest {
    /// The widget's bounds, used for hit-testing.
    pub bounds: Rect,
    /// The offer state.
    pub state: DndOfferState,
}

impl DragDest {
    /// A new, idle drop target with the given bounds.
    pub fn new(bounds: Rect) -> (r: Self)
        ensures
            r.bounds == bounds,
            r.state@ == OfferStateV::IdleV,
    {
        DragDest { bounds, state: DndOfferState::Idle }
    }

    /// Feeds one offer event to the machine.  The state advances by
    /// [`dest_next`]; the outputs are the accept/set-action requests,
    /// the offer reports to the application layer, and — when delivered
    /// data decodes — the completed drop with its origin path.
    pub fn handle_event(&mut self, e: DestEvent) -> (r: Vec<DestOutput>)
        ensures
            final(self).bounds == old(self).bounds,
            final(self).state@ == dest_next(old(self).state@, e@, old(self).bounds),
            step_claims_offer(old(self).state@, e@, old(self).bounds) ==> r@ =~= seq![
                DestOutput::SetActionsMove,
                DestOutput::AcceptUriList,
                DestOutput::OfferStarted,
            ],
            old(self).state@ is HandlingV ==> {
                &&& e@ matches DestEventV::MotionV { x, y } ==> {
                    &&& rect_contains(old(self).bounds, x as int, y as int) ==> r@ =~= seq![
                        DestOutput::SetActionsMove,
                    ]
                    &&& !rect_contains(old(self).bounds, x as int, y as int) ==> r@ =~= seq![
                        DestOutput::OfferLeft,
                        DestOutput::AcceptNone,
                    ]
                }
                &&& e@ is LeaveV ==> r@ =~= seq![DestOutput::OfferLeft]
                &&& e@ is SourceActionsV ==> r@ =~= seq![DestOutput::SetActionsMove]
                &&& e@ is DropPerformedV ==> r@ =~= seq![
                    DestOutput::SetActionsMove,
                    DestOutput::AcceptUriList,
                    DestOutput::RequestUriListData,
                ]
                &&& (e@ is EnterV || e@ is DndDataV) ==> r@.len() == 0
            },
            old(self).state@ is DroppedV ==> {
                &&& e@ is LeaveV ==> r@ =~= seq![DestOutput::OfferLeft]
                &&& e@ matches DestEventV::DndDataV { mime_type, data } ==> {
                    &&& (mime_type == mime_uri_list() && decoded_file_path(data) is Some) ==> {
                        &&& r@.len() == 2
                        &&& r@[0] matches DestOutput::DropFinished { path } && Option::Some(path@)
                            == decoded_file_path(data)
                        &&& r@[1] == DestOutput::DndFinished
                    }
                    &&& !(mime_type == mime_uri_list() && decoded_file_path(data) is Some)
                        ==> r@.len() == 0
                }
                &&& !(e@ is LeaveV || e@ is DndDataV) ==> r@.len() == 0
            },
            !(step_claims_offer(old(self).state@, e@, old(self).bounds) || old(self).state@
                is HandlingV || old(self).state@ is DroppedV) ==> r@.len() == 0,
    {
        let mut out: Vec<DestOutput> = Vec::new();
        let next: DndOfferState = match &self.state {
            DndOfferState::Idle => match &e {
                DestEvent::SourceActions(a) => DndOfferState::OutsideWidget {
                    mimes: Vec::new(),
                    actions: *a,
                },
                DestEvent::Enter { x, y, mimes } => {
                    if mimes_have_uri_list(mimes) {
                        if self.bounds.contains(*x, *y) {
                            out.push(DestOutput::SetActionsMove);
                            out.push(DestOutput::AcceptUriList);
                            out.push(DestOutput::OfferStarted);
                            DndOfferState::HandlingOffer {
                                mimes: clone_mimes(mimes),
                                actions: DndActions { copy: false, move_action: false },
                            }
                        } else {
                            DndOfferState::OutsideWidget {
                                mimes: clone_mimes(mimes),
                                actions: DndActions { copy: false, move_action: false },
                            }
                        }
                    } else {
                        DndOfferState::Idle
                    }
                },
                _ => DndOfferState::Idle,
            },
            DndOfferState::OutsideWidget { mimes, actions } => match &e {
                DestEvent::SourceActions(a) => DndOfferState::OutsideWidget {
                    mimes: clone_mimes(mimes),
                    actions: *a,
                },
                DestEvent::Motion { x, y } => {
                    if self.bounds.contains(*x, *y) {
                        out.push(DestOutput::SetActionsMove);
                        out.push(DestOutput::AcceptUriList);
                        out.push(DestOutput::OfferStarted);
                        DndOfferState::HandlingOffer {
                            mimes: clone_mimes(mimes),
                            actions: DndActions { copy: false, move_action: false },
                        }
                    } else {
                        DndOfferState::OutsideWidget {
                            mimes: clone_mimes(mimes),
                            actions: DndActions { copy: false, move_action: false },
                        }
                    }
                },
                DestEvent::DropPerformed => DndOfferState::Idle,
                DestEvent::Leave => DndOfferState::Idle,
                _ => DndOfferState::OutsideWidget {
                    mimes: clone_mimes(mimes),
                    actions: *actions,
                },
            },
            DndOfferState::HandlingOffer { mimes, actions } => match &e {
                DestEvent::Motion { x, y } => {
                    if self.bounds.contains(*x, *y) {
                        out.push(DestOutput::SetActionsMove);
                        DndOfferState::HandlingOffer {
                            mimes: clone_mimes(mimes),
                            actions: DndActions { copy: false, move_action: false },
                        }
                    } else {
                        out.push(DestOutput::OfferLeft);
                        out.push(DestOutput::AcceptNone);
                        DndOfferState::OutsideWidget {
                            mimes: clone_mimes(mimes),
                            actions: DndActions { copy: false, move_action: false },
                        }
                    }
                },
                DestEvent::Leave => {
                    out.push(DestOutput::OfferLeft);
                    DndOfferState::Idle
                },
                DestEvent::SourceActions(a) => {
                    out.push(DestOutput::SetActionsMove);
                    DndOfferState::HandlingOffer { mimes: clone_mimes(mimes), actions: *a }
                },
                DestEvent::DropPerformed => {
                    out.push(DestOutput::SetActionsMove);
                    out.push(DestOutput::AcceptUriList);
                    out.push(DestOutput::RequestUriListData);
                    DndOfferState::Dropped
                },
                _ => DndOfferState::HandlingOffer {
                    mimes: clone_mimes(mimes),
                    actions: *actions,
                },
            },
            DndOfferState::Dropped => match &e {
                DestEvent::DndData { mime_type, data } => {
                    match crate::payload::AppletString::try_from_mime_data(
                        data.as_slice(),
                        mime_type.as_str(),
                    ) {
                        Option::Some(payload) => {
                            out.push(DestOutput::DropFinished { path: payload.0 });
                            out.push(DestOutput::DndFinished);
                        },
                        Option::None => {},
                    }
                    DndOfferState::Idle
                },
                DestEvent::Leave => {
                    out.push(DestOutput::OfferLeft);
                    DndOfferState::Idle
                },
                _ => DndOfferState::Dropped,
            },
        };
        self.state = next;
        out
    }
}

/// Whether a state claims the offer: the widget is handling it or has
/// already received the drop.
pub open spec fn claims_offer(s: OfferStateV) -> bool {
    s is HandlingV || s is DroppedV
}

/// The state after a sequence of offer events, for a widget with bounds
/// `b`.
pub open spec fn dest_run(s: OfferStateV, evs: Seq<DestEventV>, b: Rect) -> OfferStateV
    decreases evs.len(),
{
    if evs.len() == 0 {
        s
    } else {
        dest_run(dest_next(s, evs[0], b), evs.drop_first(), b)
    }
}

/// The protocol phase of one offer, as the compositor delivers it: no
/// drag on the surface, a drag at a current point, or a performed drop
/// awaiting its payload.
pub enum OfferPhase {
    Out,
    In { cur_x: i32, cur_y: i32 },
    AfterDrop,
}

/// The phase after one event, or nothing when the event cannot occur in
/// that phase of the protocol.
pub open spec fn phase_next(ph: OfferPhase, e: DestEventV) -> Option<OfferPhase> {
    match ph {
        OfferPhase::Out => match e {
            DestEventV::SourceActionsV { .. } => Option::Some(OfferPhase::Out),
            DestEventV::EnterV { x, y, .. } => Option::Some(OfferPhase::In { cur_x: x, cur_y: y }),
            _ => Option::None,
        },
        OfferPhase::In { .. } => match e {
            DestEventV::MotionV { x, y } => Option::Some(OfferPhase::In { cur_x: x, cur_y: y }),
            DestEventV::SourceActionsV { .. } => Option::Some(ph),
            DestEventV::LeaveV => Option::Some(OfferPhase::Out),
            DestEventV::DropPerformedV => Option::Some(OfferPhase::AfterDrop),
            _ => Option::None,
        },
        OfferPhase::AfterDrop => match e {
            DestEventV::DndDataV { .. } => Option::Some(OfferPhase::Out),
            DestEventV::LeaveV => Option::Some(OfferPhase::Out),
            DestEventV::SourceActionsV { .. } => Option::Some(OfferPhase::AfterDrop),
            _ => Option::None,
        },
    }
}

/// The event sequence follows the offer protocol from phase `ph` on.
pub open spec fn wf_offer_trace(ph: OfferPhase, evs: Seq<DestEventV>) -> bool
    decreases evs.len(),
{
    evs.len() == 0 || match phase_next(ph, evs[0]) {
        Option::Some(ph2) => wf_offer_trace(ph2, evs.drop_first()),
        Option::None => false,
    }
}

/// How one widget's state relates to the offer phase: no claim without
/// a drag, and a claimed in-flight offer has the current point inside
/// the widget's bounds.
spec fn phase_inv(ph: OfferPhase, s: OfferStateV, b: Rect) -> bool {
    match ph {
        OfferPhase::Out => !claims_offer(s),
        OfferPhase::In { cur_x, cur_y } => !(s is DroppedV) && (s is HandlingV ==> rect_contains(
            b,
            cur_x as int,
            cur_y as int,
        )),
        OfferPhase::AfterDrop => !(s is HandlingV),
    }
}

proof fn lemma_phase_inv_step(ph: OfferPhase, s: OfferStateV, e: DestEventV, b: Rect)
    requires
        phase_inv(ph, s, b),
        phase_next(ph, e) is Some,
    ensures
        phase_inv(phase_next(ph, e)->0, dest_next(s, e, b), b),
{
}

/// One protocol step keeps two widgets with disjoint bounds from both
/// claiming the offer.
proof fn lemma_pair_step(
    ph: OfferPhase,
    sa: OfferStateV,
    sb: OfferStateV,
    e: DestEventV,
    ba: Rect,
    bb: Rect,
)
    requires
        disjoint_rects(ba, bb),
        phase_inv(ph, sa, ba),
        phase_inv(ph, sb, bb),
        !(claims_offer(sa) && claims_offer(sb)),
        phase_next(ph, e) is Some,
    ensures
        phase_inv(phase_next(ph, e)->0, dest_next(sa, e, ba), ba),
        phase_inv(phase_next(ph, e)->0, dest_next(sb, e, bb), bb),
        !(claims_offer(dest_next(sa, e, ba)) && claims_offer(dest_next(sb, e, bb))),
{
    lemma_phase_inv_step(ph, sa, e, ba);
    lemma_phase_inv_step(ph, sb, e, bb);
    let ph2 = phase_next(ph, e)->0;
    let sa2 = dest_next(sa, e, ba);
    let sb2 = dest_next(sb, e, bb);
    if claims_offer(sa2) && claims_offer(sb2) {
        match ph2 {
            OfferPhase::Out => {},
            OfferPhase::In { cur_x, cur_y } => {
                assert(rect_contains(ba, cur_x as int, cur_y as int));
                assert(rect_contains(bb, cur_x as int, cur_y as int));
                assert(!(rect_contains(ba, cur_x as int, cur_y as int) && rect_contains(
                    bb,
                    cur_x as int,
                    cur_y as int,
                )));
            },
            OfferPhase::AfterDrop => {
                // the drop was performed while the offer was in flight:
                // only a widget that was handling it keeps a claim, and
                // only one widget could have been handling it
                match ph {
                    OfferPhase::In { cur_x, cur_y } => {
                        assert(sa2 is DroppedV ==> sa is HandlingV);
                        assert(sb2 is DroppedV ==> sb is HandlingV);
                        assert(rect_contains(ba, cur_x as int, cur_y as int));
                        assert(rect_contains(bb, cur_x as int, cur_y as int));
                        assert(!(rect_contains(ba, cur_x as int, cur_y as int) && rect_contains(
                            bb,
                            cur_x as int,
                            cur_y as int,
                        )));
                    },
                    OfferPhase::AfterDrop => {
                        assert(claims_offer(sa) && claims_offer(sb));
                    },
                    OfferPhase::Out => {},
                }
            },
        }
    }
}

proof fn lemma_exclusive_run(
    ph: OfferPhase,
    sa: OfferStateV,
    sb: OfferStateV,
    evs: Seq<DestEventV>,
    ba: Rect,
    bb: Rect,
)
    requires
        disjoint_rects(ba, bb),
        phase_inv(ph, sa, ba),
        phase_inv(ph, sb, bb),
        !(claims_offer(sa) && claims_offer(sb)),
        wf_offer_trace(ph, evs),
    ensures
        !(claims_offer(dest_run(sa, evs, ba)) && claims_offer(dest_run(sb, evs, bb))),
    decreases evs.len(),
{
    if evs.len() > 0 {
        let e = evs[0];
        lemma_pair_step(ph, sa, sb, e, ba, bb);
        lemma_exclusive_run(
            phase_next(ph, e)->0,
            dest_next(sa, e, ba),
            dest_next(sb, e, bb),
            evs.drop_first(),
            ba,
            bb,
        );
    }
}

/// Geometry exclusivity: two destination widgets with disjoint bounds,
/// both starting idle and observing the same protocol-conforming event
/// stream for one offer, are never both claiming the offer.
pub proof fn lemma_geometry_exclusive(evs: Seq<DestEventV>, ba: Rect, bb: Rect)
    requires
        disjoint_rects(ba, bb),
        wf_offer_trace(OfferPhase::Out, evs),
    ensures
        !(claims_offer(dest_run(OfferStateV::IdleV, evs, ba)) && claims_offer(
            dest_run(OfferStateV::IdleV, evs, bb),
        )),
{
    lemma_exclusive_run(OfferPhase::Out, OfferStateV::IdleV, OfferStateV::IdleV, evs, ba, bb);
}

} // verus!
