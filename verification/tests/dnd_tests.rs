use app_library::dnd_dest::{DestEvent, DestOutput, DndOfferState, DragDest, Rect};
use app_library::dnd_source::{
    DndActions, DragSource, Point, SourceEvent, SourceOutput, SourceState,
};
use app_library::entry::DesktopEntryData;
use app_library::group::{AppGroup, AppLibraryConfig, FilterType};

fn source() -> DragSource {
    DragSource::new("/usr/share/applications/writer.desktop".to_string())
}

fn uri_list() -> Vec<String> {
    vec!["text/uri-list".to_string()]
}

fn claiming(state: &DndOfferState) -> bool {
    matches!(state, DndOfferState::HandlingOffer { .. } | DndOfferState::Dropped)
}

#[test]
fn short_move_does_not_start_a_drag() {
    let mut src = source();
    assert!(src.handle_event(SourceEvent::Press(Point { x: 10, y: 10 })).is_empty());
    // squared displacement 16 is under the threshold of 25
    let out = src.handle_event(SourceEvent::PointerMove(Point { x: 14, y: 10 }));
    assert!(out.is_empty());
    assert!(matches!(src.state, SourceState::Pressed(_)));
}

#[test]
fn threshold_is_compared_against_squared_distance() {
    // the squared displacement is compared against the constant 25
    // itself, so a 5-unit displacement (squared: 25) does not start a
    // drag and a 6-unit displacement (squared: 36) does
    let mut src = source();
    src.handle_event(SourceEvent::Press(Point { x: 0, y: 0 }));
    assert!(src.handle_event(SourceEvent::PointerMove(Point { x: 5, y: 0 })).is_empty());
    let out = src.handle_event(SourceEvent::PointerMove(Point { x: 6, y: 0 }));
    assert_eq!(out.len(), 1);
    match &out[0] {
        SourceOutput::StartDrag { mimes, actions, path } => {
            assert_eq!(mimes, &uri_list());
            assert_eq!(actions, &DndActions { copy: true, move_action: true });
            assert_eq!(path, "/usr/share/applications/writer.desktop");
        }
        other => panic!("expected a start-drag request, got {:?}", other),
    }
}

#[test]
fn at_most_one_drag_per_press() {
    let mut src = source();
    src.handle_event(SourceEvent::Press(Point { x: 0, y: 0 }));
    let mut starts = 0;
    for p in [
        Point { x: 2, y: 0 },
        Point { x: 20, y: 0 },
        Point { x: 40, y: 0 },
        Point { x: 80, y: 0 },
    ] {
        let out = src.handle_event(SourceEvent::PointerMove(p));
        starts += out
            .iter()
            .filter(|o| matches!(o, SourceOutput::StartDrag { .. }))
            .count();
    }
    assert_eq!(starts, 1);
}

#[test]
fn finish_reports_negotiated_move() {
    let mut src = source();
    src.handle_event(SourceEvent::Press(Point { x: 0, y: 0 }));
    src.handle_event(SourceEvent::PointerMove(Point { x: 10, y: 0 }));
    src.handle_event(SourceEvent::ActionAccepted(DndActions { copy: false, move_action: true }));
    let out = src.handle_event(SourceEvent::Finished);
    assert_eq!(out.len(), 1);
    assert!(matches!(out[0], SourceOutput::Finish { is_move: true }));
    assert!(matches!(src.state, SourceState::Idle));
}

#[test]
fn finish_reports_copy_when_move_not_accepted() {
    let mut src = source();
    src.handle_event(SourceEvent::Press(Point { x: 0, y: 0 }));
    src.handle_event(SourceEvent::PointerMove(Point { x: 10, y: 0 }));
    src.handle_event(SourceEvent::ActionAccepted(DndActions { copy: true, move_action: false }));
    let out = src.handle_event(SourceEvent::Finished);
    assert!(matches!(out[0], SourceOutput::Finish { is_move: false }));
}

#[test]
fn cancelled_drag_reports_cancel() {
    let mut src = source();
    src.handle_event(SourceEvent::Press(Point { x: 0, y: 0 }));
    src.handle_event(SourceEvent::PointerMove(Point { x: 10, y: 0 }));
    let out = src.handle_event(SourceEvent::Cancelled);
    assert_eq!(out.len(), 1);
    assert!(matches!(out[0], SourceOutput::Cancel));
    assert!(matches!(src.state, SourceState::Idle));
}

#[test]
fn enter_inside_claims_the_offer() {
    let mut dest = DragDest::new(Rect { x: 0, y: 0, width: 10, height: 10 });
    let out = dest.handle_event(DestEvent::Enter { x: 5, y: 5, mimes: uri_list() });
    assert_eq!(out.len(), 3);
    assert!(matches!(out[0], DestOutput::SetActionsMove));
    assert!(matches!(out[1], DestOutput::AcceptUriList));
    assert!(matches!(out[2], DestOutput::OfferStarted));
    assert!(claiming(&dest.state));
}

#[test]
fn enter_without_uri_list_is_ignored() {
    let mut dest = DragDest::new(Rect { x: 0, y: 0, width: 10, height: 10 });
    let out = dest.handle_event(DestEvent::Enter {
        x: 5,
        y: 5,
        mimes: vec!["text/plain".to_string()],
    });
    assert!(out.is_empty());
    assert!(matches!(dest.state, DndOfferState::Idle));
}

#[test]
fn source_actions_first_then_motion_inside_claims() {
    // an offer announced through its action set alone carries no mime
    // list; a later motion into the widget still claims it
    let mut dest = DragDest::new(Rect { x: 0, y: 0, width: 10, height: 10 });
    let out = dest.handle_event(DestEvent::SourceActions(DndActions {
        copy: true,
        move_action: true,
    }));
    assert!(out.is_empty());
    assert!(matches!(dest.state, DndOfferState::OutsideWidget { .. }));
    let out = dest.handle_event(DestEvent::Motion { x: 3, y: 3 });
    assert_eq!(out.len(), 3);
    assert!(claiming(&dest.state));
}

#[test]
fn drop_outside_the_widget_resets_it() {
    let mut dest = DragDest::new(Rect { x: 0, y: 0, width: 10, height: 10 });
    dest.handle_event(DestEvent::Enter { x: 50, y: 50, mimes: uri_list() });
    assert!(matches!(dest.state, DndOfferState::OutsideWidget { .. }));
    let out = dest.handle_event(DestEvent::DropPerformed);
    assert!(out.is_empty());
    assert!(matches!(dest.state, DndOfferState::Idle));
}

#[test]
fn disjoint_widgets_never_both_claim() {
    let mut a = DragDest::new(Rect { x: 0, y: 0, width: 10, height: 10 });
    let mut b = DragDest::new(Rect { x: 20, y: 0, width: 10, height: 10 });
    let events = [
        DestEvent::Enter { x: 5, y: 5, mimes: uri_list() },
        DestEvent::Motion { x: 8, y: 5 },
        DestEvent::Motion { x: 25, y: 5 },
        DestEvent::Motion { x: 15, y: 5 },
        DestEvent::Motion { x: 2, y: 2 },
        DestEvent::DropPerformed,
    ];
    for e in events {
        let ea = clone_event(&e);
        a.handle_event(ea);
        b.handle_event(e);
        assert!(!(claiming(&a.state) && claiming(&b.state)));
    }
    assert!(matches!(a.state, DndOfferState::Dropped));
    assert!(matches!(b.state, DndOfferState::Idle));
}

fn clone_event(e: &DestEvent) -> DestEvent {
    match e {
        DestEvent::SourceActions(a) => DestEvent::SourceActions(*a),
        DestEvent::Enter { x, y, mimes } => {
            DestEvent::Enter { x: *x, y: *y, mimes: mimes.clone() }
        }
        DestEvent::Motion { x, y } => DestEvent::Motion { x: *x, y: *y },
        DestEvent::Leave => DestEvent::Leave,
        DestEvent::DropPerformed => DestEvent::DropPerformed,
        DestEvent::DndData { mime_type, data } => {
            DestEvent::DndData { mime_type: mime_type.clone(), data: data.clone() }
        }
    }
}

fn dropped_dest() -> DragDest {
    let mut dest = DragDest::new(Rect { x: 0, y: 0, width: 10, height: 10 });
    dest.handle_event(DestEvent::Enter { x: 5, y: 5, mimes: uri_list() });
    let out = dest.handle_event(DestEvent::DropPerformed);
    assert_eq!(out.len(), 3);
    assert!(matches!(out[2], DestOutput::RequestUriListData));
    assert!(matches!(dest.state, DndOfferState::Dropped));
    dest
}

#[test]
fn delivered_payload_finishes_the_drop() {
    let mut dest = dropped_dest();
    let out = dest.handle_event(DestEvent::DndData {
        mime_type: "text/uri-list".to_string(),
        data: b"file:///usr/share/applications/writer.desktop".to_vec(),
    });
    assert_eq!(out.len(), 2);
    match &out[0] {
        DestOutput::DropFinished { path } => {
            assert_eq!(path, "/usr/share/applications/writer.desktop");
        }
        other => panic!("expected a finished drop, got {:?}", other),
    }
    assert!(matches!(out[1], DestOutput::DndFinished));
    assert!(matches!(dest.state, DndOfferState::Idle));
}

#[test]
fn mismatched_mime_drops_the_payload_silently() {
    let mut dest = dropped_dest();
    let out = dest.handle_event(DestEvent::DndData {
        mime_type: "text/plain".to_string(),
        data: b"file:///usr/share/applications/writer.desktop".to_vec(),
    });
    assert!(out.is_empty());
    assert!(matches!(dest.state, DndOfferState::Idle));
}

#[test]
fn undecodable_payload_is_dropped_silently() {
    let mut dest = dropped_dest();
    let out = dest.handle_event(DestEvent::DndData {
        mime_type: "text/uri-list".to_string(),
        data: b"not a uri at all".to_vec(),
    });
    assert!(out.is_empty());
    assert!(matches!(dest.state, DndOfferState::Idle));
}

#[test]
fn motion_out_of_bounds_releases_the_offer() {
    let mut dest = DragDest::new(Rect { x: 0, y: 0, width: 10, height: 10 });
    dest.handle_event(DestEvent::Enter { x: 5, y: 5, mimes: uri_list() });
    let out = dest.handle_event(DestEvent::Motion { x: 50, y: 5 });
    assert_eq!(out.len(), 2);
    assert!(matches!(out[0], DestOutput::OfferLeft));
    assert!(matches!(out[1], DestOutput::AcceptNone));
    assert!(matches!(dest.state, DndOfferState::OutsideWidget { .. }));
}

#[test]
fn unexpected_events_in_idle_are_ignored() {
    let mut dest = DragDest::new(Rect { x: 0, y: 0, width: 10, height: 10 });
    assert!(dest.handle_event(DestEvent::Motion { x: 5, y: 5 }).is_empty());
    assert!(dest.handle_event(DestEvent::Leave).is_empty());
    assert!(dest
        .handle_event(DestEvent::DndData { mime_type: "text/uri-list".to_string(), data: vec![] })
        .is_empty());
    assert!(matches!(dest.state, DndOfferState::Idle));
}

fn writer_entry() -> DesktopEntryData {
    DesktopEntryData {
        id: "writer".to_string(),
        name: "Writer".to_string(),
        exec_line: None,
        icon: None,
        categories: vec!["Office".to_string()],
        path: Some("/usr/share/applications/writer.desktop".to_string()),
        actions: Vec::new(),
    }
}

fn office_config() -> AppLibraryConfig {
    AppLibraryConfig {
        groups: vec![AppGroup {
            name: "Office".to_string(),
            icon: "folder-symbolic".to_string(),
            filter: FilterType::Categories {
                categories: vec!["Office".to_string()],
                included: Vec::new(),
                exclude: Vec::new(),
            },
        }],
    }
}

#[test]
fn finished_move_removes_entry_from_origin_group() {
    let mut config = office_config();
    let entries = vec![writer_entry()];
    assert_eq!(config.filtered(1, "", &entries).len(), 1);

    let mut src = source();
    src.handle_event(SourceEvent::Press(Point { x: 0, y: 0 }));
    src.handle_event(SourceEvent::PointerMove(Point { x: 10, y: 0 }));
    src.handle_event(SourceEvent::ActionAccepted(DndActions { copy: false, move_action: true }));
    let out = src.handle_event(SourceEvent::Finished);
    match out[0] {
        SourceOutput::Finish { is_move } => config.on_drag_finished(1, "writer", is_move),
        _ => panic!("expected the finish report"),
    }
    assert_eq!(config.filtered(1, "", &entries).len(), 0);
}

#[test]
fn finished_copy_leaves_origin_group_unchanged() {
    let mut config = office_config();
    let entries = vec![writer_entry()];

    let mut src = source();
    src.handle_event(SourceEvent::Press(Point { x: 0, y: 0 }));
    src.handle_event(SourceEvent::PointerMove(Point { x: 10, y: 0 }));
    src.handle_event(SourceEvent::ActionAccepted(DndActions { copy: true, move_action: false }));
    let out = src.handle_event(SourceEvent::Finished);
    match out[0] {
        SourceOutput::Finish { is_move } => config.on_drag_finished(1, "writer", is_move),
        _ => panic!("expected the finish report"),
    }
    assert_eq!(config.filtered(1, "", &entries).len(), 1);
}
