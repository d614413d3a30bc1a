//! The readiness tracker, driven through interleaved loading orders.

use tilemap_loader::records::{ObjectReference, RawMapData, SpritesheetData, TemplateData};
use tilemap_loader::tracker::{
    all_ready, map_ready, sheet_ready, template_ready, MapLoadState, MapTracker, StoreSnapshot,
};

fn empty_store() -> StoreSnapshot {
    StoreSnapshot { maps: vec![], spritesheets: vec![], templates: vec![], images: vec![] }
}

fn synthetic_map(n_objects: u16) -> RawMapData {
    let mut objects = Vec::new();
    for i in 0..n_objects {
        objects.push(ObjectReference {
            id: i,
            template: format!("tpl{i}.tx").into_bytes(),
            x: 0,
            y: 0,
            properties: vec![],
        });
    }
    RawMapData {
        width: 1,
        height: 1,
        data: vec![0],
        objects,
        sprite_sheet: b"sheet.tsx".to_vec(),
    }
}

fn sheet(image: &str) -> SpritesheetData {
    SpritesheetData { tile_width: 16, columns: 10, sprite: image.as_bytes().to_vec() }
}

fn template(i: u16) -> TemplateData {
    TemplateData {
        sprite_sheet: format!("tpl_sheet{i}.tsx").into_bytes(),
        sprite_idx: 1,
        properties: vec![],
    }
}

/// Every step of one loading order: what to add to the store, in order.
enum Step {
    MapRecord,
    MapSheet,
    MapImage,
    Template(u16),
    TemplateSheet(u16),
    TemplateImage(u16),
}

fn apply(store: &mut StoreSnapshot, step: &Step, n_objects: u16) {
    match step {
        Step::MapRecord => store.maps.push((b"0.tmx".to_vec(), synthetic_map(n_objects))),
        Step::MapSheet => store.spritesheets.push((b"sheet.tsx".to_vec(), sheet("img.png"))),
        Step::MapImage => store.images.push(b"img.png".to_vec()),
        Step::Template(i) => store
            .templates
            .push((format!("tpl{i}.tx").into_bytes(), template(*i))),
        Step::TemplateSheet(i) => store
            .spritesheets
            .push((format!("tpl_sheet{i}.tsx").into_bytes(), sheet(&format!("timg{i}.png")))),
        Step::TemplateImage(i) => store.images.push(format!("timg{i}.png").into_bytes()),
    }
}

fn run_order(steps: Vec<Step>, n_objects: u16) {
    let mut store = empty_store();
    let mut tracker = MapTracker::new(vec![b"0.tmx".to_vec()]);
    let total = steps.len();
    let mut signals = 0;
    for (done_so_far, step) in steps.iter().enumerate() {
        // Done must never be reached while a branch is still missing.
        assert_eq!(tracker.state, MapLoadState::Loading, "early at {done_so_far}");
        apply(&mut store, step, n_objects);
        if tracker.tick(&store) {
            signals += 1;
        }
        if done_so_far + 1 < total {
            assert_eq!(tracker.state, MapLoadState::Loading);
        }
    }
    // Once every branch has materialized, one tick suffices.
    assert_eq!(tracker.state, MapLoadState::Done);
    assert_eq!(signals, 1);
    // The signal is edge-triggered and the state never reverts, even
    // against a store that has forgotten everything.
    assert!(!tracker.tick(&store));
    assert!(!tracker.tick(&empty_store()));
    assert_eq!(tracker.state, MapLoadState::Done);
}

#[test]
fn tracker_reaches_done_in_file_order() {
    run_order(
        vec![
            Step::MapRecord,
            Step::MapSheet,
            Step::MapImage,
            Step::Template(0),
            Step::TemplateSheet(0),
            Step::TemplateImage(0),
            Step::Template(1),
            Step::TemplateSheet(1),
            Step::TemplateImage(1),
        ],
        2,
    );
}

#[test]
fn tracker_reaches_done_in_interleaved_order() {
    run_order(
        vec![
            Step::Template(1),
            Step::TemplateSheet(0),
            Step::MapRecord,
            Step::TemplateImage(0),
            Step::Template(0),
            Step::MapImage,
            Step::TemplateSheet(1),
            Step::TemplateImage(1),
            Step::MapSheet,
        ],
        2,
    );
}

#[test]
fn tracker_waits_for_the_map_itself() {
    let mut store = empty_store();
    let mut tracker = MapTracker::new(vec![b"0.tmx".to_vec()]);
    apply(&mut store, &Step::MapSheet, 0);
    apply(&mut store, &Step::MapImage, 0);
    assert!(!tracker.tick(&store));
    assert_eq!(tracker.state, MapLoadState::Loading);
    apply(&mut store, &Step::MapRecord, 0);
    assert!(tracker.tick(&store));
    assert_eq!(tracker.state, MapLoadState::Done);
}

#[test]
fn tracker_with_no_maps_is_immediately_done() {
    let mut tracker = MapTracker::new(vec![]);
    assert!(tracker.tick(&empty_store()));
    assert_eq!(tracker.state, MapLoadState::Done);
}

#[test]
fn branch_checks_inspect_each_level() {
    let mut store = empty_store();
    assert!(!sheet_ready(&store, b"sheet.tsx"));
    store.spritesheets.push((b"sheet.tsx".to_vec(), sheet("img.png")));
    assert!(!sheet_ready(&store, b"sheet.tsx"));
    store.images.push(b"img.png".to_vec());
    assert!(sheet_ready(&store, b"sheet.tsx"));

    assert!(!template_ready(&store, b"tpl0.tx"));
    store.templates.push((b"tpl0.tx".to_vec(), template(0)));
    assert!(!template_ready(&store, b"tpl0.tx"));
    store
        .spritesheets
        .push((b"tpl_sheet0.tsx".to_vec(), sheet("timg0.png")));
    assert!(!template_ready(&store, b"tpl0.tx"));
    store.images.push(b"timg0.png".to_vec());
    assert!(template_ready(&store, b"tpl0.tx"));

    let map = synthetic_map(1);
    assert!(map_ready(&store, &map));
    assert!(!all_ready(&store, &vec![b"0.tmx".to_vec()]));
    store.maps.push((b"0.tmx".to_vec(), map));
    assert!(all_ready(&store, &vec![b"0.tmx".to_vec()]));
}

#[test]
fn default_state_is_loading() {
    assert_eq!(MapLoadState::default(), MapLoadState::Loading);
}
