use allroads::colors::{color_hex, parse_color};
use allroads::dialogs::FeatureDialogState;
use allroads::models::{Feature, Quarter};
use allroads::roadmap::{DialogState, RoadmapApp};

fn feature(id: &str) -> Feature {
    Feature {
        id: id.to_string(),
        title: id.to_uppercase(),
        description: String::new(),
        completed: false,
        status: "Planned".to_string(),
        color: "#4CAF50".to_string(),
    }
}

fn app_with(quarters: Vec<Quarter>) -> RoadmapApp {
    RoadmapApp { quarters, current_file: None, status_text: "Ready".to_string(), dialog_state: DialogState::Closed }
}

fn ids(app: &RoadmapApp) -> Vec<Vec<String>> {
    app.quarters.iter().map(|q| q.features.iter().map(|f| f.id.clone()).collect()).collect()
}

fn two_quarters() -> RoadmapApp {
    let mut q1 = Quarter::new(2025, 1);
    q1.features = vec![feature("a"), feature("b")];
    let mut q2 = Quarter::new(2025, 2);
    q2.features = vec![feature("c")];
    app_with(vec![q1, q2])
}

#[test]
fn parse_colors() {
    assert_eq!(parse_color("#FF9800"), (255, 152, 0));
    assert_eq!(parse_color("##00bcd4"), (0, 188, 212));
    assert_eq!(parse_color("+F+F+F"), (15, 15, 15));
    assert_eq!(parse_color("#12345"), (33, 150, 243));
    assert_eq!(parse_color("#GG0000"), (33, 150, 243));
    assert_eq!(parse_color(""), (33, 150, 243));
    assert_eq!(color_hex(0x0a, 0xbc, 0xff), "#0ABCFF");
    for (r, g, b) in [(0, 0, 0), (255, 1, 16), (33, 150, 243)] {
        assert_eq!(parse_color(&color_hex(r, g, b)), (r, g, b));
    }
}

#[test]
fn dialog_to_feature() {
    let mut d = FeatureDialogState::default();
    assert_eq!(d.status, "Planned");
    assert_eq!(d.color, "#2196F3");
    assert!(d.to_feature("x").is_none());
    d.title = "  Ship it ".to_string();
    d.description = "\tnow\n".to_string();
    d.select_status("Completed");
    let f = d.to_feature("f_1").unwrap();
    assert_eq!(f.id, "f_1");
    assert_eq!(f.title, "Ship it");
    assert_eq!(f.description, "now");
    assert!(f.completed);
    let back = FeatureDialogState::from_feature(&f);
    assert_eq!(back.title, "Ship it");
    assert_eq!(back.status, "Completed");
}

#[test]
fn quarters_grow_and_shrink() {
    let mut app = app_with(Vec::new());
    app.initialize_quarters(2025, 11);
    let names: Vec<String> = app.quarters.iter().map(|q| q.name()).collect();
    assert_eq!(names, vec!["Q4 2025", "Q1 2026", "Q2 2026", "Q3 2026"]);
    app.add_quarter(1999);
    assert_eq!(app.quarters.last().unwrap().name(), "Q4 2026");
    assert_eq!(app.status_text, "Added Q4 2026");
    app.add_quarter(2000);
    assert_eq!(app.quarters.last().unwrap().name(), "Q1 2027");
    app.remove_quarter();
    assert_eq!(app.status_text, "Removed last quarter");
    app.remove_quarter_at(0);
    assert_eq!(app.status_text, "Removed Q4 2025");
    app.remove_quarter_at(10);
    assert_eq!(app.quarters.len(), 4);
    app.clear_all();
    assert!(app.quarters.is_empty());
    app.add_quarter(2030);
    assert_eq!(app.quarters[0].name(), "Q1 2030");
}

#[test]
fn new_roadmap_starts_at_today() {
    let mut app = RoadmapApp::starting_at(2025, 5);
    let names: Vec<String> = app.quarters.iter().map(|q| q.name()).collect();
    assert_eq!(names, vec!["Q2 2025", "Q3 2025", "Q4 2025", "Q1 2026"]);
    assert_eq!(app.status_text, "Ready");
    assert_eq!(app.dialog_state, DialogState::Closed);
    app.current_file = Some("x.json".to_string());
    app.new_roadmap(2026, 12);
    let names: Vec<String> = app.quarters.iter().map(|q| q.name()).collect();
    assert_eq!(names, vec!["Q4 2026", "Q1 2027", "Q2 2027", "Q3 2027"]);
    assert!(app.current_file.is_none());
    assert_eq!(app.status_text, "New roadmap created");
}

#[test]
fn templates_fill_two_per_quarter() {
    let mut app = app_with(Vec::new());
    app.load_template("web", 2024);
    assert_eq!(app.quarters.len(), 4);
    assert_eq!(app.quarters[3].features.len(), 1);
    let f = &app.quarters[1].features[1];
    assert_eq!(f.id, "feature_web_1_1");
    assert_eq!(f.title, "Authentication System");
    assert_eq!(f.description, "Implementation of Authentication System");
    assert_eq!(f.color, "#2196F3");
    assert_eq!(app.quarters[2].name(), "Q3 2024");
    assert_eq!(app.status_text, "Loaded web template");
    app.load_template("unknown", 2024);
    assert!(app.quarters.is_empty());
}

#[test]
fn moves_between_and_within_quarters() {
    let mut app = two_quarters();
    app.move_feature_up(0, 1);
    assert_eq!(ids(&app), vec![vec!["b", "a"], vec!["c"]]);
    app.move_feature_down(0, 0);
    assert_eq!(ids(&app), vec![vec!["a", "b"], vec!["c"]]);
    app.move_feature_up(1, 0);
    assert_eq!(ids(&app), vec![vec!["a", "b", "c"], vec![]]);
    app.move_feature_down(0, 2);
    assert_eq!(ids(&app), vec![vec!["a", "b"], vec!["c"]]);
    app.move_feature_up(0, 0);
    assert_eq!(ids(&app), vec![vec!["a", "b"], vec!["c"]]);
    app.move_feature_down(1, 0);
    assert_eq!(ids(&app), vec![vec!["a", "b"], vec!["c"]]);
}

#[test]
fn feature_edits() {
    let mut app = two_quarters();
    let mut d = FeatureDialogState::default();
    d.title = "New".to_string();
    app.open_dialog(DialogState::AddFeature { quarter_idx: 1 });
    app.submit_add_feature(1, &d);
    assert_eq!(ids(&app)[1], vec!["c", "feature_1"]);
    assert_eq!(app.status_text, "Added feature: New");
    assert!(app.dialog_state == DialogState::Closed);
    d.title = "Renamed".to_string();
    app.submit_edit_feature(0, 0, &d);
    assert_eq!(app.quarters[0].features[0].id, "a");
    assert_eq!(app.quarters[0].features[0].title, "Renamed");
    assert_eq!(app.status_text, "Updated feature: Renamed");
    app.set_feature_status(0, 1, "Completed".to_string());
    assert!(app.quarters[0].features[1].completed);
    assert_eq!(app.status_text, "Updated status to: Completed");
    app.set_feature_status(0, 1, "Testing".to_string());
    assert!(!app.quarters[0].features[1].completed);
    app.remove_feature(0, 0);
    assert_eq!(ids(&app)[0], vec!["b"]);
    let blank = FeatureDialogState::default();
    app.submit_add_feature(0, &blank);
    assert_eq!(ids(&app)[0], vec!["b"]);
    app.opened("r.json".to_string(), Vec::new());
    assert_eq!(app.status_text, "Opened roadmap");
    app.saved("s.json".to_string());
    assert_eq!(app.current_file.as_deref(), Some("s.json"));
}

#[test]
fn removing_the_added_quarter_restores_the_roadmap() {
    let mut app = two_quarters();
    let before: Vec<String> = app.quarters.iter().map(|q| q.name()).collect();
    let features_before = ids(&app);
    app.add_quarter(2031);
    assert_eq!(app.quarters.len(), 3);
    app.remove_quarter();
    let after: Vec<String> = app.quarters.iter().map(|q| q.name()).collect();
    assert_eq!(after, before);
    assert_eq!(ids(&app), features_before);
}

#[test]
fn unchanged_dialog_gives_the_feature_back() {
    let mut f = feature("x");
    f.description = "Details".to_string();
    let back = FeatureDialogState::from_feature(&f).to_feature(&f.id).unwrap();
    assert_eq!(back.id, f.id);
    assert_eq!(back.title, f.title);
    assert_eq!(back.description, f.description);
    assert_eq!(back.completed, f.completed);
    assert_eq!(back.status, f.status);
    assert_eq!(back.color, f.color);
}

#[test]
fn window_features_get_drawn_ids() {
    assert_eq!(RoadmapApp::drawn_feature_id(0), "f_0");
    assert_eq!(RoadmapApp::drawn_feature_id(18446744073709551615), "f_18446744073709551615");
    let mut app = two_quarters();
    let mut dialog = FeatureDialogState::default();
    dialog.title = "  New thing ".to_string();
    app.open_dialog(DialogState::AddFeature { quarter_idx: 1 });
    app.submit_add_feature_drawn(1, &dialog, 42);
    assert_eq!(ids(&app), vec![vec!["a", "b"], vec!["c", "f_42"]]);
    assert_eq!(app.status_text, "Added feature: New thing");
    assert_eq!(app.dialog_state, DialogState::Closed);
    dialog.title = "   ".to_string();
    app.submit_add_feature_drawn(0, &dialog, 7);
    assert_eq!(ids(&app)[0], vec!["a", "b"]);
}
