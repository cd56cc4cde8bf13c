use allroads::models::{default_color, default_status, Quarter};
use allroads::templates::get_template;

#[test]
fn quarter_name_and_span() {
    let q = Quarter::new(2025, 1);
    assert_eq!(q.name(), "Q1 2025");
    assert_eq!(q.date_range(), "Jan 01 - Mar 31");
    assert_eq!(Quarter::new(2025, 2).date_range(), "Apr 01 - Jun 30");
    assert_eq!(Quarter::new(2025, 3).date_range(), "Jul 01 - Sep 30");
    assert_eq!(Quarter::new(2025, 4).date_range(), "Oct 01 - Dec 31");
    assert!(q.features.is_empty());
}

#[test]
fn feature_defaults() {
    assert_eq!(default_status(), "Planned");
    assert_eq!(default_color(), "#2196F3");
}

#[test]
fn templates_have_seven_titles() {
    assert_eq!(get_template("web").len(), 7);
    assert_eq!(get_template("web")[0], "Planning & Design");
    assert_eq!(get_template("mobile")[6], "Marketing Launch");
    assert_eq!(get_template("api")[2], "Authentication & Auth");
    assert!(get_template("desktop").is_empty());
}
