use fht_compositor::geometry::Rect;
use fht_compositor::rules::{default_true, WindowMapSettings, WindowRulePattern};
use fht_compositor::window::FhtWindow;

fn window(title: &str, app_id: &str) -> FhtWindow {
    FhtWindow::new(1, 1, title.to_string(), app_id.to_string(), 10, Rect::new(0, 0, 100, 100))
}

#[test]
fn workspace_criterion_wins_over_title() {
    let pattern = WindowRulePattern::new(Some(2), Some("foo".to_string()), None);
    assert!(pattern.matches(&window("bar", "term"), 2));
    assert!(!pattern.matches(&window("foo", "term"), 3));
}

#[test]
fn title_criterion_wins_over_app_id() {
    let pattern = WindowRulePattern::new(None, Some("foo".to_string()), Some("term".to_string()));
    assert!(pattern.matches(&window("foo", "browser"), 0));
    assert!(!pattern.matches(&window("bar", "term"), 0));
}

#[test]
fn app_id_criterion_is_exact() {
    let pattern = WindowRulePattern::new(None, None, Some("term".to_string()));
    assert!(pattern.matches(&window("anything", "term"), 7));
    assert!(!pattern.matches(&window("anything", "terminal"), 7));
    assert!(!pattern.matches(&window("term", ""), 7));
}

#[test]
fn empty_pattern_matches_nothing() {
    let pattern = WindowRulePattern::default();
    assert!(!pattern.matches(&window("", ""), 0));
    assert!(!pattern.matches(&window("foo", "term"), 2));
    let same = WindowRulePattern::new(None, None, None);
    assert!(!same.matches(&window("", ""), 0));
}

#[test]
fn map_settings_default() {
    let settings = WindowMapSettings::default();
    assert!(!settings.floating);
    assert!(!settings.fullscreen);
    assert!(settings.centered);
    assert_eq!(settings.output, None);
    assert_eq!(settings.workspace, None);
    assert!(default_true());
}
