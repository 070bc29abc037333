use grove::modals::{DiscoveredRepo, DiscoveredReposModal};
use grove::scanview::{scan_view, scroll_offset};
use grove::view::Tone;

fn candidate(name: &str, selected: bool, configured: bool) -> DiscoveredRepo {
    DiscoveredRepo { path: format!("/src/{name}"), name: name.to_string(), already_configured: configured, selected }
}

fn modal(candidates: Vec<DiscoveredRepo>, cursor: usize) -> DiscoveredReposModal {
    DiscoveredReposModal { scan_root: "/src".to_string(), scanning: false, candidates, cursor, error: None }
}

#[test]
fn scroll_offset_follows_cursor_and_stops_at_the_end() {
    assert_eq!(scroll_offset(0, 30, 10), 0);
    assert_eq!(scroll_offset(9, 30, 10), 0);
    assert_eq!(scroll_offset(10, 30, 10), 1);
    assert_eq!(scroll_offset(29, 30, 10), 20);
    assert_eq!(scroll_offset(5, 3, 10), 0);
}

#[test]
fn scan_view_counts_selected_and_shows_a_window() {
    let cs: Vec<DiscoveredRepo> = (0..12).map(|i| candidate(&format!("r{i}"), i % 2 == 0, false)).collect();
    let v = scan_view(&modal(cs, 11));
    assert_eq!(v.title, " Scan: /src ");
    assert_eq!(v.header, "  6 of 12 selected.  Space to toggle.");
    assert_eq!(v.offset, 2);
    assert_eq!(v.rows.len(), 10);
    let last = &v.rows[9];
    assert_eq!(last[0].text, "▶ ");
    assert_eq!(last[1].text, "[ ]");
    assert_eq!((last[3].text.as_str(), last[3].tone), ("r11", Tone::Bold));
    assert_eq!((last[5].text.as_str(), last[5].tone), ("/src/r11", Tone::DarkGray));
}

#[test]
fn configured_candidates_are_dimmed_and_tagged() {
    let v = scan_view(&modal(vec![candidate("a", false, true), candidate("b", true, false)], 1));
    assert_eq!(v.header, "  1 of 2 selected.  Space to toggle.");
    let a = &v.rows[0];
    assert_eq!(a.len(), 7);
    assert_eq!(a[3].tone, Tone::DarkGray);
    assert_eq!(a[6].text, " [already configured]");
    let b = &v.rows[1];
    assert_eq!(b.len(), 6);
    assert_eq!(b[1].text, "[x]");
}

#[test]
fn scan_view_reports_its_body_height_and_selection() {
    let mut m = modal(Vec::new(), 0);
    m.scanning = true;
    let v = scan_view(&m);
    assert_eq!(v.body, grove::scanview::ScanBody::Scanning);
    assert_eq!(v.height, 17);
    m.scanning = false;
    assert_eq!(scan_view(&m).body, grove::scanview::ScanBody::NoRepositories);
    let cs: Vec<DiscoveredRepo> = (0..12).map(|i| candidate(&format!("r{i}"), false, false)).collect();
    let mut m = modal(cs, 11);
    m.error = Some("could not add".to_string());
    let v = scan_view(&m);
    assert_eq!(v.body, grove::scanview::ScanBody::Candidates);
    assert_eq!(v.selected, 9);
    assert_eq!(v.errors.len(), 1);
    assert_eq!(v.errors[0].text, "  ! could not add");
    assert_eq!(v.height, 18);
}
