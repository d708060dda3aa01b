use challenges::levels::{all_levels, TitleAction, TitleScreen};

#[test]
fn two_levels() {
    let levels = all_levels();
    assert_eq!(levels.len(), 2);
    assert_eq!(levels[0].title, "Level 1 - a small neighborhood");
    assert_eq!(levels[0].map.map, "montlake");
    assert_eq!(levels[0].map.city, "seattle");
    assert_eq!(levels[0].start_depot, 217700589);
    assert_eq!(levels[1].title, "Level 2 - Magnolia");
    assert_eq!(levels[1].max_energy, 100);
    assert_eq!(levels[1].upzone_rate, 150);
}

#[test]
fn title_screen_actions() {
    let t = TitleScreen::new();
    assert_eq!(t.action("quit"), TitleAction::Quit);
    assert_eq!(t.action("Instructions"), TitleAction::Instructions);
    assert_eq!(
        t.action("open https://example.org/x"),
        TitleAction::OpenUrl("https://example.org/x".to_string())
    );
    assert_eq!(t.action("Level 2 - Magnolia"), TitleAction::StartLevel(1));
}
