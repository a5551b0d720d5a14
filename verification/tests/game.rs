use itmr_dragonfable_launcher::autoclick::{
    auto_click_if_needed, contains_continue_text, contains_prompt, matches_continue_text, Click,
    DisplayObject,
};
use itmr_dragonfable_launcher::config::{BASE_DOMAIN, CACHE_MAX_BYTES, GAME_URL};
use itmr_dragonfable_launcher::player::{
    base_domain, build_player, default_fonts, domain_or_default, movie_size, stage_size,
    twips_to_pixels, DefaultFont,
};
use itmr_dragonfable_launcher::update::{
    accepted_version, latest_update, newer_than_current, update_at, AvailableUpdate,
    CURRENT_VERSION,
};

#[test]
fn twips_convert_to_pixels_by_dividing_by_20() {
    assert_eq!(twips_to_pixels(400), 20);
    assert_eq!(twips_to_pixels(399), 19);
    assert_eq!(twips_to_pixels(0), 0);
}

#[test]
fn negative_twips_clamp_to_zero_pixels() {
    assert_eq!(twips_to_pixels(-100), 0);
}

#[test]
fn base_domain_comes_from_the_game_url() {
    assert_eq!(
        base_domain("https://play.dragonfable.com/game/DFLoader.swf").unwrap(),
        "play.dragonfable.com"
    );
}

#[test]
fn hostless_urls_fall_back_to_the_hardcoded_domain() {
    assert_eq!(base_domain("file:///tmp/movie.swf").unwrap(), BASE_DOMAIN);
}

#[test]
fn texts_that_are_no_urls_have_no_domain() {
    assert_eq!(base_domain("not a url"), None);
    assert_eq!(domain_or_default(Some("example.org".to_string())), "example.org");
    assert_eq!(domain_or_default(None), "play.dragonfable.com");
}

#[test]
fn the_player_is_set_up_for_the_game() {
    let setup = build_player(None, true).unwrap();
    assert_eq!(setup.movie_url, GAME_URL);
    assert_eq!(setup.base_domain, "play.dragonfable.com");
    assert_eq!(setup.max_cache_bytes, CACHE_MAX_BYTES);
    assert_eq!(setup.max_cache_bytes, 512 * 1024 * 1024);
    assert_eq!(setup.movie_size, (800, 600));
    assert!(setup.upgrade_to_https && setup.sockets_allowed && setup.autoplay && setup.letterbox);
    assert!(setup.audio);
    let setup = build_player(Some((10, 20)), false).unwrap();
    assert_eq!(setup.movie_size, (10, 20));
    assert!(!setup.audio);
    assert_eq!(movie_size(Some((0, 0))), (0, 0));
    assert_eq!(stage_size(16000, -20), (800, 0));
    assert_eq!(stage_size(-1, 12000), (0, 600));
}

#[test]
fn generic_fonts_are_tried_in_order() {
    assert_eq!(
        default_fonts(DefaultFont::Serif),
        vec!["Times New Roman", "Tinos", "Liberation Serif", "DejaVu Serif"]
    );
    assert_eq!(
        default_fonts(DefaultFont::Sans),
        vec!["Arial", "Arimo", "Liberation Sans", "DejaVu Sans"]
    );
    assert_eq!(
        default_fonts(DefaultFont::Typewriter),
        vec!["Courier New", "Cousine", "Liberation Mono", "DejaVu Sans Mono"]
    );
}

#[test]
fn matches_the_prompt_exactly() {
    assert!(matches_continue_text("Click anywhere to continue"));
}

#[test]
fn matches_the_prompt_case_insensitively() {
    assert!(matches_continue_text("CLICK ANYWHERE TO CONTINUE"));
    assert!(matches_continue_text("click anywhere to continue"));
}

#[test]
fn matches_the_prompt_inside_other_text() {
    assert!(matches_continue_text("\u{2022} Click anywhere to continue \u{25B6}"));
}

#[test]
fn rejects_similar_but_different_text() {
    assert!(!matches_continue_text("Click to continue"));
    assert!(!matches_continue_text("Click anywhere"));
    assert!(!matches_continue_text(""));
}

fn object(visible: bool, text: Option<&str>, children: Vec<DisplayObject>) -> DisplayObject {
    DisplayObject { visible, text: text.map(str::to_string), edit_text: None, children }
}

#[test]
fn prompts_count_only_where_they_are_visible() {
    let prompt = "Click anywhere to continue";
    assert!(contains_prompt("x click anywhere to continue"));
    assert!(!contains_prompt("Click anywhere to continue"));
    assert!(!contains_continue_text(&vec![]));
    assert!(contains_continue_text(&vec![
        object(true, None, vec![]),
        object(true, Some("other"), vec![object(true, Some(prompt), vec![])]),
    ]));
    assert!(!contains_continue_text(&vec![object(
        false,
        Some(prompt),
        vec![object(true, Some(prompt), vec![])]
    )]));
    let mut field = object(true, None, vec![]);
    field.edit_text = Some(prompt.to_string());
    assert!(contains_continue_text(&vec![field]));
}

#[test]
fn prompts_are_answered_with_a_whole_click() {
    assert_eq!(auto_click_if_needed(true, true, true), vec![Click::Down, Click::Up, Click::MoveBack]);
    assert_eq!(auto_click_if_needed(true, true, false), vec![Click::Down, Click::Up]);
    assert_eq!(auto_click_if_needed(false, true, true), vec![]);
    assert_eq!(auto_click_if_needed(true, false, true), vec![]);
}

fn tag_newer_than_current(major: u64, minor: u64, patch: u64) -> Option<String> {
    let current: semver::Version = CURRENT_VERSION.parse().unwrap();
    let latest = semver::Version::new(major, minor, patch);
    if latest > current {
        Some(latest.to_string())
    } else {
        None
    }
}

#[test]
fn older_tag_is_not_an_update() {
    assert_eq!(newer_than_current("v0.0.1"), None);
}

#[test]
fn equal_tag_is_not_an_update() {
    assert_eq!(newer_than_current(CURRENT_VERSION), None);
}

#[test]
fn newer_tag_without_v_prefix_still_normalizes() {
    assert_eq!(newer_than_current("999.0.0"), tag_newer_than_current(999, 0, 0));
    assert_eq!(newer_than_current("999.0.0"), Some("999.0.0".to_string()));
}

#[test]
fn malformed_tag_is_ignored() {
    assert_eq!(newer_than_current("not-a-version"), None);
    assert_eq!(newer_than_current(""), None);
}

fn json(text: &str) -> serde_json::Value {
    serde_json::from_str(text).unwrap()
}

#[test]
fn release_json_yields_the_update() {
    let release = json(
        r#"{
            "tag_name": "v999.0.0",
            "html_url": "https://github.com/itamar567/df-desktop/releases/tag/v999.0.0"
        }"#,
    );
    assert_eq!(
        latest_update(&release),
        Some(AvailableUpdate {
            version: "999.0.0".to_string(),
            url: "https://github.com/itamar567/df-desktop/releases/tag/v999.0.0".to_string(),
        })
    );
}

#[test]
fn release_json_at_or_below_current_version_yields_none() {
    let release = json(
        r#"{
            "tag_name": "v0.0.1",
            "html_url": "https://github.com/itamar567/df-desktop/releases/tag/v0.0.1"
        }"#,
    );
    assert_eq!(latest_update(&release), None);
}

#[test]
fn release_json_with_missing_fields_yields_none() {
    assert_eq!(latest_update(&json("{}")), None);
    assert_eq!(latest_update(&json(r#"{ "tag_name": "v999.0.0" }"#)), None);
}

#[test]
fn versions_are_written_as_they_were_tagged() {
    assert_eq!(newer_than_current(" vv1.2.3-rc.1+build \n"), Some("1.2.3-rc.1+build".to_string()));
    assert_eq!(newer_than_current("0.1.0-rc.1"), None);
    assert_eq!(newer_than_current("0.1.1"), Some("0.1.1".to_string()));
    assert_eq!(newer_than_current("01.2.3"), None);
    assert_eq!(latest_update(&json(r#"{ "tag_name": 5, "html_url": "x" }"#)), None);
    assert_eq!(latest_update(&json(r#"["tag_name"]"#)), None);
    assert_eq!(accepted_version("1.0.0".to_string(), true), Some("1.0.0".to_string()));
    assert_eq!(accepted_version("1.0.0".to_string(), false), None);
    assert_eq!(update_at("1.0.0".to_string(), None), None);
    assert_eq!(update_at("1.0.0".to_string(), Some("u".to_string())).unwrap().url, "u");
}
