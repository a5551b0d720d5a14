use itmr_dragonfable_launcher::log_markup::{
    parse_hex_color, parse_log_content, read_fragments, read_log_content, recolor, LogFragment,
};

fn as_written(content: &str) -> Vec<LogFragment> {
    parse_log_content(content, |color| color)
}

fn read(content: &str) -> Option<Vec<LogFragment>> {
    read_log_content(content, |color| color)
}

fn plain(text: &str) -> LogFragment {
    LogFragment { text: text.to_string(), color: None }
}

fn colored(text: &str, color: [u8; 3]) -> LogFragment {
    LogFragment { text: text.to_string(), color: Some(color) }
}

#[test]
fn plain_text_is_one_fragment() {
    assert_eq!(as_written("hello\n"), vec![plain("hello\n")]);
    assert_eq!(as_written(""), vec![]);
}

#[test]
fn font_elements_are_colored_fragments() {
    assert_eq!(
        as_written("a<font color='#FF8000'>b\n\n</font>c<font color=\"0a0B0c\">d</font>"),
        vec![plain("a"), colored("b", [255, 128, 0]), plain("c"), colored("d", [10, 11, 12])]
    );
}

#[test]
fn empty_elements_leave_no_fragment() {
    assert_eq!(as_written("<font color='#000000'>\n</font>x"), vec![plain("x")]);
}

#[test]
fn unclosed_elements_run_to_the_end() {
    assert_eq!(as_written("<font color='#010203'>rest\n"), vec![colored("rest\n", [1, 2, 3])]);
}

#[test]
fn colors_that_are_none_are_left_out() {
    assert_eq!(as_written("<font color='red'>x</font>"), vec![plain("x")]);
    assert_eq!(as_written("<font color='#12345g'>x</font>"), vec![plain("x")]);
}

#[test]
fn bare_tags_are_shown_as_they_are() {
    assert_eq!(
        as_written("a<font size='2'>b"),
        vec![plain("a"), plain("<font size='2'>b"), plain("<font size='2'>b")]
    );
    assert_eq!(
        as_written("<font color=red>b"),
        vec![plain("<font color=red>b"), plain("<font color=red>b")]
    );
}

#[test]
fn tags_without_an_end_are_passed_over() {
    assert_eq!(as_written("<font color='#000000"), vec![plain("font color='#000000")]);
    assert_eq!(as_written("<font color='#000000'"), vec![plain("font color='#000000'")]);
}

#[test]
fn content_that_breaks_off_at_a_color_cannot_be_read() {
    assert_eq!(read("<font color="), None);
    assert_eq!(read("<font color='1é234'>x</font>"), None);
    assert!(read("<font color='é1234é'>x</font>").is_some());
}

#[test]
fn hex_colors_are_read_with_or_without_a_sign() {
    assert_eq!(parse_hex_color("#FFffFF"), Some([255, 255, 255]));
    assert_eq!(parse_hex_color("##010203"), Some([1, 2, 3]));
    assert_eq!(parse_hex_color("7f8081"), Some([127, 128, 129]));
    assert_eq!(parse_hex_color("+1+2+3"), Some([1, 2, 3]));
    assert_eq!(parse_hex_color("-10203"), None);
    assert_eq!(parse_hex_color("12345"), None);
    assert_eq!(parse_hex_color("1234567"), None);
    assert_eq!(parse_hex_color(""), None);
}

/// A grey is made light enough for a dark background.
fn lightened(color: [u8; 3]) -> [u8; 3] {
    let lightness = (color[0].max(color[1]).max(color[2]) as f32
        + color[0].min(color[1]).min(color[2]) as f32)
        / 510.0;
    let channel = (lightness.max(0.62).max(lightness.powf(0.92)) * 255.0).round() as u8;
    [channel, channel, channel]
}

#[test]
fn written_colors_are_remapped() {
    let content = "a<font color='#333333'>b</font><font color='red'>c</font>";
    let shown = vec![plain("a"), colored("b", [158, 158, 158]), plain("c")];
    assert_eq!(parse_log_content(content, lightened), shown);
    assert_eq!(read_log_content(content, lightened), Some(shown.clone()));
    let written = read_fragments(content).unwrap();
    assert_eq!(written, vec![plain("a"), colored("b", [51, 51, 51]), plain("c")]);
    assert_eq!(recolor(&written, lightened), shown);
    assert_eq!(read_log_content("<font color=", lightened), None);
}

#[test]
fn the_rest_of_a_content_is_read_behind_an_element() {
    let rest = "x<font color=\"#040506\">y</font>\n";
    let whole = format!("before<font color='#010203'>text\n</font>{rest}");
    let mut expected = vec![plain("before"), colored("text", [1, 2, 3])];
    expected.extend(as_written(rest));
    assert_eq!(as_written(&whole), expected);
}
