use jigsaw_puzzle::config::{get_media_href, get_puzzle_href, websocket_url};
use jigsaw_puzzle::dom::canvas::Canvas;
use jigsaw_puzzle::dom::theme::Theme;
use jigsaw_puzzle::dom::ui::{ButtonState, HeaderState};

#[test]
fn media_href_is_under_media() {
    assert_eq!(get_media_href("shaders/x.glsl"), "media/shaders/x.glsl");
    assert_eq!(get_media_href(""), "media/");
}

#[test]
fn puzzle_href_is_under_the_puzzle() {
    assert_eq!(get_puzzle_href("puzzle.png"), "media/puzzle/landscape/puzzle.png");
    assert_eq!(get_puzzle_href("puzzle.json"), "media/puzzle/landscape/puzzle.json");
}

#[test]
fn websocket_url_is_the_deployed_server() {
    assert_eq!(websocket_url(), "wss://jigsaw-puzzle-worker.dakom.workers.dev/socket");
}

#[test]
fn theme_colors() {
    let theme = Theme::new();
    assert_eq!(theme.nav_bg_color, "beige");
    assert_eq!(theme.button_color_blue.bg_regular, "cornflowerblue");
    assert_eq!(theme.button_color_blue.bg_hover, "dodgerblue");
    assert_eq!(theme.button_color_blue.text_regular, "white");
    assert_eq!(theme.button_color_blue.text_hover, "white");
    assert_eq!(theme.button_color_red.bg_regular, "tomato");
    assert_eq!(theme.button_color_red.bg_hover, "crimson");
    assert_eq!(theme.button_color_red.text_regular, "white");
    assert_eq!(theme.button_color_red.text_hover, "white");
    assert_eq!(theme.h1_color, "#2a2a2a");
    assert_eq!(theme.error_color, "tomato");
    assert_eq!(theme.input_text_color, "#2a2a2a");
    assert_eq!(theme.input_border_color, "darkgrey");
    let _canvas = Canvas {};
}

#[test]
fn ui_words() {
    assert_eq!(ButtonState::Reset.as_str(), "reset");
    assert_eq!(ButtonState::Start.as_str(), "start");
    assert_eq!(HeaderState::Loading.as_str(), "Loading...");
    assert_eq!(HeaderState::Prepping.as_str(), "Preparing...");
    assert_eq!(HeaderState::Connecting.as_str(), "Connecting...");
    assert_eq!(
        HeaderState::Playing.as_str(),
        "click and drag, space-click to pan, mouse wheel to zoom"
    );
}
