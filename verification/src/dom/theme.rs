//! The colours of the page.
use vstd::prelude::*;

verus! {

/// The colours of a button: its background and text, normally and under the pointer.
pub struct ThemeButtonColor {
    pub bg_regular: &'static str,
    pub bg_hover: &'static str,
    pub text_regular: &'static str,
    pub text_hover: &'static str,
}

/// The colours of the page.
pub struct Theme {
    pub nav_bg_color: &'static str,
    pub button_color_blue: ThemeButtonColor,
    pub button_color_red: ThemeButtonColor,
    pub h1_color: &'static str,
    pub error_color: &'static str,
    pub input_text_color: &'static str,
    pub input_border_color: &'static str,
}

impl Theme {
    /// The theme of the game: a beige navigation bar, blue and red buttons
    /// with white text, dark text and a dark grey border.
    pub fn new() -> (t: Self)
        ensures
            t.nav_bg_color@ == "beige"@,
            t.button_color_blue.bg_regular@ == "cornflowerblue"@,
            t.button_color_blue.bg_hover@ == "dodgerblue"@,
            t.button_color_blue.text_regular@ == "white"@,
            t.button_color_blue.text_hover@ == "white"@,
            t.button_color_red.bg_regular@ == "tomato"@,
            t.button_color_red.bg_hover@ == "crimson"@,
            t.button_color_red.text_regular@ == "white"@,
            t.button_color_red.text_hover@ == "white"@,
            t.h1_color@ == "#2a2a2a"@,
            t.error_color@ == "tomato"@,
            t.input_text_color@ == "#2a2a2a"@,
            t.input_border_color@ == "darkgrey"@,
    {
        Theme {
            nav_bg_color: "beige",
            button_color_blue: ThemeButtonColor {
                bg_regular: "cornflowerblue",
                bg_hover: "dodgerblue",
                text_regular: "white",
                text_hover: "white",
            },
            button_color_red: ThemeButtonColor {
                bg_regular: "tomato",
                bg_hover: "crimson",
                text_regular: "white",
                text_hover: "white",
            },
            h1_color: "#2a2a2a",
            error_color: "tomato",
            input_text_color: "#2a2a2a",
            input_border_color: "darkgrey",
        }
    }
}

} // verus!
