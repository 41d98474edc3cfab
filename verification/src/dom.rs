//! What the page shows around the puzzle: the colours of its theme, the
//! canvas, and the words of the header and of the button.
pub mod theme;
pub mod ui;
pub mod canvas;
