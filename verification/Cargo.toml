[package]
name = "jigsaw_puzzle"
version = "0.1.0"
edition = "2021"
publish = false

[dependencies]
awsm_web = { version = "=0.45.0", features = ["dom", "image", "input", "loaders", "tick", "window", "webgl", "serde_iso"] }
cfg-if = "=1.0.5"
console_error_panic_hook = "=0.1.7"
derive_deref = "=1.1.1"
dominator = "=0.5.38"
futures = "=0.3.34"
futures-signals = "=0.3.34"
gloo-events = "=0.1.2"
image = { version = "=0.24.9", default-features = false, features = ["png"] }
js-sys = "=0.3.107"
log = "=0.4.35"
nalgebra = "=0.32.6"
nalgebra-glm = "=0.18.0"
once_cell = "=1.21.4"
serde = { version = "=1.0.229", features = ["derive"] }
serde_json = "=1.0.154"
shipyard = { version = "=0.6.5", features = ["thread_local"] }
shipyard_scenegraph = { version = "=0.6.1", features = ["nalgebra_glm_math"] }
wasm-bindgen = "=0.2.130"
wasm-bindgen-futures = "=0.4.80"
wasm-logger = "=0.2.0"
web-sys = { version = "=0.3.107", features = ["Window", "Document", "HtmlElement", "HtmlCanvasElement", "HtmlImageElement", "WebGlRenderingContext", "KeyboardEvent", "WheelEvent", "WebSocket", "Event", "Element", "Node", "MouseEvent", "PointerEvent", "DomRect", "CssStyleDeclaration"] }
