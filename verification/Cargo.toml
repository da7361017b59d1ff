[package]
name = "torpedo_duel"
version = "0.1.0"
edition = "2021"
publish = false

[dependencies]
serde_json = "1"
cgmath = "0.18"
gloo-console = "0.3"
js-sys = "0.3"
wasm-bindgen = { version = "0.2", features = ["serde-serialize"] }
web-sys = { version = "0.3", features = ["Window", "Document", "Element", "HtmlCanvasElement", "WebGl2RenderingContext", "WebGlBuffer", "WebGlProgram", "WebGlShader", "WebGlUniformLocation", "WebGlVertexArrayObject", "WebGlTransformFeedback", "KeyboardEvent", "EventTarget"] }
