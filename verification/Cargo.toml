[package]
name = "game_of_life"
version = "0.1.0"
edition = "2021"
publish = false

[dependencies]
fixedbitset = "0.4.2"
js-sys = "0.3"
wasm-bindgen = "0.2"
web-sys = { version = "0.3", features = ["Document", "DomRect", "Element", "Event", "EventTarget", "HtmlButtonElement", "HtmlCanvasElement", "HtmlDivElement", "HtmlElement", "HtmlInputElement", "MouseEvent", "Node", "WebGl2RenderingContext", "WebGlBuffer", "WebGlProgram", "WebGlShader", "WebGlUniformLocation", "WheelEvent", "Window"] }
