[package]
name = "bevy_native"
version = "0.1.0"
edition = "2021"
publish = false

[dependencies]
bevy = { version = "0.15", default-features = false, features = ["bevy_ui"] }
js-sys = "0.3"
lazy_static = "1"
wasm-bindgen = "0.2"
wasm-bindgen-futures = "0.4"
web-sys = { version = "0.3", features = ["Window", "Document", "Element", "HtmlElement", "HtmlInputElement", "HtmlIFrameElement", "HtmlDivElement", "Location", "History", "UrlSearchParams", "Node", "KeyboardEvent", "Event", "EventTarget", "ResizeObserver", "ResizeObserverEntry", "DomRectReadOnly", "FontFace", "FontFaceSet"] }
