[package]
name = "gridora_forge"
version = "1.0.1"
edition = "2021"
publish = false

[dependencies]
base64 = "0.22"
console_error_panic_hook = "0.1"
futures = "0.3"
gloo-timers = { version = "0.3", features = ["futures"] }
js-sys = "0.3"
leptos = { version = "0.8", features = ["csr"] }
wasm-bindgen = "0.2"
wasm-bindgen-futures = "0.4"
web-sys = { version = "0.3", features = ["Blob", "BlobPropertyBag", "CanvasRenderingContext2d", "CssStyleDeclaration", "DataTransfer", "Document", "DomRect", "DomTokenList", "DragEvent", "Element", "Event", "EventTarget", "File", "FileList", "FilePropertyBag", "HtmlCanvasElement", "HtmlDocument", "HtmlElement", "HtmlInputElement", "HtmlTextAreaElement", "ImageBitmap", "KeyboardEvent", "MouseEvent", "Node", "NodeList", "PointerEvent", "Storage", "UiEvent", "Window", "console"] }
