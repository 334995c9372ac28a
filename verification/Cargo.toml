[package]
name = "physics_mujoco_frontend"
version = "0.1.0"
edition = "2021"
publish = false

[dependencies]
awsm-renderer = "=0.39.0"
awsm-renderer-meshgen = "=0.39.0"
awsm-renderer-scene = "=0.39.0"
awsm-renderer-scene-loader = { version = "=0.39.0", features = ["http"] }
dominator = "=0.5.38"
futures = "0.3"
futures-signals = "0.3"
glam = "=0.32.1"
gloo-net = "=0.7.0"
serde = { version = "1", features = ["derive"] }
serde-wasm-bindgen = "=0.6.5"
tracing = "0.1"
tracing-subscriber = { version = "0.3", features = ["env-filter"] }
tracing-web = "*"
wasm-bindgen = "=0.2.130"
wasm-bindgen-futures = "=0.4.80"
web-sys = { version = "=0.3.107", features = ["Blob", "BlobPropertyBag", "Crypto", "DedicatedWorkerGlobalScope", "Document", "DomRectReadOnly", "DomTokenList", "Element", "Event", "EventTarget", "HtmlCanvasElement", "Location", "MessageEvent", "MouseEvent", "Node", "OffscreenCanvas", "PointerEvent", "RequestCache", "ResizeObserver", "ResizeObserverEntry", "SubtleCrypto", "Url", "UrlSearchParams", "WheelEvent", "Window", "Worker", "WorkerOptions", "WorkerType", "console"] }
