# physics-mujoco frontend

A browser template that plays a scene with `awsm-renderer` and drives it from
MuJoCo, which steps in a worker of its own and publishes world poses into a
shared block of memory.

`src/` is the verified library: the rules of the template, proved with Verus.

| Module | What it decides |
|---|---|
| `protocol` | the layout of the shared block, the messages, the scenes that ship |
| `seqlock` | when a copy of the block is whole |
| `sim_link` | what one frame of the block changes on screen |
| `overlays` | which debug node shows which record, and which nodes appear or vanish |
| `render_thread` | whether a sim may drive the scene's instance, and from which regions |
| `main_thread` | the startup handshake between the two workers |
| `scene` | loading the scene document |
| `urls`, `pointer`, `boot`, `text` | bases and queries, drags, start-up, strings |

Public proof functions named `law_..` state what holds of the library as a whole.

`app/` is the browser side: DOM, workers, WebGPU, serde and the floating-point
camera and overlay geometry. It is built for `wasm32` with
`--cfg=web_sys_unstable_apis`.

`tests/` runs the library with its dependencies linked.
