# squirrel_scanner

A webcam watcher: it captures frames from a V4L2 camera, keeps a rolling
frame rate, and serves the last frame over HTTP.

- `src/` is the verified library (Verus):
  - `yuv.rs`: YUV 4:2:2 (packed YUYV and planar) to RGB24 buffer layouts,
    with the per-pixel colour transform as a parameter;
  - `camera.rs`: device and format choice, the frame clock of the capture
    loop (iteration counter and ring of frame times), frame gaps;
  - `supervisor.rs`: decisions of the main loop and of the web-server loop;
  - `text.rs`: byte-level substring search and string equality used by them.
- `app/` is the program: V4L2 capture, procfs, the actix-web server, tokio,
  rayon work distribution, and the floating-point BT.709 colour transform.
- `tests/` exercises the library on concrete values.
