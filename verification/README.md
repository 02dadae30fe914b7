# vcam-proxy

Feeds a physical camera, or a still image, into v4l2loopback virtual cameras, so
that several apps (OBS, a browser, Zoom, ...) can use it at the same time. On
Windows the frames go out over a named pipe instead.

## Layout

- `src/` is the library, written in Verus, with contracts that Verus proves: the
  colour conversions, the scaler, the frame pool, the settings and their merge,
  device discovery, the module management, the settings form and the decisions of
  the capture loop, the sink loop and the controller. Public proof functions named
  `law_...` state what holds across functions.
- `tests/` runs the library on concrete values.
- `app/` is the program around it: the command line, the config file, the camera,
  the loopback devices, the tray icon and the settings window. It carries out what
  the library decides and reports back what it observed.

## What is trusted

The calls into `crossbeam-channel` (the pool's channel) and `nokhwa` (decoding gray,
RGB and BGR camera buffers), `String::push` and `Instant::now`. Each stands behind
small items whose doc comments say what is claimed. Nothing is claimed of the values
that shared flags and counters hold, nor of what is in a shared pool at a given
moment: other threads change them. A pool that one caller has to itself (`OwnPool`)
is specified exactly. Image and JPEG decoders, which panic on some malformed files,
are called by the program, and the library takes what they gave.
