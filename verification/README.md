# mmserver

The logic of a game streaming server, written in Verus: what the server does
with packets, messages, frames, windows and sound is stated in contracts and
proved.

The library in `src/` makes decisions. It is told what happened (a packet came
in, a window was mapped, a frame is due), and returns what is to be done, in
order. Sockets, the GPU, the display and the clock are driven by its callers.

| Module | What it decides |
| --- | --- |
| `config`, `preflight` | which configuration the server runs with, and on which machines |
| `state`, `session` | which sessions there are, who is attached, and how each reacts to events |
| `server` | which connections are accepted, how requests are answered, and how frames are cut into datagrams |
| `encoder` | rate control, the parameters of a stream, and the commands for each picture |
| `vulkan` | which GPU is used, with which memory and extensions |
| `compositor` | surfaces, buffers, formats, and the X11 window manager |
| `audio` | the streams of sound clients, and their protocol |
| `container` | the environment and the logs of an application |
| `input` | the codes of keys, buttons, axes and cursors |
| `color_test`, `latency_test` | two small programs to test a display with |
| `net`, `codec`, `control`, `pixel_scale`, `text`, `math` | what the others share |

Laws that span several functions stand beside them as public proof functions.
What is taken on trust is marked `external_body`, with a comment that names the
outside function and says what is believed of it.

`tests/` runs the compiled library. `app/` is a program around it: it reads the
configuration, checks the machine, chooses the GPU, takes the socket and
announces the server. It also holds what is computed with floating point
numbers. The QUIC stack, the encoder's driver and the Wayland display are not
part of this repository.
