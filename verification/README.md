# autorpg-mcp

An MCP (Model Context Protocol) server that exposes screen capture, input simulation and
game-state tracking tools, so an LLM client can play an action RPG. What the server decides and
computes is a library verified with Verus; capturing, sending input and speaking the protocol is
a thin program around it.

## Layout

```
src/            the verified library
  config.rs     settings, their defaults and sanitizers
  capture.rs    preview size, RGB packing, frame hash, frame conversion, window search
  state.rs      session history, held buttons, frames and the frame buffer
  games/        game profiles: telemetry read off the pixels of a frame
  server.rs     what each tool checks, sends, records and answers
  input.rs      key names, scancodes, virtual keys and input sequences
  windmouse.rs  cursor paths and the events they are sent as
  rounding.rs   IEEE rounding on integers, for layout and cursor scaling
  encoding.rs   base64
  text.rs       text building and searching
  error.rs      tool errors
tests/          tests of the library
app/            the program: MCP wire, locks, Windows Graphics Capture, enigo, TOML
```

## What is proved

The functions of the library carry contracts over mathematical models of their inputs; reading
the clock promises nothing of the time. Properties that span functions stand beside them as proof
functions whose names begin with `law_`, among them:

- a failed bar scan never reads, and is never shown, as a full bar;
- a preview fits its edge and is never upscaled;
- a position picked off the preview lands less than a pixel off the same spot of the source, and
  on itself where preview and source have the same size;
- a cursor move that runs out of time still ends at its destination, and a relative one still
  covers its whole distance, and no more;
- the fill of the health bar never counts as the combat icon;
- the session history is bounded and keeps the newest events in order;
- a released button leaves the other held buttons alone, and a finished hold leaves none behind;
- the frame that was handed out last does not count as a change of the screen.

Scaling is computed on integers with the rounding of single and double precision. That the results
are those of the machine's floating point is sampled by `tests/rounding.rs`.

## Trust

Calls into other crates (JPEG encoding, resampling, base64, random jitter) and into parts of the
standard library go through small wrappers whose contracts are taken on faith. Each says in its
doc comment what it claims. The resampled pixel values are left unsaid.
