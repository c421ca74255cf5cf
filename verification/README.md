# ssr-core

Core of the **Support Step Recorder**, a user-action recorder in the manner of
Windows' *Problem Steps Recorder*: on every click it records the mouse button,
the text typed since the previous click and the active window, and produces a
replayable HTML report with the screenshots.

The library (`src/`) is written in Verus and verified:

- `session` — the recording session: typed-text buffer, steps, screenshot
  names, with the invariant that steps are numbered in order and described in
  the session's language.
- `recorder` — how each input event changes the session (key presses, Shift,
  clicks whose screen capture succeeded; nothing once stopped).
- `model` — steps, actions, windows and their readable descriptions.
- `text`, `input` — keys to typed text (US layout), raw Linux input events and
  `device_query` buttons to normalized events, Wayland detection.
- `screencast` — which delivered frames are kept (about one every 100 ms),
  and conversion of raw Wayland frames to RGBA, cropped to the bounding box of
  their non-black content.
- `capture` — RGBA images and the click marker drawn on screenshots.
- `export` — the HTML report and the list of archive entries.
- `review` — text and keyboard navigation of the review panel.
- `i18n`, `strings`, `clock`, `progress` — languages, string building blocks,
  clock readings, shared progress messages.

`app/` is the program around it: the egui interface, input backends, screen
capture (xcap, the xdg-desktop-portal with PipeWire), WebP encoding, the
writer thread, and the export to `steps.json` and a ZIP archive.
