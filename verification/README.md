# synth_dsl

A synthesizer's logic, verified with Verus: a composition language, the
OpenSound Control (OSC) protocol, MIDI note events, and the integer logic of
the audio effects.

## Library (`src/`)

- `dsl` — the composition language: tokenizer, parser (with the grammar as
  spec functions), the syntax tree and its names (durations, waveforms,
  pitches).
- `osc` — OSC values, their wire format (`wire`), encoding and decoding
  (`codec`), the round-trip laws (`laws`), message building (`builder`,
  `utils`), packets (`packet`), route matching (`routing`) and what a note
  message asks for (`notes`).
- `midi` — reading notes from MIDI events and writing the events of a track,
  with the law that a written track reads back.
- `midi_file` — Standard MIDI Files as bytes: parsing a file into its notes
  and encoding tracks of notes, with midly doing the byte work behind
  trusted wrappers.
- `sample_manager`, `flanger`, `effect` — the delay's sample managers and
  window pattern, the flanger's sample window, the LFO's waveform rule.
  Samples travel as the bits of their `f32` value.
- `meter`, `scales`, `sequence`, `sample_buffer`, `note_pool`, `oscillator`,
  `text`, `numbers` — meters, scales and pitches, note cursors, sample
  buffers, note pools, waveform names, and the text and number helpers the
  rest uses.

## Program (`app/`)

`main`, the network client and server, audio output, file reading and
writing, and everything that computes with floating point: oscillators,
envelopes, effect mixing, note timing, the windowing of a note sequence.
