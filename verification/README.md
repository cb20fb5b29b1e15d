# kora_synth

Verified core of a kora physical-modelling synthesizer (21 Karplus-Strong
strings through a gourd body resonator).

- `src/` — the library, verified with Verus:
  - `delay` — the circular delay line behind every string and the gourd
    body: cursor stepping, taps, excitation, and the echo and period laws.
  - `tuning` — the kora's Silaba tuning (in millihertz) and the choice of
    the string nearest to a note, with its uniqueness and monotonicity laws.
  - `strings` — the bank of strings: plucking one string by index.
  - `midi` — classifying raw MIDI messages and finding which note events
    fall due before a sample.
  - `sequencer` — the demo pattern clock and its schedule law.
- `app/` — the programs around it: the sample arithmetic (floating point),
  the WAV renderer, the live MIDI player and the VST3/CLAP plugin shell.
- `tests/` — tests of the library on concrete values.
