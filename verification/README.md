# spotifast

The verified core of the Spotifast music player, written in Verus.

`src/` is the library, every function of it proved against its contract:

- `i18n`, `catalogs`: gettext-style lookups with each language's plural
  rules, and the catalog entries bundled so far.
- `bidi`, `reorder`: which way text reads, where a word may be cut, and
  how the shaped runs of a row are put into visual order.
- `notch`, `hover`: the notch widget's commands, what changed between two
  tracks, and the hover timers as a state machine.
- `narration`: the text-to-speech request encoding and the narration
  choice.
- `paths`, `fonts`, `theme`, `window`, `sleep_timer`: the storage layout,
  the playlist font search, palettes and theme status lines, window
  decisions, and the sleep timer.
- `text`: the character-level helpers the others share.

`app/` is the plain Rust around it: the platform's folders, the clock, the
disk and the network, and the floating-point geometry of the interface.
`tests/` runs the library on concrete values.
