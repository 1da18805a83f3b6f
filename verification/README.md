# Voĉa

Praat TextGrid files and the decision logic of the Gridder editor, written in
Verus with their contracts proved.

- `src/` is the verified library:
  - `model` — the TextGrid data model, generic over how times are held
    (number texts for the text format, IEEE-754 bit patterns for the binary
    format), with its mathematical view;
  - `text_format` — the tokenizer, parser and the long and short
    stringifiers of the text format, with the proof that both formats read
    back as the TextGrid written (`round_trip`);
  - `binary_format` — the binary format and its round-trip law;
  - `text_grid` — reading text-format bytes in UTF-8 or UTF-16;
  - `l10n`, `font_loading`, `states`, `projects`, `views`, `waveform` — the
    editor's languages, font choice, project state, file classification and
    window state.
- `app/` holds what stays outside the proofs: TextGrids with `f64` times and
  their serde derives, writers, the locale variables, and egui glue.
- `tests/` runs the library on concrete values.
