# Archet

The control core of a bowed-string instrument, written in Verus: voice
allocation, sections and their seats, the life of a note from its onset to its
last sample, patches and the factory bank, the chain of effects a patch
carries, and the decisions of the plugin and its window. Every function of the
library states what it does, and Verus proves it.

    src/     the library; `src/lib.rs` says what each module is for
    tests/   the library run on concrete values
    app/     the sound, the plugin and the window around it, in ordinary Rust

Single-precision numbers reach the library by their bit patterns
(`single::Single`) and are compared, clamped and rounded by their exact values.
The arithmetic on samples is floating point and is done in `app/`, which reads
each decision from the library and reports back the two levels a voice is heard
by.

What holds of the whole stands as public proof functions named `law_...`: those
of the engine in `src/laws.rs`, those over time in `src/trace.rs`, the others
beside what they speak of.
