//! Archet: the control core of a bowed-string instrument.
//!
//! Everything a violin, a viola, a cello or a double bass decides between a
//! key and a sample, and everything its plugin and its window decide around
//! that, with what each decision comes to stated and proved. The samples
//! themselves are a player's: where one is a number the core has to weigh, it
//! comes in by its bit pattern and is weighed by its exact value.
//!
//! - `engine` answers commands and allots voices; `voice` is the life of one
//!   of them, `gesture` its bow stroke, `block` what a block of audio comes
//!   to; `laws`, `engine_laws` and `voice_laws` are what holds of them, and
//!   `trace` what holds over time.
//! - `patch`, `fx` and `strings` hold what is played: the controls, the
//!   factory bank, the chain of effects, the measured strings; `body`,
//!   `modal`, `friction`, `sympathetic`, `section`, `string` and `fader` the
//!   decisions and lines of each part of the sound.
//! - `host` and `link` are the plugin's; `editor`, `controls`, `fx_page`,
//!   `panel_geom` and `colors` the window's; `meter` goes between.
//! - `single`, `double`, `reading`, `noise`, `ring`, `text` and `fingerprint`
//!   are what the rest is built from.

pub mod block;
pub mod body;
pub mod colors;
pub mod controls;
pub mod double;
pub mod editor;
pub mod engine;
pub mod engine_laws;
pub mod fader;
pub mod fingerprint;
pub mod friction;
pub mod fx;
pub mod fx_page;
pub mod gesture;
pub mod host;
pub mod laws;
pub mod link;
pub mod meter;
pub mod modal;
pub mod noise;
pub mod panel_geom;
pub mod patch;
pub mod reading;
pub mod ring;
pub mod section;
pub mod single;
pub mod string;
pub mod strings;
pub mod sympathetic;
pub mod text;
pub mod trace;
pub mod voice;
pub mod voice_laws;

pub use single::Single;
