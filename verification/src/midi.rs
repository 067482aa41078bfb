//! The MIDI decoding and timing core: event model, tempo map, tick clock,
//! note pairing, and the note data type.

pub mod events;
pub mod note;
pub mod order;
pub mod pairing;
pub mod parser;
pub mod smf;
pub mod tempo;

pub use note::Note;
pub use parser::MidiParser;
pub use parser::ParseError;
pub use parser::ParsedMidi;
