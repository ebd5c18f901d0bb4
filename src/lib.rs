//! Turns the raw readings of one capacitive touch channel into debounced
//! gestures, and drives one dimmable light from those gestures.

pub mod channel;
pub mod light;
