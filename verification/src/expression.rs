pub mod language;
