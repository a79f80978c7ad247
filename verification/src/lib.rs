//! Core of a keyboard-layout optimizer: candidate layouts are permutations of
//! logical keys over the slots of a physical keyboard, scored by an ergonomic
//! model (per-key reach cost, bigram transition cost, hand-written intuition
//! constraints) and searched by simulated annealing plus population evolution.
//!
//! All scores are exact fixed-point integers: a cost of one "point" per typed
//! key is represented as [`score::SCALE`], and distances between key positions
//! are carried in thousandths of a grid cell, so every contract below speaks
//! of exact integer arithmetic.

pub mod anneal;
pub mod evolve;
pub mod grid;
pub mod intuition;
pub mod keyboard;
pub mod keys;
pub mod layout;
mod rng;
pub mod score;
pub mod stats;

pub use anneal::Annealer;
pub use evolve::evolve;
pub use evolve::GenStats;
pub use grid::best_grid;
pub use intuition::intuitions;
pub use intuition::Intuition;
pub use keyboard::KeymapConfig;
pub use keyboard::PhysicalKey;
pub use keyboard::PhysicalKeyboard;

pub use keys::Finger;
pub use keys::FingerConfig;
pub use keys::FingerKind;
pub use keys::Hand;
pub use keys::Key;
pub use keys::KeyCode;
pub use layout::Layout;
pub use stats::Stats;
