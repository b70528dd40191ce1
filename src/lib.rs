//! Chip board evaluation.
//!
//! A board of `GRID_WIDTH × GRID_HEIGHT` cells, addressed by linear index,
//! holds one chip per cell. Chips come from a catalog; a chip may buff the
//! cells at fixed linear offsets from its own, where an offset's meaning
//! depends on the parity of the chip's column (see [`grid`]). Evaluating a
//! board ([`value::recompute`]) runs two passes: every cell first takes its own
//! chip's flat value, effect and kind; then every chip buffs its valid targets
//! of its own kind. Each cell is worth the product of its layers, rounded down,
//! and the cells' values are summed per kind into offense and defense.
//!
//! All fractional quantities are fixed-point numbers in hundredths, and every
//! layer saturates at [`value::LAYER_CAP`], so evaluation is exact and total.
pub mod board;
pub mod chips;
pub mod error;
pub mod grid;
pub mod laws;
pub mod value;
