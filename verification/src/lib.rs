//! A codec between the FEN4 text notation of four-player chess and a typed
//! board value.
//!
//! [`Board`] is the type to start from: `str::parse` reads a board from its
//! text and [`Board::to_string`] writes it back.
//!
//! ```text
//! R-0,0,0,0-0,0,0,0-0,0,0,0-0,0,0,0-0-14/14/14/14/14/14/14/14/14/14/14/14/14/14
//! ```
//! is an empty board with red to move.
//!
//! Every function is verified against a statement of what it reads or
//! writes, given as a function on sequences of characters:
//!
//! | part of the notation | read as | written as | module |
//! |---|---|---|---|
//! | a square, `a4` | `parse_position` | `position_text` | [`position`] |
//! | a piece, `drK` | `parse_piece` | `piece_text` | [`piece`] |
//! | the tag block, `{'lives':(2,2,2,2)}` | `parse_extra` | `extra_text` | [`tags`], [`extra`], [`tag_text`] |
//! | the metadata, `R-0,0,0,0-...-0` | `parse_header` | `header_text` | [`meta`] |
//! | the grid, `3,yR,...,3/...` | `parse_grid` | `grid_text` | [`grid`] |
//! | a board | `parse_board` | `board_text` | [`board`] |
//!
//! The modules whose names end in `_laws`, and [`splitting`], hold what is
//! proved of these statements. The chief law is
//! [`board_laws::lemma_round_trip`]: a board that was read from a text can be
//! written, and what is written reads back as the same board.

pub mod board;
pub mod board_laws;
pub mod conversions;
pub mod extra;
pub mod extra_laws;
pub mod grid;
pub mod grid_laws;
pub mod meta;
pub mod meta_laws;
pub mod messages;
pub mod number;
pub mod piece;
pub mod position;
pub mod splitting;
pub mod standard_laws;
pub mod tag_text;
pub mod tags;
pub mod text;
pub mod types;
pub mod value_laws;
pub mod variant;
pub mod variant_laws;

pub use grid::{BoardParseError, BoardSize};
pub use number::NumberParseError;
pub use piece::PieceParseError;
pub use position::PositionParseError;
pub use tags::MetaDataParseError;
pub use types::{Board, Color, Extra, Piece, Position, TurnColor};
pub use variant::DEFAULT_FEN;
