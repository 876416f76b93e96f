//! Types and utilities related to storing board state: squares, pieces,
//! moves, configurations, and the [Board] itself.

pub mod board_config;
pub mod board_checks;
pub mod board_core;
pub mod board_display;
pub mod board_evaluation;
pub mod board_logic;
pub mod board_movegen;
pub mod board_queries;
pub mod board_query;
pub mod board_result;
pub mod chess_move;
pub mod error;
pub mod fen;
pub mod line;
pub mod piece;
pub mod piece_type;
pub mod player_color;
pub mod square;

pub use board_config::{BoardConfiguration, BoardConfigurationBuilder, CastlingAvailability};
pub use board_core::{Board, BoardModel};
pub use board_evaluation::{Evaluation, EvaluationWeights};
pub use board_movegen::Direction;
pub use board_query::BoardQuery;
pub use board_result::{BoardResult, DrawReason, GetWinnerError};
pub use chess_move::{CastlingDirection, Move, MoveData};
pub use error::MoveError;
pub use fen::InvalidFENError;
pub use line::Line;
pub use piece::Piece;
pub use piece_type::PieceType;
pub use player_color::PlayerColor;
pub use square::Square;
