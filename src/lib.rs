pub mod ball;
pub mod dot_matrix;
pub mod game_state;
pub mod highscore;
pub mod mixer;
pub mod pad;
pub mod sfx;
pub mod text_ticker;
