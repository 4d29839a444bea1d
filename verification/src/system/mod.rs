pub mod ball;
pub mod block;
pub mod colliders;
pub mod player;
pub mod pause;
pub mod text;
pub mod draw;
