mod cell;
mod game;
mod rng;
mod scene;

pub use cell::Cell;
pub use cell::Kind;
pub use game::GameCore;
pub use game::KeyInput;
pub use game::banner_position;
pub use game::Missile;
pub use game::Player;
pub use game::State;
pub use scene::DesignLine;
pub use scene::Scene;
pub use scene::generate_line;
pub use scene::generate_with_height;
pub use scene::percent_to_terminal_size;
