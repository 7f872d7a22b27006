//! A terminal clicker game core: score accounting on fixed-point amounts,
//! click debouncing, upgrade-shop purchase rules, and display formatting.
pub mod control;
pub mod game;
pub mod laws;
pub mod points;
pub mod ui;

pub use control::Action;
pub use control::Control;
pub use control::Key;
pub use game::Game;
pub use game::State;
pub use game::Upgrade;
pub use game::UpgradeType;
pub use points::Points;
pub use ui::FrameText;
pub use ui::Ui;
pub use ui::frame_text;
