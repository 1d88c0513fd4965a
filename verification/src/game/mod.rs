//! The game: its state, its rules and the contracts that its variants keep.

pub mod base;
pub mod card;
pub mod events;
pub mod model;
pub mod person;
pub mod sampling;
pub mod spread;
pub mod state;
pub mod training;
pub mod traits;
pub mod uma;

pub use base::action::BaseAction;
pub use base::basic;
pub use base::basic::{BasicAction, BasicGame};
pub use card::{CardTrainingEffect, SupportCard};
pub use events::EventLog;
pub use model::{GameView, PersonType, PersonView, TurnStage};
pub use person::BasePerson;
pub use state::{BaseGame, FriendOutState, FriendState, InheritInfo};
pub use traits::{ActionEnum, Game, Person, Trainer};
pub use uma::{Uma, UmaFlags};
