pub mod account;
pub mod avatar;
pub mod home;

pub use account::{ExtendedSetEncryptionMessage, KeepAliveServerMessage, LoginMessage, LoginOkMessage};
pub use avatar::{AskForAvatarProfileMessage, AvatarProfileFullEntry, AvatarProfileMessage, ChangeAvatarNameMessage};
pub use home::{AttackNpcMessage, AvailableServerCommandMessage, EndClientTurnMessage, NpcDataMessage, OutOfSyncMessage, OwnHomeDataMessage};
