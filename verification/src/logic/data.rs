pub mod npc;

pub use npc::LogicNpcData;
pub use npc::NpcDataView;
