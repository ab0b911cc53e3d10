use vstd::prelude::*;
use vstd::string::*;
use super::avatar::{ClientAvatarView, LogicClientAvatar, LogicNpcAvatar};
use super::command::{CommandView, LogicCommand, CHANGE_AVATAR_NAME_COMMAND};
use super::data::NpcDataView;
use super::json::LogicJSONNode;
use super::time::LogicTime;

verus! {

/// The actor to whom a level belongs: a player or a computer-run opponent.
pub enum HomeOwner {
    Client(LogicClientAvatar),
    Npc(LogicNpcAvatar),
}

/// What the owner of a level holds, as plain values.
pub enum HomeOwnerView {
    Client(ClientAvatarView),
    Npc(NpcDataView),
}

impl View for HomeOwner {
    type V = HomeOwnerView;

    open spec fn view(&self) -> HomeOwnerView {
        match self {
            HomeOwner::Client(a) => HomeOwnerView::Client(a@),
            HomeOwner::Npc(a) => HomeOwnerView::Npc(a@),
        }
    }
}

/// What an owner that may be missing holds.
pub open spec fn owner_view(owner: Option<HomeOwner>) -> Option<HomeOwnerView> {
    match owner {
        Some(o) => Some(o@),
        None => None,
    }
}

/// What a player's actor that may be missing holds.
pub open spec fn actor_view(actor: Option<LogicClientAvatar>) -> Option<ClientAvatarView> {
    match actor {
        Some(a) => Some(a@),
        None => None,
    }
}

/// The simulated world of one session.
pub struct LogicLevel {
    pub time: LogicTime,
    pub home_owner_avatar: Option<HomeOwner>,
    pub visitor_avatar: Option<LogicClientAvatar>,
    pub home_json: String,
    pub command_digest: i32,
    pub seconds_since_last_save: i32,
}

/// What a level holds, as plain values.
pub struct LevelView {
    pub sub_tick: i32,
    pub home_owner: Option<HomeOwnerView>,
    pub visitor: Option<ClientAvatarView>,
    pub home_json: Seq<char>,
    pub command_digest: i32,
    pub seconds_since_last_save: i32,
}

impl View for LogicLevel {
    type V = LevelView;

    open spec fn view(&self) -> LevelView {
        LevelView {
            sub_tick: self.time.sub_tick,
            home_owner: owner_view(self.home_owner_avatar),
            visitor: actor_view(self.visitor_avatar),
            home_json: self.home_json@,
            command_digest: self.command_digest,
            seconds_since_last_save: self.seconds_since_last_save,
        }
    }
}

/// A running digest with one more value taken in.
pub open spec fn mixed(digest: i32, value: i32) -> i32 {
    (digest as i64 * 31 + value as i64) as i32
}

/// Takes one more value into a running digest.
pub fn mix(digest: i32, value: i32) -> (r: i32)
    ensures
        r == mixed(digest, value),
{
    let wide: i64 = digest as i64 * 31 + value as i64;
    #[verifier::truncate]
    (wide as i32)
}

/// The owner after a command was carried out: a name change that carries a
/// name gives it to an owner who is a player, and nothing else changes an
/// owner.
pub open spec fn renamed(owner: Option<HomeOwnerView>, c: CommandView) -> Option<HomeOwnerView> {
    match owner {
        Some(HomeOwnerView::Client(a)) => if c.command_type == CHANGE_AVATAR_NAME_COMMAND
            && c.avatar_name is Some {
            Some(HomeOwnerView::Client(ClientAvatarView { name: c.avatar_name.unwrap(), ..a }))
        } else {
            owner
        },
        _ => owner,
    }
}

/// The level after a command was carried out: the command's type and
/// sub-tick enter the digest of commands, and the owner may get a name.
pub open spec fn executed(level: LevelView, c: CommandView) -> LevelView {
    LevelView {
        command_digest: mixed(mixed(level.command_digest, c.command_type), c.execute_sub_tick),
        home_owner: renamed(level.home_owner, c),
        ..level
    }
}

/// The level that `LogicLevel::new` gives.
pub open spec fn blank_level() -> LevelView {
    LevelView {
        sub_tick: 0,
        home_owner: None,
        visitor: None,
        home_json: Seq::empty(),
        command_digest: 0,
        seconds_since_last_save: 0,
    }
}

impl LogicLevel {
    /// A level at sub-tick zero, without actors or base.
    pub fn new() -> (r: Self)
        ensures
            r@ == blank_level(),
    {
        Self {
            time: LogicTime { sub_tick: 0 },
            home_owner_avatar: None,
            visitor_avatar: None,
            home_json: String::new(),
            command_digest: 0,
            seconds_since_last_save: 0,
        }
    }

    pub fn get_time(&self) -> (r: &LogicTime)
        ensures
            r.sub_tick == self@.sub_tick,
    {
        &self.time
    }

    /// A copy of the owner, where the owner is a player.
    pub fn get_home_owner_avatar(&self) -> (r: Option<LogicClientAvatar>)
        ensures
            actor_view(r) == (match self@.home_owner {
                Some(HomeOwnerView::Client(a)) => Some(a),
                _ => None,
            }),
    {
        match &self.home_owner_avatar {
            Some(HomeOwner::Client(a)) => Some(a.duplicate()),
            _ => None,
        }
    }

    /// A copy of the owner, where the owner is run by the computer.
    pub fn get_home_owner_npc_avatar(&self) -> (r: Option<LogicNpcAvatar>)
        ensures
            match self@.home_owner {
                Some(HomeOwnerView::Npc(a)) => r is Some && r.unwrap()@ == a,
                _ => r is None,
            },
    {
        match &self.home_owner_avatar {
            Some(HomeOwner::Npc(a)) => Some(a.duplicate()),
            _ => None,
        }
    }

    /// A copy of the visitor, where there is one.
    pub fn get_visitor_avatar(&self) -> (r: Option<LogicClientAvatar>)
        ensures
            actor_view(r) == self@.visitor,
    {
        match &self.visitor_avatar {
            Some(a) => Some(a.duplicate()),
            None => None,
        }
    }

    /// Writes the base of the level into `json`.
    pub fn save_to_json(&self, json: &mut LogicJSONNode)
        ensures
            final(json)@ == self@.home_json,
    {
        json.set_text(self.home_json.as_str());
    }

    /// Carries out one command.
    pub fn execute(&mut self, command: &LogicCommand)
        ensures
            final(self)@ == executed(old(self)@, command@),
    {
        self.command_digest = mix(
            mix(self.command_digest, command.command_type),
            command.execute_sub_tick,
        );
        if command.command_type == CHANGE_AVATAR_NAME_COMMAND {
            match &command.avatar_name {
                Some(name) => {
                    let owner: Option<HomeOwner> = self.home_owner_avatar.take();
                    self.home_owner_avatar =
                    match owner {
                        Some(HomeOwner::Client(a)) => {
                            let mut named = a;
                            named.name = name.clone();
                            Some(HomeOwner::Client(named))
                        },
                        other => other,
                    };
                },
                None => {},
            }
        }
    }
}

} // verus!
