use vstd::prelude::*;
use vstd::string::*;
use vstd::utf8::*;
use crate::byte_stream::{lemma_overwrite_empty, text_fits};
use super::avatar::{client_avatar_at, client_avatar_bytes, clone_via_round_trip, lemma_client_avatar_read_back, ClientAvatarView, LogicClientAvatar, LogicNpcAvatar};
use super::command::{command_views, CommandView, LogicCommand, LogicCommandManager};
use super::data::npc::{lemma_npc_data_read_back, npc_data_at, npc_data_bytes};
use super::data::NpcDataView;
use super::home::LogicClientHome;
use super::json::LogicJSONNode;
use super::level::{actor_view, blank_level, executed, mix, mixed, HomeOwner, HomeOwnerView, LevelView, LogicLevel};
use super::time::LogicTime;

verus! {

/// The state of a simulation that shows the player's own base: the state
/// that is written to storage.
pub const HOME_STATE: i32 = 1;

/// The state of a simulation in which the player attacks a computer-run
/// opponent.
pub const NPC_ATTACK_STATE: i32 = 2;

/// The simulation of one session: its state, its level, the commands that
/// wait for their sub-tick, and the time it was told.
pub struct LogicGameMode {
    pub state: i32,
    pub level: LogicLevel,
    pub command_manager: LogicCommandManager,
    pub current_timestamp: i32,
}

/// What a simulation holds, as plain values.
pub struct GameModeView {
    pub state: i32,
    pub level: LevelView,
    pub pending: Seq<CommandView>,
    pub current_timestamp: i32,
}

impl View for LogicGameMode {
    type V = GameModeView;

    open spec fn view(&self) -> GameModeView {
        GameModeView {
            state: self.state,
            level: self.level@,
            pending: self.command_manager@,
            current_timestamp: self.current_timestamp,
        }
    }
}

/// The level after every command of `commands` that is due at the level's
/// sub-tick was carried out, in the order of the sequence.
pub open spec fn executed_due(level: LevelView, commands: Seq<CommandView>) -> LevelView
    decreases commands.len(),
{
    if commands.len() == 0 {
        level
    } else {
        let before = executed_due(level, commands.drop_last());
        if commands.last().execute_sub_tick == level.sub_tick {
            executed(before, commands.last())
        } else {
            before
        }
    }
}

/// The commands of `commands` that are due after `sub_tick`, in order.
pub open spec fn still_waiting(commands: Seq<CommandView>, sub_tick: i32) -> Seq<CommandView>
    decreases commands.len(),
{
    if commands.len() == 0 {
        Seq::empty()
    } else {
        let before = still_waiting(commands.drop_last(), sub_tick);
        if commands.last().execute_sub_tick > sub_tick {
            before.push(commands.last())
        } else {
            before
        }
    }
}

/// The simulation one sub-tick later: the waiting commands that are due at
/// the present sub-tick are carried out in order, those due later keep
/// waiting, those due earlier are dropped, and the clock moves on by one.
pub open spec fn ticked(mode: GameModeView) -> GameModeView {
    let level = executed_due(mode.level, mode.pending);
    GameModeView {
        level: LevelView { sub_tick: (mode.level.sub_tick + 1) as i32, ..level },
        pending: still_waiting(mode.pending, mode.level.sub_tick),
        ..mode
    }
}

/// A digest that has taken in `values` one after the other.
pub open spec fn folded(digest: i32, values: Seq<i32>) -> i32
    decreases values.len(),
{
    if values.len() == 0 {
        digest
    } else {
        mixed(folded(digest, values.drop_last()), values.last())
    }
}

/// The values by which a player's actor enters the checksum.
pub open spec fn actor_values(actor: Option<ClientAvatarView>) -> Seq<i32> {
    match actor {
        None => seq![0i32],
        Some(a) => seq![
            1i32,
            a.id.higher_int,
            a.id.lower_int,
            a.level,
            a.diamonds,
            a.gold,
            a.elixir,
            a.score,
        ],
    }
}

/// The values by which the owner of a level enters the checksum.
pub open spec fn owner_values(owner: Option<HomeOwnerView>) -> Seq<i32> {
    match owner {
        None => seq![0i32],
        Some(HomeOwnerView::Client(a)) => actor_values(Some(a)),
        Some(HomeOwnerView::Npc(d)) => seq![2i32, d.global_id],
    }
}

/// The values that the checksum takes in, in order.
pub open spec fn checksum_values(mode: GameModeView, include_game_objects: bool) -> Seq<i32> {
    seq![
        mode.state,
        mode.level.sub_tick,
        mode.level.seconds_since_last_save,
        mode.level.command_digest,
    ] + owner_values(mode.level.home_owner) + actor_values(mode.level.visitor) + (if include_game_objects {
        seq![(encode_utf8(mode.level.home_json).len() as usize) as i32]
    } else {
        Seq::<i32>::empty()
    })
}

/// The checksum of a simulation: a digest of its state, its clock, the
/// commands it has carried out and the counters of its actors, and of the
/// size of its base where the game objects are asked for.
pub open spec fn checksum(mode: GameModeView, include_game_objects: bool) -> i32 {
    folded(0, checksum_values(mode, include_game_objects))
}

/// The copy that a round trip through the byte form makes of a player's
/// actor, if the bytes can be read back.
pub open spec fn copied_actor(a: ClientAvatarView) -> Option<ClientAvatarView> {
    match client_avatar_at(client_avatar_bytes(a), 0) {
        Some((copy, _)) => Some(copy),
        None => None,
    }
}

/// The copy that a round trip through the byte form makes of a computer-run
/// actor, if the bytes can be read back.
pub open spec fn copied_npc(a: NpcDataView) -> Option<NpcDataView> {
    match npc_data_at(npc_data_bytes(a), 0) {
        Some((copy, _)) => Some(copy),
        None => None,
    }
}

/// The copy of a player's actor whose name fits holds what the actor holds.
pub proof fn lemma_copied_actor(a: ClientAvatarView)
    requires
        text_fits(a.name),
    ensures
        copied_actor(a) == Some(a),
{
    let bytes = client_avatar_bytes(a);
    lemma_client_avatar_read_back(Seq::empty(), 0, a, Seq::empty());
    lemma_overwrite_empty(bytes);
}

/// The copy of a computer-run actor whose resource name fits holds what the
/// actor holds.
pub proof fn lemma_copied_npc(a: NpcDataView)
    requires
        text_fits(a.level_json_file_name),
    ensures
        copied_npc(a) == Some(a),
{
    let bytes = npc_data_bytes(a);
    lemma_npc_data_read_back(Seq::empty(), 0, a, Seq::empty());
    lemma_overwrite_empty(bytes);
}

/// Carrying out commands does not move the clock.
pub proof fn lemma_executed_due_keeps_clock(level: LevelView, commands: Seq<CommandView>)
    ensures
        executed_due(level, commands).sub_tick == level.sub_tick,
    decreases commands.len(),
{
    if commands.len() > 0 {
        lemma_executed_due_keeps_clock(level, commands.drop_last());
    }
}

/// The simulation that `LogicGameMode::new` gives.
pub open spec fn blank_mode() -> GameModeView {
    GameModeView { state: 0, level: blank_level(), pending: Seq::empty(), current_timestamp: 0 }
}

/// The simulation that shows a base to its owner.
pub open spec fn home_mode(
    home_json: Seq<char>,
    owner: ClientAvatarView,
    seconds_since_last_save: i32,
    current_timestamp: i32,
) -> GameModeView {
    GameModeView {
        state: HOME_STATE,
        level: LevelView {
            home_owner: Some(HomeOwnerView::Client(owner)),
            home_json,
            seconds_since_last_save,
            ..blank_level()
        },
        pending: Seq::empty(),
        current_timestamp,
    }
}

/// The simulation in which a player attacks a computer-run opponent.
pub open spec fn npc_attack_mode(
    home_json: Seq<char>,
    owner: NpcDataView,
    visitor: ClientAvatarView,
    seconds_since_last_save: i32,
    current_timestamp: i32,
) -> GameModeView {
    GameModeView {
        state: NPC_ATTACK_STATE,
        level: LevelView {
            home_owner: Some(HomeOwnerView::Npc(owner)),
            visitor: Some(visitor),
            home_json,
            seconds_since_last_save,
            ..blank_level()
        },
        pending: Seq::empty(),
        current_timestamp,
    }
}

impl LogicGameMode {
    /// A simulation in no state, with a blank level.
    pub fn new() -> (r: Self)
        ensures
            r@ == blank_mode(),
    {
        Self {
            state: 0,
            level: LogicLevel::new(),
            command_manager: LogicCommandManager::new(),
            current_timestamp: 0,
        }
    }

    /// Starts the simulation of a base with its owner. The level starts at
    /// sub-tick zero, no command waits, and the time told before is kept.
    pub fn load_home_state(
        &mut self,
        logic_client_home: &LogicClientHome,
        logic_client_avatar: &LogicClientAvatar,
        seconds_since_last_save: i32,
    )
        ensures
            final(self)@ == home_mode(
                logic_client_home@,
                logic_client_avatar@,
                seconds_since_last_save,
                old(self)@.current_timestamp,
            ),
    {
        self.state = HOME_STATE;
        self.level = LogicLevel {
            time: LogicTime { sub_tick: 0 },
            home_owner_avatar: Some(HomeOwner::Client(logic_client_avatar.duplicate())),
            visitor_avatar: None,
            home_json: logic_client_home.home_json.clone(),
            command_digest: 0,
            seconds_since_last_save,
        };
        self.command_manager = LogicCommandManager::new();
    }

    /// Starts the simulation of an attack: the level belongs to the
    /// computer-run opponent and the player visits it.
    pub fn load_npc_attack_state(
        &mut self,
        logic_client_home: &LogicClientHome,
        logic_npc_avatar: &LogicNpcAvatar,
        logic_client_avatar: &LogicClientAvatar,
        seconds_since_last_save: i32,
    )
        ensures
            final(self)@ == npc_attack_mode(
                logic_client_home@,
                logic_npc_avatar@,
                logic_client_avatar@,
                seconds_since_last_save,
                old(self)@.current_timestamp,
            ),
    {
        self.state = NPC_ATTACK_STATE;
        self.level = LogicLevel {
            time: LogicTime { sub_tick: 0 },
            home_owner_avatar: Some(HomeOwner::Npc(logic_npc_avatar.duplicate())),
            visitor_avatar: Some(logic_client_avatar.duplicate()),
            home_json: logic_client_home.home_json.clone(),
            command_digest: 0,
            seconds_since_last_save,
        };
        self.command_manager = LogicCommandManager::new();
    }

    /// A copy of the owner made by a round trip through the byte form, where
    /// the owner is a player.
    pub fn get_cloned_home_owner(&self) -> (r: Option<LogicClientAvatar>)
        ensures
            actor_view(r) == (match self@.level.home_owner {
                Some(HomeOwnerView::Client(a)) => copied_actor(a),
                _ => None,
            }),
    {
        match &self.level.home_owner_avatar {
            Some(HomeOwner::Client(a)) => clone_via_round_trip(a),
            _ => None,
        }
    }

    /// A copy of the owner made by a round trip through the byte form, where
    /// the owner is run by the computer.
    pub fn get_cloned_npc_home_owner(&self) -> (r: Option<LogicNpcAvatar>)
        ensures
            match self@.level.home_owner {
                Some(HomeOwnerView::Npc(a)) => match copied_npc(a) {
                    Some(copy) => r is Some && r.unwrap()@ == copy,
                    None => r is None,
                },
                _ => r is None,
            },
    {
        match &self.level.home_owner_avatar {
            Some(HomeOwner::Npc(a)) => clone_via_round_trip(a),
            _ => None,
        }
    }

    /// A copy of the visitor made by a round trip through the byte form.
    pub fn get_cloned_visitor(&self) -> (r: Option<LogicClientAvatar>)
        ensures
            actor_view(r) == (match self@.level.visitor {
                Some(a) => copied_actor(a),
                None => None,
            }),
    {
        match &self.level.visitor_avatar {
            Some(a) => clone_via_round_trip(a),
            None => None,
        }
    }

    /// Moves the simulation on by one sub-tick.
    pub fn update_one_sub_tick(&mut self)
        requires
            old(self)@.level.sub_tick < i32::MAX,
        ensures
            final(self)@ == ticked(old(self)@),
    {
        let tick: i32 = self.level.time.sub_tick;
        let mut waiting: Vec<LogicCommand> = Vec::new();
        std::mem::swap(&mut waiting, &mut self.command_manager.commands);
        let ghost all = command_views(waiting@);
        let mut kept: Vec<LogicCommand> = Vec::new();
        let mut k: usize = 0;
        assert(command_views(kept@) =~= Seq::<CommandView>::empty());
        while k < waiting.len()
            invariant
                k <= waiting@.len(),
                all == command_views(waiting@),
                all == old(self)@.pending,
                tick == old(self)@.level.sub_tick,
                self.state == old(self).state,
                self.current_timestamp == old(self).current_timestamp,
                self.level@ == executed_due(old(self)@.level, all.subrange(0, k as int)),
                command_views(kept@) == still_waiting(all.subrange(0, k as int), tick),
            decreases waiting@.len() - k,
        {
            let command: LogicCommand = waiting[k].duplicate();
            proof {
                let next = all.subrange(0, k + 1);
                assert(next.drop_last() =~= all.subrange(0, k as int));
                assert(next.last() == command@);
                lemma_executed_due_keeps_clock(old(self)@.level, all.subrange(0, k as int));
            }
            if command.execute_sub_tick == tick {
                self.level.execute(&command);
            } else if command.execute_sub_tick > tick {
                kept.push(command);
                assert(command_views(kept@) =~= still_waiting(all.subrange(0, k as int), tick).push(
                    command@,
                ));
            }
            k = k + 1;
        }
        assert(all.subrange(0, k as int) =~= all);
        self.command_manager.commands = kept;
        self.level.time.sub_tick = tick + 1;
    }

    /// The checksum of the simulation. The debug sink is left as it is.
    pub fn calculate_checksum(
        &self,
        debug_json: Option<&mut LogicJSONNode>,
        include_game_objects: bool,
    ) -> (r: i32)
        ensures
            r == checksum(self@, include_game_objects),
            match debug_json {
                Some(sink) => *final(sink) == *sink,
                None => true,
            },
    {
        let mut values: Vec<i32> = Vec::new();
        values.push(self.state);
        values.push(self.level.time.sub_tick);
        values.push(self.level.seconds_since_last_save);
        values.push(self.level.command_digest);
        let ghost head = values@;
        assert(head =~= seq![
            self.state,
            self.level.time.sub_tick,
            self.level.seconds_since_last_save,
            self.level.command_digest,
        ]);
        match &self.level.home_owner_avatar {
            None => {
                values.push(0);
            },
            Some(HomeOwner::Client(a)) => {
                values.push(1);
                values.push(a.id.higher_int);
                values.push(a.id.lower_int);
                values.push(a.level);
                values.push(a.diamonds);
                values.push(a.gold);
                values.push(a.elixir);
                values.push(a.score);
            },
            Some(HomeOwner::Npc(a)) => {
                values.push(2);
                values.push(a.npc_data.global_id);
            },
        }
        let ghost with_owner = values@;
        assert(with_owner =~= head + owner_values(self@.level.home_owner));
        match &self.level.visitor_avatar {
            None => {
                values.push(0);
            },
            Some(a) => {
                values.push(1);
                values.push(a.id.higher_int);
                values.push(a.id.lower_int);
                values.push(a.level);
                values.push(a.diamonds);
                values.push(a.gold);
                values.push(a.elixir);
                values.push(a.score);
            },
        }
        let ghost with_visitor = values@;
        assert(with_visitor =~= with_owner + actor_values(self@.level.visitor));
        if include_game_objects {
            let size: usize = self.level.home_json.as_str().len();
            values.push(
                #[verifier::truncate]
                (size as i32),
            );
        }
        assert(values@ =~= checksum_values(self@, include_game_objects));
        let mut digest: i32 = 0;
        let mut k: usize = 0;
        while k < values.len()
            invariant
                k <= values@.len(),
                digest == folded(0, values@.subrange(0, k as int)),
            decreases values@.len() - k,
        {
            assert(values@.subrange(0, k + 1).drop_last() =~= values@.subrange(0, k as int));
            digest = mix(digest, values[k]);
            k = k + 1;
        }
        assert(values@.subrange(0, k as int) =~= values@);
        digest
    }

    /// Writes the base of the simulation into `json`.
    pub fn save_to_json(&self, json: &mut LogicJSONNode)
        ensures
            final(json)@ == self@.level.home_json,
    {
        self.level.save_to_json(json);
    }

    pub fn get_command_manager(&mut self) -> (r: &mut LogicCommandManager)
        ensures
            *r == old(self).command_manager,
            final(self).command_manager == *final(r),
            final(self).state == old(self).state,
            final(self).level == old(self).level,
            final(self).current_timestamp == old(self).current_timestamp,
    {
        &mut self.command_manager
    }

    pub fn get_level(&self) -> (r: &LogicLevel)
        ensures
            *r == self.level,
    {
        &self.level
    }

    pub fn get_state(&self) -> (r: i32)
        ensures
            r == self@.state,
    {
        self.state
    }

    pub fn set_current_timestamp(&mut self, timestamp: i32)
        ensures
            final(self)@ == (GameModeView { current_timestamp: timestamp, ..old(self)@ }),
    {
        self.current_timestamp = timestamp;
    }
}

} // verus!
