use vstd::prelude::*;
use vstd::string::*;
use crate::logic::json::LogicJSONNode;
use crate::math::{decimal, decimal_string};

verus! {

/// The name of the numbered resource `prefix`, number, `.json`.
pub open spec fn numbered_name(prefix: Seq<char>, number: nat) -> Seq<char> {
    prefix + decimal(number) + ".json"@
}

/// The names of the resources numbered from 1 to `count`, in order.
pub open spec fn numbered_names(prefix: Seq<char>, count: nat) -> Seq<Seq<char>>
    decreases count,
{
    if count == 0 {
        Seq::empty()
    } else {
        numbered_names(prefix, (count - 1) as nat).push(numbered_name(prefix, count))
    }
}

/// The number of levels of computer-run opponents.
pub const NPCS_COUNT: usize = 48;

/// The number of ready-made bases.
pub const PREBASES_COUNT: usize = 11;

/// The names of the data tables, in the order in which they are loaded.
pub open spec fn csv_file_names() -> Seq<Seq<char>> {
    seq![
        "logic/buildings.csv"@,
        "logic/locales.csv"@,
        "logic/resources.csv"@,
        "logic/characters.csv"@,
        "csv/animations.csv"@,
        "logic/projectiles.csv"@,
        "csv/texts.csv"@,
        "csv/texts_patch.csv"@,
        "logic/regions.csv"@,
        "logic/building_classes.csv"@,
        "logic/obstacles.csv"@,
        "logic/effects.csv"@,
        "csv/particle_emitters.csv"@,
        "logic/experience_levels.csv"@,
        "logic/traps.csv"@,
        "logic/alliance_badges.csv"@,
        "logic/alliance_badge_layers.csv"@,
        "logic/globals.csv"@,
        "csv/client_globals.csv"@,
        "logic/townhall_levels.csv"@,
        "logic/alliance_portal.csv"@,
        "logic/npcs.csv"@,
        "logic/decos.csv"@,
        "csv/resource_packs.csv"@,
        "logic/shields.csv"@,
        "logic/missions.csv"@,
        "csv/billing_packages.csv"@,
        "logic/achievements.csv"@,
        "csv/credits.csv"@,
        "csv/faq.csv"@,
        "logic/spells.csv"@,
        "csv/hints.csv"@,
        "logic/heroes.csv"@,
        "logic/leagues.csv"@,
        "csv/news.csv"@,
        "logic/war.csv"@,
        "logic/alliance_levels.csv"@,
        "csv/helpshift.csv"@,
    ]
}

/// Every resource that the server needs, in the order in which it is asked
/// for: the starting base, the levels of the opponents, the ready-made bases,
/// the two tutorial levels, the data tables.
pub open spec fn required_resources() -> Seq<Seq<char>> {
    seq!["level/starting_home.json"@] + numbered_names("level/npc"@, NPCS_COUNT as nat)
        + numbered_names("level/townhall"@, PREBASES_COUNT as nat) + seq![
        "level/tutorial_npc.json"@,
        "level/tutorial_npc2.json"@,
    ] + csv_file_names()
}

/// What each text of a sequence holds.
pub open spec fn texts(items: Seq<String>) -> Seq<Seq<char>> {
    Seq::new(items.len(), |k: int| items[k]@)
}

/// The list of the resources that are to be loaded.
pub struct ResourceListener {
    pub files: Vec<String>,
    pub loading: bool,
}

impl ResourceListener {
    /// A listener that waits for nothing and has not started.
    pub fn new() -> (r: Self)
        ensures
            texts(r.files@) == Seq::<Seq<char>>::empty(),
            !r.loading,
    {
        let r = Self { files: Vec::new(), loading: false };
        assert(texts(r.files@) =~= Seq::<Seq<char>>::empty());
        r
    }

    /// Puts `name` behind the resources asked for so far.
    pub fn add_file(&mut self, name: &str)
        ensures
            texts(final(self).files@) == texts(old(self).files@).push(name@),
            final(self).loading == old(self).loading,
    {
        self.files.push(String::from_str(name));
        assert(texts(self.files@) =~= texts(old(self).files@).push(name@));
    }

    /// Marks the list as complete: loading may begin.
    pub fn start_loading(&mut self)
        ensures
            final(self).files == old(self).files,
            final(self).loading,
    {
        self.loading = true;
    }

    /// Asks for the resources `prefix`1`.json` to `prefix``count``.json`.
    pub fn add_numbered_files(&mut self, prefix: &str, count: usize)
        ensures
            texts(final(self).files@) == texts(old(self).files@) + numbered_names(
                prefix@,
                count as nat,
            ),
            final(self).loading == old(self).loading,
    {
        let mut i: usize = 0;
        assert(texts(self.files@) + numbered_names(prefix@, 0) =~= texts(self.files@));
        while i < count
            invariant
                i <= count,
                self.loading == old(self).loading,
                texts(self.files@) == texts(old(self).files@) + numbered_names(prefix@, i as nat),
            decreases count - i,
        {
            i = i + 1;
            let mut name = String::from_str(prefix);
            let number = decimal_string(i);
            name.append(number.as_str());
            name.append(".json");
            let ghost before = texts(self.files@);
            self.add_file(name.as_str());
            assert(before.push(name@) =~= texts(old(self).files@) + numbered_names(prefix@, i as nat));
        }
    }

    /// Asks for every data table.
    pub fn add_csv_files(&mut self)
        ensures
            texts(final(self).files@) == texts(old(self).files@) + csv_file_names(),
            final(self).loading == old(self).loading,
    {
        let ghost start = texts(self.files@);
        self.add_file("logic/buildings.csv");
        self.add_file("logic/locales.csv");
        self.add_file("logic/resources.csv");
        self.add_file("logic/characters.csv");
        self.add_file("csv/animations.csv");
        self.add_file("logic/projectiles.csv");
        self.add_file("csv/texts.csv");
        self.add_file("csv/texts_patch.csv");
        self.add_file("logic/regions.csv");
        self.add_file("logic/building_classes.csv");
        self.add_file("logic/obstacles.csv");
        self.add_file("logic/effects.csv");
        self.add_file("csv/particle_emitters.csv");
        self.add_file("logic/experience_levels.csv");
        self.add_file("logic/traps.csv");
        self.add_file("logic/alliance_badges.csv");
        self.add_file("logic/alliance_badge_layers.csv");
        self.add_file("logic/globals.csv");
        self.add_file("csv/client_globals.csv");
        self.add_file("logic/townhall_levels.csv");
        self.add_file("logic/alliance_portal.csv");
        self.add_file("logic/npcs.csv");
        self.add_file("logic/decos.csv");
        self.add_file("csv/resource_packs.csv");
        self.add_file("logic/shields.csv");
        self.add_file("logic/missions.csv");
        self.add_file("csv/billing_packages.csv");
        self.add_file("logic/achievements.csv");
        self.add_file("csv/credits.csv");
        self.add_file("csv/faq.csv");
        self.add_file("logic/spells.csv");
        self.add_file("csv/hints.csv");
        self.add_file("logic/heroes.csv");
        self.add_file("logic/leagues.csv");
        self.add_file("csv/news.csv");
        self.add_file("logic/war.csv");
        self.add_file("logic/alliance_levels.csv");
        self.add_file("csv/helpshift.csv");
        assert(texts(self.files@) =~= start + csv_file_names());
    }
}

/// Lists every resource that the server needs and marks the list as
/// complete.
pub fn init() -> (r: ResourceListener)
    ensures
        texts(r.files@) == required_resources(),
        r.loading,
{
    let mut listener = ResourceListener::new();
    listener.add_file("level/starting_home.json");
    listener.add_numbered_files("level/npc", NPCS_COUNT);
    listener.add_numbered_files("level/townhall", PREBASES_COUNT);
    listener.add_file("level/tutorial_npc.json");
    listener.add_file("level/tutorial_npc2.json");
    listener.add_csv_files();
    listener.start_loading();
    assert(texts(listener.files@) =~= required_resources());
    listener
}

/// One resource that was loaded: its name and its text.
pub struct LoadedResource {
    pub name: String,
    pub content: String,
}

/// What each loaded resource of a sequence holds: name and text.
pub open spec fn resource_views(resources: Seq<LoadedResource>) -> Seq<(Seq<char>, Seq<char>)> {
    Seq::new(resources.len(), |k: int| (resources[k].name@, resources[k].content@))
}

/// The text of the first resource named `path`, if there is one.
pub open spec fn found(resources: Seq<(Seq<char>, Seq<char>)>, path: Seq<char>) -> Option<Seq<char>>
    decreases resources.len(),
{
    if resources.len() == 0 {
        None
    } else if resources[0].0 == path {
        Some(resources[0].1)
    } else {
        found(resources.drop_first(), path)
    }
}

/// The resources that were loaded, in the order in which they came.
pub struct ResourceManager {
    pub resources: Vec<LoadedResource>,
}

impl View for ResourceManager {
    type V = Seq<(Seq<char>, Seq<char>)>;

    open spec fn view(&self) -> Seq<(Seq<char>, Seq<char>)> {
        resource_views(self.resources@)
    }
}

impl ResourceManager {
    /// A manager that holds nothing.
    pub fn new() -> (r: Self)
        ensures
            r@ == Seq::<(Seq<char>, Seq<char>)>::empty(),
    {
        let r = Self { resources: Vec::new() };
        assert(r@ =~= Seq::<(Seq<char>, Seq<char>)>::empty());
        r
    }

    /// Takes in a loaded resource.
    pub fn add(&mut self, name: &str, content: &str)
        ensures
            final(self)@ == old(self)@.push((name@, content@)),
    {
        self.resources.push(
            LoadedResource { name: String::from_str(name), content: String::from_str(content) },
        );
        assert(self@ =~= old(self)@.push((name@, content@)));
    }

    /// The text of the resource named `path`, if it was loaded.
    pub fn get_text(&self, path: &str) -> (r: Option<&str>)
        ensures
            match r {
                Some(text) => found(self@, path@) == Some(text@),
                None => found(self@, path@) is None,
            },
    {
        let wanted = String::from_str(path);
        let mut k: usize = 0;
        assert(self@.subrange(0, self@.len() as int) =~= self@);
        while k < self.resources.len()
            invariant
                k <= self.resources@.len(),
                wanted@ == path@,
                found(self@, path@) == found(self@.subrange(k as int, self@.len() as int), path@),
            decreases self.resources@.len() - k,
        {
            let ghost rest = self@.subrange(k as int, self@.len() as int);
            assert(rest[0] == self@[k as int]);
            assert(rest.drop_first() =~= self@.subrange(k + 1, self@.len() as int));
            if self.resources[k].name == wanted {
                return Some(self.resources[k].content.as_str());
            }
            k = k + 1;
        }
        None
    }

    /// The resource named `path` as a JSON value, if it was loaded.
    pub fn get_json(&self, path: &str) -> (r: Option<LogicJSONNode>)
        ensures
            match r {
                Some(node) => found(self@, path@) == Some(node@),
                None => found(self@, path@) is None,
            },
    {
        match self.get_text(path) {
            Some(text) => Some(LogicJSONNode::from_text(text)),
            None => None,
        }
    }
}

} // verus!
