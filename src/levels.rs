use vstd::prelude::*;

use vstd::string::StrSliceExecFns;

verus! {

/// A map, named by its city and its own name.
#[derive(Clone, Debug, PartialEq, Eq)]
pub struct MapName {
    pub city: String,
    pub map: String,
}

/// One level of the delivery game.
#[derive(Clone, Debug)]
pub struct Config {
    pub title: String,
    pub map: MapName,
    /// The OpenStreetMap way where the depot stands.
    pub start_depot: u64,
    pub minimap_zoom: u64,
    pub normal_speed_mph: u64,
    pub tired_speed_mph: u64,
    pub max_energy: u64,
    pub upzone_rate: u64,
}

fn level(
    title: &str,
    map: &str,
    start_depot: u64,
    minimap_zoom: u64,
    normal_speed_mph: u64,
    tired_speed_mph: u64,
    max_energy: u64,
    upzone_rate: u64,
) -> (r: Config)
    ensures
        r.title@ == title@,
        r.map.city@ == "seattle"@,
        r.map.map@ == map@,
        r.start_depot == start_depot,
        r.minimap_zoom == minimap_zoom,
        r.normal_speed_mph == normal_speed_mph,
        r.tired_speed_mph == tired_speed_mph,
        r.max_energy == max_energy,
        r.upzone_rate == upzone_rate,
{
    Config {
        title: title.to_owned(),
        map: MapName { city: "seattle".to_owned(), map: map.to_owned() },
        start_depot,
        minimap_zoom,
        normal_speed_mph,
        tired_speed_mph,
        max_energy,
        upzone_rate,
    }
}

/// Whether `r` is the list of levels, in order.
pub open spec fn is_level_list(r: Seq<Config>) -> bool {
    &&& r.len() == 2
    &&& r[0].title@ == "Level 1 - a small neighborhood"@
    &&& r[0].map.city@ == "seattle"@ && r[0].map.map@ == "montlake"@
    &&& r[0].start_depot == 217700589
    &&& r[0].normal_speed_mph == 30 && r[0].tired_speed_mph == 10
    &&& r[0].max_energy == 80 && r[0].upzone_rate == 100 && r[0].minimap_zoom == 0
    &&& r[1].title@ == "Level 2 - Magnolia"@
    &&& r[1].map.city@ == "seattle"@ && r[1].map.map@ == "ballard"@
    &&& r[1].start_depot == 38655876
    &&& r[1].normal_speed_mph == 40 && r[1].tired_speed_mph == 15
    &&& r[1].max_energy == 100 && r[1].upzone_rate == 150 && r[1].minimap_zoom == 2
}

/// The levels, in order.
pub fn all_levels() -> (r: Vec<Config>)
    ensures
        is_level_list(r@),
{
    vec![
        level("Level 1 - a small neighborhood", "montlake", 217700589, 0, 30, 10, 80, 100),
        level("Level 2 - Magnolia", "ballard", 38655876, 2, 40, 15, 100, 150),
    ]
}

/// What a click on the title screen asks for.
#[derive(Debug, PartialEq, Eq)]
pub enum TitleAction {
    Quit,
    Instructions,
    OpenUrl(String),
    /// Start the level at this position.
    StartLevel(usize),
}

/// The title screen: the list of levels to pick from.
#[derive(Clone, Debug)]
pub struct TitleScreen {
    pub levels: Vec<Config>,
}

pub open spec fn open_prefix() -> Seq<char> {
    seq!['o', 'p', 'e', 'n', ' ']
}

/// Whether the title screen has a button named `x`.
pub open spec fn is_button(levels: Seq<Config>, x: Seq<char>) -> bool {
    x == "quit"@ || x == "Instructions"@ || (x.len() >= 5 && x.subrange(0, 5) == open_prefix())
        || exists|i: int| 0 <= i < levels.len() && (#[trigger] levels[i]).title@ == x
}

pub open spec fn level_at(levels: Seq<Config>, x: Seq<char>, i: int) -> bool {
    0 <= i < levels.len() && levels[i].title@ == x && forall|j: int|
        0 <= j < i ==> (#[trigger] levels[j]).title@ != x
}

impl TitleScreen {
    /// The title screen offers every level, in order.
    pub fn new() -> (r: TitleScreen)
        ensures
            is_level_list(r.levels@),
    {
        TitleScreen { levels: all_levels() }
    }

    /// The action of the button named `x`: quitting, the instructions, a link to open, or
    /// the first level with that title.
    pub fn action(&self, x: &str) -> (r: TitleAction)
        requires
            is_button(self.levels@, x@),
        ensures
            x@ == "quit"@ ==> r == TitleAction::Quit,
            x@ != "quit"@ && x@ == "Instructions"@ ==> r == TitleAction::Instructions,
            x@ != "quit"@ && x@ != "Instructions"@ && x@.len() >= 5 && x@.subrange(0, 5)
                == open_prefix() ==> r is OpenUrl && r->OpenUrl_0@ == x@.subrange(5, x@.len() as int),
            x@ != "quit"@ && x@ != "Instructions"@ && !(x@.len() >= 5 && x@.subrange(0, 5)
                == open_prefix()) ==> match r {
                TitleAction::StartLevel(i) => level_at(self.levels@, x@, i as int),
                _ => false,
            },
    {
        let name = x.to_owned();
        if name == "quit".to_owned() {
            return TitleAction::Quit;
        }
        if name == "Instructions".to_owned() {
            return TitleAction::Instructions;
        }
        let n = x.unicode_len();
        if n >= 5 && x.get_char(0) == 'o' && x.get_char(1) == 'p' && x.get_char(2) == 'e'
            && x.get_char(3) == 'n' && x.get_char(4) == ' ' {
            assert(x@.subrange(0, 5) =~= open_prefix());
            return TitleAction::OpenUrl(x.substring_char(5, n).to_owned());
        }
        proof {
            if n >= 5 && x@.subrange(0, 5) == open_prefix() {
                assert(x@[0] == x@.subrange(0, 5)[0]);
                assert(x@[1] == x@.subrange(0, 5)[1]);
                assert(x@[2] == x@.subrange(0, 5)[2]);
                assert(x@[3] == x@.subrange(0, 5)[3]);
                assert(x@[4] == x@.subrange(0, 5)[4]);
            }
        }
        let mut i: usize = 0;
        while i < self.levels.len()
            invariant
                i <= self.levels@.len(),
                name@ == x@,
                x@ != "quit"@,
                x@ != "Instructions"@,
                !(x@.len() >= 5 && x@.subrange(0, 5) == open_prefix()),
                forall|j: int| 0 <= j < i ==> (#[trigger] self.levels@[j]).title@ != x@,
            decreases self.levels@.len() - i,
        {
            if self.levels[i].title == name {
                return TitleAction::StartLevel(i);
            }
            i = i + 1;
        }
        // Every button is handled above: a name that reaches here is no button.
        proof {
            let k = choose|k: int| 0 <= k < self.levels@.len() && (#[trigger] self.levels@[k]).title@ == x@;
            assert(self.levels@[k].title@ != x@);
        }
        TitleAction::Instructions
    }
}

} // verus!
