//! The packs of each game, which of them are installed, and which ones a mod
//! seems to need.
use vstd::prelude::*;
use crate::synccrate::state::{CompatibilityStatus, FileInfo, FileManifest, GameInfo, ModCompatibility, PackId, PackInfo, PackType};
use vstd::utf8::encode_utf8;
use crate::text::{char_is_control, chars_of, has_infix, is_control, lowercase, str_contains, str_eq, string_from_chars, to_lower, trim, trim_spec};
use crate::synccrate::registry::{first_game_index, get_game_def, GameRegistry};
use crate::paths::{join_path, path_join};

verus! {

/// A pack of the built-in lists.
pub struct KnownPack {
    pub code: &'static str,
    pub name: &'static str,
    pub pack_type: PackType,
}

/// `k` is the pack `t` (code, name, kind).
pub open spec fn known_as(k: KnownPack, t: (Seq<char>, Seq<char>, PackType)) -> bool {
    k.code@ == t.0 && k.name@ == t.1 && k.pack_type == t.2
}

/// `ks` are the packs of `table`, in order.
pub open spec fn lists(ks: Seq<KnownPack>, table: Seq<(Seq<char>, Seq<char>, PackType)>) -> bool {
    ks.len() == table.len() && forall|i: int| 0 <= i < ks.len() ==> known_as(#[trigger] ks[i], table[i])
}

/// The packs of The Sims 4: code, name and kind.
pub open spec fn sims4_table() -> Seq<(Seq<char>, Seq<char>, PackType)> {
    seq![
        ("EP01"@, "Get to Work"@, PackType::ExpansionPack),
        ("EP02"@, "Get Together"@, PackType::ExpansionPack),
        ("EP03"@, "City Living"@, PackType::ExpansionPack),
        ("EP04"@, "Cats & Dogs"@, PackType::ExpansionPack),
        ("EP05"@, "Seasons"@, PackType::ExpansionPack),
        ("EP06"@, "Get Famous"@, PackType::ExpansionPack),
        ("EP07"@, "Island Living"@, PackType::ExpansionPack),
        ("EP08"@, "Discover University"@, PackType::ExpansionPack),
        ("EP09"@, "Eco Lifestyle"@, PackType::ExpansionPack),
        ("EP10"@, "Snowy Escape"@, PackType::ExpansionPack),
        ("EP11"@, "Cottage Living"@, PackType::ExpansionPack),
        ("EP12"@, "High School Years"@, PackType::ExpansionPack),
        ("EP13"@, "Growing Together"@, PackType::ExpansionPack),
        ("EP14"@, "Horse Ranch"@, PackType::ExpansionPack),
        ("EP15"@, "Lovestruck"@, PackType::ExpansionPack),
        ("EP16"@, "Life & Death"@, PackType::ExpansionPack),
        ("GP01"@, "Outdoor Retreat"@, PackType::GamePack),
        ("GP02"@, "Spa Day"@, PackType::GamePack),
        ("GP03"@, "Dine Out"@, PackType::GamePack),
        ("GP04"@, "Vampires"@, PackType::GamePack),
        ("GP05"@, "Parenthood"@, PackType::GamePack),
        ("GP06"@, "Jungle Adventure"@, PackType::GamePack),
        ("GP07"@, "StrangerVille"@, PackType::GamePack),
        ("GP08"@, "Realm of Magic"@, PackType::GamePack),
        ("GP09"@, "Journey to Batuu"@, PackType::GamePack),
        ("GP10"@, "Dream Home Decorator"@, PackType::GamePack),
        ("GP11"@, "My Wedding Stories"@, PackType::GamePack),
        ("GP12"@, "Werewolves"@, PackType::GamePack),
        ("SP01"@, "Luxury Party"@, PackType::StuffPack),
        ("SP02"@, "Perfect Patio"@, PackType::StuffPack),
        ("SP03"@, "Cool Kitchen"@, PackType::StuffPack),
        ("SP04"@, "Spooky"@, PackType::StuffPack),
        ("SP05"@, "Movie Hangout"@, PackType::StuffPack),
        ("SP06"@, "Romantic Garden"@, PackType::StuffPack),
        ("SP07"@, "Kids Room"@, PackType::StuffPack),
        ("SP08"@, "Backyard"@, PackType::StuffPack),
        ("SP09"@, "Vintage Glamour"@, PackType::StuffPack),
        ("SP10"@, "Bowling Night"@, PackType::StuffPack),
        ("SP11"@, "Fitness"@, PackType::StuffPack),
        ("SP12"@, "Toddler"@, PackType::StuffPack),
        ("SP13"@, "Laundry Day"@, PackType::StuffPack),
        ("SP14"@, "My First Pet"@, PackType::StuffPack),
        ("SP15"@, "Moschino"@, PackType::StuffPack),
        ("SP16"@, "Tiny Living"@, PackType::StuffPack),
        ("SP17"@, "Nifty Knitting"@, PackType::StuffPack),
        ("SP18"@, "Paranormal"@, PackType::StuffPack),
        ("SP19"@, "Courtyard Oasis"@, PackType::StuffPack),
        ("SP20"@, "Fashion Street"@, PackType::StuffPack),
        ("SP21"@, "Decor to the Max"@, PackType::StuffPack),
        ("SP22"@, "Modern Menswear"@, PackType::StuffPack),
        ("SP23"@, "Blooming Rooms"@, PackType::StuffPack),
        ("SP24"@, "Carnaval Streetwear"@, PackType::StuffPack),
        ("KT01"@, "Throwback Fit"@, PackType::Kit),
        ("KT02"@, "Country Kitchen"@, PackType::Kit),
        ("KT03"@, "Bust the Dust"@, PackType::Kit),
        ("KT04"@, "Courtyard Oasis Kit"@, PackType::Kit),
        ("KT05"@, "Industrial Loft"@, PackType::Kit),
        ("KT06"@, "Fashion Street Kit"@, PackType::Kit),
        ("KT07"@, "Incheon Arrivals"@, PackType::Kit),
        ("KT08"@, "Blooming Rooms Kit"@, PackType::Kit),
        ("KT09"@, "Little Campers"@, PackType::Kit),
        ("KT10"@, "Moonlight Chic"@, PackType::Kit),
        ("KT11"@, "Desert Luxe"@, PackType::Kit),
        ("KT12"@, "Decor to the Max Kit"@, PackType::Kit),
        ("KT13"@, "Carnaval Streetwear Kit"@, PackType::Kit),
        ("KT14"@, "Pastel Pop"@, PackType::Kit),
        ("KT15"@, "Everyday Clutter"@, PackType::Kit),
        ("KT16"@, "Simtimates Collection"@, PackType::Kit),
        ("KT17"@, "Bathroom Clutter"@, PackType::Kit),
        ("KT18"@, "Greenhouse Haven"@, PackType::Kit),
        ("KT19"@, "Basement Treasures"@, PackType::Kit),
        ("KT20"@, "Grunge Revival"@, PackType::Kit),
        ("KT21"@, "Book Nook"@, PackType::Kit),
        ("KT22"@, "Poolside Splash"@, PackType::Kit),
        ("KT23"@, "Cozy Bistro"@, PackType::Kit),
        ("KT24"@, "Urban Homage"@, PackType::Kit),
        ("KT25"@, "Modern Luxe"@, PackType::Kit),
        ("KT26"@, "Castle Estate"@, PackType::Kit),
        ("KT27"@, "Goth Galore"@, PackType::Kit),
        ("KT28"@, "Glimmerbrook Gameday"@, PackType::Kit),
        ("KT29"@, "Riviera Retreat"@, PackType::Kit),
        ("KT30"@, "Sweet Slumber Party"@, PackType::Kit),
    ]
}

/// The packs of The Sims 4.
pub fn sims4_packs() -> (r: Vec<KnownPack>)
    ensures
        lists(r@, sims4_table()),
{
    vec![
        KnownPack { code: "EP01", name: "Get to Work", pack_type: PackType::ExpansionPack },
        KnownPack { code: "EP02", name: "Get Together", pack_type: PackType::ExpansionPack },
        KnownPack { code: "EP03", name: "City Living", pack_type: PackType::ExpansionPack },
        KnownPack { code: "EP04", name: "Cats & Dogs", pack_type: PackType::ExpansionPack },
        KnownPack { code: "EP05", name: "Seasons", pack_type: PackType::ExpansionPack },
        KnownPack { code: "EP06", name: "Get Famous", pack_type: PackType::ExpansionPack },
        KnownPack { code: "EP07", name: "Island Living", pack_type: PackType::ExpansionPack },
        KnownPack { code: "EP08", name: "Discover University", pack_type: PackType::ExpansionPack },
        KnownPack { code: "EP09", name: "Eco Lifestyle", pack_type: PackType::ExpansionPack },
        KnownPack { code: "EP10", name: "Snowy Escape", pack_type: PackType::ExpansionPack },
        KnownPack { code: "EP11", name: "Cottage Living", pack_type: PackType::ExpansionPack },
        KnownPack { code: "EP12", name: "High School Years", pack_type: PackType::ExpansionPack },
        KnownPack { code: "EP13", name: "Growing Together", pack_type: PackType::ExpansionPack },
        KnownPack { code: "EP14", name: "Horse Ranch", pack_type: PackType::ExpansionPack },
        KnownPack { code: "EP15", name: "Lovestruck", pack_type: PackType::ExpansionPack },
        KnownPack { code: "EP16", name: "Life & Death", pack_type: PackType::ExpansionPack },
        KnownPack { code: "GP01", name: "Outdoor Retreat", pack_type: PackType::GamePack },
        KnownPack { code: "GP02", name: "Spa Day", pack_type: PackType::GamePack },
        KnownPack { code: "GP03", name: "Dine Out", pack_type: PackType::GamePack },
        KnownPack { code: "GP04", name: "Vampires", pack_type: PackType::GamePack },
        KnownPack { code: "GP05", name: "Parenthood", pack_type: PackType::GamePack },
        KnownPack { code: "GP06", name: "Jungle Adventure", pack_type: PackType::GamePack },
        KnownPack { code: "GP07", name: "StrangerVille", pack_type: PackType::GamePack },
        KnownPack { code: "GP08", name: "Realm of Magic", pack_type: PackType::GamePack },
        KnownPack { code: "GP09", name: "Journey to Batuu", pack_type: PackType::GamePack },
        KnownPack { code: "GP10", name: "Dream Home Decorator", pack_type: PackType::GamePack },
        KnownPack { code: "GP11", name: "My Wedding Stories", pack_type: PackType::GamePack },
        KnownPack { code: "GP12", name: "Werewolves", pack_type: PackType::GamePack },
        KnownPack { code: "SP01", name: "Luxury Party", pack_type: PackType::StuffPack },
        KnownPack { code: "SP02", name: "Perfect Patio", pack_type: PackType::StuffPack },
        KnownPack { code: "SP03", name: "Cool Kitchen", pack_type: PackType::StuffPack },
        KnownPack { code: "SP04", name: "Spooky", pack_type: PackType::StuffPack },
        KnownPack { code: "SP05", name: "Movie Hangout", pack_type: PackType::StuffPack },
        KnownPack { code: "SP06", name: "Romantic Garden", pack_type: PackType::StuffPack },
        KnownPack { code: "SP07", name: "Kids Room", pack_type: PackType::StuffPack },
        KnownPack { code: "SP08", name: "Backyard", pack_type: PackType::StuffPack },
        KnownPack { code: "SP09", name: "Vintage Glamour", pack_type: PackType::StuffPack },
        KnownPack { code: "SP10", name: "Bowling Night", pack_type: PackType::StuffPack },
        KnownPack { code: "SP11", name: "Fitness", pack_type: PackType::StuffPack },
        KnownPack { code: "SP12", name: "Toddler", pack_type: PackType::StuffPack },
        KnownPack { code: "SP13", name: "Laundry Day", pack_type: PackType::StuffPack },
        KnownPack { code: "SP14", name: "My First Pet", pack_type: PackType::StuffPack },
        KnownPack { code: "SP15", name: "Moschino", pack_type: PackType::StuffPack },
        KnownPack { code: "SP16", name: "Tiny Living", pack_type: PackType::StuffPack },
        KnownPack { code: "SP17", name: "Nifty Knitting", pack_type: PackType::StuffPack },
        KnownPack { code: "SP18", name: "Paranormal", pack_type: PackType::StuffPack },
        KnownPack { code: "SP19", name: "Courtyard Oasis", pack_type: PackType::StuffPack },
        KnownPack { code: "SP20", name: "Fashion Street", pack_type: PackType::StuffPack },
        KnownPack { code: "SP21", name: "Decor to the Max", pack_type: PackType::StuffPack },
        KnownPack { code: "SP22", name: "Modern Menswear", pack_type: PackType::StuffPack },
        KnownPack { code: "SP23", name: "Blooming Rooms", pack_type: PackType::StuffPack },
        KnownPack { code: "SP24", name: "Carnaval Streetwear", pack_type: PackType::StuffPack },
        KnownPack { code: "KT01", name: "Throwback Fit", pack_type: PackType::Kit },
        KnownPack { code: "KT02", name: "Country Kitchen", pack_type: PackType::Kit },
        KnownPack { code: "KT03", name: "Bust the Dust", pack_type: PackType::Kit },
        KnownPack { code: "KT04", name: "Courtyard Oasis Kit", pack_type: PackType::Kit },
        KnownPack { code: "KT05", name: "Industrial Loft", pack_type: PackType::Kit },
        KnownPack { code: "KT06", name: "Fashion Street Kit", pack_type: PackType::Kit },
        KnownPack { code: "KT07", name: "Incheon Arrivals", pack_type: PackType::Kit },
        KnownPack { code: "KT08", name: "Blooming Rooms Kit", pack_type: PackType::Kit },
        KnownPack { code: "KT09", name: "Little Campers", pack_type: PackType::Kit },
        KnownPack { code: "KT10", name: "Moonlight Chic", pack_type: PackType::Kit },
        KnownPack { code: "KT11", name: "Desert Luxe", pack_type: PackType::Kit },
        KnownPack { code: "KT12", name: "Decor to the Max Kit", pack_type: PackType::Kit },
        KnownPack { code: "KT13", name: "Carnaval Streetwear Kit", pack_type: PackType::Kit },
        KnownPack { code: "KT14", name: "Pastel Pop", pack_type: PackType::Kit },
        KnownPack { code: "KT15", name: "Everyday Clutter", pack_type: PackType::Kit },
        KnownPack { code: "KT16", name: "Simtimates Collection", pack_type: PackType::Kit },
        KnownPack { code: "KT17", name: "Bathroom Clutter", pack_type: PackType::Kit },
        KnownPack { code: "KT18", name: "Greenhouse Haven", pack_type: PackType::Kit },
        KnownPack { code: "KT19", name: "Basement Treasures", pack_type: PackType::Kit },
        KnownPack { code: "KT20", name: "Grunge Revival", pack_type: PackType::Kit },
        KnownPack { code: "KT21", name: "Book Nook", pack_type: PackType::Kit },
        KnownPack { code: "KT22", name: "Poolside Splash", pack_type: PackType::Kit },
        KnownPack { code: "KT23", name: "Cozy Bistro", pack_type: PackType::Kit },
        KnownPack { code: "KT24", name: "Urban Homage", pack_type: PackType::Kit },
        KnownPack { code: "KT25", name: "Modern Luxe", pack_type: PackType::Kit },
        KnownPack { code: "KT26", name: "Castle Estate", pack_type: PackType::Kit },
        KnownPack { code: "KT27", name: "Goth Galore", pack_type: PackType::Kit },
        KnownPack { code: "KT28", name: "Glimmerbrook Gameday", pack_type: PackType::Kit },
        KnownPack { code: "KT29", name: "Riviera Retreat", pack_type: PackType::Kit },
        KnownPack { code: "KT30", name: "Sweet Slumber Party", pack_type: PackType::Kit },
    ]
}

/// The packs of The Sims 3: code, name and kind.
pub open spec fn sims3_table() -> Seq<(Seq<char>, Seq<char>, PackType)> {
    seq![
        ("EP01"@, "World Adventures"@, PackType::ExpansionPack),
        ("EP02"@, "Ambitions"@, PackType::ExpansionPack),
        ("EP03"@, "Late Night"@, PackType::ExpansionPack),
        ("EP04"@, "Generations"@, PackType::ExpansionPack),
        ("EP05"@, "Pets"@, PackType::ExpansionPack),
        ("EP06"@, "Showtime"@, PackType::ExpansionPack),
        ("EP07"@, "Supernatural"@, PackType::ExpansionPack),
        ("EP08"@, "Seasons"@, PackType::ExpansionPack),
        ("EP09"@, "University Life"@, PackType::ExpansionPack),
        ("EP10"@, "Island Paradise"@, PackType::ExpansionPack),
        ("EP11"@, "Into the Future"@, PackType::ExpansionPack),
        ("SP01"@, "High-End Loft"@, PackType::StuffPack),
        ("SP02"@, "Fast Lane"@, PackType::StuffPack),
        ("SP03"@, "Outdoor Living"@, PackType::StuffPack),
        ("SP04"@, "Town Life"@, PackType::StuffPack),
        ("SP05"@, "Master Suite"@, PackType::StuffPack),
        ("SP06"@, "Katy Perry's Sweet Treats"@, PackType::StuffPack),
        ("SP07"@, "Diesel"@, PackType::StuffPack),
        ("SP08"@, "70s 80s & 90s"@, PackType::StuffPack),
        ("SP09"@, "Movie"@, PackType::StuffPack),
    ]
}

/// The packs of The Sims 3.
pub fn sims3_packs() -> (r: Vec<KnownPack>)
    ensures
        lists(r@, sims3_table()),
{
    vec![
        KnownPack { code: "EP01", name: "World Adventures", pack_type: PackType::ExpansionPack },
        KnownPack { code: "EP02", name: "Ambitions", pack_type: PackType::ExpansionPack },
        KnownPack { code: "EP03", name: "Late Night", pack_type: PackType::ExpansionPack },
        KnownPack { code: "EP04", name: "Generations", pack_type: PackType::ExpansionPack },
        KnownPack { code: "EP05", name: "Pets", pack_type: PackType::ExpansionPack },
        KnownPack { code: "EP06", name: "Showtime", pack_type: PackType::ExpansionPack },
        KnownPack { code: "EP07", name: "Supernatural", pack_type: PackType::ExpansionPack },
        KnownPack { code: "EP08", name: "Seasons", pack_type: PackType::ExpansionPack },
        KnownPack { code: "EP09", name: "University Life", pack_type: PackType::ExpansionPack },
        KnownPack { code: "EP10", name: "Island Paradise", pack_type: PackType::ExpansionPack },
        KnownPack { code: "EP11", name: "Into the Future", pack_type: PackType::ExpansionPack },
        KnownPack { code: "SP01", name: "High-End Loft", pack_type: PackType::StuffPack },
        KnownPack { code: "SP02", name: "Fast Lane", pack_type: PackType::StuffPack },
        KnownPack { code: "SP03", name: "Outdoor Living", pack_type: PackType::StuffPack },
        KnownPack { code: "SP04", name: "Town Life", pack_type: PackType::StuffPack },
        KnownPack { code: "SP05", name: "Master Suite", pack_type: PackType::StuffPack },
        KnownPack { code: "SP06", name: "Katy Perry's Sweet Treats", pack_type: PackType::StuffPack },
        KnownPack { code: "SP07", name: "Diesel", pack_type: PackType::StuffPack },
        KnownPack { code: "SP08", name: "70s 80s & 90s", pack_type: PackType::StuffPack },
        KnownPack { code: "SP09", name: "Movie", pack_type: PackType::StuffPack },
    ]
}

/// The packs of The Sims 2: code, name and kind.
pub open spec fn sims2_table() -> Seq<(Seq<char>, Seq<char>, PackType)> {
    seq![
        ("EP01"@, "University"@, PackType::ExpansionPack),
        ("EP02"@, "Nightlife"@, PackType::ExpansionPack),
        ("EP03"@, "Open for Business"@, PackType::ExpansionPack),
        ("EP04"@, "Pets"@, PackType::ExpansionPack),
        ("EP05"@, "Seasons"@, PackType::ExpansionPack),
        ("EP06"@, "Bon Voyage"@, PackType::ExpansionPack),
        ("EP07"@, "FreeTime"@, PackType::ExpansionPack),
        ("EP08"@, "Apartment Life"@, PackType::ExpansionPack),
        ("SP01"@, "Family Fun"@, PackType::StuffPack),
        ("SP02"@, "Glamour Life"@, PackType::StuffPack),
        ("SP03"@, "Happy Holiday"@, PackType::StuffPack),
        ("SP04"@, "Celebration!"@, PackType::StuffPack),
        ("SP05"@, "H&M Fashion"@, PackType::StuffPack),
        ("SP06"@, "Teen Style"@, PackType::StuffPack),
        ("SP07"@, "Kitchen & Bath Interior Design"@, PackType::StuffPack),
        ("SP08"@, "IKEA Home"@, PackType::StuffPack),
        ("SP09"@, "Mansion & Garden"@, PackType::StuffPack),
    ]
}

/// The packs of The Sims 2.
pub fn sims2_packs() -> (r: Vec<KnownPack>)
    ensures
        lists(r@, sims2_table()),
{
    vec![
        KnownPack { code: "EP01", name: "University", pack_type: PackType::ExpansionPack },
        KnownPack { code: "EP02", name: "Nightlife", pack_type: PackType::ExpansionPack },
        KnownPack { code: "EP03", name: "Open for Business", pack_type: PackType::ExpansionPack },
        KnownPack { code: "EP04", name: "Pets", pack_type: PackType::ExpansionPack },
        KnownPack { code: "EP05", name: "Seasons", pack_type: PackType::ExpansionPack },
        KnownPack { code: "EP06", name: "Bon Voyage", pack_type: PackType::ExpansionPack },
        KnownPack { code: "EP07", name: "FreeTime", pack_type: PackType::ExpansionPack },
        KnownPack { code: "EP08", name: "Apartment Life", pack_type: PackType::ExpansionPack },
        KnownPack { code: "SP01", name: "Family Fun", pack_type: PackType::StuffPack },
        KnownPack { code: "SP02", name: "Glamour Life", pack_type: PackType::StuffPack },
        KnownPack { code: "SP03", name: "Happy Holiday", pack_type: PackType::StuffPack },
        KnownPack { code: "SP04", name: "Celebration!", pack_type: PackType::StuffPack },
        KnownPack { code: "SP05", name: "H&M Fashion", pack_type: PackType::StuffPack },
        KnownPack { code: "SP06", name: "Teen Style", pack_type: PackType::StuffPack },
        KnownPack { code: "SP07", name: "Kitchen & Bath Interior Design", pack_type: PackType::StuffPack },
        KnownPack { code: "SP08", name: "IKEA Home", pack_type: PackType::StuffPack },
        KnownPack { code: "SP09", name: "Mansion & Garden", pack_type: PackType::StuffPack },
    ]
}

/// The pack list under the key `key` (`sims4`, `sims3` or `sims2`); empty for any
/// other key.
pub open spec fn pack_table(key: Seq<char>) -> Seq<(Seq<char>, Seq<char>, PackType)> {
    if key == "sims4"@ {
        sims4_table()
    } else if key == "sims3"@ {
        sims3_table()
    } else if key == "sims2"@ {
        sims2_table()
    } else {
        Seq::empty()
    }
}

/// `p` is the pack `t` (code, name, kind).
pub open spec fn info_is(p: PackInfo, t: (Seq<char>, Seq<char>, PackType)) -> bool {
    p.id.code@ == t.0 && p.name@ == t.1 && p.id.pack_type == t.2
}

/// `ps` are the packs of `table`, in order.
pub open spec fn infos(ps: Seq<PackInfo>, table: Seq<(Seq<char>, Seq<char>, PackType)>) -> bool {
    ps.len() == table.len() && forall|i: int| 0 <= i < ps.len() ==> info_is(#[trigger] ps[i], table[i])
}

fn to_infos(ks: Vec<KnownPack>, Ghost(table): Ghost<Seq<(Seq<char>, Seq<char>, PackType)>>) -> (r: Vec<PackInfo>)
    requires
        lists(ks@, table),
    ensures
        infos(r@, table),
{
    let mut r: Vec<PackInfo> = Vec::new();
    let mut i: usize = 0;
    while i < ks.len()
        invariant
            lists(ks@, table),
            i <= ks.len(),
            r@.len() == i,
            forall|j: int| 0 <= j < i ==> info_is(#[trigger] r@[j], table[j]),
        decreases ks.len() - i,
    {
        let k = &ks[i];
        assert(known_as(ks@[i as int], table[i as int]));
        r.push(PackInfo { id: PackId { code: k.code.to_string(), pack_type: k.pack_type }, name: k.name.to_string() });
        i += 1;
    }
    r
}

/// The packs of the game whose pack list is under `packs_key` (the `packs` entry
/// of its registry definition); none for an unknown key.
pub fn get_pack_registry(packs_key: &str) -> (r: Vec<PackInfo>)
    ensures
        infos(r@, pack_table(packs_key@)),
{
    proof {
        reveal_strlit("sims4");
        reveal_strlit("sims3");
        reveal_strlit("sims2");
        assert("sims4"@[4] != "sims3"@[4]);
        assert("sims4"@[4] != "sims2"@[4]);
        assert("sims3"@[4] != "sims2"@[4]);
    }
    if str_eq(packs_key, "sims4") {
        to_infos(sims4_packs(), Ghost(sims4_table()))
    } else if str_eq(packs_key, "sims3") {
        to_infos(sims3_packs(), Ghost(sims3_table()))
    } else if str_eq(packs_key, "sims2") {
        to_infos(sims2_packs(), Ghost(sims2_table()))
    } else {
        Vec::new()
    }
}

/// The kind a pack code names by its first two letters: `EP`, `GP`, `SP` or `KT`.
pub open spec fn kind_of_code(code: Seq<char>) -> Option<PackType> {
    if code.len() < 2 {
        None
    } else if code[0] == 'E' && code[1] == 'P' {
        Some(PackType::ExpansionPack)
    } else if code[0] == 'G' && code[1] == 'P' {
        Some(PackType::GamePack)
    } else if code[0] == 'S' && code[1] == 'P' {
        Some(PackType::StuffPack)
    } else if code[0] == 'K' && code[1] == 'T' {
        Some(PackType::Kit)
    } else {
        None
    }
}

/// A pack of a list: a four-character code of two letters that name its kind and
/// two digits, and a non-empty name.
pub open spec fn pack_entry_ok(t: (Seq<char>, Seq<char>, PackType)) -> bool {
    &&& t.0.len() == 4
    &&& t.1.len() > 0
    &&& kind_of_code(t.0) == Some(t.2)
    &&& '0' <= t.0[2] && t.0[2] <= '9' && '0' <= t.0[3] && t.0[3] <= '9'
}

/// A pack list whose packs are well formed and whose codes are distinct.
pub open spec fn table_ok(t: Seq<(Seq<char>, Seq<char>, PackType)>) -> bool {
    &&& forall|i: int| 0 <= i < t.len() ==> pack_entry_ok(#[trigger] t[i])
    &&& forall|i: int, j: int| 0 <= i < j < t.len() ==> (#[trigger] t[i]).0 != (#[trigger] t[j]).0
}

spec fn kind_rank(k: PackType) -> int {
    match k {
        PackType::ExpansionPack => 0,
        PackType::GamePack => 1,
        PackType::StuffPack => 2,
        PackType::Kit => 3,
    }
}

/// Orders well-formed codes by kind, then by number.
spec fn code_rank(t: (Seq<char>, Seq<char>, PackType)) -> int {
    kind_rank(t.2) * 100 + (t.0[2] as int - 48) * 10 + (t.0[3] as int - 48)
}

/// A list of well-formed packs whose codes come in increasing order is well formed.
proof fn lemma_increasing_table_ok(t: Seq<(Seq<char>, Seq<char>, PackType)>)
    requires
        forall|i: int| 0 <= i < t.len() ==> pack_entry_ok(#[trigger] t[i]),
        forall|i: int| 0 <= i < t.len() - 1 ==> code_rank(#[trigger] t[i]) < code_rank(t[i + 1]),
    ensures
        table_ok(t),
    decreases t.len(),
{
    if t.len() > 0 {
        let u = t.drop_last();
        assert forall|i: int| 0 <= i < u.len() implies pack_entry_ok(#[trigger] u[i]) by {
            assert(u[i] == t[i]);
        }
        assert forall|i: int| 0 <= i < u.len() - 1 implies code_rank(#[trigger] u[i]) < code_rank(u[i + 1]) by {
            assert(u[i] == t[i] && u[i + 1] == t[i + 1]);
        }
        lemma_increasing_table_ok(u);
        assert forall|i: int| 0 <= i < t.len() - 1 implies code_rank(#[trigger] t[i]) < code_rank(t[t.len() - 1]) by {
            lemma_rank_below_last(t, i);
        }
        assert forall|i: int, j: int| 0 <= i < j < t.len() implies (#[trigger] t[i]).0 != (#[trigger] t[j]).0 by {
            if j < t.len() - 1 {
                assert(u[i] == t[i] && u[j] == t[j]);
            } else {
                assert(code_rank(t[i]) < code_rank(t[j]));
            }
        }
    }
}

proof fn lemma_rank_below_last(t: Seq<(Seq<char>, Seq<char>, PackType)>, i: int)
    requires
        0 <= i < t.len() - 1,
        forall|k: int| 0 <= k < t.len() - 1 ==> code_rank(#[trigger] t[k]) < code_rank(t[k + 1]),
    ensures
        code_rank(t[i]) < code_rank(t[t.len() - 1]),
    decreases t.len() - i,
{
    if i < t.len() - 2 {
        lemma_rank_below_last(t, i + 1);
        assert(code_rank(t[i]) < code_rank(t[i + 1]));
    }
}

proof fn lemma_sims4_table_ok()
    ensures
        table_ok(sims4_table()),
{
    reveal_strlit("EP01");
    reveal_strlit("Get to Work");
    reveal_strlit("EP02");
    reveal_strlit("Get Together");
    reveal_strlit("EP03");
    reveal_strlit("City Living");
    reveal_strlit("EP04");
    reveal_strlit("Cats & Dogs");
    reveal_strlit("EP05");
    reveal_strlit("Seasons");
    reveal_strlit("EP06");
    reveal_strlit("Get Famous");
    reveal_strlit("EP07");
    reveal_strlit("Island Living");
    reveal_strlit("EP08");
    reveal_strlit("Discover University");
    reveal_strlit("EP09");
    reveal_strlit("Eco Lifestyle");
    reveal_strlit("EP10");
    reveal_strlit("Snowy Escape");
    reveal_strlit("EP11");
    reveal_strlit("Cottage Living");
    reveal_strlit("EP12");
    reveal_strlit("High School Years");
    reveal_strlit("EP13");
    reveal_strlit("Growing Together");
    reveal_strlit("EP14");
    reveal_strlit("Horse Ranch");
    reveal_strlit("EP15");
    reveal_strlit("Lovestruck");
    reveal_strlit("EP16");
    reveal_strlit("Life & Death");
    reveal_strlit("GP01");
    reveal_strlit("Outdoor Retreat");
    reveal_strlit("GP02");
    reveal_strlit("Spa Day");
    reveal_strlit("GP03");
    reveal_strlit("Dine Out");
    reveal_strlit("GP04");
    reveal_strlit("Vampires");
    reveal_strlit("GP05");
    reveal_strlit("Parenthood");
    reveal_strlit("GP06");
    reveal_strlit("Jungle Adventure");
    reveal_strlit("GP07");
    reveal_strlit("StrangerVille");
    reveal_strlit("GP08");
    reveal_strlit("Realm of Magic");
    reveal_strlit("GP09");
    reveal_strlit("Journey to Batuu");
    reveal_strlit("GP10");
    reveal_strlit("Dream Home Decorator");
    reveal_strlit("GP11");
    reveal_strlit("My Wedding Stories");
    reveal_strlit("GP12");
    reveal_strlit("Werewolves");
    reveal_strlit("SP01");
    reveal_strlit("Luxury Party");
    reveal_strlit("SP02");
    reveal_strlit("Perfect Patio");
    reveal_strlit("SP03");
    reveal_strlit("Cool Kitchen");
    reveal_strlit("SP04");
    reveal_strlit("Spooky");
    reveal_strlit("SP05");
    reveal_strlit("Movie Hangout");
    reveal_strlit("SP06");
    reveal_strlit("Romantic Garden");
    reveal_strlit("SP07");
    reveal_strlit("Kids Room");
    reveal_strlit("SP08");
    reveal_strlit("Backyard");
    reveal_strlit("SP09");
    reveal_strlit("Vintage Glamour");
    reveal_strlit("SP10");
    reveal_strlit("Bowling Night");
    reveal_strlit("SP11");
    reveal_strlit("Fitness");
    reveal_strlit("SP12");
    reveal_strlit("Toddler");
    reveal_strlit("SP13");
    reveal_strlit("Laundry Day");
    reveal_strlit("SP14");
    reveal_strlit("My First Pet");
    reveal_strlit("SP15");
    reveal_strlit("Moschino");
    reveal_strlit("SP16");
    reveal_strlit("Tiny Living");
    reveal_strlit("SP17");
    reveal_strlit("Nifty Knitting");
    reveal_strlit("SP18");
    reveal_strlit("Paranormal");
    reveal_strlit("SP19");
    reveal_strlit("Courtyard Oasis");
    reveal_strlit("SP20");
    reveal_strlit("Fashion Street");
    reveal_strlit("SP21");
    reveal_strlit("Decor to the Max");
    reveal_strlit("SP22");
    reveal_strlit("Modern Menswear");
    reveal_strlit("SP23");
    reveal_strlit("Blooming Rooms");
    reveal_strlit("SP24");
    reveal_strlit("Carnaval Streetwear");
    reveal_strlit("KT01");
    reveal_strlit("Throwback Fit");
    reveal_strlit("KT02");
    reveal_strlit("Country Kitchen");
    reveal_strlit("KT03");
    reveal_strlit("Bust the Dust");
    reveal_strlit("KT04");
    reveal_strlit("Courtyard Oasis Kit");
    reveal_strlit("KT05");
    reveal_strlit("Industrial Loft");
    reveal_strlit("KT06");
    reveal_strlit("Fashion Street Kit");
    reveal_strlit("KT07");
    reveal_strlit("Incheon Arrivals");
    reveal_strlit("KT08");
    reveal_strlit("Blooming Rooms Kit");
    reveal_strlit("KT09");
    reveal_strlit("Little Campers");
    reveal_strlit("KT10");
    reveal_strlit("Moonlight Chic");
    reveal_strlit("KT11");
    reveal_strlit("Desert Luxe");
    reveal_strlit("KT12");
    reveal_strlit("Decor to the Max Kit");
    reveal_strlit("KT13");
    reveal_strlit("Carnaval Streetwear Kit");
    reveal_strlit("KT14");
    reveal_strlit("Pastel Pop");
    reveal_strlit("KT15");
    reveal_strlit("Everyday Clutter");
    reveal_strlit("KT16");
    reveal_strlit("Simtimates Collection");
    reveal_strlit("KT17");
    reveal_strlit("Bathroom Clutter");
    reveal_strlit("KT18");
    reveal_strlit("Greenhouse Haven");
    reveal_strlit("KT19");
    reveal_strlit("Basement Treasures");
    reveal_strlit("KT20");
    reveal_strlit("Grunge Revival");
    reveal_strlit("KT21");
    reveal_strlit("Book Nook");
    reveal_strlit("KT22");
    reveal_strlit("Poolside Splash");
    reveal_strlit("KT23");
    reveal_strlit("Cozy Bistro");
    reveal_strlit("KT24");
    reveal_strlit("Urban Homage");
    reveal_strlit("KT25");
    reveal_strlit("Modern Luxe");
    reveal_strlit("KT26");
    reveal_strlit("Castle Estate");
    reveal_strlit("KT27");
    reveal_strlit("Goth Galore");
    reveal_strlit("KT28");
    reveal_strlit("Glimmerbrook Gameday");
    reveal_strlit("KT29");
    reveal_strlit("Riviera Retreat");
    reveal_strlit("KT30");
    reveal_strlit("Sweet Slumber Party");
    let t = sims4_table();
    assert(pack_entry_ok(t[0]));
    assert(pack_entry_ok(t[1]));
    assert(pack_entry_ok(t[2]));
    assert(pack_entry_ok(t[3]));
    assert(pack_entry_ok(t[4]));
    assert(pack_entry_ok(t[5]));
    assert(pack_entry_ok(t[6]));
    assert(pack_entry_ok(t[7]));
    assert(pack_entry_ok(t[8]));
    assert(pack_entry_ok(t[9]));
    assert(pack_entry_ok(t[10]));
    assert(pack_entry_ok(t[11]));
    assert(pack_entry_ok(t[12]));
    assert(pack_entry_ok(t[13]));
    assert(pack_entry_ok(t[14]));
    assert(pack_entry_ok(t[15]));
    assert(pack_entry_ok(t[16]));
    assert(pack_entry_ok(t[17]));
    assert(pack_entry_ok(t[18]));
    assert(pack_entry_ok(t[19]));
    assert(pack_entry_ok(t[20]));
    assert(pack_entry_ok(t[21]));
    assert(pack_entry_ok(t[22]));
    assert(pack_entry_ok(t[23]));
    assert(pack_entry_ok(t[24]));
    assert(pack_entry_ok(t[25]));
    assert(pack_entry_ok(t[26]));
    assert(pack_entry_ok(t[27]));
    assert(pack_entry_ok(t[28]));
    assert(pack_entry_ok(t[29]));
    assert(pack_entry_ok(t[30]));
    assert(pack_entry_ok(t[31]));
    assert(pack_entry_ok(t[32]));
    assert(pack_entry_ok(t[33]));
    assert(pack_entry_ok(t[34]));
    assert(pack_entry_ok(t[35]));
    assert(pack_entry_ok(t[36]));
    assert(pack_entry_ok(t[37]));
    assert(pack_entry_ok(t[38]));
    assert(pack_entry_ok(t[39]));
    assert(pack_entry_ok(t[40]));
    assert(pack_entry_ok(t[41]));
    assert(pack_entry_ok(t[42]));
    assert(pack_entry_ok(t[43]));
    assert(pack_entry_ok(t[44]));
    assert(pack_entry_ok(t[45]));
    assert(pack_entry_ok(t[46]));
    assert(pack_entry_ok(t[47]));
    assert(pack_entry_ok(t[48]));
    assert(pack_entry_ok(t[49]));
    assert(pack_entry_ok(t[50]));
    assert(pack_entry_ok(t[51]));
    assert(pack_entry_ok(t[52]));
    assert(pack_entry_ok(t[53]));
    assert(pack_entry_ok(t[54]));
    assert(pack_entry_ok(t[55]));
    assert(pack_entry_ok(t[56]));
    assert(pack_entry_ok(t[57]));
    assert(pack_entry_ok(t[58]));
    assert(pack_entry_ok(t[59]));
    assert(pack_entry_ok(t[60]));
    assert(pack_entry_ok(t[61]));
    assert(pack_entry_ok(t[62]));
    assert(pack_entry_ok(t[63]));
    assert(pack_entry_ok(t[64]));
    assert(pack_entry_ok(t[65]));
    assert(pack_entry_ok(t[66]));
    assert(pack_entry_ok(t[67]));
    assert(pack_entry_ok(t[68]));
    assert(pack_entry_ok(t[69]));
    assert(pack_entry_ok(t[70]));
    assert(pack_entry_ok(t[71]));
    assert(pack_entry_ok(t[72]));
    assert(pack_entry_ok(t[73]));
    assert(pack_entry_ok(t[74]));
    assert(pack_entry_ok(t[75]));
    assert(pack_entry_ok(t[76]));
    assert(pack_entry_ok(t[77]));
    assert(pack_entry_ok(t[78]));
    assert(pack_entry_ok(t[79]));
    assert(pack_entry_ok(t[80]));
    assert(pack_entry_ok(t[81]));
    assert forall|i: int| 0 <= i < t.len() - 1 implies code_rank(#[trigger] t[i]) < code_rank(t[i + 1]) by {
    }
    lemma_increasing_table_ok(t);
}

proof fn lemma_sims3_table_ok()
    ensures
        table_ok(sims3_table()),
{
    reveal_strlit("EP01");
    reveal_strlit("World Adventures");
    reveal_strlit("EP02");
    reveal_strlit("Ambitions");
    reveal_strlit("EP03");
    reveal_strlit("Late Night");
    reveal_strlit("EP04");
    reveal_strlit("Generations");
    reveal_strlit("EP05");
    reveal_strlit("Pets");
    reveal_strlit("EP06");
    reveal_strlit("Showtime");
    reveal_strlit("EP07");
    reveal_strlit("Supernatural");
    reveal_strlit("EP08");
    reveal_strlit("Seasons");
    reveal_strlit("EP09");
    reveal_strlit("University Life");
    reveal_strlit("EP10");
    reveal_strlit("Island Paradise");
    reveal_strlit("EP11");
    reveal_strlit("Into the Future");
    reveal_strlit("SP01");
    reveal_strlit("High-End Loft");
    reveal_strlit("SP02");
    reveal_strlit("Fast Lane");
    reveal_strlit("SP03");
    reveal_strlit("Outdoor Living");
    reveal_strlit("SP04");
    reveal_strlit("Town Life");
    reveal_strlit("SP05");
    reveal_strlit("Master Suite");
    reveal_strlit("SP06");
    reveal_strlit("Katy Perry's Sweet Treats");
    reveal_strlit("SP07");
    reveal_strlit("Diesel");
    reveal_strlit("SP08");
    reveal_strlit("70s 80s & 90s");
    reveal_strlit("SP09");
    reveal_strlit("Movie");
    let t = sims3_table();
    assert(pack_entry_ok(t[0]));
    assert(pack_entry_ok(t[1]));
    assert(pack_entry_ok(t[2]));
    assert(pack_entry_ok(t[3]));
    assert(pack_entry_ok(t[4]));
    assert(pack_entry_ok(t[5]));
    assert(pack_entry_ok(t[6]));
    assert(pack_entry_ok(t[7]));
    assert(pack_entry_ok(t[8]));
    assert(pack_entry_ok(t[9]));
    assert(pack_entry_ok(t[10]));
    assert(pack_entry_ok(t[11]));
    assert(pack_entry_ok(t[12]));
    assert(pack_entry_ok(t[13]));
    assert(pack_entry_ok(t[14]));
    assert(pack_entry_ok(t[15]));
    assert(pack_entry_ok(t[16]));
    assert(pack_entry_ok(t[17]));
    assert(pack_entry_ok(t[18]));
    assert(pack_entry_ok(t[19]));
    assert forall|i: int| 0 <= i < t.len() - 1 implies code_rank(#[trigger] t[i]) < code_rank(t[i + 1]) by {
    }
    lemma_increasing_table_ok(t);
}

proof fn lemma_sims2_table_ok()
    ensures
        table_ok(sims2_table()),
{
    reveal_strlit("EP01");
    reveal_strlit("University");
    reveal_strlit("EP02");
    reveal_strlit("Nightlife");
    reveal_strlit("EP03");
    reveal_strlit("Open for Business");
    reveal_strlit("EP04");
    reveal_strlit("Pets");
    reveal_strlit("EP05");
    reveal_strlit("Seasons");
    reveal_strlit("EP06");
    reveal_strlit("Bon Voyage");
    reveal_strlit("EP07");
    reveal_strlit("FreeTime");
    reveal_strlit("EP08");
    reveal_strlit("Apartment Life");
    reveal_strlit("SP01");
    reveal_strlit("Family Fun");
    reveal_strlit("SP02");
    reveal_strlit("Glamour Life");
    reveal_strlit("SP03");
    reveal_strlit("Happy Holiday");
    reveal_strlit("SP04");
    reveal_strlit("Celebration!");
    reveal_strlit("SP05");
    reveal_strlit("H&M Fashion");
    reveal_strlit("SP06");
    reveal_strlit("Teen Style");
    reveal_strlit("SP07");
    reveal_strlit("Kitchen & Bath Interior Design");
    reveal_strlit("SP08");
    reveal_strlit("IKEA Home");
    reveal_strlit("SP09");
    reveal_strlit("Mansion & Garden");
    let t = sims2_table();
    assert(pack_entry_ok(t[0]));
    assert(pack_entry_ok(t[1]));
    assert(pack_entry_ok(t[2]));
    assert(pack_entry_ok(t[3]));
    assert(pack_entry_ok(t[4]));
    assert(pack_entry_ok(t[5]));
    assert(pack_entry_ok(t[6]));
    assert(pack_entry_ok(t[7]));
    assert(pack_entry_ok(t[8]));
    assert(pack_entry_ok(t[9]));
    assert(pack_entry_ok(t[10]));
    assert(pack_entry_ok(t[11]));
    assert(pack_entry_ok(t[12]));
    assert(pack_entry_ok(t[13]));
    assert(pack_entry_ok(t[14]));
    assert(pack_entry_ok(t[15]));
    assert(pack_entry_ok(t[16]));
    assert forall|i: int| 0 <= i < t.len() - 1 implies code_rank(#[trigger] t[i]) < code_rank(t[i + 1]) by {
    }
    lemma_increasing_table_ok(t);
}

/// Every pack list has distinct codes; each code is two letters naming the pack's
/// kind (`EP`, `GP`, `SP`, `KT`) followed by two digits, and each pack has a name.
pub proof fn pack_lists_are_well_formed(key: Seq<char>)
    ensures
        table_ok(pack_table(key)),
{
    lemma_sims4_table_ok();
    lemma_sims3_table_ok();
    lemma_sims2_table_ok();
}

/// A mod whose lowercased path is `file_lower` seems to need the pack `t`: the
/// path holds the pack's lowercased code, or its lowercased name when that name
/// is longer than three bytes.
pub open spec fn pack_matches(file_lower: Seq<char>, t: (Seq<char>, Seq<char>, PackType)) -> bool {
    has_infix(file_lower, lowercase(t.0)) || (encode_utf8(lowercase(t.1)).len() > 3 && has_infix(
        file_lower,
        lowercase(t.1),
    ))
}

/// The packs of `table` that a mod with lowercased path `file_lower` seems to
/// need, as code and kind, in table order.
pub open spec fn guessed(table: Seq<(Seq<char>, Seq<char>, PackType)>, file_lower: Seq<char>) -> Seq<
    (Seq<char>, PackType),
>
    decreases table.len(),
{
    if table.len() == 0 {
        Seq::empty()
    } else {
        let r = guessed(table.drop_last(), file_lower);
        if pack_matches(file_lower, table.last()) {
            r.push((table.last().0, table.last().2))
        } else {
            r
        }
    }
}

/// The lowercased code of `t`, or its lowercased name when that is longer than
/// three bytes, occurs anywhere in `text`.
pub open spec fn named_in(text: Seq<char>, t: (Seq<char>, Seq<char>, PackType)) -> bool {
    has_infix(text, lowercase(t.0)) || (encode_utf8(lowercase(t.1)).len() > 3 && has_infix(text, lowercase(t.1)))
}

/// `x` is the code and kind of a pack of `table` whose lowercased code, or
/// lowercased name longer than three bytes, occurs anywhere in `text`.
pub open spec fn guessed_from(table: Seq<(Seq<char>, Seq<char>, PackType)>, text: Seq<char>, x: (Seq<char>, PackType)) -> bool {
    exists|j: int| 0 <= j < table.len() && named_in(text, #[trigger] table[j]) && x == (table[j].0, table[j].2)
}

proof fn lemma_guessed_named(table: Seq<(Seq<char>, Seq<char>, PackType)>, text: Seq<char>)
    ensures
        forall|j: int|
            0 <= j < table.len() && named_in(text, #[trigger] table[j]) ==> guessed(table, text).contains(
                (table[j].0, table[j].2),
            ),
        forall|k: int| 0 <= k < guessed(table, text).len() ==> guessed_from(table, text, #[trigger] guessed(table, text)[k]),
    decreases table.len(),
{
    if table.len() > 0 {
        let prev = table.drop_last();
        lemma_guessed_named(prev, text);
        let g0 = guessed(prev, text);
        let g = guessed(table, text);
        assert forall|j: int| 0 <= j < table.len() && named_in(text, #[trigger] table[j]) implies g.contains(
            (table[j].0, table[j].2),
        ) by {
            if j < table.len() - 1 {
                assert(prev[j] == table[j]);
                let k = choose|k: int| 0 <= k < g0.len() && g0[k] == (prev[j].0, prev[j].2);
                assert(g[k] == g0[k]);
            } else {
                assert(g[g.len() - 1] == (table[j].0, table[j].2));
            }
        }
        assert forall|k: int| 0 <= k < g.len() implies guessed_from(table, text, #[trigger] g[k]) by {
            if k < g0.len() {
                assert(g[k] == g0[k]);
                assert(guessed_from(prev, text, g0[k]));
                let j = choose|j: int| 0 <= j < prev.len() && named_in(text, #[trigger] prev[j]) && g0[k] == (prev[j].0, prev[j].2);
                assert(table[j] == prev[j]);
            } else {
                assert(pack_matches(text, table.last()));
                assert(g[k] == (table.last().0, table.last().2));
                assert(table[table.len() - 1] == table.last());
                assert(named_in(text, table[table.len() - 1]));
            }
        }
    }
}

/// The packs guessed for a mod from a pack list (its game's list is
/// `pack_table(key)`) are those whose lowercased code, or lowercased name longer
/// than three bytes, occurs anywhere in the mod's lowercased path, folders
/// included: each such pack is guessed, and nothing else.
pub proof fn guessed_packs_are_those_named_in_the_path(table: Seq<(Seq<char>, Seq<char>, PackType)>, mod_path: Seq<char>)
    ensures
        forall|j: int|
            0 <= j < table.len() && (has_infix(lowercase(mod_path), lowercase((#[trigger] table[j]).0)) || (encode_utf8(
                lowercase(table[j].1),
            ).len() > 3 && has_infix(lowercase(mod_path), lowercase(table[j].1)))) ==> guessed(
                table,
                lowercase(mod_path),
            ).contains((table[j].0, table[j].2)),
        forall|k: int|
            0 <= k < guessed(table, lowercase(mod_path)).len() ==> guessed_from(
                table,
                lowercase(mod_path),
                #[trigger] guessed(table, lowercase(mod_path))[k],
            ),
{
    lemma_guessed_named(table, lowercase(mod_path));
    assert forall|j: int|
        0 <= j < table.len() && (has_infix(lowercase(mod_path), lowercase((#[trigger] table[j]).0)) || (encode_utf8(
            lowercase(table[j].1),
        ).len() > 3 && has_infix(lowercase(mod_path), lowercase(table[j].1)))) implies guessed(
        table,
        lowercase(mod_path),
    ).contains((table[j].0, table[j].2)) by {
        assert(named_in(lowercase(mod_path), table[j]));
    }
}

/// `ids` are the packs `want` (code and kind), in order.
pub open spec fn ids_are(ids: Seq<PackId>, want: Seq<(Seq<char>, PackType)>) -> bool {
    ids.len() == want.len() && forall|i: int|
        0 <= i < ids.len() ==> (#[trigger] ids[i]).code@ == want[i].0 && ids[i].pack_type == want[i].1
}

/// The packs a mod at `mod_path` seems to need, judged by its path.
pub fn guess_mod_required_packs(mod_path: &str, packs_key: &str) -> (r: Vec<PackId>)
    ensures
        ids_are(r@, guessed(pack_table(packs_key@), lowercase(mod_path@))),
{
    let registry = get_pack_registry(packs_key);
    let ghost table = pack_table(packs_key@);
    let file_lower = to_lower(mod_path);
    let mut required: Vec<PackId> = Vec::new();
    let mut i: usize = 0;
    while i < registry.len()
        invariant
            infos(registry@, table),
            file_lower@ == lowercase(mod_path@),
            i <= registry.len(),
            ids_are(required@, guessed(table.take(i as int), file_lower@)),
        decreases registry.len() - i,
    {
        let pack = &registry[i];
        assert(table.take(i + 1).drop_last() =~= table.take(i as int));
        assert(table.take(i + 1).last() == table[i as int]);
        assert(info_is(registry@[i as int], table[i as int]));
        let code_lower = to_lower(pack.id.code.as_str());
        let ghost before = required@;
        if str_contains(file_lower.as_str(), code_lower.as_str()) {
            required.push(PackId { code: pack.id.code.clone(), pack_type: pack.id.pack_type });
        } else {
            let name_lower = to_lower(pack.name.as_str());
            if name_lower.as_str().as_bytes().len() > 3 && str_contains(file_lower.as_str(), name_lower.as_str()) {
                required.push(PackId { code: pack.id.code.clone(), pack_type: pack.id.pack_type });
            }
        }
        proof {
            let g0 = guessed(table.take(i as int), file_lower@);
            let g1 = guessed(table.take(i + 1), file_lower@);
            if pack_matches(file_lower@, table[i as int]) {
                assert(g1 == g0.push((table[i as int].0, table[i as int].2)));
                assert(required@.len() == before.len() + 1);
                assert(ids_are(required@, g1)) by {
                    assert forall|j: int| 0 <= j < required@.len() implies (#[trigger] required@[j]).code@
                        == g1[j].0 && required@[j].pack_type == g1[j].1 by {
                        if j < before.len() {
                            assert(required@[j] == before[j]);
                        }
                    }
                }
            } else {
                assert(g1 == g0);
                assert(required@ == before);
            }
        }
        i += 1;
    }
    assert(table.take(registry.len() as int) =~= table);
    required
}

/// Some installed pack has the code `code`.
pub open spec fn is_installed(installed: Seq<PackInfo>, code: Seq<char>) -> bool {
    exists|i: int| 0 <= i < installed.len() && (#[trigger] installed[i]).id.code@ == code
}

/// The packs of `req` that are not installed, in order.
pub open spec fn missing_of(req: Seq<(Seq<char>, PackType)>, installed: Seq<PackInfo>) -> Seq<(Seq<char>, PackType)>
    decreases req.len(),
{
    if req.len() == 0 {
        Seq::empty()
    } else {
        let r = missing_of(req.drop_last(), installed);
        if is_installed(installed, req.last().0) {
            r
        } else {
            r.push(req.last())
        }
    }
}

/// A file of type `Mod` or `CustomContent`.
pub open spec fn is_mod_file(f: FileInfo) -> bool {
    f.file_type@ == "Mod"@ || f.file_type@ == "CustomContent"@
}

/// For each mod file of `files` that seems to need some pack, in order: its path,
/// the packs it seems to need, and those of them that are not installed.
pub open spec fn compat_reports(files: Seq<FileInfo>, installed: Seq<PackInfo>, key: Seq<char>) -> Seq<
    (Seq<char>, Seq<(Seq<char>, PackType)>, Seq<(Seq<char>, PackType)>),
>
    decreases files.len(),
{
    if files.len() == 0 {
        Seq::empty()
    } else {
        let r = compat_reports(files.drop_last(), installed, key);
        let f = files.last();
        let req = guessed(pack_table(key), lowercase(f.relative_path@));
        if is_mod_file(f) && req.len() > 0 {
            r.push((f.relative_path@, req, missing_of(req, installed)))
        } else {
            r
        }
    }
}

/// `m` reports the mod `t` (path, packs it seems to need, packs missing): it is
/// compatible exactly when nothing is missing.
pub open spec fn report_is(
    m: ModCompatibility,
    t: (Seq<char>, Seq<(Seq<char>, PackType)>, Seq<(Seq<char>, PackType)>),
) -> bool {
    &&& m.mod_path@ == t.0
    &&& ids_are(m.required_packs@, t.1)
    &&& ids_are(m.missing_packs@, t.2)
    &&& (m.status == CompatibilityStatus::Compatible <==> t.2.len() == 0)
}

fn installed_has(installed: &Vec<PackInfo>, code: &str) -> (b: bool)
    ensures
        b == is_installed(installed@, code@),
{
    let mut i: usize = 0;
    while i < installed.len()
        invariant
            i <= installed.len(),
            forall|j: int| 0 <= j < i ==> (#[trigger] installed@[j]).id.code@ != code@,
        decreases installed.len() - i,
    {
        if str_eq(installed[i].id.code.as_str(), code) {
            return true;
        }
        i += 1;
    }
    false
}

/// The packs of `required` that are not installed.
fn missing_packs(required: &Vec<PackId>, installed: &Vec<PackInfo>, Ghost(req): Ghost<Seq<(Seq<char>, PackType)>>) -> (r: Vec<PackId>)
    requires
        ids_are(required@, req),
    ensures
        ids_are(r@, missing_of(req, installed@)),
{
    let mut r: Vec<PackId> = Vec::new();
    let mut i: usize = 0;
    while i < required.len()
        invariant
            ids_are(required@, req),
            i <= required.len(),
            ids_are(r@, missing_of(req.take(i as int), installed@)),
        decreases required.len() - i,
    {
        assert(req.take(i + 1).drop_last() =~= req.take(i as int));
        assert(req.take(i + 1).last() == req[i as int]);
        assert(required@[i as int].code@ == req[i as int].0);
        let ghost before = r@;
        if !installed_has(installed, required[i].code.as_str()) {
            r.push(PackId { code: required[i].code.clone(), pack_type: required[i].pack_type });
            proof {
                let m1 = missing_of(req.take(i + 1), installed@);
                assert forall|j: int| 0 <= j < r@.len() implies (#[trigger] r@[j]).code@ == m1[j].0
                    && r@[j].pack_type == m1[j].1 by {
                    if j < before.len() {
                        assert(r@[j] == before[j]);
                    }
                }
            }
        }
        i += 1;
    }
    assert(req.take(required.len() as int) =~= req);
    r
}

/// For each mod file of the manifest that seems to need some pack: the packs it
/// seems to need, those not among the installed ones, and whether it is
/// compatible.
pub fn check_mod_compatibility(manifest: &FileManifest, game_info: &GameInfo, packs_key: &str) -> (r: Vec<
    ModCompatibility,
>)
    ensures
        r@.len() == compat_reports(manifest.files@, game_info.installed_packs@, packs_key@).len(),
        forall|i: int|
            0 <= i < r@.len() ==> report_is(
                #[trigger] r@[i],
                compat_reports(manifest.files@, game_info.installed_packs@, packs_key@)[i],
            ),
{
    let files = &manifest.files;
    let installed = &game_info.installed_packs;
    let mut r: Vec<ModCompatibility> = Vec::new();
    let mut i: usize = 0;
    proof {
        reveal_strlit("Mod");
        reveal_strlit("CustomContent");
    }
    while i < files.len()
        invariant
            i <= files.len(),
            r@.len() == compat_reports(files@.take(i as int), installed@, packs_key@).len(),
            forall|j: int|
                0 <= j < r@.len() ==> report_is(
                    #[trigger] r@[j],
                    compat_reports(files@.take(i as int), installed@, packs_key@)[j],
                ),
        decreases files.len() - i,
    {
        assert(files@.take(i + 1).drop_last() =~= files@.take(i as int));
        assert(files@.take(i + 1).last() == files@[i as int]);
        let f = &files[i];
        let ghost before = r@;
        if str_eq(f.file_type.as_str(), "Mod") || str_eq(f.file_type.as_str(), "CustomContent") {
            let required = guess_mod_required_packs(f.relative_path.as_str(), packs_key);
            if required.len() > 0 {
                let ghost req = guessed(pack_table(packs_key@), lowercase(f.relative_path@));
                let missing = missing_packs(&required, installed, Ghost(req));
                let status = if missing.len() == 0 {
                    CompatibilityStatus::Compatible
                } else {
                    CompatibilityStatus::MissingPacks
                };
                r.push(ModCompatibility { mod_path: f.relative_path.clone(), required_packs: required, missing_packs: missing, status });
                proof {
                    let c1 = compat_reports(files@.take(i + 1), installed@, packs_key@);
                    assert forall|j: int| 0 <= j < r@.len() implies report_is(#[trigger] r@[j], c1[j]) by {
                        if j < before.len() {
                            assert(r@[j] == before[j]);
                        }
                    }
                }
            }
        }
        i += 1;
    }
    assert(files@.take(files.len() as int) =~= files@);
    r
}

/// The packs reported missing are exactly those the mod seems to need that are
/// not installed.
pub proof fn missing_packs_are_exactly_the_uninstalled(req: Seq<(Seq<char>, PackType)>, installed: Seq<PackInfo>)
    ensures
        forall|i: int|
            0 <= i < missing_of(req, installed).len() ==> req.contains(#[trigger] missing_of(req, installed)[i])
                && !is_installed(installed, missing_of(req, installed)[i].0),
        forall|j: int|
            0 <= j < req.len() && !is_installed(installed, (#[trigger] req[j]).0) ==> missing_of(
                req,
                installed,
            ).contains(req[j]),
    decreases req.len(),
{
    if req.len() > 0 {
        let t = req.drop_last();
        missing_packs_are_exactly_the_uninstalled(t, installed);
        let m0 = missing_of(t, installed);
        let m = missing_of(req, installed);
        assert forall|i: int| 0 <= i < m.len() implies req.contains(#[trigger] m[i]) && !is_installed(
            installed,
            m[i].0,
        ) by {
            if i < m0.len() {
                assert(m[i] == m0[i]);
                let k = choose|k: int| 0 <= k < t.len() && t[k] == m0[i];
                assert(req[k] == t[k]);
            } else {
                assert(m[i] == req.last());
                assert(req[req.len() - 1] == req.last());
            }
        }
        assert forall|j: int| 0 <= j < req.len() && !is_installed(installed, (#[trigger] req[j]).0) implies m.contains(
            req[j],
        ) by {
            if j < req.len() - 1 {
                assert(t[j] == req[j]);
                let k = choose|k: int| 0 <= k < m0.len() && m0[k] == t[j];
                if !is_installed(installed, req.last().0) {
                    assert(m[k] == m0[k]);
                }
            } else {
                assert(m[m0.len() as int] == req[j]);
            }
        }
    }
}

/// Every pack installed in `a` is installed in `b`.
pub open spec fn installs_at_least(b: Seq<PackInfo>, a: Seq<PackInfo>) -> bool {
    forall|c: Seq<char>| #[trigger] is_installed(a, c) ==> is_installed(b, c)
}

/// Installing more packs only removes packs from what is missing.
pub proof fn more_packs_miss_fewer(req: Seq<(Seq<char>, PackType)>, fewer: Seq<PackInfo>, more: Seq<PackInfo>)
    requires
        installs_at_least(more, fewer),
    ensures
        forall|i: int|
            0 <= i < missing_of(req, more).len() ==> missing_of(req, fewer).contains(#[trigger] missing_of(req, more)[i]),
{
    missing_packs_are_exactly_the_uninstalled(req, fewer);
    missing_packs_are_exactly_the_uninstalled(req, more);
    assert forall|i: int| 0 <= i < missing_of(req, more).len() implies missing_of(req, fewer).contains(
        #[trigger] missing_of(req, more)[i],
    ) by {
        let x = missing_of(req, more)[i];
        assert(req.contains(x) && !is_installed(more, x.0));
        let j = choose|j: int| 0 <= j < req.len() && req[j] == x;
        assert(!is_installed(fewer, req[j].0));
    }
}

/// Installing more packs changes no mod's report but its missing packs, which can
/// only shrink: the same mods are reported, with the same packs needed, and a mod
/// without missing packs keeps none.
pub proof fn more_packs_keep_mods_compatible(files: Seq<FileInfo>, fewer: Seq<PackInfo>, more: Seq<PackInfo>, key: Seq<char>)
    requires
        installs_at_least(more, fewer),
    ensures
        ({
            let r1 = compat_reports(files, fewer, key);
            let r2 = compat_reports(files, more, key);
            &&& r1.len() == r2.len()
            &&& forall|k: int| 0 <= k < r1.len() ==> (#[trigger] r1[k]).0 == r2[k].0 && r1[k].1 == r2[k].1
            &&& forall|k: int, i: int|
                0 <= k < r2.len() && 0 <= i < r2[k].2.len() ==> r1[k].2.contains(#[trigger] r2[k].2[i])
            &&& forall|k: int| 0 <= k < r1.len() && (#[trigger] r1[k]).2.len() == 0 ==> r2[k].2.len() == 0
        }),
    decreases files.len(),
{
    if files.len() > 0 {
        more_packs_keep_mods_compatible(files.drop_last(), fewer, more, key);
        let f = files.last();
        let req = guessed(pack_table(key), lowercase(f.relative_path@));
        more_packs_miss_fewer(req, fewer, more);
        let p1 = compat_reports(files.drop_last(), fewer, key);
        let p2 = compat_reports(files.drop_last(), more, key);
        let r1 = compat_reports(files, fewer, key);
        let r2 = compat_reports(files, more, key);
        if is_mod_file(f) && req.len() > 0 {
            assert forall|k: int, i: int| 0 <= k < r2.len() && 0 <= i < r2[k].2.len() implies r1[k].2.contains(
                #[trigger] r2[k].2[i],
            ) by {
                if k < p2.len() {
                    assert(r2[k] == p2[k] && r1[k] == p1[k]);
                }
            }
            assert forall|k: int| 0 <= k < r1.len() && (#[trigger] r1[k]).2.len() == 0 implies r2[k].2.len() == 0 by {
                if k < p1.len() {
                    assert(r2[k] == p2[k] && r1[k] == p1[k]);
                } else if missing_of(req, more).len() > 0 {
                    assert(missing_of(req, fewer).contains(missing_of(req, more)[0]));
                }
            }
        }
    }
}

/// Version strings are cut to this many characters.
pub const MAX_VERSION_LEN: usize = 64;

/// `s` without its control characters.
pub open spec fn without_controls(s: Seq<char>) -> Seq<char>
    decreases s.len(),
{
    if s.len() == 0 {
        Seq::empty()
    } else {
        let r = without_controls(s.drop_last());
        if is_control(s.last()) {
            r
        } else {
            r.push(s.last())
        }
    }
}

/// The version read from a version file: trimmed, without control characters, at
/// most 64 characters; nothing when that leaves it empty.
pub open spec fn clean_version_spec(text: Seq<char>) -> Option<Seq<char>> {
    let f = without_controls(trim_spec(text));
    let c = if f.len() <= MAX_VERSION_LEN { f } else { f.take(MAX_VERSION_LEN as int) };
    if c.len() == 0 {
        None
    } else {
        Some(c)
    }
}

/// The version held by the text of a version file.
pub fn clean_version_text(text: &str) -> (r: Option<String>)
    ensures
        match (r, clean_version_spec(text@)) {
            (Some(s), Some(t)) => s@ == t,
            (None, None) => true,
            _ => false,
        },
{
    let trimmed = trim(text);
    let v = chars_of(trimmed.as_str());
    let mut kept: Vec<char> = Vec::new();
    let mut i: usize = 0;
    while i < v.len()
        invariant
            v@ == trim_spec(text@),
            i <= v.len(),
            kept@ == without_controls(v@.take(i as int)),
        decreases v.len() - i,
    {
        assert(v@.take(i + 1).drop_last() =~= v@.take(i as int));
        if !char_is_control(v[i]) {
            kept.push(v[i]);
        }
        i += 1;
    }
    assert(v@.take(v.len() as int) =~= v@);
    let n = if kept.len() <= MAX_VERSION_LEN { kept.len() } else { MAX_VERSION_LEN };
    if n == 0 {
        return None;
    }
    let s = string_from_chars(&kept.as_slice()[0..n]);
    assert(kept@.subrange(0, n as int) =~= if kept@.len() <= MAX_VERSION_LEN { kept@ } else { kept@.take(MAX_VERSION_LEN as int) });
    Some(s)
}

/// The file in the game folder that lists the installed packs.
pub fn installed_packs_file(game_path: &str) -> (r: String)
    ensures
        r@ == path_join(game_path@, "installedpacks.txt"@),
{
    join_path(game_path, "installedpacks.txt")
}

/// The game's options file, which mentions the packs it has seen.
pub fn options_file(game_path: &str) -> (r: String)
    ensures
        r@ == path_join(game_path@, "Options.ini"@),
{
    join_path(game_path, "Options.ini")
}

/// What the application read from a game folder for pack and version detection.
#[derive(Debug, Clone)]
pub struct GameFolderProbe {
    /// The text of the game's version file, if it could be read.
    pub version_text: Option<String>,
    /// The text of `installedpacks.txt`, if it could be read.
    pub installed_packs_text: Option<String>,
    /// The text of `Options.ini`, if it could be read.
    pub options_text: Option<String>,
    /// The pack codes that have a folder of that name in the game folder.
    pub present_pack_dirs: Vec<String>,
}

/// The packs of `table` that satisfy `pred`, in order.
pub open spec fn select(table: Seq<(Seq<char>, Seq<char>, PackType)>, pred: spec_fn((Seq<char>, Seq<char>, PackType)) -> bool) -> Seq<(Seq<char>, Seq<char>, PackType)>
    decreases table.len(),
{
    if table.len() == 0 {
        Seq::empty()
    } else {
        let r = select(table.drop_last(), pred);
        if pred(table.last()) {
            r.push(table.last())
        } else {
            r
        }
    }
}

/// `installedpacks.txt` lists a pack by code, or by name in any letter case.
pub open spec fn listed_in_installed_file(content: Seq<char>) -> spec_fn((Seq<char>, Seq<char>, PackType)) -> bool {
    |t: (Seq<char>, Seq<char>, PackType)| has_infix(content, t.0) || has_infix(lowercase(content), lowercase(t.1))
}

/// `Options.ini` mentions a pack by code.
pub open spec fn mentioned_in(content: Seq<char>) -> spec_fn((Seq<char>, Seq<char>, PackType)) -> bool {
    |t: (Seq<char>, Seq<char>, PackType)| has_infix(content, t.0)
}

/// A folder named by the pack's code exists.
pub open spec fn has_dir(dirs: Seq<String>) -> spec_fn((Seq<char>, Seq<char>, PackType)) -> bool {
    |t: (Seq<char>, Seq<char>, PackType)| exists|i: int| 0 <= i < dirs.len() && (#[trigger] dirs[i])@ == t.0
}

/// The installed packs, by the first of these that finds any: for The Sims 4 the
/// packs listed in `installedpacks.txt`, then the packs mentioned in `Options.ini`,
/// then the packs with a folder of their own.
pub open spec fn installed_spec(key: Seq<char>, probe: GameFolderProbe) -> Seq<(Seq<char>, Seq<char>, PackType)> {
    let table = pack_table(key);
    let s1 = match probe.installed_packs_text {
        Some(c) => if key == "sims4"@ { select(table, listed_in_installed_file(c@)) } else { Seq::empty() },
        None => Seq::empty(),
    };
    let s2 = match probe.options_text {
        Some(c) => select(table, mentioned_in(c@)),
        None => Seq::empty(),
    };
    if s1.len() > 0 {
        s1
    } else if s2.len() > 0 {
        s2
    } else {
        select(table, has_dir(probe.present_pack_dirs@))
    }
}

proof fn lemma_select_none(table: Seq<(Seq<char>, Seq<char>, PackType)>, pred: spec_fn((Seq<char>, Seq<char>, PackType)) -> bool)
    requires
        forall|i: int| 0 <= i < table.len() ==> !pred(#[trigger] table[i]),
    ensures
        select(table, pred) == Seq::<(Seq<char>, Seq<char>, PackType)>::empty(),
    decreases table.len(),
{
    if table.len() > 0 {
        let prev = table.drop_last();
        assert forall|i: int| 0 <= i < prev.len() implies !pred(#[trigger] prev[i]) by {
            assert(prev[i] == table[i]);
        }
        lemma_select_none(prev, pred);
        assert(!pred(table[table.len() - 1]));
    }
}

/// When neither the installed-packs list (read for The Sims 4 only) nor the
/// options file names any pack of the game's list, the installed packs are those
/// of the list that have a folder of their own in the game folder, whatever else
/// the options file holds.
pub proof fn pack_detection_falls_back_to_pack_folders(key: Seq<char>, probe: GameFolderProbe)
    requires
        key == "sims4"@ ==> (probe.installed_packs_text matches Some(c) ==> forall|i: int|
            0 <= i < pack_table(key).len() ==> !has_infix(c@, (#[trigger] pack_table(key)[i]).0) && !has_infix(
                lowercase(c@),
                lowercase(pack_table(key)[i].1),
            )),
        probe.options_text matches Some(o) ==> forall|i: int|
            0 <= i < pack_table(key).len() ==> !has_infix(o@, (#[trigger] pack_table(key)[i]).0),
    ensures
        installed_spec(key, probe) == select(pack_table(key), has_dir(probe.present_pack_dirs@)),
{
    let table = pack_table(key);
    if let Some(c) = probe.installed_packs_text {
        if key == "sims4"@ {
            lemma_select_none(table, listed_in_installed_file(c@));
        }
    }
    if let Some(o) = probe.options_text {
        lemma_select_none(table, mentioned_in(o@));
    }
}

fn dir_listed(dirs: &Vec<String>, code: &str) -> (b: bool)
    ensures
        b == exists|i: int| 0 <= i < dirs@.len() && (#[trigger] dirs@[i])@ == code@,
{
    let mut i: usize = 0;
    while i < dirs.len()
        invariant
            i <= dirs.len(),
            forall|j: int| 0 <= j < i ==> (#[trigger] dirs@[j])@ != code@,
        decreases dirs.len() - i,
    {
        if str_eq(dirs[i].as_str(), code) {
            return true;
        }
        i += 1;
    }
    false
}

/// Which test a detection strategy applies to each pack.
enum PackTest<'a> {
    InstalledFile(&'a str, String),
    Options(&'a str),
    Dirs(&'a Vec<String>),
}

spec fn pack_test_pred(t: PackTest) -> spec_fn((Seq<char>, Seq<char>, PackType)) -> bool {
    match t {
        PackTest::InstalledFile(c, _) => listed_in_installed_file(c@),
        PackTest::Options(c) => mentioned_in(c@),
        PackTest::Dirs(d) => has_dir(d@),
    }
}

spec fn pack_test_ok(t: PackTest) -> bool {
    match t {
        PackTest::InstalledFile(c, l) => l@ == lowercase(c@),
        _ => true,
    }
}

fn run_pack_test(t: &PackTest, p: &PackInfo) -> (b: bool)
    requires
        pack_test_ok(*t),
    ensures
        b == (pack_test_pred(*t))((p.id.code@, p.name@, p.id.pack_type)),
{
    match t {
        PackTest::InstalledFile(content, content_lower) => {
            let name_lower = to_lower(p.name.as_str());
            str_contains(content, p.id.code.as_str()) || str_contains(content_lower.as_str(), name_lower.as_str())
        },
        PackTest::Options(content) => str_contains(content, p.id.code.as_str()),
        PackTest::Dirs(dirs) => dir_listed(dirs, p.id.code.as_str()),
    }
}

fn select_packs(registry: &Vec<PackInfo>, t: &PackTest, Ghost(table): Ghost<Seq<(Seq<char>, Seq<char>, PackType)>>) -> (r: Vec<PackInfo>)
    requires
        infos(registry@, table),
        pack_test_ok(*t),
    ensures
        infos(r@, select(table, pack_test_pred(*t))),
{
    let mut r: Vec<PackInfo> = Vec::new();
    let mut i: usize = 0;
    while i < registry.len()
        invariant
            infos(registry@, table),
            pack_test_ok(*t),
            i <= registry.len(),
            infos(r@, select(table.take(i as int), pack_test_pred(*t))),
        decreases registry.len() - i,
    {
        assert(table.take(i + 1).drop_last() =~= table.take(i as int));
        assert(table.take(i + 1).last() == table[i as int]);
        assert(info_is(registry@[i as int], table[i as int]));
        let ghost before = r@;
        if run_pack_test(t, &registry[i]) {
            let p = &registry[i];
            r.push(PackInfo { id: PackId { code: p.id.code.clone(), pack_type: p.id.pack_type }, name: p.name.clone() });
            proof {
                let s1 = select(table.take(i + 1), pack_test_pred(*t));
                assert forall|j: int| 0 <= j < r@.len() implies info_is(#[trigger] r@[j], s1[j]) by {
                    if j < before.len() {
                        assert(r@[j] == before[j]);
                    }
                }
            }
        }
        i += 1;
    }
    assert(table.take(registry.len() as int) =~= table);
    r
}

/// The installed packs of the game whose pack list is under `packs_key`, judged by
/// what was read from its folder.
pub fn detect_installed_packs(packs_key: &str, probe: &GameFolderProbe) -> (r: Vec<PackInfo>)
    ensures
        infos(r@, installed_spec(packs_key@, *probe)),
{
    let registry = get_pack_registry(packs_key);
    let ghost table = pack_table(packs_key@);
    if registry.len() == 0 {
        proof {
            assert(select(table, has_dir(probe.present_pack_dirs@)) =~= Seq::empty()) by {
                lemma_select_empty(table, has_dir(probe.present_pack_dirs@));
            }
            if probe.installed_packs_text is Some {
                lemma_select_empty(table, listed_in_installed_file(probe.installed_packs_text->0@));
            }
            if probe.options_text is Some {
                lemma_select_empty(table, mentioned_in(probe.options_text->0@));
            }
        }
        return Vec::new();
    }
    if str_eq(packs_key, "sims4") {
        if let Some(content) = &probe.installed_packs_text {
            let lower = to_lower(content.as_str());
            let t = PackTest::InstalledFile(content.as_str(), lower);
            let found = select_packs(&registry, &t, Ghost(table));
            if found.len() > 0 {
                return found;
            }
        }
    }
    if let Some(content) = &probe.options_text {
        let t = PackTest::Options(content.as_str());
        let found = select_packs(&registry, &t, Ghost(table));
        if found.len() > 0 {
            return found;
        }
    }
    let t = PackTest::Dirs(&probe.present_pack_dirs);
    select_packs(&registry, &t, Ghost(table))
}

proof fn lemma_select_empty(table: Seq<(Seq<char>, Seq<char>, PackType)>, pred: spec_fn((Seq<char>, Seq<char>, PackType)) -> bool)
    requires
        table.len() == 0,
    ensures
        select(table, pred) == Seq::<(Seq<char>, Seq<char>, PackType)>::empty(),
{
}

/// The file that holds the version of the game `game_id`, below its folder
/// `game_path`: none when the registry does not know the game or how to read its
/// version.
pub fn version_file_path(registry: &GameRegistry, game_id: &str, game_path: &str) -> (r: Option<String>)
    ensures
        ({
            let k = first_game_index(registry.games@, game_id@);
            match r {
                Some(p) => k >= 0 && (registry.games@[k].version_detection matches Some(vd) && p@ == path_join(
                    game_path@,
                    vd.file@,
                )),
                None => k < 0 || registry.games@[k].version_detection is None,
            }
        }),
{
    match get_game_def(registry, game_id) {
        None => None,
        Some(def) => match &def.version_detection {
            None => None,
            Some(vd) => Some(join_path(game_path, vd.file.as_str())),
        },
    }
}

/// The version of the game `game_id` as read: none when the registry does not
/// know how to read it or the file could not be read.
pub open spec fn version_spec(games: Seq<crate::synccrate::registry::GameDefinition>, id: Seq<char>, probe: GameFolderProbe) -> Option<Seq<char>> {
    let k = first_game_index(games, id);
    if k < 0 {
        None
    } else {
        match (games[k].version_detection, probe.version_text) {
            (Some(_), Some(t)) => clean_version_spec(t@),
            _ => None,
        }
    }
}

/// The key of the game's pack list, or the empty key.
pub open spec fn packs_key_spec(games: Seq<crate::synccrate::registry::GameDefinition>, id: Seq<char>) -> Seq<char> {
    let k = first_game_index(games, id);
    if k < 0 {
        Seq::empty()
    } else {
        match games[k].packs {
            Some(p) => p@,
            None => Seq::empty(),
        }
    }
}

/// What is detected of a game is what version detection and pack detection give
/// for its registry entry: the version its version file holds when the entry
/// names one, and the packs detected for its pack list (the empty list when it
/// names none). A game the registry does not know has no version and no packs.
pub proof fn game_info_is_version_and_packs(
    games: Seq<crate::synccrate::registry::GameDefinition>,
    id: Seq<char>,
    probe: GameFolderProbe,
)
    ensures
        ({
            let k = first_game_index(games, id);
            if k < 0 {
                &&& version_spec(games, id, probe) is None
                &&& installed_spec(packs_key_spec(games, id), probe) == Seq::<(Seq<char>, Seq<char>, PackType)>::empty()
            } else {
                &&& version_spec(games, id, probe) == match (games[k].version_detection, probe.version_text) {
                    (Some(_), Some(t)) => clean_version_spec(t@),
                    _ => None,
                }
                &&& installed_spec(packs_key_spec(games, id), probe) == installed_spec(
                    match games[k].packs {
                        Some(p) => p@,
                        None => Seq::empty(),
                    },
                    probe,
                )
            }
        }),
{
    let k = first_game_index(games, id);
    if k < 0 {
        reveal_strlit("sims4");
        reveal_strlit("sims3");
        reveal_strlit("sims2");
        let key = packs_key_spec(games, id);
        assert(key.len() == 0);
        assert("sims4"@.len() == 5 && "sims3"@.len() == 5 && "sims2"@.len() == 5);
        assert(pack_table(key) == Seq::<(Seq<char>, Seq<char>, PackType)>::empty());
        lemma_select_empty(pack_table(key), has_dir(probe.present_pack_dirs@));
        if let Some(c) = probe.options_text {
            lemma_select_empty(pack_table(key), mentioned_in(c@));
        }
    }
}

/// The version and installed packs of the game `game_id`, judged by what was read
/// from its folder.
pub fn detect_game_info(game_id: &str, registry: &GameRegistry, probe: &GameFolderProbe) -> (r: GameInfo)
    ensures
        match (r.game_version, version_spec(registry.games@, game_id@, *probe)) {
            (Some(v), Some(w)) => v@ == w,
            (None, None) => true,
            _ => false,
        },
        infos(r.installed_packs@, installed_spec(packs_key_spec(registry.games@, game_id@), *probe)),
{
    let def = get_game_def(registry, game_id);
    let game_version = match def {
        None => None,
        Some(d) => match (&d.version_detection, &probe.version_text) {
            (Some(_), Some(t)) => clean_version_text(t.as_str()),
            _ => None,
        },
    };
    let installed_packs = match def {
        Some(d) => match &d.packs {
            Some(k) => detect_installed_packs(k.as_str(), probe),
            None => {
                proof {
                    reveal_strlit("");
                }
                assert(""@ =~= Seq::<char>::empty());
                detect_installed_packs("", probe)
            },
        },
        None => {
            proof {
                reveal_strlit("");
            }
            assert(""@ =~= Seq::<char>::empty());
            detect_installed_packs("", probe)
        },
    };
    GameInfo { game_version, installed_packs }
}

} // verus!
