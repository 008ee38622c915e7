//! Where the bot keeps downloaded files: one directory per kind of
//! resource under `./resources/`.
use vstd::prelude::*;
use vstd::string::*;

use crate::text::{dec, u64_to_decimal};

verus! {

/// A kind of stored resource.
#[derive(Clone, Copy, PartialEq, Eq, Structural)]
pub enum ResourceCategory {
    Score,
    MapData,
}

/// The directory of a kind of resource.
pub open spec fn category_path_text(category: ResourceCategory) -> Seq<char> {
    match category {
        ResourceCategory::MapData => "./resources/"@ + "map_data/"@,
        ResourceCategory::Score => "./resources/"@ + "scores/"@,
    }
}

/// The directory of a kind of resource, ending in `/`.
pub fn category_path(category: ResourceCategory) -> (r: String)
    ensures
        r@ == category_path_text(category),
{
    let mut path = String::from_str("./resources/");
    match category {
        ResourceCategory::MapData => path.append("map_data/"),
        ResourceCategory::Score => path.append("scores/"),
    }
    path
}

/// The path of the resource `name` of a kind.
pub fn resource_path(category: ResourceCategory, name: &str) -> (r: String)
    ensures
        r@ == category_path_text(category) + name@,
{
    let mut path = category_path(category);
    path.append(name);
    path
}

/// Every kind of resource, in the order they are declared.
pub fn all_categories() -> (r: Vec<ResourceCategory>)
    ensures
        r@ == seq![ResourceCategory::Score, ResourceCategory::MapData],
{
    let mut v: Vec<ResourceCategory> = Vec::new();
    v.push(ResourceCategory::Score);
    v.push(ResourceCategory::MapData);
    proof {
        assert(v@ =~= seq![ResourceCategory::Score, ResourceCategory::MapData]);
    }
    v
}

/// The file name of a beatmap's `.osu` data: `{map_id}.osu`.
pub open spec fn map_file_name_text(map_id: nat) -> Seq<char> {
    dec(map_id) + ".osu"@
}

/// The file name under which a beatmap's `.osu` data is stored.
pub fn map_file_name(map_id: u32) -> (r: String)
    ensures
        r@ == map_file_name_text(map_id as nat),
{
    let mut name = u64_to_decimal(map_id as u64);
    name.append(".osu");
    name
}

/// Different resources are stored at different paths: the path names its
/// kind and its name.
pub proof fn lemma_resource_path_injective(
    c1: ResourceCategory,
    n1: Seq<char>,
    c2: ResourceCategory,
    n2: Seq<char>,
)
    requires
        category_path_text(c1) + n1 == category_path_text(c2) + n2,
    ensures
        c1 == c2,
        n1 == n2,
{
    reveal_strlit("./resources/");
    reveal_strlit("map_data/");
    reveal_strlit("scores/");
    let p1 = category_path_text(c1) + n1;
    let p2 = category_path_text(c2) + n2;
    if c1 != c2 {
        assert(p1[12] == category_path_text(c1)[12]);
        assert(p2[12] == category_path_text(c2)[12]);
        assert(false);
    }
    assert(n1 =~= p1.subrange(category_path_text(c1).len() as int, p1.len() as int));
    assert(n2 =~= p2.subrange(category_path_text(c2).len() as int, p2.len() as int));
}

} // verus!
