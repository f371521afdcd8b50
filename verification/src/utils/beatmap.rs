//! Where the file of a map is kept, and where it is fetched from.

use crate::number::{decimal_text, push_decimal};
use vstd::prelude::*;

verus! {

/// The path of the file of map `id` under the directory `dir`. The directory
/// is taken as it is written: it has to end with the separator.
pub open spec fn path_text(dir: Seq<char>, id: u32) -> Seq<char> {
    dir + decimal_text(id as nat) + ".osu"@
}

/// The address from which the file of map `id` is fetched.
pub open spec fn url_text(id: u32) -> Seq<char> {
    "https://osu.ppy.sh/osu/"@ + decimal_text(id as nat)
}

/// Writes the path of the file of map `id` under `dir`.
pub fn beatmap_path(dir: &str, id: u32) -> (path: String)
    ensures
        path@ == path_text(dir@, id),
{
    let mut path = String::from_str(dir);
    push_decimal(&mut path, id as u128);
    path.append(".osu");
    path
}

/// Writes the address from which the file of map `id` is fetched.
pub fn beatmap_url(id: u32) -> (url: String)
    ensures
        url@ == url_text(id),
{
    let mut url = String::from_str("https://osu.ppy.sh/osu/");
    push_decimal(&mut url, id as u128);
    url
}

} // verus!
