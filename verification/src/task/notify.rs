//! The message that announces the episodes that were moved.

use crate::text::{number_text, write_number};
use vstd::prelude::*;

verus! {

/// The message for the episodes `episodes` of a season: one episode is
/// named alone, more are named as the range from the first to the last of
/// the list, whatever lies between them.
pub open spec fn message_for(show: Seq<char>, season: int, episodes: Seq<int>) -> Seq<char> {
    if episodes.len() == 1 {
        show + " season "@ + number_text(season) + " episode "@ + number_text(episodes[0])
            + " ready"@
    } else {
        show + " season "@ + number_text(season) + " episodes "@ + number_text(episodes.first())
            + "\u{2013}"@ + number_text(episodes.last()) + " ready"@
    }
}

/// Writes [`message_for`] for a list of episodes that is not empty.
pub fn format_message(tv_name: &str, season_number: i32, episodes: &[i32]) -> (r: String)
    requires
        episodes@.len() > 0,
    ensures
        r@ == message_for(tv_name@, season_number as int, episodes@.map_values(|n: i32| n as int)),
{
    let mut r = String::from_str(tv_name);
    r.append(" season ");
    r.append(write_number(season_number).as_str());
    if episodes.len() == 1 {
        r.append(" episode ");
        r.append(write_number(episodes[0]).as_str());
    } else {
        r.append(" episodes ");
        r.append(write_number(episodes[0]).as_str());
        r.append("\u{2013}");
        r.append(write_number(episodes[episodes.len() - 1]).as_str());
    }
    r.append(" ready");
    r
}

} // verus!
