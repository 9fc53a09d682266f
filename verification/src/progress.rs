//! How far a show has been watched: the place of the last label among the
//! show's episodes, and the text that reports it.
use crate::episode::{
    catalog_chars, catalog_position, catalog_texts, find_label, first_match, texts,
};
use crate::label::{label_u32, read_label_u32};
use crate::number::{decimal_chars, decimal_text};
use crate::text::{append_chars, chars_of, string_of};
use vstd::prelude::*;

verus! {

/// The place of a catalog position, counted from 1 and kept to 32 bits.
pub open spec fn ordinal_of(i: int) -> u32 {
    ((i + 1) % 0x1_0000_0000) as u32
}

/// The place of the first catalog entry that matches `last`, counted from 1.
pub open spec fn ordinal(last: Seq<char>, catalog: Seq<Seq<char>>) -> Option<u32> {
    match first_match(catalog, last) {
        Some(i) => Some(ordinal_of(i)),
        None => None,
    }
}

/// The smaller of two numbers.
pub open spec fn at_most(n: u32, cap: u32) -> u32 {
    if n <= cap {
        n
    } else {
        cap
    }
}

/// The place to report for `last` in a show of `total` episodes: nothing
/// for a show without episodes; else the ordinal in the catalog, or without
/// a catalog match the label's whole number; never above `total`.
pub open spec fn progress_position(
    last: Seq<char>,
    total: u32,
    catalog: Option<Seq<Seq<char>>>,
) -> Option<u32> {
    if total == 0 {
        None
    } else {
        match catalog_position(last, catalog) {
            Some(i) => Some(at_most(ordinal_of(i), total)),
            None => match label_u32(last) {
                Some(n) => Some(at_most(n as u32, total)),
                None => None,
            },
        }
    }
}

/// The report of the place reached: `P of T`, with the label added in
/// brackets where the label does not write `P` itself; without a place, the
/// label in place of `P`.
pub open spec fn progress_text(
    last: Seq<char>,
    total: u32,
    catalog: Option<Seq<Seq<char>>>,
) -> Seq<char> {
    match progress_position(last, total, catalog) {
        Some(p) => if label_u32(last) == Some(p as nat) {
            decimal_text(p as nat) + " of "@ + decimal_text(total as nat)
        } else {
            decimal_text(p as nat) + " of "@ + decimal_text(total as nat) + " (episode "@ + last
                + ")"@
        },
        None => last + " of "@ + decimal_text(total as nat),
    }
}

/// The label of a progress bar: the place, a slash, and the number of
/// episodes.
pub open spec fn gauge_label(shown: u32, total: u32) -> Seq<char> {
    decimal_text(shown as nat) + "/"@ + decimal_text(total as nat)
}

fn place_of(i: usize) -> (r: u32)
    ensures
        r == ordinal_of(i as int),
{
    let wide: u128 = i as u128 + 1;
    (wide % 0x1_0000_0000u128) as u32
}

/// The place of the first entry of `episodes` that matches `last_episode`,
/// counted from 1.
pub fn episode_ordinal_from_list(last_episode: &str, episodes: &[String]) -> (r: Option<u32>)
    ensures
        r == ordinal(last_episode@, texts(episodes@)),
{
    let last = chars_of(last_episode);
    let catalog = catalog_chars(episodes);
    match find_label(&catalog, last.as_slice()) {
        Some(i) => Some(place_of(i)),
        None => None,
    }
}

/// The place to report for `last_episode` in a show of `total_episodes`.
pub fn episode_progress_position(
    last_episode: &str,
    total_episodes: u32,
    episode_list: Option<&[String]>,
) -> (r: Option<u32>)
    ensures
        r == progress_position(last_episode@, total_episodes, catalog_texts(episode_list)),
{
    if total_episodes == 0 {
        return None;
    }
    let last = chars_of(last_episode);
    let found = match episode_list {
        Some(list) => {
            let catalog = catalog_chars(list);
            find_label(&catalog, last.as_slice())
        },
        None => None,
    };
    match found {
        Some(i) => {
            let p = place_of(i);
            Some(if p <= total_episodes {
                p
            } else {
                total_episodes
            })
        },
        None => match read_label_u32(last.as_slice()) {
            Some(n) => Some(if n <= total_episodes {
                n
            } else {
                total_episodes
            }),
            None => None,
        },
    }
}

/// The report of the place reached in a show of `total_episodes`.
pub fn format_episode_progress_text(
    last_episode: &str,
    total_episodes: u32,
    episode_list: Option<&[String]>,
) -> (out: String)
    ensures
        out@ == progress_text(last_episode@, total_episodes, catalog_texts(episode_list)),
{
    let last = chars_of(last_episode);
    let total = decimal_chars(total_episodes as u128);
    let of = chars_of(" of ");
    let mut out: Vec<char> = Vec::new();
    match episode_progress_position(last_episode, total_episodes, episode_list) {
        Some(p) => {
            let place = decimal_chars(p as u128);
            append_chars(&mut out, place.as_slice());
            append_chars(&mut out, of.as_slice());
            append_chars(&mut out, total.as_slice());
            let own = match read_label_u32(last.as_slice()) {
                Some(n) => n == p,
                None => false,
            };
            if !own {
                append_chars(&mut out, chars_of(" (episode ").as_slice());
                append_chars(&mut out, last.as_slice());
                append_chars(&mut out, chars_of(")").as_slice());
            }
        },
        None => {
            append_chars(&mut out, last.as_slice());
            append_chars(&mut out, of.as_slice());
            append_chars(&mut out, total.as_slice());
            assert(out@ =~= last@ + " of "@ + decimal_text(total_episodes as nat));
        },
    }
    string_of(out.as_slice())
}

/// The place to show on a progress bar and its label; the bar is filled to
/// the place divided by the number of episodes.
pub fn progress_gauge_parts(
    last_episode: &str,
    total_episodes: u32,
    episode_list: Option<&[String]>,
) -> (r: Option<(u32, String)>)
    ensures
        match r {
            Some((shown, label)) => progress_position(
                last_episode@,
                total_episodes,
                catalog_texts(episode_list),
            ) == Some(shown) && label@ == gauge_label(shown, total_episodes) && shown
                <= total_episodes && total_episodes > 0,
            None => progress_position(last_episode@, total_episodes, catalog_texts(episode_list))
                is None,
        },
{
    match episode_progress_position(last_episode, total_episodes, episode_list) {
        Some(shown) => {
            let mut out = decimal_chars(shown as u128);
            append_chars(&mut out, chars_of("/").as_slice());
            append_chars(&mut out, decimal_chars(total_episodes as u128).as_slice());
            Some((shown, string_of(out.as_slice())))
        },
        None => None,
    }
}

} // verus!
