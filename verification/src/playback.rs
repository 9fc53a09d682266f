//! What to hand the playback program for an action on a tracked show, and
//! what a finished run means for the stored progress.
use crate::db::SeenEntry;
use crate::detect::{Detected, Detection};
use crate::episode::{
    catalog_texts, previous_seed, previous_seed_episode, previous_target,
    previous_target_episode, replay_seed, replay_seed_episode,
};
use crate::index::TextMap;
use crate::ledger::{append_history_warnings, string_views, with_warnings, Entry, HistEntry};
use crate::number::{decimal_chars, decimal_text};
use crate::text::string_of;
use vstd::prelude::*;

verus! {

/// How a run of the playback program ended.
#[derive(Debug, Clone)]
pub struct PlaybackOutcome {
    pub success: bool,
    pub final_episode: Option<String>,
    pub failure_detail: Option<String>,
}

/// How to start the playback program for one episode: either seeded with the
/// episode before, so that it continues with the wanted one, or told the
/// episode itself and which search result the show is.
#[derive(Debug, Clone, PartialEq, Eq)]
pub enum ReplayPlan {
    Continue { seed_episode: String },
    Episode { episode: String, select_nth: Option<u32> },
}

/// What a `ReplayPlan` stands for.
pub enum Plan {
    Continue { seed_episode: Seq<char> },
    Episode { episode: Seq<char>, select_nth: Option<u32> },
}

impl View for ReplayPlan {
    type V = Plan;

    open spec fn view(&self) -> Plan {
        match self {
            ReplayPlan::Continue { seed_episode } => Plan::Continue {
                seed_episode: seed_episode@,
            },
            ReplayPlan::Episode { episode, select_nth } => Plan::Episode {
                episode: episode@,
                select_nth: *select_nth,
            },
        }
    }
}

/// The plan to play the last episode of `item` again. Where a seed exists
/// the plan is to continue from it and the search is not asked; where none
/// exists, as for the first entry of a catalog, the plan names the episode
/// itself with the search result that `resolve_select_nth` gives.
pub fn build_replay_plan<F>(
    item: &SeenEntry,
    episode_list: Option<&[String]>,
    resolve_select_nth: F,
) -> (plan: ReplayPlan) where F: FnOnce(&SeenEntry) -> Option<u32>
    requires
        resolve_select_nth.requires((item,)),
    ensures
        match replay_seed(item.last_episode@, catalog_texts(episode_list)) {
            Some(seed) => plan@ == (Plan::Continue { seed_episode: seed }),
            None => plan matches ReplayPlan::Episode { episode, select_nth } && episode@
                == item.last_episode@ && resolve_select_nth.ensures((item,), select_nth),
        },
{
    match replay_seed_episode(item.last_episode.as_str(), episode_list) {
        Some(seed_episode) => ReplayPlan::Continue { seed_episode },
        None => ReplayPlan::Episode {
            episode: item.last_episode.clone(),
            select_nth: resolve_select_nth(item),
        },
    }
}

/// Why an action on a tracked show cannot be started.
#[derive(Debug, Clone, Copy, PartialEq, Eq, Structural)]
pub enum NavigationError {
    /// No episode comes before the last one seen.
    NoPreviousEpisode,
    /// The search did not find the show, for the action `previous`.
    UnresolvedForPrevious,
    /// The search did not find the show, for the action `select`.
    UnresolvedForSelect,
}

/// What the user is told of a navigation error.
pub open spec fn navigation_error_text(e: NavigationError) -> Seq<char> {
    match e {
        NavigationError::NoPreviousEpisode => "no previous episode available"@,
        NavigationError::UnresolvedForPrevious => "failed to resolve current show for previous action"@,
        NavigationError::UnresolvedForSelect => "failed to resolve current show for episode selection"@,
    }
}

impl NavigationError {
    /// What the user is told, with the warnings of the search added where
    /// the search did not find the show.
    pub fn message(&self, warnings: &[String]) -> (out: String)
        ensures
            out@ == match *self {
                NavigationError::NoPreviousEpisode => navigation_error_text(*self),
                _ => with_warnings(navigation_error_text(*self), string_views(warnings@)),
            },
    {
        match self {
            NavigationError::NoPreviousEpisode => String::from_str("no previous episode available"),
            NavigationError::UnresolvedForPrevious => {
                let mut m = String::from_str("failed to resolve current show for previous action");
                append_history_warnings(&mut m, warnings);
                m
            },
            NavigationError::UnresolvedForSelect => {
                let mut m = String::from_str(
                    "failed to resolve current show for episode selection",
                );
                append_history_warnings(&mut m, warnings);
                m
            },
        }
    }
}

/// Whether the catalog has to be asked for before the last episode can be
/// played again: only where none is at hand and the label alone gives no
/// seed.
pub fn replay_needs_catalog(item: &SeenEntry, episode_list: Option<&[String]>) -> (b: bool)
    ensures
        b == (episode_list is None && replay_seed(item.last_episode@, None) is None),
{
    episode_list.is_none() && replay_seed_episode(item.last_episode.as_str(), None).is_none()
}

/// The plan to play the episode before the last one of `item`. Without such
/// an episode there is nothing to do. Where a seed exists the plan is to
/// continue from it and the search is not asked; else the plan names the
/// episode with the search result that `resolve_select_nth` gives, and
/// without one the action fails.
pub fn build_previous_plan<F>(
    item: &SeenEntry,
    episode_list: Option<&[String]>,
    resolve_select_nth: F,
) -> (r: Result<ReplayPlan, NavigationError>) where F: FnOnce(&SeenEntry) -> Option<u32>
    requires
        resolve_select_nth.requires((item,)),
    ensures
        match previous_target(item.last_episode@, catalog_texts(episode_list)) {
            None => r == Err::<ReplayPlan, NavigationError>(NavigationError::NoPreviousEpisode),
            Some(target) => match previous_seed(item.last_episode@, catalog_texts(episode_list)) {
                Some(seed) => r is Ok && r->Ok_0@ == (Plan::Continue { seed_episode: seed }),
                None => match r {
                    Ok(plan) => plan matches ReplayPlan::Episode { episode, select_nth }
                        && episode@ == target && select_nth is Some
                        && resolve_select_nth.ensures((item,), select_nth),
                    Err(e) => e == NavigationError::UnresolvedForPrevious
                        && resolve_select_nth.ensures((item,), None),
                },
            },
        },
{
    let target = match previous_target_episode(item.last_episode.as_str(), episode_list) {
        Some(t) => t,
        None => {
            return Err(NavigationError::NoPreviousEpisode);
        },
    };
    match previous_seed_episode(item.last_episode.as_str(), episode_list) {
        Some(seed_episode) => Ok(ReplayPlan::Continue { seed_episode }),
        None => match resolve_select_nth(item) {
            Some(n) => Ok(ReplayPlan::Episode { episode: target, select_nth: Some(n) }),
            None => Err(NavigationError::UnresolvedForPrevious),
        },
    }
}

/// The line that seeds a history file of its own, so that the playback
/// program continues with the episode after `stored_episode`.
pub fn seed_history_line(item: &SeenEntry, stored_episode: &str) -> (out: String)
    ensures
        out@ == stored_episode@ + "\t"@ + item.ani_id@ + "\t"@ + item.title@ + "\n"@,
{
    let mut out = String::from_str(stored_episode);
    out.append("\t");
    out.append(item.ani_id.as_str());
    out.append("\t");
    out.append(item.title.as_str());
    out.append("\n");
    out
}

/// The arguments that make the playback program play one episode of a show:
/// the search result to take, where one is given, the title to search for,
/// and the episode.
pub open spec fn episode_arguments_of(
    title: Seq<char>,
    select_nth: Option<u32>,
    episode: Seq<char>,
) -> Seq<Seq<char>> {
    match select_nth {
        Some(n) => seq!["-S"@, decimal_text(n as nat), title, "-e"@, episode],
        None => seq![title, "-e"@, episode],
    }
}

/// The arguments that make the playback program play one episode of a show.
pub fn episode_arguments(title: &str, select_nth: Option<u32>, episode: &str) -> (out: Vec<String>)
    ensures
        string_views(out@) == episode_arguments_of(title@, select_nth, episode@),
{
    let mut out: Vec<String> = Vec::new();
    if let Some(n) = select_nth {
        out.push(String::from_str("-S"));
        out.push(string_of(decimal_chars(n as u128).as_slice()));
    }
    out.push(String::from_str(title));
    out.push(String::from_str("-e"));
    out.push(String::from_str(episode));
    assert(string_views(out@) =~= episode_arguments_of(title@, select_nth, episode@));
    out
}

/// The arguments that make the playback program open a show for the choice
/// of an episode.
pub open spec fn title_arguments_of(title: Seq<char>, select_nth: Option<u32>) -> Seq<Seq<char>> {
    match select_nth {
        Some(n) => seq!["-S"@, decimal_text(n as nat), title],
        None => seq![title],
    }
}

/// The arguments that make the playback program open a show for the choice
/// of an episode.
pub fn title_arguments(title: &str, select_nth: Option<u32>) -> (out: Vec<String>)
    ensures
        string_views(out@) == title_arguments_of(title@, select_nth),
{
    let mut out: Vec<String> = Vec::new();
    if let Some(n) = select_nth {
        out.push(String::from_str("-S"));
        out.push(string_of(decimal_chars(n as u128).as_slice()));
    }
    out.push(String::from_str(title));
    assert(string_views(out@) =~= title_arguments_of(title@, select_nth));
    out
}

/// The episode that the history file records for a show.
pub open spec fn recorded_episode(entries: Map<Seq<char>, Entry>, ani_id: Seq<char>) -> Option<
    Seq<char>,
> {
    if entries.contains_key(ani_id) {
        Some(entries[ani_id].ep)
    } else {
        None
    }
}

/// The episode that a run ended on: after a run that succeeded, what the
/// history file records for the show afterwards, or else what it recorded
/// before; nothing after a run that failed.
pub open spec fn final_episode_of(
    success: bool,
    ani_id: Seq<char>,
    before: Map<Seq<char>, Entry>,
    after: Map<Seq<char>, Entry>,
) -> Option<Seq<char>> {
    if !success {
        None
    } else {
        match recorded_episode(after, ani_id) {
            Some(ep) => Some(ep),
            None => recorded_episode(before, ani_id),
        }
    }
}

/// `out` is a string exactly when `model` is a text, and then that text.
pub open spec fn text_is(out: Option<String>, model: Option<Seq<char>>) -> bool {
    match out {
        Some(s) => model == Some(s@),
        None => model is None,
    }
}

/// How a run ended, from whether the playback program succeeded and from
/// the history file before and after it. For a run on a history file of its
/// own, `before` is empty.
pub fn playback_outcome(
    success: bool,
    ani_id: &str,
    before: &TextMap<HistEntry>,
    after: &TextMap<HistEntry>,
) -> (out: PlaybackOutcome)
    requires
        before.wf(),
        after.wf(),
    ensures
        out.success == success,
        out.failure_detail is None,
        text_is(out.final_episode, final_episode_of(success, ani_id@, before@, after@)),
{
    let final_episode = if success {
        match after.get(ani_id) {
            Some(entry) => Some(entry.ep.clone()),
            None => match before.get(ani_id) {
                Some(entry) => Some(entry.ep.clone()),
                None => None,
            },
        }
    } else {
        None
    };
    PlaybackOutcome { success, final_episode, failure_detail: None }
}

/// The episode to store after a run: after a run that succeeded the episode
/// it ended on, or the one stored where the run left no trace; nothing after
/// a run that failed.
pub open spec fn episode_to_store(
    success: bool,
    final_episode: Option<Seq<char>>,
    stored: Seq<char>,
) -> Option<Seq<char>> {
    if success {
        match final_episode {
            Some(ep) => Some(ep),
            None => Some(stored),
        }
    } else {
        None
    }
}

/// The text of an optional string.
pub open spec fn option_text(s: Option<String>) -> Option<Seq<char>> {
    match s {
        Some(x) => Some(x@),
        None => None,
    }
}

/// Decides what a finished run means for the stored progress: progress is
/// written only after a run that succeeded.
pub fn progress_update(outcome: &PlaybackOutcome, item: &SeenEntry) -> (out: Option<String>)
    ensures
        text_is(
            out,
            episode_to_store(outcome.success, option_text(outcome.final_episode), item.last_episode@),
        ),
        out is Some <==> outcome.success,
{
    if outcome.success {
        match &outcome.final_episode {
            Some(ep) => Some(ep.clone()),
            None => Some(item.last_episode.clone()),
        }
    } else {
        None
    }
}

/// What the user is told of a run that failed or was interrupted.
pub open spec fn failure_text(detail: Option<Seq<char>>) -> Seq<char> {
    match detail {
        Some(d) => "Playback failed/interrupted: "@ + d + ". Progress not updated."@,
        None => "Playback failed/interrupted. Progress not updated."@,
    }
}

/// What the user is told of a run that failed or was interrupted.
pub fn playback_failure_message(outcome: &PlaybackOutcome) -> (out: String)
    ensures
        out@ == failure_text(option_text(outcome.failure_detail)),
{
    match &outcome.failure_detail {
        Some(detail) => {
            let mut m = String::from_str("Playback failed/interrupted: ");
            m.append(detail.as_str());
            m.append(". Progress not updated.");
            m
        },
        None => String::from_str("Playback failed/interrupted. Progress not updated."),
    }
}

/// What the user is told of a conclusion.
pub open spec fn conclusion_text(d: Detected) -> Seq<char> {
    match d {
        Detected::Watched(e) => "Recorded last seen: "@ + e.title + " | episode "@ + e.ep,
        Detected::Ambiguous => "History changed but no parseable watch entry was detected from this run."@,
        Detected::Unchanged => "No new history entry detected from this run."@,
    }
}

/// The report of a run of the search: the conclusion, the exit status where
/// the playback program did not succeed, and the warnings.
pub open spec fn search_report_text(
    d: Detected,
    failed_status: Option<Seq<char>>,
    warnings: Seq<Seq<char>>,
) -> Seq<char> {
    let base = conclusion_text(d);
    let with_status = match failed_status {
        Some(status) => base + "\nani-cli exited with status: "@ + status,
        None => base,
    };
    with_warnings(with_status, warnings)
}

/// The report of a run of the search, and the id of the show to store
/// progress for. Progress is stored only for a watched entry.
pub fn search_report(detection: &Detection, failed_status: Option<&str>, warnings: &[String]) -> (out:
    (String, Option<String>))
    ensures
        out.0@ == search_report_text(
            detection@,
            match failed_status {
                Some(s) => Some(s@),
                None => None,
            },
            string_views(warnings@),
        ),
        match detection@ {
            Detected::Watched(e) => out.1 is Some && out.1->0@ == e.id,
            _ => out.1 is None,
        },
{
    let mut changed_id: Option<String> = None;
    let mut message = match detection {
        Detection::Watched(e) => {
            changed_id = Some(e.id.clone());
            let mut m = String::from_str("Recorded last seen: ");
            m.append(e.title.as_str());
            m.append(" | episode ");
            m.append(e.ep.as_str());
            m
        },
        Detection::Ambiguous => String::from_str(
            "History changed but no parseable watch entry was detected from this run.",
        ),
        Detection::Unchanged => String::from_str("No new history entry detected from this run."),
    };
    if let Some(status) = failed_status {
        message.append("\nani-cli exited with status: ");
        message.append(status);
    }
    append_history_warnings(&mut message, warnings);
    (message, changed_id)
}

/// The report of a search that could not be started.
pub fn launch_failure_report(error: &str, warnings: &[String]) -> (out: String)
    ensures
        out@ == with_warnings(
            "ani-cli failed to start: "@ + error@ + ". Progress unchanged."@,
            string_views(warnings@),
        ),
{
    let mut message = String::from_str("ani-cli failed to start: ");
    message.append(error);
    message.append(". Progress unchanged.");
    append_history_warnings(&mut message, warnings);
    message
}

} // verus!
