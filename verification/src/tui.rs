//! The dashboard's decisions: which action is chosen, what a key does, which
//! catalogs are asked for, and what the user is told. Drawing and reading
//! keys are the caller's.
use crate::db::SeenEntry;
use crate::episode::{
    catalog_texts, has_next, has_next_episode, has_previous_episode, previous_target, texts,
};
use crate::index::TextMap;
use crate::number::{decimal_chars, decimal_text};
use crate::playback::{
    episode_to_store, failure_text, option_text, playback_failure_message, progress_update,
    PlaybackOutcome,
};
use crate::progress::{format_episode_progress_text, progress_text};
use crate::text::{chars_of, has_prefix, starts_with, string_of};
use crate::title::{parse_title_and_total_eps, title_and_total, truncate, truncated};
use vstd::prelude::*;

verus! {

/// The actions that the dashboard offers for a tracked show.
#[derive(Debug, Clone, Copy, PartialEq, Eq, Structural)]
pub enum TuiAction {
    Next,
    Replay,
    Previous,
    Select,
}

impl TuiAction {
    /// The name of the action as the dashboard shows it.
    pub fn label(self) -> (out: &'static str)
        ensures
            out@ == match self {
                TuiAction::Next => "NEXT"@,
                TuiAction::Replay => "REPLAY"@,
                TuiAction::Previous => "PREVIOUS"@,
                TuiAction::Select => "SELECT"@,
            },
    {
        match self {
            TuiAction::Next => "NEXT",
            TuiAction::Replay => "REPLAY",
            TuiAction::Previous => "PREVIOUS",
            TuiAction::Select => "SELECT",
        }
    }

    /// The place of the action in the row of actions, from the left.
    pub open spec fn place(self) -> int {
        match self {
            TuiAction::Next => 0,
            TuiAction::Replay => 1,
            TuiAction::Previous => 2,
            TuiAction::Select => 3,
        }
    }

    /// The action one place to the left; the leftmost stays.
    pub open spec fn moved_left(self) -> TuiAction {
        match self {
            TuiAction::Next => TuiAction::Next,
            TuiAction::Replay => TuiAction::Next,
            TuiAction::Previous => TuiAction::Replay,
            TuiAction::Select => TuiAction::Previous,
        }
    }

    /// The action one place to the right; the rightmost stays.
    pub open spec fn moved_right(self) -> TuiAction {
        match self {
            TuiAction::Next => TuiAction::Replay,
            TuiAction::Replay => TuiAction::Previous,
            TuiAction::Previous => TuiAction::Select,
            TuiAction::Select => TuiAction::Select,
        }
    }

    /// The action one place to the left; the leftmost stays.
    pub fn move_left(self) -> (out: TuiAction)
        ensures
            out == self.moved_left(),
            out.place() == if self.place() > 0 {
                self.place() - 1
            } else {
                0
            },
    {
        match self {
            TuiAction::Next => TuiAction::Next,
            TuiAction::Replay => TuiAction::Next,
            TuiAction::Previous => TuiAction::Replay,
            TuiAction::Select => TuiAction::Previous,
        }
    }

    /// The action one place to the right; the rightmost stays.
    pub fn move_right(self) -> (out: TuiAction)
        ensures
            out == self.moved_right(),
            out.place() == if self.place() < 3 {
                self.place() + 1
            } else {
                3
            },
    {
        match self {
            TuiAction::Next => TuiAction::Replay,
            TuiAction::Replay => TuiAction::Previous,
            TuiAction::Previous => TuiAction::Select,
            TuiAction::Select => TuiAction::Select,
        }
    }
}

/// A status line that informs.
pub fn status_info(msg: &str) -> (out: String)
    ensures
        out@ == "INFO: "@ + msg@,
{
    let mut out = String::from_str("INFO: ");
    out.append(msg);
    out
}

/// A status line that reports an error.
pub fn status_error(msg: &str) -> (out: String)
    ensures
        out@ == "ERROR: "@ + msg@,
{
    let mut out = String::from_str("ERROR: ");
    out.append(msg);
    out
}

/// The kinds of status line, each with a look of its own.
#[derive(Debug, Clone, Copy, PartialEq, Eq, Structural)]
pub enum StatusKind {
    Error,
    Info,
    Plain,
}

/// The kind of a status line: by how it begins.
pub fn status_kind(status: &str) -> (out: StatusKind)
    ensures
        out == if starts_with(status@, "ERROR:"@) {
            StatusKind::Error
        } else if starts_with(status@, "INFO:"@) {
            StatusKind::Info
        } else {
            StatusKind::Plain
        },
{
    let s = chars_of(status);
    if has_prefix(s.as_slice(), chars_of("ERROR:").as_slice()) {
        StatusKind::Error
    } else if has_prefix(s.as_slice(), chars_of("INFO:").as_slice()) {
        StatusKind::Info
    } else {
        StatusKind::Plain
    }
}

/// What is known of a show's catalog: it is being fetched, or the fetch is
/// done, with the catalog where there is one and a warning where there was
/// one.
#[derive(Debug, Clone)]
pub enum EpisodeListState {
    Loading,
    Ready { episode_list: Option<Vec<String>>, warning: Option<String> },
}

/// What an `EpisodeListState` stands for.
pub enum CatalogState {
    Loading,
    Ready { episode_list: Option<Seq<Seq<char>>>, warning: Option<Seq<char>> },
}

impl View for EpisodeListState {
    type V = CatalogState;

    open spec fn view(&self) -> CatalogState {
        match self {
            EpisodeListState::Loading => CatalogState::Loading,
            EpisodeListState::Ready { episode_list, warning } => CatalogState::Ready {
                episode_list: match episode_list {
                    Some(l) => Some(texts(l@)),
                    None => None,
                },
                warning: option_text(*warning),
            },
        }
    }
}

impl EpisodeListState {
    /// The catalog, once it is fetched and there is one.
    pub fn episode_list(&self) -> (out: Option<&[String]>)
        ensures
            match self@ {
                CatalogState::Ready { episode_list: Some(l), .. } => out is Some && texts(
                    out->0@,
                ) == l,
                _ => out is None,
            },
    {
        match self {
            EpisodeListState::Ready { episode_list: Some(episodes), .. } => Some(
                episodes.as_slice(),
            ),
            _ => None,
        }
    }

    /// Whether the catalog is being fetched.
    pub fn is_loading(&self) -> (b: bool)
        ensures
            b == (self@ is Loading),
    {
        match self {
            EpisodeListState::Loading => true,
            _ => false,
        }
    }

    /// The warning that the fetch gave.
    pub fn warning(&self) -> (out: Option<&str>)
        ensures
            match self@ {
                CatalogState::Ready { warning: Some(w), .. } => out is Some && out->0@ == w,
                _ => out is None,
            },
    {
        match self {
            EpisodeListState::Ready { warning: Some(w), .. } => Some(w.as_str()),
            _ => None,
        }
    }
}

/// What a fetch of a catalog gave, for which show.
#[derive(Debug, Clone)]
pub struct EpisodeListFetchResult {
    pub ani_id: String,
    pub episode_list: Option<Vec<String>>,
    pub warning: Option<String>,
}

/// A fetch to start: for which show, and how many episodes its title states.
#[derive(Debug, Clone)]
pub struct EpisodeListRequest {
    pub ani_id: String,
    pub total_hint: Option<u32>,
}

/// Sees to it that the catalog of the selected show is asked for once: for
/// a show of which nothing is known yet the state becomes `Loading` and the
/// fetch to start is returned; for any other show, and without a selected
/// show, nothing changes and nothing is to be started.
pub fn ensure_selected_episode_list(
    items: &[SeenEntry],
    selected: Option<usize>,
    episode_lists_by_id: &mut TextMap<EpisodeListState>,
) -> (out: Option<EpisodeListRequest>)
    requires
        old(episode_lists_by_id).wf(),
    ensures
        final(episode_lists_by_id).wf(),
        match selected {
            Some(i) if i < items@.len() && !old(episode_lists_by_id)@.contains_key(
                items@[i as int].ani_id@,
            ) => {
                &&& out is Some
                &&& out->0.ani_id@ == items@[i as int].ani_id@
                &&& match out->0.total_hint {
                    Some(n) => title_and_total(items@[i as int].title@).1 == Some(n as nat),
                    None => title_and_total(items@[i as int].title@).1 is None,
                }
                &&& final(episode_lists_by_id)@ == old(episode_lists_by_id)@.insert(
                    items@[i as int].ani_id@,
                    CatalogState::Loading,
                )
            },
            _ => out is None && final(episode_lists_by_id)@ == old(episode_lists_by_id)@,
        },
{
    let i = match selected {
        Some(i) => i,
        None => {
            return None;
        },
    };
    if i >= items.len() {
        return None;
    }
    let item = &items[i];
    if episode_lists_by_id.contains_key(item.ani_id.as_str()) {
        return None;
    }
    episode_lists_by_id.insert(item.ani_id.clone(), EpisodeListState::Loading);
    let (_name, total_hint) = parse_title_and_total_eps(item.title.as_str());
    Some(EpisodeListRequest { ani_id: item.ani_id.clone(), total_hint })
}

/// The state of a show whose fetch is done.
pub open spec fn ready_state(r: EpisodeListFetchResult) -> CatalogState {
    CatalogState::Ready {
        episode_list: match r.episode_list {
            Some(l) => Some(texts(l@)),
            None => None,
        },
        warning: option_text(r.warning),
    }
}

/// The states after the results of finished fetches are taken in, in order.
pub open spec fn drained(
    states: Map<Seq<char>, CatalogState>,
    results: Seq<EpisodeListFetchResult>,
) -> Map<Seq<char>, CatalogState>
    decreases results.len(),
{
    if results.len() == 0 {
        states
    } else {
        drained(states, results.drop_last()).insert(
            results.last().ani_id@,
            ready_state(results.last()),
        )
    }
}

/// Takes in the results of the fetches that finished: each show's state
/// becomes `Ready` with what its fetch gave.
pub fn drain_episode_fetch_results(
    results: Vec<EpisodeListFetchResult>,
    episode_lists_by_id: &mut TextMap<EpisodeListState>,
)
    requires
        old(episode_lists_by_id).wf(),
    ensures
        final(episode_lists_by_id).wf(),
        final(episode_lists_by_id)@ == drained(old(episode_lists_by_id)@, results@),
{
    let ghost all = results@;
    let mut results = results;
    let mut done: usize = 0;
    let n = results.len();
    // Turned round first, so that the results can be taken one by one in
    // the order in which they came.
    let mut rest: Vec<EpisodeListFetchResult> = Vec::new();
    while results.len() > 0
        invariant
            rest@.len() + results@.len() == all.len(),
            forall|k: int| 0 <= k < results@.len() ==> results@[k] == all[k],
            forall|k: int|
                0 <= k < rest@.len() ==> rest@[k] == all[all.len() - 1 - k],
        decreases results@.len(),
    {
        let last = results.pop().unwrap();
        rest.push(last);
    }
    assert(all.take(0) =~= Seq::<EpisodeListFetchResult>::empty());
    while rest.len() > 0
        invariant
            episode_lists_by_id.wf(),
            all.len() == n,
            done + rest@.len() == all.len(),
            forall|k: int|
                0 <= k < rest@.len() ==> rest@[k] == all[all.len() - 1 - k],
            episode_lists_by_id@ == drained(old(episode_lists_by_id)@, all.take(done as int)),
        decreases rest@.len(),
    {
        let r = rest.pop().unwrap();
        proof {
            assert(r == all[done as int]);
            assert(all.take(done + 1).drop_last() =~= all.take(done as int));
            assert(all.take(done + 1).last() == r);
        }
        let state = EpisodeListState::Ready { episode_list: r.episode_list, warning: r.warning };
        episode_lists_by_id.insert(r.ani_id, state);
        done = done + 1;
    }
    assert(all.take(done as int) =~= all);
}

/// A rectangle on the terminal. It never reaches beyond the largest
/// coordinate.
#[derive(Debug, Clone, Copy, PartialEq, Eq, Structural)]
pub struct Area {
    pub x: u16,
    pub y: u16,
    pub width: u16,
    pub height: u16,
}

/// The smaller of two numbers.
pub open spec fn least(a: int, b: int) -> int {
    if a <= b {
        a
    } else {
        b
    }
}

/// The larger of two numbers.
pub open spec fn most(a: int, b: int) -> int {
    if a >= b {
        a
    } else {
        b
    }
}

/// A number kept between a lower and an upper bound.
pub open spec fn kept_between(n: int, low: int, high: int) -> int {
    most(low, least(n, high))
}

impl Area {
    /// The rectangle lies within the coordinates of a terminal.
    pub open spec fn wf(self) -> bool {
        self.x + self.width <= u16::MAX && self.y + self.height <= u16::MAX
    }

    /// A rectangle at `x`, `y`, cut where it would reach beyond the largest
    /// coordinate.
    pub fn new(x: u16, y: u16, width: u16, height: u16) -> (out: Area)
        ensures
            out.wf(),
            out.x == x,
            out.y == y,
            out.width == least(width as int, u16::MAX - x),
            out.height == least(height as int, u16::MAX - y),
    {
        let max_width: u16 = u16::MAX - x;
        let max_height: u16 = u16::MAX - y;
        Area {
            x,
            y,
            width: if width > max_width {
                max_width
            } else {
                width
            },
            height: if height > max_height {
                max_height
            } else {
                height
            },
        }
    }
}

/// The extent of a popup along one axis: of the wanted extent as much as
/// the area has, and at least one cell.
pub open spec fn fitted(wanted: int, available: int) -> int {
    least(wanted, most(available, 1))
}

/// Where a popup of a fitted extent begins so that it stands in the middle.
pub open spec fn centered_start(start: int, available: int, extent: int) -> int {
    start + most(available - extent, 0) / 2
}

/// A rectangle of the wanted size in the middle of `area`, no larger than
/// `area` but at least one cell wide and high.
pub fn centered_fixed_rect(width: u16, height: u16, area: Area) -> (out: Area)
    requires
        area.wf(),
    ensures
        out.wf(),
        out.x == centered_start(
            area.x as int,
            area.width as int,
            fitted(width as int, area.width as int),
        ),
        out.y == centered_start(
            area.y as int,
            area.height as int,
            fitted(height as int, area.height as int),
        ),
        out.width == least(fitted(width as int, area.width as int), u16::MAX - out.x),
        out.height == least(fitted(height as int, area.height as int), u16::MAX - out.y),
{
    let room_w: u16 = if area.width >= 1 {
        area.width
    } else {
        1
    };
    let room_h: u16 = if area.height >= 1 {
        area.height
    } else {
        1
    };
    let w: u16 = if width <= room_w {
        width
    } else {
        room_w
    };
    let h: u16 = if height <= room_h {
        height
    } else {
        room_h
    };
    let spare_w: u16 = if area.width >= w {
        area.width - w
    } else {
        0
    };
    let spare_h: u16 = if area.height >= h {
        area.height - h
    } else {
        0
    };
    Area::new(area.x + spare_w / 2, area.y + spare_h / 2, w, h)
}

/// The width that a popup wants for a text whose longest line has `longest`
/// characters, in an area `available` wide: twelve more than the line,
/// between 48 and 72, and never more than the area without its border.
pub open spec fn popup_width(longest: u16, available: u16) -> int {
    let room = most(available - 2, 1);
    kept_between(least(longest + 12, u16::MAX as int), least(48, room), least(72, room))
}

/// The height that a popup wants for a text of `count` lines, in an area
/// `available` high: six more than the lines, between 10 and 18, and never
/// more than the area without its border.
pub open spec fn popup_height(count: u16, available: u16) -> int {
    let room = most(available - 2, 1);
    kept_between(least(count + 6, u16::MAX as int), least(10, room), least(18, room))
}

fn popup_extent(content: u16, margin: u16, low: u16, high: u16, available: u16) -> (out: u16)
    requires
        low <= high,
    ensures
        out == kept_between(
            least(content + margin, u16::MAX as int),
            least(low as int, most(available - 2, 1)),
            least(high as int, most(available - 2, 1)),
        ),
{
    let room: u16 = if available >= 3 {
        available - 2
    } else {
        1
    };
    let lo: u16 = if low <= room {
        low
    } else {
        room
    };
    let hi: u16 = if high <= room {
        high
    } else {
        room
    };
    let desired: u16 = if content > u16::MAX - margin {
        u16::MAX
    } else {
        content + margin
    };
    let capped: u16 = if desired <= hi {
        desired
    } else {
        hi
    };
    if capped >= lo {
        capped
    } else {
        lo
    }
}

/// The rectangle of a popup for a text whose longest line has `longest`
/// characters and which has `count` lines, in the middle of `area`.
pub fn popup_rect(area: Area, longest: u16, count: u16) -> (out: Area)
    requires
        area.wf(),
    ensures
        out.wf(),
        out == centered_fixed_rect_of(
            popup_width(longest, area.width),
            popup_height(count, area.height),
            area,
        ),
{
    let width = popup_extent(longest, 12, 48, 72, area.width);
    let height = popup_extent(count, 6, 10, 18, area.height);
    centered_fixed_rect(width, height, area)
}

/// The rectangle that `centered_fixed_rect` gives.
pub open spec fn centered_fixed_rect_of(width: int, height: int, area: Area) -> Area {
    let x = centered_start(area.x as int, area.width as int, fitted(width, area.width as int));
    let y = centered_start(area.y as int, area.height as int, fitted(height, area.height as int));
    Area {
        x: x as u16,
        y: y as u16,
        width: least(fitted(width, area.width as int), u16::MAX - x) as u16,
        height: least(fitted(height, area.height as int), u16::MAX - y) as u16,
    }
}

/// The length of the longest line, each length kept to 16 bits.
pub open spec fn longest_line(ls: Seq<Seq<char>>) -> u16
    decreases ls.len(),
{
    if ls.len() == 0 {
        0
    } else {
        let before = longest_line(ls.drop_last());
        let own = (ls.last().len() % 0x1_0000) as u16;
        if own > before {
            own
        } else {
            before
        }
    }
}

/// The extent of a text: the length of its longest line and the number of
/// its lines, each kept to 16 bits.
pub fn text_extent(text: &str) -> (out: (u16, u16))
    ensures
        out.0 == longest_line(crate::text::lines(text@)),
        out.1 == (crate::text::lines(text@).len() % 0x1_0000) as u16,
{
    let c = chars_of(text);
    let ls = crate::text::split_lines(c.as_slice());
    let ghost all = crate::text::lines(text@);
    let mut longest: u16 = 0;
    let mut i: usize = 0;
    assert(all.take(0) =~= Seq::<Seq<char>>::empty());
    while i < ls.len()
        invariant
            i <= ls.len(),
            crate::text::views(ls@) == all,
            longest == longest_line(all.take(i as int)),
        decreases ls.len() - i,
    {
        proof {
            assert(all.take(i + 1).drop_last() =~= all.take(i as int));
            assert(all.take(i + 1).last() == ls@[i as int]@);
        }
        let len: u16 = (ls[i].len() % 0x1_0000) as u16;
        if len > longest {
            longest = len;
        }
        i += 1;
    }
    assert(all.take(i as int) =~= all);
    (longest, (ls.len() % 0x1_0000) as u16)
}

/// The rectangle of a popup that shows `text`, in the middle of `area`.
pub fn popup_rect_for_text(area: Area, text: &str) -> (out: Area)
    requires
        area.wf(),
    ensures
        out.wf(),
        out == centered_fixed_rect_of(
            popup_width(longest_line(crate::text::lines(text@)), area.width),
            popup_height((crate::text::lines(text@).len() % 0x1_0000) as u16, area.height),
            area,
        ),
{
    let (longest, count) = text_extent(text);
    popup_rect(area, longest, count)
}

/// The rectangle that the shadow of a popup would take: one cell to the
/// right and below, within the area, and one cell smaller.
pub open spec fn shadow_of(area: Area, popup: Area) -> Area {
    let x = least(popup.x + 1, area.x + most(area.width - 1, 0));
    let y = least(popup.y + 1, area.y + most(area.height - 1, 0));
    Area {
        x: x as u16,
        y: y as u16,
        width: least(most(popup.width - 1, 0), u16::MAX - x) as u16,
        height: least(most(popup.height - 1, 0), u16::MAX - y) as u16,
    }
}

/// The shadow of a popup: one cell to the right and below, within the
/// area, and one cell smaller; none where nothing of it would show.
pub fn popup_shadow(area: Area, popup: Area) -> (out: Option<Area>)
    requires
        area.wf(),
        popup.wf(),
    ensures
        out == if shadow_of(area, popup).width == 0 || shadow_of(area, popup).height == 0 {
            None
        } else {
            Some(shadow_of(area, popup))
        },
        out matches Some(s) ==> s.wf(),
{
    let right: u16 = area.x + (if area.width >= 1 {
        area.width - 1
    } else {
        0
    });
    let below: u16 = area.y + (if area.height >= 1 {
        area.height - 1
    } else {
        0
    });
    let x: u16 = if popup.x < right {
        popup.x + 1
    } else {
        right
    };
    let y: u16 = if popup.y < below {
        popup.y + 1
    } else {
        below
    };
    let w: u16 = if popup.width >= 1 {
        popup.width - 1
    } else {
        0
    };
    let h: u16 = if popup.height >= 1 {
        popup.height - 1
    } else {
        0
    };
    let shadow = Area::new(x, y, w, h);
    if shadow.width == 0 || shadow.height == 0 {
        None
    } else {
        Some(shadow)
    }
}

/// Position `i` holds the first show with the id `ani_id`.
pub open spec fn is_first_show(items: Seq<SeenEntry>, ani_id: Seq<char>, i: int) -> bool {
    &&& 0 <= i < items.len()
    &&& items[i].ani_id@ == ani_id
    &&& forall|j: int| 0 <= j < i ==> (#[trigger] items[j]).ani_id@ != ani_id
}

/// The row to select once the list of shows is read anew: none in an empty
/// list; the row of the preferred show where the list has it; else the row
/// selected before, or the last row where the list is shorter now; the
/// first row where none was selected.
pub open spec fn selection_after(
    items: Seq<SeenEntry>,
    selected: Option<usize>,
    preferred: Option<Seq<char>>,
) -> Option<usize> {
    if items.len() == 0 {
        None
    } else {
        let p = choose|i: int| preferred is Some && is_first_show(items, preferred->0, i);
        if preferred is Some && is_first_show(items, preferred->0, p) {
            Some(p as usize)
        } else {
            match selected {
                Some(s) => Some(least(s as int, items.len() - 1) as usize),
                None => Some(0),
            }
        }
    }
}

/// The row to select once the list of shows is read anew.
pub fn selection_after_refresh(
    items: &[SeenEntry],
    selected: Option<usize>,
    preferred_id: Option<&str>,
) -> (out: Option<usize>)
    ensures
        out == selection_after(
            items@,
            selected,
            match preferred_id {
                Some(id) => Some(id@),
                None => None,
            },
        ),
        out is Some ==> out->0 < items@.len(),
{
    if items.len() == 0 {
        return None;
    }
    if let Some(id) = preferred_id {
        let wanted = String::from_str(id);
        let mut i: usize = 0;
        while i < items.len()
            invariant
                i <= items.len(),
                items.len() > 0,
                wanted@ == id@,
                preferred_id == Some(id),
                forall|j: int| 0 <= j < i ==> (#[trigger] items@[j]).ani_id@ != id@,
            decreases items.len() - i,
        {
            if items[i].ani_id == wanted {
                proof {
                    let pref = Some(id@);
                    assert(pref is Some && is_first_show(items@, pref->0, i as int));
                    let p = choose|p: int| pref is Some && is_first_show(items@, pref->0, p);
                    assert(p == i);
                }
                return Some(i);
            }
            i += 1;
        }
        proof {
            let pref = Some(id@);
            let p = choose|p: int| pref is Some && is_first_show(items@, pref->0, p);
            if pref is Some && is_first_show(items@, pref->0, p) {
                assert(items@[p].ani_id@ == id@);
            }
        }
    }
    match selected {
        Some(s) => Some(if s <= items.len() - 1 {
            s
        } else {
            items.len() - 1
        }),
        None => Some(0),
    }
}

/// A show that the user is asked to confirm the deletion of.
#[derive(Debug, Clone)]
pub struct PendingDelete {
    pub ani_id: String,
    pub title: String,
}

/// A notice that stays until a key is pressed.
#[derive(Debug, Clone)]
pub struct PendingNotice {
    pub message: String,
}

/// The keys that the dashboard tells apart.
#[derive(Debug, Clone, Copy, PartialEq, Eq, Structural)]
pub enum Key {
    Char(char),
    Enter,
    Esc,
    Up,
    Down,
    Left,
    Right,
    Other,
}

/// What the caller is to do after a key.
#[derive(Debug, Clone)]
pub enum Effect {
    /// Nothing but to draw again.
    Nothing,
    /// Leave the dashboard.
    Quit,
    /// Run the playback program's search.
    Search,
    /// Delete this show from the store.
    Delete { ani_id: String, title: String },
    /// Run the chosen action on the show in this row.
    Run { index: usize, action: TuiAction },
}

/// What the dashboard holds between two keys.
#[derive(Debug, Clone)]
pub struct Dashboard {
    pub selected: Option<usize>,
    pub action: TuiAction,
    pub status: String,
    pub pending_delete: Option<PendingDelete>,
    pub pending_notice: Option<PendingNotice>,
}

/// The notice that no episode follows or comes before.
pub open spec fn notice_text(head: Seq<char>, title: Seq<char>) -> Seq<char> {
    head + "\n\n"@ + truncated(title, 50) + "\n\nPress any key to continue."@
}

fn notice(head: &str, title: &str) -> (out: PendingNotice)
    ensures
        out.message@ == notice_text(head@, title@),
{
    let mut m = String::from_str(head);
    m.append("\n\n");
    m.append(truncate(title, 50).as_str());
    m.append("\n\nPress any key to continue.");
    PendingNotice { message: m }
}

/// The status with which the dashboard opens.
pub fn opening_status(item_count: usize) -> (out: String)
    ensures
        out@ == if item_count == 0 {
            "INFO: "@ + "No tracked entries yet. Press `s` to search or run `anitrack start`."@
        } else {
            "INFO: "@ + "Ready."@
        },
{
    if item_count == 0 {
        status_info("No tracked entries yet. Press `s` to search or run `anitrack start`.")
    } else {
        status_info("Ready.")
    }
}

impl Dashboard {
    /// The dashboard as it opens: the first row selected where there is
    /// one, the action `Next`, and nothing pending.
    pub fn new(item_count: usize) -> (out: Dashboard)
        ensures
            out.selected == if item_count == 0 {
                None::<usize>
            } else {
                Some(0usize)
            },
            out.action == TuiAction::Next,
            out.pending_delete is None,
            out.pending_notice is None,
            out.status@ == if item_count == 0 {
                "INFO: "@ + "No tracked entries yet. Press `s` to search or run `anitrack start`."@
            } else {
                "INFO: "@ + "Ready."@
            },
    {
        Dashboard {
            selected: if item_count == 0 {
                None
            } else {
                Some(0)
            },
            action: TuiAction::Next,
            status: opening_status(item_count),
            pending_delete: None,
            pending_notice: None,
        }
    }

    /// Takes a key. A pending notice takes any key and goes. A pending
    /// deletion takes `y` or Enter as a yes, which is handed on as the
    /// effect, and `n` or Escape as a no; no other key does anything
    /// while it is pending. Otherwise `q` leaves, `s` searches, the arrows
    /// move the selection and the action, `d` asks for a deletion to be
    /// confirmed, and Enter runs the action on the selected show, unless
    /// the action is `Next` and no episode follows, or `Previous` and none
    /// comes before: then a notice says so.
    ///
    /// `episode_list` is the catalog of the selected show where it is
    /// known.
    pub fn handle_key(&mut self, items: &[SeenEntry], key: Key, episode_list: Option<&[String]>) -> (out:
        Effect)
        ensures
            old(self).pending_notice is Some ==> out is Nothing && final(self).pending_notice
                is None && final(self).selected == old(self).selected && final(self).action
                == old(self).action && final(self).status@ == old(self).status@,
            old(self).pending_notice is None && old(self).pending_delete is Some ==> {
                &&& final(self).selected == old(self).selected
                &&& final(self).action == old(self).action
                &&& final(self).pending_notice is None
                &&& if key == Key::Char('y') || key == Key::Enter {
                    &&& out matches Effect::Delete { ani_id, title }
                    &&& ani_id@ == old(self).pending_delete->0.ani_id@
                    &&& title@ == old(self).pending_delete->0.title@
                    &&& final(self).pending_delete is None
                } else if key == Key::Esc || key == Key::Char('n') {
                    &&& out is Nothing
                    &&& final(self).pending_delete is None
                    &&& final(self).status@ == "INFO: "@ + "Delete canceled."@
                } else {
                    &&& out is Nothing
                    &&& final(self).pending_delete is Some
                    &&& final(self).status@ == old(self).status@
                }
            },
            old(self).pending_notice is None && old(self).pending_delete is None ==> {
                &&& out is Quit <==> key == Key::Char('q')
                &&& out is Search <==> key == Key::Char('s')
                &&& !(out is Delete)
                &&& final(self).action == if key == Key::Left {
                    old(self).action.moved_left()
                } else if key == Key::Right {
                    old(self).action.moved_right()
                } else {
                    old(self).action
                }
                &&& final(self).selected == match (key, old(self).selected) {
                    (Key::Up, Some(i)) => Some(if i >= 1 {
                        (i - 1) as usize
                    } else {
                        0usize
                    }),
                    (Key::Down, Some(i)) => if items@.len() > 0 {
                        Some(least(i + 1, items@.len() - 1) as usize)
                    } else {
                        Some(i)
                    },
                    (_, s) => s,
                }
                &&& final(self).pending_delete is Some <==> key == Key::Char('d')
                    && old(self).selected is Some && old(self).selected->0 < items@.len()
                &&& final(self).pending_delete matches Some(p) ==> p.ani_id@
                    == items@[old(self).selected->0 as int].ani_id@ && p.title@
                    == items@[old(self).selected->0 as int].title@
                &&& match out {
                    Effect::Run { index, action } => {
                        &&& key == Key::Enter
                        &&& old(self).selected == Some(index)
                        &&& index < items@.len()
                        &&& action == old(self).action
                        &&& action == TuiAction::Next ==> has_next(
                            items@[index as int].last_episode@,
                            match title_and_total(items@[index as int].title@).1 {
                                Some(n) => Some(n as u32),
                                None => None,
                            },
                            catalog_texts(episode_list),
                        )
                        &&& action == TuiAction::Previous ==> previous_target(
                            items@[index as int].last_episode@,
                            catalog_texts(episode_list),
                        ) is Some
                        &&& final(self).pending_notice is None
                    },
                    _ => true,
                }
                &&& key == Key::Enter && old(self).selected is Some && old(self).selected->0
                    < items@.len() ==> (out is Run || final(self).pending_notice is Some)
                &&& final(self).pending_notice is Some ==> key == Key::Enter && out is Nothing
                &&& final(self).pending_notice matches Some(n) ==> {
                    let item = items@[old(self).selected->0 as int];
                    if old(self).action == TuiAction::Next {
                        &&& n.message@ == notice_text("No more episodes available."@, item.title@)
                        &&& final(self).status@ == "INFO: "@ + "No next episode available."@
                    } else {
                        &&& old(self).action == TuiAction::Previous
                        &&& n.message@ == notice_text(
                            "No previous episode available."@,
                            item.title@,
                        )
                        &&& final(self).status@ == "INFO: "@ + "No previous episode available."@
                    }
                }
                &&& key == Key::Char('d') ==> final(self).status@ == match old(self).selected {
                    None => "ERROR: "@ + "Delete failed: no entry selected."@,
                    Some(i) => if i >= items@.len() {
                        "ERROR: "@ + "Delete failed: invalid selection."@
                    } else {
                        "INFO: "@ + "Confirm delete: y/Enter to delete, n/Esc to cancel."@
                    },
                }
                &&& key != Key::Char('d') && final(self).pending_notice is None
                    ==> final(self).status@ == old(self).status@
            },
    {
        if self.pending_notice.is_some() {
            self.pending_notice = None;
            return Effect::Nothing;
        }
        if self.pending_delete.is_some() {
            match key {
                Key::Char('y') | Key::Enter => {
                    let dialog = self.pending_delete.take().unwrap();
                    return Effect::Delete { ani_id: dialog.ani_id, title: dialog.title };
                },
                Key::Esc | Key::Char('n') => {
                    self.pending_delete = None;
                    self.status = status_info("Delete canceled.");
                    return Effect::Nothing;
                },
                _ => {
                    return Effect::Nothing;
                },
            }
        }
        match key {
            Key::Char('q') => Effect::Quit,
            Key::Char('s') => Effect::Search,
            Key::Up => {
                if let Some(i) = self.selected {
                    self.selected = Some(if i >= 1 {
                        i - 1
                    } else {
                        0
                    });
                }
                Effect::Nothing
            },
            Key::Down => {
                if let Some(i) = self.selected {
                    if items.len() > 0 {
                        let last = items.len() - 1;
                        self.selected = Some(if i < last {
                            i + 1
                        } else {
                            last
                        });
                    }
                }
                Effect::Nothing
            },
            Key::Left => {
                self.action = self.action.move_left();
                Effect::Nothing
            },
            Key::Right => {
                self.action = self.action.move_right();
                Effect::Nothing
            },
            Key::Char('d') => {
                match self.selected {
                    None => {
                        self.status = status_error("Delete failed: no entry selected.");
                    },
                    Some(i) => {
                        if i >= items.len() {
                            self.status = status_error("Delete failed: invalid selection.");
                        } else {
                            self.pending_delete = Some(
                                PendingDelete {
                                    ani_id: items[i].ani_id.clone(),
                                    title: items[i].title.clone(),
                                },
                            );
                            self.status = status_info(
                                "Confirm delete: y/Enter to delete, n/Esc to cancel.",
                            );
                        }
                    },
                }
                Effect::Nothing
            },
            Key::Enter => {
                let i = match self.selected {
                    Some(i) => i,
                    None => {
                        return Effect::Nothing;
                    },
                };
                if i >= items.len() {
                    return Effect::Nothing;
                }
                let item = &items[i];
                match self.action {
                    TuiAction::Next => {
                        let (_name, total) = parse_title_and_total_eps(item.title.as_str());
                        if !has_next_episode(item.last_episode.as_str(), total, episode_list) {
                            self.pending_notice = Some(
                                notice("No more episodes available.", item.title.as_str()),
                            );
                            self.status = status_info("No next episode available.");
                            return Effect::Nothing;
                        }
                    },
                    TuiAction::Previous => {
                        if !has_previous_episode(item.last_episode.as_str(), episode_list) {
                            self.pending_notice = Some(
                                notice("No previous episode available.", item.title.as_str()),
                            );
                            self.status = status_info("No previous episode available.");
                            return Effect::Nothing;
                        }
                    },
                    _ => {},
                }
                Effect::Run { index: i, action: self.action }
            },
            _ => Effect::Nothing,
        }
    }
}

/// What the user is told of an action that ended well.
pub open spec fn success_text(action: TuiAction, title: Seq<char>, episode: Seq<char>) -> Seq<char> {
    match action {
        TuiAction::Next => "Updated progress: "@ + title + " -> episode "@ + episode,
        TuiAction::Replay => "Replay finished: "@ + title + " now on episode "@ + episode,
        TuiAction::Previous => "Previous finished: "@ + title + " now on episode "@ + episode,
        TuiAction::Select => "Select finished: "@ + title + " now on episode "@ + episode,
    }
}

/// What an action on a show came to: what the user is told, and the episode
/// to store. An episode is stored only after a run that succeeded.
pub fn action_report(action: TuiAction, item: &SeenEntry, outcome: &PlaybackOutcome) -> (out: (
    String,
    Option<String>,
))
    ensures
        out.1 is Some <==> outcome.success,
        match out.1 {
            Some(ep) => episode_to_store(
                outcome.success,
                option_text(outcome.final_episode),
                item.last_episode@,
            ) == Some(ep@) && out.0@ == success_text(action, item.title@, ep@),
            None => out.0@ == failure_text(option_text(outcome.failure_detail)),
        },
{
    match progress_update(outcome, item) {
        Some(ep) => {
            let mut m = match action {
                TuiAction::Next => String::from_str("Updated progress: "),
                TuiAction::Replay => String::from_str("Replay finished: "),
                TuiAction::Previous => String::from_str("Previous finished: "),
                TuiAction::Select => String::from_str("Select finished: "),
            };
            m.append(item.title.as_str());
            match action {
                TuiAction::Next => m.append(" -> episode "),
                _ => m.append(" now on episode "),
            }
            m.append(ep.as_str());
            (m, Some(ep))
        },
        None => (playback_failure_message(outcome), None),
    }
}

/// How a deletion ended.
#[derive(Debug, Clone)]
pub enum DeleteResult {
    /// The show was deleted.
    Deleted,
    /// The store did not hold the show.
    Missing,
    /// The store failed; the error.
    Failed(String),
}

/// The status after a deletion, and whether the list of shows is to be read
/// anew: it is, unless the store failed.
pub fn delete_report(title: &str, result: &DeleteResult) -> (out: (String, bool))
    ensures
        out.1 == !(result is Failed),
        out.0@ == match *result {
            DeleteResult::Deleted => "INFO: "@ + ("Deleted tracked entry: "@ + title@),
            DeleteResult::Missing => "ERROR: "@ + "Delete failed: entry no longer exists."@,
            DeleteResult::Failed(err) => "ERROR: "@ + ("Delete failed: "@ + err@),
        },
{
    match result {
        DeleteResult::Deleted => {
            let mut m = String::from_str("Deleted tracked entry: ");
            m.append(title);
            (status_info(m.as_str()), true)
        },
        DeleteResult::Missing => (status_error("Delete failed: entry no longer exists."), true),
        DeleteResult::Failed(err) => {
            let mut m = String::from_str("Delete failed: ");
            m.append(err.as_str());
            (status_error(m.as_str()), false)
        },
    }
}

/// The status after an action on the show `title` that could not be run.
pub fn action_failure_status(title: &str, error: &str) -> (out: String)
    ensures
        out@ == "ERROR: "@ + ("Action failed for "@ + title@ + ": "@ + error@),
{
    let mut m = String::from_str("Action failed for ");
    m.append(title);
    m.append(": ");
    m.append(error);
    status_error(m.as_str())
}

/// The status after a search that could not be run.
pub fn search_failure_status(error: &str) -> (out: String)
    ensures
        out@ == "ERROR: "@ + ("Search failed: "@ + error@),
{
    let mut m = String::from_str("Search failed: ");
    m.append(error);
    status_error(m.as_str())
}

/// Whether the dashboard has the terminal: it has it from the start, gives
/// it up while the playback program runs, and takes it again afterwards.
#[derive(Debug, Clone, Copy, PartialEq, Eq, Structural)]
pub struct TuiSession {
    pub active: bool,
}

impl TuiSession {
    /// The dashboard has taken the terminal.
    pub fn enter() -> (out: TuiSession)
        ensures
            out.active,
    {
        TuiSession { active: true }
    }

    /// Gives the terminal up. Says whether there is anything to do for
    /// that: nothing is done twice.
    pub fn suspend(&mut self) -> (do_it: bool)
        ensures
            do_it == old(self).active,
            !final(self).active,
    {
        let was = self.active;
        self.active = false;
        was
    }

    /// Takes the terminal again. Says whether there is anything to do for
    /// that: nothing is done twice.
    pub fn resume(&mut self) -> (do_it: bool)
        ensures
            do_it == !old(self).active,
            final(self).active,
    {
        let was = self.active;
        self.active = true;
        !was
    }

    /// Leaves the dashboard: the same as giving the terminal up.
    pub fn leave(&mut self) -> (do_it: bool)
        ensures
            do_it == old(self).active,
            !final(self).active,
    {
        self.suspend()
    }
}

/// What the head of the dashboard says of the row selected.
pub open spec fn selected_text(selected: Option<usize>) -> Seq<char> {
    match selected {
        Some(i) => "selected "@ + decimal_text((i + 1) as nat),
        None => "selected -"@,
    }
}

/// What the head of the dashboard says of the row selected: its number,
/// counted from 1, or a dash.
pub fn selected_label(selected: Option<usize>) -> (out: String)
    ensures
        out@ == selected_text(selected),
{
    match selected {
        Some(i) => {
            let mut out = String::from_str("selected ");
            out.append(string_of(decimal_chars(i as u128 + 1).as_slice()).as_str());
            out
        },
        None => String::from_str("selected -"),
    }
}

/// What the head of the dashboard says of the number of shows.
pub fn entries_label(count: usize) -> (out: String)
    ensures
        out@ == decimal_text(count as nat) + " entries"@,
{
    let mut out = string_of(decimal_chars(count as u128).as_slice());
    out.append(" entries");
    out
}

/// The number of episodes as the table shows it: the number, or a dash.
pub fn total_label(total: Option<u32>) -> (out: String)
    ensures
        out@ == match total {
            Some(n) => decimal_text(n as nat),
            None => "-"@,
        },
{
    match total {
        Some(n) => string_of(decimal_chars(n as u128).as_slice()),
        None => String::from_str("-"),
    }
}

/// How far a show is watched, as the details show it: the report of the
/// place reached where the title states the number of episodes, else the
/// label and a dash.
pub open spec fn episode_line(
    last: Seq<char>,
    total: Option<u32>,
    catalog: Option<Seq<Seq<char>>>,
) -> Seq<char> {
    match total {
        Some(t) => progress_text(last, t, catalog),
        None => last + " of -"@,
    }
}

/// The details of the selected show.
pub open spec fn details_text(
    name: Seq<char>,
    episode: Seq<char>,
    ani_id: Seq<char>,
    last_seen: Seq<char>,
    loading: bool,
) -> Seq<char> {
    let base = "Title\n"@ + truncated(name, 40) + "\n\nEpisode\n"@ + episode + "\n\nAni ID\n"@
        + truncated(ani_id, 28) + "\n\nLast Seen\n"@ + last_seen;
    if loading {
        base + "\n\nEpisodes\nLoading..."@
    } else {
        base
    }
}

/// The details of the selected show: its name, how far it is watched, its
/// id, when it was last seen, and a word on its catalog while that is being
/// fetched. `last_seen` is the time as the user is to read it.
pub fn selection_details(
    item: &SeenEntry,
    episode_list: Option<&[String]>,
    loading: bool,
    last_seen: &str,
) -> (out: String)
    ensures
        out@ == details_text(
            title_and_total(item.title@).0,
            episode_line(
                item.last_episode@,
                match title_and_total(item.title@).1 {
                    Some(n) => Some(n as u32),
                    None => None,
                },
                catalog_texts(episode_list),
            ),
            item.ani_id@,
            last_seen@,
            loading,
        ),
{
    let (name, total) = parse_title_and_total_eps(item.title.as_str());
    let episode = match total {
        Some(t) => format_episode_progress_text(item.last_episode.as_str(), t, episode_list),
        None => {
            let mut e = String::from_str(item.last_episode.as_str());
            e.append(" of -");
            e
        },
    };
    let mut out = String::from_str("Title\n");
    out.append(truncate(name.as_str(), 40).as_str());
    out.append("\n\nEpisode\n");
    out.append(episode.as_str());
    out.append("\n\nAni ID\n");
    out.append(truncate(item.ani_id.as_str(), 28).as_str());
    out.append("\n\nLast Seen\n");
    out.append(last_seen);
    if loading {
        out.append("\n\nEpisodes\nLoading...");
    }
    out
}

/// What the details say while no show is tracked.
pub fn empty_details() -> (out: String)
    ensures
        out@ == "No tracked entries yet.\n\nPress s to run ani-cli search and add entries."@,
{
    String::from_str("No tracked entries yet.\n\nPress s to run ani-cli search and add entries.")
}

/// The question that asks for a deletion to be confirmed.
pub fn delete_prompt(confirm: &PendingDelete) -> (out: String)
    ensures
        out@ == "Delete tracked entry?\n\n"@ + truncated(confirm.title@, 56)
            + "\n\nThis cannot be undone.\n\n[y / Enter] Delete   [n / Esc] Cancel"@,
{
    let mut out = String::from_str("Delete tracked entry?\n\n");
    out.append(truncate(confirm.title.as_str(), 56).as_str());
    out.append("\n\nThis cannot be undone.\n\n[y / Enter] Delete   [n / Esc] Cancel");
    out
}

} // verus!
