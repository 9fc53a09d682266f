//! What the progress store holds for a show, and the order in which a store
//! of an older layout is brought up to date.
use vstd::prelude::*;

verus! {

/// The newest layout of the store.
pub const SCHEMA_VERSION: i64 = 2;

/// One tracked show: its id, its title, the last episode seen and when.
#[derive(Debug, Clone)]
pub struct SeenEntry {
    pub ani_id: String,
    pub title: String,
    pub last_episode: String,
    pub last_seen_at: String,
}

/// What a `SeenEntry` stands for: its four texts.
pub struct Seen {
    pub ani_id: Seq<char>,
    pub title: Seq<char>,
    pub last_episode: Seq<char>,
    pub last_seen_at: Seq<char>,
}

impl View for SeenEntry {
    type V = Seen;

    open spec fn view(&self) -> Seen {
        Seen {
            ani_id: self.ani_id@,
            title: self.title@,
            last_episode: self.last_episode@,
            last_seen_at: self.last_seen_at@,
        }
    }
}

impl SeenEntry {
    /// A copy with the same four texts.
    pub fn duplicate(&self) -> (out: SeenEntry)
        ensures
            out@ == self@,
    {
        SeenEntry {
            ani_id: self.ani_id.clone(),
            title: self.title.clone(),
            last_episode: self.last_episode.clone(),
            last_seen_at: self.last_seen_at.clone(),
        }
    }
}

/// Why a store cannot be brought up to date.
#[derive(Debug, Clone, Copy, PartialEq, Eq, Structural)]
pub enum MigrationError {
    /// The store has a layout newer than this program knows.
    NewerThanSupported(i64),
    /// No step leads to the layout of this number.
    MissingStep(i64),
}

/// The layouts to step through, in order, from a store of layout
/// `user_version`.
pub open spec fn steps_from(user_version: int) -> Seq<i64> {
    if user_version >= 2 {
        Seq::empty()
    } else if user_version == 1 {
        seq![2i64]
    } else {
        seq![1i64, 2i64]
    }
}

/// The steps that bring a store of layout `user_version` up to date: every
/// layout after it up to the newest, in order. A store newer than the newest
/// layout is refused, and so is one below layout 0, for the step after it
/// does not exist.
pub fn migration_steps(user_version: i64) -> (r: Result<Vec<i64>, MigrationError>)
    ensures
        match r {
            Ok(steps) => 0 <= user_version <= SCHEMA_VERSION && steps@ == steps_from(
                user_version as int,
            ),
            Err(MigrationError::NewerThanSupported(v)) => user_version > SCHEMA_VERSION && v
                == user_version,
            Err(MigrationError::MissingStep(v)) => user_version < 0 && v == user_version + 1,
        },
{
    if user_version > SCHEMA_VERSION {
        return Err(MigrationError::NewerThanSupported(user_version));
    }
    if user_version < 0 {
        return Err(MigrationError::MissingStep(user_version + 1));
    }
    let mut steps: Vec<i64> = Vec::new();
    let mut v: i64 = user_version;
    while v < SCHEMA_VERSION
        invariant
            0 <= user_version <= v <= SCHEMA_VERSION,
            steps@ == Seq::new((v - user_version) as nat, |k: int| (user_version + 1 + k) as i64),
        decreases SCHEMA_VERSION - v,
    {
        let ghost prev = steps@;
        v = v + 1;
        steps.push(v);
        assert(steps@ =~= Seq::new(
            (v - user_version) as nat,
            |k: int| (user_version + 1 + k) as i64,
        ));
    }
    assert(steps@ =~= steps_from(user_version as int));
    Ok(steps)
}

} // verus!
