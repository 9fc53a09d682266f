//! Where things are found: the playback program, its history file, and a
//! directory for a history file of the supervisor's own.
use crate::ledger::string_views;
use crate::number::{decimal_chars, decimal_text};
use crate::text::string_of;
use vstd::prelude::*;

verus! {

/// The playback program to start: the one that the environment names, or
/// `ani-cli` where it names none.
pub fn resolve_ani_cli_bin(env_value: Option<&str>) -> (out: String)
    ensures
        out@ == match env_value {
            Some(v) if v@.len() > 0 => v@,
            _ => "ani-cli"@,
        },
{
    match env_value {
        Some(v) => if v.unicode_len() > 0 {
            String::from_str(v)
        } else {
            String::from_str("ani-cli")
        },
        None => String::from_str("ani-cli"),
    }
}

/// The parts of the path of the history file. A directory that the
/// environment names for it is taken as it is; else the file lies under
/// `ani-cli` in the state directory, which is the one the environment names
/// or `.local/state` under the home directory, or under `.` without one.
pub open spec fn histfile_parts(
    hist_dir: Option<Seq<char>>,
    state_home: Option<Seq<char>>,
    home: Option<Seq<char>>,
) -> Seq<Seq<char>> {
    match hist_dir {
        Some(d) => seq![d, "ani-hsts"@],
        None => match state_home {
            Some(s) => seq![s, "ani-cli"@, "ani-hsts"@],
            None => match home {
                Some(h) => seq![h, ".local/state"@, "ani-cli"@, "ani-hsts"@],
                None => seq!["."@, ".local/state"@, "ani-cli"@, "ani-hsts"@],
            },
        },
    }
}

/// The text of an optional string slice.
pub open spec fn str_text(s: Option<&str>) -> Option<Seq<char>> {
    match s {
        Some(x) => Some(x@),
        None => None,
    }
}

/// The parts of the path of the history file, to be joined by the caller.
pub fn ani_cli_histfile(hist_dir: Option<&str>, state_home: Option<&str>, home: Option<&str>) -> (out:
    Vec<String>)
    ensures
        string_views(out@) == histfile_parts(str_text(hist_dir), str_text(state_home), str_text(home)),
{
    let mut out: Vec<String> = Vec::new();
    match hist_dir {
        Some(d) => {
            out.push(String::from_str(d));
            out.push(String::from_str("ani-hsts"));
            assert(string_views(out@) =~= seq![d@, "ani-hsts"@]);
        },
        None => {
            match state_home {
                Some(s) => {
                    out.push(String::from_str(s));
                    out.push(String::from_str("ani-cli"));
                    out.push(String::from_str("ani-hsts"));
                    assert(string_views(out@) =~= seq![s@, "ani-cli"@, "ani-hsts"@]);
                },
                None => {
                    match home {
                        Some(h) => out.push(String::from_str(h)),
                        None => out.push(String::from_str(".")),
                    }
                    out.push(String::from_str(".local/state"));
                    out.push(String::from_str("ani-cli"));
                    out.push(String::from_str("ani-hsts"));
                    assert(string_views(out@) =~= histfile_parts(None, None, str_text(home)));
                },
            }
        },
    }
    out
}

/// The name of a directory for a history file of the supervisor's own: it
/// holds the process id and the time, so that two runs do not share one.
pub fn temp_hist_dir_name(process_id: u32, now_ns: u128) -> (out: String)
    ensures
        out@ == "anitrack-hist-"@ + decimal_text(process_id as nat) + "-"@ + decimal_text(
            now_ns as nat,
        ),
{
    let mut out = String::from_str("anitrack-hist-");
    out.append(string_of(decimal_chars(process_id as u128).as_slice()).as_str());
    out.append("-");
    out.append(string_of(decimal_chars(now_ns).as_slice()).as_str());
    out
}

} // verus!
