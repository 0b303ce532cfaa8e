use vstd::prelude::*;

use crate::traverse::Event;
use crate::traverse::EventV;

verus! {

/// The verbose log line for a tag and a relativized path: `[TAG] "path"`.
pub open spec fn log_line(tag: Seq<char>, path: Seq<char>) -> Seq<char> {
    seq!['['] + tag + seq![']', ' ', '"'] + path + seq!['"']
}

/// The rename notice line: `"old-path" -> "new-name"`.
pub open spec fn notice_line(path: Seq<char>, new_name: Seq<char>) -> Seq<char> {
    seq!['"'] + path + seq!['"', ' ', '-', '>', ' ', '"'] + new_name + seq!['"']
}

/// What an event prints: log lines and rename notices each print one line;
/// a rename is an action on the filesystem and prints nothing itself.
pub open spec fn spec_event_line(e: EventV) -> Option<Seq<char>> {
    match e {
        EventV::Log { tag, path } => Some(log_line(tag, path)),
        EventV::Notice { path, new_name } => Some(notice_line(path, new_name)),
        EventV::Rename { .. } => None,
    }
}

/// The line to print for an event, if it prints one.
pub fn event_line(e: &Event) -> (r: Option<String>)
    ensures
        r.deep_view() == spec_event_line(e.deep_view()),
{
    match e {
        Event::Log { tag, path } => {
            let mut s = "[".to_owned();
            s.append(tag.as_str());
            s.append("] \"");
            s.append(path.as_str());
            s.append("\"");
            proof {
                reveal_strlit("[");
                reveal_strlit("] \"");
                reveal_strlit("\"");
                assert(s@ =~= log_line(tag@, path@));
            }
            Some(s)
        },
        Event::Notice { path, new_name } => {
            let mut s = "\"".to_owned();
            s.append(path.as_str());
            s.append("\" -> \"");
            s.append(new_name.as_str());
            s.append("\"");
            proof {
                reveal_strlit("\"");
                reveal_strlit("\" -> \"");
                assert(s@ =~= notice_line(path@, new_name@));
            }
            Some(s)
        },
        Event::Rename { .. } => None,
    }
}

} // verus!
