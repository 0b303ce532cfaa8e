use vstd::prelude::*;

use crate::lint::lint_path;
use crate::lint::lint_seq;
use crate::matcher::is_ignored;
use crate::matcher::spec_is_ignored;
use crate::paths::base_name_of;
use crate::paths::join_child;
use crate::paths::relate_path;
use crate::paths::relate_spec;
use crate::paths::with_base_name;
use crate::paths::with_file_name;

verus! {

/// The run's configuration: read-only for the whole traversal.
pub struct Config {
    /// Carry out the proposed renames instead of only reporting them.
    pub fix: bool,
    /// Log every visited node.
    pub verbose: bool,
    /// Glob patterns of paths to leave out, subtrees included.
    pub ignore: Vec<String>,
    /// The working directory, stripped from paths for display.
    pub cwd: String,
}

/// The configuration as the contracts see it.
pub struct ConfigV {
    pub fix: bool,
    pub verbose: bool,
    pub ignore: Seq<Seq<char>>,
    pub cwd: Seq<char>,
}

impl View for Config {
    type V = ConfigV;

    open spec fn view(&self) -> ConfigV {
        ConfigV {
            fix: self.fix,
            verbose: self.verbose,
            ignore: self.ignore.deep_view(),
            cwd: self.cwd@,
        }
    }
}

/// A snapshot of one filesystem node: its base name and, for a directory,
/// its children in enumeration order.
#[derive(Debug, PartialEq, Eq)]
pub enum FsNode {
    File { name: String },
    Other { name: String },
    Dir { name: String, children: Vec<FsNode> },
}

/// One observable step of a traversal, in visiting order: a verbose log
/// line, a rename notice to print, or a rename to carry out.
#[derive(Debug, Clone, PartialEq, Eq)]
pub enum Event {
    Log { tag: String, path: String },
    Notice { path: String, new_name: String },
    Rename { from: String, to: String },
}

/// An event as the contracts see it.
pub enum EventV {
    Log { tag: Seq<char>, path: Seq<char> },
    Notice { path: Seq<char>, new_name: Seq<char> },
    Rename { from: Seq<char>, to: Seq<char> },
}

impl DeepView for Event {
    type V = EventV;

    open spec fn deep_view(&self) -> EventV {
        match self {
            Event::Log { tag, path } => EventV::Log { tag: tag@, path: path@ },
            Event::Notice { path, new_name } => EventV::Notice {
                path: path@,
                new_name: new_name@,
            },
            Event::Rename { from, to } => EventV::Rename { from: from@, to: to@ },
        }
    }
}

/// The node's own base name.
pub open spec fn name_of(node: FsNode) -> Seq<char> {
    match node {
        FsNode::File { name } => name@,
        FsNode::Other { name } => name@,
        FsNode::Dir { name, children } => name@,
    }
}

/// The classification tag a verbose log gives the node.
pub open spec fn tag_of(node: FsNode) -> Seq<char> {
    match node {
        FsNode::File { .. } => "FILE"@,
        FsNode::Other { .. } => "OTHER"@,
        FsNode::Dir { .. } => "DIRECTORY"@,
    }
}

/// The events of the check-and-rename step on one relativized path: where
/// the base name lints clean, nothing; otherwise a notice, and in fix mode
/// the rename of the path to its sanitized sibling.
pub open spec fn spec_check_events(c: ConfigV, rel: Seq<char>) -> Seq<EventV> {
    let b = base_name_of(rel);
    if lint_seq(b) == b {
        Seq::empty()
    } else {
        seq![(EventV::Notice { path: rel, new_name: lint_seq(b) })] + if c.fix {
            seq![(EventV::Rename { from: rel, to: with_base_name(rel, lint_seq(b)) })]
        } else {
            Seq::empty()
        }
    }
}

/// The path a node is known by after its own check: in fix mode a renamed
/// node is thereafter held under its sanitized base name.
pub open spec fn spec_path_after_check(c: ConfigV, path: Seq<char>) -> Seq<char> {
    let b = base_name_of(relate_spec(path, c.cwd));
    if c.fix && lint_seq(b) != b {
        with_base_name(path, lint_seq(b))
    } else {
        path
    }
}

/// The events of a depth-first traversal of the subtree at `node`, held at
/// `path`: an ignored path yields at most its own IGNORE line; any other
/// node is logged in verbose mode, checked, and, for a directory, followed
/// by its children in order.
pub open spec fn spec_traverse(c: ConfigV, node: FsNode, path: Seq<char>) -> Seq<EventV>
    decreases node,
{
    if spec_is_ignored(c.ignore, path) {
        if c.verbose {
            seq![(EventV::Log { tag: "IGNORE"@, path: relate_spec(path, c.cwd) })]
        } else {
            Seq::empty()
        }
    } else {
        let rel = relate_spec(path, c.cwd);
        let logs = if c.verbose {
            seq![(EventV::Log { tag: tag_of(node), path: rel })]
        } else {
            Seq::empty()
        };
        let subs = match node {
            FsNode::Dir { name, children } => spec_traverse_children(
                c,
                children@,
                spec_path_after_check(c, path),
            ),
            _ => Seq::empty(),
        };
        logs + spec_check_events(c, rel) + subs
    }
}

/// Law: ignoring a path prevents any descendant from being visited or
/// logged — the whole subtree contributes at most the ignored path's own
/// IGNORE line, and no event of a descendant.
pub proof fn lemma_ignored_subtree_silent(c: ConfigV, node: FsNode, path: Seq<char>)
    requires
        spec_is_ignored(c.ignore, path),
    ensures
        spec_traverse(c, node, path) == if c.verbose {
            seq![(EventV::Log { tag: "IGNORE"@, path: relate_spec(path, c.cwd) })]
        } else {
            Seq::<EventV>::empty()
        },
{
}

/// Law: with fix mode off no rename action is proposed, however many
/// names would be linted — no filesystem mutation can follow.
pub proof fn lemma_no_fix_no_rename(c: ConfigV, node: FsNode, path: Seq<char>)
    requires
        !c.fix,
    ensures
        forall|k: int|
            0 <= k < spec_traverse(c, node, path).len() ==> !(#[trigger] spec_traverse(
                c,
                node,
                path,
            )[k] is Rename),
    decreases node,
{
    if spec_is_ignored(c.ignore, path) {
    } else {
        let rel = relate_spec(path, c.cwd);
        let checks = spec_check_events(c, rel);
        assert(forall|k: int| 0 <= k < checks.len() ==> !(#[trigger] checks[k] is Rename));
        match node {
            FsNode::Dir { name, children } => {
                lemma_no_fix_no_rename_children(c, children@, spec_path_after_check(c, path));
            },
            _ => {},
        }
    }
}

/// With fix mode off, no child's traversal proposes a rename action.
proof fn lemma_no_fix_no_rename_children(c: ConfigV, children: Seq<FsNode>, dir: Seq<char>)
    requires
        !c.fix,
    ensures
        forall|k: int|
            0 <= k < spec_traverse_children(c, children, dir).len() ==> !(
            #[trigger] spec_traverse_children(c, children, dir)[k] is Rename),
    decreases children,
{
    if children.len() == 0 {
    } else {
        let last = children[children.len() - 1];
        lemma_no_fix_no_rename_children(c, children.subrange(0, children.len() - 1), dir);
        lemma_no_fix_no_rename(c, last, dir + seq!['/'] + name_of(last));
    }
}

/// The node's base name.
pub fn node_name(node: &FsNode) -> (r: &String)
    ensures
        r@ == name_of(*node),
{
    match node {
        FsNode::File { name } => name,
        FsNode::Other { name } => name,
        FsNode::Dir { name, .. } => name,
    }
}

/// The classification tag a verbose log gives the node.
pub fn node_tag(node: &FsNode) -> (r: &'static str)
    ensures
        r@ == tag_of(*node),
{
    match node {
        FsNode::File { .. } => "FILE",
        FsNode::Other { .. } => "OTHER",
        FsNode::Dir { .. } => "DIRECTORY",
    }
}

/// The path a node is held by after its own check, without the events:
/// what the traversal recurses under, and what ignore patterns are matched
/// against below the node.
pub fn path_after_check(config: &Config, path: &str) -> (r: String)
    ensures
        r@ == spec_path_after_check(config@, path@),
{
    let rel = relate_path(path, config.cwd.as_str());
    if config.fix {
        match lint_path(rel.as_str()) {
            Some(linted) => with_file_name(path, linted.as_str()),
            None => path.to_owned(),
        }
    } else {
        path.to_owned()
    }
}

/// The check-and-rename step on one node: appends the node's notice and,
/// in fix mode, its rename to `events`, and answers the path the node is
/// held by afterwards.
pub fn check_path(config: &Config, path: &str, events: &mut Vec<Event>) -> (cur: String)
    ensures
        final(events).deep_view() == old(events).deep_view() + spec_check_events(
            config@,
            relate_spec(path@, config@.cwd),
        ),
        cur@ == spec_path_after_check(config@, path@),
{
    let ghost pre = events.deep_view();
    let rel = relate_path(path, config.cwd.as_str());
    match lint_path(rel.as_str()) {
        Some(linted) => {
            events.push(
                Event::Notice { path: rel.clone(), new_name: linted.clone() },
            );
            if config.fix {
                let to = with_file_name(rel.as_str(), linted.as_str());
                events.push(Event::Rename { from: rel, to });
                proof {
                    assert(events.deep_view() =~= pre + spec_check_events(
                        config@,
                        relate_spec(path@, config@.cwd),
                    ));
                }
                with_file_name(path, linted.as_str())
            } else {
                proof {
                    assert(events.deep_view() =~= pre + spec_check_events(
                        config@,
                        relate_spec(path@, config@.cwd),
                    ));
                }
                path.to_owned()
            }
        },
        None => {
            proof {
                assert(events.deep_view() =~= pre + spec_check_events(
                    config@,
                    relate_spec(path@, config@.cwd),
                ));
            }
            path.to_owned()
        },
    }
}

/// The events of traversing a directory's children in order.
pub open spec fn spec_traverse_children(c: ConfigV, children: Seq<FsNode>, dir: Seq<char>) -> Seq<
    EventV,
>
    decreases children,
{
    if children.len() == 0 {
        Seq::empty()
    } else {
        let last = children[children.len() - 1];
        spec_traverse_children(c, children.subrange(0, children.len() - 1), dir) + spec_traverse(
            c,
            last,
            dir + seq!['/'] + name_of(last),
        )
    }
}

/// The Tree Traverser: a depth-first walk of the snapshot subtree at
/// `node`, held at `path`, yielding the traversal's events in order.
pub fn traverse(config: &Config, node: &FsNode, path: &str) -> (events: Vec<Event>)
    ensures
        events.deep_view() == spec_traverse(config@, *node, path@),
    decreases *node,
{
    let mut events: Vec<Event> = Vec::new();
    if is_ignored(&config.ignore, path) {
        if config.verbose {
            let rel = relate_path(path, config.cwd.as_str());
            events.push(Event::Log { tag: "IGNORE".to_owned(), path: rel });
        }
        proof {
            assert(events.deep_view() =~= spec_traverse(config@, *node, path@));
        }
        return events;
    }
    if config.verbose {
        let rel = relate_path(path, config.cwd.as_str());
        let tag = node_tag(node);
        events.push(Event::Log { tag: tag.to_owned(), path: rel });
    }
    let ghost logs = events.deep_view();
    let cur = check_path(config, path, &mut events);
    let ghost checked = events.deep_view();
    if let FsNode::Dir { name, children } = node {
        let mut i: usize = 0;
        while i < children.len()
            invariant
                i <= children.len(),
                *node == (FsNode::Dir { name: *name, children: *children }),
                checked == logs + spec_check_events(config@, relate_spec(path@, config@.cwd)),
                cur@ == spec_path_after_check(config@, path@),
                events.deep_view() == checked + spec_traverse_children(
                    config@,
                    children@.subrange(0, i as int),
                    cur@,
                ),
            decreases children.len() - i,
        {
            let ghost before = events.deep_view();
            let child = &children[i];
            let child_path = join_child(cur.as_str(), node_name(child).as_str());
            proof {
                broadcast use vstd::std_specs::vec::axiom_vec_index_decreases;

                assert(decreases_to!(*node => node->Dir_children));
                assert(decreases_to!(*node => *children));
                assert(decreases_to!(*children => children[i as int]));
            }
            let mut evs = traverse(config, child, child_path.as_str());
            events.append(&mut evs);
            proof {
                let sub = children@.subrange(0, i + 1 as int);
                assert(sub.subrange(0, i as int) =~= children@.subrange(0, i as int));
                assert(sub[i as int] == children@[i as int]);
                assert(events.deep_view() =~= before + spec_traverse(
                    config@,
                    children@[i as int],
                    child_path@,
                ));
                assert(events.deep_view() =~= checked + spec_traverse_children(
                    config@,
                    sub,
                    cur@,
                ));
            }
            i = i + 1;
        }
        proof {
            assert(children@.subrange(0, children@.len() as int) =~= children@);
            assert(events.deep_view() =~= spec_traverse(config@, *node, path@));
        }
    } else {
        proof {
            assert(events.deep_view() =~= spec_traverse(config@, *node, path@));
        }
    }
    events
}

} // verus!
