//! The check that a user group's new parent does not close a cycle.
//!
//! The walk climbs from the new parent through the parents that the store
//! reports, at most ten levels, and refuses the write when it meets a group
//! it has already seen (the group being written counts as seen). A group
//! that is its own parent is refused at once. A missing group, a group
//! without parent, a failed read or the depth limit end the walk without
//! objection. Reading a group is outside work: the walk says which group to
//! read next and takes the answer.
use vstd::prelude::*;
use vstd::string::StringExecFns;
use crate::errors::{rpc_error_is, RpcCode, RpcError};
use crate::text::same_text;

verus! {

/// How many levels the walk climbs at most.
pub const MAX_DEPTH: usize = 10;

/// What reading a group gave.
#[derive(Debug)]
pub enum ParentLookup {
    /// The read failed.
    Failed,
    /// The group does not exist.
    Missing,
    /// The group exists; its parent id, empty when it has none.
    Found(String),
}

/// The next thing to do.
#[derive(Debug)]
pub enum WalkStep {
    /// Read the group with this id.
    Fetch(String),
    /// The verdict.
    Done(Result<(), RpcError>),
}

/// A walk up the parents of a group.
#[derive(Debug)]
pub struct HierarchyWalk {
    visited: Vec<String>,
    current: String,
    depth: usize,
}

/// The mathematical content of a walk: the groups seen, the group to look
/// at next, and the levels climbed.
pub struct WalkView {
    pub visited: Seq<Seq<char>>,
    pub current: Seq<char>,
    pub depth: nat,
}

impl View for HierarchyWalk {
    type V = WalkView;

    closed spec fn view(&self) -> WalkView {
        WalkView {
            visited: self.visited@.map_values(|s: String| s@),
            current: self.current@,
            depth: self.depth as nat,
        }
    }
}

/// The message of a group that is its own parent.
pub open spec fn self_parent_message() -> Seq<char> {
    "Circular dependency detected: a group cannot be its own parent"@
}

/// The message of a cycle further up.
pub open spec fn cycle_message() -> Seq<char> {
    "Circular dependency detected in user groups"@
}

/// What the walk does when it reaches a group: stop at the depth limit or
/// at an empty id, refuse a group already seen, or record it and read it.
pub open spec fn arrive(w: WalkView, next: WalkView, step: WalkStep) -> bool {
    if w.depth >= MAX_DEPTH || w.current.len() == 0 {
        next == w && (step matches WalkStep::Done(Ok(())))
    } else if w.visited.contains(w.current) {
        next == w && (step matches WalkStep::Done(Err(e)) && rpc_error_is(
            e,
            RpcCode::InvalidArgument,
            cycle_message(),
        ))
    } else {
        &&& next == WalkView { visited: w.visited.push(w.current), ..w }
        &&& step matches WalkStep::Fetch(id)
        &&& id@ == w.current
    }
}

/// The first step of the check of a write that gives group `entity_id` the
/// parent `parent_id`.
pub open spec fn walk_start(entity_id: Seq<char>, parent_id: Seq<char>, w: WalkView, step: WalkStep) -> bool {
    if parent_id.len() == 0 {
        step matches WalkStep::Done(Ok(()))
    } else if entity_id.len() > 0 && parent_id == entity_id {
        step matches WalkStep::Done(Err(e)) && rpc_error_is(
            e,
            RpcCode::InvalidArgument,
            self_parent_message(),
        )
    } else {
        arrive(WalkView { visited: seq![entity_id], current: parent_id, depth: 0 }, w, step)
    }
}

/// One step after a read: a failed read or a missing group ends the walk;
/// otherwise the walk climbs one level to the group's parent.
pub open spec fn walk_next(w: WalkView, lookup: ParentLookup, next: WalkView, step: WalkStep) -> bool {
    match lookup {
        ParentLookup::Failed | ParentLookup::Missing => next == w && (step matches WalkStep::Done(
            Ok(()),
        )),
        ParentLookup::Found(p) => arrive(WalkView { current: p@, depth: w.depth + 1, ..w }, next, step),
    }
}

/// The walk is waiting for the read of its current group: that group is the
/// last one seen, and the depth limit is not reached.
pub open spec fn awaiting_read(w: WalkView) -> bool {
    w.depth < MAX_DEPTH && w.visited.len() > 0 && w.visited.last() == w.current
}

impl HierarchyWalk {
    fn arrive(&mut self) -> (step: WalkStep)
        ensures
            arrive(old(self)@, final(self)@, step),
            step is Fetch ==> awaiting_read(final(self)@),
    {
        if self.depth >= MAX_DEPTH || self.current.as_str().is_empty() {
            return WalkStep::Done(Ok(()));
        }
        let mut i: usize = 0;
        while i < self.visited.len()
            invariant
                i <= self.visited@.len(),
                self.depth < MAX_DEPTH,
                self.current@.len() > 0,
                *self == *old(self),
                forall|k: int| 0 <= k < i ==> self.visited@[k]@ != self.current@,
            decreases self.visited@.len() - i,
        {
            if same_text(self.visited[i].as_str(), self.current.as_str()) {
                proof {
                    assert(self@.visited[i as int] == self.current@);
                    assert(self@.visited.contains(self@.current));
                }
                let e = RpcError {
                    code: RpcCode::InvalidArgument,
                    message: String::from_str("Circular dependency detected in user groups"),
                };
                return WalkStep::Done(Err(e));
            }
            i = i + 1;
        }
        proof {
            assert(!self@.visited.contains(self@.current)) by {
                if self@.visited.contains(self@.current) {
                    let k = choose|k: int| 0 <= k < self@.visited.len() && self@.visited[k] == self@.current;
                    assert(self.visited@[k]@ == self.current@);
                }
            }
        }
        let ghost before = self.visited@;
        self.visited.push(self.current.clone());
        proof {
            assert(self.visited@.map_values(|s: String| s@) =~= before.map_values(|s: String| s@).push(
                self.current@,
            ));
        }
        WalkStep::Fetch(self.current.clone())
    }

    /// Starts the check of a write that gives group `entity_id` the parent
    /// `parent_id` (empty when it has none).
    pub fn start(entity_id: &str, parent_id: &str) -> (r: (HierarchyWalk, WalkStep))
        ensures
            walk_start(entity_id@, parent_id@, r.0@, r.1),
            r.1 is Fetch ==> awaiting_read(r.0@),
    {
        let mut walk = HierarchyWalk { visited: Vec::new(), current: parent_id.to_owned(), depth: 0 };
        if parent_id.is_empty() {
            return (walk, WalkStep::Done(Ok(())));
        }
        if !entity_id.is_empty() && same_text(parent_id, entity_id) {
            let e = RpcError {
                code: RpcCode::InvalidArgument,
                message: String::from_str("Circular dependency detected: a group cannot be its own parent"),
            };
            return (walk, WalkStep::Done(Err(e)));
        }
        walk.visited.push(entity_id.to_owned());
        proof {
            assert(walk@.visited =~= seq![entity_id@]);
        }
        let step = walk.arrive();
        (walk, step)
    }

    /// Takes the read of the current group.
    pub fn step(&mut self, lookup: ParentLookup) -> (r: WalkStep)
        requires
            awaiting_read(old(self)@),
        ensures
            walk_next(old(self)@, lookup, final(self)@, r),
            r is Fetch ==> awaiting_read(final(self)@),
    {
        match lookup {
            ParentLookup::Failed | ParentLookup::Missing => WalkStep::Done(Ok(())),
            ParentLookup::Found(p) => {
                self.current = p;
                self.depth = self.depth + 1;
                self.arrive()
            },
        }
    }
}

/// The walk never reads more than ten groups: every read it asks for comes
/// at a depth below the limit, and each answer climbs one level.
pub proof fn lemma_walk_is_bounded(w: WalkView, lookup: ParentLookup, next: WalkView, step: WalkStep)
    requires
        awaiting_read(w),
        walk_next(w, lookup, next, step),
    ensures
        step is Fetch ==> next.depth == w.depth + 1 && next.depth < MAX_DEPTH,
{
}

/// A cycle is reported only when the walk reaches a group it has already
/// seen, and the group being written is seen from the start.
pub proof fn lemma_cycle_means_revisit(w: WalkView, lookup: ParentLookup, next: WalkView, step: WalkStep)
    requires
        walk_next(w, lookup, next, step),
        step matches WalkStep::Done(Err(e)) && e.message@ == cycle_message(),
    ensures
        lookup matches ParentLookup::Found(p) && w.visited.contains(p@),
{
    reveal_strlit("Circular dependency detected in user groups");
}

} // verus!
