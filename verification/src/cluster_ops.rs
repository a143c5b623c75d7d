//! The decisions behind joining and leaving a cluster from the Python
//! facade: whom to send `Join` for, and, on each poll of the membership
//! snapshot, whether the operation is done, has timed out, or waits for
//! another tick.

use vstd::prelude::*;
use crate::names::MemberStatus;
use crate::sorted::views;
use crate::text::str_eq;

verus! {

/// Whether `x` is one of `known`.
pub open spec fn known_address(known: Seq<String>, x: Seq<char>) -> bool {
    exists|i: int| 0 <= i < known.len() && #[trigger] known[i]@ == x
}

/// The addresses among `candidates` to send `Join` for, in order: each
/// address that is not yet a member, once, at its first occurrence.
pub open spec fn fresh_in_order(known: Seq<String>, candidates: Seq<Seq<char>>) -> Seq<Seq<char>>
    decreases candidates.len(),
{
    if candidates.len() == 0 {
        Seq::empty()
    } else {
        let prev = fresh_in_order(known, candidates.drop_last());
        let x = candidates.last();
        if known_address(known, x) || prev.contains(x) {
            prev
        } else {
            prev.push(x)
        }
    }
}

/// The addresses to send `Join` for: the seeds, then the node itself, each
/// address that is not yet a member exactly once, at its first occurrence.
/// Re-joining a member would reset it to joining.
pub open spec fn join_list(known: Seq<String>, seeds: Seq<String>, self_addr: Seq<char>) -> Seq<Seq<char>> {
    fresh_in_order(known, views(seeds).push(self_addr))
}

fn is_queued(out: &Vec<String>, x: &str) -> (r: bool)
    ensures
        r == views(out@).contains(x@),
{
    let mut i: usize = 0;
    while i < out.len()
        invariant
            i <= out@.len(),
            forall|j: int| 0 <= j < i ==> #[trigger] out@[j]@ != x@,
        decreases out@.len() - i,
    {
        if str_eq(out[i].as_str(), x) {
            proof {
                assert(views(out@)[i as int] == x@);
            }
            return true;
        }
        i = i + 1;
    }
    proof {
        if views(out@).contains(x@) {
            let j = choose|j: int| 0 <= j < views(out@).len() && views(out@)[j] == x@;
            assert(out@[j]@ == x@);
        }
    }
    false
}

/// Queues `x` unless it is a member or already queued.
fn queue_fresh(known: &Vec<String>, out: &mut Vec<String>, x: &String)
    ensures
        views(final(out)@) == (if known_address(known@, x@) || views(old(out)@).contains(x@) {
            views(old(out)@)
        } else {
            views(old(out)@).push(x@)
        }),
{
    if !is_known(known, x.as_str()) && !is_queued(out, x.as_str()) {
        let ghost before = out@;
        out.push(x.clone());
        proof {
            assert(views(out@) =~= views(before).push(x@));
        }
    }
}

fn is_known(known: &Vec<String>, x: &str) -> (r: bool)
    ensures
        r == known_address(known@, x@),
{
    let mut i: usize = 0;
    while i < known.len()
        invariant
            i <= known@.len(),
            forall|j: int| 0 <= j < i ==> #[trigger] known@[j]@ != x@,
        decreases known@.len() - i,
    {
        if str_eq(known[i].as_str(), x) {
            return true;
        }
        i = i + 1;
    }
    false
}

/// The addresses to send `Join` for, given the members already known.
pub fn addresses_to_join(known: &Vec<String>, seeds: &Vec<String>, self_addr: &String) -> (r: Vec<String>)
    ensures
        views(r@) == join_list(known@, seeds@, self_addr@),
{
    let mut out: Vec<String> = Vec::new();
    let mut i: usize = 0;
    while i < seeds.len()
        invariant
            i <= seeds@.len(),
            views(out@) == fresh_in_order(known@, views(seeds@.take(i as int))),
        decreases seeds@.len() - i,
    {
        proof {
            let next = views(seeds@.take(i as int + 1));
            assert(next.drop_last() =~= views(seeds@.take(i as int)));
            assert(next.last() == seeds@[i as int]@);
            assert(next.len() > 0);
        }
        queue_fresh(known, &mut out, &seeds[i]);
        i = i + 1;
    }
    proof {
        assert(seeds@.take(seeds@.len() as int) =~= seeds@);
        let all = views(seeds@).push(self_addr@);
        assert(all.drop_last() =~= views(seeds@));
    }
    queue_fresh(known, &mut out, self_addr);
    out
}

/// Every address to join is sent once, and none of them is a member.
pub proof fn lemma_join_list_once(known: Seq<String>, candidates: Seq<Seq<char>>)
    ensures
        fresh_in_order(known, candidates).no_duplicates(),
        forall|x: Seq<char>| #[trigger] fresh_in_order(known, candidates).contains(x) ==> !known_address(known, x)
            && candidates.contains(x),
        forall|x: Seq<char>| #[trigger] candidates.contains(x) && !known_address(known, x)
            ==> fresh_in_order(known, candidates).contains(x),
    decreases candidates.len(),
{
    if candidates.len() > 0 {
        let c = candidates.drop_last();
        lemma_join_list_once(known, c);
        let prev = fresh_in_order(known, c);
        let x = candidates.last();
        assert forall|y: Seq<char>| #[trigger] c.contains(y) implies candidates.contains(y) by {
            let j = choose|j: int| 0 <= j < c.len() && c[j] == y;
            assert(candidates[j] == y);
        }
        assert forall|y: Seq<char>| #[trigger] candidates.contains(y) && y != x implies c.contains(y) by {
            let j = choose|j: int| 0 <= j < candidates.len() && candidates[j] == y;
            assert(j != candidates.len() - 1);
            assert(c[j] == y);
        }
        assert(candidates.contains(x)) by {
            assert(candidates[candidates.len() - 1] == x);
        }
        if !(known_address(known, x) || prev.contains(x)) {
            let r = prev.push(x);
            assert forall|y: Seq<char>| #[trigger] r.contains(y) <==> prev.contains(y) || y == x by {
                if r.contains(y) {
                    let j = choose|j: int| 0 <= j < r.len() && r[j] == y;
                    if j < prev.len() {
                        assert(prev[j] == y);
                    }
                }
                if prev.contains(y) {
                    let j = choose|j: int| 0 <= j < prev.len() && prev[j] == y;
                    assert(r[j] == y);
                }
                if y == x {
                    assert(r[prev.len() as int] == y);
                }
            }
        }
    }
}

/// Where a wait on the membership stands after one poll.
#[derive(Debug, Clone, Copy, PartialEq, Eq, Structural)]
pub enum PollOutcome {
    /// The awaited status was reached.
    Done,
    /// The deadline passed first.
    TimedOut,
    /// Tick the daemon and poll again.
    Wait,
}

/// Up or weakly up.
pub open spec fn is_up(s: MemberStatus) -> bool {
    s == MemberStatus::Up || s == MemberStatus::WeaklyUp
}

/// One poll while joining: done once the node itself is up (or weakly
/// up); else timed out past the deadline; else wait. `me` is the node's
/// own status in the snapshot, if it is a member.
pub fn join_poll(me: Option<MemberStatus>, past_deadline: bool) -> (r: PollOutcome)
    ensures
        r == (if me matches Some(s) && is_up(s) {
            PollOutcome::Done
        } else if past_deadline {
            PollOutcome::TimedOut
        } else {
            PollOutcome::Wait
        }),
{
    match me {
        Some(MemberStatus::Up) | Some(MemberStatus::WeaklyUp) => PollOutcome::Done,
        _ => if past_deadline {
            PollOutcome::TimedOut
        } else {
            PollOutcome::Wait
        },
    }
}

/// The progress of leaving the cluster: whether `Leave` was sent. The
/// daemon only lets an up member leave, so `Leave` waits for that.
pub struct LeaveProgress {
    pub sent_leave: bool,
}

/// What one poll while leaving asks for.
#[derive(Debug, Clone, Copy, PartialEq, Eq, Structural)]
pub struct LeaveDecision {
    /// Send `Leave` for the node itself now.
    pub send_leave: bool,
    /// Then: done, timed out, or wait.
    pub outcome: PollOutcome,
}

/// The decision of one poll while leaving, from whether `Leave` was sent
/// before, the node's own status (`None` once it is no longer a member),
/// and whether the deadline has passed: `Leave` goes out the first time
/// the node is up; the node is gone once it is removed, or no longer a
/// member after `Leave` went out.
pub open spec fn leave_decision(sent: bool, me: Option<MemberStatus>, past_deadline: bool) -> (
    bool,
    LeaveDecision,
) {
    let send = !sent && (me matches Some(s) && is_up(s));
    let sent_now = sent || send;
    let removed = match me {
        None => sent_now,
        Some(s) => s == MemberStatus::Removed,
    };
    let outcome = if removed {
        PollOutcome::Done
    } else if past_deadline {
        PollOutcome::TimedOut
    } else {
        PollOutcome::Wait
    };
    (sent_now, LeaveDecision { send_leave: send, outcome })
}

impl LeaveProgress {
    /// Nothing sent yet.
    pub fn new() -> (p: Self)
        ensures
            !p.sent_leave,
    {
        LeaveProgress { sent_leave: false }
    }

    /// One poll while leaving.
    pub fn poll(&mut self, me: Option<MemberStatus>, past_deadline: bool) -> (d: LeaveDecision)
        ensures
            (final(self).sent_leave, d) == leave_decision(old(self).sent_leave, me, past_deadline),
    {
        let up = match me {
            Some(MemberStatus::Up) | Some(MemberStatus::WeaklyUp) => true,
            _ => false,
        };
        let send = !self.sent_leave && up;
        if send {
            self.sent_leave = true;
        }
        let removed = match me {
            None => self.sent_leave,
            Some(MemberStatus::Removed) => true,
            Some(_) => false,
        };
        let outcome = if removed {
            PollOutcome::Done
        } else if past_deadline {
            PollOutcome::TimedOut
        } else {
            PollOutcome::Wait
        };
        LeaveDecision { send_leave: send, outcome }
    }
}

/// `Leave` goes out at most once: after a poll that sent it, no later
/// poll sends it again.
pub proof fn lemma_leave_sent_once(me1: Option<MemberStatus>, d1: bool, me2: Option<MemberStatus>, d2: bool)
    ensures
        ({
            let (s1, first) = leave_decision(false, me1, d1);
            let (_, second) = leave_decision(s1, me2, d2);
            first.send_leave ==> !second.send_leave
        }),
{
}

} // verus!
