//! What the polling daemon remembers between cycles.
use std::collections::HashSet;
use vstd::prelude::*;

use crate::config::AppConfig;
use crate::text::{ascii_lower_text, eq_ignore_ascii_case};

verus! {

broadcast use vstd::std_specs::hash::group_hash_axioms;

/// The guests seen in the last poll, and how loud discoveries are logged.
pub struct PollState {
    pub seen_qemu_vmids: HashSet<u32>,
    pub seen_lxc_vmids: HashSet<u32>,
    pub info_yapless: bool,
}

/// The log level `info-yapless` (in any ASCII case) moves routine poll
/// messages to debug.
pub open spec fn is_yapless(level: Seq<char>) -> bool {
    ascii_lower_text(level) == ascii_lower_text("info-yapless"@)
}

/// The positions of the entries of `vmids` that are not in `seen`.
pub open spec fn unseen_positions(vmids: Seq<u32>, seen: Set<u32>) -> Seq<usize>
    decreases vmids.len(),
{
    if vmids.len() == 0 {
        Seq::empty()
    } else if seen.contains(vmids.last()) {
        unseen_positions(vmids.drop_last(), seen)
    } else {
        unseen_positions(vmids.drop_last(), seen).push((vmids.len() - 1) as usize)
    }
}

/// Records the guests of one poll: returns the positions in `vmids` of the
/// guests that the previous poll had not seen, and remembers exactly the
/// guests of this poll.
pub fn observe_vmids(seen: &mut HashSet<u32>, vmids: &Vec<u32>) -> (r: Vec<usize>)
    ensures
        r@ == unseen_positions(vmids@, old(seen)@),
        final(seen)@ == vmids@.to_set(),
{
    let mut current: HashSet<u32> = HashSet::new();
    let mut fresh: Vec<usize> = Vec::new();
    let mut i: usize = 0;
    while i < vmids.len()
        invariant
            0 <= i <= vmids.len(),
            current@ == vmids@.take(i as int).to_set(),
            fresh@ == unseen_positions(vmids@.take(i as int), seen@),
        decreases vmids.len() - i,
    {
        let v = vmids[i];
        let ghost pre = vmids@.take((i + 1) as int);
        assert(pre.drop_last() =~= vmids@.take(i as int));
        assert(pre.last() == v);
        current.insert(v);
        if !seen.contains(&v) {
            fresh.push(i);
        }
        i = i + 1;
        proof {
            let t = vmids@.take(i as int);
            let tp = vmids@.take((i - 1) as int);
            assert forall|x: u32| t.to_set().contains(x) <==> tp.to_set().insert(v).contains(x) by {
                if t.contains(x) {
                    let k = choose|k: int| 0 <= k < t.len() && t[k] == x;
                    if k < t.len() - 1 {
                        assert(tp[k] == x);
                    }
                }
                if tp.contains(x) {
                    let k = choose|k: int| 0 <= k < tp.len() && tp[k] == x;
                    assert(t[k] == x);
                }
                if x == v {
                    assert(t[i - 1] == x);
                }
            }
            assert(t.to_set() =~= tp.to_set().insert(v));
        }
    }
    assert(vmids@.take(vmids@.len() as int) =~= vmids@);
    *seen = current;
    fresh
}

impl PollState {
    /// Nothing seen yet; the log volume follows the configured level.
    pub fn new(config: &AppConfig) -> (r: Self)
        ensures
            r.seen_qemu_vmids@ == Set::<u32>::empty(),
            r.seen_lxc_vmids@ == Set::<u32>::empty(),
            r.info_yapless == is_yapless(config.daemon.log_level@),
    {
        PollState {
            seen_qemu_vmids: HashSet::new(),
            seen_lxc_vmids: HashSet::new(),
            info_yapless: eq_ignore_ascii_case(config.daemon.log_level.as_str(), "info-yapless"),
        }
    }

    /// Records the QEMU guests of one poll; returns the positions of those
    /// not seen in the previous poll.
    pub fn observe_qemu(&mut self, vmids: &Vec<u32>) -> (r: Vec<usize>)
        ensures
            r@ == unseen_positions(vmids@, old(self).seen_qemu_vmids@),
            final(self).seen_qemu_vmids@ == vmids@.to_set(),
            final(self).seen_lxc_vmids == old(self).seen_lxc_vmids,
            final(self).info_yapless == old(self).info_yapless,
    {
        observe_vmids(&mut self.seen_qemu_vmids, vmids)
    }

    /// Records the containers of one poll; returns the positions of those
    /// not seen in the previous poll.
    pub fn observe_lxc(&mut self, vmids: &Vec<u32>) -> (r: Vec<usize>)
        ensures
            r@ == unseen_positions(vmids@, old(self).seen_lxc_vmids@),
            final(self).seen_lxc_vmids@ == vmids@.to_set(),
            final(self).seen_qemu_vmids == old(self).seen_qemu_vmids,
            final(self).info_yapless == old(self).info_yapless,
    {
        observe_vmids(&mut self.seen_lxc_vmids, vmids)
    }
}

} // verus!
