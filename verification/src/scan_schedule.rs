//! The order in which a scan transmits: every round sends one request per target, in target
//! order, and pacing runs after each round except the last.
//!
//! The schedule only decides what happens next; the caller performs each step (a transmission or
//! a sleep) and asks for the following one.

use vstd::prelude::*;

use crate::scanner::{pacing_follows_round, should_apply_pacing_after_scan_round, inter_round_sleeps};

verus! {

/// One step of the transmit phase of a scan.
#[derive(Debug, Clone, Copy, PartialEq, Eq)]
pub enum ScanRequestStep {
    /// Transmit one broadcast request for this IPv4 address.
    Send {
        /// Address whose hardware address the request asks for.
        target_ipv4_address: u32,
    },
    /// Sleep this many nanoseconds before the next round.
    Pause {
        /// Length of the pause, in nanoseconds.
        nanoseconds: u128,
    },
}

/// The send steps of one round, one per target in target order.
pub open spec fn send_steps(targets: Seq<u32>) -> Seq<ScanRequestStep> {
    targets.map_values(|target: u32| ScanRequestStep::Send { target_ipv4_address: target })
}

/// The steps of the round at `round_index`: its sends, then a pause when pacing follows it.
pub open spec fn round_steps(
    targets: Seq<u32>,
    round_index: nat,
    total_rounds: nat,
    pacing: u128,
) -> Seq<ScanRequestStep> {
    if pacing_follows_round(round_index as int, total_rounds as int, pacing) {
        send_steps(targets).push(ScanRequestStep::Pause { nanoseconds: pacing })
    } else {
        send_steps(targets)
    }
}

/// The steps of the rounds from `round_index` on.
pub open spec fn steps_from_round(
    targets: Seq<u32>,
    round_index: nat,
    total_rounds: nat,
    pacing: u128,
) -> Seq<ScanRequestStep>
    decreases total_rounds - round_index,
{
    if round_index >= total_rounds {
        Seq::empty()
    } else {
        round_steps(targets, round_index, total_rounds, pacing) + steps_from_round(
            targets,
            round_index + 1,
            total_rounds,
            pacing,
        )
    }
}

/// Every step of a scan of `targets` over `total_rounds` rounds with `pacing` between rounds.
pub open spec fn request_schedule(targets: Seq<u32>, total_rounds: nat, pacing: u128) -> Seq<
    ScanRequestStep,
> {
    steps_from_round(targets, 0, total_rounds, pacing)
}

/// Number of send steps in `steps`.
pub open spec fn send_step_count(steps: Seq<ScanRequestStep>) -> nat
    decreases steps.len(),
{
    if steps.len() == 0 {
        0
    } else {
        send_step_count(steps.drop_last()) + if steps.last() is Send {
            1nat
        } else {
            0nat
        }
    }
}

/// Number of pause steps in `steps`.
pub open spec fn pause_step_count(steps: Seq<ScanRequestStep>) -> nat
    decreases steps.len(),
{
    if steps.len() == 0 {
        0
    } else {
        pause_step_count(steps.drop_last()) + if steps.last() is Pause {
            1nat
        } else {
            0nat
        }
    }
}

proof fn lemma_step_counts_concatenate(first: Seq<ScanRequestStep>, second: Seq<ScanRequestStep>)
    ensures
        send_step_count(first + second) == send_step_count(first) + send_step_count(second),
        pause_step_count(first + second) == pause_step_count(first) + pause_step_count(second),
    decreases second.len(),
{
    if second.len() > 0 {
        lemma_step_counts_concatenate(first, second.drop_last());
        assert((first + second).drop_last() =~= first + second.drop_last());
    } else {
        assert(first + second =~= first);
    }
}

proof fn lemma_send_steps_counts(targets: Seq<u32>)
    ensures
        send_step_count(send_steps(targets)) == targets.len(),
        pause_step_count(send_steps(targets)) == 0,
    decreases targets.len(),
{
    if targets.len() > 0 {
        lemma_send_steps_counts(targets.drop_last());
        assert(send_steps(targets).drop_last() =~= send_steps(targets.drop_last()));
    }
}

proof fn lemma_steps_from_round_counts(
    targets: Seq<u32>,
    round_index: nat,
    total_rounds: nat,
    pacing: u128,
)
    requires
        round_index <= total_rounds,
    ensures
        send_step_count(steps_from_round(targets, round_index, total_rounds, pacing))
            == targets.len() * (total_rounds - round_index),
        pause_step_count(steps_from_round(targets, round_index, total_rounds, pacing)) == (if pacing
            == 0 || round_index + 1 >= total_rounds {
            0
        } else {
            total_rounds - round_index - 1
        }),
    decreases total_rounds - round_index,
{
    if round_index < total_rounds {
        lemma_steps_from_round_counts(targets, round_index + 1, total_rounds, pacing);
        let round = round_steps(targets, round_index, total_rounds, pacing);
        let rest = steps_from_round(targets, round_index + 1, total_rounds, pacing);
        lemma_step_counts_concatenate(round, rest);
        lemma_send_steps_counts(targets);
        if pacing_follows_round(round_index as int, total_rounds as int, pacing) {
            let pause = seq![ScanRequestStep::Pause { nanoseconds: pacing }];
            lemma_step_counts_concatenate(send_steps(targets), pause);
            assert(send_steps(targets) + pause =~= round);
            assert(pause.drop_last() =~= Seq::<ScanRequestStep>::empty());
            assert(send_step_count(Seq::<ScanRequestStep>::empty()) == 0);
            assert(pause_step_count(Seq::<ScanRequestStep>::empty()) == 0);
            assert(send_step_count(pause) == 0);
            assert(pause_step_count(pause) == 1);
            assert(send_step_count(round) == targets.len());
            assert(pause_step_count(round) == 1);
        } else {
            assert(send_step_count(round) == targets.len());
            assert(pause_step_count(round) == 0);
        }
        assert(steps_from_round(targets, round_index, total_rounds, pacing) == round + rest);
        assert(targets.len() * (total_rounds - round_index) == targets.len() + targets.len() * (
        total_rounds - (round_index + 1))) by (nonlinear_arith)
            requires
                round_index < total_rounds,
        ;
    } else {
        assert(targets.len() * (total_rounds - round_index) == 0) by (nonlinear_arith)
            requires
                round_index == total_rounds,
        ;
    }
}

/// A scan transmits exactly one request per target in every round, `targets.len() *
/// total_rounds` requests in all, and pauses once after every round but the last (never when the
/// pacing is zero): the counts the request and sleep totals describe.
pub proof fn lemma_request_schedule_counts(targets: Seq<u32>, total_rounds: nat, pacing: u128)
    ensures
        send_step_count(request_schedule(targets, total_rounds, pacing)) == targets.len()
            * total_rounds,
        pause_step_count(request_schedule(targets, total_rounds, pacing)) == inter_round_sleeps(
            total_rounds,
            pacing,
        ),
{
    lemma_steps_from_round_counts(targets, 0, total_rounds, pacing);
}

proof fn lemma_silent_rounds(targets: Seq<u32>, round_index: nat, total_rounds: nat, pacing: u128)
    requires
        targets.len() == 0,
        pacing == 0 || round_index + 1 >= total_rounds,
    ensures
        steps_from_round(targets, round_index, total_rounds, pacing) =~= Seq::<
            ScanRequestStep,
        >::empty(),
    decreases total_rounds - round_index,
{
    if round_index < total_rounds {
        lemma_silent_rounds(targets, round_index + 1, total_rounds, pacing);
        assert(send_steps(targets) =~= Seq::<ScanRequestStep>::empty());
    }
}

/// The transmit phase of a scan as a sequence of steps handed out one at a time.
#[derive(Debug)]
pub struct ScanRequestSchedule {
    targets: Vec<u32>,
    total_rounds: u64,
    pacing: u128,
    round_index: u64,
    position: usize,
}

impl ScanRequestSchedule {
    /// The position lies within the current round and nothing is pending past the last round.
    #[verifier::type_invariant]
    spec fn position_within_round(self) -> bool {
        &&& self.round_index <= self.total_rounds
        &&& self.position <= self.targets@.len()
    }

    /// The steps still to come, in order.
    pub closed spec fn remaining_steps(self) -> Seq<ScanRequestStep> {
        if self.round_index >= self.total_rounds {
            Seq::empty()
        } else {
            round_steps(
                self.targets@,
                self.round_index as nat,
                self.total_rounds as nat,
                self.pacing,
            ).skip(self.position as int) + steps_from_round(
                self.targets@,
                (self.round_index + 1) as nat,
                self.total_rounds as nat,
                self.pacing,
            )
        }
    }

    /// The schedule of `scan_round_count` rounds over `targets`, sleeping
    /// `pacing_between_scan_rounds` nanoseconds after every round but the last.
    pub fn new(targets: Vec<u32>, scan_round_count: u64, pacing_between_scan_rounds: u128) -> (schedule:
        ScanRequestSchedule)
        ensures
            schedule.remaining_steps() == request_schedule(
                targets@,
                scan_round_count as nat,
                pacing_between_scan_rounds,
            ),
    {
        let schedule = ScanRequestSchedule {
            targets,
            total_rounds: scan_round_count,
            pacing: pacing_between_scan_rounds,
            round_index: 0,
            position: 0,
        };
        proof {
            if scan_round_count > 0 {
                let round = round_steps(
                    schedule.targets@,
                    0,
                    scan_round_count as nat,
                    pacing_between_scan_rounds,
                );
                assert(round.skip(0) =~= round);
            }
        }
        schedule
    }

    /// Hands out the next step, or `None` once every step has been handed out (and on every call
    /// after that).
    pub fn next_step(&mut self) -> (step: Option<ScanRequestStep>)
        ensures
            old(self).remaining_steps().len() == 0 ==> step is None
                && final(self).remaining_steps().len() == 0,
            old(self).remaining_steps().len() > 0 ==> step == Some(old(self).remaining_steps()[0])
                && final(self).remaining_steps() == old(self).remaining_steps().drop_first(),
    {
        proof {
            use_type_invariant(&*self);
        }
        let ghost targets = self.targets@;
        let ghost total = self.total_rounds as nat;
        let ghost pacing = self.pacing;
        let ghost round = self.round_index as nat;
        let ghost before = old(self).remaining_steps();
        if self.round_index >= self.total_rounds {
            return None;
        }
        let ghost steps = round_steps(targets, round, total, pacing);
        let ghost rest = steps_from_round(targets, round + 1, total, pacing);
        assert(send_steps(targets).len() == targets.len());
        if self.position < self.targets.len() {
            let target_ipv4_address = self.targets[self.position];
            self.position = self.position + 1;
            proof {
                assert(steps[self.position - 1] == ScanRequestStep::Send { target_ipv4_address });
                assert(steps.skip(self.position as int) =~= steps.skip(
                    (self.position - 1) as int,
                ).drop_first());
                assert(before =~= steps.skip((self.position - 1) as int) + rest);
                assert(final(self).remaining_steps() =~= before.drop_first());
            }
            return Some(ScanRequestStep::Send { target_ipv4_address });
        }
        let pause = should_apply_pacing_after_scan_round(
            self.round_index,
            self.total_rounds,
            self.pacing,
        );
        if pause {
            self.round_index = self.round_index + 1;
            self.position = 0;
            proof {
                assert(steps.skip(targets.len() as int) =~= seq![
                    ScanRequestStep::Pause { nanoseconds: pacing },
                ]);
                if self.round_index < self.total_rounds {
                    let next = round_steps(targets, round + 1, total, pacing);
                    assert(next.skip(0) =~= next);
                    assert(rest =~= next + steps_from_round(targets, round + 2, total, pacing));
                }
                assert(final(self).remaining_steps() =~= before.drop_first());
            }
            return Some(ScanRequestStep::Pause { nanoseconds: self.pacing });
        }
        assert(steps.skip(targets.len() as int) =~= Seq::<ScanRequestStep>::empty());
        if self.targets.len() == 0 || self.round_index + 1 >= self.total_rounds {
            self.round_index = self.total_rounds;
            self.position = 0;
            proof {
                if targets.len() == 0 {
                    lemma_silent_rounds(targets, round + 1, total, pacing);
                }
                assert(before =~= Seq::<ScanRequestStep>::empty());
            }
            return None;
        }
        let target_ipv4_address = self.targets[0];
        self.round_index = self.round_index + 1;
        self.position = 1;
        proof {
            let next = round_steps(targets, round + 1, total, pacing);
            assert(rest =~= next + steps_from_round(targets, round + 2, total, pacing));
            assert(before =~= rest);
            assert(next[0] == ScanRequestStep::Send { target_ipv4_address });
            assert(next.skip(1) =~= next.drop_first());
            assert(final(self).remaining_steps() =~= before.drop_first());
        }
        Some(ScanRequestStep::Send { target_ipv4_address })
    }
}

} // verus!
