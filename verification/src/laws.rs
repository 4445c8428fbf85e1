//! What a caller that registers a callback several times may rely on, proved
//! over the model of `registry`.

use vstd::prelude::*;

use crate::registry::{apply_register, count_of, program_output, register_all, trace, Policy};

verus! {

/// Under `AllowDuplicates` every registration is kept: registering the
/// handles of `regs` in order yields exactly `regs` as registry contents.
pub proof fn lemma_allow_duplicates_keeps_all(regs: Seq<u64>)
    ensures
        register_all(Policy::AllowDuplicates, regs) == regs,
    decreases regs.len(),
{
    if regs.len() == 0 {
        assert(register_all(Policy::AllowDuplicates, regs) =~= regs);
    } else {
        lemma_allow_duplicates_keeps_all(regs.drop_last());
        assert(regs.drop_last().push(regs.last()) =~= regs);
    }
}

/// Under `Deduplicate` the registry holds each handle that was ever
/// registered exactly once: its contents have no duplicates, and a handle is
/// registered if and only if it occurs among the registrations.
pub proof fn lemma_dedup_registers_each_once(regs: Seq<u64>)
    ensures
        register_all(Policy::Deduplicate, regs).no_duplicates(),
        forall|h: u64|
            #[trigger] register_all(Policy::Deduplicate, regs).contains(h) <==> regs.contains(h),
    decreases regs.len(),
{
    broadcast use vstd::seq_lib::lemma_seq_contains_after_push;

    if regs.len() == 0 {
    } else {
        lemma_dedup_registers_each_once(regs.drop_last());
        let s = register_all(Policy::Deduplicate, regs.drop_last());
        let h0 = regs.last();
        assert(regs.drop_last().push(h0) =~= regs);
        if !s.contains(h0) {
            assert forall|i: int, j: int|
                0 <= i < s.push(h0).len() && 0 <= j < s.push(h0).len() && i != j implies s.push(
                h0,
            )[i] != s.push(h0)[j] by {
                if i == s.len() as int {
                    assert(s.contains(s[j])) by {
                        assert(s[j] == s.push(h0)[j]);
                    }
                } else if j == s.len() as int {
                    assert(s.contains(s[i])) by {
                        assert(s[i] == s.push(h0)[i]);
                    }
                }
            }
        }
    }
}

/// How often one tick executes the callback `h`, as a function of the
/// registrations alone.  With duplicates kept, it runs once per registration
/// of `h`; with deduplication, once when `h` was registered at all.
pub proof fn lemma_executions_per_tick(p: Policy, regs: Seq<u64>, h: u64)
    ensures
        p == Policy::AllowDuplicates ==> count_of(register_all(p, regs), h) == count_of(regs, h),
        p == Policy::Deduplicate ==> count_of(register_all(p, regs), h) == (if regs.contains(h) {
            1nat
        } else {
            0nat
        }),
{
    broadcast use vstd::seq_lib::group_to_multiset_ensures;
    broadcast use vstd::multiset::group_multiset_axioms;

    match p {
        Policy::AllowDuplicates => {
            lemma_allow_duplicates_keeps_all(regs);
        },
        Policy::Deduplicate => {
            lemma_dedup_registers_each_once(regs);
            let s = register_all(p, regs);
            if regs.contains(h) {
                s.lemma_multiset_has_no_duplicates();
                assert(s.to_multiset().count(h) > 0);
            } else {
                assert(s.to_multiset().count(h) == 0);
            }
        },
    }
}

/// Registering a given multiset of handles is order-independent: two
/// registration orders with the same handles, each the same number of times,
/// give every callback the same number of executions per tick, under either
/// policy.
pub proof fn lemma_registration_order_irrelevant(
    p: Policy,
    regs1: Seq<u64>,
    regs2: Seq<u64>,
    h: u64,
)
    requires
        regs1.to_multiset() == regs2.to_multiset(),
    ensures
        count_of(register_all(p, regs1), h) == count_of(register_all(p, regs2), h),
{
    broadcast use vstd::seq_lib::group_to_multiset_ensures;
    broadcast use vstd::multiset::group_multiset_axioms;

    lemma_executions_per_tick(p, regs1, h);
    lemma_executions_per_tick(p, regs2, h);
    assert(regs1.contains(h) <==> regs2.contains(h));
}

/// Over `n` ticks a callback executes `n` times its per-tick count: each tick
/// repeats the same schedule.
pub proof fn lemma_trace_counts(s: Seq<u64>, n: nat, h: u64)
    ensures
        count_of(trace(s, n), h) == n * count_of(s, h),
    decreases n,
{
    broadcast use vstd::seq_lib::group_to_multiset_ensures;
    broadcast use vstd::multiset::group_multiset_axioms;

    if n == 0 {
        assert(!trace(s, n).contains(h));
        assert(count_of(trace(s, n), h) == 0);
        assert(n * count_of(s, h) == 0) by (nonlinear_arith)
            requires
                n == 0,
        ;
    } else {
        lemma_trace_counts(s, (n - 1) as nat, h);
        vstd::seq_lib::lemma_multiset_commutative(trace(s, (n - 1) as nat), s);
        assert(n * count_of(s, h) == (n - 1) * count_of(s, h) + count_of(s, h))
            by (nonlinear_arith)
            requires
                n >= 1,
        ;
    }
}

/// A run has no hidden state: everything it prints is a function of the
/// policy, the registrations and the tick count alone, so two runs over the
/// same inputs print exactly the same lines.
pub proof fn lemma_reruns_identical(
    p: Policy,
    regs: Seq<u64>,
    ticks: nat,
    out1: Seq<u64>,
    out2: Seq<u64>,
)
    requires
        out1 == program_output(p, regs, ticks),
        out2 == program_output(p, regs, ticks),
    ensures
        out1 == out2,
{
}

/// Registration never fails: under either policy, registering any handle into
/// any well-formed registry contents yields well-formed contents again, so a
/// program that registers the same callback any number of times and then runs
/// the loop completes normally whichever policy the host implements.
pub proof fn lemma_register_total(p: Policy, s: Seq<u64>, h: u64)
    requires
        p == Policy::Deduplicate ==> s.no_duplicates(),
    ensures
        p == Policy::Deduplicate ==> apply_register(p, s, h).no_duplicates(),
        count_of(apply_register(p, s, h), h) >= 1,
{
    broadcast use vstd::seq_lib::group_to_multiset_ensures;
    broadcast use vstd::multiset::group_multiset_axioms;

    match p {
        Policy::AllowDuplicates => {
        },
        Policy::Deduplicate => {
            if !s.contains(h) {
                assert forall|i: int, j: int|
                    0 <= i < s.push(h).len() && 0 <= j < s.push(h).len() && i != j implies s.push(
                    h,
                )[i] != s.push(h)[j] by {
                    if i == s.len() as int {
                        assert(s.contains(s[j])) by {
                            assert(s[j] == s.push(h)[j]);
                        }
                    } else if j == s.len() as int {
                        assert(s.contains(s[i])) by {
                            assert(s[i] == s.push(h)[i]);
                        }
                    }
                }
            }
        },
    }
}

} // verus!
