//! The callback registry of one execution phase, and what one run prints.
//!
//! A callback is identified by a plain handle (`u64`); executing it has one
//! observable effect, a fixed line of output, so the trace of a run is fully
//! described by the sequence of handles executed.

use vstd::prelude::*;

verus! {

/// How the host treats a callback handle that is registered more than once
/// within the same execution phase.
#[derive(Clone, Copy, Debug, PartialEq, Eq, Structural)]
pub enum Policy {
    /// Every registration is kept: one execution per registered instance per tick.
    AllowDuplicates,
    /// A handle that is already registered is silently dropped: at most one
    /// execution per handle per tick.
    Deduplicate,
}

/// How many instances of `h` the sequence `s` holds.
pub open spec fn count_of(s: Seq<u64>, h: u64) -> nat {
    s.to_multiset().count(h)
}

/// The registry contents after one registration of `h` under policy `p`,
/// starting from contents `s`.
pub open spec fn apply_register(p: Policy, s: Seq<u64>, h: u64) -> Seq<u64> {
    match p {
        Policy::AllowDuplicates => s.push(h),
        Policy::Deduplicate => if s.contains(h) {
            s
        } else {
            s.push(h)
        },
    }
}

/// The registry contents after registering the handles of `regs` in order
/// under policy `p`, starting from an empty registry.
pub open spec fn register_all(p: Policy, regs: Seq<u64>) -> Seq<u64>
    decreases regs.len(),
{
    if regs.len() == 0 {
        Seq::empty()
    } else {
        apply_register(p, register_all(p, regs.drop_last()), regs.last())
    }
}

/// The execution trace of `n` ticks over registry contents `s`: each tick
/// executes every stored instance once, in registration order.
pub open spec fn trace(s: Seq<u64>, n: nat) -> Seq<u64>
    decreases n,
{
    if n == 0 {
        Seq::empty()
    } else {
        trace(s, (n - 1) as nat) + s
    }
}

/// Everything one program run prints, as handles: register the handles of
/// `regs` in order under policy `p` into a fresh registry, then run `ticks`
/// ticks of the update loop.
pub open spec fn program_output(p: Policy, regs: Seq<u64>, ticks: nat) -> Seq<u64> {
    trace(register_all(p, regs), ticks)
}

/// The callback registry of one execution phase of the host's update loop.
pub struct Registry {
    policy: Policy,
    handles: Vec<u64>,
}

impl View for Registry {
    type V = Seq<u64>;

    /// The registered handles in registration order, one entry per stored
    /// instance.
    closed spec fn view(&self) -> Seq<u64> {
        self.handles@
    }
}

impl Registry {
    /// The policy the registry was created with.
    pub closed spec fn policy(&self) -> Policy {
        self.policy
    }

    /// Under `Deduplicate` the registry never stores a handle twice.
    pub open spec fn well_formed(&self) -> bool {
        self.policy() == Policy::Deduplicate ==> self@.no_duplicates()
    }

    /// An empty registry under policy `policy`.
    pub fn new(policy: Policy) -> (r: Registry)
        ensures
            r@ == Seq::<u64>::empty(),
            r.policy() == policy,
            r.well_formed(),
    {
        Registry { policy, handles: Vec::new() }
    }

    /// Whether `h` is currently registered.
    pub fn is_registered(&self, h: u64) -> (r: bool)
        ensures
            r == self@.contains(h),
    {
        let mut i: usize = 0;
        while i < self.handles.len()
            invariant
                i <= self.handles.len(),
                forall|j: int| 0 <= j < i ==> self.handles@[j] != h,
            decreases self.handles.len() - i,
        {
            if self.handles[i] == h {
                return true;
            }
            i += 1;
        }
        false
    }

    /// Register `h`.  Under `AllowDuplicates` the registration is always
    /// appended; under `Deduplicate` it is dropped when `h` is already
    /// registered.  Registration never fails under either policy.
    pub fn register(&mut self, h: u64)
        requires
            old(self).well_formed(),
        ensures
            final(self).policy() == old(self).policy(),
            final(self)@ == apply_register(old(self).policy(), old(self)@, h),
            final(self).well_formed(),
    {
        match self.policy {
            Policy::AllowDuplicates => {
                self.handles.push(h);
            },
            Policy::Deduplicate => {
                if !self.is_registered(h) {
                    let ghost s = self@;
                    self.handles.push(h);
                    proof {
                        assert forall|i: int, j: int|
                            0 <= i < self@.len() && 0 <= j < self@.len() && i != j implies self@[i]
                            != self@[j] by {
                            if i < s.len() && j < s.len() {
                            } else if i == s.len() {
                                assert(s.contains(self@[j])) by {
                                    assert(s[j] == self@[j]);
                                }
                            } else {
                                assert(s.contains(self@[i])) by {
                                    assert(s[i] == self@[i]);
                                }
                            }
                        }
                    }
                }
            },
        }
    }

    /// How many lines of output one tick produces for the callback `h`: one
    /// per stored instance of `h`.
    pub fn executions_per_tick(&self, h: u64) -> (n: usize)
        ensures
            n == count_of(self@, h),
    {
        proof {
            broadcast use vstd::seq_lib::group_to_multiset_ensures;
            broadcast use vstd::multiset::group_multiset_axioms;

            assert(!self@.take(0).contains(h));
            assert(count_of(self@.take(0), h) == 0);
        }
        let mut n: usize = 0;
        let mut i: usize = 0;
        while i < self.handles.len()
            invariant
                i <= self.handles.len(),
                n <= i,
                n == count_of(self@.take(i as int), h),
            decreases self.handles.len() - i,
        {
            proof {
                broadcast use vstd::seq_lib::group_to_multiset_ensures;
                broadcast use vstd::multiset::group_multiset_axioms;

                assert(self@.take(i + 1) =~= self@.take(i as int).push(self@[i as int]));
            }
            if self.handles[i] == h {
                n += 1;
            }
            i += 1;
        }
        proof {
            assert(self@.take(self.handles@.len() as int) =~= self@);
        }
        n
    }

    /// Run one tick: every stored instance executes once, in registration
    /// order.  The result lists the executed handles.
    pub fn tick(&self) -> (t: Vec<u64>)
        ensures
            t@ == self@,
    {
        let mut t: Vec<u64> = Vec::new();
        let mut i: usize = 0;
        while i < self.handles.len()
            invariant
                i <= self.handles.len(),
                t@ == self@.take(i as int),
            decreases self.handles.len() - i,
        {
            t.push(self.handles[i]);
            proof {
                assert(self@.take(i + 1) =~= self@.take(i as int).push(self@[i as int]));
            }
            i += 1;
        }
        proof {
            assert(self@.take(self.handles@.len() as int) =~= self@);
        }
        t
    }

    /// Run `n` ticks of the update loop; the result lists every execution in
    /// order.
    pub fn run(&self, n: usize) -> (t: Vec<u64>)
        ensures
            t@ == trace(self@, n as nat),
    {
        let mut t: Vec<u64> = Vec::new();
        let mut k: usize = 0;
        while k < n
            invariant
                k <= n,
                t@ == trace(self@, k as nat),
            decreases n - k,
        {
            let mut step = self.tick();
            t.append(&mut step);
            k += 1;
        }
        t
    }
}

/// Register the handles of `regs` in order under policy `p` into a fresh
/// registry, then run `ticks` ticks.  This is the whole observable behaviour
/// of a program that installs callbacks and starts the host's loop, and it is
/// defined for every policy and every sequence of registrations.
pub fn run_program(p: Policy, regs: &Vec<u64>, ticks: usize) -> (t: Vec<u64>)
    ensures
        t@ == program_output(p, regs@, ticks as nat),
{
    let mut reg = Registry::new(p);
    let mut i: usize = 0;
    while i < regs.len()
        invariant
            i <= regs.len(),
            reg.policy() == p,
            reg.well_formed(),
            reg@ == register_all(p, regs@.take(i as int)),
        decreases regs.len() - i,
    {
        reg.register(regs[i]);
        proof {
            assert(regs@.take(i + 1).drop_last() =~= regs@.take(i as int));
            assert(regs@.take(i + 1).last() == regs@[i as int]);
        }
        i += 1;
    }
    proof {
        assert(regs@.take(regs@.len() as int) =~= regs@);
    }
    reg.run(ticks)
}

} // verus!
