//! The trampoline driver: continuation-passing recursion turned into an
//! iterative loop. A step never calls its continuation directly; it returns a
//! deferred-call descriptor, and the driver performs the described calls one
//! after another, in constant host stack depth, until a terminal value
//! appears or the protocol is broken.

use vstd::prelude::*;

verus! {

/// A deferred call: an inert record naming a continuation and the arguments
/// to hand it. The descriptor owns its snapshot of the arguments; nothing in
/// it refers back to the frame that built it, which is what makes deferral
/// stack-safe.
pub struct Call<F, A> {
    pub function: F,
    pub args: A,
}

impl<F, A> Call<F, A> {
    /// Describe a later invocation of `function` on `args` without making it.
    pub fn new(function: F, args: A) -> (r: Self)
        ensures
            r == (Call { function, args }),
    {
        Call { function, args }
    }
}

/// The wrapper around a final produced value: it tells the driver to stop
/// looping and unwrap.
pub struct TerminalValue<T> {
    pub value: T,
}

impl<T> TerminalValue<T> {
    pub fn new(value: T) -> (r: Self)
        ensures
            r == (TerminalValue { value }),
    {
        TerminalValue { value }
    }
}

/// What one step of execution hands back to the driver. The protocol allows
/// a deferred call or a terminal value; `Stray` stands for anything else a
/// broken primitive might produce.
pub enum Step<F, A, T> {
    Deferred(Call<F, A>),
    Terminal(TerminalValue<T>),
    Stray,
}

/// The error surfaced when a step result is neither a deferred call nor a
/// terminal value: a primitive broke the trampoline contract.
pub struct ProtocolViolation;

/// The contract a primitive or continuation must satisfy to run on the
/// trampoline: invoking it with arguments yields exactly the step its
/// specification describes, and it never calls a continuation itself.
pub trait Continuation<A, T>: Sized {
    /// The step this continuation takes on `args`.
    spec fn step_spec(&self, args: A) -> Step<Self, A, T>;

    /// Perform one step. Implementations must return the described step
    /// rather than invoking any continuation directly.
    fn invoke(&self, args: A) -> (r: Step<Self, A, T>)
        ensures
            r == self.step_spec(args),
    ;
}

/// The step result reached after performing `first` and then `n` further
/// deferred calls; once a non-deferred step appears, it is final.
pub open spec fn step_iter<F: Continuation<A, T>, A, T>(first: Call<F, A>, n: nat) -> Step<F, A, T>
    decreases n,
{
    if n == 0 {
        first.function.step_spec(first.args)
    } else {
        match step_iter(first, (n - 1) as nat) {
            Step::Deferred(c) => c.function.step_spec(c.args),
            r => r,
        }
    }
}

/// The chain of deferred calls starting at `first` reaches the terminal
/// value `value`.
pub open spec fn resolves_to<F: Continuation<A, T>, A, T>(first: Call<F, A>, value: T) -> bool {
    exists|n: nat| step_iter(first, n) == Step::<F, A, T>::Terminal(TerminalValue { value })
}

/// The chain of deferred calls starting at `first` reaches a step result
/// outside the protocol.
pub open spec fn breaks_protocol<F: Continuation<A, T>, A, T>(first: Call<F, A>) -> bool {
    exists|n: nat| step_iter(first, n) is Stray
}

/// The chain of deferred calls starting at `first` eventually leaves the
/// deferred state, one way or the other.
pub open spec fn halts<F: Continuation<A, T>, A, T>(first: Call<F, A>) -> bool {
    exists|n: nat| !(step_iter(first, n) is Deferred)
}

/// Invoke `entry` on `args`, then keep performing deferred calls until a
/// terminal value is produced and unwrapped, or a step result outside the
/// protocol surfaces as a `ProtocolViolation`. Each iteration starts from a
/// fresh frame, so arbitrarily long continuation chains run in constant host
/// stack depth. The chain must halt: an endless chain would keep this driver
/// looping, and termination of every loop is proved here.
#[verifier::loop_isolation(false)]
pub fn with_trampoline<F: Continuation<A, T>, A, T>(entry: F, args: A) -> (r: Result<
    T,
    ProtocolViolation,
>)
    requires
        halts::<F, A, T>((Call { function: entry, args })),
    ensures
        (r matches Ok(value) ==> resolves_to((Call { function: entry, args }), value)),
        (r is Err ==> breaks_protocol::<F, A, T>((Call { function: entry, args }))),
        forall|v: T| resolves_to((Call { function: entry, args }), v) ==> r == Ok::<
            T,
            ProtocolViolation,
        >(v),
{
    let ghost first = Call { function: entry, args };
    let ghost limit = choose|n: nat| !(step_iter(first, n) is Deferred);
    let ghost mut n: nat = 0;
    let mut step = entry.invoke(args);
    loop
        invariant
            step == step_iter(first, n),
            n <= limit,
            !(step_iter(first, limit) is Deferred),
        decreases limit - n,
    {
        match step {
            Step::Deferred(c) => {
                proof {
                    if n >= limit {
                        lemma_step_iter_stable(first, limit, n);
                    }
                    n = n + 1;
                }
                let Call { function, args } = c;
                step = function.invoke(args);
            },
            Step::Terminal(t) => {
                proof {
                    assert(step_iter(first, n) == Step::<F, A, T>::Terminal(
                        TerminalValue { value: t.value },
                    ));
                    assert forall|v: T| resolves_to(first, v) implies v == t.value by {
                        lemma_resolution_unique(first, v, t.value);
                    }
                }
                return Ok(t.value);
            },
            Step::Stray => {
                proof {
                    assert(breaks_protocol::<F, A, T>(first));
                    assert forall|v: T| !resolves_to(first, v) by {
                        if resolves_to(first, v) {
                            lemma_resolution_excludes_violation(first, v);
                        }
                    }
                }
                return Err(ProtocolViolation);
            },
        }
    }
}

/// Stepping past the first deferred call: when `first` defers to `c`, the
/// rest of the chain is the chain of `c`.
pub proof fn lemma_step_iter_shift<F: Continuation<A, T>, A, T>(
    first: Call<F, A>,
    c: Call<F, A>,
    n: nat,
)
    requires
        first.function.step_spec(first.args) == Step::<F, A, T>::Deferred(c),
    ensures
        step_iter(first, n + 1) == step_iter(c, n),
    decreases n,
{
    reveal_with_fuel(step_iter, 3);
    if n > 0 {
        lemma_step_iter_shift(first, c, (n - 1) as nat);
    }
}

/// Once the chain has produced a non-deferred step, every later point of the
/// chain shows that same step.
pub proof fn lemma_step_iter_stable<F: Continuation<A, T>, A, T>(first: Call<F, A>, m: nat, n: nat)
    requires
        m <= n,
        !(step_iter(first, m) is Deferred),
    ensures
        step_iter(first, n) == step_iter(first, m),
    decreases n,
{
    if m < n {
        lemma_step_iter_stable(first, m, (n - 1) as nat);
    }
}

/// A chain resolves to at most one terminal value: the driver's answer is
/// determined by the entry point and its arguments alone.
pub proof fn lemma_resolution_unique<F: Continuation<A, T>, A, T>(first: Call<F, A>, v1: T, v2: T)
    requires
        resolves_to(first, v1),
        resolves_to(first, v2),
    ensures
        v1 == v2,
{
    let n1 = choose|n: nat|
        step_iter(first, n) == Step::<F, A, T>::Terminal(TerminalValue { value: v1 });
    let n2 = choose|n: nat|
        step_iter(first, n) == Step::<F, A, T>::Terminal(TerminalValue { value: v2 });
    if n1 <= n2 {
        lemma_step_iter_stable(first, n1, n2);
    } else {
        lemma_step_iter_stable(first, n2, n1);
    }
}

/// An entry point that defers once per remaining unit before terminating:
/// its arguments are the units still to go and the deferred calls performed
/// so far, and its terminal value is the final tally. A large starting count
/// exercises a long continuation chain on the driver.
pub struct Countdown;

impl Continuation<(u64, u64), u64> for Countdown {
    open spec fn step_spec(&self, args: (u64, u64)) -> Step<Self, (u64, u64), u64> {
        if args.0 == 0 {
            Step::Terminal(TerminalValue { value: args.1 })
        } else if args.1 == u64::MAX {
            Step::Deferred(Call { function: Countdown, args: ((args.0 - 1) as u64, u64::MAX) })
        } else {
            Step::Deferred(
                Call { function: Countdown, args: ((args.0 - 1) as u64, ((args.1 + 1) as u64)) },
            )
        }
    }

    fn invoke(&self, args: (u64, u64)) -> (r: Step<Self, (u64, u64), u64>) {
        if args.0 == 0 {
            Step::Terminal(TerminalValue { value: args.1 })
        } else if args.1 == u64::MAX {
            Step::Deferred(Call { function: Countdown, args: (args.0 - 1, u64::MAX) })
        } else {
            Step::Deferred(Call { function: Countdown, args: (args.0 - 1, args.1 + 1) })
        }
    }
}

/// A countdown chain of `remaining` deferred calls resolves to the tally it
/// was started with plus the length of the chain.
pub proof fn lemma_countdown_resolves(remaining: u64, tally: u64)
    requires
        remaining + tally <= u64::MAX,
    ensures
        resolves_to(
            (Call { function: Countdown, args: (remaining, tally) }),
            (remaining + tally) as u64,
        ),
        halts::<Countdown, (u64, u64), u64>((Call { function: Countdown, args: (remaining, tally) })),
    decreases remaining,
{
    let first = Call { function: Countdown, args: (remaining, tally) };
    if remaining == 0 {
        assert(step_iter(first, 0) == Step::<Countdown, (u64, u64), u64>::Terminal(
            TerminalValue { value: tally },
        ));
    } else {
        let c = Call { function: Countdown, args: ((remaining - 1) as u64, (tally + 1) as u64) };
        lemma_countdown_resolves((remaining - 1) as u64, (tally + 1) as u64);
        let n = choose|n: nat|
            step_iter(c, n) == Step::<Countdown, (u64, u64), u64>::Terminal(
                TerminalValue { value: (remaining + tally) as u64 },
            );
        lemma_step_iter_shift(first, c, n);
        assert(step_iter(first, n + 1) == Step::<Countdown, (u64, u64), u64>::Terminal(
            TerminalValue { value: (remaining + tally) as u64 },
        ));
    }
}

/// An entry point that breaks the primitive contract: its step result is
/// neither a deferred call nor a terminal value.
pub struct StrayEntry;

impl Continuation<u64, u64> for StrayEntry {
    open spec fn step_spec(&self, args: u64) -> Step<Self, u64, u64> {
        Step::Stray
    }

    fn invoke(&self, args: u64) -> (r: Step<Self, u64, u64>) {
        Step::Stray
    }
}

/// A chain started at a protocol-breaking entry point halts at once by
/// breaking the protocol, and resolves to no value at all.
pub proof fn lemma_stray_entry_breaks(args: u64)
    ensures
        breaks_protocol::<StrayEntry, u64, u64>((Call { function: StrayEntry, args })),
        halts::<StrayEntry, u64, u64>((Call { function: StrayEntry, args })),
        forall|v: u64| !resolves_to((Call { function: StrayEntry, args }), v),
{
    let first = Call { function: StrayEntry, args };
    assert(step_iter(first, 0) is Stray);
    assert forall|v: u64| !resolves_to(first, v) by {
        if resolves_to(first, v) {
            lemma_resolution_excludes_violation(first, v);
        }
    }
}

/// A chain that resolves to a terminal value never breaks the protocol, and
/// the driver can therefore not trade a violation for a silent wrong answer.
pub proof fn lemma_resolution_excludes_violation<F: Continuation<A, T>, A, T>(
    first: Call<F, A>,
    value: T,
)
    requires
        resolves_to(first, value),
    ensures
        !breaks_protocol::<F, A, T>(first),
{
    let n1 = choose|n: nat|
        step_iter(first, n) == Step::<F, A, T>::Terminal(TerminalValue { value });
    assert forall|n: nat| !(step_iter(first, n) is Stray) by {
        if step_iter(first, n) is Stray {
            if n1 <= n {
                lemma_step_iter_stable(first, n1, n);
            } else {
                lemma_step_iter_stable(first, n, n1);
            }
        }
    }
}

} // verus!

