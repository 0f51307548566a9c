use vstd::prelude::*;

verus! {

/// How many frames of a stack are looked at.
pub const MAX_FRAMES: usize = 256;

/// A stack deeper than this has overflowed, as far as anyone can tell.
pub const DEEP_STACK: usize = 128;

/// How many lines a terminal shows before the first one scrolls off.
pub const SCREEN_LINES: usize = 24;

/// How much room a signal handler gets on top of what the system asks for.
pub const SIGNAL_STACK_ROOM: usize = 64 * 1024;

/// Frames that come again and again: so many, so many times.
#[derive(Clone, Copy, Debug, PartialEq, Eq, Structural)]
pub struct Cycle {
    pub period: usize,
    pub times: usize,
}

/// How a stack trace is written: the frames before a cycle, the cycle once, the frames behind it,
/// and notes.
#[derive(Clone, Copy, Debug, PartialEq, Eq, Structural)]
pub struct TracePlan {
    /// How many frames come first.
    pub prefix: usize,
    /// The cycle behind them, if there is one that comes more than once.
    pub cycle: Option<Cycle>,
    /// From which frame on the rest is written.
    pub rest_from: usize,
    /// Whether the stack has overflowed.
    pub overflowed: bool,
    /// Whether frames may be missing.
    pub truncated: bool,
    /// Whether the first line may have scrolled off.
    pub scrolled: bool,
}

/// Whether a runner that starts a frame ahead and makes two steps for each one meets the walker
/// after `n` steps.
pub open spec fn meets(stack: Seq<usize>, n: int) -> bool {
    0 <= n && 2 * n + 1 < stack.len() && stack[2 * n + 1] == stack[n]
}

/// Whether the frame at a place comes again a period later.
pub open spec fn comes_again(stack: Seq<usize>, period: int, at: int) -> bool {
    0 <= at && at + period < stack.len() && stack[at + period] == stack[at]
}

/// How many slices of a period are equal to the one before, from a place on.
pub open spec fn equal_slices(stack: Seq<usize>, at: int, period: int) -> nat
    decreases stack.len() - at,
{
    if period <= 0 || at < 0 || at + 2 * period > stack.len() {
        0
    } else {
        (if stack.subrange(at, at + period) == stack.subrange(at + period, at + 2 * period) {
            1nat
        } else {
            0
        }) + equal_slices(stack, at + period, period)
    }
}

/// Whether the runner meets the walker first after `period - 1` steps, and `offset` is the first
/// frame that comes again a period later.
pub open spec fn is_cycle(stack: Seq<usize>, period: int, offset: int) -> bool {
    &&& meets(stack, period - 1)
    &&& forall|n: int| n < period - 1 ==> !#[trigger] meets(stack, n)
    &&& comes_again(stack, period, offset)
    &&& forall|at: int| at < offset ==> !#[trigger] comes_again(stack, period, at)
}

/// How many lines a trace takes, but for the last note.
pub open spec fn lines(stack: Seq<usize>, plan: TracePlan) -> int {
    1 + plan.prefix + (match plan.cycle {
        Some(c) => c.period + 4,
        None => 0,
    }) + (stack.len() - plan.rest_from + 1) + (if plan.overflowed {
        1int
    } else {
        0
    }) + (if plan.truncated {
        1int
    } else {
        0
    }) + 1
}

/// Whether a plan is the one for a stack.
pub open spec fn is_plan(stack: Seq<usize>, plan: TracePlan) -> bool {
    &&& if exists|period: int, offset: int| #[trigger] is_cycle(stack, period, offset) {
        exists|period: int, offset: int| #[trigger]
            is_cycle(stack, period, offset) && {
                let times = 1 + equal_slices(stack, offset, period);
                &&& plan.prefix == offset
                &&& if times > 1 {
                    &&& plan.cycle == Some(Cycle { period: period as usize, times: times as usize })
                    &&& plan.rest_from == offset + period * times
                } else {
                    plan.cycle is None && plan.rest_from == offset
                }
            }
    } else {
        plan.prefix == 0 && plan.cycle is None && plan.rest_from == 0
    }
    &&& plan.overflowed == (plan.cycle is Some || stack.len() > DEEP_STACK)
    &&& plan.truncated == (stack.len() == MAX_FRAMES)
    &&& plan.scrolled == (lines(stack, plan) > SCREEN_LINES)
}

/// A frame comes again at the place where the runner meets the walker.
proof fn lemma_cycle_exists(stack: Seq<usize>, period: int)
    requires
        meets(stack, period - 1),
    ensures
        period > 0,
        comes_again(stack, period, period - 1),
{
    assert(2 * (period - 1) + 1 == (period - 1) + period);
}

/// The equal slices lie in the stack.
pub proof fn lemma_slices_fit(stack: Seq<usize>, at: int, period: int)
    requires
        period > 0,
        0 <= at,
        at + period <= stack.len(),
    ensures
        at + period * (1 + equal_slices(stack, at, period)) <= stack.len(),
    decreases stack.len() - at,
{
    if at + 2 * period > stack.len() {
        assert(period * 1 == period);
    } else {
        lemma_slices_fit(stack, at + period, period);
        let n = equal_slices(stack, at + period, period);
        let m = equal_slices(stack, at, period);
        assert(period * (1 + m) <= period + period * (1 + n)) by (nonlinear_arith)
            requires
                period > 0,
                m <= n + 1,
        ;
    }
}

/// The first number of steps after which the runner meets the walker.
fn find_meeting(stack: &[usize]) -> (r: Option<usize>)
    requires
        stack@.len() <= MAX_FRAMES,
    ensures
        match r {
            Some(n) => meets(stack@, n as int) && forall|k: int|
                k < n ==> !#[trigger] meets(stack@, k),
            None => forall|k: int| !#[trigger] meets(stack@, k),
        },
{
    let mut n: usize = 0;
    while 2 * n + 1 < stack.len()
        invariant
            stack@.len() <= MAX_FRAMES,
            n <= MAX_FRAMES,
            forall|k: int| k < n ==> !#[trigger] meets(stack@, k),
        decreases stack.len() - n,
    {
        if stack[2 * n + 1] == stack[n] {
            return Some(n);
        }
        n += 1;
    }
    None
}

/// The first frame that comes again a period later, known that one does.
fn find_again(stack: &[usize], period: usize) -> (r: usize)
    requires
        stack@.len() <= MAX_FRAMES,
        0 < period,
        comes_again(stack@, period as int, period - 1),
    ensures
        comes_again(stack@, period as int, r as int),
        forall|k: int| k < r ==> !#[trigger] comes_again(stack@, period as int, k),
        r < period,
{
    let mut at: usize = 0;
    while at + 1 < period
        invariant
            stack@.len() <= MAX_FRAMES,
            0 < period,
            at < period,
            comes_again(stack@, period as int, period - 1),
            forall|k: int| k < at ==> !#[trigger] comes_again(stack@, period as int, k),
        decreases period - at,
    {
        if stack[at + period] == stack[at] {
            return at;
        }
        at += 1;
    }
    at
}

/// Whether the slice of a period at a place is equal to the next one.
fn slices_equal(stack: &[usize], at: usize, period: usize) -> (r: bool)
    requires
        stack@.len() <= MAX_FRAMES,
        at + 2 * period <= stack@.len(),
    ensures
        r == (stack@.subrange(at as int, at + period) == stack@.subrange(
            at + period,
            at + 2 * period,
        )),
{
    let ghost a = stack@.subrange(at as int, at + period);
    let ghost b = stack@.subrange(at + period, at + 2 * period);
    let mut i: usize = 0;
    while i < period
        invariant
            stack@.len() <= MAX_FRAMES,
            i <= period,
            at + 2 * period <= stack@.len(),
            a == stack@.subrange(at as int, at + period),
            b == stack@.subrange(at + period, at + 2 * period),
            forall|k: int| 0 <= k < i ==> #[trigger] a[k] == b[k],
        decreases period - i,
    {
        if stack[at + i] != stack[at + period + i] {
            proof {
                assert(a[i as int] != b[i as int]);
            }
            return false;
        }
        proof {
            assert(a[i as int] == b[i as int]);
        }
        i += 1;
    }
    proof {
        assert(a =~= b);
    }
    true
}

/// How many slices of a period are equal to the one before, from a place on.
fn count_equal_slices(stack: &[usize], offset: usize, period: usize) -> (r: usize)
    requires
        stack@.len() <= MAX_FRAMES,
        0 < period <= stack@.len(),
        offset <= stack@.len(),
    ensures
        r == equal_slices(stack@, offset as int, period as int),
        r <= MAX_FRAMES,
{
    let mut at: usize = offset;
    let mut n: usize = 0;
    while at + 2 * period <= stack.len()
        invariant
            stack@.len() <= MAX_FRAMES,
            0 < period <= stack@.len(),
            offset <= at <= stack@.len(),
            n <= at,
            n + equal_slices(stack@, at as int, period as int) == equal_slices(
                stack@,
                offset as int,
                period as int,
            ),
        decreases stack.len() - at,
    {
        if slices_equal(stack, at, period) {
            n += 1;
        }
        at += period;
    }
    n
}

/// How the trace of a stack is written. Most traces come from a stack overflow, and most of those
/// from recursion, so a cycle is written once, with the number of times that it comes.
pub fn plan_stack_trace(stack: &[usize]) -> (r: Option<TracePlan>)
    requires
        stack@.len() <= MAX_FRAMES,
    ensures
        r is None <==> stack@.len() == 0,
        r matches Some(plan) ==> is_plan(stack@, plan) && plan.prefix <= plan.rest_from
            <= stack@.len() && (plan.cycle matches Some(c) ==> c.times > 1 && c.period > 0
            && plan.prefix + c.period <= plan.rest_from),
{
    if stack.len() == 0 {
        return None;
    }
    let mut prefix: usize = 0;
    let mut cycle: Option<Cycle> = None;
    let mut rest_from: usize = 0;
    let mut written: usize = 1;
    match find_meeting(stack) {
        Some(n) => {
            let period: usize = n + 1;
            proof {
                lemma_cycle_exists(stack@, period as int);
            }
            let offset: usize = find_again(stack, period);
            proof {
                assert(is_cycle(stack@, period as int, offset as int));
            }
            let times: usize = 1 + count_equal_slices(stack, offset, period);
            prefix = offset;
            rest_from = offset;
            written += offset;
            if times > 1 {
                proof {
                    assert(offset + 2 * period <= stack@.len()) by {
                        if offset + 2 * period > stack@.len() {
                            assert(equal_slices(stack@, offset as int, period as int) == 0);
                        }
                    }
                    lemma_slices_fit(stack@, offset as int, period as int);
                    assert(period * times >= period) by (nonlinear_arith)
                        requires
                            times >= 1,
                            period >= 0,
                    ;
                }
                cycle = Some(Cycle { period, times });
                rest_from = offset + period * times;
                written += period + 4;
            }
        },
        None => {
            proof {
                assert forall|period: int, offset: int| !#[trigger]
                    is_cycle(stack@, period, offset) by {
                    assert(!meets(stack@, period - 1));
                }
            }
        },
    }
    written += stack.len() - rest_from + 1;
    let overflowed: bool = cycle.is_some() || stack.len() > DEEP_STACK;
    if overflowed {
        written += 1;
    }
    let truncated: bool = stack.len() == MAX_FRAMES;
    if truncated {
        written += 1;
    }
    written += 1;
    Some(
        TracePlan {
            prefix,
            cycle,
            rest_from,
            overflowed,
            truncated,
            scrolled: written > SCREEN_LINES,
        },
    )
}

/// How large the stack of a signal handler is: what the system asks for, fixed or on this
/// machine, whichever is more, and some room.
pub fn signal_stack_size(fixed: usize, dynamic: usize) -> (r: usize)
    requires
        fixed + SIGNAL_STACK_ROOM <= usize::MAX,
        dynamic + SIGNAL_STACK_ROOM <= usize::MAX,
    ensures
        r == (if fixed >= dynamic {
            fixed
        } else {
            dynamic
        }) + SIGNAL_STACK_ROOM,
{
    let minimum: usize = if fixed >= dynamic {
        fixed
    } else {
        dynamic
    };
    minimum + SIGNAL_STACK_ROOM
}

/// There is one cycle at most, so there is one plan for a stack.
pub proof fn lemma_one_cycle(stack: Seq<usize>, p: int, o: int, q: int, u: int)
    requires
        is_cycle(stack, p, o),
        is_cycle(stack, q, u),
    ensures
        p == q,
        o == u,
{
    assert(meets(stack, p - 1));
    assert(meets(stack, q - 1));
    assert(comes_again(stack, p, o));
    assert(comes_again(stack, q, u));
}

/// Where a stack repeats itself from a place on, as often as a period fits into what is left, so
/// often the slices count.
pub proof fn lemma_endless_repetition(stack: Seq<usize>, at: int, period: int)
    requires
        period > 0,
        0 <= at <= stack.len(),
        forall|i: int|
            at <= i && i + period < stack.len() ==> #[trigger] stack[i] == stack[i + period],
    ensures
        at + period * (1 + equal_slices(stack, at, period)) <= stack.len() || stack.len() < at
            + period,
        at + period * (2 + equal_slices(stack, at, period)) > stack.len(),
    decreases stack.len() - at,
{
    let slices = equal_slices(stack, at, period);
    if at + 2 * period <= stack.len() {
        let first = stack.subrange(at, at + period);
        let second = stack.subrange(at + period, at + 2 * period);
        assert forall|k: int| 0 <= k < period implies first[k] == second[k] by {
            assert(stack[at + k] == stack[(at + k) + period]);
        }
        assert(first =~= second);
        lemma_endless_repetition(stack, at + period, period);
        let rest = equal_slices(stack, at + period, period);
        assert(slices == 1 + rest);
        assert(period * (1 + slices) == period + period * (1 + rest)) by (nonlinear_arith)
            requires
                slices == 1 + rest,
        ;
        assert(period * (2 + slices) == period + period * (2 + rest)) by (nonlinear_arith)
            requires
                slices == 1 + rest,
        ;
    } else {
        assert(slices == 0);
        assert(period * (1 + slices) == period) by (nonlinear_arith)
            requires
                slices == 0,
        ;
        assert(period * (2 + slices) == 2 * period) by (nonlinear_arith)
            requires
                slices == 0,
        ;
    }
}

/// A stack in which no frame comes twice is told whole, without a cycle.
pub proof fn lemma_distinct_frames(stack: Seq<usize>, plan: TracePlan)
    requires
        is_plan(stack, plan),
        forall|i: int, j: int| 0 <= i < j < stack.len() ==> stack[i] != stack[j],
    ensures
        plan.prefix == 0,
        plan.cycle is None,
        plan.rest_from == 0,
        plan.overflowed == (stack.len() > 128),
        plan.truncated == (stack.len() == 256),
{
    assert forall|period: int, offset: int| !#[trigger] is_cycle(stack, period, offset) by {
        if is_cycle(stack, period, offset) {
            let n = period - 1;
            assert(stack[n] != stack[2 * n + 1]);
        }
    }
}

/// A told cycle was gone through more than once, starts with a frame that comes again a period
/// later, and together with what is told before and behind it makes up the stack.
pub proof fn lemma_told_cycle(stack: Seq<usize>, plan: TracePlan)
    requires
        is_plan(stack, plan),
        stack.len() <= 256,
    ensures
        plan.cycle matches Some(c) ==> {
            &&& c.times > 1
            &&& c.period > 0
            &&& plan.prefix + c.period < stack.len()
            &&& stack[plan.prefix as int] == stack[plan.prefix + c.period]
            &&& plan.rest_from == plan.prefix + c.period * c.times
            &&& plan.rest_from <= stack.len()
            &&& plan.overflowed
        },
        plan.cycle is None ==> plan.rest_from == plan.prefix,
{
    if plan.cycle is Some {
        let (period, offset) = choose|period: int, offset: int| #[trigger]
            is_cycle(stack, period, offset) && {
                let times = 1 + equal_slices(stack, offset, period);
                &&& plan.prefix == offset
                &&& if times > 1 {
                    &&& plan.cycle == Some(Cycle { period: period as usize, times: times as usize })
                    &&& plan.rest_from == offset + period * times
                } else {
                    plan.cycle is None && plan.rest_from == offset
                }
            };
        assert(meets(stack, period - 1));
        assert(comes_again(stack, period, offset));
        lemma_slices_fit(stack, offset, period);
        let times: int = 1 + equal_slices(stack, offset, period) as int;
        assert(times <= 256) by (nonlinear_arith)
            requires
                period >= 1,
                times >= 0,
                offset >= 0,
                offset + period * times <= 256,
        ;
    }
}

/// Each frame that is told takes a line, a told cycle four besides its frames, a note one each, and a
/// trace without any of these three.
pub proof fn lemma_lines(stack: Seq<usize>, plan: TracePlan)
    requires
        plan.prefix <= plan.rest_from <= stack.len(),
    ensures
        ({
            let frames: int = plan.prefix + (stack.len() - plan.rest_from) + (match plan.cycle {
                Some(c) => c.period as int,
                None => 0,
            });
            let notes: int = (if plan.cycle is Some { 4int } else { 0 }) + (if plan.overflowed {
                1int
            } else {
                0
            }) + (if plan.truncated { 1int } else { 0 });
            lines(stack, plan) == frames + notes + 3
        }),
{
}

} // verus!
