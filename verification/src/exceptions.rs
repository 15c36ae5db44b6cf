//! Choice of the exception to take: the pending, preempting exception of highest
//! priority (lowest priority value), the lower exception number winning a tie.
use vstd::prelude::*;
use crate::bits::{bit, set_bit};
use crate::bus::NvicState;

verus! {

pub const SYSTICK_EXCEPTION: u32 = 15;

/// The priority value of exception `exc`: SysTick has its own byte, external interrupts
/// read theirs from the interrupt priority registers, anything else is 0.
pub open spec fn exception_priority(exc: u32, systick_priority: u8, ipr: Seq<u8>) -> u8 {
    if exc == SYSTICK_EXCEPTION {
        systick_priority
    } else if exc >= 16 && exc - 16 < 240 {
        ipr[exc - 16]
    } else {
        0
    }
}

/// The priority of the innermost active exception; 255 when none is active.
pub open spec fn running_priority(stack: Seq<u32>, systick_priority: u8, ipr: Seq<u8>) -> u8 {
    if stack.len() == 0 {
        255
    } else {
        exception_priority(stack.last(), systick_priority, ipr)
    }
}

/// Whether interrupt line `irq` (below 256) has its handler active.
pub open spec fn irq_in_service(stack: Seq<u32>, irq: u32) -> bool {
    exists|k: int| 0 <= k < stack.len() && #[trigger] stack[k] == 16 + irq
}

/// Whether interrupt line `irq` is ready to be taken and not already being serviced.
pub open spec fn nvic_candidate(nvic: NvicState, stack: Seq<u32>, irq: u32) -> bool {
    &&& irq < 256
    &&& bit(nvic.active_word_bitmap, irq / 32) == 1
    &&& bit(nvic.iabr[(irq / 32) as int], irq % 32) == 1
    &&& !irq_in_service(stack, irq)
}

/// Whether exception `exc` is pending and may preempt what is running.
pub open spec fn eligible(
    exc: u32,
    stack: Seq<u32>,
    systick_priority: u8,
    nvic: NvicState,
    systick_pending: bool,
) -> bool {
    let prio = exception_priority(exc, systick_priority, nvic.ipr@);
    let preempts = stack.len() == 0 || prio < running_priority(stack, systick_priority, nvic.ipr@);
    preempts && ((exc == SYSTICK_EXCEPTION && systick_pending) || (exc >= 16 && nvic_candidate(
        nvic,
        stack,
        (exc - 16) as u32,
    )))
}

/// `a` is at least as urgent as `b`: a lower priority value, or the same value and a
/// lower exception number.
pub open spec fn at_least_as_urgent(a: u32, b: u32, systick_priority: u8, ipr: Seq<u8>) -> bool {
    let pa = exception_priority(a, systick_priority, ipr);
    let pb = exception_priority(b, systick_priority, ipr);
    pa < pb || (pa == pb && a <= b)
}

/// The priority of an exception, as the core looks it up.
pub fn read_exception_priority_fast(exception_num: u32, systick_priority: u8, nvic_ipr: &[u8; 240]) -> (p: u8)
    ensures
        p == exception_priority(exception_num, systick_priority, nvic_ipr@),
{
    if exception_num == SYSTICK_EXCEPTION {
        return systick_priority;
    }
    if exception_num >= 16 {
        let irq = (exception_num - 16) as usize;
        if irq < 240 {
            return nvic_ipr[irq];
        }
    }
    0
}

/// One bit per interrupt line whose handler is on the active-exception stack.
fn in_service_mask(stack: &Vec<u32>) -> (mask: [u32; 8])
    ensures
        forall|irq: u32| irq < 256 ==> (#[trigger] bit(mask[(irq / 32) as int], irq % 32) == 1
            <==> irq_in_service(stack@, irq)),
{
    let mut mask = [0u32; 8];
    let mut k: usize = 0;
    assert forall|irq: u32| irq < 256 implies (#[trigger] bit(mask[(irq / 32) as int], irq % 32) == 1
        <==> exists|j: int| 0 <= j < k && #[trigger] stack@[j] == 16 + irq) by {
        let s = irq % 32;
        assert(bit(0u32, s) == 0) by (bit_vector);
    }
    while k < stack.len()
        invariant
            k <= stack.len(),
            forall|irq: u32| irq < 256 ==> (#[trigger] bit(mask[(irq / 32) as int], irq % 32) == 1
                <==> exists|j: int| 0 <= j < k && #[trigger] stack@[j] == 16 + irq),
        decreases stack.len() - k,
    {
        let exc = stack[k];
        if exc >= 16 && exc - 16 < 256 {
            let irq = exc - 16;
            let index = (irq / 32) as usize;
            let old_mask = mask;
            mask[index] = set_bit(mask[index], irq % 32, true);
            assert forall|i: u32| i < 256 implies (#[trigger] bit(mask[(i / 32) as int], i % 32) == 1
                <==> exists|j: int| 0 <= j < k + 1 && #[trigger] stack@[j] == 16 + i) by {
                if i == irq {
                    assert(stack@[k as int] == 16 + i);
                } else {
                    if (i / 32) == (irq / 32) {
                        assert(i % 32 != irq % 32);
                    }
                    assert(bit(mask[(i / 32) as int], i % 32) == bit(old_mask[(i / 32) as int], i % 32));
                    if exists|j: int| 0 <= j < k + 1 && #[trigger] stack@[j] == 16 + i {
                        let j = choose|j: int| 0 <= j < k + 1 && #[trigger] stack@[j] == 16 + i;
                        assert(j != k);
                    }
                }
            }
        } else {
            assert forall|i: u32| i < 256 implies (#[trigger] bit(mask[(i / 32) as int], i % 32) == 1
                <==> exists|j: int| 0 <= j < k + 1 && #[trigger] stack@[j] == 16 + i) by {
                if exists|j: int| 0 <= j < k + 1 && #[trigger] stack@[j] == 16 + i {
                    let j = choose|j: int| 0 <= j < k + 1 && #[trigger] stack@[j] == 16 + i;
                    assert(j != k);
                }
            }
        }
        k = k + 1;
    }
    mask
}

/// The exception to take now, if any: among the eligible exceptions, the most urgent one.
pub fn select_exception(
    exception_stack: &Vec<u32>,
    systick_priority: u8,
    nvic: &NvicState,
    systick_pending: bool,
) -> (r: Option<u32>)
    ensures
        r is None <==> forall|x: u32|
            !#[trigger] eligible(x, exception_stack@, systick_priority, *nvic, systick_pending),
        r matches Some(e) ==> eligible(e, exception_stack@, systick_priority, *nvic, systick_pending)
            && forall|x: u32| #[trigger]
                eligible(x, exception_stack@, systick_priority, *nvic, systick_pending)
                    ==> at_least_as_urgent(e, x, systick_priority, nvic.ipr@),
{
    let ghost stack = exception_stack@;
    let ghost ipr = nvic.ipr@;
    let in_service = in_service_mask(exception_stack);
    let current_priority = if exception_stack.len() == 0 {
        255u8
    } else {
        read_exception_priority_fast(exception_stack[exception_stack.len() - 1], systick_priority, &nvic.ipr)
    };
    assert(current_priority == running_priority(stack, systick_priority, ipr));
    let mut best: Option<u32> = None;
    let mut best_priority: u8 = 255;
    if systick_pending {
        let preemptable = exception_stack.len() == 0 || systick_priority < current_priority;
        if preemptable {
            best = Some(SYSTICK_EXCEPTION);
            best_priority = systick_priority;
        }
    }
    let mut irq: u32 = 0;
    assert(eligible(SYSTICK_EXCEPTION, stack, systick_priority, *nvic, systick_pending) == (
    systick_pending && (stack.len() == 0 || systick_priority < current_priority)));
    while irq < 256
        invariant
            irq <= 256,
            stack == exception_stack@,
            ipr == nvic.ipr@,
            current_priority == running_priority(stack, systick_priority, ipr),
            forall|i: u32| i < 256 ==> (#[trigger] bit(in_service[(i / 32) as int], i % 32) == 1
                <==> irq_in_service(stack, i)),
            best is None <==> forall|x: u32| (x == SYSTICK_EXCEPTION || (16 <= x < 16 + irq)) ==> !#[trigger] eligible(
                x,
                stack,
                systick_priority,
                *nvic,
                systick_pending,
            ),
            best matches Some(e) ==> {
                &&& (e == SYSTICK_EXCEPTION || (16 <= e < 16 + irq))
                &&& eligible(e, stack, systick_priority, *nvic, systick_pending)
                &&& best_priority == exception_priority(e, systick_priority, ipr)
                &&& forall|x: u32| (x == SYSTICK_EXCEPTION || (16 <= x < 16 + irq)) && #[trigger] eligible(
                    x,
                    stack,
                    systick_priority,
                    *nvic,
                    systick_pending,
                ) ==> at_least_as_urgent(e, x, systick_priority, ipr)
            },
        decreases 256 - irq,
    {
        let word = (irq / 32) as usize;
        let b = irq % 32;
        let active = nvic.iabr[word];
        let serviced = in_service[word];
        let ready = ((nvic.active_word_bitmap >> (word as u32)) & 1) == 1 && ((active >> b) & 1) == 1
            && ((serviced >> b) & 1) == 0;
        let exc = 16 + irq;
        assert(ready == nvic_candidate(*nvic, stack, irq)) by {
            assert(bit(in_service[(irq / 32) as int], irq % 32) == 1 <==> irq_in_service(stack, irq));
            assert(((serviced >> b) & 1) <= 1) by (bit_vector);
        }
        assert(exc >= 16 && (exc - 16) as u32 == irq);
        let ghost prio = exception_priority(exc, systick_priority, ipr);
        assert(eligible(exc, stack, systick_priority, *nvic, systick_pending) == (ready && (stack.len()
            == 0 || prio < current_priority)));
        if ready {
            let priority = read_exception_priority_fast(exc, systick_priority, &nvic.ipr);
            let preemptable = exception_stack.len() == 0 || priority < current_priority;
            if preemptable && (best.is_none() || priority < best_priority) {
                best = Some(exc);
                best_priority = priority;
            }
        }
        assert forall|x: u32| (x == SYSTICK_EXCEPTION || (16 <= x < 16 + irq + 1)) && #[trigger] eligible(
            x,
            stack,
            systick_priority,
            *nvic,
            systick_pending,
        ) implies best is Some by {
            if x == exc {
            }
        }
        irq = irq + 1;
    }
    assert forall|x: u32| #[trigger] eligible(x, stack, systick_priority, *nvic, systick_pending)
        implies (x == SYSTICK_EXCEPTION || (16 <= x < 16 + 256)) by {
    }
    best
}

/// The priority of external interrupt `n` (exception `16 + n`) is byte `n` of the interrupt
/// priority registers, whatever the other bytes and the SysTick priority are; SysTick's is
/// its own priority byte.
pub proof fn lemma_irq_priority_is_its_ipr_byte(n: u32, systick_priority: u8, ipr: Seq<u8>)
    requires
        n < 240,
    ensures
        exception_priority((16 + n) as u32, systick_priority, ipr) == ipr[n as int],
        exception_priority(15, systick_priority, ipr) == systick_priority,
        forall|other: Seq<u8>| other.len() == ipr.len() && other[n as int] == ipr[n as int]
            ==> exception_priority((16 + n) as u32, systick_priority, other) == ipr[n as int],
{
}

/// With no exception active, what `select_exception` chooses is the most urgent of what is
/// pending: SysTick (priority `systick_priority`) when it is pending, and each ready external
/// interrupt `n` (priority byte `n` of the IPR). No pending exception has a lower priority
/// value than the one chosen, and on equal values the lower exception number (SysTick before
/// every interrupt, interrupt `n` before `n + 1`) wins.
pub proof fn lemma_selection_takes_the_most_urgent(systick_priority: u8, nvic: NvicState, systick_pending: bool, e: u32)
    requires
        eligible(e, Seq::empty(), systick_priority, nvic, systick_pending),
        forall|x: u32| #[trigger] eligible(x, Seq::empty(), systick_priority, nvic, systick_pending)
            ==> at_least_as_urgent(e, x, systick_priority, nvic.ipr@),
    ensures
        ({
            let p = if e == 15 { systick_priority } else if e - 16 < 240 { nvic.ipr@[e - 16] } else { 0u8 };
            &&& e == 15 || 16 <= e < 272
            &&& e == 15 ==> systick_pending
            &&& systick_pending ==> p < systick_priority || (p == systick_priority && e == 15)
            &&& forall|n: u32| n < 240 && #[trigger] nvic_candidate(nvic, Seq::empty(), n)
                ==> p < nvic.ipr@[n as int] || (p == nvic.ipr@[n as int] && e <= 16 + n)
        }),
{
    if systick_pending {
        assert(eligible(15, Seq::empty(), systick_priority, nvic, systick_pending));
    }
    assert forall|n: u32| n < 240 && #[trigger] nvic_candidate(nvic, Seq::empty(), n) implies ({
        let p = if e == 15 { systick_priority } else if e - 16 < 240 { nvic.ipr@[e - 16] } else { 0u8 };
        p < nvic.ipr@[n as int] || (p == nvic.ipr@[n as int] && e <= 16 + n)
    }) by {
        assert(eligible((16 + n) as u32, Seq::empty(), systick_priority, nvic, systick_pending));
        assert((16 + n - 16) as u32 == n);
    }
}

} // verus!
