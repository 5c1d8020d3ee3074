//! The scroll position shared by both panes, bounded by the number of lines.

use vstd::prelude::*;

verus! {

/// Offset after scrolling up by `amount`: it stops at the first line.
pub open spec fn up(offset: nat, amount: nat) -> nat {
    if offset >= amount {
        (offset - amount) as nat
    } else {
        0
    }
}

/// The last line of a text of `line_count` lines (line 0 for an empty text).
pub open spec fn last_line(line_count: nat) -> nat {
    if line_count == 0 {
        0
    } else {
        (line_count - 1) as nat
    }
}

/// Offset after scrolling down by `amount`: a step that would pass the line
/// count lands on the last line, so that this line stays on screen. A step
/// that ends on the line count itself is taken as it is.
pub open spec fn down(offset: nat, line_count: nat, amount: nat) -> nat {
    if offset + amount > line_count {
        last_line(line_count)
    } else {
        offset + amount
    }
}

/// Scrolls up by `amount` lines.
pub fn scrolled_up(offset: u16, amount: u16) -> (r: u16)
    ensures
        r == up(offset as nat, amount as nat),
{
    if offset >= amount {
        offset - amount
    } else {
        0
    }
}

/// Scrolls down by `amount` lines within a text of `line_count` lines.
pub fn scrolled_down(offset: u16, line_count: u16, amount: u16) -> (r: u16)
    ensures
        r == down(offset as nat, line_count as nat, amount as nat),
{
    let target: u32 = offset as u32 + amount as u32;
    if target > line_count as u32 {
        if line_count == 0 {
            0
        } else {
            line_count - 1
        }
    } else {
        offset + amount
    }
}

/// One call of the scroll controller.
pub enum ScrollStep {
    Up(nat),
    Down(nat),
}

/// Offset after one step.
pub open spec fn step(offset: nat, line_count: nat, s: ScrollStep) -> nat {
    match s {
        ScrollStep::Up(amount) => up(offset, amount),
        ScrollStep::Down(amount) => down(offset, line_count, amount),
    }
}

/// Offset after the steps `steps`, taken in order.
pub open spec fn after(offset: nat, line_count: nat, steps: Seq<ScrollStep>) -> nat
    decreases steps.len(),
{
    if steps.len() == 0 {
        offset
    } else {
        step(after(offset, line_count, steps.drop_last()), line_count, steps.last())
    }
}

/// The step goes down and ends on the line count itself, one line past the
/// last line. Such a step is taken as it is.
pub open spec fn ends_on_count(offset: nat, line_count: nat, s: ScrollStep) -> bool {
    s matches ScrollStep::Down(amount) && offset + amount == line_count
}

/// No step of `steps` ends on the line count itself.
pub open spec fn avoids_count(offset: nat, line_count: nat, steps: Seq<ScrollStep>) -> bool {
    forall|k: int|
        0 <= k < steps.len() ==> !ends_on_count(
            after(offset, line_count, steps.take(k)),
            line_count,
            #[trigger] steps[k],
        )
}

/// Whatever the steps, an offset that is not past the line count never gets
/// past it.
pub proof fn lemma_offset_within_count(offset: nat, line_count: nat, steps: Seq<ScrollStep>)
    requires
        offset <= line_count,
    ensures
        after(offset, line_count, steps) <= line_count,
    decreases steps.len(),
{
    if steps.len() > 0 {
        lemma_offset_within_count(offset, line_count, steps.drop_last());
    }
}

/// An offset on a line of the text stays on a line of the text at every
/// point of a run of steps, as long as no step ends on the line count
/// itself.
pub proof fn lemma_offset_on_a_line(offset: nat, line_count: nat, steps: Seq<ScrollStep>)
    requires
        offset < line_count,
        avoids_count(offset, line_count, steps),
    ensures
        forall|k: int|
            0 <= k <= steps.len() ==> after(offset, line_count, #[trigger] steps.take(k))
                < line_count,
    decreases steps.len(),
{
    if steps.len() > 0 {
        let front = steps.drop_last();
        assert(avoids_count(offset, line_count, front)) by {
            assert forall|k: int| 0 <= k < front.len() implies !ends_on_count(
                after(offset, line_count, front.take(k)),
                line_count,
                #[trigger] front[k],
            ) by {
                assert(front.take(k) =~= steps.take(k));
            }
        }
        lemma_offset_on_a_line(offset, line_count, front);
        assert forall|k: int| 0 <= k <= steps.len() implies after(
            offset,
            line_count,
            #[trigger] steps.take(k),
        ) < line_count by {
            if k < steps.len() {
                assert(steps.take(k) =~= front.take(k));
            } else {
                assert(steps.take(k) =~= steps);
            }
        }
    }
}

/// At the first line a step up changes nothing. On the last line a step
/// down of two lines or more changes nothing.
pub proof fn lemma_steps_at_the_ends(line_count: nat, amount: nat)
    ensures
        up(0, amount) == 0,
        amount >= 2 ==> down(last_line(line_count), line_count, amount) == last_line(line_count),
{
}

} // verus!
