//! The UDP text protocol: `channel=value` assignments separated by commas,
//! optionally ended by a line feed.

use crate::decimal::{atoi_u8, leading_number};
use crate::rgb_led::LogicalColor;
use crate::writes::{is_channel, set_channel, with_channel, writes_applied};
use vstd::prelude::*;
use vstd::slice::slice_subrange;

verus! {

/// Whether `byte` ends an assignment: a comma or a line feed.
pub open spec fn is_terminator(byte: u8) -> bool {
    byte == 44 || byte == 10
}

/// Whether position `at` holds an `=` directly behind a channel letter.
pub open spec fn names_channel(msg: Seq<u8>, at: int) -> bool {
    0 < at < msg.len() && msg[at] == 61 && is_channel(msg[at - 1])
}

/// The position of the last `=` before `end` that names a channel, or zero
/// where there is none. (Position zero itself never names a channel.)
pub open spec fn last_assignment(msg: Seq<u8>, end: int) -> int
    decreases end,
{
    if end <= 0 {
        0
    } else if names_channel(msg, end - 1) {
        end - 1
    } else {
        last_assignment(msg, end - 1)
    }
}

/// Whether an assignment ends at position `at`: at a terminator, or at the
/// end of the message.
pub open spec fn ends_segment(msg: Seq<u8>, at: int) -> bool {
    at == msg.len() || (0 <= at < msg.len() && is_terminator(msg[at]))
}

/// The write that an assignment ending at position `at` makes: the bytes
/// behind the last `=` that names a channel are read as a number for that
/// channel. There is none where no channel was named yet, or where the bytes
/// hold no number that fits.
pub open spec fn segment_write(msg: Seq<u8>, at: int) -> Option<(u8, u8)> {
    let eq = last_assignment(msg, at);
    if eq > 0 {
        match leading_number(msg.subrange(eq + 1, at)) {
            Some(value) => Some((msg[eq - 1], value)),
            None => None,
        }
    } else {
        None
    }
}

/// The writes of the assignments that end before position `end`, in order.
pub open spec fn assignments(msg: Seq<u8>, end: int) -> Seq<(u8, u8)>
    decreases end,
{
    if end <= 0 {
        Seq::empty()
    } else {
        let before = assignments(msg, end - 1);
        if ends_segment(msg, end - 1) {
            match segment_write(msg, end - 1) {
                Some(write) => before.push(write),
                None => before,
            }
        } else {
            before
        }
    }
}

/// The writes of a whole message, the assignment that the end of the message
/// cuts off included.
pub open spec fn udp_writes(msg: Seq<u8>) -> Seq<(u8, u8)> {
    assignments(msg, msg.len() as int + 1)
}

/// The colour after a whole message.
pub open spec fn udp_updated(msg: Seq<u8>, color: LogicalColor) -> LogicalColor {
    writes_applied(color, udp_writes(msg))
}

/// Every write of a message goes to one of the four channels.
pub proof fn lemma_assignments_name_channels(msg: Seq<u8>, end: int)
    ensures
        forall|i: int|
            0 <= i < assignments(msg, end).len() ==> is_channel(
                (#[trigger] assignments(msg, end)[i]).0,
            ),
    decreases end,
{
    if end > 0 {
        lemma_assignments_name_channels(msg, end - 1);
        lemma_last_assignment_names_channel(msg, end - 1);
        let before = assignments(msg, end - 1);
        let all = assignments(msg, end);
        assert forall|i: int| 0 <= i < all.len() implies is_channel((#[trigger] all[i]).0) by {
            if i < before.len() {
                assert(all[i] == before[i]);
            }
        }
    }
}

/// The last assignment before a position lies before it and names a channel.
proof fn lemma_last_assignment_names_channel(msg: Seq<u8>, end: int)
    ensures
        last_assignment(msg, end) == 0 || (last_assignment(msg, end) < end && names_channel(
            msg,
            last_assignment(msg, end),
        )),
    decreases end,
{
    if end > 0 && !names_channel(msg, end - 1) {
        lemma_last_assignment_names_channel(msg, end - 1);
    }
}

/// Applies the assignment that ends at `at`, given the last `=` before it.
fn apply_segment(msg_arr: &[u8], rgba: &mut LogicalColor, last_eq: usize, at: usize)
    requires
        at <= msg_arr@.len(),
        last_eq == last_assignment(msg_arr@, at as int),
        last_eq == 0 || last_eq < at,
    ensures
        *final(rgba) == match segment_write(msg_arr@, at as int) {
            Some(write) => with_channel(*old(rgba), write.0, write.1),
            None => *old(rgba),
        },
{
    if last_eq > 0 {
        let digits = slice_subrange(msg_arr, last_eq + 1, at);
        if let Some(value) = atoi_u8(digits) {
            set_channel(rgba, msg_arr[last_eq - 1], value);
        }
    }
}

/// Updates `rgba` from one datagram in a single pass over its bytes.
///
/// Malformed assignments are skipped one by one: an unknown channel letter,
/// or a value that is no number or does not fit, leaves every field as it
/// was, and the scan goes on behind the next terminator.
pub fn update_rgba_from_udp_msg(msg_arr: &[u8], rgba: &mut LogicalColor)
    ensures
        *final(rgba) == udp_updated(msg_arr@, *old(rgba)),
{
    let ghost initial = *rgba;
    let len: usize = msg_arr.len();
    let mut last_eq: usize = 0;
    let mut idx: usize = 0;
    while idx < len
        invariant
            idx <= len,
            len == msg_arr@.len(),
            last_eq == last_assignment(msg_arr@, idx as int),
            last_eq == 0 || last_eq < idx,
            *rgba == writes_applied(initial, assignments(msg_arr@, idx as int)),
        decreases len - idx,
    {
        let byte: u8 = msg_arr[idx];
        if byte == 61 {
            if idx > 0 {
                let before: u8 = msg_arr[idx - 1];
                if before == 114 || before == 103 || before == 98 || before == 97 {
                    last_eq = idx;
                }
            }
        } else if byte == 44 || byte == 10 {
            proof {
                lemma_push_applies(initial, assignments(msg_arr@, idx as int), msg_arr@, idx as int);
            }
            apply_segment(msg_arr, rgba, last_eq, idx);
        }
        idx = idx + 1;
    }
    proof {
        lemma_push_applies(initial, assignments(msg_arr@, len as int), msg_arr@, len as int);
    }
    apply_segment(msg_arr, rgba, last_eq, len);
}

/// Applying one more write is one more step of `writes_applied`.
proof fn lemma_push_applies(color: LogicalColor, before: Seq<(u8, u8)>, msg: Seq<u8>, at: int)
    ensures
        match segment_write(msg, at) {
            Some(write) => writes_applied(color, before.push(write)) == with_channel(
                writes_applied(color, before),
                write.0,
                write.1,
            ),
            None => true,
        },
{
    match segment_write(msg, at) {
        Some(write) => {
            assert(before.push(write).drop_last() =~= before);
        },
        None => {},
    }
}

} // verus!
