//! Field writes: what both ingestors reduce a message to, and what a list of
//! them does to a colour.

use crate::rgb_led::LogicalColor;
use vstd::prelude::*;

verus! {

/// Whether `byte` is one of the channel letters `r`, `g`, `b`, `a`.
pub open spec fn is_channel(byte: u8) -> bool {
    byte == 114 || byte == 103 || byte == 98 || byte == 97
}

/// `color` with the field that `channel` names set to `value`. A byte that
/// names no field changes nothing.
pub open spec fn with_channel(color: LogicalColor, channel: u8, value: u8) -> LogicalColor {
    if channel == 114 {
        LogicalColor { r: value, g: color.g, b: color.b, a: color.a }
    } else if channel == 103 {
        LogicalColor { r: color.r, g: value, b: color.b, a: color.a }
    } else if channel == 98 {
        LogicalColor { r: color.r, g: color.g, b: value, a: color.a }
    } else if channel == 97 {
        LogicalColor { r: color.r, g: color.g, b: color.b, a: value }
    } else {
        color
    }
}

/// The colour after a list of writes, each a channel letter and a value,
/// applied in order.
pub open spec fn writes_applied(color: LogicalColor, writes: Seq<(u8, u8)>) -> LogicalColor
    decreases writes.len(),
{
    if writes.len() == 0 {
        color
    } else {
        with_channel(
            writes_applied(color, writes.drop_last()),
            writes.last().0,
            writes.last().1,
        )
    }
}

/// The value of the last write to `channel`, if there is one.
pub open spec fn last_write(writes: Seq<(u8, u8)>, channel: u8) -> Option<u8>
    decreases writes.len(),
{
    if writes.len() == 0 {
        None
    } else if writes.last().0 == channel {
        Some(writes.last().1)
    } else {
        last_write(writes.drop_last(), channel)
    }
}

/// A field after a possible write: the value written, or the one kept.
pub open spec fn written_or(write: Option<u8>, kept: u8) -> u8 {
    match write {
        Some(value) => value,
        None => kept,
    }
}

/// Whether no two writes of the list go to the same channel.
pub open spec fn distinct_channels(writes: Seq<(u8, u8)>) -> bool {
    forall|i: int, j: int| 0 <= i < j < writes.len() ==> writes[i].0 != writes[j].0
}

/// Sets the field of `rgba` that `channel` names.
pub fn set_channel(rgba: &mut LogicalColor, channel: u8, value: u8)
    ensures
        *final(rgba) == with_channel(*old(rgba), channel, value),
{
    if channel == 114 {
        rgba.r = value;
    } else if channel == 103 {
        rgba.g = value;
    } else if channel == 98 {
        rgba.b = value;
    } else if channel == 97 {
        rgba.a = value;
    }
}

/// Each field ends up with the value of the last write to it, and a field
/// that nothing was written to keeps its value.
pub proof fn lemma_last_write_wins(color: LogicalColor, writes: Seq<(u8, u8)>)
    ensures
        writes_applied(color, writes) == (LogicalColor {
            r: written_or(last_write(writes, 114), color.r),
            g: written_or(last_write(writes, 103), color.g),
            b: written_or(last_write(writes, 98), color.b),
            a: written_or(last_write(writes, 97), color.a),
        }),
    decreases writes.len(),
{
    if writes.len() > 0 {
        lemma_last_write_wins(color, writes.drop_last());
    }
}

/// The last write to a channel is one of the writes; where there is none,
/// no write names the channel.
pub proof fn lemma_last_write_was_written(writes: Seq<(u8, u8)>, channel: u8)
    ensures
        match last_write(writes, channel) {
            Some(value) => writes.contains((channel, value)),
            None => forall|i: int| 0 <= i < writes.len() ==> (#[trigger] writes[i]).0 != channel,
        },
    decreases writes.len(),
{
    if writes.len() > 0 {
        let init = writes.drop_last();
        lemma_last_write_was_written(init, channel);
        if writes.last().0 == channel {
            assert(writes[writes.len() - 1] == (channel, writes.last().1));
        } else {
            match last_write(init, channel) {
                Some(value) => {
                    let i = choose|i: int| 0 <= i < init.len() && init[i] == (channel, value);
                    assert(writes[i] == (channel, value));
                },
                None => {
                    assert forall|i: int| 0 <= i < writes.len() implies (#[trigger] writes[i]).0
                        != channel by {
                        if i < init.len() {
                            assert(init[i] == writes[i]);
                        }
                    }
                },
            }
        }
    }
}

/// No field ever holds a value that it did not start with and that nothing
/// wrote to it.
pub proof fn lemma_fields_are_kept_or_written(color: LogicalColor, writes: Seq<(u8, u8)>)
    ensures
        ({
            let after = writes_applied(color, writes);
            &&& after.r == color.r || writes.contains((114u8, after.r))
            &&& after.g == color.g || writes.contains((103u8, after.g))
            &&& after.b == color.b || writes.contains((98u8, after.b))
            &&& after.a == color.a || writes.contains((97u8, after.a))
        }),
{
    lemma_last_write_wins(color, writes);
    lemma_last_write_was_written(writes, 114);
    lemma_last_write_was_written(writes, 103);
    lemma_last_write_was_written(writes, 98);
    lemma_last_write_was_written(writes, 97);
}

/// Applying the same writes a second time changes nothing.
pub proof fn lemma_writes_are_idempotent(color: LogicalColor, writes: Seq<(u8, u8)>)
    ensures
        writes_applied(writes_applied(color, writes), writes) == writes_applied(color, writes),
{
    lemma_last_write_wins(color, writes);
    lemma_last_write_wins(writes_applied(color, writes), writes);
}

proof fn lemma_same_last_write(first: Seq<(u8, u8)>, second: Seq<(u8, u8)>, channel: u8)
    requires
        distinct_channels(first),
        first.to_multiset() == second.to_multiset(),
    ensures
        last_write(first, channel) == last_write(second, channel),
{
    first.to_multiset_ensures();
    second.to_multiset_ensures();
    lemma_last_write_was_written(first, channel);
    lemma_last_write_was_written(second, channel);
    match last_write(second, channel) {
        Some(theirs) => {
            assert(second.to_multiset().count((channel, theirs)) > 0);
            assert(first.contains((channel, theirs)));
            let j = choose|j: int| 0 <= j < first.len() && first[j] == (channel, theirs);
            match last_write(first, channel) {
                Some(ours) => {
                    let i = choose|i: int| 0 <= i < first.len() && first[i] == (channel, ours);
                    if i < j {
                        assert(first[i].0 != first[j].0);
                    } else if j < i {
                        assert(first[j].0 != first[i].0);
                    }
                },
                None => {
                    assert(first[j].0 == channel);
                },
            }
        },
        None => {
            match last_write(first, channel) {
                Some(ours) => {
                    assert(first.to_multiset().count((channel, ours)) > 0);
                    assert(second.contains((channel, ours)));
                    let i = choose|i: int| 0 <= i < second.len() && second[i] == (channel, ours);
                    assert(second[i].0 == channel);
                },
                None => {},
            }
        },
    }
}

/// Writes to distinct fields give the same colour in whatever order they
/// are applied: exclusive updates that are merely reordered lose nothing and
/// mix nothing.
pub proof fn lemma_exclusive_writes_commute(
    color: LogicalColor,
    first: Seq<(u8, u8)>,
    second: Seq<(u8, u8)>,
)
    requires
        distinct_channels(first),
        first.to_multiset() == second.to_multiset(),
    ensures
        writes_applied(color, first) == writes_applied(color, second),
{
    lemma_last_write_wins(color, first);
    lemma_last_write_wins(color, second);
    lemma_same_last_write(first, second, 114);
    lemma_same_last_write(first, second, 103);
    lemma_same_last_write(first, second, 98);
    lemma_same_last_write(first, second, 97);
}

/// One update after another is one update with the writes of both.
pub proof fn lemma_updates_compose(
    color: LogicalColor,
    first: Seq<(u8, u8)>,
    second: Seq<(u8, u8)>,
)
    ensures
        writes_applied(writes_applied(color, first), second) == writes_applied(
            color,
            first + second,
        ),
    decreases second.len(),
{
    if second.len() == 0 {
        assert(first + second =~= first);
    } else {
        lemma_updates_compose(color, first, second.drop_last());
        assert((first + second).drop_last() =~= first + second.drop_last());
    }
}

/// Two exclusive updates that write to distinct fields give the same colour
/// whichever of them gets the record first.
pub proof fn lemma_exclusive_updates_commute(
    color: LogicalColor,
    first: Seq<(u8, u8)>,
    second: Seq<(u8, u8)>,
)
    requires
        distinct_channels(first + second),
    ensures
        writes_applied(writes_applied(color, first), second) == writes_applied(
            writes_applied(color, second),
            first,
        ),
{
    lemma_updates_compose(color, first, second);
    lemma_updates_compose(color, second, first);
    vstd::seq_lib::lemma_seq_union_to_multiset_commutative(first, second);
    lemma_exclusive_writes_commute(color, first + second, second + first);
}

} // verus!
