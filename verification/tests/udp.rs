use netlight::rgb_led::LogicalColor;
use netlight::udp_ingest::update_rgba_from_udp_msg;
use netlight::writes::set_channel;

fn after(msg: &[u8], r: u8, g: u8, b: u8, a: u8) -> LogicalColor {
    let mut color = LogicalColor { r, g, b, a };
    update_rgba_from_udp_msg(msg, &mut color);
    color
}

#[test]
fn all_four_channels_are_updated() {
    assert_eq!(
        after(b"r=10,g=20,b=30,a=40", 1, 2, 3, 4),
        LogicalColor { r: 10, g: 20, b: 30, a: 40 }
    );
}

#[test]
fn a_line_feed_may_end_the_message() {
    assert_eq!(
        after(b"r=10,g=20,b=30,a=40\n", 1, 2, 3, 4),
        LogicalColor { r: 10, g: 20, b: 30, a: 40 }
    );
    assert_eq!(after(b"g=200\n", 1, 2, 3, 4), LogicalColor { r: 1, g: 200, b: 3, a: 4 });
}

#[test]
fn unknown_channel_is_ignored() {
    assert_eq!(after(b"r=10,x=20,b=30", 1, 2, 3, 4), LogicalColor { r: 10, g: 2, b: 30, a: 4 });
    assert_eq!(after(b"x=20", 1, 2, 3, 4), LogicalColor { r: 1, g: 2, b: 3, a: 4 });
    assert_eq!(after(b"R=20,G=1\n", 1, 2, 3, 4), LogicalColor { r: 1, g: 2, b: 3, a: 4 });
}

#[test]
fn value_out_of_range_leaves_the_field() {
    assert_eq!(after(b"r=999,g=5", 1, 2, 3, 4), LogicalColor { r: 1, g: 5, b: 3, a: 4 });
    assert_eq!(after(b"r=256\n", 1, 2, 3, 4), LogicalColor { r: 1, g: 2, b: 3, a: 4 });
    assert_eq!(after(b"r=255\n", 1, 2, 3, 4), LogicalColor { r: 255, g: 2, b: 3, a: 4 });
}

#[test]
fn value_that_is_no_number_leaves_the_field() {
    assert_eq!(after(b"r=abc,g=5\n", 1, 2, 3, 4), LogicalColor { r: 1, g: 5, b: 3, a: 4 });
    assert_eq!(after(b"r=,g=5\n", 1, 2, 3, 4), LogicalColor { r: 1, g: 5, b: 3, a: 4 });
    assert_eq!(after(b"r= 7\n", 1, 2, 3, 4), LogicalColor { r: 1, g: 2, b: 3, a: 4 });
    assert_eq!(after(b"r=-1\n", 1, 2, 3, 4), LogicalColor { r: 1, g: 2, b: 3, a: 4 });
}

#[test]
fn digits_are_read_up_to_the_first_other_byte() {
    assert_eq!(after(b"r=12x\n", 1, 2, 3, 4), LogicalColor { r: 12, g: 2, b: 3, a: 4 });
    assert_eq!(after(b"r=007\n", 1, 2, 3, 4), LogicalColor { r: 7, g: 2, b: 3, a: 4 });
    assert_eq!(after(b"r=+9\n", 1, 2, 3, 4), LogicalColor { r: 9, g: 2, b: 3, a: 4 });
    assert_eq!(after(b"r=3 4\n", 1, 2, 3, 4), LogicalColor { r: 3, g: 2, b: 3, a: 4 });
}

#[test]
fn a_bare_sign_reads_as_zero() {
    assert_eq!(after(b"r=+\n", 1, 2, 3, 4), LogicalColor { r: 0, g: 2, b: 3, a: 4 });
    assert_eq!(after(b"g=-\n", 1, 2, 3, 4), LogicalColor { r: 1, g: 0, b: 3, a: 4 });
    assert_eq!(after(b"b=-0\n", 1, 2, 3, 4), LogicalColor { r: 1, g: 2, b: 0, a: 4 });
}

#[test]
fn empty_and_garbage_messages_change_nothing() {
    let garbage: [&[u8]; 8] =
        [b"", b"\n", b",", b"=", b"=5\n", b"rgba", b",,,,\n\n", b"\xff\x00=\x80,"];
    for msg in garbage {
        assert_eq!(after(msg, 1, 2, 3, 4), LogicalColor { r: 1, g: 2, b: 3, a: 4 });
    }
}

#[test]
fn later_assignment_to_a_channel_wins() {
    assert_eq!(after(b"r=1,r=2,r=3", 9, 9, 9, 9), LogicalColor { r: 3, g: 9, b: 9, a: 9 });
    assert_eq!(after(b"r=1,r=300\n", 9, 9, 9, 9), LogicalColor { r: 1, g: 9, b: 9, a: 9 });
}

#[test]
fn channel_letter_is_the_byte_before_the_equal_sign() {
    assert_eq!(after(b"xxr=5\n", 1, 2, 3, 4), LogicalColor { r: 5, g: 2, b: 3, a: 4 });
    assert_eq!(after(b"rg=5\n", 1, 2, 3, 4), LogicalColor { r: 1, g: 5, b: 3, a: 4 });
    assert_eq!(after(b"r =5\n", 1, 2, 3, 4), LogicalColor { r: 1, g: 2, b: 3, a: 4 });
}

#[test]
fn second_equal_sign_restarts_the_value() {
    // The value is read from behind the last `=` that follows a channel.
    assert_eq!(after(b"r=1g=2\n", 7, 7, 7, 7), LogicalColor { r: 7, g: 2, b: 7, a: 7 });
    assert_eq!(after(b"r=1=2\n", 7, 7, 7, 7), LogicalColor { r: 1, g: 7, b: 7, a: 7 });
}

#[test]
fn a_full_receive_buffer_is_scanned_to_its_end() {
    let msg: &[u8; 24] = b"r=255,g=255,b=255,a=255\n";
    assert_eq!(after(msg, 0, 0, 0, 0), LogicalColor { r: 255, g: 255, b: 255, a: 255 });
    let cut: &[u8; 24] = b"r=255,g=255,b=255,a=2555";
    assert_eq!(after(cut, 0, 0, 0, 0), LogicalColor { r: 255, g: 255, b: 255, a: 0 });
}

#[test]
fn the_same_message_twice_changes_nothing_more() {
    let msgs: [&[u8]; 4] = [b"r=10,g=20,b=30,a=40", b"r=999,g=5", b"r=1,r=2\n", b"a=0,x=1,b=9"];
    for msg in msgs {
        let once = after(msg, 1, 2, 3, 4);
        let mut twice = once;
        update_rgba_from_udp_msg(msg, &mut twice);
        assert_eq!(twice, once);
    }
}

#[test]
fn set_channel_writes_one_field() {
    let mut color = LogicalColor { r: 1, g: 2, b: 3, a: 4 };
    set_channel(&mut color, b'r', 10);
    assert_eq!(color, LogicalColor { r: 10, g: 2, b: 3, a: 4 });
    set_channel(&mut color, b'g', 20);
    set_channel(&mut color, b'b', 30);
    set_channel(&mut color, b'a', 40);
    assert_eq!(color, LogicalColor { r: 10, g: 20, b: 30, a: 40 });
    set_channel(&mut color, b'x', 50);
    assert_eq!(color, LogicalColor { r: 10, g: 20, b: 30, a: 40 });
}
