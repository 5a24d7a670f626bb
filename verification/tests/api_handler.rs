use netlight::api_handler::{
    color_reply, csv_body, set_reply, GetRGBAHandler, HandlerFailure, HelpHandler, SetRGBAHandler,
};
use netlight::color_state::{ColorState, Committed, LockUnavailable};
use netlight::rgb_led::{LogicalColor, PhysicalColor};
use std::sync::Arc;

fn shared(r: u8, g: u8, b: u8, a: u8) -> Arc<ColorState> {
    Arc::new(ColorState::new(LogicalColor { r, g, b, a }))
}

#[test]
fn csv_body_is_four_decimal_fields() {
    assert_eq!(csv_body(&LogicalColor { r: 0, g: 0, b: 0, a: 255 }), b"0,0,0,255".to_vec());
    assert_eq!(csv_body(&LogicalColor { r: 10, g: 20, b: 30, a: 40 }), b"10,20,30,40".to_vec());
    assert_eq!(csv_body(&LogicalColor { r: 255, g: 100, b: 9, a: 0 }), b"255,100,9,0".to_vec());
}

#[test]
fn get_answers_with_the_current_colour() {
    let state = shared(0, 0, 0, 255);
    let get = GetRGBAHandler::new(Arc::clone(&state));
    assert_eq!(get.handle(), Ok(b"0,0,0,255".to_vec()));
    state.commit_udp_msg(b"r=1,g=2,b=3,a=4").unwrap();
    assert_eq!(get.handle(), Ok(b"1,2,3,4".to_vec()));
    assert_eq!(get.handle(), Ok(b"1,2,3,4".to_vec()));
    assert_eq!(state.snapshot(), Ok(LogicalColor { r: 1, g: 2, b: 3, a: 4 }));
}

#[test]
fn set_merges_renders_and_echoes() {
    let state = shared(0, 0, 0, 255);
    let set = SetRGBAHandler::new(Arc::clone(&state));
    let reply = set.handle("/setRGBA?r=255&g=100&b=1&a=128").unwrap();
    assert_eq!(reply.change.before, LogicalColor { r: 0, g: 0, b: 0, a: 255 });
    assert_eq!(reply.change.after, LogicalColor { r: 255, g: 100, b: 1, a: 128 });
    assert_eq!(reply.render, PhysicalColor { r: 128, g: 50, b: 1 });
    assert_eq!(reply.body, b"255,100,1,128".to_vec());
    assert_eq!(state.snapshot(), Ok(LogicalColor { r: 255, g: 100, b: 1, a: 128 }));
}

#[test]
fn set_updates_any_subset_of_fields() {
    let state = shared(1, 2, 3, 4);
    let set = SetRGBAHandler::new(Arc::clone(&state));
    assert_eq!(set.handle("/setRGBA?b=77").unwrap().body, b"1,2,77,4".to_vec());
    assert_eq!(set.handle("/setRGBA").unwrap().body, b"1,2,77,4".to_vec());
    assert_eq!(set.handle("/setRGBA?a=0&r=9").unwrap().body, b"9,2,77,0".to_vec());
}

#[test]
fn set_resets_a_field_whose_value_fails_to_parse() {
    let state = shared(9, 9, 9, 9);
    let set = SetRGBAHandler::new(Arc::clone(&state));
    let reply = set.handle("/setRGBA?r=abc&g=5").unwrap();
    assert_eq!(reply.change.after, LogicalColor { r: 0, g: 5, b: 9, a: 9 });
    assert_eq!(reply.body, b"0,5,9,9".to_vec());
}

#[test]
fn set_ignores_unknown_keys() {
    let state = shared(1, 2, 3, 4);
    let set = SetRGBAHandler::new(Arc::clone(&state));
    let reply = set.handle("/setRGBA?speed=3&r=8&colour=red").unwrap();
    assert_eq!(reply.body, b"8,2,3,4".to_vec());
}

#[test]
fn set_is_idempotent() {
    let state = shared(1, 2, 3, 4);
    let set = SetRGBAHandler::new(Arc::clone(&state));
    let first = set.handle("/setRGBA?r=abc&g=5&a=200").unwrap();
    let second = set.handle("/setRGBA?r=abc&g=5&a=200").unwrap();
    assert_eq!(second.change.after, first.change.after);
    assert_eq!(second.change.before, first.change.after);
    assert_eq!(second.body, first.body);
    assert_eq!(second.render, first.render);
    assert_eq!(state.snapshot(), Ok(first.change.after));
}

#[test]
fn set_fails_on_an_unresolvable_uri_and_leaves_the_record() {
    let state = shared(1, 2, 3, 4);
    let set = SetRGBAHandler::new(Arc::clone(&state));
    assert_eq!(set.handle("http://[::1?r=9").err(), Some(HandlerFailure::UrlParse));
    assert_eq!(state.snapshot(), Ok(LogicalColor { r: 1, g: 2, b: 3, a: 4 }));
}

#[test]
fn replies_for_given_outcomes() {
    assert_eq!(color_reply(Ok(LogicalColor { r: 4, g: 3, b: 2, a: 1 })), Ok(b"4,3,2,1".to_vec()));
    assert_eq!(color_reply(Err(LockUnavailable)), Err(HandlerFailure::ReadLock));
    let change = Committed {
        before: LogicalColor { r: 0, g: 0, b: 0, a: 255 },
        after: LogicalColor { r: 200, g: 0, b: 10, a: 51 },
    };
    let reply = set_reply(Ok(change)).unwrap();
    assert_eq!(reply.change, change);
    assert_eq!(reply.render, PhysicalColor { r: 40, g: 0, b: 2 });
    assert_eq!(reply.body, b"200,0,10,51".to_vec());
    assert_eq!(set_reply(Err(LockUnavailable)).err(), Some(HandlerFailure::WriteLock));
}

#[test]
fn failures_carry_status_400_and_a_diagnostic() {
    assert_eq!(HandlerFailure::UrlParse.status(), 400);
    assert_eq!(HandlerFailure::ReadLock.status(), 400);
    assert_eq!(HandlerFailure::WriteLock.status(), 400);
    assert_eq!(HandlerFailure::UrlParse.message(), "parse URL from request");
    assert_eq!(HandlerFailure::ReadLock.message(), "could not get read lock");
    assert_eq!(HandlerFailure::WriteLock.message(), "could not get write lock");
}

#[test]
fn help_lists_the_routes() {
    let help = HelpHandler::new().handle();
    assert!(help.starts_with("<h1>Help - Supported functions</h1>"));
    assert!(help.contains("<b>/help</b> - shows this help page</br>"));
    assert!(help.contains("<b>/setRGBA?r=VALUE&g=VALUE&b=VALUE&a=VALUE</b>"));
    assert!(help.contains("<b>/getRGBA</b>"));
}
