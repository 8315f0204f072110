use ashell::mpd;
use ashell::mpd::MpdCommand;
use ashell::router::AppMessage;
use ashell::router::Router;
use ashell::title::Message;
use ashell::title::Title;
use ashell::title::WindowEvent;
use ashell::title::bridge_event;

#[test]
fn new_title_module_shows_nothing() {
    let t = Title::new();
    assert_eq!(t.view_value(), None);
}

#[test]
fn update_takes_the_carried_title() {
    let mut t = Title::new();
    t.update(Message::TitleChanged(Some("editor".to_string())));
    assert_eq!(t.view_value(), Some("editor".to_string()));
    t.update(Message::TitleChanged(None));
    assert_eq!(t.view_value(), None);
}

#[test]
fn change_event_bridges_to_its_title() {
    let m = bridge_event(WindowEvent::ActiveChanged(Some("foo".to_string())));
    assert!(matches!(m, Message::TitleChanged(Some(ref s)) if s == "foo"));
}

#[test]
fn close_event_bridges_to_no_title() {
    let m = bridge_event(WindowEvent::Closed);
    assert!(matches!(m, Message::TitleChanged(None)));
    let m = bridge_event(WindowEvent::ActiveChanged(None));
    assert!(matches!(m, Message::TitleChanged(None)));
}

#[test]
fn change_then_close_is_observed_in_order() {
    let mut r = Router::new();
    let m1 = bridge_event(WindowEvent::ActiveChanged(Some("foo".to_string())));
    let m2 = bridge_event(WindowEvent::Closed);
    let cmds = r.dispatch(AppMessage::Title(m1));
    assert!(cmds.is_empty());
    assert_eq!(r.title.view_value(), Some("foo".to_string()));
    let cmds = r.dispatch(AppMessage::Title(m2));
    assert!(cmds.is_empty());
    assert_eq!(r.title.view_value(), None);
}

#[test]
fn router_hands_each_message_to_its_own_module() {
    let mut r = Router::new();
    r.dispatch(AppMessage::Title(Message::TitleChanged(Some(
        "term".to_string(),
    ))));
    let cmds = r.dispatch(AppMessage::Mpd(mpd::Message::Update));
    assert_eq!(cmds, vec![MpdCommand::CurrentSong]);
    assert_eq!(r.title.view_value(), Some("term".to_string()));
    assert_eq!(r.mpd.view_value(), None);
}

#[test]
fn router_routes_responses_to_the_music_module_only() {
    let mut r = Router::new();
    r.dispatch(AppMessage::Title(Message::TitleChanged(Some(
        "term".to_string(),
    ))));
    let payload: Vec<String> = vec!["Artist: A".to_string()];
    r.apply_mpd_response(&MpdCommand::CurrentSong, &Ok(payload), 40);
    assert_eq!(r.mpd.view_value(), Some("A".to_string()));
    assert_eq!(r.title.view_value(), Some("term".to_string()));
}
