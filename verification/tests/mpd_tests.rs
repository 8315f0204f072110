use ashell::mpd::Message;
use ashell::mpd::Mpd;
use ashell::mpd::MpdCommand;
use ashell::mpd::SendFailure;

fn lines(v: &[&str]) -> Vec<String> {
    v.iter().map(|s| s.to_string()).collect()
}

#[test]
fn new_module_shows_nothing() {
    let m = Mpd::new();
    assert_eq!(m.view_value(), None);
    assert_eq!(m.volume_value(), None);
}

#[test]
fn messages_ask_for_their_commands() {
    let m = Mpd::new();
    assert_eq!(m.update(&Message::Update), vec![MpdCommand::CurrentSong]);
    assert_eq!(
        m.update(&Message::Prev),
        vec![MpdCommand::Previous, MpdCommand::CurrentSong]
    );
    assert_eq!(m.update(&Message::Play), vec![MpdCommand::Pause]);
    assert_eq!(
        m.update(&Message::Next),
        vec![MpdCommand::Next, MpdCommand::CurrentSong]
    );
    assert_eq!(m.update(&Message::Volume(57)), vec![MpdCommand::SetVol(57)]);
}

#[test]
fn out_of_range_volume_asks_nothing() {
    let m = Mpd::new();
    assert_eq!(m.update(&Message::Volume(101)), vec![]);
    assert_eq!(m.update(&Message::Volume(-1)), vec![]);
}

#[test]
fn song_response_shows_its_summary() {
    let mut m = Mpd::new();
    m.apply_response(
        &MpdCommand::CurrentSong,
        &Ok(lines(&["Artist: A", "Title: T"])),
        40,
    );
    assert_eq!(m.view_value(), Some("A - T".to_string()));
}

#[test]
fn song_summary_is_truncated_to_max_length() {
    let mut m = Mpd::new();
    m.apply_response(
        &MpdCommand::CurrentSong,
        &Ok(lines(&["Artist: Artist", "Title: Title"])),
        7,
    );
    assert_eq!(m.view_value(), Some("Artist ".to_string()));
}

#[test]
fn failed_song_read_clears_the_shown_line() {
    let mut m = Mpd::new();
    m.apply_response(&MpdCommand::CurrentSong, &Ok(lines(&["Artist: A"])), 40);
    m.apply_response(
        &MpdCommand::CurrentSong,
        &Err(SendFailure::Refused("ACK [5@0] {} bad".to_string())),
        40,
    );
    assert_eq!(m.view_value(), None);
}

#[test]
fn setvol_then_getvol_reports_the_set_value() {
    let mut m = Mpd::new();
    let cmds = m.update(&Message::Volume(57));
    assert_eq!(cmds, vec![MpdCommand::SetVol(57)]);
    m.apply_response(&MpdCommand::SetVol(57), &Ok(lines(&[])), 40);
    assert_eq!(m.volume_value(), Some(57));
    m.apply_response(&MpdCommand::GetVol, &Ok(lines(&["volume: 57"])), 40);
    assert_eq!(m.volume_value(), Some(57));
}

#[test]
fn refused_setvol_leaves_the_volume_alone() {
    let mut m = Mpd::new();
    m.apply_response(&MpdCommand::SetVol(20), &Ok(lines(&[])), 40);
    m.apply_response(
        &MpdCommand::SetVol(90),
        &Err(SendFailure::Refused("ACK".to_string())),
        40,
    );
    assert_eq!(m.volume_value(), Some(20));
}

#[test]
fn getvol_with_bogus_payload_reports_unknown() {
    let mut m = Mpd::new();
    m.apply_response(&MpdCommand::GetVol, &Ok(lines(&["bogus"])), 40);
    assert_eq!(m.volume_value(), None);
}

#[test]
fn repeated_update_with_unchanged_source_keeps_the_value() {
    let mut m = Mpd::new();
    let payload = lines(&["Artist: A", "Title: T"]);
    m.apply_response(&MpdCommand::CurrentSong, &Ok(payload.clone()), 40);
    let first = m.view_value();
    m.apply_response(&MpdCommand::CurrentSong, &Ok(payload.clone()), 40);
    assert_eq!(m.view_value(), first);
    m.apply_response(&MpdCommand::CurrentSong, &Ok(payload), 40);
    assert_eq!(m.view_value(), first);
}

#[test]
fn transport_commands_change_no_state() {
    let mut m = Mpd::new();
    m.apply_response(&MpdCommand::CurrentSong, &Ok(lines(&["Artist: A"])), 40);
    m.apply_response(&MpdCommand::Previous, &Ok(lines(&[])), 40);
    m.apply_response(&MpdCommand::Pause, &Ok(lines(&[])), 40);
    m.apply_response(&MpdCommand::Next, &Ok(lines(&[])), 40);
    assert_eq!(m.view_value(), Some("A".to_string()));
}
