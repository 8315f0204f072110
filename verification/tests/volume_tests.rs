use ashell::mpd::MpdCommand;
use ashell::mpd::command_line;
use ashell::volume::parse_volume_line;
use ashell::volume::parse_volume_payload;

fn lines(v: &[&str]) -> Vec<String> {
    v.iter().map(|s| s.to_string()).collect()
}

#[test]
fn volume_57_parses() {
    assert_eq!(parse_volume_payload(&lines(&["volume: 57"])), Some(57));
}

#[test]
fn bogus_line_reports_no_volume() {
    assert_eq!(parse_volume_payload(&lines(&["bogus"])), None);
}

#[test]
fn empty_payload_reports_no_volume() {
    assert_eq!(parse_volume_payload(&lines(&[])), None);
}

#[test]
fn bounds_are_inclusive() {
    assert_eq!(parse_volume_line("volume: 0"), Some(0));
    assert_eq!(parse_volume_line("volume: 100"), Some(100));
}

#[test]
fn out_of_protocol_values_report_no_volume() {
    assert_eq!(parse_volume_line("volume: 101"), None);
    assert_eq!(parse_volume_line("volume: 3000"), None);
    assert_eq!(parse_volume_line("volume: -5"), None);
}

#[test]
fn malformed_numbers_report_no_volume() {
    assert_eq!(parse_volume_line("volume: "), None);
    assert_eq!(parse_volume_line("volume: 5a"), None);
    assert_eq!(parse_volume_line("volume:57"), None);
}

#[test]
fn leading_zeros_are_digits() {
    assert_eq!(parse_volume_line("volume: 007"), Some(7));
}

#[test]
fn command_lines_render_exactly() {
    assert_eq!(command_line(&MpdCommand::CurrentSong), "currentsong\n");
    assert_eq!(command_line(&MpdCommand::GetVol), "getvol\n");
    assert_eq!(command_line(&MpdCommand::Previous), "previous\n");
    assert_eq!(command_line(&MpdCommand::Next), "next\n");
    assert_eq!(command_line(&MpdCommand::Pause), "pause\n");
}

#[test]
fn setvol_renders_its_value_in_decimal() {
    assert_eq!(command_line(&MpdCommand::SetVol(0)), "setvol 0\n");
    assert_eq!(command_line(&MpdCommand::SetVol(7)), "setvol 7\n");
    assert_eq!(command_line(&MpdCommand::SetVol(57)), "setvol 57\n");
    assert_eq!(command_line(&MpdCommand::SetVol(100)), "setvol 100\n");
}
