use vstd::prelude::*;

use crate::digits::dec_rep;
use crate::digits::dec_string;
use crate::strutil::lines_view;
use crate::strutil::take_at_most;
use crate::strutil::truncate_chars;
use crate::track::summary_spec;
use crate::track::track_summary;
use crate::volume::parse_volume_payload;
use crate::volume::parse_volume_payload_spec;
use crate::volume::volume_report;

verus! {

/// One command of the music-control wire protocol.
#[derive(Clone, Copy, Debug, PartialEq, Eq, Structural)]
pub enum MpdCommand {
    CurrentSong,
    GetVol,
    SetVol(i32),
    Previous,
    Next,
    Pause,
}

/// A command the protocol can carry: a volume is set only within 0..=100.
pub open spec fn command_wf(c: MpdCommand) -> bool {
    match c {
        MpdCommand::SetVol(v) => 0 <= v <= 100,
        _ => true,
    }
}

/// The outbound line for a command, newline-terminated.
pub open spec fn command_line_spec(c: MpdCommand) -> Seq<char> {
    match c {
        MpdCommand::CurrentSong => "currentsong\n"@,
        MpdCommand::GetVol => "getvol\n"@,
        MpdCommand::SetVol(v) => "setvol "@ + dec_rep(v as int) + "\n"@,
        MpdCommand::Previous => "previous\n"@,
        MpdCommand::Next => "next\n"@,
        MpdCommand::Pause => "pause\n"@,
    }
}

/// Render the outbound line for a command.
pub fn command_line(c: &MpdCommand) -> (r: String)
    requires
        command_wf(*c),
    ensures
        r@ == command_line_spec(*c),
{
    match c {
        MpdCommand::CurrentSong => String::from_str("currentsong\n"),
        MpdCommand::GetVol => String::from_str("getvol\n"),
        MpdCommand::SetVol(v) => {
            let mut out = String::from_str("setvol ");
            let digits = dec_string((*v) as u32);
            out.append(digits.as_str());
            out.append("\n");
            out
        },
        MpdCommand::Previous => String::from_str("previous\n"),
        MpdCommand::Next => String::from_str("next\n"),
        MpdCommand::Pause => String::from_str("pause\n"),
    }
}

/// Why a command brought no payload back.
pub enum SendFailure {
    /// The server answered with an `ACK` line; it is carried here.
    Refused(String),
    /// The connection failed while writing or reading.
    ConnectionLost(String),
}

/// What reached the module for one issued command: the framed payload of
/// a completed response, or some failure.
pub ghost enum Outcome {
    Success { payload: Seq<Seq<char>> },
    Failure,
}

pub open spec fn outcome_of(r: Result<Vec<String>, SendFailure>) -> Outcome {
    match r {
        Ok(payload) => Outcome::Success { payload: lines_view(payload@) },
        Err(_) => Outcome::Failure,
    }
}

/// The music module's state: the shown track line and the known volume.
pub struct Mpd {
    pub value: Option<String>,
    pub volume: Option<i32>,
}

/// The music module's state as mathematical values.
pub ghost struct MpdView {
    pub value: Option<Seq<char>>,
    pub volume: Option<int>,
}

impl View for Mpd {
    type V = MpdView;

    open spec fn view(&self) -> MpdView {
        MpdView {
            value: match self.value {
                Some(s) => Some(s@),
                None => None,
            },
            volume: match self.volume {
                Some(v) => Some(v as int),
                None => None,
            },
        }
    }
}

/// The messages the music module consumes.
#[derive(Debug, Clone)]
pub enum Message {
    Update,
    Prev,
    Play,
    Next,
    Volume(i32),
}

/// The commands a message asks the server for. A refresh reads the
/// current song; a skip moves and then reads the song it landed on; a
/// volume request within 0..=100 sets the volume, and any other volume
/// request asks nothing of the server.
pub open spec fn update_commands(m: Message) -> Seq<MpdCommand> {
    match m {
        Message::Update => seq![MpdCommand::CurrentSong],
        Message::Prev => seq![MpdCommand::Previous, MpdCommand::CurrentSong],
        Message::Play => seq![MpdCommand::Pause],
        Message::Next => seq![MpdCommand::Next, MpdCommand::CurrentSong],
        Message::Volume(v) => if 0 <= v <= 100 {
            seq![MpdCommand::SetVol(v)]
        } else {
            Seq::empty()
        },
    }
}

/// How one command's outcome moves the module's state. A read of the
/// current song shows its summary cut to `max` characters, or clears the
/// shown line when the read failed; a volume read takes whatever the
/// payload reports; a successful volume change remembers the set value;
/// transport commands change nothing themselves.
pub open spec fn mpd_apply(s: MpdView, cmd: MpdCommand, o: Outcome, max: int) -> MpdView {
    match cmd {
        MpdCommand::CurrentSong => match o {
            Outcome::Success { payload } => MpdView {
                value: Some(take_at_most(summary_spec(payload), max)),
                volume: s.volume,
            },
            Outcome::Failure => MpdView { value: None, volume: s.volume },
        },
        MpdCommand::GetVol => match o {
            Outcome::Success { payload } => MpdView {
                value: s.value,
                volume: parse_volume_payload_spec(payload),
            },
            Outcome::Failure => s,
        },
        MpdCommand::SetVol(v) => match o {
            Outcome::Success { payload } => MpdView { value: s.value, volume: Some(v as int) },
            Outcome::Failure => s,
        },
        MpdCommand::Previous => s,
        MpdCommand::Next => s,
        MpdCommand::Pause => s,
    }
}

impl Mpd {
    /// A fresh module, showing nothing until the first responses arrive.
    pub fn new() -> (r: Self)
        ensures
            r@.value is None,
            r@.volume is None,
    {
        Mpd { value: None, volume: None }
    }

    /// Decide which commands a message asks of the server. The state
    /// moves only when their responses come back through
    /// `apply_response`.
    pub fn update(&self, message: &Message) -> (cmds: Vec<MpdCommand>)
        ensures
            cmds@ == update_commands(*message),
            forall|j: int| 0 <= j < cmds@.len() ==> command_wf(#[trigger] cmds@[j]),
    {
        let mut cmds: Vec<MpdCommand> = Vec::new();
        match message {
            Message::Update => {
                cmds.push(MpdCommand::CurrentSong);
            },
            Message::Prev => {
                cmds.push(MpdCommand::Previous);
                cmds.push(MpdCommand::CurrentSong);
            },
            Message::Play => {
                cmds.push(MpdCommand::Pause);
            },
            Message::Next => {
                cmds.push(MpdCommand::Next);
                cmds.push(MpdCommand::CurrentSong);
            },
            Message::Volume(v) => {
                if 0 <= *v && *v <= 100 {
                    cmds.push(MpdCommand::SetVol(*v));
                }
            },
        }
        proof {
            assert(cmds@ =~= update_commands(*message));
        }
        cmds
    }

    /// Move the state by the outcome of one issued command, the shown
    /// track line cut to `max_length` characters.
    pub fn apply_response(
        &mut self,
        cmd: &MpdCommand,
        outcome: &Result<Vec<String>, SendFailure>,
        max_length: usize,
    )
        ensures
            final(self)@ == mpd_apply(old(self)@, *cmd, outcome_of(*outcome), max_length as int),
    {
        match cmd {
            MpdCommand::CurrentSong => match outcome {
                Ok(payload) => {
                    let summary = track_summary(payload);
                    let shown = truncate_chars(summary.as_str(), max_length);
                    self.value = Some(shown);
                },
                Err(_) => {
                    self.value = None;
                },
            },
            MpdCommand::GetVol => match outcome {
                Ok(payload) => {
                    self.volume = parse_volume_payload(payload);
                },
                Err(_) => {},
            },
            MpdCommand::SetVol(v) => match outcome {
                Ok(_) => {
                    self.volume = Some(*v);
                },
                Err(_) => {},
            },
            MpdCommand::Previous => {},
            MpdCommand::Next => {},
            MpdCommand::Pause => {},
        }
    }

    /// The shown track line, when there is one: a pure projection.
    pub fn view_value(&self) -> (r: Option<String>)
        ensures
            r is Some <==> self@.value is Some,
            r matches Some(s) ==> self@.value == Some(s@),
    {
        match &self.value {
            Some(s) => Some(s.clone()),
            None => None,
        }
    }

    /// The known volume, when there is one: a pure projection.
    pub fn volume_value(&self) -> (r: Option<i32>)
        ensures
            r is Some <==> self@.volume is Some,
            r matches Some(v) ==> self@.volume == Some(v as int),
    {
        self.volume
    }
}

/// Refreshing twice from an unchanged source shows what refreshing once
/// shows: repeated update ticks with no intervening external change
/// leave the shown value unchanged.
pub proof fn lemma_refresh_idempotent(s: MpdView, payload: Seq<Seq<char>>, max: int)
    ensures
        mpd_apply(
            mpd_apply(s, MpdCommand::CurrentSong, Outcome::Success { payload }, max),
            MpdCommand::CurrentSong,
            Outcome::Success { payload },
            max,
        ) == mpd_apply(s, MpdCommand::CurrentSong, Outcome::Success { payload }, max),
{
}

/// Setting a volume within 0..=100 and then reading it back yields the
/// value that was set, when the server reports what it was told.
pub proof fn lemma_setvol_getvol(s: MpdView, v: i32, max: int)
    requires
        0 <= v <= 100,
    ensures
        ({
            let after_set = mpd_apply(
                s,
                MpdCommand::SetVol(v),
                Outcome::Success { payload: Seq::empty() },
                max,
            );
            let after_get = mpd_apply(
                after_set,
                MpdCommand::GetVol,
                Outcome::Success { payload: seq![volume_report(v as int)] },
                max,
            );
            after_set.volume == Some(v as int) && after_get.volume == Some(v as int)
        }),
{
    crate::volume::lemma_volume_roundtrip(v as int);
}

} // verus!
