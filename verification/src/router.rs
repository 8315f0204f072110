use vstd::prelude::*;

use crate::mpd;
use crate::mpd::command_wf;
use crate::mpd::mpd_apply;
use crate::mpd::outcome_of;
use crate::mpd::update_commands;
use crate::mpd::Mpd;
use crate::mpd::MpdCommand;
use crate::mpd::SendFailure;
use crate::title;
use crate::title::message_view;
use crate::title::title_apply;
use crate::title::Title;

verus! {

/// An envelope message, tagged by the module it belongs to.
#[derive(Debug, Clone)]
pub enum AppMessage {
    Mpd(mpd::Message),
    Title(title::Message),
}

/// The single owner of all module state. It takes one message at a
/// time, in arrival order, and hands it to the owning module alone.
pub struct Router {
    pub mpd: Mpd,
    pub title: Title,
}

impl Router {
    pub fn new() -> (r: Self)
        ensures
            r.mpd@.value is None,
            r.mpd@.volume is None,
            r.title@ is None,
    {
        Router { mpd: Mpd::new(), title: Title::new() }
    }

    /// Dispatch one message to the module it is tagged for; the other
    /// module's state is untouched. The returned commands are what the
    /// music module asks the server for; they are issued outside and
    /// their outcomes come back through `apply_mpd_response`.
    pub fn dispatch(&mut self, message: AppMessage) -> (cmds: Vec<MpdCommand>)
        ensures
            message matches AppMessage::Mpd(m) ==> (final(self).mpd@ == old(self).mpd@
                && final(self).title@ == old(self).title@ && cmds@ == update_commands(m)),
            message matches AppMessage::Title(m) ==> (final(self).mpd@ == old(self).mpd@
                && final(self).title@ == title_apply(old(self).title@, message_view(m))
                && cmds@.len() == 0),
            forall|j: int| 0 <= j < cmds@.len() ==> command_wf(#[trigger] cmds@[j]),
    {
        match message {
            AppMessage::Mpd(m) => self.mpd.update(&m),
            AppMessage::Title(m) => {
                self.title.update(m);
                Vec::new()
            },
        }
    }

    /// Hand the music module the outcome of one issued command; the
    /// window-title module's state is untouched.
    pub fn apply_mpd_response(
        &mut self,
        cmd: &MpdCommand,
        outcome: &Result<Vec<String>, SendFailure>,
        max_length: usize,
    )
        ensures
            final(self).title@ == old(self).title@,
            final(self).mpd@ == mpd_apply(
                old(self).mpd@,
                *cmd,
                outcome_of(*outcome),
                max_length as int,
            ),
    {
        self.mpd.apply_response(cmd, outcome, max_length);
    }
}

} // verus!
