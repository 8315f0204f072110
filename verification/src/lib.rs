pub mod digits;
pub mod mpd;
pub mod protocol;
pub mod router;
pub mod strutil;
pub mod title;
pub mod track;
pub mod volume;
