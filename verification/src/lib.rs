//! The decisions of an inbox organiser: a program that watches one directory
//! and moves, unpacks or deletes the files that arrive in it, as a list of
//! rules says.
//!
//! This library decides; it does not touch the disk. The program around it
//! hands over what it has observed, as plain values, and carries out what
//! comes back:
//!
//! 1. A notification arrives. `Organiser::subject` says which file it is
//!    about, if it is of a kind that is looked at.
//! 2. The program looks whether that file is there, and how large it is, and
//!    `Organiser::process_event` decides: nothing is done, or the first
//!    action of the first rule that applies becomes the one task.
//! 3. For a move, the program looks whether the target is taken, reads the
//!    clock where `Relocation::needs_stamp` asks for the time, and
//!    `Relocation::resolve_at` says what to rename, if anything. For an archive,
//!    `Unpacking::plan_entry` says of each entry where it goes, or that it is
//!    left out. A deletion needs no further decision.
//!
//! `files` says what the steps mean for the files on disk, and holds what
//! follows from that.

pub mod archive;
pub mod files;
pub mod moves;
pub mod organiser;
pub mod pattern;
pub mod place;
pub mod rules;
pub mod size;
pub mod text;
