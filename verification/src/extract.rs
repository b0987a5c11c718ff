//! Taking a file out of an image.
//!
//! An image is looked into through a container that is created for that alone
//! and never started. The machine says what to ask the runtime for, takes each
//! outcome, and ends with the file, with nothing if the image has no such
//! file, or with an error. Whatever the download comes to, the container is
//! removed before the machine ends.

use crate::docker::{failed_with, DaemonError};
use crate::error::RuntimeError;
use vstd::prelude::*;
use vstd::string::*;

verus! {

/// What is to be done next.
#[derive(Debug)]
pub enum ExtractAction {
    CreateContainer { name: String, image: String },
    /// Download the path as an archive.
    Download { container: String, path: String },
    /// Remove the container by force.
    RemoveContainer { container: String },
    /// Take the file at the path out of the archive.
    Unpack { archive: Vec<u8>, path: String },
    Finish(Result<Option<Vec<u8>>, RuntimeError>),
}

/// The outcome of an action.
#[derive(Debug)]
pub enum ExtractEvent {
    /// The id of the container.
    Created(Result<String, DaemonError>),
    /// The archive, or the first error.
    Downloaded(Result<Vec<u8>, DaemonError>),
    /// Whether the container could be removed does not matter.
    Removed,
    Unpacked(Result<Option<Vec<u8>>, String>),
}

/// What the machine waits for.
#[derive(Debug)]
pub enum ExtractPhase {
    Create,
    /// The download from a container.
    Download(String),
    /// The removal of the container, after what the download came to.
    Remove(Result<Vec<u8>, DaemonError>),
    Unpack,
    Done,
}

/// An extraction under way.
#[derive(Debug)]
pub struct Extraction {
    pub path: String,
    pub phase: ExtractPhase,
}

impl Extraction {
    /// Whether an outcome is one that the phase waits for.
    pub open spec fn awaits(self, event: ExtractEvent) -> bool {
        match (self.phase, event) {
            (ExtractPhase::Create, ExtractEvent::Created(_)) => true,
            (ExtractPhase::Download(_), ExtractEvent::Downloaded(_)) => true,
            (ExtractPhase::Remove(_), ExtractEvent::Removed) => true,
            (ExtractPhase::Unpack, ExtractEvent::Unpacked(_)) => true,
            _ => false,
        }
    }

    /// What an outcome leads to.
    pub open spec fn leads_to(self, event: ExtractEvent, post: Extraction, action: ExtractAction) -> bool {
        &&& post.path == self.path
        &&& match (self.phase, event) {
            (ExtractPhase::Create, ExtractEvent::Created(Err(e))) => {
                &&& post.phase is Done
                &&& action matches ExtractAction::Finish(Err(f)) && failed_with(f, e.message)
            },
            (ExtractPhase::Create, ExtractEvent::Created(Ok(id))) => {
                &&& post.phase == ExtractPhase::Download(id)
                &&& action matches ExtractAction::Download { container, path } && container@ == id@ && path@
                    == self.path@
            },
            (ExtractPhase::Download(id), ExtractEvent::Downloaded(result)) => {
                &&& post.phase == ExtractPhase::Remove(result)
                &&& action matches ExtractAction::RemoveContainer { container } && container == id
            },
            (ExtractPhase::Remove(Ok(bytes)), _) => {
                &&& post.phase is Unpack
                &&& action matches ExtractAction::Unpack { archive, path } && archive == bytes && path@ == self.path@
            },
            (ExtractPhase::Remove(Err(e)), _) => {
                &&& post.phase is Done
                &&& if e.status == Some(404u16) {
                    action matches ExtractAction::Finish(Ok(None))
                } else {
                    action matches ExtractAction::Finish(Err(f)) && failed_with(f, e.message)
                }
            },
            (_, ExtractEvent::Unpacked(Ok(file))) => {
                &&& post.phase is Done
                &&& action == ExtractAction::Finish(Ok(file))
            },
            (_, ExtractEvent::Unpacked(Err(message))) => {
                &&& post.phase is Done
                &&& action matches ExtractAction::Finish(Err(f)) && failed_with(f, message)
            },
            _ => false,
        }
    }

    /// Begins to take the file at a path out of an image. The suffix keeps the
    /// names of containers apart.
    pub fn begin(image: &str, tag: &str, path: &str, suffix: &str) -> (r: (Extraction, ExtractAction))
        ensures
            r.0.path@ == path@,
            r.0.phase is Create,
            r.1 matches ExtractAction::CreateContainer { name, image: reference } && name@ == "slip-extract-"@ + suffix@
                && reference@ == image@ + ":"@ + tag@,
    {
        let action = ExtractAction::CreateContainer {
            name: "slip-extract-".to_owned().concat(suffix),
            image: image.to_owned().concat(":").concat(tag),
        };
        (Extraction { path: path.to_owned(), phase: ExtractPhase::Create }, action)
    }

    /// Tests whether an outcome is one that the phase waits for.
    pub fn expects(&self, event: &ExtractEvent) -> (r: bool)
        ensures
            r == self.awaits(*event),
    {
        match (&self.phase, event) {
            (ExtractPhase::Create, ExtractEvent::Created(_)) => true,
            (ExtractPhase::Download(_), ExtractEvent::Downloaded(_)) => true,
            (ExtractPhase::Remove(_), ExtractEvent::Removed) => true,
            (ExtractPhase::Unpack, ExtractEvent::Unpacked(_)) => true,
            _ => false,
        }
    }

    /// Takes an outcome and says what is to be done next.
    pub fn step(&mut self, event: ExtractEvent) -> (action: ExtractAction)
        requires
            old(self).awaits(event),
        ensures
            old(self).leads_to(event, *final(self), action),
    {
        let mut phase = ExtractPhase::Done;
        core::mem::swap(&mut phase, &mut self.phase);
        match (phase, event) {
            (ExtractPhase::Create, ExtractEvent::Created(Ok(id))) => {
                let container = id.clone();
                self.phase = ExtractPhase::Download(id);
                ExtractAction::Download { container, path: self.path.clone() }
            },
            (ExtractPhase::Download(container), ExtractEvent::Downloaded(result)) => {
                self.phase = ExtractPhase::Remove(result);
                ExtractAction::RemoveContainer { container }
            },
            (ExtractPhase::Remove(Ok(archive)), _) => {
                self.phase = ExtractPhase::Unpack;
                ExtractAction::Unpack { archive, path: self.path.clone() }
            },
            (ExtractPhase::Remove(Err(e)), _) => {
                if e.status == Some(404) {
                    ExtractAction::Finish(Ok(None))
                } else {
                    ExtractAction::Finish(Err(RuntimeError::ContainerError(e.message)))
                }
            },
            (_, ExtractEvent::Created(Err(e))) => {
                ExtractAction::Finish(Err(RuntimeError::ContainerError(e.message)))
            },
            (_, ExtractEvent::Unpacked(Ok(file))) => ExtractAction::Finish(Ok(file)),
            (_, ExtractEvent::Unpacked(Err(message))) => {
                ExtractAction::Finish(Err(RuntimeError::ContainerError(message)))
            },
            _ => ExtractAction::Finish(Ok(None)),
        }
    }
}

// ── Laws ────────────────────────────────────────────────────────────────────

/// A container that was created is removed before the extraction ends: the
/// download from it is followed by its removal, whatever the download came to,
/// and only then by the end or by the archive being unpacked.
pub proof fn the_container_is_removed(
    a: Extraction,
    created: ExtractEvent,
    b: Extraction,
    downloaded: ExtractEvent,
    c: Extraction,
    first: ExtractAction,
    second: ExtractAction,
)
    requires
        a.awaits(created),
        a.leads_to(created, b, first),
        b.awaits(downloaded),
        b.leads_to(downloaded, c, second),
        created matches ExtractEvent::Created(Ok(_)),
    ensures
        first is Download,
        second matches ExtractAction::RemoveContainer { container } && container == created->Created_0->Ok_0,
{
}

/// The end is reached in at most four outcomes: every step leads to a later
/// phase.
pub proof fn every_step_is_progress(m: Extraction, event: ExtractEvent, post: Extraction, action: ExtractAction)
    requires
        m.awaits(event),
        m.leads_to(event, post, action),
    ensures
        steps_left(post) < steps_left(m),
        post.phase is Done <==> action is Finish,
{
}

/// How many outcomes are still to come at most.
pub open spec fn steps_left(m: Extraction) -> nat {
    match m.phase {
        ExtractPhase::Create => 4,
        ExtractPhase::Download(_) => 3,
        ExtractPhase::Remove(_) => 2,
        ExtractPhase::Unpack => 1,
        ExtractPhase::Done => 0,
    }
}

/// A file that is not in the image is not an error.
pub proof fn a_missing_file_is_nothing(m: Extraction, event: ExtractEvent, post: Extraction, action: ExtractAction)
    requires
        m.awaits(event),
        m.leads_to(event, post, action),
        m.phase matches ExtractPhase::Remove(Err(e)) && e.status == Some(404u16),
    ensures
        action == ExtractAction::Finish(Ok(None)),
{
}

/// What an extraction gives is what was in the archive of the path it was asked
/// for: the archive is downloaded from the container that was created, unpacked
/// as it came, and what unpacking it came to is the result.
pub proof fn what_was_downloaded_is_unpacked(
    a: Extraction,
    id: String,
    b: Extraction,
    first: ExtractAction,
    bytes: Vec<u8>,
    c: Extraction,
    second: ExtractAction,
    d: Extraction,
    third: ExtractAction,
    file: Result<Option<Vec<u8>>, String>,
    e: Extraction,
    last: ExtractAction,
)
    requires
        a.phase is Create,
        a.leads_to(ExtractEvent::Created(Ok(id)), b, first),
        b.leads_to(ExtractEvent::Downloaded(Ok(bytes)), c, second),
        c.leads_to(ExtractEvent::Removed, d, third),
        d.leads_to(ExtractEvent::Unpacked(file), e, last),
    ensures
        first matches ExtractAction::Download { container, path } && container@ == id@ && path@ == a.path@,
        second matches ExtractAction::RemoveContainer { container } && container@ == id@,
        third matches ExtractAction::Unpack { archive, path } && archive@ == bytes@ && path@ == a.path@,
        file matches Ok(found) ==> last == ExtractAction::Finish(Ok(found)),
        file matches Err(message) ==> last == ExtractAction::Finish(Err(RuntimeError::ContainerError(message))),
{
}

/// A failure of the daemon ends the extraction with the daemon's message: at
/// once if no container came to be, and else after the container is removed,
/// unless it only says that there is no such file.
pub proof fn a_failure_is_reported(
    a: Extraction,
    refused: DaemonError,
    b: Extraction,
    at_once: ExtractAction,
    c: Extraction,
    broken: DaemonError,
    d: Extraction,
    removal: ExtractAction,
    e: Extraction,
    last: ExtractAction,
)
    requires
        a.phase is Create,
        a.leads_to(ExtractEvent::Created(Err(refused)), b, at_once),
        c.phase is Download,
        c.leads_to(ExtractEvent::Downloaded(Err(broken)), d, removal),
        d.leads_to(ExtractEvent::Removed, e, last),
    ensures
        at_once == ExtractAction::Finish(Err(RuntimeError::ContainerError(refused.message))),
        removal is RemoveContainer,
        broken.status == Some(404u16) ==> last == ExtractAction::Finish(Ok(None)),
        broken.status != Some(404u16) ==> last == ExtractAction::Finish(
            Err(RuntimeError::ContainerError(broken.message)),
        ),
{
}

} // verus!
