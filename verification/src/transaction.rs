//! The installation of a version difference as a sequence of single steps.
//!
//! A [`DiffTransaction`] never touches the disk or the network. It names the
//! one [`Action`] that has to be performed next; the caller performs it and
//! reports the outcome as an [`Event`], which moves the transaction on:
//!
//! 1. the archive is fetched and unpacked into the destination;
//! 2. if the destination then holds a patch list, every file it names is
//!    patched, in the order of the list, and the list is removed;
//! 3. if the destination holds a delete list, every file it names is removed,
//!    and the list is removed.
//!
//! The entries of both lists are paths below the destination.
//!
//! A patch that fails ends the transaction with an error and leaves the rest
//! untouched. A list that is there and cannot be read, or a file that cannot
//! be removed or renamed, leaves the tree in a state that this transaction
//! cannot answer for: it ends with [`Action::Abort`].

use crate::error::{DiffDownloadError, DiffDownloadErrorView};
use crate::manifest::{parse_record, record_payload, spec_lines, split_lines};
use crate::text::{joined, optional_str_view, optional_view, views};
use vstd::prelude::*;
use vstd::string::*;

verus! {

/// Where the patch list lies in the destination `dir`.
pub open spec fn patch_list_path(dir: Seq<char>) -> Seq<char> {
    dir + "/hdifffiles.txt"@
}

/// Where the delete list lies in the destination `dir`.
pub open spec fn delete_list_path(dir: Seq<char>) -> Seq<char> {
    dir + "/deletefiles.txt"@
}

/// The file `name` of the destination `dir`.
pub open spec fn entry_path(dir: Seq<char>, name: Seq<char>) -> Seq<char> {
    dir + "/"@ + name
}

/// The patch that belongs to `file`.
pub open spec fn patch_path(file: Seq<char>) -> Seq<char> {
    file + ".hdiff"@
}

/// Where the patched copy of `file` is written before it takes the place of
/// `file`.
pub open spec fn output_path(file: Seq<char>) -> Seq<char> {
    file + ".hdiff_patched"@
}

/// What the caller has to do next.
#[derive(Debug)]
pub enum Action {
    /// Fetch the archive at `url` and unpack it into `path`, staging in
    /// `temp_path` if one is given and in the system's place for temporary
    /// files otherwise.
    Unpack { url: String, path: String, temp_path: Option<String> },
    /// Read the text file at `path`.
    ReadList { path: String },
    /// Apply `patch` to `file` and write the result to `output`.
    Patch { file: String, patch: String, output: String },
    /// Remove the file at `path`.
    Remove { path: String },
    /// Move the file at `from` to `to`, replacing what is there.
    Rename { from: String, to: String },
    /// Nothing is left to do: the installation ended with `result`.
    Finish { result: Result<(), DiffDownloadError> },
    /// The tree can no longer be answered for; `message` says why.
    Abort { message: String },
}

/// An [`Action`] as a mathematical value.
pub enum ActionView {
    Unpack { url: Seq<char>, path: Seq<char>, temp_path: Option<Seq<char>> },
    ReadList { path: Seq<char> },
    Patch { file: Seq<char>, patch: Seq<char>, output: Seq<char> },
    Remove { path: Seq<char> },
    Rename { from: Seq<char>, to: Seq<char> },
    Finish { result: Result<(), DiffDownloadErrorView> },
    Abort { message: Seq<char> },
}

impl View for Action {
    type V = ActionView;

    open spec fn view(&self) -> ActionView {
        match self {
            Action::Unpack { url, path, temp_path } => ActionView::Unpack {
                url: url@,
                path: path@,
                temp_path: optional_view(*temp_path),
            },
            Action::ReadList { path } => ActionView::ReadList { path: path@ },
            Action::Patch { file, patch, output } => ActionView::Patch {
                file: file@,
                patch: patch@,
                output: output@,
            },
            Action::Remove { path } => ActionView::Remove { path: path@ },
            Action::Rename { from, to } => ActionView::Rename { from: from@, to: to@ },
            Action::Finish { result } => ActionView::Finish {
                result: match result {
                    Ok(_) => Ok(()),
                    Err(error) => Err(error@),
                },
            },
            Action::Abort { message } => ActionView::Abort { message: message@ },
        }
    }
}

/// What reading a list file gave.
#[derive(Debug)]
pub enum Listing {
    /// There is no such file.
    Absent,
    /// The text of the file.
    Text(String),
    /// The file is there and could not be read; the system's message.
    Unreadable(String),
}

/// A [`Listing`] as a mathematical value.
pub enum ListingView {
    Absent,
    Text(Seq<char>),
    Unreadable(Seq<char>),
}

impl View for Listing {
    type V = ListingView;

    open spec fn view(&self) -> ListingView {
        match self {
            Listing::Absent => ListingView::Absent,
            Listing::Text(text) => ListingView::Text(text@),
            Listing::Unreadable(detail) => ListingView::Unreadable(detail@),
        }
    }
}

/// What came of the action that was pending.
#[derive(Debug)]
pub enum Event {
    /// The archive was fetched and unpacked, or the transport refused.
    Unpacked(Result<(), curl::Error>),
    /// The list file was looked for and read.
    ListRead(Listing),
    /// The patch engine has run; on failure, its message.
    Patched(Result<(), String>),
    /// The file was removed; on failure, the system's message.
    Removed(Result<(), String>),
    /// The file was moved; on failure, the system's message.
    Renamed(Result<(), String>),
}

/// An [`Event`] as a mathematical value.
pub enum EventView {
    Unpacked(Result<(), curl::Error>),
    ListRead(ListingView),
    Patched(Result<(), Seq<char>>),
    Removed(Result<(), Seq<char>>),
    Renamed(Result<(), Seq<char>>),
}

/// The outcome of a file operation, its message as characters.
pub open spec fn outcome_view(outcome: Result<(), String>) -> Result<(), Seq<char>> {
    match outcome {
        Ok(_) => Ok(()),
        Err(detail) => Err(detail@),
    }
}

impl View for Event {
    type V = EventView;

    open spec fn view(&self) -> EventView {
        match self {
            Event::Unpacked(outcome) => EventView::Unpacked(*outcome),
            Event::ListRead(listing) => EventView::ListRead(listing@),
            Event::Patched(outcome) => EventView::Patched(outcome_view(*outcome)),
            Event::Removed(outcome) => EventView::Removed(outcome_view(*outcome)),
            Event::Renamed(outcome) => EventView::Renamed(outcome_view(*outcome)),
        }
    }
}

/// The four steps that replace one file by its patched version.
#[derive(Debug, Clone, Copy, PartialEq, Eq, Structural)]
pub enum PatchStep {
    /// The patch engine writes the patched copy.
    Apply,
    /// The old file is removed.
    RemoveOld,
    /// The patch is removed.
    RemovePatch,
    /// The patched copy takes the old file's name.
    Rename,
}

/// How far a transaction has come.
pub enum Stage {
    /// The archive is being fetched and unpacked.
    Unpacking,
    /// The patch list is being read.
    ReadingPatchList,
    /// The entry in turn of the patch list is at the given step.
    Patching(PatchStep),
    /// All entries are patched; the patch list is being removed.
    ClosingPatchList,
    /// The delete list is being read.
    ReadingDeleteList,
    /// The entry in turn of the delete list is being removed.
    Deleting,
    /// All entries are removed; the delete list is being removed.
    ClosingDeleteList,
    /// The installation is complete.
    Done,
    /// The installation ended with this error.
    Failed(DiffDownloadErrorView),
    /// The installation was given up with this message.
    Aborted(Seq<char>),
}

/// A [`DiffTransaction`] as a mathematical value.
pub struct TransactionView {
    /// Where the archive comes from.
    pub url: Seq<char>,
    /// The destination directory.
    pub path: Seq<char>,
    /// The staging directory, if the caller chose one.
    pub temp_path: Option<Seq<char>>,
    pub stage: Stage,
    /// The lines of the list that was read last.
    pub entries: Seq<Seq<char>>,
    /// Which of `entries` is in turn.
    pub next: nat,
}

impl TransactionView {
    /// The transaction before anything was done.
    pub open spec fn begin(url: Seq<char>, path: Seq<char>, temp_path: Option<Seq<char>>) -> Self {
        TransactionView {
            url,
            path,
            temp_path,
            stage: Stage::Unpacking,
            entries: Seq::empty(),
            next: 0,
        }
    }

    /// While a list is worked on, an entry of it is in turn; in the patch
    /// list, that entry names a file.
    pub open spec fn wf(self) -> bool {
        match self.stage {
            Stage::Patching(_) => self.next < self.entries.len() && record_payload(
                self.entries[self.next as int],
            ) is Some,
            Stage::Deleting => self.next < self.entries.len(),
            _ => true,
        }
    }

    /// No action but the last is left.
    pub open spec fn finished(self) -> bool {
        self.stage is Done || self.stage is Failed || self.stage is Aborted
    }

    /// The same transaction at another stage.
    pub open spec fn at(self, stage: Stage) -> Self {
        TransactionView { stage, ..self }
    }

    /// The file that the entry in turn of the patch list names.
    pub open spec fn file(self) -> Seq<char> {
        entry_path(self.path, record_payload(self.entries[self.next as int]).unwrap())
    }

    /// The file that the entry in turn of the delete list names.
    pub open spec fn outdated_file(self) -> Seq<char> {
        entry_path(self.path, self.entries[self.next as int])
    }

    /// The transaction given up because the list at `path` is there and could
    /// not be read.
    pub open spec fn unreadable(self, path: Seq<char>, detail: Seq<char>) -> Self {
        self.at(Stage::Aborted("Failed to read "@ + path + ": "@ + detail))
    }

    /// The transaction as it turns to entry `index` of the patch list: past
    /// the last entry the list itself is removed, and a line that is no
    /// record ends the transaction.
    pub open spec fn patch_entry(self, index: nat) -> Self {
        if index >= self.entries.len() {
            TransactionView { stage: Stage::ClosingPatchList, next: index, ..self }
        } else if record_payload(self.entries[index as int]) is None {
            TransactionView {
                stage: Stage::Aborted(
                    "Malformed record in hdifffiles.txt: "@ + self.entries[index as int],
                ),
                next: index,
                ..self
            }
        } else {
            TransactionView { stage: Stage::Patching(PatchStep::Apply), next: index, ..self }
        }
    }

    /// The transaction as it turns to entry `index` of the delete list.
    pub open spec fn delete_entry(self, index: nat) -> Self {
        if index >= self.entries.len() {
            TransactionView { stage: Stage::ClosingDeleteList, next: index, ..self }
        } else {
            TransactionView { stage: Stage::Deleting, next: index, ..self }
        }
    }

    /// `then` if the file operation succeeded; otherwise the transaction is
    /// given up, with `what` and the system's message.
    pub open spec fn settle(self, outcome: Result<(), Seq<char>>, then: Self, what: Seq<char>) -> Self {
        match outcome {
            Ok(_) => then,
            Err(detail) => self.at(Stage::Aborted(what + ": "@ + detail)),
        }
    }

    /// The action that the transaction waits for.
    pub open spec fn pending(self) -> ActionView {
        match self.stage {
            Stage::Unpacking => ActionView::Unpack {
                url: self.url,
                path: self.path,
                temp_path: self.temp_path,
            },
            Stage::ReadingPatchList => ActionView::ReadList { path: patch_list_path(self.path) },
            Stage::Patching(PatchStep::Apply) => ActionView::Patch {
                file: self.file(),
                patch: patch_path(self.file()),
                output: output_path(self.file()),
            },
            Stage::Patching(PatchStep::RemoveOld) => ActionView::Remove { path: self.file() },
            Stage::Patching(PatchStep::RemovePatch) => ActionView::Remove {
                path: patch_path(self.file()),
            },
            Stage::Patching(PatchStep::Rename) => ActionView::Rename {
                from: output_path(self.file()),
                to: self.file(),
            },
            Stage::ClosingPatchList => ActionView::Remove { path: patch_list_path(self.path) },
            Stage::ReadingDeleteList => ActionView::ReadList { path: delete_list_path(self.path) },
            Stage::Deleting => ActionView::Remove { path: self.outdated_file() },
            Stage::ClosingDeleteList => ActionView::Remove { path: delete_list_path(self.path) },
            Stage::Done => ActionView::Finish { result: Ok(()) },
            Stage::Failed(error) => ActionView::Finish { result: Err(error) },
            Stage::Aborted(message) => ActionView::Abort { message },
        }
    }

    /// The transaction after `event`. A list that is absent leaves nothing to
    /// do in its pass; one that is there and cannot be read ends the
    /// transaction. An event that does not answer the pending action changes
    /// nothing.
    pub open spec fn advance(self, event: EventView) -> Self {
        match (self.stage, event) {
            (Stage::Unpacking, EventView::Unpacked(Ok(_))) => self.at(Stage::ReadingPatchList),
            (Stage::Unpacking, EventView::Unpacked(Err(error))) => self.at(
                Stage::Failed(DiffDownloadErrorView::Curl(error)),
            ),
            (Stage::ReadingPatchList, EventView::ListRead(ListingView::Text(text))) => TransactionView {
                entries: spec_lines(text),
                ..self
            }.patch_entry(0),
            (Stage::ReadingPatchList, EventView::ListRead(ListingView::Absent)) => self.at(
                Stage::ReadingDeleteList,
            ),
            (
                Stage::ReadingPatchList,
                EventView::ListRead(ListingView::Unreadable(detail)),
            ) => self.unreadable(patch_list_path(self.path), detail),
            (Stage::Patching(PatchStep::Apply), EventView::Patched(Ok(_))) => self.at(
                Stage::Patching(PatchStep::RemoveOld),
            ),
            (Stage::Patching(PatchStep::Apply), EventView::Patched(Err(detail))) => self.at(
                Stage::Failed(DiffDownloadErrorView::HdiffPatch(detail)),
            ),
            (Stage::Patching(PatchStep::RemoveOld), EventView::Removed(outcome)) => self.settle(
                outcome,
                self.at(Stage::Patching(PatchStep::RemovePatch)),
                "Failed to remove hdiff patch: "@ + self.file(),
            ),
            (Stage::Patching(PatchStep::RemovePatch), EventView::Removed(outcome)) => self.settle(
                outcome,
                self.at(Stage::Patching(PatchStep::Rename)),
                "Failed to remove hdiff patch: "@ + patch_path(self.file()),
            ),
            (Stage::Patching(PatchStep::Rename), EventView::Renamed(outcome)) => self.settle(
                outcome,
                self.patch_entry(self.next + 1),
                "Failed to rename hdiff patch: "@ + self.file(),
            ),
            (Stage::ClosingPatchList, EventView::Removed(outcome)) => self.settle(
                outcome,
                self.at(Stage::ReadingDeleteList),
                "Failed to remove hdifffiles.txt"@,
            ),
            (Stage::ReadingDeleteList, EventView::ListRead(ListingView::Text(text))) => TransactionView {
                entries: spec_lines(text),
                ..self
            }.delete_entry(0),
            (Stage::ReadingDeleteList, EventView::ListRead(ListingView::Absent)) => self.at(
                Stage::Done,
            ),
            (
                Stage::ReadingDeleteList,
                EventView::ListRead(ListingView::Unreadable(detail)),
            ) => self.unreadable(delete_list_path(self.path), detail),
            (Stage::Deleting, EventView::Removed(outcome)) => self.settle(
                outcome,
                self.delete_entry(self.next + 1),
                "Failed to remove outdated file: "@ + self.outdated_file(),
            ),
            (Stage::ClosingDeleteList, EventView::Removed(outcome)) => self.settle(
                outcome,
                self.at(Stage::Done),
                "Failed to remove deletefiles.txt"@,
            ),
            _ => self,
        }
    }
}

/// Every step leads from a well-formed transaction to a well-formed one.
pub proof fn lemma_advance_wf(state: TransactionView, event: EventView)
    requires
        state.wf(),
    ensures
        state.advance(event).wf(),
{
}

/// How far a transaction has come, with the texts as they are held.
#[derive(Debug)]
enum Progress {
    Unpacking,
    ReadingPatchList,
    Patching(PatchStep),
    ClosingPatchList,
    ReadingDeleteList,
    Deleting,
    ClosingDeleteList,
    Done,
    Failed(DiffDownloadError),
    Aborted(String),
}

impl View for Progress {
    type V = Stage;

    closed spec fn view(&self) -> Stage {
        match self {
            Progress::Unpacking => Stage::Unpacking,
            Progress::ReadingPatchList => Stage::ReadingPatchList,
            Progress::Patching(step) => Stage::Patching(*step),
            Progress::ClosingPatchList => Stage::ClosingPatchList,
            Progress::ReadingDeleteList => Stage::ReadingDeleteList,
            Progress::Deleting => Stage::Deleting,
            Progress::ClosingDeleteList => Stage::ClosingDeleteList,
            Progress::Done => Stage::Done,
            Progress::Failed(error) => Stage::Failed(error@),
            Progress::Aborted(message) => Stage::Aborted(message@),
        }
    }
}

/// The installation of one version difference into one destination.
#[derive(Debug)]
pub struct DiffTransaction {
    url: String,
    path: String,
    temp_path: Option<String>,
    stage: Progress,
    entries: Vec<String>,
    next: usize,
}

impl View for DiffTransaction {
    type V = TransactionView;

    closed spec fn view(&self) -> TransactionView {
        TransactionView {
            url: self.url@,
            path: self.path@,
            temp_path: optional_view(self.temp_path),
            stage: self.stage@,
            entries: views(self.entries@),
            next: self.next as nat,
        }
    }
}

/// A copy of an optional text.
fn clone_optional(text: &Option<String>) -> (res: Option<String>)
    ensures
        optional_view(res) == optional_view(*text),
{
    match text {
        Some(text) => Some(text.clone()),
        None => None,
    }
}

/// The message with which a transaction is given up.
fn abort_message(what: &str, detail: &str) -> (message: String)
    ensures
        message@ == what@ + ": "@ + detail@,
{
    joined(joined(what, ": ").as_str(), detail)
}

/// The file that entry `next` of the patch list names, in the destination
/// `path`.
fn entry_file(path: &str, entries: &Vec<String>, next: usize) -> (file: String)
    requires
        next < entries.len(),
        record_payload(entries@[next as int]@) is Some,
    ensures
        file@ == entry_path(path@, record_payload(entries@[next as int]@).unwrap()),
{
    match parse_record(entries[next].as_str()) {
        Some(name) => joined(joined(path, "/").as_str(), name.as_str()),
        None => String::new(),
    }
}

impl DiffTransaction {
    #[verifier::type_invariant]
    spec fn well_formed(self) -> bool {
        self@.wf()
    }

    fn make(
        url: String,
        path: String,
        temp_path: Option<String>,
        stage: Progress,
        entries: Vec<String>,
        next: usize,
    ) -> (tx: Self)
        requires
            (TransactionView {
                url: url@,
                path: path@,
                temp_path: optional_view(temp_path),
                stage: stage@,
                entries: views(entries@),
                next: next as nat,
            }).wf(),
        ensures
            tx@ == (TransactionView {
                url: url@,
                path: path@,
                temp_path: optional_view(temp_path),
                stage: stage@,
                entries: views(entries@),
                next: next as nat,
            }),
    {
        DiffTransaction { url, path, temp_path, stage, entries, next }
    }

    /// The transaction that installs the archive at `url` into `path`, with
    /// nothing done yet.
    pub(crate) fn begin(url: &str, path: &str, temp_path: Option<&str>) -> (tx: Self)
        ensures
            tx@ == TransactionView::begin(url@, path@, optional_str_view(temp_path)),
    {
        let temp_path = match temp_path {
            Some(temp_path) => Some(String::from_str(temp_path)),
            None => None,
        };
        let entries: Vec<String> = Vec::new();
        assert(views(entries@) =~= Seq::<Seq<char>>::empty());
        Self::make(
            String::from_str(url),
            String::from_str(path),
            temp_path,
            Progress::Unpacking,
            entries,
            0,
        )
    }

    /// Turns to entry `index` of the patch list.
    fn patch_entry(self, index: usize) -> (tx: Self)
        ensures
            tx@ == self@.patch_entry(index as nat),
    {
        let DiffTransaction { url, path, temp_path, stage: _, entries, next: _ } = self;
        if index >= entries.len() {
            Self::make(url, path, temp_path, Progress::ClosingPatchList, entries, index)
        } else {
            match parse_record(entries[index].as_str()) {
                Some(_) => Self::make(
                    url,
                    path,
                    temp_path,
                    Progress::Patching(PatchStep::Apply),
                    entries,
                    index,
                ),
                None => {
                    let message = joined(
                        "Malformed record in hdifffiles.txt: ",
                        entries[index].as_str(),
                    );
                    Self::make(url, path, temp_path, Progress::Aborted(message), entries, index)
                },
            }
        }
    }

    /// Turns to entry `index` of the delete list.
    fn delete_entry(self, index: usize) -> (tx: Self)
        ensures
            tx@ == self@.delete_entry(index as nat),
    {
        let DiffTransaction { url, path, temp_path, stage: _, entries, next: _ } = self;
        if index >= entries.len() {
            Self::make(url, path, temp_path, Progress::ClosingDeleteList, entries, index)
        } else {
            Self::make(url, path, temp_path, Progress::Deleting, entries, index)
        }
    }

    /// Gives the transaction up.
    fn abort(self, what: &str, detail: &str) -> (tx: Self)
        ensures
            tx@ == self@.at(Stage::Aborted(what@ + ": "@ + detail@)),
    {
        let DiffTransaction { url, path, temp_path, stage: _, entries, next } = self;
        let message = abort_message(what, detail);
        Self::make(url, path, temp_path, Progress::Aborted(message), entries, next)
    }

    /// Moves to `stage`, at which no entry needs to be in turn.
    fn move_to(self, stage: Progress) -> (tx: Self)
        requires
            !(stage@ is Patching),
            !(stage@ is Deleting),
        ensures
            tx@ == self@.at(stage@),
    {
        let DiffTransaction { url, path, temp_path, stage: _, entries, next } = self;
        Self::make(url, path, temp_path, stage, entries, next)
    }

    /// Moves to the next step on the entry in turn of the patch list.
    fn step_to(self, step: PatchStep) -> (tx: Self)
        requires
            self@.stage is Patching,
        ensures
            tx@ == self@.at(Stage::Patching(step)),
    {
        proof {
            use_type_invariant(&self);
        }
        let DiffTransaction { url, path, temp_path, stage: _, entries, next } = self;
        Self::make(url, path, temp_path, Progress::Patching(step), entries, next)
    }

    /// Takes `lines` for the list to work on.
    fn with_entries(self, lines: Vec<String>) -> (tx: Self)
        requires
            self@.stage is ReadingPatchList || self@.stage is ReadingDeleteList,
        ensures
            tx@ == (TransactionView { entries: views(lines@), ..self@ }),
    {
        let DiffTransaction { url, path, temp_path, stage, entries: _, next } = self;
        Self::make(url, path, temp_path, stage, lines, next)
    }

    /// Whether the transaction has ended: the pending action is then
    /// [`Action::Finish`] or [`Action::Abort`], and no event changes it.
    pub fn finished(&self) -> (res: bool)
        ensures
            res == self@.finished(),
    {
        match &self.stage {
            Progress::Done => true,
            Progress::Failed(_) => true,
            Progress::Aborted(_) => true,
            _ => false,
        }
    }

    /// The action that has to be performed next.
    pub fn pending(&self) -> (action: Action)
        ensures
            action@ == self@.pending(),
    {
        proof {
            use_type_invariant(self);
        }
        match &self.stage {
            Progress::Unpacking => Action::Unpack {
                url: self.url.clone(),
                path: self.path.clone(),
                temp_path: clone_optional(&self.temp_path),
            },
            Progress::ReadingPatchList => Action::ReadList {
                path: joined(self.path.as_str(), "/hdifffiles.txt"),
            },
            Progress::Patching(step) => {
                let file = entry_file(self.path.as_str(), &self.entries, self.next);
                match step {
                    PatchStep::Apply => {
                        let patch = joined(file.as_str(), ".hdiff");
                        let output = joined(file.as_str(), ".hdiff_patched");
                        Action::Patch { file, patch, output }
                    },
                    PatchStep::RemoveOld => Action::Remove { path: file },
                    PatchStep::RemovePatch => Action::Remove {
                        path: joined(file.as_str(), ".hdiff"),
                    },
                    PatchStep::Rename => Action::Rename {
                        from: joined(file.as_str(), ".hdiff_patched"),
                        to: file,
                    },
                }
            },
            Progress::ClosingPatchList => Action::Remove {
                path: joined(self.path.as_str(), "/hdifffiles.txt"),
            },
            Progress::ReadingDeleteList => Action::ReadList {
                path: joined(self.path.as_str(), "/deletefiles.txt"),
            },
            Progress::Deleting => Action::Remove {
                path: joined(
                    joined(self.path.as_str(), "/").as_str(),
                    self.entries[self.next].as_str(),
                ),
            },
            Progress::ClosingDeleteList => Action::Remove {
                path: joined(self.path.as_str(), "/deletefiles.txt"),
            },
            Progress::Done => Action::Finish { result: Ok(()) },
            Progress::Failed(error) => Action::Finish { result: Err(error.clone()) },
            Progress::Aborted(message) => Action::Abort { message: message.clone() },
        }
    }

    /// Takes in what came of the pending action and moves on. An event that
    /// does not answer the pending action changes nothing.
    pub fn advance(self, event: Event) -> (tx: Self)
        ensures
            tx@ == self@.advance(event@),
            tx@.wf(),
    {
        proof {
            use_type_invariant(&self);
            lemma_advance_wf(self@, event@);
        }
        match (&self.stage, event) {
            (Progress::Unpacking, Event::Unpacked(Ok(_))) => self.move_to(
                Progress::ReadingPatchList,
            ),
            (Progress::Unpacking, Event::Unpacked(Err(error))) => self.move_to(
                Progress::Failed(DiffDownloadError::Curl(error)),
            ),
            (Progress::ReadingPatchList, Event::ListRead(Listing::Text(text))) => {
                let lines = split_lines(text.as_str());
                self.with_entries(lines).patch_entry(0)
            },
            (Progress::ReadingPatchList, Event::ListRead(Listing::Absent)) => self.move_to(
                Progress::ReadingDeleteList,
            ),
            (Progress::ReadingPatchList, Event::ListRead(Listing::Unreadable(detail))) => {
                let list = joined(self.path.as_str(), "/hdifffiles.txt");
                let what = joined("Failed to read ", list.as_str());
                self.abort(what.as_str(), detail.as_str())
            },
            (Progress::Patching(PatchStep::Apply), Event::Patched(Ok(_))) => self.step_to(
                PatchStep::RemoveOld,
            ),
            (Progress::Patching(PatchStep::Apply), Event::Patched(Err(detail))) => self.move_to(
                Progress::Failed(DiffDownloadError::HdiffPatch(detail)),
            ),
            (Progress::Patching(PatchStep::RemoveOld), Event::Removed(outcome)) => {
                match outcome {
                    Ok(_) => self.step_to(PatchStep::RemovePatch),
                    Err(detail) => {
                        let file = entry_file(self.path.as_str(), &self.entries, self.next);
                        let what = joined("Failed to remove hdiff patch: ", file.as_str());
                        self.abort(what.as_str(), detail.as_str())
                    },
                }
            },
            (Progress::Patching(PatchStep::RemovePatch), Event::Removed(outcome)) => {
                match outcome {
                    Ok(_) => self.step_to(PatchStep::Rename),
                    Err(detail) => {
                        let file = entry_file(self.path.as_str(), &self.entries, self.next);
                        let patch = joined(file.as_str(), ".hdiff");
                        let what = joined("Failed to remove hdiff patch: ", patch.as_str());
                        self.abort(what.as_str(), detail.as_str())
                    },
                }
            },
            (Progress::Patching(PatchStep::Rename), Event::Renamed(outcome)) => {
                match outcome {
                    Ok(_) => {
                        assert(self.next < self.entries.len());
                        let index = self.next + 1;
                        self.patch_entry(index)
                    },
                    Err(detail) => {
                        let file = entry_file(self.path.as_str(), &self.entries, self.next);
                        let what = joined("Failed to rename hdiff patch: ", file.as_str());
                        self.abort(what.as_str(), detail.as_str())
                    },
                }
            },
            (Progress::ClosingPatchList, Event::Removed(outcome)) => {
                match outcome {
                    Ok(_) => self.move_to(Progress::ReadingDeleteList),
                    Err(detail) => self.abort("Failed to remove hdifffiles.txt", detail.as_str()),
                }
            },
            (Progress::ReadingDeleteList, Event::ListRead(Listing::Text(text))) => {
                let lines = split_lines(text.as_str());
                self.with_entries(lines).delete_entry(0)
            },
            (Progress::ReadingDeleteList, Event::ListRead(Listing::Absent)) => self.move_to(
                Progress::Done,
            ),
            (Progress::ReadingDeleteList, Event::ListRead(Listing::Unreadable(detail))) => {
                let list = joined(self.path.as_str(), "/deletefiles.txt");
                let what = joined("Failed to read ", list.as_str());
                self.abort(what.as_str(), detail.as_str())
            },
            (Progress::Deleting, Event::Removed(outcome)) => {
                match outcome {
                    Ok(_) => {
                        assert(self.next < self.entries.len());
                        let index = self.next + 1;
                        self.delete_entry(index)
                    },
                    Err(detail) => {
                        let file = joined(
                            joined(self.path.as_str(), "/").as_str(),
                            self.entries[self.next].as_str(),
                        );
                        let what = joined("Failed to remove outdated file: ", file.as_str());
                        self.abort(what.as_str(), detail.as_str())
                    },
                }
            },
            (Progress::ClosingDeleteList, Event::Removed(outcome)) => {
                match outcome {
                    Ok(_) => self.move_to(Progress::Done),
                    Err(detail) => self.abort("Failed to remove deletefiles.txt", detail.as_str()),
                }
            },
            _ => self,
        }
    }
}

} // verus!
