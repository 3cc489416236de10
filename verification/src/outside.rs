//! The world outside the library, as far as a run depends on it and changes it.
//!
//! Nothing here is executable. A [`World`] says how each piece of outside work
//! would turn out, so that a run can be followed to its end in a proof; an
//! [`Outside`] holds what a run can change: the files of the log directory, the
//! temporary directory, the object store and standard output.

use crate::protocol::{ActionView, EventView, ExitReportView, SourceFileView};
use vstd::prelude::*;

verus! {

/// How the outside work on one file turns out, whenever it is asked for.
pub struct Fate {
    /// The temporary directory that is created, or why none is.
    pub temp_dir: Result<Seq<char>, Seq<char>>,
    /// How the encrypting program ends, or why it cannot be run.
    pub encrypt: Result<ExitReportView, Seq<char>>,
    /// Whether the upload succeeds.
    pub upload: Result<(), Seq<char>>,
    /// Whether the source file can be deleted.
    pub delete: Result<(), Seq<char>>,
    /// Whether the temporary directory can be removed.
    pub release: Result<(), Seq<char>>,
    /// Whether standard output can be written to.
    pub print: Result<(), Seq<char>>,
}

impl Fate {
    /// The file is encrypted: there is a temporary directory and the program
    /// exits with zero.
    pub open spec fn encrypts(self) -> bool {
        self.temp_dir is Ok && self.encrypt is Ok && self.encrypt->Ok_0.success()
    }

    /// The file is encrypted and its upload succeeds.
    pub open spec fn uploads(self) -> bool {
        self.encrypts() && self.upload is Ok
    }

    /// Every step succeeds.
    pub open spec fn ships(self) -> bool {
        self.uploads() && self.delete is Ok
    }

    /// How the file's pipeline ends: with the first failure, or with the result
    /// of deleting the source.
    pub open spec fn outcome(self) -> Result<(), Seq<char>> {
        if self.temp_dir is Err {
            Err(self.temp_dir->Err_0)
        } else if !self.encrypts() {
            match self.encrypt {
                Ok(report) => Err(report.detail),
                Err(detail) => Err(detail),
            }
        } else if self.upload is Err {
            Err(self.upload->Err_0)
        } else {
            self.delete
        }
    }

    /// What the driver answers to an action of the file's pipeline, and to a
    /// `Print` while the file is the current one.
    pub open spec fn answer(self, action: ActionView) -> EventView {
        match action {
            ActionView::AcquireTempDir => EventView::TempDir(self.temp_dir),
            ActionView::Encrypt { .. } => EventView::Exited(self.encrypt),
            ActionView::Upload { .. } => EventView::Finished(self.upload),
            ActionView::DeleteSource { .. } => EventView::Finished(self.delete),
            ActionView::ReleaseTempDir => EventView::Finished(self.release),
            _ => EventView::Finished(self.print),
        }
    }
}

/// How all the outside work of a run turns out.
pub struct World {
    /// The entries of the log directory, or why it cannot be listed.
    pub listing: Result<Seq<SourceFileView>, Seq<char>>,
    /// The fate of each entry, in the order of the listing.
    pub fates: Seq<Fate>,
}

impl World {
    /// Every entry of the listing has its fate.
    pub open spec fn well_formed(self) -> bool {
        self.listing matches Ok(files) ==> self.fates.len() == files.len()
    }

    /// What the driver answers to `action` while the file at `index` is the
    /// current one.
    pub open spec fn answer(self, index: int, action: ActionView) -> EventView {
        match action {
            ActionView::ListDirectory { .. } => EventView::Listed(self.listing),
            _ => self.fates[index].answer(action),
        }
    }
}

/// An action and the event that answered it.
pub struct Exchange {
    pub action: ActionView,
    pub event: EventView,
}

/// What a run can change.
pub struct Outside {
    /// The paths of the files that are in the log directory.
    pub sources: Set<Seq<char>>,
    /// The temporary directory that exists, if one does.
    pub temp_dir: Option<Seq<char>>,
    /// The objects that were stored, as bucket and key, oldest first.
    pub stored: Seq<(Seq<char>, Seq<char>)>,
    /// What was written to standard output, oldest first.
    pub output: Seq<Seq<char>>,
}

impl Outside {
    /// What one answered action leaves behind. Only an action that succeeded
    /// changes anything, but for two: what was printed counts as output and a
    /// temporary directory that was released counts as gone, whatever the
    /// answer.
    pub open spec fn after(self, exchange: Exchange) -> Outside {
        match exchange.action {
            ActionView::Print { text } => Outside { output: self.output.push(text), ..self },
            ActionView::AcquireTempDir => match exchange.event {
                EventView::TempDir(Ok(path)) => Outside { temp_dir: Some(path), ..self },
                _ => self,
            },
            ActionView::Upload { bucket, key, path } => match exchange.event {
                EventView::Finished(Ok(_)) => Outside {
                    stored: self.stored.push((bucket, key)),
                    ..self
                },
                _ => self,
            },
            ActionView::DeleteSource { path } => match exchange.event {
                EventView::Finished(Ok(_)) => Outside {
                    sources: self.sources.remove(path),
                    ..self
                },
                _ => self,
            },
            ActionView::ReleaseTempDir => Outside { temp_dir: None, ..self },
            _ => self,
        }
    }

    /// What a sequence of answered actions leaves behind.
    pub open spec fn after_all(self, exchanges: Seq<Exchange>) -> Outside
        decreases exchanges.len(),
    {
        if exchanges.len() == 0 {
            self
        } else {
            self.after(exchanges[0]).after_all(exchanges.drop_first())
        }
    }

    /// A sequence of one.
    pub proof fn lemma_after_one(self, exchange: Exchange)
        ensures
            self.after_all(seq![exchange]) == self.after(exchange),
    {
        assert(seq![exchange].drop_first() =~= Seq::<Exchange>::empty());
        assert(self.after(exchange).after_all(Seq::<Exchange>::empty()) == self.after(exchange));
    }

    /// Doing one sequence and then another is doing the two in a row.
    pub proof fn lemma_after_all_in_turn(self, first: Seq<Exchange>, then: Seq<Exchange>)
        ensures
            self.after_all(first + then) == self.after_all(first).after_all(then),
        decreases first.len(),
    {
        if first.len() == 0 {
            assert(first + then =~= then);
        } else {
            assert((first + then).drop_first() =~= first.drop_first() + then);
            self.after(first[0]).lemma_after_all_in_turn(first.drop_first(), then);
        }
    }
}

} // verus!
