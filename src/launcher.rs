use vstd::prelude::*;

use std::sync::mpsc::Sender;

use crate::error::{Error, ErrorKind};
use crate::script::{Script, ScriptView};

verus! {

#[verifier::external_type_specification]
#[verifier::external_body]
#[verifier::reject_recursive_types(T)]
pub struct ExSender<T>(Sender<T>);

/// The submitting end of the single-worker job queue. A worker on the other
/// end runs the jobs one at a time, in the order they were submitted.
pub struct Launcher {
    tx: Sender<Script>,
    /// Every job that the queue accepted so far, in order. Only `send_job`
    /// extends it.
    submitted: Ghost<Seq<ScriptView>>,
}

impl Launcher {
    /// The queue's submitting end.
    pub closed spec fn sender(&self) -> Sender<Script> {
        self.tx
    }

    /// The jobs that the queue accepted so far, in the order of submission.
    pub closed spec fn submitted(&self) -> Seq<ScriptView> {
        self.submitted@
    }

    /// A launcher that submits to the worker that receives from `tx`.
    pub fn new(tx: Sender<Script>) -> (r: Launcher)
        ensures
            r.sender() == tx,
            r.submitted() == Seq::<ScriptView>::empty(),
    {
        Launcher { tx, submitted: Ghost(Seq::empty()) }
    }

    /// Relies on `std::sync::mpsc::Sender::send`: it never blocks; on success
    /// the job is at the tail of the queue, and it fails, leaving the queue as
    /// it was, only where the receiver is gone. Whether it is gone is not
    /// known here, so success is not promised.
    #[verifier::external_body]
    fn send_job(&mut self, job: Script) -> (r: bool)
        ensures
            r ==> final(self).submitted() == old(self).submitted().push(job@),
            !r ==> final(self).submitted() == old(self).submitted(),
            final(self).sender() == old(self).sender(),
    {
        self.tx.send(job).is_ok()
    }

    /// Submits `script` to the queue without waiting for it to run. The only
    /// failure is a queue whose worker is gone; the job is then not queued.
    pub fn add(&mut self, script: Script) -> (r: Result<(), Error>)
        ensures
            r is Ok ==> final(self).submitted() == old(self).submitted().push(script@),
            r is Err ==> final(self).submitted() == old(self).submitted(),
            final(self).sender() == old(self).sender(),
            r matches Err(e) ==> e.kind == ErrorKind::SubmitFailed,
    {
        if self.send_job(script) {
            Ok(())
        } else {
            Err(Error::new(ErrorKind::SubmitFailed, String::new()))
        }
    }
}

} // verus!
