//! The tally of one batch of uploads, and the record of it that goes to the history.
use vstd::prelude::*;
use vstd::string::*;
use crate::clock::{chrono_now_iso, iso_text, representable};
use crate::text::strings;

verus! {

/// The record of one batch of uploads.
#[derive(Debug)]
pub struct UploadSessionLog {
    /// When the batch began, in UTC.
    pub time: String,
    /// How many files were chosen.
    pub total: usize,
    /// How many were sent, those that the backend already had among them.
    pub success: u32,
    /// How many were not.
    pub failed: u32,
    /// The names of those that were not.
    pub failed_files: Vec<String>,
}

/// What the record of a batch holds.
#[verifier::ext_equal]
pub struct SessionView {
    pub time: Seq<char>,
    pub total: usize,
    pub success: u32,
    pub failed: u32,
    pub failed_files: Seq<Seq<char>>,
}

impl View for UploadSessionLog {
    type V = SessionView;

    open spec fn view(&self) -> SessionView {
        SessionView {
            time: self.time@,
            total: self.total,
            success: self.success,
            failed: self.failed,
            failed_files: strings(self.failed_files@),
        }
    }
}

/// The tally of a batch that is under way.
#[derive(Debug)]
pub struct SessionCounter {
    total: usize,
    success: u32,
    failed: u32,
    failed_files: Vec<String>,
    started_at: String,
}

impl View for SessionCounter {
    type V = SessionView;

    closed spec fn view(&self) -> SessionView {
        SessionView {
            time: self.started_at@,
            total: self.total,
            success: self.success,
            failed: self.failed,
            failed_files: strings(self.failed_files@),
        }
    }
}

/// The tally after one more success. The count starts again at zero when it is full.
pub open spec fn one_success(s: SessionView) -> SessionView {
    SessionView {
        success: if s.success == u32::MAX {
            0
        } else {
            (s.success + 1) as u32
        },
        ..s
    }
}

/// The tally after one more failure. The count starts again at zero when it is full.
pub open spec fn one_failure(s: SessionView, filename: Seq<char>) -> SessionView {
    SessionView {
        failed: if s.failed == u32::MAX {
            0
        } else {
            (s.failed + 1) as u32
        },
        failed_files: s.failed_files.push(filename),
        ..s
    }
}

/// Every file of the batch has been sent or has failed.
pub open spec fn session_complete(s: SessionView) -> bool {
    s.success + s.failed >= s.total
}

impl SessionCounter {
    /// The tally of a batch of `total` files that begins `now`, in seconds since 1970.
    pub fn new(total: usize, now: u64) -> (r: Self)
        requires
            representable(now as int),
        ensures
            r@ == (SessionView {
                time: iso_text(now as int),
                total,
                success: 0,
                failed: 0,
                failed_files: Seq::empty(),
            }),
    {
        let r = SessionCounter {
            total,
            success: 0,
            failed: 0,
            failed_files: Vec::new(),
            started_at: chrono_now_iso(now),
        };
        assert(strings(r.failed_files@) =~= Seq::empty());
        r
    }

    /// Counts a file that was sent.
    pub fn record_success(&mut self)
        ensures
            final(self)@ == one_success(old(self)@),
    {
        self.success = self.success.wrapping_add(1);
    }

    /// Counts a file that was not sent.
    pub fn record_failure(&mut self, filename: &str)
        ensures
            final(self)@ == one_failure(old(self)@, filename@),
    {
        self.failed = self.failed.wrapping_add(1);
        self.failed_files.push(filename.to_string());
        assert(strings(self.failed_files@) =~= strings(old(self).failed_files@).push(filename@));
    }

    /// Whether every file of the batch has been sent or has failed.
    pub fn is_complete(&self) -> (r: bool)
        requires
            self@.success + self@.failed <= u32::MAX,
        ensures
            r == session_complete(self@),
    {
        let done: u32 = self.success + self.failed;
        done as usize >= self.total
    }

    /// Whether the two counts can be added up.
    pub fn is_countable(&self) -> (r: bool)
        ensures
            r == (self@.success + self@.failed <= u32::MAX),
    {
        self.success.checked_add(self.failed).is_some()
    }

    /// The record of the batch.
    pub fn to_log(&self) -> (r: UploadSessionLog)
        ensures
            r@ == self@,
    {
        let mut failed_files: Vec<String> = Vec::new();
        let mut i: usize = 0;
        assert(strings(failed_files@) =~= strings(self.failed_files@).take(0));
        while i < self.failed_files.len()
            invariant
                i <= self.failed_files@.len(),
                strings(failed_files@) == strings(self.failed_files@).take(i as int),
            decreases self.failed_files@.len() - i,
        {
            let ghost before = failed_files@;
            failed_files.push(self.failed_files[i].clone());
            assert(strings(failed_files@) =~= strings(before).push(self.failed_files@[i as int]@));
            i = i + 1;
            assert(strings(failed_files@) =~= strings(self.failed_files@).take(i as int));
        }
        assert(strings(self.failed_files@).take(i as int) =~= strings(self.failed_files@));
        UploadSessionLog {
            time: self.started_at.clone(),
            total: self.total,
            success: self.success,
            failed: self.failed,
            failed_files,
        }
    }
}

/// The tally of a batch after a run of outcomes: none for a file that was sent, its name for one
/// that was not.
pub open spec fn tallied(s: SessionView, outcomes: Seq<Option<Seq<char>>>) -> SessionView
    decreases outcomes.len(),
{
    if outcomes.len() == 0 {
        s
    } else {
        let before = tallied(s, outcomes.drop_last());
        match outcomes.last() {
            None => one_success(before),
            Some(name) => one_failure(before, name),
        }
    }
}

/// A batch is complete when, and not before, each of its files has had its outcome; then the
/// counts add up to the files, and the failures are as many as the names in the record.
pub proof fn law_session_adds_up(s: SessionView, outcomes: Seq<Option<Seq<char>>>)
    requires
        s.success == 0,
        s.failed == 0,
        s.failed_files.len() == 0,
        outcomes.len() <= u32::MAX,
    ensures
        tallied(s, outcomes).success + tallied(s, outcomes).failed == outcomes.len(),
        tallied(s, outcomes).failed == tallied(s, outcomes).failed_files.len(),
        tallied(s, outcomes).total == s.total,
        tallied(s, outcomes).time == s.time,
        session_complete(tallied(s, outcomes)) <==> outcomes.len() >= s.total,
    decreases outcomes.len(),
{
    if outcomes.len() > 0 {
        law_session_adds_up(s, outcomes.drop_last());
    }
}

/// The names of the files that were not sent, in order.
pub open spec fn failed_names(outcomes: Seq<Option<Seq<char>>>) -> Seq<Seq<char>>
    decreases outcomes.len(),
{
    if outcomes.len() == 0 {
        Seq::empty()
    } else if outcomes.last() is Some {
        failed_names(outcomes.drop_last()).push(outcomes.last()->0)
    } else {
        failed_names(outcomes.drop_last())
    }
}

/// The record of a batch names exactly the files that were not sent, in the order of their failures, and
/// counts every other outcome as a success.
pub proof fn law_record_tells_the_outcomes(s: SessionView, outcomes: Seq<Option<Seq<char>>>)
    requires
        s.success == 0,
        s.failed == 0,
        s.failed_files.len() == 0,
        outcomes.len() <= u32::MAX,
    ensures
        tallied(s, outcomes).failed_files == failed_names(outcomes),
        tallied(s, outcomes).failed == failed_names(outcomes).len(),
        tallied(s, outcomes).success == outcomes.len() - failed_names(outcomes).len(),
        tallied(s, outcomes).total == s.total,
        tallied(s, outcomes).time == s.time,
    decreases outcomes.len(),
{
    law_session_adds_up(s, outcomes);
    if outcomes.len() > 0 {
        law_record_tells_the_outcomes(s, outcomes.drop_last());
    } else {
        assert(s.failed_files =~= Seq::empty());
    }
}

/// One outcome more is one count more, and only that.
pub proof fn law_one_outcome(s: SessionView, name: Seq<char>)
    ensures
        s.success < u32::MAX ==> one_success(s).success == s.success + 1,
        s.success == u32::MAX ==> one_success(s).success == 0,
        one_success(s).failed == s.failed,
        one_success(s).failed_files == s.failed_files,
        one_success(s).total == s.total,
        one_success(s).time == s.time,
        s.failed < u32::MAX ==> one_failure(s, name).failed == s.failed + 1,
        s.failed == u32::MAX ==> one_failure(s, name).failed == 0,
        one_failure(s, name).success == s.success,
        one_failure(s, name).failed_files.len() == s.failed_files.len() + 1,
        one_failure(s, name).failed_files.last() == name,
        one_failure(s, name).failed_files.drop_last() == s.failed_files,
        one_failure(s, name).total == s.total,
        one_failure(s, name).time == s.time,
        session_complete(s) <==> s.success + s.failed >= s.total,
{
    assert(one_failure(s, name).failed_files.drop_last() =~= s.failed_files);
}

/// The record of a session is told by its time, its counts and the names of the files that failed.
pub proof fn law_record_is_what_it_holds(log: UploadSessionLog, i: int)
    ensures
        log@.time == log.time@,
        log@.total == log.total,
        log@.success == log.success,
        log@.failed == log.failed,
        log@.failed_files.len() == log.failed_files@.len(),
        0 <= i < log.failed_files@.len() ==> log@.failed_files[i] == log.failed_files@[i]@,
{
}

} // verus!
