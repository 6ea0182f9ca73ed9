//! A log of events that keeps the latest of them, and counts the rest.

use vstd::prelude::*;
use super::event::{ErrEvent, Event};

verus! {

/// A list of errors, each with the place in a log where it occurred.
#[derive(Debug)]
pub struct ErrorLog(Vec<(usize, ErrEvent)>);

impl View for ErrorLog {
    type V = Seq<(usize, ErrEvent)>;

    /// The errors in the order in which they were added.
    closed spec fn view(&self) -> Seq<(usize, ErrEvent)> {
        self.0@
    }
}

impl ErrorLog {
    /// A list without errors.
    pub fn new() -> (log: Self)
        ensures
            log@ == Seq::<(usize, ErrEvent)>::empty(),
    {
        Self(Vec::new())
    }

    /// Adds `error`, which occurred at `location`, at the end of the list.
    pub fn push(&mut self, location: usize, error: ErrEvent)
        ensures
            final(self)@ == old(self)@.push((location, error)),
    {
        self.0.push((location, error));
    }

    /// Drops every error.
    pub fn clear(&mut self)
        ensures
            final(self)@ == Seq::<(usize, ErrEvent)>::empty(),
    {
        self.0.clear();
    }

    /// The errors in the order in which they were added.
    pub fn entries(&self) -> (entries: &Vec<(usize, ErrEvent)>)
        ensures
            entries@ == self@,
    {
        &self.0
    }
}

/// A sink for the events of a run.
///
/// A sink counts every event that it is given and can show the last one.
/// How many of the earlier events it keeps is its own affair. An
/// implementation says by `seen`, `seen_ok` and `last` what it counts and
/// shows.
pub trait Debugger {
    /// What holds of the sink between two calls.
    open spec fn wf(&self) -> bool {
        true
    }

    /// The number of events that the sink counts.
    open spec fn seen(&self) -> usize {
        arbitrary()
    }

    /// The number of events that the sink counts and that are no errors.
    open spec fn seen_ok(&self) -> usize {
        arbitrary()
    }

    /// The last event that the sink was given and still keeps.
    open spec fn last(&self) -> Option<Event> {
        arbitrary()
    }

    /// Whether the places of the errors that the sink keeps are numbers that
    /// the machine can hold.
    open spec fn listable(&self) -> bool {
        true
    }

    /// Whether `after` is the list `before` with the errors that the sink
    /// keeps added at its end.
    open spec fn listed(&self, before: &ErrorLog, after: &ErrorLog) -> bool {
        true
    }

    /// Drops the events that the sink keeps.
    fn clear(&mut self)
        requires
            old(self).wf(),
        ensures
            final(self).wf(),
            final(self).last() is None,
    ;

    /// Gives `event` to the sink: it is counted, as a good one if it is no
    /// error, and is the last event from now on.
    fn push(&mut self, event: Event)
        requires
            old(self).wf(),
            old(self).seen() < usize::MAX,
        ensures
            final(self).wf(),
            final(self).seen() == old(self).seen() + 1,
            final(self).seen_ok() == old(self).seen_ok() + if event is Ok {
                1int
            } else {
                0int
            },
            final(self).last() == Some(event),
    ;

    /// The number of events counted.
    fn total_events(&self) -> (total: usize)
        requires
            self.wf(),
        ensures
            total == self.seen(),
    ;

    /// The number of events counted that are no errors: no more than were
    /// counted.
    fn total_ok(&self) -> (total: usize)
        requires
            self.wf(),
        ensures
            total == self.seen_ok(),
            total <= self.seen(),
    ;

    /// The number of events counted that are errors.
    fn total_err(&self) -> (total: usize)
        requires
            self.wf(),
        ensures
            total == self.seen() - self.seen_ok(),
    {
        self.total_events() - self.total_ok()
    }

    /// Adds the errors that the sink keeps to `error_log`, each with its
    /// place.
    fn to_err_log(&self, error_log: &mut ErrorLog)
        requires
            self.wf(),
            self.listable(),
        ensures
            self.listed(old(error_log), final(error_log)),
    ;

    /// The last event, if the sink keeps one.
    fn last_event(&self) -> (event: Option<&Event>)
        requires
            self.wf(),
        ensures
            match event {
                Some(event) => self.last() == Some(*event),
                None => self.last() is None,
            },
    ;

    /// Whether the last event is an error. Without a last event the answer
    /// is `false`.
    fn is_err(&self) -> (err: bool)
        requires
            self.wf(),
        ensures
            err == (self.last() matches Some(Err(_))),
    {
        match self.last_event() {
            Some(event) => event.is_err(),
            None => false,
        }
    }

    /// Whether the last event is no error. Without a last event the answer
    /// is `false`.
    fn is_ok(&self) -> (ok: bool)
        requires
            self.wf(),
        ensures
            ok == (self.last() matches Some(Ok(_))),
    ;

    /// Whether no event counted is an error.
    fn all_ok(&self) -> (ok: bool)
        requires
            self.wf(),
        ensures
            ok == (self.seen() == self.seen_ok()),
    {
        self.total_events() == self.total_ok()
    }
}

/// Whether `after` is the sink `before` once it was given `event`: the event
/// is counted, as a good one if it is no error, and is the last event.
pub open spec fn pushed<D: Debugger>(before: &D, event: Event, after: &D) -> bool {
    &&& after.wf()
    &&& after.seen() == before.seen() + 1
    &&& after.seen_ok() == before.seen_ok() + if event is Ok {
        1int
    } else {
        0int
    }
    &&& after.last() == Some(event)
}

/// The number of events in `log` that are no errors.
pub open spec fn count_ok(log: Seq<Event>) -> nat
    decreases log.len(),
{
    if log.len() == 0 {
        0
    } else {
        count_ok(log.drop_last()) + if log.last() is Ok {
            1nat
        } else {
            0nat
        }
    }
}

/// The errors in `log`, in order, each with its index in `log` moved up by
/// `shift`.
pub open spec fn faults_of(log: Seq<Event>, shift: nat) -> Seq<(usize, ErrEvent)>
    decreases log.len(),
{
    if log.len() == 0 {
        Seq::empty()
    } else {
        let before = faults_of(log.drop_last(), shift);
        match log.last() {
            Ok(_) => before,
            Err(error) => before.push(((log.len() - 1 + shift) as usize, error)),
        }
    }
}

/// Counting the good events of a log in two parts gives the count of the
/// whole.
pub proof fn lemma_count_ok_split(log: Seq<Event>, at: int)
    requires
        0 <= at <= log.len(),
    ensures
        count_ok(log) == count_ok(log.take(at)) + count_ok(log.skip(at)),
        count_ok(log) <= log.len(),
    decreases log.len(),
{
    if log.len() == 0 {
        assert(log.take(at) =~= log);
        assert(log.skip(at) =~= log);
    } else if at == log.len() {
        assert(log.take(at) =~= log);
        assert(log.skip(at).len() == 0);
        lemma_count_ok_split(log.drop_last(), 0);
    } else {
        lemma_count_ok_split(log.drop_last(), at);
        assert(log.drop_last().take(at) =~= log.take(at));
        assert(log.drop_last().skip(at) =~= log.skip(at).drop_last());
        assert(log.skip(at).last() == log.last());
    }
}

/// What a [`BfDebugger`] holds: the events that it keeps, the number that it
/// keeps at most, and how many good events and errors it has dropped.
pub struct DebuggerView {
    pub log: Seq<Event>,
    pub max_length: usize,
    pub ok_before: usize,
    pub err_before: usize,
}

impl DebuggerView {
    /// The number of events counted: those kept and those dropped.
    pub open spec fn seen(self) -> nat {
        (self.ok_before + self.err_before + self.log.len()) as nat
    }

    /// The number of events counted that are no errors.
    pub open spec fn seen_ok(self) -> nat {
        (self.ok_before + count_ok(self.log)) as nat
    }

    /// Whether at least one event is kept at a time, and the count of all
    /// events is a number that the machine can hold.
    pub open spec fn wf(self) -> bool {
        &&& self.max_length >= 1
        &&& self.seen() <= usize::MAX
    }

    /// The number of events that are more than are kept.
    pub open spec fn excess(self) -> int {
        if self.log.len() > self.max_length {
            self.log.len() - self.max_length
        } else {
            0
        }
    }

    /// The log after the events that are more than are kept were dropped
    /// from its front and counted.
    pub open spec fn trimmed(self) -> DebuggerView {
        let dropped = self.log.take(self.excess());
        DebuggerView {
            log: self.log.skip(self.excess()),
            max_length: self.max_length,
            ok_before: (self.ok_before + count_ok(dropped)) as usize,
            err_before: (self.err_before + self.excess() - count_ok(dropped)) as usize,
        }
    }
}

/// Dropping the events that are more than are kept changes no count: the
/// events dropped are counted as before. The log is then no longer than
/// what is kept, and its last event is the same.
pub proof fn lemma_trimmed(view: DebuggerView)
    requires
        view.wf(),
    ensures
        view.trimmed().wf(),
        view.trimmed().seen() == view.seen(),
        view.trimmed().seen_ok() == view.seen_ok(),
        view.seen_ok() <= view.seen(),
        view.trimmed().log.len() <= view.max_length,
        view.log.len() > 0 ==> view.trimmed().log.len() > 0 && view.trimmed().log.last()
            == view.log.last(),
{
    let dropped = view.log.take(view.excess());
    lemma_count_ok_split(view.log, view.excess());
    lemma_count_ok_split(dropped, 0);
}

/// A log that keeps the latest events, five unless another number is chosen,
/// and counts the events that it has dropped.
#[derive(Debug)]
pub struct BfDebugger {
    log: Vec<Event>,
    max_length: usize,
    ok_before: usize,
    err_before: usize,
}

impl View for BfDebugger {
    type V = DebuggerView;

    closed spec fn view(&self) -> DebuggerView {
        DebuggerView {
            log: self.log@,
            max_length: self.max_length,
            ok_before: self.ok_before,
            err_before: self.err_before,
        }
    }
}

impl BfDebugger {
    /// An empty log that keeps five events.
    pub fn new() -> (debugger: Self)
        ensures
            debugger@ == (DebuggerView {
                log: Seq::empty(),
                max_length: 5,
                ok_before: 0,
                err_before: 0,
            }),
    {
        Self { log: Vec::new(), max_length: 5, ok_before: 0, err_before: 0 }
    }

    /// The same log, keeping `max_length` events from now on, or one event if
    /// `max_length` is zero.
    pub fn with_max_length(self, max_length: usize) -> (debugger: Self)
        ensures
            debugger@ == (DebuggerView {
                max_length: if max_length == 0 {
                    1
                } else {
                    max_length
                },
                ..self@
            }),
    {
        let max_length = match max_length {
            0 => 1,
            n => n,
        };
        let mut debugger = self;
        debugger.max_length = max_length;
        debugger
    }

    /// Drops from the front of the log the events that are more than are
    /// kept, and counts them. The answer is the number of events dropped.
    pub fn castrate(&mut self) -> (dropped: usize)
        requires
            old(self)@.seen() <= usize::MAX,
        ensures
            final(self)@ == old(self)@.trimmed(),
            dropped == old(self)@.excess(),
    {
        let log_len = self.log.len();
        if log_len > self.max_length {
            let mut ok_removed: usize = 0;
            let mut err_removed: usize = 0;
            let ghost whole = self.log@;
            let mut i: usize = self.max_length;
            while i < log_len
                invariant
                    self.max_length <= i <= log_len,
                    log_len == whole.len(),
                    self.max_length == old(self).max_length,
                    self.ok_before == old(self).ok_before,
                    self.err_before == old(self).err_before,
                    self.log@ == whole.skip(i - self.max_length),
                    ok_removed == count_ok(whole.take(i - self.max_length)),
                    ok_removed + err_removed == i - self.max_length,
                decreases log_len - i,
            {
                let ghost done = i - self.max_length;
                let event = self.log.remove(0);
                proof {
                    assert(self.log@ =~= whole.skip(done + 1));
                    assert(whole.take(done + 1).drop_last() =~= whole.take(done));
                    assert(whole.take(done + 1).last() == event);
                }
                match event {
                    Ok(_) => ok_removed += 1,
                    Err(_) => err_removed += 1,
                }
                i += 1;
            }
            proof {
                lemma_count_ok_split(whole, log_len - self.max_length);
            }
            self.ok_before += ok_removed;
            self.err_before += err_removed;
            log_len - self.max_length
        } else {
            assert(self.log@.skip(0) =~= self.log@);
            assert(self.log@.take(0) =~= Seq::<Event>::empty());
            0
        }
    }

    /// The events that the log keeps, the oldest first.
    pub fn events(&self) -> (events: &Vec<Event>)
        ensures
            events@ == self@.log,
    {
        &self.log
    }
}

impl Debugger for BfDebugger {
    open spec fn wf(&self) -> bool {
        self@.wf()
    }

    open spec fn seen(&self) -> usize {
        self@.seen() as usize
    }

    open spec fn seen_ok(&self) -> usize {
        self@.seen_ok() as usize
    }

    open spec fn last(&self) -> Option<Event> {
        if self@.log.len() > 0 {
            Some(self@.log.last())
        } else {
            None
        }
    }

    open spec fn listable(&self) -> bool {
        forall|i: int|
            0 <= i < self@.log.len() && (#[trigger] self@.log[i]) is Err ==> i + self@.seen()
                <= usize::MAX
    }

    open spec fn listed(&self, before: &ErrorLog, after: &ErrorLog) -> bool {
        after@ == before@ + faults_of(self@.log, self@.seen())
    }

    /// Drops the events that the log keeps. What was counted stays counted.
    fn clear(&mut self)
        ensures
            final(self)@ == (DebuggerView { log: Seq::empty(), ..old(self)@ }),
    {
        self.log.clear();
        proof {
            lemma_count_ok_split(old(self)@.log, 0);
        }
    }

    /// Adds `event` at the end of the log, and drops the oldest events if
    /// there are now more than are kept.
    fn push(&mut self, event: Event)
        ensures
            final(self)@ == (DebuggerView { log: old(self)@.log.push(event), ..old(self)@ }).trimmed(),
    {
        let ghost pushed = DebuggerView { log: self@.log.push(event), ..self@ };
        self.log.push(event);
        self.castrate();
        proof {
            lemma_trimmed(pushed);
            lemma_count_ok_split(old(self)@.log, 0);
            assert(pushed.log.drop_last() =~= old(self)@.log);
        }
    }

    fn total_events(&self) -> (total: usize) {
        self.ok_before + self.err_before + self.log.len()
    }

    fn total_ok(&self) -> (total: usize) {
        let mut ok: usize = 0;
        let mut i: usize = 0;
        while i < self.log.len()
            invariant
                i <= self.log.len(),
                ok == count_ok(self.log@.take(i as int)),
                ok <= i,
            decreases self.log.len() - i,
        {
            assert(self.log@.take(i + 1).drop_last() =~= self.log@.take(i as int));
            if self.log[i].is_ok() {
                ok += 1;
            }
            i += 1;
        }
        assert(self.log@.take(i as int) =~= self.log@);
        proof {
            lemma_count_ok_split(self.log@, 0);
        }
        ok + self.ok_before
    }

    /// Adds the errors that the log keeps to `error_log`. The place of an
    /// error is its index in the log, moved up by the number of events
    /// counted.
    fn to_err_log(&self, error_log: &mut ErrorLog) {
        let total_events = self.total_events();
        let mut index: usize = 0;
        assert(old(error_log)@ + faults_of(self.log@.take(0), total_events as nat) =~= old(
            error_log,
        )@);
        while index < self.log.len()
            invariant
                index <= self.log.len(),
                total_events == self@.seen(),
                self.listable(),
                self@.log == self.log@,
                error_log@ == old(error_log)@ + faults_of(
                    self.log@.take(index as int),
                    total_events as nat,
                ),
            decreases self.log.len() - index,
        {
            proof {
                assert(self.log@.take(index + 1).drop_last() =~= self.log@.take(index as int));
                assert(self.log@.take(index + 1).last() == self.log@[index as int]);
            }
            let ghost before = error_log@;
            match &self.log[index] {
                Ok(_) => {},
                Err(e) => {
                    let error = e.clone();
                    error_log.push(index + total_events, error);
                    assert(error_log@ =~= old(error_log)@ + faults_of(
                        self.log@.take(index + 1),
                        total_events as nat,
                    ));
                },
            }
            index += 1;
        }
        assert(self.log@.take(index as int) =~= self.log@);
    }

    fn last_event(&self) -> (event: Option<&Event>) {
        if self.log.len() > 0 {
            Some(&self.log[self.log.len() - 1])
        } else {
            None
        }
    }

    fn is_ok(&self) -> (ok: bool) {
        match self.last_event() {
            Some(event) => event.is_ok(),
            None => false,
        }
    }
}

} // verus!
