//! The process-wide session registry: records, acquire / release,
//! inbound delivery, broadcast fan-out, and the idle-expiry sweep.
//!
//! At any instant at most one transport holds a record checked out: an
//! entry whose `record` field is `None` is checked out (attached), one
//! whose field is `Some` is detached and idle.

use vstd::prelude::*;
use crate::protocol::{CloseReason, Frame, FrameV, SessionError, SessionState};

verus! {

/// Seconds a detached session may stay idle before the sweep expires it.
pub const IDLE_TIMEOUT_SECS: u64 = 10;

/// Seconds between two runs of the expiry sweep.
pub const SWEEP_PERIOD_SECS: u64 = 10;

/// Seconds between two transport heartbeat frames.
pub const HEARTBEAT_SECS: u64 = 5;

/// Per-session record, checked out by the one attached transport and
/// handed back on release.
pub struct Record {
    /// Session id.
    pub sid: String,
    /// Lifecycle state; only ever advances.
    pub state: SessionState,
    /// Frames buffered while the holding transport is not ready.
    pub buffer: Vec<Frame>,
}

/// Mathematical model of a `Record`.
pub struct RecordV {
    pub sid: Seq<char>,
    pub state: SessionState,
    pub buffer: Seq<FrameV>,
}

impl View for Record {
    type V = RecordV;

    open spec fn view(&self) -> RecordV {
        RecordV { sid: self.sid@, state: self.state, buffer: self.buffer.deep_view() }
    }
}

impl DeepView for Record {
    type V = RecordV;

    open spec fn deep_view(&self) -> RecordV {
        self.view()
    }
}

impl Record {
    pub fn new(sid: String) -> (r: Record)
        ensures
            r@ == (RecordV { sid: sid@, state: SessionState::New, buffer: Seq::<FrameV>::empty() }),
    {
        let r = Record { sid, state: SessionState::New, buffer: Vec::new() };
        proof {
            assert(r.buffer.deep_view() =~= Seq::<FrameV>::empty());
        }
        r
    }

    /// Enters the terminal state.
    pub fn close(&mut self)
        ensures
            final(self)@ == (RecordV { state: SessionState::Closed, ..old(self)@ }),
    {
        self.state = SessionState::Closed;
    }

    /// Marks a running session interrupted; any other state is kept.
    pub fn interrupted(&mut self)
        ensures
            old(self)@.state == SessionState::Running ==> final(self)@ == (RecordV {
                state: SessionState::Interrupted,
                ..old(self)@
            }),
            old(self)@.state != SessionState::Running ==> final(self)@ == old(self)@,
    {
        if self.state == SessionState::Running {
            self.state = SessionState::Interrupted;
        }
    }

    /// Appends a frame to the record's buffer.
    pub fn add(&mut self, frm: Frame)
        ensures
            final(self)@ == (RecordV {
                buffer: old(self)@.buffer.push(frm@),
                ..old(self)@
            }),
    {
        let ghost b0 = self.buffer.deep_view();
        self.buffer.push(frm);
        proof {
            assert(self.buffer.deep_view() =~= b0.push(frm@));
        }
    }
}

/// Notification delivered from the manager to a session's task.
#[derive(Clone, Copy, Debug, PartialEq, Eq, Structural)]
pub enum SessionEvent {
    /// The session was just created; its `opened` hook runs once.
    Opened,
    /// A transport attached; buffered output will be flushed to it.
    Acquired,
    /// The transport detached without closing.
    Released,
    /// The session ended; the `closed` hook runs with this reason.
    Closed(CloseReason),
}

/// One registry slot.
pub struct SessionEntry {
    /// Session id, unique in the registry.
    pub sid: String,
    /// The record while detached; `None` while a transport holds it.
    pub record: Option<Record>,
    /// Seconds timestamp of the last release (or of creation).
    pub tick: u64,
}

/// Mathematical model of a registry slot.
pub struct EntryV {
    pub sid: Seq<char>,
    pub record: Option<RecordV>,
    pub tick: u64,
}

impl View for SessionEntry {
    type V = EntryV;

    open spec fn view(&self) -> EntryV {
        EntryV { sid: self.sid@, record: self.record.deep_view(), tick: self.tick }
    }
}

impl DeepView for SessionEntry {
    type V = EntryV;

    open spec fn deep_view(&self) -> EntryV {
        self.view()
    }
}

/// Sid uniqueness across the registry.
pub open spec fn unique_sids(es: Seq<EntryV>) -> bool {
    forall|i: int, j: int| 0 <= i < j < es.len() ==> es[i].sid != es[j].sid
}

/// Entry `e` is past its idle deadline at `now`.
pub open spec fn is_expired(e: EntryV, now: u64, timeout: u64) -> bool {
    e.record is Some && e.tick + timeout < now
}

/// The entries that survive a sweep at `now`, in order.
pub open spec fn swept(es: Seq<EntryV>, now: u64, timeout: u64) -> Seq<EntryV>
    decreases es.len(),
{
    if es.len() == 0 {
        Seq::<EntryV>::empty()
    } else if is_expired(es.last(), now, timeout) {
        swept(es.drop_last(), now, timeout)
    } else {
        swept(es.drop_last(), now, timeout).push(es.last())
    }
}

/// The sids a sweep at `now` expires, in order.
pub open spec fn expired_sids(es: Seq<EntryV>, now: u64, timeout: u64) -> Seq<Seq<char>>
    decreases es.len(),
{
    if es.len() == 0 {
        Seq::<Seq<char>>::empty()
    } else if is_expired(es.last(), now, timeout) {
        expired_sids(es.drop_last(), now, timeout).push(es.last().sid)
    } else {
        expired_sids(es.drop_last(), now, timeout)
    }
}

/// The sids of checked-out (attached) entries, in order.
pub open spec fn attached_sids(es: Seq<EntryV>) -> Seq<Seq<char>>
    decreases es.len(),
{
    if es.len() == 0 {
        Seq::<Seq<char>>::empty()
    } else if es.last().record is None {
        attached_sids(es.drop_last()).push(es.last().sid)
    } else {
        attached_sids(es.drop_last())
    }
}

/// Event the manager sends the session when a transport hands a record
/// back.
pub open spec fn release_event(st: SessionState) -> SessionEvent {
    match st {
        SessionState::Closed => SessionEvent::Closed(CloseReason::Normal),
        SessionState::Interrupted => SessionEvent::Closed(CloseReason::Interrupted),
        _ => SessionEvent::Released,
    }
}

/// The session registry.
pub struct SockJSManager {
    pub sessions: Vec<SessionEntry>,
}

impl SockJSManager {
    /// Model of the registry contents.
    pub open spec fn entries(&self) -> Seq<EntryV> {
        self.sessions.deep_view()
    }

    /// Well-formedness: sids are unique.
    pub open spec fn wf(&self) -> bool {
        unique_sids(self.entries())
    }

    /// Some entry carries `sid`.
    pub open spec fn has_sid(&self, sid: Seq<char>) -> bool {
        exists|i: int| 0 <= i < self.entries().len() && self.entries()[i].sid == sid
    }

    /// The index of the entry carrying `sid` (unique under `wf`).
    pub open spec fn idx_of(&self, sid: Seq<char>) -> int {
        choose|i: int| 0 <= i < self.entries().len() && self.entries()[i].sid == sid
    }

    /// `sid` is present and currently checked out by a transport.
    pub open spec fn spec_attached(&self, sid: Seq<char>) -> bool {
        self.has_sid(sid) && self.entries()[self.idx_of(sid)].record is None
    }

    pub fn new() -> (r: SockJSManager)
        ensures
            r.wf(),
            r.entries() == Seq::<EntryV>::empty(),
    {
        let r = SockJSManager { sessions: Vec::new() };
        proof {
            assert(r.entries() =~= Seq::<EntryV>::empty());
        }
        r
    }

    /// Index of the entry carrying `sid`, if any.
    fn find(&self, sid: &String) -> (r: Option<usize>)
        ensures
            r matches Some(i) ==> 0 <= i < self.entries().len() && self.entries()[i as int].sid
                == sid@,
            r is None ==> !self.has_sid(sid@),
    {
        let mut i: usize = 0;
        while i < self.sessions.len()
            invariant
                i <= self.sessions.len(),
                forall|j: int| 0 <= j < i ==> self.entries()[j].sid != sid@,
            decreases self.sessions.len() - i,
        {
            if self.sessions[i].sid == *sid {
                proof {
                    assert(self.entries()[i as int].sid == sid@);
                }
                return Some(i);
            }
            i = i + 1;
        }
        None
    }

    /// A transport asks to take the session `sid`, at instant `now`.
    ///
    /// At most one transport has a record checked out: when `sid` is
    /// already checked out, the call returns `SessionError::Acquired` and
    /// mutates nothing. When `sid` is detached, the caller gets its
    /// record. When `sid` is new, a fresh record in state `New` is handed
    /// out and the session's `opened` hook is owed, so the events are
    /// `[Opened, Acquired]`; otherwise `[Acquired]`.
    pub fn acquire(&mut self, sid: &String, now: u64) -> (r: Result<
        (Record, Vec<SessionEvent>),
        SessionError,
    >)
        requires
            old(self).wf(),
        ensures
            final(self).wf(),
            old(self).spec_attached(sid@) ==> (r matches Err(e) && e == SessionError::Acquired
                && *final(self) == *old(self)),
            old(self).has_sid(sid@) && !old(self).spec_attached(sid@) ==> (r matches Ok(p) && ({
                let i = old(self).idx_of(sid@);
                &&& old(self).entries()[i].record matches Some(rv) && p.0@ == rv
                &&& p.1@ == seq![SessionEvent::Acquired]
                &&& final(self).entries() == old(self).entries().update(i, (EntryV {
                    record: None,
                    ..old(self).entries()[i]
                }))
            })),
            !old(self).has_sid(sid@) ==> (r matches Ok(p) && ({
                &&& p.0@ == (RecordV {
                    sid: sid@,
                    state: SessionState::New,
                    buffer: Seq::<FrameV>::empty(),
                })
                &&& p.1@ == seq![SessionEvent::Opened, SessionEvent::Acquired]
                &&& final(self).entries() == old(self).entries().push((EntryV {
                    sid: sid@,
                    record: None,
                    tick: now,
                }))
            })),
    {
        let found = self.find(sid);
        match found {
            Some(i) => {
                proof {
                    assert(self.idx_of(sid@) == i) by {
                        assert(self.entries()[i as int].sid == sid@);
                        let k = self.idx_of(sid@);
                        assert(0 <= k < self.entries().len() && self.entries()[k].sid == sid@);
                    }
                }
                if self.sessions[i].record.is_none() {
                    return Err(SessionError::Acquired);
                }
                let ghost es0 = self.entries();
                let e = self.sessions.remove(i);
                let SessionEntry { sid: esid, record, tick } = e;
                match record {
                    Some(rec) => {
                        self.sessions.insert(i, SessionEntry { sid: esid, record: None, tick });
                        proof {
                            assert(self.entries() =~= es0.update(i as int, (EntryV {
                                record: None,
                                ..es0[i as int]
                            })));
                        }
                        let mut ev: Vec<SessionEvent> = Vec::new();
                        ev.push(SessionEvent::Acquired);
                        proof {
                            assert(ev@ =~= seq![SessionEvent::Acquired]);
                        }
                        Ok((rec, ev))
                    },
                    None => unreached(),
                }
            },
            None => {
                let ghost es0 = self.entries();
                let rec = Record::new(sid.clone());
                self.sessions.push(SessionEntry { sid: sid.clone(), record: None, tick: now });
                proof {
                    assert(self.entries() =~= es0.push((EntryV {
                        sid: sid@,
                        record: None,
                        tick: now,
                    })));
                }
                let mut ev: Vec<SessionEvent> = Vec::new();
                ev.push(SessionEvent::Opened);
                ev.push(SessionEvent::Acquired);
                proof {
                    assert(ev@ =~= seq![SessionEvent::Opened, SessionEvent::Acquired]);
                }
                Ok((rec, ev))
            },
        }
    }

    /// A transport hands its record back at instant `now`. The entry (if
    /// still present) becomes detached with a fresh timestamp, and the
    /// returned event is what the session must be told: `Released` for an
    /// open session, `Closed(Normal)` after a close, `Closed(Interrupted)`
    /// after an interruption.
    pub fn release(&mut self, rec: Record, now: u64) -> (ev: Option<SessionEvent>)
        requires
            old(self).wf(),
        ensures
            final(self).wf(),
            !old(self).has_sid(rec@.sid) ==> (ev is None && *final(self) == *old(self)),
            old(self).has_sid(rec@.sid) ==> (ev matches Some(e) && e == release_event(rec@.state)
                && final(self).entries() == old(self).entries().update(
                old(self).idx_of(rec@.sid),
                (EntryV {
                    record: Some(rec@),
                    tick: now,
                    ..old(self).entries()[old(self).idx_of(rec@.sid)]
                }),
            )),
    {
        let found = self.find(&rec.sid);
        match found {
            Some(i) => {
                proof {
                    assert(self.idx_of(rec@.sid) == i) by {
                        assert(self.entries()[i as int].sid == rec@.sid);
                        let k = self.idx_of(rec@.sid);
                        assert(0 <= k < self.entries().len() && self.entries()[k].sid == rec@.sid);
                    }
                }
                let ghost es0 = self.entries();
                let ev = match rec.state {
                    SessionState::Closed => SessionEvent::Closed(CloseReason::Normal),
                    SessionState::Interrupted => SessionEvent::Closed(CloseReason::Interrupted),
                    _ => SessionEvent::Released,
                };
                let e = self.sessions.remove(i);
                let SessionEntry { sid: esid, record: _, tick: _ } = e;
                self.sessions.insert(i, SessionEntry { sid: esid, record: Some(rec), tick: now });
                proof {
                    assert(self.entries() =~= es0.update(i as int, (EntryV {
                        record: Some(rec@),
                        tick: now,
                        ..es0[i as int]
                    })));
                }
                Some(ev)
            },
            None => None,
        }
    }

    /// Routes an inbound peer message: succeeds exactly when the session
    /// exists (the caller then hands the message to the session's task).
    pub fn deliver(&self, sid: &String) -> (r: Result<(), ()>)
        ensures
            r is Ok <==> self.has_sid(sid@),
    {
        match self.find(sid) {
            Some(_) => Ok(()),
            None => Err(()),
        }
    }

    /// Fans a frame out to every session: detached sessions get it
    /// appended to their record's buffer; for attached sessions the
    /// returned sids name the transports that must be notified directly,
    /// in registry order.
    pub fn broadcast(&mut self, frm: &Frame) -> (notify: Vec<String>)
        requires
            old(self).wf(),
        ensures
            final(self).wf(),
            final(self).entries().len() == old(self).entries().len(),
            forall|i: int| #![trigger old(self).entries()[i]] 0 <= i < old(self).entries().len()
                ==> {
                let e = old(self).entries()[i];
                &&& (e.record is None ==> final(self).entries()[i] == e)
                &&& (e.record matches Some(rv) ==> final(self).entries()[i] == (EntryV {
                    record: Some((RecordV { buffer: rv.buffer.push(frm@), ..rv })),
                    ..e
                }))
            },
            notify.deep_view() == attached_sids(old(self).entries()),
    {
        let ghost es0 = self.entries();
        let mut notify: Vec<String> = Vec::new();
        let mut i: usize = 0;
        while i < self.sessions.len()
            invariant
                i <= self.sessions.len(),
                self.sessions.len() == es0.len(),
                unique_sids(es0),
                self.entries().len() == es0.len(),
                forall|j: int| i <= j < es0.len() ==> self.entries()[j] == es0[j],
                forall|j: int| #![trigger es0[j]] 0 <= j < i ==> {
                    let e = es0[j];
                    &&& (e.record is None ==> self.entries()[j] == e)
                    &&& (e.record matches Some(rv) ==> self.entries()[j] == (EntryV {
                        record: Some((RecordV { buffer: rv.buffer.push(frm@), ..rv })),
                        ..e
                    }))
                },
                notify.deep_view() =~= attached_sids(es0.take(i as int)),
            decreases self.sessions.len() - i,
        {
            let ghost esi = self.entries();
            let ghost nprev = notify.deep_view();
            let e = self.sessions.remove(i);
            let SessionEntry { sid: esid, record, tick } = e;
            match record {
                Some(mut rec) => {
                    rec.add(frm.duplicate());
                    self.sessions.insert(
                        i,
                        SessionEntry { sid: esid, record: Some(rec), tick },
                    );
                    proof {
                        assert(self.entries() =~= esi.update(i as int, (EntryV {
                            record: Some((RecordV {
                                buffer: es0[i as int].record->0.buffer.push(frm@),
                                ..es0[i as int].record->0
                            })),
                            ..es0[i as int]
                        })));
                    }
                },
                None => {
                    notify.push(esid.clone());
                    self.sessions.insert(
                        i,
                        SessionEntry { sid: esid, record: None, tick },
                    );
                    proof {
                        assert(self.entries() =~= esi);
                        assert(notify.deep_view() =~= nprev.push(es0[i as int].sid));
                    }
                },
            }
            i = i + 1;
            proof {
                assert(es0.take(i as int).drop_last() =~= es0.take(i as int - 1));
                assert(notify.deep_view() =~= attached_sids(es0.take(i as int)));
            }
        }
        proof {
            assert(es0.take(es0.len() as int) =~= es0);
            assert forall|a: int, b: int|
                0 <= a < b < self.entries().len() implies self.entries()[a].sid
                != self.entries()[b].sid by {
                assert(self.entries()[a].sid == es0[a].sid);
                assert(self.entries()[b].sid == es0[b].sid);
            }
        }
        notify
    }

    /// The expiry sweep at instant `now`: every session detached for more
    /// than `timeout` seconds is removed, and its sid is returned, in
    /// registry order; each such session's `closed(Expired)` hook is owed
    /// exactly once.
    pub fn sweep(&mut self, now: u64, timeout: u64) -> (expired: Vec<String>)
        requires
            old(self).wf(),
        ensures
            final(self).wf(),
            final(self).entries() == swept(old(self).entries(), now, timeout),
            expired.deep_view() == expired_sids(old(self).entries(), now, timeout),
    {
        let ghost es0 = self.entries();
        let n = self.sessions.len();
        proof {
            assert(es0.len() == n);
        }
        let mut expired: Vec<String> = Vec::new();
        let mut kept: Vec<SessionEntry> = Vec::new();
        let mut done: usize = 0;
        while self.sessions.len() > 0
            invariant
                done + self.sessions.len() == es0.len(),
                es0.len() <= usize::MAX,
                self.sessions.deep_view() =~= es0.skip(done as int),
                kept.deep_view() =~= swept(es0.take(done as int), now, timeout),
                expired.deep_view() =~= expired_sids(es0.take(done as int), now, timeout),
            decreases self.sessions.len(),
        {
            let ghost pre = self.sessions.deep_view();
            let ghost kprev = kept.deep_view();
            let ghost xprev = expired.deep_view();
            let e = self.sessions.remove(0);
            proof {
                assert(pre[0] == es0.skip(done as int)[0]);
                assert(e@ == es0[done as int]);
                assert(self.sessions.deep_view() =~= pre.skip(1));
                assert(self.sessions.deep_view() =~= es0.skip(done as int + 1));
            }
            let drop_it: bool = e.record.is_some() && now > timeout && e.tick < now - timeout;
            proof {
                assert(drop_it == is_expired(es0[done as int], now, timeout));
            }
            if drop_it {
                expired.push(e.sid);
                proof {
                    assert(expired.deep_view() =~= xprev.push(es0[done as int].sid));
                }
            } else {
                kept.push(e);
                proof {
                    assert(kept.deep_view() =~= kprev.push(es0[done as int]));
                }
            }
            done = done + 1;
            proof {
                assert(es0.take(done as int).drop_last() =~= es0.take(done as int - 1));
                assert(kept.deep_view() =~= swept(es0.take(done as int), now, timeout));
                assert(expired.deep_view() =~= expired_sids(es0.take(done as int), now, timeout));
            }
        }
        proof {
            assert(es0.take(done as int) =~= es0);
        }
        self.sessions = kept;
        proof {
            lemma_swept_unique(es0, now, timeout);
        }
        expired
    }
}

/// The surviving entries of a sweep are a subsequence of the originals:
/// every survivor was present, in order, and sid uniqueness is kept.
proof fn lemma_swept_sub(es: Seq<EntryV>, now: u64, timeout: u64)
    ensures
        forall|k: int| #![trigger swept(es, now, timeout)[k]] 0 <= k < swept(
            es,
            now,
            timeout,
        ).len() ==> exists|i: int|
            #![trigger es[i]]
            0 <= i < es.len() && swept(es, now, timeout)[k] == es[i],
    decreases es.len(),
{
    if es.len() > 0 {
        lemma_swept_sub(es.drop_last(), now, timeout);
        let s = swept(es, now, timeout);
        let sp = swept(es.drop_last(), now, timeout);
        assert forall|k: int| #![trigger s[k]] 0 <= k < s.len() implies exists|i: int|
            #![trigger es[i]]
            0 <= i < es.len() && s[k] == es[i] by {
            if !is_expired(es.last(), now, timeout) && k == s.len() - 1 {
                assert(s[k] == es[es.len() - 1]);
            } else {
                assert(s[k] == sp[k]);
                let i = choose|i: int|
                    #![trigger es.drop_last()[i]]
                    0 <= i < es.drop_last().len() && swept(es.drop_last(), now, timeout)[k]
                        == es.drop_last()[i];
                assert(s[k] == es[i]);
            }
        }
    }
}

/// Sweeping keeps sid uniqueness.
proof fn lemma_swept_unique(es: Seq<EntryV>, now: u64, timeout: u64)
    requires
        unique_sids(es),
    ensures
        unique_sids(swept(es, now, timeout)),
    decreases es.len(),
{
    if es.len() > 0 {
        assert(unique_sids(es.drop_last()));
        lemma_swept_unique(es.drop_last(), now, timeout);
        if !is_expired(es.last(), now, timeout) {
            let s = swept(es, now, timeout);
            let sp = swept(es.drop_last(), now, timeout);
            lemma_swept_sub(es.drop_last(), now, timeout);
            assert forall|i: int, j: int| 0 <= i < j < s.len() implies s[i].sid != s[j].sid by {
                if j == s.len() - 1 {
                    let k = choose|k: int|
                        0 <= k < es.drop_last().len() && sp[i] == es.drop_last()[k];
                    assert(s[i] == es[k]);
                    assert(s[j] == es[es.len() - 1]);
                }
            }
        }
    }
}

/// Expiry is final and counted once: a sweep expires an idle-too-long sid
/// exactly once, removes it from the registry, and an immediate second
/// sweep does not expire it again.
pub proof fn lemma_expiry_once(es: Seq<EntryV>, now: u64, timeout: u64, sid: Seq<char>)
    requires
        unique_sids(es),
        exists|i: int| 0 <= i < es.len() && es[i].sid == sid && is_expired(
            es[i],
            now,
            timeout,
        ),
    ensures
        expired_sids(es, now, timeout).to_multiset().count(sid) == 1,
        forall|k: int| 0 <= k < swept(es, now, timeout).len() ==> swept(
            es,
            now,
            timeout,
        )[k].sid != sid,
        !expired_sids(swept(es, now, timeout), now, timeout).contains(sid),
    decreases es.len(),
{
    let i = choose|i: int| 0 <= i < es.len() && es[i].sid == sid && is_expired(es[i], now, timeout);
    let dl = es.drop_last();
    assert(unique_sids(dl));
    expired_sids(es, now, timeout).to_multiset_ensures();
    if i == es.len() - 1 {
        lemma_not_present_not_expired(dl, now, timeout, sid);
        assert(is_expired(es.last(), now, timeout));
        let xs = expired_sids(es, now, timeout);
        let xp = expired_sids(dl, now, timeout);
        xp.to_multiset_ensures();
        assert(xs =~= xp.push(sid));
        assert(xp.to_multiset().count(sid) == 0) by {
            if xp.to_multiset().count(sid) > 0 {
                assert(xp.contains(sid));
            }
        }
        assert(xs.to_multiset() =~= xp.to_multiset().insert(sid));
        lemma_swept_sub(dl, now, timeout);
        assert forall|k: int| 0 <= k < swept(es, now, timeout).len() implies swept(
            es,
            now,
            timeout,
        )[k].sid != sid by {
            let j = choose|j: int| 0 <= j < dl.len() && swept(dl, now, timeout)[k] == dl[j];
        }
    } else {
        assert(exists|j: int| 0 <= j < dl.len() && dl[j].sid == sid && is_expired(
            dl[j],
            now,
            timeout,
        )) by {
            assert(dl[i] == es[i]);
        }
        lemma_expiry_once(dl, now, timeout, sid);
        let xs = expired_sids(es, now, timeout);
        let xp = expired_sids(dl, now, timeout);
        xp.to_multiset_ensures();
        if is_expired(es.last(), now, timeout) {
            assert(es.last().sid != sid);
            assert(xs =~= xp.push(es.last().sid));
            assert(xs.to_multiset() =~= xp.to_multiset().insert(es.last().sid));
        } else {
            assert(xs == xp);
            assert forall|k: int| 0 <= k < swept(es, now, timeout).len() implies swept(
                es,
                now,
                timeout,
            )[k].sid != sid by {
                let s = swept(es, now, timeout);
                let sp = swept(dl, now, timeout);
                if k < sp.len() {
                    assert(s[k] == sp[k]);
                } else {
                    assert(s[k] == es.last());
                    assert(es.last().sid != sid) by {
                        assert(es[i].sid == sid);
                    }
                }
            }
        }
    }
    lemma_not_present_not_expired(swept(es, now, timeout), now, timeout, sid);
}

/// A sid absent from the registry is not among the expired sids.
proof fn lemma_not_present_not_expired(es: Seq<EntryV>, now: u64, timeout: u64, sid: Seq<char>)
    requires
        forall|i: int| 0 <= i < es.len() ==> es[i].sid != sid,
    ensures
        !expired_sids(es, now, timeout).contains(sid),
    decreases es.len(),
{
    if es.len() > 0 {
        assert(forall|i: int| 0 <= i < es.drop_last().len() ==> es.drop_last()[i].sid != sid);
        lemma_not_present_not_expired(es.drop_last(), now, timeout, sid);
        if is_expired(es.last(), now, timeout) {
            let xs = expired_sids(es, now, timeout);
            let xp = expired_sids(es.drop_last(), now, timeout);
            assert forall|k: int| 0 <= k < xs.len() implies xs[k] != sid by {
                if k < xp.len() {
                    assert(xs[k] == xp[k]);
                    assert(!xp.contains(sid));
                } else {
                    assert(xs[k] == es.last().sid);
                }
            }
            if xs.contains(sid) {
                let k = choose|k: int| 0 <= k < xs.len() && xs[k] == sid;
            }
        }
    }
}

} // verus!
