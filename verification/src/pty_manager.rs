//! The registry of live sessions and the control operations on it.

use vstd::prelude::*;
use crate::config::ServiceConfig;
use crate::emitter::{Event, EventView};
use crate::pty::{
    anyhow_text, clone_reader, command_add_args, command_argv, command_cwd, command_env,
    command_new, command_set_cwd, command_set_env, io_text, kill_child, open_pty, resize_pair,
    spawn_command, take_writer, write_all, ChildProcess, PtyReader, PtyWriter,
};

verus! {

/// Columns of a freshly allocated pseudo-terminal.
pub const INITIAL_COLS: u16 = 80;

/// Rows of a freshly allocated pseudo-terminal.
pub const INITIAL_ROWS: u16 = 24;

/// Why a control operation failed.
#[derive(Debug, Clone)]
pub enum PtyError {
    /// No pseudo-terminal could be allocated.
    Allocation { detail: String },
    /// The child process could not be launched.
    Spawn { detail: String },
    /// Reading, writing or resizing an existing pseudo-terminal failed.
    Io { detail: String },
}

/// What the registry knows of one session, as plain values.
#[derive(Debug, Clone, Copy, PartialEq, Eq, Structural)]
pub struct SessionInfo {
    pub running: bool,
    pub cols: u16,
    pub rows: u16,
}

/// One pseudo-terminal with the child process attached to it.
pub struct PtySession {
    /// Both ends of the pseudo-terminal.
    pub child: portable_pty::PtyPair,
    /// The process spawned on its subordinate side.
    pub process: ChildProcess,
    pub is_running: bool,
    /// The geometry last applied to the pseudo-terminal.
    pub cols: u16,
    pub rows: u16,
}

impl PtySession {
    /// What the registry reports of this session.
    pub open spec fn info(&self) -> SessionInfo {
        SessionInfo { running: self.is_running, cols: self.cols, rows: self.rows }
    }

    /// Kills the child if the session is running. Afterwards it is not running,
    /// whatever the kill reported.
    pub fn stop(&mut self)
        ensures
            final(self).info() == (SessionInfo { running: false, ..old(self).info() }),
    {
        if self.is_running {
            let _ = kill_child(&mut self.process);
            self.is_running = false;
        }
    }
}

/// A session under its id.
struct SessionEntry {
    id: String,
    session: PtySession,
}

/// What a successful start hands back.
pub struct Started {
    /// The event to emit for the session: always `Running`.
    pub event: Event,
    /// The read handle for the new session's pump; `None` when the id was
    /// already present and nothing was created.
    pub reader: Option<PtyReader>,
}

/// The entry at place `i` stands under `id`.
spec fn entry_at(s: Seq<SessionEntry>, i: int, id: Seq<char>) -> bool {
    0 <= i < s.len() && s[i].id@ == id
}

/// Some entry stands under `id`.
spec fn has_entry(s: Seq<SessionEntry>, id: Seq<char>) -> bool {
    exists|i: int| entry_at(s, i, id)
}

/// The place of an entry under `id`.
spec fn entry_index(s: Seq<SessionEntry>, id: Seq<char>) -> int {
    choose|i: int| entry_at(s, i, id)
}

/// No two entries share an id.
spec fn ids_distinct(s: Seq<SessionEntry>) -> bool {
    forall|i: int, j: int| 0 <= i < j < s.len() ==> s[i].id@ != s[j].id@
}

/// The map that a list of entries with distinct ids stands for.
spec fn model_of(s: Seq<SessionEntry>) -> Map<Seq<char>, SessionInfo> {
    Map::new(|id: Seq<char>| has_entry(s, id), |id: Seq<char>| s[entry_index(s, id)].session.info())
}

/// With distinct ids, an entry under `id` is the one that `entry_index` picks.
proof fn lemma_entry_index(s: Seq<SessionEntry>, i: int, id: Seq<char>)
    requires
        ids_distinct(s),
        entry_at(s, i, id),
    ensures
        has_entry(s, id),
        entry_index(s, id) == i,
{
    let j = entry_index(s, id);
    assert(entry_at(s, j, id));
    if j < i {
        assert(s[j].id@ != s[i].id@);
    }
    if i < j {
        assert(s[i].id@ != s[j].id@);
    }
}

/// Appending an entry under a new id inserts it into the map.
proof fn lemma_push(s: Seq<SessionEntry>, e: SessionEntry)
    requires
        ids_distinct(s),
        !has_entry(s, e.id@),
    ensures
        ids_distinct(s.push(e)),
        model_of(s.push(e)) == model_of(s).insert(e.id@, e.session.info()),
{
    let t = s.push(e);
    assert forall|i: int, j: int| 0 <= i < j < t.len() implies t[i].id@ != t[j].id@ by {
        if j == s.len() {
            assert(!entry_at(s, i, e.id@));
        }
    }
    assert forall|id: Seq<char>| has_entry(t, id) <==> (id == e.id@ || has_entry(s, id)) by {
        if has_entry(t, id) {
            let i = entry_index(t, id);
            assert(entry_at(t, i, id));
            if i < s.len() {
                assert(entry_at(s, i, id));
            }
        }
        if id == e.id@ {
            assert(entry_at(t, s.len() as int, id));
        }
        if has_entry(s, id) {
            let i = entry_index(s, id);
            assert(entry_at(s, i, id));
            assert(entry_at(t, i, id));
        }
    }
    assert forall|id: Seq<char>| has_entry(t, id) implies #[trigger] model_of(t)[id] == model_of(
        s,
    ).insert(e.id@, e.session.info())[id] by {
        if id == e.id@ {
            lemma_entry_index(t, s.len() as int, id);
        } else {
            let i = entry_index(s, id);
            assert(entry_at(s, i, id));
            lemma_entry_index(t, i, id);
        }
    }
    assert(model_of(t) =~= model_of(s).insert(e.id@, e.session.info()));
}

/// Taking an entry out removes its id from the map.
proof fn lemma_remove(s: Seq<SessionEntry>, i: int)
    requires
        ids_distinct(s),
        0 <= i < s.len(),
    ensures
        ids_distinct(s.remove(i)),
        model_of(s.remove(i)) == model_of(s).remove(s[i].id@),
{
    let t = s.remove(i);
    let gone = s[i].id@;
    assert forall|a: int, b: int| 0 <= a < b < t.len() implies t[a].id@ != t[b].id@ by {
        let a2 = if a < i { a } else { a + 1 };
        let b2 = if b < i { b } else { b + 1 };
        assert(s[a2].id@ != s[b2].id@);
    }
    assert forall|id: Seq<char>| has_entry(t, id) <==> (id != gone && has_entry(s, id)) by {
        if has_entry(t, id) {
            let k = entry_index(t, id);
            assert(entry_at(t, k, id));
            let k2 = if k < i { k } else { k + 1 };
            assert(entry_at(s, k2, id));
            if k2 < i {
                assert(s[k2].id@ != s[i].id@);
            } else {
                assert(s[i].id@ != s[k2].id@);
            }
        }
        if id != gone && has_entry(s, id) {
            let k = entry_index(s, id);
            assert(entry_at(s, k, id));
            let k2 = if k < i { k } else { k - 1 };
            assert(entry_at(t, k2, id));
        }
    }
    assert forall|id: Seq<char>| has_entry(t, id) implies #[trigger] model_of(t)[id] == model_of(
        s,
    ).remove(gone)[id] by {
        let k = entry_index(s, id);
        assert(entry_at(s, k, id));
        let k2 = if k < i { k } else { k - 1 };
        assert(entry_at(t, k2, id));
        lemma_entry_index(t, k2, id);
    }
    assert(model_of(t) =~= model_of(s).remove(gone));
}

/// No entries stand for the empty map.
proof fn lemma_empty(s: Seq<SessionEntry>)
    requires
        s.len() == 0,
    ensures
        ids_distinct(s),
        model_of(s) == Map::<Seq<char>, SessionInfo>::empty(),
{
    assert forall|id: Seq<char>| !has_entry(s, id) by {
        if has_entry(s, id) {
            let k = entry_index(s, id);
            assert(entry_at(s, k, id));
        }
    }
    assert(model_of(s) =~= Map::<Seq<char>, SessionInfo>::empty());
}

/// The registry as contracts see it: what is known of the session under each id.
pub type Sessions = Map<Seq<char>, SessionInfo>;

/// What is known of a session right after its start.
pub open spec fn initial_info() -> SessionInfo {
    SessionInfo { running: true, cols: INITIAL_COLS, rows: INITIAL_ROWS }
}

/// The registry after a successful start of `id`: unchanged where the id is
/// present, else with one new running session of the initial geometry.
pub open spec fn started(m: Sessions, id: Seq<char>) -> Sessions {
    if m.contains_key(id) {
        m
    } else {
        m.insert(id, initial_info())
    }
}

/// The registry after `id` was stopped: the session stays, not running.
pub open spec fn stopped(m: Sessions, id: Seq<char>) -> Sessions {
    if m.contains_key(id) {
        m.insert(id, SessionInfo { running: false, ..m[id] })
    } else {
        m
    }
}

/// The registry after `id` was resized with success.
pub open spec fn resized(m: Sessions, id: Seq<char>, cols: u16, rows: u16) -> Sessions {
    if m.contains_key(id) {
        m.insert(id, SessionInfo { running: m[id].running, cols, rows })
    } else {
        m
    }
}

/// The registry after the pump of `id` has finished.
pub open spec fn removed(m: Sessions, id: Seq<char>) -> Sessions {
    m.remove(id)
}

/// The registry after a full teardown.
pub open spec fn torn_down(m: Sessions) -> Sessions {
    Map::empty()
}

/// A start on an absent id adds exactly that one session, running; a second
/// start on the same id changes nothing, so no second session or pump can come
/// of it.
pub proof fn lemma_start_once(m: Sessions, id: Seq<char>)
    ensures
        started(m, id).dom() == m.dom().insert(id),
        !m.contains_key(id) ==> started(m, id)[id] == initial_info(),
        forall|other: Seq<char>| other != id && m.contains_key(other) ==> started(m, id)[other] == m[other],
        started(started(m, id), id) == started(m, id),
{
    assert(started(m, id).dom() =~= m.dom().insert(id));
}

/// A stop never removes an entry: the same ids are present afterwards, the
/// stopped one is not running, and every other session is as it was. Only the
/// pump's removal takes the id out.
pub proof fn lemma_stop_keeps_entry(m: Sessions, id: Seq<char>)
    ensures
        stopped(m, id).dom() == m.dom(),
        m.contains_key(id) ==> !stopped(m, id)[id].running,
        forall|other: Seq<char>| other != id && m.contains_key(other) ==> stopped(m, id)[other] == m[other],
        stopped(stopped(m, id), id) == stopped(m, id),
        !removed(stopped(m, id), id).contains_key(id),
        removed(stopped(m, id), id) == removed(m, id),
{
    assert(stopped(m, id).dom() =~= m.dom());
    assert(stopped(stopped(m, id), id) =~= stopped(m, id));
    assert(removed(stopped(m, id), id) =~= removed(m, id));
}

/// A successful resize of a present id changes its reported geometry to the
/// one asked for and nothing else; on an absent id it changes nothing.
pub proof fn lemma_resize_reports(m: Sessions, id: Seq<char>, cols: u16, rows: u16)
    ensures
        resized(m, id, cols, rows).dom() == m.dom(),
        m.contains_key(id) ==> resized(m, id, cols, rows)[id].cols == cols && resized(
            m,
            id,
            cols,
            rows,
        )[id].rows == rows && resized(m, id, cols, rows)[id].running == m[id].running,
        !m.contains_key(id) ==> resized(m, id, cols, rows) == m,
        forall|other: Seq<char>| other != id && m.contains_key(other) ==> resized(m, id, cols, rows)[other] == m[other],
{
    assert(resized(m, id, cols, rows).dom() =~= m.dom());
}

/// A teardown leaves no session, and a second one right after it changes
/// nothing.
pub proof fn lemma_teardown_twice(m: Sessions)
    ensures
        torn_down(m).dom() == Set::<Seq<char>>::empty(),
        torn_down(torn_down(m)) == torn_down(m),
{
    assert(torn_down(m).dom() =~= Set::<Seq<char>>::empty());
}

/// The command line that a session is started from.
///
/// The program comes first and the service's arguments follow in order; the
/// working directory and the variable `PWD` are both the service's directory.
pub fn build_command(service: &ServiceConfig) -> (cmd: portable_pty::CommandBuilder)
    ensures
        command_argv(cmd) == seq![service.prog@] + service.args.deep_view(),
        command_cwd(cmd) == Some(service.wdir@),
        command_env(cmd).contains_key("PWD"@),
        command_env(cmd)["PWD"@] == service.wdir@,
{
    let mut cmd = command_new(&service.prog);
    command_set_env(&mut cmd, "PWD", &service.wdir);
    command_set_cwd(&mut cmd, &service.wdir);
    command_add_args(&mut cmd, &service.args);
    cmd
}

/// The registry: every live session under its id, at most one for each id.
pub struct GlobalPty {
    sessions: Vec<SessionEntry>,
}

impl GlobalPty {
    /// No id occurs twice.
    #[verifier::type_invariant]
    spec fn wf(&self) -> bool {
        ids_distinct(self.sessions@)
    }

    /// The registry as a map from id to what is known of the session.
    pub closed spec fn view(&self) -> Map<Seq<char>, SessionInfo> {
        model_of(self.sessions@)
    }

    /// The empty registry.
    pub fn new() -> (registry: Self)
        ensures
            registry@ == Map::<Seq<char>, SessionInfo>::empty(),
    {
        let registry = GlobalPty { sessions: Vec::new() };
        proof {
            lemma_empty(registry.sessions@);
        }
        registry
    }

    fn find(&self, id: &String) -> (res: Option<usize>)
        ensures
            match res {
                Some(i) => entry_at(self.sessions@, i as int, id@),
                None => !has_entry(self.sessions@, id@),
            },
    {
        let mut i: usize = 0;
        while i < self.sessions.len()
            invariant
                i <= self.sessions@.len(),
                forall|k: int| 0 <= k < i ==> !entry_at(self.sessions@, k, id@),
            decreases self.sessions@.len() - i,
        {
            if self.sessions[i].id == *id {
                return Some(i);
            }
            i += 1;
        }
        assert forall|k: int| !entry_at(self.sessions@, k, id@) by {}
        None
    }

    /// Whether a session stands under `id`.
    pub fn contains(&self, id: &str) -> (present: bool)
        ensures
            present == self@.contains_key(id@),
    {
        let key = id.to_owned();
        self.find(&key).is_some()
    }

    /// What is known of the session under `id`.
    pub fn session_info(&self, id: &str) -> (info: Option<SessionInfo>)
        ensures
            info.is_some() == self@.contains_key(id@),
            info.is_some() ==> info.unwrap() == self@[id@],
    {
        let key = id.to_owned();
        match self.find(&key) {
            Some(i) => {
                proof {
                    use_type_invariant(&*self);
                    lemma_entry_index(self.sessions@, i as int, id@);
                }
                let s = &self.sessions[i].session;
                Some(SessionInfo { running: s.is_running, cols: s.cols, rows: s.rows })
            },
            None => None,
        }
    }

    /// The number of sessions.
    pub fn len(&self) -> (n: usize)
        ensures
            n == self@.dom().len(),
            self@.dom().finite(),
    {
        proof {
            use_type_invariant(&*self);
            lemma_model_size(self.sessions@);
        }
        self.sessions.len()
    }

    /// Puts a new session under an id that is not present yet.
    fn insert(&mut self, id: String, session: PtySession)
        requires
            !old(self)@.contains_key(id@),
        ensures
            final(self)@ == old(self)@.insert(id@, session.info()),
    {
        let entry = SessionEntry { id, session };
        proof {
            use_type_invariant(&*self);
            lemma_push(self.sessions@, entry);
        }
        let mut sessions: Vec<SessionEntry> = Vec::new();
        core::mem::swap(&mut self.sessions, &mut sessions);
        sessions.push(entry);
        self.sessions = sessions;
    }

    /// Takes the entry at a known place out of the registry.
    fn take(&mut self, i: usize) -> (entry: SessionEntry)
        requires
            i < old(self).sessions@.len(),
        ensures
            entry == old(self).sessions@[i as int],
            old(self)@.contains_key(entry.id@),
            old(self)@[entry.id@] == entry.session.info(),
            final(self)@ == old(self)@.remove(entry.id@),
    {
        proof {
            use_type_invariant(&*self);
            lemma_remove(self.sessions@, i as int);
            assert(entry_at(self.sessions@, i as int, self.sessions@[i as int].id@));
            lemma_entry_index(self.sessions@, i as int, self.sessions@[i as int].id@);
        }
        let mut sessions: Vec<SessionEntry> = Vec::new();
        core::mem::swap(&mut self.sessions, &mut sessions);
        let entry = sessions.remove(i);
        self.sessions = sessions;
        entry
    }
}

/// Starts a session for `service`, unless one stands under its id already.
///
/// With the id present nothing is created: the answer is `Running` again and no
/// read handle. Otherwise a pseudo-terminal of 80 columns by 24 rows is
/// allocated, the child is spawned on it from `build_command(service)`, a read
/// handle is cloned for the pump, and the session is registered as running.
/// Whether allocation, spawn and clone succeed is the system's to decide; on any
/// failure the registry is left as it was.
pub fn spawn_pty(registry: &mut GlobalPty, service: &ServiceConfig) -> (res: Result<Started, PtyError>)
    ensures
        res is Ok ==> res->Ok_0.event@ == EventView::Running,
        old(registry)@.contains_key(service.id@) ==> res is Ok && res->Ok_0.reader is None
            && final(registry)@ == old(registry)@,
        res is Err ==> final(registry)@ == old(registry)@,
        res is Ok ==> final(registry)@ == started(old(registry)@, service.id@),
        res is Ok ==> (res->Ok_0.reader is Some) == !old(registry)@.contains_key(service.id@),
{
    if registry.find(&service.id).is_some() {
        return Ok(Started { event: Event::Running, reader: None });
    }
    let pair = match open_pty(INITIAL_COLS, INITIAL_ROWS) {
        Ok(pair) => pair,
        Err(e) => {
            return Err(PtyError::Allocation { detail: anyhow_text(&e) });
        },
    };
    let process = match spawn_command(&pair, build_command(service)) {
        Ok(process) => process,
        Err(e) => {
            return Err(PtyError::Spawn { detail: anyhow_text(&e) });
        },
    };
    let cloned = clone_reader(&pair);
    register(registry, service.id.clone(), pair, process, cloned)
}

/// Registers a freshly spawned child under an absent id, given the outcome of
/// cloning a read handle from its pseudo-terminal.
///
/// With a read handle the session is registered as running, with the initial
/// geometry, and the handle is handed on for the pump. Without one the child is
/// killed, the registry stays as it was and the failure is an `Io` error.
pub fn register(
    registry: &mut GlobalPty,
    id: String,
    pair: portable_pty::PtyPair,
    process: ChildProcess,
    cloned: Result<PtyReader, anyhow::Error>,
) -> (res: Result<Started, PtyError>)
    requires
        !old(registry)@.contains_key(id@),
    ensures
        res is Ok <==> cloned is Ok,
        res is Err ==> res->Err_0 is Io && final(registry)@ == old(registry)@,
        res is Ok ==> res->Ok_0.event@ == EventView::Running && res->Ok_0.reader is Some
            && final(registry)@ == started(old(registry)@, id@),
{
    let mut session = PtySession {
        child: pair,
        process,
        is_running: true,
        cols: INITIAL_COLS,
        rows: INITIAL_ROWS,
    };
    match cloned {
        Ok(reader) => {
            registry.insert(id, session);
            Ok(Started { event: Event::Running, reader: Some(reader) })
        },
        Err(e) => {
            session.stop();
            Err(PtyError::Io { detail: anyhow_text(&e) })
        },
    }
}

/// Writes `data` to the session under `id`, if there is one and it is running.
///
/// An absent id and a stopped session are ignored in silence. Otherwise a fresh
/// write handle is taken for this call and all of `data` is written; a failure
/// of either is an `Io` error. The registry does not change.
pub fn write_input(registry: &GlobalPty, id: &str, data: &str) -> (res: Result<(), PtyError>)
    ensures
        !registry@.contains_key(id@) ==> res is Ok,
        registry@.contains_key(id@) && !registry@[id@].running ==> res is Ok,
        res is Err ==> res->Err_0 is Io,
{
    let key = id.to_owned();
    match registry.find(&key) {
        Some(i) => {
            proof {
                use_type_invariant(&*registry);
                lemma_entry_index(registry.sessions@, i as int, id@);
            }
            let session = &registry.sessions[i].session;
            if session.is_running {
                write_with(take_writer(&session.child), data)
            } else {
                Ok(())
            }
        },
        None => Ok(()),
    }
}

/// Writes `data` through the write handle that was asked for, given the
/// outcome of asking: without a handle nothing is written and the failure is
/// an `Io` error; with one, all of `data` is written and the answer is that of
/// `write_outcome`.
pub fn write_with(taken: Result<PtyWriter, anyhow::Error>, data: &str) -> (res: Result<(), PtyError>)
    ensures
        taken is Err ==> res is Err,
        res is Err ==> res->Err_0 is Io,
{
    match taken {
        Ok(writer) => {
            let mut writer = writer;
            let text = data.to_owned();
            write_outcome(write_all(&mut writer, &text))
        },
        Err(e) => Err(PtyError::Io { detail: anyhow_text(&e) }),
    }
}

/// What an input call answers, given the outcome of writing to the
/// pseudo-terminal: success for success, and an `Io` error for a failure.
pub fn write_outcome(written: Result<(), std::io::Error>) -> (res: Result<(), PtyError>)
    ensures
        res is Ok <==> written is Ok,
        res is Err ==> res->Err_0 is Io,
{
    match written {
        Ok(_) => Ok(()),
        Err(e) => Err(PtyError::Io { detail: io_text(&e) }),
    }
}

/// Applies a new geometry to the session under `id`.
///
/// An absent id is ignored in silence. For a present one the pseudo-terminal is
/// resized at once: on success the session reports the new geometry, on failure
/// the registry is unchanged and the failure is an `Io` error.
pub fn resize_pty(registry: &mut GlobalPty, id: &str, cols: u16, rows: u16) -> (res: Result<(), PtyError>)
    ensures
        !old(registry)@.contains_key(id@) ==> res is Ok && final(registry)@ == old(registry)@,
        res is Err ==> res->Err_0 is Io && final(registry)@ == old(registry)@,
        res is Ok ==> final(registry)@ == resized(old(registry)@, id@, cols, rows),
{
    let key = id.to_owned();
    match registry.find(&key) {
        Some(i) => {
            let outcome = resize_pair(&registry.sessions[i].session.child, cols, rows);
            record_resize(registry, id, cols, rows, outcome)
        },
        None => Ok(()),
    }
}

/// Takes note of the outcome of resizing the pseudo-terminal of `id`.
///
/// After a success the session under `id`, if there is one, reports the new
/// geometry. After a failure nothing changes and the failure is passed on as an
/// `Io` error.
pub fn record_resize(
    registry: &mut GlobalPty,
    id: &str,
    cols: u16,
    rows: u16,
    outcome: Result<(), anyhow::Error>,
) -> (res: Result<(), PtyError>)
    ensures
        res is Ok <==> outcome is Ok,
        res is Err ==> res->Err_0 is Io && final(registry)@ == old(registry)@,
        res is Ok ==> final(registry)@ == resized(old(registry)@, id@, cols, rows),
{
    match outcome {
        Ok(_) => {
            let key = id.to_owned();
            match registry.find(&key) {
                Some(i) => {
                    proof {
                        use_type_invariant(&*registry);
                        lemma_entry_index(registry.sessions@, i as int, id@);
                    }
                    let mut entry = registry.take(i);
                    entry.session.cols = cols;
                    entry.session.rows = rows;
                    registry.insert(entry.id, entry.session);
                    assert(final(registry)@ =~= resized(old(registry)@, id@, cols, rows));
                },
                None => {},
            }
            Ok(())
        },
        Err(e) => Err(PtyError::Io { detail: anyhow_text(&e) }),
    }
}

/// Stops the session under `id`: kills its child and marks it as not running.
///
/// The entry stays in the registry, with its geometry; it leaves only when its
/// pump has seen the end of the stream. An absent id is ignored in silence.
pub fn stop_pty(registry: &mut GlobalPty, id: &str) -> (res: Result<(), PtyError>)
    ensures
        res is Ok,
        final(registry)@ == stopped(old(registry)@, id@),
{
    let key = id.to_owned();
    match registry.find(&key) {
        Some(i) => {
            proof {
                use_type_invariant(&*registry);
                lemma_entry_index(registry.sessions@, i as int, id@);
            }
            let mut entry = registry.take(i);
            entry.session.stop();
            registry.insert(entry.id, entry.session);
            assert(final(registry)@ =~= old(registry)@.insert(
                id@,
                SessionInfo { running: false, ..old(registry)@[id@] },
            ));
        },
        None => {},
    }
    Ok(())
}

/// The pump's last act: marks the session under `id` as not running and takes
/// it out of the registry. Other sessions are untouched.
pub fn remove_session(registry: &mut GlobalPty, id: &str)
    ensures
        final(registry)@ == removed(old(registry)@, id@),
{
    let key = id.to_owned();
    match registry.find(&key) {
        Some(i) => {
            let mut entry = registry.take(i);
            entry.session.is_running = false;
        },
        None => {
            assert(final(registry)@ =~= old(registry)@.remove(id@));
        },
    }
}

/// Tears everything down: kills every child, marks every session as not running
/// and empties the registry. On an empty registry it does nothing.
pub fn cleanup_all(registry: &mut GlobalPty)
    ensures
        final(registry)@ == torn_down(old(registry)@),
{
    let mut sessions: Vec<SessionEntry> = Vec::new();
    core::mem::swap(&mut registry.sessions, &mut sessions);
    proof {
        lemma_empty(registry.sessions@);
    }
    while sessions.len() > 0
        decreases sessions@.len(),
    {
        match sessions.pop() {
            Some(entry) => {
                let mut entry = entry;
                entry.session.stop();
            },
            None => {},
        }
    }
}

impl Default for GlobalPty {
    /// The empty registry.
    fn default() -> (registry: Self)
        ensures
            registry@ == Map::<Seq<char>, SessionInfo>::empty(),
    {
        GlobalPty::new()
    }
}

/// With distinct ids the map has as many keys as there are entries.
proof fn lemma_model_size(s: Seq<SessionEntry>)
    requires
        ids_distinct(s),
    ensures
        model_of(s).dom().finite(),
        model_of(s).dom().len() == s.len(),
    decreases s.len(),
{
    if s.len() == 0 {
        lemma_empty(s);
    } else {
        let last = s.last();
        let front = s.drop_last();
        assert(front =~= s.remove(s.len() - 1));
        lemma_remove(s, s.len() - 1);
        lemma_model_size(front);
        assert(entry_at(s, s.len() - 1, last.id@));
        assert(model_of(s).dom() =~= model_of(front).dom().insert(last.id@));
        assert(!model_of(front).dom().contains(last.id@));
    }
}

} // verus!
