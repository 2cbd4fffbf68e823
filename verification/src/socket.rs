//! Reaching the ydotool daemon and the input device: which sockets are tried,
//! and what is said of them.

use vstd::prelude::*;

use crate::check::{broken, works, Check, Finding};
use crate::environment::{env_var, setting, variables, Variables};
use crate::scan::{join, joined, slices, strings};
use crate::session::{below, optional_text, path_below, runtime_dir, xdg_runtime_dir};
use crate::text_map::TextMap;

verus! {

/// What came of connecting to a socket.
#[derive(Debug)]
pub enum SocketAttempt {
    /// There is nothing at the path.
    Missing,
    /// It takes a stream connection.
    Stream,
    /// It takes datagrams, after it refused a stream connection.
    Datagram,
    /// It takes neither, and why.
    Refused { stream_error: String, datagram_error: String },
}

/// What is wrong with a socket; none where it can be connected to.
pub open spec fn socket_fault(path: Seq<char>, attempt: SocketAttempt) -> Option<Seq<char>> {
    match attempt {
        SocketAttempt::Missing => Some("missing: "@ + path),
        SocketAttempt::Stream => None,
        SocketAttempt::Datagram => None,
        SocketAttempt::Refused { stream_error, datagram_error } => Some(
            path + ": stream: "@ + stream_error@ + "; datagram: "@ + datagram_error@,
        ),
    }
}

/// The words for a socket that can be connected to.
pub open spec fn connectable(path: Seq<char>) -> Seq<char> {
    "connectable: "@ + path
}

/// A socket can be connected to exactly where it takes a stream connection or, in
/// place of that, datagrams.
pub proof fn stream_or_datagram_is_enough(path: Seq<char>, attempt: SocketAttempt)
    ensures
        socket_fault(path, attempt) is None <==> attempt is Stream || attempt is Datagram,
{
}

/// Whether a socket can be connected to, or what is wrong with it.
pub fn socket_connect_result(path: &str, attempt: &SocketAttempt) -> (r: Result<(), String>)
    ensures
        r is Ok <==> socket_fault(path@, *attempt) is None,
        r matches Err(words) ==> Some(words@) == socket_fault(path@, *attempt),
{
    match attempt {
        SocketAttempt::Missing => Err("missing: ".to_owned().concat(path)),
        SocketAttempt::Stream => Ok(()),
        SocketAttempt::Datagram => Ok(()),
        SocketAttempt::Refused { stream_error, datagram_error } => Err(
            path.to_owned().concat(": stream: ").concat(stream_error.as_str()).concat(
                "; datagram: ",
            ).concat(datagram_error.as_str()),
        ),
    }
}

/// The check of one socket.
pub fn socket_connect_check(path: &str, attempt: &SocketAttempt) -> (r: Check)
    ensures
        r@ == (match socket_fault(path@, *attempt) {
            None => works(connectable(path@)),
            Some(words) => broken(words),
        }),
{
    match socket_connect_result(path, attempt) {
        Ok(()) => Check::ok("connectable: ".to_owned().concat(path).as_str()),
        Err(words) => Check::fail(words.as_str()),
    }
}

/// What came of opening a file for reading and writing.
#[derive(Debug)]
pub enum PathAccess {
    Missing,
    Opened,
    Refused(String),
}

/// The check of a file that has to be read and written.
pub fn read_write_path_check(path: &str, access: &PathAccess) -> (r: Check)
    ensures
        r@ == (match *access {
            PathAccess::Missing => broken("missing: "@ + path@),
            PathAccess::Opened => works("read/write: "@ + path@),
            PathAccess::Refused(reason) => broken(path@ + ": "@ + reason@),
        }),
{
    match access {
        PathAccess::Missing => Check::fail("missing: ".to_owned().concat(path).as_str()),
        PathAccess::Opened => Check::ok("read/write: ".to_owned().concat(path).as_str()),
        PathAccess::Refused(reason) => Check::fail(
            path.to_owned().concat(": ").concat(reason.as_str()).as_str(),
        ),
    }
}

// ---------------------------------------------------------------------------
// The search for the ydotool socket.
// ---------------------------------------------------------------------------

/// The sockets that the daemon may listen on: the one that is set, the one in
/// the runtime directory, and the one in `/tmp`.
pub open spec fn socket_candidates(
    env: Variables,
    user_id: Option<Seq<char>>,
) -> Seq<Seq<char>> {
    let set = match setting(env, "YDOTOOL_SOCKET"@) {
        Some(path) => seq![path],
        None => seq![],
    };
    let runtime = match runtime_dir(env, user_id) {
        Some(dir) => seq![below(dir, ".ydotool_socket"@)],
        None => seq![],
    };
    set + runtime + seq!["/tmp/.ydotool_socket"@]
}

/// A socket that is set is tried first, and the one in `/tmp` last; the one in the
/// runtime directory comes between them, where there is such a directory.
pub proof fn sockets_are_tried_in_order(
    env: Variables,
    user_id: Option<Seq<char>>,
    path: Seq<char>,
    dir: Seq<char>,
)
    requires
        dir.len() > 0,
        dir.last() != '/',
    ensures
        ({
            let candidates = socket_candidates(env, user_id);
            let named = setting(env, "YDOTOOL_SOCKET"@) == Some(path);
            let unnamed = setting(env, "YDOTOOL_SOCKET"@) is None;
            let set = setting(env, "XDG_RUNTIME_DIR"@) == Some(dir);
            let nowhere = setting(env, "XDG_RUNTIME_DIR"@) is None && user_id is None;
            &&& candidates.last() == "/tmp/.ydotool_socket"@
            &&& named && set ==> candidates == seq![
                path,
                dir + "/.ydotool_socket"@,
                "/tmp/.ydotool_socket"@,
            ]
            &&& unnamed && set ==> candidates == seq![
                dir + "/.ydotool_socket"@,
                "/tmp/.ydotool_socket"@,
            ]
            &&& named && nowhere ==> candidates == seq![path, "/tmp/.ydotool_socket"@]
            &&& unnamed && nowhere ==> candidates == seq!["/tmp/.ydotool_socket"@]
        }),
{
    reveal_strlit("/");
    reveal_strlit(".ydotool_socket");
    reveal_strlit("/.ydotool_socket");
    assert("/"@ + ".ydotool_socket"@ =~= "/.ydotool_socket"@);
    assert(dir + "/"@ + ".ydotool_socket"@ =~= dir + "/.ydotool_socket"@);
    let candidates = socket_candidates(env, user_id);
    assert(seq![path] + seq![dir + "/.ydotool_socket"@] + seq!["/tmp/.ydotool_socket"@] =~= seq![
        path,
        dir + "/.ydotool_socket"@,
        "/tmp/.ydotool_socket"@,
    ]);
    let none: Seq<Seq<char>> = seq![];
    assert(none + seq![dir + "/.ydotool_socket"@] + seq!["/tmp/.ydotool_socket"@] =~= seq![
        dir + "/.ydotool_socket"@,
        "/tmp/.ydotool_socket"@,
    ]);
    assert(seq![path] + none + seq!["/tmp/.ydotool_socket"@] =~= seq![
        path,
        "/tmp/.ydotool_socket"@,
    ]);
    assert(none + none + seq!["/tmp/.ydotool_socket"@] =~= seq!["/tmp/.ydotool_socket"@]);
}

/// The sockets that the daemon may listen on, in the order in which they are
/// tried.
pub fn ydotool_socket_candidates(env: &TextMap<String>, user_id: &Option<String>) -> (r: Vec<String>)
    ensures
        strings(r@) == socket_candidates(variables(env), optional_text(*user_id)),
{
    let mut candidates: Vec<String> = Vec::new();
    if let Some(path) = env_var(env, "YDOTOOL_SOCKET") {
        candidates.push(path);
    }
    if let Some(dir) = xdg_runtime_dir(env, user_id) {
        candidates.push(path_below(dir.as_str(), ".ydotool_socket"));
    }
    candidates.push("/tmp/.ydotool_socket".to_owned());
    assert(strings(candidates@) =~= socket_candidates(variables(env), optional_text(*user_id)));
    candidates
}

/// The search through the candidates for a socket that can be connected to.
#[derive(Debug)]
pub struct SocketSearch {
    candidates: Vec<String>,
    faults: Vec<String>,
    verdict: Option<Check>,
}

/// A search as a mathematical value: the candidates ahead, and the faults of
/// those behind; or how it ended.
pub enum SearchState {
    Searching { ahead: Seq<Seq<char>>, faults: Seq<Seq<char>> },
    Settled(Finding),
}

/// The words for a search that found nothing.
pub open spec fn nothing_connectable(faults: Seq<Seq<char>>) -> Seq<char> {
    "no connectable ydotool socket ("@ + joined(faults, "; "@) + ")"@
}

/// The search with the given candidates ahead and faults behind.
pub open spec fn searching(ahead: Seq<Seq<char>>, faults: Seq<Seq<char>>) -> SearchState {
    if ahead.len() == 0 {
        SearchState::Settled(broken(nothing_connectable(faults)))
    } else {
        SearchState::Searching { ahead, faults }
    }
}

/// A search after the attempt at its next candidate.
pub open spec fn search_step(s: SearchState, attempt: SocketAttempt) -> SearchState {
    match s {
        SearchState::Settled(_) => s,
        SearchState::Searching { ahead, faults } => match socket_fault(ahead[0], attempt) {
            None => SearchState::Settled(works(connectable(ahead[0]))),
            Some(words) => searching(ahead.skip(1), faults.push(words)),
        },
    }
}

/// A search after each of the given attempts in turn.
pub open spec fn search_run(s: SearchState, attempts: Seq<SocketAttempt>) -> SearchState
    decreases attempts.len(),
{
    if attempts.len() == 0 {
        s
    } else {
        search_step(search_run(s, attempts.drop_last()), attempts.last())
    }
}

proof fn lemma_search_moves_on(candidates: Seq<Seq<char>>, attempts: Seq<SocketAttempt>)
    requires
        attempts.len() <= candidates.len(),
        forall|i: int|
            0 <= i < attempts.len() ==> socket_fault(
                candidates[i],
                #[trigger] attempts[i],
            ) is Some,
    ensures
        search_run(searching(candidates, seq![]), attempts) == searching(
            candidates.skip(attempts.len() as int),
            Seq::new(attempts.len(), |i: int| socket_fault(candidates[i], attempts[i])->0),
        ),
    decreases attempts.len(),
{
    let faults = Seq::new(attempts.len(), |i: int| socket_fault(candidates[i], attempts[i])->0);
    if attempts.len() == 0 {
        assert(candidates.skip(0) =~= candidates);
        assert(faults =~= seq![]);
    } else {
        let front = attempts.drop_last();
        let n = front.len() as int;
        assert forall|i: int| 0 <= i < front.len() implies socket_fault(
            candidates[i],
            #[trigger] front[i],
        ) is Some by {
            assert(front[i] == attempts[i]);
        }
        lemma_search_moves_on(candidates, front);
        assert(attempts.last() == attempts[n]);
        assert(candidates.skip(n)[0] == candidates[n]);
        assert(candidates.skip(n).skip(1) =~= candidates.skip(n + 1));
        let front_faults = Seq::new(front.len(), |i: int| socket_fault(candidates[i], front[i])->0);
        assert(front_faults.push(socket_fault(candidates[n], attempts[n])->0) =~= faults);
    }
}

/// The first candidate that can be connected to is the one that is reported.
pub proof fn first_connectable_is_found(
    candidates: Seq<Seq<char>>,
    attempts: Seq<SocketAttempt>,
)
    requires
        0 < attempts.len() <= candidates.len(),
        forall|i: int|
            0 <= i < attempts.len() - 1 ==> socket_fault(
                candidates[i],
                #[trigger] attempts[i],
            ) is Some,
        socket_fault(candidates[attempts.len() - 1], attempts.last()) is None,
    ensures
        search_run(searching(candidates, seq![]), attempts) == SearchState::Settled(
            works(connectable(candidates[attempts.len() - 1])),
        ),
{
    let front = attempts.drop_last();
    assert forall|i: int| 0 <= i < front.len() implies socket_fault(
        candidates[i],
        #[trigger] front[i],
    ) is Some by {
        assert(front[i] == attempts[i]);
    }
    lemma_search_moves_on(candidates, front);
}

/// Where no candidate can be connected to, the report lists what is wrong with
/// each of them, in their order.
pub proof fn all_faults_are_reported(candidates: Seq<Seq<char>>, attempts: Seq<SocketAttempt>)
    requires
        attempts.len() == candidates.len(),
        forall|i: int|
            0 <= i < attempts.len() ==> socket_fault(
                candidates[i],
                #[trigger] attempts[i],
            ) is Some,
    ensures
        search_run(searching(candidates, seq![]), attempts) == SearchState::Settled(
            broken(
                nothing_connectable(
                    Seq::new(
                        attempts.len(),
                        |i: int| socket_fault(candidates[i], attempts[i])->0,
                    ),
                ),
            ),
        ),
{
    lemma_search_moves_on(candidates, attempts);
}

impl View for SocketSearch {
    type V = SearchState;

    closed spec fn view(&self) -> SearchState {
        match self.verdict {
            Some(check) => SearchState::Settled(check@),
            None => SearchState::Searching {
                ahead: strings(self.candidates@),
                faults: strings(self.faults@),
            },
        }
    }
}

impl SocketSearch {
    #[verifier::type_invariant]
    spec fn can_go_on(self) -> bool {
        self.verdict is None ==> self.candidates@.len() > 0
    }

    fn with(candidates: Vec<String>, faults: Vec<String>) -> (r: Self)
        ensures
            r@ == searching(strings(candidates@), strings(faults@)),
    {
        if candidates.len() > 0 {
            return SocketSearch { candidates, faults, verdict: None };
        }
        let n: usize = faults.len();
        let mut words: Vec<&str> = Vec::new();
        let mut i: usize = 0;
        while i < n
            invariant
                i <= n,
                n == faults@.len(),
                slices(words@) == strings(faults@).take(i as int),
            decreases n - i,
        {
            let ghost before = words@;
            words.push(faults[i].as_str());
            assert(slices(words@) =~= slices(before).push(faults@[i as int]@));
            assert(strings(faults@).take(i + 1) =~= strings(faults@).take(i as int).push(
                faults@[i as int]@,
            ));
            i += 1;
        }
        assert(slices(words@) =~= strings(faults@));
        let list = join(words.as_slice(), "; ");
        let detail = "no connectable ydotool socket (".to_owned().concat(list.as_str()).concat(")");
        let check = Check::fail(detail.as_str());
        SocketSearch { candidates, faults, verdict: Some(check) }
    }

    /// The socket to be tried next; none once the search is settled.
    pub fn candidate(&self) -> (r: Option<&String>)
        ensures
            r is None <==> self@ is Settled,
            r is Some ==> self@->ahead.len() > 0 && r->0@ == self@->ahead[0],
    {
        proof {
            use_type_invariant(self);
        }
        match self.verdict {
            Some(_) => None,
            None => Some(&self.candidates[0]),
        }
    }

    /// The search after the attempt at its next candidate.
    pub fn record(self, attempt: &SocketAttempt) -> (r: Self)
        ensures
            r@ == search_step(self@, *attempt),
    {
        proof {
            use_type_invariant(&self);
        }
        let SocketSearch { mut candidates, mut faults, verdict } = self;
        if verdict.is_some() {
            return SocketSearch { candidates, faults, verdict };
        }
        let ghost ahead = candidates@;
        let ghost behind = faults@;
        let path = candidates.remove(0);
        match socket_connect_result(path.as_str(), attempt) {
            Ok(()) => {
                let check = Check::ok("connectable: ".to_owned().concat(path.as_str()).as_str());
                SocketSearch { candidates, faults, verdict: Some(check) }
            },
            Err(words) => {
                let ghost w = words@;
                faults.push(words);
                assert(strings(candidates@) =~= strings(ahead).skip(1));
                assert(strings(faults@) =~= strings(behind).push(w));
                Self::with(candidates, faults)
            },
        }
    }

    /// How the search ended.
    pub fn verdict(&self) -> (r: Option<&Check>)
        ensures
            r is Some <==> self@ is Settled,
            r is Some ==> self@ == SearchState::Settled(r->0@),
    {
        self.verdict.as_ref()
    }
}

/// Starts the search for the ydotool socket.
pub fn ydotool_socket_check(env: &TextMap<String>, user_id: &Option<String>) -> (r: SocketSearch)
    ensures
        r@ == searching(
            socket_candidates(variables(env), optional_text(*user_id)),
            seq![],
        ),
{
    let candidates = ydotool_socket_candidates(env, user_id);
    let faults: Vec<String> = Vec::new();
    assert(strings(faults@) =~= seq![]);
    SocketSearch::with(candidates, faults)
}

} // verus!
