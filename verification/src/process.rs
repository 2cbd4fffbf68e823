//! The processes above the running one, whose environments tell about the
//! desktop session.

use vstd::prelude::*;

use crate::environment::{
    defined, parse_environ, process_env_has_graphical_display, shows_display, variables,
    variables_of, Variables,
};
use crate::number::{
    decimal, digits_denote_their_number, parse_u32, u32_value, written_numbers_are_read_back,
};
use crate::scan::{
    affixes_come_off, after_prefix, ended_lines, fields, has_prefix, lines, lines_of,
    lines_survive, slices, strip_prefix, trim, trimmed, trimming_leaves_the_text,
};
use crate::session::optional_text;
use crate::text_map::TextMap;

verus! {

/// How many processes are looked at on the way up.
pub const MAX_ANCESTORS: usize = 8;

// ---------------------------------------------------------------------------
// Parents.
// ---------------------------------------------------------------------------

/// The parent that one line of `/proc/<pid>/status` names.
pub open spec fn parent_in_line(line: Seq<char>) -> Option<int> {
    match after_prefix(line, "PPid:"@) {
        Some(rest) => u32_value(trimmed(rest)),
        None => None,
    }
}

/// The parent that the first line with one names.
pub open spec fn parent_in_lines(ls: Seq<Seq<char>>) -> Option<int>
    decreases ls.len(),
{
    if ls.len() == 0 {
        None
    } else if parent_in_line(ls[0]) is Some {
        parent_in_line(ls[0])
    } else {
        parent_in_lines(ls.skip(1))
    }
}

/// The parent that a status file names.
pub open spec fn parent_in_status(status: Seq<char>) -> Option<int> {
    parent_in_lines(lines_of(status))
}

/// The parent that a status file names.
pub fn parse_parent_pid(status: &str) -> (r: Option<u32>)
    ensures
        r is Some <==> parent_in_status(status@) is Some,
        r is Some ==> Some(r->0 as int) == parent_in_status(status@),
{
    let all = lines(status);
    let n: usize = all.len();
    let mut i: usize = 0;
    assert(slices(all@).skip(0) =~= slices(all@));
    while i < n
        invariant
            i <= n,
            n == all@.len(),
            slices(all@) == lines_of(status@),
            parent_in_lines(slices(all@)) == parent_in_lines(slices(all@).skip(i as int)),
        decreases n - i,
    {
        let ghost rest = slices(all@).skip(i as int);
        assert(rest[0] == all@[i as int]@);
        assert(rest.skip(1) =~= slices(all@).skip(i + 1));
        if let Some(value) = strip_prefix(all[i], "PPid:") {
            if let Some(pid) = parse_u32(trim(value)) {
                return Some(pid);
            }
        }
        i += 1;
    }
    None
}

/// The parent that is written into a status file is read back, whatever lines
/// stand around it: what counts is the first line that names one.
pub proof fn written_parent_is_read_back(
    before: Seq<Seq<char>>,
    pid: u32,
    after: Seq<Seq<char>>,
)
    requires
        forall|i: int|
            0 <= i < before.len() ==> !(#[trigger] before[i]).contains('\n') && (before[i].len() > 0
                ==> before[i].last() != '\r') && !has_prefix(before[i], "PPid:"@),
        forall|i: int|
            0 <= i < after.len() ==> !(#[trigger] after[i]).contains('\n') && (after[i].len() > 0
                ==> after[i].last() != '\r'),
    ensures
        parent_in_status(
            ended_lines(before + seq!["PPid:"@ + seq!['\t'] + decimal(pid as nat)] + after),
        ) == Some(pid as int),
{
    let digits = decimal(pid as nat);
    let line = "PPid:"@ + seq!['\t'] + digits;
    let ls = before + seq![line] + after;
    reveal_strlit("PPid:");
    digits_denote_their_number(pid as nat, 10);
    written_numbers_are_read_back(pid as nat, 0);
    assert forall|j: int| 0 <= j < line.len() implies line[j] != '\n' && line[j] != '\r' by {
        if j >= 6 {
            assert(line[j] == digits[j - 6]);
        }
    }
    assert forall|i: int| 0 <= i < ls.len() implies !(#[trigger] ls[i]).contains('\n') && (
    ls[i].len() > 0 ==> ls[i].last() != '\r') by {
        if i < before.len() {
            assert(ls[i] == before[i]);
        } else if i == before.len() {
            assert(ls[i] == line);
        } else {
            assert(ls[i] == after[i - before.len() - 1]);
        }
    }
    lines_survive(ls);
    affixes_come_off("PPid:"@, seq!['\t'] + digits);
    assert(line =~= "PPid:"@ + (seq!['\t'] + digits));
    trimming_leaves_the_text(seq!['\t'], digits, seq![]);
    assert(seq!['\t'] + digits + seq![] =~= seq!['\t'] + digits);
    assert(parent_in_line(line) == Some(pid as int));
    lemma_parent_behind(before, line, after);
}

proof fn lemma_parent_behind(before: Seq<Seq<char>>, line: Seq<char>, after: Seq<Seq<char>>)
    requires
        forall|i: int| 0 <= i < before.len() ==> !has_prefix(#[trigger] before[i], "PPid:"@),
        parent_in_line(line) is Some,
    ensures
        parent_in_lines(before + seq![line] + after) == parent_in_line(line),
    decreases before.len(),
{
    let ls = before + seq![line] + after;
    if before.len() > 0 {
        let rest = before.skip(1);
        assert(!has_prefix(before[0], "PPid:"@));
        assert(ls[0] == before[0]);
        assert forall|i: int| 0 <= i < rest.len() implies !has_prefix(
            #[trigger] rest[i],
            "PPid:"@,
        ) by {
            assert(rest[i] == before[i + 1]);
        }
        lemma_parent_behind(rest, line, after);
        assert(ls.skip(1) =~= rest + seq![line] + after);
    } else {
        assert(ls[0] == line);
    }
}

/// Whether a process belongs to the user: the owner of its directory is the
/// user's id.
pub open spec fn owned_by_user(user_id: Option<Seq<char>>, owner: Option<u32>) -> bool {
    match (user_id, owner) {
        (Some(uid), Some(o)) => u32_value(uid) == Some(o as int),
        _ => false,
    }
}

/// Whether a process belongs to the user.
pub fn process_owner_matches_current_user(user_id: &Option<String>, owner: Option<u32>) -> (r: bool)
    ensures
        r == owned_by_user(optional_text(*user_id), owner),
{
    match user_id {
        Some(text) => match parse_u32(text.as_str()) {
            Some(uid) => match owner {
                Some(o) => uid == o,
                None => false,
            },
            None => false,
        },
        None => false,
    }
}

/// A process belongs to the user exactly where the number of its owner is the one
/// that is written as the user's; without either number it does not.
pub proof fn owners_are_told_by_their_numbers(user: u32, owner: u32)
    ensures
        owned_by_user(Some(decimal(user as nat)), Some(owner)) <==> user == owner,
        !owned_by_user(None, Some(owner)),
        !owned_by_user(Some(decimal(user as nat)), None),
{
    written_numbers_are_read_back(user as nat, 0);
}

// ---------------------------------------------------------------------------
// The walk.
// ---------------------------------------------------------------------------

/// What the walk waits for.
#[derive(Debug, Clone, Copy, PartialEq, Eq, Structural)]
pub enum WalkStage {
    /// The status file of the running process.
    OwnStatus,
    /// The environment of a process.
    Environ(u32),
    /// The status file of a process.
    Status(u32),
    /// The owner of the first process.
    InitOwner,
    /// The environment of the first process.
    InitEnviron,
    Finished,
}

/// The walk from the running process upwards, and then to the first process.
#[derive(Debug)]
pub struct ProcessWalk {
    environments: Vec<TextMap<String>>,
    visited: Vec<u32>,
    stage: WalkStage,
}

/// A walk as a mathematical value.
pub struct WalkState {
    pub found: Seq<Variables>,
    pub visited: Seq<u32>,
    pub stage: WalkStage,
}

/// The stage after the ancestors.
pub open spec fn after_ancestors(visited: Seq<u32>) -> WalkStage {
    if visited.contains(1u32) {
        WalkStage::Finished
    } else {
        WalkStage::InitOwner
    }
}

/// The stage for a parent: its environment, unless there is none, it is the
/// first process, or enough have been looked at.
pub open spec fn toward(visited: Seq<u32>, parent: Option<int>) -> WalkStage {
    if visited.len() < MAX_ANCESTORS && parent is Some && parent->0 > 1 {
        WalkStage::Environ(parent->0 as u32)
    } else {
        after_ancestors(visited)
    }
}

/// The start of a walk.
pub open spec fn walk_start() -> WalkState {
    WalkState { found: seq![], visited: seq![], stage: WalkStage::OwnStatus }
}

/// A walk after a status file was read, or could not be.
pub open spec fn walk_status(s: WalkState, status: Option<Seq<char>>) -> WalkState {
    let parent = match status {
        Some(text) => parent_in_status(text),
        None => None,
    };
    match s.stage {
        WalkStage::OwnStatus | WalkStage::Status(_) => WalkState {
            stage: toward(s.visited, parent),
            ..s
        },
        _ => s,
    }
}

/// The variables of an environment file.
pub open spec fn environ_variables(bytes: Seq<u8>) -> Variables {
    defined(fields(bytes, 0u8))
}

/// A walk after an environment file was read, or could not be. That of the
/// first process counts only where it shows a display.
pub open spec fn walk_environ(s: WalkState, bytes: Option<Seq<u8>>) -> WalkState {
    match s.stage {
        WalkStage::Environ(pid) => {
            let visited = s.visited.push(pid);
            WalkState {
                found: match bytes {
                    Some(b) => s.found.push(environ_variables(b)),
                    None => s.found,
                },
                visited,
                stage: if visited.len() < MAX_ANCESTORS {
                    WalkStage::Status(pid)
                } else {
                    after_ancestors(visited)
                },
            }
        },
        WalkStage::InitEnviron => WalkState {
            found: match bytes {
                Some(b) => if shows_display(environ_variables(b)) {
                    s.found.push(environ_variables(b))
                } else {
                    s.found
                },
                None => s.found,
            },
            visited: s.visited,
            stage: WalkStage::Finished,
        },
        _ => s,
    }
}

/// A walk after it was told who owns the first process.
pub open spec fn walk_owner(
    s: WalkState,
    user_id: Option<Seq<char>>,
    owner: Option<u32>,
) -> WalkState {
    match s.stage {
        WalkStage::InitOwner => WalkState {
            stage: if owned_by_user(user_id, owner) {
                WalkStage::InitEnviron
            } else {
                WalkStage::Finished
            },
            ..s
        },
        _ => s,
    }
}

/// A walk has looked at no more processes than it may, the first process is
/// not among them, and each gave at most one environment.
pub open spec fn bounded(s: WalkState) -> bool {
    &&& s.visited.len() <= MAX_ANCESTORS
    &&& forall|i: int| 0 <= i < s.visited.len() ==> #[trigger] s.visited[i] > 1
    &&& s.found.len() <= s.visited.len() + (if s.stage is Finished {
        1int
    } else {
        0int
    })
    &&& s.stage matches WalkStage::Environ(pid) ==> pid > 1 && s.visited.len() < MAX_ANCESTORS
    &&& s.stage is OwnStatus ==> s.visited.len() == 0
    &&& s.stage is Status ==> s.visited.len() < MAX_ANCESTORS
}

/// Every answer keeps a walk bounded, from its start on.
pub proof fn walk_is_bounded(
    s: WalkState,
    status: Option<Seq<char>>,
    bytes: Option<Seq<u8>>,
    user_id: Option<Seq<char>>,
    owner: Option<u32>,
)
    requires
        bounded(s),
    ensures
        bounded(walk_start()),
        bounded(walk_status(s, status)),
        bounded(walk_environ(s, bytes)),
        bounded(walk_owner(s, user_id, owner)),
{
    if let Some(text) = status {
        lemma_parent_fits(lines_of(text));
    }
}

proof fn lemma_parent_fits(ls: Seq<Seq<char>>)
    ensures
        parent_in_lines(ls) is Some ==> parent_in_lines(ls)->0 <= u32::MAX,
    decreases ls.len(),
{
    if ls.len() > 0 {
        lemma_parent_fits(ls.skip(1));
    }
}

/// The order in which the stages of a walk follow each other.
pub open spec fn stage_rank(s: WalkState) -> int {
    match s.stage {
        WalkStage::OwnStatus => 40,
        WalkStage::Environ(_) => 39 - 2 * s.visited.len(),
        WalkStage::Status(_) => 40 - 2 * s.visited.len(),
        WalkStage::InitOwner => 2,
        WalkStage::InitEnviron => 1,
        WalkStage::Finished => 0,
    }
}

/// A walk ends: the answer that it waits for brings it closer to its end.
pub proof fn walk_ends(
    s: WalkState,
    status: Option<Seq<char>>,
    bytes: Option<Seq<u8>>,
    user_id: Option<Seq<char>>,
    owner: Option<u32>,
)
    requires
        bounded(s),
    ensures
        s.stage is OwnStatus || s.stage is Status ==> 0 <= stage_rank(walk_status(s, status))
            < stage_rank(s),
        s.stage is Environ || s.stage is InitEnviron ==> 0 <= stage_rank(walk_environ(s, bytes))
            < stage_rank(s),
        s.stage is InitOwner ==> 0 <= stage_rank(walk_owner(s, user_id, owner)) < stage_rank(s),
{
}

/// The walk goes up from process to parent: the environment of a process is looked
/// at before its parent is asked for, and each that can be read is kept behind
/// those that were read before, the nearest first.
pub proof fn walk_goes_up_one_by_one(
    s: WalkState,
    pid: u32,
    status: Seq<char>,
    parent: int,
    bytes: Seq<u8>,
)
    requires
        s.stage == WalkStage::Environ(pid),
        s.visited.len() + 1 < 8,
        1 < parent <= u32::MAX,
        parent_in_status(status) == Some(parent),
    ensures
        walk_status(walk_start(), Some(status)).stage == WalkStage::Environ(parent as u32),
        ({
            let read = walk_environ(s, Some(bytes));
            let unread = walk_environ(s, None);
            let next = walk_status(read, Some(status));
            &&& read.found == s.found.push(defined(fields(bytes, 0u8)))
            &&& unread.found == s.found
            &&& read.visited == s.visited.push(pid)
            &&& read.stage == WalkStage::Status(pid)
            &&& unread.stage == WalkStage::Status(pid)
            &&& next.stage == WalkStage::Environ(parent as u32)
            &&& next.found == read.found
        }),
{
}

/// At most eight processes are looked at. The walk also ends at a process whose
/// parent is the first one, or none, or cannot be told; then the first process
/// comes last, and its environment counts only where it belongs to the user and
/// shows a display.
pub proof fn walk_ends_at_the_first_process(
    s: WalkState,
    status: Option<Seq<char>>,
    user: u32,
    owner: u32,
    bytes: Seq<u8>,
)
    requires
        bounded(s),
    ensures
        s.stage is Environ && s.visited.len() == 7 ==> walk_environ(
            s,
            Some(bytes),
        ).stage is InitOwner,
        (s.stage is OwnStatus || s.stage is Status) && (status is None || parent_in_status(
            status->0,
        ) is None || parent_in_status(status->0)->0 <= 1) ==> walk_status(
            s,
            status,
        ).stage is InitOwner,
        s.stage is InitOwner ==> {
            let told = walk_owner(s, Some(decimal(user as nat)), Some(owner));
            let read = walk_environ(told, Some(bytes));
            &&& told.stage is InitEnviron <==> user == owner
            &&& told.stage is Finished <==> user != owner
            &&& user == owner && shows_display(defined(fields(bytes, 0u8))) ==> read.found
                == s.found.push(defined(fields(bytes, 0u8)))
            &&& user == owner && !shows_display(defined(fields(bytes, 0u8))) ==> read.found
                == s.found
            &&& read.stage is Finished
        },
{
    owners_are_told_by_their_numbers(user, owner);
    if s.stage is Environ {
        let pid = s.stage->Environ_0;
        let visited = s.visited.push(pid);
        assert forall|i: int| 0 <= i < visited.len() implies visited[i] != 1u32 by {
            if i < s.visited.len() {
                assert(s.visited[i] > 1);
            }
        }
    }
    assert forall|i: int| 0 <= i < s.visited.len() implies s.visited[i] != 1u32 by {
        assert(s.visited[i] > 1);
    }
}

impl View for ProcessWalk {
    type V = WalkState;

    closed spec fn view(&self) -> WalkState {
        WalkState {
            found: variables_of(self.environments@),
            visited: self.visited@,
            stage: self.stage,
        }
    }
}

fn contains_init(visited: &Vec<u32>) -> (r: bool)
    ensures
        r == visited@.contains(1u32),
{
    let mut i: usize = 0;
    while i < visited.len()
        invariant
            i <= visited@.len(),
            forall|j: int| 0 <= j < i ==> visited@[j] != 1u32,
        decreases visited.len() - i,
    {
        if visited[i] == 1 {
            return true;
        }
        i += 1;
    }
    false
}

fn stage_after_ancestors(visited: &Vec<u32>) -> (r: WalkStage)
    ensures
        r == after_ancestors(visited@),
{
    if contains_init(visited) {
        WalkStage::Finished
    } else {
        WalkStage::InitOwner
    }
}

impl ProcessWalk {
    /// What the walk waits for.
    pub fn stage(&self) -> (r: WalkStage)
        ensures
            r == self@.stage,
    {
        self.stage
    }

    /// The walk after a status file was read, or could not be.
    pub fn status(self, status: Option<&str>) -> (r: Self)
        ensures
            r@ == walk_status(
                self@,
                match status {
                    Some(text) => Some(text@),
                    None => None,
                },
            ),
    {
        let ProcessWalk { environments, visited, stage } = self;
        let waiting = match stage {
            WalkStage::OwnStatus => true,
            WalkStage::Status(_) => true,
            _ => false,
        };
        if !waiting {
            return ProcessWalk { environments, visited, stage };
        }
        let parent: Option<u32> = match status {
            Some(text) => parse_parent_pid(text),
            None => None,
        };
        let next = match parent {
            Some(pid) => if visited.len() < MAX_ANCESTORS && pid > 1 {
                WalkStage::Environ(pid)
            } else {
                stage_after_ancestors(&visited)
            },
            None => stage_after_ancestors(&visited),
        };
        ProcessWalk { environments, visited, stage: next }
    }

    /// The walk after an environment file was read, or could not be.
    pub fn environ(self, bytes: Option<&[u8]>) -> (r: Self)
        ensures
            r@ == walk_environ(
                self@,
                match bytes {
                    Some(b) => Some(b@),
                    None => None,
                },
            ),
    {
        let ProcessWalk { mut environments, mut visited, stage } = self;
        let ghost before = environments@;
        match stage {
            WalkStage::Environ(pid) => {
                visited.push(pid);
                if let Some(b) = bytes {
                    let env = parse_environ(b);
                    environments.push(env);
                    assert(variables_of(environments@) =~= variables_of(before).push(
                        environ_variables(b@),
                    ));
                }
                let next = if visited.len() < MAX_ANCESTORS {
                    WalkStage::Status(pid)
                } else {
                    stage_after_ancestors(&visited)
                };
                ProcessWalk { environments, visited, stage: next }
            },
            WalkStage::InitEnviron => {
                if let Some(b) = bytes {
                    let env = parse_environ(b);
                    if process_env_has_graphical_display(&env) {
                        environments.push(env);
                        assert(variables_of(environments@) =~= variables_of(before).push(
                            environ_variables(b@),
                        ));
                    }
                }
                ProcessWalk { environments, visited, stage: WalkStage::Finished }
            },
            _ => ProcessWalk { environments, visited, stage },
        }
    }

    /// The walk after it was told who owns the first process.
    pub fn owner(self, user_id: &Option<String>, owner: Option<u32>) -> (r: Self)
        ensures
            r@ == walk_owner(self@, optional_text(*user_id), owner),
    {
        let ProcessWalk { environments, visited, stage } = self;
        match stage {
            WalkStage::InitOwner => {
                let next = if process_owner_matches_current_user(user_id, owner) {
                    WalkStage::InitEnviron
                } else {
                    WalkStage::Finished
                };
                ProcessWalk { environments, visited, stage: next }
            },
            _ => ProcessWalk { environments, visited, stage },
        }
    }

    /// The environments found so far, the nearest process first.
    pub fn environments(self) -> (r: Vec<TextMap<String>>)
        ensures
            variables_of(r@) == self@.found,
    {
        self.environments
    }
}

/// Starts the walk.
pub fn desktop_process_environments() -> (r: ProcessWalk)
    ensures
        r@ == walk_start(),
{
    let r = ProcessWalk {
        environments: Vec::new(),
        visited: Vec::new(),
        stage: WalkStage::OwnStatus,
    };
    assert(r@.found =~= seq![]);
    assert(r@.visited =~= seq![]);
    r
}

} // verus!
