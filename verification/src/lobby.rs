//! The lobby: connections that wait, each under its own code, for a second
//! player.
//!
//! The lobby is generic in what a connection is; it stores connections and
//! hands them back, and never looks inside one. Its model is a map from codes
//! to waiting connections. The caller shares one lobby between its tasks under
//! a lock and keeps the timers: when an entry has waited for
//! `PENDING_TIMEOUT_SECS`, the caller has it expire.

use crate::chance::{is_alphanumeric, sample_alphanumeric};
use vstd::prelude::*;

verus! {

/// Number of characters of a generated code.
pub const CODE_LENGTH: usize = 20;

/// Number of codes `create` draws before it gives up.
pub const CODE_ATTEMPTS: usize = 32;

/// How long an entry may wait for a second player, in seconds.
pub const PENDING_TIMEOUT_SECS: u64 = 300;

/// `String::push` of std, for which vstd has no contract: it appends `c` to
/// the end of the text and leaves the rest as it was.
pub assume_specification[ String::push ](text: &mut String, c: char)
    ensures
        final(text)@ == old(text)@.push(c),
;

/// Whether `code` has the form of a generated code: `CODE_LENGTH` ASCII
/// letters and digits.
pub open spec fn is_code(code: Seq<char>) -> bool {
    &&& code.len() == CODE_LENGTH
    &&& forall|i: int| 0 <= i < code.len() ==> is_alphanumeric(#[trigger] code[i])
}

/// What the server tells a connection that asked to create or join a match.
#[derive(Debug, PartialEq, Eq)]
pub enum LobbyNotice {
    /// To the creator: the code under which it now waits.
    Game(String),
    /// To a joiner: nobody waits under that code.
    NoSuchGame,
    /// To a joiner: it has been paired and the match begins.
    JoinedGame,
}

/// What came of an attempt to join.
#[derive(Debug, PartialEq, Eq)]
pub enum JoinResult<C> {
    /// Paired: the connection that waited, then the one that joined.
    Matched(C, C),
    /// Nobody waited under the code; the joining connection comes back.
    NoSuchGame(C),
}

impl<C> JoinResult<C> {
    /// What the joiner is to be told.
    pub fn notice(&self) -> (notice: LobbyNotice)
        ensures
            self is Matched ==> notice == LobbyNotice::JoinedGame,
            self is NoSuchGame ==> notice == LobbyNotice::NoSuchGame,
    {
        match self {
            JoinResult::Matched(_, _) => LobbyNotice::JoinedGame,
            JoinResult::NoSuchGame(_) => LobbyNotice::NoSuchGame,
        }
    }
}

struct PendingEntry<C> {
    code: String,
    connection: C,
}

spec fn holds_code<C>(entries: Seq<PendingEntry<C>>, code: Seq<char>) -> bool {
    exists|i: int| 0 <= i < entries.len() && (#[trigger] entries[i]).code@ == code
}

spec fn slot_of<C>(entries: Seq<PendingEntry<C>>, code: Seq<char>) -> int {
    choose|i: int| 0 <= i < entries.len() && (#[trigger] entries[i]).code@ == code
}

spec fn codes_distinct<C>(entries: Seq<PendingEntry<C>>) -> bool {
    forall|i: int, j: int|
        0 <= i < j < entries.len() ==> (#[trigger] entries[i]).code@ != (
        #[trigger] entries[j]).code@
}

spec fn pending_map<C>(entries: Seq<PendingEntry<C>>) -> Map<Seq<char>, C> {
    Map::new(
        |code: Seq<char>| holds_code(entries, code),
        |code: Seq<char>| entries[slot_of(entries, code)].connection,
    )
}

/// With distinct codes, a code is found in the slot of its entry and maps to
/// the connection of that entry.
proof fn lemma_slot_of<C>(entries: Seq<PendingEntry<C>>, i: int)
    requires
        codes_distinct(entries),
        0 <= i < entries.len(),
    ensures
        holds_code(entries, entries[i].code@),
        slot_of(entries, entries[i].code@) == i,
        pending_map(entries)[entries[i].code@] == entries[i].connection,
{
}

/// A new entry under an unused code adds one binding to the map.
proof fn lemma_push<C>(entries: Seq<PendingEntry<C>>, entry: PendingEntry<C>)
    requires
        codes_distinct(entries),
        !holds_code(entries, entry.code@),
    ensures
        codes_distinct(entries.push(entry)),
        pending_map(entries.push(entry)) == pending_map(entries).insert(
            entry.code@,
            entry.connection,
        ),
{
    let longer = entries.push(entry);
    let grown = pending_map(entries).insert(entry.code@, entry.connection);
    assert forall|code: Seq<char>|
        pending_map(longer).dom().contains(code) <==> grown.dom().contains(code) by {
        if holds_code(entries, code) {
            assert(longer[slot_of(entries, code)].code@ == code);
        }
        if code == entry.code@ {
            assert(longer[entries.len() as int].code@ == code);
        }
    }
    assert forall|code: Seq<char>| #[trigger]
        pending_map(longer).dom().contains(code) implies pending_map(longer)[code]
        == grown[code] by {
        let i = slot_of(longer, code);
        lemma_slot_of(longer, i);
        if i < entries.len() {
            lemma_slot_of(entries, i);
        }
    }
}

/// Taking an entry out removes the binding of its code from the map.
proof fn lemma_remove<C>(entries: Seq<PendingEntry<C>>, at: int)
    requires
        codes_distinct(entries),
        0 <= at < entries.len(),
    ensures
        codes_distinct(entries.remove(at)),
        pending_map(entries.remove(at)) == pending_map(entries).remove(entries[at].code@),
{
    let shorter = entries.remove(at);
    let shrunk = pending_map(entries).remove(entries[at].code@);
    assert forall|code: Seq<char>|
        pending_map(shorter).dom().contains(code) <==> shrunk.dom().contains(code) by {
        if holds_code(entries, code) && code != entries[at].code@ {
            let i = slot_of(entries, code);
            let to = if i < at { i } else { i - 1 };
            assert(shorter[to].code@ == code);
        }
    }
    assert forall|code: Seq<char>| #[trigger]
        pending_map(shorter).dom().contains(code) implies pending_map(shorter)[code]
        == shrunk[code] by {
        let i = slot_of(shorter, code);
        lemma_slot_of(shorter, i);
        lemma_slot_of(entries, if i < at { i } else { i + 1 });
    }
}

/// Draws a code.
pub fn random_code() -> (code: String)
    ensures
        is_code(code@),
{
    let mut code = String::new();
    let mut drawn: usize = 0;
    while drawn < CODE_LENGTH
        invariant
            drawn <= CODE_LENGTH,
            code@.len() == drawn,
            forall|i: int| 0 <= i < code@.len() ==> is_alphanumeric(#[trigger] code@[i]),
        decreases CODE_LENGTH - drawn,
    {
        let c = sample_alphanumeric();
        code.push(c);
        drawn += 1;
    }
    code
}

/// The connections waiting for a second player, each under its own code.
pub struct Lobby<C> {
    entries: Vec<PendingEntry<C>>,
}

impl<C> View for Lobby<C> {
    type V = Map<Seq<char>, C>;

    closed spec fn view(&self) -> Map<Seq<char>, C> {
        pending_map(self.entries@)
    }
}

impl<C> Default for Lobby<C> {
    /// A lobby in which nobody waits.
    fn default() -> (lobby: Lobby<C>)
        ensures
            lobby.wf(),
            lobby@ == Map::<Seq<char>, C>::empty(),
    {
        Lobby::new()
    }
}

impl<C> Lobby<C> {
    /// The invariant of every lobby handed out by this module: no two
    /// entries wait under the same code.
    pub closed spec fn wf(&self) -> bool {
        codes_distinct(self.entries@)
    }

    /// Whether some connection waits under a code that has the form of a
    /// generated one.
    pub open spec fn holds_generated_code(&self) -> bool {
        exists|code: Seq<char>| is_code(code) && #[trigger] self@.dom().contains(code)
    }

    /// A lobby in which nobody waits.
    pub fn new() -> (lobby: Lobby<C>)
        ensures
            lobby.wf(),
            lobby@ == Map::<Seq<char>, C>::empty(),
    {
        Lobby { entries: Vec::new() }
    }

    fn find(&self, code: &String) -> (slot: Option<usize>)
        ensures
            match slot {
                Some(at) => at < self.entries.len() && self.entries[at as int].code@ == code@,
                None => !holds_code(self.entries@, code@),
            },
    {
        let mut at: usize = 0;
        while at < self.entries.len()
            invariant
                at <= self.entries.len(),
                forall|i: int| 0 <= i < at ==> (#[trigger] self.entries[i]).code@ != code@,
            decreases self.entries.len() - at,
        {
            if self.entries[at].code == *code {
                return Some(at);
            }
            at += 1;
        }
        None
    }

    /// Whether a connection waits under `code`.
    pub fn is_pending(&self, code: &str) -> (pending: bool)
        ensures
            pending == self@.dom().contains(code@),
    {
        let key = code.to_owned();
        self.find(&key).is_some()
    }

    /// Draws codes until one is free, `CODE_ATTEMPTS` times at most. The code
    /// returned is not in use. No code is returned only if every draw hit a
    /// code in use; so as long as no generated code is in use, one is
    /// returned.
    pub fn fresh_code(&self) -> (code: Option<String>)
        ensures
            code matches Some(drawn) ==> is_code(drawn@) && !self@.dom().contains(drawn@),
            code is None ==> self.holds_generated_code(),
    {
        let mut attempts: usize = 0;
        while attempts < CODE_ATTEMPTS
            invariant
                attempts <= CODE_ATTEMPTS,
                attempts > 0 ==> self.holds_generated_code(),
            decreases CODE_ATTEMPTS - attempts,
        {
            let candidate = random_code();
            match self.find(&candidate) {
                None => {
                    return Some(candidate);
                },
                Some(_) => {
                    assert(is_code(candidate@) && self@.dom().contains(candidate@));
                },
            }
            attempts += 1;
        }
        None
    }

    /// Lets `connection` wait under `code`, unless a connection already waits
    /// under it; then nothing changes and `connection` comes back.
    pub fn register(&mut self, code: String, connection: C) -> (registered: Result<(), C>)
        requires
            old(self).wf(),
        ensures
            final(self).wf(),
            registered is Ok <==> !old(self)@.dom().contains(code@),
            registered is Ok ==> final(self)@ == old(self)@.insert(code@, connection),
            registered matches Err(returned) ==> returned == connection && final(self)@ == old(
                self,
            )@,
    {
        match self.find(&code) {
            Some(_) => Err(connection),
            None => {
                let entry = PendingEntry { code, connection };
                proof {
                    lemma_push(self.entries@, entry);
                }
                self.entries.push(entry);
                Ok(())
            },
        }
    }

    /// Lets `connection` wait under a freshly drawn code and returns the code.
    /// Should every one of `CODE_ATTEMPTS` draws hit a code in use, nothing
    /// changes and `connection` comes back; this cannot happen as long as no
    /// generated code is in use, and so not while nobody waits.
    pub fn create(&mut self, connection: C) -> (created: Result<String, C>)
        requires
            old(self).wf(),
        ensures
            final(self).wf(),
            created matches Ok(code) ==> {
                &&& is_code(code@)
                &&& !old(self)@.dom().contains(code@)
                &&& final(self)@ == old(self)@.insert(code@, connection)
            },
            created matches Err(returned) ==> {
                &&& returned == connection
                &&& final(self)@ == old(self)@
                &&& old(self).holds_generated_code()
            },
    {
        match self.fresh_code() {
            Some(code) => {
                let handed_out = code.clone();
                match self.register(code, connection) {
                    Ok(()) => Ok(handed_out),
                    Err(returned) => Err(returned),
                }
            },
            None => Err(connection),
        }
    }

    /// Pairs `connection` with the connection that waits under `code`, which
    /// thereby stops waiting. If nobody waits under `code`, nothing changes and
    /// `connection` comes back.
    pub fn join(&mut self, code: &str, connection: C) -> (joined: JoinResult<C>)
        requires
            old(self).wf(),
        ensures
            final(self).wf(),
            old(self)@.dom().contains(code@) ==> joined == JoinResult::Matched(
                old(self)@[code@],
                connection,
            ) && final(self)@ == old(self)@.remove(code@),
            !old(self)@.dom().contains(code@) ==> joined == JoinResult::NoSuchGame(connection)
                && final(self)@ == old(self)@,
    {
        let key = code.to_owned();
        match self.find(&key) {
            Some(at) => {
                proof {
                    lemma_slot_of(self.entries@, at as int);
                    lemma_remove(self.entries@, at as int);
                }
                let entry = self.entries.remove(at);
                JoinResult::Matched(entry.connection, connection)
            },
            None => JoinResult::NoSuchGame(connection),
        }
    }

    /// Ends the wait under `code`, as when its time is up, and returns the
    /// connection that waited. If nobody waits under `code`, nothing changes.
    pub fn expire(&mut self, code: &str) -> (abandoned: Option<C>)
        requires
            old(self).wf(),
        ensures
            final(self).wf(),
            final(self)@ == old(self)@.remove(code@),
            abandoned == if old(self)@.dom().contains(code@) {
                Some(old(self)@[code@])
            } else {
                None
            },
    {
        let key = code.to_owned();
        match self.find(&key) {
            Some(at) => {
                proof {
                    lemma_slot_of(self.entries@, at as int);
                    lemma_remove(self.entries@, at as int);
                }
                let entry = self.entries.remove(at);
                Some(entry.connection)
            },
            None => None,
        }
    }
}

} // verus!
