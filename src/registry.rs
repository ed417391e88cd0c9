//! The registry of pending operations: callbacks keyed by target name, and
//! single-result and streaming invocations keyed by invocation id.
//!
//! The registry decides what an inbound message does; the handles it stores
//! (a callback, a one-shot completer, a stream sink) are the caller's and are
//! handed back to it to act on.
use vstd::prelude::*;
use vstd::string::StringExecFns;
use crate::protocol::MessageType;

verus! {

broadcast use vstd::string::group_string_axioms;

/// What a registry entry waits for.
#[derive(Debug, Clone, Copy, PartialEq, Eq, Structural)]
pub enum EntryKind {
    /// A handler for server-initiated invocations of one target; never completes.
    Callback,
    /// An invocation that awaits exactly one completion.
    Single,
    /// An invocation that receives stream items until its completion.
    Stream,
}

/// One registry entry: its key, its kind and the caller's handle.
pub struct Entry<H> {
    pub key: String,
    pub kind: EntryKind,
    pub handle: H,
}

/// A registration that can be withdrawn: dropping the callback it stands for.
pub trait CallbackHandler {
    /// Removes the registration.
    fn unregister(self);
}

/// The registry's tables: entries by key, and the invocation counter.
pub struct Registry<H> {
    entries: Vec<Entry<H>>,
    counter: u64,
    table: Ghost<Map<Seq<char>, (EntryKind, H)>>,
}

/// What an inbound message asks of its entry, stated by key.
pub enum Action<H> {
    /// Nothing in the registry answers the message.
    Ignored,
    /// Run the callback registered under this target.
    Invoke(Seq<char>),
    /// Push an item into the stream registered under this id.
    Push(Seq<char>),
    /// The entry of this kind was removed; finish its handle.
    Completed(EntryKind, H),
    /// The server closed the connection.
    Closed,
}

/// What `process_message` returns: the action, with the position of the
/// entry whose handle must act where the entry stays.
pub enum Dispatch<H> {
    Ignored,
    Invoke(usize),
    Push(usize),
    Completed(EntryKind, H),
    Closed,
}

/// The characters of an optional key.
pub open spec fn key_view(key: Option<String>) -> Option<Seq<char>> {
    match key {
        Some(k) => Some(k@),
        None => None,
    }
}

/// Whether some entry of `entries` has key `k`.
pub open spec fn stored_at_some<H>(entries: Seq<Entry<H>>, k: Seq<char>) -> bool {
    exists|i: int| 0 <= i < entries.len() && entries[i].key@ == k
}

/// Whether `h` occurs in `s`.
pub open spec fn handle_in<H>(s: Seq<H>, h: H) -> bool {
    exists|j: int| 0 <= j < s.len() && s[j] == h
}

/// Whether `h` is the handle of a single or streaming invocation of `m`.
pub open spec fn pending_handle<H>(m: Map<Seq<char>, (EntryKind, H)>, h: H) -> bool {
    exists|k: Seq<char>| m.contains_key(k) && m[k].0 != EntryKind::Callback && m[k].1 == h
}

/// The decimal digit character of `d`.
pub open spec fn digit_char(d: nat) -> char {
    if d == 0 {
        '0'
    } else if d == 1 {
        '1'
    } else if d == 2 {
        '2'
    } else if d == 3 {
        '3'
    } else if d == 4 {
        '4'
    } else if d == 5 {
        '5'
    } else if d == 6 {
        '6'
    } else if d == 7 {
        '7'
    } else if d == 8 {
        '8'
    } else {
        '9'
    }
}

/// The decimal notation of `n`, without leading zeros.
pub open spec fn decimal(n: nat) -> Seq<char>
    decreases n,
{
    if n < 10 {
        seq![digit_char(n)]
    } else {
        decimal(n / 10).push(digit_char(n % 10))
    }
}

/// The invocation id made from a target name and a counter value.
pub open spec fn key_spec(target: Seq<char>, n: nat) -> Seq<char> {
    target + seq!['_'] + decimal(n)
}

/// The table after an inbound message of kind `t` with key `key`: a
/// completion removes the single or streaming invocation it names; nothing
/// else changes the table.
pub open spec fn next_table<H>(
    m: Map<Seq<char>, (EntryKind, H)>,
    t: MessageType,
    key: Option<Seq<char>>,
) -> Map<Seq<char>, (EntryKind, H)> {
    match key {
        Some(k) => if t == MessageType::Completion && m.contains_key(k) && m[k].0
            != EntryKind::Callback {
            m.remove(k)
        } else {
            m
        },
        None => m,
    }
}

/// The action that an inbound message of kind `t` with key `key` asks for.
pub open spec fn action_of<H>(
    m: Map<Seq<char>, (EntryKind, H)>,
    t: MessageType,
    key: Option<Seq<char>>,
) -> Action<H> {
    if t == MessageType::Close {
        Action::Closed
    } else {
        match key {
            Some(k) => if m.contains_key(k) {
                if t == MessageType::Invocation && m[k].0 == EntryKind::Callback {
                    Action::Invoke(k)
                } else if t == MessageType::StreamItem && m[k].0 == EntryKind::Stream {
                    Action::Push(k)
                } else if t == MessageType::Completion && m[k].0 != EntryKind::Callback {
                    Action::Completed(m[k].0, m[k].1)
                } else {
                    Action::Ignored
                }
            } else {
                Action::Ignored
            },
            None => Action::Ignored,
        }
    }
}

/// The table with every single and streaming invocation taken out; callbacks stay.
pub open spec fn callbacks_only<H>(m: Map<Seq<char>, (EntryKind, H)>) -> Map<
    Seq<char>,
    (EntryKind, H),
> {
    m.restrict(m.dom().filter(|k: Seq<char>| m[k].0 == EntryKind::Callback))
}

/// The string `"0"` .. `"9"` for a digit.
fn digit_str(d: u64) -> (r: &'static str)
    requires
        d < 10,
    ensures
        r@ == seq![digit_char(d as nat)],
{
    proof {
        reveal_strlit("0");
        reveal_strlit("1");
        reveal_strlit("2");
        reveal_strlit("3");
        reveal_strlit("4");
        reveal_strlit("5");
        reveal_strlit("6");
        reveal_strlit("7");
        reveal_strlit("8");
        reveal_strlit("9");
    }
    match d {
        0 => "0",
        1 => "1",
        2 => "2",
        3 => "3",
        4 => "4",
        5 => "5",
        6 => "6",
        7 => "7",
        8 => "8",
        _ => "9",
    }
}

/// Appends the decimal notation of `n` to `s`.
pub(crate) fn append_decimal(s: &mut String, n: u64)
    ensures
        final(s)@ == old(s)@ + decimal(n as nat),
    decreases n,
{
    if n >= 10 {
        append_decimal(s, n / 10);
    }
    s.append(digit_str(n % 10));
    proof {
        if n >= 10 {
            assert(decimal(n as nat) == decimal((n / 10) as nat).push(digit_char((n % 10) as nat)));
        }
    }
}

impl<H> Registry<H> {
    /// The entries by key: each key with the kind and handle stored under it.
    pub closed spec fn view(&self) -> Map<Seq<char>, (EntryKind, H)> {
        self.table@
    }

    /// The counter value that the next invocation id will carry.
    pub closed spec fn next_index(&self) -> nat {
        self.counter as nat
    }

    /// The entry stored at position `i`.
    pub closed spec fn entry_at(&self, i: int) -> (Seq<char>, EntryKind, H) {
        (self.entries@[i].key@, self.entries@[i].kind, self.entries@[i].handle)
    }

    /// The number of entries.
    pub closed spec fn size(&self) -> nat {
        self.entries@.len()
    }

    /// Entries and table agree, and keys are unique.
    pub closed spec fn wf(&self) -> bool {
        &&& forall|i: int|
            #![trigger self.entries@[i]]
            0 <= i < self.entries@.len() ==> self.table@.contains_key(self.entries@[i].key@)
                && self.table@[self.entries@[i].key@] == (
                self.entries@[i].kind,
                self.entries@[i].handle,
            )
        &&& forall|k: Seq<char>|
            #![trigger self.table@.contains_key(k)]
            self.table@.contains_key(k) ==> stored_at_some(self.entries@, k)
        &&& forall|i: int, j: int|
            #![trigger self.entries@[i], self.entries@[j]]
            0 <= i < self.entries@.len() && 0 <= j < self.entries@.len() && i != j
                ==> self.entries@[i].key@ != self.entries@[j].key@
    }

    /// An empty registry whose counter starts at zero.
    pub fn new() -> (r: Self)
        ensures
            r.wf(),
            r@ == Map::<Seq<char>, (EntryKind, H)>::empty(),
            r.next_index() == 0,
    {
        Registry { entries: Vec::new(), counter: 0, table: Ghost(Map::empty()) }
    }

    /// Whether another invocation id can be made without the counter wrapping.
    pub fn can_create_key(&self) -> (r: bool)
        ensures
            r == (self.next_index() < u64::MAX),
    {
        self.counter < u64::MAX
    }

    /// Makes a fresh invocation id `"<target>_<n>"`, `n` being the counter,
    /// and advances the counter.
    pub fn create_key(&mut self, target: &String) -> (r: String)
        requires
            old(self).wf(),
            old(self).next_index() < u64::MAX,
        ensures
            r@ == key_spec(target@, old(self).next_index()),
            final(self).next_index() == old(self).next_index() + 1,
            final(self)@ == old(self)@,
            final(self).wf(),
    {
        let index = self.counter;
        self.counter = self.counter + 1;
        let mut key = target.clone();
        key.append("_");
        proof {
            reveal_strlit("_");
        }
        append_decimal(&mut key, index);
        proof {
            assert(key@ =~= key_spec(target@, index as nat));
        }
        key
    }

    /// The position of the entry with key `key`, if there is one.
    fn find(&self, key: &String) -> (r: Option<usize>)
        requires
            self.wf(),
        ensures
            match r {
                Some(i) => i < self.entries@.len() && self.entries@[i as int].key@ == key@,
                None => !self@.contains_key(key@),
            },
    {
        let mut i: usize = 0;
        while i < self.entries.len()
            invariant
                self.wf(),
                i <= self.entries@.len(),
                forall|j: int| 0 <= j < i ==> self.entries@[j].key@ != key@,
            decreases self.entries@.len() - i,
        {
            if self.entries[i].key == *key {
                return Some(i);
            }
            i = i + 1;
        }
        None
    }

    /// Whether an entry is stored under `key`.
    pub fn contains(&self, key: &String) -> (r: bool)
        requires
            self.wf(),
        ensures
            r == self@.contains_key(key@),
    {
        match self.find(key) {
            Some(i) => {
                proof {
                    assert(self.table@.contains_key(self.entries@[i as int].key@));
                }
                true
            },
            None => false,
        }
    }

    /// The handle of the entry at position `i`.
    pub fn handle(&self, i: usize) -> (r: &H)
        requires
            i < self.size(),
        ensures
            *r == self.entry_at(i as int).2,
    {
        &self.entries[i].handle
    }

    /// Takes out the entry at position `i`.
    fn take_at(&mut self, i: usize) -> (r: Entry<H>)
        requires
            old(self).wf(),
            i < old(self).entries@.len(),
        ensures
            final(self).wf(),
            r.key@ == old(self).entries@[i as int].key@,
            r.kind == old(self).entries@[i as int].kind,
            r.handle == old(self).entries@[i as int].handle,
            final(self)@ == old(self)@.remove(r.key@),
            final(self).counter == old(self).counter,
            final(self).entries@ == old(self).entries@.remove(i as int),
    {
        let ghost k = self.entries@[i as int].key@;
        let ghost before = self.entries@;
        let e = self.entries.remove(i);
        self.table = Ghost(self.table@.remove(k));
        proof {
            assert forall|j: int| 0 <= j < self.entries@.len() implies #[trigger] self.table@.contains_key(
                self.entries@[j].key@,
            ) && self.table@[self.entries@[j].key@] == (
                self.entries@[j].kind,
                self.entries@[j].handle,
            ) by {
                let jj = if j < i { j } else { j + 1 };
                assert(self.entries@[j] == before[jj]);
                assert(old(self).table@.contains_key(before[jj].key@));
                assert(before[jj].key@ != before[i as int].key@);
            }
            assert forall|key: Seq<char>| #[trigger]
                self.table@.contains_key(key) implies stored_at_some(self.entries@, key) by {
                assert(old(self).table@.contains_key(key));
                let jj = choose|jj: int| 0 <= jj < before.len() && before[jj].key@ == key;
                assert(jj != i);
                let j = if jj < i { jj } else { jj - 1 };
                assert(self.entries@[j] == before[jj]);
            }
            assert forall|a: int, b: int|
                0 <= a < self.entries@.len() && 0 <= b < self.entries@.len() && a != b
                    implies #[trigger] self.entries@[a].key@ != #[trigger] self.entries@[b].key@ by {
                let aa = if a < i { a } else { a + 1 };
                let bb = if b < i { b } else { b + 1 };
                assert(self.entries@[a] == before[aa]);
                assert(self.entries@[b] == before[bb]);
            }
            assert(self.wf());
        }
        e
    }

    /// Stores `handle` under `key` with kind `kind`, replacing any entry
    /// stored under that key.
    fn insert(&mut self, key: String, kind: EntryKind, handle: H)
        requires
            old(self).wf(),
        ensures
            final(self).wf(),
            final(self)@ == old(self)@.insert(key@, (kind, handle)),
            final(self).counter == old(self).counter,
    {
        match self.find(&key) {
            Some(i) => {
                let _ = self.take_at(i);
            },
            None => {},
        }
        let ghost mid = self.table@;
        let ghost before = self.entries@;
        let ghost k = key@;
        assert(!mid.contains_key(k));
        self.entries.push(Entry { key, kind, handle });
        self.table = Ghost(mid.insert(k, (kind, handle)));
        proof {
            let n = before.len();
            assert(self.entries@[n as int].key@ == k);
            assert forall|j: int| 0 <= j < self.entries@.len() implies #[trigger] self.table@.contains_key(
                self.entries@[j].key@,
            ) && self.table@[self.entries@[j].key@] == (
                self.entries@[j].kind,
                self.entries@[j].handle,
            ) by {
                if j < n {
                    assert(self.entries@[j] == before[j]);
                    assert(mid.contains_key(before[j].key@));
                }
            }
            assert forall|q: Seq<char>| #[trigger]
                self.table@.contains_key(q) implies stored_at_some(self.entries@, q) by {
                if q != k {
                    assert(mid.contains_key(q));
                    let j = choose|j: int| 0 <= j < before.len() && before[j].key@ == q;
                    assert(self.entries@[j] == before[j]);
                } else {
                    assert(self.entries@[n as int].key@ == q);
                }
            }
            assert forall|a: int, b: int|
                0 <= a < self.entries@.len() && 0 <= b < self.entries@.len() && a != b
                    implies #[trigger] self.entries@[a].key@ != #[trigger] self.entries@[b].key@ by {
                if a < n && b < n {
                    assert(self.entries@[a] == before[a]);
                    assert(self.entries@[b] == before[b]);
                } else if a < n {
                    assert(self.entries@[a] == before[a]);
                    assert(mid.contains_key(before[a].key@));
                } else if b < n {
                    assert(self.entries@[b] == before[b]);
                    assert(mid.contains_key(before[b].key@));
                }
            }
        }
    }

    /// Registers a callback for server invocations of `target`, replacing any
    /// callback already registered for it.
    pub fn add_callback(&mut self, target: String, handle: H)
        requires
            old(self).wf(),
        ensures
            final(self).wf(),
            final(self)@ == old(self)@.insert(target@, (EntryKind::Callback, handle)),
            final(self).next_index() == old(self).next_index(),
    {
        self.insert(target, EntryKind::Callback, handle);
    }

    /// Registers an invocation that awaits one completion under `invocation_id`.
    pub fn add_invocation(&mut self, invocation_id: String, handle: H)
        requires
            old(self).wf(),
        ensures
            final(self).wf(),
            final(self)@ == old(self)@.insert(invocation_id@, (EntryKind::Single, handle)),
            final(self).next_index() == old(self).next_index(),
    {
        self.insert(invocation_id, EntryKind::Single, handle);
    }

    /// Registers a streaming invocation under `invocation_id`.
    pub fn add_stream(&mut self, invocation_id: String, handle: H)
        requires
            old(self).wf(),
        ensures
            final(self).wf(),
            final(self)@ == old(self)@.insert(invocation_id@, (EntryKind::Stream, handle)),
            final(self).next_index() == old(self).next_index(),
    {
        self.insert(invocation_id, EntryKind::Stream, handle);
    }

    /// Removes the entry stored under `key` and returns its handle.
    pub fn remove(&mut self, key: &String) -> (r: Option<H>)
        requires
            old(self).wf(),
        ensures
            final(self).wf(),
            final(self)@ == old(self)@.remove(key@),
            final(self).next_index() == old(self).next_index(),
            match r {
                Some(h) => old(self)@.contains_key(key@) && h == old(self)@[key@].1,
                None => !old(self)@.contains_key(key@),
            },
    {
        match self.find(key) {
            Some(i) => {
                proof {
                    assert(self.table@.contains_key(self.entries@[i as int].key@));
                }
                let e = self.take_at(i);
                Some(e.handle)
            },
            None => {
                proof {
                    assert(self.table@.remove(key@) =~= self.table@);
                }
                None
            },
        }
    }

    /// Routes one inbound message of kind `message_type` carrying `key`: an
    /// invocation goes to the callback of its target, a stream item to its
    /// stream, and a completion removes the invocation it completes and hands
    /// its handle back. A close reports the closing; anything else is ignored.
    pub fn process_message(&mut self, message_type: MessageType, key: Option<String>) -> (r:
        Dispatch<H>)
        requires
            old(self).wf(),
        ensures
            final(self).wf(),
            final(self)@ == next_table(old(self)@, message_type, key_view(key)),
            final(self).next_index() == old(self).next_index(),
            dispatch_matches(
                r,
                action_of(old(self)@, message_type, key_view(key)),
                *final(self),
            ),
    {
        if message_type == MessageType::Close {
            return Dispatch::Closed;
        }
        let k = match key {
            Some(k) => k,
            None => {
                return Dispatch::Ignored;
            },
        };
        let i = match self.find(&k) {
            Some(i) => i,
            None => {
                return Dispatch::Ignored;
            },
        };
        proof {
            assert(self.table@.contains_key(self.entries@[i as int].key@));
        }
        let kind = self.entries[i].kind;
        match message_type {
            MessageType::Invocation => {
                if kind == EntryKind::Callback {
                    Dispatch::Invoke(i)
                } else {
                    Dispatch::Ignored
                }
            },
            MessageType::StreamItem => {
                if kind == EntryKind::Stream {
                    Dispatch::Push(i)
                } else {
                    Dispatch::Ignored
                }
            },
            MessageType::Completion => {
                if kind == EntryKind::Callback {
                    Dispatch::Ignored
                } else {
                    let e = self.take_at(i);
                    Dispatch::Completed(e.kind, e.handle)
                }
            },
            _ => Dispatch::Ignored,
        }
    }

    /// Takes out every single and streaming invocation and returns their
    /// handles, so that the caller can cancel them; callbacks stay.
    pub fn cancel_pending(&mut self) -> (r: Vec<H>)
        requires
            old(self).wf(),
        ensures
            final(self).wf(),
            final(self)@ == callbacks_only(old(self)@),
            final(self).next_index() == old(self).next_index(),
            forall|j: int| 0 <= j < r@.len() ==> pending_handle(old(self)@, #[trigger] r@[j]),
            forall|k: Seq<char>|
                old(self)@.contains_key(k) && old(self)@[k].0 != EntryKind::Callback ==> handle_in(
                    r@,
                    #[trigger] old(self)@[k].1,
                ),
            r@.len() == old(self).size() - final(self).size(),
    {
        let mut out: Vec<H> = Vec::new();
        let mut i: usize = 0;
        let ghost orig = self.table@;
        let ghost orig_len = self.entries@.len();
        while i < self.entries.len()
            invariant
                self.wf(),
                i <= self.entries@.len(),
                self.counter == old(self).counter,
                orig == old(self).table@,
                forall|j: int| 0 <= j < i ==> #[trigger] self.entries@[j].kind == EntryKind::Callback,
                forall|q: Seq<char>| #[trigger]
                    self.table@.contains_key(q) ==> orig.contains_key(q) && orig[q]
                        == self.table@[q],
                forall|q: Seq<char>| #[trigger]
                    orig.contains_key(q) && orig[q].0 == EntryKind::Callback
                        ==> self.table@.contains_key(q),
                forall|j: int| 0 <= j < out@.len() ==> pending_handle(orig, #[trigger] out@[j]),
                forall|q: Seq<char>|
                    orig.contains_key(q) && orig[q].0 != EntryKind::Callback ==> self.table@.contains_key(
                        q,
                    ) || handle_in(out@, #[trigger] orig[q].1),
                out@.len() + self.entries@.len() == orig_len,
                orig_len == old(self).entries@.len(),
            decreases self.entries@.len() - i,
        {
            if self.entries[i].kind == EntryKind::Callback {
                i = i + 1;
            } else {
                let ghost before = self.entries@;
                let ghost t = self.table@;
                let e = self.take_at(i);
                proof {
                    assert(t.contains_key(before[i as int].key@));
                    assert(orig[e.key@] == t[e.key@]);
                    assert forall|j: int| 0 <= j < i implies #[trigger] self.entries@[j].kind
                        == EntryKind::Callback by {
                        assert(self.entries@[j] == before[j]);
                    }
                }
                let ghost ek = e.key@;
                let ghost old_out = out@;
                out.push(e.handle);
                proof {
                    assert forall|j: int| 0 <= j < out@.len() implies pending_handle(
                        orig,
                        #[trigger] out@[j],
                    ) by {
                        if j == out@.len() - 1 {
                            assert(orig.contains_key(ek) && orig[ek].1 == out@[j]);
                        } else {
                            assert(out@[j] == old_out[j]);
                        }
                    }
                    assert forall|q: Seq<char>|
                        orig.contains_key(q) && orig[q].0 != EntryKind::Callback implies self.table@.contains_key(
                        q,
                    ) || handle_in(out@, #[trigger] orig[q].1) by {
                        if q == ek {
                            assert(out@[out@.len() - 1] == orig[q].1);
                        } else if !self.table@.contains_key(q) {
                            assert(!t.contains_key(q) || q == ek);
                            let w = choose|w: int| 0 <= w < old_out.len() && old_out[w] == orig[q].1;
                            assert(out@[w] == old_out[w]);
                        }
                    }
                }
            }
        }
        proof {
            assert forall|q: Seq<char>| #[trigger]
                self.table@.contains_key(q) implies self.table@[q].0 == EntryKind::Callback by {
                let j = choose|j: int| 0 <= j < self.entries@.len() && self.entries@[j].key@ == q;
                assert(self.entries@[j].kind == EntryKind::Callback);
            }
            assert(self.table@ =~= callbacks_only(orig));
        }
        out
    }
}

/// The number that a string of decimal digits denotes.
pub open spec fn decimal_value(s: Seq<char>) -> nat
    decreases s.len(),
{
    if s.len() == 0 {
        0
    } else {
        decimal_value(s.drop_last()) * 10 + ((s.last() as nat) - ('0' as nat)) as nat
    }
}

proof fn lemma_decimal(n: nat)
    ensures
        decimal(n).len() >= 1,
        decimal_value(decimal(n)) == n,
        forall|i: int| 0 <= i < decimal(n).len() ==> '0' <= #[trigger] decimal(n)[i] <= '9',
    decreases n,
{
    if n >= 10 {
        lemma_decimal(n / 10);
        let d = decimal(n);
        assert(d.drop_last() =~= decimal(n / 10));
        lemma_digit_char(n % 10);
        assert(d.last() == digit_char(n % 10));
        assert(n == (n / 10) * 10 + n % 10);
        assert(decimal_value(d) == decimal_value(d.drop_last()) * 10 + ((d.last() as nat) - (
        '0' as nat)) as nat);
        assert(forall|i: int| 0 <= i < decimal(n / 10).len() ==> d[i] == decimal(n / 10)[i]);
    } else {
        let d = decimal(n);
        assert(d.drop_last() =~= Seq::<char>::empty());
        lemma_digit_char(n);
        assert(decimal_value(d) == decimal_value(d.drop_last()) * 10 + ((d.last() as nat) - (
        '0' as nat)) as nat);
    }
}

proof fn lemma_digit_char(d: nat)
    requires
        d < 10,
    ensures
        (digit_char(d) as nat) - ('0' as nat) == d,
        '0' <= digit_char(d) <= '9',
{
    assert('0' as nat == 48);
    assert('9' as nat == 57);
    if d == 0 {
    } else if d == 1 {
        assert('1' as nat == 49);
    } else if d == 2 {
        assert('2' as nat == 50);
    } else if d == 3 {
        assert('3' as nat == 51);
    } else if d == 4 {
        assert('4' as nat == 52);
    } else if d == 5 {
        assert('5' as nat == 53);
    } else if d == 6 {
        assert('6' as nat == 54);
    } else if d == 7 {
        assert('7' as nat == 55);
    } else if d == 8 {
        assert('8' as nat == 56);
    }
}

/// Invocation ids made with two different counter values differ, whatever
/// the two targets; the numeric suffix of the later one is the larger.
pub proof fn lemma_keys_distinct(t1: Seq<char>, t2: Seq<char>, c1: nat, c2: nat)
    requires
        c1 < c2,
    ensures
        key_spec(t1, c1) != key_spec(t2, c2),
        decimal_value(decimal(c1)) < decimal_value(decimal(c2)),
{
    lemma_decimal(c1);
    lemma_decimal(c2);
    let k1 = key_spec(t1, c1);
    let k2 = key_spec(t2, c2);
    let d1 = decimal(c1);
    let d2 = decimal(c2);
    if k1 == k2 {
        let n = k1.len();
        if d1.len() == d2.len() {
            assert(k1.subrange(n - d1.len(), n as int) =~= d1);
            assert(k2.subrange(n - d2.len(), n as int) =~= d2);
        } else if d1.len() < d2.len() {
            let p = n - d1.len() - 1;
            assert(k1[p] == '_');
            assert(k2[p] == d2[p - (n - d2.len())]);
        } else {
            let p = n - d2.len() - 1;
            assert(k2[p] == '_');
            assert(k1[p] == d1[p - (n - d1.len())]);
        }
    }
}

/// A completion for a single invocation removes its entry and hands back its
/// handle; a second completion for the same id finds nothing and changes
/// nothing.
pub proof fn lemma_completion_removes_once<H>(m: Map<Seq<char>, (EntryKind, H)>, k: Seq<char>)
    requires
        m.contains_key(k),
        m[k].0 == EntryKind::Single,
    ensures
        next_table(m, MessageType::Completion, Some(k)) == m.remove(k),
        action_of(m, MessageType::Completion, Some(k)) == Action::Completed(EntryKind::Single, m[k].1),
        action_of(next_table(m, MessageType::Completion, Some(k)), MessageType::Completion, Some(k))
            == Action::<H>::Ignored,
        next_table(next_table(m, MessageType::Completion, Some(k)), MessageType::Completion, Some(k))
            == m.remove(k),
{
}

/// One inbound message: its kind and the key it carries.
pub type Inbound = (MessageType, Option<Seq<char>>);

/// The table after a run of inbound messages.
pub open spec fn run_table<H>(m: Map<Seq<char>, (EntryKind, H)>, msgs: Seq<Inbound>) -> Map<
    Seq<char>,
    (EntryKind, H),
>
    decreases msgs.len(),
{
    if msgs.len() == 0 {
        m
    } else {
        run_table(next_table(m, msgs[0].0, msgs[0].1), msgs.drop_first())
    }
}

/// How often a run of inbound messages runs the callback of `target`.
pub open spec fn fires<H>(m: Map<Seq<char>, (EntryKind, H)>, msgs: Seq<Inbound>, target: Seq<char>) -> nat
    decreases msgs.len(),
{
    if msgs.len() == 0 {
        0
    } else {
        (if action_of(m, msgs[0].0, msgs[0].1) == Action::<H>::Invoke(target) {
            1nat
        } else {
            0nat
        }) + fires(next_table(m, msgs[0].0, msgs[0].1), msgs.drop_first(), target)
    }
}

/// How many messages of a run are invocations of `target`.
pub open spec fn invocations_of(msgs: Seq<Inbound>, target: Seq<char>) -> nat
    decreases msgs.len(),
{
    if msgs.len() == 0 {
        0
    } else {
        (if msgs[0] == (MessageType::Invocation, Some(target)) {
            1nat
        } else {
            0nat
        }) + invocations_of(msgs.drop_first(), target)
    }
}

/// While a callback is registered for `target`, it runs once for each inbound
/// invocation of `target` and at no other time; inbound messages never
/// unregister it.
pub proof fn lemma_callback_fires_per_invocation<H>(
    m: Map<Seq<char>, (EntryKind, H)>,
    msgs: Seq<Inbound>,
    target: Seq<char>,
)
    requires
        m.contains_key(target),
        m[target].0 == EntryKind::Callback,
    ensures
        fires(m, msgs, target) == invocations_of(msgs, target),
        run_table(m, msgs).contains_key(target),
        run_table(m, msgs)[target] == m[target],
    decreases msgs.len(),
{
    if msgs.len() > 0 {
        let m2 = next_table(m, msgs[0].0, msgs[0].1);
        assert(m2.contains_key(target) && m2[target] == m[target]);
        lemma_callback_fires_per_invocation(m2, msgs.drop_first(), target);
    }
}

/// Whether the returned dispatch carries out `a` on the registry `reg`.
pub open spec fn dispatch_matches<H>(r: Dispatch<H>, a: Action<H>, reg: Registry<H>) -> bool {
    match a {
        Action::Ignored => r is Ignored,
        Action::Closed => r is Closed,
        Action::Invoke(k) => match r {
            Dispatch::Invoke(i) => i < reg.size() && reg.entry_at(i as int).0 == k && reg@.contains_key(k)
                && reg.entry_at(i as int).2 == reg@[k].1,
            _ => false,
        },
        Action::Push(k) => match r {
            Dispatch::Push(i) => i < reg.size() && reg.entry_at(i as int).0 == k && reg@.contains_key(k)
                && reg.entry_at(i as int).2 == reg@[k].1,
            _ => false,
        },
        Action::Completed(kind, h) => r == Dispatch::Completed(kind, h),
    }
}

} // verus!
