use vstd::prelude::*;

verus! {

use vstd::string::*;

broadcast use vstd::seq::axiom_seq_index_decreases, vstd::seq::axiom_seq_subrange_decreases;

/// Ghost model of a `LuaMessage`: the same tree, over mathematical types.
/// A table is modelled as its ordered entry list; well-formed tables have
/// distinct keys, so the list determines the mapping.
pub enum MsgView {
    Str(Seq<char>),
    Int(int),
    /// IEEE 754 bit pattern of the floating-point payload.
    Num(u64),
    Bool(bool),
    Nil,
    Table(Seq<(Seq<char>, MsgView)>),
    Array(Seq<MsgView>),
    Variadic(Seq<MsgView>),
}

/// A host-side value that can cross the boundary to the embedded interpreter:
/// every variant maps to exactly one interpreter value shape.
#[derive(Debug)]
pub enum LuaMessage {
    String(String),
    Integer(i64),
    /// A floating-point payload, carried as its IEEE 754 bit pattern so that
    /// the surrounding logic stays over plain integers. Equality on this
    /// variant is therefore bitwise.
    Number(u64),
    Boolean(bool),
    Nil,
    Table(LuaTable),
    Array(Vec<LuaMessage>),
    Variadic(VariadicLuaMessage),
}

/// A string-keyed mapping of messages, kept as an ordered entry list.
/// Well-formed tables have pairwise-distinct keys.
#[derive(Debug)]
pub struct LuaTable {
    pub entries: Vec<(String, LuaMessage)>,
}

/// An ordered sequence of messages that stands for several call arguments or
/// several return values, as opposed to one structural `Array` value.
#[derive(Debug)]
pub struct VariadicLuaMessage {
    pub items: Vec<LuaMessage>,
}

/// One or more values headed for a call boundary: a `Variadic` root supplies
/// each of its items as a separate argument or return value, any other
/// message supplies itself as the only one.
#[derive(Debug)]
pub struct MultiLuaMessage {
    pub message: LuaMessage,
}

pub open spec fn msg_view(m: LuaMessage) -> MsgView
    decreases m,
{
    match m {
        LuaMessage::String(s) => MsgView::Str(s@),
        LuaMessage::Integer(i) => MsgView::Int(i as int),
        LuaMessage::Number(b) => MsgView::Num(b),
        LuaMessage::Boolean(b) => MsgView::Bool(b),
        LuaMessage::Nil => MsgView::Nil,
        LuaMessage::Table(t) => MsgView::Table(entry_views(t.entries@)),
        LuaMessage::Array(v) => MsgView::Array(msg_views(v@)),
        LuaMessage::Variadic(v) => MsgView::Variadic(msg_views(v.items@)),
    }
}

/// The views of a message list, in order.
pub open spec fn msg_views(s: Seq<LuaMessage>) -> Seq<MsgView>
    decreases s,
{
    if s.len() == 0 {
        Seq::empty()
    } else {
        seq![msg_view(s[0])] + msg_views(s.subrange(1, s.len() as int))
    }
}

/// The views of a table's entry list, in order.
pub open spec fn entry_views(s: Seq<(String, LuaMessage)>) -> Seq<(Seq<char>, MsgView)>
    decreases s,
{
    if s.len() == 0 {
        Seq::empty()
    } else {
        seq![(s[0].0@, msg_view(s[0].1))] + entry_views(s.subrange(1, s.len() as int))
    }
}

/// `msg_views` is the elementwise image of `msg_view`.
pub broadcast proof fn lemma_msg_views_index(s: Seq<LuaMessage>)
    ensures
        (#[trigger] msg_views(s)).len() == s.len(),
        forall|i: int| 0 <= i < s.len() ==> msg_views(s)[i] == msg_view(s[i]),
    decreases s.len(),
{
    if s.len() > 0 {
        lemma_msg_views_index(s.subrange(1, s.len() as int));
        assert forall|i: int| 0 <= i < s.len() implies msg_views(s)[i] == msg_view(s[i]) by {
            if i > 0 {
                assert(s.subrange(1, s.len() as int)[i - 1] == s[i]);
            }
        }
    }
}

/// `entry_views` keeps length, keys and the elementwise value views.
pub broadcast proof fn lemma_entry_views_index(s: Seq<(String, LuaMessage)>)
    ensures
        (#[trigger] entry_views(s)).len() == s.len(),
        forall|i: int| 0 <= i < s.len()
            ==> entry_views(s)[i] == (s[i].0@, msg_view(s[i].1)),
    decreases s.len(),
{
    if s.len() > 0 {
        lemma_entry_views_index(s.subrange(1, s.len() as int));
        assert forall|i: int| 0 <= i < s.len()
            implies entry_views(s)[i] == (s[i].0@, msg_view(s[i].1)) by {
            if i > 0 {
                assert(s.subrange(1, s.len() as int)[i - 1] == s[i]);
            }
        }
    }
}

/// The effect of binding `key` to `val` on a table's entry-list view:
/// the first entry with that key is replaced in place, and a missing key
/// appends a fresh entry.
pub open spec fn assoc_update(
    entries: Seq<(Seq<char>, MsgView)>,
    key: Seq<char>,
    val: MsgView,
) -> Seq<(Seq<char>, MsgView)>
    decreases entries.len(),
{
    if entries.len() == 0 {
        seq![(key, val)]
    } else if entries[0].0 == key {
        seq![(key, val)] + entries.subrange(1, entries.len() as int)
    } else {
        seq![entries[0]] + assoc_update(entries.subrange(1, entries.len() as int), key, val)
    }
}

/// When the first entry holding `key` sits at `i`, `assoc_update` is an
/// in-place update there.
proof fn lemma_assoc_update_replace(
    s: Seq<(Seq<char>, MsgView)>,
    i: int,
    key: Seq<char>,
    val: MsgView,
)
    requires
        0 <= i < s.len(),
        s[i].0 == key,
        forall|k: int| 0 <= k < i ==> (#[trigger] s[k]).0 != key,
    ensures
        assoc_update(s, key, val) == s.update(i, (key, val)),
    decreases i,
{
    let rest = s.subrange(1, s.len() as int);
    if i == 0 {
        assert(assoc_update(s, key, val) =~= s.update(0, (key, val)));
    } else {
        assert(s[0].0 != key);
        assert forall|k: int| 0 <= k < i - 1 implies (#[trigger] rest[k]).0 != key by {
            assert(rest[k] == s[k + 1]);
        }
        assert(rest[i - 1] == s[i]);
        lemma_assoc_update_replace(rest, i - 1, key, val);
        assert(assoc_update(s, key, val) =~= s.update(i, (key, val)));
    }
}

/// When no entry holds `key`, `assoc_update` appends.
proof fn lemma_assoc_update_append(s: Seq<(Seq<char>, MsgView)>, key: Seq<char>, val: MsgView)
    requires
        forall|k: int| 0 <= k < s.len() ==> (#[trigger] s[k]).0 != key,
    ensures
        assoc_update(s, key, val) == s + seq![(key, val)],
    decreases s.len(),
{
    let rest = s.subrange(1, s.len() as int);
    if s.len() == 0 {
        assert(assoc_update(s, key, val) =~= s + seq![(key, val)]);
    } else {
        assert(s[0].0 != key);
        assert forall|k: int| 0 <= k < rest.len() implies (#[trigger] rest[k]).0 != key by {
            assert(rest[k] == s[k + 1]);
        }
        lemma_assoc_update_append(rest, key, val);
        assert(assoc_update(s, key, val) =~= s + seq![(key, val)]);
    }
}

impl View for LuaMessage {
    type V = MsgView;

    open spec fn view(&self) -> MsgView {
        msg_view(*self)
    }
}

impl View for LuaTable {
    type V = Seq<(Seq<char>, MsgView)>;

    open spec fn view(&self) -> Seq<(Seq<char>, MsgView)> {
        entry_views(self.entries@)
    }
}

impl View for VariadicLuaMessage {
    type V = Seq<MsgView>;

    open spec fn view(&self) -> Seq<MsgView> {
        msg_views(self.items@)
    }
}

impl LuaMessage {
    /// A message is well formed when every table in it has distinct keys and
    /// no `Variadic` holds another `Variadic` directly: flattening one for a
    /// call boundary then always yields non-`Variadic` messages.
    pub open spec fn wf(self) -> bool
        decreases self,
    {
        match self {
            LuaMessage::Table(t) => t.wf(),
            LuaMessage::Array(v) => forall|i: int|
                0 <= i < v@.len() ==> (#[trigger] v@[i]).wf(),
            LuaMessage::Variadic(v) => forall|i: int|
                0 <= i < v.items@.len()
                    ==> (#[trigger] v.items@[i]).wf() && !(v.items@[i] is Variadic),
            _ => true,
        }
    }
}

impl LuaTable {
    pub open spec fn wf(self) -> bool
        decreases self,
    {
        &&& forall|i: int, j: int|
            0 <= i < j < self.entries@.len()
                ==> (#[trigger] self.entries@[i]).0@ != (#[trigger] self.entries@[j]).0@
        &&& forall|i: int| 0 <= i < self.entries@.len() ==> (#[trigger] self.entries@[i]).1.wf()
    }

    /// The key sequence, in entry order.
    pub open spec fn keys(self) -> Seq<Seq<char>> {
        Seq::new(self.entries@.len(), |i: int| self.entries@[i].0@)
    }

    /// What the table maps `key` to, if anything.
    pub open spec fn lookup(self, key: Seq<char>) -> Option<LuaMessage> {
        if exists|i: int| 0 <= i < self.entries@.len() && self.entries@[i].0@ == key {
            let i = choose|i: int| 0 <= i < self.entries@.len() && self.entries@[i].0@ == key;
            Some(self.entries@[i].1)
        } else {
            None
        }
    }

    pub fn new() -> (r: LuaTable)
        ensures
            r.entries@.len() == 0,
            r.wf(),
    {
        LuaTable { entries: Vec::new() }
    }

    pub fn len(&self) -> (r: usize)
        ensures
            r == self.entries@.len(),
    {
        self.entries.len()
    }

    /// Binds `key` to `value`: replaces the bound message when the key is
    /// already present, appends a fresh entry otherwise.
    pub fn insert(&mut self, key: String, value: LuaMessage)
        requires
            old(self).wf(),
            value.wf(),
        ensures
            final(self).wf(),
            final(self)@ == assoc_update(old(self)@, key@, msg_view(value)),
            final(self).lookup(key@) == Some::<LuaMessage>(value),
            forall|k: Seq<char>| k != key@ ==> final(self).lookup(k) == old(self).lookup(k),
            final(self).keys().to_set() == old(self).keys().to_set().insert(key@),
    {
        let n = self.entries.len();
        let mut i: usize = 0;
        while i < n
            invariant
                n == self.entries@.len(),
                i <= n,
                *self == *old(self),
                old(self).wf(),
                value.wf(),
                forall|j: int| 0 <= j < i ==> self.entries@[j].0@ != key@,
            decreases n - i,
        {
            if string_eq(&self.entries[i].0, &key) {
                self.entries[i].1 = value;
                proof {
                    lemma_table_update_keeps(*old(self), *self, i as int, key@);
                    lemma_entry_views_index(old(self).entries@);
                    lemma_entry_views_index(self.entries@);
                    assert forall|k: int| 0 <= k < i as int
                        implies (#[trigger] old(self)@[k]).0 != key@ by {
                        assert(old(self).entries@[k].0@ != key@);
                    }
                    lemma_assoc_update_replace(old(self)@, i as int, key@, msg_view(value));
                    assert(self@ =~= old(self)@.update(i as int, (key@, msg_view(value))));
                }
                return;
            }
            i += 1;
        }
        self.entries.push((key, value));
        proof {
            lemma_table_append_keeps(*old(self), *self, key@);
            lemma_entry_views_index(old(self).entries@);
            lemma_entry_views_index(self.entries@);
            assert forall|k: int| 0 <= k < old(self)@.len()
                implies (#[trigger] old(self)@[k]).0 != key@ by {
                assert(old(self).entries@[k].0@ != key@);
            }
            lemma_assoc_update_append(old(self)@, key@, msg_view(value));
            assert(self@ =~= old(self)@ + seq![(key@, msg_view(value))]);
        }
    }

    /// The message bound to `key`, cloned out, or `None`.
    pub fn get(&self, key: &str) -> (r: Option<LuaMessage>)
        requires
            self.wf(),
        ensures
            match self.lookup(key@) {
                Some(m) => r matches Some(x) && x@ == m@,
                None => r is None,
            },
    {
        let n = self.entries.len();
        let mut i: usize = 0;
        while i < n
            invariant
                n == self.entries@.len(),
                i <= n,
                self.wf(),
                forall|j: int| 0 <= j < i ==> self.entries@[j].0@ != key@,
            decreases n - i,
        {
            if str_eq(self.entries[i].0.as_str(), key) {
                let found = clone_message(&self.entries[i].1);
                proof {
                    assert(self.entries@[i as int].0@ == key@);
                    let c = choose|j: int|
                        0 <= j < self.entries@.len() && self.entries@[j].0@ == key@;
                    if c < i as int {
                        let pc = self.entries@[c];
                        let pi = self.entries@[i as int];
                        assert(pc.0@ != pi.0@);
                    } else if c > i as int {
                        let pc = self.entries@[c];
                        let pi = self.entries@[i as int];
                        assert(pi.0@ != pc.0@);
                    }
                }
                return Some(found);
            }
            i += 1;
        }
        None
    }
}

/// `insert` over an existing key keeps every other binding and the key set.
proof fn lemma_table_update_keeps(
    before: LuaTable,
    after: LuaTable,
    at: int,
    key: Seq<char>,
)
    requires
        0 <= at < before.entries@.len(),
        before.entries@[at].0@ == key,
        forall|j: int| 0 <= j < at ==> before.entries@[j].0@ != key,
        before.wf(),
        after.entries@.len() == before.entries@.len(),
        after.entries@[at].0@ == key,
        after.entries@[at].1.wf(),
        forall|j: int| 0 <= j < after.entries@.len() && j != at
            ==> after.entries@[j] == before.entries@[j],
    ensures
        after.wf(),
        after.lookup(key) == Some::<LuaMessage>(after.entries@[at].1),
        forall|k: Seq<char>| k != key ==> after.lookup(k) == before.lookup(k),
        after.keys().to_set() == before.keys().to_set().insert(key),
{
    assert forall|i: int, j: int| 0 <= i < j < after.entries@.len()
        implies after.entries@[i].0@ != after.entries@[j].0@ by {
        assert(before.entries@[i].0@ != before.entries@[j].0@);
        if i != at && j != at {
            assert(after.entries@[i] == before.entries@[i]);
            assert(after.entries@[j] == before.entries@[j]);
        }
    }
    assert forall|i: int| 0 <= i < after.entries@.len()
        implies #[trigger] after.entries@[i].1.wf() by {
        if i != at {
            assert(after.entries@[i] == before.entries@[i]);
            assert(before.entries@[i].1.wf());
        }
    }
    assert(after.lookup(key) == Some::<LuaMessage>(after.entries@[at].1)) by {
        let c = choose|j: int| 0 <= j < after.entries@.len() && after.entries@[j].0@ == key;
        assert(0 <= at < after.entries@.len() && after.entries@[at].0@ == key);
        if c != at {
            assert(before.entries@[c].0@ == key);
            assert(false);
        }
    }
    assert forall|k: Seq<char>| k != key implies after.lookup(k) == before.lookup(k) by {
        assert forall|j: int| 0 <= j < after.entries@.len() && j != at
            implies after.entries@[j].0@ == before.entries@[j].0@ by {
            assert(after.entries@[j] == before.entries@[j]);
        }
    }
    assert(after.keys().to_set() =~= before.keys().to_set().insert(key)) by {
        assert forall|k: Seq<char>| after.keys().to_set().contains(k)
            implies before.keys().to_set().insert(key).contains(k) by {
            let j = choose|j: int| 0 <= j < after.keys().len() && after.keys()[j] == k;
            if j != at {
                assert(before.keys()[j] == k);
                assert(before.keys().to_set().contains(k));
            }
        }
        assert forall|k: Seq<char>| before.keys().to_set().insert(key).contains(k)
            implies after.keys().to_set().contains(k) by {
            if k == key {
                assert(after.keys()[at] == k);
            } else {
                let j = choose|j: int| 0 <= j < before.keys().len() && before.keys()[j] == k;
                assert(j != at);
                assert(after.keys()[j] == k);
            }
        }
    }
}

/// `insert` of a fresh key appends it and keeps every other binding.
proof fn lemma_table_append_keeps(before: LuaTable, after: LuaTable, key: Seq<char>)
    requires
        before.wf(),
        forall|j: int| 0 <= j < before.entries@.len() ==> before.entries@[j].0@ != key,
        after.entries@.len() == before.entries@.len() + 1,
        forall|j: int| 0 <= j < before.entries@.len()
            ==> after.entries@[j] == before.entries@[j],
        after.entries@.last().0@ == key,
        after.entries@.last().1.wf(),
    ensures
        after.wf(),
        after.lookup(key) == Some::<LuaMessage>(after.entries@.last().1),
        forall|k: Seq<char>| k != key ==> after.lookup(k) == before.lookup(k),
        after.keys().to_set() == before.keys().to_set().insert(key),
{
    let last = before.entries@.len() as int;
    assert forall|i: int, j: int| 0 <= i < j < after.entries@.len()
        implies after.entries@[i].0@ != after.entries@[j].0@ by {
        if j != last {
            assert(after.entries@[i] == before.entries@[i]);
            assert(after.entries@[j] == before.entries@[j]);
            assert(before.entries@[i].0@ != before.entries@[j].0@);
        } else {
            assert(after.entries@[i] == before.entries@[i]);
            assert(before.entries@[i].0@ != key);
        }
    }
    assert forall|i: int| 0 <= i < after.entries@.len()
        implies #[trigger] after.entries@[i].1.wf() by {
        if i != last {
            assert(after.entries@[i] == before.entries@[i]);
            assert(before.entries@[i].1.wf());
        }
    }
    assert(after.lookup(key) == Some::<LuaMessage>(after.entries@.last().1)) by {
        assert(after.entries@[last].0@ == key);
        let c = choose|j: int| 0 <= j < after.entries@.len() && after.entries@[j].0@ == key;
        if c != last {
            assert(before.entries@[c].0@ == key);
            assert(false);
        }
    }
    assert forall|k: Seq<char>| k != key implies after.lookup(k) == before.lookup(k) by {
        assert forall|j: int| 0 <= j < before.entries@.len()
            implies after.entries@[j].0@ == before.entries@[j].0@ by {
            assert(after.entries@[j] == before.entries@[j]);
        }
        if exists|j: int| 0 <= j < after.entries@.len() && after.entries@[j].0@ == k {
            let c = choose|j: int| 0 <= j < after.entries@.len() && after.entries@[j].0@ == k;
            assert(c != last);
            assert(before.entries@[c].0@ == k);
        }
    }
    assert(after.keys().to_set() =~= before.keys().to_set().insert(key)) by {
        assert forall|k: Seq<char>| after.keys().to_set().contains(k)
            implies before.keys().to_set().insert(key).contains(k) by {
            let j = choose|j: int| 0 <= j < after.keys().len() && after.keys()[j] == k;
            if j != last {
                assert(before.keys()[j] == k);
            }
        }
        assert forall|k: Seq<char>| before.keys().to_set().insert(key).contains(k)
            implies after.keys().to_set().contains(k) by {
            if k == key {
                assert(after.keys()[last] == k);
            } else {
                let j = choose|j: int| 0 <= j < before.keys().len() && before.keys()[j] == k;
                assert(after.keys()[j] == k);
            }
        }
    }
}

/// String equality by contents.
pub fn string_eq(a: &String, b: &String) -> (r: bool)
    ensures
        r == (a@ == b@),
{
    a.eq(b)
}

/// `&str` equality by contents.
pub fn str_eq(a: &str, b: &str) -> (r: bool)
    ensures
        r == (a@ == b@),
{
    let al = a.unicode_len();
    let bl = b.unicode_len();
    if al != bl {
        return false;
    }
    let mut i: usize = 0;
    while i < al
        invariant
            al == a@.len(),
            bl == b@.len(),
            al == bl,
            i <= al,
            forall|j: int| 0 <= j < i ==> a@[j] == b@[j],
        decreases al - i,
    {
        if a.get_char(i) != b.get_char(i) {
            return false;
        }
        i += 1;
    }
    proof {
        assert(a@ =~= b@);
    }
    true
}

/// A deep copy: the copy has the same view as the original.
pub fn clone_message(m: &LuaMessage) -> (r: LuaMessage)
    ensures
        r@ == m@,
        r.wf() == m.wf(),
        r is Variadic <==> m is Variadic,
    decreases m,
{
    match m {
        LuaMessage::String(s) => LuaMessage::String(s.clone()),
        LuaMessage::Integer(i) => LuaMessage::Integer(*i),
        LuaMessage::Number(b) => LuaMessage::Number(*b),
        LuaMessage::Boolean(b) => LuaMessage::Boolean(*b),
        LuaMessage::Nil => LuaMessage::Nil,
        LuaMessage::Table(t) => {
            let c = clone_table(t);
            LuaMessage::Table(c)
        },
        LuaMessage::Array(v) => {
            let c = clone_messages(v);
            proof {
                lemma_clone_list_facts(c@, v@);
            }
            LuaMessage::Array(c)
        },
        LuaMessage::Variadic(v) => {
            let c = clone_messages(&v.items);
            proof {
                lemma_clone_list_facts(c@, v.items@);
            }
            LuaMessage::Variadic(VariadicLuaMessage { items: c })
        },
    }
}

/// A list whose elements agree with another's in view, well-formedness and
/// variant kind has the same list view and the same list-level
/// well-formedness conditions.
proof fn lemma_clone_list_facts(a: Seq<LuaMessage>, b: Seq<LuaMessage>)
    requires
        a.len() == b.len(),
        forall|i: int| 0 <= i < b.len()
            ==> (#[trigger] a[i])@ == b[i]@ && a[i].wf() == b[i].wf()
                && (a[i] is Variadic <==> b[i] is Variadic),
    ensures
        msg_views(a) == msg_views(b),
        (forall|i: int| 0 <= i < a.len() ==> (#[trigger] a[i]).wf()) <==> (forall|i: int|
            0 <= i < b.len() ==> (#[trigger] b[i]).wf()),
        (forall|i: int| 0 <= i < a.len() ==> (#[trigger] a[i]).wf() && !(a[i] is Variadic))
            <==> (forall|i: int|
                0 <= i < b.len() ==> (#[trigger] b[i]).wf() && !(b[i] is Variadic)),
{
    lemma_msg_views_index(a);
    lemma_msg_views_index(b);
    assert forall|i: int| 0 <= i < a.len() implies msg_views(a)[i] == msg_views(b)[i] by {
        assert(a[i]@ == b[i]@);
    }
    assert(msg_views(a) =~= msg_views(b));
    if forall|i: int| 0 <= i < a.len() ==> (#[trigger] a[i]).wf() {
        assert forall|i: int| 0 <= i < b.len() implies (#[trigger] b[i]).wf() by {
            assert(a[i]@ == b[i]@);
            assert(a[i].wf());
        }
    }
    if forall|i: int| 0 <= i < b.len() ==> (#[trigger] b[i]).wf() {
        assert forall|i: int| 0 <= i < a.len() implies (#[trigger] a[i]).wf() by {
            assert(a[i]@ == b[i]@);
            assert(b[i].wf());
        }
    }
    if forall|i: int| 0 <= i < a.len() ==> (#[trigger] a[i]).wf() && !(a[i] is Variadic) {
        assert forall|i: int| 0 <= i < b.len()
            implies (#[trigger] b[i]).wf() && !(b[i] is Variadic) by {
            assert(a[i]@ == b[i]@);
            assert(a[i].wf() && !(a[i] is Variadic));
        }
    }
    if forall|i: int| 0 <= i < b.len() ==> (#[trigger] b[i]).wf() && !(b[i] is Variadic) {
        assert forall|i: int| 0 <= i < a.len()
            implies (#[trigger] a[i]).wf() && !(a[i] is Variadic) by {
            assert(a[i]@ == b[i]@);
            assert(b[i].wf() && !(b[i] is Variadic));
        }
    }
}


/// A deep copy of a message list, element for element.
pub fn clone_messages(v: &Vec<LuaMessage>) -> (r: Vec<LuaMessage>)
    ensures
        r@.len() == v@.len(),
        forall|i: int| 0 <= i < v@.len() ==> (#[trigger] r@[i])@ == v@[i]@
            && r@[i].wf() == v@[i].wf()
            && (r@[i] is Variadic <==> v@[i] is Variadic),
    decreases v,
{
    let mut out: Vec<LuaMessage> = Vec::new();
    let n = v.len();
    let mut i: usize = 0;
    while i < n
        invariant
            n == v@.len(),
            i <= n,
            out@.len() == i,
            forall|j: int| 0 <= j < i ==> (#[trigger] out@[j])@ == v@[j]@
                && out@[j].wf() == v@[j].wf()
                && (out@[j] is Variadic <==> v@[j] is Variadic),
        decreases n - i,
    {
        let c = clone_message(&v[i]);
        out.push(c);
        i += 1;
    }
    out
}

fn clone_table(t: &LuaTable) -> (r: LuaTable)
    ensures
        r@ == t@,
        r.wf() == t.wf(),
    decreases t,
{
    let mut out: Vec<(String, LuaMessage)> = Vec::new();
    let n = t.entries.len();
    let mut i: usize = 0;
    while i < n
        invariant
            n == t.entries@.len(),
            i <= n,
            out@.len() == i,
            forall|j: int| 0 <= j < i ==> #[trigger] out@[j].0@ == t.entries@[j].0@
                && out@[j].1@ == t.entries@[j].1@
                && out@[j].1.wf() == t.entries@[j].1.wf(),
        decreases n - i,
    {
        let (k, v) = &t.entries[i];
        out.push((k.clone(), clone_message(v)));
        i += 1;
    }
    let r = LuaTable { entries: out };
    proof {
        lemma_entry_views_index(r.entries@);
        lemma_entry_views_index(t.entries@);
        assert(r@ =~= t@);
        if t.wf() {
            assert forall|i: int, j: int| 0 <= i < j < r.entries@.len()
                implies (#[trigger] r.entries@[i]).0@ != (#[trigger] r.entries@[j]).0@ by {
                assert(t.entries@[i].0@ != t.entries@[j].0@);
            }
            assert forall|i: int| 0 <= i < r.entries@.len()
                implies (#[trigger] r.entries@[i]).1.wf() by {
                assert(t.entries@[i].1.wf());
            }
            assert(r.wf());
        }
        if r.wf() {
            assert forall|i: int, j: int| 0 <= i < j < t.entries@.len()
                implies (#[trigger] t.entries@[i]).0@ != (#[trigger] t.entries@[j]).0@ by {
                assert(r.entries@[i].0@ != r.entries@[j].0@);
            }
            assert forall|i: int| 0 <= i < t.entries@.len()
                implies (#[trigger] t.entries@[i]).1.wf() by {
                assert(r.entries@[i].1.wf());
            }
            assert(t.wf());
        }
    }
    r
}


/// Prepending to a message list prepends its view.
proof fn lemma_views_insert0(s: Seq<LuaMessage>, x: LuaMessage)
    ensures
        msg_views(s.insert(0, x)) == seq![msg_view(x)] + msg_views(s),
{
    lemma_msg_views_index(s.insert(0, x));
    lemma_msg_views_index(s);
    assert forall|i: int| 0 <= i < s.insert(0, x).len()
        implies msg_views(s.insert(0, x))[i] == (seq![msg_view(x)] + msg_views(s))[i] by {
        if i == 0 {
            assert(s.insert(0, x)[0] == x);
        } else {
            assert(s.insert(0, x)[i] == s[i - 1]);
        }
    }
    assert(msg_views(s.insert(0, x)) =~= seq![msg_view(x)] + msg_views(s));
}

impl VariadicLuaMessage {
    pub fn from_vec(items: Vec<LuaMessage>) -> (r: VariadicLuaMessage)
        ensures
            r@ == msg_views(items@),
            r.items@ == items@,
    {
        VariadicLuaMessage { items }
    }

    pub fn len(&self) -> (r: usize)
        ensures
            r == self@.len(),
    {
        proof {
            lemma_msg_views_index(self.items@);
        }
        self.items.len()
    }

    /// Puts `value` before every item already held, so that assembling an
    /// argument list back to front yields the original left-to-right order.
    pub fn push_front(&mut self, value: LuaMessage)
        ensures
            final(self)@ == seq![value@] + old(self)@,
            final(self).items@ == old(self).items@.insert(0, value),
    {
        self.items.insert(0, value);
        proof {
            lemma_views_insert0(old(self).items@, value);
        }
    }
}

impl LuaMessage {
    /// Wraps a list of messages into a single structural `Array` message.
    pub fn from_slice(items: Vec<LuaMessage>) -> (r: LuaMessage)
        ensures
            r@ == MsgView::Array(msg_views(items@)),
    {
        LuaMessage::Array(items)
    }

    /// Collapses the values produced by a call or an evaluation into one
    /// message: none becomes `Nil`, a single value stands for itself, and
    /// several become a `Variadic` in the same order.
    pub fn collapse_values(values: Vec<LuaMessage>) -> (r: LuaMessage)
        ensures
            values@.len() == 0 ==> r@ == MsgView::Nil,
            values@.len() == 1 ==> r@ == msg_view(values@[0]),
            values@.len() > 1 ==> r@ == MsgView::Variadic(msg_views(values@)),
            (forall|i: int|
                0 <= i < values@.len() ==> (#[trigger] values@[i]).wf() && !(values@[i]
                    is Variadic)) ==> r.wf(),
    {
        if values.len() == 0 {
            LuaMessage::Nil
        } else if values.len() == 1 {
            let mut values = values;
            let v = values.remove(0);
            v
        } else {
            LuaMessage::Variadic(VariadicLuaMessage { items: values })
        }
    }
}

impl MultiLuaMessage {
    /// The flattened sequence of values this message supplies at a call
    /// boundary, in call order.
    pub open spec fn args_view(self) -> Seq<MsgView> {
        match self.message {
            LuaMessage::Variadic(v) => msg_views(v.items@),
            m => seq![msg_view(m)],
        }
    }

    /// Well formed when the underlying message is, so flattening yields
    /// non-`Variadic` messages only.
    pub open spec fn wf(self) -> bool {
        self.message.wf()
    }

    /// Wraps a list of messages as that many call-boundary values.
    pub fn from_slice(items: Vec<LuaMessage>) -> (r: MultiLuaMessage)
        ensures
            r.args_view() == msg_views(items@),
            r.message is Variadic,
    {
        MultiLuaMessage { message: LuaMessage::Variadic(VariadicLuaMessage { items }) }
    }

    /// Puts `value` before every value already supplied: a `Variadic` root
    /// grows at the front, any other root becomes a two-value `Variadic`.
    pub fn push_front(&mut self, value: LuaMessage)
        requires
            !(value is Variadic),
            value.wf(),
            old(self).wf(),
        ensures
            final(self).wf(),
            final(self).args_view() == seq![value@] + old(self).args_view(),
    {
        let mut tmp = LuaMessage::Nil;
        core::mem::swap(&mut self.message, &mut tmp);
        match tmp {
            LuaMessage::Variadic(mut v) => {
                proof {
                    lemma_views_insert0(v.items@, value);
                }
                v.items.insert(0, value);
                self.message = LuaMessage::Variadic(v);
            },
            other => {
                let mut items: Vec<LuaMessage> = Vec::new();
                items.push(value);
                items.push(other);
                proof {
                    lemma_msg_views_index(items@);
                    assert(msg_views(items@) =~= seq![msg_view(value), msg_view(other)]);
                    assert(seq![msg_view(value), msg_view(other)]
                        =~= seq![msg_view(value)] + seq![msg_view(other)]);
                }
                self.message = LuaMessage::Variadic(VariadicLuaMessage { items });
            },
        }
    }

    /// Hands out the flat list of call-boundary values, in call order.
    pub fn into_values(self) -> (r: Vec<LuaMessage>)
        requires
            self.wf(),
        ensures
            msg_views(r@) == self.args_view(),
            forall|i: int| 0 <= i < r@.len() ==> !((#[trigger] r@[i]) is Variadic),
            forall|i: int| 0 <= i < r@.len() ==> (#[trigger] r@[i]).wf(),
    {
        match self.message {
            LuaMessage::Variadic(v) => v.items,
            m => {
                let mut items: Vec<LuaMessage> = Vec::new();
                items.push(m);
                proof {
                    lemma_msg_views_index(items@);
                    assert(msg_views(items@) =~= seq![msg_view(items@[0])]);
                }
                items
            },
        }
    }
}


/// Deep structural equality: two messages are equal exactly when their views
/// are. Tables compare as their ordered entry lists, and the `Number` variant
/// compares by bit pattern.
pub fn message_eq(a: &LuaMessage, b: &LuaMessage) -> (r: bool)
    ensures
        r == (a@ == b@),
    decreases a,
{
    match (a, b) {
        (LuaMessage::String(x), LuaMessage::String(y)) => x.eq(y),
        (LuaMessage::Integer(x), LuaMessage::Integer(y)) => x == y,
        (LuaMessage::Number(x), LuaMessage::Number(y)) => x == y,
        (LuaMessage::Boolean(x), LuaMessage::Boolean(y)) => x == y,
        (LuaMessage::Nil, LuaMessage::Nil) => true,
        (LuaMessage::Table(x), LuaMessage::Table(y)) => table_eq(x, y),
        (LuaMessage::Array(x), LuaMessage::Array(y)) => messages_eq(x, y),
        (LuaMessage::Variadic(x), LuaMessage::Variadic(y)) => messages_eq(&x.items, &y.items),
        _ => false,
    }
}

/// Elementwise deep equality of two message lists.
pub fn messages_eq(a: &Vec<LuaMessage>, b: &Vec<LuaMessage>) -> (r: bool)
    ensures
        r == (msg_views(a@) == msg_views(b@)),
    decreases a,
{
    proof {
        lemma_msg_views_index(a@);
        lemma_msg_views_index(b@);
    }
    if a.len() != b.len() {
        return false;
    }
    let n = a.len();
    let mut i: usize = 0;
    while i < n
        invariant
            n == a@.len(),
            n == b@.len(),
            i <= n,
            msg_views(a@).len() == n,
            msg_views(b@).len() == n,
            forall|j: int| 0 <= j < n ==> msg_views(a@)[j] == msg_view(a@[j]),
            forall|j: int| 0 <= j < n ==> msg_views(b@)[j] == msg_view(b@[j]),
            forall|j: int| 0 <= j < i ==> msg_views(a@)[j] == msg_views(b@)[j],
        decreases n - i,
    {
        if !message_eq(&a[i], &b[i]) {
            proof {
                assert(msg_views(a@)[i as int] != msg_views(b@)[i as int]);
            }
            return false;
        }
        i += 1;
    }
    proof {
        assert(msg_views(a@) =~= msg_views(b@));
    }
    true
}

fn table_eq(a: &LuaTable, b: &LuaTable) -> (r: bool)
    ensures
        r == (a@ == b@),
    decreases a,
{
    proof {
        lemma_entry_views_index(a.entries@);
        lemma_entry_views_index(b.entries@);
    }
    if a.entries.len() != b.entries.len() {
        return false;
    }
    let n = a.entries.len();
    let mut i: usize = 0;
    while i < n
        invariant
            n == a.entries@.len(),
            n == b.entries@.len(),
            i <= n,
            a@.len() == n,
            b@.len() == n,
            forall|j: int| 0 <= j < n
                ==> a@[j] == (a.entries@[j].0@, msg_view(a.entries@[j].1)),
            forall|j: int| 0 <= j < n
                ==> b@[j] == (b.entries@[j].0@, msg_view(b.entries@[j].1)),
            forall|j: int| 0 <= j < i ==> a@[j] == b@[j],
        decreases n - i,
    {
        let (ka, va) = &a.entries[i];
        let (kb, vb) = &b.entries[i];
        if !ka.eq(kb) {
            proof {
                assert(a@[i as int].0 != b@[i as int].0);
            }
            return false;
        }
        if !message_eq(va, vb) {
            proof {
                assert(a@[i as int].1 != b@[i as int].1);
            }
            return false;
        }
        i += 1;
    }
    proof {
        assert(a@ =~= b@);
    }
    true
}

impl PartialEq for LuaMessage {
    fn eq(&self, other: &LuaMessage) -> (r: bool) {
        message_eq(self, other)
    }
}

impl vstd::std_specs::cmp::PartialEqSpecImpl for LuaMessage {
    open spec fn obeys_eq_spec() -> bool {
        true
    }

    open spec fn eq_spec(&self, other: &LuaMessage) -> bool {
        self@ == other@
    }
}

impl PartialEq for LuaTable {
    fn eq(&self, other: &LuaTable) -> (r: bool) {
        table_eq(self, other)
    }
}

impl vstd::std_specs::cmp::PartialEqSpecImpl for LuaTable {
    open spec fn obeys_eq_spec() -> bool {
        true
    }

    open spec fn eq_spec(&self, other: &LuaTable) -> bool {
        self@ == other@
    }
}

impl PartialEq for VariadicLuaMessage {
    fn eq(&self, other: &VariadicLuaMessage) -> (r: bool) {
        messages_eq(&self.items, &other.items)
    }
}

impl vstd::std_specs::cmp::PartialEqSpecImpl for VariadicLuaMessage {
    open spec fn obeys_eq_spec() -> bool {
        true
    }

    open spec fn eq_spec(&self, other: &VariadicLuaMessage) -> bool {
        self@ == other@
    }
}

impl PartialEq for MultiLuaMessage {
    fn eq(&self, other: &MultiLuaMessage) -> (r: bool) {
        message_eq(&self.message, &other.message)
    }
}

impl vstd::std_specs::cmp::PartialEqSpecImpl for MultiLuaMessage {
    open spec fn obeys_eq_spec() -> bool {
        true
    }

    open spec fn eq_spec(&self, other: &MultiLuaMessage) -> bool {
        self.message@ == other.message@
    }
}


impl From<bool> for LuaMessage {
    fn from(s: bool) -> (r: LuaMessage) {
        LuaMessage::Boolean(s)
    }
}

impl vstd::std_specs::convert::FromSpecImpl<bool> for LuaMessage {
    open spec fn obeys_from_spec() -> bool {
        true
    }

    open spec fn from_spec(s: bool) -> LuaMessage {
        LuaMessage::Boolean(s)
    }
}

impl From<i32> for LuaMessage {
    fn from(s: i32) -> (r: LuaMessage) {
        LuaMessage::Integer(s as i64)
    }
}

impl vstd::std_specs::convert::FromSpecImpl<i32> for LuaMessage {
    open spec fn obeys_from_spec() -> bool {
        true
    }

    open spec fn from_spec(s: i32) -> LuaMessage {
        LuaMessage::Integer(s as i64)
    }
}

impl From<i64> for LuaMessage {
    fn from(s: i64) -> (r: LuaMessage) {
        LuaMessage::Integer(s)
    }
}

impl vstd::std_specs::convert::FromSpecImpl<i64> for LuaMessage {
    open spec fn obeys_from_spec() -> bool {
        true
    }

    open spec fn from_spec(s: i64) -> LuaMessage {
        LuaMessage::Integer(s)
    }
}

impl From<String> for LuaMessage {
    fn from(s: String) -> (r: LuaMessage) {
        LuaMessage::String(s)
    }
}

impl vstd::std_specs::convert::FromSpecImpl<String> for LuaMessage {
    open spec fn obeys_from_spec() -> bool {
        true
    }

    open spec fn from_spec(s: String) -> LuaMessage {
        LuaMessage::String(s)
    }
}

impl<'l> From<&'l str> for LuaMessage {
    fn from(s: &'l str) -> (r: LuaMessage)
        ensures
            r@ == MsgView::Str(s@),
    {
        LuaMessage::String(String::from_str(s))
    }
}

impl<'l> vstd::std_specs::convert::FromSpecImpl<&'l str> for LuaMessage {
    /// A `&str` is copied into a fresh `String`, which no spec value can
    /// name, so nothing is claimed through `from_spec` here; the impl above
    /// carries the contract instead.
    open spec fn obeys_from_spec() -> bool {
        false
    }

    open spec fn from_spec(s: &'l str) -> LuaMessage {
        LuaMessage::Nil
    }
}

impl From<LuaTable> for LuaMessage {
    fn from(s: LuaTable) -> (r: LuaMessage) {
        LuaMessage::Table(s)
    }
}

impl vstd::std_specs::convert::FromSpecImpl<LuaTable> for LuaMessage {
    open spec fn obeys_from_spec() -> bool {
        true
    }

    open spec fn from_spec(s: LuaTable) -> LuaMessage {
        LuaMessage::Table(s)
    }
}

impl From<Vec<LuaMessage>> for LuaMessage {
    fn from(s: Vec<LuaMessage>) -> (r: LuaMessage) {
        LuaMessage::Array(s)
    }
}

impl vstd::std_specs::convert::FromSpecImpl<Vec<LuaMessage>> for LuaMessage {
    open spec fn obeys_from_spec() -> bool {
        true
    }

    open spec fn from_spec(s: Vec<LuaMessage>) -> LuaMessage {
        LuaMessage::Array(s)
    }
}

impl From<VariadicLuaMessage> for LuaMessage {
    /// A variadic handed over as a single structural value becomes an
    /// `Array` of its items, exactly as `from_slice` would build it.
    fn from(s: VariadicLuaMessage) -> (r: LuaMessage) {
        LuaMessage::Array(s.items)
    }
}

impl vstd::std_specs::convert::FromSpecImpl<VariadicLuaMessage> for LuaMessage {
    open spec fn obeys_from_spec() -> bool {
        true
    }

    open spec fn from_spec(s: VariadicLuaMessage) -> LuaMessage {
        LuaMessage::Array(s.items)
    }
}

impl From<LuaMessage> for MultiLuaMessage {
    fn from(s: LuaMessage) -> (r: MultiLuaMessage) {
        MultiLuaMessage { message: s }
    }
}

impl vstd::std_specs::convert::FromSpecImpl<LuaMessage> for MultiLuaMessage {
    open spec fn obeys_from_spec() -> bool {
        true
    }

    open spec fn from_spec(s: LuaMessage) -> MultiLuaMessage {
        MultiLuaMessage { message: s }
    }
}

impl From<VariadicLuaMessage> for MultiLuaMessage {
    fn from(s: VariadicLuaMessage) -> (r: MultiLuaMessage) {
        MultiLuaMessage { message: LuaMessage::Variadic(s) }
    }
}

impl vstd::std_specs::convert::FromSpecImpl<VariadicLuaMessage> for MultiLuaMessage {
    open spec fn obeys_from_spec() -> bool {
        true
    }

    open spec fn from_spec(s: VariadicLuaMessage) -> MultiLuaMessage {
        MultiLuaMessage { message: LuaMessage::Variadic(s) }
    }
}

impl From<Vec<LuaMessage>> for MultiLuaMessage {
    fn from(s: Vec<LuaMessage>) -> (r: MultiLuaMessage) {
        MultiLuaMessage { message: LuaMessage::Variadic(VariadicLuaMessage { items: s }) }
    }
}

impl vstd::std_specs::convert::FromSpecImpl<Vec<LuaMessage>> for MultiLuaMessage {
    open spec fn obeys_from_spec() -> bool {
        true
    }

    open spec fn from_spec(s: Vec<LuaMessage>) -> MultiLuaMessage {
        MultiLuaMessage { message: LuaMessage::Variadic(VariadicLuaMessage { items: s }) }
    }
}


/// The boolean a message coerces to: text parses as boolean text, numbers
/// are truthy when strictly positive, `Nil` has none, and structural
/// values are truthy when non-empty.
pub open spec fn spec_to_bool(m: LuaMessage) -> Option<bool> {
    match m {
        LuaMessage::String(s) => if s@ == "true"@ {
            Some(true)
        } else if s@ == "false"@ {
            Some(false)
        } else {
            None
        },
        LuaMessage::Integer(i) => Some(i > 0),
        LuaMessage::Number(b) => Some(crate::num::num_bits_positive(b)),
        LuaMessage::Boolean(b) => Some(b),
        LuaMessage::Nil => None,
        LuaMessage::Table(t) => Some(t.entries@.len() > 0),
        LuaMessage::Array(v) => Some(v@.len() > 0),
        LuaMessage::Variadic(v) => Some(v.items@.len() > 0),
    }
}

/// The i64 a message coerces to: text parses as an integer, a
/// floating-point payload casts numerically, booleans map to 1 and 0, and
/// `Nil` and structural values have none.
pub open spec fn spec_to_i64(m: LuaMessage) -> Option<i64> {
    match m {
        LuaMessage::String(s) => crate::num::parse_i64_spec(s@),
        LuaMessage::Integer(i) => Some(i),
        LuaMessage::Number(b) => Some(crate::num::f64_bits_as_i64(b)),
        LuaMessage::Boolean(b) => Some(if b { 1i64 } else { 0i64 }),
        _ => None,
    }
}

/// The floating-point bit pattern a message coerces to, under the same
/// rules as `spec_to_i64`.
pub open spec fn spec_to_number_bits(m: LuaMessage) -> Option<u64> {
    match m {
        LuaMessage::String(s) => crate::num::parsed_f64_bits(s@),
        LuaMessage::Integer(i) => Some(crate::num::i64_as_f64_bits(i)),
        LuaMessage::Number(b) => Some(b),
        LuaMessage::Boolean(b) => Some(
            crate::num::i64_as_f64_bits(if b { 1i64 } else { 0i64 }),
        ),
        _ => None,
    }
}

/// The entry list of the table a message coerces to: a scalar becomes a
/// one-entry table under the key `"x"`, `Nil` has none, a table stands for
/// itself, and an ordered sequence is keyed by its zero-based positions.
pub open spec fn spec_to_table(m: LuaMessage) -> Option<Seq<(Seq<char>, MsgView)>> {
    match m {
        LuaMessage::String(s) => Some(seq![("x"@, MsgView::Str(s@))]),
        LuaMessage::Integer(i) => Some(seq![("x"@, MsgView::Int(i as int))]),
        LuaMessage::Number(b) => Some(seq![("x"@, MsgView::Num(b))]),
        LuaMessage::Boolean(b) => Some(seq![("x"@, MsgView::Bool(b))]),
        LuaMessage::Nil => None,
        LuaMessage::Table(t) => Some(t@),
        LuaMessage::Array(v) => Some(
            Seq::new(v@.len(), |i: int| (crate::num::dec_digits(i as nat), msg_view(v@[i]))),
        ),
        LuaMessage::Variadic(v) => Some(
            Seq::new(
                v.items@.len(),
                |i: int| (crate::num::dec_digits(i as nat), msg_view(v.items@[i])),
            ),
        ),
    }
}

/// The message list a message coerces to: a scalar becomes the single
/// element, `Nil` has none, a table flattens to alternating keys and
/// values in entry order, and ordered sequences keep their elements.
pub open spec fn spec_to_array(m: LuaMessage) -> Option<Seq<MsgView>> {
    match m {
        LuaMessage::String(s) => Some(seq![MsgView::Str(s@)]),
        LuaMessage::Integer(i) => Some(seq![MsgView::Int(i as int)]),
        LuaMessage::Number(b) => Some(seq![MsgView::Num(b)]),
        LuaMessage::Boolean(b) => Some(seq![MsgView::Bool(b)]),
        LuaMessage::Nil => None,
        LuaMessage::Table(t) => Some(
            Seq::new(
                2 * t.entries@.len(),
                |k: int|
                    if k % 2 == 0 {
                        MsgView::Str(t.entries@[k / 2].0@)
                    } else {
                        msg_view(t.entries@[k / 2].1)
                    },
            ),
        ),
        LuaMessage::Array(v) => Some(msg_views(v@)),
        LuaMessage::Variadic(v) => Some(msg_views(v.items@)),
    }
}

impl LuaMessage {
    /// Coerces this message to a boolean, as `spec_to_bool` says.
    pub fn to_bool(&self) -> (r: Option<bool>)
        ensures
            r == spec_to_bool(*self),
    {
        match self {
            LuaMessage::String(s) => {
                if str_eq(s.as_str(), "true") {
                    Some(true)
                } else if str_eq(s.as_str(), "false") {
                    Some(false)
                } else {
                    None
                }
            },
            LuaMessage::Integer(i) => Some(*i > 0),
            LuaMessage::Number(b) => Some(crate::num::number_bits_is_positive(*b)),
            LuaMessage::Boolean(b) => Some(*b),
            LuaMessage::Nil => None,
            LuaMessage::Table(t) => Some(t.entries.len() > 0),
            LuaMessage::Array(v) => Some(v.len() > 0),
            LuaMessage::Variadic(v) => Some(v.items.len() > 0),
        }
    }

    /// Coerces this message to an i64, as `spec_to_i64` says.
    pub fn to_i64(&self) -> (r: Option<i64>)
        ensures
            r == spec_to_i64(*self),
    {
        match self {
            LuaMessage::String(s) => crate::num::parse_i64(s.as_str()),
            LuaMessage::Integer(i) => Some(*i),
            LuaMessage::Number(b) => Some(crate::num::number_bits_to_i64(*b)),
            LuaMessage::Boolean(b) => Some(if *b { 1 } else { 0 }),
            LuaMessage::Nil => None,
            LuaMessage::Table(_) => None,
            LuaMessage::Array(_) => None,
            LuaMessage::Variadic(_) => None,
        }
    }

    /// Coerces this message to a floating-point bit pattern, as
    /// `spec_to_number_bits` says.
    pub fn to_number_bits(&self) -> (r: Option<u64>)
        ensures
            r == spec_to_number_bits(*self),
    {
        match self {
            LuaMessage::String(s) => crate::num::parse_number_bits(s.as_str()),
            LuaMessage::Integer(i) => Some(crate::num::i64_to_number_bits(*i)),
            LuaMessage::Number(b) => Some(*b),
            LuaMessage::Boolean(b) => Some(
                crate::num::i64_to_number_bits(if *b { 1 } else { 0 }),
            ),
            LuaMessage::Nil => None,
            LuaMessage::Table(_) => None,
            LuaMessage::Array(_) => None,
            LuaMessage::Variadic(_) => None,
        }
    }

    /// Coerces this message to a table, as `spec_to_table` says; the
    /// result is well formed.
    pub fn to_table(&self) -> (r: Option<LuaTable>)
        requires
            self.wf(),
        ensures
            match spec_to_table(*self) {
                Some(tv) => r matches Some(t) && t@ == tv && t.wf(),
                None => r is None,
            },
    {
        match self {
            LuaMessage::String(s) => Some(scalar_table(LuaMessage::String(s.clone()))),
            LuaMessage::Integer(i) => Some(scalar_table(LuaMessage::Integer(*i))),
            LuaMessage::Number(b) => Some(scalar_table(LuaMessage::Number(*b))),
            LuaMessage::Boolean(b) => Some(scalar_table(LuaMessage::Boolean(*b))),
            LuaMessage::Nil => None,
            LuaMessage::Table(t) => Some(t.clone()),
            LuaMessage::Array(v) => Some(indexed_table(v)),
            LuaMessage::Variadic(v) => Some(indexed_table(&v.items)),
        }
    }

    /// Coerces this message to a message list, as `spec_to_array` says.
    pub fn to_array(&self) -> (r: Option<Vec<LuaMessage>>)
        ensures
            match spec_to_array(*self) {
                Some(av) => r matches Some(v) && msg_views(v@) == av,
                None => r is None,
            },
    {
        match self {
            LuaMessage::String(s) => Some(single_message(LuaMessage::String(s.clone()))),
            LuaMessage::Integer(i) => Some(single_message(LuaMessage::Integer(*i))),
            LuaMessage::Number(b) => Some(single_message(LuaMessage::Number(*b))),
            LuaMessage::Boolean(b) => Some(single_message(LuaMessage::Boolean(*b))),
            LuaMessage::Nil => None,
            LuaMessage::Table(t) => Some(flattened_entries(t)),
            LuaMessage::Array(v) => {
                let c = clone_messages(v);
                proof {
                    lemma_msg_views_index(c@);
                    lemma_msg_views_index(v@);
                    assert(msg_views(c@) =~= msg_views(v@));
                }
                Some(c)
            },
            LuaMessage::Variadic(v) => {
                let c = clone_messages(&v.items);
                proof {
                    lemma_msg_views_index(c@);
                    lemma_msg_views_index(v.items@);
                    assert(msg_views(c@) =~= msg_views(v.items@));
                }
                Some(c)
            },
        }
    }
}

/// A one-entry table binding `"x"` to the message.
fn scalar_table(m: LuaMessage) -> (r: LuaTable)
    requires
        m.wf(),
    ensures
        r@ == seq![("x"@, msg_view(m))],
        r.wf(),
{
    let mut t = LuaTable::new();
    proof {
        assert(t@ =~= Seq::<(Seq<char>, MsgView)>::empty());
    }
    t.insert(String::from_str("x"), m);
    proof {
        assert(t@ =~= seq![("x"@, msg_view(m))]);
    }
    t
}

/// A table keyed by the zero-based positions of the messages.
fn indexed_table(items: &Vec<LuaMessage>) -> (r: LuaTable)
    requires
        forall|i: int| 0 <= i < items@.len() ==> (#[trigger] items@[i]).wf(),
    ensures
        r@ == Seq::new(items@.len(), |i: int| (crate::num::dec_digits(i as nat), msg_view(items@[i]))),
        r.wf(),
{
    let mut out: Vec<(String, LuaMessage)> = Vec::new();
    let n = items.len();
    let mut i: usize = 0;
    while i < n
        invariant
            n == items@.len(),
            i <= n,
            out@.len() == i,
            forall|k: int| 0 <= k < items@.len() ==> (#[trigger] items@[k]).wf(),
            forall|j: int| 0 <= j < i ==> (#[trigger] out@[j]).0@ == crate::num::dec_digits(
                j as nat,
            ) && out@[j].1@ == items@[j]@ && out@[j].1.wf(),
        decreases n - i,
    {
        out.push((crate::num::usize_text(i), clone_message(&items[i])));
        i += 1;
    }
    let r = LuaTable { entries: out };
    proof {
        lemma_entry_views_index(r.entries@);
        assert(r@ =~= Seq::new(
            items@.len(),
            |i: int| (crate::num::dec_digits(i as nat), msg_view(items@[i])),
        ));
        assert forall|i: int, j: int| 0 <= i < j < r.entries@.len()
            implies (#[trigger] r.entries@[i]).0@ != (#[trigger] r.entries@[j]).0@ by {
            crate::num::lemma_dec_digits_injective(i as nat, j as nat);
        }
        assert forall|i: int| 0 <= i < r.entries@.len()
            implies (#[trigger] r.entries@[i]).1.wf() by {
            assert(items@[i].wf());
        }
    }
    r
}

/// A one-element message list.
fn single_message(m: LuaMessage) -> (r: Vec<LuaMessage>)
    ensures
        msg_views(r@) == seq![msg_view(m)],
{
    let mut out: Vec<LuaMessage> = Vec::new();
    out.push(m);
    proof {
        lemma_msg_views_index(out@);
        assert(msg_views(out@) =~= seq![msg_view(out@[0])]);
    }
    out
}

/// The alternating key/value flattening of a table's entries.
fn flattened_entries(t: &LuaTable) -> (r: Vec<LuaMessage>)
    ensures
        msg_views(r@) == spec_to_array(LuaMessage::Table(*t))->Some_0,
{
    let ghost goal = spec_to_array(LuaMessage::Table(*t))->Some_0;
    let mut out: Vec<LuaMessage> = Vec::new();
    let n = t.entries.len();
    let mut i: usize = 0;
    while i < n
        invariant
            n == t.entries@.len(),
            i <= n,
            out@.len() == 2 * i,
            goal == spec_to_array(LuaMessage::Table(*t))->Some_0,
            goal.len() == 2 * n,
            forall|k: int| 0 <= k < 2 * i ==> msg_view(#[trigger] out@[k]) == goal[k],
        decreases n - i,
    {
        let (k, m) = &t.entries[i];
        out.push(LuaMessage::String(k.clone()));
        out.push(clone_message(m));
        proof {
            assert(out@[2 * i as int]@ == goal[2 * i as int]);
            assert(out@[2 * i as int + 1]@ == goal[2 * i as int + 1]);
        }
        i += 1;
    }
    proof {
        lemma_msg_views_index(out@);
        assert(msg_views(out@) =~= goal);
    }
    out
}


/// The debug-style dump of one message, used when a structural value is
/// rendered as text: scalars render their natural text, strings are
/// quoted, and structural values list their contents.
pub open spec fn dump_text(m: LuaMessage) -> Seq<char>
    decreases m,
{
    match m {
        LuaMessage::String(s) => seq!['"'] + s@ + seq!['"'],
        LuaMessage::Integer(i) => crate::num::dec_str(i as int),
        LuaMessage::Number(b) => crate::num::f64_bits_text(b),
        LuaMessage::Boolean(b) => if b {
            "true"@
        } else {
            "false"@
        },
        LuaMessage::Nil => "nil"@,
        LuaMessage::Table(t) => "{"@ + entries_text(t.entries@) + "}"@,
        LuaMessage::Array(v) => "["@ + list_text(v@) + "]"@,
        LuaMessage::Variadic(v) => "("@ + list_text(v.items@) + ")"@,
    }
}

/// The dumped elements of a list, separated by commas.
pub open spec fn list_text(s: Seq<LuaMessage>) -> Seq<char>
    decreases s,
{
    if s.len() == 0 {
        Seq::empty()
    } else {
        dump_text(s[0]) + list_tail_text(s.subrange(1, s.len() as int))
    }
}

/// The dumped elements of a list's tail, each preceded by a comma.
pub open spec fn list_tail_text(s: Seq<LuaMessage>) -> Seq<char>
    decreases s,
{
    if s.len() == 0 {
        Seq::empty()
    } else {
        ", "@ + dump_text(s[0]) + list_tail_text(s.subrange(1, s.len() as int))
    }
}

/// The dumped entries of a table, `key: value`, separated by commas.
pub open spec fn entries_text(s: Seq<(String, LuaMessage)>) -> Seq<char>
    decreases s,
{
    if s.len() == 0 {
        Seq::empty()
    } else {
        s[0].0@ + ": "@ + dump_text(s[0].1) + entries_tail_text(s.subrange(1, s.len() as int))
    }
}

/// The dumped entries of a table's tail, each preceded by a comma.
pub open spec fn entries_tail_text(s: Seq<(String, LuaMessage)>) -> Seq<char>
    decreases s,
{
    if s.len() == 0 {
        Seq::empty()
    } else {
        ", "@ + s[0].0@ + ": "@ + dump_text(s[0].1) + entries_tail_text(
            s.subrange(1, s.len() as int),
        )
    }
}

/// Appending an element extends a tail dump by a comma and that element.
proof fn lemma_list_tail_push(s: Seq<LuaMessage>, x: LuaMessage)
    ensures
        list_tail_text(s + seq![x]) == list_tail_text(s) + ", "@ + dump_text(x),
    decreases s.len(),
{
    let whole = s + seq![x];
    if s.len() == 0 {
        assert(whole.subrange(1, whole.len() as int) =~= Seq::<LuaMessage>::empty());
        assert(whole[0] == x);
        assert(list_tail_text(whole.subrange(1, whole.len() as int)) == Seq::<char>::empty());
        assert(list_tail_text(whole) =~= list_tail_text(s) + ", "@ + dump_text(x));
    } else {
        let rest = s.subrange(1, s.len() as int);
        assert(whole.subrange(1, whole.len() as int) =~= rest + seq![x]);
        lemma_list_tail_push(rest, x);
        assert(whole[0] == s[0]);
        let a = ", "@ + dump_text(s[0]);
        assert(list_tail_text(whole) == a + list_tail_text(rest + seq![x]));
        assert(list_tail_text(s) == a + list_tail_text(rest));
        assert(a + (list_tail_text(rest) + ", "@ + dump_text(x)) =~= (a + list_tail_text(rest))
            + ", "@ + dump_text(x));
    }
}

/// Appending an element extends a list dump accordingly.
proof fn lemma_list_text_push(s: Seq<LuaMessage>, x: LuaMessage)
    ensures
        list_text(s + seq![x]) == if s.len() == 0 {
            dump_text(x)
        } else {
            list_text(s) + ", "@ + dump_text(x)
        },
{
    let whole = s + seq![x];
    if s.len() == 0 {
        assert(whole[0] == x);
        assert(whole.subrange(1, whole.len() as int) =~= Seq::<LuaMessage>::empty());
        assert(list_tail_text(whole.subrange(1, whole.len() as int)) == Seq::<char>::empty());
        assert(list_text(whole) =~= dump_text(x));
    } else {
        assert(whole[0] == s[0]);
        assert(whole.subrange(1, whole.len() as int) =~= s.subrange(1, s.len() as int)
            + seq![x]);
        lemma_list_tail_push(s.subrange(1, s.len() as int), x);
        assert(list_text(whole) =~= list_text(s) + ", "@ + dump_text(x));
    }
}

/// Appending an entry extends a tail dump by a comma and that entry.
proof fn lemma_entries_tail_push(s: Seq<(String, LuaMessage)>, x: (String, LuaMessage))
    ensures
        entries_tail_text(s + seq![x]) == entries_tail_text(s) + ", "@ + x.0@ + ": "@
            + dump_text(x.1),
    decreases s.len(),
{
    let whole = s + seq![x];
    if s.len() == 0 {
        assert(whole.subrange(1, whole.len() as int) =~= Seq::<(String, LuaMessage)>::empty());
        assert(whole[0] == x);
        assert(entries_tail_text(whole.subrange(1, whole.len() as int))
            == Seq::<char>::empty());
        assert(entries_tail_text(whole) =~= entries_tail_text(s) + ", "@ + x.0@ + ": "@
            + dump_text(x.1));
    } else {
        let rest = s.subrange(1, s.len() as int);
        assert(whole.subrange(1, whole.len() as int) =~= rest + seq![x]);
        lemma_entries_tail_push(rest, x);
        assert(whole[0] == s[0]);
        let a = ", "@ + s[0].0@ + ": "@ + dump_text(s[0].1);
        let b = ", "@ + x.0@ + ": "@ + dump_text(x.1);
        assert(entries_tail_text(whole) == a + entries_tail_text(rest + seq![x]));
        assert(entries_tail_text(s) == a + entries_tail_text(rest));
        assert(a + (entries_tail_text(rest) + b) =~= (a + entries_tail_text(rest)) + b);
        assert(entries_tail_text(rest) + b =~= entries_tail_text(rest) + ", "@ + x.0@ + ": "@
            + dump_text(x.1));
        assert(entries_tail_text(whole) =~= entries_tail_text(s) + ", "@ + x.0@ + ": "@
            + dump_text(x.1));
    }
}

/// Appending an entry extends an entries dump accordingly.
proof fn lemma_entries_text_push(s: Seq<(String, LuaMessage)>, x: (String, LuaMessage))
    ensures
        entries_text(s + seq![x]) == if s.len() == 0 {
            x.0@ + ": "@ + dump_text(x.1)
        } else {
            entries_text(s) + ", "@ + x.0@ + ": "@ + dump_text(x.1)
        },
{
    let whole = s + seq![x];
    if s.len() == 0 {
        assert(whole[0] == x);
        assert(whole.subrange(1, whole.len() as int) =~= Seq::<(String, LuaMessage)>::empty());
        assert(entries_tail_text(whole.subrange(1, whole.len() as int))
            == Seq::<char>::empty());
        assert(entries_text(whole) =~= x.0@ + ": "@ + dump_text(x.1));
    } else {
        assert(whole[0] == s[0]);
        assert(whole.subrange(1, whole.len() as int) =~= s.subrange(1, s.len() as int)
            + seq![x]);
        lemma_entries_tail_push(s.subrange(1, s.len() as int), x);
        assert(entries_text(whole) =~= entries_text(s) + ", "@ + x.0@ + ": "@
            + dump_text(x.1));
    }
}

/// The natural text of a message: scalars render their value, structural
/// values render a debug-style dump; `Nil` has none (see `to_text`).
pub open spec fn text_of(m: LuaMessage) -> Seq<char> {
    match m {
        LuaMessage::String(s) => s@,
        LuaMessage::Integer(i) => crate::num::dec_str(i as int),
        LuaMessage::Number(b) => crate::num::f64_bits_text(b),
        LuaMessage::Boolean(b) => if b {
            "true"@
        } else {
            "false"@
        },
        LuaMessage::Nil => Seq::empty(),
        _ => dump_text(m),
    }
}

impl LuaMessage {
    /// Coerces this message to text, as `text_of` says; only `Nil` has
    /// none.
    pub fn to_text(&self) -> (r: Option<String>)
        ensures
            match *self {
                LuaMessage::Nil => r is None,
                _ => r matches Some(s) && s@ == text_of(*self),
            },
    {
        match self {
            LuaMessage::String(s) => Some(s.clone()),
            LuaMessage::Integer(i) => Some(crate::num::int_text(*i)),
            LuaMessage::Number(b) => Some(crate::num::number_text(*b)),
            LuaMessage::Boolean(b) => Some(
                if *b {
                    String::from_str("true")
                } else {
                    String::from_str("false")
                },
            ),
            LuaMessage::Nil => None,
            _ => Some(dump_message(self)),
        }
    }
}

/// Renders the debug-style dump of a message.
fn dump_message(m: &LuaMessage) -> (r: String)
    ensures
        r@ == dump_text(*m),
    decreases m,
{
    match m {
        LuaMessage::String(s) => {
            let mut out = String::from_str("\"");
            out.append(s.as_str());
            out.append("\"");
            proof {
                assert(seq!['"'] =~= "\""@) by {
                    reveal_strlit("\"");
                }
                assert(out@ =~= seq!['"'] + s@ + seq!['"']);
            }
            out
        },
        LuaMessage::Integer(i) => crate::num::int_text(*i),
        LuaMessage::Number(b) => crate::num::number_text(*b),
        LuaMessage::Boolean(b) => if *b {
            String::from_str("true")
        } else {
            String::from_str("false")
        },
        LuaMessage::Nil => String::from_str("nil"),
        LuaMessage::Table(t) => {
            let mut out = String::from_str("{");
            let body = dump_entries(&t.entries);
            out.append(body.as_str());
            out.append("}");
            proof {
                assert(out@ =~= "{"@ + entries_text(t.entries@) + "}"@);
            }
            out
        },
        LuaMessage::Array(v) => {
            let mut out = String::from_str("[");
            let body = dump_list(v);
            out.append(body.as_str());
            out.append("]");
            proof {
                assert(out@ =~= "["@ + list_text(v@) + "]"@);
            }
            out
        },
        LuaMessage::Variadic(v) => {
            let mut out = String::from_str("(");
            let body = dump_list(&v.items);
            out.append(body.as_str());
            out.append(")");
            proof {
                assert(out@ =~= "("@ + list_text(v.items@) + ")"@);
            }
            out
        },
    }
}

/// Renders a list's elements, separated by commas.
fn dump_list(v: &Vec<LuaMessage>) -> (r: String)
    ensures
        r@ == list_text(v@),
    decreases v,
{
    let mut out = String::new();
    let n = v.len();
    let mut i: usize = 0;
    while i < n
        invariant
            n == v@.len(),
            i <= n,
            out@ == list_text(v@.subrange(0, i as int)),
        decreases n - i,
    {
        if i > 0 {
            out.append(", ");
        }
        let piece = dump_message(&v[i]);
        out.append(piece.as_str());
        proof {
            let pre = v@.subrange(0, i as int);
            assert(v@.subrange(0, i as int + 1) =~= pre + seq![v@[i as int]]);
            lemma_list_text_push(pre, v@[i as int]);
            if i == 0 {
                assert(out@ =~= list_text(v@.subrange(0, i as int + 1)));
            } else {
                assert(out@ =~= list_text(v@.subrange(0, i as int + 1)));
            }
        }
        i += 1;
    }
    proof {
        assert(v@.subrange(0, n as int) =~= v@);
    }
    out
}

/// Renders a table's entries, `key: value`, separated by commas.
fn dump_entries(v: &Vec<(String, LuaMessage)>) -> (r: String)
    ensures
        r@ == entries_text(v@),
    decreases v,
{
    let mut out = String::new();
    let n = v.len();
    let mut i: usize = 0;
    while i < n
        invariant
            n == v@.len(),
            i <= n,
            out@ == entries_text(v@.subrange(0, i as int)),
        decreases n - i,
    {
        if i > 0 {
            out.append(", ");
        }
        let (k, m) = &v[i];
        out.append(k.as_str());
        out.append(": ");
        let piece = dump_message(m);
        out.append(piece.as_str());
        proof {
            let pre = v@.subrange(0, i as int);
            assert(v@.subrange(0, i as int + 1) =~= pre + seq![v@[i as int]]);
            lemma_entries_text_push(pre, v@[i as int]);
            assert(out@ =~= entries_text(v@.subrange(0, i as int + 1)));
        }
        i += 1;
    }
    proof {
        assert(v@.subrange(0, n as int) =~= v@);
    }
    out
}


impl Clone for LuaMessage {
    /// A deep copy with the same view.
    fn clone(&self) -> (r: LuaMessage)
        ensures
            r@ == self@,
            r.wf() == self.wf(),
    {
        clone_message(self)
    }
}

impl Clone for LuaTable {
    /// A deep copy with the same view.
    fn clone(&self) -> (r: LuaTable)
        ensures
            r@ == self@,
            r.wf() == self.wf(),
    {
        clone_table(self)
    }
}

impl Clone for VariadicLuaMessage {
    /// A deep copy with the same view.
    fn clone(&self) -> (r: VariadicLuaMessage)
        ensures
            r@ == self@,
    {
        let c = clone_messages(&self.items);
        proof {
            lemma_msg_views_index(c@);
            lemma_msg_views_index(self.items@);
            assert(msg_views(c@) =~= msg_views(self.items@));
        }
        VariadicLuaMessage { items: c }
    }
}

impl Clone for MultiLuaMessage {
    /// A deep copy with the same flattened view.
    fn clone(&self) -> (r: MultiLuaMessage)
        ensures
            r.message@ == self.message@,
    {
        MultiLuaMessage { message: clone_message(&self.message) }
    }
}

} // verus!
