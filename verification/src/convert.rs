use vstd::prelude::*;

use crate::error::ScriptError;
use crate::message::{
    assoc_update, clone_message, msg_view, msg_views, LuaMessage, LuaTable, MsgView,
};
use crate::num::{dec_str, f64_bits_text, int_text, number_text};

verus! {

broadcast use vstd::seq::axiom_seq_index_decreases, vstd::seq::axiom_seq_subrange_decreases;

/// What the conversion layer reads off one key of an incoming structural
/// value: an integer, a floating-point bit pattern, text, a boolean, or a
/// key of some kind that cannot name a mapping entry on the host side.
#[derive(Debug)]
pub enum KeyKind {
    Int(i64),
    Num(u64),
    Text(String),
    Bool(bool),
    Opaque,
}

pub open spec fn key_is_int(k: KeyKind, j: int) -> bool {
    match k {
        KeyKind::Int(x) => x as int == j,
        _ => false,
    }
}

/// The position of the first key equal to the integer `j`, if any.
pub open spec fn find_int_key(keys: Seq<KeyKind>, j: int) -> Option<int>
    decreases keys.len(),
{
    if keys.len() == 0 {
        None
    } else if key_is_int(keys[0], j) {
        Some(0int)
    } else {
        match find_int_key(keys.subrange(1, keys.len() as int), j) {
            Some(i) => Some(i + 1),
            None => None,
        }
    }
}

/// `find_int_key` returns the first matching position, and `None` exactly
/// when no key matches.
pub proof fn lemma_find_int_key(keys: Seq<KeyKind>, j: int)
    ensures
        match find_int_key(keys, j) {
            Some(i) => 0 <= i < keys.len() && key_is_int(keys[i], j) && forall|k: int|
                0 <= k < i ==> !key_is_int(#[trigger] keys[k], j),
            None => forall|k: int| 0 <= k < keys.len() ==> !key_is_int(#[trigger] keys[k], j),
        },
    decreases keys.len(),
{
    if keys.len() > 0 {
        let rest = keys.subrange(1, keys.len() as int);
        lemma_find_int_key(rest, j);
        if !key_is_int(keys[0], j) {
            match find_int_key(rest, j) {
                Some(fr) => {
                    assert(keys[fr + 1] == rest[fr]);
                    assert forall|k: int| 0 <= k < fr + 1
                        implies !key_is_int(#[trigger] keys[k], j) by {
                        if k > 0 {
                            assert(rest[k - 1] == keys[k]);
                            assert(!key_is_int(rest[k - 1], j));
                        }
                    }
                },
                None => {
                    assert forall|k: int| 0 <= k < keys.len()
                        implies !key_is_int(#[trigger] keys[k], j) by {
                        if k > 0 {
                            assert(rest[k - 1] == keys[k]);
                            assert(!key_is_int(rest[k - 1], j));
                        }
                    }
                },
            }
        }
    }
}

/// The classification rule for an incoming structural value: it is a
/// sequence exactly when it is non-empty and, for every position from 1 up
/// to the number of entries, some key equals that position — that is, when
/// the count of all entries equals the count of its contiguous
/// integer-indexed elements starting at 1.
pub open spec fn keys_form_sequence(keys: Seq<KeyKind>) -> bool {
    keys.len() > 0 && forall|j: int|
        1 <= j <= keys.len() ==> (#[trigger] find_int_key(keys, j)) is Some
}

/// The values of a sequence in index order: position `j` holds the value
/// stored under integer key `j + 1`.
pub open spec fn sequence_views(keys: Seq<KeyKind>, vals: Seq<MsgView>) -> Seq<MsgView> {
    Seq::new(keys.len(), |j: int| vals[find_int_key(keys, j + 1)->Some_0])
}

/// The host text for a key, or `None` for a key that has none.
pub open spec fn key_text(k: KeyKind) -> Option<Seq<char>> {
    match k {
        KeyKind::Int(i) => Some(dec_str(i as int)),
        KeyKind::Num(b) => Some(f64_bits_text(b)),
        KeyKind::Text(s) => Some(s@),
        KeyKind::Bool(_) => None,
        KeyKind::Opaque => None,
    }
}

/// The entry-list view of the table built by binding each key's text to its
/// value, left to right, later bindings replacing earlier ones; `None` when
/// some key has no text form.
pub open spec fn table_view_of(keys: Seq<KeyKind>, vals: Seq<MsgView>) -> Option<
    Seq<(Seq<char>, MsgView)>,
>
    decreases keys.len(),
{
    if keys.len() == 0 {
        Some(Seq::empty())
    } else {
        match table_view_of(keys.drop_last(), vals.drop_last()) {
            None => None,
            Some(acc) => match key_text(keys.last()) {
                None => None,
                Some(kt) => Some(assoc_update(acc, kt, vals.last())),
            },
        }
    }
}

/// Finds the first key equal to the integer `j`.
fn find_int_key_exec(keys: &Vec<KeyKind>, j: i64) -> (r: Option<usize>)
    ensures
        match r {
            Some(i) => find_int_key(keys@, j as int) == Some(i as int),
            None => find_int_key(keys@, j as int) is None,
        },
{
    proof {
        lemma_find_int_key(keys@, j as int);
    }
    let n = keys.len();
    let mut i: usize = 0;
    while i < n
        invariant
            n == keys@.len(),
            i <= n,
            forall|k: int| 0 <= k < i ==> !key_is_int(#[trigger] keys@[k], j as int),
        decreases n - i,
    {
        let hit = match &keys[i] {
            KeyKind::Int(x) => *x == j,
            _ => false,
        };
        if hit {
            proof {
                assert(key_is_int(keys@[i as int], j as int));
                lemma_find_int_key(keys@, j as int);
                match find_int_key(keys@, j as int) {
                    Some(f) => {
                        if f < i as int {
                            assert(!key_is_int(keys@[f], j as int));
                            assert(key_is_int(keys@[f], j as int));
                        } else if f > i as int {
                            assert(!key_is_int(keys@[i as int], j as int));
                        }
                    },
                    None => {
                        assert(!key_is_int(keys@[i as int], j as int));
                    },
                }
            }
            return Some(i);
        }
        i += 1;
    }
    proof {
        lemma_find_int_key(keys@, j as int);
    }
    None
}

/// The text for one key, or `None` for a boolean or opaque key.
fn key_text_exec(k: &KeyKind) -> (r: Option<String>)
    ensures
        match key_text(*k) {
            Some(t) => r matches Some(s) && s@ == t,
            None => r is None,
        },
{
    match k {
        KeyKind::Int(i) => Some(int_text(*i)),
        KeyKind::Num(b) => Some(number_text(*b)),
        KeyKind::Text(s) => Some(s.clone()),
        KeyKind::Bool(_) => None,
        KeyKind::Opaque => None,
    }
}

/// Classifies an incoming structural value from its keys and converted
/// element messages, and builds the corresponding host message: an `Array`
/// when the keys form a sequence, otherwise a `Table` keyed by each key's
/// text form.
pub fn build_structural(keys: &Vec<KeyKind>, vals: &Vec<LuaMessage>) -> (r: Result<
    LuaMessage,
    ScriptError,
>)
    requires
        keys@.len() == vals@.len(),
        forall|i: int| 0 <= i < vals@.len() ==> (#[trigger] vals@[i]).wf(),
        forall|i: int| 0 <= i < vals@.len() ==> !((#[trigger] vals@[i]) is Variadic),
    ensures
        keys_form_sequence(keys@) ==> (r matches Ok(m) && m@ == MsgView::Array(
            sequence_views(keys@, msg_views(vals@)),
        )),
        !keys_form_sequence(keys@) ==> match table_view_of(keys@, msg_views(vals@)) {
            Some(tv) => r matches Ok(m) && m@ == MsgView::Table(tv),
            None => r matches Err(e) && e is Conversion,
        },
        r matches Ok(m) ==> m.wf() && !(m is Variadic),
{
    proof {
        crate::message::lemma_msg_views_index(vals@);
    }
    let n = keys.len();
    if sequence_check(keys) {
        proof {
            if keys@.len() > i64::MAX as int {
                assert(find_int_key(keys@, i64::MAX as int + 1) is Some);
                lemma_find_int_key(keys@, i64::MAX as int + 1);
                let w = find_int_key(keys@, i64::MAX as int + 1)->Some_0;
                assert(key_is_int(keys@[w], i64::MAX as int + 1));
            }
        }
        let mut out: Vec<LuaMessage> = Vec::new();
        let mut j: usize = 0;
        while j < n
            invariant
                n == keys@.len(),
                n == vals@.len(),
                keys_form_sequence(keys@),
                n as u64 <= i64::MAX as u64,
                j <= n,
                out@.len() == j,
                msg_views(vals@).len() == n,
                forall|k: int| 0 <= k < n ==> msg_views(vals@)[k] == msg_view(vals@[k]),
                forall|i: int| 0 <= i < vals@.len() ==> (#[trigger] vals@[i]).wf(),
                forall|i: int| 0 <= i < vals@.len() ==> !((#[trigger] vals@[i]) is Variadic),
                forall|k: int| 0 <= k < j
                    ==> (#[trigger] out@[k])@ == sequence_views(keys@, msg_views(vals@))[k],
                forall|k: int| 0 <= k < j ==> (#[trigger] out@[k]).wf(),
            decreases n - j,
        {
            proof {
                assert(find_int_key(keys@, j + 1) is Some);
            }
            let idx = match find_int_key_exec(keys, (j as u64 + 1) as i64) {
                Some(i) => i,
                None => {
                    proof {
                        assert(false);
                    }
                    0
                },
            };
            proof {
                lemma_find_int_key(keys@, j as int + 1);
            }
            let item = clone_message(&vals[idx]);
            out.push(item);
            j += 1;
        }
        proof {
            crate::message::lemma_msg_views_index(out@);
            assert(msg_views(out@) =~= sequence_views(keys@, msg_views(vals@)));
        }
        Ok(LuaMessage::Array(out))
    } else {
        let mut t = LuaTable::new();
        proof {
            assert(keys@.subrange(0, 0) =~= Seq::<KeyKind>::empty());
            assert(msg_views(vals@).subrange(0, 0) =~= Seq::<MsgView>::empty());
            assert(t@ =~= Seq::<(Seq<char>, MsgView)>::empty());
        }
        let mut i: usize = 0;
        while i < n
            invariant
                n == keys@.len(),
                n == vals@.len(),
                !keys_form_sequence(keys@),
                i <= n,
                msg_views(vals@).len() == n,
                forall|k: int| 0 <= k < n ==> msg_views(vals@)[k] == msg_view(vals@[k]),
                forall|k: int| 0 <= k < vals@.len() ==> (#[trigger] vals@[k]).wf(),
                t.wf(),
                table_view_of(keys@.subrange(0, i as int), msg_views(vals@).subrange(0, i as int))
                    == Some(t@),
            decreases n - i,
        {
            let kt = match key_text_exec(&keys[i]) {
                Some(s) => s,
                None => {
                    proof {
                        lemma_table_view_prefix_none(keys@, msg_views(vals@), i as int);
                    }
                    return Err(ScriptError::Conversion(String::from_str(
                        "a key of this structural value has no host text form",
                    )));
                },
            };
            let item = clone_message(&vals[i]);
            t.insert(kt, item);
            proof {
                let ks = keys@.subrange(0, i as int + 1);
                let vs = msg_views(vals@).subrange(0, i as int + 1);
                assert(ks.drop_last() =~= keys@.subrange(0, i as int));
                assert(vs.drop_last() =~= msg_views(vals@).subrange(0, i as int));
                assert(ks.last() == keys@[i as int]);
                assert(vs.last() == msg_view(vals@[i as int]));
            }
            i += 1;
        }
        proof {
            assert(keys@.subrange(0, n as int) =~= keys@);
            assert(msg_views(vals@).subrange(0, n as int) =~= msg_views(vals@));
        }
        Ok(LuaMessage::Table(t))
    }
}

/// When every key up to `i` has a text form but key `i` has none, the whole
/// key list yields no table view.
proof fn lemma_table_view_prefix_none(keys: Seq<KeyKind>, vals: Seq<MsgView>, i: int)
    requires
        keys.len() == vals.len(),
        0 <= i < keys.len(),
        key_text(keys[i]) is None,
    ensures
        table_view_of(keys, vals) is None,
    decreases keys.len(),
{
    if keys.len() > 0 {
        if i == keys.len() - 1 {
            assert(keys.last() == keys[i]);
        } else {
            lemma_table_view_prefix_none(keys.drop_last(), vals.drop_last(), i);
        }
    }
}

/// Decides the classification rule.
fn sequence_check(keys: &Vec<KeyKind>) -> (r: bool)
    ensures
        r == keys_form_sequence(keys@),
{
    let n = keys.len();
    if n == 0 {
        return false;
    }
    if n as u64 > i64::MAX as u64 {
        proof {
            lemma_find_int_key(keys@, i64::MAX as int + 1);
            assert(find_int_key(keys@, i64::MAX as int + 1) is None) by {
                if find_int_key(keys@, i64::MAX as int + 1) is Some {
                    let w = find_int_key(keys@, i64::MAX as int + 1)->Some_0;
                    assert(key_is_int(keys@[w], i64::MAX as int + 1));
                }
            }
        }
        return false;
    }
    let mut j: usize = 0;
    while j < n
        invariant
            n == keys@.len(),
            n as u64 <= i64::MAX as u64,
            j <= n,
            forall|k: int| 1 <= k <= j ==> (#[trigger] find_int_key(keys@, k)) is Some,
        decreases n - j,
    {
        if find_int_key_exec(keys, (j as u64 + 1) as i64).is_none() {
            return false;
        }
        j += 1;
    }
    true
}


/// Whether every position from 1 up to `n` is present as an integer key.
pub open spec fn has_keys_upto(keys: Seq<KeyKind>, n: int) -> bool {
    forall|j: int| 1 <= j <= n ==> (#[trigger] find_int_key(keys, j)) is Some
}

/// The count of the contiguous integer-indexed elements starting at 1: the
/// largest `n`, at most the number of entries, with keys 1 through `n` all
/// present.
pub open spec fn sequence_prefix_count(keys: Seq<KeyKind>) -> int {
    sequence_prefix_count_upto(keys, keys.len() as int)
}

pub open spec fn sequence_prefix_count_upto(keys: Seq<KeyKind>, n: int) -> int
    decreases n,
{
    if n <= 0 {
        0
    } else if has_keys_upto(keys, n) {
        n
    } else {
        sequence_prefix_count_upto(keys, n - 1)
    }
}

proof fn lemma_sequence_prefix_count_bounds(keys: Seq<KeyKind>, n: int)
    requires
        0 <= n,
    ensures
        0 <= sequence_prefix_count_upto(keys, n) <= n,
        sequence_prefix_count_upto(keys, n) == n ==> (n == 0 || has_keys_upto(keys, n)),
    decreases n,
{
    if n > 0 && !has_keys_upto(keys, n) {
        lemma_sequence_prefix_count_bounds(keys, n - 1);
    }
}

/// The classification rule, as a law: a structural value classifies as a
/// sequence exactly when it has at least one entry and the count of all
/// its entries equals the count of its contiguous integer-indexed elements
/// starting at 1.
pub proof fn lemma_sequence_classification(keys: Seq<KeyKind>)
    ensures
        keys_form_sequence(keys) <==> (keys.len() > 0 && sequence_prefix_count(keys)
            == keys.len()),
{
    let n = keys.len() as int;
    lemma_sequence_prefix_count_bounds(keys, n);
    if keys_form_sequence(keys) {
        assert(has_keys_upto(keys, n));
        assert(sequence_prefix_count_upto(keys, n) == n);
    }
    if keys.len() > 0 && sequence_prefix_count(keys) == n {
        assert(has_keys_upto(keys, n));
    }
}


proof fn lemma_find_int_key_arith(keys: Seq<KeyKind>, off: int, j: int)
    requires
        forall|i: int| 0 <= i < keys.len() ==> key_is_int(#[trigger] keys[i], off + i),
        off <= j < off + keys.len(),
    ensures
        find_int_key(keys, j) == Some(j - off),
    decreases keys.len(),
{
    assert(key_is_int(keys[0], off));
    if j == off {
        assert(key_is_int(keys[0], j));
    } else {
        assert(!key_is_int(keys[0], j));
        let rest = keys.subrange(1, keys.len() as int);
        assert forall|i: int| 0 <= i < rest.len()
            implies key_is_int(#[trigger] rest[i], (off + 1) + i) by {
            assert(rest[i] == keys[i + 1]);
            assert(key_is_int(keys[i + 1], off + (i + 1)));
        }
        lemma_find_int_key_arith(rest, off + 1, j);
    }
}

/// A structural value whose keys are exactly the integers 1 through its
/// entry count, in entry order, classifies as a sequence, and reading it
/// back yields its values in that same order.
pub proof fn lemma_canonical_sequence_round_trip(keys: Seq<KeyKind>, vals: Seq<MsgView>)
    requires
        keys.len() == vals.len(),
        keys.len() > 0,
        forall|i: int| 0 <= i < keys.len() ==> key_is_int(#[trigger] keys[i], i + 1),
    ensures
        keys_form_sequence(keys),
        sequence_views(keys, vals) == vals,
{
    assert forall|j: int| 1 <= j <= keys.len()
        implies (#[trigger] find_int_key(keys, j)) is Some by {
        lemma_find_int_key_arith(keys, 1, j);
    }
    assert forall|j: int| 0 <= j < keys.len()
        implies sequence_views(keys, vals)[j] == vals[j] by {
        lemma_find_int_key_arith(keys, 1, j + 1);
    }
    assert(sequence_views(keys, vals) =~= vals);
}

} // verus!
