//! The W3C `tracestate` list: vendor key-value members with unique keys,
//! most recently updated first.

use vstd::prelude::*;

verus! {

/// The members of a trace state as text: `(key, value)` pairs, front first.
pub type Members = Seq<(Seq<char>, Seq<char>)>;

/// One `key=value` member of a trace state.
#[derive(Clone, Debug, PartialEq, Eq)]
pub struct KeyValue {
    pub key: String,
    pub value: String,
}

impl KeyValue {
    pub fn new(key: &str, value: &str) -> (r: KeyValue)
        ensures
            r.key@ == key@,
            r.value@ == value@,
    {
        KeyValue { key: String::from_str(key), value: String::from_str(value) }
    }
}

/// The text pairs held by a list of members.
pub open spec fn members_of(kvs: Seq<KeyValue>) -> Members {
    kvs.map_values(|kv: KeyValue| (kv.key@, kv.value@))
}

/// No key occurs twice.
pub open spec fn keys_unique<V>(m: Seq<(Seq<char>, V)>) -> bool {
    forall|i: int, j: int| 0 <= i < m.len() && 0 <= j < m.len() && i != j ==> m[i].0 != m[j].0
}

pub open spec fn has_key<V>(m: Seq<(Seq<char>, V)>, k: Seq<char>) -> bool {
    exists|i: int| 0 <= i < m.len() && m[i].0 == k
}

/// The members whose key is not `k`, in their order.
pub open spec fn without_key<V>(m: Seq<(Seq<char>, V)>, k: Seq<char>) -> Seq<(Seq<char>, V)>
    decreases m.len(),
{
    if m.len() == 0 {
        m
    } else if m.last().0 == k {
        without_key(m.drop_last(), k)
    } else {
        without_key(m.drop_last(), k).push(m.last())
    }
}

/// The value stored under `k`, if any member has that key.
pub open spec fn value_of<V>(m: Seq<(Seq<char>, V)>, k: Seq<char>) -> Option<V> {
    if has_key(m, k) {
        Some(m[choose|i: int| 0 <= i < m.len() && m[i].0 == k].1)
    } else {
        None
    }
}

/// The members built from `pairs` taken in order: a later pair with a key
/// already present replaces the earlier member, and stands at the position
/// of its own occurrence.
pub open spec fn from_pairs(pairs: Members) -> Members
    decreases pairs.len(),
{
    if pairs.len() == 0 {
        pairs
    } else {
        without_key(from_pairs(pairs.drop_last()), pairs.last().0).push(pairs.last())
    }
}

/// `key`, the entry delimiter, then `value`.
pub open spec fn render_member(e: (Seq<char>, Seq<char>), entry_delim: Seq<char>) -> Seq<char> {
    e.0 + entry_delim + e.1
}

/// The rendered members joined by the list delimiter, front first.
pub open spec fn render(m: Members, entry_delim: Seq<char>, list_delim: Seq<char>) -> Seq<char>
    decreases m.len(),
{
    if m.len() == 0 {
        Seq::empty()
    } else if m.len() == 1 {
        render_member(m[0], entry_delim)
    } else {
        render(m.drop_last(), entry_delim, list_delim) + list_delim + render_member(
            m.last(),
            entry_delim,
        )
    }
}

/// The pieces of `s` between commas; there is always at least one.
pub open spec fn split_commas(s: Seq<char>) -> Seq<Seq<char>>
    decreases s.len(),
{
    if s.len() == 0 {
        seq![Seq::empty()]
    } else {
        let p = split_commas(s.drop_last());
        if s.last() == ',' {
            p.push(Seq::empty())
        } else {
            p.update(p.len() - 1, p.last().push(s.last()))
        }
    }
}

/// The list members of a header: its comma-separated pieces, where an empty
/// piece after a final comma (or an empty header) does not count.
pub open spec fn list_members(s: Seq<char>) -> Seq<Seq<char>> {
    let p = split_commas(s);
    if p.last().len() == 0 {
        p.drop_last()
    } else {
        p
    }
}

/// `i` is the position of the first `=` in `m`.
pub open spec fn is_first_equals(m: Seq<char>, i: int) -> bool {
    &&& 0 <= i < m.len()
    &&& m[i] == '='
    &&& forall|j: int| 0 <= j < i ==> m[j] != '='
}

/// A member split at its first `=` into key and value; `None` when it has none.
pub open spec fn member_parts(m: Seq<char>) -> Option<(Seq<char>, Seq<char>)> {
    if exists|i: int| is_first_equals(m, i) {
        let i = choose|i: int| is_first_equals(m, i);
        Some((m.subrange(0, i), m.subrange(i + 1, m.len() as int)))
    } else {
        None
    }
}

/// The key-value pairs of all members, or `None` if any member lacks `=`.
pub open spec fn parse_members(ms: Seq<Seq<char>>) -> Option<Members> {
    if forall|j: int| 0 <= j < ms.len() ==> (#[trigger] member_parts(ms[j])) is Some {
        Some(ms.map_values(|m: Seq<char>| member_parts(m).unwrap()))
    } else {
        None
    }
}

/// The trace state that a `tracestate` header denotes, if it is well formed.
pub open spec fn parse_header(s: Seq<char>) -> Option<Members> {
    match parse_members(list_members(s)) {
        Some(pairs) => Some(from_pairs(pairs)),
        None => None,
    }
}

/// Removing a key yields a list without it, made of members of `m`,
/// and keeps keys unique.
pub proof fn lemma_without_key<V>(m: Seq<(Seq<char>, V)>, k: Seq<char>)
    ensures
        !has_key(without_key(m, k), k),
        forall|x| #[trigger] without_key(m, k).contains(x) ==> m.contains(x),
        keys_unique(m) ==> keys_unique(without_key(m, k)),
    decreases m.len(),
{
    if m.len() > 0 {
        let d = m.drop_last();
        let w = without_key(d, k);
        lemma_without_key(d, k);
        assert forall|x| #[trigger] d.contains(x) implies m.contains(x) by {
            let j = choose|j: int| 0 <= j < d.len() && d[j] == x;
            assert(m[j] == x);
        }
        if keys_unique(m) {
            assert(keys_unique(d)) by {
                assert forall|i: int, j: int|
                    0 <= i < d.len() && 0 <= j < d.len() && i != j implies d[i].0 != d[j].0 by {
                    assert(d[i] == m[i] && d[j] == m[j]);
                }
            }
        }
        if m.last().0 != k {
            let r = w.push(m.last());
            assert forall|x| #[trigger] r.contains(x) implies m.contains(x) by {
                let j = choose|j: int| 0 <= j < r.len() && r[j] == x;
                if j < w.len() {
                    assert(w[j] == x);
                    assert(w.contains(x));
                } else {
                    assert(m[m.len() - 1] == x);
                }
            }
            if keys_unique(m) {
                assert forall|i: int, j: int|
                    0 <= i < r.len() && 0 <= j < r.len() && i != j implies r[i].0 != r[j].0 by {
                    if i < w.len() && j < w.len() {
                        assert(r[i] == w[i] && r[j] == w[j]);
                    } else if i < w.len() {
                        assert(w.contains(w[i]));
                        let a = choose|a: int| 0 <= a < d.len() && d[a] == w[i];
                        assert(m[a] == r[i]);
                    } else {
                        assert(w.contains(w[j]));
                        let a = choose|a: int| 0 <= a < d.len() && d[a] == w[j];
                        assert(m[a] == r[j]);
                    }
                }
            }
            assert(!has_key(r, k)) by {
                if has_key(r, k) {
                    let i = choose|i: int| 0 <= i < r.len() && r[i].0 == k;
                    if i < w.len() {
                        assert(w[i] == r[i]);
                    }
                }
            }
        }
    }
}

/// Removing a key that no member has changes nothing.
pub proof fn lemma_without_absent_key<V>(m: Seq<(Seq<char>, V)>, k: Seq<char>)
    requires
        !has_key(m, k),
    ensures
        without_key(m, k) == m,
    decreases m.len(),
{
    if m.len() > 0 {
        let d = m.drop_last();
        assert(!has_key(d, k)) by {
            if has_key(d, k) {
                let i = choose|i: int| 0 <= i < d.len() && d[i].0 == k;
                assert(m[i] == d[i]);
            }
        }
        lemma_without_absent_key(d, k);
        assert(m.last().0 != k);
        assert(d.push(m.last()) =~= m);
    } else {
        assert(without_key(m, k) == m);
    }
}

/// With unique keys, removing a key removes exactly the member at its position.
pub proof fn lemma_without_key_at<V>(m: Seq<(Seq<char>, V)>, k: Seq<char>, pos: int)
    requires
        keys_unique(m),
        0 <= pos < m.len(),
        m[pos].0 == k,
    ensures
        without_key(m, k) == m.remove(pos),
    decreases m.len(),
{
    let d = m.drop_last();
    if pos == m.len() - 1 {
        assert(!has_key(d, k)) by {
            if has_key(d, k) {
                let i = choose|i: int| 0 <= i < d.len() && d[i].0 == k;
                assert(m[i] == d[i]);
            }
        }
        lemma_without_absent_key(d, k);
        assert(d =~= m.remove(pos));
    } else {
        assert(keys_unique(d)) by {
            assert forall|i: int, j: int|
                0 <= i < d.len() && 0 <= j < d.len() && i != j implies d[i].0 != d[j].0 by {
                assert(d[i] == m[i] && d[j] == m[j]);
            }
        }
        assert(d[pos] == m[pos]);
        lemma_without_key_at(d, k, pos);
        assert(m.last().0 != k);
        assert(d.remove(pos).push(m.last()) =~= m.remove(pos));
    }
}

/// With unique keys, the value under a key is the value of the member
/// that holds it.
pub proof fn lemma_value_of_at<V>(m: Seq<(Seq<char>, V)>, k: Seq<char>, pos: int)
    requires
        keys_unique(m),
        0 <= pos < m.len(),
        m[pos].0 == k,
    ensures
        value_of(m, k) == Some(m[pos].1),
{
    assert(has_key(m, k));
    let i = choose|i: int| 0 <= i < m.len() && m[i].0 == k;
    assert(i == pos);
}

/// Building a state from pairs with distinct keys keeps every pair, in the
/// order given, so the header lists them as `key=value` joined by `,`.
pub proof fn lemma_from_distinct_pairs(pairs: Members)
    requires
        keys_unique(pairs),
    ensures
        from_pairs(pairs) == pairs,
        render(from_pairs(pairs), seq!['='], seq![',']) == render(pairs, seq!['='], seq![',']),
    decreases pairs.len(),
{
    if pairs.len() > 0 {
        let d = pairs.drop_last();
        assert(keys_unique(d)) by {
            assert forall|i: int, j: int|
                0 <= i < d.len() && 0 <= j < d.len() && i != j implies d[i].0 != d[j].0 by {
                assert(d[i] == pairs[i] && d[j] == pairs[j]);
            }
        }
        lemma_from_distinct_pairs(d);
        assert(!has_key(d, pairs.last().0)) by {
            if has_key(d, pairs.last().0) {
                let i = choose|i: int| 0 <= i < d.len() && d[i].0 == pairs.last().0;
                assert(pairs[i] == d[i]);
            }
        }
        lemma_without_absent_key(d, pairs.last().0);
        assert(d.push(pairs.last()) =~= pairs);
    }
}

/// A non-empty rendering starts with the front member.
pub proof fn lemma_render_starts_with_front(m: Members, entry_delim: Seq<char>, list_delim: Seq<char>)
    requires
        m.len() > 0,
    ensures
        render_member(m[0], entry_delim).len() <= render(m, entry_delim, list_delim).len(),
        render(m, entry_delim, list_delim).subrange(
            0,
            render_member(m[0], entry_delim).len() as int,
        ) == render_member(m[0], entry_delim),
    decreases m.len(),
{
    let first = render_member(m[0], entry_delim);
    let r = render(m, entry_delim, list_delim);
    if m.len() == 1 {
        assert(r.subrange(0, first.len() as int) =~= first);
    } else {
        let d = m.drop_last();
        assert(d[0] == m[0]);
        lemma_render_starts_with_front(d, entry_delim, list_delim);
        let rd = render(d, entry_delim, list_delim);
        assert(r == rd + list_delim + render_member(m.last(), entry_delim));
        assert(r.subrange(0, first.len() as int) =~= rd.subrange(0, first.len() as int));
    }
}

/// Inserting puts the member first, makes `get` return the new value, and
/// makes the header start with `key=value`.
pub proof fn lemma_insert_front(m: Members, key: Seq<char>, value: Seq<char>)
    requires
        keys_unique(m),
    ensures
        ({
            let r = seq![(key, value)] + without_key(m, key);
            &&& keys_unique(r)
            &&& r[0] == (key, value)
            &&& value_of(r, key) == Some(value)
            &&& render(r, seq!['='], seq![',']).subrange(0, key.len() + 1 + value.len() as int)
                == key + seq!['='] + value
        }),
{
    let w = without_key(m, key);
    let r = seq![(key, value)] + w;
    lemma_without_key(m, key);
    assert forall|i: int, j: int| 0 <= i < r.len() && 0 <= j < r.len() && i != j implies r[i].0
        != r[j].0 by {
        if i > 0 && j > 0 {
            assert(r[i] == w[i - 1] && r[j] == w[j - 1]);
        } else if i > 0 {
            assert(r[i] == w[i - 1]);
        } else {
            assert(r[j] == w[j - 1]);
        }
    }
    lemma_value_of_at(r, key, 0);
    lemma_render_starts_with_front(r, seq!['='], seq![',']);
}

/// After deleting a key, `get` finds nothing under it; deleting a key that
/// is absent leaves the state equal to what it was.
pub proof fn lemma_delete(m: Members, key: Seq<char>)
    requires
        keys_unique(m),
    ensures
        value_of(without_key(m, key), key) is None,
        !has_key(m, key) ==> without_key(m, key) == m,
{
    lemma_without_key(m, key);
    if !has_key(m, key) {
        lemma_without_absent_key(m, key);
    }
}

/// The position of the member with key `key`, if there is one.
fn position_of(entries: &Vec<KeyValue>, key: &String) -> (r: Option<usize>)
    ensures
        match r {
            Some(p) => p < entries@.len() && members_of(entries@)[p as int].0 == key@,
            None => !has_key(members_of(entries@), key@),
        },
{
    let ghost m = members_of(entries@);
    let mut i: usize = 0;
    while i < entries.len()
        invariant
            i <= entries@.len(),
            m == members_of(entries@),
            forall|j: int| 0 <= j < i ==> m[j].0 != key@,
        decreases entries@.len() - i,
    {
        if entries[i].key == *key {
            return Some(i);
        }
        i = i + 1;
    }
    None
}

/// Takes the member with key `key` out of a list with unique keys.
fn remove_key(entries: &mut Vec<KeyValue>, key: &String)
    requires
        keys_unique(members_of(old(entries)@)),
    ensures
        members_of(final(entries)@) == without_key(members_of(old(entries)@), key@),
        keys_unique(members_of(final(entries)@)),
        !has_key(members_of(final(entries)@), key@),
{
    let ghost m = members_of(entries@);
    proof {
        lemma_without_key(m, key@);
    }
    match position_of(entries, key) {
        Some(p) => {
            entries.remove(p);
            proof {
                lemma_without_key_at(m, key@, p as int);
                assert(members_of(entries@) =~= m.remove(p as int));
            }
        },
        None => {
            proof {
                lemma_without_absent_key(m, key@);
            }
        },
    }
}

/// The member held by `s` between character positions `from` and `to`,
/// split at its first `=`.
fn member_at(s: &str, from: usize, to: usize) -> (r: Option<KeyValue>)
    requires
        from <= to <= s@.len(),
    ensures
        match r {
            Some(kv) => member_parts(s@.subrange(from as int, to as int)) == Some(
                (kv.key@, kv.value@),
            ),
            None => member_parts(s@.subrange(from as int, to as int)) is None,
        },
{
    let ghost m = s@.subrange(from as int, to as int);
    let mut j: usize = from;
    while j < to
        invariant
            from <= j <= to <= s@.len(),
            m == s@.subrange(from as int, to as int),
            forall|k: int| 0 <= k < j - from ==> m[k] != '=',
        decreases to - j,
    {
        if s.get_char(j) == '=' {
            let key = s.substring_char(from, j);
            let value = s.substring_char(j + 1, to);
            proof {
                let i = j - from;
                assert(is_first_equals(m, i));
                let c = choose|c: int| is_first_equals(m, c);
                assert(c == i) by {
                    if c < i {
                        assert(m[c] != '=');
                    } else if c > i {
                        assert(m[i] != '=');
                    }
                }
                assert(key@ =~= m.subrange(0, i));
                assert(value@ =~= m.subrange(i + 1, m.len() as int));
            }
            return Some(KeyValue { key: String::from_str(key), value: String::from_str(value) });
        }
        j = j + 1;
    }
    assert(!exists|i: int| is_first_equals(m, i));
    None
}

/// `piece` is the text of `s` between the two positions of `range`.
spec fn piece_in(s: Seq<char>, range: (usize, usize), piece: Seq<char>) -> bool {
    range.0 <= range.1 <= s.len() && piece == s.subrange(range.0 as int, range.1 as int)
}

spec fn ranges_match(s: Seq<char>, ranges: Seq<(usize, usize)>, pieces: Seq<Seq<char>>) -> bool {
    ranges.len() == pieces.len() && forall|j: int|
        0 <= j < pieces.len() ==> #[trigger] piece_in(s, ranges[j], pieces[j])
}

/// Vendor-specific trace configuration: an ordered list of key-value members
/// with unique keys, the most recently inserted or updated one first.
///
/// Values are immutable: `insert` and `delete` consume the state and return
/// the updated one.
#[derive(Debug)]
pub struct TraceState {
    entries: Vec<KeyValue>,
}

impl View for TraceState {
    type V = Members;

    closed spec fn view(&self) -> Members {
        members_of(self.entries@)
    }
}

impl TraceState {
    #[verifier::type_invariant]
    spec fn well_formed(self) -> bool {
        keys_unique(members_of(self.entries@))
    }

    /// Builds a state from members in order. A key that occurs again
    /// replaces the earlier member, and the last occurrence sets both the
    /// value and the position.
    pub fn from_key_value(trace_state: Vec<KeyValue>) -> (r: TraceState)
        ensures
            r@ == from_pairs(members_of(trace_state@)),
            keys_unique(r@),
    {
        let ghost input = members_of(trace_state@);
        let mut rest = trace_state;
        let mut entries: Vec<KeyValue> = Vec::new();
        let ghost mut taken: nat = 0;
        while rest.len() > 0
            invariant
                taken <= input.len(),
                members_of(rest@) == input.subrange(taken as int, input.len() as int),
                members_of(entries@) == from_pairs(input.subrange(0, taken as int)),
                keys_unique(members_of(entries@)),
            decreases rest@.len(),
        {
            let ghost old_rest = rest@;
            assert(members_of(old_rest).len() == old_rest.len());
            assert(members_of(old_rest)[0] == input[taken as int]);
            let kv = rest.remove(0);
            proof {
                assert(members_of(rest@) =~= members_of(old_rest).subrange(1, old_rest.len() as int));
                assert(members_of(rest@) =~= input.subrange(taken as int + 1, input.len() as int));
                assert((kv.key@, kv.value@) == input[taken as int]);
            }
            remove_key(&mut entries, &kv.key);
            let ghost before = entries@;
            entries.push(kv);
            proof {
                let next = input.subrange(0, taken as int + 1);
                assert(next.drop_last() =~= input.subrange(0, taken as int));
                assert(members_of(entries@) =~= members_of(before).push(next.last()));
                let e = members_of(entries@);
                assert forall|i: int, j: int|
                    0 <= i < e.len() && 0 <= j < e.len() && i != j implies e[i].0 != e[j].0 by {
                    if i < e.len() - 1 && j < e.len() - 1 {
                        assert(e[i] == members_of(before)[i] && e[j] == members_of(before)[j]);
                    } else if i < e.len() - 1 {
                        assert(e[i] == members_of(before)[i]);
                    } else {
                        assert(e[j] == members_of(before)[j]);
                    }
                }
                taken = taken + 1;
            }
        }
        assert(input.subrange(0, taken as int) =~= input);
        TraceState { entries }
    }

    /// Parses a `tracestate` header: comma-separated members, each split at
    /// its first `=` into key and value. A member without `=` fails the
    /// whole header. A final comma adds no member.
    pub fn parse(s: &str) -> (r: Result<TraceState, ()>)
        ensures
            match r {
                Ok(ts) => parse_header(s@) == Some(ts@) && keys_unique(ts@),
                Err(_) => parse_header(s@) is None,
            },
    {
        let n = s.unicode_len();
        let mut ranges: Vec<(usize, usize)> = Vec::new();
        let ghost mut done: Seq<Seq<char>> = Seq::empty();
        let mut start: usize = 0;
        let mut i: usize = 0;
        assert(s@.subrange(0, 0) =~= Seq::<char>::empty());
        assert(done.push(s@.subrange(0, 0)) =~= seq![Seq::<char>::empty()]);
        while i < n
            invariant
                n == s@.len(),
                start <= i <= n,
                split_commas(s@.subrange(0, i as int)) == done.push(
                    s@.subrange(start as int, i as int),
                ),
                ranges_match(s@, ranges@, done),
            decreases n - i,
        {
            let c = s.get_char(i);
            let ghost prefix = s@.subrange(0, i + 1);
            assert(prefix.drop_last() =~= s@.subrange(0, i as int));
            if c == ',' {
                let ghost old_ranges = ranges@;
                let ghost old_done = done;
                ranges.push((start, i));
                proof {
                    done = done.push(s@.subrange(start as int, i as int));
                    assert forall|j: int| 0 <= j < done.len() implies piece_in(
                        s@,
                        ranges@[j],
                        done[j],
                    ) by {
                        if j < old_done.len() {
                            assert(done[j] == old_done[j] && ranges@[j] == old_ranges[j]);
                            assert(piece_in(s@, old_ranges[j], old_done[j]));
                        }
                    }
                    assert(s@.subrange(i + 1, i + 1) =~= Seq::<char>::empty());
                }
                start = i + 1;
            } else {
                proof {
                    assert(s@.subrange(start as int, i + 1) =~= s@.subrange(
                        start as int,
                        i as int,
                    ).push(c));
                }
            }
            i = i + 1;
        }
        assert(s@.subrange(0, n as int) =~= s@);
        let ghost pieces = list_members(s@);
        if start < n {
            let ghost old_ranges = ranges@;
            ranges.push((start, n));
            proof {
                assert(pieces == done.push(s@.subrange(start as int, n as int)));
                assert forall|j: int| 0 <= j < pieces.len() implies piece_in(
                    s@,
                    ranges@[j],
                    pieces[j],
                ) by {
                    if j < done.len() {
                        assert(pieces[j] == done[j] && ranges@[j] == old_ranges[j]);
                        assert(piece_in(s@, old_ranges[j], done[j]));
                    }
                }
            }
        } else {
            proof {
                assert(pieces =~= done);
            }
        }
        assert(ranges_match(s@, ranges@, pieces));
        let mut pairs: Vec<KeyValue> = Vec::new();
        let mut k: usize = 0;
        while k < ranges.len()
            invariant
                n == s@.len(),
                pieces == list_members(s@),
                k <= ranges@.len(),
                ranges_match(s@, ranges@, pieces),
                members_of(pairs@) == pieces.subrange(0, k as int).map_values(
                    |m: Seq<char>| member_parts(m).unwrap(),
                ),
                forall|j: int| 0 <= j < k ==> (#[trigger] member_parts(pieces[j])) is Some,
            decreases ranges@.len() - k,
        {
            let (from, to) = ranges[k];
            assert(piece_in(s@, ranges@[k as int], pieces[k as int]));
            match member_at(s, from, to) {
                Some(kv) => {
                    let ghost before = pairs@;
                    pairs.push(kv);
                    proof {
                        assert(members_of(pairs@) =~= members_of(before).push((kv.key@, kv.value@)));
                        assert(members_of(pairs@) =~= pieces.subrange(0, k + 1).map_values(
                            |m: Seq<char>| member_parts(m).unwrap(),
                        ));
                    }
                },
                None => {
                    assert(member_parts(pieces[k as int]) is None);
                    return Err(());
                },
            }
            k = k + 1;
        }
        assert(pieces.subrange(0, k as int) =~= pieces);
        Ok(TraceState::from_key_value(pairs))
    }

    /// The value stored under `key`.
    pub fn get(&self, key: String) -> (r: Option<String>)
        ensures
            match r {
                Some(v) => value_of(self@, key@) == Some(v@),
                None => value_of(self@, key@) is None,
            },
            keys_unique(self@),
    {
        proof {
            use_type_invariant(self);
        }
        match position_of(&self.entries, &key) {
            Some(p) => {
                proof {
                    lemma_value_of_at(self@, key@, p as int);
                }
                Some(self.entries[p].value.clone())
            },
            None => None,
        }
    }

    /// Sets `key` to `value` and moves the member to the front, removing any
    /// earlier member with that key.
    pub fn insert(self, key: String, value: String) -> (r: TraceState)
        ensures
            r@ == seq![(key@, value@)] + without_key(self@, key@),
            keys_unique(r@),
    {
        proof {
            use_type_invariant(&self);
        }
        let mut entries = self.entries;
        remove_key(&mut entries, &key);
        let ghost before = entries@;
        entries.insert(0, KeyValue { key, value });
        proof {
            let b = members_of(before);
            let e = members_of(entries@);
            assert(e =~= seq![(key@, value@)] + b);
            assert forall|i: int, j: int|
                0 <= i < e.len() && 0 <= j < e.len() && i != j implies e[i].0 != e[j].0 by {
                if i > 0 && j > 0 {
                    assert(e[i] == b[i - 1] && e[j] == b[j - 1]);
                } else if i > 0 {
                    assert(e[i] == b[i - 1]);
                } else {
                    assert(e[j] == b[j - 1]);
                }
            }
        }
        TraceState { entries }
    }

    /// Removes the member with key `key`; a state without it is returned
    /// unchanged.
    pub fn delete(self, key: String) -> (r: TraceState)
        ensures
            r@ == without_key(self@, key@),
            keys_unique(r@),
    {
        proof {
            use_type_invariant(&self);
        }
        let mut entries = self.entries;
        remove_key(&mut entries, &key);
        TraceState { entries }
    }

    /// The `tracestate` header value: `key=value` members joined by `,`.
    pub fn header(&self) -> (r: String)
        ensures
            r@ == render(self@, seq!['='], seq![',']),
    {
        let entry = "=";
        let list = ",";
        proof {
            reveal_strlit("=");
            reveal_strlit(",");
        }
        assert(entry@ =~= seq!['=']);
        assert(list@ =~= seq![',']);
        self.header_delimited(entry, list)
    }

    /// The members rendered as key, `entry_delimiter`, value, joined by
    /// `list_delimiter`.
    pub fn header_delimited(&self, entry_delimiter: &str, list_delimiter: &str) -> (r: String)
        ensures
            r@ == render(self@, entry_delimiter@, list_delimiter@),
    {
        let ghost m = self@;
        let mut out = String::new();
        let mut i: usize = 0;
        while i < self.entries.len()
            invariant
                i <= self.entries@.len(),
                m == members_of(self.entries@),
                out@ == render(m.subrange(0, i as int), entry_delimiter@, list_delimiter@),
            decreases self.entries@.len() - i,
        {
            if i > 0 {
                out.append(list_delimiter);
            }
            out.append(self.entries[i].key.as_str());
            out.append(entry_delimiter);
            out.append(self.entries[i].value.as_str());
            proof {
                let next = m.subrange(0, i + 1);
                assert(next.drop_last() =~= m.subrange(0, i as int));
                assert(next.last() == m[i as int]);
                assert(out@ =~= render(next, entry_delimiter@, list_delimiter@));
            }
            i = i + 1;
        }
        assert(m.subrange(0, i as int) =~= m);
        out
    }

    /// An independent copy holding the same members.
    pub(crate) fn copied(&self) -> (r: TraceState)
        ensures
            r@ == self@,
            keys_unique(r@),
    {
        proof {
            use_type_invariant(self);
        }
        let mut entries: Vec<KeyValue> = Vec::new();
        let mut i: usize = 0;
        while i < self.entries.len()
            invariant
                i <= self.entries@.len(),
                members_of(entries@) == members_of(self.entries@).subrange(0, i as int),
                keys_unique(members_of(self.entries@)),
            decreases self.entries@.len() - i,
        {
            let kv = KeyValue { key: self.entries[i].key.clone(), value: self.entries[i].value.clone() };
            let ghost before = entries@;
            entries.push(kv);
            assert(members_of(entries@) =~= members_of(before).push(members_of(self.entries@)[i as int]));
            assert(members_of(entries@) =~= members_of(self.entries@).subrange(0, i + 1));
            i = i + 1;
        }
        assert(members_of(self.entries@).subrange(0, i as int) =~= members_of(self.entries@));
        TraceState { entries }
    }
}

impl PartialEq for TraceState {
    fn eq(&self, other: &TraceState) -> (r: bool) {
        let ghost a = self@;
        let ghost b = other@;
        if self.entries.len() != other.entries.len() {
            assert(a.len() != b.len());
            return false;
        }
        let mut i: usize = 0;
        while i < self.entries.len()
            invariant
                i <= self.entries@.len() == other.entries@.len(),
                a == members_of(self.entries@),
                b == members_of(other.entries@),
                forall|j: int| 0 <= j < i ==> a[j] == b[j],
            decreases self.entries@.len() - i,
        {
            if self.entries[i].key != other.entries[i].key || self.entries[i].value
                != other.entries[i].value {
                assert(a[i as int] != b[i as int]);
                return false;
            }
            i = i + 1;
        }
        assert(a =~= b);
        true
    }
}

impl vstd::std_specs::cmp::PartialEqSpecImpl for TraceState {
    open spec fn obeys_eq_spec() -> bool {
        true
    }

    open spec fn eq_spec(&self, other: &TraceState) -> bool {
        self@ == other@
    }
}

impl Eq for TraceState {

}

impl std::str::FromStr for TraceState {
    type Err = ();

    fn from_str(s: &str) -> (r: Result<TraceState, ()>)
        ensures
            match r {
                Ok(ts) => parse_header(s@) == Some(ts@),
                Err(_) => parse_header(s@) is None,
            },
    {
        TraceState::parse(s)
    }
}

impl Clone for TraceState {
    fn clone(&self) -> (r: TraceState)
        ensures
            r@ == self@,
            keys_unique(r@),
    {
        self.copied()
    }
}

impl Default for TraceState {
    fn default() -> (r: TraceState)
        ensures
            r@ == Seq::<(Seq<char>, Seq<char>)>::empty(),
    {
        let r = TraceState { entries: Vec::new() };
        assert(r@ =~= Seq::<(Seq<char>, Seq<char>)>::empty());
        r
    }
}

} // verus!
