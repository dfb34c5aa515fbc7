//! The environment file: one `KEY=VALUE` per line, split at the first `=`,
//! both sides trimmed of surrounding whitespace; blank lines, lines whose
//! first non-whitespace byte is `#`, and lines without `=` are ignored;
//! later occurrences of a key overwrite earlier ones. The parser never
//! fails: the host hands it the file's bytes (or nothing at all for a
//! missing or unreadable file, which reads as an empty map).

use vstd::prelude::*;
use crate::text::{
    spec_find,
    spec_trim,
    lemma_find_props,
    find_byte,
    trim_bytes,
    subvec,
    bytes_eq,
};

verus! {

/// One `KEY=VALUE` pair.
pub struct EnvEntry {
    pub key: Vec<u8>,
    pub value: Vec<u8>,
}

/// No two entries share a key.
pub open spec fn entries_distinct(s: Seq<EnvEntry>) -> bool {
    forall|i: int, j: int| 0 <= i < j < s.len() ==> s[i].key@ != s[j].key@
}

/// The mapping a sequence of entries stands for; later entries win.
pub open spec fn map_of(s: Seq<EnvEntry>) -> Map<Seq<u8>, Seq<u8>>
    decreases s.len(),
{
    if s.len() == 0 {
        Map::empty()
    } else {
        map_of(s.drop_last()).insert(s.last().key@, s.last().value@)
    }
}

/// A key is in the mapping exactly when some entry holds it.
pub proof fn lemma_map_of_contains(s: Seq<EnvEntry>, k: Seq<u8>)
    ensures
        map_of(s).contains_key(k) <==> exists|i: int| 0 <= i < s.len() && s[i].key@ == k,
    decreases s.len(),
{
    if s.len() > 0 {
        lemma_map_of_contains(s.drop_last(), k);
        if s.last().key@ == k {
            assert(s[s.len() - 1].key@ == k);
        }
        if exists|i: int| 0 <= i < s.len() && s[i].key@ == k {
            let i = choose|i: int| 0 <= i < s.len() && s[i].key@ == k;
            if i < s.len() - 1 {
                assert(s.drop_last()[i].key@ == k);
            }
        }
    }
}

/// With distinct keys, every entry is visible in the mapping.
pub proof fn lemma_map_of_index(s: Seq<EnvEntry>, i: int)
    requires
        entries_distinct(s),
        0 <= i < s.len(),
    ensures
        map_of(s).contains_key(s[i].key@),
        map_of(s)[s[i].key@] == s[i].value@,
    decreases s.len(),
{
    if i < s.len() - 1 {
        assert(entries_distinct(s.drop_last())) by {
            assert(forall|p: int, q: int|
                0 <= p < q < s.drop_last().len() ==> s.drop_last()[p].key@ != s.drop_last()[q].key@);
        }
        lemma_map_of_index(s.drop_last(), i);
        assert(s.drop_last()[i] == s[i]);
        assert(s[i].key@ != s.last().key@);
    }
}

/// Replacing the entry that holds a key updates exactly that key.
proof fn lemma_map_of_update(s: Seq<EnvEntry>, i: int, e: EnvEntry)
    requires
        entries_distinct(s),
        0 <= i < s.len(),
        s[i].key@ == e.key@,
    ensures
        map_of(s.update(i, e)) == map_of(s).insert(e.key@, e.value@),
    decreases s.len(),
{
    let t = s.update(i, e);
    if i == s.len() - 1 {
        assert(t.drop_last() =~= s.drop_last());
        assert(t.last() == e);
        assert(map_of(s.drop_last()).insert(e.key@, e.value@) =~= map_of(s).insert(
            e.key@,
            e.value@,
        ));
    } else {
        assert(entries_distinct(s.drop_last())) by {
            assert(forall|p: int, q: int|
                0 <= p < q < s.drop_last().len() ==> s.drop_last()[p].key@ != s.drop_last()[q].key@);
        }
        lemma_map_of_update(s.drop_last(), i, e);
        assert(t.drop_last() =~= s.drop_last().update(i, e));
        assert(t.last() == s.last());
        assert(s[i].key@ != s.last().key@);
        assert(map_of(s.drop_last()).insert(e.key@, e.value@).insert(
            s.last().key@,
            s.last().value@,
        ) =~= map_of(s).insert(e.key@, e.value@));
    }
}

/// With distinct keys the mapping has exactly one key per entry.
pub proof fn lemma_map_of_len(s: Seq<EnvEntry>)
    requires
        entries_distinct(s),
    ensures
        map_of(s).dom().finite(),
        map_of(s).dom().len() == s.len(),
    decreases s.len(),
{
    if s.len() == 0 {
        assert(map_of(s).dom() =~= Set::<Seq<u8>>::empty());
    } else {
        assert(entries_distinct(s.drop_last())) by {
            assert(forall|p: int, q: int|
                0 <= p < q < s.drop_last().len() ==> s.drop_last()[p].key@ != s.drop_last()[q].key@);
        }
        lemma_map_of_len(s.drop_last());
        lemma_map_of_contains(s.drop_last(), s.last().key@);
        assert(forall|i: int|
            0 <= i < s.drop_last().len() ==> s.drop_last()[i].key@ != s.last().key@);
    }
}

/// Environment variable map: unique keys, last write wins, insertion order
/// irrelevant. Viewed as a `Map` from key bytes to value bytes.
pub struct EnvMap {
    entries: Vec<EnvEntry>,
}

impl View for EnvMap {
    type V = Map<Seq<u8>, Seq<u8>>;

    closed spec fn view(&self) -> Map<Seq<u8>, Seq<u8>> {
        map_of(self.entries@)
    }
}

impl EnvMap {
    /// The internal entry list holds each key once.
    pub closed spec fn wf(&self) -> bool {
        entries_distinct(self.entries@)
    }

    /// The empty map.
    pub fn new() -> (r: EnvMap)
        ensures
            r.wf(),
            r@ == Map::<Seq<u8>, Seq<u8>>::empty(),
    {
        EnvMap { entries: Vec::new() }
    }

    /// Bind `key` to `value`, overwriting any earlier binding.
    pub fn insert(&mut self, key: Vec<u8>, value: Vec<u8>)
        requires
            old(self).wf(),
        ensures
            final(self).wf(),
            final(self)@ == old(self)@.insert(key@, value@),
    {
        let n = self.entries.len();
        let mut i: usize = 0;
        while i < n
            invariant
                i <= n,
                n == self.entries@.len(),
                old(self).wf(),
                *self == *old(self),
                forall|j: int| 0 <= j < i ==> self.entries@[j].key@ != key@,
            decreases n - i,
        {
            if bytes_eq(&self.entries[i].key, &key) {
                let e = EnvEntry { key, value };
                let ghost s0 = self.entries@;
                proof {
                    lemma_map_of_update(s0, i as int, e);
                }
                self.entries[i] = e;
                proof {
                    assert(self.entries@ =~= s0.update(i as int, e));
                    assert forall|p: int, q: int|
                        0 <= p < q < self.entries@.len() implies self.entries@[p].key@
                        != self.entries@[q].key@ by {
                        assert(s0[p].key@ != s0[q].key@);
                        if p == i {
                            assert(self.entries@[q] == s0[q]);
                            assert(self.entries@[p].key@ == s0[p].key@);
                        } else if q == i {
                            assert(self.entries@[p] == s0[p]);
                            assert(self.entries@[q].key@ == s0[q].key@);
                        } else {
                            assert(self.entries@[p] == s0[p]);
                            assert(self.entries@[q] == s0[q]);
                        }
                    }
                }
                return ;
            }
            i = i + 1;
        }
        self.entries.push(EnvEntry { key, value });
        proof {
            assert(self.entries@.drop_last() =~= old(self).entries@);
        }
    }

    /// Look a key up.
    pub fn get(&self, key: &Vec<u8>) -> (r: Option<&Vec<u8>>)
        requires
            self.wf(),
        ensures
            match r {
                Some(v) => self@.contains_key(key@) && v@ == self@[key@],
                None => !self@.contains_key(key@),
            },
    {
        let n = self.entries.len();
        let mut i: usize = 0;
        while i < n
            invariant
                i <= n,
                n == self.entries@.len(),
                self.wf(),
                forall|j: int| 0 <= j < i ==> self.entries@[j].key@ != key@,
            decreases n - i,
        {
            if bytes_eq(&self.entries[i].key, key) {
                proof {
                    lemma_map_of_index(self.entries@, i as int);
                }
                return Some(&self.entries[i].value);
            }
            i = i + 1;
        }
        proof {
            lemma_map_of_contains(self.entries@, key@);
        }
        None
    }

    /// Number of keys.
    pub fn len(&self) -> (r: usize)
        requires
            self.wf(),
        ensures
            r == self@.dom().len(),
    {
        proof {
            lemma_map_of_len(self.entries@);
        }
        self.entries.len()
    }

    /// Hand the entries out, one per key, for the host to apply.
    pub fn into_entries(self) -> (r: Vec<EnvEntry>)
        requires
            self.wf(),
        ensures
            entries_distinct(r@),
            map_of(r@) == self@,
    {
        self.entries
    }

    /// Lay every binding of `over` on top of this map: on a key collision
    /// the binding of `over` wins.
    pub fn overlay(&mut self, over: &EnvMap)
        requires
            old(self).wf(),
            over.wf(),
        ensures
            final(self).wf(),
            final(self)@ == old(self)@.union_prefer_right(over@),
    {
        let n = over.entries.len();
        let mut i: usize = 0;
        while i < n
            invariant
                i <= n,
                n == over.entries@.len(),
                self.wf(),
                over.wf(),
                self@ == old(self)@.union_prefer_right(map_of(over.entries@.take(i as int))),
            decreases n - i,
        {
            proof {
                lemma_map_of_index(over.entries@, i as int);
                assert(over.entries@.take(i + 1).drop_last() =~= over.entries@.take(i as int));
                assert(over.entries@.take(i + 1).last() == over.entries@[i as int]);
                assert(old(self)@.union_prefer_right(map_of(over.entries@.take(i + 1)))
                    =~= old(self)@.union_prefer_right(map_of(over.entries@.take(i as int))).insert(
                    over.entries@[i as int].key@,
                    over.entries@[i as int].value@,
                ));
            }
            let e = &over.entries[i];
            let k = subvec(&e.key, 0, e.key.len());
            let v = subvec(&e.value, 0, e.value.len());
            proof {
                assert(k@ =~= e.key@);
                assert(v@ =~= e.value@);
            }
            self.insert(k, v);
            i = i + 1;
        }
        proof {
            assert(over.entries@.take(n as int) =~= over.entries@);
            assert(self@ =~= old(self)@.union_prefer_right(over@));
        }
    }
}

/// The lines of `s` from position `i` on, split at every line feed. The
/// split point is consumed; trimming later removes any carriage return a
/// `\r\n` file leaves at a line's end.
pub open spec fn lines_from(s: Seq<u8>, i: int) -> Seq<Seq<u8>>
    decreases s.len() - i,
        when 0 <= i <= s.len()
        via lines_from_decreases
{
    let j = spec_find(s, 10, i);
    if j >= s.len() {
        seq![s.subrange(i, s.len() as int)]
    } else {
        seq![s.subrange(i, j)] + lines_from(s, j + 1)
    }
}

#[via_fn]
proof fn lines_from_decreases(s: Seq<u8>, i: int) {
    lemma_find_props(s, 10, i);
}

/// What one line contributes: nothing for a blank line, a comment line
/// (first non-whitespace byte `#`) or a line without `=`; otherwise the
/// trimmed text on each side of the first `=`.
pub open spec fn line_entry(line: Seq<u8>) -> Option<(Seq<u8>, Seq<u8>)> {
    let t = spec_trim(line);
    if t.len() == 0 || t[0] == 35 {
        None
    } else {
        let e = spec_find(t, 61, 0);
        if e >= t.len() {
            None
        } else {
            Some((spec_trim(t.subrange(0, e)), spec_trim(t.subrange(e + 1, t.len() as int))))
        }
    }
}

/// A line that contributes a binding.
pub open spec fn is_data_line(l: Seq<u8>) -> bool {
    line_entry(l).is_some()
}

/// Key of a data line.
pub open spec fn line_key(l: Seq<u8>) -> Seq<u8> {
    line_entry(l).unwrap().0
}

/// Value of a data line.
pub open spec fn line_val(l: Seq<u8>) -> Seq<u8> {
    line_entry(l).unwrap().1
}

/// Fold one line into the map.
pub open spec fn apply_line(m: Map<Seq<u8>, Seq<u8>>, line: Seq<u8>) -> Map<Seq<u8>, Seq<u8>> {
    if is_data_line(line) {
        m.insert(line_key(line), line_val(line))
    } else {
        m
    }
}

/// The map a sequence of lines denotes; later lines win.
pub open spec fn env_of(lines: Seq<Seq<u8>>) -> Map<Seq<u8>, Seq<u8>>
    decreases lines.len(),
{
    if lines.len() == 0 {
        Map::empty()
    } else {
        apply_line(env_of(lines.drop_last()), lines.last())
    }
}

/// The map denoted by a whole environment file.
pub open spec fn spec_parse_env(content: Seq<u8>) -> Map<Seq<u8>, Seq<u8>> {
    env_of(lines_from(content, 0))
}

/// Parse one line.
fn parse_line(line: &Vec<u8>) -> (r: Option<EnvEntry>)
    ensures
        match r {
            Some(e) => line_entry(line@) == Some((e.key@, e.value@)),
            None => line_entry(line@).is_none(),
        },
{
    let t = trim_bytes(line);
    if t.len() == 0 {
        return None;
    }
    if t[0] == 35 {
        return None;
    }
    let e = find_byte(&t, 61, 0);
    proof {
        lemma_find_props(t@, 61, 0);
    }
    if e == t.len() {
        return None;
    }
    let key = trim_bytes(&subvec(&t, 0, e));
    let value = trim_bytes(&subvec(&t, e + 1, t.len()));
    Some(EnvEntry { key, value })
}

/// Parse a whole environment file, given as its bytes. Never fails; the
/// result is exactly [`spec_parse_env`] of the content.
pub fn parse_env_bytes(content: &Vec<u8>) -> (r: EnvMap)
    ensures
        r.wf(),
        r@ == spec_parse_env(content@),
{
    let n = content.len();
    let mut m = EnvMap::new();
    let mut i: usize = 0;
    let ghost mut done: Seq<Seq<u8>> = Seq::empty();
    loop
        invariant_except_break
            i <= n,
            n == content@.len(),
            m.wf(),
            m@ == env_of(done),
            lines_from(content@, 0) == done + lines_from(content@, i as int),
        ensures
            m.wf(),
            m@ == spec_parse_env(content@),
        decreases n - i,
    {
        let j = find_byte(content, 10, i);
        proof {
            lemma_find_props(content@, 10, i as int);
        }
        let line = subvec(content, i, j);
        match parse_line(&line) {
            Some(e) => {
                m.insert(e.key, e.value);
            },
            None => {},
        }
        proof {
            assert((done.push(line@)).drop_last() =~= done);
            assert((done.push(line@)).last() == line@);
            assert(m@ == env_of(done.push(line@)));
            if j < n {
                assert(lines_from(content@, i as int) == seq![line@] + lines_from(
                    content@,
                    j + 1,
                ));
                assert(done + lines_from(content@, i as int) =~= done.push(line@) + lines_from(
                    content@,
                    j + 1,
                ));
            } else {
                assert(lines_from(content@, i as int) =~= seq![line@]);
                assert(done + lines_from(content@, i as int) =~= done.push(line@));
            }
            done = done.push(line@);
        }
        if j == n {
            break ;
        }
        i = j + 1;
    }
    m
}

/// The keys a sequence of lines defines.
pub open spec fn line_keys(lines: Seq<Seq<u8>>) -> Set<Seq<u8>> {
    Set::new(
        |k: Seq<u8>|
            exists|i: int|
                0 <= i < lines.len() && #[trigger] is_data_line(lines[i]) && line_key(lines[i])
                    == k,
    )
}

/// Line `i` is the last one to define its key.
pub open spec fn last_occurrence(lines: Seq<Seq<u8>>, i: int) -> bool {
    &&& 0 <= i < lines.len()
    &&& is_data_line(lines[i])
    &&& forall|j: int|
        i < j < lines.len() && #[trigger] is_data_line(lines[j]) ==> line_key(lines[j])
            != line_key(lines[i])
}

/// The parsed map binds exactly the keys that some data line defines: for a
/// file consisting only of `KEY=VALUE` lines, one key per distinct `KEY`.
pub proof fn lemma_env_of_keys(lines: Seq<Seq<u8>>)
    ensures
        env_of(lines).dom() == line_keys(lines),
    decreases lines.len(),
{
    if lines.len() == 0 {
        assert(env_of(lines).dom() =~= line_keys(lines));
    } else {
        let rest = lines.drop_last();
        lemma_env_of_keys(rest);
        assert forall|k: Seq<u8>| line_keys(lines).contains(k) implies env_of(
            lines,
        ).dom().contains(k) by {
            let i = choose|i: int|
                0 <= i < lines.len() && #[trigger] is_data_line(lines[i]) && line_key(lines[i])
                    == k;
            if i < lines.len() - 1 {
                assert(rest[i] == lines[i]);
                assert(line_keys(rest).contains(k));
            }
        }
        assert forall|k: Seq<u8>| env_of(lines).dom().contains(k) implies line_keys(
            lines,
        ).contains(k) by {
            if !(is_data_line(lines.last()) && line_key(lines.last()) == k) {
                assert(line_keys(rest).contains(k));
                let i = choose|i: int|
                    0 <= i < rest.len() && #[trigger] is_data_line(rest[i]) && line_key(rest[i])
                        == k;
                assert(lines[i] == rest[i]);
                assert(is_data_line(lines[i]) && line_key(lines[i]) == k);
            } else {
                assert(is_data_line(lines[lines.len() - 1]) && line_key(lines[lines.len() - 1])
                    == k);
            }
        }
        assert(env_of(lines).dom() =~= line_keys(lines));
    }
}

/// Duplicate keys resolve to the last occurrence: the line that defines a
/// key last determines its value in the parsed map.
pub proof fn lemma_env_of_last_occurrence(lines: Seq<Seq<u8>>, i: int)
    requires
        last_occurrence(lines, i),
    ensures
        env_of(lines).contains_key(line_key(lines[i])),
        env_of(lines)[line_key(lines[i])] == line_val(lines[i]),
    decreases lines.len(),
{
    let rest = lines.drop_last();
    if i == lines.len() - 1 {
    } else {
        assert(rest[i] == lines[i]);
        assert(last_occurrence(rest, i)) by {
            assert(forall|j: int|
                i < j < rest.len() && #[trigger] is_data_line(rest[j]) ==> line_key(rest[j])
                    != line_key(rest[i]));
        }
        lemma_env_of_last_occurrence(rest, i);
        if is_data_line(lines.last()) {
            assert(line_key(lines.last()) != line_key(lines[i]));
        }
    }
}

/// The data lines of a file, in order.
pub open spec fn data_lines(lines: Seq<Seq<u8>>) -> Seq<Seq<u8>> {
    lines.filter(|l: Seq<u8>| is_data_line(l))
}

/// Blank lines, comment lines and lines without `=` are ignored: a file
/// parses to the same map as its data lines alone.
pub proof fn lemma_env_of_ignores_non_data(lines: Seq<Seq<u8>>)
    ensures
        env_of(data_lines(lines)) == env_of(lines),
    decreases lines.len(),
{
    reveal(Seq::filter);
    if lines.len() == 0 {
    } else {
        let rest = lines.drop_last();
        lemma_env_of_ignores_non_data(rest);
        if is_data_line(lines.last()) {
            assert(data_lines(lines) == data_lines(rest).push(lines.last()));
            assert((data_lines(rest).push(lines.last())).drop_last() =~= data_lines(rest));
            assert((data_lines(rest).push(lines.last())).last() == lines.last());
        } else {
            assert(data_lines(lines) == data_lines(rest));
        }
    }
}

} // verus!
