//! `key=value` configuration files such as `lumaway.env`: reading them into a map and
//! patching their lines.
use vstd::prelude::*;
use crate::sync_mode::{
    config_v1_updates, has_current_version, mode_name, static_update_views, v1_updates, SyncMode,
    CONFIG_VERSION_KEY, CURRENT_CONFIG_VERSION, SYNC_MODE_KEY,
};
use crate::text::{
    chars_of, eq_chars, find_char, is_ws, lemma_find_char, lemma_find_char_at, lemma_split_once_at,
    lemma_trim_end_after, lemma_trim_ends, lemma_trim_of_trim_end, lemma_trim_strip_cr, lines,
    lines_exec, push_chars, split_once, split_once_exec, string_of, strip_cr, trim, trim_chars,
    trim_end, trim_start, views,
};

verus! {

broadcast use vstd::string::group_string_axioms;

/// The map that a list of entries gives when later entries replace earlier ones.
pub open spec fn entries_map(entries: Seq<(Seq<char>, Seq<char>)>) -> Map<Seq<char>, Seq<char>>
    decreases entries.len(),
{
    if entries.len() == 0 {
        Map::empty()
    } else {
        entries_map(entries.drop_last()).insert(entries.last().0, entries.last().1)
    }
}

/// The character views of string pairs.
pub open spec fn pair_views(entries: Seq<(String, String)>) -> Seq<(Seq<char>, Seq<char>)> {
    entries.map_values(|e: (String, String)| (e.0@, e.1@))
}

/// Keys and values read from an env file; a later value of a key replaces an earlier one.
#[derive(Debug, Clone)]
pub struct EnvValues {
    entries: Vec<(String, String)>,
}

impl View for EnvValues {
    type V = Map<Seq<char>, Seq<char>>;

    closed spec fn view(&self) -> Map<Seq<char>, Seq<char>> {
        entries_map(pair_views(self.entries@))
    }
}

/// Entries after index `j` that do not carry `k` leave its lookup unchanged.
proof fn lemma_entries_map_suffix(entries: Seq<(Seq<char>, Seq<char>)>, j: int, k: Seq<char>)
    requires
        0 <= j <= entries.len(),
        forall|i: int| j <= i < entries.len() ==> entries[i].0 != k,
    ensures
        entries_map(entries).dom().contains(k) == entries_map(entries.take(j)).dom().contains(k),
        entries_map(entries).dom().contains(k) ==> entries_map(entries)[k] == entries_map(
            entries.take(j),
        )[k],
    decreases entries.len() - j,
{
    if j < entries.len() {
        let e = entries.drop_last();
        assert(e.take(j) =~= entries.take(j));
        lemma_entries_map_suffix(e, j, k);
    } else {
        assert(entries.take(j) =~= entries);
    }
}

impl EnvValues {
    /// No entries.
    pub fn new() -> (r: EnvValues)
        ensures
            r@ == Map::<Seq<char>, Seq<char>>::empty(),
    {
        EnvValues { entries: Vec::new() }
    }

    /// Sets `key` to `value` (`HashMap::insert`).
    pub fn insert(&mut self, key: String, value: String)
        ensures
            final(self)@ == old(self)@.insert(key@, value@),
    {
        let ghost k = key@;
        let ghost v = value@;
        self.entries.push((key, value));
        assert(pair_views(self.entries@).drop_last() =~= pair_views(old(self).entries@));
    }

    /// The value of `key` (`HashMap::get`).
    pub fn get(&self, key: &str) -> (r: Option<String>)
        ensures
            match r {
                Some(v) => self@.dom().contains(key@) && v@ == self@[key@],
                None => !self@.dom().contains(key@),
            },
    {
        let k = chars_of(key);
        let ghost pv = pair_views(self.entries@);
        let mut j = self.entries.len();
        while j > 0
            invariant
                j <= self.entries.len(),
                pv == pair_views(self.entries@),
                k@ == key@,
                forall|i: int| j <= i < pv.len() ==> pv[i].0 != key@,
            decreases j,
        {
            let ek = chars_of(self.entries[j - 1].0.as_str());
            if eq_chars(&ek, &k) {
                proof {
                    lemma_entries_map_suffix(pv, j as int, key@);
                    assert(pv.take(j as int).drop_last() =~= pv.take(j - 1));
                }
                return Some(self.entries[j - 1].1.clone());
            }
            j = j - 1;
        }
        proof {
            lemma_entries_map_suffix(pv, 0, key@);
            assert(pv.take(0) =~= Seq::<(Seq<char>, Seq<char>)>::empty());
        }
        None
    }

    /// The keys with their values, sorted by key.
    pub fn sorted_entries(&self) -> (r: Vec<(String, String)>)
        ensures
            crate::ordered::keys_ascending(pair_views(r@)),
            forall|i: int| 0 <= i < r@.len() ==> self@.dom().contains(#[trigger] r@[i].0@) && self@[r@[i].0@] == r@[i].1@,
            forall|k: Seq<char>| #[trigger] self@.dom().contains(k) ==> exists|i: int| 0 <= i < r@.len() && r@[i].0@ == k,
    {
        let r = crate::ordered::last_values_by_key(&self.entries);
        proof {
            let es = pair_views(self.entries@);
            let rv = pair_views(r@);
            assert forall|i: int| 0 <= i < r@.len() implies self@.dom().contains(#[trigger] r@[i].0@) && self@[r@[i].0@] == r@[i].1@ by {
                assert(rv[i] == (r@[i].0@, r@[i].1@));
                lemma_last_value(es, rv[i].0);
            }
            assert forall|k: Seq<char>| #[trigger] self@.dom().contains(k) implies exists|i: int| 0 <= i < r@.len() && r@[i].0@ == k by {
                lemma_last_value(es, k);
                let i = choose|i: int| 0 <= i < rv.len() && rv[i].0 == k;
                assert(rv[i] == (r@[i].0@, r@[i].1@));
            }
        }
        r
    }

    /// Whether `key` has a value.
    pub fn contains_key(&self, key: &str) -> (r: bool)
        ensures
            r == self@.dom().contains(key@),
    {
        self.get(key).is_some()
    }
}

/// The entry of one env-file line: none for blank and `#` lines and lines without `=`;
/// otherwise the trimmed text before the first `=` and the trimmed text after it.
pub open spec fn line_entry(line: Seq<char>) -> Option<(Seq<char>, Seq<char>)> {
    let t = trim(line);
    if t.len() == 0 || t[0] == '#' {
        None
    } else {
        match split_once(t, '=') {
            Some((k, v)) => Some((trim(k), trim(v))),
            None => None,
        }
    }
}

/// The entries of a sequence of lines, in order.
pub open spec fn line_entries(ls: Seq<Seq<char>>) -> Seq<(Seq<char>, Seq<char>)>
    decreases ls.len(),
{
    if ls.len() == 0 {
        Seq::empty()
    } else {
        let prev = line_entries(ls.drop_last());
        match line_entry(ls.last()) {
            Some(e) => prev.push(e),
            None => prev,
        }
    }
}

/// The keys and values of an env-file text, as `read_env_file` reads them.
pub open spec fn parsed_env(text: Seq<char>) -> Map<Seq<char>, Seq<char>> {
    entries_map(line_entries(lines(text)))
}

fn line_entry_exec(line: &[char]) -> (r: Option<(Vec<char>, Vec<char>)>)
    ensures
        match line_entry(line@) {
            Some((k, v)) => r matches Some((x, y)) && x@ == k && y@ == v,
            None => r is None,
        },
{
    let t = trim_chars(line);
    if t.len() == 0 || t[0] == '#' {
        return None;
    }
    match split_once_exec(&t, '=') {
        Some((k, v)) => Some((trim_chars(&k), trim_chars(&v))),
        None => None,
    }
}

/// Reads the keys and values of an env-file text (the parsing of `read_env_file`).
pub fn parse_env_text(text: &str) -> (r: EnvValues)
    ensures
        r@ == parsed_env(text@),
{
    let chars = chars_of(text);
    let ls = lines_exec(&chars);
    let mut values = EnvValues::new();
    let ghost lv = views(ls@);
    for i in 0..ls.len()
        invariant
            lv == views(ls@),
            lv == lines(text@),
            values@ == entries_map(line_entries(lv.take(i as int))),
    {
        let ghost before = values@;
        assert(lv.take(i + 1).drop_last() =~= lv.take(i as int));
        assert(lv.take(i + 1).last() == ls@[i as int]@);
        match line_entry_exec(&ls[i]) {
            Some((k, v)) => {
                let ghost prev = line_entries(lv.take(i as int));
                values.insert(string_of(&k), string_of(&v));
                assert(prev.push((k@, v@)).drop_last() =~= prev);
                assert(line_entries(lv.take(i + 1)) == prev.push((k@, v@)));
            },
            None => {},
        }
    }
    assert(lv.take(ls.len() as int) =~= lv);
    values
}

/// The key of an env-file line, as the lookup of `upsert_env_file` reads it.
pub open spec fn line_key(line: Seq<char>) -> Option<Seq<char>> {
    match line_entry(line) {
        Some((k, _)) => Some(k),
        None => None,
    }
}

/// Index of the first line whose key is `key`, or `ls.len()`.
pub open spec fn first_key_line(ls: Seq<Seq<char>>, key: Seq<char>) -> int
    decreases ls.len(),
{
    if ls.len() == 0 {
        0
    } else if line_key(ls[0]) == Some(key) {
        0
    } else {
        1 + first_key_line(ls.drop_first(), key)
    }
}

proof fn lemma_first_key_line(ls: Seq<Seq<char>>, key: Seq<char>)
    ensures
        0 <= first_key_line(ls, key) <= ls.len(),
        first_key_line(ls, key) < ls.len() ==> line_key(ls[first_key_line(ls, key)]) == Some(key),
        forall|i: int| 0 <= i < first_key_line(ls, key) ==> line_key(ls[i]) != Some(key),
    decreases ls.len(),
{
    if ls.len() > 0 && line_key(ls[0]) != Some(key) {
        lemma_first_key_line(ls.drop_first(), key);
        assert forall|i: int| 0 <= i < first_key_line(ls, key) implies line_key(ls[i]) != Some(
            key,
        ) by {
            if i > 0 {
                assert(ls[i] == ls.drop_first()[i - 1]);
            }
        }
    }
}

proof fn lemma_first_key_line_at(ls: Seq<Seq<char>>, key: Seq<char>, j: int)
    requires
        0 <= j <= ls.len(),
        j < ls.len() ==> line_key(ls[j]) == Some(key),
        forall|i: int| 0 <= i < j ==> line_key(ls[i]) != Some(key),
    ensures
        first_key_line(ls, key) == j,
    decreases ls.len(),
{
    if ls.len() > 0 && j > 0 {
        assert forall|i: int| 0 <= i < j - 1 implies line_key(ls.drop_first()[i]) != Some(key) by {
            assert(ls.drop_first()[i] == ls[i + 1]);
        }
        lemma_first_key_line_at(ls.drop_first(), key, j - 1);
    }
}

/// The line `key=value`.
pub open spec fn key_value_line(key: Seq<char>, value: Seq<char>) -> Seq<char> {
    key + seq!['='] + value
}

/// Sets `key` in the lines: the first line with that key is replaced, or a line is appended.
pub open spec fn upsert_line(ls: Seq<Seq<char>>, key: Seq<char>, value: Seq<char>) -> Seq<Seq<char>> {
    let i = first_key_line(ls, key);
    if 0 <= i < ls.len() {
        ls.update(i, key_value_line(key, value))
    } else {
        ls.push(key_value_line(key, value))
    }
}

/// All updates in order; an update whose trimmed key is empty is skipped.
pub open spec fn upsert_lines(ls: Seq<Seq<char>>, updates: Seq<(Seq<char>, Seq<char>)>) -> Seq<Seq<char>>
    decreases updates.len(),
{
    if updates.len() == 0 {
        ls
    } else {
        let prev = upsert_lines(ls, updates.drop_last());
        let k = trim(updates.last().0);
        if k.len() == 0 {
            prev
        } else {
            upsert_line(prev, k, updates.last().1)
        }
    }
}

/// Lines joined with `\n`, with a final `\n` unless there is no line.
pub open spec fn render_lines(ls: Seq<Seq<char>>) -> Seq<char>
    decreases ls.len(),
{
    if ls.len() == 0 {
        Seq::empty()
    } else {
        render_lines(ls.drop_last()) + ls.last() + seq!['\n']
    }
}

/// The text of an env file (`None` when there is no file) after the updates.
pub open spec fn upserted_env(text: Option<Seq<char>>, updates: Seq<(Seq<char>, Seq<char>)>) -> Seq<char> {
    let ls = match text {
        Some(t) => lines(t),
        None => Seq::empty(),
    };
    render_lines(upsert_lines(ls, updates))
}

/// The views of a list of updates.
pub open spec fn update_views(updates: Seq<(&str, &str)>) -> Seq<(Seq<char>, Seq<char>)> {
    updates.map_values(|u: (&str, &str)| (u.0@, u.1@))
}

fn line_key_exec(line: &[char]) -> (r: Option<Vec<char>>)
    ensures
        match line_key(line@) {
            Some(k) => r matches Some(x) && x@ == k,
            None => r is None,
        },
{
    match line_entry_exec(line) {
        Some((k, _)) => Some(k),
        None => None,
    }
}

fn upsert_line_exec(ls: &mut Vec<Vec<char>>, key: &[char], value: &[char])
    ensures
        views(final(ls)@) == upsert_line(views(old(ls)@), key@, value@),
{
    let ghost lv = views(ls@);
    let mut i: usize = 0;
    while i < ls.len()
        invariant
            lv == views(ls@),
            lv == views(old(ls)@),
            i <= ls.len(),
            forall|j: int| 0 <= j < i ==> line_key(lv[j]) != Some(key@),
        decreases ls.len() - i,
    {
        let lk = line_key_exec(&ls[i]);
        let found = match lk {
            Some(k) => eq_chars(&k, key),
            None => false,
        };
        assert(ls@[i as int]@ == lv[i as int]);
        assert(found ==> line_key(lv[i as int]) == Some(key@));
        assert(!found ==> line_key(lv[i as int]) != Some(key@));
        if found {
            proof {
                lemma_first_key_line_at(lv, key@, i as int);
            }
            let mut line: Vec<char> = Vec::new();
            line.extend_from_slice(key);
            line.push('=');
            line.extend_from_slice(value);
            assert(line@ =~= key_value_line(key@, value@));
            ls.set(i, line);
            assert(views(ls@) =~= lv.update(i as int, key_value_line(key@, value@)));
            return;
        }
        i = i + 1;
    }
    proof {
        lemma_first_key_line_at(lv, key@, i as int);
    }
    let mut line: Vec<char> = Vec::new();
    line.extend_from_slice(key);
    line.push('=');
    line.extend_from_slice(value);
    assert(line@ =~= key_value_line(key@, value@));
    ls.push(line);
    assert(views(ls@) =~= lv.push(key_value_line(key@, value@)));
}

/// The text of an env file after setting each key to its value, as `upsert_env_file`
/// writes it: comments and other lines are kept; `existing` is `None` when there is no file.
pub fn upsert_env_text(existing: Option<&str>, updates: &[(&str, &str)]) -> (r: String)
    ensures
        r@ == upserted_env(
            match existing {
                Some(t) => Some(t@),
                None => None,
            },
            update_views(updates@),
        ),
{
    let mut ls: Vec<Vec<char>> = match existing {
        Some(t) => {
            let c = chars_of(t);
            lines_exec(&c)
        },
        None => {
            let e: Vec<Vec<char>> = Vec::new();
            assert(views(e@) =~= Seq::<Seq<char>>::empty());
            e
        },
    };
    let ghost start = views(ls@);
    assert(start == match existing {
        Some(t) => lines(t@),
        None => Seq::<Seq<char>>::empty(),
    });
    let ghost uv = update_views(updates@);
    for u in 0..updates.len()
        invariant
            uv == update_views(updates@),
            views(ls@) == upsert_lines(start, uv.take(u as int)),
    {
        assert(uv.take(u + 1).drop_last() =~= uv.take(u as int));
        let (key, value) = updates[u];
        let kc = chars_of(key);
        let k = trim_chars(&kc);
        if k.len() > 0 {
            let v = chars_of(value);
            upsert_line_exec(&mut ls, &k, &v);
        }
    }
    assert(uv.take(updates.len() as int) =~= uv);
    let mut out = String::new();
    let ghost fl = views(ls@);
    for i in 0..ls.len()
        invariant
            fl == views(ls@),
            out@ == render_lines(fl.take(i as int)),
    {
        assert(fl.take(i + 1).drop_last() =~= fl.take(i as int));
        push_chars(&mut out, &ls[i]);
        crate::text::push_char(&mut out, '\n');
    }
    assert(fl.take(ls.len() as int) =~= fl);
    out
}

/// The text of an env file after the version-1 migration, or `None` when the file needs no
/// update (it records version 1 and a sync mode already).
pub fn migrate_lumaway_env_v1(text: &str) -> (r: Option<String>)
    ensures
        match r {
            None => v1_updates(parsed_env(text@)).len() == 0,
            Some(t) => v1_updates(parsed_env(text@)).len() > 0 && t@ == upserted_env(
                Some(text@),
                v1_updates(parsed_env(text@)),
            ),
        },
{
    let values = parse_env_text(text);
    let updates = config_v1_updates(&values);
    if updates.len() == 0 {
        return None;
    }
    let mut refs: Vec<(&str, &str)> = Vec::new();
    for i in 0..updates.len()
        invariant
            update_views(refs@) == static_update_views(updates@).take(i as int),
    {
        let k: &str = updates[i].0;
        let v: &str = updates[i].1.as_str();
        assert(v@ == updates@[i as int].1@);
        let ghost before = refs@;
        refs.push((k, v));
        assert(refs@ == before.push((k, v)));
        assert(update_views(refs@) =~= update_views(before).push((k@, v@)));
        assert(static_update_views(updates@).take(i + 1) =~= static_update_views(updates@).take(
            i as int,
        ).push((k@, v@)));
    }
    assert(static_update_views(updates@).take(updates.len() as int) =~= static_update_views(updates@));
    Some(upsert_env_text(Some(text), &refs))
}

/// A key that reads back from its own `key=value` line: not empty, no white space at either
/// end, no `=`, no line break, and not starting with `#`.
pub open spec fn plain_key(k: Seq<char>) -> bool {
    &&& k.len() > 0
    &&& !is_ws(k[0])
    &&& !is_ws(k.last())
    &&& k[0] != '#'
    &&& forall|i: int| 0 <= i < k.len() ==> k[i] != '=' && k[i] != '\n'
}

/// `s` holds no line break.
pub open spec fn single_line(s: Seq<char>) -> bool {
    forall|i: int| 0 <= i < s.len() ==> s[i] != '\n'
}

/// At most one of the lines carries key `k`.
pub open spec fn key_on_one_line_at_most(ls: Seq<Seq<char>>, k: Seq<char>) -> bool {
    forall|i: int, j: int|
        0 <= i < ls.len() && 0 <= j < ls.len() && line_key(ls[i]) == Some(k) && line_key(ls[j])
            == Some(k) ==> i == j
}

/// The line `k=v` reads back as key `k` with the trimmed value.
pub proof fn lemma_key_value_line_entry(k: Seq<char>, v: Seq<char>)
    requires
        plain_key(k),
    ensures
        line_entry(key_value_line(k, v)) == Some((k, trim(v))),
{
    let a = k + seq!['='];
    let line = key_value_line(k, v);
    assert(line =~= a + v);
    assert(a.last() == '=');
    assert(line[0] == k[0]);
    assert(trim_start(line) == line);
    lemma_trim_end_after(a, v);
    let t = a + trim_end(v);
    assert(trim(line) == t);
    assert(t =~= k + seq!['='] + trim_end(v));
    assert(t[0] == k[0]);
    lemma_split_once_at(k, '=', trim_end(v));
    lemma_trim_of_trim_end(v);
    assert(trim_start(k) == k);
    assert(trim_end(k) == k);
}

/// Every line of a text is free of line breaks.
pub proof fn lemma_lines_single(s: Seq<char>)
    ensures
        forall|i: int| 0 <= i < lines(s).len() ==> single_line(#[trigger] lines(s)[i]),
    decreases s.len(),
{
    if s.len() > 0 {
        let i = find_char(s, '\n');
        lemma_find_char(s, '\n');
        if 0 <= i < s.len() {
            let rest = s.subrange(i + 1, s.len() as int);
            lemma_lines_single(rest);
            let first = strip_cr(s.subrange(0, i));
            assert(single_line(first)) by {
                assert forall|j: int| 0 <= j < first.len() implies first[j] != '\n' by {
                    assert(first[j] == s[j]);
                }
            }
            assert forall|j: int| 0 <= j < lines(s).len() implies single_line(#[trigger] lines(s)[j]) by {
                if j > 0 {
                    assert(lines(s)[j] == lines(rest)[j - 1]);
                }
            }
        }
    }
}

/// The rendering of lines, first line first.
pub proof fn lemma_render_front(ls: Seq<Seq<char>>)
    requires
        ls.len() > 0,
    ensures
        render_lines(ls) == ls[0] + seq!['\n'] + render_lines(ls.drop_first()),
    decreases ls.len(),
{
    if ls.len() == 1 {
        assert(ls.drop_first().len() == 0);
        assert(ls.drop_last().len() == 0);
        assert(render_lines(ls.drop_last()) =~= Seq::<char>::empty());
        assert(render_lines(ls.drop_first()) =~= Seq::<char>::empty());
        assert(ls.last() == ls[0]);
        assert(render_lines(ls) =~= ls[0] + seq!['\n'] + render_lines(ls.drop_first()));
    } else {
        let d = ls.drop_last();
        lemma_render_front(d);
        assert(d.drop_first() =~= ls.drop_first().drop_last());
        assert(ls.drop_first().last() == ls.last());
        assert(render_lines(ls) =~= ls[0] + seq!['\n'] + render_lines(ls.drop_first()));
    }
}

/// Reading back rendered lines gives them again, each without one final carriage return.
pub proof fn lemma_lines_of_render(ls: Seq<Seq<char>>)
    requires
        forall|i: int| 0 <= i < ls.len() ==> single_line(#[trigger] ls[i]),
    ensures
        lines(render_lines(ls)) == ls.map_values(|l: Seq<char>| strip_cr(l)),
    decreases ls.len(),
{
    if ls.len() == 0 {
        assert(ls.map_values(|l: Seq<char>| strip_cr(l)) =~= Seq::<Seq<char>>::empty());
    } else {
        let rest = ls.drop_first();
        assert forall|i: int| 0 <= i < rest.len() implies single_line(#[trigger] rest[i]) by {
            assert(rest[i] == ls[i + 1]);
        }
        lemma_lines_of_render(rest);
        lemma_render_front(ls);
        let s = render_lines(ls);
        let first = ls[0];
        assert(single_line(ls[0]));
        assert forall|j: int| 0 <= j < first.len() implies s[j] != '\n' by {
            assert(s[j] == first[j]);
        }
        assert(s[first.len() as int] == '\n');
        lemma_find_char_at(s, '\n', first.len() as int);
        assert(s.subrange(0, first.len() as int) =~= first);
        assert(s.subrange(first.len() as int + 1, s.len() as int) =~= render_lines(rest));
        assert(lines(s) =~= ls.map_values(|l: Seq<char>| strip_cr(l)));
    }
}

/// A line reads the same without one final carriage return.
pub proof fn lemma_line_entry_strip_cr(l: Seq<char>)
    ensures
        line_entry(strip_cr(l)) == line_entry(l),
{
    lemma_trim_strip_cr(l);
}

/// The entries of lines do not change when each loses one final carriage return.
pub proof fn lemma_line_entries_strip_cr(ls: Seq<Seq<char>>)
    ensures
        line_entries(ls.map_values(|l: Seq<char>| strip_cr(l))) == line_entries(ls),
    decreases ls.len(),
{
    if ls.len() > 0 {
        let m = ls.map_values(|l: Seq<char>| strip_cr(l));
        assert(m.drop_last() =~= ls.drop_last().map_values(|l: Seq<char>| strip_cr(l)));
        lemma_line_entries_strip_cr(ls.drop_last());
        lemma_line_entry_strip_cr(ls.last());
    }
}

/// Reading a rendered text gives the entries of its lines.
pub proof fn lemma_parse_render(ls: Seq<Seq<char>>)
    requires
        forall|i: int| 0 <= i < ls.len() ==> single_line(#[trigger] ls[i]),
    ensures
        parsed_env(render_lines(ls)) == entries_map(line_entries(ls)),
{
    lemma_lines_of_render(ls);
    lemma_line_entries_strip_cr(ls);
}

/// The map of entries with one more entry.
pub proof fn lemma_entries_map_push(es: Seq<(Seq<char>, Seq<char>)>, e: (Seq<char>, Seq<char>))
    ensures
        entries_map(es.push(e)) == entries_map(es).insert(e.0, e.1),
{
    assert(es.push(e).drop_last() =~= es);
}

/// The entries of the first `j + 1` lines are those of the first `j` lines and that of line `j`.
pub proof fn lemma_line_entries_step(ls: Seq<Seq<char>>, j: int)
    requires
        0 <= j < ls.len(),
    ensures
        line_entries(ls.take(j + 1)) == match line_entry(ls[j]) {
            Some(e) => line_entries(ls.take(j)).push(e),
            None => line_entries(ls.take(j)),
        },
{
    assert(ls.take(j + 1).drop_last() =~= ls.take(j));
    assert(ls.take(j + 1).last() == ls[j]);
}

/// Setting a key reads back the new value: `k` maps to the trimmed `v`.
pub proof fn lemma_upsert_line_reads_back(ls: Seq<Seq<char>>, k: Seq<char>, v: Seq<char>)
    requires
        plain_key(k),
        key_on_one_line_at_most(ls, k),
    ensures
        entries_map(line_entries(upsert_line(ls, k, v))).dom().contains(k),
        entries_map(line_entries(upsert_line(ls, k, v)))[k] == trim(v),
{
    lemma_first_key_line(ls, k);
    lemma_key_value_line_entry(k, v);
    let i = first_key_line(ls, k);
    let kv = key_value_line(k, v);
    let out = upsert_line(ls, k, v);
    if i < ls.len() {
        lemma_line_entries_step(out, i);
        lemma_entries_map_push(line_entries(out.take(i)), (k, trim(v)));
        lemma_reads_back_from(ls, k, v, i, i + 1);
        assert(out.take(out.len() as int) =~= out);
    } else {
        assert(out.drop_last() =~= ls);
        lemma_entries_map_push(line_entries(ls), (k, trim(v)));
    }
}

/// The written line keeps its value through the later lines, which do not carry the key.
proof fn lemma_reads_back_from(ls: Seq<Seq<char>>, k: Seq<char>, v: Seq<char>, i: int, j: int)
    requires
        0 <= i < ls.len(),
        i + 1 <= j <= ls.len(),
        line_key(ls[i]) == Some(k),
        key_on_one_line_at_most(ls, k),
        entries_map(line_entries(ls.update(i, key_value_line(k, v)).take(j))).dom().contains(k),
        entries_map(line_entries(ls.update(i, key_value_line(k, v)).take(j)))[k] == trim(v),
    ensures
        entries_map(line_entries(ls.update(i, key_value_line(k, v)).take(ls.len() as int))).dom().contains(k),
        entries_map(line_entries(ls.update(i, key_value_line(k, v)).take(ls.len() as int)))[k] == trim(v),
    decreases ls.len() - j,
{
    if j < ls.len() {
        let out = ls.update(i, key_value_line(k, v));
        lemma_line_entries_step(out, j);
        assert(out[j] == ls[j]);
        assert(line_key(ls[j]) != Some(k));
        match line_entry(ls[j]) {
            Some(e) => {
                lemma_entries_map_push(line_entries(out.take(j)), e);
            },
            None => {},
        }
        lemma_reads_back_from(ls, k, v, i, j + 1);
    }
}

/// Setting key `k` leaves what every other key reads unchanged.
pub proof fn lemma_upsert_line_other_keys(ls: Seq<Seq<char>>, k: Seq<char>, v: Seq<char>, k2: Seq<char>)
    requires
        plain_key(k),
        k2 != k,
    ensures
        entries_map(line_entries(upsert_line(ls, k, v))).dom().contains(k2) == entries_map(
            line_entries(ls),
        ).dom().contains(k2),
        entries_map(line_entries(ls)).dom().contains(k2) ==> entries_map(
            line_entries(upsert_line(ls, k, v)),
        )[k2] == entries_map(line_entries(ls))[k2],
{
    lemma_first_key_line(ls, k);
    lemma_key_value_line_entry(k, v);
    let i = first_key_line(ls, k);
    let kv = key_value_line(k, v);
    let out = upsert_line(ls, k, v);
    if i < ls.len() {
        assert(out.take(0) =~= ls.take(0));
        lemma_other_keys_from(ls, k, v, k2, i, 0);
        assert(out.take(ls.len() as int) =~= out);
        assert(ls.take(ls.len() as int) =~= ls);
    } else {
        assert(out.drop_last() =~= ls);
        lemma_entries_map_push(line_entries(ls), (k, trim(v)));
    }
}

/// Replacing the entry of key `k` on line `i` keeps what `k2` reads, line after line.
proof fn lemma_other_keys_from(ls: Seq<Seq<char>>, k: Seq<char>, v: Seq<char>, k2: Seq<char>, i: int, j: int)
    requires
        0 <= i < ls.len(),
        0 <= j <= ls.len(),
        line_key(ls[i]) == Some(k),
        line_entry(key_value_line(k, v)) == Some((k, trim(v))),
        k2 != k,
        entries_map(line_entries(ls.update(i, key_value_line(k, v)).take(j))).dom().contains(k2)
            == entries_map(line_entries(ls.take(j))).dom().contains(k2),
        entries_map(line_entries(ls.take(j))).dom().contains(k2) ==> entries_map(
            line_entries(ls.update(i, key_value_line(k, v)).take(j)),
        )[k2] == entries_map(line_entries(ls.take(j)))[k2],
    ensures
        entries_map(line_entries(ls.update(i, key_value_line(k, v)).take(ls.len() as int))).dom().contains(k2)
            == entries_map(line_entries(ls.take(ls.len() as int))).dom().contains(k2),
        entries_map(line_entries(ls.take(ls.len() as int))).dom().contains(k2) ==> entries_map(
            line_entries(ls.update(i, key_value_line(k, v)).take(ls.len() as int)),
        )[k2] == entries_map(line_entries(ls.take(ls.len() as int)))[k2],
    decreases ls.len() - j,
{
    if j < ls.len() {
        let out = ls.update(i, key_value_line(k, v));
        lemma_line_entries_step(out, j);
        lemma_line_entries_step(ls, j);
        match line_entry(out[j]) {
            Some(e) => {
                lemma_entries_map_push(line_entries(out.take(j)), e);
            },
            None => {},
        }
        match line_entry(ls[j]) {
            Some(e) => {
                lemma_entries_map_push(line_entries(ls.take(j)), e);
            },
            None => {},
        }
        lemma_other_keys_from(ls, k, v, k2, i, j + 1);
    }
}

/// Key `k2` of the lines is on at most one line after setting another key `k`.
pub proof fn lemma_upsert_line_keeps_unique(ls: Seq<Seq<char>>, k: Seq<char>, v: Seq<char>, k2: Seq<char>)
    requires
        plain_key(k),
        k2 != k,
        key_on_one_line_at_most(ls, k2),
    ensures
        key_on_one_line_at_most(upsert_line(ls, k, v), k2),
{
    lemma_first_key_line(ls, k);
    lemma_key_value_line_entry(k, v);
    let out = upsert_line(ls, k, v);
    let i = first_key_line(ls, k);
    assert forall|a: int, b: int|
        0 <= a < out.len() && 0 <= b < out.len() && line_key(out[a]) == Some(k2) && line_key(out[b])
            == Some(k2) implies a == b by {
        if i < ls.len() {
            assert(a != i && b != i);
            assert(out[a] == ls[a] && out[b] == ls[b]);
        } else {
            assert(a < ls.len() && b < ls.len());
            assert(out[a] == ls[a] && out[b] == ls[b]);
        }
    }
}

/// Setting a key keeps every line that does not carry that key, in place.
pub proof fn law_upsert_keeps_other_lines(ls: Seq<Seq<char>>, k: Seq<char>, v: Seq<char>)
    ensures
        upsert_line(ls, k, v).len() >= ls.len(),
        forall|j: int|
            0 <= j < ls.len() && line_key(#[trigger] ls[j]) != Some(k) ==> upsert_line(ls, k, v)[j]
                == ls[j],
{
    lemma_first_key_line(ls, k);
}

/// The lines stay single after setting a single-line key to a single-line value.
pub proof fn lemma_upsert_line_single(ls: Seq<Seq<char>>, k: Seq<char>, v: Seq<char>)
    requires
        forall|i: int| 0 <= i < ls.len() ==> single_line(#[trigger] ls[i]),
        single_line(k),
        single_line(v),
    ensures
        forall|i: int| 0 <= i < upsert_line(ls, k, v).len() ==> single_line(#[trigger] upsert_line(ls, k, v)[i]),
{
    lemma_first_key_line(ls, k);
    let kv = key_value_line(k, v);
    assert(single_line(kv)) by {
        assert forall|j: int| 0 <= j < kv.len() implies kv[j] != '\n' by {
            if j < k.len() {
                assert(kv[j] == k[j]);
            } else if j > k.len() {
                assert(kv[j] == v[j - k.len() - 1]);
            }
        }
    }
}

/// The lines of an env text, or none when there is no file.
pub open spec fn text_lines(text: Option<Seq<char>>) -> Seq<Seq<char>> {
    match text {
        Some(t) => lines(t),
        None => Seq::empty(),
    }
}

/// What an env text reads as; no file reads as no entry.
pub open spec fn parsed_text(text: Option<Seq<char>>) -> Map<Seq<char>, Seq<char>> {
    entries_map(line_entries(text_lines(text)))
}

/// Writing a key and reading the file back gives the written value, trimmed, and leaves
/// every other key as it was. `key` is trimmed before it is written; the trimmed key must be
/// a plain key, the value a single line, and the file must carry the key on one line at most
/// (otherwise a later line with the key would still win when reading).
pub proof fn law_upsert_then_read(text: Option<Seq<char>>, key: Seq<char>, value: Seq<char>, other: Seq<char>)
    requires
        plain_key(trim(key)),
        single_line(value),
        key_on_one_line_at_most(text_lines(text), trim(key)),
    ensures
        parsed_env(upserted_env(text, seq![(key, value)])).dom().contains(trim(key)),
        parsed_env(upserted_env(text, seq![(key, value)]))[trim(key)] == trim(value),
        other != trim(key) ==> (parsed_env(upserted_env(text, seq![(key, value)])).dom().contains(
            other,
        ) == parsed_text(text).dom().contains(other)),
        other != trim(key) && parsed_text(text).dom().contains(other) ==> parsed_env(
            upserted_env(text, seq![(key, value)]),
        )[other] == parsed_text(text)[other],
{
    let k = trim(key);
    let l0 = text_lines(text);
    let u = seq![(key, value)];
    assert(u.drop_last() =~= Seq::<(Seq<char>, Seq<char>)>::empty());
    assert(upsert_lines(l0, u.drop_last()) == l0);
    assert(u.last() == (key, value));
    assert(upsert_lines(l0, u) == upsert_line(l0, k, value));
    match text {
        Some(t) => lemma_lines_single(t),
        None => {},
    }
    assert forall|i: int| 0 <= i < l0.len() implies single_line(#[trigger] l0[i]) by {
        match text {
            Some(t) => {
                assert(single_line(lines(t)[i]));
            },
            None => {},
        }
    }
    lemma_upsert_line_single(l0, k, value);
    lemma_parse_render(upsert_line(l0, k, value));
    lemma_upsert_line_reads_back(l0, k, value);
    if other != k {
        lemma_upsert_line_other_keys(l0, k, value, other);
    }
}

/// Key `k` is on at most one line after setting it.
proof fn lemma_upsert_line_self_unique(ls: Seq<Seq<char>>, k: Seq<char>, v: Seq<char>)
    requires
        plain_key(k),
        key_on_one_line_at_most(ls, k),
    ensures
        key_on_one_line_at_most(upsert_line(ls, k, v), k),
{
    lemma_first_key_line(ls, k);
    lemma_key_value_line_entry(k, v);
    let out = upsert_line(ls, k, v);
    let i = first_key_line(ls, k);
    assert forall|a: int, b: int|
        0 <= a < out.len() && 0 <= b < out.len() && line_key(out[a]) == Some(k) && line_key(out[b])
            == Some(k) implies a == b by {
        if i < ls.len() {
            if a != i {
                assert(out[a] == ls[a]);
            }
            if b != i {
                assert(out[b] == ls[b]);
            }
        } else {
            if a < ls.len() {
                assert(out[a] == ls[a]);
            }
            if b < ls.len() {
                assert(out[b] == ls[b]);
            }
        }
    }
}

/// What the entries read after setting one key: the old map with the key set.
proof fn lemma_upsert_line_map(ls: Seq<Seq<char>>, k: Seq<char>, v: Seq<char>)
    requires
        plain_key(k),
        key_on_one_line_at_most(ls, k),
    ensures
        entries_map(line_entries(upsert_line(ls, k, v))) == entries_map(line_entries(ls)).insert(k, trim(v)),
{
    let m1 = entries_map(line_entries(upsert_line(ls, k, v)));
    let m0 = entries_map(line_entries(ls)).insert(k, trim(v));
    lemma_upsert_line_reads_back(ls, k, v);
    assert forall|k2: Seq<char>| #[trigger] m1.dom().contains(k2) == m0.dom().contains(k2) by {
        if k2 != k {
            lemma_upsert_line_other_keys(ls, k, v, k2);
        }
    }
    assert forall|k2: Seq<char>| m1.dom().contains(k2) implies #[trigger] m1[k2] == m0[k2] by {
        if k2 != k {
            lemma_upsert_line_other_keys(ls, k, v, k2);
        }
    }
    assert(m1 =~= m0);
}

/// The map after the updates in order: each update with a non-blank key sets the trimmed key
/// to the trimmed value, a later update of a key winning.
pub open spec fn updated_map(m: Map<Seq<char>, Seq<char>>, updates: Seq<(Seq<char>, Seq<char>)>) -> Map<Seq<char>, Seq<char>>
    decreases updates.len(),
{
    if updates.len() == 0 {
        m
    } else {
        let p = updated_map(m, updates.drop_last());
        let k = trim(updates.last().0);
        if k.len() == 0 {
            p
        } else {
            p.insert(k, trim(updates.last().1))
        }
    }
}

/// Updates that can be written and read back: each trimmed key is blank (skipped) or a plain
/// key, and each value is a single line.
pub open spec fn writable_updates(updates: Seq<(Seq<char>, Seq<char>)>) -> bool {
    forall|i: int|
        0 <= i < updates.len() ==> (trim(#[trigger] updates[i].0).len() == 0 || plain_key(trim(updates[i].0)))
            && single_line(updates[i].1)
}

/// Some update sets key `k`.
pub open spec fn updates_key(updates: Seq<(Seq<char>, Seq<char>)>, k: Seq<char>) -> bool {
    exists|i: int| 0 <= i < updates.len() && k.len() > 0 && trim(#[trigger] updates[i].0) == k
}

/// The updates at the level of lines: every line stays single, no key gets a second line,
/// the entries are the old ones with the updates applied, and every line that carries no
/// updated key keeps its place.
proof fn lemma_upsert_lines(ls: Seq<Seq<char>>, updates: Seq<(Seq<char>, Seq<char>)>)
    requires
        forall|i: int| 0 <= i < ls.len() ==> single_line(#[trigger] ls[i]),
        writable_updates(updates),
    ensures
        forall|i: int|
            0 <= i < upsert_lines(ls, updates).len() ==> single_line(#[trigger] upsert_lines(ls, updates)[i]),
        forall|k2: Seq<char>|
            key_on_one_line_at_most(ls, k2) ==> #[trigger] key_on_one_line_at_most(upsert_lines(ls, updates), k2),
        (forall|i: int| 0 <= i < updates.len() ==> key_on_one_line_at_most(ls, trim(#[trigger] updates[i].0)))
            ==> entries_map(line_entries(upsert_lines(ls, updates))) == updated_map(
            entries_map(line_entries(ls)),
            updates,
        ),
        upsert_lines(ls, updates).len() >= ls.len(),
        forall|j: int|
            0 <= j < ls.len() && !(exists|k: Seq<char>| line_key(ls[j]) == Some(k) && updates_key(updates, k))
                ==> #[trigger] upsert_lines(ls, updates)[j] == ls[j],
    decreases updates.len(),
{
    if updates.len() > 0 {
        let pre = updates.drop_last();
        assert(writable_updates(pre)) by {
            assert forall|i: int| 0 <= i < pre.len() implies (trim(#[trigger] pre[i].0).len() == 0 || plain_key(
                trim(pre[i].0),
            )) && single_line(pre[i].1) by {
                assert(pre[i] == updates[i]);
            }
        }
        lemma_upsert_lines(ls, pre);
        let prev = upsert_lines(ls, pre);
        let last = updates.last();
        assert(last == updates[updates.len() - 1]);
        let k = trim(last.0);
        let v = last.1;
        if k.len() > 0 {
            lemma_key_value_line_entry(k, v);
            assert(single_line(k)) by {
                assert forall|i: int| 0 <= i < k.len() implies k[i] != '\n' by {}
            }
            lemma_upsert_line_single(prev, k, v);
            assert forall|k2: Seq<char>| key_on_one_line_at_most(ls, k2) implies #[trigger] key_on_one_line_at_most(
                upsert_lines(ls, updates),
                k2,
            ) by {
                assert(key_on_one_line_at_most(prev, k2));
                if k2 == k {
                    lemma_upsert_line_self_unique(prev, k, v);
                } else {
                    lemma_upsert_line_keeps_unique(prev, k, v, k2);
                }
            }
            if forall|i: int| 0 <= i < updates.len() ==> key_on_one_line_at_most(ls, trim(#[trigger] updates[i].0)) {
                assert forall|i: int| 0 <= i < pre.len() implies key_on_one_line_at_most(ls, trim(#[trigger] pre[i].0)) by {
                    assert(pre[i] == updates[i]);
                }
                assert(key_on_one_line_at_most(ls, trim(updates[updates.len() - 1].0)));
                assert(key_on_one_line_at_most(prev, k));
                lemma_upsert_line_map(prev, k, v);
            }
            law_upsert_keeps_other_lines(prev, k, v);
            assert forall|j: int|
                0 <= j < ls.len() && !(exists|k3: Seq<char>| line_key(ls[j]) == Some(k3) && updates_key(updates, k3))
                    implies #[trigger] upsert_lines(ls, updates)[j] == ls[j] by {
                if exists|k3: Seq<char>| line_key(ls[j]) == Some(k3) && updates_key(pre, k3) {
                    let k3 = choose|k3: Seq<char>| line_key(ls[j]) == Some(k3) && updates_key(pre, k3);
                    let i = choose|i: int| 0 <= i < pre.len() && k3.len() > 0 && trim(#[trigger] pre[i].0) == k3;
                    assert(pre[i] == updates[i]);
                    assert(updates_key(updates, k3));
                }
                assert(prev[j] == ls[j]);
                if line_key(ls[j]) == Some(k) {
                    assert(updates_key(updates, k));
                }
            }
        } else {
            assert forall|j: int|
                0 <= j < ls.len() && !(exists|k3: Seq<char>| line_key(ls[j]) == Some(k3) && updates_key(updates, k3))
                    implies #[trigger] upsert_lines(ls, updates)[j] == ls[j] by {
                if exists|k3: Seq<char>| line_key(ls[j]) == Some(k3) && updates_key(pre, k3) {
                    let k3 = choose|k3: Seq<char>| line_key(ls[j]) == Some(k3) && updates_key(pre, k3);
                    let i = choose|i: int| 0 <= i < pre.len() && k3.len() > 0 && trim(#[trigger] pre[i].0) == k3;
                    assert(pre[i] == updates[i]);
                    assert(updates_key(updates, k3));
                }
            }
            if forall|i: int| 0 <= i < updates.len() ==> key_on_one_line_at_most(ls, trim(#[trigger] updates[i].0)) {
                assert forall|i: int| 0 <= i < pre.len() implies key_on_one_line_at_most(ls, trim(#[trigger] pre[i].0)) by {
                    assert(pre[i] == updates[i]);
                }
            }
        }
    }
}

/// Writing several keys and reading the file back gives what the file read before with each
/// trimmed key set to its trimmed value in order (a later update of a key wins); every line
/// that carries none of the written keys (comments, blank lines, other keys) keeps its place,
/// and new keys come after them. The keys must be plain, the values single lines, and the
/// file must carry each written key on one line at most.
pub proof fn law_upsert_many_then_read(text: Option<Seq<char>>, updates: Seq<(Seq<char>, Seq<char>)>)
    requires
        writable_updates(updates),
        forall|i: int| 0 <= i < updates.len() ==> key_on_one_line_at_most(text_lines(text), trim(#[trigger] updates[i].0)),
    ensures
        parsed_env(upserted_env(text, updates)) == updated_map(parsed_text(text), updates),
        upsert_lines(text_lines(text), updates).len() >= text_lines(text).len(),
        forall|j: int|
            0 <= j < text_lines(text).len() && !(exists|k: Seq<char>| line_key(text_lines(text)[j]) == Some(k) && updates_key(updates, k))
                ==> #[trigger] upsert_lines(text_lines(text), updates)[j] == text_lines(text)[j],
{
    let l0 = text_lines(text);
    match text {
        Some(t) => lemma_lines_single(t),
        None => {},
    }
    assert forall|i: int| 0 <= i < l0.len() implies single_line(#[trigger] l0[i]) by {
        match text {
            Some(t) => {
                assert(single_line(lines(t)[i]));
            },
            None => {},
        }
    }
    lemma_upsert_lines(l0, updates);
    lemma_parse_render(upsert_lines(l0, updates));
}

/// The keys and values the migration writes are plain keys and single lines.
proof fn lemma_migration_strings()
    ensures
        plain_key(CONFIG_VERSION_KEY@),
        plain_key(SYNC_MODE_KEY@),
        CONFIG_VERSION_KEY@ != SYNC_MODE_KEY@,
        trim(CONFIG_VERSION_KEY@) == CONFIG_VERSION_KEY@,
        trim(SYNC_MODE_KEY@) == SYNC_MODE_KEY@,
        single_line(CURRENT_CONFIG_VERSION@),
        trim(CURRENT_CONFIG_VERSION@) == CURRENT_CONFIG_VERSION@,
        forall|m: SyncMode| single_line(#[trigger] mode_name(m)),
{
    reveal_strlit("LUMAWAY_CONFIG_VERSION");
    reveal_strlit("LUMAWAY_SYNC_MODE");
    reveal_strlit("1");
    reveal_strlit("video");
    reveal_strlit("game");
    reveal_strlit("desktop");
    reveal_strlit("music");
    assert(CONFIG_VERSION_KEY@[0] != SYNC_MODE_KEY@[8]);
    assert(CONFIG_VERSION_KEY@[8] != SYNC_MODE_KEY@[8]);
    let cv = CONFIG_VERSION_KEY@;
    let sm = SYNC_MODE_KEY@;
    assert(trim_start(cv) == cv);
    assert(trim_end(cv) == cv);
    assert(trim_start(sm) == sm);
    assert(trim_end(sm) == sm);
    let one = CURRENT_CONFIG_VERSION@;
    assert(trim_start(one) == one);
    assert(trim_end(one) == one);
    assert forall|m: SyncMode| single_line(#[trigger] mode_name(m)) by {
        match m {
            SyncMode::Video => {},
            SyncMode::Game => {},
            SyncMode::Desktop => {},
            SyncMode::Music => {},
        }
    }
}

/// Migrating a migrated file changes nothing more: once written, the version is current and a
/// mode is set. The file must carry each of the two keys on one line at most (with a second,
/// stale version line, the stale line would still be read).
pub proof fn law_migration_is_idempotent(text: Seq<char>)
    requires
        key_on_one_line_at_most(lines(text), CONFIG_VERSION_KEY@),
        key_on_one_line_at_most(lines(text), SYNC_MODE_KEY@),
    ensures
        v1_updates(parsed_env(upserted_env(Some(text), v1_updates(parsed_env(text))))).len() == 0,
{
    lemma_migration_strings();
    let l0 = lines(text);
    let p = parsed_env(text);
    let u = v1_updates(p);
    let cv = CONFIG_VERSION_KEY@;
    let sm = SYNC_MODE_KEY@;
    let one = CURRENT_CONFIG_VERSION@;
    lemma_lines_single(text);
    let hv = has_current_version(p);
    let hs = p.dom().contains(sm);
    let legacy = if p.dom().contains(crate::sync_mode::LEGACY_PRESET_KEY@) {
        Some(p[crate::sync_mode::LEGACY_PRESET_KEY@])
    } else {
        None
    };
    let mv = mode_name(crate::sync_mode::resolved_mode(None, legacy));
    assert(single_line(mv));
    if hv && hs {
        assert(u =~= Seq::<(Seq<char>, Seq<char>)>::empty());
        lemma_parse_render(l0);
    } else if hv {
        assert(u =~= seq![(sm, mv)]);
        assert(u.drop_last() =~= Seq::<(Seq<char>, Seq<char>)>::empty());
        assert(upsert_lines(l0, u.drop_last()) == l0);
        let l1 = upsert_line(l0, sm, mv);
        assert(upsert_lines(l0, u) == l1);
        lemma_upsert_line_single(l0, sm, mv);
        lemma_parse_render(l1);
        lemma_upsert_line_reads_back(l0, sm, mv);
        lemma_upsert_line_other_keys(l0, sm, mv, cv);
    } else if hs {
        assert(u =~= seq![(cv, one)]);
        assert(u.drop_last() =~= Seq::<(Seq<char>, Seq<char>)>::empty());
        assert(upsert_lines(l0, u.drop_last()) == l0);
        let l1 = upsert_line(l0, cv, one);
        assert(upsert_lines(l0, u) == l1);
        lemma_upsert_line_single(l0, cv, one);
        lemma_parse_render(l1);
        lemma_upsert_line_reads_back(l0, cv, one);
        lemma_upsert_line_other_keys(l0, cv, one, sm);
    } else {
        assert(u =~= seq![(cv, one), (sm, mv)]);
        let u1 = u.drop_last();
        assert(u1 =~= seq![(cv, one)]);
        assert(u1.drop_last() =~= Seq::<(Seq<char>, Seq<char>)>::empty());
        assert(upsert_lines(l0, u1.drop_last()) == l0);
        let l1 = upsert_line(l0, cv, one);
        assert(upsert_lines(l0, u1) == l1);
        let l2 = upsert_line(l1, sm, mv);
        assert(upsert_lines(l0, u) == l2);
        lemma_upsert_line_single(l0, cv, one);
        lemma_upsert_line_single(l1, sm, mv);
        lemma_parse_render(l2);
        lemma_upsert_line_reads_back(l0, cv, one);
        lemma_upsert_line_keeps_unique(l0, cv, one, sm);
        lemma_upsert_line_reads_back(l1, sm, mv);
        lemma_upsert_line_other_keys(l1, sm, mv, cv);
    }
}

/// The value saved under `key`, if any.
pub open spec fn saved_value(saved: Map<Seq<char>, Seq<char>>, key: Seq<char>) -> Option<Seq<char>> {
    if saved.dom().contains(key) {
        Some(saved[key])
    } else {
        None
    }
}

/// The value of `k` in entries: that of its last entry.
pub open spec fn last_value(es: Seq<(Seq<char>, Seq<char>)>, k: Seq<char>) -> Option<Seq<char>>
    decreases es.len(),
{
    if es.len() == 0 {
        None
    } else if es.last().0 == k {
        Some(es.last().1)
    } else {
        last_value(es.drop_last(), k)
    }
}

/// The map of entries gives each key the value of its last entry.
pub proof fn lemma_last_value(es: Seq<(Seq<char>, Seq<char>)>, k: Seq<char>)
    ensures
        saved_value(entries_map(es), k) == last_value(es, k),
    decreases es.len(),
{
    if es.len() > 0 {
        lemma_last_value(es.drop_last(), k);
    }
}

/// The last entry of `k` in `a + b` is its last one in `b`, else its last one in `a`.
pub proof fn lemma_last_value_concat(a: Seq<(Seq<char>, Seq<char>)>, b: Seq<(Seq<char>, Seq<char>)>, k: Seq<char>)
    ensures
        last_value(a + b, k) == match last_value(b, k) {
            Some(v) => Some(v),
            None => last_value(a, k),
        },
    decreases b.len(),
{
    if b.len() == 0 {
        assert(a + b =~= a);
    } else {
        assert((a + b).drop_last() =~= a + b.drop_last());
        lemma_last_value_concat(a, b.drop_last(), k);
    }
}

} // verus!
