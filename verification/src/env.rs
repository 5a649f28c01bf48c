//! The process environment, modeled as an explicit table owned by the
//! application host, and the additive `.env`-style loader that seeds it.
//!
//! The table never distinguishes "unset" from "set to empty"; lookups that
//! fail are absorbed by the callers into a default value. The loader merges
//! `KEY=VALUE` lines without overwriting names that are already present,
//! and ignores malformed lines.

use vstd::prelude::*;
use vstd::string::StrSliceExecFns;

verus! {

/// First-match lookup in an entry table, scanning from position `i`.
pub open spec fn lookup_from(
    entries: Seq<(Seq<char>, Seq<char>)>,
    key: Seq<char>,
    i: int,
) -> Option<Seq<char>>
    decreases entries.len() - i,
{
    if i < 0 || i >= entries.len() {
        None
    } else if entries[i].0 == key {
        Some(entries[i].1)
    } else {
        lookup_from(entries, key, i + 1)
    }
}

/// First-match lookup of `key` in an entry table.
pub open spec fn lookup(entries: Seq<(Seq<char>, Seq<char>)>, key: Seq<char>) -> Option<
    Seq<char>,
> {
    lookup_from(entries, key, 0)
}

/// The process environment: a table of name/value pairs, handed to the
/// components that read it rather than reached through ambient lookup.
pub struct Env {
    entries: Vec<(String, String)>,
}

impl View for Env {
    type V = Seq<(Seq<char>, Seq<char>)>;

    closed spec fn view(&self) -> Seq<(Seq<char>, Seq<char>)> {
        self.entries.deep_view()
    }
}

impl Env {
    /// An environment with no variables set.
    pub fn new() -> (e: Env)
        ensures
            e@ == Seq::<(Seq<char>, Seq<char>)>::empty(),
    {
        let e = Env { entries: Vec::new() };
        proof {
            assert(e@ =~= Seq::<(Seq<char>, Seq<char>)>::empty());
        }
        e
    }

    /// The number of variables set.
    pub fn len(&self) -> (n: usize)
        ensures
            n == self@.len(),
    {
        self.entries.len()
    }

    /// Looks `key` up; `None` exactly when the name is absent.
    pub fn get(&self, key: &str) -> (r: Option<String>)
        ensures
            match lookup(self@, key@) {
                Some(v) => (match r {
                    Some(s) => s@ == v,
                    None => false,
                }),
                None => r is None,
            },
    {
        let k = key.to_owned();
        let n: usize = self.entries.len();
        let mut i: usize = 0;
        while i < n
            invariant
                n == self.entries.len(),
                i <= n,
                k@ == key@,
                self@.len() == n,
                lookup(self@, key@) == lookup_from(self@, key@, i as int),
            decreases n - i,
        {
            let pair = &self.entries[i];
            proof {
                assert(self@[i as int] == (pair.0@, pair.1@));
            }
            if pair.0 == k {
                return Some(pair.1.clone());
            }
            i += 1;
        }
        None
    }

    /// Sets `key` to `value` only when `key` is absent: the table is
    /// additive under this operation, never overwriting.
    pub fn insert_if_absent(&mut self, key: String, value: String)
        ensures
            final(self)@ == (if lookup(old(self)@, key@) is Some {
                old(self)@
            } else {
                old(self)@.push((key@, value@))
            }),
    {
        let present = self.get(key.as_str()).is_some();
        if !present {
            let ghost prior = self@;
            self.entries.push((key, value));
            proof {
                assert(self@ =~= prior.push((key@, value@)));
            }
        }
    }
    /// Parses one `.env` line and merges it, without overwriting: a line
    /// that parses to `KEY=VALUE` sets `KEY` only when it is absent, and a
    /// malformed line leaves the table untouched.
    pub fn load_line(&mut self, line: &str)
        ensures
            final(self)@ == load_line_spec(old(self)@, line@),
    {
        match parse_env_line(line) {
            Some(kv) => {
                self.insert_if_absent(kv.0, kv.1);
            },
            None => {},
        }
    }

    /// Loads a whole `.env` file, given as its lines in order. Well-formed
    /// lines are merged additively, first occurrence first; malformed lines
    /// are ignored; nothing already present is overwritten.
    pub fn load_lines(&mut self, lines: &Vec<String>)
        ensures
            final(self)@ == load_spec(old(self)@, lines.deep_view()),
    {
        let n: usize = lines.len();
        let mut j: usize = 0;
        proof {
            assert(lines.deep_view().skip(0) =~= lines.deep_view());
        }
        while j < n
            invariant
                n == lines.len(),
                j <= n,
                load_spec(old(self)@, lines.deep_view()) == load_spec(
                    self@,
                    lines.deep_view().skip(j as int),
                ),
            decreases n - j,
        {
            proof {
                assert(lines.deep_view().skip(j as int).skip(1) =~= lines.deep_view().skip(
                    j + 1 as int,
                ));
                assert(lines.deep_view().skip(j as int)[0] == lines@[j as int]@);
            }
            let line = &lines[j];
            self.load_line(line.as_str());
            j += 1;
        }
        proof {
            assert(lines.deep_view().skip(n as int) =~= Seq::<Seq<char>>::empty());
        }
    }
}

/// Where the first `=` stands in a line, scanning from position `i`.
pub open spec fn find_eq_from(line: Seq<char>, i: int) -> Option<int>
    decreases line.len() - i,
{
    if i < 0 || i >= line.len() {
        None
    } else if line[i] == '=' {
        Some(i)
    } else {
        find_eq_from(line, i + 1)
    }
}

/// How one `.env` line reads: split at the first `=` into a nonempty name
/// and the rest; a line without `=` or with an empty name is malformed.
pub open spec fn parse_line_spec(line: Seq<char>) -> Option<(Seq<char>, Seq<char>)> {
    match find_eq_from(line, 0) {
        None => None,
        Some(i) => if i == 0 {
            None
        } else {
            Some((line.subrange(0, i), line.subrange(i + 1, line.len() as int)))
        },
    }
}

/// What one line does to the table: merge its pair if it parses and its
/// name is absent; nothing otherwise.
pub open spec fn load_line_spec(
    env: Seq<(Seq<char>, Seq<char>)>,
    line: Seq<char>,
) -> Seq<(Seq<char>, Seq<char>)> {
    match parse_line_spec(line) {
        None => env,
        Some(kv) => if lookup(env, kv.0) is Some {
            env
        } else {
            env.push(kv)
        },
    }
}

/// What a whole file does to the table: its lines applied in order.
pub open spec fn load_spec(
    env: Seq<(Seq<char>, Seq<char>)>,
    lines: Seq<Seq<char>>,
) -> Seq<(Seq<char>, Seq<char>)>
    decreases lines.len(),
{
    if lines.len() == 0 {
        env
    } else {
        load_spec(load_line_spec(env, lines[0]), lines.skip(1))
    }
}

/// Splits one `.env` line at its first `=`; `None` exactly for the
/// malformed lines (no `=`, or an empty name).
pub fn parse_env_line(line: &str) -> (r: Option<(String, String)>)
    ensures
        match parse_line_spec(line@) {
            None => r is None,
            Some(kv) => (match r {
                Some(p) => p.0@ == kv.0 && p.1@ == kv.1,
                None => false,
            }),
        },
{
    let n: usize = line.unicode_len();
    let mut i: usize = 0;
    while i < n
        invariant
            n == line@.len(),
            i <= n,
            find_eq_from(line@, 0) == find_eq_from(line@, i as int),
        decreases n - i,
    {
        if line.get_char(i) == '=' {
            if i == 0 {
                return None;
            }
            let key = line.substring_char(0, i).to_owned();
            let value = line.substring_char(i + 1, n).to_owned();
            return Some((key, value));
        }
        i += 1;
    }
    None
}

/// A key that already answers a lookup keeps its answer when a new pair is
/// appended behind it: first-match lookup never reaches the new pair.
proof fn lemma_lookup_from_push(
    entries: Seq<(Seq<char>, Seq<char>)>,
    pair: (Seq<char>, Seq<char>),
    key: Seq<char>,
    i: int,
)
    requires
        lookup_from(entries, key, i) is Some,
    ensures
        lookup_from(entries.push(pair), key, i) == lookup_from(entries, key, i),
    decreases entries.len() - i,
{
    if 0 <= i < entries.len() {
        assert(entries.push(pair)[i] == entries[i]);
        if entries[i].0 != key {
            lemma_lookup_from_push(entries, pair, key, i + 1);
        }
    }
}

/// Law: the environment-file loader is additive only. A name already
/// present in the table keeps its value through any load, whatever the
/// file redefines.
pub proof fn lemma_loader_additive(
    env: Seq<(Seq<char>, Seq<char>)>,
    lines: Seq<Seq<char>>,
    key: Seq<char>,
)
    requires
        lookup(env, key) is Some,
    ensures
        lookup(load_spec(env, lines), key) == lookup(env, key),
    decreases lines.len(),
{
    if lines.len() > 0 {
        let env1 = load_line_spec(env, lines[0]);
        match parse_line_spec(lines[0]) {
            None => {},
            Some(kv) => {
                if lookup(env, kv.0) is None {
                    lemma_lookup_from_push(env, kv, key, 0);
                }
            },
        }
        assert(lookup(env1, key) == lookup(env, key));
        lemma_loader_additive(env1, lines.skip(1), key);
    }
}

} // verus!
