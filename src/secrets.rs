//! The registration gate: a read-only table of named API keys, read from a
//! `name=value` text file, and the `ApiKey` credential parsed from a header.
use vstd::prelude::*;
use crate::text::{same_text, strip_prefix};

verus! {

/// Name of the key that must accompany a registration.
pub const REGISTER_KEY: &'static str = "apikeys.register";

/// Prefix of an `Authorization` header that carries an API key.
pub const APIKEY: &'static str = "ApiKey ";

/// The pieces of `s` between newline characters, in order; there is always
/// one more piece than there are newlines.
pub open spec fn split_newlines(s: Seq<char>) -> Seq<Seq<char>>
    decreases s.len(),
{
    if s.len() == 0 {
        seq![Seq::empty()]
    } else {
        let p = split_newlines(s.drop_last());
        if s.last() == '\n' {
            p.push(Seq::empty())
        } else {
            p.update(p.len() - 1, p.last().push(s.last()))
        }
    }
}

/// A line that ended in a newline loses a carriage return before it.
pub open spec fn strip_cr(line: Seq<char>) -> Seq<char> {
    if line.len() > 0 && line.last() == '\r' {
        line.drop_last()
    } else {
        line
    }
}

/// `i` is the position of the only `=` in `line`.
pub open spec fn sole_separator(line: Seq<char>, i: int) -> bool {
    &&& 0 <= i < line.len()
    &&& line[i] == '='
    &&& forall|j: int| 0 <= j < line.len() && j != i ==> line[j] != '='
}

/// The `(name, value)` a line of the key file defines: it holds exactly one
/// `=`, and the value after it is not empty. Any other line defines nothing.
pub open spec fn key_entry(line: Seq<char>) -> Option<(Seq<char>, Seq<char>)> {
    if exists|i: int| sole_separator(line, i) && i + 1 < line.len() {
        let i = choose|i: int| sole_separator(line, i) && i + 1 < line.len();
        Some((line.take(i), line.skip(i + 1)))
    } else {
        None
    }
}

/// `i` is the position of the first `=` in `line`.
pub open spec fn first_separator(line: Seq<char>, i: int) -> bool {
    &&& 0 <= i < line.len()
    &&& line[i] == '='
    &&& forall|j: int| 0 <= j < i ==> line[j] != '='
}

/// The name part of a line: the text before its first `=`, or the whole
/// line when it has none.
pub open spec fn first_field(line: Seq<char>) -> Seq<char> {
    if exists|i: int| first_separator(line, i) {
        line.take(choose|i: int| first_separator(line, i))
    } else {
        line
    }
}

/// `m` after reading one line: a later definition of a name replaces an
/// earlier one.
pub open spec fn add_line(m: Map<Seq<char>, Seq<char>>, line: Seq<char>) -> Map<Seq<char>, Seq<char>> {
    match key_entry(line) {
        Some(kv) => m.insert(kv.0, kv.1),
        None => m,
    }
}

/// The keys defined by lines that each ended in a newline.
pub open spec fn terminated_map(pieces: Seq<Seq<char>>) -> Map<Seq<char>, Seq<char>>
    decreases pieces.len(),
{
    if pieces.len() == 0 {
        Map::empty()
    } else {
        add_line(terminated_map(pieces.drop_last()), strip_cr(pieces.last()))
    }
}

/// The keys that a key file with text `s` defines, read line by line as
/// `str::lines` splits it: a final line needs no newline, and an empty
/// final piece is no line.
pub open spec fn key_file_map(s: Seq<char>) -> Map<Seq<char>, Seq<char>> {
    let p = split_newlines(s);
    let m = terminated_map(p.drop_last());
    if p.last().len() == 0 {
        m
    } else {
        add_line(m, p.last())
    }
}

/// The names of the lines that each ended in a newline and define nothing.
pub open spec fn skipped_in(pieces: Seq<Seq<char>>) -> Seq<Seq<char>>
    decreases pieces.len(),
{
    if pieces.len() == 0 {
        Seq::empty()
    } else {
        let k = skipped_in(pieces.drop_last());
        let line = strip_cr(pieces.last());
        if key_entry(line) is None {
            k.push(first_field(line))
        } else {
            k
        }
    }
}

/// The names of the lines of a key file with text `s` that define nothing,
/// in order; lines are split as in `key_file_map`.
pub open spec fn skipped_lines(s: Seq<char>) -> Seq<Seq<char>> {
    let p = split_newlines(s);
    let k = skipped_in(p.drop_last());
    if p.last().len() == 0 || key_entry(p.last()) is Some {
        k
    } else {
        k.push(first_field(p.last()))
    }
}

/// The text each string holds.
pub open spec fn texts(v: Seq<String>) -> Seq<Seq<char>> {
    v.map_values(|x: String| x@)
}

/// The map that a list of definitions builds, later ones winning.
pub open spec fn entries_map(e: Seq<(String, String)>) -> Map<Seq<char>, Seq<char>>
    decreases e.len(),
{
    if e.len() == 0 {
        Map::empty()
    } else {
        entries_map(e.drop_last()).insert(e.last().0@, e.last().1@)
    }
}

proof fn lemma_entries_prefix(e: Seq<(String, String)>, i: int, k: Seq<char>)
    requires
        0 <= i <= e.len(),
        forall|j: int| i <= j < e.len() ==> e[j].0@ != k,
    ensures
        entries_map(e).contains_key(k) == entries_map(e.take(i)).contains_key(k),
        entries_map(e).contains_key(k) ==> entries_map(e)[k] == entries_map(e.take(i))[k],
    decreases e.len(),
{
    if e.len() > i {
        lemma_entries_prefix(e.drop_last(), i, k);
        assert(e.drop_last().take(i) =~= e.take(i));
    } else {
        assert(e.take(i) =~= e);
    }
}

/// The API keys the service knows, by name.
pub struct ApiKeys {
    keys: Vec<(String, String)>,
}

impl View for ApiKeys {
    type V = Map<Seq<char>, Seq<char>>;

    closed spec fn view(&self) -> Map<Seq<char>, Seq<char>> {
        entries_map(self.keys@)
    }
}

/// The line `s[start..end]` read as a key definition.
/// A line that defines nothing comes back as its name, for reporting.
fn parse_line(s: &str, start: usize, end: usize) -> (r: Result<(String, String), String>)
    requires
        start <= end <= s@.len(),
    ensures
        match r {
            Ok(kv) => key_entry(s@.subrange(start as int, end as int)) == Some((kv.0@, kv.1@)),
            Err(name) => key_entry(s@.subrange(start as int, end as int)) is None && name@
                == first_field(s@.subrange(start as int, end as int)),
        },
{
    let ghost line = s@.subrange(start as int, end as int);
    let mut first: Option<usize> = None;
    let mut second: Option<usize> = None;
    let mut j: usize = start;
    while j < end
        invariant
            start <= j <= end <= s@.len(),
            first is None ==> forall|q: int| start <= q < j ==> s@[q] != '=',
            first matches Some(p) ==> start <= p < j && s@[p as int] == '=' && forall|q: int|
                start <= q < p ==> s@[q] != '=',
            first is Some && second is None ==> forall|q: int|
                first->Some_0 < q < j ==> s@[q] != '=',
            second matches Some(q) ==> first is Some && first->Some_0 < q < j && s@[q as int]
                == '=',
        decreases end - j,
    {
        if s.get_char(j) == '=' {
            if first.is_none() {
                first = Some(j);
            } else if second.is_none() {
                second = Some(j);
            }
        }
        j = j + 1;
    }
    match first {
        Some(p) => {
            let ghost i = p - start;
            if second.is_none() && p + 1 < end {
                assert(sole_separator(line, i));
                let ghost c = choose|c: int| sole_separator(line, c) && c + 1 < line.len();
                assert(c == i) by {
                    if c != i {
                        assert(line[i] == '=');
                    }
                }
                let k = String::from_str(s.substring_char(start, p));
                let v = String::from_str(s.substring_char(p + 1, end));
                assert(k@ =~= line.take(i));
                assert(v@ =~= line.skip(i + 1));
                Ok((k, v))
            } else {
                assert forall|c: int| !(sole_separator(line, c) && c + 1 < line.len()) by {
                    if sole_separator(line, c) && c + 1 < line.len() {
                        assert(line[i] == '=');
                        if second.is_some() {
                            let q = second->Some_0 - start;
                            assert(line[q] == '=');
                        }
                    }
                }
                assert(first_separator(line, i));
                let ghost f = choose|f: int| first_separator(line, f);
                assert(f == i) by {
                    if f < i {
                        assert(line[f] == '=');
                    } else if f > i {
                        assert(line[i] == '=');
                    }
                }
                let name = String::from_str(s.substring_char(start, p));
                assert(name@ =~= line.take(i));
                Err(name)
            }
        },
        None => {
            assert forall|c: int| !(sole_separator(line, c) && c + 1 < line.len()) by {
                if sole_separator(line, c) {
                    assert(s@[start + c] == '=');
                }
            }
            assert forall|c: int| !first_separator(line, c) by {
                if first_separator(line, c) {
                    assert(s@[start + c] == '=');
                }
            }
            Err(String::from_str(s.substring_char(start, end)))
        },
    }
}

impl ApiKeys {
    /// The keys that a key file with text `content` defines. Lines that
    /// define nothing are skipped.
    pub fn parse(content: &str) -> (r: ApiKeys)
        ensures
            r@ == key_file_map(content@),
    {
        ApiKeys::parse_reporting(content).0
    }

    /// The keys that a key file with text `content` defines, with the names
    /// of the lines that define nothing, so that each can be reported.
    pub fn parse_reporting(content: &str) -> (r: (ApiKeys, Vec<String>))
        ensures
            r.0@ == key_file_map(content@),
            texts(r.1@) == skipped_lines(content@),
    {
        let n = content.unicode_len();
        let mut keys: Vec<(String, String)> = Vec::new();
        let mut skipped: Vec<String> = Vec::new();
        let mut start: usize = 0;
        let mut i: usize = 0;
        let ghost mut done: Seq<Seq<char>> = Seq::empty();
        assert(content@.take(0) =~= Seq::<char>::empty());
        assert(content@.subrange(0, 0) =~= Seq::<char>::empty());
        assert(split_newlines(Seq::<char>::empty()) =~= done.push(Seq::<char>::empty()));
        assert(texts(skipped@) =~= Seq::<Seq<char>>::empty());
        while i < n
            invariant
                n == content@.len(),
                start <= i <= n,
                split_newlines(content@.take(i as int)) == done.push(
                    content@.subrange(start as int, i as int),
                ),
                entries_map(keys@) == terminated_map(done),
                texts(skipped@) == skipped_in(done),
            decreases n - i,
        {
            let c = content.get_char(i);
            let ghost prev = content@.take(i as int);
            assert(content@.take(i + 1).drop_last() =~= prev);
            if c == '\n' {
                let ghost piece = content@.subrange(start as int, i as int);
                let end = if i > start && content.get_char(i - 1) == '\r' {
                    i - 1
                } else {
                    i
                };
                assert(strip_cr(piece) =~= content@.subrange(start as int, end as int));
                let parsed = parse_line(content, start, end);
                match parsed {
                    Ok(kv) => {
                        let ghost before = keys@;
                        keys.push(kv);
                        assert(keys@.drop_last() =~= before);
                    },
                    Err(name) => {
                        let ghost before = skipped@;
                        skipped.push(name);
                        assert(texts(skipped@) =~= texts(before).push(skipped@.last()@));
                    },
                }
                proof {
                    assert(done.push(piece).drop_last() =~= done);
                    done = done.push(piece);
                }
                start = i + 1;
                assert(content@.subrange(start as int, i + 1) =~= Seq::<char>::empty());
            } else {
                assert(content@.subrange(start as int, i + 1) =~= content@.subrange(
                    start as int,
                    i as int,
                ).push(c));
            }
            i = i + 1;
        }
        assert(content@.take(n as int) =~= content@);
        let ghost last = content@.subrange(start as int, n as int);
        assert(split_newlines(content@).drop_last() =~= done);
        assert(split_newlines(content@).last() == last);
        if start < n {
            let parsed = parse_line(content, start, n);
            match parsed {
                Ok(kv) => {
                    let ghost before = keys@;
                    keys.push(kv);
                    assert(keys@.drop_last() =~= before);
                },
                Err(name) => {
                    let ghost before = skipped@;
                    skipped.push(name);
                    assert(texts(skipped@) =~= texts(before).push(skipped@.last()@));
                },
            }
        }
        (ApiKeys { keys }, skipped)
    }
}

impl ApiKeys {
    /// Position of the definition of `node` that is in force.
    fn find(&self, node: &str) -> (r: Option<usize>)
        ensures
            match r {
                Some(i) => i < self.keys@.len() && self@.contains_key(node@) && self@[node@]
                    == self.keys@[i as int].1@,
                None => !self@.contains_key(node@),
            },
    {
        let mut i: usize = self.keys.len();
        while i > 0
            invariant
                i <= self.keys@.len(),
                forall|j: int| i <= j < self.keys@.len() ==> self.keys@[j].0@ != node@,
            decreases i,
        {
            if same_text(self.keys[i - 1].0.as_str(), node) {
                proof {
                    lemma_entries_prefix(self.keys@, i as int, node@);
                    assert(self.keys@.take(i as int).drop_last() =~= self.keys@.take(i - 1));
                }
                return Some(i - 1);
            }
            i = i - 1;
        }
        proof {
            lemma_entries_prefix(self.keys@, 0, node@);
            assert(self.keys@.take(0) =~= Seq::<(String, String)>::empty());
        }
        None
    }

    /// The value of the key named `node`, if there is one.
    pub fn _read_api_key(&self, node: &str) -> (r: Option<String>)
        ensures
            match r {
                Some(v) => self@.contains_key(node@) && v@ == self@[node@],
                None => !self@.contains_key(node@),
            },
    {
        match self.find(node) {
            Some(i) => Some(self.keys[i].1.clone()),
            None => None,
        }
    }

    /// Succeeds exactly when a key named `node` exists and its value is
    /// `value`; a missing name and a wrong value give the same error.
    pub fn check_api_key(&self, node: &str, value: &str) -> (r: Result<(), ()>)
        ensures
            r is Ok <==> key_accepted(self@, node@, value@),
    {
        match self.find(node) {
            Some(i) => {
                if same_text(self.keys[i].1.as_str(), value) {
                    Ok(())
                } else {
                    Err(())
                }
            },
            None => Err(()),
        }
    }
}

/// Whether `value` is the key named `node` in `keys`.
pub open spec fn key_accepted(keys: Map<Seq<char>, Seq<char>>, node: Seq<char>, value: Seq<char>) -> bool {
    keys.contains_key(node) && keys[node] == value
}

/// An API key as presented by a client.
pub struct ApiKey(pub String);

/// The key an `Authorization` header value carries: it must start with
/// `ApiKey `, which is removed once.
pub open spec fn api_key_of_header(h: Seq<char>) -> Option<Seq<char>> {
    if APIKEY@.len() <= h.len() && h.take(APIKEY@.len() as int) == APIKEY@ {
        Some(h.skip(APIKEY@.len() as int))
    } else {
        None
    }
}

impl ApiKey {
    /// The API key that the `Authorization` header values of a request carry.
    /// There must be exactly one such header; otherwise the request is
    /// unauthorised and `None` comes back.
    pub fn from_headers(values: &Vec<String>) -> (r: Option<ApiKey>)
        ensures
            values@.len() != 1 ==> r is None,
            values@.len() == 1 ==> match api_key_of_header(values@[0]@) {
                Some(k) => r matches Some(key) && key.0@ == k,
                None => r is None,
            },
    {
        if values.len() != 1 {
            return None;
        }
        match strip_prefix(values[0].as_str(), APIKEY) {
            Some(k) => Some(ApiKey(k)),
            None => None,
        }
    }
}

} // verus!
