use vstd::prelude::*;
use crate::text::{chars_of, skip_ws, trim, trim_bounds, trim_start};

verus! {

/// The label that opens the interpreted section, without its bracket.
pub open spec fn entry_label() -> Seq<char> {
    seq!['D', 'e', 's', 'k', 't', 'o', 'p', ' ', 'E', 'n', 't', 'r', 'y']
}

/// A line that starts with `[` is a section header.
pub open spec fn is_header(l: Seq<char>) -> bool {
    l.len() > 0 && l[0] == '['
}

/// A header whose text right after the bracket starts with `Desktop Entry`.
pub open spec fn opens_entry(l: Seq<char>) -> bool {
    is_header(l) && l.len() >= 14 && l.subrange(1, 14) == entry_label()
}

/// A line whose first character after leading whitespace is `#`.
pub open spec fn is_comment(l: Seq<char>) -> bool {
    trim_start(l).len() > 0 && trim_start(l)[0] == '#'
}

/// `i` is the index of the first `=` of `l`.
pub open spec fn is_first_eq(l: Seq<char>, i: int) -> bool {
    &&& 0 <= i < l.len()
    &&& l[i] == '='
    &&& forall|j: int| 0 <= j < i ==> l[j] != '='
}

/// The key and value of a line split at its first `=`, each trimmed.
pub open spec fn line_pair(l: Seq<char>) -> Option<(Seq<char>, Seq<char>)> {
    if exists|i: int| is_first_eq(l, i) {
        let i = choose|i: int| is_first_eq(l, i);
        Some((trim(l.take(i)), trim(l.skip(i + 1))))
    } else {
        None
    }
}

/// Whether, after `lines`, the parser stands inside the `[Desktop Entry]` section.
pub open spec fn in_entry_after(lines: Seq<Seq<char>>) -> bool
    decreases lines.len(),
{
    if lines.len() == 0 {
        false
    } else if is_header(lines.last()) {
        opens_entry(lines.last())
    } else {
        in_entry_after(lines.drop_last())
    }
}

/// The value of the first pair of `entries` whose key is `key`.
pub open spec fn lookup(entries: Seq<(Seq<char>, Seq<char>)>, key: Seq<char>) -> Option<Seq<char>>
    decreases entries.len(),
{
    if entries.len() == 0 {
        None
    } else {
        match lookup(entries.drop_last(), key) {
            Some(v) => Some(v),
            None => if entries.last().0 == key {
                Some(entries.last().1)
            } else {
                None
            },
        }
    }
}

/// The pair that line `l` gives when it follows `before`, if any: it must
/// stand inside the `[Desktop Entry]` section, be neither a header nor a
/// comment, and hold an `=`.
pub open spec fn pair_after(before: Seq<Seq<char>>, l: Seq<char>) -> Option<(Seq<char>, Seq<char>)> {
    if !is_header(l) && in_entry_after(before) && !is_comment(l) {
        line_pair(l)
    } else {
        None
    }
}

/// The key/value pairs of a desktop entry, in order of first appearance:
/// a key that appears again later keeps its first value.
pub open spec fn entry_pairs(lines: Seq<Seq<char>>) -> Seq<(Seq<char>, Seq<char>)>
    decreases lines.len(),
{
    if lines.len() == 0 {
        Seq::empty()
    } else {
        let prev = entry_pairs(lines.drop_last());
        match pair_after(lines.drop_last(), lines.last()) {
            Some(p) => if lookup(prev, p.0) is None {
                prev.push(p)
            } else {
                prev
            },
            None => prev,
        }
    }
}

/// The views of a sequence of strings.
pub open spec fn views(ls: Seq<String>) -> Seq<Seq<char>> {
    ls.map_values(|s: String| s@)
}

/// The views of a sequence of string pairs.
pub open spec fn pair_views(ps: Seq<(String, String)>) -> Seq<(Seq<char>, Seq<char>)> {
    ps.map_values(|p: (String, String)| (p.0@, p.1@))
}

/// A parsed desktop entry: the key/value pairs of its `[Desktop Entry]`
/// section, in order of first appearance, and every line of the file as read.
pub struct DesktopEntry {
    pub entries: Vec<(String, String)>,
    pub lines: Vec<String>,
}

impl DesktopEntry {
    pub open spec fn entries_view(&self) -> Seq<(Seq<char>, Seq<char>)> {
        pair_views(self.entries@)
    }

    pub open spec fn lines_view(&self) -> Seq<Seq<char>> {
        views(self.lines@)
    }

    /// The value that the entry gives `key`, if any.
    pub fn get(&self, key: &String) -> (r: Option<String>)
        ensures
            r matches Some(v) ==> lookup(self.entries_view(), key@) == Some(v@),
            r is None ==> lookup(self.entries_view(), key@) is None,
    {
        find_value(&self.entries, key)
    }
}

/// The value of the first pair of `entries` whose key is `key`.
fn find_value(entries: &Vec<(String, String)>, key: &String) -> (r: Option<String>)
    ensures
        r matches Some(v) ==> lookup(pair_views(entries@), key@) == Some(v@),
        r is None ==> lookup(pair_views(entries@), key@) is None,
{
    let ghost es = pair_views(entries@);
    let mut found: Option<String> = None;
    let mut i: usize = 0;
    while i < entries.len()
        invariant
            i <= entries@.len(),
            es == pair_views(entries@),
            found matches Some(v) ==> lookup(es.take(i as int), key@) == Some(v@),
            found is None ==> lookup(es.take(i as int), key@) is None,
        decreases entries@.len() - i,
    {
        assert(es.take(i + 1).drop_last() =~= es.take(i as int));
        if found.is_none() && entries[i].0 == *key {
            found = Some(entries[i].1.clone());
        }
        i = i + 1;
    }
    assert(es.take(i as int) =~= es);
    found
}

/// Whether `cs` opens the `[Desktop Entry]` section.
fn line_opens_entry(cs: &Vec<char>) -> (r: bool)
    ensures
        r == opens_entry(cs@),
{
    let label: Vec<char> = vec!['D', 'e', 's', 'k', 't', 'o', 'p', ' ', 'E', 'n', 't', 'r', 'y'];
    assert(label@ =~= entry_label());
    if cs.len() < 14 || cs[0] != '[' {
        return false;
    }
    let mut i: usize = 0;
    while i < 13
        invariant
            cs@.len() >= 14,
            label@ == entry_label(),
            i <= 13,
            forall|j: int| 0 <= j < i ==> cs@[j + 1] == label@[j],
        decreases 13 - i,
    {
        if cs[i + 1] != label[i] {
            assert(cs@.subrange(1, 14)[i as int] != entry_label()[i as int]);
            return false;
        }
        i = i + 1;
    }
    assert(cs@.subrange(1, 14) =~= entry_label());
    true
}

/// The index of the first `=` of `cs`, if any.
fn find_eq(cs: &Vec<char>) -> (r: Option<usize>)
    ensures
        r matches Some(i) ==> is_first_eq(cs@, i as int),
        r is None ==> forall|j: int| 0 <= j < cs@.len() ==> cs@[j] != '=',
{
    let mut i: usize = 0;
    while i < cs.len()
        invariant
            i <= cs@.len(),
            forall|j: int| 0 <= j < i ==> cs@[j] != '=',
        decreases cs@.len() - i,
    {
        if cs[i] == '=' {
            return Some(i);
        }
        i = i + 1;
    }
    None
}

proof fn lemma_first_eq_unique(l: Seq<char>, i: int, k: int)
    requires
        is_first_eq(l, i),
        is_first_eq(l, k),
    ensures
        i == k,
{
    if i < k {
        assert(l[i] != '=');
    } else if k < i {
        assert(l[k] != '=');
    }
}

/// The pair that `line` gives when it stands inside the section.
fn split_pair(line: &String) -> (r: Option<(String, String)>)
    ensures
        match line_pair(line@) {
            Some(p) => r matches Some(q) && q.0@ == p.0 && q.1@ == p.1,
            None => r is None,
        },
{
    let cs = chars_of(line.as_str());
    match find_eq(&cs) {
        None => {
            assert(!exists|i: int| is_first_eq(line@, i));
            None
        },
        Some(i) => {
            proof {
                let c = choose|k: int| is_first_eq(line@, k);
                lemma_first_eq_unique(line@, i as int, c);
                assert(cs@.subrange(0, i as int) =~= line@.take(i as int));
                assert(cs@.subrange(i + 1, cs@.len() as int) =~= line@.skip(i + 1));
            }
            let (ka, kb) = trim_bounds(&cs, 0, i);
            let (va, vb) = trim_bounds(&cs, i + 1, cs.len());
            let key = line.as_str().substring_char(ka, kb).to_owned();
            let value = line.as_str().substring_char(va, vb).to_owned();
            Some((key, value))
        },
    }
}

/// `l` without one trailing carriage return.
pub open spec fn strip_cr(l: Seq<char>) -> Seq<char> {
    if l.len() > 0 && l.last() == '\r' {
        l.drop_last()
    } else {
        l
    }
}

/// The lines that `s` ends, and the text after its last line feed.
pub open spec fn line_scan(s: Seq<char>) -> (Seq<Seq<char>>, Seq<char>)
    decreases s.len(),
{
    if s.len() == 0 {
        (Seq::empty(), Seq::empty())
    } else {
        let (done, cur) = line_scan(s.drop_last());
        if s.last() == '\n' {
            (done.push(strip_cr(cur)), Seq::empty())
        } else {
            (done, cur.push(s.last()))
        }
    }
}

/// The lines of a text: each line feed ends a line, and a carriage return
/// right before it is dropped; text after the last line feed is a last line.
pub open spec fn lines_of(s: Seq<char>) -> Seq<Seq<char>> {
    let (done, cur) = line_scan(s);
    if cur.len() == 0 {
        done
    } else {
        done.push(cur)
    }
}

/// Splits a text into its lines.
pub fn split_lines(text: &str) -> (r: Vec<String>)
    ensures
        views(r@) == lines_of(text@),
{
    let cs = chars_of(text);
    let n = cs.len();
    let mut out: Vec<String> = Vec::new();
    let mut start: usize = 0;
    let mut i: usize = 0;
    while i < n
        invariant
            n == cs@.len(),
            cs@ == text@,
            start <= i <= n,
            views(out@) == line_scan(cs@.take(i as int)).0,
            cs@.subrange(start as int, i as int) == line_scan(cs@.take(i as int)).1,
        decreases n - i,
    {
        assert(cs@.take(i + 1).drop_last() =~= cs@.take(i as int));
        if cs[i] == '\n' {
            let end = if i > start && cs[i - 1] == '\r' {
                i - 1
            } else {
                i
            };
            let line = text.substring_char(start, end).to_owned();
            let ghost old_out = out@;
            assert(line@ =~= strip_cr(cs@.subrange(start as int, i as int)));
            out.push(line);
            assert(views(out@) =~= views(old_out).push(line@));
            start = i + 1;
            i = i + 1;
            assert(cs@.subrange(start as int, i as int) =~= Seq::<char>::empty());
        } else {
            i = i + 1;
            assert(cs@.subrange(start as int, i as int) =~= cs@.subrange(start as int, i - 1).push(cs@[i - 1]));
        }
    }
    assert(cs@.take(n as int) =~= cs@);
    if start < n {
        let line = text.substring_char(start, n).to_owned();
        let ghost old_out = out@;
        out.push(line);
        assert(views(out@) =~= views(old_out).push(line@));
    }
    out
}

/// Parses the lines of a desktop entry file.
///
/// A line that starts with `[` is a header: it opens the interpreted
/// section when its text starts with `Desktop Entry`, and closes it
/// otherwise. Inside that section, a line that is not a comment and holds
/// an `=` gives a key and a value, each trimmed, and the first value of a
/// key wins. Every line is kept, in order, whatever it holds.
pub fn parse_desktop_lines(lines: Vec<String>) -> (doc: DesktopEntry)
    ensures
        doc.lines@ == lines@,
        doc.entries_view() == entry_pairs(views(lines@)),
{
    let ghost ls = views(lines@);
    let mut entries: Vec<(String, String)> = Vec::new();
    let mut in_entry = false;
    let mut i: usize = 0;
    while i < lines.len()
        invariant
            i <= lines@.len(),
            ls == views(lines@),
            in_entry == in_entry_after(ls.take(i as int)),
            pair_views(entries@) == entry_pairs(ls.take(i as int)),
        decreases lines@.len() - i,
    {
        let line = &lines[i];
        let ghost before = ls.take(i as int);
        assert(ls.take(i + 1).drop_last() =~= before);
        assert(ls.take(i + 1).last() == line@);
        let cs = chars_of(line.as_str());
        if cs.len() > 0 && cs[0] == '[' {
            in_entry = line_opens_entry(&cs);
        } else if in_entry {
            let a = skip_ws(&cs, 0, cs.len());
            assert(cs@.subrange(0, cs@.len() as int) =~= cs@);
            let comment = a < cs.len() && cs[a] == '#';
            if !comment {
                if let Some(p) = split_pair(line) {
                    let seen = find_value(&entries, &p.0);
                    if seen.is_none() {
                        let ghost old_entries = entries@;
                        entries.push(p);
                        assert(pair_views(entries@) =~= pair_views(old_entries).push((p.0@, p.1@)));
                    }
                }
            }
        }
        i = i + 1;
    }
    assert(ls.take(i as int) =~= ls);
    DesktopEntry { entries, lines }
}

/// Parses the text of a desktop entry file.
pub fn parse_desktop_text(text: &str) -> (doc: DesktopEntry)
    ensures
        doc.lines_view() == lines_of(text@),
        doc.entries_view() == entry_pairs(lines_of(text@)),
{
    parse_desktop_lines(split_lines(text))
}

} // verus!
