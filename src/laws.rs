use vstd::prelude::*;
use crate::desktop_entry::{
    entry_label, entry_pairs, in_entry_after, is_comment, is_first_eq, is_header, line_pair,
    line_scan, lines_of, lookup, opens_entry, pair_after, strip_cr,
};
use crate::text::{is_ws, trim, trim_start};

verus! {

/// Once a key has a value, no line that follows can change it: the first
/// occurrence of a key inside the section wins over every later one.
pub proof fn lemma_first_value_wins(lines: Seq<Seq<char>>, more: Seq<Seq<char>>, key: Seq<char>)
    requires
        lookup(entry_pairs(lines), key) is Some,
    ensures
        lookup(entry_pairs(lines + more), key) == lookup(entry_pairs(lines), key),
    decreases more.len(),
{
    if more.len() == 0 {
        assert(lines + more =~= lines);
    } else {
        let shorter = more.drop_last();
        lemma_first_value_wins(lines, shorter, key);
        assert((lines + more).drop_last() =~= lines + shorter);
        let prev = entry_pairs(lines + shorter);
        assert forall|p: (Seq<char>, Seq<char>)| lookup(#[trigger] prev.push(p), key) == lookup(prev, key) by {
            assert(prev.push(p).drop_last() =~= prev);
        }
    }
}

/// Lines read before any header that opens `[Desktop Entry]` give no pair,
/// whatever other sections they belong to.
pub proof fn lemma_outside_entry_ignored(lines: Seq<Seq<char>>)
    requires
        forall|i: int| 0 <= i < lines.len() ==> !opens_entry(#[trigger] lines[i]),
    ensures
        entry_pairs(lines) == Seq::<(Seq<char>, Seq<char>)>::empty(),
        !in_entry_after(lines),
    decreases lines.len(),
{
    if lines.len() > 0 {
        let before = lines.drop_last();
        assert forall|i: int| 0 <= i < before.len() implies !opens_entry(#[trigger] before[i]) by {
            assert(before[i] == lines[i]);
        }
        lemma_outside_entry_ignored(before);
        assert(!opens_entry(lines[lines.len() - 1]));
    }
}

/// A comment line gives no pair and leaves the parser in the section it
/// was in.
pub proof fn lemma_comment_ignored(lines: Seq<Seq<char>>, l: Seq<char>)
    requires
        is_comment(l),
    ensures
        entry_pairs(lines.push(l)) == entry_pairs(lines),
        in_entry_after(lines.push(l)) == in_entry_after(lines),
{
    assert(lines.push(l).drop_last() =~= lines);
    if is_header(l) {
        assert(trim_start(l) == l);
    }
}

/// The text of `ls` written out, each line followed by a line feed.
pub open spec fn joined(ls: Seq<Seq<char>>) -> Seq<char>
    decreases ls.len(),
{
    if ls.len() == 0 {
        Seq::empty()
    } else {
        joined(ls.drop_last()) + ls.last().push('\n')
    }
}

/// `l` holds no line feed.
pub open spec fn no_lf(l: Seq<char>) -> bool {
    forall|j: int| 0 <= j < l.len() ==> l[j] != '\n'
}

proof fn lemma_scan_append(s: Seq<char>, l: Seq<char>)
    requires
        no_lf(l),
    ensures
        line_scan(s + l) == (line_scan(s).0, line_scan(s).1 + l),
    decreases l.len(),
{
    if l.len() == 0 {
        assert(s + l =~= s);
        assert(line_scan(s).1 + l =~= line_scan(s).1);
    } else {
        let k = l.drop_last();
        lemma_scan_append(s, k);
        assert((s + l).drop_last() =~= s + k);
        assert(line_scan(s).1 + k.push(l.last()) =~= line_scan(s).1 + l);
        assert(l == k.push(l.last()));
    }
}

proof fn lemma_scan_joined(ls: Seq<Seq<char>>)
    requires
        forall|i: int| 0 <= i < ls.len() ==> no_lf(#[trigger] ls[i]),
    ensures
        line_scan(joined(ls)) == (ls.map_values(|l: Seq<char>| strip_cr(l)), Seq::<char>::empty()),
    decreases ls.len(),
{
    if ls.len() > 0 {
        let before = ls.drop_last();
        let l = ls.last();
        assert forall|i: int| 0 <= i < before.len() implies no_lf(#[trigger] before[i]) by {
            assert(before[i] == ls[i]);
        }
        lemma_scan_joined(before);
        assert(no_lf(ls[ls.len() - 1]));
        lemma_scan_append(joined(before), l);
        let s = joined(before) + l;
        assert(joined(ls) =~= s.push('\n'));
        assert(s.push('\n').drop_last() =~= s);
        assert(Seq::<char>::empty() + l =~= l);
        assert(ls.map_values(|l: Seq<char>| strip_cr(l)) =~= before.map_values(
            |l: Seq<char>| strip_cr(l),
        ).push(strip_cr(l)));
    }
}

proof fn lemma_scan_no_lf(s: Seq<char>)
    ensures
        forall|i: int| 0 <= i < line_scan(s).0.len() ==> no_lf(#[trigger] line_scan(s).0[i]),
        no_lf(line_scan(s).1),
    decreases s.len(),
{
    if s.len() > 0 {
        lemma_scan_no_lf(s.drop_last());
        let (done, cur) = line_scan(s.drop_last());
        if s.last() == '\n' {
            assert(no_lf(strip_cr(cur)));
            assert forall|i: int| 0 <= i < done.push(strip_cr(cur)).len() implies no_lf(
                #[trigger] done.push(strip_cr(cur))[i],
            ) by {
                if i < done.len() {
                    assert(done.push(strip_cr(cur))[i] == done[i]);
                }
            }
        } else {
            assert(no_lf(cur.push(s.last())));
        }
    }
}

proof fn lemma_lines_no_lf(s: Seq<char>)
    ensures
        forall|i: int| 0 <= i < lines_of(s).len() ==> no_lf(#[trigger] lines_of(s)[i]),
{
    lemma_scan_no_lf(s);
    let (done, cur) = line_scan(s);
    if cur.len() > 0 {
        assert forall|i: int| 0 <= i < done.push(cur).len() implies no_lf(#[trigger] done.push(cur)[i]) by {
            if i < done.len() {
                assert(done.push(cur)[i] == done[i]);
            }
        }
    }
}

proof fn lemma_trim_start_push_ws(v: Seq<char>, c: char)
    requires
        is_ws(c),
    ensures
        trim_start(v).len() == 0 ==> trim_start(v.push(c)).len() == 0,
        trim_start(v).len() > 0 ==> trim_start(v.push(c)) == trim_start(v).push(c),
    decreases v.len(),
{
    if v.len() == 0 {
        assert(v.push(c).drop_first() =~= v);
    } else if is_ws(v[0]) {
        lemma_trim_start_push_ws(v.drop_first(), c);
        assert(v.push(c).drop_first() =~= v.drop_first().push(c));
    }
}

proof fn lemma_trim_push_ws(v: Seq<char>, c: char)
    requires
        is_ws(c),
    ensures
        trim(v.push(c)) == trim(v),
{
    lemma_trim_start_push_ws(v, c);
    let t = trim_start(v);
    if t.len() > 0 {
        assert(t.push(c).drop_last() =~= t);
    }
}

proof fn lemma_strip_cr_line(l: Seq<char>)
    ensures
        is_header(strip_cr(l)) == is_header(l),
        opens_entry(strip_cr(l)) == opens_entry(l),
        is_comment(strip_cr(l)) == is_comment(l),
        line_pair(strip_cr(l)) == line_pair(l),
{
    if l.len() > 0 && l.last() == '\r' {
        let m = l.drop_last();
        assert(l == m.push('\r'));
        if m.len() >= 14 {
            assert(l.subrange(1, 14) =~= m.subrange(1, 14));
        } else if m.len() == 13 {
            assert(l.subrange(1, 14)[12] != entry_label()[12]);
        }
        lemma_trim_start_push_ws(m, '\r');
        assert forall|i: int| is_first_eq(l, i) <==> is_first_eq(m, i) by {
            if is_first_eq(l, i) {
                assert(i < m.len());
                assert forall|j: int| 0 <= j < i implies m[j] != '=' by {
                    assert(m[j] == l[j]);
                }
            }
            if is_first_eq(m, i) {
                assert forall|j: int| 0 <= j < i implies l[j] != '=' by {
                    assert(m[j] == l[j]);
                }
            }
        }
        if exists|i: int| is_first_eq(m, i) {
            let i = choose|i: int| is_first_eq(m, i);
            let k = choose|i: int| is_first_eq(l, i);
            assert(i == k) by {
                if i < k {
                    assert(l[i] == m[i]);
                } else if k < i {
                    assert(l[k] == m[k]);
                }
            }
            assert(l.take(i) =~= m.take(i));
            assert(l.skip(i + 1) =~= m.skip(i + 1).push('\r'));
            lemma_trim_push_ws(m.skip(i + 1), '\r');
        }
    }
}

proof fn lemma_strip_cr_pairs(ls: Seq<Seq<char>>)
    ensures
        entry_pairs(ls.map_values(|l: Seq<char>| strip_cr(l))) == entry_pairs(ls),
        in_entry_after(ls.map_values(|l: Seq<char>| strip_cr(l))) == in_entry_after(ls),
    decreases ls.len(),
{
    let ms = ls.map_values(|l: Seq<char>| strip_cr(l));
    if ls.len() > 0 {
        let before = ls.drop_last();
        lemma_strip_cr_pairs(before);
        assert(ms.drop_last() =~= before.map_values(|l: Seq<char>| strip_cr(l)));
        assert(ms.last() == strip_cr(ls.last()));
        lemma_strip_cr_line(ls.last());
        assert(pair_after(ms.drop_last(), ms.last()) == pair_after(before, ls.last()));
    }
}

/// Writing the lines of a parsed text back out, each followed by a line
/// feed, and parsing that text again gives the same key/value pairs.
pub proof fn lemma_reparse_written_lines(text: Seq<char>)
    ensures
        entry_pairs(lines_of(joined(lines_of(text)))) == entry_pairs(lines_of(text)),
{
    let ls = lines_of(text);
    lemma_lines_no_lf(text);
    lemma_scan_joined(ls);
    lemma_strip_cr_pairs(ls);
}

} // verus!
