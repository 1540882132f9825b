//! Repair of an emitted IR module's metadata lines for an older dialect.

use vstd::prelude::*;
use crate::text::{occurs_at, replace, replace_all, views};

verus! {

/// What the repair inserts before every metadata sigil of a metadata line.
pub open spec fn sigil_keyword() -> Seq<char> {
    "metadata !"@
}

/// The qualified keyword that the repair collapses.
pub open spec fn distinct_keyword() -> Seq<char> {
    "distinct metadata"@
}

/// The keyword left in place of the qualified one.
pub open spec fn plain_keyword() -> Seq<char> {
    "metadata"@
}

/// A line of the module that begins with the metadata sigil.
pub open spec fn is_metadata_line(l: Seq<char>) -> bool {
    l.len() > 0 && l[0] == '!'
}

/// A line after the dialect repair: on a metadata line, `metadata ` goes
/// before every `!`, `distinct metadata` becomes `metadata`, and the
/// `metadata ` that now leads the line is dropped; other lines are kept.
pub open spec fn repaired_line(l: Seq<char>) -> Seq<char> {
    if is_metadata_line(l) {
        let marked = replace_all(l, seq!['!'], sigil_keyword());
        let collapsed = replace_all(marked, distinct_keyword(), plain_keyword());
        collapsed.subrange(9, collapsed.len() as int)
    } else {
        l
    }
}

/// The repaired module: each line repaired and ended by a newline.
pub open spec fn repaired_text(lines: Seq<Seq<char>>) -> Seq<char>
    decreases lines.len(),
{
    if lines.len() == 0 {
        Seq::empty()
    } else {
        repaired_text(lines.drop_last()) + repaired_line(lines.last()) + seq!['\n']
    }
}

/// With no occurrence of `pat` starting before `k`, the first `k`
/// characters pass through the replacement untouched.
pub proof fn lemma_replace_skips(s: Seq<char>, pat: Seq<char>, rep: Seq<char>, k: int)
    requires
        pat.len() > 0,
        0 <= k <= s.len(),
        forall|j: int| 0 <= j < k ==> !occurs_at(s, pat, j),
    ensures
        replace_all(s, pat, rep) == s.subrange(0, k) + replace_all(
            s.subrange(k, s.len() as int),
            pat,
            rep,
        ),
    decreases k,
{
    if k == 0 {
        assert(s.subrange(0, 0) + s.subrange(0, s.len() as int) =~= s);
    } else if s.len() < pat.len() {
        let t = s.subrange(k, s.len() as int);
        assert(s.subrange(0, k) + t =~= s);
    } else {
        assert(!occurs_at(s, pat, 0));
        let t = s.subrange(1, s.len() as int);
        assert forall|j: int| 0 <= j < k - 1 implies !occurs_at(t, pat, j) by {
            assert(!occurs_at(s, pat, j + 1));
            if j + pat.len() <= t.len() {
                assert(t.subrange(j, j + pat.len()) =~= s.subrange(j + 1, j + 1 + pat.len()));
            }
        }
        lemma_replace_skips(t, pat, rep, k - 1);
        assert(t.subrange(k - 1, t.len() as int) =~= s.subrange(k, s.len() as int));
        assert(seq![s[0]] + t.subrange(0, k - 1) =~= s.subrange(0, k));
    }
}

/// Where `pat` occurs nowhere in `s`, the replacement leaves `s` as it is.
proof fn lemma_replace_absent(s: Seq<char>, pat: Seq<char>, rep: Seq<char>)
    requires
        pat.len() > 0,
        forall|j: int| !occurs_at(s, pat, j),
    ensures
        replace_all(s, pat, rep) == s,
{
    lemma_replace_skips(s, pat, rep, s.len() as int);
    assert(s.subrange(0, s.len() as int) =~= s);
    assert(replace_all(s.subrange(s.len() as int, s.len() as int), pat, rep) =~= Seq::<char>::empty());
}

/// Text that starts with `pat` has its first occurrence replaced.
proof fn lemma_replace_leading(t: Seq<char>, pat: Seq<char>, rep: Seq<char>)
    requires
        pat.len() > 0,
    ensures
        replace_all(pat + t, pat, rep) == rep + replace_all(t, pat, rep),
{
    let s = pat + t;
    assert(s.subrange(0, pat.len() as int) =~= pat);
    assert(s.subrange(pat.len() as int, s.len() as int) =~= t);
}

/// Where no occurrence of `pat` starts in `a`, the replacement passes `a`
/// through and goes on with `b`.
proof fn lemma_replace_after(a: Seq<char>, b: Seq<char>, pat: Seq<char>, rep: Seq<char>)
    requires
        pat.len() > 0,
        forall|j: int| 0 <= j < a.len() ==> !occurs_at(a + b, pat, j),
    ensures
        replace_all(a + b, pat, rep) == a + replace_all(b, pat, rep),
{
    let s = a + b;
    lemma_replace_skips(s, pat, rep, a.len() as int);
    assert(s.subrange(0, a.len() as int) =~= a);
    assert(s.subrange(a.len() as int, s.len() as int) =~= b);
}

/// An occurrence of `p` at `j` puts the first character of `p` at `j`.
proof fn lemma_occurs_first(s: Seq<char>, p: Seq<char>, j: int)
    requires
        p.len() > 0,
        occurs_at(s, p, j),
    ensures
        s[j] == p[0],
{
    assert(s.subrange(j, j + p.len())[0] == p[0]);
}

/// The keyword inserted before a leading sigil is never taken for part of
/// the qualified keyword.
proof fn lemma_keyword_kept(x: Seq<char>)
    ensures
        replace_all(sigil_keyword() + x, distinct_keyword(), plain_keyword()) == sigil_keyword()
            + replace_all(x, distinct_keyword(), plain_keyword()),
{
    reveal_strlit("metadata !");
    reveal_strlit("distinct metadata");
    let s = sigil_keyword() + x;
    let d = distinct_keyword();
    assert forall|j: int| 0 <= j < 10 implies !occurs_at(s, d, j) by {
        if occurs_at(s, d, j) {
            assert(s.subrange(j, j + d.len())[0] == d[0]);
            assert(s.subrange(j, j + d.len())[1] == d[1]);
        }
    }
    lemma_replace_skips(s, d, plain_keyword(), 10);
    assert(s.subrange(0, 10) =~= sigil_keyword());
    assert(s.subrange(10, s.len() as int) =~= x);
}

/// A metadata line after repair: its sigil, then the rest of the line with
/// the keyword inserted and the qualifier collapsed.
pub proof fn lemma_metadata_line_shape(l: Seq<char>)
    requires
        is_metadata_line(l),
    ensures
        repaired_line(l) == seq!['!'] + replace_all(
            replace_all(l.drop_first(), seq!['!'], sigil_keyword()),
            distinct_keyword(),
            plain_keyword(),
        ),
{
    reveal_strlit("metadata !");
    let marked = replace_all(l, seq!['!'], sigil_keyword());
    assert(l.subrange(0, 1) =~= seq!['!']);
    assert(l.subrange(1, l.len() as int) =~= l.drop_first());
    let rest = replace_all(l.drop_first(), seq!['!'], sigil_keyword());
    assert(marked == sigil_keyword() + rest);
    lemma_keyword_kept(rest);
    let tail = replace_all(rest, distinct_keyword(), plain_keyword());
    let collapsed = sigil_keyword() + tail;
    assert(collapsed.subrange(9, collapsed.len() as int) =~= seq!['!'] + tail);
}

/// On a metadata line `!<label>distinct !<rest>`, where neither part holds
/// a sigil, the label holds no `d` and the rest no `distinct metadata`, the
/// repair drops the `distinct` qualifier: the line becomes
/// `!<label>metadata !<rest>`.
pub proof fn law_distinct_qualifier_dropped(label: Seq<char>, rest: Seq<char>)
    requires
        forall|j: int| 0 <= j < label.len() ==> label[j] != '!' && label[j] != 'd',
        forall|j: int| 0 <= j < rest.len() ==> rest[j] != '!',
        forall|j: int| !occurs_at(rest, distinct_keyword(), j),
    ensures
        repaired_line(seq!['!'] + label + "distinct !"@ + rest) == seq!['!'] + label
            + "metadata !"@ + rest,
{
    reveal_strlit("distinct !");
    reveal_strlit("metadata !");
    reveal_strlit("distinct metadata");
    reveal_strlit("metadata");
    let bang = seq!['!'];
    let k = sigil_keyword();
    let d = distinct_keyword();
    let m = plain_keyword();
    let qualifier = seq!['d', 'i', 's', 't', 'i', 'n', 'c', 't', ' '];
    let l = bang + label + "distinct !"@ + rest;
    assert(l[0] == '!');
    assert(l.drop_first() =~= label + (qualifier + (bang + rest)));
    lemma_metadata_line_shape(l);

    // The keyword goes before the one inner sigil.
    assert forall|j: int| 0 <= j < rest.len() implies !occurs_at(rest, bang, j) by {
        if occurs_at(rest, bang, j) {
            lemma_occurs_first(rest, bang, j);
        }
    }
    lemma_replace_absent(rest, bang, k);
    lemma_replace_leading(rest, bang, k);
    let tail = bang + rest;
    assert forall|j: int| 0 <= j < qualifier.len() implies !occurs_at(qualifier + tail, bang, j) by {
        if occurs_at(qualifier + tail, bang, j) {
            lemma_occurs_first(qualifier + tail, bang, j);
        }
    }
    lemma_replace_after(qualifier, tail, bang, k);
    assert forall|j: int| 0 <= j < label.len() implies !occurs_at(
        label + (qualifier + tail),
        bang,
        j,
    ) by {
        if occurs_at(label + (qualifier + tail), bang, j) {
            lemma_occurs_first(label + (qualifier + tail), bang, j);
        }
    }
    lemma_replace_after(label, qualifier + tail, bang, k);
    let marked = label + (qualifier + (k + rest));
    assert(replace_all(l.drop_first(), bang, k) == marked);

    // The qualified keyword collapses; nothing else matches.
    let after = seq![' ', '!'];
    assert(qualifier + (k + rest) =~= d + (after + rest));
    assert forall|j: int| 0 <= j < label.len() implies !occurs_at(label + (d + (after + rest)), d, j) by {
        if occurs_at(label + (d + (after + rest)), d, j) {
            lemma_occurs_first(label + (d + (after + rest)), d, j);
        }
    }
    lemma_replace_after(label, d + (after + rest), d, m);
    lemma_replace_leading(after + rest, d, m);
    assert forall|j: int| 0 <= j < after.len() implies !occurs_at(after + rest, d, j) by {
        if occurs_at(after + rest, d, j) {
            lemma_occurs_first(after + rest, d, j);
        }
    }
    lemma_replace_after(after, rest, d, m);
    lemma_replace_absent(rest, d, m);
    assert(bang + (label + (m + (after + rest))) =~= bang + label + k + rest);
}

/// The line after the dialect repair.
pub fn repair_line(line: &str) -> (r: String)
    ensures
        r@ == repaired_line(line@),
{
    if line.unicode_len() > 0 && line.get_char(0) == '!' {
        proof {
            reveal_strlit("!");
            reveal_strlit("metadata !");
            reveal_strlit("distinct metadata");
            reveal_strlit("metadata");
            assert("!"@ =~= seq!['!']);
        }
        let marked = replace(line, "!", "metadata !");
        let collapsed = replace(marked.as_str(), "distinct metadata", "metadata");
        proof {
            lemma_metadata_line_shape(line@);
            let rest = replace_all(line@.drop_first(), seq!['!'], sigil_keyword());
            assert(line@.subrange(0, 1) =~= seq!['!']);
            assert(line@.subrange(1, line@.len() as int) =~= line@.drop_first());
            assert(marked@ == sigil_keyword() + rest);
            lemma_keyword_kept(rest);
        }
        let n = collapsed.unicode_len();
        String::from_str(collapsed.as_str().substring_char(9, n))
    } else {
        String::from_str(line)
    }
}

/// The whole module after the dialect repair, from its lines: every line
/// repaired and ended by a newline.
pub fn repair_module(lines: &Vec<String>) -> (r: String)
    ensures
        r@ == repaired_text(views(lines@)),
{
    let mut out = String::new();
    let mut i: usize = 0;
    while i < lines.len()
        invariant
            i <= lines@.len(),
            out@ == repaired_text(views(lines@.subrange(0, i as int))),
        decreases lines@.len() - i,
    {
        let fixed = repair_line(lines[i].as_str());
        let ghost before = out@;
        out.append(fixed.as_str());
        out.append("\n");
        proof {
            reveal_strlit("\n");
            let done = views(lines@.subrange(0, i + 1));
            assert(done.drop_last() =~= views(lines@.subrange(0, i as int)));
            assert(done.last() == lines@[i as int]@);
            assert(out@ =~= before + repaired_line(lines@[i as int]@) + seq!['\n']);
        }
        i = i + 1;
    }
    assert(lines@.subrange(0, lines@.len() as int) =~= lines@);
    out
}

/// The repair leaves every line that does not begin with the metadata sigil
/// as it is, so repeating it changes such a line no further.
pub proof fn law_plain_lines_kept(l: Seq<char>)
    requires
        !is_metadata_line(l),
    ensures
        repaired_line(l) == l,
        repaired_line(repaired_line(l)) == repaired_line(l),
{
}

/// A metadata line whose only sigil is the leading one, and which holds no
/// `distinct metadata`, comes out of the repair as it went in.
pub proof fn law_bare_metadata_line_kept(l: Seq<char>)
    requires
        is_metadata_line(l),
        forall|j: int| 1 <= j < l.len() ==> l[j] != '!',
        forall|j: int| !occurs_at(l, distinct_keyword(), j),
    ensures
        repaired_line(l) == l,
{
    reveal_strlit("distinct metadata");
    lemma_metadata_line_shape(l);
    let rest = l.drop_first();
    assert forall|j: int| 0 <= j < rest.len() implies !occurs_at(rest, seq!['!'], j) by {
        if occurs_at(rest, seq!['!'], j) {
            assert(rest.subrange(j, j + 1)[0] == '!');
        }
    }
    lemma_replace_skips(rest, seq!['!'], sigil_keyword(), rest.len() as int);
    assert(rest.subrange(0, rest.len() as int) =~= rest);
    assert(replace_all(rest.subrange(rest.len() as int, rest.len() as int), seq!['!'], sigil_keyword())
        =~= Seq::<char>::empty());
    assert(replace_all(rest, seq!['!'], sigil_keyword()) =~= rest);
    let d = distinct_keyword();
    assert forall|j: int| 0 <= j < rest.len() implies !occurs_at(rest, d, j) by {
        assert(!occurs_at(l, d, j + 1));
        if j + d.len() <= rest.len() {
            assert(rest.subrange(j, j + d.len()) =~= l.subrange(j + 1, j + 1 + d.len()));
        }
    }
    lemma_replace_skips(rest, d, plain_keyword(), rest.len() as int);
    assert(replace_all(rest.subrange(rest.len() as int, rest.len() as int), d, plain_keyword())
        =~= Seq::<char>::empty());
    assert(replace_all(rest, d, plain_keyword()) =~= rest);
    assert(seq!['!'] + rest =~= l);
}

} // verus!
