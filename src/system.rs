use vstd::prelude::*;
use crate::text::{chars_of, lemma_split_nonempty, push_char, split_on, split_text};

verus! {

/// A line without the carriage return that ended it.
pub open spec fn strip_cr(line: Seq<char>) -> Seq<char> {
    if line.len() > 0 && line.last() == '\r' {
        line.drop_last()
    } else {
        line
    }
}

/// The lines of a text: split at each newline, a carriage return before a newline
/// dropped, and no empty last line after a final newline.
pub open spec fn lines_of(s: Seq<char>) -> Seq<Seq<char>> {
    let parts = split_on(s, '\n');
    let ended = parts.subrange(0, parts.len() - 1).map_values(|p: Seq<char>| strip_cr(p));
    if parts.last().len() == 0 {
        ended
    } else {
        ended.push(parts.last())
    }
}

/// A value without the double quotes at its start and its end.
pub open spec fn trim_quotes(v: Seq<char>) -> Seq<char>
    decreases v.len(),
{
    if v.len() > 0 && v[0] == '"' {
        trim_quotes(v.drop_first())
    } else if v.len() > 0 && v.last() == '"' {
        trim_quotes(v.drop_last())
    } else {
        v
    }
}

pub open spec fn has_prefix(line: Seq<char>, prefix: Seq<char>) -> bool {
    prefix.len() <= line.len() && line.subrange(0, prefix.len() as int) == prefix
}

/// The value of the first line that starts with `key`, without surrounding quotes.
pub open spec fn first_value(lines: Seq<Seq<char>>, key: Seq<char>) -> Option<Seq<char>>
    decreases lines.len(),
{
    if lines.len() == 0 {
        None
    } else if has_prefix(lines[0], key) {
        Some(trim_quotes(lines[0].subrange(key.len() as int, lines[0].len() as int)))
    } else {
        first_value(lines.drop_first(), key)
    }
}

/// The distribution's name as an os-release text gives it.
pub open spec fn pretty_name_of(os_release: Seq<char>) -> Option<Seq<char>> {
    first_value(lines_of(os_release), "PRETTY_NAME="@)
}

/// The lines of a text, each as its characters.
fn lines(s: &str) -> (r: Vec<Vec<char>>)
    ensures
        r@.map_values(|l: Vec<char>| l@) == lines_of(s@),
{
    let parts = split_text(s, '\n');
    let ghost pv = parts@.map_values(|p: String| p@);
    proof {
        lemma_split_nonempty(s@, '\n');
    }
    let n = parts.len();
    let mut r: Vec<Vec<char>> = Vec::new();
    let mut i: usize = 0;
    while i + 1 < n
        invariant
            pv == parts@.map_values(|p: String| p@),
            pv == split_on(s@, '\n'),
            n == parts@.len(),
            n >= 1,
            i < n,
            r@.map_values(|l: Vec<char>| l@) == pv.subrange(0, i as int).map_values(
                |p: Seq<char>| strip_cr(p),
            ),
        decreases n - i,
    {
        let mut line = chars_of(parts[i].as_str());
        let len = line.len();
        if len > 0 && line[len - 1] == '\r' {
            line.pop();
        }
        proof {
            assert(pv[i as int] == parts@[i as int]@);
        }
        let ghost before = r@.map_values(|l: Vec<char>| l@);
        r.push(line);
        proof {
            assert(r@.map_values(|l: Vec<char>| l@) =~= before.push(strip_cr(pv[i as int])));
            assert(pv.subrange(0, i + 1).map_values(|p: Seq<char>| strip_cr(p)) =~= pv.subrange(
                0,
                i as int,
            ).map_values(|p: Seq<char>| strip_cr(p)).push(strip_cr(pv[i as int])));
        }
        i = i + 1;
    }
    let last = chars_of(parts[n - 1].as_str());
    proof {
        assert(pv[n - 1] == parts@[n - 1]@);
        assert(i == n - 1);
    }
    if last.len() > 0 {
        let ghost before = r@.map_values(|l: Vec<char>| l@);
        r.push(last);
        proof {
            assert(r@.map_values(|l: Vec<char>| l@) =~= before.push(last@));
        }
    }
    r
}

proof fn lemma_trim_leading(v: Seq<char>, a: int)
    requires
        0 <= a <= v.len(),
        forall|k: int| 0 <= k < a ==> v[k] == '"',
    ensures
        trim_quotes(v) == trim_quotes(v.subrange(a, v.len() as int)),
    decreases a,
{
    if a > 0 {
        assert(v.drop_first().subrange(a - 1, v.len() - 1) =~= v.subrange(a, v.len() as int));
        lemma_trim_leading(v.drop_first(), a - 1);
    } else {
        assert(v.subrange(0, v.len() as int) =~= v);
    }
}

proof fn lemma_trim_trailing(w: Seq<char>, b: int)
    requires
        0 <= b <= w.len(),
        w.len() > 0 ==> w[0] != '"',
        forall|k: int| b <= k < w.len() ==> w[k] == '"',
        b > 0 ==> w[b - 1] != '"',
    ensures
        trim_quotes(w) == w.subrange(0, b),
    decreases w.len() - b,
{
    if b < w.len() {
        assert(w.drop_last().subrange(0, b) =~= w.subrange(0, b));
        if b == 0 {
            assert(w[0] == '"');
        }
        lemma_trim_trailing(w.drop_last(), b);
    } else {
        assert(w.subrange(0, b) =~= w);
    }
}

fn text_of(v: &Vec<char>, from: usize, to: usize) -> (r: String)
    requires
        from <= to <= v@.len(),
    ensures
        r@ == v@.subrange(from as int, to as int),
{
    let mut r = String::new();
    let mut i: usize = from;
    while i < to
        invariant
            from <= i <= to <= v@.len(),
            r@ == v@.subrange(from as int, i as int),
        decreases to - i,
    {
        push_char(&mut r, v[i]);
        i = i + 1;
        assert(r@ =~= v@.subrange(from as int, i as int));
    }
    r
}

/// The quoted value that follows `key` at the start of `line`, if it starts with it.
fn value_after(line: &Vec<char>, key: &Vec<char>) -> (r: Option<String>)
    ensures
        has_prefix(line@, key@) ==> (r matches Some(v) && v@ == trim_quotes(
            line@.subrange(key@.len() as int, line@.len() as int),
        )),
        !has_prefix(line@, key@) ==> r is None,
{
    let k = key.len();
    let n = line.len();
    if k > n {
        return None;
    }
    let mut j: usize = 0;
    while j < k
        invariant
            k == key@.len(),
            n == line@.len(),
            k <= n,
            j <= k,
            forall|m: int| 0 <= m < j ==> line@[m] == key@[m],
        decreases k - j,
    {
        if line[j] != key[j] {
            assert(line@.subrange(0, k as int)[j as int] != key@[j as int]);
            return None;
        }
        j = j + 1;
    }
    assert(line@.subrange(0, k as int) =~= key@);
    let ghost v = line@.subrange(k as int, n as int);
    let mut a: usize = k;
    while a < n && line[a] == '"'
        invariant
            k <= a <= n,
            n == line@.len(),
            v == line@.subrange(k as int, n as int),
            forall|m: int| k <= m < a ==> line@[m] == '"',
        decreases n - a,
    {
        a = a + 1;
    }
    let mut b: usize = n;
    while b > a && line[b - 1] == '"'
        invariant
            a <= b <= n,
            n == line@.len(),
            forall|m: int| b <= m < n ==> line@[m] == '"',
        decreases b,
    {
        b = b - 1;
    }
    proof {
        lemma_trim_leading(v, a - k);
        let w = v.subrange(a - k, v.len() as int);
        assert(w =~= line@.subrange(a as int, n as int));
        lemma_trim_trailing(w, b - a);
        assert(w.subrange(0, b - a) =~= line@.subrange(a as int, b as int));
    }
    Some(text_of(line, a, b))
}

/// The distribution's name given by the first `PRETTY_NAME=` line of an os-release
/// text, without its quotes.
pub fn pretty_name(os_release: &str) -> (r: Option<String>)
    ensures
        r matches Some(v) ==> pretty_name_of(os_release@) == Some(v@),
        r is None ==> pretty_name_of(os_release@) is None,
{
    let all = lines(os_release);
    let key = chars_of("PRETTY_NAME=");
    let ghost ls = all@.map_values(|l: Vec<char>| l@);
    proof {
        assert(ls.subrange(0, ls.len() as int) =~= ls);
    }
    let mut i: usize = 0;
    while i < all.len()
        invariant
            ls == all@.map_values(|l: Vec<char>| l@),
            ls == lines_of(os_release@),
            key@ == "PRETTY_NAME="@,
            i <= all@.len(),
            first_value(ls, key@) == first_value(ls.subrange(i as int, ls.len() as int), key@),
        decreases all@.len() - i,
    {
        let ghost rest = ls.subrange(i as int, ls.len() as int);
        proof {
            assert(rest[0] == all@[i as int]@);
            assert(rest.drop_first() =~= ls.subrange(i + 1, ls.len() as int));
        }
        match value_after(&all[i], &key) {
            Some(v) => {
                return Some(v);
            },
            None => {},
        }
        i = i + 1;
    }
    proof {
        assert(ls.subrange(i as int, ls.len() as int).len() == 0);
    }
    None
}

} // verus!
