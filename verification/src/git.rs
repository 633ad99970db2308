use vstd::prelude::*;

use crate::error::Error;
use crate::text::{chars_of, contains_text, texts, trim_text, trimmed};

verus! {

/// The length of the text before its first newline (all of it if none).
pub open spec fn first_newline(s: Seq<char>) -> int
    decreases s.len(),
{
    if s.len() == 0 {
        0
    } else if s[0] == '\n' {
        0
    } else {
        1 + first_newline(s.drop_first())
    }
}

/// `first_newline` is the index of the first newline, or the length if none.
pub proof fn lemma_first_newline(s: Seq<char>)
    ensures
        0 <= first_newline(s) <= s.len(),
        forall|i: int| 0 <= i < first_newline(s) ==> s[i] != '\n',
        first_newline(s) < s.len() ==> s[first_newline(s)] == '\n',
    decreases s.len(),
{
    if s.len() > 0 && s[0] != '\n' {
        lemma_first_newline(s.drop_first());
        assert forall|i: int| 0 <= i < first_newline(s) implies s[i] != '\n' by {
            if i > 0 {
                assert(s[i] == s.drop_first()[i - 1]);
            }
        }
    }
}

/// A line without the carriage return of a `\r\n` ending.
pub open spec fn without_cr(line: Seq<char>) -> Seq<char> {
    if line.len() > 0 && line.last() == '\r' {
        line.drop_last()
    } else {
        line
    }
}

/// The lines of a text as `str::lines` yields them: split at `\n` or `\r\n`,
/// with no empty line after a final line ending; a `\r` of a last line without
/// `\n` stays.
pub open spec fn lines_of(s: Seq<char>) -> Seq<Seq<char>>
    decreases s.len(),
{
    if s.len() == 0 {
        Seq::empty()
    } else {
        let k = first_newline(s);
        if k >= s.len() {
            seq![s]
        } else {
            proof {
                lemma_first_newline(s);
            }
            seq![without_cr(s.take(k))] + lines_of(s.skip(k + 1))
        }
    }
}

/// An index before which no newline stands and at which one does (or the
/// length) is `first_newline`.
pub proof fn lemma_first_newline_is(s: Seq<char>, k: int)
    requires
        0 <= k <= s.len(),
        forall|j: int| 0 <= j < k ==> s[j] != '\n',
        k < s.len() ==> s[k] == '\n',
    ensures
        first_newline(s) == k,
    decreases s.len(),
{
    if s.len() > 0 && k > 0 {
        assert forall|j: int| 0 <= j < k - 1 implies s.drop_first()[j] != '\n' by {
            assert(s.drop_first()[j] == s[j + 1]);
        }
        lemma_first_newline_is(s.drop_first(), k - 1);
    }
}

/// No line holds a newline, so each line names one file.
pub proof fn lemma_lines_hold_no_newline(s: Seq<char>)
    ensures
        forall|i: int| 0 <= i < lines_of(s).len() ==> !(#[trigger] lines_of(s)[i]).contains('\n'),
    decreases s.len(),
{
    if s.len() > 0 {
        lemma_first_newline(s);
        let k = first_newline(s);
        if k < s.len() {
            lemma_lines_hold_no_newline(s.skip(k + 1));
            let first = without_cr(s.take(k));
            assert(!first.contains('\n')) by {
                if first.contains('\n') {
                    let j = choose|j: int| 0 <= j < first.len() && first[j] == '\n';
                    assert(s[j] == '\n');
                }
            }
            let rest = lines_of(s.skip(k + 1));
            assert forall|i: int| 0 <= i < lines_of(s).len() implies !(
            #[trigger] lines_of(s)[i]).contains('\n') by {
                if i > 0 {
                    assert(lines_of(s)[i] == rest[i - 1]);
                }
            }
        } else {
            assert forall|i: int| 0 <= i < lines_of(s).len() implies !(
            #[trigger] lines_of(s)[i]).contains('\n') by {
                assert(lines_of(s)[i] == s);
                if s.contains('\n') {
                    let j = choose|j: int| 0 <= j < s.len() && s[j] == '\n';
                }
            }
        }
    }
}

/// The lines of `text` (the output of git, one file name per line).
pub fn split_lines(text: &str) -> (res: Vec<String>)
    ensures
        texts(res@) == lines_of(text@),
{
    let cs = chars_of(text);
    let n: usize = cs.len();
    let mut res: Vec<String> = Vec::new();
    let mut start: usize = 0;
    let mut i: usize = 0;
    assert(cs@.skip(0) =~= cs@);
    // `start` begins the current line; `i` scans it for its newline.
    while i < n
        invariant
            n == cs@.len(),
            cs@ == text@,
            start <= i <= n,
            forall|j: int| start <= j < i ==> cs@[j] != '\n',
            texts(res@) + lines_of(cs@.skip(start as int)) == lines_of(text@),
        decreases n - i,
    {
        if cs[i] == '\n' {
            let ghost rest = cs@.skip(start as int);
            let ghost k = i - start;
            let ghost before = res@;
            proof {
                assert(rest[k] == '\n');
                assert forall|j: int| 0 <= j < k implies rest[j] != '\n' by {
                    assert(rest[j] == cs@[start + j]);
                }
                lemma_first_newline_is(rest, k);
                assert(rest.skip(k + 1) =~= cs@.skip(i + 1));
            }
            let mut end = i;
            if end > start && cs[end - 1] == '\r' {
                end = end - 1;
            }
            let line = String::from_str(text.substring_char(start, end));
            proof {
                assert(line@ =~= without_cr(rest.take(k)));
            }
            res.push(line);
            proof {
                assert(texts(res@) =~= texts(before).push(line@));
                assert(texts(res@) + lines_of(cs@.skip(i + 1)) =~= texts(before) + lines_of(rest));
            }
            start = i + 1;
        }
        i = i + 1;
    }
    if start < n {
        let ghost rest = cs@.skip(start as int);
        let ghost before = res@;
        proof {
            assert forall|j: int| 0 <= j < rest.len() implies rest[j] != '\n' by {
                assert(rest[j] == cs@[start + j]);
            }
            lemma_first_newline_is(rest, rest.len() as int);
        }
        let line = String::from_str(text.substring_char(start, n));
        proof {
            assert(line@ =~= rest);
        }
        res.push(line);
        proof {
            assert(texts(res@) =~= texts(before).push(line@));
            assert(texts(res@) =~= texts(before) + lines_of(rest));
        }
    } else {
        proof {
            assert(cs@.skip(start as int) =~= Seq::<char>::empty());
            assert(texts(res@) + lines_of(cs@.skip(start as int)) =~= texts(res@));
        }
    }
    res
}

} // verus!

verus! {

/// The entries of `local` that `remote` holds too, each once, in the order of
/// `local`.
pub open spec fn common(local: Seq<Seq<char>>, remote: Seq<Seq<char>>) -> Seq<Seq<char>>
    decreases local.len(),
{
    if local.len() == 0 {
        Seq::empty()
    } else {
        let c = common(local.drop_last(), remote);
        let x = local.last();
        if remote.contains(x) && !c.contains(x) {
            c.push(x)
        } else {
            c
        }
    }
}

/// The files changed on both sides are exactly those in both lists, each once;
/// so there is no conflict exactly when the lists share no file.
pub proof fn lemma_common(local: Seq<Seq<char>>, remote: Seq<Seq<char>>)
    ensures
        common(local, remote).no_duplicates(),
        forall|x: Seq<char>| #[trigger]
            common(local, remote).contains(x) <==> (local.contains(x) && remote.contains(x)),
        common(local, remote).len() == 0 <==> (forall|x: Seq<char>|
            !(#[trigger] local.contains(x) && remote.contains(x))),
    decreases local.len(),
{
    if local.len() > 0 {
        let d = local.drop_last();
        let l = local.last();
        let c = common(d, remote);
        lemma_common(d, remote);
        assert forall|x: Seq<char>| local.contains(x) <==> (d.contains(x) || x == l) by {
            if local.contains(x) {
                let j = choose|j: int| 0 <= j < local.len() && local[j] == x;
                if j < local.len() - 1 {
                    assert(d[j] == x);
                }
            }
            if d.contains(x) {
                let j = choose|j: int| 0 <= j < d.len() && d[j] == x;
                assert(local[j] == x);
            }
            if x == l {
                assert(local[local.len() - 1] == x);
            }
        }
        assert forall|x: Seq<char>| c.push(l).contains(x) <==> (c.contains(x) || x == l) by {
            if c.push(l).contains(x) {
                let j = choose|j: int| 0 <= j < c.push(l).len() && c.push(l)[j] == x;
                if j < c.len() {
                    assert(c[j] == x);
                }
            }
            if c.contains(x) {
                let j = choose|j: int| 0 <= j < c.len() && c[j] == x;
                assert(c.push(l)[j] == x);
            }
            if x == l {
                assert(c.push(l)[c.len() as int] == x);
            }
        }
        assert forall|x: Seq<char>| #[trigger]
            common(local, remote).contains(x) <==> (local.contains(x) && remote.contains(x)) by {
            assert(c.contains(x) <==> (d.contains(x) && remote.contains(x)));
        }
        if remote.contains(l) && !c.contains(l) {
            assert forall|i: int, j: int|
                0 <= i < j < c.push(l).len() implies c.push(l)[i] != c.push(l)[j] by {
                if j == c.len() {
                    assert(c[i] == c.push(l)[i]);
                }
            }
        }
    }
    if common(local, remote).len() == 0 {
        assert forall|x: Seq<char>| !(#[trigger] local.contains(x) && remote.contains(x)) by {
            if local.contains(x) && remote.contains(x) {
                assert(common(local, remote).contains(x));
            }
        }
    } else {
        let x = common(local, remote)[0];
        assert(common(local, remote).contains(x));
        assert(local.contains(x) && remote.contains(x));
    }
}

/// The files that changed on both sides, each once, in the order of `local`.
pub fn conflicting_files(local: &Vec<String>, remote: &Vec<String>) -> (res: Vec<String>)
    ensures
        texts(res@) == common(texts(local@), texts(remote@)),
{
    let mut res: Vec<String> = Vec::new();
    let mut i: usize = 0;
    while i < local.len()
        invariant
            i <= local@.len(),
            texts(res@) == common(texts(local@).take(i as int), texts(remote@)),
        decreases local@.len() - i,
    {
        let ghost pre = texts(local@).take(i as int);
        let ghost post = texts(local@).take(i + 1);
        assert(post.drop_last() =~= pre);
        assert(post.last() == local@[i as int]@);
        if contains_text(remote, &local[i]) && !contains_text(&res, &local[i]) {
            res.push(local[i].clone());
            assert(texts(res@) =~= common(pre, texts(remote@)).push(local@[i as int]@));
        }
        i = i + 1;
    }
    assert(texts(local@).take(local@.len() as int) =~= texts(local@));
    res
}

/// The files that git lists in both outputs (one file name per line): changed
/// locally and on the remote.
pub fn potential_conflicts(local_out: &str, remote_out: &str) -> (res: Vec<String>)
    ensures
        texts(res@) == common(lines_of(local_out@), lines_of(remote_out@)),
{
    let local = split_lines(local_out);
    let remote = split_lines(remote_out);
    conflicting_files(&local, &remote)
}

/// Storing goes on only when no file changed on both sides.
pub fn conflict_verdict(conflicts: &Vec<String>) -> (res: Result<(), Error>)
    ensures
        res is Ok <==> conflicts@.len() == 0,
        res matches Err(e) ==> e == Error::GitPotentialConflict,
{
    if conflicts.len() == 0 {
        Ok(())
    } else {
        Err(Error::GitPotentialConflict)
    }
}

/// The message of the automatic backup commit for a given date: a fixed line,
/// then the date.
pub fn commit_message_with_date(date: &str) -> (res: String)
    ensures
        res@ == "Automatic backup created by bloi"@ + "\n"@ + date@,
{
    let mut msg = String::from_str("Automatic backup created by bloi");
    msg.append("\n");
    msg.append(date);
    msg
}

/// The message of the automatic backup commit: a fixed line, then the output of
/// `date` trimmed.
pub fn commit_message(date_out: &str) -> (res: String)
    ensures
        res@ == "Automatic backup created by bloi"@ + "\n"@ + trimmed(date_out@),
{
    let date = trim_text(date_out);
    commit_message_with_date(date.as_str())
}

} // verus!

verus! {

/// The number of newlines in a text.
pub open spec fn count_newlines(s: Seq<char>) -> nat
    decreases s.len(),
{
    if s.len() == 0 {
        0
    } else {
        (if s[0] == '\n' {
            1nat
        } else {
            0nat
        }) + count_newlines(s.drop_first())
    }
}

/// Lines put back together, a newline between each two.
pub open spec fn join_lines(ls: Seq<Seq<char>>) -> Seq<char>
    decreases ls.len(),
{
    if ls.len() == 0 {
        Seq::empty()
    } else if ls.len() == 1 {
        ls[0]
    } else {
        ls[0] + seq!['\n'] + join_lines(ls.drop_first())
    }
}

/// The newlines of a text are the one that ends its first line and those after it.
proof fn lemma_count_after_first_line(s: Seq<char>)
    ensures
        first_newline(s) < s.len() ==> count_newlines(s) == 1 + count_newlines(
            s.skip(first_newline(s) + 1),
        ),
        first_newline(s) >= s.len() ==> count_newlines(s) == 0,
    decreases s.len(),
{
    if s.len() > 0 {
        lemma_first_newline(s);
        if s[0] == '\n' {
            assert(s.skip(1) =~= s.drop_first());
        } else {
            lemma_count_after_first_line(s.drop_first());
            let k = first_newline(s);
            if k < s.len() {
                assert(s.drop_first().skip(k) =~= s.skip(k + 1));
            }
        }
    }
}

/// Splitting keeps every line: there is one line per newline, and one more for
/// a last line that no newline ends.
pub proof fn lemma_line_count(s: Seq<char>)
    ensures
        lines_of(s).len() == count_newlines(s) + (if s.len() > 0 && s.last() != '\n' {
            1nat
        } else {
            0nat
        }),
    decreases s.len(),
{
    if s.len() > 0 {
        lemma_first_newline(s);
        lemma_count_after_first_line(s);
        let k = first_newline(s);
        if k >= s.len() {
            assert(s[s.len() - 1] != '\n');
        } else {
            let rest = s.skip(k + 1);
            lemma_line_count(rest);
            if rest.len() > 0 {
                assert(rest.last() == s.last());
            } else {
                assert(s.last() == s[k]);
            }
        }
    }
}

/// Splitting loses nothing: for a text without carriage returns, the lines put
/// back together with newlines, plus a final newline where the text ends in
/// one, give the text again.
pub proof fn lemma_lines_join_back(s: Seq<char>)
    requires
        !s.contains('\r'),
    ensures
        join_lines(lines_of(s)) + (if s.len() > 0 && s.last() == '\n' {
            seq!['\n']
        } else {
            Seq::empty()
        }) == s,
    decreases s.len(),
{
    if s.len() == 0 {
        assert(join_lines(lines_of(s)) + Seq::<char>::empty() =~= s);
    } else {
        lemma_first_newline(s);
        let k = first_newline(s);
        if k >= s.len() {
            assert(s[s.len() - 1] != '\n');
            assert(join_lines(lines_of(s)) + Seq::<char>::empty() =~= s);
        } else {
            let x = s.take(k);
            if k > 0 {
                assert(x.last() == s[k - 1]);
                assert(s[k - 1] != '\r');
            }
            assert(without_cr(x) == x);
            let rest = s.skip(k + 1);
            assert(!rest.contains('\r')) by {
                if rest.contains('\r') {
                    let j = choose|j: int| 0 <= j < rest.len() && rest[j] == '\r';
                    assert(s[k + 1 + j] == '\r');
                }
            }
            lemma_lines_join_back(rest);
            let ls = lines_of(s);
            let tail = lines_of(rest);
            assert(ls == seq![x] + tail);
            if rest.len() == 0 {
                assert(tail.len() == 0);
                assert(ls =~= seq![x]);
                assert(s.last() == s[k]);
                assert(join_lines(ls) + seq!['\n'] =~= s);
            } else {
                assert(tail.len() > 0);
                assert(ls.drop_first() =~= tail);
                assert(rest.last() == s.last());
                assert(join_lines(ls) == x + seq!['\n'] + join_lines(tail));
                let end = if s.len() > 0 && s.last() == '\n' {
                    seq!['\n']
                } else {
                    Seq::<char>::empty()
                };
                assert(join_lines(tail) + end == rest);
                assert(join_lines(ls) + end =~= x + seq!['\n'] + (join_lines(tail) + end));
                assert(s =~= x + seq!['\n'] + rest);
            }
        }
    }
}

} // verus!
