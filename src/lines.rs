//! Splitting the candidate source into candidates, one per line.

use vstd::prelude::*;

verus! {

/// The pieces of `s` between line feeds, in order. There is always at least
/// one piece: the text after the last line feed (possibly empty).
pub open spec fn pieces(s: Seq<char>) -> Seq<Seq<char>>
    decreases s.len(),
{
    if s.len() == 0 {
        seq![Seq::empty()]
    } else {
        let p = pieces(s.drop_last());
        if s.last() == '\n' {
            p.push(Seq::empty())
        } else {
            p.update(p.len() - 1, p.last().push(s.last()))
        }
    }
}

/// A line that was ended by a line feed loses one carriage return before it.
pub open spec fn strip_cr(l: Seq<char>) -> Seq<char> {
    if l.len() > 0 && l.last() == '\r' {
        l.drop_last()
    } else {
        l
    }
}

/// The candidates of a text: every terminated line without its terminator
/// (`"\n"` or `"\r\n"`), then the unterminated tail, if it is not empty.
pub open spec fn lines_of(s: Seq<char>) -> Seq<Seq<char>> {
    let p = pieces(s);
    let k = p.len() - 1;
    let body = Seq::new(k as nat, |j: int| strip_cr(p[j]));
    if p[k].len() == 0 {
        body
    } else {
        body.push(p[k])
    }
}

/// Relies on `String: FromIterator<char>`: the string holds the given
/// characters in order.
#[verifier::external_body]
fn string_of_chars(cs: &Vec<char>) -> (r: String)
    ensures
        r@ == cs@,
{
    cs.iter().collect()
}

fn strip_cr_exec(cs: &Vec<char>) -> (r: String)
    ensures
        r@ == strip_cr(cs@),
{
    let n = cs.len();
    if n > 0 && cs[n - 1] == '\r' {
        let mut t: Vec<char> = cs.clone();
        t.pop();
        proof {
            assert(t@ =~= cs@.drop_last());
        }
        string_of_chars(&t)
    } else {
        string_of_chars(cs)
    }
}

/// Splits a text into its candidates, in order.
pub fn split_lines(text: &str) -> (r: Vec<String>)
    ensures
        r@.len() == lines_of(text@).len(),
        forall|i: int| 0 <= i < r@.len() ==> #[trigger] r@[i]@ == lines_of(text@)[i],
{
    let mut done: Vec<String> = Vec::new();
    let mut cur: Vec<char> = Vec::new();
    let ghost mut raw: Seq<Seq<char>> = Seq::empty();
    for c in it: text.chars()
        invariant
            it.seq() == text@,
            pieces(text@.take(it.index() as int)) == raw.push(cur@),
            done@.len() == raw.len(),
            forall|j: int| 0 <= j < raw.len() ==> #[trigger] done@[j]@ == strip_cr(raw[j]),
    {
        let ghost before = text@.take(it.index() as int);
        proof {
            assert(text@.take(it.index() + 1).drop_last() =~= before);
        }
        if c == '\n' {
            let line = strip_cr_exec(&cur);
            done.push(line);
            proof {
                raw = raw.push(cur@);
            }
            cur = Vec::new();
            proof {
                assert(raw.push(cur@) =~= pieces(before).push(Seq::empty()));
            }
        } else {
            cur.push(c);
            proof {
                assert(raw.push(cur@) =~= pieces(before).update(
                    pieces(before).len() - 1,
                    pieces(before).last().push(c),
                ));
            }
        }
    }
    proof {
        assert(text@.take(text@.len() as int) =~= text@);
    }
    if cur.len() > 0 {
        let last = string_of_chars(&cur);
        done.push(last);
    }
    proof {
        let p = pieces(text@);
        assert(p.len() - 1 == raw.len());
    }
    done
}

} // verus!
