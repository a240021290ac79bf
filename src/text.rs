use itertools::Itertools;
use vstd::prelude::*;

verus! {

/// `parts` joined with `sep` between neighbours.
pub open spec fn joined(parts: Seq<Seq<char>>, sep: Seq<char>) -> Seq<char>
    decreases parts.len(),
{
    if parts.len() == 0 {
        Seq::empty()
    } else if parts.len() == 1 {
        parts[0]
    } else {
        joined(parts.drop_last(), sep) + sep + parts.last()
    }
}

/// The views of a vector of strings.
pub open spec fn views(v: Seq<String>) -> Seq<Seq<char>> {
    v.map_values(|s: String| s@)
}

/// The pieces of `s` between newline characters (one more than there are newlines).
pub open spec fn pieces(s: Seq<char>) -> Seq<Seq<char>>
    decreases s.len(),
{
    if s.len() == 0 {
        seq![Seq::empty()]
    } else {
        let p = pieces(s.drop_last());
        if s.last() == '\n' {
            p.push(Seq::empty())
        } else {
            p.update(p.len() - 1, p.last().push(s.last()))
        }
    }
}

/// A line that was ended by a newline loses a carriage return before it.
pub open spec fn strip_cr(l: Seq<char>) -> Seq<char> {
    if l.len() > 0 && l.last() == '\r' {
        l.drop_last()
    } else {
        l
    }
}

/// The lines of `s`: split at `\n` or `\r\n`; a final line ending adds no empty line.
pub open spec fn lines_of(s: Seq<char>) -> Seq<Seq<char>> {
    let p = pieces(s);
    let ended = p.drop_last().map_values(|l: Seq<char>| strip_cr(l));
    if p.last().len() == 0 {
        ended
    } else {
        ended.push(p.last())
    }
}

pub open spec fn margin() -> Seq<char> {
    seq![' ', ' ', ' ', ' ']
}

/// Every line of `s` preceded by four spaces.
pub open spec fn indented(s: Seq<char>) -> Seq<char> {
    margin() + joined(lines_of(s), seq!['\n'] + margin())
}

/// Decimal digits of `n`, most significant first.
pub open spec fn decimal(n: nat) -> Seq<char>
    decreases n,
{
    if n < 10 {
        seq![digit(n)]
    } else {
        decimal(n / 10).push(digit(n % 10))
    }
}

pub open spec fn digit(d: nat) -> char {
    if d == 0 { '0' } else if d == 1 { '1' } else if d == 2 { '2' } else if d == 3 { '3' }
    else if d == 4 { '4' } else if d == 5 { '5' } else if d == 6 { '6' } else if d == 7 { '7' }
    else if d == 8 { '8' } else { '9' }
}

/// Relies on str::chars: the characters of the string, in order.
#[verifier::external_body]
pub(crate) fn chars_of(s: &str) -> (r: Vec<char>)
    ensures
        r@ == s@,
{
    s.chars().collect()
}

/// Relies on String's FromIterator<&char>: the string made of these characters.
#[verifier::external_body]
pub(crate) fn string_of(v: &Vec<char>) -> (r: String)
    ensures
        r@ == v@,
{
    v.iter().collect()
}

/// Relies on Itertools::join: the parts written in order, `sep` between neighbours.
#[verifier::external_body]
pub(crate) fn join_with(parts: &Vec<String>, sep: &str) -> (r: String)
    ensures
        r@ == joined(views(parts@), sep@),
{
    parts.iter().join(sep)
}

/// Relies on u64's Display: the decimal digits of `n`.
#[verifier::external_body]
pub(crate) fn decimal_text(n: u64) -> (r: String)
    ensures
        r@ == decimal(n as nat),
{
    format!("{}", n)
}

/// The lines of `s`, split as `lines_of` says.
pub fn split_lines(s: &str) -> (r: Vec<String>)
    ensures
        views(r@) == lines_of(s@),
{
    let cs = chars_of(s);
    let mut done: Vec<String> = Vec::new();
    let mut cur: Vec<char> = Vec::new();
    let mut i: usize = 0;
    proof {
        assert(s@.subrange(0, 0) =~= Seq::<char>::empty());
    }
    while i < cs.len()
        invariant
            i <= cs.len(),
            cs@ == s@,
            pieces(s@.subrange(0, i as int)).len() >= 1,
            views(done@) == pieces(s@.subrange(0, i as int)).drop_last().map_values(
                |l: Seq<char>| strip_cr(l),
            ),
            cur@ == pieces(s@.subrange(0, i as int)).last(),
        decreases cs.len() - i,
    {
        let ghost before = s@.subrange(0, i as int);
        let ghost old_cur = cur@;
        let ghost old_done = views(done@);
        assert(s@.subrange(0, i + 1).drop_last() =~= before);
        let c = cs[i];
        if c == '\n' {
            let mut line = cur;
            if line.len() > 0 && line[line.len() - 1] == '\r' {
                line.pop();
            }
            assert(line@ =~= strip_cr(old_cur));
            let t = string_of(&line);
            done.push(t);
            cur = Vec::new();
        } else {
            cur.push(c);
        }
        proof {
            let p = pieces(before);
            let q = pieces(s@.subrange(0, i + 1));
            if c == '\n' {
                assert(q.drop_last() =~= p);
                assert(views(done@) =~= old_done.push(strip_cr(old_cur)));
                assert(p =~= p.drop_last().push(p.last()));
                assert(views(done@) =~= q.drop_last().map_values(|l: Seq<char>| strip_cr(l)));
            } else {
                assert(q.drop_last() =~= p.drop_last());
                assert(views(done@) =~= old_done);
            }
        }
        i = i + 1;
    }
    assert(s@.subrange(0, cs.len() as int) =~= s@);
    let ghost ended = pieces(s@).drop_last().map_values(|l: Seq<char>| strip_cr(l));
    if cur.len() > 0 {
        let ghost old_done = views(done@);
        let t = string_of(&cur);
        done.push(t);
        assert(views(done@) =~= old_done.push(cur@));
        assert(views(done@) =~= lines_of(s@));
    } else {
        assert(views(done@) =~= lines_of(s@));
    }
    done
}

/// Indents every line of `s` by four spaces.
pub fn indent(s: &str) -> (r: String)
    ensures
        r@ == indented(s@),
{
    let lines = split_lines(s);
    let sep = "\n    ";
    let body = join_with(&lines, sep);
    let mut r = String::from_str("    ");
    r.append(body.as_str());
    proof {
        reveal_strlit("\n    ");
        reveal_strlit("    ");
        assert(sep@ =~= seq!['\n'] + margin());
        assert("    "@ =~= margin());
    }
    r
}

} // verus!
