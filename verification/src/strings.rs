use vstd::prelude::*;
use vstd::string::*;

use crate::keys::{char_to_string, str_eq};

verus! {

/// The characters with Unicode's `White_Space` property.
pub open spec fn is_white_space(c: char) -> bool {
    let u = c as u32;
    ||| 0x09 <= u <= 0x0d
    ||| u == 0x20 || u == 0x85 || u == 0xa0 || u == 0x1680
    ||| 0x2000 <= u <= 0x200a
    ||| u == 0x2028 || u == 0x2029 || u == 0x202f || u == 0x205f || u == 0x3000
}

/// Whether `c` is white space, as `char::is_whitespace` tells it.
pub fn is_whitespace(c: char) -> (res: bool)
    ensures
        res == is_white_space(c),
{
    let u = c as u32;
    (0x09 <= u && u <= 0x0d) || u == 0x20 || u == 0x85 || u == 0xa0 || u == 0x1680 || (0x2000 <= u
        && u <= 0x200a) || u == 0x2028 || u == 0x2029 || u == 0x202f || u == 0x205f || u == 0x3000
}

/// How many white-space characters `s` starts with.
pub open spec fn leading_white(s: Seq<char>) -> nat
    decreases s.len(),
{
    if s.len() > 0 && is_white_space(s[0]) {
        1 + leading_white(s.drop_first())
    } else {
        0
    }
}

/// How many white-space characters `s` ends with.
pub open spec fn trailing_white(s: Seq<char>) -> nat
    decreases s.len(),
{
    if s.len() > 0 && is_white_space(s.last()) {
        1 + trailing_white(s.drop_last())
    } else {
        0
    }
}

/// `s` without its leading and trailing white space.
pub open spec fn trimmed(s: Seq<char>) -> Seq<char> {
    let t = s.skip(leading_white(s) as int);
    t.take(t.len() - trailing_white(t))
}

proof fn lemma_leading_white(s: Seq<char>, k: int)
    requires
        0 <= k <= s.len(),
        forall|j: int| 0 <= j < k ==> is_white_space(#[trigger] s[j]),
        k == s.len() || !is_white_space(s[k]),
    ensures
        leading_white(s) == k,
    decreases k,
{
    if k > 0 {
        let t = s.drop_first();
        assert forall|j: int| 0 <= j < k - 1 implies is_white_space(#[trigger] t[j]) by {
            assert(t[j] == s[j + 1]);
        }
        if k - 1 < t.len() {
            assert(t[k - 1] == s[k]);
        }
        assert(is_white_space(s[0]));
        lemma_leading_white(t, k - 1);
    }
}

proof fn lemma_trailing_white(s: Seq<char>, k: int)
    requires
        0 <= k <= s.len(),
        forall|j: int| s.len() - k <= j < s.len() ==> is_white_space(#[trigger] s[j]),
        k == s.len() || !is_white_space(s[s.len() - k - 1]),
    ensures
        trailing_white(s) == k,
    decreases k,
{
    if k > 0 {
        let t = s.drop_last();
        assert forall|j: int| t.len() - (k - 1) <= j < t.len() implies is_white_space(#[trigger] t[j]) by {
            assert(t[j] == s[j]);
        }
        if k - 1 < t.len() {
            assert(t[t.len() - (k - 1) - 1] == s[s.len() - k - 1]);
        }
        assert(is_white_space(s[s.len() - 1]));
        lemma_trailing_white(t, k - 1);
    }
}

proof fn lemma_trailing_white_bound(s: Seq<char>)
    ensures
        trailing_white(s) <= s.len(),
        s.len() > 0 && !is_white_space(s[0]) ==> trailing_white(s) < s.len(),
    decreases s.len(),
{
    if s.len() > 0 && is_white_space(s.last()) {
        let t = s.drop_last();
        lemma_trailing_white_bound(t);
        if t.len() > 0 {
            assert(t[0] == s[0]);
        }
    }
}

/// Whether every character of `s` is white space.
pub fn is_blank(s: &str) -> (res: bool)
    ensures
        res == (trimmed(s@).len() == 0),
        res == (forall|j: int| 0 <= j < s@.len() ==> is_white_space(#[trigger] s@[j])),
{
    let n = s.unicode_len();
    let mut i: usize = 0;
    while i < n
        invariant
            n == s@.len(),
            i <= n,
            forall|j: int| 0 <= j < i ==> is_white_space(#[trigger] s@[j]),
        decreases n - i,
    {
        if !is_whitespace(s.get_char(i)) {
            proof {
                lemma_leading_white(s@, i as int);
                let t = s@.skip(i as int);
                assert(t[0] == s@[i as int]);
                lemma_trailing_white_bound(t);
            }
            return false;
        }
        i = i + 1;
    }
    proof {
        lemma_leading_white(s@, n as int);
        assert(s@.skip(n as int).len() == 0);
    }
    true
}

/// `s` without its leading and trailing white space, as `str::trim` gives it.
pub fn trim(s: &str) -> (res: String)
    ensures
        res@ == trimmed(s@),
{
    let n = s.unicode_len();
    let mut a: usize = 0;
    while a < n && is_whitespace(s.get_char(a))
        invariant
            n == s@.len(),
            a <= n,
            forall|j: int| 0 <= j < a ==> is_white_space(#[trigger] s@[j]),
        decreases n - a,
    {
        a = a + 1;
    }
    proof {
        lemma_leading_white(s@, a as int);
    }
    let ghost t = s@.skip(a as int);
    let mut b: usize = n;
    while b > a && is_whitespace(s.get_char(b - 1))
        invariant
            n == s@.len(),
            a <= b <= n,
            t == s@.skip(a as int),
            forall|j: int| b <= j < n ==> is_white_space(#[trigger] s@[j]),
        decreases b - a,
    {
        b = b - 1;
    }
    proof {
        let k = (n - b) as int;
        assert forall|j: int| t.len() - k <= j < t.len() implies is_white_space(#[trigger] t[j]) by {
            assert(t[j] == s@[j + a]);
        }
        if k < t.len() {
            assert(t[t.len() - k - 1] == s@[b - 1]);
        }
        lemma_trailing_white(t, k);
        assert(t.take(t.len() - k) =~= s@.subrange(a as int, b as int));
    }
    String::from_str(s.substring_char(a, b))
}

/// The pieces of `s` between the occurrences of `pat`, found from the left
/// without overlap, `cur` being the piece begun so far.
pub open spec fn split_from(s: Seq<char>, pat: Seq<char>, cur: Seq<char>) -> Seq<Seq<char>>
    decreases s.len(),
{
    if s.len() == 0 {
        seq![cur]
    } else if 0 < pat.len() <= s.len() && s.take(pat.len() as int) == pat {
        seq![cur] + split_from(s.skip(pat.len() as int), pat, Seq::empty())
    } else {
        split_from(s.drop_first(), pat, cur.push(s[0]))
    }
}

/// The pieces of `s` between the occurrences of `pat`, as `str::split` gives them.
pub open spec fn split_on(s: Seq<char>, pat: Seq<char>) -> Seq<Seq<char>> {
    split_from(s, pat, Seq::empty())
}

/// `parts` one after the other, with `sep` between each two.
pub open spec fn joined(parts: Seq<Seq<char>>, sep: Seq<char>) -> Seq<char>
    decreases parts.len(),
{
    if parts.len() == 0 {
        Seq::empty()
    } else if parts.len() == 1 {
        parts[0]
    } else {
        joined(parts.drop_last(), sep) + sep + parts.last()
    }
}

/// `s` with every occurrence of `from`, found from the left without overlap,
/// replaced by `to`.
pub open spec fn replaced(s: Seq<char>, from: Seq<char>, to: Seq<char>) -> Seq<char> {
    joined(split_on(s, from), to)
}

pub open spec fn views(v: Seq<String>) -> Seq<Seq<char>> {
    v.map_values(|p: String| p@)
}

/// Splits `s` at each occurrence of `pat` (not empty).
pub fn split(s: &str, pat: &str) -> (res: Vec<String>)
    requires
        pat@.len() > 0,
    ensures
        views(res@) == split_on(s@, pat@),
{
    let n = s.unicode_len();
    let m = pat.unicode_len();
    let mut pieces: Vec<String> = Vec::new();
    let mut cur = String::new();
    let mut i: usize = 0;
    proof {
        assert(s@.skip(0) =~= s@);
        assert(views(pieces@) + split_from(s@, pat@, cur@) =~= split_from(s@, pat@, cur@));
    }
    while i < n
        invariant
            n == s@.len(),
            m == pat@.len(),
            m > 0,
            i <= n,
            split_on(s@, pat@) == views(pieces@) + split_from(s@.skip(i as int), pat@, cur@),
        decreases n - i,
    {
        let rest = Ghost(s@.skip(i as int));
        if m <= n - i && str_eq(s.substring_char(i, i + m), pat) {
            proof {
                assert(rest@.take(m as int) =~= s@.subrange(i as int, i + m));
                assert(rest@.skip(m as int) =~= s@.skip(i + m));
                assert(views(pieces@.push(cur)) =~= views(pieces@) + seq![cur@]);
                assert(split_from(rest@, pat@, cur@) == seq![cur@] + split_from(s@.skip(i + m), pat@, Seq::empty()));
                assert(views(pieces@) + (seq![cur@] + split_from(s@.skip(i + m), pat@, Seq::empty()))
                    =~= views(pieces@.push(cur)) + split_from(s@.skip(i + m), pat@, Seq::empty()));
            }
            pieces.push(cur);
            cur = String::new();
            i = i + m;
        } else {
            let c = s.get_char(i);
            proof {
                if m <= n - i {
                    assert(rest@.take(m as int) =~= s@.subrange(i as int, i + m));
                }
                assert(rest@.drop_first() =~= s@.skip(i + 1));
                assert(rest@[0] == c);
                assert(split_from(rest@, pat@, cur@) == split_from(s@.skip(i + 1), pat@, cur@.push(c)));
            }
            let ghost prev = cur@;
            cur.append(char_to_string(c).as_str());
            assert(cur@ =~= prev.push(c));
            i = i + 1;
        }
    }
    proof {
        assert(s@.skip(n as int).len() == 0);
        assert(views(pieces@.push(cur)) =~= views(pieces@) + seq![cur@]);
    }
    pieces.push(cur);
    pieces
}

/// `parts` one after the other, with `sep` between each two.
pub fn join(parts: &Vec<String>, sep: &str) -> (res: String)
    ensures
        res@ == joined(views(parts@), sep@),
{
    let mut out = String::new();
    let mut i: usize = 0;
    while i < parts.len()
        invariant
            i <= parts@.len(),
            out@ == joined(views(parts@.take(i as int)), sep@),
        decreases parts@.len() - i,
    {
        let ghost before = views(parts@.take(i as int));
        let ghost after = views(parts@.take(i + 1));
        proof {
            assert(after.drop_last() =~= before);
            assert(after.last() == parts@[i as int]@);
        }
        if i > 0 {
            out.append(sep);
        }
        out.append(parts[i].as_str());
        i = i + 1;
    }
    proof {
        assert(parts@.take(i as int) =~= parts@);
    }
    out
}

/// `s` with every occurrence of `from` (not empty) replaced by `to`, as
/// `str::replace` gives it.
pub fn replace(s: &str, from: &str, to: &str) -> (res: String)
    requires
        from@.len() > 0,
    ensures
        res@ == replaced(s@, from@, to@),
{
    let pieces = split(s, from);
    join(&pieces, to)
}

} // verus!
