//! Small verified text utilities: character-level equality and prefix
//! tests, ASCII whitespace trimming, decimal rendering of counters, and
//! newline joining of message fragments.

use vstd::prelude::*;
use vstd::string::StrSliceExecFns;
use vstd::string::StringExecFns;

verus! {

/// ASCII whitespace, the only kind in-band commands may carry.
pub open spec fn is_ws(c: char) -> bool {
    c == ' ' || c == '\n' || c == '\t' || c == '\r'
}

/// Executable test matching `is_ws`.
pub fn ws_char(c: char) -> (r: bool)
    ensures
        r == is_ws(c),
{
    c == ' ' || c == '\n' || c == '\t' || c == '\r'
}

/// Character-level string equality.
pub fn str_eq(a: &str, b: &str) -> (r: bool)
    ensures
        r == (a@ == b@),
{
    let na = a.unicode_len();
    let nb = b.unicode_len();
    if na != nb {
        return false;
    }
    let mut i: usize = 0;
    while i < na
        invariant
            na == a@.len(),
            na == b@.len(),
            i <= na,
            forall|j: int| 0 <= j < i ==> a@[j] == b@[j],
        decreases na - i,
    {
        if a.get_char(i) != b.get_char(i) {
            return false;
        }
        i += 1;
    }
    proof {
        assert(a@ =~= b@);
    }
    true
}

/// Does `s` start with `p`, character by character?
pub fn has_prefix(s: &str, p: &str) -> (r: bool)
    ensures
        r == (s@.len() >= p@.len() && s@.take(p@.len() as int) == p@),
{
    let ns = s.unicode_len();
    let np = p.unicode_len();
    if ns < np {
        return false;
    }
    let mut i: usize = 0;
    while i < np
        invariant
            ns == s@.len(),
            np == p@.len(),
            np <= ns,
            i <= np,
            forall|j: int| 0 <= j < i ==> s@[j] == p@[j],
        decreases np - i,
    {
        if s.get_char(i) != p.get_char(i) {
            proof {
                assert(s@.take(np as int)[i as int] != p@[i as int]);
            }
            return false;
        }
        i += 1;
    }
    proof {
        assert(s@.take(np as int) =~= p@);
    }
    true
}

/// Length of the longest all-whitespace prefix.
pub open spec fn ws_prefix_len(s: Seq<char>) -> nat
    decreases s.len(),
{
    if s.len() == 0 || !is_ws(s[0]) {
        0
    } else {
        1 + ws_prefix_len(s.drop_first())
    }
}

/// Length of the longest all-whitespace suffix.
pub open spec fn ws_suffix_len(s: Seq<char>) -> nat
    decreases s.len(),
{
    if s.len() == 0 || !is_ws(s.last()) {
        0
    } else {
        1 + ws_suffix_len(s.drop_last())
    }
}

/// `s` with leading and trailing whitespace removed.
pub open spec fn spec_trim(s: Seq<char>) -> Seq<char> {
    if ws_prefix_len(s) == s.len() {
        Seq::empty()
    } else {
        s.subrange(ws_prefix_len(s) as int, s.len() - ws_suffix_len(s))
    }
}

proof fn lemma_ws_prefix_char(s: Seq<char>)
    ensures
        ws_prefix_len(s) <= s.len(),
        forall|i: int| 0 <= i < ws_prefix_len(s) ==> is_ws(#[trigger] s[i]),
        ws_prefix_len(s) < s.len() ==> !is_ws(s[ws_prefix_len(s) as int]),
    decreases s.len(),
{
    if s.len() == 0 || !is_ws(s[0]) {
    } else {
        lemma_ws_prefix_char(s.drop_first());
        assert(forall|i: int|
            0 <= i < ws_prefix_len(s) ==> is_ws(#[trigger] s[i]) == is_ws(
                if i == 0 {
                    s[0]
                } else {
                    s.drop_first()[i - 1]
                },
            ));
    }
}

proof fn lemma_ws_prefix_unique(s: Seq<char>, p: int)
    requires
        0 <= p <= s.len(),
        forall|i: int| 0 <= i < p ==> is_ws(#[trigger] s[i]),
        p < s.len() ==> !is_ws(s[p]),
    ensures
        p == ws_prefix_len(s),
{
    lemma_ws_prefix_char(s);
    if p < ws_prefix_len(s) {
        assert(is_ws(s[p]));
    } else if p > ws_prefix_len(s) {
        assert(is_ws(s[ws_prefix_len(s) as int]));
    }
}

proof fn lemma_ws_suffix_char(s: Seq<char>)
    ensures
        ws_suffix_len(s) <= s.len(),
        forall|i: int| s.len() - ws_suffix_len(s) <= i < s.len() ==> is_ws(#[trigger] s[i]),
        ws_suffix_len(s) < s.len() ==> !is_ws(s[s.len() - ws_suffix_len(s) - 1]),
    decreases s.len(),
{
    if s.len() == 0 || !is_ws(s.last()) {
    } else {
        lemma_ws_suffix_char(s.drop_last());
        assert(forall|i: int|
            s.len() - ws_suffix_len(s) <= i < s.len() ==> is_ws(#[trigger] s[i]) == is_ws(
                if i == s.len() - 1 {
                    s.last()
                } else {
                    s.drop_last()[i]
                },
            ));
    }
}

proof fn lemma_ws_suffix_unique(s: Seq<char>, q: int)
    requires
        0 <= q <= s.len(),
        forall|i: int| s.len() - q <= i < s.len() ==> is_ws(#[trigger] s[i]),
        q < s.len() ==> !is_ws(s[s.len() - q - 1]),
    ensures
        q == ws_suffix_len(s),
{
    lemma_ws_suffix_char(s);
    if q < ws_suffix_len(s) {
        assert(is_ws(s[s.len() - q - 1]));
    } else if q > ws_suffix_len(s) {
        assert(is_ws(s[s.len() - ws_suffix_len(s) - 1]));
    }
}

/// Remove leading and trailing whitespace.
pub fn trim(s: &str) -> (t: String)
    ensures
        t@ == spec_trim(s@),
{
    let n = s.unicode_len();
    let mut lo: usize = 0;
    while lo < n && ws_char(s.get_char(lo))
        invariant
            n == s@.len(),
            lo <= n,
            forall|j: int| 0 <= j < lo ==> is_ws(#[trigger] s@[j]),
        decreases n - lo,
    {
        lo += 1;
    }
    proof {
        lemma_ws_prefix_unique(s@, lo as int);
    }
    if lo == n {
        return String::new();
    }
    let mut hi: usize = n;
    while hi > lo && ws_char(s.get_char(hi - 1))
        invariant
            n == s@.len(),
            lo <= hi <= n,
            forall|j: int| hi <= j < n ==> is_ws(#[trigger] s@[j]),
        decreases hi,
    {
        hi -= 1;
    }
    proof {
        assert(hi > lo) by {
            if hi == lo {
                assert(is_ws(s@[lo as int]));
            }
        }
        lemma_ws_suffix_unique(s@, n - hi);
    }
    s.substring_char(lo, hi).to_owned()
}

/// The character for one decimal digit.
pub open spec fn spec_digit(d: int) -> char {
    if d == 0 {
        '0'
    } else if d == 1 {
        '1'
    } else if d == 2 {
        '2'
    } else if d == 3 {
        '3'
    } else if d == 4 {
        '4'
    } else if d == 5 {
        '5'
    } else if d == 6 {
        '6'
    } else if d == 7 {
        '7'
    } else if d == 8 {
        '8'
    } else {
        '9'
    }
}

/// The decimal digits of `n`, most significant first, no leading zeros.
pub open spec fn spec_dec(n: int) -> Seq<char>
    decreases n,
{
    if n < 10 {
        seq![spec_digit(n)]
    } else {
        spec_dec(n / 10).push(spec_digit(n % 10))
    }
}

pub(crate) fn digit_str(d: u64) -> (s: &'static str)
    requires
        d < 10,
    ensures
        s@ =~= seq![spec_digit(d as int)],
{
    proof {
        reveal_strlit("0");
        reveal_strlit("1");
        reveal_strlit("2");
        reveal_strlit("3");
        reveal_strlit("4");
        reveal_strlit("5");
        reveal_strlit("6");
        reveal_strlit("7");
        reveal_strlit("8");
        reveal_strlit("9");
    }
    if d == 0 {
        "0"
    } else if d == 1 {
        "1"
    } else if d == 2 {
        "2"
    } else if d == 3 {
        "3"
    } else if d == 4 {
        "4"
    } else if d == 5 {
        "5"
    } else if d == 6 {
        "6"
    } else if d == 7 {
        "7"
    } else if d == 8 {
        "8"
    } else {
        "9"
    }
}

/// Render a counter in decimal.
pub fn u64_to_dec(n: u64) -> (s: String)
    ensures
        s@ == spec_dec(n as int),
    decreases n,
{
    if n < 10 {
        digit_str(n).to_owned()
    } else {
        proof {
            assert(n / 10 < n) by (nonlinear_arith)
                requires
                    n >= 10,
            ;
        }
        let mut s = u64_to_dec(n / 10);
        s.append(digit_str(n % 10));
        proof {
            assert(spec_dec((n / 10) as int).push(spec_digit((n % 10) as int)) =~= spec_dec(
                (n / 10) as int,
            ) + seq![spec_digit((n % 10) as int)]);
        }
        s
    }
}

/// Fragments joined with a single newline between each pair.
pub open spec fn spec_join(frags: Seq<Seq<char>>) -> Seq<char>
    decreases frags.len(),
{
    if frags.len() == 0 {
        Seq::empty()
    } else if frags.len() == 1 {
        frags[0]
    } else {
        frags[0] + seq!['\n'] + spec_join(frags.drop_first())
    }
}

proof fn lemma_join_snoc(frags: Seq<Seq<char>>, x: Seq<char>)
    ensures
        spec_join(frags.push(x)) == if frags.len() == 0 {
            x
        } else {
            spec_join(frags) + seq!['\n'] + x
        },
    decreases frags.len(),
{
    if frags.len() == 0 {
        assert(frags.push(x)[0] =~= x);
        assert(spec_join(frags.push(x)) == x);
    } else {
        lemma_join_snoc(frags.drop_first(), x);
        assert(frags.push(x).drop_first() =~= frags.drop_first().push(x));
        if frags.len() == 1 {
            assert(spec_join(frags.push(x)) == frags[0] + seq!['\n'] + x);
            assert(spec_join(frags) == frags[0]);
        } else {
            assert(spec_join(frags) + seq!['\n'] + x =~= frags[0] + seq!['\n'] + (spec_join(
                frags.drop_first(),
            ) + seq!['\n'] + x));
        }
    }
}

/// Join message fragments with newlines, preserving arrival order.
pub fn join_fragments(frags: &Vec<String>) -> (s: String)
    ensures
        s@ == spec_join(frags.deep_view()),
{
    let mut s = String::new();
    let n = frags.len();
    let mut i: usize = 0;
    proof {
        assert(frags.deep_view().take(0) =~= Seq::<Seq<char>>::empty());
    }
    while i < n
        invariant
            n == frags.len(),
            frags.deep_view().len() == n,
            i <= n,
            forall|j: int| 0 <= j < n ==> frags.deep_view()[j] == frags@[j]@,
            s@ == spec_join(frags.deep_view().take(i as int)),
        decreases n - i,
    {
        if i > 0 {
            s.append("\n");
            proof {
                reveal_strlit("\n");
                assert("\n"@ =~= seq!['\n']);
            }
        }
        s.append(frags[i].as_str());
        proof {
            lemma_join_snoc(frags.deep_view().take(i as int), frags.deep_view()[i as int]);
            assert(frags.deep_view().take(i + 1) =~= frags.deep_view().take(i as int).push(
                frags.deep_view()[i as int],
            ));
        }
        i += 1;
    }
    proof {
        assert(frags.deep_view().take(n as int) =~= frags.deep_view());
    }
    s
}

} // verus!
