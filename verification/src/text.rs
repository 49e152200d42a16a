//! Character-level text helpers: the whitespace set, blank tests, trimming,
//! and substring search.  Everything here is verified; the rest of the
//! library states its contracts over these spec functions.

use vstd::prelude::*;

verus! {

/// The Unicode `White_Space` characters, the set that surrounding-whitespace
/// trimming and blank-cell tests are defined over.
pub open spec fn is_ws_char(c: char) -> bool {
    c == ' ' || c == '\t' || c == '\n' || c == '\r'
        || c == '\u{000B}' || c == '\u{000C}' || c == '\u{0085}' || c == '\u{00A0}'
        || c == '\u{1680}'
        || c == '\u{2000}' || c == '\u{2001}' || c == '\u{2002}' || c == '\u{2003}'
        || c == '\u{2004}' || c == '\u{2005}' || c == '\u{2006}' || c == '\u{2007}'
        || c == '\u{2008}' || c == '\u{2009}' || c == '\u{200A}'
        || c == '\u{2028}' || c == '\u{2029}' || c == '\u{202F}' || c == '\u{205F}'
        || c == '\u{3000}'
}

/// Runtime test for membership in the whitespace set.
pub fn is_ws(c: char) -> (b: bool)
    ensures
        b == is_ws_char(c),
{
    c == ' ' || c == '\t' || c == '\n' || c == '\r'
        || c == '\u{000B}' || c == '\u{000C}' || c == '\u{0085}' || c == '\u{00A0}'
        || c == '\u{1680}'
        || c == '\u{2000}' || c == '\u{2001}' || c == '\u{2002}' || c == '\u{2003}'
        || c == '\u{2004}' || c == '\u{2005}' || c == '\u{2006}' || c == '\u{2007}'
        || c == '\u{2008}' || c == '\u{2009}' || c == '\u{200A}'
        || c == '\u{2028}' || c == '\u{2029}' || c == '\u{202F}' || c == '\u{205F}'
        || c == '\u{3000}'
}

/// A string is blank when every character is whitespace; in particular the
/// empty string is blank.
pub open spec fn blank_seq(s: Seq<char>) -> bool {
    forall|i: int| 0 <= i < s.len() ==> is_ws_char(s[i])
}

/// Runtime blank test: true iff `s` trims to the empty string.
pub fn is_blank(s: &str) -> (b: bool)
    ensures
        b == blank_seq(s@),
{
    let n: usize = s.unicode_len();
    let mut i: usize = 0;
    while i < n
        invariant
            i <= n,
            n == s@.len(),
            forall|j: int| 0 <= j < i ==> is_ws_char(s@[j]),
        decreases n - i,
    {
        if !is_ws(s.get_char(i)) {
            assert(!blank_seq(s@));
            return false;
        }
        i = i + 1;
    }
    true
}

/// The string with its leading whitespace removed.
pub open spec fn trim_front_seq(s: Seq<char>) -> Seq<char>
    decreases s.len(),
{
    if s.len() == 0 {
        s
    } else if is_ws_char(s[0]) {
        trim_front_seq(s.skip(1))
    } else {
        s
    }
}

/// The string with its trailing whitespace removed.
pub open spec fn trim_back_seq(s: Seq<char>) -> Seq<char>
    decreases s.len(),
{
    if s.len() == 0 {
        s
    } else if is_ws_char(s.last()) {
        trim_back_seq(s.drop_last())
    } else {
        s
    }
}

/// The string with surrounding whitespace removed.
pub open spec fn trim_seq(s: Seq<char>) -> Seq<char> {
    trim_back_seq(trim_front_seq(s))
}

proof fn lemma_trim_front_skip(s: Seq<char>, a: int)
    requires
        0 <= a <= s.len(),
        forall|j: int| 0 <= j < a ==> is_ws_char(s[j]),
        a == s.len() || !is_ws_char(s[a]),
    ensures
        trim_front_seq(s) == s.skip(a),
    decreases a,
{
    if a == 0 {
        assert(s.skip(0) =~= s);
    } else {
        assert(is_ws_char(s[0]));
        let t = s.skip(1);
        assert(forall|j: int| 0 <= j < a - 1 ==> is_ws_char(#[trigger] t[j]));
        if a < s.len() {
            assert(t[a - 1] == s[a]);
        }
        lemma_trim_front_skip(t, a - 1);
        assert(t.skip(a - 1) =~= s.skip(a));
    }
}

proof fn lemma_trim_back_take(s: Seq<char>, b: int)
    requires
        0 <= b <= s.len(),
        forall|j: int| b <= j < s.len() ==> is_ws_char(s[j]),
        b == 0 || !is_ws_char(s[b - 1]),
    ensures
        trim_back_seq(s) == s.take(b),
    decreases s.len(),
{
    if b == s.len() {
        if s.len() == 0 {
            assert(s.take(0) =~= s);
        } else {
            assert(!is_ws_char(s.last()));
            assert(s.take(b) =~= s);
        }
    } else {
        assert(is_ws_char(s.last()));
        let t = s.drop_last();
        lemma_trim_back_take(t, b);
        assert(t.take(b) =~= s.take(b));
    }
}

/// Removes surrounding whitespace, the same cleanup that the record store
/// applies to every cell on load.
pub fn trim_str(s: &str) -> (r: String)
    ensures
        r@ == trim_seq(s@),
{
    let n: usize = s.unicode_len();
    let mut a: usize = 0;
    while a < n && is_ws(s.get_char(a))
        invariant
            a <= n,
            n == s@.len(),
            forall|j: int| 0 <= j < a ==> is_ws_char(s@[j]),
        decreases n - a,
    {
        a = a + 1;
    }
    let mut b: usize = n;
    while b > a && is_ws(s.get_char(b - 1))
        invariant
            a <= b <= n,
            n == s@.len(),
            forall|j: int| 0 <= j < a ==> is_ws_char(s@[j]),
            forall|j: int| b <= j < n ==> is_ws_char(s@[j]),
        decreases b,
    {
        b = b - 1;
    }
    proof {
        lemma_trim_front_skip(s@, a as int);
        let t = s@.skip(a as int);
        assert(forall|j: int| b - a <= j < t.len() ==> is_ws_char(#[trigger] t[j]));
        if b > a {
            assert(t[b - a - 1] == s@[b - 1]);
        }
        lemma_trim_back_take(t, b - a);
        assert(t.take(b - a) =~= s@.subrange(a as int, b as int));
    }
    let piece = s.substring_char(a, b);
    String::from_str(piece)
}

/// A blank string trims to the empty string and conversely: the two
/// phrasings of "this cell is empty" agree.
pub proof fn lemma_blank_iff_trim_empty(s: Seq<char>)
    ensures
        blank_seq(s) <==> trim_seq(s).len() == 0,
{
    if blank_seq(s) {
        lemma_trim_front_skip(s, s.len() as int);
        assert(s.skip(s.len() as int) =~= Seq::<char>::empty());
        assert(trim_front_seq(s).len() == 0);
    }
    if trim_seq(s).len() == 0 {
        lemma_trim_front_prefix_ws(s);
        let tf = trim_front_seq(s);
        lemma_trim_back_suffix_ws(tf);
        let k = s.len() - tf.len();
        assert forall|j: int| 0 <= j < s.len() implies is_ws_char(s[j]) by {
            if j >= k {
                assert(tf[j - k] == s.skip(k as int)[j - k]);
                assert(s.skip(k as int)[j - k] == s[j]);
                assert(is_ws_char(tf[j - k]));
            }
        }
    }
}

proof fn lemma_trim_front_prefix_ws(s: Seq<char>)
    ensures
        trim_front_seq(s).len() <= s.len(),
        trim_front_seq(s) == s.skip(s.len() - trim_front_seq(s).len()),
        forall|j: int| 0 <= j < s.len() - trim_front_seq(s).len() ==> is_ws_char(s[j]),
    decreases s.len(),
{
    if s.len() == 0 {
        assert(s.skip(0) =~= s);
    } else if is_ws_char(s[0]) {
        let t = s.skip(1);
        lemma_trim_front_prefix_ws(t);
        let k = s.len() - trim_front_seq(s).len();
        assert(t.skip(t.len() - trim_front_seq(t).len()) =~= s.skip(k));
        assert(forall|j: int| 1 <= j < k ==> s[j] == t[j - 1]);
    } else {
        assert(s.skip(0) =~= s);
    }
}

proof fn lemma_trim_back_suffix_ws(s: Seq<char>)
    ensures
        trim_back_seq(s).len() <= s.len(),
        trim_back_seq(s) == s.take(trim_back_seq(s).len() as int),
        forall|j: int| trim_back_seq(s).len() <= j < s.len() ==> is_ws_char(s[j]),
    decreases s.len(),
{
    if s.len() == 0 {
        assert(s.take(0) =~= s);
    } else if is_ws_char(s.last()) {
        let t = s.drop_last();
        lemma_trim_back_suffix_ws(t);
        assert(t.take(trim_back_seq(t).len() as int) =~= s.take(trim_back_seq(s).len() as int));
        assert forall|j: int| trim_back_seq(s).len() <= j < s.len() implies is_ws_char(s[j]) by {
            if j < s.len() - 1 {
                assert(s[j] == t[j]);
            } else {
                assert(s[j] == s.last());
            }
        }
    } else {
        assert(s.take(s.len() as int) =~= s);
    }
}

/// `n` occurs in `h` starting at position `i`.
pub open spec fn sub_at(h: Seq<char>, n: Seq<char>, i: int) -> bool {
    0 <= i && i + n.len() <= h.len() && h.subrange(i, i + n.len()) == n
}

/// `n` occurs somewhere in `h`; every string contains the empty string.
pub open spec fn has_substring(h: Seq<char>, n: Seq<char>) -> bool {
    exists|i: int| sub_at(h, n, i)
}

/// Runtime substring search, the test behind duplicate-error detection.
pub fn contains_substring(h: &str, n: &str) -> (b: bool)
    ensures
        b == has_substring(h@, n@),
{
    let hl: usize = h.unicode_len();
    let nl: usize = n.unicode_len();
    if nl > hl {
        return false;
    }
    if nl == 0 {
        proof {
            assert(h@.subrange(0, 0) =~= n@);
            assert(sub_at(h@, n@, 0));
        }
        return true;
    }
    let mut i: usize = 0;
    while i <= hl - nl
        invariant
            1 <= nl <= hl,
            i <= hl - nl + 1,
            hl == h@.len(),
            nl == n@.len(),
            forall|k: int| 0 <= k < i ==> !sub_at(h@, n@, k),
        decreases hl - nl - i + 1,
    {
        let mut j: usize = 0;
        let mut matches = true;
        while j < nl
            invariant
                matches ==> forall|k: int| 0 <= k < j ==> h@[i + k] == n@[k],
                !matches ==> !sub_at(h@, n@, i as int),
                j <= nl,
                i + nl <= hl,
                hl == h@.len(),
                nl == n@.len(),
            decreases nl - j,
        {
            if h.get_char(i + j) != n.get_char(j) {
                proof {
                    if sub_at(h@, n@, i as int) {
                        assert(h@.subrange(i as int, i + nl)[j as int] == h@[i + j]);
                    }
                }
                matches = false;
                j = nl;
            } else {
                j = j + 1;
            }
        }
        if matches {
            proof {
                assert(h@.subrange(i as int, i + nl) =~= n@);
                assert(sub_at(h@, n@, i as int));
            }
            return true;
        }
        i = i + 1;
    }
    proof {
        assert forall|k: int| !sub_at(h@, n@, k) by {
            if 0 <= k && k + n@.len() <= h@.len() {
                assert(k < i);
            }
        }
    }
    false
}

} // verus!
