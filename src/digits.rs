//! Decimal numbers shown with their digits grouped by thousands.

use vstd::prelude::*;

verus! {

/// The narrow no-break space that separates groups of three digits.
pub open spec fn separator() -> char {
    '\u{202F}'
}

pub open spec fn is_digit_string(s: Seq<char>) -> bool {
    s.len() > 0 && forall|i: int| 0 <= i < s.len() ==> '0' <= #[trigger] s[i] <= '9'
}

/// `s` with a separator before each group of three characters counted from
/// the right, except in front of the first character.
pub open spec fn thousands(s: Seq<char>) -> Seq<char>
    decreases s.len(),
{
    if s.len() <= 3 {
        s
    } else {
        thousands(s.take(s.len() - 3)) + seq![separator()] + s.skip(s.len() - 3)
    }
}

/// Numbers of up to four digits are shown as they are; longer ones are
/// grouped by thousands.
pub open spec fn grouped(s: Seq<char>) -> Seq<char> {
    if s.len() <= 4 {
        s
    } else {
        thousands(s)
    }
}

/// Whether a separator goes in front of the character at `k` in a string of
/// `n` characters.
spec fn sep_before(n: int, k: int) -> bool {
    k != 0 && (n - k) % 3 == 0
}

/// The first `k` characters of `s`, with separators placed as in a string of
/// `n` characters.
spec fn marked(s: Seq<char>, n: int, k: int) -> Seq<char>
    decreases k,
{
    if k <= 0 {
        Seq::empty()
    } else {
        marked(s, n, k - 1) + (if sep_before(n, k - 1) {
            seq![separator()]
        } else {
            Seq::empty()
        }) + seq![s[k - 1]]
    }
}

proof fn lemma_marked_prefix(s: Seq<char>, n: int, m: int, k: int)
    requires
        0 <= k <= m <= s.len(),
        (n - m) % 3 == 0,
    ensures
        marked(s, n, k) == marked(s.take(m), m, k),
    decreases k,
{
    if k > 0 {
        lemma_marked_prefix(s, n, m, k - 1);
        assert(sep_before(n, k - 1) == sep_before(m, k - 1));
    }
}

proof fn lemma_marked_short(s: Seq<char>, k: int)
    requires
        0 <= k <= s.len() <= 3,
    ensures
        marked(s, s.len() as int, k) == s.take(k),
    decreases k,
{
    if k > 0 {
        lemma_marked_short(s, k - 1);
        assert(!sep_before(s.len() as int, k - 1));
        assert(s.take(k) =~= s.take(k - 1) + seq![s[k - 1]]);
    }
}

proof fn lemma_marked_is_thousands(s: Seq<char>)
    ensures
        marked(s, s.len() as int, s.len() as int) == thousands(s),
    decreases s.len(),
{
    let n = s.len() as int;
    if n <= 3 {
        lemma_marked_short(s, n);
        assert(s.take(n) =~= s);
    } else {
        let m = n - 3;
        lemma_marked_prefix(s, n, m, m);
        lemma_marked_is_thousands(s.take(m));
        assert(sep_before(n, m));
        assert(!sep_before(n, m + 1));
        assert(!sep_before(n, m + 2));
        let head = marked(s, n, m);
        assert(marked(s, n, m + 1) =~= head + seq![separator(), s[m]]);
        assert(marked(s, n, m + 2) =~= head + seq![separator(), s[m], s[m + 1]]);
        assert(marked(s, n, n) =~= head + seq![separator(), s[m], s[m + 1], s[m + 2]]);
        assert(marked(s, n, n) =~= head + seq![separator()] + s.skip(m));
    }
}

/// Shows a decimal number with a narrow no-break space between groups of
/// three digits, counted from the right; numbers of up to four digits are
/// left as they are. `None` where the input is not a non-empty run of digits.
pub fn group_digits(digits: &str) -> (r: Option<String>)
    ensures
        r is Some <==> is_digit_string(digits@),
        r is Some ==> r->0@ == grouped(digits@),
{
    let n = digits.unicode_len();
    if n == 0 {
        return None;
    }
    let mut k: usize = 0;
    while k < n
        invariant
            n == digits@.len(),
            k <= n,
            forall|j: int| 0 <= j < k ==> '0' <= #[trigger] digits@[j] <= '9',
        decreases n - k,
    {
        let c = digits.get_char(k);
        if !('0' <= c && c <= '9') {
            return None;
        }
        k = k + 1;
    }
    if n <= 4 {
        return Some(String::from_str(digits));
    }
    let sep = "\u{202F}";
    proof {
        reveal_strlit("\u{202F}");
    }
    let mut out = String::new();
    let mut k: usize = 0;
    while k < n
        invariant
            n == digits@.len(),
            k <= n,
            sep@ == seq![separator()],
            out@ == marked(digits@, n as int, k as int),
        decreases n - k,
    {
        if k != 0 && (n - k) % 3 == 0 {
            out.append(sep);
        }
        out.append(digits.substring_char(k, k + 1));
        k = k + 1;
        assert(out@ =~= marked(digits@, n as int, k as int));
    }
    proof {
        lemma_marked_is_thousands(digits@);
    }
    Some(out)
}

} // verus!
