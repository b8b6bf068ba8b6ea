//! Verified helpers for working with strings as sequences of characters:
//! equality, substring search, prefix and suffix tests, path components,
//! decimal digits.

use vstd::prelude::*;

verus! {

/// `needle` occurs in `hay` starting at position `k`.
pub open spec fn matches_at(hay: Seq<char>, needle: Seq<char>, k: int) -> bool {
    &&& 0 <= k
    &&& k + needle.len() <= hay.len()
    &&& hay.subrange(k, k + needle.len() as int) == needle
}

/// `needle` occurs somewhere in `hay`.
pub open spec fn is_substring(hay: Seq<char>, needle: Seq<char>) -> bool {
    exists|k: int| matches_at(hay, needle, k)
}

/// Character-for-character equality of two string slices.
pub fn str_eq(a: &str, b: &str) -> (r: bool)
    ensures
        r == (a@ == b@),
{
    let alen = a.unicode_len();
    let blen = b.unicode_len();
    if alen != blen {
        assert(a@ != b@);
        return false;
    }
    let mut i: usize = 0;
    while i < alen
        invariant
            alen == a@.len(),
            alen == b@.len(),
            0 <= i <= alen,
            forall|j: int| 0 <= j < i ==> a@[j] == b@[j],
        decreases alen - i,
    {
        if a.get_char(i) != b.get_char(i) {
            assert(a@ != b@);
            return false;
        }
        i = i + 1;
    }
    assert(a@ =~= b@);
    true
}

/// Index of the first occurrence of `needle` in `hay`, if any.
pub fn str_index_of(hay: &str, needle: &str) -> (r: Option<usize>)
    ensures
        match r {
            Some(k) => matches_at(hay@, needle@, k as int) && forall|k2: int|
                0 <= k2 < k ==> !matches_at(hay@, needle@, k2),
            None => !is_substring(hay@, needle@),
        },
        match r {
            Some(k) => find_sub(hay@, needle@) == Some(k as int),
            None => find_sub(hay@, needle@) is None,
        },
{
    let hlen = hay.unicode_len();
    let nlen = needle.unicode_len();
    if nlen > hlen {
        assert(forall|k: int| !matches_at(hay@, needle@, k));
        proof {
            lemma_find_sub_none(hay@, needle@);
        }
        return None;
    }
    let mut k: usize = 0;
    while k <= hlen - nlen
        invariant
            hlen == hay@.len(),
            nlen == needle@.len(),
            nlen <= hlen,
            0 <= k <= hlen - nlen + 1,
            forall|k2: int| 0 <= k2 < k ==> !matches_at(hay@, needle@, k2),
        decreases hlen - nlen - k + 1,
    {
        let mut j: usize = 0;
        let mut all_eq = true;
        while j < nlen
            invariant
                hlen == hay@.len(),
                nlen == needle@.len(),
                0 <= k <= hlen - nlen,
                0 <= j <= nlen,
                all_eq ==> forall|j2: int| 0 <= j2 < j ==> hay@[k + j2] == needle@[j2],
                !all_eq ==> !matches_at(hay@, needle@, k as int),
            decreases nlen - j,
        {
            if all_eq {
                if hay.get_char(k + j) != needle.get_char(j) {
                    proof {
                        let sub = hay@.subrange(k as int, k + needle@.len() as int);
                        assert(sub[j as int] == hay@[k + j]);
                        assert(sub != needle@);
                    }
                    all_eq = false;
                }
            }
            j = j + 1;
        }
        if all_eq {
            assert(hay@.subrange(k as int, k + needle@.len() as int) =~= needle@);
            proof {
                lemma_find_sub_at(hay@, needle@, k as int);
            }
            return Some(k);
        }
        if k == hlen - nlen {
            assert(forall|k2: int| k < k2 ==> !matches_at(hay@, needle@, k2));
            assert(forall|k2: int| !matches_at(hay@, needle@, k2));
            proof {
                lemma_find_sub_none(hay@, needle@);
            }
            return None;
        }
        k = k + 1;
    }
    assert(forall|k2: int| k <= k2 ==> !matches_at(hay@, needle@, k2));
    proof {
        lemma_find_sub_none(hay@, needle@);
    }
    None
}

/// The position of the first occurrence of `needle` in `hay`, if any.
pub open spec fn find_sub(hay: Seq<char>, needle: Seq<char>) -> Option<int>
    decreases hay.len(),
{
    if matches_at(hay, needle, 0) {
        Some(0)
    } else if hay.len() == 0 {
        None
    } else {
        match find_sub(hay.drop_first(), needle) {
            Some(i) => Some(i + 1),
            None => None,
        }
    }
}

/// `find_sub` returns the least match position, and `None` exactly when there
/// is no match.
pub proof fn lemma_find_sub(hay: Seq<char>, needle: Seq<char>)
    ensures
        match find_sub(hay, needle) {
            Some(k) => matches_at(hay, needle, k) && forall|k2: int|
                0 <= k2 < k ==> !matches_at(hay, needle, k2),
            None => forall|k: int| !matches_at(hay, needle, k),
        },
    decreases hay.len(),
{
    if matches_at(hay, needle, 0) {
    } else if hay.len() == 0 {
        assert forall|k: int| !matches_at(hay, needle, k) by {
            if matches_at(hay, needle, k) {
                assert(k == 0);
            }
        }
    } else {
        lemma_find_sub(hay.drop_first(), needle);
        assert forall|i: int|
            matches_at(hay.drop_first(), needle, i) == matches_at(hay, needle, i + 1) by {
            if 0 <= i && i + needle.len() <= hay.len() - 1 {
                assert(hay.drop_first().subrange(i, i + needle.len() as int) =~= hay.subrange(
                    i + 1,
                    i + 1 + needle.len() as int,
                ));
            }
        }
        match find_sub(hay.drop_first(), needle) {
            Some(i) => {
                assert(find_sub(hay, needle) == Some(i + 1));
                assert(matches_at(hay.drop_first(), needle, i));
                assert(matches_at(hay, needle, i + 1));
                assert forall|k2: int| 0 <= k2 < i + 1 implies !matches_at(hay, needle, k2) by {
                    if k2 > 0 {
                        assert(!matches_at(hay.drop_first(), needle, k2 - 1));
                    }
                }
            },
            None => {
                assert forall|k: int| !matches_at(hay, needle, k) by {
                    if k > 0 {
                        assert(!matches_at(hay.drop_first(), needle, k - 1));
                    }
                }
            },
        }
    }
}

pub proof fn lemma_find_sub_at(hay: Seq<char>, needle: Seq<char>, k: int)
    requires
        matches_at(hay, needle, k),
        forall|k2: int| 0 <= k2 < k ==> !matches_at(hay, needle, k2),
    ensures
        find_sub(hay, needle) == Some(k),
{
    lemma_find_sub(hay, needle);
    match find_sub(hay, needle) {
        Some(kk) => {
            if kk < k {
                assert(!matches_at(hay, needle, kk));
            }
            if k < kk {
                assert(!matches_at(hay, needle, k));
            }
        },
        None => {
            assert(!matches_at(hay, needle, k));
        },
    }
}

pub proof fn lemma_find_sub_none(hay: Seq<char>, needle: Seq<char>)
    requires
        forall|k: int| !matches_at(hay, needle, k),
    ensures
        find_sub(hay, needle) is None,
{
    lemma_find_sub(hay, needle);
    match find_sub(hay, needle) {
        Some(kk) => {
            assert(!matches_at(hay, needle, kk));
        },
        None => {},
    }
}

/// Whether `needle` occurs anywhere in `hay`.
pub fn str_contains(hay: &str, needle: &str) -> (r: bool)
    ensures
        r == is_substring(hay@, needle@),
{
    match str_index_of(hay, needle) {
        Some(k) => {
            assert(is_substring(hay@, needle@));
            true
        },
        None => false,
    }
}

/// `prefix` is an initial segment of `s`.
pub open spec fn has_prefix(s: Seq<char>, prefix: Seq<char>) -> bool {
    matches_at(s, prefix, 0)
}

/// Whether `s` begins with `prefix`.
pub fn str_starts_with(s: &str, prefix: &str) -> (r: bool)
    ensures
        r == has_prefix(s@, prefix@),
{
    let slen = s.unicode_len();
    let plen = prefix.unicode_len();
    if plen > slen {
        return false;
    }
    let mut j: usize = 0;
    while j < plen
        invariant
            slen == s@.len(),
            plen == prefix@.len(),
            plen <= slen,
            0 <= j <= plen,
            forall|j2: int| 0 <= j2 < j ==> s@[j2] == prefix@[j2],
        decreases plen - j,
    {
        if s.get_char(j) != prefix.get_char(j) {
            proof {
                let sub = s@.subrange(0, prefix@.len() as int);
                assert(sub[j as int] == s@[j as int]);
                assert(sub != prefix@);
            }
            return false;
        }
        j = j + 1;
    }
    assert(s@.subrange(0, prefix@.len() as int) =~= prefix@);
    true
}

/// `suffix` is a final segment of `s`.
pub open spec fn has_suffix(s: Seq<char>, suffix: Seq<char>) -> bool {
    matches_at(s, suffix, s.len() - suffix.len())
}

/// Whether `s` ends with `suffix`.
pub fn str_ends_with(s: &str, suffix: &str) -> (r: bool)
    ensures
        r == has_suffix(s@, suffix@),
{
    let slen = s.unicode_len();
    let xlen = suffix.unicode_len();
    if xlen > slen {
        return false;
    }
    let base: usize = slen - xlen;
    let mut j: usize = 0;
    while j < xlen
        invariant
            slen == s@.len(),
            xlen == suffix@.len(),
            xlen <= slen,
            base == slen - xlen,
            0 <= j <= xlen,
            forall|j2: int| 0 <= j2 < j ==> s@[base + j2] == suffix@[j2],
        decreases xlen - j,
    {
        if s.get_char(base + j) != suffix.get_char(j) {
            proof {
                let sub = s@.subrange(base as int, base + suffix@.len() as int);
                assert(sub[j as int] == s@[base + j]);
                assert(sub != suffix@);
            }
            return false;
        }
        j = j + 1;
    }
    assert(s@.subrange(base as int, base + suffix@.len() as int) =~= suffix@);
    true
}

/// An ASCII decimal digit.
pub open spec fn is_dec_digit(c: char) -> bool {
    48 <= c as u32 <= 57
}

pub open spec fn all_dec_digits(s: Seq<char>) -> bool {
    forall|i: int| 0 <= i < s.len() ==> is_dec_digit(#[trigger] s[i])
}

pub open spec fn dec_digit_val(c: char) -> nat {
    (c as u32 - 48) as nat
}

/// The value of a sequence of decimal digits (most significant first).
pub open spec fn dec_val(s: Seq<char>) -> nat
    decreases s.len(),
{
    if s.len() == 0 {
        0
    } else {
        dec_val(s.drop_last()) * 10 + dec_digit_val(s.last())
    }
}

proof fn lemma_dec_val_extend_ge(s: Seq<char>, i: int)
    requires
        0 <= i <= s.len(),
    ensures
        dec_val(s) >= dec_val(s.subrange(0, i)),
    decreases s.len() - i,
{
    if i < s.len() {
        lemma_dec_val_extend_ge(s, i + 1);
        let t = s.subrange(0, i + 1);
        assert(t.drop_last() =~= s.subrange(0, i));
        assert(dec_val(t) == dec_val(s.subrange(0, i)) * 10 + dec_digit_val(t.last()));
        assert(dec_val(s.subrange(0, i)) * 10 >= dec_val(s.subrange(0, i)) * 1);
    } else {
        assert(s.subrange(0, i) =~= s);
    }
}

/// Parse an unsigned decimal number; `None` on an empty string, a non-digit
/// character, or a value that does not fit in `u64`.
pub fn parse_u64(s: &str) -> (r: Option<u64>)
    ensures
        match r {
            Some(v) => s@.len() > 0 && all_dec_digits(s@) && v as nat == dec_val(s@),
            None => s@.len() == 0 || !all_dec_digits(s@) || dec_val(s@) > u64::MAX,
        },
{
    let len = s.unicode_len();
    if len == 0 {
        return None;
    }
    let mut acc: u64 = 0;
    let mut i: usize = 0;
    while i < len
        invariant
            len == s@.len(),
            0 <= i <= len,
            all_dec_digits(s@.subrange(0, i as int)),
            acc as nat == dec_val(s@.subrange(0, i as int)),
        decreases len - i,
    {
        let c = s.get_char(i);
        let cu = c as u32;
        if cu < 48 || cu > 57 {
            assert(!is_dec_digit(s@[i as int]));
            return None;
        }
        let d: u64 = (cu - 48) as u64;
        if acc > (u64::MAX - d) / 10 {
            proof {
                let t = s@.subrange(0, i + 1);
                assert(t.drop_last() =~= s@.subrange(0, i as int));
                assert(acc * 10 + d > u64::MAX) by (nonlinear_arith)
                    requires
                        acc > (u64::MAX - d) / 10,
                        d <= 9,
                ;
                assert(dec_val(t) > u64::MAX);
                lemma_dec_val_extend_ge(s@, i + 1);
            }
            return None;
        }
        proof {
            assert(acc * 10 + d <= u64::MAX) by (nonlinear_arith)
                requires
                    acc <= (u64::MAX - d) / 10,
                    d <= 9,
            ;
            let t = s@.subrange(0, i + 1);
            assert(t.drop_last() =~= s@.subrange(0, i as int));
            assert(t.last() == s@[i as int]);
        }
        acc = acc * 10 + d;
        i = i + 1;
    }
    assert(s@.subrange(0, len as int) =~= s@);
    Some(acc)
}

/// The longest run of decimal digits at the front of `s`.
pub open spec fn digits_prefix(s: Seq<char>) -> Seq<char>
    decreases s.len(),
{
    if s.len() > 0 && is_dec_digit(s.first()) {
        seq![s.first()] + digits_prefix(s.drop_first())
    } else {
        Seq::empty()
    }
}

/// If the first `m` characters of `s` are digits and the next one (if any)
/// is not, the digits prefix is exactly those `m` characters.
pub proof fn lemma_digits_prefix(s: Seq<char>, m: int)
    requires
        0 <= m <= s.len(),
        forall|j: int| 0 <= j < m ==> is_dec_digit(#[trigger] s[j]),
        m == s.len() || !is_dec_digit(s[m]),
    ensures
        digits_prefix(s) =~= s.subrange(0, m),
    decreases s.len(),
{
    if m == 0 {
    } else {
        lemma_digits_prefix(s.drop_first(), m - 1);
        assert(s.drop_first().subrange(0, m - 1) =~= s.subrange(1, m));
    }
}

/// The digit character for a value below ten.
pub open spec fn digit_char(d: nat) -> char {
    if d == 0 {
        '0'
    } else if d == 1 {
        '1'
    } else if d == 2 {
        '2'
    } else if d == 3 {
        '3'
    } else if d == 4 {
        '4'
    } else if d == 5 {
        '5'
    } else if d == 6 {
        '6'
    } else if d == 7 {
        '7'
    } else if d == 8 {
        '8'
    } else {
        '9'
    }
}

/// Decimal rendering of a natural number (no leading zeros).
pub open spec fn dec_str(n: nat) -> Seq<char>
    decreases n,
{
    if n < 10 {
        seq![digit_char(n)]
    } else {
        dec_str(n / 10) + seq![digit_char(n % 10)]
    }
}

fn append_digit(out: &mut String, d: u64)
    requires
        d < 10,
    ensures
        final(out)@ == old(out)@ + seq![digit_char(d as nat)],
{
    proof {
        reveal_strlit("0");
        reveal_strlit("1");
        reveal_strlit("2");
        reveal_strlit("3");
        reveal_strlit("4");
        reveal_strlit("5");
        reveal_strlit("6");
        reveal_strlit("7");
        reveal_strlit("8");
        reveal_strlit("9");
    }
    if d == 0 {
        out.append("0");
    } else if d == 1 {
        out.append("1");
    } else if d == 2 {
        out.append("2");
    } else if d == 3 {
        out.append("3");
    } else if d == 4 {
        out.append("4");
    } else if d == 5 {
        out.append("5");
    } else if d == 6 {
        out.append("6");
    } else if d == 7 {
        out.append("7");
    } else if d == 8 {
        out.append("8");
    } else {
        out.append("9");
    }
    assert(final(out)@ =~= old(out)@ + seq![digit_char(d as nat)]);
}

fn push_dec(out: &mut String, n: u64)
    ensures
        final(out)@ == old(out)@ + dec_str(n as nat),
    decreases n,
{
    if n < 10 {
        append_digit(out, n);
    } else {
        push_dec(out, n / 10);
        append_digit(out, n % 10);
        assert(final(out)@ =~= old(out)@ + dec_str(n as nat));
    }
}

/// A decimal rendering has at least one digit.
pub proof fn lemma_dec_str_len(n: nat)
    ensures
        dec_str(n).len() >= 1,
    decreases n,
{
    if n >= 10 {
        lemma_dec_str_len(n / 10);
    }
}

/// Render a `u64` in decimal.
pub fn u64_to_string(n: u64) -> (r: String)
    ensures
        r@ == dec_str(n as nat),
{
    let mut out = String::new();
    push_dec(&mut out, n);
    assert(out@ =~= dec_str(n as nat));
    out
}

pub open spec fn strip_trailing_slashes(s: Seq<char>) -> Seq<char>
    decreases s.len(),
{
    if s.len() > 0 && s.last() == '/' {
        strip_trailing_slashes(s.drop_last())
    } else {
        s
    }
}

pub open spec fn after_last_slash(s: Seq<char>) -> Seq<char>
    decreases s.len(),
{
    if s.len() == 0 {
        s
    } else if s.last() == '/' {
        Seq::empty()
    } else {
        after_last_slash(s.drop_last()) + seq![s.last()]
    }
}

/// The final component of a `/`-separated path: trailing slashes are ignored,
/// and a component of `..` (or an empty path) yields the empty string.
pub open spec fn file_name_spec(s: Seq<char>) -> Seq<char> {
    let c = after_last_slash(strip_trailing_slashes(s));
    if c == seq!['.', '.'] {
        Seq::empty()
    } else {
        c
    }
}

/// The final component of a `/`-separated path.
#[verifier::rlimit(50)]
pub fn file_name<'a>(path: &'a str) -> (r: &'a str)
    ensures
        r@ == file_name_spec(path@),
{
    let len = path.unicode_len();
    let mut e: usize = len;
    assert(path@.subrange(0, len as int) =~= path@);
    while e > 0 && path.get_char(e - 1) == '/'
        invariant
            len == path@.len(),
            0 <= e <= len,
            strip_trailing_slashes(path@) == strip_trailing_slashes(path@.subrange(0, e as int)),
        decreases e,
    {
        proof {
            let t = path@.subrange(0, e as int);
            assert(t.drop_last() =~= path@.subrange(0, e - 1));
        }
        e = e - 1;
    }
    proof {
        let t = path@.subrange(0, e as int);
        assert(strip_trailing_slashes(t) == t);
    }
    let mut j: usize = e;
    while j > 0 && path.get_char(j - 1) != '/'
        invariant
            len == path@.len(),
            0 <= j <= e <= len,
            after_last_slash(path@.subrange(0, e as int)) =~= after_last_slash(
                path@.subrange(0, j as int),
            ) + path@.subrange(j as int, e as int),
        decreases j,
    {
        proof {
            let t = path@.subrange(0, j as int);
            assert(t.drop_last() =~= path@.subrange(0, j - 1));
            assert(after_last_slash(t) =~= after_last_slash(path@.subrange(0, j - 1)) + seq![
                path@[j - 1],
            ]);
            assert(after_last_slash(path@.subrange(0, j - 1)) + path@.subrange(j - 1, e as int)
                =~= after_last_slash(t) + path@.subrange(j as int, e as int));
        }
        j = j - 1;
    }
    proof {
        if j == 0 {
            assert(path@.subrange(0, 0) =~= Seq::<char>::empty());
            assert(after_last_slash(Seq::<char>::empty()).len() == 0);
        } else {
            let t = path@.subrange(0, j as int);
            assert(t.last() == '/');
        }
        assert(after_last_slash(path@.subrange(0, e as int)) =~= path@.subrange(
            j as int,
            e as int,
        ));
    }
    let comp = path.substring_char(j, e);
    proof {
        reveal_strlit("..");
        assert("..".view() =~= seq!['.', '.']);
        reveal_strlit("");
        assert("".view() =~= Seq::<char>::empty());
    }
    if str_eq(comp, "..") {
        ""
    } else {
        comp
    }
}

/// `s` with every double-quote preceded by a backslash.
pub open spec fn escape_quotes_spec(s: Seq<char>) -> Seq<char>
    decreases s.len(),
{
    if s.len() == 0 {
        s
    } else {
        escape_quotes_spec(s.drop_last()) + (if s.last() == '"' {
            seq!['\\', '"']
        } else {
            seq![s.last()]
        })
    }
}

/// Escape double quotes with backslashes, as needed when a shell command is
/// spliced into a quoted script string.
pub fn escape_quotes(s: &str) -> (r: String)
    ensures
        r@ == escape_quotes_spec(s@),
{
    let len = s.unicode_len();
    let mut out = String::new();
    let mut i: usize = 0;
    while i < len
        invariant
            len == s@.len(),
            0 <= i <= len,
            out@ == escape_quotes_spec(s@.subrange(0, i as int)),
        decreases len - i,
    {
        let c = s.get_char(i);
        if c == '"' {
            proof {
                reveal_strlit("\\\"");
                assert("\\\"".view() =~= seq!['\\', '"']);
            }
            out.append("\\\"");
        } else {
            let piece = s.substring_char(i, i + 1);
            assert(piece@ =~= seq![s@[i as int]]);
            out.append(piece);
        }
        proof {
            let t = s@.subrange(0, i + 1);
            assert(t.drop_last() =~= s@.subrange(0, i as int));
            assert(t.last() == s@[i as int]);
            assert(out@ =~= escape_quotes_spec(t));
        }
        i = i + 1;
    }
    assert(s@.subrange(0, len as int) =~= s@);
    out
}


/// Substring containment composes: a string containing `a` contains
/// everything `a` contains.
pub proof fn lemma_substring_trans(t: Seq<char>, a: Seq<char>, b: Seq<char>)
    requires
        is_substring(t, a),
        is_substring(a, b),
    ensures
        is_substring(t, b),
{
    let k1 = choose|k: int| matches_at(t, a, k);
    let k2 = choose|k: int| matches_at(a, b, k);
    assert(t.subrange(k1 + k2, k1 + k2 + b.len() as int) =~= b) by {
        let sub = t.subrange(k1, k1 + a.len() as int);
        assert(sub.subrange(k2, k2 + b.len() as int) =~= t.subrange(
            k1 + k2,
            k1 + k2 + b.len() as int,
        ));
    }
    assert(matches_at(t, b, k1 + k2));
}

proof fn lemma_strip_trailing_is_prefix(s: Seq<char>)
    ensures
        exists|m: int|
            0 <= m <= s.len() && strip_trailing_slashes(s) =~= #[trigger] s.subrange(0, m),
    decreases s.len(),
{
    if s.len() > 0 && s.last() == '/' {
        lemma_strip_trailing_is_prefix(s.drop_last());
        let m = choose|m: int|
            0 <= m <= s.drop_last().len() && strip_trailing_slashes(s.drop_last())
                =~= #[trigger] s.drop_last().subrange(0, m);
        assert(s.drop_last().subrange(0, m) =~= s.subrange(0, m));
    } else {
        assert(strip_trailing_slashes(s) =~= s.subrange(0, s.len() as int));
    }
}

proof fn lemma_after_last_slash_is_suffix(s: Seq<char>)
    ensures
        exists|j: int|
            0 <= j <= s.len() && after_last_slash(s) =~= #[trigger] s.subrange(j, s.len() as int),
    decreases s.len(),
{
    if s.len() == 0 {
        assert(after_last_slash(s) =~= s.subrange(0, 0));
    } else if s.last() == '/' {
        assert(after_last_slash(s) =~= s.subrange(s.len() as int, s.len() as int));
    } else {
        lemma_after_last_slash_is_suffix(s.drop_last());
        let j = choose|j: int|
            0 <= j <= s.drop_last().len() && after_last_slash(s.drop_last())
                =~= #[trigger] s.drop_last().subrange(j, s.drop_last().len() as int);
        assert(after_last_slash(s) =~= s.subrange(j, s.len() as int)) by {
            assert(s.drop_last().subrange(j, s.drop_last().len() as int) =~= s.subrange(
                j,
                s.len() - 1,
            ));
            assert(after_last_slash(s) =~= s.subrange(j, s.len() - 1) + seq![s.last()]);
        }
    }
}

/// A path contains its own final component.
pub proof fn lemma_file_name_substring(p: Seq<char>)
    ensures
        is_substring(p, file_name_spec(p)),
{
    let c = after_last_slash(strip_trailing_slashes(p));
    if c == seq!['.', '.'] {
        assert(p.subrange(0, 0) =~= Seq::<char>::empty());
        assert(matches_at(p, Seq::<char>::empty(), 0));
    } else {
        lemma_strip_trailing_is_prefix(p);
        let m = choose|m: int|
            0 <= m <= p.len() && strip_trailing_slashes(p) =~= #[trigger] p.subrange(0, m);
        let q = strip_trailing_slashes(p);
        lemma_after_last_slash_is_suffix(q);
        let j = choose|j: int|
            0 <= j <= q.len() && after_last_slash(q) =~= #[trigger] q.subrange(j, q.len() as int);
        assert(p.subrange(j, j + c.len() as int) =~= c) by {
            assert(q =~= p.subrange(0, m));
            assert(q.subrange(j, q.len() as int) =~= p.subrange(j, m));
        }
        assert(matches_at(p, c, j));
    }
}


/// The position of the first occurrence of the character `c` in `s`, if any.
pub open spec fn find_char(s: Seq<char>, c: char) -> Option<int>
    decreases s.len(),
{
    if s.len() == 0 {
        None
    } else if s[0] == c {
        Some(0)
    } else {
        match find_char(s.drop_first(), c) {
            Some(i) => Some(i + 1),
            None => None,
        }
    }
}

/// `find_char` returns the least position of `c`, and `None` exactly when
/// `c` does not occur.
pub proof fn lemma_find_char(s: Seq<char>, c: char)
    ensures
        match find_char(s, c) {
            Some(i) => 0 <= i < s.len() && s[i] == c && forall|j: int| 0 <= j < i ==> s[j] != c,
            None => forall|j: int| 0 <= j < s.len() ==> s[j] != c,
        },
    decreases s.len(),
{
    if s.len() == 0 {
    } else if s[0] == c {
    } else {
        lemma_find_char(s.drop_first(), c);
        let t = s.drop_first();
        assert(forall|j: int| 0 <= j < t.len() ==> #[trigger] t[j] == s[j + 1]);
        match find_char(t, c) {
            Some(i) => {
                assert(find_char(s, c) == Some(i + 1));
                assert(t[i] == s[i + 1]);
                assert forall|j: int| 0 <= j < i + 1 implies s[j] != c by {
                    if j > 0 {
                        assert(t[j - 1] == s[j]);
                    }
                }
            },
            None => {
                assert forall|j: int| 0 <= j < s.len() implies s[j] != c by {
                    if j > 0 {
                        assert(t[j - 1] == s[j]);
                    }
                }
            },
        }
    }
}

/// The first position of `c` in `s`, if any.
pub fn str_find_char(s: &str, c: char) -> (r: Option<usize>)
    ensures
        match r {
            Some(i) => find_char(s@, c) == Some(i as int) && i < s@.len(),
            None => find_char(s@, c) is None,
        },
{
    let len = s.unicode_len();
    let mut i: usize = 0;
    while i < len
        invariant
            len == s@.len(),
            0 <= i <= len,
            forall|j: int| 0 <= j < i ==> s@[j] != c,
        decreases len - i,
    {
        if s.get_char(i) == c {
            proof {
                lemma_find_char(s@, c);
                match find_char(s@, c) {
                    Some(k) => {
                        if k < i {
                            assert(s@[k] != c);
                        }
                        if i < k {
                            assert(s@[i as int] != c);
                        }
                    },
                    None => {
                        assert(s@[i as int] != c);
                    },
                }
            }
            return Some(i);
        }
        i = i + 1;
    }
    proof {
        lemma_find_char(s@, c);
        match find_char(s@, c) {
            Some(k) => {
                assert(s@[k] != c);
            },
            None => {},
        }
    }
    None
}


/// ASCII whitespace, as trimmed from command output lines.
pub open spec fn is_space(c: char) -> bool {
    c == ' ' || c == '\t' || c == '\r' || c == '\n'
}

pub open spec fn trim_front(s: Seq<char>) -> Seq<char>
    decreases s.len(),
{
    if s.len() > 0 && is_space(s.first()) {
        trim_front(s.drop_first())
    } else {
        s
    }
}

pub open spec fn trim_back(s: Seq<char>) -> Seq<char>
    decreases s.len(),
{
    if s.len() > 0 && is_space(s.last()) {
        trim_back(s.drop_last())
    } else {
        s
    }
}

/// `s` with ASCII whitespace removed from both ends.
pub open spec fn trim_spec(s: Seq<char>) -> Seq<char> {
    trim_back(trim_front(s))
}

/// Whether the character is ASCII whitespace.
fn is_space_char(c: char) -> (r: bool)
    ensures
        r == is_space(c),
{
    c == ' ' || c == '\t' || c == '\r' || c == '\n'
}

/// Trim ASCII whitespace from both ends of `s`.
pub fn trim<'a>(s: &'a str) -> (r: &'a str)
    ensures
        r@ == trim_spec(s@),
{
    let len = s.unicode_len();
    let mut b: usize = 0;
    assert(s@.subrange(0, len as int) =~= s@);
    while b < len && is_space_char(s.get_char(b))
        invariant
            len == s@.len(),
            0 <= b <= len,
            trim_front(s@) == trim_front(s@.subrange(b as int, len as int)),
        decreases len - b,
    {
        proof {
            let t = s@.subrange(b as int, len as int);
            assert(t.first() == s@[b as int]);
            assert(t.drop_first() =~= s@.subrange(b + 1, len as int));
        }
        b = b + 1;
    }
    proof {
        let t = s@.subrange(b as int, len as int);
        if t.len() > 0 {
            assert(t.first() == s@[b as int]);
        }
        assert(trim_front(s@) == t);
    }
    let mut e: usize = len;
    while e > b && is_space_char(s.get_char(e - 1))
        invariant
            len == s@.len(),
            0 <= b <= e <= len,
            trim_front(s@) == s@.subrange(b as int, len as int),
            trim_back(s@.subrange(b as int, len as int)) == trim_back(
                s@.subrange(b as int, e as int),
            ),
        decreases e,
    {
        proof {
            let t = s@.subrange(b as int, e as int);
            assert(t.last() == s@[e - 1]);
            assert(t.drop_last() =~= s@.subrange(b as int, e - 1));
        }
        e = e - 1;
    }
    proof {
        let t = s@.subrange(b as int, e as int);
        if t.len() > 0 {
            assert(t.last() == s@[e - 1]);
        }
        assert(trim_back(t) == t);
    }
    s.substring_char(b, e)
}

} // verus!
