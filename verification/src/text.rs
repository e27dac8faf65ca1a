use vstd::prelude::*;

verus! {

// ---------------------------------------------------------------------------
// Decimal digits: specification
// ---------------------------------------------------------------------------

pub open spec fn is_dec_digit(c: char) -> bool {
    '0' <= c && c <= '9'
}

pub open spec fn digit_val(c: char) -> int {
    c as u32 - '0' as u32
}

pub open spec fn digit_char(d: int) -> char {
    ((d + 48) as u8) as char
}

pub open spec fn all_dec_digits(s: Seq<char>) -> bool {
    forall|i: int| 0 <= i < s.len() ==> is_dec_digit(#[trigger] s[i])
}

/// Value of a non-empty digit string, most significant digit first.
pub open spec fn dec_val(s: Seq<char>) -> int
    decreases s.len(),
{
    if s.len() == 0 {
        0
    } else {
        dec_val(s.drop_last()) * 10 + digit_val(s.last())
    }
}

/// Digit sequence of `n` without a leading zero; empty for `n == 0`.
pub open spec fn dec_digits_aux(n: int) -> Seq<char>
    decreases n,
{
    if n <= 0 {
        Seq::empty()
    } else {
        dec_digits_aux(n / 10).push(digit_char(n % 10))
    }
}

/// Canonical decimal rendering of a non-negative number.
pub open spec fn dec_of(n: int) -> Seq<char> {
    if n == 0 {
        seq!['0']
    } else {
        dec_digits_aux(n)
    }
}

/// Canonical decimal rendering of a possibly negative number.
pub open spec fn dec_of_int(n: int) -> Seq<char> {
    if n < 0 {
        seq!['-'] + dec_of(-n)
    } else {
        dec_of(n)
    }
}

// ---------------------------------------------------------------------------
// Trusted string construction
// ---------------------------------------------------------------------------

/// Relies on `String::from_utf8`: ASCII bytes decode to one char per byte,
/// and an all-ASCII byte vector is valid UTF-8, so `unwrap` cannot panic.
#[verifier::external_body]
pub fn string_from_ascii(bytes: Vec<u8>) -> (r: String)
    requires
        forall|i: int| 0 <= i < bytes@.len() ==> bytes@[i] < 128,
    ensures
        r@ == bytes@.map_values(|b: u8| b as char),
{
    String::from_utf8(bytes).unwrap()
}

// ---------------------------------------------------------------------------
// Decimal formatting (exec)
// ---------------------------------------------------------------------------

proof fn lemma_digit_char_val(d: int)
    requires
        0 <= d <= 9,
    ensures
        is_dec_digit(digit_char(d)),
        digit_val(digit_char(d)) == d,
        digit_char(d) as u8 == d + 48,
{
}

/// All characters of a canonical decimal rendering are digits below 128.
proof fn lemma_dec_digits_aux_ascii(n: int)
    ensures
        forall|i: int|
            0 <= i < dec_digits_aux(n).len() ==> is_dec_digit(#[trigger] dec_digits_aux(n)[i]),
    decreases n,
{
    if n > 0 {
        lemma_dec_digits_aux_ascii(n / 10);
        lemma_digit_char_val(n % 10);
        assert forall|i: int| 0 <= i < dec_digits_aux(n).len() implies is_dec_digit(
            #[trigger] dec_digits_aux(n)[i],
        ) by {
            if i < dec_digits_aux(n / 10).len() {
                assert(dec_digits_aux(n)[i] == dec_digits_aux(n / 10)[i]);
            } else {
                assert(dec_digits_aux(n)[i] == digit_char(n % 10));
            }
        }
    }
}

/// Decimal rendering of a `u64`, most significant digit first.
pub fn u64_to_dec(n: u64) -> (r: String)
    ensures
        r@ == dec_of(n as int),
{
    let mut rev: Vec<u8> = Vec::new();
    let mut m: u64 = n;
    while m > 0
        invariant
            dec_digits_aux(n as int) == dec_digits_aux(m as int) + rev@.map_values(
                |b: u8| b as char,
            ).reverse(),
            forall|i: int| 0 <= i < rev@.len() ==> 48 <= #[trigger] rev@[i] < 58,
        decreases m,
    {
        let d: u8 = (m % 10) as u8;
        let ghost old_rev = rev@;
        rev.push(d + 48);
        m = m / 10;
        proof {
            lemma_digit_char_val(d as int);
            assert(rev@.map_values(|b: u8| b as char).reverse() =~= seq![
                digit_char(d as int),
            ] + old_rev.map_values(|b: u8| b as char).reverse());
            assert(dec_digits_aux((m * 10 + d) as int) == dec_digits_aux(m as int).push(
                digit_char(d as int),
            ));
            assert(dec_digits_aux(m as int).push(digit_char(d as int)) + old_rev.map_values(
                |b: u8| b as char,
            ).reverse() =~= dec_digits_aux(m as int) + rev@.map_values(|b: u8| b as char).reverse());
        }
    }
    if rev.len() == 0 {
        rev.push(48);
        proof {
            assert(n == 0);
            assert(rev@.map_values(|b: u8| b as char) =~= seq!['0']);
        }
        return string_from_ascii(rev);
    }
    let mut out: Vec<u8> = Vec::new();
    let mut i: usize = rev.len();
    while i > 0
        invariant
            i <= rev@.len(),
            forall|j: int| 0 <= j < rev@.len() ==> 48 <= #[trigger] rev@[j] < 58,
            out@ == rev@.subrange(i as int, rev@.len() as int).reverse(),
        decreases i,
    {
        let ghost old_out = out@;
        i = i - 1;
        out.push(rev[i]);
        proof {
            assert(out@ =~= rev@.subrange(i as int, rev@.len() as int).reverse());
        }
    }
    proof {
        assert(out@ =~= rev@.reverse());
        assert(out@.map_values(|b: u8| b as char) =~= rev@.map_values(|b: u8| b as char).reverse());
        assert(dec_digits_aux(n as int) =~= out@.map_values(|b: u8| b as char));
    }
    string_from_ascii(out)
}

/// Decimal rendering of an `i64`, with a leading minus sign when negative.
pub fn i64_to_dec(n: i64) -> (r: String)
    ensures
        r@ == dec_of_int(n as int),
{
    if n >= 0 {
        u64_to_dec(n as u64)
    } else {
        let mag: u64 = (-(n as i128)) as u64;
        let digits = u64_to_dec(mag);
        let mut out = String::new();
        out.append("-");
        out.append(digits.as_str());
        proof {
            reveal_strlit("-");
            assert(out@ =~= dec_of_int(n as int));
        }
        out
    }
}

/// Decimal rendering of a `u64`, left-padded with zeros to two digits.
pub fn u64_to_dec_pad2(n: u64) -> (r: String)
    requires
        n < 100,
    ensures
        n >= 10 ==> r@ == dec_of(n as int),
        n < 10 ==> r@ == seq!['0'] + dec_of(n as int),
{
    if n < 10 {
        let digits = u64_to_dec(n);
        let mut out = String::new();
        out.append("0");
        out.append(digits.as_str());
        proof {
            reveal_strlit("0");
            assert(out@ =~= seq!['0'] + dec_of(n as int));
        }
        out
    } else {
        u64_to_dec(n)
    }
}

// ---------------------------------------------------------------------------
// Decimal parsing (exec)
// ---------------------------------------------------------------------------

/// `dec_val` grows by one digit when a digit string is extended.
proof fn lemma_dec_val_extend(s: Seq<char>, i: int)
    requires
        0 <= i < s.len(),
    ensures
        dec_val(s.subrange(0, i + 1)) == dec_val(s.subrange(0, i)) * 10 + digit_val(s[i]),
{
    assert(s.subrange(0, i + 1).drop_last() =~= s.subrange(0, i));
    assert(s.subrange(0, i + 1).last() == s[i]);
}

/// The value of a digit string never falls when digits are appended.
proof fn lemma_dec_val_monotonic(s: Seq<char>, i: int)
    requires
        0 <= i <= s.len(),
        all_dec_digits(s),
    ensures
        dec_val(s.subrange(0, i)) >= 0,
        dec_val(s) >= dec_val(s.subrange(0, i)),
    decreases s.len() - i,
{
    if i == s.len() {
        assert(s.subrange(0, i) =~= s);
        lemma_dec_val_nonneg(s);
    } else {
        lemma_dec_val_monotonic(s, i + 1);
        lemma_dec_val_extend(s, i);
        lemma_dec_val_nonneg(s.subrange(0, i));
    }
}

proof fn lemma_dec_val_nonneg(s: Seq<char>)
    requires
        all_dec_digits(s),
    ensures
        dec_val(s) >= 0,
    decreases s.len(),
{
    if s.len() > 0 {
        assert(all_dec_digits(s.drop_last()));
        lemma_dec_val_nonneg(s.drop_last());
    }
}

/// Parses a non-empty, all-digit string as a `u64`.
pub fn parse_u64(s: &str) -> (r: Option<u64>)
    ensures
        r is Some <==> s@.len() >= 1 && all_dec_digits(s@) && dec_val(s@) <= u64::MAX,
        r is Some ==> r->0 == dec_val(s@),
{
    let n = s.unicode_len();
    if n == 0 {
        return None;
    }
    let mut acc: u64 = 0;
    let mut i: usize = 0;
    while i < n
        invariant
            n == s@.len(),
            0 <= i <= n,
            all_dec_digits(s@.subrange(0, i as int)),
            acc == dec_val(s@.subrange(0, i as int)),
        decreases n - i,
    {
        let c = s.get_char(i);
        if c < '0' || c > '9' {
            assert(!is_dec_digit(s@[i as int]));
            return None;
        }
        let d: u32 = c as u32 - 48;
        let next = match acc.checked_mul(10) {
            Some(t) => t.checked_add(d as u64),
            None => None,
        };
        match next {
            Some(v) => {
                proof {
                    lemma_dec_val_extend(s@, i as int);
                    assert(all_dec_digits(s@.subrange(0, i as int + 1)));
                }
                acc = v;
                i = i + 1;
            },
            None => {
                proof {
                    lemma_dec_val_extend(s@, i as int);
                    if all_dec_digits(s@) && dec_val(s@) <= u64::MAX {
                        lemma_dec_val_monotonic(s@, i as int + 1);
                    }
                }
                return None;
            },
        }
    }
    proof {
        assert(s@.subrange(0, n as int) =~= s@);
    }
    Some(acc)
}

// ---------------------------------------------------------------------------
// Integer strings with an optional sign
// ---------------------------------------------------------------------------

pub open spec fn is_int_str(s: Seq<char>) -> bool {
    if s.len() >= 1 && s[0] == '-' {
        s.len() >= 2 && all_dec_digits(s.drop_first())
    } else {
        s.len() >= 1 && all_dec_digits(s)
    }
}

pub open spec fn int_val(s: Seq<char>) -> int {
    if s.len() >= 1 && s[0] == '-' {
        -dec_val(s.drop_first())
    } else {
        dec_val(s)
    }
}

/// Parses a decimal integer with an optional leading minus sign as an `i64`.
pub fn parse_i64(s: &str) -> (r: Option<i64>)
    ensures
        r is Some <==> is_int_str(s@) && i64::MIN <= int_val(s@) <= i64::MAX,
        r is Some ==> r->0 == int_val(s@),
{
    let n = s.unicode_len();
    if n == 0 {
        return None;
    }
    let c0 = s.get_char(0);
    if c0 == '-' {
        let rest = s.substring_char(1, n);
        assert(rest@ =~= s@.drop_first());
        match parse_u64(rest) {
            Some(mag) => {
                if mag <= 9223372036854775808u64 {
                    let r: i64 = if mag == 9223372036854775808u64 {
                        i64::MIN
                    } else {
                        -(mag as i64)
                    };
                    Some(r)
                } else {
                    None
                }
            },
            None => {
                proof {
                    if is_int_str(s@) && i64::MIN <= int_val(s@) {
                        lemma_dec_val_nonneg(s@.drop_first());
                    }
                }
                None
            },
        }
    } else {
        match parse_u64(s) {
            Some(v) => {
                if v <= i64::MAX as u64 {
                    Some(v as i64)
                } else {
                    None
                }
            },
            None => None,
        }
    }
}

// ---------------------------------------------------------------------------
// Digit prefixes and whitespace trimming
// ---------------------------------------------------------------------------

/// Index of the first character that is not a decimal digit, or the length.
pub open spec fn digit_prefix_end(s: Seq<char>) -> int
    decreases s.len(),
{
    if s.len() == 0 || !is_dec_digit(s[0]) {
        0
    } else {
        1 + digit_prefix_end(s.drop_first())
    }
}

/// Any index with only digits before it and a non-digit (or the end) at it
/// is the digit prefix end.
pub proof fn lemma_digit_prefix_end_unique(s: Seq<char>, e: int)
    requires
        0 <= e <= s.len(),
        forall|k: int| 0 <= k < e ==> is_dec_digit(#[trigger] s[k]),
        e == s.len() || !is_dec_digit(s[e]),
    ensures
        digit_prefix_end(s) == e,
    decreases s.len(),
{
    if s.len() == 0 {
    } else if e == 0 {
    } else {
        assert(is_dec_digit(s[0]));
        assert(forall|k: int| 0 <= k < e - 1 ==> is_dec_digit(#[trigger] s.drop_first()[k]));
        if e - 1 < s.drop_first().len() {
            assert(s.drop_first()[e - 1] == s[e]);
        }
        lemma_digit_prefix_end_unique(s.drop_first(), e - 1);
    }
}

pub open spec fn is_ascii_space(c: char) -> bool {
    c == ' ' || c == '\t' || c == '\n' || c == '\r'
}

/// Index of the first character that is not ASCII whitespace, or the length.
pub open spec fn space_prefix_end(s: Seq<char>) -> int
    decreases s.len(),
{
    if s.len() == 0 || !is_ascii_space(s[0]) {
        0
    } else {
        1 + space_prefix_end(s.drop_first())
    }
}

/// Index just past the last character that is not ASCII whitespace, or zero.
pub open spec fn space_suffix_start(s: Seq<char>) -> int
    decreases s.len(),
{
    if s.len() == 0 || !is_ascii_space(s.last()) {
        s.len() as int
    } else {
        space_suffix_start(s.drop_last())
    }
}

/// The string with leading and trailing ASCII whitespace removed.
pub open spec fn trimmed(s: Seq<char>) -> Seq<char> {
    if space_prefix_end(s) <= space_suffix_start(s) {
        s.subrange(space_prefix_end(s), space_suffix_start(s))
    } else {
        Seq::empty()
    }
}

pub proof fn lemma_space_prefix_end_unique(s: Seq<char>, e: int)
    requires
        0 <= e <= s.len(),
        forall|k: int| 0 <= k < e ==> is_ascii_space(#[trigger] s[k]),
        e == s.len() || !is_ascii_space(s[e]),
    ensures
        space_prefix_end(s) == e,
    decreases s.len(),
{
    if s.len() == 0 {
    } else if e == 0 {
    } else {
        assert(forall|k: int| 0 <= k < e - 1 ==> is_ascii_space(#[trigger] s.drop_first()[k]));
        if e - 1 < s.drop_first().len() {
            assert(s.drop_first()[e - 1] == s[e]);
        }
        lemma_space_prefix_end_unique(s.drop_first(), e - 1);
    }
}

pub proof fn lemma_space_suffix_start_unique(s: Seq<char>, b: int)
    requires
        0 <= b <= s.len(),
        forall|k: int| b <= k < s.len() ==> is_ascii_space(#[trigger] s[k]),
        b == 0 || !is_ascii_space(s[b - 1]),
    ensures
        space_suffix_start(s) == b,
    decreases s.len(),
{
    if s.len() == 0 {
    } else if b == s.len() {
        assert(!is_ascii_space(s.last()));
    } else {
        assert(is_ascii_space(s.last()));
        assert(forall|k: int| b <= k < s.drop_last().len() ==> is_ascii_space(
            #[trigger] s.drop_last()[k],
        ));
        if b > 0 {
            assert(s.drop_last()[b - 1] == s[b - 1]);
        }
        lemma_space_suffix_start_unique(s.drop_last(), b);
    }
}

/// The string slice with leading and trailing ASCII whitespace removed.
pub fn trim_ascii(s: &str) -> (r: &str)
    ensures
        r@ == trimmed(s@),
{
    let n = s.unicode_len();
    let mut a: usize = 0;
    loop
        invariant
            n == s@.len(),
            0 <= a <= n,
            forall|k: int| 0 <= k < a ==> is_ascii_space(#[trigger] s@[k]),
        ensures
            0 <= a <= n,
            forall|k: int| 0 <= k < a ==> is_ascii_space(#[trigger] s@[k]),
            a == n || !is_ascii_space(s@[a as int]),
        decreases n - a,
    {
        if a == n {
            break ;
        }
        let c = s.get_char(a);
        if !(c == ' ' || c == '\t' || c == '\n' || c == '\r') {
            break ;
        }
        a = a + 1;
    }
    proof {
        lemma_space_prefix_end_unique(s@, a as int);
    }
    let mut b: usize = n;
    loop
        invariant
            n == s@.len(),
            0 <= b <= n,
            forall|k: int| b <= k < n ==> is_ascii_space(#[trigger] s@[k]),
        ensures
            0 <= b <= n,
            forall|k: int| b <= k < n ==> is_ascii_space(#[trigger] s@[k]),
            b == 0 || !is_ascii_space(s@[b as int - 1]),
        decreases b,
    {
        if b == 0 {
            break ;
        }
        let c = s.get_char(b - 1);
        if !(c == ' ' || c == '\t' || c == '\n' || c == '\r') {
            break ;
        }
        b = b - 1;
    }
    proof {
        lemma_space_suffix_start_unique(s@, b as int);
    }
    if a <= b {
        s.substring_char(a, b)
    } else {
        let r = s.substring_char(0, 0);
        proof {
            assert(r@ =~= trimmed(s@));
        }
        r
    }
}

// ---------------------------------------------------------------------------
// Lowercasing
// ---------------------------------------------------------------------------

/// What `str::to_lowercase` returns; the result depends on the characters
/// alone.
pub uninterp spec fn lower_of(s: Seq<char>) -> Seq<char>;

/// Relies on `str::to_lowercase`: the result depends on the characters
/// alone, and an empty string stays empty.
#[verifier::external_body]
pub fn lowercase(s: &str) -> (r: String)
    ensures
        r@ == lower_of(s@),
        s@.len() == 0 ==> r@.len() == 0,
{
    s.to_lowercase()
}

// ---------------------------------------------------------------------------
// Finding a character
// ---------------------------------------------------------------------------

/// Index of the first occurrence of `c`, or the length if there is none.
pub open spec fn char_idx(s: Seq<char>, c: char) -> int
    decreases s.len(),
{
    if s.len() == 0 || s[0] == c {
        0
    } else {
        1 + char_idx(s.drop_first(), c)
    }
}

/// Any index with no occurrence before it and an occurrence (or the end) at
/// it is the first occurrence.
pub proof fn lemma_char_idx_unique(s: Seq<char>, c: char, e: int)
    requires
        0 <= e <= s.len(),
        forall|k: int| 0 <= k < e ==> s[k] != c,
        e == s.len() || s[e] == c,
    ensures
        char_idx(s, c) == e,
    decreases s.len(),
{
    if s.len() == 0 {
    } else if e == 0 {
    } else {
        assert(forall|k: int| 0 <= k < e - 1 ==> #[trigger] s.drop_first()[k] != c);
        if e - 1 < s.drop_first().len() {
            assert(s.drop_first()[e - 1] == s[e]);
        }
        lemma_char_idx_unique(s.drop_first(), c, e - 1);
    }
}

/// Index of the first occurrence of `c` in `s`, or the length if none.
pub fn find_char(s: &str, c: char) -> (r: usize)
    ensures
        r == char_idx(s@, c),
        r <= s@.len(),
{
    let n = s.unicode_len();
    let mut i: usize = 0;
    loop
        invariant
            n == s@.len(),
            0 <= i <= n,
            forall|k: int| 0 <= k < i ==> s@[k] != c,
        ensures
            0 <= i <= n,
            forall|k: int| 0 <= k < i ==> s@[k] != c,
            i == n || s@[i as int] == c,
        decreases n - i,
    {
        if i == n {
            break ;
        }
        if s.get_char(i) == c {
            break ;
        }
        i = i + 1;
    }
    proof {
        lemma_char_idx_unique(s@, c, i as int);
    }
    i
}

// ---------------------------------------------------------------------------
// String comparison
// ---------------------------------------------------------------------------

/// Whether two string slices hold the same characters.
pub fn str_eq(a: &str, b: &str) -> (r: bool)
    ensures
        r == (a@ == b@),
{
    let an = a.unicode_len();
    let bn = b.unicode_len();
    if an != bn {
        return false;
    }
    let mut i: usize = 0;
    while i < an
        invariant
            an == a@.len(),
            an == b@.len(),
            0 <= i <= an,
            forall|k: int| 0 <= k < i ==> a@[k] == b@[k],
        decreases an - i,
    {
        if a.get_char(i) != b.get_char(i) {
            return false;
        }
        i = i + 1;
    }
    proof {
        assert(a@ =~= b@);
    }
    true
}

// ---------------------------------------------------------------------------
// Substring search
// ---------------------------------------------------------------------------

pub open spec fn matches_at(hay: Seq<char>, needle: Seq<char>, i: int) -> bool {
    0 <= i && i + needle.len() <= hay.len() && hay.subrange(i, i + needle.len()) == needle
}

pub open spec fn contains_seq(hay: Seq<char>, needle: Seq<char>) -> bool {
    exists|i: int| matches_at(hay, needle, i)
}

/// Whether `needle` occurs as a contiguous substring of `hay`.
pub fn str_contains(hay: &str, needle: &str) -> (r: bool)
    ensures
        r == contains_seq(hay@, needle@),
{
    let hn = hay.unicode_len();
    let nn = needle.unicode_len();
    if nn > hn {
        assert(forall|i: int| !matches_at(hay@, needle@, i));
        return false;
    }
    let mut i: usize = 0;
    while i <= hn - nn
        invariant
            nn <= hn,
            hn == hay@.len(),
            nn == needle@.len(),
            0 <= i <= hn - nn + 1,
            forall|k: int| 0 <= k < i ==> !matches_at(hay@, needle@, k),
        decreases hn + 1 - i,
    {
        let mut j: usize = 0;
        let mut ok: bool = true;
        while j < nn
            invariant
                nn <= hn,
                hn == hay@.len(),
                nn == needle@.len(),
                0 <= i <= hn - nn,
                0 <= j <= nn,
                ok <==> (forall|k: int| 0 <= k < j ==> hay@[i + k] == needle@[k]),
                !ok ==> j == nn,
            decreases nn - j,
        {
            let hc = hay.get_char(i + j);
            let nc = needle.get_char(j);
            if hc != nc {
                ok = false;
                j = nn;
            } else {
                assert forall|k: int| 0 <= k < j + 1 implies hay@[i + k] == needle@[k] by {
                    if k == j {
                        assert(hay@[i + j] == needle@[j as int]);
                    }
                }
                j = j + 1;
            }
        }
        if ok {
            proof {
                assert(hay@.subrange(i as int, i as int + nn as int) =~= needle@);
                assert(matches_at(hay@, needle@, i as int));
            }
            return true;
        }
        proof {
            if matches_at(hay@, needle@, i as int) {
                assert(forall|k: int|
                    0 <= k < nn ==> #[trigger] hay@.subrange(i as int, i as int + nn as int)[k]
                        == hay@[i + k]);
                assert(false);
            }
        }
        i = i + 1;
    }
    proof {
        assert(forall|k: int| matches_at(hay@, needle@, k) ==> 0 <= k <= hn - nn);
    }
    false
}

} // verus!
