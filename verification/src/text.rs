//! Character-sequence helpers used throughout the library.
//!
//! Strings are modelled by their view, a `Seq<char>`. The functions here
//! are the `str` operations the mod manager relies on (prefix and suffix
//! tests, splitting, replacing, parsing and printing of integers), each
//! proved against a short statement of what it computes.

use vstd::prelude::*;

verus! {

/// `s` begins with `p`.
pub open spec fn has_prefix(s: Seq<char>, p: Seq<char>) -> bool {
    p.len() <= s.len() && s.subrange(0, p.len() as int) == p
}

/// `s` ends with `p`.
pub open spec fn has_suffix(s: Seq<char>, p: Seq<char>) -> bool {
    p.len() <= s.len() && s.subrange(s.len() - p.len(), s.len() as int) == p
}

/// `p` occurs in `s` starting at position `i`.
pub open spec fn occurs_at(s: Seq<char>, p: Seq<char>, i: int) -> bool {
    0 <= i && i + p.len() <= s.len() && s.subrange(i, i + p.len()) == p
}

/// The first position at or after `i` where `p` occurs in `s`.
pub open spec fn find_from(s: Seq<char>, p: Seq<char>, i: int) -> Option<int>
    decreases s.len() + 1 - i,
{
    if i < 0 || i + p.len() > s.len() {
        None
    } else if occurs_at(s, p, i) {
        Some(i)
    } else {
        find_from(s, p, i + 1)
    }
}

/// The first position where `p` occurs in `s`.
pub open spec fn find_first(s: Seq<char>, p: Seq<char>) -> Option<int> {
    find_from(s, p, 0)
}

/// `p` occurs somewhere in `s`.
pub open spec fn contains_seq(s: Seq<char>, p: Seq<char>) -> bool {
    find_first(s, p) is Some
}

/// `s` split around the first occurrence of `p`, as `str::split_once` does.
pub open spec fn split_once(s: Seq<char>, p: Seq<char>) -> Option<(Seq<char>, Seq<char>)> {
    match find_first(s, p) {
        Some(i) => Some((s.subrange(0, i), s.subrange(i + p.len(), s.len() as int))),
        None => None,
    }
}

/// The last position before `end` where the character `c` occurs in `s`.
pub open spec fn find_last_char_before(s: Seq<char>, c: char, end: int) -> Option<int>
    decreases end,
{
    if end <= 0 || end > s.len() {
        None
    } else if s[end - 1] == c {
        Some(end - 1)
    } else {
        find_last_char_before(s, c, end - 1)
    }
}

/// `s` split around the last occurrence of `c`, as `str::rsplit_once` does.
pub open spec fn rsplit_once(s: Seq<char>, c: char) -> Option<(Seq<char>, Seq<char>)> {
    match find_last_char_before(s, c, s.len() as int) {
        Some(i) => Some((s.subrange(0, i), s.subrange(i + 1, s.len() as int))),
        None => None,
    }
}

/// `s` without the prefix `p`, as `str::strip_prefix` does.
pub open spec fn strip_prefix(s: Seq<char>, p: Seq<char>) -> Option<Seq<char>> {
    if has_prefix(s, p) {
        Some(s.subrange(p.len() as int, s.len() as int))
    } else {
        None
    }
}

/// Every non-overlapping occurrence of `from`, scanning left to right,
/// replaced by `to`, as `str::replace` does for a non-empty pattern.
pub open spec fn replace_all(s: Seq<char>, from: Seq<char>, to: Seq<char>) -> Seq<char>
    recommends
        from.len() > 0,
    decreases s.len(),
{
    if s.len() == 0 || from.len() == 0 {
        s
    } else if has_prefix(s, from) {
        to + replace_all(s.subrange(from.len() as int, s.len() as int), from, to)
    } else {
        seq![s[0]] + replace_all(s.subrange(1, s.len() as int), from, to)
    }
}

/// Lexicographic order on character sequences; this is the order of `str`
/// in Rust, since UTF-8 preserves the order of code points.
pub open spec fn seq_less(a: Seq<char>, b: Seq<char>) -> bool
    decreases a.len(),
{
    if b.len() == 0 {
        false
    } else if a.len() == 0 {
        true
    } else if a[0] != b[0] {
        (a[0] as int) < (b[0] as int)
    } else {
        seq_less(a.subrange(1, a.len() as int), b.subrange(1, b.len() as int))
    }
}

/// What `str::to_lowercase` returns for a string (Unicode lower-casing).
pub uninterp spec fn str_lower(s: Seq<char>) -> Seq<char>;

/// The decimal digit character for `d < 10`.
pub open spec fn digit_char(d: nat) -> char {
    if d == 0 {
        '0'
    } else if d == 1 {
        '1'
    } else if d == 2 {
        '2'
    } else if d == 3 {
        '3'
    } else if d == 4 {
        '4'
    } else if d == 5 {
        '5'
    } else if d == 6 {
        '6'
    } else if d == 7 {
        '7'
    } else if d == 8 {
        '8'
    } else {
        '9'
    }
}

/// The decimal representation of `n`, without leading zeros.
pub open spec fn decimal(n: nat) -> Seq<char>
    decreases n,
{
    if n < 10 {
        seq![digit_char(n)]
    } else {
        decimal(n / 10).push(digit_char(n % 10))
    }
}

/// `c` is one of `0` to `9`.
pub open spec fn is_digit(c: char) -> bool {
    '0' <= c && c <= '9'
}

/// The digit character of a digit is a digit of that value.
proof fn lemma_digit_char(d: nat)
    requires
        d < 10,
    ensures
        is_digit(digit_char(d)),
        digit_char(d) as int - '0' as int == d,
{
}

/// The decimal representation of a number is a non-empty run of digits
/// whose value is the number.
pub proof fn lemma_decimal_value(n: nat)
    ensures
        decimal(n).len() > 0,
        forall|i: int| 0 <= i < decimal(n).len() ==> is_digit(#[trigger] decimal(n)[i]),
        digits_value(decimal(n)) == n,
    decreases n,
{
    if n < 10 {
        lemma_digit_char(n);
        let d = decimal(n);
        assert(d.drop_last() =~= Seq::<char>::empty());
        assert(digits_value(d.drop_last()) == 0);
        assert(d.last() == digit_char(n));
        assert(digits_value(d) == digits_value(d.drop_last()) * 10 + ((d.last() as int - '0' as int) as nat));
    } else {
        lemma_digit_char(n % 10);
        lemma_decimal_value(n / 10);
        let d = decimal(n);
        assert(d.drop_last() =~= decimal(n / 10));
        vstd::arithmetic::div_mod::lemma_fundamental_div_mod(n as int, 10);
        assert(d.last() == digit_char(n % 10));
        assert(digits_value(d) == digits_value(d.drop_last()) * 10 + ((d.last() as int - '0' as int) as nat));
        assert(digits_value(d) == (n / 10) * 10 + n % 10);
        assert forall|i: int| 0 <= i < d.len() implies is_digit(#[trigger] d[i]) by {
            if i < d.len() - 1 {
                assert(d[i] == decimal(n / 10)[i]);
            }
        }
    }
}

/// A number written in decimal reads back as itself: what the lists show
/// as a position is the position the user types.
pub proof fn lemma_decimal_parses_back(n: nat, max: nat)
    requires
        n <= max,
    ensures
        parse_unsigned(decimal(n), max) == Some(n),
{
    lemma_decimal_value(n);
    assert(is_digit(decimal(n)[0]));
}

/// The value of a sequence of decimal digits.
pub open spec fn digits_value(s: Seq<char>) -> nat
    decreases s.len(),
{
    if s.len() == 0 {
        0
    } else {
        digits_value(s.drop_last()) * 10 + ((s.last() as int - '0' as int) as nat)
    }
}

/// What parsing `s` as an unsigned integer no larger than `max` gives:
/// an optional leading `+`, then at least one decimal digit and nothing else.
pub open spec fn parse_unsigned(s: Seq<char>, max: nat) -> Option<nat> {
    let d = if s.len() > 0 && s[0] == '+' {
        s.drop_first()
    } else {
        s
    };
    if d.len() > 0 && (forall|i: int| 0 <= i < d.len() ==> is_digit(#[trigger] d[i]))
        && digits_value(d) <= max {
        Some(digits_value(d))
    } else {
        None
    }
}

/// The characters of `s`, one by one.
pub fn chars_of(s: &str) -> (v: Vec<char>)
    ensures
        v@ == s@,
{
    let mut v: Vec<char> = Vec::new();
    for c in it: s.chars()
        invariant
            it.seq() == s@,
            v@ == it.seq().take(it.index() as int),
    {
        v.push(c);
    }
    v
}

/// Appends `c` to `s` with `String::push`.
#[verifier::external_body]
fn push_char(s: &mut String, c: char)
    ensures
        final(s)@ == old(s)@.push(c),
{
    s.push(c)
}

/// The string of the characters `v`.
pub(crate) fn string_of(v: &[char]) -> (s: String)
    ensures
        s@ == v@,
{
    let mut s = String::new();
    let mut i: usize = 0;
    while i < v.len()
        invariant
            i <= v@.len(),
            s@ == v@.take(i as int),
        decreases v.len() - i,
    {
        push_char(&mut s, v[i]);
        assert(v@.take(i + 1) =~= v@.take(i as int).push(v@[i as int]));
        i += 1;
    }
    assert(v@.take(v@.len() as int) =~= v@);
    s
}

/// Lower-cases `s` with `str::to_lowercase`.
#[verifier::external_body]
pub(crate) fn to_lower(s: &str) -> (r: String)
    ensures
        r@ == str_lower(s@),
{
    s.to_lowercase()
}

/// Parses `s` with `<usize as FromStr>::from_str`; it accepts an optional
/// leading `+` followed by decimal digits whose value fits a `usize`.
#[verifier::external_body]
pub(crate) fn parse_usize(s: &str) -> (r: Option<usize>)
    ensures
        r matches Some(n) ==> parse_unsigned(s@, usize::MAX as nat) == Some(n as nat),
        r is None ==> parse_unsigned(s@, usize::MAX as nat) is None,
{
    s.parse::<usize>().ok()
}

/// Parses `s` with `<u8 as FromStr>::from_str`; it accepts an optional
/// leading `+` followed by decimal digits whose value fits a `u8`.
#[verifier::external_body]
pub(crate) fn parse_u8(s: &str) -> (r: Option<u8>)
    ensures
        r matches Some(n) ==> parse_unsigned(s@, u8::MAX as nat) == Some(n as nat),
        r is None ==> parse_unsigned(s@, u8::MAX as nat) is None,
{
    s.parse::<u8>().ok()
}


/// The digit character for `d < 10`.
pub fn digit(d: u64) -> (c: char)
    requires
        d < 10,
    ensures
        c == digit_char(d as nat),
{
    if d == 0 {
        '0'
    } else if d == 1 {
        '1'
    } else if d == 2 {
        '2'
    } else if d == 3 {
        '3'
    } else if d == 4 {
        '4'
    } else if d == 5 {
        '5'
    } else if d == 6 {
        '6'
    } else if d == 7 {
        '7'
    } else if d == 8 {
        '8'
    } else {
        '9'
    }
}

/// The decimal digits of `n`.
pub fn decimal_chars(n: u64) -> (v: Vec<char>)
    ensures
        v@ == decimal(n as nat),
    decreases n,
{
    if n < 10 {
        let mut v: Vec<char> = Vec::new();
        v.push(digit(n));
        v
    } else {
        let mut v = decimal_chars(n / 10);
        v.push(digit(n % 10));
        v
    }
}

/// The decimal representation of `n`, as `n.to_string()` prints it.
pub fn decimal_string(n: u64) -> (r: String)
    ensures
        r@ == decimal(n as nat),
{
    let v = decimal_chars(n);
    string_of(v.as_slice())
}

/// The decimal representation of a signed `n`, with a leading `-` when it
/// is negative.
pub open spec fn signed_decimal(n: int) -> Seq<char> {
    if n < 0 {
        "-"@ + decimal((-n) as nat)
    } else {
        decimal(n as nat)
    }
}

/// The decimal representation of `n`, as `n.to_string()` prints it.
pub fn signed_decimal_string(n: i64) -> (r: String)
    ensures
        r@ == signed_decimal(n as int),
{
    if n < 0 {
        let m: u64 = ((-(n + 1)) as u64) + 1;
        proof {
            reveal_strlit("-");
        }
        let digits = decimal_string(m);
        String::from_str("-").concat(digits.as_str())
    } else {
        decimal_string(n as u64)
    }
}

/// The strings of `s` joined with `sep` between them.
pub open spec fn join_with(s: Seq<Seq<char>>, sep: Seq<char>) -> Seq<char>
    decreases s.len(),
{
    if s.len() == 0 {
        Seq::empty()
    } else if s.len() == 1 {
        s[0]
    } else {
        join_with(s.drop_last(), sep) + sep + s.last()
    }
}

/// The strings of `s` joined with `sep` between them (`[String]::join`).
pub fn join_strings(s: &[String], sep: &str) -> (r: String)
    ensures
        r@ == join_with(strs(s@), sep@),
{
    let mut r = String::new();
    let mut i: usize = 0;
    assert(strs(s@).take(0) =~= Seq::<Seq<char>>::empty());
    while i < s.len()
        invariant
            i <= s@.len(),
            r@ == join_with(strs(s@).take(i as int), sep@),
        decreases s.len() - i,
    {
        let ghost t = strs(s@).take(i + 1);
        assert(t.drop_last() =~= strs(s@).take(i as int));
        assert(t.last() == s@[i as int]@);
        if i == 0 {
            assert(t.len() == 1);
            r = s[i].clone();
        } else {
            r = r.concat(sep).concat(s[i].as_str());
        }
        i += 1;
    }
    assert(strs(s@).take(i as int) =~= strs(s@));
    r
}

/// Whether `p` occurs in `s` at position `i`.
pub fn occurs_at_chars(s: &[char], p: &[char], i: usize) -> (r: bool)
    ensures
        r == occurs_at(s@, p@, i as int),
{
    if p.len() > s.len() || i > s.len() - p.len() {
        return false;
    }
    let mut j: usize = 0;
    while j < p.len()
        invariant
            j <= p.len(),
            i + p.len() <= s.len(),
            forall|k: int| 0 <= k < j ==> s@[i + k] == p@[k],
        decreases p.len() - j,
    {
        if s[i + j] != p[j] {
            assert(s@.subrange(i as int, i + p.len())[j as int] != p@[j as int]);
            return false;
        }
        j += 1;
    }
    assert(s@.subrange(i as int, i + p.len()) =~= p@);
    true
}

/// The first position where `p` occurs in `s`.
pub fn find_first_chars(s: &[char], p: &[char]) -> (r: Option<usize>)
    ensures
        r matches Some(i) ==> find_first(s@, p@) == Some(i as int),
        r is None ==> find_first(s@, p@) is None,
{
    if p.len() > s.len() {
        return None;
    }
    let last = s.len() - p.len();
    let mut i: usize = 0;
    while i < last
        invariant
            p.len() <= s.len(),
            last == s.len() - p.len(),
            i <= last,
            find_first(s@, p@) == find_from(s@, p@, i as int),
        decreases last - i,
    {
        if occurs_at_chars(s, p, i) {
            return Some(i);
        }
        i += 1;
    }
    if occurs_at_chars(s, p, last) {
        Some(last)
    } else {
        assert(find_from(s@, p@, last + 1) is None);
        None
    }
}

/// The last position where `c` occurs in `s`.
pub fn find_last_char(s: &[char], c: char) -> (r: Option<usize>)
    ensures
        r matches Some(i) ==> find_last_char_before(s@, c, s@.len() as int) == Some(i as int),
        r is None ==> find_last_char_before(s@, c, s@.len() as int) is None,
{
    let mut end: usize = s.len();
    while end > 0
        invariant
            end <= s.len(),
            find_last_char_before(s@, c, s@.len() as int) == find_last_char_before(
                s@,
                c,
                end as int,
            ),
        decreases end,
    {
        if s[end - 1] == c {
            return Some(end - 1);
        }
        end -= 1;
    }
    None
}

/// `s` begins with `p` (`str::starts_with`).
pub fn starts_with(s: &str, p: &str) -> (r: bool)
    ensures
        r == has_prefix(s@, p@),
{
    let sv = chars_of(s);
    let pv = chars_of(p);
    occurs_at_chars(sv.as_slice(), pv.as_slice(), 0)
}

/// `s` ends with `p` (`str::ends_with`).
pub fn ends_with(s: &str, p: &str) -> (r: bool)
    ensures
        r == has_suffix(s@, p@),
{
    let sv = chars_of(s);
    let pv = chars_of(p);
    if pv.len() > sv.len() {
        return false;
    }
    occurs_at_chars(sv.as_slice(), pv.as_slice(), sv.len() - pv.len())
}

/// `s` and `t` are the same string.
pub fn str_eq(s: &str, t: &str) -> (r: bool)
    ensures
        r == (s@ == t@),
{
    let sv = chars_of(s);
    let tv = chars_of(t);
    if sv.len() != tv.len() {
        return false;
    }
    let r = occurs_at_chars(sv.as_slice(), tv.as_slice(), 0);
    proof {
        if r {
            assert(s@ =~= t@);
        } else {
            assert(!(s@.subrange(0, t@.len() as int) == t@));
            assert(s@.subrange(0, s@.len() as int) =~= s@);
        }
    }
    r
}

/// `p` occurs somewhere in `s` (`str::contains`).
pub fn contains(s: &str, p: &str) -> (r: bool)
    ensures
        r == contains_seq(s@, p@),
{
    let sv = chars_of(s);
    let pv = chars_of(p);
    find_first_chars(sv.as_slice(), pv.as_slice()).is_some()
}

/// The characters of `v` from `from` up to `to`.
pub fn slice_string(v: &[char], from: usize, to: usize) -> (r: String)
    requires
        from <= to <= v@.len(),
    ensures
        r@ == v@.subrange(from as int, to as int),
{
    let mut w: Vec<char> = Vec::new();
    let mut i = from;
    while i < to
        invariant
            from <= i <= to <= v@.len(),
            w@ == v@.subrange(from as int, i as int),
        decreases to - i,
    {
        w.push(v[i]);
        i += 1;
        assert(w@ =~= v@.subrange(from as int, i as int));
    }
    string_of(w.as_slice())
}

/// `s` without the prefix `p`, if it has it (`str::strip_prefix`).
pub fn strip_prefix_str(s: &str, p: &str) -> (r: Option<String>)
    ensures
        r matches Some(t) ==> strip_prefix(s@, p@) == Some(t@),
        r is None ==> strip_prefix(s@, p@) is None,
{
    let sv = chars_of(s);
    let pv = chars_of(p);
    if occurs_at_chars(sv.as_slice(), pv.as_slice(), 0) {
        Some(slice_string(sv.as_slice(), pv.len(), sv.len()))
    } else {
        None
    }
}

/// `s` split around the first occurrence of `p` (`str::split_once`).
pub fn split_once_str(s: &str, p: &str) -> (r: Option<(String, String)>)
    ensures
        r matches Some((a, b)) ==> split_once(s@, p@) == Some((a@, b@)),
        r is None ==> split_once(s@, p@) is None,
{
    let sv = chars_of(s);
    let pv = chars_of(p);
    match find_first_chars(sv.as_slice(), pv.as_slice()) {
        Some(i) => {
            proof {
                lemma_find_from_bounds(s@, p@, 0);
                assert(occurs_at(sv@, pv@, i as int));
            }
            let pl = pv.len();
            assert(i + pl <= sv.len());
            let j = i + pl;
            let a = slice_string(sv.as_slice(), 0, i);
            let b = slice_string(sv.as_slice(), j, sv.len());
            Some((a, b))
        },
        None => None,
    }
}

/// A position found by `find_from` is an occurrence.
pub proof fn lemma_find_from_bounds(s: Seq<char>, p: Seq<char>, i: int)
    ensures
        find_from(s, p, i) matches Some(j) ==> occurs_at(s, p, j) && i <= j,
    decreases s.len() + 1 - i,
{
    if i < 0 || i + p.len() > s.len() {
    } else if occurs_at(s, p, i) {
    } else {
        lemma_find_from_bounds(s, p, i + 1);
    }
}

/// A position found by `find_last_char_before` holds `c`.
pub proof fn lemma_find_last_bounds(s: Seq<char>, c: char, end: int)
    ensures
        find_last_char_before(s, c, end) matches Some(j) ==> 0 <= j < end && j < s.len() && s[j]
            == c,
    decreases end,
{
    if end <= 0 || end > s.len() {
    } else if s[end - 1] == c {
    } else {
        lemma_find_last_bounds(s, c, end - 1);
    }
}

/// `s` split around the last occurrence of `c` (`str::rsplit_once`).
pub fn rsplit_once_str(s: &str, c: char) -> (r: Option<(String, String)>)
    ensures
        r matches Some((a, b)) ==> rsplit_once(s@, c) == Some((a@, b@)),
        r is None ==> rsplit_once(s@, c) is None,
{
    let sv = chars_of(s);
    match find_last_char(sv.as_slice(), c) {
        Some(i) => {
            proof {
                lemma_find_last_bounds(s@, c, s@.len() as int);
            }
            assert(i < sv.len());
            let a = slice_string(sv.as_slice(), 0, i);
            let b = slice_string(sv.as_slice(), i + 1, sv.len());
            Some((a, b))
        },
        None => None,
    }
}

/// Every occurrence of `from` in `s` replaced by `to` (`str::replace`).
pub fn replace_str(s: &str, from: &str, to: &str) -> (r: String)
    requires
        from@.len() > 0,
    ensures
        r@ == replace_all(s@, from@, to@),
{
    let sv = chars_of(s);
    let fv = chars_of(from);
    let tv = chars_of(to);
    let mut out: Vec<char> = Vec::new();
    let mut i: usize = 0;
    assert(sv@.subrange(0, sv@.len() as int) =~= sv@);
    assert(out@ + sv@ =~= sv@);
    while i < sv.len()
        invariant
            i <= sv@.len(),
            fv@.len() > 0,
            sv@ == s@,
            fv@ == from@,
            tv@ == to@,
            out@ + replace_all(sv@.subrange(i as int, sv@.len() as int), fv@, tv@)
                == replace_all(s@, from@, to@),
        decreases sv.len() - i,
    {
        let ghost rest = sv@.subrange(i as int, sv@.len() as int);
        if occurs_at_chars(sv.as_slice(), fv.as_slice(), i) {
            assert(rest.subrange(0, fv@.len() as int) =~= sv@.subrange(
                i as int,
                i + fv@.len(),
            ));
            assert(rest.subrange(fv@.len() as int, rest.len() as int) =~= sv@.subrange(
                i + fv@.len(),
                sv@.len() as int,
            ));
            let mut k: usize = 0;
            let ghost before = out@;
            while k < tv.len()
                invariant
                    k <= tv@.len(),
                    out@ == before + tv@.subrange(0, k as int),
                decreases tv.len() - k,
            {
                out.push(tv[k]);
                k += 1;
                assert(out@ =~= before + tv@.subrange(0, k as int));
            }
            assert(tv@.subrange(0, tv@.len() as int) =~= tv@);
            assert(out@ == before + tv@);
            assert(before + tv@ + replace_all(
                sv@.subrange(i + fv@.len(), sv@.len() as int),
                fv@,
                tv@,
            ) =~= before + (tv@ + replace_all(
                sv@.subrange(i + fv@.len(), sv@.len() as int),
                fv@,
                tv@,
            )));
            i = i + fv.len();
        } else {
            assert(!has_prefix(rest, fv@)) by {
                if has_prefix(rest, fv@) {
                    assert(rest.subrange(0, fv@.len() as int) =~= sv@.subrange(
                        i as int,
                        i + fv@.len(),
                    ));
                }
            }
            assert(rest.subrange(1, rest.len() as int) =~= sv@.subrange(
                i + 1,
                sv@.len() as int,
            ));
            let ghost before = out@;
            out.push(sv[i]);
            assert(before + (seq![sv@[i as int]] + replace_all(
                sv@.subrange(i + 1, sv@.len() as int),
                fv@,
                tv@,
            )) =~= out@ + replace_all(sv@.subrange(i + 1, sv@.len() as int), fv@, tv@));
            i = i + 1;
        }
    }
    assert(sv@.subrange(i as int, sv@.len() as int) =~= Seq::<char>::empty());
    assert(out@ + Seq::<char>::empty() =~= out@);
    string_of(out.as_slice())
}

/// `a` comes before `b` in the order of strings.
pub fn str_less(a: &str, b: &str) -> (r: bool)
    ensures
        r == seq_less(a@, b@),
{
    let av = chars_of(a);
    let bv = chars_of(b);
    let mut i: usize = 0;
    assert(av@.subrange(0, av@.len() as int) =~= av@);
    assert(bv@.subrange(0, bv@.len() as int) =~= bv@);
    while i < av.len() && i < bv.len() && av[i] == bv[i]
        invariant
            i <= av@.len(),
            i <= bv@.len(),
            seq_less(a@, b@) == seq_less(
                av@.subrange(i as int, av@.len() as int),
                bv@.subrange(i as int, bv@.len() as int),
            ),
        decreases av.len() - i,
    {
        let ghost x = av@.subrange(i as int, av@.len() as int);
        let ghost y = bv@.subrange(i as int, bv@.len() as int);
        assert(x.subrange(1, x.len() as int) =~= av@.subrange(i + 1, av@.len() as int));
        assert(y.subrange(1, y.len() as int) =~= bv@.subrange(i + 1, bv@.len() as int));
        i += 1;
    }
    let ghost x = av@.subrange(i as int, av@.len() as int);
    let ghost y = bv@.subrange(i as int, bv@.len() as int);
    if i == bv.len() {
        assert(y.len() == 0);
        false
    } else if i == av.len() {
        assert(x.len() == 0);
        true
    } else {
        assert(x[0] == av@[i as int]);
        assert(y[0] == bv@[i as int]);
        av[i] < bv[i]
    }
}


/// The views of a sequence of strings.
pub open spec fn strs(s: Seq<String>) -> Seq<Seq<char>> {
    s.map_values(|t: String| t@)
}

/// The first position at or after `i` where `x` occurs in `s`.
pub open spec fn index_of_from(s: Seq<Seq<char>>, x: Seq<char>, i: int) -> Option<int>
    decreases s.len() - i,
{
    if i < 0 || i >= s.len() {
        None
    } else if s[i] == x {
        Some(i)
    } else {
        index_of_from(s, x, i + 1)
    }
}

/// The first position where `x` occurs in `s`.
pub open spec fn index_of(s: Seq<Seq<char>>, x: Seq<char>) -> Option<int> {
    index_of_from(s, x, 0)
}

/// What `index_of_from` finds is the first occurrence from `i` on.
pub proof fn lemma_index_of_from(s: Seq<Seq<char>>, x: Seq<char>, i: int)
    requires
        0 <= i,
    ensures
        index_of_from(s, x, i) matches Some(j) ==> i <= j < s.len() && s[j] == x && forall|k: int|
            i <= k < j ==> s[k] != x,
        index_of_from(s, x, i) is None ==> forall|k: int| i <= k < s.len() ==> s[k] != x,
    decreases s.len() - i,
{
    if i >= s.len() {
    } else if s[i] == x {
    } else {
        lemma_index_of_from(s, x, i + 1);
    }
}

/// `index_of` finds something exactly when `x` occurs.
pub proof fn lemma_index_of(s: Seq<Seq<char>>, x: Seq<char>)
    ensures
        index_of(s, x) matches Some(j) ==> 0 <= j < s.len() && s[j] == x && forall|k: int|
            0 <= k < j ==> s[k] != x,
        index_of(s, x) is None <==> !s.contains(x),
{
    lemma_index_of_from(s, x, 0);
}

/// The first position of `x` among `v`.
pub fn position_of(v: &Vec<String>, x: &str) -> (r: Option<usize>)
    ensures
        r matches Some(i) ==> index_of(strs(v@), x@) == Some(i as int),
        r is None ==> index_of(strs(v@), x@) is None,
{
    let mut i: usize = 0;
    while i < v.len()
        invariant
            i <= v@.len(),
            index_of(strs(v@), x@) == index_of_from(strs(v@), x@, i as int),
        decreases v.len() - i,
    {
        if str_eq(v[i].as_str(), x) {
            return Some(i);
        }
        i += 1;
    }
    None
}


/// No sequence comes before itself.
pub proof fn lemma_seq_less_irreflexive(a: Seq<char>)
    ensures
        !seq_less(a, a),
    decreases a.len(),
{
    if a.len() > 0 {
        lemma_seq_less_irreflexive(a.subrange(1, a.len() as int));
    }
}

/// Of two sequences, at most one comes before the other.
pub proof fn lemma_seq_less_asymmetric(a: Seq<char>, b: Seq<char>)
    ensures
        seq_less(a, b) ==> !seq_less(b, a),
    decreases a.len(),
{
    if a.len() > 0 && b.len() > 0 && a[0] == b[0] {
        lemma_seq_less_asymmetric(a.subrange(1, a.len() as int), b.subrange(1, b.len() as int));
    }
}

/// The order of sequences is transitive.
pub proof fn lemma_seq_less_transitive(a: Seq<char>, b: Seq<char>, c: Seq<char>)
    ensures
        seq_less(a, b) && seq_less(b, c) ==> seq_less(a, c),
    decreases a.len(),
{
    if a.len() > 0 && b.len() > 0 && c.len() > 0 && a[0] == b[0] && b[0] == c[0] {
        lemma_seq_less_transitive(
            a.subrange(1, a.len() as int),
            b.subrange(1, b.len() as int),
            c.subrange(1, c.len() as int),
        );
    }
}

/// Of two different sequences, one comes before the other.
pub proof fn lemma_seq_less_total(a: Seq<char>, b: Seq<char>)
    ensures
        a != b ==> seq_less(a, b) || seq_less(b, a),
    decreases a.len(),
{
    if a.len() > 0 && b.len() > 0 && a[0] == b[0] {
        let a1 = a.subrange(1, a.len() as int);
        let b1 = b.subrange(1, b.len() as int);
        lemma_seq_less_total(a1, b1);
        if a1 == b1 {
            assert(a =~= seq![a[0]] + a1);
            assert(b =~= seq![b[0]] + b1);
        }
    } else if a.len() == 0 && b.len() == 0 {
        assert(a =~= b);
    }
}


/// Whether `char::is_whitespace` holds of `c` (Unicode white space).
pub uninterp spec fn is_ws(c: char) -> bool;

/// Whether `c` is white space, with `char::is_whitespace`.
#[verifier::external_body]
pub(crate) fn is_whitespace(c: char) -> (r: bool)
    ensures
        r == is_ws(c),
{
    c.is_whitespace()
}

/// The first position at or after `i` that is not white space.
pub open spec fn skip_ws(s: Seq<char>, i: int) -> int
    decreases s.len() - i,
{
    if i < 0 || i >= s.len() {
        i
    } else if is_ws(s[i]) {
        skip_ws(s, i + 1)
    } else {
        i
    }
}

/// The first position at or after `i` that is white space, or the end.
pub open spec fn word_end(s: Seq<char>, i: int) -> int
    decreases s.len() - i,
{
    if i < 0 || i >= s.len() {
        i
    } else if is_ws(s[i]) {
        i
    } else {
        word_end(s, i + 1)
    }
}

/// The `n`-th word (counted from 0) of `s` from position `i` on, words
/// being runs of characters that are not white space
/// (`str::split_whitespace`).
pub open spec fn nth_word(s: Seq<char>, i: int, n: nat) -> Option<Seq<char>>
    decreases n,
{
    let a = skip_ws(s, i);
    if a < 0 || a >= s.len() {
        None
    } else if n == 0 {
        Some(s.subrange(a, word_end(s, a)))
    } else {
        nth_word(s, word_end(s, a), (n - 1) as nat)
    }
}

/// Where `skip_ws` and `word_end` land.
pub proof fn lemma_word_bounds(s: Seq<char>, i: int)
    requires
        0 <= i <= s.len(),
    ensures
        i <= skip_ws(s, i) <= s.len(),
        i <= word_end(s, i) <= s.len(),
        forall|k: int| i <= k < skip_ws(s, i) ==> is_ws(#[trigger] s[k]),
        skip_ws(s, i) < s.len() ==> !is_ws(s[skip_ws(s, i)]),
        forall|k: int| i <= k < word_end(s, i) ==> !is_ws(#[trigger] s[k]),
        word_end(s, i) < s.len() ==> is_ws(s[word_end(s, i)]),
    decreases s.len() - i,
{
    if i < s.len() {
        lemma_word_bounds(s, i + 1);
    }
}

/// The `n`-th word of `s` (counted from 0).
pub fn nth_word_str(s: &str, n: usize) -> (r: Option<String>)
    ensures
        match nth_word(s@, 0, n as nat) {
            Some(w) => r matches Some(t) && t@ == w,
            None => r is None,
        },
{
    let v = chars_of(s);
    let mut i: usize = 0;
    let mut left: usize = n;
    proof {
        lemma_word_bounds(v@, 0);
    }
    loop
        invariant
            v@ == s@,
            0 <= i <= v@.len(),
            left <= n,
            nth_word(s@, 0, n as nat) == nth_word(s@, i as int, left as nat),
        decreases left,
    {
        proof {
            lemma_word_bounds(v@, i as int);
        }
        let mut a = i;
        while a < v.len() && is_whitespace(v[a])
            invariant
                v@ == s@,
                i <= a <= v@.len(),
                skip_ws(v@, i as int) == skip_ws(v@, a as int),
            decreases v.len() - a,
        {
            a += 1;
        }
        assert(skip_ws(v@, a as int) == a);
        if a >= v.len() {
            return None;
        }
        let mut b = a;
        while b < v.len() && !is_whitespace(v[b])
            invariant
                v@ == s@,
                a <= b <= v@.len(),
                word_end(v@, a as int) == word_end(v@, b as int),
            decreases v.len() - b,
        {
            b += 1;
        }
        assert(word_end(v@, b as int) == b);
        if left == 0 {
            return Some(slice_string(v.as_slice(), a, b));
        }
        proof {
            lemma_word_bounds(v@, a as int);
        }
        i = b;
        left = left - 1;
    }
}


/// The parts of `s` between the occurrences of `c`, in order (one more
/// part than there are occurrences).
pub open spec fn split_on(s: Seq<char>, c: char) -> Seq<Seq<char>>
    decreases s.len(),
{
    match find_last_char_before(s, c, s.len() as int) {
        Some(i) => if 0 <= i < s.len() {
            split_on(s.subrange(0, i), c).push(s.subrange(i + 1, s.len() as int))
        } else {
            seq![s]
        },
        None => seq![s],
    }
}

/// The last occurrence before `end` depends only on the first `end`
/// characters.
proof fn lemma_find_last_prefix(s: Seq<char>, t: Seq<char>, c: char, end: int)
    requires
        0 <= end <= s.len(),
        end <= t.len(),
        s.subrange(0, end) == t.subrange(0, end),
    ensures
        find_last_char_before(s, c, end) == find_last_char_before(t, c, end),
    decreases end,
{
    if end > 0 {
        assert(s[end - 1] == s.subrange(0, end)[end - 1]);
        assert(t[end - 1] == t.subrange(0, end)[end - 1]);
        assert(s.subrange(0, end - 1) =~= s.subrange(0, end).subrange(0, end - 1));
        assert(t.subrange(0, end - 1) =~= t.subrange(0, end).subrange(0, end - 1));
        lemma_find_last_prefix(s, t, c, end - 1);
    }
}

/// Splitting one more character: a separator starts a new empty part,
/// another character extends the last part.
proof fn lemma_split_step(s: Seq<char>, c: char, i: int)
    requires
        0 <= i < s.len(),
    ensures
        split_on(s.take(i), c).len() > 0,
        split_on(s.take(i + 1), c) == if s[i] == c {
            split_on(s.take(i), c).push(Seq::<char>::empty())
        } else {
            split_on(s.take(i), c).drop_last().push(split_on(s.take(i), c).last().push(s[i]))
        },
    decreases i,
{
    let a = s.take(i);
    let b = s.take(i + 1);
    lemma_find_last_bounds(a, c, i);
    lemma_find_last_bounds(b, c, i + 1);
    if s[i] == c {
        assert(b[i] == c);
        assert(b.subrange(0, i) =~= a);
        assert(b.subrange(i + 1, i + 1) =~= Seq::<char>::empty());
        match find_last_char_before(a, c, i) {
            Some(j) => {},
            None => {},
        }
    } else {
        assert(b[i] != c);
        assert(find_last_char_before(b, c, i + 1) == find_last_char_before(b, c, i));
        assert(b.subrange(0, i) =~= a.subrange(0, i));
        lemma_find_last_prefix(b, a, c, i);
        match find_last_char_before(a, c, i) {
            Some(j) => {
                assert(b.subrange(0, j) =~= a.subrange(0, j));
                assert(b.subrange(j + 1, i + 1) =~= a.subrange(j + 1, i).push(s[i]));
            },
            None => {
                assert(b =~= a.push(s[i]));
            },
        }
    }
}

/// `s` split at every occurrence of `c` (`str::split`).
pub fn split_str(s: &str, c: char) -> (r: Vec<String>)
    ensures
        strs(r@) == split_on(s@, c),
{
    let v = chars_of(s);
    let mut parts: Vec<String> = Vec::new();
    let mut cur: Vec<char> = Vec::new();
    let mut i: usize = 0;
    proof {
        assert(v@.take(0) =~= Seq::<char>::empty());
        lemma_find_last_bounds(v@.take(0), c, 0);
        assert(strs(parts@).push(cur@) =~= split_on(v@.take(0), c));
    }
    while i < v.len()
        invariant
            i <= v@.len(),
            v@ == s@,
            strs(parts@).push(cur@) == split_on(v@.take(i as int), c),
        decreases v.len() - i,
    {
        proof {
            lemma_split_step(v@, c, i as int);
        }
        let ghost before = strs(parts@).push(cur@);
        if v[i] == c {
            let part = string_of(cur.as_slice());
            parts.push(part);
            cur = Vec::new();
            assert(strs(parts@).push(cur@) =~= before.push(Seq::<char>::empty()));
        } else {
            cur.push(v[i]);
            assert(strs(parts@).push(cur@) =~= before.drop_last().push(before.last().push(v@[i as int])));
        }
        i += 1;
    }
    let last = string_of(cur.as_slice());
    parts.push(last);
    assert(v@.take(i as int) =~= v@);
    assert(strs(parts@) =~= strs(parts@).drop_last().push(cur@));
    parts
}

/// One part of a version comes before another: by value where both are
/// numbers, else as text.
pub open spec fn part_less(a: Seq<char>, b: Seq<char>) -> bool {
    match (parse_unsigned(a, usize::MAX as nat), parse_unsigned(b, usize::MAX as nat)) {
        (Some(x), Some(y)) => x < y,
        _ => seq_less(a, b),
    }
}

/// The parts of one version come before those of another, from index `i`
/// on: the first part that differs decides, and a version that runs out
/// first comes first.
pub open spec fn parts_less_from(a: Seq<Seq<char>>, b: Seq<Seq<char>>, i: int) -> bool
    decreases a.len() - i,
{
    if i < 0 || i >= a.len() {
        0 <= i < b.len()
    } else if i >= b.len() {
        false
    } else if part_less(a[i], b[i]) {
        true
    } else if part_less(b[i], a[i]) {
        false
    } else {
        parts_less_from(a, b, i + 1)
    }
}

/// Version `a` comes before version `b`: their dot-separated parts compared
/// in order, numbers by value.
pub open spec fn version_less(a: Seq<char>, b: Seq<char>) -> bool {
    parts_less_from(split_on(a, '.'), split_on(b, '.'), 0)
}

/// Whether one part of a version comes before another.
fn part_less_exec(a: &str, b: &str) -> (r: bool)
    ensures
        r == part_less(a@, b@),
{
    match (parse_usize(a), parse_usize(b)) {
        (Some(x), Some(y)) => x < y,
        (Some(_), None) => str_less(a, b),
        (None, _) => str_less(a, b),
    }
}

/// Whether version `a` comes before version `b` (`version_less`).
pub fn version_before(a: &str, b: &str) -> (r: bool)
    ensures
        r == version_less(a@, b@),
{
    let pa = split_str(a, '.');
    let pb = split_str(b, '.');
    let ghost sa = strs(pa@);
    let ghost sb = strs(pb@);
    let mut i: usize = 0;
    while i < pa.len()
        invariant
            i <= pa@.len(),
            sa == strs(pa@),
            sb == strs(pb@),
            sa == split_on(a@, '.'),
            sb == split_on(b@, '.'),
            parts_less_from(sa, sb, 0) == parts_less_from(sa, sb, i as int),
        decreases pa.len() - i,
    {
        if i >= pb.len() {
            return false;
        }
        assert(sa[i as int] == pa@[i as int]@);
        assert(sb[i as int] == pb@[i as int]@);
        if part_less_exec(pa[i].as_str(), pb[i].as_str()) {
            return true;
        }
        if part_less_exec(pb[i].as_str(), pa[i].as_str()) {
            return false;
        }
        i += 1;
    }
    i < pb.len()
}

} // verus!
