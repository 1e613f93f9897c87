//! Character-level text helpers: conversions between `String`, `Vec<char>`
//! and UTF-16 code units, number rendering and parsing, and simple
//! sequence operations on characters.
use vstd::prelude::*;

verus! {

// ---------------------------------------------------------------------------
// Strings and character vectors
// ---------------------------------------------------------------------------

/// Appends one character to a string (`String::push`).
/// Claimed: the new contents are the old contents followed by `c`.
#[verifier::external_body]
fn push_char(s: &mut String, c: char)
    ensures
        final(s)@ == old(s)@.push(c),
{
    s.push(c);
}

/// The characters of `s`, in order.
pub fn chars_of(s: &str) -> (v: Vec<char>)
    ensures
        v@ == s@,
{
    let mut v: Vec<char> = Vec::new();
    for c in it: s.chars()
        invariant
            it.seq() == s@,
            v@ == it.seq().take(it.index() as int),
    {
        v.push(c);
    }
    v
}

/// The string made of the characters of `v`, in order.
pub fn string_from_chars(v: &Vec<char>) -> (s: String)
    ensures
        s@ == v@,
{
    let mut s = String::new();
    let n = v.len();
    let mut i: usize = 0;
    while i < n
        invariant
            n == v@.len(),
            i <= n,
            s@ == v@.take(i as int),
        decreases n - i,
    {
        push_char(&mut s, v[i]);
        assert(v@.take(i + 1) =~= v@.take(i as int).push(v@[i as int]));
        i = i + 1;
    }
    assert(v@.take(n as int) =~= v@);
    s
}

/// The views of a sequence of strings.
pub open spec fn string_views(v: Seq<String>) -> Seq<Seq<char>> {
    v.map_values(|s: String| s@)
}

/// Appends the characters of `t` to `s`.
pub fn push_chars(s: &mut String, t: &Vec<char>)
    ensures
        final(s)@ == old(s)@ + t@,
{
    let n = t.len();
    let mut i: usize = 0;
    while i < n
        invariant
            n == t@.len(),
            i <= n,
            s@ == old(s)@ + t@.take(i as int),
        decreases n - i,
    {
        push_char(s, t[i]);
        assert(t@.take(i + 1) =~= t@.take(i as int).push(t@[i as int]));
        i = i + 1;
    }
    assert(t@.take(n as int) =~= t@);
}

// ---------------------------------------------------------------------------
// Digits
// ---------------------------------------------------------------------------

/// The character of digit `d` (0..=15), lowercase for 10..=15.
pub open spec fn digit_char(d: nat) -> char {
    if d < 10 {
        (48 + d) as char
    } else {
        (87 + d) as char
    }
}

/// The value of a hexadecimal digit (either case), if `c` is one.
pub open spec fn hex_digit_value(c: char) -> Option<nat> {
    if '0' <= c && c <= '9' {
        Some((c as int - 48) as nat)
    } else if 'a' <= c && c <= 'f' {
        Some((c as int - 87) as nat)
    } else if 'A' <= c && c <= 'F' {
        Some((c as int - 55) as nat)
    } else {
        None
    }
}

/// The decimal digits of `n`, most significant first, without leading zeros.
pub open spec fn decimal_digits(n: nat) -> Seq<char>
    decreases n,
{
    if n < 10 {
        seq![digit_char(n)]
    } else {
        decimal_digits(n / 10).push(digit_char(n % 10))
    }
}

/// The lowercase hexadecimal digits of `n`, most significant first, without
/// leading zeros.
pub open spec fn hex_digits(n: nat) -> Seq<char>
    decreases n,
{
    if n < 16 {
        seq![digit_char(n)]
    } else {
        hex_digits(n / 16).push(digit_char(n % 16))
    }
}

/// `s` left-padded with `'0'` to at least `width` characters.
pub open spec fn zero_padded(s: Seq<char>, width: nat) -> Seq<char> {
    if s.len() >= width {
        s
    } else {
        Seq::new((width - s.len()) as nat, |i: int| '0') + s
    }
}

/// The text that `format!("{:#06x}", n)` gives: `0x` and the lowercase hex
/// digits of `n`, zero-padded to a total width of six.
pub open spec fn hex_display(n: nat) -> Seq<char> {
    seq!['0', 'x'] + zero_padded(hex_digits(n), 4)
}

fn digit_to_char(d: u32) -> (c: char)
    requires
        d < 16,
    ensures
        c == digit_char(d as nat),
{
    if d < 10 {
        ((48 + d) as u8) as char
    } else {
        ((87 + d) as u8) as char
    }
}

/// The decimal text of `n` (what `n.to_string()` gives).
pub fn decimal_string(n: usize) -> (s: String)
    ensures
        s@ == decimal_digits(n as nat),
{
    let mut m: usize = n;
    let mut acc: Vec<char> = Vec::new();
    while m >= 10
        invariant
            decimal_digits(n as nat) == decimal_digits(m as nat) + acc@,
        decreases m,
    {
        let d = (m % 10) as u32;
        let c = digit_to_char(d);
        let ghost old_acc = acc@;
        acc.insert(0, c);
        assert(acc@ =~= seq![c] + old_acc);
        assert(decimal_digits(m as nat) == decimal_digits((m / 10) as nat).push(c));
        assert(decimal_digits((m / 10) as nat).push(c) + old_acc =~= decimal_digits(
            (m / 10) as nat,
        ) + acc@);
        m = m / 10;
    }
    let c = digit_to_char(m as u32);
    let ghost old_acc = acc@;
    acc.insert(0, c);
    assert(acc@ =~= seq![c] + old_acc);
    assert(decimal_digits(m as nat) =~= seq![c]);
    string_from_chars(&acc)
}

/// The lowercase hexadecimal digits of `n`.
fn hex_digit_chars(n: u32) -> (v: Vec<char>)
    ensures
        v@ == hex_digits(n as nat),
{
    let mut m: u32 = n;
    let mut acc: Vec<char> = Vec::new();
    while m >= 16
        invariant
            hex_digits(n as nat) == hex_digits(m as nat) + acc@,
        decreases m,
    {
        let c = digit_to_char(m % 16);
        let ghost old_acc = acc@;
        acc.insert(0, c);
        assert(acc@ =~= seq![c] + old_acc);
        assert(hex_digits(m as nat) == hex_digits((m / 16) as nat).push(c));
        assert(hex_digits((m / 16) as nat).push(c) + old_acc =~= hex_digits((m / 16) as nat)
            + acc@);
        m = m / 16;
    }
    let c = digit_to_char(m);
    let ghost old_acc = acc@;
    acc.insert(0, c);
    assert(acc@ =~= seq![c] + old_acc);
    assert(hex_digits(m as nat) =~= seq![c]);
    acc
}

/// The text of `format!("{:#06x}", n)`.
pub fn hex_display_string(n: u32) -> (s: String)
    ensures
        s@ == hex_display(n as nat),
{
    let digits = hex_digit_chars(n);
    let mut s = String::new();
    push_char(&mut s, '0');
    push_char(&mut s, 'x');
    let mut k: usize = digits.len();
    while k < 4
        invariant
            digits@ == hex_digits(n as nat),
            digits@.len() <= k <= 4 || (digits@.len() >= 4 && k == digits@.len()),
            s@ == seq!['0', 'x'] + Seq::new((k - digits@.len()) as nat, |i: int| '0'),
        decreases 4 - k,
    {
        push_char(&mut s, '0');
        assert(s@ =~= seq!['0', 'x'] + Seq::new((k + 1 - digits@.len()) as nat, |i: int| '0'));
        k = k + 1;
    }
    push_chars(&mut s, &digits);
    assert(s@ =~= hex_display(n as nat));
    s
}


// ---------------------------------------------------------------------------
// Hexadecimal parsing
// ---------------------------------------------------------------------------

/// The value of a sequence of hexadecimal digits (non-digits count as zero).
pub open spec fn hex_value(s: Seq<char>) -> nat
    decreases s.len(),
{
    if s.len() == 0 {
        0
    } else {
        hex_value(s.drop_last()) * 16 + match hex_digit_value(s.last()) {
            Some(v) => v,
            None => 0,
        }
    }
}

/// Every character of `s` is a hexadecimal digit.
pub open spec fn all_hex_digits(s: Seq<char>) -> bool {
    forall|i: int| 0 <= i < s.len() ==> (#[trigger] hex_digit_value(s[i])) is Some
}

/// The digits that `u32::from_str_radix(s, 16)` reads: `s` without one
/// leading `+`.
pub open spec fn unsigned_digits(s: Seq<char>) -> Seq<char> {
    if s.len() > 0 && s[0] == '+' {
        s.drop_first()
    } else {
        s
    }
}

/// What `u32::from_str_radix(s, 16).ok()` gives: the value of an optional `+`
/// followed by at least one hexadecimal digit (either case), when it fits in
/// a `u32`; `None` otherwise.
pub open spec fn parse_hex_u32_spec(s: Seq<char>) -> Option<u32> {
    let d = unsigned_digits(s);
    if d.len() > 0 && all_hex_digits(d) && hex_value(d) <= u32::MAX {
        Some(hex_value(d) as u32)
    } else {
        None
    }
}

/// A prefix never has a larger value than the whole sequence.
proof fn lemma_hex_value_prefix(s: Seq<char>, k: int)
    requires
        0 <= k <= s.len(),
    ensures
        hex_value(s.take(k)) <= hex_value(s),
    decreases s.len(),
{
    if k < s.len() {
        lemma_hex_value_prefix(s.drop_last(), k);
        assert(s.drop_last().take(k) =~= s.take(k));
    } else {
        assert(s.take(k) =~= s);
    }
}

fn hex_digit_of(c: char) -> (r: Option<u32>)
    ensures
        r matches Some(v) ==> hex_digit_value(c) == Some(v as nat) && v < 16,
        r is None ==> hex_digit_value(c) is None,
{
    if '0' <= c && c <= '9' {
        Some((c as u32) - 48)
    } else if 'a' <= c && c <= 'f' {
        Some((c as u32) - 87)
    } else if 'A' <= c && c <= 'F' {
        Some((c as u32) - 55)
    } else {
        None
    }
}

/// Parses the characters of `s` from index `start` on as `u32::from_str_radix`
/// does with radix 16.
pub fn parse_hex_u32_from(s: &Vec<char>, start: usize) -> (r: Option<u32>)
    requires
        start <= s@.len(),
    ensures
        r == parse_hex_u32_spec(s@.skip(start as int)),
{
    let n = s.len();
    let ghost d = unsigned_digits(s@.skip(start as int));
    let b: usize = if start < n && s[start] == '+' {
        start + 1
    } else {
        start
    };
    assert(d =~= s@.subrange(b as int, n as int));
    if b == n {
        return None;
    }
    let mut acc: u32 = 0;
    let mut i: usize = b;
    while i < n
        invariant
            n == s@.len(),
            b <= i <= n,
            d == s@.subrange(b as int, n as int),
            d == unsigned_digits(s@.skip(start as int)),
            acc as nat == hex_value(s@.subrange(b as int, i as int)),
            all_hex_digits(s@.subrange(b as int, i as int)),
        decreases n - i,
    {
        let ghost prev = s@.subrange(b as int, i as int);
        let ghost next = s@.subrange(b as int, i + 1);
        assert(next.drop_last() =~= prev);
        assert(next.last() == s@[i as int]);
        match hex_digit_of(s[i]) {
            None => {
                assert(hex_digit_value(d[i - b]) is None);
                return None;
            },
            Some(v) => {
                assert(hex_value(next) == hex_value(prev) * 16 + v);
                let shifted = acc.checked_mul(16);
                match shifted {
                    None => {
                        proof {
                            assert(d.take(i + 1 - b) =~= next);
                            lemma_hex_value_prefix(d, i + 1 - b);
                        }
                        return None;
                    },
                    Some(m) => {
                        match m.checked_add(v) {
                            None => {
                                proof {
                                    assert(d.take(i + 1 - b) =~= next);
                                    lemma_hex_value_prefix(d, i + 1 - b);
                                }
                                return None;
                            },
                            Some(t) => {
                                assert(forall|j: int|
                                    0 <= j < next.len() ==> #[trigger] next[j] == (if j
                                        < prev.len() {
                                        prev[j]
                                    } else {
                                        s@[i as int]
                                    }));
                                acc = t;
                            },
                        }
                    },
                }
            },
        }
        i = i + 1;
    }
    Some(acc)
}

/// What `u32::from_str_radix(text, 16).ok()` gives.
pub fn parse_hex_u32(text: &str) -> (r: Option<u32>)
    ensures
        r == parse_hex_u32_spec(text@),
{
    let v = chars_of(text);
    assert(v@.skip(0) =~= v@);
    parse_hex_u32_from(&v, 0)
}

// ---------------------------------------------------------------------------
// Comparisons and searches on characters
// ---------------------------------------------------------------------------

/// `c` with ASCII uppercase letters mapped to lowercase, as a code point.
pub open spec fn ascii_lower(c: char) -> int {
    if 'A' <= c && c <= 'Z' {
        c as int + 32
    } else {
        c as int
    }
}

/// `a` and `b` are equal ignoring ASCII case (`str::eq_ignore_ascii_case`).
pub open spec fn eq_ignore_ascii_case_spec(a: Seq<char>, b: Seq<char>) -> bool {
    &&& a.len() == b.len()
    &&& forall|i: int| 0 <= i < a.len() ==> #[trigger] ascii_lower(a[i]) == ascii_lower(b[i])
}

fn lower_code(c: char) -> (r: u32)
    ensures
        r as int == ascii_lower(c),
{
    if 'A' <= c && c <= 'Z' {
        (c as u32) + 32
    } else {
        c as u32
    }
}

/// Whether `a` and `b` are equal ignoring ASCII case.
pub fn chars_eq_ignore_ascii_case(a: &Vec<char>, b: &Vec<char>) -> (r: bool)
    ensures
        r == eq_ignore_ascii_case_spec(a@, b@),
{
    if a.len() != b.len() {
        return false;
    }
    let n = a.len();
    let mut i: usize = 0;
    while i < n
        invariant
            n == a@.len(),
            n == b@.len(),
            i <= n,
            forall|j: int| 0 <= j < i ==> #[trigger] ascii_lower(a@[j]) == ascii_lower(b@[j]),
        decreases n - i,
    {
        if lower_code(a[i]) != lower_code(b[i]) {
            return false;
        }
        i = i + 1;
    }
    true
}

/// Whether `a` and `b` are equal ignoring ASCII case.
pub fn eq_ignore_ascii_case(a: &str, b: &str) -> (r: bool)
    ensures
        r == eq_ignore_ascii_case_spec(a@, b@),
{
    let x = chars_of(a);
    let y = chars_of(b);
    chars_eq_ignore_ascii_case(&x, &y)
}

/// `s` begins with `p`.
pub open spec fn has_prefix(s: Seq<char>, p: Seq<char>) -> bool {
    p.len() <= s.len() && s.take(p.len() as int) == p
}

/// The index of the last `c` in `s` (`str::rfind` counted in characters).
pub open spec fn last_index_of(s: Seq<char>, c: char) -> Option<int>
    decreases s.len(),
{
    if s.len() == 0 {
        None
    } else if s.last() == c {
        Some(s.len() - 1)
    } else {
        last_index_of(s.drop_last(), c)
    }
}

/// `s` without its trailing NUL characters (`trim_end_matches('\0')`).
pub open spec fn trim_trailing_nul(s: Seq<char>) -> Seq<char>
    decreases s.len(),
{
    if s.len() > 0 && s.last() == '\0' {
        trim_trailing_nul(s.drop_last())
    } else {
        s
    }
}

/// The pieces of `s` between occurrences of `sep` (`str::split`): one more
/// piece than there are separators.
pub open spec fn split_on(s: Seq<char>, sep: char) -> Seq<Seq<char>>
    decreases s.len(),
{
    if s.len() == 0 {
        seq![Seq::empty()]
    } else {
        let p = split_on(s.drop_last(), sep);
        if s.last() == sep {
            p.push(Seq::empty())
        } else {
            p.update(p.len() - 1, p.last().push(s.last()))
        }
    }
}

/// `split_on` always gives at least one piece.
pub proof fn lemma_split_nonempty(s: Seq<char>, sep: char)
    ensures
        split_on(s, sep).len() >= 1,
    decreases s.len(),
{
    if s.len() > 0 {
        lemma_split_nonempty(s.drop_last(), sep);
    }
}

/// `s` splits into more than one piece exactly when it holds `sep`.
pub proof fn lemma_split_many_iff_contains(s: Seq<char>, sep: char)
    ensures
        split_on(s, sep).len() > 1 <==> s.contains(sep),
    decreases s.len(),
{
    if s.len() > 0 {
        lemma_split_many_iff_contains(s.drop_last(), sep);
        lemma_split_nonempty(s.drop_last(), sep);
        if s.drop_last().contains(sep) {
            let j = choose|j: int| 0 <= j < s.drop_last().len() && s.drop_last()[j] == sep;
            assert(s[j] == sep);
        }
        if s.contains(sep) && s.last() != sep {
            let j = choose|j: int| 0 <= j < s.len() && s[j] == sep;
            assert(s.drop_last()[j] == sep);
        }
        if s.last() == sep {
            assert(s[s.len() - 1] == sep);
        }
    }
}

/// The views of a vector of character vectors.
pub open spec fn views_of(v: Seq<Vec<char>>) -> Seq<Seq<char>> {
    v.map_values(|x: Vec<char>| x@)
}

/// The pieces of `s` between occurrences of `sep`.
pub fn split_chars(s: &Vec<char>, sep: char) -> (parts: Vec<Vec<char>>)
    ensures
        views_of(parts@) == split_on(s@, sep),
{
    let n = s.len();
    let mut done: Vec<Vec<char>> = Vec::new();
    let mut cur: Vec<char> = Vec::new();
    let mut i: usize = 0;
    while i < n
        invariant
            n == s@.len(),
            i <= n,
            views_of(done@).push(cur@) == split_on(s@.take(i as int), sep),
        decreases n - i,
    {
        let c = s[i];
        let ghost t = s@.take(i + 1);
        assert(t.drop_last() =~= s@.take(i as int));
        assert(t.last() == c);
        proof {
            lemma_split_nonempty(s@.take(i as int), sep);
        }
        if c == sep {
            let finished = cur;
            done.push(finished);
            cur = Vec::new();
            assert(views_of(done@).push(cur@) =~= split_on(s@.take(i as int), sep).push(
                Seq::empty(),
            ));
        } else {
            let ghost before = views_of(done@).push(cur@);
            cur.push(c);
            assert(views_of(done@).push(cur@) =~= before.update(
                before.len() - 1,
                before.last().push(c),
            ));
        }
        i = i + 1;
    }
    assert(s@.take(n as int) =~= s@);
    done.push(cur);
    assert(views_of(done@) =~= split_on(s@, sep));
    done
}

/// The characters of `s` up to index `end` (exclusive).
pub fn prefix_chars(s: &Vec<char>, end: usize) -> (r: Vec<char>)
    requires
        end <= s@.len(),
    ensures
        r@ == s@.take(end as int),
{
    let mut r: Vec<char> = Vec::new();
    let mut i: usize = 0;
    while i < end
        invariant
            end <= s@.len(),
            i <= end,
            r@ == s@.take(i as int),
        decreases end - i,
    {
        r.push(s[i]);
        assert(s@.take(i + 1) =~= s@.take(i as int).push(s@[i as int]));
        i = i + 1;
    }
    r
}

/// The index of the last `c` in `s`.
pub fn last_index_of_char(s: &Vec<char>, c: char) -> (r: Option<usize>)
    ensures
        r matches Some(i) ==> last_index_of(s@, c) == Some(i as int),
        r is None ==> last_index_of(s@, c) is None,
{
    let mut k: usize = s.len();
    assert(s@.take(k as int) =~= s@);
    while k > 0
        invariant
            k <= s@.len(),
            last_index_of(s@, c) == last_index_of(s@.take(k as int), c),
        decreases k,
    {
        let ghost t = s@.take(k as int);
        assert(t.drop_last() =~= s@.take(k - 1));
        if s[k - 1] == c {
            return Some(k - 1);
        }
        k = k - 1;
    }
    None
}

/// `s` without its trailing NUL characters.
pub fn trim_trailing_nul_chars(s: &Vec<char>) -> (r: Vec<char>)
    ensures
        r@ == trim_trailing_nul(s@),
{
    let mut k: usize = s.len();
    assert(s@.take(k as int) =~= s@);
    while k > 0 && s[k - 1] == '\0'
        invariant
            k <= s@.len(),
            trim_trailing_nul(s@) == trim_trailing_nul(s@.take(k as int)),
        decreases k,
    {
        assert(s@.take(k as int).drop_last() =~= s@.take(k - 1));
        k = k - 1;
    }
    prefix_chars(s, k)
}


// ---------------------------------------------------------------------------
// UTF-16
// ---------------------------------------------------------------------------

/// `u` is a leading (high) surrogate.
pub open spec fn is_high_surrogate(u: u16) -> bool {
    0xD800 <= u <= 0xDBFF
}

/// `u` is a trailing (low) surrogate.
pub open spec fn is_low_surrogate(u: u16) -> bool {
    0xDC00 <= u <= 0xDFFF
}

/// Lossy UTF-16 decoding, as `String::from_utf16_lossy` documents it: a
/// surrogate pair gives one character, any other surrogate gives U+FFFD, any
/// other unit gives the character with that code point.
pub open spec fn decode_utf16_lossy(u: Seq<u16>) -> Seq<char>
    decreases u.len(),
{
    if u.len() == 0 {
        Seq::empty()
    } else if u.len() >= 2 && is_high_surrogate(u[0]) && is_low_surrogate(u[1]) {
        seq![(0x10000 + (u[0] - 0xD800) * 0x400 + (u[1] - 0xDC00)) as char]
            + decode_utf16_lossy(u.subrange(2, u.len() as int))
    } else if is_high_surrogate(u[0]) || is_low_surrogate(u[0]) {
        seq!['\u{FFFD}'] + decode_utf16_lossy(u.drop_first())
    } else {
        seq![u[0] as char] + decode_utf16_lossy(u.drop_first())
    }
}

/// Decodes UTF-16 code units (`String::from_utf16_lossy`).
/// Claimed: the result is `decode_utf16_lossy` of the units, as the standard
/// library documents the function.
#[verifier::external_body]
pub(crate) fn decode_wide_lossy(units: &[u16]) -> (s: String)
    ensures
        s@ == decode_utf16_lossy(units@),
{
    String::from_utf16_lossy(units)
}

/// The UTF-16 code units of one character.
pub open spec fn encode_char_utf16(c: char) -> Seq<u16> {
    let v = c as int;
    if v < 0x10000 {
        seq![v as u16]
    } else {
        seq![(0xD800 + (v - 0x10000) / 0x400) as u16, (0xDC00 + (v - 0x10000) % 0x400) as u16]
    }
}

/// The UTF-16 code units of a character sequence (`str::encode_utf16`).
pub open spec fn encode_utf16(s: Seq<char>) -> Seq<u16>
    decreases s.len(),
{
    if s.len() == 0 {
        Seq::empty()
    } else {
        encode_utf16(s.drop_last()) + encode_char_utf16(s.last())
    }
}

fn char_code(c: char) -> (r: u32)
    ensures
        r as int == c as int,
{
    c as u32
}

/// Appends the UTF-16 code units of `s` to `out`.
pub fn push_utf16(out: &mut Vec<u16>, s: &Vec<char>)
    ensures
        final(out)@ == old(out)@ + encode_utf16(s@),
{
    let n = s.len();
    let mut i: usize = 0;
    while i < n
        invariant
            n == s@.len(),
            i <= n,
            out@ == old(out)@ + encode_utf16(s@.take(i as int)),
        decreases n - i,
    {
        let c = s[i];
        let v = char_code(c);
        assert(s@.take(i + 1).drop_last() =~= s@.take(i as int));
        let ghost before = out@;
        if v < 0x10000 {
            out.push(v as u16);
            assert(out@ =~= before + seq![v as u16]);
        } else {
            let w = v - 0x10000;
            out.push((0xD800 + w / 0x400) as u16);
            out.push((0xDC00 + w % 0x400) as u16);
            assert(out@ =~= before + seq![(0xD800 + w / 0x400) as u16, (0xDC00 + w % 0x400) as u16]);
        }
        assert(out@ =~= before + encode_char_utf16(c));
        assert(out@ =~= old(out)@ + encode_utf16(s@.take(i + 1)));
        i = i + 1;
    }
    assert(s@.take(n as int) =~= s@);
}

/// The units of `u` before its first NUL unit (all of `u` if it holds none).
pub open spec fn until_nul(u: Seq<u16>) -> Seq<u16>
    decreases u.len(),
{
    if u.len() == 0 || u[0] == 0 {
        Seq::empty()
    } else {
        seq![u[0]] + until_nul(u.drop_first())
    }
}

proof fn lemma_until_nul_take(u: Seq<u16>, k: int)
    requires
        0 <= k <= u.len(),
        forall|j: int| 0 <= j < k ==> u[j] != 0,
        k == u.len() || u[k] == 0,
    ensures
        until_nul(u) == u.take(k),
    decreases k,
{
    if k == 0 {
        assert(u.take(0) =~= Seq::<u16>::empty());
    } else {
        lemma_until_nul_take(u.drop_first(), k - 1);
        assert(seq![u[0]] + u.drop_first().take(k - 1) =~= u.take(k));
    }
}

/// The units of `u` before its first NUL unit.
pub fn wide_until_nul(u: &[u16]) -> (r: Vec<u16>)
    ensures
        r@ == until_nul(u@),
{
    let n = u.len();
    let mut r: Vec<u16> = Vec::new();
    let mut i: usize = 0;
    while i < n && u[i] != 0
        invariant
            n == u@.len(),
            i <= n,
            r@ == u@.take(i as int),
            forall|j: int| 0 <= j < i ==> u@[j] != 0,
        decreases n - i,
    {
        r.push(u[i]);
        assert(u@.take(i + 1) =~= u@.take(i as int).push(u@[i as int]));
        i = i + 1;
    }
    proof {
        lemma_until_nul_take(u@, i as int);
    }
    r
}

/// The little-endian 16-bit units held by a byte buffer; an odd last byte is
/// left out.
pub open spec fn le_units(b: Seq<u8>) -> Seq<u16> {
    Seq::new(b.len() / 2, |i: int| (b[2 * i] + 256 * b[2 * i + 1]) as u16)
}

/// The little-endian 16-bit units held by a byte buffer.
pub fn wide_from_le_bytes(b: &[u8]) -> (r: Vec<u16>)
    ensures
        r@ == le_units(b@),
{
    let len = b.len();
    let n = len / 2;
    let mut r: Vec<u16> = Vec::new();
    let mut i: usize = 0;
    while i < n
        invariant
            len == b@.len(),
            n == b@.len() / 2,
            i <= n,
            r@ == le_units(b@).take(i as int),
        decreases n - i,
    {
        assert(2 * i + 1 < b@.len());
        let lo = b[2 * i] as u16;
        let hi = b[2 * i + 1] as u16;
        r.push(lo + 256 * hi);
        assert(r@ =~= le_units(b@).take(i + 1));
        i = i + 1;
    }
    assert(le_units(b@).take(n as int) =~= le_units(b@));
    r
}


// ---------------------------------------------------------------------------
// Laws
// ---------------------------------------------------------------------------

proof fn lemma_digit_char_value(d: nat)
    requires
        d < 16,
    ensures
        hex_digit_value(digit_char(d)) == Some(d),
{
}

proof fn lemma_hex_digits_value(n: nat)
    ensures
        hex_value(hex_digits(n)) == n,
        all_hex_digits(hex_digits(n)),
        hex_digits(n).len() > 0,
        hex_digits(n)[0] != '+',
    decreases n,
{
    if n < 16 {
        lemma_digit_char_value(n);
        let s = hex_digits(n);
        assert(s.drop_last() =~= Seq::<char>::empty());
        assert(hex_value(s.drop_last()) == 0);
        assert(s.last() == digit_char(n));
    } else {
        lemma_hex_digits_value(n / 16);
        lemma_digit_char_value(n % 16);
        let s = hex_digits(n);
        assert(s.drop_last() =~= hex_digits(n / 16));
        assert(s.last() == digit_char(n % 16));
        assert(hex_value(s) == hex_value(hex_digits(n / 16)) * 16 + n % 16);
        assert(n == (n / 16) * 16 + n % 16);
        assert forall|i: int| 0 <= i < s.len() implies (#[trigger] hex_digit_value(s[i])) is Some by {
            if i < s.len() - 1 {
                assert(s[i] == hex_digits(n / 16)[i]);
            }
        }
        assert(s[0] == hex_digits(n / 16)[0]);
    }
}

proof fn lemma_zeros_value(k: nat)
    ensures
        hex_value(Seq::new(k, |i: int| '0')) == 0,
        all_hex_digits(Seq::new(k, |i: int| '0')),
    decreases k,
{
    if k > 0 {
        lemma_zeros_value((k - 1) as nat);
        assert(Seq::new(k, |i: int| '0').drop_last() =~= Seq::new((k - 1) as nat, |i: int| '0'));
    }
}

proof fn lemma_leading_zeros_value(k: nat, s: Seq<char>)
    ensures
        hex_value(Seq::new(k, |i: int| '0') + s) == hex_value(s),
    decreases s.len(),
{
    let z = Seq::new(k, |i: int| '0');
    if s.len() == 0 {
        lemma_zeros_value(k);
        assert(z + s =~= z);
    } else {
        lemma_leading_zeros_value(k, s.drop_last());
        assert((z + s).drop_last() =~= z + s.drop_last());
        assert((z + s).last() == s.last());
    }
}

/// Reading back the digits of a displayed number (what follows `0x`) with
/// `u32::from_str_radix(.., 16)` gives the number again.
pub proof fn law_hex_display_parses_back(n: u32)
    ensures
        hex_display(n as nat).take(2) == seq!['0', 'x'],
        parse_hex_u32_spec(hex_display(n as nat).skip(2)) == Some(n),
{
    let digits = hex_digits(n as nat);
    lemma_hex_digits_value(n as nat);
    let padded = zero_padded(digits, 4);
    assert(hex_display(n as nat).skip(2) =~= padded);
    assert(hex_display(n as nat).take(2) =~= seq!['0', 'x']);
    if digits.len() < 4 {
        let k = (4 - digits.len()) as nat;
        let z = Seq::new(k, |i: int| '0');
        lemma_leading_zeros_value(k, digits);
        lemma_zeros_value(k);
        assert(padded == z + digits);
        assert(padded[0] == '0');
        assert forall|i: int| 0 <= i < padded.len() implies (#[trigger] hex_digit_value(
            padded[i],
        )) is Some by {
            if i < k {
                assert(padded[i] == z[i]);
            } else {
                assert(padded[i] == digits[i - k]);
            }
        }
    }
}

proof fn lemma_encode_front(s: Seq<char>)
    requires
        s.len() > 0,
    ensures
        encode_utf16(s) == encode_char_utf16(s[0]) + encode_utf16(s.drop_first()),
    decreases s.len(),
{
    if s.len() == 1 {
        assert(s.drop_last() =~= Seq::<char>::empty());
        assert(s.drop_first() =~= Seq::<char>::empty());
        assert(encode_utf16(s.drop_last()) =~= Seq::<u16>::empty());
        assert(encode_utf16(s.drop_first()) =~= Seq::<u16>::empty());
        assert(s.last() == s[0]);
        assert(encode_utf16(s) =~= encode_char_utf16(s[0]));
    } else {
        lemma_encode_front(s.drop_last());
        assert(s.drop_last().drop_first() =~= s.drop_first().drop_last());
        assert(s.drop_first().last() == s.last());
        assert(encode_utf16(s) =~= encode_char_utf16(s[0]) + encode_utf16(s.drop_first()));
    }
}

proof fn lemma_decode_char_prefix(c: char, rest: Seq<u16>)
    ensures
        decode_utf16_lossy(encode_char_utf16(c) + rest) == seq![c] + decode_utf16_lossy(rest),
{
    let v = c as int;
    let u = encode_char_utf16(c) + rest;
    if v < 0x10000 {
        assert(u[0] == v as u16);
        assert(u.drop_first() =~= rest);
        assert(!is_high_surrogate(u[0]) && !is_low_surrogate(u[0]));
        assert((u[0] as char) == c);
    } else {
        let w = v - 0x10000;
        assert(0 <= w < 0x100000);
        let hi = (0xD800 + w / 0x400) as u16;
        let lo = (0xDC00 + w % 0x400) as u16;
        assert(u[0] == hi && u[1] == lo);
        assert(is_high_surrogate(hi) && is_low_surrogate(lo));
        assert(u.subrange(2, u.len() as int) =~= rest);
        assert(0x10000 + (hi - 0xD800) * 0x400 + (lo - 0xDC00) == v) by (nonlinear_arith)
            requires
                hi == 0xD800 + w / 0x400,
                lo == 0xDC00 + w % 0x400,
                w == v - 0x10000,
                0 <= w,
        ;
        assert((v as char) == c);
    }
}

/// Decoding the UTF-16 encoding of a text gives the text back.
pub proof fn law_utf16_roundtrip(s: Seq<char>)
    ensures
        decode_utf16_lossy(encode_utf16(s)) == s,
    decreases s.len(),
{
    if s.len() > 0 {
        lemma_encode_front(s);
        law_utf16_roundtrip(s.drop_first());
        lemma_decode_char_prefix(s[0], encode_utf16(s.drop_first()));
        assert(seq![s[0]] + s.drop_first() =~= s);
    }
}

} // verus!
