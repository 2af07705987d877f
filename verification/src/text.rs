//! Small verified text utilities: trimming and lowercasing over the ASCII
//! repertoire (used to normalize emails), character-wise string equality,
//! and decimal and UUID-style formatting for error messages.
//!
//! Trimming and lowercasing are deliberately ASCII: the whitespace set and
//! the `'A'..='Z'` range below are the whole story, stated and proved here,
//! and characters outside them pass through unchanged. Unicode case folding
//! or exotic whitespace would behave differently on non-ASCII input.

use vstd::prelude::*;

verus! {

/// The whitespace characters that trimming strips from either end.
pub open spec fn is_space_char(c: char) -> bool {
    c == ' ' || c == '\t' || c == '\n' || c == '\r' || c == '\u{000B}' || c == '\u{000C}'
}

/// ASCII lowercasing of one character; anything but `'A'..='Z'` is unchanged.
pub open spec fn lower_char(c: char) -> char {
    if 'A' <= c && c <= 'Z' {
        ((c as u32) + 32) as char
    } else {
        c
    }
}

/// The sequence with its leading whitespace removed.
pub open spec fn trim_start_spec(s: Seq<char>) -> Seq<char>
    decreases s.len(),
{
    if s.len() > 0 && is_space_char(s[0]) {
        trim_start_spec(s.drop_first())
    } else {
        s
    }
}

/// The sequence with its trailing whitespace removed.
pub open spec fn trim_end_spec(s: Seq<char>) -> Seq<char>
    decreases s.len(),
{
    if s.len() > 0 && is_space_char(s.last()) {
        trim_end_spec(s.drop_last())
    } else {
        s
    }
}

/// The sequence with whitespace removed from both ends.
pub open spec fn trim_spec(s: Seq<char>) -> Seq<char> {
    trim_end_spec(trim_start_spec(s))
}

/// Character-wise ASCII lowercasing.
pub open spec fn lower_seq(s: Seq<char>) -> Seq<char> {
    s.map_values(|c: char| lower_char(c))
}

fn is_space(c: char) -> (r: bool)
    ensures
        r == is_space_char(c),
{
    c == ' ' || c == '\t' || c == '\n' || c == '\r' || c == '\u{000B}' || c == '\u{000C}'
}

fn to_lower(c: char) -> (r: char)
    ensures
        r == lower_char(c),
{
    if 'A' <= c && c <= 'Z' {
        ((c as u8) + 32) as char
    } else {
        c
    }
}

/// Relies on `String::push`: appends exactly the given character.
#[verifier::external_body]
fn push_char(s: &mut String, c: char)
    ensures
        final(s)@ == old(s)@.push(c),
{
    s.push(c);
}

proof fn lemma_trim_start_at(s: Seq<char>, k: int)
    requires
        0 <= k <= s.len(),
        forall|j: int| 0 <= j < k ==> is_space_char(s[j]),
        k == s.len() || !is_space_char(s[k]),
    ensures
        trim_start_spec(s) =~= s.subrange(k, s.len() as int),
    decreases k,
{
    if k == 0 {
        assert(trim_start_spec(s) == s);
    } else {
        assert(is_space_char(s[0]));
        let t = s.drop_first();
        assert(forall|j: int| 0 <= j < k - 1 ==> is_space_char(t[j]));
        lemma_trim_start_at(t, k - 1);
    }
}

proof fn lemma_trim_end_at(s: Seq<char>, k: int)
    requires
        0 <= k <= s.len(),
        forall|j: int| k <= j < s.len() ==> is_space_char(s[j]),
        k == 0 || !is_space_char(s[k - 1]),
    ensures
        trim_end_spec(s) =~= s.subrange(0, k),
    decreases s.len(),
{
    if k == s.len() {
        if s.len() > 0 {
            assert(!is_space_char(s.last()));
        }
        assert(trim_end_spec(s) == s);
    } else {
        assert(is_space_char(s.last()));
        let t = s.drop_last();
        lemma_trim_end_at(t, k);
    }
}

/// Returns the input trimmed of surrounding whitespace and ASCII-lowercased.
pub fn lower_trim(s: &str) -> (r: String)
    ensures
        r@ == lower_seq(trim_spec(s@)),
{
    let n = s.unicode_len();
    let mut start: usize = 0;
    while start < n && is_space(s.get_char(start))
        invariant
            0 <= start <= n,
            n == s@.len(),
            forall|j: int| 0 <= j < start ==> is_space_char(s@[j]),
        decreases n - start,
    {
        start = start + 1;
    }
    let mut end: usize = n;
    while end > start && is_space(s.get_char(end - 1))
        invariant
            start <= end <= n,
            n == s@.len(),
            forall|j: int| end <= j < n ==> is_space_char(s@[j]),
        decreases end,
    {
        end = end - 1;
    }
    proof {
        lemma_trim_start_at(s@, start as int);
        let t = s@.subrange(start as int, n as int);
        lemma_trim_end_at(t, end - start);
        assert(trim_spec(s@) =~= s@.subrange(start as int, end as int));
    }
    let mut out = String::new();
    let mut i = start;
    while i < end
        invariant
            start <= i <= end <= n,
            n == s@.len(),
            out@ =~= lower_seq(s@.subrange(start as int, i as int)),
        decreases end - i,
    {
        push_char(&mut out, to_lower(s.get_char(i)));
        i = i + 1;
        proof {
            assert(s@.subrange(start as int, i as int) =~= s@.subrange(
                start as int,
                i - 1,
            ).push(s@[i - 1]));
            assert(lower_seq(s@.subrange(start as int, i as int)) =~= lower_seq(
                s@.subrange(start as int, i - 1),
            ).push(lower_char(s@[i - 1])));
        }
    }
    proof {
        assert(out@ =~= lower_seq(trim_spec(s@)));
    }
    out
}

/// Lowercasing never turns a character into whitespace or out of it.
pub proof fn lemma_lower_space(c: char)
    ensures
        is_space_char(lower_char(c)) == is_space_char(c),
{
}

/// Lowercasing is idempotent on characters.
pub proof fn lemma_lower_idempotent_char(c: char)
    ensures
        lower_char(lower_char(c)) == lower_char(c),
{
}

/// Trimming strips the leading whitespace entirely.
pub proof fn lemma_trim_start_first(s: Seq<char>)
    ensures
        trim_start_spec(s).len() > 0 ==> !is_space_char(trim_start_spec(s)[0]),
    decreases s.len(),
{
    if s.len() > 0 && is_space_char(s[0]) {
        lemma_trim_start_first(s.drop_first());
    }
}

/// Trimming strips the trailing whitespace entirely.
pub proof fn lemma_trim_end_last(s: Seq<char>)
    ensures
        trim_end_spec(s).len() > 0 ==> !is_space_char(trim_end_spec(s).last()),
    decreases s.len(),
{
    if s.len() > 0 && is_space_char(s.last()) {
        lemma_trim_end_last(s.drop_last());
    }
}

/// Trimming at the end leaves the first character alone.
pub proof fn lemma_trim_end_first(s: Seq<char>)
    ensures
        trim_end_spec(s).len() > 0 ==> trim_end_spec(s)[0] == s[0],
    decreases s.len(),
{
    if s.len() > 0 && is_space_char(s.last()) {
        lemma_trim_end_first(s.drop_last());
    }
}

/// A trimmed sequence is empty or starts and ends with non-whitespace.
pub proof fn lemma_trim_props(s: Seq<char>)
    ensures
        trim_spec(s).len() == 0 || (!is_space_char(trim_spec(s)[0]) && !is_space_char(
            trim_spec(s).last(),
        )),
{
    lemma_trim_start_first(s);
    let t = trim_start_spec(s);
    lemma_trim_end_last(t);
    lemma_trim_end_first(t);
}

/// Trimming something already trimmed changes nothing.
pub proof fn lemma_trim_of_trimmed(t: Seq<char>)
    requires
        t.len() == 0 || (!is_space_char(t[0]) && !is_space_char(t.last())),
    ensures
        trim_spec(t) == t,
{
}

/// The decimal digit character for `d` (`0 <= d < 10`).
pub open spec fn dec_digit(d: int) -> char {
    (('0' as u32) + d) as char
}

/// The decimal representation of `n`, without leading zeros (`0` is `"0"`).
pub open spec fn dec_str(n: nat) -> Seq<char>
    decreases n,
{
    if n < 10 {
        seq![dec_digit(n as int)]
    } else {
        dec_str(n / 10).push(dec_digit((n % 10) as int))
    }
}

fn dec_digit_exec(d: usize) -> (c: char)
    requires
        d < 10,
    ensures
        c == dec_digit(d as int),
{
    ((d as u8) + 48) as char
}

/// Formats a number in decimal.
pub fn usize_to_string(n: usize) -> (r: String)
    ensures
        r@ == dec_str(n as nat),
{
    let mut digits: Vec<char> = Vec::new();
    let mut m: usize = n;
    loop
        invariant_except_break
            digits@.len() == 0 ==> m == n,
            digits@.len() > 0 ==> m > 0 && dec_str(n as nat) =~= dec_str(m as nat)
                + digits@.reverse(),
        ensures
            dec_str(n as nat) =~= digits@.reverse(),
        decreases m,
    {
        let d = dec_digit_exec(m % 10);
        proof {
            if m >= 10 {
                assert(dec_str(m as nat) =~= dec_str((m as nat) / 10) + seq![
                    dec_digit((m % 10) as int),
                ]);
            } else {
                assert(dec_str(m as nat) =~= seq![dec_digit((m % 10) as int)]);
            }
            assert(digits@.push(d).reverse() =~= seq![d] + digits@.reverse());
        }
        digits.push(d);
        m = m / 10;
        if m == 0 {
            break;
        }
    }
    let mut r = String::new();
    let count = digits.len();
    let mut i: usize = count;
    while i > 0
        invariant
            0 <= i <= count,
            count == digits@.len(),
            r@ =~= digits@.subrange(i as int, count as int).reverse(),
        decreases i,
    {
        push_char(&mut r, digits[i - 1]);
        i = i - 1;
        proof {
            assert(digits@.subrange(i as int, count as int).reverse() =~= digits@.subrange(
                i + 1,
                count as int,
            ).reverse().push(digits@[i as int]));
        }
    }
    proof {
        assert(digits@.subrange(0, count as int) =~= digits@);
    }
    r
}

/// The lower-case hexadecimal digit character for `d` (`0 <= d < 16`).
pub open spec fn hex_digit(d: int) -> char {
    if d < 10 {
        (('0' as u32) + d) as char
    } else {
        (('a' as u32) + (d - 10)) as char
    }
}

/// The hexadecimal representation of `n`, zero-padded to `width` digits.
pub open spec fn hex_pad(n: nat, width: nat) -> Seq<char>
    decreases width,
{
    if width == 0 {
        Seq::empty()
    } else {
        hex_pad(n / 16, (width - 1) as nat).push(hex_digit((n % 16) as int))
    }
}

/// Where character `i` of the hyphenated form comes from in the 32 hex digits.
pub open spec fn uuid_hex_index(i: int) -> int {
    if i < 8 {
        i
    } else if i < 13 {
        i - 1
    } else if i < 18 {
        i - 2
    } else if i < 23 {
        i - 3
    } else {
        i - 4
    }
}

/// Character `i` of the hyphenated textual form of a 128-bit identifier.
pub open spec fn uuid_char(n: u128, i: int) -> char {
    if i == 8 || i == 13 || i == 18 || i == 23 {
        '-'
    } else {
        hex_pad(n as nat, 32)[uuid_hex_index(i)]
    }
}

/// The textual form of a 128-bit identifier: 32 lower-case hex digits in five
/// hyphen-separated groups of 8, 4, 4, 4 and 12.
pub open spec fn uuid_seq(n: u128) -> Seq<char> {
    Seq::new(36, |i: int| uuid_char(n, i))
}

fn hex_digit_exec(d: u128) -> (c: char)
    requires
        d < 16,
    ensures
        c == hex_digit(d as int),
{
    if d < 10 {
        ((d as u8) + 48) as char
    } else {
        ((d as u8) + 87) as char
    }
}

/// Formats a 128-bit identifier in the hyphenated form.
pub fn uuid_to_string(n: u128) -> (r: String)
    ensures
        r@ == uuid_seq(n),
{
    let mut digits: Vec<char> = Vec::new();
    let mut m: u128 = n;
    let mut k: usize = 0;
    while k < 32
        invariant
            0 <= k <= 32,
            digits@.len() == k,
            hex_pad(n as nat, 32) =~= hex_pad(m as nat, (32 - k) as nat) + digits@.reverse(),
        decreases 32 - k,
    {
        let d = hex_digit_exec(m % 16);
        proof {
            assert(hex_pad(m as nat, (32 - k) as nat) =~= hex_pad(
                (m as nat) / 16,
                (31 - k) as nat,
            ) + seq![hex_digit((m % 16) as int)]);
            assert(digits@.push(d).reverse() =~= seq![d] + digits@.reverse());
        }
        digits.push(d);
        m = m / 16;
        k = k + 1;
    }
    let hex = digits;
    proof {
        assert(hex_pad(n as nat, 32) =~= hex@.reverse());
        assert(forall|j: int|
            0 <= j < 32 ==> hex_pad(n as nat, 32)[j] == hex@[31 - j]);
    }
    let mut r = String::new();
    let mut i: usize = 0;
    while i < 36
        invariant
            0 <= i <= 36,
            hex@.len() == 32,
            hex_pad(n as nat, 32) =~= hex@.reverse(),
            r@ =~= uuid_seq(n).take(i as int),
        decreases 36 - i,
    {
        let c = if i == 8 || i == 13 || i == 18 || i == 23 {
            '-'
        } else {
            let j = if i < 8 {
                i
            } else if i < 13 {
                i - 1
            } else if i < 18 {
                i - 2
            } else if i < 23 {
                i - 3
            } else {
                i - 4
            };
            hex[31 - j]
        };
        proof {
            assert(c == uuid_char(n, i as int));
            assert(uuid_seq(n).take(i + 1) =~= uuid_seq(n).take(i as int).push(
                uuid_char(n, i as int),
            ));
        }
        push_char(&mut r, c);
        i = i + 1;
    }
    proof {
        assert(uuid_seq(n).take(36) =~= uuid_seq(n));
    }
    r
}

/// Returns the input trimmed of surrounding whitespace, case untouched.
pub fn trim_str(s: &str) -> (r: String)
    ensures
        r@ == trim_spec(s@),
{
    let n = s.unicode_len();
    let mut start: usize = 0;
    while start < n && is_space(s.get_char(start))
        invariant
            0 <= start <= n,
            n == s@.len(),
            forall|j: int| 0 <= j < start ==> is_space_char(s@[j]),
        decreases n - start,
    {
        start = start + 1;
    }
    let mut end: usize = n;
    while end > start && is_space(s.get_char(end - 1))
        invariant
            start <= end <= n,
            n == s@.len(),
            forall|j: int| end <= j < n ==> is_space_char(s@[j]),
        decreases end,
    {
        end = end - 1;
    }
    proof {
        lemma_trim_start_at(s@, start as int);
        let t = s@.subrange(start as int, n as int);
        lemma_trim_end_at(t, end - start);
        assert(trim_spec(s@) =~= s@.subrange(start as int, end as int));
    }
    let r = s.substring_char(start, end);
    String::from_str(r)
}

/// Character-wise equality of two pieces of text.
pub fn str_eq(a: &str, b: &str) -> (r: bool)
    ensures
        r == (a@ == b@),
{
    let n = a.unicode_len();
    let m = b.unicode_len();
    if n != m {
        proof {
            assert(a@ != b@);
        }
        return false;
    }
    let mut i: usize = 0;
    while i < n
        invariant
            0 <= i <= n,
            n == a@.len(),
            n == b@.len(),
            forall|j: int| 0 <= j < i ==> a@[j] == b@[j],
        decreases n - i,
    {
        if a.get_char(i) != b.get_char(i) {
            return false;
        }
        i = i + 1;
    }
    proof {
        assert(a@ =~= b@);
    }
    true
}

} // verus!
