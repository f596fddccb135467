use vstd::prelude::*;

verus! {

/// Compares two strings character by character.
pub fn str_eq(a: &str, b: &str) -> (r: bool)
    ensures
        r == (a@ == b@),
{
    let n = a.unicode_len();
    let m = b.unicode_len();
    if n != m {
        return false;
    }
    let mut i: usize = 0;
    while i < n
        invariant
            n == a@.len(),
            m == b@.len(),
            n == m,
            i <= n,
            forall|k: int| 0 <= k < i ==> a@[k] == b@[k],
        decreases n - i,
    {
        if a.get_char(i) != b.get_char(i) {
            return false;
        }
        i = i + 1;
    }
    assert(a@ =~= b@);
    true
}

/// The characters of a string, in order.
pub fn string_chars(s: &str) -> (v: Vec<char>)
    ensures
        v@ == s@,
{
    let n = s.unicode_len();
    let mut v: Vec<char> = Vec::new();
    let mut i: usize = 0;
    while i < n
        invariant
            n == s@.len(),
            i <= n,
            v@ == s@.take(i as int),
        decreases n - i,
    {
        v.push(s.get_char(i));
        i = i + 1;
        assert(v@ =~= s@.take(i as int));
    }
    assert(s@.take(n as int) =~= s@);
    v
}

/// `String`'s `FromIterator<&char>`: the string made of the given characters.
#[verifier::external_body]
pub(crate) fn string_from_chars(v: &[char]) -> (s: String)
    ensures
        s@ == v@,
{
    v.iter().collect()
}

/// The decimal digit character for a value below ten.
pub open spec fn digit_char(d: nat) -> char {
    ((48 + d) as u8) as char
}

/// The decimal digits of a natural number, most significant first, with no
/// leading zeros (zero itself is `"0"`).
pub open spec fn nat_digits(n: nat) -> Seq<char>
    decreases n,
{
    if n < 10 {
        seq![digit_char(n)]
    } else {
        nat_digits(n / 10).push(digit_char(n % 10))
    }
}

/// How `Display` writes an integer: an optional minus sign, then the digits.
pub open spec fn int_text(n: int) -> Seq<char> {
    if n < 0 {
        seq!['-'] + nat_digits((-n) as nat)
    } else {
        nat_digits(n as nat)
    }
}

/// The number a run of decimal digits stands for.
pub open spec fn digits_value(s: Seq<char>) -> int
    decreases s.len(),
{
    if s.len() == 0 {
        0
    } else {
        digits_value(s.drop_last()) * 10 + (s.last() as int - 48)
    }
}

proof fn lemma_digit_char(d: nat)
    requires
        d < 10,
    ensures
        digit_char(d) as int == 48 + d,
        digit_char(d) != '-',
{
    assert(((48 + d) as u8) as int == 48 + d);
}

/// The digits of `n` stand for `n`, and start with a digit.
proof fn lemma_nat_digits_value(n: nat)
    ensures
        digits_value(nat_digits(n)) == n,
        nat_digits(n).len() > 0,
        nat_digits(n)[0] != '-',
    decreases n,
{
    if n < 10 {
        lemma_digit_char(n);
        let q = seq![digit_char(n)];
        assert(q.drop_last() =~= Seq::<char>::empty());
        assert(digits_value(Seq::<char>::empty()) == 0);
        assert(digits_value(q) == digits_value(q.drop_last()) * 10 + (q.last() as int - 48));
    } else {
        lemma_nat_digits_value(n / 10);
        lemma_digit_char(n % 10);
        let p = nat_digits(n / 10);
        let q = p.push(digit_char(n % 10));
        assert(nat_digits(n) == q);
        assert(q.drop_last() =~= p);
        assert(q.last() == digit_char(n % 10));
        assert(digits_value(q) == digits_value(p) * 10 + (q.last() as int - 48));
        assert(q[0] == p[0]);
    }
}

/// Different integers are written differently.
pub proof fn law_int_text_injective(m: int, n: int)
    ensures
        m != n ==> int_text(m) != int_text(n),
{
    if m != n && int_text(m) == int_text(n) {
        lemma_nat_digits_value(abs_nat(m));
        lemma_nat_digits_value(abs_nat(n));
        if m < 0 && n < 0 {
            assert(nat_digits((-m) as nat) =~= int_text(m).drop_first());
            assert(nat_digits((-n) as nat) =~= int_text(n).drop_first());
        } else if m < 0 {
            assert(int_text(m)[0] == '-');
        } else if n < 0 {
            assert(int_text(n)[0] == '-');
        }
    }
}

spec fn abs_nat(n: int) -> nat {
    if n < 0 {
        (-n) as nat
    } else {
        n as nat
    }
}

pub fn digit(d: u128) -> (c: char)
    requires
        d < 10,
    ensures
        c == digit_char(d as nat),
{
    let b: u8 = 48u8 + (d as u8);
    b as char
}

/// Appends the decimal digits of `n`.
pub fn push_digits(n: u128, out: &mut Vec<char>)
    ensures
        final(out)@ == old(out)@ + nat_digits(n as nat),
    decreases n,
{
    if n >= 10 {
        push_digits(n / 10, out);
    }
    let c = digit(n % 10);
    let ghost before = out@;
    out.push(c);
    proof {
        if n >= 10 {
            assert(nat_digits(n as nat) == nat_digits((n / 10) as nat).push(digit_char((n % 10) as nat)));
        } else {
            assert(nat_digits(n as nat) == seq![digit_char(n as nat)]);
        }
        assert(out@ =~= old(out)@ + nat_digits(n as nat));
    }
}

/// Appends the decimal text of `n`, as `Display` writes it.
pub fn push_int(n: i64, out: &mut Vec<char>)
    ensures
        final(out)@ == old(out)@ + int_text(n as int),
{
    if n < 0 {
        out.push('-');
        let mag: u128 = if n == i64::MIN {
            9223372036854775808u128
        } else {
            (-n) as u128
        };
        push_digits(mag, out);
        assert(out@ =~= old(out)@ + int_text(n as int));
    } else {
        push_digits(n as u128, out);
    }
}

/// Appends the characters of a string.
pub fn push_str(s: &str, out: &mut Vec<char>)
    ensures
        final(out)@ == old(out)@ + s@,
{
    let n = s.unicode_len();
    let mut i: usize = 0;
    while i < n
        invariant
            n == s@.len(),
            i <= n,
            out@ == old(out)@ + s@.take(i as int),
        decreases n - i,
    {
        out.push(s.get_char(i));
        i = i + 1;
        assert(out@ =~= old(out)@ + s@.take(i as int));
    }
    assert(s@.take(n as int) =~= s@);
}

/// The decimal text of an integer, as `Display` writes it.
pub fn int_to_string(n: i64) -> (s: String)
    ensures
        s@ == int_text(n as int),
{
    let mut v: Vec<char> = Vec::new();
    push_int(n, &mut v);
    assert(v@ =~= int_text(n as int));
    string_from_chars(v.as_slice())
}

/// The uppercase mapping of a character, as `char::to_uppercase` yields it
/// (from the Unicode tables that the standard library carries).
pub uninterp spec fn char_uppercase(c: char) -> Seq<char>;

/// The ASCII uppercase letter of an ASCII lowercase one.
pub open spec fn ascii_upper(c: char) -> char {
    ((c as u32) - 32) as char
}

/// `char::to_uppercase`, collected. Its documentation promises one or more
/// characters; for ASCII the mapping is the ASCII one: `a`..`z` become
/// `A`..`Z` and every other ASCII character maps to itself. What it yields for
/// other characters is left to the name `char_uppercase`.
#[verifier::external_body]
fn uppercase_chars(c: char) -> (r: Vec<char>)
    ensures
        r@ == char_uppercase(c),
        r@.len() >= 1,
        'a' <= c <= 'z' ==> r@ == seq![ascii_upper(c)],
        (c as u32) < 128 && !('a' <= c <= 'z') ==> r@ == seq![c],
{
    c.to_uppercase().collect()
}

/// A string with its first character in uppercase: an ASCII lowercase
/// letter becomes its capital, any other ASCII character stays, and a
/// character beyond ASCII becomes what `char::to_uppercase` yields for it.
/// The rest is kept as it is.
pub open spec fn capitalize_spec(s: Seq<char>) -> Seq<char> {
    if s.len() == 0 {
        Seq::empty()
    } else if 'a' <= s[0] <= 'z' {
        seq![ascii_upper(s[0])] + s.drop_first()
    } else if (s[0] as u32) < 128 {
        s
    } else {
        char_uppercase(s[0]) + s.drop_first()
    }
}

/// Whether every character is ASCII.
pub open spec fn is_ascii_text(s: Seq<char>) -> bool {
    forall|i: int| 0 <= i < s.len() ==> (#[trigger] s[i] as u32) < 128
}

/// `capitalize` on ASCII text: a lowercase first letter becomes its capital,
/// and everything else stays as it is.
pub open spec fn capitalize_ascii_spec(s: Seq<char>) -> Seq<char> {
    if s.len() > 0 && 'a' <= s[0] <= 'z' {
        s.update(0, ascii_upper(s[0]))
    } else {
        s
    }
}

/// Uppercases the first character of `s` and keeps the rest as it is.
pub fn capitalize(s: &str) -> (r: String)
    ensures
        r@ == capitalize_spec(s@),
        is_ascii_text(s@) ==> r@ == capitalize_ascii_spec(s@),
{
    let n = s.unicode_len();
    if n == 0 {
        return String::new();
    }
    let first = s.get_char(0);
    let mut v = uppercase_chars(first);
    let rest = s.substring_char(1, n);
    push_str(rest, &mut v);
    assert(rest@ =~= s@.drop_first());
    proof {
        if 'a' <= first <= 'z' {
            assert(seq![ascii_upper(first)] + s@.drop_first() =~= s@.update(0, ascii_upper(first)));
        } else if (first as u32) < 128 {
            assert(seq![first] + s@.drop_first() =~= s@);
        }
        assert(v@ == capitalize_spec(s@));
    }
    string_from_chars(v.as_slice())
}

/// On ASCII text, capitalizing keeps the length, gives ASCII text again, and
/// a second time changes nothing.
pub proof fn law_capitalize_ascii(s: Seq<char>)
    requires
        is_ascii_text(s),
    ensures
        capitalize_ascii_spec(s).len() == s.len(),
        is_ascii_text(capitalize_ascii_spec(s)),
        capitalize_ascii_spec(capitalize_ascii_spec(s)) == capitalize_ascii_spec(s),
        forall|i: int| 1 <= i < s.len() ==> #[trigger] capitalize_ascii_spec(s)[i] == s[i],
{
    let c = capitalize_ascii_spec(s);
    if s.len() > 0 && 'a' <= s[0] <= 'z' {
        assert(c[0] == ascii_upper(s[0]));
        assert('A' <= c[0] <= 'Z');
        assert forall|i: int| 0 <= i < c.len() implies (#[trigger] c[i] as u32) < 128 by {
            if i > 0 {
                assert(c[i] == s[i]);
            }
        }
    }
}

/// The Unicode `White_Space` property, which `char::is_whitespace` and
/// `str::trim` go by.
pub open spec fn is_white_space(c: char) -> bool {
    let u = c as u32;
    (0x09 <= u <= 0x0D) || u == 0x20 || u == 0x85 || u == 0xA0 || u == 0x1680
        || (0x2000 <= u <= 0x200A) || u == 0x2028 || u == 0x2029 || u == 0x202F
        || u == 0x205F || u == 0x3000
}

/// Whether a character is white space, as `char::is_whitespace` says.
pub fn white_space(c: char) -> (r: bool)
    ensures
        r == is_white_space(c),
{
    let u = c as u32;
    (0x09 <= u && u <= 0x0D) || u == 0x20 || u == 0x85 || u == 0xA0 || u == 0x1680
        || (0x2000 <= u && u <= 0x200A) || u == 0x2028 || u == 0x2029 || u == 0x202F
        || u == 0x205F || u == 0x3000
}

/// Drops white space from the front.
pub open spec fn trim_start_spec(s: Seq<char>) -> Seq<char>
    decreases s.len(),
{
    if s.len() > 0 && is_white_space(s[0]) {
        trim_start_spec(s.drop_first())
    } else {
        s
    }
}

/// Drops white space from the back.
pub open spec fn trim_end_spec(s: Seq<char>) -> Seq<char>
    decreases s.len(),
{
    if s.len() > 0 && is_white_space(s.last()) {
        trim_end_spec(s.drop_last())
    } else {
        s
    }
}

/// What `str::trim` leaves: the string without leading and trailing white space.
pub open spec fn trim_spec(s: Seq<char>) -> Seq<char> {
    trim_end_spec(trim_start_spec(s))
}

proof fn lemma_trim_start(s: Seq<char>, i: int)
    requires
        0 <= i <= s.len(),
        forall|k: int| 0 <= k < i ==> is_white_space(#[trigger] s[k]),
        i == s.len() || !is_white_space(s[i]),
    ensures
        trim_start_spec(s) == s.subrange(i, s.len() as int),
    decreases i,
{
    if i == 0 {
        assert(s.subrange(0, s.len() as int) =~= s);
    } else {
        let t = s.drop_first();
        assert forall|k: int| 0 <= k < i - 1 implies is_white_space(#[trigger] t[k]) by {
            assert(t[k] == s[k + 1]);
        }
        assert(is_white_space(s[0]));
        lemma_trim_start(t, i - 1);
        assert(t.subrange(i - 1, t.len() as int) =~= s.subrange(i, s.len() as int));
    }
}

proof fn lemma_trim_end(s: Seq<char>, j: int)
    requires
        0 <= j <= s.len(),
        forall|k: int| j <= k < s.len() ==> is_white_space(#[trigger] s[k]),
        j == 0 || !is_white_space(s[j - 1]),
    ensures
        trim_end_spec(s) == s.subrange(0, j),
    decreases s.len() - j,
{
    if j == s.len() {
        if s.len() > 0 {
            assert(s.last() == s[j - 1]);
        }
        assert(s.subrange(0, j) =~= s);
    } else {
        let t = s.drop_last();
        assert(is_white_space(s.last()));
        assert forall|k: int| j <= k < t.len() implies is_white_space(#[trigger] t[k]) by {
            assert(t[k] == s[k]);
        }
        if j > 0 {
            assert(t[j - 1] == s[j - 1]);
        }
        lemma_trim_end(t, j);
        assert(t.subrange(0, j) =~= s.subrange(0, j));
    }
}

proof fn lemma_trim_start_shape(s: Seq<char>)
    ensures
        trim_start_spec(s).len() == 0 || !is_white_space(trim_start_spec(s)[0]),
        trim_start_spec(s).len() <= s.len(),
    decreases s.len(),
{
    if s.len() > 0 && is_white_space(s[0]) {
        lemma_trim_start_shape(s.drop_first());
    }
}

proof fn lemma_trim_end_shape(s: Seq<char>)
    ensures
        trim_end_spec(s).len() == 0 || !is_white_space(trim_end_spec(s).last()),
        trim_end_spec(s).len() <= s.len(),
        trim_end_spec(s) == s.subrange(0, trim_end_spec(s).len() as int),
    decreases s.len(),
{
    if s.len() > 0 && is_white_space(s.last()) {
        lemma_trim_end_shape(s.drop_last());
        let t = trim_end_spec(s.drop_last());
        assert(s.drop_last().subrange(0, t.len() as int) =~= s.subrange(0, t.len() as int));
    } else {
        assert(s.subrange(0, s.len() as int) =~= s);
    }
}

/// Trimming a trimmed text changes nothing: the result starts and ends with
/// a character that is not white space.
pub proof fn law_trim_idempotent(s: Seq<char>)
    ensures
        trim_spec(trim_spec(s)) == trim_spec(s),
        trim_spec(s).len() > 0 ==> !is_white_space(trim_spec(s)[0]) && !is_white_space(trim_spec(s).last()),
{
    let t = trim_start_spec(s);
    lemma_trim_start_shape(s);
    let u = trim_end_spec(t);
    lemma_trim_end_shape(t);
    if u.len() > 0 {
        assert(u[0] == t[0]);
    }
    assert(trim_start_spec(u) == u);
    assert(trim_end_spec(u) == u);
}

/// Removes leading and trailing white space, as `str::trim` does.
pub fn trim(s: &str) -> (r: String)
    ensures
        r@ == trim_spec(s@),
{
    let v = string_chars(s);
    let n = v.len();
    let mut i: usize = 0;
    while i < n && white_space(v[i])
        invariant
            n == v@.len(),
            v@ == s@,
            i <= n,
            forall|k: int| 0 <= k < i ==> is_white_space(#[trigger] v@[k]),
        decreases n - i,
    {
        i = i + 1;
    }
    proof {
        lemma_trim_start(s@, i as int);
    }
    let ghost t = s@.subrange(i as int, n as int);
    let mut j: usize = n;
    while j > i && white_space(v[j - 1])
        invariant
            n == v@.len(),
            v@ == s@,
            i <= j <= n,
            forall|k: int| j <= k < n ==> is_white_space(#[trigger] v@[k]),
        decreases j,
    {
        j = j - 1;
    }
    let mut out: Vec<char> = Vec::new();
    let mut k: usize = i;
    while k < j
        invariant
            n == v@.len(),
            v@ == s@,
            i <= k <= j <= n,
            out@ == s@.subrange(i as int, k as int),
        decreases j - k,
    {
        out.push(v[k]);
        k = k + 1;
        assert(out@ =~= s@.subrange(i as int, k as int));
    }
    proof {
        assert forall|q: int| (j - i) <= q < t.len() implies is_white_space(#[trigger] t[q]) by {
            assert(t[q] == s@[q + i]);
        }
        if j > i {
            assert(t[j - i - 1] == s@[j - 1]);
        }
        lemma_trim_end(t, (j - i) as int);
        assert(t.subrange(0, (j - i) as int) =~= s@.subrange(i as int, j as int));
    }
    string_from_chars(out.as_slice())
}

/// Whether `needle` occurs in `hay` as a contiguous run.
pub open spec fn contains_spec(hay: Seq<char>, needle: Seq<char>) -> bool {
    exists|i: int|
        0 <= i && i + needle.len() <= hay.len() && #[trigger] hay.subrange(i, i + needle.len())
            == needle
}

/// Substring search, as `str::contains` with a `&str` pattern.
pub fn contains(hay: &str, needle: &str) -> (r: bool)
    ensures
        r == contains_spec(hay@, needle@),
{
    let h = string_chars(hay);
    let nd = string_chars(needle);
    let hn = h.len();
    let nn = nd.len();
    if nn > hn {
        proof {
            assert forall|i: int|
                0 <= i && i + nd@.len() <= h@.len() implies #[trigger] h@.subrange(
                i,
                i + nd@.len(),
            ) != nd@ by {}
        }
        return false;
    }
    let mut i: usize = 0;
    while i <= hn - nn
        invariant
            h@ == hay@,
            nd@ == needle@,
            hn == h@.len(),
            nn == nd@.len(),
            nn <= hn,
            i <= hn - nn + 1,
            forall|p: int| 0 <= p < i ==> #[trigger] h@.subrange(p, p + nn) != nd@,
        decreases hn - i,
    {
        let mut k: usize = 0;
        let mut same = true;
        while k < nn
            invariant
                h@ == hay@,
                nd@ == needle@,
                hn == h@.len(),
                nn == nd@.len(),
                i + nn <= hn,
                k <= nn,
                same == (forall|q: int| 0 <= q < k ==> h@[i + q] == nd@[q]),
            decreases nn - k,
        {
            if h[i + k] != nd[k] {
                same = false;
            }
            k = k + 1;
        }
        if same {
            assert(h@.subrange(i as int, i + nn) =~= nd@);
            return true;
        }
        proof {
            let q = choose|q: int| 0 <= q < nn && h@[i + q] != nd@[q];
            assert(h@.subrange(i as int, i + nn)[q] == h@[i + q]);
        }
        i = i + 1;
    }
    false
}

} // verus!
