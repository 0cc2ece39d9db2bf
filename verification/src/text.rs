//! Character and string helpers shared by the rest of the library.
use vstd::prelude::*;

verus! {

/// The characters of `s`, in order.
pub(crate) fn chars_of(s: &str) -> (v: Vec<char>)
    ensures
        v@ == s@,
{
    broadcast use vstd::string::axiom_spec_iter;
    let mut v: Vec<char> = Vec::new();
    for c in it: s.chars()
        invariant
            it.seq() == s@,
            v.len() == it.index(),
            forall|i: int| 0 <= i < v.len() ==> v@[i] == it.seq()[i],
    {
        v.push(c);
    }
    proof {
        assert(v@ =~= s@);
    }
    v
}

/// Appends one character to a `String`.
///
/// Trusted: calls `String::push`; the contract claims that the string's
/// characters grow by exactly `c` at the end.
#[verifier::external_body]
pub(crate) fn push_char(s: &mut String, c: char)
    ensures
        final(s)@ == old(s)@.push(c),
{
    s.push(c);
}

/// Builds a `String` holding exactly the given characters.
///
/// Trusted: collects the characters with `String::from_iter`.
#[verifier::external_body]
pub(crate) fn string_from_chars(v: &Vec<char>) -> (s: String)
    ensures
        s@ == v@,
{
    v.iter().collect()
}


/// Removes the last character of a `String`, if any.
///
/// Trusted: calls `String::pop`; the contract claims that it removes and
/// returns the last character, and leaves an empty string alone.
#[verifier::external_body]
pub(crate) fn pop_char(s: &mut String) -> (c: Option<char>)
    ensures
        old(s)@.len() == 0 ==> c is None && final(s)@ == old(s)@,
        old(s)@.len() > 0 ==> c == Some(old(s)@.last()) && final(s)@ == old(s)@.drop_last(),
{
    s.pop()
}

/// `s` without the white space at its start and its end, like `str::trim`.
pub open spec fn spec_trim(s: Seq<char>) -> Seq<char> {
    let start = first_non_ws(s, 0);
    let end = last_non_ws_end(s, s.len() as int);
    if start >= end { seq![] } else { s.subrange(start, end) }
}

/// The position of the first character from `i` on that is not white space,
/// or the length when there is none.
pub open spec fn first_non_ws(s: Seq<char>, i: int) -> int
    decreases s.len() - i,
{
    if i < 0 || i >= s.len() {
        s.len() as int
    } else if !spec_is_whitespace(s[i]) {
        i
    } else {
        first_non_ws(s, i + 1)
    }
}

/// One past the position of the last character before `j` that is not
/// white space, or 0 when there is none.
pub open spec fn last_non_ws_end(s: Seq<char>, j: int) -> int
    decreases j,
{
    if j <= 0 || j > s.len() {
        0
    } else if !spec_is_whitespace(s[j - 1]) {
        j
    } else {
        last_non_ws_end(s, j - 1)
    }
}

proof fn lemma_first_non_ws(s: Seq<char>, i: int)
    requires
        0 <= i <= s.len(),
    ensures
        i <= first_non_ws(s, i) <= s.len(),
    decreases s.len() - i,
{
    if i < s.len() && spec_is_whitespace(s[i]) {
        lemma_first_non_ws(s, i + 1);
    }
}

proof fn lemma_last_non_ws_end(s: Seq<char>, j: int)
    requires
        0 <= j <= s.len(),
    ensures
        0 <= last_non_ws_end(s, j) <= j,
    decreases j,
{
    if j > 0 && spec_is_whitespace(s[j - 1]) {
        lemma_last_non_ws_end(s, j - 1);
    }
}

/// `s` without its leading and trailing white space.
pub fn trim(s: &str) -> (r: String)
    ensures
        r@ == spec_trim(s@),
{
    let cs = chars_of(s);
    let mut start: usize = 0;
    while start < cs.len() && is_whitespace(cs[start])
        invariant
            cs@ == s@,
            start <= cs@.len(),
            first_non_ws(cs@, 0) == first_non_ws(cs@, start as int),
        decreases cs@.len() - start,
    {
        start = start + 1;
    }
    let mut end: usize = cs.len();
    while end > 0 && is_whitespace(cs[end - 1])
        invariant
            cs@ == s@,
            end <= cs@.len(),
            last_non_ws_end(cs@, cs@.len() as int) == last_non_ws_end(cs@, end as int),
        decreases end,
    {
        end = end - 1;
    }
    let mut out = String::new();
    if start < end {
        let mut k: usize = start;
        while k < end
            invariant
                cs@ == s@,
                start <= k <= end <= cs@.len(),
                out@ == cs@.subrange(start as int, k as int),
            decreases end - k,
        {
            push_char(&mut out, cs[k]);
            k = k + 1;
            proof {
                assert(out@ =~= cs@.subrange(start as int, k as int));
            }
        }
    }
    proof {
        assert(first_non_ws(cs@, start as int) == start);
        assert(last_non_ws_end(cs@, end as int) == end);
        if start >= end {
            assert(out@ =~= seq![]);
        }
    }
    out
}

/// What `char::to_lowercase` gives for one character.
pub uninterp spec fn spec_char_lowercase(c: char) -> Seq<char>;

/// What `char::to_lowercase` gives for each character of a string, joined.
pub open spec fn spec_lowercase(s: Seq<char>) -> Seq<char>
    decreases s.len(),
{
    if s.len() == 0 {
        seq![]
    } else {
        spec_lowercase(s.drop_last()) + spec_char_lowercase(s.last())
    }
}

/// Whether the character has Unicode's `White_Space` property: tab, line
/// feed, vertical tab, form feed, carriage return, space, next line,
/// no-break space, ogham space mark, the spaces from en quad to hair space,
/// line and paragraph separator, narrow no-break space, medium mathematical
/// space and ideographic space.
pub open spec fn spec_is_whitespace(c: char) -> bool {
    let n = c as u32;
    ||| 0x09 <= n && n <= 0x0D
    ||| n == 0x20
    ||| n == 0x85
    ||| n == 0xA0
    ||| n == 0x1680
    ||| 0x2000 <= n && n <= 0x200A
    ||| n == 0x2028
    ||| n == 0x2029
    ||| n == 0x202F
    ||| n == 0x205F
    ||| n == 0x3000
}

/// Whether Unicode classifies the character as alphabetic or numeric.
pub uninterp spec fn spec_is_alphanumeric(c: char) -> bool;

/// What `char::to_uppercase` gives for one character.
pub uninterp spec fn spec_uppercase(c: char) -> Seq<char>;

/// The lowercase form of `c`, which may be several characters long.
///
/// Trusted: calls `char::to_lowercase` and collects it; the contract names
/// the result, which depends on the character alone, and says that an ASCII
/// character gives its ASCII lowercase form.
#[verifier::external_body]
fn char_lowercase(c: char) -> (r: Vec<char>)
    ensures
        r@ == spec_char_lowercase(c),
        is_ascii_char(c) ==> r@ == seq![ascii_lower_char(c)],
{
    c.to_lowercase().collect()
}

/// The Unicode lowercase form of `s`, one character at a time.
pub(crate) fn lowercase(s: &str) -> (r: String)
    ensures
        r@ == spec_lowercase(s@),
{
    let cs = chars_of(s);
    let mut out = String::new();
    let mut i: usize = 0;
    while i < cs.len()
        invariant
            cs@ == s@,
            i <= cs@.len(),
            out@ == spec_lowercase(cs@.take(i as int)),
        decreases cs@.len() - i,
    {
        let low = char_lowercase(cs[i]);
        let ghost before = out@;
        let mut j: usize = 0;
        while j < low.len()
            invariant
                j <= low@.len(),
                out@ == before + low@.take(j as int),
            decreases low@.len() - j,
        {
            push_char(&mut out, low[j]);
            j = j + 1;
            proof {
                assert(out@ =~= before + low@.take(j as int));
            }
        }
        proof {
            assert(low@.take(low@.len() as int) =~= low@);
            assert(cs@.take(i + 1).drop_last() =~= cs@.take(i as int));
        }
        i = i + 1;
    }
    proof {
        assert(cs@.take(cs@.len() as int) =~= cs@);
    }
    out
}

/// What `str::to_lowercase` gives for a string (which, unlike lowering
/// each character alone, treats a final Greek sigma specially).
pub uninterp spec fn spec_str_lowercase(s: Seq<char>) -> Seq<char>;

/// The lowercase form of `s`, as `str::to_lowercase` gives it.
///
/// Trusted: calls `str::to_lowercase`, which depends on the string alone;
/// the contract names the result and says that an ASCII string gives its
/// ASCII lowercase form.
#[verifier::external_body]
pub(crate) fn str_lowercase(s: &str) -> (r: String)
    ensures
        r@ == spec_str_lowercase(s@),
        all_ascii(s@) ==> r@ == ascii_lower(s@),
{
    s.to_lowercase()
}

/// Whether `c` is white space, as `char::is_whitespace` decides it: the
/// characters with Unicode's `White_Space` property.
pub(crate) fn is_whitespace(c: char) -> (b: bool)
    ensures
        b == spec_is_whitespace(c),
{
    let n: u32 = c as u32;
    (0x09 <= n && n <= 0x0D) || n == 0x20 || n == 0x85 || n == 0xA0 || n == 0x1680
        || (0x2000 <= n && n <= 0x200A) || n == 0x2028 || n == 0x2029 || n == 0x202F
        || n == 0x205F || n == 0x3000
}

/// Whether `c` is alphabetic or numeric.
///
/// Trusted: calls `char::is_alphanumeric`; the contract names the result and
/// says that among ASCII characters exactly the letters and digits pass.
#[verifier::external_body]
pub(crate) fn is_alphanumeric(c: char) -> (b: bool)
    ensures
        b == spec_is_alphanumeric(c),
        is_ascii_char(c) ==> (b <==> is_ascii_alnum(c)),
{
    c.is_alphanumeric()
}

/// The uppercase form of `c`, which may be several characters long.
///
/// Trusted: calls `char::to_uppercase` and collects it; the contract names
/// the result and says that an ASCII character gives its ASCII uppercase form.
#[verifier::external_body]
pub(crate) fn uppercase(c: char) -> (r: Vec<char>)
    ensures
        r@ == spec_uppercase(c),
        is_ascii_char(c) ==> r@ == seq![ascii_upper_char(c)],
{
    c.to_uppercase().collect()
}

/// Whether `c` is an ASCII character.
pub open spec fn is_ascii_char(c: char) -> bool {
    (c as u32) < 128
}

/// Whether every character of `s` is ASCII.
pub open spec fn all_ascii(s: Seq<char>) -> bool {
    forall|i: int| 0 <= i < s.len() ==> is_ascii_char(#[trigger] s[i])
}

/// The ASCII lowercase form of one character: `A`..`Z` become `a`..`z`,
/// everything else is unchanged.
pub open spec fn ascii_lower_char(c: char) -> char {
    if 'A' <= c && c <= 'Z' { ((c as u32) + 32) as char } else { c }
}

/// The ASCII uppercase form of one character: `a`..`z` become `A`..`Z`,
/// everything else is unchanged.
pub open spec fn ascii_upper_char(c: char) -> char {
    if 'a' <= c && c <= 'z' { ((c as u32) - 32) as char } else { c }
}

/// Whether `c` is an ASCII letter or digit.
pub open spec fn is_ascii_alnum(c: char) -> bool {
    ('a' <= c && c <= 'z') || ('A' <= c && c <= 'Z') || ('0' <= c && c <= '9')
}

/// The ASCII lowercase form of every character of `s`.
pub open spec fn ascii_lower(s: Seq<char>) -> Seq<char> {
    s.map_values(|c: char| ascii_lower_char(c))
}

/// Lowers an ASCII uppercase letter; every other character is unchanged.
pub fn to_ascii_lower(c: char) -> (r: char)
    ensures
        r == ascii_lower_char(c),
{
    if 'A' <= c && c <= 'Z' {
        let b: u8 = c as u8;
        (b + 32) as char
    } else {
        c
    }
}

/// Whether `needle` occurs in `hay` starting at position `i`.
pub open spec fn occurs_at(hay: Seq<char>, needle: Seq<char>, i: int) -> bool {
    0 <= i && i + needle.len() <= hay.len() && hay.subrange(i, i + needle.len()) == needle
}

/// Whether `needle` occurs somewhere in `hay`.
pub open spec fn has_substring(hay: Seq<char>, needle: Seq<char>) -> bool {
    exists|i: int| occurs_at(hay, needle, i)
}

/// Whether `needle` occurs as a contiguous run of characters in `hay`.
pub fn contains_str(hay: &str, needle: &str) -> (b: bool)
    ensures
        b == has_substring(hay@, needle@),
{
    let h = chars_of(hay);
    let n = chars_of(needle);
    let hl = h.len();
    let nl = n.len();
    if nl > hl {
        assert forall|i: int| !occurs_at(hay@, needle@, i) by {}
        return false;
    }
    let mut i: usize = 0;
    while i <= hl - nl
        invariant
            h@ == hay@,
            n@ == needle@,
            hl == h@.len(),
            nl == n@.len(),
            nl <= hl,
            i <= hl - nl + 1,
            forall|k: int| 0 <= k < i ==> !occurs_at(hay@, needle@, k),
        decreases hl - i,
    {
        let mut k: usize = 0;
        let mut same = true;
        while k < nl
            invariant
                h@ == hay@,
                n@ == needle@,
                hl == h@.len(),
                nl == n@.len(),
                i + nl <= hl,
                k <= nl,
                same == (forall|m: int| 0 <= m < k ==> h@[i + m] == n@[m]),
            decreases nl - k,
        {
            if h[i + k] != n[k] {
                same = false;
            }
            k = k + 1;
        }
        if same {
            assert(hay@.subrange(i as int, i + nl) =~= needle@);
            assert(occurs_at(hay@, needle@, i as int));
            return true;
        }
        assert(!occurs_at(hay@, needle@, i as int)) by {
            if occurs_at(hay@, needle@, i as int) {
                let m = choose|m: int| 0 <= m < nl && h@[i + m] != n@[m];
                assert(hay@.subrange(i as int, i + nl)[m] == h@[i + m]);
            }
        }
        i = i + 1;
    }
    assert forall|k: int| !occurs_at(hay@, needle@, k) by {
        if 0 <= k && k < i {
        }
    }
    false
}


/// The lowercase hexadecimal digit for a value below 16.
pub open spec fn hex_digit(d: nat) -> char {
    if d < 10 { ((d + 48) as u32) as char } else { ((d + 87) as u32) as char }
}

/// The last `n` hexadecimal digits of `v`, most significant first.
pub open spec fn hex_digits(v: nat, n: nat) -> Seq<char>
    decreases n,
{
    if n == 0 {
        Seq::empty()
    } else {
        hex_digits(v / 16, (n - 1) as nat).push(hex_digit(v % 16))
    }
}

/// The value as exactly 16 lowercase hexadecimal digits, zero padded.
pub open spec fn spec_hex16(v: nat) -> Seq<char> {
    hex_digits(v, 16)
}

/// The character for a hexadecimal digit.
pub fn hex_digit_char(d: u64) -> (c: char)
    requires
        d < 16,
    ensures
        c == hex_digit(d as nat),
{
    if d < 10 {
        ((d as u8) + 48) as char
    } else {
        ((d as u8) + 87) as char
    }
}

/// `v` as 16 lowercase hexadecimal digits, like `format!("{:016x}", v)`.
pub fn hex16(v: u64) -> (s: String)
    ensures
        s@ == spec_hex16(v as nat),
{
    let mut digits: Vec<char> = Vec::new();
    let mut k: usize = 0;
    let mut rest: u64 = v;
    let ghost mut pows: nat = 1;
    while k < 16
        invariant
            k <= 16,
            digits@.len() == k,
            rest as nat == v as nat / pows,
            pows > 0,
            hex_digits(v as nat, 16) == hex_digits(rest as nat, (16 - k) as nat) + Seq::new(k as nat, |m: int| digits@[k - 1 - m]),
        decreases 16 - k,
    {
        let ghost old_rest = rest;
        let ghost old_digits = digits@;
        let d = rest % 16;
        digits.push(hex_digit_char(d));
        rest = rest / 16;
        proof {
            vstd::arithmetic::div_mod::lemma_div_denominator(v as int, pows as int, 16);
            vstd::arithmetic::mul::lemma_mul_is_commutative(pows as int, 16);
            pows = pows * 16;
            let a = hex_digits(old_rest as nat, (16 - k) as nat);
            assert(a == hex_digits(rest as nat, (16 - k - 1) as nat).push(hex_digit(d as nat)));
            assert(hex_digits(rest as nat, (16 - k - 1) as nat) + Seq::new((k + 1) as nat, |m: int| digits@[k + 1 - 1 - m])
                =~= a + Seq::new(k as nat, |m: int| old_digits[k - 1 - m]));
        }
        k = k + 1;
    }
    let mut out = String::new();
    let mut i: usize = 16;
    while i > 0
        invariant
            i <= 16,
            digits@.len() == 16,
            out@ == Seq::new((16 - i) as nat, |m: int| digits@[15 - m]),
            hex_digits(v as nat, 16) == Seq::new(16, |m: int| digits@[15 - m]),
        decreases i,
    {
        i = i - 1;
        push_char(&mut out, digits[i]);
        assert(out@ =~= Seq::new((16 - i) as nat, |m: int| digits@[15 - m]));
    }
    assert(out@ =~= hex_digits(v as nat, 16));
    out
}


/// The character of a decimal digit.
pub open spec fn dec_digit(d: nat) -> char {
    ((d + 48) as u32) as char
}

/// `n` in decimal, without leading zeros ("0" for zero).
pub open spec fn spec_decimal(n: nat) -> Seq<char>
    decreases n,
{
    if n < 10 {
        seq![dec_digit(n)]
    } else {
        spec_decimal(n / 10).push(dec_digit(n % 10))
    }
}

/// `n` in decimal, zero padded on the left to at least `width` digits.
pub open spec fn spec_padded(n: nat, width: nat) -> Seq<char> {
    let d = spec_decimal(n);
    if d.len() >= width {
        d
    } else {
        Seq::new((width - d.len()) as nat, |i: int| '0') + d
    }
}

proof fn lemma_decimal_len(n: nat)
    ensures
        spec_decimal(n).len() >= 1,
        n < 10 <==> spec_decimal(n).len() == 1,
    decreases n,
{
    if n >= 10 {
        lemma_decimal_len(n / 10);
    }
}

/// `n` in decimal, like `n.to_string()`.
pub fn decimal(n: u64) -> (s: String)
    ensures
        s@ == spec_decimal(n as nat),
{
    let mut digits: Vec<char> = Vec::new();
    let mut rest: u64 = n;
    let ghost mut done: Seq<char> = Seq::empty();
    proof {
        lemma_decimal_len(n as nat);
    }
    loop
        invariant_except_break
            spec_decimal(n as nat) == spec_decimal(rest as nat) + done,
        invariant
            digits@ == done.reverse(),
        ensures
            spec_decimal(n as nat) == done,
        decreases rest,
    {
        let d = rest % 10;
        let c = ((d as u8) + 48) as char;
        proof {
            if rest >= 10 {
                assert(spec_decimal(rest as nat) == spec_decimal((rest / 10) as nat).push(dec_digit((rest % 10) as nat)));
                assert(spec_decimal(n as nat) =~= spec_decimal((rest / 10) as nat) + seq![c].add(done));
            } else {
                assert(spec_decimal(n as nat) =~= seq![c].add(done));
            }
            assert(digits@.push(c) =~= seq![c].add(done).reverse());
            done = seq![c].add(done);
        }
        digits.push(c);
        if rest < 10 {
            break;
        }
        rest = rest / 10;
        proof {
            assert(spec_decimal(n as nat) =~= spec_decimal(rest as nat) + done);
        }
    }
    proof {
        assert(spec_decimal(n as nat) == done);
    }
    let mut out = String::new();
    let mut i: usize = digits.len();
    while i > 0
        invariant
            i <= digits@.len(),
            digits@ == done.reverse(),
            out@ == done.take((digits@.len() - i) as int),
        decreases i,
    {
        i = i - 1;
        push_char(&mut out, digits[i]);
        proof {
            assert(done.take((digits@.len() - i) as int) =~= done.take((digits@.len() - i - 1) as int).push(done[(digits@.len() - 1 - i) as int]));
        }
    }
    proof {
        assert(done.take(digits@.len() as int) =~= done);
    }
    out
}

/// `n` in decimal, zero padded to at least `width` digits, like
/// `format!("{:0width$}", n)`.
pub fn padded(n: u64, width: usize) -> (s: String)
    ensures
        s@ == spec_padded(n as nat, width as nat),
{
    let d = decimal(n);
    let len = chars_of(d.as_str()).len();
    if len >= width {
        return d;
    }
    let mut out = String::new();
    let mut k: usize = 0;
    while k < width - len
        invariant
            len < width,
            k <= width - len,
            out@ == Seq::new(k as nat, |i: int| '0'),
        decreases width - len - k,
    {
        push_char(&mut out, '0');
        k = k + 1;
        proof {
            assert(out@ =~= Seq::new(k as nat, |i: int| '0'));
        }
    }
    out.append(d.as_str());
    out
}

/// Lexicographic order on character sequences from position `i` on, by code
/// point; a proper prefix comes first. This is the order of Rust's `str`.
pub open spec fn lt_from(a: Seq<char>, b: Seq<char>, i: int) -> bool
    decreases a.len() - i,
{
    if i < 0 {
        false
    } else if i >= a.len() {
        i < b.len()
    } else if i >= b.len() {
        false
    } else if a[i] < b[i] {
        true
    } else if a[i] > b[i] {
        false
    } else {
        lt_from(a, b, i + 1)
    }
}

/// `a` comes strictly before `b` in lexicographic order.
pub open spec fn seq_lt(a: Seq<char>, b: Seq<char>) -> bool {
    lt_from(a, b, 0)
}

proof fn lemma_lt_from_irreflexive_step(a: Seq<char>, b: Seq<char>, i: int)
    requires
        0 <= i,
        lt_from(a, b, i),
    ensures
        !lt_from(b, a, i),
    decreases a.len() - i,
{
    if i >= a.len() {
    } else if i >= b.len() {
    } else if a[i] < b[i] {
    } else if a[i] > b[i] {
    } else {
        lemma_lt_from_irreflexive_step(a, b, i + 1);
    }
}

/// Lexicographic order is asymmetric.
pub proof fn lemma_seq_lt_asymmetric(a: Seq<char>, b: Seq<char>)
    requires
        seq_lt(a, b),
    ensures
        !seq_lt(b, a),
{
    lemma_lt_from_irreflexive_step(a, b, 0);
}

proof fn lemma_lt_from_transitive(a: Seq<char>, b: Seq<char>, c: Seq<char>, i: int)
    requires
        0 <= i,
        lt_from(a, b, i),
        lt_from(b, c, i),
    ensures
        lt_from(a, c, i),
    decreases a.len() - i,
{
    if i >= a.len() {
    } else if i >= b.len() {
    } else if a[i] < b[i] {
    } else if a[i] > b[i] {
    } else {
        if i < c.len() && b[i] == c[i] {
            lemma_lt_from_transitive(a, b, c, i + 1);
        }
    }
}

/// Lexicographic order is transitive.
pub proof fn lemma_seq_lt_transitive(a: Seq<char>, b: Seq<char>, c: Seq<char>)
    requires
        seq_lt(a, b),
        seq_lt(b, c),
    ensures
        seq_lt(a, c),
{
    lemma_lt_from_transitive(a, b, c, 0);
}

proof fn lemma_lt_from_total(a: Seq<char>, b: Seq<char>, i: int)
    requires
        0 <= i <= a.len(),
        i <= b.len(),
        a.subrange(0, i) == b.subrange(0, i),
        a != b,
    ensures
        lt_from(a, b, i) || lt_from(b, a, i),
    decreases a.len() - i,
{
    if i >= a.len() {
        if i >= b.len() {
            assert(a =~= b) by {
                assert(a =~= a.subrange(0, i));
                assert(b =~= b.subrange(0, i));
            }
        }
    } else if i >= b.len() {
    } else if a[i] != b[i] {
    } else {
        assert(a.subrange(0, i + 1) =~= a.subrange(0, i).push(a[i]));
        assert(b.subrange(0, i + 1) =~= b.subrange(0, i).push(b[i]));
        lemma_lt_from_total(a, b, i + 1);
    }
}

/// Lexicographic order is total: two different sequences are ordered one
/// way or the other.
pub proof fn lemma_seq_lt_total(a: Seq<char>, b: Seq<char>)
    requires
        a != b,
    ensures
        seq_lt(a, b) || seq_lt(b, a),
{
    assert(a.subrange(0, 0) =~= b.subrange(0, 0));
    lemma_lt_from_total(a, b, 0);
}

/// No sequence comes strictly before itself.
pub proof fn lemma_seq_lt_irreflexive(a: Seq<char>)
    ensures
        !seq_lt(a, a),
{
    if seq_lt(a, a) {
        lemma_seq_lt_asymmetric(a, a);
    }
}

/// Whether `a` comes strictly before `b` in lexicographic (code point) order,
/// the order of Rust's `str`.
pub fn str_lt(a: &str, b: &str) -> (r: bool)
    ensures
        r == seq_lt(a@, b@),
{
    let x = chars_of(a);
    let y = chars_of(b);
    let mut i: usize = 0;
    while i < x.len() && i < y.len()
        invariant
            x@ == a@,
            y@ == b@,
            i <= x@.len(),
            i <= y@.len(),
            lt_from(a@, b@, 0) == lt_from(a@, b@, i as int),
        decreases x@.len() - i,
    {
        if x[i] < y[i] {
            return true;
        }
        if x[i] > y[i] {
            return false;
        }
        i = i + 1;
    }
    i < y.len()
}

/// Whether two strings hold the same characters.
pub fn str_eq(a: &str, b: &str) -> (r: bool)
    ensures
        r == (a@ == b@),
{
    let x = chars_of(a);
    let y = chars_of(b);
    if x.len() != y.len() {
        return false;
    }
    let mut i: usize = 0;
    while i < x.len()
        invariant
            x@ == a@,
            y@ == b@,
            x@.len() == y@.len(),
            i <= x@.len(),
            forall|k: int| 0 <= k < i ==> x@[k] == y@[k],
        decreases x@.len() - i,
    {
        if x[i] != y[i] {
            return false;
        }
        i = i + 1;
    }
    assert(x@ =~= y@);
    true
}

/// The words of `s`: its runs of characters that are not white space, as
/// `str::split_whitespace` gives them.
pub open spec fn spec_words(s: Seq<char>) -> Seq<Seq<char>>
    decreases s.len(),
{
    if s.len() == 0 {
        seq![]
    } else {
        let w = spec_words(s.drop_last());
        let c = s.last();
        if spec_is_whitespace(c) {
            w
        } else if s.len() >= 2 && !spec_is_whitespace(s[s.len() - 2]) && w.len() > 0 {
            w.update(w.len() - 1, w.last().push(c))
        } else {
            w.push(seq![c])
        }
    }
}

/// The words of an ASCII string are ASCII.
pub proof fn lemma_words_ascii(s: Seq<char>)
    requires
        all_ascii(s),
    ensures
        forall|k: int| 0 <= k < spec_words(s).len() ==> all_ascii(#[trigger] spec_words(s)[k]),
    decreases s.len(),
{
    if s.len() > 0 {
        let w = spec_words(s.drop_last());
        let c = s.last();
        assert(all_ascii(s.drop_last()));
        lemma_words_ascii(s.drop_last());
        assert(is_ascii_char(c));
        if spec_is_whitespace(c) {
        } else if s.len() >= 2 && !spec_is_whitespace(s[s.len() - 2]) && w.len() > 0 {
            let u = w.update(w.len() - 1, w.last().push(c));
            assert forall|k: int| 0 <= k < u.len() implies all_ascii(#[trigger] u[k]) by {
                if k == w.len() - 1 {
                    assert(all_ascii(w[k]));
                    assert forall|i: int| 0 <= i < u[k].len() implies is_ascii_char(#[trigger] u[k][i]) by {
                        if i < w[k].len() {
                            assert(u[k][i] == w[k][i]);
                        }
                    }
                } else {
                    assert(u[k] == w[k]);
                }
            }
        } else {
            let u = w.push(seq![c]);
            assert forall|k: int| 0 <= k < u.len() implies all_ascii(#[trigger] u[k]) by {
                if k < w.len() {
                    assert(u[k] == w[k]);
                }
            }
        }
    }
}

/// The texts of a list of strings.
pub open spec fn strings_view(v: Seq<String>) -> Seq<Seq<char>> {
    v.map_values(|s: String| s@)
}

/// The words of `s`, split at white space.
pub fn split_words(s: &str) -> (v: Vec<String>)
    ensures
        strings_view(v@) == spec_words(s@),
{
    let cs = chars_of(s);
    let mut v: Vec<String> = Vec::new();
    let mut i: usize = 0;
    while i < cs.len()
        invariant
            cs@ == s@,
            i <= cs@.len(),
            strings_view(v@) == spec_words(cs@.take(i as int)),
            i > 0 && !spec_is_whitespace(cs@[i - 1]) ==> v@.len() > 0,
        decreases cs@.len() - i,
    {
        let c = cs[i];
        let ghost before = strings_view(v@);
        proof {
            let t = cs@.take(i as int + 1);
            assert(t.drop_last() =~= cs@.take(i as int));
            assert(t.last() == c);
            if i > 0 {
                assert(t[t.len() - 2] == cs@[i - 1]);
            }
        }
        if !is_whitespace(c) {
            if i > 0 && !is_whitespace(cs[i - 1]) && v.len() > 0 {
                let mut last = v.pop().unwrap();
                push_char(&mut last, c);
                v.push(last);
                proof {
                    assert(strings_view(v@) =~= before.update(before.len() - 1, before.last().push(c)));
                }
            } else {
                let mut w = String::new();
                push_char(&mut w, c);
                v.push(w);
                proof {
                    assert(strings_view(v@) =~= before.push(seq![c]));
                }
            }
        }
        i = i + 1;
    }
    proof {
        assert(cs@.take(cs@.len() as int) =~= cs@);
    }
    v
}

/// Texts joined with a separator between each two.
pub open spec fn join_with(parts: Seq<Seq<char>>, sep: Seq<char>) -> Seq<char>
    decreases parts.len(),
{
    if parts.len() == 0 {
        seq![]
    } else if parts.len() == 1 {
        parts[0]
    } else {
        join_with(parts.drop_last(), sep) + sep + parts.last()
    }
}

/// The lowercase words of a search query, as the terms every song must
/// match.
pub open spec fn spec_search_terms(query: Seq<char>) -> Seq<Seq<char>> {
    spec_words(spec_str_lowercase(query))
}

/// The terms of a search query: lowercased, then split at white space.
pub fn search_terms(query: &str) -> (v: Vec<String>)
    ensures
        strings_view(v@) == spec_search_terms(query@),
{
    let lower = str_lowercase(query);
    split_words(lower.as_str())
}

} // verus!
