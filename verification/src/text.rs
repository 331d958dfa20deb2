//! Text helpers shared by the query builders and the JSON frame writers.

use vstd::prelude::*;

verus! {

/// Appends one character to `s` (`String::push`).
#[verifier::external_body]
pub(crate) fn push_char(s: &mut String, c: char)
    ensures
        final(s)@ == old(s)@.push(c),
{
    s.push(c);
}

/// The decimal digit character for `d < 10`.
pub open spec fn digit_char(d: int) -> char {
    if d == 0 { '0' }
    else if d == 1 { '1' }
    else if d == 2 { '2' }
    else if d == 3 { '3' }
    else if d == 4 { '4' }
    else if d == 5 { '5' }
    else if d == 6 { '6' }
    else if d == 7 { '7' }
    else if d == 8 { '8' }
    else { '9' }
}

/// Base-10 rendering of a natural number, most significant digit first, no
/// leading zeros (as `Display` prints unsigned integers).
pub open spec fn decimal(n: nat) -> Seq<char>
    decreases n,
{
    if n < 10 {
        seq![digit_char(n as int)]
    } else {
        decimal(n / 10).push(digit_char((n % 10) as int))
    }
}

/// Base-10 rendering of an integer, with a leading `-` for negatives.
pub open spec fn signed_decimal(n: int) -> Seq<char> {
    if n < 0 {
        seq!['-'] + decimal((-n) as nat)
    } else {
        decimal(n as nat)
    }
}

fn digit(d: u64) -> (c: char)
    requires
        d < 10,
    ensures
        c == digit_char(d as int),
{
    if d == 0 { '0' }
    else if d == 1 { '1' }
    else if d == 2 { '2' }
    else if d == 3 { '3' }
    else if d == 4 { '4' }
    else if d == 5 { '5' }
    else if d == 6 { '6' }
    else if d == 7 { '7' }
    else if d == 8 { '8' }
    else { '9' }
}

/// Appends the decimal rendering of `n` to `s`.
pub fn push_decimal(s: &mut String, n: u64)
    ensures
        final(s)@ == old(s)@ + decimal(n as nat),
    decreases n,
{
    if n >= 10 {
        push_decimal(s, n / 10);
    }
    push_char(s, digit(n % 10));
    assert(final(s)@ =~= old(s)@ + decimal(n as nat));
}

/// Appends the decimal rendering of a signed `n` to `s`.
pub fn push_signed_decimal(s: &mut String, n: i64)
    ensures
        final(s)@ == old(s)@ + signed_decimal(n as int),
{
    if n < 0 {
        push_char(s, '-');
        let m: u64 = (0i128 - n as i128) as u64;
        push_decimal(s, m);
        assert(final(s)@ =~= old(s)@ + signed_decimal(n as int));
    } else {
        push_decimal(s, n as u64);
    }
}

} // verus!

verus! {

/// The characters of `s`, in order.
pub fn chars_of(s: &str) -> (v: Vec<char>)
    ensures
        v@ == s@,
{
    broadcast use vstd::string::group_string_axioms;
    let mut v: Vec<char> = Vec::new();
    for c in it: s.chars()
        invariant
            v@ == it.seq().take(it.index() as int),
    {
        v.push(c);
    }
    assert(v@ =~= s@);
    v
}

} // verus!

verus! {

/// `<str as PartialEq>::eq`: two string slices are equal exactly when they
/// hold the same characters.
#[verifier::external_body]
pub(crate) fn str_eq(a: &str, b: &str) -> (r: bool)
    ensures
        r == (a@ == b@),
{
    a == b
}

/// Builds a `String` holding `v[from..to]`.
pub fn string_from_chars(v: &Vec<char>, from: usize, to: usize) -> (s: String)
    requires
        from <= to <= v@.len(),
    ensures
        s@ == v@.subrange(from as int, to as int),
{
    let mut s = String::new();
    let mut i = from;
    while i < to
        invariant
            from <= i <= to <= v@.len(),
            s@ == v@.subrange(from as int, i as int),
        decreases to - i,
    {
        push_char(&mut s, v[i]);
        i += 1;
        assert(s@ =~= v@.subrange(from as int, i as int));
    }
    s
}

/// Unicode `White_Space`, the set `char::is_whitespace` tests for.
pub open spec fn is_white(c: char) -> bool {
    ||| '\u{9}' <= c <= '\u{d}'
    ||| c == ' '
    ||| c == '\u{85}'
    ||| c == '\u{a0}'
    ||| c == '\u{1680}'
    ||| '\u{2000}' <= c <= '\u{200a}'
    ||| c == '\u{2028}'
    ||| c == '\u{2029}'
    ||| c == '\u{202f}'
    ||| c == '\u{205f}'
    ||| c == '\u{3000}'
}

fn white(c: char) -> (r: bool)
    ensures
        r == is_white(c),
{
    ('\u{9}' <= c && c <= '\u{d}') || c == ' ' || c == '\u{85}' || c == '\u{a0}' || c == '\u{1680}'
        || ('\u{2000}' <= c && c <= '\u{200a}') || c == '\u{2028}' || c == '\u{2029}' || c
        == '\u{202f}' || c == '\u{205f}' || c == '\u{3000}'
}

/// `s` without its leading white space.
pub open spec fn trim_start_spec(s: Seq<char>) -> Seq<char>
    decreases s.len(),
{
    if s.len() > 0 && is_white(s[0]) {
        trim_start_spec(s.drop_first())
    } else {
        s
    }
}

/// `s` without its trailing white space.
pub open spec fn trim_end_spec(s: Seq<char>) -> Seq<char>
    decreases s.len(),
{
    if s.len() > 0 && is_white(s.last()) {
        trim_end_spec(s.drop_last())
    } else {
        s
    }
}

/// `s` without leading and trailing white space (`str::trim`).
pub open spec fn trim_spec(s: Seq<char>) -> Seq<char> {
    trim_end_spec(trim_start_spec(s))
}

proof fn lemma_trim_start(s: Seq<char>, i: int)
    requires
        0 <= i <= s.len(),
        forall|k: int| 0 <= k < i ==> is_white(#[trigger] s[k]),
        i == s.len() || !is_white(s[i]),
    ensures
        trim_start_spec(s) == s.subrange(i, s.len() as int),
    decreases i,
{
    if i == 0 {
        assert(s.subrange(0, s.len() as int) =~= s);
    } else {
        let t = s.drop_first();
        assert forall|k: int| 0 <= k < i - 1 implies is_white(#[trigger] t[k]) by {
            assert(t[k] == s[k + 1]);
        }
        lemma_trim_start(t, i - 1);
        assert(t.subrange(i - 1, t.len() as int) =~= s.subrange(i, s.len() as int));
    }
}

proof fn lemma_trim_end(s: Seq<char>, j: int)
    requires
        0 <= j <= s.len(),
        forall|k: int| j <= k < s.len() ==> is_white(#[trigger] s[k]),
        j == 0 || !is_white(s[j - 1]),
    ensures
        trim_end_spec(s) == s.subrange(0, j),
    decreases s.len() - j,
{
    if j == s.len() {
        assert(s.subrange(0, j) =~= s);
    } else {
        let t = s.drop_last();
        assert forall|k: int| j <= k < t.len() implies is_white(#[trigger] t[k]) by {
            assert(t[k] == s[k]);
        }
        lemma_trim_end(t, j);
        assert(t.subrange(0, j) =~= s.subrange(0, j));
    }
}

/// `str::trim`: the characters of `s` between its leading and trailing white space.
pub fn trim(s: &str) -> (r: String)
    ensures
        r@ == trim_spec(s@),
{
    let v = chars_of(s);
    let n = v.len();
    let mut i: usize = 0;
    while i < n && white(v[i])
        invariant
            n == v@.len(),
            i <= n,
            forall|k: int| 0 <= k < i ==> is_white(#[trigger] v@[k]),
        decreases n - i,
    {
        i += 1;
    }
    proof {
        lemma_trim_start(v@, i as int);
    }
    let ghost t = v@.subrange(i as int, n as int);
    let mut j: usize = n;
    while j > i && white(v[j - 1])
        invariant
            n == v@.len(),
            i <= j <= n,
            t == v@.subrange(i as int, n as int),
            forall|k: int| j <= k < n ==> is_white(#[trigger] v@[k]),
        decreases j,
    {
        j -= 1;
    }
    proof {
        assert forall|k: int| (j - i) <= k < t.len() implies is_white(#[trigger] t[k]) by {
            assert(t[k] == v@[k + i]);
        }
        if j > i {
            assert(t[j - i - 1] == v@[j - 1]);
        }
        lemma_trim_end(t, (j - i) as int);
        assert(t.subrange(0, (j - i) as int) =~= v@.subrange(i as int, j as int));
    }
    string_from_chars(&v, i, j)
}

/// `char::to_ascii_lowercase`.
pub open spec fn ascii_lower(c: char) -> char {
    if 'A' <= c <= 'Z' {
        ((c as u32) + 32) as char
    } else {
        c
    }
}

fn lower_char(c: char) -> (r: char)
    ensures
        r == ascii_lower(c),
{
    if 'A' <= c && c <= 'Z' {
        let b: u8 = c as u8;
        assert(b as u32 == c as u32);
        ((b + 32) as char)
    } else {
        c
    }
}

/// `str::to_ascii_lowercase`: ASCII capitals lowered, everything else kept.
pub fn to_ascii_lowercase(s: &str) -> (r: String)
    ensures
        r@ == s@.map_values(|c: char| ascii_lower(c)),
{
    let v = chars_of(s);
    let mut r = String::new();
    let mut i: usize = 0;
    while i < v.len()
        invariant
            i <= v@.len(),
            v@ == s@,
            r@ == v@.take(i as int).map_values(|c: char| ascii_lower(c)),
        decreases v@.len() - i,
    {
        push_char(&mut r, lower_char(v[i]));
        i += 1;
        assert(r@ =~= v@.take(i as int).map_values(|c: char| ascii_lower(c)));
    }
    assert(v@.take(i as int) =~= s@);
    r
}

} // verus!

verus! {

/// Lower-case hexadecimal digit for `d < 16`.
pub open spec fn hex_char(d: int) -> char {
    if d < 10 { digit_char(d) }
    else if d == 10 { 'a' }
    else if d == 11 { 'b' }
    else if d == 12 { 'c' }
    else if d == 13 { 'd' }
    else if d == 14 { 'e' }
    else { 'f' }
}

/// How one character is written inside a JSON string literal: quote and
/// backslash escaped, the short escapes for backspace, form feed, line feed,
/// carriage return and tab, `\u00XX` for the other control characters below
/// U+0020, and every other character as itself.
pub open spec fn json_escape(c: char) -> Seq<char> {
    if c == '"' {
        seq!['\\', '"']
    } else if c == '\\' {
        seq!['\\', '\\']
    } else if c == '\u{8}' {
        seq!['\\', 'b']
    } else if c == '\u{c}' {
        seq!['\\', 'f']
    } else if c == '\n' {
        seq!['\\', 'n']
    } else if c == '\r' {
        seq!['\\', 'r']
    } else if c == '\t' {
        seq!['\\', 't']
    } else if (c as u32) < 0x20 {
        seq!['\\', 'u', '0', '0', hex_char((c as u32 / 16) as int), hex_char((c as u32 % 16) as int)]
    } else {
        seq![c]
    }
}

/// The escaped body of a JSON string literal holding `s`.
pub open spec fn json_escaped(s: Seq<char>) -> Seq<char>
    decreases s.len(),
{
    if s.len() == 0 {
        Seq::empty()
    } else {
        json_escaped(s.drop_last()) + json_escape(s.last())
    }
}

/// The JSON string literal for `s`, quotes included.
pub open spec fn json_quoted(s: Seq<char>) -> Seq<char> {
    seq!['"'] + json_escaped(s) + seq!['"']
}

fn hex(d: u32) -> (c: char)
    requires
        d < 16,
    ensures
        c == hex_char(d as int),
{
    if d < 10 {
        digit(d as u64)
    } else if d == 10 { 'a' }
    else if d == 11 { 'b' }
    else if d == 12 { 'c' }
    else if d == 13 { 'd' }
    else if d == 14 { 'e' }
    else { 'f' }
}

fn push_json_escaped_char(out: &mut String, c: char)
    ensures
        final(out)@ == old(out)@ + json_escape(c),
{
    if c == '"' {
        push_char(out, '\\');
        push_char(out, '"');
    } else if c == '\\' {
        push_char(out, '\\');
        push_char(out, '\\');
    } else if c == '\u{8}' {
        push_char(out, '\\');
        push_char(out, 'b');
    } else if c == '\u{c}' {
        push_char(out, '\\');
        push_char(out, 'f');
    } else if c == '\n' {
        push_char(out, '\\');
        push_char(out, 'n');
    } else if c == '\r' {
        push_char(out, '\\');
        push_char(out, 'r');
    } else if c == '\t' {
        push_char(out, '\\');
        push_char(out, 't');
    } else if (c as u32) < 0x20 {
        let code = c as u32;
        push_char(out, '\\');
        push_char(out, 'u');
        push_char(out, '0');
        push_char(out, '0');
        push_char(out, hex(code / 16));
        push_char(out, hex(code % 16));
    } else {
        push_char(out, c);
    }
    assert(final(out)@ =~= old(out)@ + json_escape(c));
}

/// Appends the JSON string literal for `s` (what `serde_json` writes for a
/// string) to `out`.
pub fn push_json_string(out: &mut String, s: &str)
    ensures
        final(out)@ == old(out)@ + json_quoted(s@),
{
    let v = chars_of(s);
    let ghost start = out@;
    push_char(out, '"');
    let mut i: usize = 0;
    while i < v.len()
        invariant
            i <= v@.len(),
            v@ == s@,
            out@ == start + seq!['"'] + json_escaped(v@.take(i as int)),
        decreases v@.len() - i,
    {
        push_json_escaped_char(out, v[i]);
        i += 1;
        assert(v@.take(i as int).drop_last() =~= v@.take(i as int - 1));
        assert(out@ =~= start + seq!['"'] + json_escaped(v@.take(i as int)));
    }
    push_char(out, '"');
    assert(v@.take(i as int) =~= s@);
    assert(out@ =~= start + json_quoted(s@));
}

/// `s` with every single quote doubled, the escaping of an SQL string literal.
pub open spec fn sql_quote_escaped(s: Seq<char>) -> Seq<char>
    decreases s.len(),
{
    if s.len() == 0 {
        Seq::empty()
    } else if s.last() == '\'' {
        sql_quote_escaped(s.drop_last()) + seq!['\'', '\'']
    } else {
        sql_quote_escaped(s.drop_last()).push(s.last())
    }
}

/// Appends `s` to `out` with every single quote doubled
/// (`str::replace('\'', "''")`).
pub fn push_sql_quote_escaped(out: &mut String, s: &str)
    ensures
        final(out)@ == old(out)@ + sql_quote_escaped(s@),
{
    let v = chars_of(s);
    let ghost start = out@;
    let mut i: usize = 0;
    while i < v.len()
        invariant
            i <= v@.len(),
            v@ == s@,
            out@ == start + sql_quote_escaped(v@.take(i as int)),
        decreases v@.len() - i,
    {
        let c = v[i];
        if c == '\'' {
            push_char(out, '\'');
            push_char(out, '\'');
        } else {
            push_char(out, c);
        }
        i += 1;
        assert(v@.take(i as int).drop_last() =~= v@.take(i as int - 1));
        assert(out@ =~= start + sql_quote_escaped(v@.take(i as int)));
    }
    assert(v@.take(i as int) =~= s@);
}

/// `s` without its trailing semicolons (`str::trim_end_matches(';')`).
pub open spec fn strip_trailing_semicolons(s: Seq<char>) -> Seq<char>
    decreases s.len(),
{
    if s.len() > 0 && s.last() == ';' {
        strip_trailing_semicolons(s.drop_last())
    } else {
        s
    }
}

proof fn lemma_strip_semicolons(s: Seq<char>, j: int)
    requires
        0 <= j <= s.len(),
        forall|k: int| j <= k < s.len() ==> #[trigger] s[k] == ';',
        j == 0 || s[j - 1] != ';',
    ensures
        strip_trailing_semicolons(s) == s.subrange(0, j),
    decreases s.len() - j,
{
    if j == s.len() {
        assert(s.subrange(0, j) =~= s);
    } else {
        let t = s.drop_last();
        assert forall|k: int| j <= k < t.len() implies #[trigger] t[k] == ';' by {
            assert(t[k] == s[k]);
        }
        lemma_strip_semicolons(t, j);
        assert(t.subrange(0, j) =~= s.subrange(0, j));
    }
}

/// `s` without its trailing semicolons.
pub fn trim_end_semicolons(s: &str) -> (r: String)
    ensures
        r@ == strip_trailing_semicolons(s@),
{
    let v = chars_of(s);
    let mut j: usize = v.len();
    while j > 0 && v[j - 1] == ';'
        invariant
            j <= v@.len(),
            forall|k: int| j <= k < v@.len() ==> #[trigger] v@[k] == ';',
        decreases j,
    {
        j -= 1;
    }
    proof {
        lemma_strip_semicolons(v@, j as int);
    }
    string_from_chars(&v, 0, j)
}

/// Value of a string of ASCII decimal digits.
pub open spec fn digits_value(s: Seq<char>) -> nat
    decreases s.len(),
{
    if s.len() == 0 {
        0
    } else {
        digits_value(s.drop_last()) * 10 + ((s.last() as u32 - 48) as nat)
    }
}

/// Every character of `s` is an ASCII decimal digit.
pub open spec fn all_digits(s: Seq<char>) -> bool {
    forall|i: int| 0 <= i < s.len() ==> '0' <= #[trigger] s[i] <= '9'
}

/// What `str::parse::<u64>` accepts and returns: an optional `+`, then one or
/// more ASCII digits whose value fits in 64 bits.
pub open spec fn parse_u64_spec(s: Seq<char>) -> Option<u64> {
    let d = if s.len() > 0 && s[0] == '+' { s.drop_first() } else { s };
    if d.len() > 0 && all_digits(d) && digits_value(d) <= u64::MAX {
        Some(digits_value(d) as u64)
    } else {
        None
    }
}

proof fn lemma_digits_value_grows(s: Seq<char>, i: int)
    requires
        0 <= i <= s.len(),
        all_digits(s),
    ensures
        digits_value(s.take(i)) <= digits_value(s),
    decreases s.len() - i,
{
    if i < s.len() {
        lemma_digits_value_grows(s, i + 1);
        assert(s.take(i + 1).drop_last() =~= s.take(i));
        assert('0' <= s[i] <= '9');
        let x = digits_value(s.take(i));
        assert(digits_value(s.take(i + 1)) == x * 10 + ((s.take(i + 1).last() as u32 - 48) as nat));
        assert(x * 10 >= x) by (nonlinear_arith);
    } else {
        assert(s.take(i) =~= s);
    }
}

/// `str::parse::<u64>`, `None` for every input it rejects.
pub fn parse_u64(s: &str) -> (r: Option<u64>)
    ensures
        r == parse_u64_spec(s@),
{
    let v = chars_of(s);
    let n = v.len();
    let start: usize = if n > 0 && v[0] == '+' { 1 } else { 0 };
    let ghost d = if s@.len() > 0 && s@[0] == '+' { s@.drop_first() } else { s@ };
    assert(d =~= v@.subrange(start as int, n as int));
    if start == n {
        return None;
    }
    let mut acc: u64 = 0;
    let mut i: usize = start;
    while i < n
        invariant
            start <= i <= n == v@.len(),
            v@ == s@,
            d == (if s@.len() > 0 && s@[0] == '+' { s@.drop_first() } else { s@ }),
            d == v@.subrange(start as int, n as int),
            all_digits(d.take(i - start)),
            acc as nat == digits_value(d.take(i - start)),
        decreases n - i,
    {
        let c = v[i];
        if !('0' <= c && c <= '9') {
            assert(d[i - start] == c);
            assert(!all_digits(d));
            return None;
        }
        let dv: u64 = (c as u32 - 48) as u64;
        assert(d.take(i - start + 1).drop_last() =~= d.take(i - start));
        assert(d.take(i - start + 1).last() == c);
        assert(digits_value(d.take(i - start + 1)) == digits_value(d.take(i - start)) * 10 + (dv as nat));
        if acc > (u64::MAX - dv) / 10 {
            proof {
                assert(acc * 10 + dv > u64::MAX) by (nonlinear_arith)
                    requires
                        acc > (u64::MAX - dv) / 10,
                        dv <= 9,
                ;
                if all_digits(d) {
                    lemma_digits_value_grows(d, i - start + 1);
                }
            }
            return None;
        }
        assert(acc * 10 + dv <= u64::MAX) by (nonlinear_arith)
            requires
                acc <= (u64::MAX - dv) / 10,
                dv <= 9,
        ;
        acc = acc * 10 + dv;
        i += 1;
        assert(all_digits(d.take(i - start)));
    }
    assert(d.take(n - start) =~= d);
    Some(acc)
}

} // verus!

verus! {

/// `p` occurs in `s` as a run of consecutive characters.
pub open spec fn has_infix(s: Seq<char>, p: Seq<char>) -> bool {
    exists|i: int| 0 <= i <= s.len() - p.len() && #[trigger] s.skip(i).take(p.len() as int) == p
}

fn matches_at(s: &Vec<char>, p: &Vec<char>, i: usize) -> (r: bool)
    requires
        i + p@.len() <= s@.len(),
    ensures
        r == (s@.skip(i as int).take(p@.len() as int) == p@),
{
    let _len = s.len();
    let mut j: usize = 0;
    while j < p.len()
        invariant
            i + p@.len() <= s@.len(),
            s@.len() <= usize::MAX,
            j <= p@.len(),
            forall|k: int| 0 <= k < j ==> s@[i + k] == p@[k],
        decreases p@.len() - j,
    {
        if s[i + j] != p[j] {
            assert(s@.skip(i as int).take(p@.len() as int)[j as int] == s@[i + j]);
            return false;
        }
        j += 1;
    }
    assert(s@.skip(i as int).take(p@.len() as int) =~= p@);
    true
}

/// `str::contains` with a string pattern.
pub fn contains_text(s: &str, p: &str) -> (r: bool)
    ensures
        r == has_infix(s@, p@),
{
    let sv = chars_of(s);
    let pv = chars_of(p);
    if pv.len() > sv.len() {
        return false;
    }
    let last = sv.len() - pv.len();
    let mut i: usize = 0;
    loop
        invariant
            sv@ == s@,
            pv@ == p@,
            last == sv@.len() - pv@.len(),
            i <= last,
            forall|k: int| 0 <= k < i ==> #[trigger] sv@.skip(k).take(pv@.len() as int) != pv@,
        decreases last - i,
    {
        if matches_at(&sv, &pv, i) {
            return true;
        }
        if i == last {
            return false;
        }
        i += 1;
    }
}

/// An ASCII decimal digit.
pub open spec fn is_digit(c: char) -> bool {
    '0' <= c <= '9'
}

/// How many `.` characters `s` holds.
pub open spec fn dot_count(s: Seq<char>) -> nat
    decreases s.len(),
{
    if s.len() == 0 {
        0
    } else {
        dot_count(s.drop_last()) + (if s.last() == '.' { 1nat } else { 0nat })
    }
}

/// The digits of a float literal: digits with at most one `.`, and at least
/// one digit.
pub open spec fn mantissa_ok(m: Seq<char>) -> bool {
    &&& forall|i: int| 0 <= i < m.len() ==> is_digit(#[trigger] m[i]) || m[i] == '.'
    &&& dot_count(m) <= 1
    &&& m.len() > dot_count(m)
}

/// An exponent after the `e`: an optional sign, then one or more digits.
pub open spec fn exponent_ok(e: Seq<char>) -> bool {
    let d = if e.len() > 0 && (e[0] == '+' || e[0] == '-') { e.drop_first() } else { e };
    d.len() > 0 && all_digits(d)
}

/// The text `str::parse::<f64>` accepts: an optional sign, then `inf`,
/// `infinity` or `nan` in any case, or digits with at most one `.` and at
/// least one digit followed by an optional exponent (`e` or `E`, an
/// optional sign, digits). No surrounding white space.
pub open spec fn float_syntax(s: Seq<char>) -> bool {
    float_body(if s.len() > 0 && (s[0] == '+' || s[0] == '-') { s.drop_first() } else { s })
}

/// A float literal after its sign.
pub open spec fn float_body(b: Seq<char>) -> bool {
    let l = b.map_values(|c: char| ascii_lower(c));
    ||| l == "inf"@
    ||| l == "infinity"@
    ||| l == "nan"@
    ||| mantissa_ok(b)
    ||| exists|k: int| 0 <= k < b.len() && (b[k] == 'e' || b[k] == 'E')
            && mantissa_ok(#[trigger] b.take(k)) && exponent_ok(b.skip(k + 1))
}

proof fn lemma_dot_count_take(m: Seq<char>, i: int)
    requires
        0 <= i < m.len(),
    ensures
        dot_count(m.take(i + 1)) == dot_count(m.take(i)) + (if m[i] == '.' { 1nat } else { 0nat }),
{
    assert(m.take(i + 1).drop_last() =~= m.take(i));
}

/// Whether `v[from..to]` is a mantissa.
fn mantissa_check(v: &Vec<char>, from: usize, to: usize) -> (r: bool)
    requires
        from <= to <= v@.len(),
    ensures
        r == mantissa_ok(v@.subrange(from as int, to as int)),
{
    let ghost m = v@.subrange(from as int, to as int);
    let mut dots: usize = 0;
    let mut i: usize = from;
    while i < to
        invariant
            from <= i <= to <= v@.len(),
            m == v@.subrange(from as int, to as int),
            forall|k: int| 0 <= k < i - from ==> is_digit(#[trigger] m[k]) || m[k] == '.',
            dots as nat == dot_count(m.take(i - from)),
            dots <= 1,
        decreases to - i,
    {
        let c = v[i];
        proof {
            assert(m[i - from] == c);
            lemma_dot_count_take(m, i - from);
        }
        if c == '.' {
            if dots == 1 {
                proof {
                    lemma_dot_count_grows(m, i - from + 1);
                }
                return false;
            }
            dots = 1;
        } else if !('0' <= c && c <= '9') {
            return false;
        }
        i += 1;
    }
    assert(m.take(to - from) =~= m);
    to - from > dots
}

proof fn lemma_dot_count_grows(m: Seq<char>, i: int)
    requires
        0 <= i <= m.len(),
    ensures
        dot_count(m.take(i)) <= dot_count(m),
    decreases m.len() - i,
{
    if i < m.len() {
        lemma_dot_count_grows(m, i + 1);
        lemma_dot_count_take(m, i);
    } else {
        assert(m.take(i) =~= m);
    }
}

/// Whether `v[from..to]` is an exponent.
fn exponent_check(v: &Vec<char>, from: usize, to: usize) -> (r: bool)
    requires
        from <= to <= v@.len(),
    ensures
        r == exponent_ok(v@.subrange(from as int, to as int)),
{
    let ghost e = v@.subrange(from as int, to as int);
    proof {
        if from < to {
            assert(e[0] == v@[from as int]);
        }
    }
    let start: usize = if from < to && (v[from] == '+' || v[from] == '-') { from + 1 } else { from };
    let ghost d = if e.len() > 0 && (e[0] == '+' || e[0] == '-') { e.drop_first() } else { e };
    assert(d =~= v@.subrange(start as int, to as int));
    if start == to {
        return false;
    }
    let mut i: usize = start;
    while i < to
        invariant
            start <= i <= to <= v@.len(),
            e == v@.subrange(from as int, to as int),
            d == (if e.len() > 0 && (e[0] == '+' || e[0] == '-') { e.drop_first() } else { e }),
            d == v@.subrange(start as int, to as int),
            forall|k: int| 0 <= k < i - start ==> '0' <= #[trigger] d[k] <= '9',
        decreases to - i,
    {
        if !('0' <= v[i] && v[i] <= '9') {
            assert(d[i - start] == v[i as int]);
            return false;
        }
        i += 1;
    }
    true
}

fn lower_text_is(v: &Vec<char>, from: usize, word: &str) -> (r: bool)
    requires
        from <= v@.len(),
    ensures
        r == (v@.skip(from as int).map_values(|c: char| ascii_lower(c)) == word@),
{
    let w = chars_of(word);
    let ghost l = v@.skip(from as int).map_values(|c: char| ascii_lower(c));
    if v.len() - from != w.len() {
        return false;
    }
    let mut j: usize = 0;
    while j < w.len()
        invariant
            from <= v@.len(),
            w@ == word@,
            v@.len() - from == w@.len(),
            v@.len() <= usize::MAX,
            l == v@.skip(from as int).map_values(|c: char| ascii_lower(c)),
            j <= w@.len(),
            forall|k: int| 0 <= k < j ==> l[k] == w@[k],
        decreases w@.len() - j,
    {
        if lower_char(v[from + j]) != w[j] {
            assert(l[j as int] == ascii_lower(v@[from + j]));
            return false;
        }
        j += 1;
    }
    assert(l =~= word@);
    true
}

/// Whether `str::parse::<f64>` accepts `s`.
pub fn is_float_text(s: &str) -> (r: bool)
    ensures
        r == float_syntax(s@),
{
    let v = chars_of(s);
    let n = v.len();
    let start: usize = if n > 0 && (v[0] == '+' || v[0] == '-') { 1 } else { 0 };
    let ghost b = if s@.len() > 0 && (s@[0] == '+' || s@[0] == '-') { s@.drop_first() } else { s@ };
    assert(b =~= v@.skip(start as int));
    assert(b =~= v@.subrange(start as int, n as int));
    let ghost l = b.map_values(|c: char| ascii_lower(c));
    assert(l =~= v@.skip(start as int).map_values(|c: char| ascii_lower(c)));
    if lower_text_is(&v, start, "inf") || lower_text_is(&v, start, "infinity") || lower_text_is(&v, start, "nan") {
        return true;
    }
    assert(l != "inf"@ && l != "infinity"@ && l != "nan"@);
    let mut k: usize = start;
    while k < n && v[k] != 'e' && v[k] != 'E'
        invariant
            start <= k <= n == v@.len(),
            forall|j: int| start <= j < k ==> v@[j] != 'e' && v@[j] != 'E',
        decreases n - k,
    {
        k += 1;
    }
    if k == n {
        let r = mantissa_check(&v, start, n);
        proof {
            if !r {
                assert forall|j: int| 0 <= j < b.len() && (b[j] == 'e' || b[j] == 'E') implies !(mantissa_ok(#[trigger] b.take(j)) && exponent_ok(b.skip(j + 1))) by {
                    assert(b[j] == v@[start + j]);
                }
            }
            assert(r == float_syntax(s@));
        }
        r
    } else {
        let r = mantissa_check(&v, start, k) && exponent_check(&v, k + 1, n);
        proof {
            let kk = (k - start) as int;
            assert(b[kk] == v@[k as int]);
            assert(b.take(kk) =~= v@.subrange(start as int, k as int));
            assert(b.skip(kk + 1) =~= v@.subrange(k + 1, n as int));
            assert(!mantissa_ok(b)) by {
                assert(!(is_digit(b[kk]) || b[kk] == '.'));
            }
            if r {
                assert(0 <= kk < b.len() && (b[kk] == 'e' || b[kk] == 'E')
                    && mantissa_ok(b.take(kk)) && exponent_ok(b.skip(kk + 1)));
            }
            if !r {
                assert forall|j: int| 0 <= j < b.len() && (b[j] == 'e' || b[j] == 'E') implies !(mantissa_ok(#[trigger] b.take(j)) && exponent_ok(b.skip(j + 1))) by {
                    assert(b[j] == v@[start + j]);
                    if j < kk {
                        assert(false);
                    } else if j > kk {
                        assert(b.take(j)[kk] == b[kk]);
                        assert(!(is_digit(b.take(j)[kk]) || b.take(j)[kk] == '.'));
                    }
                }
            }
            assert(r == float_syntax(s@));
        }
        r
    }
}

} // verus!
