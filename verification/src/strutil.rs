use vstd::prelude::*;

verus! {

// ---------------------------------------------------------------------------
// Character classes
// ---------------------------------------------------------------------------

/// Whitespace characters recognised when trimming a piece of text.
pub open spec fn is_space(c: char) -> bool {
    c == ' ' || c == '\t' || c == '\r' || c == '\n'
}

/// Decimal digit.
pub open spec fn is_digit(c: char) -> bool {
    '0' <= c && c <= '9'
}

/// Numeric value of a decimal digit character.
pub open spec fn digit_val(c: char) -> int {
    c as int - '0' as int
}

/// Every character of `s` is a decimal digit.
pub open spec fn all_digits(s: Seq<char>) -> bool {
    forall|i: int| 0 <= i < s.len() ==> is_digit(#[trigger] s[i])
}

/// Executable mirror of `is_space`.
pub fn is_space_exec(c: char) -> (r: bool)
    ensures
        r == is_space(c),
{
    c == ' ' || c == '\t' || c == '\r' || c == '\n'
}

/// Executable mirror of `is_digit`.
pub fn is_digit_exec(c: char) -> (r: bool)
    ensures
        r == is_digit(c),
{
    '0' <= c && c <= '9'
}

// ---------------------------------------------------------------------------
// Finding a character
// ---------------------------------------------------------------------------

/// Index of the first occurrence of `c` in `s`, or -1 when `c` does not occur.
pub open spec fn find_char(s: Seq<char>, c: char) -> int
    decreases s.len(),
{
    if s.len() == 0 {
        -1
    } else if s[0] == c {
        0
    } else {
        let r = find_char(s.drop_first(), c);
        if r < 0 {
            -1
        } else {
            r + 1
        }
    }
}

/// What `find_char` returns: either -1 and no occurrence, or the first index
/// holding `c`.
pub proof fn lemma_find_char(s: Seq<char>, c: char)
    ensures
        find_char(s, c) == -1 ==> forall|i: int| 0 <= i < s.len() ==> s[i] != c,
        find_char(s, c) != -1 ==> 0 <= find_char(s, c) < s.len() && s[find_char(s, c)] == c
            && forall|i: int| 0 <= i < find_char(s, c) ==> s[i] != c,
    decreases s.len(),
{
    if s.len() > 0 && s[0] != c {
        lemma_find_char(s.drop_first(), c);
        let r = find_char(s.drop_first(), c);
        if r >= 0 {
            assert(s[r + 1] == s.drop_first()[r]);
            assert forall|i: int| 0 <= i < r + 1 implies s[i] != c by {
                if i > 0 {
                    assert(s.drop_first()[i - 1] != c);
                }
            }
        } else {
            assert forall|i: int| 0 <= i < s.len() implies s[i] != c by {
                if i > 0 {
                    assert(s.drop_first()[i - 1] != c);
                }
            }
        }
    }
}

/// The first occurrence characterises `find_char` exactly.
pub proof fn lemma_find_char_is(s: Seq<char>, c: char, k: int)
    requires
        0 <= k < s.len(),
        s[k] == c,
        forall|j: int| 0 <= j < k ==> s[j] != c,
    ensures
        find_char(s, c) == k,
{
    lemma_find_char(s, c);
}

/// When `c` does not occur at all, `find_char` reports -1.
pub proof fn lemma_find_char_none(s: Seq<char>, c: char)
    requires
        forall|j: int| 0 <= j < s.len() ==> s[j] != c,
    ensures
        find_char(s, c) == -1,
{
    lemma_find_char(s, c);
}

/// Finding in a concatenation whose first part has no occurrence.
pub proof fn lemma_find_char_append(a: Seq<char>, b: Seq<char>, c: char)
    requires
        find_char(a, c) == -1,
    ensures
        find_char(a + b, c) == if find_char(b, c) < 0 {
            -1
        } else {
            a.len() + find_char(b, c)
        },
    decreases a.len(),
{
    lemma_find_char(a, c);
    if a.len() == 0 {
        assert(a + b =~= b);
    } else {
        assert((a + b).drop_first() =~= a.drop_first() + b);
        assert(find_char(a.drop_first(), c) == -1) by {
            lemma_find_char(a.drop_first(), c);
            if find_char(a.drop_first(), c) != -1 {
                assert(a[find_char(a.drop_first(), c) + 1] == c);
            }
        }
        lemma_find_char_append(a.drop_first(), b, c);
    }
}

/// Index of the last occurrence of `c` in `s`, or -1 when `c` does not occur.
pub open spec fn find_last_char(s: Seq<char>, c: char) -> int
    decreases s.len(),
{
    if s.len() == 0 {
        -1
    } else if s.last() == c {
        s.len() - 1
    } else {
        find_last_char(s.drop_last(), c)
    }
}

/// What `find_last_char` returns: either -1 and no occurrence, or the last
/// index holding `c`.
pub proof fn lemma_find_last_char(s: Seq<char>, c: char)
    ensures
        find_last_char(s, c) == -1 ==> forall|i: int| 0 <= i < s.len() ==> s[i] != c,
        find_last_char(s, c) != -1 ==> 0 <= find_last_char(s, c) < s.len() && s[find_last_char(
            s,
            c,
        )] == c && forall|i: int| find_last_char(s, c) < i < s.len() ==> s[i] != c,
    decreases s.len(),
{
    if s.len() > 0 && s.last() != c {
        lemma_find_last_char(s.drop_last(), c);
        assert(forall|i: int| 0 <= i < s.len() - 1 ==> s.drop_last()[i] == s[i]);
    }
}

// ---------------------------------------------------------------------------
// Trimming
// ---------------------------------------------------------------------------

/// `s` with leading whitespace removed.
pub open spec fn trim_start(s: Seq<char>) -> Seq<char>
    decreases s.len(),
{
    if s.len() > 0 && is_space(s[0]) {
        trim_start(s.drop_first())
    } else {
        s
    }
}

/// `s` with trailing whitespace removed.
pub open spec fn trim_end(s: Seq<char>) -> Seq<char>
    decreases s.len(),
{
    if s.len() > 0 && is_space(s[s.len() - 1]) {
        trim_end(s.drop_last())
    } else {
        s
    }
}

/// `s` with leading and trailing whitespace removed.
pub open spec fn trim(s: Seq<char>) -> Seq<char> {
    trim_end(trim_start(s))
}

/// Trimming text that has no whitespace at either end changes nothing.
pub proof fn lemma_trim_id(s: Seq<char>)
    requires
        s.len() == 0 || (!is_space(s[0]) && !is_space(s[s.len() - 1])),
    ensures
        trim(s) == s,
{
}

/// A trailing whitespace character is dropped by `trim_end`.
pub proof fn lemma_trim_end_drop(a: Seq<char>, c: char)
    requires
        is_space(c),
    ensures
        trim_end(a + seq![c]) == trim_end(a),
{
    assert((a + seq![c]).drop_last() =~= a);
}

/// A leading whitespace character is dropped by `trim_start`.
pub proof fn lemma_trim_start_drop(a: Seq<char>, c: char)
    requires
        is_space(c),
    ensures
        trim_start(seq![c] + a) == trim_start(a),
{
    assert((seq![c] + a).drop_first() =~= a);
}

// ---------------------------------------------------------------------------
// Splitting and joining
// ---------------------------------------------------------------------------

/// Splits `s` at every occurrence of `c`; the separators themselves are not
/// kept.  The result always has one more element than `s` has separators.
pub open spec fn split_at_char(s: Seq<char>, c: char) -> Seq<Seq<char>>
    decreases s.len(),
{
    let i = find_char(s, c);
    if 0 <= i < s.len() {
        seq![s.take(i)] + split_at_char(s.skip(i + 1), c)
    } else {
        seq![s]
    }
}

/// The lines of a piece of text: split at every newline.
pub open spec fn lines_of(s: Seq<char>) -> Seq<Seq<char>> {
    split_at_char(s, '\n')
}

/// Text without the separator splits into itself alone.
pub proof fn lemma_split_single(s: Seq<char>, c: char)
    requires
        find_char(s, c) == -1,
    ensures
        split_at_char(s, c) == seq![s],
{
}

/// Splitting one separator off the front.
pub proof fn lemma_split_cons(a: Seq<char>, b: Seq<char>, c: char)
    requires
        find_char(a, c) == -1,
    ensures
        split_at_char(a + seq![c] + b, c) == seq![a] + split_at_char(b, c),
{
    lemma_find_char_append(a, seq![c] + b, c);
    assert(find_char(seq![c] + b, c) == 0);
    assert(a + seq![c] + b =~= a + (seq![c] + b));
    let s = a + seq![c] + b;
    assert(find_char(s, c) == a.len());
    assert(s.take(a.len() as int) =~= a);
    assert(s.skip(a.len() as int + 1) =~= b);
}

/// Joins lines back into one text, a newline after every line.
pub open spec fn join_lines(ls: Seq<Seq<char>>) -> Seq<char>
    decreases ls.len(),
{
    if ls.len() == 0 {
        seq![]
    } else {
        ls[0] + seq!['\n'] + join_lines(ls.drop_first())
    }
}

/// Splitting a joined text recovers the lines, plus one empty line for the
/// final newline.
pub proof fn lemma_lines_of_join(ls: Seq<Seq<char>>)
    requires
        forall|i: int| 0 <= i < ls.len() ==> find_char(#[trigger] ls[i], '\n') == -1,
    ensures
        lines_of(join_lines(ls)) == ls + seq![Seq::<char>::empty()],
    decreases ls.len(),
{
    if ls.len() == 0 {
        assert(find_char(join_lines(ls), '\n') == -1);
        assert(lines_of(join_lines(ls)) =~= ls + seq![Seq::<char>::empty()]);
    } else {
        lemma_split_cons(ls[0], join_lines(ls.drop_first()), '\n');
        lemma_lines_of_join(ls.drop_first());
        assert(lines_of(join_lines(ls)) =~= ls + seq![Seq::<char>::empty()]);
    }
}

// ---------------------------------------------------------------------------
// Decimal numbers
// ---------------------------------------------------------------------------

/// Value of a digit string read as a decimal number (0 for the empty string).
pub open spec fn dec_value(s: Seq<char>) -> int
    decreases s.len(),
{
    if s.len() == 0 {
        0
    } else {
        dec_value(s.drop_last()) * 10 + digit_val(s.last())
    }
}

/// The number a digit string denotes, or None when the string is empty, holds
/// a non-digit, or denotes a value beyond `u64`.
pub open spec fn parse_dec(s: Seq<char>) -> Option<u64> {
    if s.len() > 0 && all_digits(s) && dec_value(s) <= u64::MAX {
        Some(dec_value(s) as u64)
    } else {
        None
    }
}

/// The character for a digit value.
pub open spec fn digit_char(d: int) -> char {
    if d == 0 { '0' }
    else if d == 1 { '1' }
    else if d == 2 { '2' }
    else if d == 3 { '3' }
    else if d == 4 { '4' }
    else if d == 5 { '5' }
    else if d == 6 { '6' }
    else if d == 7 { '7' }
    else if d == 8 { '8' }
    else { '9' }
}

/// Decimal rendering of a number, most significant digit first.
pub open spec fn render_dec(n: u64) -> Seq<char>
    decreases n,
{
    if n < 10 {
        seq![digit_char(n as int)]
    } else {
        render_dec(n / 10) + seq![digit_char((n % 10) as int)]
    }
}

/// A rendered number is all digits and reads back as itself.
pub proof fn lemma_render_dec(n: u64)
    ensures
        render_dec(n).len() > 0,
        all_digits(render_dec(n)),
        dec_value(render_dec(n)) == n,
        parse_dec(render_dec(n)) == Some(n),
    decreases n,
{
    if n < 10 {
        let s = render_dec(n);
        assert(is_digit(digit_char(n as int)));
        assert(s.drop_last() =~= Seq::<char>::empty());
        assert(dec_value(Seq::<char>::empty()) == 0);
        assert(dec_value(s) == digit_val(digit_char(n as int)));
    } else {
        lemma_render_dec(n / 10);
        let a = render_dec(n / 10);
        let d = (n % 10) as int;
        let s = a + seq![digit_char(d)];
        assert(s.drop_last() =~= a);
        assert(s.last() == digit_char(d));
        assert(digit_val(digit_char(d)) == d);
        assert(dec_value(s) == dec_value(a) * 10 + d);
        assert(dec_value(a) * 10 + d == n) by {
            assert(dec_value(a) == n / 10);
            assert(n / 10 * 10 + n % 10 == n) by (nonlinear_arith);
        }
        assert(all_digits(s)) by {
            assert(forall|i: int| 0 <= i < a.len() ==> s[i] == a[i]);
            assert(is_digit(s[s.len() - 1]));
        }
    }
}

// ---------------------------------------------------------------------------
// Prefixes and substrings
// ---------------------------------------------------------------------------

/// `p` is a prefix of `s`.
pub open spec fn has_prefix(s: Seq<char>, p: Seq<char>) -> bool {
    p.len() <= s.len() && s.take(p.len() as int) == p
}

/// `sub` occurs contiguously somewhere in `s`.
pub open spec fn contains_seq(s: Seq<char>, sub: Seq<char>) -> bool {
    exists|i: int|
        0 <= i && i + sub.len() <= s.len() && #[trigger] s.subrange(i, i + sub.len() as int)
            == sub
}

// ---------------------------------------------------------------------------
// Executable helpers over &str
// ---------------------------------------------------------------------------

/// Character-wise string equality.
pub fn str_eq(a: &str, b: &str) -> (r: bool)
    ensures
        r == (a@ == b@),
{
    let alen = a.unicode_len();
    let blen = b.unicode_len();
    if alen != blen {
        return false;
    }
    let mut i: usize = 0;
    while i < alen
        invariant
            0 <= i <= alen,
            alen == a@.len(),
            alen == b@.len(),
            forall|j: int| 0 <= j < i ==> a@[j] == b@[j],
        decreases alen - i,
    {
        if a.get_char(i) != b.get_char(i) {
            return false;
        }
        i += 1;
    }
    proof {
        assert(a@ =~= b@);
    }
    true
}

/// The index of the first occurrence of `c` in `s`, if any.
pub fn find_char_in(s: &str, c: char) -> (r: Option<usize>)
    ensures
        match r {
            Some(i) => find_char(s@, c) == i,
            None => find_char(s@, c) == -1,
        },
{
    let n = s.unicode_len();
    let mut i: usize = 0;
    while i < n
        invariant
            0 <= i <= n,
            n == s@.len(),
            forall|j: int| 0 <= j < i ==> s@[j] != c,
        decreases n - i,
    {
        if s.get_char(i) == c {
            proof {
                lemma_find_char(s@, c);
            }
            return Some(i);
        }
        i += 1;
    }
    proof {
        lemma_find_char(s@, c);
    }
    None
}

/// Removes leading and trailing whitespace.
pub fn trim_slice<'a>(s: &'a str) -> (r: &'a str)
    ensures
        r@ == trim(s@),
{
    let n = s.unicode_len();
    let mut i: usize = 0;
    proof {
        assert(s@.skip(0) =~= s@);
    }
    while i < n && is_space_exec(s.get_char(i))
        invariant
            0 <= i <= n,
            n == s@.len(),
            trim_start(s@) == trim_start(s@.skip(i as int)),
        decreases n - i,
    {
        proof {
            assert(s@.skip(i as int).drop_first() =~= s@.skip(i + 1));
        }
        i += 1;
    }
    proof {
        assert(trim_start(s@) == s@.skip(i as int));
    }
    let t_len = n - i;
    let ghost t = s@.skip(i as int);
    let mut j: usize = t_len;
    proof {
        assert(t.take(t_len as int) =~= t);
    }
    while j > 0 && is_space_exec(s.get_char(i + j - 1))
        invariant
            0 <= j <= t_len,
            i + t_len == n,
            n == s@.len(),
            t == s@.skip(i as int),
            forall|k: int| 0 <= k < j ==> t[k] == s@[i + k],
            trim_end(t) == trim_end(t.take(j as int)),
        decreases j,
    {
        proof {
            assert(t.take(j as int).drop_last() =~= t.take(j - 1));
        }
        j -= 1;
    }
    proof {
        assert(trim_end(t.take(j as int)) == t.take(j as int));
        assert(t.take(j as int) =~= s@.subrange(i as int, i + j));
    }
    s.substring_char(i, i + j)
}

/// Reads a trimmed decimal token.
pub fn parse_dec_token(s: &str) -> (r: Option<u64>)
    ensures
        r == parse_dec(s@),
{
    let n = s.unicode_len();
    if n == 0 {
        return None;
    }
    let mut i: usize = 0;
    let mut acc: u128 = 0;
    let mut over: bool = false;
    while i < n
        invariant
            0 <= i <= n,
            n == s@.len(),
            forall|j: int| 0 <= j < i ==> is_digit(#[trigger] s@[j]),
            over == (dec_value(s@.take(i as int)) > u64::MAX),
            !over ==> acc == dec_value(s@.take(i as int)),
            acc <= u64::MAX,
        decreases n - i,
    {
        let c = s.get_char(i);
        if !is_digit_exec(c) {
            return None;
        }
        let d: u128 = (c as u32 as u128) - ('0' as u32 as u128);
        proof {
            assert(d == digit_val(c));
            assert(s@.take(i + 1).drop_last() =~= s@.take(i as int));
            assert(s@.take(i + 1).last() == s@[i as int]);
            if dec_value(s@.take(i as int)) > u64::MAX {
                assert(dec_value(s@.take(i as int)) * 10 + digit_val(c) > u64::MAX)
                    by (nonlinear_arith)
                    requires
                        dec_value(s@.take(i as int)) > u64::MAX,
                        0 <= digit_val(c),
                ;
            }
        }
        if over {
            // the value already exceeds u64; the rest only checks digits
        } else {
            let next = acc * 10 + d;
            if next > u64::MAX as u128 {
                over = true;
            } else {
                acc = next;
            }
        }
        i += 1;
    }
    proof {
        assert(s@.take(n as int) =~= s@);
    }
    if over {
        None
    } else {
        Some(acc as u64)
    }
}

/// Decimal digit as a one-character string.
fn digit_str(d: u64) -> (r: &'static str)
    requires
        d < 10,
    ensures
        r@ == seq![digit_char(d as int)],
{
    proof {
        reveal_strlit("0");
        reveal_strlit("1");
        reveal_strlit("2");
        reveal_strlit("3");
        reveal_strlit("4");
        reveal_strlit("5");
        reveal_strlit("6");
        reveal_strlit("7");
        reveal_strlit("8");
        reveal_strlit("9");
    }
    let r = if d == 0 { "0" }
    else if d == 1 { "1" }
    else if d == 2 { "2" }
    else if d == 3 { "3" }
    else if d == 4 { "4" }
    else if d == 5 { "5" }
    else if d == 6 { "6" }
    else if d == 7 { "7" }
    else if d == 8 { "8" }
    else { "9" };
    proof {
        assert(r@ =~= seq![digit_char(d as int)]);
    }
    r
}

/// Renders a number in decimal.
pub fn fmt_dec(n: u64) -> (r: String)
    ensures
        r@ == render_dec(n),
    decreases n,
{
    if n < 10 {
        digit_str(n).to_owned()
    } else {
        let mut s = fmt_dec(n / 10);
        s.append(digit_str(n % 10));
        s
    }
}

/// Does `s` start with `p`?
pub fn starts_with_str(s: &str, p: &str) -> (r: bool)
    ensures
        r == has_prefix(s@, p@),
{
    let n = s.unicode_len();
    let m = p.unicode_len();
    if m > n {
        return false;
    }
    let head = s.substring_char(0, m);
    proof {
        assert(head@ =~= s@.take(m as int));
    }
    str_eq(head, p)
}

/// Does `s` contain `sub` contiguously?
pub fn contains_str(s: &str, sub: &str) -> (r: bool)
    ensures
        r == contains_seq(s@, sub@),
{
    let n = s.unicode_len();
    let m = sub.unicode_len();
    if m > n {
        return false;
    }
    if m == 0 {
        proof {
            assert(s@.subrange(0, 0 + sub@.len() as int) =~= sub@);
        }
        return true;
    }
    let limit = n - m;
    let mut i: usize = 0;
    while i <= limit
        invariant
            0 <= i <= limit + 1,
            limit == n - m,
            1 <= m <= n,
            n == s@.len(),
            m == sub@.len(),
            forall|k: int|
                0 <= k < i ==> #[trigger] s@.subrange(k, k + sub@.len() as int) != sub@,
        decreases limit + 1 - i,
    {
        let piece = s.substring_char(i, i + m);
        if str_eq(piece, sub) {
            return true;
        }
        i += 1;
    }
    false
}

/// Splits a string at every occurrence of `c`; the separators are not kept.
pub fn split_char<'a>(s: &'a str, c: char) -> (r: Vec<&'a str>)
    ensures
        r.deep_view() == split_at_char(s@, c),
{
    let n = s.unicode_len();
    let mut r: Vec<&'a str> = Vec::new();
    let mut start: usize = 0;
    let mut i: usize = 0;
    proof {
        assert(s@.skip(0) =~= s@);
    }
    while i < n
        invariant
            0 <= start <= i <= n,
            n == s@.len(),
            split_at_char(s@, c) == r.deep_view() + split_at_char(s@.skip(start as int), c),
            forall|j: int| start <= j < i ==> s@[j] != c,
        decreases n - i,
    {
        if s.get_char(i) == c {
            let piece = s.substring_char(start, i);
            proof {
                let rest = s@.skip(start as int);
                assert(rest[i - start] == c);
                assert(forall|j: int| 0 <= j < i - start ==> rest[j] == s@[start + j]);
                lemma_find_char_is(rest, c, i - start);
                assert(rest.take(i - start) =~= s@.subrange(start as int, i as int));
                assert(rest.skip(i - start + 1) =~= s@.skip(i + 1));
                assert(split_at_char(rest, c) == seq![piece@] + split_at_char(s@.skip(i + 1), c));
            }
            r.push(piece);
            proof {
                assert(r.deep_view() =~= r.deep_view().drop_last() + seq![piece@]);
                assert(split_at_char(s@, c) =~= r.deep_view() + split_at_char(s@.skip(i + 1), c));
            }
            start = i + 1;
        }
        i += 1;
    }
    let piece = s.substring_char(start, n);
    proof {
        let rest = s@.skip(start as int);
        assert(forall|j: int| 0 <= j < rest.len() ==> rest[j] == s@[start + j]);
        lemma_find_char_none(rest, c);
        assert(rest =~= piece@);
    }
    r.push(piece);
    proof {
        assert(r.deep_view() =~= r.deep_view().drop_last() + seq![piece@]);
        assert(split_at_char(s@, c) =~= r.deep_view());
    }
    r
}

/// Splits a string into its lines; the newline characters are not kept.
pub fn split_lines<'a>(s: &'a str) -> (r: Vec<&'a str>)
    ensures
        r.deep_view() == lines_of(s@),
{
    split_char(s, '\n')
}

/// The concatenation of two strings.
pub fn concat_str(a: &str, b: &str) -> (r: String)
    ensures
        r@ == a@ + b@,
{
    let mut s = a.to_owned();
    s.append(b);
    s
}

} // verus!
