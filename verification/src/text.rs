//! Character-level text helpers shared by the other modules.
use vstd::prelude::*;
use vstd::string::StringExecFns;

verus! {

/// `String::push` of std: appends one character at the end of the string.
#[verifier::external_body]
pub(crate) fn push_char(s: &mut String, c: char)
    ensures
        final(s)@ == old(s)@.push(c),
{
    s.push(c);
}

/// Appends a string slice at the end of the string.
pub(crate) fn push_str(s: &mut String, other: &str)
    ensures
        final(s)@ == old(s)@ + other@,
{
    s.append(other);
}

/// An owned copy of a slice, with the same characters.
pub(crate) fn owned(s: &str) -> (r: String)
    ensures
        r@ == s@,
{
    s.to_owned()
}

/// The ASCII decimal digit for `d` (which is below ten).
pub open spec fn digit_char(d: nat) -> char {
    if d == 0 {
        '0'
    } else if d == 1 {
        '1'
    } else if d == 2 {
        '2'
    } else if d == 3 {
        '3'
    } else if d == 4 {
        '4'
    } else if d == 5 {
        '5'
    } else if d == 6 {
        '6'
    } else if d == 7 {
        '7'
    } else if d == 8 {
        '8'
    } else {
        '9'
    }
}

/// The decimal rendering of a natural number, without leading zeros.
pub open spec fn decimal(n: nat) -> Seq<char>
    decreases n,
{
    if n < 10 {
        seq![digit_char(n)]
    } else {
        decimal(n / 10).push(digit_char(n % 10))
    }
}

fn exec_digit_char(d: u128) -> (c: char)
    requires
        d < 10,
    ensures
        c == digit_char(d as nat),
{
    if d == 0 {
        '0'
    } else if d == 1 {
        '1'
    } else if d == 2 {
        '2'
    } else if d == 3 {
        '3'
    } else if d == 4 {
        '4'
    } else if d == 5 {
        '5'
    } else if d == 6 {
        '6'
    } else if d == 7 {
        '7'
    } else if d == 8 {
        '8'
    } else {
        '9'
    }
}

/// Appends the decimal rendering of `n` to `out`.
pub fn push_decimal(out: &mut String, n: u128)
    ensures
        final(out)@ == old(out)@ + decimal(n as nat),
    decreases n,
{
    if n < 10 {
        push_char(out, exec_digit_char(n));
        assert(decimal(n as nat) =~= seq![digit_char(n as nat)]);
    } else {
        push_decimal(out, n / 10);
        push_char(out, exec_digit_char(n % 10));
        assert(old(out)@ + decimal((n / 10) as nat) + seq![digit_char((n % 10) as nat)]
            =~= old(out)@ + decimal(n as nat));
    }
}

/// The decimal rendering of `n` as a new string.
pub fn decimal_string(n: u128) -> (r: String)
    ensures
        r@ == decimal(n as nat),
{
    let mut out = String::new();
    push_decimal(&mut out, n);
    assert(Seq::<char>::empty() + decimal(n as nat) =~= decimal(n as nat));
    out
}


/// Whether `c` has the Unicode `White_Space` property, which std's
/// `char::is_whitespace` tests: the ASCII controls from tab to carriage
/// return, the space, NEL, the no-break space, the Ogham space mark, the
/// spaces from the en quad to the hair space, the line and paragraph
/// separators, the narrow no-break space, the medium mathematical space and
/// the ideographic space.
pub open spec fn is_whitespace(c: char) -> bool {
    let u = c as u32;
    ||| 0x09 <= u <= 0x0D
    ||| u == 0x20
    ||| u == 0x85
    ||| u == 0xA0
    ||| u == 0x1680
    ||| 0x2000 <= u <= 0x200A
    ||| u == 0x2028
    ||| u == 0x2029
    ||| u == 0x202F
    ||| u == 0x205F
    ||| u == 0x3000
}

/// Whether `c` has the Unicode `White_Space` property.
pub(crate) fn char_is_whitespace(c: char) -> (r: bool)
    ensures
        r == is_whitespace(c),
{
    let u = c as u32;
    (0x09 <= u && u <= 0x0D) || u == 0x20 || u == 0x85 || u == 0xA0 || u == 0x1680 || (0x2000 <= u && u <= 0x200A)
        || u == 0x2028 || u == 0x2029 || u == 0x202F || u == 0x205F || u == 0x3000
}

/// Whether every character of `s` in `[from, to)` is whitespace.
pub open spec fn all_whitespace(s: Seq<char>, from: int, to: int) -> bool {
    forall|k: int| from <= k < to ==> is_whitespace(#[trigger] s[k])
}

/// `s` without its leading and trailing whitespace.
pub open spec fn is_trim_of(r: Seq<char>, s: Seq<char>) -> bool {
    exists|i: int, j: int|
        0 <= i <= j <= s.len() && r == s.subrange(i, j) && all_whitespace(s, 0, i) && all_whitespace(
            s,
            j,
            s.len() as int,
        ) && (i < j ==> !is_whitespace(s[i]) && !is_whitespace(s[j - 1])) && (i == j ==> all_whitespace(
            s,
            0,
            s.len() as int,
        ))
}

/// The slice without leading and trailing whitespace.
pub(crate) fn trim(s: &str) -> (r: &str)
    ensures
        is_trim_of(r@, s@),
{
    let n = s.unicode_len();
    let mut i: usize = 0;
    let mut found = false;
    while i < n && !found
        invariant
            i <= n,
            n == s@.len(),
            all_whitespace(s@, 0, i as int),
            found ==> i < n && !is_whitespace(s@[i as int]),
        decreases n - i + (if found { 0int } else { 1int }),
    {
        if char_is_whitespace(s.get_char(i)) {
            i = i + 1;
        } else {
            found = true;
        }
    }
    let mut j: usize = n;
    let mut kept = false;
    while j > i && !kept
        invariant
            i <= j <= n,
            n == s@.len(),
            all_whitespace(s@, j as int, n as int),
            i < n ==> !is_whitespace(s@[i as int]),
            i < n ==> j > i,
            kept ==> j > i && !is_whitespace(s@[j - 1]),
        decreases j + (if kept { 0int } else { 1int }),
    {
        if char_is_whitespace(s.get_char(j - 1)) {
            j = j - 1;
        } else {
            kept = true;
        }
    }
    let r = s.substring_char(i, j);
    assert(is_trim_of(r@, s@)) by {
        assert(r@ == s@.subrange(i as int, j as int));
    }
    r
}

/// The text that `{:?}` (std's `Debug` for `str`) prints for `s`: quoted and escaped.
pub uninterp spec fn debug_quoted(s: Seq<char>) -> Seq<char>;

/// `format!("{:?}", s)` on a string slice.
#[verifier::external_body]
pub(crate) fn debug_str(s: &str) -> (r: String)
    ensures
        r@ == debug_quoted(s@),
{
    format!("{:?}", s)
}

/// Whitespace runs collapsed to single spaces, leading and trailing whitespace
/// dropped (the words of `s` joined by one space).
pub open spec fn squeeze_whitespace(s: Seq<char>) -> Seq<char>
    decreases s.len(),
{
    if s.len() == 0 {
        Seq::empty()
    } else {
        let prev = squeeze_whitespace(s.drop_last());
        let c = s.last();
        if is_whitespace(c) {
            prev
        } else if s.len() >= 2 && is_whitespace(s[s.len() - 2]) && prev.len() > 0 {
            prev + seq![' ', c]
        } else {
            prev.push(c)
        }
    }
}

/// The words of `s` joined by single spaces.
pub fn squeeze(s: &str) -> (r: String)
    ensures
        r@ == squeeze_whitespace(s@),
{
    let n = s.unicode_len();
    let mut out = String::new();
    let mut i: usize = 0;
    let mut previous_space = false;
    while i < n
        invariant
            0 <= i <= n,
            n == s@.len(),
            out@ == squeeze_whitespace(s@.take(i as int)),
            i > 0 ==> previous_space == is_whitespace(s@[i - 1]),
        decreases n - i,
    {
        let c = s.get_char(i);
        let ws = char_is_whitespace(c);
        proof {
            assert(s@.take(i + 1).drop_last() =~= s@.take(i as int));
            assert(s@.take(i + 1).last() == c);
        }
        if !ws {
            if i > 0 && previous_space && out.unicode_len() > 0 {
                push_char(&mut out, ' ');
                push_char(&mut out, c);
                proof {
                    assert(s@.take(i + 1)[i - 1] == s@[i - 1]);
                    assert(squeeze_whitespace(s@.take(i as int)).push(' ').push(c) =~= squeeze_whitespace(
                        s@.take(i as int),
                    ) + seq![' ', c]);
                }
            } else {
                push_char(&mut out, c);
                proof {
                    if i > 0 {
                        assert(s@.take(i + 1)[i - 1] == s@[i - 1]);
                    }
                }
            }
        }
        previous_space = ws;
        i = i + 1;
    }
    assert(s@.take(n as int) =~= s@);
    out
}


/// A path extended by one name: a `/` separates them unless `base` is empty
/// or already ends with a separator.
pub open spec fn joined(base: Seq<char>, name: Seq<char>) -> Seq<char> {
    if base.len() == 0 {
        name
    } else if base.last() == '/' || base.last() == '\\' {
        base + name
    } else {
        base + seq!['/'] + name
    }
}

/// `base` extended by the path element `name`.
pub fn join_path(base: &str, name: &str) -> (r: String)
    ensures
        r@ == joined(base@, name@),
{
    let n = base.unicode_len();
    if n == 0 {
        return owned(name);
    }
    let last = base.get_char(n - 1);
    let mut r = owned(base);
    if last != '/' && last != '\\' {
        push_char(&mut r, '/');
    }
    push_str(&mut r, name);
    assert(r@ =~= joined(base@, name@));
    r
}

/// Whether `s` starts with `prefix`.
pub open spec fn has_prefix(s: Seq<char>, prefix: Seq<char>) -> bool {
    prefix.len() <= s.len() && s.subrange(0, prefix.len() as int) == prefix
}

/// Whether `s` starts with `prefix`.
pub fn starts_with(s: &str, prefix: &str) -> (r: bool)
    ensures
        r == has_prefix(s@, prefix@),
{
    let n = s.unicode_len();
    let m = prefix.unicode_len();
    if m > n {
        return false;
    }
    let mut i: usize = 0;
    while i < m
        invariant
            0 <= i <= m <= n,
            n == s@.len(),
            m == prefix@.len(),
            forall|k: int| 0 <= k < i ==> s@[k] == prefix@[k],
        decreases m - i,
    {
        if s.get_char(i) != prefix.get_char(i) {
            assert(s@.subrange(0, m as int)[i as int] != prefix@[i as int]);
            return false;
        }
        i = i + 1;
    }
    assert(s@.subrange(0, m as int) =~= prefix@);
    true
}

/// Whether `s` contains `part` as a contiguous piece.
pub open spec fn has_infix(s: Seq<char>, part: Seq<char>) -> bool {
    exists|i: int| 0 <= i && i + part.len() <= s.len() && #[trigger] s.subrange(i, i + part.len()) == part
}

/// Whether `s` contains `part` as a contiguous piece.
pub fn contains_text(s: &str, part: &str) -> (r: bool)
    ensures
        r == has_infix(s@, part@),
{
    let n = s.unicode_len();
    let m = part.unicode_len();
    if m > n {
        return false;
    }
    let mut start: usize = 0;
    while start <= n - m
        invariant
            m <= n,
            n == s@.len(),
            m == part@.len(),
            start <= n - m + 1,
            forall|i: int| 0 <= i < start ==> #[trigger] s@.subrange(i, i + m) != part@,
        decreases n - start,
    {
        let mut k: usize = 0;
        let mut same = true;
        while k < m
            invariant
                0 <= k <= m,
                start + m <= n,
                n == s@.len(),
                m == part@.len(),
                same == (forall|q: int| 0 <= q < k ==> s@[start + q] == part@[q]),
            decreases m - k,
        {
            if s.get_char(start + k) != part.get_char(k) {
                same = false;
            }
            k = k + 1;
        }
        if same {
            assert(s@.subrange(start as int, start + m) =~= part@);
            return true;
        }
        proof {
            let q = choose|q: int| 0 <= q < m && s@[start + q] != part@[q];
            assert(s@.subrange(start as int, start + m)[q] != part@[q]);
        }
        start = start + 1;
    }
    assert forall|i: int| 0 <= i && i + part@.len() <= s@.len() implies #[trigger] s@.subrange(i, i + part@.len()) != part@ by {
        assert(i < start);
    }
    false
}

/// The decimal rendering of an integer, with a leading `-` when negative.
pub open spec fn signed_decimal(v: int) -> Seq<char> {
    if v < 0 {
        seq!['-'] + decimal((-v) as nat)
    } else {
        decimal(v as nat)
    }
}

/// Appends the decimal rendering of `v` to `out`.
pub fn push_signed(out: &mut String, v: i64)
    ensures
        final(out)@ == old(out)@ + signed_decimal(v as int),
{
    if v < 0 {
        push_char(out, '-');
        let magnitude: u128 = (0i128 - v as i128) as u128;
        push_decimal(out, magnitude);
        assert(final(out)@ =~= old(out)@ + signed_decimal(v as int));
    } else {
        push_decimal(out, v as u128);
    }
}

/// `str::trim` has one possible result.
pub proof fn lemma_trim_unique(s: Seq<char>)
    ensures
        forall|a: Seq<char>, b: Seq<char>| is_trim_of(a, s) && is_trim_of(b, s) ==> a == b,
{
    assert forall|a: Seq<char>, b: Seq<char>| is_trim_of(a, s) && is_trim_of(b, s) implies a == b by {
        let (i1, j1) = choose|i: int, j: int|
            0 <= i <= j <= s.len() && a == s.subrange(i, j) && all_whitespace(s, 0, i)
                && all_whitespace(s, j, s.len() as int) && (i < j ==> !is_whitespace(s[i])
                && !is_whitespace(s[j - 1])) && (i == j ==> all_whitespace(s, 0, s.len() as int));
        let (i2, j2) = choose|i: int, j: int|
            0 <= i <= j <= s.len() && b == s.subrange(i, j) && all_whitespace(s, 0, i)
                && all_whitespace(s, j, s.len() as int) && (i < j ==> !is_whitespace(s[i])
                && !is_whitespace(s[j - 1])) && (i == j ==> all_whitespace(s, 0, s.len() as int));
        if i1 < j1 && i2 < j2 {
            if i1 < i2 {
                assert(is_whitespace(s[i1]));
            }
            if i2 < i1 {
                assert(is_whitespace(s[i2]));
            }
            if j1 < j2 {
                assert(is_whitespace(s[j2 - 1]));
            }
            if j2 < j1 {
                assert(is_whitespace(s[j1 - 1]));
            }
        } else if i1 < j1 {
            assert(is_whitespace(s[i1]));
        } else if i2 < j2 {
            assert(is_whitespace(s[i2]));
        }
        assert(a =~= b);
    }
}


/// The trimmed form of a text (the unique one).
pub open spec fn trimmed(s: Seq<char>) -> Seq<char> {
    choose|t: Seq<char>| is_trim_of(t, s)
}


/// The trimmed form of a text, as an owned string.
pub(crate) fn trimmed_owned(s: &str) -> (r: String)
    ensures
        r@ == trimmed(s@),
{
    let t = trim(s);
    proof {
        lemma_trim_unique(s@);
    }
    owned(t)
}


/// Whether two texts are equal, character by character.
pub(crate) fn text_eq(a: &str, b: &str) -> (r: bool)
    ensures
        r == (a@ == b@),
{
    let n = a.unicode_len();
    if n != b.unicode_len() {
        return false;
    }
    let mut i: usize = 0;
    while i < n
        invariant
            0 <= i <= n,
            n == a@.len(),
            n == b@.len(),
            forall|k: int| 0 <= k < i ==> a@[k] == b@[k],
        decreases n - i,
    {
        if a.get_char(i) != b.get_char(i) {
            return false;
        }
        i = i + 1;
    }
    assert(a@ =~= b@);
    true
}



/// What std's `str::to_lowercase` gives for `s` (Unicode lowercase mapping,
/// final sigma included).
pub uninterp spec fn str_lowercase(s: Seq<char>) -> Seq<char>;

/// `str::to_lowercase` of std.
#[verifier::external_body]
pub(crate) fn lowercase_text(s: &str) -> (r: String)
    ensures
        r@ == str_lowercase(s@),
{
    s.to_lowercase()
}

/// `parts` with `sep` between each two of them.
pub open spec fn join_with(parts: Seq<Seq<char>>, sep: Seq<char>) -> Seq<char>
    decreases parts.len(),
{
    if parts.len() == 0 {
        Seq::empty()
    } else if parts.len() == 1 {
        parts[0]
    } else {
        join_with(parts.drop_last(), sep) + sep + parts.last()
    }
}

/// The texts of a list of strings.
pub open spec fn texts(v: Seq<String>) -> Seq<Seq<char>> {
    v.map_values(|s: String| s@)
}

/// Appends `parts` joined by `sep` to `out`.
pub fn push_joined(out: &mut String, parts: &Vec<String>, sep: &str)
    ensures
        final(out)@ == old(out)@ + join_with(texts(parts@), sep@),
{
    let ghost start = out@;
    let ghost pv = texts(parts@);
    let mut i: usize = 0;
    while i < parts.len()
        invariant
            0 <= i <= parts@.len(),
            pv == texts(parts@),
            out@ == start + join_with(pv.take(i as int), sep@),
        decreases parts@.len() - i,
    {
        proof {
            assert(pv.take(i + 1).drop_last() =~= pv.take(i as int));
        }
        if i > 0 {
            push_str(out, sep);
        }
        push_str(out, parts[i].as_str());
        proof {
            if i == 0 {
                assert(pv.take(1) =~= seq![pv[0]]);
                assert(join_with(pv.take(1), sep@) == pv[0]);
            }
            assert(out@ =~= start + join_with(pv.take(i + 1), sep@));
        }
        i = i + 1;
    }
    assert(pv.take(parts@.len() as int) =~= pv);
}


/// Whether `c` is an ASCII decimal digit.
pub open spec fn is_ascii_digit(c: char) -> bool {
    48 <= (c as u32) && (c as u32) <= 57
}

/// The value of a string of ASCII decimal digits.
pub open spec fn digits_value(s: Seq<char>) -> nat
    decreases s.len(),
{
    if s.len() == 0 {
        0
    } else {
        digits_value(s.drop_last()) * 10 + ((s.last() as u32) - 48) as nat
    }
}

/// The digits of an unsigned number text: without its optional leading `+`.
pub open spec fn unsigned_digits(s: Seq<char>) -> Seq<char> {
    if s.len() > 0 && s[0] == '+' {
        s.drop_first()
    } else {
        s
    }
}

/// Whether std parses `s` as a `u32`: an optional `+`, then one or more ASCII
/// digits and nothing else, with a value that fits.
pub open spec fn parses_as_u32(s: Seq<char>) -> bool {
    let d = unsigned_digits(s);
    &&& d.len() > 0
    &&& forall|i: int| 0 <= i < d.len() ==> is_ascii_digit(#[trigger] d[i])
    &&& digits_value(d) <= u32::MAX
}

/// The message of std's `ParseIntError` for a text that is no `u32`.
pub uninterp spec fn u32_parse_error(s: Seq<char>) -> Seq<char>;

/// The display text of the `ParseIntError` that std's `str::parse::<u32>`
/// gives for a text that is no `u32`.
#[verifier::external_body]
fn u32_error_text(s: &str) -> (r: String)
    requires
        !parses_as_u32(s@),
    ensures
        r@ == u32_parse_error(s@),
{
    match s.parse::<u32>() {
        Ok(_) => String::new(),
        Err(e) => e.to_string(),
    }
}

/// A prefix of a digit string is worth no more than the whole.
proof fn lemma_digits_prefix_le(d: Seq<char>, k: int)
    requires
        0 <= k <= d.len(),
        forall|i: int| 0 <= i < d.len() ==> is_ascii_digit(#[trigger] d[i]),
    ensures
        digits_value(d.take(k)) <= digits_value(d),
    decreases d.len(),
{
    if k < d.len() {
        let rest = d.drop_last();
        assert(rest.take(k) =~= d.take(k));
        assert forall|i: int| 0 <= i < rest.len() implies is_ascii_digit(#[trigger] rest[i]) by {
            assert(is_ascii_digit(d[i]));
        }
        lemma_digits_prefix_le(rest, k);
    } else {
        assert(d.take(k) =~= d);
    }
}

/// A text parsed as a `u32` as std parses it: an optional `+`, then one or
/// more ASCII digits and nothing else, with a value that fits; otherwise
/// std's error text.
pub(crate) fn parse_u32(s: &str) -> (r: Result<u32, String>)
    ensures
        r is Ok <==> parses_as_u32(s@),
        r matches Ok(v) ==> v as nat == digits_value(unsigned_digits(s@)),
        r matches Err(e) ==> e@ == u32_parse_error(s@),
{
    let n = s.unicode_len();
    let start: usize = if n > 0 && s.get_char(0) == '+' {
        1
    } else {
        0
    };
    let ghost d = unsigned_digits(s@);
    assert(d =~= s@.subrange(start as int, n as int));
    if start == n {
        return Err(u32_error_text(s));
    }
    let mut v: u64 = 0;
    let mut i: usize = start;
    while i < n
        invariant
            start <= i <= n,
            n == s@.len(),
            d == s@.subrange(start as int, n as int),
            d == unsigned_digits(s@),
            forall|k: int| 0 <= k < i - start ==> is_ascii_digit(#[trigger] d[k]),
            v as nat == digits_value(d.take(i - start)),
            v <= u32::MAX,
        decreases n - i,
    {
        let c = s.get_char(i);
        proof {
            assert(d[i - start] == c);
            assert(d.take(i + 1 - start).drop_last() =~= d.take(i - start));
            assert(d.take(i + 1 - start).last() == c);
        }
        let u = c as u32;
        if !(48 <= u && u <= 57) {
            proof {
                let k: int = i - start;
                assert(!is_ascii_digit(d[k]));
                assert(0 <= k < d.len());
            }
            return Err(u32_error_text(s));
        }
        let next: u64 = v * 10 + (u - 48) as u64;
        if next > 0xffff_ffff {
            proof {
                if forall|k: int| 0 <= k < d.len() ==> is_ascii_digit(#[trigger] d[k]) {
                    lemma_digits_prefix_le(d, i + 1 - start);
                }
            }
            return Err(u32_error_text(s));
        }
        v = next;
        i = i + 1;
    }
    assert(d.take(n - start) =~= d);
    Ok(v as u32)
}

/// The text of an optional string slice.
pub open spec fn str_opt(v: Option<&str>) -> Option<Seq<char>> {
    match v {
        Some(s) => Some(s@),
        None => None,
    }
}

} // verus!
