//! Text: decimal and hexadecimal numbers, splitting, trimming and paths.
use vstd::prelude::*;

verus! {

/// The character of the decimal digit `d`.
pub open spec fn digit(d: nat) -> char {
    (48 + d) as char
}

/// `n` in decimal, without leading zeros.
pub open spec fn decimal(n: nat) -> Seq<char>
    decreases n,
{
    if n < 10 {
        seq![digit(n)]
    } else {
        decimal(n / 10).push(digit(n % 10))
    }
}

/// The character of the upper-case hexadecimal digit `d`.
pub open spec fn hex_digit(d: nat) -> char {
    if d < 10 {
        digit(d)
    } else {
        (55 + d) as char
    }
}

/// The two upper-case hexadecimal digits of a byte.
pub open spec fn hex_byte(b: u8) -> Seq<char> {
    seq![hex_digit(b as nat / 16), hex_digit(b as nat % 16)]
}

/// Characters with the Unicode property `White_Space`.
pub open spec fn is_white_space(c: char) -> bool {
    let n = c as u32;
    ||| 0x9 <= n <= 0xd
    ||| n == 0x20
    ||| n == 0x85
    ||| n == 0xa0
    ||| n == 0x1680
    ||| 0x2000 <= n <= 0x200a
    ||| n == 0x2028
    ||| n == 0x2029
    ||| n == 0x202f
    ||| n == 0x205f
    ||| n == 0x3000
}

/// The position of the first `c` in `s`, or the length of `s` where there is none.
pub open spec fn index_of_char(s: Seq<char>, c: char) -> nat
    decreases s.len(),
{
    if s.len() == 0 || s[0] == c {
        0
    } else {
        1 + index_of_char(s.drop_first(), c)
    }
}

/// What stands before and after the first `c`, where there is one.
pub open spec fn split_once(s: Seq<char>, c: char) -> Option<(Seq<char>, Seq<char>)> {
    let i = index_of_char(s, c) as int;
    if i < s.len() {
        Some((s.take(i), s.skip(i + 1)))
    } else {
        None
    }
}

/// The pieces of `s` between the separators `c`: one more than there are separators.
pub open spec fn split(s: Seq<char>, c: char) -> Seq<Seq<char>>
    decreases s.len(),
{
    let i = index_of_char(s, c) as int;
    if i < s.len() {
        seq![s.take(i)] + split(s.skip(i + 1), c)
    } else {
        seq![s]
    }
}

/// `s` without its leading white space.
pub open spec fn trim_start(s: Seq<char>) -> Seq<char>
    decreases s.len(),
{
    if s.len() > 0 && is_white_space(s[0]) {
        trim_start(s.drop_first())
    } else {
        s
    }
}

/// `s` without its trailing white space.
pub open spec fn trim_end(s: Seq<char>) -> Seq<char>
    decreases s.len(),
{
    if s.len() > 0 && is_white_space(s.last()) {
        trim_end(s.drop_last())
    } else {
        s
    }
}

/// `s` without leading and trailing white space.
pub open spec fn trim(s: Seq<char>) -> Seq<char> {
    trim_end(trim_start(s))
}

/// A slash-separated path extended by `segment`: an absolute segment replaces the path,
/// another one is appended after a single slash.
pub open spec fn path_join(base: Seq<char>, segment: Seq<char>) -> Seq<char> {
    if segment.len() > 0 && segment[0] == '/' {
        segment
    } else if base.len() == 0 || base.last() == '/' {
        base + segment
    } else {
        base.push('/') + segment
    }
}

/// The ASCII letters of `s` in lower case, every other character as it is.
pub open spec fn ascii_lower(s: Seq<char>) -> Seq<char> {
    Seq::new(s.len(), |i: int| ascii_lower_char(s[i]))
}

/// An upper-case ASCII letter in lower case, any other character as it is.
pub open spec fn ascii_lower_char(c: char) -> char {
    if 'A' <= c <= 'Z' {
        (c as u32 + 32) as char
    } else {
        c
    }
}

/// The views of a vector of strings.
pub open spec fn views(v: Seq<String>) -> Seq<Seq<char>> {
    Seq::new(v.len(), |i: int| v[i]@)
}

fn digit_str(d: u64) -> (r: &'static str)
    requires
        d < 10,
    ensures
        r@ == seq![digit(d as nat)],
{
    proof {
        reveal_strlit("0");
        reveal_strlit("1");
        reveal_strlit("2");
        reveal_strlit("3");
        reveal_strlit("4");
        reveal_strlit("5");
        reveal_strlit("6");
        reveal_strlit("7");
        reveal_strlit("8");
        reveal_strlit("9");
    }
    match d {
        0 => "0",
        1 => "1",
        2 => "2",
        3 => "3",
        4 => "4",
        5 => "5",
        6 => "6",
        7 => "7",
        8 => "8",
        _ => "9",
    }
}

/// `n` in decimal.
pub fn decimal_text(n: u64) -> (r: String)
    ensures
        r@ == decimal(n as nat),
    decreases n,
{
    if n < 10 {
        digit_str(n).to_owned()
    } else {
        let mut s = decimal_text(n / 10);
        s.append(digit_str(n % 10));
        s
    }
}

/// The characters of a text.
pub fn chars_of(s: &str) -> (r: Vec<char>)
    ensures
        r@ == s@,
{
    let mut out: Vec<char> = Vec::new();
    for c in it: s.chars()
        invariant
            it.seq() == s@,
            out@ == s@.take(it.index() as int),
    {
        out.push(c);
    }
    out
}

/// Whether a character has the Unicode property `White_Space`.
pub fn white_space(c: char) -> (r: bool)
    ensures
        r == is_white_space(c),
{
    let n = c as u32;
    (0x9 <= n && n <= 0xd) || n == 0x20 || n == 0x85 || n == 0xa0 || n == 0x1680 || (0x2000 <= n
        && n <= 0x200a) || n == 0x2028 || n == 0x2029 || n == 0x202f || n == 0x205f || n == 0x3000
}

/// The pieces of a text between the separators `sep`.
pub fn split_text(s: &str, sep: char) -> (r: Vec<String>)
    ensures
        views(r@) == split(s@, sep),
{
    let chars = chars_of(s);
    let n: usize = chars.len();
    let mut out: Vec<String> = Vec::new();
    let mut start: usize = 0;
    let mut i: usize = 0;
    proof {
        assert(s@.skip(0) =~= s@);
        assert(views(out@) + split(s@, sep) =~= split(s@, sep));
    }
    while i < n
        invariant
            chars@ == s@,
            n == s@.len(),
            start <= i <= n,
            views(out@) + split(s@.skip(start as int), sep) == split(s@, sep),
            index_of_char(s@.skip(start as int), sep) == (i - start) + index_of_char(
                s@.skip(i as int),
                sep,
            ),
        decreases n - i,
    {
        let ghost rest = s@.skip(start as int);
        assert(s@.skip(i as int).drop_first() =~= s@.skip(i + 1));
        if chars[i] == sep {
            let piece = s.substring_char(start, i).to_owned();
            proof {
                let k = index_of_char(rest, sep) as int;
                assert(k == i - start);
                assert(rest.take(k) =~= piece@);
                assert(rest.skip(k + 1) =~= s@.skip(i + 1));
                assert(split(rest, sep) == seq![piece@] + split(s@.skip(i + 1), sep));
                assert(views(out@.push(piece)) =~= views(out@).push(piece@));
                assert(views(out@) + (seq![piece@] + split(s@.skip(i + 1), sep)) =~= views(
                    out@,
                ).push(piece@) + split(s@.skip(i + 1), sep));
            }
            out.push(piece);
            start = i + 1;
        }
        i = i + 1;
    }
    let piece = s.substring_char(start, n).to_owned();
    proof {
        let rest = s@.skip(start as int);
        assert(rest =~= piece@);
        assert(split(rest, sep) == seq![rest]);
        assert(views(out@.push(piece)) =~= views(out@) + seq![piece@]);
    }
    out.push(piece);
    out
}

/// What stands before and after the first `sep` of a text.
pub fn split_once_text(s: &str, sep: char) -> (r: Option<(String, String)>)
    ensures
        match r {
            Some((a, b)) => split_once(s@, sep) == Some((a@, b@)),
            None => split_once(s@, sep) is None,
        },
{
    let chars = chars_of(s);
    let n: usize = chars.len();
    let mut i: usize = 0;
    proof {
        assert(s@.skip(0) =~= s@);
    }
    while i < n
        invariant
            chars@ == s@,
            n == s@.len(),
            i <= n,
            index_of_char(s@, sep) == i + index_of_char(s@.skip(i as int), sep),
        decreases n - i,
    {
        if chars[i] == sep {
            let a = s.substring_char(0, i).to_owned();
            let b = s.substring_char(i + 1, n).to_owned();
            assert(a@ =~= s@.take(i as int));
            assert(b@ =~= s@.skip(i + 1));
            return Some((a, b));
        }
        assert(s@.skip(i as int).drop_first() =~= s@.skip(i + 1));
        i = i + 1;
    }
    None
}

/// A text without leading and trailing white space.
pub fn trim_text(s: &str) -> (r: String)
    ensures
        r@ == trim(s@),
{
    let chars = chars_of(s);
    let n: usize = chars.len();
    let mut lo: usize = 0;
    let mut hi: usize = n;
    proof {
        assert(s@.subrange(0, n as int) =~= s@);
    }
    while lo < n && white_space(chars[lo])
        invariant
            chars@ == s@,
            n == s@.len(),
            lo <= n,
            trim_start(s@) == trim_start(s@.subrange(lo as int, n as int)),
        decreases n - lo,
    {
        assert(s@.subrange(lo as int, n as int).drop_first() =~= s@.subrange(lo + 1, n as int));
        lo = lo + 1;
    }
    while hi > lo && white_space(chars[hi - 1])
        invariant
            chars@ == s@,
            n == s@.len(),
            lo <= hi <= n,
            trim_end(s@.subrange(lo as int, n as int)) == trim_end(
                s@.subrange(lo as int, hi as int),
            ),
        decreases hi,
    {
        assert(s@.subrange(lo as int, hi as int).drop_last() =~= s@.subrange(lo as int, hi - 1));
        hi = hi - 1;
    }
    s.substring_char(lo, hi).to_owned()
}

/// A path extended by a segment, as `std::path::PathBuf::push` extends it on Unix.
pub fn join_path(base: &str, segment: &str) -> (r: String)
    ensures
        r@ == path_join(base@, segment@),
{
    proof {
        reveal_strlit("/");
    }
    let b: usize = base.unicode_len();
    if segment.unicode_len() > 0 && segment.get_char(0) == '/' {
        return segment.to_owned();
    }
    let mut r = base.to_owned();
    if b > 0 && base.get_char(b - 1) != '/' {
        r.append("/");
        assert(r@ =~= base@.push('/'));
    }
    r.append(segment);
    r
}

/// Whether two texts are the same.
pub fn same_text(a: &str, b: &str) -> (r: bool)
    ensures
        r == (a@ == b@),
{
    a.to_owned() == b.to_owned()
}

/// Whether a text is `lower` when the case of its ASCII letters is ignored.
pub fn same_ignoring_case(s: &str, lower: &str) -> (r: bool)
    ensures
        r == (ascii_lower(s@) == lower@),
{
    let a = chars_of(s);
    let b = chars_of(lower);
    if a.len() != b.len() {
        return false;
    }
    let n: usize = a.len();
    let mut i: usize = 0;
    while i < n
        invariant
            a@ == s@,
            b@ == lower@,
            n == a@.len() == b@.len(),
            i <= n,
            forall|j: int| 0 <= j < i ==> ascii_lower_char(a@[j]) == b@[j],
        decreases n - i,
    {
        let c = a[i];
        let d: char = if 'A' <= c && c <= 'Z' {
            ((c as u8) + 32) as char
        } else {
            c
        };
        if d != b[i] {
            assert(ascii_lower(s@)[i as int] != lower@[i as int]);
            return false;
        }
        i = i + 1;
    }
    assert(ascii_lower(s@) =~= lower@);
    true
}

/// Whether a text holds no white space.
pub open spec fn is_solid(s: Seq<char>) -> bool {
    forall|i: int| 0 <= i < s.len() ==> !is_white_space(#[trigger] s[i])
}

/// A decimal number is at least one digit and holds no white space.
pub proof fn decimal_is_solid(n: nat)
    ensures
        decimal(n).len() > 0,
        is_solid(decimal(n)),
        forall|i: int| 0 <= i < decimal(n).len() ==> '0' <= #[trigger] decimal(n)[i] <= '9',
    decreases n,
{
    if n >= 10 {
        decimal_is_solid(n / 10);
    }
}

/// Texts without white space make a text without white space.
pub proof fn solid_concat(a: Seq<char>, b: Seq<char>)
    requires
        is_solid(a),
        is_solid(b),
    ensures
        is_solid(a + b),
{
    assert forall|i: int| 0 <= i < (a + b).len() implies !is_white_space(#[trigger] (a + b)[i]) by {
        if i < a.len() {
            assert(!is_white_space(a[i]));
        } else {
            assert(!is_white_space(b[i - a.len()]));
        }
    }
}

/// The first place of a character is where it stands behind others only.
pub proof fn index_of_char_is(s: Seq<char>, c: char, k: int)
    requires
        0 <= k <= s.len(),
        forall|i: int| 0 <= i < k ==> #[trigger] s[i] != c,
        k < s.len() ==> s[k] == c,
    ensures
        index_of_char(s, c) == k,
    decreases s.len(),
{
    if s.len() > 0 && k > 0 {
        assert(s[0] != c);
        assert forall|i: int| 0 <= i < k - 1 implies #[trigger] s.drop_first()[i] != c by {
            assert(s[i + 1] != c);
        }
        index_of_char_is(s.drop_first(), c, k - 1);
    }
}

/// A text without white space is left as it is.
pub proof fn trim_keeps_solid(s: Seq<char>)
    requires
        is_solid(s),
    ensures
        trim(s) == s,
{
}

/// The number that decimal digits spell.
pub open spec fn decimal_value(s: Seq<char>) -> int
    decreases s.len(),
{
    if s.len() == 0 {
        0
    } else {
        decimal_value(s.drop_last()) * 10 + (s.last() as int - '0' as int)
    }
}

/// A number in decimal spells the number, in digits of which the first is zero for zero only.
pub proof fn decimal_spells_the_number(n: nat)
    ensures
        decimal_value(decimal(n)) == n,
        decimal(n).len() > 0,
        forall|i: int| 0 <= i < decimal(n).len() ==> '0' <= #[trigger] decimal(n)[i] <= '9',
        n > 0 ==> decimal(n)[0] != '0',
        n == 0 ==> decimal(n).len() == 1,
    decreases n,
{
    if n >= 10 {
        decimal_spells_the_number(n / 10);
        let front = decimal(n / 10);
        assert(decimal(n).drop_last() =~= front);
        assert(decimal(n)[0] == front[0]);
    } else {
        reveal_with_fuel(decimal_value, 2);
    }
}

/// Two hexadecimal digits spell the byte.
pub proof fn hex_spells_the_byte(b: u8)
    ensures
        hex_byte(b).len() == 2,
        forall|i: int|
            0 <= i < 2 ==> '0' <= #[trigger] hex_byte(b)[i] <= '9' || 'A' <= hex_byte(b)[i] <= 'F',
        ({
            let value = |c: char|
                if c <= '9' {
                    c as int - '0' as int
                } else {
                    c as int - 'A' as int + 10
                };
            value(hex_byte(b)[0]) * 16 + value(hex_byte(b)[1]) == b
        }),
{
}

/// The first place of a character is where it stands, and it stands nowhere before.
pub proof fn index_of_char_is_first(s: Seq<char>, c: char)
    ensures
        index_of_char(s, c) <= s.len(),
        forall|i: int| 0 <= i < index_of_char(s, c) ==> #[trigger] s[i] != c,
        index_of_char(s, c) < s.len() ==> s[index_of_char(s, c) as int] == c,
        index_of_char(s, c) == s.len() ==> !s.contains(c),
    decreases s.len(),
{
    if s.len() > 0 && s[0] != c {
        let rest = s.drop_first();
        index_of_char_is_first(rest, c);
        assert forall|i: int| 0 <= i < index_of_char(s, c) implies #[trigger] s[i] != c by {
            if i > 0 {
                assert(rest[i - 1] != c);
            }
        }
    }
}

/// What stands before and after the first separator makes up the text again, and none stands before
/// it; a text that is not split has no separator.
pub proof fn split_once_takes_the_text_apart(s: Seq<char>, c: char)
    ensures
        match split_once(s, c) {
            Some((a, b)) => s == a + seq![c] + b && !a.contains(c),
            None => !s.contains(c),
        },
{
    index_of_char_is_first(s, c);
    let i = index_of_char(s, c) as int;
    if i < s.len() {
        assert(s =~= s.take(i) + seq![c] + s.skip(i + 1));
        assert forall|j: int| 0 <= j < i implies #[trigger] s.take(i)[j] != c by {
            assert(s[j] != c);
        }
    }
}

/// Texts with a separator between them.
pub open spec fn with_separators(pieces: Seq<Seq<char>>, c: char) -> Seq<char>
    decreases pieces.len(),
{
    if pieces.len() == 0 {
        Seq::empty()
    } else if pieces.len() == 1 {
        pieces[0]
    } else {
        pieces[0] + seq![c] + with_separators(pieces.drop_first(), c)
    }
}

/// The pieces of a text, with the separators between them, are the text again; no piece holds a
/// separator.
pub proof fn split_takes_the_text_apart(s: Seq<char>, c: char)
    ensures
        split(s, c).len() > 0,
        with_separators(split(s, c), c) == s,
        forall|i: int| 0 <= i < split(s, c).len() ==> !(#[trigger] split(s, c)[i]).contains(c),
    decreases s.len(),
{
    index_of_char_is_first(s, c);
    split_once_takes_the_text_apart(s, c);
    let i = index_of_char(s, c) as int;
    let pieces = split(s, c);
    if i < s.len() {
        let rest = s.skip(i + 1);
        split_takes_the_text_apart(rest, c);
        assert(pieces.drop_first() =~= split(rest, c));
        assert(pieces[0] == s.take(i));
        assert(s =~= s.take(i) + seq![c] + rest);
        assert forall|k: int| 0 <= k < pieces.len() implies !(#[trigger] pieces[k]).contains(c) by {
            if k > 0 {
                assert(pieces[k] == split(rest, c)[k - 1]);
            }
        }
    }
}

/// Trimming takes away white space at the two ends, and leaves none there.
pub proof fn trim_takes_white_space_off_the_ends(s: Seq<char>)
    ensures
        exists|lo: int, hi: int|
            0 <= lo <= hi <= s.len() && trim(s) == #[trigger] s.subrange(lo, hi) && (forall|i: int|
                0 <= i < lo || hi <= i < s.len() ==> is_white_space(#[trigger] s[i])),
        trim(s).len() > 0 ==> !is_white_space(trim(s)[0]) && !is_white_space(trim(s).last()),
{
    let lo = trim_start_is_a_suffix(s);
    let t = trim_start(s);
    let n = trim_end_is_a_prefix(t);
    let hi = lo + n;
    assert(trim(s) =~= s.subrange(lo, hi));
    assert forall|i: int| 0 <= i < lo || hi <= i < s.len() implies is_white_space(
        #[trigger] s[i],
    ) by {
        if i >= hi {
            assert(t[i - lo] == s[i]);
        }
    }
    if trim(s).len() > 0 {
        assert(trim(s)[0] == t[0]);
    }
}

proof fn trim_start_is_a_suffix(s: Seq<char>) -> (lo: int)
    ensures
        0 <= lo <= s.len(),
        trim_start(s) == s.skip(lo),
        forall|i: int| 0 <= i < lo ==> is_white_space(#[trigger] s[i]),
        trim_start(s).len() > 0 ==> !is_white_space(trim_start(s)[0]),
    decreases s.len(),
{
    if s.len() > 0 && is_white_space(s[0]) {
        let rest = s.drop_first();
        let k = trim_start_is_a_suffix(rest);
        assert(rest.skip(k) =~= s.skip(k + 1));
        assert forall|i: int| 0 <= i < k + 1 implies is_white_space(#[trigger] s[i]) by {
            if i > 0 {
                assert(is_white_space(rest[i - 1]));
            }
        }
        k + 1
    } else {
        assert(s.skip(0) =~= s);
        0
    }
}

proof fn trim_end_is_a_prefix(s: Seq<char>) -> (n: int)
    ensures
        0 <= n <= s.len(),
        trim_end(s) == s.take(n),
        forall|i: int| n <= i < s.len() ==> is_white_space(#[trigger] s[i]),
        trim_end(s).len() > 0 ==> !is_white_space(trim_end(s).last()),
    decreases s.len(),
{
    if s.len() > 0 && is_white_space(s.last()) {
        let rest = s.drop_last();
        let n = trim_end_is_a_prefix(rest);
        assert(rest.take(n) =~= s.take(n));
        assert forall|i: int| n <= i < s.len() implies is_white_space(#[trigger] s[i]) by {
            if i < s.len() - 1 {
                assert(is_white_space(rest[i]));
            }
        }
        n
    } else {
        assert(s.take(s.len() as int) =~= s);
        s.len() as int
    }
}

/// A joined path is an absolute segment, or the base and the segment with one slash between them
/// where the base is not empty and does not end in one.
pub proof fn joined_path_keeps_its_parts(base: Seq<char>, segment: Seq<char>)
    ensures
        segment.len() > 0 && segment[0] == '/' ==> path_join(base, segment) == segment,
        !(segment.len() > 0 && segment[0] == '/') && base.len() > 0 && base[base.len() - 1]
            != '/' ==> path_join(base, segment) == base + seq!['/'] + segment,
        !(segment.len() > 0 && segment[0] == '/') && (base.len() == 0 || base[base.len() - 1]
            == '/') ==> path_join(base, segment) == base + segment,
{
    assert(base.push('/') =~= base + seq!['/']);
}

/// In lower case, a text differs in its upper-case ASCII letters alone, which become the letters 32
/// places on.
pub proof fn lower_case_changes_ascii_letters_only(s: Seq<char>, i: int)
    requires
        0 <= i < s.len(),
    ensures
        ascii_lower(s).len() == s.len(),
        65 <= s[i] as u32 <= 90 ==> ascii_lower(s)[i] as u32 == s[i] as u32 + 32,
        !(65 <= s[i] as u32 <= 90) ==> ascii_lower(s)[i] == s[i],
{
}

/// Texts without a separator in front of one can be told apart from what follows it.
pub proof fn separator_tells_apart(
    a: Seq<char>,
    b: Seq<char>,
    x: Seq<char>,
    y: Seq<char>,
    c: char,
)
    requires
        a + seq![c] + b == x + seq![c] + y,
        !a.contains(c),
        !x.contains(c),
    ensures
        a == x,
        b == y,
{
    let s = a + seq![c] + b;
    let t = x + seq![c] + y;
    assert(s[a.len() as int] == c);
    assert(t[x.len() as int] == c);
    if a.len() < x.len() {
        assert(x[a.len() as int] == c);
    }
    if x.len() < a.len() {
        assert(a[x.len() as int] == c);
    }
    assert forall|i: int| 0 <= i < a.len() implies a[i] == x[i] by {
        assert(s[i] == a[i] && t[i] == x[i]);
    }
    assert(a =~= x);
    assert(s.len() == a.len() + 1 + b.len() && t.len() == x.len() + 1 + y.len());
    assert(s.skip(a.len() as int + 1) =~= b);
    assert(t.skip(x.len() as int + 1) =~= y);
}

/// A text that begins with a piece and a separator splits into that piece and the pieces of the
/// rest.
pub proof fn split_after_a_piece(piece: Seq<char>, rest: Seq<char>, c: char)
    requires
        !piece.contains(c),
    ensures
        split(piece + seq![c] + rest, c) == seq![piece] + split(rest, c),
{
    let s = piece + seq![c] + rest;
    let k = piece.len() as int;
    assert forall|i: int| 0 <= i < k implies #[trigger] s[i] != c by {
        assert(s[i] == piece[i]);
    }
    assert(s[k] == c);
    index_of_char_is(s, c, k);
    assert(s.take(k) =~= piece);
    assert(s.skip(k + 1) =~= rest);
}

/// A text without separators is its only piece.
pub proof fn split_of_a_piece(piece: Seq<char>, c: char)
    requires
        !piece.contains(c),
    ensures
        split(piece, c) == seq![piece],
{
    assert forall|i: int| 0 <= i < piece.len() implies #[trigger] piece[i] != c by {
        assert(piece.contains(piece[i]));
    }
    index_of_char_is(piece, c, piece.len() as int);
}

}
