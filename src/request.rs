//! Extraction of the id token and of the body from the raw request text.
use vstd::prelude::*;
use vstd::string::*;

verus! {

/// The characters that `char::is_whitespace` accepts: the Unicode `White_Space` set.
pub open spec fn is_space(c: char) -> bool {
    let u = c as u32;
    (9 <= u && u <= 13) || u == 32 || u == 0x85 || u == 0xa0 || u == 0x1680 || (0x2000 <= u
        && u <= 0x200a) || u == 0x2028 || u == 0x2029 || u == 0x202f || u == 0x205f || u == 0x3000
}

pub fn is_space_char(c: char) -> (r: bool)
    ensures
        r == is_space(c),
{
    let u = c as u32;
    (9 <= u && u <= 13) || u == 32 || u == 0x85 || u == 0xa0 || u == 0x1680 || (0x2000 <= u
        && u <= 0x200a) || u == 0x2028 || u == 0x2029 || u == 0x202f || u == 0x205f || u == 0x3000
}

/// The `n`-th piece of `s` split on `/` (counting from zero), or empty when there are fewer.
pub open spec fn segment(s: Seq<char>, n: nat) -> Seq<char>
    decreases s.len(),
{
    if s.len() == 0 {
        Seq::empty()
    } else if s[0] == '/' {
        if n == 0 {
            Seq::empty()
        } else {
            segment(s.drop_first(), (n - 1) as nat)
        }
    } else if n == 0 {
        seq![s[0]] + segment(s.drop_first(), 0)
    } else {
        segment(s.drop_first(), n)
    }
}

/// The longest prefix of `s` free of whitespace.
pub open spec fn word_prefix(s: Seq<char>) -> Seq<char>
    decreases s.len(),
{
    if s.len() == 0 || is_space(s[0]) {
        Seq::empty()
    } else {
        seq![s[0]] + word_prefix(s.drop_first())
    }
}

/// The first whitespace-separated word of `s`, or empty when there is none.
pub open spec fn first_word(s: Seq<char>) -> Seq<char>
    decreases s.len(),
{
    if s.len() == 0 {
        Seq::empty()
    } else if is_space(s[0]) {
        first_word(s.drop_first())
    } else {
        word_prefix(s)
    }
}

/// The id token of a request: the first word of the third `/`-separated piece.
pub open spec fn id_token(s: Seq<char>) -> Seq<char> {
    first_word(segment(s, 2))
}

proof fn lemma_drop_first_subrange(s: Seq<char>, i: int)
    requires
        0 <= i < s.len(),
    ensures
        s.subrange(i, s.len() as int).drop_first() == s.subrange(i + 1, s.len() as int),
        s.subrange(i, s.len() as int)[0] == s[i],
{
    assert(s.subrange(i, s.len() as int).drop_first() =~= s.subrange(i + 1, s.len() as int));
}

/// Returns the id token of the request text (see `id_token`).
pub fn get_id(request: &str) -> (r: &str)
    ensures
        r@ == id_token(request@),
{
    let ghost s = request@;
    let n = request.unicode_len();
    let mut i: usize = 0;
    let mut slashes: usize = 0;
    proof {
        assert(s.subrange(0, n as int) =~= s);
    }
    while i < n && slashes < 2
        invariant
            n == s.len(),
            s == request@,
            i <= n,
            slashes <= 2,
            segment(s, 2) == segment(s.subrange(i as int, n as int), (2 - slashes) as nat),
        decreases n - i,
    {
        let c = request.get_char(i);
        proof {
            lemma_drop_first_subrange(s, i as int);
        }
        if c == '/' {
            slashes = slashes + 1;
        }
        i = i + 1;
    }
    if slashes < 2 {
        proof {
            assert(s.subrange(n as int, n as int).len() == 0);
            reveal_strlit("");
        }
        return "";
    }
    let start = i;
    while i < n && request.get_char(i) != '/'
        invariant
            n == s.len(),
            s == request@,
            start <= i <= n,
            segment(s, 2) == s.subrange(start as int, i as int) + segment(
                s.subrange(i as int, n as int),
                0,
            ),
        decreases n - i,
    {
        proof {
            lemma_drop_first_subrange(s, i as int);
            assert(s.subrange(start as int, i + 1) =~= s.subrange(start as int, i as int) + seq![
                s[i as int],
            ]);
        }
        i = i + 1;
    }
    let end = i;
    proof {
        if i < n {
            lemma_drop_first_subrange(s, i as int);
        }
        assert(segment(s, 2) =~= s.subrange(start as int, end as int));
    }
    let ghost seg = s.subrange(start as int, end as int);
    let mut a = start;
    while a < end && is_space_char(request.get_char(a))
        invariant
            n == s.len(),
            s == request@,
            start <= a <= end <= n,
            seg == s.subrange(start as int, end as int),
            first_word(seg) == first_word(s.subrange(a as int, end as int)),
        decreases end - a,
    {
        proof {
            let t = s.subrange(0, end as int);
            lemma_drop_first_subrange(t, a as int);
            assert(t.subrange(a as int, end as int) =~= s.subrange(a as int, end as int));
            assert(t.subrange(a + 1, end as int) =~= s.subrange(a + 1, end as int));
        }
        a = a + 1;
    }
    let mut b = a;
    while b < end && !is_space_char(request.get_char(b))
        invariant
            n == s.len(),
            s == request@,
            a <= b <= end <= n,
            word_prefix(s.subrange(a as int, end as int)) == s.subrange(a as int, b as int)
                + word_prefix(s.subrange(b as int, end as int)),
        decreases end - b,
    {
        proof {
            let t = s.subrange(0, end as int);
            lemma_drop_first_subrange(t, b as int);
            assert(t.subrange(b as int, end as int) =~= s.subrange(b as int, end as int));
            assert(t.subrange(b + 1, end as int) =~= s.subrange(b + 1, end as int));
            assert(s.subrange(a as int, b + 1) =~= s.subrange(a as int, b as int) + seq![
                s[b as int],
            ]);
        }
        b = b + 1;
    }
    proof {
        let t = s.subrange(a as int, end as int);
        if b < end {
            assert(s.subrange(b as int, end as int)[0] == s[b as int]);
        } else {
            assert(s.subrange(b as int, end as int).len() == 0);
        }
        assert(word_prefix(t) =~= s.subrange(a as int, b as int));
        if a < end {
            assert(t[0] == s[a as int]);
        }
    }
    request.substring_char(a, b)
}

pub open spec fn is_digit(c: char) -> bool {
    48 <= (c as u32) && (c as u32) <= 57
}

/// The number that a string of decimal digits spells.
pub open spec fn digits_value(s: Seq<char>) -> int
    decreases s.len(),
{
    if s.len() == 0 {
        0
    } else {
        10 * digits_value(s.drop_last()) + ((s.last() as u32) - 48)
    }
}

pub open spec fn all_digits(s: Seq<char>) -> bool {
    s.len() > 0 && forall|i: int| 0 <= i < s.len() ==> is_digit(#[trigger] s[i])
}

/// The integer written in `s`: an optional `+` or `-`, then one or more decimal digits.
pub open spec fn decimal_value(s: Seq<char>) -> Option<int> {
    if s.len() > 0 && (s[0] == '+' || s[0] == '-') {
        if all_digits(s.drop_first()) {
            if s[0] == '-' {
                Some(-digits_value(s.drop_first()))
            } else {
                Some(digits_value(s.drop_first()))
            }
        } else {
            None
        }
    } else if all_digits(s) {
        Some(digits_value(s))
    } else {
        None
    }
}

/// The id that a token denotes, as `str::parse::<i32>` reads it: none unless the token
/// is a decimal integer within the range of `i32`.
pub open spec fn id_value(s: Seq<char>) -> Option<i32> {
    match decimal_value(s) {
        Some(v) => if i32::MIN <= v && v <= i32::MAX {
            Some(v as i32)
        } else {
            None
        },
        None => None,
    }
}

proof fn lemma_digits_value_nonneg(s: Seq<char>)
    requires
        forall|i: int| 0 <= i < s.len() ==> is_digit(#[trigger] s[i]),
    ensures
        digits_value(s) >= 0,
    decreases s.len(),
{
    if s.len() > 0 {
        let p = s.drop_last();
        assert forall|i: int| 0 <= i < p.len() implies is_digit(#[trigger] p[i]) by {
            assert(p[i] == s[i]);
        }
        lemma_digits_value_nonneg(p);
    }
}

/// Reads a token as an id; `None` where `str::parse::<i32>` fails.
pub fn parse_id(token: &str) -> (r: Option<i32>)
    ensures
        r == id_value(token@),
{
    let ghost s = token@;
    let n = token.unicode_len();
    if n == 0 {
        return None;
    }
    let first = token.get_char(0);
    let signed = first == '+' || first == '-';
    let start: usize = if signed {
        1
    } else {
        0
    };
    if start == n {
        return None;
    }
    proof {
        if signed {
            assert(s.drop_first() =~= s.subrange(1, n as int));
        } else {
            assert(s =~= s.subrange(0, n as int));
        }
    }
    let mut i: usize = start;
    let mut acc: i64 = 0;
    let mut big = false;
    while i < n
        invariant
            n == s.len(),
            s == token@,
            start <= i <= n,
            start == (if signed { 1usize } else { 0usize }),
            n > 0,
            s[0] == first,
            signed == (first == '+' || first == '-'),
            forall|j: int| start <= j < i ==> is_digit(#[trigger] s[j]),
            big ==> digits_value(s.subrange(start as int, i as int)) > 2147483648,
            !big ==> acc == digits_value(s.subrange(start as int, i as int)),
            !big ==> 0 <= acc <= 2147483648,
        decreases n - i,
    {
        let c = token.get_char(i);
        if !(48 <= (c as u32) && (c as u32) <= 57) {
            proof {
                if signed {
                    assert(s.drop_first()[i - 1] == s[i as int]);
                    assert(!is_digit(s.drop_first()[i - 1]));
                    assert(!all_digits(s.drop_first()));
                } else {
                    assert(!is_digit(s[i as int]));
                    assert(!all_digits(s));
                }
            }
            return None;
        }
        let ghost prev = s.subrange(start as int, i as int);
        proof {
            assert(s.subrange(start as int, i + 1).drop_last() =~= prev);
            assert forall|j: int| 0 <= j < prev.len() implies is_digit(#[trigger] prev[j]) by {
                assert(prev[j] == s[start + j]);
            }
            lemma_digits_value_nonneg(prev);
        }
        let digit = ((c as u32) - 48) as i64;
        if !big {
            let next = acc * 10 + digit;
            if next > 2147483648 {
                big = true;
            } else {
                acc = next;
            }
        }
        i = i + 1;
    }
    let ghost d = s.subrange(start as int, n as int);
    proof {
        assert forall|j: int| 0 <= j < d.len() implies is_digit(#[trigger] d[j]) by {
            assert(d[j] == s[start + j]);
        }
    }
    if big {
        return None;
    }
    if first == '-' {
        Some((-acc) as i32)
    } else if acc <= 2147483647 {
        Some(acc as i32)
    } else {
        None
    }
}

/// Whether a blank line (`\r\n\r\n`) starts at position `i` of `s`.
pub open spec fn is_break_at(s: Seq<char>, i: int) -> bool {
    0 <= i && i + 4 <= s.len() && s[i] == '\r' && s[i + 1] == '\n' && s[i + 2] == '\r' && s[i
        + 3] == '\n'
}

/// Splitting `s` on blank lines from left to right, scanning from `i` in the piece that
/// began at `start`: the last piece.
pub open spec fn last_piece_from(s: Seq<char>, i: int, start: int) -> Seq<char>
    decreases s.len() - i,
    when 0 <= i
{
    if i + 4 > s.len() {
        s.subrange(start, s.len() as int)
    } else if is_break_at(s, i) {
        last_piece_from(s, i + 4, i + 4)
    } else {
        last_piece_from(s, i + 1, start)
    }
}

pub open spec fn has_break(s: Seq<char>) -> bool {
    exists|i: int| is_break_at(s, i)
}

/// The body of a request: what follows the last blank line, or empty when there is none.
pub open spec fn request_body(s: Seq<char>) -> Seq<char> {
    if has_break(s) {
        last_piece_from(s, 0, 0)
    } else {
        Seq::empty()
    }
}

/// Returns the body text of the request (see `request_body`).
pub fn get_videogame_request_body(request: &str) -> (r: &str)
    ensures
        r@ == request_body(request@),
{
    let ghost s = request@;
    let n = request.unicode_len();
    let mut i: usize = 0;
    let mut start: usize = 0;
    let mut found = false;
    while i < n && n - i >= 4
        invariant
            n == s.len(),
            s == request@,
            start <= i,
            i <= n,
            start <= n,
            last_piece_from(s, 0, 0) == last_piece_from(s, i as int, start as int),
            found ==> has_break(s),
            !found ==> forall|j: int| 0 <= j < i ==> !is_break_at(s, j),
        decreases n - i,
    {
        if request.get_char(i) == '\r' && request.get_char(i + 1) == '\n' && request.get_char(i + 2)
            == '\r' && request.get_char(i + 3) == '\n' {
            assert(is_break_at(s, i as int));
            found = true;
            i = i + 4;
            start = i;
        } else {
            i = i + 1;
        }
    }
    if !found {
        proof {
            assert forall|j: int| !is_break_at(s, j) by {
                if 0 <= j < i {
                } else {
                }
            }
            reveal_strlit("");
        }
        return "";
    }
    request.substring_char(start, n)
}

} // verus!
