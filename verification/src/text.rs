//! Small operations on texts: numbers in decimal, letter case, prefixes by size.
use vstd::prelude::*;
use vstd::string::*;
use vstd::utf8::*;

verus! {

/// The characters of a text that may be absent.
pub open spec fn text_view(s: Option<String>) -> Option<Seq<char>> {
    match s {
        Some(s) => Some(s@),
        None => None,
    }
}

/// Whether two texts hold the same characters.
pub fn same_text(a: &str, b: &str) -> (r: bool)
    ensures
        r == (a@ == b@),
{
    a.to_owned() == b.to_owned()
}

/// The digit for a number below ten.
pub open spec fn digit_char(d: nat) -> char {
    ('0' as nat + d) as char
}

/// A number in decimal, without leading zeros.
pub open spec fn decimal_text(n: nat) -> Seq<char>
    decreases n,
{
    if n < 10 {
        seq![digit_char(n)]
    } else {
        decimal_text(n / 10).push(digit_char(n % 10))
    }
}

fn digit_text(d: u64) -> (r: &'static str)
    requires
        d < 10,
    ensures
        r@ == seq![digit_char(d as nat)],
{
    proof {
        reveal_strlit("0");
        reveal_strlit("1");
        reveal_strlit("2");
        reveal_strlit("3");
        reveal_strlit("4");
        reveal_strlit("5");
        reveal_strlit("6");
        reveal_strlit("7");
        reveal_strlit("8");
        reveal_strlit("9");
    }
    if d == 0 {
        "0"
    } else if d == 1 {
        "1"
    } else if d == 2 {
        "2"
    } else if d == 3 {
        "3"
    } else if d == 4 {
        "4"
    } else if d == 5 {
        "5"
    } else if d == 6 {
        "6"
    } else if d == 7 {
        "7"
    } else if d == 8 {
        "8"
    } else {
        "9"
    }
}

/// Writes a number in decimal.
pub fn decimal(n: u64) -> (r: String)
    ensures
        r@ == decimal_text(n as nat),
    decreases n,
{
    if n < 10 {
        digit_text(n).to_owned()
    } else {
        let head = decimal(n / 10);
        let r = head.concat(digit_text(n % 10));
        assert(r@ =~= decimal_text(n as nat));
        r
    }
}

pub open spec fn is_digit(c: char) -> bool {
    '0' <= c <= '9'
}

pub open spec fn all_digits(s: Seq<char>) -> bool {
    forall|i: int| 0 <= i < s.len() ==> is_digit(#[trigger] s[i])
}

/// The number that a row of digits stands for.
pub open spec fn digits_value(s: Seq<char>) -> nat
    decreases s.len(),
{
    if s.len() == 0 {
        0
    } else {
        digits_value(s.drop_last()) * 10 + (s.last() as nat - '0' as nat) as nat
    }
}

/// Reads a decimal number no larger than `max`: digits only, at least one, after an
/// optional plus sign.
pub open spec fn decimal_value(s: Seq<char>, max: nat) -> Option<nat> {
    let digits = if s.len() > 0 && s[0] == '+' {
        s.skip(1)
    } else {
        s
    };
    if digits.len() > 0 && all_digits(digits) && digits_value(digits) <= max {
        Some(digits_value(digits))
    } else {
        None
    }
}

/// Reads a decimal number, as the standard library's integers parse from text.
pub fn parse_decimal(s: &str, max: u64) -> (r: Option<u64>)
    ensures
        r is Some <==> decimal_value(s@, max as nat) is Some,
        r matches Some(n) ==> n as nat == decimal_value(s@, max as nat)->0,
{
    let len: usize = s.unicode_len();
    let digits: &str = if len > 0 && s.get_char(0) == '+' {
        s.substring_char(1, len)
    } else {
        s
    };
    assert(s@.len() > 0 ==> s@.subrange(1, s@.len() as int) =~= s@.skip(1));
    let mut value: u64 = 0;
    let mut fits: bool = true;
    for c in it: digits.chars()
        invariant
            it.seq() == digits@,
            forall|i: int| 0 <= i < it.index() ==> is_digit(#[trigger] digits@[i]),
            fits ==> value as nat == digits_value(digits@.take(it.index())) && value <= max,
            !fits ==> digits_value(digits@.take(it.index())) > max,
            digits@ == (if s@.len() > 0 && s@[0] == '+' {
                s@.skip(1)
            } else {
                s@
            }),
    {
        assert(c == digits@[it.index() as int]);
        assert(digits@.take(it.index() + 1).drop_last() =~= digits@.take(it.index() as int));
        if c < '0' || c > '9' {
            assert(!is_digit(digits@[it.index() as int]));
            return None;
        }
        let d: u64 = c as u64 - '0' as u64;
        if fits {
            match value.checked_mul(10) {
                Some(tens) => match tens.checked_add(d) {
                    Some(sum) => {
                        value = sum;
                        fits = sum <= max;
                    },
                    None => {
                        fits = false;
                    },
                },
                None => {
                    fits = false;
                },
            }
        }
    }
    assert(digits@.take(digits@.len() as int) =~= digits@);
    if fits && !digits.is_empty() {
        Some(value)
    } else {
        None
    }
}

/// A text in lower case, by the rules of Unicode.
pub uninterp spec fn unicode_lowercase(s: Seq<char>) -> Seq<char>;

/// A text with the letters `A` to `Z` in lower case.
pub open spec fn ascii_lowercase(s: Seq<char>) -> Seq<char> {
    s.map_values(
        |c: char|
            if 'A' <= c <= 'Z' {
                (c as nat + 32) as char
            } else {
                c
            },
    )
}

/// A text in lower case.
pub open spec fn lowercase(s: Seq<char>) -> Seq<char> {
    if is_ascii_chars(s) {
        ascii_lowercase(s)
    } else {
        unicode_lowercase(s)
    }
}

/// Calls `str::to_lowercase`, which goes by Unicode alone. On ASCII it changes the
/// letters `A` to `Z` and nothing else. Of other texts it is left unsaid what their lower
/// case is, and that it is its own.
#[verifier::external_body]
pub(crate) fn to_lowercase(s: &str) -> (r: String)
    ensures
        r@ == unicode_lowercase(s@),
        is_ascii_chars(s@) ==> r@ == ascii_lowercase(s@),
{
    s.to_lowercase()
}

/// The longest prefix of a text that takes at most `limit` bytes in UTF-8.
pub open spec fn prefix_within(s: Seq<char>, limit: nat) -> Seq<char>
    decreases s.len(),
{
    if s.len() == 0 || encode_utf8(s).len() <= limit {
        s
    } else {
        prefix_within(s.drop_last(), limit)
    }
}

proof fn lemma_encode_concat(a: Seq<char>, b: Seq<char>)
    ensures
        encode_utf8(a + b) == encode_utf8(a) + encode_utf8(b),
    decreases a.len(),
{
    if a.len() == 0 {
        assert(a + b =~= b);
        assert(encode_utf8(a) + encode_utf8(b) =~= encode_utf8(b));
    } else {
        assert((a + b).drop_first() =~= a.drop_first() + b);
        lemma_encode_concat(a.drop_first(), b);
        assert(encode_scalar(a[0] as u32) + (encode_utf8(a.drop_first()) + encode_utf8(b))
            =~= (encode_scalar(a[0] as u32) + encode_utf8(a.drop_first())) + encode_utf8(b));
    }
}

proof fn lemma_encode_grows(s: Seq<char>)
    ensures
        s.len() <= encode_utf8(s).len(),
    decreases s.len(),
{
    if s.len() > 0 {
        lemma_encode_grows(s.drop_first());
    }
}

/// The end of a prefix is a character boundary.
proof fn lemma_prefix_boundary(s: Seq<char>, k: int)
    requires
        0 <= k <= s.len(),
    ensures
        is_char_boundary(encode_utf8(s), encode_utf8(s.take(k)).len() as int),
    decreases k,
{
    encode_utf8_valid_utf8(s);
    if k == 0 {
        assert(s.take(0) =~= Seq::<char>::empty());
    } else {
        let bytes = encode_utf8(s);
        let n = encode_utf8(s.take(k)).len() as int;
        lemma_encode_concat(s.take(k), s.skip(k));
        assert(s.take(k) + s.skip(k) =~= s);
        encode_utf8_first_scalar(s);
        assert(pop_first_scalar(bytes) =~= encode_utf8(s.drop_first()));
        assert(s.take(k).drop_first() =~= s.drop_first().take(k - 1));
        lemma_prefix_boundary(s.drop_first(), k - 1);
        lemma_encode_grows(s.take(k));
    }
}

/// A prefix that fits, while no longer one does, is the longest that fits.
proof fn lemma_prefix_within(s: Seq<char>, k: int, limit: nat)
    requires
        0 <= k <= s.len(),
        encode_utf8(s.take(k)).len() <= limit,
        forall|j: int| k < j <= s.len() ==> encode_utf8(#[trigger] s.take(j)).len() > limit,
    ensures
        prefix_within(s, limit) == s.take(k),
    decreases s.len(),
{
    assert(s.take(s.len() as int) =~= s);
    if k < s.len() {
        let t = s.drop_last();
        assert(t.take(k) =~= s.take(k));
        assert forall|j: int| k < j <= t.len() implies encode_utf8(#[trigger] t.take(j)).len()
            > limit by {
            assert(t.take(j) =~= s.take(j));
        }
        lemma_prefix_within(t, k, limit);
    }
}

/// Cuts a text down to at most `limit` bytes, between two characters.
pub fn clip(s: &str, limit: usize) -> (r: &str)
    ensures
        r@ == prefix_within(s@, limit as nat),
{
    let ghost bytes = encode_utf8(s@);
    proof {
        encode_utf8_valid_utf8(s@);
    }
    if s.as_bytes().len() <= limit {
        return s;
    }
    let mut end: usize = limit;
    proof {
        is_char_boundary_start_end_of_seq(bytes);
    }
    while !s.is_char_boundary(end)
        invariant
            end <= limit < bytes.len(),
            bytes == encode_utf8(s@),
            is_char_boundary(bytes, 0),
            forall|i: int| end < i <= limit ==> !is_char_boundary(bytes, i),
        decreases end,
    {
        end = end - 1;
    }
    let r = s.split_at(end).0;
    proof {
        let k = r@.len() as int;
        decode_utf8_split(bytes, end as int);
        valid_utf8_split(bytes, end as int);
        encode_utf8_decode_utf8(s@);
        encode_utf8_decode_utf8(r@);
        assert(s@.take(k) =~= r@);
        assert forall|j: int| k < j <= s@.len() implies encode_utf8(#[trigger] s@.take(j)).len()
            > limit by {
            lemma_prefix_boundary(s@, j);
            let more = s@.subrange(k, j);
            assert(s@.take(j) =~= r@ + more);
            lemma_encode_concat(r@, more);
            lemma_encode_grows(more);
        }
        lemma_prefix_within(s@, k, limit as nat);
    }
    r
}

/// Lower case turns the letters `A` to `Z` of an ASCII text into `a` to `z`, each in its
/// place, and nothing else; of other texts it is what Unicode says.
pub proof fn law_letters_are_lowered(s: Seq<char>, i: int)
    ensures
        is_ascii_chars(s) ==> lowercase(s).len() == s.len(),
        is_ascii_chars(s) && 0 <= i < s.len() ==> lowercase(s)[i] as nat == (if 65 <= s[i] as nat
            <= 90 {
            s[i] as nat + 32
        } else {
            s[i] as nat
        }),
        !is_ascii_chars(s) ==> lowercase(s) == unicode_lowercase(s),
{
}

} // verus!
