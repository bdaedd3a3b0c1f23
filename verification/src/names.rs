//! Identifier derivation: snake_case and UPPER_SNAKE_CASE conversion,
//! synthesized positional identities, and the canonical accessor names.
//!
//! Derivation is a pure, total function of the input identifier: the same
//! identifier always yields the same names, and the function accessor name
//! and constant accessor name of one variant never collide.

use vstd::prelude::*;

verus! {

use vstd::string::StrSliceExecFns;
use vstd::string::StringExecFns;

/// An ASCII upper-case letter.
pub open spec fn is_ascii_upper_char(c: char) -> bool {
    65 <= (c as u32) && (c as u32) <= 90
}

/// An ASCII lower-case letter.
pub open spec fn is_ascii_lower_char(c: char) -> bool {
    97 <= (c as u32) && (c as u32) <= 122
}

/// The ASCII lower-case counterpart of `c`; other characters unchanged.
pub open spec fn to_ascii_lower_char(c: char) -> char {
    if is_ascii_upper_char(c) {
        (((c as u32) + 32) as u8) as char
    } else {
        c
    }
}

/// The ASCII upper-case counterpart of `c`; other characters unchanged.
pub open spec fn to_ascii_upper_char(c: char) -> char {
    if is_ascii_lower_char(c) {
        (((c as u32) - 32) as u8) as char
    } else {
        c
    }
}

/// What one character contributes to the snake_case conversion: an ASCII
/// upper-case letter is lowered and, except at the start, prefixed with an
/// underscore; every other character is kept as it is.
pub open spec fn snake_char(c: char, first: bool) -> Seq<char> {
    if is_ascii_upper_char(c) {
        if first {
            seq![to_ascii_lower_char(c)]
        } else {
            seq!['_', to_ascii_lower_char(c)]
        }
    } else {
        seq![c]
    }
}

/// The snake_case conversion of the first `i` characters of `s`.
pub open spec fn snake_upto(s: Seq<char>, i: int) -> Seq<char>
    decreases i,
{
    if i <= 0 {
        Seq::empty()
    } else {
        snake_upto(s, i - 1) + snake_char(s[i - 1], i - 1 == 0)
    }
}

/// The snake_case conversion of an identifier: `StructVariant` becomes
/// `struct_variant`.
pub open spec fn snake_of(s: Seq<char>) -> Seq<char> {
    snake_upto(s, s.len() as int)
}

/// The ASCII upper-case conversion of a character sequence.
pub open spec fn upper_of(s: Seq<char>) -> Seq<char> {
    s.map(|i: int, c: char| to_ascii_upper_char(c))
}

/// The decimal digit character for `d` (0 through 9).
pub open spec fn dec_digit_char(d: int) -> char
    recommends
        0 <= d < 10,
{
    ((48 + d) as u8) as char
}

/// The decimal digits of `n`, most significant first, without leading
/// zeros (a single `0` for zero itself).
pub open spec fn dec_digits(n: int) -> Seq<char>
    recommends
        n >= 0,
    decreases n,
{
    if n < 10 {
        seq![dec_digit_char(n)]
    } else {
        dec_digits(n / 10).push(dec_digit_char(n % 10))
    }
}

/// The synthesized identity of the positional member at index `i`:
/// `field_i`.
pub open spec fn positional_ident_spec(i: int) -> Seq<char> {
    "field_"@ + dec_digits(i)
}

/// The function accessor name of a variant: `default_` plus the
/// snake_case of the variant identity.
pub open spec fn function_accessor_spec(v: Seq<char>) -> Seq<char> {
    "default_"@ + snake_of(v)
}

/// The constant accessor name of a variant: the UPPER_SNAKE_CASE of the
/// variant identity.
pub open spec fn constant_accessor_spec(v: Seq<char>) -> Seq<char> {
    upper_of(snake_of(v))
}

/// Relies on std's `FromIterator<char>` for `String`: collecting an
/// iterator of characters concatenates exactly those characters.
#[verifier::external_body]
fn chars_to_string(v: Vec<char>) -> (r: String)
    ensures
        r@ == v@,
{
    String::from_iter(v)
}

/// Character-wise string comparison.
pub fn str_eq(a: &str, b: &str) -> (r: bool)
    ensures
        r == (a@ == b@),
{
    let n: usize = a.unicode_len();
    let m: usize = b.unicode_len();
    if n != m {
        assert(a@ != b@);
        return false;
    }
    let mut i: usize = 0;
    while i < n
        invariant
            i <= n,
            n == a@.len(),
            n == b@.len(),
            forall|j: int| 0 <= j < i ==> a@[j] == b@[j],
        decreases n - i,
    {
        if a.get_char(i) != b.get_char(i) {
            return false;
        }
        i += 1;
    }
    assert(a@ =~= b@);
    true
}

/// The snake_case conversion of an identifier.
pub fn snake_ident(s: &str) -> (r: String)
    ensures
        r@ == snake_of(s@),
{
    let n: usize = s.unicode_len();
    let mut out: Vec<char> = Vec::new();
    let mut i: usize = 0;
    while i < n
        invariant
            i <= n,
            n == s@.len(),
            out@ == snake_upto(s@, i as int),
        decreases n - i,
    {
        let c = s.get_char(i);
        let cu: u32 = c as u32;
        if 65 <= cu && cu <= 90 {
            if i != 0 {
                out.push('_');
            }
            out.push(((cu + 32) as u8) as char);
        } else {
            out.push(c);
        }
        assert(out@ =~= snake_upto(s@, i + 1));
        i += 1;
    }
    chars_to_string(out)
}

/// The ASCII upper-case conversion of a string.
pub fn upper_ascii(s: &str) -> (r: String)
    ensures
        r@ == upper_of(s@),
{
    let n: usize = s.unicode_len();
    let mut out: Vec<char> = Vec::new();
    let mut i: usize = 0;
    while i < n
        invariant
            i <= n,
            n == s@.len(),
            out@ == upper_of(s@.take(i as int)),
        decreases n - i,
    {
        let c = s.get_char(i);
        let cu: u32 = c as u32;
        if 97 <= cu && cu <= 122 {
            out.push(((cu - 32) as u8) as char);
        } else {
            out.push(c);
        }
        assert(out@ =~= upper_of(s@.take(i + 1)));
        i += 1;
    }
    assert(s@.take(n as int) =~= s@);
    chars_to_string(out)
}

/// Writes the decimal digits of `n` onto the end of `out`.
fn push_dec_digits(n: usize, out: &mut Vec<char>)
    ensures
        final(out)@ == old(out)@ + dec_digits(n as int),
    decreases n,
{
    if n < 10 {
        out.push((48 + n as u8) as char);
        assert(out@ =~= old(out)@ + dec_digits(n as int));
    } else {
        assert(n / 10 < n) by (nonlinear_arith)
            requires
                n >= 10,
        ;
        push_dec_digits(n / 10, out);
        let d: usize = n % 10;
        out.push((48 + d as u8) as char);
        assert(out@ =~= old(out)@ + dec_digits(n as int));
    }
}

/// The synthesized identity of the positional member at index `i`.
pub fn positional_ident(i: usize) -> (r: String)
    ensures
        r@ == positional_ident_spec(i as int),
{
    let mut digits: Vec<char> = Vec::new();
    push_dec_digits(i, &mut digits);
    let tail = chars_to_string(digits);
    let head = String::from_str("field_");
    head.concat(tail.as_str())
}

/// The function accessor name of a variant identity.
pub fn function_accessor_name(v: &str) -> (r: String)
    ensures
        r@ == function_accessor_spec(v@),
{
    let tail = snake_ident(v);
    let head = String::from_str("default_");
    head.concat(tail.as_str())
}

/// The constant accessor name of a variant identity.
pub fn constant_accessor_name(v: &str) -> (r: String)
    ensures
        r@ == constant_accessor_spec(v@),
{
    let snake = snake_ident(v);
    upper_ascii(snake.as_str())
}

/// The two accessor names derived for one variant never collide: the
/// function accessor name starts with a lower-case `d`, which the
/// upper-cased constant accessor name cannot contain at that position.
pub proof fn lemma_accessor_names_distinct(v: Seq<char>)
    ensures
        function_accessor_spec(v) != constant_accessor_spec(v),
{
    reveal_strlit("default_");
    let f = function_accessor_spec(v);
    let c = constant_accessor_spec(v);
    assert(f.len() >= 8);
    assert(f[0] == 'd');
    if c.len() == 0 {
        assert(f != c);
    } else {
        let s0 = snake_of(v)[0];
        assert(c[0] == to_ascii_upper_char(s0));
        assert((to_ascii_upper_char(s0) as u32) != ('d' as u32));
        assert(c[0] != 'd');
        assert(f != c);
    }
}

} // verus!
