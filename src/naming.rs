//! Event naming convention: snake_case checks and the suggested spelling.
use vstd::prelude::*;
use vstd::string::*;

verus! {

/// Whether Unicode classifies `c` as uppercase (as `char::is_uppercase` reports).
pub uninterp spec fn is_upper_char(c: char) -> bool;

/// Whether Unicode classifies `c` as lowercase (as `char::is_lowercase` reports).
pub uninterp spec fn is_lower_char(c: char) -> bool;

/// The characters of the Unicode lowercase mapping of `c` (as `char::to_lowercase` yields them).
pub uninterp spec fn lowercase_of(c: char) -> Seq<char>;

/// Relies on `char::is_uppercase`: the Unicode `Uppercase` property of `c`.
#[verifier::external_body]
fn is_upper(c: char) -> (r: bool)
    ensures
        r == is_upper_char(c),
{
    c.is_uppercase()
}

/// Relies on `char::is_lowercase`: the Unicode `Lowercase` property of `c`.
#[verifier::external_body]
fn is_lower(c: char) -> (r: bool)
    ensures
        r == is_lower_char(c),
{
    c.is_lowercase()
}

/// Relies on `char::to_lowercase`: the characters of the lowercase mapping of `c`.
#[verifier::external_body]
fn lowercase_chars(c: char) -> (r: Vec<char>)
    ensures
        r@ == lowercase_of(c),
{
    c.to_lowercase().collect()
}

/// Relies on `String::push`: appends one character.
#[verifier::external_body]
pub(crate) fn push_char(s: &mut String, c: char)
    ensures
        final(s)@ == old(s)@.push(c),
{
    s.push(c)
}

pub open spec fn is_digit_char(c: char) -> bool {
    '0' <= c && c <= '9'
}

/// A word boundary falls before the uppercase character at `i`: not at the
/// start, not right after an underscore, after a lowercase character or
/// before one, and inside a run of capitals only where a lowercase follows.
pub open spec fn underscore_before(s: Seq<char>, i: int) -> bool {
    let prev_lower = i > 0 && is_lower_char(s[i - 1]);
    let prev_upper = i > 0 && is_upper_char(s[i - 1]);
    let prev_underscore = i > 0 && s[i - 1] == '_';
    let next_lower = i + 1 < s.len() && is_lower_char(s[i + 1]);
    i > 0 && !prev_underscore && (prev_lower || next_lower) && (!prev_upper || next_lower)
}

/// What the character at `i` becomes in snake_case.
pub open spec fn snake_piece(s: Seq<char>, i: int) -> Seq<char> {
    if is_upper_char(s[i]) {
        (if underscore_before(s, i) {
            seq!['_']
        } else {
            Seq::<char>::empty()
        }) + lowercase_of(s[i])
    } else {
        seq![s[i]]
    }
}

/// The snake_case spelling of the first `n` characters of `s`.
pub open spec fn snake_prefix(s: Seq<char>, n: int) -> Seq<char>
    decreases n,
{
    if n <= 0 {
        Seq::<char>::empty()
    } else {
        snake_prefix(s, n - 1) + snake_piece(s, n - 1)
    }
}

pub open spec fn snake_case_of(s: Seq<char>) -> Seq<char> {
    snake_prefix(s, s.len() as int)
}

/// Whether `s` is snake_case: non-empty, only lowercase letters, ASCII
/// digits and underscores, no underscore at either end, none doubled.
pub open spec fn snake_case_spelling(s: Seq<char>) -> bool {
    &&& s.len() > 0
    &&& s[0] != '_'
    &&& s[s.len() - 1] != '_'
    &&& forall|i: int|
        0 <= i < s.len() ==> (is_lower_char(#[trigger] s[i]) || is_digit_char(s[i]) || s[i] == '_')
    &&& forall|i: int| 0 <= i < s.len() - 1 ==> !(#[trigger] s[i] == '_' && s[i + 1] == '_')
}

/// Converts PascalCase or camelCase to snake_case, keeping acronyms together
/// (`HTTPRequest` becomes `http_request`).
pub fn to_snake_case(s: &str) -> (r: String)
    ensures
        r@ == snake_case_of(s@),
{
    let n = s.unicode_len();
    let mut result = String::new();
    let mut i: usize = 0;
    while i < n
        invariant
            n == s@.len(),
            i <= n,
            result@ == snake_prefix(s@, i as int),
        decreases n - i,
    {
        let ch = s.get_char(i);
        if is_upper(ch) {
            let prev_lower = i > 0 && is_lower(s.get_char(i - 1));
            let prev_upper = i > 0 && is_upper(s.get_char(i - 1));
            let prev_underscore = i > 0 && s.get_char(i - 1) == '_';
            let next_lower = i + 1 < n && is_lower(s.get_char(i + 1));
            let lower = lowercase_chars(ch);
            let ghost before = result@;
            if i > 0 && !prev_underscore && (prev_lower || next_lower) && (!prev_upper
                || next_lower) {
                push_char(&mut result, '_');
            }
            let ghost mid = result@;
            let mut k: usize = 0;
            while k < lower.len()
                invariant
                    k <= lower@.len(),
                    result@ == mid + lower@.subrange(0, k as int),
                decreases lower@.len() - k,
            {
                push_char(&mut result, lower[k]);
                assert(lower@.subrange(0, k + 1) == lower@.subrange(0, k as int).push(lower@[k as int]));
                k = k + 1;
            }
            assert(lower@.subrange(0, lower@.len() as int) == lower@);
            assert(result@ == snake_prefix(s@, i + 1));
        } else {
            push_char(&mut result, ch);
        }
        i = i + 1;
    }
    result
}

/// Whether `s` follows the snake_case convention that event names must use.
pub fn is_snake_case(s: &str) -> (r: bool)
    ensures
        r == snake_case_spelling(s@),
{
    let n = s.unicode_len();
    if n == 0 {
        return false;
    }
    if s.get_char(0) == '_' || s.get_char(n - 1) == '_' {
        return false;
    }
    let mut prev_underscore = false;
    let mut i: usize = 0;
    while i < n
        invariant
            n == s@.len(),
            n > 0,
            s@[0] != '_',
            s@[n - 1] != '_',
            i <= n,
            prev_underscore == (i > 0 && s@[i - 1] == '_'),
            forall|j: int|
                0 <= j < i ==> (is_lower_char(#[trigger] s@[j]) || is_digit_char(s@[j]) || s@[j]
                    == '_'),
            forall|j: int| 0 <= j < i - 1 ==> !(#[trigger] s@[j] == '_' && s@[j + 1] == '_'),
        decreases n - i,
    {
        let ch = s.get_char(i);
        if !is_lower(ch) && !('0' <= ch && ch <= '9') && ch != '_' {
            assert(!(is_lower_char(s@[i as int]) || is_digit_char(s@[i as int]) || s@[i as int] == '_'));
            return false;
        }
        if ch == '_' {
            if prev_underscore {
                assert(s@[i - 1] == '_' && s@[(i - 1) + 1] == '_');
                return false;
            }
            prev_underscore = true;
        } else {
            prev_underscore = false;
        }
        i = i + 1;
    }
    true
}

} // verus!
