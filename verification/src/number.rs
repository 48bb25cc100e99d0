//! The text of a power value: which fields are numbers.
//!
//! The grammar is that of a decimal floating-point literal as the standard
//! library reads one:
//!
//! ```text
//! Number  ::= Sign? ( 'inf' | 'infinity' | 'nan' | Decimal )
//! Decimal ::= ( Digit+ | Digit+ '.' Digit* | Digit* '.' Digit+ ) Exp?
//! Exp     ::= 'e' Sign? Digit+
//! Sign    ::= [+-]
//! Digit   ::= [0-9]
//! ```
//!
//! Letters count in either case. Nothing may stand before or behind the
//! number, not even a blank.

use vstd::prelude::*;

verus! {

/// Whether `c` is one of the digits `0` to `9`.
pub open spec fn is_digit(c: char) -> bool {
    '0' <= c && c <= '9'
}

/// Whether `c` is `+` or `-`.
pub open spec fn is_sign(c: char) -> bool {
    c == '+' || c == '-'
}

/// The lower-case form of the letters that the grammar names; any other
/// character as it is.
pub open spec fn folded(c: char) -> char {
    if c == 'A' {
        'a'
    } else if c == 'E' {
        'e'
    } else if c == 'F' {
        'f'
    } else if c == 'I' {
        'i'
    } else if c == 'N' {
        'n'
    } else if c == 'T' {
        't'
    } else if c == 'Y' {
        'y'
    } else {
        c
    }
}

/// The end of the run of digits that starts at `from`: the index of the
/// first character from there on that is no digit, or the length of `s`.
pub open spec fn digits_end(s: Seq<char>, from: int) -> int
    decreases s.len() - from,
{
    if 0 <= from < s.len() && is_digit(s[from]) {
        digits_end(s, from + 1)
    } else {
        from
    }
}

/// The index behind a sign at `from`, or `from` where no sign stands there.
pub open spec fn sign_end(s: Seq<char>, from: int) -> int {
    if 0 <= from < s.len() && is_sign(s[from]) {
        from + 1
    } else {
        from
    }
}

/// Whether `s` from `from` to its end is `word`, in either case; `word` is
/// written in lower case.
pub open spec fn is_word(s: Seq<char>, from: int, word: Seq<char>) -> bool {
    &&& s.len() - from == word.len()
    &&& forall|i: int| 0 <= i < word.len() ==> folded(#[trigger] s[from + i]) == word[i]
}

/// Whether `s` from `from` to its end is `Exp`.
pub open spec fn is_exponent(s: Seq<char>, from: int) -> bool {
    &&& 0 <= from < s.len()
    &&& folded(s[from]) == 'e'
    &&& sign_end(s, from + 1) < digits_end(s, sign_end(s, from + 1))
    &&& digits_end(s, sign_end(s, from + 1)) == s.len()
}

/// Whether `s` from `from` to its end is `Decimal`.
pub open spec fn is_decimal(s: Seq<char>, from: int) -> bool {
    let whole_end = digits_end(s, from);
    let pointed = whole_end < s.len() && s[whole_end] == '.';
    let mantissa_end = if pointed {
        digits_end(s, whole_end + 1)
    } else {
        whole_end
    };
    let digits = if pointed {
        mantissa_end - from - 1
    } else {
        mantissa_end - from
    };
    &&& digits >= 1
    &&& mantissa_end == s.len() || is_exponent(s, mantissa_end)
}

/// Whether `s` is `Number`.
pub open spec fn is_number(s: Seq<char>) -> bool {
    let from = sign_end(s, 0);
    ||| is_decimal(s, from)
    ||| is_word(s, from, seq!['i', 'n', 'f'])
    ||| is_word(s, from, seq!['i', 'n', 'f', 'i', 'n', 'i', 't', 'y'])
    ||| is_word(s, from, seq!['n', 'a', 'n'])
}

/// The characters of `text`, one by one.
fn chars_of(text: &str) -> (chars: Vec<char>)
    ensures
        chars@ == text@,
{
    let mut chars: Vec<char> = Vec::new();
    for c in it: text.chars()
        invariant
            it.seq() == text@,
            chars@ == it.seq().take(it.index() as int),
    {
        chars.push(c);
    }
    chars
}

/// The end of the run of digits that starts at `from`.
fn scan_digits(chars: &Vec<char>, from: usize) -> (end: usize)
    requires
        from <= chars@.len(),
    ensures
        end == digits_end(chars@, from as int),
        from <= end <= chars@.len(),
{
    let mut end = from;
    while end < chars.len() && '0' <= chars[end] && chars[end] <= '9'
        invariant
            from <= end <= chars@.len(),
            digits_end(chars@, from as int) == digits_end(chars@, end as int),
        decreases chars@.len() - end,
    {
        end += 1;
    }
    end
}

/// The index behind a sign at `from`.
fn scan_sign(chars: &Vec<char>, from: usize) -> (end: usize)
    requires
        from <= chars@.len(),
    ensures
        end == sign_end(chars@, from as int),
        from <= end <= chars@.len(),
{
    if from < chars.len() && (chars[from] == '+' || chars[from] == '-') {
        from + 1
    } else {
        from
    }
}

/// The lower-case form of the letters that the grammar names.
fn fold(c: char) -> (r: char)
    ensures
        r == folded(c),
{
    if c == 'A' {
        'a'
    } else if c == 'E' {
        'e'
    } else if c == 'F' {
        'f'
    } else if c == 'I' {
        'i'
    } else if c == 'N' {
        'n'
    } else if c == 'T' {
        't'
    } else if c == 'Y' {
        'y'
    } else {
        c
    }
}

/// Whether `chars` from `from` to the end is `word`, in either case.
fn ends_in_word(chars: &Vec<char>, from: usize, word: &Vec<char>) -> (r: bool)
    requires
        from <= chars@.len(),
    ensures
        r == is_word(chars@, from as int, word@),
{
    if chars.len() - from != word.len() {
        return false;
    }
    let mut i: usize = 0;
    while i < word.len()
        invariant
            i <= word@.len(),
            from <= chars@.len(),
            chars@.len() - from == word@.len(),
            forall|j: int| 0 <= j < i ==> folded(#[trigger] chars@[from + j]) == word@[j],
        decreases word@.len() - i,
    {
        assert(from + i < chars.len());
        if fold(chars[from + i]) != word[i] {
            return false;
        }
        i += 1;
    }
    true
}

/// Whether `chars` from `from` to the end is `Exp`.
fn ends_in_exponent(chars: &Vec<char>, from: usize) -> (r: bool)
    requires
        from <= chars@.len(),
    ensures
        r == is_exponent(chars@, from as int),
{
    if from >= chars.len() || fold(chars[from]) != 'e' {
        return false;
    }
    let digits_from = scan_sign(chars, from + 1);
    let end = scan_digits(chars, digits_from);
    digits_from < end && end == chars.len()
}

/// Whether `chars` from `from` to the end is `Decimal`.
fn ends_in_decimal(chars: &Vec<char>, from: usize) -> (r: bool)
    requires
        from <= chars@.len(),
    ensures
        r == is_decimal(chars@, from as int),
{
    let whole_end = scan_digits(chars, from);
    let pointed = whole_end < chars.len() && chars[whole_end] == '.';
    let mantissa_end = if pointed {
        scan_digits(chars, whole_end + 1)
    } else {
        whole_end
    };
    let digits = if pointed {
        mantissa_end - from - 1
    } else {
        mantissa_end - from
    };
    digits >= 1 && (mantissa_end == chars.len() || ends_in_exponent(chars, mantissa_end))
}

/// Whether `text` is a number: a decimal literal with an optional sign,
/// fraction and exponent, or one of `inf`, `infinity` and `nan`.
pub fn is_number_text(text: &str) -> (r: bool)
    ensures
        r == is_number(text@),
{
    let chars = chars_of(text);
    let from = scan_sign(&chars, 0);
    if ends_in_decimal(&chars, from) {
        return true;
    }
    let inf: Vec<char> = vec!['i', 'n', 'f'];
    let infinity: Vec<char> = vec!['i', 'n', 'f', 'i', 'n', 'i', 't', 'y'];
    let nan: Vec<char> = vec!['n', 'a', 'n'];
    assert(inf@ =~= seq!['i', 'n', 'f']);
    assert(infinity@ =~= seq!['i', 'n', 'f', 'i', 'n', 'i', 't', 'y']);
    assert(nan@ =~= seq!['n', 'a', 'n']);
    ends_in_word(&chars, from, &inf) || ends_in_word(&chars, from, &infinity) || ends_in_word(
        &chars,
        from,
        &nan,
    )
}

} // verus!
