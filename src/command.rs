use vstd::prelude::*;

verus! {

/// Why a command line could not be read.
#[derive(Debug, Clone, Copy, PartialEq, Eq, Structural)]
pub enum ParseError {
    /// The line holds no word.
    MissingCommand,
    /// A word after the command is not a number.
    InvalidCoordinates,
}

impl ParseError {
    /// A short message for the player.
    pub fn message(&self) -> (r: &'static str)
        ensures
            r@ == match *self {
                ParseError::MissingCommand => "Missing command"@,
                ParseError::InvalidCoordinates => "Invalid coordinates"@,
            },
    {
        match self {
            ParseError::MissingCommand => "Missing command",
            ParseError::InvalidCoordinates => "Invalid coordinates",
        }
    }
}

/// The words of a text: its maximal runs of characters other than Unicode
/// white space, in order.
pub uninterp spec fn words_of(s: Seq<char>) -> Seq<Seq<char>>;

/// Relies on `str::split_whitespace`: the words of the text, in order.
#[verifier::external_body]
fn split_words(s: &str) -> (r: Vec<String>)
    ensures
        r@.map_values(|w: String| w@) == words_of(s@),
{
    s.split_whitespace().map(|w| w.to_string()).collect()
}

/// An ASCII decimal digit.
pub open spec fn is_digit(c: char) -> bool {
    '0' <= c <= '9'
}

/// Value of a run of decimal digits.
pub open spec fn decimal(s: Seq<char>) -> int
    decreases s.len(),
{
    if s.len() == 0 {
        0
    } else {
        decimal(s.drop_last()) * 10 + (s.last() as int - '0' as int)
    }
}

/// A `usize` written in decimal: an optional `+`, then at least one digit,
/// with a value that fits.
pub open spec fn usize_of(s: Seq<char>) -> Option<usize> {
    let digits = if s.len() > 0 && s[0] == '+' { s.drop_first() } else { s };
    if digits.len() > 0 && all_digits(digits) && decimal(digits) <= usize::MAX {
        Some(decimal(digits) as usize)
    } else {
        None
    }
}

/// Every character is a decimal digit.
pub open spec fn all_digits(s: Seq<char>) -> bool {
    forall|i: int| 0 <= i < s.len() ==> is_digit(#[trigger] s[i])
}

/// A run of digits has a value of at least zero.
proof fn lemma_decimal_nonneg(d: Seq<char>)
    requires
        all_digits(d),
    ensures
        decimal(d) >= 0,
    decreases d.len(),
{
    if d.len() > 0 {
        lemma_decimal_nonneg(d.drop_last());
    }
}

/// Appending digits never makes the value smaller.
proof fn lemma_decimal_prefix(d: Seq<char>, j: int)
    requires
        all_digits(d),
        0 <= j <= d.len(),
    ensures
        decimal(d.take(j)) <= decimal(d),
    decreases d.len(),
{
    if j == d.len() {
        assert(d.take(j) =~= d);
    } else {
        lemma_decimal_prefix(d.drop_last(), j);
        lemma_decimal_nonneg(d.drop_last());
        assert(d.drop_last().take(j) =~= d.take(j));
    }
}

/// Reads a `usize` written in decimal, as `usize`'s `FromStr` does.
pub fn parse_usize(s: &str) -> (r: Option<usize>)
    ensures
        r == usize_of(s@),
{
    let ghost cs = s@;
    let ghost d = if cs.len() > 0 && cs[0] == '+' { cs.drop_first() } else { cs };
    if !s.is_ascii() {
        proof {
            let k = choose|k: int| 0 <= k < cs.len() && !('\0' <= #[trigger] cs[k] <= '\u{7f}');
            if cs.len() > 0 && cs[0] == '+' {
                assert(d[k - 1] == cs[k]);
                assert(!is_digit(d[k - 1]));
            } else {
                assert(d[k] == cs[k]);
                assert(!is_digit(d[k]));
            }
            assert(!all_digits(d));
        }
        return None;
    }
    let bytes = s.as_bytes();
    proof {
        vstd::string::is_ascii_spec_bytes(s);
    }
    let n = bytes.len();
    assert(n == cs.len());
    let start: usize = if n > 0 && bytes[0] == 43u8 { 1 } else { 0 };
    assert(d =~= cs.skip(start as int));
    if start >= n {
        return None;
    }
    let mut value: usize = 0;
    let mut i: usize = start;
    while i < n
        invariant
            n == cs.len(),
            bytes@ == Seq::new(cs.len(), |j: int| cs[j] as u8),
            forall|j: int| 0 <= j < cs.len() ==> '\0' <= #[trigger] cs[j] <= '\u{7f}',
            d == cs.skip(start as int),
            cs == s@,
            d == if cs.len() > 0 && cs[0] == '+' { cs.drop_first() } else { cs },
            start <= i <= n,
            all_digits(d.take(i - start)),
            value as int == decimal(d.take(i - start)),
        decreases n - i,
    {
        let b = bytes[i];
        assert(b == cs[i as int] as u8);
        assert(b as int == cs[i as int] as int);
        assert(d[i - start] == cs[i as int]);
        if b < 48u8 || b > 57u8 {
            assert(!is_digit(d[i - start]));
            assert(!all_digits(d));
            return None;
        }
        assert(is_digit(d[i - start]));
        let digit = (b - 48u8) as usize;
        assert(d.take(i - start + 1).drop_last() =~= d.take(i - start));
        assert(digit as int == d[i - start] as int - '0' as int);
        if value > (usize::MAX - digit) / 10 {
            proof {
                assert(value * 10 + digit > usize::MAX) by (nonlinear_arith)
                    requires
                        value > (usize::MAX - digit) / 10,
                        digit <= 9,
                ;
                if all_digits(d) {
                    lemma_decimal_prefix(d, i - start + 1);
                    assert(decimal(d) > usize::MAX);
                }
            }
            return None;
        }
        assert(value * 10 + digit <= usize::MAX) by (nonlinear_arith)
            requires
                value <= (usize::MAX - digit) / 10,
                digit <= 9,
        ;
        value = value * 10 + digit;
        i = i + 1;
        assert(all_digits(d.take(i - start)));
    }
    assert(d.take(n - start) =~= d);
    Some(value)
}

/// Every word is a number.
pub open spec fn all_numbers(words: Seq<Seq<char>>) -> bool {
    forall|i: int| 0 <= i < words.len() ==> (#[trigger] usize_of(words[i])) is Some
}

/// The numbers that the words stand for.
pub open spec fn numbers_of(words: Seq<Seq<char>>) -> Seq<usize> {
    words.map_values(|w: Seq<char>| usize_of(w)->Some_0)
}

/// The texts of a list of words.
pub open spec fn texts(words: Seq<String>) -> Seq<Seq<char>> {
    words.map_values(|s: String| s@)
}

/// Reads a command from its words: the first word is the command, every
/// later word must be a number.
pub fn parse_words(words: Vec<String>) -> (r: Result<(String, Vec<usize>), ParseError>)
    ensures
        words@.len() == 0 <==> r == Err::<(String, Vec<usize>), ParseError>(ParseError::MissingCommand),
        words@.len() > 0 && !all_numbers(texts(words@).drop_first()) <==> r == Err::<
            (String, Vec<usize>),
            ParseError,
        >(ParseError::InvalidCoordinates),
        r matches Ok((command, coordinates)) ==> command@ == words@[0]@ && coordinates@ == numbers_of(
            texts(words@).drop_first(),
        ),
{
    let ghost w = texts(words@);
    if words.len() == 0 {
        return Err(ParseError::MissingCommand);
    }
    let mut list = words;
    let mut coordinates: Vec<usize> = Vec::new();
    let mut i: usize = 1;
    while i < list.len()
        invariant
            w == texts(words@),
            list@ == words@,
            w.len() == words@.len(),
            1 <= i <= words@.len(),
            coordinates@ == numbers_of(w.subrange(1, i as int)),
            all_numbers(w.subrange(1, i as int)),
        decreases words@.len() - i,
    {
        assert(words@[i as int]@ == w[i as int]);
        match parse_usize(list[i].as_str()) {
            Some(n) => {
                coordinates.push(n);
                proof {
                    assert(w.subrange(1, i + 1) =~= w.subrange(1, i as int).push(w[i as int]));
                    assert(coordinates@ =~= numbers_of(w.subrange(1, i + 1)));
                }
            },
            None => {
                proof {
                    assert(w.drop_first()[i - 1] == w[i as int]);
                    assert(usize_of(w.drop_first()[i - 1]) is None);
                }
                return Err(ParseError::InvalidCoordinates);
            },
        }
        i = i + 1;
    }
    proof {
        assert(w.subrange(1, i as int) =~= w.drop_first());
    }
    let command = list.remove(0);
    Ok((command, coordinates))
}

/// Splits a command line into its first word and the numbers after it.
pub fn parse_input(input: &str) -> (r: Result<(String, Vec<usize>), ParseError>)
    ensures
        words_of(input@).len() == 0 <==> r == Err::<(String, Vec<usize>), ParseError>(
            ParseError::MissingCommand,
        ),
        words_of(input@).len() > 0 && !all_numbers(words_of(input@).drop_first()) <==> r == Err::<
            (String, Vec<usize>),
            ParseError,
        >(ParseError::InvalidCoordinates),
        r matches Ok((command, coordinates)) ==> command@ == words_of(input@)[0] && coordinates@
            == numbers_of(words_of(input@).drop_first()),
{
    let words = split_words(input);
    proof {
        assert(texts(words@).len() == words@.len());
        if words@.len() > 0 {
            assert(texts(words@)[0] == words@[0]@);
        }
    }
    parse_words(words)
}

} // verus!
