//! Path expressions: the dot and bracket notation that names a location in a
//! body, its grammar, and how well a concrete path matches an expression.

use vstd::prelude::*;
use crate::text::{
    chars_of, decimal, decimal_string, is_letter, is_numeral, letter, numeral,
    parse_unsigned, parse_unsigned_range, push_char, str_eq, string_of_range, unsigned_of,
};

verus! {

/// One element of a parsed path expression.
#[derive(Debug, Clone, PartialEq, Eq, Hash)]
pub enum PathToken {
    /// The root marker `$`.
    Root,
    /// A named field.
    Field(String),
    /// A position in an array.
    Index(usize),
    /// Any field: `.*`.
    Star,
    /// Any position in an array: `[*]`.
    StarIndex,
}

/// The mathematical value of a `PathToken`.
pub enum Token {
    Root,
    Field(Seq<char>),
    Index(usize),
    Star,
    StarIndex,
}

impl View for PathToken {
    type V = Token;

    open spec fn view(&self) -> Token {
        match self {
            PathToken::Root => Token::Root,
            PathToken::Field(name) => Token::Field(name@),
            PathToken::Index(n) => Token::Index(*n),
            PathToken::Star => Token::Star,
            PathToken::StarIndex => Token::StarIndex,
        }
    }
}

impl PathToken {
    /// A copy of this token.
    pub fn duplicate(&self) -> (r: PathToken)
        ensures
            r@ == self@,
    {
        match self {
            PathToken::Root => PathToken::Root,
            PathToken::Field(name) => PathToken::Field(name.clone()),
            PathToken::Index(n) => PathToken::Index(*n),
            PathToken::Star => PathToken::Star,
            PathToken::StarIndex => PathToken::StarIndex,
        }
    }
}

/// The mathematical values of a run of tokens.
pub open spec fn tokens_model(tokens: Seq<PathToken>) -> Seq<Token> {
    tokens.map_values(|t: PathToken| t@)
}

/// Why a text is not a path expression. Every `index` counts characters from
/// the start of the text, except that of `UnterminatedBrackets`, which is the
/// position of the last byte of the text.
#[derive(Debug, Clone, Copy, PartialEq, Eq)]
pub enum PathError {
    /// The text starts with neither `$` nor an identifier.
    MissingRoot,
    /// Something other than `.` or `[` follows a complete element.
    ExpectedSeparator { found: char, index: usize },
    /// The text ends after the `.` at `index`.
    ExpectedPath { index: usize },
    /// Neither `*` nor an identifier follows a `.`.
    ExpectedStarOrIdentifier { index: usize },
    /// A character that cannot be part of an identifier.
    InvalidIdentifier { found: char, index: usize },
    /// A quoted name with nothing between the quotes.
    EmptyString { index: usize },
    /// A quoted name without its closing quote.
    UnterminatedString { index: usize },
    /// Something other than a number or `*` between brackets.
    InvalidIndex { found: char, index: usize },
    /// A number between brackets that is no array position on this machine;
    /// `index` is where the number starts.
    IndexOutOfRange { index: usize },
    /// Brackets with nothing between them.
    EmptyBrackets { index: usize },
    /// Something other than `]` after the content of brackets.
    UnclosedBrackets { found: char, index: usize },
    /// The text ends before the closing bracket.
    UnterminatedBrackets { index: usize },
    /// The text ends after the `[` at `index`.
    ExpectedQuoteOrDigit { index: usize },
}

/// A character that may appear in an identifier.
pub open spec fn identifier_char(c: char) -> bool {
    letter(c) || numeral(c) || c == '_' || c == '-' || c == ':' || c == '#' || c == '@'
}

/// Where the identifier ends that is being read at position `i`: at the end
/// of the text or in front of the `.`, `'` or `[` that follows it. Any other
/// character that is not an identifier character is an error.
pub open spec fn identifier_end(s: Seq<char>, i: int) -> Result<int, PathError>
    decreases s.len() - i,
{
    if i >= s.len() {
        Ok(i)
    } else if identifier_char(s[i]) {
        identifier_end(s, i + 1)
    } else if s[i] == '.' || s[i] == '\'' || s[i] == '[' {
        Ok(i)
    } else {
        Err(PathError::InvalidIdentifier { found: s[i], index: i as usize })
    }
}

/// The element that follows a `.`, where `i` is the position after the dot:
/// the token and the position after it.
pub open spec fn dot_segment(s: Seq<char>, i: int) -> Result<(Token, int), PathError> {
    if i >= s.len() {
        Err(PathError::ExpectedPath { index: (i - 1) as usize })
    } else if s[i] == '*' {
        Ok((Token::Star, i + 1))
    } else if identifier_char(s[i]) {
        match identifier_end(s, i + 1) {
            Ok(e) => Ok((Token::Field(s.subrange(i, e)), e)),
            Err(x) => Err(x),
        }
    } else {
        Err(PathError::ExpectedStarOrIdentifier { index: i as usize })
    }
}

/// The position of the first `'` at or after `i`, or the length of the text
/// where there is none.
pub open spec fn quote_position(s: Seq<char>, i: int) -> int
    decreases s.len() - i,
{
    if i >= s.len() {
        i
    } else if s[i] == '\'' {
        i
    } else {
        quote_position(s, i + 1)
    }
}

/// The quoted name whose opening quote is at `i - 1`: the token and the
/// position after the closing quote.
pub open spec fn quoted_segment(s: Seq<char>, i: int) -> Result<(Token, int), PathError> {
    let q = quote_position(s, i);
    if i >= s.len() {
        Err(PathError::UnterminatedString { index: (i - 1) as usize })
    } else if q >= s.len() {
        Err(PathError::UnterminatedString { index: (s.len() - 1) as usize })
    } else if q == i {
        Err(PathError::EmptyString { index: q as usize })
    } else {
        Ok((Token::Field(s.subrange(i, q)), q + 1))
    }
}

/// The position of the first character at or after `i` that is no numeral,
/// or the length of the text where there is none.
pub open spec fn numeric_end(s: Seq<char>, i: int) -> int
    decreases s.len() - i,
{
    if i >= s.len() {
        i
    } else if numeral(s[i]) {
        numeric_end(s, i + 1)
    } else {
        i
    }
}

/// The array position that starts with the numeral at `i`: the
/// token and the position after the number.
pub open spec fn index_segment(s: Seq<char>, i: int) -> Result<(Token, int), PathError> {
    let e = numeric_end(s, i + 1);
    if e < s.len() && s[e] != ']' {
        Err(PathError::InvalidIndex { found: s[e], index: e as usize })
    } else {
        match unsigned_of(s.subrange(i, e)) {
            Some(n) => Ok((Token::Index(n), e)),
            None => Err(PathError::IndexOutOfRange { index: i as usize }),
        }
    }
}

/// What stands between brackets, where `i` is the position after the `[`:
/// the token and the position at which the `]` is due.
pub open spec fn bracket_content(s: Seq<char>, i: int) -> Result<(Token, int), PathError> {
    if i >= s.len() {
        Err(PathError::ExpectedQuoteOrDigit { index: (i - 1) as usize })
    } else if s[i] == '\'' {
        quoted_segment(s, i + 1)
    } else if numeral(s[i]) {
        index_segment(s, i)
    } else if s[i] == '*' {
        Ok((Token::StarIndex, i + 1))
    } else if s[i] == ']' {
        Err(PathError::EmptyBrackets { index: i as usize })
    } else {
        Err(PathError::InvalidIndex { found: s[i], index: i as usize })
    }
}

/// The length in bytes of the text `s` in UTF-8, as `str::len` gives it.
pub open spec fn byte_length(s: Seq<char>) -> usize {
    vstd::utf8::encode_utf8(s).len() as usize
}

/// The position of the last byte of a text of `bytes` bytes.
pub open spec fn last_byte(bytes: usize) -> usize {
    if bytes > 0 {
        (bytes - 1) as usize
    } else {
        0
    }
}

/// The element in brackets, where `i` is the position after the `[`: the
/// token and the position after the `]`.
pub open spec fn bracket_segment(s: Seq<char>, i: int) -> Result<(Token, int), PathError> {
    match bracket_content(s, i) {
        Err(x) => Err(x),
        Ok((t, j)) => if j >= s.len() {
            Err(
                PathError::UnterminatedBrackets {
                    index: last_byte(byte_length(s)),
                },
            )
        } else if s[j] != ']' {
            Err(PathError::UnclosedBrackets { found: s[j], index: j as usize })
        } else {
            Ok((t, j + 1))
        },
    }
}

/// The element that starts at `i`: `.` and what follows it, or `[` and what
/// follows it.
pub open spec fn segment(s: Seq<char>, i: int) -> Result<(Token, int), PathError> {
    if s[i] == '.' {
        dot_segment(s, i + 1)
    } else if s[i] == '[' {
        bracket_segment(s, i + 1)
    } else {
        Err(PathError::ExpectedSeparator { found: s[i], index: i as usize })
    }
}

/// `tokens` in front of a run of tokens; an error stays as it is.
pub open spec fn with_prefix(tokens: Seq<Token>, rest: Result<Seq<Token>, PathError>) -> Result<
    Seq<Token>,
    PathError,
> {
    match rest {
        Ok(more) => Ok(tokens + more),
        Err(x) => Err(x),
    }
}

/// The elements from position `i` to the end of the text.
pub open spec fn segments(s: Seq<char>, i: int) -> Result<Seq<Token>, PathError>
    decreases s.len() - i,
{
    if i < 0 || i >= s.len() {
        Ok(Seq::empty())
    } else {
        match segment(s, i) {
            Err(x) => Err(x),
            Ok((t, j)) => {
                proof {
                    lemma_segment_advances(s, i);
                }
                with_prefix(seq![t], segments(s, j))
            },
        }
    }
}

/// What a text means as a path expression. The empty text is the empty
/// expression. Otherwise the text starts with `$`, or with an identifier that
/// stands for a field of the root, and goes on with elements:
/// `.name`, `.*`, `['name']`, `[n]` or `[*]`.
pub open spec fn parse_path(s: Seq<char>) -> Result<Seq<Token>, PathError> {
    if s.len() == 0 {
        Ok(Seq::empty())
    } else if s[0] == '$' {
        with_prefix(seq![Token::Root], segments(s, 1))
    } else if identifier_char(s[0]) {
        match identifier_end(s, 1) {
            Err(x) => Err(x),
            Ok(e) => with_prefix(seq![Token::Root, Token::Field(s.subrange(0, e))], segments(s, e)),
        }
    } else {
        Err(PathError::MissingRoot)
    }
}

/// An identifier ends at or after the position at which it is read, within
/// the text.
pub proof fn lemma_identifier_end_bounds(s: Seq<char>, i: int)
    requires
        0 <= i <= s.len(),
    ensures
        identifier_end(s, i) matches Ok(e) ==> i <= e <= s.len(),
    decreases s.len() - i,
{
    if i < s.len() && identifier_char(s[i]) {
        lemma_identifier_end_bounds(s, i + 1);
    }
}

/// The first quote at or after `i` is at or after `i`, within the text or at
/// its end, and no quote stands before it.
pub proof fn lemma_quote_position_bounds(s: Seq<char>, i: int)
    requires
        0 <= i <= s.len(),
    ensures
        i <= quote_position(s, i) <= s.len(),
        quote_position(s, i) < s.len() ==> s[quote_position(s, i)] == '\'',
        forall|k: int| i <= k < quote_position(s, i) ==> s[k] != '\'',
    decreases s.len() - i,
{
    if i < s.len() && s[i] != '\'' {
        lemma_quote_position_bounds(s, i + 1);
    }
}

/// A run of numerals ends at or after the position at which it is
/// read, within the text or at its end.
pub proof fn lemma_numeric_end_bounds(s: Seq<char>, i: int)
    requires
        0 <= i <= s.len(),
    ensures
        i <= numeric_end(s, i) <= s.len(),
    decreases s.len() - i,
{
    if i < s.len() && numeral(s[i]) {
        lemma_numeric_end_bounds(s, i + 1);
    }
}

/// An element ends after the position at which it starts, within the text.
pub proof fn lemma_segment_advances(s: Seq<char>, i: int)
    requires
        0 <= i < s.len(),
    ensures
        segment(s, i) matches Ok((t, j)) ==> i < j <= s.len(),
{
    if s[i] == '.' {
        if i + 1 < s.len() {
            lemma_identifier_end_bounds(s, i + 2);
        }
    } else if s[i] == '[' {
        if i + 1 < s.len() {
            if i + 2 <= s.len() {
                lemma_quote_position_bounds(s, i + 2);
                lemma_numeric_end_bounds(s, i + 2);
            }
        }
    }
}

/// The outcome `r` of reading one element is the outcome `m` that the
/// grammar gives.
pub open spec fn step_matches(
    r: Result<(PathToken, usize), PathError>,
    m: Result<(Token, int), PathError>,
) -> bool {
    match r {
        Ok((t, j)) => m == Ok::<(Token, int), PathError>((t@, j as int)),
        Err(x) => m == Err::<(Token, int), PathError>(x),
    }
}

/// The character at position `i` with its position, if the text is that long.
pub fn peek(chars: &Vec<char>, i: usize) -> (r: Option<(usize, char)>)
    ensures
        r == if i < chars.len() {
            Some((i, chars@[i as int]))
        } else {
            None
        },
{
    if i < chars.len() {
        Some((i, chars[i]))
    } else {
        None
    }
}

/// Whether `ch` may appear in an identifier.
pub fn is_identifier_char(ch: char) -> (b: bool)
    ensures
        b == identifier_char(ch),
{
    is_letter(ch) || is_numeral(ch) || ch == '_' || ch == '-' || ch == ':' || ch == '#' || ch
        == '@'
}

/// Reads on from position `i` the identifier that starts at `start`, and
/// gives the field it names with the position at which it ends.
pub fn identifier(chars: &Vec<char>, start: usize, i: usize) -> (r: Result<
    (PathToken, usize),
    PathError,
>)
    requires
        start <= i <= chars.len(),
    ensures
        match r {
            Ok((t, e)) => identifier_end(chars@, i as int) == Ok::<int, PathError>(e as int) && t@
                == Token::Field(chars@.subrange(start as int, e as int)) && i <= e <= chars.len(),
            Err(x) => identifier_end(chars@, i as int) == Err::<int, PathError>(x),
        },
{
    let mut j: usize = i;
    while j < chars.len() && is_identifier_char(chars[j])
        invariant
            start <= i <= j <= chars.len(),
            identifier_end(chars@, i as int) == identifier_end(chars@, j as int),
        decreases chars.len() - j,
    {
        j += 1;
    }
    match peek(chars, j) {
        Some(ch) => {
            if !(ch.1 == '.' || ch.1 == '\'' || ch.1 == '[') {
                return Err(PathError::InvalidIdentifier { found: ch.1, index: ch.0 });
            }
        },
        None => {},
    }
    let name = string_of_range(chars, start, j);
    Ok((PathToken::Field(name), j))
}

/// Reads what follows a `.`: `*` or an identifier. `i` is the position after
/// the dot.
pub fn path_identifier(chars: &Vec<char>, i: usize) -> (r: Result<(PathToken, usize), PathError>)
    requires
        1 <= i <= chars.len(),
    ensures
        step_matches(r, dot_segment(chars@, i as int)),
{
    match peek(chars, i) {
        Some(ch) => {
            if ch.1 == '*' {
                Ok((PathToken::Star, i + 1))
            } else if is_identifier_char(ch.1) {
                identifier(chars, i, i + 1)
            } else {
                Err(PathError::ExpectedStarOrIdentifier { index: ch.0 })
            }
        },
        None => Err(PathError::ExpectedPath { index: i - 1 }),
    }
}

/// Reads a quoted name up to its closing quote. `i` is the position after the
/// opening quote.
pub fn string_path(chars: &Vec<char>, i: usize) -> (r: Result<(PathToken, usize), PathError>)
    requires
        1 <= i <= chars.len(),
    ensures
        step_matches(r, quoted_segment(chars@, i as int)),
{
    if i >= chars.len() {
        return Err(PathError::UnterminatedString { index: i - 1 });
    }
    let mut q: usize = i;
    while q < chars.len() && chars[q] != '\''
        invariant
            i <= q <= chars.len(),
            quote_position(chars@, i as int) == quote_position(chars@, q as int),
        decreases chars.len() - q,
    {
        q += 1;
    }
    if q >= chars.len() {
        Err(PathError::UnterminatedString { index: chars.len() - 1 })
    } else if q == i {
        Err(PathError::EmptyString { index: q })
    } else {
        let name = string_of_range(chars, i, q);
        Ok((PathToken::Field(name), q + 1))
    }
}

/// Reads an array position. `i` is the position of its first character,
/// which is numeric.
pub fn index_path(chars: &Vec<char>, i: usize) -> (r: Result<(PathToken, usize), PathError>)
    requires
        i < chars.len(),
    ensures
        step_matches(r, index_segment(chars@, i as int)),
{
    let mut e: usize = i + 1;
    while e < chars.len() && is_numeral(chars[e])
        invariant
            i < e <= chars.len(),
            numeric_end(chars@, i + 1) == numeric_end(chars@, e as int),
        decreases chars.len() - e,
    {
        e += 1;
    }
    if e < chars.len() && chars[e] != ']' {
        return Err(PathError::InvalidIndex { found: chars[e], index: e });
    }
    match parse_unsigned_range(chars, i, e) {
        Some(n) => Ok((PathToken::Index(n), e)),
        None => Err(PathError::IndexOutOfRange { index: i }),
    }
}

/// Reads what follows a `[` up to and including the `]`. `i` is the position
/// after the `[`, and `bytes` the length of the whole text in bytes.
pub fn bracket_path(chars: &Vec<char>, i: usize, bytes: usize) -> (r: Result<
    (PathToken, usize),
    PathError,
>)
    requires
        1 <= i <= chars.len(),
        bytes == byte_length(chars@),
    ensures
        step_matches(r, bracket_segment(chars@, i as int)),
{
    let content = match peek(chars, i) {
        Some(c) => {
            if c.1 == '\'' {
                string_path(chars, i + 1)
            } else if is_numeral(c.1) {
                index_path(chars, i)
            } else if c.1 == '*' {
                Ok((PathToken::StarIndex, i + 1))
            } else if c.1 == ']' {
                Err(PathError::EmptyBrackets { index: c.0 })
            } else {
                Err(PathError::InvalidIndex { found: c.1, index: c.0 })
            }
        },
        None => Err(PathError::ExpectedQuoteOrDigit { index: i - 1 }),
    };
    match content {
        Err(x) => Err(x),
        Ok((token, j)) => {
            proof {
                lemma_segment_advances(chars@, i - 1);
                if i < chars.len() {
                    lemma_quote_position_bounds(chars@, i + 1);
                    lemma_numeric_end_bounds(chars@, i + 1);
                }
            }
            match peek(chars, j) {
                Some(c) => {
                    if c.1 != ']' {
                        Err(PathError::UnclosedBrackets { found: c.1, index: c.0 })
                    } else {
                        Ok((token, j + 1))
                    }
                },
                None => Err(
                    PathError::UnterminatedBrackets {
                        index: if bytes > 0 {
                            bytes - 1
                        } else {
                            0
                        },
                    },
                ),
            }
        },
    }
}

/// Reads the elements from position `start` to the end of the text and
/// appends their tokens to `tokens`.
pub fn path_exp(chars: &Vec<char>, start: usize, bytes: usize, tokens: &mut Vec<PathToken>) -> (r:
    Result<(), PathError>)
    requires
        start <= chars.len(),
        bytes == byte_length(chars@),
    ensures
        match r {
            Ok(_) => with_prefix(tokens_model(old(tokens)@), segments(chars@, start as int)) == Ok::<
                Seq<Token>,
                PathError,
            >(tokens_model(final(tokens)@)),
            Err(x) => segments(chars@, start as int) == Err::<Seq<Token>, PathError>(x),
        },
{
    let mut i: usize = start;
    let ghost before = tokens_model(tokens@);
    while i < chars.len()
        invariant
            start <= i <= chars.len(),
            bytes == byte_length(chars@),
            with_prefix(before, segments(chars@, start as int)) == with_prefix(
                tokens_model(tokens@),
                segments(chars@, i as int),
            ),
            segments(chars@, start as int) is Err ==> segments(chars@, i as int) is Err,
            segments(chars@, i as int) matches Err(x) ==> segments(chars@, start as int) == Err::<
                Seq<Token>,
                PathError,
            >(x),
        decreases chars.len() - i,
    {
        let ch = chars[i];
        let step = if ch == '.' {
            path_identifier(chars, i + 1)
        } else if ch == '[' {
            bracket_path(chars, i + 1, bytes)
        } else {
            Err(PathError::ExpectedSeparator { found: ch, index: i })
        };
        proof {
            lemma_segment_advances(chars@, i as int);
        }
        match step {
            Err(x) => {
                return Err(x);
            },
            Ok((token, j)) => {
                proof {
                    let older = tokens_model(tokens@);
                    let newer = tokens_model(tokens@.push(token));
                    assert(newer == older.push(token@));
                    match segments(chars@, j as int) {
                        Ok(more) => {
                            assert(older + (seq![token@] + more) == older.push(token@) + more);
                        },
                        Err(_) => {},
                    }
                }
                tokens.push(token);
                i = j;
            },
        }
    }
    proof {
        assert(tokens_model(tokens@) + Seq::<Token>::empty() == tokens_model(tokens@));
    }
    Ok(())
}

/// Parses a path expression into its tokens.
pub fn parse_path_tokens(path: &str) -> (r: Result<Vec<PathToken>, PathError>)
    ensures
        match r {
            Ok(tokens) => parse_path(path@) == Ok::<Seq<Token>, PathError>(tokens_model(tokens@)),
            Err(x) => parse_path(path@) == Err::<Seq<Token>, PathError>(x),
        },
{
    let chars = chars_of(path);
    let bytes = path.len();
    let mut tokens: Vec<PathToken> = Vec::new();
    if chars.len() == 0 {
        assert(tokens_model(tokens@) == Seq::<Token>::empty());
        return Ok(tokens);
    }
    let first = chars[0];
    if first == '$' {
        tokens.push(PathToken::Root);
        assert(tokens_model(tokens@) == seq![Token::Root]);
        match path_exp(&chars, 1, bytes, &mut tokens) {
            Ok(_) => Ok(tokens),
            Err(x) => Err(x),
        }
    } else if is_identifier_char(first) {
        tokens.push(PathToken::Root);
        match identifier(&chars, 0, 1) {
            Err(x) => Err(x),
            Ok((field, e)) => {
                tokens.push(field);
                assert(tokens_model(tokens@) == seq![
                    Token::Root,
                    Token::Field(chars@.subrange(0, e as int)),
                ]);
                match path_exp(&chars, e, bytes, &mut tokens) {
                    Ok(_) => Ok(tokens),
                    Err(x) => Err(x),
                }
            },
        }
    } else {
        Err(PathError::MissingRoot)
    }
}

/// A message that ends with the path expression and a position in it.
pub open spec fn at_index(lead: Seq<char>, path: Seq<char>, index: usize) -> Seq<char> {
    lead + path + "\" at index "@ + decimal(index as nat)
}

/// The message that reports the error `e` found in the text `path`.
pub open spec fn error_text(path: Seq<char>, e: PathError) -> Seq<char> {
    match e {
        PathError::MissingRoot => "Path expression \""@ + path
            + "\" does not start with a root marker \"$\""@,
        PathError::ExpectedSeparator { found, index } => at_index(
            "Expected a \".\" or \"[\" instead of \""@.push(found) + "\" in path expression \""@,
            path,
            index,
        ),
        PathError::ExpectedPath { index } => at_index(
            "Expected a path after \".\" in path expression \""@,
            path,
            index,
        ),
        PathError::ExpectedStarOrIdentifier { index } => at_index(
            "Expected either a \"*\" or path identifier in path expression \""@,
            path,
            index,
        ),
        PathError::InvalidIdentifier { found, index } => at_index(
            "\""@.push(found) + "\" is not allowed in an identifier in path expression \""@,
            path,
            index,
        ),
        PathError::EmptyString { index } => at_index(
            "Empty strings are not allowed in path expression \""@,
            path,
            index,
        ),
        PathError::UnterminatedString { index } => at_index(
            "Unterminated string in path expression \""@,
            path,
            index,
        ),
        PathError::InvalidIndex { found, index } => at_index(
            "Indexes can only consist of numbers or a \"*\", found \""@.push(found)
                + "\" instead in path expression \""@,
            path,
            index,
        ),
        PathError::IndexOutOfRange { index } => at_index(
            "Index is out of range in path expression \""@,
            path,
            index,
        ),
        PathError::EmptyBrackets { index } => at_index(
            "Empty bracket expressions are not allowed in path expression \""@,
            path,
            index,
        ),
        PathError::UnclosedBrackets { found, index } => at_index(
            "Unterminated brackets, found \""@.push(found)
                + "\" instead of \"]\" in path expression \""@,
            path,
            index,
        ),
        PathError::UnterminatedBrackets { index } => at_index(
            "Unterminated brackets in path expression \""@,
            path,
            index,
        ),
        PathError::ExpectedQuoteOrDigit { index } =>
            "Expected a \"'\" (single qoute) or a digit in path expression \""@ + path
            + "\" after index "@ + decimal(index as nat),
    }
}

/// `head`, the character `found`, then `tail`.
fn around(head: &str, found: char, tail: &str) -> (r: String)
    ensures
        r@ == head@.push(found) + tail@,
{
    let mut r = head.to_owned();
    push_char(&mut r, found);
    r.append(tail);
    r
}

/// `lead`, the path expression, and the position `index` in it.
fn located(lead: String, path: &str, index: usize) -> (r: String)
    ensures
        r@ == at_index(lead@, path@, index),
{
    let mut r = lead;
    r.append(path);
    r.append("\" at index ");
    let position = decimal_string(index);
    r.append(position.as_str());
    r
}

/// Writes the message that reports the error `e` found in the text `path`.
pub fn error_message(path: &str, e: PathError) -> (r: String)
    ensures
        r@ == error_text(path@, e),
{
    match e {
        PathError::MissingRoot => {
            let mut r = "Path expression \"".to_owned();
            r.append(path);
            r.append("\" does not start with a root marker \"$\"");
            r
        },
        PathError::ExpectedSeparator { found, index } => located(
            around("Expected a \".\" or \"[\" instead of \"", found, "\" in path expression \""),
            path,
            index,
        ),
        PathError::ExpectedPath { index } => located(
            "Expected a path after \".\" in path expression \"".to_owned(),
            path,
            index,
        ),
        PathError::ExpectedStarOrIdentifier { index } => located(
            "Expected either a \"*\" or path identifier in path expression \"".to_owned(),
            path,
            index,
        ),
        PathError::InvalidIdentifier { found, index } => located(
            around("\"", found, "\" is not allowed in an identifier in path expression \""),
            path,
            index,
        ),
        PathError::EmptyString { index } => located(
            "Empty strings are not allowed in path expression \"".to_owned(),
            path,
            index,
        ),
        PathError::UnterminatedString { index } => located(
            "Unterminated string in path expression \"".to_owned(),
            path,
            index,
        ),
        PathError::InvalidIndex { found, index } => located(
            around(
                "Indexes can only consist of numbers or a \"*\", found \"",
                found,
                "\" instead in path expression \"",
            ),
            path,
            index,
        ),
        PathError::IndexOutOfRange { index } => located(
            "Index is out of range in path expression \"".to_owned(),
            path,
            index,
        ),
        PathError::EmptyBrackets { index } => located(
            "Empty bracket expressions are not allowed in path expression \"".to_owned(),
            path,
            index,
        ),
        PathError::UnclosedBrackets { found, index } => located(
            around(
                "Unterminated brackets, found \"",
                found,
                "\" instead of \"]\" in path expression \"",
            ),
            path,
            index,
        ),
        PathError::UnterminatedBrackets { index } => located(
            "Unterminated brackets in path expression \"".to_owned(),
            path,
            index,
        ),
        PathError::ExpectedQuoteOrDigit { index } => {
            let mut r = "Expected a \"'\" (single qoute) or a digit in path expression \"".to_owned();
            r.append(path);
            r.append("\" after index ");
            let position = decimal_string(index);
            r.append(position.as_str());
            r
        },
    }
}

/// Parses a path expression into its tokens, or reports in words why the
/// text is none.
pub fn parse_path_exp(path: &str) -> (r: Result<Vec<PathToken>, String>)
    ensures
        match r {
            Ok(tokens) => parse_path(path@) == Ok::<Seq<Token>, PathError>(tokens_model(tokens@)),
            Err(message) => parse_path(path@) is Err && message@ == error_text(
                path@,
                parse_path(path@)->Err_0,
            ),
        },
{
    match parse_path_tokens(path) {
        Ok(tokens) => Ok(tokens),
        Err(x) => Err(error_message(path, x)),
    }
}

/// How well the segment `fragment` of a concrete path matches `token`: 2 for
/// an exact match, 1 for a match by wildcard, 0 for none.
pub open spec fn token_score(fragment: Seq<char>, token: Token) -> nat {
    match token {
        Token::Root => if fragment == seq!['$'] {
            2
        } else {
            0
        },
        Token::Field(name) => if fragment == name {
            2
        } else {
            0
        },
        Token::Index(n) => if unsigned_of(fragment) == Some(n) {
            2
        } else {
            0
        },
        Token::StarIndex => if unsigned_of(fragment) is Some {
            1
        } else {
            0
        },
        Token::Star => 1,
    }
}

/// Computes how well one segment of a concrete path matches one token.
pub fn matches_token(path_fragment: &str, path_token: &PathToken) -> (score: usize)
    ensures
        score == token_score(path_fragment@, path_token@),
{
    match path_token {
        PathToken::Root => {
            proof {
                reveal_strlit("$");
                assert("$"@ =~= seq!['$']);
            }
            if str_eq(path_fragment, "$") {
                2
            } else {
                0
            }
        },
        PathToken::Field(name) => if str_eq(path_fragment, name.as_str()) {
            2
        } else {
            0
        },
        PathToken::Index(index) => match parse_unsigned(path_fragment) {
            Some(i) => if *index == i {
                2
            } else {
                0
            },
            None => 0,
        },
        PathToken::StarIndex => match parse_unsigned(path_fragment) {
            Some(_) => 1,
            None => 0,
        },
        PathToken::Star => 1,
    }
}

/// The texts of the segments of a concrete path.
pub open spec fn fragments(path: Seq<&str>) -> Seq<Seq<char>> {
    path.map_values(|s: &str| s@)
}

/// The product of the scores of the first `n` tokens, each against the
/// segment at its own position.
pub open spec fn score_product(tokens: Seq<Token>, path: Seq<Seq<char>>, n: nat) -> nat
    decreases n,
{
    if n == 0 {
        1
    } else {
        score_product(tokens, path, (n - 1) as nat) * token_score(path[n - 1], tokens[n - 1])
    }
}

/// The score of an expression against a concrete path: 0 where the path is
/// shorter than the expression, else the product of the scores of all its
/// tokens, so that one token that does not match makes it 0.
pub open spec fn path_score(tokens: Seq<Token>, path: Seq<Seq<char>>) -> nat {
    if path.len() >= tokens.len() {
        score_product(tokens, path, tokens.len())
    } else {
        0
    }
}

/// A score as a machine word holds it: scores beyond the largest word are
/// held as the largest word.
pub open spec fn capped(score: nat) -> usize {
    if score <= usize::MAX {
        score as usize
    } else {
        usize::MAX
    }
}

/// Multiplying a capped score by a token's score and capping again gives the
/// capped product.
proof fn lemma_capped_step(p: nat, m: nat)
    requires
        m <= 2,
    ensures
        capped(p * m) == capped(capped(p) as nat * m),
{
    assert(p * 0 == 0) by (nonlinear_arith);
    assert(p * 1 == p) by (nonlinear_arith);
    assert(p * 2 == p + p) by (nonlinear_arith);
    let c = capped(p) as nat;
    assert(c * 0 == 0) by (nonlinear_arith);
    assert(c * 1 == c) by (nonlinear_arith);
    assert(c * 2 == c + c) by (nonlinear_arith);
}

/// The mathematical value of a `JSONPath`: its tokens and the text that it
/// was made from.
pub struct PathModel {
    pub tokens: Seq<Token>,
    pub text: Seq<char>,
}

/// A parsed path expression, with the text that it was parsed from.
#[derive(Debug, Clone, PartialEq, Eq, Hash)]
pub struct JSONPath {
    path_tokens: Vec<PathToken>,
    orig_string: String,
}

impl View for JSONPath {
    type V = PathModel;

    closed spec fn view(&self) -> PathModel {
        PathModel { tokens: tokens_model(self.path_tokens@), text: self.orig_string@ }
    }
}

impl JSONPath {
    /// The tokens are what the text parses to.
    pub open spec fn wf(&self) -> bool {
        parse_path(self@.text) == Ok::<Seq<Token>, PathError>(self@.tokens)
    }

    /// Parses `path`, or reports in words why it is no path expression.
    pub fn new(path: &str) -> (r: Result<JSONPath, String>)
        ensures
            match r {
                Ok(p) => p.wf() && p@.text == path@,
                Err(message) => parse_path(path@) is Err && message@ == error_text(
                    path@,
                    parse_path(path@)->Err_0,
                ),
            },
    {
        match parse_path_exp(path) {
            Ok(path_tokens) => Ok(JSONPath { path_tokens, orig_string: path.to_owned() }),
            Err(message) => Err(message),
        }
    }

    /// Parses a text that is known to be a path expression.
    pub fn new_unwrap(path: &'static str) -> (p: JSONPath)
        requires
            parse_path(path@) is Ok,
        ensures
            p.wf(),
            p@.text == path@,
    {
        match parse_path_tokens(path) {
            Ok(path_tokens) => JSONPath { path_tokens, orig_string: path.to_owned() },
            Err(_) => vstd::pervasive::unreached(),
        }
    }

    /// Parses a fixed text: the expression that it writes, or nothing where
    /// it writes none.
    pub fn new_checked(path: &'static str) -> (r: Option<JSONPath>)
        ensures
            match r {
                Some(p) => p.wf() && p@.text == path@,
                None => parse_path(path@) is Err,
            },
    {
        match parse_path_tokens(path) {
            Ok(_) => Some(JSONPath::new_unwrap(path)),
            Err(_) => None,
        }
    }

    /// The empty expression, which restricts nothing.
    pub fn empty() -> (p: JSONPath)
        ensures
            p.wf(),
            p@.text == Seq::<char>::empty(),
            p@.tokens == Seq::<Token>::empty(),
    {
        let p = JSONPath { path_tokens: Vec::new(), orig_string: String::new() };
        assert(p@.tokens =~= Seq::<Token>::empty());
        p
    }

    /// A copy of this expression.
    pub fn duplicate(&self) -> (p: JSONPath)
        ensures
            p@ == self@,
    {
        let mut path_tokens: Vec<PathToken> = Vec::new();
        let mut i: usize = 0;
        while i < self.path_tokens.len()
            invariant
                i <= self.path_tokens.len(),
                tokens_model(path_tokens@) == tokens_model(self.path_tokens@).take(i as int),
            decreases self.path_tokens.len() - i,
        {
            let token = self.path_tokens[i].duplicate();
            proof {
                let all = tokens_model(self.path_tokens@);
                assert(all[i as int] == self.path_tokens@[i as int]@);
                assert(tokens_model(path_tokens@.push(token)) =~= tokens_model(path_tokens@).push(
                    token@,
                ));
                assert(all.take(i + 1) =~= all.take(i as int).push(all[i as int]));
            }
            path_tokens.push(token);
            i += 1;
        }
        proof {
            assert(tokens_model(self.path_tokens@).take(self.path_tokens.len() as int)
                == tokens_model(self.path_tokens@));
        }
        JSONPath { path_tokens, orig_string: self.orig_string.clone() }
    }

    /// The tokens of the expression.
    pub fn tokens(&self) -> (r: &Vec<PathToken>)
        ensures
            tokens_model(r@) == self@.tokens,
    {
        &self.path_tokens
    }

    /// The text that the expression was parsed from.
    pub fn orig_string(&self) -> (r: &str)
        ensures
            r@ == self@.text,
    {
        self.orig_string.as_str()
    }

    /// The number of tokens.
    pub fn len(&self) -> (n: usize)
        ensures
            n == self@.tokens.len(),
    {
        self.path_tokens.len()
    }

    /// Whether the expression ends with `.*`.
    pub fn is_wildcard(&self) -> (b: bool)
        ensures
            b == (self@.tokens.len() > 0 && self@.tokens.last() == Token::Star),
    {
        let n = self.path_tokens.len();
        if n == 0 {
            false
        } else {
            match &self.path_tokens[n - 1] {
                PathToken::Star => true,
                _ => false,
            }
        }
    }

    /// The weight of this expression for the concrete path `path`: its score,
    /// capped at the largest machine word, and its number of tokens. Of two
    /// expressions with a positive score the one with the higher score
    /// applies, and of two with the same score the longer one.
    pub fn calc_path_weight(&self, path: &[&str]) -> (weight: (usize, usize))
        ensures
            weight.0 == capped(path_score(self@.tokens, fragments(path@))),
            weight.1 == self@.tokens.len(),
            path@.len() < self@.tokens.len() ==> weight.0 == 0,
    {
        let n = self.path_tokens.len();
        if path.len() < n {
            return (0, n);
        }
        let ghost tokens = self@.tokens;
        let ghost segments = fragments(path@);
        let mut acc: usize = 1;
        let mut i: usize = 0;
        while i < n
            invariant
                i <= n,
                n == self.path_tokens.len(),
                n <= path.len(),
                tokens == tokens_model(self.path_tokens@),
                segments == fragments(path@),
                acc == capped(score_product(tokens, segments, i as nat)),
            decreases n - i,
        {
            let m = matches_token(path[i], &self.path_tokens[i]);
            proof {
                assert(segments[i as int] == path@[i as int]@);
                assert(tokens[i as int] == self.path_tokens@[i as int]@);
                lemma_capped_step(score_product(tokens, segments, i as nat), m as nat);
                assert(acc as nat * m as nat == acc * m);
            }
            acc = match acc.checked_mul(m) {
                Some(product) => product,
                None => usize::MAX,
            };
            i += 1;
        }
        (acc, n)
    }
}

/// Parsing the text of a parsed expression once more gives its tokens again.
pub proof fn lemma_parse_round_trip(p: JSONPath)
    requires
        p.wf(),
    ensures
        parse_path(p@.text) == Ok::<Seq<Token>, PathError>(p@.tokens),
{
}

/// The weight of the path expression written as `text` for a concrete path:
/// its score and its number of tokens, or nothing at all where the text is
/// no path expression.
pub open spec fn text_weight(text: Seq<char>, path: Seq<Seq<char>>) -> (usize, usize) {
    match parse_path(text) {
        Ok(tokens) => (capped(path_score(tokens, path)), tokens.len() as usize),
        Err(_) => (0, 0),
    }
}

/// Computes the weight of the path expression written as `path_exp` for the
/// concrete path `path`.
pub fn calc_path_weight(path_exp: &str, path: &[&str]) -> (weight: (usize, usize))
    ensures
        weight == text_weight(path_exp@, fragments(path@)),
{
    match parse_path_tokens(path_exp) {
        Ok(path_tokens) => {
            let parsed = JSONPath { path_tokens, orig_string: path_exp.to_owned() };
            parsed.calc_path_weight(path)
        },
        Err(_) => (0, 0),
    }
}

} // verus!
