//! The scanner: source text to tokens.
use vstd::prelude::*;
use vstd::string::StrSliceExecFns;
use crate::errors::ScanError;
use crate::number::{float_parse, parse_number};
use crate::token::{Token, TokenModel, TokenType};
use crate::value::{Value, ValueModel};

verus! {

/// Whether std counts the character as numeric (Unicode `Numeric` classes).
pub uninterp spec fn char_numeric(c: char) -> bool;

/// Whether std counts the character as alphabetic (Unicode `Alphabetic`).
pub uninterp spec fn char_alphabetic(c: char) -> bool;

/// Relies on `char::is_numeric` of std.
#[verifier::external_body]
fn is_numeric_char(c: char) -> (r: bool)
    ensures
        r == char_numeric(c),
{
    c.is_numeric()
}

/// Relies on `char::is_alphabetic` of std.
#[verifier::external_body]
fn is_alphabetic_char(c: char) -> (r: bool)
    ensures
        r == char_alphabetic(c),
{
    c.is_alphabetic()
}

/// A character that may continue an identifier.
pub open spec fn char_alphanumeric(c: char) -> bool {
    char_alphabetic(c) || char_numeric(c)
}

/// The next line number; it stays at the largest one it can hold.
pub open spec fn next_line(line: u32) -> u32 {
    if line < u32::MAX {
        (line + 1) as u32
    } else {
        line
    }
}

/// The end of the run of numeric characters from `i`.
pub open spec fn digits_end(src: Seq<char>, i: int) -> int
    decreases src.len() - i,
{
    if 0 <= i < src.len() && char_numeric(src[i]) {
        digits_end(src, i + 1)
    } else {
        i
    }
}

/// The end of the run of alphanumeric characters from `i`.
pub open spec fn word_end(src: Seq<char>, i: int) -> int
    decreases src.len() - i,
{
    if 0 <= i < src.len() && char_alphanumeric(src[i]) {
        word_end(src, i + 1)
    } else {
        i
    }
}

/// The end of a line comment's text from `i`: the next newline or the end.
pub open spec fn comment_end(src: Seq<char>, i: int) -> int
    decreases src.len() - i,
{
    if 0 <= i < src.len() && src[i] != '\n' {
        comment_end(src, i + 1)
    } else {
        i
    }
}

/// The position of the next `"` from `i`, or the end.
pub open spec fn string_end(src: Seq<char>, i: int) -> int
    decreases src.len() - i,
{
    if 0 <= i < src.len() && src[i] != '"' {
        string_end(src, i + 1)
    } else {
        i
    }
}

/// The line number after the characters from `i` to `j`, from `line`.
pub open spec fn lines_through(src: Seq<char>, i: int, j: int, line: u32) -> u32
    decreases j - i,
{
    if 0 <= i < j && i < src.len() {
        lines_through(src, i + 1, j, if src[i] == '\n' { next_line(line) } else { line })
    } else {
        line
    }
}

/// The end of a number's digits after its first digit, with a fraction where a
/// `.` is followed by a digit.
pub open spec fn number_end(src: Seq<char>, i: int) -> int {
    let e = digits_end(src, i);
    if 0 <= e && e + 1 < src.len() && src[e] == '.' && char_numeric(src[e + 1]) {
        digits_end(src, e + 2)
    } else {
        e
    }
}

/// The keyword that a word is, if it is one.
pub open spec fn keyword(s: Seq<char>) -> Option<TokenType> {
    if s == "and"@ {
        Some(TokenType::And)
    } else if s == "class"@ {
        Some(TokenType::Class)
    } else if s == "else"@ {
        Some(TokenType::Else)
    } else if s == "false"@ {
        Some(TokenType::False)
    } else if s == "for"@ {
        Some(TokenType::For)
    } else if s == "fun"@ {
        Some(TokenType::Fun)
    } else if s == "if"@ {
        Some(TokenType::If)
    } else if s == "nil"@ {
        Some(TokenType::Nil)
    } else if s == "or"@ {
        Some(TokenType::Or)
    } else if s == "print"@ {
        Some(TokenType::Print)
    } else if s == "return"@ {
        Some(TokenType::Return)
    } else if s == "super"@ {
        Some(TokenType::Super)
    } else if s == "this"@ {
        Some(TokenType::This)
    } else if s == "true"@ {
        Some(TokenType::True)
    } else if s == "var"@ {
        Some(TokenType::Var)
    } else if s == "while"@ {
        Some(TokenType::While)
    } else {
        None
    }
}

/// The token of a character that is a token by itself.
pub open spec fn single_token(c: char) -> Option<TokenType> {
    if c == '(' {
        Some(TokenType::LeftParen)
    } else if c == ')' {
        Some(TokenType::RightParen)
    } else if c == '{' {
        Some(TokenType::LeftBrace)
    } else if c == '}' {
        Some(TokenType::RightBrace)
    } else if c == ',' {
        Some(TokenType::Comma)
    } else if c == '.' {
        Some(TokenType::Dot)
    } else if c == '-' {
        Some(TokenType::Minus)
    } else if c == '+' {
        Some(TokenType::Plus)
    } else if c == ';' {
        Some(TokenType::Semicolon)
    } else if c == '*' {
        Some(TokenType::Star)
    } else {
        None
    }
}

/// The tokens of a character alone and followed by `=`.
pub open spec fn pair_token(c: char) -> Option<(TokenType, TokenType)> {
    if c == '!' {
        Some((TokenType::Bang, TokenType::BangEqual))
    } else if c == '=' {
        Some((TokenType::Equal, TokenType::EqualEqual))
    } else if c == '<' {
        Some((TokenType::Less, TokenType::LessEqual))
    } else if c == '>' {
        Some((TokenType::Greater, TokenType::GreaterEqual))
    } else {
        None
    }
}

/// The token over the characters from `start` to `end`.
pub open spec fn token_at(
    t: TokenType,
    src: Seq<char>,
    start: int,
    end: int,
    literal: Option<ValueModel>,
    line: u32,
) -> TokenModel {
    TokenModel { token_type: t, lexeme: src.subrange(start, end), literal, line }
}

/// One step of scanning at `i` on line `line`: where scanning goes on, on which
/// line, and the token or the error found, if any.
pub type Step = (int, u32, Option<TokenModel>, Option<ScanError>);

/// A string from its opening `"` at `i`; its token is on the line where it ends.
pub open spec fn string_step(src: Seq<char>, i: int, line: u32) -> Step {
    let e = string_end(src, i + 1);
    let l = lines_through(src, i + 1, e, line);
    if e >= src.len() {
        (e, l, None, Some(ScanError::UnterminatedString(l)))
    } else {
        let text = src.subrange(i + 1, e);
        (
            e + 1,
            l,
            Some(token_at(TokenType::String, src, i, e + 1, Some(ValueModel::String(text)), l)),
            None,
        )
    }
}

/// A number from its first digit at `i`.
pub open spec fn number_step(src: Seq<char>, i: int, line: u32) -> Step {
    let e = number_end(src, i + 1);
    match float_parse(src.subrange(i, e)) {
        Some(n) => (
            e,
            line,
            Some(token_at(TokenType::Number, src, i, e, Some(ValueModel::Number(n)), line)),
            None,
        ),
        None => (e, line, None, Some(ScanError::InvalidNumber(line))),
    }
}

/// A keyword or identifier from its first letter at `i`.
pub open spec fn word_step(src: Seq<char>, i: int, line: u32) -> Step {
    let e = word_end(src, i + 1);
    let t = match keyword(src.subrange(i, e)) {
        Some(k) => k,
        None => TokenType::Identifier,
    };
    (e, line, Some(token_at(t, src, i, e, None, line)), None)
}

pub open spec fn scan_step(src: Seq<char>, i: int, line: u32) -> Step {
    let n = src.len();
    let c = src[i];
    if c == ' ' || c == '\r' || c == '\t' {
        (i + 1, line, None, None)
    } else if c == '\n' {
        (i + 1, next_line(line), None, None)
    } else if single_token(c) is Some {
        (i + 1, line, Some(token_at(single_token(c)->0, src, i, i + 1, None, line)), None)
    } else if pair_token(c) is Some {
        let (one, two) = pair_token(c)->0;
        if i + 1 < src.len() && src[i + 1] == '=' {
            (i + 2, line, Some(token_at(two, src, i, i + 2, None, line)), None)
        } else {
            (i + 1, line, Some(token_at(one, src, i, i + 1, None, line)), None)
        }
    } else if c == '/' {
        if i + 1 < src.len() && src[i + 1] == '/' {
            (comment_end(src, i + 2), line, None, None)
        } else {
            (i + 1, line, Some(token_at(TokenType::Slash, src, i, i + 1, None, line)), None)
        }
    } else if c == '"' {
        string_step(src, i, line)
    } else if char_numeric(c) {
        number_step(src, i, line)
    } else if char_alphabetic(c) {
        word_step(src, i, line)
    } else {
        (i + 1, line, None, Some(ScanError::UnexpectedCharacter(c, line)))
    }
}

/// A sequence of what an option holds.
pub open spec fn opt_seq<T>(o: Option<T>) -> Seq<T> {
    match o {
        Some(x) => seq![x],
        None => seq![],
    }
}

/// The tokens and the errors that scanning from `i` finds, and the line where
/// it ends.
pub open spec fn scan_from(src: Seq<char>, i: int, line: u32) -> (Seq<TokenModel>, Seq<ScanError>, u32)
    decreases src.len() - i,
{
    if i < 0 || i >= src.len() {
        (seq![], seq![], line)
    } else {
        let (j, l, t, e) = scan_step(src, i, line);
        if j <= i || j > src.len() {
            (seq![], seq![], line)
        } else {
            let (ts, es, last) = scan_from(src, j, l);
            (opt_seq(t) + ts, opt_seq(e) + es, last)
        }
    }
}

/// The end marker on a line.
pub open spec fn eof_token(line: u32) -> TokenModel {
    TokenModel { token_type: TokenType::Eof, lexeme: seq![], literal: None, line }
}

/// What scanning a whole source gives: its tokens followed by the end marker,
/// or every error found, in order.
pub open spec fn scan_outcome(src: Seq<char>) -> Result<Seq<TokenModel>, Seq<ScanError>> {
    let (ts, es, last) = scan_from(src, 0, 1);
    if es.len() == 0 {
        Ok(ts.push(eof_token(last)))
    } else {
        Err(es)
    }
}

/// The models of a sequence of tokens.
pub open spec fn tokens_view(ts: Seq<Token>) -> Seq<TokenModel> {
    ts.map_values(|t: Token| t@)
}

/// Whether two texts are the same.
fn same_text(a: &str, b: &str) -> (r: bool)
    ensures
        r == (a@ == b@),
{
    let n = a.unicode_len();
    if n != b.unicode_len() {
        return false;
    }
    let mut i: usize = 0;
    while i < n
        invariant
            n == a@.len(),
            n == b@.len(),
            i <= n,
            forall|j: int| 0 <= j < i ==> a@[j] == b@[j],
        decreases n - i,
    {
        if a.get_char(i) != b.get_char(i) {
            return false;
        }
        i = i + 1;
    }
    assert(a@ =~= b@);
    true
}

/// The keyword that a word is, if it is one.
pub fn match_keyword(lexeme: &str) -> (r: Option<TokenType>)
    ensures
        r == keyword(lexeme@),
{
    if same_text(lexeme, "and") {
        Some(TokenType::And)
    } else if same_text(lexeme, "class") {
        Some(TokenType::Class)
    } else if same_text(lexeme, "else") {
        Some(TokenType::Else)
    } else if same_text(lexeme, "false") {
        Some(TokenType::False)
    } else if same_text(lexeme, "for") {
        Some(TokenType::For)
    } else if same_text(lexeme, "fun") {
        Some(TokenType::Fun)
    } else if same_text(lexeme, "if") {
        Some(TokenType::If)
    } else if same_text(lexeme, "nil") {
        Some(TokenType::Nil)
    } else if same_text(lexeme, "or") {
        Some(TokenType::Or)
    } else if same_text(lexeme, "print") {
        Some(TokenType::Print)
    } else if same_text(lexeme, "return") {
        Some(TokenType::Return)
    } else if same_text(lexeme, "super") {
        Some(TokenType::Super)
    } else if same_text(lexeme, "this") {
        Some(TokenType::This)
    } else if same_text(lexeme, "true") {
        Some(TokenType::True)
    } else if same_text(lexeme, "var") {
        Some(TokenType::Var)
    } else if same_text(lexeme, "while") {
        Some(TokenType::While)
    } else {
        None
    }
}

/// The characters of a text.
fn source_chars(source: &str) -> (r: Vec<char>)
    ensures
        r@ == source@,
{
    let n = source.unicode_len();
    let mut chars: Vec<char> = Vec::new();
    let mut i: usize = 0;
    while i < n
        invariant
            n == source@.len(),
            i <= n,
            chars@ == source@.subrange(0, i as int),
        decreases n - i,
    {
        chars.push(source.get_char(i));
        i = i + 1;
        assert(chars@ =~= source@.subrange(0, i as int));
    }
    assert(chars@ =~= source@);
    chars
}

/// The text of the characters from `start` to `end`.
fn lexeme_text(source: &str, start: usize, end: usize) -> (r: String)
    requires
        start <= end <= source@.len(),
    ensures
        r@ == source@.subrange(start as int, end as int),
{
    source.substring_char(start, end).to_owned()
}

fn skip_digits(src: &Vec<char>, i: usize) -> (r: usize)
    requires
        i <= src@.len(),
    ensures
        r == digits_end(src@, i as int),
        i <= r <= src@.len(),
{
    let mut j = i;
    while j < src.len() && is_numeric_char(src[j])
        invariant
            i <= j <= src@.len(),
            digits_end(src@, i as int) == digits_end(src@, j as int),
        decreases src@.len() - j,
    {
        j = j + 1;
    }
    j
}

fn skip_word(src: &Vec<char>, i: usize) -> (r: usize)
    requires
        i <= src@.len(),
    ensures
        r == word_end(src@, i as int),
        i <= r <= src@.len(),
{
    let mut j = i;
    while j < src.len() && (is_alphabetic_char(src[j]) || is_numeric_char(src[j]))
        invariant
            i <= j <= src@.len(),
            word_end(src@, i as int) == word_end(src@, j as int),
        decreases src@.len() - j,
    {
        j = j + 1;
    }
    j
}

fn skip_comment(src: &Vec<char>, i: usize) -> (r: usize)
    requires
        i <= src@.len(),
    ensures
        r == comment_end(src@, i as int),
        i <= r <= src@.len(),
{
    let mut j = i;
    while j < src.len() && src[j] != '\n'
        invariant
            i <= j <= src@.len(),
            comment_end(src@, i as int) == comment_end(src@, j as int),
        decreases src@.len() - j,
    {
        j = j + 1;
    }
    j
}

/// The end of a string's text from `i`, and the line after it.
fn skip_string(src: &Vec<char>, i: usize, line: u32) -> (r: (usize, u32))
    requires
        i <= src@.len(),
    ensures
        r.0 == string_end(src@, i as int),
        r.1 == lines_through(src@, i as int, r.0 as int, line),
        i <= r.0 <= src@.len(),
{
    let ghost e = string_end(src@, i as int);
    let mut j = i;
    let mut l = line;
    while j < src.len() && src[j] != '"'
        invariant
            i <= j <= src@.len(),
            e == string_end(src@, i as int),
            e == string_end(src@, j as int),
            lines_through(src@, i as int, e, line) == lines_through(src@, j as int, e, l),
        decreases src@.len() - j,
    {
        proof {
            lemma_string_end_bound(src@, j as int + 1);
        }
        if src[j] == '\n' {
            l = if l < u32::MAX { l + 1 } else { l };
        }
        j = j + 1;
    }
    (j, l)
}

proof fn lemma_string_end_bound(src: Seq<char>, i: int)
    requires
        0 <= i <= src.len(),
    ensures
        i <= string_end(src, i) <= src.len(),
    decreases src.len() - i,
{
    if i < src.len() && src[i] != '"' {
        lemma_string_end_bound(src, i + 1);
    }
}

/// A scanning step seen through the models of its token.
pub open spec fn step_view(r: (usize, u32, Option<Token>, Option<ScanError>)) -> Step {
    (
        r.0 as int,
        r.1,
        match r.2 {
            Some(t) => Some(t@),
            None => None,
        },
        r.3,
    )
}

fn single_token_type(c: char) -> (r: Option<TokenType>)
    ensures
        r == single_token(c),
{
    match c {
        '(' => Some(TokenType::LeftParen),
        ')' => Some(TokenType::RightParen),
        '{' => Some(TokenType::LeftBrace),
        '}' => Some(TokenType::RightBrace),
        ',' => Some(TokenType::Comma),
        '.' => Some(TokenType::Dot),
        '-' => Some(TokenType::Minus),
        '+' => Some(TokenType::Plus),
        ';' => Some(TokenType::Semicolon),
        '*' => Some(TokenType::Star),
        _ => None,
    }
}

fn pair_token_types(c: char) -> (r: Option<(TokenType, TokenType)>)
    ensures
        r == pair_token(c),
{
    match c {
        '!' => Some((TokenType::Bang, TokenType::BangEqual)),
        '=' => Some((TokenType::Equal, TokenType::EqualEqual)),
        '<' => Some((TokenType::Less, TokenType::LessEqual)),
        '>' => Some((TokenType::Greater, TokenType::GreaterEqual)),
        _ => None,
    }
}

fn scan_string(source: &str, src: &Vec<char>, i: usize, line: u32) -> (r: (
    usize,
    u32,
    Option<Token>,
    Option<ScanError>,
))
    requires
        src@ == source@,
        i < src@.len(),
    ensures
        step_view(r) == string_step(src@, i as int, line),
        i < r.0 <= src@.len(),
{
    let n = src.len();
    let (e, l) = skip_string(src, i + 1, line);
    if e >= src.len() {
        (e, l, None, Some(ScanError::UnterminatedString(l)))
    } else {
        let text = lexeme_text(source, i + 1, e);
        let tok = Token::new(
            TokenType::String,
            lexeme_text(source, i, e + 1),
            Some(Value::String(text)),
            l,
        );
        (e + 1, l, Some(tok), None)
    }
}

fn scan_number(source: &str, src: &Vec<char>, i: usize, line: u32) -> (r: (
    usize,
    u32,
    Option<Token>,
    Option<ScanError>,
))
    requires
        src@ == source@,
        i < src@.len(),
    ensures
        step_view(r) == number_step(src@, i as int, line),
        i < r.0 <= src@.len(),
{
    let n = src.len();
    let mut e = skip_digits(src, i + 1);
    if src.len() - e > 1 && src[e] == '.' && is_numeric_char(src[e + 1]) {
        e = skip_digits(src, e + 2);
    }
    let text = lexeme_text(source, i, e);
    match parse_number(text.as_str()) {
        Some(n) => {
            let tok = Token::new(TokenType::Number, text, Some(Value::Number(n)), line);
            (e, line, Some(tok), None)
        },
        None => (e, line, None, Some(ScanError::InvalidNumber(line))),
    }
}

fn scan_word(source: &str, src: &Vec<char>, i: usize, line: u32) -> (r: (
    usize,
    u32,
    Option<Token>,
    Option<ScanError>,
))
    requires
        src@ == source@,
        i < src@.len(),
    ensures
        step_view(r) == word_step(src@, i as int, line),
        i < r.0 <= src@.len(),
{
    let n = src.len();
    let e = skip_word(src, i + 1);
    let text = lexeme_text(source, i, e);
    let t = match match_keyword(text.as_str()) {
        Some(k) => k,
        None => TokenType::Identifier,
    };
    (e, line, Some(Token::new(t, text, None, line)), None)
}

/// Scans what starts at `i`.
fn scan_token(source: &str, src: &Vec<char>, i: usize, line: u32) -> (r: (
    usize,
    u32,
    Option<Token>,
    Option<ScanError>,
))
    requires
        src@ == source@,
        i < src@.len(),
    ensures
        step_view(r) == scan_step(src@, i as int, line),
        i < r.0 <= src@.len(),
{
    let n = src.len();
    let c = src[i];
    if c == ' ' || c == '\r' || c == '\t' {
        (i + 1, line, None, None)
    } else if c == '\n' {
        (i + 1, if line < u32::MAX { line + 1 } else { line }, None, None)
    } else if let Some(t) = single_token_type(c) {
        let tok = Token::new(t, lexeme_text(source, i, i + 1), None, line);
        (i + 1, line, Some(tok), None)
    } else if let Some((one, two)) = pair_token_types(c) {
        if i + 1 < src.len() && src[i + 1] == '=' {
            (i + 2, line, Some(Token::new(two, lexeme_text(source, i, i + 2), None, line)), None)
        } else {
            (i + 1, line, Some(Token::new(one, lexeme_text(source, i, i + 1), None, line)), None)
        }
    } else if c == '/' {
        if i + 1 < src.len() && src[i + 1] == '/' {
            (skip_comment(src, i + 2), line, None, None)
        } else {
            let tok = Token::new(TokenType::Slash, lexeme_text(source, i, i + 1), None, line);
            (i + 1, line, Some(tok), None)
        }
    } else if c == '"' {
        scan_string(source, src, i, line)
    } else if is_numeric_char(c) {
        scan_number(source, src, i, line)
    } else if is_alphabetic_char(c) {
        scan_word(source, src, i, line)
    } else {
        (i + 1, line, None, Some(ScanError::UnexpectedCharacter(c, line)))
    }
}

/// Scans source text into tokens ending with the end marker. Scanning goes on
/// after an error; the call fails with every error found where there was one.
pub fn scan_tokens(source: String) -> (r: Result<Vec<Token>, Vec<ScanError>>)
    ensures
        match r {
            Ok(ts) => scan_outcome(source@) == Ok::<Seq<TokenModel>, Seq<ScanError>>(
                tokens_view(ts@),
            ),
            Err(es) => scan_outcome(source@) == Err::<Seq<TokenModel>, Seq<ScanError>>(es@),
        },
{
    let src = source_chars(source.as_str());
    let ghost s = src@;
    let ghost total = scan_from(s, 0, 1);
    let mut tokens: Vec<Token> = Vec::new();
    let mut errors: Vec<ScanError> = Vec::new();
    let mut i: usize = 0;
    let mut line: u32 = 1;
    assert(tokens_view(tokens@) + total.0 =~= total.0);
    assert(errors@ + total.1 =~= total.1);
    while i < src.len()
        invariant
            src@ == s,
            s == source@,
            i <= s.len(),
            total == scan_from(s, 0, 1),
            total.0 == tokens_view(tokens@) + scan_from(s, i as int, line).0,
            total.1 == errors@ + scan_from(s, i as int, line).1,
            total.2 == scan_from(s, i as int, line).2,
        decreases s.len() - i,
    {
        let ghost pre_t = tokens_view(tokens@);
        let ghost pre_e = errors@;
        let (j, l, t, e) = scan_token(source.as_str(), &src, i, line);
        let ghost rest = scan_from(s, j as int, l);
        match t {
            Some(tok) => {
                tokens.push(tok);
            },
            None => {},
        }
        match e {
            Some(err) => {
                errors.push(err);
            },
            None => {},
        }
        proof {
            assert(tokens_view(tokens@) =~= pre_t + opt_seq(step_view((j, l, t, e)).2));
            assert(errors@ =~= pre_e + opt_seq(e));
            assert(pre_t + (opt_seq(step_view((j, l, t, e)).2) + rest.0) =~= tokens_view(tokens@) + rest.0);
            assert(pre_e + (opt_seq(e) + rest.1) =~= errors@ + rest.1);
        }
        i = j;
        line = l;
    }
    assert(tokens_view(tokens@) + Seq::<TokenModel>::empty() =~= tokens_view(tokens@));
    assert(errors@ + Seq::<ScanError>::empty() =~= errors@);
    if errors.len() == 0 {
        let ghost before = tokens_view(tokens@);
        tokens.push(Token::new(TokenType::Eof, String::new(), None, line));
        assert(tokens_view(tokens@) =~= before.push(eof_token(line)));
        Ok(tokens)
    } else {
        Err(errors)
    }
}

} // verus!
