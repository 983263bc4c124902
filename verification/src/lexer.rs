//! The lexer: characters in, tokens out, one token per call.
//!
//! What the lexer produces is defined by [`spec_first_token`] and
//! [`spec_rest`] over the unread characters; [`Lexer::next_token`] is proved to
//! return exactly that token and to leave exactly those characters unread.
//! Whitespace separates tokens and is never a token itself.
use vstd::prelude::*;
use crate::token::{Token, TokenView};

verus! {

/// Whether `c` is alphabetic or numeric in the sense of Unicode, as
/// `char::is_alphanumeric` decides it.
pub uninterp spec fn alphanumeric(c: char) -> bool;

/// `char::is_alphanumeric` is a function of the character alone; its result
/// is named [`alphanumeric`]. Nothing more is claimed of it. The lexer asks
/// it of characters beyond ASCII only.
pub assume_specification[ char::is_alphanumeric ](c: char) -> (r: bool)
    ensures
        r == alphanumeric(c),
;

/// `String::push` appends the character to the end of the string.
pub assume_specification[ std::string::String::push ](s: &mut std::string::String, c: char)
    ensures
        final(s)@ == old(s)@.push(c),
;

/// The classes of characters that the lexer consumes in runs.
#[derive(Clone, Copy, PartialEq, Eq, Debug)]
pub enum CharClass {
    /// An ASCII decimal digit.
    Digit,
    /// What may follow the first digit of a numeric literal: anything
    /// alphanumeric, or a dot.
    NumberPart,
    /// What may follow the first letter of a word: anything alphanumeric, or
    /// an underscore.
    WordPart,
    /// Space, tab, carriage return or newline.
    Whitespace,
}

/// An ASCII decimal digit.
pub open spec fn is_digit(c: char) -> bool {
    '0' <= c <= '9'
}

/// An ASCII letter.
pub open spec fn is_letter(c: char) -> bool {
    ('a' <= c <= 'z') || ('A' <= c <= 'Z')
}

/// Space, tab, carriage return or newline.
pub open spec fn is_whitespace(c: char) -> bool {
    c == ' ' || c == '\t' || c == '\r' || c == '\n'
}

/// Whether `c` is a letter or a digit: within ASCII one of `a-z`, `A-Z` and
/// `0-9`, beyond ASCII whatever Unicode calls alphabetic or numeric.
pub open spec fn is_alphanumeric(c: char) -> bool {
    if c <= '\u{7f}' {
        is_letter(c) || is_digit(c)
    } else {
        alphanumeric(c)
    }
}

/// Whether `c` belongs to `class`.
pub open spec fn in_class(class: CharClass, c: char) -> bool {
    match class {
        CharClass::Digit => is_digit(c),
        CharClass::NumberPart => is_alphanumeric(c) || c == '.',
        CharClass::WordPart => is_alphanumeric(c) || c == '_',
        CharClass::Whitespace => is_whitespace(c),
    }
}

/// The length of the longest prefix of `s` all of whose characters belong to
/// `class`.
pub open spec fn run_length(s: Seq<char>, class: CharClass) -> nat
    decreases s.len(),
{
    if s.len() > 0 && in_class(class, s[0]) {
        1 + run_length(s.drop_first(), class)
    } else {
        0
    }
}

/// Whether `text` is a decimal literal: one or more digits, optionally a dot
/// and any number of digits, optionally `e` or `E` and one or more digits.
pub open spec fn is_number_literal(text: Seq<char>) -> bool {
    let whole = run_length(text, CharClass::Digit);
    let tail = text.skip(whole as int);
    let fraction = if tail.len() > 0 && tail[0] == '.' {
        1 + run_length(tail.skip(1), CharClass::Digit)
    } else {
        0
    };
    let exponent = tail.skip(fraction as int);
    &&& whole > 0
    &&& exponent.len() > 0 ==> {
        &&& exponent[0] == 'e' || exponent[0] == 'E'
        &&& exponent.len() > 1
        &&& run_length(exponent.skip(1), CharClass::Digit) == exponent.len() - 1
    }
}

/// The token that a word stands for: a keyword, or else an identifier.
pub open spec fn spec_literal_to_token(word: Seq<char>) -> TokenView {
    if word == "let"@ {
        TokenView::Let
    } else if word == "fn"@ {
        TokenView::Fn
    } else if word == "if"@ {
        TokenView::If
    } else if word == "else"@ {
        TokenView::Else
    } else if word == "return"@ {
        TokenView::Return
    } else if word == "true"@ {
        TokenView::True
    } else if word == "false"@ {
        TokenView::False
    } else {
        TokenView::Ident(word)
    }
}

/// Whether `c` followed by `=` is a two-character operator.
pub open spec fn pairs_with_equals(c: char) -> bool {
    c == '=' || c == '!' || c == '>' || c == '<'
}

/// The number of characters of the first token of `s`, which is not empty:
/// a digit takes the longest run of number characters with it, a letter the
/// longest run of word characters, `= ! > <` a directly following `=`, and
/// every other character stands alone.
pub open spec fn spec_lexeme_length(s: Seq<char>) -> nat {
    if is_digit(s[0]) {
        1 + run_length(s.skip(1), CharClass::NumberPart)
    } else if is_letter(s[0]) {
        1 + run_length(s.skip(1), CharClass::WordPart)
    } else if pairs_with_equals(s[0]) && s.len() > 1 && s[1] == '=' {
        2
    } else {
        1
    }
}

/// The token spelled by a single character that is neither a digit nor a
/// letter.
pub open spec fn spec_symbol(c: char) -> TokenView {
    if c == '+' {
        TokenView::Plus
    } else if c == '-' {
        TokenView::Minus
    } else if c == '*' {
        TokenView::Asterisk
    } else if c == '/' {
        TokenView::Slash
    } else if c == '=' {
        TokenView::Assign
    } else if c == '!' {
        TokenView::Bang
    } else if c == '>' {
        TokenView::Gt
    } else if c == '<' {
        TokenView::Lt
    } else if c == ',' {
        TokenView::Comma
    } else if c == ';' {
        TokenView::Semicolon
    } else if c == '(' {
        TokenView::LParen
    } else if c == ')' {
        TokenView::RParen
    } else if c == '{' {
        TokenView::LCurlyBracket
    } else if c == '}' {
        TokenView::RCurlyBracket
    } else if c == '[' {
        TokenView::LSquareBracket
    } else if c == ']' {
        TokenView::RSquareBracket
    } else {
        TokenView::Illegal
    }
}

/// The token spelled by `=`, `!`, `>` or `<` followed by `=`.
pub open spec fn spec_compound(c: char) -> TokenView {
    if c == '=' {
        TokenView::Equal
    } else if c == '!' {
        TokenView::NotEqual
    } else if c == '>' {
        TokenView::Gte
    } else {
        TokenView::Lte
    }
}

/// The token that a lexeme (the characters of one token) stands for.
pub open spec fn spec_token_of(lexeme: Seq<char>) -> TokenView {
    if is_digit(lexeme[0]) {
        if is_number_literal(lexeme) {
            TokenView::Num(lexeme)
        } else {
            TokenView::Illegal
        }
    } else if is_letter(lexeme[0]) {
        spec_literal_to_token(lexeme)
    } else if lexeme.len() == 2 {
        spec_compound(lexeme[0])
    } else {
        spec_symbol(lexeme[0])
    }
}

/// `s` without the whitespace at its front.
pub open spec fn spec_skip_whitespace(s: Seq<char>) -> Seq<char> {
    s.skip(run_length(s, CharClass::Whitespace) as int)
}

/// The first token of the unread characters `s`: whitespace at the front is
/// passed over; where nothing else is left the token is end-of-file, else it
/// is the token of the first lexeme.
pub open spec fn spec_first_token(s: Seq<char>) -> TokenView {
    let unread = spec_skip_whitespace(s);
    if unread.len() == 0 {
        TokenView::Eof
    } else {
        spec_token_of(unread.take(spec_lexeme_length(unread) as int))
    }
}

/// What is left unread once the first token of `s` was taken: the
/// whitespace before the first lexeme, the lexeme and the whitespace behind
/// it are gone.
pub open spec fn spec_rest(s: Seq<char>) -> Seq<char> {
    let unread = spec_skip_whitespace(s);
    if unread.len() == 0 {
        unread
    } else {
        spec_skip_whitespace(unread.skip(spec_lexeme_length(unread) as int))
    }
}

/// All tokens of `s` in order, without the final end-of-file.
pub open spec fn spec_tokens(s: Seq<char>) -> Seq<TokenView>
    decreases s.len(),
    via spec_tokens_decreases
{
    if spec_skip_whitespace(s).len() == 0 {
        Seq::empty()
    } else {
        seq![spec_first_token(s)] + spec_tokens(spec_rest(s))
    }
}

#[via_fn]
proof fn spec_tokens_decreases(s: Seq<char>) {
    lemma_rest_is_shorter(s);
}

/// A run is never longer than the sequence it is taken from, and what
/// follows it does not begin with a character of its class.
pub proof fn lemma_run_length_bound(s: Seq<char>, class: CharClass)
    ensures
        run_length(s, class) <= s.len(),
        run_length(s.skip(run_length(s, class) as int), class) == 0,
    decreases s.len(),
{
    if s.len() > 0 && in_class(class, s[0]) {
        lemma_run_length_bound(s.drop_first(), class);
        assert(s.skip(run_length(s, class) as int) =~= s.drop_first().skip(
            run_length(s.drop_first(), class) as int,
        ));
    } else {
        assert(s.skip(0) =~= s);
    }
}

/// The first lexeme of a non-empty input has at least one character and lies
/// within the input.
pub proof fn lemma_lexeme_length_bounds(s: Seq<char>)
    requires
        s.len() > 0,
    ensures
        1 <= spec_lexeme_length(s) <= s.len(),
{
    lemma_run_length_bound(s.skip(1), CharClass::NumberPart);
    lemma_run_length_bound(s.skip(1), CharClass::WordPart);
}

/// Taking a token never gives characters back, and uses some up unless the
/// token is end-of-file.
pub proof fn lemma_rest_is_shorter(s: Seq<char>)
    ensures
        spec_rest(s).len() <= s.len(),
        spec_skip_whitespace(s).len() > 0 ==> spec_rest(s).len() < s.len(),
{
    let unread = spec_skip_whitespace(s);
    lemma_run_length_bound(s, CharClass::Whitespace);
    if unread.len() > 0 {
        lemma_lexeme_length_bounds(unread);
        lemma_run_length_bound(
            unread.skip(spec_lexeme_length(unread) as int),
            CharClass::Whitespace,
        );
    }
}

/// The lexer yields end-of-file where nothing but whitespace is left, and
/// only there. From then on it is at the end of the input and yields
/// end-of-file however often it is asked.
pub proof fn lemma_end_of_file(s: Seq<char>)
    ensures
        spec_first_token(s) is Eof <==> spec_skip_whitespace(s).len() == 0,
        spec_first_token(s) is Eof ==> spec_rest(s).len() == 0,
        s.len() == 0 ==> spec_first_token(s) is Eof && spec_rest(s) == s,
        spec_skip_whitespace(spec_rest(s)) == spec_rest(s),
{
    let unread = spec_skip_whitespace(s);
    lemma_run_length_bound(s, CharClass::Whitespace);
    if unread.len() > 0 {
        lemma_lexeme_length_bounds(unread);
        let after = unread.skip(spec_lexeme_length(unread) as int);
        lemma_run_length_bound(after, CharClass::Whitespace);
        assert(spec_rest(s).skip(0) =~= spec_rest(s));
    } else {
        assert(unread.skip(0) =~= unread);
    }
}

/// Whitespace at the front of the input changes nothing: no token is made
/// of it.
pub proof fn lemma_whitespace_is_no_token(s: Seq<char>)
    ensures
        spec_first_token(spec_skip_whitespace(s)) == spec_first_token(s),
        spec_rest(spec_skip_whitespace(s)) == spec_rest(s),
        spec_tokens(spec_skip_whitespace(s)) == spec_tokens(s),
{
    let unread = spec_skip_whitespace(s);
    lemma_run_length_bound(s, CharClass::Whitespace);
    assert(spec_skip_whitespace(unread) =~= unread);
}

/// Whether `c` is no whitespace and begins no token of the language.
pub open spec fn is_unrecognized(c: char) -> bool {
    !is_whitespace(c) && !is_digit(c) && !is_letter(c) && spec_symbol(c) == TokenView::Illegal
}

/// An unrecognized character yields exactly one illegal token and costs
/// nothing but itself: lexing goes on with the remaining input as if the
/// character had not been there.
pub proof fn lemma_unrecognized_character(c: char, rest: Seq<char>)
    requires
        is_unrecognized(c),
    ensures
        spec_first_token(seq![c] + rest) == TokenView::Illegal,
        spec_rest(seq![c] + rest) == spec_skip_whitespace(rest),
        spec_tokens(seq![c] + rest) == seq![TokenView::Illegal] + spec_tokens(rest),
{
    let s = seq![c] + rest;
    assert(s[0] == c);
    assert(run_length(s, CharClass::Whitespace) == 0);
    assert(spec_skip_whitespace(s) =~= s);
    assert(spec_lexeme_length(s) == 1);
    assert(s.take(1) =~= seq![c]);
    assert(s.skip(1) =~= rest);
    lemma_whitespace_is_no_token(rest);
}

/// A lexer over a fixed input.
pub struct Lexer {
    position: usize,
    input: Vec<char>,
}

impl View for Lexer {
    type V = Seq<char>;

    /// The characters not yet consumed.
    closed spec fn view(&self) -> Seq<char> {
        self.input@.skip(self.position as int)
    }
}

impl Lexer {
    #[verifier::type_invariant]
    spec fn well_formed(self) -> bool {
        self.position <= self.input.len()
    }

    /// A lexer at the start of `input`.
    pub fn new(input: &str) -> (lexer: Lexer)
        ensures
            lexer@ == input@,
    {
        let mut chars: Vec<char> = Vec::new();
        for c in it: input.chars()
            invariant
                it.seq() == input@,
                chars@ == input@.take(it.index() as int),
        {
            chars.push(c);
        }
        Lexer { position: 0, input: chars }
    }

    /// The character under the cursor, or NUL at the end of the input.
    pub fn cur_char(&self) -> (c: char)
        ensures
            c == (if self@.len() > 0 {
                self@[0]
            } else {
                '\0'
            }),
    {
        proof {
            use_type_invariant(self);
        }
        if self.position < self.input.len() {
            self.input[self.position]
        } else {
            '\0'
        }
    }

    /// Moves the cursor one character on; at the end of the input it stays.
    pub fn read_char(&mut self)
        ensures
            final(self)@ == (if old(self)@.len() > 0 {
                old(self)@.skip(1)
            } else {
                old(self)@
            }),
    {
        proof {
            use_type_invariant(&*self);
        }
        if self.position < self.input.len() {
            self.position = self.position + 1;
        }
    }

    /// The character after the one under the cursor, or NUL where there is
    /// none.
    pub fn peek_char(&self) -> (c: char)
        ensures
            c == (if self@.len() > 1 {
                self@[1]
            } else {
                '\0'
            }),
    {
        proof {
            use_type_invariant(self);
        }
        if self.position < self.input.len() && self.position + 1 < self.input.len() {
            self.input[self.position + 1]
        } else {
            '\0'
        }
    }

    /// Takes the next token: the first token of the unread characters, which
    /// lose the whitespace before its lexeme, the lexeme and the whitespace
    /// behind it. Where nothing but whitespace is left the token is
    /// end-of-file.
    pub fn next_token(&mut self) -> (token: Token)
        ensures
            token@ == spec_first_token(old(self)@),
            final(self)@ == spec_rest(old(self)@),
    {
        proof {
            use_type_invariant(&*self);
        }
        let start = scan(&self.input, self.position, CharClass::Whitespace);
        let ghost unread = spec_skip_whitespace(self@);
        proof {
            assert(self@.skip(start - self.position) =~= self.input@.skip(start as int));
        }
        if start >= self.input.len() {
            self.position = start;
            return Token::Eof;
        }
        let c = self.input[start];
        assert(unread[0] == c);
        let end = if is_digit_char(c) {
            scan(&self.input, start + 1, CharClass::NumberPart)
        } else if is_letter_char(c) {
            scan(&self.input, start + 1, CharClass::WordPart)
        } else if (c == '=' || c == '!' || c == '>' || c == '<') && start + 1 < self.input.len()
            && self.input[start + 1] == '=' {
            start + 2
        } else {
            start + 1
        };
        proof {
            assert(unread.skip(1) =~= self.input@.skip(start + 1));
            lemma_lexeme_length_bounds(unread);
            assert(end - start == spec_lexeme_length(unread));
            assert(unread.take(end - start) =~= self.input@.subrange(start as int, end as int));
        }
        let token = if is_digit_char(c) {
            if number_literal(&self.input, start, end) {
                Token::Num(text(&self.input, start, end))
            } else {
                Token::Illegal
            }
        } else if is_letter_char(c) {
            literal_to_token(&self.input, start, end)
        } else if end - start == 2 {
            compound(c)
        } else {
            symbol(c)
        };
        let next = scan(&self.input, end, CharClass::Whitespace);
        proof {
            assert(unread.skip(end - start) =~= self.input@.skip(end as int));
            assert(self.input@.skip(end as int).skip(next - end) =~= self.input@.skip(next as int));
        }
        self.position = next;
        token
    }
}

fn is_digit_char(c: char) -> (r: bool)
    ensures
        r == is_digit(c),
{
    '0' <= c && c <= '9'
}

fn is_letter_char(c: char) -> (r: bool)
    ensures
        r == is_letter(c),
{
    ('a' <= c && c <= 'z') || ('A' <= c && c <= 'Z')
}

fn is_alphanumeric_char(c: char) -> (r: bool)
    ensures
        r == is_alphanumeric(c),
{
    if c <= '\u{7f}' {
        is_letter_char(c) || is_digit_char(c)
    } else {
        c.is_alphanumeric()
    }
}

fn belongs(class: CharClass, c: char) -> (r: bool)
    ensures
        r == in_class(class, c),
{
    match class {
        CharClass::Digit => is_digit_char(c),
        CharClass::NumberPart => is_alphanumeric_char(c) || c == '.',
        CharClass::WordPart => is_alphanumeric_char(c) || c == '_',
        CharClass::Whitespace => c == ' ' || c == '\t' || c == '\r' || c == '\n',
    }
}

/// The end of the run of `class` that starts at `from`.
fn scan(chars: &Vec<char>, from: usize, class: CharClass) -> (end: usize)
    requires
        from <= chars.len(),
    ensures
        from <= end <= chars.len(),
        end - from == run_length(chars@.skip(from as int), class),
{
    let mut end = from;
    while end < chars.len() && belongs(class, chars[end])
        invariant
            from <= end <= chars.len(),
            run_length(chars@.skip(from as int), class) == (end - from) + run_length(
                chars@.skip(end as int),
                class,
            ),
        decreases chars.len() - end,
    {
        proof {
            assert(chars@.skip(end as int).drop_first() =~= chars@.skip(end + 1));
            assert(chars@.skip(end as int)[0] == chars@[end as int]);
        }
        end = end + 1;
    }
    proof {
        if end < chars.len() {
            assert(chars@.skip(end as int)[0] == chars@[end as int]);
        }
    }
    end
}

/// The end of the run of `class` that starts at `from`, within
/// `chars[..limit]`.
fn scan_within(chars: &Vec<char>, from: usize, limit: usize, class: CharClass) -> (end: usize)
    requires
        from <= limit <= chars.len(),
    ensures
        from <= end <= limit,
        end - from == run_length(chars@.subrange(from as int, limit as int), class),
{
    let mut end = from;
    while end < limit && belongs(class, chars[end])
        invariant
            from <= end <= limit <= chars.len(),
            run_length(chars@.subrange(from as int, limit as int), class) == (end - from)
                + run_length(chars@.subrange(end as int, limit as int), class),
        decreases limit - end,
    {
        proof {
            assert(chars@.subrange(end as int, limit as int).drop_first() =~= chars@.subrange(
                end + 1,
                limit as int,
            ));
            assert(chars@.subrange(end as int, limit as int)[0] == chars@[end as int]);
        }
        end = end + 1;
    }
    proof {
        if end < limit {
            assert(chars@.subrange(end as int, limit as int)[0] == chars@[end as int]);
        }
    }
    end
}

/// Whether `chars[start..end]` is a decimal literal.
fn number_literal(chars: &Vec<char>, start: usize, end: usize) -> (r: bool)
    requires
        start <= end <= chars.len(),
    ensures
        r == is_number_literal(chars@.subrange(start as int, end as int)),
{
    let ghost lexeme = chars@.subrange(start as int, end as int);
    let whole_end = scan_within(chars, start, end, CharClass::Digit);
    let ghost tail = lexeme.skip(whole_end - start);
    assert(tail =~= chars@.subrange(whole_end as int, end as int));
    let fraction_end = if whole_end < end && chars[whole_end] == '.' {
        assert(tail.skip(1) =~= chars@.subrange(whole_end + 1, end as int));
        scan_within(chars, whole_end + 1, end, CharClass::Digit)
    } else {
        whole_end
    };
    let ghost exponent = tail.skip(fraction_end - whole_end);
    assert(exponent =~= chars@.subrange(fraction_end as int, end as int));
    if whole_end == start {
        return false;
    }
    if fraction_end == end {
        return true;
    }
    if !(chars[fraction_end] == 'e' || chars[fraction_end] == 'E') {
        return false;
    }
    if fraction_end + 1 == end {
        return false;
    }
    assert(exponent.skip(1) =~= chars@.subrange(fraction_end + 1, end as int));
    let exponent_end = scan_within(chars, fraction_end + 1, end, CharClass::Digit);
    exponent_end == end
}

/// The characters `chars[start..end]` as a string.
fn text(chars: &Vec<char>, start: usize, end: usize) -> (s: String)
    requires
        start <= end <= chars.len(),
    ensures
        s@ == chars@.subrange(start as int, end as int),
{
    let mut s = String::new();
    let mut i = start;
    while i < end
        invariant
            start <= i <= end <= chars.len(),
            s@ == chars@.subrange(start as int, i as int),
        decreases end - i,
    {
        s.push(chars[i]);
        i = i + 1;
        assert(s@ =~= chars@.subrange(start as int, i as int));
    }
    s
}

/// Whether `chars[start..end]` spells `word`.
fn spells(chars: &Vec<char>, start: usize, end: usize, word: &str) -> (r: bool)
    requires
        start <= end <= chars.len(),
    ensures
        r == (chars@.subrange(start as int, end as int) == word@),
{
    let n = word.unicode_len();
    if end - start != n {
        return false;
    }
    let mut i: usize = 0;
    while i < n
        invariant
            i <= n,
            n == word@.len(),
            start <= end <= chars.len(),
            end - start == n,
            chars@.subrange(start as int, start + i) == word@.take(i as int),
        decreases n - i,
    {
        if chars[start + i] != word.get_char(i) {
            assert(chars@.subrange(start as int, end as int)[i as int] != word@[i as int]);
            return false;
        }
        i = i + 1;
        assert(chars@.subrange(start as int, start + i) =~= word@.take(i as int));
    }
    assert(word@.take(n as int) =~= word@);
    true
}

/// The keyword or identifier that the word `chars[start..end]` stands for.
fn literal_to_token(chars: &Vec<char>, start: usize, end: usize) -> (token: Token)
    requires
        start <= end <= chars.len(),
    ensures
        token@ == spec_literal_to_token(chars@.subrange(start as int, end as int)),
{
    if spells(chars, start, end, "let") {
        Token::Let
    } else if spells(chars, start, end, "fn") {
        Token::Fn
    } else if spells(chars, start, end, "if") {
        Token::If
    } else if spells(chars, start, end, "else") {
        Token::Else
    } else if spells(chars, start, end, "return") {
        Token::Return
    } else if spells(chars, start, end, "true") {
        Token::True
    } else if spells(chars, start, end, "false") {
        Token::False
    } else {
        Token::Ident(text(chars, start, end))
    }
}

fn compound(c: char) -> (token: Token)
    ensures
        token@ == spec_compound(c),
{
    if c == '=' {
        Token::Equal
    } else if c == '!' {
        Token::NotEqual
    } else if c == '>' {
        Token::Gte
    } else {
        Token::Lte
    }
}

fn symbol(c: char) -> (token: Token)
    ensures
        token@ == spec_symbol(c),
{
    match c {
        '+' => Token::Plus,
        '-' => Token::Minus,
        '*' => Token::Asterisk,
        '/' => Token::Slash,
        '=' => Token::Assign,
        '!' => Token::Bang,
        '>' => Token::Gt,
        '<' => Token::Lt,
        ',' => Token::Comma,
        ';' => Token::Semicolon,
        '(' => Token::LParen,
        ')' => Token::RParen,
        '{' => Token::LCurlyBracket,
        '}' => Token::RCurlyBracket,
        '[' => Token::LSquareBracket,
        ']' => Token::RSquareBracket,
        _ => Token::Illegal,
    }
}

} // verus!
