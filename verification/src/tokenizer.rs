//! The lexical scanner: turns one line of query text into tokens, one at a
//! time. Scanning is a pure function of the remaining input: the token that
//! comes out at a cursor position, and the new cursor position, are fixed by
//! `spec_next_token`. Once the cursor reaches the end of the input it stays
//! there, and every further call yields the end-of-input token.
//!
//! Anomalies are tokens, not failures: an unterminated string literal and a
//! stray character each become an invalid-token marker that the parsers
//! reject through their normal error path. A run of digits whose value
//! exceeds the unsigned 64-bit range likewise becomes an invalid-token
//! marker carrying its first digit, so a too-large literal is a typed parse
//! error, never a panic.

use vstd::prelude::*;
use vstd::string::StrSliceExecFns;
use vstd::string::StringExecFns;
use crate::pratt::ExpressionError;

verus! {

/// A typed parse failure, as the statement parser reports it.
#[derive(Debug, PartialEq)]
pub enum ParseError {
    /// The token stream ran out where more input was required.
    UnexpectedEnd,
    /// This keyword was required, but a different token was found.
    ExpectedKeyword(Keyword),
    /// An identifier was required, but a different token was found.
    ExpectedIdentifier,
    /// The expression parser failed on a `WHERE` predicate.
    InvalidExpression(ExpressionError),
    /// The leading token does not begin any recognized statement.
    UnknownStartOfStatement(Token),
    /// A syntax violation within a specific clause.
    General(GeneralError),
}

/// The clause-level syntax violations behind `ParseError::General`.
#[derive(Debug, PartialEq)]
pub enum GeneralError {
    /// The token sequence was empty.
    EmptyInput,
    /// `FROM` arrived before any column name.
    EmptyColumns,
    /// A token that is neither an identifier, a comma nor `FROM` stood in
    /// the column list.
    UnexpectedTokenInColumns(Token),
    /// The input ended inside the column list, before `FROM`.
    UnexpectedEndInColumns,
    /// A token that is neither an identifier, a comma, a semicolon nor
    /// end-of-input stood in the `ORDER BY` list.
    UnexpectedTokenInOrderBy(Token),
}

/// The closed set of keywords. Any identifier whose case-folded text matches
/// one of them is reclassified as that keyword at scan time.
#[derive(Debug, Clone, Copy, PartialEq, Eq, Structural)]
pub enum Keyword {
    Select,
    From,
    Where,
    Create,
    Table,
    Order,
    By,
    And,
    Or,
    Not,
    True,
    False,
    Int,
    Bool,
    Varchar,
    Primary,
    Key,
    Check,
    Null,
}

/// One lexical unit. Tokens are immutable: produced once by the scanner,
/// read sequentially by the parsers.
#[derive(Debug, PartialEq)]
pub enum Token {
    Keyword(Keyword),
    Identifier(String),
    String(String),
    Number(u64),
    Invalid(char),
    LeftParentheses,
    RightParentheses,
    GreaterThan,
    GreaterThanOrEqual,
    LessThan,
    LessThanOrEqual,
    Equal,
    NotEqual,
    Multiply,
    Divide,
    Minus,
    Plus,
    Comma,
    Semicolon,
    Eof,
}

/// The mathematical model of a `Token`: text payloads as character
/// sequences.
pub enum TokenView {
    Keyword(Keyword),
    Identifier(Seq<char>),
    StringLit(Seq<char>),
    Number(u64),
    Invalid(char),
    LeftParentheses,
    RightParentheses,
    GreaterThan,
    GreaterThanOrEqual,
    LessThan,
    LessThanOrEqual,
    Equal,
    NotEqual,
    Multiply,
    Divide,
    Minus,
    Plus,
    Comma,
    Semicolon,
    Eof,
}

impl View for Token {
    type V = TokenView;

    open spec fn view(&self) -> TokenView {
        match self {
            Token::Keyword(k) => TokenView::Keyword(*k),
            Token::Identifier(s) => TokenView::Identifier(s@),
            Token::String(s) => TokenView::StringLit(s@),
            Token::Number(n) => TokenView::Number(*n),
            Token::Invalid(c) => TokenView::Invalid(*c),
            Token::LeftParentheses => TokenView::LeftParentheses,
            Token::RightParentheses => TokenView::RightParentheses,
            Token::GreaterThan => TokenView::GreaterThan,
            Token::GreaterThanOrEqual => TokenView::GreaterThanOrEqual,
            Token::LessThan => TokenView::LessThan,
            Token::LessThanOrEqual => TokenView::LessThanOrEqual,
            Token::Equal => TokenView::Equal,
            Token::NotEqual => TokenView::NotEqual,
            Token::Multiply => TokenView::Multiply,
            Token::Divide => TokenView::Divide,
            Token::Minus => TokenView::Minus,
            Token::Plus => TokenView::Plus,
            Token::Comma => TokenView::Comma,
            Token::Semicolon => TokenView::Semicolon,
            Token::Eof => TokenView::Eof,
        }
    }
}

impl Clone for Token {
    fn clone(&self) -> (r: Token)
        ensures
            r == *self,
    {
        match self {
            Token::Keyword(k) => Token::Keyword(*k),
            Token::Identifier(s) => Token::Identifier(s.clone()),
            Token::String(s) => Token::String(s.clone()),
            Token::Number(n) => Token::Number(*n),
            Token::Invalid(c) => Token::Invalid(*c),
            Token::LeftParentheses => Token::LeftParentheses,
            Token::RightParentheses => Token::RightParentheses,
            Token::GreaterThan => Token::GreaterThan,
            Token::GreaterThanOrEqual => Token::GreaterThanOrEqual,
            Token::LessThan => Token::LessThan,
            Token::LessThanOrEqual => Token::LessThanOrEqual,
            Token::Equal => Token::Equal,
            Token::NotEqual => Token::NotEqual,
            Token::Multiply => Token::Multiply,
            Token::Divide => Token::Divide,
            Token::Minus => Token::Minus,
            Token::Plus => Token::Plus,
            Token::Comma => Token::Comma,
            Token::Semicolon => Token::Semicolon,
            Token::Eof => Token::Eof,
        }
    }
}

/// Whether `c` has the platform's White_Space property.
pub uninterp spec fn is_space_char(c: char) -> bool;

/// Relies on char::is_whitespace: the White_Space property depends on the
/// character alone.
#[verifier::external_body]
fn char_is_space(c: char) -> (b: bool)
    ensures
        b == is_space_char(c),
{
    c.is_whitespace()
}

/// Whether `c` has the platform's Alphabetic property.
pub uninterp spec fn is_alpha_char(c: char) -> bool;

/// Relies on char::is_alphabetic: the Alphabetic property depends on the
/// character alone.
#[verifier::external_body]
fn char_is_alpha(c: char) -> (b: bool)
    ensures
        b == is_alpha_char(c),
{
    c.is_alphabetic()
}

/// Whether `c` is alphanumeric in the platform's sense.
pub uninterp spec fn is_alnum_char(c: char) -> bool;

/// Relies on char::is_alphanumeric: the property depends on the character
/// alone.
#[verifier::external_body]
fn char_is_alnum(c: char) -> (b: bool)
    ensures
        b == is_alnum_char(c),
{
    c.is_alphanumeric()
}

/// The uppercase form of a text, by the platform's case mapping.
pub uninterp spec fn upper_of(s: Seq<char>) -> Seq<char>;

/// Relies on str::to_uppercase: the result depends on the characters alone.
#[verifier::external_body]
fn to_upper(s: &str) -> (r: String)
    ensures
        r@ == upper_of(s@),
{
    s.to_uppercase()
}

/// Relies on String's FromIterator impl: collecting characters yields the
/// string holding exactly those characters in order.
#[verifier::external_body]
fn chars_to_string(v: Vec<char>) -> (s: String)
    ensures
        s@ == v@,
{
    v.into_iter().collect()
}

/// A decimal digit.
pub open spec fn spec_is_digit(c: char) -> bool {
    48 <= c as u32 <= 57
}

fn is_digit_char(c: char) -> (b: bool)
    ensures
        b == spec_is_digit(c),
{
    let u = c as u32;
    48 <= u && u <= 57
}

/// A character that may continue an identifier.
pub open spec fn spec_ident_char(c: char) -> bool {
    is_alnum_char(c) || c == '_'
}

fn is_ident_char(c: char) -> (b: bool)
    ensures
        b == spec_ident_char(c),
{
    char_is_alnum(c) || c == '_'
}

/// The value of a decimal digit.
pub open spec fn digit_val(c: char) -> nat
    recommends
        spec_is_digit(c),
{
    (c as u32 - 48) as nat
}

/// The value of a run of decimal digits, most significant first.
pub open spec fn digit_run_val(s: Seq<char>) -> nat
    decreases s.len(),
{
    if s.len() == 0 {
        0
    } else {
        digit_run_val(s.drop_last()) * 10 + digit_val(s.last())
    }
}

/// The first position at or after `pos` that holds no whitespace, or the
/// end of the text.
pub open spec fn skip_ws(text: Seq<char>, pos: int) -> int
    decreases text.len() - pos when 0 <= pos <= text.len()
{
    if pos < 0 || pos >= text.len() {
        pos
    } else if is_space_char(text[pos]) {
        skip_ws(text, pos + 1)
    } else {
        pos
    }
}

pub proof fn lemma_skip_ws_bounds(text: Seq<char>, pos: int)
    requires
        0 <= pos <= text.len(),
    ensures
        pos <= skip_ws(text, pos) <= text.len(),
    decreases text.len() - pos,
{
    if pos < text.len() && is_space_char(text[pos]) {
        lemma_skip_ws_bounds(text, pos + 1);
    }
}

/// The end of the maximal run of identifier characters starting at `pos`.
pub open spec fn ident_end(text: Seq<char>, pos: int) -> int
    decreases text.len() - pos when 0 <= pos <= text.len()
{
    if pos < 0 || pos >= text.len() {
        pos
    } else if spec_ident_char(text[pos]) {
        ident_end(text, pos + 1)
    } else {
        pos
    }
}

/// The end of the maximal run of decimal digits starting at `pos`.
pub open spec fn digits_end(text: Seq<char>, pos: int) -> int
    decreases text.len() - pos when 0 <= pos <= text.len()
{
    if pos < 0 || pos >= text.len() {
        pos
    } else if spec_is_digit(text[pos]) {
        digits_end(text, pos + 1)
    } else {
        pos
    }
}

/// The position of the first `quote` character at or after `pos`, if any.
pub open spec fn close_quote(text: Seq<char>, pos: int, quote: char) -> Option<int>
    decreases text.len() - pos when 0 <= pos <= text.len()
{
    if pos < 0 || pos >= text.len() {
        Option::None
    } else if text[pos] == quote {
        Option::Some(pos)
    } else {
        close_quote(text, pos + 1, quote)
    }
}

/// The keyword whose uppercase spelling the case-folded word matches, if
/// any.
pub open spec fn spec_keyword_of(w: Seq<char>) -> Option<Keyword> {
    let u = upper_of(w);
    if u == "SELECT"@ {
        Option::Some(Keyword::Select)
    } else if u == "FROM"@ {
        Option::Some(Keyword::From)
    } else if u == "WHERE"@ {
        Option::Some(Keyword::Where)
    } else if u == "CREATE"@ {
        Option::Some(Keyword::Create)
    } else if u == "TABLE"@ {
        Option::Some(Keyword::Table)
    } else if u == "ORDER"@ {
        Option::Some(Keyword::Order)
    } else if u == "BY"@ {
        Option::Some(Keyword::By)
    } else if u == "AND"@ {
        Option::Some(Keyword::And)
    } else if u == "OR"@ {
        Option::Some(Keyword::Or)
    } else if u == "NOT"@ {
        Option::Some(Keyword::Not)
    } else if u == "TRUE"@ {
        Option::Some(Keyword::True)
    } else if u == "FALSE"@ {
        Option::Some(Keyword::False)
    } else if u == "INT"@ {
        Option::Some(Keyword::Int)
    } else if u == "BOOL"@ {
        Option::Some(Keyword::Bool)
    } else if u == "VARCHAR"@ {
        Option::Some(Keyword::Varchar)
    } else if u == "PRIMARY"@ {
        Option::Some(Keyword::Primary)
    } else if u == "KEY"@ {
        Option::Some(Keyword::Key)
    } else if u == "CHECK"@ {
        Option::Some(Keyword::Check)
    } else if u == "NULL"@ {
        Option::Some(Keyword::Null)
    } else {
        Option::None
    }
}

fn lookup_keyword(word: &String) -> (r: Option<Keyword>)
    ensures
        r == spec_keyword_of(word@),
{
    let up = to_upper(word.as_str());
    if up == String::from_str("SELECT") {
        Some(Keyword::Select)
    } else if up == String::from_str("FROM") {
        Some(Keyword::From)
    } else if up == String::from_str("WHERE") {
        Some(Keyword::Where)
    } else if up == String::from_str("CREATE") {
        Some(Keyword::Create)
    } else if up == String::from_str("TABLE") {
        Some(Keyword::Table)
    } else if up == String::from_str("ORDER") {
        Some(Keyword::Order)
    } else if up == String::from_str("BY") {
        Some(Keyword::By)
    } else if up == String::from_str("AND") {
        Some(Keyword::And)
    } else if up == String::from_str("OR") {
        Some(Keyword::Or)
    } else if up == String::from_str("NOT") {
        Some(Keyword::Not)
    } else if up == String::from_str("TRUE") {
        Some(Keyword::True)
    } else if up == String::from_str("FALSE") {
        Some(Keyword::False)
    } else if up == String::from_str("INT") {
        Some(Keyword::Int)
    } else if up == String::from_str("BOOL") {
        Some(Keyword::Bool)
    } else if up == String::from_str("VARCHAR") {
        Some(Keyword::Varchar)
    } else if up == String::from_str("PRIMARY") {
        Some(Keyword::Primary)
    } else if up == String::from_str("KEY") {
        Some(Keyword::Key)
    } else if up == String::from_str("CHECK") {
        Some(Keyword::Check)
    } else if up == String::from_str("NULL") {
        Some(Keyword::Null)
    } else {
        None
    }
}

/// The token that starts exactly at `pos` (no whitespace skipped), and the
/// cursor position after it.
pub open spec fn spec_token_at(text: Seq<char>, pos: int) -> (TokenView, int)
    recommends
        0 <= pos <= text.len(),
{
    if pos >= text.len() {
        (TokenView::Eof, pos)
    } else {
        let c = text[pos];
        if c == ',' {
            (TokenView::Comma, pos + 1)
        } else if c == ';' {
            (TokenView::Semicolon, pos + 1)
        } else if c == '(' {
            (TokenView::LeftParentheses, pos + 1)
        } else if c == ')' {
            (TokenView::RightParentheses, pos + 1)
        } else if c == '+' {
            (TokenView::Plus, pos + 1)
        } else if c == '-' {
            (TokenView::Minus, pos + 1)
        } else if c == '*' {
            (TokenView::Multiply, pos + 1)
        } else if c == '/' {
            (TokenView::Divide, pos + 1)
        } else if c == '=' {
            (TokenView::Equal, pos + 1)
        } else if c == '>' {
            if pos + 1 < text.len() && text[pos + 1] == '=' {
                (TokenView::GreaterThanOrEqual, pos + 2)
            } else {
                (TokenView::GreaterThan, pos + 1)
            }
        } else if c == '<' {
            if pos + 1 < text.len() && text[pos + 1] == '=' {
                (TokenView::LessThanOrEqual, pos + 2)
            } else {
                (TokenView::LessThan, pos + 1)
            }
        } else if c == '!' {
            if pos + 1 < text.len() && text[pos + 1] == '=' {
                (TokenView::NotEqual, pos + 2)
            } else {
                (TokenView::Invalid('!'), pos + 1)
            }
        } else if is_alpha_char(c) {
            let end = ident_end(text, pos + 1);
            let word = text.subrange(pos, end);
            let tok = match spec_keyword_of(word) {
                Option::Some(k) => TokenView::Keyword(k),
                Option::None => TokenView::Identifier(word),
            };
            (tok, end)
        } else if spec_is_digit(c) {
            let end = digits_end(text, pos + 1);
            let v = digit_run_val(text.subrange(pos, end));
            if v <= u64::MAX {
                (TokenView::Number(v as u64), end)
            } else {
                (TokenView::Invalid(c), end)
            }
        } else if c == '"' || c == '\'' {
            match close_quote(text, pos + 1, c) {
                Option::Some(i) => (TokenView::StringLit(text.subrange(pos + 1, i)), i + 1),
                Option::None => (TokenView::Invalid(c), text.len() as int),
            }
        } else {
            (TokenView::Invalid(c), pos + 1)
        }
    }
}

/// The token scanned at cursor position `pos`, after skipping whitespace,
/// and the cursor position after it.
pub open spec fn spec_next_token(text: Seq<char>, pos: int) -> (TokenView, int)
    recommends
        0 <= pos <= text.len(),
{
    spec_token_at(text, skip_ws(text, pos))
}

proof fn lemma_skip_ws_all_space(text: Seq<char>, pos: int)
    requires
        0 <= pos <= text.len(),
        forall|i: int| 0 <= i < text.len() ==> is_space_char(text[i]),
    ensures
        skip_ws(text, pos) == text.len(),
    decreases text.len() - pos,
{
    if pos < text.len() {
        lemma_skip_ws_all_space(text, pos + 1);
    }
}

/// Law: on an input consisting solely of whitespace, the scanner's first
/// token is end-of-input, with the cursor at the end of the text.
pub proof fn lemma_whitespace_only_scans_to_eof(text: Seq<char>)
    requires
        forall|i: int| 0 <= i < text.len() ==> is_space_char(text[i]),
    ensures
        spec_next_token(text, 0) == (TokenView::Eof, text.len() as int),
{
    lemma_skip_ws_all_space(text, 0);
}

/// Law: scanning at the end of the text yields the end-of-input token and
/// leaves the cursor where it is, so the scan can be repeated freely.
pub proof fn lemma_end_of_input_is_absorbing(text: Seq<char>, pos: int)
    requires
        pos == text.len(),
    ensures
        spec_next_token(text, pos) == (TokenView::Eof, pos),
{
}

/// A character that the scanner reads as the start of a punctuation or
/// operator token, before it considers anything else.
pub open spec fn starts_symbol(c: char) -> bool {
    c == ',' || c == ';' || c == '(' || c == ')' || c == '+' || c == '-' || c == '*' || c == '/'
        || c == '=' || c == '>' || c == '<' || c == '!'
}

/// Law: an alphabetic-led word is reclassified as a keyword exactly when
/// its case-folded text matches one, and stays an identifier holding the
/// original-case text otherwise. The word is the maximal run of
/// alphanumeric-or-underscore characters after its first character.
pub proof fn lemma_keyword_reclassification(text: Seq<char>, pos: int)
    requires
        0 <= pos < text.len(),
        is_alpha_char(text[pos]),
        !starts_symbol(text[pos]),
    ensures
        ({
            let end = ident_end(text, pos + 1);
            let word = text.subrange(pos, end);
            spec_token_at(text, pos) == (
                match spec_keyword_of(word) {
                    Option::Some(k) => TokenView::Keyword(k),
                    Option::None => TokenView::Identifier(word),
                },
                end,
            )
        }),
{
}

/// The scanner: a cursor over the characters of one line of input.
pub struct Tokenizer {
    input: Vec<char>,
    position: usize,
}

impl Tokenizer {
    /// The characters being scanned.
    pub closed spec fn text(&self) -> Seq<char> {
        self.input@
    }

    /// The cursor position.
    pub closed spec fn pos(&self) -> int {
        self.position as int
    }

    /// The cursor never stands past the end of the text.
    pub open spec fn wf(&self) -> bool {
        0 <= self.pos() <= self.text().len()
    }

    /// Builds a scanner over `input`, with the cursor at the start.
    #[verifier::loop_isolation(false)]
    pub fn new(input: &str) -> (t: Tokenizer)
        ensures
            t.wf(),
            t.text() == input@,
            t.pos() == 0,
    {
        let n = input.unicode_len();
        let mut chars: Vec<char> = Vec::new();
        let mut i: usize = 0;
        while i < n
            invariant
                i <= n,
                n == input@.len(),
                chars@ == input@.subrange(0, i as int),
            decreases n - i,
        {
            chars.push(input.get_char(i));
            proof {
                assert(chars@ =~= input@.subrange(0, i + 1 as int));
            }
            i = i + 1;
        }
        proof {
            assert(chars@ =~= input@);
        }
        Tokenizer { input: chars, position: 0 }
    }

    #[verifier::loop_isolation(false)]
    fn skip_whitespace(&mut self)
        requires
            old(self).wf(),
        ensures
            final(self).wf(),
            final(self).text() == old(self).text(),
            final(self).pos() == skip_ws(old(self).text(), old(self).pos()),
    {
        while self.position < self.input.len() && char_is_space(self.input[self.position])
            invariant
                self.wf(),
                self.text() == old(self).text(),
                skip_ws(self.text(), self.pos()) == skip_ws(old(self).text(), old(self).pos()),
            decreases self.input@.len() - self.position,
        {
            proof {
                assert(skip_ws(self.text(), self.pos()) == skip_ws(self.text(), self.pos() + 1));
            }
            self.position = self.position + 1;
        }
    }

    /// Scans the next token and advances the cursor past it. At the end of
    /// the input this yields the end-of-input token and the cursor stays
    /// where it is, so the call can be repeated freely.
    #[verifier::loop_isolation(false)]
    pub fn next_token(&mut self) -> (tok: Token)
        requires
            old(self).wf(),
        ensures
            final(self).wf(),
            final(self).text() == old(self).text(),
            tok@ == spec_next_token(old(self).text(), old(self).pos()).0,
            final(self).pos() == spec_next_token(old(self).text(), old(self).pos()).1,
    {
        let ghost text = self.input@;
        self.skip_whitespace();
        proof {
            lemma_skip_ws_bounds(text, old(self).pos());
        }
        if self.position >= self.input.len() {
            return Token::Eof;
        }
        let ghost start = self.position as int;
        let c = self.input[self.position];
        self.position = self.position + 1;
        if c == ',' {
            Token::Comma
        } else if c == ';' {
            Token::Semicolon
        } else if c == '(' {
            Token::LeftParentheses
        } else if c == ')' {
            Token::RightParentheses
        } else if c == '+' {
            Token::Plus
        } else if c == '-' {
            Token::Minus
        } else if c == '*' {
            Token::Multiply
        } else if c == '/' {
            Token::Divide
        } else if c == '=' {
            Token::Equal
        } else if c == '>' {
            if self.position < self.input.len() && self.input[self.position] == '=' {
                self.position = self.position + 1;
                Token::GreaterThanOrEqual
            } else {
                Token::GreaterThan
            }
        } else if c == '<' {
            if self.position < self.input.len() && self.input[self.position] == '=' {
                self.position = self.position + 1;
                Token::LessThanOrEqual
            } else {
                Token::LessThan
            }
        } else if c == '!' {
            if self.position < self.input.len() && self.input[self.position] == '=' {
                self.position = self.position + 1;
                Token::NotEqual
            } else {
                Token::Invalid('!')
            }
        } else if char_is_alpha(c) {
            let mut word: Vec<char> = Vec::new();
            word.push(c);
            while self.position < self.input.len() && is_ident_char(self.input[self.position])
                invariant
                    self.wf(),
                    self.input@ == text,
                    start + 1 <= self.pos(),
                    word@ == text.subrange(start, self.pos()),
                    ident_end(text, start + 1) == ident_end(text, self.pos()),
                decreases self.input@.len() - self.position,
            {
                proof {
                    assert(ident_end(text, self.pos()) == ident_end(text, self.pos() + 1));
                    assert(text.subrange(start, self.pos() + 1) =~= text.subrange(
                        start,
                        self.pos(),
                    ).push(text[self.pos()]));
                }
                word.push(self.input[self.position]);
                self.position = self.position + 1;
            }
            proof {
                assert(ident_end(text, self.pos()) == self.pos());
            }
            let s = chars_to_string(word);
            match lookup_keyword(&s) {
                Some(k) => Token::Keyword(k),
                None => Token::Identifier(s),
            }
        } else if is_digit_char(c) {
            let mut value: u64 = (c as u32 - 48) as u64;
            let mut overflowed: bool = false;
            proof {
                assert(text.subrange(start, start + 1) =~= Seq::empty().push(text[start]));
                assert(text.subrange(start, start + 1).drop_last() =~= Seq::<char>::empty());
                assert(digit_run_val(Seq::<char>::empty()) == 0);
                assert(digit_run_val(text.subrange(start, start + 1)) == digit_val(text[start]));
            }
            while self.position < self.input.len() && is_digit_char(self.input[self.position])
                invariant
                    self.wf(),
                    self.input@ == text,
                    start + 1 <= self.pos(),
                    !overflowed ==> value == digit_run_val(text.subrange(start, self.pos())),
                    overflowed ==> digit_run_val(text.subrange(start, self.pos())) > u64::MAX,
                    digits_end(text, start + 1) == digits_end(text, self.pos()),
                decreases self.input@.len() - self.position,
            {
                let d = self.input[self.position];
                proof {
                    assert(digits_end(text, self.pos()) == digits_end(text, self.pos() + 1));
                    assert(text.subrange(start, self.pos() + 1).drop_last() =~= text.subrange(
                        start,
                        self.pos(),
                    ));
                    assert(text.subrange(start, self.pos() + 1).last() == text[self.pos()]);
                    assert(digit_run_val(text.subrange(start, self.pos() + 1)) == digit_run_val(
                        text.subrange(start, self.pos()),
                    ) * 10 + digit_val(text[self.pos()]));
                }
                let dv = (d as u32 - 48) as u64;
                if !overflowed {
                    match value.checked_mul(10) {
                        Some(v10) => {
                            match v10.checked_add(dv) {
                                Some(v) => {
                                    value = v;
                                },
                                None => {
                                    overflowed = true;
                                },
                            }
                        },
                        None => {
                            overflowed = true;
                        },
                    }
                }
                self.position = self.position + 1;
            }
            proof {
                assert(digits_end(text, self.pos()) == self.pos());
            }
            if overflowed {
                Token::Invalid(c)
            } else {
                Token::Number(value)
            }
        } else if c == '"' || c == '\'' {
            let mut content: Vec<char> = Vec::new();
            while self.position < self.input.len() && self.input[self.position] != c
                invariant
                    self.wf(),
                    self.input@ == text,
                    start + 1 <= self.pos(),
                    content@ == text.subrange(start + 1, self.pos()),
                    close_quote(text, start + 1, c) == close_quote(text, self.pos(), c),
                decreases self.input@.len() - self.position,
            {
                proof {
                    assert(close_quote(text, self.pos(), c) == close_quote(text, self.pos() + 1, c));
                    assert(text.subrange(start + 1, self.pos() + 1) =~= text.subrange(
                        start + 1,
                        self.pos(),
                    ).push(text[self.pos()]));
                }
                content.push(self.input[self.position]);
                self.position = self.position + 1;
            }
            if self.position < self.input.len() {
                proof {
                    assert(close_quote(text, self.pos(), c) == Option::Some(self.pos()));
                }
                self.position = self.position + 1;
                Token::String(chars_to_string(content))
            } else {
                proof {
                    assert(close_quote(text, self.pos(), c) is None);
                }
                Token::Invalid(c)
            }
        } else {
            Token::Invalid(c)
        }
    }
}

} // verus!
