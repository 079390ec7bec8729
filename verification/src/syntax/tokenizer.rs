//! From the text of a statement to its tokens.

use crate::chars::{lowered, string_of, to_chars, to_lower};
use crate::text::text_equal;
use vstd::prelude::*;

verus! {

/// The four classes of characters that the tokenizer tells apart.
#[derive(Debug, Clone, Copy, PartialEq, Eq, Structural)]
pub enum CharacterClass {
    Whitespace,
    Alphabetic,
    Numeric,
    Special,
}

/// One token of a statement.
#[derive(Debug, PartialEq)]
pub enum Token {
    Whitespace,
    Identifier(String),
    Literal(LiteralKind),
    Variable(String),
    Operator(String),
    // keywords
    Abort,
    Add,
    After,
    All,
    Alter,
    Analyze,
    And,
    As,
    Asc,
    Attach,
    Autoincrement,
    Before,
    Begin,
    Between,
    By,
    Cascade,
    Case,
    Cast,
    Check,
    Collate,
    Column,
    Commit,
    Conflict,
    Constraint,
    Create,
    Cross,
    CurrentDate,
    CurrentTime,
    CurrentTimestamp,
    Database,
    Default,
    Deferrable,
    Deferred,
    Delete,
    Desc,
    Detach,
    Distinct,
    Drop,
    Each,
    Else,
    Escape,
    Except,
    Exclusive,
    Exists,
    Explain,
    Fail,
    For,
    Foreign,
    From,
    Full,
    Glob,
    Group,
    Having,
    If,
    Ignore,
    Immediate,
    In,
    Index,
    Indexed,
    Initially,
    Inner,
    Insert,
    Instead,
    Intersect,
    Into,
    Is,
    IsNull,
    Join,
    Key,
    Left,
    Like,
    Limit,
    Match,
    Natural,
    No,
    Not,
    NotNull,
    Null,
    Of,
    Offset,
    On,
    Or,
    Order,
    Outer,
    Plan,
    Pragma,
    Primary,
    Query,
    Raise,
    Recursive,
    References,
    Regexp,
    Reindex,
    Release,
    Rename,
    Replace,
    Restrict,
    Right,
    Rollback,
    Row,
    Rows,
    Savepoint,
    Select,
    SetKeyword,
    Table,
    Temp,
    Temporary,
    Then,
    To,
    Transaction,
    Trigger,
    Union,
    Unique,
    Update,
    Using,
    Vacuum,
    Values,
    View,
    Virtual,
    When,
    Where,
    Window,
    With,
    Without,
}

/// A literal, kept as it was written; of a string, what stands between the
/// quotes.
#[derive(Debug, PartialEq)]
pub enum LiteralKind {
    Str(String),
    Blob(String),
    Integer(String),
    Float(String),
}

/// What a [`LiteralKind`] stands for.
pub enum Literal {
    Str(Seq<char>),
    Blob(Seq<char>),
    Integer(Seq<char>),
    Float(Seq<char>),
}

/// What a [`Token`] stands for: a token that holds no text stands for
/// itself.
pub enum Lexeme {
    Word(Token),
    Identifier(Seq<char>),
    Literal(Literal),
    Variable(Seq<char>),
    Operator(Seq<char>),
}

impl DeepView for LiteralKind {
    type V = Literal;

    open spec fn deep_view(&self) -> Literal {
        match self {
            LiteralKind::Str(s) => Literal::Str(s@),
            LiteralKind::Blob(s) => Literal::Blob(s@),
            LiteralKind::Integer(s) => Literal::Integer(s@),
            LiteralKind::Float(s) => Literal::Float(s@),
        }
    }
}

impl DeepView for Token {
    type V = Lexeme;

    open spec fn deep_view(&self) -> Lexeme {
        match self {
            Token::Identifier(s) => Lexeme::Identifier(s@),
            Token::Literal(l) => Lexeme::Literal(l.deep_view()),
            Token::Variable(s) => Lexeme::Variable(s@),
            Token::Operator(s) => Lexeme::Operator(s@),
            _ => Lexeme::Word(*self),
        }
    }
}

impl Literal {
    /// The text of the literal.
    pub open spec fn text(self) -> Seq<char> {
        match self {
            Literal::Str(s) => s,
            Literal::Blob(s) => s,
            Literal::Integer(s) => s,
            Literal::Float(s) => s,
        }
    }
}

/// The class of the character `c`. The underscore counts as a letter, and
/// so does every character from U+007F on that is no white space.
pub open spec fn spec_classify(c: char) -> CharacterClass {
    let u = c as u32;
    if (0x09 <= u <= 0x0d) || u == 0x20 || u == 0x85 || u == 0xa0 || u == 0x1680 || (0x2000 <= u
        <= 0x200a) || u == 0x2028 || u == 0x2029 || u == 0x202f || u == 0x205f || u == 0x3000 {
        CharacterClass::Whitespace
    } else if (0x41 <= u <= 0x5a) || (0x61 <= u <= 0x7a) || u == 0x0f || u == 0x5f || u >= 0x7f {
        CharacterClass::Alphabetic
    } else if 0x30 <= u <= 0x39 {
        CharacterClass::Numeric
    } else {
        CharacterClass::Special
    }
}

/// Whether `c` is a letter or a digit.
pub open spec fn spec_is_alphanumeric(c: char) -> bool {
    spec_classify(c) == CharacterClass::Alphabetic || spec_classify(c) == CharacterClass::Numeric
}

/// Whether `c` is one of the ten digits.
pub open spec fn is_digit(c: char) -> bool {
    0x30 <= c as u32 <= 0x39
}

/// The keyword that the lower-case word `s` is, if it is one.
pub open spec fn keyword_of(s: Seq<char>) -> Option<Token> {
    if s == "abort"@ {
        Some(Token::Abort)
    } else     if s == "add"@ {
        Some(Token::Add)
    } else     if s == "after"@ {
        Some(Token::After)
    } else     if s == "all"@ {
        Some(Token::All)
    } else     if s == "alter"@ {
        Some(Token::Alter)
    } else     if s == "analyze"@ {
        Some(Token::Analyze)
    } else     if s == "and"@ {
        Some(Token::And)
    } else     if s == "as"@ {
        Some(Token::As)
    } else     if s == "asc"@ {
        Some(Token::Asc)
    } else     if s == "attach"@ {
        Some(Token::Attach)
    } else     if s == "autoincrement"@ {
        Some(Token::Autoincrement)
    } else     if s == "before"@ {
        Some(Token::Before)
    } else     if s == "begin"@ {
        Some(Token::Begin)
    } else     if s == "between"@ {
        Some(Token::Between)
    } else     if s == "by"@ {
        Some(Token::By)
    } else     if s == "cascade"@ {
        Some(Token::Cascade)
    } else     if s == "case"@ {
        Some(Token::Case)
    } else     if s == "cast"@ {
        Some(Token::Cast)
    } else     if s == "check"@ {
        Some(Token::Check)
    } else     if s == "collate"@ {
        Some(Token::Collate)
    } else     if s == "column"@ {
        Some(Token::Column)
    } else     if s == "commit"@ {
        Some(Token::Commit)
    } else     if s == "conflict"@ {
        Some(Token::Conflict)
    } else     if s == "constraint"@ {
        Some(Token::Constraint)
    } else     if s == "create"@ {
        Some(Token::Create)
    } else     if s == "cross"@ {
        Some(Token::Cross)
    } else     if s == "current_date"@ {
        Some(Token::CurrentDate)
    } else     if s == "current_time"@ {
        Some(Token::CurrentTime)
    } else     if s == "current_timestamp"@ {
        Some(Token::CurrentTimestamp)
    } else     if s == "database"@ {
        Some(Token::Database)
    } else     if s == "default"@ {
        Some(Token::Default)
    } else     if s == "deferrable"@ {
        Some(Token::Deferrable)
    } else     if s == "deferred"@ {
        Some(Token::Deferred)
    } else     if s == "delete"@ {
        Some(Token::Delete)
    } else     if s == "desc"@ {
        Some(Token::Desc)
    } else     if s == "detach"@ {
        Some(Token::Detach)
    } else     if s == "distinct"@ {
        Some(Token::Distinct)
    } else     if s == "drop"@ {
        Some(Token::Drop)
    } else     if s == "each"@ {
        Some(Token::Each)
    } else     if s == "else"@ {
        Some(Token::Else)
    } else     if s == "escape"@ {
        Some(Token::Escape)
    } else     if s == "except"@ {
        Some(Token::Except)
    } else     if s == "exclusive"@ {
        Some(Token::Exclusive)
    } else     if s == "exists"@ {
        Some(Token::Exists)
    } else     if s == "explain"@ {
        Some(Token::Explain)
    } else     if s == "fail"@ {
        Some(Token::Fail)
    } else     if s == "for"@ {
        Some(Token::For)
    } else     if s == "foreign"@ {
        Some(Token::Foreign)
    } else     if s == "from"@ {
        Some(Token::From)
    } else     if s == "full"@ {
        Some(Token::Full)
    } else     if s == "glob"@ {
        Some(Token::Glob)
    } else     if s == "group"@ {
        Some(Token::Group)
    } else     if s == "having"@ {
        Some(Token::Having)
    } else     if s == "if"@ {
        Some(Token::If)
    } else     if s == "ignore"@ {
        Some(Token::Ignore)
    } else     if s == "immediate"@ {
        Some(Token::Immediate)
    } else     if s == "in"@ {
        Some(Token::In)
    } else     if s == "index"@ {
        Some(Token::Index)
    } else     if s == "indexed"@ {
        Some(Token::Indexed)
    } else     if s == "initially"@ {
        Some(Token::Initially)
    } else     if s == "inner"@ {
        Some(Token::Inner)
    } else     if s == "insert"@ {
        Some(Token::Insert)
    } else     if s == "instead"@ {
        Some(Token::Instead)
    } else     if s == "intersect"@ {
        Some(Token::Intersect)
    } else     if s == "into"@ {
        Some(Token::Into)
    } else     if s == "is"@ {
        Some(Token::Is)
    } else     if s == "isnull"@ {
        Some(Token::IsNull)
    } else     if s == "join"@ {
        Some(Token::Join)
    } else     if s == "key"@ {
        Some(Token::Key)
    } else     if s == "left"@ {
        Some(Token::Left)
    } else     if s == "like"@ {
        Some(Token::Like)
    } else     if s == "limit"@ {
        Some(Token::Limit)
    } else     if s == "match"@ {
        Some(Token::Match)
    } else     if s == "natural"@ {
        Some(Token::Natural)
    } else     if s == "no"@ {
        Some(Token::No)
    } else     if s == "not"@ {
        Some(Token::Not)
    } else     if s == "notnull"@ {
        Some(Token::NotNull)
    } else     if s == "null"@ {
        Some(Token::Null)
    } else     if s == "of"@ {
        Some(Token::Of)
    } else     if s == "offset"@ {
        Some(Token::Offset)
    } else     if s == "on"@ {
        Some(Token::On)
    } else     if s == "or"@ {
        Some(Token::Or)
    } else     if s == "order"@ {
        Some(Token::Order)
    } else     if s == "outer"@ {
        Some(Token::Outer)
    } else     if s == "plan"@ {
        Some(Token::Plan)
    } else     if s == "pragma"@ {
        Some(Token::Pragma)
    } else     if s == "primary"@ {
        Some(Token::Primary)
    } else     if s == "query"@ {
        Some(Token::Query)
    } else     if s == "raise"@ {
        Some(Token::Raise)
    } else     if s == "recursive"@ {
        Some(Token::Recursive)
    } else     if s == "references"@ {
        Some(Token::References)
    } else     if s == "regexp"@ {
        Some(Token::Regexp)
    } else     if s == "reindex"@ {
        Some(Token::Reindex)
    } else     if s == "release"@ {
        Some(Token::Release)
    } else     if s == "rename"@ {
        Some(Token::Rename)
    } else     if s == "replace"@ {
        Some(Token::Replace)
    } else     if s == "restrict"@ {
        Some(Token::Restrict)
    } else     if s == "right"@ {
        Some(Token::Right)
    } else     if s == "rollback"@ {
        Some(Token::Rollback)
    } else     if s == "row"@ {
        Some(Token::Row)
    } else     if s == "rows"@ {
        Some(Token::Rows)
    } else     if s == "savepoint"@ {
        Some(Token::Savepoint)
    } else     if s == "select"@ {
        Some(Token::Select)
    } else     if s == "set"@ {
        Some(Token::SetKeyword)
    } else     if s == "table"@ {
        Some(Token::Table)
    } else     if s == "temp"@ {
        Some(Token::Temp)
    } else     if s == "temporary"@ {
        Some(Token::Temporary)
    } else     if s == "then"@ {
        Some(Token::Then)
    } else     if s == "to"@ {
        Some(Token::To)
    } else     if s == "transaction"@ {
        Some(Token::Transaction)
    } else     if s == "trigger"@ {
        Some(Token::Trigger)
    } else     if s == "union"@ {
        Some(Token::Union)
    } else     if s == "unique"@ {
        Some(Token::Unique)
    } else     if s == "update"@ {
        Some(Token::Update)
    } else     if s == "using"@ {
        Some(Token::Using)
    } else     if s == "vacuum"@ {
        Some(Token::Vacuum)
    } else     if s == "values"@ {
        Some(Token::Values)
    } else     if s == "view"@ {
        Some(Token::View)
    } else     if s == "virtual"@ {
        Some(Token::Virtual)
    } else     if s == "when"@ {
        Some(Token::When)
    } else     if s == "where"@ {
        Some(Token::Where)
    } else     if s == "window"@ {
        Some(Token::Window)
    } else     if s == "with"@ {
        Some(Token::With)
    } else     if s == "without"@ {
        Some(Token::Without)
    } else {
        None
    }
}

/// What a word stands for: a keyword, whatever its case, or else an
/// identifier as it was written.
pub open spec fn word_lexeme(word: Seq<char>) -> Lexeme {
    match keyword_of(lowered(word)) {
        Some(t) => Lexeme::Word(t),
        None => Lexeme::Identifier(word),
    }
}

/// The number of letters and digits from place `j` on.
pub open spec fn word_len(s: Seq<char>, j: int) -> nat
    decreases s.len() - j,
{
    if 0 <= j < s.len() && spec_is_alphanumeric(s[j]) {
        1 + word_len(s, j + 1)
    } else {
        0
    }
}

/// The length of what goes on a number from place `j` on: digits, and one
/// point where `dot` says that none came before.
pub open spec fn number_len(s: Seq<char>, j: int, dot: bool) -> nat
    decreases s.len() - j,
{
    if 0 <= j < s.len() && is_digit(s[j]) {
        1 + number_len(s, j + 1, dot)
    } else if 0 <= j < s.len() && s[j] == '.' && !dot {
        1 + number_len(s, j + 1, true)
    } else {
        0
    }
}

/// Whether the number that goes on from place `j` has a point, `dot` saying
/// whether one came before.
pub open spec fn number_has_dot(s: Seq<char>, j: int, dot: bool) -> bool
    decreases s.len() - j,
{
    if 0 <= j < s.len() && is_digit(s[j]) {
        number_has_dot(s, j + 1, dot)
    } else if 0 <= j < s.len() && s[j] == '.' && !dot {
        number_has_dot(s, j + 1, true)
    } else {
        dot
    }
}

/// The number of characters from place `j` to the end of the line.
pub open spec fn line_len(s: Seq<char>, j: int) -> nat
    decreases s.len() - j,
{
    if 0 <= j < s.len() && s[j] != '\n' {
        1 + line_len(s, j + 1)
    } else {
        0
    }
}

/// The number of characters from place `j` through the end of a block
/// comment, or to the end of the text where the comment is not closed.
pub open spec fn comment_len(s: Seq<char>, j: int) -> nat
    decreases s.len() - j,
{
    if !(0 <= j < s.len()) {
        0
    } else if s[j] == '*' && j + 1 < s.len() && s[j + 1] == '/' {
        2
    } else {
        1 + comment_len(s, j + 1)
    }
}

/// The number of characters from place `j` through the quote that closes a
/// string, or to the end of the text where the string is not closed. Two
/// quotes in a row close nothing.
pub open spec fn quoted_len(s: Seq<char>, j: int) -> nat
    decreases s.len() - j,
{
    if !(0 <= j < s.len()) {
        0
    } else if s[j] == '\'' {
        if j + 1 < s.len() && s[j + 1] == '\'' {
            2 + quoted_len(s, j + 2)
        } else {
            1
        }
    } else {
        1 + quoted_len(s, j + 1)
    }
}

/// The text of the string that goes on from place `j`: the characters up
/// to the closing quote, with one quote for two in a row.
pub open spec fn quoted_text(s: Seq<char>, j: int) -> Seq<char>
    decreases s.len() - j,
{
    if !(0 <= j < s.len()) {
        Seq::empty()
    } else if s[j] == '\'' {
        if j + 1 < s.len() && s[j + 1] == '\'' {
            seq!['\''] + quoted_text(s, j + 2)
        } else {
            Seq::empty()
        }
    } else {
        seq![s[j]] + quoted_text(s, j + 1)
    }
}

/// A word ends within the text.
pub proof fn lemma_word_within(s: Seq<char>, j: int)
    requires
        0 <= j <= s.len(),
    ensures
        j + word_len(s, j) <= s.len(),
    decreases s.len() - j,
{
    if j < s.len() && spec_is_alphanumeric(s[j]) {
        lemma_word_within(s, j + 1);
    }
}

/// A number ends within the text.
pub proof fn lemma_number_within(s: Seq<char>, j: int, dot: bool)
    requires
        0 <= j <= s.len(),
    ensures
        j + number_len(s, j, dot) <= s.len(),
    decreases s.len() - j,
{
    if j < s.len() && is_digit(s[j]) {
        lemma_number_within(s, j + 1, dot);
    } else if j < s.len() && s[j] == '.' && !dot {
        lemma_number_within(s, j + 1, true);
    }
}

/// A line ends within the text.
pub proof fn lemma_line_within(s: Seq<char>, j: int)
    requires
        0 <= j <= s.len(),
    ensures
        j + line_len(s, j) <= s.len(),
    decreases s.len() - j,
{
    if j < s.len() && s[j] != '\n' {
        lemma_line_within(s, j + 1);
    }
}

/// A comment ends within the text.
pub proof fn lemma_comment_within(s: Seq<char>, j: int)
    requires
        0 <= j <= s.len(),
    ensures
        j + comment_len(s, j) <= s.len(),
    decreases s.len() - j,
{
    if j < s.len() && !(s[j] == '*' && j + 1 < s.len() && s[j + 1] == '/') {
        lemma_comment_within(s, j + 1);
    }
}

/// A string ends within the text.
pub proof fn lemma_quoted_within(s: Seq<char>, j: int)
    requires
        0 <= j <= s.len(),
    ensures
        j + quoted_len(s, j) <= s.len(),
    decreases s.len() - j,
{
    if j < s.len() {
        if s[j] == '\'' {
            if j + 1 < s.len() && s[j + 1] == '\'' {
                lemma_quoted_within(s, j + 2);
            }
        } else {
            lemma_quoted_within(s, j + 1);
        }
    }
}

/// The tokens of the text from place `i` on. White space parts tokens and
/// is no token. A letter begins a word, which goes on over letters and
/// digits. A digit begins a number. Two hyphens begin a comment to the end
/// of the line, a slash and a star one that a star and a slash end. A quote
/// begins a string. Any other character is an operator by itself.
pub open spec fn lex_from(s: Seq<char>, i: int) -> Seq<Lexeme>
    decreases s.len() - i,
{
    if !(0 <= i < s.len()) {
        Seq::empty()
    } else {
        match spec_classify(s[i]) {
            CharacterClass::Whitespace => lex_from(s, i + 1),
            CharacterClass::Alphabetic => {
                proof {
                    lemma_word_within(s, i + 1);
                }
                let end = i + 1 + word_len(s, i + 1);
                seq![word_lexeme(s.subrange(i, end))] + lex_from(s, end)
            },
            CharacterClass::Numeric => {
                proof {
                    lemma_number_within(s, i + 1, false);
                }
                let end = i + 1 + number_len(s, i + 1, false);
                let text = s.subrange(i, end);
                let literal = if number_has_dot(s, i + 1, false) {
                    Literal::Float(text)
                } else {
                    Literal::Integer(text)
                };
                seq![Lexeme::Literal(literal)] + lex_from(s, end)
            },
            CharacterClass::Special => {
                if s[i] == '-' && i + 1 < s.len() && s[i + 1] == '-' {
                    proof {
                        lemma_line_within(s, i + 2);
                    }
                    lex_from(s, i + 2 + line_len(s, i + 2))
                } else if s[i] == '/' && i + 1 < s.len() && s[i + 1] == '*' {
                    proof {
                        lemma_comment_within(s, i + 2);
                    }
                    lex_from(s, i + 2 + comment_len(s, i + 2))
                } else if s[i] == '\'' {
                    proof {
                        lemma_quoted_within(s, i + 1);
                    }
                    seq![Lexeme::Literal(Literal::Str(quoted_text(s, i + 1)))] + lex_from(
                        s,
                        i + 1 + quoted_len(s, i + 1),
                    )
                } else {
                    seq![Lexeme::Operator(seq![s[i]])] + lex_from(s, i + 1)
                }
            },
        }
    }
}

/// The tokens of a text.
pub open spec fn spec_tokenize(s: Seq<char>) -> Seq<Lexeme> {
    lex_from(s, 0)
}

/// Says to which class `c` belongs.
pub fn classify(c: &char) -> (class: CharacterClass)
    ensures
        class == spec_classify(*c),
{
    let u = *c as u32;
    if (0x09 <= u && u <= 0x0d) || u == 0x20 || u == 0x85 || u == 0xa0 || u == 0x1680 || (0x2000
        <= u && u <= 0x200a) || u == 0x2028 || u == 0x2029 || u == 0x202f || u == 0x205f || u
        == 0x3000 {
        CharacterClass::Whitespace
    } else if (0x41 <= u && u <= 0x5a) || (0x61 <= u && u <= 0x7a) || u == 0x0f || u == 0x5f || u
        >= 0x7f {
        CharacterClass::Alphabetic
    } else if 0x30 <= u && u <= 0x39 {
        CharacterClass::Numeric
    } else {
        CharacterClass::Special
    }
}

/// Whether `c` is a letter or a digit.
pub fn is_alphanumeric(c: &char) -> (b: bool)
    ensures
        b == spec_is_alphanumeric(*c),
{
    match classify(c) {
        CharacterClass::Alphabetic | CharacterClass::Numeric => true,
        _ => false,
    }
}

/// The keyword that the lower-case word `s` is, if it is one.
pub fn keyword(s: &str) -> (r: Option<Token>)
    ensures
        r == keyword_of(s@),
        r matches Some(t) ==> t.deep_view() == Lexeme::Word(t),
{
    if text_equal(s, "abort") {
        Some(Token::Abort)
    } else     if text_equal(s, "add") {
        Some(Token::Add)
    } else     if text_equal(s, "after") {
        Some(Token::After)
    } else     if text_equal(s, "all") {
        Some(Token::All)
    } else     if text_equal(s, "alter") {
        Some(Token::Alter)
    } else     if text_equal(s, "analyze") {
        Some(Token::Analyze)
    } else     if text_equal(s, "and") {
        Some(Token::And)
    } else     if text_equal(s, "as") {
        Some(Token::As)
    } else     if text_equal(s, "asc") {
        Some(Token::Asc)
    } else     if text_equal(s, "attach") {
        Some(Token::Attach)
    } else     if text_equal(s, "autoincrement") {
        Some(Token::Autoincrement)
    } else     if text_equal(s, "before") {
        Some(Token::Before)
    } else     if text_equal(s, "begin") {
        Some(Token::Begin)
    } else     if text_equal(s, "between") {
        Some(Token::Between)
    } else     if text_equal(s, "by") {
        Some(Token::By)
    } else     if text_equal(s, "cascade") {
        Some(Token::Cascade)
    } else     if text_equal(s, "case") {
        Some(Token::Case)
    } else     if text_equal(s, "cast") {
        Some(Token::Cast)
    } else     if text_equal(s, "check") {
        Some(Token::Check)
    } else     if text_equal(s, "collate") {
        Some(Token::Collate)
    } else     if text_equal(s, "column") {
        Some(Token::Column)
    } else     if text_equal(s, "commit") {
        Some(Token::Commit)
    } else     if text_equal(s, "conflict") {
        Some(Token::Conflict)
    } else     if text_equal(s, "constraint") {
        Some(Token::Constraint)
    } else     if text_equal(s, "create") {
        Some(Token::Create)
    } else     if text_equal(s, "cross") {
        Some(Token::Cross)
    } else     if text_equal(s, "current_date") {
        Some(Token::CurrentDate)
    } else     if text_equal(s, "current_time") {
        Some(Token::CurrentTime)
    } else     if text_equal(s, "current_timestamp") {
        Some(Token::CurrentTimestamp)
    } else     if text_equal(s, "database") {
        Some(Token::Database)
    } else     if text_equal(s, "default") {
        Some(Token::Default)
    } else     if text_equal(s, "deferrable") {
        Some(Token::Deferrable)
    } else     if text_equal(s, "deferred") {
        Some(Token::Deferred)
    } else     if text_equal(s, "delete") {
        Some(Token::Delete)
    } else     if text_equal(s, "desc") {
        Some(Token::Desc)
    } else     if text_equal(s, "detach") {
        Some(Token::Detach)
    } else     if text_equal(s, "distinct") {
        Some(Token::Distinct)
    } else     if text_equal(s, "drop") {
        Some(Token::Drop)
    } else     if text_equal(s, "each") {
        Some(Token::Each)
    } else     if text_equal(s, "else") {
        Some(Token::Else)
    } else     if text_equal(s, "escape") {
        Some(Token::Escape)
    } else     if text_equal(s, "except") {
        Some(Token::Except)
    } else     if text_equal(s, "exclusive") {
        Some(Token::Exclusive)
    } else     if text_equal(s, "exists") {
        Some(Token::Exists)
    } else     if text_equal(s, "explain") {
        Some(Token::Explain)
    } else     if text_equal(s, "fail") {
        Some(Token::Fail)
    } else     if text_equal(s, "for") {
        Some(Token::For)
    } else     if text_equal(s, "foreign") {
        Some(Token::Foreign)
    } else     if text_equal(s, "from") {
        Some(Token::From)
    } else     if text_equal(s, "full") {
        Some(Token::Full)
    } else     if text_equal(s, "glob") {
        Some(Token::Glob)
    } else     if text_equal(s, "group") {
        Some(Token::Group)
    } else     if text_equal(s, "having") {
        Some(Token::Having)
    } else     if text_equal(s, "if") {
        Some(Token::If)
    } else     if text_equal(s, "ignore") {
        Some(Token::Ignore)
    } else     if text_equal(s, "immediate") {
        Some(Token::Immediate)
    } else     if text_equal(s, "in") {
        Some(Token::In)
    } else     if text_equal(s, "index") {
        Some(Token::Index)
    } else     if text_equal(s, "indexed") {
        Some(Token::Indexed)
    } else     if text_equal(s, "initially") {
        Some(Token::Initially)
    } else     if text_equal(s, "inner") {
        Some(Token::Inner)
    } else     if text_equal(s, "insert") {
        Some(Token::Insert)
    } else     if text_equal(s, "instead") {
        Some(Token::Instead)
    } else     if text_equal(s, "intersect") {
        Some(Token::Intersect)
    } else     if text_equal(s, "into") {
        Some(Token::Into)
    } else     if text_equal(s, "is") {
        Some(Token::Is)
    } else     if text_equal(s, "isnull") {
        Some(Token::IsNull)
    } else     if text_equal(s, "join") {
        Some(Token::Join)
    } else     if text_equal(s, "key") {
        Some(Token::Key)
    } else     if text_equal(s, "left") {
        Some(Token::Left)
    } else     if text_equal(s, "like") {
        Some(Token::Like)
    } else     if text_equal(s, "limit") {
        Some(Token::Limit)
    } else     if text_equal(s, "match") {
        Some(Token::Match)
    } else     if text_equal(s, "natural") {
        Some(Token::Natural)
    } else     if text_equal(s, "no") {
        Some(Token::No)
    } else     if text_equal(s, "not") {
        Some(Token::Not)
    } else     if text_equal(s, "notnull") {
        Some(Token::NotNull)
    } else     if text_equal(s, "null") {
        Some(Token::Null)
    } else     if text_equal(s, "of") {
        Some(Token::Of)
    } else     if text_equal(s, "offset") {
        Some(Token::Offset)
    } else     if text_equal(s, "on") {
        Some(Token::On)
    } else     if text_equal(s, "or") {
        Some(Token::Or)
    } else     if text_equal(s, "order") {
        Some(Token::Order)
    } else     if text_equal(s, "outer") {
        Some(Token::Outer)
    } else     if text_equal(s, "plan") {
        Some(Token::Plan)
    } else     if text_equal(s, "pragma") {
        Some(Token::Pragma)
    } else     if text_equal(s, "primary") {
        Some(Token::Primary)
    } else     if text_equal(s, "query") {
        Some(Token::Query)
    } else     if text_equal(s, "raise") {
        Some(Token::Raise)
    } else     if text_equal(s, "recursive") {
        Some(Token::Recursive)
    } else     if text_equal(s, "references") {
        Some(Token::References)
    } else     if text_equal(s, "regexp") {
        Some(Token::Regexp)
    } else     if text_equal(s, "reindex") {
        Some(Token::Reindex)
    } else     if text_equal(s, "release") {
        Some(Token::Release)
    } else     if text_equal(s, "rename") {
        Some(Token::Rename)
    } else     if text_equal(s, "replace") {
        Some(Token::Replace)
    } else     if text_equal(s, "restrict") {
        Some(Token::Restrict)
    } else     if text_equal(s, "right") {
        Some(Token::Right)
    } else     if text_equal(s, "rollback") {
        Some(Token::Rollback)
    } else     if text_equal(s, "row") {
        Some(Token::Row)
    } else     if text_equal(s, "rows") {
        Some(Token::Rows)
    } else     if text_equal(s, "savepoint") {
        Some(Token::Savepoint)
    } else     if text_equal(s, "select") {
        Some(Token::Select)
    } else     if text_equal(s, "set") {
        Some(Token::SetKeyword)
    } else     if text_equal(s, "table") {
        Some(Token::Table)
    } else     if text_equal(s, "temp") {
        Some(Token::Temp)
    } else     if text_equal(s, "temporary") {
        Some(Token::Temporary)
    } else     if text_equal(s, "then") {
        Some(Token::Then)
    } else     if text_equal(s, "to") {
        Some(Token::To)
    } else     if text_equal(s, "transaction") {
        Some(Token::Transaction)
    } else     if text_equal(s, "trigger") {
        Some(Token::Trigger)
    } else     if text_equal(s, "union") {
        Some(Token::Union)
    } else     if text_equal(s, "unique") {
        Some(Token::Unique)
    } else     if text_equal(s, "update") {
        Some(Token::Update)
    } else     if text_equal(s, "using") {
        Some(Token::Using)
    } else     if text_equal(s, "vacuum") {
        Some(Token::Vacuum)
    } else     if text_equal(s, "values") {
        Some(Token::Values)
    } else     if text_equal(s, "view") {
        Some(Token::View)
    } else     if text_equal(s, "virtual") {
        Some(Token::Virtual)
    } else     if text_equal(s, "when") {
        Some(Token::When)
    } else     if text_equal(s, "where") {
        Some(Token::Where)
    } else     if text_equal(s, "window") {
        Some(Token::Window)
    } else     if text_equal(s, "with") {
        Some(Token::With)
    } else     if text_equal(s, "without") {
        Some(Token::Without)
    } else {
        None
    }
}

/// The token of a word: a keyword, or else an identifier.
pub fn word_token(word: String) -> (token: Token)
    ensures
        token.deep_view() == word_lexeme(word@),
{
    let folded = to_lower(word.as_str());
    match keyword(folded.as_str()) {
        Some(token) => token,
        None => Token::Identifier(word),
    }
}

fn scan_word(s: &[char], from: usize) -> (end: usize)
    requires
        from <= s@.len(),
    ensures
        end == from + word_len(s@, from as int),
        end <= s@.len(),
{
    let mut j = from;
    proof {
        lemma_word_within(s@, from as int);
    }
    while j < s.len() && is_alphanumeric(&s[j])
        invariant
            from <= j <= s@.len(),
            from + word_len(s@, from as int) == j + word_len(s@, j as int),
        decreases s@.len() - j,
    {
        j += 1;
    }
    j
}

fn scan_number(s: &[char], from: usize) -> (r: (usize, bool))
    requires
        from <= s@.len(),
    ensures
        r.0 == from + number_len(s@, from as int, false),
        r.0 <= s@.len(),
        r.1 == number_has_dot(s@, from as int, false),
{
    let mut j = from;
    let mut dot = false;
    proof {
        lemma_number_within(s@, from as int, false);
    }
    while j < s.len() && (is_digit_char(s[j]) || (s[j] == '.' && !dot))
        invariant
            from <= j <= s@.len(),
            from + number_len(s@, from as int, false) == j + number_len(s@, j as int, dot),
            number_has_dot(s@, from as int, false) == number_has_dot(s@, j as int, dot),
        decreases s@.len() - j,
    {
        if !is_digit_char(s[j]) {
            dot = true;
        }
        j += 1;
    }
    (j, dot)
}

fn is_digit_char(c: char) -> (b: bool)
    ensures
        b == is_digit(c),
{
    let u = c as u32;
    0x30 <= u && u <= 0x39
}

fn scan_line(s: &[char], from: usize) -> (end: usize)
    requires
        from <= s@.len(),
    ensures
        end == from + line_len(s@, from as int),
        end <= s@.len(),
{
    let mut j = from;
    proof {
        lemma_line_within(s@, from as int);
    }
    while j < s.len() && s[j] != '\n'
        invariant
            from <= j <= s@.len(),
            from + line_len(s@, from as int) == j + line_len(s@, j as int),
        decreases s@.len() - j,
    {
        j += 1;
    }
    j
}

fn scan_comment(s: &[char], from: usize) -> (end: usize)
    requires
        from <= s@.len(),
    ensures
        end == from + comment_len(s@, from as int),
        end <= s@.len(),
{
    let mut j = from;
    proof {
        lemma_comment_within(s@, from as int);
    }
    while j < s.len()
        invariant
            from <= j <= s@.len(),
            from + comment_len(s@, from as int) == j + comment_len(s@, j as int),
            from + comment_len(s@, from as int) <= s@.len(),
        decreases s@.len() - j,
    {
        if s[j] == '*' && j + 1 < s.len() && s[j + 1] == '/' {
            return j + 2;
        }
        j += 1;
    }
    j
}

fn scan_quoted(s: &[char], from: usize) -> (r: (usize, String))
    requires
        from <= s@.len(),
    ensures
        r.0 == from + quoted_len(s@, from as int),
        r.0 <= s@.len(),
        r.1@ == quoted_text(s@, from as int),
{
    let mut j = from;
    let mut text = String::new();
    proof {
        lemma_quoted_within(s@, from as int);
        assert(Seq::<char>::empty() + quoted_text(s@, from as int) =~= quoted_text(
            s@,
            from as int,
        ));
    }
    while j < s.len()
        invariant
            from <= j <= s@.len(),
            from + quoted_len(s@, from as int) == j + quoted_len(s@, j as int),
            from + quoted_len(s@, from as int) <= s@.len(),
            quoted_text(s@, from as int) == text@ + quoted_text(s@, j as int),
        decreases s@.len() - j,
    {
        let ghost before = text@;
        if s[j] == '\'' {
            if j + 1 < s.len() && s[j + 1] == '\'' {
                assert(before + (seq!['\''] + quoted_text(s@, j + 2)) =~= before.push('\'')
                    + quoted_text(s@, j + 2));
                text.push('\'');
                j += 2;
            } else {
                assert(before + Seq::<char>::empty() =~= before);
                return (j + 1, text);
            }
        } else {
            assert(before + (seq![s@[j as int]] + quoted_text(s@, j + 1)) =~= before.push(
                s@[j as int],
            ) + quoted_text(s@, j + 1));
            text.push(s[j]);
            j += 1;
        }
    }
    assert(text@ + Seq::<char>::empty() =~= text@);
    (j, text)
}

impl Token {
    /// Whether this token holds no text, as the keywords do.
    pub open spec fn is_plain(&self) -> bool {
        self.deep_view() == Lexeme::Word(*self)
    }

    /// Whether this token is the keyword `word`.
    pub fn is_word(&self, word: &Token) -> (b: bool)
        requires
            word.is_plain(),
        ensures
            b == (self.deep_view() == Lexeme::Word(*word)),
    {
        match (self, word) {
            (Token::Whitespace, Token::Whitespace) => true,
            (Token::Abort, Token::Abort) => true,
            (Token::Add, Token::Add) => true,
            (Token::After, Token::After) => true,
            (Token::All, Token::All) => true,
            (Token::Alter, Token::Alter) => true,
            (Token::Analyze, Token::Analyze) => true,
            (Token::And, Token::And) => true,
            (Token::As, Token::As) => true,
            (Token::Asc, Token::Asc) => true,
            (Token::Attach, Token::Attach) => true,
            (Token::Autoincrement, Token::Autoincrement) => true,
            (Token::Before, Token::Before) => true,
            (Token::Begin, Token::Begin) => true,
            (Token::Between, Token::Between) => true,
            (Token::By, Token::By) => true,
            (Token::Cascade, Token::Cascade) => true,
            (Token::Case, Token::Case) => true,
            (Token::Cast, Token::Cast) => true,
            (Token::Check, Token::Check) => true,
            (Token::Collate, Token::Collate) => true,
            (Token::Column, Token::Column) => true,
            (Token::Commit, Token::Commit) => true,
            (Token::Conflict, Token::Conflict) => true,
            (Token::Constraint, Token::Constraint) => true,
            (Token::Create, Token::Create) => true,
            (Token::Cross, Token::Cross) => true,
            (Token::CurrentDate, Token::CurrentDate) => true,
            (Token::CurrentTime, Token::CurrentTime) => true,
            (Token::CurrentTimestamp, Token::CurrentTimestamp) => true,
            (Token::Database, Token::Database) => true,
            (Token::Default, Token::Default) => true,
            (Token::Deferrable, Token::Deferrable) => true,
            (Token::Deferred, Token::Deferred) => true,
            (Token::Delete, Token::Delete) => true,
            (Token::Desc, Token::Desc) => true,
            (Token::Detach, Token::Detach) => true,
            (Token::Distinct, Token::Distinct) => true,
            (Token::Drop, Token::Drop) => true,
            (Token::Each, Token::Each) => true,
            (Token::Else, Token::Else) => true,
            (Token::Escape, Token::Escape) => true,
            (Token::Except, Token::Except) => true,
            (Token::Exclusive, Token::Exclusive) => true,
            (Token::Exists, Token::Exists) => true,
            (Token::Explain, Token::Explain) => true,
            (Token::Fail, Token::Fail) => true,
            (Token::For, Token::For) => true,
            (Token::Foreign, Token::Foreign) => true,
            (Token::From, Token::From) => true,
            (Token::Full, Token::Full) => true,
            (Token::Glob, Token::Glob) => true,
            (Token::Group, Token::Group) => true,
            (Token::Having, Token::Having) => true,
            (Token::If, Token::If) => true,
            (Token::Ignore, Token::Ignore) => true,
            (Token::Immediate, Token::Immediate) => true,
            (Token::In, Token::In) => true,
            (Token::Index, Token::Index) => true,
            (Token::Indexed, Token::Indexed) => true,
            (Token::Initially, Token::Initially) => true,
            (Token::Inner, Token::Inner) => true,
            (Token::Insert, Token::Insert) => true,
            (Token::Instead, Token::Instead) => true,
            (Token::Intersect, Token::Intersect) => true,
            (Token::Into, Token::Into) => true,
            (Token::Is, Token::Is) => true,
            (Token::IsNull, Token::IsNull) => true,
            (Token::Join, Token::Join) => true,
            (Token::Key, Token::Key) => true,
            (Token::Left, Token::Left) => true,
            (Token::Like, Token::Like) => true,
            (Token::Limit, Token::Limit) => true,
            (Token::Match, Token::Match) => true,
            (Token::Natural, Token::Natural) => true,
            (Token::No, Token::No) => true,
            (Token::Not, Token::Not) => true,
            (Token::NotNull, Token::NotNull) => true,
            (Token::Null, Token::Null) => true,
            (Token::Of, Token::Of) => true,
            (Token::Offset, Token::Offset) => true,
            (Token::On, Token::On) => true,
            (Token::Or, Token::Or) => true,
            (Token::Order, Token::Order) => true,
            (Token::Outer, Token::Outer) => true,
            (Token::Plan, Token::Plan) => true,
            (Token::Pragma, Token::Pragma) => true,
            (Token::Primary, Token::Primary) => true,
            (Token::Query, Token::Query) => true,
            (Token::Raise, Token::Raise) => true,
            (Token::Recursive, Token::Recursive) => true,
            (Token::References, Token::References) => true,
            (Token::Regexp, Token::Regexp) => true,
            (Token::Reindex, Token::Reindex) => true,
            (Token::Release, Token::Release) => true,
            (Token::Rename, Token::Rename) => true,
            (Token::Replace, Token::Replace) => true,
            (Token::Restrict, Token::Restrict) => true,
            (Token::Right, Token::Right) => true,
            (Token::Rollback, Token::Rollback) => true,
            (Token::Row, Token::Row) => true,
            (Token::Rows, Token::Rows) => true,
            (Token::Savepoint, Token::Savepoint) => true,
            (Token::Select, Token::Select) => true,
            (Token::SetKeyword, Token::SetKeyword) => true,
            (Token::Table, Token::Table) => true,
            (Token::Temp, Token::Temp) => true,
            (Token::Temporary, Token::Temporary) => true,
            (Token::Then, Token::Then) => true,
            (Token::To, Token::To) => true,
            (Token::Transaction, Token::Transaction) => true,
            (Token::Trigger, Token::Trigger) => true,
            (Token::Union, Token::Union) => true,
            (Token::Unique, Token::Unique) => true,
            (Token::Update, Token::Update) => true,
            (Token::Using, Token::Using) => true,
            (Token::Vacuum, Token::Vacuum) => true,
            (Token::Values, Token::Values) => true,
            (Token::View, Token::View) => true,
            (Token::Virtual, Token::Virtual) => true,
            (Token::When, Token::When) => true,
            (Token::Where, Token::Where) => true,
            (Token::Window, Token::Window) => true,
            (Token::With, Token::With) => true,
            (Token::Without, Token::Without) => true,
            _ => false,
        }
    }
}

/// Splits the text of a statement into its tokens.
pub fn tokenize(input: &str) -> (tokens: Vec<Token>)
    ensures
        tokens.deep_view() == spec_tokenize(input@),
{
    let chars = to_chars(input);
    let s = chars.as_slice();
    let mut tokens: Vec<Token> = Vec::new();
    let mut i: usize = 0;
    assert(tokens.deep_view() + lex_from(s@, 0) =~= lex_from(s@, 0));
    while i < s.len()
        invariant
            i <= s@.len(),
            spec_tokenize(s@) == tokens.deep_view() + lex_from(s@, i as int),
        decreases s@.len() - i,
    {
        let c = s[i];
        let ghost before = tokens.deep_view();
        match classify(&c) {
            CharacterClass::Whitespace => {
                i += 1;
            },
            CharacterClass::Alphabetic => {
                let end = scan_word(s, i + 1);
                let token = word_token(string_of(s, i, end));
                assert(before + (seq![token.deep_view()] + lex_from(s@, end as int)) =~= before.push(
                    token.deep_view(),
                ) + lex_from(s@, end as int));
                tokens.push(token);
                assert(tokens.deep_view() =~= before.push(token.deep_view()));
                i = end;
            },
            CharacterClass::Numeric => {
                let (end, dot) = scan_number(s, i + 1);
                let text = string_of(s, i, end);
                let token = if dot {
                    Token::Literal(LiteralKind::Float(text))
                } else {
                    Token::Literal(LiteralKind::Integer(text))
                };
                assert(before + (seq![token.deep_view()] + lex_from(s@, end as int)) =~= before.push(
                    token.deep_view(),
                ) + lex_from(s@, end as int));
                tokens.push(token);
                assert(tokens.deep_view() =~= before.push(token.deep_view()));
                i = end;
            },
            CharacterClass::Special => {
                if c == '-' && i + 1 < s.len() && s[i + 1] == '-' {
                    i = scan_line(s, i + 2);
                } else if c == '/' && i + 1 < s.len() && s[i + 1] == '*' {
                    i = scan_comment(s, i + 2);
                } else if c == '\'' {
                    let (end, text) = scan_quoted(s, i + 1);
                    let token = Token::Literal(LiteralKind::Str(text));
                    assert(before + (seq![token.deep_view()] + lex_from(s@, end as int))
                        =~= before.push(token.deep_view()) + lex_from(s@, end as int));
                    tokens.push(token);
                    assert(tokens.deep_view() =~= before.push(token.deep_view()));
                    i = end;
                } else {
                    let token = Token::Operator(string_of(s, i, i + 1));
                    assert(s@.subrange(i as int, i + 1) =~= seq![s@[i as int]]);
                    assert(before + (seq![token.deep_view()] + lex_from(s@, i + 1)) =~= before.push(
                        token.deep_view(),
                    ) + lex_from(s@, i + 1));
                    tokens.push(token);
                    assert(tokens.deep_view() =~= before.push(token.deep_view()));
                    i += 1;
                }
            },
        }
    }
    assert(tokens.deep_view() + Seq::<Lexeme>::empty() =~= tokens.deep_view());
    tokens
}

} // verus!
