//! Tokens of the SQL dialect, their text forms, and how a word, a literal or
//! a symbol is read from its text.
use vstd::prelude::*;

use crate::sql::error::{ParseError, SpecParseError};
use crate::error::{Error, SpecError, result_view};
use crate::text::{
    ascii_lower, ascii_lower_char, ascii_lowercase, int_decimal, is_ascii_text, lowercase, parse_i64, push_char, push_i64,
    spec_parse_i64, str_eq, to_lowercase,
};

verus! {

#[derive(Debug, Clone, PartialEq, Eq)]
pub enum Token {
    Keyword(Keyword),
    Literal(Literal),
    Symbol(Symbol),
}

#[derive(Debug, Clone, Copy, PartialEq, Eq, Structural)]
pub enum Keyword {
    Select,
    From,
    Where,
    As,
    And,
    Avg,
    Cast,
    GroupBy,
    OrderBy,
    Having,
}

/// A literal token.  A double is held as its decimal text, with leading zeros
/// of the integer part and trailing zeros of the fraction removed.
#[derive(Debug, Clone, PartialEq, Eq)]
pub enum Literal {
    Long(i64),
    Double(String),
    String(String),
    Identifier(String),
}

#[derive(Debug, Clone, Copy, PartialEq, Eq, Structural)]
pub enum Symbol {
    Plus,
    Minus,
    Multiply,
    Divide,
    Eq,
    Le,
    Ge,
    Comma,
    LParen,
    RParen,
}

/// A token with the byte offsets it was read from.
#[derive(Debug, Clone, PartialEq, Eq)]
pub struct TokenSpan {
    pub token: Token,
    pub start: usize,
    pub end: usize,
}

pub enum SpecLiteral {
    Long(i64),
    Double(Seq<char>),
    String(Seq<char>),
    Identifier(Seq<char>),
}

pub enum SpecToken {
    Keyword(Keyword),
    Literal(SpecLiteral),
    Symbol(Symbol),
}

pub struct SpecTokenSpan {
    pub token: SpecToken,
    pub start: int,
    pub end: int,
}

impl View for Literal {
    type V = SpecLiteral;

    open spec fn view(&self) -> SpecLiteral {
        match self {
            Literal::Long(v) => SpecLiteral::Long(*v),
            Literal::Double(s) => SpecLiteral::Double(s@),
            Literal::String(s) => SpecLiteral::String(s@),
            Literal::Identifier(s) => SpecLiteral::Identifier(s@),
        }
    }
}

impl View for Token {
    type V = SpecToken;

    open spec fn view(&self) -> SpecToken {
        match self {
            Token::Keyword(k) => SpecToken::Keyword(*k),
            Token::Literal(l) => SpecToken::Literal(l@),
            Token::Symbol(s) => SpecToken::Symbol(*s),
        }
    }
}

impl View for TokenSpan {
    type V = SpecTokenSpan;

    open spec fn view(&self) -> SpecTokenSpan {
        SpecTokenSpan { token: self.token@, start: self.start as int, end: self.end as int }
    }
}

/// The keyword that a lowercase word names, if any (`group by` and
/// `order by` are two words and are read elsewhere).
pub open spec fn keyword_of(lower: Seq<char>) -> Option<Keyword> {
    if lower == "select"@ {
        Some(Keyword::Select)
    } else if lower == "cast"@ {
        Some(Keyword::Cast)
    } else if lower == "from"@ {
        Some(Keyword::From)
    } else if lower == "where"@ {
        Some(Keyword::Where)
    } else if lower == "as"@ {
        Some(Keyword::As)
    } else if lower == "and"@ {
        Some(Keyword::And)
    } else if lower == "avg"@ {
        Some(Keyword::Avg)
    } else if lower == "having"@ {
        Some(Keyword::Having)
    } else {
        None
    }
}

/// The two-word keyword that a lowercase first word starts, if any.
pub open spec fn two_word_keyword_of(lower: Seq<char>) -> Option<Keyword> {
    if lower == "group"@ {
        Some(Keyword::GroupBy)
    } else if lower == "order"@ {
        Some(Keyword::OrderBy)
    } else {
        None
    }
}

/// The symbol that a text names, if any.
pub open spec fn symbol_of(s: Seq<char>) -> Option<Symbol> {
    if s == "+"@ {
        Some(Symbol::Plus)
    } else if s == "-"@ {
        Some(Symbol::Minus)
    } else if s == "*"@ {
        Some(Symbol::Multiply)
    } else if s == "/"@ {
        Some(Symbol::Divide)
    } else if s == "="@ {
        Some(Symbol::Eq)
    } else if s == "<"@ {
        Some(Symbol::Le)
    } else if s == ">"@ {
        Some(Symbol::Ge)
    } else if s == ","@ {
        Some(Symbol::Comma)
    } else if s == "("@ {
        Some(Symbol::LParen)
    } else if s == ")"@ {
        Some(Symbol::RParen)
    } else {
        None
    }
}

pub open spec fn keyword_text(k: Keyword) -> Seq<char> {
    match k {
        Keyword::Select => "SELECT"@,
        Keyword::Cast => "CAST"@,
        Keyword::From => "FROM"@,
        Keyword::Where => "WHERE"@,
        Keyword::As => "AS"@,
        Keyword::And => "AND"@,
        Keyword::Avg => "AVG"@,
        Keyword::GroupBy => "GROUP BY"@,
        Keyword::OrderBy => "ORDER BY"@,
        Keyword::Having => "HAVING"@,
    }
}

pub open spec fn symbol_text(s: Symbol) -> Seq<char> {
    match s {
        Symbol::Plus => "+"@,
        Symbol::Minus => "-"@,
        Symbol::Multiply => "*"@,
        Symbol::Divide => "/"@,
        Symbol::Eq => "="@,
        Symbol::Le => "<"@,
        Symbol::Ge => ">"@,
        Symbol::Comma => ","@,
        Symbol::LParen => "("@,
        Symbol::RParen => ")"@,
    }
}

/// Reading the text of a symbol gives the symbol back.
pub proof fn law_symbol_text_round_trip(s: Symbol)
    ensures
        symbol_of(symbol_text(s)) == Some(s),
{
    let texts = seq!["+"@, "-"@, "*"@, "/"@, "="@, "<"@, ">"@, ","@, "("@, ")"@];
    let firsts = seq!['+', '-', '*', '/', '=', '<', '>', ',', '(', ')'];
    reveal_strlit("+");
    reveal_strlit("-");
    reveal_strlit("*");
    reveal_strlit("/");
    reveal_strlit("=");
    reveal_strlit("<");
    reveal_strlit(">");
    reveal_strlit(",");
    reveal_strlit("(");
    reveal_strlit(")");
    assert forall|i: int| 0 <= i < 10 implies (#[trigger] texts[i]).len() == 1 && texts[i][0] == firsts[i] by {}
    assert forall|i: int, j: int| 0 <= i < j < 10 implies #[trigger] texts[i] != #[trigger] texts[j] by {
        assert(texts[i][0] != texts[j][0]);
    }
}

/// The lowercase word of a keyword.
pub open spec fn keyword_word(k: Keyword) -> Seq<char> {
    match k {
        Keyword::Select => "select"@,
        Keyword::Cast => "cast"@,
        Keyword::From => "from"@,
        Keyword::Where => "where"@,
        Keyword::As => "as"@,
        Keyword::And => "and"@,
        Keyword::Avg => "avg"@,
        Keyword::GroupBy => "group by"@,
        Keyword::OrderBy => "order by"@,
        Keyword::Having => "having"@,
    }
}

proof fn lemma_keyword_words()
    ensures
        forall|k: Keyword| #[trigger] ascii_lowercase(keyword_text(k)) == keyword_word(k),
        forall|k: Keyword| is_ascii_text(#[trigger] keyword_text(k)),
        forall|k: Keyword, w: Seq<char>|
            k != Keyword::GroupBy && k != Keyword::OrderBy ==>
                (#[trigger] keyword_of(w) == Some(k) <==> w == #[trigger] keyword_word(k)),
{
    reveal_strlit("select");
    reveal_strlit("cast");
    reveal_strlit("from");
    reveal_strlit("where");
    reveal_strlit("as");
    reveal_strlit("and");
    reveal_strlit("avg");
    reveal_strlit("group by");
    reveal_strlit("order by");
    reveal_strlit("having");
    reveal_strlit("SELECT");
    reveal_strlit("CAST");
    reveal_strlit("FROM");
    reveal_strlit("WHERE");
    reveal_strlit("AS");
    reveal_strlit("AND");
    reveal_strlit("AVG");
    reveal_strlit("GROUP BY");
    reveal_strlit("ORDER BY");
    reveal_strlit("HAVING");
    assert forall|k: Keyword| #[trigger] ascii_lowercase(keyword_text(k)) == keyword_word(k) by {
        assert(ascii_lowercase(keyword_text(k)) =~= keyword_word(k));
    }
    assert forall|k: Keyword| is_ascii_text(#[trigger] keyword_text(k)) by {
        let t = keyword_text(k);
        assert forall|i: int| 0 <= i < t.len() implies (#[trigger] t[i]) < '\u{80}' by {}
    }
    let words = seq!["select"@, "cast"@, "from"@, "where"@, "as"@, "and"@, "avg"@, "having"@];
    assert forall|i: int, j: int| 0 <= i < j < 8 implies #[trigger] words[i] != #[trigger] words[j] by {
        if words[i].len() == words[j].len() {
            assert(words[i][0] != words[j][0] || words[i][1] != words[j][1]);
        }
    }
    assert(words[0] == keyword_word(Keyword::Select));
    assert(words[1] == keyword_word(Keyword::Cast));
    assert(words[2] == keyword_word(Keyword::From));
    assert(words[3] == keyword_word(Keyword::Where));
    assert(words[4] == keyword_word(Keyword::As));
    assert(words[5] == keyword_word(Keyword::And));
    assert(words[6] == keyword_word(Keyword::Avg));
    assert(words[7] == keyword_word(Keyword::Having));
}

/// A keyword of one word is read from its text and from every text that
/// differs from it only in the case of ASCII letters, and from no other ASCII
/// text.
pub proof fn law_keyword_read_in_any_case(k: Keyword, t: Seq<char>)
    requires
        k != Keyword::GroupBy,
        k != Keyword::OrderBy,
    ensures
        keyword_of(lowercase(keyword_text(k))) == Some(k),
        is_ascii_text(t) ==> (keyword_of(lowercase(t)) == Some(k) <==> ascii_lowercase(t) == ascii_lowercase(keyword_text(k))),
{
    lemma_keyword_words();
    assert(keyword_of(keyword_word(k)) == Some(k));
}

pub open spec fn literal_text(l: SpecLiteral) -> Seq<char> {
    match l {
        SpecLiteral::Long(v) => int_decimal(v as int),
        SpecLiteral::Double(s) => s,
        SpecLiteral::String(s) => "'"@ + s + "'"@,
        SpecLiteral::Identifier(s) => "#"@ + s,
    }
}

pub open spec fn token_text(t: SpecToken) -> Seq<char> {
    match t {
        SpecToken::Keyword(k) => keyword_text(k),
        SpecToken::Literal(l) => literal_text(l),
        SpecToken::Symbol(s) => symbol_text(s),
    }
}

impl Keyword {
    /// Reads a keyword from a word, whatever its case.
    pub fn try_from_str(value: &str) -> (r: Result<Keyword, ParseError>)
        ensures
            match keyword_of(lowercase(value@)) {
                Some(k) => r == Ok::<Keyword, ParseError>(k),
                None => r matches Err(e) && e@ == SpecParseError::InvalidKeyword(lowercase(value@)),
            },
    {
        let lower = to_lowercase(value);
        match Keyword::from_lowercase(lower.as_str()) {
            Some(k) => Ok(k),
            None => Err(ParseError::InvalidKeyword(lower)),
        }
    }

    /// The keyword that a lowercase word names, if any.
    pub fn from_lowercase(l: &str) -> (r: Option<Keyword>)
        ensures
            r == keyword_of(l@),
    {
        if str_eq(l, "select") {
            Some(Keyword::Select)
        } else if str_eq(l, "cast") {
            Some(Keyword::Cast)
        } else if str_eq(l, "from") {
            Some(Keyword::From)
        } else if str_eq(l, "where") {
            Some(Keyword::Where)
        } else if str_eq(l, "as") {
            Some(Keyword::As)
        } else if str_eq(l, "and") {
            Some(Keyword::And)
        } else if str_eq(l, "avg") {
            Some(Keyword::Avg)
        } else if str_eq(l, "having") {
            Some(Keyword::Having)
        } else {
            None
        }
    }

    /// The two-word keyword that a lowercase first word starts, if any:
    /// `group` for `GROUP BY`, `order` for `ORDER BY`.
    pub fn two_word_start(l: &str) -> (r: Option<Keyword>)
        ensures
            r == two_word_keyword_of(l@),
    {
        if str_eq(l, "group") {
            Some(Keyword::GroupBy)
        } else if str_eq(l, "order") {
            Some(Keyword::OrderBy)
        } else {
            None
        }
    }

    /// The keyword as SQL text.
    pub fn to_str(&self) -> (s: &'static str)
        ensures
            s@ == keyword_text(*self),
    {
        match self {
            Keyword::Select => "SELECT",
            Keyword::Cast => "CAST",
            Keyword::From => "FROM",
            Keyword::Where => "WHERE",
            Keyword::As => "AS",
            Keyword::And => "AND",
            Keyword::Avg => "AVG",
            Keyword::GroupBy => "GROUP BY",
            Keyword::OrderBy => "ORDER BY",
            Keyword::Having => "HAVING",
        }
    }

    pub fn to_string(&self) -> (s: String)
        ensures
            s@ == keyword_text(*self),
    {
        String::from_str(self.to_str())
    }
}

impl Symbol {
    /// Reads a symbol from its text; only single symbol characters name one.
    pub fn try_from_str(value: &str) -> (r: Result<Symbol, ParseError>)
        ensures
            match symbol_of(value@) {
                Some(s) => r == Ok::<Symbol, ParseError>(s),
                None => r matches Err(e) && e@ == SpecParseError::InvalidSymbol(value@),
            },
    {
        if str_eq(value, "+") {
            Ok(Symbol::Plus)
        } else if str_eq(value, "-") {
            Ok(Symbol::Minus)
        } else if str_eq(value, "*") {
            Ok(Symbol::Multiply)
        } else if str_eq(value, "/") {
            Ok(Symbol::Divide)
        } else if str_eq(value, "=") {
            Ok(Symbol::Eq)
        } else if str_eq(value, "<") {
            Ok(Symbol::Le)
        } else if str_eq(value, ">") {
            Ok(Symbol::Ge)
        } else if str_eq(value, ",") {
            Ok(Symbol::Comma)
        } else if str_eq(value, "(") {
            Ok(Symbol::LParen)
        } else if str_eq(value, ")") {
            Ok(Symbol::RParen)
        } else {
            Err(ParseError::InvalidSymbol(String::from_str(value)))
        }
    }

    /// The symbol as SQL text.
    pub fn to_str(&self) -> (s: &'static str)
        ensures
            s@ == symbol_text(*self),
    {
        match self {
            Symbol::Plus => "+",
            Symbol::Minus => "-",
            Symbol::Multiply => "*",
            Symbol::Divide => "/",
            Symbol::Eq => "=",
            Symbol::Le => "<",
            Symbol::Ge => ">",
            Symbol::Comma => ",",
            Symbol::LParen => "(",
            Symbol::RParen => ")",
        }
    }

    pub fn to_string(&self) -> (s: String)
        ensures
            s@ == symbol_text(*self),
    {
        String::from_str(self.to_str())
    }
}

impl Literal {
    /// Appends the literal's text to `out`.
    pub fn write_to(&self, out: &mut String)
        ensures
            final(out)@ == old(out)@ + literal_text(self@),
    {
        match self {
            Literal::Long(v) => push_i64(out, *v),
            Literal::Double(s) => out.append(s.as_str()),
            Literal::String(s) => {
                out.append("'");
                out.append(s.as_str());
                out.append("'");
            },
            Literal::Identifier(s) => {
                out.append("#");
                out.append(s.as_str());
            },
        }
    }

    pub fn to_string(&self) -> (s: String)
        ensures
            s@ == literal_text(self@),
    {
        let mut s = String::new();
        self.write_to(&mut s);
        s
    }

    /// A copy of the literal.
    pub fn duplicate(&self) -> (r: Literal)
        ensures
            r@ == self@,
    {
        match self {
            Literal::Long(v) => Literal::Long(*v),
            Literal::Double(s) => Literal::Double(s.clone()),
            Literal::String(s) => Literal::String(s.clone()),
            Literal::Identifier(s) => Literal::Identifier(s.clone()),
        }
    }
}

impl Token {
    /// Appends the token's text to `out`.
    pub fn write_to(&self, out: &mut String)
        ensures
            final(out)@ == old(out)@ + token_text(self@),
    {
        match self {
            Token::Keyword(k) => out.append(k.to_str()),
            Token::Literal(l) => l.write_to(out),
            Token::Symbol(s) => out.append(s.to_str()),
        }
    }

    pub fn to_string(&self) -> (s: String)
        ensures
            s@ == token_text(self@),
    {
        let mut s = String::new();
        self.write_to(&mut s);
        s
    }

    /// A copy of the token.
    pub fn duplicate(&self) -> (r: Token)
        ensures
            r@ == self@,
    {
        match self {
            Token::Keyword(k) => Token::Keyword(*k),
            Token::Literal(l) => Token::Literal(l.duplicate()),
            Token::Symbol(s) => Token::Symbol(*s),
        }
    }

    /// Whether two tokens are the same token.
    pub fn same_as(&self, other: &Token) -> (r: bool)
        ensures
            r == (self@ == other@),
    {
        match (self, other) {
            (Token::Keyword(a), Token::Keyword(b)) => *a == *b,
            (Token::Symbol(a), Token::Symbol(b)) => *a == *b,
            (Token::Literal(a), Token::Literal(b)) => match (a, b) {
                (Literal::Long(x), Literal::Long(y)) => *x == *y,
                (Literal::Double(x), Literal::Double(y)) => str_eq(x.as_str(), y.as_str()),
                (Literal::String(x), Literal::String(y)) => str_eq(x.as_str(), y.as_str()),
                (Literal::Identifier(x), Literal::Identifier(y)) => str_eq(x.as_str(), y.as_str()),
                _ => false,
            },
            _ => false,
        }
    }
}

impl TokenSpan {
    pub fn new(token: Token, start: usize, end: usize) -> (r: TokenSpan)
        ensures
            r.token == token,
            r.start == start,
            r.end == end,
    {
        TokenSpan { token, start, end }
    }

    /// A copy of the span.
    pub fn duplicate(&self) -> (r: TokenSpan)
        ensures
            r@ == self@,
    {
        TokenSpan { token: self.token.duplicate(), start: self.start, end: self.end }
    }
}


pub open spec fn is_digit_char(c: char) -> bool {
    '0' <= c <= '9'
}

/// A text of digits and at most one dot, with at least one digit.
pub open spec fn is_decimal_text(t: Seq<char>) -> bool {
    &&& forall|i: int| 0 <= i < t.len() ==> (is_digit_char(#[trigger] t[i]) || t[i] == '.')
    &&& forall|i: int, j: int| 0 <= i < j < t.len() ==> !(#[trigger] t[i] == '.' && #[trigger] t[j] == '.')
    &&& exists|i: int| 0 <= i < t.len() && is_digit_char(#[trigger] t[i])
}

/// Index of the first dot of `t` at or after `i`, or the length of `t`.
pub open spec fn dot_index_from(t: Seq<char>, i: int) -> int
    decreases t.len() - i,
{
    if i < 0 || i >= t.len() {
        t.len() as int
    } else if t[i] == '.' {
        i
    } else {
        dot_index_from(t, i + 1)
    }
}

pub open spec fn strip_leading_zeros(s: Seq<char>) -> Seq<char>
    decreases s.len(),
{
    if s.len() > 0 && s[0] == '0' {
        strip_leading_zeros(s.drop_first())
    } else {
        s
    }
}

pub open spec fn strip_trailing_zeros(s: Seq<char>) -> Seq<char>
    decreases s.len(),
{
    if s.len() > 0 && s.last() == '0' {
        strip_trailing_zeros(s.drop_last())
    } else {
        s
    }
}

/// The shortest decimal text of the number that a decimal text denotes:
/// no leading zeros in the integer part (but at least `0`), no trailing
/// zeros in the fraction, and no dot when the fraction is zero.
pub open spec fn normalize_decimal(t: Seq<char>) -> Seq<char> {
    let k = dot_index_from(t, 0);
    let ip0 = strip_leading_zeros(t.subrange(0, k));
    let ip = if ip0.len() == 0 { "0"@ } else { ip0 };
    let fp = if k < t.len() { strip_trailing_zeros(t.subrange(k + 1, t.len() as int)) } else { Seq::empty() };
    if fp.len() == 0 { ip } else { ip + "."@ + fp }
}

/// Every character is a decimal digit.
pub open spec fn all_digits(s: Seq<char>) -> bool {
    forall|i: int| 0 <= i < s.len() ==> is_digit_char(#[trigger] s[i])
}

/// Index of the first `a` or `b` of `t` at or after `i`, or the length of `t`.
pub open spec fn find_from(t: Seq<char>, i: int, a: char, b: char) -> int
    decreases t.len() - i,
{
    if i < 0 || i >= t.len() {
        t.len() as int
    } else if t[i] == a || t[i] == b {
        i
    } else {
        find_from(t, i + 1, a, b)
    }
}

/// The text without a leading `+` or `-`.
pub open spec fn unsigned_part(t: Seq<char>) -> Seq<char> {
    if t.len() > 0 && (t[0] == '+' || t[0] == '-') { t.drop_first() } else { t }
}

/// Digits, digits and a dot, or a dot and digits, with at least one digit.
pub open spec fn is_mantissa(m: Seq<char>) -> bool {
    let k = find_from(m, 0, '.', '.');
    if k == m.len() {
        m.len() > 0 && all_digits(m)
    } else {
        all_digits(m.subrange(0, k)) && all_digits(m.subrange(k + 1, m.len() as int)) && m.len() > 1
    }
}

/// A mantissa, then optionally `e` or `E`, a sign and digits.
pub open spec fn is_number_text(u: Seq<char>) -> bool {
    let k = find_from(u, 0, 'e', 'E');
    is_mantissa(u.subrange(0, k)) && (k == u.len() || {
        let d = unsigned_part(u.subrange(k + 1, u.len() as int));
        d.len() > 0 && all_digits(d)
    })
}

/// The texts that `str::parse::<f64>` reads, as its documentation gives
/// them: an optional sign, then `inf`, `infinity` or `nan` in any ASCII
/// case, or a decimal number with an optional exponent.
pub open spec fn is_float_text(t: Seq<char>) -> bool {
    let u = unsigned_part(t);
    ascii_lowercase(u) == "inf"@ || ascii_lowercase(u) == "infinity"@ || ascii_lowercase(u) == "nan"@
        || is_number_text(u)
}

/// The text a double is held as: a plain decimal number in its shortest
/// form (a `-` sign kept, a `+` dropped), any other form as written.
pub open spec fn double_text(t: Seq<char>) -> Seq<char> {
    let u = unsigned_part(t);
    if is_decimal_text(u) {
        if t.len() > 0 && t[0] == '-' { "-"@ + normalize_decimal(u) } else { normalize_decimal(u) }
    } else {
        t
    }
}

/// What a literal's text stands for: an `i64` where `str::parse::<i64>`
/// reads one, else a double where `str::parse::<f64>` would read one, else
/// a single-quoted string, else an identifier.
pub open spec fn literal_of_text(t: Seq<char>) -> Result<SpecLiteral, SpecError> {
    match spec_parse_i64(t) {
        Some(v) => Ok(SpecLiteral::Long(v)),
        None => if is_float_text(t) {
            Ok(SpecLiteral::Double(double_text(t)))
        } else if t.len() > 0 && t[0] == '\'' {
            if t.len() >= 2 && t.last() == '\'' {
                Ok(SpecLiteral::String(t.subrange(1, t.len() - 1)))
            } else {
                Err(SpecError::Parse(SpecParseError::InvalidLiteralString(t)))
            }
        } else {
            Ok(SpecLiteral::Identifier(t))
        },
    }
}

/// Whether the characters of `t` between `start` and `end` are digits.
fn digits_between(t: &Vec<char>, start: usize, end: usize) -> (r: bool)
    requires
        start <= end <= t.len(),
    ensures
        r == all_digits(t@.subrange(start as int, end as int)),
{
    let mut i = start;
    while i < end
        invariant
            start <= i <= end <= t.len(),
            forall|j: int| start <= j < i ==> is_digit_char(#[trigger] t@[j]),
        decreases end - i,
    {
        if !('0' <= t[i] && t[i] <= '9') {
            assert(!is_digit_char(t@.subrange(start as int, end as int)[i - start]));
            return false;
        }
        i = i + 1;
    }
    assert forall|j: int| 0 <= j < end - start implies is_digit_char(#[trigger] t@.subrange(start as int, end as int)[j]) by {
        assert(t@.subrange(start as int, end as int)[j] == t@[start + j]);
    }
    true
}

/// Index of the first `a` or `b` at or after `i`, or the length.
fn find_index(t: &Vec<char>, i: usize, a: char, b: char) -> (k: usize)
    requires
        i <= t.len(),
    ensures
        k as int == find_from(t@, i as int, a, b),
        i <= k <= t.len(),
{
    let mut k = i;
    while k < t.len() && t[k] != a && t[k] != b
        invariant
            i <= k <= t.len(),
            find_from(t@, i as int, a, b) == find_from(t@, k as int, a, b),
        decreases t.len() - k,
    {
        k = k + 1;
    }
    k
}

/// The characters of `t` from `start` to `end`.
fn chars_between(t: &Vec<char>, start: usize, end: usize) -> (r: Vec<char>)
    requires
        start <= end <= t.len(),
    ensures
        r@ == t@.subrange(start as int, end as int),
{
    let mut r: Vec<char> = Vec::new();
    let mut i = start;
    while i < end
        invariant
            start <= i <= end <= t.len(),
            r@ == t@.subrange(start as int, i as int),
        decreases end - i,
    {
        r.push(t[i]);
        i = i + 1;
        assert(r@ =~= t@.subrange(start as int, i as int));
    }
    r
}

/// Whether the ASCII lowercase of `t` is `word`.
fn lowercase_equals(t: &Vec<char>, word: &str) -> (r: bool)
    ensures
        r == (ascii_lowercase(t@) == word@),
{
    let w = crate::text::chars_of(word);
    if t.len() != w.len() {
        return false;
    }
    let mut i: usize = 0;
    while i < t.len()
        invariant
            i <= t.len() == w.len(),
            w@ == word@,
            forall|j: int| 0 <= j < i ==> ascii_lower(#[trigger] t@[j]) == w@[j],
        decreases t.len() - i,
    {
        if ascii_lower_char(t[i]) != w[i] {
            assert(ascii_lowercase(t@)[i as int] != word@[i as int]);
            return false;
        }
        i = i + 1;
    }
    assert(ascii_lowercase(t@) =~= word@);
    true
}

/// Whether `str::parse::<f64>` would read the text.
fn float_text(t: &Vec<char>) -> (r: bool)
    ensures
        r == is_float_text(t@),
{
    let n = t.len();
    let start: usize = if n > 0 && (t[0] == '+' || t[0] == '-') { 1 } else { 0 };
    let u = chars_between(t, start, n);
    assert(u@ == unsigned_part(t@)) by {
        if start == 0 {
            assert(t@.subrange(0, n as int) =~= t@);
        } else {
            assert(t@.subrange(1, n as int) =~= t@.drop_first());
        }
    }
    if lowercase_equals(&u, "inf") || lowercase_equals(&u, "infinity") || lowercase_equals(&u, "nan") {
        return true;
    }
    let m = u.len();
    let k = find_index(&u, 0, 'e', 'E');
    let mantissa = chars_between(&u, 0, k);
    let dot = find_index(&mantissa, 0, '.', '.');
    let mantissa_ok = if dot == k {
        k > 0 && digits_between(&mantissa, 0, k)
    } else {
        let before = digits_between(&mantissa, 0, dot);
        let after = digits_between(&mantissa, dot + 1, k);
        proof {
            assert(mantissa@.subrange(0, dot as int) == mantissa@.subrange(0, dot as int));
            assert(mantissa@.subrange(0, k as int) =~= mantissa@);
        }
        before && after && k > 1
    };
    assert(mantissa_ok == is_mantissa(u@.subrange(0, k as int))) by {
        assert(mantissa@.subrange(0, k as int) =~= mantissa@);
    }
    if !mantissa_ok {
        return false;
    }
    if k == m {
        return true;
    }
    let exponent = chars_between(&u, k + 1, m);
    let e = exponent.len();
    let estart: usize = if e > 0 && (exponent[0] == '+' || exponent[0] == '-') { 1 } else { 0 };
    proof {
        if estart == 0 {
            assert(exponent@.subrange(0, e as int) =~= exponent@);
        } else {
            assert(exponent@.subrange(1, e as int) =~= exponent@.drop_first());
        }
    }
    estart < e && digits_between(&exponent, estart, e)
}

/// The text a double is held as.
fn double_text_of(t: &Vec<char>) -> (s: String)
    ensures
        s@ == double_text(t@),
{
    let n = t.len();
    let start: usize = if n > 0 && (t[0] == '+' || t[0] == '-') { 1 } else { 0 };
    let u = chars_between(t, start, n);
    assert(u@ == unsigned_part(t@)) by {
        if start == 0 {
            assert(t@.subrange(0, n as int) =~= t@);
        } else {
            assert(t@.subrange(1, n as int) =~= t@.drop_first());
        }
    }
    if decimal_text(&u) {
        let digits = normalized_decimal(&u);
        if n > 0 && t[0] == '-' {
            let mut s = String::new();
            proof { reveal_strlit("-"); }
            s.append("-");
            s.append(digits.as_str());
            s
        } else {
            digits
        }
    } else {
        crate::text::string_from_chars(t, 0, n)
    }
}

/// Whether a text is digits and at most one dot, with at least one digit.
fn decimal_text(t: &Vec<char>) -> (r: bool)
    ensures
        r == is_decimal_text(t@),
{
    let n = t.len();
    let mut seen_dot = false;
    let mut seen_digit = false;
    let mut i: usize = 0;
    while i < n
        invariant
            n == t.len(),
            i <= n,
            forall|j: int| 0 <= j < i ==> (is_digit_char(#[trigger] t@[j]) || t@[j] == '.'),
            forall|j: int, k: int| 0 <= j < k < i ==> !(#[trigger] t@[j] == '.' && #[trigger] t@[k] == '.'),
            seen_dot <==> exists|j: int| 0 <= j < i && #[trigger] t@[j] == '.',
            seen_digit <==> exists|j: int| 0 <= j < i && is_digit_char(#[trigger] t@[j]),
        decreases n - i,
    {
        let c = t[i];
        if '0' <= c && c <= '9' {
            seen_digit = true;
        } else if c == '.' {
            if seen_dot {
                return false;
            }
            seen_dot = true;
        } else {
            return false;
        }
        i = i + 1;
    }
    seen_digit
}

fn normalized_decimal(t: &Vec<char>) -> (s: String)
    ensures
        s@ == normalize_decimal(t@),
{
    let n = t.len();
    // the first dot, or the end
    let mut k: usize = 0;
    while k < n && t[k] != '.'
        invariant
            n == t.len(),
            k <= n,
            dot_index_from(t@, 0) == dot_index_from(t@, k as int),
        decreases n - k,
    {
        k = k + 1;
    }
    // skip the leading zeros of the integer part
    let mut i: usize = 0;
    while i < k && t[i] == '0'
        invariant
            k <= n == t.len(),
            i <= k,
            strip_leading_zeros(t@.subrange(0, k as int)) == strip_leading_zeros(t@.subrange(i as int, k as int)),
        decreases k - i,
    {
        assert(t@.subrange(i as int, k as int).drop_first() =~= t@.subrange(i + 1, k as int));
        i = i + 1;
    }
    assert(strip_leading_zeros(t@.subrange(i as int, k as int)) == t@.subrange(i as int, k as int));
    let mut s = String::new();
    if i == k {
        proof { reveal_strlit("0"); }
        s.append("0");
    } else {
        s = crate::text::string_from_chars(t, i, k);
    }
    if k < n {
        let mut j: usize = n;
        while j > k + 1 && t[j - 1] == '0'
            invariant
                k < n == t.len(),
                k + 1 <= j <= n,
                strip_trailing_zeros(t@.subrange(k + 1, n as int)) == strip_trailing_zeros(t@.subrange(k + 1, j as int)),
            decreases j,
        {
            assert(t@.subrange(k + 1, j as int).drop_last() =~= t@.subrange(k + 1, j - 1));
            j = j - 1;
        }
        assert(strip_trailing_zeros(t@.subrange(k + 1, j as int)) == t@.subrange(k + 1, j as int));
        if j > k + 1 {
            s.append(".");
            let mut m = k + 1;
            while m < j
                invariant
                    k + 1 <= m <= j <= n == t.len(),
                    s@ == (if i == k { "0"@ } else { t@.subrange(i as int, k as int) }) + "."@ + t@.subrange(k + 1, m as int),
                decreases j - m,
            {
                push_char(&mut s, t[m]);
                m = m + 1;
                assert(s@ =~= (if i == k { "0"@ } else { t@.subrange(i as int, k as int) }) + "."@ + t@.subrange(k + 1, m as int));
            }
        }
    }
    s
}

impl Literal {
    /// Reads a literal from its text: an `i64` where `str::parse::<i64>`
    /// reads one, else a double where `str::parse::<f64>` would read one,
    /// else a single-quoted string (an error without the closing quote),
    /// else an identifier.
    pub fn try_from_str(value: &str) -> (r: Result<Literal, Error>)
        ensures
            result_view(r) == literal_of_text(value@),
    {
        if let Some(v) = parse_i64(value) {
            return Ok(Literal::Long(v));
        }
        let t = crate::text::chars_of(value);
        if float_text(&t) {
            return Ok(Literal::Double(double_text_of(&t)));
        }
        let n = t.len();
        assert(t@.subrange(0, n as int) =~= t@);
        if n > 0 && t[0] == '\'' {
            if n >= 2 && t[n - 1] == '\'' {
                Ok(Literal::String(crate::text::string_from_chars(&t, 1, n - 1)))
            } else {
                Err(Error::Parse(ParseError::InvalidLiteralString(crate::text::string_from_chars(&t, 0, n))))
            }
        } else {
            Ok(Literal::Identifier(crate::text::string_from_chars(&t, 0, n)))
        }
    }
}

} // verus!
