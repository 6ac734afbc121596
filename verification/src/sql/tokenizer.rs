//! The tokenizer: SQL text to tokens with their byte offsets.
use vstd::prelude::*;
use vstd::string::StringSliceAdditionalSpecFns;
use vstd::utf8::*;

use crate::error::{Error, SpecError, result_view};
use crate::sql::error::SpecParseError;
use crate::sql::token::{
    Keyword, Literal, SpecLiteral, SpecToken, SpecTokenSpan, Symbol, Token, TokenSpan,
    keyword_of, literal_of_text, symbol_of, two_word_keyword_of,
};
use crate::sql::token_stream::TokenStream;
use crate::text::{lowercase, str_eq, string_from_utf8, to_lowercase};

verus! {

/// The classes of bytes that a scan runs over.
#[derive(Clone, Copy, PartialEq, Eq, Structural)]
pub enum CharClass {
    /// ASCII letters and `_`.
    IdentChar,
    Whitespace,
    Alpha,
    Digit,
    /// One of `+-*/=><,()`.
    SymbolChar,
    /// Any byte but the given quote.
    NotQuote(u8),
}

/// `u8::is_ascii_whitespace`: space, tab, line feed, form feed, carriage return.
pub open spec fn is_ascii_whitespace(b: u8) -> bool {
    b == 0x20 || b == 0x09 || b == 0x0A || b == 0x0C || b == 0x0D
}

pub open spec fn is_ascii_alpha(b: u8) -> bool {
    (0x41 <= b <= 0x5A) || (0x61 <= b <= 0x7A)
}

pub open spec fn is_ascii_digit(b: u8) -> bool {
    0x30 <= b <= 0x39
}

/// The bytes of `+-*/=><,()`.
pub open spec fn is_symbol_byte(b: u8) -> bool {
    b == 0x2B || b == 0x2D || b == 0x2A || b == 0x2F || b == 0x3D || b == 0x3E || b == 0x3C
        || b == 0x2C || b == 0x28 || b == 0x29
}

/// `'` or `"`.
pub open spec fn is_quote_byte(b: u8) -> bool {
    b == 0x27 || b == 0x22
}

pub open spec fn in_class(c: CharClass, b: u8) -> bool {
    match c {
        CharClass::IdentChar => is_ascii_alpha(b) || b == 0x5F,
        CharClass::Whitespace => is_ascii_whitespace(b),
        CharClass::Alpha => is_ascii_alpha(b),
        CharClass::Digit => is_ascii_digit(b),
        CharClass::SymbolChar => is_symbol_byte(b),
        CharClass::NotQuote(q) => b != q,
    }
}

/// The first offset at or after `from` that is the end of the input or holds
/// a byte outside the class.
pub open spec fn span_end(b: Seq<u8>, from: int, c: CharClass) -> int
    decreases b.len() - from,
{
    if 0 <= from < b.len() && in_class(c, b[from]) {
        span_end(b, from + 1, c)
    } else {
        from
    }
}

/// The text of the bytes between two offsets, when they are UTF-8.
pub open spec fn text_between(b: Seq<u8>, s: int, e: int) -> Result<Seq<char>, SpecError> {
    let bytes = b.subrange(s, e);
    if valid_utf8(bytes) {
        Ok(decode_utf8(bytes))
    } else {
        Err(SpecError::InvalidUtf8 { start: s as usize, end: e as usize })
    }
}

/// `group by` or `order by` after the word `word` that ends at `position`;
/// the span runs from the end of the first word to the end of `by`.
pub open spec fn spec_scan_ambiguous(b: Seq<u8>, word: Seq<char>, position: int) -> Option<SpecTokenSpan> {
    match two_word_keyword_of(lowercase(word)) {
        None => None,
        Some(keyword) => {
            let by_start = span_end(b, position, CharClass::Whitespace);
            let by_end = span_end(b, by_start, CharClass::Alpha);
            match text_between(b, by_start, by_end) {
                Err(_) => None,
                Ok(by) => if lowercase(by) != "by"@ {
                    None
                } else {
                    Some(SpecTokenSpan { token: SpecToken::Keyword(keyword), start: position, end: by_end })
                },
            }
        },
    }
}

/// A keyword or an identifier starting at `q`.
pub open spec fn spec_scan_identifier(b: Seq<u8>, q: int) -> Result<SpecTokenSpan, SpecError> {
    let end = span_end(b, q, CharClass::IdentChar);
    match text_between(b, q, end) {
        Err(e) => Err(e),
        Ok(text) => match spec_scan_ambiguous(b, text, end) {
            Some(span) => Ok(span),
            None => Ok(SpecTokenSpan {
                token: match keyword_of(lowercase(text)) {
                    Some(k) => SpecToken::Keyword(k),
                    None => SpecToken::Literal(SpecLiteral::Identifier(text)),
                },
                start: q,
                end: end,
            }),
        },
    }
}

/// The end of a number starting at `q`: digits, then a dot and digits.
pub open spec fn number_end(b: Seq<u8>, q: int) -> int {
    let p1 = span_end(b, q, CharClass::Digit);
    if p1 < b.len() && b[p1] == 0x2E {
        span_end(b, p1 + 1, CharClass::Digit)
    } else {
        p1
    }
}

pub open spec fn spec_scan_number(b: Seq<u8>, q: int) -> Result<SpecTokenSpan, SpecError> {
    let end = number_end(b, q);
    match text_between(b, q, end) {
        Err(e) => Err(e),
        Ok(t) => match literal_of_text(t) {
            Err(e) => Err(e),
            Ok(l) => Ok(SpecTokenSpan { token: SpecToken::Literal(l), start: q, end: end }),
        },
    }
}

/// A symbol: the one byte at `q`.
pub open spec fn spec_scan_symbol(b: Seq<u8>, q: int) -> Result<SpecTokenSpan, SpecError> {
    let end = q + 1;
    match text_between(b, q, end) {
        Err(e) => Err(e),
        Ok(t) => match symbol_of(t) {
            None => Err(SpecError::Parse(SpecParseError::InvalidSymbol(t))),
            Some(s) => Ok(SpecTokenSpan { token: SpecToken::Symbol(s), start: q, end: end }),
        },
    }
}

/// A quoted string starting at `q`, quotes included.
pub open spec fn spec_scan_string(b: Seq<u8>, q: int) -> Result<SpecTokenSpan, SpecError> {
    let pos = span_end(b, q + 1, CharClass::NotQuote(b[q]));
    if pos >= b.len() {
        match text_between(b, q, pos) {
            Err(e) => Err(e),
            Ok(t) => Err(SpecError::UnterminatedString(t)),
        }
    } else {
        match text_between(b, q, pos + 1) {
            Err(e) => Err(e),
            Ok(t) => match literal_of_text(t) {
                Err(e) => Err(e),
                Ok(l) => Ok(SpecTokenSpan { token: SpecToken::Literal(l), start: q, end: pos + 1 }),
            },
        }
    }
}

/// The token read at offset `p`, after whitespace: `None` at the end of the
/// input and at a byte that starts no token.
pub open spec fn spec_next(b: Seq<u8>, p: int) -> Option<Result<SpecTokenSpan, SpecError>> {
    let q = span_end(b, p, CharClass::Whitespace);
    if q < 0 || q >= b.len() {
        None
    } else if is_ascii_alpha(b[q]) {
        Some(spec_scan_identifier(b, q))
    } else if is_ascii_digit(b[q]) || b[q] == 0x2E {
        Some(spec_scan_number(b, q))
    } else if is_symbol_byte(b[q]) {
        Some(spec_scan_symbol(b, q))
    } else if is_quote_byte(b[q]) {
        Some(spec_scan_string(b, q))
    } else {
        None
    }
}

/// Where the tokenizer stands after reading at `p`: after the token, or
/// after the whitespace when no token or an error came.
pub open spec fn spec_next_position(b: Seq<u8>, p: int) -> int {
    match spec_next(b, p) {
        Some(Ok(span)) => span.end,
        _ => span_end(b, p, CharClass::Whitespace),
    }
}

pub proof fn lemma_span_end(b: Seq<u8>, from: int, c: CharClass)
    requires
        0 <= from <= b.len(),
    ensures
        from <= span_end(b, from, c) <= b.len(),
        forall|i: int| from <= i < span_end(b, from, c) ==> in_class(c, #[trigger] b[i]),
        span_end(b, from, c) < b.len() ==> !in_class(c, b[span_end(b, from, c)]),
    decreases b.len() - from,
{
    if from < b.len() && in_class(c, b[from]) {
        lemma_span_end(b, from + 1, c);
    }
}

/// Each token read ends after the offset it was read at.
pub proof fn lemma_next_advances(b: Seq<u8>, p: int)
    requires
        0 <= p <= b.len(),
    ensures
        spec_next(b, p) matches Some(Ok(span)) ==> p < span.end <= b.len(),
        p <= spec_next_position(b, p) <= b.len(),
{
    lemma_span_end(b, p, CharClass::Whitespace);
    let q = span_end(b, p, CharClass::Whitespace);
    if 0 <= q < b.len() {
        if is_ascii_alpha(b[q]) {
            lemma_span_end(b, q, CharClass::IdentChar);
            let end = span_end(b, q, CharClass::IdentChar);
            lemma_span_end(b, end, CharClass::Whitespace);
            let bs = span_end(b, end, CharClass::Whitespace);
            lemma_span_end(b, bs, CharClass::Alpha);
        } else if is_ascii_digit(b[q]) || b[q] == 0x2E {
            lemma_span_end(b, q, CharClass::Digit);
            let p1 = span_end(b, q, CharClass::Digit);
            if p1 < b.len() && b[p1] == 0x2E {
                lemma_span_end(b, p1 + 1, CharClass::Digit);
            }
        } else if is_quote_byte(b[q]) {
            lemma_span_end(b, q + 1, CharClass::NotQuote(b[q]));
        }
    }
}

/// The tokens read from offset `p` on, or the first error.
pub open spec fn spec_tokenize(b: Seq<u8>, p: int) -> Result<Seq<SpecTokenSpan>, SpecError>
    decreases b.len() - p,
    when 0 <= p <= b.len()
{
    match spec_next(b, p) {
        None => Ok(Seq::empty()),
        Some(Err(e)) => Err(e),
        Some(Ok(span)) => {
            proof {
                lemma_next_advances(b, p);
            }
            match spec_tokenize(b, span.end) {
                Ok(rest) => Ok(seq![span] + rest),
                Err(e) => Err(e),
            }
        },
    }
}

/// Whitespace is exactly the five ASCII whitespace bytes: space, tab, line
/// feed, form feed and carriage return.
pub proof fn law_whitespace_bytes(b: u8)
    ensures
        in_class(CharClass::Whitespace, b) <==> (b == ' ' as u8 || b == '\t' as u8 || b == '\n' as u8
            || b == '\x0C' as u8 || b == '\r' as u8),
{
}

/// Reading at a whitespace byte gives what reading after it gives: the same
/// next token, and the same tokens to the end.
pub proof fn law_whitespace_is_skipped(b: Seq<u8>, p: int)
    requires
        0 <= p < b.len(),
        b[p] == ' ' as u8 || b[p] == '\t' as u8 || b[p] == '\n' as u8 || b[p] == '\x0C' as u8 || b[p] == '\r' as u8,
    ensures
        spec_next(b, p) == spec_next(b, p + 1),
        spec_tokenize(b, p) == spec_tokenize(b, p + 1),
{
    assert(span_end(b, p, CharClass::Whitespace) == span_end(b, p + 1, CharClass::Whitespace));
    lemma_next_advances(b, p);
    lemma_next_advances(b, p + 1);
}

/// A token read at `p` lies after `p` and within the input.
proof fn lemma_next_span_bounds(b: Seq<u8>, p: int)
    requires
        0 <= p <= b.len(),
    ensures
        spec_next(b, p) matches Some(Ok(span)) ==> p <= span.start <= span.end <= b.len(),
{
    lemma_next_advances(b, p);
    lemma_span_end(b, p, CharClass::Whitespace);
    let q = span_end(b, p, CharClass::Whitespace);
    if 0 <= q < b.len() {
        if is_ascii_alpha(b[q]) {
            lemma_span_end(b, q, CharClass::IdentChar);
            let end = span_end(b, q, CharClass::IdentChar);
            lemma_span_end(b, end, CharClass::Whitespace);
            let bs = span_end(b, end, CharClass::Whitespace);
            lemma_span_end(b, bs, CharClass::Alpha);
        } else if is_ascii_digit(b[q]) || b[q] == 0x2E {
            lemma_span_end(b, q, CharClass::Digit);
            let p1 = span_end(b, q, CharClass::Digit);
            if p1 < b.len() && b[p1] == 0x2E {
                lemma_span_end(b, p1 + 1, CharClass::Digit);
            }
        } else if is_quote_byte(b[q]) {
            lemma_span_end(b, q + 1, CharClass::NotQuote(b[q]));
        }
    }
}

/// The tokens of a text lie within it, in order and without overlap.
pub proof fn law_tokens_in_order(b: Seq<u8>, p: int)
    requires
        0 <= p <= b.len(),
        spec_tokenize(b, p) is Ok,
    ensures
        forall|i: int| 0 <= i < spec_tokenize(b, p)->Ok_0.len() ==> {
            let span = #[trigger] spec_tokenize(b, p)->Ok_0[i];
            p <= span.start <= span.end <= b.len()
        },
        forall|i: int, j: int| 0 <= i < j < spec_tokenize(b, p)->Ok_0.len()
            ==> (#[trigger] spec_tokenize(b, p)->Ok_0[i]).end <= (#[trigger] spec_tokenize(b, p)->Ok_0[j]).start,
    decreases b.len() - p,
{
    lemma_next_span_bounds(b, p);
    match spec_next(b, p) {
        Some(Ok(span)) => {
            lemma_next_advances(b, p);
            law_tokens_in_order(b, span.end);
            let rest = spec_tokenize(b, span.end)->Ok_0;
            let all = spec_tokenize(b, p)->Ok_0;
            assert(all == seq![span] + rest);
            assert forall|i: int| 0 <= i < all.len() implies {
                let s = #[trigger] all[i];
                p <= s.start <= s.end <= b.len()
            } by {
                if i > 0 {
                    assert(all[i] == rest[i - 1]);
                }
            }
            assert forall|i: int, j: int| 0 <= i < j < all.len() implies (#[trigger] all[i]).end <= (#[trigger] all[j]).start by {
                assert(all[j] == rest[j - 1]);
                if i > 0 {
                    assert(all[i] == rest[i - 1]);
                }
            }
        },
        _ => {},
    }
}

pub open spec fn spans_view(v: Seq<TokenSpan>) -> Seq<SpecTokenSpan> {
    v.map_values(|s: TokenSpan| s@)
}

/// Reads SQL text into tokens.
pub struct Tokenizer {
    bytes: Vec<u8>,
    position: usize,
}

impl Tokenizer {
    /// The bytes being read.
    pub closed spec fn input(&self) -> Seq<u8> {
        self.bytes@
    }

    /// The offset of the next byte to read.
    pub closed spec fn position(&self) -> int {
        self.position as int
    }

    #[verifier::type_invariant]
    spec fn inv(&self) -> bool {
        self.position <= self.bytes.len()
    }

    pub fn new(sql: &str) -> (t: Tokenizer)
        ensures
            t.input() == sql.spec_bytes(),
            t.position() == 0,
    {
        let bytes = sql.as_bytes_vec();
        Tokenizer { bytes, position: 0 }
    }

    fn skip_whitespace(&mut self)
        ensures
            final(self).bytes@ == old(self).bytes@,
            final(self).position == span_end(old(self).bytes@, old(self).position as int, CharClass::Whitespace),
    {
        proof { use_type_invariant(&*self); }
        proof {
            lemma_span_end(self.bytes@, self.position as int, CharClass::Whitespace);
        }
        let p = self.get_position(CharClass::Whitespace, self.position);
        self.position = p;
    }

    fn byte_in_class(c: CharClass, b: u8) -> (r: bool)
        ensures
            r == in_class(c, b),
    {
        match c {
            CharClass::IdentChar => Self::is_alpha(b) || b == 0x5F,
            CharClass::Whitespace => b == 0x20 || b == 0x09 || b == 0x0A || b == 0x0C || b == 0x0D,
            CharClass::Alpha => Self::is_alpha(b),
            CharClass::Digit => 0x30 <= b && b <= 0x39,
            CharClass::SymbolChar => Self::is_symbol(b),
            CharClass::NotQuote(q) => b != q,
        }
    }

    fn is_alpha(b: u8) -> (r: bool)
        ensures
            r == is_ascii_alpha(b),
    {
        (0x41 <= b && b <= 0x5A) || (0x61 <= b && b <= 0x7A)
    }

    fn is_symbol(b: u8) -> (r: bool)
        ensures
            r == is_symbol_byte(b),
    {
        b == 0x2B || b == 0x2D || b == 0x2A || b == 0x2F || b == 0x3D || b == 0x3E || b == 0x3C
            || b == 0x2C || b == 0x28 || b == 0x29
    }

    /// The text of the bytes between two offsets.
    fn get_string(&self, start: usize, end: usize) -> (r: Result<String, Error>)
        requires
            start <= end <= self.bytes.len(),
        ensures
            result_view(r) == text_between(self.bytes@, start as int, end as int),
    {
        proof { use_type_invariant(self); }
        let mut token: Vec<u8> = Vec::new();
        let mut i = start;
        while i < end
            invariant
                start <= i <= end <= self.bytes.len(),
                token@ == self.bytes@.subrange(start as int, i as int),
            decreases end - i,
        {
            token.push(self.bytes[i]);
            i = i + 1;
            assert(token@ =~= self.bytes@.subrange(start as int, i as int));
        }
        match string_from_utf8(token) {
            Some(s) => Ok(s),
            None => Err(Error::InvalidUtf8 { start, end }),
        }
    }

    /// The first offset at or after `from` past the bytes of the class.
    fn get_position(&self, class: CharClass, from: usize) -> (r: usize)
        requires
            from <= self.bytes.len(),
        ensures
            r == span_end(self.bytes@, from as int, class),
    {
        proof { use_type_invariant(self); }
        proof {
            lemma_span_end(self.bytes@, from as int, class);
        }
        let mut position = from;
        while position < self.bytes.len() && Self::byte_in_class(class, self.bytes[position])
            invariant
                from <= position <= self.bytes.len(),
                span_end(self.bytes@, from as int, class) == span_end(self.bytes@, position as int, class),
            decreases self.bytes.len() - position,
        {
            position = position + 1;
        }
        position
    }

    fn current_in(&self, pred: CharClass) -> (r: bool)
        ensures
            r == (self.position < self.bytes.len() && in_class(pred, self.bytes@[self.position as int])),
    {
        proof { use_type_invariant(self); }
        self.position < self.bytes.len() && Self::byte_in_class(pred, self.bytes[self.position])
    }

    fn is_identifier_start(&self) -> (r: bool)
        ensures
            r == (self.position < self.bytes.len() && is_ascii_alpha(self.bytes@[self.position as int])),
    {
        proof { use_type_invariant(self); }
        self.current_in(CharClass::Alpha)
    }

    fn is_number_start(&self) -> (r: bool)
        ensures
            r == (self.position < self.bytes.len() && (is_ascii_digit(self.bytes@[self.position as int])
                || self.bytes@[self.position as int] == 0x2E)),
    {
        proof { use_type_invariant(self); }
        self.position < self.bytes.len() && (Self::byte_in_class(CharClass::Digit, self.bytes[self.position])
            || self.bytes[self.position] == 0x2E)
    }

    fn is_symbol_start(&self) -> (r: bool)
        ensures
            r == (self.position < self.bytes.len() && is_symbol_byte(self.bytes@[self.position as int])),
    {
        proof { use_type_invariant(self); }
        self.current_in(CharClass::SymbolChar)
    }

    fn is_string_start(&self) -> (r: bool)
        ensures
            r == (self.position < self.bytes.len() && is_quote_byte(self.bytes@[self.position as int])),
    {
        proof { use_type_invariant(self); }
        self.position < self.bytes.len() && (self.bytes[self.position] == 0x27 || self.bytes[self.position] == 0x22)
    }

    /// Scans a keyword or an identifier.
    fn scan_identifier(&mut self) -> (r: Result<TokenSpan, Error>)
        requires
            old(self).position < old(self).bytes.len(),
            is_ascii_alpha(old(self).bytes@[old(self).position as int]),
        ensures
            final(self).bytes@ == old(self).bytes@,
            result_view(r) == spec_scan_identifier(old(self).bytes@, old(self).position as int),
            final(self).position == (match r {
                Ok(span) => span.end,
                Err(_) => old(self).position,
            }),
    {
        proof { use_type_invariant(&*self); }
        proof {
            lemma_span_end(self.bytes@, self.position as int, CharClass::IdentChar);
        }
        let position = self.get_position(CharClass::IdentChar, self.position);
        let token = self.get_string(self.position, position)?;
        let ghost text = token@;
        if let Some(span) = self.scan_ambiguous_identifier(token.as_str(), position) {
            return Ok(span);
        }
        let t = match Keyword::try_from_str(token.as_str()) {
            Ok(keyword) => Token::Keyword(keyword),
            Err(_) => Token::Literal(Literal::Identifier(token)),
        };
        let token_span = TokenSpan::new(t, self.position, position);
        self.position = token_span.end;
        Ok(token_span)
    }

    /// Scans `group by` or `order by` after a word ending at `position`.
    fn scan_ambiguous_identifier(&mut self, token: &str, position: usize) -> (r: Option<TokenSpan>)
        requires
            old(self).position <= position <= old(self).bytes.len(),
        ensures
            final(self).bytes@ == old(self).bytes@,
            match r {
                Some(span) => spec_scan_ambiguous(old(self).bytes@, token@, position as int) == Some(span@)
                    && final(self).position == span.end,
                None => spec_scan_ambiguous(old(self).bytes@, token@, position as int) is None
                    && final(self).position == old(self).position,
            },
    {
        proof { use_type_invariant(&*self); }
        let lower = to_lowercase(token);
        let keyword = match Keyword::two_word_start(lower.as_str()) {
            Some(k) => k,
            None => return None,
        };
        proof {
            lemma_span_end(self.bytes@, position as int, CharClass::Whitespace);
        }
        let by_start_position = self.get_position(CharClass::Whitespace, position);
        proof {
            lemma_span_end(self.bytes@, by_start_position as int, CharClass::Alpha);
        }
        let by_end_position = self.get_position(CharClass::Alpha, by_start_position);
        let by_token = match self.get_string(by_start_position, by_end_position) {
            Ok(s) => s,
            Err(_) => return None,
        };
        let by_lower = to_lowercase(by_token.as_str());
        if !str_eq(by_lower.as_str(), "by") {
            return None;
        }
        let token_span = TokenSpan::new(Token::Keyword(keyword), position, by_end_position);
        self.position = token_span.end;
        Some(token_span)
    }

    /// Scans a number: digits, then optionally a dot and digits.
    fn scan_number(&mut self) -> (r: Result<TokenSpan, Error>)
        requires
            old(self).position < old(self).bytes.len(),
        ensures
            final(self).bytes@ == old(self).bytes@,
            result_view(r) == spec_scan_number(old(self).bytes@, old(self).position as int),
            final(self).position == (match r {
                Ok(span) => span.end,
                Err(_) => old(self).position,
            }),
    {
        proof { use_type_invariant(&*self); }
        proof {
            lemma_span_end(self.bytes@, self.position as int, CharClass::Digit);
        }
        let mut position = self.get_position(CharClass::Digit, self.position);
        if position < self.bytes.len() && self.bytes[position] == 0x2E {
            proof {
                lemma_span_end(self.bytes@, position + 1, CharClass::Digit);
            }
            position = self.get_position(CharClass::Digit, position + 1);
        }
        let token = self.get_string(self.position, position)?;
        let literal = Literal::try_from_str(token.as_str())?;
        let span = TokenSpan::new(Token::Literal(literal), self.position, position);
        self.position = span.end;
        Ok(span)
    }

    /// Scans a run of symbol characters, which must be a single symbol.
    fn scan_symbol(&mut self) -> (r: Result<TokenSpan, Error>)
        requires
            old(self).position < old(self).bytes.len(),
        ensures
            final(self).bytes@ == old(self).bytes@,
            result_view(r) == spec_scan_symbol(old(self).bytes@, old(self).position as int),
            final(self).position == (match r {
                Ok(span) => span.end,
                Err(_) => old(self).position,
            }),
    {
        proof { use_type_invariant(&*self); }
        let position = self.position + 1;
        let token = self.get_string(self.position, position)?;
        let symbol = match Symbol::try_from_str(token.as_str()) {
            Ok(s) => s,
            Err(e) => return Err(Error::Parse(e)),
        };
        let token_span = TokenSpan::new(Token::Symbol(symbol), self.position, position);
        self.position = token_span.end;
        Ok(token_span)
    }

    /// Scans a quoted string, quotes included.
    fn scan_string(&mut self) -> (r: Result<TokenSpan, Error>)
        requires
            old(self).position < old(self).bytes.len(),
        ensures
            final(self).bytes@ == old(self).bytes@,
            result_view(r) == spec_scan_string(old(self).bytes@, old(self).position as int),
            final(self).position == (match r {
                Ok(span) => span.end,
                Err(_) => old(self).position,
            }),
    {
        proof { use_type_invariant(&*self); }
        let quote = self.bytes[self.position];
        proof {
            lemma_span_end(self.bytes@, self.position + 1, CharClass::NotQuote(quote));
        }
        let position = self.get_position(CharClass::NotQuote(quote), self.position + 1);
        if position == self.bytes.len() {
            let text = self.get_string(self.position, position)?;
            return Err(Error::UnterminatedString(text));
        }
        let position = position + 1;
        let token = self.get_string(self.position, position)?;
        let literal = Literal::try_from_str(token.as_str())?;
        let token_span = TokenSpan::new(Token::Literal(literal), self.position, position);
        self.position = token_span.end;
        Ok(token_span)
    }

    /// Reads the next token: `None` at the end of the input, and at a byte
    /// that starts no token.
    pub fn next(&mut self) -> (r: Option<Result<TokenSpan, Error>>)
        ensures
            final(self).input() == old(self).input(),
            match r {
                None => spec_next(old(self).input(), old(self).position()) is None,
                Some(res) => spec_next(old(self).input(), old(self).position()) == Some(result_view(res)),
            },
            final(self).position() == spec_next_position(old(self).input(), old(self).position()),
    {
        proof { use_type_invariant(&*self); }
        proof {
            lemma_span_end(self.bytes@, self.position as int, CharClass::Whitespace);
        }
        self.skip_whitespace();
        if self.position >= self.bytes.len() {
            return None;
        }
        if self.is_identifier_start() {
            let span = self.scan_identifier();
            return Some(span);
        }
        if self.is_number_start() {
            let span = self.scan_number();
            return Some(span);
        }
        if self.is_symbol_start() {
            let span = self.scan_symbol();
            return Some(span);
        }
        if self.is_string_start() {
            let span = self.scan_string();
            return Some(span);
        }
        None
    }

    /// All tokens of the input, or the first error.
    pub fn tokenize(self) -> (r: Result<Vec<TokenSpan>, Error>)
        ensures
            match r {
                Ok(v) => spec_tokenize(self.input(), self.position()) == Ok::<Seq<SpecTokenSpan>, SpecError>(spans_view(v@)),
                Err(e) => spec_tokenize(self.input(), self.position()) == Err::<Seq<SpecTokenSpan>, SpecError>(e@),
            },
    {
        proof { use_type_invariant(&self); }
        let mut this = self;
        this.read_all()
    }

    fn read_all(&mut self) -> (r: Result<Vec<TokenSpan>, Error>)
        ensures
            match r {
                Ok(v) => spec_tokenize(old(self).input(), old(self).position()) == Ok::<Seq<SpecTokenSpan>, SpecError>(spans_view(v@)),
                Err(e) => spec_tokenize(old(self).input(), old(self).position()) == Err::<Seq<SpecTokenSpan>, SpecError>(e@),
            },
    {
        proof { use_type_invariant(&*self); }
        let ghost b = self.input();
        let ghost p0 = self.position();
        let mut tokens: Vec<TokenSpan> = Vec::new();
        loop
            invariant
                self.input() == b,
                b == old(self).input(),
                p0 == old(self).position(),
                0 <= p0 <= b.len(),
                0 <= self.position() <= b.len(),
                spec_tokenize(b, p0) == (match spec_tokenize(b, self.position()) {
                    Ok(rest) => Ok(spans_view(tokens@) + rest),
                    Err(e) => Err(e),
                }),
            decreases b.len() - self.position(),
        {
            let ghost p = self.position();
            proof {
                lemma_next_advances(b, p);
            }
            match self.next() {
                None => {
                    assert(spec_tokenize(b, p) == Ok::<Seq<SpecTokenSpan>, SpecError>(Seq::empty()));
                    assert(spans_view(tokens@) + Seq::<SpecTokenSpan>::empty() =~= spans_view(tokens@));
                    assert(spec_tokenize(b, p0) == Ok::<Seq<SpecTokenSpan>, SpecError>(spans_view(tokens@)));
                    return Ok(tokens);
                },
                Some(Err(e)) => {
                    assert(spec_tokenize(b, p) == Err::<Seq<SpecTokenSpan>, SpecError>(e@));
                    assert(spec_tokenize(b, p0) == Err::<Seq<SpecTokenSpan>, SpecError>(e@));
                    return Err(e);
                },
                Some(Ok(span)) => {
                    let ghost sv = span@;
                    let ghost prev = tokens@;
                    tokens.push(span);
                    assert(spans_view(tokens@) =~= spans_view(prev).push(sv));
                    assert forall|rest: Seq<SpecTokenSpan>|
                        spans_view(prev) + (seq![sv] + rest) =~= #[trigger] (spans_view(prev).push(sv) + rest) by {}
                },
            }
        }
    }

    /// All tokens of the input, as a stream positioned at the first.
    pub fn stream(self) -> (r: Result<TokenStream, Error>)
        ensures
            match r {
                Ok(s) => s.position() == 0
                    && spec_tokenize(self.input(), self.position()) == Ok::<Seq<SpecTokenSpan>, SpecError>(s.spans()),
                Err(e) => spec_tokenize(self.input(), self.position()) == Err::<Seq<SpecTokenSpan>, SpecError>(e@),
            },
    {
        proof { use_type_invariant(&self); }
        let tokens = self.tokenize()?;
        Ok(TokenStream::new(tokens))
    }
}

} // verus!
