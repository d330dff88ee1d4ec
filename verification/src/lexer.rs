//! Tokenization of source text.
//!
//! Sixteen characters stand for one token each. A `;` opens a comment that
//! runs up to the next newline. Everything else is skipped, so the lexer
//! accepts every string.

use vstd::prelude::*;

verus! {

/// One symbol of the source alphabet. Tokens carry no payload; repetition is
/// written by repeating the symbol.
#[derive(Debug, Clone, Copy, PartialEq, Eq, Structural)]
pub enum Token {
    IncPtr,
    DecPtr,
    IncCell,
    DecCell,
    Output,
    Input,
    LoopStart,
    LoopEnd,
    ParStart,
    ParSep,
    ParEnd,
    LockStart,
    LockEnd,
    Sleep,
    Wait,
    Notify,
}

/// The token that a source character stands for, if it stands for one.
pub open spec fn token_of(c: char) -> Option<Token> {
    if c == '>' {
        Some(Token::IncPtr)
    } else if c == '<' {
        Some(Token::DecPtr)
    } else if c == '+' {
        Some(Token::IncCell)
    } else if c == '-' {
        Some(Token::DecCell)
    } else if c == '.' {
        Some(Token::Output)
    } else if c == ',' {
        Some(Token::Input)
    } else if c == '[' {
        Some(Token::LoopStart)
    } else if c == ']' {
        Some(Token::LoopEnd)
    } else if c == '{' {
        Some(Token::ParStart)
    } else if c == '|' {
        Some(Token::ParSep)
    } else if c == '}' {
        Some(Token::ParEnd)
    } else if c == '(' {
        Some(Token::LockStart)
    } else if c == ')' {
        Some(Token::LockEnd)
    } else if c == '~' {
        Some(Token::Sleep)
    } else if c == '^' {
        Some(Token::Wait)
    } else if c == 'v' {
        Some(Token::Notify)
    } else {
        None
    }
}

/// The character that a token is written with.
pub open spec fn symbol_of(t: Token) -> char {
    match t {
        Token::IncPtr => '>',
        Token::DecPtr => '<',
        Token::IncCell => '+',
        Token::DecCell => '-',
        Token::Output => '.',
        Token::Input => ',',
        Token::LoopStart => '[',
        Token::LoopEnd => ']',
        Token::ParStart => '{',
        Token::ParSep => '|',
        Token::ParEnd => '}',
        Token::LockStart => '(',
        Token::LockEnd => ')',
        Token::Sleep => '~',
        Token::Wait => '^',
        Token::Notify => 'v',
    }
}

/// Whether a comment is open once the first `n` characters of `s` are read:
/// the `n`-th character is no newline, and it is a `;` or continues a
/// comment that was open before it.
pub open spec fn comment_open(s: Seq<char>, n: int) -> bool
    decreases n,
{
    if n <= 0 || n > s.len() {
        false
    } else {
        s[n - 1] != '\n' && (s[n - 1] == ';' || comment_open(s, n - 1))
    }
}

/// Whether the character at index `i` is outside every comment and stands
/// for a token.
pub open spec fn visible(s: Seq<char>, i: int) -> bool {
    0 <= i < s.len() && !comment_open(s, i + 1) && token_of(s[i]) is Some
}

/// The tokens of the first `n` characters of `s`.
pub open spec fn lex_prefix(s: Seq<char>, n: int) -> Seq<Token>
    decreases n,
{
    if n <= 0 {
        Seq::empty()
    } else if visible(s, n - 1) {
        lex_prefix(s, n - 1).push(token_of(s[n - 1])->0)
    } else {
        lex_prefix(s, n - 1)
    }
}

/// The token sequence of a source text: the image, symbol by symbol, of the
/// characters that are visible.
pub open spec fn lex_spec(s: Seq<char>) -> Seq<Token> {
    lex_prefix(s, s.len() as int)
}

/// The source text that writes a token sequence, one character per token.
pub open spec fn symbols_of(ts: Seq<Token>) -> Seq<char> {
    Seq::new(ts.len(), |i: int| symbol_of(ts[i]))
}

/// Maps one character to its token.
pub fn classify(c: char) -> (r: Option<Token>)
    ensures
        r == token_of(c),
{
    match c {
        '>' => Some(Token::IncPtr),
        '<' => Some(Token::DecPtr),
        '+' => Some(Token::IncCell),
        '-' => Some(Token::DecCell),
        '.' => Some(Token::Output),
        ',' => Some(Token::Input),
        '[' => Some(Token::LoopStart),
        ']' => Some(Token::LoopEnd),
        '{' => Some(Token::ParStart),
        '|' => Some(Token::ParSep),
        '}' => Some(Token::ParEnd),
        '(' => Some(Token::LockStart),
        ')' => Some(Token::LockEnd),
        '~' => Some(Token::Sleep),
        '^' => Some(Token::Wait),
        'v' => Some(Token::Notify),
        _ => None,
    }
}

/// Turns source text into tokens. Never fails: characters outside the
/// alphabet and everything from a `;` to the end of its line are dropped.
pub fn lex(input: &str) -> (tokens: Vec<Token>)
    ensures
        tokens@ == lex_spec(input@),
{
    let mut tokens: Vec<Token> = Vec::new();
    let mut commented = false;
    for c in it: input.chars()
        invariant
            it.seq() == input@,
            commented == comment_open(input@, it.index() as int),
            tokens@ == lex_prefix(input@, it.index() as int),
    {
        if c == '\n' {
            commented = false;
        } else if c == ';' {
            commented = true;
        } else if !commented {
            match classify(c) {
                Some(t) => {
                    tokens.push(t);
                },
                None => {},
            }
        }
    }
    tokens
}

/// Whether a comment starts at index `j` and runs at least up to index `n`:
/// a `;` stands at `j`, and no newline from there up to `n`.
pub open spec fn comment_from(s: Seq<char>, j: int, n: int) -> bool {
    s[j] == ';' && forall|k: int| j <= k < n ==> s[k] != '\n'
}

/// A comment is open after `n` characters exactly when some `;` among them
/// has no newline behind it.
pub proof fn lemma_comment_open_means(s: Seq<char>, n: int)
    requires
        0 <= n <= s.len(),
    ensures
        comment_open(s, n) <==> exists|j: int| 0 <= j < n && #[trigger] comment_from(s, j, n),
    decreases n,
{
    if n > 0 {
        lemma_comment_open_means(s, n - 1);
        if comment_open(s, n) {
            if s[n - 1] == ';' {
                assert(comment_from(s, n - 1, n));
            } else {
                let j = choose|j: int| 0 <= j < n - 1 && #[trigger] comment_from(s, j, n - 1);
                assert(comment_from(s, j, n));
            }
        }
        if exists|j: int| 0 <= j < n && #[trigger] comment_from(s, j, n) {
            let j = choose|j: int| 0 <= j < n && #[trigger] comment_from(s, j, n);
            assert(s[n - 1] != '\n');
            if j < n - 1 {
                assert(comment_from(s, j, n - 1));
            }
        }
    }
}

/// A comment never lets a token through: while a comment is open, nothing is
/// added to the token sequence.
pub proof fn lemma_commented_is_dropped(s: Seq<char>, n: int)
    requires
        0 < n <= s.len(),
        comment_open(s, n),
    ensures
        lex_prefix(s, n) == lex_prefix(s, n - 1),
{
}

/// Reading a prefix does not depend on what follows it.
pub proof fn lemma_prefix_independent(a: Seq<char>, b: Seq<char>, n: int)
    requires
        0 <= n <= a.len(),
    ensures
        comment_open(a + b, n) == comment_open(a, n),
        lex_prefix(a + b, n) == lex_prefix(a, n),
    decreases n,
{
    if n > 0 {
        lemma_prefix_independent(a, b, n - 1);
        assert((a + b)[n - 1] == a[n - 1]);
    }
}

/// Where no comment is open at the end of `a`, the text after `a` is read as
/// if it stood alone.
pub proof fn lemma_suffix_independent(a: Seq<char>, b: Seq<char>, n: int)
    requires
        !comment_open(a, a.len() as int),
        0 <= n <= b.len(),
    ensures
        comment_open(a + b, a.len() + n) == comment_open(b, n),
        lex_prefix(a + b, a.len() + n) == lex_prefix(a, a.len() as int) + lex_prefix(b, n),
    decreases n,
{
    if n == 0 {
        lemma_prefix_independent(a, b, a.len() as int);
        assert(lex_prefix(a, a.len() as int) + Seq::<Token>::empty() =~= lex_prefix(
            a,
            a.len() as int,
        ));
    } else {
        lemma_suffix_independent(a, b, n - 1);
        assert((a + b)[a.len() + n - 1] == b[n - 1]);
        if visible(b, n - 1) {
            assert(lex_prefix(a, a.len() as int) + lex_prefix(b, n - 1).push(
                token_of(b[n - 1])->0,
            ) =~= (lex_prefix(a, a.len() as int) + lex_prefix(b, n - 1)).push(
                token_of(b[n - 1])->0,
            ));
        }
    }
}

/// Lexing distributes over concatenation at any point where no comment is
/// open.
pub proof fn lemma_lex_concat(a: Seq<char>, b: Seq<char>)
    requires
        !comment_open(a, a.len() as int),
    ensures
        lex_spec(a + b) == lex_spec(a) + lex_spec(b),
        comment_open(a + b, (a + b).len() as int) == comment_open(b, b.len() as int),
{
    lemma_suffix_independent(a, b, b.len() as int);
}

/// A comment line, from its `;` through its newline, yields no token and
/// leaves no comment open.
pub proof fn lemma_comment_line_is_empty(body: Seq<char>)
    requires
        forall|i: int| 0 <= i < body.len() ==> body[i] != '\n',
    ensures
        lex_spec(seq![';'] + body + seq!['\n']) == Seq::<Token>::empty(),
        !comment_open(
            seq![';'] + body + seq!['\n'],
            (seq![';'] + body + seq!['\n']).len() as int,
        ),
{
    let line = seq![';'] + body + seq!['\n'];
    lemma_inside_comment(line, body.len() as int + 1);
    assert(line[line.len() - 1] == '\n');
    assert(!visible(line, line.len() - 1));
}

/// From a `;` on, as long as no newline is met, the comment stays open and
/// no token is produced.
proof fn lemma_inside_comment(line: Seq<char>, n: int)
    requires
        line.len() > 0,
        line[0] == ';',
        1 <= n <= line.len(),
        forall|i: int| 0 <= i < n ==> line[i] != '\n',
    ensures
        comment_open(line, n),
        lex_prefix(line, n) == Seq::<Token>::empty(),
    decreases n,
{
    if n > 1 {
        lemma_inside_comment(line, n - 1);
    } else {
        assert(lex_prefix(line, 0) == Seq::<Token>::empty());
    }
}

/// Inserting a whole comment line at a point where no comment is open leaves
/// the token sequence as it was.
pub proof fn lemma_comment_line_insertion(before: Seq<char>, body: Seq<char>, after: Seq<char>)
    requires
        !comment_open(before, before.len() as int),
        forall|i: int| 0 <= i < body.len() ==> body[i] != '\n',
    ensures
        lex_spec(before + (seq![';'] + body + seq!['\n']) + after) == lex_spec(before + after),
{
    let line = seq![';'] + body + seq!['\n'];
    lemma_comment_line_is_empty(body);
    lemma_lex_concat(before, line);
    lemma_lex_concat(before + line, after);
    lemma_lex_concat(before, after);
    assert(lex_spec(before) + Seq::<Token>::empty() =~= lex_spec(before));
}

/// Text made of token symbols alone holds no comment, and every character of
/// it is visible.
pub proof fn lemma_symbols_hold_no_comment(ts: Seq<Token>, n: int)
    requires
        0 <= n <= ts.len(),
    ensures
        !comment_open(symbols_of(ts), n),
        lex_prefix(symbols_of(ts), n) == ts.subrange(0, n),
    decreases n,
{
    if n > 0 {
        lemma_symbols_hold_no_comment(ts, n - 1);
        let s = symbols_of(ts);
        assert(s[n - 1] == symbol_of(ts[n - 1]));
        assert(token_of(symbol_of(ts[n - 1])) == Some(ts[n - 1]));
        assert(ts.subrange(0, n - 1).push(ts[n - 1]) =~= ts.subrange(0, n));
    } else {
        assert(ts.subrange(0, 0) =~= Seq::<Token>::empty());
    }
}

/// Writing tokens as symbols and lexing the text gives the tokens back.
pub proof fn lemma_lex_symbols(ts: Seq<Token>)
    ensures
        lex_spec(symbols_of(ts)) == ts,
{
    lemma_symbols_hold_no_comment(ts, ts.len() as int);
    assert(ts.subrange(0, ts.len() as int) =~= ts);
}

} // verus!
