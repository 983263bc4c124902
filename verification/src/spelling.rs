//! Tokens written out and read back.
//!
//! Every token but end-of-file and the illegal token has a spelling. Tokens
//! that are spelled one after the other with whitespace between them are
//! the tokens that the lexer reads.
use vstd::prelude::*;
use crate::lexer::{
    in_class,
    is_digit,
    is_letter,
    is_number_literal,
    lemma_run_length_bound,
    run_length,
    spec_first_token,
    spec_lexeme_length,
    spec_literal_to_token,
    spec_rest,
    spec_skip_whitespace,
    spec_token_of,
    spec_tokens,
    CharClass,
};
use crate::token::TokenView;

verus! {

/// The characters that spell a token; none for end-of-file and for the
/// illegal token.
pub open spec fn spec_spelling(t: TokenView) -> Seq<char> {
    match t {
        TokenView::Eof | TokenView::Illegal => Seq::empty(),
        TokenView::Plus => seq!['+'],
        TokenView::Minus => seq!['-'],
        TokenView::Asterisk => seq!['*'],
        TokenView::Slash => seq!['/'],
        TokenView::Assign => seq!['='],
        TokenView::Equal => seq!['=', '='],
        TokenView::NotEqual => seq!['!', '='],
        TokenView::Bang => seq!['!'],
        TokenView::Gt => seq!['>'],
        TokenView::Lt => seq!['<'],
        TokenView::Gte => seq!['>', '='],
        TokenView::Lte => seq!['<', '='],
        TokenView::Comma => seq![','],
        TokenView::Semicolon => seq![';'],
        TokenView::LParen => seq!['('],
        TokenView::RParen => seq![')'],
        TokenView::LCurlyBracket => seq!['{'],
        TokenView::RCurlyBracket => seq!['}'],
        TokenView::LSquareBracket => seq!['['],
        TokenView::RSquareBracket => seq![']'],
        TokenView::If => "if"@,
        TokenView::Else => "else"@,
        TokenView::Return => "return"@,
        TokenView::Let => "let"@,
        TokenView::Fn => "fn"@,
        TokenView::Ident(name) => name,
        TokenView::Num(literal) => literal,
        TokenView::True => "true"@,
        TokenView::False => "false"@,
    }
}

/// Whether `name` can be the name of an identifier: a letter, then letters,
/// digits and underscores, and no keyword.
pub open spec fn is_identifier(name: Seq<char>) -> bool {
    &&& name.len() > 0
    &&& is_letter(name[0])
    &&& run_length(name.skip(1), CharClass::WordPart) == name.len() - 1
    &&& spec_literal_to_token(name) == TokenView::Ident(name)
}

/// Whether a token is one that the lexer can give: not end-of-file, not
/// illegal, an identifier with a name that can be one, a number with a
/// decimal literal.
pub open spec fn is_spelled(t: TokenView) -> bool {
    match t {
        TokenView::Eof | TokenView::Illegal => false,
        TokenView::Ident(name) => is_identifier(name),
        TokenView::Num(literal) => is_number_literal(literal),
        _ => true,
    }
}

/// The tokens spelled one after the other, a space behind each.
pub open spec fn spec_spell_all(tokens: Seq<TokenView>) -> Seq<char>
    decreases tokens.len(),
{
    if tokens.len() == 0 {
        Seq::empty()
    } else {
        spec_spelling(tokens[0]) + seq![' '] + spec_spell_all(tokens.skip(1))
    }
}

/// The characters of a run belong to its class.
pub proof fn lemma_run_members(s: Seq<char>, class: CharClass, i: int)
    requires
        0 <= i < run_length(s, class),
    ensures
        i < s.len(),
        in_class(class, s[i]),
    decreases s.len(),
{
    if i > 0 {
        lemma_run_members(s.drop_first(), class, i - 1);
    }
}

/// A sequence all of whose characters belong to a class is one run.
pub proof fn lemma_run_of_members(s: Seq<char>, class: CharClass)
    requires
        forall|i: int| 0 <= i < s.len() ==> in_class(class, #[trigger] s[i]),
    ensures
        run_length(s, class) == s.len(),
    decreases s.len(),
{
    if s.len() > 0 {
        assert(in_class(class, s[0]));
        assert forall|i: int| 0 <= i < s.drop_first().len() implies in_class(
            class,
            #[trigger] s.drop_first()[i],
        ) by {
            assert(s.drop_first()[i] == s[i + 1]);
        }
        lemma_run_of_members(s.drop_first(), class);
    }
}

/// A run ends where a character follows that does not belong to its class.
pub proof fn lemma_run_ends(run: Seq<char>, rest: Seq<char>, class: CharClass)
    requires
        run_length(run, class) == run.len(),
        rest.len() == 0 || !in_class(class, rest[0]),
    ensures
        run_length(run + rest, class) == run.len(),
    decreases run.len(),
{
    if run.len() > 0 {
        lemma_run_length_bound(run.drop_first(), class);
        assert((run + rest).drop_first() =~= run.drop_first() + rest);
        lemma_run_ends(run.drop_first(), rest, class);
    } else {
        assert(run + rest =~= rest);
    }
}

/// Every character of a decimal literal may stand in a numeric literal.
pub proof fn lemma_literal_members(literal: Seq<char>)
    requires
        is_number_literal(literal),
    ensures
        literal.len() > 0,
        is_digit(literal[0]),
        run_length(literal.skip(1), CharClass::NumberPart) == literal.len() - 1,
{
    let whole = run_length(literal, CharClass::Digit);
    lemma_run_length_bound(literal, CharClass::Digit);
    let tail = literal.skip(whole as int);
    let digits = if tail.len() > 0 && tail[0] == '.' {
        run_length(tail.skip(1), CharClass::Digit)
    } else {
        0
    };
    let fraction = if tail.len() > 0 && tail[0] == '.' {
        1 + digits
    } else {
        0
    };
    if tail.len() > 0 && tail[0] == '.' {
        lemma_run_length_bound(tail.skip(1), CharClass::Digit);
    }
    let exponent = tail.skip(fraction as int);
    lemma_run_members(literal, CharClass::Digit, 0);
    assert forall|i: int| 0 <= i < literal.len() implies in_class(
        CharClass::NumberPart,
        #[trigger] literal[i],
    ) by {
        if i < whole {
            lemma_run_members(literal, CharClass::Digit, i);
        } else if i < whole + fraction {
            if i > whole {
                lemma_run_members(tail.skip(1), CharClass::Digit, i - whole - 1);
                assert(tail.skip(1)[i - whole - 1] == literal[i]);
            } else {
                assert(tail[0] == literal[i]);
            }
        } else {
            assert(exponent.len() > 0);
            assert(exponent[i - whole - fraction] == literal[i]);
            if i > whole + fraction {
                lemma_run_members(
                    exponent.skip(1),
                    CharClass::Digit,
                    i - whole - fraction - 1,
                );
                assert(exponent.skip(1)[i - whole - fraction - 1] == literal[i]);
            }
        }
    }
    assert forall|i: int| 0 <= i < literal.skip(1).len() implies in_class(
        CharClass::NumberPart,
        #[trigger] literal.skip(1)[i],
    ) by {
        assert(literal.skip(1)[i] == literal[i + 1]);
    }
    lemma_run_of_members(literal.skip(1), CharClass::NumberPart);
}

/// A token that is spelled at the front of the input, with whitespace or
/// nothing behind it, is the token that the lexer reads there, and the
/// lexer goes on behind the whitespace.
pub proof fn lemma_reads_back(t: TokenView, rest: Seq<char>)
    requires
        is_spelled(t),
        rest.len() == 0 || in_class(CharClass::Whitespace, rest[0]),
    ensures
        spec_first_token(spec_spelling(t) + rest) == t,
        spec_rest(spec_spelling(t) + rest) == spec_skip_whitespace(rest),
{
    let word = spec_spelling(t);
    let s = word + rest;
    reveal_strlit("let");
    reveal_strlit("fn");
    reveal_strlit("if");
    reveal_strlit("else");
    reveal_strlit("return");
    reveal_strlit("true");
    reveal_strlit("false");
    match t {
        TokenView::Ident(name) => {
            assert(s.skip(1) =~= name.skip(1) + rest);
            lemma_run_ends(name.skip(1), rest, CharClass::WordPart);
        },
        TokenView::Num(literal) => {
            lemma_literal_members(literal);
            assert(s.skip(1) =~= literal.skip(1) + rest);
            lemma_run_ends(literal.skip(1), rest, CharClass::NumberPart);
        },
        TokenView::If | TokenView::Else | TokenView::Return | TokenView::Let | TokenView::Fn
        | TokenView::True | TokenView::False => {
            assert forall|i: int| 0 <= i < word.skip(1).len() implies in_class(
                CharClass::WordPart,
                #[trigger] word.skip(1)[i],
            ) by {
                assert(word.skip(1)[i] == word[i + 1]);
            }
            lemma_run_of_members(word.skip(1), CharClass::WordPart);
            assert(s.skip(1) =~= word.skip(1) + rest);
            lemma_run_ends(word.skip(1), rest, CharClass::WordPart);
        },
        _ => {},
    }
    assert(s[0] == word[0]);
    assert(run_length(s, CharClass::Whitespace) == 0);
    assert(spec_skip_whitespace(s) =~= s);
    assert(spec_lexeme_length(s) == word.len());
    assert(s.take(word.len() as int) =~= word);
    assert(s.skip(word.len() as int) =~= rest);
    assert(spec_token_of(word) == t);
}

/// Tokens that are spelled one after the other, a space behind each, are the
/// tokens that the lexer reads, in their order; after them it is at the end.
pub proof fn lemma_reads_all_back(tokens: Seq<TokenView>)
    requires
        forall|i: int| 0 <= i < tokens.len() ==> is_spelled(#[trigger] tokens[i]),
    ensures
        spec_tokens(spec_spell_all(tokens)) == tokens,
    decreases tokens.len(),
{
    let s = spec_spell_all(tokens);
    if tokens.len() == 0 {
        assert(spec_skip_whitespace(s) =~= s);
    } else {
        let tail = spec_spell_all(tokens.skip(1));
        let rest = seq![' '] + tail;
        assert(s =~= spec_spelling(tokens[0]) + rest);
        assert(rest[0] == ' ');
        lemma_reads_back(tokens[0], rest);
        assert forall|i: int| 0 <= i < tokens.skip(1).len() implies is_spelled(
            #[trigger] tokens.skip(1)[i],
        ) by {
            assert(tokens.skip(1)[i] == tokens[i + 1]);
        }
        lemma_reads_all_back(tokens.skip(1));
        crate::lexer::lemma_whitespace_is_no_token(rest);
        crate::lexer::lemma_whitespace_is_no_token(tail);
        crate::lexer::lemma_end_of_file(s);
        assert(spec_skip_whitespace(rest) == spec_skip_whitespace(tail)) by {
            assert(rest.drop_first() =~= tail);
            lemma_run_length_bound(tail, CharClass::Whitespace);
            assert(run_length(rest, CharClass::Whitespace) == 1 + run_length(
                tail,
                CharClass::Whitespace,
            ));
            assert(rest.skip(1 + run_length(tail, CharClass::Whitespace) as int) =~= tail.skip(
                run_length(tail, CharClass::Whitespace) as int,
            ));
        }
        assert(tokens =~= seq![tokens[0]] + tokens.skip(1));
    }
}

} // verus!
