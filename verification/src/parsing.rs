//! The expression parser: a tokenizer and a precedence-driven recursive
//! descent that turns expression text into an [`ASTNode`] plus a dense
//! variable name table, interning identifiers in first-occurrence order.

use vstd::prelude::*;
use vstd::string::StrSliceExecFns;

use crate::ast_node::binding_sorted;
use crate::ast_node::ASTNode;
use crate::ast_node::lemma_ids_below_mono;
use crate::ast_node::lemma_simplify_ids_below;
use crate::operators::InfixOperator;
use crate::operators::UnaryOperator;
use crate::text::str_eq;

verus! {

/// One lexical token of the expression grammar.
#[derive(Debug)]
pub enum Token {
    LParen,
    RParen,
    NotOp,
    Op(InfixOperator),
    Lit(bool),
    Ident(String),
}

/// The mathematical image of one token; an identifier carries its text.
pub enum TokenModel {
    LParen,
    RParen,
    NotOp,
    Op(InfixOperator),
    Lit(bool),
    Ident(Seq<char>),
}

impl View for Token {
    type V = TokenModel;

    open spec fn view(&self) -> TokenModel {
        match self {
            Token::LParen => TokenModel::LParen,
            Token::RParen => TokenModel::RParen,
            Token::NotOp => TokenModel::NotOp,
            Token::Op(op) => TokenModel::Op(*op),
            Token::Lit(b) => TokenModel::Lit(*b),
            Token::Ident(name) => TokenModel::Ident(name@),
        }
    }
}

impl DeepView for Token {
    type V = TokenModel;

    open spec fn deep_view(&self) -> TokenModel {
        self.view()
    }
}

/// A whitespace character between tokens.
pub open spec fn space_char(c: char) -> bool {
    c == ' ' || c == '\t' || c == '\n' || c == '\r'
}

/// A character that may occur in a word token.
pub open spec fn word_char(c: char) -> bool {
    ('a' <= c && c <= 'z') || ('A' <= c && c <= 'Z') || ('0' <= c && c <= '9') || c == '_'
}

/// The position just past the word that starts at `i`: the first position
/// at or after `i` holding no word character.
pub open spec fn word_end(s: Seq<char>, i: int) -> int
    decreases s.len() - i,
    when 0 <= i <= s.len()
{
    if i >= s.len() || !word_char(s[i]) {
        i
    } else {
        word_end(s, i + 1)
    }
}

/// The end of a word lies between its start and the end of the text.
pub proof fn lemma_word_end_bounds(s: Seq<char>, i: int)
    requires
        0 <= i <= s.len(),
    ensures
        i <= word_end(s, i) <= s.len(),
    decreases s.len() - i,
{
    if i < s.len() && word_char(s[i]) {
        lemma_word_end_bounds(s, i + 1);
    }
}

/// The word `true`, in any mix of ASCII cases.
pub open spec fn kw_true(w: Seq<char>) -> bool {
    w.len() == 4 && (w[0] == 't' || w[0] == 'T') && (w[1] == 'r' || w[1] == 'R') && (w[2] == 'u'
        || w[2] == 'U') && (w[3] == 'e' || w[3] == 'E')
}

/// The word `false`, in any mix of ASCII cases.
pub open spec fn kw_false(w: Seq<char>) -> bool {
    w.len() == 5 && (w[0] == 'f' || w[0] == 'F') && (w[1] == 'a' || w[1] == 'A') && (w[2] == 'l'
        || w[2] == 'L') && (w[3] == 's' || w[3] == 'S') && (w[4] == 'e' || w[4] == 'E')
}

/// The word `and`, in any mix of ASCII cases.
pub open spec fn kw_and(w: Seq<char>) -> bool {
    w.len() == 3 && (w[0] == 'a' || w[0] == 'A') && (w[1] == 'n' || w[1] == 'N') && (w[2] == 'd'
        || w[2] == 'D')
}

/// The word `or`, in any mix of ASCII cases.
pub open spec fn kw_or(w: Seq<char>) -> bool {
    w.len() == 2 && (w[0] == 'o' || w[0] == 'O') && (w[1] == 'r' || w[1] == 'R')
}

/// What a word token means: a boolean literal, a word operator, or an
/// identifier.
pub open spec fn classify_word_model(w: Seq<char>) -> TokenModel {
    if kw_true(w) {
        TokenModel::Lit(true)
    } else if kw_false(w) {
        TokenModel::Lit(false)
    } else if kw_and(w) {
        TokenModel::Op(InfixOperator::And)
    } else if kw_or(w) {
        TokenModel::Op(InfixOperator::Or)
    } else {
        TokenModel::Ident(w)
    }
}

/// Prepends one token to a tokenization that may have failed.
pub open spec fn cons_tok(t: TokenModel, rest: Option<Seq<TokenModel>>) -> Option<
    Seq<TokenModel>,
> {
    match rest {
        Option::Some(ts) => Option::Some(seq![t] + ts),
        Option::None => Option::None,
    }
}

/// The tokenization of the text from position `i` on: `None` exactly when
/// a character fits no token.
pub open spec fn tokens_from(s: Seq<char>, i: int) -> Option<Seq<TokenModel>>
    decreases s.len() - i,
    when 0 <= i <= s.len()
    via tokens_from_decreases
{
    if i >= s.len() {
        Option::Some(Seq::empty())
    } else {
        let c = s[i];
        if space_char(c) {
            tokens_from(s, i + 1)
        } else if c == '(' {
            cons_tok(TokenModel::LParen, tokens_from(s, i + 1))
        } else if c == ')' {
            cons_tok(TokenModel::RParen, tokens_from(s, i + 1))
        } else if c == '!' || c == '~' {
            cons_tok(TokenModel::NotOp, tokens_from(s, i + 1))
        } else if c == '&' || c == '*' {
            cons_tok(TokenModel::Op(InfixOperator::And), tokens_from(s, i + 1))
        } else if c == '|' || c == '+' {
            cons_tok(TokenModel::Op(InfixOperator::Or), tokens_from(s, i + 1))
        } else if c == '-' {
            if i + 1 < s.len() && s[i + 1] == '>' {
                cons_tok(TokenModel::Op(InfixOperator::Implication), tokens_from(s, i + 2))
            } else {
                Option::None
            }
        } else if word_char(c) {
            cons_tok(
                classify_word_model(s.subrange(i, word_end(s, i))),
                tokens_from(s, word_end(s, i)),
            )
        } else {
            Option::None
        }
    }
}

#[via_fn]
proof fn tokens_from_decreases(s: Seq<char>, i: int) {
    if 0 <= i < s.len() && word_char(s[i]) {
        lemma_word_end_bounds(s, i + 1);
        assert(word_end(s, i) == word_end(s, i + 1));
    }
}

/// Appending one token to the prefix mirrors prepending it to the rest.
proof fn lemma_opt_concat_push(pre: Seq<TokenModel>, t: TokenModel, rest: Option<Seq<TokenModel>>)
    ensures
        opt_concat(pre.push(t), rest) == opt_concat(pre, cons_tok(t, rest)),
{
    match rest {
        Option::Some(ts) => {
            assert(pre.push(t) + ts =~= pre + (seq![t] + ts));
        },
        Option::None => {},
    }
}

/// A fixed token prefix followed by the tokenization of the rest.
spec fn opt_concat(pre: Seq<TokenModel>, rest: Option<Seq<TokenModel>>) -> Option<
    Seq<TokenModel>,
> {
    match rest {
        Option::Some(ts) => Option::Some(pre + ts),
        Option::None => Option::None,
    }
}

/// A name table holds no name twice.
pub open spec fn names_distinct(ns: Seq<Seq<char>>) -> bool {
    forall|i: int, j: int| 0 <= i < j < ns.len() ==> ns[i] != ns[j]
}

/// The new table keeps every entry of the old one, in place.
pub open spec fn table_extends(new: Seq<Seq<char>>, old: Seq<Seq<char>>) -> bool {
    old.len() <= new.len() && forall|i: int| 0 <= i < old.len() ==> new[i] == old[i]
}

/// A character that may occur in an identifier or keyword token.
fn is_word_char(c: char) -> (r: bool)
    ensures
        r == word_char(c),
{
    ('a' <= c && c <= 'z') || ('A' <= c && c <= 'Z') || ('0' <= c && c <= '9') || c == '_'
}

/// Case-insensitive test of one character against its two ASCII cases.
fn char_ci(c: char, lower: char, upper: char) -> (r: bool)
    ensures
        r == (c == lower || c == upper),
{
    c == lower || c == upper
}

/// Classifies a word token: the literals `true` and `false` and the word
/// operators `and` and `or` (all case-insensitive) are keywords; any other
/// word is an identifier.
fn classify_word(w: &str) -> (r: Token)
    ensures
        r@ == classify_word_model(w@),
{
    let n = w.unicode_len();
    if n == 4 && char_ci(w.get_char(0), 't', 'T') && char_ci(w.get_char(1), 'r', 'R') && char_ci(
        w.get_char(2),
        'u',
        'U',
    ) && char_ci(w.get_char(3), 'e', 'E') {
        Token::Lit(true)
    } else if n == 5 && char_ci(w.get_char(0), 'f', 'F') && char_ci(w.get_char(1), 'a', 'A')
        && char_ci(w.get_char(2), 'l', 'L') && char_ci(w.get_char(3), 's', 'S') && char_ci(
        w.get_char(4),
        'e',
        'E',
    ) {
        Token::Lit(false)
    } else if n == 3 && char_ci(w.get_char(0), 'a', 'A') && char_ci(w.get_char(1), 'n', 'N')
        && char_ci(w.get_char(2), 'd', 'D') {
        Token::Op(InfixOperator::And)
    } else if n == 2 && char_ci(w.get_char(0), 'o', 'O') && char_ci(w.get_char(1), 'r', 'R') {
        Token::Op(InfixOperator::Or)
    } else {
        Token::Ident(w.to_owned())
    }
}

/// Appends one token, extending the sequence of token images by its image.
fn push_token(toks: &mut Vec<Token>, t: Token)
    ensures
        final(toks).deep_view() == old(toks).deep_view().push(t@),
{
    let ghost tv = t@;
    toks.push(t);
    proof {
        assert(toks.deep_view() =~= old(toks).deep_view().push(tv));
    }
}

/// Splits expression text into tokens; fails, reporting the offending
/// construct, exactly when [`tokens_from`] does.
fn tokenize(s: &str) -> (r: Result<Vec<Token>, String>)
    ensures
        r matches Ok(t) ==> tokens_from(s@, 0) == Option::Some(t.deep_view()),
        r is Err ==> tokens_from(s@, 0) is None,
{
    let n = s.unicode_len();
    let mut toks: Vec<Token> = Vec::new();
    let mut i: usize = 0;
    proof {
        match tokens_from(s@, 0) {
            Option::Some(ts) => {
                assert(Seq::<TokenModel>::empty() + ts =~= ts);
            },
            Option::None => {},
        }
    }
    while i < n
        invariant
            i <= n,
            n == s@.len(),
            tokens_from(s@, 0) == opt_concat(toks.deep_view(), tokens_from(s@, i as int)),
        decreases n - i,
    {
        let c = s.get_char(i);
        if c == ' ' || c == '\t' || c == '\n' || c == '\r' {
            proof {
                assert(tokens_from(s@, i as int) == tokens_from(s@, i + 1));
            }
            i = i + 1;
        } else if c == '(' {
            proof {
                assert(tokens_from(s@, i as int) == cons_tok(
                    TokenModel::LParen,
                    tokens_from(s@, i + 1),
                ));
                lemma_opt_concat_push(toks.deep_view(), TokenModel::LParen, tokens_from(s@, i + 1));
            }
            push_token(&mut toks, Token::LParen);
            i = i + 1;
        } else if c == ')' {
            proof {
                assert(tokens_from(s@, i as int) == cons_tok(
                    TokenModel::RParen,
                    tokens_from(s@, i + 1),
                ));
                lemma_opt_concat_push(toks.deep_view(), TokenModel::RParen, tokens_from(s@, i + 1));
            }
            push_token(&mut toks, Token::RParen);
            i = i + 1;
        } else if c == '!' || c == '~' {
            proof {
                assert(tokens_from(s@, i as int) == cons_tok(
                    TokenModel::NotOp,
                    tokens_from(s@, i + 1),
                ));
                lemma_opt_concat_push(toks.deep_view(), TokenModel::NotOp, tokens_from(s@, i + 1));
            }
            push_token(&mut toks, Token::NotOp);
            i = i + 1;
        } else if c == '&' || c == '*' {
            proof {
                assert(tokens_from(s@, i as int) == cons_tok(
                    TokenModel::Op(InfixOperator::And),
                    tokens_from(s@, i + 1),
                ));
                lemma_opt_concat_push(
                    toks.deep_view(),
                    TokenModel::Op(InfixOperator::And),
                    tokens_from(s@, i + 1),
                );
            }
            push_token(&mut toks, Token::Op(InfixOperator::And));
            i = i + 1;
        } else if c == '|' || c == '+' {
            proof {
                assert(tokens_from(s@, i as int) == cons_tok(
                    TokenModel::Op(InfixOperator::Or),
                    tokens_from(s@, i + 1),
                ));
                lemma_opt_concat_push(
                    toks.deep_view(),
                    TokenModel::Op(InfixOperator::Or),
                    tokens_from(s@, i + 1),
                );
            }
            push_token(&mut toks, Token::Op(InfixOperator::Or));
            i = i + 1;
        } else if c == '-' {
            if i + 1 < n && s.get_char(i + 1) == '>' {
                proof {
                    assert(tokens_from(s@, i as int) == cons_tok(
                        TokenModel::Op(InfixOperator::Implication),
                        tokens_from(s@, i + 2),
                    ));
                    lemma_opt_concat_push(
                        toks.deep_view(),
                        TokenModel::Op(InfixOperator::Implication),
                        tokens_from(s@, i + 2),
                    );
                }
                push_token(&mut toks, Token::Op(InfixOperator::Implication));
                i = i + 2;
            } else {
                proof {
                    assert(tokens_from(s@, i as int) is None);
                }
                return Err("parse error: expected '>' after '-'".to_owned());
            }
        } else if is_word_char(c) {
            let mut j: usize = i + 1;
            proof {
                assert(word_end(s@, i as int) == word_end(s@, i + 1));
            }
            while j < n && is_word_char(s.get_char(j))
                invariant
                    i < j <= n,
                    n == s@.len(),
                    word_end(s@, i as int) == word_end(s@, j as int),
                decreases n - j,
            {
                proof {
                    assert(word_end(s@, j as int) == word_end(s@, j + 1));
                }
                j = j + 1;
            }
            proof {
                assert(word_end(s@, j as int) == j);
            }
            let w = s.substring_char(i, j);
            let tok = classify_word(w);
            proof {
                assert(tokens_from(s@, i as int) == cons_tok(
                    classify_word_model(s@.subrange(i as int, j as int)),
                    tokens_from(s@, j as int),
                ));
                lemma_opt_concat_push(toks.deep_view(), tok@, tokens_from(s@, j as int));
            }
            push_token(&mut toks, tok);
            i = j;
        } else {
            proof {
                assert(tokens_from(s@, i as int) is None);
            }
            return Err("parse error: unexpected character".to_owned());
        }
    }
    proof {
        assert(tokens_from(s@, i as int) == Option::Some(Seq::<TokenModel>::empty()));
        assert(toks.deep_view() + Seq::<TokenModel>::empty() =~= toks.deep_view());
    }
    Ok(toks)
}

/// What interning a name does to the table: a known name keeps the table
/// and yields its unique index, an unseen name is appended and receives
/// the next index.
pub open spec fn intern_model(names: Seq<Seq<char>>, name: Seq<char>) -> (Seq<Seq<char>>, int) {
    if exists|k: int| 0 <= k < names.len() && names[k] == name {
        (names, choose|k: int| 0 <= k < names.len() && names[k] == name)
    } else {
        (names.push(name), names.len() as int)
    }
}

/// The parse of one primary expression: a parenthesized expression, a
/// literal, or an identifier. All parser models take the tokens, the
/// position to start at and the name table so far, and return the parsed
/// node, the position just past it and the extended table, or `None` on a
/// grammar mismatch. The fuel argument only forces the mutual recursion
/// to terminate; above one unit per remaining token it does not affect
/// the result (see [`lemma_parse_primary_model_fuel`]).
pub open spec fn parse_primary_model(
    toks: Seq<TokenModel>,
    pos: int,
    names: Seq<Seq<char>>,
    fuel: nat,
) -> Option<(ASTNode, int, Seq<Seq<char>>)>
    decreases fuel, 0int,
{
    if fuel == 0 || pos < 0 || pos >= toks.len() {
        Option::None
    } else {
        match toks[pos] {
            TokenModel::LParen => match parse_implication_model(
                toks,
                pos + 1,
                names,
                (fuel - 1) as nat,
            ) {
                Option::None => Option::None,
                Option::Some((node, p, n2)) => {
                    if p < toks.len() && toks[p] == TokenModel::RParen {
                        Option::Some((node, p + 1, n2))
                    } else {
                        Option::None
                    }
                },
            },
            TokenModel::Lit(b) => Option::Some((ASTNode::Literal(b), pos + 1, names)),
            TokenModel::Ident(nm) => {
                let (n2, id) = intern_model(names, nm);
                Option::Some((ASTNode::Identifier(id as usize), pos + 1, n2))
            },
            _ => Option::None,
        }
    }
}

/// The parse of a unary level: leading negation tokens over a primary.
pub open spec fn parse_unary_model(
    toks: Seq<TokenModel>,
    pos: int,
    names: Seq<Seq<char>>,
    fuel: nat,
) -> Option<(ASTNode, int, Seq<Seq<char>>)>
    decreases fuel, 1int,
{
    if fuel == 0 {
        Option::None
    } else if 0 <= pos < toks.len() && toks[pos] == TokenModel::NotOp {
        match parse_unary_model(toks, pos + 1, names, (fuel - 1) as nat) {
            Option::None => Option::None,
            Option::Some((inner, p, n2)) => Option::Some(
                (
                    ASTNode::UnaryOperation { op: UnaryOperator::Not, expr: Box::new(inner) },
                    p,
                    n2,
                ),
            ),
        }
    } else {
        parse_primary_model(toks, pos, names, fuel)
    }
}

/// Whether the token continues a conjunction/disjunction chain, and with
/// which operator.
pub open spec fn and_or_token(t: TokenModel) -> Option<InfixOperator> {
    match t {
        TokenModel::Op(InfixOperator::And) => Option::Some(InfixOperator::And),
        TokenModel::Op(InfixOperator::Or) => Option::Some(InfixOperator::Or),
        _ => Option::None,
    }
}

/// The left fold of a conjunction/disjunction chain onto the operand
/// `acc` parsed so far.
pub open spec fn parse_and_or_rest_model(
    toks: Seq<TokenModel>,
    pos: int,
    acc: ASTNode,
    names: Seq<Seq<char>>,
    fuel: nat,
) -> Option<(ASTNode, int, Seq<Seq<char>>)>
    decreases fuel, 2int,
{
    if fuel == 0 {
        Option::None
    } else if 0 <= pos < toks.len() && and_or_token(toks[pos]) is Some {
        let op = and_or_token(toks[pos]).unwrap();
        match parse_unary_model(toks, pos + 1, names, fuel) {
            Option::None => Option::None,
            Option::Some((rhs, p2, n2)) => parse_and_or_rest_model(
                toks,
                p2,
                ASTNode::InfixOperation { op, lhs: Box::new(acc), rhs: Box::new(rhs) },
                n2,
                (fuel - 1) as nat,
            ),
        }
    } else {
        Option::Some((acc, pos, names))
    }
}

/// The parse of the conjunction/disjunction level: a unary operand and
/// the left fold of the chain after it.
pub open spec fn parse_and_or_model(
    toks: Seq<TokenModel>,
    pos: int,
    names: Seq<Seq<char>>,
    fuel: nat,
) -> Option<(ASTNode, int, Seq<Seq<char>>)>
    decreases fuel, 3int,
{
    if fuel == 0 {
        Option::None
    } else {
        match parse_unary_model(toks, pos, names, fuel) {
            Option::None => Option::None,
            Option::Some((first, p1, n1)) => parse_and_or_rest_model(toks, p1, first, n1, fuel),
        }
    }
}

/// The parse of the implication level, folded to the right.
pub open spec fn parse_implication_model(
    toks: Seq<TokenModel>,
    pos: int,
    names: Seq<Seq<char>>,
    fuel: nat,
) -> Option<(ASTNode, int, Seq<Seq<char>>)>
    decreases fuel, 4int,
{
    if fuel == 0 {
        Option::None
    } else {
        match parse_and_or_model(toks, pos, names, fuel) {
            Option::None => Option::None,
            Option::Some((lhs, p1, n1)) => {
                if p1 < toks.len() && toks[p1] == TokenModel::Op(InfixOperator::Implication) {
                    match parse_implication_model(toks, p1 + 1, n1, (fuel - 1) as nat) {
                        Option::None => Option::None,
                        Option::Some((rhs, p2, n2)) => Option::Some(
                            (
                                ASTNode::InfixOperation {
                                    op: InfixOperator::Implication,
                                    lhs: Box::new(lhs),
                                    rhs: Box::new(rhs),
                                },
                                p2,
                                n2,
                            ),
                        ),
                    }
                } else {
                    Option::Some((lhs, p1, n1))
                }
            },
        }
    }
}

/// The parse of whole expression text: tokenization followed by the
/// implication level, which must consume every token.
pub open spec fn parse_model(s: Seq<char>) -> Option<(ASTNode, Seq<Seq<char>>)> {
    match tokens_from(s, 0) {
        Option::None => Option::None,
        Option::Some(toks) => match parse_implication_model(
            toks,
            0,
            Seq::empty(),
            toks.len() + 1,
        ) {
            Option::None => Option::None,
            Option::Some((node, p, nm)) => {
                if p == toks.len() {
                    Option::Some((node, nm))
                } else {
                    Option::None
                }
            },
        },
    }
}

/// Above one unit of fuel per remaining token, the fuel does not affect
/// a primary parse, and a successful parse consumes at least one token.
proof fn lemma_parse_primary_model_fuel(
    toks: Seq<TokenModel>,
    pos: int,
    names: Seq<Seq<char>>,
    f1: nat,
    f2: nat,
)
    requires
        0 <= pos <= toks.len(),
        f1 > toks.len() - pos,
        f2 > toks.len() - pos,
    ensures
        parse_primary_model(toks, pos, names, f1) == parse_primary_model(toks, pos, names, f2),
        parse_primary_model(toks, pos, names, f1) matches Some(t) ==> pos < t.1 <= toks.len(),
    decreases f1 + f2, 0int,
{
    if pos < toks.len() {
        match toks[pos] {
            TokenModel::LParen => {
                lemma_parse_implication_model_fuel(
                    toks,
                    pos + 1,
                    names,
                    (f1 - 1) as nat,
                    (f2 - 1) as nat,
                );
            },
            _ => {},
        }
    }
}

/// Fuel irrelevance and progress for the unary level.
proof fn lemma_parse_unary_model_fuel(
    toks: Seq<TokenModel>,
    pos: int,
    names: Seq<Seq<char>>,
    f1: nat,
    f2: nat,
)
    requires
        0 <= pos <= toks.len(),
        f1 > toks.len() - pos,
        f2 > toks.len() - pos,
    ensures
        parse_unary_model(toks, pos, names, f1) == parse_unary_model(toks, pos, names, f2),
        parse_unary_model(toks, pos, names, f1) matches Some(t) ==> pos < t.1 <= toks.len(),
    decreases f1 + f2, 1int,
{
    if pos < toks.len() && toks[pos] == TokenModel::NotOp {
        lemma_parse_unary_model_fuel(toks, pos + 1, names, (f1 - 1) as nat, (f2 - 1) as nat);
    } else {
        lemma_parse_primary_model_fuel(toks, pos, names, f1, f2);
    }
}

/// Fuel irrelevance for the fold of a conjunction/disjunction chain; the
/// fold never moves backwards.
proof fn lemma_parse_and_or_rest_model_fuel(
    toks: Seq<TokenModel>,
    pos: int,
    acc: ASTNode,
    names: Seq<Seq<char>>,
    f1: nat,
    f2: nat,
)
    requires
        0 <= pos <= toks.len(),
        f1 > toks.len() - pos,
        f2 > toks.len() - pos,
    ensures
        parse_and_or_rest_model(toks, pos, acc, names, f1) == parse_and_or_rest_model(
            toks,
            pos,
            acc,
            names,
            f2,
        ),
        parse_and_or_rest_model(toks, pos, acc, names, f1) matches Some(t) ==> pos <= t.1
            <= toks.len(),
    decreases f1 + f2, 2int,
{
    if pos < toks.len() && and_or_token(toks[pos]) is Some {
        let op = and_or_token(toks[pos]).unwrap();
        lemma_parse_unary_model_fuel(toks, pos + 1, names, f1, f2);
        match parse_unary_model(toks, pos + 1, names, f1) {
            Option::Some((rhs, p2, n2)) => {
                lemma_parse_and_or_rest_model_fuel(
                    toks,
                    p2,
                    ASTNode::InfixOperation { op, lhs: Box::new(acc), rhs: Box::new(rhs) },
                    n2,
                    (f1 - 1) as nat,
                    (f2 - 1) as nat,
                );
            },
            Option::None => {},
        }
    }
}

/// Fuel irrelevance and progress for the conjunction/disjunction level.
proof fn lemma_parse_and_or_model_fuel(
    toks: Seq<TokenModel>,
    pos: int,
    names: Seq<Seq<char>>,
    f1: nat,
    f2: nat,
)
    requires
        0 <= pos <= toks.len(),
        f1 > toks.len() - pos,
        f2 > toks.len() - pos,
    ensures
        parse_and_or_model(toks, pos, names, f1) == parse_and_or_model(toks, pos, names, f2),
        parse_and_or_model(toks, pos, names, f1) matches Some(t) ==> pos < t.1 <= toks.len(),
    decreases f1 + f2, 3int,
{
    lemma_parse_unary_model_fuel(toks, pos, names, f1, f2);
    match parse_unary_model(toks, pos, names, f1) {
        Option::Some((first, p1, n1)) => {
            lemma_parse_and_or_rest_model_fuel(toks, p1, first, n1, f1, f2);
        },
        Option::None => {},
    }
}

/// Fuel irrelevance and progress for the implication level.
proof fn lemma_parse_implication_model_fuel(
    toks: Seq<TokenModel>,
    pos: int,
    names: Seq<Seq<char>>,
    f1: nat,
    f2: nat,
)
    requires
        0 <= pos <= toks.len(),
        f1 > toks.len() - pos,
        f2 > toks.len() - pos,
    ensures
        parse_implication_model(toks, pos, names, f1) == parse_implication_model(
            toks,
            pos,
            names,
            f2,
        ),
        parse_implication_model(toks, pos, names, f1) matches Some(t) ==> pos < t.1 <= toks.len(),
    decreases f1 + f2, 4int,
{
    lemma_parse_and_or_model_fuel(toks, pos, names, f1, f2);
    match parse_and_or_model(toks, pos, names, f1) {
        Option::Some((lhs, p1, n1)) => {
            if p1 < toks.len() && toks[p1] == TokenModel::Op(InfixOperator::Implication) {
                lemma_parse_implication_model_fuel(
                    toks,
                    p1 + 1,
                    n1,
                    (f1 - 1) as nat,
                    (f2 - 1) as nat,
                );
            }
        },
        Option::None => {},
    }
}

/// One unit of fuel per remaining token, and one to spare: enough for
/// every parser model by [`lemma_parse_implication_model_fuel`].
pub open spec fn parse_fuel(toks: Seq<TokenModel>, pos: int) -> nat {
    (toks.len() - pos + 1) as nat
}

/// Maps an identifier to its dense id: a known name keeps its id, an
/// unseen name is appended and receives the next id.
fn intern(names: &mut Vec<String>, name: &str) -> (id: usize)
    requires
        names_distinct(old(names).deep_view()),
    ensures
        names_distinct(final(names).deep_view()),
        table_extends(final(names).deep_view(), old(names).deep_view()),
        id < final(names).deep_view().len(),
        final(names).deep_view()[id as int] == name@,
        final(names).deep_view().len() == old(names).deep_view().len() || (id == old(
            names,
        ).deep_view().len() && final(names).deep_view() == old(names).deep_view().push(name@)),
        intern_model(old(names).deep_view(), name@) == (final(names).deep_view(), id as int),
{
    let mut k: usize = 0;
    while k < names.len()
        invariant
            k <= names.len(),
            names == old(names),
            names_distinct(names.deep_view()),
            forall|j: int| 0 <= j < k ==> names.deep_view()[j] != name@,
        decreases names.len() - k,
    {
        if str_eq(names[k].as_str(), name) {
            assert(names.deep_view()[k as int] == name@);
            proof {
                let c = choose|j: int|
                    0 <= j < names.deep_view().len() && names.deep_view()[j] == name@;
                assert(c == k);
            }
            return k;
        }
        k = k + 1;
    }
    let id = names.len();
    names.push(name.to_owned());
    proof {
        assert(names.deep_view() =~= old(names).deep_view().push(name@));
    }
    id
}

/// Parses the implication level: `AndOr ( "->" AndOr )*`, folded to the
/// right, so `a -> b -> c` becomes `a -> (b -> c)`.
fn parse_implication(toks: &Vec<Token>, pos: usize, names: &mut Vec<String>) -> (r: Result<
    (ASTNode, usize),
    String,
>)
    requires
        pos <= toks@.len(),
        names_distinct(old(names).deep_view()),
    ensures
        names_distinct(final(names).deep_view()),
        table_extends(final(names).deep_view(), old(names).deep_view()),
        r matches Ok(t) ==> pos < t.1 <= toks@.len(),
        r matches Ok(t) ==> t.0.ids_below(final(names).deep_view().len() as int),
        r matches Ok(t) ==> forall|x: int|
            old(names).deep_view().len() <= x < final(names).deep_view().len() ==> t.0.uses_id(x),
        r matches Ok(t) ==> parse_implication_model(
            toks.deep_view(),
            pos as int,
            old(names).deep_view(),
            parse_fuel(toks.deep_view(), pos as int),
        ) == Option::Some((t.0, t.1 as int, final(names).deep_view())),
        r is Err ==> parse_implication_model(
            toks.deep_view(),
            pos as int,
            old(names).deep_view(),
            parse_fuel(toks.deep_view(), pos as int),
        ) is None,
    decreases toks@.len() - pos, 3int,
{
    let (lhs, p1) = match parse_and_or(toks, pos, names) {
        Ok(t) => t,
        Err(e) => {
            return Err(e);
        },
    };
    if p1 < toks.len() {
        let is_impl = match &toks[p1] {
            Token::Op(InfixOperator::Implication) => true,
            _ => false,
        };
        proof {
            assert(toks.deep_view()[p1 as int] == toks@[p1 as int]@);
        }
        if is_impl {
            let ghost mid = names.deep_view();
            let (rhs, p2) = match parse_implication(toks, p1 + 1, names) {
                Ok(t) => t,
                Err(e) => {
                    proof {
                        lemma_parse_implication_model_fuel(
                            toks.deep_view(),
                            p1 + 1,
                            mid,
                            (parse_fuel(toks.deep_view(), pos as int) - 1) as nat,
                            parse_fuel(toks.deep_view(), p1 + 1),
                        );
                    }
                    return Err(e);
                },
            };
            proof {
                lemma_parse_implication_model_fuel(
                    toks.deep_view(),
                    p1 + 1,
                    mid,
                    (parse_fuel(toks.deep_view(), pos as int) - 1) as nat,
                    parse_fuel(toks.deep_view(), p1 + 1),
                );
                lemma_ids_below_mono(lhs, mid.len() as int, names.deep_view().len() as int);
                let combined = ASTNode::InfixOperation {
                    op: InfixOperator::Implication,
                    lhs: Box::new(lhs),
                    rhs: Box::new(rhs),
                };
                assert forall|x: int|
                    old(names).deep_view().len() <= x
                        < names.deep_view().len() implies combined.uses_id(x) by {
                    if x < mid.len() {
                        assert(lhs.uses_id(x));
                    } else {
                        assert(rhs.uses_id(x));
                    }
                }
            }
            return Ok(
                (
                    ASTNode::InfixOperation {
                        op: InfixOperator::Implication,
                        lhs: Box::new(lhs),
                        rhs: Box::new(rhs),
                    },
                    p2,
                ),
            );
        }
    }
    Ok((lhs, p1))
}

/// Parses the conjunction/disjunction level: `Unary ( ("&"|"|") Unary )*`,
/// folded to the left, so `a & b & c` becomes `(a & b) & c`. The two
/// operators share one precedence level and mix freely.
fn parse_and_or(toks: &Vec<Token>, pos: usize, names: &mut Vec<String>) -> (r: Result<
    (ASTNode, usize),
    String,
>)
    requires
        pos <= toks@.len(),
        names_distinct(old(names).deep_view()),
    ensures
        names_distinct(final(names).deep_view()),
        table_extends(final(names).deep_view(), old(names).deep_view()),
        r matches Ok(t) ==> pos < t.1 <= toks@.len(),
        r matches Ok(t) ==> t.0.ids_below(final(names).deep_view().len() as int),
        r matches Ok(t) ==> forall|x: int|
            old(names).deep_view().len() <= x < final(names).deep_view().len() ==> t.0.uses_id(x),
        r matches Ok(t) ==> parse_and_or_model(
            toks.deep_view(),
            pos as int,
            old(names).deep_view(),
            parse_fuel(toks.deep_view(), pos as int),
        ) == Option::Some((t.0, t.1 as int, final(names).deep_view())),
        r is Err ==> parse_and_or_model(
            toks.deep_view(),
            pos as int,
            old(names).deep_view(),
            parse_fuel(toks.deep_view(), pos as int),
        ) is None,
    decreases toks@.len() - pos, 2int,
{
    let (first, p1) = match parse_unary(toks, pos, names) {
        Ok(t) => t,
        Err(e) => {
            return Err(e);
        },
    };
    let mut node = first;
    let mut p = p1;
    proof {
        lemma_parse_and_or_rest_model_fuel(
            toks.deep_view(),
            p1 as int,
            first,
            names.deep_view(),
            parse_fuel(toks.deep_view(), pos as int),
            parse_fuel(toks.deep_view(), p1 as int),
        );
    }
    loop
        invariant
            pos < p <= toks@.len(),
            names_distinct(names.deep_view()),
            table_extends(names.deep_view(), old(names).deep_view()),
            node.ids_below(names.deep_view().len() as int),
            forall|x: int|
                old(names).deep_view().len() <= x < names.deep_view().len() ==> node.uses_id(x),
            parse_and_or_model(
                toks.deep_view(),
                pos as int,
                old(names).deep_view(),
                parse_fuel(toks.deep_view(), pos as int),
            ) == parse_and_or_rest_model(
                toks.deep_view(),
                p as int,
                node,
                names.deep_view(),
                parse_fuel(toks.deep_view(), p as int),
            ),
        ensures
            pos < p <= toks@.len(),
            names_distinct(names.deep_view()),
            table_extends(names.deep_view(), old(names).deep_view()),
            node.ids_below(names.deep_view().len() as int),
            forall|x: int|
                old(names).deep_view().len() <= x < names.deep_view().len() ==> node.uses_id(x),
            parse_and_or_model(
                toks.deep_view(),
                pos as int,
                old(names).deep_view(),
                parse_fuel(toks.deep_view(), pos as int),
            ) == parse_and_or_rest_model(
                toks.deep_view(),
                p as int,
                node,
                names.deep_view(),
                parse_fuel(toks.deep_view(), p as int),
            ),
            p >= toks@.len() || and_or_token(toks.deep_view()[p as int]) is None,
        decreases toks@.len() - p,
    {
        if p >= toks.len() {
            break;
        }
        proof {
            assert(toks.deep_view()[p as int] == toks@[p as int]@);
        }
        let op_here: Option<InfixOperator> = match &toks[p] {
            Token::Op(InfixOperator::And) => Some(InfixOperator::And),
            Token::Op(InfixOperator::Or) => Some(InfixOperator::Or),
            _ => None,
        };
        let op = match op_here {
            Some(o) => o,
            None => {
                break;
            },
        };
        let ghost mid = names.deep_view();
        let (rhs, p2) = match parse_unary(toks, p + 1, names) {
            Ok(t) => t,
            Err(e) => {
                proof {
                    lemma_parse_unary_model_fuel(
                        toks.deep_view(),
                        p + 1,
                        mid,
                        parse_fuel(toks.deep_view(), p as int),
                        parse_fuel(toks.deep_view(), p + 1),
                    );
                }
                return Err(e);
            },
        };
        proof {
            lemma_parse_unary_model_fuel(
                toks.deep_view(),
                p + 1,
                mid,
                parse_fuel(toks.deep_view(), p as int),
                parse_fuel(toks.deep_view(), p + 1),
            );
            lemma_ids_below_mono(node, mid.len() as int, names.deep_view().len() as int);
        }
        let ghost prev = node;
        node = ASTNode::InfixOperation { op, lhs: Box::new(node), rhs: Box::new(rhs) };
        proof {
            lemma_parse_and_or_rest_model_fuel(
                toks.deep_view(),
                p2 as int,
                node,
                names.deep_view(),
                (parse_fuel(toks.deep_view(), p as int) - 1) as nat,
                parse_fuel(toks.deep_view(), p2 as int),
            );
        }
        p = p2;
        proof {
            assert forall|x: int|
                old(names).deep_view().len() <= x
                    < names.deep_view().len() implies node.uses_id(x) by {
                if x < mid.len() {
                    assert(prev.uses_id(x));
                } else {
                    assert(rhs.uses_id(x));
                }
            }
        }
    }
    Ok((node, p))
}

/// Parses the unary level: any run of leading `!` or `~` tokens applied
/// to a primary expression.
fn parse_unary(toks: &Vec<Token>, pos: usize, names: &mut Vec<String>) -> (r: Result<
    (ASTNode, usize),
    String,
>)
    requires
        pos <= toks@.len(),
        names_distinct(old(names).deep_view()),
    ensures
        names_distinct(final(names).deep_view()),
        table_extends(final(names).deep_view(), old(names).deep_view()),
        r matches Ok(t) ==> pos < t.1 <= toks@.len(),
        r matches Ok(t) ==> t.0.ids_below(final(names).deep_view().len() as int),
        r matches Ok(t) ==> forall|x: int|
            old(names).deep_view().len() <= x < final(names).deep_view().len() ==> t.0.uses_id(x),
        r matches Ok(t) ==> parse_unary_model(
            toks.deep_view(),
            pos as int,
            old(names).deep_view(),
            parse_fuel(toks.deep_view(), pos as int),
        ) == Option::Some((t.0, t.1 as int, final(names).deep_view())),
        r is Err ==> parse_unary_model(
            toks.deep_view(),
            pos as int,
            old(names).deep_view(),
            parse_fuel(toks.deep_view(), pos as int),
        ) is None,
    decreases toks@.len() - pos, 1int,
{
    if pos < toks.len() {
        let is_not = match &toks[pos] {
            Token::NotOp => true,
            _ => false,
        };
        if is_not {
            let (inner, p) = match parse_unary(toks, pos + 1, names) {
                Ok(t) => t,
                Err(e) => {
                    return Err(e);
                },
            };
            proof {
                let wrapped = ASTNode::UnaryOperation {
                    op: UnaryOperator::Not,
                    expr: Box::new(inner),
                };
                assert forall|x: int|
                    old(names).deep_view().len() <= x
                        < names.deep_view().len() implies wrapped.uses_id(x) by {
                    assert(inner.uses_id(x));
                }
            }
            return Ok(
                (
                    ASTNode::UnaryOperation { op: UnaryOperator::Not, expr: Box::new(inner) },
                    p,
                ),
            );
        }
        proof {
            assert(toks.deep_view()[pos as int] == toks@[pos as int]@);
        }
    }
    parse_primary(toks, pos, names)
}

/// Parses a primary expression: a parenthesized expression, a boolean
/// literal, or an identifier.
fn parse_primary(toks: &Vec<Token>, pos: usize, names: &mut Vec<String>) -> (r: Result<
    (ASTNode, usize),
    String,
>)
    requires
        pos <= toks@.len(),
        names_distinct(old(names).deep_view()),
    ensures
        names_distinct(final(names).deep_view()),
        table_extends(final(names).deep_view(), old(names).deep_view()),
        r matches Ok(t) ==> pos < t.1 <= toks@.len(),
        r matches Ok(t) ==> t.0.ids_below(final(names).deep_view().len() as int),
        r matches Ok(t) ==> forall|x: int|
            old(names).deep_view().len() <= x < final(names).deep_view().len() ==> t.0.uses_id(x),
        r matches Ok(t) ==> parse_primary_model(
            toks.deep_view(),
            pos as int,
            old(names).deep_view(),
            parse_fuel(toks.deep_view(), pos as int),
        ) == Option::Some((t.0, t.1 as int, final(names).deep_view())),
        r is Err ==> parse_primary_model(
            toks.deep_view(),
            pos as int,
            old(names).deep_view(),
            parse_fuel(toks.deep_view(), pos as int),
        ) is None,
    decreases toks@.len() - pos, 0int,
{
    if pos >= toks.len() {
        return Err("parse error: unexpected end of expression".to_owned());
    }
    proof {
        assert(toks.deep_view()[pos as int] == toks@[pos as int]@);
        assert(parse_fuel(toks.deep_view(), pos as int) - 1 == parse_fuel(
            toks.deep_view(),
            pos + 1,
        ));
    }
    match &toks[pos] {
        Token::LParen => {
            let (node, p) = match parse_implication(toks, pos + 1, names) {
                Ok(t) => t,
                Err(e) => {
                    return Err(e);
                },
            };
            if p < toks.len() {
                let is_close = match &toks[p] {
                    Token::RParen => true,
                    _ => false,
                };
                proof {
                    assert(toks.deep_view()[p as int] == toks@[p as int]@);
                }
                if is_close {
                    return Ok((node, p + 1));
                }
            }
            Err("parse error: expected ')'".to_owned())
        },
        Token::Lit(b) => Ok((ASTNode::Literal(*b), pos + 1)),
        Token::Ident(name) => {
            let id = intern(names, name.as_str());
            Ok((ASTNode::Identifier(id), pos + 1))
        },
        _ => Err("parse error: expected '(', a literal or an identifier".to_owned()),
    }
}

/// A parsed expression: the tree and its variable name table. Identifier
/// ids are dense indices into `var_bindings`, assigned in order of first
/// occurrence in the expression text.
#[derive(Debug)]
pub struct Parsed {
    pub expression: ASTNode,
    pub var_bindings: Vec<String>,
}

impl Parsed {
    /// Well-formedness of a freshly parsed expression: every identifier id
    /// indexes the name table, every table entry is used by some
    /// identifier (the ids are dense), and no name is declared twice.
    pub open spec fn wf(self) -> bool {
        &&& self.expression.ids_below(self.var_bindings.deep_view().len() as int)
        &&& forall|x: int|
            0 <= x < self.var_bindings.deep_view().len() ==> self.expression.uses_id(x)
        &&& names_distinct(self.var_bindings.deep_view())
    }

    /// Parses expression text into a tree plus its name table, or reports
    /// a descriptive parse error — the only recoverable error in the
    /// system. Parsing succeeds exactly when [`parse_model`] does, and
    /// returns the tree and name table that it describes.
    pub fn new(s: &str) -> (r: Result<Self, String>)
        ensures
            r matches Ok(p) ==> p.wf(),
            r matches Ok(p) ==> parse_model(s@) == Option::Some(
                (p.expression, p.var_bindings.deep_view()),
            ),
            r is Err ==> parse_model(s@) is None,
    {
        let toks = match tokenize(s) {
            Ok(t) => t,
            Err(e) => {
                return Err(e);
            },
        };
        let mut names: Vec<String> = Vec::new();
        proof {
            assert(names.deep_view() =~= Seq::<Seq<char>>::empty());
            assert(toks.deep_view().len() == toks@.len());
        }
        match parse_implication(&toks, 0, &mut names) {
            Err(e) => Err(e),
            Ok((node, p)) => {
                if p == toks.len() {
                    Ok(Parsed { expression: node, var_bindings: names })
                } else {
                    Err("parse error: unexpected trailing input".to_owned())
                }
            },
        }
    }

    /// The number of distinct variables the expression declares.
    pub fn num_variables(&self) -> (r: usize)
        ensures
            r == self.var_bindings@.len(),
    {
        self.var_bindings.len()
    }

    /// Evaluates the expression against a binding sorted by identifier id
    /// that covers every identifier occurring in the expression.
    pub fn evaluate(&self, binding: &Vec<(usize, bool)>) -> (r: bool)
        requires
            binding_sorted(binding@),
            self.expression.covered_by(binding@),
        ensures
            r == self.expression.eval(binding@),
    {
        self.expression.evaluate(binding)
    }

    /// Simplifies the expression tree; the name table is kept unchanged.
    /// Simplification can only drop identifiers, so the result still
    /// indexes the table (though its ids need no longer be dense).
    pub fn try_simplify(self) -> (r: Self)
        ensures
            r.expression == self.expression.simplify_spec(),
            r.var_bindings == self.var_bindings,
            self.wf() ==> r.expression.ids_below(r.var_bindings.deep_view().len() as int),
    {
        proof {
            if self.wf() {
                lemma_simplify_ids_below(
                    self.expression,
                    self.var_bindings.deep_view().len() as int,
                );
            }
        }
        let Parsed { expression, var_bindings } = self;
        Parsed { expression: expression.try_simplify(), var_bindings }
    }
}

} // verus!
