//! The parser: tokens to statements, and the parsed form of a program
//! with its mathematical model.

use crate::lexer::{Token, TokenView, token_views};
use crate::text::{to_upper, uppercase_of};
use vstd::prelude::*;
use vstd::string::*;

verus! {

/// One operand of an instruction.
#[derive(Debug, Clone)]
pub enum Operand {
    Register(u8),
    Immediate(i32),
    Label(String),
    /// A register plus a byte displacement: `(Rs + imm)` or `imm(Rs)`.
    Indirect(u8, i32),
}

/// One argument of a directive.
#[derive(Debug, Clone)]
pub enum DirectiveArg {
    Number(i32),
    String(String),
    Ident(String),
}

/// One statement of a program.
#[derive(Debug, Clone)]
pub enum Statement {
    Label(String),
    Instruction { mnemonic: String, operands: Vec<Operand> },
    Directive { name: String, args: Vec<DirectiveArg> },
}

/// A parsed program: its statements in source order.
pub struct Program {
    pub statements: Vec<Statement>,
}

/// Model of an [`Operand`].
pub enum OperandView {
    Register(u8),
    Immediate(i32),
    Label(Seq<char>),
    Indirect(u8, i32),
}

/// Model of a [`DirectiveArg`].
pub enum DirectiveArgView {
    Number(i32),
    Text(Seq<char>),
    Ident(Seq<char>),
}

/// Model of a [`Statement`].
pub enum StatementView {
    Label(Seq<char>),
    Instruction { mnemonic: Seq<char>, operands: Seq<OperandView> },
    Directive { name: Seq<char>, args: Seq<DirectiveArgView> },
}

impl View for Operand {
    type V = OperandView;

    open spec fn view(&self) -> OperandView {
        match *self {
            Operand::Register(r) => OperandView::Register(r),
            Operand::Immediate(i) => OperandView::Immediate(i),
            Operand::Label(s) => OperandView::Label(s@),
            Operand::Indirect(r, off) => OperandView::Indirect(r, off),
        }
    }
}

impl View for DirectiveArg {
    type V = DirectiveArgView;

    open spec fn view(&self) -> DirectiveArgView {
        match *self {
            DirectiveArg::Number(n) => DirectiveArgView::Number(n),
            DirectiveArg::String(s) => DirectiveArgView::Text(s@),
            DirectiveArg::Ident(s) => DirectiveArgView::Ident(s@),
        }
    }
}

/// The models of a sequence of operands.
pub open spec fn operand_views(v: Seq<Operand>) -> Seq<OperandView> {
    v.map_values(|o: Operand| o@)
}

/// The models of a sequence of directive arguments.
pub open spec fn arg_views(v: Seq<DirectiveArg>) -> Seq<DirectiveArgView> {
    v.map_values(|a: DirectiveArg| a@)
}

impl View for Statement {
    type V = StatementView;

    open spec fn view(&self) -> StatementView {
        match *self {
            Statement::Label(s) => StatementView::Label(s@),
            Statement::Instruction { mnemonic, operands } => StatementView::Instruction {
                mnemonic: mnemonic@,
                operands: operand_views(operands@),
            },
            Statement::Directive { name, args } => StatementView::Directive {
                name: name@,
                args: arg_views(args@),
            },
        }
    }
}

/// The models of a sequence of statements.
pub open spec fn statement_views(v: Seq<Statement>) -> Seq<StatementView> {
    v.map_values(|s: Statement| s@)
}

impl View for Program {
    type V = Seq<StatementView>;

    open spec fn view(&self) -> Seq<StatementView> {
        statement_views(self.statements@)
    }
}

/// The text that the derived `Debug` formatting gives a token.
pub uninterp spec fn token_debug(t: TokenView) -> Seq<char>;

/// Formats a token with its derived `Debug` impl through `format!`. The
/// text is not modelled: the contract only names it, a function of the
/// token alone.
#[verifier::external_body]
fn debug_token(t: &Token) -> (s: String)
    ensures
        s@ == token_debug(t@),
{
    format!("{:?}", t)
}

/// The token at `pos`; beyond the end every token is `Eof`.
pub open spec fn token_or_eof(toks: Seq<TokenView>, pos: int) -> TokenView {
    if 0 <= pos < toks.len() {
        toks[pos]
    } else {
        TokenView::Eof
    }
}

/// The position after the token at `pos`: nothing lies after `Eof`.
pub open spec fn after(toks: Seq<TokenView>, pos: int) -> int {
    if token_or_eof(toks, pos) is Eof {
        pos
    } else {
        pos + 1
    }
}

/// A number negated, modulo 2^32.
pub open spec fn negated(n: i32) -> i32 {
    if n == i32::MIN {
        n
    } else {
        (-n) as i32
    }
}

/// The message for a token that starts no statement.
pub open spec fn unexpected_token(t: TokenView) -> Seq<char> {
    "Unexpected token: "@ + token_debug(t)
}

/// The message for a missing closing parenthesis.
pub open spec fn expected_rparen(t: TokenView) -> Seq<char> {
    "Expected "@ + token_debug(TokenView::RParen) + ", got "@ + token_debug(t)
}

/// The arguments of a directive from `pos` on, appended to `acc`, and
/// where they end. Numbers, strings and names are arguments, commas are
/// passed over, and any other token ends the list.
pub open spec fn args_from(toks: Seq<TokenView>, pos: int, acc: Seq<DirectiveArgView>) -> (
    Seq<DirectiveArgView>,
    int,
)
    decreases toks.len() - pos,
{
    match token_or_eof(toks, pos) {
        TokenView::Number(n) => args_from(toks, pos + 1, acc.push(DirectiveArgView::Number(n))),
        TokenView::StringLit(s) => args_from(toks, pos + 1, acc.push(DirectiveArgView::Text(s))),
        TokenView::Ident(s) => args_from(toks, pos + 1, acc.push(DirectiveArgView::Ident(s))),
        TokenView::Comma => args_from(toks, pos + 1, acc),
        _ => (acc, pos),
    }
}

/// An operand read from the tokens, and where the reading stopped.
pub enum OperandStep {
    /// An operand was read.
    Read(OperandView, int),
    /// A comma was passed over.
    Skipped(int),
    /// The token at this position ends the list.
    Done,
    /// The tokens are no operand.
    Failed(Seq<char>),
}

/// The operand in parentheses whose register is expected at `pos`:
/// `(Rs)`, `(Rs + imm)` or `(Rs - imm)`. A sign that no number follows
/// counts as no displacement.
pub open spec fn parenthesized(toks: Seq<TokenView>, pos: int) -> OperandStep {
    match token_or_eof(toks, pos) {
        TokenView::Register(r) => {
            let (offset, close) = match token_or_eof(toks, pos + 1) {
                TokenView::Plus => match token_or_eof(toks, pos + 2) {
                    TokenView::Number(n) => (n, pos + 3),
                    _ => (0i32, pos + 2),
                },
                TokenView::Minus => match token_or_eof(toks, pos + 2) {
                    TokenView::Number(n) => (negated(n), pos + 3),
                    _ => (0i32, pos + 2),
                },
                _ => (0i32, pos + 1),
            };
            if token_or_eof(toks, close) is RParen {
                OperandStep::Read(OperandView::Indirect(r, offset), close + 1)
            } else {
                OperandStep::Failed(expected_rparen(token_or_eof(toks, close)))
            }
        },
        _ => OperandStep::Failed("Expected register in indirect addressing"@),
    }
}

/// One step of reading operands at `pos`.
pub open spec fn operand_at(toks: Seq<TokenView>, pos: int) -> OperandStep {
    match token_or_eof(toks, pos) {
        TokenView::Comma => OperandStep::Skipped(pos + 1),
        TokenView::Register(r) => OperandStep::Read(OperandView::Register(r), pos + 1),
        TokenView::Number(n) => {
            if token_or_eof(toks, pos + 1) is LParen {
                match token_or_eof(toks, pos + 2) {
                    TokenView::Register(r) => {
                        if token_or_eof(toks, pos + 3) is RParen {
                            OperandStep::Read(OperandView::Indirect(r, n), pos + 4)
                        } else {
                            OperandStep::Failed(expected_rparen(token_or_eof(toks, pos + 3)))
                        }
                    },
                    _ => OperandStep::Failed("Expected register in indirect addressing"@),
                }
            } else {
                OperandStep::Read(OperandView::Immediate(n), pos + 1)
            }
        },
        TokenView::Ident(name) => OperandStep::Read(OperandView::Label(name), pos + 1),
        TokenView::LParen => parenthesized(toks, pos + 1),
        TokenView::Minus => match token_or_eof(toks, pos + 1) {
            TokenView::Number(n) => OperandStep::Read(OperandView::Immediate(negated(n)), pos + 2),
            _ => OperandStep::Failed("Expected number after minus"@),
        },
        _ => OperandStep::Done,
    }
}

/// The operands of an instruction from `pos` on, appended to `acc`, and
/// where they end; or the message of the first error.
pub open spec fn operands_from(toks: Seq<TokenView>, pos: int, acc: Seq<OperandView>) -> Result<
    (Seq<OperandView>, int),
    Seq<char>,
>
    decreases toks.len() - pos,
{
    match operand_at(toks, pos) {
        OperandStep::Read(op, next) => if pos < next <= toks.len() {
            operands_from(toks, next, acc.push(op))
        } else {
            Ok((acc.push(op), next))
        },
        OperandStep::Skipped(next) => if pos < next <= toks.len() {
            operands_from(toks, next, acc)
        } else {
            Ok((acc, next))
        },
        OperandStep::Done => Ok((acc, pos)),
        OperandStep::Failed(msg) => Err(msg),
    }
}

/// The statement that starts at `pos`, if one does, and where it ends; or
/// the message of the error. A line break is passed over and gives no
/// statement, and neither does the end of the tokens.
pub open spec fn statement_at(toks: Seq<TokenView>, pos: int) -> Result<
    (Option<StatementView>, int),
    Seq<char>,
> {
    match token_or_eof(toks, pos) {
        TokenView::Eof => Ok((None, pos)),
        TokenView::Newline => Ok((None, pos + 1)),
        TokenView::Directive(name) => {
            let (args, end) = args_from(toks, pos + 1, Seq::empty());
            Ok((Some(StatementView::Directive { name, args }), end))
        },
        TokenView::Ident(name) => {
            if token_or_eof(toks, pos + 1) is Colon {
                Ok((Some(StatementView::Label(name)), pos + 2))
            } else {
                match operands_from(toks, pos + 1, Seq::empty()) {
                    Ok((operands, end)) => Ok(
                        (
                            Some(
                                StatementView::Instruction {
                                    mnemonic: uppercase_of(name),
                                    operands,
                                },
                            ),
                            end,
                        ),
                    ),
                    Err(msg) => Err(msg),
                }
            }
        },
        t => Err(unexpected_token(t)),
    }
}

/// Where the line breaks from `pos` on end.
pub open spec fn newlines_end(toks: Seq<TokenView>, pos: int) -> int
    decreases toks.len() - pos,
{
    if token_or_eof(toks, pos) is Newline {
        newlines_end(toks, pos + 1)
    } else {
        pos
    }
}

/// The statements from `pos` on, appended to `acc`, up to the first `Eof`
/// or the end of the tokens; or the message of the first error.
pub open spec fn statements_from(toks: Seq<TokenView>, pos: int, acc: Seq<StatementView>) -> Result<
    Seq<StatementView>,
    Seq<char>,
>
    decreases toks.len() - pos,
{
    let start = newlines_end(toks, pos);
    if token_or_eof(toks, start) is Eof {
        Ok(acc)
    } else {
        match statement_at(toks, start) {
            Err(msg) => Err(msg),
            Ok((found, end)) => {
                let grown = match found {
                    Some(st) => acc.push(st),
                    None => acc,
                };
                if pos < end <= toks.len() {
                    statements_from(toks, end, grown)
                } else {
                    Ok(grown)
                }
            },
        }
    }
}

/// The program that a token stream spells.
pub open spec fn program_of(toks: Seq<TokenView>) -> Result<Seq<StatementView>, Seq<char>> {
    statements_from(toks, 0, Seq::empty())
}

/// Where a parser stands in its tokens.
pub struct ParserState {
    pub tokens: Seq<TokenView>,
    pub pos: int,
}

/// A parser over one token stream.
pub struct Parser {
    tokens: Vec<Token>,
    pos: usize,
}

impl View for Parser {
    type V = ParserState;

    closed spec fn view(&self) -> ParserState {
        ParserState { tokens: token_views(self.tokens@), pos: self.pos as int }
    }
}

/// What one step of reading operands gave.
enum Step {
    Read(Operand),
    Skipped,
    Done,
    Failed(String),
}

/// Line breaks end inside the tokens, not before `pos`.
proof fn lemma_newlines_end(toks: Seq<TokenView>, pos: int)
    requires
        0 <= pos <= toks.len(),
    ensures
        pos <= newlines_end(toks, pos) <= toks.len(),
    decreases toks.len() - pos,
{
    if token_or_eof(toks, pos) is Newline {
        lemma_newlines_end(toks, pos + 1);
    }
}

/// The arguments of a directive end inside the tokens, not before `pos`.
proof fn lemma_args_from(toks: Seq<TokenView>, pos: int, acc: Seq<DirectiveArgView>)
    requires
        0 <= pos <= toks.len(),
    ensures
        pos <= args_from(toks, pos, acc).1 <= toks.len(),
    decreases toks.len() - pos,
{
    match token_or_eof(toks, pos) {
        TokenView::Number(n) => lemma_args_from(
            toks,
            pos + 1,
            acc.push(DirectiveArgView::Number(n)),
        ),
        TokenView::StringLit(s) => lemma_args_from(
            toks,
            pos + 1,
            acc.push(DirectiveArgView::Text(s)),
        ),
        TokenView::Ident(s) => lemma_args_from(toks, pos + 1, acc.push(DirectiveArgView::Ident(s))),
        TokenView::Comma => lemma_args_from(toks, pos + 1, acc),
        _ => {},
    }
}

/// The operands of an instruction end inside the tokens, not before
/// `pos`.
proof fn lemma_operands_from(toks: Seq<TokenView>, pos: int, acc: Seq<OperandView>)
    requires
        0 <= pos <= toks.len(),
    ensures
        operands_from(toks, pos, acc) matches Ok((_, end)) ==> pos <= end <= toks.len(),
    decreases toks.len() - pos,
{
    match operand_at(toks, pos) {
        OperandStep::Read(op, next) => {
            if pos < next <= toks.len() {
                lemma_operands_from(toks, next, acc.push(op));
            }
        },
        OperandStep::Skipped(next) => {
            if pos < next <= toks.len() {
                lemma_operands_from(toks, next, acc);
            }
        },
        _ => {},
    }
}

impl Parser {
    #[verifier::type_invariant]
    spec fn in_bounds(self) -> bool {
        self.pos <= self.tokens.len()
    }

    /// A parser at the start of `tokens`.
    pub fn new(tokens: Vec<Token>) -> (parser: Parser)
        ensures
            parser@ == (ParserState { tokens: token_views(tokens@), pos: 0 }),
    {
        Parser { tokens, pos: 0 }
    }

    /// Parses the statements up to the first `Eof` or the end of the
    /// tokens: the result is what [`statements_from`] gives from where the
    /// parser stands.
    pub fn parse(&mut self) -> (r: Result<Program, String>)
        ensures
            final(self)@.tokens == old(self)@.tokens,
            match statements_from(old(self)@.tokens, old(self)@.pos, Seq::empty()) {
                Ok(stmts) => r matches Ok(program) && program@ == stmts,
                Err(msg) => r matches Err(e) && e@ == msg,
            },
    {
        let mut statements: Vec<Statement> = Vec::new();
        assert(statement_views(statements@) =~= Seq::empty());
        proof {
            use_type_invariant(&*self);
        }
        loop
            invariant
                self.pos <= self.tokens.len(),
                self@.tokens == old(self)@.tokens,
                statements_from(old(self)@.tokens, old(self)@.pos, Seq::empty())
                    == statements_from(self@.tokens, self@.pos, statement_views(statements@)),
            decreases self.tokens.len() - self.pos,
        {
            let ghost before = self@.pos;
            let ghost seen = statement_views(statements@);
            proof {
                lemma_newlines_end(self@.tokens, before);
            }
            self.skip_newlines();
            if self.is_at_end() {
                return Ok(Program { statements });
            }
            proof {
                let start = self@.pos;
                lemma_args_from(self@.tokens, start + 1, Seq::empty());
                lemma_operands_from(self@.tokens, start + 1, Seq::empty());
            }
            match self.parse_statement() {
                Err(e) => {
                    return Err(e);
                },
                Ok(found) => {
                    match found {
                        Some(stmt) => {
                            statements.push(stmt);
                            assert(statement_views(statements@) =~= seen.push(stmt@));
                        },
                        None => {},
                    }
                    proof {
                        use_type_invariant(&*self);
                    }
                },
            }
        }
    }

    /// Parses the statement that starts here, if one does.
    fn parse_statement(&mut self) -> (r: Result<Option<Statement>, String>)
        ensures
            final(self)@.tokens == old(self)@.tokens,
            match statement_at(old(self)@.tokens, old(self)@.pos) {
                Ok((found, end)) => r matches Ok(st) && final(self)@.pos == end && match found {
                    Some(v) => st matches Some(x) && x@ == v,
                    None => st is None,
                },
                Err(msg) => r matches Err(e) && e@ == msg,
            },
    {
        match self.peek() {
            Token::Eof => Ok(None),
            Token::Newline => {
                self.advance();
                Ok(None)
            },
            Token::Directive(name) => {
                let name = name.clone();
                self.advance();
                let args = self.parse_directive_args();
                Ok(Some(Statement::Directive { name, args }))
            },
            Token::Ident(name) => {
                let name = name.clone();
                self.advance();
                if matches!(self.peek(), Token::Colon) {
                    self.advance();
                    Ok(Some(Statement::Label(name)))
                } else {
                    match self.parse_operands() {
                        Ok(operands) => Ok(
                            Some(
                                Statement::Instruction {
                                    mnemonic: to_upper(name.as_str()),
                                    operands,
                                },
                            ),
                        ),
                        Err(e) => Err(e),
                    }
                }
            },
            other => {
                let mut s = String::from_str("Unexpected token: ");
                s.append(debug_token(other).as_str());
                Err(s)
            },
        }
    }

    /// Parses the arguments of a directive.
    fn parse_directive_args(&mut self) -> (args: Vec<DirectiveArg>)
        ensures
            final(self)@.tokens == old(self)@.tokens,
            arg_views(args@) == args_from(old(self)@.tokens, old(self)@.pos, Seq::empty()).0,
            final(self)@.pos == args_from(old(self)@.tokens, old(self)@.pos, Seq::empty()).1,
    {
        let mut args: Vec<DirectiveArg> = Vec::new();
        assert(arg_views(args@) =~= Seq::empty());
        proof {
            use_type_invariant(&*self);
        }
        loop
            invariant
                self.pos <= self.tokens.len(),
                self@.tokens == old(self)@.tokens,
                args_from(old(self)@.tokens, old(self)@.pos, Seq::empty()) == args_from(
                    self@.tokens,
                    self@.pos,
                    arg_views(args@),
                ),
            decreases self.tokens.len() - self.pos,
        {
            let ghost seen = arg_views(args@);
            let arg = match self.peek() {
                Token::Number(n) => Some(DirectiveArg::Number(*n)),
                Token::StringLit(s) => Some(DirectiveArg::String(s.clone())),
                Token::Ident(s) => Some(DirectiveArg::Ident(s.clone())),
                Token::Comma => None,
                _ => {
                    return args;
                },
            };
            self.advance();
            match arg {
                Some(a) => {
                    args.push(a);
                    assert(arg_views(args@) =~= seen.push(a@));
                },
                None => {},
            }
            proof {
                use_type_invariant(&*self);
            }
        }
    }

    /// Parses the operands of an instruction.
    fn parse_operands(&mut self) -> (r: Result<Vec<Operand>, String>)
        ensures
            final(self)@.tokens == old(self)@.tokens,
            match operands_from(old(self)@.tokens, old(self)@.pos, Seq::empty()) {
                Ok((ops, end)) => r matches Ok(v) && operand_views(v@) == ops && final(self)@.pos
                    == end,
                Err(msg) => r matches Err(e) && e@ == msg,
            },
    {
        let mut operands: Vec<Operand> = Vec::new();
        assert(operand_views(operands@) =~= Seq::empty());
        proof {
            use_type_invariant(&*self);
        }
        loop
            invariant
                self.pos <= self.tokens.len(),
                self@.tokens == old(self)@.tokens,
                operands_from(old(self)@.tokens, old(self)@.pos, Seq::empty()) == operands_from(
                    self@.tokens,
                    self@.pos,
                    operand_views(operands@),
                ),
            decreases self.tokens.len() - self.pos,
        {
            let ghost seen = operand_views(operands@);
            match self.read_operand() {
                Step::Read(op) => {
                    operands.push(op);
                    assert(operand_views(operands@) =~= seen.push(op@));
                },
                Step::Skipped => {},
                Step::Done => {
                    return Ok(operands);
                },
                Step::Failed(e) => {
                    return Err(e);
                },
            }
            proof {
                use_type_invariant(&*self);
            }
        }
    }

    /// One step of reading operands.
    fn read_operand(&mut self) -> (r: Step)
        ensures
            final(self)@.tokens == old(self)@.tokens,
            match operand_at(old(self)@.tokens, old(self)@.pos) {
                OperandStep::Read(op, next) => r matches Step::Read(x) && x@ == op && final(self)@.pos == next && old(self)@.pos < next,
                OperandStep::Skipped(next) => r is Skipped && final(self)@.pos == next && old(self)@.pos < next,
                OperandStep::Done => r is Done && final(self)@.pos == old(self)@.pos,
                OperandStep::Failed(msg) => r matches Step::Failed(e) && e@ == msg,
            },
    {
        match self.peek() {
            Token::Comma => {
                self.advance();
                Step::Skipped
            },
            Token::Register(r) => {
                let r = *r;
                self.advance();
                Step::Read(Operand::Register(r))
            },
            Token::Number(n) => {
                let n = *n;
                self.advance();
                if matches!(self.peek(), Token::LParen) {
                    self.advance();
                    let reg = match self.peek() {
                        Token::Register(r) => Some(*r),
                        _ => None,
                    };
                    match reg {
                        Some(r) => {
                            self.advance();
                            match self.expect_rparen() {
                                Ok(()) => Step::Read(Operand::Indirect(r, n)),
                                Err(e) => Step::Failed(e),
                            }
                        },
                        None => Step::Failed(
                            String::from_str("Expected register in indirect addressing"),
                        ),
                    }
                } else {
                    Step::Read(Operand::Immediate(n))
                }
            },
            Token::Ident(name) => {
                let name = name.clone();
                self.advance();
                Step::Read(Operand::Label(name))
            },
            Token::LParen => {
                self.advance();
                let reg = match self.peek() {
                    Token::Register(r) => Some(*r),
                    _ => None,
                };
                match reg {
                    Some(r) => {
                        self.advance();
                        let offset = if matches!(self.peek(), Token::Plus) {
                            self.advance();
                            match self.number_here() {
                                Some(n) => n,
                                None => 0,
                            }
                        } else if matches!(self.peek(), Token::Minus) {
                            self.advance();
                            match self.number_here() {
                                Some(n) => negate(n),
                                None => 0,
                            }
                        } else {
                            0
                        };
                        match self.expect_rparen() {
                            Ok(()) => Step::Read(Operand::Indirect(r, offset)),
                            Err(e) => Step::Failed(e),
                        }
                    },
                    None => Step::Failed(
                        String::from_str("Expected register in indirect addressing"),
                    ),
                }
            },
            Token::Minus => {
                self.advance();
                match self.number_here() {
                    Some(n) => Step::Read(Operand::Immediate(negate(n))),
                    None => Step::Failed(String::from_str("Expected number after minus")),
                }
            },
            _ => Step::Done,
        }
    }

    /// Steps over a number, if the parser stands at one, and returns it.
    fn number_here(&mut self) -> (r: Option<i32>)
        ensures
            final(self)@.tokens == old(self)@.tokens,
            match token_or_eof(old(self)@.tokens, old(self)@.pos) {
                TokenView::Number(n) => r == Some(n) && final(self)@.pos == old(self)@.pos + 1,
                _ => r is None && final(self)@.pos == old(self)@.pos,
            },
            0 <= final(self)@.pos <= final(self)@.tokens.len(),
    {
        let found = match self.peek() {
            Token::Number(n) => Some(*n),
            _ => None,
        };
        if found.is_some() {
            self.advance();
        }
        found
    }

    /// The token the parser stands at; beyond the end, `Eof`.
    fn peek(&self) -> (t: &Token)
        ensures
            t@ == token_or_eof(self@.tokens, self@.pos),
            0 <= self@.pos <= self@.tokens.len(),
    {
        proof {
            use_type_invariant(self);
        }
        if self.pos < self.tokens.len() {
            &self.tokens[self.pos]
        } else {
            &Token::Eof
        }
    }

    /// Steps over the token the parser stands at, unless it is `Eof`.
    fn advance(&mut self)
        ensures
            final(self)@ == (ParserState {
                pos: after(old(self)@.tokens, old(self)@.pos),
                ..old(self)@
            }),
            0 <= final(self)@.pos <= final(self)@.tokens.len(),
    {
        if !self.is_at_end() {
            assert(self@.tokens.len() == self.tokens.len());
            self.pos = self.pos + 1;
        }
    }

    /// Whether the parser stands at `Eof` or beyond the end.
    fn is_at_end(&self) -> (r: bool)
        ensures
            r == (token_or_eof(self@.tokens, self@.pos) is Eof),
            0 <= self@.pos <= self@.tokens.len(),
    {
        matches!(self.peek(), Token::Eof)
    }

    /// Steps over a closing parenthesis, which must be here.
    fn expect_rparen(&mut self) -> (r: Result<(), String>)
        ensures
            final(self)@.tokens == old(self)@.tokens,
            match token_or_eof(old(self)@.tokens, old(self)@.pos) {
                TokenView::RParen => r is Ok && final(self)@.pos == old(self)@.pos + 1,
                t => r matches Err(e) && e@ == expected_rparen(t),
            },
            0 <= final(self)@.pos <= final(self)@.tokens.len(),
    {
        if matches!(self.peek(), Token::RParen) {
            self.advance();
            Ok(())
        } else {
            let mut s = String::from_str("Expected ");
            s.append(debug_token(&Token::RParen).as_str());
            s.append(", got ");
            s.append(debug_token(self.peek()).as_str());
            Err(s)
        }
    }

    /// Steps over line breaks.
    fn skip_newlines(&mut self)
        ensures
            final(self)@ == (ParserState {
                pos: newlines_end(old(self)@.tokens, old(self)@.pos),
                ..old(self)@
            }),
    {
        proof {
            use_type_invariant(&*self);
        }
        while matches!(self.peek(), Token::Newline)
            invariant
                self.pos <= self.tokens.len(),
                self@.tokens == old(self)@.tokens,
                newlines_end(self@.tokens, self@.pos) == newlines_end(
                    old(self)@.tokens,
                    old(self)@.pos,
                ),
            decreases self.tokens.len() - self.pos,
        {
            self.advance();
        }
    }
}

/// Computes [`negated`].
fn negate(n: i32) -> (r: i32)
    ensures
        r == negated(n),
{
    if n == i32::MIN {
        n
    } else {
        -n
    }
}

} // verus!
