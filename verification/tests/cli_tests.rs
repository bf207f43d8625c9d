//! Checking and evaluating, from source text to printed term and type,
//! with a small parser for the surface syntax around the library.

use bumpalo::Bump;
use pion::diagnostic::Diagnostic;
use pion::elab::Elaborator;
use pion::env::{EnvLen, UniqueEnv};
use pion::plicity::Plicity;
use pion::printer::Printer;
use pion::source::{Located, TextRange};
use pion::surface::{
    Const, Expr, ExprField, FunArg, FunParam, MatchArm, Pat, PatField, TypeField,
};
use pion::symbol::Symbol;
use pion::unelab::{Config, Unelaborator};

#[derive(Clone, Copy, PartialEq, Debug)]
enum Tok {
    Ident,
    DecInt,
    BinInt,
    HexInt,
    LParen,
    RParen,
    LBrace,
    RBrace,
    LBracket,
    RBracket,
    Comma,
    Colon,
    Semi,
    Equals,
    FatArrow,
    Arrow,
    At,
    Dot,
    Underscore,
    Fun,
    Forall,
    Let,
    Rec,
    If,
    Then,
    Else,
    Match,
    True,
    False,
    Eof,
}

fn is_ident_start(c: u8) -> bool {
    c.is_ascii_alphabetic() || c == b'_'
}

fn is_ident_rest(c: u8) -> bool {
    c.is_ascii_alphanumeric() || c == b'_' || c == b'-'
}

fn lex(text: &str) -> Vec<(Tok, u32, u32)> {
    let bytes = text.as_bytes();
    let mut toks = Vec::new();
    let mut i = 0;
    while i < bytes.len() {
        let c = bytes[i];
        if c.is_ascii_whitespace() {
            i += 1;
            continue;
        }
        let start = i;
        let tok = if is_ident_start(c) {
            i += 1;
            while i < bytes.len() && is_ident_rest(bytes[i]) {
                if bytes[i] == b'-' && i + 1 < bytes.len() && bytes[i + 1] == b'>' {
                    break;
                }
                i += 1;
            }
            match &text[start..i] {
                "_" => Tok::Underscore,
                "fun" => Tok::Fun,
                "forall" => Tok::Forall,
                "let" => Tok::Let,
                "rec" => Tok::Rec,
                "if" => Tok::If,
                "then" => Tok::Then,
                "else" => Tok::Else,
                "match" => Tok::Match,
                "true" => Tok::True,
                "false" => Tok::False,
                _ => Tok::Ident,
            }
        } else if c.is_ascii_digit() {
            i += 1;
            let tok = if c == b'0' && i < bytes.len() && (bytes[i] == b'x' || bytes[i] == b'X') {
                i += 1;
                Tok::HexInt
            } else if c == b'0' && i < bytes.len() && (bytes[i] == b'b' || bytes[i] == b'B') {
                i += 1;
                Tok::BinInt
            } else {
                Tok::DecInt
            };
            while i < bytes.len() && bytes[i].is_ascii_alphanumeric() {
                i += 1;
            }
            tok
        } else {
            i += 1;
            match c {
                b'(' => Tok::LParen,
                b')' => Tok::RParen,
                b'{' => Tok::LBrace,
                b'}' => Tok::RBrace,
                b'[' => Tok::LBracket,
                b']' => Tok::RBracket,
                b',' => Tok::Comma,
                b':' => Tok::Colon,
                b';' => Tok::Semi,
                b'@' => Tok::At,
                b'.' => Tok::Dot,
                b'=' => {
                    if i < bytes.len() && bytes[i] == b'>' {
                        i += 1;
                        Tok::FatArrow
                    } else {
                        Tok::Equals
                    }
                }
                b'-' => {
                    assert!(i < bytes.len() && bytes[i] == b'>', "stray `-`");
                    i += 1;
                    Tok::Arrow
                }
                other => panic!("unexpected character {:?}", other as char),
            }
        };
        toks.push((tok, start as u32, i as u32));
    }
    toks.push((Tok::Eof, bytes.len() as u32, bytes.len() as u32));
    toks
}

struct Parser<'a> {
    bump: &'a Bump,
    text: &'a str,
    toks: Vec<(Tok, u32, u32)>,
    pos: usize,
}

type LExpr<'a> = Located<Expr<'a>>;
type LPat<'a> = Located<Pat<'a>>;

impl<'a> Parser<'a> {
    fn peek(&self) -> Tok {
        self.toks[self.pos].0
    }

    fn start(&self) -> u32 {
        self.toks[self.pos].1
    }

    fn last_end(&self) -> u32 {
        self.toks[self.pos - 1].2
    }

    fn bump_tok(&mut self) -> (Tok, u32, u32) {
        let tok = self.toks[self.pos];
        self.pos += 1;
        tok
    }

    fn eat(&mut self, tok: Tok) -> bool {
        if self.peek() == tok {
            self.pos += 1;
            true
        } else {
            false
        }
    }

    fn expect(&mut self, tok: Tok) {
        assert!(self.eat(tok), "expected {:?}, found {:?}", tok, self.peek());
    }

    fn symbol(&mut self) -> Located<Symbol<'a>> {
        let (tok, start, end) = self.bump_tok();
        assert!(tok == Tok::Ident, "expected a name, found {:?}", tok);
        let text: &'a str = &self.text[start as usize..end as usize];
        Located::new(TextRange::new(start, end), Symbol::new(text))
    }

    fn share(&self, expr: LExpr<'a>) -> &'a LExpr<'a> {
        self.bump.alloc(expr)
    }

    fn located(&self, start: u32, data: Expr<'a>) -> LExpr<'a> {
        Located::new(TextRange::new(start, self.last_end()), data)
    }

    fn expr(&mut self) -> LExpr<'a> {
        let start = self.start();
        match self.peek() {
            Tok::Let => {
                self.pos += 1;
                let rec = self.eat(Tok::Rec);
                let pat = self.pat();
                let ty = if self.eat(Tok::Colon) { Some(self.expr()) } else { None };
                self.expect(Tok::Equals);
                let init = self.expr();
                self.expect(Tok::Semi);
                let body = self.expr();
                let data = Expr::Let {
                    rec,
                    pat: self.bump.alloc(pat),
                    ty: ty.map(|ty| self.share(ty)),
                    init: self.share(init),
                    body: self.share(body),
                };
                self.located(start, data)
            }
            Tok::If => {
                self.pos += 1;
                let cond = self.expr();
                self.expect(Tok::Then);
                let then_branch = self.expr();
                self.expect(Tok::Else);
                let else_branch = self.expr();
                let data = Expr::If {
                    cond: self.share(cond),
                    then_branch: self.share(then_branch),
                    else_branch: self.share(else_branch),
                };
                self.located(start, data)
            }
            Tok::Fun => {
                self.pos += 1;
                let params = self.params(Tok::FatArrow);
                let body = self.expr();
                let data = Expr::FunLit { params: self.bump.alloc(params), body: self.share(body) };
                self.located(start, data)
            }
            Tok::Forall => {
                self.pos += 1;
                let params = self.params(Tok::Arrow);
                let body = self.expr();
                let data = Expr::FunType { params: self.bump.alloc(params), body: self.share(body) };
                self.located(start, data)
            }
            _ => {
                let expr = self.arrow();
                if self.eat(Tok::Colon) {
                    let ty = self.expr();
                    let data = Expr::Ann { expr: self.share(expr), ty: self.share(ty) };
                    self.located(start, data)
                } else {
                    expr
                }
            }
        }
    }

    fn params(&mut self, end: Tok) -> Vec<Located<FunParam<'a>>> {
        let mut params = Vec::new();
        while self.peek() != end {
            let start = self.start();
            let param = if self.peek() == Tok::LParen && self.param_has_type() {
                self.pos += 1;
                let plicity = if self.eat(Tok::At) { Plicity::Implicit } else { Plicity::Explicit };
                let pat = self.pat();
                self.expect(Tok::Colon);
                let ty = self.expr();
                self.expect(Tok::RParen);
                FunParam { plicity, pat, ty: Some(ty) }
            } else {
                let plicity = if self.eat(Tok::At) { Plicity::Implicit } else { Plicity::Explicit };
                let pat = self.pat();
                FunParam { plicity, pat, ty: None }
            };
            params.push(Located::new(TextRange::new(start, self.last_end()), param));
        }
        self.pos += 1;
        params
    }

    /// Whether the parenthesis at the cursor holds a parameter with a type:
    /// whether a colon stands in it outside any inner bracket.
    fn param_has_type(&self) -> bool {
        let mut depth = 0;
        let mut i = self.pos;
        loop {
            match self.toks[i].0 {
                Tok::LParen | Tok::LBrace => depth += 1,
                Tok::RParen | Tok::RBrace => {
                    depth -= 1;
                    if depth == 0 {
                        return false;
                    }
                }
                Tok::Colon if depth == 1 => return true,
                Tok::Eof => return false,
                _ => {}
            }
            i += 1;
        }
    }

    fn arrow(&mut self) -> LExpr<'a> {
        let start = self.start();
        let plicity = if self.peek() == Tok::At {
            self.pos += 1;
            Plicity::Implicit
        } else {
            Plicity::Explicit
        };
        let lhs = self.app();
        if self.eat(Tok::Arrow) {
            let rhs = self.expr();
            let data = Expr::FunArrow { plicity, lhs: self.share(lhs), rhs: self.share(rhs) };
            self.located(start, data)
        } else {
            assert!(plicity == Plicity::Explicit, "`@` before something that is no arrow");
            lhs
        }
    }

    fn starts_atom(&self) -> bool {
        matches!(
            self.peek(),
            Tok::Ident
                | Tok::DecInt
                | Tok::BinInt
                | Tok::HexInt
                | Tok::True
                | Tok::False
                | Tok::Underscore
                | Tok::LParen
                | Tok::LBrace
                | Tok::LBracket
                | Tok::Match
        )
    }

    fn app(&mut self) -> LExpr<'a> {
        let start = self.start();
        let mut fun = self.proj();
        loop {
            let arg_start = self.start();
            let plicity = if self.peek() == Tok::At && self.arg_follows() {
                self.pos += 1;
                Plicity::Implicit
            } else if self.starts_atom() {
                Plicity::Explicit
            } else {
                return fun;
            };
            let arg = self.proj();
            let arg = Located::new(
                TextRange::new(arg_start, arg.range.end),
                FunArg { plicity, expr: self.share(arg) },
            );
            let data = Expr::FunApp { fun: self.share(fun), arg };
            fun = self.located(start, data);
        }
    }

    fn arg_follows(&self) -> bool {
        matches!(
            self.toks[self.pos + 1].0,
            Tok::Ident
                | Tok::DecInt
                | Tok::BinInt
                | Tok::HexInt
                | Tok::True
                | Tok::False
                | Tok::Underscore
                | Tok::LParen
                | Tok::LBrace
                | Tok::LBracket
        )
    }

    fn proj(&mut self) -> LExpr<'a> {
        let start = self.start();
        let mut scrut = self.atom();
        while self.eat(Tok::Dot) {
            let name = self.symbol();
            let data = Expr::RecordProj { scrut: self.share(scrut), name };
            scrut = self.located(start, data);
        }
        scrut
    }

    fn atom(&mut self) -> LExpr<'a> {
        let start = self.start();
        match self.peek() {
            Tok::Ident => {
                let name = self.symbol();
                Located::new(name.range, Expr::LocalVar(name.data))
            }
            Tok::DecInt => {
                self.pos += 1;
                self.located(start, Expr::Const(Const::DecInt))
            }
            Tok::BinInt => {
                self.pos += 1;
                self.located(start, Expr::Const(Const::BinInt))
            }
            Tok::HexInt => {
                self.pos += 1;
                self.located(start, Expr::Const(Const::HexInt))
            }
            Tok::True => {
                self.pos += 1;
                self.located(start, Expr::Const(Const::Bool(true)))
            }
            Tok::False => {
                self.pos += 1;
                self.located(start, Expr::Const(Const::Bool(false)))
            }
            Tok::Underscore => {
                self.pos += 1;
                self.located(start, Expr::Hole)
            }
            Tok::LParen => {
                self.pos += 1;
                if self.eat(Tok::RParen) {
                    return self.located(start, Expr::TupleLit(self.bump.alloc(Vec::new())));
                }
                let first = self.expr();
                if self.eat(Tok::RParen) {
                    return self.located(start, Expr::Paren(self.share(first)));
                }
                let mut elems = vec![first];
                while self.eat(Tok::Comma) {
                    if self.peek() == Tok::RParen {
                        break;
                    }
                    elems.push(self.expr());
                }
                self.expect(Tok::RParen);
                self.located(start, Expr::TupleLit(self.bump.alloc(elems)))
            }
            Tok::LBracket => {
                self.pos += 1;
                let mut elems = Vec::new();
                while self.peek() != Tok::RBracket {
                    elems.push(self.expr());
                    if !self.eat(Tok::Comma) {
                        break;
                    }
                }
                self.expect(Tok::RBracket);
                self.located(start, Expr::ListLit(self.bump.alloc(elems)))
            }
            Tok::LBrace => {
                self.pos += 1;
                if self.eat(Tok::RBrace) {
                    return self.located(start, Expr::RecordLit(self.bump.alloc(Vec::new())));
                }
                let is_type = self.toks[self.pos + 1].0 == Tok::Colon;
                if is_type {
                    let mut fields = Vec::new();
                    loop {
                        let name = self.symbol();
                        self.expect(Tok::Colon);
                        let ty = self.expr();
                        fields.push(TypeField { name, ty });
                        if !self.eat(Tok::Comma) || self.peek() == Tok::RBrace {
                            break;
                        }
                    }
                    self.expect(Tok::RBrace);
                    self.located(start, Expr::RecordType(self.bump.alloc(fields)))
                } else {
                    let mut fields = Vec::new();
                    loop {
                        let name = self.symbol();
                        self.expect(Tok::Equals);
                        let expr = self.expr();
                        fields.push(ExprField { name, expr });
                        if !self.eat(Tok::Comma) || self.peek() == Tok::RBrace {
                            break;
                        }
                    }
                    self.expect(Tok::RBrace);
                    self.located(start, Expr::RecordLit(self.bump.alloc(fields)))
                }
            }
            Tok::Match => {
                self.pos += 1;
                let scrut = self.proj();
                self.expect(Tok::LBrace);
                let mut arms = Vec::new();
                while self.peek() != Tok::RBrace {
                    let pat = self.pat();
                    let guard = if self.eat(Tok::If) { Some(self.expr()) } else { None };
                    self.expect(Tok::FatArrow);
                    let rhs = self.expr();
                    arms.push(MatchArm { pat, guard, rhs });
                    if !self.eat(Tok::Comma) {
                        break;
                    }
                }
                self.expect(Tok::RBrace);
                let data = Expr::Match { scrut: self.share(scrut), arms: self.bump.alloc(arms) };
                self.located(start, data)
            }
            other => panic!("expected an expression, found {:?}", other),
        }
    }

    fn pat(&mut self) -> LPat<'a> {
        let start = self.start();
        let data = match self.peek() {
            Tok::Underscore => {
                self.pos += 1;
                Pat::Underscore
            }
            Tok::Ident => Pat::Ident(self.symbol().data),
            Tok::True => {
                self.pos += 1;
                Pat::Lit(Const::Bool(true))
            }
            Tok::False => {
                self.pos += 1;
                Pat::Lit(Const::Bool(false))
            }
            Tok::DecInt => {
                self.pos += 1;
                Pat::Lit(Const::DecInt)
            }
            Tok::BinInt => {
                self.pos += 1;
                Pat::Lit(Const::BinInt)
            }
            Tok::HexInt => {
                self.pos += 1;
                Pat::Lit(Const::HexInt)
            }
            Tok::LParen => {
                self.pos += 1;
                if self.eat(Tok::RParen) {
                    Pat::Tuple(self.bump.alloc(Vec::new()))
                } else {
                    let first = self.pat();
                    if self.eat(Tok::RParen) {
                        Pat::Paren(self.bump.alloc(first))
                    } else {
                        let mut pats = vec![first];
                        while self.eat(Tok::Comma) {
                            if self.peek() == Tok::RParen {
                                break;
                            }
                            pats.push(self.pat());
                        }
                        self.expect(Tok::RParen);
                        Pat::Tuple(self.bump.alloc(pats))
                    }
                }
            }
            Tok::LBrace => {
                self.pos += 1;
                let mut fields = Vec::new();
                while self.peek() != Tok::RBrace {
                    let name = self.symbol();
                    let pat = if self.eat(Tok::Equals) {
                        self.pat()
                    } else {
                        Located::new(name.range, Pat::Ident(name.data))
                    };
                    fields.push(PatField { name, pat });
                    if !self.eat(Tok::Comma) {
                        break;
                    }
                }
                self.expect(Tok::RBrace);
                Pat::RecordLit(self.bump.alloc(fields))
            }
            other => panic!("expected a pattern, found {:?}", other),
        };
        Located::new(TextRange::new(start, self.last_end()), data)
    }
}

fn parse<'a>(bump: &'a Bump, text: &'a str) -> LExpr<'a> {
    let mut parser = Parser { bump, text, toks: lex(text), pos: 0 };
    let expr = parser.expr();
    assert!(parser.peek() == Tok::Eof, "unexpected {:?} after the expression", parser.peek());
    expr
}

/// What the program prints for a source text: the term and its type, and
/// after them, each on a line of its own, what was reported: the message,
/// the range it is about, and the remark on that range.
fn run(text: &str, normalize: bool) -> String {
    let bump = Bump::new();
    let expr = parse(&bump, text);
    let mut elaborator = Elaborator::new(&bump, text, 0);
    let (term, ty) = elaborator.elab_expr(&expr, normalize);
    let unelaborator = Unelaborator::new(Printer::new(&bump), Config::default());
    let mut names = UniqueEnv::new();
    let mut out = if term.is_scoped(EnvLen { len: 0 }) && ty.is_scoped(EnvLen { len: 0 }) {
        unelaborator.ann_expr(&mut names, &term, &ty).pretty(80)
    } else {
        String::from("#unscoped")
    };
    for diagnostic in &elaborator.diagnostics {
        out.push('\n');
        out.push_str(&describe(diagnostic));
    }
    out
}

fn describe(diagnostic: &Diagnostic) -> String {
    let label = &diagnostic.primary_label;
    let mut out = format!(
        "{:?}: {} @ {}..{}",
        diagnostic.severity,
        diagnostic.message.text,
        label.range.start,
        label.range.end
    );
    if let Some(remark) = &label.message {
        out.push_str(": ");
        out.push_str(&remark.text);
    }
    for label in &diagnostic.secondary_labels {
        out.push_str(&format!(" [{}..{}", label.range.start, label.range.end));
        if let Some(remark) = &label.message {
            out.push_str(": ");
            out.push_str(&remark.text);
        }
        out.push(']');
    }
    out
}

fn check(text: &str) -> String {
    run(text, false)
}

fn eval(text: &str) -> String {
    run(text, true)
}

#[test]
fn literals() {
    assert_eq!(check("true"), "true : Bool");
    assert_eq!(check("false"), "false : Bool");
    assert_eq!(check("5"), "5 : Int");
}

#[test]
fn cli_tests_prims() {
    assert_eq!(check(r#"Type"#), r#"Type : Type"#);
    assert_eq!(check(r#"Int"#), r#"Int : Type"#);
    assert_eq!(check(r#"Bool"#), r#"Bool : Type"#);
    assert_eq!(check(r#"add"#), r#"add : Int -> Int -> Int"#);
    assert_eq!(check(r#"sub"#), r#"sub : Int -> Int -> Int"#);
    assert_eq!(check(r#"mul"#), r#"mul : Int -> Int -> Int"#);
    assert_eq!(check(r#"eq"#), r#"eq : Int -> Int -> Bool"#);
    assert_eq!(check(r#"ne"#), r#"ne : Int -> Int -> Bool"#);
    assert_eq!(check(r#"lt"#), r#"lt : Int -> Int -> Bool"#);
    assert_eq!(check(r#"gt"#), r#"gt : Int -> Int -> Bool"#);
    assert_eq!(check(r#"lte"#), r#"lte : Int -> Int -> Bool"#);
    assert_eq!(check(r#"gte"#), r#"gte : Int -> Int -> Bool"#);
    assert_eq!(
        check(r#"fix"#),
        r#"fix : forall (@A : Type) (@B : Type) -> ((A -> B) -> A -> B) -> A -> B"#
    );
}

#[test]
fn arith_prims() {
    assert_eq!(eval(r#"add 3 2"#), r#"5 : Int"#);
    assert_eq!(eval(r#"sub 3 2"#), r#"1 : Int"#);
    assert_eq!(eval(r#"mul 3 2"#), r#"6 : Int"#);
    assert_eq!(eval(r#"eq 1 0"#), r#"false : Bool"#);
    assert_eq!(eval(r#"ne 1 0"#), r#"true : Bool"#);
    assert_eq!(eval(r#"lt 1 0"#), r#"false : Bool"#);
    assert_eq!(eval(r#"gt 1 0"#), r#"true : Bool"#);
    assert_eq!(eval(r#"lte 1 0"#), r#"false : Bool"#);
    assert_eq!(eval(r#"gte 1 0"#), r#"true : Bool"#);
}

#[test]
fn cli_tests_fun_arrow() {
    assert_eq!(check(r#"Int -> Bool"#), r#"(Int -> Bool) : Type"#);
}

#[test]
fn cli_tests_fun_type() {
    assert_eq!(check(r#"forall (x : Int) -> Bool"#), r#"(Int -> Bool) : Type"#);
    assert_eq!(check(r#"forall (A : Type) -> A -> A"#), r#"(forall (A : Type) -> A -> A) : Type"#);
    assert_eq!(
        check(r#"forall (A : Type) (B: Type) -> A -> B"#),
        r#"(forall (A : Type) (B : Type) -> A -> B) : Type"#
    );
    assert_eq!(
        check(r#"forall (A : Type) (_ : A) -> A"#),
        r#"(forall (A : Type) -> A -> A) : Type"#
    );
}

#[test]
fn cli_tests_fun_lit() {
    assert_eq!(check(r#"fun(x : Int) => x"#), r#"(fun (x : Int) => x) : Int -> Int"#);
    assert_eq!(
        check(r#"fun (x : Int) (y : Bool) => x"#),
        r#"(fun (x : Int) (y : Bool) => x) : Int -> Bool -> Int"#
    );
    assert_eq!(
        check(r#"fun x => x"#),
        r#"(fun (x : ?0) => x) : ?0 -> ?0
Error: Unsolved metavariable: ?0 @ 4..5: could not infer type of variable `x`"#
    );
    assert_eq!(
        check(r#"fun x y => x"#),
        r#"(fun (x : ?0) (y : ?1 x) => x) : forall (x : ?0) -> ?1 x -> ?0
Error: Unsolved metavariable: ?0 @ 4..5: could not infer type of variable `x`
Error: Unsolved metavariable: ?1 @ 6..7: could not infer type of variable `y`"#
    );
    assert_eq!(check(r#"(fun x => x) : Int -> Int"#), r#"(fun (x : Int) => x) : Int -> Int"#);
    assert_eq!(
        check(r#"(fun x y => x) : Int -> Bool -> Int"#),
        r#"(fun (x : Int) (y : Bool) => x) : Int -> Bool -> Int"#
    );
}

#[test]
fn cli_tests_fun_app() {
    assert_eq!(check(r#"(fun x => x) 1"#), r#"((fun (x : Int) => x) 1) : Int"#);
    assert_eq!(
        check(r#"(fun x => x) 1 2 3"#),
        r#"#error : #error
Error: Expected function, found `Int` @ 0..14"#
    );
}

#[test]
fn cli_tests_let() {
    assert_eq!(
        check(r#"let f = fun x => x; f false"#),
        r#"let f : Bool -> Bool = fun (x : Bool) => x;
(f false) : Bool"#
    );
    assert_eq!(
        check(r#"let f : Bool -> Bool = fun x => x; f false"#),
        r#"let f : Bool -> Bool = fun (x : Bool) => x;
(f false) : Bool"#
    );
    assert_eq!(check(r#"let _ = 5; 10"#), r#"10 : Int"#);
}

#[test]
fn holes() {
    assert_eq!(
        check(r#"let x: _ = 5; x"#),
        r#"let x : Int = 5;
x : Int"#
    );
}

#[test]
fn implicit_args() {
    assert_eq!(check(r#"@Int -> Bool"#), r#"(@Int -> Bool) : Type"#);
    assert_eq!(check(r#"forall (@x: Int) -> Bool"#), r#"(@Int -> Bool) : Type"#);
    assert_eq!(check(r#"fun (@x : Int) => x"#), r#"(fun (@x : Int) => x) : @Int -> Int"#);
    assert_eq!(check(r#"(fun (@x : Int) => x) @5"#), r#"((fun (@x : Int) => x) @5) : Int"#);
    assert_eq!(eval(r#"(fun (@x : Int) => x) @5"#), r#"5 : Int"#);
}

#[test]
fn generalize() {
    assert_eq!(
        check(r#"let id: forall (@A: Type) -> A -> A = fun x => x; id"#),
        r#"let id : forall (@A : Type) -> A -> A = fun (@A : Type) (x : A) => x;
id : forall (@A : Type) -> A -> A"#
    );
}

#[test]
fn specialize() {
    assert_eq!(
        check(r#"let id: forall (@A: Type) -> A -> A = fun x => x; id 5"#),
        r#"let id : forall (@A : Type) -> A -> A = fun (@A : Type) (x : A) => x;
(id @Int 5) : Int"#
    );
}

#[test]
fn plicity_mismatch() {
    assert_eq!(
        check(r#"(fun (x : Int) => x) @5"#),
        r#"#error : #error
Error: Applied implicit argument when explicit argument was expected @ 21..23: implicit argument [0..20: function has type Int -> Int]"#
    );
}

#[test]
fn if_then_else() {
    assert_eq!(
        check(r#"if true then 1 else 0"#),
        r#"match true {
    true => 1,
    false => 0,
} : Int"#
    );
    assert_eq!(eval(r#"if true then 1 else 0"#), r#"1 : Int"#);
}

#[test]
fn record_literals() {
    assert_eq!(check(r#"{}"#), r#"() : ()"#);
    assert_eq!(check(r#"{x=1, y=false}"#), r#"{x = 1, y = false} : {x : Int, y : Bool}"#);
    assert_eq!(check(r#"{x=1, y=false}.x"#), r#"{x = 1, y = false}.x : Int"#);
    assert_eq!(eval(r#"{x=1, y=false}.x"#), r#"1 : Int"#);
    assert_eq!(
        check(r#"({A = Int, a = 5} : {A : Type, a : A}).a"#),
        r#"{A = Int, a = 5}.a : Int"#
    );
}

#[test]
fn record_types() {
    assert_eq!(check(r#"{} : Type"#), r#"() : Type"#);
    assert_eq!(check(r#"{x: Int}"#), r#"{x : Int} : Type"#);
    assert_eq!(check(r#"{A: Type, a: A}"#), r#"{A : Type, a : A} : Type"#);
}

#[test]
fn tuple_literals() {
    assert_eq!(check(r#"()"#), r#"() : ()"#);
    assert_eq!(check(r#"(1,)"#), r#"(1,) : (Int,)"#);
    assert_eq!(check(r#"(1,2,3)"#), r#"(1, 2, 3) : (Int, Int, Int)"#);
    assert_eq!(check(r#"() : Type"#), r#"() : Type"#);
    assert_eq!(check(r#"(Bool,) : Type"#), r#"(Bool,) : Type"#);
    assert_eq!(check(r#"(Bool, Int) : Type"#), r#"(Bool, Int) : Type"#);
}

#[test]
fn fixpoint_factorial() {
    let fact = "fix (fun fact n => if eq n 0 then 1 else mul n (fact (sub n 1)))";
    let printed = "(fix
    @Int
    @Int
    (fun (fact : Int -> Int) (n : Int) =>
        match (eq n 0) {
            true => 1,
            false => mul n (fact (sub n 1)),
        })) : Int -> Int";
    assert_eq!(check(fact), printed);
    assert_eq!(eval(fact), printed);
    assert_eq!(eval(&format!("{fact} 5")), "120 : Int");
}

#[test]
fn letrec() {
    let fact =
        "let rec fact : Int -> Int = fun n => if eq n 0 then 1 else mul n (fact (sub n 1));";
    assert_eq!(
        check(&format!("{fact} fact")),
        "let fact : Int -> Int
    = fix
        @Int
        @Int
        (fun (fact : Int -> Int) (n : Int) =>
            match (eq n 0) {
                true => 1,
                false => mul n (fact (sub n 1)),
            });
fact : Int -> Int"
    );
    assert_eq!(
        eval(&format!("{fact} fact")),
        "(fix
    @Int
    @Int
    (fun (fact : Int -> Int) (n : Int) =>
        match (eq n 0) {
            true => 1,
            false => mul n (fact (sub n 1)),
        })) : Int -> Int"
    );
    assert_eq!(eval(&format!("{fact} fact 5")), "120 : Int");
}

#[test]
fn record_pats() {
    assert_eq!(
        check(r#"let p = (1, 2); let (x, y) = p; 5"#),
        r#"let p : (Int, Int) = (1, 2);
let x : Int = p._0;
let y : Int = p._1;
5 : Int"#
    );
    assert_eq!(
        check(r#"let (x, y) = (1, 2); (y, x)"#),
        r#"let x : Int = (1, 2)._0;
let y : Int = (1, 2)._1;
(y, x) : (Int, Int)"#
    );
    assert_eq!(
        check(r#"fun ((x, y) : (Int, Bool)) => (y, x)"#),
        r#"(fun (_ : (Int, Bool)) =>
    let x : Int = _#0._0;
    let y : Bool = _#1._1;
    (y, x)) : (Int, Bool) -> (Bool, Int)"#
    );
    assert_eq!(
        check(r#"forall ((x, y) : (Int, Bool)) -> Int"#),
        r#"(forall (_ : (Int, Bool)) ->
    let x : Int = _#0._0;
    let y : Bool = _#1._1;
    Int) : Type"#
    );
}

#[test]
fn invalid_integer_literals_are_reported() {
    assert_eq!(
        check("4294967296"),
        "#error : #error\nError: Invalid integer literal @ 0..10"
    );
    assert_eq!(check("4294967295"), "4294967295 : Int");
    assert_eq!(check("0x1F"), "31 : Int");
    assert_eq!(check("0b101"), "5 : Int");
}

#[test]
fn unbound_variables_are_reported() {
    assert_eq!(check("nope"), "#error : #error\nError: Unbound variable: `nope` @ 0..4");
}

#[test]
fn ascribing_the_inferred_type_changes_nothing() {
    assert_eq!(check("(add 1 2 : Int)"), check("add 1 2"));
    assert_eq!(check("(fun (x : Int) => x) : Int -> Int"), check("fun (x : Int) => x"));
    assert_eq!(check("((1, true) : (Int, Bool))"), check("(1, true)"));
}

#[test]
fn cli_tests_match() {
    assert_eq!(
        check(r#"
let and1 = fun x y => match (x, y) {
    (true, true) => true,
    _ => false,
};

let and2 = fun x y => match (x, y) {
    (true, true) => true,
    (_, _) => false,
};

let and3 = fun x y => match (x, y) {
    (true, true) => true,
    (false, true) => false,
    (true, false) => false,
    (false, false) => false,
};

let or1 = fun x y => match (x, y) {
    (false, false) => false,
    _ => true,
};

let or2 = fun x y => match (x, y) {
    (false, false) => false,
    (_, _) => true,
};

let or3 = fun x y => match (x, y) {
    (true, true) => true,
    (false, true) => true,
    (true, false) => true,
    (false, false) => false,
};

let or4 = fun x y => match (x, y) {
    (true, _) => true,
    (_, true) => true,
    _ => false,
};
()
"#),
        r#"let and1 : Bool -> Bool -> Bool
    = fun (x : Bool) (y : Bool) =>
        match (x, y)._0 {
            true => match (x, y)._1 {
                true => true,
                false => false,
            },
            false => false,
        };
let and2 : Bool -> Bool -> Bool
    = fun (x : Bool) (y : Bool) =>
        match (x, y)._0 {
            true => match (x, y)._1 {
                true => true,
                false => false,
            },
            false => false,
        };
let and3 : Bool -> Bool -> Bool
    = fun (x : Bool) (y : Bool) =>
        match (x, y)._0 {
            true => match (x, y)._1 {
                true => true,
                false => false,
            },
            false => match (x, y)._1 {
                true => false,
                false => false,
            },
        };
let or1 : Bool -> Bool -> Bool
    = fun (x : Bool) (y : Bool) =>
        match (x, y)._0 {
            true => true,
            false => match (x, y)._1 {
                true => true,
                false => false,
            },
        };
let or2 : Bool -> Bool -> Bool
    = fun (x : Bool) (y : Bool) =>
        match (x, y)._0 {
            true => true,
            false => match (x, y)._1 {
                true => true,
                false => false,
            },
        };
let or3 : Bool -> Bool -> Bool
    = fun (x : Bool) (y : Bool) =>
        match (x, y)._0 {
            true => match (x, y)._1 {
                true => true,
                false => true,
            },
            false => match (x, y)._1 {
                true => true,
                false => false,
            },
        };
let or4 : Bool -> Bool -> Bool
    = fun (x : Bool) (y : Bool) =>
        match (x, y)._0 {
            true => true,
            false => match (x, y)._1 {
                true => true,
                false => false,
            },
        };
() : ()"#
    );
    assert_eq!(
        check(r#"
let apply = fun (x: Bool) (f: Bool -> Int) => match x {
    true => 1,
    z => f(z),
};
()
    "#),
        r#"let apply : Bool -> (Bool -> Int) -> Int
    = fun (x : Bool) (f : Bool -> Int) =>
        match x {
            true => 1,
            false => let z : Bool = x;
            f z,
        };
() : ()"#
    );
    assert_eq!(
        check(r#"
let fst1 = fun (A: Type) (B: Type) (p: (A, B)) => match p {
    (x, y) => x,
};

let fst2 = fun (A: Type) (B: Type) (p: (A, B)) => match p {
    (x, _) => x,
};

let snd1 = fun (A: Type) (B: Type) (p: (A, B)) => match p {
    (x, y) => y,
};

let snd2 = fun (A: Type) (B: Type) (p: (A, B)) => match p {
    (_, y) => y,
};

let swap = fun (A: Type) (B: Type) (p: (A, B)) => match p {
    (x, y) => (y, x),
};
()
    "#),
        r#"let fst1 : forall (A : Type) (B : Type) -> (A, B) -> A
    = fun (A : Type) (B : Type) (p : (A, B)) =>
        let x : A = p._0;
        let y : B = p._1;
        x;
let fst2 : forall (A : Type) (B : Type) -> (A, B) -> A
    = fun (A : Type) (B : Type) (p : (A, B)) =>
        let x : A = p._0;
        x;
let snd1 : forall (A : Type) (B : Type) -> (A, B) -> B
    = fun (A : Type) (B : Type) (p : (A, B)) =>
        let x : A = p._0;
        let y : B = p._1;
        y;
let snd2 : forall (A : Type) (B : Type) -> (A, B) -> B
    = fun (A : Type) (B : Type) (p : (A, B)) =>
        let y : B = p._1;
        y;
let swap : forall (A : Type) (B : Type) -> (A, B) -> (B, A)
    = fun (A : Type) (B : Type) (p : (A, B)) =>
        let x : A = p._0;
        let y : B = p._1;
        (y, x);
() : ()"#
    );
    // A guard is tested where its arm is reached, and the arms after it are
    // tried where it fails.
    assert_eq!(
        check(r#"
let foo = fun (x: Int) (y: Bool) (z: Bool) => match x {
    1 if y => 1,
    2 if z => 2,
    3 if y => 3,
    4 if z => 4,
    5 => 5,
    _ => 6,
};

let bar = fun (x: Bool) (f: Bool -> Bool) (y: Int) => match x {
    true => 0,
    z if f(z) => y,
    _ => 3,
};

let baz = fun (x) (y: Int) (f: Int -> Bool) => match (x, y) {
    (0, a) if f(a) => a,
    (0, b) if f(b) => b,
    (0, c) if f(c) => c,
    (0, d) if f(d) => d,
    (aa, bb) => bb,
};
()

    "#),
        r#"let foo : Int -> Bool -> Bool -> Int
    = fun (x : Int) (y : Bool) (z : Bool) =>
        match x {
            1 => match y {
                true => 1,
                false => 6,
            },
            2 => match z {
                true => 2,
                false => 6,
            },
            3 => match y {
                true => 3,
                false => 6,
            },
            4 => match z {
                true => 4,
                false => 6,
            },
            5 => 5,
            _ => 6,
        };
let bar : Bool -> (Bool -> Bool) -> Int -> Int
    = fun (x : Bool) (f : Bool -> Bool) (y : Int) =>
        match x {
            true => 0,
            false => match (let z : Bool = x;
            f z) {
                true => let z : Bool = x;
                y,
                false => 3,
            },
        };
let baz : Int -> Int -> (Int -> Bool) -> Int
    = fun (x : Int) (y : Int) (f : Int -> Bool) =>
        match (x, y)._0 {
            0 => match (let a : Int = (x, y)._1;
            f a) {
                true => let a : Int = (x, y)._1;
                a,
                false => match (let b : Int = (x, y)._1;
                f b) {
                    true => let b : Int = (x, y)._1;
                    b,
                    false => match (let c : Int = (x, y)._1;
                    f c) {
                        true => let c : Int = (x, y)._1;
                        c,
                        false => match (let d : Int = (x, y)._1;
                        f d) {
                            true => let d : Int = (x, y)._1;
                            d,
                            false => let aa : Int = (x, y)._0;
                            let bb : Int = (x, y)._1;
                            bb,
                        },
                    },
                },
            },
            _ => let aa : Int = (x, y)._0;
            let bb : Int = (x, y)._1;
            bb,
        };
() : ()"#
    );
    assert_eq!(
        check(r#"
let foo = fun (x) (y: Int) => match (x, y) {
    (0, a) => a,
    (b, 0) => b,
    (1, c) => c,
    (d, 1) => d,
    (xx, yy) => xx,
};
()
    "#),
        r#"let foo : Int -> Int -> Int
    = fun (x : Int) (y : Int) =>
        match (x, y)._0 {
            0 => let a : Int = (x, y)._1;
            a,
            1 => match (x, y)._1 {
                0 => let b : Int = (x, y)._0;
                b,
                1 => let c : Int = (x, y)._1;
                c,
                _ => let c : Int = (x, y)._1;
                c,
            },
            _ => match (x, y)._1 {
                0 => let b : Int = (x, y)._0;
                b,
                1 => let d : Int = (x, y)._0;
                d,
                _ => let xx : Int = (x, y)._0;
                let yy : Int = (x, y)._1;
                xx,
            },
        };
() : ()"#
    );
    assert_eq!(
        check(r#"
let is-zero = fun(x) => match x {
    0 => true,
    _ => false,
};
()
    "#),
        r#"let is-zero : Int -> Bool
    = fun (x : Int) =>
        match x {
            0 => true,
            _ => false,
        };
() : ()"#
    );
    assert_eq!(
        check(r#"
let fst1 = fun (A: Type) (B: Type) (p: {x: A, y: B}) => match p {
    {x=x, y=y} => x,
};
()
"#),
        r#"let fst1 : forall (A : Type) (B : Type) -> {x : A, y : B} -> A
    = fun (A : Type) (B : Type) (p : {x : A, y : B}) =>
        let x : A = p.x;
        let y : B = p.y;
        x;
() : ()"#
    );
    // An arm that takes no value is left out, and warned of.
    assert_eq!(
        check(r#"
let foo = fun(x: Bool) => match x {
    true => 1,
    false => 2,
    true => 3,
};
()
"#),
        r#"let foo : Bool -> Int
    = fun (x : Bool) =>
        match x {
            true => 1,
            false => 2,
        };
() : ()
Warning: Unreachable pattern @ 72..76"#
    );
}

#[test]
fn an_arm_that_takes_no_value_is_reported_and_left_out() {
    assert_eq!(
        check(
            "let foo = fun(x: Bool) => match x {
    true => 1,
    false => 2,
    true => 3,
};
()"
        ),
        "let foo : Bool -> Int
    = fun (x : Bool) =>
        match x {
            true => 1,
            false => 2,
        };
() : ()
Warning: Unreachable pattern @ 71..75"
    );
}

#[test]
fn a_value_that_no_arm_takes_is_reported() {
    assert_eq!(
        check("fun (x : Bool) => match x { true => 1 }"),
        "(fun (x : Bool) =>
    match x {
        true => 1,
        false => #error,
    }) : Bool -> Int
Error: Non-exhaustive match @ 18..39"
    );
    assert_eq!(
        check("fun (x : Int) => match x { 0 => true, 1 => false }"),
        "(fun (x : Int) =>
    match x {
        0 => true,
        1 => false,
        _ => #error,
    }) : Int -> Bool
Error: Non-exhaustive match @ 17..50"
    );
}

#[test]
fn a_guard_that_fails_falls_through_to_the_arms_after_it() {
    assert_eq!(
        check("fun (x : Int) (y : Bool) => match x { 1 if y => 10, 1 => 11, _ => 12 }"),
        "(fun (x : Int) (y : Bool) =>
    match x {
        1 => match y {
            true => 10,
            false => 11,
        },
        _ => 12,
    }) : Int -> Bool -> Int"
    );
    assert_eq!(eval("(fun (x : Int) (y : Bool) => match x { 1 if y => 10, 1 => 11, _ => 12 }) 1 true"), "10 : Int");
    assert_eq!(eval("(fun (x : Int) (y : Bool) => match x { 1 if y => 10, 1 => 11, _ => 12 }) 1 false"), "11 : Int");
    assert_eq!(eval("(fun (x : Int) (y : Bool) => match x { 1 if y => 10, 1 => 11, _ => 12 }) 2 true"), "12 : Int");
}

#[test]
fn match_takes_the_first_arm_that_matches() {
    let program = "fun (p : (Int, Bool)) => match p {
        (0, true) => 1,
        (0, _) => 2,
        (_, true) => 3,
        _ => 5,
    }";
    assert_eq!(eval(&format!("({program}) (0, true)")), "1 : Int");
    assert_eq!(eval(&format!("({program}) (0, false)")), "2 : Int");
    assert_eq!(eval(&format!("({program}) (7, true)")), "3 : Int");
    assert_eq!(eval(&format!("({program}) (7, false)")), "5 : Int");
}

#[test]
fn consts() {
    assert_eq!(check("true"), "true : Bool");
    assert_eq!(check("false"), "false : Bool");
    assert_eq!(check("5"), "5 : Int");
}

#[test]
fn fixpoint_fix2() {
    assert_eq!(
        check(r#"
let fix2 : forall (@A1 : Type) (@B1 : Type) (@A2 : Type) (@B2 : Type) -> ((A1 -> B1, A2 -> B2) -> (A1 -> B1, A2 -> B2)) -> (A1 -> B1, A2 -> B2)
= fun @A1 @B1 @A2 @B2 =>
fix (fun (fix2 : ((A1 -> B1, A2 -> B2) -> (A1 -> B1, A2 -> B2)) -> (A1 -> B1, A2 -> B2)) f => (
   (fun x => (f (fix2 f))._0 x),
   (fun x => (f (fix2 f))._1 x)
));
fix2
"#),
        r#"let fix2 : forall (@A1 : Type) (@B1 : Type) (@A2 : Type) (@B2 : Type) ->
    ((A1 -> B1, A2 -> B2) -> (A1 -> B1, A2 -> B2)) -> (A1 -> B1, A2 -> B2)
    = fun (@A1 : Type) (@B1 : Type) (@A2 : Type) (@B2 : Type) =>
        fix
            @((A1 -> B1, A2 -> B2) -> (A1 -> B1, A2 -> B2))
            @(A1 -> B1, A2 -> B2)
            (fun (fix2 : ((A1 -> B1, A2 -> B2) -> (A1 -> B1,
            A2 -> B2)) -> (A1 -> B1, A2 -> B2)) (f : (A1 -> B1,
            A2 -> B2) -> (A1 -> B1, A2 -> B2)) =>
                (fun (x : A1) => (f (fix2 f))._0 x,
                fun (x : A2) => (f (fix2 f))._1 x));
fix2 : forall (@A1 : Type) (@B1 : Type) (@A2 : Type) (@B2 : Type) ->
    ((A1 -> B1, A2 -> B2) -> (A1 -> B1, A2 -> B2)) -> (A1 -> B1, A2 -> B2)"#
    );
}

#[test]
fn fix2_parity() {
    assert_eq!(
        eval(r#"
let fix2 : forall (@A1 : Type) (@B1 : Type) (@A2 : Type) (@B2 : Type) -> ((A1 -> B1, A2 -> B2) -> (A1 -> B1, A2 -> B2)) -> (A1 -> B1, A2 -> B2)
= fun @A1 @B1 @A2 @B2 =>
fix (fun (fix2 : ((A1 -> B1, A2 -> B2) -> (A1 -> B1, A2 -> B2)) -> (A1 -> B1, A2 -> B2)) f => (
   (fun x => (f (fix2 f))._0 x),
   (fun x => (f (fix2 f))._1 x)
));

let evenodd : (Int -> Bool, Int -> Bool)
= fix2 (fun evenodd => (
    fun n => if eq n 0 then true else evenodd._1 (sub n 1),
    fun n => if eq n 0 then false else evenodd._0 (sub n 1)
));
let even = evenodd._0;
let odd = evenodd._1;
even 2
"#),
        r#"true : Bool"#
    );
}

#[test]
fn equality() {
    assert_eq!(check(r#"Eq"#), r#"Eq : forall (@A : Type) -> A -> A -> Type"#);
    assert_eq!(check(r#"refl"#), r#"refl : forall (@A : Type) (a : A) -> Eq @A a a"#);
    assert_eq!(
        check(r#"subst"#),
        r#"subst : forall (@A : Type) (@p : A -> Type) (a : A) (b : A) ->
    Eq @A a b -> p a -> p b"#
    );
    assert_eq!(
        check(r#"
let sym: forall (@A: Type) (@a: A) (@b: A) -> Eq a b -> Eq b a
    = fun a_eq_b =>
        let p = fun x => Eq @A x a;
        let p_a  : p a = refl a;
        let goal : p b = subst @A @p a b a_eq_b p_a;
        goal
        ;
sym
    "#),
        r#"let sym : forall (@A : Type) (@a : A) (@b : A) -> Eq @A a b -> Eq @A b a
    = fun (@A : Type) (@a : A) (@b : A) (a_eq_b : Eq @A a b) =>
        let p : A -> Type = fun (x : A) => Eq @A x a;
        let p_a : Eq @A a a = refl @A a;
        let goal : Eq @A b a = subst @A @p a b a_eq_b p_a;
        goal;
sym : forall (@A : Type) (@a : A) (@b : A) -> Eq @A a b -> Eq @A b a"#
    );
    assert_eq!(
        check(r#"
let trans: forall (@A: Type) (@a: A) (@b: A) (@c: A) -> Eq a b -> Eq b c -> Eq a c
    = fun a_eq_b b_eq_c =>
        let p = fun x => Eq @A a x;
        let p_b  : p b = a_eq_b;
        let goal : p c = subst @A @p b c b_eq_c p_b;
        goal
        ;
trans
    "#),
        r#"let trans : forall (@A : Type) (@a : A) (@b : A) (@c : A) ->
    Eq @A a b -> Eq @A b c -> Eq @A a c
    = fun (@A : Type) (@a : A) (@b : A) (@c : A) (a_eq_b : Eq @A a b)
    (b_eq_c : Eq @A b c) =>
        let p : A -> Type = fun (x : A) => Eq @A a x;
        let p_b : Eq @A a b = a_eq_b;
        let goal : Eq @A a c = subst @A @p b c b_eq_c p_b;
        goal;
trans : forall (@A : Type) (@a : A) (@b : A) (@c : A) ->
    Eq @A a b -> Eq @A b c -> Eq @A a c"#
    );
    assert_eq!(
        check(r#"
let cong: forall (@A: Type) (@B: Type) (@a: A) (@b: A) (f: A -> B) -> Eq a b -> Eq (f a) (f b)
    = fun f a_eq_b =>
        let p = fun x => Eq @B (f a) (f x);
        let p_a:  p a = refl (f a);
        let goal: p b = subst @A @p a b a_eq_b p_a;
        goal
        ;
cong
        "#),
        r#"let cong : forall (@A : Type) (@B : Type) (@a : A) (@b : A) (f : A -> B) ->
    Eq @A a b -> Eq @B (f a) (f b)
    = fun (@A : Type) (@B : Type) (@a : A) (@b : A) (f : A -> B) (a_eq_b : Eq
        @A
        a
        b) =>
        let p : A -> Type = fun (x : A) => Eq @B (f a) (f x);
        let p_a : Eq @B (f a) (f a) = refl @B (f a);
        let goal : Eq @B (f a) (f b) = subst @A @p a b a_eq_b p_a;
        goal;
cong : forall (@A : Type) (@B : Type) (@a : A) (@b : A) (f : A -> B) ->
    Eq @A a b -> Eq @B (f a) (f b)"#
    );
    assert_eq!(
        check(r#"
let cong-app: forall (@A: Type) (@B: Type) (a: A) (f: A -> B) (g: A -> B)
    -> Eq f g -> Eq (f a) (g a)
    = fun a f g f_eq_g =>
        let p = fun (x : A -> B) => Eq @B (f a) (x a);
        let p_f : p f = refl _;
        let goal = subst @(A -> B) @p f g f_eq_g p_f;
        goal
        ;
cong-app
        "#),
        r#"let cong-app : forall (@A : Type) (@B : Type) (a : A) (f : A -> B)
(g : A -> B) -> Eq @(A -> B) f g -> Eq @B (f a) (g a)
    = fun (@A : Type) (@B : Type) (a : A) (f : A -> B) (g : A -> B) (f_eq_g : Eq
        @(A -> B)
        f
        g) =>
        let p : (A -> B) -> Type = fun (x : A -> B) => Eq @B (f a) (x a);
        let p_f : Eq @B (f a) (f a) = refl @B (f a);
        let goal : Eq @B (f a) (g a) = subst @(A -> B) @p f g f_eq_g p_f;
        goal;
cong-app : forall (@A : Type) (@B : Type) (a : A) (f : A -> B) (g : A -> B) ->
    Eq @(A -> B) f g -> Eq @B (f a) (g a)"#
    );
}

#[test]
fn dependent_if_then_else() {
    assert_eq!(
        check(r#"
let not = fun b => if b then false else true;

let not-false-is-true : Eq (not false) true = refl _;
let not-true-is-false : Eq (not true) false = refl _;

let not-inverse : forall b -> Eq (not (not b)) b
    = fun b =>
        let p = fun a => Eq (not (not a)) a;
        let p-true = refl _;
        let p-false = refl _;
        bool_rec @p b p-true p-false
        ;
()
"#),
        r#"let not : Bool -> Bool
    = fun (b : Bool) =>
        match b {
            true => false,
            false => true,
        };
let not-false-is-true : Eq @Bool true true = refl @Bool true;
let not-true-is-false : Eq @Bool false false = refl @Bool false;
let not-inverse : forall (b : Bool) ->
    Eq
        @Bool
        match match b {
            true => false,
            false => true,
        } {
            true => false,
            false => true,
        }
        b
    = fun (b : Bool) =>
        let p : Bool -> Type = fun (a : Bool) => Eq @Bool (not (not a)) a;
        let p-true : Eq @Bool true true = refl @Bool true;
        let p-false : Eq @Bool false false = refl @Bool false;
        bool_rec @p b p-true p-false;
() : ()"#
    );
}

#[test]
fn lists() {
    assert_eq!(check(r#"[1, 2, 3]"#), r#"[1, 2, 3] : List Int"#);
    assert_eq!(check(r#"[] : List Int"#), r#"[] : List Int"#);
    assert_eq!(
        check(r#"[]"#),
        r#"[] : List ?0
Error: Unsolved metavariable: ?0 @ 0..2: could not infer element type of empty list"#
    );
    assert_eq!(eval(r#"len [1, 2, 3]"#), r#"3 : Int"#);
    assert_eq!(eval(r#"push [1, 2, 3] 4"#), r#"[1, 2, 3, 4] : List Int"#);
    assert_eq!(eval(r#"append [1, 2, 3] [4, 5, 6]"#), r#"[1, 2, 3, 4, 5, 6] : List Int"#);
}

#[test]
fn a_list_primitive_waits_for_a_list_that_is_not_known() {
    assert_eq!(
        eval("fun (xs : List Int) => len (push xs 1)"),
        "(fun (xs : List Int) => len @Int (push @Int xs 1)) : List Int -> Int"
    );
    assert_eq!(eval("len (append [] [true])"), "1 : Int");
    assert_eq!(eval("append [[1], []] [[2, 3]]"), "[[1], [], [2, 3]] : List (List Int)");
    assert_eq!(check("len [1, 2]"), "(len @Int [1, 2]) : Int");
}

#[test]
fn the_items_of_a_list_have_one_type() {
    assert_eq!(
        check("[1, true]"),
        "[1, #error] : List Int\n\
         Error: Type mismatch: expected `Int`, found `Bool` @ 4..8"
    );
}
