//! Documents: text with the places where a line may break, and the pieces
//! of surface syntax built from them.
//!
//! A document says what is printed and where the lines may break; a layout
//! engine decides, for a page width, where they do break. The
//! mathematical model of a document is [`Layout`].

use crate::arena::{arena_alloc, arena_alloc_str};
use crate::plicity::Plicity;
use vstd::prelude::*;

verus! {

/// How far the inside of a bracket is indented.
pub const INDENT: usize = 4;

/// A document, allocated in the arena.
#[derive(Debug, Copy, Clone)]
pub enum Doc<'core> {
    /// Nothing.
    Nil,
    /// Text without a line break.
    Text(&'core str),
    /// A space where the group around it fits on the line, else a line
    /// break.
    Line,
    /// A line break.
    Hardline,
    /// The parts one after the other.
    Concat(&'core Vec<Doc<'core>>),
    /// The document with its line breaks followed by that many spaces more.
    Nest(usize, &'core Doc<'core>),
    /// The document on one line if it fits; else each `Line` directly in it
    /// breaks.
    Group(&'core Doc<'core>),
}

/// The mathematical model of a document.
pub enum Layout {
    Nil,
    Text(Seq<char>),
    Line,
    Hardline,
    Concat(Seq<Layout>),
    Nest(nat, Box<Layout>),
    Group(Box<Layout>),
}

impl<'core> Doc<'core> {
    /// The model of the document.
    pub open spec fn layout(self) -> Layout
        decreases self,
    {
        match self {
            Doc::Nil => Layout::Nil,
            Doc::Text(text) => Layout::Text(text@),
            Doc::Line => Layout::Line,
            Doc::Hardline => Layout::Hardline,
            Doc::Concat(parts) => Layout::Concat(
                Seq::new(
                    parts@.len(),
                    |i: int|
                        if 0 <= i < parts@.len() {
                            parts@[i].layout()
                        } else {
                            Layout::Nil
                        },
                ),
            ),
            Doc::Nest(indent, doc) => Layout::Nest(indent as nat, Box::new(doc.layout())),
            Doc::Group(doc) => Layout::Group(Box::new(doc.layout())),
        }
    }
}

impl<'core> View for Doc<'core> {
    type V = Layout;

    open spec fn view(&self) -> Layout {
        self.layout()
    }
}

/// The models of a sequence of documents.
pub open spec fn layouts(docs: Seq<Doc>) -> Seq<Layout> {
    Seq::new(docs.len(), |i: int| docs[i]@)
}

/// The text `s`.
pub open spec fn l_text(s: Seq<char>) -> Layout {
    Layout::Text(s)
}

/// `doc` in parentheses.
pub open spec fn l_paren(doc: Layout) -> Layout {
    Layout::Concat(seq![l_text("("@), doc, l_text(")"@)])
}

/// `expr : ty`.
pub open spec fn l_ann(expr: Layout, ty: Layout) -> Layout {
    Layout::Concat(seq![expr, l_text(" : "@), ty])
}

/// `let pat : ty = init;`, which may break before the `=`.
pub open spec fn l_let_stmt(pat: Layout, ty: Layout, init: Layout) -> Layout {
    Layout::Group(
        Box::new(
            Layout::Concat(
                seq![
                    l_text("let "@),
                    pat,
                    l_text(" : "@),
                    ty,
                    Layout::Nest(
                        INDENT as nat,
                        Box::new(Layout::Concat(seq![Layout::Line, l_text("= "@), init])),
                    ),
                    l_text(";"@),
                ],
            ),
        ),
    )
}

/// `stmt`, and `body` on the next line.
pub open spec fn l_let_expr(stmt: Layout, body: Layout) -> Layout {
    Layout::Concat(seq![stmt, Layout::Hardline, body])
}

/// The statements, each on a line of its own, and then `result`.
pub open spec fn l_block(stmts: Seq<Layout>, result: Layout) -> Layout {
    Layout::Concat(
        Seq::new(stmts.len(), |i: int| Layout::Concat(seq![stmts[i], Layout::Hardline])).push(
            result,
        ),
    )
}

/// `pat => expr`.
pub open spec fn l_match_case(pat: Layout, expr: Layout) -> Layout {
    Layout::Concat(seq![pat, l_text(" => "@), expr])
}

/// `match scrut { case, ... }`, each case on a line of its own.
pub open spec fn l_match(scrut: Layout, cases: Seq<Layout>) -> Layout {
    Layout::Concat(
        seq![
            l_text("match "@),
            scrut,
            l_text(" {"@),
            Layout::Nest(
                INDENT as nat,
                Box::new(
                    Layout::Concat(
                        Seq::new(
                            cases.len(),
                            |i: int| Layout::Concat(seq![Layout::Hardline, cases[i], l_text(","@)]),
                        ),
                    ),
                ),
            ),
            Layout::Hardline,
            l_text("}"@),
        ],
    )
}

/// `lhs -> rhs`, with the mark of the plicity before it.
pub open spec fn l_arrow(plicity: Plicity, lhs: Layout, rhs: Layout) -> Layout {
    Layout::Concat(seq![l_text(plicity.marker()), lhs, l_text(" -> "@), rhs])
}

/// A space, or a line break where what follows up to the next possible
/// break does not fit on the line.
pub open spec fn l_softline() -> Layout {
    Layout::Group(Box::new(Layout::Line))
}

/// `body` after a space, or on the next line, indented, where it does not
/// fit on the line.
pub open spec fn l_indented(body: Layout) -> Layout {
    Layout::Group(
        Box::new(Layout::Nest(INDENT as nat, Box::new(Layout::Concat(seq![Layout::Line, body])))),
    )
}

/// The items with `sep` before each but the first.
pub open spec fn l_sep_by(items: Seq<Layout>, sep: Layout) -> Layout {
    Layout::Concat(
        Seq::new(
            items.len(),
            |i: int|
                if i == 0 {
                    items[i]
                } else {
                    Layout::Concat(seq![sep, items[i]])
                },
        ),
    )
}

/// `forall params -> body`, which may break before each parameter and
/// before the body.
pub open spec fn l_fun_type(params: Seq<Layout>, body: Layout) -> Layout {
    Layout::Concat(
        seq![
            l_text("forall "@),
            l_sep_by(params, l_softline()),
            l_text(" ->"@),
            l_indented(body),
        ],
    )
}

/// `fun params => body`, which may break before each parameter and before
/// the body.
pub open spec fn l_fun_lit(params: Seq<Layout>, body: Layout) -> Layout {
    Layout::Concat(
        seq![
            l_text("fun "@),
            l_sep_by(params, l_softline()),
            l_text(" =>"@),
            l_indented(body),
        ],
    )
}

/// `fun arg ...`, which may break before every argument.
pub open spec fn l_fun_app(fun: Layout, args: Seq<Layout>) -> Layout {
    Layout::Group(
        Box::new(
            Layout::Concat(
                seq![
                    fun,
                    Layout::Nest(
                        INDENT as nat,
                        Box::new(
                            Layout::Concat(
                                Seq::new(
                                    args.len(),
                                    |i: int| Layout::Concat(seq![Layout::Line, args[i]]),
                                ),
                            ),
                        ),
                    ),
                ],
            ),
        ),
    )
}

/// An argument, with the mark of its plicity before it.
pub open spec fn l_fun_arg(plicity: Plicity, expr: Layout) -> Layout {
    Layout::Concat(seq![l_text(plicity.marker()), expr])
}

/// `(pat : ty)`, with the mark of the plicity before the pattern.
pub open spec fn l_fun_param(plicity: Plicity, pat: Layout, ty: Layout) -> Layout {
    Layout::Concat(
        seq![l_text("("@), l_text(plicity.marker()), pat, l_text(" : "@), ty, l_text(")"@)],
    )
}

/// `(a, b, ...)`, which may break after every comma; `(a,)` for one
/// component.
pub open spec fn l_tuple(elems: Seq<Layout>) -> Layout {
    if elems.len() == 1 {
        Layout::Concat(seq![l_text("("@), elems[0], l_text(",)"@)])
    } else {
        Layout::Group(
            Box::new(
                Layout::Concat(
                    seq![
                        l_text("("@),
                        l_sep_by(elems, Layout::Concat(seq![l_text(","@), Layout::Line])),
                        l_text(")"@),
                    ],
                ),
            ),
        )
    }
}

/// `[a, b, ...]`, which may break after every comma.
pub open spec fn l_list(items: Seq<Layout>) -> Layout {
    Layout::Group(
        Box::new(
            Layout::Concat(
                seq![
                    l_text("["@),
                    l_sep_by(items, Layout::Concat(seq![l_text(","@), Layout::Line])),
                    l_text("]"@),
                ],
            ),
        ),
    )
}

/// `{field, ...}`.
pub open spec fn l_record(fields: Seq<Layout>) -> Layout {
    Layout::Concat(seq![l_text("{"@), l_sep_by(fields, l_text(", "@)), l_text("}"@)])
}

/// `name : ty`.
pub open spec fn l_record_type_field(name: Layout, ty: Layout) -> Layout {
    Layout::Concat(seq![name, l_text(" : "@), ty])
}

/// `name = expr`.
pub open spec fn l_record_lit_field(name: Layout, expr: Layout) -> Layout {
    Layout::Concat(seq![name, l_text(" = "@), expr])
}

/// `scrut.label`.
pub open spec fn l_record_proj(scrut: Layout, label: Layout) -> Layout {
    Layout::Concat(seq![scrut, l_text("."@), label])
}

/// A document of the `pretty` crate.
#[verifier::external_type_specification]
#[verifier::external_body]
#[verifier::reject_recursive_types(A)]
pub struct ExRcDoc<'a, A>(pretty::RcDoc<'a, A>);

/// The text that the layout engine of the `pretty` crate gives for a
/// document and a width of the line: the lines of the document, in which a
/// group stands on one line where it fits into the width.
pub uninterp spec fn rendered(layout: Layout, width: nat) -> Seq<char>;

/// The document in the form that the `pretty` crate takes.
///
/// Trusted: each form of document becomes the document that `RcDoc` builds
/// under the same name: `nil`, `text`, `line`, `hardline`, `concat`, `nest`
/// and `group`.
#[verifier::external_body]
fn to_pretty(doc: &Doc) -> pretty::RcDoc<'static, ()> {
    match doc {
        Doc::Nil => pretty::RcDoc::nil(),
        Doc::Text(text) => pretty::RcDoc::text(text.to_string()),
        Doc::Line => pretty::RcDoc::line(),
        Doc::Hardline => pretty::RcDoc::hardline(),
        Doc::Concat(parts) => pretty::RcDoc::concat(parts.iter().map(to_pretty)),
        Doc::Nest(indent, doc) => to_pretty(doc).nest(*indent as isize),
        Doc::Group(doc) => to_pretty(doc).group(),
    }
}

/// The document laid out in lines of at most `width` columns.
///
/// Trusted: `Doc::pretty` of the `pretty` crate, written out, is the text of
/// the document for that width; it depends on the document and the width
/// alone.
#[verifier::external_body]
pub(crate) fn render(doc: &Doc, width: usize) -> (text: String)
    ensures
        text@ == rendered(doc@, width as nat),
{
    to_pretty(doc).pretty(width).to_string()
}

impl<'core> Doc<'core> {
    /// The document laid out in lines of at most `width` columns.
    pub fn pretty(&self, width: usize) -> (text: String)
        ensures
            text@ == rendered(self@, width as nat),
    {
        render(self, width)
    }
}

/// Builds the documents of surface syntax in an arena.
#[derive(Debug, Copy, Clone)]
pub struct Printer<'core> {
    pub bump: &'core bumpalo::Bump,
}

impl<'core> Printer<'core> {
    /// A printer that allocates in `bump`.
    pub fn new(bump: &'core bumpalo::Bump) -> (p: Self)
        ensures
            p.bump == bump,
    {
        Printer { bump }
    }

    /// The text `s`, which holds no line break.
    pub fn text(&self, s: &str) -> (doc: Doc<'core>)
        ensures
            doc@ == l_text(s@),
    {
        Doc::Text(arena_alloc_str(self.bump, s))
    }

    /// The parts one after the other.
    pub fn concat(&self, parts: Vec<Doc<'core>>) -> (doc: Doc<'core>)
        ensures
            doc@ == Layout::Concat(layouts(parts@)),
    {
        let doc = Doc::Concat(arena_alloc(self.bump, parts));
        assert(doc@->Concat_0 =~= layouts(parts@));
        doc
    }

    /// The document with its line breaks indented by `indent` more.
    pub fn nest(&self, indent: usize, doc: Doc<'core>) -> (r: Doc<'core>)
        ensures
            r@ == Layout::Nest(indent as nat, Box::new(doc@)),
    {
        Doc::Nest(indent, arena_alloc(self.bump, doc))
    }

    /// A space that may become a line break by itself.
    pub fn softline(&self) -> (r: Doc<'core>)
        ensures
            r@ == l_softline(),
    {
        self.group(Doc::Line)
    }

    /// The document as a group.
    pub fn group(&self, doc: Doc<'core>) -> (r: Doc<'core>)
        ensures
            r@ == Layout::Group(Box::new(doc@)),
    {
        Doc::Group(arena_alloc(self.bump, doc))
    }

    /// Each item wrapped: `before`, the item, `after`.
    fn wrap_each(&self, before: Doc<'core>, items: &Vec<Doc<'core>>, after: Doc<'core>) -> (doc:
        Doc<'core>)
        ensures
            doc@ == Layout::Concat(
                Seq::new(
                    items@.len(),
                    |i: int| Layout::Concat(seq![before@, items@[i]@, after@]),
                ),
            ),
    {
        let mut parts: Vec<Doc<'core>> = Vec::new();
        let mut i: usize = 0;
        while i < items.len()
            invariant
                i <= items@.len(),
                parts@.len() == i,
                forall|j: int|
                    0 <= j < i ==> (#[trigger] parts@[j])@ == Layout::Concat(
                        seq![before@, items@[j]@, after@],
                    ),
            decreases items@.len() - i,
        {
            let part = self.concat(vec![before, items[i], after]);
            assert(layouts(seq![before, items@[i as int], after]) =~= seq![
                before@,
                items@[i as int]@,
                after@,
            ]);
            parts.push(part);
            i += 1;
        }
        let doc = self.concat(parts);
        assert(layouts(parts@) =~= Seq::new(
            items@.len(),
            |i: int| Layout::Concat(seq![before@, items@[i]@, after@]),
        ));
        doc
    }

    /// The items with `sep` before each but the first.
    pub fn sep_by(&self, items: &Vec<Doc<'core>>, sep: Doc<'core>) -> (doc: Doc<'core>)
        ensures
            doc@ == l_sep_by(layouts(items@), sep@),
    {
        let mut parts: Vec<Doc<'core>> = Vec::new();
        let mut i: usize = 0;
        while i < items.len()
            invariant
                i <= items@.len(),
                parts@.len() == i,
                forall|j: int|
                    0 <= j < i ==> (#[trigger] parts@[j])@ == (if j == 0 {
                        items@[j]@
                    } else {
                        Layout::Concat(seq![sep@, items@[j]@])
                    }),
            decreases items@.len() - i,
        {
            if i == 0 {
                parts.push(items[i]);
            } else {
                let part = self.concat(vec![sep, items[i]]);
                assert(layouts(seq![sep, items@[i as int]]) =~= seq![sep@, items@[i as int]@]);
                parts.push(part);
            }
            i += 1;
        }
        let doc = self.concat(parts);
        assert(layouts(parts@) =~= l_sep_by(layouts(items@), sep@)->Concat_0);
        doc
    }

    /// `doc` in parentheses.
    pub fn paren_expr(&self, doc: Doc<'core>) -> (r: Doc<'core>)
        ensures
            r@ == l_paren(doc@),
    {
        let parts = vec![self.text("("), doc, self.text(")")];
        assert(layouts(parts@) =~= l_paren(doc@)->Concat_0);
        self.concat(parts)
    }

    /// `expr : ty`.
    pub fn ann_expr(&self, expr: Doc<'core>, ty: Doc<'core>) -> (r: Doc<'core>)
        ensures
            r@ == l_ann(expr@, ty@),
    {
        let parts = vec![expr, self.text(" : "), ty];
        assert(layouts(parts@) =~= l_ann(expr@, ty@)->Concat_0);
        self.concat(parts)
    }

    /// `let pat : ty = init;`.
    pub fn let_stmt(&self, pat: Doc<'core>, ty: Doc<'core>, init: Doc<'core>) -> (r: Doc<'core>)
        ensures
            r@ == l_let_stmt(pat@, ty@, init@),
    {
        let tail = vec![Doc::Line, self.text("= "), init];
        assert(layouts(tail@) =~= seq![Layout::Line, l_text("= "@), init@]);
        let tail = self.nest(INDENT, self.concat(tail));
        let parts = vec![self.text("let "), pat, self.text(" : "), ty, tail, self.text(";")];
        assert(layouts(parts@) =~= seq![
            l_text("let "@),
            pat@,
            l_text(" : "@),
            ty@,
            tail@,
            l_text(";"@),
        ]);
        self.group(self.concat(parts))
    }

    /// `stmt`, and `body` on the next line.
    pub fn let_expr(&self, stmt: Doc<'core>, body: Doc<'core>) -> (r: Doc<'core>)
        ensures
            r@ == l_let_expr(stmt@, body@),
    {
        let parts = vec![stmt, Doc::Hardline, body];
        assert(layouts(parts@) =~= l_let_expr(stmt@, body@)->Concat_0);
        self.concat(parts)
    }

    /// The statements, each on a line of its own, and then `result`.
    pub fn block(&self, stmts: &Vec<Doc<'core>>, result: Doc<'core>) -> (r: Doc<'core>)
        ensures
            r@ == l_block(layouts(stmts@), result@),
    {
        let mut parts: Vec<Doc<'core>> = Vec::new();
        let mut i: usize = 0;
        while i < stmts.len()
            invariant
                i <= stmts@.len(),
                parts@.len() == i,
                forall|j: int|
                    0 <= j < i ==> (#[trigger] parts@[j])@ == Layout::Concat(
                        seq![stmts@[j]@, Layout::Hardline],
                    ),
            decreases stmts@.len() - i,
        {
            let line = vec![stmts[i], Doc::Hardline];
            assert(layouts(line@) =~= seq![stmts@[i as int]@, Layout::Hardline]);
            parts.push(self.concat(line));
            i += 1;
        }
        parts.push(result);
        assert(layouts(parts@) =~= l_block(layouts(stmts@), result@)->Concat_0);
        self.concat(parts)
    }

    /// `pat => expr`.
    pub fn match_case(&self, pat: Doc<'core>, expr: Doc<'core>) -> (r: Doc<'core>)
        ensures
            r@ == l_match_case(pat@, expr@),
    {
        let parts = vec![pat, self.text(" => "), expr];
        assert(layouts(parts@) =~= l_match_case(pat@, expr@)->Concat_0);
        self.concat(parts)
    }

    /// `match scrut { case, ... }`.
    pub fn match_expr(&self, scrut: Doc<'core>, cases: &Vec<Doc<'core>>) -> (r: Doc<'core>)
        ensures
            r@ == l_match(scrut@, layouts(cases@)),
    {
        let lines = self.wrap_each(Doc::Hardline, cases, self.text(","));
        let body = self.nest(INDENT, lines);
        assert(lines@->Concat_0 =~= Seq::new(
            cases@.len(),
            |i: int| Layout::Concat(seq![Layout::Hardline, layouts(cases@)[i], l_text(","@)]),
        ));
        let parts = vec![
            self.text("match "),
            scrut,
            self.text(" {"),
            body,
            Doc::Hardline,
            self.text("}"),
        ];
        assert(layouts(parts@) =~= l_match(scrut@, layouts(cases@))->Concat_0);
        self.concat(parts)
    }

    /// `lhs -> rhs`.
    pub fn arrow_expr(&self, plicity: Plicity, lhs: Doc<'core>, rhs: Doc<'core>) -> (r: Doc<
        'core,
    >)
        ensures
            r@ == l_arrow(plicity, lhs@, rhs@),
    {
        let parts = vec![Doc::Text(plicity.pretty()), lhs, self.text(" -> "), rhs];
        assert(layouts(parts@) =~= l_arrow(plicity, lhs@, rhs@)->Concat_0);
        self.concat(parts)
    }

    /// What follows the parameters of a function: `arrow`, and the body,
    /// which may go to a line of its own.
    fn binder(
        &self,
        keyword: &'static str,
        params: &Vec<Doc<'core>>,
        arrow: &'static str,
        body: Doc<'core>,
    ) -> (r: Doc<'core>)
        ensures
            r@ == Layout::Concat(
                seq![
                    l_text(keyword@),
                    l_sep_by(layouts(params@), l_softline()),
                    l_text(arrow@),
                    l_indented(body@),
                ],
            ),
    {
        let tail = vec![Doc::Line, body];
        assert(layouts(tail@) =~= seq![Layout::Line, body@]);
        let tail = self.group(self.nest(INDENT, self.concat(tail)));
        let params = self.sep_by(params, self.softline());
        let parts = vec![Doc::Text(keyword), params, Doc::Text(arrow), tail];
        assert(layouts(parts@) =~= seq![l_text(keyword@), params@, l_text(arrow@), tail@]);
        self.concat(parts)
    }

    /// `forall params -> body`.
    pub fn fun_type_expr(&self, params: &Vec<Doc<'core>>, body: Doc<'core>) -> (r: Doc<'core>)
        ensures
            r@ == l_fun_type(layouts(params@), body@),
    {
        self.binder("forall ", params, " ->", body)
    }

    /// `fun params => body`.
    pub fn fun_lit_expr(&self, params: &Vec<Doc<'core>>, body: Doc<'core>) -> (r: Doc<'core>)
        ensures
            r@ == l_fun_lit(layouts(params@), body@),
    {
        self.binder("fun ", params, " =>", body)
    }

    /// `fun arg ...`.
    pub fn fun_app_expr(&self, fun: Doc<'core>, args: &Vec<Doc<'core>>) -> (r: Doc<'core>)
        ensures
            r@ == l_fun_app(fun@, layouts(args@)),
    {
        let mut parts: Vec<Doc<'core>> = Vec::new();
        let mut i: usize = 0;
        while i < args.len()
            invariant
                i <= args@.len(),
                parts@.len() == i,
                forall|j: int|
                    0 <= j < i ==> (#[trigger] parts@[j])@ == Layout::Concat(
                        seq![Layout::Line, args@[j]@],
                    ),
            decreases args@.len() - i,
        {
            let part = vec![Doc::Line, args[i]];
            assert(layouts(part@) =~= seq![Layout::Line, args@[i as int]@]);
            parts.push(self.concat(part));
            i += 1;
        }
        assert(layouts(parts@) =~= Seq::new(
            args@.len(),
            |i: int| Layout::Concat(seq![Layout::Line, layouts(args@)[i]]),
        ));
        let tail = self.nest(INDENT, self.concat(parts));
        let whole = vec![fun, tail];
        assert(layouts(whole@) =~= seq![fun@, tail@]);
        self.group(self.concat(whole))
    }

    /// An argument of a function.
    pub fn fun_arg(&self, plicity: Plicity, expr: Doc<'core>) -> (r: Doc<'core>)
        ensures
            r@ == l_fun_arg(plicity, expr@),
    {
        let parts = vec![Doc::Text(plicity.pretty()), expr];
        assert(layouts(parts@) =~= l_fun_arg(plicity, expr@)->Concat_0);
        self.concat(parts)
    }

    /// A parameter of a function: `(pat : ty)`.
    pub fn fun_param(&self, plicity: Plicity, pat: Doc<'core>, ty: Doc<'core>) -> (r: Doc<'core>)
        ensures
            r@ == l_fun_param(plicity, pat@, ty@),
    {
        let parts = vec![
            self.text("("),
            Doc::Text(plicity.pretty()),
            pat,
            self.text(" : "),
            ty,
            self.text(")"),
        ];
        assert(layouts(parts@) =~= l_fun_param(plicity, pat@, ty@)->Concat_0);
        self.concat(parts)
    }

    /// A tuple: `(a, b, ...)`, or `(a,)` for one component.
    pub fn tuple_expr(&self, elems: &Vec<Doc<'core>>) -> (r: Doc<'core>)
        ensures
            r@ == l_tuple(layouts(elems@)),
    {
        if elems.len() == 1 {
            let parts = vec![self.text("("), elems[0], self.text(",)")];
            assert(layouts(parts@) =~= l_tuple(layouts(elems@))->Concat_0);
            self.concat(parts)
        } else {
            let sep = vec![self.text(","), Doc::Line];
            assert(layouts(sep@) =~= seq![l_text(","@), Layout::Line]);
            let inner = self.sep_by(elems, self.concat(sep));
            let parts = vec![self.text("("), inner, self.text(")")];
            assert(layouts(parts@) =~= seq![l_text("("@), inner@, l_text(")"@)]);
            self.group(self.concat(parts))
        }
    }

    /// A list: `[a, b, ...]`.
    pub fn list_expr(&self, items: &Vec<Doc<'core>>) -> (r: Doc<'core>)
        ensures
            r@ == l_list(layouts(items@)),
    {
        let sep = vec![self.text(","), Doc::Line];
        assert(layouts(sep@) =~= seq![l_text(","@), Layout::Line]);
        let inner = self.sep_by(items, self.concat(sep));
        let parts = vec![self.text("["), inner, self.text("]")];
        assert(layouts(parts@) =~= seq![l_text("["@), inner@, l_text("]"@)]);
        self.group(self.concat(parts))
    }

    /// A record: `{field, ...}`.
    pub fn record_expr(&self, fields: &Vec<Doc<'core>>) -> (r: Doc<'core>)
        ensures
            r@ == l_record(layouts(fields@)),
    {
        let inner = self.sep_by(fields, self.text(", "));
        let parts = vec![self.text("{"), inner, self.text("}")];
        assert(layouts(parts@) =~= l_record(layouts(fields@))->Concat_0);
        self.concat(parts)
    }

    /// A field of a record type: `name : ty`.
    pub fn record_type_field(&self, name: Doc<'core>, ty: Doc<'core>) -> (r: Doc<'core>)
        ensures
            r@ == l_record_type_field(name@, ty@),
    {
        let parts = vec![name, self.text(" : "), ty];
        assert(layouts(parts@) =~= l_record_type_field(name@, ty@)->Concat_0);
        self.concat(parts)
    }

    /// A field of a record: `name = expr`.
    pub fn record_lit_field(&self, name: Doc<'core>, expr: Doc<'core>) -> (r: Doc<'core>)
        ensures
            r@ == l_record_lit_field(name@, expr@),
    {
        let parts = vec![name, self.text(" = "), expr];
        assert(layouts(parts@) =~= l_record_lit_field(name@, expr@)->Concat_0);
        self.concat(parts)
    }

    /// A projection: `scrut.label`.
    pub fn record_proj_expr(&self, scrut: Doc<'core>, label: Doc<'core>) -> (r: Doc<'core>)
        ensures
            r@ == l_record_proj(scrut@, label@),
    {
        let parts = vec![scrut, self.text("."), label];
        assert(layouts(parts@) =~= l_record_proj(scrut@, label@)->Concat_0);
        self.concat(parts)
    }
}

} // verus!
