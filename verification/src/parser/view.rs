//! The syntax tree as plain mathematical values: sequences in place of
//! vectors, and spans as two numbers. Contracts speak of these.

use crate::parser::error::{Error, ErrorType};
use crate::parser::grammar::{Cursor, Parsed};
use crate::parser::parse_node::{
    Block, Declaration, DictionaryKey, ElseBlock, Expression, FuncBlock, FuncDecl, IfStatement,
    IdentKeyword, Keyword, Number, ParseNode, RealLiteral, Statement, SuffixType, Symbol,
    SymbolKeyword, VarDecl, VarNameType,
    WhileStatement,
};
use crate::source::Stream;
use crate::string_name::StringName;
use vstd::prelude::*;

verus! {

/// A piece of syntax with its span. The span counts bytes of the source, or,
/// in the grammar, characters of the stream.
pub struct Spanned<T> {
    pub data: T,
    pub start: nat,
    pub end: nat,
}

/// An expression.
pub enum ExpressionView {
    Nothing,
    Bool(bool),
    Int(u64),
    Real(RealLiteral),
    String(Seq<char>),
    Char(char),
    Array(Seq<Spanned<ExpressionView>>),
    Dictionary(Seq<(Spanned<DictionaryKeyView>, Spanned<ExpressionView>)>),
    Variable(StringName),
    Binary { left: Box<Spanned<ExpressionView>>, right: Box<Spanned<ExpressionView>>, operator: SymbolKeyword },
    Unary { operand: Box<Spanned<ExpressionView>>, operator: Symbol },
    Suffix { node: Box<Spanned<ExpressionView>>, suffix: SuffixTypeView },
    Grouping(Box<Spanned<ExpressionView>>),
}

/// The key of an entry of a dictionary.
pub enum DictionaryKeyView {
    Ident(StringName),
    Expr(Box<ExpressionView>),
}

/// What follows an expression.
pub enum SuffixTypeView {
    Call(Seq<Spanned<ExpressionView>>),
    Index(Box<Spanned<ExpressionView>>),
    Property(StringName),
}

/// The names that a declaration binds.
pub enum VarNameTypeView {
    Ident(Option<StringName>),
    Array { start_names: Seq<Spanned<Option<StringName>>>, end_names: Seq<Spanned<Option<StringName>>> },
    Object(Seq<(StringName, Spanned<StringName>)>),
}

/// A pattern of names with the value that they are bound to.
pub struct VarDeclView {
    pub pattern: Spanned<VarNameTypeView>,
    pub value: Option<Spanned<ExpressionView>>,
}

/// A declaration of a function.
pub struct FuncDeclView {
    pub name: Spanned<StringName>,
    pub params: Seq<Spanned<VarDeclView>>,
    pub block: Spanned<FuncBlockView>,
}

/// What a function does.
pub enum FuncBlockView {
    Block(BlockView),
    ReturnExpr(ExpressionView),
}

/// A declaration.
pub enum DeclarationView {
    Var(VarDeclView),
    Func(FuncDeclView),
}

/// A statement.
pub enum StatementView {
    Declaration(DeclarationView),
    Expression(ExpressionView),
    If(IfStatementView),
    While(WhileStatementView),
    Block(BlockView),
}

/// Statements in curly brackets.
pub struct BlockView {
    pub statements: Seq<Spanned<StatementView>>,
}

/// A condition with its blocks.
pub struct IfStatementView {
    pub condition: Spanned<ExpressionView>,
    pub met_block: Spanned<BlockView>,
    pub else_block: Option<Spanned<ElseBlockView>>,
}

/// What stands for the case that a condition does not hold.
pub enum ElseBlockView {
    Block(BlockView),
    If(Box<IfStatementView>),
}

/// A loop with its blocks.
pub struct WhileStatementView {
    pub condition: Spanned<ExpressionView>,
    pub loop_block: Spanned<BlockView>,
    pub on_break: Option<Spanned<BlockView>>,
    pub on_continue: Option<Spanned<BlockView>>,
}

/// A syntax error as plain values.
pub struct ErrorView {
    pub error: ErrorType,
    pub start: nat,
    pub end: nat,
}

impl<T: View> View for ParseNode<T> {
    type V = Spanned<T::V>;

    open spec fn view(&self) -> Spanned<T::V> {
        Spanned { data: self.data@, start: self.range.start as nat, end: self.range.end as nat }
    }
}

impl View for StringName {
    type V = StringName;

    open spec fn view(&self) -> StringName {
        *self
    }
}

impl View for Symbol {
    type V = Symbol;

    open spec fn view(&self) -> Symbol {
        *self
    }
}

impl View for Keyword {
    type V = Keyword;

    open spec fn view(&self) -> Keyword {
        *self
    }
}

impl View for SymbolKeyword {
    type V = SymbolKeyword;

    open spec fn view(&self) -> SymbolKeyword {
        *self
    }
}

impl View for IdentKeyword {
    type V = IdentKeyword;

    open spec fn view(&self) -> IdentKeyword {
        *self
    }
}

impl View for Number {
    type V = Number;

    open spec fn view(&self) -> Number {
        *self
    }
}

impl View for Expression {
    type V = ExpressionView;

    open spec fn view(&self) -> ExpressionView {
        expression_view(*self)
    }
}

impl View for DictionaryKey {
    type V = DictionaryKeyView;

    open spec fn view(&self) -> DictionaryKeyView {
        dictionary_key_view(*self)
    }
}

impl View for Error {
    type V = ErrorView;

    open spec fn view(&self) -> ErrorView {
        ErrorView { error: self.error, start: self.range.start as nat, end: self.range.end as nat }
    }
}

// ---------------------------------------------------------------------------
// From spans in characters to spans in bytes

/// The piece with its span in bytes of the source: from the start of its first
/// character to the end of its last.
pub open spec fn place<T>(piece: Spanned<T>, src: Stream) -> Spanned<T> {
    Spanned { data: piece.data, start: src.start_of(piece.start), end: src.end_of(piece.end) }
}

/// What was read, with its span in bytes of the source.
pub open spec fn placed<T>(read: Parsed<Spanned<T>>, src: Stream) -> Parsed<Spanned<T>> {
    match read {
        Parsed::Hit { value, next } => Parsed::Hit { value: place(value, src), next },
        Parsed::Miss => Parsed::Miss,
        Parsed::Fail { error, start, end } => Parsed::Fail {
            error,
            start: src.start_of(start),
            end: src.end_of(end),
        },
    }
}

/// What a parsing function returned, with the cursor that it left.
pub open spec fn outcome<T: View>(
    r: Result<Option<ParseNode<T>>, Error>,
    cursor: Cursor,
) -> Parsed<Spanned<T::V>> {
    match r {
        Ok(Some(node)) => Parsed::Hit { value: node@, next: cursor },
        Ok(None) => Parsed::Miss,
        Err(e) => Parsed::Fail {
            error: e.error,
            start: e.range.start as nat,
            end: e.range.end as nat,
        },
    }
}

/// What a parsing function that always finds or fails returned, with the cursor
/// that it left.
pub open spec fn arrived<T: View>(r: Result<ParseNode<T>, Error>, cursor: Cursor) -> Parsed<
    Spanned<T::V>,
> {
    match r {
        Ok(node) => Parsed::Hit { value: node@, next: cursor },
        Err(e) => Parsed::Fail {
            error: e.error,
            start: e.range.start as nat,
            end: e.range.end as nat,
        },
    }
}

/// What a parsing function that cannot fail returned, with the cursor that it
/// left.
pub open spec fn found<T: View>(r: Option<ParseNode<T>>, cursor: Cursor) -> Parsed<
    Spanned<T::V>,
> {
    match r {
        Some(node) => Parsed::Hit { value: node@, next: cursor },
        None => Parsed::Miss,
    }
}

// ---------------------------------------------------------------------------
// From the tree to its view

/// The node of a tree with the view of its data.
pub open spec fn spanned<T, V>(node: ParseNode<T>, data: V) -> Spanned<V> {
    Spanned { data, start: node.range.start as nat, end: node.range.end as nat }
}

/// The view of an expression.
pub open spec fn expression_view(e: Expression) -> ExpressionView
    decreases e,
{
    match e {
        Expression::Nothing => ExpressionView::Nothing,
        Expression::Bool(b) => ExpressionView::Bool(b),
        Expression::Int(i) => ExpressionView::Int(i),
        Expression::Real(r) => ExpressionView::Real(r),
        Expression::String(s) => ExpressionView::String(s@),
        Expression::Char(c) => ExpressionView::Char(c),
        Expression::Array(items) => ExpressionView::Array(expression_nodes_view(items@)),
        Expression::Dictionary(entries) => ExpressionView::Dictionary(
            dictionary_entries_view(entries@),
        ),
        Expression::Variable(name) => ExpressionView::Variable(name),
        Expression::Binary(b) => ExpressionView::Binary {
            left: Box::new(spanned(*b.left, expression_view(b.left.data))),
            right: Box::new(spanned(*b.right, expression_view(b.right.data))),
            operator: b.operator,
        },
        Expression::Unary(u) => ExpressionView::Unary {
            operand: Box::new(spanned(*u.operand, expression_view(u.operand.data))),
            operator: u.operator,
        },
        Expression::Suffix(s) => ExpressionView::Suffix {
            node: Box::new(spanned(*s.node, expression_view(s.node.data))),
            suffix: match s.suffix {
                SuffixType::Call(args) => SuffixTypeView::Call(expression_nodes_view(args@)),
                SuffixType::Index(index) => SuffixTypeView::Index(
                    Box::new(spanned(*index, expression_view(index.data))),
                ),
                SuffixType::Property(name) => SuffixTypeView::Property(name),
            },
        },
        Expression::Grouping(inner) => ExpressionView::Grouping(
            Box::new(spanned(*inner, expression_view(inner.data))),
        ),
    }
}

/// The views of expressions.
pub open spec fn expression_nodes_view(nodes: Seq<ParseNode<Expression>>) -> Seq<
    Spanned<ExpressionView>,
>
    decreases nodes,
{
    Seq::new(
        nodes.len(),
        |i: int|
            if 0 <= i < nodes.len() {
                spanned(nodes[i], expression_view(nodes[i].data))
            } else {
                arbitrary()
            },
    )
}

/// The views of the entries of a dictionary.
pub open spec fn dictionary_entries_view(
    entries: Seq<(ParseNode<DictionaryKey>, ParseNode<Expression>)>,
) -> Seq<(Spanned<DictionaryKeyView>, Spanned<ExpressionView>)>
    decreases entries,
{
    Seq::new(
        entries.len(),
        |i: int|
            if 0 <= i < entries.len() {
                dictionary_entry_view(entries[i])
            } else {
                arbitrary()
            },
    )
}

/// The view of an entry of a dictionary.
pub open spec fn dictionary_entry_view(
    entry: (ParseNode<DictionaryKey>, ParseNode<Expression>),
) -> (Spanned<DictionaryKeyView>, Spanned<ExpressionView>)
    decreases entry,
{
    (
        spanned(entry.0, dictionary_key_view(entry.0.data)),
        spanned(entry.1, expression_view(entry.1.data)),
    )
}

/// The view of the key of an entry.
pub open spec fn dictionary_key_view(k: DictionaryKey) -> DictionaryKeyView
    decreases k,
{
    match k {
        DictionaryKey::Ident(name) => DictionaryKeyView::Ident(name),
        DictionaryKey::Expr(e) => DictionaryKeyView::Expr(Box::new(expression_view(e))),
    }
}

/// The expression with every span in it in bytes of the source.
pub open spec fn place_expression(e: ExpressionView, src: Stream) -> ExpressionView
    decreases e,
{
    match e {
        ExpressionView::Array(items) => ExpressionView::Array(place_expression_nodes(items, src)),
        ExpressionView::Dictionary(entries) => ExpressionView::Dictionary(
            place_dictionary_entries(entries, src),
        ),
        ExpressionView::Binary { left, right, operator } => ExpressionView::Binary {
            left: Box::new(place_expression_node(*left, src)),
            right: Box::new(place_expression_node(*right, src)),
            operator,
        },
        ExpressionView::Unary { operand, operator } => ExpressionView::Unary {
            operand: Box::new(place_expression_node(*operand, src)),
            operator,
        },
        ExpressionView::Suffix { node, suffix } => ExpressionView::Suffix {
            node: Box::new(place_expression_node(*node, src)),
            suffix: match suffix {
                SuffixTypeView::Call(args) => SuffixTypeView::Call(
                    place_expression_nodes(args, src),
                ),
                SuffixTypeView::Index(index) => SuffixTypeView::Index(
                    Box::new(place_expression_node(*index, src)),
                ),
                SuffixTypeView::Property(name) => SuffixTypeView::Property(name),
            },
        },
        ExpressionView::Grouping(inner) => ExpressionView::Grouping(
            Box::new(place_expression_node(*inner, src)),
        ),
        other => other,
    }
}

/// The expression and its span in bytes of the source.
pub open spec fn place_expression_node(
    node: Spanned<ExpressionView>,
    src: Stream,
) -> Spanned<ExpressionView>
    decreases node,
{
    Spanned {
        data: place_expression(node.data, src),
        start: src.start_of(node.start),
        end: src.end_of(node.end),
    }
}

/// The expressions with their spans in bytes of the source.
pub open spec fn place_expression_nodes(
    nodes: Seq<Spanned<ExpressionView>>,
    src: Stream,
) -> Seq<Spanned<ExpressionView>>
    decreases nodes,
{
    Seq::new(
        nodes.len(),
        |i: int|
            if 0 <= i < nodes.len() {
                place_expression_node(nodes[i], src)
            } else {
                arbitrary()
            },
    )
}

/// The entry with its spans in bytes of the source.
pub open spec fn place_dictionary_entry(
    entry: (Spanned<DictionaryKeyView>, Spanned<ExpressionView>),
    src: Stream,
) -> (Spanned<DictionaryKeyView>, Spanned<ExpressionView>)
    decreases entry,
{
    (
        Spanned {
            data: place_dictionary_key(entry.0.data, src),
            start: src.start_of(entry.0.start),
            end: src.end_of(entry.0.end),
        },
        place_expression_node(entry.1, src),
    )
}

/// The entries with their spans in bytes of the source.
pub open spec fn place_dictionary_entries(
    entries: Seq<(Spanned<DictionaryKeyView>, Spanned<ExpressionView>)>,
    src: Stream,
) -> Seq<(Spanned<DictionaryKeyView>, Spanned<ExpressionView>)>
    decreases entries,
{
    Seq::new(
        entries.len(),
        |i: int|
            if 0 <= i < entries.len() {
                place_dictionary_entry(entries[i], src)
            } else {
                arbitrary()
            },
    )
}

/// The key with every span in it in bytes of the source.
pub open spec fn place_dictionary_key(k: DictionaryKeyView, src: Stream) -> DictionaryKeyView
    decreases k,
{
    match k {
        DictionaryKeyView::Ident(name) => DictionaryKeyView::Ident(name),
        DictionaryKeyView::Expr(e) => DictionaryKeyView::Expr(Box::new(place_expression(*e, src))),
    }
}

/// An expression that was read, with all its spans in bytes of the source.
pub open spec fn placed_expression(
    read: Parsed<Spanned<ExpressionView>>,
    src: Stream,
) -> Parsed<Spanned<ExpressionView>> {
    match read {
        Parsed::Hit { value, next } => Parsed::Hit { value: place_expression_node(value, src), next },
        Parsed::Miss => Parsed::Miss,
        Parsed::Fail { error, start, end } => Parsed::Fail {
            error,
            start: src.start_of(start),
            end: src.end_of(end),
        },
    }
}

// ---------------------------------------------------------------------------
// Spans that lie in the source

/// A span that is in order and ends no later than `limit`.
pub open spec fn span_within<T>(piece: Spanned<T>, limit: nat) -> bool {
    piece.start <= piece.end <= limit
}

/// Every span in the expression is in order and ends no later than `limit`.
pub open spec fn expression_within(e: ExpressionView, limit: nat) -> bool
    decreases e,
{
    match e {
        ExpressionView::Array(items) => expression_nodes_within(items, limit),
        ExpressionView::Dictionary(entries) => dictionary_entries_within(entries, limit),
        ExpressionView::Binary { left, right, operator } => {
            &&& expression_node_within(*left, limit)
            &&& expression_node_within(*right, limit)
        },
        ExpressionView::Unary { operand, operator } => expression_node_within(*operand, limit),
        ExpressionView::Suffix { node, suffix } => {
            &&& expression_node_within(*node, limit)
            &&& match suffix {
                SuffixTypeView::Call(args) => expression_nodes_within(args, limit),
                SuffixTypeView::Index(index) => expression_node_within(*index, limit),
                SuffixTypeView::Property(name) => true,
            }
        },
        ExpressionView::Grouping(inner) => expression_node_within(*inner, limit),
        _ => true,
    }
}

/// The expression's span and every span in it are in order and end no later
/// than `limit`.
pub open spec fn expression_node_within(node: Spanned<ExpressionView>, limit: nat) -> bool
    decreases node,
{
    &&& span_within(node, limit)
    &&& expression_within(node.data, limit)
}

/// Every span in the expressions is in order and ends no later than `limit`.
pub open spec fn expression_nodes_within(nodes: Seq<Spanned<ExpressionView>>, limit: nat) -> bool
    decreases nodes,
{
    forall|i: int| 0 <= i < nodes.len() ==> expression_node_within(#[trigger] nodes[i], limit)
}

/// Every span in the entry is in order and ends no later than `limit`.
pub open spec fn dictionary_entry_within(
    entry: (Spanned<DictionaryKeyView>, Spanned<ExpressionView>),
    limit: nat,
) -> bool
    decreases entry,
{
    &&& span_within(entry.0, limit)
    &&& dictionary_key_within(entry.0.data, limit)
    &&& expression_node_within(entry.1, limit)
}

/// Every span in the entries is in order and ends no later than `limit`.
pub open spec fn dictionary_entries_within(
    entries: Seq<(Spanned<DictionaryKeyView>, Spanned<ExpressionView>)>,
    limit: nat,
) -> bool
    decreases entries,
{
    forall|i: int| 0 <= i < entries.len() ==> dictionary_entry_within(#[trigger] entries[i], limit)
}

/// Every span in the key is in order and ends no later than `limit`.
pub open spec fn dictionary_key_within(k: DictionaryKeyView, limit: nat) -> bool
    decreases k,
{
    match k {
        DictionaryKeyView::Ident(name) => true,
        DictionaryKeyView::Expr(e) => expression_within(*e, limit),
    }
}

// ---------------------------------------------------------------------------
// Statements and declarations

impl View for VarNameType {
    type V = VarNameTypeView;

    open spec fn view(&self) -> VarNameTypeView {
        match self {
            VarNameType::Ident(name) => VarNameTypeView::Ident(*name),
            VarNameType::Array { start_names, end_names } => VarNameTypeView::Array {
                start_names: start_names@.map_values(|n: ParseNode<Option<StringName>>| n@),
                end_names: end_names@.map_values(|n: ParseNode<Option<StringName>>| n@),
            },
            VarNameType::Object(fields) => VarNameTypeView::Object(
                fields@.map_values(|f: (StringName, ParseNode<StringName>)| (f.0, f.1@)),
            ),
        }
    }
}

impl View for VarDecl {
    type V = VarDeclView;

    open spec fn view(&self) -> VarDeclView {
        VarDeclView {
            pattern: self.pattern@,
            value: match self.value {
                Some(value) => Some(value@),
                None => None,
            },
        }
    }
}

/// The view of a statement.
pub open spec fn statement_view(s: Statement) -> StatementView
    decreases s,
{
    match s {
        Statement::Declaration(d) => StatementView::Declaration(declaration_view(d)),
        Statement::Expression(e) => StatementView::Expression(e@),
        Statement::If(i) => StatementView::If(if_view(i)),
        Statement::While(w) => StatementView::While(while_view(w)),
        Statement::Block(b) => StatementView::Block(block_view(b)),
    }
}

/// The view of a declaration.
pub open spec fn declaration_view(d: Declaration) -> DeclarationView
    decreases d,
{
    match d {
        Declaration::Var(v) => DeclarationView::Var(v@),
        Declaration::Func(f) => DeclarationView::Func(func_decl_view(f)),
    }
}

/// The view of a declaration of a function.
pub open spec fn func_decl_view(f: FuncDecl) -> FuncDeclView
    decreases f,
{
    FuncDeclView {
        name: f.name@,
        params: f.params@.map_values(|p: ParseNode<VarDecl>| p@),
        block: spanned(f.block, func_block_view(f.block.data)),
    }
}

/// The view of what a function does.
pub open spec fn func_block_view(b: FuncBlock) -> FuncBlockView
    decreases b,
{
    match b {
        FuncBlock::Block(b) => FuncBlockView::Block(block_view(b)),
        FuncBlock::ReturnExpr(e) => FuncBlockView::ReturnExpr(e@),
    }
}

/// The view of a loop.
pub open spec fn while_view(w: WhileStatement) -> WhileStatementView
    decreases w,
{
    WhileStatementView {
        condition: w.condition@,
        loop_block: spanned(w.loop_block, block_view(w.loop_block.data)),
        on_break: match w.on_break {
            Some(b) => Some(spanned(b, block_view(b.data))),
            None => None,
        },
        on_continue: match w.on_continue {
            Some(b) => Some(spanned(b, block_view(b.data))),
            None => None,
        },
    }
}

/// The view of a block.
pub open spec fn block_view(b: Block) -> BlockView
    decreases b,
{
    BlockView { statements: statements_view(b.statements@) }
}

/// The views of statements.
pub open spec fn statements_view(nodes: Seq<ParseNode<Statement>>) -> Seq<Spanned<StatementView>>
    decreases nodes,
{
    Seq::new(
        nodes.len(),
        |i: int|
            if 0 <= i < nodes.len() {
                spanned(nodes[i], statement_view(nodes[i].data))
            } else {
                arbitrary()
            },
    )
}

/// The view of a condition with its blocks.
pub open spec fn if_view(i: IfStatement) -> IfStatementView
    decreases i,
{
    IfStatementView {
        condition: i.condition@,
        met_block: spanned(i.met_block, block_view(i.met_block.data)),
        else_block: match i.else_block {
            Some(e) => Some(spanned(e, else_view(e.data))),
            None => None,
        },
    }
}

/// The view of what stands for the case that a condition does not hold.
pub open spec fn else_view(e: ElseBlock) -> ElseBlockView
    decreases e,
{
    match e {
        ElseBlock::Block(b) => ElseBlockView::Block(block_view(b)),
        ElseBlock::If(inner) => ElseBlockView::If(Box::new(if_view(*inner))),
    }
}

impl View for Statement {
    type V = StatementView;

    open spec fn view(&self) -> StatementView {
        statement_view(*self)
    }
}

impl View for Block {
    type V = BlockView;

    open spec fn view(&self) -> BlockView {
        block_view(*self)
    }
}

impl View for IfStatement {
    type V = IfStatementView;

    open spec fn view(&self) -> IfStatementView {
        if_view(*self)
    }
}

impl View for ElseBlock {
    type V = ElseBlockView;

    open spec fn view(&self) -> ElseBlockView {
        else_view(*self)
    }
}

impl View for WhileStatement {
    type V = WhileStatementView;

    open spec fn view(&self) -> WhileStatementView {
        while_view(*self)
    }
}

impl View for FuncBlock {
    type V = FuncBlockView;

    open spec fn view(&self) -> FuncBlockView {
        func_block_view(*self)
    }
}

impl View for FuncDecl {
    type V = FuncDeclView;

    open spec fn view(&self) -> FuncDeclView {
        func_decl_view(*self)
    }
}

impl View for Declaration {
    type V = DeclarationView;

    open spec fn view(&self) -> DeclarationView {
        declaration_view(*self)
    }
}

/// The pattern with every span in it in bytes of the source.
pub open spec fn place_pattern(p: VarNameTypeView, src: Stream) -> VarNameTypeView {
    match p {
        VarNameTypeView::Ident(name) => VarNameTypeView::Ident(name),
        VarNameTypeView::Array { start_names, end_names } => VarNameTypeView::Array {
            start_names: start_names.map_values(|n: Spanned<Option<StringName>>| place(n, src)),
            end_names: end_names.map_values(|n: Spanned<Option<StringName>>| place(n, src)),
        },
        VarNameTypeView::Object(fields) => VarNameTypeView::Object(
            fields.map_values(|f: (StringName, Spanned<StringName>)| (f.0, place(f.1, src))),
        ),
    }
}

/// The pattern and its span in bytes of the source.
pub open spec fn place_pattern_node(p: Spanned<VarNameTypeView>, src: Stream) -> Spanned<
    VarNameTypeView,
> {
    Spanned {
        data: place_pattern(p.data, src),
        start: src.start_of(p.start),
        end: src.end_of(p.end),
    }
}

/// The declaration of variables with every span in it in bytes of the source.
pub open spec fn place_var_decl(d: VarDeclView, src: Stream) -> VarDeclView {
    VarDeclView {
        pattern: place_pattern_node(d.pattern, src),
        value: match d.value {
            Some(value) => Some(place_expression_node(value, src)),
            None => None,
        },
    }
}

/// The declaration of variables and its span in bytes of the source.
pub open spec fn place_var_decl_node(d: Spanned<VarDeclView>, src: Stream) -> Spanned<VarDeclView> {
    Spanned {
        data: place_var_decl(d.data, src),
        start: src.start_of(d.start),
        end: src.end_of(d.end),
    }
}

/// The statement with every span in it in bytes of the source.
pub open spec fn place_statement(s: StatementView, src: Stream) -> StatementView
    decreases s,
{
    match s {
        StatementView::Declaration(d) => StatementView::Declaration(place_declaration(d, src)),
        StatementView::Expression(e) => StatementView::Expression(place_expression(e, src)),
        StatementView::If(i) => StatementView::If(place_if(i, src)),
        StatementView::While(w) => StatementView::While(place_while(w, src)),
        StatementView::Block(b) => StatementView::Block(place_block(b, src)),
    }
}

/// The declaration with every span in it in bytes of the source.
pub open spec fn place_declaration(d: DeclarationView, src: Stream) -> DeclarationView
    decreases d,
{
    match d {
        DeclarationView::Var(v) => DeclarationView::Var(place_var_decl(v, src)),
        DeclarationView::Func(f) => DeclarationView::Func(place_func_decl(f, src)),
    }
}

/// The parameters with their spans in bytes of the source.
pub open spec fn place_parameters(params: Seq<Spanned<VarDeclView>>, src: Stream) -> Seq<
    Spanned<VarDeclView>,
> {
    params.map_values(|p: Spanned<VarDeclView>| place_var_decl_node(p, src))
}

/// The declaration of a function with every span in it in bytes of the
/// source.
pub open spec fn place_func_decl(f: FuncDeclView, src: Stream) -> FuncDeclView
    decreases f,
{
    FuncDeclView {
        name: place(f.name, src),
        params: place_parameters(f.params, src),
        block: place_func_block_node(f.block, src),
    }
}

/// What a function does, and its span, in bytes of the source.
pub open spec fn place_func_block_node(b: Spanned<FuncBlockView>, src: Stream) -> Spanned<
    FuncBlockView,
>
    decreases b,
{
    Spanned {
        data: match b.data {
            FuncBlockView::Block(inner) => FuncBlockView::Block(place_block(inner, src)),
            FuncBlockView::ReturnExpr(e) => FuncBlockView::ReturnExpr(place_expression(e, src)),
        },
        start: src.start_of(b.start),
        end: src.end_of(b.end),
    }
}

/// The block, if there is one, and its span in bytes of the source.
pub open spec fn place_optional_block(b: Option<Spanned<BlockView>>, src: Stream) -> Option<
    Spanned<BlockView>,
>
    decreases b,
{
    match b {
        Some(inner) => Some(place_block_node(inner, src)),
        None => None,
    }
}

/// The loop with every span in it in bytes of the source.
pub open spec fn place_while(w: WhileStatementView, src: Stream) -> WhileStatementView
    decreases w,
{
    WhileStatementView {
        condition: place_expression_node(w.condition, src),
        loop_block: place_block_node(w.loop_block, src),
        on_break: place_optional_block(w.on_break, src),
        on_continue: place_optional_block(w.on_continue, src),
    }
}

/// The statement and its span in bytes of the source.
pub open spec fn place_statement_node(s: Spanned<StatementView>, src: Stream) -> Spanned<
    StatementView,
>
    decreases s,
{
    Spanned {
        data: place_statement(s.data, src),
        start: src.start_of(s.start),
        end: src.end_of(s.end),
    }
}

/// The statements with their spans in bytes of the source.
pub open spec fn place_statements(nodes: Seq<Spanned<StatementView>>, src: Stream) -> Seq<
    Spanned<StatementView>,
>
    decreases nodes,
{
    Seq::new(
        nodes.len(),
        |i: int|
            if 0 <= i < nodes.len() {
                place_statement_node(nodes[i], src)
            } else {
                arbitrary()
            },
    )
}

/// The block with every span in it in bytes of the source.
pub open spec fn place_block(b: BlockView, src: Stream) -> BlockView
    decreases b,
{
    BlockView { statements: place_statements(b.statements, src) }
}

/// The block and its span in bytes of the source.
pub open spec fn place_block_node(b: Spanned<BlockView>, src: Stream) -> Spanned<BlockView>
    decreases b,
{
    Spanned { data: place_block(b.data, src), start: src.start_of(b.start), end: src.end_of(b.end) }
}

/// The condition and its blocks with every span in bytes of the source.
pub open spec fn place_if(i: IfStatementView, src: Stream) -> IfStatementView
    decreases i,
{
    IfStatementView {
        condition: place_expression_node(i.condition, src),
        met_block: place_block_node(i.met_block, src),
        else_block: place_optional_else(i.else_block, src),
    }
}

/// What stands for the other case, if anything, in bytes of the source.
pub open spec fn place_optional_else(e: Option<Spanned<ElseBlockView>>, src: Stream) -> Option<
    Spanned<ElseBlockView>,
>
    decreases e,
{
    match e {
        Some(inner) => Some(place_else_node(inner, src)),
        None => None,
    }
}

/// What stands for the other case, and its span, in bytes of the source.
pub open spec fn place_else_node(e: Spanned<ElseBlockView>, src: Stream) -> Spanned<ElseBlockView>
    decreases e,
{
    Spanned {
        data: match e.data {
            ElseBlockView::Block(b) => ElseBlockView::Block(place_block(b, src)),
            ElseBlockView::If(inner) => ElseBlockView::If(Box::new(place_if(*inner, src))),
        },
        start: src.start_of(e.start),
        end: src.end_of(e.end),
    }
}

/// Every span in the pattern is in order and ends no later than `limit`.
pub open spec fn pattern_within(p: VarNameTypeView, limit: nat) -> bool {
    match p {
        VarNameTypeView::Ident(name) => true,
        VarNameTypeView::Array { start_names, end_names } => {
            &&& forall|i: int|
                0 <= i < start_names.len() ==> span_within(#[trigger] start_names[i], limit)
            &&& forall|i: int| 0 <= i < end_names.len() ==> span_within(#[trigger] end_names[i], limit)
        },
        VarNameTypeView::Object(fields) => forall|i: int|
            0 <= i < fields.len() ==> span_within((#[trigger] fields[i]).1, limit),
    }
}

/// Every span in the declaration of variables is in order and ends no later
/// than `limit`.
pub open spec fn var_decl_within(d: VarDeclView, limit: nat) -> bool {
    &&& span_within(d.pattern, limit)
    &&& pattern_within(d.pattern.data, limit)
    &&& match d.value {
        Some(value) => expression_node_within(value, limit),
        None => true,
    }
}

/// The declaration's span and every span in it are in order and end no later
/// than `limit`.
pub open spec fn var_decl_node_within(d: Spanned<VarDeclView>, limit: nat) -> bool {
    &&& span_within(d, limit)
    &&& var_decl_within(d.data, limit)
}

/// Every span in the parameters is in order and ends no later than `limit`.
pub open spec fn parameters_within(params: Seq<Spanned<VarDeclView>>, limit: nat) -> bool {
    forall|i: int| 0 <= i < params.len() ==> var_decl_node_within(#[trigger] params[i], limit)
}

/// Every span in the statement is in order and ends no later than `limit`.
pub open spec fn statement_within(s: StatementView, limit: nat) -> bool
    decreases s,
{
    match s {
        StatementView::Declaration(d) => declaration_within(d, limit),
        StatementView::Expression(e) => expression_within(e, limit),
        StatementView::If(i) => if_within(i, limit),
        StatementView::While(w) => while_within(w, limit),
        StatementView::Block(b) => block_within(b, limit),
    }
}

/// Every span in the declaration is in order and ends no later than `limit`.
pub open spec fn declaration_within(d: DeclarationView, limit: nat) -> bool
    decreases d,
{
    match d {
        DeclarationView::Var(v) => var_decl_within(v, limit),
        DeclarationView::Func(f) => func_decl_within(f, limit),
    }
}

/// Every span in the declaration of a function is in order and ends no later
/// than `limit`.
pub open spec fn func_decl_within(f: FuncDeclView, limit: nat) -> bool
    decreases f,
{
    &&& span_within(f.name, limit)
    &&& parameters_within(f.params, limit)
    &&& func_block_node_within(f.block, limit)
}

/// Every span in what a function does is in order and ends no later than
/// `limit`.
pub open spec fn func_block_node_within(b: Spanned<FuncBlockView>, limit: nat) -> bool
    decreases b,
{
    &&& span_within(b, limit)
    &&& match b.data {
        FuncBlockView::Block(inner) => block_within(inner, limit),
        FuncBlockView::ReturnExpr(e) => expression_within(e, limit),
    }
}

/// Every span in the block, if there is one, is in order and ends no later
/// than `limit`.
pub open spec fn optional_block_within(b: Option<Spanned<BlockView>>, limit: nat) -> bool
    decreases b,
{
    match b {
        Some(inner) => block_node_within(inner, limit),
        None => true,
    }
}

/// Every span in the loop is in order and ends no later than `limit`.
pub open spec fn while_within(w: WhileStatementView, limit: nat) -> bool
    decreases w,
{
    &&& expression_node_within(w.condition, limit)
    &&& block_node_within(w.loop_block, limit)
    &&& optional_block_within(w.on_break, limit)
    &&& optional_block_within(w.on_continue, limit)
}

/// The statement's span and every span in it are in order and end no later
/// than `limit`.
pub open spec fn statement_node_within(s: Spanned<StatementView>, limit: nat) -> bool
    decreases s,
{
    &&& span_within(s, limit)
    &&& statement_within(s.data, limit)
}

/// Every span in the statements is in order and ends no later than `limit`.
pub open spec fn statements_within(nodes: Seq<Spanned<StatementView>>, limit: nat) -> bool
    decreases nodes,
{
    forall|i: int| 0 <= i < nodes.len() ==> statement_node_within(#[trigger] nodes[i], limit)
}

/// Every span in the block is in order and ends no later than `limit`.
pub open spec fn block_within(b: BlockView, limit: nat) -> bool
    decreases b,
{
    statements_within(b.statements, limit)
}

/// The block's span and every span in it are in order and end no later than
/// `limit`.
pub open spec fn block_node_within(b: Spanned<BlockView>, limit: nat) -> bool
    decreases b,
{
    &&& span_within(b, limit)
    &&& block_within(b.data, limit)
}

/// Every span in the condition and its blocks is in order and ends no later
/// than `limit`.
pub open spec fn if_within(i: IfStatementView, limit: nat) -> bool
    decreases i,
{
    &&& expression_node_within(i.condition, limit)
    &&& block_node_within(i.met_block, limit)
    &&& optional_else_within(i.else_block, limit)
}

/// Every span in what stands for the other case is in order and ends no
/// later than `limit`.
pub open spec fn optional_else_within(e: Option<Spanned<ElseBlockView>>, limit: nat) -> bool
    decreases e,
{
    match e {
        Some(inner) => else_node_within(inner, limit),
        None => true,
    }
}

/// The span of what stands for the other case and every span in it are in
/// order and end no later than `limit`.
pub open spec fn else_node_within(e: Spanned<ElseBlockView>, limit: nat) -> bool
    decreases e,
{
    &&& span_within(e, limit)
    &&& match e.data {
        ElseBlockView::Block(b) => block_within(b, limit),
        ElseBlockView::If(inner) => if_within(*inner, limit),
    }
}

} // verus!
