//! Data model of the instrumentation DSL: source locations, value and
//! expression trees, the probe catalog, and the script-unit hierarchy that
//! the wildcard resolver populates.

use vstd::prelude::*;

verus! {

broadcast use vstd::std_specs::vec::axiom_vec_index_decreases;

// =======================
// ==== Source spans =====
// =======================

/// A position or a span inside the source text, as (line, column) pairs.
#[derive(Clone, Copy, Debug, Eq, Hash, PartialEq)]
pub enum LineColLocation {
    Pos((usize, usize)),
    Span((usize, usize), (usize, usize)),
}

/// A source span together with the path of the file it came from, if any.
/// Locations serve diagnostics only; no semantic decision reads them.
#[derive(Clone, Debug, Eq, Hash, PartialEq)]
pub struct Location {
    /// Line/column within the input string
    pub line_col: LineColLocation,
    pub path: Option<String>,
}

/// Mathematical model of a `Location`.
pub struct LocationV {
    pub line_col: LineColLocation,
    pub path: Option<Seq<char>>,
}

impl View for Location {
    type V = LocationV;

    open spec fn view(&self) -> LocationV {
        LocationV { line_col: self.line_col, path: self.path.deep_view() }
    }
}

/// The start position of a location: a point stands for itself.
pub open spec fn spec_loc_start(l: LineColLocation) -> (usize, usize) {
    match l {
        LineColLocation::Pos(p) => p,
        LineColLocation::Span(p, _) => p,
    }
}

/// The end position of a location: a point stands for itself.
pub open spec fn spec_loc_end(l: LineColLocation) -> (usize, usize) {
    match l {
        LineColLocation::Pos(p) => p,
        LineColLocation::Span(_, p) => p,
    }
}

impl Location {
    /// Combines two locations into one span that covers both, from the start
    /// of `loc0` to the end of `loc1`.
    pub fn from(loc0: &LineColLocation, loc1: &LineColLocation, path: Option<String>) -> (r: Self)
        ensures
            r.line_col == LineColLocation::Span(spec_loc_start(*loc0), spec_loc_end(*loc1)),
            r@.path == path.deep_view(),
    {
        let pos0 = match loc0 {
            LineColLocation::Pos(pos0) => *pos0,
            LineColLocation::Span(span0, _) => *span0,
        };

        let pos1 = match loc1 {
            LineColLocation::Pos(pos1) => *pos1,
            LineColLocation::Span(_, span1) => *span1,
        };

        Location { line_col: LineColLocation::Span(pos0, pos1), path }
    }
}

// =======================
// ==== Types ============
// =======================

/// The static types a DSL value can have. `Tuple` carries the ordered element
/// types when they are known.
#[derive(Debug, Eq, Hash, PartialEq)]
pub enum DataType {
    Integer,
    Boolean,
    Null,
    Str,
    Tuple { ty_info: Option<Vec<Box<DataType>>> },
}

/// Mathematical model of a `DataType`.
pub enum DataTypeV {
    Integer,
    Boolean,
    Null,
    Str,
    Tuple { ty_info: Option<Seq<DataTypeV>> },
}

pub open spec fn view_datatype(d: DataType) -> DataTypeV
    decreases d,
{
    match d {
        DataType::Integer => DataTypeV::Integer,
        DataType::Boolean => DataTypeV::Boolean,
        DataType::Null => DataTypeV::Null,
        DataType::Str => DataTypeV::Str,
        DataType::Tuple { ty_info } => DataTypeV::Tuple {
            ty_info: match ty_info {
                Some(tys) => Some(view_datatype_list(tys@)),
                None => None,
            },
        },
    }
}

pub open spec fn view_datatype_list(tys: Seq<Box<DataType>>) -> Seq<DataTypeV>
    decreases tys,
{
    if tys.len() == 0 {
        Seq::empty()
    } else {
        seq![view_datatype(*tys[0])] + view_datatype_list(tys.drop_first())
    }
}

impl View for DataType {
    type V = DataTypeV;

    open spec fn view(&self) -> DataTypeV {
        view_datatype(*self)
    }
}

/// The view of a datatype list is elementwise.
pub proof fn lemma_view_datatype_list(tys: Seq<Box<DataType>>)
    ensures
        view_datatype_list(tys).len() == tys.len(),
        forall|i: int|
            0 <= i < tys.len() ==> view_datatype_list(tys)[i] == view_datatype(*tys[i]),
    decreases tys,
{
    if tys.len() > 0 {
        lemma_view_datatype_list(tys.drop_first());
    }
}

// =======================
// ==== Operators ========
// =======================

/// Binary operators of predicate expressions, grouped by precedence tier:
/// logical, relational, additive, multiplicative.
#[derive(Clone, Copy, Debug, Eq, Hash, PartialEq, Structural)]
pub enum Op {
    // Logical operators
    And,
    Or,
    // Relational operators
    EQ,
    NE,
    GE,
    GT,
    LE,
    LT,
    // Lowest precedence arithmetic operators
    Add,
    Subtract,
    // Highest precedence arithmetic operators
    Multiply,
    Divide,
    Modulo,
}

// =======================
// ==== Values ===========
// =======================

/// Identifier of a data segment of the target module, assigned by the
/// bytecode emitter when it places a string into memory; an opaque index
/// at this layer.
#[derive(Clone, Copy, Debug, Eq, Hash, PartialEq, Structural)]
pub struct DataSegId(pub u32);

/// A typed literal. The declared type of each variant matches its payload.
/// A string literal carries an optional memory binding (data segment id,
/// address, length) that a later emission stage fills in; it is absent at
/// parse time.
#[derive(Debug, Eq, Hash, PartialEq)]
pub enum Value {
    Integer { ty: DataType, val: i32 },
    Str { ty: DataType, val: String, addr: Option<(DataSegId, u32, usize)> },
    Tuple { ty: DataType, vals: Vec<Expr> },
    Boolean { ty: DataType, val: bool },
}

/// An expression tree node. Every node carries an optional source location.
#[derive(Debug, Eq, Hash, PartialEq)]
pub enum Expr {
    /// Type is based on the operator and, for arithmetic, the operand types.
    BinOp { lhs: Box<Expr>, op: Op, rhs: Box<Expr>, loc: Option<Location> },
    /// Type is the return type of the target, which should be a `VarId`.
    Call { fn_target: Box<Expr>, args: Option<Vec<Box<Expr>>>, loc: Option<Location> },
    VarId { name: String, loc: Option<Location> },
    /// Type is the type of the literal itself.
    Primitive { val: Value, loc: Option<Location> },
}

/// A statement: an assignment to a variable, or a bare expression evaluated
/// for effect.
#[derive(Debug, Eq, Hash, PartialEq)]
pub enum Statement {
    Assign {
        /// Should be `Expr::VarId`.
        var_id: Expr,
        expr: Expr,
        loc: Option<Location>,
    },
    Expr { expr: Expr, loc: Option<Location> },
}

/// Mathematical model of a `Value`.
pub enum ValueV {
    Integer { ty: DataTypeV, val: i32 },
    Str { ty: DataTypeV, val: Seq<char>, addr: Option<(DataSegId, u32, usize)> },
    Tuple { ty: DataTypeV, vals: Seq<ExprV> },
    Boolean { ty: DataTypeV, val: bool },
}

/// Mathematical model of an `Expr`.
pub enum ExprV {
    BinOp { lhs: Box<ExprV>, op: Op, rhs: Box<ExprV>, loc: Option<LocationV> },
    Call { fn_target: Box<ExprV>, args: Option<Seq<ExprV>>, loc: Option<LocationV> },
    VarId { name: Seq<char>, loc: Option<LocationV> },
    Primitive { val: ValueV, loc: Option<LocationV> },
}

/// Mathematical model of a `Statement`.
pub enum StatementV {
    Assign { var_id: ExprV, expr: ExprV, loc: Option<LocationV> },
    Expr { expr: ExprV, loc: Option<LocationV> },
}

pub open spec fn view_opt_loc(loc: Option<Location>) -> Option<LocationV> {
    match loc {
        Some(l) => Some(l@),
        None => None,
    }
}

pub open spec fn view_value(v: Value) -> ValueV
    decreases v,
{
    match v {
        Value::Integer { ty, val } => ValueV::Integer { ty: view_datatype(ty), val },
        Value::Str { ty, val, addr } => ValueV::Str { ty: view_datatype(ty), val: val@, addr },
        Value::Tuple { ty, vals } => ValueV::Tuple {
            ty: view_datatype(ty),
            vals: view_exprs(vals@),
        },
        Value::Boolean { ty, val } => ValueV::Boolean { ty: view_datatype(ty), val },
    }
}

pub open spec fn view_expr(e: Expr) -> ExprV
    decreases e,
{
    match e {
        Expr::BinOp { lhs, op, rhs, loc } => ExprV::BinOp {
            lhs: Box::new(view_expr(*lhs)),
            op,
            rhs: Box::new(view_expr(*rhs)),
            loc: view_opt_loc(loc),
        },
        Expr::Call { fn_target, args, loc } => ExprV::Call {
            fn_target: Box::new(view_expr(*fn_target)),
            args: match args {
                Some(es) => Some(view_boxed_exprs(es@)),
                None => None,
            },
            loc: view_opt_loc(loc),
        },
        Expr::VarId { name, loc } => ExprV::VarId { name: name@, loc: view_opt_loc(loc) },
        Expr::Primitive { val, loc } => ExprV::Primitive {
            val: view_value(val),
            loc: view_opt_loc(loc),
        },
    }
}

pub open spec fn view_exprs(es: Seq<Expr>) -> Seq<ExprV>
    decreases es,
{
    if es.len() == 0 {
        Seq::empty()
    } else {
        seq![view_expr(es[0])] + view_exprs(es.drop_first())
    }
}

pub open spec fn view_boxed_exprs(es: Seq<Box<Expr>>) -> Seq<ExprV>
    decreases es,
{
    if es.len() == 0 {
        Seq::empty()
    } else {
        seq![view_expr(*es[0])] + view_boxed_exprs(es.drop_first())
    }
}

pub open spec fn view_statement(s: Statement) -> StatementV
    decreases s,
{
    match s {
        Statement::Assign { var_id, expr, loc } => StatementV::Assign {
            var_id: view_expr(var_id),
            expr: view_expr(expr),
            loc: view_opt_loc(loc),
        },
        Statement::Expr { expr, loc } => StatementV::Expr {
            expr: view_expr(expr),
            loc: view_opt_loc(loc),
        },
    }
}

pub open spec fn view_statements(ss: Seq<Statement>) -> Seq<StatementV>
    decreases ss,
{
    if ss.len() == 0 {
        Seq::empty()
    } else {
        seq![view_statement(ss[0])] + view_statements(ss.drop_first())
    }
}

impl View for Value {
    type V = ValueV;

    open spec fn view(&self) -> ValueV {
        view_value(*self)
    }
}

impl View for Expr {
    type V = ExprV;

    open spec fn view(&self) -> ExprV {
        view_expr(*self)
    }
}

impl View for Statement {
    type V = StatementV;

    open spec fn view(&self) -> StatementV {
        view_statement(*self)
    }
}

/// The view of an expression list is elementwise.
pub proof fn lemma_view_exprs(es: Seq<Expr>)
    ensures
        view_exprs(es).len() == es.len(),
        forall|i: int| 0 <= i < es.len() ==> view_exprs(es)[i] == view_expr(es[i]),
    decreases es,
{
    if es.len() > 0 {
        lemma_view_exprs(es.drop_first());
    }
}

pub proof fn lemma_view_boxed_exprs(es: Seq<Box<Expr>>)
    ensures
        view_boxed_exprs(es).len() == es.len(),
        forall|i: int| 0 <= i < es.len() ==> view_boxed_exprs(es)[i] == view_expr(*es[i]),
    decreases es,
{
    if es.len() > 0 {
        lemma_view_boxed_exprs(es.drop_first());
    }
}

pub proof fn lemma_view_statements(ss: Seq<Statement>)
    ensures
        view_statements(ss).len() == ss.len(),
        forall|i: int| 0 <= i < ss.len() ==> view_statements(ss)[i] == view_statement(ss[i]),
    decreases ss,
{
    if ss.len() > 0 {
        lemma_view_statements(ss.drop_first());
    }
}

/// The location field of an expression node, whichever variant it is.
pub open spec fn spec_expr_loc(e: ExprV) -> Option<LocationV> {
    match e {
        ExprV::BinOp { loc, .. } => loc,
        ExprV::Call { loc, .. } => loc,
        ExprV::VarId { loc, .. } => loc,
        ExprV::Primitive { loc, .. } => loc,
    }
}

impl Expr {
    /// The source location of the node, whichever variant it is.
    pub fn loc(&self) -> (r: &Option<Location>)
        ensures
            view_opt_loc(*r) == spec_expr_loc(self@),
    {
        match self {
            Expr::BinOp { loc, .. }
            | Expr::Call { loc, .. }
            | Expr::VarId { loc, .. }
            | Expr::Primitive { loc, .. } => loc,
        }
    }
}

impl Statement {
    /// A placeholder statement: the integer literal `0` evaluated for effect.
    pub fn dummy() -> (r: Self)
        ensures
            r@ == (StatementV::Expr {
                expr: ExprV::Primitive {
                    val: ValueV::Integer { ty: DataTypeV::Integer, val: 0 },
                    loc: None,
                },
                loc: None,
            }),
    {
        let r = Self::Expr {
            expr: Expr::Primitive {
                val: Value::Integer { ty: DataType::Integer, val: 0 },
                loc: None,
            },
            loc: None,
        };
        proof {
            let v = Value::Integer { ty: DataType::Integer, val: 0 };
            assert(view_value(v) == ValueV::Integer { ty: DataTypeV::Integer, val: 0 });
            assert(view_expr(Expr::Primitive { val: v, loc: None }) == (ExprV::Primitive {
                val: ValueV::Integer { ty: DataTypeV::Integer, val: 0 },
                loc: None,
            }));
        }
        r
    }
}

// =======================
// ==== Deep copies ======
// =======================

/// A structural copy of a datatype; the copy and the original have one view.
pub fn copy_datatype(d: &DataType) -> (r: DataType)
    ensures
        r@ == d@,
    decreases *d,
{
    match d {
        DataType::Integer => DataType::Integer,
        DataType::Boolean => DataType::Boolean,
        DataType::Null => DataType::Null,
        DataType::Str => DataType::Str,
        DataType::Tuple { ty_info } => DataType::Tuple {
            ty_info: match ty_info {
                Some(tys) => Some(copy_datatype_boxes(tys)),
                None => None,
            },
        },
    }
}

fn copy_datatype_boxes(tys: &Vec<Box<DataType>>) -> (r: Vec<Box<DataType>>)
    ensures
        view_datatype_list(r@) == view_datatype_list(tys@),
    decreases tys@,
{
    let mut out: Vec<Box<DataType>> = Vec::new();
    let mut i: usize = 0;
    while i < tys.len()
        invariant
            i <= tys@.len(),
            out@.len() == i,
            forall|j: int| 0 <= j < i ==> view_datatype(*out@[j]) == view_datatype(*tys@[j]),
        decreases tys@.len() - i,
    {
        out.push(Box::new(copy_datatype(&tys[i])));
        i = i + 1;
    }
    proof {
        lemma_view_datatype_list(out@);
        lemma_view_datatype_list(tys@);
        assert(view_datatype_list(out@) =~= view_datatype_list(tys@));
    }
    out
}

/// A structural copy of a location.
pub fn copy_location(l: &Location) -> (r: Location)
    ensures
        r@ == l@,
{
    Location {
        line_col: l.line_col,
        path: match &l.path {
            Some(p) => Some(p.clone()),
            None => None,
        },
    }
}

/// A structural copy of an optional location.
pub fn copy_opt_location(l: &Option<Location>) -> (r: Option<Location>)
    ensures
        view_opt_loc(r) == view_opt_loc(*l),
{
    match l {
        Some(loc) => Some(copy_location(loc)),
        None => None,
    }
}

/// A structural copy of an expression; the copy and the original have one
/// view.
pub fn copy_expr(e: &Expr) -> (r: Expr)
    ensures
        r@ == e@,
    decreases *e,
{
    match e {
        Expr::BinOp { lhs, op, rhs, loc } => Expr::BinOp {
            lhs: Box::new(copy_expr(&**lhs)),
            op: *op,
            rhs: Box::new(copy_expr(&**rhs)),
            loc: copy_opt_location(loc),
        },
        Expr::Call { fn_target, args, loc } => Expr::Call {
            fn_target: Box::new(copy_expr(&**fn_target)),
            args: match args {
                Some(es) => Some(copy_boxed_exprs(es)),
                None => None,
            },
            loc: copy_opt_location(loc),
        },
        Expr::VarId { name, loc } => Expr::VarId {
            name: name.clone(),
            loc: copy_opt_location(loc),
        },
        Expr::Primitive { val, loc } => Expr::Primitive {
            val: copy_value(val),
            loc: copy_opt_location(loc),
        },
    }
}

fn copy_boxed_exprs(es: &Vec<Box<Expr>>) -> (r: Vec<Box<Expr>>)
    ensures
        view_boxed_exprs(r@) == view_boxed_exprs(es@),
    decreases es@,
{
    let mut out: Vec<Box<Expr>> = Vec::new();
    let mut i: usize = 0;
    while i < es.len()
        invariant
            i <= es@.len(),
            out@.len() == i,
            forall|j: int| 0 <= j < i ==> view_expr(*out@[j]) == view_expr(*es@[j]),
        decreases es@.len() - i,
    {
        out.push(Box::new(copy_expr(&es[i])));
        i = i + 1;
    }
    proof {
        lemma_view_boxed_exprs(out@);
        lemma_view_boxed_exprs(es@);
        assert(view_boxed_exprs(out@) =~= view_boxed_exprs(es@));
    }
    out
}

/// A structural copy of an expression list.
pub fn copy_exprs(es: &Vec<Expr>) -> (r: Vec<Expr>)
    ensures
        view_exprs(r@) == view_exprs(es@),
    decreases es@,
{
    let mut out: Vec<Expr> = Vec::new();
    let mut i: usize = 0;
    while i < es.len()
        invariant
            i <= es@.len(),
            out@.len() == i,
            forall|j: int| 0 <= j < i ==> view_expr(out@[j]) == view_expr(es@[j]),
        decreases es@.len() - i,
    {
        out.push(copy_expr(&es[i]));
        i = i + 1;
    }
    proof {
        lemma_view_exprs(out@);
        lemma_view_exprs(es@);
        assert(view_exprs(out@) =~= view_exprs(es@));
    }
    out
}

/// A structural copy of a value; the copy and the original have one view.
pub fn copy_value(v: &Value) -> (r: Value)
    ensures
        r@ == v@,
    decreases *v,
{
    match v {
        Value::Integer { ty, val } => Value::Integer { ty: copy_datatype(ty), val: *val },
        Value::Str { ty, val, addr } => Value::Str {
            ty: copy_datatype(ty),
            val: val.clone(),
            addr: *addr,
        },
        Value::Tuple { ty, vals } => Value::Tuple {
            ty: copy_datatype(ty),
            vals: copy_exprs(vals),
        },
        Value::Boolean { ty, val } => Value::Boolean { ty: copy_datatype(ty), val: *val },
    }
}

/// A structural copy of a statement; the copy and the original have one view.
pub fn copy_statement(s: &Statement) -> (r: Statement)
    ensures
        r@ == s@,
{
    match s {
        Statement::Assign { var_id, expr, loc } => Statement::Assign {
            var_id: copy_expr(var_id),
            expr: copy_expr(expr),
            loc: copy_opt_location(loc),
        },
        Statement::Expr { expr, loc } => Statement::Expr {
            expr: copy_expr(expr),
            loc: copy_opt_location(loc),
        },
    }
}

/// A structural copy of a statement list.
pub fn copy_statements(ss: &Vec<Statement>) -> (r: Vec<Statement>)
    ensures
        view_statements(r@) == view_statements(ss@),
{
    let mut out: Vec<Statement> = Vec::new();
    let mut i: usize = 0;
    while i < ss.len()
        invariant
            i <= ss@.len(),
            out@.len() == i,
            forall|j: int| 0 <= j < i ==> view_statement(out@[j]) == view_statement(ss@[j]),
        decreases ss@.len() - i,
    {
        out.push(copy_statement(&ss[i]));
        i = i + 1;
    }
    proof {
        lemma_view_statements(out@);
        lemma_view_statements(ss@);
        assert(view_statements(out@) =~= view_statements(ss@));
    }
    out
}

// ==============================
// ==== Functions & globals =====
// ==============================

/// A DSL function: named, with ordered formal parameters, an optional return
/// type and an optional body. A missing body marks a host-provided intrinsic.
#[derive(Debug)]
pub struct Fn {
    pub is_comp_provided: bool,
    pub name: String,
    /// Each formal is a `VarId` expression paired with its declared type.
    pub params: Vec<(Expr, DataType)>,
    pub return_ty: Option<DataType>,
    pub body: Option<Vec<Statement>>,
}

/// Mathematical model of a `Fn`.
pub struct FnV {
    pub is_comp_provided: bool,
    pub name: Seq<char>,
    pub params: Seq<(ExprV, DataTypeV)>,
    pub return_ty: Option<DataTypeV>,
    pub body: Option<Seq<StatementV>>,
}

pub open spec fn view_params(ps: Seq<(Expr, DataType)>) -> Seq<(ExprV, DataTypeV)>
    decreases ps,
{
    if ps.len() == 0 {
        Seq::empty()
    } else {
        seq![(view_expr(ps[0].0), view_datatype(ps[0].1))] + view_params(ps.drop_first())
    }
}

/// The view of a formal-parameter list is elementwise.
pub proof fn lemma_view_params(ps: Seq<(Expr, DataType)>)
    ensures
        view_params(ps).len() == ps.len(),
        forall|i: int|
            0 <= i < ps.len() ==> view_params(ps)[i] == (
            view_expr(ps[i].0),
            view_datatype(ps[i].1),
            ),
    decreases ps,
{
    if ps.len() > 0 {
        lemma_view_params(ps.drop_first());
    }
}

impl View for Fn {
    type V = FnV;

    open spec fn view(&self) -> FnV {
        FnV {
            is_comp_provided: self.is_comp_provided,
            name: self.name@,
            params: view_params(self.params@),
            return_ty: match self.return_ty {
                Some(t) => Some(view_datatype(t)),
                None => None,
            },
            body: match self.body {
                Some(b) => Some(view_statements(b@)),
                None => None,
            },
        }
    }
}

/// A named, typed variable: host-provided or user-defined, with an optional
/// constant value.
#[derive(Debug)]
pub struct Global {
    pub is_comp_provided: bool,
    pub ty: DataType,
    /// Should be `Expr::VarId`.
    pub var_name: Expr,
    pub value: Option<Value>,
}

/// Mathematical model of a `Global`.
pub struct GlobalV {
    pub is_comp_provided: bool,
    pub ty: DataTypeV,
    pub var_name: ExprV,
    pub value: Option<ValueV>,
}

impl View for Global {
    type V = GlobalV;

    open spec fn view(&self) -> GlobalV {
        GlobalV {
            is_comp_provided: self.is_comp_provided,
            ty: view_datatype(self.ty),
            var_name: view_expr(self.var_name),
            value: match self.value {
                Some(v) => Some(view_value(v)),
                None => None,
            },
        }
    }
}

// ==================================
// ==== Case folding and globs ======
// ==================================

/// What `str::to_lowercase` returns: a case folding that depends on the
/// characters alone.
pub uninterp spec fn lower_of(s: Seq<char>) -> Seq<char>;

/// Whether `glob::Pattern::new` accepts a pattern text. Compilation reads
/// nothing but the text and the target's fixed path-separator convention,
/// so acceptance is a function of the text.
pub uninterp spec fn glob_pattern_ok(pat: Seq<char>) -> bool;

/// What `glob::Pattern::matches` answers for a pattern that compiles and a
/// name. Matching, with the default match options, reads nothing but the
/// two texts and the target's fixed path-separator convention, so the
/// answer is a function of the texts.
pub uninterp spec fn glob_match(pat: Seq<char>, name: Seq<char>) -> bool;

/// Relies on str::to_lowercase: the folded text is a function of the input
/// characters alone.
#[verifier::external_body]
fn to_lowercase(s: &str) -> (r: String)
    ensures
        r@ == lower_of(s@),
{
    s.to_lowercase()
}

/// Relies on glob::Pattern::new: whether a pattern text compiles is a
/// function of that text.
#[verifier::external_body]
fn glob_pattern_compiles(pat: &str) -> (r: bool)
    ensures
        r == glob_pattern_ok(pat@),
{
    glob::Pattern::new(pat).is_ok()
}

/// Relies on glob::Pattern::new and glob::Pattern::matches: for a pattern
/// text that compiles, whether it matches a name is a function of the
/// pattern and name texts.
#[verifier::external_body]
fn glob_pattern_matches(pat: &str, name: &str) -> (r: bool)
    requires
        glob_pattern_ok(pat@),
    ensures
        r == glob_match(pat@, name@),
{
    match glob::Pattern::new(pat) {
        Ok(p) => p.matches(name),
        Err(_) => false,
    }
}

/// Relies on String::push: appends a single character.
#[verifier::external_body]
pub(crate) fn push_char(s: &mut String, c: char)
    ensures
        final(s)@ == old(s)@.push(c),
{
    s.push(c);
}

/// The resolver's matching rule: pattern and name are folded to lower case,
/// then glob-matched.
pub open spec fn ci_match(pat: Seq<char>, name: Seq<char>) -> bool {
    glob_match(lower_of(pat), lower_of(name))
}

// ==================================
// ==== Sequence search helpers =====
// ==================================

/// The first index of `s` satisfying `p`, or `-1` when none does.
pub open spec fn first_index_by<T>(s: Seq<T>, p: spec_fn(T) -> bool) -> int
    decreases s,
{
    if s.len() == 0 {
        -1
    } else if p(s[0]) {
        0
    } else {
        let r = first_index_by(s.drop_first(), p);
        if r < 0 {
            -1
        } else {
            r + 1
        }
    }
}

/// Characterizes `first_index_by`: a result of `-1` means no element
/// satisfies `p`; a non-negative result is the first satisfying index.
pub proof fn lemma_first_index_by<T>(s: Seq<T>, p: spec_fn(T) -> bool)
    ensures
        first_index_by(s, p) == -1 ==> (forall|j: int| 0 <= j < s.len() ==> !p(s[j])),
        first_index_by(s, p) >= 0 ==> 0 <= first_index_by(s, p) < s.len() && p(
            s[first_index_by(s, p)],
        ) && (forall|j: int| 0 <= j < first_index_by(s, p) ==> !p(s[j])),
        (exists|j: int| 0 <= j < s.len() && p(s[j])) ==> first_index_by(s, p) >= 0,
    decreases s,
{
    if s.len() > 0 && !p(s[0]) {
        lemma_first_index_by(s.drop_first(), p);
        let r = first_index_by(s.drop_first(), p);
        if r == -1 {
            assert forall|j: int| 0 <= j < s.len() implies !p(s[j]) by {
                if j >= 1 {
                    assert(s.drop_first()[j - 1] == s[j]);
                }
            }
        } else {
            assert(first_index_by(s, p) == r + 1);
            assert(s.drop_first()[r] == s[r + 1]);
            assert forall|j: int| 0 <= j < r + 1 implies !p(s[j]) by {
                if j >= 1 {
                    assert(s.drop_first()[j - 1] == s[j]);
                }
            }
        }
        if exists|j: int| 0 <= j < s.len() && p(s[j]) {
            let j = choose|j: int| 0 <= j < s.len() && p(s[j]);
            assert(s.drop_first()[j - 1] == s[j]);
        }
    }
}

// =======================
// ==== Parse errors =====
// =======================

/// A user-visible failure of parsing or of pattern compilation: a message
/// and, when one is known, the source location of the offence.
#[derive(Debug)]
pub struct ParseError {
    pub msg: String,
    pub loc: Option<Location>,
}

/// Mathematical model of a `ParseError`.
pub struct ParseErrorV {
    pub msg: Seq<char>,
    pub loc: Option<LocationV>,
}

impl View for ParseError {
    type V = ParseErrorV;

    open spec fn view(&self) -> ParseErrorV {
        ParseErrorV { msg: self.msg@, loc: view_opt_loc(self.loc) }
    }
}

// =======================
// ==== Probe catalog ====
// =======================

/// One event of the catalog: its name and the ordered list of probe-type
/// names that are legal on it.
#[derive(Debug)]
pub struct CatalogEvent {
    pub name: String,
    pub probe_types: Vec<String>,
}

/// One package of the catalog: its name and its events, in insertion order.
#[derive(Debug)]
pub struct CatalogPackage {
    pub name: String,
    pub events: Vec<CatalogEvent>,
}

/// One provider of the catalog: its name and its packages, in insertion
/// order.
#[derive(Debug)]
pub struct CatalogProvider {
    pub name: String,
    pub packages: Vec<CatalogPackage>,
}

/// The fixed, externally seeded table of the instrumentation points the
/// target platform exposes: provider -> package -> event -> probe types.
#[derive(Debug)]
pub struct ProbeCatalog {
    pub providers: Vec<CatalogProvider>,
}

pub struct CatalogEventV {
    pub name: Seq<char>,
    pub probe_types: Seq<Seq<char>>,
}

pub struct CatalogPackageV {
    pub name: Seq<char>,
    pub events: Seq<CatalogEventV>,
}

pub struct CatalogProviderV {
    pub name: Seq<char>,
    pub packages: Seq<CatalogPackageV>,
}

pub struct ProbeCatalogV {
    pub providers: Seq<CatalogProviderV>,
}

impl View for CatalogEvent {
    type V = CatalogEventV;

    open spec fn view(&self) -> CatalogEventV {
        CatalogEventV { name: self.name@, probe_types: self.probe_types.deep_view() }
    }
}

impl View for CatalogPackage {
    type V = CatalogPackageV;

    open spec fn view(&self) -> CatalogPackageV {
        CatalogPackageV {
            name: self.name@,
            events: self.events@.map_values(|e: CatalogEvent| e@),
        }
    }
}

impl View for CatalogProvider {
    type V = CatalogProviderV;

    open spec fn view(&self) -> CatalogProviderV {
        CatalogProviderV {
            name: self.name@,
            packages: self.packages@.map_values(|p: CatalogPackage| p@),
        }
    }
}

impl View for ProbeCatalog {
    type V = ProbeCatalogV;

    open spec fn view(&self) -> ProbeCatalogV {
        ProbeCatalogV { providers: self.providers@.map_values(|p: CatalogProvider| p@) }
    }
}

// Catalog lookups, by exact (case-preserved) key.

/// The predicate "this catalog provider bears the given name".
pub open spec fn catalog_provider_named(name: Seq<char>) -> spec_fn(CatalogProviderV) -> bool {
    |p: CatalogProviderV| p.name == name
}

/// The predicate "this catalog package bears the given name".
pub open spec fn catalog_package_named(name: Seq<char>) -> spec_fn(CatalogPackageV) -> bool {
    |p: CatalogPackageV| p.name == name
}

/// The predicate "this catalog event bears the given name".
pub open spec fn catalog_event_named(name: Seq<char>) -> spec_fn(CatalogEventV) -> bool {
    |e: CatalogEventV| e.name == name
}

pub open spec fn cat_provider_index(cat: ProbeCatalogV, name: Seq<char>) -> int {
    first_index_by(cat.providers, catalog_provider_named(name))
}

pub open spec fn cat_has_provider(cat: ProbeCatalogV, name: Seq<char>) -> bool {
    cat_provider_index(cat, name) >= 0
}

pub open spec fn cat_provider(cat: ProbeCatalogV, name: Seq<char>) -> CatalogProviderV {
    cat.providers[cat_provider_index(cat, name)]
}

pub open spec fn cat_package_index(cat: ProbeCatalogV, prov: Seq<char>, name: Seq<char>) -> int {
    first_index_by(cat_provider(cat, prov).packages, catalog_package_named(name))
}

pub open spec fn cat_has_package(cat: ProbeCatalogV, prov: Seq<char>, name: Seq<char>) -> bool {
    cat_has_provider(cat, prov) && cat_package_index(cat, prov, name) >= 0
}

pub open spec fn cat_package(cat: ProbeCatalogV, prov: Seq<char>, name: Seq<char>) -> CatalogPackageV {
    cat_provider(cat, prov).packages[cat_package_index(cat, prov, name)]
}

pub open spec fn cat_event_index(
    cat: ProbeCatalogV,
    prov: Seq<char>,
    pkg: Seq<char>,
    name: Seq<char>,
) -> int {
    first_index_by(cat_package(cat, prov, pkg).events, catalog_event_named(name))
}

pub open spec fn cat_has_event(
    cat: ProbeCatalogV,
    prov: Seq<char>,
    pkg: Seq<char>,
    name: Seq<char>,
) -> bool {
    cat_has_package(cat, prov, pkg) && cat_event_index(cat, prov, pkg, name) >= 0
}

pub open spec fn cat_event(
    cat: ProbeCatalogV,
    prov: Seq<char>,
    pkg: Seq<char>,
    name: Seq<char>,
) -> CatalogEventV {
    cat_package(cat, prov, pkg).events[cat_event_index(cat, prov, pkg, name)]
}

pub open spec fn cat_provider_names(cat: ProbeCatalogV) -> Seq<Seq<char>> {
    cat.providers.map_values(|p: CatalogProviderV| p.name)
}

pub open spec fn cat_package_names(cat: ProbeCatalogV, prov: Seq<char>) -> Seq<Seq<char>> {
    cat_provider(cat, prov).packages.map_values(|p: CatalogPackageV| p.name)
}

pub open spec fn cat_event_names(cat: ProbeCatalogV, prov: Seq<char>, pkg: Seq<char>) -> Seq<
    Seq<char>,
> {
    cat_package(cat, prov, pkg).events.map_values(|e: CatalogEventV| e.name)
}

pub open spec fn cat_probe_types(
    cat: ProbeCatalogV,
    prov: Seq<char>,
    pkg: Seq<char>,
    ev: Seq<char>,
) -> Seq<Seq<char>> {
    cat_event(cat, prov, pkg, ev).probe_types
}

// ==============================
// ==== Wildcard matching =======
// ==============================

/// The names among `names`, in order, that the pattern matches under the
/// resolver's case-insensitive glob rule.
pub open spec fn spec_matching_names(names: Seq<Seq<char>>, pat: Seq<char>) -> Seq<Seq<char>>
    decreases names,
{
    if names.len() == 0 {
        Seq::empty()
    } else {
        let rest = spec_matching_names(names.drop_last(), pat);
        if ci_match(pat, names.last()) {
            rest.push(names.last())
        } else {
            rest
        }
    }
}

/// Every matched name is one of the names it was matched from.
pub proof fn lemma_matching_names_membership(names: Seq<Seq<char>>, pat: Seq<char>)
    ensures
        forall|k: int|
            0 <= k < spec_matching_names(names, pat).len() ==> names.contains(
                #[trigger] spec_matching_names(names, pat)[k],
            ),
    decreases names,
{
    if names.len() > 0 {
        lemma_matching_names_membership(names.drop_last(), pat);
        let m = spec_matching_names(names, pat);
        let rest = spec_matching_names(names.drop_last(), pat);
        assert forall|k: int| 0 <= k < m.len() implies names.contains(m[k]) by {
            if k < rest.len() {
                assert(names.drop_last().contains(rest[k]));
                let j = choose|j: int|
                    0 <= j < names.drop_last().len() && names.drop_last()[j] == rest[k];
                assert(names[j] == m[k]);
            } else {
                assert(m[k] == names.last());
                assert(names[names.len() - 1] == m[k]);
            }
        }
    }
}

/// Filters a vector of names by the case-insensitive glob rule; shared by
/// the per-level `get_matches` operations.
fn ci_filter_names(names: &Vec<String>, pat: &str) -> (r: Vec<String>)
    requires
        glob_pattern_ok(lower_of(pat@)),
    ensures
        r.deep_view() == spec_matching_names(names.deep_view(), pat@),
{
    let lp = to_lowercase(pat);
    let mut out: Vec<String> = Vec::new();
    let mut i: usize = 0;
    while i < names.len()
        invariant
            i <= names@.len(),
            lp@ == lower_of(pat@),
            glob_pattern_ok(lp@),
            out.deep_view() == spec_matching_names(names.deep_view().take(i as int), pat@),
        decreases names@.len() - i,
    {
        let ghost pre = names.deep_view().take(i as int);
        let ghost cur = names.deep_view().take(i as int + 1);
        proof {
            assert(cur.drop_last() =~= pre);
            assert(cur.last() == names@[i as int]@);
        }
        let ln = to_lowercase(names[i].as_str());
        if glob_pattern_matches(lp.as_str(), ln.as_str()) {
            let ghost old_out = out.deep_view();
            out.push(names[i].clone());
            proof {
                assert(out.deep_view() =~= old_out.push(names@[i as int]@));
            }
        }
        i = i + 1;
    }
    proof {
        assert(names.deep_view().take(names@.len() as int) =~= names.deep_view());
    }
    out
}

// ==================================
// ==== Script-unit hierarchy =======
// ==================================

/// One probe: a predicate and an action body attached, by resolution, to a
/// concrete instrumentation point, with its own host-provided functions and
/// globals.
#[derive(Debug)]
pub struct Probe {
    pub name: String,
    pub fns: Vec<Fn>,
    pub globals: Vec<Global>,
    pub predicate: Option<Expr>,
    pub body: Option<Vec<Statement>>,
}

/// The probes of one probe-type name under an event, in insertion order.
#[derive(Debug)]
pub struct ProbeList {
    pub name: String,
    pub probes: Vec<Probe>,
}

/// An event node of a script unit's hierarchy: a probe-type-name-to-probes
/// map in insertion order, plus host-provided functions and globals.
#[derive(Debug)]
pub struct Event {
    pub name: String,
    pub fns: Vec<Fn>,
    pub globals: Vec<Global>,
    pub probe_map: Vec<ProbeList>,
}

/// A package node of a script unit's hierarchy.
#[derive(Debug)]
pub struct Package {
    pub name: String,
    pub fns: Vec<Fn>,
    pub globals: Vec<Global>,
    /// The events of the probes used in the script unit, in insertion order.
    pub events: Vec<Event>,
}

/// A provider node of a script unit's hierarchy.
#[derive(Debug)]
pub struct Provider {
    pub name: String,
    pub fns: Vec<Fn>,
    pub globals: Vec<Global>,
    /// The packages of the probes used in the script unit, in insertion
    /// order.
    pub packages: Vec<Package>,
}

/// One independently addressable script unit: the providers its probes
/// actually referenced, plus its user-defined functions and globals.
#[derive(Debug)]
pub struct Whammy {
    pub name: String,
    pub providers: Vec<Provider>,
    pub fns: Vec<Fn>,
    pub globals: Vec<Global>,
}

/// The compilation root: the immutable probe catalog, the host-provided
/// functions and globals, and the registered script units in order.
#[derive(Debug)]
pub struct Whamm {
    pub provided_probes: ProbeCatalog,
    pub fns: Vec<Fn>,
    pub globals: Vec<Global>,
    pub whammys: Vec<Whammy>,
}

/// Mathematical model of a `Probe`.
pub struct ProbeV {
    pub name: Seq<char>,
    pub fns: Seq<FnV>,
    pub globals: Seq<GlobalV>,
    pub predicate: Option<ExprV>,
    pub body: Option<Seq<StatementV>>,
}

/// Mathematical model of a `ProbeList`.
pub struct ProbeListV {
    pub name: Seq<char>,
    pub probes: Seq<ProbeV>,
}

/// Mathematical model of an `Event`.
pub struct EventV {
    pub name: Seq<char>,
    pub fns: Seq<FnV>,
    pub globals: Seq<GlobalV>,
    pub probe_map: Seq<ProbeListV>,
}

/// Mathematical model of a `Package`.
pub struct PackageV {
    pub name: Seq<char>,
    pub fns: Seq<FnV>,
    pub globals: Seq<GlobalV>,
    pub events: Seq<EventV>,
}

/// Mathematical model of a `Provider`.
pub struct ProviderV {
    pub name: Seq<char>,
    pub fns: Seq<FnV>,
    pub globals: Seq<GlobalV>,
    pub packages: Seq<PackageV>,
}

/// Mathematical model of a `Whammy`.
pub struct WhammyV {
    pub name: Seq<char>,
    pub providers: Seq<ProviderV>,
    pub fns: Seq<FnV>,
    pub globals: Seq<GlobalV>,
}

/// Mathematical model of a `Whamm`.
pub struct WhammV {
    pub provided_probes: ProbeCatalogV,
    pub fns: Seq<FnV>,
    pub globals: Seq<GlobalV>,
    pub whammys: Seq<WhammyV>,
}

pub open spec fn view_opt_expr(e: Option<Expr>) -> Option<ExprV> {
    match e {
        Some(x) => Some(view_expr(x)),
        None => None,
    }
}

pub open spec fn view_opt_statements(b: Option<Vec<Statement>>) -> Option<Seq<StatementV>> {
    match b {
        Some(v) => Some(view_statements(v@)),
        None => None,
    }
}

/// A structural copy of an optional predicate expression.
pub fn copy_opt_expr(e: &Option<Expr>) -> (r: Option<Expr>)
    ensures
        view_opt_expr(r) == view_opt_expr(*e),
{
    match e {
        Some(x) => Some(copy_expr(x)),
        None => None,
    }
}

/// A structural copy of an optional statement list.
pub fn copy_opt_statements(b: &Option<Vec<Statement>>) -> (r: Option<Vec<Statement>>)
    ensures
        view_opt_statements(r) == view_opt_statements(*b),
{
    match b {
        Some(v) => Some(copy_statements(v)),
        None => None,
    }
}

impl View for Probe {
    type V = ProbeV;

    open spec fn view(&self) -> ProbeV {
        ProbeV {
            name: self.name@,
            fns: self.fns@.map_values(|f: Fn| f@),
            globals: self.globals@.map_values(|g: Global| g@),
            predicate: view_opt_expr(self.predicate),
            body: view_opt_statements(self.body),
        }
    }
}

impl View for ProbeList {
    type V = ProbeListV;

    open spec fn view(&self) -> ProbeListV {
        ProbeListV { name: self.name@, probes: self.probes@.map_values(|p: Probe| p@) }
    }
}

impl View for Event {
    type V = EventV;

    open spec fn view(&self) -> EventV {
        EventV {
            name: self.name@,
            fns: self.fns@.map_values(|f: Fn| f@),
            globals: self.globals@.map_values(|g: Global| g@),
            probe_map: self.probe_map@.map_values(|pl: ProbeList| pl@),
        }
    }
}

impl View for Package {
    type V = PackageV;

    open spec fn view(&self) -> PackageV {
        PackageV {
            name: self.name@,
            fns: self.fns@.map_values(|f: Fn| f@),
            globals: self.globals@.map_values(|g: Global| g@),
            events: self.events@.map_values(|e: Event| e@),
        }
    }
}

impl View for Provider {
    type V = ProviderV;

    open spec fn view(&self) -> ProviderV {
        ProviderV {
            name: self.name@,
            fns: self.fns@.map_values(|f: Fn| f@),
            globals: self.globals@.map_values(|g: Global| g@),
            packages: self.packages@.map_values(|p: Package| p@),
        }
    }
}

impl View for Whammy {
    type V = WhammyV;

    open spec fn view(&self) -> WhammyV {
        WhammyV {
            name: self.name@,
            providers: self.providers@.map_values(|p: Provider| p@),
            fns: self.fns@.map_values(|f: Fn| f@),
            globals: self.globals@.map_values(|g: Global| g@),
        }
    }
}

impl View for Whamm {
    type V = WhammV;

    open spec fn view(&self) -> WhammV {
        WhammV {
            provided_probes: self.provided_probes@,
            fns: self.fns@.map_values(|f: Fn| f@),
            globals: self.globals@.map_values(|g: Global| g@),
            whammys: self.whammys@.map_values(|w: Whammy| w@),
        }
    }
}

// Host-provided contents of freshly created nodes.

/// A host-provided string global with the given variable name.
pub open spec fn spec_str_global(name: Seq<char>) -> GlobalV {
    GlobalV {
        is_comp_provided: true,
        ty: DataTypeV::Str,
        var_name: ExprV::VarId { name, loc: None },
        value: None,
    }
}

/// The globals the platform provides on an event, by event name: the
/// `call` event carries four string globals describing the call target.
pub open spec fn spec_event_globals(name: Seq<char>) -> Seq<GlobalV> {
    if lower_of(name) == "call"@ {
        seq![
            spec_str_global("target_fn_type"@),
            spec_str_global("target_imp_module"@),
            spec_str_global("target_imp_name"@),
            spec_str_global("new_target_fn_name"@),
        ]
    } else {
        Seq::empty()
    }
}

pub open spec fn spec_new_provider(name: Seq<char>) -> ProviderV {
    ProviderV { name, fns: Seq::empty(), globals: Seq::empty(), packages: Seq::empty() }
}

pub open spec fn spec_new_package(name: Seq<char>) -> PackageV {
    PackageV { name, fns: Seq::empty(), globals: Seq::empty(), events: Seq::empty() }
}

pub open spec fn spec_new_event(name: Seq<char>) -> EventV {
    EventV { name, fns: Seq::empty(), globals: spec_event_globals(name), probe_map: Seq::empty() }
}

fn make_str_global(name: &str) -> (g: Global)
    ensures
        g@ == spec_str_global(name@),
{
    Global {
        is_comp_provided: true,
        ty: DataType::Str,
        var_name: Expr::VarId { name: String::from_str(name), loc: None },
        value: None,
    }
}

impl Provider {
    /// A fresh provider node with the host-provided functions and globals
    /// for its name (none, for every provider).
    pub fn new(name: String) -> (r: Self)
        ensures
            r@ == spec_new_provider(name@),
    {
        let fns = Provider::get_provided_fns(&name);
        let globals = Provider::get_provided_globals(&name);
        let r = Provider { name, fns, globals, packages: Vec::new() };
        proof {
            assert(r@.fns =~= Seq::<FnV>::empty());
            assert(r@.globals =~= Seq::<GlobalV>::empty());
            assert(r@.packages =~= Seq::<PackageV>::empty());
        }
        r
    }

    fn get_provided_fns(_name: &String) -> (r: Vec<Fn>)
        ensures
            r@.len() == 0,
    {
        Vec::new()
    }

    fn get_provided_globals(_name: &String) -> (r: Vec<Global>)
        ensures
            r@.len() == 0,
    {
        Vec::new()
    }
}

impl Package {
    /// A fresh package node with the host-provided functions and globals
    /// for its name (none, for every package).
    pub fn new(name: String) -> (r: Self)
        ensures
            r@ == spec_new_package(name@),
    {
        let fns = Package::get_provided_fns(&name);
        let globals = Package::get_provided_globals(&name);
        let r = Package { name, fns, globals, events: Vec::new() };
        proof {
            assert(r@.fns =~= Seq::<FnV>::empty());
            assert(r@.globals =~= Seq::<GlobalV>::empty());
            assert(r@.events =~= Seq::<EventV>::empty());
        }
        r
    }

    fn get_provided_fns(_name: &String) -> (r: Vec<Fn>)
        ensures
            r@.len() == 0,
    {
        Vec::new()
    }

    fn get_provided_globals(_name: &String) -> (r: Vec<Global>)
        ensures
            r@.len() == 0,
    {
        Vec::new()
    }
}

impl Event {
    /// A fresh event node with the host-provided functions and globals for
    /// its name.
    pub fn new(name: String) -> (r: Self)
        ensures
            r@ == spec_new_event(name@),
    {
        let fns = Event::get_provided_fns(&name);
        let globals = Event::get_provided_globals(&name);
        let r = Event { name, fns, globals, probe_map: Vec::new() };
        proof {
            assert(r@.fns =~= Seq::<FnV>::empty());
            assert(r@.probe_map =~= Seq::<ProbeListV>::empty());
        }
        r
    }

    fn get_provided_fns(_name: &String) -> (r: Vec<Fn>)
        ensures
            r@.len() == 0,
    {
        Vec::new()
    }

    fn get_provided_globals(name: &String) -> (r: Vec<Global>)
        ensures
            r@.map_values(|g: Global| g@) == spec_event_globals(name@),
    {
        let mut globals: Vec<Global> = Vec::new();
        let lc = to_lowercase(name.as_str());
        if lc == String::from_str("call") {
            // The `call` event exposes the call target to predicates.
            globals.push(make_str_global("target_fn_type"));
            globals.push(make_str_global("target_imp_module"));
            globals.push(make_str_global("target_imp_name"));
            globals.push(make_str_global("new_target_fn_name"));
            proof {
                assert(globals@.map_values(|g: Global| g@) =~= spec_event_globals(name@));
            }
        } else {
            proof {
                assert(globals@.map_values(|g: Global| g@) =~= spec_event_globals(name@));
            }
        }
        globals
    }
}

impl Probe {
    /// A fresh probe carrying the given predicate and body, with the
    /// host-provided functions and globals for its name (none, for every
    /// probe).
    pub fn new(name: String, predicate: Option<Expr>, body: Option<Vec<Statement>>) -> (r: Self)
        ensures
            r@ == (ProbeV {
                name: name@,
                fns: Seq::empty(),
                globals: Seq::empty(),
                predicate: view_opt_expr(predicate),
                body: view_opt_statements(body),
            }),
    {
        let fns = Probe::get_provided_fns(&name);
        let globals = Probe::get_provided_globals(&name);
        let r = Probe { name, fns, globals, predicate, body };
        proof {
            assert(r@.fns =~= Seq::<FnV>::empty());
            assert(r@.globals =~= Seq::<GlobalV>::empty());
        }
        r
    }

    fn get_provided_fns(_name: &String) -> (r: Vec<Fn>)
        ensures
            r@.len() == 0,
    {
        Vec::new()
    }

    fn get_provided_globals(_name: &String) -> (r: Vec<Global>)
        ensures
            r@.len() == 0,
    {
        Vec::new()
    }
}

impl Whammy {
    /// A fresh, unnamed script unit with no providers, functions or
    /// globals.
    pub fn new() -> (r: Self)
        ensures
            r@ == (WhammyV {
                name: Seq::<char>::empty(),
                providers: Seq::empty(),
                fns: Seq::empty(),
                globals: Seq::empty(),
            }),
    {
        let r = Whammy {
            name: String::new(),
            providers: Vec::new(),
            fns: Vec::new(),
            globals: Vec::new(),
        };
        proof {
            assert(r@.providers =~= Seq::<ProviderV>::empty());
            assert(r@.fns =~= Seq::<FnV>::empty());
            assert(r@.globals =~= Seq::<GlobalV>::empty());
        }
        r
    }
}

// ==================================
// ==== The seeded catalog ==========
// ==================================

/// The bytecode operations of the target platform that probes can attach
/// to, in the fixed order the catalog lists them.
pub open spec fn spec_wasm_bytecode_event_names() -> Seq<Seq<char>> {
    seq![
        "Block"@, "Loop"@, "Call"@, "CallIndirect"@, "LocalGet"@, "LocalSet"@,
        "LocalTee"@, "GlobalGet"@, "GlobalSet"@, "Const"@, "Binop"@, "Unop"@,
        "Select"@, "Unreachable"@, "Br"@, "BrIf"@, "IfElse"@, "BrTable"@,
        "Drop"@, "Return"@, "MemorySize"@, "MemoryGrow"@, "MemoryInit"@,
        "DataDrop"@, "MemoryCopy"@, "MemoryFill"@, "Load"@, "Store"@,
        "AtomicRmw"@, "Cmpxchg"@, "AtomicNotify"@, "AtomicWait"@,
        "AtomicFence"@, "TableGet"@, "TableSet"@, "TableGrow"@, "TableSize"@,
        "TableFill"@, "RefNull"@, "RefIsNull"@, "RefFunc"@, "V128Bitselect"@,
        "I8x16Swizzle"@, "I8x16Shuffle"@, "LoadSimd"@, "TableInit"@,
        "ElemDrop"@, "TableCopy"@,
    ]
}

pub open spec fn spec_wasm_probe_types() -> Seq<Seq<char>> {
    seq!["before"@, "after"@, "alt"@]
}

pub open spec fn spec_core_probe_types() -> Seq<Seq<char>> {
    seq!["begin"@, "end"@]
}

/// The catalog a fresh `Whamm` is seeded with: the `core` provider with
/// empty package and event names, and the `wasm` provider's `bytecode`
/// package with one event per supported operation.
pub open spec fn spec_default_catalog() -> ProbeCatalogV {
    ProbeCatalogV {
        providers: seq![
            CatalogProviderV {
                name: "core"@,
                packages: seq![
                    CatalogPackageV {
                        name: Seq::<char>::empty(),
                        events: seq![
                            CatalogEventV {
                                name: Seq::<char>::empty(),
                                probe_types: spec_core_probe_types(),
                            },
                        ],
                    },
                ],
            },
            CatalogProviderV {
                name: "wasm"@,
                packages: seq![
                    CatalogPackageV {
                        name: "bytecode"@,
                        events: Seq::new(
                            spec_wasm_bytecode_event_names().len(),
                            |i: int| CatalogEventV {
                                name: spec_wasm_bytecode_event_names()[i],
                                probe_types: spec_wasm_probe_types(),
                            },
                        ),
                    },
                ],
            },
        ],
    }
}

/// The host-provided `strcmp` intrinsic: compares the string at an
/// (address, length) pair against a string value.
pub open spec fn spec_strcmp_fn() -> FnV {
    FnV {
        is_comp_provided: true,
        name: "strcmp"@,
        params: seq![
            (
                ExprV::VarId { name: "str_addr"@, loc: None },
                DataTypeV::Tuple { ty_info: Some(seq![DataTypeV::Integer, DataTypeV::Integer]) },
            ),
            (ExprV::VarId { name: "value"@, loc: None }, DataTypeV::Str),
        ],
        return_ty: Some(DataTypeV::Boolean),
        body: None,
    }
}

fn wasm_bytecode_event_name_list() -> (r: Vec<String>)
    ensures
        r.deep_view() == spec_wasm_bytecode_event_names(),
{
    let mut v: Vec<String> = Vec::new();
    v.push(String::from_str("Block"));
    v.push(String::from_str("Loop"));
    v.push(String::from_str("Call"));
    v.push(String::from_str("CallIndirect"));
    v.push(String::from_str("LocalGet"));
    v.push(String::from_str("LocalSet"));
    v.push(String::from_str("LocalTee"));
    v.push(String::from_str("GlobalGet"));
    v.push(String::from_str("GlobalSet"));
    v.push(String::from_str("Const"));
    v.push(String::from_str("Binop"));
    v.push(String::from_str("Unop"));
    v.push(String::from_str("Select"));
    v.push(String::from_str("Unreachable"));
    v.push(String::from_str("Br"));
    v.push(String::from_str("BrIf"));
    v.push(String::from_str("IfElse"));
    v.push(String::from_str("BrTable"));
    v.push(String::from_str("Drop"));
    v.push(String::from_str("Return"));
    v.push(String::from_str("MemorySize"));
    v.push(String::from_str("MemoryGrow"));
    v.push(String::from_str("MemoryInit"));
    v.push(String::from_str("DataDrop"));
    v.push(String::from_str("MemoryCopy"));
    v.push(String::from_str("MemoryFill"));
    v.push(String::from_str("Load"));
    v.push(String::from_str("Store"));
    v.push(String::from_str("AtomicRmw"));
    v.push(String::from_str("Cmpxchg"));
    v.push(String::from_str("AtomicNotify"));
    v.push(String::from_str("AtomicWait"));
    v.push(String::from_str("AtomicFence"));
    v.push(String::from_str("TableGet"));
    v.push(String::from_str("TableSet"));
    v.push(String::from_str("TableGrow"));
    v.push(String::from_str("TableSize"));
    v.push(String::from_str("TableFill"));
    v.push(String::from_str("RefNull"));
    v.push(String::from_str("RefIsNull"));
    v.push(String::from_str("RefFunc"));
    v.push(String::from_str("V128Bitselect"));
    v.push(String::from_str("I8x16Swizzle"));
    v.push(String::from_str("I8x16Shuffle"));
    v.push(String::from_str("LoadSimd"));
    v.push(String::from_str("TableInit"));
    v.push(String::from_str("ElemDrop"));
    v.push(String::from_str("TableCopy"));
    proof {
        assert(v.deep_view() =~= spec_wasm_bytecode_event_names());
    }
    v
}

fn wasm_probe_type_list() -> (r: Vec<String>)
    ensures
        r.deep_view() == spec_wasm_probe_types(),
{
    let mut v: Vec<String> = Vec::new();
    v.push(String::from_str("before"));
    v.push(String::from_str("after"));
    v.push(String::from_str("alt"));
    proof {
        assert(v.deep_view() =~= spec_wasm_probe_types());
    }
    v
}

impl Whamm {
    /// The compilation root, seeded with the host-provided `strcmp`
    /// intrinsic and the fixed probe catalog: `core` (empty package and
    /// event names, probe types `begin`/`end`) and `wasm:bytecode` (one
    /// event per supported bytecode operation, probe types
    /// `before`/`after`/`alt`).
    pub fn new() -> (r: Self)
        ensures
            r@ == (WhammV {
                provided_probes: spec_default_catalog(),
                fns: seq![spec_strcmp_fn()],
                globals: Seq::empty(),
                whammys: Seq::empty(),
            }),
    {
        let mut whamm = Whamm {
            provided_probes: ProbeCatalog { providers: Vec::new() },
            fns: Whamm::get_provided_fns(),
            globals: Whamm::get_provided_globals(),
            whammys: Vec::new(),
        };
        whamm.init_provided_probes();
        proof {
            assert(whamm@.globals =~= Seq::<GlobalV>::empty());
            assert(whamm@.whammys =~= Seq::<WhammyV>::empty());
            assert(whamm@.fns =~= seq![spec_strcmp_fn()]);
        }
        whamm
    }

    fn get_provided_fns() -> (r: Vec<Fn>)
        ensures
            r@.map_values(|f: Fn| f@) == seq![spec_strcmp_fn()],
    {
        let mut params: Vec<(Expr, DataType)> = Vec::new();
        let mut tuple_tys: Vec<Box<DataType>> = Vec::new();
        tuple_tys.push(Box::new(DataType::Integer));
        tuple_tys.push(Box::new(DataType::Integer));
        params.push((
            Expr::VarId { name: String::from_str("str_addr"), loc: None },
            DataType::Tuple { ty_info: Some(tuple_tys) },
        ));
        params.push((Expr::VarId { name: String::from_str("value"), loc: None }, DataType::Str));
        let strcmp_fn = Fn {
            is_comp_provided: true,
            name: String::from_str("strcmp"),
            params,
            return_ty: Some(DataType::Boolean),
            body: None,
        };
        proof {
            lemma_view_params(strcmp_fn.params@);
            assert(view_datatype_list(strcmp_fn.params@[0].1->ty_info->0@) =~= seq![
                DataTypeV::Integer,
                DataTypeV::Integer,
            ]) by {
                lemma_view_datatype_list(strcmp_fn.params@[0].1->ty_info->0@);
            }
            assert(strcmp_fn@.params =~= spec_strcmp_fn().params);
            assert(strcmp_fn@ == spec_strcmp_fn());
        }
        let mut fns: Vec<Fn> = Vec::new();
        fns.push(strcmp_fn);
        proof {
            assert(fns@.map_values(|f: Fn| f@) =~= seq![spec_strcmp_fn()]);
        }
        fns
    }

    fn get_provided_globals() -> (r: Vec<Global>)
        ensures
            r@.len() == 0,
    {
        Vec::new()
    }

    fn init_provided_probes(&mut self)
        ensures
            final(self)@ == (WhammV { provided_probes: spec_default_catalog(), ..old(self)@ }),
    {
        self.provided_probes = ProbeCatalog { providers: Vec::new() };
        self.init_core_probes();
        self.init_wasm_probes();
    }

    fn init_core_probes(&mut self)
        requires
            old(self).provided_probes.providers@.len() == 0,
        ensures
            final(self)@ == (WhammV {
                provided_probes: ProbeCatalogV {
                    providers: seq![spec_default_catalog().providers[0]],
                },
                ..old(self)@
            }),
    {
        // No packages or events for a core probe: just the two types.
        let mut core_types: Vec<String> = Vec::new();
        core_types.push(String::from_str("begin"));
        core_types.push(String::from_str("end"));
        let core_event = CatalogEvent { name: String::new(), probe_types: core_types };
        let mut core_events: Vec<CatalogEvent> = Vec::new();
        core_events.push(core_event);
        let core_package = CatalogPackage { name: String::new(), events: core_events };
        let mut core_packages: Vec<CatalogPackage> = Vec::new();
        core_packages.push(core_package);
        let core_provider = CatalogProvider {
            name: String::from_str("core"),
            packages: core_packages,
        };
        proof {
            assert(core_provider@.packages[0].events[0].probe_types =~= spec_core_probe_types());
            assert(core_provider@.packages[0].events =~= spec_default_catalog().providers[0]
                .packages[0].events);
            assert(core_provider@.packages =~= spec_default_catalog().providers[0].packages);
        }
        self.provided_probes.providers.push(core_provider);
        proof {
            assert(self@.provided_probes.providers =~= seq![spec_default_catalog().providers[0]]);
        }
    }

    fn init_wasm_probes(&mut self)
        requires
            old(self)@.provided_probes.providers =~= seq![spec_default_catalog().providers[0]],
        ensures
            final(self)@ == (WhammV { provided_probes: spec_default_catalog(), ..old(self)@ }),
    {
        // One event per bytecode operation the rewriting back end supports.
        let wasm_bytecode_events = wasm_bytecode_event_name_list();
        let mut events: Vec<CatalogEvent> = Vec::new();
        let mut i: usize = 0;
        while i < wasm_bytecode_events.len()
            invariant
                *self == *old(self),
                i <= wasm_bytecode_events@.len(),
                wasm_bytecode_events.deep_view() == spec_wasm_bytecode_event_names(),
                events@.len() == i,
                forall|j: int|
                    0 <= j < i ==> events@[j]@ == (CatalogEventV {
                        name: spec_wasm_bytecode_event_names()[j],
                        probe_types: spec_wasm_probe_types(),
                    }),
            decreases wasm_bytecode_events@.len() - i,
        {
            let tys = wasm_probe_type_list();
            events.push(CatalogEvent { name: wasm_bytecode_events[i].clone(), probe_types: tys });
            proof {
                assert(wasm_bytecode_events@[i as int].deep_view()
                    == spec_wasm_bytecode_event_names()[i as int]);
                assert(events@[i as int]@ == (CatalogEventV {
                    name: spec_wasm_bytecode_event_names()[i as int],
                    probe_types: spec_wasm_probe_types(),
                }));
            }
            i = i + 1;
        }
        let mut packages: Vec<CatalogPackage> = Vec::new();
        packages.push(CatalogPackage { name: String::from_str("bytecode"), events });
        let provider = CatalogProvider { name: String::from_str("wasm"), packages };
        proof {
            assert(provider@.packages[0].events =~= spec_default_catalog().providers[1].packages[0]
                .events);
            assert(provider@.packages =~= spec_default_catalog().providers[1].packages);
            assert(provider@ == spec_default_catalog().providers[1]);
        }
        proof {
            assert(old(self)@.provided_probes.providers.len() == 1);
            assert(self@.provided_probes.providers.len() == 1);
        }
        self.provided_probes.providers.push(provider);
        proof {
            assert(self.provided_probes.providers@.len() == 2);
            assert(self@.provided_probes.providers.len() == 2);
            assert(self@.provided_probes.providers[0] == old(self)@.provided_probes.providers[0]);
            assert(self@.provided_probes.providers[1] == spec_default_catalog().providers[1]);
            assert(self@.provided_probes.providers =~= spec_default_catalog().providers);
        }
    }
}

// ==================================
// ==== Script-unit registration ====
// ==================================

/// The decimal rendering of a number, most significant digit first.
pub open spec fn spec_dec_digits(n: nat) -> Seq<char>
    decreases n,
{
    if n < 10 {
        seq![spec_digit_char(n)]
    } else {
        spec_dec_digits(n / 10).push(spec_digit_char(n % 10))
    }
}

pub open spec fn spec_digit_char(d: nat) -> char {
    if d == 0 {
        '0'
    } else if d == 1 {
        '1'
    } else if d == 2 {
        '2'
    } else if d == 3 {
        '3'
    } else if d == 4 {
        '4'
    } else if d == 5 {
        '5'
    } else if d == 6 {
        '6'
    } else if d == 7 {
        '7'
    } else if d == 8 {
        '8'
    } else {
        '9'
    }
}

fn digit_char(d: usize) -> (c: char)
    requires
        d < 10,
    ensures
        c == spec_digit_char(d as nat),
{
    match d {
        0 => '0',
        1 => '1',
        2 => '2',
        3 => '3',
        4 => '4',
        5 => '5',
        6 => '6',
        7 => '7',
        8 => '8',
        _ => '9',
    }
}

pub(crate) fn append_decimal(s: &mut String, n: usize)
    ensures
        final(s)@ == old(s)@ + spec_dec_digits(n as nat),
    decreases n,
{
    if n < 10 {
        push_char(s, digit_char(n));
        proof {
            assert(s@ =~= old(s)@ + spec_dec_digits(n as nat));
        }
    } else {
        append_decimal(s, n / 10);
        push_char(s, digit_char(n % 10));
        proof {
            assert(s@ =~= old(s)@ + spec_dec_digits(n as nat));
        }
    }
}

impl Whamm {
    /// Registers a script unit, assigning it the next generated name
    /// (`whammy` followed by its index); returns that index.
    pub fn add_whammy(&mut self, whammy: Whammy) -> (id: usize)
        ensures
            id == old(self).whammys@.len(),
            final(self)@ == (WhammV {
                whammys: old(self)@.whammys.push(
                    WhammyV {
                        name: "whammy"@ + spec_dec_digits(old(self).whammys@.len() as nat),
                        ..whammy@
                    },
                ),
                ..old(self)@
            }),
    {
        let id = self.whammys.len();
        let mut w = whammy;
        let mut name = String::from_str("whammy");
        append_decimal(&mut name, id);
        w.name = name;
        self.whammys.push(w);
        proof {
            assert(self@.whammys =~= old(self)@.whammys.push(
                WhammyV {
                    name: "whammy"@ + spec_dec_digits(old(self).whammys@.len() as nat),
                    ..whammy@
                },
            ));
        }
        id
    }
}

// ==================================
// ==== The wildcard resolver =======
// ==================================

/// The predicate "this probe list bears the given probe-type name".
pub open spec fn probe_list_named(name: Seq<char>) -> spec_fn(ProbeListV) -> bool {
    |pl: ProbeListV| pl.name == name
}

/// The predicate "this event node bears the given name".
pub open spec fn event_named(name: Seq<char>) -> spec_fn(EventV) -> bool {
    |e: EventV| e.name == name
}

/// The predicate "this package node bears the given name".
pub open spec fn package_named(name: Seq<char>) -> spec_fn(PackageV) -> bool {
    |p: PackageV| p.name == name
}

/// The predicate "this provider node bears the given name".
pub open spec fn provider_named(name: Seq<char>) -> spec_fn(ProviderV) -> bool {
    |p: ProviderV| p.name == name
}

/// A fresh probe carrying a predicate and a body, as the resolver clones
/// them per matched instrumentation point.
pub open spec fn spec_probe(
    name: Seq<char>,
    pred: Option<ExprV>,
    body: Option<Seq<StatementV>>,
) -> ProbeV {
    ProbeV { name, fns: Seq::empty(), globals: Seq::empty(), predicate: pred, body }
}

/// Appends a probe under its probe-type name in an event: to the existing
/// list when the name is present, else as a fresh single-probe list at the
/// end.
pub open spec fn spec_insert_probe(ev: EventV, name: Seq<char>, p: ProbeV) -> EventV {
    let i = first_index_by(ev.probe_map, probe_list_named(name));
    if i >= 0 {
        EventV {
            probe_map: ev.probe_map.update(
                i,
                ProbeListV { name: ev.probe_map[i].name, probes: ev.probe_map[i].probes.push(p) },
            ),
            ..ev
        }
    } else {
        EventV { probe_map: ev.probe_map.push(ProbeListV { name, probes: seq![p] }), ..ev }
    }
}

/// Inserts one probe copy per matched probe-type name, in match order.
pub open spec fn spec_add_probes(
    ev: EventV,
    tys: Seq<Seq<char>>,
    pred: Option<ExprV>,
    body: Option<Seq<StatementV>>,
) -> EventV
    decreases tys,
{
    if tys.len() == 0 {
        ev
    } else {
        spec_add_probes(
            spec_insert_probe(ev, tys[0], spec_probe(tys[0], pred, body)),
            tys.drop_first(),
            pred,
            body,
        )
    }
}

/// Resolves one matched event name inside a package: fetch-or-create the
/// event node under its lower-cased name, then insert probes for every
/// matched probe type.
pub open spec fn spec_add_one_event(
    pkg: PackageV,
    cat: ProbeCatalogV,
    prov: Seq<char>,
    pkgname: Seq<char>,
    evname: Seq<char>,
    nm_patt: Seq<char>,
    pred: Option<ExprV>,
    body: Option<Seq<StatementV>>,
) -> PackageV {
    let key = lower_of(evname);
    let tys = spec_matching_names(cat_probe_types(cat, prov, pkgname, evname), nm_patt);
    let i = first_index_by(pkg.events, event_named(key));
    if i >= 0 {
        PackageV {
            events: pkg.events.update(i, spec_add_probes(pkg.events[i], tys, pred, body)),
            ..pkg
        }
    } else {
        PackageV {
            events: pkg.events.push(spec_add_probes(spec_new_event(key), tys, pred, body)),
            ..pkg
        }
    }
}

pub open spec fn spec_add_events(
    pkg: PackageV,
    cat: ProbeCatalogV,
    prov: Seq<char>,
    pkgname: Seq<char>,
    evnames: Seq<Seq<char>>,
    nm_patt: Seq<char>,
    pred: Option<ExprV>,
    body: Option<Seq<StatementV>>,
) -> PackageV
    decreases evnames,
{
    if evnames.len() == 0 {
        pkg
    } else {
        spec_add_events(
            spec_add_one_event(pkg, cat, prov, pkgname, evnames[0], nm_patt, pred, body),
            cat,
            prov,
            pkgname,
            evnames.drop_first(),
            nm_patt,
            pred,
            body,
        )
    }
}

/// Resolves one matched package name inside a provider.
pub open spec fn spec_add_one_package(
    prov: ProviderV,
    cat: ProbeCatalogV,
    provname: Seq<char>,
    pkgname: Seq<char>,
    func_patt: Seq<char>,
    nm_patt: Seq<char>,
    pred: Option<ExprV>,
    body: Option<Seq<StatementV>>,
) -> ProviderV {
    let key = lower_of(pkgname);
    let evnames = spec_matching_names(cat_event_names(cat, provname, pkgname), func_patt);
    let i = first_index_by(prov.packages, package_named(key));
    if i >= 0 {
        ProviderV {
            packages: prov.packages.update(
                i,
                spec_add_events(
                    prov.packages[i],
                    cat,
                    provname,
                    pkgname,
                    evnames,
                    nm_patt,
                    pred,
                    body,
                ),
            ),
            ..prov
        }
    } else {
        ProviderV {
            packages: prov.packages.push(
                spec_add_events(
                    spec_new_package(key),
                    cat,
                    provname,
                    pkgname,
                    evnames,
                    nm_patt,
                    pred,
                    body,
                ),
            ),
            ..prov
        }
    }
}

pub open spec fn spec_add_packages(
    prov: ProviderV,
    cat: ProbeCatalogV,
    provname: Seq<char>,
    pkgnames: Seq<Seq<char>>,
    func_patt: Seq<char>,
    nm_patt: Seq<char>,
    pred: Option<ExprV>,
    body: Option<Seq<StatementV>>,
) -> ProviderV
    decreases pkgnames,
{
    if pkgnames.len() == 0 {
        prov
    } else {
        spec_add_packages(
            spec_add_one_package(prov, cat, provname, pkgnames[0], func_patt, nm_patt, pred, body),
            cat,
            provname,
            pkgnames.drop_first(),
            func_patt,
            nm_patt,
            pred,
            body,
        )
    }
}

/// Resolves one matched provider name into the script unit's provider list.
pub open spec fn spec_add_one_provider(
    provs: Seq<ProviderV>,
    cat: ProbeCatalogV,
    provname: Seq<char>,
    mod_patt: Seq<char>,
    func_patt: Seq<char>,
    nm_patt: Seq<char>,
    pred: Option<ExprV>,
    body: Option<Seq<StatementV>>,
) -> Seq<ProviderV> {
    let key = lower_of(provname);
    let pkgnames = spec_matching_names(cat_package_names(cat, provname), mod_patt);
    let i = first_index_by(provs, provider_named(key));
    if i >= 0 {
        provs.update(
            i,
            spec_add_packages(provs[i], cat, provname, pkgnames, func_patt, nm_patt, pred, body),
        )
    } else {
        provs.push(
            spec_add_packages(
                spec_new_provider(key),
                cat,
                provname,
                pkgnames,
                func_patt,
                nm_patt,
                pred,
                body,
            ),
        )
    }
}

pub open spec fn spec_add_providers(
    provs: Seq<ProviderV>,
    cat: ProbeCatalogV,
    provnames: Seq<Seq<char>>,
    mod_patt: Seq<char>,
    func_patt: Seq<char>,
    nm_patt: Seq<char>,
    pred: Option<ExprV>,
    body: Option<Seq<StatementV>>,
) -> Seq<ProviderV>
    decreases provnames,
{
    if provnames.len() == 0 {
        provs
    } else {
        spec_add_providers(
            spec_add_one_provider(
                provs,
                cat,
                provnames[0],
                mod_patt,
                func_patt,
                nm_patt,
                pred,
                body,
            ),
            cat,
            provnames.drop_first(),
            mod_patt,
            func_patt,
            nm_patt,
            pred,
            body,
        )
    }
}

/// The whole resolution step of one probe declaration against the catalog:
/// providers, then packages, then events, then probe types, each level
/// matched case-insensitively, with nodes fetched or created in insertion
/// order and one probe copy appended per match.
pub open spec fn spec_add_probe(
    w: WhammyV,
    cat: ProbeCatalogV,
    prov_patt: Seq<char>,
    mod_patt: Seq<char>,
    func_patt: Seq<char>,
    nm_patt: Seq<char>,
    pred: Option<ExprV>,
    body: Option<Seq<StatementV>>,
) -> WhammyV {
    WhammyV {
        providers: spec_add_providers(
            w.providers,
            cat,
            spec_matching_names(cat_provider_names(cat), prov_patt),
            mod_patt,
            func_patt,
            nm_patt,
            pred,
            body,
        ),
        ..w
    }
}

// Catalog finders, by exact (case-preserved) key.

fn find_catalog_provider<'a>(cat: &'a ProbeCatalog, name: &String) -> (r: Option<
    &'a CatalogProvider,
>)
    ensures
        match r {
            Some(p) => cat_has_provider(cat@, name@) && p@ == cat_provider(cat@, name@),
            None => !cat_has_provider(cat@, name@),
        },
{
    let mut i: usize = 0;
    while i < cat.providers.len()
        invariant
            i <= cat@.providers.len(),
            forall|j: int| 0 <= j < i ==> !catalog_provider_named(name@)(cat@.providers[j]),
        decreases cat@.providers.len() - i,
    {
        if cat.providers[i].name == *name {
            proof {
                lemma_first_index_by(cat@.providers, catalog_provider_named(name@));
                assert(catalog_provider_named(name@)(cat@.providers[i as int]));
            }
            return Some(&cat.providers[i]);
        }
        i = i + 1;
    }
    proof {
        lemma_first_index_by(cat@.providers, catalog_provider_named(name@));
    }
    None
}

fn find_catalog_package<'a>(prov: &'a CatalogProvider, name: &String) -> (r: Option<
    &'a CatalogPackage,
>)
    ensures
        ({
            let i = first_index_by(prov@.packages, catalog_package_named(name@));
            match r {
                Some(p) => i >= 0 && p@ == prov@.packages[i],
                None => i == -1,
            }
        }),
{
    let mut i: usize = 0;
    while i < prov.packages.len()
        invariant
            i <= prov@.packages.len(),
            forall|j: int| 0 <= j < i ==> !catalog_package_named(name@)(prov@.packages[j]),
        decreases prov@.packages.len() - i,
    {
        if prov.packages[i].name == *name {
            proof {
                lemma_first_index_by(prov@.packages, catalog_package_named(name@));
                assert(catalog_package_named(name@)(prov@.packages[i as int]));
            }
            return Some(&prov.packages[i]);
        }
        i = i + 1;
    }
    proof {
        lemma_first_index_by(prov@.packages, catalog_package_named(name@));
    }
    None
}

fn find_catalog_event<'a>(pkg: &'a CatalogPackage, name: &String) -> (r: Option<&'a CatalogEvent>)
    ensures
        ({
            let i = first_index_by(pkg@.events, catalog_event_named(name@));
            match r {
                Some(e) => i >= 0 && e@ == pkg@.events[i],
                None => i == -1,
            }
        }),
{
    let mut i: usize = 0;
    while i < pkg.events.len()
        invariant
            i <= pkg@.events.len(),
            forall|j: int| 0 <= j < i ==> !catalog_event_named(name@)(pkg@.events[j]),
        decreases pkg@.events.len() - i,
    {
        if pkg.events[i].name == *name {
            proof {
                lemma_first_index_by(pkg@.events, catalog_event_named(name@));
                assert(catalog_event_named(name@)(pkg@.events[i as int]));
            }
            return Some(&pkg.events[i]);
        }
        i = i + 1;
    }
    proof {
        lemma_first_index_by(pkg@.events, catalog_event_named(name@));
    }
    None
}

impl Provider {
    /// The provider names of the catalog that the pattern matches, in
    /// catalog order, case preserved.
    pub fn get_matches(provided_probes: &ProbeCatalog, prov_patt: &str) -> (r: Vec<String>)
        requires
            glob_pattern_ok(lower_of(prov_patt@)),
        ensures
            r.deep_view() == spec_matching_names(cat_provider_names(provided_probes@), prov_patt@),
    {
        let mut names: Vec<String> = Vec::new();
        let mut i: usize = 0;
        while i < provided_probes.providers.len()
            invariant
                i <= provided_probes@.providers.len(),
                names@.len() == i,
                forall|j: int|
                    0 <= j < i ==> names@[j]@ == cat_provider_names(provided_probes@)[j],
            decreases provided_probes@.providers.len() - i,
        {
            names.push(provided_probes.providers[i].name.clone());
            i = i + 1;
        }
        proof {
            assert(names.deep_view() =~= cat_provider_names(provided_probes@));
        }
        ci_filter_names(&names, prov_patt)
    }
}

impl Package {
    /// The package names of the given catalog provider that the pattern
    /// matches, in catalog order, case preserved.
    pub fn get_matches(provided_probes: &ProbeCatalog, provider: &str, mod_patt: &str) -> (r: Vec<
        String,
    >)
        requires
            glob_pattern_ok(lower_of(mod_patt@)),
            cat_has_provider(provided_probes@, provider@),
        ensures
            r.deep_view() == spec_matching_names(
                cat_package_names(provided_probes@, provider@),
                mod_patt@,
            ),
    {
        let target = String::from_str(provider);
        let prov = match find_catalog_provider(provided_probes, &target) {
            Some(p) => p,
            None => {
                proof {
                    assert(false);
                }
                unreached()
            },
        };
        let mut names: Vec<String> = Vec::new();
        let mut i: usize = 0;
        while i < prov.packages.len()
            invariant
                i <= prov@.packages.len(),
                prov@ == cat_provider(provided_probes@, provider@),
                names@.len() == i,
                forall|j: int|
                    0 <= j < i ==> names@[j]@ == cat_package_names(provided_probes@, provider@)[j],
            decreases prov@.packages.len() - i,
        {
            names.push(prov.packages[i].name.clone());
            i = i + 1;
        }
        proof {
            assert(names.deep_view() =~= cat_package_names(provided_probes@, provider@));
        }
        ci_filter_names(&names, mod_patt)
    }
}

impl Event {
    /// The event names of the given catalog package that the pattern
    /// matches, in catalog order, case preserved.
    pub fn get_matches(
        provided_probes: &ProbeCatalog,
        provider: &str,
        package: &str,
        func_patt: &str,
    ) -> (r: Vec<String>)
        requires
            glob_pattern_ok(lower_of(func_patt@)),
            cat_has_package(provided_probes@, provider@, package@),
        ensures
            r.deep_view() == spec_matching_names(
                cat_event_names(provided_probes@, provider@, package@),
                func_patt@,
            ),
    {
        let prov_key = String::from_str(provider);
        let prov = match find_catalog_provider(provided_probes, &prov_key) {
            Some(p) => p,
            None => {
                proof {
                    assert(false);
                }
                unreached()
            },
        };
        let pkg_key = String::from_str(package);
        let pkg = match find_catalog_package(prov, &pkg_key) {
            Some(p) => p,
            None => {
                proof {
                    assert(false);
                }
                unreached()
            },
        };
        let mut names: Vec<String> = Vec::new();
        let mut i: usize = 0;
        while i < pkg.events.len()
            invariant
                i <= pkg@.events.len(),
                pkg@ == cat_package(provided_probes@, provider@, package@),
                names@.len() == i,
                forall|j: int|
                    0 <= j < i ==> names@[j]@ == cat_event_names(
                        provided_probes@,
                        provider@,
                        package@,
                    )[j],
            decreases pkg@.events.len() - i,
        {
            names.push(pkg.events[i].name.clone());
            i = i + 1;
        }
        proof {
            assert(names.deep_view() =~= cat_event_names(provided_probes@, provider@, package@));
        }
        ci_filter_names(&names, func_patt)
    }
}

impl Probe {
    /// The probe-type names legal on the given catalog event that the
    /// pattern matches, in catalog order.
    pub fn get_matches(
        provided_probes: &ProbeCatalog,
        provider: &str,
        package: &str,
        event: &str,
        probe_patt: &str,
    ) -> (r: Vec<String>)
        requires
            glob_pattern_ok(lower_of(probe_patt@)),
            cat_has_event(provided_probes@, provider@, package@, event@),
        ensures
            r.deep_view() == spec_matching_names(
                cat_probe_types(provided_probes@, provider@, package@, event@),
                probe_patt@,
            ),
    {
        let prov_key = String::from_str(provider);
        let prov = match find_catalog_provider(provided_probes, &prov_key) {
            Some(p) => p,
            None => {
                proof {
                    assert(false);
                }
                unreached()
            },
        };
        let pkg_key = String::from_str(package);
        let pkg = match find_catalog_package(prov, &pkg_key) {
            Some(p) => p,
            None => {
                proof {
                    assert(false);
                }
                unreached()
            },
        };
        let ev_key = String::from_str(event);
        let ev = match find_catalog_event(pkg, &ev_key) {
            Some(e) => e,
            None => {
                proof {
                    assert(false);
                }
                unreached()
            },
        };
        let mut names: Vec<String> = Vec::new();
        let mut i: usize = 0;
        while i < ev.probe_types.len()
            invariant
                i <= ev@.probe_types.len(),
                ev@ == cat_event(provided_probes@, provider@, package@, event@),
                names@.len() == i,
                forall|j: int|
                    0 <= j < i ==> names@[j]@ == cat_probe_types(
                        provided_probes@,
                        provider@,
                        package@,
                        event@,
                    )[j],
            decreases ev@.probe_types.len() - i,
        {
            names.push(ev.probe_types[i].clone());
            i = i + 1;
        }
        proof {
            assert(names.deep_view() =~= cat_probe_types(
                provided_probes@,
                provider@,
                package@,
                event@,
            ));
        }
        ci_filter_names(&names, probe_patt)
    }
}

impl Event {
    /// Appends the probe under the given probe-type name: to that name's
    /// list when it already exists, else as a fresh list at the end; probes
    /// under one name keep their insertion order and are never deduplicated.
    pub fn insert_probe(&mut self, name: String, probe: Probe)
        ensures
            final(self)@ == spec_insert_probe(old(self)@, name@, probe@),
    {
        let mut i: usize = 0;
        while i < self.probe_map.len()
            invariant
                *self == *old(self),
                i <= self.probe_map@.len(),
                forall|j: int| 0 <= j < i ==> !probe_list_named(name@)(old(self)@.probe_map[j]),
            decreases self.probe_map@.len() - i,
        {
            if self.probe_map[i].name == name {
                proof {
                    lemma_first_index_by(old(self)@.probe_map, probe_list_named(name@));
                    assert(probe_list_named(name@)(old(self)@.probe_map[i as int]));
                }
                self.probe_map[i].probes.push(probe);
                proof {
                    let oldpl = old(self)@.probe_map[i as int];
                    assert(self.probe_map@[i as int]@.probes =~= oldpl.probes.push(probe@));
                    assert(self.probe_map@[i as int]@ == (ProbeListV {
                        name: oldpl.name,
                        probes: oldpl.probes.push(probe@),
                    }));
                    assert(self@.probe_map =~= spec_insert_probe(
                        old(self)@,
                        name@,
                        probe@,
                    ).probe_map);
                }
                return ;
            }
            i = i + 1;
        }
        proof {
            lemma_first_index_by(old(self)@.probe_map, probe_list_named(name@));
        }
        let mut probes: Vec<Probe> = Vec::new();
        probes.push(probe);
        proof {
            assert(probes@.map_values(|p: Probe| p@) =~= seq![probe@]);
        }
        self.probe_map.push(ProbeList { name, probes });
        proof {
            assert(self.probe_map@[self.probe_map@.len() - 1]@ == (ProbeListV {
                name: name@,
                probes: seq![probe@],
            }));
            assert(self@.probe_map =~= spec_insert_probe(old(self)@, name@, probe@).probe_map);
        }
    }
}

/// A name matched at provider level is a provider of the catalog.
proof fn lemma_matched_provider_present(cat: ProbeCatalogV, patt: Seq<char>, k: int)
    requires
        0 <= k < spec_matching_names(cat_provider_names(cat), patt).len(),
    ensures
        cat_has_provider(cat, spec_matching_names(cat_provider_names(cat), patt)[k]),
{
    lemma_matching_names_membership(cat_provider_names(cat), patt);
    let nm = spec_matching_names(cat_provider_names(cat), patt)[k];
    let j = choose|j: int|
        0 <= j < cat_provider_names(cat).len() && cat_provider_names(cat)[j] == nm;
    assert(catalog_provider_named(nm)(cat.providers[j]));
    lemma_first_index_by(cat.providers, catalog_provider_named(nm));
}

/// A name matched at package level is a package of that catalog provider.
proof fn lemma_matched_package_present(cat: ProbeCatalogV, prov: Seq<char>, patt: Seq<char>, k: int)
    requires
        cat_has_provider(cat, prov),
        0 <= k < spec_matching_names(cat_package_names(cat, prov), patt).len(),
    ensures
        cat_has_package(cat, prov, spec_matching_names(cat_package_names(cat, prov), patt)[k]),
{
    lemma_matching_names_membership(cat_package_names(cat, prov), patt);
    let nm = spec_matching_names(cat_package_names(cat, prov), patt)[k];
    let j = choose|j: int|
        0 <= j < cat_package_names(cat, prov).len() && cat_package_names(cat, prov)[j] == nm;
    assert(catalog_package_named(nm)(cat_provider(cat, prov).packages[j]));
    lemma_first_index_by(cat_provider(cat, prov).packages, catalog_package_named(nm));
}

/// A name matched at event level is an event of that catalog package.
proof fn lemma_matched_event_present(
    cat: ProbeCatalogV,
    prov: Seq<char>,
    pkg: Seq<char>,
    patt: Seq<char>,
    k: int,
)
    requires
        cat_has_package(cat, prov, pkg),
        0 <= k < spec_matching_names(cat_event_names(cat, prov, pkg), patt).len(),
    ensures
        cat_has_event(cat, prov, pkg, spec_matching_names(cat_event_names(cat, prov, pkg), patt)[k]),
{
    lemma_matching_names_membership(cat_event_names(cat, prov, pkg), patt);
    let nm = spec_matching_names(cat_event_names(cat, prov, pkg), patt)[k];
    let j = choose|j: int|
        0 <= j < cat_event_names(cat, prov, pkg).len() && cat_event_names(cat, prov, pkg)[j]
            == nm;
    assert(catalog_event_named(nm)(cat_package(cat, prov, pkg).events[j]));
    lemma_first_index_by(cat_package(cat, prov, pkg).events, catalog_event_named(nm));
}

/// Inserts one probe copy per matched probe-type name into the event, in
/// match order.
fn add_into_event(ev: &mut Event, tys: &Vec<String>, predicate: &Option<Expr>, body: &Option<
    Vec<Statement>,
>)
    ensures
        final(ev)@ == spec_add_probes(
            old(ev)@,
            tys.deep_view(),
            view_opt_expr(*predicate),
            view_opt_statements(*body),
        ),
{
    let ghost tys0 = tys.deep_view();
    let ghost p = view_opt_expr(*predicate);
    let ghost b = view_opt_statements(*body);
    let ghost target = spec_add_probes(old(ev)@, tys0, p, b);
    proof {
        assert(tys0.skip(0) =~= tys0);
    }
    let mut i: usize = 0;
    while i < tys.len()
        invariant
            i <= tys0.len(),
            tys0 == tys.deep_view(),
            p == view_opt_expr(*predicate),
            b == view_opt_statements(*body),
            target == spec_add_probes(old(ev)@, tys0, p, b),
            spec_add_probes(ev@, tys0.skip(i as int), p, b) == target,
        decreases tys0.len() - i,
    {
        let name = tys[i].clone();
        let probe = Probe::new(
            tys[i].clone(),
            copy_opt_expr(predicate),
            copy_opt_statements(body),
        );
        proof {
            assert(probe@ == spec_probe(tys0[i as int], p, b));
            assert(tys0.skip(i as int).drop_first() =~= tys0.skip(i as int + 1));
            assert(tys0.skip(i as int)[0] == tys0[i as int]);
        }
        ev.insert_probe(name, probe);
        i = i + 1;
    }
    proof {
        assert(tys0.skip(tys0.len() as int) =~= Seq::<Seq<char>>::empty());
    }
}

/// Resolves the matched events of one catalog package into the package
/// node: fetch-or-create each event under its lower-cased name, then insert
/// probes for every matched probe type.
fn add_into_package(
    pkg: &mut Package,
    cat: &ProbeCatalog,
    prov_name: &String,
    pkg_name: &String,
    func_patt: &str,
    nm_patt: &str,
    predicate: &Option<Expr>,
    body: &Option<Vec<Statement>>,
)
    requires
        glob_pattern_ok(lower_of(func_patt@)),
        glob_pattern_ok(lower_of(nm_patt@)),
        cat_has_package(cat@, prov_name@, pkg_name@),
    ensures
        final(pkg)@ == spec_add_events(
            old(pkg)@,
            cat@,
            prov_name@,
            pkg_name@,
            spec_matching_names(cat_event_names(cat@, prov_name@, pkg_name@), func_patt@),
            nm_patt@,
            view_opt_expr(*predicate),
            view_opt_statements(*body),
        ),
{
    let ev_names = Event::get_matches(cat, prov_name.as_str(), pkg_name.as_str(), func_patt);
    let ghost evs0 = ev_names.deep_view();
    let ghost p = view_opt_expr(*predicate);
    let ghost b = view_opt_statements(*body);
    let ghost target = spec_add_events(old(pkg)@, cat@, prov_name@, pkg_name@, evs0, nm_patt@, p, b);
    proof {
        assert(evs0.skip(0) =~= evs0);
    }
    let mut i: usize = 0;
    while i < ev_names.len()
        invariant
            i <= evs0.len(),
            evs0 == ev_names.deep_view(),
            evs0 == spec_matching_names(
                cat_event_names(cat@, prov_name@, pkg_name@),
                func_patt@,
            ),
            p == view_opt_expr(*predicate),
            b == view_opt_statements(*body),
            glob_pattern_ok(lower_of(nm_patt@)),
            cat_has_package(cat@, prov_name@, pkg_name@),
            target == spec_add_events(
                old(pkg)@,
                cat@,
                prov_name@,
                pkg_name@,
                evs0,
                nm_patt@,
                p,
                b,
            ),
            spec_add_events(
                pkg@,
                cat@,
                prov_name@,
                pkg_name@,
                evs0.skip(i as int),
                nm_patt@,
                p,
                b,
            ) == target,
        decreases evs0.len() - i,
    {
        proof {
            lemma_matched_event_present(cat@, prov_name@, pkg_name@, func_patt@, i as int);
            assert(evs0.skip(i as int).drop_first() =~= evs0.skip(i as int + 1));
            assert(evs0.skip(i as int)[0] == evs0[i as int]);
        }
        let ghost pkg_pre = pkg@;
        let evname = ev_names[i].clone();
        let tys = Probe::get_matches(
            cat,
            prov_name.as_str(),
            pkg_name.as_str(),
            evname.as_str(),
            nm_patt,
        );
        let key = to_lowercase(evname.as_str());
        // Fetch-or-create the event node under its lower-cased name.
        let mut j: usize = 0;
        let mut found: bool = false;
        let mut idx: usize = 0;
        while j < pkg.events.len()
            invariant
                j <= pkg@.events.len(),
                pkg@ == pkg_pre,
                key@ == lower_of(evs0[i as int]),
                !found ==> forall|k: int| 0 <= k < j ==> !event_named(key@)(pkg@.events[k]),
                found ==> 0 <= idx < pkg@.events.len() && event_named(key@)(pkg@.events[idx as int])
                    && (forall|k: int| 0 <= k < idx ==> !event_named(key@)(pkg@.events[k])),
            decreases pkg@.events.len() - j,
        {
            if !found && pkg.events[j].name == key {
                found = true;
                idx = j;
                proof {
                    assert(event_named(key@)(pkg@.events[j as int]));
                }
            }
            j = j + 1;
        }
        let ghost fi = first_index_by(pkg_pre.events, event_named(lower_of(evs0[i as int])));
        proof {
            lemma_first_index_by(pkg_pre.events, event_named(key@));
            if found {
                assert(fi == idx);
            } else {
                assert(fi == -1);
            }
        }
        if found {
            add_into_event(&mut pkg.events[idx], &tys, predicate, body);
            proof {
                assert(pkg@.events =~= pkg_pre.events.update(
                    fi,
                    spec_add_probes(
                        pkg_pre.events[fi],
                        spec_matching_names(
                            cat_probe_types(cat@, prov_name@, pkg_name@, evs0[i as int]),
                            nm_patt@,
                        ),
                        p,
                        b,
                    ),
                ));
                assert(pkg@ == spec_add_one_event(
                    pkg_pre,
                    cat@,
                    prov_name@,
                    pkg_name@,
                    evs0[i as int],
                    nm_patt@,
                    p,
                    b,
                ));
            }
        } else {
            let mut e = Event::new(key);
            add_into_event(&mut e, &tys, predicate, body);
            pkg.events.push(e);
            proof {
                assert(pkg@.events =~= pkg_pre.events.push(
                    spec_add_probes(
                        spec_new_event(lower_of(evs0[i as int])),
                        spec_matching_names(
                            cat_probe_types(cat@, prov_name@, pkg_name@, evs0[i as int]),
                            nm_patt@,
                        ),
                        p,
                        b,
                    ),
                ));
                assert(pkg@ == spec_add_one_event(
                    pkg_pre,
                    cat@,
                    prov_name@,
                    pkg_name@,
                    evs0[i as int],
                    nm_patt@,
                    p,
                    b,
                ));
            }
        }
        i = i + 1;
    }
    proof {
        assert(evs0.skip(evs0.len() as int) =~= Seq::<Seq<char>>::empty());
    }
}

/// Resolves the matched packages of one catalog provider into the provider
/// node.
fn add_into_provider(
    prov: &mut Provider,
    cat: &ProbeCatalog,
    prov_name: &String,
    mod_patt: &str,
    func_patt: &str,
    nm_patt: &str,
    predicate: &Option<Expr>,
    body: &Option<Vec<Statement>>,
)
    requires
        glob_pattern_ok(lower_of(mod_patt@)),
        glob_pattern_ok(lower_of(func_patt@)),
        glob_pattern_ok(lower_of(nm_patt@)),
        cat_has_provider(cat@, prov_name@),
    ensures
        final(prov)@ == spec_add_packages(
            old(prov)@,
            cat@,
            prov_name@,
            spec_matching_names(cat_package_names(cat@, prov_name@), mod_patt@),
            func_patt@,
            nm_patt@,
            view_opt_expr(*predicate),
            view_opt_statements(*body),
        ),
{
    let pkg_names = Package::get_matches(cat, prov_name.as_str(), mod_patt);
    let ghost pkgs0 = pkg_names.deep_view();
    let ghost p = view_opt_expr(*predicate);
    let ghost b = view_opt_statements(*body);
    let ghost target = spec_add_packages(
        old(prov)@,
        cat@,
        prov_name@,
        pkgs0,
        func_patt@,
        nm_patt@,
        p,
        b,
    );
    proof {
        assert(pkgs0.skip(0) =~= pkgs0);
    }
    let mut i: usize = 0;
    while i < pkg_names.len()
        invariant
            i <= pkgs0.len(),
            pkgs0 == pkg_names.deep_view(),
            pkgs0 == spec_matching_names(cat_package_names(cat@, prov_name@), mod_patt@),
            p == view_opt_expr(*predicate),
            b == view_opt_statements(*body),
            glob_pattern_ok(lower_of(func_patt@)),
            glob_pattern_ok(lower_of(nm_patt@)),
            cat_has_provider(cat@, prov_name@),
            target == spec_add_packages(
                old(prov)@,
                cat@,
                prov_name@,
                pkgs0,
                func_patt@,
                nm_patt@,
                p,
                b,
            ),
            spec_add_packages(
                prov@,
                cat@,
                prov_name@,
                pkgs0.skip(i as int),
                func_patt@,
                nm_patt@,
                p,
                b,
            ) == target,
        decreases pkgs0.len() - i,
    {
        proof {
            lemma_matched_package_present(cat@, prov_name@, mod_patt@, i as int);
            assert(pkgs0.skip(i as int).drop_first() =~= pkgs0.skip(i as int + 1));
            assert(pkgs0.skip(i as int)[0] == pkgs0[i as int]);
        }
        let ghost prov_pre = prov@;
        let pkgname = pkg_names[i].clone();
        let key = to_lowercase(pkgname.as_str());
        // Fetch-or-create the package node under its lower-cased name.
        let mut j: usize = 0;
        let mut found: bool = false;
        let mut idx: usize = 0;
        while j < prov.packages.len()
            invariant
                j <= prov@.packages.len(),
                prov@ == prov_pre,
                key@ == lower_of(pkgs0[i as int]),
                !found ==> forall|k: int| 0 <= k < j ==> !package_named(key@)(prov@.packages[k]),
                found ==> 0 <= idx < prov@.packages.len() && package_named(key@)(
                    prov@.packages[idx as int],
                ) && (forall|k: int| 0 <= k < idx ==> !package_named(key@)(prov@.packages[k])),
            decreases prov@.packages.len() - j,
        {
            if !found && prov.packages[j].name == key {
                found = true;
                idx = j;
                proof {
                    assert(package_named(key@)(prov@.packages[j as int]));
                }
            }
            j = j + 1;
        }
        let ghost fi = first_index_by(prov_pre.packages, package_named(lower_of(pkgs0[i as int])));
        proof {
            lemma_first_index_by(prov_pre.packages, package_named(key@));
            if found {
                assert(fi == idx);
            } else {
                assert(fi == -1);
            }
        }
        if found {
            add_into_package(
                &mut prov.packages[idx],
                cat,
                prov_name,
                &pkgname,
                func_patt,
                nm_patt,
                predicate,
                body,
            );
            proof {
                assert(prov@.packages =~= prov_pre.packages.update(
                    fi,
                    spec_add_events(
                        prov_pre.packages[fi],
                        cat@,
                        prov_name@,
                        pkgs0[i as int],
                        spec_matching_names(
                            cat_event_names(cat@, prov_name@, pkgs0[i as int]),
                            func_patt@,
                        ),
                        nm_patt@,
                        p,
                        b,
                    ),
                ));
                assert(prov@ == spec_add_one_package(
                    prov_pre,
                    cat@,
                    prov_name@,
                    pkgs0[i as int],
                    func_patt@,
                    nm_patt@,
                    p,
                    b,
                ));
            }
        } else {
            let mut newpkg = Package::new(key);
            add_into_package(
                &mut newpkg,
                cat,
                prov_name,
                &pkgname,
                func_patt,
                nm_patt,
                predicate,
                body,
            );
            prov.packages.push(newpkg);
            proof {
                assert(prov@.packages =~= prov_pre.packages.push(
                    spec_add_events(
                        spec_new_package(lower_of(pkgs0[i as int])),
                        cat@,
                        prov_name@,
                        pkgs0[i as int],
                        spec_matching_names(
                            cat_event_names(cat@, prov_name@, pkgs0[i as int]),
                            func_patt@,
                        ),
                        nm_patt@,
                        p,
                        b,
                    ),
                ));
                assert(prov@ == spec_add_one_package(
                    prov_pre,
                    cat@,
                    prov_name@,
                    pkgs0[i as int],
                    func_patt@,
                    nm_patt@,
                    p,
                    b,
                ));
            }
        }
        i = i + 1;
    }
    proof {
        assert(pkgs0.skip(pkgs0.len() as int) =~= Seq::<Seq<char>>::empty());
    }
}

impl Whammy {
    /// Resolves one probe declaration against the catalog and records the
    /// resulting probes in this script unit.
    ///
    /// Each pattern is folded to lower case and glob-matched against the
    /// catalog names of its level; nodes are fetched or created per match,
    /// and one copy of the predicate and body is appended per matched
    /// probe type. A pattern that matches nothing adds nothing, silently.
    /// A pattern whose lower-cased text is not a well-formed glob is
    /// rejected, and the script unit is left unchanged.
    pub fn add_probe(
        &mut self,
        provided_probes: &ProbeCatalog,
        prov_patt: &str,
        mod_patt: &str,
        func_patt: &str,
        nm_patt: &str,
        predicate: Option<Expr>,
        body: Option<Vec<Statement>>,
    ) -> (r: Result<(), ParseError>)
        ensures
            r is Ok <==> (glob_pattern_ok(lower_of(prov_patt@)) && glob_pattern_ok(
                lower_of(mod_patt@),
            ) && glob_pattern_ok(lower_of(func_patt@)) && glob_pattern_ok(lower_of(nm_patt@))),
            r is Ok ==> final(self)@ == spec_add_probe(
                old(self)@,
                provided_probes@,
                prov_patt@,
                mod_patt@,
                func_patt@,
                nm_patt@,
                view_opt_expr(predicate),
                view_opt_statements(body),
            ),
            r is Err ==> *final(self) == *old(self),
    {
        let lp = to_lowercase(prov_patt);
        let lm = to_lowercase(mod_patt);
        let lf = to_lowercase(func_patt);
        let ln = to_lowercase(nm_patt);
        if !(glob_pattern_compiles(lp.as_str()) && glob_pattern_compiles(lm.as_str())
            && glob_pattern_compiles(lf.as_str()) && glob_pattern_compiles(ln.as_str())) {
            return Err(
                ParseError {
                    msg: String::from_str("malformed glob pattern in probe specification"),
                    loc: None,
                },
            );
        }
        let prov_names = Provider::get_matches(provided_probes, prov_patt);
        let ghost provs0 = prov_names.deep_view();
        let ghost p = view_opt_expr(predicate);
        let ghost b = view_opt_statements(body);
        let ghost target = spec_add_providers(
            old(self)@.providers,
            provided_probes@,
            provs0,
            mod_patt@,
            func_patt@,
            nm_patt@,
            p,
            b,
        );
        proof {
            assert(provs0.skip(0) =~= provs0);
        }
        let mut i: usize = 0;
        while i < prov_names.len()
            invariant
                i <= provs0.len(),
                provs0 == prov_names.deep_view(),
                provs0 == spec_matching_names(cat_provider_names(provided_probes@), prov_patt@),
                p == view_opt_expr(predicate),
                b == view_opt_statements(body),
                glob_pattern_ok(lower_of(mod_patt@)),
                glob_pattern_ok(lower_of(func_patt@)),
                glob_pattern_ok(lower_of(nm_patt@)),
                self@.name == old(self)@.name,
                self@.fns == old(self)@.fns,
                self@.globals == old(self)@.globals,
                target == spec_add_providers(
                    old(self)@.providers,
                    provided_probes@,
                    provs0,
                    mod_patt@,
                    func_patt@,
                    nm_patt@,
                    p,
                    b,
                ),
                spec_add_providers(
                    self@.providers,
                    provided_probes@,
                    provs0.skip(i as int),
                    mod_patt@,
                    func_patt@,
                    nm_patt@,
                    p,
                    b,
                ) == target,
            decreases provs0.len() - i,
        {
            proof {
                lemma_matched_provider_present(provided_probes@, prov_patt@, i as int);
                assert(provs0.skip(i as int).drop_first() =~= provs0.skip(i as int + 1));
                assert(provs0.skip(i as int)[0] == provs0[i as int]);
            }
            let ghost provs_pre = self@.providers;
            let provname = prov_names[i].clone();
            let key = to_lowercase(provname.as_str());
            // Fetch-or-create the provider node under its lower-cased name.
            let mut j: usize = 0;
            let mut found: bool = false;
            let mut idx: usize = 0;
            while j < self.providers.len()
                invariant
                    j <= self@.providers.len(),
                    self@.providers == provs_pre,
                    key@ == lower_of(provs0[i as int]),
                    !found ==> forall|k: int|
                        0 <= k < j ==> !provider_named(key@)(self@.providers[k]),
                    found ==> 0 <= idx < self@.providers.len() && provider_named(key@)(
                        self@.providers[idx as int],
                    ) && (forall|k: int| 0 <= k < idx ==> !provider_named(key@)(
                        self@.providers[k],
                    )),
                decreases self@.providers.len() - j,
            {
                if !found && self.providers[j].name == key {
                    found = true;
                    idx = j;
                    proof {
                        assert(provider_named(key@)(self@.providers[j as int]));
                    }
                }
                j = j + 1;
            }
            let ghost fi = first_index_by(provs_pre, provider_named(lower_of(provs0[i as int])));
            proof {
                lemma_first_index_by(provs_pre, provider_named(key@));
                if found {
                    assert(fi == idx);
                } else {
                    assert(fi == -1);
                }
            }
            if found {
                add_into_provider(
                    &mut self.providers[idx],
                    provided_probes,
                    &provname,
                    mod_patt,
                    func_patt,
                    nm_patt,
                    &predicate,
                    &body,
                );
                proof {
                    assert(self@.providers =~= provs_pre.update(
                        fi,
                        spec_add_packages(
                            provs_pre[fi],
                            provided_probes@,
                            provs0[i as int],
                            spec_matching_names(
                                cat_package_names(provided_probes@, provs0[i as int]),
                                mod_patt@,
                            ),
                            func_patt@,
                            nm_patt@,
                            p,
                            b,
                        ),
                    ));
                    assert(self@.providers == spec_add_one_provider(
                        provs_pre,
                        provided_probes@,
                        provs0[i as int],
                        mod_patt@,
                        func_patt@,
                        nm_patt@,
                        p,
                        b,
                    ));
                }
            } else {
                let mut newprov = Provider::new(key);
                add_into_provider(
                    &mut newprov,
                    provided_probes,
                    &provname,
                    mod_patt,
                    func_patt,
                    nm_patt,
                    &predicate,
                    &body,
                );
                self.providers.push(newprov);
                proof {
                    assert(self@.providers =~= provs_pre.push(
                        spec_add_packages(
                            spec_new_provider(lower_of(provs0[i as int])),
                            provided_probes@,
                            provs0[i as int],
                            spec_matching_names(
                                cat_package_names(provided_probes@, provs0[i as int]),
                                mod_patt@,
                            ),
                            func_patt@,
                            nm_patt@,
                            p,
                            b,
                        ),
                    ));
                    assert(self@.providers == spec_add_one_provider(
                        provs_pre,
                        provided_probes@,
                        provs0[i as int],
                        mod_patt@,
                        func_patt@,
                        nm_patt@,
                        p,
                        b,
                    ));
                }
            }
            i = i + 1;
        }
        proof {
            assert(provs0.skip(provs0.len() as int) =~= Seq::<Seq<char>>::empty());
        }
        Ok(())
    }
}

// ==================================
// ==== Laws of the resolver ========
// ==================================

/// The probes recorded under a (provider, package, event, probe-type) path
/// of a script unit, or the empty sequence where the path has no node.
pub open spec fn probes_at(
    w: WhammyV,
    prov: Seq<char>,
    pkg: Seq<char>,
    ev: Seq<char>,
    ty: Seq<char>,
) -> Seq<ProbeV> {
    let i = first_index_by(w.providers, provider_named(prov));
    if i < 0 {
        Seq::empty()
    } else {
        provider_probes(w.providers[i], pkg, ev, ty)
    }
}

proof fn lemma_insert_probe_preserves_name(ev: EventV, name: Seq<char>, p: ProbeV)
    ensures
        spec_insert_probe(ev, name, p).name == ev.name,
        spec_insert_probe(ev, name, p).fns == ev.fns,
        spec_insert_probe(ev, name, p).globals == ev.globals,
{
}

proof fn lemma_add_probes_preserves_name(
    ev: EventV,
    tys: Seq<Seq<char>>,
    pred: Option<ExprV>,
    body: Option<Seq<StatementV>>,
)
    ensures
        spec_add_probes(ev, tys, pred, body).name == ev.name,
        spec_add_probes(ev, tys, pred, body).fns == ev.fns,
        spec_add_probes(ev, tys, pred, body).globals == ev.globals,
    decreases tys,
{
    if tys.len() > 0 {
        lemma_add_probes_preserves_name(
            spec_insert_probe(ev, tys[0], spec_probe(tys[0], pred, body)),
            tys.drop_first(),
            pred,
            body,
        );
    }
}

proof fn lemma_add_events_preserves_name(
    pkg: PackageV,
    cat: ProbeCatalogV,
    prov: Seq<char>,
    pkgname: Seq<char>,
    evnames: Seq<Seq<char>>,
    nm_patt: Seq<char>,
    pred: Option<ExprV>,
    body: Option<Seq<StatementV>>,
)
    ensures
        spec_add_events(pkg, cat, prov, pkgname, evnames, nm_patt, pred, body).name == pkg.name,
        spec_add_events(pkg, cat, prov, pkgname, evnames, nm_patt, pred, body).fns == pkg.fns,
        spec_add_events(pkg, cat, prov, pkgname, evnames, nm_patt, pred, body).globals
            == pkg.globals,
    decreases evnames,
{
    if evnames.len() > 0 {
        lemma_add_events_preserves_name(
            spec_add_one_event(pkg, cat, prov, pkgname, evnames[0], nm_patt, pred, body),
            cat,
            prov,
            pkgname,
            evnames.drop_first(),
            nm_patt,
            pred,
            body,
        );
    }
}

proof fn lemma_add_packages_preserves_name(
    prov: ProviderV,
    cat: ProbeCatalogV,
    provname: Seq<char>,
    pkgnames: Seq<Seq<char>>,
    func_patt: Seq<char>,
    nm_patt: Seq<char>,
    pred: Option<ExprV>,
    body: Option<Seq<StatementV>>,
)
    ensures
        spec_add_packages(prov, cat, provname, pkgnames, func_patt, nm_patt, pred, body).name
            == prov.name,
        spec_add_packages(prov, cat, provname, pkgnames, func_patt, nm_patt, pred, body).fns
            == prov.fns,
        spec_add_packages(prov, cat, provname, pkgnames, func_patt, nm_patt, pred, body).globals
            == prov.globals,
    decreases pkgnames,
{
    if pkgnames.len() > 0 {
        lemma_add_packages_preserves_name(
            spec_add_one_package(prov, cat, provname, pkgnames[0], func_patt, nm_patt, pred, body),
            cat,
            provname,
            pkgnames.drop_first(),
            func_patt,
            nm_patt,
            pred,
            body,
        );
    }
}

/// Law: matching is case-insensitive — patterns that agree after case
/// folding match the same names.
pub proof fn lemma_matching_names_case_insensitive(
    names: Seq<Seq<char>>,
    pat1: Seq<char>,
    pat2: Seq<char>,
)
    requires
        lower_of(pat1) == lower_of(pat2),
    ensures
        spec_matching_names(names, pat1) == spec_matching_names(names, pat2),
    decreases names,
{
    if names.len() > 0 {
        lemma_matching_names_case_insensitive(names.drop_last(), pat1, pat2);
    }
}

proof fn lemma_add_events_case_insensitive(
    pkg: PackageV,
    cat: ProbeCatalogV,
    prov: Seq<char>,
    pkgname: Seq<char>,
    evnames: Seq<Seq<char>>,
    np1: Seq<char>,
    np2: Seq<char>,
    pred: Option<ExprV>,
    body: Option<Seq<StatementV>>,
)
    requires
        lower_of(np1) == lower_of(np2),
    ensures
        spec_add_events(pkg, cat, prov, pkgname, evnames, np1, pred, body) == spec_add_events(
            pkg,
            cat,
            prov,
            pkgname,
            evnames,
            np2,
            pred,
            body,
        ),
    decreases evnames,
{
    if evnames.len() > 0 {
        lemma_matching_names_case_insensitive(
            cat_probe_types(cat, prov, pkgname, evnames[0]),
            np1,
            np2,
        );
        lemma_add_events_case_insensitive(
            spec_add_one_event(pkg, cat, prov, pkgname, evnames[0], np1, pred, body),
            cat,
            prov,
            pkgname,
            evnames.drop_first(),
            np1,
            np2,
            pred,
            body,
        );
    }
}

proof fn lemma_add_packages_case_insensitive(
    prov: ProviderV,
    cat: ProbeCatalogV,
    provname: Seq<char>,
    pkgnames: Seq<Seq<char>>,
    fp1: Seq<char>,
    np1: Seq<char>,
    fp2: Seq<char>,
    np2: Seq<char>,
    pred: Option<ExprV>,
    body: Option<Seq<StatementV>>,
)
    requires
        lower_of(fp1) == lower_of(fp2),
        lower_of(np1) == lower_of(np2),
    ensures
        spec_add_packages(prov, cat, provname, pkgnames, fp1, np1, pred, body)
            == spec_add_packages(prov, cat, provname, pkgnames, fp2, np2, pred, body),
    decreases pkgnames,
{
    if pkgnames.len() > 0 {
        lemma_matching_names_case_insensitive(
            cat_event_names(cat, provname, pkgnames[0]),
            fp1,
            fp2,
        );
        lemma_add_events_case_insensitive(
            spec_new_package(lower_of(pkgnames[0])),
            cat,
            provname,
            pkgnames[0],
            spec_matching_names(cat_event_names(cat, provname, pkgnames[0]), fp1),
            np1,
            np2,
            pred,
            body,
        );
        let i = first_index_by(prov.packages, package_named(lower_of(pkgnames[0])));
        if i >= 0 {
            lemma_add_events_case_insensitive(
                prov.packages[i],
                cat,
                provname,
                pkgnames[0],
                spec_matching_names(cat_event_names(cat, provname, pkgnames[0]), fp1),
                np1,
                np2,
                pred,
                body,
            );
        }
        lemma_add_packages_case_insensitive(
            spec_add_one_package(prov, cat, provname, pkgnames[0], fp1, np1, pred, body),
            cat,
            provname,
            pkgnames.drop_first(),
            fp1,
            np1,
            fp2,
            np2,
            pred,
            body,
        );
    }
}

proof fn lemma_add_providers_case_insensitive(
    provs: Seq<ProviderV>,
    cat: ProbeCatalogV,
    provnames: Seq<Seq<char>>,
    mp1: Seq<char>,
    fp1: Seq<char>,
    np1: Seq<char>,
    mp2: Seq<char>,
    fp2: Seq<char>,
    np2: Seq<char>,
    pred: Option<ExprV>,
    body: Option<Seq<StatementV>>,
)
    requires
        lower_of(mp1) == lower_of(mp2),
        lower_of(fp1) == lower_of(fp2),
        lower_of(np1) == lower_of(np2),
    ensures
        spec_add_providers(provs, cat, provnames, mp1, fp1, np1, pred, body)
            == spec_add_providers(provs, cat, provnames, mp2, fp2, np2, pred, body),
    decreases provnames,
{
    if provnames.len() > 0 {
        lemma_matching_names_case_insensitive(cat_package_names(cat, provnames[0]), mp1, mp2);
        lemma_add_packages_case_insensitive(
            spec_new_provider(lower_of(provnames[0])),
            cat,
            provnames[0],
            spec_matching_names(cat_package_names(cat, provnames[0]), mp1),
            fp1,
            np1,
            fp2,
            np2,
            pred,
            body,
        );
        let i = first_index_by(provs, provider_named(lower_of(provnames[0])));
        if i >= 0 {
            lemma_add_packages_case_insensitive(
                provs[i],
                cat,
                provnames[0],
                spec_matching_names(cat_package_names(cat, provnames[0]), mp1),
                fp1,
                np1,
                fp2,
                np2,
                pred,
                body,
            );
        }
        lemma_add_providers_case_insensitive(
            spec_add_one_provider(provs, cat, provnames[0], mp1, fp1, np1, pred, body),
            cat,
            provnames.drop_first(),
            mp1,
            fp1,
            np1,
            mp2,
            fp2,
            np2,
            pred,
            body,
        );
    }
}

/// Law: resolution is case-insensitive. Two pattern quadruples that agree
/// after case folding resolve identically, whatever the catalog, the
/// starting state, the predicate and the body.
pub proof fn lemma_resolution_case_insensitive(
    w: WhammyV,
    cat: ProbeCatalogV,
    pp1: Seq<char>,
    mp1: Seq<char>,
    fp1: Seq<char>,
    np1: Seq<char>,
    pp2: Seq<char>,
    mp2: Seq<char>,
    fp2: Seq<char>,
    np2: Seq<char>,
    pred: Option<ExprV>,
    body: Option<Seq<StatementV>>,
)
    requires
        lower_of(pp1) == lower_of(pp2),
        lower_of(mp1) == lower_of(mp2),
        lower_of(fp1) == lower_of(fp2),
        lower_of(np1) == lower_of(np2),
    ensures
        spec_add_probe(w, cat, pp1, mp1, fp1, np1, pred, body) == spec_add_probe(
            w,
            cat,
            pp2,
            mp2,
            fp2,
            np2,
            pred,
            body,
        ),
{
    lemma_matching_names_case_insensitive(cat_provider_names(cat), pp1, pp2);
    lemma_add_providers_case_insensitive(
        w.providers,
        cat,
        spec_matching_names(cat_provider_names(cat), pp1),
        mp1,
        fp1,
        np1,
        mp2,
        fp2,
        np2,
        pred,
        body,
    );
}

/// The probes under one probe-type name of an event.
pub open spec fn event_probes(ev: EventV, ty: Seq<char>) -> Seq<ProbeV> {
    let l = first_index_by(ev.probe_map, probe_list_named(ty));
    if l < 0 {
        Seq::empty()
    } else {
        ev.probe_map[l].probes
    }
}

proof fn lemma_first_index_is<T>(s: Seq<T>, pred: spec_fn(T) -> bool, l: int)
    requires
        0 <= l < s.len(),
        pred(s[l]),
        forall|k: int| 0 <= k < l ==> !pred(s[k]),
    ensures
        first_index_by(s, pred) == l,
{
    lemma_first_index_by(s, pred);
}

proof fn lemma_first_index_none<T>(s: Seq<T>, pred: spec_fn(T) -> bool)
    requires
        forall|k: int| 0 <= k < s.len() ==> !pred(s[k]),
    ensures
        first_index_by(s, pred) == -1,
{
    lemma_first_index_by(s, pred);
}

/// Two sequences on which a predicate agrees pointwise have one first
/// satisfying index.
proof fn lemma_first_index_same<T>(s1: Seq<T>, s2: Seq<T>, p: spec_fn(T) -> bool)
    requires
        s1.len() == s2.len(),
        forall|j: int| 0 <= j < s1.len() ==> p(s1[j]) == p(s2[j]),
    ensures
        first_index_by(s1, p) == first_index_by(s2, p),
    decreases s1,
{
    if s1.len() > 0 && !p(s1[0]) {
        lemma_first_index_same(s1.drop_first(), s2.drop_first(), p);
        assert(forall|j: int|
            0 <= j < s1.drop_first().len() ==> p(s1.drop_first()[j]) == p(s1[j + 1]) && p(
                s2.drop_first()[j],
            ) == p(s2[j + 1]));
    }
}

/// Inserting a probe under a probe-type name appends it to that name's
/// list and leaves every other list alone.
proof fn lemma_insert_probe_probes(ev: EventV, ty: Seq<char>, pr: ProbeV)
    ensures
        event_probes(spec_insert_probe(ev, ty, pr), ty) == event_probes(ev, ty).push(pr),
        forall|ty2: Seq<char>|
            ty2 != ty ==> #[trigger] event_probes(spec_insert_probe(ev, ty, pr), ty2)
                == event_probes(ev, ty2),
{
    let l = first_index_by(ev.probe_map, probe_list_named(ty));
    lemma_first_index_by(ev.probe_map, probe_list_named(ty));
    let ev2 = spec_insert_probe(ev, ty, pr);
    if l >= 0 {
        lemma_first_index_is(ev2.probe_map, probe_list_named(ty), l);
        assert(event_probes(ev2, ty) =~= event_probes(ev, ty).push(pr));
    } else {
        lemma_first_index_is(ev2.probe_map, probe_list_named(ty), ev.probe_map.len() as int);
        assert(event_probes(ev2, ty) =~= event_probes(ev, ty).push(pr));
    }
    assert forall|ty2: Seq<char>| ty2 != ty implies #[trigger] event_probes(ev2, ty2)
        == event_probes(ev, ty2) by {
        if l >= 0 {
            lemma_first_index_same(ev2.probe_map, ev.probe_map, probe_list_named(ty2));
            let l2 = first_index_by(ev.probe_map, probe_list_named(ty2));
            lemma_first_index_by(ev.probe_map, probe_list_named(ty2));
            if l2 >= 0 {
                assert(l2 != l);
            }
        } else {
            lemma_first_index_by(ev.probe_map, probe_list_named(ty2));
            let l2 = first_index_by(ev.probe_map, probe_list_named(ty2));
            if l2 >= 0 {
                lemma_first_index_is(ev2.probe_map, probe_list_named(ty2), l2);
            } else {
                lemma_first_index_none(ev2.probe_map, probe_list_named(ty2));
            }
        }
    }
}

/// Resolving a probe-type list that matched exactly one name appends
/// exactly one probe copy under that name.
proof fn lemma_add_probes_single(
    ev: EventV,
    ty: Seq<char>,
    pred: Option<ExprV>,
    body: Option<Seq<StatementV>>,
)
    ensures
        event_probes(spec_add_probes(ev, seq![ty], pred, body), ty) == event_probes(
            ev,
            ty,
        ).push(spec_probe(ty, pred, body)),
        forall|ty2: Seq<char>|
            ty2 != ty ==> #[trigger] event_probes(spec_add_probes(ev, seq![ty], pred, body), ty2)
                == event_probes(ev, ty2),
{
    let one = seq![ty];
    assert(one.drop_first() =~= Seq::<Seq<char>>::empty());
    let ev1 = spec_insert_probe(ev, ty, spec_probe(ty, pred, body));
    assert(spec_add_probes(ev1, one.drop_first(), pred, body) == ev1);
    assert(spec_add_probes(ev, one, pred, body) == ev1);
    lemma_insert_probe_probes(ev, ty, spec_probe(ty, pred, body));
}

/// The probes under a (event key, probe-type) path of a package node.
pub open spec fn package_probes(pkg: PackageV, evkey: Seq<char>, ty: Seq<char>) -> Seq<ProbeV> {
    let k = first_index_by(pkg.events, event_named(evkey));
    if k < 0 {
        Seq::empty()
    } else {
        event_probes(pkg.events[k], ty)
    }
}

/// The probes under a (package key, event key, probe-type) path of a
/// provider node.
pub open spec fn provider_probes(
    prov: ProviderV,
    pkgkey: Seq<char>,
    evkey: Seq<char>,
    ty: Seq<char>,
) -> Seq<ProbeV> {
    let j = first_index_by(prov.packages, package_named(pkgkey));
    if j < 0 {
        Seq::empty()
    } else {
        package_probes(prov.packages[j], evkey, ty)
    }
}

proof fn lemma_add_one_event_single(
    pkg: PackageV,
    cat: ProbeCatalogV,
    prov: Seq<char>,
    pkgname: Seq<char>,
    evname: Seq<char>,
    nm_patt: Seq<char>,
    ty: Seq<char>,
    pred: Option<ExprV>,
    body: Option<Seq<StatementV>>,
)
    requires
        spec_matching_names(cat_probe_types(cat, prov, pkgname, evname), nm_patt) == seq![ty],
    ensures
        package_probes(
            spec_add_one_event(pkg, cat, prov, pkgname, evname, nm_patt, pred, body),
            lower_of(evname),
            ty,
        ) == package_probes(pkg, lower_of(evname), ty).push(spec_probe(ty, pred, body)),
        forall|ty2: Seq<char>|
            ty2 != ty ==> #[trigger] package_probes(
                spec_add_one_event(pkg, cat, prov, pkgname, evname, nm_patt, pred, body),
                lower_of(evname),
                ty2,
            ) == package_probes(pkg, lower_of(evname), ty2),
{
    let key = lower_of(evname);
    let k = first_index_by(pkg.events, event_named(key));
    lemma_first_index_by(pkg.events, event_named(key));
    let pkg2 = spec_add_one_event(pkg, cat, prov, pkgname, evname, nm_patt, pred, body);
    if k >= 0 {
        lemma_add_probes_preserves_name(pkg.events[k], seq![ty], pred, body);
        lemma_first_index_is(pkg2.events, event_named(key), k);
        lemma_add_probes_single(pkg.events[k], ty, pred, body);
    } else {
        lemma_add_probes_preserves_name(spec_new_event(key), seq![ty], pred, body);
        lemma_first_index_is(pkg2.events, event_named(key), pkg.events.len() as int);
        lemma_add_probes_single(spec_new_event(key), ty, pred, body);
        lemma_first_index_none(spec_new_event(key).probe_map, probe_list_named(ty));
        assert(event_probes(spec_new_event(key), ty) =~= Seq::<ProbeV>::empty());
        assert(package_probes(pkg, key, ty) =~= Seq::<ProbeV>::empty());
    }
    assert forall|ty2: Seq<char>| ty2 != ty implies #[trigger] package_probes(
        pkg2,
        key,
        ty2,
    ) == package_probes(pkg, key, ty2) by {
        if k < 0 {
            lemma_first_index_none(spec_new_event(key).probe_map, probe_list_named(ty2));
            assert(event_probes(spec_new_event(key), ty2) =~= Seq::<ProbeV>::empty());
            assert(package_probes(pkg, key, ty2) =~= Seq::<ProbeV>::empty());
        }
    }
}

proof fn lemma_add_one_package_single(
    prov: ProviderV,
    cat: ProbeCatalogV,
    provname: Seq<char>,
    pkgname: Seq<char>,
    evname: Seq<char>,
    func_patt: Seq<char>,
    nm_patt: Seq<char>,
    ty: Seq<char>,
    pred: Option<ExprV>,
    body: Option<Seq<StatementV>>,
)
    requires
        spec_matching_names(cat_event_names(cat, provname, pkgname), func_patt) == seq![evname],
        spec_matching_names(cat_probe_types(cat, provname, pkgname, evname), nm_patt) == seq![ty],
    ensures
        provider_probes(
            spec_add_one_package(prov, cat, provname, pkgname, func_patt, nm_patt, pred, body),
            lower_of(pkgname),
            lower_of(evname),
            ty,
        ) == provider_probes(prov, lower_of(pkgname), lower_of(evname), ty).push(
            spec_probe(ty, pred, body),
        ),
        forall|ty2: Seq<char>|
            ty2 != ty ==> #[trigger] provider_probes(
                spec_add_one_package(prov, cat, provname, pkgname, func_patt, nm_patt, pred, body),
                lower_of(pkgname),
                lower_of(evname),
                ty2,
            ) == provider_probes(prov, lower_of(pkgname), lower_of(evname), ty2),
{
    let key = lower_of(pkgname);
    let j = first_index_by(prov.packages, package_named(key));
    lemma_first_index_by(prov.packages, package_named(key));
    let prov2 = spec_add_one_package(prov, cat, provname, pkgname, func_patt, nm_patt, pred, body);
    let one = seq![evname];
    assert(one.drop_first() =~= Seq::<Seq<char>>::empty());
    if j >= 0 {
        let upd = spec_add_one_event(
            prov.packages[j],
            cat,
            provname,
            pkgname,
            evname,
            nm_patt,
            pred,
            body,
        );
        assert(spec_add_events(prov.packages[j], cat, provname, pkgname, one, nm_patt, pred, body)
            == spec_add_events(
            upd,
            cat,
            provname,
            pkgname,
            one.drop_first(),
            nm_patt,
            pred,
            body,
        ));
        assert(spec_add_events(upd, cat, provname, pkgname, one.drop_first(), nm_patt, pred, body)
            == upd);
        lemma_add_events_preserves_name(
            prov.packages[j],
            cat,
            provname,
            pkgname,
            one,
            nm_patt,
            pred,
            body,
        );
        lemma_first_index_is(prov2.packages, package_named(key), j);
        lemma_add_one_event_single(
            prov.packages[j],
            cat,
            provname,
            pkgname,
            evname,
            nm_patt,
            ty,
            pred,
            body,
        );
    } else {
        let fresh = spec_new_package(key);
        let upd = spec_add_one_event(fresh, cat, provname, pkgname, evname, nm_patt, pred, body);
        assert(spec_add_events(fresh, cat, provname, pkgname, one, nm_patt, pred, body)
            == spec_add_events(
            upd,
            cat,
            provname,
            pkgname,
            one.drop_first(),
            nm_patt,
            pred,
            body,
        ));
        assert(spec_add_events(upd, cat, provname, pkgname, one.drop_first(), nm_patt, pred, body)
            == upd);
        lemma_add_events_preserves_name(fresh, cat, provname, pkgname, one, nm_patt, pred, body);
        lemma_first_index_is(prov2.packages, package_named(key), prov.packages.len() as int);
        lemma_add_one_event_single(fresh, cat, provname, pkgname, evname, nm_patt, ty, pred, body);
        lemma_first_index_none(fresh.events, event_named(lower_of(evname)));
        assert(package_probes(fresh, lower_of(evname), ty) =~= Seq::<ProbeV>::empty());
        assert(provider_probes(prov, key, lower_of(evname), ty) =~= Seq::<ProbeV>::empty());
    }
    assert forall|ty2: Seq<char>| ty2 != ty implies #[trigger] provider_probes(
        prov2,
        key,
        lower_of(evname),
        ty2,
    ) == provider_probes(prov, key, lower_of(evname), ty2) by {
        if j < 0 {
            lemma_first_index_none(
                spec_new_package(key).events,
                event_named(lower_of(evname)),
            );
            assert(package_probes(spec_new_package(key), lower_of(evname), ty2) =~= Seq::<
                ProbeV,
            >::empty());
            assert(provider_probes(prov, key, lower_of(evname), ty2) =~= Seq::<ProbeV>::empty());
        }
    }
}

/// Law: round trip. A probe declaration whose four patterns match exactly
/// one provider, package, event and probe-type of the catalog appends
/// exactly one probe — the supplied predicate and body, unchanged — to
/// that event's list for that probe type, and leaves the event's other
/// probe-type lists as they were.
pub proof fn lemma_round_trip(
    w: WhammyV,
    cat: ProbeCatalogV,
    pp: Seq<char>,
    mp: Seq<char>,
    fp: Seq<char>,
    np: Seq<char>,
    provname: Seq<char>,
    pkgname: Seq<char>,
    evname: Seq<char>,
    ty: Seq<char>,
    pred: Option<ExprV>,
    body: Option<Seq<StatementV>>,
)
    requires
        spec_matching_names(cat_provider_names(cat), pp) == seq![provname],
        spec_matching_names(cat_package_names(cat, provname), mp) == seq![pkgname],
        spec_matching_names(cat_event_names(cat, provname, pkgname), fp) == seq![evname],
        spec_matching_names(cat_probe_types(cat, provname, pkgname, evname), np) == seq![ty],
    ensures
        probes_at(
            spec_add_probe(w, cat, pp, mp, fp, np, pred, body),
            lower_of(provname),
            lower_of(pkgname),
            lower_of(evname),
            ty,
        ) == probes_at(w, lower_of(provname), lower_of(pkgname), lower_of(evname), ty).push(
            spec_probe(ty, pred, body),
        ),
        forall|ty2: Seq<char>|
            ty2 != ty ==> #[trigger] probes_at(
                spec_add_probe(w, cat, pp, mp, fp, np, pred, body),
                lower_of(provname),
                lower_of(pkgname),
                lower_of(evname),
                ty2,
            ) == probes_at(w, lower_of(provname), lower_of(pkgname), lower_of(evname), ty2),
{
    let key = lower_of(provname);
    let i = first_index_by(w.providers, provider_named(key));
    lemma_first_index_by(w.providers, provider_named(key));
    let w2 = spec_add_probe(w, cat, pp, mp, fp, np, pred, body);
    let onep = seq![provname];
    assert(onep.drop_first() =~= Seq::<Seq<char>>::empty());
    let onem = seq![pkgname];
    assert(onem.drop_first() =~= Seq::<Seq<char>>::empty());
    if i >= 0 {
        let upd = spec_add_one_package(w.providers[i], cat, provname, pkgname, fp, np, pred, body);
        assert(spec_add_packages(w.providers[i], cat, provname, onem, fp, np, pred, body)
            == spec_add_packages(upd, cat, provname, onem.drop_first(), fp, np, pred, body));
        assert(spec_add_packages(upd, cat, provname, onem.drop_first(), fp, np, pred, body)
            == upd);
        let prov2 = spec_add_one_provider(w.providers, cat, provname, mp, fp, np, pred, body);
        assert(spec_add_providers(w.providers, cat, onep, mp, fp, np, pred, body)
            == spec_add_providers(prov2, cat, onep.drop_first(), mp, fp, np, pred, body));
        assert(spec_add_providers(prov2, cat, onep.drop_first(), mp, fp, np, pred, body) == prov2);
        lemma_add_packages_preserves_name(w.providers[i], cat, provname, onem, fp, np, pred, body);
        lemma_first_index_is(w2.providers, provider_named(key), i);
        lemma_add_one_package_single(
            w.providers[i],
            cat,
            provname,
            pkgname,
            evname,
            fp,
            np,
            ty,
            pred,
            body,
        );
    } else {
        let fresh = spec_new_provider(key);
        let upd = spec_add_one_package(fresh, cat, provname, pkgname, fp, np, pred, body);
        assert(spec_add_packages(fresh, cat, provname, onem, fp, np, pred, body)
            == spec_add_packages(upd, cat, provname, onem.drop_first(), fp, np, pred, body));
        assert(spec_add_packages(upd, cat, provname, onem.drop_first(), fp, np, pred, body)
            == upd);
        let prov2 = spec_add_one_provider(w.providers, cat, provname, mp, fp, np, pred, body);
        assert(spec_add_providers(w.providers, cat, onep, mp, fp, np, pred, body)
            == spec_add_providers(prov2, cat, onep.drop_first(), mp, fp, np, pred, body));
        assert(spec_add_providers(prov2, cat, onep.drop_first(), mp, fp, np, pred, body) == prov2);
        lemma_add_packages_preserves_name(fresh, cat, provname, onem, fp, np, pred, body);
        lemma_first_index_is(w2.providers, provider_named(key), w.providers.len() as int);
        lemma_add_one_package_single(fresh, cat, provname, pkgname, evname, fp, np, ty, pred, body);
        lemma_first_index_none(fresh.packages, package_named(lower_of(pkgname)));
        assert(provider_probes(fresh, lower_of(pkgname), lower_of(evname), ty) =~= Seq::<
            ProbeV,
        >::empty());
        assert(probes_at(w, key, lower_of(pkgname), lower_of(evname), ty) =~= Seq::<
            ProbeV,
        >::empty());
    }
    assert forall|ty2: Seq<char>| ty2 != ty implies #[trigger] probes_at(
        w2,
        key,
        lower_of(pkgname),
        lower_of(evname),
        ty2,
    ) == probes_at(w, key, lower_of(pkgname), lower_of(evname), ty2) by {
        if i < 0 {
            lemma_first_index_none(
                spec_new_provider(key).packages,
                package_named(lower_of(pkgname)),
            );
            assert(provider_probes(
                spec_new_provider(key),
                lower_of(pkgname),
                lower_of(evname),
                ty2,
            ) =~= Seq::<ProbeV>::empty());
            assert(probes_at(w, key, lower_of(pkgname), lower_of(evname), ty2) =~= Seq::<
                ProbeV,
            >::empty());
        }
    }
}

/// Law: no deduplication. Registering the same probe declaration twice, on
/// a single-match pattern quadruple, appends two independent probe entries
/// under the matched event, in order; the event's other probe-type lists
/// are unchanged.
pub proof fn lemma_no_dedup(
    w: WhammyV,
    cat: ProbeCatalogV,
    pp: Seq<char>,
    mp: Seq<char>,
    fp: Seq<char>,
    np: Seq<char>,
    provname: Seq<char>,
    pkgname: Seq<char>,
    evname: Seq<char>,
    ty: Seq<char>,
    pred: Option<ExprV>,
    body: Option<Seq<StatementV>>,
)
    requires
        spec_matching_names(cat_provider_names(cat), pp) == seq![provname],
        spec_matching_names(cat_package_names(cat, provname), mp) == seq![pkgname],
        spec_matching_names(cat_event_names(cat, provname, pkgname), fp) == seq![evname],
        spec_matching_names(cat_probe_types(cat, provname, pkgname, evname), np) == seq![ty],
    ensures
        probes_at(
            spec_add_probe(
                spec_add_probe(w, cat, pp, mp, fp, np, pred, body),
                cat,
                pp,
                mp,
                fp,
                np,
                pred,
                body,
            ),
            lower_of(provname),
            lower_of(pkgname),
            lower_of(evname),
            ty,
        ) == probes_at(w, lower_of(provname), lower_of(pkgname), lower_of(evname), ty).push(
            spec_probe(ty, pred, body),
        ).push(spec_probe(ty, pred, body)),
        forall|ty2: Seq<char>|
            ty2 != ty ==> #[trigger] probes_at(
                spec_add_probe(
                    spec_add_probe(w, cat, pp, mp, fp, np, pred, body),
                    cat,
                    pp,
                    mp,
                    fp,
                    np,
                    pred,
                    body,
                ),
                lower_of(provname),
                lower_of(pkgname),
                lower_of(evname),
                ty2,
            ) == probes_at(w, lower_of(provname), lower_of(pkgname), lower_of(evname), ty2),
{
    lemma_round_trip(w, cat, pp, mp, fp, np, provname, pkgname, evname, ty, pred, body);
    lemma_round_trip(
        spec_add_probe(w, cat, pp, mp, fp, np, pred, body),
        cat,
        pp,
        mp,
        fp,
        np,
        provname,
        pkgname,
        evname,
        ty,
        pred,
        body,
    );
}

// =======================
// ==== Visitors =========
// =======================

/// Read-only traversal over the tree: one operation per node kind, so that
/// algorithms stay decoupled from the tree's shape. Composite nodes are
/// visited before their children, children in declaration order.
pub trait WhammVisitor<T> {
    fn visit_whamm(&mut self, whamm: &Whamm) -> T;

    fn visit_whammy(&mut self, whammy: &Whammy) -> T;

    fn visit_provider(&mut self, provider: &Provider) -> T;

    fn visit_package(&mut self, package: &Package) -> T;

    fn visit_event(&mut self, event: &Event) -> T;

    fn visit_probe(&mut self, probe: &Probe) -> T;

    fn visit_fn(&mut self, f: &Fn) -> T;

    fn visit_formal_param(&mut self, param: &(Expr, DataType)) -> T;

    fn visit_stmt(&mut self, stmt: &Statement) -> T;

    fn visit_expr(&mut self, expr: &Expr) -> T;

    fn visit_op(&mut self, op: &Op) -> T;

    fn visit_datatype(&mut self, datatype: &DataType) -> T;

    fn visit_value(&mut self, val: &Value) -> T;
}

/// Mutating traversal over the tree, to support in-place rewriting such as
/// binding host-provided constant values.
pub trait WhammVisitorMut<T> {
    fn visit_whamm(&mut self, whamm: &mut Whamm) -> T;

    fn visit_whammy(&mut self, whammy: &mut Whammy) -> T;

    fn visit_provider(&mut self, provider: &mut Provider) -> T;

    fn visit_package(&mut self, package: &mut Package) -> T;

    fn visit_event(&mut self, event: &mut Event) -> T;

    fn visit_probe(&mut self, probe: &mut Probe) -> T;

    fn visit_fn(&mut self, f: &mut Fn) -> T;

    fn visit_formal_param(&mut self, param: &mut (Expr, DataType)) -> T;

    fn visit_stmt(&mut self, stmt: &mut Statement) -> T;

    fn visit_expr(&mut self, expr: &mut Expr) -> T;

    fn visit_op(&mut self, op: &mut Op) -> T;

    fn visit_datatype(&mut self, datatype: &mut DataType) -> T;

    fn visit_value(&mut self, val: &mut Value) -> T;
}

} // verus!
