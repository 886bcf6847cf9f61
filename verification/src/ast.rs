//! Abstract syntax of Nacre programs and the mathematical model of its types.

use vstd::prelude::*;
use vstd::string::StringExecFns;
use crate::text::str_eq;

verus! {

#[derive(Debug, PartialEq, Eq)]
#[allow(inconsistent_fields)]
pub enum Statement {
    Use {
        path: Vec<String>,
        alias: Option<String>,
        items: Vec<UseItem>,
        re_export: bool,
    },
    Export(Box<Statement>),
    Trait {
        name: String,
        type_param: String,
        methods: Vec<TraitMethod>,
    },
    Impl {
        trait_name: String,
        for_type: Type,
        methods: Vec<ImplMethod>,
    },
    InherentImpl {
        for_type: Type,
        consts: Vec<ImplConst>,
        methods: Vec<ImplMethod>,
    },
    TypeAlias {
        name: String,
        type_params: Vec<String>,
        ty: Type,
    },
    SumType {
        name: String,
        type_params: Vec<String>,
        variants: Vec<VariantDecl>,
    },
    Newtype {
        name: String,
        type_params: Vec<String>,
        base: Type,
    },
    Function {
        name: String,
        override_constructor: bool,
        type_params: Vec<TypeParam>,
        params: Vec<Param>,
        return_type: Type,
        body: Program,
    },
    ExternalFunction {
        name: String,
        type_params: Vec<TypeParam>,
        params: Vec<Param>,
        return_type: Type,
    },
    Const {
        name: String,
        annotation: Option<Type>,
        expr: Expr,
    },
    Let {
        name: String,
        annotation: Option<Type>,
        expr: Expr,
    },
    Destructure {
        mutable: bool,
        pattern: BindingPattern,
        expr: Expr,
    },
    Assign {
        target: AssignTarget,
        expr: Expr,
    },
    Expr(Expr),
    TryCommand(String),
    TryCommandResult(String),
    TryResult(Expr),
    TryPipeline {
        input: Option<Box<Expr>>,
        commands: Vec<String>,
    },
    TryPipelineResult {
        input: Option<Box<Expr>>,
        commands: Vec<String>,
    },
    Command(String),
    Redirect {
        command: String,
        target: String,
        stderr: Option<String>,
        append: bool,
    },
    Require {
        command: String,
        version: Option<String>,
    },
    RequireOneOf {
        commands: Vec<String>,
    },
    Block {
        body: Program,
    },
    Defer(Box<Statement>),
    If {
        condition: Expr,
        then_branch: Program,
        else_branch: Option<Program>,
    },
    While {
        condition: Expr,
        body: Program,
    },
    For {
        binding: ForBinding,
        iterable: Expr,
        body: Program,
    },
    Break,
    Continue,
    Return(Expr),
    Raw(String),
}

#[derive(Debug, PartialEq, Eq)]
pub struct UseItem {
    pub name: String,
    pub alias: Option<String>,
}

#[derive(Debug, PartialEq, Eq)]
#[allow(inconsistent_fields)]
pub enum AssignTarget {
    Name(String),
    Index {
        name: String,
        index: Expr,
    },
    FieldIndex {
        name: String,
        field: String,
        index: Expr,
    },
    Field {
        name: String,
        field: String,
    },
    TupleField {
        name: String,
        field: usize,
    },
}

#[derive(Debug, PartialEq, Eq)]
pub struct Param {
    pub name: String,
    pub ty: Type,
    pub default: Option<Expr>,
    pub variadic: bool,
    pub capture_name: Option<String>,
}

#[derive(Debug, PartialEq, Eq)]
pub enum BindingPattern {
    Name(String),
    Tuple(Vec<BindingPattern>),
    Record(Vec<(String, BindingPattern)>),
    Array {
        patterns: Vec<BindingPattern>,
        rest: Option<String>,
    },
}

#[derive(Debug, PartialEq, Eq)]
pub enum ForBinding {
    Name(String),
    Pattern(BindingPattern),
}

#[derive(Debug, PartialEq, Eq)]
pub struct TypeParam {
    pub name: String,
    pub bounds: Vec<String>,
}

#[derive(Debug, PartialEq, Eq)]
pub struct TraitMethod {
    pub name: String,
    pub params: Vec<Param>,
    pub return_type: Type,
}

#[derive(Debug, PartialEq, Eq)]
pub struct ImplMethod {
    pub name: String,
    pub params: Vec<Param>,
    pub return_type: Type,
    pub body: Program,
}

#[derive(Debug, PartialEq, Eq)]
pub struct ImplConst {
    pub name: String,
    pub annotation: Option<Type>,
    pub expr: Expr,
}

#[derive(Debug, PartialEq, Eq)]
pub struct MatchArm {
    pub pattern: Option<Expr>,
    pub guard: Option<Expr>,
    pub expr: Expr,
}

#[derive(Debug, PartialEq, Eq)]
pub struct ClosureCapture {
    pub source: String,
    pub target: String,
    pub suffixes: Vec<String>,
}

#[derive(Debug, PartialEq, Eq)]
pub struct VariantDecl {
    pub name: String,
    pub fields: Vec<Type>,
}

#[derive(Debug, PartialEq, Eq)]
pub enum DoStep {
    Bind {
        name: String,
        expr: Expr,
    },
    Let {
        name: String,
        annotation: Option<Type>,
        expr: Expr,
    },
}

#[derive(Debug, PartialEq, Eq)]
#[allow(inconsistent_fields)]
pub enum Expr {
    Int(i64),
    Float(String),
    Bool(bool),
    String(String),
    RawString(String),
    Unit,
    OptionSome(Box<Expr>),
    OptionNone,
    ResultOk(Box<Expr>),
    ResultErr(Box<Expr>),
    ResultOption(Box<Expr>),
    TryResult(Box<Expr>),
    Default {
        value: Box<Expr>,
        fallback: Box<Expr>,
    },
    DefaultTry {
        value: Box<Expr>,
        fallback: Box<Expr>,
    },
    Command {
        command: String,
        checked: bool,
    },
    CommandResult {
        command: String,
    },
    AllowedCommand {
        group: String,
        command: String,
        args: Vec<Expr>,
        result: bool,
        program: Option<String>,
        read_args: Vec<usize>,
        write_args: Vec<usize>,
    },
    AsyncCommand(String),
    Async(Box<Expr>),
    Await(String),
    Pipeline {
        input: Option<Box<Expr>>,
        commands: Vec<String>,
    },
    TryPipeline {
        input: Option<Box<Expr>>,
        commands: Vec<String>,
    },
    PipelineResult {
        input: Option<Box<Expr>>,
        commands: Vec<String>,
    },
    HasCommand(String),
    PathExists(Box<Expr>),
    Array(Vec<Expr>),
    Range {
        start: Box<Expr>,
        end: Box<Expr>,
        inclusive: bool,
    },
    MapLiteral(Vec<(Expr, Expr)>),
    Record(Vec<(String, Expr)>),
    RecordPattern(Vec<(String, Option<Expr>)>),
    ArrayPattern {
        patterns: Vec<Expr>,
        rest: Option<String>,
    },
    AliasPattern {
        pattern: Box<Expr>,
        alias: String,
    },
    Tuple(Vec<Expr>),
    Index {
        name: String,
        index: Box<Expr>,
    },
    IndexValue {
        value: Box<Expr>,
        index: Box<Expr>,
    },
    Slice {
        name: String,
        start: Box<Expr>,
        end: Box<Expr>,
    },
    ArraySliceValue {
        value: Box<Expr>,
        start: Box<Expr>,
        end: Box<Expr>,
    },
    TupleField {
        name: String,
        field: usize,
    },
    TupleFieldValue {
        value: Box<Expr>,
        field: usize,
    },
    Field {
        name: String,
        field: String,
    },
    FieldValue {
        value: Box<Expr>,
        field: String,
    },
    NewtypeCtor {
        name: String,
        value: Box<Expr>,
    },
    Variant {
        name: String,
        args: Vec<Expr>,
        field_types: Vec<Type>,
    },
    Cast {
        expr: Box<Expr>,
        ty: Type,
    },
    Lambda {
        params: Vec<String>,
        body: Box<Expr>,
    },
    Closure {
        name: String,
        captures: Vec<ClosureCapture>,
    },
    Do {
        steps: Vec<DoStep>,
        result: Box<Expr>,
    },
    LetIn {
        name: String,
        annotation: Option<Type>,
        value: Box<Expr>,
        body: Box<Expr>,
    },
    Call {
        name: String,
        args: Vec<Expr>,
    },
    NamedArg {
        name: String,
        value: Box<Expr>,
    },
    Value(String),
    Len(String),
    ArrayLenValue(Box<Expr>),
    MapLenValue(Box<Expr>),
    IsEmpty(String),
    ArrayIsEmptyValue(Box<Expr>),
    MapIsEmptyValue(Box<Expr>),
    ArrayFirst(String),
    ArrayFirstValue(Box<Expr>),
    ArrayLast(String),
    ArrayLastValue(Box<Expr>),
    ArrayReverse(String),
    ArrayReverseValue(Box<Expr>),
    ArraySort(String),
    ArraySortValue(Box<Expr>),
    ArrayUnique(String),
    ArrayUniqueValue(Box<Expr>),
    ArrayMap {
        name: String,
        mapper: Box<Expr>,
    },
    ArrayMapValue {
        value: Box<Expr>,
        mapper: Box<Expr>,
    },
    ArrayFilter {
        name: String,
        predicate: Box<Expr>,
    },
    ArrayFilterValue {
        value: Box<Expr>,
        predicate: Box<Expr>,
    },
    ArrayFlatMap {
        name: String,
        mapper: Box<Expr>,
    },
    ArrayFlatMapValue {
        value: Box<Expr>,
        mapper: Box<Expr>,
    },
    ArrayFind {
        name: String,
        predicate: Box<Expr>,
    },
    ArrayFindValue {
        value: Box<Expr>,
        predicate: Box<Expr>,
    },
    ArrayAny {
        name: String,
        predicate: Box<Expr>,
    },
    ArrayAnyValue {
        value: Box<Expr>,
        predicate: Box<Expr>,
    },
    ArrayAll {
        name: String,
        predicate: Box<Expr>,
    },
    ArrayAllValue {
        value: Box<Expr>,
        predicate: Box<Expr>,
    },
    ArrayFold {
        name: String,
        initial: Box<Expr>,
        reducer: Box<Expr>,
    },
    ArrayFoldValue {
        value: Box<Expr>,
        initial: Box<Expr>,
        reducer: Box<Expr>,
    },
    OptionMap {
        name: String,
        mapper: Box<Expr>,
    },
    OptionMapValue {
        value: Box<Expr>,
        mapper: Box<Expr>,
    },
    OptionFlatMap {
        name: String,
        mapper: Box<Expr>,
    },
    OptionFlatMapValue {
        value: Box<Expr>,
        mapper: Box<Expr>,
    },
    ResultMap {
        name: String,
        mapper: Box<Expr>,
    },
    ResultMapValue {
        value: Box<Expr>,
        mapper: Box<Expr>,
    },
    ResultFlatMap {
        name: String,
        mapper: Box<Expr>,
    },
    ResultFlatMapValue {
        value: Box<Expr>,
        mapper: Box<Expr>,
    },
    OptionAp {
        name: String,
        value: Box<Expr>,
    },
    OptionApValue {
        function: Box<Expr>,
        value: Box<Expr>,
    },
    ResultAp {
        name: String,
        value: Box<Expr>,
    },
    ResultApValue {
        function: Box<Expr>,
        value: Box<Expr>,
    },
    OptionOrElse {
        name: String,
        fallback: Box<Expr>,
    },
    OptionOrElseValue {
        value: Box<Expr>,
        fallback: Box<Expr>,
    },
    OptionOrElseTry {
        value: Box<Expr>,
        fallback: Box<Expr>,
    },
    ArrayTake {
        name: String,
        count: Box<Expr>,
    },
    ArrayTakeValue {
        value: Box<Expr>,
        count: Box<Expr>,
    },
    ArrayDrop {
        name: String,
        count: Box<Expr>,
    },
    ArrayDropValue {
        value: Box<Expr>,
        count: Box<Expr>,
    },
    Join {
        name: String,
        separator: Box<Expr>,
    },
    JoinValue {
        value: Box<Expr>,
        separator: Box<Expr>,
    },
    ArrayPush {
        name: String,
        value: Box<Expr>,
    },
    ArrayPop {
        name: String,
    },
    ArrayContains {
        name: String,
        value: Box<Expr>,
    },
    ArrayContainsValue {
        value: Box<Expr>,
        item: Box<Expr>,
    },
    ArrayIndexOf {
        name: String,
        value: Box<Expr>,
    },
    ArrayIndexOfValue {
        value: Box<Expr>,
        item: Box<Expr>,
    },
    MapKeys(String),
    MapKeysValue(Box<Expr>),
    MapValues(String),
    MapValuesValue(Box<Expr>),
    MapHas {
        name: String,
        key: Box<Expr>,
    },
    MapHasValue {
        value: Box<Expr>,
        key: Box<Expr>,
    },
    MapSet {
        name: String,
        key: Box<Expr>,
        value: Box<Expr>,
    },
    MapRemove {
        name: String,
        key: Box<Expr>,
    },
    StringContains {
        name: String,
        needle: Box<Expr>,
    },
    StringContainsValue {
        value: Box<Expr>,
        needle: Box<Expr>,
    },
    StringIndexOf {
        name: String,
        needle: Box<Expr>,
    },
    StringIndexOfValue {
        value: Box<Expr>,
        needle: Box<Expr>,
    },
    StringStartsWith {
        name: String,
        prefix: Box<Expr>,
    },
    StringStartsWithValue {
        value: Box<Expr>,
        prefix: Box<Expr>,
    },
    StringEndsWith {
        name: String,
        suffix: Box<Expr>,
    },
    StringEndsWithValue {
        value: Box<Expr>,
        suffix: Box<Expr>,
    },
    StringLen(String),
    StringLenValue(Box<Expr>),
    StringIsEmpty(String),
    StringIsEmptyValue(Box<Expr>),
    StringSlice {
        name: String,
        start: Box<Expr>,
        end: Box<Expr>,
    },
    StringSliceValue {
        value: Box<Expr>,
        start: Box<Expr>,
        end: Box<Expr>,
    },
    StringTrim(String),
    StringTrimValue(Box<Expr>),
    StringTrimStart(String),
    StringTrimStartValue(Box<Expr>),
    StringTrimEnd(String),
    StringTrimEndValue(Box<Expr>),
    StringToUpper(String),
    StringToUpperValue(Box<Expr>),
    StringToLower(String),
    StringToLowerValue(Box<Expr>),
    StringRepeat {
        name: String,
        count: Box<Expr>,
    },
    StringRepeatValue {
        value: Box<Expr>,
        count: Box<Expr>,
    },
    StringSplit {
        name: String,
        separator: Box<Expr>,
    },
    StringSplitValue {
        value: Box<Expr>,
        separator: Box<Expr>,
    },
    StringReplace {
        name: String,
        from: Box<Expr>,
        to: Box<Expr>,
    },
    StringReplaceValue {
        value: Box<Expr>,
        from: Box<Expr>,
        to: Box<Expr>,
    },
    PathBasename(String),
    PathBasenameValue(Box<Expr>),
    PathDirname(String),
    PathDirnameValue(Box<Expr>),
    PathStem(String),
    PathStemValue(Box<Expr>),
    PathExtname(String),
    PathExtnameValue(Box<Expr>),
    PathIsAbsolute(String),
    PathIsAbsoluteValue(Box<Expr>),
    EnvDefault {
        name: String,
        default: String,
    },
    Env(String),
    ProcessArgs,
    ProcessEnv {
        name: Box<Expr>,
    },
    FsIsFile {
        path: Box<Expr>,
    },
    FsIsDir {
        path: Box<Expr>,
    },
    FsSize {
        path: Box<Expr>,
    },
    FsReadLines {
        path: Box<Expr>,
    },
    FsList {
        path: Box<Expr>,
    },
    FsWriteLines {
        path: Box<Expr>,
        lines: Box<Expr>,
    },
    FsAppendLines {
        path: Box<Expr>,
        lines: Box<Expr>,
    },
    CliParse,
    JsonParse {
        value: Box<Expr>,
    },
    JsonStringify {
        name: String,
    },
    JsonStringifyValue {
        value: Box<Expr>,
    },
    IfElse {
        condition: Box<Expr>,
        then_expr: Box<Expr>,
        else_expr: Box<Expr>,
    },
    Match {
        value: Box<Expr>,
        arms: Vec<MatchArm>,
    },
    MatchGuardResult(Box<Expr>),
    Not(Box<Expr>),
    BitNot(Box<Expr>),
    Ident(String),
    Binary {
        left: Box<Expr>,
        op: BinaryOp,
        right: Box<Expr>,
    },
}

#[derive(Debug, Copy, Clone, PartialEq, Eq)]
pub enum BinaryOp {
    Add,
    Sub,
    Mul,
    Div,
    Mod,
    Concat,
    BitAnd,
    BitOr,
    BitXor,
    Shl,
    Shr,
    Eq,
    Ne,
    Lt,
    Le,
    Gt,
    Ge,
    And,
    Or,
}


/// The view of a `BinaryOp` as the operator text it is written with.
pub open spec fn op_text(op: BinaryOp) -> Seq<char> {
    match op {
        BinaryOp::Add => "+"@,
        BinaryOp::Sub => "-"@,
        BinaryOp::Mul => "*"@,
        BinaryOp::Div => "/"@,
        BinaryOp::Mod => "%"@,
        BinaryOp::Concat => "++"@,
        BinaryOp::BitAnd => "&"@,
        BinaryOp::BitOr => "|"@,
        BinaryOp::BitXor => "^"@,
        BinaryOp::Shl => "<<"@,
        BinaryOp::Shr => ">>"@,
        BinaryOp::Eq => "=="@,
        BinaryOp::Ne => "!="@,
        BinaryOp::Lt => "<"@,
        BinaryOp::Le => "<="@,
        BinaryOp::Gt => ">"@,
        BinaryOp::Ge => ">="@,
        BinaryOp::And => "&&"@,
        BinaryOp::Or => "||"@,
    }
}

impl BinaryOp {
    pub fn is_arithmetic(self) -> (r: bool)
        ensures
            r <==> (self is Add || self is Sub || self is Mul || self is Div || self is Mod),
    {
        matches!(self, BinaryOp::Add | BinaryOp::Sub | BinaryOp::Mul | BinaryOp::Div | BinaryOp::Mod)
    }

    pub fn is_logical(self) -> (r: bool)
        ensures
            r <==> (self is And || self is Or),
    {
        matches!(self, BinaryOp::And | BinaryOp::Or)
    }

    pub fn is_bitwise(self) -> (r: bool)
        ensures
            r <==> (self is BitAnd || self is BitOr || self is BitXor || self is Shl || self is Shr),
    {
        matches!(self, BinaryOp::BitAnd | BinaryOp::BitOr | BinaryOp::BitXor | BinaryOp::Shl | BinaryOp::Shr)
    }

    /// The operator as it is spelled in the generated shell arithmetic.
    pub fn bash(self) -> (r: &'static str)
        ensures
            r@ == op_text(self),
    {
        match self {
            BinaryOp::Add => "+",
            BinaryOp::Sub => "-",
            BinaryOp::Mul => "*",
            BinaryOp::Div => "/",
            BinaryOp::Mod => "%",
            BinaryOp::Concat => "++",
            BinaryOp::BitAnd => "&",
            BinaryOp::BitOr => "|",
            BinaryOp::BitXor => "^",
            BinaryOp::Shl => "<<",
            BinaryOp::Shr => ">>",
            BinaryOp::Eq => "==",
            BinaryOp::Ne => "!=",
            BinaryOp::Lt => "<",
            BinaryOp::Le => "<=",
            BinaryOp::Gt => ">",
            BinaryOp::Ge => ">=",
            BinaryOp::And => "&&",
            BinaryOp::Or => "||",
        }
    }
}

/// A sequence of statements, each with the source line it came from.
#[derive(Debug, PartialEq, Eq)]
pub struct Program {
    pub statements: Vec<Statement>,
    pub lines: Vec<usize>,
}

impl Program {
    /// The statements of the program.
    pub open spec fn stmts(&self) -> Seq<Statement> {
        self.statements@
    }

    /// The source line of each statement.
    pub open spec fn line_numbers(&self) -> Seq<usize> {
        self.lines@
    }

    pub fn new(statements: Vec<Statement>, lines: Vec<usize>) -> (p: Program)
        ensures
            p.stmts() == statements@,
            p.line_numbers() == lines@,
    {
        Program { statements, lines }
    }

    pub fn statements(&self) -> (r: &[Statement])
        ensures
            r@ == self.stmts(),
    {
        self.statements.as_slice()
    }

    pub fn statement_lines(&self) -> (r: &[usize])
        ensures
            r@ == self.line_numbers(),
    {
        self.lines.as_slice()
    }
}

#[derive(Debug, PartialEq, Eq)]
pub enum Type {
    Int,
    Float,
    Bool,
    String,
    Path,
    ExitCode,
    Unit,
    Future(Box<Type>),
    Array(Box<Type>),
    Mapping(Box<Type>, Box<Type>),
    Record(Vec<(String, Type)>),
    Tuple(Vec<Type>),
    Function(Vec<Type>, Box<Type>),
    Union(Vec<Type>),
    Intersection(Vec<Type>),
    Generic(String),
    Applied(String, Vec<Type>),
    Brand { name: String, base: Box<Type> },
    Named(String),
}

/// The mathematical model of a `Type`: the same tree, with sequences and
/// character sequences in place of vectors and strings.
pub enum TypeModel {
    Int,
    Float,
    Bool,
    String,
    Path,
    ExitCode,
    Unit,
    Future(Box<TypeModel>),
    Array(Box<TypeModel>),
    Mapping(Box<TypeModel>, Box<TypeModel>),
    Record(Seq<(Seq<char>, TypeModel)>),
    Tuple(Seq<TypeModel>),
    Function(Seq<TypeModel>, Box<TypeModel>),
    Union(Seq<TypeModel>),
    Intersection(Seq<TypeModel>),
    Generic(Seq<char>),
    Applied(Seq<char>, Seq<TypeModel>),
    Brand { name: Seq<char>, base: Box<TypeModel> },
    Named(Seq<char>),
}

pub open spec fn type_model(t: Type) -> TypeModel
    decreases t,
{
    match t {
        Type::Int => TypeModel::Int,
        Type::Float => TypeModel::Float,
        Type::Bool => TypeModel::Bool,
        Type::String => TypeModel::String,
        Type::Path => TypeModel::Path,
        Type::ExitCode => TypeModel::ExitCode,
        Type::Unit => TypeModel::Unit,
        Type::Future(v) => TypeModel::Future(Box::new(type_model(*v))),
        Type::Array(v) => TypeModel::Array(Box::new(type_model(*v))),
        Type::Mapping(k, v) => TypeModel::Mapping(Box::new(type_model(*k)), Box::new(type_model(*v))),
        Type::Record(fields) => TypeModel::Record(fields_model(fields@)),
        Type::Tuple(v) => TypeModel::Tuple(types_model(v@)),
        Type::Function(ps, r) => TypeModel::Function(types_model(ps@), Box::new(type_model(*r))),
        Type::Union(v) => TypeModel::Union(types_model(v@)),
        Type::Intersection(v) => TypeModel::Intersection(types_model(v@)),
        Type::Generic(n) => TypeModel::Generic(n@),
        Type::Applied(n, args) => TypeModel::Applied(n@, types_model(args@)),
        Type::Brand { name, base } => TypeModel::Brand { name: name@, base: Box::new(type_model(*base)) },
        Type::Named(n) => TypeModel::Named(n@),
    }
}

pub open spec fn types_model(s: Seq<Type>) -> Seq<TypeModel>
    decreases s,
{
    if s.len() == 0 {
        Seq::empty()
    } else {
        types_model(s.drop_last()).push(type_model(s.last()))
    }
}

pub open spec fn fields_model(s: Seq<(String, Type)>) -> Seq<(Seq<char>, TypeModel)>
    decreases s,
{
    if s.len() == 0 {
        Seq::empty()
    } else {
        fields_model(s.drop_last()).push((s.last().0@, type_model(s.last().1)))
    }
}

impl View for Type {
    type V = TypeModel;

    open spec fn view(&self) -> TypeModel {
        type_model(*self)
    }
}

pub proof fn lemma_types_model(s: Seq<Type>)
    ensures
        types_model(s).len() == s.len(),
        forall|i: int| 0 <= i < s.len() ==> #[trigger] types_model(s)[i] == type_model(s[i]),
    decreases s.len(),
{
    if s.len() > 0 {
        lemma_types_model(s.drop_last());
    }
}

pub proof fn lemma_fields_model(s: Seq<(String, Type)>)
    ensures
        fields_model(s).len() == s.len(),
        forall|i: int|
            0 <= i < s.len() ==> #[trigger] fields_model(s)[i] == (s[i].0@, type_model(s[i].1)),
    decreases s.len(),
{
    if s.len() > 0 {
        lemma_fields_model(s.drop_last());
    }
}

/// The display name of a type, as used in diagnostics.
pub open spec fn display_name(t: TypeModel) -> Seq<char>
    decreases t,
{
    match t {
        TypeModel::Int => "Int"@,
        TypeModel::Float => "Float"@,
        TypeModel::Bool => "Bool"@,
        TypeModel::String => "String"@,
        TypeModel::Path => "Path"@,
        TypeModel::ExitCode => "ExitCode"@,
        TypeModel::Unit => "Unit"@,
        TypeModel::Future(v) => "Future["@ + display_name(*v) + "]"@,
        TypeModel::Array(e) => "["@ + display_name(*e) + "]"@,
        TypeModel::Mapping(k, v) => "Map["@ + display_name(*k) + ", "@ + display_name(*v) + "]"@,
        TypeModel::Record(fields) => "{ "@ + join_field_names(fields) + " }"@,
        TypeModel::Tuple(es) => "("@ + join_type_names(es, ", "@) + ")"@,
        TypeModel::Function(ps, r) => if ps.len() == 1 {
            display_name(ps[0]) + " => "@ + display_name(*r)
        } else {
            "("@ + join_type_names(ps, ", "@) + ")"@ + " => "@ + display_name(*r)
        },
        TypeModel::Union(ts) => join_type_names(ts, " | "@),
        TypeModel::Intersection(ts) => join_type_names(ts, " & "@),
        TypeModel::Generic(n) => n,
        TypeModel::Applied(n, args) => if n == "Option"@ && args.len() == 1 {
            display_name(args[0]) + "?"@
        } else if n == "Result"@ && args.len() == 2 {
            display_name(args[0]) + " \\/ "@ + display_name(args[1])
        } else {
            n + "["@ + join_type_names(args, ", "@) + "]"@
        },
        TypeModel::Brand { name, .. } => name,
        TypeModel::Named(n) => n,
    }
}

/// The names of `ts`, separated by `sep`.
pub open spec fn join_type_names(ts: Seq<TypeModel>, sep: Seq<char>) -> Seq<char>
    decreases ts,
{
    if ts.len() == 0 {
        Seq::empty()
    } else if ts.len() == 1 {
        display_name(ts[0])
    } else {
        join_type_names(ts.drop_last(), sep) + sep + display_name(ts.last())
    }
}

/// Record fields written `name: Type`, separated by commas.
pub open spec fn join_field_names(fs: Seq<(Seq<char>, TypeModel)>) -> Seq<char>
    decreases fs,
{
    if fs.len() == 0 {
        Seq::empty()
    } else if fs.len() == 1 {
        fs[0].0 + ": "@ + display_name(fs[0].1)
    } else {
        join_field_names(fs.drop_last()) + ", "@ + fs.last().0 + ": "@ + display_name(fs.last().1)
    }
}

fn names_of_types(ts: &Vec<Type>, sep: &str) -> (r: String)
    ensures
        r@ == join_type_names(types_model(ts@), sep@),
    decreases ts,
{
    proof {
        lemma_types_model(ts@);
    }
    let ghost m = types_model(ts@);
    let mut out = String::new();
    let mut i: usize = 0;
    while i < ts.len()
        invariant
            i <= ts.len(),
            m == types_model(ts@),
            m.len() == ts@.len(),
            forall|j: int| 0 <= j < ts@.len() ==> #[trigger] m[j] == type_model(ts@[j]),
            out@ == join_type_names(m.take(i as int), sep@),
        decreases ts.len() - i,
    {
        proof {
            assert(decreases_to!(ts => ts[i as int]));
        }
        let name = ts[i].name();
        if i > 0 {
            out.append(sep);
        }
        out.append(name.as_str());
        proof {
            assert(m.take(i + 1).drop_last() =~= m.take(i as int));
            if i == 0 {
                assert(m.take(1) =~= seq![m[0]]);
            }
        }
        i += 1;
    }
    proof {
        assert(m.take(ts.len() as int) =~= m);
    }
    out
}

fn names_of_fields(fs: &Vec<(String, Type)>) -> (r: String)
    ensures
        r@ == join_field_names(fields_model(fs@)),
    decreases fs,
{
    proof {
        lemma_fields_model(fs@);
    }
    let ghost m = fields_model(fs@);
    let mut out = String::new();
    let mut i: usize = 0;
    while i < fs.len()
        invariant
            i <= fs.len(),
            m == fields_model(fs@),
            m.len() == fs@.len(),
            forall|j: int| 0 <= j < fs@.len() ==> #[trigger] m[j] == (fs@[j].0@, type_model(fs@[j].1)),
            out@ == join_field_names(m.take(i as int)),
        decreases fs.len() - i,
    {
        proof {
            assert(decreases_to!(fs => fs[i as int]));
            assert(decreases_to!(fs[i as int] => fs[i as int].1));
        }
        let name = fs[i].1.name();
        if i > 0 {
            out.append(", ");
        }
        out.append(fs[i].0.as_str());
        out.append(": ");
        out.append(name.as_str());
        proof {
            assert(m.take(i + 1).drop_last() =~= m.take(i as int));
            if i == 0 {
                assert(m.take(1) =~= seq![m[0]]);
            }
        }
        i += 1;
    }
    proof {
        assert(m.take(fs.len() as int) =~= m);
    }
    out
}

impl Type {
    /// The display name of the type, as diagnostics print it.
    pub fn name(&self) -> (r: String)
        ensures
            r@ == display_name(self@),
        decreases self,
    {
        match self {
            Type::Int => String::from_str("Int"),
            Type::Float => String::from_str("Float"),
            Type::Bool => String::from_str("Bool"),
            Type::String => String::from_str("String"),
            Type::Path => String::from_str("Path"),
            Type::ExitCode => String::from_str("ExitCode"),
            Type::Unit => String::from_str("Unit"),
            Type::Future(value) => {
                let mut out = String::from_str("Future[");
                out.append(value.name().as_str());
                out.append("]");
                out
            },
            Type::Array(element) => {
                let mut out = String::from_str("[");
                out.append(element.name().as_str());
                out.append("]");
                out
            },
            Type::Mapping(key, value) => {
                let mut out = String::from_str("Map[");
                out.append(key.name().as_str());
                out.append(", ");
                out.append(value.name().as_str());
                out.append("]");
                out
            },
            Type::Record(fields) => {
                let mut out = String::from_str("{ ");
                out.append(names_of_fields(fields).as_str());
                out.append(" }");
                out
            },
            Type::Tuple(elements) => {
                let mut out = String::from_str("(");
                out.append(names_of_types(elements, ", ").as_str());
                out.append(")");
                out
            },
            Type::Function(params, return_type) => {
                proof {
                    lemma_types_model(params@);
                }
                let mut out = if params.len() == 1 {
                    params[0].name()
                } else {
                    let mut out = String::from_str("(");
                    out.append(names_of_types(params, ", ").as_str());
                    out.append(")");
                    out
                };
                out.append(" => ");
                out.append(return_type.name().as_str());
                out
            },
            Type::Union(types) => names_of_types(types, " | "),
            Type::Intersection(types) => names_of_types(types, " & "),
            Type::Generic(name) => name.clone(),
            Type::Applied(name, args) => {
                proof {
                    lemma_types_model(args@);
                }
                if str_eq(name.as_str(), "Option") && args.len() == 1 {
                    let mut out = args[0].name();
                    out.append("?");
                    out
                } else if str_eq(name.as_str(), "Result") && args.len() == 2 {
                    let mut out = args[0].name();
                    out.append(" \\/ ");
                    out.append(args[1].name().as_str());
                    out
                } else {
                    let mut out = name.clone();
                    out.append("[");
                    out.append(names_of_types(args, ", ").as_str());
                    out.append("]");
                    out
                }
            },
            Type::Brand { name, .. } => name.clone(),
            Type::Named(name) => name.clone(),
        }
    }
}

pub fn duplicate_types(ts: &Vec<Type>) -> (r: Vec<Type>)
    ensures
        r@.len() == ts@.len(),
        types_model(r@) == types_model(ts@),
    decreases ts,
{
    let mut out: Vec<Type> = Vec::new();
    let mut i: usize = 0;
    while i < ts.len()
        invariant
            i <= ts.len(),
            out@.len() == i,
            forall|j: int| 0 <= j < i ==> #[trigger] type_model(out@[j]) == type_model(ts@[j]),
        decreases ts.len() - i,
    {
        proof {
            assert(decreases_to!(ts => ts[i as int]));
        }
        out.push(ts[i].duplicate());
        i += 1;
    }
    proof {
        lemma_types_model(out@);
        lemma_types_model(ts@);
        assert(types_model(out@) =~= types_model(ts@));
    }
    out
}

pub fn duplicate_fields(fs: &Vec<(String, Type)>) -> (r: Vec<(String, Type)>)
    ensures
        r@.len() == fs@.len(),
        fields_model(r@) == fields_model(fs@),
    decreases fs,
{
    let mut out: Vec<(String, Type)> = Vec::new();
    let mut i: usize = 0;
    while i < fs.len()
        invariant
            i <= fs.len(),
            out@.len() == i,
            forall|j: int|
                0 <= j < i ==> #[trigger] out@[j].0@ == fs@[j].0@ && type_model(out@[j].1)
                    == type_model(fs@[j].1),
        decreases fs.len() - i,
    {
        proof {
            assert(decreases_to!(fs => fs[i as int]));
            assert(decreases_to!(fs[i as int] => fs[i as int].1));
        }
        out.push((fs[i].0.clone(), fs[i].1.duplicate()));
        i += 1;
    }
    proof {
        lemma_fields_model(out@);
        lemma_fields_model(fs@);
        assert(fields_model(out@) =~= fields_model(fs@));
    }
    out
}

impl Type {
    /// A copy of the type with the same model.
    pub fn duplicate(&self) -> (r: Type)
        ensures
            r@ == self@,
        decreases self,
    {
        match self {
            Type::Int => Type::Int,
            Type::Float => Type::Float,
            Type::Bool => Type::Bool,
            Type::String => Type::String,
            Type::Path => Type::Path,
            Type::ExitCode => Type::ExitCode,
            Type::Unit => Type::Unit,
            Type::Future(v) => Type::Future(Box::new(v.duplicate())),
            Type::Array(v) => Type::Array(Box::new(v.duplicate())),
            Type::Mapping(k, v) => Type::Mapping(Box::new(k.duplicate()), Box::new(v.duplicate())),
            Type::Record(fields) => Type::Record(duplicate_fields(fields)),
            Type::Tuple(v) => Type::Tuple(duplicate_types(v)),
            Type::Function(ps, r) => Type::Function(duplicate_types(ps), Box::new(r.duplicate())),
            Type::Union(v) => Type::Union(duplicate_types(v)),
            Type::Intersection(v) => Type::Intersection(duplicate_types(v)),
            Type::Generic(n) => Type::Generic(n.clone()),
            Type::Applied(n, args) => Type::Applied(n.clone(), duplicate_types(args)),
            Type::Brand { name, base } => Type::Brand { name: name.clone(), base: Box::new(base.duplicate()) },
            Type::Named(n) => Type::Named(n.clone()),
        }
    }
}

/// A type and its model have the same outermost constructor.
pub proof fn lemma_type_model_tags(t: Type)
    ensures
        (t@ is Int) == (t is Int),
        (t@ is Float) == (t is Float),
        (t@ is Bool) == (t is Bool),
        (t@ is String) == (t is String),
        (t@ is Path) == (t is Path),
        (t@ is ExitCode) == (t is ExitCode),
        (t@ is Unit) == (t is Unit),
        (t@ is Future) == (t is Future),
        (t@ is Array) == (t is Array),
        (t@ is Mapping) == (t is Mapping),
        (t@ is Record) == (t is Record),
        (t@ is Tuple) == (t is Tuple),
        (t@ is Function) == (t is Function),
        (t@ is Union) == (t is Union),
        (t@ is Intersection) == (t is Intersection),
        (t@ is Generic) == (t is Generic),
        (t@ is Applied) == (t is Applied),
        (t@ is Brand) == (t is Brand),
        (t@ is Named) == (t is Named),
{
}

} // verus!
