//! The abstract syntax tree that the parser builds.

use vstd::prelude::*;
use crate::text::{push_str, string_of, string_of_char};

verus! {

#[derive(Debug, Clone, Copy, PartialEq, Eq, Hash)]
pub struct Span {
    pub start: usize,
    pub end: usize,
}

impl Span {
    pub fn new(start: usize, end: usize) -> (r: Self)
        ensures
            r.start == start,
            r.end == end,
    {
        Self { start, end }
    }
}

// ============================================================================
// Compilation unit
// ============================================================================

#[derive(Debug, PartialEq)]
pub struct CompilationUnit {
    pub imports: Vec<ImportDirective>,
    pub declarations: Vec<TopLevelDecl>,
}

#[derive(Debug, PartialEq)]
pub struct ImportDirective {
    pub path: Vec<String>,
    pub alias: Option<String>,
}

// ============================================================================
// Top-level declarations
// ============================================================================

#[derive(Debug, PartialEq)]
pub enum TopLevelDecl {
    TypeDef(TypeDef),
    Class(ClassDecl),
    Fn(FnDecl),
    Trait(TraitDecl),
    Impl(ImplBlock),
    Static(StaticDecl),
}

// ============================================================================
// Type definitions (sum types / algebraic data types)
// ============================================================================

#[derive(Debug, PartialEq)]
pub struct TypeDef {
    pub name: String,
    pub params: TypeParams,
    pub sum_type: SumType,
}

#[derive(Debug, PartialEq)]
pub struct SumType {
    pub variants: Vec<Variant>,
}

#[derive(Debug, PartialEq)]
pub struct Variant {
    pub name: String,
    pub fields: Option<FieldList>,
    pub trait_impls: Option<Vec<TraitRef>>,
}

#[derive(Debug, PartialEq)]
pub struct TypeParams {
    pub params: Vec<TypeParam>,
}

#[derive(Debug, PartialEq)]
pub struct TypeParam {
    pub name: String,
    pub constraints: Option<Vec<TraitRef>>,
}

// ============================================================================
// Type references
// ============================================================================

#[derive(Debug, PartialEq)]
pub enum TypeRef {
    Named {
        name: String,
        args: Vec<TypeRef>,
    },
    Ref(Box<TypeRef>),
    Mut(Box<TypeRef>),
    Array(Box<TypeRef>),
    Tuple(Vec<TypeRef>),
    Function {
        param_types: Vec<TypeRef>,
        return_type: Box<TypeRef>,
    },
    Self_,
}

#[derive(Debug, PartialEq)]
pub struct TraitRef {
    pub name: String,
    pub args: Vec<TypeRef>,
}

// ============================================================================
// Class declarations
// ============================================================================

#[derive(Debug, PartialEq)]
pub struct ClassDecl {
    pub abstract_: bool,
    pub name: String,
    pub params: TypeParams,
    pub primary_constructor: Option<FieldList>,
    pub extends: Option<Box<TypeRef>>,
    pub impls: Option<Vec<TraitRef>>,
    pub body: ClassBody,
}

#[derive(Debug, PartialEq)]
pub enum ClassBody {
    Brace(Vec<ClassMember>),
    Inline(Vec<ClassMember>),
    Semi,
}

#[derive(Debug, PartialEq)]
pub enum Visibility {
    Public,
    Protected,
    Private,
}

#[derive(Debug, PartialEq)]
pub struct ClassMember {
    pub visibility: Option<Visibility>,
    pub kind: ClassMemberKind,
}

#[derive(Debug, PartialEq)]
pub enum ClassMemberKind {
    Fn(FnDecl),
    Prop(PropDecl),
    Field(FieldDecl),
    Constructor(ConstructorDecl),
}

#[derive(Debug, PartialEq)]
pub struct FieldDecl {
    pub mutable: bool,
    pub name: String,
    pub type_: TypeRef,
    pub default: Option<Expression>,
}

#[derive(Debug, PartialEq)]
pub struct Field {
    pub mutable: bool,
    pub name: String,
    pub type_: TypeRef,
    pub default: Option<Expression>,
}

pub type FieldList = Vec<Field>;

// ============================================================================
// Constructor
// ============================================================================

#[derive(Debug, PartialEq)]
pub struct ConstructorDecl {
    pub params: Vec<Param>,
    pub delegate: Option<Box<Expression>>,
    pub body: Block,
}

// ============================================================================
// Functions
// ============================================================================

#[derive(Debug, PartialEq)]
pub struct FnDecl {
    pub static_: bool,
    pub modifier: Option<FnModifier>,
    pub name: String,
    pub params: TypeParams,
    pub parameters: Vec<Param>,
    pub return_type: Option<TypeRef>,
    pub body: BlockOrSemi,
}

#[derive(Debug, PartialEq)]
pub enum FnModifier {
    Virtual,
    Override,
    Abstract,
}

#[derive(Debug, PartialEq)]
pub enum BlockOrSemi {
    Block(Block),
    Semi,
}

#[derive(Debug, PartialEq)]
pub struct Param {
    pub mutable: bool,
    pub name: String,
    pub type_: TypeRef,
    pub default: Option<Expression>,
}

pub type Block = Vec<Statement>;

// ============================================================================
// Traits
// ============================================================================

#[derive(Debug, PartialEq)]
pub struct TraitDecl {
    pub name: String,
    pub params: TypeParams,
    pub members: Vec<TraitMember>,
}

#[derive(Debug, PartialEq)]
pub enum TraitMember {
    Fn(FnSignature),
    Prop(PropSignature),
}

#[derive(Debug, PartialEq)]
pub struct FnSignature {
    pub name: String,
    pub params: Vec<Param>,
    pub return_type: Option<TypeRef>,
}

#[derive(Debug, PartialEq)]
pub struct PropSignature {
    pub name: String,
    pub type_: TypeRef,
}

// ============================================================================
// Impl blocks
// ============================================================================

#[derive(Debug, PartialEq)]
pub enum ImplBlock {
    TraitImpl {
        trait_: TraitRef,
        for_: TypeRef,
        members: Vec<ClassMember>,
    },
    Inherent {
        type_: TypeRef,
        members: Vec<ClassMember>,
    },
}

// ============================================================================
// Properties
// ============================================================================

#[derive(Debug, PartialEq)]
pub struct PropDecl {
    pub name: String,
    pub type_: Option<TypeRef>,
    pub accessors: PropAccessors,
}

#[derive(Debug, PartialEq)]
pub enum PropAccessors {
    Braces {
        get: Option<Block>,
        set: Option<(String, Block)>,
    },
    Expression(Expression),
}

// ============================================================================
// Static declarations
// ============================================================================

#[derive(Debug, PartialEq)]
pub struct StaticDecl {
    pub name: String,
    pub type_: TypeRef,
    pub value: Expression,
}

// ============================================================================
// Statements
// ============================================================================

#[derive(Debug, PartialEq)]
pub enum Statement {
    Let(LetDecl),
    Assignment(Assignment),
    If(IfExpr),
    Match(MatchExpr),
    Loop(LoopExpr),
    While(WhileExpr),
    For(ForExpr),
    Return(Option<Expression>),
    Break(Option<Expression>),
    Continue,
    SuperCall(Vec<Expression>),
    Expression(Expression),
    Block(Block),
}

#[derive(Debug, PartialEq)]
pub struct LetDecl {
    pub pattern: Pattern,
    pub type_: Option<TypeRef>,
    pub value: Expression,
}

#[derive(Debug, PartialEq)]
pub struct Assignment {
    pub lvalue: LValue,
    pub value: Expression,
}

#[derive(Debug, PartialEq)]
pub enum LValue {
    Variable(String),
    Field(Box<LValue>, String),
    Index(Box<LValue>, Box<Expression>),
}

// ============================================================================
// Expressions
// ============================================================================

#[derive(Debug, PartialEq)]
pub enum Expression {
    Arrow(Box<Expression>, Box<Expression>),

    // Logical
    Or(Box<Expression>, Box<Expression>),
    And(Box<Expression>, Box<Expression>),

    // Comparison
    Equal(Box<Expression>, Box<Expression>),
    NotEqual(Box<Expression>, Box<Expression>),
    Less(Box<Expression>, Box<Expression>),
    Greater(Box<Expression>, Box<Expression>),
    LessEq(Box<Expression>, Box<Expression>),
    GreaterEq(Box<Expression>, Box<Expression>),

    // Pipe
    Pipe(Box<Expression>, Box<Expression>),

    // Range
    Range(Box<Expression>, Box<Expression>),

    // Arithmetic
    Add(Box<Expression>, Box<Expression>),
    Sub(Box<Expression>, Box<Expression>),
    Mul(Box<Expression>, Box<Expression>),
    Div(Box<Expression>, Box<Expression>),
    Mod(Box<Expression>, Box<Expression>),

    // Unary
    Neg(Box<Expression>),
    Not(Box<Expression>),
    Ref(Box<Expression>),
    MutRef(Box<Expression>),

    // Suffix operations
    FieldAccess(Box<Expression>, String),
    Call(Box<Expression>, Vec<Expression>),
    Index(Box<Expression>, Box<Expression>),
    Unwrap(Box<Expression>),
    ForceUnwrap(Box<Expression>),

    // Primary
    Literal(Literal),
    Identifier(String),
    Self_,
    Super_,
    Block(Block),
    If(IfExpr),
    Match(MatchExpr),
    Loop(LoopExpr),
    While(WhileExpr),
    For(ForExpr),
    Lambda {
        params: Vec<Param>,
        return_type: Option<TypeRef>,
        body: Block,
    },
    Paren(Box<Expression>),
    Array(Vec<Expression>),
}

// ============================================================================
// Control flow
// ============================================================================

#[derive(Debug, PartialEq)]
pub struct IfExpr {
    pub condition: Box<Expression>,
    pub then_block: Block,
    pub else_branch: Option<Box<ElseBranch>>,
}

#[derive(Debug, PartialEq)]
pub enum ElseBranch {
    If(IfExpr),
    Block(Block),
}

#[derive(Debug, PartialEq)]
pub struct MatchExpr {
    pub value: Box<Expression>,
    pub arms: Vec<MatchArm>,
}

#[derive(Debug, PartialEq)]
pub struct MatchArm {
    pub pattern: Pattern,
    pub guard: Option<Box<Expression>>,
    pub value: Box<Expression>,
}

#[derive(Debug, PartialEq)]
pub enum Pattern {
    Identifier(String),
    Wildcard,
    Literal(Literal),
    DestructureVariant {
        name: String,
        patterns: Vec<Pattern>,
    },
    DestructureTuple(Vec<Pattern>),
    Or(Box<Pattern>, Box<Pattern>),
}

#[derive(Debug, PartialEq)]
pub struct LoopExpr {
    pub body: Block,
}

#[derive(Debug, PartialEq)]
pub struct WhileExpr {
    pub condition: Box<Expression>,
    pub body: Block,
}

#[derive(Debug, PartialEq)]
pub struct ForExpr {
    pub pattern: Pattern,
    pub iterable: Box<Expression>,
    pub body: Block,
}

// ============================================================================
// Literals
// ============================================================================

#[derive(Debug, PartialEq)]
pub enum Literal {
    Int(String),
    Float(String),
    String(String),
    Char(char),
    Bool(bool),
    Null,
}

impl Literal {
    /// The source form of a literal: strings in double quotes, chars in single quotes.
    pub open spec fn display_text(self) -> Seq<char> {
        match self {
            Literal::Int(s) => s@,
            Literal::Float(s) => s@,
            Literal::String(s) => seq!['"'] + s@ + seq!['"'],
            Literal::Char(c) => seq!['\'', c, '\''],
            Literal::Bool(b) => if b { "true"@ } else { "false"@ },
            Literal::Null => "null"@,
        }
    }

    /// Renders the literal as its source form.
    pub fn to_display_string(&self) -> (r: String)
        ensures
            r@ == self.display_text(),
    {
        match self {
            Literal::Int(s) => s.clone(),
            Literal::Float(s) => s.clone(),
            Literal::String(s) => {
                let mut r = string_of_char('"');
                push_str(&mut r, s.as_str());
                let q = string_of_char('"');
                push_str(&mut r, q.as_str());
                r
            },
            Literal::Char(c) => {
                let mut r = string_of_char('\'');
                r.push(*c);
                r.push('\'');
                assert(r@ =~= seq!['\'', *c, '\'']);
                r
            },
            Literal::Bool(b) => if *b { string_of("true") } else { string_of("false") },
            Literal::Null => string_of("null"),
        }
    }
}


/// A uniform picture of a syntax tree: every node is its constructor's name with
/// the pictures of its fields; text appears as its characters.  Two syntax trees with
/// the same picture hold the same names, literals and structure.
pub enum Tree {
    Node(Seq<char>, Seq<Tree>),
    Leaf(Seq<char>),
}

pub open spec fn bool_tree(b: bool) -> Tree {
    Tree::Node(if b { "true"@ } else { "false"@ }, seq![])
}

impl CompilationUnit {
    pub open spec fn tree(self) -> Tree
        decreases self,
    {
        Tree::Node("CompilationUnit"@, seq![Tree::Node("[]"@, trees_import_directive(self.imports@)), Tree::Node("[]"@, trees_top_level_decl(self.declarations@))])
    }
}

impl ImportDirective {
    pub open spec fn tree(self) -> Tree
        decreases self,
    {
        Tree::Node("ImportDirective"@, seq![Tree::Node("[]"@, trees_string(self.path@)), (match self.alias { Some(x) => Tree::Node("Some"@, seq![Tree::Leaf(x@)]), None => Tree::Node("None"@, seq![]) })])
    }
}

impl TopLevelDecl {
    pub open spec fn tree(self) -> Tree
        decreases self,
    {
        match self {
            TopLevelDecl::TypeDef(a0) => Tree::Node("TypeDef"@, seq![a0.tree()]),
            TopLevelDecl::Class(a0) => Tree::Node("Class"@, seq![a0.tree()]),
            TopLevelDecl::Fn(a0) => Tree::Node("Fn"@, seq![a0.tree()]),
            TopLevelDecl::Trait(a0) => Tree::Node("Trait"@, seq![a0.tree()]),
            TopLevelDecl::Impl(a0) => Tree::Node("Impl"@, seq![a0.tree()]),
            TopLevelDecl::Static(a0) => Tree::Node("Static"@, seq![a0.tree()]),
        }
    }
}

impl TypeDef {
    pub open spec fn tree(self) -> Tree
        decreases self,
    {
        Tree::Node("TypeDef"@, seq![Tree::Leaf(self.name@), self.params.tree(), self.sum_type.tree()])
    }
}

impl SumType {
    pub open spec fn tree(self) -> Tree
        decreases self,
    {
        Tree::Node("SumType"@, seq![Tree::Node("[]"@, trees_variant(self.variants@))])
    }
}

impl Variant {
    pub open spec fn tree(self) -> Tree
        decreases self,
    {
        Tree::Node("Variant"@, seq![Tree::Leaf(self.name@), (match self.fields { Some(x) => Tree::Node("Some"@, seq![Tree::Node("[]"@, trees_field(x@))]), None => Tree::Node("None"@, seq![]) }), (match self.trait_impls { Some(x) => Tree::Node("Some"@, seq![Tree::Node("[]"@, trees_trait_ref(x@))]), None => Tree::Node("None"@, seq![]) })])
    }
}

impl TypeParams {
    pub open spec fn tree(self) -> Tree
        decreases self,
    {
        Tree::Node("TypeParams"@, seq![Tree::Node("[]"@, trees_type_param(self.params@))])
    }
}

impl TypeParam {
    pub open spec fn tree(self) -> Tree
        decreases self,
    {
        Tree::Node("TypeParam"@, seq![Tree::Leaf(self.name@), (match self.constraints { Some(x) => Tree::Node("Some"@, seq![Tree::Node("[]"@, trees_trait_ref(x@))]), None => Tree::Node("None"@, seq![]) })])
    }
}

impl TypeRef {
    pub open spec fn tree(self) -> Tree
        decreases self,
    {
        match self {
            TypeRef::Named { name, args } => Tree::Node("Named"@, seq![Tree::Leaf(name@), Tree::Node("[]"@, trees_type_ref(args@))]),
            TypeRef::Ref(a0) => Tree::Node("Ref"@, seq![(*a0).tree()]),
            TypeRef::Mut(a0) => Tree::Node("Mut"@, seq![(*a0).tree()]),
            TypeRef::Array(a0) => Tree::Node("Array"@, seq![(*a0).tree()]),
            TypeRef::Tuple(a0) => Tree::Node("Tuple"@, seq![Tree::Node("[]"@, trees_type_ref(a0@))]),
            TypeRef::Function { param_types, return_type } => Tree::Node("Function"@, seq![Tree::Node("[]"@, trees_type_ref(param_types@)), (*return_type).tree()]),
            TypeRef::Self_ => Tree::Node("Self_"@, seq![]),
        }
    }
}

impl TraitRef {
    pub open spec fn tree(self) -> Tree
        decreases self,
    {
        Tree::Node("TraitRef"@, seq![Tree::Leaf(self.name@), Tree::Node("[]"@, trees_type_ref(self.args@))])
    }
}

impl ClassDecl {
    pub open spec fn tree(self) -> Tree
        decreases self,
    {
        Tree::Node("ClassDecl"@, seq![bool_tree(self.abstract_), Tree::Leaf(self.name@), self.params.tree(), (match self.primary_constructor { Some(x) => Tree::Node("Some"@, seq![Tree::Node("[]"@, trees_field(x@))]), None => Tree::Node("None"@, seq![]) }), (match self.extends { Some(x) => Tree::Node("Some"@, seq![(*x).tree()]), None => Tree::Node("None"@, seq![]) }), (match self.impls { Some(x) => Tree::Node("Some"@, seq![Tree::Node("[]"@, trees_trait_ref(x@))]), None => Tree::Node("None"@, seq![]) }), self.body.tree()])
    }
}

impl ClassBody {
    pub open spec fn tree(self) -> Tree
        decreases self,
    {
        match self {
            ClassBody::Brace(a0) => Tree::Node("Brace"@, seq![Tree::Node("[]"@, trees_class_member(a0@))]),
            ClassBody::Inline(a0) => Tree::Node("Inline"@, seq![Tree::Node("[]"@, trees_class_member(a0@))]),
            ClassBody::Semi => Tree::Node("Semi"@, seq![]),
        }
    }
}

impl Visibility {
    pub open spec fn tree(self) -> Tree
        decreases self,
    {
        match self {
            Visibility::Public => Tree::Node("Public"@, seq![]),
            Visibility::Protected => Tree::Node("Protected"@, seq![]),
            Visibility::Private => Tree::Node("Private"@, seq![]),
        }
    }
}

impl ClassMember {
    pub open spec fn tree(self) -> Tree
        decreases self,
    {
        Tree::Node("ClassMember"@, seq![(match self.visibility { Some(x) => Tree::Node("Some"@, seq![x.tree()]), None => Tree::Node("None"@, seq![]) }), self.kind.tree()])
    }
}

impl ClassMemberKind {
    pub open spec fn tree(self) -> Tree
        decreases self,
    {
        match self {
            ClassMemberKind::Fn(a0) => Tree::Node("Fn"@, seq![a0.tree()]),
            ClassMemberKind::Prop(a0) => Tree::Node("Prop"@, seq![a0.tree()]),
            ClassMemberKind::Field(a0) => Tree::Node("Field"@, seq![a0.tree()]),
            ClassMemberKind::Constructor(a0) => Tree::Node("Constructor"@, seq![a0.tree()]),
        }
    }
}

impl FieldDecl {
    pub open spec fn tree(self) -> Tree
        decreases self,
    {
        Tree::Node("FieldDecl"@, seq![bool_tree(self.mutable), Tree::Leaf(self.name@), self.type_.tree(), (match self.default { Some(x) => Tree::Node("Some"@, seq![x.tree()]), None => Tree::Node("None"@, seq![]) })])
    }
}

impl Field {
    pub open spec fn tree(self) -> Tree
        decreases self,
    {
        Tree::Node("Field"@, seq![bool_tree(self.mutable), Tree::Leaf(self.name@), self.type_.tree(), (match self.default { Some(x) => Tree::Node("Some"@, seq![x.tree()]), None => Tree::Node("None"@, seq![]) })])
    }
}

impl ConstructorDecl {
    pub open spec fn tree(self) -> Tree
        decreases self,
    {
        Tree::Node("ConstructorDecl"@, seq![Tree::Node("[]"@, trees_param(self.params@)), (match self.delegate { Some(x) => Tree::Node("Some"@, seq![(*x).tree()]), None => Tree::Node("None"@, seq![]) }), Tree::Node("[]"@, trees_statement(self.body@))])
    }
}

impl FnDecl {
    pub open spec fn tree(self) -> Tree
        decreases self,
    {
        Tree::Node("FnDecl"@, seq![bool_tree(self.static_), (match self.modifier { Some(x) => Tree::Node("Some"@, seq![x.tree()]), None => Tree::Node("None"@, seq![]) }), Tree::Leaf(self.name@), self.params.tree(), Tree::Node("[]"@, trees_param(self.parameters@)), (match self.return_type { Some(x) => Tree::Node("Some"@, seq![x.tree()]), None => Tree::Node("None"@, seq![]) }), self.body.tree()])
    }
}

impl FnModifier {
    pub open spec fn tree(self) -> Tree
        decreases self,
    {
        match self {
            FnModifier::Virtual => Tree::Node("Virtual"@, seq![]),
            FnModifier::Override => Tree::Node("Override"@, seq![]),
            FnModifier::Abstract => Tree::Node("Abstract"@, seq![]),
        }
    }
}

impl BlockOrSemi {
    pub open spec fn tree(self) -> Tree
        decreases self,
    {
        match self {
            BlockOrSemi::Block(a0) => Tree::Node("Block"@, seq![Tree::Node("[]"@, trees_statement(a0@))]),
            BlockOrSemi::Semi => Tree::Node("Semi"@, seq![]),
        }
    }
}

impl Param {
    pub open spec fn tree(self) -> Tree
        decreases self,
    {
        Tree::Node("Param"@, seq![bool_tree(self.mutable), Tree::Leaf(self.name@), self.type_.tree(), (match self.default { Some(x) => Tree::Node("Some"@, seq![x.tree()]), None => Tree::Node("None"@, seq![]) })])
    }
}

impl TraitDecl {
    pub open spec fn tree(self) -> Tree
        decreases self,
    {
        Tree::Node("TraitDecl"@, seq![Tree::Leaf(self.name@), self.params.tree(), Tree::Node("[]"@, trees_trait_member(self.members@))])
    }
}

impl TraitMember {
    pub open spec fn tree(self) -> Tree
        decreases self,
    {
        match self {
            TraitMember::Fn(a0) => Tree::Node("Fn"@, seq![a0.tree()]),
            TraitMember::Prop(a0) => Tree::Node("Prop"@, seq![a0.tree()]),
        }
    }
}

impl FnSignature {
    pub open spec fn tree(self) -> Tree
        decreases self,
    {
        Tree::Node("FnSignature"@, seq![Tree::Leaf(self.name@), Tree::Node("[]"@, trees_param(self.params@)), (match self.return_type { Some(x) => Tree::Node("Some"@, seq![x.tree()]), None => Tree::Node("None"@, seq![]) })])
    }
}

impl PropSignature {
    pub open spec fn tree(self) -> Tree
        decreases self,
    {
        Tree::Node("PropSignature"@, seq![Tree::Leaf(self.name@), self.type_.tree()])
    }
}

impl ImplBlock {
    pub open spec fn tree(self) -> Tree
        decreases self,
    {
        match self {
            ImplBlock::TraitImpl { trait_, for_, members } => Tree::Node("TraitImpl"@, seq![trait_.tree(), for_.tree(), Tree::Node("[]"@, trees_class_member(members@))]),
            ImplBlock::Inherent { type_, members } => Tree::Node("Inherent"@, seq![type_.tree(), Tree::Node("[]"@, trees_class_member(members@))]),
        }
    }
}

impl PropDecl {
    pub open spec fn tree(self) -> Tree
        decreases self,
    {
        Tree::Node("PropDecl"@, seq![Tree::Leaf(self.name@), (match self.type_ { Some(x) => Tree::Node("Some"@, seq![x.tree()]), None => Tree::Node("None"@, seq![]) }), self.accessors.tree()])
    }
}

impl PropAccessors {
    pub open spec fn tree(self) -> Tree
        decreases self,
    {
        match self {
            PropAccessors::Braces { get, set } => Tree::Node("Braces"@, seq![(match get { Some(x) => Tree::Node("Some"@, seq![Tree::Node("[]"@, trees_statement(x@))]), None => Tree::Node("None"@, seq![]) }), (match set { Some(x) => Tree::Node("Some"@, seq![Tree::Node("()"@, seq![Tree::Leaf(x.0@), Tree::Node("[]"@, trees_statement(x.1@))])]), None => Tree::Node("None"@, seq![]) })]),
            PropAccessors::Expression(a0) => Tree::Node("Expression"@, seq![a0.tree()]),
        }
    }
}

impl StaticDecl {
    pub open spec fn tree(self) -> Tree
        decreases self,
    {
        Tree::Node("StaticDecl"@, seq![Tree::Leaf(self.name@), self.type_.tree(), self.value.tree()])
    }
}

impl Statement {
    pub open spec fn tree(self) -> Tree
        decreases self,
    {
        match self {
            Statement::Let(a0) => Tree::Node("Let"@, seq![a0.tree()]),
            Statement::Assignment(a0) => Tree::Node("Assignment"@, seq![a0.tree()]),
            Statement::If(a0) => Tree::Node("If"@, seq![a0.tree()]),
            Statement::Match(a0) => Tree::Node("Match"@, seq![a0.tree()]),
            Statement::Loop(a0) => Tree::Node("Loop"@, seq![a0.tree()]),
            Statement::While(a0) => Tree::Node("While"@, seq![a0.tree()]),
            Statement::For(a0) => Tree::Node("For"@, seq![a0.tree()]),
            Statement::Return(a0) => Tree::Node("Return"@, seq![(match a0 { Some(x) => Tree::Node("Some"@, seq![x.tree()]), None => Tree::Node("None"@, seq![]) })]),
            Statement::Break(a0) => Tree::Node("Break"@, seq![(match a0 { Some(x) => Tree::Node("Some"@, seq![x.tree()]), None => Tree::Node("None"@, seq![]) })]),
            Statement::Continue => Tree::Node("Continue"@, seq![]),
            Statement::SuperCall(a0) => Tree::Node("SuperCall"@, seq![Tree::Node("[]"@, trees_expression(a0@))]),
            Statement::Expression(a0) => Tree::Node("Expression"@, seq![a0.tree()]),
            Statement::Block(a0) => Tree::Node("Block"@, seq![Tree::Node("[]"@, trees_statement(a0@))]),
        }
    }
}

impl LetDecl {
    pub open spec fn tree(self) -> Tree
        decreases self,
    {
        Tree::Node("LetDecl"@, seq![self.pattern.tree(), (match self.type_ { Some(x) => Tree::Node("Some"@, seq![x.tree()]), None => Tree::Node("None"@, seq![]) }), self.value.tree()])
    }
}

impl Assignment {
    pub open spec fn tree(self) -> Tree
        decreases self,
    {
        Tree::Node("Assignment"@, seq![self.lvalue.tree(), self.value.tree()])
    }
}

impl LValue {
    pub open spec fn tree(self) -> Tree
        decreases self,
    {
        match self {
            LValue::Variable(a0) => Tree::Node("Variable"@, seq![Tree::Leaf(a0@)]),
            LValue::Field(a0, a1) => Tree::Node("Field"@, seq![(*a0).tree(), Tree::Leaf(a1@)]),
            LValue::Index(a0, a1) => Tree::Node("Index"@, seq![(*a0).tree(), (*a1).tree()]),
        }
    }
}

impl Expression {
    pub open spec fn tree(self) -> Tree
        decreases self,
    {
        match self {
            Expression::Arrow(a0, a1) => Tree::Node("Arrow"@, seq![(*a0).tree(), (*a1).tree()]),
            Expression::Or(a0, a1) => Tree::Node("Or"@, seq![(*a0).tree(), (*a1).tree()]),
            Expression::And(a0, a1) => Tree::Node("And"@, seq![(*a0).tree(), (*a1).tree()]),
            Expression::Equal(a0, a1) => Tree::Node("Equal"@, seq![(*a0).tree(), (*a1).tree()]),
            Expression::NotEqual(a0, a1) => Tree::Node("NotEqual"@, seq![(*a0).tree(), (*a1).tree()]),
            Expression::Less(a0, a1) => Tree::Node("Less"@, seq![(*a0).tree(), (*a1).tree()]),
            Expression::Greater(a0, a1) => Tree::Node("Greater"@, seq![(*a0).tree(), (*a1).tree()]),
            Expression::LessEq(a0, a1) => Tree::Node("LessEq"@, seq![(*a0).tree(), (*a1).tree()]),
            Expression::GreaterEq(a0, a1) => Tree::Node("GreaterEq"@, seq![(*a0).tree(), (*a1).tree()]),
            Expression::Pipe(a0, a1) => Tree::Node("Pipe"@, seq![(*a0).tree(), (*a1).tree()]),
            Expression::Range(a0, a1) => Tree::Node("Range"@, seq![(*a0).tree(), (*a1).tree()]),
            Expression::Add(a0, a1) => Tree::Node("Add"@, seq![(*a0).tree(), (*a1).tree()]),
            Expression::Sub(a0, a1) => Tree::Node("Sub"@, seq![(*a0).tree(), (*a1).tree()]),
            Expression::Mul(a0, a1) => Tree::Node("Mul"@, seq![(*a0).tree(), (*a1).tree()]),
            Expression::Div(a0, a1) => Tree::Node("Div"@, seq![(*a0).tree(), (*a1).tree()]),
            Expression::Mod(a0, a1) => Tree::Node("Mod"@, seq![(*a0).tree(), (*a1).tree()]),
            Expression::Neg(a0) => Tree::Node("Neg"@, seq![(*a0).tree()]),
            Expression::Not(a0) => Tree::Node("Not"@, seq![(*a0).tree()]),
            Expression::Ref(a0) => Tree::Node("Ref"@, seq![(*a0).tree()]),
            Expression::MutRef(a0) => Tree::Node("MutRef"@, seq![(*a0).tree()]),
            Expression::FieldAccess(a0, a1) => Tree::Node("FieldAccess"@, seq![(*a0).tree(), Tree::Leaf(a1@)]),
            Expression::Call(a0, a1) => Tree::Node("Call"@, seq![(*a0).tree(), Tree::Node("[]"@, trees_expression(a1@))]),
            Expression::Index(a0, a1) => Tree::Node("Index"@, seq![(*a0).tree(), (*a1).tree()]),
            Expression::Unwrap(a0) => Tree::Node("Unwrap"@, seq![(*a0).tree()]),
            Expression::ForceUnwrap(a0) => Tree::Node("ForceUnwrap"@, seq![(*a0).tree()]),
            Expression::Literal(a0) => Tree::Node("Literal"@, seq![a0.tree()]),
            Expression::Identifier(a0) => Tree::Node("Identifier"@, seq![Tree::Leaf(a0@)]),
            Expression::Self_ => Tree::Node("Self_"@, seq![]),
            Expression::Super_ => Tree::Node("Super_"@, seq![]),
            Expression::Block(a0) => Tree::Node("Block"@, seq![Tree::Node("[]"@, trees_statement(a0@))]),
            Expression::If(a0) => Tree::Node("If"@, seq![a0.tree()]),
            Expression::Match(a0) => Tree::Node("Match"@, seq![a0.tree()]),
            Expression::Loop(a0) => Tree::Node("Loop"@, seq![a0.tree()]),
            Expression::While(a0) => Tree::Node("While"@, seq![a0.tree()]),
            Expression::For(a0) => Tree::Node("For"@, seq![a0.tree()]),
            Expression::Lambda { params, return_type, body } => Tree::Node("Lambda"@, seq![Tree::Node("[]"@, trees_param(params@)), (match return_type { Some(x) => Tree::Node("Some"@, seq![x.tree()]), None => Tree::Node("None"@, seq![]) }), Tree::Node("[]"@, trees_statement(body@))]),
            Expression::Paren(a0) => Tree::Node("Paren"@, seq![(*a0).tree()]),
            Expression::Array(a0) => Tree::Node("Array"@, seq![Tree::Node("[]"@, trees_expression(a0@))]),
        }
    }
}

impl IfExpr {
    pub open spec fn tree(self) -> Tree
        decreases self,
    {
        Tree::Node("IfExpr"@, seq![(*self.condition).tree(), Tree::Node("[]"@, trees_statement(self.then_block@)), (match self.else_branch { Some(x) => Tree::Node("Some"@, seq![(*x).tree()]), None => Tree::Node("None"@, seq![]) })])
    }
}

impl ElseBranch {
    pub open spec fn tree(self) -> Tree
        decreases self,
    {
        match self {
            ElseBranch::If(a0) => Tree::Node("If"@, seq![a0.tree()]),
            ElseBranch::Block(a0) => Tree::Node("Block"@, seq![Tree::Node("[]"@, trees_statement(a0@))]),
        }
    }
}

impl MatchExpr {
    pub open spec fn tree(self) -> Tree
        decreases self,
    {
        Tree::Node("MatchExpr"@, seq![(*self.value).tree(), Tree::Node("[]"@, trees_match_arm(self.arms@))])
    }
}

impl MatchArm {
    pub open spec fn tree(self) -> Tree
        decreases self,
    {
        Tree::Node("MatchArm"@, seq![self.pattern.tree(), (match self.guard { Some(x) => Tree::Node("Some"@, seq![(*x).tree()]), None => Tree::Node("None"@, seq![]) }), (*self.value).tree()])
    }
}

impl Pattern {
    pub open spec fn tree(self) -> Tree
        decreases self,
    {
        match self {
            Pattern::Identifier(a0) => Tree::Node("Identifier"@, seq![Tree::Leaf(a0@)]),
            Pattern::Wildcard => Tree::Node("Wildcard"@, seq![]),
            Pattern::Literal(a0) => Tree::Node("Literal"@, seq![a0.tree()]),
            Pattern::DestructureVariant { name, patterns } => Tree::Node("DestructureVariant"@, seq![Tree::Leaf(name@), Tree::Node("[]"@, trees_pattern(patterns@))]),
            Pattern::DestructureTuple(a0) => Tree::Node("DestructureTuple"@, seq![Tree::Node("[]"@, trees_pattern(a0@))]),
            Pattern::Or(a0, a1) => Tree::Node("Or"@, seq![(*a0).tree(), (*a1).tree()]),
        }
    }
}

impl LoopExpr {
    pub open spec fn tree(self) -> Tree
        decreases self,
    {
        Tree::Node("LoopExpr"@, seq![Tree::Node("[]"@, trees_statement(self.body@))])
    }
}

impl WhileExpr {
    pub open spec fn tree(self) -> Tree
        decreases self,
    {
        Tree::Node("WhileExpr"@, seq![(*self.condition).tree(), Tree::Node("[]"@, trees_statement(self.body@))])
    }
}

impl ForExpr {
    pub open spec fn tree(self) -> Tree
        decreases self,
    {
        Tree::Node("ForExpr"@, seq![self.pattern.tree(), (*self.iterable).tree(), Tree::Node("[]"@, trees_statement(self.body@))])
    }
}

impl Literal {
    pub open spec fn tree(self) -> Tree
        decreases self,
    {
        match self {
            Literal::Int(a0) => Tree::Node("Int"@, seq![Tree::Leaf(a0@)]),
            Literal::Float(a0) => Tree::Node("Float"@, seq![Tree::Leaf(a0@)]),
            Literal::String(a0) => Tree::Node("String"@, seq![Tree::Leaf(a0@)]),
            Literal::Char(a0) => Tree::Node("Char"@, seq![Tree::Leaf(seq![a0])]),
            Literal::Bool(a0) => Tree::Node("Bool"@, seq![bool_tree(a0)]),
            Literal::Null => Tree::Node("Null"@, seq![]),
        }
    }
}

pub open spec fn trees_class_member(s: Seq<ClassMember>) -> Seq<Tree>
    decreases s,
{
    if s.len() == 0 {
        Seq::empty()
    } else {
        trees_class_member(s.drop_last()).push(s.last().tree())
    }
}

pub open spec fn trees_expression(s: Seq<Expression>) -> Seq<Tree>
    decreases s,
{
    if s.len() == 0 {
        Seq::empty()
    } else {
        trees_expression(s.drop_last()).push(s.last().tree())
    }
}

pub open spec fn trees_field(s: Seq<Field>) -> Seq<Tree>
    decreases s,
{
    if s.len() == 0 {
        Seq::empty()
    } else {
        trees_field(s.drop_last()).push(s.last().tree())
    }
}

pub open spec fn trees_import_directive(s: Seq<ImportDirective>) -> Seq<Tree>
    decreases s,
{
    if s.len() == 0 {
        Seq::empty()
    } else {
        trees_import_directive(s.drop_last()).push(s.last().tree())
    }
}

pub open spec fn trees_match_arm(s: Seq<MatchArm>) -> Seq<Tree>
    decreases s,
{
    if s.len() == 0 {
        Seq::empty()
    } else {
        trees_match_arm(s.drop_last()).push(s.last().tree())
    }
}

pub open spec fn trees_param(s: Seq<Param>) -> Seq<Tree>
    decreases s,
{
    if s.len() == 0 {
        Seq::empty()
    } else {
        trees_param(s.drop_last()).push(s.last().tree())
    }
}

pub open spec fn trees_pattern(s: Seq<Pattern>) -> Seq<Tree>
    decreases s,
{
    if s.len() == 0 {
        Seq::empty()
    } else {
        trees_pattern(s.drop_last()).push(s.last().tree())
    }
}

pub open spec fn trees_statement(s: Seq<Statement>) -> Seq<Tree>
    decreases s,
{
    if s.len() == 0 {
        Seq::empty()
    } else {
        trees_statement(s.drop_last()).push(s.last().tree())
    }
}

pub open spec fn trees_string(s: Seq<String>) -> Seq<Tree>
    decreases s,
{
    if s.len() == 0 {
        Seq::empty()
    } else {
        trees_string(s.drop_last()).push(Tree::Leaf(s.last()@))
    }
}

pub open spec fn trees_top_level_decl(s: Seq<TopLevelDecl>) -> Seq<Tree>
    decreases s,
{
    if s.len() == 0 {
        Seq::empty()
    } else {
        trees_top_level_decl(s.drop_last()).push(s.last().tree())
    }
}

pub open spec fn trees_trait_member(s: Seq<TraitMember>) -> Seq<Tree>
    decreases s,
{
    if s.len() == 0 {
        Seq::empty()
    } else {
        trees_trait_member(s.drop_last()).push(s.last().tree())
    }
}

pub open spec fn trees_trait_ref(s: Seq<TraitRef>) -> Seq<Tree>
    decreases s,
{
    if s.len() == 0 {
        Seq::empty()
    } else {
        trees_trait_ref(s.drop_last()).push(s.last().tree())
    }
}

pub open spec fn trees_type_param(s: Seq<TypeParam>) -> Seq<Tree>
    decreases s,
{
    if s.len() == 0 {
        Seq::empty()
    } else {
        trees_type_param(s.drop_last()).push(s.last().tree())
    }
}

pub open spec fn trees_type_ref(s: Seq<TypeRef>) -> Seq<Tree>
    decreases s,
{
    if s.len() == 0 {
        Seq::empty()
    } else {
        trees_type_ref(s.drop_last()).push(s.last().tree())
    }
}

pub open spec fn trees_variant(s: Seq<Variant>) -> Seq<Tree>
    decreases s,
{
    if s.len() == 0 {
        Seq::empty()
    } else {
        trees_variant(s.drop_last()).push(s.last().tree())
    }
}


// ============================================================================
// Models of literals and patterns
// ============================================================================

/// What a literal holds, with text as characters.
pub enum LiteralModel {
    Int(Seq<char>),
    Float(Seq<char>),
    Str(Seq<char>),
    Char(char),
    Bool(bool),
    Null,
}

/// What a pattern holds, with text as characters.
pub enum PatternModel {
    Identifier(Seq<char>),
    Wildcard,
    Literal(LiteralModel),
    DestructureVariant { name: Seq<char>, patterns: Seq<PatternModel> },
    DestructureTuple(Seq<PatternModel>),
    Or(Box<PatternModel>, Box<PatternModel>),
}

impl Literal {
    pub open spec fn model(self) -> LiteralModel {
        match self {
            Literal::Int(s) => LiteralModel::Int(s@),
            Literal::Float(s) => LiteralModel::Float(s@),
            Literal::String(s) => LiteralModel::Str(s@),
            Literal::Char(c) => LiteralModel::Char(c),
            Literal::Bool(b) => LiteralModel::Bool(b),
            Literal::Null => LiteralModel::Null,
        }
    }
}

impl Pattern {
    pub open spec fn model(self) -> PatternModel
        decreases self,
    {
        match self {
            Pattern::Identifier(n) => PatternModel::Identifier(n@),
            Pattern::Wildcard => PatternModel::Wildcard,
            Pattern::Literal(l) => PatternModel::Literal(l.model()),
            Pattern::DestructureVariant { name, patterns } => PatternModel::DestructureVariant {
                name: name@,
                patterns: patterns_model(patterns@),
            },
            Pattern::DestructureTuple(ps) => PatternModel::DestructureTuple(patterns_model(ps@)),
            Pattern::Or(a, b) => PatternModel::Or(Box::new((*a).model()), Box::new((*b).model())),
        }
    }
}

/// The models of a sequence of patterns, in order.
pub open spec fn patterns_model(s: Seq<Pattern>) -> Seq<PatternModel>
    decreases s,
{
    if s.len() == 0 {
        Seq::empty()
    } else {
        patterns_model(s.drop_last()).push(s.last().model())
    }
}

pub proof fn lemma_patterns_model_push(s: Seq<Pattern>, p: Pattern)
    ensures
        patterns_model(s.push(p)) == patterns_model(s).push(p.model()),
{
    assert(s.push(p).drop_last() =~= s);
}


// ============================================================================
// Models of written types
// ============================================================================

/// What a written type holds, with text as characters.
pub enum TypeRefModel {
    Named { name: Seq<char>, args: Seq<TypeRefModel> },
    Ref(Box<TypeRefModel>),
    Mut(Box<TypeRefModel>),
    Array(Box<TypeRefModel>),
    Tuple(Seq<TypeRefModel>),
    Function { param_types: Seq<TypeRefModel>, return_type: Box<TypeRefModel> },
    Self_,
}

pub struct TraitRefModel {
    pub name: Seq<char>,
    pub args: Seq<TypeRefModel>,
}

pub struct TypeParamModel {
    pub name: Seq<char>,
    pub constraints: Option<Seq<TraitRefModel>>,
}

impl TypeRef {
    pub open spec fn model(self) -> TypeRefModel
        decreases self,
    {
        match self {
            TypeRef::Named { name, args } => TypeRefModel::Named { name: name@, args: type_refs_model(args@) },
            TypeRef::Ref(t) => TypeRefModel::Ref(Box::new((*t).model())),
            TypeRef::Mut(t) => TypeRefModel::Mut(Box::new((*t).model())),
            TypeRef::Array(t) => TypeRefModel::Array(Box::new((*t).model())),
            TypeRef::Tuple(ts) => TypeRefModel::Tuple(type_refs_model(ts@)),
            TypeRef::Function { param_types, return_type } => TypeRefModel::Function {
                param_types: type_refs_model(param_types@),
                return_type: Box::new((*return_type).model()),
            },
            TypeRef::Self_ => TypeRefModel::Self_,
        }
    }
}

/// The models of a sequence of written types, in order.
pub open spec fn type_refs_model(s: Seq<TypeRef>) -> Seq<TypeRefModel>
    decreases s,
{
    if s.len() == 0 {
        Seq::empty()
    } else {
        type_refs_model(s.drop_last()).push(s.last().model())
    }
}

impl TraitRef {
    pub open spec fn model(self) -> TraitRefModel {
        TraitRefModel { name: self.name@, args: type_refs_model(self.args@) }
    }
}

pub open spec fn trait_refs_model(s: Seq<TraitRef>) -> Seq<TraitRefModel> {
    s.map_values(|t: TraitRef| t.model())
}

impl TypeParam {
    pub open spec fn model(self) -> TypeParamModel {
        TypeParamModel {
            name: self.name@,
            constraints: match self.constraints {
                Some(c) => Some(trait_refs_model(c@)),
                None => None,
            },
        }
    }
}

pub open spec fn type_params_model(s: Seq<TypeParam>) -> Seq<TypeParamModel> {
    s.map_values(|t: TypeParam| t.model())
}

pub proof fn lemma_type_refs_model_push(s: Seq<TypeRef>, t: TypeRef)
    ensures
        type_refs_model(s.push(t)) == type_refs_model(s).push(t.model()),
{
    assert(s.push(t).drop_last() =~= s);
}

// ============================================================================
// Models of the other syntax trees
// ============================================================================

/// The characters of each text.
pub open spec fn texts_of(s: Seq<String>) -> Seq<Seq<char>> {
    s.map_values(|t: String| t@)
}
pub struct CompilationUnitModel {
    pub imports: Seq<ImportDirectiveModel>,
    pub declarations: Seq<TopLevelDeclModel>,
}

impl CompilationUnit {
    pub open spec fn model(self) -> CompilationUnitModel
        decreases self,
    {
        CompilationUnitModel { imports: import_directives_model(self.imports@), declarations: top_level_decls_model(self.declarations@) }
    }
}

pub struct ImportDirectiveModel {
    pub path: Seq<Seq<char>>,
    pub alias: Option<Seq<char>>,
}

impl ImportDirective {
    pub open spec fn model(self) -> ImportDirectiveModel
        decreases self,
    {
        ImportDirectiveModel { path: texts_of(self.path@), alias: match self.alias { Some(x) => Some(x@), None => None } }
    }
}

pub enum TopLevelDeclModel {
    TypeDef(TypeDefModel),
    Class(ClassDeclModel),
    Fn(FnDeclModel),
    Trait(TraitDeclModel),
    Impl(ImplBlockModel),
    Static(StaticDeclModel),
}

impl TopLevelDecl {
    pub open spec fn model(self) -> TopLevelDeclModel
        decreases self,
    {
        match self {
            TopLevelDecl::TypeDef(a0) => TopLevelDeclModel::TypeDef(a0.model()),
            TopLevelDecl::Class(a0) => TopLevelDeclModel::Class(a0.model()),
            TopLevelDecl::Fn(a0) => TopLevelDeclModel::Fn(a0.model()),
            TopLevelDecl::Trait(a0) => TopLevelDeclModel::Trait(a0.model()),
            TopLevelDecl::Impl(a0) => TopLevelDeclModel::Impl(a0.model()),
            TopLevelDecl::Static(a0) => TopLevelDeclModel::Static(a0.model()),
        }
    }
}

pub struct TypeDefModel {
    pub name: Seq<char>,
    pub params: TypeParamsModel,
    pub sum_type: SumTypeModel,
}

impl TypeDef {
    pub open spec fn model(self) -> TypeDefModel
        decreases self,
    {
        TypeDefModel { name: self.name@, params: self.params.model(), sum_type: self.sum_type.model() }
    }
}

pub struct SumTypeModel {
    pub variants: Seq<VariantModel>,
}

impl SumType {
    pub open spec fn model(self) -> SumTypeModel
        decreases self,
    {
        SumTypeModel { variants: variants_model(self.variants@) }
    }
}

pub struct VariantModel {
    pub name: Seq<char>,
    pub fields: Option<Seq<FieldModel>>,
    pub trait_impls: Option<Seq<TraitRefModel>>,
}

impl Variant {
    pub open spec fn model(self) -> VariantModel
        decreases self,
    {
        VariantModel { name: self.name@, fields: match self.fields { Some(x) => Some(fields_model(x@)), None => None }, trait_impls: match self.trait_impls { Some(x) => Some(trait_refs_model(x@)), None => None } }
    }
}

pub struct TypeParamsModel {
    pub params: Seq<TypeParamModel>,
}

impl TypeParams {
    pub open spec fn model(self) -> TypeParamsModel
        decreases self,
    {
        TypeParamsModel { params: type_params_model(self.params@) }
    }
}

pub struct ClassDeclModel {
    pub abstract_: bool,
    pub name: Seq<char>,
    pub params: TypeParamsModel,
    pub primary_constructor: Option<Seq<FieldModel>>,
    pub extends: Option<Box<TypeRefModel>>,
    pub impls: Option<Seq<TraitRefModel>>,
    pub body: ClassBodyModel,
}

impl ClassDecl {
    pub open spec fn model(self) -> ClassDeclModel
        decreases self,
    {
        ClassDeclModel { abstract_: self.abstract_, name: self.name@, params: self.params.model(), primary_constructor: match self.primary_constructor { Some(x) => Some(fields_model(x@)), None => None }, extends: match self.extends { Some(x) => Some(Box::new((*x).model())), None => None }, impls: match self.impls { Some(x) => Some(trait_refs_model(x@)), None => None }, body: self.body.model() }
    }
}

pub enum ClassBodyModel {
    Brace(Seq<ClassMemberModel>),
    Inline(Seq<ClassMemberModel>),
    Semi,
}

impl ClassBody {
    pub open spec fn model(self) -> ClassBodyModel
        decreases self,
    {
        match self {
            ClassBody::Brace(a0) => ClassBodyModel::Brace(class_members_model(a0@)),
            ClassBody::Inline(a0) => ClassBodyModel::Inline(class_members_model(a0@)),
            ClassBody::Semi => ClassBodyModel::Semi,
        }
    }
}

pub struct ClassMemberModel {
    pub visibility: Option<Visibility>,
    pub kind: ClassMemberKindModel,
}

impl ClassMember {
    pub open spec fn model(self) -> ClassMemberModel
        decreases self,
    {
        ClassMemberModel { visibility: match self.visibility { Some(x) => Some(x), None => None }, kind: self.kind.model() }
    }
}

pub enum ClassMemberKindModel {
    Fn(FnDeclModel),
    Prop(PropDeclModel),
    Field(FieldDeclModel),
    Constructor(ConstructorDeclModel),
}

impl ClassMemberKind {
    pub open spec fn model(self) -> ClassMemberKindModel
        decreases self,
    {
        match self {
            ClassMemberKind::Fn(a0) => ClassMemberKindModel::Fn(a0.model()),
            ClassMemberKind::Prop(a0) => ClassMemberKindModel::Prop(a0.model()),
            ClassMemberKind::Field(a0) => ClassMemberKindModel::Field(a0.model()),
            ClassMemberKind::Constructor(a0) => ClassMemberKindModel::Constructor(a0.model()),
        }
    }
}

pub struct FieldDeclModel {
    pub mutable: bool,
    pub name: Seq<char>,
    pub type_: TypeRefModel,
    pub default: Option<ExpressionModel>,
}

impl FieldDecl {
    pub open spec fn model(self) -> FieldDeclModel
        decreases self,
    {
        FieldDeclModel { mutable: self.mutable, name: self.name@, type_: self.type_.model(), default: match self.default { Some(x) => Some(x.model()), None => None } }
    }
}

pub struct FieldModel {
    pub mutable: bool,
    pub name: Seq<char>,
    pub type_: TypeRefModel,
    pub default: Option<ExpressionModel>,
}

impl Field {
    pub open spec fn model(self) -> FieldModel
        decreases self,
    {
        FieldModel { mutable: self.mutable, name: self.name@, type_: self.type_.model(), default: match self.default { Some(x) => Some(x.model()), None => None } }
    }
}

pub struct ConstructorDeclModel {
    pub params: Seq<ParamModel>,
    pub delegate: Option<Box<ExpressionModel>>,
    pub body: Seq<StatementModel>,
}

impl ConstructorDecl {
    pub open spec fn model(self) -> ConstructorDeclModel
        decreases self,
    {
        ConstructorDeclModel { params: params_model(self.params@), delegate: match self.delegate { Some(x) => Some(Box::new((*x).model())), None => None }, body: statements_model(self.body@) }
    }
}

pub struct FnDeclModel {
    pub static_: bool,
    pub modifier: Option<FnModifier>,
    pub name: Seq<char>,
    pub params: TypeParamsModel,
    pub parameters: Seq<ParamModel>,
    pub return_type: Option<TypeRefModel>,
    pub body: BlockOrSemiModel,
}

impl FnDecl {
    pub open spec fn model(self) -> FnDeclModel
        decreases self,
    {
        FnDeclModel { static_: self.static_, modifier: match self.modifier { Some(x) => Some(x), None => None }, name: self.name@, params: self.params.model(), parameters: params_model(self.parameters@), return_type: match self.return_type { Some(x) => Some(x.model()), None => None }, body: self.body.model() }
    }
}

pub enum BlockOrSemiModel {
    Block(Seq<StatementModel>),
    Semi,
}

impl BlockOrSemi {
    pub open spec fn model(self) -> BlockOrSemiModel
        decreases self,
    {
        match self {
            BlockOrSemi::Block(a0) => BlockOrSemiModel::Block(statements_model(a0@)),
            BlockOrSemi::Semi => BlockOrSemiModel::Semi,
        }
    }
}

pub struct ParamModel {
    pub mutable: bool,
    pub name: Seq<char>,
    pub type_: TypeRefModel,
    pub default: Option<ExpressionModel>,
}

impl Param {
    pub open spec fn model(self) -> ParamModel
        decreases self,
    {
        ParamModel { mutable: self.mutable, name: self.name@, type_: self.type_.model(), default: match self.default { Some(x) => Some(x.model()), None => None } }
    }
}

pub struct TraitDeclModel {
    pub name: Seq<char>,
    pub params: TypeParamsModel,
    pub members: Seq<TraitMemberModel>,
}

impl TraitDecl {
    pub open spec fn model(self) -> TraitDeclModel
        decreases self,
    {
        TraitDeclModel { name: self.name@, params: self.params.model(), members: trait_members_model(self.members@) }
    }
}

pub enum TraitMemberModel {
    Fn(FnSignatureModel),
    Prop(PropSignatureModel),
}

impl TraitMember {
    pub open spec fn model(self) -> TraitMemberModel
        decreases self,
    {
        match self {
            TraitMember::Fn(a0) => TraitMemberModel::Fn(a0.model()),
            TraitMember::Prop(a0) => TraitMemberModel::Prop(a0.model()),
        }
    }
}

pub struct FnSignatureModel {
    pub name: Seq<char>,
    pub params: Seq<ParamModel>,
    pub return_type: Option<TypeRefModel>,
}

impl FnSignature {
    pub open spec fn model(self) -> FnSignatureModel
        decreases self,
    {
        FnSignatureModel { name: self.name@, params: params_model(self.params@), return_type: match self.return_type { Some(x) => Some(x.model()), None => None } }
    }
}

pub struct PropSignatureModel {
    pub name: Seq<char>,
    pub type_: TypeRefModel,
}

impl PropSignature {
    pub open spec fn model(self) -> PropSignatureModel
        decreases self,
    {
        PropSignatureModel { name: self.name@, type_: self.type_.model() }
    }
}

pub enum ImplBlockModel {
    TraitImpl { trait_: TraitRefModel, for_: TypeRefModel, members: Seq<ClassMemberModel> },
    Inherent { type_: TypeRefModel, members: Seq<ClassMemberModel> },
}

impl ImplBlock {
    pub open spec fn model(self) -> ImplBlockModel
        decreases self,
    {
        match self {
            ImplBlock::TraitImpl { trait_, for_, members } => ImplBlockModel::TraitImpl { trait_: trait_.model(), for_: for_.model(), members: class_members_model(members@) },
            ImplBlock::Inherent { type_, members } => ImplBlockModel::Inherent { type_: type_.model(), members: class_members_model(members@) },
        }
    }
}

pub struct PropDeclModel {
    pub name: Seq<char>,
    pub type_: Option<TypeRefModel>,
    pub accessors: PropAccessorsModel,
}

impl PropDecl {
    pub open spec fn model(self) -> PropDeclModel
        decreases self,
    {
        PropDeclModel { name: self.name@, type_: match self.type_ { Some(x) => Some(x.model()), None => None }, accessors: self.accessors.model() }
    }
}

pub enum PropAccessorsModel {
    Braces { get: Option<Seq<StatementModel>>, set: Option<(Seq<char>, Seq<StatementModel>)> },
    Expression(ExpressionModel),
}

impl PropAccessors {
    pub open spec fn model(self) -> PropAccessorsModel
        decreases self,
    {
        match self {
            PropAccessors::Braces { get, set } => PropAccessorsModel::Braces { get: match get { Some(x) => Some(statements_model(x@)), None => None }, set: match set { Some(x) => Some((x.0@, statements_model(x.1@))), None => None } },
            PropAccessors::Expression(a0) => PropAccessorsModel::Expression(a0.model()),
        }
    }
}

pub struct StaticDeclModel {
    pub name: Seq<char>,
    pub type_: TypeRefModel,
    pub value: ExpressionModel,
}

impl StaticDecl {
    pub open spec fn model(self) -> StaticDeclModel
        decreases self,
    {
        StaticDeclModel { name: self.name@, type_: self.type_.model(), value: self.value.model() }
    }
}

pub enum StatementModel {
    Let(LetDeclModel),
    Assignment(AssignmentModel),
    If(IfExprModel),
    Match(MatchExprModel),
    Loop(LoopExprModel),
    While(WhileExprModel),
    For(ForExprModel),
    Return(Option<ExpressionModel>),
    Break(Option<ExpressionModel>),
    Continue,
    SuperCall(Seq<ExpressionModel>),
    Expression(ExpressionModel),
    Block(Seq<StatementModel>),
}

impl Statement {
    pub open spec fn model(self) -> StatementModel
        decreases self,
    {
        match self {
            Statement::Let(a0) => StatementModel::Let(a0.model()),
            Statement::Assignment(a0) => StatementModel::Assignment(a0.model()),
            Statement::If(a0) => StatementModel::If(a0.model()),
            Statement::Match(a0) => StatementModel::Match(a0.model()),
            Statement::Loop(a0) => StatementModel::Loop(a0.model()),
            Statement::While(a0) => StatementModel::While(a0.model()),
            Statement::For(a0) => StatementModel::For(a0.model()),
            Statement::Return(a0) => StatementModel::Return(match a0 { Some(x) => Some(x.model()), None => None }),
            Statement::Break(a0) => StatementModel::Break(match a0 { Some(x) => Some(x.model()), None => None }),
            Statement::Continue => StatementModel::Continue,
            Statement::SuperCall(a0) => StatementModel::SuperCall(expressions_model(a0@)),
            Statement::Expression(a0) => StatementModel::Expression(a0.model()),
            Statement::Block(a0) => StatementModel::Block(statements_model(a0@)),
        }
    }
}

pub struct LetDeclModel {
    pub pattern: PatternModel,
    pub type_: Option<TypeRefModel>,
    pub value: ExpressionModel,
}

impl LetDecl {
    pub open spec fn model(self) -> LetDeclModel
        decreases self,
    {
        LetDeclModel { pattern: self.pattern.model(), type_: match self.type_ { Some(x) => Some(x.model()), None => None }, value: self.value.model() }
    }
}

pub struct AssignmentModel {
    pub lvalue: LValueModel,
    pub value: ExpressionModel,
}

impl Assignment {
    pub open spec fn model(self) -> AssignmentModel
        decreases self,
    {
        AssignmentModel { lvalue: self.lvalue.model(), value: self.value.model() }
    }
}

pub enum LValueModel {
    Variable(Seq<char>),
    Field(Box<LValueModel>, Seq<char>),
    Index(Box<LValueModel>, Box<ExpressionModel>),
}

impl LValue {
    pub open spec fn model(self) -> LValueModel
        decreases self,
    {
        match self {
            LValue::Variable(a0) => LValueModel::Variable(a0@),
            LValue::Field(a0, a1) => LValueModel::Field(Box::new((*a0).model()), a1@),
            LValue::Index(a0, a1) => LValueModel::Index(Box::new((*a0).model()), Box::new((*a1).model())),
        }
    }
}

pub enum ExpressionModel {
    Arrow(Box<ExpressionModel>, Box<ExpressionModel>),
    Or(Box<ExpressionModel>, Box<ExpressionModel>),
    And(Box<ExpressionModel>, Box<ExpressionModel>),
    Equal(Box<ExpressionModel>, Box<ExpressionModel>),
    NotEqual(Box<ExpressionModel>, Box<ExpressionModel>),
    Less(Box<ExpressionModel>, Box<ExpressionModel>),
    Greater(Box<ExpressionModel>, Box<ExpressionModel>),
    LessEq(Box<ExpressionModel>, Box<ExpressionModel>),
    GreaterEq(Box<ExpressionModel>, Box<ExpressionModel>),
    Pipe(Box<ExpressionModel>, Box<ExpressionModel>),
    Range(Box<ExpressionModel>, Box<ExpressionModel>),
    Add(Box<ExpressionModel>, Box<ExpressionModel>),
    Sub(Box<ExpressionModel>, Box<ExpressionModel>),
    Mul(Box<ExpressionModel>, Box<ExpressionModel>),
    Div(Box<ExpressionModel>, Box<ExpressionModel>),
    Mod(Box<ExpressionModel>, Box<ExpressionModel>),
    Neg(Box<ExpressionModel>),
    Not(Box<ExpressionModel>),
    Ref(Box<ExpressionModel>),
    MutRef(Box<ExpressionModel>),
    FieldAccess(Box<ExpressionModel>, Seq<char>),
    Call(Box<ExpressionModel>, Seq<ExpressionModel>),
    Index(Box<ExpressionModel>, Box<ExpressionModel>),
    Unwrap(Box<ExpressionModel>),
    ForceUnwrap(Box<ExpressionModel>),
    Literal(LiteralModel),
    Identifier(Seq<char>),
    Self_,
    Super_,
    Block(Seq<StatementModel>),
    If(IfExprModel),
    Match(MatchExprModel),
    Loop(LoopExprModel),
    While(WhileExprModel),
    For(ForExprModel),
    Lambda { params: Seq<ParamModel>, return_type: Option<TypeRefModel>, body: Seq<StatementModel> },
    Paren(Box<ExpressionModel>),
    Array(Seq<ExpressionModel>),
}

impl Expression {
    pub open spec fn model(self) -> ExpressionModel
        decreases self,
    {
        match self {
            Expression::Arrow(a0, a1) => ExpressionModel::Arrow(Box::new((*a0).model()), Box::new((*a1).model())),
            Expression::Or(a0, a1) => ExpressionModel::Or(Box::new((*a0).model()), Box::new((*a1).model())),
            Expression::And(a0, a1) => ExpressionModel::And(Box::new((*a0).model()), Box::new((*a1).model())),
            Expression::Equal(a0, a1) => ExpressionModel::Equal(Box::new((*a0).model()), Box::new((*a1).model())),
            Expression::NotEqual(a0, a1) => ExpressionModel::NotEqual(Box::new((*a0).model()), Box::new((*a1).model())),
            Expression::Less(a0, a1) => ExpressionModel::Less(Box::new((*a0).model()), Box::new((*a1).model())),
            Expression::Greater(a0, a1) => ExpressionModel::Greater(Box::new((*a0).model()), Box::new((*a1).model())),
            Expression::LessEq(a0, a1) => ExpressionModel::LessEq(Box::new((*a0).model()), Box::new((*a1).model())),
            Expression::GreaterEq(a0, a1) => ExpressionModel::GreaterEq(Box::new((*a0).model()), Box::new((*a1).model())),
            Expression::Pipe(a0, a1) => ExpressionModel::Pipe(Box::new((*a0).model()), Box::new((*a1).model())),
            Expression::Range(a0, a1) => ExpressionModel::Range(Box::new((*a0).model()), Box::new((*a1).model())),
            Expression::Add(a0, a1) => ExpressionModel::Add(Box::new((*a0).model()), Box::new((*a1).model())),
            Expression::Sub(a0, a1) => ExpressionModel::Sub(Box::new((*a0).model()), Box::new((*a1).model())),
            Expression::Mul(a0, a1) => ExpressionModel::Mul(Box::new((*a0).model()), Box::new((*a1).model())),
            Expression::Div(a0, a1) => ExpressionModel::Div(Box::new((*a0).model()), Box::new((*a1).model())),
            Expression::Mod(a0, a1) => ExpressionModel::Mod(Box::new((*a0).model()), Box::new((*a1).model())),
            Expression::Neg(a0) => ExpressionModel::Neg(Box::new((*a0).model())),
            Expression::Not(a0) => ExpressionModel::Not(Box::new((*a0).model())),
            Expression::Ref(a0) => ExpressionModel::Ref(Box::new((*a0).model())),
            Expression::MutRef(a0) => ExpressionModel::MutRef(Box::new((*a0).model())),
            Expression::FieldAccess(a0, a1) => ExpressionModel::FieldAccess(Box::new((*a0).model()), a1@),
            Expression::Call(a0, a1) => ExpressionModel::Call(Box::new((*a0).model()), expressions_model(a1@)),
            Expression::Index(a0, a1) => ExpressionModel::Index(Box::new((*a0).model()), Box::new((*a1).model())),
            Expression::Unwrap(a0) => ExpressionModel::Unwrap(Box::new((*a0).model())),
            Expression::ForceUnwrap(a0) => ExpressionModel::ForceUnwrap(Box::new((*a0).model())),
            Expression::Literal(a0) => ExpressionModel::Literal(a0.model()),
            Expression::Identifier(a0) => ExpressionModel::Identifier(a0@),
            Expression::Self_ => ExpressionModel::Self_,
            Expression::Super_ => ExpressionModel::Super_,
            Expression::Block(a0) => ExpressionModel::Block(statements_model(a0@)),
            Expression::If(a0) => ExpressionModel::If(a0.model()),
            Expression::Match(a0) => ExpressionModel::Match(a0.model()),
            Expression::Loop(a0) => ExpressionModel::Loop(a0.model()),
            Expression::While(a0) => ExpressionModel::While(a0.model()),
            Expression::For(a0) => ExpressionModel::For(a0.model()),
            Expression::Lambda { params, return_type, body } => ExpressionModel::Lambda { params: params_model(params@), return_type: match return_type { Some(x) => Some(x.model()), None => None }, body: statements_model(body@) },
            Expression::Paren(a0) => ExpressionModel::Paren(Box::new((*a0).model())),
            Expression::Array(a0) => ExpressionModel::Array(expressions_model(a0@)),
        }
    }
}

pub struct IfExprModel {
    pub condition: Box<ExpressionModel>,
    pub then_block: Seq<StatementModel>,
    pub else_branch: Option<Box<ElseBranchModel>>,
}

impl IfExpr {
    pub open spec fn model(self) -> IfExprModel
        decreases self,
    {
        IfExprModel { condition: Box::new((*self.condition).model()), then_block: statements_model(self.then_block@), else_branch: match self.else_branch { Some(x) => Some(Box::new((*x).model())), None => None } }
    }
}

pub enum ElseBranchModel {
    If(IfExprModel),
    Block(Seq<StatementModel>),
}

impl ElseBranch {
    pub open spec fn model(self) -> ElseBranchModel
        decreases self,
    {
        match self {
            ElseBranch::If(a0) => ElseBranchModel::If(a0.model()),
            ElseBranch::Block(a0) => ElseBranchModel::Block(statements_model(a0@)),
        }
    }
}

pub struct MatchExprModel {
    pub value: Box<ExpressionModel>,
    pub arms: Seq<MatchArmModel>,
}

impl MatchExpr {
    pub open spec fn model(self) -> MatchExprModel
        decreases self,
    {
        MatchExprModel { value: Box::new((*self.value).model()), arms: match_arms_model(self.arms@) }
    }
}

pub struct MatchArmModel {
    pub pattern: PatternModel,
    pub guard: Option<Box<ExpressionModel>>,
    pub value: Box<ExpressionModel>,
}

impl MatchArm {
    pub open spec fn model(self) -> MatchArmModel
        decreases self,
    {
        MatchArmModel { pattern: self.pattern.model(), guard: match self.guard { Some(x) => Some(Box::new((*x).model())), None => None }, value: Box::new((*self.value).model()) }
    }
}

pub struct LoopExprModel {
    pub body: Seq<StatementModel>,
}

impl LoopExpr {
    pub open spec fn model(self) -> LoopExprModel
        decreases self,
    {
        LoopExprModel { body: statements_model(self.body@) }
    }
}

pub struct WhileExprModel {
    pub condition: Box<ExpressionModel>,
    pub body: Seq<StatementModel>,
}

impl WhileExpr {
    pub open spec fn model(self) -> WhileExprModel
        decreases self,
    {
        WhileExprModel { condition: Box::new((*self.condition).model()), body: statements_model(self.body@) }
    }
}

pub struct ForExprModel {
    pub pattern: PatternModel,
    pub iterable: Box<ExpressionModel>,
    pub body: Seq<StatementModel>,
}

impl ForExpr {
    pub open spec fn model(self) -> ForExprModel
        decreases self,
    {
        ForExprModel { pattern: self.pattern.model(), iterable: Box::new((*self.iterable).model()), body: statements_model(self.body@) }
    }
}

pub open spec fn class_members_model(s: Seq<ClassMember>) -> Seq<ClassMemberModel>
    decreases s,
{
    if s.len() == 0 {
        Seq::empty()
    } else {
        class_members_model(s.drop_last()).push(s.last().model())
    }
}

pub proof fn lemma_class_members_model_push(s: Seq<ClassMember>, x: ClassMember)
    ensures
        class_members_model(s.push(x)) == class_members_model(s).push(x.model()),
{
    assert(s.push(x).drop_last() =~= s);
}

pub open spec fn expressions_model(s: Seq<Expression>) -> Seq<ExpressionModel>
    decreases s,
{
    if s.len() == 0 {
        Seq::empty()
    } else {
        expressions_model(s.drop_last()).push(s.last().model())
    }
}

pub proof fn lemma_expressions_model_push(s: Seq<Expression>, x: Expression)
    ensures
        expressions_model(s.push(x)) == expressions_model(s).push(x.model()),
{
    assert(s.push(x).drop_last() =~= s);
}

pub open spec fn fields_model(s: Seq<Field>) -> Seq<FieldModel>
    decreases s,
{
    if s.len() == 0 {
        Seq::empty()
    } else {
        fields_model(s.drop_last()).push(s.last().model())
    }
}

pub proof fn lemma_fields_model_push(s: Seq<Field>, x: Field)
    ensures
        fields_model(s.push(x)) == fields_model(s).push(x.model()),
{
    assert(s.push(x).drop_last() =~= s);
}

pub open spec fn import_directives_model(s: Seq<ImportDirective>) -> Seq<ImportDirectiveModel>
    decreases s,
{
    if s.len() == 0 {
        Seq::empty()
    } else {
        import_directives_model(s.drop_last()).push(s.last().model())
    }
}

pub proof fn lemma_import_directives_model_push(s: Seq<ImportDirective>, x: ImportDirective)
    ensures
        import_directives_model(s.push(x)) == import_directives_model(s).push(x.model()),
{
    assert(s.push(x).drop_last() =~= s);
}

pub open spec fn match_arms_model(s: Seq<MatchArm>) -> Seq<MatchArmModel>
    decreases s,
{
    if s.len() == 0 {
        Seq::empty()
    } else {
        match_arms_model(s.drop_last()).push(s.last().model())
    }
}

pub proof fn lemma_match_arms_model_push(s: Seq<MatchArm>, x: MatchArm)
    ensures
        match_arms_model(s.push(x)) == match_arms_model(s).push(x.model()),
{
    assert(s.push(x).drop_last() =~= s);
}

pub open spec fn params_model(s: Seq<Param>) -> Seq<ParamModel>
    decreases s,
{
    if s.len() == 0 {
        Seq::empty()
    } else {
        params_model(s.drop_last()).push(s.last().model())
    }
}

pub proof fn lemma_params_model_push(s: Seq<Param>, x: Param)
    ensures
        params_model(s.push(x)) == params_model(s).push(x.model()),
{
    assert(s.push(x).drop_last() =~= s);
}

pub open spec fn statements_model(s: Seq<Statement>) -> Seq<StatementModel>
    decreases s,
{
    if s.len() == 0 {
        Seq::empty()
    } else {
        statements_model(s.drop_last()).push(s.last().model())
    }
}

pub proof fn lemma_statements_model_push(s: Seq<Statement>, x: Statement)
    ensures
        statements_model(s.push(x)) == statements_model(s).push(x.model()),
{
    assert(s.push(x).drop_last() =~= s);
}

pub open spec fn top_level_decls_model(s: Seq<TopLevelDecl>) -> Seq<TopLevelDeclModel>
    decreases s,
{
    if s.len() == 0 {
        Seq::empty()
    } else {
        top_level_decls_model(s.drop_last()).push(s.last().model())
    }
}

pub proof fn lemma_top_level_decls_model_push(s: Seq<TopLevelDecl>, x: TopLevelDecl)
    ensures
        top_level_decls_model(s.push(x)) == top_level_decls_model(s).push(x.model()),
{
    assert(s.push(x).drop_last() =~= s);
}

pub open spec fn trait_members_model(s: Seq<TraitMember>) -> Seq<TraitMemberModel>
    decreases s,
{
    if s.len() == 0 {
        Seq::empty()
    } else {
        trait_members_model(s.drop_last()).push(s.last().model())
    }
}

pub proof fn lemma_trait_members_model_push(s: Seq<TraitMember>, x: TraitMember)
    ensures
        trait_members_model(s.push(x)) == trait_members_model(s).push(x.model()),
{
    assert(s.push(x).drop_last() =~= s);
}

pub open spec fn variants_model(s: Seq<Variant>) -> Seq<VariantModel>
    decreases s,
{
    if s.len() == 0 {
        Seq::empty()
    } else {
        variants_model(s.drop_last()).push(s.last().model())
    }
}

pub proof fn lemma_variants_model_push(s: Seq<Variant>, x: Variant)
    ensures
        variants_model(s.push(x)) == variants_model(s).push(x.model()),
{
    assert(s.push(x).drop_last() =~= s);
}

} // verus!
