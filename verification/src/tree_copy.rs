//! Copies of syntax trees that keep their whole picture.

use vstd::prelude::*;
use crate::ast::{Assignment, BlockOrSemi, ElseBranch, Expression, FnDecl, FnModifier, FnSignature, ForExpr, IfExpr, LValue, LetDecl, Literal, LoopExpr, MatchArm, MatchExpr, Param, Pattern, PropSignature, Statement, TraitDecl, TraitMember, TraitRef, Tree, TypeParam, TypeParams, TypeRef, WhileExpr, bool_tree, trees_expression, trees_match_arm, trees_param, trees_pattern, trees_statement, trees_trait_member, trees_trait_ref, trees_type_param, trees_type_ref};

verus! {

impl TypeParams {
    /// A copy of the whole tree.
    pub fn deep_clone(&self) -> (r: Self)
        ensures
            r.tree() == self.tree(),
        decreases self,
    {
        let c0 = clone_type_params((&self.params));
        proof { lemma_copy_type_params(c0, self.params); }
        TypeParams { params: c0 }
    }
}

impl TypeParam {
    /// A copy of the whole tree.
    pub fn deep_clone(&self) -> (r: Self)
        ensures
            r.tree() == self.tree(),
        decreases self,
    {
        let c0 = (&self.name).clone();
        let c1 = match (&self.constraints) { Some(x) => Some(clone_trait_refs(x)), None => None };
        proof { lemma_copy_type_param(c0, self.name, c1, self.constraints); }
        TypeParam { name: c0, constraints: c1 }
    }
}

impl TypeRef {
    /// A copy of the whole tree.
    pub fn deep_clone(&self) -> (r: Self)
        ensures
            r.tree() == self.tree(),
        decreases self,
    {
        match self {
            TypeRef::Named { name, args } => {
                let c0 = name.clone();
                let c1 = clone_type_refs(args);
                proof { lemma_copy_type_ref_named(c0, *name, c1, *args); }
                TypeRef::Named { name: c0, args: c1 }
            },
            TypeRef::Ref(a0) => {
                let c0 = Box::new((&**a0).deep_clone());
                proof { lemma_copy_type_ref_ref(c0, *a0); }
                TypeRef::Ref(c0)
            },
            TypeRef::Mut(a0) => {
                let c0 = Box::new((&**a0).deep_clone());
                proof { lemma_copy_type_ref_mut(c0, *a0); }
                TypeRef::Mut(c0)
            },
            TypeRef::Array(a0) => {
                let c0 = Box::new((&**a0).deep_clone());
                proof { lemma_copy_type_ref_array(c0, *a0); }
                TypeRef::Array(c0)
            },
            TypeRef::Tuple(a0) => {
                let c0 = clone_type_refs(a0);
                proof { lemma_copy_type_ref_tuple(c0, *a0); }
                TypeRef::Tuple(c0)
            },
            TypeRef::Function { param_types, return_type } => {
                let c0 = clone_type_refs(param_types);
                let c1 = Box::new((&**return_type).deep_clone());
                proof { lemma_copy_type_ref_function(c0, *param_types, c1, *return_type); }
                TypeRef::Function { param_types: c0, return_type: c1 }
            },
            TypeRef::Self_ => TypeRef::Self_,
        }
    }
}

impl TraitRef {
    /// A copy of the whole tree.
    pub fn deep_clone(&self) -> (r: Self)
        ensures
            r.tree() == self.tree(),
        decreases self,
    {
        let c0 = (&self.name).clone();
        let c1 = clone_type_refs((&self.args));
        proof { lemma_copy_trait_ref(c0, self.name, c1, self.args); }
        TraitRef { name: c0, args: c1 }
    }
}

impl FnDecl {
    /// A copy of the whole tree.
    pub fn deep_clone(&self) -> (r: Self)
        ensures
            r.tree() == self.tree(),
        decreases self,
    {
        let c0 = *(&self.static_);
        let c1 = match (&self.modifier) { Some(x) => Some(x.deep_clone()), None => None };
        let c2 = (&self.name).clone();
        let c3 = (&self.params).deep_clone();
        let c4 = clone_params((&self.parameters));
        let c5 = match (&self.return_type) { Some(x) => Some(x.deep_clone()), None => None };
        let c6 = (&self.body).deep_clone();
        proof { lemma_copy_fn_decl(c0, self.static_, c1, self.modifier, c2, self.name, c3, self.params, c4, self.parameters, c5, self.return_type, c6, self.body); }
        FnDecl { static_: c0, modifier: c1, name: c2, params: c3, parameters: c4, return_type: c5, body: c6 }
    }
}

impl FnModifier {
    /// A copy of the whole tree.
    pub fn deep_clone(&self) -> (r: Self)
        ensures
            r.tree() == self.tree(),
        decreases self,
    {
        match self {
            FnModifier::Virtual => FnModifier::Virtual,
            FnModifier::Override => FnModifier::Override,
            FnModifier::Abstract => FnModifier::Abstract,
        }
    }
}

impl BlockOrSemi {
    /// A copy of the whole tree.
    pub fn deep_clone(&self) -> (r: Self)
        ensures
            r.tree() == self.tree(),
        decreases self,
    {
        match self {
            BlockOrSemi::Block(a0) => {
                let c0 = clone_statements(a0);
                proof { lemma_copy_block_or_semi_block(c0, *a0); }
                BlockOrSemi::Block(c0)
            },
            BlockOrSemi::Semi => BlockOrSemi::Semi,
        }
    }
}

impl Param {
    /// A copy of the whole tree.
    pub fn deep_clone(&self) -> (r: Self)
        ensures
            r.tree() == self.tree(),
        decreases self,
    {
        let c0 = *(&self.mutable);
        let c1 = (&self.name).clone();
        let c2 = (&self.type_).deep_clone();
        let c3 = match (&self.default) { Some(x) => Some(x.deep_clone()), None => None };
        proof { lemma_copy_param(c0, self.mutable, c1, self.name, c2, self.type_, c3, self.default); }
        Param { mutable: c0, name: c1, type_: c2, default: c3 }
    }
}

impl TraitDecl {
    /// A copy of the whole tree.
    pub fn deep_clone(&self) -> (r: Self)
        ensures
            r.tree() == self.tree(),
        decreases self,
    {
        let c0 = (&self.name).clone();
        let c1 = (&self.params).deep_clone();
        let c2 = clone_trait_members((&self.members));
        proof { lemma_copy_trait_decl(c0, self.name, c1, self.params, c2, self.members); }
        TraitDecl { name: c0, params: c1, members: c2 }
    }
}

impl TraitMember {
    /// A copy of the whole tree.
    pub fn deep_clone(&self) -> (r: Self)
        ensures
            r.tree() == self.tree(),
        decreases self,
    {
        match self {
            TraitMember::Fn(a0) => {
                let c0 = a0.deep_clone();
                proof { lemma_copy_trait_member_fn(c0, *a0); }
                TraitMember::Fn(c0)
            },
            TraitMember::Prop(a0) => {
                let c0 = a0.deep_clone();
                proof { lemma_copy_trait_member_prop(c0, *a0); }
                TraitMember::Prop(c0)
            },
        }
    }
}

impl FnSignature {
    /// A copy of the whole tree.
    pub fn deep_clone(&self) -> (r: Self)
        ensures
            r.tree() == self.tree(),
        decreases self,
    {
        let c0 = (&self.name).clone();
        let c1 = clone_params((&self.params));
        let c2 = match (&self.return_type) { Some(x) => Some(x.deep_clone()), None => None };
        proof { lemma_copy_fn_signature(c0, self.name, c1, self.params, c2, self.return_type); }
        FnSignature { name: c0, params: c1, return_type: c2 }
    }
}

impl PropSignature {
    /// A copy of the whole tree.
    pub fn deep_clone(&self) -> (r: Self)
        ensures
            r.tree() == self.tree(),
        decreases self,
    {
        let c0 = (&self.name).clone();
        let c1 = (&self.type_).deep_clone();
        proof { lemma_copy_prop_signature(c0, self.name, c1, self.type_); }
        PropSignature { name: c0, type_: c1 }
    }
}

impl Statement {
    /// A copy of the whole tree.
    pub fn deep_clone(&self) -> (r: Self)
        ensures
            r.tree() == self.tree(),
        decreases self,
    {
        match self {
            Statement::Let(a0) => {
                let c0 = a0.deep_clone();
                proof { lemma_copy_statement_let(c0, *a0); }
                Statement::Let(c0)
            },
            Statement::Assignment(a0) => {
                let c0 = a0.deep_clone();
                proof { lemma_copy_statement_assignment(c0, *a0); }
                Statement::Assignment(c0)
            },
            Statement::If(a0) => {
                let c0 = a0.deep_clone();
                proof { lemma_copy_statement_if(c0, *a0); }
                Statement::If(c0)
            },
            Statement::Match(a0) => {
                let c0 = a0.deep_clone();
                proof { lemma_copy_statement_match(c0, *a0); }
                Statement::Match(c0)
            },
            Statement::Loop(a0) => {
                let c0 = a0.deep_clone();
                proof { lemma_copy_statement_loop(c0, *a0); }
                Statement::Loop(c0)
            },
            Statement::While(a0) => {
                let c0 = a0.deep_clone();
                proof { lemma_copy_statement_while(c0, *a0); }
                Statement::While(c0)
            },
            Statement::For(a0) => {
                let c0 = a0.deep_clone();
                proof { lemma_copy_statement_for(c0, *a0); }
                Statement::For(c0)
            },
            Statement::Return(a0) => {
                let c0 = match a0 { Some(x) => Some(x.deep_clone()), None => None };
                proof { lemma_copy_statement_return(c0, *a0); }
                Statement::Return(c0)
            },
            Statement::Break(a0) => {
                let c0 = match a0 { Some(x) => Some(x.deep_clone()), None => None };
                proof { lemma_copy_statement_break(c0, *a0); }
                Statement::Break(c0)
            },
            Statement::Continue => Statement::Continue,
            Statement::SuperCall(a0) => {
                let c0 = clone_expressions(a0);
                proof { lemma_copy_statement_super_call(c0, *a0); }
                Statement::SuperCall(c0)
            },
            Statement::Expression(a0) => {
                let c0 = a0.deep_clone();
                proof { lemma_copy_statement_expression(c0, *a0); }
                Statement::Expression(c0)
            },
            Statement::Block(a0) => {
                let c0 = clone_statements(a0);
                proof { lemma_copy_statement_block(c0, *a0); }
                Statement::Block(c0)
            },
        }
    }
}

impl LetDecl {
    /// A copy of the whole tree.
    pub fn deep_clone(&self) -> (r: Self)
        ensures
            r.tree() == self.tree(),
        decreases self,
    {
        let c0 = (&self.pattern).deep_clone();
        let c1 = match (&self.type_) { Some(x) => Some(x.deep_clone()), None => None };
        let c2 = (&self.value).deep_clone();
        proof { lemma_copy_let_decl(c0, self.pattern, c1, self.type_, c2, self.value); }
        LetDecl { pattern: c0, type_: c1, value: c2 }
    }
}

impl Assignment {
    /// A copy of the whole tree.
    pub fn deep_clone(&self) -> (r: Self)
        ensures
            r.tree() == self.tree(),
        decreases self,
    {
        let c0 = (&self.lvalue).deep_clone();
        let c1 = (&self.value).deep_clone();
        proof { lemma_copy_assignment(c0, self.lvalue, c1, self.value); }
        Assignment { lvalue: c0, value: c1 }
    }
}

impl LValue {
    /// A copy of the whole tree.
    pub fn deep_clone(&self) -> (r: Self)
        ensures
            r.tree() == self.tree(),
        decreases self,
    {
        match self {
            LValue::Variable(a0) => {
                let c0 = a0.clone();
                proof { lemma_copy_l_value_variable(c0, *a0); }
                LValue::Variable(c0)
            },
            LValue::Field(a0, a1) => {
                let c0 = Box::new((&**a0).deep_clone());
                let c1 = a1.clone();
                proof { lemma_copy_l_value_field(c0, *a0, c1, *a1); }
                LValue::Field(c0, c1)
            },
            LValue::Index(a0, a1) => {
                let c0 = Box::new((&**a0).deep_clone());
                let c1 = Box::new((&**a1).deep_clone());
                proof { lemma_copy_l_value_index(c0, *a0, c1, *a1); }
                LValue::Index(c0, c1)
            },
        }
    }
}

impl Expression {
    /// A copy of the whole tree.
    pub fn deep_clone(&self) -> (r: Self)
        ensures
            r.tree() == self.tree(),
        decreases self,
    {
        match self {
            Expression::Arrow(a0, a1) => {
                let c0 = Box::new((&**a0).deep_clone());
                let c1 = Box::new((&**a1).deep_clone());
                proof { lemma_copy_expression_arrow(c0, *a0, c1, *a1); }
                Expression::Arrow(c0, c1)
            },
            Expression::Or(a0, a1) => {
                let c0 = Box::new((&**a0).deep_clone());
                let c1 = Box::new((&**a1).deep_clone());
                proof { lemma_copy_expression_or(c0, *a0, c1, *a1); }
                Expression::Or(c0, c1)
            },
            Expression::And(a0, a1) => {
                let c0 = Box::new((&**a0).deep_clone());
                let c1 = Box::new((&**a1).deep_clone());
                proof { lemma_copy_expression_and(c0, *a0, c1, *a1); }
                Expression::And(c0, c1)
            },
            Expression::Equal(a0, a1) => {
                let c0 = Box::new((&**a0).deep_clone());
                let c1 = Box::new((&**a1).deep_clone());
                proof { lemma_copy_expression_equal(c0, *a0, c1, *a1); }
                Expression::Equal(c0, c1)
            },
            Expression::NotEqual(a0, a1) => {
                let c0 = Box::new((&**a0).deep_clone());
                let c1 = Box::new((&**a1).deep_clone());
                proof { lemma_copy_expression_not_equal(c0, *a0, c1, *a1); }
                Expression::NotEqual(c0, c1)
            },
            Expression::Less(a0, a1) => {
                let c0 = Box::new((&**a0).deep_clone());
                let c1 = Box::new((&**a1).deep_clone());
                proof { lemma_copy_expression_less(c0, *a0, c1, *a1); }
                Expression::Less(c0, c1)
            },
            Expression::Greater(a0, a1) => {
                let c0 = Box::new((&**a0).deep_clone());
                let c1 = Box::new((&**a1).deep_clone());
                proof { lemma_copy_expression_greater(c0, *a0, c1, *a1); }
                Expression::Greater(c0, c1)
            },
            Expression::LessEq(a0, a1) => {
                let c0 = Box::new((&**a0).deep_clone());
                let c1 = Box::new((&**a1).deep_clone());
                proof { lemma_copy_expression_less_eq(c0, *a0, c1, *a1); }
                Expression::LessEq(c0, c1)
            },
            Expression::GreaterEq(a0, a1) => {
                let c0 = Box::new((&**a0).deep_clone());
                let c1 = Box::new((&**a1).deep_clone());
                proof { lemma_copy_expression_greater_eq(c0, *a0, c1, *a1); }
                Expression::GreaterEq(c0, c1)
            },
            Expression::Pipe(a0, a1) => {
                let c0 = Box::new((&**a0).deep_clone());
                let c1 = Box::new((&**a1).deep_clone());
                proof { lemma_copy_expression_pipe(c0, *a0, c1, *a1); }
                Expression::Pipe(c0, c1)
            },
            Expression::Range(a0, a1) => {
                let c0 = Box::new((&**a0).deep_clone());
                let c1 = Box::new((&**a1).deep_clone());
                proof { lemma_copy_expression_range(c0, *a0, c1, *a1); }
                Expression::Range(c0, c1)
            },
            Expression::Add(a0, a1) => {
                let c0 = Box::new((&**a0).deep_clone());
                let c1 = Box::new((&**a1).deep_clone());
                proof { lemma_copy_expression_add(c0, *a0, c1, *a1); }
                Expression::Add(c0, c1)
            },
            Expression::Sub(a0, a1) => {
                let c0 = Box::new((&**a0).deep_clone());
                let c1 = Box::new((&**a1).deep_clone());
                proof { lemma_copy_expression_sub(c0, *a0, c1, *a1); }
                Expression::Sub(c0, c1)
            },
            Expression::Mul(a0, a1) => {
                let c0 = Box::new((&**a0).deep_clone());
                let c1 = Box::new((&**a1).deep_clone());
                proof { lemma_copy_expression_mul(c0, *a0, c1, *a1); }
                Expression::Mul(c0, c1)
            },
            Expression::Div(a0, a1) => {
                let c0 = Box::new((&**a0).deep_clone());
                let c1 = Box::new((&**a1).deep_clone());
                proof { lemma_copy_expression_div(c0, *a0, c1, *a1); }
                Expression::Div(c0, c1)
            },
            Expression::Mod(a0, a1) => {
                let c0 = Box::new((&**a0).deep_clone());
                let c1 = Box::new((&**a1).deep_clone());
                proof { lemma_copy_expression_mod(c0, *a0, c1, *a1); }
                Expression::Mod(c0, c1)
            },
            Expression::Neg(a0) => {
                let c0 = Box::new((&**a0).deep_clone());
                proof { lemma_copy_expression_neg(c0, *a0); }
                Expression::Neg(c0)
            },
            Expression::Not(a0) => {
                let c0 = Box::new((&**a0).deep_clone());
                proof { lemma_copy_expression_not(c0, *a0); }
                Expression::Not(c0)
            },
            Expression::Ref(a0) => {
                let c0 = Box::new((&**a0).deep_clone());
                proof { lemma_copy_expression_ref(c0, *a0); }
                Expression::Ref(c0)
            },
            Expression::MutRef(a0) => {
                let c0 = Box::new((&**a0).deep_clone());
                proof { lemma_copy_expression_mut_ref(c0, *a0); }
                Expression::MutRef(c0)
            },
            Expression::FieldAccess(a0, a1) => {
                let c0 = Box::new((&**a0).deep_clone());
                let c1 = a1.clone();
                proof { lemma_copy_expression_field_access(c0, *a0, c1, *a1); }
                Expression::FieldAccess(c0, c1)
            },
            Expression::Call(a0, a1) => {
                let c0 = Box::new((&**a0).deep_clone());
                let c1 = clone_expressions(a1);
                proof { lemma_copy_expression_call(c0, *a0, c1, *a1); }
                Expression::Call(c0, c1)
            },
            Expression::Index(a0, a1) => {
                let c0 = Box::new((&**a0).deep_clone());
                let c1 = Box::new((&**a1).deep_clone());
                proof { lemma_copy_expression_index(c0, *a0, c1, *a1); }
                Expression::Index(c0, c1)
            },
            Expression::Unwrap(a0) => {
                let c0 = Box::new((&**a0).deep_clone());
                proof { lemma_copy_expression_unwrap(c0, *a0); }
                Expression::Unwrap(c0)
            },
            Expression::ForceUnwrap(a0) => {
                let c0 = Box::new((&**a0).deep_clone());
                proof { lemma_copy_expression_force_unwrap(c0, *a0); }
                Expression::ForceUnwrap(c0)
            },
            Expression::Literal(a0) => {
                let c0 = a0.deep_clone();
                proof { lemma_copy_expression_literal(c0, *a0); }
                Expression::Literal(c0)
            },
            Expression::Identifier(a0) => {
                let c0 = a0.clone();
                proof { lemma_copy_expression_identifier(c0, *a0); }
                Expression::Identifier(c0)
            },
            Expression::Self_ => Expression::Self_,
            Expression::Super_ => Expression::Super_,
            Expression::Block(a0) => {
                let c0 = clone_statements(a0);
                proof { lemma_copy_expression_block(c0, *a0); }
                Expression::Block(c0)
            },
            Expression::If(a0) => {
                let c0 = a0.deep_clone();
                proof { lemma_copy_expression_if(c0, *a0); }
                Expression::If(c0)
            },
            Expression::Match(a0) => {
                let c0 = a0.deep_clone();
                proof { lemma_copy_expression_match(c0, *a0); }
                Expression::Match(c0)
            },
            Expression::Loop(a0) => {
                let c0 = a0.deep_clone();
                proof { lemma_copy_expression_loop(c0, *a0); }
                Expression::Loop(c0)
            },
            Expression::While(a0) => {
                let c0 = a0.deep_clone();
                proof { lemma_copy_expression_while(c0, *a0); }
                Expression::While(c0)
            },
            Expression::For(a0) => {
                let c0 = a0.deep_clone();
                proof { lemma_copy_expression_for(c0, *a0); }
                Expression::For(c0)
            },
            Expression::Lambda { params, return_type, body } => {
                let c0 = clone_params(params);
                let c1 = match return_type { Some(x) => Some(x.deep_clone()), None => None };
                let c2 = clone_statements(body);
                proof { lemma_copy_expression_lambda(c0, *params, c1, *return_type, c2, *body); }
                Expression::Lambda { params: c0, return_type: c1, body: c2 }
            },
            Expression::Paren(a0) => {
                let c0 = Box::new((&**a0).deep_clone());
                proof { lemma_copy_expression_paren(c0, *a0); }
                Expression::Paren(c0)
            },
            Expression::Array(a0) => {
                let c0 = clone_expressions(a0);
                proof { lemma_copy_expression_array(c0, *a0); }
                Expression::Array(c0)
            },
        }
    }
}

impl IfExpr {
    /// A copy of the whole tree.
    pub fn deep_clone(&self) -> (r: Self)
        ensures
            r.tree() == self.tree(),
        decreases self,
    {
        let c0 = Box::new((&**(&self.condition)).deep_clone());
        let c1 = clone_statements((&self.then_block));
        let c2 = match (&self.else_branch) { Some(x) => Some(Box::new((&**x).deep_clone())), None => None };
        proof { lemma_copy_if_expr(c0, self.condition, c1, self.then_block, c2, self.else_branch); }
        IfExpr { condition: c0, then_block: c1, else_branch: c2 }
    }
}

impl ElseBranch {
    /// A copy of the whole tree.
    pub fn deep_clone(&self) -> (r: Self)
        ensures
            r.tree() == self.tree(),
        decreases self,
    {
        match self {
            ElseBranch::If(a0) => {
                let c0 = a0.deep_clone();
                proof { lemma_copy_else_branch_if(c0, *a0); }
                ElseBranch::If(c0)
            },
            ElseBranch::Block(a0) => {
                let c0 = clone_statements(a0);
                proof { lemma_copy_else_branch_block(c0, *a0); }
                ElseBranch::Block(c0)
            },
        }
    }
}

impl MatchExpr {
    /// A copy of the whole tree.
    pub fn deep_clone(&self) -> (r: Self)
        ensures
            r.tree() == self.tree(),
        decreases self,
    {
        let c0 = Box::new((&**(&self.value)).deep_clone());
        let c1 = clone_match_arms((&self.arms));
        proof { lemma_copy_match_expr(c0, self.value, c1, self.arms); }
        MatchExpr { value: c0, arms: c1 }
    }
}

impl MatchArm {
    /// A copy of the whole tree.
    pub fn deep_clone(&self) -> (r: Self)
        ensures
            r.tree() == self.tree(),
        decreases self,
    {
        let c0 = (&self.pattern).deep_clone();
        let c1 = match (&self.guard) { Some(x) => Some(Box::new((&**x).deep_clone())), None => None };
        let c2 = Box::new((&**(&self.value)).deep_clone());
        proof { lemma_copy_match_arm(c0, self.pattern, c1, self.guard, c2, self.value); }
        MatchArm { pattern: c0, guard: c1, value: c2 }
    }
}

impl Pattern {
    /// A copy of the whole tree.
    pub fn deep_clone(&self) -> (r: Self)
        ensures
            r.tree() == self.tree(),
        decreases self,
    {
        match self {
            Pattern::Identifier(a0) => {
                let c0 = a0.clone();
                proof { lemma_copy_pattern_identifier(c0, *a0); }
                Pattern::Identifier(c0)
            },
            Pattern::Wildcard => Pattern::Wildcard,
            Pattern::Literal(a0) => {
                let c0 = a0.deep_clone();
                proof { lemma_copy_pattern_literal(c0, *a0); }
                Pattern::Literal(c0)
            },
            Pattern::DestructureVariant { name, patterns } => {
                let c0 = name.clone();
                let c1 = clone_patterns(patterns);
                proof { lemma_copy_pattern_destructure_variant(c0, *name, c1, *patterns); }
                Pattern::DestructureVariant { name: c0, patterns: c1 }
            },
            Pattern::DestructureTuple(a0) => {
                let c0 = clone_patterns(a0);
                proof { lemma_copy_pattern_destructure_tuple(c0, *a0); }
                Pattern::DestructureTuple(c0)
            },
            Pattern::Or(a0, a1) => {
                let c0 = Box::new((&**a0).deep_clone());
                let c1 = Box::new((&**a1).deep_clone());
                proof { lemma_copy_pattern_or(c0, *a0, c1, *a1); }
                Pattern::Or(c0, c1)
            },
        }
    }
}

impl LoopExpr {
    /// A copy of the whole tree.
    pub fn deep_clone(&self) -> (r: Self)
        ensures
            r.tree() == self.tree(),
        decreases self,
    {
        let c0 = clone_statements((&self.body));
        proof { lemma_copy_loop_expr(c0, self.body); }
        LoopExpr { body: c0 }
    }
}

impl WhileExpr {
    /// A copy of the whole tree.
    pub fn deep_clone(&self) -> (r: Self)
        ensures
            r.tree() == self.tree(),
        decreases self,
    {
        let c0 = Box::new((&**(&self.condition)).deep_clone());
        let c1 = clone_statements((&self.body));
        proof { lemma_copy_while_expr(c0, self.condition, c1, self.body); }
        WhileExpr { condition: c0, body: c1 }
    }
}

impl ForExpr {
    /// A copy of the whole tree.
    pub fn deep_clone(&self) -> (r: Self)
        ensures
            r.tree() == self.tree(),
        decreases self,
    {
        let c0 = (&self.pattern).deep_clone();
        let c1 = Box::new((&**(&self.iterable)).deep_clone());
        let c2 = clone_statements((&self.body));
        proof { lemma_copy_for_expr(c0, self.pattern, c1, self.iterable, c2, self.body); }
        ForExpr { pattern: c0, iterable: c1, body: c2 }
    }
}

impl Literal {
    /// A copy of the whole tree.
    pub fn deep_clone(&self) -> (r: Self)
        ensures
            r.tree() == self.tree(),
        decreases self,
    {
        match self {
            Literal::Int(a0) => {
                let c0 = a0.clone();
                proof { lemma_copy_literal_int(c0, *a0); }
                Literal::Int(c0)
            },
            Literal::Float(a0) => {
                let c0 = a0.clone();
                proof { lemma_copy_literal_float(c0, *a0); }
                Literal::Float(c0)
            },
            Literal::String(a0) => {
                let c0 = a0.clone();
                proof { lemma_copy_literal_string(c0, *a0); }
                Literal::String(c0)
            },
            Literal::Char(a0) => {
                let c0 = *a0;
                proof { lemma_copy_literal_char(c0, *a0); }
                Literal::Char(c0)
            },
            Literal::Bool(a0) => {
                let c0 = *a0;
                proof { lemma_copy_literal_bool(c0, *a0); }
                Literal::Bool(c0)
            },
            Literal::Null => Literal::Null,
        }
    }
}

/// A copy of each tree in `v`.
pub fn clone_expressions(v: &Vec<Expression>) -> (r: Vec<Expression>)
    ensures
        trees_expression(r@) == trees_expression(v@),
    decreases v,
{
    let mut r: Vec<Expression> = Vec::new();
    let mut i: usize = 0;
    while i < v.len()
        invariant
            i <= v.len(),
            trees_expression(r@) == trees_expression(v@.take(i as int)),
        decreases v.len() - i,
    {
        assert(decreases_to!(v => v@[i as int]));
        let c = v[i].deep_clone();
        proof {
            assert(v@.take(i + 1) =~= v@.take(i as int).push(v@[i as int]));
            lemma_trees_expression_push(v@.take(i as int), v@[i as int]);
            lemma_trees_expression_push(r@, c);
        }
        r.push(c);
        i = i + 1;
    }
    assert(v@.take(v.len() as int) =~= v@);
    r
}

/// A copy of each tree in `v`.
pub fn clone_match_arms(v: &Vec<MatchArm>) -> (r: Vec<MatchArm>)
    ensures
        trees_match_arm(r@) == trees_match_arm(v@),
    decreases v,
{
    let mut r: Vec<MatchArm> = Vec::new();
    let mut i: usize = 0;
    while i < v.len()
        invariant
            i <= v.len(),
            trees_match_arm(r@) == trees_match_arm(v@.take(i as int)),
        decreases v.len() - i,
    {
        assert(decreases_to!(v => v@[i as int]));
        let c = v[i].deep_clone();
        proof {
            assert(v@.take(i + 1) =~= v@.take(i as int).push(v@[i as int]));
            lemma_trees_match_arm_push(v@.take(i as int), v@[i as int]);
            lemma_trees_match_arm_push(r@, c);
        }
        r.push(c);
        i = i + 1;
    }
    assert(v@.take(v.len() as int) =~= v@);
    r
}

/// A copy of each tree in `v`.
pub fn clone_params(v: &Vec<Param>) -> (r: Vec<Param>)
    ensures
        trees_param(r@) == trees_param(v@),
    decreases v,
{
    let mut r: Vec<Param> = Vec::new();
    let mut i: usize = 0;
    while i < v.len()
        invariant
            i <= v.len(),
            trees_param(r@) == trees_param(v@.take(i as int)),
        decreases v.len() - i,
    {
        assert(decreases_to!(v => v@[i as int]));
        let c = v[i].deep_clone();
        proof {
            assert(v@.take(i + 1) =~= v@.take(i as int).push(v@[i as int]));
            lemma_trees_param_push(v@.take(i as int), v@[i as int]);
            lemma_trees_param_push(r@, c);
        }
        r.push(c);
        i = i + 1;
    }
    assert(v@.take(v.len() as int) =~= v@);
    r
}

/// A copy of each tree in `v`.
pub fn clone_patterns(v: &Vec<Pattern>) -> (r: Vec<Pattern>)
    ensures
        trees_pattern(r@) == trees_pattern(v@),
    decreases v,
{
    let mut r: Vec<Pattern> = Vec::new();
    let mut i: usize = 0;
    while i < v.len()
        invariant
            i <= v.len(),
            trees_pattern(r@) == trees_pattern(v@.take(i as int)),
        decreases v.len() - i,
    {
        assert(decreases_to!(v => v@[i as int]));
        let c = v[i].deep_clone();
        proof {
            assert(v@.take(i + 1) =~= v@.take(i as int).push(v@[i as int]));
            lemma_trees_pattern_push(v@.take(i as int), v@[i as int]);
            lemma_trees_pattern_push(r@, c);
        }
        r.push(c);
        i = i + 1;
    }
    assert(v@.take(v.len() as int) =~= v@);
    r
}

/// A copy of each tree in `v`.
pub fn clone_statements(v: &Vec<Statement>) -> (r: Vec<Statement>)
    ensures
        trees_statement(r@) == trees_statement(v@),
    decreases v,
{
    let mut r: Vec<Statement> = Vec::new();
    let mut i: usize = 0;
    while i < v.len()
        invariant
            i <= v.len(),
            trees_statement(r@) == trees_statement(v@.take(i as int)),
        decreases v.len() - i,
    {
        assert(decreases_to!(v => v@[i as int]));
        let c = v[i].deep_clone();
        proof {
            assert(v@.take(i + 1) =~= v@.take(i as int).push(v@[i as int]));
            lemma_trees_statement_push(v@.take(i as int), v@[i as int]);
            lemma_trees_statement_push(r@, c);
        }
        r.push(c);
        i = i + 1;
    }
    assert(v@.take(v.len() as int) =~= v@);
    r
}

/// A copy of each tree in `v`.
pub fn clone_trait_members(v: &Vec<TraitMember>) -> (r: Vec<TraitMember>)
    ensures
        trees_trait_member(r@) == trees_trait_member(v@),
    decreases v,
{
    let mut r: Vec<TraitMember> = Vec::new();
    let mut i: usize = 0;
    while i < v.len()
        invariant
            i <= v.len(),
            trees_trait_member(r@) == trees_trait_member(v@.take(i as int)),
        decreases v.len() - i,
    {
        assert(decreases_to!(v => v@[i as int]));
        let c = v[i].deep_clone();
        proof {
            assert(v@.take(i + 1) =~= v@.take(i as int).push(v@[i as int]));
            lemma_trees_trait_member_push(v@.take(i as int), v@[i as int]);
            lemma_trees_trait_member_push(r@, c);
        }
        r.push(c);
        i = i + 1;
    }
    assert(v@.take(v.len() as int) =~= v@);
    r
}

/// A copy of each tree in `v`.
pub fn clone_trait_refs(v: &Vec<TraitRef>) -> (r: Vec<TraitRef>)
    ensures
        trees_trait_ref(r@) == trees_trait_ref(v@),
    decreases v,
{
    let mut r: Vec<TraitRef> = Vec::new();
    let mut i: usize = 0;
    while i < v.len()
        invariant
            i <= v.len(),
            trees_trait_ref(r@) == trees_trait_ref(v@.take(i as int)),
        decreases v.len() - i,
    {
        assert(decreases_to!(v => v@[i as int]));
        let c = v[i].deep_clone();
        proof {
            assert(v@.take(i + 1) =~= v@.take(i as int).push(v@[i as int]));
            lemma_trees_trait_ref_push(v@.take(i as int), v@[i as int]);
            lemma_trees_trait_ref_push(r@, c);
        }
        r.push(c);
        i = i + 1;
    }
    assert(v@.take(v.len() as int) =~= v@);
    r
}

/// A copy of each tree in `v`.
pub fn clone_type_params(v: &Vec<TypeParam>) -> (r: Vec<TypeParam>)
    ensures
        trees_type_param(r@) == trees_type_param(v@),
    decreases v,
{
    let mut r: Vec<TypeParam> = Vec::new();
    let mut i: usize = 0;
    while i < v.len()
        invariant
            i <= v.len(),
            trees_type_param(r@) == trees_type_param(v@.take(i as int)),
        decreases v.len() - i,
    {
        assert(decreases_to!(v => v@[i as int]));
        let c = v[i].deep_clone();
        proof {
            assert(v@.take(i + 1) =~= v@.take(i as int).push(v@[i as int]));
            lemma_trees_type_param_push(v@.take(i as int), v@[i as int]);
            lemma_trees_type_param_push(r@, c);
        }
        r.push(c);
        i = i + 1;
    }
    assert(v@.take(v.len() as int) =~= v@);
    r
}

/// A copy of each tree in `v`.
pub fn clone_type_refs(v: &Vec<TypeRef>) -> (r: Vec<TypeRef>)
    ensures
        trees_type_ref(r@) == trees_type_ref(v@),
    decreases v,
{
    let mut r: Vec<TypeRef> = Vec::new();
    let mut i: usize = 0;
    while i < v.len()
        invariant
            i <= v.len(),
            trees_type_ref(r@) == trees_type_ref(v@.take(i as int)),
        decreases v.len() - i,
    {
        assert(decreases_to!(v => v@[i as int]));
        let c = v[i].deep_clone();
        proof {
            assert(v@.take(i + 1) =~= v@.take(i as int).push(v@[i as int]));
            lemma_trees_type_ref_push(v@.take(i as int), v@[i as int]);
            lemma_trees_type_ref_push(r@, c);
        }
        r.push(c);
        i = i + 1;
    }
    assert(v@.take(v.len() as int) =~= v@);
    r
}

proof fn lemma_copy_type_params(a0: Vec<TypeParam>, b0: Vec<TypeParam>)
    requires
        Tree::Node("[]"@, trees_type_param(a0@)) == Tree::Node("[]"@, trees_type_param(b0@)),
    ensures
        (TypeParams { params: a0 }).tree() == (TypeParams { params: b0 }).tree(),
{
    let ta = (TypeParams { params: a0 }).tree();
    let tb = (TypeParams { params: b0 }).tree();
    assert(ta->Node_1 =~= tb->Node_1);
}

proof fn lemma_copy_type_param(a0: String, b0: String, a1: Option<Vec<TraitRef>>, b1: Option<Vec<TraitRef>>)
    requires
        Tree::Leaf(a0@) == Tree::Leaf(b0@),
        a1 is Some <==> b1 is Some,
        a1 is Some ==> Tree::Node("[]"@, trees_trait_ref(a1->0@)) == Tree::Node("[]"@, trees_trait_ref(b1->0@)),
    ensures
        (TypeParam { name: a0, constraints: a1 }).tree() == (TypeParam { name: b0, constraints: b1 }).tree(),
{
    let ta = (TypeParam { name: a0, constraints: a1 }).tree();
    let tb = (TypeParam { name: b0, constraints: b1 }).tree();
    assert(ta->Node_1 =~= tb->Node_1);
}

proof fn lemma_copy_type_ref_named(a0: String, b0: String, a1: Vec<TypeRef>, b1: Vec<TypeRef>)
    requires
        Tree::Leaf(a0@) == Tree::Leaf(b0@),
        Tree::Node("[]"@, trees_type_ref(a1@)) == Tree::Node("[]"@, trees_type_ref(b1@)),
    ensures
        (TypeRef::Named { name: a0, args: a1 }).tree() == (TypeRef::Named { name: b0, args: b1 }).tree(),
{
    let ta = (TypeRef::Named { name: a0, args: a1 }).tree();
    let tb = (TypeRef::Named { name: b0, args: b1 }).tree();
    assert(ta->Node_1 =~= tb->Node_1);
}

proof fn lemma_copy_type_ref_ref(a0: Box<TypeRef>, b0: Box<TypeRef>)
    requires
        (*a0).tree() == (*b0).tree(),
    ensures
        (TypeRef::Ref(a0)).tree() == (TypeRef::Ref(b0)).tree(),
{
    let ta = (TypeRef::Ref(a0)).tree();
    let tb = (TypeRef::Ref(b0)).tree();
    assert(ta->Node_1 =~= tb->Node_1);
}

proof fn lemma_copy_type_ref_mut(a0: Box<TypeRef>, b0: Box<TypeRef>)
    requires
        (*a0).tree() == (*b0).tree(),
    ensures
        (TypeRef::Mut(a0)).tree() == (TypeRef::Mut(b0)).tree(),
{
    let ta = (TypeRef::Mut(a0)).tree();
    let tb = (TypeRef::Mut(b0)).tree();
    assert(ta->Node_1 =~= tb->Node_1);
}

proof fn lemma_copy_type_ref_array(a0: Box<TypeRef>, b0: Box<TypeRef>)
    requires
        (*a0).tree() == (*b0).tree(),
    ensures
        (TypeRef::Array(a0)).tree() == (TypeRef::Array(b0)).tree(),
{
    let ta = (TypeRef::Array(a0)).tree();
    let tb = (TypeRef::Array(b0)).tree();
    assert(ta->Node_1 =~= tb->Node_1);
}

proof fn lemma_copy_type_ref_tuple(a0: Vec<TypeRef>, b0: Vec<TypeRef>)
    requires
        Tree::Node("[]"@, trees_type_ref(a0@)) == Tree::Node("[]"@, trees_type_ref(b0@)),
    ensures
        (TypeRef::Tuple(a0)).tree() == (TypeRef::Tuple(b0)).tree(),
{
    let ta = (TypeRef::Tuple(a0)).tree();
    let tb = (TypeRef::Tuple(b0)).tree();
    assert(ta->Node_1 =~= tb->Node_1);
}

proof fn lemma_copy_type_ref_function(a0: Vec<TypeRef>, b0: Vec<TypeRef>, a1: Box<TypeRef>, b1: Box<TypeRef>)
    requires
        Tree::Node("[]"@, trees_type_ref(a0@)) == Tree::Node("[]"@, trees_type_ref(b0@)),
        (*a1).tree() == (*b1).tree(),
    ensures
        (TypeRef::Function { param_types: a0, return_type: a1 }).tree() == (TypeRef::Function { param_types: b0, return_type: b1 }).tree(),
{
    let ta = (TypeRef::Function { param_types: a0, return_type: a1 }).tree();
    let tb = (TypeRef::Function { param_types: b0, return_type: b1 }).tree();
    assert(ta->Node_1 =~= tb->Node_1);
}

proof fn lemma_copy_trait_ref(a0: String, b0: String, a1: Vec<TypeRef>, b1: Vec<TypeRef>)
    requires
        Tree::Leaf(a0@) == Tree::Leaf(b0@),
        Tree::Node("[]"@, trees_type_ref(a1@)) == Tree::Node("[]"@, trees_type_ref(b1@)),
    ensures
        (TraitRef { name: a0, args: a1 }).tree() == (TraitRef { name: b0, args: b1 }).tree(),
{
    let ta = (TraitRef { name: a0, args: a1 }).tree();
    let tb = (TraitRef { name: b0, args: b1 }).tree();
    assert(ta->Node_1 =~= tb->Node_1);
}

proof fn lemma_copy_fn_decl(a0: bool, b0: bool, a1: Option<FnModifier>, b1: Option<FnModifier>, a2: String, b2: String, a3: TypeParams, b3: TypeParams, a4: Vec<Param>, b4: Vec<Param>, a5: Option<TypeRef>, b5: Option<TypeRef>, a6: BlockOrSemi, b6: BlockOrSemi)
    requires
        bool_tree(a0) == bool_tree(b0),
        a1 is Some <==> b1 is Some,
        a1 is Some ==> a1->0.tree() == b1->0.tree(),
        Tree::Leaf(a2@) == Tree::Leaf(b2@),
        a3.tree() == b3.tree(),
        Tree::Node("[]"@, trees_param(a4@)) == Tree::Node("[]"@, trees_param(b4@)),
        a5 is Some <==> b5 is Some,
        a5 is Some ==> a5->0.tree() == b5->0.tree(),
        a6.tree() == b6.tree(),
    ensures
        (FnDecl { static_: a0, modifier: a1, name: a2, params: a3, parameters: a4, return_type: a5, body: a6 }).tree() == (FnDecl { static_: b0, modifier: b1, name: b2, params: b3, parameters: b4, return_type: b5, body: b6 }).tree(),
{
    let ta = (FnDecl { static_: a0, modifier: a1, name: a2, params: a3, parameters: a4, return_type: a5, body: a6 }).tree();
    let tb = (FnDecl { static_: b0, modifier: b1, name: b2, params: b3, parameters: b4, return_type: b5, body: b6 }).tree();
    assert(ta->Node_1 =~= tb->Node_1);
}

proof fn lemma_copy_block_or_semi_block(a0: Vec<Statement>, b0: Vec<Statement>)
    requires
        Tree::Node("[]"@, trees_statement(a0@)) == Tree::Node("[]"@, trees_statement(b0@)),
    ensures
        (BlockOrSemi::Block(a0)).tree() == (BlockOrSemi::Block(b0)).tree(),
{
    let ta = (BlockOrSemi::Block(a0)).tree();
    let tb = (BlockOrSemi::Block(b0)).tree();
    assert(ta->Node_1 =~= tb->Node_1);
}

proof fn lemma_copy_param(a0: bool, b0: bool, a1: String, b1: String, a2: TypeRef, b2: TypeRef, a3: Option<Expression>, b3: Option<Expression>)
    requires
        bool_tree(a0) == bool_tree(b0),
        Tree::Leaf(a1@) == Tree::Leaf(b1@),
        a2.tree() == b2.tree(),
        a3 is Some <==> b3 is Some,
        a3 is Some ==> a3->0.tree() == b3->0.tree(),
    ensures
        (Param { mutable: a0, name: a1, type_: a2, default: a3 }).tree() == (Param { mutable: b0, name: b1, type_: b2, default: b3 }).tree(),
{
    let ta = (Param { mutable: a0, name: a1, type_: a2, default: a3 }).tree();
    let tb = (Param { mutable: b0, name: b1, type_: b2, default: b3 }).tree();
    assert(ta->Node_1 =~= tb->Node_1);
}

proof fn lemma_copy_trait_decl(a0: String, b0: String, a1: TypeParams, b1: TypeParams, a2: Vec<TraitMember>, b2: Vec<TraitMember>)
    requires
        Tree::Leaf(a0@) == Tree::Leaf(b0@),
        a1.tree() == b1.tree(),
        Tree::Node("[]"@, trees_trait_member(a2@)) == Tree::Node("[]"@, trees_trait_member(b2@)),
    ensures
        (TraitDecl { name: a0, params: a1, members: a2 }).tree() == (TraitDecl { name: b0, params: b1, members: b2 }).tree(),
{
    let ta = (TraitDecl { name: a0, params: a1, members: a2 }).tree();
    let tb = (TraitDecl { name: b0, params: b1, members: b2 }).tree();
    assert(ta->Node_1 =~= tb->Node_1);
}

proof fn lemma_copy_trait_member_fn(a0: FnSignature, b0: FnSignature)
    requires
        a0.tree() == b0.tree(),
    ensures
        (TraitMember::Fn(a0)).tree() == (TraitMember::Fn(b0)).tree(),
{
    let ta = (TraitMember::Fn(a0)).tree();
    let tb = (TraitMember::Fn(b0)).tree();
    assert(ta->Node_1 =~= tb->Node_1);
}

proof fn lemma_copy_trait_member_prop(a0: PropSignature, b0: PropSignature)
    requires
        a0.tree() == b0.tree(),
    ensures
        (TraitMember::Prop(a0)).tree() == (TraitMember::Prop(b0)).tree(),
{
    let ta = (TraitMember::Prop(a0)).tree();
    let tb = (TraitMember::Prop(b0)).tree();
    assert(ta->Node_1 =~= tb->Node_1);
}

proof fn lemma_copy_fn_signature(a0: String, b0: String, a1: Vec<Param>, b1: Vec<Param>, a2: Option<TypeRef>, b2: Option<TypeRef>)
    requires
        Tree::Leaf(a0@) == Tree::Leaf(b0@),
        Tree::Node("[]"@, trees_param(a1@)) == Tree::Node("[]"@, trees_param(b1@)),
        a2 is Some <==> b2 is Some,
        a2 is Some ==> a2->0.tree() == b2->0.tree(),
    ensures
        (FnSignature { name: a0, params: a1, return_type: a2 }).tree() == (FnSignature { name: b0, params: b1, return_type: b2 }).tree(),
{
    let ta = (FnSignature { name: a0, params: a1, return_type: a2 }).tree();
    let tb = (FnSignature { name: b0, params: b1, return_type: b2 }).tree();
    assert(ta->Node_1 =~= tb->Node_1);
}

proof fn lemma_copy_prop_signature(a0: String, b0: String, a1: TypeRef, b1: TypeRef)
    requires
        Tree::Leaf(a0@) == Tree::Leaf(b0@),
        a1.tree() == b1.tree(),
    ensures
        (PropSignature { name: a0, type_: a1 }).tree() == (PropSignature { name: b0, type_: b1 }).tree(),
{
    let ta = (PropSignature { name: a0, type_: a1 }).tree();
    let tb = (PropSignature { name: b0, type_: b1 }).tree();
    assert(ta->Node_1 =~= tb->Node_1);
}

proof fn lemma_copy_statement_let(a0: LetDecl, b0: LetDecl)
    requires
        a0.tree() == b0.tree(),
    ensures
        (Statement::Let(a0)).tree() == (Statement::Let(b0)).tree(),
{
    let ta = (Statement::Let(a0)).tree();
    let tb = (Statement::Let(b0)).tree();
    assert(ta->Node_1 =~= tb->Node_1);
}

proof fn lemma_copy_statement_assignment(a0: Assignment, b0: Assignment)
    requires
        a0.tree() == b0.tree(),
    ensures
        (Statement::Assignment(a0)).tree() == (Statement::Assignment(b0)).tree(),
{
    let ta = (Statement::Assignment(a0)).tree();
    let tb = (Statement::Assignment(b0)).tree();
    assert(ta->Node_1 =~= tb->Node_1);
}

proof fn lemma_copy_statement_if(a0: IfExpr, b0: IfExpr)
    requires
        a0.tree() == b0.tree(),
    ensures
        (Statement::If(a0)).tree() == (Statement::If(b0)).tree(),
{
    let ta = (Statement::If(a0)).tree();
    let tb = (Statement::If(b0)).tree();
    assert(ta->Node_1 =~= tb->Node_1);
}

proof fn lemma_copy_statement_match(a0: MatchExpr, b0: MatchExpr)
    requires
        a0.tree() == b0.tree(),
    ensures
        (Statement::Match(a0)).tree() == (Statement::Match(b0)).tree(),
{
    let ta = (Statement::Match(a0)).tree();
    let tb = (Statement::Match(b0)).tree();
    assert(ta->Node_1 =~= tb->Node_1);
}

proof fn lemma_copy_statement_loop(a0: LoopExpr, b0: LoopExpr)
    requires
        a0.tree() == b0.tree(),
    ensures
        (Statement::Loop(a0)).tree() == (Statement::Loop(b0)).tree(),
{
    let ta = (Statement::Loop(a0)).tree();
    let tb = (Statement::Loop(b0)).tree();
    assert(ta->Node_1 =~= tb->Node_1);
}

proof fn lemma_copy_statement_while(a0: WhileExpr, b0: WhileExpr)
    requires
        a0.tree() == b0.tree(),
    ensures
        (Statement::While(a0)).tree() == (Statement::While(b0)).tree(),
{
    let ta = (Statement::While(a0)).tree();
    let tb = (Statement::While(b0)).tree();
    assert(ta->Node_1 =~= tb->Node_1);
}

proof fn lemma_copy_statement_for(a0: ForExpr, b0: ForExpr)
    requires
        a0.tree() == b0.tree(),
    ensures
        (Statement::For(a0)).tree() == (Statement::For(b0)).tree(),
{
    let ta = (Statement::For(a0)).tree();
    let tb = (Statement::For(b0)).tree();
    assert(ta->Node_1 =~= tb->Node_1);
}

proof fn lemma_copy_statement_return(a0: Option<Expression>, b0: Option<Expression>)
    requires
        a0 is Some <==> b0 is Some,
        a0 is Some ==> a0->0.tree() == b0->0.tree(),
    ensures
        (Statement::Return(a0)).tree() == (Statement::Return(b0)).tree(),
{
    let ta = (Statement::Return(a0)).tree();
    let tb = (Statement::Return(b0)).tree();
    assert(ta->Node_1 =~= tb->Node_1);
}

proof fn lemma_copy_statement_break(a0: Option<Expression>, b0: Option<Expression>)
    requires
        a0 is Some <==> b0 is Some,
        a0 is Some ==> a0->0.tree() == b0->0.tree(),
    ensures
        (Statement::Break(a0)).tree() == (Statement::Break(b0)).tree(),
{
    let ta = (Statement::Break(a0)).tree();
    let tb = (Statement::Break(b0)).tree();
    assert(ta->Node_1 =~= tb->Node_1);
}

proof fn lemma_copy_statement_super_call(a0: Vec<Expression>, b0: Vec<Expression>)
    requires
        Tree::Node("[]"@, trees_expression(a0@)) == Tree::Node("[]"@, trees_expression(b0@)),
    ensures
        (Statement::SuperCall(a0)).tree() == (Statement::SuperCall(b0)).tree(),
{
    let ta = (Statement::SuperCall(a0)).tree();
    let tb = (Statement::SuperCall(b0)).tree();
    assert(ta->Node_1 =~= tb->Node_1);
}

proof fn lemma_copy_statement_expression(a0: Expression, b0: Expression)
    requires
        a0.tree() == b0.tree(),
    ensures
        (Statement::Expression(a0)).tree() == (Statement::Expression(b0)).tree(),
{
    let ta = (Statement::Expression(a0)).tree();
    let tb = (Statement::Expression(b0)).tree();
    assert(ta->Node_1 =~= tb->Node_1);
}

proof fn lemma_copy_statement_block(a0: Vec<Statement>, b0: Vec<Statement>)
    requires
        Tree::Node("[]"@, trees_statement(a0@)) == Tree::Node("[]"@, trees_statement(b0@)),
    ensures
        (Statement::Block(a0)).tree() == (Statement::Block(b0)).tree(),
{
    let ta = (Statement::Block(a0)).tree();
    let tb = (Statement::Block(b0)).tree();
    assert(ta->Node_1 =~= tb->Node_1);
}

proof fn lemma_copy_let_decl(a0: Pattern, b0: Pattern, a1: Option<TypeRef>, b1: Option<TypeRef>, a2: Expression, b2: Expression)
    requires
        a0.tree() == b0.tree(),
        a1 is Some <==> b1 is Some,
        a1 is Some ==> a1->0.tree() == b1->0.tree(),
        a2.tree() == b2.tree(),
    ensures
        (LetDecl { pattern: a0, type_: a1, value: a2 }).tree() == (LetDecl { pattern: b0, type_: b1, value: b2 }).tree(),
{
    let ta = (LetDecl { pattern: a0, type_: a1, value: a2 }).tree();
    let tb = (LetDecl { pattern: b0, type_: b1, value: b2 }).tree();
    assert(ta->Node_1 =~= tb->Node_1);
}

proof fn lemma_copy_assignment(a0: LValue, b0: LValue, a1: Expression, b1: Expression)
    requires
        a0.tree() == b0.tree(),
        a1.tree() == b1.tree(),
    ensures
        (Assignment { lvalue: a0, value: a1 }).tree() == (Assignment { lvalue: b0, value: b1 }).tree(),
{
    let ta = (Assignment { lvalue: a0, value: a1 }).tree();
    let tb = (Assignment { lvalue: b0, value: b1 }).tree();
    assert(ta->Node_1 =~= tb->Node_1);
}

proof fn lemma_copy_l_value_variable(a0: String, b0: String)
    requires
        Tree::Leaf(a0@) == Tree::Leaf(b0@),
    ensures
        (LValue::Variable(a0)).tree() == (LValue::Variable(b0)).tree(),
{
    let ta = (LValue::Variable(a0)).tree();
    let tb = (LValue::Variable(b0)).tree();
    assert(ta->Node_1 =~= tb->Node_1);
}

proof fn lemma_copy_l_value_field(a0: Box<LValue>, b0: Box<LValue>, a1: String, b1: String)
    requires
        (*a0).tree() == (*b0).tree(),
        Tree::Leaf(a1@) == Tree::Leaf(b1@),
    ensures
        (LValue::Field(a0, a1)).tree() == (LValue::Field(b0, b1)).tree(),
{
    let ta = (LValue::Field(a0, a1)).tree();
    let tb = (LValue::Field(b0, b1)).tree();
    assert(ta->Node_1 =~= tb->Node_1);
}

proof fn lemma_copy_l_value_index(a0: Box<LValue>, b0: Box<LValue>, a1: Box<Expression>, b1: Box<Expression>)
    requires
        (*a0).tree() == (*b0).tree(),
        (*a1).tree() == (*b1).tree(),
    ensures
        (LValue::Index(a0, a1)).tree() == (LValue::Index(b0, b1)).tree(),
{
    let ta = (LValue::Index(a0, a1)).tree();
    let tb = (LValue::Index(b0, b1)).tree();
    assert(ta->Node_1 =~= tb->Node_1);
}

proof fn lemma_copy_expression_arrow(a0: Box<Expression>, b0: Box<Expression>, a1: Box<Expression>, b1: Box<Expression>)
    requires
        (*a0).tree() == (*b0).tree(),
        (*a1).tree() == (*b1).tree(),
    ensures
        (Expression::Arrow(a0, a1)).tree() == (Expression::Arrow(b0, b1)).tree(),
{
    let ta = (Expression::Arrow(a0, a1)).tree();
    let tb = (Expression::Arrow(b0, b1)).tree();
    assert(ta->Node_1 =~= tb->Node_1);
}

proof fn lemma_copy_expression_or(a0: Box<Expression>, b0: Box<Expression>, a1: Box<Expression>, b1: Box<Expression>)
    requires
        (*a0).tree() == (*b0).tree(),
        (*a1).tree() == (*b1).tree(),
    ensures
        (Expression::Or(a0, a1)).tree() == (Expression::Or(b0, b1)).tree(),
{
    let ta = (Expression::Or(a0, a1)).tree();
    let tb = (Expression::Or(b0, b1)).tree();
    assert(ta->Node_1 =~= tb->Node_1);
}

proof fn lemma_copy_expression_and(a0: Box<Expression>, b0: Box<Expression>, a1: Box<Expression>, b1: Box<Expression>)
    requires
        (*a0).tree() == (*b0).tree(),
        (*a1).tree() == (*b1).tree(),
    ensures
        (Expression::And(a0, a1)).tree() == (Expression::And(b0, b1)).tree(),
{
    let ta = (Expression::And(a0, a1)).tree();
    let tb = (Expression::And(b0, b1)).tree();
    assert(ta->Node_1 =~= tb->Node_1);
}

proof fn lemma_copy_expression_equal(a0: Box<Expression>, b0: Box<Expression>, a1: Box<Expression>, b1: Box<Expression>)
    requires
        (*a0).tree() == (*b0).tree(),
        (*a1).tree() == (*b1).tree(),
    ensures
        (Expression::Equal(a0, a1)).tree() == (Expression::Equal(b0, b1)).tree(),
{
    let ta = (Expression::Equal(a0, a1)).tree();
    let tb = (Expression::Equal(b0, b1)).tree();
    assert(ta->Node_1 =~= tb->Node_1);
}

proof fn lemma_copy_expression_not_equal(a0: Box<Expression>, b0: Box<Expression>, a1: Box<Expression>, b1: Box<Expression>)
    requires
        (*a0).tree() == (*b0).tree(),
        (*a1).tree() == (*b1).tree(),
    ensures
        (Expression::NotEqual(a0, a1)).tree() == (Expression::NotEqual(b0, b1)).tree(),
{
    let ta = (Expression::NotEqual(a0, a1)).tree();
    let tb = (Expression::NotEqual(b0, b1)).tree();
    assert(ta->Node_1 =~= tb->Node_1);
}

proof fn lemma_copy_expression_less(a0: Box<Expression>, b0: Box<Expression>, a1: Box<Expression>, b1: Box<Expression>)
    requires
        (*a0).tree() == (*b0).tree(),
        (*a1).tree() == (*b1).tree(),
    ensures
        (Expression::Less(a0, a1)).tree() == (Expression::Less(b0, b1)).tree(),
{
    let ta = (Expression::Less(a0, a1)).tree();
    let tb = (Expression::Less(b0, b1)).tree();
    assert(ta->Node_1 =~= tb->Node_1);
}

proof fn lemma_copy_expression_greater(a0: Box<Expression>, b0: Box<Expression>, a1: Box<Expression>, b1: Box<Expression>)
    requires
        (*a0).tree() == (*b0).tree(),
        (*a1).tree() == (*b1).tree(),
    ensures
        (Expression::Greater(a0, a1)).tree() == (Expression::Greater(b0, b1)).tree(),
{
    let ta = (Expression::Greater(a0, a1)).tree();
    let tb = (Expression::Greater(b0, b1)).tree();
    assert(ta->Node_1 =~= tb->Node_1);
}

proof fn lemma_copy_expression_less_eq(a0: Box<Expression>, b0: Box<Expression>, a1: Box<Expression>, b1: Box<Expression>)
    requires
        (*a0).tree() == (*b0).tree(),
        (*a1).tree() == (*b1).tree(),
    ensures
        (Expression::LessEq(a0, a1)).tree() == (Expression::LessEq(b0, b1)).tree(),
{
    let ta = (Expression::LessEq(a0, a1)).tree();
    let tb = (Expression::LessEq(b0, b1)).tree();
    assert(ta->Node_1 =~= tb->Node_1);
}

proof fn lemma_copy_expression_greater_eq(a0: Box<Expression>, b0: Box<Expression>, a1: Box<Expression>, b1: Box<Expression>)
    requires
        (*a0).tree() == (*b0).tree(),
        (*a1).tree() == (*b1).tree(),
    ensures
        (Expression::GreaterEq(a0, a1)).tree() == (Expression::GreaterEq(b0, b1)).tree(),
{
    let ta = (Expression::GreaterEq(a0, a1)).tree();
    let tb = (Expression::GreaterEq(b0, b1)).tree();
    assert(ta->Node_1 =~= tb->Node_1);
}

proof fn lemma_copy_expression_pipe(a0: Box<Expression>, b0: Box<Expression>, a1: Box<Expression>, b1: Box<Expression>)
    requires
        (*a0).tree() == (*b0).tree(),
        (*a1).tree() == (*b1).tree(),
    ensures
        (Expression::Pipe(a0, a1)).tree() == (Expression::Pipe(b0, b1)).tree(),
{
    let ta = (Expression::Pipe(a0, a1)).tree();
    let tb = (Expression::Pipe(b0, b1)).tree();
    assert(ta->Node_1 =~= tb->Node_1);
}

proof fn lemma_copy_expression_range(a0: Box<Expression>, b0: Box<Expression>, a1: Box<Expression>, b1: Box<Expression>)
    requires
        (*a0).tree() == (*b0).tree(),
        (*a1).tree() == (*b1).tree(),
    ensures
        (Expression::Range(a0, a1)).tree() == (Expression::Range(b0, b1)).tree(),
{
    let ta = (Expression::Range(a0, a1)).tree();
    let tb = (Expression::Range(b0, b1)).tree();
    assert(ta->Node_1 =~= tb->Node_1);
}

proof fn lemma_copy_expression_add(a0: Box<Expression>, b0: Box<Expression>, a1: Box<Expression>, b1: Box<Expression>)
    requires
        (*a0).tree() == (*b0).tree(),
        (*a1).tree() == (*b1).tree(),
    ensures
        (Expression::Add(a0, a1)).tree() == (Expression::Add(b0, b1)).tree(),
{
    let ta = (Expression::Add(a0, a1)).tree();
    let tb = (Expression::Add(b0, b1)).tree();
    assert(ta->Node_1 =~= tb->Node_1);
}

proof fn lemma_copy_expression_sub(a0: Box<Expression>, b0: Box<Expression>, a1: Box<Expression>, b1: Box<Expression>)
    requires
        (*a0).tree() == (*b0).tree(),
        (*a1).tree() == (*b1).tree(),
    ensures
        (Expression::Sub(a0, a1)).tree() == (Expression::Sub(b0, b1)).tree(),
{
    let ta = (Expression::Sub(a0, a1)).tree();
    let tb = (Expression::Sub(b0, b1)).tree();
    assert(ta->Node_1 =~= tb->Node_1);
}

proof fn lemma_copy_expression_mul(a0: Box<Expression>, b0: Box<Expression>, a1: Box<Expression>, b1: Box<Expression>)
    requires
        (*a0).tree() == (*b0).tree(),
        (*a1).tree() == (*b1).tree(),
    ensures
        (Expression::Mul(a0, a1)).tree() == (Expression::Mul(b0, b1)).tree(),
{
    let ta = (Expression::Mul(a0, a1)).tree();
    let tb = (Expression::Mul(b0, b1)).tree();
    assert(ta->Node_1 =~= tb->Node_1);
}

proof fn lemma_copy_expression_div(a0: Box<Expression>, b0: Box<Expression>, a1: Box<Expression>, b1: Box<Expression>)
    requires
        (*a0).tree() == (*b0).tree(),
        (*a1).tree() == (*b1).tree(),
    ensures
        (Expression::Div(a0, a1)).tree() == (Expression::Div(b0, b1)).tree(),
{
    let ta = (Expression::Div(a0, a1)).tree();
    let tb = (Expression::Div(b0, b1)).tree();
    assert(ta->Node_1 =~= tb->Node_1);
}

proof fn lemma_copy_expression_mod(a0: Box<Expression>, b0: Box<Expression>, a1: Box<Expression>, b1: Box<Expression>)
    requires
        (*a0).tree() == (*b0).tree(),
        (*a1).tree() == (*b1).tree(),
    ensures
        (Expression::Mod(a0, a1)).tree() == (Expression::Mod(b0, b1)).tree(),
{
    let ta = (Expression::Mod(a0, a1)).tree();
    let tb = (Expression::Mod(b0, b1)).tree();
    assert(ta->Node_1 =~= tb->Node_1);
}

proof fn lemma_copy_expression_neg(a0: Box<Expression>, b0: Box<Expression>)
    requires
        (*a0).tree() == (*b0).tree(),
    ensures
        (Expression::Neg(a0)).tree() == (Expression::Neg(b0)).tree(),
{
    let ta = (Expression::Neg(a0)).tree();
    let tb = (Expression::Neg(b0)).tree();
    assert(ta->Node_1 =~= tb->Node_1);
}

proof fn lemma_copy_expression_not(a0: Box<Expression>, b0: Box<Expression>)
    requires
        (*a0).tree() == (*b0).tree(),
    ensures
        (Expression::Not(a0)).tree() == (Expression::Not(b0)).tree(),
{
    let ta = (Expression::Not(a0)).tree();
    let tb = (Expression::Not(b0)).tree();
    assert(ta->Node_1 =~= tb->Node_1);
}

proof fn lemma_copy_expression_ref(a0: Box<Expression>, b0: Box<Expression>)
    requires
        (*a0).tree() == (*b0).tree(),
    ensures
        (Expression::Ref(a0)).tree() == (Expression::Ref(b0)).tree(),
{
    let ta = (Expression::Ref(a0)).tree();
    let tb = (Expression::Ref(b0)).tree();
    assert(ta->Node_1 =~= tb->Node_1);
}

proof fn lemma_copy_expression_mut_ref(a0: Box<Expression>, b0: Box<Expression>)
    requires
        (*a0).tree() == (*b0).tree(),
    ensures
        (Expression::MutRef(a0)).tree() == (Expression::MutRef(b0)).tree(),
{
    let ta = (Expression::MutRef(a0)).tree();
    let tb = (Expression::MutRef(b0)).tree();
    assert(ta->Node_1 =~= tb->Node_1);
}

proof fn lemma_copy_expression_field_access(a0: Box<Expression>, b0: Box<Expression>, a1: String, b1: String)
    requires
        (*a0).tree() == (*b0).tree(),
        Tree::Leaf(a1@) == Tree::Leaf(b1@),
    ensures
        (Expression::FieldAccess(a0, a1)).tree() == (Expression::FieldAccess(b0, b1)).tree(),
{
    let ta = (Expression::FieldAccess(a0, a1)).tree();
    let tb = (Expression::FieldAccess(b0, b1)).tree();
    assert(ta->Node_1 =~= tb->Node_1);
}

proof fn lemma_copy_expression_call(a0: Box<Expression>, b0: Box<Expression>, a1: Vec<Expression>, b1: Vec<Expression>)
    requires
        (*a0).tree() == (*b0).tree(),
        Tree::Node("[]"@, trees_expression(a1@)) == Tree::Node("[]"@, trees_expression(b1@)),
    ensures
        (Expression::Call(a0, a1)).tree() == (Expression::Call(b0, b1)).tree(),
{
    let ta = (Expression::Call(a0, a1)).tree();
    let tb = (Expression::Call(b0, b1)).tree();
    assert(ta->Node_1 =~= tb->Node_1);
}

proof fn lemma_copy_expression_index(a0: Box<Expression>, b0: Box<Expression>, a1: Box<Expression>, b1: Box<Expression>)
    requires
        (*a0).tree() == (*b0).tree(),
        (*a1).tree() == (*b1).tree(),
    ensures
        (Expression::Index(a0, a1)).tree() == (Expression::Index(b0, b1)).tree(),
{
    let ta = (Expression::Index(a0, a1)).tree();
    let tb = (Expression::Index(b0, b1)).tree();
    assert(ta->Node_1 =~= tb->Node_1);
}

proof fn lemma_copy_expression_unwrap(a0: Box<Expression>, b0: Box<Expression>)
    requires
        (*a0).tree() == (*b0).tree(),
    ensures
        (Expression::Unwrap(a0)).tree() == (Expression::Unwrap(b0)).tree(),
{
    let ta = (Expression::Unwrap(a0)).tree();
    let tb = (Expression::Unwrap(b0)).tree();
    assert(ta->Node_1 =~= tb->Node_1);
}

proof fn lemma_copy_expression_force_unwrap(a0: Box<Expression>, b0: Box<Expression>)
    requires
        (*a0).tree() == (*b0).tree(),
    ensures
        (Expression::ForceUnwrap(a0)).tree() == (Expression::ForceUnwrap(b0)).tree(),
{
    let ta = (Expression::ForceUnwrap(a0)).tree();
    let tb = (Expression::ForceUnwrap(b0)).tree();
    assert(ta->Node_1 =~= tb->Node_1);
}

proof fn lemma_copy_expression_literal(a0: Literal, b0: Literal)
    requires
        a0.tree() == b0.tree(),
    ensures
        (Expression::Literal(a0)).tree() == (Expression::Literal(b0)).tree(),
{
    let ta = (Expression::Literal(a0)).tree();
    let tb = (Expression::Literal(b0)).tree();
    assert(ta->Node_1 =~= tb->Node_1);
}

proof fn lemma_copy_expression_identifier(a0: String, b0: String)
    requires
        Tree::Leaf(a0@) == Tree::Leaf(b0@),
    ensures
        (Expression::Identifier(a0)).tree() == (Expression::Identifier(b0)).tree(),
{
    let ta = (Expression::Identifier(a0)).tree();
    let tb = (Expression::Identifier(b0)).tree();
    assert(ta->Node_1 =~= tb->Node_1);
}

proof fn lemma_copy_expression_block(a0: Vec<Statement>, b0: Vec<Statement>)
    requires
        Tree::Node("[]"@, trees_statement(a0@)) == Tree::Node("[]"@, trees_statement(b0@)),
    ensures
        (Expression::Block(a0)).tree() == (Expression::Block(b0)).tree(),
{
    let ta = (Expression::Block(a0)).tree();
    let tb = (Expression::Block(b0)).tree();
    assert(ta->Node_1 =~= tb->Node_1);
}

proof fn lemma_copy_expression_if(a0: IfExpr, b0: IfExpr)
    requires
        a0.tree() == b0.tree(),
    ensures
        (Expression::If(a0)).tree() == (Expression::If(b0)).tree(),
{
    let ta = (Expression::If(a0)).tree();
    let tb = (Expression::If(b0)).tree();
    assert(ta->Node_1 =~= tb->Node_1);
}

proof fn lemma_copy_expression_match(a0: MatchExpr, b0: MatchExpr)
    requires
        a0.tree() == b0.tree(),
    ensures
        (Expression::Match(a0)).tree() == (Expression::Match(b0)).tree(),
{
    let ta = (Expression::Match(a0)).tree();
    let tb = (Expression::Match(b0)).tree();
    assert(ta->Node_1 =~= tb->Node_1);
}

proof fn lemma_copy_expression_loop(a0: LoopExpr, b0: LoopExpr)
    requires
        a0.tree() == b0.tree(),
    ensures
        (Expression::Loop(a0)).tree() == (Expression::Loop(b0)).tree(),
{
    let ta = (Expression::Loop(a0)).tree();
    let tb = (Expression::Loop(b0)).tree();
    assert(ta->Node_1 =~= tb->Node_1);
}

proof fn lemma_copy_expression_while(a0: WhileExpr, b0: WhileExpr)
    requires
        a0.tree() == b0.tree(),
    ensures
        (Expression::While(a0)).tree() == (Expression::While(b0)).tree(),
{
    let ta = (Expression::While(a0)).tree();
    let tb = (Expression::While(b0)).tree();
    assert(ta->Node_1 =~= tb->Node_1);
}

proof fn lemma_copy_expression_for(a0: ForExpr, b0: ForExpr)
    requires
        a0.tree() == b0.tree(),
    ensures
        (Expression::For(a0)).tree() == (Expression::For(b0)).tree(),
{
    let ta = (Expression::For(a0)).tree();
    let tb = (Expression::For(b0)).tree();
    assert(ta->Node_1 =~= tb->Node_1);
}

proof fn lemma_copy_expression_lambda(a0: Vec<Param>, b0: Vec<Param>, a1: Option<TypeRef>, b1: Option<TypeRef>, a2: Vec<Statement>, b2: Vec<Statement>)
    requires
        Tree::Node("[]"@, trees_param(a0@)) == Tree::Node("[]"@, trees_param(b0@)),
        a1 is Some <==> b1 is Some,
        a1 is Some ==> a1->0.tree() == b1->0.tree(),
        Tree::Node("[]"@, trees_statement(a2@)) == Tree::Node("[]"@, trees_statement(b2@)),
    ensures
        (Expression::Lambda { params: a0, return_type: a1, body: a2 }).tree() == (Expression::Lambda { params: b0, return_type: b1, body: b2 }).tree(),
{
    let ta = (Expression::Lambda { params: a0, return_type: a1, body: a2 }).tree();
    let tb = (Expression::Lambda { params: b0, return_type: b1, body: b2 }).tree();
    assert(ta->Node_1 =~= tb->Node_1);
}

proof fn lemma_copy_expression_paren(a0: Box<Expression>, b0: Box<Expression>)
    requires
        (*a0).tree() == (*b0).tree(),
    ensures
        (Expression::Paren(a0)).tree() == (Expression::Paren(b0)).tree(),
{
    let ta = (Expression::Paren(a0)).tree();
    let tb = (Expression::Paren(b0)).tree();
    assert(ta->Node_1 =~= tb->Node_1);
}

proof fn lemma_copy_expression_array(a0: Vec<Expression>, b0: Vec<Expression>)
    requires
        Tree::Node("[]"@, trees_expression(a0@)) == Tree::Node("[]"@, trees_expression(b0@)),
    ensures
        (Expression::Array(a0)).tree() == (Expression::Array(b0)).tree(),
{
    let ta = (Expression::Array(a0)).tree();
    let tb = (Expression::Array(b0)).tree();
    assert(ta->Node_1 =~= tb->Node_1);
}

proof fn lemma_copy_if_expr(a0: Box<Expression>, b0: Box<Expression>, a1: Vec<Statement>, b1: Vec<Statement>, a2: Option<Box<ElseBranch>>, b2: Option<Box<ElseBranch>>)
    requires
        (*a0).tree() == (*b0).tree(),
        Tree::Node("[]"@, trees_statement(a1@)) == Tree::Node("[]"@, trees_statement(b1@)),
        a2 is Some <==> b2 is Some,
        a2 is Some ==> (*a2->0).tree() == (*b2->0).tree(),
    ensures
        (IfExpr { condition: a0, then_block: a1, else_branch: a2 }).tree() == (IfExpr { condition: b0, then_block: b1, else_branch: b2 }).tree(),
{
    let ta = (IfExpr { condition: a0, then_block: a1, else_branch: a2 }).tree();
    let tb = (IfExpr { condition: b0, then_block: b1, else_branch: b2 }).tree();
    assert(ta->Node_1 =~= tb->Node_1);
}

proof fn lemma_copy_else_branch_if(a0: IfExpr, b0: IfExpr)
    requires
        a0.tree() == b0.tree(),
    ensures
        (ElseBranch::If(a0)).tree() == (ElseBranch::If(b0)).tree(),
{
    let ta = (ElseBranch::If(a0)).tree();
    let tb = (ElseBranch::If(b0)).tree();
    assert(ta->Node_1 =~= tb->Node_1);
}

proof fn lemma_copy_else_branch_block(a0: Vec<Statement>, b0: Vec<Statement>)
    requires
        Tree::Node("[]"@, trees_statement(a0@)) == Tree::Node("[]"@, trees_statement(b0@)),
    ensures
        (ElseBranch::Block(a0)).tree() == (ElseBranch::Block(b0)).tree(),
{
    let ta = (ElseBranch::Block(a0)).tree();
    let tb = (ElseBranch::Block(b0)).tree();
    assert(ta->Node_1 =~= tb->Node_1);
}

proof fn lemma_copy_match_expr(a0: Box<Expression>, b0: Box<Expression>, a1: Vec<MatchArm>, b1: Vec<MatchArm>)
    requires
        (*a0).tree() == (*b0).tree(),
        Tree::Node("[]"@, trees_match_arm(a1@)) == Tree::Node("[]"@, trees_match_arm(b1@)),
    ensures
        (MatchExpr { value: a0, arms: a1 }).tree() == (MatchExpr { value: b0, arms: b1 }).tree(),
{
    let ta = (MatchExpr { value: a0, arms: a1 }).tree();
    let tb = (MatchExpr { value: b0, arms: b1 }).tree();
    assert(ta->Node_1 =~= tb->Node_1);
}

#[verifier::rlimit(40)]
proof fn lemma_copy_match_arm(a0: Pattern, b0: Pattern, a1: Option<Box<Expression>>, b1: Option<Box<Expression>>, a2: Box<Expression>, b2: Box<Expression>)
    requires
        a0.tree() == b0.tree(),
        a1 is Some <==> b1 is Some,
        a1 is Some ==> (*a1->0).tree() == (*b1->0).tree(),
        (*a2).tree() == (*b2).tree(),
    ensures
        (MatchArm { pattern: a0, guard: a1, value: a2 }).tree() == (MatchArm { pattern: b0, guard: b1, value: b2 }).tree(),
{
    let ta = (MatchArm { pattern: a0, guard: a1, value: a2 }).tree();
    let tb = (MatchArm { pattern: b0, guard: b1, value: b2 }).tree();
    assert(ta->Node_1 =~= tb->Node_1);
}

proof fn lemma_copy_pattern_identifier(a0: String, b0: String)
    requires
        Tree::Leaf(a0@) == Tree::Leaf(b0@),
    ensures
        (Pattern::Identifier(a0)).tree() == (Pattern::Identifier(b0)).tree(),
{
    let ta = (Pattern::Identifier(a0)).tree();
    let tb = (Pattern::Identifier(b0)).tree();
    assert(ta->Node_1 =~= tb->Node_1);
}

proof fn lemma_copy_pattern_literal(a0: Literal, b0: Literal)
    requires
        a0.tree() == b0.tree(),
    ensures
        (Pattern::Literal(a0)).tree() == (Pattern::Literal(b0)).tree(),
{
    let ta = (Pattern::Literal(a0)).tree();
    let tb = (Pattern::Literal(b0)).tree();
    assert(ta->Node_1 =~= tb->Node_1);
}

proof fn lemma_copy_pattern_destructure_variant(a0: String, b0: String, a1: Vec<Pattern>, b1: Vec<Pattern>)
    requires
        Tree::Leaf(a0@) == Tree::Leaf(b0@),
        Tree::Node("[]"@, trees_pattern(a1@)) == Tree::Node("[]"@, trees_pattern(b1@)),
    ensures
        (Pattern::DestructureVariant { name: a0, patterns: a1 }).tree() == (Pattern::DestructureVariant { name: b0, patterns: b1 }).tree(),
{
    let ta = (Pattern::DestructureVariant { name: a0, patterns: a1 }).tree();
    let tb = (Pattern::DestructureVariant { name: b0, patterns: b1 }).tree();
    assert(ta->Node_1 =~= tb->Node_1);
}

proof fn lemma_copy_pattern_destructure_tuple(a0: Vec<Pattern>, b0: Vec<Pattern>)
    requires
        Tree::Node("[]"@, trees_pattern(a0@)) == Tree::Node("[]"@, trees_pattern(b0@)),
    ensures
        (Pattern::DestructureTuple(a0)).tree() == (Pattern::DestructureTuple(b0)).tree(),
{
    let ta = (Pattern::DestructureTuple(a0)).tree();
    let tb = (Pattern::DestructureTuple(b0)).tree();
    assert(ta->Node_1 =~= tb->Node_1);
}

proof fn lemma_copy_pattern_or(a0: Box<Pattern>, b0: Box<Pattern>, a1: Box<Pattern>, b1: Box<Pattern>)
    requires
        (*a0).tree() == (*b0).tree(),
        (*a1).tree() == (*b1).tree(),
    ensures
        (Pattern::Or(a0, a1)).tree() == (Pattern::Or(b0, b1)).tree(),
{
    let ta = (Pattern::Or(a0, a1)).tree();
    let tb = (Pattern::Or(b0, b1)).tree();
    assert(ta->Node_1 =~= tb->Node_1);
}

proof fn lemma_copy_loop_expr(a0: Vec<Statement>, b0: Vec<Statement>)
    requires
        Tree::Node("[]"@, trees_statement(a0@)) == Tree::Node("[]"@, trees_statement(b0@)),
    ensures
        (LoopExpr { body: a0 }).tree() == (LoopExpr { body: b0 }).tree(),
{
    let ta = (LoopExpr { body: a0 }).tree();
    let tb = (LoopExpr { body: b0 }).tree();
    assert(ta->Node_1 =~= tb->Node_1);
}

proof fn lemma_copy_while_expr(a0: Box<Expression>, b0: Box<Expression>, a1: Vec<Statement>, b1: Vec<Statement>)
    requires
        (*a0).tree() == (*b0).tree(),
        Tree::Node("[]"@, trees_statement(a1@)) == Tree::Node("[]"@, trees_statement(b1@)),
    ensures
        (WhileExpr { condition: a0, body: a1 }).tree() == (WhileExpr { condition: b0, body: b1 }).tree(),
{
    let ta = (WhileExpr { condition: a0, body: a1 }).tree();
    let tb = (WhileExpr { condition: b0, body: b1 }).tree();
    assert(ta->Node_1 =~= tb->Node_1);
}

proof fn lemma_copy_for_expr(a0: Pattern, b0: Pattern, a1: Box<Expression>, b1: Box<Expression>, a2: Vec<Statement>, b2: Vec<Statement>)
    requires
        a0.tree() == b0.tree(),
        (*a1).tree() == (*b1).tree(),
        Tree::Node("[]"@, trees_statement(a2@)) == Tree::Node("[]"@, trees_statement(b2@)),
    ensures
        (ForExpr { pattern: a0, iterable: a1, body: a2 }).tree() == (ForExpr { pattern: b0, iterable: b1, body: b2 }).tree(),
{
    let ta = (ForExpr { pattern: a0, iterable: a1, body: a2 }).tree();
    let tb = (ForExpr { pattern: b0, iterable: b1, body: b2 }).tree();
    assert(ta->Node_1 =~= tb->Node_1);
}

proof fn lemma_copy_literal_int(a0: String, b0: String)
    requires
        Tree::Leaf(a0@) == Tree::Leaf(b0@),
    ensures
        (Literal::Int(a0)).tree() == (Literal::Int(b0)).tree(),
{
    let ta = (Literal::Int(a0)).tree();
    let tb = (Literal::Int(b0)).tree();
    assert(ta->Node_1 =~= tb->Node_1);
}

proof fn lemma_copy_literal_float(a0: String, b0: String)
    requires
        Tree::Leaf(a0@) == Tree::Leaf(b0@),
    ensures
        (Literal::Float(a0)).tree() == (Literal::Float(b0)).tree(),
{
    let ta = (Literal::Float(a0)).tree();
    let tb = (Literal::Float(b0)).tree();
    assert(ta->Node_1 =~= tb->Node_1);
}

proof fn lemma_copy_literal_string(a0: String, b0: String)
    requires
        Tree::Leaf(a0@) == Tree::Leaf(b0@),
    ensures
        (Literal::String(a0)).tree() == (Literal::String(b0)).tree(),
{
    let ta = (Literal::String(a0)).tree();
    let tb = (Literal::String(b0)).tree();
    assert(ta->Node_1 =~= tb->Node_1);
}

proof fn lemma_copy_literal_char(a0: char, b0: char)
    requires
        Tree::Leaf(seq![a0]) == Tree::Leaf(seq![b0]),
    ensures
        (Literal::Char(a0)).tree() == (Literal::Char(b0)).tree(),
{
    let ta = (Literal::Char(a0)).tree();
    let tb = (Literal::Char(b0)).tree();
    assert(ta->Node_1 =~= tb->Node_1);
}

proof fn lemma_copy_literal_bool(a0: bool, b0: bool)
    requires
        bool_tree(a0) == bool_tree(b0),
    ensures
        (Literal::Bool(a0)).tree() == (Literal::Bool(b0)).tree(),
{
    let ta = (Literal::Bool(a0)).tree();
    let tb = (Literal::Bool(b0)).tree();
    assert(ta->Node_1 =~= tb->Node_1);
}

proof fn lemma_trees_expression_push(s: Seq<Expression>, x: Expression)
    ensures
        trees_expression(s.push(x)) == trees_expression(s).push(x.tree()),
{
    assert(s.push(x).drop_last() =~= s);
}

proof fn lemma_trees_match_arm_push(s: Seq<MatchArm>, x: MatchArm)
    ensures
        trees_match_arm(s.push(x)) == trees_match_arm(s).push(x.tree()),
{
    assert(s.push(x).drop_last() =~= s);
}

proof fn lemma_trees_param_push(s: Seq<Param>, x: Param)
    ensures
        trees_param(s.push(x)) == trees_param(s).push(x.tree()),
{
    assert(s.push(x).drop_last() =~= s);
}

proof fn lemma_trees_pattern_push(s: Seq<Pattern>, x: Pattern)
    ensures
        trees_pattern(s.push(x)) == trees_pattern(s).push(x.tree()),
{
    assert(s.push(x).drop_last() =~= s);
}

proof fn lemma_trees_statement_push(s: Seq<Statement>, x: Statement)
    ensures
        trees_statement(s.push(x)) == trees_statement(s).push(x.tree()),
{
    assert(s.push(x).drop_last() =~= s);
}

proof fn lemma_trees_trait_member_push(s: Seq<TraitMember>, x: TraitMember)
    ensures
        trees_trait_member(s.push(x)) == trees_trait_member(s).push(x.tree()),
{
    assert(s.push(x).drop_last() =~= s);
}

proof fn lemma_trees_trait_ref_push(s: Seq<TraitRef>, x: TraitRef)
    ensures
        trees_trait_ref(s.push(x)) == trees_trait_ref(s).push(x.tree()),
{
    assert(s.push(x).drop_last() =~= s);
}

proof fn lemma_trees_type_param_push(s: Seq<TypeParam>, x: TypeParam)
    ensures
        trees_type_param(s.push(x)) == trees_type_param(s).push(x.tree()),
{
    assert(s.push(x).drop_last() =~= s);
}

proof fn lemma_trees_type_ref_push(s: Seq<TypeRef>, x: TypeRef)
    ensures
        trees_type_ref(s.push(x)) == trees_type_ref(s).push(x.tree()),
{
    assert(s.push(x).drop_last() =~= s);
}

} // verus!
