//! The declarations of a module.

use vstd::prelude::*;
use crate::ast::{Expr, ExprV, PatternV, Type, TypeOperator, TypeV, Typed};
use crate::sugar::operators_view;

verus! {

/// What a type declaration is in specifications.
pub struct TypeDeclarationV {
    pub context: Seq<TypeV>,
    pub typ: TypeV,
    pub name: Seq<char>,
}

/// What a binding is in specifications.
pub struct BindingV {
    pub name: Seq<char>,
    pub expression: ExprV,
    pub type_decl: TypeDeclarationV,
}

/// `name :: context => typ`.
#[derive(Debug)]
pub struct TypeDeclaration {
    pub context: Vec<TypeOperator>,
    pub typ: Type,
    pub name: String,
}

/// `name = expression`, with the type declared for `name` where the module
/// declares one.
#[derive(Debug)]
pub struct Binding {
    pub name: String,
    pub expression: Typed<Expr>,
    pub type_decl: TypeDeclaration,
}

impl TypeDeclaration {
    pub open spec fn view(&self) -> TypeDeclarationV {
        TypeDeclarationV { context: operators_view(self.context@), typ: self.typ@, name: self.name@ }
    }

    /// The declaration of a binding of which nothing is declared: no
    /// context, no name, and a type variable that is not numbered yet.
    pub fn undeclared() -> (r: TypeDeclaration)
        ensures
            r@ == spec_undeclared(),
    {
        let r = TypeDeclaration { context: Vec::new(), typ: Type::new_var(-1), name: String::new() };
        assert(r@.context =~= Seq::empty());
        r
    }
}

pub open spec fn spec_undeclared() -> TypeDeclarationV {
    TypeDeclarationV { context: Seq::empty(), typ: TypeV::Variable(-1), name: Seq::empty() }
}

impl Clone for TypeDeclaration {
    fn clone(&self) -> (r: TypeDeclaration)
        ensures
            r@ == self@,
    {
        let mut context: Vec<TypeOperator> = Vec::new();
        let mut i: usize = 0;
        while i < self.context.len()
            invariant
                i <= self.context.len(),
                context@.len() == i,
                forall|j: int| 0 <= j < i ==> context@[j]@ == self.context@[j]@,
            decreases self.context.len() - i,
        {
            context.push(self.context[i].clone());
            i += 1;
        }
        let r = TypeDeclaration { context, typ: self.typ.clone(), name: self.name.clone() };
        assert(r@.context =~= self@.context);
        r
    }
}

impl Binding {
    pub open spec fn view(&self) -> BindingV {
        BindingV { name: self.name@, expression: self.expression@, type_decl: self.type_decl@ }
    }
}

/// The views of a sequence of bindings.
pub open spec fn bindings_view(bindings: Seq<Binding>) -> Seq<BindingV> {
    Seq::new(bindings.len(), |i: int| bindings[i]@)
}

/// Name and expression of each binding, as a `let` holds them.
pub open spec fn let_pairs(bindings: Seq<BindingV>) -> Seq<(Seq<char>, ExprV)> {
    Seq::new(bindings.len(), |i: int| (bindings[i].name, bindings[i].expression))
}

/// A case alternative: `pattern -> expression`.
pub struct AlternativeV {
    pub pattern: PatternV,
    pub expression: ExprV,
}

/// The views of a sequence of type declarations.
pub open spec fn type_declarations_view(decls: Seq<TypeDeclaration>) -> Seq<TypeDeclarationV> {
    Seq::new(decls.len(), |i: int| decls[i]@)
}

/// What a class is in specifications.
pub struct ClassV {
    pub name: Seq<char>,
    pub declarations: Seq<TypeDeclarationV>,
}

/// `class name variable where declarations`.
#[derive(Debug)]
pub struct Class {
    pub name: String,
    pub declarations: Vec<TypeDeclaration>,
}

impl Class {
    pub open spec fn view(&self) -> ClassV {
        ClassV { name: self.name@, declarations: type_declarations_view(self.declarations@) }
    }
}

/// What an instance is in specifications.
pub struct InstanceV {
    pub bindings: Seq<BindingV>,
    pub typ: TypeV,
    pub classname: Seq<char>,
}

/// `instance classname typ where bindings`.
#[derive(Debug)]
pub struct Instance {
    pub bindings: Vec<Binding>,
    pub typ: TypeOperator,
    pub classname: String,
}

impl Instance {
    pub open spec fn view(&self) -> InstanceV {
        InstanceV { bindings: bindings_view(self.bindings@), typ: self.typ@, classname: self.classname@ }
    }
}

/// What a constructor is in specifications.
pub struct ConstructorV {
    pub name: Seq<char>,
    pub typ: TypeV,
    pub tag: int,
    pub arity: int,
}

/// A constructor of a data type: its name, its type as a function of its
/// arguments, its place among the constructors, and the number of its
/// arguments.
#[derive(Debug)]
pub struct Constructor {
    pub name: String,
    pub typ: Type,
    pub tag: usize,
    pub arity: usize,
}

impl Constructor {
    pub open spec fn view(&self) -> ConstructorV {
        ConstructorV { name: self.name@, typ: self.typ@, tag: self.tag as int, arity: self.arity as int }
    }
}

/// The views of a sequence of constructors.
pub open spec fn constructors_view(constructors: Seq<Constructor>) -> Seq<ConstructorV> {
    Seq::new(constructors.len(), |i: int| constructors[i]@)
}

/// The views of the parameters of a data type.
pub open spec fn parameters_view(parameters: Seq<(String, Type)>) -> Seq<(Seq<char>, TypeV)> {
    Seq::new(parameters.len(), |i: int| (parameters[i].0@, parameters[i].1@))
}

/// What a data definition is in specifications.
pub struct DataDefinitionV {
    pub constructors: Seq<ConstructorV>,
    pub typ: TypeV,
    pub parameters: Seq<(Seq<char>, TypeV)>,
}

/// `data typ = constructors`. `parameters` holds each parameter's name once,
/// with the type variable it stands for.
#[derive(Debug)]
pub struct DataDefinition {
    pub constructors: Vec<Constructor>,
    pub typ: TypeOperator,
    pub parameters: Vec<(String, Type)>,
}

impl DataDefinition {
    pub open spec fn view(&self) -> DataDefinitionV {
        DataDefinitionV {
            constructors: constructors_view(self.constructors@),
            typ: self.typ@,
            parameters: parameters_view(self.parameters@),
        }
    }
}

pub open spec fn classes_view(classes: Seq<Class>) -> Seq<ClassV> {
    Seq::new(classes.len(), |i: int| classes[i]@)
}

pub open spec fn instances_view(instances: Seq<Instance>) -> Seq<InstanceV> {
    Seq::new(instances.len(), |i: int| instances[i]@)
}

pub open spec fn data_definitions_view(definitions: Seq<DataDefinition>) -> Seq<DataDefinitionV> {
    Seq::new(definitions.len(), |i: int| definitions[i]@)
}

/// What a module is in specifications.
pub struct ModuleV {
    pub name: Seq<char>,
    pub bindings: Seq<BindingV>,
    pub type_declarations: Seq<TypeDeclarationV>,
    pub classes: Seq<ClassV>,
    pub instances: Seq<InstanceV>,
    pub data_definitions: Seq<DataDefinitionV>,
}

#[derive(Debug)]
pub struct Module {
    pub name: String,
    pub bindings: Vec<Binding>,
    pub type_declarations: Vec<TypeDeclaration>,
    pub classes: Vec<Class>,
    pub instances: Vec<Instance>,
    pub data_definitions: Vec<DataDefinition>,
}

impl Module {
    pub open spec fn view(&self) -> ModuleV {
        ModuleV {
            name: self.name@,
            bindings: bindings_view(self.bindings@),
            type_declarations: type_declarations_view(self.type_declarations@),
            classes: classes_view(self.classes@),
            instances: instances_view(self.instances@),
            data_definitions: data_definitions_view(self.data_definitions@),
        }
    }
}

} // verus!
