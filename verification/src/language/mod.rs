//! Syntax features of the language that a configuration can name.

use vstd::prelude::*;

verus! {

/// A syntax feature of the language, or a rule that forbids one.
#[derive(Debug, Clone, Copy, PartialEq, Eq, Structural)]
pub enum TypeScriptFeature {
    /// Type annotations.
    TypeAnnotations,
    /// Interfaces.
    Interfaces,
    /// Generics.
    Generics,
    /// Enums.
    Enums,
    /// Namespaces.
    Namespaces,
    /// Decorators.
    Decorators,
    /// Async await.
    AsyncAwait,
    /// Optional chaining.
    OptionalChaining,
    /// Nullish coalescing.
    NullishCoalescing,
    /// Template literal types.
    TemplateLiteralTypes,
    /// Mapped types.
    MappedTypes,
    /// Conditional types.
    ConditionalTypes,
    /// Type aliases.
    TypeAliases,
    /// Union types.
    UnionTypes,
    /// Intersection types.
    IntersectionTypes,
    /// Literal types.
    LiteralTypes,
    /// Tuple types.
    TupleTypes,
    /// Function types.
    FunctionTypes,
    /// Object types.
    ObjectTypes,
    /// Array types.
    ArrayTypes,
    /// Indexed access types.
    IndexedAccessTypes,
    /// Keyof types.
    KeyofTypes,
    /// Typeof types.
    TypeofTypes,
    /// Inferred types.
    InferredTypes,
    /// Recursive types.
    RecursiveTypes,
    /// Generic constraints.
    GenericConstraints,
    /// Type parameter defaults.
    TypeParameterDefaults,
    /// Rest type parameters.
    RestTypeParameters,
    /// Optional type parameters.
    OptionalTypeParameters,
    /// Overloaded function types.
    OverloadedFunctionTypes,
    /// Constructor types.
    ConstructorTypes,
    /// Access modifiers.
    AccessModifiers,
    /// Static members.
    StaticMembers,
    /// Abstract classes.
    AbstractClasses,
    /// Inheritance.
    Inheritance,
    /// Interface implementation.
    InterfaceImplementation,
    /// Module system.
    ModuleSystem,
    /// Es modules.
    EsModules,
    /// Common js modules.
    CommonJsModules,
    /// External module declarations.
    ExternalModuleDeclarations,
    /// Triple slash directives.
    TripleSlashDirectives,
    /// Js doc comments.
    JsDocComments,
    /// Strict mode.
    StrictMode,
    /// Strict null checks.
    StrictNullChecks,
    /// Strict function types.
    StrictFunctionTypes,
    /// Strict bind call apply.
    StrictBindCallApply,
    /// Strict property initialization.
    StrictPropertyInitialization,
    /// No implicit any.
    NoImplicitAny,
    /// No implicit this.
    NoImplicitThis,
    /// Always strict.
    AlwaysStrict,
    /// No unused variables.
    NoUnusedVariables,
    /// No unused parameters.
    NoUnusedParameters,
    /// No empty functions.
    NoEmptyFunctions,
    /// No empty interfaces.
    NoEmptyInterfaces,
    /// No duplicate imports.
    NoDuplicateImports,
    /// No duplicate class members.
    NoDuplicateClassMembers,
    /// No duplicate parameters.
    NoDuplicateParameters,
    /// No duplicate case labels.
    NoDuplicateCaseLabels,
    /// No unreachable code.
    NoUnreachableCode,
    /// No implicit returns.
    NoImplicitReturns,
    /// No implicit coercion.
    NoImplicitCoercion,
    /// No eval.
    NoEval,
    /// No with.
    NoWith,
    /// No arguments.
    NoArguments,
    /// No delete.
    NoDelete,
    /// No void.
    NoVoid,
    /// No undefined.
    NoUndefined,
    /// No null.
    NoNull,
    /// No any.
    NoAny,
    /// No never.
    NoNever,
    /// No object.
    NoObject,
    /// No unknown.
    NoUnknown,
    /// No symbol.
    NoSymbol,
    /// No big int.
    NoBigInt,
    /// No number.
    NoNumber,
    /// No string.
    NoString,
    /// No boolean.
    NoBoolean,
    /// No array.
    NoArray,
    /// No tuple.
    NoTuple,
    /// No enum.
    NoEnum,
    /// No interface.
    NoInterface,
    /// No type.
    NoType,
    /// No class.
    NoClass,
    /// No function.
    NoFunction,
    /// No const.
    NoConst,
    /// No let.
    NoLet,
    /// No var.
    NoVar,
    /// No async.
    NoAsync,
    /// No await.
    NoAwait,
    /// No yield.
    NoYield,
    /// No return.
    NoReturn,
    /// No throw.
    NoThrow,
    /// No try.
    NoTry,
    /// No catch.
    NoCatch,
    /// No finally.
    NoFinally,
    /// No if.
    NoIf,
    /// No else.
    NoElse,
    /// No switch.
    NoSwitch,
    /// No case.
    NoCase,
    /// No default.
    NoDefault,
    /// No for.
    NoFor,
    /// No while.
    NoWhile,
    /// No do.
    NoDo,
    /// No break.
    NoBreak,
    /// No continue.
    NoContinue,
    /// No with statement.
    NoWithStatement,
    /// No debugger.
    NoDebugger,
    /// No import.
    NoImport,
    /// No export.
    NoExport,
    /// No from.
    NoFrom,
    /// No as.
    NoAs,
    /// No in.
    NoIn,
    /// No instance of.
    NoInstanceOf,
    /// No new.
    NoNew,
    /// No this.
    NoThis,
    /// No super.
    NoSuper,
    /// No static.
    NoStatic,
    /// No public.
    NoPublic,
    /// No private.
    NoPrivate,
    /// No protected.
    NoProtected,
    /// No abstract.
    NoAbstract,
    /// No readonly.
    NoReadonly,
    /// No optional.
    NoOptional,
    /// No rest.
    NoRest,
    /// No spread.
    NoSpread,
    /// No destructuring.
    NoDestructuring,
    /// No arrow functions.
    NoArrowFunctions,
    /// No generator functions.
    NoGeneratorFunctions,
    /// No async functions.
    NoAsyncFunctions,
    /// No method syntax.
    NoMethodSyntax,
    /// No computed properties.
    NoComputedProperties,
    /// No shorthand properties.
    NoShorthandProperties,
    /// No rest properties.
    NoRestProperties,
    /// No spread properties.
    NoSpreadProperties,
    /// No template literals.
    NoTemplateLiterals,
    /// No regex literals.
    NoRegexLiterals,
    /// No numeric literals.
    NoNumericLiterals,
    /// No string literals.
    NoStringLiterals,
    /// No boolean literals.
    NoBooleanLiterals,
    /// No null literals.
    NoNullLiterals,
    /// No undefined literals.
    NoUndefinedLiterals,
    /// No big int literals.
    NoBigIntLiterals,
    /// No symbol literals.
    NoSymbolLiterals,
    /// No object literals.
    NoObjectLiterals,
    /// No array literals.
    NoArrayLiterals,
    /// No function literals.
    NoFunctionLiterals,
    /// No class literals.
    NoClassLiterals,
    /// No namespace literals.
    NoNamespaceLiterals,
    /// No module literals.
    NoModuleLiterals,
    /// No enum literals.
    NoEnumLiterals,
    /// No type literals.
    NoTypeLiterals,
    /// No interface literals.
    NoInterfaceLiterals,
    /// No union literals.
    NoUnionLiterals,
    /// No intersection literals.
    NoIntersectionLiterals,
    /// No literal types.
    NoLiteralTypes,
    /// No tuple types.
    NoTupleTypes,
    /// No function types.
    NoFunctionTypes,
    /// No object types.
    NoObjectTypes,
    /// No array types.
    NoArrayTypes,
    /// No indexed access types.
    NoIndexedAccessTypes,
    /// No keyof types.
    NoKeyofTypes,
    /// No typeof types.
    NoTypeofTypes,
    /// No inferred types.
    NoInferredTypes,
    /// No recursive types.
    NoRecursiveTypes,
    /// No generic constraints.
    NoGenericConstraints,
    /// No type parameter defaults.
    NoTypeParameterDefaults,
    /// No rest type parameters.
    NoRestTypeParameters,
    /// No optional type parameters.
    NoOptionalTypeParameters,
    /// No overloaded function types.
    NoOverloadedFunctionTypes,
    /// No constructor types.
    NoConstructorTypes,
    /// No access modifiers.
    NoAccessModifiers,
    /// No static members.
    NoStaticMembers,
    /// No abstract classes.
    NoAbstractClasses,
    /// No inheritance.
    NoInheritance,
    /// No interface implementation.
    NoInterfaceImplementation,
    /// No module system.
    NoModuleSystem,
    /// No es modules.
    NoEsModules,
    /// No common js modules.
    NoCommonJsModules,
    /// No external module declarations.
    NoExternalModuleDeclarations,
    /// No triple slash directives.
    NoTripleSlashDirectives,
    /// No js doc comments.
    NoJsDocComments,
    /// No strict mode.
    NoStrictMode,
    /// No strict null checks.
    NoStrictNullChecks,
    /// No strict function types.
    NoStrictFunctionTypes,
    /// No strict bind call apply.
    NoStrictBindCallApply,
    /// No strict property initialization.
    NoStrictPropertyInitialization,
    /// No no implicit any.
    NoNoImplicitAny,
    /// No no implicit this.
    NoNoImplicitThis,
    /// No always strict.
    NoAlwaysStrict,
    /// No no unused variables.
    NoNoUnusedVariables,
    /// No no unused parameters.
    NoNoUnusedParameters,
    /// No no empty functions.
    NoNoEmptyFunctions,
    /// No no empty interfaces.
    NoNoEmptyInterfaces,
    /// No no duplicate imports.
    NoNoDuplicateImports,
    /// No no duplicate class members.
    NoNoDuplicateClassMembers,
    /// No no duplicate parameters.
    NoNoDuplicateParameters,
    /// No no duplicate case labels.
    NoNoDuplicateCaseLabels,
    /// No no unreachable code.
    NoNoUnreachableCode,
    /// No no implicit returns.
    NoNoImplicitReturns,
    /// No no implicit coercion.
    NoNoImplicitCoercion,
    /// No no eval.
    NoNoEval,
    /// No no with.
    NoNoWith,
    /// No no arguments.
    NoNoArguments,
    /// No no delete.
    NoNoDelete,
    /// No no void.
    NoNoVoid,
    /// No no undefined.
    NoNoUndefined,
    /// No no null.
    NoNoNull,
    /// No no any.
    NoNoAny,
    /// No no never.
    NoNoNever,
    /// No no object.
    NoNoObject,
    /// No no unknown.
    NoNoUnknown,
    /// No no symbol.
    NoNoSymbol,
    /// No no big int.
    NoNoBigInt,
    /// No no number.
    NoNoNumber,
    /// No no string.
    NoNoString,
    /// No no boolean.
    NoNoBoolean,
    /// No no array.
    NoNoArray,
    /// No no tuple.
    NoNoTuple,
    /// No no enum.
    NoNoEnum,
    /// No no interface.
    NoNoInterface,
    /// No no type.
    NoNoType,
    /// No no class.
    NoNoClass,
    /// No no function.
    NoNoFunction,
    /// No no const.
    NoNoConst,
    /// No no let.
    NoNoLet,
    /// No no var.
    NoNoVar,
    /// No no async.
    NoNoAsync,
    /// No no await.
    NoNoAwait,
    /// No no yield.
    NoNoYield,
    /// No no return.
    NoNoReturn,
    /// No no throw.
    NoNoThrow,
    /// No no try.
    NoNoTry,
    /// No no catch.
    NoNoCatch,
    /// No no finally.
    NoNoFinally,
    /// No no if.
    NoNoIf,
    /// No no else.
    NoNoElse,
    /// No no switch.
    NoNoSwitch,
    /// No no case.
    NoNoCase,
    /// No no default.
    NoNoDefault,
    /// No no for.
    NoNoFor,
    /// No no while.
    NoNoWhile,
    /// No no do.
    NoNoDo,
    /// No no break.
    NoNoBreak,
    /// No no continue.
    NoNoContinue,
    /// No no with statement.
    NoNoWithStatement,
    /// No no debugger.
    NoNoDebugger,
    /// No no import.
    NoNoImport,
    /// No no export.
    NoNoExport,
    /// No no from.
    NoNoFrom,
    /// No no as.
    NoNoAs,
    /// No no in.
    NoNoIn,
    /// No no instance of.
    NoNoInstanceOf,
    /// No no new.
    NoNoNew,
    /// No no this.
    NoNoThis,
    /// No no super.
    NoNoSuper,
    /// No no static.
    NoNoStatic,
    /// No no public.
    NoNoPublic,
    /// No no private.
    NoNoPrivate,
    /// No no protected.
    NoNoProtected,
    /// No no abstract.
    NoNoAbstract,
    /// No no readonly.
    NoNoReadonly,
    /// No no optional.
    NoNoOptional,
    /// No no rest.
    NoNoRest,
    /// No no spread.
    NoNoSpread,
    /// No no destructuring.
    NoNoDestructuring,
    /// No no arrow functions.
    NoNoArrowFunctions,
    /// No no generator functions.
    NoNoGeneratorFunctions,
    /// No no async functions.
    NoNoAsyncFunctions,
    /// No no method syntax.
    NoNoMethodSyntax,
    /// No no computed properties.
    NoNoComputedProperties,
    /// No no shorthand properties.
    NoNoShorthandProperties,
    /// No no rest properties.
    NoNoRestProperties,
    /// No no spread properties.
    NoNoSpreadProperties,
    /// No no template literals.
    NoNoTemplateLiterals,
    /// No no regex literals.
    NoNoRegexLiterals,
    /// No no numeric literals.
    NoNoNumericLiterals,
    /// No no string literals.
    NoNoStringLiterals,
    /// No no boolean literals.
    NoNoBooleanLiterals,
    /// No no null literals.
    NoNoNullLiterals,
    /// No no undefined literals.
    NoNoUndefinedLiterals,
    /// No no big int literals.
    NoNoBigIntLiterals,
    /// No no symbol literals.
    NoNoSymbolLiterals,
    /// No no object literals.
    NoNoObjectLiterals,
    /// No no array literals.
    NoNoArrayLiterals,
    /// No no function literals.
    NoNoFunctionLiterals,
    /// No no class literals.
    NoNoClassLiterals,
    /// No no namespace literals.
    NoNoNamespaceLiterals,
    /// No no module literals.
    NoNoModuleLiterals,
    /// No no enum literals.
    NoNoEnumLiterals,
    /// No no type literals.
    NoNoTypeLiterals,
    /// No no interface literals.
    NoNoInterfaceLiterals,
    /// No no union literals.
    NoNoUnionLiterals,
    /// No no intersection literals.
    NoNoIntersectionLiterals,
    /// No no literal types.
    NoNoLiteralTypes,
    /// No no tuple types.
    NoNoTupleTypes,
    /// No no function types.
    NoNoFunctionTypes,
    /// No no object types.
    NoNoObjectTypes,
    /// No no array types.
    NoNoArrayTypes,
    /// No no indexed access types.
    NoNoIndexedAccessTypes,
    /// No no keyof types.
    NoNoKeyofTypes,
    /// No no typeof types.
    NoNoTypeofTypes,
    /// No no inferred types.
    NoNoInferredTypes,
    /// No no recursive types.
    NoNoRecursiveTypes,
    /// No no generic constraints.
    NoNoGenericConstraints,
    /// No no type parameter defaults.
    NoNoTypeParameterDefaults,
    /// No no rest type parameters.
    NoNoRestTypeParameters,
    /// No no optional type parameters.
    NoNoOptionalTypeParameters,
    /// No no overloaded function types.
    NoNoOverloadedFunctionTypes,
    /// No no constructor types.
    NoNoConstructorTypes,
    /// No no access modifiers.
    NoNoAccessModifiers,
    /// No no static members.
    NoNoStaticMembers,
    /// No no abstract classes.
    NoNoAbstractClasses,
    /// No no inheritance.
    NoNoInheritance,
    /// No no interface implementation.
    NoNoInterfaceImplementation,
    /// No no module system.
    NoNoModuleSystem,
    /// No no es modules.
    NoNoEsModules,
    /// No no common js modules.
    NoNoCommonJsModules,
    /// No no external module declarations.
    NoNoExternalModuleDeclarations,
    /// No no triple slash directives.
    NoNoTripleSlashDirectives,
    /// No no js doc comments.
    NoNoJsDocComments,
}

} // verus!
