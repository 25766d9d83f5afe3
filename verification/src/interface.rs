//! What a contract exposes, and what registering it would need.
//!
//! Interface inspection runs before any behavioural vector: the host reports a
//! deliberate `panic!()` and a call to a method that does not exist through the same
//! channel, so an abort is only readable as a refusal once the method is known to
//! exist. A compiled artifact's interface is read from its spec section (see
//! [`crate::inspect`]); a fixture declares its interface instead, in the same shape.
use vstd::prelude::*;

use crate::text::{joined, owned, push_str, str_eq, texts, join};
use crate::taxonomy::{ErrorClass, Failure, context_view};

verus! {

/// One parameter of an exposed method.
#[derive(Debug, Clone, PartialEq)]
pub struct ExposedParameter {
    /// The parameter's name, when the artifact names it.
    pub name: Option<String>,
    /// Its type, in the canonical spelling the assertion layer compares against.
    pub type_text: String,
}

/// One method a contract exposes.
#[derive(Debug, Clone, PartialEq)]
pub struct ExposedMethod {
    /// The method's name.
    pub name: String,
    /// Its parameters, in order.
    pub parameters: Vec<ExposedParameter>,
    /// Its return type, canonically spelled; `None` for a void return.
    pub return_type: Option<String>,
    /// Whether the contract declares it read-only.
    pub readonly: bool,
}

/// A method a fixture declares it exposes.
#[derive(Debug, Clone, PartialEq)]
pub struct DeclaredMethod {
    /// The method's name.
    pub name: &'static str,
    /// Parameter type names, in order.
    pub parameters: Vec<&'static str>,
    /// The return type name, or `None` for a void return.
    pub return_type: Option<&'static str>,
    /// Whether the fixture declares it read-only.
    pub readonly: bool,
}

/// What a contract exposes.
#[derive(Debug, Clone, PartialEq)]
pub struct ExposedInterface {
    /// The exposed methods.
    pub methods: Vec<ExposedMethod>,
    /// Where the interface came from.
    pub source: String,
}

/// The name the SDK gives a contract's constructor in its spec section.
pub const CONSTRUCTOR: &'static str = "__constructor";

/// Whether `methods[i]` is the first method named `name`.
pub open spec fn is_first_named(methods: Seq<ExposedMethod>, name: Seq<char>, i: int) -> bool {
    &&& 0 <= i < methods.len()
    &&& methods[i].name@ == name
    &&& forall|j: int| 0 <= j < i ==> (#[trigger] methods[j]).name@ != name
}

/// Whether no method is named `name`.
pub open spec fn none_named(methods: Seq<ExposedMethod>, name: Seq<char>) -> bool {
    forall|j: int| 0 <= j < methods.len() ==> (#[trigger] methods[j]).name@ != name
}

/// How a parameter is spelled in a message: `name: type`, or the type alone.
pub open spec fn spec_parameter_text(parameter: ExposedParameter) -> Seq<char> {
    match parameter.name {
        Some(name) => name@ + ": "@ + parameter.type_text@,
        None => parameter.type_text@,
    }
}

/// Every parameter of a list, spelled as a message spells it.
pub open spec fn spec_parameter_texts(parameters: Seq<ExposedParameter>) -> Seq<Seq<char>> {
    parameters.map_values(|p: ExposedParameter| spec_parameter_text(p))
}

/// The interface a fixture declares, as exposed methods.
pub open spec fn declared_matches(method: ExposedMethod, declared: DeclaredMethod) -> bool {
    &&& method.name@ == declared.name@
    &&& method.parameters@.len() == declared.parameters@.len()
    &&& forall|k: int| 0 <= k < method.parameters@.len() ==> {
        &&& (#[trigger] method.parameters@[k]).name is None
        &&& method.parameters@[k].type_text@ == declared.parameters@[k]@
    }
    &&& match (method.return_type, declared.return_type) {
        (Some(a), Some(b)) => a@ == b@,
        (None, None) => true,
        _ => false,
    }
    &&& method.readonly == declared.readonly
}

fn optional_owned(text: Option<&'static str>) -> (res: Option<String>)
    ensures
        match (res, text) {
            (Some(a), Some(b)) => a@ == b@,
            (None, None) => true,
            _ => false,
        },
{
    match text {
        Some(t) => Some(owned(t)),
        None => None,
    }
}

fn declared_method(method: &DeclaredMethod) -> (res: ExposedMethod)
    ensures
        declared_matches(res, *method),
{
    let mut parameters: Vec<ExposedParameter> = Vec::new();
    let mut k: usize = 0;
    while k < method.parameters.len()
        invariant
            k <= method.parameters@.len(),
            parameters@.len() == k,
            forall|j: int| 0 <= j < k ==> {
                &&& (#[trigger] parameters@[j]).name is None
                &&& parameters@[j].type_text@ == method.parameters@[j]@
            },
        decreases method.parameters@.len() - k,
    {
        parameters.push(ExposedParameter { name: None, type_text: owned(method.parameters[k]) });
        k = k + 1;
    }
    ExposedMethod {
        name: owned(method.name),
        parameters,
        return_type: optional_owned(method.return_type),
        readonly: method.readonly,
    }
}

impl ExposedInterface {
    /// An interface a fixture declares: one exposed method per declared one, in
    /// order, with unnamed parameters.
    pub fn declared(methods: &Vec<DeclaredMethod>, source: String) -> (res: Self)
        ensures
            res.source == source,
            res.methods@.len() == methods@.len(),
            forall|i: int| 0 <= i < methods@.len()
                ==> declared_matches(#[trigger] res.methods@[i], methods@[i]),
    {
        let mut exposed: Vec<ExposedMethod> = Vec::new();
        let mut i: usize = 0;
        while i < methods.len()
            invariant
                i <= methods@.len(),
                exposed@.len() == i,
                forall|j: int| 0 <= j < i ==> declared_matches(#[trigger] exposed@[j], methods@[j]),
            decreases methods@.len() - i,
        {
            exposed.push(declared_method(&methods[i]));
            i = i + 1;
        }
        ExposedInterface { methods: exposed, source }
    }

    /// The first exposed method with this name, if there is one.
    pub fn method(&self, name: &str) -> (res: Option<&ExposedMethod>)
        ensures
            match res {
                Some(m) => exists|i: int| is_first_named(self.methods@, name@, i) && *m == self.methods@[i],
                None => none_named(self.methods@, name@),
            },
    {
        let mut i: usize = 0;
        while i < self.methods.len()
            invariant
                i <= self.methods@.len(),
                forall|j: int| 0 <= j < i ==> (#[trigger] self.methods@[j]).name@ != name@,
            decreases self.methods@.len() - i,
        {
            if str_eq(self.methods[i].name.as_str(), name) {
                proof { assert(is_first_named(self.methods@, name@, i as int)); }
                return Some(&self.methods[i]);
            }
            i = i + 1;
        }
        None
    }

    /// Whether a method of this name is exposed.
    pub fn declares(&self, name: &str) -> (res: bool)
        ensures
            res == !none_named(self.methods@, name@),
    {
        match self.method(name) {
            Some(_) => true,
            None => false,
        }
    }
}

/// The spelling of a constructor's parameters, when registering the artifact would
/// need arguments: `None` when there is no constructor or it takes nothing.
pub open spec fn spec_constructor_needs(interface: ExposedInterface) -> Option<Seq<char>> {
    let methods = interface.methods@;
    if none_named(methods, CONSTRUCTOR@) {
        None
    } else {
        let i = choose|i: int| is_first_named(methods, CONSTRUCTOR@, i);
        let parameters = methods[i].parameters@;
        if parameters.len() == 0 {
            None
        } else {
            Some(joined(spec_parameter_texts(parameters), ", "@))
        }
    }
}

proof fn lemma_first_named_unique(methods: Seq<ExposedMethod>, name: Seq<char>, i: int, k: int)
    requires
        is_first_named(methods, name, i),
        is_first_named(methods, name, k),
    ensures
        i == k,
{
}

fn parameter_text(parameter: &ExposedParameter) -> (res: String)
    ensures
        res@ == spec_parameter_text(*parameter),
{
    match &parameter.name {
        Some(name) => {
            let mut text = name.clone();
            push_str(&mut text, ": ");
            push_str(&mut text, parameter.type_text.as_str());
            text
        },
        None => parameter.type_text.clone(),
    }
}

/// The parameter list of an artifact's constructor, when registering it would need
/// one: `None` when the artifact declares no constructor, or one that takes nothing.
pub fn constructor_needing_arguments(interface: &ExposedInterface) -> (res: Option<String>)
    ensures
        match (res, spec_constructor_needs(*interface)) {
            (Some(a), Some(b)) => a@ == b,
            (None, None) => true,
            _ => false,
        },
{
    let constructor = match interface.method(CONSTRUCTOR) {
        Some(m) => m,
        None => return None,
    };
    proof {
        let i = choose|i: int| is_first_named(interface.methods@, CONSTRUCTOR@, i) && *constructor == interface.methods@[i];
        let c = choose|i: int| is_first_named(interface.methods@, CONSTRUCTOR@, i);
        lemma_first_named_unique(interface.methods@, CONSTRUCTOR@, i, c);
    }
    if constructor.parameters.len() == 0 {
        return None;
    }
    let mut parts: Vec<String> = Vec::new();
    let mut k: usize = 0;
    while k < constructor.parameters.len()
        invariant
            k <= constructor.parameters@.len(),
            texts(parts@) == spec_parameter_texts(constructor.parameters@).take(k as int),
        decreases constructor.parameters@.len() - k,
    {
        let text = parameter_text(&constructor.parameters[k]);
        let ghost before = parts@;
        parts.push(text);
        proof {
            assert(text@ == spec_parameter_text(constructor.parameters@[k as int]));
            assert(texts(parts@) =~= texts(before).push(text@));
            assert(texts(parts@) =~= spec_parameter_texts(constructor.parameters@).take(k as int + 1));
        }
        k = k + 1;
    }
    proof {
        assert(spec_parameter_texts(constructor.parameters@).take(k as int) =~= spec_parameter_texts(constructor.parameters@));
    }
    Some(join(&parts, ", "))
}

/// The refusal of an artifact whose constructor needs arguments.
pub open spec fn constructor_refusal_message(describe: Seq<char>, constructor: Seq<char>) -> Seq<char> {
    describe + " declares a constructor taking "@ + constructor
        + ", and a constructor can only be run by whoever deployed the contract: only the deployer knew what to pass it. The runner will not invent arguments, because doing so would fabricate the very state the vectors are then measured against. No instance can be created locally, so nothing about this contract's behaviour was observed"@
}

/// Whether an artifact with `interface`, described as `describe`, can be registered in
/// a local host: refused as a resolution failure when its constructor needs arguments,
/// since only its deployer knew what to pass.
pub fn check_registrable(interface: &ExposedInterface, describe: &str) -> (res: Result<(), Failure>)
    ensures
        match spec_constructor_needs(*interface) {
            None => res is Ok,
            Some(constructor) => res matches Err(f) && f.class == ErrorClass::ContractResolutionError
                && f.message@ == constructor_refusal_message(describe@, constructor)
                && context_view(f.context@) == seq![("reason"@, "constructor-needs-arguments"@), ("constructor"@, CONSTRUCTOR@)],
        },
{
    match constructor_needing_arguments(interface) {
        None => Ok(()),
        Some(constructor) => {
            let mut message = owned(describe);
            push_str(&mut message, " declares a constructor taking ");
            push_str(&mut message, constructor.as_str());
            push_str(&mut message, ", and a constructor can only be run by whoever deployed the contract: only the deployer knew what to pass it. The runner will not invent arguments, because doing so would fabricate the very state the vectors are then measured against. No instance can be created locally, so nothing about this contract's behaviour was observed");
            let failure = Failure::new(ErrorClass::ContractResolutionError, message)
                .with_context("reason", owned("constructor-needs-arguments"))
                .with_context("constructor", owned(CONSTRUCTOR));
            proof {
                assert(context_view(failure.context@) =~= seq![("reason"@, "constructor-needs-arguments"@), ("constructor"@, CONSTRUCTOR@)]);
            }
            Err(failure)
        },
    }
}

} // verus!
