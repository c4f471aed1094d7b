//! Shared interfaces: what an annotated trait is expanded to, planned over plain values.
//! The tokens themselves are written around the plan.

use vstd::prelude::*;
use vstd::string::*;
use crate::naming::{pascal_case, snake_case, spec_pascal_case, spec_snake_case, texts_of};
use crate::text::{joined, same_text};

verus! {

/// The value of one argument of the attribute.
pub enum ArgumentValue {
    /// A path; the identifier, where it is one.
    Path(Option<String>),
    /// A string literal.
    Text(String),
    /// Another literal.
    Literal,
    /// Any other expression.
    Expression,
}

/// One argument of the attribute, `key = value`. The key is nothing where it is no plain
/// identifier.
pub struct Argument {
    pub key: Option<String>,
    pub value: ArgumentValue,
}

/// What an argument's value holds.
pub enum ValueModel {
    Path(Option<Seq<char>>),
    Text(Seq<char>),
    Literal,
    Expression,
}

/// What an argument is about.
#[derive(Clone, Copy, Debug, PartialEq, Eq, Structural)]
pub enum Key {
    Spec,
    Kind,
    Snapshot,
    Unknown,
}

/// What an argument's key is about.
pub open spec fn spec_key(key: Option<String>) -> Key {
    match key {
        Some(key) => if key@ == "spec"@ {
            Key::Spec
        } else if key@ == "type_name"@ {
            Key::Kind
        } else if key@ == "snapshot"@ {
            Key::Snapshot
        } else {
            Key::Unknown
        },
        None => Key::Unknown,
    }
}

/// What an argument's value holds.
pub open spec fn value_model(value: ArgumentValue) -> ValueModel {
    match value {
        ArgumentValue::Path(Some(name)) => ValueModel::Path(Some(name@)),
        ArgumentValue::Path(None) => ValueModel::Path(None),
        ArgumentValue::Text(text) => ValueModel::Text(text@),
        ArgumentValue::Literal => ValueModel::Literal,
        ArgumentValue::Expression => ValueModel::Expression,
    }
}

/// What an argument says.
pub struct ArgumentModel {
    pub key: Key,
    pub value: ValueModel,
}

/// What an argument says.
pub open spec fn argument_model(argument: Argument) -> ArgumentModel {
    ArgumentModel { key: spec_key(argument.key), value: value_model(argument.value) }
}

/// Whether an argument is one of those that are expected: the spec is a path, the name a
/// literal, and the snapshot anything. A path that is no identifier and a literal that is no
/// string are let pass, and say nothing.
pub open spec fn is_expected(argument: ArgumentModel) -> bool {
    match argument.key {
        Key::Spec => argument.value is Path,
        Key::Kind => argument.value is Text || argument.value is Literal,
        Key::Snapshot => true,
        Key::Unknown => false,
    }
}

/// Whether every argument is expected.
pub open spec fn all_expected(arguments: Seq<ArgumentModel>) -> bool {
    forall|i: int| 0 <= i < arguments.len() ==> is_expected(#[trigger] arguments[i])
}

/// Whether `at` is the first argument that is not expected.
pub open spec fn is_first_unexpected(arguments: Seq<ArgumentModel>, at: int) -> bool {
    &&& 0 <= at < arguments.len()
    &&& !is_expected(arguments[at])
    &&& all_expected(arguments.take(at))
}

/// The spec's identifier: what the last argument about it says, if that is an identifier.
pub open spec fn spec_named(arguments: Seq<ArgumentModel>) -> Option<Seq<char>>
    decreases arguments.len(),
{
    if arguments.len() == 0 {
        None
    } else if arguments.last().key is Spec {
        arguments.last().value->Path_0
    } else {
        spec_named(arguments.drop_last())
    }
}

/// The interface's name: the text of the last argument that gives one.
pub open spec fn kind_named(arguments: Seq<ArgumentModel>) -> Option<Seq<char>>
    decreases arguments.len(),
{
    if arguments.len() == 0 {
        None
    } else if arguments.last().key is Kind && arguments.last().value is Text {
        Some(arguments.last().value->Text_0)
    } else {
        kind_named(arguments.drop_last())
    }
}

/// Which argument gives the snapshot: the last one about it.
pub open spec fn snapshot_at(arguments: Seq<ArgumentModel>) -> Option<nat>
    decreases arguments.len(),
{
    if arguments.len() == 0 {
        None
    } else if arguments.last().key is Snapshot {
        Some((arguments.len() - 1) as nat)
    } else {
        snapshot_at(arguments.drop_last())
    }
}

/// One parameter of a method.
pub enum Parameter {
    /// The receiver: whether it is taken by reference, and whether it is `mut`.
    Receiver { reference: bool, mutable: bool },
    /// A parameter that is a plain identifier.
    Named { name: String },
    /// A parameter that is any other pattern.
    Pattern,
}

/// What a parameter holds.
pub enum ParameterModel {
    Receiver { reference: bool, mutable: bool },
    Named { name: Seq<char> },
    Pattern,
}

/// What a parameter holds.
pub open spec fn parameter_model(parameter: Parameter) -> ParameterModel {
    match parameter {
        Parameter::Receiver { reference, mutable } => ParameterModel::Receiver {
            reference,
            mutable,
        },
        Parameter::Named { name } => ParameterModel::Named { name: name@ },
        Parameter::Pattern => ParameterModel::Pattern,
    }
}

/// A method as it is declared.
pub struct Signature {
    pub name: String,
    pub is_async: bool,
    pub parameters: Vec<Parameter>,
}

/// What a signature holds.
pub struct SignatureModel {
    pub name: Seq<char>,
    pub is_async: bool,
    pub parameters: Seq<ParameterModel>,
}

/// What a signature holds.
pub open spec fn signature_model(signature: Signature) -> SignatureModel {
    SignatureModel {
        name: signature.name@,
        is_async: signature.is_async,
        parameters: signature.parameters@.map_values(
            |parameter: Parameter| parameter_model(parameter),
        ),
    }
}

/// One item of the trait.
pub enum TraitItem {
    Function(Signature),
    Other,
}

/// What an item of the trait holds: nothing but for methods.
pub open spec fn item_model(item: TraitItem) -> Option<SignatureModel> {
    match item {
        TraitItem::Function(signature) => Some(signature_model(signature)),
        TraitItem::Other => None,
    }
}

/// What is wrong with an annotated trait.
#[derive(Clone, Copy, Debug, PartialEq, Eq, Structural)]
pub enum Fault {
    UnexpectedArgument,
    MissingSpec,
    MissingName,
    MissingSnapshot,
    AsyncMethod,
    NoReceiver,
    NoContext,
    UnexpectedReceiver,
    NoIdentifier,
}

/// Where it is wrong.
#[derive(Clone, Copy, Debug, PartialEq, Eq, Structural)]
pub enum Place {
    /// The arguments as a whole.
    Arguments,
    /// One argument.
    Argument(usize),
    /// The signature of an item.
    Signature(usize),
    /// A parameter of an item's method, counted from the receiver.
    Parameter(usize, usize),
    /// The pattern of a parameter.
    Pattern(usize, usize),
}

/// Something that is wrong with an annotated trait.
#[derive(Clone, Copy, Debug, PartialEq, Eq, Structural)]
pub struct PlanError {
    pub fault: Fault,
    pub place: Place,
}

impl Fault {
    /// What the author of the trait is told.
    pub open spec fn spec_message(self) -> Seq<char> {
        match self {
            Fault::UnexpectedArgument =>
                "expected `spec = Ident`, `type_name = \"...\"`, or `snapshot = Type`"@,
            Fault::MissingSpec => "missing `spec = Ident`"@,
            Fault::MissingName => "missing `type_name = \"...\"`"@,
            Fault::MissingSnapshot => "missing `snapshot = Type`"@,
            Fault::AsyncMethod =>
                "async methods are not supported; register with Methods::on_async instead"@,
            Fault::NoReceiver => "shared interface methods take `&mut self`"@,
            Fault::NoContext => "shared interface methods end with `cx: &mut Context<Self>`"@,
            Fault::UnexpectedReceiver => "unexpected receiver"@,
            Fault::NoIdentifier => "message parameters must be plain identifiers"@,
        }
    }

    /// What the author of the trait is told.
    pub fn message(self) -> (message: String)
        ensures
            message@ == self.spec_message(),
    {
        match self {
            Fault::UnexpectedArgument =>
                "expected `spec = Ident`, `type_name = \"...\"`, or `snapshot = Type`".to_owned(),
            Fault::MissingSpec => "missing `spec = Ident`".to_owned(),
            Fault::MissingName => "missing `type_name = \"...\"`".to_owned(),
            Fault::MissingSnapshot => "missing `snapshot = Type`".to_owned(),
            Fault::AsyncMethod =>
                "async methods are not supported; register with Methods::on_async instead".to_owned(),
            Fault::NoReceiver => "shared interface methods take `&mut self`".to_owned(),
            Fault::NoContext =>
                "shared interface methods end with `cx: &mut Context<Self>`".to_owned(),
            Fault::UnexpectedReceiver => "unexpected receiver".to_owned(),
            Fault::NoIdentifier => "message parameters must be plain identifiers".to_owned(),
        }
    }
}

/// Whether the parameters from the second to this one are plain identifiers.
pub open spec fn named_up_to(parameters: Seq<ParameterModel>, end: int) -> bool {
    forall|i: int| 1 <= i < end ==> (#[trigger] parameters[i]) is Named
}

/// The receiver a method takes, `&mut self`.
pub open spec fn mutable_self() -> ParameterModel {
    ParameterModel::Receiver { reference: true, mutable: true }
}

/// Whether a method begins with a receiver it can change, and ends with a context; the
/// parameters between them are the fields of its message.
pub open spec fn is_sound(signature: SignatureModel) -> bool {
    &&& !signature.is_async
    &&& signature.parameters.len() >= 2
    &&& signature.parameters[0] == mutable_self()
    &&& named_up_to(signature.parameters, signature.parameters.len() - 1)
}

/// Whether `error` is the first thing that is wrong with the method at `item`.
pub open spec fn is_method_error(
    signature: SignatureModel,
    item: usize,
    error: PlanError,
) -> bool {
    let parameters = signature.parameters;
    match error.place {
        Place::Signature(at) => at == item && if signature.is_async {
            error.fault == Fault::AsyncMethod
        } else {
            &&& error.fault == Fault::NoContext
            &&& parameters.len() == 1
            &&& parameters[0] == mutable_self()
        },
        Place::Parameter(at, index) => at == item && !signature.is_async && if index == 0 {
            &&& error.fault == Fault::NoReceiver
            &&& parameters.len() == 0 || parameters[0] != mutable_self()
        } else {
            &&& error.fault == Fault::UnexpectedReceiver
            &&& parameters[0] == mutable_self()
            &&& index < parameters.len() - 1
            &&& parameters[index as int] is Receiver
            &&& named_up_to(parameters, index as int)
        },
        Place::Pattern(at, index) => {
            &&& at == item
            &&& !signature.is_async
            &&& error.fault == Fault::NoIdentifier
            &&& 1 <= index < parameters.len() - 1
            &&& parameters[0] == mutable_self()
            &&& parameters[index as int] is Pattern
            &&& named_up_to(parameters, index as int)
        },
        Place::Arguments => false,
        Place::Argument(_) => false,
    }
}

/// A method of the interface.
pub struct Method {
    /// Which item of the trait it is.
    pub item: usize,
    /// Its name, which it is called by over the wire.
    pub name: String,
    /// The message it takes.
    pub message: String,
    /// The fields of the message, each from the parameter one further on.
    pub fields: Vec<String>,
}

/// What a method of the interface holds.
#[verifier::ext_equal]
pub struct MethodModel {
    pub item: nat,
    pub name: Seq<char>,
    pub message: Seq<char>,
    pub fields: Seq<Seq<char>>,
}

impl View for Method {
    type V = MethodModel;

    open spec fn view(&self) -> MethodModel {
        MethodModel {
            item: self.item as nat,
            name: self.name@,
            message: self.message@,
            fields: texts_of(self.fields@),
        }
    }
}

/// The method a signature makes.
pub open spec fn planned(signature: SignatureModel, item: nat) -> MethodModel {
    MethodModel {
        item,
        name: signature.name,
        message: spec_pascal_case(signature.name),
        fields: signature.parameters.subrange(1, signature.parameters.len() - 1).map_values(
            |parameter: ParameterModel| parameter->name,
        ),
    }
}

/// Whether every method among some items is sound.
pub open spec fn all_sound(items: Seq<Option<SignatureModel>>) -> bool {
    forall|i: int| 0 <= i < items.len() && (#[trigger] items[i]) is Some ==> is_sound(items[i]->0)
}

/// The methods some items make, in order.
pub open spec fn planned_methods(items: Seq<Option<SignatureModel>>) -> Seq<MethodModel>
    decreases items.len(),
{
    if items.len() == 0 {
        Seq::empty()
    } else {
        let before = planned_methods(items.drop_last());
        match items.last() {
            Some(signature) => before.push(planned(signature, (items.len() - 1) as nat)),
            None => before,
        }
    }
}

/// What an annotated trait is expanded to.
pub struct Plan {
    /// The identifier of the interface's type.
    pub spec: String,
    /// The name of the interface.
    pub kind: String,
    /// Which argument gives the snapshot's type.
    pub snapshot: usize,
    /// The methods, in order.
    pub methods: Vec<Method>,
    /// The trait that calls it.
    pub caller: String,
    /// The function that registers its methods.
    pub register: String,
    /// What the caller trait's documentation says.
    pub caller_doc: String,
    /// What the registering function's documentation says.
    pub register_doc: String,
}

/// What a plan holds.
#[verifier::ext_equal]
pub struct PlanModel {
    pub spec: Seq<char>,
    pub kind: Seq<char>,
    pub snapshot: nat,
    pub methods: Seq<MethodModel>,
    pub caller: Seq<char>,
    pub register: Seq<char>,
    pub caller_doc: Seq<char>,
    pub register_doc: Seq<char>,
}

/// What some methods hold, in order.
pub open spec fn method_models(methods: Seq<Method>) -> Seq<MethodModel> {
    methods.map_values(|method: Method| method@)
}

impl View for Plan {
    type V = PlanModel;

    open spec fn view(&self) -> PlanModel {
        PlanModel {
            spec: self.spec@,
            kind: self.kind@,
            snapshot: self.snapshot as nat,
            methods: method_models(self.methods@),
            caller: self.caller@,
            register: self.register@,
            caller_doc: self.caller_doc@,
            register_doc: self.register_doc@,
        }
    }
}

/// The plan for a trait whose arguments are complete and whose methods are sound.
pub open spec fn plan_model(
    trait_name: Seq<char>,
    arguments: Seq<ArgumentModel>,
    items: Seq<Option<SignatureModel>>,
) -> PlanModel {
    PlanModel {
        spec: spec_named(arguments)->0,
        kind: kind_named(arguments)->0,
        snapshot: snapshot_at(arguments)->0,
        methods: planned_methods(items),
        caller: trait_name + "Caller"@,
        register: "register_"@ + spec_snake_case(trait_name),
        caller_doc: "Typed calls to a shared `"@ + spec_named(arguments)->0
            + "` entity, for any holder of a capability to one ([`SharedCaller`](embedded_gpui::SharedCaller)): guest `Remote` and host `HostRemote` alike."@,
        register_doc: "Installs the `"@ + trait_name
            + "` methods of `T` into a shared entity's dispatch table."@,
    }
}

/// Whether `error` is the first thing that is wrong: with the arguments, one by one and
/// then as a whole, and then with the methods in order.
pub open spec fn is_plan_error(
    arguments: Seq<ArgumentModel>,
    items: Seq<Option<SignatureModel>>,
    error: PlanError,
) -> bool {
    match error.place {
        Place::Argument(at) => error.fault == Fault::UnexpectedArgument && is_first_unexpected(
            arguments,
            at as int,
        ),
        Place::Arguments => {
            &&& all_expected(arguments)
            &&& match error.fault {
                Fault::MissingSpec => spec_named(arguments) is None,
                Fault::MissingName => spec_named(arguments) is Some && kind_named(
                    arguments,
                ) is None,
                Fault::MissingSnapshot => spec_named(arguments) is Some && kind_named(
                    arguments,
                ) is Some && snapshot_at(arguments) is None,
                _ => false,
            }
        },
        Place::Signature(item) => is_item_error(arguments, items, item, error),
        Place::Parameter(item, _) => is_item_error(arguments, items, item, error),
        Place::Pattern(item, _) => is_item_error(arguments, items, item, error),
    }
}

/// Whether `error` is the first thing that is wrong with the first method that is not sound.
pub open spec fn is_item_error(
    arguments: Seq<ArgumentModel>,
    items: Seq<Option<SignatureModel>>,
    item: usize,
    error: PlanError,
) -> bool {
    &&& is_complete(arguments)
    &&& item < items.len()
    &&& items[item as int] is Some
    &&& is_method_error(items[item as int]->0, item, error)
    &&& all_sound(items.take(item as int))
}

/// Whether the arguments are all expected, and say everything.
pub open spec fn is_complete(arguments: Seq<ArgumentModel>) -> bool {
    &&& all_expected(arguments)
    &&& spec_named(arguments) is Some
    &&& kind_named(arguments) is Some
    &&& snapshot_at(arguments) is Some
}

/// What some arguments say, in order.
pub open spec fn argument_models(arguments: Seq<Argument>) -> Seq<ArgumentModel> {
    arguments.map_values(|argument: Argument| argument_model(argument))
}

/// What some items hold, in order.
pub open spec fn item_models(items: Seq<TraitItem>) -> Seq<Option<SignatureModel>> {
    items.map_values(|item: TraitItem| item_model(item))
}

fn key_of(key: &Option<String>) -> (about: Key)
    ensures
        about == spec_key(*key),
{
    match key {
        Some(key) => {
            if same_text(key.as_str(), "spec") {
                Key::Spec
            } else if same_text(key.as_str(), "type_name") {
                Key::Kind
            } else if same_text(key.as_str(), "snapshot") {
                Key::Snapshot
            } else {
                Key::Unknown
            }
        },
        None => Key::Unknown,
    }
}

fn method_error(signature: &Signature, item: usize) -> (error: Option<PlanError>)
    ensures
        match error {
            Some(error) => is_method_error(signature_model(*signature), item, error),
            None => is_sound(signature_model(*signature)),
        },
{
    let ghost model = signature_model(*signature);
    if signature.is_async {
        return Some(PlanError { fault: Fault::AsyncMethod, place: Place::Signature(item) });
    }
    let parameters: &Vec<Parameter> = &signature.parameters;
    let received = parameters.len() > 0 && match &parameters[0] {
        Parameter::Receiver { reference, mutable } => *reference && *mutable,
        _ => false,
    };
    if !received {
        return Some(PlanError { fault: Fault::NoReceiver, place: Place::Parameter(item, 0) });
    }
    if parameters.len() == 1 {
        return Some(PlanError { fault: Fault::NoContext, place: Place::Signature(item) });
    }
    let mut i: usize = 1;
    while i < parameters.len() - 1
        invariant
            !signature.is_async,
            model == signature_model(*signature),
            parameters@ == signature.parameters@,
            1 <= i <= parameters.len() - 1,
            model.parameters[0] == mutable_self(),
            named_up_to(model.parameters, i as int),
        decreases parameters.len() - i,
    {
        assert(model.parameters[i as int] == parameter_model(parameters@[i as int]));
        match &parameters[i] {
            Parameter::Named { .. } => {},
            Parameter::Receiver { .. } => {
                return Some(
                    PlanError {
                        fault: Fault::UnexpectedReceiver,
                        place: Place::Parameter(item, i),
                    },
                );
            },
            Parameter::Pattern => {
                return Some(
                    PlanError { fault: Fault::NoIdentifier, place: Place::Pattern(item, i) },
                );
            },
        }
        i += 1;
    }
    None
}

fn method(signature: &Signature, item: usize) -> (method: Method)
    requires
        is_sound(signature_model(*signature)),
    ensures
        method@ == planned(signature_model(*signature), item as nat),
{
    let ghost model = signature_model(*signature);
    let parameters: &Vec<Parameter> = &signature.parameters;
    let mut fields: Vec<String> = Vec::new();
    let mut i: usize = 1;
    while i < parameters.len() - 1
        invariant
            model == signature_model(*signature),
            is_sound(model),
            parameters@ == signature.parameters@,
            1 <= i <= parameters.len() - 1,
            texts_of(fields@) == model.parameters.subrange(1, i as int).map_values(
                |parameter: ParameterModel| parameter->name,
            ),
        decreases parameters.len() - i,
    {
        let ghost before = texts_of(fields@);
        assert(model.parameters[i as int] == parameter_model(parameters@[i as int]));
        if let Parameter::Named { name } = &parameters[i] {
            fields.push(name.clone());
            assert(texts_of(fields@) =~= before.push(name@));
        }
        assert(texts_of(fields@) =~= model.parameters.subrange(1, i as int + 1).map_values(
            |parameter: ParameterModel| parameter->name,
        ));
        i += 1;
    }
    let method = Method {
        item,
        name: signature.name.clone(),
        message: pascal_case(signature.name.as_str()),
        fields,
    };
    assert(method@ =~= planned(model, item as nat));
    method
}

/// What the arguments say, or what is wrong with them.
struct Settings {
    spec: String,
    kind: String,
    snapshot: usize,
}

fn settings(arguments: &Vec<Argument>) -> (settings: Result<Settings, PlanError>)
    ensures
        match settings {
            Ok(settings) => {
                &&& is_complete(argument_models(arguments@))
                &&& settings.spec@ == spec_named(argument_models(arguments@))->0
                &&& settings.kind@ == kind_named(argument_models(arguments@))->0
                &&& settings.snapshot == snapshot_at(argument_models(arguments@))->0
            },
            Err(error) => forall|items: Seq<Option<SignatureModel>>| #[trigger]
                is_plan_error(argument_models(arguments@), items, error),
        },
{
    let ghost models = argument_models(arguments@);
    let mut spec: Option<String> = None;
    let mut kind: Option<String> = None;
    let mut snapshot: Option<usize> = None;
    let mut i: usize = 0;
    while i < arguments.len()
        invariant
            i <= arguments.len(),
            models == argument_models(arguments@),
            all_expected(models.take(i as int)),
            match spec {
                Some(spec) => spec_named(models.take(i as int)) == Some(spec@),
                None => spec_named(models.take(i as int)) is None,
            },
            match kind {
                Some(kind) => kind_named(models.take(i as int)) == Some(kind@),
                None => kind_named(models.take(i as int)) is None,
            },
            match snapshot {
                Some(snapshot) => snapshot_at(models.take(i as int)) == Some(snapshot as nat),
                None => snapshot_at(models.take(i as int)) is None,
            },
        decreases arguments.len() - i,
    {
        let argument: &Argument = &arguments[i];
        let about: Key = key_of(&argument.key);
        let ghost next = models.take(i as int + 1);
        assert(next.drop_last() =~= models.take(i as int));
        assert(next.last() == argument_model(*argument));
        let mut expected = true;
        match (about, &argument.value) {
            (Key::Spec, ArgumentValue::Path(name)) => {
                spec = match name {
                    Some(name) => Some(name.clone()),
                    None => None,
                };
            },
            (Key::Kind, ArgumentValue::Text(text)) => {
                kind = Some(text.clone());
            },
            (Key::Kind, ArgumentValue::Literal) => {},
            (Key::Snapshot, _) => {
                snapshot = Some(i);
            },
            _ => {
                expected = false;
            },
        }
        if !expected {
            assert(is_first_unexpected(models, i as int));
            return Err(
                PlanError { fault: Fault::UnexpectedArgument, place: Place::Argument(i) },
            );
        }
        assert forall|j: int| 0 <= j < next.len() implies is_expected(#[trigger] next[j]) by {
            if j < i {
                assert(next[j] == models.take(i as int)[j]);
            }
        }
        i += 1;
    }
    assert(models.take(i as int) =~= models);
    match (spec, kind, snapshot) {
        (None, _, _) => Err(PlanError { fault: Fault::MissingSpec, place: Place::Arguments }),
        (_, None, _) => Err(PlanError { fault: Fault::MissingName, place: Place::Arguments }),
        (_, _, None) => Err(PlanError { fault: Fault::MissingSnapshot, place: Place::Arguments }),
        (Some(spec), Some(kind), Some(snapshot)) => Ok(Settings { spec, kind, snapshot }),
    }
}

/// Plan the expansion of an annotated trait.
pub fn plan(trait_name: &str, arguments: &Vec<Argument>, items: &Vec<TraitItem>) -> (plan: Result<
    Plan,
    PlanError,
>)
    ensures
        match plan {
            Ok(plan) => {
                &&& is_complete(argument_models(arguments@))
                &&& all_sound(item_models(items@))
                &&& plan@ == plan_model(
                    trait_name@,
                    argument_models(arguments@),
                    item_models(items@),
                )
            },
            Err(error) => is_plan_error(argument_models(arguments@), item_models(items@), error),
        },
{
    let settings: Settings = match settings(arguments) {
        Ok(settings) => settings,
        Err(error) => return Err(error),
    };
    let ghost models = item_models(items@);
    let mut methods: Vec<Method> = Vec::new();
    let mut i: usize = 0;
    assert(method_models(methods@) =~= planned_methods(models.take(0)));
    while i < items.len()
        invariant
            i <= items.len(),
            models == item_models(items@),
            is_complete(argument_models(arguments@)),
            all_sound(models.take(i as int)),
            method_models(methods@) == planned_methods(models.take(i as int)),
        decreases items.len() - i,
    {
        let ghost next = models.take(i as int + 1);
        let ghost before = methods@;
        assert(next.drop_last() =~= models.take(i as int));
        assert(next.last() == item_model(items@[i as int]));
        if let TraitItem::Function(signature) = &items[i] {
            if let Some(error) = method_error(signature, i) {
                assert(models[i as int] == item_model(items@[i as int]));
                return Err(error);
            }
            methods.push(method(signature, i));
            assert(method_models(methods@) =~= method_models(before).push(
                planned(signature_model(*signature), i as nat),
            ));
        }
        assert forall|j: int| 0 <= j < next.len() && (#[trigger] next[j]) is Some implies is_sound(
            next[j]->0,
        ) by {
            if j < i {
                assert(next[j] == models.take(i as int)[j]);
            }
        }
        i += 1;
    }
    assert(models.take(i as int) =~= models);
    let snake = snake_case(trait_name);
    let caller_head = joined("Typed calls to a shared `", settings.spec.as_str());
    let register_head = joined("Installs the `", trait_name);
    let plan = Plan {
        caller: joined(trait_name, "Caller"),
        register: joined("register_", snake.as_str()),
        caller_doc: joined(
            caller_head.as_str(),
            "` entity, for any holder of a capability to one ([`SharedCaller`](embedded_gpui::SharedCaller)): guest `Remote` and host `HostRemote` alike.",
        ),
        register_doc: joined(
            register_head.as_str(),
            "` methods of `T` into a shared entity's dispatch table.",
        ),
        spec: settings.spec,
        kind: settings.kind,
        snapshot: settings.snapshot,
        methods,
    };
    assert(plan@ =~= plan_model(
        trait_name@,
        argument_models(arguments@),
        item_models(items@),
    ));
    Ok(plan)
}

/// Nothing that is wrong with a trait is wrong with a sound one: the plan succeeds exactly
/// when the arguments are complete and every method is sound.
pub proof fn faults_and_plans_exclude_each_other(
    arguments: Seq<ArgumentModel>,
    items: Seq<Option<SignatureModel>>,
    error: PlanError,
)
    requires
        is_plan_error(arguments, items, error),
    ensures
        !(is_complete(arguments) && all_sound(items)),
{
}

proof fn lemma_one_method_fault(
    signature: SignatureModel,
    item: usize,
    first: PlanError,
    second: PlanError,
)
    requires
        is_method_error(signature, item, first),
        is_method_error(signature, item, second),
    ensures
        first == second,
        !is_sound(signature),
{
    let parameters = signature.parameters;
    match (first.place, second.place) {
        (Place::Parameter(_, i), Place::Pattern(_, j)) => {
            assert(parameters[i as int] is Named || i == 0 || j <= i);
            assert(parameters[j as int] is Named || i == 0 || i <= j);
        },
        (Place::Pattern(_, i), Place::Parameter(_, j)) => {
            assert(parameters[i as int] is Named || j == 0 || j >= i);
            assert(parameters[j as int] is Named || j == 0 || i >= j);
        },
        (Place::Parameter(_, i), Place::Parameter(_, j)) => {
            assert(i < j && i > 0 ==> parameters[i as int] is Named);
            assert(j < i && j > 0 ==> parameters[j as int] is Named);
        },
        (Place::Pattern(_, i), Place::Pattern(_, j)) => {
            assert(i < j ==> parameters[i as int] is Named);
            assert(j < i ==> parameters[j as int] is Named);
        },
        _ => {},
    }
}

/// One thing is reported of a trait, the first that is wrong with it.
pub proof fn faults_are_unique(
    arguments: Seq<ArgumentModel>,
    items: Seq<Option<SignatureModel>>,
    first: PlanError,
    second: PlanError,
)
    requires
        is_plan_error(arguments, items, first),
        is_plan_error(arguments, items, second),
    ensures
        first == second,
{
    match (first.place, second.place) {
        (Place::Argument(i), Place::Argument(j)) => {
            if i < j {
                assert(arguments.take(j as int)[i as int] == arguments[i as int]);
            }
            if j < i {
                assert(arguments.take(i as int)[j as int] == arguments[j as int]);
            }
        },
        (Place::Argument(_), _) => {},
        (_, Place::Argument(_)) => {},
        (Place::Arguments, _) => {},
        (_, Place::Arguments) => {},
        _ => {
            let i = faulty_item(first);
            let j = faulty_item(second);
            lemma_one_method_fault(items[i as int]->0, i, first, first);
            lemma_one_method_fault(items[j as int]->0, j, second, second);
            if i < j {
                assert(items.take(j as int)[i as int] == items[i as int]);
            }
            if j < i {
                assert(items.take(i as int)[j as int] == items[j as int]);
            }
            lemma_one_method_fault(items[i as int]->0, i, first, second);
        },
    }
}

/// Which item of the trait an error is about.
spec fn faulty_item(error: PlanError) -> usize {
    match error.place {
        Place::Signature(item) => item,
        Place::Parameter(item, _) => item,
        Place::Pattern(item, _) => item,
        _ => 0,
    }
}

/// Every method of a plan is called by the name it was declared under, takes the message
/// named after it, and stands in the plan in the order of the declarations.
pub proof fn methods_follow_their_declarations(items: Seq<Option<SignatureModel>>, at: int)
    requires
        0 <= at < planned_methods(items).len(),
    ensures
        planned_methods(items)[at].item < items.len(),
        items[planned_methods(items)[at].item as int] is Some,
        planned_methods(items)[at] == planned(
            items[planned_methods(items)[at].item as int]->0,
            planned_methods(items)[at].item,
        ),
        forall|earlier: int|
            0 <= earlier < at ==> (#[trigger] planned_methods(items)[earlier]).item
                < planned_methods(items)[at].item,
    decreases items.len(),
{
    let before = planned_methods(items.drop_last());
    if items.last() is Some && at == before.len() {
        assert forall|earlier: int| 0 <= earlier < at implies (#[trigger] planned_methods(
            items,
        )[earlier]).item < planned_methods(items)[at].item by {
            methods_follow_their_declarations(items.drop_last(), earlier);
            assert(planned_methods(items)[earlier] == before[earlier]);
        }
    } else {
        methods_follow_their_declarations(items.drop_last(), at);
        assert(planned_methods(items)[at] == before[at]);
        assert forall|earlier: int| 0 <= earlier < at implies (#[trigger] planned_methods(
            items,
        )[earlier]).item < planned_methods(items)[at].item by {
            assert(planned_methods(items)[earlier] == before[earlier]);
        }
    }
}

/// An argument is about what its key names: `spec`, `type_name` or `snapshot`; any other key
/// is about nothing known.
pub proof fn keys_are_told_by_their_name(key: String)
    ensures
        spec_key(Some(key)) is Spec <==> key@ == "spec"@,
        spec_key(Some(key)) is Kind <==> key@ == "type_name"@,
        spec_key(Some(key)) is Snapshot <==> key@ == "snapshot"@,
        spec_key(None) is Unknown,
{
    reveal_strlit("spec");
    reveal_strlit("type_name");
    reveal_strlit("snapshot");
    assert("spec"@.len() == 4 && "type_name"@.len() == 9 && "snapshot"@.len() == 8);
}

/// What an argument's value is is told as it is.
pub proof fn values_hold_what_they_say(value: ArgumentValue, name: String)
    ensures
        value_model(ArgumentValue::Path(Some(name))) == ValueModel::Path(Some(name@)),
        value_model(ArgumentValue::Path(None)) == ValueModel::Path(None),
        value_model(ArgumentValue::Text(name)) == ValueModel::Text(name@),
        value_model(value) is Path <==> value is Path,
        value_model(value) is Text <==> value is Text,
        value_model(value) is Literal <==> value is Literal,
        value_model(value) is Expression <==> value is Expression,
{
}

/// The spec has to be a path and the name a literal; the snapshot may be anything, and
/// nothing else may be said.
pub proof fn arguments_are_expected_by_their_key(argument: ArgumentModel)
    ensures
        argument.key is Spec ==> (is_expected(argument) <==> argument.value is Path),
        argument.key is Kind ==> (is_expected(argument) <==> argument.value is Text
            || argument.value is Literal),
        argument.key is Snapshot ==> is_expected(argument),
        argument.key is Unknown ==> !is_expected(argument),
{
}

/// Of two arguments about the same thing the later one holds: one more argument decides what
/// it is about, and leaves the rest.
pub proof fn later_arguments_hold(arguments: Seq<ArgumentModel>, argument: ArgumentModel)
    ensures
        ({
            let more = arguments.push(argument);
            &&& argument.key is Spec ==> spec_named(more) == argument.value->Path_0
            &&& argument.key !is Spec ==> spec_named(more) == spec_named(arguments)
            &&& argument.key is Kind && argument.value is Text ==> kind_named(more) == Some(
                argument.value->Text_0,
            )
            &&& argument.key !is Kind ==> kind_named(more) == kind_named(arguments)
            &&& argument.key is Snapshot ==> snapshot_at(more) == Some(arguments.len())
            &&& argument.key !is Snapshot ==> snapshot_at(more) == snapshot_at(arguments)
        }),
        spec_named(Seq::empty()) is None,
        kind_named(Seq::empty()) is None,
        snapshot_at(Seq::empty()) is None,
{
    assert(arguments.push(argument).drop_last() =~= arguments);
}

/// What is declared is told as it is: a receiver by how it is taken, a parameter by its name,
/// and a method by its name, whether it is `async`, and its parameters in order.
pub proof fn declarations_hold_what_they_say(
    parameter: Parameter,
    signature: Signature,
    nth: int,
)
    ensures
        match parameter {
            Parameter::Receiver { reference, mutable } => parameter_model(parameter) == (
            ParameterModel::Receiver { reference, mutable }),
            Parameter::Named { name } => parameter_model(parameter) == (ParameterModel::Named {
                name: name@,
            }),
            Parameter::Pattern => parameter_model(parameter) is Pattern,
        },
        signature_model(signature).name == signature.name@,
        signature_model(signature).is_async == signature.is_async,
        signature_model(signature).parameters.len() == signature.parameters@.len(),
        0 <= nth < signature.parameters@.len() ==> signature_model(signature).parameters[nth]
            == parameter_model(signature.parameters@[nth]),
        item_model(TraitItem::Function(signature)) == Some(signature_model(signature)),
        item_model(TraitItem::Other) is None,
{
}

/// A method is sound just where it is not `async`, takes `&mut self` first, takes a context
/// last, and names every parameter between them.
pub proof fn sound_methods_take_self_and_a_context(signature: SignatureModel)
    ensures
        is_sound(signature) <==> {
            let parameters = signature.parameters;
            &&& !signature.is_async
            &&& parameters.len() >= 2
            &&& parameters[0] == (ParameterModel::Receiver { reference: true, mutable: true })
            &&& forall|i: int| 1 <= i < parameters.len() - 1 ==> (#[trigger] parameters[i]) is Named
        },
{
}

/// What is reported of a method is what is wrong with it: that it is `async`, that it does not
/// take `&mut self`, that there is no context, that a further parameter is a receiver, or that
/// one is no identifier. It is reported where it is wrong.
pub proof fn faults_say_what_is_wrong(signature: SignatureModel, item: usize, error: PlanError)
    requires
        is_method_error(signature, item, error),
    ensures
        ({
            let parameters = signature.parameters;
            let own = ParameterModel::Receiver { reference: true, mutable: true };
            let takes_self = parameters.len() > 0 && parameters[0] == own;
            &&& error.fault == Fault::AsyncMethod <==> signature.is_async
            &&& signature.is_async ==> error.place == Place::Signature(item)
            &&& error.fault == Fault::NoReceiver <==> !signature.is_async && !takes_self
            &&& error.fault == Fault::NoReceiver ==> error.place == Place::Parameter(item, 0)
            &&& error.fault == Fault::NoContext <==> !signature.is_async && takes_self
                && parameters.len() == 1
            &&& error.fault == Fault::NoContext ==> error.place == Place::Signature(item)
            &&& error.fault == Fault::UnexpectedReceiver ==> {
                &&& error.place matches Place::Parameter(at, index)
                &&& at == item
                &&& 1 <= index < parameters.len() - 1
                &&& parameters[index as int] is Receiver
            }
            &&& error.fault == Fault::NoIdentifier ==> {
                &&& error.place matches Place::Pattern(at, index)
                &&& at == item
                &&& 1 <= index < parameters.len() - 1
                &&& parameters[index as int] is Pattern
            }
        }),
{
}

/// The author of a trait is told of each fault in its own words.
pub proof fn faults_are_told_apart()
    ensures
        Fault::UnexpectedArgument.spec_message()
            == "expected `spec = Ident`, `type_name = \"...\"`, or `snapshot = Type`"@,
        Fault::MissingSpec.spec_message() == "missing `spec = Ident`"@,
        Fault::MissingName.spec_message() == "missing `type_name = \"...\"`"@,
        Fault::MissingSnapshot.spec_message() == "missing `snapshot = Type`"@,
        Fault::AsyncMethod.spec_message()
            == "async methods are not supported; register with Methods::on_async instead"@,
        Fault::NoReceiver.spec_message() == "shared interface methods take `&mut self`"@,
        Fault::NoContext.spec_message()
            == "shared interface methods end with `cx: &mut Context<Self>`"@,
        Fault::UnexpectedReceiver.spec_message() == "unexpected receiver"@,
        Fault::NoIdentifier.spec_message() == "message parameters must be plain identifiers"@,
{
}

/// What is missing among the arguments is reported in the order spec, name, snapshot, and only
/// once every argument is expected; one that is not is reported itself, the first such.
pub proof fn missing_arguments_are_reported(
    arguments: Seq<ArgumentModel>,
    items: Seq<Option<SignatureModel>>,
    error: PlanError,
)
    requires
        is_plan_error(arguments, items, error),
    ensures
        error.fault == Fault::MissingSpec ==> error.place is Arguments && spec_named(
            arguments,
        ) is None,
        error.fault == Fault::MissingName ==> error.place is Arguments && spec_named(
            arguments,
        ) is Some && kind_named(arguments) is None,
        error.fault == Fault::MissingSnapshot ==> error.place is Arguments && kind_named(
            arguments,
        ) is Some && snapshot_at(arguments) is None,
        error.fault == Fault::UnexpectedArgument ==> {
            &&& error.place matches Place::Argument(at)
            &&& at < arguments.len()
            &&& !is_expected(arguments[at as int])
            &&& forall|i: int| 0 <= i < at ==> is_expected(#[trigger] arguments[i])
        },
        error.fault != Fault::UnexpectedArgument ==> forall|i: int|
            0 <= i < arguments.len() ==> is_expected(#[trigger] arguments[i]),
{
    if let Place::Argument(at) = error.place {
        assert forall|i: int| 0 <= i < at implies is_expected(#[trigger] arguments[i]) by {
            assert(arguments.take(at as int)[i] == arguments[i]);
        }
    }
}

/// One more method makes one more entry in the plan: its place among the items, its name, the
/// message named after it, and as fields its parameters but the receiver and the context, by
/// name and in order. An item that is no method makes none.
pub proof fn methods_are_planned_as_declared(
    items: Seq<Option<SignatureModel>>,
    signature: SignatureModel,
    nth: int,
)
    requires
        is_sound(signature),
    ensures
        ({
            let before = planned_methods(items);
            let after = planned_methods(items.push(Some(signature)));
            let parameters = signature.parameters;
            &&& after.len() == before.len() + 1
            &&& after.drop_last() == before
            &&& after.last().item == items.len()
            &&& after.last().name == signature.name
            &&& after.last().message == spec_pascal_case(signature.name)
            &&& after.last().fields.len() == parameters.len() - 2
            &&& 0 <= nth < parameters.len() - 2 ==> parameters[nth + 1] == (ParameterModel::Named {
                name: after.last().fields[nth],
            })
        }),
        planned_methods(items.push(None)) == planned_methods(items),
        planned_methods(Seq::empty()).len() == 0,
{
    assert(items.push(Some(signature)).drop_last() =~= items);
    assert(items.push(None).drop_last() =~= items);
    assert(planned_methods(items.push(Some(signature))).drop_last() =~= planned_methods(items));
    if 0 <= nth < signature.parameters.len() - 2 {
        assert(signature.parameters[nth + 1] is Named);
    }
}

/// A plan says what the arguments say, and names what it makes after the trait: the calling
/// trait by what follows the name, the registering function by what precedes it.
pub proof fn plans_say_what_was_asked_for(
    trait_name: Seq<char>,
    arguments: Seq<ArgumentModel>,
    items: Seq<Option<SignatureModel>>,
    spec: Seq<char>,
    kind: Seq<char>,
    snapshot: nat,
)
    requires
        spec_named(arguments) == Some(spec),
        kind_named(arguments) == Some(kind),
        snapshot_at(arguments) == Some(snapshot),
    ensures
        ({
            let plan = plan_model(trait_name, arguments, items);
            &&& plan.spec == spec
            &&& plan.kind == kind
            &&& plan.snapshot == snapshot
            &&& plan.methods == planned_methods(items)
            &&& plan.caller == trait_name + "Caller"@
            &&& plan.register == "register_"@ + spec_snake_case(trait_name)
            &&& plan.caller_doc == "Typed calls to a shared `"@ + spec
                + "` entity, for any holder of a capability to one ([`SharedCaller`](embedded_gpui::SharedCaller)): guest `Remote` and host `HostRemote` alike."@
            &&& plan.register_doc == "Installs the `"@ + trait_name
                + "` methods of `T` into a shared entity's dispatch table."@
        }),
{
}

/// A plan holds its parts under their own names, and its methods in order.
pub proof fn plans_hold_what_they_say(plan: Plan, nth: int)
    ensures
        plan@.spec == plan.spec@,
        plan@.kind == plan.kind@,
        plan@.snapshot == plan.snapshot,
        plan@.caller == plan.caller@,
        plan@.register == plan.register@,
        plan@.caller_doc == plan.caller_doc@,
        plan@.register_doc == plan.register_doc@,
        plan@.methods.len() == plan.methods@.len(),
        0 <= nth < plan.methods@.len() ==> {
            let method = plan.methods@[nth];
            &&& plan@.methods[nth].item == method.item
            &&& plan@.methods[nth].name == method.name@
            &&& plan@.methods[nth].message == method.message@
            &&& plan@.methods[nth].fields.len() == method.fields@.len()
            &&& forall|i: int|
                0 <= i < method.fields@.len() ==> #[trigger] plan@.methods[nth].fields[i]
                    == method.fields@[i]@
        },
{
}

} // verus!
