//! Turns the entries of an interface description into call bindings.
use vstd::prelude::*;
use vstd::string::*;
use convert_case::{Case, Casing};
use crate::abi::types::{map_type_to_rust_and_encode, native_type, NativeType};
use crate::keccak256;
use crate::keccak256_digest;
use crate::text::{decimal, decimal_string, join, joined, str_eq, views};

verus! {

/// A parameter of an interface entry.
#[derive(Clone, Debug, PartialEq, Eq)]
pub struct AbiParameter {
    pub name: String,
    pub param_type: String,
}

/// An entry of an interface description.
#[derive(Clone, Debug, PartialEq, Eq)]
pub struct AbiFunction {
    pub name: String,
    pub inputs: Vec<AbiParameter>,
    pub outputs: Vec<AbiParameter>,
    pub state_mutability: String,
    pub constant: Option<bool>,
    pub fn_type: String,
}

/// An interface description.
#[derive(Clone, Debug, PartialEq, Eq)]
pub struct EthereumAbi {
    pub abi: Vec<AbiFunction>,
}

pub struct AbiParameterModel {
    pub name: Seq<char>,
    pub param_type: Seq<char>,
}

pub struct AbiFunctionModel {
    pub name: Seq<char>,
    pub inputs: Seq<AbiParameterModel>,
    pub outputs: Seq<AbiParameterModel>,
    pub state_mutability: Seq<char>,
    pub constant: Option<bool>,
    pub fn_type: Seq<char>,
}

impl View for AbiParameter {
    type V = AbiParameterModel;

    open spec fn view(&self) -> AbiParameterModel {
        AbiParameterModel { name: self.name@, param_type: self.param_type@ }
    }
}

/// The models of a list of parameters.
pub open spec fn parameter_models(params: Seq<AbiParameter>) -> Seq<AbiParameterModel> {
    Seq::new(params.len(), |i: int| params[i]@)
}

impl View for AbiFunction {
    type V = AbiFunctionModel;

    open spec fn view(&self) -> AbiFunctionModel {
        AbiFunctionModel {
            name: self.name@,
            inputs: parameter_models(self.inputs@),
            outputs: parameter_models(self.outputs@),
            state_mutability: self.state_mutability@,
            constant: self.constant,
            fn_type: self.fn_type@,
        }
    }
}

/// The models of a list of entries.
pub open spec fn function_models(entries: Seq<AbiFunction>) -> Seq<AbiFunctionModel> {
    Seq::new(entries.len(), |i: int| entries[i]@)
}

impl View for EthereumAbi {
    type V = Seq<AbiFunctionModel>;

    open spec fn view(&self) -> Seq<AbiFunctionModel> {
        function_models(self.abi@)
    }
}

/// A parameter of a binding.
#[derive(Clone, Debug, PartialEq, Eq)]
pub struct FunctionParam {
    pub name: String,
    pub ty: NativeType,
}

/// What a binding hands back on success.
#[derive(Clone, Debug, PartialEq, Eq)]
pub enum ReturnType {
    Unit,
    Single(NativeType),
    Tuple(Vec<NativeType>),
}

/// The header of a binding.
#[derive(Clone, Debug, PartialEq, Eq)]
pub struct FunctionSignature {
    pub fn_name: String,
    pub params: Vec<FunctionParam>,
    pub return_type: ReturnType,
}

pub struct FunctionParamModel {
    pub name: Seq<char>,
    pub ty: NativeType,
}

pub enum ReturnTypeModel {
    Unit,
    Single(NativeType),
    Tuple(Seq<NativeType>),
}

pub struct FunctionSignatureModel {
    pub fn_name: Seq<char>,
    pub params: Seq<FunctionParamModel>,
    pub return_type: ReturnTypeModel,
}

impl View for FunctionParam {
    type V = FunctionParamModel;

    open spec fn view(&self) -> FunctionParamModel {
        FunctionParamModel { name: self.name@, ty: self.ty }
    }
}

impl View for ReturnType {
    type V = ReturnTypeModel;

    open spec fn view(&self) -> ReturnTypeModel {
        match self {
            ReturnType::Unit => ReturnTypeModel::Unit,
            ReturnType::Single(ty) => ReturnTypeModel::Single(*ty),
            ReturnType::Tuple(tys) => ReturnTypeModel::Tuple(tys@),
        }
    }
}

impl View for FunctionSignature {
    type V = FunctionSignatureModel;

    open spec fn view(&self) -> FunctionSignatureModel {
        FunctionSignatureModel {
            fn_name: self.fn_name@,
            params: Seq::new(self.params@.len(), |i: int| self.params@[i]@),
            return_type: self.return_type@,
        }
    }
}

/// How a call is sent.
#[derive(Clone, Copy, Debug, PartialEq, Eq)]
pub enum Dispatch {
    /// The call must leave no state change behind.
    ReadOnly,
    /// The call persists its state changes.
    StateChanging,
}

/// The encoder of one argument.
#[derive(Clone, Copy, Debug, PartialEq, Eq)]
pub enum Encoder {
    Address,
    Word256,
    Generic,
}

/// The decoder of the returned bytes.
#[derive(Clone, Copy, Debug, PartialEq, Eq)]
pub enum Decoder {
    Unit,
    U8,
    Word256,
    Bool,
    Text,
    Address,
}

/// Why an entry has no binding.
#[derive(Clone, Copy, Debug, PartialEq, Eq)]
pub enum BindingError {
    UnsupportedReturnType,
    MultipleReturnValues,
}

/// The text that reports why an entry has no binding.
pub open spec fn binding_error_text(error: BindingError) -> Seq<char> {
    match error {
        BindingError::UnsupportedReturnType => "Unsupported return type"@,
        BindingError::MultipleReturnValues => "Multiple return values not yet supported"@,
    }
}

impl BindingError {
    /// The text that reports the failure.
    pub fn message(&self) -> (text: &'static str)
        ensures
            text@ == binding_error_text(*self),
    {
        match self {
            BindingError::UnsupportedReturnType => "Unsupported return type",
            BindingError::MultipleReturnValues => "Multiple return values not yet supported",
        }
    }
}

/// A call binding for one entry.
#[derive(Clone, Debug, PartialEq, Eq)]
pub struct FunctionBinding {
    pub signature: FunctionSignature,
    pub selector_signature: String,
    pub selector: [u8; 4],
    pub dispatch: Dispatch,
    pub encoders: Vec<Encoder>,
    pub decoder: Decoder,
}

pub struct FunctionBindingModel {
    pub signature: FunctionSignatureModel,
    pub selector_signature: Seq<char>,
    pub selector: Seq<u8>,
    pub dispatch: Dispatch,
    pub encoders: Seq<Encoder>,
    pub decoder: Decoder,
}

impl View for FunctionBinding {
    type V = FunctionBindingModel;

    open spec fn view(&self) -> FunctionBindingModel {
        FunctionBindingModel {
            signature: self.signature@,
            selector_signature: self.selector_signature@,
            selector: self.selector@,
            dispatch: self.dispatch,
            encoders: self.encoders@,
            decoder: self.decoder,
        }
    }
}

/// The snake-case form of a name.
pub uninterp spec fn snake_case_name(name: Seq<char>) -> Seq<char>;

/// Rewrites `name` in snake case.
///
/// Calls `convert_case::Casing::to_case` with `Case::Snake`. The contract
/// gives the text that comes back a name: it depends on `name` alone.
#[verifier::external_body]
fn to_snake_case(name: &str) -> (snake: String)
    ensures
        snake@ == snake_case_name(name@),
{
    name.to_case(Case::Snake)
}

/// The name of the parameter at `index`, given the snake-case form of its
/// declared name: a parameter without a name is called by its position.
pub open spec fn parameter_name(declared: Seq<char>, snake: Seq<char>, index: int) -> Seq<char> {
    if declared.len() == 0 {
        "arg"@ + decimal(index as nat)
    } else {
        snake
    }
}

/// The native types of a list of parameters.
pub open spec fn native_types(params: Seq<AbiParameterModel>) -> Seq<NativeType> {
    Seq::new(params.len(), |i: int| native_type(params[i].param_type))
}

/// The return type of an entry with the given outputs.
pub open spec fn return_type_of(outputs: Seq<AbiParameterModel>) -> ReturnTypeModel {
    if outputs.len() == 0 {
        ReturnTypeModel::Unit
    } else if outputs.len() == 1 {
        ReturnTypeModel::Single(native_type(outputs[0].param_type))
    } else {
        ReturnTypeModel::Tuple(native_types(outputs))
    }
}

/// The header of the binding of `func`, where `fn_name` and `snake_names`
/// are the snake-case forms of its name and of its inputs' names.
pub open spec fn signature_model(
    func: AbiFunctionModel,
    fn_name: Seq<char>,
    snake_names: Seq<Seq<char>>,
) -> FunctionSignatureModel {
    FunctionSignatureModel {
        fn_name,
        params: Seq::new(
            func.inputs.len(),
            |i: int|
                FunctionParamModel {
                    name: parameter_name(func.inputs[i].name, snake_names[i], i),
                    ty: native_type(func.inputs[i].param_type),
                },
        ),
        return_type: return_type_of(func.outputs),
    }
}

/// The snake-case forms of the names of a list of parameters.
pub open spec fn snake_names_of(params: Seq<AbiParameterModel>) -> Seq<Seq<char>> {
    Seq::new(params.len(), |i: int| snake_case_name(params[i].name))
}

/// The header of the binding of `func`.
pub open spec fn function_signature(func: AbiFunctionModel) -> FunctionSignatureModel {
    signature_model(func, snake_case_name(func.name), snake_names_of(func.inputs))
}

fn native_types_of(params: &Vec<AbiParameter>) -> (tys: Vec<NativeType>)
    ensures
        tys@ == native_types(parameter_models(params@)),
{
    let mut tys: Vec<NativeType> = Vec::new();
    let mut i: usize = 0;
    while i < params.len()
        invariant
            i <= params.len(),
            tys@.len() == i,
            forall|k: int| 0 <= k < i ==> tys@[k] == native_type(params@[k].param_type@),
        decreases params.len() - i,
    {
        tys.push(map_type_to_rust_and_encode(params[i].param_type.as_str()));
        i = i + 1;
    }
    assert(tys@ =~= native_types(parameter_models(params@)));
    tys
}

/// Builds the header of the binding of `func` from the snake-case forms of
/// its name and of the names of its inputs, one for each input.
pub fn signature_from_names(func: &AbiFunction, fn_name: String, snake_names: Vec<String>) -> (result:
    Option<FunctionSignature>)
    ensures
        match result {
            Some(sig) => snake_names.len() == func.inputs.len() && sig@ == signature_model(
                func@,
                fn_name@,
                views(snake_names@),
            ),
            None => snake_names.len() != func.inputs.len(),
        },
{
    if snake_names.len() != func.inputs.len() {
        return None;
    }
    Some(build_signature(func, fn_name, snake_names))
}

fn build_signature(func: &AbiFunction, fn_name: String, snake_names: Vec<String>) -> (sig:
    FunctionSignature)
    requires
        snake_names.len() == func.inputs.len(),
    ensures
        sig@ == signature_model(func@, fn_name@, views(snake_names@)),
{
    let mut params: Vec<FunctionParam> = Vec::new();
    let mut i: usize = 0;
    while i < func.inputs.len()
        invariant
            i <= func.inputs.len(),
            snake_names.len() == func.inputs.len(),
            params@.len() == i,
            forall|k: int|
                0 <= k < i ==> (#[trigger] params@[k])@ == (FunctionParamModel {
                    name: parameter_name(func.inputs@[k].name@, snake_names@[k]@, k),
                    ty: native_type(func.inputs@[k].param_type@),
                }),
        decreases func.inputs.len() - i,
    {
        let input = &func.inputs[i];
        let name = if input.name.as_str().unicode_len() == 0 {
            let mut name = String::from_str("arg");
            let digits = decimal_string(i);
            name.append(digits.as_str());
            name
        } else {
            snake_names[i].clone()
        };
        let ty = map_type_to_rust_and_encode(input.param_type.as_str());
        params.push(FunctionParam { name, ty });
        i = i + 1;
    }
    let return_type = if func.outputs.len() == 0 {
        ReturnType::Unit
    } else if func.outputs.len() == 1 {
        ReturnType::Single(map_type_to_rust_and_encode(func.outputs[0].param_type.as_str()))
    } else {
        ReturnType::Tuple(native_types_of(&func.outputs))
    };
    let sig = FunctionSignature { fn_name, params, return_type };
    assert(sig@.params =~= signature_model(func@, fn_name@, views(snake_names@)).params);
    sig
}

/// Builds the header of the binding of `func`.
pub fn generate_function_signature(func: &AbiFunction) -> (sig: FunctionSignature)
    ensures
        sig@ == function_signature(func@),
{
    let fn_name = to_snake_case(func.name.as_str());
    let mut snake_names: Vec<String> = Vec::new();
    let mut i: usize = 0;
    while i < func.inputs.len()
        invariant
            i <= func.inputs.len(),
            snake_names@.len() == i,
            forall|k: int|
                0 <= k < i ==> (#[trigger] snake_names@[k])@ == snake_case_name(
                    func.inputs@[k].name@,
                ),
        decreases func.inputs.len() - i,
    {
        snake_names.push(to_snake_case(func.inputs[i].name.as_str()));
        i = i + 1;
    }
    assert(views(snake_names@) =~= snake_names_of(func@.inputs));
    build_signature(func, fn_name, snake_names)
}

/// The textual signature of `func`: its name and, in brackets, the
/// interface types of its inputs, separated by commas.
pub open spec fn selector_text(func: AbiFunctionModel) -> Seq<char> {
    func.name + "("@ + joined(
        Seq::new(func.inputs.len(), |i: int| func.inputs[i].param_type),
        ","@,
    ) + ")"@
}

/// Whether calls of `func` are read-only.
pub open spec fn is_read_only(func: AbiFunctionModel) -> bool {
    func.state_mutability == "view"@ || func.state_mutability == "pure"@ || func.constant == Some(
        true,
    )
}

/// How calls of `func` are sent.
pub open spec fn dispatch_of(func: AbiFunctionModel) -> Dispatch {
    if is_read_only(func) {
        Dispatch::ReadOnly
    } else {
        Dispatch::StateChanging
    }
}

/// The encoder of an argument of the interface type named `t`.
pub open spec fn encoder_of(t: Seq<char>) -> Encoder {
    if t == "address"@ {
        Encoder::Address
    } else if t == "uint256"@ || t == "int256"@ {
        Encoder::Word256
    } else {
        Encoder::Generic
    }
}

/// The encoders of the inputs of an entry, in declared order.
pub open spec fn encoders_of(inputs: Seq<AbiParameterModel>) -> Seq<Encoder> {
    Seq::new(inputs.len(), |i: int| encoder_of(inputs[i].param_type))
}

/// The decoder of a single output of the interface type named `t`, if that
/// type can be returned.
pub open spec fn decoder_of(t: Seq<char>) -> Option<Decoder> {
    if t == "uint8"@ {
        Some(Decoder::U8)
    } else if t == "uint256"@ || t == "int256"@ {
        Some(Decoder::Word256)
    } else if t == "bool"@ {
        Some(Decoder::Bool)
    } else if t == "string"@ {
        Some(Decoder::Text)
    } else if t == "address"@ {
        Some(Decoder::Address)
    } else {
        None
    }
}

/// The decoder of an entry with the given outputs, or why it has none.
pub open spec fn decoder_result(outputs: Seq<AbiParameterModel>) -> Result<Decoder, BindingError> {
    if outputs.len() == 0 {
        Ok(Decoder::Unit)
    } else if outputs.len() == 1 {
        match decoder_of(outputs[0].param_type) {
            Some(decoder) => Ok(decoder),
            None => Err(BindingError::UnsupportedReturnType),
        }
    } else {
        Err(BindingError::MultipleReturnValues)
    }
}

/// The first four bytes of a digest.
pub open spec fn selector_of(digest: Seq<u8>) -> Seq<u8> {
    digest.subrange(0, 4)
}

/// The binding of `func` with the given header, where `digest` is the hash
/// of its textual signature.
pub open spec fn binding_model(
    func: AbiFunctionModel,
    signature: FunctionSignatureModel,
    digest: Seq<u8>,
) -> Result<FunctionBindingModel, BindingError> {
    match decoder_result(func.outputs) {
        Err(error) => Err(error),
        Ok(decoder) => Ok(
            FunctionBindingModel {
                signature,
                selector_signature: selector_text(func),
                selector: selector_of(digest),
                dispatch: dispatch_of(func),
                encoders: encoders_of(func.inputs),
                decoder,
            },
        ),
    }
}

/// The binding of `func`: the selector is the start of the Keccak-256 hash
/// of the UTF-8 bytes of the textual signature.
pub open spec fn function_binding(func: AbiFunctionModel) -> Result<
    FunctionBindingModel,
    BindingError,
> {
    binding_model(
        func,
        function_signature(func),
        keccak256_digest(vstd::utf8::encode_utf8(selector_text(func))),
    )
}

/// The selector of an entry is a function of its textual signature
/// alone: entries with the same name and the same input types, in the same
/// order, have the same selector, whatever else they declare.
pub proof fn lemma_selector_stable(first: AbiFunctionModel, second: AbiFunctionModel)
    requires
        first.name == second.name,
        first.inputs.len() == second.inputs.len(),
        forall|i: int|
            0 <= i < first.inputs.len() ==> first.inputs[i].param_type
                == second.inputs[i].param_type,
        function_binding(first) is Ok,
        function_binding(second) is Ok,
    ensures
        selector_text(first) == selector_text(second),
        function_binding(first)->Ok_0.selector == function_binding(second)->Ok_0.selector,
{
    assert(Seq::new(first.inputs.len(), |i: int| first.inputs[i].param_type) =~= Seq::new(
        second.inputs.len(),
        |i: int| second.inputs[i].param_type,
    ));
}

/// Whether `result` is what `model` describes.
pub open spec fn binding_matches(
    result: Result<FunctionBinding, BindingError>,
    model: Result<FunctionBindingModel, BindingError>,
) -> bool {
    match result {
        Ok(binding) => model == Ok::<FunctionBindingModel, BindingError>(binding@),
        Err(error) => model == Err::<FunctionBindingModel, BindingError>(error),
    }
}

/// Takes the selector from the hash of a textual signature.
pub fn selector_from_digest(digest: &[u8; 32]) -> (selector: [u8; 4])
    ensures
        selector@ == selector_of(digest@),
{
    let selector = [digest[0], digest[1], digest[2], digest[3]];
    assert(selector@ =~= selector_of(digest@));
    selector
}

/// Writes the textual signature of `func`.
pub fn selector_signature(func: &AbiFunction) -> (text: String)
    ensures
        text@ == selector_text(func@),
{
    let mut types: Vec<String> = Vec::new();
    let mut i: usize = 0;
    while i < func.inputs.len()
        invariant
            i <= func.inputs.len(),
            types@.len() == i,
            forall|k: int| 0 <= k < i ==> (#[trigger] types@[k])@ == func.inputs@[k].param_type@,
        decreases func.inputs.len() - i,
    {
        types.push(func.inputs[i].param_type.clone());
        i = i + 1;
    }
    assert(views(types@) =~= Seq::new(
        func@.inputs.len(),
        |i: int| func@.inputs[i].param_type,
    ));
    let list = join(&types, ",");
    let mut text = func.name.clone();
    text.append("(");
    text.append(list.as_str());
    text.append(")");
    text
}

/// Computes the selector of a textual signature.
pub fn selector(signature: &str) -> (selector: [u8; 4])
    ensures
        selector@ == selector_of(keccak256_digest(vstd::utf8::encode_utf8(signature@))),
{
    let digest = keccak256(signature.as_bytes());
    selector_from_digest(&digest)
}

fn encoder_for(t: &str) -> (encoder: Encoder)
    ensures
        encoder == encoder_of(t@),
{
    if str_eq(t, "address") {
        Encoder::Address
    } else if str_eq(t, "uint256") || str_eq(t, "int256") {
        Encoder::Word256
    } else {
        Encoder::Generic
    }
}

fn decoder_for(t: &str) -> (decoder: Option<Decoder>)
    ensures
        decoder == decoder_of(t@),
{
    if str_eq(t, "uint8") {
        Some(Decoder::U8)
    } else if str_eq(t, "uint256") || str_eq(t, "int256") {
        Some(Decoder::Word256)
    } else if str_eq(t, "bool") {
        Some(Decoder::Bool)
    } else if str_eq(t, "string") {
        Some(Decoder::Text)
    } else if str_eq(t, "address") {
        Some(Decoder::Address)
    } else {
        None
    }
}

/// Tells whether calls of `func` are read-only.
pub fn is_view(func: &AbiFunction) -> (read_only: bool)
    ensures
        read_only == is_read_only(func@),
{
    let constant = match func.constant {
        Some(flag) => flag,
        None => false,
    };
    str_eq(func.state_mutability.as_str(), "view") || str_eq(func.state_mutability.as_str(), "pure")
        || constant
}

/// Builds the binding of `func` from its header and from the hash of its
/// textual signature. An entry with several outputs, or with one output of
/// a type that cannot be returned, has no binding.
pub fn binding_from_parts(func: &AbiFunction, signature: FunctionSignature, digest: &[u8; 32]) -> (result:
    Result<FunctionBinding, BindingError>)
    ensures
        binding_matches(result, binding_model(func@, signature@, digest@)),
{
    let decoder = if func.outputs.len() == 0 {
        Decoder::Unit
    } else if func.outputs.len() == 1 {
        match decoder_for(func.outputs[0].param_type.as_str()) {
            Some(decoder) => decoder,
            None => {
                return Err(BindingError::UnsupportedReturnType);
            },
        }
    } else {
        return Err(BindingError::MultipleReturnValues);
    };
    let mut encoders: Vec<Encoder> = Vec::new();
    let mut i: usize = 0;
    while i < func.inputs.len()
        invariant
            i <= func.inputs.len(),
            encoders@.len() == i,
            forall|k: int| 0 <= k < i ==> encoders@[k] == encoder_of(func.inputs@[k].param_type@),
        decreases func.inputs.len() - i,
    {
        encoders.push(encoder_for(func.inputs[i].param_type.as_str()));
        i = i + 1;
    }
    assert(encoders@ =~= encoders_of(func@.inputs));
    let dispatch = if is_view(func) {
        Dispatch::ReadOnly
    } else {
        Dispatch::StateChanging
    };
    Ok(
        FunctionBinding {
            signature,
            selector_signature: selector_signature(func),
            selector: selector_from_digest(digest),
            dispatch,
            encoders,
            decoder,
        },
    )
}

/// Builds the binding of `func`.
pub fn generate_function_implementation(func: &AbiFunction) -> (result: Result<
    FunctionBinding,
    BindingError,
>)
    ensures
        binding_matches(result, function_binding(func@)),
{
    let signature = generate_function_signature(func);
    let text = selector_signature(func);
    let digest = keccak256(text.as_str().as_bytes());
    binding_from_parts(func, signature, &digest)
}

/// What the import reads of one of its arguments.
#[derive(Clone, Debug, PartialEq, Eq)]
pub enum MacroArgument {
    /// A string literal, with its value.
    Text(String),
    /// Any other expression.
    Other,
}

/// Why an import fails.
#[derive(Clone, Copy, Debug, PartialEq, Eq)]
pub enum ImportError {
    /// There are neither one nor two arguments.
    ArgumentCount,
    /// The first argument is no string literal.
    AbiPathNotText,
    /// The second argument is no string literal.
    ContractNameNotText,
    /// The entry at `index` of the description has no binding.
    Function { index: usize, error: BindingError },
}

/// The text that reports why an import fails.
pub open spec fn import_error_text(error: ImportError) -> Seq<char> {
    match error {
        ImportError::ArgumentCount =>
            "import! macro expects one or two arguments: (abi_path) or (abi_path, contract_name)"@,
        ImportError::AbiPathNotText => "First argument must be a string literal for ABI path"@,
        ImportError::ContractNameNotText =>
            "Second argument must be a string literal for contract name"@,
        ImportError::Function { index, error } => "ABI entry "@ + decimal(index as nat) + ": "@
            + binding_error_text(error),
    }
}

impl ImportError {
    /// Writes the text that reports the failure.
    pub fn message(&self) -> (text: String)
        ensures
            text@ == import_error_text(*self),
    {
        match self {
            ImportError::ArgumentCount => String::from_str(
                "import! macro expects one or two arguments: (abi_path) or (abi_path, contract_name)",
            ),
            ImportError::AbiPathNotText => String::from_str(
                "First argument must be a string literal for ABI path",
            ),
            ImportError::ContractNameNotText => String::from_str(
                "Second argument must be a string literal for contract name",
            ),
            ImportError::Function { index, error } => {
                let mut text = String::from_str("ABI entry ");
                let digits = decimal_string(*index);
                text.append(digits.as_str());
                text.append(": ");
                text.append(error.message());
                text
            },
        }
    }
}

/// What an import names.
#[derive(Clone, Debug, PartialEq, Eq)]
pub struct ImportTarget {
    /// Where the interface description lies.
    pub abi_path: String,
    /// The contract whose bytecode is deployed.
    pub contract_name: String,
    /// The name of the binding struct.
    pub struct_name: String,
}

pub struct ImportTargetModel {
    pub abi_path: Seq<char>,
    pub contract_name: Seq<char>,
    pub struct_name: Seq<char>,
}

impl View for ImportTarget {
    type V = ImportTargetModel;

    open spec fn view(&self) -> ImportTargetModel {
        ImportTargetModel {
            abi_path: self.abi_path@,
            contract_name: self.contract_name@,
            struct_name: self.struct_name@,
        }
    }
}

/// The bindings of a contract.
#[derive(Clone, Debug, PartialEq, Eq)]
pub struct ContractBinding {
    pub target: ImportTarget,
    pub functions: Vec<FunctionBinding>,
}

pub struct ContractBindingModel {
    pub target: ImportTargetModel,
    pub functions: Seq<FunctionBindingModel>,
}

/// The models of a list of bindings.
pub open spec fn binding_models(bindings: Seq<FunctionBinding>) -> Seq<FunctionBindingModel> {
    Seq::new(bindings.len(), |i: int| bindings[i]@)
}

impl View for ContractBinding {
    type V = ContractBindingModel;

    open spec fn view(&self) -> ContractBindingModel {
        ContractBindingModel { target: self.target@, functions: binding_models(self.functions@) }
    }
}

/// The base name of the description file, or the stand-in where it has none.
pub open spec fn base_name(file_stem: Option<Seq<char>>) -> Seq<char> {
    match file_stem {
        Some(stem) => stem,
        None => "Contract"@,
    }
}

/// The path of the description that the arguments name.
pub open spec fn abi_path_of(args: Seq<MacroArgument>) -> Result<Seq<char>, ImportError> {
    if args.len() != 1 && args.len() != 2 {
        Err(ImportError::ArgumentCount)
    } else {
        match args[0] {
            MacroArgument::Text(path) => Ok(path@),
            MacroArgument::Other => Err(ImportError::AbiPathNotText),
        }
    }
}

/// What the arguments name, where `file_stem` is the base name of the
/// description file: the struct is called by that base name, and so is the
/// contract unless a second argument names it.
pub open spec fn import_target_of(args: Seq<MacroArgument>, file_stem: Option<Seq<char>>) -> Result<
    ImportTargetModel,
    ImportError,
> {
    match abi_path_of(args) {
        Err(error) => Err(error),
        Ok(abi_path) => if args.len() == 1 {
            Ok(
                ImportTargetModel {
                    abi_path,
                    contract_name: base_name(file_stem),
                    struct_name: base_name(file_stem),
                },
            )
        } else {
            match args[1] {
                MacroArgument::Text(name) => Ok(
                    ImportTargetModel {
                        abi_path,
                        contract_name: name@,
                        struct_name: base_name(file_stem),
                    },
                ),
                MacroArgument::Other => Err(ImportError::ContractNameNotText),
            }
        },
    }
}

/// Whether an entry describes a function.
pub open spec fn is_function(entry: AbiFunctionModel) -> bool {
    entry.fn_type == "function"@
}

/// The bindings of the entries that describe a function, in their order, or
/// the failure of the first such entry that has no binding.
pub open spec fn bindings_of(entries: Seq<AbiFunctionModel>) -> Result<
    Seq<FunctionBindingModel>,
    ImportError,
>
    decreases entries.len(),
{
    if entries.len() == 0 {
        Ok(Seq::empty())
    } else {
        match bindings_of(entries.drop_last()) {
            Err(error) => Err(error),
            Ok(bindings) => if !is_function(entries.last()) {
                Ok(bindings)
            } else {
                match function_binding(entries.last()) {
                    Ok(binding) => Ok(bindings.push(binding)),
                    Err(error) => Err(
                        ImportError::Function { index: (entries.len() - 1) as usize, error },
                    ),
                }
            },
        }
    }
}

/// The bindings of a contract: a failure in the arguments comes before one
/// in the description.
pub open spec fn import_model(
    args: Seq<MacroArgument>,
    file_stem: Option<Seq<char>>,
    entries: Seq<AbiFunctionModel>,
) -> Result<ContractBindingModel, ImportError> {
    match import_target_of(args, file_stem) {
        Err(error) => Err(error),
        Ok(target) => match bindings_of(entries) {
            Err(error) => Err(error),
            Ok(functions) => Ok(ContractBindingModel { target, functions }),
        },
    }
}

/// The view of an optional string.
pub open spec fn option_view(text: Option<String>) -> Option<Seq<char>> {
    match text {
        Some(text) => Some(text@),
        None => None,
    }
}

/// Reads the path of the interface description from the arguments.
pub fn abi_path(args: &Vec<MacroArgument>) -> (result: Result<String, ImportError>)
    ensures
        match result {
            Ok(path) => abi_path_of(args@) == Ok::<Seq<char>, ImportError>(path@),
            Err(error) => abi_path_of(args@) == Err::<Seq<char>, ImportError>(error),
        },
{
    if args.len() != 1 && args.len() != 2 {
        return Err(ImportError::ArgumentCount);
    }
    match &args[0] {
        MacroArgument::Text(path) => Ok(path.clone()),
        MacroArgument::Other => Err(ImportError::AbiPathNotText),
    }
}

/// Reads what an import names from its arguments and from the base name
/// of the description file.
pub fn import_target(args: &Vec<MacroArgument>, file_stem: &Option<String>) -> (result: Result<
    ImportTarget,
    ImportError,
>)
    ensures
        match result {
            Ok(target) => import_target_of(args@, option_view(*file_stem)) == Ok::<
                ImportTargetModel,
                ImportError,
            >(target@),
            Err(error) => import_target_of(args@, option_view(*file_stem)) == Err::<
                ImportTargetModel,
                ImportError,
            >(error),
        },
{
    let abi_path = match abi_path(args) {
        Ok(path) => path,
        Err(error) => {
            return Err(error);
        },
    };
    let struct_name = match file_stem {
        Some(stem) => stem.clone(),
        None => String::from_str("Contract"),
    };
    if args.len() == 1 {
        let contract_name = struct_name.clone();
        Ok(ImportTarget { abi_path, contract_name, struct_name })
    } else {
        match &args[1] {
            MacroArgument::Text(name) => Ok(
                ImportTarget { abi_path, contract_name: name.clone(), struct_name },
            ),
            MacroArgument::Other => Err(ImportError::ContractNameNotText),
        }
    }
}

/// Builds the bindings of every entry of `abi` that describes a function.
pub fn generate_bindings(abi: &EthereumAbi) -> (result: Result<Vec<FunctionBinding>, ImportError>)
    ensures
        match result {
            Ok(functions) => bindings_of(abi@) == Ok::<Seq<FunctionBindingModel>, ImportError>(
                binding_models(functions@),
            ),
            Err(error) => bindings_of(abi@) == Err::<Seq<FunctionBindingModel>, ImportError>(error),
        },
{
    let mut functions: Vec<FunctionBinding> = Vec::new();
    let mut i: usize = 0;
    proof {
        assert(abi@.take(0) =~= Seq::empty());
        assert(binding_models(functions@) =~= Seq::empty());
    }
    while i < abi.abi.len()
        invariant
            i <= abi.abi.len(),
            bindings_of(abi@.take(i as int)) == Ok::<Seq<FunctionBindingModel>, ImportError>(
                binding_models(functions@),
            ),
        decreases abi.abi.len() - i,
    {
        let entry = &abi.abi[i];
        proof {
            assert(abi@.take(i + 1).drop_last() =~= abi@.take(i as int));
            assert(abi@.take(i + 1).last() == entry@);
        }
        if str_eq(entry.fn_type.as_str(), "function") {
            let ghost before = binding_models(functions@);
            match generate_function_implementation(entry) {
                Ok(binding) => {
                    functions.push(binding);
                    proof {
                        assert(binding_models(functions@) =~= before.push(binding@));
                    }
                },
                Err(error) => {
                    proof {
                        lemma_bindings_fail(abi@, i as int);
                    }
                    return Err(ImportError::Function { index: i, error });
                },
            }
        }
        i = i + 1;
    }
    proof {
        assert(abi@.take(abi.abi.len() as int) =~= abi@);
    }
    Ok(functions)
}

/// A failure among the first entries is the failure of the whole list.
pub proof fn lemma_bindings_fail(entries: Seq<AbiFunctionModel>, i: int)
    requires
        0 <= i < entries.len(),
        bindings_of(entries.take(i + 1)) is Err,
    ensures
        bindings_of(entries) == bindings_of(entries.take(i + 1)),
    decreases entries.len(),
{
    if i + 1 < entries.len() {
        assert(entries.drop_last().take(i + 1) =~= entries.take(i + 1));
        lemma_bindings_fail(entries.drop_last(), i);
    } else {
        assert(entries.take(i + 1) =~= entries);
    }
}

/// Builds the bindings of a contract from the arguments, the base name of
/// the description file and the description.
pub fn import(args: &Vec<MacroArgument>, file_stem: &Option<String>, abi: &EthereumAbi) -> (result:
    Result<ContractBinding, ImportError>)
    ensures
        match result {
            Ok(binding) => import_model(args@, option_view(*file_stem), abi@) == Ok::<
                ContractBindingModel,
                ImportError,
            >(binding@),
            Err(error) => import_model(args@, option_view(*file_stem), abi@) == Err::<
                ContractBindingModel,
                ImportError,
            >(error),
        },
{
    let target = match import_target(args, file_stem) {
        Ok(target) => target,
        Err(error) => {
            return Err(error);
        },
    };
    match generate_bindings(abi) {
        Ok(functions) => Ok(ContractBinding { target, functions }),
        Err(error) => Err(error),
    }
}

} // verus!
