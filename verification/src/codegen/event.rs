//! Events: emission entry points, the budget of indexed fields and the
//! interface description of each variant.
use vstd::prelude::*;
use vstd::string::*;
use vstd::utf8::encode_utf8;
use crate::codegen::{snake_case_ident, to_snake_case};
use crate::text::{bool_str, bool_text, decimal, decimal_string, join, joined, str_eq, views};

verus! {

/// What the encoder reads of a field's type.
#[derive(Debug, PartialEq, Eq)]
pub enum FieldType {
    /// A path type. `ident` names its last segment, if it has one;
    /// `argument` is the first argument in angle brackets of that segment,
    /// if that is a type.
    Path { ident: Option<String>, argument: Option<Box<FieldType>> },
    /// Any other type.
    Other,
}

impl Clone for FieldType {
    fn clone(&self) -> (copy: Self)
        ensures
            copy == *self,
        decreases *self,
    {
        match self {
            FieldType::Path { ident, argument } => {
                let ident = match ident {
                    Some(name) => Some(name.clone()),
                    None => None,
                };
                let argument = match argument {
                    Some(inner) => {
                        let copy: FieldType = FieldType::clone(inner);
                        Some(Box::new(copy))
                    },
                    None => None,
                };
                FieldType::Path { ident, argument }
            },
            FieldType::Other => FieldType::Other,
        }
    }
}

/// Why a field's type has no interface type.
#[derive(Clone, Copy, Debug, PartialEq, Eq)]
pub enum TypeError {
    /// The path has no segment.
    InvalidTypePath,
    /// A `Vec` without a type argument.
    VecRequiresTypeArgument,
    /// The table lacks the type.
    Unsupported,
}

/// A field of an event variant.
#[derive(Clone, Debug, PartialEq, Eq)]
pub struct EventField {
    /// The field's name; a field of a tuple variant has none.
    pub name: Option<String>,
    pub ty: FieldType,
    /// Whether the field is marked as indexed.
    pub indexed: bool,
}

/// How a variant writes its fields.
#[derive(Clone, Copy, Debug, PartialEq, Eq)]
pub enum FieldsShape {
    Named,
    Unnamed,
    Unit,
}

/// A variant of an event.
#[derive(Clone, Debug, PartialEq, Eq)]
pub struct EventVariant {
    pub name: String,
    pub shape: FieldsShape,
    pub fields: Vec<EventField>,
    /// Whether the variant is marked as anonymous.
    pub anonymous: bool,
}

/// The body of the item that declares an event.
#[derive(Clone, Debug, PartialEq, Eq)]
pub enum EventBody {
    Enum(Vec<EventVariant>),
    /// A struct or a union.
    Other,
}

/// The item that declares an event.
#[derive(Clone, Debug, PartialEq, Eq)]
pub struct EventDeclaration {
    pub name: String,
    pub body: EventBody,
}

/// Why a variant has no interface description.
#[derive(Clone, Copy, Debug, PartialEq, Eq)]
pub enum VariantError {
    /// The type of the field at `field` has no interface type.
    UnsupportedType { field: usize, error: TypeError },
    /// The field at `field` is one indexed field too many.
    TooManyIndexed { field: usize, anonymous: bool },
}

/// Why an event declaration is refused.
#[derive(Clone, Copy, Debug, PartialEq, Eq)]
pub enum EventError {
    /// The name is longer than 32 bytes.
    NameTooLong,
    /// The item is no enum.
    NotAnEnum,
    /// The variant at `variant` has no interface description.
    Variant { variant: usize, error: VariantError },
    /// The variant at `variant` has more fields than a log record has topics.
    TooManyTopics { variant: usize },
}

/// The longest event name, in bytes.
pub const MAX_EVENT_NAME_LEN: usize = 32;

/// The most topics that a log record holds.
pub const MAX_TOPICS: usize = 4;

/// The most indexed fields of a variant that is not anonymous: one topic
/// is kept for the event's signature.
pub const MAX_INDEXED: usize = 3;

/// The interface type of a field type.
pub open spec fn solidity_type(ty: FieldType) -> Result<Seq<char>, TypeError>
    decreases ty,
{
    match ty {
        FieldType::Other => Err(TypeError::Unsupported),
        FieldType::Path { ident: None, argument } => Err(TypeError::InvalidTypePath),
        FieldType::Path { ident: Some(name), argument } => {
            let name = name@;
            if name == "Address"@ {
                Ok("address"@)
            } else if name == "U256"@ {
                Ok("uint256"@)
            } else if name == "I256"@ {
                Ok("int256"@)
            } else if name == "Bytes32"@ {
                Ok("bytes32"@)
            } else if name == "bool"@ {
                Ok("bool"@)
            } else if name == "String"@ {
                Ok("string"@)
            } else if name == "Bytes"@ {
                Ok("bytes"@)
            } else if name == "Vec"@ {
                match argument {
                    None => Err(TypeError::VecRequiresTypeArgument),
                    Some(inner) => match solidity_type(*inner) {
                        Ok(element) => Ok(element + "[]"@),
                        Err(error) => Err(error),
                    },
                }
            } else {
                Err(TypeError::Unsupported)
            }
        },
    }
}

/// Whether `result` is the text or the failure that `model` describes.
pub open spec fn text_matches<E>(result: Result<String, E>, model: Result<Seq<char>, E>) -> bool {
    match result {
        Ok(text) => model == Ok::<Seq<char>, E>(text@),
        Err(error) => model == Err::<Seq<char>, E>(error),
    }
}

/// Maps a field type to its interface type.
pub fn get_solidity_type(ty: &FieldType) -> (result: Result<String, TypeError>)
    ensures
        text_matches(result, solidity_type(*ty)),
    decreases *ty,
{
    match ty {
        FieldType::Other => Err(TypeError::Unsupported),
        FieldType::Path { ident: None, argument: _ } => Err(TypeError::InvalidTypePath),
        FieldType::Path { ident: Some(name), argument } => {
            let name = name.as_str();
            if str_eq(name, "Address") {
                Ok(String::from_str("address"))
            } else if str_eq(name, "U256") {
                Ok(String::from_str("uint256"))
            } else if str_eq(name, "I256") {
                Ok(String::from_str("int256"))
            } else if str_eq(name, "Bytes32") {
                Ok(String::from_str("bytes32"))
            } else if str_eq(name, "bool") {
                Ok(String::from_str("bool"))
            } else if str_eq(name, "String") {
                Ok(String::from_str("string"))
            } else if str_eq(name, "Bytes") {
                Ok(String::from_str("bytes"))
            } else if str_eq(name, "Vec") {
                match argument {
                    None => Err(TypeError::VecRequiresTypeArgument),
                    Some(inner) => match get_solidity_type(inner) {
                        Ok(element) => {
                            let mut text = element;
                            text.append("[]");
                            Ok(text)
                        },
                        Err(error) => Err(error),
                    },
                }
            } else {
                Err(TypeError::Unsupported)
            }
        },
    }
}

/// The name under which the field at `index` is known.
pub open spec fn field_name(field: EventField, index: int) -> Seq<char> {
    match field.name {
        Some(name) => name@,
        None => "param_"@ + decimal(index as nat),
    }
}

/// The names of the fields of a variant.
pub open spec fn field_names(fields: Seq<EventField>) -> Seq<Seq<char>> {
    Seq::new(fields.len(), |i: int| field_name(fields[i], i))
}

/// The number of indexed fields among `fields`.
pub open spec fn indexed_count(fields: Seq<EventField>) -> nat
    decreases fields.len(),
{
    if fields.len() == 0 {
        0
    } else {
        indexed_count(fields.drop_last()) + if fields.last().indexed {
            1nat
        } else {
            0nat
        }
    }
}

/// The most indexed fields of a variant.
pub open spec fn indexed_limit(anonymous: bool) -> nat {
    if anonymous {
        MAX_TOPICS as nat
    } else {
        MAX_INDEXED as nat
    }
}

/// The description of one input.
pub open spec fn input_json(name: Seq<char>, type_text: Seq<char>, indexed: bool) -> Seq<char> {
    "{\"name\":\""@ + name + "\",\"type\":\""@ + type_text + "\",\"indexed\":"@ + bool_text(
        indexed,
    ) + "}"@
}

/// The descriptions of the inputs of a variant with the given fields, or
/// the first failure in field order. A field fails where its type has no
/// interface type, or where it is indexed and the variant then holds more
/// indexed fields than its limit.
pub open spec fn inputs_json(fields: Seq<EventField>, anonymous: bool) -> Result<
    Seq<Seq<char>>,
    VariantError,
>
    decreases fields.len(),
{
    if fields.len() == 0 {
        Ok(Seq::empty())
    } else {
        let index = fields.len() - 1;
        let field = fields.last();
        match inputs_json(fields.drop_last(), anonymous) {
            Err(error) => Err(error),
            Ok(inputs) => match solidity_type(field.ty) {
                Err(error) => Err(VariantError::UnsupportedType { field: index as usize, error }),
                Ok(type_text) => if field.indexed && indexed_count(fields) > indexed_limit(
                    anonymous,
                ) {
                    Err(VariantError::TooManyIndexed { field: index as usize, anonymous })
                } else {
                    Ok(inputs.push(input_json(field_name(field, index), type_text, field.indexed)))
                },
            },
        }
    }
}

/// The description of a variant with the given inputs.
pub open spec fn variant_json(event_name: Seq<char>, inputs: Seq<Seq<char>>, anonymous: bool) -> Seq<
    char,
> {
    "{\"type\":\"event\",\"name\":\""@ + event_name + "\",\"inputs\":["@ + joined(inputs, ","@)
        + "],\"anonymous\":"@ + bool_text(anonymous) + "}"@
}

/// The description of a variant of the event named `event_name`.
pub open spec fn variant_abi(event_name: Seq<char>, variant: EventVariant) -> Result<
    Seq<char>,
    VariantError,
> {
    match inputs_json(variant.fields@, variant.anonymous) {
        Err(error) => Err(error),
        Ok(inputs) => Ok(variant_json(event_name, inputs, variant.anonymous)),
    }
}

/// The budget of indexed fields: a variant whose field types all have an
/// interface type has a description exactly if it holds no more indexed
/// fields than its limit, which is three, or four for an anonymous variant.
pub proof fn lemma_indexed_budget(fields: Seq<EventField>, anonymous: bool)
    requires
        forall|i: int| 0 <= i < fields.len() ==> solidity_type(#[trigger] fields[i].ty) is Ok,
    ensures
        inputs_json(fields, anonymous) is Ok <==> indexed_count(fields) <= indexed_limit(anonymous),
    decreases fields.len(),
{
    if fields.len() > 0 {
        let before = fields.drop_last();
        assert forall|i: int| 0 <= i < before.len() implies solidity_type(
            #[trigger] before[i].ty,
        ) is Ok by {
            assert(before[i] == fields[i]);
        }
        lemma_indexed_budget(before, anonymous);
        assert(solidity_type(fields[fields.len() - 1].ty) is Ok);
    }
}

/// A failure among the first fields is the failure of the whole variant.
pub proof fn lemma_inputs_fail(fields: Seq<EventField>, anonymous: bool, i: int)
    requires
        0 <= i < fields.len(),
        inputs_json(fields.take(i + 1), anonymous) is Err,
    ensures
        inputs_json(fields, anonymous) == inputs_json(fields.take(i + 1), anonymous),
    decreases fields.len(),
{
    if i + 1 < fields.len() {
        assert(fields.drop_last().take(i + 1) =~= fields.take(i + 1));
        lemma_inputs_fail(fields.drop_last(), anonymous, i);
    } else {
        assert(fields.take(i + 1) =~= fields);
    }
}

fn field_name_of(field: &EventField, index: usize) -> (name: String)
    ensures
        name@ == field_name(*field, index as int),
{
    match &field.name {
        Some(name) => name.clone(),
        None => {
            let mut name = String::from_str("param_");
            let digits = decimal_string(index);
            name.append(digits.as_str());
            name
        },
    }
}

/// Writes the interface description of a variant of the event named
/// `event_name`.
pub fn abi_for_variant(event_name: &str, variant: &EventVariant) -> (result: Result<
    String,
    VariantError,
>)
    ensures
        text_matches(result, variant_abi(event_name@, *variant)),
{
    let mut params: Vec<String> = Vec::new();
    let mut indexed: usize = 0;
    let mut i: usize = 0;
    let limit: usize = if variant.anonymous {
        MAX_TOPICS
    } else {
        MAX_INDEXED
    };
    proof {
        assert(variant.fields@.take(0) =~= Seq::empty());
        assert(views(params@) =~= Seq::empty());
    }
    while i < variant.fields.len()
        invariant
            i <= variant.fields.len(),
            limit == indexed_limit(variant.anonymous),
            indexed == indexed_count(variant.fields@.take(i as int)),
            indexed <= limit,
            inputs_json(variant.fields@.take(i as int), variant.anonymous) == Ok::<
                Seq<Seq<char>>,
                VariantError,
            >(views(params@)),
        decreases variant.fields.len() - i,
    {
        let field = &variant.fields[i];
        proof {
            assert(variant.fields@.take(i + 1).drop_last() =~= variant.fields@.take(i as int));
            assert(variant.fields@.take(i + 1).last() == *field);
        }
        let param_name = field_name_of(field, i);
        let type_text = match get_solidity_type(&field.ty) {
            Ok(text) => text,
            Err(error) => {
                proof {
                    lemma_inputs_fail(variant.fields@, variant.anonymous, i as int);
                }
                return Err(VariantError::UnsupportedType { field: i, error });
            },
        };
        if field.indexed {
            if indexed >= limit {
                proof {
                    lemma_inputs_fail(variant.fields@, variant.anonymous, i as int);
                }
                return Err(VariantError::TooManyIndexed { field: i, anonymous: variant.anonymous });
            }
            indexed = indexed + 1;
        }
        let mut param = String::from_str("{\"name\":\"");
        param.append(param_name.as_str());
        param.append("\",\"type\":\"");
        param.append(type_text.as_str());
        param.append("\",\"indexed\":");
        param.append(bool_str(field.indexed));
        param.append("}");
        let ghost before = views(params@);
        params.push(param);
        proof {
            assert(views(params@) =~= before.push(param@));
        }
        i = i + 1;
    }
    proof {
        assert(variant.fields@.take(variant.fields.len() as int) =~= variant.fields@);
    }
    let list = join(&params, ",");
    let mut text = String::from_str("{\"type\":\"event\",\"name\":\"");
    text.append(event_name);
    text.append("\",\"inputs\":[");
    text.append(list.as_str());
    text.append("],\"anonymous\":");
    text.append(bool_str(variant.anonymous));
    text.append("}");
    Ok(text)
}

/// An emission entry point: it takes the variant's fields under the names
/// in `args` and hands them to the log primitive with `topics` topics.
#[derive(Clone, Debug, PartialEq, Eq)]
pub struct VariantFn {
    pub name: String,
    pub args: Vec<String>,
    pub topics: usize,
}

/// An arm of the dispatch from a value of the event to the entry point of
/// its variant.
#[derive(Clone, Debug, PartialEq, Eq)]
pub struct EmitArm {
    pub variant: String,
    pub shape: FieldsShape,
    pub args: Vec<String>,
    pub target: String,
}

pub struct VariantFnModel {
    pub name: Seq<char>,
    pub args: Seq<Seq<char>>,
    pub topics: nat,
}

pub struct EmitArmModel {
    pub variant: Seq<char>,
    pub shape: FieldsShape,
    pub args: Seq<Seq<char>>,
    pub target: Seq<char>,
}

impl View for VariantFn {
    type V = VariantFnModel;

    open spec fn view(&self) -> VariantFnModel {
        VariantFnModel { name: self.name@, args: views(self.args@), topics: self.topics as nat }
    }
}

impl View for EmitArm {
    type V = EmitArmModel;

    open spec fn view(&self) -> EmitArmModel {
        EmitArmModel {
            variant: self.variant@,
            shape: self.shape,
            args: views(self.args@),
            target: self.target@,
        }
    }
}

/// The models of a list of entry points.
pub open spec fn variant_fn_models(fns: Seq<VariantFn>) -> Seq<VariantFnModel> {
    Seq::new(fns.len(), |i: int| fns[i]@)
}

/// The models of a list of arms.
pub open spec fn arm_models(arms: Seq<EmitArm>) -> Seq<EmitArmModel> {
    Seq::new(arms.len(), |i: int| arms[i]@)
}

/// The entry point of `variant`, called `snake`: one topic for each field.
pub open spec fn variant_fn_model(variant: EventVariant, snake: Seq<char>) -> VariantFnModel {
    VariantFnModel {
        name: snake,
        args: field_names(variant.fields@),
        topics: variant.fields@.len(),
    }
}

/// The arm that leads from `variant` to its entry point, called `snake`.
pub open spec fn arm_model(variant: EventVariant, snake: Seq<char>) -> EmitArmModel {
    EmitArmModel {
        variant: variant.name@,
        shape: variant.shape,
        args: field_names(variant.fields@),
        target: snake,
    }
}

fn field_names_of(fields: &Vec<EventField>) -> (names: Vec<String>)
    ensures
        views(names@) == field_names(fields@),
{
    let mut names: Vec<String> = Vec::new();
    let mut i: usize = 0;
    while i < fields.len()
        invariant
            i <= fields.len(),
            names@.len() == i,
            forall|k: int| 0 <= k < i ==> (#[trigger] names@[k])@ == field_name(fields@[k], k),
        decreases fields.len() - i,
    {
        names.push(field_name_of(&fields[i], i));
        i = i + 1;
    }
    assert(views(names@) =~= field_names(fields@));
    names
}

/// Builds the entry point of `variant` under the name `snake`, and adds
/// the arm that leads to it to `expr_match`.
pub fn variant_fn(variant: &EventVariant, snake: String, expr_match: &mut Vec<EmitArm>) -> (entry:
    VariantFn)
    ensures
        entry@ == variant_fn_model(*variant, snake@),
        arm_models(final(expr_match)@) == arm_models(old(expr_match)@).push(
            arm_model(*variant, snake@),
        ),
{
    let ghost before = arm_models(expr_match@);
    let arm = EmitArm {
        variant: variant.name.clone(),
        shape: variant.shape,
        args: field_names_of(&variant.fields),
        target: snake.clone(),
    };
    expr_match.push(arm);
    proof {
        assert(arm_models(expr_match@) =~= before.push(arm_model(*variant, snake@)));
    }
    VariantFn { name: snake, args: field_names_of(&variant.fields), topics: variant.fields.len() }
}

/// Builds the entry point of `variant`, named by the snake-case form of
/// the variant's name, and adds the arm that leads to it to `expr_match`.
pub fn impl_variant_fns(variant: &EventVariant, expr_match: &mut Vec<EmitArm>) -> (entry: VariantFn)
    ensures
        entry@ == variant_fn_model(*variant, snake_case_ident(variant.name@)),
        arm_models(final(expr_match)@) == arm_models(old(expr_match)@).push(
            arm_model(*variant, snake_case_ident(variant.name@)),
        ),
{
    let snake = to_snake_case(variant.name.as_str());
    variant_fn(variant, snake, expr_match)
}

/// What an event declaration expands to.
#[derive(Clone, Debug, PartialEq, Eq)]
pub struct EventArtifact {
    /// The event's name, as it is logged.
    pub name: String,
    /// The interface description of all variants, a JSON array.
    pub abi: String,
    /// One entry point for each variant.
    pub variant_fns: Vec<VariantFn>,
    /// One arm for each variant.
    pub expr_match: Vec<EmitArm>,
}

pub struct EventArtifactModel {
    pub name: Seq<char>,
    pub abi: Seq<char>,
    pub variant_fns: Seq<VariantFnModel>,
    pub expr_match: Seq<EmitArmModel>,
}

impl View for EventArtifact {
    type V = EventArtifactModel;

    open spec fn view(&self) -> EventArtifactModel {
        EventArtifactModel {
            name: self.name@,
            abi: self.abi@,
            variant_fns: variant_fn_models(self.variant_fns@),
            expr_match: arm_models(self.expr_match@),
        }
    }
}

/// The descriptions of the variants of the event named `event_name`, or
/// the failure of the first variant that has none.
pub open spec fn variants_abi(event_name: Seq<char>, variants: Seq<EventVariant>) -> Result<
    Seq<Seq<char>>,
    EventError,
>
    decreases variants.len(),
{
    if variants.len() == 0 {
        Ok(Seq::empty())
    } else {
        match variants_abi(event_name, variants.drop_last()) {
            Err(error) => Err(error),
            Ok(abis) => match variant_abi(event_name, variants.last()) {
                Ok(abi) => Ok(abis.push(abi)),
                Err(error) => Err(
                    EventError::Variant { variant: (variants.len() - 1) as usize, error },
                ),
            },
        }
    }
}

/// The first variant with more fields than a log record has topics, or the
/// number of variants if there is none.
pub open spec fn first_wide_variant(variants: Seq<EventVariant>) -> int
    decreases variants.len(),
{
    if variants.len() == 0 {
        0
    } else if variants[0].fields@.len() > MAX_TOPICS {
        0
    } else {
        1 + first_wide_variant(variants.drop_first())
    }
}

/// The interface description of an event: the array of the descriptions
/// of its variants.
pub open spec fn abi_array(abis: Seq<Seq<char>>) -> Seq<char> {
    "["@ + joined(abis, ","@) + "]"@
}

/// The interface description of the event that `item` declares, or why the
/// declaration is refused. The name is checked first, then the body, then
/// the variants in their order.
pub open spec fn event_abi(item: EventDeclaration) -> Result<Seq<char>, EventError> {
    if encode_utf8(item.name@).len() > MAX_EVENT_NAME_LEN {
        Err(EventError::NameTooLong)
    } else {
        match item.body {
            EventBody::Other => Err(EventError::NotAnEnum),
            EventBody::Enum(variants) => match variants_abi(item.name@, variants@) {
                Err(error) => Err(error),
                Ok(abis) => Ok(abi_array(abis)),
            },
        }
    }
}

/// The snake-case forms of the names of a list of variants.
pub open spec fn variant_snake_names(variants: Seq<EventVariant>) -> Seq<Seq<char>> {
    Seq::new(variants.len(), |i: int| snake_case_ident(variants[i].name@))
}

/// What the declaration `item` expands to, where `snake_names` holds the
/// names of the entry points: a refusal of the interface description comes
/// first, then that of the first variant with too many fields.
pub open spec fn event_artifact(item: EventDeclaration, snake_names: Seq<Seq<char>>) -> Result<
    EventArtifactModel,
    EventError,
> {
    match event_abi(item) {
        Err(error) => Err(error),
        Ok(abi) => {
            let variants = item.body->Enum_0@;
            if first_wide_variant(variants) < variants.len() {
                Err(EventError::TooManyTopics { variant: first_wide_variant(variants) as usize })
            } else {
                Ok(
                    EventArtifactModel {
                        name: item.name@,
                        abi,
                        variant_fns: Seq::new(
                            variants.len(),
                            |i: int| variant_fn_model(variants[i], snake_names[i]),
                        ),
                        expr_match: Seq::new(
                            variants.len(),
                            |i: int| arm_model(variants[i], snake_names[i]),
                        ),
                    },
                )
            }
        },
    }
}

/// A failure among the first variants is the failure of the whole list.
pub proof fn lemma_variants_fail(event_name: Seq<char>, variants: Seq<EventVariant>, i: int)
    requires
        0 <= i < variants.len(),
        variants_abi(event_name, variants.take(i + 1)) is Err,
    ensures
        variants_abi(event_name, variants) == variants_abi(event_name, variants.take(i + 1)),
    decreases variants.len(),
{
    if i + 1 < variants.len() {
        assert(variants.drop_last().take(i + 1) =~= variants.take(i + 1));
        lemma_variants_fail(event_name, variants.drop_last(), i);
    } else {
        assert(variants.take(i + 1) =~= variants);
    }
}

/// Writes the interface description of the event that `item` declares.
pub fn abi(item: &EventDeclaration) -> (result: Result<String, EventError>)
    ensures
        text_matches(result, event_abi(*item)),
{
    if item.name.as_str().as_bytes().len() > MAX_EVENT_NAME_LEN {
        return Err(EventError::NameTooLong);
    }
    match &item.body {
        EventBody::Other => Err(EventError::NotAnEnum),
        EventBody::Enum(variants) => {
            let mut abis: Vec<String> = Vec::new();
            let mut i: usize = 0;
            proof {
                assert(variants@.take(0) =~= Seq::empty());
                assert(views(abis@) =~= Seq::empty());
            }
            while i < variants.len()
                invariant
                    i <= variants.len(),
                    encode_utf8(item.name@).len() <= MAX_EVENT_NAME_LEN,
                    item.body == EventBody::Enum(*variants),
                    variants_abi(item.name@, variants@.take(i as int)) == Ok::<
                        Seq<Seq<char>>,
                        EventError,
                    >(views(abis@)),
                decreases variants.len() - i,
            {
                proof {
                    assert(variants@.take(i + 1).drop_last() =~= variants@.take(i as int));
                    assert(variants@.take(i + 1).last() == variants@[i as int]);
                }
                match abi_for_variant(item.name.as_str(), &variants[i]) {
                    Ok(abi) => {
                        let ghost before = views(abis@);
                        abis.push(abi);
                        proof {
                            assert(views(abis@) =~= before.push(abi@));
                        }
                    },
                    Err(error) => {
                        proof {
                            lemma_variants_fail(item.name@, variants@, i as int);
                        }
                        return Err(EventError::Variant { variant: i, error });
                    },
                }
                i = i + 1;
            }
            proof {
                assert(variants@.take(variants.len() as int) =~= variants@);
            }
            let list = join(&abis, ",");
            let mut text = String::from_str("[");
            text.append(list.as_str());
            text.append("]");
            Ok(text)
        },
    }
}

/// Finds the first variant with more fields than a log record has topics.
fn find_wide_variant(variants: &Vec<EventVariant>) -> (k: usize)
    ensures
        k == first_wide_variant(variants@),
        k <= variants.len(),
{
    let mut k: usize = 0;
    proof {
        assert(variants@.skip(0) =~= variants@);
    }
    while k < variants.len() && variants[k].fields.len() <= MAX_TOPICS
        invariant
            k <= variants.len(),
            first_wide_variant(variants@) == k + first_wide_variant(variants@.skip(k as int)),
        decreases variants.len() - k,
    {
        proof {
            assert(variants@.skip(k as int).drop_first() =~= variants@.skip(k + 1));
        }
        k = k + 1;
    }
    k
}

/// Whether `result` is the artifact or the failure that `model` describes.
pub open spec fn artifact_matches(
    result: Result<EventArtifact, EventError>,
    model: Result<EventArtifactModel, EventError>,
) -> bool {
    match result {
        Ok(artifact) => model == Ok::<EventArtifactModel, EventError>(artifact@),
        Err(error) => model == Err::<EventArtifactModel, EventError>(error),
    }
}

/// Expands the event declaration `item`.
pub fn parse(item: &EventDeclaration) -> (result: Result<EventArtifact, EventError>)
    ensures
        artifact_matches(
            result,
            event_artifact(
                *item,
                match item.body {
                    EventBody::Enum(variants) => variant_snake_names(variants@),
                    EventBody::Other => Seq::empty(),
                },
            ),
        ),
{
    let abi = match abi(item) {
        Ok(abi) => abi,
        Err(error) => {
            return Err(error);
        },
    };
    match &item.body {
        EventBody::Other => Err(EventError::NotAnEnum),
        EventBody::Enum(variants) => {
            let wide = find_wide_variant(variants);
            if wide < variants.len() {
                return Err(EventError::TooManyTopics { variant: wide });
            }
            let mut variant_fns: Vec<VariantFn> = Vec::new();
            let mut expr_match: Vec<EmitArm> = Vec::new();
            let mut i: usize = 0;
            while i < variants.len()
                invariant
                    i <= variants.len(),
                    variant_fns@.len() == i,
                    expr_match@.len() == i,
                    forall|k: int|
                        0 <= k < i ==> (#[trigger] variant_fns@[k])@ == variant_fn_model(
                            variants@[k],
                            snake_case_ident(variants@[k].name@),
                        ),
                    forall|k: int|
                        0 <= k < i ==> (#[trigger] arm_models(expr_match@)[k]) == arm_model(
                            variants@[k],
                            snake_case_ident(variants@[k].name@),
                        ),
                decreases variants.len() - i,
            {
                let ghost arms_before = arm_models(expr_match@);
                let entry = impl_variant_fns(&variants[i], &mut expr_match);
                variant_fns.push(entry);
                proof {
                    assert(arm_models(expr_match@).len() == arms_before.len() + 1);
                    assert forall|k: int| 0 <= k < i + 1 implies (#[trigger] arm_models(
                        expr_match@,
                    )[k]) == arm_model(variants@[k], snake_case_ident(variants@[k].name@)) by {
                        if k < i {
                            assert(arm_models(expr_match@)[k] == arms_before[k]);
                        }
                    }
                }
                i = i + 1;
            }
            let artifact = EventArtifact { name: item.name.clone(), abi, variant_fns, expr_match };
            proof {
                let names = variant_snake_names(variants@);
                let model = event_artifact(*item, names)->Ok_0;
                assert(artifact@.variant_fns =~= model.variant_fns);
                assert(artifact@.expr_match =~= model.expr_match);
            }
            Ok(artifact)
        },
    }
}

/// The text that reports why a field's type has no interface type.
pub open spec fn type_error_text(error: TypeError) -> Seq<char> {
    match error {
        TypeError::InvalidTypePath => "Invalid type path for event parameter"@,
        TypeError::VecRequiresTypeArgument => "Vec requires a type argument"@,
        TypeError::Unsupported => "Unsupported type for event parameter"@,
    }
}

impl TypeError {
    /// The text that reports the failure.
    pub fn message(&self) -> (text: &'static str)
        ensures
            text@ == type_error_text(*self),
    {
        match self {
            TypeError::InvalidTypePath => "Invalid type path for event parameter",
            TypeError::VecRequiresTypeArgument => "Vec requires a type argument",
            TypeError::Unsupported => "Unsupported type for event parameter",
        }
    }
}

/// The variants of a declaration; a declaration that is no enum has none.
pub open spec fn variants_of(item: EventDeclaration) -> Seq<EventVariant> {
    match item.body {
        EventBody::Enum(variants) => variants@,
        EventBody::Other => Seq::empty(),
    }
}

/// The name of the variant at `index`; the empty name if there is no such
/// variant.
pub open spec fn variant_name(item: EventDeclaration, index: int) -> Seq<char> {
    if 0 <= index < variants_of(item).len() {
        variants_of(item)[index].name@
    } else {
        Seq::empty()
    }
}

/// The name of the field at `field` of the variant at `variant`; the name
/// by position if there is no such field.
pub open spec fn reported_field(item: EventDeclaration, variant: int, field: int) -> Seq<char> {
    if 0 <= variant < variants_of(item).len() && 0 <= field < variants_of(
        item,
    )[variant].fields@.len() {
        field_name(variants_of(item)[variant].fields@[field], field)
    } else {
        "param_"@ + decimal(field as nat)
    }
}

/// The text that reports why the declaration `item` is refused.
pub open spec fn event_error_text(item: EventDeclaration, error: EventError) -> Seq<char> {
    match error {
        EventError::NameTooLong => "Event name too long: "@ + item.name@,
        EventError::NotAnEnum => "Event can only be derived for enums"@,
        EventError::TooManyTopics { variant } => "Event '"@ + variant_name(item, variant as int)
            + "' has more than 4 fields"@,
        EventError::Variant { variant, error } => match error {
            VariantError::UnsupportedType { field, error } => "Unsupported type for "@
                + reported_field(item, variant as int, field as int) + ": "@ + type_error_text(
                error,
            ),
            VariantError::TooManyIndexed { field, anonymous } => if anonymous {
                "Event '"@ + variant_name(item, variant as int)
                    + "' exceeds 4 indexed parameters even for anonymous event"@
            } else {
                "Event '"@ + variant_name(item, variant as int)
                    + "' exceeds 3 indexed parameters for non-anonymous event"@
            },
        },
    }
}

fn variant_name_of(item: &EventDeclaration, index: usize) -> (name: String)
    ensures
        name@ == variant_name(*item, index as int),
{
    match &item.body {
        EventBody::Enum(variants) => if index < variants.len() {
            variants[index].name.clone()
        } else {
            String::new()
        },
        EventBody::Other => String::new(),
    }
}

fn reported_field_of(item: &EventDeclaration, variant: usize, field: usize) -> (name: String)
    ensures
        name@ == reported_field(*item, variant as int, field as int),
{
    match &item.body {
        EventBody::Enum(variants) => {
            if variant < variants.len() && field < variants[variant].fields.len() {
                return field_name_of(&variants[variant].fields[field], field);
            }
        },
        EventBody::Other => {},
    }
    let mut name = String::from_str("param_");
    let digits = decimal_string(field);
    name.append(digits.as_str());
    name
}

impl EventError {
    /// Writes the text that reports why the declaration `item` is refused.
    pub fn message(&self, item: &EventDeclaration) -> (text: String)
        ensures
            text@ == event_error_text(*item, *self),
    {
        match self {
            EventError::NameTooLong => {
                let mut text = String::from_str("Event name too long: ");
                text.append(item.name.as_str());
                text
            },
            EventError::NotAnEnum => String::from_str("Event can only be derived for enums"),
            EventError::TooManyTopics { variant } => {
                let mut text = String::from_str("Event '");
                let name = variant_name_of(item, *variant);
                text.append(name.as_str());
                text.append("' has more than 4 fields");
                text
            },
            EventError::Variant { variant, error } => match error {
                VariantError::UnsupportedType { field, error } => {
                    let mut text = String::from_str("Unsupported type for ");
                    let name = reported_field_of(item, *variant, *field);
                    text.append(name.as_str());
                    text.append(": ");
                    text.append(error.message());
                    text
                },
                VariantError::TooManyIndexed { field: _, anonymous } => {
                    let mut text = String::from_str("Event '");
                    let name = variant_name_of(item, *variant);
                    text.append(name.as_str());
                    if *anonymous {
                        text.append("' exceeds 4 indexed parameters even for anonymous event");
                    } else {
                        text.append("' exceeds 3 indexed parameters for non-anonymous event");
                    }
                    text
                },
            },
        }
    }
}

} // verus!
