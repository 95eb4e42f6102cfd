//! Storage declarations: the shape of a declaration, its getter and the
//! artifact that it expands to.
use vstd::prelude::*;
use vstd::string::*;
use crate::codegen::registry::{allocation, declared, AllocationError, Registry, StorageKind};
use crate::codegen::{snake_case_ident, to_snake_case};
use crate::storage::{slot_bytes32, slot_word};
use crate::text::{split, split_at_char, str_eq, trim, trimmed};

verus! {

/// Why a storage declaration is refused.
#[derive(Clone, Copy, Debug, PartialEq, Eq)]
pub enum StorageError {
    /// The shape names neither one, two nor three types.
    InvalidStorageAttributes,
    /// A getter attribute without a list of arguments.
    InvalidGetterArguments,
    /// A getter attribute whose first argument is no identifier.
    InvalidGetterName,
    /// The declaration has no shape.
    InvalidStorageType,
    /// The name was already declared in its namespace.
    DuplicateName,
    /// The namespace has no slot index left.
    SlotsExhausted,
}

/// The text that reports why the declaration of the storage `name` in the
/// namespace `kind` is refused.
pub open spec fn storage_error_text(error: StorageError, kind: StorageKind, name: Seq<char>) -> Seq<
    char,
> {
    match error {
        StorageError::InvalidStorageAttributes => "Invalid storage attributes"@,
        StorageError::InvalidGetterArguments => "Invalid getter arguments"@,
        StorageError::InvalidGetterName => "Invalid getter function name"@,
        StorageError::InvalidStorageType => "Invalid storage type"@,
        StorageError::DuplicateName => match kind {
            StorageKind::Persistent => "Storage "@ + name + " has already been declared"@,
            StorageKind::Transient => "Transient storage "@ + name + " has already been declared"@,
        },
        StorageError::SlotsExhausted => "No storage slot is left for "@ + name,
    }
}

impl StorageError {
    /// Writes the text that reports why the declaration of the storage
    /// `name` in the namespace `kind` is refused.
    pub fn message(&self, kind: StorageKind, name: &str) -> (text: String)
        ensures
            text@ == storage_error_text(*self, kind, name@),
    {
        match self {
            StorageError::InvalidStorageAttributes => String::from_str("Invalid storage attributes"),
            StorageError::InvalidGetterArguments => String::from_str("Invalid getter arguments"),
            StorageError::InvalidGetterName => String::from_str("Invalid getter function name"),
            StorageError::InvalidStorageType => String::from_str("Invalid storage type"),
            StorageError::DuplicateName => {
                let mut text = match kind {
                    StorageKind::Persistent => String::from_str("Storage "),
                    StorageKind::Transient => String::from_str("Transient storage "),
                };
                text.append(name);
                text.append(" has already been declared");
                text
            },
            StorageError::SlotsExhausted => {
                let mut text = String::from_str("No storage slot is left for ");
                text.append(name);
                text
            },
        }
    }
}

/// The shape of a storage declaration, with the names of its types.
#[derive(Clone, Debug, PartialEq, Eq)]
pub enum StorageType {
    /// Single value storage.
    Value(String),
    /// Mapping storage.
    Mapping { key: String, value: String },
    /// Double key mapping storage.
    DoubleKeyMapping { key1: String, key2: String, value: String },
    /// Invalid storage type.
    Invalid,
}

pub enum StorageTypeModel {
    Value(Seq<char>),
    Mapping { key: Seq<char>, value: Seq<char> },
    DoubleKeyMapping { key1: Seq<char>, key2: Seq<char>, value: Seq<char> },
    Invalid,
}

impl View for StorageType {
    type V = StorageTypeModel;

    open spec fn view(&self) -> StorageTypeModel {
        match self {
            StorageType::Value(value) => StorageTypeModel::Value(value@),
            StorageType::Mapping { key, value } => StorageTypeModel::Mapping {
                key: key@,
                value: value@,
            },
            StorageType::DoubleKeyMapping { key1, key2, value } => StorageTypeModel::DoubleKeyMapping {
                key1: key1@,
                key2: key2@,
                value: value@,
            },
            StorageType::Invalid => StorageTypeModel::Invalid,
        }
    }
}

impl Default for StorageType {
    fn default() -> (ty: Self)
        ensures
            ty@ == StorageTypeModel::Invalid,
    {
        StorageType::Invalid
    }
}

/// The shape that `text` names: the types of a shape are separated by
/// commas, and the white space around each is dropped. One type is a
/// value, two are a key and a value, three are two keys and a value.
pub open spec fn storage_type_of(text: Seq<char>) -> Result<StorageTypeModel, StorageError> {
    let types = split(text, ',');
    if types.len() == 1 {
        Ok(StorageTypeModel::Value(trimmed(types[0])))
    } else if types.len() == 2 {
        Ok(StorageTypeModel::Mapping { key: trimmed(types[0]), value: trimmed(types[1]) })
    } else if types.len() == 3 {
        Ok(
            StorageTypeModel::DoubleKeyMapping {
                key1: trimmed(types[0]),
                key2: trimmed(types[1]),
                value: trimmed(types[2]),
            },
        )
    } else {
        Err(StorageError::InvalidStorageAttributes)
    }
}

impl StorageType {
    /// Reads a shape from the text of its attribute.
    pub fn from(input: &str) -> (result: Result<StorageType, StorageError>)
        ensures
            match result {
                Ok(ty) => storage_type_of(input@) == Ok::<StorageTypeModel, StorageError>(ty@),
                Err(error) => storage_type_of(input@) == Err::<StorageTypeModel, StorageError>(
                    error,
                ),
            },
    {
        let types = split_at_char(input, ',');
        if types.len() == 1 {
            Ok(StorageType::Value(trim(types[0].as_str())))
        } else if types.len() == 2 {
            Ok(
                StorageType::Mapping {
                    key: trim(types[0].as_str()),
                    value: trim(types[1].as_str()),
                },
            )
        } else if types.len() == 3 {
            Ok(
                StorageType::DoubleKeyMapping {
                    key1: trim(types[0].as_str()),
                    key2: trim(types[1].as_str()),
                    value: trim(types[2].as_str()),
                },
            )
        } else {
            Err(StorageError::InvalidStorageAttributes)
        }
    }
}

/// What the expansion reads of the arguments of an attribute.
#[derive(Debug, PartialEq, Eq)]
pub enum AttributeArgs {
    /// The attribute has no list of arguments.
    NotList,
    /// The attribute has a list of arguments; `first_ident` is its first
    /// token, if that is an identifier.
    List { first_ident: Option<String> },
}

/// An attribute of a declaration.
#[derive(Debug, PartialEq, Eq)]
pub struct Attribute {
    /// The path of the attribute, if it is a single identifier.
    pub path: Option<String>,
    pub args: AttributeArgs,
}

impl Clone for AttributeArgs {
    fn clone(&self) -> (copy: Self)
        ensures
            copy == *self,
    {
        match self {
            AttributeArgs::NotList => AttributeArgs::NotList,
            AttributeArgs::List { first_ident } => AttributeArgs::List {
                first_ident: match first_ident {
                    Some(ident) => Some(ident.clone()),
                    None => None,
                },
            },
        }
    }
}

impl Clone for Attribute {
    fn clone(&self) -> (copy: Self)
        ensures
            copy == *self,
    {
        Attribute {
            path: match &self.path {
                Some(path) => Some(path.clone()),
                None => None,
            },
            args: self.args.clone(),
        }
    }
}

/// The struct that declares a storage.
#[derive(Debug, PartialEq, Eq)]
pub struct StructDecl {
    pub ident: String,
    /// Whether the struct is public.
    pub public: bool,
    pub attrs: Vec<Attribute>,
}

impl Clone for StructDecl {
    fn clone(&self) -> (copy: Self)
        ensures
            copy.ident == self.ident,
            copy.public == self.public,
            copy.attrs@ == self.attrs@,
    {
        let mut attrs: Vec<Attribute> = Vec::new();
        let mut i: usize = 0;
        while i < self.attrs.len()
            invariant
                i <= self.attrs.len(),
                attrs@ == self.attrs@.take(i as int),
            decreases self.attrs.len() - i,
        {
            attrs.push(self.attrs[i].clone());
            assert(attrs@ =~= self.attrs@.take(i + 1));
            i = i + 1;
        }
        assert(self.attrs@.take(self.attrs.len() as int) =~= self.attrs@);
        StructDecl { ident: self.ident.clone(), public: self.public, attrs }
    }
}

/// A storage declaration.
#[derive(Clone, Debug, PartialEq, Eq)]
pub struct Storage {
    /// Storage kind (persistent or transient).
    pub kind: StorageKind,
    /// The shape of the storage.
    pub ty: StorageType,
    /// The struct that declares the storage, without its getter attributes.
    pub target: StructDecl,
    /// The getter that the declaration names.
    pub getter: Option<String>,
    /// The positions, in the declaration, of the attributes that stay.
    pub kept: Vec<usize>,
}

/// Whether an attribute names a getter.
pub open spec fn is_getter(attr: Attribute) -> bool {
    attr.path matches Some(path) && path@ == "getter"@
}

/// The getter that the attributes name, or the first failure in their
/// order. Where several attributes name a getter, the last one counts.
pub open spec fn getter_of(attrs: Seq<Attribute>) -> Result<Option<Seq<char>>, StorageError>
    decreases attrs.len(),
{
    if attrs.len() == 0 {
        Ok(None)
    } else {
        match getter_of(attrs.drop_last()) {
            Err(error) => Err(error),
            Ok(getter) => if !is_getter(attrs.last()) {
                Ok(getter)
            } else {
                match attrs.last().args {
                    AttributeArgs::NotList => Err(StorageError::InvalidGetterArguments),
                    AttributeArgs::List { first_ident: None } => Err(
                        StorageError::InvalidGetterName,
                    ),
                    AttributeArgs::List { first_ident: Some(ident) } => Ok(Some(ident@)),
                }
            },
        }
    }
}

/// The attributes that name no getter, in their order.
pub open spec fn other_attrs(attrs: Seq<Attribute>) -> Seq<Attribute> {
    attrs.filter(|attr: Attribute| !is_getter(attr))
}

/// The positions of the attributes that name no getter, in their order.
pub open spec fn kept_positions(attrs: Seq<Attribute>) -> Seq<usize>
    decreases attrs.len(),
{
    if attrs.len() == 0 {
        Seq::empty()
    } else if is_getter(attrs.last()) {
        kept_positions(attrs.drop_last())
    } else {
        kept_positions(attrs.drop_last()).push((attrs.len() - 1) as usize)
    }
}

/// The attributes that stay are the attributes at the kept positions, one
/// for one.
pub proof fn lemma_kept_positions(attrs: Seq<Attribute>)
    requires
        attrs.len() <= usize::MAX,
    ensures
        kept_positions(attrs).len() == other_attrs(attrs).len(),
        forall|k: int|
            0 <= k < kept_positions(attrs).len() ==> (#[trigger] kept_positions(attrs)[k])
                < attrs.len() && other_attrs(attrs)[k] == attrs[kept_positions(attrs)[k] as int],
    decreases attrs.len(),
{
    reveal(Seq::filter);
    if attrs.len() > 0 {
        let before = attrs.drop_last();
        lemma_kept_positions(before);
        assert forall|k: int| 0 <= k < kept_positions(attrs).len() implies (
        #[trigger] kept_positions(attrs)[k]) < attrs.len() && other_attrs(attrs)[k]
            == attrs[kept_positions(attrs)[k] as int] by {
            if k < kept_positions(before).len() {
                assert(kept_positions(attrs)[k] == kept_positions(before)[k]);
                assert(other_attrs(attrs)[k] == other_attrs(before)[k]);
                assert(before[kept_positions(before)[k] as int] == attrs[kept_positions(
                    before,
                )[k] as int]);
            }
        }
    }
}

/// A failure among the first attributes is the failure of the whole list.
pub proof fn lemma_getter_fail(attrs: Seq<Attribute>, i: int)
    requires
        0 <= i < attrs.len(),
        getter_of(attrs.take(i + 1)) is Err,
    ensures
        getter_of(attrs) == getter_of(attrs.take(i + 1)),
    decreases attrs.len(),
{
    if i + 1 < attrs.len() {
        assert(attrs.drop_last().take(i + 1) =~= attrs.take(i + 1));
        lemma_getter_fail(attrs.drop_last(), i);
    } else {
        assert(attrs.take(i + 1) =~= attrs);
    }
}

/// The view of an optional string.
pub open spec fn name_view(name: Option<String>) -> Option<Seq<char>> {
    match name {
        Some(name) => Some(name@),
        None => None,
    }
}

/// The getter of a declaration: the one that it names, else, for a public
/// struct, the name `snake`.
pub open spec fn getter_name(explicit: Option<Seq<char>>, public: bool, snake: Seq<char>) -> Option<
    Seq<char>,
> {
    match explicit {
        Some(name) => Some(name),
        None => if public {
            Some(snake)
        } else {
            None
        },
    }
}

/// Picks the getter of a declaration: the one that it names, else, for a
/// public struct, the name `snake`.
pub fn choose_getter(explicit: Option<String>, public: bool, snake: String) -> (getter: Option<
    String,
>)
    ensures
        name_view(getter) == getter_name(name_view(explicit), public, snake@),
{
    match explicit {
        Some(name) => Some(name),
        None => if public {
            Some(snake)
        } else {
            None
        },
    }
}

/// The trait that a storage of the given namespace and shape implements.
pub open spec fn trait_path_of(kind: StorageKind, ty: StorageTypeModel) -> Seq<char> {
    match ty {
        StorageTypeModel::Value(_) => match kind {
            StorageKind::Persistent => "zink::storage::Storage"@,
            StorageKind::Transient => "zink::storage::TransientStorage"@,
        },
        StorageTypeModel::Mapping { .. } => match kind {
            StorageKind::Persistent => "zink::storage::Mapping"@,
            StorageKind::Transient => "zink::transient_storage::TransientMapping"@,
        },
        _ => match kind {
            StorageKind::Persistent => "zink::storage::DoubleKeyMapping"@,
            StorageKind::Transient => "zink::transient_storage::DoubleKeyTransientMapping"@,
        },
    }
}

/// What a storage declaration expands to.
#[derive(Clone, Debug, PartialEq, Eq)]
pub struct StorageArtifact {
    /// The struct, without its getter attributes.
    pub target: StructDecl,
    /// The trait that the struct implements.
    pub trait_path: String,
    /// The slot of the storage.
    pub storage_slot: i32,
    /// The storage key of a single value: the canonical word of its slot.
    pub storage_key: Option<[u8; 32]>,
    /// The shape, with the types of keys and value.
    pub ty: StorageType,
    /// The name of the getter, if the storage has one.
    pub getter: Option<String>,
    /// The positions, in the declaration, of the attributes that stay.
    pub kept: Vec<usize>,
}

pub struct StorageArtifactModel {
    pub ident: Seq<char>,
    pub public: bool,
    pub attrs: Seq<Attribute>,
    pub trait_path: Seq<char>,
    pub storage_slot: i32,
    pub storage_key: Option<Seq<u8>>,
    pub ty: StorageTypeModel,
    pub getter: Option<Seq<char>>,
    pub kept: Seq<usize>,
}

impl View for StorageArtifact {
    type V = StorageArtifactModel;

    open spec fn view(&self) -> StorageArtifactModel {
        StorageArtifactModel {
            ident: self.target.ident@,
            public: self.target.public,
            attrs: self.target.attrs@,
            trait_path: self.trait_path@,
            storage_slot: self.storage_slot,
            storage_key: match self.storage_key {
                Some(key) => Some(key@),
                None => None,
            },
            ty: self.ty@,
            getter: name_view(self.getter),
            kept: self.kept@,
        }
    }
}

/// The failure of a declaration whose name gets no slot.
pub open spec fn slot_error(error: AllocationError) -> StorageError {
    match error {
        AllocationError::Duplicate => StorageError::DuplicateName,
        AllocationError::Exhausted => StorageError::SlotsExhausted,
    }
}

/// What a declaration of the shape `ty` expands to in a namespace that
/// holds `names`, where `getter` is the getter that the declaration names
/// and `snake` the snake-case form of the name of its struct.
pub open spec fn shape_expansion(
    kind: StorageKind,
    ident: Seq<char>,
    public: bool,
    attrs: Seq<Attribute>,
    kept: Seq<usize>,
    getter: Option<Seq<char>>,
    ty: StorageTypeModel,
    names: Seq<Seq<char>>,
    snake: Seq<char>,
) -> Result<StorageArtifactModel, StorageError> {
    match allocation(names, ident) {
        Err(error) => Err(slot_error(error)),
        Ok(slot) => Ok(
            StorageArtifactModel {
                ident,
                public,
                attrs,
                trait_path: trait_path_of(kind, ty),
                storage_slot: slot as i32,
                storage_key: if ty is Value {
                    Some(slot_word(slot as i32))
                } else {
                    None
                },
                ty,
                getter: getter_name(getter, public, snake),
                kept,
            },
        ),
    }
}

/// What `storage` expands to in a namespace that holds `names`, where
/// `snake` is the snake-case form of the name of its struct. A declaration
/// without a shape is refused before its name is looked up.
pub open spec fn expansion(storage: Storage, names: Seq<Seq<char>>, snake: Seq<char>) -> Result<
    StorageArtifactModel,
    StorageError,
> {
    if storage.ty@ is Invalid {
        Err(StorageError::InvalidStorageType)
    } else {
        shape_expansion(
            storage.kind,
            storage.target.ident@,
            storage.target.public,
            storage.target.attrs@,
            storage.kept@,
            name_view(storage.getter),
            storage.ty@,
            names,
            snake,
        )
    }
}

/// The names of a namespace after `storage` was expanded in it.
pub open spec fn names_after(storage: Storage, names: Seq<Seq<char>>) -> Seq<Seq<char>> {
    if storage.ty@ is Invalid {
        names
    } else {
        declared(names, storage.target.ident@)
    }
}

/// Whether `result` is the artifact or the failure that `model` describes.
pub open spec fn artifact_matches(
    result: Result<StorageArtifact, StorageError>,
    model: Result<StorageArtifactModel, StorageError>,
) -> bool {
    match result {
        Ok(artifact) => model == Ok::<StorageArtifactModel, StorageError>(artifact@),
        Err(error) => model == Err::<StorageArtifactModel, StorageError>(error),
    }
}

impl Storage {
    /// Reads a declaration from the struct `target`: its getter attributes
    /// are taken out, and the last of them names the getter.
    pub fn from_parts(kind: StorageKind, ty: StorageType, target: StructDecl) -> (result: Result<
        Storage,
        StorageError,
    >)
        ensures
            match result {
                Ok(storage) => {
                    &&& getter_of(target.attrs@) == Ok::<Option<Seq<char>>, StorageError>(
                        name_view(storage.getter),
                    )
                    &&& storage.kind == kind
                    &&& storage.ty == ty
                    &&& storage.target.ident == target.ident
                    &&& storage.target.public == target.public
                    &&& storage.target.attrs@ == other_attrs(target.attrs@)
                    &&& storage.kept@ == kept_positions(target.attrs@)
                },
                Err(error) => getter_of(target.attrs@) == Err::<Option<Seq<char>>, StorageError>(
                    error,
                ),
            },
    {
        let mut getter: Option<String> = None;
        let mut attrs: Vec<Attribute> = Vec::new();
        let mut kept: Vec<usize> = Vec::new();
        let mut i: usize = 0;
        proof {
            assert(target.attrs@.take(0) =~= Seq::empty());
            assert(other_attrs(Seq::<Attribute>::empty()) =~= Seq::empty());
        }
        while i < target.attrs.len()
            invariant
                i <= target.attrs.len(),
                getter_of(target.attrs@.take(i as int)) == Ok::<Option<Seq<char>>, StorageError>(
                    name_view(getter),
                ),
                attrs@ == other_attrs(target.attrs@.take(i as int)),
                kept@ == kept_positions(target.attrs@.take(i as int)),
            decreases target.attrs.len() - i,
        {
            let attr = &target.attrs[i];
            proof {
                assert(target.attrs@.take(i + 1).drop_last() =~= target.attrs@.take(i as int));
                assert(target.attrs@.take(i + 1).last() == *attr);
                reveal(Seq::filter);
            }
            let names_getter = match &attr.path {
                Some(path) => str_eq(path.as_str(), "getter"),
                None => false,
            };
            if !names_getter {
                attrs.push(attr.clone());
                kept.push(i);
            } else {
                match &attr.args {
                    AttributeArgs::NotList => {
                        proof {
                            lemma_getter_fail(target.attrs@, i as int);
                        }
                        return Err(StorageError::InvalidGetterArguments);
                    },
                    AttributeArgs::List { first_ident: None } => {
                        proof {
                            lemma_getter_fail(target.attrs@, i as int);
                        }
                        return Err(StorageError::InvalidGetterName);
                    },
                    AttributeArgs::List { first_ident: Some(ident) } => {
                        getter = Some(ident.clone());
                    },
                }
            }
            i = i + 1;
        }
        proof {
            assert(target.attrs@.take(target.attrs.len() as int) =~= target.attrs@);
        }
        Ok(
            Storage {
                kind,
                ty,
                target: StructDecl { ident: target.ident, public: target.public, attrs },
                getter,
                kept,
            },
        )
    }

    /// Gives `name` the next slot of the namespace of this storage.
    pub fn get_storage_slot(&self, registry: &mut Registry, name: &str) -> (result: Result<
        i32,
        StorageError,
    >)
        requires
            old(registry).well_formed(),
        ensures
            final(registry).well_formed(),
            match result {
                Ok(slot) => allocation(old(registry).names(self.kind), name@) == Ok::<
                    int,
                    AllocationError,
                >(slot as int),
                Err(error) => allocation(old(registry).names(self.kind), name@) matches Err(cause)
                    && error == slot_error(cause),
            },
            final(registry).names(self.kind) == declared(old(registry).names(self.kind), name@),
            forall|other: StorageKind|
                other != self.kind ==> final(registry).names(other) == old(registry).names(other),
    {
        match registry.allocate(self.kind, name) {
            Ok(slot) => Ok(slot),
            Err(AllocationError::Duplicate) => Err(StorageError::DuplicateName),
            Err(AllocationError::Exhausted) => Err(StorageError::SlotsExhausted),
        }
    }

    /// Takes the getter of this storage: the one that the declaration
    /// names, else, for a public struct, the snake-case form of its name.
    pub fn getter(&mut self) -> (getter: Option<String>)
        ensures
            name_view(getter) == getter_name(
                name_view(old(self).getter),
                old(self).target.public,
                snake_case_ident(old(self).target.ident@),
            ),
            final(self).getter is None,
            final(self).kind == old(self).kind,
            final(self).ty == old(self).ty,
            final(self).target == old(self).target,
            final(self).kept == old(self).kept,
    {
        let snake = to_snake_case(self.target.ident.as_str());
        let explicit = self.getter.take();
        choose_getter(explicit, self.target.public, snake)
    }
}

/// Writes the path of the trait that a storage of the given namespace and
/// shape implements.
pub fn trait_path(kind: StorageKind, ty: &StorageType) -> (path: String)
    ensures
        path@ == trait_path_of(kind, ty@),
{
    match ty {
        StorageType::Value(_) => match kind {
            StorageKind::Persistent => String::from_str("zink::storage::Storage"),
            StorageKind::Transient => String::from_str("zink::storage::TransientStorage"),
        },
        StorageType::Mapping { key: _, value: _ } => match kind {
            StorageKind::Persistent => String::from_str("zink::storage::Mapping"),
            StorageKind::Transient => String::from_str("zink::transient_storage::TransientMapping"),
        },
        _ => match kind {
            StorageKind::Persistent => String::from_str("zink::storage::DoubleKeyMapping"),
            StorageKind::Transient => String::from_str(
                "zink::transient_storage::DoubleKeyTransientMapping",
            ),
        },
    }
}

fn copy_positions(positions: &Vec<usize>) -> (copy: Vec<usize>)
    ensures
        copy@ == positions@,
{
    let mut copy: Vec<usize> = Vec::new();
    let mut i: usize = 0;
    while i < positions.len()
        invariant
            i <= positions.len(),
            copy@ == positions@.take(i as int),
        decreases positions.len() - i,
    {
        copy.push(positions[i]);
        assert(copy@ =~= positions@.take(i + 1));
        i = i + 1;
    }
    assert(positions@.take(positions.len() as int) =~= positions@);
    copy
}

/// What an expansion leaves of the declaration: the getter is taken where
/// the expansion succeeds, and nothing else changes.
pub open spec fn expanded(before: Storage, after: Storage, success: bool) -> bool {
    &&& after.kind == before.kind
    &&& after.ty == before.ty
    &&& after.target == before.target
    &&& after.kept == before.kept
    &&& if success {
        after.getter is None
    } else {
        after.getter == before.getter
    }
}

impl Storage {
    /// Expands a declaration of a single value of the type `value`.
    pub fn expand_value(&mut self, registry: &mut Registry, value: String) -> (result: Result<
        StorageArtifact,
        StorageError,
    >)
        requires
            old(registry).well_formed(),
        ensures
            final(registry).well_formed(),
            artifact_matches(
                result,
                shape_expansion(
                    old(self).kind,
                    old(self).target.ident@,
                    old(self).target.public,
                    old(self).target.attrs@,
                    old(self).kept@,
                    name_view(old(self).getter),
                    StorageTypeModel::Value(value@),
                    old(registry).names(old(self).kind),
                    snake_case_ident(old(self).target.ident@),
                ),
            ),
            expanded(*old(self), *final(self), result is Ok),
            final(registry).names(old(self).kind) == declared(
                old(registry).names(old(self).kind),
                old(self).target.ident@,
            ),
            forall|other: StorageKind|
                other != old(self).kind ==> final(registry).names(other) == old(registry).names(
                    other,
                ),
    {
        let slot = match self.get_storage_slot(registry, self.target.ident.as_str()) {
            Ok(slot) => slot,
            Err(error) => {
                return Err(error);
            },
        };
        let key = slot_bytes32(slot);
        let ty = StorageType::Value(value);
        let trait_path = trait_path(self.kind, &ty);
        let getter = self.getter();
        Ok(
            StorageArtifact {
                target: self.target.clone(),
                trait_path,
                storage_slot: slot,
                storage_key: Some(key),
                ty,
                getter,
                kept: copy_positions(&self.kept),
            },
        )
    }

    /// Expands a declaration of a mapping from `key` to `value`.
    pub fn expand_mapping(&mut self, registry: &mut Registry, key: String, value: String) -> (result:
        Result<StorageArtifact, StorageError>)
        requires
            old(registry).well_formed(),
        ensures
            final(registry).well_formed(),
            artifact_matches(
                result,
                shape_expansion(
                    old(self).kind,
                    old(self).target.ident@,
                    old(self).target.public,
                    old(self).target.attrs@,
                    old(self).kept@,
                    name_view(old(self).getter),
                    StorageTypeModel::Mapping { key: key@, value: value@ },
                    old(registry).names(old(self).kind),
                    snake_case_ident(old(self).target.ident@),
                ),
            ),
            expanded(*old(self), *final(self), result is Ok),
            final(registry).names(old(self).kind) == declared(
                old(registry).names(old(self).kind),
                old(self).target.ident@,
            ),
            forall|other: StorageKind|
                other != old(self).kind ==> final(registry).names(other) == old(registry).names(
                    other,
                ),
    {
        let slot = match self.get_storage_slot(registry, self.target.ident.as_str()) {
            Ok(slot) => slot,
            Err(error) => {
                return Err(error);
            },
        };
        let ty = StorageType::Mapping { key, value };
        let trait_path = trait_path(self.kind, &ty);
        let getter = self.getter();
        Ok(
            StorageArtifact {
                target: self.target.clone(),
                trait_path,
                storage_slot: slot,
                storage_key: None,
                ty,
                getter,
                kept: copy_positions(&self.kept),
            },
        )
    }

    /// Expands a declaration of a mapping from `key1` and `key2` to
    /// `value`.
    pub fn expand_dk_mapping(
        &mut self,
        registry: &mut Registry,
        key1: String,
        key2: String,
        value: String,
    ) -> (result: Result<StorageArtifact, StorageError>)
        requires
            old(registry).well_formed(),
        ensures
            final(registry).well_formed(),
            artifact_matches(
                result,
                shape_expansion(
                    old(self).kind,
                    old(self).target.ident@,
                    old(self).target.public,
                    old(self).target.attrs@,
                    old(self).kept@,
                    name_view(old(self).getter),
                    StorageTypeModel::DoubleKeyMapping { key1: key1@, key2: key2@, value: value@ },
                    old(registry).names(old(self).kind),
                    snake_case_ident(old(self).target.ident@),
                ),
            ),
            expanded(*old(self), *final(self), result is Ok),
            final(registry).names(old(self).kind) == declared(
                old(registry).names(old(self).kind),
                old(self).target.ident@,
            ),
            forall|other: StorageKind|
                other != old(self).kind ==> final(registry).names(other) == old(registry).names(
                    other,
                ),
    {
        let slot = match self.get_storage_slot(registry, self.target.ident.as_str()) {
            Ok(slot) => slot,
            Err(error) => {
                return Err(error);
            },
        };
        let ty = StorageType::DoubleKeyMapping { key1, key2, value };
        let trait_path = trait_path(self.kind, &ty);
        let getter = self.getter();
        Ok(
            StorageArtifact {
                target: self.target.clone(),
                trait_path,
                storage_slot: slot,
                storage_key: None,
                ty,
                getter,
                kept: copy_positions(&self.kept),
            },
        )
    }

    /// Expands this declaration by its shape.
    pub fn expand(self, registry: &mut Registry) -> (result: Result<StorageArtifact, StorageError>)
        requires
            old(registry).well_formed(),
        ensures
            final(registry).well_formed(),
            artifact_matches(
                result,
                expansion(
                    self,
                    old(registry).names(self.kind),
                    snake_case_ident(self.target.ident@),
                ),
            ),
            final(registry).names(self.kind) == names_after(self, old(registry).names(self.kind)),
            forall|other: StorageKind|
                other != self.kind ==> final(registry).names(other) == old(registry).names(other),
    {
        let mut this = self;
        match &this.ty {
            StorageType::Value(value) => {
                let value = value.clone();
                this.expand_value(registry, value)
            },
            StorageType::Mapping { key, value } => {
                let key = key.clone();
                let value = value.clone();
                this.expand_mapping(registry, key, value)
            },
            StorageType::DoubleKeyMapping { key1, key2, value } => {
                let key1 = key1.clone();
                let key2 = key2.clone();
                let value = value.clone();
                this.expand_dk_mapping(registry, key1, key2, value)
            },
            StorageType::Invalid => Err(StorageError::InvalidStorageType),
        }
    }
}

/// What the struct `target`, declared with the shape `ty`, expands to in a
/// namespace that holds `names`: a failure in the getter attributes comes
/// first, then a missing shape, then a name that gets no slot.
pub open spec fn parse_model(
    kind: StorageKind,
    ty: StorageType,
    target: StructDecl,
    names: Seq<Seq<char>>,
    snake: Seq<char>,
) -> Result<StorageArtifactModel, StorageError> {
    match getter_of(target.attrs@) {
        Err(error) => Err(error),
        Ok(getter) => if ty@ is Invalid {
            Err(StorageError::InvalidStorageType)
        } else {
            shape_expansion(
                kind,
                target.ident@,
                target.public,
                other_attrs(target.attrs@),
                kept_positions(target.attrs@),
                getter,
                ty@,
                names,
                snake,
            )
        },
    }
}

/// The names of a namespace after the struct `target` was declared in it
/// with the shape `ty`: a declaration that is refused before its name is
/// looked up leaves them as they were.
pub open spec fn names_after_parse(ty: StorageType, target: StructDecl, names: Seq<Seq<char>>) -> Seq<
    Seq<char>,
> {
    if getter_of(target.attrs@) is Err || ty@ is Invalid {
        names
    } else {
        declared(names, target.ident@)
    }
}

fn parse_kind(kind: StorageKind, registry: &mut Registry, ty: StorageType, target: StructDecl) -> (result:
    Result<StorageArtifact, StorageError>)
    requires
        old(registry).well_formed(),
    ensures
        final(registry).well_formed(),
        artifact_matches(
            result,
            parse_model(
                kind,
                ty,
                target,
                old(registry).names(kind),
                snake_case_ident(target.ident@),
            ),
        ),
        final(registry).names(kind) == names_after_parse(ty, target, old(registry).names(kind)),
        forall|other: StorageKind|
            other != kind ==> final(registry).names(other) == old(registry).names(other),
{
    match Storage::from_parts(kind, ty, target) {
        Ok(storage) => storage.expand(registry),
        Err(error) => Err(error),
    }
}

impl Storage {
    /// Expands the declaration of a persistent storage.
    pub fn parse(registry: &mut Registry, ty: StorageType, target: StructDecl) -> (result: Result<
        StorageArtifact,
        StorageError,
    >)
        requires
            old(registry).well_formed(),
        ensures
            final(registry).well_formed(),
            artifact_matches(
                result,
                parse_model(
                    StorageKind::Persistent,
                    ty,
                    target,
                    old(registry).names(StorageKind::Persistent),
                    snake_case_ident(target.ident@),
                ),
            ),
            final(registry).names(StorageKind::Persistent) == names_after_parse(
                ty,
                target,
                old(registry).names(StorageKind::Persistent),
            ),
            final(registry).names(StorageKind::Transient) == old(registry).names(
                StorageKind::Transient,
            ),
    {
        parse_kind(StorageKind::Persistent, registry, ty, target)
    }

    /// Expands the declaration of a transient storage.
    pub fn parse_transient(registry: &mut Registry, ty: StorageType, target: StructDecl) -> (result:
        Result<StorageArtifact, StorageError>)
        requires
            old(registry).well_formed(),
        ensures
            final(registry).well_formed(),
            artifact_matches(
                result,
                parse_model(
                    StorageKind::Transient,
                    ty,
                    target,
                    old(registry).names(StorageKind::Transient),
                    snake_case_ident(target.ident@),
                ),
            ),
            final(registry).names(StorageKind::Transient) == names_after_parse(
                ty,
                target,
                old(registry).names(StorageKind::Transient),
            ),
            final(registry).names(StorageKind::Persistent) == old(registry).names(
                StorageKind::Persistent,
            ),
    {
        parse_kind(StorageKind::Transient, registry, ty, target)
    }
}

} // verus!
