//! The rules of an event declaration: what the enum must look like, and what
//! each variant's fields are called in the metadata.
//!
//! The declaration is given as plain values: the text of each type, the names
//! as bytes, and the places of attributes as numbers.

use vstd::prelude::*;
use crate::bytes::copy_range;
use crate::bytes::equal;

verus! {

/// One entry of a metadata attribute: fields of the type `type_text` are
/// called `ident`.
#[derive(Clone, PartialEq, Eq, Debug)]
pub struct MetadataEntry {
    pub type_text: Vec<u8>,
    pub ident: Vec<u8>,
}

/// A metadata attribute and the place where it stands.
#[derive(Clone, PartialEq, Eq, Debug)]
pub struct PalletEventAttr {
    pub metadata: Vec<MetadataEntry>,
    pub span: usize,
}

/// A field of a variant: the text of its type and, where the type is a path,
/// the name of the path's last segment.
#[derive(Clone, PartialEq, Eq, Debug)]
pub struct EventField {
    pub type_text: Vec<u8>,
    pub last_segment: Option<Vec<u8>>,
}

/// A variant of the enum.
#[derive(Clone, PartialEq, Eq, Debug)]
pub struct EventVariant {
    pub name: Vec<u8>,
    pub docs: Vec<Vec<u8>>,
    pub fields: Vec<EventField>,
}

/// An item that is declared as an event.
#[derive(Clone, PartialEq, Eq, Debug)]
pub struct EventItem {
    /// Whether the item is an enum.
    pub is_enum: bool,
    /// The metadata attributes on the item, in the order written.
    pub attrs: Vec<PalletEventAttr>,
    /// Whether the item is public.
    pub is_public: bool,
    /// Whether the item has a where clause.
    pub has_where_clause: bool,
    /// Whether the generics are of an accepted form.
    pub generics_are_valid: bool,
    /// The number of generic parameters.
    pub generics: usize,
    /// The variants, in the order written.
    pub variants: Vec<EventVariant>,
}

/// Why an item is no event declaration.
#[derive(Clone, Copy, PartialEq, Eq, Debug, Structural)]
pub enum EventError {
    /// The item is no enum.
    ExpectedEnum,
    /// There is more than one metadata attribute; `span` is the place of the
    /// second.
    DuplicateMetadata { span: usize },
    /// The enum is not public.
    NotPublic,
    /// The enum has a where clause.
    UnexpectedWhereClause,
    /// The generics are of no accepted form.
    InvalidGenerics,
    /// The field `field` of the variant `variant` has a type that the
    /// metadata does not name and that is no path.
    UnknownType { variant: usize, field: usize },
}

/// The message of each error.
pub open spec fn spec_message(error: EventError) -> Seq<char> {
    match error {
        EventError::ExpectedEnum => "Invalid pallet::event, expect item enum"@,
        EventError::DuplicateMetadata { .. } =>
            "Invalid pallet::metadata, expected only one attribute `pallet::metadata`"@,
        EventError::NotPublic => "Invalid pallet::event, `Error` must be public"@,
        EventError::UnexpectedWhereClause => "Invalid pallet::event, unexpected where clause"@,
        EventError::InvalidGenerics => "Invalid type def generics: expected `T` or `T, I = ()`"@,
        EventError::UnknownType { .. } =>
            "Invalid pallet::event, type can't be parsed for metadata, must be either a path type (and thus last segments ident is metadata) or match a type in the metadata attributes"@,
    }
}

impl EventError {
    /// The message to show for the error.
    pub fn message(&self) -> (text: &'static str)
        ensures
            text@ == spec_message(*self),
    {
        match self {
            EventError::ExpectedEnum => "Invalid pallet::event, expect item enum",
            EventError::DuplicateMetadata { .. } =>
                "Invalid pallet::metadata, expected only one attribute `pallet::metadata`",
            EventError::NotPublic => "Invalid pallet::event, `Error` must be public",
            EventError::UnexpectedWhereClause => "Invalid pallet::event, unexpected where clause",
            EventError::InvalidGenerics => "Invalid type def generics: expected `T` or `T, I = ()`",
            EventError::UnknownType { .. } =>
                "Invalid pallet::event, type can't be parsed for metadata, must be either a path type (and thus last segments ident is metadata) or match a type in the metadata attributes",
        }
    }
}

/// What the metadata says of one variant: its name, the names of its fields'
/// types, and its documentation.
#[derive(Clone, PartialEq, Eq, Debug)]
pub struct EventMetadata {
    pub name: Vec<u8>,
    pub args: Vec<Vec<u8>>,
    pub docs: Vec<Vec<u8>>,
}

/// An accepted event declaration.
#[derive(Clone, PartialEq, Eq, Debug)]
pub struct EventDef {
    /// The metadata of each variant, in the order of the variants.
    pub metadata: Vec<EventMetadata>,
    /// Whether the event is declared with an instance.
    pub has_instance: bool,
    /// Whether the event is generic.
    pub is_generic: bool,
}

/// The name that the first entry of `metadata` for `type_text` gives, from
/// entry `from` on.
pub open spec fn spec_lookup(metadata: Seq<MetadataEntry>, type_text: Seq<u8>, from: int)
    -> Option<Seq<u8>>
    decreases metadata.len() - from,
{
    if from < 0 || from >= metadata.len() {
        None
    } else if metadata[from].type_text@ == type_text {
        Some(metadata[from].ident@)
    } else {
        spec_lookup(metadata, type_text, from + 1)
    }
}

/// The name of a field's type in the metadata: the name that the attribute
/// gives for the type, else the last segment of the type's path.
pub open spec fn spec_field_arg(metadata: Seq<MetadataEntry>, field: EventField) -> Option<
    Seq<u8>,
> {
    match spec_lookup(metadata, field.type_text@, 0) {
        Some(ident) => Some(ident),
        None => match field.last_segment {
            Some(segment) => Some(segment@),
            None => None,
        },
    }
}

/// The entries that are in force: those of the one attribute, or none.
pub open spec fn spec_entries(item: EventItem) -> Seq<MetadataEntry> {
    if item.attrs@.len() == 0 {
        Seq::empty()
    } else {
        item.attrs@[item.attrs@.len() - 1].metadata@
    }
}

/// Whether every field of `variant` has a name in the metadata.
pub open spec fn variant_is_named(metadata: Seq<MetadataEntry>, variant: EventVariant) -> bool {
    forall|f: int|
        0 <= f < variant.fields@.len() ==> spec_field_arg(metadata, #[trigger] variant.fields@[f])
            is Some
}

/// Whether (`variant`, `field`) is the first field in declaration order that
/// has no name in the metadata.
pub open spec fn is_first_unnamed(item: EventItem, variant: int, field: int) -> bool {
    let metadata = spec_entries(item);
    &&& 0 <= variant < item.variants@.len()
    &&& 0 <= field < item.variants@[variant].fields@.len()
    &&& spec_field_arg(metadata, item.variants@[variant].fields@[field]) is None
    &&& forall|v: int| 0 <= v < variant ==> variant_is_named(metadata, #[trigger] item.variants@[v])
    &&& forall|f: int|
        0 <= f < field ==> spec_field_arg(
            metadata,
            #[trigger] item.variants@[variant].fields@[f],
        ) is Some
}

/// Why `item` is refused before its variants are looked at, if it is.
pub open spec fn spec_shape_error(item: EventItem) -> Option<EventError> {
    if !item.is_enum {
        Some(EventError::ExpectedEnum)
    } else if item.attrs@.len() > 1 {
        Some(EventError::DuplicateMetadata { span: item.attrs@[1].span })
    } else if !item.is_public {
        Some(EventError::NotPublic)
    } else if item.has_where_clause {
        Some(EventError::UnexpectedWhereClause)
    } else if !item.generics_are_valid {
        Some(EventError::InvalidGenerics)
    } else {
        None
    }
}

/// Whether `args` are the names of the types of `fields`, one for one.
pub open spec fn args_match(
    metadata: Seq<MetadataEntry>,
    args: Seq<Vec<u8>>,
    fields: Seq<EventField>,
) -> bool {
    &&& args.len() == fields.len()
    &&& forall|f: int|
        0 <= f < fields.len() ==> spec_field_arg(metadata, fields[f]) == Some(
            (#[trigger] args[f])@,
        )
}

/// Whether `copy` holds the same byte strings as `docs`, one for one.
pub open spec fn docs_match(copy: Seq<Vec<u8>>, docs: Seq<Vec<u8>>) -> bool {
    &&& copy.len() == docs.len()
    &&& forall|d: int| 0 <= d < docs.len() ==> (#[trigger] copy[d])@ == docs[d]@
}

/// Whether `entry` is the metadata of `variant`.
pub open spec fn entry_matches(
    metadata: Seq<MetadataEntry>,
    entry: EventMetadata,
    variant: EventVariant,
) -> bool {
    &&& entry.name@ == variant.name@
    &&& args_match(metadata, entry.args@, variant.fields@)
    &&& docs_match(entry.docs@, variant.docs@)
}

/// Whether `def` is the declaration that `item` makes.
pub open spec fn def_matches(def: EventDef, item: EventItem) -> bool {
    &&& def.has_instance == (item.generics == 2)
    &&& def.is_generic == (item.generics > 0)
    &&& def.metadata@.len() == item.variants@.len()
    &&& forall|v: int|
        0 <= v < item.variants@.len() ==> entry_matches(
            spec_entries(item),
            #[trigger] def.metadata@[v],
            item.variants@[v],
        )
}

/// The name that the first entry of `metadata` for `type_text` gives.
pub fn lookup(metadata: &[MetadataEntry], type_text: &[u8]) -> (ident: Option<Vec<u8>>)
    ensures
        match ident {
            Some(i) => spec_lookup(metadata@, type_text@, 0) == Some(i@),
            None => spec_lookup(metadata@, type_text@, 0) is None,
        },
{
    let mut i: usize = 0;
    while i < metadata.len()
        invariant
            i <= metadata@.len(),
            spec_lookup(metadata@, type_text@, 0) == spec_lookup(metadata@, type_text@, i as int),
        decreases metadata@.len() - i,
    {
        if equal(metadata[i].type_text.as_slice(), type_text) {
            let ident = &metadata[i].ident;
            assert(ident@.subrange(0, ident@.len() as int) =~= ident@);
            return Some(copy_range(ident.as_slice(), 0, ident.len()));
        }
        i += 1;
    }
    None
}

/// The name of a field's type in the metadata.
pub fn field_arg(metadata: &[MetadataEntry], field: &EventField) -> (arg: Option<Vec<u8>>)
    ensures
        match arg {
            Some(a) => spec_field_arg(metadata@, *field) == Some(a@),
            None => spec_field_arg(metadata@, *field) is None,
        },
{
    match lookup(metadata, field.type_text.as_slice()) {
        Some(ident) => Some(ident),
        None => match &field.last_segment {
            Some(segment) => {
                assert(segment@.subrange(0, segment@.len() as int) =~= segment@);
                Some(copy_range(segment.as_slice(), 0, segment.len()))
            },
            None => None,
        },
    }
}

/// A copy of `docs`.
pub fn copy_docs(docs: &[Vec<u8>]) -> (copy: Vec<Vec<u8>>)
    ensures
        docs_match(copy@, docs@),
{
    let mut copy: Vec<Vec<u8>> = Vec::new();
    let mut d: usize = 0;
    while d < docs.len()
        invariant
            d <= docs@.len(),
            copy@.len() == d,
            forall|k: int| 0 <= k < d ==> (#[trigger] copy@[k])@ == docs@[k]@,
        decreases docs@.len() - d,
    {
        let doc = &docs[d];
        assert(doc@.subrange(0, doc@.len() as int) =~= doc@);
        copy.push(copy_range(doc.as_slice(), 0, doc.len()));
        d += 1;
    }
    copy
}

impl EventDef {
    /// The generics with which the event is used: `T, I` with an instance,
    /// `T` without, nothing where the event is not generic.
    pub fn event_use_gen(&self) -> (text: &'static str)
        ensures
            text@ == (if self.is_generic {
                if self.has_instance {
                    "T, I"@
                } else {
                    "T"@
                }
            } else {
                ""@
            }),
    {
        if self.is_generic {
            if self.has_instance {
                "T, I"
            } else {
                "T"
            }
        } else {
            ""
        }
    }

    /// The generics with their bounds, as an impl block for the event
    /// declares them.
    pub fn event_impl_block_gen(&self) -> (text: &'static str)
        ensures
            text@ == (if self.is_generic {
                if self.has_instance {
                    "T: Trait<I>, I: Instance"@
                } else {
                    "T: Trait"@
                }
            } else {
                ""@
            }),
    {
        if self.is_generic {
            if self.has_instance {
                "T: Trait<I>, I: Instance"
            } else {
                "T: Trait"
            }
        } else {
            ""
        }
    }

    /// The declaration that `item` makes.
    ///
    /// The item must be a public enum without a where clause, with generics
    /// of an accepted form and at most one metadata attribute. Each field's
    /// type must be named by the attribute or be a path. The first rule that
    /// is broken, in this order, is the error.
    pub fn try_from(item: &EventItem) -> (out: Result<EventDef, EventError>)
        ensures
            match out {
                Ok(def) => spec_shape_error(*item) is None && def_matches(def, *item),
                Err(EventError::UnknownType { variant, field }) => spec_shape_error(*item)
                    is None && is_first_unnamed(*item, variant as int, field as int),
                Err(e) => spec_shape_error(*item) == Some(e),
            },
    {
        if !item.is_enum {
            return Err(EventError::ExpectedEnum);
        }
        if item.attrs.len() > 1 {
            return Err(EventError::DuplicateMetadata { span: item.attrs[1].span });
        }
        let empty: Vec<MetadataEntry> = Vec::new();
        let entries: &[MetadataEntry] = if item.attrs.len() == 0 {
            empty.as_slice()
        } else {
            item.attrs[0].metadata.as_slice()
        };
        assert(entries@ =~= spec_entries(*item));
        if !item.is_public {
            return Err(EventError::NotPublic);
        }
        if item.has_where_clause {
            return Err(EventError::UnexpectedWhereClause);
        }
        if !item.generics_are_valid {
            return Err(EventError::InvalidGenerics);
        }
        let has_instance = item.generics == 2;
        let is_generic = item.generics > 0;
        let mut metadata: Vec<EventMetadata> = Vec::new();
        let mut v: usize = 0;
        while v < item.variants.len()
            invariant
                v <= item.variants@.len(),
                entries@ == spec_entries(*item),
                spec_shape_error(*item) is None,
                metadata@.len() == v,
                forall|k: int|
                    0 <= k < v ==> entry_matches(
                        entries@,
                        #[trigger] metadata@[k],
                        item.variants@[k],
                    ),
                forall|k: int|
                    0 <= k < v ==> variant_is_named(entries@, #[trigger] item.variants@[k]),
            decreases item.variants@.len() - v,
        {
            let variant = &item.variants[v];
            let mut args: Vec<Vec<u8>> = Vec::new();
            let mut f: usize = 0;
            while f < variant.fields.len()
                invariant
                    f <= variant.fields@.len(),
                    v < item.variants@.len(),
                    *variant == item.variants@[v as int],
                    entries@ == spec_entries(*item),
                    spec_shape_error(*item) is None,
                    args@.len() == f,
                    forall|k: int|
                        0 <= k < f ==> spec_field_arg(entries@, variant.fields@[k]) == Some(
                            (#[trigger] args@[k])@,
                        ),
                    forall|k: int|
                        0 <= k < v ==> variant_is_named(entries@, #[trigger] item.variants@[k]),
                decreases variant.fields@.len() - f,
            {
                match field_arg(entries, &variant.fields[f]) {
                    Some(arg) => {
                        args.push(arg);
                    },
                    None => {
                        assert forall|k: int| 0 <= k < f implies spec_field_arg(
                            entries@,
                            #[trigger] item.variants@[v as int].fields@[k],
                        ) is Some by {
                            assert(spec_field_arg(entries@, variant.fields@[k]) == Some(
                                args@[k]@,
                            ));
                        }
                        return Err(EventError::UnknownType { variant: v, field: f });
                    },
                }
                f += 1;
            }
            assert(variant_is_named(entries@, *variant)) by {
                assert forall|k: int| 0 <= k < variant.fields@.len() implies spec_field_arg(
                    entries@,
                    #[trigger] variant.fields@[k],
                ) is Some by {
                    assert(spec_field_arg(entries@, variant.fields@[k]) == Some(args@[k]@));
                }
            }
            let name = copy_range(variant.name.as_slice(), 0, variant.name.len());
            assert(variant.name@.subrange(0, variant.name@.len() as int) =~= variant.name@);
            let docs = copy_docs(variant.docs.as_slice());
            let entry = EventMetadata { name, args, docs };
            assert(entry_matches(entries@, entry, *variant));
            metadata.push(entry);
            v += 1;
        }
        Ok(EventDef { metadata, has_instance, is_generic })
    }
}

} // verus!
