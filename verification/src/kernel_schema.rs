//! The kernel's table schemas and the Arrow schemas made from them.

use vstd::prelude::*;

use delta_kernel::arrow::datatypes::{Field, Schema as ArrowSchema};
use delta_kernel::engine::arrow_conversion::TryIntoArrow;
use delta_kernel::schema::{StructField, StructType};
use delta_kernel::Error;

verus! {

/// The kernel's fields. See [`field_name`] for what is known of one.
#[verifier::external_type_specification]
#[verifier::external_body]
pub struct ExStructField(delta_kernel::schema::StructField);

/// The kernel's table schemas. See [`schema_columns`] for what is known of one.
#[verifier::external_type_specification]
#[verifier::external_body]
pub struct ExStructType(delta_kernel::schema::StructType);

/// Arrow fields. See [`arrow_field_name`] and [`without_parquet_ids`] for what is known of one.
#[verifier::external_type_specification]
#[verifier::external_body]
pub struct ExField(delta_kernel::arrow::datatypes::Field);

/// Arrow schemas. See [`arrow_fields`] and [`arrow_metadata`] for what is known of one.
#[verifier::external_type_specification]
#[verifier::external_body]
pub struct ExArrowSchema(delta_kernel::arrow::datatypes::Schema);

/// A column of a schema: the name that it is found by, and its field.
pub ghost struct Column {
    pub key: Seq<char>,
    pub field: StructField,
}

/// The name that a field itself carries.
pub uninterp spec fn field_name(field: StructField) -> Seq<char>;

/// The columns of a schema, in order.
pub uninterp spec fn schema_columns(schema: StructType) -> Seq<Column>;

/// A name in lower case, as `str::to_lowercase` gives it.
pub uninterp spec fn lowercase(name: Seq<char>) -> Seq<char>;

/// Which of the kernel's metadata columns a field is, if it is one.
pub uninterp spec fn metadata_column(field: StructField) -> Option<nat>;

/// Whether a field holds a metadata column where none may stand: in a nested field of its type, or
/// as the field itself if its type is not primitive.
pub uninterp spec fn misplaces_metadata_column(field: StructField) -> bool;

/// Whether the metadata of a field, or of a field within its type, gives the Parquet id under both
/// of its keys, the kernel's and Arrow's.
pub uninterp spec fn gives_parquet_id_twice(field: StructField) -> bool;

/// The Arrow field that a field is converted to, if it can be. For a field that gives its Parquet
/// id twice, one of those that it can be converted to.
pub uninterp spec fn arrow_field(field: StructField) -> Option<Field>;

/// The name of an Arrow field.
pub uninterp spec fn arrow_field_name(field: Field) -> Seq<char>;

/// An Arrow field without Parquet ids, in its own metadata and in that of the fields within its
/// type.
pub uninterp spec fn without_parquet_ids(field: Field) -> Field;

/// The fields of an Arrow schema, in order.
pub uninterp spec fn arrow_fields(schema: ArrowSchema) -> Seq<Field>;

/// The metadata that an Arrow schema itself carries.
pub uninterp spec fn arrow_metadata(schema: ArrowSchema) -> Map<Seq<char>, Seq<char>>;

/// The names of the fields of an Arrow schema, in order.
pub open spec fn arrow_names(schema: ArrowSchema) -> Seq<Seq<char>> {
    arrow_fields(schema).map_values(|f: Field| arrow_field_name(f))
}

/// The fields of columns.
pub open spec fn fields_of(columns: Seq<Column>) -> Seq<StructField> {
    columns.map_values(|c: Column| c.field)
}

/// The names that fields carry.
pub open spec fn names_of(fields: Seq<StructField>) -> Seq<Seq<char>> {
    fields.map_values(|f: StructField| field_name(f))
}

/// Fields as columns, each found by the name that it carries.
pub open spec fn columns_from(fields: Seq<StructField>) -> Seq<Column> {
    fields.map_values(|f: StructField| Column { key: field_name(f), field: f })
}

/// The field of the column that is found by `name`.
pub open spec fn find_field(columns: Seq<Column>, name: Seq<char>) -> Option<StructField>
    decreases columns.len(),
{
    if columns.len() == 0 {
        None
    } else if columns[0].key == name {
        Some(columns[0].field)
    } else {
        find_field(columns.drop_first(), name)
    }
}

/// Whether fields make a schema: no two have the same name up to case, no two are the same
/// metadata column, and none holds a metadata column where none may stand.
pub open spec fn make_a_schema(fields: Seq<StructField>) -> bool {
    &&& forall|i: int, j: int|
        #![trigger fields[i], fields[j]]
        0 <= i < j < fields.len() ==> lowercase(field_name(fields[i])) != lowercase(
            field_name(fields[j]),
        )
    &&& forall|i: int, j: int|
        #![trigger fields[i], fields[j]]
        0 <= i < j < fields.len() && metadata_column(fields[i]) is Some ==> metadata_column(
            fields[i],
        ) != metadata_column(fields[j])
    &&& forall|i: int|
        #![trigger fields[i]]
        0 <= i < fields.len() ==> !misplaces_metadata_column(fields[i])
}

/// `StructType::field`, and a clone of what it finds: the field of the column of exactly this
/// name. A schema finds columns by distinct names, so at most one is found.
#[verifier::external_body]
pub(crate) fn field(schema: &StructType, name: &String) -> (field: Option<StructField>)
    ensures
        field == find_field(schema_columns(*schema), name@),
{
    schema.field(name).cloned()
}

/// `StructType::try_new`: the schema of the fields, in order, each found by its own name. It fails
/// exactly if two fields have the same name up to case, if two are the same metadata column, or if
/// one holds a metadata column where none may stand.
#[verifier::external_body]
pub(crate) fn struct_type(fields: Vec<StructField>) -> (schema: Result<StructType, Error>)
    ensures
        schema is Ok <==> {
            &&& forall|i: int, j: int|
                #![trigger fields@[i], fields@[j]]
                0 <= i < j < fields@.len() ==> lowercase(field_name(fields@[i])) != lowercase(
                    field_name(fields@[j]),
                )
            &&& forall|i: int, j: int|
                #![trigger fields@[i], fields@[j]]
                0 <= i < j < fields@.len() && metadata_column(fields@[i]) is Some
                    ==> metadata_column(fields@[i]) != metadata_column(fields@[j])
            &&& forall|i: int|
                #![trigger fields@[i]]
                0 <= i < fields@.len() ==> !misplaces_metadata_column(fields@[i])
        },
        schema matches Ok(s) ==> schema_columns(s) == columns_from(fields@),
{
    StructType::try_new(fields)
}

/// `TryIntoArrow` from `StructType` to the Arrow `Schema`: each field is converted by itself, in
/// order, and keeps its name; the schema carries no metadata of its own. It fails exactly if a
/// field cannot be converted. Where a field gives its Parquet id twice, one of the two goes over,
/// and which is left open; all else of the Arrow field is fixed.
#[verifier::external_body]
pub(crate) fn arrow_schema(schema: &StructType) -> (arrow: Result<ArrowSchema, Error>)
    ensures
        arrow is Ok <==> forall|i: int|
            #![trigger schema_columns(*schema)[i]]
            0 <= i < schema_columns(*schema).len() ==> arrow_field(schema_columns(*schema)[i].field)
                is Some,
        arrow matches Ok(a) ==> arrow_fields(a).len() == schema_columns(*schema).len(),
        arrow matches Ok(a) ==> forall|i: int|
            #![trigger arrow_fields(a)[i]]
            0 <= i < arrow_fields(a).len() ==> arrow_field_name(arrow_fields(a)[i]) == field_name(
                schema_columns(*schema)[i].field,
            ),
        arrow matches Ok(a) ==> forall|i: int|
            #![trigger arrow_fields(a)[i]]
            0 <= i < arrow_fields(a).len() && !gives_parquet_id_twice(
                schema_columns(*schema)[i].field,
            ) ==> arrow_field(schema_columns(*schema)[i].field) == Some(arrow_fields(a)[i]),
        arrow matches Ok(a) ==> forall|i: int|
            #![trigger arrow_fields(a)[i]]
            0 <= i < arrow_fields(a).len() ==> without_parquet_ids(arrow_fields(a)[i])
                == without_parquet_ids(arrow_field(schema_columns(*schema)[i].field)->0),
        arrow matches Ok(a) ==> arrow_metadata(a).dom() == Set::<Seq<char>>::empty(),
{
    schema.try_into_arrow().map_err(Error::from)
}

} // verus!
