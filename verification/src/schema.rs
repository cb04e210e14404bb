//! Column projection: the schema that a scan reads.

use vstd::prelude::*;

use std::sync::Arc;

use delta_kernel::arrow::datatypes::{Field, Schema as ArrowSchema};
use delta_kernel::schema::{StructField, StructType};

use crate::error::{DeltaError, DeltaErrorView};
use crate::kernel_schema;
use crate::kernel_schema::{
    arrow_field, arrow_field_name, arrow_fields, arrow_metadata, arrow_names, columns_from,
    field_name, fields_of, find_field, gives_parquet_id_twice, lowercase, make_a_schema,
    metadata_column, names_of, schema_columns, without_parquet_ids, Column,
};

verus! {

/// The names in `columns`.
pub open spec fn wanted(columns: Seq<String>) -> Seq<Seq<char>> {
    columns.map_values(|c: String| c@)
}

/// The fields of the named columns, in the order of `names`, or the first name that no column has.
pub open spec fn projection(columns: Seq<Column>, names: Seq<Seq<char>>) -> Result<
    Seq<StructField>,
    Seq<char>,
>
    decreases names.len(),
{
    if names.len() == 0 {
        Ok(Seq::empty())
    } else {
        match projection(columns, names.drop_last()) {
            Ok(fields) => match find_field(columns, names.last()) {
                Some(field) => Ok(fields.push(field)),
                None => Err(names.last()),
            },
            Err(missing) => Err(missing),
        }
    }
}

/// What is said of a column that is not there.
pub open spec fn missing_column(name: Seq<char>) -> Seq<char> {
    "column `"@ + name + "` not found in Delta schema"@
}

fn missing_column_error(name: &String) -> (error: DeltaError)
    ensures
        error@ == DeltaErrorView::Generic(missing_column(name@)),
{
    let mut message = "column `".to_owned();
    message.append(name.as_str());
    message.append("` not found in Delta schema");
    DeltaError::Generic(message)
}

/// Whether a schema is one that the kernel makes from its fields, each found by its own name.
pub open spec fn well_formed(schema: StructType) -> bool {
    let columns = schema_columns(schema);
    &&& columns == columns_from(fields_of(columns))
    &&& make_a_schema(fields_of(columns))
}

/// Whether a schema has a column of exactly this name.
pub open spec fn has_column(schema: StructType, name: Seq<char>) -> bool {
    exists|p: int|
        0 <= p < schema_columns(schema).len() && #[trigger] schema_columns(schema)[p].key == name
}

/// The schema that a scan reads: the named columns of `full`, in the given order, or `None` for
/// all of them. Fails if a column is not in `full`, or if the kernel refuses the selection, which
/// of a well-formed schema it does exactly for a column that is named twice.
pub fn projected_read_schema(full: &StructType, columns: Option<&[String]>) -> (schema: Result<
    Option<Arc<StructType>>,
    DeltaError,
>)
    ensures
        columns is None ==> schema == Ok::<Option<Arc<StructType>>, DeltaError>(None),
        columns matches Some(c) ==> match projection(schema_columns(*full), wanted(c@)) {
            Ok(fields) => if make_a_schema(fields) {
                schema matches Ok(Some(s)) && schema_columns(*s) == columns_from(fields)
            } else {
                schema matches Err(DeltaError::Kernel(_))
            },
            Err(missing) => schema matches Err(e) && e@ == DeltaErrorView::Generic(
                missing_column(missing),
            ),
        },
        columns matches Some(c) ==> schema is Ok ==> wanted(c@).no_duplicates(),
        columns matches Some(c) ==> well_formed(*full) && wanted(c@).no_duplicates() && projection(
            schema_columns(*full),
            wanted(c@),
        ) is Ok ==> schema is Ok,
        schema matches Ok(Some(s)) ==> well_formed(*s),
        columns matches Some(c) ==> schema matches Ok(Some(s)) ==> forall|i: int|
            #![trigger schema_columns(*s)[i]]
            0 <= i < c@.len() ==> exists|p: int|
                0 <= p < schema_columns(*full).len() && #[trigger] schema_columns(*full)[p].key
                    == c@[i]@ && schema_columns(*full)[p].field == schema_columns(*s)[i].field,
        columns matches Some(c) ==> (schema matches Err(DeltaError::Generic(_)) <==> exists|i: int|
            0 <= i < c@.len() && !has_column(*full, (#[trigger] c@[i])@)),
        columns matches Some(c) ==> schema matches Err(DeltaError::Generic(m)) ==> exists|i: int|
            0 <= i < c@.len() && !has_column(*full, (#[trigger] c@[i])@) && m@ == "column `"@
                + c@[i]@ + "` not found in Delta schema"@ && forall|j: int|
                0 <= j < i ==> has_column(*full, (#[trigger] c@[j])@),
        columns matches Some(c) ==> schema matches Ok(read) ==> read matches Some(s)
            && schema_columns(*s).len() == c@.len(),
        columns matches Some(c) ==> schema matches Ok(Some(s)) ==> forall|i: int, p: int|
            #![trigger schema_columns(*s)[i], schema_columns(*full)[p]]
            0 <= i < c@.len() && 0 <= p < schema_columns(*full).len() && well_formed(*full)
                && schema_columns(*full)[p].key == c@[i]@ ==> schema_columns(*s)[i].key == c@[i]@
                && schema_columns(*s)[i].field == schema_columns(*full)[p].field,
{
    let selection = match columns {
        Some(selection) => selection,
        None => return Ok(None),
    };
    let mut fields: Vec<StructField> = Vec::new();
    let ghost all = schema_columns(*full);
    let ghost names = wanted(selection@);
    let mut i: usize = 0;
    assert(names.take(0) =~= Seq::empty());
    while i < selection.len()
        invariant
            i <= selection@.len(),
            columns == Some(selection),
            all == schema_columns(*full),
            names == wanted(selection@),
            projection(all, names.take(i as int)) == Ok::<Seq<StructField>, Seq<char>>(fields@),
        decreases selection@.len() - i,
    {
        let name = &selection[i];
        assert(names.take(i + 1).drop_last() =~= names.take(i as int));
        match kernel_schema::field(full, name) {
            Some(field) => fields.push(field),
            None => {
                proof {
                    lemma_missing(all, names, i + 1);
                    projection_fails_on_the_first_missing_column(*full, names);
                    let first = choose|k: int|
                        0 <= k < names.len() && (#[trigger] names[k]) == name@ && !has_column(
                            *full,
                            name@,
                        ) && forall|j: int| 0 <= j < k ==> has_column(*full, #[trigger] names[j]);
                    assert(selection@[first]@ == names[first]);
                    assert forall|j: int| 0 <= j < first implies has_column(
                        *full,
                        (#[trigger] selection@[j])@,
                    ) by {
                        assert(selection@[j]@ == names[j]);
                    }
                }
                return Err(missing_column_error(name));
            },
        }
        i += 1;
    }
    assert(names.take(i as int) =~= names);
    proof {
        projection_fails_on_the_first_missing_column(*full, names);
        assert forall|j: int| 0 <= j < selection@.len() implies has_column(
            *full,
            (#[trigger] selection@[j])@,
        ) by {
            assert(selection@[j]@ == names[j]);
        }
        projection_keeps_order(all, names);
        assert(fields_of(columns_from(fields@)) =~= fields@);
        projection_comes_from_the_schema(*full, names);
        if well_formed(*full) {
            projection_takes_the_named_columns(*full, names);
        }
        if make_a_schema(fields@) {
            lemma_distinct(all, names);
        }
        if well_formed(*full) && names.no_duplicates() {
            distinct_columns_make_a_schema(*full, names);
        }
    }
    match kernel_schema::struct_type(fields) {
        Ok(schema) => Ok(Some(Arc::new(schema))),
        Err(error) => Err(DeltaError::Kernel(error)),
    }
}

/// The names in `columns`, if there are any.
pub open spec fn wanted_opt(columns: Option<&[String]>) -> Option<Seq<Seq<char>>> {
    match columns {
        Some(c) => Some(wanted(c@)),
        None => None,
    }
}

/// What a schema, or the failure to make one, says.
pub open spec fn outcome(schema: Result<Arc<ArrowSchema>, DeltaError>) -> Result<
    ArrowSchema,
    DeltaErrorView,
> {
    match schema {
        Ok(arrow) => Ok(*arrow),
        Err(error) => Err(error@),
    }
}

/// Whether two Arrow fields differ in nothing but Parquet ids.
pub open spec fn alike(a: Field, b: Field) -> bool {
    without_parquet_ids(a) == without_parquet_ids(b)
}

/// Whether an Arrow schema is the form of these fields: each field by itself, in order, under its
/// own name, and nothing else. Only of a field that gives its Parquet id twice the id is open.
pub open spec fn arrow_form(fields: Seq<StructField>, arrow: ArrowSchema) -> bool {
    &&& arrow_fields(arrow).len() == fields.len()
    &&& forall|i: int|
        #![trigger fields[i]]
        #![trigger arrow_fields(arrow)[i]]
        0 <= i < fields.len() ==> {
            &&& arrow_field(fields[i]) is Some
            &&& arrow_field_name(arrow_fields(arrow)[i]) == field_name(fields[i])
            &&& alike(arrow_fields(arrow)[i], arrow_field(fields[i])->0)
            &&& !gives_parquet_id_twice(fields[i]) ==> arrow_field(fields[i]) == Some(
                arrow_fields(arrow)[i],
            )
        }
    &&& arrow_metadata(arrow).dom() == Set::<Seq<char>>::empty()
}

/// Whether `schema` is the Arrow schema of these fields, or the kernel's failure to make one, which
/// is due exactly if a field cannot be converted.
pub open spec fn arrow_schema_of(
    fields: Seq<StructField>,
    schema: Result<ArrowSchema, DeltaErrorView>,
) -> bool {
    match schema {
        Ok(arrow) => arrow_form(fields, arrow),
        Err(error) => error is Kernel && exists|i: int|
            0 <= i < fields.len() && arrow_field(#[trigger] fields[i]) is None,
    }
}

/// Whether `schema` is the Arrow schema of the named columns of `full`, in order, or of all of
/// them, or the failure that is due.
pub open spec fn projected_arrow_schema(
    full: StructType,
    columns: Option<Seq<Seq<char>>>,
    schema: Result<ArrowSchema, DeltaErrorView>,
) -> bool {
    match columns {
        None => arrow_schema_of(fields_of(schema_columns(full)), schema),
        Some(names) => match projection(schema_columns(full), names) {
            Ok(fields) => if make_a_schema(fields) {
                arrow_schema_of(fields, schema)
            } else {
                schema matches Err(DeltaErrorView::Kernel(_))
            },
            Err(missing) => schema == Err::<ArrowSchema, DeltaErrorView>(
                DeltaErrorView::Generic(missing_column(missing)),
            ),
        },
    }
}

/// The Arrow schema of all columns of a schema.
fn whole_arrow_schema(schema: &StructType) -> (arrow: Result<Arc<ArrowSchema>, DeltaError>)
    ensures
        arrow_schema_of(fields_of(schema_columns(*schema)), outcome(arrow)),
{
    match kernel_schema::arrow_schema(schema) {
        Ok(arrow) => Ok(Arc::new(arrow)),
        Err(error) => {
            proof {
                let columns = schema_columns(*schema);
                let i = choose|i: int|
                    #![trigger columns[i]]
                    0 <= i < columns.len() && arrow_field(columns[i].field) is None;
                assert(arrow_field(fields_of(columns)[i]) is None);
            }
            Err(DeltaError::Kernel(error))
        },
    }
}

/// The Arrow schema of a snapshot whose logical schema is `full`: of the named columns, in the
/// given order, or of all of them.
pub fn snapshot_arrow_schema(full: &StructType, columns: Option<&[String]>) -> (schema: Result<
    Arc<ArrowSchema>,
    DeltaError,
>)
    ensures
        projected_arrow_schema(*full, wanted_opt(columns), outcome(schema)),
        schema matches Ok(a) ==> columns is None ==> arrow_fields(*a).len() == schema_columns(
            *full,
        ).len(),
        schema matches Ok(a) ==> columns is None ==> forall|p: int|
            #![trigger arrow_fields(*a)[p]]
            0 <= p < schema_columns(*full).len() ==> arrow_field_name(arrow_fields(*a)[p])
                == field_name(schema_columns(*full)[p].field),
        columns matches Some(c) ==> schema matches Ok(a) ==> arrow_fields(*a).len() == c@.len(),
        columns matches Some(c) ==> schema matches Ok(a) ==> forall|i: int|
            #![trigger arrow_fields(*a)[i]]
            0 <= i < c@.len() ==> stands_for(arrow_fields(*a)[i], c@[i]@, *full),
        columns matches Some(c) ==> schema matches Ok(a) ==> well_formed(*full) ==> forall|i: int|
            #![trigger arrow_fields(*a)[i]]
            0 <= i < c@.len() ==> arrow_field_name(arrow_fields(*a)[i]) == c@[i]@,
        columns matches Some(c) ==> (schema matches Err(DeltaError::Generic(_)) <==> exists|i: int|
            0 <= i < c@.len() && !has_column(*full, (#[trigger] c@[i])@)),
{
    let schema = match projected_read_schema(full, columns) {
        Ok(Some(logical)) => {
            assert(forall|fields: Seq<StructField>| #[trigger]
                fields_of(columns_from(fields)) =~= fields);
            whole_arrow_schema(&logical)
        },
        Ok(None) => whole_arrow_schema(full),
        Err(error) => Err(error),
    };
    proof {
        match columns {
            None => whole_arrow_schema_has_every_column(*full, outcome(schema)),
            Some(c) => {
                let names = wanted(c@);
                assert(forall|i: int| 0 <= i < c@.len() ==> (#[trigger] c@[i])@ == names[i]);
                assert(forall|i: int| 0 <= i < names.len() ==> (#[trigger] names[i]) == c@[i]@);
                projected_arrow_schema_names_the_missing_column(*full, names, outcome(schema));
                projected_arrow_schema_comes_from_the_schema(*full, names, outcome(schema));
                if well_formed(*full) {
                    projected_arrow_schema_is_pruned(*full, names, outcome(schema));
                }
            },
        }
    }
    schema
}

/// The projected Arrow schema has the columns that were asked for, in that order, whenever a
/// well-formed schema gives one.
pub proof fn projected_arrow_schema_keeps_names(
    full: StructType,
    names: Seq<Seq<char>>,
    arrow: ArrowSchema,
)
    requires
        well_formed(full),
        projected_arrow_schema(full, Some(names), Ok(arrow)),
    ensures
        arrow_names(arrow) == names,
{
    projection_keeps_names(full, names);
    assert(arrow_names(arrow) =~= names_of(projection(schema_columns(full), names)->Ok_0));
}

/// A name that a column is found by is found.
proof fn lemma_found(columns: Seq<Column>, place: int)
    requires
        0 <= place < columns.len(),
    ensures
        find_field(columns, columns[place].key) is Some,
    decreases columns.len(),
{
    if place > 0 && columns[0].key != columns[place].key {
        assert(columns.drop_first()[place - 1] == columns[place]);
        lemma_found(columns.drop_first(), place - 1);
    }
}

/// In the Arrow form of a whole schema, no two fields have the same name, and each stands for the
/// column that is found by its name.
proof fn lemma_whole(full: StructType, whole: ArrowSchema)
    requires
        well_formed(full),
        arrow_form(fields_of(schema_columns(full)), whole),
    ensures
        arrow_names(whole).len() == schema_columns(full).len(),
        arrow_names(whole).no_duplicates(),
        forall|p: int|
            #![trigger arrow_names(whole)[p]]
            0 <= p < arrow_names(whole).len() ==> arrow_names(whole)[p] == schema_columns(
                full,
            )[p].key && find_field(schema_columns(full), arrow_names(whole)[p]) == Some(
                schema_columns(full)[p].field,
            ),
{
    let columns = schema_columns(full);
    let all = fields_of(columns);
    assert forall|p: int| #![trigger arrow_names(whole)[p]] 0 <= p < columns.len() implies arrow_names(
        whole,
    )[p] == columns[p].key && columns[p].key == field_name(all[p]) by {
        assert(columns[p] == columns_from(all)[p]);
        assert(arrow_field_name(arrow_fields(whole)[p]) == field_name(all[p]));
    }
    assert forall|p: int, q: int| 0 <= p < q < columns.len() implies arrow_names(whole)[p]
        != arrow_names(whole)[q] by {
        assert(lowercase(field_name(all[p])) != lowercase(field_name(all[q])));
    }
    assert forall|p: int| #![trigger arrow_names(whole)[p]] 0 <= p < columns.len() implies find_field(
        columns,
        arrow_names(whole)[p],
    ) == Some(columns[p].field) by {
        lemma_found(columns, p);
        let q = lemma_find_field(columns, columns[p].key);
        assert(arrow_names(whole)[q] == arrow_names(whole)[p]);
    }
}

/// A projection selects from the schema of the whole table. Of distinct columns it succeeds
/// exactly if each is a field of the whole schema, and then gives, for each column in turn, the
/// field that the whole schema has under that name; all names in order give all fields back. Only
/// of a field that gives its Parquet id twice the id can differ, and nothing else.
pub proof fn projected_arrow_schema_selects_fields(
    full: StructType,
    whole: ArrowSchema,
    names: Seq<Seq<char>>,
    schema: Result<ArrowSchema, DeltaErrorView>,
)
    requires
        well_formed(full),
        names.no_duplicates(),
        projected_arrow_schema(full, None, Ok(whole)),
        projected_arrow_schema(full, Some(names), schema),
    ensures
        arrow_names(whole).no_duplicates(),
        schema is Ok <==> forall|i: int|
            0 <= i < names.len() ==> arrow_names(whole).contains(#[trigger] names[i]),
        schema matches Ok(arrow) ==> arrow_names(arrow) == names,
        schema matches Ok(arrow) ==> forall|i: int, p: int|
            #![trigger arrow_fields(arrow)[i], arrow_fields(whole)[p]]
            0 <= i < names.len() && 0 <= p < arrow_names(whole).len() && arrow_names(whole)[p]
                == names[i] ==> {
                &&& alike(arrow_fields(arrow)[i], arrow_fields(whole)[p])
                &&& !gives_parquet_id_twice(schema_columns(full)[p].field) ==> arrow_fields(
                    arrow,
                )[i] == arrow_fields(whole)[p]
            },
        schema matches Ok(arrow) ==> names == arrow_names(whole) && (forall|p: int|
            0 <= p < names.len() ==> !gives_parquet_id_twice(
                (#[trigger] schema_columns(full)[p]).field,
            )) ==> arrow_fields(arrow) == arrow_fields(whole),
{
    let columns = schema_columns(full);
    let all = fields_of(columns);
    lemma_whole(full, whole);
    projection_keeps_order(columns, names);
    match projection(columns, names) {
        Ok(fields) => {
            distinct_columns_make_a_schema(full, names);
            assert forall|i: int| #![trigger fields[i]] 0 <= i < fields.len() implies arrow_field(
                fields[i],
            ) is Some && arrow_names(whole).contains(names[i]) by {
                let p = lemma_find_field(columns, names[i]);
                assert(all[p] == fields[i]);
                assert(arrow_names(whole)[p] == names[i]);
            }
            assert forall|i: int| 0 <= i < names.len() implies arrow_names(whole).contains(
                #[trigger] names[i],
            ) by {
                assert(arrow_field(fields[i]) is Some);
            }
            let arrow = schema->Ok_0;
            projected_arrow_schema_keeps_names(full, names, arrow);
            assert forall|i: int, p: int|
                #![trigger arrow_fields(arrow)[i], arrow_fields(whole)[p]]
                0 <= i < names.len() && 0 <= p < columns.len() && arrow_names(whole)[p]
                    == names[i] implies alike(arrow_fields(arrow)[i], arrow_fields(whole)[p]) && (
            !gives_parquet_id_twice(columns[p].field) ==> arrow_fields(arrow)[i] == arrow_fields(
                whole,
            )[p]) by {
                assert(find_field(columns, names[i]) == Some(fields[i]));
                assert(all[p] == fields[i]);
            }
            if names == arrow_names(whole) && (forall|p: int|
                0 <= p < names.len() ==> !gives_parquet_id_twice(
                    (#[trigger] columns[p]).field,
                )) {
                assert(arrow_fields(arrow) =~= arrow_fields(whole));
            }
        },
        Err(missing) => {
            let i = choose|i: int|
                0 <= i < names.len() && names[i] == missing && find_field(columns, missing) is None
                    && #[trigger] projection(columns, names.take(i)) is Ok;
            if arrow_names(whole).contains(names[i]) {
                let p = choose|p: int|
                    0 <= p < arrow_names(whole).len() && arrow_names(whole)[p] == names[i];
                assert(find_field(columns, arrow_names(whole)[p]) is Some);
            }
        },
    }
}

/// The Arrow schema of a whole schema has one field for each column, in order: the column's own,
/// under its own name. There is one exactly if every column can be converted.
pub proof fn whole_arrow_schema_has_every_column(
    full: StructType,
    schema: Result<ArrowSchema, DeltaErrorView>,
)
    requires
        projected_arrow_schema(full, None, schema),
    ensures
        schema is Ok <==> forall|p: int|
            0 <= p < schema_columns(full).len() ==> arrow_field(
                (#[trigger] schema_columns(full)[p]).field,
            ) is Some,
        schema matches Ok(arrow) ==> arrow_fields(arrow).len() == schema_columns(full).len(),
        schema matches Ok(arrow) ==> forall|p: int|
            #![trigger arrow_fields(arrow)[p]]
            0 <= p < schema_columns(full).len() ==> {
                let field = schema_columns(full)[p].field;
                &&& arrow_field_name(arrow_fields(arrow)[p]) == field_name(field)
                &&& without_parquet_ids(arrow_fields(arrow)[p]) == without_parquet_ids(
                    arrow_field(field)->0,
                )
                &&& gives_parquet_id_twice(field) || arrow_field(field) == Some(
                    arrow_fields(arrow)[p],
                )
            },
{
    let columns = schema_columns(full);
    let all = fields_of(columns);
    assert(forall|p: int| #![trigger all[p]] 0 <= p < all.len() ==> all[p] == columns[p].field);
    if schema is Ok {
        let arrow = schema->Ok_0;
        assert forall|p: int| 0 <= p < columns.len() implies arrow_field(
            (#[trigger] columns[p]).field,
        ) is Some by {
            assert(arrow_field(all[p]) is Some);
        }
        assert(forall|p: int|
            #![trigger arrow_fields(arrow)[p]]
            0 <= p < columns.len() ==> all[p] == columns[p].field);
    }
}

/// The Arrow schema of a projection of a well-formed schema has one field for each name, in the
/// order of the names and under the name: that of the column of the name. There is one exactly if
/// the names are distinct columns of the schema, each of which can be converted.
pub proof fn projected_arrow_schema_is_pruned(
    full: StructType,
    names: Seq<Seq<char>>,
    schema: Result<ArrowSchema, DeltaErrorView>,
)
    requires
        well_formed(full),
        projected_arrow_schema(full, Some(names), schema),
    ensures
        schema is Ok <==> {
            &&& names.no_duplicates()
            &&& forall|i: int| 0 <= i < names.len() ==> has_column(full, #[trigger] names[i])
            &&& forall|i: int, p: int|
                #![trigger names[i], schema_columns(full)[p]]
                0 <= i < names.len() && 0 <= p < schema_columns(full).len() && schema_columns(
                    full,
                )[p].key == names[i] ==> arrow_field(schema_columns(full)[p].field) is Some
        },
        schema matches Ok(arrow) ==> arrow_fields(arrow).len() == names.len(),
        schema matches Ok(arrow) ==> forall|i: int|
            #![trigger arrow_fields(arrow)[i]]
            0 <= i < names.len() ==> arrow_field_name(arrow_fields(arrow)[i]) == names[i],
        schema matches Ok(arrow) ==> forall|i: int, p: int|
            #![trigger arrow_fields(arrow)[i], schema_columns(full)[p]]
            0 <= i < names.len() && 0 <= p < schema_columns(full).len() && schema_columns(
                full,
            )[p].key == names[i] ==> {
                let field = schema_columns(full)[p].field;
                &&& without_parquet_ids(arrow_fields(arrow)[i]) == without_parquet_ids(
                    arrow_field(field)->0,
                )
                &&& gives_parquet_id_twice(field) || arrow_field(field) == Some(
                    arrow_fields(arrow)[i],
                )
            },
{
    let columns = schema_columns(full);
    projection_fails_on_the_first_missing_column(full, names);
    if projection(columns, names) is Ok {
        let fields = projection(columns, names)->Ok_0;
        projection_takes_the_named_columns(full, names);
        projection_keeps_order(columns, names);
        if make_a_schema(fields) {
            lemma_distinct(columns, names);
        }
        if names.no_duplicates() {
            distinct_columns_make_a_schema(full, names);
        }
        if schema is Ok {
            let arrow = schema->Ok_0;
            assert forall|i: int, p: int|
                #![trigger names[i], columns[p]]
                0 <= i < names.len() && 0 <= p < columns.len() && columns[p].key
                    == names[i] implies arrow_field(columns[p].field) is Some by {
                assert(fields[i] == columns[p].field);
            }
            assert(forall|i: int|
                #![trigger arrow_fields(arrow)[i]]
                0 <= i < names.len() ==> field_name(fields[i]) == names[i]);
        } else if make_a_schema(fields) {
            let i = choose|i: int|
                0 <= i < fields.len() && arrow_field(#[trigger] fields[i]) is None;
            let p = lemma_find_field(columns, names[i]);
            assert(fields[i] == columns[p].field);
        }
    }
}

/// Whether an Arrow field carries the name of a field that `full` has as the column of this name.
pub open spec fn stands_for(field: Field, name: Seq<char>, full: StructType) -> bool {
    exists|p: int|
        0 <= p < schema_columns(full).len() && #[trigger] schema_columns(full)[p].key == name
            && arrow_field_name(field) == field_name(schema_columns(full)[p].field)
}

/// The Arrow schema of a projection has one field for each name, in turn: under the name that the
/// field of a column of that name carries.
pub proof fn projected_arrow_schema_comes_from_the_schema(
    full: StructType,
    names: Seq<Seq<char>>,
    schema: Result<ArrowSchema, DeltaErrorView>,
)
    requires
        projected_arrow_schema(full, Some(names), schema),
    ensures
        schema matches Ok(arrow) ==> arrow_fields(arrow).len() == names.len(),
        schema matches Ok(arrow) ==> forall|i: int|
            #![trigger arrow_fields(arrow)[i]]
            0 <= i < names.len() ==> stands_for(arrow_fields(arrow)[i], names[i], full),
{
    if schema is Ok {
        let columns = schema_columns(full);
        let arrow = schema->Ok_0;
        let fields = projection(columns, names)->Ok_0;
        projection_comes_from_the_schema(full, names);
        assert forall|i: int| #![trigger arrow_fields(arrow)[i]] 0 <= i
            < names.len() implies stands_for(arrow_fields(arrow)[i], names[i], full) by {
            assert(field_name(fields[i]) == arrow_field_name(arrow_fields(arrow)[i]));
        }
    }
}

/// A projection is answered with the library's own finding exactly if one of the names is no column
/// of the schema, and the finding then gives the first such name.
pub proof fn projected_arrow_schema_names_the_missing_column(
    full: StructType,
    names: Seq<Seq<char>>,
    schema: Result<ArrowSchema, DeltaErrorView>,
)
    requires
        projected_arrow_schema(full, Some(names), schema),
    ensures
        (schema matches Err(DeltaErrorView::Generic(_))) <==> exists|i: int|
            0 <= i < names.len() && !has_column(full, #[trigger] names[i]),
        schema matches Err(DeltaErrorView::Generic(m)) ==> exists|i: int|
            0 <= i < names.len() && !has_column(full, #[trigger] names[i]) && m == "column `"@
                + names[i] + "` not found in Delta schema"@ && forall|j: int|
                0 <= j < i ==> has_column(full, #[trigger] names[j]),
{
    projection_fails_on_the_first_missing_column(full, names);
}

/// One request on one schema is always answered alike: with a schema of the same fields in the same
/// order, up to the id of a field that gives its Parquet id twice, or always with a failure.
pub proof fn projected_arrow_schema_is_fixed(
    full: StructType,
    columns: Option<Seq<Seq<char>>>,
    one: Result<ArrowSchema, DeltaErrorView>,
    other: Result<ArrowSchema, DeltaErrorView>,
)
    requires
        projected_arrow_schema(full, columns, one),
        projected_arrow_schema(full, columns, other),
    ensures
        one is Ok <==> other is Ok,
        one matches Ok(a) ==> other matches Ok(b) ==> arrow_names(a) == arrow_names(b),
        one matches Ok(a) ==> other matches Ok(b) ==> forall|i: int|
            #![trigger arrow_fields(a)[i]]
            #![trigger arrow_fields(b)[i]]
            0 <= i < arrow_fields(a).len() ==> alike(arrow_fields(a)[i], arrow_fields(b)[i]),
        one matches Ok(a) ==> other matches Ok(b) ==> (forall|p: int|
            0 <= p < schema_columns(full).len() ==> !gives_parquet_id_twice(
                (#[trigger] schema_columns(full)[p]).field,
            )) ==> arrow_fields(a) == arrow_fields(b),
{
    let all = schema_columns(full);
    let fields = match columns {
        None => fields_of(all),
        Some(names) => projection(all, names)->Ok_0,
    };
    if one is Ok && other is Ok {
        let a = one->Ok_0;
        let b = other->Ok_0;
        assert(arrow_names(a) =~= arrow_names(b));
        if (forall|p: int|
            0 <= p < all.len() ==> !gives_parquet_id_twice((#[trigger] all[p]).field)) {
            assert forall|i: int| 0 <= i < fields.len() implies arrow_fields(a)[i] == arrow_fields(
                b,
            )[i] by {
                if let Some(names) = columns {
                    projection_keeps_order(all, names);
                    let p = lemma_find_field(all, names[i]);
                    assert(fields[i] == all[p].field);
                } else {
                    assert(fields[i] == all[i].field);
                }
            }
            assert(arrow_fields(a) =~= arrow_fields(b));
        }
    }
}

/// A name is found exactly if a column has it.
proof fn lemma_has_column(full: StructType, name: Seq<char>)
    ensures
        find_field(schema_columns(full), name) is Some <==> has_column(full, name),
{
    let columns = schema_columns(full);
    if find_field(columns, name) is Some {
        let p = lemma_find_field(columns, name);
        assert(columns[p].key == name);
    }
    if has_column(full, name) {
        let p = choose|p: int| 0 <= p < columns.len() && #[trigger] columns[p].key == name;
        lemma_found(columns, p);
    }
}

/// In a well-formed schema a column is found by its name, and carries it.
proof fn lemma_only_column(full: StructType, p: int)
    requires
        well_formed(full),
        0 <= p < schema_columns(full).len(),
    ensures
        find_field(schema_columns(full), schema_columns(full)[p].key) == Some(
            schema_columns(full)[p].field,
        ),
        field_name(schema_columns(full)[p].field) == schema_columns(full)[p].key,
{
    let columns = schema_columns(full);
    let all = fields_of(columns);
    lemma_found(columns, p);
    let q = lemma_find_field(columns, columns[p].key);
    assert(columns[p] == columns_from(all)[p]);
    assert(columns[q] == columns_from(all)[q]);
    if p < q {
        assert(lowercase(field_name(all[p])) != lowercase(field_name(all[q])));
    } else if q < p {
        assert(lowercase(field_name(all[q])) != lowercase(field_name(all[p])));
    }
}

/// A projection fails exactly if one of the names is no column of the schema, and then with the
/// first such name.
pub proof fn projection_fails_on_the_first_missing_column(full: StructType, names: Seq<Seq<char>>)
    ensures
        projection(schema_columns(full), names) is Err <==> exists|i: int|
            0 <= i < names.len() && !has_column(full, #[trigger] names[i]),
        projection(schema_columns(full), names) matches Err(missing) ==> exists|i: int|
            0 <= i < names.len() && (#[trigger] names[i]) == missing && !has_column(full, missing)
                && forall|j: int| 0 <= j < i ==> has_column(full, #[trigger] names[j]),
{
    let columns = schema_columns(full);
    projection_keeps_order(columns, names);
    match projection(columns, names) {
        Ok(fields) => {
            assert forall|i: int| 0 <= i < names.len() implies has_column(
                full,
                #[trigger] names[i],
            ) by {
                lemma_has_column(full, names[i]);
            }
        },
        Err(missing) => {
            let i = choose|i: int|
                0 <= i < names.len() && names[i] == missing && find_field(columns, missing) is None
                    && #[trigger] projection(columns, names.take(i)) is Ok;
            lemma_has_column(full, missing);
            projection_keeps_order(columns, names.take(i));
            assert forall|j: int| 0 <= j < i implies has_column(full, #[trigger] names[j]) by {
                assert(names.take(i)[j] == names[j]);
                lemma_has_column(full, names[j]);
            }
            assert(names[i] == missing);
        },
    }
}

/// Each field of a projection is that of a column of the schema which has the name in turn.
pub proof fn projection_comes_from_the_schema(full: StructType, names: Seq<Seq<char>>)
    requires
        projection(schema_columns(full), names) is Ok,
    ensures
        projection(schema_columns(full), names)->Ok_0.len() == names.len(),
        forall|i: int|
            #![trigger projection(schema_columns(full), names)->Ok_0[i]]
            0 <= i < names.len() ==> exists|p: int|
                0 <= p < schema_columns(full).len() && #[trigger] schema_columns(full)[p].key
                    == names[i] && schema_columns(full)[p].field == projection(
                    schema_columns(full),
                    names,
                )->Ok_0[i],
{
    let columns = schema_columns(full);
    let fields = projection(columns, names)->Ok_0;
    projection_keeps_order(columns, names);
    assert forall|i: int| #![trigger fields[i]] 0 <= i < names.len() implies exists|p: int|
        0 <= p < columns.len() && #[trigger] columns[p].key == names[i] && columns[p].field
            == fields[i] by {
        let p = lemma_find_field(columns, names[i]);
        assert(columns[p].key == names[i]);
    }
}

/// On a well-formed schema, a projection has for each name, in turn, the field of the column of
/// that name.
pub proof fn projection_takes_the_named_columns(full: StructType, names: Seq<Seq<char>>)
    requires
        well_formed(full),
        projection(schema_columns(full), names) is Ok,
    ensures
        ({
            let fields = projection(schema_columns(full), names)->Ok_0;
            &&& fields.len() == names.len()
            &&& forall|i: int, p: int|
                #![trigger fields[i], schema_columns(full)[p]]
                0 <= i < names.len() && 0 <= p < schema_columns(full).len() && schema_columns(
                    full,
                )[p].key == names[i] ==> fields[i] == schema_columns(full)[p].field
            &&& forall|i: int|
                #![trigger fields[i]]
                0 <= i < names.len() ==> field_name(fields[i]) == names[i]
        }),
{
    let columns = schema_columns(full);
    let fields = projection(columns, names)->Ok_0;
    projection_keeps_order(columns, names);
    assert forall|i: int, p: int|
        #![trigger fields[i], columns[p]]
        0 <= i < names.len() && 0 <= p < columns.len() && columns[p].key
            == names[i] implies fields[i] == columns[p].field by {
        lemma_only_column(full, p);
        assert(find_field(columns, names[i]) == Some(fields[i]));
    }
    assert forall|i: int| #![trigger fields[i]] 0 <= i < names.len() implies field_name(fields[i])
        == names[i] by {
        let p = lemma_find_field(columns, names[i]);
        assert(columns[p].field == fields[i]);
        lemma_only_column(full, p);
    }
}

/// A name that is missing among the first `n` is what the whole projection fails with.
proof fn lemma_missing(columns: Seq<Column>, names: Seq<Seq<char>>, n: int)
    requires
        0 <= n <= names.len(),
        projection(columns, names.take(n)) is Err,
    ensures
        projection(columns, names) == projection(columns, names.take(n)),
    decreases names.len() - n,
{
    if n == names.len() {
        assert(names.take(n) =~= names);
    } else {
        assert(names.take(n + 1).drop_last() =~= names.take(n));
        lemma_missing(columns, names, n + 1);
    }
}

/// A projection has one field for each name, in the order of the names. It fails exactly if a
/// name has no column, and then with the first such name.
pub proof fn projection_keeps_order(columns: Seq<Column>, names: Seq<Seq<char>>)
    ensures
        match projection(columns, names) {
            Ok(fields) => fields.len() == names.len() && forall|i: int|
                #![trigger names[i]]
                0 <= i < names.len() ==> find_field(columns, names[i]) == Some(fields[i]),
            Err(missing) => exists|i: int|
                0 <= i < names.len() && names[i] == missing && find_field(columns, missing) is None
                    && #[trigger] projection(columns, names.take(i)) is Ok,
        },
    decreases names.len(),
{
    if names.len() > 0 {
        let before = names.drop_last();
        let last = names.len() - 1;
        projection_keeps_order(columns, before);
        assert(names.take(last) =~= before);
        match projection(columns, before) {
            Ok(fields) => {
                assert(names[last] == names.last());
                if find_field(columns, names.last()) is Some {
                    assert forall|i: int| #![trigger names[i]] 0 <= i < names.len() implies find_field(
                        columns,
                        names[i],
                    ) == Some(projection(columns, names)->Ok_0[i]) by {
                        if i < last {
                            assert(before[i] == names[i]);
                        }
                    }
                } else {
                    assert(projection(columns, names.take(last)) is Ok);
                }
            },
            Err(missing) => {
                let i = choose|i: int|
                    0 <= i < before.len() && before[i] == missing && find_field(columns, missing)
                        is None && #[trigger] projection(columns, before.take(i)) is Ok;
                assert(before.take(i) =~= names.take(i));
                assert(names[i] == missing);
            },
        }
    }
}

/// Where a column of this name stands.
proof fn lemma_find_field(columns: Seq<Column>, name: Seq<char>) -> (place: int)
    requires
        find_field(columns, name) is Some,
    ensures
        0 <= place < columns.len(),
        columns[place].key == name,
        columns[place].field == find_field(columns, name)->0,
    decreases columns.len(),
{
    if columns[0].key == name {
        0
    } else {
        lemma_find_field(columns.drop_first(), name) + 1
    }
}

/// Of a well-formed schema, the fields of distinct names make a schema again.
pub proof fn distinct_columns_make_a_schema(schema: StructType, names: Seq<Seq<char>>)
    requires
        well_formed(schema),
        names.no_duplicates(),
        projection(schema_columns(schema), names) is Ok,
    ensures
        make_a_schema(projection(schema_columns(schema), names)->Ok_0),
{
    let columns = schema_columns(schema);
    let all = fields_of(columns);
    let fields = projection(columns, names)->Ok_0;
    projection_keeps_order(columns, names);
    assert forall|i: int| #![trigger fields[i]] 0 <= i < fields.len() implies exists|p: int|
        #![trigger all[p]]
        0 <= p < all.len() && all[p] == fields[i] && columns[p].key == names[i] by {
        let p = lemma_find_field(columns, names[i]);
        assert(all[p] == fields[i]);
    }
    assert forall|i: int, j: int|
        #![trigger fields[i], fields[j]]
        0 <= i < j < fields.len() implies lowercase(field_name(fields[i])) != lowercase(
        field_name(fields[j]),
    ) && (metadata_column(fields[i]) is Some ==> metadata_column(fields[i]) != metadata_column(
        fields[j],
    )) by {
        let p = lemma_find_field(columns, names[i]);
        let q = lemma_find_field(columns, names[j]);
        assert(all[p] == fields[i]);
        assert(all[q] == fields[j]);
        assert(names[i] != names[j]);
        assert(p != q);
        if p < q {
            assert(lowercase(field_name(all[p])) != lowercase(field_name(all[q])));
        } else {
            assert(lowercase(field_name(all[q])) != lowercase(field_name(all[p])));
        }
    }
}

/// Fields of which two have one name make no schema.
proof fn lemma_distinct(columns: Seq<Column>, names: Seq<Seq<char>>)
    requires
        projection(columns, names) is Ok,
        make_a_schema(projection(columns, names)->Ok_0),
    ensures
        names.no_duplicates(),
{
    projection_keeps_order(columns, names);
    let fields = projection(columns, names)->Ok_0;
    assert forall|i: int, j: int|
        0 <= i < names.len() && 0 <= j < names.len() && i != j implies names[i] != names[j] by {
        assert(find_field(columns, names[i]) == Some(fields[i]));
        assert(find_field(columns, names[j]) == Some(fields[j]));
    }
}

/// On a well-formed schema, a projection carries the names that were asked for.
pub proof fn projection_keeps_names(schema: StructType, names: Seq<Seq<char>>)
    requires
        well_formed(schema),
        projection(schema_columns(schema), names) is Ok,
    ensures
        names_of(projection(schema_columns(schema), names)->Ok_0) == names,
{
    let columns = schema_columns(schema);
    let fields = projection(columns, names)->Ok_0;
    projection_keeps_order(columns, names);
    assert forall|i: int| 0 <= i < names.len() implies names_of(fields)[i] == names[i] by {
        let p = lemma_find_field(columns, names[i]);
        assert(columns[p] == columns_from(fields_of(columns))[p]);
    }
    assert(names_of(fields) =~= names);
}

} // verus!
