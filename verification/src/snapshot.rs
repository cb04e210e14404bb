//! Tables: where they are, and how a snapshot is summed up.

use vstd::prelude::*;

use delta_kernel::schema::StructType;
use url::Url;

use crate::error::{DeltaError, DeltaErrorView};
use crate::kernel_schema::schema_columns;
use crate::text::{append_decimal, decimal};

verus! {

/// The URL that a text is parsed to, in its normal form, or why it is none, in words.
pub uninterp spec fn url_parse(text: Seq<char>) -> Result<Seq<char>, Seq<char>>;

/// `Url::parse`: the serialization of the URL, or the text of the parser's error.
#[verifier::external_body]
fn parse_url(text: &str) -> (url: Result<String, String>)
    ensures
        match url {
            Ok(url) => url_parse(text@) == Ok::<Seq<char>, Seq<char>>(url@),
            Err(error) => url_parse(text@) == Err::<Seq<char>, Seq<char>>(error@),
        },
{
    match Url::parse(text) {
        Ok(url) => Ok(url.to_string()),
        Err(error) => Err(error.to_string()),
    }
}

/// What is said of a table URI that is no URL.
pub open spec fn invalid_uri(table_uri: Seq<char>, error: Seq<char>) -> Seq<char> {
    "invalid table URI "@ + table_uri + ": "@ + error
}

/// The URL of a table, or what is said if its URI did not parse.
pub fn parsed_table_url(table_uri: &str, parsed: Result<String, String>) -> (url: Result<
    String,
    DeltaError,
>)
    ensures
        match parsed {
            Ok(text) => url matches Ok(u) && u@ == text@,
            Err(error) => url matches Err(e) && e@ == DeltaErrorView::Generic(
                invalid_uri(table_uri@, error@),
            ),
        },
        parsed matches Err(error) ==> url matches Err(DeltaError::Generic(m)) && m@
            == "invalid table URI "@ + table_uri@ + ": "@ + error@,
{
    match parsed {
        Ok(url) => Ok(url),
        Err(error) => {
            let mut message = "invalid table URI ".to_owned();
            message.append(table_uri);
            message.append(": ");
            message.append(error.as_str());
            Err(DeltaError::Generic(message))
        },
    }
}

/// The URL of the table at `table_uri`. Fails if that is no URL.
pub fn table_url(table_uri: &str) -> (url: Result<String, DeltaError>)
    ensures
        match url_parse(table_uri@) {
            Ok(text) => url matches Ok(u) && u@ == text,
            Err(error) => url matches Err(e) && e@ == DeltaErrorView::Generic(
                invalid_uri(table_uri@, error),
            ),
        },
        url is Ok <==> url_parse(table_uri@) is Ok,
        url_parse(table_uri@) matches Err(error) ==> url matches Err(DeltaError::Generic(m)) && m@
            == "invalid table URI "@ + table_uri@ + ": "@ + error,
{
    parsed_table_url(table_uri, parse_url(table_uri))
}

/// Whether a name is made of ASCII letters, digits and underscores only.
pub open spec fn plain(name: Seq<char>) -> bool {
    forall|i: int|
        0 <= i < name.len() ==> {
            let c = #[trigger] name[i];
            'a' <= c <= 'z' || 'A' <= c <= 'Z' || '0' <= c <= '9' || c == '_'
        }
}

/// Whether `part` stands somewhere in `text`.
pub open spec fn holds(text: Seq<char>, part: Seq<char>) -> bool {
    exists|p: int|
        0 <= p && p + part.len() <= text.len() && #[trigger] text.subrange(p, p + part.len())
            == part
}

/// Whether `text` gives the name of each column of a schema. A name with characters that are
/// printed escaped is not looked for.
pub open spec fn names_columns(text: Seq<char>, schema: StructType) -> bool {
    forall|i: int|
        #![trigger schema_columns(schema)[i]]
        0 <= i < schema_columns(schema).len() && plain(schema_columns(schema)[i].key) ==> holds(
            text,
            schema_columns(schema)[i].key,
        )
}

/// A name is plain exactly if it stays so when its last character is taken off, and that is an
/// ASCII letter, a digit or an underscore. Nothing is the shortest plain name.
pub proof fn plain_names_are_made_of_plain_characters(name: Seq<char>)
    ensures
        name.len() == 0 ==> plain(name),
        name.len() > 0 ==> (plain(name) <==> plain(name.drop_last()) && ('a' <= name.last() <= 'z'
            || 'A' <= name.last() <= 'Z' || '0' <= name.last() <= '9' || name.last() == '_')),
{
    if name.len() > 0 {
        let before = name.drop_last();
        assert(forall|i: int| 0 <= i < before.len() ==> #[trigger] before[i] == name[i]);
        if plain(name) {
            assert forall|i: int| 0 <= i < before.len() implies ({
                let c = #[trigger] before[i];
                'a' <= c <= 'z' || 'A' <= c <= 'Z' || '0' <= c <= '9' || c == '_'
            }) by {
                assert(before[i] == name[i]);
            }
            assert(name.last() == name[name.len() - 1]);
        }
        if plain(before) && ('a' <= name.last() <= 'z' || 'A' <= name.last() <= 'Z' || '0'
            <= name.last() <= '9' || name.last() == '_') {
            assert forall|i: int| 0 <= i < name.len() implies ({
                let c = #[trigger] name[i];
                'a' <= c <= 'z' || 'A' <= c <= 'Z' || '0' <= c <= '9' || c == '_'
            }) by {
                if i < before.len() {
                    assert(before[i] == name[i]);
                }
            }
        }
    }
}

/// A part stands in a text exactly if the text is made of something, the part, and something.
pub proof fn a_part_stands_between(text: Seq<char>, part: Seq<char>)
    ensures
        holds(text, part) <==> exists|before: Seq<char>, after: Seq<char>|
            text == #[trigger] (before + part + after),
{
    if holds(text, part) {
        let p = choose|p: int|
            0 <= p && p + part.len() <= text.len() && #[trigger] text.subrange(p, p + part.len())
                == part;
        let before = text.take(p);
        let after = text.skip(p + part.len());
        assert(text =~= before + text.subrange(p, p + part.len()) + after);
    }
    if exists|before: Seq<char>, after: Seq<char>| text == #[trigger] (before + part + after) {
        let (before, after) = choose|before: Seq<char>, after: Seq<char>|
            text == #[trigger] (before + part + after);
        let p = before.len() as int;
        assert(text.subrange(p, p + part.len()) =~= part);
    }
}

/// `Debug` of `delta_kernel::schema::StructType`, which is derived: it prints each field of the
/// struct, among them the map of the columns with each of its keys, and a plain key as it is. The
/// rest of the text is left open: it walks hash maps, in an order that is not fixed.
#[verifier::external_body]
fn schema_text(schema: &StructType) -> (text: String)
    ensures
        names_columns(text@, *schema),
{
    format!("{:?}", schema)
}

/// The summary of a snapshot of this version, whose logical schema reads so.
pub open spec fn summary_text(version: u64, schema: Seq<char>) -> Seq<char> {
    "version="@ + decimal(version as nat) + " schema="@ + schema
}

/// A short summary of a snapshot for people: its version and its logical schema.
pub fn snapshot_summary(version: u64, schema: &StructType) -> (summary: String)
    ensures
        exists|text: Seq<char>|
            summary@ == #[trigger] summary_text(version, text) && names_columns(text, *schema),
        forall|i: int|
            #![trigger schema_columns(*schema)[i]]
            0 <= i < schema_columns(*schema).len() && plain(schema_columns(*schema)[i].key)
                ==> exists|p: int|
                0 <= p && p + schema_columns(*schema)[i].key.len() <= summary@.len()
                    && #[trigger] summary@.subrange(p, p + schema_columns(*schema)[i].key.len())
                    == schema_columns(*schema)[i].key,
{
    let text = schema_text(schema);
    let summary = summary_of(version, text.as_str());
    assert forall|i: int|
        #![trigger schema_columns(*schema)[i]]
        0 <= i < schema_columns(*schema).len() && plain(
            schema_columns(*schema)[i].key,
        ) implies exists|p: int|
        0 <= p && p + schema_columns(*schema)[i].key.len() <= summary@.len()
            && #[trigger] summary@.subrange(p, p + schema_columns(*schema)[i].key.len())
            == schema_columns(*schema)[i].key by {
        let key = schema_columns(*schema)[i].key;
        let p = choose|p: int|
            0 <= p && p + key.len() <= text@.len() && #[trigger] text@.subrange(p, p + key.len())
                == key;
        let q = summary@.len() - text@.len() + p;
        assert(summary@.subrange(q, q + key.len()) =~= text@.subrange(p, p + key.len()));
    }
    summary
}

/// The summary of a snapshot of this version, whose logical schema reads so.
pub fn summary_of(version: u64, schema: &str) -> (summary: String)
    ensures
        summary@ == summary_text(version, schema@),
        summary@ == "version="@ + decimal(version as nat) + " schema="@ + schema@,
{
    let mut summary = "version=".to_owned();
    append_decimal(&mut summary, version);
    summary.append(" schema=");
    summary.append(schema);
    summary
}

} // verus!
