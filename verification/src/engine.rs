//! The index engine boundary: tantivy, trusted.
//!
//! Every wrapper here makes one engine call (or one short, inseparable
//! chain where the engine's API forces it, as its doc comment says).  The
//! engine's behaviour — scoring, segment layout, tokenization — is not
//! modelled: verified callers take these results as arguments and promise
//! only what holds of every outcome.

use tantivy::schema::FieldType;
use vstd::prelude::*;

verus! {

#[verifier::external_type_specification]
#[verifier::external_body]
pub struct ExIndex(tantivy::Index);

#[verifier::external_type_specification]
#[verifier::external_body]
pub struct ExIndexWriter(tantivy::IndexWriter);

#[verifier::external_type_specification]
#[verifier::external_body]
pub struct ExDocument(tantivy::Document);

#[verifier::external_type_specification]
#[verifier::external_body]
pub struct ExSchema(tantivy::schema::Schema);

#[verifier::external_type_specification]
#[verifier::external_body]
pub struct ExSchemaBuilder(tantivy::schema::SchemaBuilder);

#[verifier::external_type_specification]
#[verifier::external_body]
pub struct ExField(tantivy::schema::Field);

#[verifier::external_type_specification]
#[verifier::external_body]
pub struct ExTextOptions(tantivy::schema::TextOptions);

#[verifier::external_type_specification]
#[verifier::external_body]
pub struct ExNumericOptions(tantivy::schema::NumericOptions);

#[verifier::external_type_specification]
#[verifier::external_body]
pub struct ExDateOptions(tantivy::schema::DateOptions);

#[verifier::external_type_specification]
#[verifier::external_body]
pub struct ExDocAddress(tantivy::DocAddress);

#[verifier::external_type_specification]
#[verifier::external_body]
pub struct ExSnippetGenerator(tantivy::SnippetGenerator);

/// Relies on `Field` being `Copy`: the copy is the same field handle.
#[verifier::external_body]
pub(crate) fn field_copy(f: &tantivy::schema::Field) -> (r: tantivy::schema::Field)
    ensures
        r == *f,
{
    *f
}

/// An engine schema builder together with the names already added.  The
/// engine's builder panics on a duplicate field name, so every add below
/// requires the name to be fresh, and the ghost list is how callers prove
/// it.
pub struct EngineSchemaBuilder {
    pub(crate) builder: tantivy::schema::SchemaBuilder,
    pub(crate) names: Ghost<Seq<Seq<char>>>,
}

/// Relies on `Schema::builder`.
#[verifier::external_body]
fn raw_schema_builder() -> tantivy::schema::SchemaBuilder {
    tantivy::schema::Schema::builder()
}

/// A fresh builder with no names added.
pub(crate) fn schema_builder() -> (r: EngineSchemaBuilder)
    ensures
        r.names@ == Seq::<Seq<char>>::empty(),
{
    EngineSchemaBuilder { builder: raw_schema_builder(), names: Ghost(Seq::empty()) }
}

/// Relies on `TextOptions::default`.
#[verifier::external_body]
pub(crate) fn text_options_default() -> tantivy::schema::TextOptions {
    tantivy::schema::TextOptions::default()
}

/// Relies on `TextOptions | TEXT`: adds tokenized indexing.
#[verifier::external_body]
pub(crate) fn text_options_text(o: tantivy::schema::TextOptions) -> tantivy::schema::TextOptions {
    o | tantivy::schema::TEXT
}

/// Relies on `TextOptions | STRING`: adds raw (untokenized) indexing.
#[verifier::external_body]
pub(crate) fn text_options_string(o: tantivy::schema::TextOptions) -> tantivy::schema::TextOptions {
    o | tantivy::schema::STRING
}

/// Relies on `TextOptions | FAST`: adds a fast field.
#[verifier::external_body]
pub(crate) fn text_options_fast(o: tantivy::schema::TextOptions) -> tantivy::schema::TextOptions {
    o | tantivy::schema::FAST
}

/// Relies on `TextOptions | STORED`: stores the values.
#[verifier::external_body]
pub(crate) fn text_options_stored(o: tantivy::schema::TextOptions) -> tantivy::schema::TextOptions {
    o | tantivy::schema::STORED
}

/// Relies on `NumericOptions::default`.
#[verifier::external_body]
pub(crate) fn numeric_options_default() -> tantivy::schema::NumericOptions {
    tantivy::schema::NumericOptions::default()
}

/// Relies on `NumericOptions::set_indexed`.
#[verifier::external_body]
pub(crate) fn numeric_options_indexed(
    o: tantivy::schema::NumericOptions,
) -> tantivy::schema::NumericOptions {
    o.set_indexed()
}

/// Relies on `NumericOptions::set_fast` with single-value cardinality.
#[verifier::external_body]
pub(crate) fn numeric_options_fast(
    o: tantivy::schema::NumericOptions,
) -> tantivy::schema::NumericOptions {
    o.set_fast(tantivy::schema::Cardinality::SingleValue)
}

/// Relies on `DateOptions::default`.
#[verifier::external_body]
pub(crate) fn date_options_default() -> tantivy::schema::DateOptions {
    tantivy::schema::DateOptions::default()
}

/// Relies on `DateOptions::set_indexed`.
#[verifier::external_body]
pub(crate) fn date_options_indexed(o: tantivy::schema::DateOptions) -> tantivy::schema::DateOptions {
    o.set_indexed()
}

/// Relies on `DateOptions::set_fast` with single-value cardinality.
#[verifier::external_body]
pub(crate) fn date_options_fast(o: tantivy::schema::DateOptions) -> tantivy::schema::DateOptions {
    o.set_fast(tantivy::schema::Cardinality::SingleValue)
}

/// Relies on `SchemaBuilder::add_text_field`.
/// The engine builder panics on a duplicate field name, so the name must
/// be fresh.
#[verifier::external_body]
pub(crate) fn add_text_field(
    b: &mut EngineSchemaBuilder,
    name: &str,
    o: tantivy::schema::TextOptions,
)
    requires
        !old(b).names@.contains(name@),
    ensures
        final(b).names@ == old(b).names@.push(name@),
{
    b.builder.add_text_field(name, o);
}

/// Relies on `SchemaBuilder::add_i64_field`.
/// The engine builder panics on a duplicate field name, so the name must
/// be fresh.
#[verifier::external_body]
pub(crate) fn add_i64_field(
    b: &mut EngineSchemaBuilder,
    name: &str,
    o: tantivy::schema::NumericOptions,
)
    requires
        !old(b).names@.contains(name@),
    ensures
        final(b).names@ == old(b).names@.push(name@),
{
    b.builder.add_i64_field(name, o);
}

/// Relies on `SchemaBuilder::add_date_field`.
/// The engine builder panics on a duplicate field name, so the name must
/// be fresh.
#[verifier::external_body]
pub(crate) fn add_date_field(
    b: &mut EngineSchemaBuilder,
    name: &str,
    o: tantivy::schema::DateOptions,
)
    requires
        !old(b).names@.contains(name@),
    ensures
        final(b).names@ == old(b).names@.push(name@),
{
    b.builder.add_date_field(name, o);
}

/// Relies on `SchemaBuilder::add_json_field`; json fields take text
/// options for their tokenized sub-paths.
/// The engine builder panics on a duplicate field name, so the name must
/// be fresh.
#[verifier::external_body]
pub(crate) fn add_json_field(
    b: &mut EngineSchemaBuilder,
    name: &str,
    o: tantivy::schema::TextOptions,
)
    requires
        !old(b).names@.contains(name@),
    ensures
        final(b).names@ == old(b).names@.push(name@),
{
    b.builder.add_json_field(name, o);
}

/// Relies on `SchemaBuilder::build`.
#[verifier::external_body]
pub(crate) fn build_schema(b: EngineSchemaBuilder) -> tantivy::schema::Schema {
    b.builder.build()
}

/// Relies on `Schema::get_field`.
#[verifier::external_body]
pub(crate) fn get_field(s: &tantivy::schema::Schema, name: &str) -> Option<tantivy::schema::Field> {
    s.get_field(name)
}

/// Relies on `Index::create_in_ram`.
#[verifier::external_body]
pub(crate) fn create_in_ram(schema: tantivy::schema::Schema) -> tantivy::Index {
    tantivy::Index::create_in_ram(schema)
}

/// Relies on `Index::schema`.
#[verifier::external_body]
pub(crate) fn index_schema(index: &tantivy::Index) -> tantivy::schema::Schema {
    index.schema()
}

/// Relies on `Index::writer` (100 MB arena) and
/// `IndexWriter::set_merge_policy` with a `DefaultMergePolicy` bounded at
/// ten thousand documents before merge, as the production writer uses.
#[verifier::external_body]
pub(crate) fn default_writer(index: &tantivy::Index) -> Option<tantivy::IndexWriter> {
    let writer = index.writer(100_000_000).ok()?;
    let mut merge_policy = tantivy::merge_policy::DefaultMergePolicy::default();
    merge_policy.set_max_docs_before_merge(10_000);
    writer.set_merge_policy(Box::new(merge_policy));
    Some(writer)
}

/// Relies on `Document::default`.
#[verifier::external_body]
pub(crate) fn new_document() -> tantivy::Document {
    tantivy::Document::default()
}

/// Relies on `Document::add_text`.
#[verifier::external_body]
pub(crate) fn doc_add_text(d: &mut tantivy::Document, f: tantivy::schema::Field, v: &str) {
    d.add_text(f, v);
}

/// Relies on `Document::add_i64`.
#[verifier::external_body]
pub(crate) fn doc_add_i64(d: &mut tantivy::Document, f: tantivy::schema::Field, v: i64) {
    d.add_i64(f, v);
}

/// Relies on `time::OffsetDateTime::parse` (RFC 3339, via tantivy's time
/// re-export) and `Document::add_date`; false when the text is not a date.
#[verifier::external_body]
pub(crate) fn doc_add_date_rfc3339(d: &mut tantivy::Document, f: tantivy::schema::Field, v: &str) -> (r:
    bool) {
    match tantivy::time::OffsetDateTime::parse(
        v,
        &tantivy::time::format_description::well_known::Rfc3339,
    ) {
        Ok(dt) => {
            d.add_date(f, tantivy::DateTime::from_utc(dt));
            true
        },
        Err(_) => false,
    }
}

/// Relies on `serde_json::from_str` and `Document::add_json_object`; false
/// when the text is not a JSON object.
#[verifier::external_body]
pub(crate) fn doc_add_json_str(d: &mut tantivy::Document, f: tantivy::schema::Field, v: &str) -> (r:
    bool) {
    match serde_json::from_str::<serde_json::Map<String, serde_json::Value>>(v) {
        Ok(obj) => {
            d.add_json_object(f, obj);
            true
        },
        Err(_) => false,
    }
}

/// Relies on `IndexWriter::add_document`.
#[verifier::external_body]
pub(crate) fn writer_add_document(w: &tantivy::IndexWriter, d: tantivy::Document) -> (r: bool) {
    w.add_document(d).is_ok()
}

/// Relies on `Term::from_field_text` and `IndexWriter::delete_term`: issues
/// a tombstone against every document whose field holds exactly this text.
#[verifier::external_body]
pub(crate) fn delete_docs_by_term(w: &tantivy::IndexWriter, f: tantivy::schema::Field, text: &str) {
    w.delete_term(tantivy::Term::from_field_text(f, text));
}

/// Relies on `IndexWriter::commit`.
#[verifier::external_body]
pub(crate) fn writer_commit(w: &mut tantivy::IndexWriter) -> (r: bool) {
    w.commit().is_ok()
}

/// Relies on `IndexWriter::wait_merging_threads` (consumes the writer).
#[verifier::external_body]
pub(crate) fn writer_wait_merging(w: tantivy::IndexWriter) -> (r: bool) {
    w.wait_merging_threads().is_ok()
}

/// Relies on `Index::load_metas` and `serde_json::to_string` of its
/// `segments`: the manifest's segment list as JSON text.
#[verifier::external_body]
pub(crate) fn index_segments_json(index: &tantivy::Index) -> Option<String> {
    let metas = index.load_metas().ok()?;
    serde_json::to_string(&metas.segments).ok()
}

/// Relies on `Index::reader`, `IndexReader::searcher` and
/// `Searcher::num_docs`: the number of live documents the reader sees.
#[verifier::external_body]
pub fn reader_num_docs(index: &tantivy::Index) -> Option<u64> {
    let reader = index.reader().ok()?;
    Some(reader.searcher().num_docs())
}

/// Relies on `Schema::fields` filtered to the indexed text fields: the
/// default fields the query language searches.
#[verifier::external_body]
pub(crate) fn default_query_fields(index: &tantivy::Index) -> Vec<tantivy::schema::Field> {
    index
        .schema()
        .fields()
        .filter(|(_, entry)| entry.is_indexed() && matches!(entry.field_type(), FieldType::Str(_)))
        .map(|(field, _)| field)
        .collect()
}

/// Executes one ranked query: at most `limit` hits past `offset`, each as
/// the score's bit pattern with its document address, in the collector's
/// order — descending score.  Scores are non-negative, so their bit
/// patterns order as the scores do.  `TopDocs::with_limit` asserts a
/// positive limit, so the limit must be at least one.
///
/// Relies on this inseparable chain (the parsed query is a trait object
/// Verus cannot carry): `Index::reader`, `IndexReader::searcher`,
/// `QueryParser::for_index`, `QueryParser::parse_query` (an error here is
/// returned as the message), and `Searcher::search` with
/// `TopDocs::with_limit(limit).and_offset(offset)`.
#[verifier::external_body]
pub(crate) fn search_addresses(
    index: &tantivy::Index,
    query: &str,
    fields: Vec<tantivy::schema::Field>,
    limit: usize,
    offset: usize,
) -> (r: Result<Vec<(u32, tantivy::DocAddress)>, String>)
    requires
        limit >= 1,
    ensures
        r matches Ok(hits) ==> hits@.len() <= limit && (forall|i: int, j: int|
            0 <= i < j < hits@.len() ==> (#[trigger] hits@[i]).0 >= (#[trigger] hits@[j]).0),
{
    let reader = index.reader().map_err(|e| e.to_string())?;
    let searcher = reader.searcher();
    let parser = tantivy::query::QueryParser::for_index(index, fields);
    let query = parser.parse_query(query).map_err(|e| e.to_string())?;
    let collector = tantivy::collector::TopDocs::with_limit(limit).and_offset(offset);
    let top = searcher.search(&query, &collector).map_err(|e| e.to_string())?;
    Ok(top.into_iter().map(|(score, addr)| (score.to_bits(), addr)).collect())
}

/// Relies on `Index::reader`, `IndexReader::searcher`, `Searcher::doc` and
/// `Document::get_first`: the stored text of the given field of one
/// addressed document.
#[verifier::external_body]
pub(crate) fn stored_field_text(
    index: &tantivy::Index,
    addr: tantivy::DocAddress,
    field: tantivy::schema::Field,
) -> (r: Option<String>) {
    let reader = index.reader().ok()?;
    let searcher = reader.searcher();
    let doc = searcher.doc(addr).ok()?;
    Some(doc.get_first(field)?.as_text()?.to_string())
}

/// Relies on `Index::reader`, `IndexReader::searcher`,
/// `QueryParser::for_index`, `QueryParser::parse_query`,
/// `SnippetGenerator::create` (`InvalidArgument` means the field is not
/// indexed) and `SnippetGenerator::set_max_num_chars(100)`: a highlighter
/// for one field of a parsed query, or nothing when the field cannot be
/// highlighted.
#[verifier::external_body]
pub(crate) fn make_snippet_generator(
    index: &tantivy::Index,
    query: &str,
    fields: Vec<tantivy::schema::Field>,
    field_name: &str,
) -> (r: Option<tantivy::SnippetGenerator>) {
    let reader = index.reader().ok()?;
    let searcher = reader.searcher();
    let field = index.schema().get_field(field_name)?;
    let parser = tantivy::query::QueryParser::for_index(index, fields);
    let query = parser.parse_query(query).ok()?;
    let mut generator = tantivy::SnippetGenerator::create(&searcher, &query, field).ok()?;
    generator.set_max_num_chars(100);
    Some(generator)
}

/// Relies on `SnippetGenerator::snippet` and `Snippet::to_html`: the best
/// highlighted fragment of the text, as HTML (empty when nothing matched).
#[verifier::external_body]
pub(crate) fn snippet_to_html(generator: &tantivy::SnippetGenerator, text: &str) -> (r: String) {
    generator.snippet(text).to_html()
}

/// Relies on `Index::clone`: the clone is a handle to the same index.
#[verifier::external_body]
pub(crate) fn index_clone(i: &tantivy::Index) -> tantivy::Index {
    i.clone()
}

/// Relies on `Schema::clone`: the clone describes the same schema.
#[verifier::external_body]
pub(crate) fn tschema_clone(s: &tantivy::schema::Schema) -> tantivy::schema::Schema {
    s.clone()
}

} // verus!
