//! Table schemas and the registry that holds them.

use crate::utils::error::ClimateError;
use crate::utils::text::{join, str_eq};
use vstd::prelude::*;
use vstd::string::*;

verus! {

/// The type of a column.
#[derive(Clone, Copy, Debug, PartialEq, Eq, Structural)]
pub enum FieldType {
    /// `STRING`
    Text,
    /// `FLOAT64`
    Float,
    /// `TIMESTAMP`
    Timestamp,
    /// `INTEGER`
    Integer,
}

/// One column of a table: its name, its type, and whether a row must have it.
#[derive(Debug, PartialEq, Eq)]
pub struct SchemaField {
    pub name: String,
    pub field_type: FieldType,
    pub required: bool,
}

/// The mathematical content of a [`SchemaField`].
pub struct FieldModel {
    pub name: Seq<char>,
    pub field_type: FieldType,
    pub required: bool,
}

impl View for SchemaField {
    type V = FieldModel;

    open spec fn view(&self) -> FieldModel {
        FieldModel { name: self.name@, field_type: self.field_type, required: self.required }
    }
}

impl DeepView for SchemaField {
    type V = FieldModel;

    open spec fn deep_view(&self) -> FieldModel {
        self@
    }
}

/// The columns of one destination table, in order.
#[derive(Debug, PartialEq, Eq)]
pub struct TableSchema {
    pub table_name: String,
    pub fields: Vec<SchemaField>,
}

/// The mathematical content of a [`TableSchema`].
pub struct SchemaModel {
    pub table_name: Seq<char>,
    pub fields: Seq<FieldModel>,
}

impl View for TableSchema {
    type V = SchemaModel;

    open spec fn view(&self) -> SchemaModel {
        SchemaModel { table_name: self.table_name@, fields: self.fields.deep_view() }
    }
}

impl DeepView for TableSchema {
    type V = SchemaModel;

    open spec fn deep_view(&self) -> SchemaModel {
        self@
    }
}

/// Whether no two columns share a name.
pub open spec fn names_unique(fields: Seq<FieldModel>) -> bool {
    forall|i: int, j: int| 0 <= i < j < fields.len() ==> fields[i].name != fields[j].name
}

/// Whether some column is required.
pub open spec fn has_required(fields: Seq<FieldModel>) -> bool {
    exists|i: int| 0 <= i < fields.len() && fields[i].required
}

/// Whether a schema is well formed: its column names are unique and at least
/// one column is required.
pub open spec fn is_well_formed(schema: SchemaModel) -> bool {
    names_unique(schema.fields) && has_required(schema.fields)
}

/// A column.
pub open spec fn column(name: Seq<char>, field_type: FieldType, required: bool) -> FieldModel {
    FieldModel { name, field_type, required }
}

/// The columns of the raw NOAA CDO table.
pub open spec fn noaa_cdo_columns() -> Seq<FieldModel> {
    seq![
        column("source_id"@, FieldType::Text, true),
        column("ingestion_timestamp"@, FieldType::Timestamp, true),
        column("data_timestamp"@, FieldType::Timestamp, true),
        column("latitude"@, FieldType::Float, false),
        column("longitude"@, FieldType::Float, false),
        column("location_name"@, FieldType::Text, false),
        column("station_id"@, FieldType::Text, true),
        column("datatype"@, FieldType::Text, true),
        column("value"@, FieldType::Float, true),
        column("attributes"@, FieldType::Text, false),
        column("data_quality_flag"@, FieldType::Text, false),
    ]
}

/// The columns of the raw NASA POWER table.
pub open spec fn nasa_power_columns() -> Seq<FieldModel> {
    seq![
        column("source_id"@, FieldType::Text, true),
        column("ingestion_timestamp"@, FieldType::Timestamp, true),
        column("data_timestamp"@, FieldType::Timestamp, true),
        column("latitude"@, FieldType::Float, true),
        column("longitude"@, FieldType::Float, true),
        column("location_name"@, FieldType::Text, false),
        column("temperature_2m"@, FieldType::Float, false),
        column("temperature_2m_max"@, FieldType::Float, false),
        column("temperature_2m_min"@, FieldType::Float, false),
        column("precipitation"@, FieldType::Float, false),
        column("wind_speed"@, FieldType::Float, false),
        column("relative_humidity"@, FieldType::Float, false),
        column("solar_radiation"@, FieldType::Float, false),
        column("data_quality_flag"@, FieldType::Text, false),
    ]
}

/// The columns of the unified staging table of weather observations.
pub open spec fn staging_weather_observations_columns() -> Seq<FieldModel> {
    seq![
        column("observation_id"@, FieldType::Text, true),
        column("source_id"@, FieldType::Text, true),
        column("timestamp"@, FieldType::Timestamp, true),
        column("latitude"@, FieldType::Float, true),
        column("longitude"@, FieldType::Float, true),
        column("location_name"@, FieldType::Text, false),
        column("temperature_celsius"@, FieldType::Float, false),
        column("precipitation_mm"@, FieldType::Float, false),
        column("wind_speed_ms"@, FieldType::Float, false),
        column("humidity_percent"@, FieldType::Float, false),
        column("pressure_hpa"@, FieldType::Float, false),
        column("quality_score"@, FieldType::Float, false),
        column("processing_timestamp"@, FieldType::Timestamp, true),
    ]
}

/// The schema of the raw NOAA CDO table.
pub open spec fn noaa_cdo_table() -> SchemaModel {
    SchemaModel { table_name: "noaa_cdo"@, fields: noaa_cdo_columns() }
}

/// The schema of the raw NASA POWER table.
pub open spec fn nasa_power_table() -> SchemaModel {
    SchemaModel { table_name: "nasa_power"@, fields: nasa_power_columns() }
}

/// The schema of the unified staging table.
pub open spec fn staging_weather_observations_table() -> SchemaModel {
    SchemaModel {
        table_name: "staging_weather_observations"@,
        fields: staging_weather_observations_columns(),
    }
}

impl FieldType {
    /// The name of the type in the warehouse.
    pub fn warehouse_name(&self) -> (name: &'static str)
        ensures
            name@ == match *self {
                FieldType::Text => "STRING"@,
                FieldType::Float => "FLOAT64"@,
                FieldType::Timestamp => "TIMESTAMP"@,
                FieldType::Integer => "INTEGER"@,
            },
    {
        match self {
            FieldType::Text => "STRING",
            FieldType::Float => "FLOAT64",
            FieldType::Timestamp => "TIMESTAMP",
            FieldType::Integer => "INTEGER",
        }
    }
}

impl SchemaField {
    /// The column with the given name, type and mode.
    pub fn new(name: &str, field_type: FieldType, required: bool) -> (field: SchemaField)
        ensures
            field@ == column(name@, field_type, required),
    {
        SchemaField { name: name.to_owned(), field_type, required }
    }

    /// The mode of the column in the warehouse.
    pub fn mode_name(&self) -> (name: &'static str)
        ensures
            name@ == if self.required {
                "REQUIRED"@
            } else {
                "NULLABLE"@
            },
    {
        if self.required {
            "REQUIRED"
        } else {
            "NULLABLE"
        }
    }
}

impl Clone for SchemaField {
    fn clone(&self) -> (copy: Self)
        ensures
            copy == *self,
    {
        SchemaField {
            name: self.name.clone(),
            field_type: self.field_type,
            required: self.required,
        }
    }
}

impl TableSchema {
    /// Whether the schema is well formed.
    pub fn is_well_formed(&self) -> (ok: bool)
        ensures
            ok == is_well_formed(self@),
    {
        let n = self.fields.len();
        let ghost fields = self.fields.deep_view();
        let mut required = false;
        let mut i: usize = 0;
        while i < n
            invariant
                i <= n,
                n == self.fields.len(),
                fields == self.fields.deep_view(),
                required == (exists|k: int| 0 <= k < i && fields[k].required),
                forall|a: int, b: int| 0 <= a < b < i ==> fields[a].name != fields[b].name,
            decreases n - i,
        {
            let mut j: usize = 0;
            while j < i
                invariant
                    j <= i < n,
                    n == self.fields.len(),
                    fields == self.fields.deep_view(),
                    forall|a: int| 0 <= a < j ==> fields[a].name != fields[i as int].name,
                decreases i - j,
            {
                if self.fields[j].name == self.fields[i].name {
                    assert(fields[j as int].name == fields[i as int].name);
                    return false;
                }
                j += 1;
            }
            if self.fields[i].required {
                assert(fields[i as int].required);
                required = true;
            }
            i += 1;
        }
        required
    }
}

impl Clone for TableSchema {
    fn clone(&self) -> (copy: Self)
        ensures
            copy@ == self@,
    {
        let mut fields: Vec<SchemaField> = Vec::new();
        let mut i: usize = 0;
        while i < self.fields.len()
            invariant
                i <= self.fields.len(),
                fields.len() == i,
                forall|k: int| 0 <= k < i ==> fields[k] == self.fields[k],
            decreases self.fields.len() - i,
        {
            fields.push(self.fields[i].clone());
            i += 1;
        }
        assert(fields.deep_view() =~= self.fields.deep_view());
        TableSchema { table_name: self.table_name.clone(), fields }
    }
}

/// The raw NOAA CDO table is well formed.
pub proof fn lemma_noaa_cdo_well_formed()
    ensures
        is_well_formed(noaa_cdo_table()),
{
    reveal_strlit("source_id");
    reveal_strlit("ingestion_timestamp");
    reveal_strlit("data_timestamp");
    reveal_strlit("latitude");
    reveal_strlit("longitude");
    reveal_strlit("location_name");
    reveal_strlit("station_id");
    reveal_strlit("datatype");
    reveal_strlit("value");
    reveal_strlit("attributes");
    reveal_strlit("data_quality_flag");
    let fields = noaa_cdo_columns();
    assert("source_id"@[0] != "longitude"@[0]);
    assert("latitude"@[0] != "datatype"@[0]);
    assert("station_id"@[0] != "attributes"@[0]);
    assert(fields.len() == 11);
    assert forall|i: int, j: int| 0 <= i < j < fields.len() implies fields[i].name
        != fields[j].name by {
        assert(fields[i].name.len() > 0);
        assert(fields[j].name.len() > 0);
    }
    assert(fields[0].required);
}

/// The raw NASA POWER table is well formed.
pub proof fn lemma_nasa_power_well_formed()
    ensures
        is_well_formed(nasa_power_table()),
{
    reveal_strlit("source_id");
    reveal_strlit("ingestion_timestamp");
    reveal_strlit("data_timestamp");
    reveal_strlit("latitude");
    reveal_strlit("longitude");
    reveal_strlit("location_name");
    reveal_strlit("temperature_2m");
    reveal_strlit("temperature_2m_max");
    reveal_strlit("temperature_2m_min");
    reveal_strlit("precipitation");
    reveal_strlit("wind_speed");
    reveal_strlit("relative_humidity");
    reveal_strlit("solar_radiation");
    reveal_strlit("data_quality_flag");
    let fields = nasa_power_columns();
    assert("source_id"@[0] != "longitude"@[0]);
    assert("data_timestamp"@[0] != "temperature_2m"@[0]);
    assert("location_name"@[0] != "precipitation"@[0]);
    assert("temperature_2m_max"@[16] != "temperature_2m_min"@[16]);
    assert("relative_humidity"@[0] != "data_quality_flag"@[0]);
    assert(fields.len() == 14);
    assert forall|i: int, j: int| 0 <= i < j < fields.len() implies fields[i].name
        != fields[j].name by {
        assert(fields[i].name.len() > 0);
        assert(fields[j].name.len() > 0);
    }
    assert(fields[0].required);
}

/// The unified staging table is well formed.
pub proof fn lemma_staging_well_formed()
    ensures
        is_well_formed(staging_weather_observations_table()),
{
    reveal_strlit("observation_id");
    reveal_strlit("source_id");
    reveal_strlit("timestamp");
    reveal_strlit("latitude");
    reveal_strlit("longitude");
    reveal_strlit("location_name");
    reveal_strlit("temperature_celsius");
    reveal_strlit("precipitation_mm");
    reveal_strlit("wind_speed_ms");
    reveal_strlit("humidity_percent");
    reveal_strlit("pressure_hpa");
    reveal_strlit("quality_score");
    reveal_strlit("processing_timestamp");
    let fields = staging_weather_observations_columns();
    assert("source_id"@[0] != "longitude"@[0]);
    assert("source_id"@[0] != "timestamp"@[0]);
    assert("timestamp"@[0] != "longitude"@[0]);
    assert("location_name"@[0] != "wind_speed_ms"@[0]);
    assert("location_name"@[0] != "quality_score"@[0]);
    assert("wind_speed_ms"@[0] != "quality_score"@[0]);
    assert("precipitation_mm"@[0] != "humidity_percent"@[0]);
    assert(fields.len() == 13);
    assert forall|i: int, j: int| 0 <= i < j < fields.len() implies fields[i].name
        != fields[j].name by {
        assert(fields[i].name.len() > 0);
        assert(fields[j].name.len() > 0);
    }
    assert(fields[0].required);
}

/// The three tables that every registry starts with are well formed.
pub proof fn lemma_builtin_tables_well_formed()
    ensures
        is_well_formed(noaa_cdo_table()),
        is_well_formed(nasa_power_table()),
        is_well_formed(staging_weather_observations_table()),
{
    lemma_noaa_cdo_well_formed();
    lemma_nasa_power_well_formed();
    lemma_staging_well_formed();
}

/// The table of the given name: the one registered last under it, if any.
pub open spec fn find_table(tables: Seq<SchemaModel>, name: Seq<char>) -> Option<SchemaModel>
    decreases tables.len(),
{
    if tables.len() == 0 {
        None
    } else if tables.last().table_name == name {
        Some(tables.last())
    } else {
        find_table(tables.drop_last(), name)
    }
}

/// Whether the tables make a registry: each is well formed and no two share
/// a name.
pub open spec fn is_registry(tables: Seq<SchemaModel>) -> bool {
    &&& forall|i: int| 0 <= i < tables.len() ==> is_well_formed(#[trigger] tables[i])
    &&& forall|i: int, j: int|
        0 <= i < j < tables.len() ==> tables[i].table_name != tables[j].table_name
}

/// The tables that every registry starts with.
pub open spec fn builtin_tables() -> Seq<SchemaModel> {
    seq![noaa_cdo_table(), nasa_power_table(), staging_weather_observations_table()]
}

/// A table that `find_table` gives is one of the tables and has the name
/// that was asked for; it gives none only where no table has the name.
pub proof fn lemma_find_table(tables: Seq<SchemaModel>, name: Seq<char>)
    ensures
        match find_table(tables, name) {
            Some(table) => table.table_name == name && tables.contains(table),
            None => forall|i: int| 0 <= i < tables.len() ==> tables[i].table_name != name,
        },
    decreases tables.len(),
{
    if tables.len() > 0 {
        if tables.last().table_name == name {
            assert(tables[tables.len() - 1] == tables.last());
        } else {
            lemma_find_table(tables.drop_last(), name);
            match find_table(tables.drop_last(), name) {
                Some(table) => {
                    let i = choose|i: int|
                        0 <= i < tables.drop_last().len() && tables.drop_last()[i] == table;
                    assert(tables[i] == table);
                },
                None => {
                    assert forall|i: int| 0 <= i < tables.len() implies tables[i].table_name
                        != name by {
                        if i < tables.len() - 1 {
                            assert(tables.drop_last()[i] == tables[i]);
                        }
                    }
                },
            }
        }
    }
}

/// The registry of destination tables. It holds well-formed schemas under
/// distinct names, and is read-only once a run has started.
#[derive(Debug)]
pub struct SchemaManager {
    pub(crate) schemas: Vec<TableSchema>,
}

impl View for SchemaManager {
    type V = Seq<SchemaModel>;

    closed spec fn view(&self) -> Seq<SchemaModel> {
        self.schemas.deep_view()
    }
}

impl SchemaManager {
    /// Whether the registry is sound: its schemas are well formed and their
    /// names distinct. Every registry that this library hands out is.
    pub open spec fn wf(&self) -> bool {
        is_registry(self@)
    }

    /// A registry that holds the two raw tables and the staging table.
    pub fn new() -> (manager: Self)
        ensures
            manager@ == builtin_tables(),
            manager.wf(),
    {
        let mut schemas: Vec<TableSchema> = Vec::new();
        schemas.push(Self::noaa_cdo_schema());
        schemas.push(Self::nasa_power_schema());
        schemas.push(Self::staging_weather_observations_schema());
        proof {
            lemma_builtin_tables_well_formed();
            reveal_strlit("noaa_cdo");
            reveal_strlit("nasa_power");
            reveal_strlit("staging_weather_observations");
            assert(schemas.deep_view() =~= builtin_tables());
            let tables = builtin_tables();
            assert(tables.len() == 3);
            assert forall|i: int, j: int| 0 <= i < j < tables.len() implies tables[i].table_name
                != tables[j].table_name by {
                assert(tables[i].table_name.len() > 0);
                assert(tables[j].table_name.len() > 0);
            }
        }
        SchemaManager { schemas }
    }

    /// The schema of the raw NOAA CDO table.
    pub fn noaa_cdo_schema() -> (schema: TableSchema)
        ensures
            schema@ == noaa_cdo_table(),
            is_well_formed(schema@),
    {
        let mut fields: Vec<SchemaField> = Vec::new();
        fields.push(SchemaField::new("source_id", FieldType::Text, true));
        fields.push(SchemaField::new("ingestion_timestamp", FieldType::Timestamp, true));
        fields.push(SchemaField::new("data_timestamp", FieldType::Timestamp, true));
        fields.push(SchemaField::new("latitude", FieldType::Float, false));
        fields.push(SchemaField::new("longitude", FieldType::Float, false));
        fields.push(SchemaField::new("location_name", FieldType::Text, false));
        fields.push(SchemaField::new("station_id", FieldType::Text, true));
        fields.push(SchemaField::new("datatype", FieldType::Text, true));
        fields.push(SchemaField::new("value", FieldType::Float, true));
        fields.push(SchemaField::new("attributes", FieldType::Text, false));
        fields.push(SchemaField::new("data_quality_flag", FieldType::Text, false));
        proof {
            lemma_builtin_tables_well_formed();
            assert(fields.deep_view() =~= noaa_cdo_columns());
        }
        TableSchema { table_name: "noaa_cdo".to_owned(), fields }
    }

    /// The schema of the raw NASA POWER table.
    pub fn nasa_power_schema() -> (schema: TableSchema)
        ensures
            schema@ == nasa_power_table(),
            is_well_formed(schema@),
    {
        let mut fields: Vec<SchemaField> = Vec::new();
        fields.push(SchemaField::new("source_id", FieldType::Text, true));
        fields.push(SchemaField::new("ingestion_timestamp", FieldType::Timestamp, true));
        fields.push(SchemaField::new("data_timestamp", FieldType::Timestamp, true));
        fields.push(SchemaField::new("latitude", FieldType::Float, true));
        fields.push(SchemaField::new("longitude", FieldType::Float, true));
        fields.push(SchemaField::new("location_name", FieldType::Text, false));
        fields.push(SchemaField::new("temperature_2m", FieldType::Float, false));
        fields.push(SchemaField::new("temperature_2m_max", FieldType::Float, false));
        fields.push(SchemaField::new("temperature_2m_min", FieldType::Float, false));
        fields.push(SchemaField::new("precipitation", FieldType::Float, false));
        fields.push(SchemaField::new("wind_speed", FieldType::Float, false));
        fields.push(SchemaField::new("relative_humidity", FieldType::Float, false));
        fields.push(SchemaField::new("solar_radiation", FieldType::Float, false));
        fields.push(SchemaField::new("data_quality_flag", FieldType::Text, false));
        proof {
            lemma_builtin_tables_well_formed();
            assert(fields.deep_view() =~= nasa_power_columns());
        }
        TableSchema { table_name: "nasa_power".to_owned(), fields }
    }

    /// The schema of the unified staging table of weather observations.
    pub fn staging_weather_observations_schema() -> (schema: TableSchema)
        ensures
            schema@ == staging_weather_observations_table(),
            is_well_formed(schema@),
    {
        let mut fields: Vec<SchemaField> = Vec::new();
        fields.push(SchemaField::new("observation_id", FieldType::Text, true));
        fields.push(SchemaField::new("source_id", FieldType::Text, true));
        fields.push(SchemaField::new("timestamp", FieldType::Timestamp, true));
        fields.push(SchemaField::new("latitude", FieldType::Float, true));
        fields.push(SchemaField::new("longitude", FieldType::Float, true));
        fields.push(SchemaField::new("location_name", FieldType::Text, false));
        fields.push(SchemaField::new("temperature_celsius", FieldType::Float, false));
        fields.push(SchemaField::new("precipitation_mm", FieldType::Float, false));
        fields.push(SchemaField::new("wind_speed_ms", FieldType::Float, false));
        fields.push(SchemaField::new("humidity_percent", FieldType::Float, false));
        fields.push(SchemaField::new("pressure_hpa", FieldType::Float, false));
        fields.push(SchemaField::new("quality_score", FieldType::Float, false));
        fields.push(SchemaField::new("processing_timestamp", FieldType::Timestamp, true));
        proof {
            lemma_builtin_tables_well_formed();
            assert(fields.deep_view() =~= staging_weather_observations_columns());
        }
        TableSchema { table_name: "staging_weather_observations".to_owned(), fields }
    }

    /// The schema registered under `table_name`, if there is one.
    pub fn schema_for(&self, table_name: &str) -> (found: Option<&TableSchema>)
        ensures
            found.deep_view() == find_table(self@, table_name@),
    {
        let ghost tables = self.schemas.deep_view();
        let mut i: usize = self.schemas.len();
        assert(tables.take(i as int) =~= tables);
        while i > 0
            invariant
                i <= self.schemas.len(),
                tables == self.schemas.deep_view(),
                find_table(tables, table_name@) == find_table(tables.take(i as int), table_name@),
            decreases i,
        {
            i -= 1;
            assert(tables.take(i + 1).last() == tables[i as int]);
            assert(tables.take(i + 1).drop_last() =~= tables.take(i as int));
            if str_eq(self.schemas[i].table_name.as_str(), table_name) {
                return Some(&self.schemas[i]);
            }
        }
        assert(tables.take(0).len() == 0);
        None
    }

    /// Whether a table is registered under `table_name`.
    pub fn knows(&self, table_name: &str) -> (yes: bool)
        ensures
            yes == find_table(self@, table_name@).is_some(),
    {
        self.schema_for(table_name).is_some()
    }

    /// Adds a table. The schema is refused, and the registry left as it was,
    /// when it is not well formed or its name is taken.
    pub fn register(&mut self, schema: TableSchema) -> (outcome: Result<(), ClimateError>)
        requires
            old(self).wf(),
        ensures
            final(self).wf(),
            outcome is Ok <==> is_well_formed(schema@) && find_table(
                old(self)@,
                schema@.table_name,
            ) is None,
            outcome is Ok ==> final(self)@ == old(self)@.push(schema@),
            outcome matches Err(error) ==> {
                &&& final(self)@ == old(self)@
                &&& error@ == if !is_well_formed(schema@) {
                    crate::utils::error::ErrorModel::ConfigError(
                        "schema is not well formed: "@ + schema@.table_name,
                    )
                } else {
                    crate::utils::error::ErrorModel::ConfigError(
                        "table is already registered: "@ + schema@.table_name,
                    )
                }
            },
    {
        if !schema.is_well_formed() {
            return Err(
                ClimateError::ConfigError(
                    join("schema is not well formed: ", schema.table_name.as_str()),
                ),
            );
        }
        if self.knows(schema.table_name.as_str()) {
            return Err(
                ClimateError::ConfigError(
                    join("table is already registered: ", schema.table_name.as_str()),
                ),
            );
        }
        proof {
            lemma_find_table(self@, schema@.table_name);
            assert(self.schemas.deep_view().push(schema@) =~= self.schemas.deep_view().push(
                schema.deep_view(),
            ));
        }
        let ghost before = self.schemas.deep_view();
        self.schemas.push(schema);
        assert(self.schemas.deep_view() =~= before.push(schema@));
        Ok(())
    }
}

} // verus!
