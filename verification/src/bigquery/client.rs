//! The warehouse project and dataset that a run writes to.

use crate::utils::error::{ClimateError, ErrorModel};
use vstd::prelude::*;
use vstd::string::*;

verus! {

/// Names the project and the dataset of the warehouse.
#[derive(Debug)]
pub struct BigQueryClient {
    project_id: String,
    dataset_id: String,
}

/// The mathematical content of a [`BigQueryClient`].
pub struct ClientModel {
    pub project_id: Seq<char>,
    pub dataset_id: Seq<char>,
}

impl View for BigQueryClient {
    type V = ClientModel;

    closed spec fn view(&self) -> ClientModel {
        ClientModel { project_id: self.project_id@, dataset_id: self.dataset_id@ }
    }
}

/// What making a client from the two settings comes to: the client, or the
/// configuration error that names the first setting that is absent.
pub open spec fn client_from(project_id: Option<Seq<char>>, dataset_id: Option<Seq<char>>) -> Result<
    ClientModel,
    ErrorModel,
> {
    match (project_id, dataset_id) {
        (None, _) => Err(ErrorModel::ConfigError("GCP_PROJECT_ID not found in environment"@)),
        (Some(_), None) => Err(
            ErrorModel::ConfigError("BIGQUERY_DATASET not found in environment"@),
        ),
        (Some(project), Some(dataset)) => Ok(
            ClientModel { project_id: project, dataset_id: dataset },
        ),
    }
}

/// The full name of a table: project, dataset and table, joined by dots.
pub open spec fn table_path(client: ClientModel, table_name: Seq<char>) -> Seq<char> {
    client.project_id + "."@ + client.dataset_id + "."@ + table_name
}

impl BigQueryClient {
    /// A client for the project and the dataset that the settings
    /// `GCP_PROJECT_ID` and `BIGQUERY_DATASET` name. A setting that is absent
    /// is a configuration error, found here and not at the first load.
    pub fn new(project_id: Option<String>, dataset_id: Option<String>) -> (made: Result<
        Self,
        ClimateError,
    >)
        ensures
            match client_from(project_id.deep_view(), dataset_id.deep_view()) {
                Ok(client) => made matches Ok(c) && c@ == client,
                Err(error) => made matches Err(e) && e@ == error,
            },
    {
        let project_id = match project_id {
            Some(value) => value,
            None => {
                return Err(
                    ClimateError::ConfigError(
                        "GCP_PROJECT_ID not found in environment".to_owned(),
                    ),
                );
            },
        };
        let dataset_id = match dataset_id {
            Some(value) => value,
            None => {
                return Err(
                    ClimateError::ConfigError(
                        "BIGQUERY_DATASET not found in environment".to_owned(),
                    ),
                );
            },
        };
        Ok(BigQueryClient { project_id, dataset_id })
    }

    /// The project of the warehouse.
    pub fn project_id(&self) -> (id: &str)
        ensures
            id@ == self@.project_id,
    {
        self.project_id.as_str()
    }

    /// The dataset of the warehouse.
    pub fn dataset_id(&self) -> (id: &str)
        ensures
            id@ == self@.dataset_id,
    {
        self.dataset_id.as_str()
    }

    /// The full name of the table `table_name` in this dataset.
    pub fn table_path(&self, table_name: &str) -> (path: String)
        ensures
            path@ == table_path(self@, table_name@),
    {
        self.project_id.clone().concat(".").concat(self.dataset_id.as_str()).concat(".").concat(
            table_name,
        )
    }
}

} // verus!
