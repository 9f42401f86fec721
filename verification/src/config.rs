//! Configuration: what must be set before a handler may run. A handler
//! refuses to start without it.

use crate::text::option_text;
use vstd::prelude::*;
use vstd::string::StringExecFns;

verus! {

/// A setting that is required and not there.
#[derive(Debug)]
pub struct ConfigError {
    pub message: String,
}

/// What is said of a missing setting.
pub open spec fn missing_message(name: Seq<char>) -> Seq<char> {
    name + " environment variable not set"@
}

/// A required setting: its value, or the error that says it is missing.
pub fn required(name: &str, value: Option<String>) -> (setting: Result<String, ConfigError>)
    ensures
        match value {
            Some(given) => setting is Ok && setting->Ok_0@ == given@,
            None => setting is Err && setting->Err_0.message@ == missing_message(name@),
        },
{
    match value {
        Some(given) => Ok(given),
        None => {
            let mut message = String::from_str(name);
            message.append(" environment variable not set");
            Err(ConfigError { message })
        },
    }
}

/// The address at which the transport of a deployment takes deliveries.
pub open spec fn endpoint_of(api_id: Seq<char>, region: Seq<char>, stage: Seq<char>) -> Seq<char> {
    "https://"@ + api_id + ".execute-api."@ + region + ".amazonaws.com/"@ + stage
}

/// The address at which the transport of a deployment takes deliveries.
pub fn management_endpoint(api_id: &str, region: &str, stage: &str) -> (endpoint: String)
    ensures
        endpoint@ == endpoint_of(api_id@, region@, stage@),
{
    let mut endpoint = String::from_str("https://");
    endpoint.append(api_id);
    endpoint.append(".execute-api.");
    endpoint.append(region);
    endpoint.append(".amazonaws.com/");
    endpoint.append(stage);
    endpoint
}

/// What the broadcaster needs to know of its deployment.
#[derive(Debug)]
pub struct BroadcastSettings {
    /// The address of the transport.
    pub endpoint: String,
    /// The table that holds the registry.
    pub connections_table: String,
}

/// The first of the broadcaster's settings that is missing, in the order
/// `WS_API_ID`, `WS_STAGE`, `AWS_REGION`, `CONNECTIONS_TABLE`.
pub open spec fn first_missing(
    ws_api_id: Option<Seq<char>>,
    ws_stage: Option<Seq<char>>,
    aws_region: Option<Seq<char>>,
    connections_table: Option<Seq<char>>,
) -> Option<Seq<char>> {
    if ws_api_id is None {
        Some("WS_API_ID"@)
    } else if ws_stage is None {
        Some("WS_STAGE"@)
    } else if aws_region is None {
        Some("AWS_REGION"@)
    } else if connections_table is None {
        Some("CONNECTIONS_TABLE"@)
    } else {
        None
    }
}

/// The settings of the broadcaster, or the error that names the first
/// setting that is missing.
pub fn broadcast_settings(
    ws_api_id: Option<String>,
    ws_stage: Option<String>,
    aws_region: Option<String>,
    connections_table: Option<String>,
) -> (settings: Result<BroadcastSettings, ConfigError>)
    ensures
        match first_missing(
            option_text(ws_api_id),
            option_text(ws_stage),
            option_text(aws_region),
            option_text(connections_table),
        ) {
            Some(name) => settings is Err && settings->Err_0.message@ == missing_message(name),
            None => settings is Ok && settings->Ok_0.endpoint@ == endpoint_of(
                ws_api_id->0@,
                aws_region->0@,
                ws_stage->0@,
            ) && settings->Ok_0.connections_table@ == connections_table->0@,
        },
{
    let api_id = match required("WS_API_ID", ws_api_id) {
        Ok(given) => given,
        Err(error) => { return Err(error); },
    };
    let stage = match required("WS_STAGE", ws_stage) {
        Ok(given) => given,
        Err(error) => { return Err(error); },
    };
    let region = match required("AWS_REGION", aws_region) {
        Ok(given) => given,
        Err(error) => { return Err(error); },
    };
    let endpoint = management_endpoint(api_id.as_str(), region.as_str(), stage.as_str());
    let table = match required("CONNECTIONS_TABLE", connections_table) {
        Ok(given) => given,
        Err(error) => { return Err(error); },
    };
    Ok(BroadcastSettings { endpoint, connections_table: table })
}

} // verus!
