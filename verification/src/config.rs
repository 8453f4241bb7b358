//! The settings of one run, and what is sent to the data store.

use vstd::prelude::*;
use vstd::string::*;
use crate::error::{UpwardError, UpwardErrorView};
use crate::record::text_view;

verus! {

/// Where the data store is and how to address it.
#[derive(Debug, Clone, PartialEq, Eq)]
pub struct Config {
    pub server_url: String,
    pub org: String,
    pub org_id: String,
    pub token: String,
    pub bucket: String,
}

/// The mathematical value of a [`Config`].
pub struct ConfigView {
    pub server_url: Seq<char>,
    pub org: Seq<char>,
    pub org_id: Seq<char>,
    pub token: Seq<char>,
    pub bucket: Seq<char>,
}

impl View for Config {
    type V = ConfigView;

    open spec fn view(&self) -> ConfigView {
        ConfigView {
            server_url: self.server_url@,
            org: self.org@,
            org_id: self.org_id@,
            token: self.token@,
            bucket: self.bucket@,
        }
    }
}

/// The settings made of the five values, or the key of the first that is
/// absent, in the order in which they are asked for.
pub open spec fn config_of(
    server_url: Option<Seq<char>>,
    org: Option<Seq<char>>,
    org_id: Option<Seq<char>>,
    token: Option<Seq<char>>,
    bucket: Option<Seq<char>>,
) -> Result<ConfigView, UpwardErrorView> {
    if server_url is None {
        Err(UpwardErrorView::MissingKey("SERVER_URL"@))
    } else if org is None {
        Err(UpwardErrorView::MissingKey("ORG"@))
    } else if org_id is None {
        Err(UpwardErrorView::MissingKey("ORGID"@))
    } else if token is None {
        Err(UpwardErrorView::MissingKey("INFLUX_AUTH_TOKEN"@))
    } else if bucket is None {
        Err(UpwardErrorView::MissingKey("BUCKET"@))
    } else {
        Ok(
            ConfigView {
                server_url: server_url.unwrap(),
                org: org.unwrap(),
                org_id: org_id.unwrap(),
                token: token.unwrap(),
                bucket: bucket.unwrap(),
            },
        )
    }
}

/// The query that asks for the last hour of one instrument in `bucket`.
pub open spec fn query_of(bucket: Seq<char>) -> Seq<char> {
    "from(bucket: \""@ + bucket
        + "\") |> range(start: -1h) |> filter(fn: (r) => r.isin ==\"CA94947L1022\")"@
}

/// The address that queries are sent to.
pub open spec fn url_of(server_url: Seq<char>, org_id: Seq<char>) -> Seq<char> {
    server_url + "/api/v2/query\\?orgID="@ + org_id
}

/// The authorization that goes with a query.
pub open spec fn authorization_of(token: Seq<char>) -> Seq<char> {
    "Token "@ + token
}

/// What [`Config::from_values`] returns, as a mathematical value.
pub open spec fn config_view(r: Result<Config, UpwardError>) -> Result<ConfigView, UpwardErrorView> {
    match r {
        Ok(c) => Ok(c@),
        Err(e) => Err(e@),
    }
}

impl Config {
    /// Makes the settings from the values found for the keys `SERVER_URL`,
    /// `ORG`, `ORGID`, `INFLUX_AUTH_TOKEN` and `BUCKET`. Fails with the key of
    /// the first value that is absent.
    pub fn from_values(
        server_url: Option<String>,
        org: Option<String>,
        org_id: Option<String>,
        token: Option<String>,
        bucket: Option<String>,
    ) -> (r: Result<Config, UpwardError>)
        ensures
            config_view(r) == config_of(
                text_view(server_url),
                text_view(org),
                text_view(org_id),
                text_view(token),
                text_view(bucket),
            ),
    {
        let server_url = match server_url {
            Some(v) => v,
            None => {
                return Err(UpwardError::MissingKey("SERVER_URL".to_owned()));
            },
        };
        let org = match org {
            Some(v) => v,
            None => {
                return Err(UpwardError::MissingKey("ORG".to_owned()));
            },
        };
        let org_id = match org_id {
            Some(v) => v,
            None => {
                return Err(UpwardError::MissingKey("ORGID".to_owned()));
            },
        };
        let token = match token {
            Some(v) => v,
            None => {
                return Err(UpwardError::MissingKey("INFLUX_AUTH_TOKEN".to_owned()));
            },
        };
        let bucket = match bucket {
            Some(v) => v,
            None => {
                return Err(UpwardError::MissingKey("BUCKET".to_owned()));
            },
        };
        Ok(Config { server_url, org, org_id, token, bucket })
    }

    /// The query that asks for the last hour of the instrument.
    pub fn query(&self) -> (text: String)
        ensures
            text@ == query_of(self@.bucket),
    {
        let mut text = "from(bucket: \"".to_owned();
        text.append(self.bucket.as_str());
        text.append("\") |> range(start: -1h) |> filter(fn: (r) => r.isin ==\"CA94947L1022\")");
        text
    }

    /// The address that the query is sent to.
    pub fn request_url(&self) -> (text: String)
        ensures
            text@ == url_of(self@.server_url, self@.org_id),
    {
        let mut text = self.server_url.clone();
        text.append("/api/v2/query\\?orgID=");
        text.append(self.org_id.as_str());
        text
    }

    /// The authorization that goes with the query.
    pub fn authorization(&self) -> (text: String)
        ensures
            text@ == authorization_of(self@.token),
    {
        let mut text = "Token ".to_owned();
        text.append(self.token.as_str());
        text
    }
}

/// Whether the data store answered with success: a status from 200 to 299.
/// Any other answer is an unknown failure of the data store.
pub fn check_status(status: u16) -> (r: Result<(), UpwardError>)
    ensures
        r is Ok <==> 200 <= status <= 299,
        r is Err ==> r == Err::<(), UpwardError>(UpwardError::Unknown),
{
    if 200 <= status && status <= 299 {
        Ok(())
    } else {
        Err(UpwardError::Unknown)
    }
}

} // verus!
