use vstd::prelude::*;
use vstd::string::*;

verus! {

/// Seconds allowed for establishing a connection to the store.
pub const CONNECT_TIMEOUT_SECS: u64 = 5;

/// Settings of an S3-compatible store.
#[derive(Clone, Debug, PartialEq, Eq)]
pub struct S3Config {
    pub endpoint_url: String,
    pub access_key_id: Option<String>,
    pub secret_key: Option<String>,
    pub profile_name: Option<String>,
    pub region: String,
    pub bucket_name: String,
    pub set_checksum: bool,
    pub use_path_style: bool,
    pub skip_tls: bool,
    pub imdsv1_fallback: bool,
    pub metadata_endpoint: Option<String>,
}

/// What the client of the store is built with.
#[derive(Clone, Debug, PartialEq, Eq)]
pub struct ClientSettings {
    pub region: String,
    pub endpoint: String,
    pub bucket: String,
    pub allow_http: bool,
    pub connect_timeout_secs: u64,
    pub allow_invalid_certificates: bool,
    pub virtual_hosted_style: bool,
    pub checksum_sha256: bool,
    pub credentials: Option<(String, String)>,
    pub profile: Option<String>,
    pub imdsv1_fallback: bool,
    pub metadata_endpoint: Option<String>,
}

pub open spec fn opt_view(o: Option<String>) -> Option<Seq<char>> {
    match o {
        Some(s) => Some(s@),
        None => None,
    }
}

fn clone_opt(o: &Option<String>) -> (r: Option<String>)
    ensures
        opt_view(r) == opt_view(*o),
{
    match o {
        Some(s) => Some(s.clone()),
        None => None,
    }
}

impl S3Config {
    /// Address of the bucket: the endpoint, a slash, the bucket's name.
    pub fn get_endpoint(&self) -> (r: String)
        ensures
            r@ == self.endpoint_url@ + "/"@ + self.bucket_name@,
    {
        self.endpoint_url.clone().concat("/").concat(self.bucket_name.as_str())
    }

    /// Address under which the query engine finds the bucket.
    pub fn store_url(&self) -> (r: String)
        ensures
            r@ == "s3://"@ + self.bucket_name@,
    {
        String::from_str("s3://").concat(self.bucket_name.as_str())
    }

    /// Settings of the client: static keys only where both are given,
    /// path-style addressing unless virtual hosts are asked for, plain HTTP
    /// allowed, and a bounded connect phase.
    pub fn get_default_builder(&self) -> (r: ClientSettings)
        ensures
            r.region@ == self.region@,
            r.endpoint@ == self.endpoint_url@,
            r.bucket@ == self.bucket_name@,
            r.allow_http,
            r.connect_timeout_secs == CONNECT_TIMEOUT_SECS,
            r.allow_invalid_certificates == self.skip_tls,
            r.virtual_hosted_style == !self.use_path_style,
            r.checksum_sha256 == self.set_checksum,
            r.credentials is Some <==> (self.access_key_id is Some && self.secret_key is Some),
            r.credentials matches Some((k, s)) ==> opt_view(self.access_key_id) == Some(k@)
                && opt_view(self.secret_key) == Some(s@),
            opt_view(r.profile) == opt_view(self.profile_name),
            r.imdsv1_fallback == self.imdsv1_fallback,
            opt_view(r.metadata_endpoint) == opt_view(self.metadata_endpoint),
    {
        let credentials = match (&self.access_key_id, &self.secret_key) {
            (Some(k), Some(s)) => Some((k.clone(), s.clone())),
            _ => None,
        };
        ClientSettings {
            region: self.region.clone(),
            endpoint: self.endpoint_url.clone(),
            bucket: self.bucket_name.clone(),
            allow_http: true,
            connect_timeout_secs: CONNECT_TIMEOUT_SECS,
            allow_invalid_certificates: self.skip_tls,
            virtual_hosted_style: !self.use_path_style,
            checksum_sha256: self.set_checksum,
            credentials,
            profile: clone_opt(&self.profile_name),
            imdsv1_fallback: self.imdsv1_fallback,
            metadata_endpoint: clone_opt(&self.metadata_endpoint),
        }
    }
}

} // verus!
