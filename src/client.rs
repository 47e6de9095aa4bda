//! The client handle: credentials, and the operations that need no bucket.
use vstd::prelude::*;
use crate::bucket::OssBucket;
use crate::canonical::Pair;
use crate::common::StorageClass;
use crate::error::Error;
use crate::request::{default_endpoint, upsert, Method, Oss, OssRequest, OssView};
use crate::text::{decimal, decimal_string};

verus! {

/// Entry point: holds the credentials shared by every request.
#[derive(Debug, Clone)]
pub struct OssClient {
    pub oss: Oss,
}

impl OssClient {
    /// A client for the given key pair; an empty secret is refused.
    pub fn new(ak_id: &str, ak_secret: &str) -> (r: Result<OssClient, Error>)
        ensures
            ak_secret@.len() == 0 <==> r is Err,
            r matches Err(e) ==> e == Error::EmptySecret,
            r matches Ok(c) ==> c.oss@ == (OssView {
                ak_id: ak_id@,
                ak_secret: ak_secret@,
                security_token: None,
                endpoint: default_endpoint(),
                bucket: None,
                object: None,
                enable_https: true,
            }),
    {
        let oss = Oss::new(ak_id, ak_secret)?;
        Ok(OssClient { oss })
    }

    /// Uses plain HTTP.
    pub fn disable_https(self) -> (r: OssClient)
        ensures
            r.oss@ == (OssView { enable_https: false, ..self.oss@ }),
    {
        let mut s = self;
        s.oss.set_https(false);
        s
    }

    /// Uses a session token with the key pair.
    pub fn set_security_token(self, token: &str) -> (r: OssClient)
        ensures
            r.oss@ == (OssView { security_token: Some(token@), ..self.oss@ }),
    {
        let mut s = self;
        s.oss.set_security_token(token);
        s
    }

    /// A handle on a bucket at an endpoint.
    pub fn bucket(&self, bucket: &str, endpoint: &str) -> (r: OssBucket)
        ensures
            r.oss@ == (OssView { bucket: Some(bucket@), endpoint: endpoint@, ..self.oss@ }),
    {
        OssBucket::new(self.oss.duplicate(), bucket, endpoint)
    }

    /// Lists the buckets of the account.
    pub fn list_buckets(&self) -> (r: ListBuckets)
        ensures
            r.req.wf(),
            r.req.oss@ == self.oss@,
            r.req.method == Method::Get,
            r.req.query_pairs().len() == 0,
            r.req.header_pairs().len() == 0,
    {
        ListBuckets::new(self.oss.duplicate())
    }

    /// Queries the endpoints of the regions.
    pub fn describe_regions(&self) -> (r: DescribeRegions)
        ensures
            r.req.wf(),
            r.req.oss@ == self.oss@,
            r.req.query_pairs() == seq![("regions"@, ""@)],
    {
        DescribeRegions::new(self.oss.duplicate())
    }
}

/// Lists buckets; the setters narrow the listing.
#[derive(Debug)]
pub struct ListBuckets {
    pub req: OssRequest,
}

impl ListBuckets {
    pub fn new(oss: Oss) -> (r: ListBuckets)
        ensures
            r.req.wf(),
            r.req.oss == oss,
            r.req.method == Method::Get,
            r.req.query_pairs().len() == 0,
            r.req.header_pairs().len() == 0,
    {
        let req = OssRequest::new(oss, Method::Get);
        assert(req.query_pairs() =~= Seq::<Pair>::empty());
        assert(req.header_pairs() =~= Seq::<Pair>::empty());
        ListBuckets { req }
    }

    /// Only buckets whose name starts with `prefix`.
    pub fn set_prefix(self, prefix: &str) -> (r: ListBuckets)
        requires
            self.req.wf(),
        ensures
            r.req.wf(),
            r.req.query_pairs() == upsert(self.req.query_pairs(), "prefix"@, prefix@),
            r.req.header_pairs() == self.req.header_pairs(),
            r.req.oss == self.req.oss,
    {
        let mut s = self;
        s.req.insert_query("prefix", prefix);
        s
    }

    /// Start after `marker`, in name order.
    pub fn set_marker(self, marker: &str) -> (r: ListBuckets)
        requires
            self.req.wf(),
        ensures
            r.req.wf(),
            r.req.query_pairs() == upsert(self.req.query_pairs(), "marker"@, marker@),
            r.req.header_pairs() == self.req.header_pairs(),
            r.req.oss == self.req.oss,
    {
        let mut s = self;
        s.req.insert_query("marker", marker);
        s
    }

    /// At most `max_keys` buckets.
    pub fn set_max_keys(self, max_keys: u32) -> (r: ListBuckets)
        requires
            self.req.wf(),
        ensures
            r.req.wf(),
            r.req.query_pairs() == upsert(
                self.req.query_pairs(),
                "max-keys"@,
                decimal(max_keys as nat),
            ),
            r.req.header_pairs() == self.req.header_pairs(),
            r.req.oss == self.req.oss,
    {
        let mut s = self;
        let v = decimal_string(max_keys as u64);
        s.req.insert_query("max-keys", v.as_str());
        s
    }

    /// Only buckets of the resource group.
    pub fn set_group_id(self, group_id: &str) -> (r: ListBuckets)
        requires
            self.req.wf(),
        ensures
            r.req.wf(),
            r.req.header_pairs() == upsert(
                self.req.header_pairs(),
                "x-oss-resource-group-id"@,
                group_id@,
            ),
            r.req.query_pairs() == self.req.query_pairs(),
            r.req.oss == self.req.oss,
    {
        let mut s = self;
        s.req.insert_header("x-oss-resource-group-id", group_id);
        s
    }
}

/// Queries region endpoints.
#[derive(Debug)]
pub struct DescribeRegions {
    pub req: OssRequest,
}

impl DescribeRegions {
    pub fn new(oss: Oss) -> (r: DescribeRegions)
        ensures
            r.req.wf(),
            r.req.oss == oss,
            r.req.query_pairs() == seq![("regions"@, ""@)],
    {
        let mut req = OssRequest::new(oss, Method::Get);
        req.insert_query("regions", "");
        proof {
            assert(req.query_pairs() =~= seq![("regions"@, ""@)]);
        }
        DescribeRegions { req }
    }

    /// Only the region with this id.
    pub fn set_regions(self, regions: &str) -> (r: DescribeRegions)
        requires
            self.req.wf(),
        ensures
            r.req.wf(),
            r.req.query_pairs() == upsert(self.req.query_pairs(), "regions"@, regions@),
            r.req.oss == self.req.oss,
    {
        let mut s = self;
        s.req.insert_query("regions", regions);
        s
    }

    /// Sends the query to another endpoint.
    pub fn set_endpoint(self, endpoint: &str) -> (r: DescribeRegions)
        ensures
            r.req.oss@ == (OssView { endpoint: endpoint@, ..self.req.oss@ }),
            r.req.querys == self.req.querys,
            r.req.headers == self.req.headers,
    {
        let mut s = self;
        s.req.set_endpoint(endpoint);
        s
    }
}

/// Endpoints of one region.
#[derive(Debug, Clone, PartialEq, Eq)]
pub struct RegionInfo {
    pub region: String,
    pub accelerate_endpoint: String,
    pub internal_endpoint: String,
    pub internet_endpoint: String,
}

/// A bucket in a bucket listing.
#[derive(Debug, Clone, PartialEq, Eq)]
pub struct BucketBase {
    pub name: String,
    pub region: String,
    pub location: String,
    pub extranet_endpoint: String,
    pub intranet_endpoint: String,
    pub storage_class: StorageClass,
}

/// A bucket listing: the buckets, and a marker when more remain.
#[derive(Debug, Clone, PartialEq, Eq)]
pub struct ListAllMyBuckets {
    pub next_marker: Option<String>,
    pub buckets: Option<Vec<BucketBase>>,
}

} // verus!
