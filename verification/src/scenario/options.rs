//! Options as the scenario sets them, each with everything unset that a step
//! does not speak of.

use vstd::prelude::*;

use crate::query;
use crate::text;
use crate::types::{
    DocumentGetOptions, DocumentInsertOptions, DocumentRemoveOptions, DocumentReplaceOptions,
    DocumentUpsertOptions, DurabilityLevel, QueryScanConsistency, ReplicaReadLevel,
    SqlppQueryOptions, TokenView,
};

verus! {

/// The contents of a [`DocumentGetOptions`].
pub struct GetOptionsView {
    pub with_expiry: bool,
    pub project: Option<Seq<Seq<char>>>,
    pub use_replica: Option<ReplicaReadLevel>,
    pub timeout_ns: Option<u64>,
}

impl View for DocumentGetOptions {
    type V = GetOptionsView;

    open spec fn view(&self) -> GetOptionsView {
        GetOptionsView {
            with_expiry: self.with_expiry,
            project: match self.project {
                Some(p) => Some(text::texts(p@)),
                None => None,
            },
            use_replica: self.use_replica,
            timeout_ns: self.timeout_ns,
        }
    }
}

/// The contents of a [`SqlppQueryOptions`].
pub struct QueryOptionsView {
    pub scan_consistency: QueryScanConsistency,
    pub consistent_with: Option<Seq<TokenView>>,
    pub scan_cap: u64,
    pub pipeline_batch: u64,
    pub pipeline_cap: u64,
    pub scan_wait_ns: u64,
    pub readonly: bool,
    pub max_parallelism: u64,
    pub client_context_id: Option<Seq<char>>,
    pub metrics: bool,
    pub ad_hoc: bool,
    pub timeout_ns: u64,
    pub preserve_expiry: bool,
    pub use_flex_index: bool,
}

impl View for SqlppQueryOptions {
    type V = QueryOptionsView;

    open spec fn view(&self) -> QueryOptionsView {
        QueryOptionsView {
            scan_consistency: self.scan_consistency,
            consistent_with: match self.consistent_with {
                Some(state) => Some(query::tokens_view(state.tokens@)),
                None => None,
            },
            scan_cap: self.scan_cap,
            pipeline_batch: self.pipeline_batch,
            pipeline_cap: self.pipeline_cap,
            scan_wait_ns: self.scan_wait_ns,
            readonly: self.readonly,
            max_parallelism: self.max_parallelism,
            client_context_id: text::option_view(self.client_context_id),
            metrics: self.metrics,
            ad_hoc: self.ad_hoc,
            timeout_ns: self.timeout_ns,
            preserve_expiry: self.preserve_expiry,
            use_flex_index: self.use_flex_index,
        }
    }
}

/// An insert that only sets a time to live.
pub open spec fn plain_insert(expires_in_ns: u64) -> DocumentInsertOptions {
    DocumentInsertOptions {
        expires_in_ns,
        flags: None,
        persist_to: 0,
        replicate_to: 0,
        durability_level: DurabilityLevel::Unknown,
        timeout_ns: None,
    }
}

/// An insert that only sets a time to live.
pub fn insert_opts(expires_in_ns: u64) -> (o: DocumentInsertOptions)
    ensures
        o == plain_insert(expires_in_ns),
{
    DocumentInsertOptions {
        expires_in_ns,
        flags: None,
        persist_to: 0,
        replicate_to: 0,
        durability_level: DurabilityLevel::Unknown,
        timeout_ns: None,
    }
}

/// An upsert that only sets a time to live.
pub open spec fn plain_upsert(expires_in_ns: u64) -> DocumentUpsertOptions {
    DocumentUpsertOptions {
        expires_in_ns,
        preserve_expiry: false,
        flags: None,
        persist_to: 0,
        replicate_to: 0,
        durability_level: DurabilityLevel::Unknown,
        timeout_ns: None,
    }
}

/// An upsert that only sets a time to live.
pub fn upsert_opts(expires_in_ns: u64) -> (o: DocumentUpsertOptions)
    ensures
        o == plain_upsert(expires_in_ns),
{
    DocumentUpsertOptions {
        expires_in_ns,
        preserve_expiry: false,
        flags: None,
        persist_to: 0,
        replicate_to: 0,
        durability_level: DurabilityLevel::Unknown,
        timeout_ns: None,
    }
}

/// A replace that only names a CAS.
pub open spec fn plain_replace(cas: u64) -> DocumentReplaceOptions {
    DocumentReplaceOptions {
        cas,
        expires_in_ns: 0,
        preserve_expiry: false,
        flags: None,
        persist_to: 0,
        replicate_to: 0,
        durability_level: DurabilityLevel::Unknown,
        timeout_ns: None,
    }
}

/// A replace that only names a CAS.
pub fn replace_opts(cas: u64) -> (o: DocumentReplaceOptions)
    ensures
        o == plain_replace(cas),
{
    DocumentReplaceOptions {
        cas,
        expires_in_ns: 0,
        preserve_expiry: false,
        flags: None,
        persist_to: 0,
        replicate_to: 0,
        durability_level: DurabilityLevel::Unknown,
        timeout_ns: None,
    }
}

/// A remove that only names a CAS.
pub open spec fn plain_remove(cas: u64) -> DocumentRemoveOptions {
    DocumentRemoveOptions {
        cas,
        persist_to: 0,
        replicate_to: 0,
        durability_level: DurabilityLevel::Unknown,
        timeout_ns: None,
    }
}

/// A remove that only names a CAS.
pub fn remove_opts(cas: u64) -> (o: DocumentRemoveOptions)
    ensures
        o == plain_remove(cas),
{
    DocumentRemoveOptions {
        cas,
        persist_to: 0,
        replicate_to: 0,
        durability_level: DurabilityLevel::Unknown,
        timeout_ns: None,
    }
}

/// A get that only names what to project.
pub open spec fn plain_get(project: Option<Seq<Seq<char>>>) -> GetOptionsView {
    GetOptionsView { with_expiry: false, project, use_replica: None, timeout_ns: None }
}

/// A get that only names what to project.
pub fn get_opts(project: Option<Vec<String>>) -> (o: DocumentGetOptions)
    ensures
        o@ == plain_get(
            match project {
                Some(p) => Some(text::texts(p@)),
                None => None,
            },
        ),
{
    DocumentGetOptions { with_expiry: false, project, use_replica: None, timeout_ns: None }
}

/// A query that waits for every write there was when it came in.
pub open spec fn plain_query(readonly: bool) -> QueryOptionsView {
    QueryOptionsView {
        scan_consistency: QueryScanConsistency::RequestPlus,
        consistent_with: None,
        scan_cap: 0,
        pipeline_batch: 0,
        pipeline_cap: 0,
        scan_wait_ns: 0,
        readonly,
        max_parallelism: 0,
        client_context_id: None,
        metrics: true,
        ad_hoc: true,
        timeout_ns: 0,
        preserve_expiry: false,
        use_flex_index: false,
    }
}

/// A query that waits for every write there was when it came in.
pub fn query_opts(readonly: bool) -> (o: SqlppQueryOptions)
    ensures
        o@ == plain_query(readonly),
{
    SqlppQueryOptions {
        scan_consistency: QueryScanConsistency::RequestPlus,
        consistent_with: None,
        scan_cap: 0,
        pipeline_batch: 0,
        pipeline_cap: 0,
        scan_wait_ns: 0,
        readonly,
        max_parallelism: 0,
        client_context_id: None,
        metrics: true,
        ad_hoc: true,
        timeout_ns: 0,
        preserve_expiry: false,
        use_flex_index: false,
    }
}

} // verus!
