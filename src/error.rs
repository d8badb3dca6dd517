use aws_sdk_dynamodb::error::QueryError;
use aws_sdk_kinesis::error::{GetRecordsError, GetShardIteratorError, ListShardsError};
use aws_sdk_kinesis::types::SdkError;
use aws_smithy_http::operation::Response;
use vstd::prelude::*;

verus! {

#[verifier::external_type_specification]
#[verifier::external_body]
#[verifier::reject_recursive_types(E)]
#[verifier::reject_recursive_types(R)]
pub struct ExSdkError<E, R>(SdkError<E, R>);

#[verifier::external_type_specification]
#[verifier::external_body]
pub struct ExListShardsError(ListShardsError);

#[verifier::external_type_specification]
#[verifier::external_body]
pub struct ExGetShardIteratorError(GetShardIteratorError);

#[verifier::external_type_specification]
#[verifier::external_body]
pub struct ExGetRecordsError(GetRecordsError);

#[verifier::external_type_specification]
#[verifier::external_body]
pub struct ExQueryError(QueryError);

#[verifier::external_type_specification]
#[verifier::external_body]
pub struct ExOperationResponse(Response);

/// Which kind of failure an error reports.
#[derive(Clone, Copy, Debug, PartialEq, Eq, Structural)]
pub enum ErrorKind {
    /// The change log or the backing store could not be reached, or a call to it failed.
    Connectivity,
    /// No item exists for a resolved key.
    Lookup,
    /// A change record could not be decoded.
    Parse,
}

/// A failure of the poll cycle.
#[derive(Debug)]
pub struct PollKinesisError {
    pub message: String,
    pub kind: ErrorKind,
}

/// A failure to resolve a key against the backing store.
#[derive(Debug)]
pub struct QueryDynamoDbError {
    pub message: String,
    pub kind: ErrorKind,
}

impl PollKinesisError {
    /// Listing the shards of the change log failed.
    pub fn list_shards_failed() -> (r: PollKinesisError)
        ensures
            r.message@ == "failed to get shards list"@,
            r.kind == ErrorKind::Connectivity,
    {
        PollKinesisError { message: "failed to get shards list".to_owned(), kind: ErrorKind::Connectivity }
    }

    /// Obtaining a shard's starting cursor failed.
    pub fn shard_iterator_failed() -> (r: PollKinesisError)
        ensures
            r.message@ == "failed to get shard iterator"@,
            r.kind == ErrorKind::Connectivity,
    {
        PollKinesisError {
            message: "failed to get shard iterator".to_owned(),
            kind: ErrorKind::Connectivity,
        }
    }

    /// Fetching a batch of records failed.
    pub fn get_records_failed() -> (r: PollKinesisError)
        ensures
            r.message@ == "failed to get records"@,
            r.kind == ErrorKind::Connectivity,
    {
        PollKinesisError { message: "failed to get records".to_owned(), kind: ErrorKind::Connectivity }
    }

    /// A change record held no readable key.
    pub fn malformed_record() -> (r: PollKinesisError)
        ensures
            r.message@ == "malformed change record"@,
            r.kind == ErrorKind::Parse,
    {
        PollKinesisError { message: "malformed change record".to_owned(), kind: ErrorKind::Parse }
    }

    /// The text that describes the error.
    pub fn describe(&self) -> (r: String)
        ensures
            r@ == self.message@,
    {
        self.message.clone()
    }
}

impl From<QueryDynamoDbError> for PollKinesisError {
    fn from(q: QueryDynamoDbError) -> (r: PollKinesisError) {
        PollKinesisError { message: q.message, kind: q.kind }
    }
}

impl vstd::std_specs::convert::FromSpecImpl<QueryDynamoDbError> for PollKinesisError {
    open spec fn obeys_from_spec() -> bool {
        true
    }

    open spec fn from_spec(q: QueryDynamoDbError) -> PollKinesisError {
        PollKinesisError { message: q.message, kind: q.kind }
    }
}

impl QueryDynamoDbError {
    /// The query against the backing store failed.
    pub fn query_failed() -> (r: QueryDynamoDbError)
        ensures
            r.message@ == "query error"@,
            r.kind == ErrorKind::Connectivity,
    {
        QueryDynamoDbError { message: "query error".to_owned(), kind: ErrorKind::Connectivity }
    }

    /// The backing store holds no item for the key.
    pub fn item_not_found() -> (r: QueryDynamoDbError)
        ensures
            r.message@ == "item not found"@,
            r.kind == ErrorKind::Lookup,
    {
        QueryDynamoDbError { message: "item not found".to_owned(), kind: ErrorKind::Lookup }
    }

    /// The text that describes the error.
    pub fn describe(&self) -> (r: String)
        ensures
            r@ == self.message@,
    {
        self.message.clone()
    }
}

impl From<SdkError<ListShardsError>> for PollKinesisError {
    fn from(_e: SdkError<ListShardsError>) -> (r: PollKinesisError)
        ensures
            r.message@ == "failed to get shards list"@,
            r.kind == ErrorKind::Connectivity,
    {
        PollKinesisError::list_shards_failed()
    }
}

impl vstd::std_specs::convert::FromSpecImpl<SdkError<ListShardsError>> for PollKinesisError {
    /// The message is fixed by the `ensures` of `from`; no value is claimed here.
    open spec fn obeys_from_spec() -> bool {
        false
    }

    open spec fn from_spec(e: SdkError<ListShardsError>) -> PollKinesisError {
        arbitrary()
    }
}

impl From<SdkError<GetShardIteratorError>> for PollKinesisError {
    fn from(_e: SdkError<GetShardIteratorError>) -> (r: PollKinesisError)
        ensures
            r.message@ == "failed to get shard iterator"@,
            r.kind == ErrorKind::Connectivity,
    {
        PollKinesisError::shard_iterator_failed()
    }
}

impl vstd::std_specs::convert::FromSpecImpl<SdkError<GetShardIteratorError>> for PollKinesisError {
    /// The message is fixed by the `ensures` of `from`; no value is claimed here.
    open spec fn obeys_from_spec() -> bool {
        false
    }

    open spec fn from_spec(e: SdkError<GetShardIteratorError>) -> PollKinesisError {
        arbitrary()
    }
}

impl From<SdkError<GetRecordsError>> for PollKinesisError {
    fn from(_e: SdkError<GetRecordsError>) -> (r: PollKinesisError)
        ensures
            r.message@ == "failed to get records"@,
            r.kind == ErrorKind::Connectivity,
    {
        PollKinesisError::get_records_failed()
    }
}

impl vstd::std_specs::convert::FromSpecImpl<SdkError<GetRecordsError>> for PollKinesisError {
    /// The message is fixed by the `ensures` of `from`; no value is claimed here.
    open spec fn obeys_from_spec() -> bool {
        false
    }

    open spec fn from_spec(e: SdkError<GetRecordsError>) -> PollKinesisError {
        arbitrary()
    }
}

impl From<SdkError<QueryError>> for QueryDynamoDbError {
    fn from(_e: SdkError<QueryError>) -> (r: QueryDynamoDbError)
        ensures
            r.message@ == "query error"@,
            r.kind == ErrorKind::Connectivity,
    {
        QueryDynamoDbError::query_failed()
    }
}

impl vstd::std_specs::convert::FromSpecImpl<SdkError<QueryError>> for QueryDynamoDbError {
    /// The message is fixed by the `ensures` of `from`; no value is claimed here.
    open spec fn obeys_from_spec() -> bool {
        false
    }

    open spec fn from_spec(e: SdkError<QueryError>) -> QueryDynamoDbError {
        arbitrary()
    }
}

} // verus!
