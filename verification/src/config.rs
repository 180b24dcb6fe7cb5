//! The configuration that declares the gateway's endpoints: where each
//! endpoint's collection lives, and which singleton, vector and federated
//! reads it offers. Loaded once at startup and read-only thereafter.

use vstd::prelude::*;

verus! {

/// A storage locator for one collection.
pub struct MongoConfig {
    pub uri: String,
    pub collection: String,
    pub db: String,
    pub options: MongoOptions,
}

/// Connection options for a storage locator.
pub struct MongoOptions {
    pub direct_connection: bool,
}

/// One declared singleton read: at most one object for a query.
pub struct DtoSingleton {
    pub name: String,
    pub query: String,
    pub id: Option<String>,
}

/// One declared vector read: an ordered sequence of objects, resolved
/// through the temporal snapshot.
pub struct DtoVector {
    pub name: String,
    pub query: String,
}

/// One federated field: its value comes from forwarding a decomposed query
/// for the owning document's id to a remote subgraph.
pub struct DtoResolver {
    pub name: String,
    pub query_name: String,
    pub url: String,
    pub id: Option<String>,
}

/// The reads one endpoint offers.
pub struct DtoConfig {
    pub singletons: Vec<DtoSingleton>,
    pub vectors: Vec<DtoVector>,
    pub resolvers: Vec<DtoResolver>,
}

/// One graph endpoint: a path, a collection, a schema identifier and its
/// reads.
pub struct Graphlette {
    pub path: String,
    pub mongo: MongoConfig,
    pub schema: String,
    pub dto_config: DtoConfig,
}

/// One plain CRUD endpoint over a collection.
pub struct Restlette {
    pub path: String,
    pub mongo: MongoConfig,
    pub schema: String,
}

/// Process-wide configuration.
pub struct Config {
    pub graphlettes: Vec<Graphlette>,
    pub restlettes: Vec<Restlette>,
    pub port: u16,
    pub url: Option<String>,
}

} // verus!
