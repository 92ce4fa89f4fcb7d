//! Remote event store client.
//!
//! A client for an eventstore.org-style event store reached over HTTP: an
//! append becomes a single POST of a JSON body to a URL derived from the
//! configured host and port and the caller's stream name, and succeeds
//! exactly when the service answers 201 Created. This module holds the
//! client's computation - building the URL and judging the response status;
//! performing the POST is left to the surrounding application.

use vstd::prelude::*;
use vstd::string::StringExecFns;

use crate::Error;
use crate::Kind;
use crate::decimal::dec_of;
use crate::decimal::u32_to_decimal;

verus! {

/// Client for a remote eventstore.org-style event store.
#[derive(Debug)]
pub struct OrgEventStore {
    host: String,
    port: u16,
}

/// The HTTP status with which the remote store acknowledges an append.
pub const CREATED_STATUS: u16 = 201;

impl OrgEventStore {
    /// The configured host name.
    pub closed spec fn host(&self) -> Seq<char> {
        self.host@
    }

    /// The configured port number.
    pub closed spec fn port(&self) -> u16 {
        self.port
    }

    /// Creates a new event store client with the given host name and port
    /// number.
    pub fn new(host: &str, port: u16) -> (r: OrgEventStore)
        ensures
            r.host() == host@,
            r.port() == port,
    {
        OrgEventStore { host: host.to_owned(), port }
    }

    /// The URL that an append posts to:
    /// `http://{host}:{port}/streams/{stream}`.
    pub open spec fn stream_url_spec(&self, stream: Seq<char>) -> Seq<char> {
        "http://"@ + self.host() + ":"@ + dec_of(self.port() as nat) + "/streams/"@ + stream
    }

    /// Builds the URL for one stream of this store.
    pub fn build_stream_url(&self, stream: &str) -> (r: String)
        ensures
            r@ == self.stream_url_spec(stream@),
    {
        let mut url = String::from_str("http://");
        url.append(self.host.as_str());
        url.append(":");
        let port_text = u32_to_decimal(self.port as u32);
        url.append(port_text.as_str());
        url.append("/streams/");
        url.append(stream);
        proof {
            assert(url@ =~= self.stream_url_spec(stream@));
        }
        url
    }

    /// Judges the HTTP status answered to a posted append: 201 Created is
    /// success; any other status is a store failure naming the status code.
    pub fn interpret_post_status(status: u16) -> (r: Result<(), Error>)
        ensures
            r is Ok <==> status == CREATED_STATUS,
            r matches Err(e) ==> e.kind is StoreFailure && e.reason()
                == "Failed to post to event store ("@ + dec_of(status as nat) + ")"@,
    {
        if status == CREATED_STATUS {
            Ok(())
        } else {
            let mut msg = String::from_str("Failed to post to event store (");
            let status_text = u32_to_decimal(status as u32);
            msg.append(status_text.as_str());
            msg.append(")");
            proof {
                assert(msg@ =~= "Failed to post to event store ("@ + dec_of(status as nat)
                    + ")"@);
            }
            Err(Error { kind: Kind::StoreFailure(msg) })
        }
    }
}

impl Default for OrgEventStore {
    /// An event store client pointing at localhost:2113, the default
    /// address.
    fn default() -> (r: Self)
        ensures
            r.host() == "localhost"@,
            r.port() == 2113,
    {
        OrgEventStore::new("localhost", 2113)
    }
}

} // verus!
