//! The plugin contract: a verifier proves one weak-credential vulnerability
//! against a classified host and plans the follow-up snapshot captures.

use vstd::prelude::*;

use crate::config::Config;
use crate::fingerprint::{opt_text_view, url_of};

verus! {

/// One confirmed vulnerability; written once and never changed.
pub struct PocResult {
    pub ip: String,
    pub port: u16,
    pub product: String,
    pub user: String,
    pub password: String,
    pub vul_name: String,
}

/// An HTTP probe a verifier wants made: where, with which credentials, and
/// with what JSON body (no body means a plain authenticated GET).
pub struct ProbeRequest {
    pub url: String,
    pub user: String,
    pub password: String,
    pub body: Option<String>,
}

/// One planned snapshot download: the request and the artifact file name.
/// The name is derived from host, port, channel and credentials, so retrying
/// a capture overwrites its own artifact and corrupts nothing else.
pub struct SnapshotRequest {
    pub url: String,
    pub file_name: String,
    pub user: String,
    pub password: String,
}

/// The ghost image of one planned snapshot.
pub struct SnapshotPlanItem {
    pub url: Seq<char>,
    pub file_name: Seq<char>,
}

/// A verifier plugin. The network calls themselves happen outside; the
/// plugin decides the requests to make, judges the responses, and plans the
/// exploit follow-up. Registering a new implementation is how a vendor is
/// added.
pub trait Poc: Send + Sync {
    /// The verifier's name, fixed for its lifetime.
    spec fn name_spec(&self) -> Seq<char>;

    /// The product the verifier applies to.
    spec fn product_spec(&self) -> Seq<char>;

    /// The login probe for one credential pair.
    spec fn login_url_spec(&self, ip: Seq<char>, port: u16) -> Seq<char>;

    /// The body the login probe carries, if it is not a plain GET.
    spec fn login_body_spec(&self, user: Seq<char>, password: Seq<char>) -> Option<Seq<char>>;

    /// Whether a login response proves the vulnerability.
    spec fn success_spec(&self, status: u16, body: Seq<char>) -> bool;

    /// How many channels a channel-listing response describes.
    spec fn channels_spec(&self, body: Seq<char>) -> nat;

    /// Where the channel listing must be fetched before captures are
    /// planned; nothing for a single-channel exploit.
    spec fn channels_url_spec(&self, result: PocResult) -> Option<Seq<char>>;

    /// The snapshot downloads owed for a confirmed result on a device with
    /// `channels` channels.
    spec fn snapshot_plan_spec(&self, result: PocResult, channels: nat) -> Seq<SnapshotPlanItem>;

    fn name(&self) -> (r: &str)
        ensures
            r@ == self.name_spec(),
    ;

    fn product(&self) -> (r: &str)
        ensures
            r@ == self.product_spec(),
    ;

    /// The probe that tries one credential pair against a host.
    fn login_probe(&self, ip: &str, port: u16, user: &str, password: &str) -> (r: ProbeRequest)
        ensures
            r.url@ == self.login_url_spec(ip@, port),
            opt_text_view(r.body) == self.login_body_spec(user@, password@),
            r.user@ == user@,
            r.password@ == password@,
    ;

    /// Judges a login response; the credential search stops at the first
    /// pair for which this holds.
    fn verify_success(&self, status: u16, body: &str) -> (r: bool)
        ensures
            r == self.success_spec(status, body@),
    ;

    /// The record to keep once a credential pair succeeded.
    fn make_result(&self, ip: &str, port: u16, user: &str, password: &str) -> (r: PocResult)
        ensures
            r.ip@ == ip@,
            r.port == port,
            r.product@ == self.product_spec(),
            r.user@ == user@,
            r.password@ == password@,
            r.vul_name@ == self.name_spec(),
    ;

    /// The probe that discovers the device's channel count, owed exactly
    /// when the exploit is multi-channel.
    fn channels_probe(&self, result: &PocResult) -> (r: Option<ProbeRequest>)
        ensures
            r is Some <==> self.channels_url_spec(*result) is Some,
            r matches Some(p) ==> (Some(p.url@) == self.channels_url_spec(*result) && p.user@
                == result.user@ && p.password@ == result.password@ && p.body is None),
    ;

    /// Reads a channel count out of a channel-listing response; at least
    /// one channel is always assumed.
    fn parse_channels(&self, body: &str) -> (r: usize)
        ensures
            r as nat == self.channels_spec(body@),
            r >= 1,
    ;

    /// Plans the snapshot downloads for a confirmed result.
    fn snapshot_requests(&self, result: &PocResult, channels: usize, config: &Config) -> (r: Vec<
        SnapshotRequest,
    >)
        ensures
            r@.len() == self.snapshot_plan_spec(*result, channels as nat).len(),
            forall|i: int|
                0 <= i < r@.len() ==> (#[trigger] r@[i]).url@ == self.snapshot_plan_spec(
                    *result,
                    channels as nat,
                )[i].url && r@[i].file_name@ == self.snapshot_plan_spec(
                    *result,
                    channels as nat,
                )[i].file_name && r@[i].user@ == result.user@ && r@[i].password@
                    == result.password@,
    ;
}

/// A verifier that never confirms anything and plans nothing: the neutral
/// template a new plugin starts from.
pub struct BasePoc {
    pub name: String,
    pub product: String,
}

impl BasePoc {
    pub fn new(name: &str, product: &str) -> (r: Self)
        ensures
            r.name@ == name@,
            r.product@ == product@,
    {
        BasePoc { name: String::from_str(name), product: String::from_str(product) }
    }
}

impl Poc for BasePoc {
    open spec fn name_spec(&self) -> Seq<char> {
        self.name@
    }

    open spec fn product_spec(&self) -> Seq<char> {
        self.product@
    }

    open spec fn login_url_spec(&self, ip: Seq<char>, port: u16) -> Seq<char> {
        url_of(ip, port, "/"@)
    }

    open spec fn login_body_spec(&self, user: Seq<char>, password: Seq<char>) -> Option<
        Seq<char>,
    > {
        None
    }

    open spec fn success_spec(&self, status: u16, body: Seq<char>) -> bool {
        false
    }

    open spec fn channels_spec(&self, body: Seq<char>) -> nat {
        1
    }

    open spec fn channels_url_spec(&self, result: PocResult) -> Option<Seq<char>> {
        None
    }

    open spec fn snapshot_plan_spec(&self, result: PocResult, channels: nat) -> Seq<
        SnapshotPlanItem,
    > {
        Seq::empty()
    }

    fn name(&self) -> (r: &str) {
        self.name.as_str()
    }

    fn product(&self) -> (r: &str) {
        self.product.as_str()
    }

    fn login_probe(&self, ip: &str, port: u16, user: &str, password: &str) -> (r: ProbeRequest) {
        ProbeRequest {
            url: crate::fingerprint::build_url(ip, port, "/"),
            user: String::from_str(user),
            password: String::from_str(password),
            body: None,
        }
    }

    fn verify_success(&self, status: u16, body: &str) -> (r: bool) {
        false
    }

    fn make_result(&self, ip: &str, port: u16, user: &str, password: &str) -> (r: PocResult) {
        PocResult {
            ip: String::from_str(ip),
            port,
            product: self.product.clone(),
            user: String::from_str(user),
            password: String::from_str(password),
            vul_name: self.name.clone(),
        }
    }

    fn channels_probe(&self, result: &PocResult) -> (r: Option<ProbeRequest>) {
        None
    }

    fn parse_channels(&self, body: &str) -> (r: usize) {
        1
    }

    fn snapshot_requests(&self, result: &PocResult, channels: usize, config: &Config) -> (r: Vec<
        SnapshotRequest,
    >) {
        Vec::new()
    }
}

/// Every user paired with every password: users outermost, passwords
/// innermost — the order in which the credential search proceeds.
pub fn credential_pairs(users: &Vec<String>, passwords: &Vec<String>) -> (r: Vec<(String, String)>)
    ensures
        r@.len() == users@.len() * passwords@.len(),
        forall|i: int, j: int|
            0 <= i < users@.len() && 0 <= j < passwords@.len() ==> (#[trigger] r@[i * passwords@.len()
                + j]).0@ == users.deep_view()[i] && r@[i * passwords@.len() + j].1@
                == passwords.deep_view()[j],
{
    let m = passwords.len();
    let mut r: Vec<(String, String)> = Vec::new();
    let mut i: usize = 0;
    while i < users.len()
        invariant
            0 <= i <= users@.len(),
            m == passwords@.len(),
            r@.len() == i * m,
            forall|a: int, b: int|
                0 <= a < i && 0 <= b < m ==> (#[trigger] r@[a * m + b]).0@ == users.deep_view()[a]
                    && r@[a * m + b].1@ == passwords.deep_view()[b],
        decreases users@.len() - i,
    {
        let mut j: usize = 0;
        while j < m
            invariant
                0 <= i < users@.len(),
                0 <= j <= m,
                m == passwords@.len(),
                r@.len() == i * m + j,
                forall|a: int, b: int|
                    0 <= a < i && 0 <= b < m ==> (#[trigger] r@[a * m + b]).0@
                        == users.deep_view()[a] && r@[a * m + b].1@ == passwords.deep_view()[b],
                forall|b: int|
                    0 <= b < j ==> (#[trigger] r@[i as int * m + b]).0@
                        == users.deep_view()[i as int] && r@[i as int * m + b].1@
                        == passwords.deep_view()[b],
            decreases m - j,
        {
            proof {
                assert(users.deep_view()[i as int] == users@[i as int]@);
                assert(passwords.deep_view()[j as int] == passwords@[j as int]@);
            }
            let ghost prev = r@;
            r.push((users[i].clone(), passwords[j].clone()));
            proof {
                assert(forall|k: int| 0 <= k < prev.len() ==> r@[k] == #[trigger] prev[k]);
                assert forall|a: int, b: int| 0 <= a < i && 0 <= b < m implies (#[trigger] r@[a * m
                    + b]).0@ == users.deep_view()[a] && r@[a * m + b].1@
                    == passwords.deep_view()[b] by {
                    assert(0 <= a * m + b && a * m + b < prev.len()) by (nonlinear_arith)
                        requires
                            0 <= a < i,
                            0 <= b < m,
                            prev.len() == i * m + j,
                            0 <= j,
                    ;
                    assert(r@[a * m + b] == prev[a * m + b]);
                }
                assert forall|b: int| 0 <= b < j + 1 implies (#[trigger] r@[i as int * m + b]).0@
                    == users.deep_view()[i as int] && r@[i as int * m + b].1@
                    == passwords.deep_view()[b] by {
                    if b < j {
                        assert(0 <= i as int * m + b < prev.len());
                        assert(r@[i as int * m + b] == prev[i as int * m + b]);
                    } else {
                        assert(i as int * m + b == prev.len());
                    }
                }
            }
            j += 1;
        }
        i += 1;
        proof {
            assert(i * m == (i - 1) * m + m) by (nonlinear_arith);
        }
    }
    proof {
        assert(i * m == users@.len() * m);
    }
    r
}

} // verus!
