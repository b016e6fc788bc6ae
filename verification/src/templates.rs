//! An alternative plugin shape kept alongside the registry: a template
//! carrying metadata about the probe and a trait for implementations that
//! manage their own snapshots.

use vstd::prelude::*;

verus! {

/// How severe a confirmed finding is.
#[derive(Debug)]
pub enum Level {
    High,
    Medium,
    Low,
}

/// What a template probe needs to know about its surroundings.
#[derive(Debug)]
pub struct PocConfig {
    pub output_directory: String,
    pub snapshots: String,
    pub user_agent: String,
    pub timeout: u64,
}

/// Metadata for one probe: what it checks, on which product, how severe.
#[derive(Debug)]
pub struct PocTemplate {
    pub config: PocConfig,
    pub name: String,
    pub product: String,
    pub product_version: String,
    pub ref_url: String,
    pub level: Level,
    pub desc: String,
}

/// A confirmed finding in the template shape.
#[derive(Debug)]
pub struct PocResult {
    ip: String,
    port: String,
    protocol: String,
    password: String,
    name: String,
}

/// The capability set of a template probe: prove the vulnerability, run the
/// follow-up, store one snapshot.
pub trait PocBase {
    fn verify(&self, ip: &str, port: u16) -> Option<PocResult>;

    fn exploit(&self, results: (String, u16, String, String, String, String)) -> i32;

    fn snapshot(&self, url: &str, img_file_name: &str, auth: Option<(&str, &str)>) -> i32;
}

impl PocTemplate {
    /// Fills the template; the reference, level and description fields keep
    /// their defaults whatever the caller hands in.
    pub fn new(
        config: PocConfig,
        name: &str,
        product: &str,
        version: &str,
        level: &str,
        desc: &str,
        reference: &str,
    ) -> (r: Self)
        ensures
            r.name@ == name@,
            r.product@ == product@,
            r.product_version@ == version@,
            r.ref_url@ == ""@,
            r.level is Medium,
            r.desc@ == ""@,
            r.config == config,
    {
        Self {
            config,
            name: String::from_str(name),
            product: String::from_str(product),
            product_version: String::from_str(version),
            ref_url: String::from_str(""),
            level: Level::Medium,
            desc: String::from_str(""),
        }
    }
}

} // verus!
