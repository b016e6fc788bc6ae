//! The immutable run configuration: credential dictionaries, the port list,
//! fingerprint rules, output names and limits.

use vstd::prelude::*;

use crate::outside::spoof_user_agent;

verus! {

/// One fingerprint rule: fetch `path`, and a response satisfying `val`
/// identifies `product`.
pub struct Rule {
    pub product: String,
    pub path: String,
    pub val: String,
}

/// The run configuration; read-only once built.
pub struct Config {
    pub users: Vec<String>,
    pub passwords: Vec<String>,
    pub user_agent: String,
    pub ports: Vec<u16>,
    pub rules: Vec<Rule>,
    pub product: Vec<String>,
    pub log: String,
    pub not_vulnerable: String,
    pub vulnerable: String,
    pub snapshots: String,
    pub in_file: String,
    pub out_dir: String,
    pub th_num: usize,
    pub timeout: u64,
    pub disable_snapshot: bool,
    pub debug: bool,
}

/// The ports probed when the caller picks none.
pub open spec fn default_ports() -> Seq<u16> {
    seq![
        80u16,
        81u16,
        82u16,
        83u16,
        84u16,
        85u16,
        88u16,
        8000u16,
        8001u16,
        8080u16,
        8081u16,
        8085u16,
        8086u16,
        8088u16,
        8090u16,
        8181u16,
        2051u16,
        9000u16,
        37777u16,
        49152u16,
        55555u16,
    ]
}

/// The distinct product names of a rule list, in first-appearance order.
pub open spec fn products_of(rules: Seq<Rule>) -> Seq<Seq<char>>
    decreases rules.len(),
{
    if rules.len() == 0 {
        Seq::empty()
    } else {
        let rest = products_of(rules.drop_last());
        if rest.contains(rules.last().product@) {
            rest
        } else {
            rest.push(rules.last().product@)
        }
    }
}

/// Whether a list of strings holds one equal to `s`.
pub fn contains_string(v: &Vec<String>, s: &str) -> (r: bool)
    ensures
        r == v.deep_view().contains(s@),
{
    let mut i: usize = 0;
    while i < v.len()
        invariant
            0 <= i <= v@.len(),
            forall|k: int| 0 <= k < i ==> v.deep_view()[k] != s@,
        decreases v@.len() - i,
    {
        proof {
            assert(v.deep_view()[i as int] == v@[i as int]@);
        }
        if crate::text::str_eq_str(v[i].as_str(), s) {
            proof {
                assert(v.deep_view()[i as int] == s@);
            }
            return true;
        }
        i += 1;
    }
    proof {
        if v.deep_view().contains(s@) {
            let k = choose|k: int| 0 <= k < v.deep_view().len() && v.deep_view()[k] == s@;
            assert(v.deep_view()[k] != s@);
        }
    }
    false
}

impl Config {
    /// Builds the configuration. The fingerprint rules arrive from the
    /// caller (loading them is file work); defaults fill everything the
    /// caller leaves open; the user agent is drawn at random.
    pub fn new(
        in_file: String,
        out_dir: String,
        ports: Option<Vec<u16>>,
        th_num: Option<usize>,
        timeout: Option<u64>,
        disable_snapshot: bool,
        debug: bool,
        rules: Vec<Rule>,
    ) -> (r: Config)
        ensures
            r.users.deep_view() == seq!["admin"@],
            r.passwords.deep_view() == seq![
                "admin"@,
                "admin12345"@,
                "asdf1234"@,
                "abc12345"@,
                "12345admin"@,
                "12345abc"@,
            ],
            r.ports@ == match ports {
                Some(p) => p@,
                None => default_ports(),
            },
            r.rules == rules,
            r.product.deep_view() == products_of(rules@),
            r.log@ == "log.txt"@,
            r.not_vulnerable@ == "not_vulnerable.csv"@,
            r.vulnerable@ == "results.csv"@,
            r.snapshots@ == "snapshots"@,
            r.in_file == in_file,
            r.out_dir == out_dir,
            r.th_num == match th_num {
                Some(t) => t,
                None => 300usize,
            },
            r.timeout == match timeout {
                Some(t) => t,
                None => 3u64,
            },
            r.disable_snapshot == disable_snapshot,
            r.debug == debug,
    {
        let user_agent = Self::get_user_agent();

        let default_port_list: Vec<u16> = vec![
            80, 81, 82, 83, 84, 85, 88, 8000, 8001, 8080, 8081, 8085, 8086, 8088, 8090, 8181,
            2051, 9000, 37777, 49152, 55555,
        ];
        proof {
            assert(default_port_list@ =~= default_ports());
        }

        let users: Vec<String> = vec![String::from_str("admin")];
        let passwords: Vec<String> = vec![
            String::from_str("admin"),
            String::from_str("admin12345"),
            String::from_str("asdf1234"),
            String::from_str("abc12345"),
            String::from_str("12345admin"),
            String::from_str("12345abc"),
        ];
        proof {
            assert(users.deep_view() =~= seq!["admin"@]);
            assert(passwords.deep_view() =~= seq![
                "admin"@,
                "admin12345"@,
                "asdf1234"@,
                "abc12345"@,
                "12345admin"@,
                "12345abc"@,
            ]);
        }

        let product = Self::collect_products(&rules);

        Config {
            users,
            passwords,
            user_agent,
            ports: match ports {
                Some(p) => p,
                None => default_port_list,
            },
            rules,
            product,
            log: String::from_str("log.txt"),
            not_vulnerable: String::from_str("not_vulnerable.csv"),
            vulnerable: String::from_str("results.csv"),
            snapshots: String::from_str("snapshots"),
            in_file,
            out_dir,
            th_num: match th_num {
                Some(t) => t,
                None => 300,
            },
            timeout: match timeout {
                Some(t) => t,
                None => 3,
            },
            disable_snapshot,
            debug,
        }
    }

    /// A spoofed browser user agent; the draw is random, so nothing is
    /// stated of the value.
    fn get_user_agent() -> String {
        spoof_user_agent()
    }

    /// The distinct products the rules mention, first appearance first.
    fn collect_products(rules: &Vec<Rule>) -> (r: Vec<String>)
        ensures
            r.deep_view() == products_of(rules@),
    {
        let mut out: Vec<String> = Vec::new();
        let mut i: usize = 0;
        proof {
            assert(rules@.take(0) =~= Seq::<Rule>::empty());
            assert(out.deep_view() =~= products_of(rules@.take(0)));
        }
        while i < rules.len()
            invariant
                0 <= i <= rules@.len(),
                out.deep_view() == products_of(rules@.take(i as int)),
            decreases rules@.len() - i,
        {
            let ghost prev = out.deep_view();
            proof {
                assert(rules@.take(i + 1).drop_last() =~= rules@.take(i as int));
                assert(rules@.take(i + 1).last() == rules@[i as int]);
            }
            if !contains_string(&out, rules[i].product.as_str()) {
                out.push(rules[i].product.clone());
                proof {
                    assert(out.deep_view().len() == prev.len() + 1);
                    assert(forall|k: int|
                        0 <= k < prev.len() ==> out.deep_view()[k] == #[trigger] prev[k]);
                    assert(out.deep_view()[prev.len() as int] == rules@[i as int].product@);
                    assert(out.deep_view() =~= products_of(rules@.take(i + 1)));
                }
            } else {
                proof {
                    assert(out.deep_view() =~= products_of(rules@.take(i + 1)));
                }
            }
            i += 1;
        }
        proof {
            assert(rules@.take(rules@.len() as int) =~= rules@);
        }
        out
    }
}

} // verus!
