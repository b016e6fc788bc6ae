//! The fingerprint engine: matcher predicates (`md5=`, `title=`, `body=`),
//! conjunctions of them, the per-host response cache, and rule evaluation in
//! priority order with first-match-wins.

use vstd::prelude::*;

use crate::config::Rule;
use crate::outside::{
    body_text_of, extract_body_text, extract_title, lower_of, lowercase, md5_hex, md5_hex_of,
    title_text_of,
};
use crate::text::{dec_of, seq_contains, split_of, split_str, str_contains_str, str_eq_str};

verus! {

// ---------------------------------------------------------------------------
// One predicate: `kind=`value``. The kind is everything before the last
// "=`" that still has a closing backtick behind it; the value runs from
// there to the last backtick.
// ---------------------------------------------------------------------------

/// Whether `kind=`value`` can be cut at position `i`.
pub open spec fn pred_cut_at(s: Seq<char>, i: int) -> bool {
    &&& 0 <= i
    &&& i + 2 <= s.len()
    &&& s[i] == '='
    &&& s[i + 1] == '`'
    &&& exists|j: int| i + 2 <= j < s.len() && s[j] == '`'
}

/// The largest cut position below `k`, or -1.
pub open spec fn last_cut_before(s: Seq<char>, k: int) -> int
    decreases k,
{
    if k <= 0 {
        -1
    } else if pred_cut_at(s, k - 1) {
        k - 1
    } else {
        last_cut_before(s, k - 1)
    }
}

/// The largest backtick position below `k`, or -1.
pub open spec fn last_backtick_before(s: Seq<char>, k: int) -> int
    decreases k,
{
    if k <= 0 {
        -1
    } else if 0 <= k - 1 < s.len() && s[k - 1] == '`' {
        k - 1
    } else {
        last_backtick_before(s, k - 1)
    }
}

/// The kind and value of a predicate, when it has the `kind=`value`` shape.
pub open spec fn pred_parts(s: Seq<char>) -> Option<(Seq<char>, Seq<char>)> {
    let i = last_cut_before(s, s.len() as int);
    if i < 0 {
        None
    } else {
        Some((s.take(i), s.subrange(i + 2, last_backtick_before(s, s.len() as int))))
    }
}

proof fn lemma_last_cut_spec(s: Seq<char>, k: int)
    requires
        0 <= k <= s.len(),
    ensures
        ({
            let r = last_cut_before(s, k);
            &&& -1 <= r < k
            &&& (r == -1 ==> forall|i: int| 0 <= i < k ==> !pred_cut_at(s, i))
            &&& (r >= 0 ==> 0 <= r < k && pred_cut_at(s, r) && forall|i: int|
                r < i < k ==> !pred_cut_at(s, i))
        }),
    decreases k,
{
    if k > 0 && !pred_cut_at(s, k - 1) {
        lemma_last_cut_spec(s, k - 1);
    }
}

proof fn lemma_last_backtick_spec(s: Seq<char>, k: int)
    requires
        0 <= k <= s.len(),
    ensures
        ({
            let r = last_backtick_before(s, k);
            &&& -1 <= r < k
            &&& (r == -1 ==> forall|i: int| 0 <= i < k ==> s[i] != '`')
            &&& (r >= 0 ==> 0 <= r < k && s[r] == '`' && forall|i: int| r < i < k ==> s[i] != '`')
        }),
    decreases k,
{
    if k > 0 && !(0 <= k - 1 < s.len() && s[k - 1] == '`') {
        lemma_last_backtick_spec(s, k - 1);
    }
}

/// Whether one predicate holds of a response body.
pub open spec fn pred_sat(body: Seq<char>, pred: Seq<char>) -> bool {
    match pred_parts(pred) {
        None => false,
        Some((kind, val)) => {
            if kind == "md5"@ {
                md5_hex_of(body) == val
            } else if kind == "title"@ {
                title_text_of(body) matches Some(t) && seq_contains(lower_of(t), lower_of(val))
            } else if kind == "body"@ {
                body_text_of(body) matches Some(t) && seq_contains(lower_of(t), lower_of(val))
            } else {
                // `headers=`, `status_code=` and any unknown kind never hold
                false
            }
        },
    }
}

/// The position of the last backtick, if the string has one.
fn find_last_backtick(s: &str) -> (r: Option<usize>)
    ensures
        r is None ==> last_backtick_before(s@, s@.len() as int) == -1,
        r matches Some(v) ==> v == last_backtick_before(s@, s@.len() as int) && v < s@.len()
            && s@[v as int] == '`',
{
    let len = s.unicode_len();
    let mut j: usize = len;
    while j > 0
        invariant
            0 <= j <= len,
            len == s@.len(),
            last_backtick_before(s@, len as int) == last_backtick_before(s@, j as int),
        decreases j,
    {
        if s.get_char(j - 1) as u32 == '`' as u32 {
            proof {
                lemma_last_backtick_spec(s@, s@.len() as int);
            }
            return Some(j - 1);
        }
        j -= 1;
    }
    None
}

/// Finds the predicate's cut and value end, as `pred_parts` names them.
fn find_pred_parts(s: &str) -> (r: Option<(usize, usize)>)
    ensures
        r is Some <==> last_cut_before(s@, s@.len() as int) >= 0,
        r matches Some(p) ==> p.0 == last_cut_before(s@, s@.len() as int) && p.1
            == last_backtick_before(s@, s@.len() as int) && p.0 + 2 <= p.1 < s@.len(),
{
    let len = s.unicode_len();
    let jj: usize = match find_last_backtick(s) {
        Some(v) => v,
        None => {
            // no backtick at all: no cut position can exist either
            proof {
                lemma_last_cut_spec(s@, s@.len() as int);
                let r = last_cut_before(s@, s@.len() as int);
                if r >= 0 {
                    let w = choose|w: int| r + 2 <= w < s@.len() && s@[w] == '`';
                    lemma_last_backtick_spec(s@, s@.len() as int);
                }
            }
            return None;
        },
    };
    proof {
        lemma_last_backtick_spec(s@, s@.len() as int);
        lemma_last_cut_spec(s@, s@.len() as int);
    }
    if jj < 2 {
        // a cut needs two characters before the closing backtick
        proof {
            let r = last_cut_before(s@, s@.len() as int);
            if r >= 0 {
                let w = choose|w: int| r + 2 <= w < s@.len() && s@[w] == '`';
                assert(w <= jj);
            }
        }
        return None;
    }
    let mut k: usize = jj - 1;
    while k > 0
        invariant
            0 <= k <= jj - 1,
            len == s@.len(),
            2 <= jj < len,
            jj == last_backtick_before(s@, len as int),
            s@[jj as int] == '`',
            forall|i: int| k <= i < len ==> !pred_cut_at(s@, i),
        decreases k,
    {
        if s.get_char(k - 1) as u32 == '=' as u32 && s.get_char(k) as u32 == '`' as u32 {
            proof {
                assert(pred_cut_at(s@, k - 1)) by {
                    assert(k - 1 + 2 <= jj < s@.len() && s@[jj as int] == '`');
                }
                lemma_last_cut_spec(s@, s@.len() as int);
                let r = last_cut_before(s@, s@.len() as int);
                assert(r >= 0) by {
                    if r == -1 {
                        assert(0 <= k - 1 < s@.len());
                        assert(!pred_cut_at(s@, k - 1));
                    }
                };
                assert(r == k - 1) by {
                    if r > k - 1 {
                        assert(!pred_cut_at(s@, r));
                    }
                    if r < k - 1 {
                        assert(!pred_cut_at(s@, k - 1));
                    }
                };
            }
            return Some((k - 1, jj));
        }
        proof {
            if pred_cut_at(s@, k - 1) {
                assert(s@[k - 1] == '=' && s@[k as int] == '`');
            }
        }
        k -= 1;
    }
    proof {
        lemma_last_cut_spec(s@, s@.len() as int);
        let r = last_cut_before(s@, s@.len() as int);
        if r >= 0 {
            assert(!pred_cut_at(s@, r));
        }
    }
    None
}

/// Evaluates one `kind=`value`` predicate against a response body.
pub fn check_one_rule(body: &str, rule: &str) -> (r: bool)
    ensures
        r == pred_sat(body@, rule@),
{
    let cut = match find_pred_parts(rule) {
        Some(c) => c,
        None => {
            return false;
        },
    };
    let (i, j) = cut;
    let kind = rule.substring_char(0, i);
    let val = rule.substring_char(i + 2, j);
    proof {
        assert(rule@.take(i as int) == kind@);
        reveal_strlit("md5");
        reveal_strlit("title");
        reveal_strlit("body");
    }
    if str_eq_str(kind, "md5") {
        let h = md5_hex(body);
        str_eq_str(h.as_str(), val)
    } else if str_eq_str(kind, "title") {
        match extract_title(body) {
            Some(t) => {
                let tl = lowercase(t.as_str());
                let vl = lowercase(val);
                str_contains_str(tl.as_str(), vl.as_str())
            },
            None => false,
        }
    } else if str_eq_str(kind, "body") {
        match extract_body_text(body) {
            Some(t) => {
                let tl = lowercase(t.as_str());
                let vl = lowercase(val);
                str_contains_str(tl.as_str(), vl.as_str())
            },
            None => false,
        }
    } else {
        false
    }
}

// ---------------------------------------------------------------------------
// Conjunctions: a matcher expression is `&&`-joined predicates, and every
// one of them must hold
// ---------------------------------------------------------------------------

/// The predicates of a matcher expression.
pub open spec fn matcher_preds(rule_val: Seq<char>) -> Seq<Seq<char>> {
    split_of(rule_val, seq!['&', '&'])
}

/// Whether a whole matcher expression holds of a response body.
pub open spec fn matcher_sat(body: Seq<char>, rule_val: Seq<char>) -> bool {
    forall|i: int|
        0 <= i < matcher_preds(rule_val).len() ==> pred_sat(body, #[trigger] matcher_preds(
            rule_val,
        )[i])
}

/// Evaluates a matcher expression: every `&&`-joined predicate must hold,
/// and evaluation stops at the first that fails.
pub fn parse_rule(body: &str, rule_val: &str) -> (r: bool)
    ensures
        r == matcher_sat(body@, rule_val@),
{
    proof {
        reveal_strlit("&&");
        assert("&&"@ =~= seq!['&', '&']);
    }
    let preds = split_str(rule_val, "&&");
    let mut i: usize = 0;
    while i < preds.len()
        invariant
            0 <= i <= preds@.len(),
            preds.deep_view() == matcher_preds(rule_val@),
            forall|k: int|
                0 <= k < i ==> pred_sat(body@, #[trigger] matcher_preds(rule_val@)[k]),
        decreases preds@.len() - i,
    {
        proof {
            assert(preds.deep_view()[i as int] == preds@[i as int]@);
        }
        if !check_one_rule(body, preds[i].as_str()) {
            return false;
        }
        i += 1;
    }
    true
}

// ---------------------------------------------------------------------------
// The per-host response cache: one fetch per distinct path
// ---------------------------------------------------------------------------

/// One fetched path and what came back: the body on HTTP 200, nothing on any
/// other status or a transport error.
pub struct CacheEntry {
    pub path: String,
    pub body: Option<String>,
}

pub open spec fn opt_text_view(o: Option<String>) -> Option<Seq<char>> {
    match o {
        Some(s) => Some(s@),
        None => None,
    }
}

/// The entry recorded for a path, if it was fetched.
pub open spec fn cache_lookup(entries: Seq<CacheEntry>, path: Seq<char>) -> Option<
    Option<Seq<char>>,
>
    decreases entries.len(),
{
    if entries.len() == 0 {
        None
    } else if entries[0].path@ == path {
        Some(opt_text_view(entries[0].body))
    } else {
        cache_lookup(entries.drop_first(), path)
    }
}

proof fn lemma_cache_push(entries: Seq<CacheEntry>, e: CacheEntry, p: Seq<char>)
    ensures
        cache_lookup(entries.push(e), p) == if cache_lookup(entries, p) is Some {
            cache_lookup(entries, p)
        } else if e.path@ == p {
            Some(opt_text_view(e.body))
        } else {
            None
        },
    decreases entries.len(),
{
    if entries.len() == 0 {
        assert(entries.push(e)[0] == e);
        assert(entries.push(e).drop_first() =~= Seq::<CacheEntry>::empty());
        assert(cache_lookup(Seq::<CacheEntry>::empty(), p) is None);
        assert(cache_lookup(entries, p) is None);
    } else {
        assert(entries.push(e)[0] == entries[0]);
        assert(entries.push(e).drop_first() =~= entries.drop_first().push(e));
        lemma_cache_push(entries.drop_first(), e, p);
    }
}

/// The responses fetched for one host during one fingerprint call.
pub struct ResponseCache {
    pub entries: Vec<CacheEntry>,
}

impl ResponseCache {
    pub fn new() -> (r: Self)
        ensures
            r.entries@.len() == 0,
    {
        ResponseCache { entries: Vec::new() }
    }

    /// What was fetched for a path, if it was fetched at all.
    pub fn lookup(&self, path: &str) -> (r: Option<Option<String>>)
        ensures
            r is None <==> cache_lookup(self.entries@, path@) is None,
            r matches Some(b) ==> cache_lookup(self.entries@, path@) == Some(opt_text_view(b)),
    {
        let mut i: usize = 0;
        proof {
            assert(self.entries@.skip(0) =~= self.entries@);
        }
        while i < self.entries.len()
            invariant
                0 <= i <= self.entries@.len(),
                cache_lookup(self.entries@, path@) == cache_lookup(
                    self.entries@.skip(i as int),
                    path@,
                ),
            decreases self.entries@.len() - i,
        {
            proof {
                assert(self.entries@.skip(i as int)[0] == self.entries@[i as int]);
                assert(self.entries@.skip(i as int).drop_first() =~= self.entries@.skip(i + 1));
            }
            if str_eq_str(self.entries[i].path.as_str(), path) {
                return match &self.entries[i].body {
                    Some(b) => Some(Some(b.clone())),
                    None => Some(None),
                };
            }
            i += 1;
        }
        proof {
            assert(self.entries@.skip(i as int) =~= Seq::<CacheEntry>::empty());
        }
        None
    }

    /// Records the outcome of fetching a path that is not in the cache yet.
    pub fn insert(&mut self, path: String, body: Option<String>)
        requires
            cache_lookup(old(self).entries@, path@) is None,
        ensures
            cache_lookup(final(self).entries@, path@) == Some(opt_text_view(body)),
            forall|p: Seq<char>|
                p != path@ ==> #[trigger] cache_lookup(final(self).entries@, p) == cache_lookup(
                    old(self).entries@,
                    p,
                ),
    {
        let ghost pview = path@;
        let ghost prev = self.entries@;
        let entry = CacheEntry { path, body };
        self.entries.push(entry);
        proof {
            assert forall|p: Seq<char>| true implies #[trigger] cache_lookup(
                self.entries@,
                p,
            ) == if cache_lookup(prev, p) is Some {
                cache_lookup(prev, p)
            } else if pview == p {
                Some(opt_text_view(entry.body))
            } else {
                None
            } by {
                lemma_cache_push(prev, entry, p);
            }
        }
    }
}

// ---------------------------------------------------------------------------
// Rule evaluation in priority order: the first satisfied rule wins
// ---------------------------------------------------------------------------

/// Whether a rule is satisfied by what its path's fetch returned.
pub open spec fn rule_hit(rule: Rule, entries: Seq<CacheEntry>) -> bool {
    cache_lookup(entries, rule.path@) matches Some(Some(b)) && matcher_sat(b, rule.val@)
}

/// The first rule index at or after `k` whose rule is satisfied.
pub open spec fn first_hit_from(rules: Seq<Rule>, entries: Seq<CacheEntry>, k: int) -> Option<int>
    decreases rules.len() - k,
{
    if k < 0 || k >= rules.len() {
        None
    } else if rule_hit(rules[k], entries) {
        Some(k)
    } else {
        first_hit_from(rules, entries, k + 1)
    }
}

/// What `first_hit_from` finds is a satisfied rule, and the earliest one.
pub proof fn lemma_first_hit_spec(rules: Seq<Rule>, entries: Seq<CacheEntry>, k: int)
    requires
        0 <= k,
    ensures
        ({
            match first_hit_from(rules, entries, k) {
                Some(h) => k <= h < rules.len() && rule_hit(rules[h], entries) && forall|l: int|
                    k <= l < h ==> !rule_hit(#[trigger] rules[l], entries),
                None => forall|l: int| k <= l < rules.len() ==> !rule_hit(#[trigger] rules[l], entries),
            }
        }),
    decreases rules.len() - k,
{
    if k < rules.len() && !rule_hit(rules[k], entries) {
        lemma_first_hit_spec(rules, entries, k + 1);
    }
}

/// Rule order encodes priority: when two rules are both satisfied by the
/// fetched responses, the engine's verdict is the first satisfied rule,
/// which sits at or before the earlier of the two.
pub proof fn lemma_rule_order_wins(rules: Seq<Rule>, entries: Seq<CacheEntry>, i: int, j: int)
    requires
        0 <= i < j < rules.len(),
        rule_hit(rules[i], entries),
        rule_hit(rules[j], entries),
    ensures
        first_hit_from(rules, entries, 0) matches Some(h) && h <= i && rule_hit(rules[h], entries)
            && forall|l: int| 0 <= l < h ==> !rule_hit(#[trigger] rules[l], entries),
{
    lemma_first_hit_spec(rules, entries, 0);
    match first_hit_from(rules, entries, 0) {
        Some(h) => {
            if h > i {
                assert(!rule_hit(rules[i], entries));
            }
        },
        None => {
            assert(!rule_hit(rules[i], entries));
        },
    }
}

/// The request URL for a rule's path on a host.
pub open spec fn url_of(ip: Seq<char>, port: u16, path: Seq<char>) -> Seq<char> {
    "http://"@ + ip + seq![':'] + dec_of(port as nat) + path
}

/// Builds the request URL for a rule's path on a host.
pub fn build_url(ip: &str, port: u16, path: &str) -> (r: String)
    ensures
        r@ == url_of(ip@, port, path@),
{
    proof {
        reveal_strlit(":");
        assert(":"@ =~= seq![':']);
    }
    let mut s = String::from_str("http://");
    s.append(ip);
    s.append(":");
    crate::text::push_dec_u64(&mut s, port as u64);
    s.append(path);
    proof {
        assert(s@ =~= url_of(ip@, port, path@));
    }
    s
}

/// Where the engine stands after one pass over the rules.
pub enum FingerprintStep {
    /// The rule at `rule_index` needs its path fetched first; `url` is the
    /// request to make. Record the outcome in the cache and evaluate again.
    Fetch { rule_index: usize, url: String },
    /// Evaluation is over: the product of the first satisfied rule, if any
    /// rule was satisfied.
    Done { product: Option<String> },
}

/// Walks the rules from `start` in priority order against the cache. Stops
/// at the first rule whose path has not been fetched yet, or at the first
/// satisfied rule; a rule whose fetch failed is skipped.
pub fn fingerprint_next(
    rules: &Vec<Rule>,
    cache: &ResponseCache,
    start: usize,
    ip: &str,
    port: u16,
) -> (r: FingerprintStep)
    requires
        start <= rules@.len(),
    ensures
        (r matches FingerprintStep::Fetch { rule_index, url } ==> {
            &&& start <= rule_index < rules@.len()
            &&& cache_lookup(cache.entries@, rules@[rule_index as int].path@) is None
            &&& url@ == url_of(ip@, port, rules@[rule_index as int].path@)
            &&& forall|j: int|
                start <= j < rule_index ==> cache_lookup(
                    cache.entries@,
                    #[trigger] rules@[j].path@,
                ) is Some && !rule_hit(rules@[j], cache.entries@)
        }),
        (r matches FingerprintStep::Done { product } ==> {
            match first_hit_from(rules@, cache.entries@, start as int) {
                Some(h) => product matches Some(p) && p@ == rules@[h].product@,
                None => product is None && forall|j: int|
                    start <= j < rules@.len() ==> cache_lookup(
                        cache.entries@,
                        #[trigger] rules@[j].path@,
                    ) is Some,
            }
        }),
{
    let mut i: usize = start;
    while i < rules.len()
        invariant
            start <= i <= rules@.len(),
            forall|j: int|
                start <= j < i ==> cache_lookup(cache.entries@, #[trigger] rules@[j].path@)
                    is Some && !rule_hit(rules@[j], cache.entries@),
            first_hit_from(rules@, cache.entries@, start as int) == first_hit_from(
                rules@,
                cache.entries@,
                i as int,
            ),
        decreases rules@.len() - i,
    {
        match cache.lookup(rules[i].path.as_str()) {
            None => {
                let url = build_url(ip, port, rules[i].path.as_str());
                return FingerprintStep::Fetch { rule_index: i, url };
            },
            Some(Some(body)) => {
                if parse_rule(body.as_str(), rules[i].val.as_str()) {
                    proof {
                        assert(rule_hit(rules@[i as int], cache.entries@));
                    }
                    return FingerprintStep::Done {
                        product: Some(rules[i].product.clone()),
                    };
                }
                proof {
                    assert(!rule_hit(rules@[i as int], cache.entries@));
                }
            },
            Some(None) => {
                proof {
                    assert(!rule_hit(rules@[i as int], cache.entries@));
                }
            },
        }
        i += 1;
    }
    FingerprintStep::Done { product: None }
}

// ---------------------------------------------------------------------------
// What a title predicate means
// ---------------------------------------------------------------------------

/// A ``title=`X` `` predicate holds of a response exactly when the parsed
/// title exists and contains `X` case-insensitively (`X` itself must be
/// backtick-free to be expressible in the predicate grammar).
pub proof fn lemma_title_predicate(body: Seq<char>, val: Seq<char>)
    requires
        !seq_contains(val, seq!['`']),
    ensures
        pred_sat(body, "title=`"@ + val + seq!['`']) <==> (title_text_of(body) matches Some(t)
            && seq_contains(lower_of(t), lower_of(val))),
{
    let s = "title=`"@ + val + seq!['`'];
    reveal_strlit("title=`");
    reveal_strlit("title");
    reveal_strlit("md5");
    let n = s.len() as int;
    assert(n == 8 + val.len());
    assert(s[5] == '=' && s[6] == '`' && s[n - 1] == '`');
    // val is backtick-free, so backticks sit only at 6 and n-1
    assert forall|i: int| 7 <= i < n - 1 implies s[i] != '`' by {
        assert(s[i] == val[i - 7]);
        if s[i] == '`' {
            assert(crate::text::contains_at(val, seq!['`'], i - 7)) by {
                assert(val.subrange(i - 7, i - 7 + 1) =~= seq!['`']);
            }
        }
    }
    // the last backtick is the closing one
    lemma_last_backtick_spec(s, n);
    let bt = last_backtick_before(s, n);
    assert(bt == n - 1) by {
        if bt == -1 || bt < n - 1 {
            assert(s[n - 1] != '`');
        }
    }
    // the only viable cut is at position 5
    assert(pred_cut_at(s, 5)) by {
        assert(7 <= n - 1 < n && s[n - 1] == '`');
    }
    assert forall|i: int| 5 < i < n implies !pred_cut_at(s, i) by {
        if pred_cut_at(s, i) {
            assert(s[i + 1] == '`');
            assert(i + 1 == 6 || i + 1 == n - 1);
            assert(i + 1 == n - 1);
            let w = choose|w: int| i + 2 <= w < n && s[w] == '`';
            assert(w == 6 || w == n - 1);
        }
    }
    lemma_last_cut_spec(s, n);
    let cut = last_cut_before(s, n);
    assert(cut == 5) by {
        if cut == -1 || cut < 5 {
            assert(!pred_cut_at(s, 5));
        }
        if cut > 5 {
            assert(!pred_cut_at(s, cut));
        }
    }
    assert(s.take(5) =~= "title"@);
    assert(s.subrange(7, n - 1) =~= val);
    assert("title"@ != "md5"@) by {
        assert("title"@.len() == 5 && "md5"@.len() == 3);
    }
}

} // verus!
