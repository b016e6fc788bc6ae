//! The orchestrator's decisions: how work is partitioned, which ports a
//! target gets, the assembled run state, and the final report aggregation.

use vstd::prelude::*;

use crate::config::Config;
use crate::pipeline::SnapshotPipeline;
use crate::poc::Poc;
use crate::pocs::PocDict;
use crate::session::Data;
use crate::text::{split_of, split_str};

verus! {

/// The ports to probe on one target: an explicit port overrides the
/// configured list for that host alone.
pub fn ports_for_target(explicit: Option<u16>, config: &Config) -> (r: Vec<u16>)
    ensures
        r@ == match explicit {
            Some(p) => seq![p],
            None => config.ports@,
        },
{
    match explicit {
        Some(p) => {
            let mut v: Vec<u16> = Vec::new();
            v.push(p);
            proof {
                assert(v@ =~= seq![p]);
            }
            v
        },
        None => config.ports.clone(),
    }
}

/// How many targets one worker's contiguous chunk holds: an even split,
/// never empty.
pub fn chunk_size(len: usize, th_num: usize) -> (r: usize)
    requires
        th_num >= 1,
    ensures
        r == if len / th_num >= 1 {
            len / th_num
        } else {
            1
        },
{
    let c = len / th_num;
    if c >= 1 {
        c
    } else {
        1
    }
}

/// The assembled run: configuration, progress store, the optional snapshot
/// pipeline, and the verifier registry.
pub struct Core {
    pub config: Config,
    pub data: Data,
    pub snapshot_pipeline: Option<SnapshotPipeline>,
    pub poc_dict: PocDict,
}

impl Core {
    /// Assembles a run. The snapshot pipeline exists exactly when snapshots
    /// are enabled, sized for the configured worker count;
    /// `initial_snapshot_done` counts artifacts an earlier run left behind.
    pub fn new(config: Config, data: Data, initial_snapshot_done: u64) -> (r: Core)
        requires
            config.th_num <= u64::MAX / 2,
        ensures
            r.config == config,
            r.data == data,
            r.snapshot_pipeline is Some <==> !config.disable_snapshot,
            r.snapshot_pipeline matches Some(p) ==> p.wf() && p.capacity == 2 * config.th_num
                && p.pending() == 0 && p.done == initial_snapshot_done,
            r.poc_dict.groups@.len() == 2,
            r.poc_dict.groups@[0].product@ == "dahua"@,
            r.poc_dict.groups@[0].pocs@.len() == 1,
            r.poc_dict.groups@[0].pocs@[0].product_spec() == "dahua"@,
            r.poc_dict.groups@[0].pocs@[0].name_spec() == "dahua-weak-password"@,
            r.poc_dict.groups@[1].product@ == "hikvision"@,
            r.poc_dict.groups@[1].pocs@.len() == 1,
            r.poc_dict.groups@[1].pocs@[0].product_spec() == "hikvision"@,
            r.poc_dict.groups@[1].pocs@[0].name_spec() == "hikvision-weak-password"@,
    {
        let poc_dict = crate::pocs::get_poc_dict(&config);
        let snapshot_pipeline = if !config.disable_snapshot {
            Some(SnapshotPipeline::new(config.th_num as u64, initial_snapshot_done))
        } else {
            None
        };
        Core { config, data, snapshot_pipeline, poc_dict }
    }
}

// ---------------------------------------------------------------------------
// The report: confirmed records grouped by product and vulnerability name
// ---------------------------------------------------------------------------

/// The comma fields of one record line.
pub open spec fn line_fields(l: Seq<char>) -> Seq<Seq<char>> {
    split_of(l, seq![','])
}

/// Whether a line is a full record with the given product and name.
pub open spec fn is_record_for(l: Seq<char>, product: Seq<char>, vul: Seq<char>) -> bool {
    line_fields(l).len() >= 6 && line_fields(l)[2] == product && line_fields(l)[5] == vul
}

/// How many of the lines are records with the given product and name.
pub open spec fn record_count(lines: Seq<Seq<char>>, product: Seq<char>, vul: Seq<char>) -> nat
    decreases lines.len(),
{
    if lines.len() == 0 {
        0
    } else {
        record_count(lines.drop_last(), product, vul) + if is_record_for(
            lines.last(),
            product,
            vul,
        ) {
            1nat
        } else {
            0nat
        }
    }
}

/// How many of the lines are full records at all.
pub open spec fn total_records(lines: Seq<Seq<char>>) -> nat
    decreases lines.len(),
{
    if lines.len() == 0 {
        0
    } else {
        total_records(lines.drop_last()) + if line_fields(lines.last()).len() >= 6 {
            1nat
        } else {
            0nat
        }
    }
}

proof fn lemma_record_count_le(lines: Seq<Seq<char>>, product: Seq<char>, vul: Seq<char>)
    ensures
        record_count(lines, product, vul) <= lines.len(),
        total_records(lines) <= lines.len(),
    decreases lines.len(),
{
    if lines.len() > 0 {
        lemma_record_count_le(lines.drop_last(), product, vul);
    }
}

proof fn lemma_record_count_pos(lines: Seq<Seq<char>>, p: Seq<char>, v: Seq<char>, l: int)
    requires
        0 <= l < lines.len(),
        is_record_for(lines[l], p, v),
    ensures
        record_count(lines, p, v) >= 1,
    decreases lines.len(),
{
    if l == lines.len() - 1 {
        lemma_record_count_le(lines.drop_last(), p, v);
    } else {
        assert(lines.drop_last()[l] == lines[l]);
        lemma_record_count_pos(lines.drop_last(), p, v, l);
    }
}

/// The vulnerability tallies of one product.
pub struct ReportEntry {
    pub product: String,
    pub vulns: Vec<(String, u64)>,
}

/// The aggregated report: per product, per vulnerability name, how many
/// records the results hold.
pub struct ReportSummary {
    pub entries: Vec<ReportEntry>,
    pub total: u64,
}

/// A line shaped like a full record.
pub open spec fn is_record(l: Seq<char>) -> bool {
    line_fields(l).len() >= 6
}

pub open spec fn rec_product(l: Seq<char>) -> Seq<char> {
    line_fields(l)[2]
}

pub open spec fn rec_vul(l: Seq<char>) -> Seq<char> {
    line_fields(l)[5]
}

/// Every tally in the summary is exact for the given lines.
pub open spec fn summary_counts_ok(s: ReportSummary, lines: Seq<Seq<char>>) -> bool {
    forall|e: int, v: int|
        0 <= e < s.entries@.len() && 0 <= v < s.entries@[e].vulns@.len()
            ==> (#[trigger] s.entries@[e].vulns@[v]).1 == record_count(
            lines,
            s.entries@[e].product@,
            s.entries@[e].vulns@[v].0@,
        )
}

/// Every full record of the lines has its product and name in the summary.
pub open spec fn summary_complete(s: ReportSummary, lines: Seq<Seq<char>>) -> bool {
    forall|l: int|
        0 <= l < lines.len() && is_record(#[trigger] lines[l]) ==> exists|e: int, v: int|
            0 <= e < s.entries@.len() && 0 <= v < s.entries@[e].vulns@.len()
                && s.entries@[e].product@ == rec_product(lines[l])
                && (#[trigger] s.entries@[e].vulns@[v]).0@ == rec_vul(lines[l])
}

/// Products appear once, and names once within a product.
pub open spec fn summary_keys_unique(s: ReportSummary) -> bool {
    &&& forall|e1: int, e2: int|
        0 <= e1 < e2 < s.entries@.len() ==> (#[trigger] s.entries@[e1].product@) != (
        #[trigger] s.entries@[e2].product@)
    &&& forall|e: int, v1: int, v2: int|
        0 <= e < s.entries@.len() && 0 <= v1 < v2 < s.entries@[e].vulns@.len()
            ==> (#[trigger] s.entries@[e].vulns@[v1]).0@ != (#[trigger] s.entries@[e].vulns@[v2]).0@
}

/// Counts the full records carrying the given product and name.
fn count_records(lines: &Vec<String>, product: &str, vul: &str) -> (r: u64)
    ensures
        r == record_count(lines.deep_view(), product@, vul@),
{
    proof {
        reveal_strlit(",");
        assert(","@ =~= seq![',']);
    }
    let ghost lv = lines.deep_view();
    let mut count: u64 = 0;
    let mut i: usize = 0;
    proof {
        assert(lv.take(0) =~= Seq::<Seq<char>>::empty());
    }
    while i < lines.len()
        invariant
            0 <= i <= lines@.len(),
            lv == lines.deep_view(),
            lv.len() == lines@.len(),
            count == record_count(lv.take(i as int), product@, vul@),
        decreases lines@.len() - i,
    {
        proof {
            reveal_strlit(",");
            assert(","@ =~= seq![',']);
            assert(lv.take(i as int + 1).drop_last() =~= lv.take(i as int));
            assert(lv.take(i as int + 1).last() == lv[i as int]);
            assert(lv[i as int] == lines@[i as int]@);
            lemma_record_count_le(lv.take(i as int), product@, vul@);
        }
        let fields = split_str(lines[i].as_str(), ",");
        proof {
            assert(fields.deep_view() == line_fields(lv[i as int]));
        }
        if fields.len() >= 6 {
            proof {
                assert(fields.deep_view()[2] == fields@[2]@);
                assert(fields.deep_view()[5] == fields@[5]@);
            }
            if crate::text::str_eq_str(fields[2].as_str(), product) && crate::text::str_eq_str(
                fields[5].as_str(),
                vul,
            ) {
                count = count + 1;
            }
        }
        i += 1;
    }
    proof {
        assert(lv.take(lv.len() as int) =~= lv);
    }
    count
}

/// Counts the full records among the lines.
fn count_total_records(lines: &Vec<String>) -> (r: u64)
    ensures
        r == total_records(lines.deep_view()),
{
    proof {
        reveal_strlit(",");
        assert(","@ =~= seq![',']);
    }
    let ghost lv = lines.deep_view();
    let mut count: u64 = 0;
    let mut i: usize = 0;
    proof {
        assert(lv.take(0) =~= Seq::<Seq<char>>::empty());
    }
    while i < lines.len()
        invariant
            0 <= i <= lines@.len(),
            lv == lines.deep_view(),
            lv.len() == lines@.len(),
            count == total_records(lv.take(i as int)),
        decreases lines@.len() - i,
    {
        proof {
            reveal_strlit(",");
            assert(","@ =~= seq![',']);
            assert(lv.take(i as int + 1).drop_last() =~= lv.take(i as int));
            assert(lv.take(i as int + 1).last() == lv[i as int]);
            assert(lv[i as int] == lines@[i as int]@);
            lemma_record_count_le(lv.take(i as int), Seq::empty(), Seq::empty());
        }
        let fields = split_str(lines[i].as_str(), ",");
        proof {
            assert(fields.deep_view() == line_fields(lv[i as int]));
        }
        if fields.len() >= 6 {
            count = count + 1;
        }
        i += 1;
    }
    proof {
        assert(lv.take(lv.len() as int) =~= lv);
    }
    count
}

/// The key one line contributes to a collection pass: the product of a full
/// record, or — under a product filter — the vulnerability name of that
/// product's records.
pub open spec fn qualifying_key(l: Seq<char>, pf: Option<Seq<char>>) -> Option<Seq<char>> {
    if !is_record(l) {
        None
    } else {
        match pf {
            Some(p) => if rec_product(l) == p {
                Some(rec_vul(l))
            } else {
                None
            },
            None => Some(rec_product(l)),
        }
    }
}

/// The view of a product filter.
pub open spec fn pf_view(o: Option<&String>) -> Option<Seq<char>> {
    match o {
        Some(p) => Some(p@),
        None => None,
    }
}

/// The distinct keys the lines hold, first appearance first; beside each
/// key, the index of a line it came from.
fn collect_keys(lines: &Vec<String>, product_filter: Option<&String>) -> (res: (
    Vec<String>,
    Ghost<Seq<int>>,
))
    ensures
        ({
            let r = res.0;
            let wit = res.1@;
            &&& forall|k1: int, k2: int|
                0 <= k1 < k2 < r.deep_view().len() ==> r.deep_view()[k1] != r.deep_view()[k2]
            &&& wit.len() == r.deep_view().len()
            &&& forall|k: int|
                0 <= k < wit.len() ==> 0 <= #[trigger] wit[k] < lines.deep_view().len()
                    && qualifying_key(lines.deep_view()[wit[k]], pf_view(product_filter)) == Some(
                    r.deep_view()[k],
                )
            &&& forall|l: int|
                0 <= l < lines.deep_view().len() && #[trigger] qualifying_key(
                    lines.deep_view()[l],
                    pf_view(product_filter),
                ) is Some ==> r.deep_view().contains(
                    qualifying_key(lines.deep_view()[l], pf_view(product_filter))->0,
                )
        }),
{
    proof {
        reveal_strlit(",");
        assert(","@ =~= seq![',']);
    }
    let ghost lv = lines.deep_view();
    let ghost pf: Option<Seq<char>> = pf_view(product_filter);
    let mut out: Vec<String> = Vec::new();
    let ghost mut wit: Seq<int> = Seq::empty();
    let mut i: usize = 0;
    while i < lines.len()
        invariant
            0 <= i <= lines@.len(),
            lv == lines.deep_view(),
            lv.len() == lines@.len(),
            pf == pf_view(product_filter),
            forall|k1: int, k2: int|
                0 <= k1 < k2 < out.deep_view().len() ==> out.deep_view()[k1]
                    != out.deep_view()[k2],
            wit.len() == out.deep_view().len(),
            forall|k: int|
                0 <= k < wit.len() ==> 0 <= #[trigger] wit[k] < lines.deep_view().len()
                    && qualifying_key(lines.deep_view()[wit[k]], pf_view(product_filter)) == Some(
                    out.deep_view()[k],
                ),
            forall|l: int|
                0 <= l < i && #[trigger] qualifying_key(
                    lines.deep_view()[l],
                    pf_view(product_filter),
                ) is Some ==> out.deep_view().contains(
                    qualifying_key(lines.deep_view()[l], pf_view(product_filter))->0,
                ),
        decreases lines@.len() - i,
    {
        proof {
            reveal_strlit(",");
            assert(","@ =~= seq![',']);
            assert(lv[i as int] == lines@[i as int]@);
        }
        let fields = split_str(lines[i].as_str(), ",");
        proof {
            assert(fields.deep_view() == line_fields(lv[i as int]));
        }
        let mut key_opt: Option<&String> = None;
        if fields.len() >= 6 {
            proof {
                assert(fields.deep_view()[2] == fields@[2]@);
                assert(fields.deep_view()[5] == fields@[5]@);
            }
            match product_filter {
                Some(p) => {
                    if crate::text::str_eq_str(fields[2].as_str(), p.as_str()) {
                        key_opt = Some(&fields[5]);
                    }
                },
                None => {
                    key_opt = Some(&fields[2]);
                },
            }
        }
        match key_opt {
            None => {
                proof {
                    assert(qualifying_key(lines.deep_view()[i as int], pf_view(product_filter))
                        is None);
                }
            },
            Some(key) => {
                proof {
                    assert(qualifying_key(lines.deep_view()[i as int], pf_view(product_filter))
                        == Some(key@));
                }
                let ghost prev = out.deep_view();
                if !crate::config::contains_string(&out, key.as_str()) {
                    out.push(key.clone());
                    proof {
                        assert(out.deep_view().len() == prev.len() + 1);
                        assert(forall|k: int|
                            0 <= k < prev.len() ==> out.deep_view()[k] == #[trigger] prev[k]);
                        assert(out.deep_view()[prev.len() as int] == key@);
                        assert(!prev.contains(key@));
                        assert forall|k1: int, k2: int|
                            0 <= k1 < k2 < out.deep_view().len() implies out.deep_view()[k1]
                            != out.deep_view()[k2] by {
                            if k2 == prev.len() {
                                assert(out.deep_view()[k1] == prev[k1]);
                                if prev[k1] == key@ {
                                    assert(prev.contains(key@)) by {
                                        assert(0 <= k1 < prev.len() && prev[k1] == key@);
                                    }
                                }
                            } else {
                                assert(out.deep_view()[k1] == prev[k1]);
                                assert(out.deep_view()[k2] == prev[k2]);
                            }
                        }
                        assert forall|x: Seq<char>|
                            prev.contains(x) implies out.deep_view().contains(x) by {
                            let w = choose|w: int| 0 <= w < prev.len() && prev[w] == x;
                            assert(out.deep_view()[w] == x);
                        }
                        assert(out.deep_view().contains(key@)) by {
                            assert(out.deep_view()[prev.len() as int] == key@);
                        }
                        wit = wit.push(i as int);
                        assert(forall|k: int|
                            0 <= k < wit.len() - 1 ==> #[trigger] wit[k] == wit.drop_last()[k]);
                    }
                } else {
                    proof {
                        assert(out.deep_view().contains(key@));
                    }
                }
            },
        }
        i += 1;
    }
    (out, Ghost(wit))
}

/// Groups the confirmed-vulnerability records by product and vulnerability
/// name with exact tallies, the line count of full records as the sum, each
/// key appearing once.
pub fn aggregate_report(lines: &Vec<String>) -> (r: ReportSummary)
    ensures
        r.total == total_records(lines.deep_view()),
        summary_counts_ok(r, lines.deep_view()),
        summary_complete(r, lines.deep_view()),
        summary_keys_unique(r),
        // no padded rows: every tally counts at least one record
        forall|e: int, v: int|
            0 <= e < r.entries@.len() && 0 <= v < r.entries@[e].vulns@.len()
                ==> (#[trigger] r.entries@[e].vulns@[v]).1 >= 1,
{
    let ghost lv = lines.deep_view();
    let total = count_total_records(lines);
    let (products, products_wit) = collect_keys(lines, None);
    let mut entries: Vec<ReportEntry> = Vec::new();
    let mut e: usize = 0;
    while e < products.len()
        invariant
            0 <= e <= products@.len(),
            lv == lines.deep_view(),
            entries@.len() == e,
            forall|k1: int, k2: int|
                0 <= k1 < k2 < products.deep_view().len() ==> products.deep_view()[k1]
                    != products.deep_view()[k2],
            forall|k: int|
                0 <= k < e ==> (#[trigger] entries@[k].product@) == products.deep_view()[k],
            forall|k: int, v: int|
                0 <= k < e && 0 <= v < entries@[k].vulns@.len()
                    ==> (#[trigger] entries@[k].vulns@[v]).1 == record_count(
                    lv,
                    entries@[k].product@,
                    entries@[k].vulns@[v].0@,
                ),
            forall|k: int, v1: int, v2: int|
                0 <= k < e && 0 <= v1 < v2 < entries@[k].vulns@.len()
                    ==> (#[trigger] entries@[k].vulns@[v1]).0@ != (
                #[trigger] entries@[k].vulns@[v2]).0@,
            forall|k: int, v: int|
                0 <= k < e && 0 <= v < entries@[k].vulns@.len()
                    ==> (#[trigger] entries@[k].vulns@[v]).1 >= 1,
            forall|l: int|
                0 <= l < lv.len() && is_record(#[trigger] lv[l]) && (exists|k: int|
                    0 <= k < e && rec_product(lv[l]) == #[trigger] products.deep_view()[k]) ==> (
                exists|k: int, v: int|
                    0 <= k < e && 0 <= v < entries@[k].vulns@.len() && entries@[k].product@
                        == rec_product(lv[l]) && (#[trigger] entries@[k].vulns@[v]).0@ == rec_vul(
                        lv[l],
                    )),
        decreases products@.len() - e,
    {
        proof {
            assert(products.deep_view()[e as int] == products@[e as int]@);
        }
        let product = &products[e];
        let (vul_names, vul_wit) = collect_keys(lines, Some(product));
        let mut vulns: Vec<(String, u64)> = Vec::new();
        let mut v: usize = 0;
        while v < vul_names.len()
            invariant
                0 <= v <= vul_names@.len(),
                lv == lines.deep_view(),
                vulns@.len() == v,
                forall|k1: int, k2: int|
                    0 <= k1 < k2 < vul_names.deep_view().len() ==> vul_names.deep_view()[k1]
                        != vul_names.deep_view()[k2],
                forall|k: int|
                    0 <= k < v ==> (#[trigger] vulns@[k]).0@ == vul_names.deep_view()[k],
                forall|k: int|
                    0 <= k < v ==> (#[trigger] vulns@[k]).1 == record_count(
                        lv,
                        product@,
                        vulns@[k].0@,
                    ),
                forall|k: int| 0 <= k < v ==> (#[trigger] vulns@[k]).1 >= 1,
                vul_wit@.len() == vul_names.deep_view().len(),
                forall|k: int|
                    0 <= k < vul_wit@.len() ==> 0 <= #[trigger] vul_wit@[k]
                        < lines.deep_view().len() && qualifying_key(
                        lines.deep_view()[vul_wit@[k]],
                        pf_view(Some(product)),
                    ) == Some(vul_names.deep_view()[k]),
            decreases vul_names@.len() - v,
        {
            proof {
                assert(vul_names.deep_view()[v as int] == vul_names@[v as int]@);
            }
            let count = count_records(lines, product.as_str(), vul_names[v].as_str());
            proof {
                let w = vul_wit@[v as int];
                assert(qualifying_key(lv[w], pf_view(Some(product))) == Some(
                    vul_names.deep_view()[v as int],
                ));
                assert(is_record_for(lv[w], product@, vul_names.deep_view()[v as int]));
                lemma_record_count_pos(lv, product@, vul_names.deep_view()[v as int], w);
            }
            let ghost prev = vulns@;
            vulns.push((vul_names[v].clone(), count));
            proof {
                assert(forall|k: int| 0 <= k < prev.len() ==> vulns@[k] == #[trigger] prev[k]);
            }
            v += 1;
        }
        let ghost prev_entries = entries@;
        let ghost vn = vul_names.deep_view();
        entries.push(ReportEntry { product: product.clone(), vulns });
        proof {
            assert(forall|k: int|
                0 <= k < prev_entries.len() ==> entries@[k] == #[trigger] prev_entries[k]);
            assert(entries@[e as int].product@ == products.deep_view()[e as int]);
            // a record of this product has its name collected, hence indexed
            assert forall|l: int|
                0 <= l < lv.len() && is_record(#[trigger] lv[l]) && rec_product(lv[l])
                    == products.deep_view()[e as int] implies exists|v2: int|
                0 <= v2 < entries@[e as int].vulns@.len()
                    && (#[trigger] entries@[e as int].vulns@[v2]).0@ == rec_vul(lv[l]) by {
                assert(pf_view(Some(product)) == Some(product@));
                assert(qualifying_key(lines.deep_view()[l], pf_view(Some(product))) == Some(
                    rec_vul(lv[l]),
                ));
                assert(vn.contains(rec_vul(lv[l])));
                let w = choose|w: int| 0 <= w < vn.len() && vn[w] == rec_vul(lv[l]);
                assert(entries@[e as int].vulns@[w].0@ == vn[w]);
            }
        }
        e += 1;
    }
    let summary = ReportSummary { entries, total };
    proof {
        assert forall|l: int|
            0 <= l < lv.len() && is_record(#[trigger] lv[l]) implies exists|k: int, v: int|
            0 <= k < summary.entries@.len() && 0 <= v < summary.entries@[k].vulns@.len()
                && summary.entries@[k].product@ == rec_product(lv[l])
                && (#[trigger] summary.entries@[k].vulns@[v]).0@ == rec_vul(lv[l]) by {
            assert(qualifying_key(lines.deep_view()[l], pf_view(Option::<&String>::None)) == Some(
                rec_product(lv[l]),
            ));
            assert(products.deep_view().contains(rec_product(lv[l])));
            let w = choose|w: int|
                0 <= w < products.deep_view().len() && products.deep_view()[w] == rec_product(
                    lv[l],
                );
            assert(0 <= w < products.deep_view().len() && rec_product(lv[l])
                == products.deep_view()[w]);
            assert(exists|k: int|
                0 <= k < e && rec_product(lv[l]) == #[trigger] products.deep_view()[k]) by {
                assert(0 <= w < e && rec_product(lv[l]) == products.deep_view()[w]);
            }
            assert(summary.entries@ == entries@);
        }
    }
    summary
}

} // verus!
