use vstd::prelude::*;
use vstd::string::StringExecFns;
use crate::engine::{RiskLevel, ScanResult, ThreatType};
use crate::text::text_of;
use crate::utils::{append_decimal, decimal};

verus! {

/// The formats a scan report can be rendered in.
#[derive(Debug, Clone, Copy, PartialEq, Eq, Structural)]
pub enum ReportFormat {
    Json,
    Yaml,
    Html,
    Text,
}

impl ReportFormat {
    /// The file extension of a report in this format.
    pub fn extension(&self) -> (r: &'static str)
        ensures
            *self == ReportFormat::Json ==> r@ == "json"@,
            *self == ReportFormat::Yaml ==> r@ == "yaml"@,
            *self == ReportFormat::Html ==> r@ == "html"@,
            *self == ReportFormat::Text ==> r@ == "txt"@,
    {
        match self {
            ReportFormat::Json => "json",
            ReportFormat::Yaml => "yaml",
            ReportFormat::Html => "html",
            ReportFormat::Text => "txt",
        }
    }
}

/// How many results of `rs` are of threat type `t`.
pub open spec fn type_count(rs: Seq<ScanResult>, t: ThreatType) -> nat
    decreases rs.len(),
{
    if rs.len() == 0 {
        0
    } else {
        type_count(rs.drop_last(), t) + if rs.last().threat_type == t {
            1nat
        } else {
            0nat
        }
    }
}

/// How many results of `rs` are of risk level `l`.
pub open spec fn risk_count(rs: Seq<ScanResult>, l: RiskLevel) -> nat
    decreases rs.len(),
{
    if rs.len() == 0 {
        0
    } else {
        risk_count(rs.drop_last(), l) + if rs.last().risk_level == l {
            1nat
        } else {
            0nat
        }
    }
}

proof fn lemma_type_count_le(rs: Seq<ScanResult>, t: ThreatType)
    ensures
        type_count(rs, t) <= rs.len(),
    decreases rs.len(),
{
    if rs.len() > 0 {
        lemma_type_count_le(rs.drop_last(), t);
    }
}

proof fn lemma_risk_count_le(rs: Seq<ScanResult>, l: RiskLevel)
    ensures
        risk_count(rs, l) <= rs.len(),
    decreases rs.len(),
{
    if rs.len() > 0 {
        lemma_risk_count_le(rs.drop_last(), l);
    }
}

/// A table of counts: one row per key, each with the number of results of it,
/// and a row for every key that some result has.
pub open spec fn is_type_table(rows: Seq<(ThreatType, usize)>, rs: Seq<ScanResult>) -> bool {
    &&& forall|i: int, j: int| 0 <= i < rows.len() && 0 <= j < rows.len() && i != j ==> rows[i].0 != rows[j].0
    &&& forall|i: int| 0 <= i < rows.len() ==> #[trigger] rows[i].1 == type_count(rs, rows[i].0) && rows[i].1 > 0
    &&& forall|t: ThreatType| type_count(rs, t) > 0 ==> exists|i: int| 0 <= i < rows.len() && #[trigger] rows[i].0 == t
}

pub open spec fn is_risk_table(rows: Seq<(RiskLevel, usize)>, rs: Seq<ScanResult>) -> bool {
    &&& forall|i: int, j: int| 0 <= i < rows.len() && 0 <= j < rows.len() && i != j ==> rows[i].0 != rows[j].0
    &&& forall|i: int| 0 <= i < rows.len() ==> #[trigger] rows[i].1 == risk_count(rs, rows[i].0) && rows[i].1 > 0
    &&& forall|l: RiskLevel| risk_count(rs, l) > 0 ==> exists|i: int| 0 <= i < rows.len() && #[trigger] rows[i].0 == l
}

/// The recommendation texts of a report on `rs`.
pub open spec fn recommendation_texts(rs: Seq<ScanResult>) -> Seq<Seq<char>> {
    let critical = risk_count(rs, RiskLevel::Critical);
    let virus = type_count(rs, ThreatType::Virus);
    (if critical > 0 {
        seq!["发现 "@ + decimal(critical) + " 个高危威胁，请立即隔离并清除受影响文件"@]
    } else {
        Seq::empty()
    }) + (if virus > 0 {
        seq!["发现 "@ + decimal(virus) + " 个病毒，请使用最新病毒库进行全盘扫描"@]
    } else {
        Seq::empty()
    }) + seq!["建议定期更新病毒库以确保检测能力"@, "建议启用实时文件监控功能"@]
}

/// Builds the summary parts of scan reports; rendering and saving them is left
/// to the caller.
pub struct ReportGenerator {
    pub output_dir: String,
    pub include_system_info: bool,
    pub include_file_hashes: bool,
}

impl ReportGenerator {
    pub fn new(output_dir: String) -> (r: Self)
        ensures
            r.output_dir == output_dir,
            r.include_system_info,
            !r.include_file_hashes,
    {
        ReportGenerator { output_dir, include_system_info: true, include_file_hashes: false }
    }

    /// The number of results of each threat type that occurs.
    pub fn count_threats_by_type(results: &[ScanResult]) -> (r: Vec<(ThreatType, usize)>)
        ensures
            is_type_table(r@, results@),
    {
        let mut rows: Vec<(ThreatType, usize)> = Vec::new();
        let mut i: usize = 0;
        while i < results.len()
            invariant
                i <= results@.len(),
                is_type_table(rows@, results@.subrange(0, i as int)),
            decreases results@.len() - i,
        {
            let t = results[i].threat_type;
            let ghost pre = results@.subrange(0, i as int);
            let ghost next = results@.subrange(0, i + 1);
            assert(next.drop_last() =~= pre);
            proof {
                lemma_type_count_le(pre, t);
            }
            let mut j: usize = 0;
            let mut found = false;
            while j < rows.len() && !found
                invariant
                    j <= rows@.len(),
                    found ==> j < rows@.len() && rows@[j as int].0 == t,
                    !found ==> forall|k: int| 0 <= k < j ==> rows@[k].0 != t,
                decreases rows@.len() - j, if found { 0int } else { 1int },
            {
                if rows[j].0 == t {
                    found = true;
                } else {
                    j = j + 1;
                }
            }
            let ghost old_rows = rows@;
            assert(next.last().threat_type == t);
            if found {
                let c = rows[j].1;
                rows.set(j, (t, c + 1));
                assert forall|u: ThreatType| type_count(next, u) > 0 implies exists|k: int|
                    0 <= k < rows@.len() && #[trigger] rows@[k].0 == u by {
                    if u != t {
                        assert(type_count(next, u) == type_count(pre, u));
                        let k = choose|k: int| 0 <= k < old_rows.len() && #[trigger] old_rows[k].0 == u;
                        assert(rows@[k].0 == u);
                    } else {
                        assert(rows@[j as int].0 == u);
                    }
                }
            } else {
                assert(type_count(pre, t) == 0) by {
                    if type_count(pre, t) > 0 {
                        let k = choose|k: int| 0 <= k < old_rows.len() && #[trigger] old_rows[k].0 == t;
                    }
                }
                rows.push((t, 1));
                assert forall|u: ThreatType| type_count(next, u) > 0 implies exists|k: int|
                    0 <= k < rows@.len() && #[trigger] rows@[k].0 == u by {
                    if u != t {
                        assert(type_count(next, u) == type_count(pre, u));
                        let k = choose|k: int| 0 <= k < old_rows.len() && #[trigger] old_rows[k].0 == u;
                        assert(rows@[k].0 == u);
                    } else {
                        assert(rows@[old_rows.len() as int].0 == u);
                    }
                }
            }
            i = i + 1;
        }
        assert(results@.subrange(0, i as int) =~= results@);
        rows
    }

    /// The number of results of each risk level that occurs.
    pub fn count_threats_by_risk(results: &[ScanResult]) -> (r: Vec<(RiskLevel, usize)>)
        ensures
            is_risk_table(r@, results@),
    {
        let mut rows: Vec<(RiskLevel, usize)> = Vec::new();
        let mut i: usize = 0;
        while i < results.len()
            invariant
                i <= results@.len(),
                is_risk_table(rows@, results@.subrange(0, i as int)),
            decreases results@.len() - i,
        {
            let t = results[i].risk_level;
            let ghost pre = results@.subrange(0, i as int);
            let ghost next = results@.subrange(0, i + 1);
            assert(next.drop_last() =~= pre);
            proof {
                lemma_risk_count_le(pre, t);
            }
            let mut j: usize = 0;
            let mut found = false;
            while j < rows.len() && !found
                invariant
                    j <= rows@.len(),
                    found ==> j < rows@.len() && rows@[j as int].0 == t,
                    !found ==> forall|k: int| 0 <= k < j ==> rows@[k].0 != t,
                decreases rows@.len() - j, if found { 0int } else { 1int },
            {
                if rows[j].0 == t {
                    found = true;
                } else {
                    j = j + 1;
                }
            }
            let ghost old_rows = rows@;
            assert(next.last().risk_level == t);
            if found {
                let c = rows[j].1;
                rows.set(j, (t, c + 1));
                assert forall|u: RiskLevel| risk_count(next, u) > 0 implies exists|k: int|
                    0 <= k < rows@.len() && #[trigger] rows@[k].0 == u by {
                    if u != t {
                        assert(risk_count(next, u) == risk_count(pre, u));
                        let k = choose|k: int| 0 <= k < old_rows.len() && #[trigger] old_rows[k].0 == u;
                        assert(rows@[k].0 == u);
                    } else {
                        assert(rows@[j as int].0 == u);
                    }
                }
            } else {
                assert(risk_count(pre, t) == 0) by {
                    if risk_count(pre, t) > 0 {
                        let k = choose|k: int| 0 <= k < old_rows.len() && #[trigger] old_rows[k].0 == t;
                    }
                }
                rows.push((t, 1));
                assert forall|u: RiskLevel| risk_count(next, u) > 0 implies exists|k: int|
                    0 <= k < rows@.len() && #[trigger] rows@[k].0 == u by {
                    if u != t {
                        assert(risk_count(next, u) == risk_count(pre, u));
                        let k = choose|k: int| 0 <= k < old_rows.len() && #[trigger] old_rows[k].0 == u;
                        assert(rows@[k].0 == u);
                    } else {
                        assert(rows@[old_rows.len() as int].0 == u);
                    }
                }
            }
            i = i + 1;
        }
        assert(results@.subrange(0, i as int) =~= results@);
        rows
    }

    /// The detection name shown for a signature.
    pub fn get_detection_name(&self, signature_id: &str) -> (r: String)
        ensures
            r@ == "Malware."@ + signature_id@,
    {
        text_of("Malware.").concat(signature_id)
    }

    /// Advice for a report: on critical threats and on viruses when there are
    /// any, then two standing items.
    pub fn generate_recommendations(&self, results: &[ScanResult]) -> (r: Vec<String>)
        ensures
            r@.map_values(|s: String| s@) == recommendation_texts(results@),
    {
        let mut critical: usize = 0;
        let mut virus: usize = 0;
        let mut i: usize = 0;
        while i < results.len()
            invariant
                i <= results@.len(),
                critical == risk_count(results@.subrange(0, i as int), RiskLevel::Critical),
                virus == type_count(results@.subrange(0, i as int), ThreatType::Virus),
            decreases results@.len() - i,
        {
            let ghost pre = results@.subrange(0, i as int);
            assert(results@.subrange(0, i + 1).drop_last() =~= pre);
            proof {
                lemma_risk_count_le(pre, RiskLevel::Critical);
                lemma_type_count_le(pre, ThreatType::Virus);
            }
            if results[i].risk_level == RiskLevel::Critical {
                critical = critical + 1;
            }
            if results[i].threat_type == ThreatType::Virus {
                virus = virus + 1;
            }
            i = i + 1;
        }
        assert(results@.subrange(0, i as int) =~= results@);
        let mut r: Vec<String> = Vec::new();
        if critical > 0 {
            let s = append_decimal(text_of("发现 "), critical as u128).concat(" 个高危威胁，请立即隔离并清除受影响文件");
            r.push(s);
        }
        if virus > 0 {
            let s = append_decimal(text_of("发现 "), virus as u128).concat(" 个病毒，请使用最新病毒库进行全盘扫描");
            r.push(s);
        }
        r.push(text_of("建议定期更新病毒库以确保检测能力"));
        r.push(text_of("建议启用实时文件监控功能"));
        assert(r@.map_values(|s: String| s@) =~= recommendation_texts(results@));
        r
    }
}

} // verus!
